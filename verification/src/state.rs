//! The phases of a round, and what a hit reports.

use vstd::prelude::*;

verus! {

/// The phase of a round.
#[derive(Debug, Clone, Copy, PartialEq, Eq, Structural)]
pub enum GameState {
    /// The number of players and their bets are being set.
    Setup,
    /// Cards are being dealt.
    DealingCards,
    /// The players hit or stand.
    PlayersTurn,
    /// The dealer's second card is shown and the dealer draws.
    DealerTurn,
    /// The round is settled.
    Result,
}

impl GameState {
    /// The phase that follows: the phases in order, and after the result
    /// the next deal.
    pub open spec fn following(self) -> GameState {
        match self {
            GameState::Setup => GameState::DealingCards,
            GameState::DealingCards => GameState::PlayersTurn,
            GameState::PlayersTurn => GameState::DealerTurn,
            GameState::DealerTurn => GameState::Result,
            GameState::Result => GameState::DealingCards,
        }
    }

    /// The phase that follows this one.
    pub fn next(self) -> (s: GameState)
        ensures
            s == self.following(),
    {
        match self {
            GameState::Setup => GameState::DealingCards,
            GameState::DealingCards => GameState::PlayersTurn,
            GameState::PlayersTurn => GameState::DealerTurn,
            GameState::DealerTurn => GameState::Result,
            GameState::Result => GameState::DealingCards,
        }
    }
}

/// What a player asks for on their turn.
#[derive(Debug, Clone, Copy, PartialEq, Eq, Structural)]
pub enum Action {
    /// Take one more card.
    Hit,
    /// Take no more cards this round.
    Stand,
}

impl Action {
    /// The action that a key asks for: `t` hits and `r` stands.
    pub open spec fn of_key(key: char) -> Option<Action> {
        if key == 't' {
            Some(Action::Hit)
        } else if key == 'r' {
            Some(Action::Stand)
        } else {
            None
        }
    }

    /// The action that a key asks for, if it asks for one.
    pub fn from_key(key: char) -> (a: Option<Action>)
        ensures
            a == Action::of_key(key),
    {
        if key == 't' {
            Some(Action::Hit)
        } else if key == 'r' {
            Some(Action::Stand)
        } else {
            None
        }
    }
}

/// What a hit led to.
#[derive(Debug, Clone, Copy, PartialEq, Eq, Structural)]
pub enum HitResult {
    /// The hand is below 21, with the given total.
    Continue(u8),
    /// The hand is exactly 21.
    Blackjack,
    /// The hand is over 21.
    Bust,
}

} // verus!
