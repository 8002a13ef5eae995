//! Settlement: the outcome of a player's hand against the dealer's, and what
//! the outcome pays.

use crate::card::Card;
use crate::hand::{hand_value, is_blackjack_hand, is_bust_hand, Hand};
use vstd::prelude::*;

verus! {

/// How a round ended for one player.
#[derive(Debug, Clone, Copy, PartialEq, Eq, Structural)]
pub enum Outcome {
    Lost,
    Push,
    Won,
    Blackjack,
}

/// The outcome of a player's final hand against the dealer's final hand. The
/// first rule that applies decides:
/// both hold a blackjack: push; the player alone holds one: blackjack; the
/// dealer is bust and the player is not: won; the player is bust: lost; then
/// the higher total wins, and equal totals push.
pub open spec fn settle_hands(player: Seq<Card>, dealer: Seq<Card>) -> Outcome {
    if is_blackjack_hand(player) && is_blackjack_hand(dealer) {
        Outcome::Push
    } else if is_blackjack_hand(player) {
        Outcome::Blackjack
    } else if is_bust_hand(dealer) && !is_bust_hand(player) {
        Outcome::Won
    } else if is_bust_hand(player) {
        Outcome::Lost
    } else if hand_value(player) > hand_value(dealer) {
        Outcome::Won
    } else if hand_value(player) < hand_value(dealer) {
        Outcome::Lost
    } else {
        Outcome::Push
    }
}

/// What is paid back on a bet that was first taken from the bank: nothing on
/// a loss, the bet on a push, twice the bet on a win, and two and a half
/// times the bet, rounded down, on a blackjack.
pub open spec fn credit_for(outcome: Outcome, bet: nat) -> nat {
    match outcome {
        Outcome::Lost => 0,
        Outcome::Push => bet,
        Outcome::Won => 2 * bet,
        Outcome::Blackjack => (bet * 5) / 2,
    }
}

/// The bank after a bet is taken from it and the outcome's credit paid back.
pub open spec fn settled_bank(bank: nat, bet: nat, outcome: Outcome) -> int {
    bank - bet + credit_for(outcome, bet)
}

/// What a settled bet adds to the bank, less what it takes from it: the
/// change of the bank over the round.
pub open spec fn net_change_for(outcome: Outcome, bet: nat) -> int {
    credit_for(outcome, bet) - bet
}

impl Outcome {
    /// The outcome as a number: -1 lost, 0 push, 1 won, 2 blackjack.
    pub open spec fn spec_code(self) -> int {
        match self {
            Outcome::Lost => -1,
            Outcome::Push => 0,
            Outcome::Won => 1,
            Outcome::Blackjack => 2,
        }
    }

    /// The outcome as a number: -1 lost, 0 push, 1 won, 2 blackjack.
    pub fn code(self) -> (c: i8)
        ensures
            c == self.spec_code(),
    {
        match self {
            Outcome::Lost => -1,
            Outcome::Push => 0,
            Outcome::Won => 1,
            Outcome::Blackjack => 2,
        }
    }

    /// What the outcome pays back on `bet`.
    pub fn credit(self, bet: u32) -> (c: u64)
        ensures
            c == credit_for(self, bet as nat),
    {
        let wide: u64 = bet as u64;
        match self {
            Outcome::Lost => 0,
            Outcome::Push => wide,
            Outcome::Won => 2 * wide,
            Outcome::Blackjack => (wide * 5) / 2,
        }
    }
}

/// The change of a player's bank over a round that ended with `outcome` on
/// `bet`: the bet is lost on a loss and gained on a win, a push changes
/// nothing, and a blackjack gains one and a half times the bet, rounded down.
pub fn net_change(outcome: Outcome, bet: u32) -> (change: i64)
    ensures
        change == net_change_for(outcome, bet as nat),
        change == (match outcome {
            Outcome::Lost => -(bet as int),
            Outcome::Push => 0,
            Outcome::Won => bet as int,
            Outcome::Blackjack => bet + bet / 2,
        }),
{
    let wide: i64 = bet as i64;
    match outcome {
        Outcome::Lost => -wide,
        Outcome::Push => 0,
        Outcome::Won => wide,
        Outcome::Blackjack => (wide * 5) / 2 - wide,
    }
}

/// Decides the outcome of a player's final hand against the dealer's.
pub fn settle(player: &Hand, dealer: &Hand) -> (outcome: Outcome)
    requires
        player.fits(),
        dealer.fits(),
    ensures
        outcome == settle_hands(player@, dealer@),
{
    let player_blackjack = player.is_blackjack();
    let dealer_blackjack = dealer.is_blackjack();
    let player_total = player.value();
    let dealer_total = dealer.value();
    if player_blackjack && dealer_blackjack {
        Outcome::Push
    } else if player_blackjack {
        Outcome::Blackjack
    } else if dealer_total > 21 && player_total <= 21 {
        Outcome::Won
    } else if player_total > 21 {
        Outcome::Lost
    } else if player_total > dealer_total {
        Outcome::Won
    } else if player_total < dealer_total {
        Outcome::Lost
    } else {
        Outcome::Push
    }
}

/// A blackjack against a dealer without one is paid as a blackjack, and the
/// bank gains one and a half times the bet, rounded down.
pub proof fn lemma_blackjack_pays(player: Seq<Card>, dealer: Seq<Card>, bank: nat, bet: nat)
    requires
        is_blackjack_hand(player),
        !is_blackjack_hand(dealer),
    ensures
        settle_hands(player, dealer) == Outcome::Blackjack,
        settled_bank(bank, bet, Outcome::Blackjack) == bank - bet + (bet * 5) / 2,
        settled_bank(bank, bet, Outcome::Blackjack) == bank + bet + bet / 2,
        net_change_for(Outcome::Blackjack, bet) == bet + bet / 2,
{
}

/// With neither hand bust and neither a blackjack, the lower total loses the
/// bet, the higher total gains it, and equal totals leave the bank as it was.
pub proof fn lemma_totals_decide(player: Seq<Card>, dealer: Seq<Card>, bank: nat, bet: nat)
    requires
        !is_blackjack_hand(player),
        !is_bust_hand(player),
        !is_bust_hand(dealer),
    ensures
        hand_value(player) < hand_value(dealer) ==> settle_hands(player, dealer) == Outcome::Lost
            && settled_bank(bank, bet, settle_hands(player, dealer)) == bank - bet,
        hand_value(player) > hand_value(dealer) ==> settle_hands(player, dealer) == Outcome::Won
            && settled_bank(bank, bet, settle_hands(player, dealer)) == bank + bet,
        hand_value(player) == hand_value(dealer) ==> settle_hands(player, dealer) == Outcome::Push
            && settled_bank(bank, bet, settle_hands(player, dealer)) == bank,
{
}

/// A bust player loses the bet whatever the dealer holds.
pub proof fn lemma_bust_loses(player: Seq<Card>, dealer: Seq<Card>, bank: nat, bet: nat)
    requires
        is_bust_hand(player),
    ensures
        settle_hands(player, dealer) == Outcome::Lost,
        settled_bank(bank, bet, settle_hands(player, dealer)) == bank - bet,
{
}

} // verus!
