//! The participants of a round: the players and the dealer.

use crate::card::Card;
use crate::error::GameError;
use crate::hand::{
    hand_value, hard_total, is_blackjack_hand, is_bust_hand, lemma_hard_total_push, Hand,
};
use crate::settlement::{settled_bank, Outcome};
use crate::state::HitResult;
use vstd::prelude::*;

verus! {

/// Which side of the table a participant sits on.
#[derive(Debug, Clone, Copy, PartialEq, Eq, Structural)]
pub enum Who {
    Player,
    Dealer,
}

/// A player: a hand, a bank, the current bet, and how the round stands.
#[derive(Debug)]
pub struct Player {
    pub hand: Hand,
    pub bank: u32,
    pub bet: u32,
    pub who: Who,
    pub outcome: Outcome,
    pub finished: bool,
}

/// What a hit reports of the hand it led to: bust over 21, blackjack at 21,
/// and below that the total with which the player goes on.
pub open spec fn hit_report(hand: Seq<Card>) -> HitResult {
    if hand_value(hand) > 21 {
        HitResult::Bust
    } else if hand_value(hand) == 21 {
        HitResult::Blackjack
    } else {
        HitResult::Continue(hand_value(hand) as u8)
    }
}

/// The outcome that a hit leaves: lost over 21, blackjack at 21, and below
/// that the outcome as it was.
pub open spec fn outcome_after_hit(hand: Seq<Card>, before: Outcome) -> Outcome {
    if hand_value(hand) > 21 {
        Outcome::Lost
    } else if hand_value(hand) == 21 {
        Outcome::Blackjack
    } else {
        before
    }
}

impl Player {
    /// The player may still hit or stand: they have not stood, are not bust
    /// and hold no blackjack.
    pub open spec fn may_act(&self) -> bool {
        !self.finished && !is_bust_hand(self.hand@) && !is_blackjack_hand(self.hand@)
    }

    /// The bet can be taken from the bank, and the bank holds what the
    /// current outcome leaves in it.
    pub open spec fn can_settle(&self) -> bool {
        self.bet <= self.bank && settled_bank(self.bank as nat, self.bet as nat, self.outcome)
            <= u32::MAX
    }

    /// The bet can be taken from the bank, and the bank holds what any
    /// outcome leaves in it.
    pub open spec fn can_settle_any(&self) -> bool {
        self.bet <= self.bank && settled_bank(
            self.bank as nat,
            self.bet as nat,
            Outcome::Blackjack,
        ) <= u32::MAX
    }

    /// A new player with a bank of 1000, a bet of 10 and an empty hand.
    pub fn new() -> (p: Player)
        ensures
            p.hand@ == Seq::<Card>::empty(),
            p.bank == 1000,
            p.bet == 10,
            p.who == Who::Player,
            p.outcome == Outcome::Push,
            !p.finished,
    {
        Self {
            hand: Hand::new(),
            bank: 1000,
            bet: 10,
            who: Who::Player,
            outcome: Outcome::Push,
            finished: false,
        }
    }

    /// Empties the hand and puts the round's marks back to their start. The
    /// cards of the hand are dropped, not discarded.
    pub fn reset(&mut self)
        ensures
            final(self).hand@ == Seq::<Card>::empty(),
            final(self).outcome == Outcome::Push,
            !final(self).finished,
            final(self).bank == old(self).bank,
            final(self).bet == old(self).bet,
            final(self).who == old(self).who,
    {
        self.hand.clear();
        self.outcome = Outcome::Push;
        self.finished = false;
    }

    /// Places a bet. A bet greater than the bank is refused and changes
    /// nothing.
    pub fn set_bet(&mut self, amount: u32) -> (r: Result<(), GameError>)
        ensures
            amount > old(self).bank ==> r == Err::<(), GameError>(GameError::BetExceedsBank)
                && *final(self) == *old(self),
            amount <= old(self).bank ==> r is Ok && *final(self) == (Player {
                bet: amount,
                ..*old(self)
            }),
    {
        if amount > self.bank {
            Err(GameError::BetExceedsBank)
        } else {
            self.bet = amount;
            Ok(())
        }
    }

    /// Whether the player may still hit or stand.
    pub fn can_act(&self) -> (b: bool)
        requires
            self.hand.fits(),
        ensures
            b == self.may_act(),
    {
        !self.finished && !self.hand.is_bust() && !self.hand.is_blackjack()
    }

    /// Takes `card` into the hand and marks what the new total means: over
    /// 21 the player has lost, at 21 they are marked with a blackjack.
    pub fn receive_card(&mut self, card: Card) -> (r: HitResult)
        requires
            hard_total(old(self).hand@) + card.points() <= u8::MAX,
        ensures
            final(self).hand.fits(),
            final(self).hand@ == old(self).hand@.push(card),
            final(self).outcome == outcome_after_hit(final(self).hand@, old(self).outcome),
            final(self).bank == old(self).bank,
            final(self).bet == old(self).bet,
            final(self).who == old(self).who,
            final(self).finished == old(self).finished,
            r == hit_report(final(self).hand@),
    {
        proof {
            lemma_hard_total_push(self.hand@, card);
        }
        self.hand.add_card(card);
        let total = self.hand.value();
        if total > 21 {
            self.outcome = Outcome::Lost;
            HitResult::Bust
        } else if total == 21 {
            self.outcome = Outcome::Blackjack;
            HitResult::Blackjack
        } else {
            HitResult::Continue(total)
        }
    }

    /// Whether [`Player::apply_result`] can be carried out on this player.
    pub fn is_settleable(&self) -> (b: bool)
        ensures
            b == self.can_settle(),
    {
        self.bet <= self.bank && (self.bank - self.bet) as u64 + self.outcome.credit(self.bet)
            <= u32::MAX as u64
    }

    /// Whether [`Player::apply_result`] can be carried out on this player
    /// whatever the outcome will be.
    pub fn is_settleable_any(&self) -> (b: bool)
        ensures
            b == self.can_settle_any(),
            b ==> forall|outcome: Outcome|
                (#[trigger] settled_bank(self.bank as nat, self.bet as nat, outcome)) <= u32::MAX,
    {
        self.bet <= self.bank && (self.bank - self.bet) as u64 + Outcome::Blackjack.credit(self.bet)
            <= u32::MAX as u64
    }

    /// Takes the bet from the bank, then pays back what the outcome grants.
    pub fn apply_result(&mut self)
        requires
            old(self).can_settle(),
        ensures
            final(self).bank == settled_bank(
                old(self).bank as nat,
                old(self).bet as nat,
                old(self).outcome,
            ),
            *final(self) == (Player { bank: final(self).bank, ..*old(self) }),
    {
        self.bank = self.bank - self.bet;
        let credit = self.outcome.credit(self.bet);
        self.bank = (self.bank as u64 + credit) as u32;
    }
}

/// The dealer: a hand and the house bank.
#[derive(Debug)]
pub struct Dealer {
    pub hand: Hand,
    pub bank: u32,
    pub who: Who,
}

impl Dealer {
    /// A new dealer with a bank of 100000 and an empty hand.
    pub fn new() -> (d: Dealer)
        ensures
            d.hand@ == Seq::<Card>::empty(),
            d.bank == 100000,
            d.who == Who::Dealer,
    {
        Self { hand: Hand::new(), bank: 100000, who: Who::Dealer }
    }
}

} // verus!
