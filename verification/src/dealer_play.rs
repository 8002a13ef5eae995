//! The dealer's side of a round: the draw to 17, the settlement that
//! follows it, and what of the dealer's hand is shown.

use crate::card::Card;
use crate::error::GameError;
use crate::game::Game;
use crate::hand::{hand_value, hard_total, is_bust_hand, lemma_hard_total_push};
use crate::player::Player;
use crate::settlement::{settle_hands, settled_bank};
use crate::state::GameState;
use crate::table::all_bust;
use vstd::prelude::*;

verus! {

/// The dealer's play from the table `before` to the table `after`: cards
/// came from the shoe to the end of the dealer's hand, each of them drawn on
/// a total below 17. As long as the draw pile of `before` lasted, the cards
/// left it from its top, one by one, and the discard pile stayed as it was.
pub open spec fn dealer_played(before: Game, after: Game) -> bool {
    let held = before.dealer.hand@.len() as int;
    let drawn = after.dealer.hand@.len() - held;
    let pile = before.deck.cards@;
    &&& drawn >= 0
    &&& after.dealer.hand@.take(held) == before.dealer.hand@
    &&& forall|k: int|
        held <= k < held + drawn ==> hand_value(#[trigger] after.dealer.hand@.take(k)) < 17
    &&& after.dealer.bank == before.dealer.bank
    &&& after.dealer.who == before.dealer.who
    &&& after.deck.count() + drawn == before.deck.count()
    &&& drawn <= pile.len() ==> {
        &&& after.deck.cards@ == pile.take(pile.len() - drawn)
        &&& after.deck.discarded@ == before.deck.discarded@
        &&& forall|j: int|
            0 <= j < drawn
                ==> #[trigger] after.dealer.hand@[held + j] == pile[pile.len() - 1 - j]
    }
}

/// One draw on a total below 17 carries the dealer's play one card on.
proof fn lemma_dealer_draws(before: Game, prev: Game, now: Game, card: Card)
    requires
        dealer_played(before, prev),
        hand_value(prev.dealer.hand@) < 17,
        prev.deck.draws_to(card, now.deck),
        now.dealer.hand@ == prev.dealer.hand@.push(card),
        now.dealer.bank == prev.dealer.bank,
        now.dealer.who == prev.dealer.who,
    ensures
        dealer_played(before, now),
{
    let held = before.dealer.hand@.len() as int;
    let pile = before.deck.cards@;
    let hand = prev.dealer.hand@;
    let longer = now.dealer.hand@;
    let drawn = hand.len() - held;
    assert(longer.take(held) =~= hand.take(held));
    assert forall|k: int|
        held <= k < held + drawn + 1 implies hand_value(#[trigger] longer.take(k)) < 17 by {
        if k < held + drawn {
            assert(longer.take(k) =~= hand.take(k));
        } else {
            assert(longer.take(k) =~= hand);
        }
    }
    if drawn + 1 <= pile.len() {
        assert(prev.deck.cards@ == pile.take(pile.len() - drawn));
        assert(now.deck.cards@ =~= pile.take(pile.len() - drawn - 1));
        assert forall|j: int|
            0 <= j < drawn + 1 implies #[trigger] longer[held + j] == pile[pile.len() - 1 - j] by {
            if j < drawn {
                assert(longer[held + j] == hand[held + j]);
            }
        }
    }
}

impl Game {
    /// Whether the dealer's whole hand is shown: from the dealer's turn on.
    /// Before that only the first card is.
    pub open spec fn dealer_revealed(&self) -> bool {
        self.state == GameState::DealerTurn || self.state == GameState::Result
    }

    /// The cards of the dealer's hand that are shown: the whole hand from
    /// the dealer's turn on, before that the first card alone.
    pub open spec fn dealer_shown(&self) -> Seq<Card> {
        if self.dealer_revealed() || self.dealer.hand@.len() == 0 {
            self.dealer.hand@
        } else {
            self.dealer.hand@.take(1)
        }
    }

    /// Whether the dealer must draw: the dealer draws below 17 and stands
    /// on 17 or more.
    pub fn dealer_should_hit(&self) -> (b: bool)
        requires
            self.dealer.hand.fits(),
        ensures
            b == (hand_value(self.dealer.hand@) < 17),
    {
        self.dealer.hand.value() < 17
    }

    /// The dealer draws until the hand totals 17 or more. Fails when the
    /// shoe runs out before that; the cards drawn until then stay in the
    /// hand.
    pub fn run_dealer_turn(&mut self) -> (r: Result<(), GameError>)
        requires
            old(self).wf(),
        ensures
            final(self).wf(),
            final(self).state == GameState::DealerTurn,
            final(self).players == old(self).players,
            final(self).all_cards() == old(self).all_cards(),
            dealer_played(*old(self), *final(self)),
            r is Ok <==> hand_value(final(self).dealer.hand@) >= 17,
            r is Err ==> {
                &&& r == Err::<(), GameError>(GameError::ShoeExhausted)
                &&& final(self).deck.is_empty()
            },
    {
        self.state = GameState::DealerTurn;
        proof {
            let hand = self.dealer.hand@;
            let pile = self.deck.cards@;
            assert(hand.take(hand.len() as int) =~= hand);
            assert(pile.take(pile.len() - 0) =~= pile);
        }
        while self.dealer_should_hit()
            invariant
                self.wf(),
                self.state == GameState::DealerTurn,
                self.players == old(self).players,
                self.all_cards() == old(self).all_cards(),
                dealer_played(*old(self), *self),
            decreases
                    (if hard_total(self.dealer.hand@) < 17 {
                        17 - hard_total(self.dealer.hand@)
                    } else {
                        0
                    }),
        {
            let ghost prev = *self;
            match self.deck.draw() {
                None => {
                    return Err(GameError::ShoeExhausted);
                },
                Some(card) => {
                    self.dealer.hand.add_card(card);
                    proof {
                        lemma_hard_total_push(prev.dealer.hand@, card);
                        vstd::seq_lib::to_multiset_build(prev.dealer.hand@, card);
                        assert(self.all_cards() =~= old(self).all_cards());
                        lemma_dealer_draws(*old(self), prev, *self, card);
                    }
                },
            }
        }
        Ok(())
    }

    /// Whether every player is bust. With no player at the table this is
    /// true.
    pub fn all_players_bust(&self) -> (b: bool)
        requires
            self.wf(),
        ensures
            b == all_bust(self.players@),
    {
        let mut i: usize = 0;
        while i < self.players.len()
            invariant
                i <= self.players@.len(),
                self.wf(),
                forall|j: int| 0 <= j < i ==> is_bust_hand((#[trigger] self.players@[j]).hand@),
            decreases self.players@.len() - i,
        {
            if !self.players[i].hand.is_bust() {
                return false;
            }
            i = i + 1;
        }
        true
    }

    /// The dealer's turn and the settlement that follows it. The dealer
    /// draws to 17 unless every player is already bust; then every player's
    /// outcome is decided and applied to their bank. Fails when the shoe runs
    /// out under the dealer: then nothing is settled.
    pub fn dealer_turn(&mut self) -> (r: Result<(), GameError>)
        requires
            old(self).wf(),
            old(self).can_settle_any(),
        ensures
            final(self).wf(),
            final(self).all_cards() == old(self).all_cards(),
            final(self).players@.len() == old(self).players@.len(),
            all_bust(old(self).players@) ==> {
                &&& r is Ok
                &&& final(self).deck == old(self).deck
                &&& final(self).dealer == old(self).dealer
            },
            !all_bust(old(self).players@) ==> {
                &&& dealer_played(*old(self), *final(self))
                &&& r is Ok <==> hand_value(final(self).dealer.hand@) >= 17
            },
            r is Err ==> {
                &&& r == Err::<(), GameError>(GameError::ShoeExhausted)
                &&& final(self).deck.is_empty()
                &&& final(self).players == old(self).players
                &&& final(self).state == GameState::DealerTurn
            },
            r is Ok ==> final(self).state == GameState::Result,
            r is Ok ==> forall|i: int|
                0 <= i < old(self).players@.len() ==> {
                    let before = old(self).players@[i];
                    let outcome = settle_hands(before.hand@, final(self).dealer.hand@);
                    &&& (#[trigger] final(self).players@[i]).bank == settled_bank(
                        before.bank as nat,
                        before.bet as nat,
                        outcome,
                    )
                    &&& final(self).players@[i] == (Player {
                        outcome: outcome,
                        bank: final(self).players@[i].bank,
                        ..before
                    })
                },
    {
        if self.all_players_bust() {
            self.state = GameState::DealerTurn;
        } else {
            match self.run_dealer_turn() {
                Err(e) => {
                    return Err(e);
                },
                Ok(()) => {},
            }
        }
        self.settle_and_pay();
        Ok(())
    }

    /// The cards of the dealer's hand that are shown.
    pub fn dealer_shown_cards(&self) -> (shown: Vec<Card>)
        ensures
            shown@ == self.dealer_shown(),
    {
        let revealed = match self.state {
            GameState::DealerTurn | GameState::Result => true,
            _ => false,
        };
        let held = self.dealer.hand.cards.len();
        let limit = if revealed || held == 0 {
            held
        } else {
            1
        };
        let mut shown: Vec<Card> = Vec::new();
        let mut i: usize = 0;
        while i < limit
            invariant
                i <= limit,
                limit <= self.dealer.hand@.len(),
                shown@ == self.dealer.hand@.take(i as int),
            decreases limit - i,
        {
            shown.push(self.dealer.hand.cards[i]);
            assert(self.dealer.hand@.take(i + 1) =~= self.dealer.hand@.take(i as int).push(
                self.dealer.hand@[i as int],
            ));
            i = i + 1;
        }
        assert(self.dealer.hand@.take(held as int) =~= self.dealer.hand@);
        shown
    }

    /// The total that the dealer's hand shows: the hand's total from the
    /// dealer's turn on, before that the points of the first card alone.
    pub fn dealer_shown_value(&self) -> (v: u8)
        requires
            self.dealer.hand.fits(),
        ensures
            v == (if self.dealer_revealed() {
                hand_value(self.dealer.hand@)
            } else if self.dealer.hand@.len() == 0 {
                0
            } else {
                self.dealer.hand@[0].points()
            }),
    {
        match self.state {
            GameState::DealerTurn | GameState::Result => self.dealer.hand.value(),
            _ => self.dealer.hand.first_card_value(),
        }
    }
}

} // verus!
