//! The deal: two rounds in which every player by seat and then the dealer
//! takes one card, and what leads up to it between two rounds.

use crate::card::Card;
use crate::error::GameError;
use crate::game::Game;
use crate::hand::{hard_total, lemma_hard_total_push, lemma_no_cards};
use crate::settlement::Outcome;
use crate::state::GameState;
use crate::table::{
    hands_in_order, lemma_hands_cards_empty, lemma_hands_cards_push, lemma_hands_cards_same,
    lemma_hands_in_order_cards, marked_for_round,
};
use vstd::prelude::*;

verus! {

/// How many draws a deal has made before round `round` (0 or 1, and 2 for
/// the end of the deal) at a table of `seats` players and the dealer.
pub open spec fn draws_before_round(round: int, seats: int) -> int {
    if round == 0 {
        0
    } else if round == 1 {
        seats + 1
    } else {
        2 * (seats + 1)
    }
}

/// The card that round `round` of a deal gives to the participant at
/// `place`, from a draw pile `pile` that lasts for it: the players take their
/// places by seat and the dealer takes the place after the last player, and
/// each draw takes the card that is then the last of the pile.
pub open spec fn dealt_card(pile: Seq<Card>, seats: int, round: int, place: int) -> Card {
    pile[pile.len() - 1 - draws_before_round(round, seats) - place]
}

/// The state of a deal from the table `before`, when in round `round` the
/// first `seat` players have been served. Every draw took one card from the
/// shoe to a hand, so that no hand totals more than ten points a card; the
/// players are marked for a new round. As long as the draw pile of `before`
/// lasted, the cards left it from its top in the order of the draws: each
/// round serves the players by seat and then the dealer.
pub open spec fn dealing(before: Game, now: Game, round: int, seat: int) -> bool {
    let seats = before.players@.len() as int;
    let pile = before.deck.cards@;
    let turn = draws_before_round(round, seats) + seat;
    &&& marked_for_round(before.players@, now.players@)
    &&& now.all_cards() == before.all_cards()
    &&& now.deck.count() + turn == before.deck.count()
    &&& now.dealer.bank == before.dealer.bank
    &&& now.dealer.who == before.dealer.who
    &&& now.dealer.hand@.len() == round
    &&& hard_total(now.dealer.hand@) <= 10 * round
    &&& forall|j: int|
        0 <= j < seats ==> {
            &&& (#[trigger] now.players@[j]).hand@.len() == round + (if j < seat {
                1int
            } else {
                0int
            })
            &&& hard_total(now.players@[j].hand@) <= 10 * now.players@[j].hand@.len()
        }
    &&& turn <= pile.len() ==> {
        &&& now.deck.cards@ == pile.take(pile.len() - turn)
        &&& now.deck.discarded@ == before.deck.discarded@
        &&& forall|j: int, q: int|
            0 <= j < seats && 0 <= q < now.players@[j].hand@.len()
                ==> #[trigger] now.players@[j].hand@[q] == dealt_card(pile, seats, q, j)
        &&& forall|q: int|
            0 <= q < now.dealer.hand@.len()
                ==> #[trigger] now.dealer.hand@[q] == dealt_card(pile, seats, q, seats)
    }
}

/// One draw for the player at `seat` carries a deal one step on.
proof fn lemma_dealing_seat(
    before: Game,
    prev: Game,
    now: Game,
    round: int,
    seat: int,
    card: Card,
)
    requires
        0 <= round < 2,
        0 <= seat < before.players@.len(),
        dealing(before, prev, round, seat),
        prev.deck.draws_to(card, now.deck),
        now.dealer == prev.dealer,
        now.players@.len() == prev.players@.len(),
        now.players@[seat].hand@ == prev.players@[seat].hand@.push(card),
        now.players@[seat].bank == prev.players@[seat].bank,
        now.players@[seat].bet == prev.players@[seat].bet,
        now.players@[seat].who == prev.players@[seat].who,
        now.players@[seat].outcome == prev.players@[seat].outcome,
        now.players@[seat].finished == prev.players@[seat].finished,
        forall|j: int|
            0 <= j < prev.players@.len() && j != seat ==> #[trigger] now.players@[j]
                == prev.players@[j],
    ensures
        dealing(before, now, round, seat + 1),
{
    let seats = before.players@.len() as int;
    let pile = before.deck.cards@;
    let turn = draws_before_round(round, seats) + seat;
    let hand = prev.players@[seat].hand@;
    lemma_hands_cards_push(prev.players@, seat, now.players@[seat], card);
    assert(now.players@ =~= prev.players@.update(seat, now.players@[seat]));
    assert(now.all_cards() =~= before.all_cards());
    lemma_hard_total_push(hand, card);
    assert forall|j: int| 0 <= j < seats implies {
        &&& (#[trigger] now.players@[j]).bank == before.players@[j].bank
        &&& now.players@[j].bet == before.players@[j].bet
        &&& now.players@[j].who == before.players@[j].who
        &&& now.players@[j].outcome == Outcome::Push
        &&& !now.players@[j].finished
    } by {
        if j != seat {
            assert(now.players@[j] == prev.players@[j]);
        }
    }
    assert forall|j: int| 0 <= j < seats implies {
        &&& (#[trigger] now.players@[j]).hand@.len() == round + (if j < seat + 1 {
            1int
        } else {
            0int
        })
        &&& hard_total(now.players@[j].hand@) <= 10 * now.players@[j].hand@.len()
    } by {
        if j != seat {
            assert(now.players@[j] == prev.players@[j]);
        }
    }
    if turn + 1 <= pile.len() {
        assert(prev.deck.cards@ == pile.take(pile.len() - turn));
        assert(now.deck.cards@ =~= pile.take(pile.len() - (turn + 1)));
        assert(card == dealt_card(pile, seats, round, seat));
        assert forall|j: int, q: int|
            0 <= j < seats && 0 <= q < now.players@[j].hand@.len()
            implies #[trigger] now.players@[j].hand@[q] == dealt_card(pile, seats, q, j) by {
            if j != seat {
                assert(now.players@[j] == prev.players@[j]);
                assert(prev.players@[j].hand@[q] == dealt_card(pile, seats, q, j));
            } else if q < hand.len() {
                assert(prev.players@[j].hand@[q] == dealt_card(pile, seats, q, j));
            }
        }
    }
}

/// One draw for the dealer ends a round of a deal.
proof fn lemma_dealing_dealer(before: Game, prev: Game, now: Game, round: int, card: Card)
    requires
        0 <= round < 2,
        dealing(before, prev, round, before.players@.len() as int),
        prev.deck.draws_to(card, now.deck),
        now.players == prev.players,
        now.dealer.hand@ == prev.dealer.hand@.push(card),
        now.dealer.bank == prev.dealer.bank,
        now.dealer.who == prev.dealer.who,
    ensures
        dealing(before, now, round + 1, 0),
{
    let seats = before.players@.len() as int;
    let pile = before.deck.cards@;
    let turn = draws_before_round(round, seats) + seats;
    let hand = prev.dealer.hand@;
    vstd::seq_lib::to_multiset_build(hand, card);
    assert(now.all_cards() =~= before.all_cards());
    lemma_hard_total_push(hand, card);
    assert(turn + 1 == draws_before_round(round + 1, seats));
    if turn + 1 <= pile.len() {
        assert(prev.deck.cards@ == pile.take(pile.len() - turn));
        assert(now.deck.cards@ =~= pile.take(pile.len() - (turn + 1)));
        assert(card == dealt_card(pile, seats, round, seats));
        assert forall|j: int, q: int|
            0 <= j < seats && 0 <= q < now.players@[j].hand@.len()
            implies #[trigger] now.players@[j].hand@[q] == dealt_card(pile, seats, q, j) by {
            assert(prev.players@[j].hand@[q] == dealt_card(pile, seats, q, j));
        }
        assert forall|q: int|
            0 <= q < now.dealer.hand@.len()
            implies #[trigger] now.dealer.hand@[q] == dealt_card(pile, seats, q, seats) by {
            if q < hand.len() {
                assert(prev.dealer.hand@[q] == dealt_card(pile, seats, q, seats));
            }
        }
    }
}

impl Game {
    /// Deals a round: marks every player for a new round, then gives each
    /// player a card by seat and the dealer one, twice over. Fails when the
    /// shoe runs out; the cards dealt until then stay in the hands.
    pub fn deal_cards(&mut self) -> (r: Result<(), GameError>)
        requires
            old(self).wf(),
            old(self).hands_empty(),
        ensures
            final(self).wf(),
            final(self).all_cards() == old(self).all_cards(),
            marked_for_round(old(self).players@, final(self).players@),
            final(self).dealer.bank == old(self).dealer.bank,
            final(self).dealer.who == old(self).dealer.who,
            r is Ok <==> old(self).deck.count() >= 2 * (old(self).players@.len() + 1),
            r is Ok ==> {
                &&& final(self).state == GameState::PlayersTurn
                &&& dealing(*old(self), *final(self), 2, 0)
            },
            r is Err ==> {
                &&& r == Err::<(), GameError>(GameError::ShoeExhausted)
                &&& final(self).state == GameState::DealingCards
                &&& final(self).deck.is_empty()
                &&& exists|round: int, seat: int|
                    0 <= round < 2 && 0 <= seat <= old(self).players@.len() && dealing(
                        *old(self),
                        *final(self),
                        round,
                        seat,
                    )
            },
    {
        let n = self.players.len();
        self.state = GameState::DealingCards;
        let mut i: usize = 0;
        while i < n
            invariant
                i <= n,
                n == self.players@.len(),
                n == old(self).players@.len(),
                self.deck == old(self).deck,
                self.dealer == old(self).dealer,
                self.state == GameState::DealingCards,
                forall|j: int|
                    0 <= j < n ==> {
                        &&& (#[trigger] self.players@[j]).hand == old(self).players@[j].hand
                        &&& self.players@[j].bank == old(self).players@[j].bank
                        &&& self.players@[j].bet == old(self).players@[j].bet
                        &&& self.players@[j].who == old(self).players@[j].who
                    },
                forall|j: int|
                    0 <= j < i ==> (#[trigger] self.players@[j]).outcome == Outcome::Push
                        && !self.players@[j].finished,
            decreases n - i,
        {
            self.players[i].outcome = Outcome::Push;
            self.players[i].finished = false;
            i = i + 1;
        }
        self.dealer.hand.clear();
        proof {
            let pile = old(self).deck.cards@;
            lemma_hands_cards_same(self.players@, old(self).players@);
            lemma_no_cards(self.dealer.hand@);
            lemma_no_cards(old(self).dealer.hand@);
            assert(pile.take(pile.len() as int) =~= pile);
            assert(dealing(*old(self), *self, 0, 0));
        }
        let mut round: usize = 0;
        while round < 2
            invariant
                round <= 2,
                n == old(self).players@.len(),
                self.deck.wf(),
                self.state == GameState::DealingCards,
                dealing(*old(self), *self, round as int, 0),
            decreases 2 - round,
        {
            let mut seat: usize = 0;
            while seat < n
                invariant
                    seat <= n,
                    round < 2,
                    n == old(self).players@.len(),
                    self.deck.wf(),
                    self.state == GameState::DealingCards,
                    dealing(*old(self), *self, round as int, seat as int),
                decreases n - seat,
            {
                let ghost prev = *self;
                match self.deck.draw() {
                    None => {
                        assert(self.wf());
                        return Err(GameError::ShoeExhausted);
                    },
                    Some(card) => {
                        self.players[seat].hand.add_card(card);
                        proof {
                            lemma_dealing_seat(
                                *old(self),
                                prev,
                                *self,
                                round as int,
                                seat as int,
                                card,
                            );
                        }
                    },
                }
                seat = seat + 1;
            }
            let ghost prev = *self;
            match self.deck.draw() {
                None => {
                    assert(self.wf());
                    return Err(GameError::ShoeExhausted);
                },
                Some(card) => {
                    self.dealer.hand.add_card(card);
                    proof {
                        lemma_dealing_dealer(*old(self), prev, *self, round as int, card);
                    }
                },
            }
            round = round + 1;
        }
        self.state = GameState::PlayersTurn;
        Ok(())
    }

    /// Moves every hand's cards onto the discard pile, the players' hands
    /// by seat and then the dealer's, and marks the players for a new round.
    /// Banks and bets stay.
    pub fn discard_all_hands(&mut self)
        ensures
            final(self).state == GameState::DealingCards,
            final(self).hands_empty(),
            final(self).all_cards() == old(self).all_cards(),
            old(self).deck.wf() ==> final(self).wf(),
            final(self).deck.cards@ == old(self).deck.cards@,
            final(self).deck.length == old(self).deck.length,
            final(self).deck.discarded@ == old(self).deck.discarded@ + hands_in_order(
                old(self).players@,
            ) + old(self).dealer.hand@,
            final(self).dealer.bank == old(self).dealer.bank,
            final(self).dealer.who == old(self).dealer.who,
            marked_for_round(old(self).players@, final(self).players@),
    {
        let n = self.players.len();
        let mut i: usize = 0;
        while i < n
            invariant
                i <= n,
                n == self.players@.len(),
                n == old(self).players@.len(),
                self.dealer == old(self).dealer,
                self.deck.cards@ == old(self).deck.cards@,
                self.deck.length == old(self).deck.length,
                self.deck.discarded@ == old(self).deck.discarded@ + hands_in_order(
                    old(self).players@.take(i as int),
                ),
                forall|j: int|
                    0 <= j < i ==> {
                        &&& (#[trigger] self.players@[j]).bank == old(self).players@[j].bank
                        &&& self.players@[j].bet == old(self).players@[j].bet
                        &&& self.players@[j].who == old(self).players@[j].who
                        &&& self.players@[j].outcome == Outcome::Push
                        &&& !self.players@[j].finished
                        &&& self.players@[j].hand@.len() == 0
                    },
                forall|j: int| i <= j < n ==> #[trigger] self.players@[j] == old(self).players@[j],
            decreases n - i,
        {
            proof {
                let seated = old(self).players@;
                assert(seated.take(i + 1).drop_last() =~= seated.take(i as int));
                assert(seated.take(i + 1).last() == seated[i as int]);
            }
            self.deck.discard_hand(&mut self.players[i].hand);
            self.players[i].outcome = Outcome::Push;
            self.players[i].finished = false;
            i = i + 1;
        }
        self.deck.discard_hand(&mut self.dealer.hand);
        self.state = GameState::DealingCards;
        proof {
            let seated = old(self).players@;
            let discarded = old(self).deck.discarded@;
            assert(seated.take(n as int) =~= seated);
            lemma_hands_in_order_cards(seated);
            lemma_hands_cards_empty(self.players@);
            lemma_no_cards(self.dealer.hand@);
            vstd::seq_lib::lemma_multiset_commutative(
                discarded + hands_in_order(seated),
                old(self).dealer.hand@,
            );
            vstd::seq_lib::lemma_multiset_commutative(discarded, hands_in_order(seated));
            assert(self.all_cards() =~= old(self).all_cards());
            assert forall|i: int|
                0 <= i < self.players@.len() implies (#[trigger] self.players@[i]).hand.fits() by {
                assert(self.players@[i].hand@ =~= Seq::<Card>::empty());
            }
            assert(self.dealer.hand@ =~= Seq::<Card>::empty());
        }
    }

    /// Starts the next round: every hand goes onto the discard pile, the
    /// draw pile is shuffled, and a round is dealt. Fails when the table
    /// holds too few cards for the deal.
    pub fn start_round(&mut self) -> (r: Result<(), GameError>)
        requires
            old(self).deck.wf(),
        ensures
            final(self).wf(),
            final(self).all_cards() == old(self).all_cards(),
            marked_for_round(old(self).players@, final(self).players@),
            final(self).dealer.bank == old(self).dealer.bank,
            final(self).dealer.who == old(self).dealer.who,
            r is Ok <==> old(self).card_count() >= 2 * (old(self).players@.len() + 1),
            r is Err ==> {
                &&& r == Err::<(), GameError>(GameError::ShoeExhausted)
                &&& final(self).state == GameState::DealingCards
                &&& final(self).deck.is_empty()
            },
            r is Ok ==> {
                &&& final(self).state == GameState::PlayersTurn
                &&& final(self).dealer.hand@.len() == 2
                &&& forall|i: int|
                    0 <= i < old(self).players@.len()
                        ==> (#[trigger] final(self).players@[i]).hand@.len() == 2
            },
            old(self).deck.cards@.len() >= 2 * (old(self).players@.len() + 1) ==> {
                let dealt = 2 * (old(self).players@.len() + 1);
                &&& final(self).deck.cards@.len() == old(self).deck.cards@.len() - dealt
                &&& final(self).deck.discarded@ == old(self).deck.discarded@ + hands_in_order(
                    old(self).players@,
                ) + old(self).dealer.hand@
            },
    {
        self.discard_all_hands();
        let ghost cleared = *self;
        self.deck.shuffle();
        proof {
            assert(self.all_cards() =~= cleared.all_cards());
        }
        self.deal_cards()
    }
}

} // verus!
