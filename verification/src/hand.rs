//! Hands: ordered cards of one party, and their blackjack total.

use crate::card::{Card, Value};
use crate::deck::Deck;
use crate::error::GameError;
use vstd::multiset::Multiset;
use vstd::prelude::*;

verus! {

/// Sum of the cards' base points, every ace counted as 1.
pub open spec fn hard_total(cards: Seq<Card>) -> nat
    decreases cards.len(),
{
    if cards.len() == 0 {
        0
    } else {
        hard_total(cards.drop_last()) + cards.last().points()
    }
}

/// Whether at least one of the cards is an ace.
pub open spec fn has_ace(cards: Seq<Card>) -> bool {
    exists|i: int| 0 <= i < cards.len() && (#[trigger] cards[i]).value == Value::Ace
}

/// The blackjack total: all aces count 1, and when that sum is at most 11 and
/// an ace is present, one ace counts 11 instead.
pub open spec fn hand_value(cards: Seq<Card>) -> nat {
    if hard_total(cards) <= 11 && has_ace(cards) {
        hard_total(cards) + 10
    } else {
        hard_total(cards)
    }
}

/// A blackjack is a total of 21 with exactly two cards.
pub open spec fn is_blackjack_hand(cards: Seq<Card>) -> bool {
    cards.len() == 2 && hand_value(cards) == 21
}

/// A hand is bust when its total exceeds 21.
pub open spec fn is_bust_hand(cards: Seq<Card>) -> bool {
    hand_value(cards) > 21
}

/// An empty sequence holds no cards.
pub proof fn lemma_no_cards(cards: Seq<Card>)
    requires
        cards.len() == 0,
    ensures
        cards.to_multiset() == Multiset::<Card>::empty(),
{
    vstd::seq_lib::to_multiset_len(cards);
    assert(cards.to_multiset() =~= Multiset::<Card>::empty());
}

/// Adding a card adds its base points to the hard total.
pub proof fn lemma_hard_total_push(cards: Seq<Card>, card: Card)
    ensures
        hard_total(cards.push(card)) == hard_total(cards) + card.points(),
        hard_total(cards.push(card)) > hard_total(cards),
{
    assert(cards.push(card).drop_last() =~= cards);
}

/// A prefix of a hand has at most the hard total of the whole hand.
pub proof fn lemma_hard_total_prefix(cards: Seq<Card>, n: int)
    requires
        0 <= n <= cards.len(),
    ensures
        hard_total(cards.take(n)) <= hard_total(cards),
    decreases cards.len() - n,
{
    if n < cards.len() {
        lemma_hard_total_prefix(cards, n + 1);
        assert(cards.take(n + 1).drop_last() =~= cards.take(n));
    } else {
        assert(cards.take(n) =~= cards);
    }
}

/// How many of the cards are aces.
pub open spec fn ace_count(cards: Seq<Card>) -> nat
    decreases cards.len(),
{
    if cards.len() == 0 {
        0
    } else if cards.last().value == Value::Ace {
        ace_count(cards.drop_last()) + 1
    } else {
        ace_count(cards.drop_last())
    }
}

/// Every ace adds at least one point to the hard total, and a hand has an
/// ace exactly when it counts one.
pub proof fn lemma_ace_count(cards: Seq<Card>)
    ensures
        ace_count(cards) <= hard_total(cards),
        ace_count(cards) > 0 <==> has_ace(cards),
    decreases cards.len(),
{
    if cards.len() > 0 {
        let rest = cards.drop_last();
        lemma_ace_count(rest);
        if has_ace(rest) {
            let i = choose|i: int| 0 <= i < rest.len() && rest[i].value == Value::Ace;
            assert(cards[i].value == Value::Ace);
        }
        if cards.last().value == Value::Ace {
            assert(cards[cards.len() - 1].value == Value::Ace);
        }
        if has_ace(cards) {
            let i = choose|i: int| 0 <= i < cards.len() && cards[i].value == Value::Ace;
            if i < rest.len() {
                assert(rest[i].value == Value::Ace);
            }
        }
    }
}

/// The total of a hand is the best that counting aces as 11 can reach. It
/// counts at most one ace as 11, and only where that stays within 21. And
/// whatever number of the hand's aces is counted as 11: if that stays within
/// 21, the total is at least as much, and within 21 too.
pub proof fn lemma_best_total(cards: Seq<Card>, promoted: nat)
    requires
        promoted <= ace_count(cards),
    ensures
        hand_value(cards) == hard_total(cards) || (hand_value(cards) == hard_total(cards) + 10
            && ace_count(cards) >= 1 && hand_value(cards) <= 21),
        hard_total(cards) + 10 * promoted <= 21 ==> hard_total(cards) + 10 * promoted
            <= hand_value(cards) <= 21,
{
    lemma_ace_count(cards);
}

/// The cards held by one party, in the order in which they were received.
#[derive(Debug, Clone)]
pub struct Hand {
    pub cards: Vec<Card>,
}

impl View for Hand {
    type V = Seq<Card>;

    open spec fn view(&self) -> Seq<Card> {
        self.cards@
    }
}

impl Hand {
    /// The total of the hand fits the integer type in which it is reported.
    pub open spec fn fits(&self) -> bool {
        hand_value(self@) <= u8::MAX
    }

    /// The cards of the hand, in order.
    pub fn cards(&self) -> (c: &Vec<Card>)
        ensures
            c@ == self@,
    {
        &self.cards
    }

    /// An empty hand.
    pub fn new() -> (h: Hand)
        ensures
            h@ == Seq::<Card>::empty(),
    {
        Self { cards: Vec::new() }
    }

    /// Puts `card` at the end of the hand.
    pub fn add_card(&mut self, card: Card)
        ensures
            final(self)@ == old(self)@.push(card),
    {
        self.cards.push(card);
    }

    /// Draws one card from the shoe into the hand. Fails, and changes
    /// nothing, when the shoe has no card left in either pile.
    pub fn hit_cards(&mut self, deck: &mut Deck) -> (r: Result<(), GameError>)
        requires
            old(deck).wf(),
        ensures
            final(deck).wf(),
            r is Err <==> old(deck).is_empty(),
            r is Err ==> {
                &&& r == Err::<(), GameError>(GameError::ShoeExhausted)
                &&& *final(deck) == *old(deck)
                &&& final(self)@ == old(self)@
            },
            r is Ok ==> {
                &&& final(self)@.len() == old(self)@.len() + 1
                &&& final(self)@.drop_last() == old(self)@
                &&& old(deck).draws_to(final(self)@.last(), *final(deck))
            },
    {
        match deck.draw() {
            Some(card) => {
                self.add_card(card);
                assert(self@.drop_last() =~= old(self)@);
                Ok(())
            },
            None => Err(GameError::ShoeExhausted),
        }
    }

    /// Whether the total of the hand can be reported: see [`Hand::fits`].
    pub fn total_fits(&self) -> (b: bool)
        ensures
            b == self.fits(),
    {
        let mut total: u16 = 0;
        let mut i: usize = 0;
        while i < self.cards.len()
            invariant
                i <= self.cards.len(),
                total <= u8::MAX,
                total == hard_total(self@.take(i as int)),
            decreases self.cards.len() - i,
        {
            proof {
                assert(self@.take(i + 1) =~= self@.take(i as int).push(self@[i as int]));
                lemma_hard_total_push(self@.take(i as int), self@[i as int]);
                lemma_hard_total_prefix(self@, i + 1);
            }
            total = total + self.cards[i].value.to_int() as u16;
            if total > 255 {
                return false;
            }
            i = i + 1;
        }
        assert(self@.take(i as int) =~= self@);
        true
    }

    /// The blackjack total of the hand: see [`hand_value`].
    pub fn value(&self) -> (v: u8)
        requires
            self.fits(),
        ensures
            v == hand_value(self@),
    {
        let mut total: u8 = 0;
        let mut aces: bool = false;
        let mut i: usize = 0;
        while i < self.cards.len()
            invariant
                i <= self.cards.len(),
                self.fits(),
                total == hard_total(self@.take(i as int)),
                aces == has_ace(self@.take(i as int)),
            decreases self.cards.len() - i,
        {
            let ghost before = self@.take(i as int);
            let ghost after = self@.take(i + 1);
            proof {
                assert(after =~= before.push(self@[i as int]));
                lemma_hard_total_push(before, self@[i as int]);
                lemma_hard_total_prefix(self@, i + 1);
                if has_ace(before) {
                    let j = choose|j: int| 0 <= j < before.len() && before[j].value == Value::Ace;
                    assert(after[j].value == Value::Ace);
                }
                if self@[i as int].value == Value::Ace {
                    assert(after[i as int].value == Value::Ace);
                }
                if has_ace(after) {
                    let j = choose|j: int| 0 <= j < after.len() && after[j].value == Value::Ace;
                    if j < i {
                        assert(before[j].value == Value::Ace);
                    }
                }
            }
            total = total + self.cards[i].value.to_int();
            if self.cards[i].value.is_ace() {
                aces = true;
            }
            i = i + 1;
        }
        assert(self@.take(i as int) =~= self@);
        if total <= 11 && aces {
            total = total + 10;
        }
        total
    }

    /// Whether the hand is a blackjack: two cards that total 21.
    pub fn is_blackjack(&self) -> (b: bool)
        requires
            self.fits(),
        ensures
            b == is_blackjack_hand(self@),
    {
        self.cards.len() == 2 && self.value() == 21
    }

    /// Whether the hand is bust: its total exceeds 21.
    pub fn is_bust(&self) -> (b: bool)
        requires
            self.fits(),
        ensures
            b == is_bust_hand(self@),
    {
        self.value() > 21
    }

    /// The points of the first card alone, or 0 for an empty hand: what the
    /// dealer's hand shows while the second card lies face down.
    pub fn first_card_value(&self) -> (v: u8)
        ensures
            v == (if self@.len() == 0 {
                0
            } else {
                self@[0].points()
            }),
    {
        if self.cards.len() == 0 {
            0
        } else {
            self.cards[0].value.to_int()
        }
    }

    /// Empties the hand. The cards are dropped: to keep them on the table,
    /// hand them to [`Deck::discard_hand`] instead.
    pub fn clear(&mut self)
        ensures
            final(self)@ == Seq::<Card>::empty(),
    {
        self.cards.clear();
    }
}

} // verus!
