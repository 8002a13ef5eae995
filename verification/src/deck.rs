//! The shoe: a draw pile and a discard pile of cards from one or more decks.

use crate::card::{Card, Color, Value};
use crate::hand::{lemma_no_cards, Hand};
use vstd::multiset::Multiset;
use vstd::prelude::*;

verus! {

/// `rand::rngs::ThreadRng`, the random number generator of the current
/// thread. Nothing of its state is visible here.
#[verifier::external_type_specification]
#[verifier::external_body]
pub struct ExThreadRng(rand::rngs::ThreadRng);

/// `rand::thread_rng` hands out the thread's generator, which the system
/// seeds. Nothing is claimed of the value. On a system whose source of
/// randomness cannot be read the call panics; nothing here rules that out.
pub assume_specification[ rand::thread_rng ]() -> (rng: rand::rngs::ThreadRng)
;

/// `rand::seq::SliceRandom::shuffle` on the cards as a slice. It walks the
/// slice from its end and swaps each element with one at a random place
/// before or at it, so afterwards the same cards are there, each as often as
/// before. That is all that is claimed: the order in which they come depends
/// on the generator and is left open.
#[verifier::external_body]
fn shuffle_cards(cards: &mut Vec<Card>, rng: &mut rand::rngs::ThreadRng)
    ensures
        final(cards)@.to_multiset() == old(cards)@.to_multiset(),
{
    rand::seq::SliceRandom::shuffle(cards.as_mut_slice(), rng);
}

/// The card at position `k` of one fresh deck: the suits in order, and the
/// thirteen ranks in order within each suit.
pub open spec fn deck_card(k: int) -> Card {
    Card { value: Value::at(k % 13), color: Color::at(k / 13) }
}

/// The draw pile of a fresh shoe of `decks` decks: the decks one after the
/// other, each in the order of [`deck_card`].
pub open spec fn fresh_shoe(decks: nat) -> Seq<Card> {
    Seq::new(52 * decks, |i: int| deck_card(i % 52))
}

/// Position of a card in one fresh deck.
pub open spec fn deck_position(card: Card) -> int {
    card.color.index() * 13 + card.value.index()
}

/// A fresh deck holds every card at the position that [`deck_position`]
/// gives, and nowhere else.
pub proof fn lemma_deck_card_position(k: int, card: Card)
    requires
        0 <= k < 52,
    ensures
        deck_card(k) == card <==> k == deck_position(card),
        0 <= deck_position(card) < 52,
{
    assert(Value::at(k % 13).index() == k % 13);
    assert(Color::at(k / 13).index() == k / 13);
    assert(Value::at(card.value.index()) == card.value);
    assert(Color::at(card.color.index()) == card.color);
}

/// The card of rank position `v` and suit position `c` lies at position
/// `13 * c + v` of each deck of a fresh shoe.
pub proof fn lemma_fresh_shoe_place(d: int, c: int, v: int)
    requires
        0 <= d,
        0 <= c < 4,
        0 <= v < 13,
    ensures
        deck_card((52 * d + 13 * c + v) % 52) == (Card {
            value: Value::at(v),
            color: Color::at(c),
        }),
{
    let k = 52 * d + 13 * c + v;
    assert(k % 52 == 13 * c + v);
    assert((13 * c + v) % 13 == v);
    assert((13 * c + v) / 13 == c);
}

/// No card lies at two positions of one fresh deck.
pub proof fn lemma_single_deck_distinct()
    ensures
        fresh_shoe(1).len() == 52,
        fresh_shoe(1).no_duplicates(),
{
    let deck = fresh_shoe(1);
    assert forall|i: int, j: int|
        0 <= i < deck.len() && 0 <= j < deck.len() && i != j implies deck[i] != deck[j] by {
        assert(deck[i] == deck_card(i));
        assert(deck[j] == deck_card(j));
        lemma_deck_card_position(i, deck_card(j));
        lemma_deck_card_position(j, deck_card(j));
    }
}

/// One fresh deck holds each of the 52 cards exactly once.
pub proof fn lemma_single_deck_counts(card: Card)
    ensures
        fresh_shoe(1).len() == 52,
        fresh_shoe(1).to_multiset().count(card) == 1,
{
    let deck = fresh_shoe(1);
    let k = deck_position(card);
    lemma_single_deck_distinct();
    lemma_deck_card_position(k, card);
    assert(deck[k] == deck_card(k));
    assert(deck.contains(card));
    vstd::seq_lib::to_multiset_contains(deck, card);
    deck.lemma_multiset_has_no_duplicates();
}

/// A fresh shoe of `decks` decks holds `52 * decks` cards, and each of the 52
/// combinations of rank and suit exactly `decks` times.
pub proof fn lemma_fresh_shoe_counts(decks: nat, card: Card)
    ensures
        fresh_shoe(decks).len() == 52 * decks,
        fresh_shoe(decks).to_multiset().len() == 52 * decks,
        fresh_shoe(decks).to_multiset().count(card) == decks,
    decreases decks,
{
    vstd::seq_lib::to_multiset_len(fresh_shoe(decks));
    if decks == 0 {
        assert(fresh_shoe(0) =~= Seq::<Card>::empty());
        assert(fresh_shoe(0).to_multiset() =~= Multiset::<Card>::empty());
    } else {
        let fewer = (decks - 1) as nat;
        lemma_fresh_shoe_counts(fewer, card);
        lemma_single_deck_counts(card);
        assert(fresh_shoe(decks) =~= fresh_shoe(fewer) + fresh_shoe(1));
        vstd::seq_lib::lemma_multiset_commutative(fresh_shoe(fewer), fresh_shoe(1));
    }
}

/// The shoe. Cards are drawn from the end of `cards`; played cards wait in
/// `discarded` until the draw pile runs out.
#[derive(Debug)]
pub struct Deck {
    pub cards: Vec<Card>,
    pub length: usize,
    pub discarded: Vec<Card>,
}

impl Deck {
    /// `length` counts the draw pile.
    pub open spec fn wf(&self) -> bool {
        self.length == self.cards@.len()
    }

    /// Every card of the shoe, from both piles.
    pub open spec fn all_cards(&self) -> Multiset<Card> {
        self.cards@.to_multiset().add(self.discarded@.to_multiset())
    }

    /// The number of cards in the shoe, both piles together.
    pub open spec fn count(&self) -> nat {
        self.cards@.len() + self.discarded@.len()
    }

    /// Neither pile holds a card.
    pub open spec fn is_empty(&self) -> bool {
        self.cards@.len() == 0 && self.discarded@.len() == 0
    }

    /// What one successful draw of `card` does to the shoe. From a draw pile
    /// that holds a card, the last one leaves. From an empty one, the
    /// discard pile becomes the draw pile in some order, and one of its cards
    /// leaves.
    pub open spec fn draws_to(&self, card: Card, after: Deck) -> bool {
        &&& after.wf()
        &&& after.all_cards().insert(card) == self.all_cards()
        &&& after.count() + 1 == self.count()
        &&& self.cards@.len() > 0 ==> {
            &&& card == self.cards@.last()
            &&& after.cards@ == self.cards@.drop_last()
            &&& after.discarded@ == self.discarded@
        }
        &&& self.cards@.len() == 0 ==> {
            &&& after.cards@.to_multiset().insert(card) == self.discarded@.to_multiset()
            &&& after.discarded@.len() == 0
        }
    }

    /// A fresh shoe of six decks.
    pub fn initialize_deck() -> (deck: Deck)
        ensures
            deck.wf(),
            deck.cards@ == fresh_shoe(6),
            deck.length == 312,
            deck.discarded@.len() == 0,
            forall|card: Card| deck.cards@.to_multiset().count(card) == 6,
    {
        Deck::with_decks(6)
    }

    /// A fresh shoe of `decks` decks: every deck in order, nothing discarded.
    /// It holds each of the 52 cards exactly `decks` times.
    pub fn with_decks(decks: usize) -> (deck: Deck)
        requires
            52 * decks <= usize::MAX,
        ensures
            deck.wf(),
            deck.cards@ == fresh_shoe(decks as nat),
            deck.length == 52 * decks,
            deck.discarded@.len() == 0,
            forall|card: Card| deck.cards@.to_multiset().count(card) == decks,
    {
        let mut deck = Deck { cards: Vec::new(), length: 0, discarded: Vec::new() };
        let mut d: usize = 0;
        while d < decks
            invariant
                d <= decks,
                52 * decks <= usize::MAX,
                deck.length == 52 * d,
                deck.cards@ =~= fresh_shoe(d as nat),
                deck.discarded@.len() == 0,
            decreases decks - d,
        {
            let mut c: usize = 0;
            while c < 4
                invariant
                    c <= 4,
                    d < decks,
                    52 * decks <= usize::MAX,
                    deck.length == 52 * d + 13 * c,
                    deck.cards@ =~= Seq::new(
                        (52 * d + 13 * c) as nat,
                        |i: int| deck_card(i % 52),
                    ),
                    deck.discarded@.len() == 0,
                decreases 4 - c,
            {
                let mut v: usize = 0;
                while v < 13
                    invariant
                        v <= 13,
                        c < 4,
                        d < decks,
                        52 * decks <= usize::MAX,
                        deck.length == 52 * d + 13 * c + v,
                        deck.cards@ =~= Seq::new(
                            (52 * d + 13 * c + v) as nat,
                            |i: int| deck_card(i % 52),
                        ),
                        deck.discarded@.len() == 0,
                    decreases 13 - v,
                {
                    let card = Card { value: Value::from_index(v), color: Color::from_index(c) };
                    proof {
                        lemma_fresh_shoe_place(d as int, c as int, v as int);
                    }
                    deck.cards.push(card);
                    deck.length = deck.length + 1;
                    v = v + 1;
                }
                c = c + 1;
            }
            d = d + 1;
        }
        proof {
            assert forall|card: Card| deck.cards@.to_multiset().count(card) == decks by {
                lemma_fresh_shoe_counts(decks as nat, card);
            }
        }
        deck
    }

    /// Shuffles the draw pile.
    pub fn shuffle(&mut self)
        requires
            old(self).wf(),
        ensures
            final(self).wf(),
            final(self).cards@.to_multiset() == old(self).cards@.to_multiset(),
            final(self).cards@.len() == old(self).cards@.len(),
            final(self).discarded@ == old(self).discarded@,
    {
        let mut rng = rand::thread_rng();
        shuffle_cards(&mut self.cards, &mut rng);
        proof {
            vstd::seq_lib::to_multiset_len(self.cards@);
            vstd::seq_lib::to_multiset_len(old(self).cards@);
        }
    }

    /// Moves the discard pile under the draw pile and shuffles the draw
    /// pile.
    pub fn refill(&mut self)
        requires
            old(self).wf(),
        ensures
            final(self).wf(),
            final(self).discarded@.len() == 0,
            final(self).cards@.to_multiset() == old(self).all_cards(),
            final(self).cards@.len() == old(self).count(),
            final(self).all_cards() == old(self).all_cards(),
    {
        self.cards.append(&mut self.discarded);
        self.length = self.cards.len();
        self.shuffle();
        proof {
            vstd::seq_lib::lemma_multiset_commutative(old(self).cards@, old(self).discarded@);
            lemma_no_cards(self.discarded@);
            assert(self.all_cards() =~= old(self).all_cards());
        }
    }

    /// Takes the top card of the draw pile, which is its last. Returns
    /// `None` when the draw pile is empty, whatever the discard pile holds.
    pub fn take_top(&mut self) -> (r: Option<Card>)
        requires
            old(self).wf(),
        ensures
            final(self).wf(),
            final(self).discarded == old(self).discarded,
            old(self).cards@.len() == 0 ==> r is None && *final(self) == *old(self),
            old(self).cards@.len() > 0 ==> {
                &&& r == Some(old(self).cards@.last())
                &&& final(self).cards@ == old(self).cards@.drop_last()
            },
    {
        if self.length == 0 {
            return None;
        }
        self.length = self.length - 1;
        let r = self.cards.pop();
        assert(self.cards@ =~= old(self).cards@.drop_last());
        r
    }

    /// Takes the top card of the draw pile. When the draw pile is empty, the
    /// discard pile is first shuffled into it. Returns `None` only when both
    /// piles are empty.
    pub fn draw(&mut self) -> (r: Option<Card>)
        requires
            old(self).wf(),
        ensures
            final(self).wf(),
            r is None <==> old(self).is_empty(),
            r is None ==> *final(self) == *old(self),
            r is Some ==> old(self).draws_to(r->0, *final(self)),
    {
        if self.length == 0 {
            if self.discarded.len() == 0 {
                return None;
            }
            self.refill();
        }
        let ghost pile = self.cards@;
        let ghost shoe = self.all_cards();
        let r = self.take_top();
        proof {
            assert(pile =~= self.cards@.push(r->0));
            vstd::seq_lib::to_multiset_build(self.cards@, r->0);
            assert(self.all_cards().insert(r->0) =~= shoe);
            if old(self).cards@.len() == 0 {
                lemma_no_cards(old(self).cards@);
                assert(old(self).all_cards() =~= old(self).discarded@.to_multiset());
                let refilled = self.cards@.to_multiset().insert(r->0);
                assert(refilled =~= old(self).discarded@.to_multiset());
            }
        }
        r
    }

    /// Moves every card of the hand onto the discard pile.
    pub fn discard_hand(&mut self, hand: &mut Hand)
        ensures
            final(self).discarded@ == old(self).discarded@ + old(hand)@,
            final(self).cards@ == old(self).cards@,
            final(self).length == old(self).length,
            final(self).all_cards() == old(self).all_cards().add(old(hand)@.to_multiset()),
            final(hand)@ == Seq::<Card>::empty(),
    {
        self.discarded.append(&mut hand.cards);
        hand.clear();
        proof {
            vstd::seq_lib::lemma_multiset_commutative(old(self).discarded@, old(hand)@);
            assert(self.all_cards() =~= old(self).all_cards().add(old(hand)@.to_multiset()));
        }
    }
}

} // verus!
