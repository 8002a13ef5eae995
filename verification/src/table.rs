//! What holds of the players of a table taken together: the cards in their
//! hands, and how a command marks them.

use crate::card::Card;
use crate::hand::{is_bust_hand, lemma_no_cards};
use crate::player::{Player, Who};
use crate::settlement::Outcome;
use vstd::multiset::Multiset;
use vstd::prelude::*;

verus! {

/// The cards in the hands of all the given players.
pub open spec fn hands_cards(players: Seq<Player>) -> Multiset<Card>
    decreases players.len(),
{
    if players.len() == 0 {
        Multiset::empty()
    } else {
        hands_cards(players.drop_last()).add(players.last().hand@.to_multiset())
    }
}

/// The hands of the players one after the other, in the order of the seats.
pub open spec fn hands_in_order(players: Seq<Player>) -> Seq<Card>
    decreases players.len(),
{
    if players.len() == 0 {
        Seq::empty()
    } else {
        hands_in_order(players.drop_last()) + players.last().hand@
    }
}

/// Every player of the sequence is as [`Player::new`] makes one.
pub open spec fn all_fresh(players: Seq<Player>) -> bool {
    forall|i: int|
        0 <= i < players.len() ==> {
            &&& (#[trigger] players[i]).hand@.len() == 0
            &&& players[i].bank == 1000
            &&& players[i].bet == 10
            &&& players[i].who == Who::Player
            &&& players[i].outcome == Outcome::Push
            &&& !players[i].finished
        }
}

/// The players `now` are the players `before` marked for a new round: each
/// keeps their bank and bet, has the outcome of a push and has not stood.
pub open spec fn marked_for_round(before: Seq<Player>, now: Seq<Player>) -> bool {
    &&& now.len() == before.len()
    &&& forall|i: int|
        0 <= i < before.len() ==> {
            &&& (#[trigger] now[i]).bank == before[i].bank
            &&& now[i].bet == before[i].bet
            &&& now[i].who == before[i].who
            &&& now[i].outcome == Outcome::Push
            &&& !now[i].finished
        }
}

/// Every player of the sequence is bust.
pub open spec fn all_bust(players: Seq<Player>) -> bool {
    forall|i: int| 0 <= i < players.len() ==> is_bust_hand((#[trigger] players[i]).hand@)
}

/// Players without cards hold no cards.
pub proof fn lemma_hands_cards_empty(players: Seq<Player>)
    requires
        forall|i: int| 0 <= i < players.len() ==> (#[trigger] players[i]).hand@.len() == 0,
    ensures
        hands_cards(players) == Multiset::<Card>::empty(),
    decreases players.len(),
{
    if players.len() > 0 {
        lemma_hands_cards_empty(players.drop_last());
        lemma_no_cards(players.last().hand@);
        assert(hands_cards(players) =~= Multiset::<Card>::empty());
    }
}

/// When one player's hand gains the cards `gained`, so do the hands together.
pub proof fn lemma_hands_cards_gain(
    players: Seq<Player>,
    i: int,
    player: Player,
    gained: Multiset<Card>,
)
    requires
        0 <= i < players.len(),
        player.hand@.to_multiset() == players[i].hand@.to_multiset().add(gained),
    ensures
        hands_cards(players.update(i, player)) == hands_cards(players).add(gained),
    decreases players.len(),
{
    let after = players.update(i, player);
    if i == players.len() - 1 {
        assert(after.drop_last() =~= players.drop_last());
    } else {
        lemma_hands_cards_gain(players.drop_last(), i, player, gained);
        assert(after.drop_last() =~= players.drop_last().update(i, player));
    }
    assert(hands_cards(after) =~= hands_cards(players).add(gained));
}

/// When one player's hand gains the one card `card`, so do the hands
/// together.
pub proof fn lemma_hands_cards_push(players: Seq<Player>, i: int, player: Player, card: Card)
    requires
        0 <= i < players.len(),
        player.hand@ == players[i].hand@.push(card),
    ensures
        hands_cards(players.update(i, player)) == hands_cards(players).insert(card),
{
    let one = Multiset::empty().insert(card);
    vstd::seq_lib::to_multiset_build(players[i].hand@, card);
    assert(player.hand@.to_multiset() =~= players[i].hand@.to_multiset().add(one));
    lemma_hands_cards_gain(players, i, player, one);
    assert(hands_cards(players).add(one) =~= hands_cards(players).insert(card));
}

/// Players whose hands agree seat by seat hold the same cards.
pub proof fn lemma_hands_cards_same(a: Seq<Player>, b: Seq<Player>)
    requires
        a.len() == b.len(),
        forall|i: int| 0 <= i < a.len() ==> (#[trigger] a[i]).hand@ == b[i].hand@,
    ensures
        hands_cards(a) == hands_cards(b),
    decreases a.len(),
{
    if a.len() > 0 {
        lemma_hands_cards_same(a.drop_last(), b.drop_last());
        assert(a.last().hand@ == b.last().hand@);
    }
}

/// The hands laid out in order hold the cards of the hands.
pub proof fn lemma_hands_in_order_cards(players: Seq<Player>)
    ensures
        hands_in_order(players).to_multiset() == hands_cards(players),
    decreases players.len(),
{
    if players.len() == 0 {
        lemma_no_cards(hands_in_order(players));
    } else {
        lemma_hands_in_order_cards(players.drop_last());
        vstd::seq_lib::lemma_multiset_commutative(
            hands_in_order(players.drop_last()),
            players.last().hand@,
        );
    }
}

} // verus!
