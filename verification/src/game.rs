//! The table of a session: the shoe, the players and the dealer, with the
//! commands of the players and the settlement of a round.

use crate::card::{Card, Color, Value};
use crate::deck::{fresh_shoe, lemma_fresh_shoe_counts, Deck};
use crate::error::GameError;
use crate::hand::lemma_no_cards;
use crate::player::{hit_report, outcome_after_hit, Dealer, Player};
use crate::settlement::{settle, settle_hands, settled_bank};
use crate::state::{Action, GameState, HitResult};
use crate::table::{
    all_fresh, hands_cards, hands_in_order, lemma_hands_cards_empty, lemma_hands_cards_push,
    lemma_hands_cards_same, lemma_hands_in_order_cards,
};
use vstd::multiset::Multiset;
use vstd::prelude::*;

verus! {

/// One table: the shoe, the players, the dealer and the phase of the round.
#[derive(Debug)]
pub struct Game {
    pub deck: Deck,
    pub players: Vec<Player>,
    pub dealer: Dealer,
    pub state: GameState,
}

impl Game {
    /// The shoe counts its draw pile, and every hand's total can be
    /// reported.
    pub open spec fn wf(&self) -> bool {
        &&& self.deck.wf()
        &&& self.dealer.hand.fits()
        &&& forall|i: int|
            0 <= i < self.players@.len() ==> (#[trigger] self.players@[i]).hand.fits()
    }

    /// Every card on the table: both piles of the shoe, the players' hands
    /// and the dealer's hand.
    pub open spec fn all_cards(&self) -> Multiset<Card> {
        self.deck.all_cards().add(hands_cards(self.players@)).add(
            self.dealer.hand@.to_multiset(),
        )
    }

    /// The number of cards on the table: those of the draw pile, of the
    /// discard pile and of every hand.
    pub open spec fn card_count(&self) -> nat {
        self.deck.count() + hands_in_order(self.players@).len() + self.dealer.hand@.len()
    }

    /// No hand holds a card.
    pub open spec fn hands_empty(&self) -> bool {
        &&& self.dealer.hand@.len() == 0
        &&& forall|i: int|
            0 <= i < self.players@.len() ==> (#[trigger] self.players@[i]).hand@.len() == 0
    }

    /// Every player's bank can take the bet and the credit of the player's
    /// outcome.
    pub open spec fn can_settle(&self) -> bool {
        forall|i: int|
            0 <= i < self.players@.len() ==> (#[trigger] self.players@[i]).can_settle()
    }

    /// Every player's bank can take the bet and the credit of any outcome.
    pub open spec fn can_settle_any(&self) -> bool {
        forall|i: int|
            0 <= i < self.players@.len() ==> (#[trigger] self.players@[i]).can_settle_any()
    }

    /// Why the action of the player at `index` is refused, if it is: there
    /// is no such player; or the player may not act; or a card is asked for
    /// and the shoe is empty.
    pub open spec fn refusal(&self, index: int, action: Action) -> Option<GameError> {
        if !(0 <= index < self.players@.len()) {
            Some(GameError::InvalidPlayerIndex)
        } else if !self.players@[index].may_act() {
            Some(GameError::IllegalAction)
        } else if action == Action::Hit && self.deck.is_empty() {
            Some(GameError::ShoeExhausted)
        } else {
            None
        }
    }

    /// The table `after` is this table after the player at `index` has
    /// stood: the player is marked as finished, and nothing else changed.
    pub open spec fn stand_leads_to(&self, index: int, after: Game) -> bool {
        &&& after.players@ == self.players@.update(
            index,
            (Player { finished: true, ..self.players@[index] }),
        )
        &&& after.deck == self.deck
        &&& after.dealer == self.dealer
        &&& after.state == self.state
    }

    /// The table `after` is this table after the player at `index` has
    /// taken a card: one card went from the shoe to the end of the player's
    /// hand, the player's outcome is what the new total makes it, and nothing
    /// else changed.
    pub open spec fn hit_leads_to(&self, index: int, after: Game) -> bool {
        let before = self.players@[index];
        let now = after.players@[index];
        &&& after.players@ == self.players@.update(index, now)
        &&& now.hand@.len() == before.hand@.len() + 1
        &&& now.hand@.drop_last() == before.hand@
        &&& self.deck.draws_to(now.hand@.last(), after.deck)
        &&& now.outcome == outcome_after_hit(now.hand@, before.outcome)
        &&& now.bank == before.bank
        &&& now.bet == before.bet
        &&& now.who == before.who
        &&& now.finished == before.finished
        &&& after.dealer == self.dealer
        &&& after.state == self.state
    }

    /// A table with a fresh shoe of six decks, a new dealer and no players.
    pub fn new() -> (g: Game)
        ensures
            g.wf(),
            g.deck.cards@ == fresh_shoe(6),
            g.deck.discarded@.len() == 0,
            g.players@.len() == 0,
            g.dealer.hand@.len() == 0,
            g.dealer.bank == 100000,
            g.state == GameState::Setup,
            g.all_cards() == fresh_shoe(6).to_multiset(),
    {
        Game::with_decks(6)
    }

    /// A table with a fresh shoe of `decks` decks, a new dealer and no
    /// players.
    pub fn with_decks(decks: usize) -> (g: Game)
        requires
            52 * decks <= usize::MAX,
        ensures
            g.wf(),
            g.deck.cards@ == fresh_shoe(decks as nat),
            g.deck.discarded@.len() == 0,
            g.players@.len() == 0,
            g.dealer.hand@.len() == 0,
            g.dealer.bank == 100000,
            g.state == GameState::Setup,
            g.all_cards() == fresh_shoe(decks as nat).to_multiset(),
    {
        let deck = Deck::with_decks(decks);
        let players = Vec::new();
        let dealer = Dealer::new();
        let g = Self { deck, players, dealer, state: GameState::Setup };
        proof {
            lemma_no_cards(g.deck.discarded@);
            lemma_no_cards(g.dealer.hand@);
            assert(g.all_cards() =~= fresh_shoe(decks as nat).to_multiset());
        }
        g
    }

    /// Replaces the players by `count` new ones. A count outside 1 to 7 is
    /// refused and changes nothing. Cards that the replaced players held
    /// leave the table with them.
    pub fn add_players(&mut self, count: usize) -> (r: Result<(), GameError>)
        ensures
            !(1 <= count <= 7) ==> {
                &&& r == Err::<(), GameError>(GameError::InvalidPlayerCount)
                &&& *final(self) == *old(self)
            },
            1 <= count <= 7 ==> {
                &&& r is Ok
                &&& final(self).players@.len() == count
                &&& all_fresh(final(self).players@)
                &&& final(self).deck == old(self).deck
                &&& final(self).dealer == old(self).dealer
                &&& final(self).state == old(self).state
                &&& old(self).all_cards() == final(self).all_cards().add(
                    hands_cards(old(self).players@),
                )
                &&& old(self).wf() ==> final(self).wf()
            },
    {
        if count < 1 || count > 7 {
            return Err(GameError::InvalidPlayerCount);
        }
        self.players.clear();
        let mut i: usize = 0;
        while i < count
            invariant
                i <= count,
                self.players@.len() == i,
                all_fresh(self.players@),
                self.deck == old(self).deck,
                self.dealer == old(self).dealer,
                self.state == old(self).state,
            decreases count - i,
        {
            let player = Player::new();
            self.players.push(player);
            i = i + 1;
        }
        proof {
            lemma_hands_cards_empty(self.players@);
            assert(self.all_cards().add(hands_cards(old(self).players@)) =~= old(self).all_cards());
            assert forall|i: int|
                0 <= i < self.players@.len() implies (#[trigger] self.players@[i]).hand.fits() by {
                assert(self.players@[i].hand@ =~= Seq::<Card>::empty());
            }
        }
        Ok(())
    }

    /// Sets a player's bet. Refused, with nothing changed, when no player
    /// has that index or when the bet is greater than the player's bank.
    pub fn set_player_bet(&mut self, index: usize, amount: u32) -> (r: Result<(), GameError>)
        ensures
            index >= old(self).players@.len() ==> {
                &&& r == Err::<(), GameError>(GameError::InvalidPlayerIndex)
                &&& *final(self) == *old(self)
            },
            index < old(self).players@.len() && amount > old(self).players@[index as int].bank
                ==> {
                &&& r == Err::<(), GameError>(GameError::BetExceedsBank)
                &&& *final(self) == *old(self)
            },
            index < old(self).players@.len() && amount <= old(self).players@[index as int].bank
                ==> {
                &&& r is Ok
                &&& final(self).players@ == old(self).players@.update(
                    index as int,
                    (Player { bet: amount, ..old(self).players@[index as int] }),
                )
                &&& final(self).deck == old(self).deck
                &&& final(self).dealer == old(self).dealer
                &&& final(self).state == old(self).state
                &&& final(self).all_cards() == old(self).all_cards()
                &&& old(self).wf() ==> final(self).wf()
            },
    {
        if index >= self.players.len() {
            return Err(GameError::InvalidPlayerIndex);
        }
        if amount > self.players[index].bank {
            return Err(GameError::BetExceedsBank);
        }
        let r = self.players[index].set_bet(amount);
        proof {
            let bettor = self.players@[index as int];
            assert(self.players@ =~= old(self).players@.update(index as int, bettor));
            lemma_hands_cards_same(self.players@, old(self).players@);
        }
        r
    }

    /// Whether the player may hit or stand: there is such a player, who has
    /// not stood, is not bust and holds no blackjack.
    pub fn can_player_act(&self, index: usize) -> (b: bool)
        requires
            self.wf(),
        ensures
            b == (index < self.players@.len() && self.players@[index as int].may_act()),
    {
        index < self.players.len() && self.players[index].can_act()
    }

    /// The player stands: they will not act again this round. Refused, with
    /// nothing changed, when no player has that index or the player may not
    /// act.
    pub fn player_stand(&mut self, index: usize) -> (r: Result<(), GameError>)
        requires
            old(self).wf(),
        ensures
            final(self).wf(),
            final(self).all_cards() == old(self).all_cards(),
            (match old(self).refusal(index as int, Action::Stand) {
                Some(e) => r == Err::<(), GameError>(e) && *final(self) == *old(self),
                None => r is Ok && old(self).stand_leads_to(index as int, *final(self)),
            }),
    {
        if index >= self.players.len() {
            return Err(GameError::InvalidPlayerIndex);
        }
        if !self.players[index].can_act() {
            return Err(GameError::IllegalAction);
        }
        self.players[index].finished = true;
        proof {
            let stander = self.players@[index as int];
            assert(self.players@ =~= old(self).players@.update(index as int, stander));
            lemma_hands_cards_same(self.players@, old(self).players@);
        }
        Ok(())
    }

    /// The player takes one card from the shoe. Refused, with nothing
    /// changed, when no player has that index, when the player may not act,
    /// or when the shoe is empty. Otherwise the card joins the hand; a total
    /// over 21 marks the player as lost, a total of 21 with a blackjack.
    pub fn player_hit(&mut self, index: usize) -> (r: Result<HitResult, GameError>)
        requires
            old(self).wf(),
        ensures
            final(self).wf(),
            final(self).all_cards() == old(self).all_cards(),
            (match old(self).refusal(index as int, Action::Hit) {
                Some(e) => r == Err::<HitResult, GameError>(e) && *final(self) == *old(self),
                None => {
                    &&& r == Ok::<HitResult, GameError>(
                        hit_report(final(self).players@[index as int].hand@),
                    )
                    &&& old(self).hit_leads_to(index as int, *final(self))
                },
            }),
    {
        if index >= self.players.len() {
            return Err(GameError::InvalidPlayerIndex);
        }
        if !self.players[index].can_act() {
            return Err(GameError::IllegalAction);
        }
        match self.deck.draw() {
            None => Err(GameError::ShoeExhausted),
            Some(card) => {
                let report = self.players[index].receive_card(card);
                proof {
                    let before = old(self).players@[index as int];
                    let after = self.players@[index as int];
                    assert(after.hand@.drop_last() =~= before.hand@);
                    assert(self.players@ =~= old(self).players@.update(index as int, after));
                    lemma_hands_cards_push(old(self).players@, index as int, after, card);
                    assert(self.all_cards() =~= old(self).all_cards());
                }
                Ok(report)
            },
        }
    }

    /// Carries out what a player asks for on their turn: a hit as
    /// [`Game::player_hit`] does, with its report, or a stand as
    /// [`Game::player_stand`] does, with no report.
    pub fn player_action(&mut self, index: usize, action: Action) -> (r: Result<
        Option<HitResult>,
        GameError,
    >)
        requires
            old(self).wf(),
        ensures
            final(self).wf(),
            final(self).all_cards() == old(self).all_cards(),
            (match (old(self).refusal(index as int, action), action) {
                (Some(e), _) => {
                    &&& r == Err::<Option<HitResult>, GameError>(e)
                    &&& *final(self) == *old(self)
                },
                (None, Action::Stand) => {
                    &&& r == Ok::<Option<HitResult>, GameError>(None)
                    &&& old(self).stand_leads_to(index as int, *final(self))
                },
                (None, Action::Hit) => {
                    &&& r == Ok::<Option<HitResult>, GameError>(
                        Some(hit_report(final(self).players@[index as int].hand@)),
                    )
                    &&& old(self).hit_leads_to(index as int, *final(self))
                },
            }),
    {
        match action {
            Action::Hit => match self.player_hit(index) {
                Ok(report) => Ok(Some(report)),
                Err(e) => Err(e),
            },
            Action::Stand => match self.player_stand(index) {
                Ok(()) => Ok(None),
                Err(e) => Err(e),
            },
        }
    }

    /// Whether every player's bank is empty. With no player at the table
    /// this is true.
    pub fn players_out_of_money(&self) -> (b: bool)
        ensures
            b == (forall|i: int|
                0 <= i < self.players@.len() ==> (#[trigger] self.players@[i]).bank == 0),
    {
        let mut i: usize = 0;
        while i < self.players.len()
            invariant
                i <= self.players@.len(),
                forall|j: int| 0 <= j < i ==> (#[trigger] self.players@[j]).bank == 0,
            decreases self.players@.len() - i,
        {
            if self.players[i].bank != 0 {
                return false;
            }
            i = i + 1;
        }
        true
    }

    /// Whether the dealer's bank is empty.
    pub fn dealer_out_of_money(&self) -> (b: bool)
        ensures
            b == (self.dealer.bank == 0),
    {
        self.dealer.bank == 0
    }

    /// Decides every player's outcome from the final hands.
    pub fn settle_round(&mut self)
        requires
            old(self).wf(),
        ensures
            final(self).wf(),
            final(self).state == GameState::Result,
            final(self).deck == old(self).deck,
            final(self).dealer == old(self).dealer,
            final(self).all_cards() == old(self).all_cards(),
            final(self).players@.len() == old(self).players@.len(),
            forall|i: int|
                0 <= i < old(self).players@.len() ==> #[trigger] final(self).players@[i] == (
                Player {
                    outcome: settle_hands(old(self).players@[i].hand@, old(self).dealer.hand@),
                    ..old(self).players@[i]
                }),
    {
        let n = self.players.len();
        let mut i: usize = 0;
        while i < n
            invariant
                i <= n,
                n == self.players@.len(),
                n == old(self).players@.len(),
                self.wf(),
                self.deck == old(self).deck,
                self.dealer == old(self).dealer,
                self.state == old(self).state,
                forall|j: int|
                    0 <= j < i ==> #[trigger] self.players@[j] == (Player {
                        outcome: settle_hands(
                            old(self).players@[j].hand@,
                            old(self).dealer.hand@,
                        ),
                        ..old(self).players@[j]
                    }),
                forall|j: int| i <= j < n ==> #[trigger] self.players@[j] == old(self).players@[j],
            decreases n - i,
        {
            let outcome = settle(&self.players[i].hand, &self.dealer.hand);
            self.players[i].outcome = outcome;
            i = i + 1;
        }
        self.state = GameState::Result;
        proof {
            lemma_hands_cards_same(self.players@, old(self).players@);
        }
    }

    /// Settles every player's bank: the bet is taken from it, then what the
    /// player's outcome grants is paid back.
    pub fn apply_results(&mut self)
        requires
            old(self).can_settle(),
        ensures
            final(self).deck == old(self).deck,
            final(self).dealer == old(self).dealer,
            final(self).state == old(self).state,
            final(self).all_cards() == old(self).all_cards(),
            old(self).wf() ==> final(self).wf(),
            final(self).players@.len() == old(self).players@.len(),
            forall|i: int|
                0 <= i < old(self).players@.len() ==> {
                    let before = old(self).players@[i];
                    &&& (#[trigger] final(self).players@[i]).bank == settled_bank(
                        before.bank as nat,
                        before.bet as nat,
                        before.outcome,
                    )
                    &&& final(self).players@[i] == (Player {
                        bank: final(self).players@[i].bank,
                        ..before
                    })
                },
    {
        let n = self.players.len();
        let mut i: usize = 0;
        while i < n
            invariant
                i <= n,
                n == self.players@.len(),
                n == old(self).players@.len(),
                old(self).can_settle(),
                self.deck == old(self).deck,
                self.dealer == old(self).dealer,
                self.state == old(self).state,
                forall|j: int|
                    0 <= j < i ==> {
                        let before = old(self).players@[j];
                        &&& (#[trigger] self.players@[j]).bank == settled_bank(
                            before.bank as nat,
                            before.bet as nat,
                            before.outcome,
                        )
                        &&& self.players@[j] == (Player { bank: self.players@[j].bank, ..before })
                    },
                forall|j: int| i <= j < n ==> #[trigger] self.players@[j] == old(self).players@[j],
            decreases n - i,
        {
            assert(old(self).players@[i as int].can_settle());
            self.players[i].apply_result();
            i = i + 1;
        }
        proof {
            lemma_hands_cards_same(self.players@, old(self).players@);
        }
    }

    /// The settlement of a round: decides every player's outcome from the
    /// final hands, then settles every player's bank by it.
    pub fn settle_and_pay(&mut self)
        requires
            old(self).wf(),
            old(self).can_settle_any(),
        ensures
            final(self).wf(),
            final(self).state == GameState::Result,
            final(self).deck == old(self).deck,
            final(self).dealer == old(self).dealer,
            final(self).all_cards() == old(self).all_cards(),
            final(self).players@.len() == old(self).players@.len(),
            forall|i: int|
                0 <= i < old(self).players@.len() ==> {
                    let before = old(self).players@[i];
                    let outcome = settle_hands(before.hand@, old(self).dealer.hand@);
                    &&& (#[trigger] final(self).players@[i]).bank == settled_bank(
                        before.bank as nat,
                        before.bet as nat,
                        outcome,
                    )
                    &&& final(self).players@[i] == (Player {
                        outcome: outcome,
                        bank: final(self).players@[i].bank,
                        ..before
                    })
                },
    {
        self.settle_round();
        proof {
            assert forall|i: int|
                0 <= i < self.players@.len() implies (#[trigger] self.players@[i]).can_settle() by {
                assert(old(self).players@[i].can_settle_any());
            }
        }
        self.apply_results();
    }

    /// Whether no hand holds a card, as a deal asks.
    pub fn hands_are_empty(&self) -> (b: bool)
        ensures
            b == self.hands_empty(),
    {
        if self.dealer.hand.cards.len() != 0 {
            return false;
        }
        let mut i: usize = 0;
        while i < self.players.len()
            invariant
                i <= self.players@.len(),
                self.dealer.hand@.len() == 0,
                forall|j: int| 0 <= j < i ==> (#[trigger] self.players@[j]).hand@.len() == 0,
            decreases self.players@.len() - i,
        {
            if self.players[i].hand.cards.len() != 0 {
                return false;
            }
            i = i + 1;
        }
        true
    }

    /// Whether the table is well formed: see [`Game::wf`].
    pub fn is_well_formed(&self) -> (b: bool)
        ensures
            b == self.wf(),
    {
        if self.deck.length != self.deck.cards.len() || !self.dealer.hand.total_fits() {
            return false;
        }
        let mut i: usize = 0;
        while i < self.players.len()
            invariant
                i <= self.players@.len(),
                self.deck.wf(),
                self.dealer.hand.fits(),
                forall|j: int| 0 <= j < i ==> (#[trigger] self.players@[j]).hand.fits(),
            decreases self.players@.len() - i,
        {
            if !self.players[i].hand.total_fits() {
                return false;
            }
            i = i + 1;
        }
        true
    }

    /// Whether every player's bank can take the result of the round: see
    /// [`Game::can_settle`].
    pub fn results_applicable(&self) -> (b: bool)
        ensures
            b == self.can_settle(),
    {
        let mut i: usize = 0;
        while i < self.players.len()
            invariant
                i <= self.players@.len(),
                forall|j: int| 0 <= j < i ==> (#[trigger] self.players@[j]).can_settle(),
            decreases self.players@.len() - i,
        {
            if !self.players[i].is_settleable() {
                return false;
            }
            i = i + 1;
        }
        true
    }

    /// Whether every player's bank can take any result: see
    /// [`Game::can_settle_any`].
    pub fn any_results_applicable(&self) -> (b: bool)
        ensures
            b == self.can_settle_any(),
    {
        let mut i: usize = 0;
        while i < self.players.len()
            invariant
                i <= self.players@.len(),
                forall|j: int| 0 <= j < i ==> (#[trigger] self.players@[j]).can_settle_any(),
            decreases self.players@.len() - i,
        {
            if !self.players[i].is_settleable_any() {
                return false;
            }
            i = i + 1;
        }
        true
    }
}

/// The cards on the table are as many as the piles and the hands count.
pub proof fn lemma_all_cards_len(game: Game)
    ensures
        game.all_cards().len() == game.card_count(),
{
    let shoe = game.deck.cards@ + game.deck.discarded@;
    let hands = hands_in_order(game.players@);
    let table = shoe + hands + game.dealer.hand@;
    lemma_hands_in_order_cards(game.players@);
    vstd::seq_lib::lemma_multiset_commutative(game.deck.cards@, game.deck.discarded@);
    vstd::seq_lib::lemma_multiset_commutative(shoe, hands);
    vstd::seq_lib::lemma_multiset_commutative(shoe + hands, game.dealer.hand@);
    vstd::seq_lib::to_multiset_len(table);
    assert(table.to_multiset() =~= game.all_cards());
}

/// A table that holds the cards of a fresh shoe of `decks` decks, wherever
/// they now lie, holds `52 * decks` cards in its piles and hands together, and
/// each of the 52 cards `decks` times. A new table holds the cards of its
/// fresh shoe and every command keeps the cards of the table, so this is true
/// of a table at every point.
pub proof fn lemma_card_count(game: Game, decks: nat)
    requires
        game.all_cards() == fresh_shoe(decks).to_multiset(),
    ensures
        game.card_count() == 52 * decks,
        forall|card: Card| game.all_cards().count(card) == decks,
{
    lemma_all_cards_len(game);
    assert forall|card: Card| game.all_cards().count(card) == decks by {
        lemma_fresh_shoe_counts(decks, card);
    }
    lemma_fresh_shoe_counts(decks, Card { value: Value::Ace, color: Color::Hearts });
}

} // verus!
