use blackjack::{Card, Color, Deck, GameError, Hand, Value};

fn values() -> Vec<Value> {
    vec![
        Value::Ace,
        Value::Two,
        Value::Three,
        Value::Four,
        Value::Five,
        Value::Six,
        Value::Seven,
        Value::Eight,
        Value::Nine,
        Value::Ten,
        Value::Jack,
        Value::Queen,
        Value::King,
    ]
}

fn colors() -> Vec<Color> {
    vec![Color::Hearts, Color::Diamonds, Color::Clubs, Color::Spades]
}

fn count_of(cards: &[Card], card: Card) -> usize {
    cards.iter().filter(|c| **c == card).count()
}

fn assert_each_card_times(cards: &[Card], times: usize) {
    for color in colors() {
        for value in values() {
            assert_eq!(count_of(cards, Card::new(value, color)), times);
        }
    }
}

#[test]
fn fresh_shoe_holds_each_card_once_per_deck() {
    for decks in [0usize, 1, 2, 6] {
        let deck = Deck::with_decks(decks);
        assert_eq!(deck.cards.len(), 52 * decks);
        assert_eq!(deck.length, 52 * decks);
        assert!(deck.discarded.is_empty());
        assert_each_card_times(&deck.cards, decks);
    }
}

#[test]
fn fresh_shoe_is_in_deck_order() {
    let deck = Deck::with_decks(2);
    assert_eq!(deck.cards[0], Card::new(Value::Ace, Color::Hearts));
    assert_eq!(deck.cards[12], Card::new(Value::King, Color::Hearts));
    assert_eq!(deck.cards[13], Card::new(Value::Ace, Color::Diamonds));
    assert_eq!(deck.cards[26], Card::new(Value::Ace, Color::Clubs));
    assert_eq!(deck.cards[51], Card::new(Value::King, Color::Spades));
    assert_eq!(deck.cards[52], Card::new(Value::Ace, Color::Hearts));
    assert_eq!(deck.cards[103], Card::new(Value::King, Color::Spades));
}

#[test]
fn draw_takes_the_top_card() {
    let mut deck = Deck::with_decks(1);
    assert_eq!(deck.draw(), Some(Card::new(Value::King, Color::Spades)));
    assert_eq!(deck.draw(), Some(Card::new(Value::Queen, Color::Spades)));
    assert_eq!(deck.length, 50);
    assert_eq!(deck.cards.len(), 50);
    assert!(deck.discarded.is_empty());
}

#[test]
fn shuffle_keeps_the_cards_and_changes_their_order() {
    let mut deck = Deck::initialize_deck();
    let before = deck.cards.clone();
    deck.shuffle();
    assert_eq!(deck.cards.len(), 312);
    assert_eq!(deck.length, 312);
    assert!(deck.discarded.is_empty());
    assert_each_card_times(&deck.cards, 6);
    assert_ne!(deck.cards, before);
}

#[test]
fn draw_reshuffles_the_discard_pile_when_the_draw_pile_is_empty() {
    let mut deck = Deck::with_decks(1);
    let mut hand = Hand::new();
    for _ in 0..52 {
        let card = deck.draw();
        assert!(card.is_some());
        hand.add_card(card.unwrap());
    }
    assert_eq!(deck.length, 0);
    assert!(deck.cards.is_empty());
    assert_eq!(deck.draw(), None);
    assert_eq!(deck.length, 0);

    deck.discard_hand(&mut hand);
    assert!(hand.cards().is_empty());
    assert_eq!(deck.discarded.len(), 52);
    assert!(deck.cards.is_empty());

    let card = deck.draw();
    assert!(card.is_some());
    assert!(deck.discarded.is_empty());
    assert_eq!(deck.cards.len(), 51);
    assert_eq!(deck.length, 51);
    let mut all = deck.cards.clone();
    all.push(card.unwrap());
    assert_each_card_times(&all, 1);
}

#[test]
fn draw_from_an_empty_shoe_gives_nothing() {
    let mut deck = Deck::with_decks(0);
    assert_eq!(deck.draw(), None);
    assert!(deck.cards.is_empty());
    assert!(deck.discarded.is_empty());
    assert_eq!(deck.length, 0);
}

#[test]
fn discard_hand_appends_in_order() {
    let mut deck = Deck::with_decks(1);
    let mut first = Hand::new();
    first.add_card(Card::new(Value::Two, Color::Clubs));
    first.add_card(Card::new(Value::Three, Color::Clubs));
    let mut second = Hand::new();
    second.add_card(Card::new(Value::Four, Color::Clubs));
    deck.discard_hand(&mut first);
    deck.discard_hand(&mut second);
    assert_eq!(
        deck.discarded,
        vec![
            Card::new(Value::Two, Color::Clubs),
            Card::new(Value::Three, Color::Clubs),
            Card::new(Value::Four, Color::Clubs)
        ]
    );
    assert_eq!(deck.cards.len(), 52);
    assert_eq!(deck.length, 52);
}

#[test]
fn hit_cards_draws_into_the_hand() {
    let mut deck = Deck::with_decks(1);
    let mut hand = Hand::new();
    assert_eq!(hand.hit_cards(&mut deck), Ok(()));
    assert_eq!(*hand.cards(), vec![Card::new(Value::King, Color::Spades)]);
    assert_eq!(deck.length, 51);
}

#[test]
fn hit_cards_fails_on_an_empty_shoe() {
    let mut deck = Deck::with_decks(0);
    let mut hand = Hand::new();
    hand.add_card(Card::new(Value::Two, Color::Clubs));
    assert_eq!(hand.hit_cards(&mut deck), Err(GameError::ShoeExhausted));
    assert_eq!(hand.cards().len(), 1);
}

#[test]
fn take_top_leaves_the_discard_pile_alone() {
    let mut deck = Deck::with_decks(0);
    let mut hand = Hand::new();
    hand.add_card(Card::new(Value::Two, Color::Clubs));
    deck.discard_hand(&mut hand);
    assert_eq!(deck.take_top(), None);
    assert_eq!(deck.discarded.len(), 1);
    assert_eq!(deck.length, 0);

    let mut full = Deck::with_decks(1);
    assert_eq!(full.take_top(), Some(Card::new(Value::King, Color::Spades)));
    assert_eq!(full.cards.len(), 51);
    assert_eq!(full.length, 51);
    assert_eq!(*full.cards.last().unwrap(), Card::new(Value::Queen, Color::Spades));
}

#[test]
fn refill_moves_the_discard_pile_into_the_draw_pile() {
    let mut deck = Deck::with_decks(1);
    let mut hand = Hand::new();
    for _ in 0..20 {
        hand.add_card(deck.draw().unwrap());
    }
    deck.discard_hand(&mut hand);
    assert_eq!(deck.cards.len(), 32);
    assert_eq!(deck.discarded.len(), 20);
    deck.refill();
    assert_eq!(deck.cards.len(), 52);
    assert_eq!(deck.length, 52);
    assert!(deck.discarded.is_empty());
    assert_each_card_times(&deck.cards, 1);
}

#[test]
fn drawing_a_single_discarded_card_gives_that_card() {
    let mut deck = Deck::with_decks(0);
    let mut hand = Hand::new();
    hand.add_card(Card::new(Value::Seven, Color::Diamonds));
    deck.discard_hand(&mut hand);
    assert_eq!(deck.draw(), Some(Card::new(Value::Seven, Color::Diamonds)));
    assert!(deck.cards.is_empty());
    assert!(deck.discarded.is_empty());
    assert_eq!(deck.length, 0);
    assert_eq!(deck.draw(), None);
}
