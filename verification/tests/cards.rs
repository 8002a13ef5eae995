use blackjack::{Card, Color, Deck, Hand, Paint, Player, Value};

fn all_values() -> Vec<Value> {
    vec![
        Value::Ace,
        Value::Two,
        Value::Three,
        Value::Four,
        Value::Five,
        Value::Six,
        Value::Seven,
        Value::Eight,
        Value::Nine,
        Value::Ten,
        Value::Jack,
        Value::Queen,
        Value::King,
    ]
}

fn all_colors() -> Vec<Color> {
    vec![Color::Hearts, Color::Diamonds, Color::Clubs, Color::Spades]
}

fn hand_of(values: &[Value]) -> Hand {
    let mut hand = Hand::new();
    for v in values {
        hand.add_card(Card::new(*v, Color::Hearts));
    }
    hand
}

#[test]
fn test_deck_initialization() {
    let deck = Deck::initialize_deck();
    assert_eq!(deck.length, 312);
}

#[test]
fn blackjack_test_deck_initialization() {
    let deck = Deck::initialize_deck();
    assert_eq!(deck.length, 312);
}

#[test]
fn test_ace_value() {
    let ace_one = Card::new(Value::Ace, Color::Hearts);
    let four = Card::new(Value::Four, Color::Diamonds);
    let mut hand_one = Hand::new();
    hand_one.add_card(ace_one);
    hand_one.add_card(four);

    let ace_ten = Card::new(Value::Ace, Color::Spades);
    let nine = Card::new(Value::Nine, Color::Clubs);
    let five = Card::new(Value::Five, Color::Hearts);
    let mut hand_ten = Hand::new();
    hand_ten.add_card(ace_ten);
    hand_ten.add_card(nine);
    hand_ten.add_card(five);

    assert_eq!(hand_one.value(), 15);
    assert_eq!(hand_ten.value(), 15);
}

#[test]
fn blackjack_test_ace_value() {
    let ace_one = Card::new(Value::Ace, Color::Hearts);
    let four = Card::new(Value::Four, Color::Diamonds);
    let mut hand_one = Hand::new();
    hand_one.add_card(ace_one);
    hand_one.add_card(four);

    let ace_ten = Card::new(Value::Ace, Color::Spades);
    let nine = Card::new(Value::Nine, Color::Clubs);
    let five = Card::new(Value::Five, Color::Hearts);
    let mut hand_ten = Hand::new();
    hand_ten.add_card(ace_ten);
    hand_ten.add_card(nine);
    hand_ten.add_card(five);

    assert_eq!(hand_one.value(), 15);
    assert_eq!(hand_ten.value(), 15);
}

#[test]
fn test_is_player() {
    let mut player = Player::new();
    player.hand.add_card(Card::new(Value::Ace, Color::Hearts));
    player.hand.add_card(Card::new(Value::King, Color::Spades));
    assert_eq!(player.hand.value(), 21);
}

#[test]
fn card_accessors_return_the_parts() {
    let card = Card::new(Value::Seven, Color::Clubs);
    assert_eq!(*card.value(), Value::Seven);
    assert_eq!(*card.color(), Color::Clubs);
}

#[test]
fn rank_points() {
    let expected: [u8; 13] = [1, 2, 3, 4, 5, 6, 7, 8, 9, 10, 10, 10, 10];
    for (v, e) in all_values().into_iter().zip(expected) {
        assert_eq!(v.to_int(), e);
    }
}

#[test]
fn rank_labels() {
    let expected = ["A", "2", "3", "4", "5", "6", "7", "8", "9", "10", "J", "Q", "K"];
    for (v, e) in all_values().into_iter().zip(expected) {
        assert_eq!(v.to_string(), e);
    }
}

#[test]
fn rank_positions_round_trip() {
    for (i, v) in all_values().into_iter().enumerate() {
        assert_eq!(Value::from_index(i), v);
    }
    for (i, c) in all_colors().into_iter().enumerate() {
        assert_eq!(Color::from_index(i), c);
    }
    assert!(Value::Ace.is_ace());
    assert!(!Value::King.is_ace());
}

#[test]
fn suit_symbols_and_paint() {
    assert_eq!(Color::Hearts.to_symbol(), "\u{2665}");
    assert_eq!(Color::Diamonds.to_symbol(), "\u{2666}");
    assert_eq!(Color::Clubs.to_symbol(), "\u{2663}");
    assert_eq!(Color::Spades.to_symbol(), "\u{2660}");
    assert_eq!(Color::Hearts.to_color(), Paint::Red);
    assert_eq!(Color::Diamonds.to_color(), Paint::Red);
    assert_eq!(Color::Clubs.to_color(), Paint::White);
    assert_eq!(Color::Spades.to_color(), Paint::White);
}

#[test]
fn empty_hand_is_worth_nothing() {
    let hand = Hand::new();
    assert_eq!(hand.value(), 0);
    assert!(!hand.is_blackjack());
    assert!(!hand.is_bust());
    assert_eq!(hand.first_card_value(), 0);
    assert!(hand.total_fits());
}

#[test]
fn ace_and_king_is_blackjack() {
    let hand = hand_of(&[Value::Ace, Value::King]);
    assert_eq!(hand.value(), 21);
    assert!(hand.is_blackjack());
    assert!(!hand.is_bust());
}

#[test]
fn three_cards_to_21_is_no_blackjack() {
    let hand = hand_of(&[Value::Seven, Value::Seven, Value::Seven]);
    assert_eq!(hand.value(), 21);
    assert!(!hand.is_blackjack());
}

#[test]
fn king_queen_five_is_bust() {
    let hand = hand_of(&[Value::King, Value::Queen, Value::Five]);
    assert_eq!(hand.value(), 25);
    assert!(hand.is_bust());
    assert!(!hand.is_blackjack());
}

#[test]
fn only_one_ace_is_promoted() {
    assert_eq!(hand_of(&[Value::Ace, Value::Ace]).value(), 12);
    assert_eq!(hand_of(&[Value::Ace, Value::Ace, Value::Nine]).value(), 21);
    assert_eq!(hand_of(&[Value::Ace, Value::Ace, Value::Ten]).value(), 12);
    assert_eq!(hand_of(&[Value::Ace]).value(), 11);
    assert_eq!(hand_of(&[Value::Ace, Value::Ten]).value(), 21);
    assert_eq!(hand_of(&[Value::Ace, Value::Five, Value::Five]).value(), 21);
    assert_eq!(hand_of(&[Value::Ace, Value::Five, Value::Six]).value(), 12);
}

#[test]
fn hand_keeps_the_order_of_its_cards() {
    let mut hand = Hand::new();
    hand.add_card(Card::new(Value::Two, Color::Clubs));
    hand.add_card(Card::new(Value::Ace, Color::Spades));
    assert_eq!(
        *hand.cards(),
        vec![Card::new(Value::Two, Color::Clubs), Card::new(Value::Ace, Color::Spades)]
    );
    assert_eq!(hand.first_card_value(), 2);
    hand.clear();
    assert!(hand.cards().is_empty());
}

#[test]
fn total_fits_up_to_255() {
    let mut hand = Hand::new();
    for _ in 0..25 {
        hand.add_card(Card::new(Value::King, Color::Hearts));
    }
    hand.add_card(Card::new(Value::Five, Color::Hearts));
    assert!(hand.total_fits());
    assert_eq!(hand.value(), 255);
    hand.add_card(Card::new(Value::Ace, Color::Hearts));
    assert!(!hand.total_fits());
}
