//! Cards: a rank ([`Value`]) paired with a suit ([`Color`]).

use vstd::prelude::*;

verus! {

/// The colour in which a suit is drawn on screen.
#[derive(Debug, Clone, Copy, PartialEq, Eq, Structural)]
pub enum Paint {
    Red,
    White,
}

/// The suit of a card.
#[derive(Debug, Clone, Copy, PartialEq, Eq, Structural)]
pub enum Color {
    Hearts,
    Diamonds,
    Clubs,
    Spades,
}

impl Color {
    /// The suit's symbol as a sequence of characters.
    pub open spec fn symbol(self) -> Seq<char> {
        match self {
            Color::Hearts => "\u{2665}"@,
            Color::Diamonds => "\u{2666}"@,
            Color::Clubs => "\u{2663}"@,
            Color::Spades => "\u{2660}"@,
        }
    }

    /// Hearts and diamonds are the red suits.
    pub open spec fn red(self) -> bool {
        self == Color::Hearts || self == Color::Diamonds
    }

    /// Position of the suit in a fresh deck, from 0.
    pub open spec fn index(self) -> int {
        match self {
            Color::Hearts => 0,
            Color::Diamonds => 1,
            Color::Clubs => 2,
            Color::Spades => 3,
        }
    }

    /// The suit at position `i` of a fresh deck; spades from position 3 on.
    pub open spec fn at(i: int) -> Color {
        if i == 0 {
            Color::Hearts
        } else if i == 1 {
            Color::Diamonds
        } else if i == 2 {
            Color::Clubs
        } else {
            Color::Spades
        }
    }

    pub fn to_symbol(&self) -> (s: &'static str)
        ensures
            s@ == self.symbol(),
    {
        match self {
            Color::Hearts => "\u{2665}",
            Color::Diamonds => "\u{2666}",
            Color::Clubs => "\u{2663}",
            Color::Spades => "\u{2660}",
        }
    }

    /// The colour in which the suit is drawn: red for hearts and diamonds,
    /// white for clubs and spades.
    pub fn to_color(&self) -> (p: Paint)
        ensures
            p == (if self.red() {
                Paint::Red
            } else {
                Paint::White
            }),
    {
        match self {
            Color::Hearts | Color::Diamonds => Paint::Red,
            Color::Clubs | Color::Spades => Paint::White,
        }
    }

    /// The suit at position `i` of a fresh deck; spades from position 3 on.
    pub fn from_index(i: usize) -> (c: Color)
        ensures
            c == Color::at(i as int),
            i < 4 ==> c.index() == i,
    {
        if i == 0 {
            Color::Hearts
        } else if i == 1 {
            Color::Diamonds
        } else if i == 2 {
            Color::Clubs
        } else {
            Color::Spades
        }
    }
}

/// The rank of a card.
#[derive(Debug, Clone, Copy, PartialEq, Eq, Structural)]
pub enum Value {
    Ace,
    Two,
    Three,
    Four,
    Five,
    Six,
    Seven,
    Eight,
    Nine,
    Ten,
    Jack,
    Queen,
    King,
}

impl Value {
    /// Base points of the rank: an ace counts 1, the ranks two to nine their
    /// face value, and ten, jack, queen and king count 10.
    pub open spec fn points(self) -> nat {
        match self {
            Value::Ace => 1,
            Value::Two => 2,
            Value::Three => 3,
            Value::Four => 4,
            Value::Five => 5,
            Value::Six => 6,
            Value::Seven => 7,
            Value::Eight => 8,
            Value::Nine => 9,
            _ => 10,
        }
    }

    /// The rank's short label.
    pub open spec fn label(self) -> Seq<char> {
        match self {
            Value::Ace => "A"@,
            Value::Two => "2"@,
            Value::Three => "3"@,
            Value::Four => "4"@,
            Value::Five => "5"@,
            Value::Six => "6"@,
            Value::Seven => "7"@,
            Value::Eight => "8"@,
            Value::Nine => "9"@,
            Value::Ten => "10"@,
            Value::Jack => "J"@,
            Value::Queen => "Q"@,
            Value::King => "K"@,
        }
    }

    /// Position of the rank within a suit of a fresh deck, from 0.
    pub open spec fn index(self) -> int {
        match self {
            Value::Ace => 0,
            Value::Two => 1,
            Value::Three => 2,
            Value::Four => 3,
            Value::Five => 4,
            Value::Six => 5,
            Value::Seven => 6,
            Value::Eight => 7,
            Value::Nine => 8,
            Value::Ten => 9,
            Value::Jack => 10,
            Value::Queen => 11,
            Value::King => 12,
        }
    }

    /// The rank at position `i` within a suit of a fresh deck; the king from
    /// position 12 on.
    pub open spec fn at(i: int) -> Value {
        if i == 0 {
            Value::Ace
        } else if i == 1 {
            Value::Two
        } else if i == 2 {
            Value::Three
        } else if i == 3 {
            Value::Four
        } else if i == 4 {
            Value::Five
        } else if i == 5 {
            Value::Six
        } else if i == 6 {
            Value::Seven
        } else if i == 7 {
            Value::Eight
        } else if i == 8 {
            Value::Nine
        } else if i == 9 {
            Value::Ten
        } else if i == 10 {
            Value::Jack
        } else if i == 11 {
            Value::Queen
        } else {
            Value::King
        }
    }

    pub fn to_int(self) -> (n: u8)
        ensures
            n == self.points(),
            1 <= n <= 10,
    {
        match self {
            Value::Ace => 1,
            Value::Two => 2,
            Value::Three => 3,
            Value::Four => 4,
            Value::Five => 5,
            Value::Six => 6,
            Value::Seven => 7,
            Value::Eight => 8,
            Value::Nine => 9,
            _ => 10,
        }
    }

    pub fn to_string(&self) -> (s: &'static str)
        ensures
            s@ == self.label(),
    {
        match self {
            Value::Ace => "A",
            Value::Two => "2",
            Value::Three => "3",
            Value::Four => "4",
            Value::Five => "5",
            Value::Six => "6",
            Value::Seven => "7",
            Value::Eight => "8",
            Value::Nine => "9",
            Value::Ten => "10",
            Value::Jack => "J",
            Value::Queen => "Q",
            Value::King => "K",
        }
    }

    /// Whether the rank is an ace.
    pub fn is_ace(&self) -> (r: bool)
        ensures
            r == (*self == Value::Ace),
    {
        match self {
            Value::Ace => true,
            _ => false,
        }
    }

    /// The rank at position `i` within a suit of a fresh deck; the king from
    /// position 12 on.
    pub fn from_index(i: usize) -> (v: Value)
        ensures
            v == Value::at(i as int),
            i < 13 ==> v.index() == i,
    {
        if i == 0 {
            Value::Ace
        } else if i == 1 {
            Value::Two
        } else if i == 2 {
            Value::Three
        } else if i == 3 {
            Value::Four
        } else if i == 4 {
            Value::Five
        } else if i == 5 {
            Value::Six
        } else if i == 6 {
            Value::Seven
        } else if i == 7 {
            Value::Eight
        } else if i == 8 {
            Value::Nine
        } else if i == 9 {
            Value::Ten
        } else if i == 10 {
            Value::Jack
        } else if i == 11 {
            Value::Queen
        } else {
            Value::King
        }
    }
}

/// A playing card. Cards have no identity beyond their rank and suit: the
/// copies of one card in a shoe of several decks cannot be told apart.
#[derive(Debug, Clone, Copy, PartialEq, Eq, Structural)]
pub struct Card {
    pub value: Value,
    pub color: Color,
}

impl Card {
    pub fn new(value: Value, color: Color) -> (c: Card)
        ensures
            c.value == value,
            c.color == color,
    {
        Self { value, color }
    }

    pub fn value(&self) -> (v: &Value)
        ensures
            *v == self.value,
    {
        &self.value
    }

    pub fn color(&self) -> (c: &Color)
        ensures
            *c == self.color,
    {
        &self.color
    }

    /// Base points of the card, an ace counted as 1.
    pub open spec fn points(self) -> nat {
        self.value.points()
    }
}

} // verus!
