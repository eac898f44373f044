//! Cards: an immutable pairing of a suit and a rank, with the two
//! blackjack valuations (aces counted low or high) and a display name.

use vstd::prelude::*;

verus! {

/// A card's suit: a pure label with no ordering semantics.
#[derive(Clone, Copy, Debug, PartialEq, Eq, Structural)]
pub enum Suit {
    Clubs,
    Diamonds,
    Hearts,
    Spades,
}

/// A card's rank.
#[derive(Clone, Copy, Debug, PartialEq, Eq, Structural)]
pub enum Value {
    Ace,
    Two,
    Three,
    Four,
    Five,
    Six,
    Seven,
    Eight,
    Nine,
    Ten,
    Jack,
    Queen,
    King,
}

/// An immutable playing card.
#[derive(Clone, Copy, Debug, PartialEq, Eq, Structural)]
pub struct Card {
    pub suit: Suit,
    pub value: Value,
}

/// The rank that a numeric rank code in 1..=13 stands for; every code
/// outside that range falls back to `Ace` (a defensive default, not an
/// error).
pub open spec fn rank_of_code(v: int) -> Value {
    if v == 2 {
        Value::Two
    } else if v == 3 {
        Value::Three
    } else if v == 4 {
        Value::Four
    } else if v == 5 {
        Value::Five
    } else if v == 6 {
        Value::Six
    } else if v == 7 {
        Value::Seven
    } else if v == 8 {
        Value::Eight
    } else if v == 9 {
        Value::Nine
    } else if v == 10 {
        Value::Ten
    } else if v == 11 {
        Value::Jack
    } else if v == 12 {
        Value::Queen
    } else if v == 13 {
        Value::King
    } else {
        Value::Ace
    }
}

/// The value of a rank with aces counted low: Ace is 1, numeric ranks
/// count face value, face cards count 10.
pub open spec fn low_value(v: Value) -> int {
    match v {
        Value::Ace => 1,
        Value::Two => 2,
        Value::Three => 3,
        Value::Four => 4,
        Value::Five => 5,
        Value::Six => 6,
        Value::Seven => 7,
        Value::Eight => 8,
        Value::Nine => 9,
        Value::Ten => 10,
        Value::Jack => 10,
        Value::Queen => 10,
        Value::King => 10,
    }
}

/// The value of a rank with aces counted high: identical to `low_value`
/// except that Ace is 11.
pub open spec fn high_value(v: Value) -> int {
    if v == Value::Ace {
        11
    } else {
        low_value(v)
    }
}

/// The printed name of a rank.
pub open spec fn value_name(v: Value) -> Seq<char> {
    match v {
        Value::Ace => "Ace"@,
        Value::Two => "Two"@,
        Value::Three => "Three"@,
        Value::Four => "Four"@,
        Value::Five => "Five"@,
        Value::Six => "Six"@,
        Value::Seven => "Seven"@,
        Value::Eight => "Eight"@,
        Value::Nine => "Nine"@,
        Value::Ten => "Ten"@,
        Value::Jack => "Jack"@,
        Value::Queen => "Queen"@,
        Value::King => "King"@,
    }
}

/// The printed name of a suit.
pub open spec fn suit_name(s: Suit) -> Seq<char> {
    match s {
        Suit::Clubs => "Clubs"@,
        Suit::Diamonds => "Diamonds"@,
        Suit::Hearts => "Hearts"@,
        Suit::Spades => "Spades"@,
    }
}

/// The full display name of a card, "<Rank> of <Suit>".
pub open spec fn card_name(c: Card) -> Seq<char> {
    value_name(c.value) + " of "@ + suit_name(c.suit)
}

impl Card {
    /// Builds the card of suit `s` whose rank code is `v` (1 is Ace, 11
    /// Jack, 12 Queen, 13 King); an out-of-range code gives an Ace.
    pub fn from_value(s: Suit, v: i32) -> (c: Card)
        ensures
            c.suit == s,
            c.value == rank_of_code(v as int),
    {
        let cv = match v {
            1 => Value::Ace,
            2 => Value::Two,
            3 => Value::Three,
            4 => Value::Four,
            5 => Value::Five,
            6 => Value::Six,
            7 => Value::Seven,
            8 => Value::Eight,
            9 => Value::Nine,
            10 => Value::Ten,
            11 => Value::Jack,
            12 => Value::Queen,
            13 => Value::King,
            _ => Value::Ace,
        };
        Card { suit: s, value: cv }
    }

    /// The card's value with aces counted low.
    pub fn to_value_aces_low(&self) -> (r: i32)
        ensures
            r == low_value(self.value),
    {
        match self.value {
            Value::Ace => 1,
            Value::Two => 2,
            Value::Three => 3,
            Value::Four => 4,
            Value::Five => 5,
            Value::Six => 6,
            Value::Seven => 7,
            Value::Eight => 8,
            Value::Nine => 9,
            Value::Ten => 10,
            Value::Jack => 10,
            Value::Queen => 10,
            Value::King => 10,
        }
    }

    /// The card's value with aces counted high.
    pub fn to_value_aces_high(&self) -> (r: i32)
        ensures
            r == high_value(self.value),
    {
        match self.value {
            Value::Ace => 11,
            _ => self.to_value_aces_low(),
        }
    }

    /// The rank's printed name.
    pub fn get_value_string(&self) -> (r: &'static str)
        ensures
            r@ == value_name(self.value),
    {
        match self.value {
            Value::Ace => "Ace",
            Value::Two => "Two",
            Value::Three => "Three",
            Value::Four => "Four",
            Value::Five => "Five",
            Value::Six => "Six",
            Value::Seven => "Seven",
            Value::Eight => "Eight",
            Value::Nine => "Nine",
            Value::Ten => "Ten",
            Value::Jack => "Jack",
            Value::Queen => "Queen",
            Value::King => "King",
        }
    }

    /// The suit's printed name.
    pub fn get_suit_string(&self) -> (r: &'static str)
        ensures
            r@ == suit_name(self.suit),
    {
        match self.suit {
            Suit::Clubs => "Clubs",
            Suit::Diamonds => "Diamonds",
            Suit::Hearts => "Hearts",
            Suit::Spades => "Spades",
        }
    }

    /// The card's display name, "<Rank> of <Suit>".
    pub fn display(&self) -> (r: String)
        ensures
            r@ == card_name(*self),
    {
        let mut s = String::from_str(self.get_value_string());
        s.append(" of ");
        s.append(self.get_suit_string());
        s
    }
}

/// An Ace is worth 10 more counted high than counted low; every other
/// rank is worth the same either way.
pub proof fn lemma_ace_values(v: Value)
    ensures
        v == Value::Ace ==> high_value(v) == low_value(v) + 10,
        v != Value::Ace ==> high_value(v) == low_value(v),
{
}

/// Every rank's two values lie in fixed small ranges.
pub proof fn lemma_value_bounds(v: Value)
    ensures
        1 <= low_value(v) <= 10,
        low_value(v) <= high_value(v) <= 11,
{
}

} // verus!
