//! CardSet: an ordered, mutable sequence of cards, used both as a
//! shuffled draw pile and as a player or dealer hand, with the
//! aggregate hand valuations.

use vstd::prelude::*;
use rand::seq::SliceRandom;
use crate::card::{
    Card,
    Suit,
    rank_of_code,
    low_value,
    high_value,
    lemma_value_bounds,
    card_name,
};

verus! {

broadcast use vstd::seq_lib::group_to_multiset_ensures;

/// An ordered sequence of cards. Used in three roles: a full shuffled
/// deck, the player's hand, and the dealer's hand.
#[derive(Debug)]
pub struct CardSet(pub Vec<Card>);

impl View for CardSet {
    type V = Seq<Card>;

    open spec fn view(&self) -> Seq<Card> {
        self.0@
    }
}

/// The sum of the cards' values with aces counted low.
pub open spec fn low_total(s: Seq<Card>) -> int
    decreases s.len(),
{
    if s.len() == 0 {
        0
    } else {
        low_total(s.drop_last()) + low_value(s.last().value)
    }
}

/// The sum of the cards' values with aces counted high.
pub open spec fn high_total(s: Seq<Card>) -> int
    decreases s.len(),
{
    if s.len() == 0 {
        0
    } else {
        high_total(s.drop_last()) + high_value(s.last().value)
    }
}

/// The optimum hand value: the aces-high total when it does not bust,
/// otherwise the aces-low total.
pub open spec fn optimum_value(s: Seq<Card>) -> int {
    if high_total(s) <= 21 {
        high_total(s)
    } else {
        low_total(s)
    }
}

/// A blackjack is exactly two cards whose aces-high total is 21.
pub open spec fn is_blackjack(s: Seq<Card>) -> bool {
    s.len() == 2 && high_total(s) == 21
}

/// The suit that a suit index in 0..=3 stands for, in the fixed order a
/// fresh deck is built in.
pub open spec fn suit_of_index(i: int) -> Suit {
    if i == 0 {
        Suit::Clubs
    } else if i == 1 {
        Suit::Diamonds
    } else if i == 2 {
        Suit::Hearts
    } else {
        Suit::Spades
    }
}

/// The 52 cards of a fresh deck in their fixed deterministic order:
/// suit-major, rank-minor, ranks 1..=13 within each suit.
pub open spec fn fresh_deck() -> Seq<Card> {
    Seq::new(52, |i: int| Card { suit: suit_of_index(i / 13), value: rank_of_code(i % 13 + 1) })
}

/// Both totals of a hand grow with its length: each card is worth at
/// least 1 counted low, at most 11 counted high, and never less counted
/// high than counted low.
pub proof fn lemma_total_bounds(s: Seq<Card>)
    ensures
        s.len() <= low_total(s) <= high_total(s) <= 11 * s.len(),
    decreases s.len(),
{
    if s.len() > 0 {
        lemma_total_bounds(s.drop_last());
        lemma_value_bounds(s.last().value);
    }
}

/// A prefix of a hand never totals more than the whole hand, and taking
/// one more card adds exactly that card's value.
pub proof fn lemma_total_take(s: Seq<Card>, i: int)
    requires
        0 <= i <= s.len(),
    ensures
        low_total(s.take(i)) <= low_total(s),
        high_total(s.take(i)) <= high_total(s),
        i < s.len() ==> low_total(s.take(i + 1)) == low_total(s.take(i)) + low_value(s[i].value),
        i < s.len() ==> high_total(s.take(i + 1)) == high_total(s.take(i)) + high_value(s[i].value),
    decreases s.len() - i,
{
    if i < s.len() {
        assert(s.take(i + 1).drop_last() =~= s.take(i));
        assert(s.take(i + 1).last() == s[i]);
        lemma_value_bounds(s[i].value);
        lemma_total_take(s, i + 1);
    } else {
        assert(s.take(i) =~= s);
    }
}

impl CardSet {
    /// An empty card set.
    pub fn new() -> (r: CardSet)
        ensures
            r@ == Seq::<Card>::empty(),
    {
        CardSet(Vec::<Card>::new())
    }

    /// Appends a card at the end: how a hand receives a dealt card.
    pub fn push(&mut self, c: Card)
        ensures
            final(self)@ == old(self)@.push(c),
    {
        self.0.push(c)
    }

    /// Removes and returns the last card: how the deck is drawn from.
    pub fn pop(&mut self) -> (r: Option<Card>)
        ensures
            old(self)@.len() > 0 ==> (r == Some(old(self)@.last()) && final(self)@
                == old(self)@.drop_last()),
            old(self)@.len() == 0 ==> (r is None && final(self)@ == old(self)@),
    {
        self.0.pop()
    }

    /// The full 52-card deck in its fixed order, one card for every
    /// suit and rank combination.
    pub fn deck() -> (r: CardSet)
        ensures
            r@ == fresh_deck(),
    {
        let mut cards = Vec::<Card>::with_capacity(52);
        for i in 0..4usize
            invariant
                cards@.len() == i * 13,
                forall|k: int| 0 <= k < cards@.len() ==> cards@[k] == fresh_deck()[k],
        {
            for j in 0..13usize
                invariant
                    i < 4,
                    cards@.len() == i * 13 + j,
                    forall|k: int| 0 <= k < cards@.len() ==> cards@[k] == fresh_deck()[k],
            {
                let s = match i {
                    0 => Suit::Clubs,
                    1 => Suit::Diamonds,
                    2 => Suit::Hearts,
                    _ => Suit::Spades,
                };
                let code: i32 = (j as i32) + 1;
                let c = Card::from_value(s, code);
                proof {
                    let n = (i * 13 + j) as int;
                    assert(n / 13 == i && n % 13 == j) by (nonlinear_arith)
                        requires
                            i < 4,
                            j < 13,
                            n == i * 13 + j,
                    ;
                    assert(c == fresh_deck()[n]);
                }
                cards.push(c);
            }
        }
        proof {
            assert(cards@ =~= fresh_deck());
        }
        CardSet(cards)
    }

    /// A fresh 52-card deck in uniformly random order: the fixed deck
    /// followed by a uniform in-place shuffle, so it holds exactly the
    /// same cards as the fixed deck.
    pub fn new_shuffled() -> (r: CardSet)
        ensures
            r@.to_multiset() == fresh_deck().to_multiset(),
            r@.len() == 52,
    {
        let mut cards = CardSet::deck();
        let mut rng = new_rng();
        shuffle_cards(&mut cards.0, &mut rng);
        proof {
            assert(cards@.to_multiset().len() == cards@.len());
            assert(fresh_deck().to_multiset().len() == fresh_deck().len());
        }
        cards
    }

    /// The hand's total with aces counted low.
    pub fn get_value_aces_low(&self) -> (r: i32)
        requires
            low_total(self@) <= i32::MAX,
        ensures
            r == low_total(self@),
    {
        let n = self.0.len();
        let mut acc: i32 = 0;
        let mut idx: usize = 0;
        while idx < n
            invariant
                n == self@.len(),
                idx <= n,
                acc == low_total(self@.take(idx as int)),
                low_total(self@) <= i32::MAX,
            decreases n - idx,
        {
            proof {
                lemma_total_bounds(self@.take(idx as int));
                lemma_total_take(self@, idx as int);
                lemma_total_take(self@, idx as int + 1);
            }
            acc = acc + self.0[idx].to_value_aces_low();
            idx += 1;
        }
        proof {
            assert(self@.take(n as int) =~= self@);
        }
        acc
    }

    /// The hand's total with aces counted high.
    pub fn get_value_aces_high(&self) -> (r: i32)
        requires
            high_total(self@) <= i32::MAX,
        ensures
            r == high_total(self@),
    {
        let n = self.0.len();
        let mut acc: i32 = 0;
        let mut idx: usize = 0;
        while idx < n
            invariant
                n == self@.len(),
                idx <= n,
                acc == high_total(self@.take(idx as int)),
                high_total(self@) <= i32::MAX,
            decreases n - idx,
        {
            proof {
                lemma_total_bounds(self@.take(idx as int));
                lemma_total_take(self@, idx as int);
                lemma_total_take(self@, idx as int + 1);
            }
            acc = acc + self.0[idx].to_value_aces_high();
            idx += 1;
        }
        proof {
            assert(self@.take(n as int) =~= self@);
        }
        acc
    }

    /// The optimum hand value: aces high when that does not exceed 21,
    /// otherwise aces low.
    pub fn get_value_optimum(&self) -> (r: i32)
        requires
            high_total(self@) <= i32::MAX,
        ensures
            r == optimum_value(self@),
    {
        proof {
            lemma_total_bounds(self@);
        }
        let high = self.get_value_aces_high();
        if high <= 21 {
            return high;
        }
        self.get_value_aces_low()
    }

    /// Whether the hand is a blackjack: exactly two cards totalling 21
    /// with aces counted high. No hand of any other size qualifies,
    /// whatever it totals.
    pub fn has_blackjack(&self) -> (r: bool)
        ensures
            r == is_blackjack(self@),
    {
        if self.0.len() == 2 {
            proof {
                lemma_total_bounds(self@);
            }
            self.get_value_aces_high() == 21
        } else {
            false
        }
    }

    /// The hand rendered for display: one line per card in deal order,
    /// then the optimum value line.
    pub fn render(&self) -> (r: Vec<String>)
        requires
            high_total(self@) <= i32::MAX,
        ensures
            r@.len() == self@.len() + 1,
            forall|i: int| 0 <= i < self@.len() ==> r@[i]@ == card_name(self@[i]),
            r@[self@.len() as int]@ == "Value: "@ + dec_of(optimum_value(self@)),
    {
        let mut lines = Vec::<String>::new();
        let n = self.0.len();
        let mut idx: usize = 0;
        while idx < n
            invariant
                n == self@.len(),
                idx <= n,
                lines@.len() == idx,
                forall|i: int| 0 <= i < idx ==> lines@[i]@ == card_name(self@[i]),
            decreases n - idx,
        {
            lines.push(self.0[idx].display());
            idx += 1;
        }
        proof {
            lemma_total_bounds(self@);
        }
        let v = self.get_value_optimum();
        let mut line = String::from_str("Value: ");
        line.append(u32_string(v as u32).as_str());
        lines.push(line);
        lines
    }
}

/// The digit character of a value in 0..=9.
pub open spec fn char_of_digit(d: int) -> char {
    if d == 0 {
        '0'
    } else if d == 1 {
        '1'
    } else if d == 2 {
        '2'
    } else if d == 3 {
        '3'
    } else if d == 4 {
        '4'
    } else if d == 5 {
        '5'
    } else if d == 6 {
        '6'
    } else if d == 7 {
        '7'
    } else if d == 8 {
        '8'
    } else {
        '9'
    }
}

/// The decimal numeral of a nonnegative integer, most significant
/// digit first, without leading zeroes.
pub open spec fn dec_of(n: int) -> Seq<char>
    recommends
        n >= 0,
    decreases n,
{
    if n < 10 {
        seq![char_of_digit(n)]
    } else {
        dec_of(n / 10).push(char_of_digit(n % 10))
    }
}

/// The one-character numeral of a single decimal digit.
fn digit_str(d: u32) -> (r: &'static str)
    requires
        d < 10,
    ensures
        r@ == seq![char_of_digit(d as int)],
{
    proof {
        reveal_strlit("0");
        reveal_strlit("1");
        reveal_strlit("2");
        reveal_strlit("3");
        reveal_strlit("4");
        reveal_strlit("5");
        reveal_strlit("6");
        reveal_strlit("7");
        reveal_strlit("8");
        reveal_strlit("9");
        assert("0"@ =~= seq!['0']);
        assert("1"@ =~= seq!['1']);
        assert("2"@ =~= seq!['2']);
        assert("3"@ =~= seq!['3']);
        assert("4"@ =~= seq!['4']);
        assert("5"@ =~= seq!['5']);
        assert("6"@ =~= seq!['6']);
        assert("7"@ =~= seq!['7']);
        assert("8"@ =~= seq!['8']);
        assert("9"@ =~= seq!['9']);
    }
    match d {
        0 => "0",
        1 => "1",
        2 => "2",
        3 => "3",
        4 => "4",
        5 => "5",
        6 => "6",
        7 => "7",
        8 => "8",
        _ => "9",
    }
}

/// The decimal numeral of `n` as a string.
fn u32_string(n: u32) -> (r: String)
    ensures
        r@ == dec_of(n as int),
    decreases n,
{
    if n < 10 {
        String::from_str(digit_str(n))
    } else {
        let mut s = u32_string(n / 10);
        s.append(digit_str(n % 10));
        proof {
            assert(s@ =~= dec_of(n as int / 10).push(char_of_digit(n as int % 10)));
        }
        s
    }
}

/// A fresh deck holds exactly 52 cards and no suit and rank pair twice.
pub proof fn lemma_fresh_deck_complete()
    ensures
        fresh_deck().len() == 52,
        fresh_deck().no_duplicates(),
{
    assert forall|i: int, j: int|
        0 <= i < fresh_deck().len() && 0 <= j < fresh_deck().len() && i != j implies fresh_deck()[i]
        != fresh_deck()[j] by {
        vstd::arithmetic::div_mod::lemma_fundamental_div_mod(i, 13);
        vstd::arithmetic::div_mod::lemma_fundamental_div_mod(j, 13);
        if i / 13 == j / 13 {
            assert(i % 13 != j % 13);
            assert(rank_of_code(i % 13 + 1) != rank_of_code(j % 13 + 1));
        } else {
            assert(suit_of_index(i / 13) != suit_of_index(j / 13));
        }
    }
}

/// Any reordering of the fresh deck — in particular a shuffled deck —
/// still holds exactly 52 cards with no suit and rank pair twice.
pub proof fn lemma_permutation_of_deck(s: Seq<Card>)
    requires
        s.to_multiset() == fresh_deck().to_multiset(),
    ensures
        s.len() == 52,
        s.no_duplicates(),
{
    lemma_fresh_deck_complete();
    fresh_deck().lemma_multiset_has_no_duplicates();
    s.lemma_multiset_has_no_duplicates_conv();
    assert(s.to_multiset().len() == s.len());
    assert(fresh_deck().to_multiset().len() == fresh_deck().len());
}

/// Relies on rand::thread_rng: a handle to the thread-local random
/// number generator. Nothing is assumed of the values it yields.
#[verifier::external_body]
fn new_rng() -> rand::rngs::ThreadRng {
    rand::thread_rng()
}

#[verifier::external_type_specification]
#[verifier::external_body]
pub struct ExThreadRng(rand::rngs::ThreadRng);

/// Relies on rand::seq::SliceRandom::shuffle: a Fisher-Yates shuffle
/// that permutes the slice in place by element swaps alone, so the
/// multiset of elements is unchanged. Which order comes out depends on
/// the generator, so nothing is assumed of the order.
#[verifier::external_body]
fn shuffle_cards(cards: &mut Vec<Card>, rng: &mut rand::rngs::ThreadRng)
    ensures
        final(cards)@.to_multiset() == old(cards)@.to_multiset(),
{
    cards.shuffle(rng)
}

} // verus!
