//! The session's pure logic: parsing the typed bet and action lines,
//! validating a bet against the stake, and settling the stake after a
//! round.

use vstd::prelude::*;
use crate::round::{Action, GameResult};

verus! {

/// Whether `c` is an ascii decimal digit.
pub open spec fn is_digit(c: char) -> bool {
    48 <= c as int <= 57
}

/// The numeric value of an ascii decimal digit.
pub open spec fn digit_val(c: char) -> int {
    c as int - 48
}

/// Whether every character of `s` is an ascii decimal digit.
pub open spec fn all_digits(s: Seq<char>) -> bool {
    forall|i: int| 0 <= i < s.len() ==> is_digit(s[i])
}

/// The unbounded value of a sequence of decimal digits, most
/// significant first.
pub open spec fn digits_val(s: Seq<char>) -> int
    decreases s.len(),
{
    if s.len() == 0 {
        0
    } else {
        digits_val(s.drop_last()) * 10 + digit_val(s.last())
    }
}

/// The integer that `s` denotes as a signed decimal numeral: an
/// optional leading '+' or '-', then one or more digits. `None` when
/// malformed or when the value does not fit in an i32 — exactly the
/// strings Rust's i32 parsing accepts.
pub open spec fn parse_i32_spec(s: Seq<char>) -> Option<int> {
    let neg = s.len() > 0 && s[0] == '-';
    let signed = s.len() > 0 && (s[0] == '-' || s[0] == '+');
    let ds = if signed {
        s.drop_first()
    } else {
        s
    };
    if ds.len() == 0 || !all_digits(ds) {
        None
    } else {
        let v = if neg {
            -digits_val(ds)
        } else {
            digits_val(ds)
        };
        if i32::MIN <= v <= i32::MAX {
            Some(v)
        } else {
            None
        }
    }
}

/// A sequence of digits denotes a value of at least 0.
proof fn lemma_digits_val_nonneg(s: Seq<char>)
    requires
        all_digits(s),
    ensures
        digits_val(s) >= 0,
    decreases s.len(),
{
    if s.len() > 0 {
        assert(all_digits(s.drop_last()));
        lemma_digits_val_nonneg(s.drop_last());
    }
}

/// A prefix of a digit sequence never denotes more than the whole, and
/// taking one more digit multiplies by ten and adds that digit.
proof fn lemma_digits_val_prefix(s: Seq<char>, i: int)
    requires
        0 <= i <= s.len(),
        all_digits(s),
    ensures
        digits_val(s.take(i)) <= digits_val(s),
        i < s.len() ==> digits_val(s.take(i + 1)) == digits_val(s.take(i)) * 10 + digit_val(s[i]),
    decreases s.len() - i,
{
    assert(all_digits(s.take(i))) by {
        assert forall|k: int| 0 <= k < i implies is_digit(s.take(i)[k]) by {
            assert(s.take(i)[k] == s[k]);
        }
    }
    if i < s.len() {
        assert(s.take(i + 1).drop_last() =~= s.take(i));
        assert(s.take(i + 1).last() == s[i]);
        lemma_digits_val_nonneg(s.take(i));
        lemma_digits_val_prefix(s, i + 1);
    } else {
        assert(s.take(i) =~= s);
    }
}

/// Parses `s` as a signed decimal i32, accepting exactly the strings
/// that `parse_i32_spec` gives a value to.
pub fn parse_i32(s: &str) -> (r: Option<i32>)
    ensures
        match r {
            Some(v) => parse_i32_spec(s@) == Some(v as int),
            None => parse_i32_spec(s@) is None,
        },
{
    let n = s.unicode_len();
    if n == 0 {
        return None;
    }
    let first = s.get_char(0);
    let neg = first == '-';
    let signed = neg || first == '+';
    let start: usize = if signed {
        1
    } else {
        0
    };
    if start == n {
        return None;
    }
    let ghost ds = if signed {
        s@.drop_first()
    } else {
        s@
    };
    let mut i: usize = start;
    let mut acc: u64 = 0;
    while i < n
        invariant
            s@.len() == n,
            start <= i <= n,
            start <= 1,
            start < n,
            (start == 1) <==> (s@.len() > 0 && (s@[0] == '-' || s@[0] == '+')),
            ds == if start == 1 {
                s@.drop_first()
            } else {
                s@
            },
            ds.len() == n - start,
            forall|k: int| 0 <= k < ds.len() ==> ds[k] == s@[k + start],
            all_digits(ds.take(i - start)),
            acc == digits_val(ds.take(i - start)),
            acc <= 0x8000_0000,
        decreases n - i,
    {
        let c = s.get_char(i);
        let u = c as u32;
        if u < 48 || u > 57 {
            proof {
                assert(ds[i - start] == c);
                assert(!is_digit(ds[i - start]));
                assert(!all_digits(ds));
            }
            return None;
        }
        proof {
            assert(is_digit(ds[i - start]));
            assert(all_digits(ds.take(i - start + 1))) by {
                assert forall|k: int| 0 <= k < i - start + 1 implies is_digit(
                    #[trigger] ds.take(i - start + 1)[k],
                ) by {
                    if k < i - start {
                        assert(ds.take(i - start + 1)[k] == ds.take(i - start)[k]);
                    }
                }
            }
            assert(ds.take(i - start + 1).drop_last() =~= ds.take(i - start));
            assert(ds.take(i - start + 1).last() == ds[i - start]);
        }
        acc = acc * 10 + ((u - 48) as u64);
        i = i + 1;
        if acc > 0x8000_0000 {
            proof {
                if all_digits(ds) {
                    lemma_digits_val_prefix(ds, i - start);
                    assert(ds.take(i - start) =~= ds.take((i - start) as int));
                }
            }
            return None;
        }
    }
    proof {
        assert(ds.take(i - start) =~= ds);
    }
    if neg {
        let v: i64 = -(acc as i64);
        Some(v as i32)
    } else {
        if acc > 0x7fff_ffff {
            return None;
        }
        Some(acc as i32)
    }
}

/// The session's bet check: the typed line must parse as an i32 no
/// greater than the current stake. A negative or zero bet is not
/// rejected — only an unparsable line or a bet above the stake is.
pub fn validate_bet(input: &str, stake: i32) -> (r: Option<i32>)
    ensures
        match parse_i32_spec(input@) {
            Some(v) => r == if v <= stake {
                Some(v as i32)
            } else {
                None::<i32>
            },
            None => r is None,
        },
{
    match parse_i32(input) {
        Some(b) => {
            if b <= stake {
                Some(b)
            } else {
                None
            }
        },
        None => None,
    }
}

/// Settles the stake after a round: a win adds the bet, a draw leaves
/// the stake unchanged, a loss subtracts the bet.
pub fn apply_result(stake: i32, bet: i32, result: GameResult) -> (r: i32)
    requires
        i32::MIN <= stake + bet <= i32::MAX,
        i32::MIN <= stake - bet <= i32::MAX,
    ensures
        r == (match result {
            GameResult::Win => stake + bet,
            GameResult::Draw => stake as int,
            GameResult::Lose => stake - bet,
        }),
{
    match result {
        GameResult::Win => stake + bet,
        GameResult::Draw => stake,
        GameResult::Lose => stake - bet,
    }
}

/// Whether `a` reads as `b` — a lowercase letter — once ascii
/// uppercase letters are lowered.
pub open spec fn lowers_to(a: char, b: char) -> bool {
    a == b || (65 <= a as int <= 90 && a as int + 32 == b as int)
}

/// Whether `s`, ascii-lowercased, is exactly the lowercase word `t`.
pub open spec fn matches_lowered(s: Seq<char>, t: Seq<char>) -> bool {
    s.len() == t.len() && (forall|i: int| 0 <= i < s.len() ==> lowers_to(s[i], t[i]))
}

/// The action that a typed line denotes: "hit" or "stand", matched
/// case-insensitively; anything else is invalid.
pub open spec fn action_of(s: Seq<char>) -> Option<Action> {
    if matches_lowered(s, "hit"@) {
        Some(Action::Hit)
    } else if matches_lowered(s, "stand"@) {
        Some(Action::Stand)
    } else {
        None
    }
}

/// Parses a typed action line, matching "hit" and "stand" without
/// regard to ascii case.
pub fn parse_action(s: &str) -> (r: Option<Action>)
    ensures
        r == action_of(s@),
{
    proof {
        reveal_strlit("hit");
        reveal_strlit("stand");
    }
    let n = s.unicode_len();
    if n == 3 {
        let c0 = s.get_char(0);
        let c1 = s.get_char(1);
        let c2 = s.get_char(2);
        let hit = (c0 == 'h' || c0 == 'H') && (c1 == 'i' || c1 == 'I') && (c2 == 't' || c2 == 'T');
        if hit {
            assert(matches_lowered(s@, "hit"@)) by {
                assert forall|i: int| 0 <= i < 3 implies lowers_to(s@[i], "hit"@[i]) by {
                    if i == 0 {
                    } else if i == 1 {
                    } else {
                    }
                }
            }
            Some(Action::Hit)
        } else {
            proof {
                if c0 != 'h' && c0 != 'H' {
                    assert(!lowers_to(s@[0], "hit"@[0]));
                } else if c1 != 'i' && c1 != 'I' {
                    assert(!lowers_to(s@[1], "hit"@[1]));
                } else {
                    assert(!lowers_to(s@[2], "hit"@[2]));
                }
            }
            None
        }
    } else if n == 5 {
        let c0 = s.get_char(0);
        let c1 = s.get_char(1);
        let c2 = s.get_char(2);
        let c3 = s.get_char(3);
        let c4 = s.get_char(4);
        let stand = (c0 == 's' || c0 == 'S') && (c1 == 't' || c1 == 'T') && (c2 == 'a' || c2
            == 'A') && (c3 == 'n' || c3 == 'N') && (c4 == 'd' || c4 == 'D');
        if stand {
            assert(matches_lowered(s@, "stand"@)) by {
                assert forall|i: int| 0 <= i < 5 implies lowers_to(s@[i], "stand"@[i]) by {
                    if i == 0 {
                    } else if i == 1 {
                    } else if i == 2 {
                    } else if i == 3 {
                    } else {
                    }
                }
            }
            Some(Action::Stand)
        } else {
            proof {
                if c0 != 's' && c0 != 'S' {
                    assert(!lowers_to(s@[0], "stand"@[0]));
                } else if c1 != 't' && c1 != 'T' {
                    assert(!lowers_to(s@[1], "stand"@[1]));
                } else if c2 != 'a' && c2 != 'A' {
                    assert(!lowers_to(s@[2], "stand"@[2]));
                } else if c3 != 'n' && c3 != 'N' {
                    assert(!lowers_to(s@[3], "stand"@[3]));
                } else {
                    assert(!lowers_to(s@[4], "stand"@[4]));
                }
            }
            None
        }
    } else {
        None
    }
}

} // verus!
