//! Base-10 signed integers as they are written in a score.

use vstd::prelude::*;
use vstd::std_specs::iter::IteratorSpec;

verus! {

/// Whether `c` is one of the ten ASCII digits.
pub open spec fn is_digit(c: char) -> bool {
    '0' <= c && c <= '9'
}

/// The value of the ASCII digit `c`.
pub open spec fn digit_value(c: char) -> int {
    c as int - '0' as int
}

/// Whether every character of `s` is an ASCII digit.
pub open spec fn all_digits(s: Seq<char>) -> bool {
    forall|i: int| 0 <= i < s.len() ==> is_digit(#[trigger] s[i])
}

/// The number that the digit string `s` writes in base 10; 0 for the empty string.
pub open spec fn digits_value(s: Seq<char>) -> int
    decreases s.len(),
{
    if s.len() == 0 {
        0
    } else {
        10 * digits_value(s.drop_last()) + digit_value(s.last())
    }
}

/// The integer that `s` writes: an optional sign, `+` or `-`, then one or more ASCII
/// digits and nothing else. `None` for any other text.
pub open spec fn decimal(s: Seq<char>) -> Option<int> {
    if s.len() > 0 && s[0] == '-' {
        if s.len() > 1 && all_digits(s.skip(1)) {
            Some(-digits_value(s.skip(1)))
        } else {
            None
        }
    } else if s.len() > 0 && s[0] == '+' {
        if s.len() > 1 && all_digits(s.skip(1)) {
            Some(digits_value(s.skip(1)))
        } else {
            None
        }
    } else if s.len() > 0 && all_digits(s) {
        Some(digits_value(s))
    } else {
        None
    }
}

/// The `isize` that `s` writes, where `s` is a decimal integer that an `isize` can hold.
pub open spec fn number_of(s: Seq<char>) -> Option<isize> {
    match decimal(s) {
        Some(v) => if isize::MIN <= v <= isize::MAX {
            Some(v as isize)
        } else {
            None
        },
        None => None,
    }
}

/// A digit string's value is never negative, and never smaller than that of a prefix.
pub proof fn lemma_digits_value_grows(s: Seq<char>, n: int)
    requires
        all_digits(s),
        0 <= n <= s.len(),
    ensures
        0 <= digits_value(s.take(n)) <= digits_value(s),
    decreases s.len(),
{
    if s.len() == 0 {
        assert(s.take(n) =~= s);
    } else if n == s.len() {
        assert(s.take(n) =~= s);
        lemma_digits_value_grows(s.drop_last(), n - 1);
        assert(s.drop_last().take(n - 1) =~= s.drop_last());
        assert(is_digit(s.last()));
    } else {
        lemma_digits_value_grows(s.drop_last(), n);
        assert(s.drop_last().take(n) =~= s.take(n));
        assert(is_digit(s.last()));
    }
}

/// Reads `s` as a base-10 signed integer: `None` where it is no such text, and where
/// the number does not fit.
pub fn parse_number(s: &str) -> (r: Option<isize>)
    ensures
        r == number_of(s@),
{
    let mut it = s.chars();
    let (negative, first_digit) = match it.next() {
        None => { return None; },
        Some(c) => if c == '-' {
            (true, it.next())
        } else if c == '+' {
            (false, it.next())
        } else {
            (false, Some(c))
        },
    };
    let ghost body: Seq<char> = if s@[0] == '-' || s@[0] == '+' {
        s@.skip(1)
    } else {
        s@
    };
    let mut cur: Option<char> = first_digit;
    if cur.is_none() {
        return None;
    }
    let mut acc: isize = 0;
    let ghost mut i: int = 0;
    loop
        invariant
            s@.len() > 0,
            body == if s@[0] == '-' || s@[0] == '+' {
                s@.skip(1)
            } else {
                s@
            },
            negative <==> s@[0] == '-',
            it.obeys_prophetic_iter_laws(),
            0 <= i <= body.len(),
            body.len() > 0,
            cur matches Some(c) ==> i < body.len() && c == body[i] && it.remaining() == body.skip(
                i + 1,
            ),
            cur is None ==> i == body.len(),
            all_digits(body.take(i)),
            acc == if negative {
                -digits_value(body.take(i))
            } else {
                digits_value(body.take(i))
            },
        ensures
            all_digits(body),
            acc == if negative {
                -digits_value(body)
            } else {
                digits_value(body)
            },
        decreases body.len() - i, (if cur is Some { 1int } else { 0int }),
    {
        let c = match cur {
            None => {
                proof {
                    assert(body.take(i) =~= body);
                }
                break;
            },
            Some(c) => c,
        };
        if !('0' <= c && c <= '9') {
            assert(!is_digit(body[i]));
            return None;
        }
        let digit: isize = (c as u32 - '0' as u32) as isize;
        proof {
            assert(body.take(i + 1).drop_last() =~= body.take(i));
            assert forall|k: int| 0 <= k < i + 1 implies is_digit(#[trigger] body.take(i + 1)[k]) by {
                if k < i {
                    assert(body.take(i)[k] == body[k]);
                }
            }
            if all_digits(body) {
                lemma_digits_value_grows(body, i + 1);
            }
        }
        let scaled = match acc.checked_mul(10) {
            Some(v) => v,
            None => { return None; },
        };
        let next = if negative {
            scaled.checked_sub(digit)
        } else {
            scaled.checked_add(digit)
        };
        acc = match next {
            Some(v) => v,
            None => { return None; },
        };
        cur = it.next();
        proof {
            i = i + 1;
            if cur is Some {
                assert(body.skip(i).drop_first() =~= body.skip(i + 1));
            }
        }
    }
    Some(acc)
}

} // verus!
