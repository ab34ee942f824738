//! Whole numbers as text: reading a decimal numeral and writing one.

use crate::text::{chars_of, push_char};
use vstd::prelude::*;

verus! {

/// Whether `c` is a decimal digit.
pub open spec fn is_digit(c: char) -> bool {
    '0' <= c <= '9'
}

/// Whether `s` is made of decimal digits only.
pub open spec fn all_digits(s: Seq<char>) -> bool {
    forall|i: int| 0 <= i < s.len() ==> is_digit(s[i])
}

/// The number that the digit `c` stands for.
pub open spec fn digit_value(c: char) -> int {
    c as int - '0' as int
}

/// The number that the first `n` digits of `s` stand for.
pub open spec fn digits_value(s: Seq<char>, n: int) -> int
    decreases n,
{
    if n <= 0 || n > s.len() {
        0
    } else {
        digits_value(s, n - 1) * 10 + digit_value(s[n - 1])
    }
}

/// The whole number that `s` stands for: an optional sign, `+` or `-`, then
/// one decimal digit or more, with a value within the signed 64-bit range.
pub open spec fn integer_of(s: Seq<char>) -> Option<int> {
    let signed = s.len() > 0 && (s[0] == '-' || s[0] == '+');
    let body = if signed {
        s.skip(1)
    } else {
        s
    };
    let magnitude = digits_value(body, body.len() as int);
    let value = if s.len() > 0 && s[0] == '-' {
        -magnitude
    } else {
        magnitude
    };
    if body.len() > 0 && all_digits(body) && i64::MIN <= value <= i64::MAX {
        Some(value)
    } else {
        None
    }
}

/// More digits never stand for a smaller number.
pub proof fn lemma_digits_grow(s: Seq<char>, k: int, n: int)
    requires
        0 <= k <= n <= s.len(),
        all_digits(s),
    ensures
        0 <= digits_value(s, k) <= digits_value(s, n),
    decreases n - k,
{
    if k < n {
        lemma_digits_grow(s, k, n - 1);
        assert(is_digit(s[n - 1]));
    } else {
        lemma_digits_nonnegative(s, k);
    }
}

/// Digits stand for a number that is not negative.
pub proof fn lemma_digits_nonnegative(s: Seq<char>, n: int)
    requires
        0 <= n <= s.len(),
        all_digits(s),
    ensures
        0 <= digits_value(s, n),
    decreases n,
{
    if n > 0 {
        lemma_digits_nonnegative(s, n - 1);
        assert(is_digit(s[n - 1]));
    }
}

/// Reads a whole number: an optional sign, then decimal digits, within the
/// signed 64-bit range.
#[verifier::loop_isolation(false)]
pub fn parse_integer(s: &str) -> (r: Option<i64>)
    ensures
        r.is_some() == integer_of(s@).is_some(),
        r matches Some(i) ==> Some(i as int) == integer_of(s@),
{
    let cs = chars_of(s);
    let negative = cs.len() > 0 && cs[0] == '-';
    let signed = cs.len() > 0 && (cs[0] == '-' || cs[0] == '+');
    let start: usize = if signed {
        1
    } else {
        0
    };
    let ghost body = cs@.skip(start as int);
    assert(cs@.skip(0) =~= cs@);
    if start == cs.len() {
        return None;
    }
    let limit: i128 = 9223372036854775808;
    let mut acc: i128 = 0;
    let mut i: usize = start;
    while i < cs.len()
        invariant
            start <= i <= cs.len(),
            body == cs@.skip(start as int),
            forall|j: int| 0 <= j < i - start ==> is_digit(body[j]),
            acc == digits_value(body, i - start),
            0 <= acc <= limit,
            limit == 9223372036854775808,
        decreases cs.len() - i,
    {
        let c = cs[i];
        assert(body[i - start] == c);
        if !('0' <= c && c <= '9') {
            assert(!is_digit(body[i - start]));
            return None;
        }
        let d: i128 = (c as u8 - '0' as u8) as i128;
        let next: i128 = acc * 10 + d;
        if next > limit {
            proof {
                if all_digits(body) {
                    lemma_digits_grow(body, i - start + 1, body.len() as int);
                }
            }
            return None;
        }
        acc = next;
        i += 1;
    }
    assert(all_digits(body));
    assert(body.len() == cs.len() - start);
    let value: i128 = if negative {
        -acc
    } else {
        acc
    };
    if value > 9223372036854775807 {
        return None;
    }
    Some(value as i64)
}

/// The character for the digit `d`.
pub open spec fn digit_char(d: int) -> char {
    (d + '0' as int) as char
}

/// The decimal numeral of `n`, for `n` not negative: no leading zero, `0`
/// for zero.
pub open spec fn numeral(n: int) -> Seq<char>
    decreases n,
{
    if n < 10 {
        seq![digit_char(n)]
    } else {
        numeral(n / 10).push(digit_char(n % 10))
    }
}

/// The decimal text of `i`: its numeral, behind a `-` if it is negative.
pub open spec fn decimal(i: int) -> Seq<char> {
    if i < 0 {
        seq!['-'] + numeral(-i)
    } else {
        numeral(i)
    }
}

/// The decimal text of `i`.
pub fn integer_text(i: i64) -> (r: String)
    ensures
        r@ == decimal(i as int),
{
    let magnitude: u64 = if i < 0 {
        ((-(i + 1)) as u64) + 1
    } else {
        i as u64
    };
    // The digits, last first.
    let mut digits: Vec<char> = Vec::new();
    let mut rest: u64 = magnitude;
    digits.push(((rest % 10) as u8 + '0' as u8) as char);
    rest = rest / 10;
    while rest > 0
        invariant
            digits@.len() > 0,
            numeral(magnitude as int) == numeral_of_rest(rest as int) + digits@.reverse(),
        decreases rest,
    {
        let ghost before = digits@;
        digits.push(((rest % 10) as u8 + '0' as u8) as char);
        proof {
            let d = digit_char((rest % 10) as int);
            assert(digits@.reverse() =~= seq![d] + before.reverse());
            if rest >= 10 {
                assert(numeral(rest as int) == numeral(rest as int / 10).push(d));
                assert(numeral_of_rest(rest as int) + before.reverse() =~= numeral_of_rest(
                    rest as int / 10,
                ) + (seq![d] + before.reverse()));
            } else {
                assert(numeral(rest as int) == seq![d]);
                assert(numeral_of_rest(rest as int) + before.reverse() =~= numeral_of_rest(0)
                    + (seq![d] + before.reverse()));
            }
        }
        rest = rest / 10;
    }
    let mut out = String::new();
    if i < 0 {
        push_char(&mut out, '-');
    }
    let ghost sign = out@;
    let mut k: usize = digits.len();
    while k > 0
        invariant
            k <= digits.len(),
            out@ == sign + digits@.reverse().take(digits.len() - k),
        decreases k,
    {
        k -= 1;
        push_char(&mut out, digits[k]);
        proof {
            let rev = digits@.reverse();
            let n = digits.len() - k;
            assert(rev.take(n) == rev.take(n - 1).push(rev[n - 1]));
            assert(sign + rev.take(n - 1).push(rev[n - 1]) =~= (sign + rev.take(n - 1)).push(
                rev[n - 1],
            ));
        }
    }
    proof {
        let rev = digits@.reverse();
        assert(rev.take(digits.len() as int) == rev);
        assert(numeral_of_rest(0) + rev =~= rev);
    }
    out
}

/// The numeral of what is left to write: nothing once nothing is left.
pub open spec fn numeral_of_rest(rest: int) -> Seq<char> {
    if rest <= 0 {
        Seq::empty()
    } else {
        numeral(rest)
    }
}

} // verus!
