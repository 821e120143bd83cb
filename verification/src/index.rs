//! Positions in the list, as the user writes them: a non-negative whole
//! number in decimal digits, with an optional plus sign in front.

use vstd::prelude::*;
use vstd::string::is_ascii_spec_bytes;
use crate::error::GitIdError;

verus! {

/// `c` is one of the ten decimal digits.
pub open spec fn is_digit(c: char) -> bool {
    '0' <= c <= '9'
}

/// The number that the digit `c` stands for.
pub open spec fn digit_value(c: char) -> nat {
    (c as int - '0' as int) as nat
}

/// Every character of `s` is a decimal digit.
pub open spec fn all_digits(s: Seq<char>) -> bool {
    forall|i: int| 0 <= i < s.len() ==> is_digit(#[trigger] s[i])
}

/// The number that the digits of `s` write in decimal, the first digit
/// counting most.
pub open spec fn digits_value(s: Seq<char>) -> nat
    decreases s.len(),
{
    if s.len() == 0 {
        0
    } else {
        digits_value(s.drop_last()) * 10 + digit_value(s.last())
    }
}

/// The text without its plus sign, if it starts with one.
pub open spec fn unsigned_part(s: Seq<char>) -> Seq<char> {
    if s.len() > 0 && s[0] == '+' {
        s.drop_first()
    } else {
        s
    }
}

/// The number that a text writes, if it writes one: at least one decimal
/// digit and nothing else, but for a plus sign that may stand in front.
pub open spec fn number_of_text(s: Seq<char>) -> Option<nat> {
    let digits = unsigned_part(s);
    if digits.len() > 0 && all_digits(digits) {
        Some(digits_value(digits))
    } else {
        None
    }
}

/// The position that a text names: the number it writes, where that is a
/// number the machine can hold.
pub open spec fn index_of_text(s: Seq<char>) -> Option<usize> {
    match number_of_text(s) {
        Some(n) => if n <= usize::MAX {
            Some(n as usize)
        } else {
            None
        },
        None => None,
    }
}

/// The digits read so far never write more than all of them do.
proof fn lemma_prefix_value(s: Seq<char>, k: int)
    requires
        0 <= k <= s.len(),
    ensures
        digits_value(s.take(k)) <= digits_value(s),
    decreases s.len() - k,
{
    if k < s.len() {
        lemma_prefix_value(s, k + 1);
        assert(s.take(k + 1).drop_last() == s.take(k));
    } else {
        assert(s.take(k) == s);
    }
}

/// Reads a position from the text of an argument. Fails with `ParseError`
/// where the text writes no number, or one too large for the machine.
pub fn parse_index(text: &str) -> (out: Result<usize, GitIdError>)
    ensures
        match index_of_text(text@) {
            Some(n) => out is Ok && out->Ok_0 == n,
            None => out is Err && out->Err_0 == GitIdError::ParseError,
        },
{
    if !text.is_ascii() {
        proof {
            let i = choose|i: int| 0 <= i < text@.len() && !('\0' <= #[trigger] text@[i] <= '\u{7f}');
            let digits = unsigned_part(text@);
            if text@[0] == '+' {
                assert(digits[i - 1] == text@[i]);
            }
        }
        return Err(GitIdError::ParseError);
    }
    let bytes = text.as_bytes();
    proof {
        is_ascii_spec_bytes(text);
    }
    let start: usize = if bytes.len() > 0 && bytes[0] == 43 {
        1
    } else {
        0
    };
    let ghost digits = unsigned_part(text@);
    assert(digits == text@.skip(start as int));
    if start == bytes.len() {
        return Err(GitIdError::ParseError);
    }
    let mut value: usize = 0;
    let mut k: usize = start;
    while k < bytes.len()
        invariant
            start <= k <= bytes.len(),
            bytes.len() == text@.len(),
            digits == text@.skip(start as int),
            digits == unsigned_part(text@),
            forall|i: int| 0 <= i < text@.len() ==> text@[i] as u8 == #[trigger] bytes[i],
            forall|i: int| 0 <= i < text@.len() ==> '\0' <= #[trigger] text@[i] <= '\u{7f}',
            all_digits(digits.take(k - start)),
            value == digits_value(digits.take(k - start)),
        decreases bytes.len() - k,
    {
        let b = bytes[k];
        let ghost c = text@[k as int];
        assert(digits[k - start] == c);
        assert(c as u8 == b);
        if b < 48 || b > 57 {
            assert(!is_digit(c));
            return Err(GitIdError::ParseError);
        }
        let ghost upto = digits.take(k + 1 - start);
        proof {
            assert(upto.drop_last() == digits.take(k - start));
            assert(upto.last() == c);
            assert(digit_value(c) == b - 48);
            assert(all_digits(upto)) by {
                assert forall|i: int| 0 <= i < upto.len() implies is_digit(#[trigger] upto[i]) by {
                    if i < k - start {
                        assert(upto[i] == digits.take(k - start)[i]);
                    }
                }
            }
            lemma_prefix_value(digits, k + 1 - start);
        }
        let next = match value.checked_mul(10) {
            Some(tens) => tens.checked_add((b - 48) as usize),
            None => None,
        };
        match next {
            Some(n) => {
                value = n;
            },
            None => {
                proof {
                    if all_digits(digits) {
                        assert(digits_value(digits) > usize::MAX);
                    }
                }
                return Err(GitIdError::ParseError);
            },
        }
        k += 1;
    }
    proof {
        assert(digits.take(k - start) == digits);
    }
    Ok(value)
}

} // verus!
