//! Parsing decimal amount text into the wide unsigned integer type.
//!
//! Amount fields arrive as decimal text at the command boundary. A string is
//! a valid amount exactly when it is non-empty, consists of decimal digits
//! only, and its value fits in 128 bits; anything else is rejected.

use vstd::arithmetic::div_mod::lemma_fundamental_div_mod;
use vstd::prelude::*;
use vstd::string::StrSliceExecFns;

verus! {

/// A decimal digit.
pub open spec fn is_digit(c: char) -> bool {
    48 <= c as u32 <= 57
}

/// The numeric value of a decimal digit.
pub open spec fn digit_value(c: char) -> int {
    c as u32 - 48
}

/// The value of a digit string, most significant digit first.
pub open spec fn digits_value(s: Seq<char>) -> int
    decreases s.len(),
{
    if s.len() == 0 {
        0
    } else {
        digits_value(s.drop_last()) * 10 + digit_value(s.last())
    }
}

/// A well-formed amount literal: non-empty, decimal digits only.
pub open spec fn is_amount_literal(s: Seq<char>) -> bool {
    s.len() > 0 && (forall|i: int| 0 <= i < s.len() ==> is_digit(#[trigger] s[i]))
}

/// What parsing yields: the value of a well-formed literal that fits in 128
/// bits, and nothing otherwise.
pub open spec fn parse_amount_spec(s: Seq<char>) -> Option<u128> {
    if is_amount_literal(s) && digits_value(s) <= u128::MAX {
        Some(digits_value(s) as u128)
    } else {
        None
    }
}

/// The value of a digit string is non-negative.
proof fn lemma_digits_value_nonneg(s: Seq<char>)
    requires
        forall|i: int| 0 <= i < s.len() ==> is_digit(#[trigger] s[i]),
    ensures
        digits_value(s) >= 0,
    decreases s.len(),
{
    if s.len() > 0 {
        lemma_digits_value_nonneg(s.drop_last());
    }
}

/// Extending a digit string with further digits never lowers its value.
proof fn lemma_digits_prefix_le(s: Seq<char>, i: int)
    requires
        forall|j: int| 0 <= j < s.len() ==> is_digit(#[trigger] s[j]),
        0 <= i <= s.len(),
    ensures
        digits_value(s.take(i)) <= digits_value(s),
    decreases s.len() - i,
{
    if i < s.len() {
        assert(s.take(i + 1).drop_last() =~= s.take(i));
        assert(forall|j: int| 0 <= j < s.take(i).len() ==> is_digit(#[trigger] s.take(i)[j]));
        lemma_digits_value_nonneg(s.take(i));
        assert(digits_value(s.take(i + 1)) == digits_value(s.take(i)) * 10 + digit_value(s[i]));
        lemma_digits_prefix_le(s, i + 1);
    } else {
        assert(s.take(i) =~= s);
    }
}

/// Parses a decimal amount string: the value of a non-empty all-digit
/// string whose value fits in 128 bits, and nothing otherwise.
pub fn parse_amount(input: &str) -> (r: Option<u128>)
    ensures
        r == parse_amount_spec(input@),
{
    let n = input.unicode_len();
    if n == 0 {
        return None;
    }
    let mut value: u128 = 0;
    for i in 0..n
        invariant
            n == input@.len(),
            forall|j: int| 0 <= j < i ==> is_digit(#[trigger] input@[j]),
            value == digits_value(input@.take(i as int)),
    {
        let c = input.get_char(i);
        let cu = c as u32;
        if cu < 48 || cu > 57 {
            return None;
        }
        let d = (cu - 48) as u128;
        proof {
            assert(input@.take(i as int + 1).drop_last() =~= input@.take(i as int));
            assert(input@.take(i as int + 1).last() == input@[i as int]);
            lemma_digits_value_nonneg(input@.take(i as int));
        }
        if value > (u128::MAX - d) / 10 {
            proof {
                lemma_fundamental_div_mod((u128::MAX - d) as int, 10);
                assert(digits_value(input@.take(i as int + 1)) > u128::MAX);
                if is_amount_literal(input@) {
                    lemma_digits_prefix_le(input@, i as int + 1);
                }
            }
            return None;
        }
        proof {
            lemma_fundamental_div_mod((u128::MAX - d) as int, 10);
        }
        value = value * 10 + d;
    }
    proof {
        assert(input@.take(n as int) =~= input@);
    }
    Some(value)
}

} // verus!
