//! Reading the length of a password from its decimal notation.
//!
//! A length is written as one or more decimal digits, which a single `+`
//! may precede. Leading zeros are allowed. Nothing else is: no sign but
//! `+`, no blanks, no separators, and no number above `u32::MAX`.

use crate::alphabet::is_number;
use crate::error::ConfigError;
use vstd::prelude::*;

verus! {

/// The byte `+`.
pub const PLUS: u8 = 0x2b;

/// The value of the decimal digit `b`.
pub open spec fn digit_value(b: u8) -> nat {
    if is_number(b) {
        (b - 0x30) as nat
    } else {
        0
    }
}

/// The number that a string of decimal digits writes; zero for the empty
/// string.
pub open spec fn decimal_value(digits: Seq<u8>) -> nat
    decreases digits.len(),
{
    if digits.len() == 0 {
        0
    } else {
        decimal_value(digits.drop_last()) * 10 + digit_value(digits.last())
    }
}

/// `digits` is a string of one or more decimal digits.
pub open spec fn is_decimal(digits: Seq<u8>) -> bool {
    &&& digits.len() > 0
    &&& forall|i: int| 0 <= i < digits.len() ==> is_number(#[trigger] digits[i])
}

/// `text` without the `+` that may precede the digits.
pub open spec fn unsigned_part(text: Seq<u8>) -> Seq<u8> {
    if text.len() > 0 && text[0] == PLUS {
        text.drop_first()
    } else {
        text
    }
}

/// The length that `text` writes, if it writes one.
pub open spec fn length_of(text: Seq<u8>) -> Option<u32> {
    let digits = unsigned_part(text);
    if is_decimal(digits) && decimal_value(digits) <= u32::MAX {
        Some(decimal_value(digits) as u32)
    } else {
        None
    }
}

/// A string of digits writes a number no smaller than any of its prefixes
/// does.
pub proof fn lemma_prefix_value(digits: Seq<u8>, n: int)
    requires
        0 <= n <= digits.len(),
    ensures
        decimal_value(digits.take(n)) <= decimal_value(digits),
    decreases digits.len() - n,
{
    if n == digits.len() {
        assert(digits.take(n) =~= digits);
    } else {
        lemma_prefix_value(digits.drop_last(), n);
        assert(digits.drop_last().take(n) =~= digits.take(n));
    }
}

/// Reads a length from its decimal notation.
pub fn parse_length(text: &[u8]) -> (parsed: Result<u32, ConfigError>)
    ensures
        parsed == match length_of(text@) {
            Some(length) => Ok::<u32, ConfigError>(length),
            None => Err::<u32, ConfigError>(ConfigError::InvalidLength),
        },
{
    let start: usize = if text.len() > 0 && text[0] == PLUS {
        1
    } else {
        0
    };
    let ghost digits = unsigned_part(text@);
    assert(digits =~= text@.skip(start as int));
    if start == text.len() {
        return Err(ConfigError::InvalidLength);
    }
    let mut value: u32 = 0;
    let mut at: usize = start;
    while at < text.len()
        invariant
            start <= at <= text.len(),
            digits == unsigned_part(text@),
            digits == text@.skip(start as int),
            forall|i: int| 0 <= i < at - start ==> is_number(#[trigger] digits[i]),
            value == decimal_value(digits.take(at - start)),
        decreases text.len() - at,
    {
        let byte = text[at];
        if byte < 0x30 || byte > 0x39 {
            assert(!is_number(digits[at - start]));
            return Err(ConfigError::InvalidLength);
        }
        let next: u64 = value as u64 * 10 + (byte - 0x30) as u64;
        proof {
            let longer = digits.take(at - start + 1);
            assert(longer.drop_last() =~= digits.take(at - start));
            assert(longer.last() == byte);
            assert(decimal_value(longer) == next);
            if next > u32::MAX {
                lemma_prefix_value(digits, at - start + 1);
            }
        }
        if next > u32::MAX as u64 {
            return Err(ConfigError::InvalidLength);
        }
        value = next as u32;
        at = at + 1;
    }
    assert(digits.take(at - start) =~= digits);
    Ok(value)
}

} // verus!
