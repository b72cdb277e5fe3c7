//! The four fixed sub-alphabets, as ASCII bytes in ascending order.

use vstd::prelude::*;

verus! {

/// The ten decimal digits, `0` to `9`.
pub const CHARSET_NUMBER: [u8; 10] = [
    0x30, 0x31, 0x32, 0x33, 0x34, 0x35, 0x36, 0x37, 0x38, 0x39,
];

/// The twenty-six lowercase letters, `a` to `z`.
pub const CHARSET_LOWER: [u8; 26] = [
    0x61, 0x62, 0x63, 0x64, 0x65, 0x66, 0x67, 0x68, 0x69, 0x6a, 0x6b, 0x6c, 0x6d,
    0x6e, 0x6f, 0x70, 0x71, 0x72, 0x73, 0x74, 0x75, 0x76, 0x77, 0x78, 0x79, 0x7a,
];

/// The uppercase letters `A` to `Z` without `I` and `O`, which are easily
/// taken for the digits `1` and `0`.
pub const CHARSET_UPPER: [u8; 24] = [
    0x41, 0x42, 0x43, 0x44, 0x45, 0x46, 0x47, 0x48, 0x4a, 0x4b, 0x4c, 0x4d,
    0x4e, 0x50, 0x51, 0x52, 0x53, 0x54, 0x55, 0x56, 0x57, 0x58, 0x59, 0x5a,
];

/// The space and the thirty-two punctuation marks of printable ASCII:
/// the bytes `0x20..=0x2f`, `0x3a..=0x40`, `0x5b..=0x60` and `0x7b..=0x7e`.
pub const CHARSET_SYMBOL: [u8; 33] = [
    0x20, 0x21, 0x22, 0x23, 0x24, 0x25, 0x26, 0x27, 0x28, 0x29, 0x2a,
    0x2b, 0x2c, 0x2d, 0x2e, 0x2f, 0x3a, 0x3b, 0x3c, 0x3d, 0x3e, 0x3f,
    0x40, 0x5b, 0x5c, 0x5d, 0x5e, 0x5f, 0x60, 0x7b, 0x7c, 0x7d, 0x7e,
];

/// `b` is a decimal digit.
pub open spec fn is_number(b: u8) -> bool {
    0x30 <= b <= 0x39
}

/// `b` is a lowercase letter.
pub open spec fn is_lower(b: u8) -> bool {
    0x61 <= b <= 0x7a
}

/// `b` is an uppercase letter other than `I` and `O`.
pub open spec fn is_upper(b: u8) -> bool {
    0x41 <= b <= 0x5a && b != 0x49 && b != 0x4f
}

/// `b` is the space or a punctuation mark of printable ASCII.
pub open spec fn is_symbol(b: u8) -> bool {
    ||| 0x20 <= b <= 0x2f
    ||| 0x3a <= b <= 0x40
    ||| 0x5b <= b <= 0x60
    ||| 0x7b <= b <= 0x7e
}

/// Every byte of `s` is smaller than the one after it.
pub open spec fn ascending(s: Seq<u8>) -> bool {
    forall|i: int, j: int| 0 <= i < j < s.len() ==> s[i] < s[j]
}

/// `CHARSET_NUMBER` lists exactly the digits, each once and in ascending
/// order.
pub proof fn lemma_number_alphabet()
    ensures
        CHARSET_NUMBER@.len() == 10,
        ascending(CHARSET_NUMBER@),
        CHARSET_NUMBER@.no_duplicates(),
        forall|b: u8| CHARSET_NUMBER@.contains(b) <==> is_number(b),
{
    let s = CHARSET_NUMBER@;
    assert forall|b: u8| is_number(b) implies s.contains(b) by {
        assert(s[b - 0x30] == b);
    }
}

/// `CHARSET_LOWER` lists exactly the lowercase letters, each once and in
/// ascending order.
pub proof fn lemma_lower_alphabet()
    ensures
        CHARSET_LOWER@.len() == 26,
        ascending(CHARSET_LOWER@),
        CHARSET_LOWER@.no_duplicates(),
        forall|b: u8| CHARSET_LOWER@.contains(b) <==> is_lower(b),
{
    let s = CHARSET_LOWER@;
    assert forall|b: u8| is_lower(b) implies s.contains(b) by {
        assert(s[b - 0x61] == b);
    }
}

/// `CHARSET_UPPER` lists exactly the uppercase letters other than `I` and
/// `O`, each once and in ascending order.
pub proof fn lemma_upper_alphabet()
    ensures
        CHARSET_UPPER@.len() == 24,
        ascending(CHARSET_UPPER@),
        CHARSET_UPPER@.no_duplicates(),
        forall|b: u8| CHARSET_UPPER@.contains(b) <==> is_upper(b),
{
    let s = CHARSET_UPPER@;
    assert forall|b: u8| is_upper(b) implies s.contains(b) by {
        let i: int = if b < 0x49 {
            b - 0x41
        } else if b < 0x4f {
            b - 0x42
        } else {
            b - 0x43
        };
        assert(s[i] == b);
    }
}

/// `CHARSET_SYMBOL` lists exactly the space and the punctuation marks, each
/// once and in ascending order.
pub proof fn lemma_symbol_alphabet()
    ensures
        CHARSET_SYMBOL@.len() == 33,
        ascending(CHARSET_SYMBOL@),
        CHARSET_SYMBOL@.no_duplicates(),
        forall|b: u8| CHARSET_SYMBOL@.contains(b) <==> is_symbol(b),
{
    let s = CHARSET_SYMBOL@;
    assert forall|b: u8| is_symbol(b) implies s.contains(b) by {
        let i: int = if b <= 0x2f {
            b - 0x20
        } else if b <= 0x40 {
            b - 0x3a + 16
        } else if b <= 0x60 {
            b - 0x5b + 23
        } else {
            b - 0x7b + 29
        };
        assert(s[i] == b);
    }
}

/// No byte belongs to two of the four classes.
pub proof fn lemma_classes_disjoint(b: u8)
    ensures
        !(is_number(b) && is_lower(b)),
        !(is_number(b) && is_upper(b)),
        !(is_number(b) && is_symbol(b)),
        !(is_lower(b) && is_upper(b)),
        !(is_lower(b) && is_symbol(b)),
        !(is_upper(b) && is_symbol(b)),
{
}

} // verus!
