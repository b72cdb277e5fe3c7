//! The character set that a request draws from.

use crate::alphabet::{
    lemma_classes_disjoint, lemma_lower_alphabet, lemma_number_alphabet, lemma_symbol_alphabet,
    lemma_upper_alphabet, CHARSET_LOWER, CHARSET_NUMBER, CHARSET_SYMBOL, CHARSET_UPPER,
};
use crate::error::ConfigError;
use vstd::prelude::*;

verus! {

/// `alphabet` where it is included, and nothing where it is not.
pub open spec fn part(included: bool, alphabet: Seq<u8>) -> Seq<u8> {
    if included {
        alphabet
    } else {
        Seq::empty()
    }
}

/// The character set that is left when the marked classes are excluded.
///
/// The classes that remain stand in the order uppercase, lowercase, digits,
/// symbols. The one exception is the set of letters alone, in which
/// lowercase stands before uppercase.
pub open spec fn charset_of(
    exclude_numeric: bool,
    exclude_lower: bool,
    exclude_upper: bool,
    exclude_symbol: bool,
) -> Seq<u8> {
    if exclude_numeric && exclude_symbol && !exclude_lower && !exclude_upper {
        CHARSET_LOWER@ + CHARSET_UPPER@
    } else {
        part(!exclude_upper, CHARSET_UPPER@) + part(!exclude_lower, CHARSET_LOWER@) + part(
            !exclude_numeric,
            CHARSET_NUMBER@,
        ) + part(!exclude_symbol, CHARSET_SYMBOL@)
    }
}

/// `b` belongs to one of the classes that are not excluded.
pub open spec fn included(
    exclude_numeric: bool,
    exclude_lower: bool,
    exclude_upper: bool,
    exclude_symbol: bool,
    b: u8,
) -> bool {
    ||| !exclude_numeric && CHARSET_NUMBER@.contains(b)
    ||| !exclude_lower && CHARSET_LOWER@.contains(b)
    ||| !exclude_upper && CHARSET_UPPER@.contains(b)
    ||| !exclude_symbol && CHARSET_SYMBOL@.contains(b)
}

proof fn lemma_join(a: Seq<u8>, b: Seq<u8>)
    requires
        a.no_duplicates(),
        b.no_duplicates(),
        forall|x: u8| !(a.contains(x) && b.contains(x)),
    ensures
        (a + b).no_duplicates(),
        forall|x: u8| (a + b).contains(x) <==> a.contains(x) || b.contains(x),
{
    let joined = a + b;
    assert forall|i: int, j: int| 0 <= i < joined.len() && 0 <= j < joined.len() && i != j implies joined[i]
        != joined[j] by {
        if i < a.len() && j >= a.len() {
            assert(a.contains(a[i]));
            assert(b.contains(b[j - a.len()]));
        } else if j < a.len() && i >= a.len() {
            assert(a.contains(a[j]));
            assert(b.contains(b[i - a.len()]));
        }
    }
    assert forall|x: u8| a.contains(x) || b.contains(x) implies joined.contains(x) by {
        if a.contains(x) {
            let i = choose|i: int| 0 <= i < a.len() && a[i] == x;
            assert(joined[i] == x);
        } else {
            let i = choose|i: int| 0 <= i < b.len() && b[i] == x;
            assert(joined[a.len() + i] == x);
        }
    }
}

/// What the character set of a request holds: each character of every class
/// that is not excluded, once, and no other; and at least one character
/// unless all four classes are excluded.
pub proof fn lemma_charset_of(
    exclude_numeric: bool,
    exclude_lower: bool,
    exclude_upper: bool,
    exclude_symbol: bool,
)
    ensures
        charset_of(exclude_numeric, exclude_lower, exclude_upper, exclude_symbol).no_duplicates(),
        forall|b: u8|
            charset_of(exclude_numeric, exclude_lower, exclude_upper, exclude_symbol).contains(b)
                <==> included(exclude_numeric, exclude_lower, exclude_upper, exclude_symbol, b),
        !(exclude_numeric && exclude_lower && exclude_upper && exclude_symbol) ==> charset_of(
            exclude_numeric,
            exclude_lower,
            exclude_upper,
            exclude_symbol,
        ).len() > 0,
{
    lemma_number_alphabet();
    lemma_lower_alphabet();
    lemma_upper_alphabet();
    lemma_symbol_alphabet();
    if exclude_numeric && exclude_symbol && !exclude_lower && !exclude_upper {
        assert forall|b: u8| !(CHARSET_LOWER@.contains(b) && CHARSET_UPPER@.contains(b)) by {
            lemma_classes_disjoint(b);
        }
        lemma_join(CHARSET_LOWER@, CHARSET_UPPER@);
    } else {
        let upper = part(!exclude_upper, CHARSET_UPPER@);
        let lower = part(!exclude_lower, CHARSET_LOWER@);
        let number = part(!exclude_numeric, CHARSET_NUMBER@);
        let symbol = part(!exclude_symbol, CHARSET_SYMBOL@);
        assert forall|b: u8| !(upper.contains(b) && lower.contains(b)) by {
            lemma_classes_disjoint(b);
        }
        lemma_join(upper, lower);
        assert forall|b: u8| !((upper + lower).contains(b) && number.contains(b)) by {
            lemma_classes_disjoint(b);
        }
        lemma_join(upper + lower, number);
        assert forall|b: u8| !((upper + lower + number).contains(b) && symbol.contains(b)) by {
            lemma_classes_disjoint(b);
        }
        lemma_join(upper + lower + number, symbol);
    }
}

fn append(charset: &mut Vec<u8>, alphabet: &[u8])
    ensures
        final(charset)@ == old(charset)@ + alphabet@,
{
    charset.extend_from_slice(alphabet);
}

/// Assembles the character set of a request from the classes that it does
/// not exclude. A request that excludes all four classes is turned down.
pub fn build(
    exclude_numeric: bool,
    exclude_lower: bool,
    exclude_upper: bool,
    exclude_symbol: bool,
) -> (built: Result<Vec<u8>, ConfigError>)
    ensures
        (exclude_numeric && exclude_lower && exclude_upper && exclude_symbol) ==> built == Err::<
            Vec<u8>,
            ConfigError,
        >(ConfigError::EmptyCharset),
        !(exclude_numeric && exclude_lower && exclude_upper && exclude_symbol) ==> built is Ok,
        built matches Ok(charset) ==> {
            &&& charset@ == charset_of(exclude_numeric, exclude_lower, exclude_upper, exclude_symbol)
            &&& charset@.len() > 0
            &&& charset@.no_duplicates()
            &&& forall|b: u8|
                charset@.contains(b) <==> included(
                    exclude_numeric,
                    exclude_lower,
                    exclude_upper,
                    exclude_symbol,
                    b,
                )
        },
{
    let mut charset: Vec<u8> = Vec::new();
    match (exclude_lower, exclude_upper, exclude_numeric, exclude_symbol) {
        (false, true, true, true) => {
            append(&mut charset, CHARSET_LOWER.as_slice());
        },
        (true, false, true, true) => {
            append(&mut charset, CHARSET_UPPER.as_slice());
        },
        (true, true, false, true) => {
            append(&mut charset, CHARSET_NUMBER.as_slice());
        },
        (true, true, true, false) => {
            append(&mut charset, CHARSET_SYMBOL.as_slice());
        },
        (false, false, true, true) => {
            append(&mut charset, CHARSET_LOWER.as_slice());
            append(&mut charset, CHARSET_UPPER.as_slice());
        },
        (false, true, false, true) => {
            append(&mut charset, CHARSET_LOWER.as_slice());
            append(&mut charset, CHARSET_NUMBER.as_slice());
        },
        (false, true, true, false) => {
            append(&mut charset, CHARSET_LOWER.as_slice());
            append(&mut charset, CHARSET_SYMBOL.as_slice());
        },
        (true, false, true, false) => {
            append(&mut charset, CHARSET_UPPER.as_slice());
            append(&mut charset, CHARSET_SYMBOL.as_slice());
        },
        (true, false, false, true) => {
            append(&mut charset, CHARSET_UPPER.as_slice());
            append(&mut charset, CHARSET_NUMBER.as_slice());
        },
        (true, true, false, false) => {
            append(&mut charset, CHARSET_NUMBER.as_slice());
            append(&mut charset, CHARSET_SYMBOL.as_slice());
        },
        (false, false, false, true) => {
            append(&mut charset, CHARSET_UPPER.as_slice());
            append(&mut charset, CHARSET_LOWER.as_slice());
            append(&mut charset, CHARSET_NUMBER.as_slice());
        },
        (false, false, true, false) => {
            append(&mut charset, CHARSET_UPPER.as_slice());
            append(&mut charset, CHARSET_LOWER.as_slice());
            append(&mut charset, CHARSET_SYMBOL.as_slice());
        },
        (false, true, false, false) => {
            append(&mut charset, CHARSET_LOWER.as_slice());
            append(&mut charset, CHARSET_NUMBER.as_slice());
            append(&mut charset, CHARSET_SYMBOL.as_slice());
        },
        (true, false, false, false) => {
            append(&mut charset, CHARSET_UPPER.as_slice());
            append(&mut charset, CHARSET_NUMBER.as_slice());
            append(&mut charset, CHARSET_SYMBOL.as_slice());
        },
        (false, false, false, false) => {
            append(&mut charset, CHARSET_UPPER.as_slice());
            append(&mut charset, CHARSET_LOWER.as_slice());
            append(&mut charset, CHARSET_NUMBER.as_slice());
            append(&mut charset, CHARSET_SYMBOL.as_slice());
        },
        (true, true, true, true) => {
            return Err(ConfigError::EmptyCharset);
        },
    }
    proof {
        lemma_charset_of(exclude_numeric, exclude_lower, exclude_upper, exclude_symbol);
    }
    Ok(charset)
}

} // verus!
