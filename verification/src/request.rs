//! From the switches of a request, as they are given, to the values that a
//! password is generated from.

use crate::error::ConfigError;
use crate::length::{length_of, parse_length};
use vstd::prelude::*;

verus! {

/// The length of a password where none is asked for.
pub const DEFAULT_LENGTH: u32 = 16;

/// The length of a passphrase, in words, where none is asked for.
pub const DEFAULT_WORDS: u32 = 4;

/// The switches of a request. Each of the first five takes characters away;
/// the last asks for a passphrase in place of a password.
#[derive(Clone, Copy, Debug, PartialEq, Eq, Structural)]
pub struct Flags {
    /// No digits.
    pub numeric: bool,
    /// No space and no punctuation.
    pub symbol: bool,
    /// No letters of either case.
    pub alpha: bool,
    /// No lowercase letters.
    pub lower: bool,
    /// No uppercase letters.
    pub upper: bool,
    /// A passphrase of words. It goes with none of the other switches.
    pub diceware: bool,
}

/// What a password is generated from: the classes of characters to leave
/// out, and the number of characters.
#[derive(Clone, Copy, Debug, PartialEq, Eq, Structural)]
pub struct Request {
    pub exclude_numeric: bool,
    pub exclude_lower: bool,
    pub exclude_upper: bool,
    pub exclude_symbol: bool,
    pub length: u32,
}

impl Flags {
    /// One of the switches that take characters away is set.
    pub open spec fn restricts(self) -> bool {
        self.numeric || self.symbol || self.alpha || self.lower || self.upper
    }
}

/// The length that applies where none is asked for.
pub open spec fn default_length(diceware: bool) -> u32 {
    if diceware {
        DEFAULT_WORDS
    } else {
        DEFAULT_LENGTH
    }
}

/// The length that a request asks for: the one that is written, or the
/// default where none is; `None` where what is written is no length.
pub open spec fn requested_length(diceware: bool, length: Option<Seq<u8>>) -> Option<u32> {
    match length {
        Some(text) => length_of(text),
        None => Some(default_length(diceware)),
    }
}

/// What a request comes to.
///
/// A passphrase together with a switch that takes characters away is turned
/// down first, then a length that cannot be read, then a passphrase by
/// itself. In what is left, excluding all letters excludes both cases.
pub open spec fn resolved(flags: Flags, length: Option<Seq<u8>>) -> Result<Request, ConfigError> {
    if flags.diceware && flags.restricts() {
        Err(ConfigError::UnimplementedMode)
    } else {
        match requested_length(flags.diceware, length) {
            None => Err(ConfigError::InvalidLength),
            Some(count) => if flags.diceware {
                Err(ConfigError::UnimplementedMode)
            } else {
                Ok(
                    Request {
                        exclude_numeric: flags.numeric,
                        exclude_lower: flags.alpha || flags.lower,
                        exclude_upper: flags.alpha || flags.upper,
                        exclude_symbol: flags.symbol,
                        length: count,
                    },
                )
            },
        }
    }
}

/// The bytes of a length as given, where one is given.
pub open spec fn written(length: Option<&[u8]>) -> Option<Seq<u8>> {
    match length {
        Some(text) => Some(text@),
        None => None,
    }
}

/// Settles a request: checks the switches against each other, reads the
/// length, and spells out what `alpha` stands for.
pub fn resolve(flags: &Flags, length: Option<&[u8]>) -> (request: Result<Request, ConfigError>)
    ensures
        request == resolved(*flags, written(length)),
{
    if flags.diceware && (flags.numeric || flags.symbol || flags.alpha || flags.lower
        || flags.upper) {
        return Err(ConfigError::UnimplementedMode);
    }
    let count = match length {
        Some(text) => match parse_length(text) {
            Ok(count) => count,
            Err(error) => {
                return Err(error);
            },
        },
        None => if flags.diceware {
            DEFAULT_WORDS
        } else {
            DEFAULT_LENGTH
        },
    };
    if flags.diceware {
        return Err(ConfigError::UnimplementedMode);
    }
    Ok(
        Request {
            exclude_numeric: flags.numeric,
            exclude_lower: flags.alpha || flags.lower,
            exclude_upper: flags.alpha || flags.upper,
            exclude_symbol: flags.symbol,
            length: count,
        },
    )
}

} // verus!
