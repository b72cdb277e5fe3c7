//! The ways in which a request can be turned down, and in which generating
//! a password can end without one.

use vstd::prelude::*;

verus! {

/// Why a request for a password cannot be served.
#[derive(Clone, Copy, Debug, PartialEq, Eq, Structural)]
pub enum ConfigError {
    /// Every class of characters is excluded, so there is nothing to draw from.
    EmptyCharset,
    /// The requested length is not a decimal number within the supported range.
    InvalidLength,
    /// Passphrase mode was requested; it is not supported.
    UnimplementedMode,
}

/// Why drawing from a character set ended without a character.
#[derive(Clone, Copy, Debug, PartialEq, Eq, Structural)]
pub enum SampleError {
    /// As many draws in a row as may be taken for one character named no
    /// position of the set.
    DrawLimitReached,
}

/// Why no password was generated.
#[derive(Clone, Copy, Debug, PartialEq, Eq, Structural)]
pub enum GenerateError {
    /// The request cannot be served.
    Config(ConfigError),
    /// Drawing the characters did not come to an end.
    Sample(SampleError),
}

} // verus!
