//! Random passwords drawn uniformly from a chosen set of characters.
//!
//! A request names the classes of characters to leave out and a length.
//! From the classes that remain the library assembles an ordered character
//! set, then draws every position of the password from it by rejection
//! sampling: a draw that names no character of the set is thrown away, never
//! bent to name one, so that no character is favoured over another.

pub mod alphabet;
pub mod charset;
pub mod error;
pub mod length;
pub mod password;
pub mod request;
pub mod sampler;
