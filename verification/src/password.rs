//! Generating the password of a request.

use crate::charset::{build, charset_of};
use crate::error::{ConfigError, GenerateError, SampleError};
use crate::request::Request;
use crate::sampler::{width_of, CharacterDistributor};
use rand::rngs::StdRng;
use vstd::arithmetic::power2::pow2;
use vstd::prelude::*;

verus! {

/// The characters that a string of ASCII bytes writes.
pub open spec fn as_text(characters: Seq<u8>) -> Seq<char> {
    characters.map_values(|b: u8| b as char)
}

/// `String::push` of the standard library: appends one character to the end
/// of the string and leaves the rest as it was.
#[verifier::external_body]
fn push_char(text: &mut String, character: char)
    ensures
        final(text)@ == old(text)@.push(character),
{
    text.push(character)
}

/// The string that `characters` write, byte by byte.
pub fn to_text(characters: &Vec<u8>) -> (text: String)
    ensures
        text@ == as_text(characters@),
{
    let mut text = String::new();
    let mut at: usize = 0;
    while at < characters.len()
        invariant
            at <= characters.len(),
            text@ == as_text(characters@.take(at as int)),
        decreases characters.len() - at,
    {
        push_char(&mut text, characters[at] as char);
        at = at + 1;
        assert(as_text(characters@.take(at as int)) =~= as_text(
            characters@.take(at - 1),
        ).push(characters@[at - 1] as char));
    }
    assert(characters@.take(at as int) =~= characters@);
    text
}

/// The request excludes all four classes of characters.
pub open spec fn excludes_all(request: Request) -> bool {
    request.exclude_numeric && request.exclude_lower && request.exclude_upper
        && request.exclude_symbol
}

/// The character set that a request leaves.
pub open spec fn charset_for(request: Request) -> Seq<u8> {
    charset_of(
        request.exclude_numeric,
        request.exclude_lower,
        request.exclude_upper,
        request.exclude_symbol,
    )
}

/// The password of a request: `request.length` characters, each drawn from
/// the character set that the request leaves.
///
/// A request that leaves no character is turned down before anything is
/// drawn. For any other request the only failure is that the draws for one
/// character ran out; a password of no characters needs none, and neither
/// failure can then occur.
pub fn generate(request: &Request, rng: &mut StdRng) -> (generated: Result<String, GenerateError>)
    ensures
        excludes_all(*request) ==> {
            &&& generated == Err::<String, GenerateError>(
                GenerateError::Config(ConfigError::EmptyCharset),
            )
            &&& *final(rng) == *old(rng)
        },
        !excludes_all(*request) ==> {
            ||| generated is Ok
            ||| generated == Err::<String, GenerateError>(
                GenerateError::Sample(SampleError::DrawLimitReached),
            )
        },
        !excludes_all(*request) && (request.length == 0 || charset_for(*request).len() == pow2(
            width_of(charset_for(*request).len()),
        )) ==> generated is Ok,
        generated matches Ok(password) ==> {
            &&& password@.len() == request.length
            &&& forall|i: int|
                0 <= i < password@.len() ==> as_text(charset_for(*request)).contains(
                    #[trigger] password@[i],
                )
        },
{
    let charset = match build(
        request.exclude_numeric,
        request.exclude_lower,
        request.exclude_upper,
        request.exclude_symbol,
    ) {
        Ok(charset) => charset,
        Err(error) => {
            return Err(GenerateError::Config(error));
        },
    };
    let ghost allowed = charset@;
    let distributor = match CharacterDistributor::new(charset) {
        Ok(distributor) => distributor,
        Err(error) => {
            return Err(GenerateError::Config(error));
        },
    };
    let characters = match distributor.sample_many(request.length as usize, rng) {
        Ok(characters) => characters,
        Err(error) => {
            return Err(GenerateError::Sample(error));
        },
    };
    let password = to_text(&characters);
    proof {
        assert forall|i: int| 0 <= i < password@.len() implies as_text(allowed).contains(
            #[trigger] password@[i],
        ) by {
            let b = characters@[i];
            assert(allowed.contains(b));
            let j = choose|j: int| 0 <= j < allowed.len() && allowed[j] == b;
            assert(as_text(allowed)[j] == password@[i]);
        }
    }
    Ok(password)
}

} // verus!
