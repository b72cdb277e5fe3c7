//! Unbiased choice of characters from a character set.
//!
//! One draw from the random source is 64 bits wide. For a set of `n`
//! characters only the top `width_of(n)` bits of a draw are looked at, the
//! fewest that can still name every position. A value that names no position
//! is thrown away and another is drawn, so every position is named by the
//! same number of draws and none is favoured.
//!
//! The number of draws taken for one character has a bound, [`DRAW_LIMIT`],
//! so that drawing always ends. Where every one of them names no position,
//! no character is returned: a draw is never made to name a position that
//! its value does not name.

use crate::error::{ConfigError, SampleError};
use rand::rngs::StdRng;
use rand::RngCore;
use vstd::arithmetic::power2::{
    lemma2_to64, lemma2_to64_rest, lemma_pow2_adds, lemma_pow2_pos,
    lemma_pow2_strictly_increases, lemma_pow2_unfold, pow2,
};
use vstd::bits::lemma_u64_shr_is_div;
use vstd::prelude::*;

verus! {

/// The number of bits in one draw from the random source.
pub const DRAW_BITS: u32 = 64;

/// The most draws that are taken for one character. A draw names no
/// position less than half of the time, so that many in a row that name
/// none are less likely than one in `2^128`.
pub const DRAW_LIMIT: u32 = 128;

/// `k` bits are enough to name `n` positions, and `k - 1` bits are not.
pub open spec fn is_width_of(k: nat, n: nat) -> bool {
    &&& n <= pow2(k)
    &&& k > 0 ==> pow2((k - 1) as nat) < n
}

/// The least number of bits `k` with `n <= 2^k`.
pub open spec fn width_of(n: nat) -> nat {
    choose|k: nat| is_width_of(k, n)
}

proof fn lemma_pow2_monotonic(a: nat, b: nat)
    requires
        a <= b,
    ensures
        pow2(a) <= pow2(b),
{
    if a < b {
        lemma_pow2_strictly_increases(a, b);
    }
}

proof fn lemma_below_pow2(n: nat)
    ensures
        n < pow2(n),
    decreases n,
{
    if n == 0 {
        lemma2_to64();
    } else {
        lemma_below_pow2((n - 1) as nat);
        lemma_pow2_unfold(n);
    }
}

proof fn lemma_width_search(n: nat, k: nat)
    requires
        n <= pow2(k),
    ensures
        exists|j: nat| is_width_of(j, n),
    decreases k,
{
    if k > 0 && n <= pow2((k - 1) as nat) {
        lemma_width_search(n, (k - 1) as nat);
    } else {
        assert(is_width_of(k, n));
    }
}

/// The width of `n` names every one of `n` positions, and no smaller width
/// does.
pub proof fn lemma_width_of(n: nat)
    ensures
        is_width_of(width_of(n), n),
{
    lemma_below_pow2(n);
    lemma_width_search(n, n);
}

/// Only one width fits `n`: whatever satisfies `is_width_of` is `width_of`.
pub proof fn lemma_width_unique(k: nat, n: nat)
    requires
        is_width_of(k, n),
    ensures
        width_of(n) == k,
{
    let w = width_of(n);
    lemma_width_of(n);
    if w < k {
        lemma_pow2_monotonic(w, (k - 1) as nat);
    } else if k < w {
        lemma_pow2_monotonic(k, (w - 1) as nat);
    }
}

/// No width that covers `n` is smaller than `width_of(n)`.
pub proof fn lemma_width_least(n: nat, k: nat)
    requires
        n <= pow2(k),
    ensures
        width_of(n) <= k,
{
    let w = width_of(n);
    lemma_width_of(n);
    if k < w {
        lemma_pow2_monotonic(k, (w - 1) as nat);
    }
}

/// More than half of the values of `width_of(n)` bits name a position, so a
/// draw is thrown away less than half of the time.
pub proof fn lemma_more_than_half(n: nat)
    requires
        n > 0,
    ensures
        pow2(width_of(n)) < 2 * n,
{
    let w = width_of(n);
    lemma_width_of(n);
    if w == 0 {
        lemma2_to64();
    } else {
        lemma_pow2_unfold(w);
    }
}

/// The least number of bits that name `n` positions.
pub fn bit_width(n: usize) -> (k: u32)
    ensures
        k == width_of(n as nat),
        k <= DRAW_BITS,
{
    let mut k: u32 = 0;
    let mut reach: u128 = 1;
    proof {
        lemma2_to64();
        lemma2_to64_rest();
    }
    while reach < n as u128
        invariant
            k <= 64,
            reach == pow2(k as nat),
            k > 0 ==> pow2((k - 1) as nat) < n,
            n < pow2(64),
        decreases 64 - k,
    {
        proof {
            if k >= 64 {
                lemma_pow2_monotonic(64, k as nat);
            }
            lemma_pow2_unfold((k + 1) as nat);
        }
        reach = reach * 2;
        k = k + 1;
    }
    proof {
        lemma_width_unique(k as nat, n as nat);
    }
    k
}

/// The value of the top `k` bits of a draw; the whole draw where `k` is
/// [`DRAW_BITS`] or more.
pub open spec fn top_bits(draw: u64, k: nat) -> nat {
    if k >= 64 {
        draw as nat
    } else {
        draw as nat / pow2((64 - k) as nat)
    }
}

/// The position among `n` that a draw names: the value of its top
/// `width_of(n)` bits where that is below `n`, and none otherwise.
pub open spec fn selected(n: nat, draw: u64) -> Option<nat> {
    let candidate = top_bits(draw, width_of(n));
    if candidate < n {
        Some(candidate)
    } else {
        None
    }
}

/// The character of `charset` that a draw names, if it names one.
pub open spec fn choice(charset: Seq<u8>, draw: u64) -> Option<u8> {
    match selected(charset.len(), draw) {
        Some(i) => Some(charset[i as int]),
        None => None,
    }
}

/// What becomes of one draw.
#[derive(Clone, Copy, Debug, PartialEq, Eq, Structural)]
pub enum Outcome {
    /// The draw names a position, and this is the character that stands
    /// there.
    Found(u8),
    /// The draw names no position and is thrown away; another is taken.
    Again,
    /// The draw names no position and was the last that may be taken.
    Spent,
}

/// What becomes of a draw when `discarded` draws were thrown away for the
/// same character before it. Whatever their number, the draw is kept exactly
/// when it names a position; their number only decides whether another draw
/// follows one that is thrown away.
pub open spec fn settled(charset: Seq<u8>, draw: u64, discarded: nat) -> Outcome {
    match choice(charset, draw) {
        Some(character) => Outcome::Found(character),
        None => if discarded + 1 < DRAW_LIMIT {
            Outcome::Again
        } else {
            Outcome::Spent
        },
    }
}

/// The top `k` bits of a draw hold a value below `2^k`.
pub proof fn lemma_top_bits_bound(draw: u64, k: nat)
    requires
        k <= 64,
    ensures
        top_bits(draw, k) < pow2(k),
{
    lemma2_to64_rest();
    if k < 64 {
        let low = pow2((64 - k) as nat);
        lemma_pow2_pos((64 - k) as nat);
        lemma_pow2_adds((64 - k) as nat, k);
        assert(draw as nat / low < pow2(k)) by (nonlinear_arith)
            requires
                low > 0,
                (draw as nat) < low * pow2(k),
        ;
    }
}

/// Where the size of the set is a power of two, every draw names a
/// position and none is thrown away.
pub proof fn lemma_never_discarded(charset: Seq<u8>, draw: u64)
    requires
        charset.len() == pow2(width_of(charset.len())),
        charset.len() <= pow2(64),
    ensures
        choice(charset, draw) is Some,
{
    lemma_width_least(charset.len(), 64);
    lemma_top_bits_bound(draw, width_of(charset.len()));
}

/// What a draw names is a character of the set.
pub proof fn lemma_choice_in_set(charset: Seq<u8>, draw: u64)
    ensures
        choice(charset, draw) matches Some(character) ==> charset.contains(character),
{
}

/// Every position is named by equally many draws: position `i` by the
/// `2^(64 - width_of(n))` draws from `i * 2^(64 - width_of(n))` on, and by
/// no other. So the character at `i` is what each of those draws gives, and
/// where no character stands twice in the set, no other draw gives it.
pub proof fn lemma_equal_shares(charset: Seq<u8>, i: nat, draw: u64)
    requires
        i < charset.len() <= pow2(64),
    ensures
        ({
            let share = pow2((64 - width_of(charset.len())) as nat);
            let named = i * share <= draw < (i + 1) * share;
            &&& selected(charset.len(), draw) == Some(i) <==> named
            &&& named ==> choice(charset, draw) == Some(charset[i as int])
            &&& charset.no_duplicates() ==> (choice(charset, draw) == Some(charset[i as int])
                <==> named)
        }),
{
    let n = charset.len();
    let w = width_of(n);
    lemma_width_least(n, 64);
    let share = pow2((64 - w) as nat);
    lemma_pow2_pos((64 - w) as nat);
    let d = draw as nat;
    if w >= 64 {
        lemma2_to64();
        assert(share == 1);
        assert(top_bits(draw, w) == d);
    } else {
        assert(top_bits(draw, w) == d / share);
    }
    assert(d / share == i <==> i * share <= d < (i + 1) * share) by (nonlinear_arith)
        requires
            share > 0,
    ;
}

/// The value of the top `k` bits of a draw.
pub fn leading_bits(draw: u64, k: u32) -> (value: u64)
    ensures
        value == top_bits(draw, k as nat),
{
    if k >= 64 {
        draw
    } else if k == 0 {
        proof {
            lemma2_to64_rest();
            assert(draw as nat / 0x1_0000_0000_0000_0000 == 0);
        }
        0
    } else {
        let shift: u64 = 64 - k as u64;
        proof {
            lemma_u64_shr_is_div(draw, shift);
            assert(shift as nat == (64 - k as nat) as nat);
        }
        draw >> shift
    }
}

/// `rand::rngs::StdRng`, the random source that draws are taken from. Its
/// state is hidden from the proofs.
#[verifier::external_type_specification]
#[verifier::external_body]
pub struct ExStdRng(StdRng);

/// `RngCore::next_u64` as `StdRng` implements it: hands out the next 64 bits
/// of the generator's stream. It reads from the generator's buffer, refills
/// the buffer when it is used up, and cannot fail. Nothing is claimed of the
/// bits.
pub assume_specification[ <StdRng as RngCore>::next_u64 ](rng: &mut StdRng) -> (draw: u64);

/// A non-empty character set together with the width of bits that names its
/// positions.
pub struct CharacterDistributor {
    characters: Vec<u8>,
    width: u32,
}

impl View for CharacterDistributor {
    type V = Seq<u8>;

    closed spec fn view(&self) -> Seq<u8> {
        self.characters@
    }
}

impl CharacterDistributor {
    #[verifier::type_invariant]
    spec fn well_formed(&self) -> bool {
        &&& self.characters@.len() > 0
        &&& self.width == width_of(self.characters@.len())
        &&& self.width <= DRAW_BITS
    }

    /// A distributor over `characters`, in their order. An empty set is
    /// turned down.
    pub fn new(characters: Vec<u8>) -> (made: Result<CharacterDistributor, ConfigError>)
        ensures
            characters@.len() == 0 ==> made == Err::<CharacterDistributor, ConfigError>(
                ConfigError::EmptyCharset,
            ),
            characters@.len() > 0 ==> made is Ok && made->Ok_0@ == characters@,
    {
        if characters.len() == 0 {
            return Err(ConfigError::EmptyCharset);
        }
        let width = bit_width(characters.len());
        Ok(CharacterDistributor { characters, width })
    }

    /// The characters, in the order in which positions name them.
    pub fn characters(&self) -> (characters: &Vec<u8>)
        ensures
            characters@ == self@,
            characters@.len() > 0,
    {
        proof {
            use_type_invariant(self);
        }
        &self.characters
    }

    /// The number of bits of a draw that are looked at.
    pub fn width(&self) -> (k: u32)
        ensures
            k == width_of(self@.len()),
            k <= DRAW_BITS,
    {
        proof {
            use_type_invariant(self);
        }
        self.width
    }

    /// The character that `draw` names, or `None` where the draw is to be
    /// thrown away.
    pub fn pick(&self, draw: u64) -> (picked: Option<u8>)
        ensures
            picked == choice(self@, draw),
            picked matches Some(character) ==> self@.contains(character),
    {
        proof {
            use_type_invariant(self);
        }
        let candidate = leading_bits(draw, self.width);
        if candidate < self.characters.len() as u64 {
            Some(self.characters[candidate as usize])
        } else {
            None
        }
    }

    /// What becomes of `draw` when `discarded` draws were thrown away for
    /// the same character before it.
    pub fn settle(&self, draw: u64, discarded: u32) -> (outcome: Outcome)
        ensures
            outcome == settled(self@, draw, discarded as nat),
            outcome matches Outcome::Found(character) ==> self@.contains(character),
            self@.len() == pow2(width_of(self@.len())) ==> outcome is Found,
    {
        proof {
            use_type_invariant(self);
            lemma_width_of(self@.len());
            lemma_pow2_monotonic(self.width as nat, 64);
            if self@.len() == pow2(width_of(self@.len())) {
                lemma_never_discarded(self@, draw);
            }
        }
        match self.pick(draw) {
            Some(character) => Outcome::Found(character),
            None => if discarded < DRAW_LIMIT - 1 {
                Outcome::Again
            } else {
                Outcome::Spent
            },
        }
    }

    /// One character of the set, drawn from `rng`.
    ///
    /// Draws are taken from `rng` one after the other, and each is handed to
    /// [`CharacterDistributor::settle`]. The first that names a position
    /// gives the character. `None` comes back only where [`DRAW_LIMIT`]
    /// draws were taken and none of them named a position; where the size of
    /// the set is a power of two that cannot happen.
    pub fn sample(&self, rng: &mut StdRng) -> (character: Option<u8>)
        ensures
            character matches Some(found) ==> self@.contains(found),
            self@.len() == pow2(width_of(self@.len())) ==> character is Some,
    {
        let mut discarded: u32 = 0;
        loop
            invariant
                discarded < DRAW_LIMIT,
            decreases DRAW_LIMIT - discarded,
        {
            let draw = rng.next_u64();
            match self.settle(draw, discarded) {
                Outcome::Found(character) => {
                    return Some(character);
                },
                Outcome::Again => {
                    discarded = discarded + 1;
                },
                Outcome::Spent => {
                    return None;
                },
            }
        }
    }

    /// `count` characters of the set, each drawn from `rng` on its own. The
    /// draws for one character may run out, as [`CharacterDistributor::sample`]
    /// has it; no characters come back then.
    pub fn sample_many(&self, count: usize, rng: &mut StdRng) -> (drawn: Result<
        Vec<u8>,
        SampleError,
    >)
        ensures
            drawn matches Ok(characters) ==> {
                &&& characters@.len() == count
                &&& forall|i: int| 0 <= i < count ==> self@.contains(#[trigger] characters@[i])
            },
            drawn matches Err(error) ==> error == SampleError::DrawLimitReached,
            count == 0 ==> drawn is Ok && drawn->Ok_0@ == Seq::<u8>::empty(),
            self@.len() == pow2(width_of(self@.len())) ==> drawn is Ok,
    {
        let mut characters: Vec<u8> = Vec::new();
        while characters.len() < count
            invariant
                characters@.len() <= count,
                forall|i: int|
                    0 <= i < characters@.len() ==> self@.contains(#[trigger] characters@[i]),
            decreases count - characters@.len(),
        {
            match self.sample(rng) {
                Some(character) => {
                    characters.push(character);
                },
                None => {
                    return Err(SampleError::DrawLimitReached);
                },
            }
        }
        Ok(characters)
    }
}

} // verus!
