//! A 64-bit linear congruential generator and the bounded draws derived from it.

use vstd::prelude::*;

verus! {

/// Multiplier of the recurrence. With an odd increment and modulus 2^64 it
/// gives the generator its full period of 2^64.
pub const LCG_MULTIPLIER: u64 = 6364136223846793005;

/// Increment of the recurrence.
pub const LCG_INCREMENT: u64 = 3;

/// The state that follows `state`: `state * LCG_MULTIPLIER + LCG_INCREMENT`
/// modulo 2^64.
pub open spec fn lcg_next(state: u64) -> u64 {
    ((state * LCG_MULTIPLIER + LCG_INCREMENT) % 0x1_0000_0000_0000_0000) as u64
}

/// The state reached from `seed` after `draws` steps of the recurrence.
pub open spec fn state_after(seed: u64, draws: nat) -> u64
    decreases draws,
{
    if draws == 0 {
        seed
    } else {
        lcg_next(state_after(seed, (draws - 1) as nat))
    }
}

/// A 64-bit draw reduced to the width of `usize`: its low `usize::BITS` bits.
/// On a 64-bit platform this is `raw` itself.
pub open spec fn platform_word(raw: u64) -> int {
    raw as int % (usize::MAX as int + 1)
}

/// The top 53 bits of a 64-bit draw, the significant bits of a float in
/// `[0, 1)`.
pub open spec fn mantissa(raw: u64) -> int {
    raw as int / 2048
}

/// A raw draw folded into the inclusive range `[min, max]`.
pub open spec fn folded(raw: int, min: int, max: int) -> int {
    min + raw % (max - min + 1)
}

/// The error of a ranged draw whose lower bound lies above its upper bound.
#[derive(Clone, Copy, Debug, PartialEq, Eq)]
pub struct InvalidRange;

/// A pseudo-random number generator whose whole state is one 64-bit word.
#[derive(Clone, Copy, Debug)]
pub struct Rng {
    state: u64,
}

impl View for Rng {
    type V = u64;

    /// The current state word.
    closed spec fn view(&self) -> u64 {
        self.state
    }
}

impl Rng {
    /// A generator whose state is exactly `seed`.
    pub fn from_seed(seed: u64) -> (rng: Self)
        ensures
            rng@ == seed,
    {
        Self { state: seed }
    }

    /// A generator seeded from a clock reading, given in nanoseconds since
    /// the Unix epoch: the seed is the low 64 bits of the reading.
    pub fn new(nanos: u128) -> (rng: Self)
        ensures
            rng@ == nanos % 0x1_0000_0000_0000_0000,
    {
        assert(nanos as u64 == nanos % 0x1_0000_0000_0000_0000) by (bit_vector);
        Self::from_seed(#[verifier::truncate] (nanos as u64))
    }

    /// Advances the state by one step of the recurrence and returns the new
    /// state.
    pub fn next_u64(&mut self) -> (value: u64)
        ensures
            final(self)@ == lcg_next(old(self)@),
            value == lcg_next(old(self)@),
    {
        proof {
            lemma_wrapped_increment(self.state * LCG_MULTIPLIER);
        }
        self.state = self.state.wrapping_mul(LCG_MULTIPLIER).wrapping_add(LCG_INCREMENT);
        self.state
    }

    /// Advances the state by one step and returns the new state reduced to
    /// the width of `usize`. Where `usize` has fewer than 64 bits the high
    /// bits of the draw are lost.
    pub fn next_usize(&mut self) -> (value: usize)
        ensures
            final(self)@ == lcg_next(old(self)@),
            value == platform_word(lcg_next(old(self)@)),
    {
        let raw: u64 = self.next_u64();
        proof {
            lemma_cast_is_platform_word(raw);
        }
        #[verifier::truncate]
        (raw as usize)
    }

    /// Advances the state by one step and returns the top 53 bits of the new
    /// state. Scaled by 2^-53 they give a float in `[0, 1)`.
    pub fn next_mantissa(&mut self) -> (bits: u64)
        ensures
            final(self)@ == lcg_next(old(self)@),
            bits == mantissa(lcg_next(old(self)@)),
            bits < 0x20_0000_0000_0000,
    {
        let raw: u64 = self.next_u64();
        assert(raw >> 11 == raw / 2048) by (bit_vector);
        assert(raw >> 11 < 0x20_0000_0000_0000) by (bit_vector);
        raw >> 11
    }

    /// Draws a value from the inclusive range `[min, max]`: one step of the
    /// recurrence, folded into the range. A range with `min > max` is
    /// refused, and the state is then left as it was.
    pub fn next_u64_in_range(&mut self, min: u64, max: u64) -> (result: Result<u64, InvalidRange>)
        ensures
            result is Ok <==> min <= max,
            result is Err ==> final(self)@ == old(self)@,
            result is Ok ==> final(self)@ == lcg_next(old(self)@),
            result matches Ok(value) ==> value == folded(
                lcg_next(old(self)@) as int,
                min as int,
                max as int,
            ),
            result matches Ok(value) ==> min <= value <= max,
    {
        if min > max {
            return Err(InvalidRange);
        }
        let span: u64 = max - min;
        let raw: u64 = self.next_u64();
        proof {
            lemma_folded_in_range(raw as int, min as int, max as int);
        }
        if span == u64::MAX {
            assert(folded(raw as int, min as int, max as int) == raw) by {
                vstd::arithmetic::div_mod::lemma_small_mod(raw as nat, 0x1_0000_0000_0000_0000);
            }
            Ok(raw)
        } else {
            Ok(min + raw % (span + 1))
        }
    }

    /// Draws a `usize` from the inclusive range `[min, max]`: one step of the
    /// recurrence, reduced to the width of `usize` and folded into the
    /// range. A range with `min > max` is refused, and the state is then left
    /// as it was.
    pub fn next_usize_in_range(&mut self, min: usize, max: usize) -> (result: Result<
        usize,
        InvalidRange,
    >)
        ensures
            result is Ok <==> min <= max,
            result is Err ==> final(self)@ == old(self)@,
            result is Ok ==> final(self)@ == lcg_next(old(self)@),
            result matches Ok(value) ==> value == folded(
                platform_word(lcg_next(old(self)@)),
                min as int,
                max as int,
            ),
            result matches Ok(value) ==> min <= value <= max,
    {
        if min > max {
            return Err(InvalidRange);
        }
        let span: usize = max - min;
        let raw: usize = self.next_usize();
        proof {
            lemma_folded_in_range(raw as int, min as int, max as int);
        }
        if span == usize::MAX {
            assert(folded(raw as int, min as int, max as int) == raw) by {
                vstd::arithmetic::div_mod::lemma_small_mod(raw as nat, (usize::MAX + 1) as nat);
            }
            Ok(raw)
        } else {
            Ok(min + raw % (span + 1))
        }
    }
}

/// Whatever the raw draw, folded into a range with `min <= max` it lies in
/// `[min, max]`.
pub proof fn lemma_folded_in_range(raw: int, min: int, max: int)
    requires
        min <= max,
    ensures
        min <= folded(raw, min, max) <= max,
{
    vstd::arithmetic::div_mod::lemma_mod_bound(raw, max - min + 1);
}

/// Two generators in the same state stay in step: after any number of draws
/// their states are equal, and so is the value that each kind of draw
/// returns next. A refused ranged draw moves neither of them, so it does not
/// count as a draw here.
pub proof fn lemma_equal_states_equal_draws(a: Rng, b: Rng, draws: nat, min: int, max: int)
    requires
        a@ == b@,
    ensures
        state_after(a@, draws) == state_after(b@, draws),
        lcg_next(state_after(a@, draws)) == lcg_next(state_after(b@, draws)),
        platform_word(lcg_next(state_after(a@, draws))) == platform_word(
            lcg_next(state_after(b@, draws)),
        ),
        mantissa(lcg_next(state_after(a@, draws))) == mantissa(lcg_next(state_after(b@, draws))),
        folded(lcg_next(state_after(a@, draws)) as int, min, max) == folded(
            lcg_next(state_after(b@, draws)) as int,
            min,
            max,
        ),
{
}

/// Reducing a product modulo 2^64 before the increment is added does not
/// change the sum modulo 2^64.
proof fn lemma_wrapped_increment(product: int)
    ensures
        (product % 0x1_0000_0000_0000_0000 + LCG_INCREMENT) % 0x1_0000_0000_0000_0000 == (product
            + LCG_INCREMENT) % 0x1_0000_0000_0000_0000,
{
}

/// Casting a 64-bit value to `usize` keeps `platform_word` of it.
proof fn lemma_cast_is_platform_word(raw: u64)
    ensures
        (raw as usize) as int == platform_word(raw),
{
    assert(usize::BITS == 32 ==> raw as usize == raw % 0x1_0000_0000) by (bit_vector);
    assert(usize::BITS == 64 ==> raw as usize == raw) by (bit_vector);
    if usize::BITS == 64 {
        assert(raw as int % 0x1_0000_0000_0000_0000 == raw as int);
    }
}

} // verus!
