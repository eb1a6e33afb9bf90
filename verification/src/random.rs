//! A small linear congruential generator used to jitter brush stamps.

use vstd::prelude::*;

verus! {

/// Multiplier of the generator.
pub const LCG_MULTIPLIER: u32 = 1664525;

/// Increment of the generator.
pub const LCG_INCREMENT: u32 = 1013904223;

/// The generator's next state: multiply, then add, both modulo 2^32.
pub open spec fn lcg_next(s: u32) -> u32 {
    ((((s as nat) * 1664525) % 0x1_0000_0000 + 1013904223) % 0x1_0000_0000) as u32
}

/// The bit pattern of an `f32` in [1, 2) whose mantissa is the top 23 bits of
/// the state.
pub open spec fn unit_float_bits(s: u32) -> u32 {
    (s >> 9u32) | 0x3f80_0000u32
}

/// Linear congruential generator.
pub struct Lcg {
    state: u32,
}

impl View for Lcg {
    type V = u32;

    closed spec fn view(&self) -> u32 {
        self.state
    }
}

impl Lcg {
    pub fn new(seed: u32) -> (r: Lcg)
        ensures
            r@ == seed,
    {
        Lcg { state: seed }
    }

    /// Advances the state and returns the bits of an `f32` in [1, 2) built
    /// from it; the signed value in [-1, 1) is twice that float minus three.
    pub fn next_bits(&mut self) -> (r: u32)
        ensures
            final(self)@ == lcg_next(old(self)@),
            r == unit_float_bits(final(self)@),
    {
        let m = self.state.wrapping_mul(LCG_MULTIPLIER);
        let s = m.wrapping_add(LCG_INCREMENT);
        self.state = s;
        (s >> 9) | 0x3f80_0000
    }
}

/// Every value the generator produces is the bit pattern of a positive float
/// with exponent 0, that is a float in [1, 2): sign bit clear and biased
/// exponent 127.
pub proof fn law_unit_float_bits_in_range(s: u32)
    ensures
        unit_float_bits(s) >> 23u32 == 0x7Fu32,
        unit_float_bits(s) & 0x007F_FFFFu32 == s >> 9u32,
{
    assert(((s >> 9u32) | 0x3f80_0000u32) >> 23u32 == 0x7Fu32) by (bit_vector);
    assert(((s >> 9u32) | 0x3f80_0000u32) & 0x007F_FFFFu32 == s >> 9u32) by (bit_vector);
}

} // verus!
