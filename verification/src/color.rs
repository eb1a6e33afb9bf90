//! The packed colour word of an instance: four 8-bit channels in one `u32`,
//! red in the lowest byte (`0xAABBGGRR`), as the shaders unpack it.

use vstd::prelude::*;

verus! {

/// The word `pack_rgba` builds from four channel values.
pub open spec fn rgba_word(r: u32, g: u32, b: u32, a: u32) -> u32 {
    (a << 24u32) | (b << 16u32) | (g << 8u32) | r
}

/// Channel `k` (0 red, 1 green, 2 blue, 3 alpha) of a packed colour.
pub open spec fn channel_of(packed: u32, k: u32) -> u32 {
    (packed >> (8 * k) as u32) & 0xFFu32
}

/// Packs four channel values, red lowest; a channel above 255 spills into
/// the bits of the channels above it.
pub fn pack_rgba(r: u32, g: u32, b: u32, a: u32) -> (p: u32)
    ensures
        p == rgba_word(r, g, b, a),
        r <= 255 && g <= 255 && b <= 255 && a <= 255 ==> p == r + g * 0x100 + b * 0x1_0000 + a * 0x100_0000,
{
    let p = (a << 24u32) | (b << 16u32) | (g << 8u32) | r;
    proof {
        if r <= 255 && g <= 255 && b <= 255 && a <= 255 {
            assert(((a << 24u32) | (b << 16u32) | (g << 8u32) | r) == r + g * 0x100 + b * 0x1_0000 + a * 0x100_0000)
                by (bit_vector)
                requires
                    r <= 255 && g <= 255 && b <= 255 && a <= 255,
            ;
        }
    }
    p
}

/// Reads channel `k` (0 red, 1 green, 2 blue, 3 alpha) of a packed colour.
pub fn unpack_channel(packed: u32, k: u32) -> (c: u32)
    requires
        k < 4,
    ensures
        c == channel_of(packed, k),
        c <= 255,
{
    let c = (packed >> (8 * k)) & 0xFF;
    assert(((packed >> (8 * k) as u32) & 0xFFu32) <= 255u32) by (bit_vector);
    c
}

/// Packing four channels of at most 255 and reading them back gives the
/// channels unchanged.
pub proof fn law_rgba_round_trip(r: u32, g: u32, b: u32, a: u32)
    requires
        r <= 255,
        g <= 255,
        b <= 255,
        a <= 255,
    ensures
        channel_of(rgba_word(r, g, b, a), 0) == r,
        channel_of(rgba_word(r, g, b, a), 1) == g,
        channel_of(rgba_word(r, g, b, a), 2) == b,
        channel_of(rgba_word(r, g, b, a), 3) == a,
{
    assert(((((a << 24u32) | (b << 16u32) | (g << 8u32) | r) >> 0u32) & 0xFFu32) == r) by (bit_vector)
        requires
            r <= 255 && g <= 255 && b <= 255 && a <= 255,
    ;
    assert(((((a << 24u32) | (b << 16u32) | (g << 8u32) | r) >> 8u32) & 0xFFu32) == g) by (bit_vector)
        requires
            r <= 255 && g <= 255 && b <= 255 && a <= 255,
    ;
    assert(((((a << 24u32) | (b << 16u32) | (g << 8u32) | r) >> 16u32) & 0xFFu32) == b) by (bit_vector)
        requires
            r <= 255 && g <= 255 && b <= 255 && a <= 255,
    ;
    assert(((((a << 24u32) | (b << 16u32) | (g << 8u32) | r) >> 24u32) & 0xFFu32) == a) by (bit_vector)
        requires
            r <= 255 && g <= 255 && b <= 255 && a <= 255,
    ;
}

} // verus!
