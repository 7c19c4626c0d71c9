//! The xorshift generator that drives token sampling during generation.

use vstd::prelude::*;

verus! {

/// The xorshift* state update.
pub open spec fn xorshift(s: u64) -> u64 {
    let s1 = s ^ (s >> 12u64);
    let s2 = s1 ^ (s1 << 25u64);
    s2 ^ (s2 >> 27u64)
}

/// The value drawn from an updated state: the high 32 bits of
/// `s * 0x2545F4914F6CDD1D mod 2^64`.
pub open spec fn xorshift_output(s: u64) -> u32 {
    (((s as nat * 0x2545F4914F6CDD1Dnat) % 0x1_0000_0000_0000_0000nat) / 0x1_0000_0000nat) as u32
}

/// Advances the xorshift* state and returns a 32-bit value.
pub fn random_u32(state: &mut u64) -> (r: u32)
    ensures
        *final(state) == xorshift(*old(state)),
        r == xorshift_output(*final(state)),
{
    // xorshift rng: https://en.wikipedia.org/wiki/Xorshift#xorshift.2A
    *state ^= *state >> 12u64;
    *state ^= *state << 25u64;
    *state ^= *state >> 27u64;
    let w = state.wrapping_mul(0x2545F4914F6CDD1Du64);
    proof {
        assert(w >> 32u64 == w / 0x1_0000_0000u64) by (bit_vector);
    }
    (w >> 32u64) as u32
}

} // verus!
