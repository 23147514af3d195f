//! Modulus switching: deterministic rounding of a coefficient from the
//! working modulus `2^MOD_LOG2` into the coarse lookup-table index domain
//! `[0, LUT_DOMAIN)` that bootstrapping rotates by.
//!
//! The rounding rule is round-half-up: an input exactly half way between two
//! lookup-table indices always resolves to the larger index (modulo the
//! domain size).

use vstd::prelude::*;

use crate::params::{LUT_DOMAIN_LOG2, LUT_INDEX_MASK, MOD_LOG2};

verus! {

/// The value a coefficient rounds to in the lookup-table index domain:
/// `round(x * LUT_DOMAIN / 2^MOD_LOG2)` with ties rounding up, reduced
/// modulo `LUT_DOMAIN`.
pub open spec fn sp_modulus_switch(x: u32) -> u32 {
    (((x >> ((MOD_LOG2 - LUT_DOMAIN_LOG2 - 1) as u32)).wrapping_add(1)) >> 1u32)
        & LUT_INDEX_MASK
}

/// Rounds one coefficient into the lookup-table index domain. Pure and
/// deterministic: equal inputs always produce equal outputs.
pub fn modulus_switch(x: u32) -> (r: u32)
    ensures
        r == sp_modulus_switch(x),
        r <= LUT_INDEX_MASK,
{
    let r = ((x >> (MOD_LOG2 - LUT_DOMAIN_LOG2 - 1)).wrapping_add(1) >> 1) & LUT_INDEX_MASK;
    proof {
        assert(r <= 0xFu32) by (bit_vector)
            requires r == ((x >> 27u32).wrapping_add(1) >> 1u32) & 0xFu32;
    }
    r
}

/// The switch realizes round-half-up division: the result is the quotient of
/// `x + 2^(MOD_LOG2 - LUT_DOMAIN_LOG2 - 1)` by `2^(MOD_LOG2 - LUT_DOMAIN_LOG2)`,
/// reduced modulo the domain size. In particular an input exactly half way
/// between two indices rounds to the larger one.
pub proof fn lemma_modulus_switch_round_half_up(x: u32)
    ensures
        sp_modulus_switch(x) == ((x as int + 0x800_0000) / 0x1000_0000) % 16,
{
    assert(sp_modulus_switch(x) == (((x as u64 + 0x800_0000) / 0x1000_0000) % 16) as u32)
        by (bit_vector);
    assert(((x as u64 + 0x800_0000) / 0x1000_0000) % 16 == ((x as int + 0x800_0000)
        / 0x1000_0000) % 16);
}

} // verus!
