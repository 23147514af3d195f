//! The boolean gates as plaintext-space linear combinations.
//!
//! Each binary gate maps its two operands to one linear combination of
//! their samples plus a gate-specific constant offset, chosen so that the
//! sign of the combination's phase follows its truth table; bootstrapping
//! the combination with the sign lookup table then yields a fresh encryption
//! of its boolean output. A pair of trivial operands resolves without touching
//! the bootstrapper.

use vstd::prelude::*;

use crate::bootstrap::sp_pbs_ks;
use crate::glwe::GgswV;
use crate::lwe::{lwe_wf, sp_ct_as_lwe, CiphertextV, LweSample, LweV};
use crate::params::{LWE_DIM, MOD_LOG2, PLAINTEXT_EIGHTH};

verus! {

/// A binary boolean gate.
#[derive(Clone, Copy, Debug, PartialEq, Eq, Structural)]
pub enum Gate {
    And,
    Nand,
    Nor,
    Or,
    Xor,
    Xnor,
}

/// The truth table of a binary gate.
pub open spec fn sp_gate_truth(g: Gate, a: bool, b: bool) -> bool {
    match g {
        Gate::And => a && b,
        Gate::Nand => !(a && b),
        Gate::Nor => !(a || b),
        Gate::Or => a || b,
        Gate::Xor => a != b,
        Gate::Xnor => a == b,
    }
}

/// The coefficient transform of a gate's linear combination: the sum of the
/// operand coefficients, scaled by a per-gate factor (one, minus one, two
/// or minus two).
pub open spec fn sp_combo_coeff(g: Gate, a: u32, b: u32) -> u32 {
    let s = a.wrapping_add(b);
    match g {
        Gate::And => s,
        Gate::Or => s,
        Gate::Nand => 0u32.wrapping_sub(s),
        Gate::Nor => 0u32.wrapping_sub(s),
        Gate::Xor => s.wrapping_add(s),
        Gate::Xnor => 0u32.wrapping_sub(s.wrapping_add(s)),
    }
}

/// The constant offset a gate adds to the body of its linear combination.
pub open spec fn sp_gate_offset(g: Gate) -> u32 {
    match g {
        Gate::And => 0u32.wrapping_sub(PLAINTEXT_EIGHTH),
        Gate::Or => PLAINTEXT_EIGHTH,
        Gate::Nand => PLAINTEXT_EIGHTH,
        Gate::Nor => 0u32.wrapping_sub(PLAINTEXT_EIGHTH),
        Gate::Xor => PLAINTEXT_EIGHTH.wrapping_add(PLAINTEXT_EIGHTH),
        Gate::Xnor => 0u32.wrapping_sub(PLAINTEXT_EIGHTH.wrapping_add(PLAINTEXT_EIGHTH)),
    }
}

/// A gate's linear combination of two LWE samples.
pub open spec fn sp_lin_combo(g: Gate, l: LweV, r: LweV) -> LweV {
    LweV {
        mask: Seq::new(l.mask.len(), |i: int| sp_combo_coeff(g, l.mask[i], r.mask[i])),
        body: sp_combo_coeff(g, l.body, r.body).wrapping_add(sp_gate_offset(g)),
        modulus_log2: MOD_LOG2,
    }
}

/// Computes a gate's linear combination.
pub fn lin_combo(g: Gate, l: &LweSample, r: &LweSample) -> (res: LweSample)
    requires
        lwe_wf(l@, LWE_DIM as int),
        lwe_wf(r@, LWE_DIM as int),
    ensures
        res@ == sp_lin_combo(g, l@, r@),
        lwe_wf(res@, LWE_DIM as int),
{
    let mut mask: Vec<u32> = Vec::new();
    let mut i: usize = 0;
    while i < LWE_DIM
        invariant
            lwe_wf(l@, LWE_DIM as int),
            lwe_wf(r@, LWE_DIM as int),
            i <= LWE_DIM,
            mask@.len() == i,
            forall|k: int| 0 <= k < i ==> mask@[k] == sp_combo_coeff(g, l@.mask[k], r@.mask[k]),
        decreases LWE_DIM - i,
    {
        mask.push(combo_coeff(g, l.mask[i], r.mask[i]));
        i += 1;
    }
    let offset = gate_offset(g);
    let body = combo_coeff(g, l.body, r.body).wrapping_add(offset);
    proof {
        assert(mask@ =~= sp_lin_combo(g, l@, r@).mask);
    }
    LweSample { mask, body, modulus_log2: MOD_LOG2 }
}

fn combo_coeff(g: Gate, a: u32, b: u32) -> (res: u32)
    ensures
        res == sp_combo_coeff(g, a, b),
{
    let s = a.wrapping_add(b);
    match g {
        Gate::And => s,
        Gate::Or => s,
        Gate::Nand => 0u32.wrapping_sub(s),
        Gate::Nor => 0u32.wrapping_sub(s),
        Gate::Xor => s.wrapping_add(s),
        Gate::Xnor => 0u32.wrapping_sub(s.wrapping_add(s)),
    }
}

fn gate_offset(g: Gate) -> (res: u32)
    ensures
        res == sp_gate_offset(g),
{
    match g {
        Gate::And => 0u32.wrapping_sub(PLAINTEXT_EIGHTH),
        Gate::Or => PLAINTEXT_EIGHTH,
        Gate::Nand => PLAINTEXT_EIGHTH,
        Gate::Nor => 0u32.wrapping_sub(PLAINTEXT_EIGHTH),
        Gate::Xor => PLAINTEXT_EIGHTH.wrapping_add(PLAINTEXT_EIGHTH),
        Gate::Xnor => 0u32.wrapping_sub(PLAINTEXT_EIGHTH.wrapping_add(PLAINTEXT_EIGHTH)),
    }
}

/// The result of one gate evaluation: a pair of trivial operands resolves
/// to the trivial truth-table output with no bootstrap; any other pair is
/// combined linearly and bootstrapped, so the result is a fresh encryption.
pub open spec fn sp_gate_one(g: Gate, l: CiphertextV, r: CiphertextV, bskv: Seq<GgswV>,
    kv: Seq<Seq<LweV>>) -> CiphertextV {
    match (l, r) {
        (CiphertextV::Trivial(a), CiphertextV::Trivial(b)) => CiphertextV::Trivial(
            sp_gate_truth(g, a, b)),
        _ => CiphertextV::Encrypted(sp_pbs_ks(bskv, kv, sp_lin_combo(g, sp_ct_as_lwe(l),
            sp_ct_as_lwe(r)))),
    }
}

/// The negation of a ciphertext: a local negation of mask and body, no
/// bootstrap. On a trivial bit it is the plain complement.
pub open spec fn sp_ct_not(c: CiphertextV) -> CiphertextV {
    match c {
        CiphertextV::Trivial(b) => CiphertextV::Trivial(!b),
        CiphertextV::Encrypted(s) => CiphertextV::Encrypted(LweV {
            mask: Seq::new(s.mask.len(), |i: int| 0u32.wrapping_sub(s.mask[i])),
            body: 0u32.wrapping_sub(s.body),
            modulus_log2: s.modulus_log2,
        }),
    }
}

} // verus!
