//! Sample extraction: deriving a fresh LWE sample from one coefficient of a
//! GLWE accumulator.
//!
//! The extraction index ranges over twice the ring degree. An index in the
//! upper half names the negation of the coefficient in the lower half — the
//! ring's anti-cyclic symmetry — so the body is complemented there, and the
//! extracted mask is built by reversing each mask polynomial and multiplying
//! by the monic monomial of degree `index + POLY_SIZE + 1`, which realizes
//! the matching sign rule for the mask coefficients.

use vstd::prelude::*;

use crate::glwe::{glwe_wf, GlweV, GlweCt};
use crate::lwe::{lwe_wf, LweSample, LweV};
use crate::params::{EXT_LWE_DIM, LUT_DOMAIN, MOD_LOG2, POLY_SIZE};
use crate::poly::{poly_monomial_mul, poly_reverse, sp_monomial_mul, sp_poly_reverse};

verus! {

/// The LWE sample extracted from coefficient `nth` (taken modulo twice the
/// ring degree) of a GLWE ciphertext.
pub open spec fn sp_extract(c: GlweV, nth: int) -> LweV {
    let n2 = nth % (LUT_DOMAIN as int);
    let body = if n2 >= POLY_SIZE {
        0xFFFF_FFFFu32.wrapping_sub(c.body[n2 - POLY_SIZE])
    } else {
        c.body[n2]
    };
    LweV {
        mask: sp_monomial_mul(sp_poly_reverse(c.mask), n2 + POLY_SIZE + 1),
        body,
        modulus_log2: MOD_LOG2,
    }
}

pub fn extract_sample(c: &GlweCt, nth: usize) -> (r: LweSample)
    requires
        glwe_wf(c@),
    ensures
        r@ == sp_extract(c@, nth as int),
        lwe_wf(r@, EXT_LWE_DIM as int),
{
    let n2 = nth % LUT_DOMAIN;
    let body = if n2 >= POLY_SIZE {
        0xFFFF_FFFFu32.wrapping_sub(c.body[n2 - POLY_SIZE])
    } else {
        c.body[n2]
    };
    let reversed = poly_reverse(&c.mask);
    let mask = poly_monomial_mul(&reversed, n2 + POLY_SIZE + 1);
    LweSample { mask, body, modulus_log2: MOD_LOG2 }
}

} // verus!
