//! GLWE ciphertexts, the gadget-decomposed external product, and blind
//! rotation: the accumulator side of programmable bootstrapping.
//!
//! Because the decomposition covers the whole working modulus
//! (`PBS_LEVELS * PBS_BASE_LOG == MOD_LOG2`), every external product is
//! exact: recomposing the digits gives back the decomposed value with no
//! rounding term.

use vstd::prelude::*;

use crate::params::{GLWE_DIM, LWE_DIM, MOD_LOG2, PBS_BASE_LOG, PBS_DIGIT_MASK, PBS_LEVELS,
    PLAINTEXT_EIGHTH};
use crate::poly::{poly_add, poly_const, poly_monomial_mul, poly_mul, poly_sub, poly_wf,
    poly_zero, sp_poly_add, sp_poly_const, sp_poly_mul, sp_poly_sub, sp_poly_zero,
    sp_monomial_mul};

verus! {

/// A GLWE ciphertext over the negacyclic ring: one mask polynomial (the
/// GLWE dimension of the parameter set is one) and one body polynomial.
pub struct GlweCt {
    pub mask: Vec<u32>,
    pub body: Vec<u32>,
}

/// Mathematical view of a GLWE ciphertext.
pub struct GlweV {
    pub mask: Seq<u32>,
    pub body: Seq<u32>,
}

impl View for GlweCt {
    type V = GlweV;

    open spec fn view(&self) -> GlweV {
        GlweV { mask: self.mask@, body: self.body@ }
    }
}

pub open spec fn glwe_wf(c: GlweV) -> bool {
    &&& poly_wf(c.mask)
    &&& poly_wf(c.body)
}

/// Number of rows of a GGSW ciphertext: one block of `PBS_LEVELS` rows per
/// GLWE component.
pub open spec fn ggsw_rows() -> int {
    (GLWE_DIM + 1) * PBS_LEVELS
}

/// A GGSW ciphertext: the bootstrapping key holds one per LWE key bit. Row
/// `t` is a GLWE row for component `t / PBS_LEVELS` at decomposition level
/// `t % PBS_LEVELS`.
pub struct Ggsw {
    pub rows: Vec<GlweCt>,
}

/// Mathematical view of a GGSW ciphertext.
pub struct GgswV {
    pub rows: Seq<GlweV>,
}

impl View for Ggsw {
    type V = GgswV;

    open spec fn view(&self) -> GgswV {
        GgswV { rows: Seq::new(self.rows@.len(), |i: int| self.rows@[i]@) }
    }
}

pub open spec fn ggsw_wf(g: GgswV) -> bool {
    &&& g.rows.len() == ggsw_rows()
    &&& forall|t: int| 0 <= t < g.rows.len() ==> glwe_wf(#[trigger] g.rows[t])
}

/// Digit of a coefficient at the given decomposition level, most significant
/// level first.
pub open spec fn sp_digit(v: u32, level: int) -> u32 {
    (v >> ((MOD_LOG2 - PBS_BASE_LOG * ((level + 1) as u32)) as u32)) & PBS_DIGIT_MASK
}

/// Digit polynomial: the decomposition applied to every coefficient.
pub open spec fn sp_digit_poly(p: Seq<u32>, level: int) -> Seq<u32> {
    Seq::new(p.len(), |i: int| sp_digit(p[i], level))
}

pub fn digit_poly(p: &Vec<u32>, level: usize) -> (r: Vec<u32>)
    requires
        poly_wf(p@),
        level < PBS_LEVELS,
    ensures
        r@ == sp_digit_poly(p@, level as int),
{
    let shift: u32 = MOD_LOG2 - PBS_BASE_LOG * (level as u32 + 1);
    let mask: u32 = PBS_DIGIT_MASK;
    let mut r: Vec<u32> = Vec::new();
    let mut i: usize = 0;
    while i < p.len()
        invariant
            poly_wf(p@),
            level < PBS_LEVELS,
            shift == (MOD_LOG2 - PBS_BASE_LOG * ((level + 1) as u32)) as u32,
            mask == PBS_DIGIT_MASK,
            i <= p@.len(),
            r@.len() == i,
            forall|k: int| 0 <= k < i ==> r@[k] == sp_digit(p@[k], level as int),
        decreases p@.len() - i,
    {
        r.push((p[i] >> shift) & mask);
        i += 1;
    }
    proof {
        assert(r@ =~= sp_digit_poly(p@, level as int));
    }
    r
}

/// Component-wise sum of two GLWE ciphertexts.
pub open spec fn sp_glwe_add(x: GlweV, y: GlweV) -> GlweV {
    GlweV { mask: sp_poly_add(x.mask, y.mask), body: sp_poly_add(x.body, y.body) }
}

/// Component-wise difference of two GLWE ciphertexts.
pub open spec fn sp_glwe_sub(x: GlweV, y: GlweV) -> GlweV {
    GlweV { mask: sp_poly_sub(x.mask, y.mask), body: sp_poly_sub(x.body, y.body) }
}

/// Rotation of a GLWE ciphertext by the monic monomial `X^d`.
pub open spec fn sp_glwe_rotate(x: GlweV, d: int) -> GlweV {
    GlweV { mask: sp_monomial_mul(x.mask, d), body: sp_monomial_mul(x.body, d) }
}

pub fn glwe_add(x: &GlweCt, y: &GlweCt) -> (r: GlweCt)
    requires
        glwe_wf(x@),
        glwe_wf(y@),
    ensures
        r@ == sp_glwe_add(x@, y@),
        glwe_wf(r@),
{
    GlweCt { mask: poly_add(&x.mask, &y.mask), body: poly_add(&x.body, &y.body) }
}

pub fn glwe_sub(x: &GlweCt, y: &GlweCt) -> (r: GlweCt)
    requires
        glwe_wf(x@),
        glwe_wf(y@),
    ensures
        r@ == sp_glwe_sub(x@, y@),
        glwe_wf(r@),
{
    GlweCt { mask: poly_sub(&x.mask, &y.mask), body: poly_sub(&x.body, &y.body) }
}

pub fn glwe_rotate(x: &GlweCt, d: usize) -> (r: GlweCt)
    requires
        glwe_wf(x@),
    ensures
        r@ == sp_glwe_rotate(x@, d as int),
        glwe_wf(r@),
{
    GlweCt { mask: poly_monomial_mul(&x.mask, d), body: poly_monomial_mul(&x.body, d) }
}

/// The source polynomial decomposed for GGSW row `t`: rows of the first
/// block decompose the mask, rows of the second the body.
pub open spec fn sp_row_src(mask: Seq<u32>, body: Seq<u32>, t: int) -> Seq<u32> {
    if t < PBS_LEVELS {
        mask
    } else {
        body
    }
}

/// Partial external product over the first `t` GGSW rows: the running sum of
/// each row scaled by the matching digit polynomial of the operand.
pub open spec fn sp_ext_partial(g: GgswV, mask: Seq<u32>, body: Seq<u32>, t: int) -> GlweV
    decreases t,
{
    if t <= 0 {
        GlweV { mask: sp_poly_zero(), body: sp_poly_zero() }
    } else {
        let p = sp_ext_partial(g, mask, body, t - 1);
        let d = sp_digit_poly(sp_row_src(mask, body, t - 1), (t - 1) % (PBS_LEVELS as int));
        GlweV {
            mask: sp_poly_add(p.mask, sp_poly_mul(d, g.rows[t - 1].mask)),
            body: sp_poly_add(p.body, sp_poly_mul(d, g.rows[t - 1].body)),
        }
    }
}

/// External product of a GGSW ciphertext with a GLWE ciphertext: decompose
/// each operand component into digit polynomials and accumulate the GGSW
/// rows scaled by them. With the exact decomposition of this parameter set
/// the product's phase is exactly the GGSW plaintext times the operand's
/// phase.
pub open spec fn sp_external_product(g: GgswV, c: GlweV) -> GlweV {
    sp_ext_partial(g, c.mask, c.body, ggsw_rows())
}

pub fn external_product(g: &Ggsw, c: &GlweCt) -> (r: GlweCt)
    requires
        ggsw_wf(g@),
        glwe_wf(c@),
    ensures
        r@ == sp_external_product(g@, c@),
        glwe_wf(r@),
{
    let mut acc = GlweCt { mask: poly_zero(), body: poly_zero() };
    let rows = (GLWE_DIM + 1) * PBS_LEVELS;
    let mut t: usize = 0;
    while t < rows
        invariant
            ggsw_wf(g@),
            glwe_wf(c@),
            rows == ggsw_rows(),
            t <= rows,
            acc@ == sp_ext_partial(g@, c@.mask, c@.body, t as int),
            glwe_wf(acc@),
        decreases rows - t,
    {
        let src = if t < PBS_LEVELS {
            &c.mask
        } else {
            &c.body
        };
        let d = digit_poly(src, t % PBS_LEVELS);
        let row = &g.rows[t];
        proof {
            assert(g@.rows[t as int] == row@);
            assert(glwe_wf(row@));
        }
        let dm = poly_mul(&d, &row.mask);
        let db = poly_mul(&d, &row.body);
        acc = GlweCt { mask: poly_add(&acc.mask, &dm), body: poly_add(&acc.body, &db) };
        t += 1;
    }
    acc
}

/// Controlled MUX: adds to the accumulator the external product of the key
/// bit's GGSW with the difference between the rotated and the original
/// accumulator, so the result is the accumulator rotated by the amount when
/// the key bit is one and unchanged when it is zero.
pub open spec fn sp_cmux(g: GgswV, amount: int, acc: GlweV) -> GlweV {
    sp_glwe_add(acc, sp_external_product(g, sp_glwe_sub(sp_glwe_rotate(acc, amount), acc)))
}

pub fn cmux(g: &Ggsw, amount: usize, acc: &GlweCt) -> (r: GlweCt)
    requires
        ggsw_wf(g@),
        glwe_wf(acc@),
    ensures
        r@ == sp_cmux(g@, amount as int, acc@),
        glwe_wf(r@),
{
    let rotated = glwe_rotate(acc, amount);
    let diff = glwe_sub(&rotated, acc);
    let prod = external_product(g, &diff);
    glwe_add(acc, &prod)
}

/// The test vector: the lookup table of the boolean gates, the constant
/// polynomial with every coefficient an eighth of the modulus. Sample
/// extraction of any coefficient of its rotations yields the encoding of
/// the looked-up bit.
pub open spec fn sp_test_vector() -> GlweV {
    GlweV { mask: sp_poly_zero(), body: sp_poly_const(PLAINTEXT_EIGHTH) }
}

/// Blind rotation over the first `i` key bits: starting from the trivial
/// accumulator holding the test vector, one CMUX per modulus-switched mask
/// coefficient, so the accumulator ends rotated by the dot product of the
/// switched mask and the secret key.
pub open spec fn sp_blind_rotate_partial(bsk: Seq<GgswV>, amounts: Seq<u32>, i: int) -> GlweV
    decreases i,
{
    if i <= 0 {
        sp_test_vector()
    } else {
        sp_cmux(bsk[i - 1], amounts[i - 1] as int, sp_blind_rotate_partial(bsk, amounts, i - 1))
    }
}

/// Blind rotation of the test vector by the whole switched mask.
pub open spec fn sp_blind_rotate(bsk: Seq<GgswV>, amounts: Seq<u32>) -> GlweV {
    sp_blind_rotate_partial(bsk, amounts, LWE_DIM as int)
}

/// Every partial blind rotation is a well-formed GLWE ciphertext: the
/// accumulator's polynomials keep the ring degree at every step.
pub proof fn lemma_blind_rotate_partial_wf(bsk: Seq<GgswV>, amounts: Seq<u32>, i: int)
    ensures
        glwe_wf(sp_blind_rotate_partial(bsk, amounts, i)),
    decreases i,
{
    if i > 0 {
        lemma_blind_rotate_partial_wf(bsk, amounts, i - 1);
    }
}

pub fn blind_rotate(bsk: &Vec<Ggsw>, amounts: &Vec<u32>) -> (r: GlweCt)
    requires
        bsk@.len() == LWE_DIM,
        forall|i: int| 0 <= i < LWE_DIM ==> ggsw_wf(#[trigger] bsk@[i]@),
        amounts@.len() == LWE_DIM,
    ensures
        r@ == sp_blind_rotate(Seq::new(bsk@.len(), |i: int| bsk@[i]@), amounts@),
        glwe_wf(r@),
{
    let ghost bskv = Seq::new(bsk@.len(), |i: int| bsk@[i]@);
    let mut acc = GlweCt { mask: poly_zero(), body: poly_const(PLAINTEXT_EIGHTH) };
    let mut i: usize = 0;
    while i < LWE_DIM
        invariant
            bsk@.len() == LWE_DIM,
            forall|k: int| 0 <= k < LWE_DIM ==> ggsw_wf(#[trigger] bsk@[k]@),
            amounts@.len() == LWE_DIM,
            bskv == Seq::new(bsk@.len(), |k: int| bsk@[k]@),
            i <= LWE_DIM,
            acc@ == sp_blind_rotate_partial(bskv, amounts@, i as int),
            glwe_wf(acc@),
        decreases LWE_DIM - i,
    {
        acc = cmux(&bsk[i], amounts[i] as usize, &acc);
        i += 1;
    }
    acc
}

} // verus!
