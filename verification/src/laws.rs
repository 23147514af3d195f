//! Library-wide laws: properties relating encryption, decryption and the
//! gates, stated over the same spec functions the public contracts use.

use vstd::prelude::*;

use crate::client::{lemma_encode_decode, sp_decrypt};
use crate::gates::{sp_combo_coeff, sp_ct_not, sp_gate_offset, sp_gate_one, sp_gate_truth,
    sp_lin_combo, Gate};
use crate::glwe::GgswV;
use crate::lwe::{sp_decode, sp_dot_partial, sp_encode, sp_phase, CiphertextV, LweV};

verus! {

/// A gate on two trivial ciphertexts is its truth table, computed
/// locally: no key material is consulted and no bootstrap happens.
pub proof fn lemma_trivial_gate_truth(g: Gate, a: bool, b: bool, bskv: Seq<GgswV>,
    kv: Seq<Seq<LweV>>)
    ensures
        sp_gate_one(g, CiphertextV::Trivial(a), CiphertextV::Trivial(b), bskv, kv)
            == CiphertextV::Trivial(sp_gate_truth(g, a, b)),
{
}

/// A sample whose phase is the encoding of a bit decrypts to that bit: with
/// the phase guarantee of `ClientKey::encrypt` this is the encrypt/decrypt
/// round trip.
pub proof fn lemma_fresh_sample_decrypts(s: LweV, key: Seq<u32>, b: bool)
    requires
        sp_phase(s, key) == sp_encode(b),
    ensures
        sp_decrypt(CiphertextV::Encrypted(s), key) == b,
{
    lemma_encode_decode(b);
}

/// The coefficient transform of a gate commutes with the mask/key dot
/// product: the dot product of a combined mask is the transform of the two
/// operand dot products.
proof fn lemma_dot_combo(g: Gate, lm: Seq<u32>, rm: Seq<u32>, key: Seq<u32>, j: int)
    requires
        lm.len() == rm.len(),
        j <= lm.len(),
    ensures
        sp_dot_partial(Seq::new(lm.len(), |i: int| sp_combo_coeff(g, lm[i], rm[i])), key, j)
            == sp_combo_coeff(g, sp_dot_partial(lm, key, j), sp_dot_partial(rm, key, j)),
    decreases j,
{
    let cm = Seq::new(lm.len(), |i: int| sp_combo_coeff(g, lm[i], rm[i]));
    if j <= 0 {
        assert(0u32.wrapping_sub(0u32.wrapping_add(0u32)) == 0u32) by (bit_vector);
        assert(0u32.wrapping_add(0u32).wrapping_add(0u32.wrapping_add(0u32)) == 0u32)
            by (bit_vector);
        assert(0u32.wrapping_sub(0u32.wrapping_add(0u32).wrapping_add(0u32.wrapping_add(
            0u32))) == 0u32) by (bit_vector);
    } else {
        lemma_dot_combo(g, lm, rm, key, j - 1);
        let pl = sp_dot_partial(lm, key, j - 1);
        let pr = sp_dot_partial(rm, key, j - 1);
        let a = lm[j - 1];
        let b = rm[j - 1];
        let k = key[j - 1];
        assert(cm[j - 1] == sp_combo_coeff(g, a, b));
        match g {
            Gate::And | Gate::Or => {
                assert(pl.wrapping_add(pr).wrapping_add(a.wrapping_add(b).wrapping_mul(k))
                    == pl.wrapping_add(a.wrapping_mul(k)).wrapping_add(pr.wrapping_add(
                    b.wrapping_mul(k)))) by (bit_vector);
            },
            Gate::Nand | Gate::Nor => {
                assert(0u32.wrapping_sub(pl.wrapping_add(pr)).wrapping_add(0u32.wrapping_sub(
                    a.wrapping_add(b)).wrapping_mul(k)) == 0u32.wrapping_sub(pl.wrapping_add(
                    a.wrapping_mul(k)).wrapping_add(pr.wrapping_add(b.wrapping_mul(k)))))
                    by (bit_vector);
            },
            Gate::Xor => {
                assert(pl.wrapping_add(pr).wrapping_add(pl.wrapping_add(pr)).wrapping_add(
                    a.wrapping_add(b).wrapping_add(a.wrapping_add(b)).wrapping_mul(k))
                    == pl.wrapping_add(a.wrapping_mul(k)).wrapping_add(pr.wrapping_add(
                    b.wrapping_mul(k))).wrapping_add(pl.wrapping_add(a.wrapping_mul(
                    k)).wrapping_add(pr.wrapping_add(b.wrapping_mul(k))))) by (bit_vector);
            },
            Gate::Xnor => {
                assert(0u32.wrapping_sub(pl.wrapping_add(pr).wrapping_add(pl.wrapping_add(
                    pr))).wrapping_add(0u32.wrapping_sub(a.wrapping_add(b).wrapping_add(
                    a.wrapping_add(b))).wrapping_mul(k)) == 0u32.wrapping_sub(
                    pl.wrapping_add(a.wrapping_mul(k)).wrapping_add(pr.wrapping_add(
                    b.wrapping_mul(k))).wrapping_add(pl.wrapping_add(a.wrapping_mul(
                    k)).wrapping_add(pr.wrapping_add(b.wrapping_mul(k)))))) by (bit_vector);
            },
        }
    }
}

/// A gate's linear combination acts on phases exactly as it acts on
/// plaintexts: the phase of the combined sample is the per-gate coefficient
/// transform of the two operand phases plus the per-gate constant offset.
/// This is the defining plaintext-space combination each binary gate feeds
/// into bootstrapping.
pub proof fn lemma_lin_combo_phase(g: Gate, l: LweV, r: LweV, key: Seq<u32>)
    requires
        l.mask.len() == r.mask.len(),
    ensures
        sp_phase(sp_lin_combo(g, l, r), key) == sp_combo_coeff(g, sp_phase(l, key),
            sp_phase(r, key)).wrapping_add(sp_gate_offset(g)),
{
    let len = l.mask.len() as int;
    lemma_dot_combo(g, l.mask, r.mask, key, len);
    assert(sp_lin_combo(g, l, r).mask =~= Seq::new(l.mask.len(), |i: int| sp_combo_coeff(g,
        l.mask[i], r.mask[i])));
    let bl = l.body;
    let br = r.body;
    let dl = sp_dot_partial(l.mask, key, len);
    let dr = sp_dot_partial(r.mask, key, len);
    let o = sp_gate_offset(g);
    match g {
        Gate::And | Gate::Or => {
            assert(bl.wrapping_add(br).wrapping_add(o).wrapping_sub(dl.wrapping_add(dr))
                == bl.wrapping_sub(dl).wrapping_add(br.wrapping_sub(dr)).wrapping_add(o))
                by (bit_vector);
        },
        Gate::Nand | Gate::Nor => {
            assert(0u32.wrapping_sub(bl.wrapping_add(br)).wrapping_add(o).wrapping_sub(
                0u32.wrapping_sub(dl.wrapping_add(dr))) == 0u32.wrapping_sub(
                bl.wrapping_sub(dl).wrapping_add(br.wrapping_sub(dr))).wrapping_add(o))
                by (bit_vector);
        },
        Gate::Xor => {
            assert(bl.wrapping_add(br).wrapping_add(bl.wrapping_add(br)).wrapping_add(
                o).wrapping_sub(dl.wrapping_add(dr).wrapping_add(dl.wrapping_add(dr)))
                == bl.wrapping_sub(dl).wrapping_add(br.wrapping_sub(dr)).wrapping_add(
                bl.wrapping_sub(dl).wrapping_add(br.wrapping_sub(dr))).wrapping_add(o))
                by (bit_vector);
        },
        Gate::Xnor => {
            assert(0u32.wrapping_sub(bl.wrapping_add(br).wrapping_add(bl.wrapping_add(
                br))).wrapping_add(o).wrapping_sub(0u32.wrapping_sub(dl.wrapping_add(
                dr).wrapping_add(dl.wrapping_add(dr)))) == 0u32.wrapping_sub(
                bl.wrapping_sub(dl).wrapping_add(br.wrapping_sub(dr)).wrapping_add(
                bl.wrapping_sub(dl).wrapping_add(br.wrapping_sub(dr)))).wrapping_add(o))
                by (bit_vector);
        },
    }
}

/// Whether a phase is within `tol` of the encoding of a bit, in wrapping
/// distance: fresh encryptions encode exactly, and the exact-arithmetic
/// bootstrap returns encodings off by at most one.
pub open spec fn sp_encodes_within(phase: u32, bit: bool, tol: u32) -> bool {
    let d = phase.wrapping_sub(sp_encode(bit));
    d < tol || d > 0u32.wrapping_sub(tol)
}

/// The sign of a combination's phase follows the truth table: when both
/// operand phases are within a small tolerance of bit encodings, the
/// combined phase decodes to the truth table of those bits. This is the
/// plaintext-space half of the decrypt law; bootstrapping the combination
/// evaluates exactly this sign.
pub proof fn lemma_combo_phase_truth(g: Gate, l: LweV, r: LweV, key: Seq<u32>, a: bool,
    b: bool)
    requires
        l.mask.len() == r.mask.len(),
        sp_encodes_within(sp_phase(l, key), a, 16),
        sp_encodes_within(sp_phase(r, key), b, 16),
    ensures
        sp_decode(sp_phase(sp_lin_combo(g, l, r), key)) == sp_gate_truth(g, a, b),
{
    lemma_lin_combo_phase(g, l, r, key);
    let pl = sp_phase(l, key);
    let pr = sp_phase(r, key);
    if a && b {
        assert({
            &&& pl.wrapping_add(pr).wrapping_add(0u32.wrapping_sub(0x2000_0000u32))
                < 0x8000_0000u32
            &&& pl.wrapping_add(pr).wrapping_add(0x2000_0000u32) < 0x8000_0000u32
            &&& !(pl.wrapping_add(pr).wrapping_add(pl.wrapping_add(pr)).wrapping_add(
                0x2000_0000u32.wrapping_add(0x2000_0000u32)) < 0x8000_0000u32)
            &&& !(0u32.wrapping_sub(pl.wrapping_add(pr)).wrapping_add(0x2000_0000u32)
                < 0x8000_0000u32)
            &&& !(0u32.wrapping_sub(pl.wrapping_add(pr)).wrapping_add(0u32.wrapping_sub(
                0x2000_0000u32)) < 0x8000_0000u32)
            &&& 0u32.wrapping_sub(pl.wrapping_add(pr).wrapping_add(pl.wrapping_add(
                pr))).wrapping_add(0u32.wrapping_sub(0x2000_0000u32.wrapping_add(
                0x2000_0000u32))) < 0x8000_0000u32
        }) by (bit_vector)
            requires
                pl.wrapping_sub(0x2000_0000u32) < 16u32 || pl.wrapping_sub(0x2000_0000u32)
                    > 0u32.wrapping_sub(16u32),
                pr.wrapping_sub(0x2000_0000u32) < 16u32 || pr.wrapping_sub(0x2000_0000u32)
                    > 0u32.wrapping_sub(16u32),
        ;
    } else if a && !b {
        assert({
            &&& !(pl.wrapping_add(pr).wrapping_add(0u32.wrapping_sub(0x2000_0000u32))
                < 0x8000_0000u32)
            &&& pl.wrapping_add(pr).wrapping_add(0x2000_0000u32) < 0x8000_0000u32
            &&& pl.wrapping_add(pr).wrapping_add(pl.wrapping_add(pr)).wrapping_add(
                0x2000_0000u32.wrapping_add(0x2000_0000u32)) < 0x8000_0000u32
            &&& 0u32.wrapping_sub(pl.wrapping_add(pr)).wrapping_add(0x2000_0000u32)
                < 0x8000_0000u32
            &&& !(0u32.wrapping_sub(pl.wrapping_add(pr)).wrapping_add(0u32.wrapping_sub(
                0x2000_0000u32)) < 0x8000_0000u32)
            &&& !(0u32.wrapping_sub(pl.wrapping_add(pr).wrapping_add(pl.wrapping_add(
                pr))).wrapping_add(0u32.wrapping_sub(0x2000_0000u32.wrapping_add(
                0x2000_0000u32))) < 0x8000_0000u32)
        }) by (bit_vector)
            requires
                pl.wrapping_sub(0x2000_0000u32) < 16u32 || pl.wrapping_sub(0x2000_0000u32)
                    > 0u32.wrapping_sub(16u32),
                pr.wrapping_sub(0xE000_0000u32) < 16u32 || pr.wrapping_sub(0xE000_0000u32)
                    > 0u32.wrapping_sub(16u32),
        ;
    } else if !a && b {
        assert({
            &&& !(pl.wrapping_add(pr).wrapping_add(0u32.wrapping_sub(0x2000_0000u32))
                < 0x8000_0000u32)
            &&& pl.wrapping_add(pr).wrapping_add(0x2000_0000u32) < 0x8000_0000u32
            &&& pl.wrapping_add(pr).wrapping_add(pl.wrapping_add(pr)).wrapping_add(
                0x2000_0000u32.wrapping_add(0x2000_0000u32)) < 0x8000_0000u32
            &&& 0u32.wrapping_sub(pl.wrapping_add(pr)).wrapping_add(0x2000_0000u32)
                < 0x8000_0000u32
            &&& !(0u32.wrapping_sub(pl.wrapping_add(pr)).wrapping_add(0u32.wrapping_sub(
                0x2000_0000u32)) < 0x8000_0000u32)
            &&& !(0u32.wrapping_sub(pl.wrapping_add(pr).wrapping_add(pl.wrapping_add(
                pr))).wrapping_add(0u32.wrapping_sub(0x2000_0000u32.wrapping_add(
                0x2000_0000u32))) < 0x8000_0000u32)
        }) by (bit_vector)
            requires
                pl.wrapping_sub(0xE000_0000u32) < 16u32 || pl.wrapping_sub(0xE000_0000u32)
                    > 0u32.wrapping_sub(16u32),
                pr.wrapping_sub(0x2000_0000u32) < 16u32 || pr.wrapping_sub(0x2000_0000u32)
                    > 0u32.wrapping_sub(16u32),
        ;
    } else {
        assert({
            &&& !(pl.wrapping_add(pr).wrapping_add(0u32.wrapping_sub(0x2000_0000u32))
                < 0x8000_0000u32)
            &&& !(pl.wrapping_add(pr).wrapping_add(0x2000_0000u32) < 0x8000_0000u32)
            &&& !(pl.wrapping_add(pr).wrapping_add(pl.wrapping_add(pr)).wrapping_add(
                0x2000_0000u32.wrapping_add(0x2000_0000u32)) < 0x8000_0000u32)
            &&& 0u32.wrapping_sub(pl.wrapping_add(pr)).wrapping_add(0x2000_0000u32)
                < 0x8000_0000u32
            &&& 0u32.wrapping_sub(pl.wrapping_add(pr)).wrapping_add(0u32.wrapping_sub(
                0x2000_0000u32)) < 0x8000_0000u32
            &&& 0u32.wrapping_sub(pl.wrapping_add(pr).wrapping_add(pl.wrapping_add(
                pr))).wrapping_add(0u32.wrapping_sub(0x2000_0000u32.wrapping_add(
                0x2000_0000u32))) < 0x8000_0000u32
        }) by (bit_vector)
            requires
                pl.wrapping_sub(0xE000_0000u32) < 16u32 || pl.wrapping_sub(0xE000_0000u32)
                    > 0u32.wrapping_sub(16u32),
                pr.wrapping_sub(0xE000_0000u32) < 16u32 || pr.wrapping_sub(0xE000_0000u32)
                    > 0u32.wrapping_sub(16u32),
        ;
    }
}

/// Negating every coefficient of a mask negates its dot product with any
/// key, modulo the working modulus.
proof fn lemma_dot_neg(mask: Seq<u32>, key: Seq<u32>, j: int)
    requires
        j <= mask.len(),
    ensures
        sp_dot_partial(Seq::new(mask.len(), |i: int| 0u32.wrapping_sub(mask[i])), key, j)
            == 0u32.wrapping_sub(sp_dot_partial(mask, key, j)),
    decreases j,
{
    let neg = Seq::new(mask.len(), |i: int| 0u32.wrapping_sub(mask[i]));
    if j <= 0 {
    } else {
        lemma_dot_neg(mask, key, j - 1);
        let p = sp_dot_partial(mask, key, j - 1);
        let m = mask[j - 1];
        let k = key[j - 1];
        assert(0u32.wrapping_sub(m).wrapping_mul(k) == 0u32.wrapping_sub(m.wrapping_mul(k)))
            by (bit_vector);
        assert(0u32.wrapping_sub(p).wrapping_add(0u32.wrapping_sub(m.wrapping_mul(k)))
            == 0u32.wrapping_sub(p.wrapping_add(m.wrapping_mul(k)))) by (bit_vector);
    }
}

/// The homomorphic NOT decrypts to the complement: negating a sample
/// negates its phase, and the two encodings are each other's negations up
/// to the decoding threshold. Together with the phase guarantee of
/// `ClientKey::encrypt`, decrypting the NOT of a fresh encryption of `b`
/// gives `!b`.
pub proof fn lemma_not_decrypts(s: LweV, key: Seq<u32>, b: bool)
    requires
        sp_phase(s, key) == sp_encode(b),
    ensures
        sp_decrypt(sp_ct_not(CiphertextV::Encrypted(s)), key) == !b,
{
    let neg = sp_ct_not(CiphertextV::Encrypted(s))->Encrypted_0;
    lemma_dot_neg(s.mask, key, s.mask.len() as int);
    let d = sp_dot_partial(s.mask, key, s.mask.len() as int);
    let bo = s.body;
    assert(0u32.wrapping_sub(bo).wrapping_sub(0u32.wrapping_sub(d)) == 0u32.wrapping_sub(
        bo.wrapping_sub(d))) by (bit_vector);
    assert(sp_phase(neg, key) == 0u32.wrapping_sub(sp_encode(b)));
    assert(sp_decode(0u32.wrapping_sub(sp_encode(b))) == !b);
}

} // verus!
