//! The spectral form of the bootstrapping key and the fixed hardware address
//! map of the transformed key image.
//!
//! The hardware kernel streams the key from its ROM in an order of its own:
//! within each polynomial the coefficient stream is rotated by one position
//! (a twist-convention difference between the spectral representation and
//! the hardware convention), levels are consumed most significant first,
//! and the row/column blocks are transposed so that one logical row of the
//! key lies at each ROM address. The whole reorder is captured by one direct
//! index mapping, `sp_image_word`, which computes for every destination word
//! the exact source coefficient; `lemma_image_fetch` proves the map
//! invertible, which is what lets the device model read its key back out of
//! the transferred image.
//!
//! A spectral coefficient pair carries two fixed-point words, imaginary part
//! first. In this exact-arithmetic parameter set the spectral stand-in of a
//! key polynomial is its own coefficient stream: pair `p` carries the key
//! coefficients at positions `2p` and `2p + 1`.

use vstd::prelude::*;

use vstd::arithmetic::div_mod::lemma_fundamental_div_mod_converse;

use crate::glwe::{ggsw_wf, GgswV, Ggsw};
use crate::params::{BSK_DEPTH, BSK_IMAGE_WORDS, COEFF_PAIRS_PER_TRANSFER, GLWE_DIM, LWE_DIM,
    PBS_LEVELS, POLY_SIZE, SPECTRAL_BLOCKS, SPECTRAL_HALF, SPECTRAL_PAIRS};

verus! {

/// The fatal fault of the key-layout transformation: the transformed image
/// would not fill the fixed key buffer exactly, signalling a
/// parameter-set/accelerator-image mismatch. It must abort hardware
/// enablement, never be silently truncated or padded.
#[derive(Clone, Copy, Debug, PartialEq, Eq, Structural)]
pub enum LayoutError {
    SizeMismatch,
}

/// One spectral coefficient of the bootstrapping key: two fixed-point words.
#[derive(Clone, Copy)]
pub struct SpectralPair {
    pub im: u64,
    pub re: u64,
}

/// The bootstrapping key in spectral form: the flat coefficient-pair stream,
/// ordered by key bit, then decomposition level, then row, then column, then
/// position inside the polynomial.
pub struct SpectralKey {
    pub pairs: Vec<SpectralPair>,
}

/// A well-formed bootstrapping key: one GGSW per LWE key bit.
pub open spec fn bsk_wf(bsk: Seq<GgswV>) -> bool {
    &&& bsk.len() == LWE_DIM
    &&& forall|i: int| 0 <= i < bsk.len() ==> ggsw_wf(#[trigger] bsk[i])
}

/// The coefficient of a bootstrapping key at position `c` of its flat
/// stream: position inside the polynomial varies fastest, then column, then
/// row, then level, then key bit.
pub open spec fn sp_ggsw_coeff(bsk: Seq<GgswV>, c: int) -> u32 {
    let x = c % (POLY_SIZE as int);
    let q = c / (POLY_SIZE as int);
    let col = q % ((GLWE_DIM + 1) as int);
    let q2 = q / ((GLWE_DIM + 1) as int);
    let row = q2 % ((GLWE_DIM + 1) as int);
    let q3 = q2 / ((GLWE_DIM + 1) as int);
    let lev = q3 % (PBS_LEVELS as int);
    let i = q3 / (PBS_LEVELS as int);
    let t = row * (PBS_LEVELS as int) + lev;
    if col == 0 {
        bsk[i].rows[t].mask[x]
    } else {
        bsk[i].rows[t].body[x]
    }
}

/// The spectral stand-in of a bootstrapping key: pair `p` carries the
/// stream coefficients `2p` (real word) and `2p + 1` (imaginary word).
pub open spec fn sp_spectral_pairs(bsk: Seq<GgswV>) -> Seq<SpectralPair> {
    Seq::new(SPECTRAL_PAIRS as nat, |p: int| SpectralPair {
        im: sp_ggsw_coeff(bsk, 2 * p + 1) as u64,
        re: sp_ggsw_coeff(bsk, 2 * p) as u64,
    })
}

/// The word of the transformed key image at destination index `w`: the
/// direct index mapping realizing the rotate / regroup / level-reverse /
/// transpose / flatten reorder together with the word pairing, imaginary
/// word first.
pub open spec fn sp_image_word(pairs: Seq<SpectralPair>, w: int) -> u64 {
    let e = w % 2;
    let w2 = w / 2;
    let c = w2 % (COEFF_PAIRS_PER_TRANSFER as int);
    let w3 = w2 / (COEFF_PAIRS_PER_TRANSFER as int);
    let d = w3 % (BSK_DEPTH as int);
    let w4 = w3 / (BSK_DEPTH as int);
    let blk = w4 % (SPECTRAL_BLOCKS as int);
    let gdim = w4 / (SPECTRAL_BLOCKS as int);
    let coeffpos = blk * (COEFF_PAIRS_PER_TRANSFER as int) + c;
    let srcpos = (coeffpos + 1) % (SPECTRAL_HALF as int);
    let levr = d % (PBS_LEVELS as int);
    let d2 = d / (PBS_LEVELS as int);
    let row = d2 % ((GLWE_DIM + 1) as int);
    let i = d2 / ((GLWE_DIM + 1) as int);
    let lev = PBS_LEVELS - 1 - levr;
    let q = ((i * (PBS_LEVELS as int) + lev) * ((GLWE_DIM + 1) as int) + row) * ((GLWE_DIM
        + 1) as int) + gdim;
    let p = q * (SPECTRAL_HALF as int) + srcpos;
    if e == 0 {
        pairs[p].im
    } else {
        pairs[p].re
    }
}

/// The whole transformed key image of a bootstrapping key.
pub open spec fn sp_bsk_image(bsk: Seq<GgswV>) -> Seq<u64> {
    Seq::new(BSK_IMAGE_WORDS as nat, |w: int| sp_image_word(sp_spectral_pairs(bsk), w))
}

/// The destination word index the image holds a given key coefficient at:
/// key bit `i`, GGSW row `t`, column `colsel` (mask or body), coefficient
/// position `x`.
pub open spec fn sp_fetch_index(i: int, t: int, colsel: int, x: int) -> int {
    let lev = t % (PBS_LEVELS as int);
    let row = t / (PBS_LEVELS as int);
    let levr = PBS_LEVELS - 1 - lev;
    let d = (i * ((GLWE_DIM + 1) as int) + row) * (PBS_LEVELS as int) + levr;
    let srcpos = x / 2;
    let e = if x % 2 == 1 { 0int } else { 1int };
    let coeffpos = (srcpos + SPECTRAL_HALF - 1) % (SPECTRAL_HALF as int);
    let blk = coeffpos / (COEFF_PAIRS_PER_TRANSFER as int);
    let c = coeffpos % (COEFF_PAIRS_PER_TRANSFER as int);
    (((colsel * (SPECTRAL_BLOCKS as int) + blk) * (BSK_DEPTH as int) + d) * (
    COEFF_PAIRS_PER_TRANSFER as int) + c) * 2 + e
}

/// Mathematical view of a bootstrapping key.
pub open spec fn bsk_view(b: Seq<Ggsw>) -> Seq<GgswV> {
    Seq::new(b.len(), |i: int| b[i]@)
}

/// Reads one coefficient of the flat key stream.
fn ggsw_coeff(bsk: &Vec<Ggsw>, c: usize) -> (r: u32)
    requires
        bsk_wf(bsk_view(bsk@)),
        c < 2 * SPECTRAL_PAIRS,
    ensures
        r == sp_ggsw_coeff(bsk_view(bsk@), c as int),
{
    let x = c % POLY_SIZE;
    let q = c / POLY_SIZE;
    let col = q % (GLWE_DIM + 1);
    let q2 = q / (GLWE_DIM + 1);
    let row = q2 % (GLWE_DIM + 1);
    let q3 = q2 / (GLWE_DIM + 1);
    let lev = q3 % PBS_LEVELS;
    let i = q3 / PBS_LEVELS;
    let t = row * PBS_LEVELS + lev;
    proof {
        vstd::arithmetic::div_mod::lemma_fundamental_div_mod(c as int, POLY_SIZE as int);
        vstd::arithmetic::div_mod::lemma_fundamental_div_mod(q as int, (GLWE_DIM + 1) as int);
        vstd::arithmetic::div_mod::lemma_fundamental_div_mod(q2 as int, (GLWE_DIM + 1) as int);
        vstd::arithmetic::div_mod::lemma_fundamental_div_mod(q3 as int, PBS_LEVELS as int);
        assert(q < 16 && q2 < 8 && q3 < 4 && i < 2);
        assert(bsk@.len() == LWE_DIM);
        let gv = bsk_view(bsk@)[i as int];
        assert(ggsw_wf(gv));
        assert(t < (GLWE_DIM + 1) * PBS_LEVELS);
        assert(gv.rows[t as int] == bsk@[i as int].rows@[t as int]@);
        assert(crate::glwe::glwe_wf(gv.rows[t as int]));
    }
    if col == 0 {
        bsk[i].rows[t].mask[x]
    } else {
        bsk[i].rows[t].body[x]
    }
}

/// Builds the spectral stand-in of a bootstrapping key: the coefficient
/// stream paired into fixed-point words.
pub fn spectral_of_bsk(bsk: &Vec<Ggsw>) -> (r: SpectralKey)
    requires
        bsk_wf(bsk_view(bsk@)),
    ensures
        r.pairs@ == sp_spectral_pairs(bsk_view(bsk@)),
{
    let mut pairs: Vec<SpectralPair> = Vec::new();
    let mut p: usize = 0;
    while p < SPECTRAL_PAIRS
        invariant
            bsk_wf(bsk_view(bsk@)),
            p <= SPECTRAL_PAIRS,
            pairs@.len() == p,
            forall|k: int| 0 <= k < p ==> pairs@[k] == sp_spectral_pairs(bsk_view(bsk@))[k],
        decreases SPECTRAL_PAIRS - p,
    {
        let im = ggsw_coeff(bsk, 2 * p + 1) as u64;
        let re = ggsw_coeff(bsk, 2 * p) as u64;
        pairs.push(SpectralPair { im, re });
        p += 1;
    }
    proof {
        assert(pairs@ =~= sp_spectral_pairs(bsk_view(bsk@)));
    }
    SpectralKey { pairs }
}

/// The index mapping is invertible: reading the image of a key at the fetch
/// index of a coefficient gives exactly that coefficient. The device model
/// reconstructs its key from the transferred image through this fact.
pub proof fn lemma_image_fetch(bsk: Seq<GgswV>, i: int, t: int, colsel: int, x: int)
    requires
        bsk_wf(bsk),
        0 <= i < LWE_DIM,
        0 <= t < (GLWE_DIM + 1) * PBS_LEVELS,
        0 <= colsel < GLWE_DIM + 1,
        0 <= x < POLY_SIZE,
    ensures
        0 <= sp_fetch_index(i, t, colsel, x) < BSK_IMAGE_WORDS,
        sp_image_word(sp_spectral_pairs(bsk), sp_fetch_index(i, t, colsel, x)) == (if colsel == 0 {
            bsk[i].rows[t].mask[x]
        } else {
            bsk[i].rows[t].body[x]
        }) as u64,
{
    vstd::arithmetic::div_mod::lemma_fundamental_div_mod(t, PBS_LEVELS as int);
    vstd::arithmetic::div_mod::lemma_fundamental_div_mod(x, 2);
    let lev = t % (PBS_LEVELS as int);
    let row = t / (PBS_LEVELS as int);
    let levr = PBS_LEVELS - 1 - lev;
    let d = (i * ((GLWE_DIM + 1) as int) + row) * (PBS_LEVELS as int) + levr;
    let srcpos = x / 2;
    let e = if x % 2 == 1 { 0int } else { 1int };
    let coeffpos = (srcpos + SPECTRAL_HALF - 1) % (SPECTRAL_HALF as int);
    let blk = coeffpos / (COEFF_PAIRS_PER_TRANSFER as int);
    let c = coeffpos % (COEFF_PAIRS_PER_TRANSFER as int);
    let w4 = colsel * (SPECTRAL_BLOCKS as int) + blk;
    let w3 = w4 * (BSK_DEPTH as int) + d;
    let w2 = w3 * (COEFF_PAIRS_PER_TRANSFER as int) + c;
    let w = w2 * 2 + e;
    assert(w == sp_fetch_index(i, t, colsel, x));
    assert(0 <= lev < PBS_LEVELS && 0 <= row < GLWE_DIM + 1);
    assert(0 <= coeffpos < SPECTRAL_HALF);
    assert(0 <= blk < SPECTRAL_BLOCKS && 0 <= c < COEFF_PAIRS_PER_TRANSFER);
    assert(0 <= d < BSK_DEPTH);
    assert(0 <= w4 < (GLWE_DIM + 1) * SPECTRAL_BLOCKS);
    assert(0 <= w < BSK_IMAGE_WORDS);
    // Invert the destination decomposition layer by layer.
    lemma_fundamental_div_mod_converse(w, 2, w2, e);
    lemma_fundamental_div_mod_converse(w2, COEFF_PAIRS_PER_TRANSFER as int, w3, c);
    lemma_fundamental_div_mod_converse(w3, BSK_DEPTH as int, w4, d);
    lemma_fundamental_div_mod_converse(w4, SPECTRAL_BLOCKS as int, colsel, blk);
    lemma_fundamental_div_mod_converse(d, PBS_LEVELS as int, i * ((GLWE_DIM + 1) as int) + row,
        levr);
    lemma_fundamental_div_mod_converse(i * ((GLWE_DIM + 1) as int) + row, (GLWE_DIM + 1) as int,
        i, row);
    assert(blk * (COEFF_PAIRS_PER_TRANSFER as int) + c == coeffpos);
    assert((coeffpos + 1) % (SPECTRAL_HALF as int) == srcpos);
    // The image word therefore reads spectral pair `p` below.
    let q = ((i * (PBS_LEVELS as int) + lev) * ((GLWE_DIM + 1) as int) + row) * ((GLWE_DIM
        + 1) as int) + colsel;
    let p = q * (SPECTRAL_HALF as int) + srcpos;
    assert(0 <= q < LWE_DIM * PBS_LEVELS * (GLWE_DIM + 1) * (GLWE_DIM + 1));
    assert(0 <= p < SPECTRAL_PAIRS);
    assert(sp_image_word(sp_spectral_pairs(bsk), w) == (if e == 0 {
        sp_spectral_pairs(bsk)[p].im
    } else {
        sp_spectral_pairs(bsk)[p].re
    }));
    // The spectral pair in turn carries the stream coefficient `cidx`.
    let cidx = 2 * p + (if e == 0 { 1int } else { 0int });
    assert(cidx == q * (POLY_SIZE as int) + x);
    // Decode the stream coefficient back to the logical coordinates.
    lemma_fundamental_div_mod_converse(cidx, POLY_SIZE as int, q, x);
    let q2 = (i * (PBS_LEVELS as int) + lev) * ((GLWE_DIM + 1) as int) + row;
    lemma_fundamental_div_mod_converse(q, (GLWE_DIM + 1) as int, q2, colsel);
    lemma_fundamental_div_mod_converse(q2, (GLWE_DIM + 1) as int, i * (PBS_LEVELS as int) + lev,
        row);
    lemma_fundamental_div_mod_converse(i * (PBS_LEVELS as int) + lev, PBS_LEVELS as int, i, lev);
    assert(sp_ggsw_coeff(bsk, cidx) == (if colsel == 0 {
        bsk[i].rows[t].mask[x]
    } else {
        bsk[i].rows[t].body[x]
    }));
}

} // verus!
