//! LWE samples and the public ciphertext type.
//!
//! An LWE sample is a mask vector together with a body value; its phase
//! (body minus the dot product of mask and secret key) hides one plaintext
//! bit, encoded as plus or minus an eighth of the working modulus. A
//! ciphertext is either such a sample or a trivial (unencrypted) bit, on
//! which gates are free.

use vstd::prelude::*;

use crate::params::{LWE_DIM, MOD_LOG2, PLAINTEXT_EIGHTH};

verus! {

/// An LWE sample: mask, body, and the tag of the modulus it lives under.
pub struct LweSample {
    pub mask: Vec<u32>,
    pub body: u32,
    pub modulus_log2: u32,
}

/// Mathematical view of an LWE sample.
pub struct LweV {
    pub mask: Seq<u32>,
    pub body: u32,
    pub modulus_log2: u32,
}

impl View for LweSample {
    type V = LweV;

    open spec fn view(&self) -> LweV {
        LweV { mask: self.mask@, body: self.body, modulus_log2: self.modulus_log2 }
    }
}

/// An LWE sample of the given dimension is well formed when its modulus is
/// the scheme-wide working modulus; a sample under any other modulus must
/// never enter a gate.
pub open spec fn lwe_wf(s: LweV, dim: int) -> bool {
    &&& s.mask.len() == dim
    &&& s.modulus_log2 == MOD_LOG2
}

/// A boolean ciphertext: either an unencrypted bit or an LWE sample under
/// the working modulus.
pub enum Ciphertext {
    Trivial(bool),
    Encrypted(LweSample),
}

/// Mathematical view of a ciphertext.
pub enum CiphertextV {
    Trivial(bool),
    Encrypted(LweV),
}

impl View for Ciphertext {
    type V = CiphertextV;

    open spec fn view(&self) -> CiphertextV {
        match self {
            Ciphertext::Trivial(b) => CiphertextV::Trivial(*b),
            Ciphertext::Encrypted(s) => CiphertextV::Encrypted(s@),
        }
    }
}

pub open spec fn ct_wf(c: CiphertextV) -> bool {
    match c {
        CiphertextV::Trivial(_) => true,
        CiphertextV::Encrypted(s) => lwe_wf(s, LWE_DIM as int),
    }
}

impl Ciphertext {
    pub open spec fn wf(&self) -> bool {
        ct_wf(self@)
    }
}

/// Plaintext encoding of a bit: `true` maps to an eighth of the modulus,
/// `false` to its negation.
pub open spec fn sp_encode(b: bool) -> u32 {
    if b {
        PLAINTEXT_EIGHTH
    } else {
        0u32.wrapping_sub(PLAINTEXT_EIGHTH)
    }
}

/// Decoding of a phase value: bits decode by the half of the modulus the
/// phase falls in, so both encodings tolerate the small exact drift that
/// bootstrapping introduces.
pub open spec fn sp_decode(phase: u32) -> bool {
    phase < 0x8000_0000u32
}

/// Partial dot product of a mask with a secret key, over the first `j`
/// positions, modulo the working modulus.
pub open spec fn sp_dot_partial(mask: Seq<u32>, key: Seq<u32>, j: int) -> u32
    decreases j,
{
    if j <= 0 {
        0u32
    } else {
        sp_dot_partial(mask, key, j - 1).wrapping_add(mask[j - 1].wrapping_mul(key[j - 1]))
    }
}

/// The phase of an LWE sample under a secret key: body minus the mask/key
/// dot product. With exact (noiseless) encryptions the phase is exactly the
/// encoded plaintext.
pub open spec fn sp_phase(s: LweV, key: Seq<u32>) -> u32 {
    s.body.wrapping_sub(sp_dot_partial(s.mask, key, s.mask.len() as int))
}

/// Dot product of a mask with a secret key of the same length.
pub fn lwe_dot(mask: &Vec<u32>, key: &Vec<u32>) -> (r: u32)
    requires
        mask@.len() == key@.len(),
    ensures
        r == sp_dot_partial(mask@, key@, mask@.len() as int),
{
    let mut acc: u32 = 0;
    let mut j: usize = 0;
    while j < mask.len()
        invariant
            mask@.len() == key@.len(),
            j <= mask@.len(),
            acc == sp_dot_partial(mask@, key@, j as int),
        decreases mask@.len() - j,
    {
        acc = acc.wrapping_add(mask[j].wrapping_mul(key[j]));
        j += 1;
    }
    acc
}

/// The all-zero LWE sample of dimension `LWE_DIM` with the given body: the
/// trivial sample whose phase equals its body under every key.
pub fn lwe_trivial(body: u32) -> (r: LweSample)
    ensures
        r@.mask == Seq::new(LWE_DIM as nat, |i: int| 0u32),
        r@.body == body,
        r@.modulus_log2 == MOD_LOG2,
        lwe_wf(r@, LWE_DIM as int),
{
    let mut mask: Vec<u32> = Vec::new();
    let mut i: usize = 0;
    while i < LWE_DIM
        invariant
            i <= LWE_DIM,
            mask@.len() == i,
            forall|k: int| 0 <= k < i ==> mask@[k] == 0u32,
        decreases LWE_DIM - i,
    {
        mask.push(0);
        i += 1;
    }
    proof {
        assert(mask@ =~= Seq::new(LWE_DIM as nat, |i: int| 0u32));
    }
    LweSample { mask, body, modulus_log2: MOD_LOG2 }
}

/// The LWE sample a ciphertext stands for: an encrypted ciphertext is its
/// own sample; a trivial bit is the zero-mask sample whose body is the
/// bit's plaintext encoding.
pub open spec fn sp_ct_as_lwe(c: CiphertextV) -> LweV {
    match c {
        CiphertextV::Trivial(b) => LweV {
            mask: Seq::new(LWE_DIM as nat, |i: int| 0u32),
            body: sp_encode(b),
            modulus_log2: MOD_LOG2,
        },
        CiphertextV::Encrypted(s) => s,
    }
}

/// An exact copy of a ciphertext.
pub fn ct_dup(c: &Ciphertext) -> (r: Ciphertext)
    ensures
        r@ == c@,
{
    match c {
        Ciphertext::Trivial(b) => Ciphertext::Trivial(*b),
        Ciphertext::Encrypted(s) => Ciphertext::Encrypted(LweSample {
            mask: s.mask.clone(),
            body: s.body,
            modulus_log2: s.modulus_log2,
        }),
    }
}

/// Materializes the LWE sample a ciphertext stands for.
pub fn ct_as_lwe(c: &Ciphertext) -> (r: LweSample)
    requires
        c.wf(),
    ensures
        r@ == sp_ct_as_lwe(c@),
        lwe_wf(r@, LWE_DIM as int),
{
    match c {
        Ciphertext::Trivial(b) => {
            let body = if *b {
                PLAINTEXT_EIGHTH
            } else {
                0u32.wrapping_sub(PLAINTEXT_EIGHTH)
            };
            lwe_trivial(body)
        },
        Ciphertext::Encrypted(s) => LweSample {
            mask: s.mask.clone(),
            body: s.body,
            modulus_log2: s.modulus_log2,
        },
    }
}

} // verus!
