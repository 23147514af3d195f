//! The client key: secret material, encryption and decryption.
//!
//! Encryption draws a fresh mask from a deterministic generator and sets the
//! body so that the sample's phase is exactly the plaintext encoding (the
//! scheme computes in exact arithmetic, so no noise term is added); the
//! contract guarantees that property, which makes the encrypt/decrypt round
//! trip provable.

use vstd::prelude::*;

use crate::lwe::{lwe_dot, sp_decode, sp_encode, sp_phase, Ciphertext, CiphertextV,
    LweSample};
use crate::params::{LWE_DIM, MOD_LOG2, POLY_SIZE};

verus! {

/// Multiplier of the linear-congruential mask generator.
pub const LCG_MUL: u64 = 6364136223846793005;

/// Increment of the linear-congruential mask generator.
pub const LCG_INC: u64 = 1442695040888963407;

/// The generator state after one step.
pub open spec fn sp_lcg_next(s: u64) -> u64 {
    s.wrapping_mul(LCG_MUL).wrapping_add(LCG_INC)
}

/// The mask word a generator state yields.
pub open spec fn sp_lcg_word(s: u64) -> u32 {
    (sp_lcg_next(s) >> 32u64) as u32
}

/// Advances the generator and returns its next word.
fn lcg_step(state: &mut u64) -> (r: u32)
    ensures
        *final(state) == sp_lcg_next(*old(state)),
        r == sp_lcg_word(*old(state)),
{
    *state = state.wrapping_mul(LCG_MUL).wrapping_add(LCG_INC);
    (*state >> 32) as u32
}

/// Subtracting one summand of a wrapping sum gives back the other.
pub proof fn lemma_wrapping_cancel(d: u32, e: u32)
    ensures
        d.wrapping_add(e).wrapping_sub(d) == e,
{
}

/// The decoding of an encoded bit is the bit: the two encodings lie strictly
/// inside opposite halves of the modulus.
pub proof fn lemma_encode_decode(b: bool)
    ensures
        sp_decode(sp_encode(b)) == b,
{
}

/// The client's secret key material, with the state of its mask generator.
pub struct ClientKey {
    pub lwe_sk: Vec<u32>,
    pub glwe_sk: Vec<u32>,
    pub rng: u64,
}

impl ClientKey {
    pub open spec fn wf(&self) -> bool {
        &&& self.lwe_sk@.len() == LWE_DIM
        &&& self.glwe_sk@.len() == POLY_SIZE
    }

    /// Generates a fresh key pair deterministically from a seed.
    pub fn new(seed: u64) -> (r: ClientKey)
        ensures
            r.wf(),
    {
        let mut state = seed;
        let mut lwe_sk: Vec<u32> = Vec::new();
        let mut i: usize = 0;
        while i < LWE_DIM
            invariant
                i <= LWE_DIM,
                lwe_sk@.len() == i,
            decreases LWE_DIM - i,
        {
            let w = lcg_step(&mut state);
            lwe_sk.push(w & 1);
            i += 1;
        }
        let mut glwe_sk: Vec<u32> = Vec::new();
        let mut j: usize = 0;
        while j < POLY_SIZE
            invariant
                j <= POLY_SIZE,
                glwe_sk@.len() == j,
            decreases POLY_SIZE - j,
        {
            let w = lcg_step(&mut state);
            glwe_sk.push(w & 1);
            j += 1;
        }
        ClientKey { lwe_sk, glwe_sk, rng: state }
    }

    /// Encrypts one bit: a fresh mask and a body that makes the phase
    /// exactly the bit's encoding.
    pub fn encrypt(&mut self, message: bool) -> (r: Ciphertext)
        requires
            old(self).wf(),
        ensures
            final(self).wf(),
            final(self).lwe_sk == old(self).lwe_sk,
            final(self).glwe_sk == old(self).glwe_sk,
            r.wf(),
            (r@ matches CiphertextV::Encrypted(s) && sp_phase(s, old(self).lwe_sk@)
                == sp_encode(message)),
    {
        let mut mask: Vec<u32> = Vec::new();
        let mut i: usize = 0;
        while i < LWE_DIM
            invariant
                old(self).wf(),
                self.lwe_sk == old(self).lwe_sk,
                self.glwe_sk == old(self).glwe_sk,
                i <= LWE_DIM,
                mask@.len() == i,
            decreases LWE_DIM - i,
        {
            let w = lcg_step(&mut self.rng);
            mask.push(w);
            i += 1;
        }
        let dot = lwe_dot(&mask, &self.lwe_sk);
        let encoding = if message {
            crate::params::PLAINTEXT_EIGHTH
        } else {
            0u32.wrapping_sub(crate::params::PLAINTEXT_EIGHTH)
        };
        let body = dot.wrapping_add(encoding);
        let sample = LweSample { mask, body, modulus_log2: MOD_LOG2 };
        proof {
            lemma_wrapping_cancel(dot, encoding);
            assert(sp_phase(sample@, old(self).lwe_sk@) == sp_encode(message));
        }
        Ciphertext::Encrypted(sample)
    }

    /// Decrypts a ciphertext to the bit its phase decodes to.
    pub fn decrypt(&self, ct: &Ciphertext) -> (r: bool)
        requires
            self.wf(),
            ct.wf(),
        ensures
            r == sp_decrypt(ct@, self.lwe_sk@),
    {
        match ct {
            Ciphertext::Trivial(b) => *b,
            Ciphertext::Encrypted(s) => {
                let dot = lwe_dot(&s.mask, &self.lwe_sk);
                let phase = s.body.wrapping_sub(dot);
                phase < 0x8000_0000
            },
        }
    }
}

/// The bit a ciphertext decrypts to under a secret key.
pub open spec fn sp_decrypt(c: CiphertextV, key: Seq<u32>) -> bool {
    match c {
        CiphertextV::Trivial(b) => b,
        CiphertextV::Encrypted(s) => sp_decode(sp_phase(s, key)),
    }
}

} // verus!
