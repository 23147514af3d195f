//! The fixed cryptographic parameter set and the hardware memory map derived
//! from it.
//!
//! All sizes are compile-time constants: the hardware kernel is compiled for
//! exactly one parameter set, and every buffer size below is part of its
//! memory contract. The parameters are deliberately tiny — the decomposition
//! covers the full working modulus (`PBS_LEVELS * PBS_BASE_LOG == MOD_LOG2`),
//! so every gadget decomposition in the scheme is exact and the whole
//! pipeline computes in exact modular arithmetic.

use vstd::prelude::*;

verus! {

/// Base-2 logarithm of the working ciphertext modulus (ring elements are `u32`).
pub const MOD_LOG2: u32 = 32;

/// LWE dimension: number of mask elements in a fresh ciphertext.
pub const LWE_DIM: usize = 2;

/// GLWE dimension: number of mask polynomials in a bootstrapping accumulator.
pub const GLWE_DIM: usize = 1;

/// Degree of the negacyclic polynomial ring used by bootstrapping.
pub const POLY_SIZE: usize = 8;

/// Twice the polynomial degree: the size of the coarse lookup-table index
/// domain that modulus switching rounds into.
pub const LUT_DOMAIN: usize = 16;

/// Base-2 logarithm of `LUT_DOMAIN`.
pub const LUT_DOMAIN_LOG2: u32 = 4;

/// Bit mask reducing a value modulo `LUT_DOMAIN`.
pub const LUT_INDEX_MASK: u32 = 0xF;

/// Number of decomposition levels of the bootstrapping key.
pub const PBS_LEVELS: usize = 2;

/// Base-2 logarithm of the bootstrapping decomposition base.
pub const PBS_BASE_LOG: u32 = 16;

/// Bit mask extracting one bootstrapping decomposition digit.
pub const PBS_DIGIT_MASK: u32 = 0xFFFF;

/// Number of decomposition levels of the key-switching key.
pub const KS_LEVELS: usize = 2;

/// Base-2 logarithm of the key-switching decomposition base.
pub const KS_BASE_LOG: u32 = 16;

/// Bit mask extracting one key-switching decomposition digit.
pub const KS_DIGIT_MASK: u32 = 0xFFFF;

/// Dimension of the LWE ciphertext obtained by sample extraction from a
/// GLWE ciphertext, before key switching brings it back to `LWE_DIM`.
pub const EXT_LWE_DIM: usize = 8;

/// One eighth of the working modulus: the plaintext encoding of `true`
/// (and, negated, of `false`), and the constant offset used by gate
/// linear combinations.
pub const PLAINTEXT_EIGHTH: u32 = 0x2000_0000;

/// Maximum number of ciphertexts bootstrapped by one hardware batch.
pub const PACKING_FACTOR: usize = 4;

/// Number of `u32` words of the hardware input buffer: one modulus-switched
/// mask per batch slot.
pub const MEM_LWE_IN_WORDS: usize = 8;

/// Number of `u32` words of the hardware output buffer: one flattened GLWE
/// block (mask and body polynomials) per batch slot.
pub const MEM_LWE_OUT_WORDS: usize = 64;

/// Number of coefficients of one GLWE output block.
pub const GLWE_BLOCK_WORDS: usize = 16;

/// Number of spectral coefficient pairs per polynomial of the bootstrapping
/// key (half the polynomial degree, as in a frequency-domain representation
/// of a real negacyclic polynomial).
pub const SPECTRAL_HALF: usize = 4;

/// Number of coefficient pairs carried by one address-aligned transfer word
/// group of the key buffer.
pub const COEFF_PAIRS_PER_TRANSFER: usize = 2;

/// Number of transfer blocks per polynomial: `SPECTRAL_HALF / COEFF_PAIRS_PER_TRANSFER`.
pub const SPECTRAL_BLOCKS: usize = 2;

/// Number of key ROM addresses: `LWE_DIM * (GLWE_DIM + 1) * PBS_LEVELS`.
pub const BSK_DEPTH: usize = 8;

/// Number of spectral coefficient pairs of the whole bootstrapping key:
/// `LWE_DIM * PBS_LEVELS * (GLWE_DIM + 1) * (GLWE_DIM + 1) * SPECTRAL_HALF`.
pub const SPECTRAL_PAIRS: usize = 64;

/// Number of `u64` words of the transformed key image.
pub const BSK_IMAGE_WORDS: usize = 128;

/// Width in bytes of one key-image word.
pub const BSK_WORD_BYTES: usize = 8;

/// Fixed size in bytes of the hardware bootstrapping-key buffer. The
/// transformed key image must fill it exactly.
pub const BSK_BUFFER_BYTES: usize = 1024;

/// The derived constants are consistent with the primary ones; the hardware
/// memory map depends on these identities.
pub proof fn lemma_params_consistent()
    ensures
        LUT_DOMAIN == 2 * POLY_SIZE,
        LUT_INDEX_MASK == LUT_DOMAIN - 1,
        PBS_DIGIT_MASK == (1u32 << PBS_BASE_LOG) - 1,
        KS_DIGIT_MASK == (1u32 << KS_BASE_LOG) - 1,
        EXT_LWE_DIM == GLWE_DIM * POLY_SIZE,
        PBS_LEVELS as u32 * PBS_BASE_LOG == MOD_LOG2,
        KS_LEVELS as u32 * KS_BASE_LOG == MOD_LOG2,
        MEM_LWE_IN_WORDS == PACKING_FACTOR * LWE_DIM,
        GLWE_BLOCK_WORDS == (GLWE_DIM + 1) * POLY_SIZE,
        MEM_LWE_OUT_WORDS == PACKING_FACTOR * GLWE_BLOCK_WORDS,
        SPECTRAL_HALF == POLY_SIZE / 2,
        SPECTRAL_BLOCKS == SPECTRAL_HALF / COEFF_PAIRS_PER_TRANSFER,
        BSK_DEPTH == LWE_DIM * (GLWE_DIM + 1) * PBS_LEVELS,
        SPECTRAL_PAIRS == LWE_DIM * PBS_LEVELS * (GLWE_DIM + 1) * (GLWE_DIM + 1) * SPECTRAL_HALF,
        BSK_IMAGE_WORDS == 2 * SPECTRAL_PAIRS,
        BSK_IMAGE_WORDS * BSK_WORD_BYTES == BSK_BUFFER_BYTES,
{
    assert(0xFFFFu32 == (1u32 << 16u32) - 1) by (bit_vector);
}

} // verus!
