//! A boolean fully-homomorphic gate-evaluation engine.
//!
//! Ciphertexts encrypt single bits under an LWE secret key; every binary gate
//! is realized as a plaintext-space linear combination of its two operands
//! followed by programmable bootstrapping, which refreshes the ciphertext
//! while evaluating a truth table. Bootstrapping runs either on a
//! software backend or on a batched hardware-accelerator backend; the two
//! produce identical ciphertexts.

pub mod board;
pub mod bootstrap;
pub mod client;
pub mod device;
pub mod extract;
pub mod gates;
pub mod glwe;
pub mod keyswitch;
pub mod laws;
pub mod layout;
pub mod lwe;
pub mod operators;
pub mod params;
pub mod poly;
pub mod server_key;
pub mod switch;
pub mod text;
