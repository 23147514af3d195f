//! The bootstrapper: programmable bootstrapping and key switching,
//! polymorphic over a software backend and a hardware-accelerator backend.
//!
//! Both backends realize the same per-ciphertext function `sp_pbs_ks` —
//! modulus switch, blind rotation, sample extraction at the switched body,
//! key switch — so their outputs are identical ciphertext by ciphertext;
//! the hardware backend merely computes the blind rotations of a whole
//! batch in one synchronous device call. The device session is owned by the
//! bootstrapper and guarded by the enabled/disabled state alone.

use vstd::prelude::*;

use crate::device::{sp_kernel_out, sp_slot_amounts, DeviceSession};
use crate::extract::{extract_sample, sp_extract};
use crate::glwe::{blind_rotate, GgswV, Ggsw, GlweCt, sp_blind_rotate};
use crate::keyswitch::{keyswitch, ksk_view, ksk_wf, sp_keyswitch};
use crate::layout::{bsk_view, bsk_wf, sp_bsk_image, sp_image_word, LayoutError,
    SpectralKey};
use crate::lwe::{lwe_wf, Ciphertext, CiphertextV, LweSample, LweV};
use crate::params::{BSK_DEPTH, BSK_IMAGE_WORDS, BSK_WORD_BYTES, BSK_BUFFER_BYTES,
    COEFF_PAIRS_PER_TRANSFER, GLWE_BLOCK_WORDS, GLWE_DIM, LWE_DIM, MEM_LWE_IN_WORDS,
    PACKING_FACTOR, PBS_LEVELS, POLY_SIZE, SPECTRAL_BLOCKS, SPECTRAL_HALF, SPECTRAL_PAIRS};
use crate::switch::{modulus_switch, sp_modulus_switch};
use crate::text::{parse_u32_ascii, sp_parse_u32};

verus! {

/// The failures of hardware enablement. Every one of them is fatal to the
/// caller: a half-configured accelerator must never be used.
#[derive(Clone, Copy, Debug, PartialEq, Eq, Structural)]
pub enum HardwareError {
    /// The accelerator image location is not configured.
    MissingImage,
    /// The device index is not configured.
    MissingDeviceIndex,
    /// The device index is not a valid integer.
    InvalidDeviceIndex,
    /// The transformed key image does not fill the fixed key buffer: a
    /// parameter-set/accelerator-image mismatch.
    LayoutMismatch,
}

/// The two required external settings of the hardware backend, as the
/// caller found them in its environment: the accelerator image location and
/// the device index, either possibly absent.
pub struct HardwareConfig {
    pub image: Option<Vec<u8>>,
    pub device_index: Option<Vec<u8>>,
}

/// The switched mask of a ciphertext: every coefficient rounded into the
/// lookup-table index domain.
pub open spec fn sp_switched_mask(c: LweV) -> Seq<u32> {
    Seq::new(c.mask.len(), |i: int| sp_modulus_switch(c.mask[i]))
}

/// The bootstrap-and-keyswitch of one ciphertext: blind-rotate the shared
/// lookup table by the switched mask, extract the sample the switched body
/// points at, and switch it back to the original LWE dimension. Both
/// backends compute exactly this function.
pub open spec fn sp_pbs_ks(bskv: Seq<GgswV>, kv: Seq<Seq<LweV>>, c: LweV) -> LweV {
    sp_keyswitch(kv, sp_extract(sp_blind_rotate(bskv, sp_switched_mask(c)),
        sp_modulus_switch(c.body) as int))
}

/// The packed device input buffer: the switched masks of the batch laid out
/// ciphertext-major, unfilled slots zero.
pub open spec fn sp_packed_input(cts: Seq<LweV>) -> Seq<u32> {
    Seq::new(MEM_LWE_IN_WORDS as nat, |w: int| {
        let s = w / (LWE_DIM as int);
        let m = w % (LWE_DIM as int);
        if s < cts.len() {
            sp_modulus_switch(cts[s].mask[m])
        } else {
            0u32
        }
    })
}

/// What the kernel reads for a filled slot of the packed input buffer is
/// exactly that ciphertext's switched mask.
proof fn lemma_slot_amounts_match(cts: Seq<LweV>, s: int)
    requires
        0 <= s < cts.len() <= PACKING_FACTOR,
        lwe_wf(cts[s], LWE_DIM as int),
    ensures
        sp_slot_amounts(sp_packed_input(cts), s) == sp_switched_mask(cts[s]),
{
    assert forall|m: int| 0 <= m < LWE_DIM implies sp_slot_amounts(sp_packed_input(cts), s)[m]
        == sp_switched_mask(cts[s])[m] by {
        let w = s * (LWE_DIM as int) + m;
        assert(0 <= w < MEM_LWE_IN_WORDS);
        vstd::arithmetic::div_mod::lemma_fundamental_div_mod_converse(w, LWE_DIM as int, s, m);
    }
    assert(sp_slot_amounts(sp_packed_input(cts), s) =~= sp_switched_mask(cts[s]));
}

/// The bootstrapper: owns the backend state, and for the hardware backend
/// the device session. Exclusively owned by one caller context; the session
/// is guarded by the enabled/disabled state alone.
pub struct Bootstrapper {
    /// The open device session of the hardware backend; the software
    /// backend holds none.
    pub session: Option<DeviceSession>,
    /// How many device sessions this bootstrapper has ever opened: a second
    /// enablement of an already-enabled backend opens none.
    pub sessions_opened: u32,
}

impl Bootstrapper {
    /// Whether the hardware backend is enabled.
    pub open spec fn is_hardware(&self) -> bool {
        self.session.is_some()
    }

    /// Well-formedness relative to a bootstrapping key: an open session
    /// holds exactly the transformed image of that key, its buffers have
    /// the fixed sizes, and no batch is in flight.
    pub open spec fn wf_for(&self, bskv: Seq<GgswV>) -> bool {
        match self.session {
            Option::None => true,
            Option::Some(s) => {
                &&& s.image@ == sp_bsk_image(bskv)
                &&& s.mem_in@.len() == MEM_LWE_IN_WORDS
                &&& !s.running
            },
        }
    }

    /// A fresh bootstrapper on the software backend.
    pub fn new() -> (r: Bootstrapper)
        ensures
            !r.is_hardware(),
            r.sessions_opened == 0,
    {
        Bootstrapper { session: Option::None, sessions_opened: 0 }
    }

    /// Transforms a spectral key into the flat image the hardware key
    /// buffer expects. The image must fill the fixed buffer exactly: a key
    /// of any other size signals a parameter-set mismatch and is refused.
    pub fn bsk_for_fpga(&self, key: &SpectralKey) -> (r: Result<Vec<u64>, LayoutError>)
        ensures
            match r {
                Ok(img) => {
                    &&& key.pairs@.len() == SPECTRAL_PAIRS
                    &&& img@ == Seq::new(BSK_IMAGE_WORDS as nat, |w: int| sp_image_word(
                        key.pairs@, w))
                    &&& img@.len() * BSK_WORD_BYTES == BSK_BUFFER_BYTES
                },
                Err(_) => key.pairs@.len() != SPECTRAL_PAIRS,
            },
    {
        if key.pairs.len() != SPECTRAL_PAIRS {
            return Err(LayoutError::SizeMismatch);
        }
        let mut img: Vec<u64> = Vec::new();
        let mut w: usize = 0;
        while w < BSK_IMAGE_WORDS
            invariant
                key.pairs@.len() == SPECTRAL_PAIRS,
                w <= BSK_IMAGE_WORDS,
                img@.len() == w,
                forall|k: int| 0 <= k < w ==> img@[k] == sp_image_word(key.pairs@, k),
            decreases BSK_IMAGE_WORDS - w,
        {
            let e = w % 2;
            let w2 = w / 2;
            let c = w2 % COEFF_PAIRS_PER_TRANSFER;
            let w3 = w2 / COEFF_PAIRS_PER_TRANSFER;
            let d = w3 % BSK_DEPTH;
            let w4 = w3 / BSK_DEPTH;
            let blk = w4 % SPECTRAL_BLOCKS;
            let gdim = w4 / SPECTRAL_BLOCKS;
            let coeffpos = blk * COEFF_PAIRS_PER_TRANSFER + c;
            let srcpos = (coeffpos + 1) % SPECTRAL_HALF;
            let levr = d % PBS_LEVELS;
            let d2 = d / PBS_LEVELS;
            let row = d2 % (GLWE_DIM + 1);
            let i = d2 / (GLWE_DIM + 1);
            let lev = PBS_LEVELS - 1 - levr;
            let q = ((i * PBS_LEVELS + lev) * (GLWE_DIM + 1) + row) * (GLWE_DIM + 1) + gdim;
            let p = q * SPECTRAL_HALF + srcpos;
            proof {
                assert(w2 < 64 && w3 < 32 && w4 < 4);
                vstd::arithmetic::div_mod::lemma_fundamental_div_mod(w4 as int,
                    SPECTRAL_BLOCKS as int);
                vstd::arithmetic::div_mod::lemma_fundamental_div_mod(d as int,
                    PBS_LEVELS as int);
                vstd::arithmetic::div_mod::lemma_fundamental_div_mod(d2 as int,
                    (GLWE_DIM + 1) as int);
                assert(gdim < 2 && d2 < 4 && i < 2 && q < 16 && p < SPECTRAL_PAIRS);
            }
            let pair = key.pairs[p];
            img.push(if e == 0 {
                pair.im
            } else {
                pair.re
            });
            w += 1;
        }
        proof {
            assert(img@ =~= Seq::new(BSK_IMAGE_WORDS as nat, |w: int| sp_image_word(key.pairs@,
                w)));
        }
        Ok(img)
    }

    /// Enables the hardware backend: validates the two required external
    /// settings, transforms the key, opens the device session and loads the
    /// image. A second enablement is an observable no-op: the existing
    /// session is kept and no device resource is allocated again. Every
    /// error leaves the bootstrapper untouched on the software backend; the
    /// caller must treat it as fatal.
    pub fn enable_fpga(&mut self, cfg: &HardwareConfig, key: &SpectralKey) -> (r: Result<
        (),
        HardwareError,
    >)
        requires
            old(self).sessions_opened < u32::MAX,
        ensures
            old(self).is_hardware() ==> *final(self) == *old(self) && r is Ok,
            !old(self).is_hardware() ==> {
                &&& (r is Ok <==> cfg.image is Some && cfg.device_index is Some && sp_parse_u32(
                    cfg.device_index.unwrap()@) is Some && key.pairs@.len() == SPECTRAL_PAIRS)
                &&& (r is Err ==> *final(self) == *old(self))
                &&& (r == Result::<(), HardwareError>::Err(HardwareError::MissingImage)
                    <==> cfg.image is None)
                &&& (r == Result::<(), HardwareError>::Err(HardwareError::MissingDeviceIndex)
                    <==> cfg.image is Some && cfg.device_index is None)
                &&& (r == Result::<(), HardwareError>::Err(HardwareError::InvalidDeviceIndex)
                    <==> cfg.image is Some && cfg.device_index is Some && sp_parse_u32(
                    cfg.device_index.unwrap()@) is None)
                &&& (r == Result::<(), HardwareError>::Err(HardwareError::LayoutMismatch)
                    <==> cfg.image is Some && cfg.device_index is Some && sp_parse_u32(
                    cfg.device_index.unwrap()@) is Some && key.pairs@.len() != SPECTRAL_PAIRS)
                &&& (r is Ok ==> {
                    &&& final(self).sessions_opened == old(self).sessions_opened + 1
                    &&& (final(self).session matches Some(s) && {
                        &&& s.image@ == Seq::new(BSK_IMAGE_WORDS as nat, |w: int|
                            sp_image_word(key.pairs@, w))
                        &&& s.device_index == sp_parse_u32(cfg.device_index.unwrap()@).unwrap()
                        &&& s.mem_in@.len() == MEM_LWE_IN_WORDS
                        &&& !s.running
                    })
                })
            },
    {
        if self.session.is_some() {
            return Ok(());
        }
        let index_bytes = match &cfg.device_index {
            Option::Some(b) => Option::Some(b),
            Option::None => Option::None,
        };
        if cfg.image.is_none() {
            return Err(HardwareError::MissingImage);
        }
        let device_index = match index_bytes {
            Option::None => {
                return Err(HardwareError::MissingDeviceIndex);
            },
            Option::Some(b) => match parse_u32_ascii(b.as_slice()) {
                Option::Some(v) => v,
                Option::None => {
                    return Err(HardwareError::InvalidDeviceIndex);
                },
            },
        };
        let img = match self.bsk_for_fpga(key) {
            Ok(img) => img,
            Err(_) => {
                return Err(HardwareError::LayoutMismatch);
            },
        };
        let session = DeviceSession::open(device_index, img);
        self.session = Option::Some(session);
        self.sessions_opened = self.sessions_opened + 1;
        Ok(())
    }

    /// Disables the hardware backend: releases the device session and
    /// returns to the software backend. A no-op when already there.
    pub fn disable_fpga(&mut self)
        ensures
            !final(self).is_hardware(),
            final(self).sessions_opened == old(self).sessions_opened,
    {
        self.session = Option::None;
    }

    /// Bootstraps and key-switches one ciphertext on the software backend.
    fn pbs_ks_one(ct: &LweSample, bsk: &Vec<Ggsw>, ksk: &Vec<Vec<LweSample>>) -> (r: LweSample)
        requires
            lwe_wf(ct@, LWE_DIM as int),
            bsk_wf(bsk_view(bsk@)),
            ksk_wf(ksk_view(ksk@)),
        ensures
            r@ == sp_pbs_ks(bsk_view(bsk@), ksk_view(ksk@), ct@),
            lwe_wf(r@, LWE_DIM as int),
    {
        let mut amounts: Vec<u32> = Vec::new();
        let mut m: usize = 0;
        while m < LWE_DIM
            invariant
                lwe_wf(ct@, LWE_DIM as int),
                m <= LWE_DIM,
                amounts@.len() == m,
                forall|k: int| 0 <= k < m ==> amounts@[k] == sp_modulus_switch(ct@.mask[k]),
            decreases LWE_DIM - m,
        {
            amounts.push(modulus_switch(ct.mask[m]));
            m += 1;
        }
        proof {
            assert(amounts@ =~= sp_switched_mask(ct@));
            assert forall|k: int| 0 <= k < LWE_DIM implies crate::glwe::ggsw_wf(
                #[trigger] bsk@[k]@) by {
                assert(bsk_view(bsk@)[k] == bsk@[k]@);
            }
        }
        let acc = blind_rotate(bsk, &amounts);
        proof {
            assert(Seq::new(bsk@.len(), |i: int| bsk@[i]@) =~= bsk_view(bsk@));
        }
        let nth = modulus_switch(ct.body);
        let extracted = extract_sample(&acc, nth as usize);
        keyswitch(ksk, &extracted)
    }

    /// Bootstraps and key-switches a batch of up to `PACKING_FACTOR`
    /// ciphertexts. Output index `i` is the fresh encryption obtained from
    /// input index `i`: order and count are preserved exactly, and the
    /// result does not depend on which backend ran — only one batched
    /// device call replaces the per-ciphertext software loop.
    pub fn bootstrap_and_keyswitch_packed(&mut self, ciphertexts: &Vec<LweSample>,
        bsk: &Vec<Ggsw>, ksk: &Vec<Vec<LweSample>>) -> (r: Vec<Ciphertext>)
        requires
            ciphertexts@.len() <= PACKING_FACTOR,
            forall|i: int| 0 <= i < ciphertexts@.len() ==> lwe_wf(#[trigger] ciphertexts@[i]@,
                LWE_DIM as int),
            bsk_wf(bsk_view(bsk@)),
            ksk_wf(ksk_view(ksk@)),
            old(self).wf_for(bsk_view(bsk@)),
        ensures
            r@.len() == ciphertexts@.len(),
            forall|i: int| 0 <= i < r@.len() ==> #[trigger] r@[i]@ == CiphertextV::Encrypted(
                sp_pbs_ks(bsk_view(bsk@), ksk_view(ksk@), ciphertexts@[i]@)),
            forall|i: int| 0 <= i < r@.len() ==> (#[trigger] r@[i]).wf(),
            final(self).wf_for(bsk_view(bsk@)),
            final(self).is_hardware() == old(self).is_hardware(),
            final(self).sessions_opened == old(self).sessions_opened,
    {
        let ghost bskv = bsk_view(bsk@);
        let ghost kv = ksk_view(ksk@);
        let use_hardware = self.session.is_some();
        if !use_hardware {
            let mut out: Vec<Ciphertext> = Vec::new();
            let mut i: usize = 0;
            while i < ciphertexts.len()
                invariant
                    ciphertexts@.len() <= PACKING_FACTOR,
                    forall|k: int| 0 <= k < ciphertexts@.len() ==> lwe_wf(
                        #[trigger] ciphertexts@[k]@, LWE_DIM as int),
                    bsk_wf(bsk_view(bsk@)),
                    ksk_wf(ksk_view(ksk@)),
                    bskv == bsk_view(bsk@),
                    kv == ksk_view(ksk@),
                    i <= ciphertexts@.len(),
                    out@.len() == i,
                    forall|k: int| 0 <= k < i ==> #[trigger] out@[k]@ == CiphertextV::Encrypted(
                        sp_pbs_ks(bskv, kv, ciphertexts@[k]@)),
                    forall|k: int| 0 <= k < i ==> (#[trigger] out@[k]).wf(),
                decreases ciphertexts@.len() - i,
            {
                let fresh = Self::pbs_ks_one(&ciphertexts[i], bsk, ksk);
                out.push(Ciphertext::Encrypted(fresh));
                i += 1;
            }
            return out;
        }
        // Hardware path: pack the switched masks, run one batch, extract.
        let mut packed: Vec<u32> = Vec::new();
        let mut w: usize = 0;
        while w < MEM_LWE_IN_WORDS
            invariant
                ciphertexts@.len() <= PACKING_FACTOR,
                forall|k: int| 0 <= k < ciphertexts@.len() ==> lwe_wf(
                    #[trigger] ciphertexts@[k]@, LWE_DIM as int),
                w <= MEM_LWE_IN_WORDS,
                packed@.len() == w,
                forall|k: int| 0 <= k < w ==> packed@[k] == sp_packed_input(
                    Seq::new(ciphertexts@.len(), |j: int| ciphertexts@[j]@))[k],
            decreases MEM_LWE_IN_WORDS - w,
        {
            let s = w / LWE_DIM;
            let m = w % LWE_DIM;
            let v = if s < ciphertexts.len() {
                proof {
                    assert(lwe_wf(ciphertexts@[s as int]@, LWE_DIM as int));
                }
                modulus_switch(ciphertexts[s].mask[m])
            } else {
                0u32
            };
            packed.push(v);
            w += 1;
        }
        let ghost ctsv = Seq::new(ciphertexts@.len(), |j: int| ciphertexts@[j]@);
        proof {
            assert(packed@ =~= sp_packed_input(ctsv));
        }
        let mut session = self.session.take().unwrap();
        session.mem_in = packed;
        session.start_run(Ghost(bskv));
        let ghost mem_out = session.mem_out@;
        let mut out: Vec<Ciphertext> = Vec::new();
        let mut s: usize = 0;
        while s < ciphertexts.len()
            invariant
                ciphertexts@.len() <= PACKING_FACTOR,
                forall|k: int| 0 <= k < ciphertexts@.len() ==> lwe_wf(
                    #[trigger] ciphertexts@[k]@, LWE_DIM as int),
                bsk_wf(bsk_view(bsk@)),
                ksk_wf(ksk_view(ksk@)),
                bskv == bsk_view(bsk@),
                kv == ksk_view(ksk@),
                ctsv == Seq::new(ciphertexts@.len(), |j: int| ciphertexts@[j]@),
                mem_out == session.mem_out@,
                mem_out == sp_kernel_out(bskv, sp_packed_input(ctsv)),
                mem_out.len() == crate::params::MEM_LWE_OUT_WORDS,
                s <= ciphertexts@.len(),
                out@.len() == s,
                forall|k: int| 0 <= k < s ==> #[trigger] out@[k]@ == CiphertextV::Encrypted(
                    sp_pbs_ks(bskv, kv, ciphertexts@[k]@)),
                forall|k: int| 0 <= k < s ==> (#[trigger] out@[k]).wf(),
            decreases ciphertexts@.len() - s,
        {
            let ghost acc_s = sp_blind_rotate(bskv, sp_slot_amounts(sp_packed_input(ctsv),
                s as int));
            proof {
                crate::glwe::lemma_blind_rotate_partial_wf(bskv, sp_slot_amounts(
                    sp_packed_input(ctsv), s as int), LWE_DIM as int);
                assert(crate::glwe::glwe_wf(acc_s));
            }
            let mut mask: Vec<u32> = Vec::new();
            let mut x: usize = 0;
            while x < POLY_SIZE
                invariant
                    s < ciphertexts@.len() <= PACKING_FACTOR,
                    mem_out == session.mem_out@,
                    mem_out.len() == crate::params::MEM_LWE_OUT_WORDS,
                    mem_out == sp_kernel_out(bskv, sp_packed_input(ctsv)),
                    acc_s == sp_blind_rotate(bskv, sp_slot_amounts(sp_packed_input(ctsv),
                        s as int)),
                    crate::glwe::glwe_wf(acc_s),
                    x <= POLY_SIZE,
                    mask@.len() == x,
                    forall|c: int| 0 <= c < x ==> mask@[c] == acc_s.mask[c],
                decreases POLY_SIZE - x,
            {
                let v = session.mem_out[s * GLWE_BLOCK_WORDS + x];
                proof {
                    vstd::arithmetic::div_mod::lemma_fundamental_div_mod_converse(
                        (s * GLWE_BLOCK_WORDS + x) as int, GLWE_BLOCK_WORDS as int, s as int,
                        x as int);
                }
                mask.push(v);
                x += 1;
            }
            let mut body: Vec<u32> = Vec::new();
            let mut y: usize = 0;
            while y < POLY_SIZE
                invariant
                    s < ciphertexts@.len() <= PACKING_FACTOR,
                    mem_out == session.mem_out@,
                    mem_out.len() == crate::params::MEM_LWE_OUT_WORDS,
                    mem_out == sp_kernel_out(bskv, sp_packed_input(ctsv)),
                    acc_s == sp_blind_rotate(bskv, sp_slot_amounts(sp_packed_input(ctsv),
                        s as int)),
                    crate::glwe::glwe_wf(acc_s),
                    y <= POLY_SIZE,
                    body@.len() == y,
                    forall|c: int| 0 <= c < y ==> body@[c] == acc_s.body[c],
                decreases POLY_SIZE - y,
            {
                let v = session.mem_out[s * GLWE_BLOCK_WORDS + POLY_SIZE + y];
                proof {
                    vstd::arithmetic::div_mod::lemma_fundamental_div_mod_converse(
                        (s * GLWE_BLOCK_WORDS + POLY_SIZE + y) as int, GLWE_BLOCK_WORDS as int,
                        s as int, (POLY_SIZE + y) as int);
                }
                body.push(v);
                y += 1;
            }
            let block = GlweCt { mask, body };
            proof {
                assert(block@.mask =~= acc_s.mask);
                assert(block@.body =~= acc_s.body);
                lemma_slot_amounts_match(ctsv, s as int);
                assert(acc_s == sp_blind_rotate(bskv, sp_switched_mask(ciphertexts@[s as int]@)));
            }
            let nth = modulus_switch(ciphertexts[s].body);
            let extracted = extract_sample(&block, nth as usize);
            let fresh = keyswitch(ksk, &extracted);
            out.push(Ciphertext::Encrypted(fresh));
            s += 1;
        }
        session.reset_run();
        self.session = Option::Some(session);
        out
    }
}

} // verus!
