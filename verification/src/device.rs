//! A typed model of the hardware accelerator session: the three fixed-size
//! device memory regions (input LWE buffer, output GLWE buffer, key image)
//! and the one kernel, driven by a run flag.
//!
//! The kernel is compiled for exactly one parameter set. For every one of
//! the `PACKING_FACTOR` input slots, whether or not the batch filled it, it
//! reads a modulus-switched mask from the input buffer, blind-rotates the
//! gate lookup table by it against the key it reads back out of the
//! transferred key image, and writes the resulting accumulator — mask
//! polynomial first, then body polynomial — into the slot's output block.
//! One batch is in flight at a time; the run flag is raised for the whole
//! synchronous call and reset by the dispatcher before the next batch.

use vstd::prelude::*;

use vstd::arithmetic::div_mod::lemma_fundamental_div_mod_converse;

use crate::glwe::{blind_rotate, ggsw_wf, sp_blind_rotate, GgswV, Ggsw, GlweCt};
use crate::layout::{bsk_view, bsk_wf, lemma_image_fetch, sp_bsk_image, sp_fetch_index,
    sp_image_word};
use crate::params::{GLWE_BLOCK_WORDS, GLWE_DIM, LWE_DIM, MEM_LWE_IN_WORDS,
    MEM_LWE_OUT_WORDS, PACKING_FACTOR, PBS_LEVELS, POLY_SIZE};

verus! {

/// An open accelerator session: device handle, loaded key image, and the
/// two transfer buffers.
pub struct DeviceSession {
    pub device_index: u32,
    pub image: Vec<u64>,
    pub mem_in: Vec<u32>,
    pub mem_out: Vec<u32>,
    pub running: bool,
}

/// The switched mask the kernel reads for one slot of the input buffer.
pub open spec fn sp_slot_amounts(mem_in: Seq<u32>, s: int) -> Seq<u32> {
    Seq::new(LWE_DIM as nat, |m: int| mem_in[s * (LWE_DIM as int) + m])
}

/// The content of the output buffer after one kernel run: for every slot,
/// the blind-rotated accumulator, mask coefficients then body coefficients.
pub open spec fn sp_kernel_out(bskv: Seq<GgswV>, mem_in: Seq<u32>) -> Seq<u32> {
    Seq::new(MEM_LWE_OUT_WORDS as nat, |w: int| {
        let s = w / (GLWE_BLOCK_WORDS as int);
        let pos = w % (GLWE_BLOCK_WORDS as int);
        let acc = sp_blind_rotate(bskv, sp_slot_amounts(mem_in, s));
        if pos < POLY_SIZE {
            acc.mask[pos]
        } else {
            acc.body[pos - POLY_SIZE]
        }
    })
}

/// Reads one key coefficient back out of the transferred image.
fn image_coeff(image: &Vec<u64>, i: usize, t: usize, colsel: usize, x: usize,
    Ghost(bskv): Ghost<Seq<GgswV>>) -> (r: u32)
    requires
        image@ == sp_bsk_image(bskv),
        bsk_wf(bskv),
        i < LWE_DIM,
        t < (GLWE_DIM + 1) * PBS_LEVELS,
        colsel < GLWE_DIM + 1,
        x < POLY_SIZE,
    ensures
        r == if colsel == 0 {
            bskv[i as int].rows[t as int].mask[x as int]
        } else {
            bskv[i as int].rows[t as int].body[x as int]
        },
{
    proof {
        lemma_image_fetch(bskv, i as int, t as int, colsel as int, x as int);
    }
    let lev = t % PBS_LEVELS;
    let row = t / PBS_LEVELS;
    let levr = PBS_LEVELS - 1 - lev;
    let d = (i * (GLWE_DIM + 1) + row) * PBS_LEVELS + levr;
    let srcpos = x / 2;
    let e: usize = if x % 2 == 1 {
        0
    } else {
        1
    };
    let coeffpos = (srcpos + crate::params::SPECTRAL_HALF - 1) % crate::params::SPECTRAL_HALF;
    let blk = coeffpos / crate::params::COEFF_PAIRS_PER_TRANSFER;
    let c = coeffpos % crate::params::COEFF_PAIRS_PER_TRANSFER;
    let w = (((colsel * crate::params::SPECTRAL_BLOCKS + blk) * crate::params::BSK_DEPTH + d)
        * crate::params::COEFF_PAIRS_PER_TRANSFER + c) * 2 + e;
    proof {
        assert(w as int == sp_fetch_index(i as int, t as int, colsel as int, x as int));
        assert(image@[w as int] == sp_image_word(crate::layout::sp_spectral_pairs(bskv),
            w as int));
    }
    image[w] as u32
}

/// Rebuilds the bootstrapping key from the transferred image: the kernel's
/// view of its key ROM.
fn rebuild_key(image: &Vec<u64>, Ghost(bskv): Ghost<Seq<GgswV>>) -> (r: Vec<Ggsw>)
    requires
        image@ == sp_bsk_image(bskv),
        bsk_wf(bskv),
    ensures
        bsk_view(r@) == bskv,
        bsk_wf(bsk_view(r@)),
{
    let mut key: Vec<Ggsw> = Vec::new();
    let mut i: usize = 0;
    while i < LWE_DIM
        invariant
            image@ == sp_bsk_image(bskv),
            bsk_wf(bskv),
            i <= LWE_DIM,
            key@.len() == i,
            forall|a: int| 0 <= a < i ==> #[trigger] key@[a]@ == bskv[a],
        decreases LWE_DIM - i,
    {
        let mut rows: Vec<GlweCt> = Vec::new();
        let mut t: usize = 0;
        while t < (GLWE_DIM + 1) * PBS_LEVELS
            invariant
                image@ == sp_bsk_image(bskv),
                bsk_wf(bskv),
                i < LWE_DIM,
                t <= (GLWE_DIM + 1) * PBS_LEVELS,
                rows@.len() == t,
                forall|b: int| 0 <= b < t ==> #[trigger] rows@[b]@ == bskv[i as int].rows[b],
            decreases (GLWE_DIM + 1) * PBS_LEVELS - t,
        {
            let mut mask: Vec<u32> = Vec::new();
            let mut x: usize = 0;
            while x < POLY_SIZE
                invariant
                    image@ == sp_bsk_image(bskv),
                    bsk_wf(bskv),
                    i < LWE_DIM,
                    t < (GLWE_DIM + 1) * PBS_LEVELS,
                    x <= POLY_SIZE,
                    mask@.len() == x,
                    forall|c: int| 0 <= c < x ==> mask@[c] == bskv[i as int].rows[t as int].mask[c],
                decreases POLY_SIZE - x,
            {
                mask.push(image_coeff(image, i, t, 0, x, Ghost(bskv)));
                x += 1;
            }
            let mut body: Vec<u32> = Vec::new();
            let mut y: usize = 0;
            while y < POLY_SIZE
                invariant
                    image@ == sp_bsk_image(bskv),
                    bsk_wf(bskv),
                    i < LWE_DIM,
                    t < (GLWE_DIM + 1) * PBS_LEVELS,
                    y <= POLY_SIZE,
                    body@.len() == y,
                    forall|c: int| 0 <= c < y ==> body@[c] == bskv[i as int].rows[t as int].body[c],
                decreases POLY_SIZE - y,
            {
                body.push(image_coeff(image, i, t, 1, y, Ghost(bskv)));
                y += 1;
            }
            let row = GlweCt { mask, body };
            proof {
                assert(ggsw_wf(bskv[i as int]));
                assert(row@.mask =~= bskv[i as int].rows[t as int].mask);
                assert(row@.body =~= bskv[i as int].rows[t as int].body);
            }
            rows.push(row);
            t += 1;
        }
        let ggsw = Ggsw { rows };
        proof {
            assert(ggsw@.rows =~= bskv[i as int].rows);
        }
        key.push(ggsw);
        i += 1;
    }
    proof {
        assert(bsk_view(key@) =~= bskv);
    }
    key
}

impl DeviceSession {
    /// Opens a session: allocates the transfer buffers and loads the key
    /// image.
    pub fn open(device_index: u32, image: Vec<u64>) -> (r: DeviceSession)
        ensures
            r.device_index == device_index,
            r.image == image,
            r.mem_in@.len() == MEM_LWE_IN_WORDS,
            r.mem_out@.len() == MEM_LWE_OUT_WORDS,
            !r.running,
    {
        let mut mem_in: Vec<u32> = Vec::new();
        let mut a: usize = 0;
        while a < MEM_LWE_IN_WORDS
            invariant
                a <= MEM_LWE_IN_WORDS,
                mem_in@.len() == a,
            decreases MEM_LWE_IN_WORDS - a,
        {
            mem_in.push(0);
            a += 1;
        }
        let mut mem_out: Vec<u32> = Vec::new();
        let mut b: usize = 0;
        while b < MEM_LWE_OUT_WORDS
            invariant
                b <= MEM_LWE_OUT_WORDS,
                mem_out@.len() == b,
            decreases MEM_LWE_OUT_WORDS - b,
        {
            mem_out.push(0);
            b += 1;
        }
        DeviceSession { device_index, image, mem_in, mem_out, running: false }
    }

    /// Raises the run flag, executes the kernel synchronously, and blocks
    /// until the output buffer holds every slot's accumulator.
    pub fn start_run(&mut self, Ghost(bskv): Ghost<Seq<GgswV>>)
        requires
            old(self).image@ == sp_bsk_image(bskv),
            bsk_wf(bskv),
            old(self).mem_in@.len() == MEM_LWE_IN_WORDS,
        ensures
            final(self).running,
            final(self).mem_out@ == sp_kernel_out(bskv, old(self).mem_in@),
            final(self).mem_out@.len() == MEM_LWE_OUT_WORDS,
            final(self).image == old(self).image,
            final(self).mem_in == old(self).mem_in,
            final(self).device_index == old(self).device_index,
    {
        let key = rebuild_key(&self.image, Ghost(bskv));
        let mut out: Vec<u32> = Vec::new();
        let mut s: usize = 0;
        while s < PACKING_FACTOR
            invariant
                bsk_view(key@) == bskv,
                bsk_wf(bsk_view(key@)),
                self.mem_in@.len() == MEM_LWE_IN_WORDS,
                self == old(self),
                s <= PACKING_FACTOR,
                out@.len() == s * GLWE_BLOCK_WORDS,
                forall|w: int| 0 <= w < s * GLWE_BLOCK_WORDS ==> out@[w] == sp_kernel_out(bskv,
                    self.mem_in@)[w],
            decreases PACKING_FACTOR - s,
        {
            let mut amounts: Vec<u32> = Vec::new();
            let mut m: usize = 0;
            while m < LWE_DIM
                invariant
                    self.mem_in@.len() == MEM_LWE_IN_WORDS,
                    s < PACKING_FACTOR,
                    m <= LWE_DIM,
                    amounts@.len() == m,
                    forall|c: int| 0 <= c < m ==> amounts@[c] == self.mem_in@[s * LWE_DIM + c],
                decreases LWE_DIM - m,
            {
                amounts.push(self.mem_in[s * LWE_DIM + m]);
                m += 1;
            }
            proof {
                assert(amounts@ =~= sp_slot_amounts(self.mem_in@, s as int));
            }
            proof {
                assert forall|k: int| 0 <= k < LWE_DIM implies ggsw_wf(#[trigger] key@[k]@) by {
                    assert(bsk_view(key@)[k] == key@[k]@);
                }
            }
            let acc = blind_rotate(&key, &amounts);
            proof {
                assert(Seq::new(key@.len(), |i: int| key@[i]@) =~= bsk_view(key@));
                assert(acc@ == sp_blind_rotate(bskv, sp_slot_amounts(self.mem_in@, s as int)));
            }
            let mut pos: usize = 0;
            while pos < GLWE_BLOCK_WORDS
                invariant
                    self.mem_in@.len() == MEM_LWE_IN_WORDS,
                    s < PACKING_FACTOR,
                    acc@ == sp_blind_rotate(bskv, sp_slot_amounts(self.mem_in@, s as int)),
                    crate::glwe::glwe_wf(acc@),
                    pos <= GLWE_BLOCK_WORDS,
                    out@.len() == s * GLWE_BLOCK_WORDS + pos,
                    forall|w: int| 0 <= w < s * GLWE_BLOCK_WORDS ==> out@[w] == sp_kernel_out(
                        bskv, self.mem_in@)[w],
                    forall|p: int| 0 <= p < pos ==> #[trigger] out@[s * GLWE_BLOCK_WORDS + p]
                        == sp_kernel_out(bskv, self.mem_in@)[s * GLWE_BLOCK_WORDS + p],
                decreases GLWE_BLOCK_WORDS - pos,
            {
                let v = if pos < POLY_SIZE {
                    acc.mask[pos]
                } else {
                    acc.body[pos - POLY_SIZE]
                };
                out.push(v);
                proof {
                    let w = s * GLWE_BLOCK_WORDS + pos;
                    lemma_fundamental_div_mod_converse(w as int, GLWE_BLOCK_WORDS as int,
                        s as int, pos as int);
                    assert(out@[w as int] == sp_kernel_out(bskv, self.mem_in@)[w as int]);
                }
                pos += 1;
            }
            proof {
                assert forall|w: int| 0 <= w < (s + 1) * GLWE_BLOCK_WORDS implies out@[w]
                    == sp_kernel_out(bskv, self.mem_in@)[w] by {
                    if w >= s * GLWE_BLOCK_WORDS {
                        let p = w - s * GLWE_BLOCK_WORDS;
                        assert(out@[s * GLWE_BLOCK_WORDS + p] == sp_kernel_out(bskv,
                            self.mem_in@)[s * GLWE_BLOCK_WORDS + p]);
                    }
                }
            }
            s += 1;
        }
        proof {
            assert(out@ =~= sp_kernel_out(bskv, self.mem_in@));
        }
        self.mem_out = out;
        self.running = true;
    }

    /// Resets the run control signal to idle, leaving the session ready for
    /// the next batch.
    pub fn reset_run(&mut self)
        ensures
            !final(self).running,
            final(self).image == old(self).image,
            final(self).mem_in == old(self).mem_in,
            final(self).mem_out == old(self).mem_out,
            final(self).device_index == old(self).device_index,
    {
        self.running = false;
    }
}

} // verus!
