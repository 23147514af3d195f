//! The server key: the public evaluation key material together with its
//! bootstrapper, and every homomorphic boolean gate.
//!
//! Binary gates come in three flavours — by value, in place, and packed.
//! The packed flavour groups its inputs into batches of up to
//! `PACKING_FACTOR` linear combinations per bootstrap call, keeping output
//! order and length exactly equal to the input; pairs of trivial operands
//! resolve locally and never enter a batch. Every flavour computes the same
//! per-gate function `sp_gate_one`, on either backend.

use vstd::prelude::*;

use crate::bootstrap::{sp_pbs_ks, Bootstrapper, HardwareConfig, HardwareError};
use crate::client::ClientKey;
use crate::gates::{lin_combo, sp_ct_not, sp_gate_one, sp_gate_truth, sp_lin_combo, Gate};
use crate::glwe::{GgswV, Ggsw, GlweCt};
use crate::keyswitch::{ksk_view, ksk_wf};
use crate::layout::{bsk_view, bsk_wf, spectral_of_bsk, sp_bsk_image};
use crate::lwe::{ct_as_lwe, ct_dup, lwe_dot, lwe_wf, sp_ct_as_lwe, Ciphertext, CiphertextV,
    LweSample, LweV};
use crate::params::{EXT_LWE_DIM, GLWE_DIM, KS_BASE_LOG, KS_LEVELS, LWE_DIM, MOD_LOG2,
    PACKING_FACTOR, PBS_BASE_LOG, PBS_LEVELS, POLY_SIZE};
use crate::poly::{poly_add, poly_mul};

verus! {

/// Mathematical view of a ciphertext sequence.
pub open spec fn ct_seq_view(s: Seq<Ciphertext>) -> Seq<CiphertextV> {
    Seq::new(s.len(), |i: int| s[i]@)
}

/// Whether both operands of a gate are trivial, making it free.
pub open spec fn sp_both_trivial(l: CiphertextV, r: CiphertextV) -> bool {
    l is Trivial && r is Trivial
}

/// The linear combinations a packed gate call sends to the bootstrapper for
/// the input range `[lo, hi)`: one per pair of operands that is not wholly
/// trivial, in input order.
pub open spec fn sp_pending(gates: Seq<Gate>, ls: Seq<CiphertextV>, rs: Seq<CiphertextV>,
    lo: int, hi: int) -> Seq<LweV>
    decreases hi - lo,
{
    if hi <= lo {
        Seq::empty()
    } else {
        let p = sp_pending(gates, ls, rs, lo, hi - 1);
        if sp_both_trivial(ls[hi - 1], rs[hi - 1]) {
            p
        } else {
            p.push(sp_lin_combo(gates[hi - 1], sp_ct_as_lwe(ls[hi - 1]), sp_ct_as_lwe(
                rs[hi - 1])))
        }
    }
}

/// A batch never outgrows its input range.
proof fn lemma_pending_len(gates: Seq<Gate>, ls: Seq<CiphertextV>, rs: Seq<CiphertextV>,
    lo: int, hi: int)
    requires
        lo <= hi,
    ensures
        sp_pending(gates, ls, rs, lo, hi).len() <= hi - lo,
    decreases hi - lo,
{
    if lo < hi {
        lemma_pending_len(gates, ls, rs, lo, hi - 1);
    }
}

/// The batch of a longer range extends the batch of a shorter one: the
/// entries already collected keep their positions.
proof fn lemma_pending_prefix(gates: Seq<Gate>, ls: Seq<CiphertextV>, rs: Seq<CiphertextV>,
    lo: int, k: int, hi: int)
    requires
        lo <= k <= hi,
    ensures
        sp_pending(gates, ls, rs, lo, k).len() <= sp_pending(gates, ls, rs, lo, hi).len(),
        forall|j: int| 0 <= j < sp_pending(gates, ls, rs, lo, k).len()
            ==> #[trigger] sp_pending(gates, ls, rs, lo, hi)[j] == sp_pending(gates, ls, rs,
            lo, k)[j],
    decreases hi - k,
{
    if k < hi {
        lemma_pending_prefix(gates, ls, rs, lo, k, hi - 1);
    }
}

/// The truth table of a binary gate, computed.
pub fn gate_truth(g: Gate, a: bool, b: bool) -> (r: bool)
    ensures
        r == sp_gate_truth(g, a, b),
{
    match g {
        Gate::And => a && b,
        Gate::Nand => !(a && b),
        Gate::Nor => !(a || b),
        Gate::Or => a || b,
        Gate::Xor => a != b,
        Gate::Xnor => a == b,
    }
}

/// The homomorphic binary gates, one ciphertext pair at a time.
pub trait BinaryBooleanGates {
    spec fn bin_wf(&self) -> bool;

    spec fn bin_bsk(&self) -> Seq<GgswV>;

    spec fn bin_ksk(&self) -> Seq<Seq<LweV>>;

    fn and(&mut self, ct_left: &Ciphertext, ct_right: &Ciphertext) -> (r: Ciphertext)
        requires
            old(self).bin_wf(),
            ct_left.wf(),
            ct_right.wf(),
        ensures
            final(self).bin_wf(),
            final(self).bin_bsk() == old(self).bin_bsk(),
            final(self).bin_ksk() == old(self).bin_ksk(),
            r.wf(),
            r@ == sp_gate_one(Gate::And, ct_left@, ct_right@, old(self).bin_bsk(),
                old(self).bin_ksk()),
    ;

    fn nand(&mut self, ct_left: &Ciphertext, ct_right: &Ciphertext) -> (r: Ciphertext)
        requires
            old(self).bin_wf(),
            ct_left.wf(),
            ct_right.wf(),
        ensures
            final(self).bin_wf(),
            final(self).bin_bsk() == old(self).bin_bsk(),
            final(self).bin_ksk() == old(self).bin_ksk(),
            r.wf(),
            r@ == sp_gate_one(Gate::Nand, ct_left@, ct_right@, old(self).bin_bsk(),
                old(self).bin_ksk()),
    ;

    fn nor(&mut self, ct_left: &Ciphertext, ct_right: &Ciphertext) -> (r: Ciphertext)
        requires
            old(self).bin_wf(),
            ct_left.wf(),
            ct_right.wf(),
        ensures
            final(self).bin_wf(),
            final(self).bin_bsk() == old(self).bin_bsk(),
            final(self).bin_ksk() == old(self).bin_ksk(),
            r.wf(),
            r@ == sp_gate_one(Gate::Nor, ct_left@, ct_right@, old(self).bin_bsk(),
                old(self).bin_ksk()),
    ;

    fn or(&mut self, ct_left: &Ciphertext, ct_right: &Ciphertext) -> (r: Ciphertext)
        requires
            old(self).bin_wf(),
            ct_left.wf(),
            ct_right.wf(),
        ensures
            final(self).bin_wf(),
            final(self).bin_bsk() == old(self).bin_bsk(),
            final(self).bin_ksk() == old(self).bin_ksk(),
            r.wf(),
            r@ == sp_gate_one(Gate::Or, ct_left@, ct_right@, old(self).bin_bsk(),
                old(self).bin_ksk()),
    ;

    fn xor(&mut self, ct_left: &Ciphertext, ct_right: &Ciphertext) -> (r: Ciphertext)
        requires
            old(self).bin_wf(),
            ct_left.wf(),
            ct_right.wf(),
        ensures
            final(self).bin_wf(),
            final(self).bin_bsk() == old(self).bin_bsk(),
            final(self).bin_ksk() == old(self).bin_ksk(),
            r.wf(),
            r@ == sp_gate_one(Gate::Xor, ct_left@, ct_right@, old(self).bin_bsk(),
                old(self).bin_ksk()),
    ;

    fn xnor(&mut self, ct_left: &Ciphertext, ct_right: &Ciphertext) -> (r: Ciphertext)
        requires
            old(self).bin_wf(),
            ct_left.wf(),
            ct_right.wf(),
        ensures
            final(self).bin_wf(),
            final(self).bin_bsk() == old(self).bin_bsk(),
            final(self).bin_ksk() == old(self).bin_ksk(),
            r.wf(),
            r@ == sp_gate_one(Gate::Xnor, ct_left@, ct_right@, old(self).bin_bsk(),
                old(self).bin_ksk()),
    ;
}

/// The homomorphic binary gates, writing the result over the left operand.
pub trait BinaryBooleanGatesAssign {
    spec fn assign_wf(&self) -> bool;

    spec fn assign_bsk(&self) -> Seq<GgswV>;

    spec fn assign_ksk(&self) -> Seq<Seq<LweV>>;

    fn and_assign(&mut self, ct_left: &mut Ciphertext, ct_right: &Ciphertext)
        requires
            old(self).assign_wf(),
            old(ct_left).wf(),
            ct_right.wf(),
        ensures
            final(self).assign_wf(),
            final(self).assign_bsk() == old(self).assign_bsk(),
            final(self).assign_ksk() == old(self).assign_ksk(),
            final(ct_left).wf(),
            final(ct_left)@ == sp_gate_one(Gate::And, old(ct_left)@, ct_right@,
                old(self).assign_bsk(), old(self).assign_ksk()),
    ;

    fn nand_assign(&mut self, ct_left: &mut Ciphertext, ct_right: &Ciphertext)
        requires
            old(self).assign_wf(),
            old(ct_left).wf(),
            ct_right.wf(),
        ensures
            final(self).assign_wf(),
            final(self).assign_bsk() == old(self).assign_bsk(),
            final(self).assign_ksk() == old(self).assign_ksk(),
            final(ct_left).wf(),
            final(ct_left)@ == sp_gate_one(Gate::Nand, old(ct_left)@, ct_right@,
                old(self).assign_bsk(), old(self).assign_ksk()),
    ;

    fn nor_assign(&mut self, ct_left: &mut Ciphertext, ct_right: &Ciphertext)
        requires
            old(self).assign_wf(),
            old(ct_left).wf(),
            ct_right.wf(),
        ensures
            final(self).assign_wf(),
            final(self).assign_bsk() == old(self).assign_bsk(),
            final(self).assign_ksk() == old(self).assign_ksk(),
            final(ct_left).wf(),
            final(ct_left)@ == sp_gate_one(Gate::Nor, old(ct_left)@, ct_right@,
                old(self).assign_bsk(), old(self).assign_ksk()),
    ;

    fn or_assign(&mut self, ct_left: &mut Ciphertext, ct_right: &Ciphertext)
        requires
            old(self).assign_wf(),
            old(ct_left).wf(),
            ct_right.wf(),
        ensures
            final(self).assign_wf(),
            final(self).assign_bsk() == old(self).assign_bsk(),
            final(self).assign_ksk() == old(self).assign_ksk(),
            final(ct_left).wf(),
            final(ct_left)@ == sp_gate_one(Gate::Or, old(ct_left)@, ct_right@,
                old(self).assign_bsk(), old(self).assign_ksk()),
    ;

    fn xor_assign(&mut self, ct_left: &mut Ciphertext, ct_right: &Ciphertext)
        requires
            old(self).assign_wf(),
            old(ct_left).wf(),
            ct_right.wf(),
        ensures
            final(self).assign_wf(),
            final(self).assign_bsk() == old(self).assign_bsk(),
            final(self).assign_ksk() == old(self).assign_ksk(),
            final(ct_left).wf(),
            final(ct_left)@ == sp_gate_one(Gate::Xor, old(ct_left)@, ct_right@,
                old(self).assign_bsk(), old(self).assign_ksk()),
    ;

    fn xnor_assign(&mut self, ct_left: &mut Ciphertext, ct_right: &Ciphertext)
        requires
            old(self).assign_wf(),
            old(ct_left).wf(),
            ct_right.wf(),
        ensures
            final(self).assign_wf(),
            final(self).assign_bsk() == old(self).assign_bsk(),
            final(self).assign_ksk() == old(self).assign_ksk(),
            final(ct_left).wf(),
            final(ct_left)@ == sp_gate_one(Gate::Xnor, old(ct_left)@, ct_right@,
                old(self).assign_bsk(), old(self).assign_ksk()),
    ;
}

/// The homomorphic binary gates over equal-length ciphertext sequences:
/// output index `i` holds the result for the operands at index `i`, order and
/// length preserved exactly, with bootstrapping batched up to
/// `PACKING_FACTOR` ciphertexts per device call.
pub trait PackedBinaryBooleanGates {
    spec fn packed_wf(&self) -> bool;

    spec fn packed_bsk(&self) -> Seq<GgswV>;

    spec fn packed_ksk(&self) -> Seq<Seq<LweV>>;

    fn gates_packed(&mut self, gates: &Vec<Gate>, cts_left: &Vec<Ciphertext>,
        cts_right: &Vec<Ciphertext>) -> (r: Vec<Ciphertext>)
        requires
            old(self).packed_wf(),
            gates@.len() == cts_left@.len(),
            cts_left@.len() == cts_right@.len(),
            forall|i: int| 0 <= i < cts_left@.len() ==> (#[trigger] cts_left@[i]).wf(),
            forall|i: int| 0 <= i < cts_right@.len() ==> (#[trigger] cts_right@[i]).wf(),
        ensures
            final(self).packed_wf(),
            final(self).packed_bsk() == old(self).packed_bsk(),
            final(self).packed_ksk() == old(self).packed_ksk(),
            r@.len() == cts_left@.len(),
            forall|i: int| 0 <= i < r@.len() ==> (#[trigger] r@[i]).wf(),
            forall|i: int| 0 <= i < r@.len() ==> #[trigger] r@[i]@ == sp_gate_one(gates@[i],
                cts_left@[i]@, cts_right@[i]@, old(self).packed_bsk(), old(self).packed_ksk()),
    ;

    fn and_packed(&mut self, cts_left: &Vec<Ciphertext>, cts_right: &Vec<Ciphertext>) -> (r:
        Vec<Ciphertext>)
        requires
            old(self).packed_wf(),
            cts_left@.len() == cts_right@.len(),
            forall|i: int| 0 <= i < cts_left@.len() ==> (#[trigger] cts_left@[i]).wf(),
            forall|i: int| 0 <= i < cts_right@.len() ==> (#[trigger] cts_right@[i]).wf(),
        ensures
            final(self).packed_wf(),
            final(self).packed_bsk() == old(self).packed_bsk(),
            final(self).packed_ksk() == old(self).packed_ksk(),
            r@.len() == cts_left@.len(),
            forall|i: int| 0 <= i < r@.len() ==> (#[trigger] r@[i]).wf(),
            forall|i: int| 0 <= i < r@.len() ==> #[trigger] r@[i]@ == sp_gate_one(Gate::And,
                cts_left@[i]@, cts_right@[i]@, old(self).packed_bsk(), old(self).packed_ksk()),
    ;

    fn or_packed(&mut self, cts_left: &Vec<Ciphertext>, cts_right: &Vec<Ciphertext>) -> (r:
        Vec<Ciphertext>)
        requires
            old(self).packed_wf(),
            cts_left@.len() == cts_right@.len(),
            forall|i: int| 0 <= i < cts_left@.len() ==> (#[trigger] cts_left@[i]).wf(),
            forall|i: int| 0 <= i < cts_right@.len() ==> (#[trigger] cts_right@[i]).wf(),
        ensures
            final(self).packed_wf(),
            final(self).packed_bsk() == old(self).packed_bsk(),
            final(self).packed_ksk() == old(self).packed_ksk(),
            r@.len() == cts_left@.len(),
            forall|i: int| 0 <= i < r@.len() ==> (#[trigger] r@[i]).wf(),
            forall|i: int| 0 <= i < r@.len() ==> #[trigger] r@[i]@ == sp_gate_one(Gate::Or,
                cts_left@[i]@, cts_right@[i]@, old(self).packed_bsk(), old(self).packed_ksk()),
    ;

    fn xor_packed(&mut self, cts_left: &Vec<Ciphertext>, cts_right: &Vec<Ciphertext>) -> (r:
        Vec<Ciphertext>)
        requires
            old(self).packed_wf(),
            cts_left@.len() == cts_right@.len(),
            forall|i: int| 0 <= i < cts_left@.len() ==> (#[trigger] cts_left@[i]).wf(),
            forall|i: int| 0 <= i < cts_right@.len() ==> (#[trigger] cts_right@[i]).wf(),
        ensures
            final(self).packed_wf(),
            final(self).packed_bsk() == old(self).packed_bsk(),
            final(self).packed_ksk() == old(self).packed_ksk(),
            r@.len() == cts_left@.len(),
            forall|i: int| 0 <= i < r@.len() ==> (#[trigger] r@[i]).wf(),
            forall|i: int| 0 <= i < r@.len() ==> #[trigger] r@[i]@ == sp_gate_one(Gate::Xor,
                cts_left@[i]@, cts_right@[i]@, old(self).packed_bsk(), old(self).packed_ksk()),
    ;
}

/// Control of the hardware-accelerator backend.
pub trait FpgaGates: Sized {
    spec fn fpga_wf(&self) -> bool;

    spec fn fpga_hardware(&self) -> bool;

    spec fn fpga_sessions(&self) -> u32;

    /// Enables the hardware backend. A second enablement is an observable
    /// no-op: the state is unchanged and no device resource is allocated
    /// again. Every error must be treated as fatal by the caller.
    fn enable_fpga(&mut self, cfg: &HardwareConfig) -> (r: Result<(), HardwareError>)
        requires
            old(self).fpga_wf(),
            old(self).fpga_sessions() < u32::MAX,
        ensures
            final(self).fpga_wf(),
            old(self).fpga_hardware() ==> *final(self) == *old(self) && r is Ok,
            !old(self).fpga_hardware() ==> {
                &&& (r is Ok <==> cfg.image is Some && cfg.device_index is Some
                    && crate::text::sp_parse_u32(cfg.device_index.unwrap()@) is Some)
                &&& (r is Err ==> *final(self) == *old(self))
                &&& (r is Ok ==> final(self).fpga_hardware() && final(self).fpga_sessions()
                    == old(self).fpga_sessions() + 1)
                &&& (r == Result::<(), HardwareError>::Err(HardwareError::MissingImage)
                    <==> cfg.image is None)
                &&& (r == Result::<(), HardwareError>::Err(HardwareError::MissingDeviceIndex)
                    <==> cfg.image is Some && cfg.device_index is None)
                &&& (r == Result::<(), HardwareError>::Err(HardwareError::InvalidDeviceIndex)
                    <==> cfg.image is Some && cfg.device_index is Some
                    && crate::text::sp_parse_u32(cfg.device_index.unwrap()@) is None)
            },
    ;

    /// Releases the device session and returns to the software backend; a
    /// no-op when already there.
    fn disable_fpga(&mut self)
        requires
            old(self).fpga_wf(),
        ensures
            final(self).fpga_wf(),
            !final(self).fpga_hardware(),
            final(self).fpga_sessions() == old(self).fpga_sessions(),
    ;
}

/// The server's evaluation key: bootstrapping key, key-switching key, and
/// the bootstrapper that owns the backend state.
pub struct ServerKey {
    pub bsk: Vec<Ggsw>,
    pub ksk: Vec<Vec<LweSample>>,
    pub bootstrapper: Bootstrapper,
}

impl ServerKey {
    /// View of the bootstrapping key.
    pub open spec fn bskv(&self) -> Seq<GgswV> {
        bsk_view(self.bsk@)
    }

    /// View of the key-switching key.
    pub open spec fn kskv(&self) -> Seq<Seq<LweV>> {
        ksk_view(self.ksk@)
    }

    /// A well-formed server key: well-formed key material, and a
    /// bootstrapper whose device session, if open, holds exactly this
    /// key's transformed image.
    pub open spec fn wf(&self) -> bool {
        &&& bsk_wf(self.bskv())
        &&& ksk_wf(self.kskv())
        &&& self.bootstrapper.wf_for(self.bskv())
    }

    /// Evaluates one gate: a pair of trivial operands resolves locally;
    /// anything else is one linear combination and one bootstrap.
    fn gate_one(&mut self, g: Gate, ct_left: &Ciphertext, ct_right: &Ciphertext) -> (r:
        Ciphertext)
        requires
            old(self).wf(),
            ct_left.wf(),
            ct_right.wf(),
        ensures
            final(self).wf(),
            final(self).bsk == old(self).bsk,
            final(self).ksk == old(self).ksk,
            final(self).bootstrapper.is_hardware() == old(self).bootstrapper.is_hardware(),
            final(self).bootstrapper.sessions_opened == old(self).bootstrapper.sessions_opened,
            r.wf(),
            r@ == sp_gate_one(g, ct_left@, ct_right@, old(self).bskv(), old(self).kskv()),
    {
        let trivial_pair = match (ct_left, ct_right) {
            (Ciphertext::Trivial(_), Ciphertext::Trivial(_)) => true,
            _ => false,
        };
        if trivial_pair {
            let a = match ct_left {
                Ciphertext::Trivial(a) => *a,
                _ => false,
            };
            let b = match ct_right {
                Ciphertext::Trivial(b) => *b,
                _ => false,
            };
            return Ciphertext::Trivial(gate_truth(g, a, b));
        }
        let la = ct_as_lwe(ct_left);
        let ra = ct_as_lwe(ct_right);
        let combo = lin_combo(g, &la, &ra);
        let mut batch: Vec<LweSample> = Vec::new();
        batch.push(combo);
        let boot = self.bootstrapper.bootstrap_and_keyswitch_packed(&batch, &self.bsk,
            &self.ksk);
        ct_dup(&boot[0])
    }

    /// Evaluates an equal-length sequence of gates, batching the
    /// bootstraps. Output order and length match the input exactly.
    fn gates_packed_impl(&mut self, gates: &Vec<Gate>, cts_left: &Vec<Ciphertext>,
        cts_right: &Vec<Ciphertext>) -> (r: Vec<Ciphertext>)
        requires
            old(self).wf(),
            gates@.len() == cts_left@.len(),
            cts_left@.len() == cts_right@.len(),
            forall|i: int| 0 <= i < cts_left@.len() ==> (#[trigger] cts_left@[i]).wf(),
            forall|i: int| 0 <= i < cts_right@.len() ==> (#[trigger] cts_right@[i]).wf(),
        ensures
            final(self).wf(),
            final(self).bsk == old(self).bsk,
            final(self).ksk == old(self).ksk,
            final(self).bootstrapper.is_hardware() == old(self).bootstrapper.is_hardware(),
            final(self).bootstrapper.sessions_opened == old(self).bootstrapper.sessions_opened,
            r@.len() == cts_left@.len(),
            forall|i: int| 0 <= i < r@.len() ==> (#[trigger] r@[i]).wf(),
            forall|i: int| 0 <= i < r@.len() ==> #[trigger] r@[i]@ == sp_gate_one(gates@[i],
                cts_left@[i]@, cts_right@[i]@, old(self).bskv(), old(self).kskv()),
    {
        let ghost bskv = old(self).bskv();
        let ghost kv = old(self).kskv();
        let ghost lsv = ct_seq_view(cts_left@);
        let ghost rsv = ct_seq_view(cts_right@);
        let n = gates.len();
        let mut out: Vec<Ciphertext> = Vec::new();
        let mut start: usize = 0;
        while start < n
            invariant
                self.wf(),
                self.bsk == old(self).bsk,
                self.ksk == old(self).ksk,
                self.bootstrapper.is_hardware() == old(self).bootstrapper.is_hardware(),
                self.bootstrapper.sessions_opened == old(self).bootstrapper.sessions_opened,
                bskv == self.bskv(),
                kv == self.kskv(),
                lsv == ct_seq_view(cts_left@),
                rsv == ct_seq_view(cts_right@),
                n == gates@.len(),
                gates@.len() == cts_left@.len(),
                cts_left@.len() == cts_right@.len(),
                forall|i: int| 0 <= i < cts_left@.len() ==> (#[trigger] cts_left@[i]).wf(),
                forall|i: int| 0 <= i < cts_right@.len() ==> (#[trigger] cts_right@[i]).wf(),
                start <= n,
                out@.len() == start,
                forall|i: int| 0 <= i < start ==> (#[trigger] out@[i]).wf(),
                forall|i: int| 0 <= i < start ==> #[trigger] out@[i]@ == sp_gate_one(gates@[i],
                    cts_left@[i]@, cts_right@[i]@, bskv, kv),
            decreases n - start,
        {
            let end = if n - start > PACKING_FACTOR {
                start + PACKING_FACTOR
            } else {
                n
            };
            // Collect the linear combinations of the chunk's non-trivial pairs.
            let mut batch: Vec<LweSample> = Vec::new();
            let mut k: usize = start;
            while k < end
                invariant
                    lsv == ct_seq_view(cts_left@),
                    rsv == ct_seq_view(cts_right@),
                    gates@.len() == cts_left@.len(),
                    cts_left@.len() == cts_right@.len(),
                    forall|i: int| 0 <= i < cts_left@.len() ==> (#[trigger] cts_left@[i]).wf(),
                    forall|i: int| 0 <= i < cts_right@.len() ==> (
                    #[trigger] cts_right@[i]).wf(),
                    start <= k <= end,
                    end <= n == gates@.len(),
                    end - start <= PACKING_FACTOR,
                    batch@.len() == sp_pending(gates@, lsv, rsv, start as int, k as int).len(),
                    forall|j: int| 0 <= j < batch@.len() ==> #[trigger] batch@[j]@
                        == sp_pending(gates@, lsv, rsv, start as int, k as int)[j],
                    forall|j: int| 0 <= j < batch@.len() ==> lwe_wf(#[trigger] batch@[j]@,
                        LWE_DIM as int),
                decreases end - k,
            {
                let trivial_pair = match (&cts_left[k], &cts_right[k]) {
                    (Ciphertext::Trivial(_), Ciphertext::Trivial(_)) => true,
                    _ => false,
                };
                if !trivial_pair {
                    let la = ct_as_lwe(&cts_left[k]);
                    let ra = ct_as_lwe(&cts_right[k]);
                    batch.push(lin_combo(gates[k], &la, &ra));
                }
                k += 1;
            }
            proof {
                lemma_pending_len(gates@, lsv, rsv, start as int, end as int);
            }
            let boot = self.bootstrapper.bootstrap_and_keyswitch_packed(&batch, &self.bsk,
                &self.ksk);
            // Merge bootstrapped and trivial results back in input order.
            let mut bi: usize = 0;
            let mut k2: usize = start;
            while k2 < end
                invariant
                    self.wf(),
                    self.bsk == old(self).bsk,
                    self.ksk == old(self).ksk,
                    bskv == self.bskv(),
                    kv == self.kskv(),
                    lsv == ct_seq_view(cts_left@),
                    rsv == ct_seq_view(cts_right@),
                    gates@.len() == cts_left@.len(),
                    cts_left@.len() == cts_right@.len(),
                    start <= k2 <= end,
                    end <= n == gates@.len(),
                    bi == sp_pending(gates@, lsv, rsv, start as int, k2 as int).len(),
                    boot@.len() == sp_pending(gates@, lsv, rsv, start as int, end as int).len(),
                    forall|j: int| 0 <= j < boot@.len() ==> #[trigger] boot@[j]@
                        == CiphertextV::Encrypted(sp_pbs_ks(bskv, kv, sp_pending(gates@, lsv,
                        rsv, start as int, end as int)[j])),
                    forall|j: int| 0 <= j < boot@.len() ==> (#[trigger] boot@[j]).wf(),
                    out@.len() == k2,
                    forall|i: int| 0 <= i < k2 ==> (#[trigger] out@[i]).wf(),
                    forall|i: int| 0 <= i < k2 ==> #[trigger] out@[i]@ == sp_gate_one(
                        gates@[i], cts_left@[i]@, cts_right@[i]@, bskv, kv),
                decreases end - k2,
            {
                let trivial_pair = match (&cts_left[k2], &cts_right[k2]) {
                    (Ciphertext::Trivial(_), Ciphertext::Trivial(_)) => true,
                    _ => false,
                };
                if trivial_pair {
                    let a = match &cts_left[k2] {
                        Ciphertext::Trivial(a) => *a,
                        _ => false,
                    };
                    let b = match &cts_right[k2] {
                        Ciphertext::Trivial(b) => *b,
                        _ => false,
                    };
                    out.push(Ciphertext::Trivial(gate_truth(gates[k2], a, b)));
                } else {
                    proof {
                        lemma_pending_prefix(gates@, lsv, rsv, start as int, k2 as int + 1,
                            end as int);
                        lemma_pending_len(gates@, lsv, rsv, start as int, k2 as int);
                        assert(bi <= k2 - start);
                        assert(sp_pending(gates@, lsv, rsv, start as int, k2 as int + 1).len()
                            == bi + 1);
                        assert(bi < boot@.len());
                    }
                    let fresh = ct_dup(&boot[bi]);
                    out.push(fresh);
                    bi += 1;
                }
                k2 += 1;
            }
            start = end;
        }
        out
    }

    /// Generates the server key from a client key: gadget encryptions of
    /// the LWE key bits under the GLWE key form the bootstrapping key, and
    /// gadget encryptions of the GLWE key coefficients under the LWE key
    /// form the key-switching key.
    pub fn new(cks: &ClientKey) -> (r: ServerKey)
        requires
            cks.wf(),
        ensures
            r.wf(),
            !r.bootstrapper.is_hardware(),
            r.bootstrapper.sessions_opened == 0,
    {
        let mut state: u64 = cks.rng;
        let mut bsk: Vec<Ggsw> = Vec::new();
        let mut i: usize = 0;
        while i < LWE_DIM
            invariant
                cks.wf(),
                i <= LWE_DIM,
                bsk@.len() == i,
                forall|a: int| 0 <= a < i ==> crate::glwe::ggsw_wf(#[trigger] bsk@[a]@),
            decreases LWE_DIM - i,
        {
            let sbit = cks.lwe_sk[i];
            let mut rows: Vec<GlweCt> = Vec::new();
            let mut t: usize = 0;
            while t < (GLWE_DIM + 1) * PBS_LEVELS
                invariant
                    cks.wf(),
                    i < LWE_DIM,
                    t <= (GLWE_DIM + 1) * PBS_LEVELS,
                    rows@.len() == t,
                    forall|b: int| 0 <= b < t ==> crate::glwe::glwe_wf(#[trigger] rows@[b]@),
                decreases (GLWE_DIM + 1) * PBS_LEVELS - t,
            {
                let r_comp = t / PBS_LEVELS;
                let j = t % PBS_LEVELS;
                let mut mask_p: Vec<u32> = Vec::new();
                let mut c: usize = 0;
                while c < POLY_SIZE
                    invariant
                        c <= POLY_SIZE,
                        mask_p@.len() == c,
                    decreases POLY_SIZE - c,
                {
                    state = state.wrapping_mul(crate::client::LCG_MUL).wrapping_add(
                        crate::client::LCG_INC);
                    mask_p.push((state >> 32) as u32);
                    c += 1;
                }
                let mut body_p = poly_mul(&mask_p, &cks.glwe_sk);
                if sbit == 1 {
                    let g: u32 = 1u32 << (MOD_LOG2 - PBS_BASE_LOG * (j as u32 + 1));
                    let mut gp: Vec<u32> = Vec::new();
                    gp.push(g);
                    let mut z: usize = 1;
                    while z < POLY_SIZE
                        invariant
                            1 <= z <= POLY_SIZE,
                            gp@.len() == z,
                        decreases POLY_SIZE - z,
                    {
                        gp.push(0);
                        z += 1;
                    }
                    if r_comp == 0 {
                        mask_p = poly_add(&mask_p, &gp);
                    } else {
                        body_p = poly_add(&body_p, &gp);
                    }
                }
                rows.push(GlweCt { mask: mask_p, body: body_p });
                t += 1;
            }
            bsk.push(Ggsw { rows });
            i += 1;
        }
        let mut ksk: Vec<Vec<LweSample>> = Vec::new();
        let mut p: usize = 0;
        while p < EXT_LWE_DIM
            invariant
                cks.wf(),
                p <= EXT_LWE_DIM,
                ksk@.len() == p,
                forall|a: int| 0 <= a < p ==> (#[trigger] ksk@[a])@.len() == KS_LEVELS,
                forall|a: int, b: int| 0 <= a < p && 0 <= b < KS_LEVELS ==> lwe_wf(
                    #[trigger] ksk@[a]@[b]@, LWE_DIM as int),
            decreases EXT_LWE_DIM - p,
        {
            let s_ext = cks.glwe_sk[p];
            let mut level_row: Vec<LweSample> = Vec::new();
            let mut j: usize = 0;
            while j < KS_LEVELS
                invariant
                    cks.wf(),
                    p < EXT_LWE_DIM,
                    s_ext == cks.glwe_sk@[p as int],
                    j <= KS_LEVELS,
                    level_row@.len() == j,
                    forall|b: int| 0 <= b < j ==> lwe_wf(#[trigger] level_row@[b]@,
                        LWE_DIM as int),
                decreases KS_LEVELS - j,
            {
                let mut mask: Vec<u32> = Vec::new();
                let mut m: usize = 0;
                while m < LWE_DIM
                    invariant
                        m <= LWE_DIM,
                        mask@.len() == m,
                    decreases LWE_DIM - m,
                {
                    state = state.wrapping_mul(crate::client::LCG_MUL).wrapping_add(
                        crate::client::LCG_INC);
                    mask.push((state >> 32) as u32);
                    m += 1;
                }
                let g: u32 = 1u32 << (MOD_LOG2 - KS_BASE_LOG * (j as u32 + 1));
                let body = lwe_dot(&mask, &cks.lwe_sk).wrapping_add(s_ext.wrapping_mul(g));
                level_row.push(LweSample { mask, body, modulus_log2: MOD_LOG2 });
                j += 1;
            }
            ksk.push(level_row);
            p += 1;
        }
        proof {
            assert(bsk_wf(bsk_view(bsk@)));
            assert(ksk_wf(ksk_view(ksk@)));
        }
        ServerKey { bsk, ksk, bootstrapper: Bootstrapper::new() }
    }

    /// A trivial (unencrypted) ciphertext of the given bit.
    pub fn trivial_encrypt(&self, message: bool) -> (r: Ciphertext)
        ensures
            r@ == CiphertextV::Trivial(message),
            r.wf(),
    {
        Ciphertext::Trivial(message)
    }

    /// The homomorphic NOT: a local negation, no bootstrap.
    pub fn not(&self, ct: &Ciphertext) -> (r: Ciphertext)
        requires
            ct.wf(),
        ensures
            r@ == sp_ct_not(ct@),
            r.wf(),
    {
        match ct {
            Ciphertext::Trivial(b) => Ciphertext::Trivial(!*b),
            Ciphertext::Encrypted(s) => {
                let mut mask: Vec<u32> = Vec::new();
                let mut i: usize = 0;
                while i < s.mask.len()
                    invariant
                        i <= s.mask@.len(),
                        mask@.len() == i,
                        forall|k: int| 0 <= k < i ==> mask@[k] == 0u32.wrapping_sub(
                            s.mask@[k]),
                    decreases s.mask@.len() - i,
                {
                    mask.push(0u32.wrapping_sub(s.mask[i]));
                    i += 1;
                }
                let out = LweSample {
                    mask,
                    body: 0u32.wrapping_sub(s.body),
                    modulus_log2: s.modulus_log2,
                };
                proof {
                    let spv = sp_ct_not(ct@);
                    assert(out@.mask =~= spv->Encrypted_0.mask);
                }
                Ciphertext::Encrypted(out)
            },
        }
    }

    /// The homomorphic NOT in place.
    pub fn not_assign(&self, ct: &mut Ciphertext)
        requires
            old(ct).wf(),
        ensures
            final(ct)@ == sp_ct_not(old(ct)@),
            final(ct).wf(),
    {
        *ct = self.not(ct);
    }

    /// The homomorphic NOT over a sequence, order and length preserved.
    pub fn not_packed(&self, cts: &Vec<Ciphertext>) -> (r: Vec<Ciphertext>)
        requires
            forall|i: int| 0 <= i < cts@.len() ==> (#[trigger] cts@[i]).wf(),
        ensures
            r@.len() == cts@.len(),
            forall|i: int| 0 <= i < r@.len() ==> (#[trigger] r@[i]).wf(),
            forall|i: int| 0 <= i < r@.len() ==> #[trigger] r@[i]@ == sp_ct_not(cts@[i]@),
    {
        let mut out: Vec<Ciphertext> = Vec::new();
        let mut i: usize = 0;
        while i < cts.len()
            invariant
                forall|k: int| 0 <= k < cts@.len() ==> (#[trigger] cts@[k]).wf(),
                i <= cts@.len(),
                out@.len() == i,
                forall|k: int| 0 <= k < i ==> (#[trigger] out@[k]).wf(),
                forall|k: int| 0 <= k < i ==> #[trigger] out@[k]@ == sp_ct_not(cts@[k]@),
            decreases cts@.len() - i,
        {
            out.push(self.not(&cts[i]));
            i += 1;
        }
        out
    }

    /// The homomorphic MUX, expressed through nested AND/OR combinations:
    /// `(condition AND then) OR (NOT condition AND else)`.
    pub fn mux(&mut self, ct_condition: &Ciphertext, ct_then: &Ciphertext,
        ct_else: &Ciphertext) -> (r: Ciphertext)
        requires
            old(self).wf(),
            ct_condition.wf(),
            ct_then.wf(),
            ct_else.wf(),
        ensures
            final(self).wf(),
            final(self).bsk == old(self).bsk,
            final(self).ksk == old(self).ksk,
            r.wf(),
            r@ == sp_gate_one(Gate::Or, sp_gate_one(Gate::And, ct_condition@, ct_then@,
                old(self).bskv(), old(self).kskv()), sp_gate_one(Gate::And, sp_ct_not(
                ct_condition@), ct_else@, old(self).bskv(), old(self).kskv()),
                old(self).bskv(), old(self).kskv()),
    {
        let then_arm = self.gate_one(Gate::And, ct_condition, ct_then);
        let not_condition = self.not(ct_condition);
        let else_arm = self.gate_one(Gate::And, &not_condition, ct_else);
        self.gate_one(Gate::Or, &then_arm, &else_arm)
    }
}

impl BinaryBooleanGates for ServerKey {
    open spec fn bin_wf(&self) -> bool {
        self.wf()
    }

    open spec fn bin_bsk(&self) -> Seq<GgswV> {
        self.bskv()
    }

    open spec fn bin_ksk(&self) -> Seq<Seq<LweV>> {
        self.kskv()
    }

    fn and(&mut self, ct_left: &Ciphertext, ct_right: &Ciphertext) -> Ciphertext {
        self.gate_one(Gate::And, ct_left, ct_right)
    }

    fn nand(&mut self, ct_left: &Ciphertext, ct_right: &Ciphertext) -> Ciphertext {
        self.gate_one(Gate::Nand, ct_left, ct_right)
    }

    fn nor(&mut self, ct_left: &Ciphertext, ct_right: &Ciphertext) -> Ciphertext {
        self.gate_one(Gate::Nor, ct_left, ct_right)
    }

    fn or(&mut self, ct_left: &Ciphertext, ct_right: &Ciphertext) -> Ciphertext {
        self.gate_one(Gate::Or, ct_left, ct_right)
    }

    fn xor(&mut self, ct_left: &Ciphertext, ct_right: &Ciphertext) -> Ciphertext {
        self.gate_one(Gate::Xor, ct_left, ct_right)
    }

    fn xnor(&mut self, ct_left: &Ciphertext, ct_right: &Ciphertext) -> Ciphertext {
        self.gate_one(Gate::Xnor, ct_left, ct_right)
    }
}

impl BinaryBooleanGatesAssign for ServerKey {
    open spec fn assign_wf(&self) -> bool {
        self.wf()
    }

    open spec fn assign_bsk(&self) -> Seq<GgswV> {
        self.bskv()
    }

    open spec fn assign_ksk(&self) -> Seq<Seq<LweV>> {
        self.kskv()
    }

    fn and_assign(&mut self, ct_left: &mut Ciphertext, ct_right: &Ciphertext) {
        *ct_left = self.gate_one(Gate::And, ct_left, ct_right);
    }

    fn nand_assign(&mut self, ct_left: &mut Ciphertext, ct_right: &Ciphertext) {
        *ct_left = self.gate_one(Gate::Nand, ct_left, ct_right);
    }

    fn nor_assign(&mut self, ct_left: &mut Ciphertext, ct_right: &Ciphertext) {
        *ct_left = self.gate_one(Gate::Nor, ct_left, ct_right);
    }

    fn or_assign(&mut self, ct_left: &mut Ciphertext, ct_right: &Ciphertext) {
        *ct_left = self.gate_one(Gate::Or, ct_left, ct_right);
    }

    fn xor_assign(&mut self, ct_left: &mut Ciphertext, ct_right: &Ciphertext) {
        *ct_left = self.gate_one(Gate::Xor, ct_left, ct_right);
    }

    fn xnor_assign(&mut self, ct_left: &mut Ciphertext, ct_right: &Ciphertext) {
        *ct_left = self.gate_one(Gate::Xnor, ct_left, ct_right);
    }
}

impl PackedBinaryBooleanGates for ServerKey {
    open spec fn packed_wf(&self) -> bool {
        self.wf()
    }

    open spec fn packed_bsk(&self) -> Seq<GgswV> {
        self.bskv()
    }

    open spec fn packed_ksk(&self) -> Seq<Seq<LweV>> {
        self.kskv()
    }

    fn gates_packed(&mut self, gates: &Vec<Gate>, cts_left: &Vec<Ciphertext>,
        cts_right: &Vec<Ciphertext>) -> Vec<Ciphertext> {
        self.gates_packed_impl(gates, cts_left, cts_right)
    }

    fn and_packed(&mut self, cts_left: &Vec<Ciphertext>, cts_right: &Vec<Ciphertext>) -> Vec<
        Ciphertext,
    > {
        let gates = uniform_gates(Gate::And, cts_left.len());
        self.gates_packed_impl(&gates, cts_left, cts_right)
    }

    fn or_packed(&mut self, cts_left: &Vec<Ciphertext>, cts_right: &Vec<Ciphertext>) -> Vec<
        Ciphertext,
    > {
        let gates = uniform_gates(Gate::Or, cts_left.len());
        self.gates_packed_impl(&gates, cts_left, cts_right)
    }

    fn xor_packed(&mut self, cts_left: &Vec<Ciphertext>, cts_right: &Vec<Ciphertext>) -> Vec<
        Ciphertext,
    > {
        let gates = uniform_gates(Gate::Xor, cts_left.len());
        self.gates_packed_impl(&gates, cts_left, cts_right)
    }
}

/// A sequence repeating one gate.
fn uniform_gates(g: Gate, n: usize) -> (r: Vec<Gate>)
    ensures
        r@.len() == n,
        forall|i: int| 0 <= i < n ==> r@[i] == g,
{
    let mut r: Vec<Gate> = Vec::new();
    let mut i: usize = 0;
    while i < n
        invariant
            i <= n,
            r@.len() == i,
            forall|k: int| 0 <= k < i ==> r@[k] == g,
        decreases n - i,
    {
        r.push(g);
        i += 1;
    }
    r
}

impl FpgaGates for ServerKey {
    open spec fn fpga_wf(&self) -> bool {
        self.wf()
    }

    open spec fn fpga_hardware(&self) -> bool {
        self.bootstrapper.is_hardware()
    }

    open spec fn fpga_sessions(&self) -> u32 {
        self.bootstrapper.sessions_opened
    }

    fn enable_fpga(&mut self, cfg: &HardwareConfig) -> Result<(), HardwareError> {
        let spectral = spectral_of_bsk(&self.bsk);
        let r = self.bootstrapper.enable_fpga(cfg, &spectral);
        proof {
            if r is Ok && !old(self).bootstrapper.is_hardware() {
                assert(self.bootstrapper.session matches Some(s) && s.image@ == Seq::new(
                    crate::params::BSK_IMAGE_WORDS as nat, |w: int|
                    crate::layout::sp_image_word(spectral.pairs@, w)));
                assert(Seq::new(crate::params::BSK_IMAGE_WORDS as nat, |w: int|
                    crate::layout::sp_image_word(spectral.pairs@, w)) =~= sp_bsk_image(
                    self.bskv()));
            }
        }
        r
    }

    fn disable_fpga(&mut self) {
        self.bootstrapper.disable_fpga();
    }
}

/// A compressed server key: the derivation material from which the full
/// evaluation key is expanded. Key generation is deterministic, so the
/// client key material it captures determines the expanded key completely.
pub struct CompressedServerKey {
    pub material: ClientKey,
}

impl CompressedServerKey {
    /// Captures the derivation material of a server key.
    pub fn new(cks: &ClientKey) -> (r: CompressedServerKey)
        requires
            cks.wf(),
        ensures
            r.material.wf(),
    {
        CompressedServerKey {
            material: ClientKey {
                lwe_sk: cks.lwe_sk.clone(),
                glwe_sk: cks.glwe_sk.clone(),
                rng: cks.rng,
            },
        }
    }

    /// Expands the compressed key into a full server key.
    pub fn decompress(&self) -> (r: ServerKey)
        requires
            self.material.wf(),
        ensures
            r.wf(),
            !r.bootstrapper.is_hardware(),
            r.bootstrapper.sessions_opened == 0,
    {
        ServerKey::new(&self.material)
    }
}

} // verus!
