//! The homomorphic circuit of the cell-board rule: a ripple add of one
//! encrypted bit into an encrypted three-bit counter (with eight identified
//! with zero), the sum of eight neighbour bits, and the aliveness circuit
//! built only from packed AND/OR/XOR/NOT gates.
//!
//! Each function's contract fixes every output lane as the exact gate
//! composition of that lane's operands — the same per-gate function
//! `sp_gate_one` the packed gates are specified by — so the circuit's shape
//! is part of the contract, not only of the body.

use vstd::prelude::*;

use crate::gates::{sp_ct_not, sp_gate_one, Gate};
use crate::glwe::GgswV;
use crate::lwe::{Ciphertext, CiphertextV, LweV};
use crate::server_key::{PackedBinaryBooleanGates, ServerKey};

verus! {

/// Three equal-length columns of ciphertexts: the bits of a three-bit
/// counter, least significant first, one counter per lane.
pub open spec fn triple_wf(z: (Vec<Ciphertext>, Vec<Ciphertext>, Vec<Ciphertext>),
    lanes: int) -> bool {
    &&& z.0@.len() == lanes
    &&& z.1@.len() == lanes
    &&& z.2@.len() == lanes
    &&& forall|i: int| 0 <= i < lanes ==> (#[trigger] z.0@[i]).wf()
    &&& forall|i: int| 0 <= i < lanes ==> (#[trigger] z.1@[i]).wf()
    &&& forall|i: int| 0 <= i < lanes ==> (#[trigger] z.2@[i]).wf()
}

/// An equal-length column of well-formed ciphertexts.
pub open spec fn column_wf(v: Seq<Ciphertext>, lanes: int) -> bool {
    &&& v.len() == lanes
    &&& forall|i: int| 0 <= i < lanes ==> (#[trigger] v[i]).wf()
}

/// One lane of the ripple add: the carry-save gate composition adding one
/// bit to a three-bit counter, eight identified with zero. The five gates
/// are, in order: the new low bit, the carry into the middle bit, the new
/// middle bit, the carry into the high bit, and the new high bit.
pub open spec fn sp_add_1(bskv: Seq<GgswV>, kv: Seq<Seq<LweV>>, a: CiphertextV,
    b0: CiphertextV, b1: CiphertextV, b2: CiphertextV) -> (CiphertextV, CiphertextV,
    CiphertextV) {
    let c1 = sp_gate_one(Gate::Xor, a, b0, bskv, kv);
    let r0 = sp_gate_one(Gate::And, a, b0, bskv, kv);
    let c2 = sp_gate_one(Gate::Xor, r0, b1, bskv, kv);
    let r1 = sp_gate_one(Gate::And, r0, b1, bskv, kv);
    let c3 = sp_gate_one(Gate::Xor, r1, b2, bskv, kv);
    (c1, c2, c3)
}

/// One lane of the neighbour sum after the bits up to index `j` have been
/// added: the fold of `sp_add_1` over the lane's bits, starting from the
/// lane's encrypted zero counter.
pub open spec fn sp_sum_lane(bskv: Seq<GgswV>, kv: Seq<Seq<LweV>>, bits: Seq<CiphertextV>,
    z0: CiphertextV, z1: CiphertextV, z2: CiphertextV, j: int) -> (CiphertextV, CiphertextV,
    CiphertextV)
    decreases j,
{
    if j <= 0 {
        sp_add_1(bskv, kv, bits[0], z0, z1, z2)
    } else {
        let p = sp_sum_lane(bskv, kv, bits, z0, z1, z2, j - 1);
        sp_add_1(bskv, kv, bits[j], p.0, p.1, p.2)
    }
}

/// One lane of the aliveness circuit: sum the eight neighbour bits, test
/// the counter for two-or-three and for exactly three, and combine with the
/// cell bit — OR of (sum is three) and (cell AND sum is two or three).
pub open spec fn sp_is_alive(bskv: Seq<GgswV>, kv: Seq<Seq<LweV>>, cell: CiphertextV,
    bits: Seq<CiphertextV>, z0: CiphertextV, z1: CiphertextV, z2: CiphertextV) -> CiphertextV {
    let s = sp_sum_lane(bskv, kv, bits, z0, z1, z2, 7);
    let not_high = sp_ct_not(s.2);
    let sum_is_2_or_3 = sp_gate_one(Gate::And, s.1, not_high, bskv, kv);
    let sum_is_3 = sp_gate_one(Gate::And, s.0, sum_is_2_or_3, bskv, kv);
    let cell_and = sp_gate_one(Gate::And, cell, sum_is_2_or_3, bskv, kv);
    sp_gate_one(Gate::Or, sum_is_3, cell_and, bskv, kv)
}

/// The eight bits of one lane across the neighbour columns.
pub open spec fn sp_lane_bits(cols: Seq<Vec<Ciphertext>>, i: int) -> Seq<CiphertextV> {
    Seq::new(8, |e: int| cols[e]@[i]@)
}

/// Adds one encrypted bit per lane to the encrypted three-bit counter of
/// that lane, eight identified with zero: every output lane is exactly the
/// carry-save gate composition `sp_add_1` of its operands.
fn add_1(server_key: &mut ServerKey, a: &Vec<Ciphertext>, b: &(Vec<Ciphertext>,
    Vec<Ciphertext>, Vec<Ciphertext>)) -> (r: (Vec<Ciphertext>, Vec<Ciphertext>, Vec<
    Ciphertext>))
    requires
        old(server_key).wf(),
        column_wf(a@, a@.len() as int),
        triple_wf(*b, a@.len() as int),
    ensures
        final(server_key).wf(),
        final(server_key).bskv() == old(server_key).bskv(),
        final(server_key).kskv() == old(server_key).kskv(),
        triple_wf(r, a@.len() as int),
        forall|i: int| 0 <= i < a@.len() ==> #[trigger] r.0@[i]@ == sp_add_1(
            old(server_key).bskv(), old(server_key).kskv(), a@[i]@, b.0@[i]@, b.1@[i]@,
            b.2@[i]@).0,
        forall|i: int| 0 <= i < a@.len() ==> #[trigger] r.1@[i]@ == sp_add_1(
            old(server_key).bskv(), old(server_key).kskv(), a@[i]@, b.0@[i]@, b.1@[i]@,
            b.2@[i]@).1,
        forall|i: int| 0 <= i < a@.len() ==> #[trigger] r.2@[i]@ == sp_add_1(
            old(server_key).bskv(), old(server_key).kskv(), a@[i]@, b.0@[i]@, b.1@[i]@,
            b.2@[i]@).2,
{
    let c1 = server_key.xor_packed(a, &b.0);
    let r0 = server_key.and_packed(a, &b.0);
    let c2 = server_key.xor_packed(&r0, &b.1);
    let r1 = server_key.and_packed(&r0, &b.1);
    let c3 = server_key.xor_packed(&r1, &b.2);
    (c1, c2, c3)
}

/// Sums the encrypted bits of the eight columns, starting from an encrypted
/// three-bit zero: every output lane is exactly the fold `sp_sum_lane` of
/// that lane's eight bits.
fn sum(server_key: &mut ServerKey, elements: &[Vec<Ciphertext>; 8], zeros: &(Vec<Ciphertext>,
    Vec<Ciphertext>, Vec<Ciphertext>)) -> (r: (Vec<Ciphertext>, Vec<Ciphertext>, Vec<
    Ciphertext>))
    requires
        old(server_key).wf(),
        forall|e: int| 0 <= e < 8 ==> column_wf(#[trigger] elements@[e]@, elements@[0]@.len()
            as int),
        triple_wf(*zeros, elements@[0]@.len() as int),
    ensures
        final(server_key).wf(),
        final(server_key).bskv() == old(server_key).bskv(),
        final(server_key).kskv() == old(server_key).kskv(),
        triple_wf(r, elements@[0]@.len() as int),
        forall|i: int| 0 <= i < elements@[0]@.len() ==> #[trigger] r.0@[i]@ == sp_sum_lane(
            old(server_key).bskv(), old(server_key).kskv(), sp_lane_bits(elements@, i),
            zeros.0@[i]@, zeros.1@[i]@, zeros.2@[i]@, 7).0,
        forall|i: int| 0 <= i < elements@[0]@.len() ==> #[trigger] r.1@[i]@ == sp_sum_lane(
            old(server_key).bskv(), old(server_key).kskv(), sp_lane_bits(elements@, i),
            zeros.0@[i]@, zeros.1@[i]@, zeros.2@[i]@, 7).1,
        forall|i: int| 0 <= i < elements@[0]@.len() ==> #[trigger] r.2@[i]@ == sp_sum_lane(
            old(server_key).bskv(), old(server_key).kskv(), sp_lane_bits(elements@, i),
            zeros.0@[i]@, zeros.1@[i]@, zeros.2@[i]@, 7).2,
{
    let ghost lanes = elements@[0]@.len() as int;
    let ghost bskv = old(server_key).bskv();
    let ghost kv = old(server_key).kskv();
    let mut result = add_1(server_key, &elements[0], zeros);
    proof {
        assert forall|i: int| 0 <= i < lanes implies {
            &&& #[trigger] result.0@[i]@ == sp_sum_lane(bskv, kv, sp_lane_bits(elements@, i),
                zeros.0@[i]@, zeros.1@[i]@, zeros.2@[i]@, 0).0
            &&& result.1@[i]@ == sp_sum_lane(bskv, kv, sp_lane_bits(elements@, i),
                zeros.0@[i]@, zeros.1@[i]@, zeros.2@[i]@, 0).1
            &&& result.2@[i]@ == sp_sum_lane(bskv, kv, sp_lane_bits(elements@, i),
                zeros.0@[i]@, zeros.1@[i]@, zeros.2@[i]@, 0).2
        } by {
            assert(sp_lane_bits(elements@, i)[0] == elements@[0]@[i]@);
        }
    }
    let mut step: usize = 1;
    while step < 8
        invariant
            server_key.wf(),
            server_key.bskv() == bskv,
            server_key.kskv() == kv,
            bskv == old(server_key).bskv(),
            kv == old(server_key).kskv(),
            forall|e: int| 0 <= e < 8 ==> column_wf(#[trigger] elements@[e]@, lanes),
            triple_wf(*zeros, lanes),
            lanes == elements@[0]@.len() as int,
            1 <= step <= 8,
            triple_wf(result, lanes),
            forall|i: int| 0 <= i < lanes ==> #[trigger] result.0@[i]@ == sp_sum_lane(bskv,
                kv, sp_lane_bits(elements@, i), zeros.0@[i]@, zeros.1@[i]@, zeros.2@[i]@,
                step - 1).0,
            forall|i: int| 0 <= i < lanes ==> #[trigger] result.1@[i]@ == sp_sum_lane(bskv,
                kv, sp_lane_bits(elements@, i), zeros.0@[i]@, zeros.1@[i]@, zeros.2@[i]@,
                step - 1).1,
            forall|i: int| 0 <= i < lanes ==> #[trigger] result.2@[i]@ == sp_sum_lane(bskv,
                kv, sp_lane_bits(elements@, i), zeros.0@[i]@, zeros.1@[i]@, zeros.2@[i]@,
                step - 1).2,
        decreases 8 - step,
    {
        let ghost prev = result;
        result = add_1(server_key, &elements[step], &result);
        proof {
            assert forall|i: int| 0 <= i < lanes implies {
                &&& #[trigger] result.0@[i]@ == sp_sum_lane(bskv, kv, sp_lane_bits(elements@,
                    i), zeros.0@[i]@, zeros.1@[i]@, zeros.2@[i]@, step as int).0
                &&& result.1@[i]@ == sp_sum_lane(bskv, kv, sp_lane_bits(elements@, i),
                    zeros.0@[i]@, zeros.1@[i]@, zeros.2@[i]@, step as int).1
                &&& result.2@[i]@ == sp_sum_lane(bskv, kv, sp_lane_bits(elements@, i),
                    zeros.0@[i]@, zeros.1@[i]@, zeros.2@[i]@, step as int).2
            } by {
                assert(sp_lane_bits(elements@, i)[step as int] == elements@[step as int]@[i]@);
                assert(result.0@[i]@ == sp_add_1(bskv, kv, elements@[step as int]@[i]@,
                    prev.0@[i]@, prev.1@[i]@, prev.2@[i]@).0);
                assert(result.1@[i]@ == sp_add_1(bskv, kv, elements@[step as int]@[i]@,
                    prev.0@[i]@, prev.1@[i]@, prev.2@[i]@).1);
                assert(result.2@[i]@ == sp_add_1(bskv, kv, elements@[step as int]@[i]@,
                    prev.0@[i]@, prev.1@[i]@, prev.2@[i]@).2);
            }
        }
        step += 1;
    }
    result
}

/// Appends, for every lane, the encrypted aliveness of the cell after one
/// step: exactly `sp_is_alive`, the OR of (neighbour sum is three) and
/// (cell alive AND neighbour sum is two or three), computed homomorphically
/// from packed AND/OR/XOR/NOT gates alone. Entries already in `new_states`
/// are untouched; lanes are appended in input order.
pub fn is_alive(server_key: &mut ServerKey, cell_p: Vec<Ciphertext>, neighbours_p: [Vec<
    Ciphertext>; 8], zeros: &(Vec<Ciphertext>, Vec<Ciphertext>, Vec<Ciphertext>),
    new_states: &mut Vec<Ciphertext>)
    requires
        old(server_key).wf(),
        column_wf(cell_p@, cell_p@.len() as int),
        forall|e: int| 0 <= e < 8 ==> column_wf(#[trigger] neighbours_p@[e]@, cell_p@.len()
            as int),
        triple_wf(*zeros, cell_p@.len() as int),
        forall|i: int| 0 <= i < old(new_states)@.len() ==> (#[trigger] old(
        new_states)@[i]).wf(),
    ensures
        final(server_key).wf(),
        final(server_key).bskv() == old(server_key).bskv(),
        final(server_key).kskv() == old(server_key).kskv(),
        final(new_states)@.len() == old(new_states)@.len() + cell_p@.len(),
        forall|i: int| 0 <= i < old(new_states)@.len() ==> #[trigger] final(new_states)@[i]
            == old(new_states)@[i],
        forall|i: int| 0 <= i < final(new_states)@.len() ==> (#[trigger] final(
        new_states)@[i]).wf(),
        forall|i: int| 0 <= i < cell_p@.len() ==> #[trigger] final(new_states)@[old(
        new_states)@.len() + i]@ == sp_is_alive(old(server_key).bskv(),
            old(server_key).kskv(), cell_p@[i]@, sp_lane_bits(neighbours_p@, i),
            zeros.0@[i]@, zeros.1@[i]@, zeros.2@[i]@),
{
    let ghost lanes = cell_p@.len() as int;
    let ghost bskv = old(server_key).bskv();
    let ghost kv = old(server_key).kskv();
    proof {
        assert(column_wf(neighbours_p@[0]@, lanes));
    }
    let sum_neighbours = sum(server_key, &neighbours_p, zeros);
    let not_high = server_key.not_packed(&sum_neighbours.2);
    let sum_is_2_or_3 = server_key.and_packed(&sum_neighbours.1, &not_high);
    let inner = server_key.and_packed(&sum_neighbours.1, &not_high);
    let sum_is_3 = server_key.and_packed(&sum_neighbours.0, &inner);
    let cell_and = server_key.and_packed(&cell_p, &sum_is_2_or_3);
    let new_state = server_key.or_packed(&sum_is_3, &cell_and);
    proof {
        assert forall|i: int| 0 <= i < lanes implies #[trigger] new_state@[i]@ == sp_is_alive(
            bskv, kv, cell_p@[i]@, sp_lane_bits(neighbours_p@, i), zeros.0@[i]@,
            zeros.1@[i]@, zeros.2@[i]@) by {
            let s = sp_sum_lane(bskv, kv, sp_lane_bits(neighbours_p@, i), zeros.0@[i]@,
                zeros.1@[i]@, zeros.2@[i]@, 7);
            assert(sum_neighbours.0@[i]@ == s.0);
            assert(sum_neighbours.1@[i]@ == s.1);
            assert(sum_neighbours.2@[i]@ == s.2);
            assert(not_high@[i]@ == sp_ct_not(s.2));
            assert(inner@[i]@ == sp_gate_one(Gate::And, s.1, sp_ct_not(s.2), bskv, kv));
            assert(sum_is_2_or_3@[i]@ == sp_gate_one(Gate::And, s.1, sp_ct_not(s.2), bskv,
                kv));
        }
    }
    let mut i: usize = 0;
    while i < new_state.len()
        invariant
            lanes == cell_p@.len(),
            new_state@.len() == lanes,
            forall|k: int| 0 <= k < new_state@.len() ==> (#[trigger] new_state@[k]).wf(),
            forall|k: int| 0 <= k < lanes ==> #[trigger] new_state@[k]@ == sp_is_alive(bskv,
                kv, cell_p@[k]@, sp_lane_bits(neighbours_p@, k), zeros.0@[k]@, zeros.1@[k]@,
                zeros.2@[k]@),
            i <= new_state@.len(),
            new_states@.len() == old(new_states)@.len() + i,
            forall|k: int| 0 <= k < old(new_states)@.len() ==> #[trigger] new_states@[k]
                == old(new_states)@[k],
            forall|k: int| 0 <= k < new_states@.len() ==> (#[trigger] new_states@[k]).wf(),
            forall|k: int| 0 <= k < i ==> #[trigger] new_states@[old(new_states)@.len() + k]@
                == new_state@[k]@,
        decreases new_state@.len() - i,
    {
        new_states.push(crate::lwe::ct_dup(&new_state[i]));
        i += 1;
    }
}

} // verus!
