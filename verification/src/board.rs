//! The cell board: a torus of encrypted cells updated by the homomorphic
//! rule circuit, chunked into hardware-sized batches. The update contract
//! fixes every new cell as the rule circuit of its eight periodic
//! neighbours, so the result does not depend on how the cells were split
//! into batches.

use vstd::prelude::*;

use crate::client::ClientKey;
use crate::glwe::GgswV;
use crate::lwe::{ct_dup, Ciphertext, CiphertextV, LweV};
use crate::operators::{column_wf, is_alive, sp_is_alive, sp_lane_bits, triple_wf};
use crate::params::PACKING_FACTOR;
use crate::server_key::ServerKey;

verus! {

/// The flat index of periodic neighbour `e` of cell `k` on an `nx` by `ny`
/// torus, in the order the circuit consumes the neighbours: the row above
/// (left, centre, right), the same row (left, right), the row below (left,
/// centre, right).
pub open spec fn sp_neighbour_index(nx: int, ny: int, k: int, e: int) -> int {
    let i = k / ny;
    let j = k % ny;
    let im = if i == 0 {
        nx - 1
    } else {
        i - 1
    };
    let ip = if i == nx - 1 {
        0
    } else {
        i + 1
    };
    let jm = if j == 0 {
        ny - 1
    } else {
        j - 1
    };
    let jp = if j == ny - 1 {
        0
    } else {
        j + 1
    };
    if e == 0 {
        im * ny + jm
    } else if e == 1 {
        im * ny + j
    } else if e == 2 {
        im * ny + jp
    } else if e == 3 {
        i * ny + jm
    } else if e == 4 {
        i * ny + jp
    } else if e == 5 {
        ip * ny + jm
    } else if e == 6 {
        ip * ny + j
    } else {
        ip * ny + jp
    }
}

/// The new encrypted state of cell `k` after one update: the aliveness
/// circuit over the cell and its eight periodic neighbours, with the zero
/// counter taken from the cell's lane within its batch.
pub open spec fn sp_cell_step(bskv: Seq<GgswV>, kv: Seq<Seq<LweV>>, states: Seq<Ciphertext>,
    nx: int, ny: int, zeros: (Vec<Ciphertext>, Vec<Ciphertext>, Vec<Ciphertext>),
    k: int) -> CiphertextV {
    let lane = k % (PACKING_FACTOR as int);
    sp_is_alive(bskv, kv, states[k]@, Seq::new(8, |e: int| states[sp_neighbour_index(nx, ny,
        k, e)]@), zeros.0@[lane]@, zeros.1@[lane]@, zeros.2@[lane]@)
}

/// A board of encrypted cell states with its dimensions (rows, columns),
/// wrapped periodically at the edges, and the client key that can decrypt
/// it for display.
pub struct Board {
    pub dimensions: (usize, usize),
    pub states: Vec<Ciphertext>,
    pub client_key: ClientKey,
}

impl Board {
    /// A well-formed board: at least one column, exactly one state per
    /// cell, every state well formed.
    pub open spec fn wf(&self) -> bool {
        &&& self.dimensions.1 >= 1
        &&& self.states@.len() == self.dimensions.0 * self.dimensions.1
        &&& forall|i: int| 0 <= i < self.states@.len() ==> (#[trigger] self.states@[i]).wf()
        &&& self.client_key.wf()
    }

    /// Builds a board from its column count and the encrypted states of
    /// the initial configuration, row-major: the row count is the quotient.
    pub fn new(n_cols: usize, states: Vec<Ciphertext>, client_key: ClientKey) -> (r: Board)
        requires
            n_cols >= 1,
            states@.len() as int % n_cols as int == 0,
            forall|i: int| 0 <= i < states@.len() ==> (#[trigger] states@[i]).wf(),
            client_key.wf(),
        ensures
            r.wf(),
            r.dimensions.1 == n_cols,
            r.dimensions.0 == states@.len() as int / n_cols as int,
            r.states == states,
            r.client_key == client_key,
    {
        let n_rows = states.len() / n_cols;
        proof {
            vstd::arithmetic::div_mod::lemma_fundamental_div_mod(states@.len() as int,
                n_cols as int);
            assert(states@.len() == n_cols * n_rows);
            assert(n_cols * n_rows == n_rows * n_cols) by (nonlinear_arith);
        }
        Board { dimensions: (n_rows, n_cols), states, client_key }
    }

    /// Advances the whole board one step: every cell is replaced by exactly
    /// `sp_cell_step`, the rule circuit over its eight periodic neighbours
    /// in the old states. The formula does not mention the chunking, so the
    /// result is independent of how the cells were split into batches of up
    /// to `PACKING_FACTOR`.
    #[verifier::rlimit(50)]
    pub fn update(&mut self, server_key: &mut ServerKey, zeros: &(Vec<Ciphertext>, Vec<
        Ciphertext>, Vec<Ciphertext>))
        requires
            old(self).wf(),
            old(server_key).wf(),
            triple_wf(*zeros, PACKING_FACTOR as int),
        ensures
            final(self).wf(),
            final(self).dimensions == old(self).dimensions,
            final(self).states@.len() == old(self).states@.len(),
            final(self).client_key == old(self).client_key,
            final(server_key).wf(),
            final(server_key).bskv() == old(server_key).bskv(),
            final(server_key).kskv() == old(server_key).kskv(),
            forall|k: int| 0 <= k < old(self).states@.len() ==> #[trigger] final(
            self).states@[k]@ == sp_cell_step(old(server_key).bskv(), old(server_key).kskv(),
                old(self).states@, old(self).dimensions.0 as int,
                old(self).dimensions.1 as int, *zeros, k),
    {
        let ghost bskv = old(server_key).bskv();
        let ghost kv = old(server_key).kskv();
        let nx = self.dimensions.0;
        let ny = self.dimensions.1;
        let total = self.states.len();
        proof {
            assert(total == nx * ny);
        }
        let mut new_states: Vec<Ciphertext> = Vec::new();
        let mut k1: usize = 0;
        while k1 < total
            invariant
                self.wf(),
                self == old(self),
                nx == self.dimensions.0,
                ny == self.dimensions.1,
                total == self.states@.len(),
                total == nx * ny,
                server_key.wf(),
                server_key.bskv() == bskv,
                server_key.kskv() == kv,
                bskv == old(server_key).bskv(),
                kv == old(server_key).kskv(),
                triple_wf(*zeros, PACKING_FACTOR as int),
                k1 <= total,
                k1 % PACKING_FACTOR == 0 || k1 == total,
                new_states@.len() == k1,
                forall|i: int| 0 <= i < new_states@.len() ==> (
                #[trigger] new_states@[i]).wf(),
                forall|k: int| 0 <= k < k1 ==> #[trigger] new_states@[k]@ == sp_cell_step(
                    bskv, kv, self.states@, nx as int, ny as int, *zeros, k),
            decreases total - k1,
        {
            let end = if total - k1 > PACKING_FACTOR {
                PACKING_FACTOR
            } else {
                total - k1
            };
            let mut cell_p: Vec<Ciphertext> = Vec::new();
            let mut n0: Vec<Ciphertext> = Vec::new();
            let mut n1: Vec<Ciphertext> = Vec::new();
            let mut n2: Vec<Ciphertext> = Vec::new();
            let mut n3: Vec<Ciphertext> = Vec::new();
            let mut n4: Vec<Ciphertext> = Vec::new();
            let mut n5: Vec<Ciphertext> = Vec::new();
            let mut n6: Vec<Ciphertext> = Vec::new();
            let mut n7: Vec<Ciphertext> = Vec::new();
            let mut k2: usize = 0;
            while k2 < end
                invariant
                    self.wf(),
                    nx == self.dimensions.0,
                    ny == self.dimensions.1,
                    total == self.states@.len(),
                    total == nx * ny,
                    k1 < total,
                    end <= PACKING_FACTOR,
                    k1 + end <= total,
                    k2 <= end,
                    cell_p@.len() == k2,
                    forall|c: int| 0 <= c < k2 ==> (#[trigger] cell_p@[c]).wf(),
                    forall|c: int| 0 <= c < k2 ==> #[trigger] cell_p@[c]@ == self.states@[k1
                        + c]@,
                    column_wf(n0@, k2 as int),
                    column_wf(n1@, k2 as int),
                    column_wf(n2@, k2 as int),
                    column_wf(n3@, k2 as int),
                    column_wf(n4@, k2 as int),
                    column_wf(n5@, k2 as int),
                    column_wf(n6@, k2 as int),
                    column_wf(n7@, k2 as int),
                    forall|c: int| 0 <= c < k2 ==> #[trigger] n0@[c]@ == self.states@[
                        sp_neighbour_index(nx as int, ny as int, k1 + c, 0)]@,
                    forall|c: int| 0 <= c < k2 ==> #[trigger] n1@[c]@ == self.states@[
                        sp_neighbour_index(nx as int, ny as int, k1 + c, 1)]@,
                    forall|c: int| 0 <= c < k2 ==> #[trigger] n2@[c]@ == self.states@[
                        sp_neighbour_index(nx as int, ny as int, k1 + c, 2)]@,
                    forall|c: int| 0 <= c < k2 ==> #[trigger] n3@[c]@ == self.states@[
                        sp_neighbour_index(nx as int, ny as int, k1 + c, 3)]@,
                    forall|c: int| 0 <= c < k2 ==> #[trigger] n4@[c]@ == self.states@[
                        sp_neighbour_index(nx as int, ny as int, k1 + c, 4)]@,
                    forall|c: int| 0 <= c < k2 ==> #[trigger] n5@[c]@ == self.states@[
                        sp_neighbour_index(nx as int, ny as int, k1 + c, 5)]@,
                    forall|c: int| 0 <= c < k2 ==> #[trigger] n6@[c]@ == self.states@[
                        sp_neighbour_index(nx as int, ny as int, k1 + c, 6)]@,
                    forall|c: int| 0 <= c < k2 ==> #[trigger] n7@[c]@ == self.states@[
                        sp_neighbour_index(nx as int, ny as int, k1 + c, 7)]@,
                decreases end - k2,
            {
                let k = k1 + k2;
                let i = k / ny;
                let j = k % ny;
                proof {
                    vstd::arithmetic::div_mod::lemma_fundamental_div_mod(k as int, ny as int);
                    assert(i < nx) by (nonlinear_arith)
                        requires
                            k as int == i as int * ny + j as int,
                            0 <= j < ny,
                            k < nx * ny,
                            ny >= 1,
                    ;
                }
                let im = if i == 0 {
                    nx - 1
                } else {
                    i - 1
                };
                let ip = if i == nx - 1 {
                    0
                } else {
                    i + 1
                };
                let jm = if j == 0 {
                    ny - 1
                } else {
                    j - 1
                };
                let jp = if j == ny - 1 {
                    0
                } else {
                    j + 1
                };
                proof {
                    assert(im < nx && ip < nx && jm < ny && jp < ny);
                    assert(im * ny + jm < total && im * ny + j < total && im * ny + jp < total
                        && i * ny + jm < total && i * ny + jp < total && ip * ny + jm < total
                        && ip * ny + j < total && ip * ny + jp < total && i * ny + j < total)
                        by (nonlinear_arith)
                        requires
                            0 <= im < nx,
                            0 <= ip < nx,
                            0 <= i < nx,
                            0 <= jm < ny,
                            0 <= jp < ny,
                            0 <= j < ny,
                            total == nx * ny,
                    ;
                    assert(sp_neighbour_index(nx as int, ny as int, k as int, 0) == im * ny
                        + jm);
                    assert(sp_neighbour_index(nx as int, ny as int, k as int, 1) == im * ny
                        + j);
                    assert(sp_neighbour_index(nx as int, ny as int, k as int, 2) == im * ny
                        + jp);
                    assert(sp_neighbour_index(nx as int, ny as int, k as int, 3) == i * ny
                        + jm);
                    assert(sp_neighbour_index(nx as int, ny as int, k as int, 4) == i * ny
                        + jp);
                    assert(sp_neighbour_index(nx as int, ny as int, k as int, 5) == ip * ny
                        + jm);
                    assert(sp_neighbour_index(nx as int, ny as int, k as int, 6) == ip * ny
                        + j);
                    assert(sp_neighbour_index(nx as int, ny as int, k as int, 7) == ip * ny
                        + jp);
                }
                n0.push(ct_dup(&self.states[im * ny + jm]));
                n1.push(ct_dup(&self.states[im * ny + j]));
                n2.push(ct_dup(&self.states[im * ny + jp]));
                n3.push(ct_dup(&self.states[i * ny + jm]));
                n4.push(ct_dup(&self.states[i * ny + jp]));
                n5.push(ct_dup(&self.states[ip * ny + jm]));
                n6.push(ct_dup(&self.states[ip * ny + j]));
                n7.push(ct_dup(&self.states[ip * ny + jp]));
                cell_p.push(ct_dup(&self.states[i * ny + j]));
                k2 += 1;
            }
            let neighbours_p: [Vec<Ciphertext>; 8] = [n0, n1, n2, n3, n4, n5, n6, n7];
            proof {
                assert forall|e: int| 0 <= e < 8 implies column_wf(
                    #[trigger] neighbours_p@[e]@, end as int) by {
                }
            }
            let mut zeros_chunk: (Vec<Ciphertext>, Vec<Ciphertext>, Vec<Ciphertext>) = (
                Vec::new(),
                Vec::new(),
                Vec::new(),
            );
            let mut z: usize = 0;
            while z < end
                invariant
                    triple_wf(*zeros, PACKING_FACTOR as int),
                    end <= PACKING_FACTOR,
                    z <= end,
                    zeros_chunk.0@.len() == z,
                    zeros_chunk.1@.len() == z,
                    zeros_chunk.2@.len() == z,
                    forall|c: int| 0 <= c < z ==> (#[trigger] zeros_chunk.0@[c]).wf(),
                    forall|c: int| 0 <= c < z ==> (#[trigger] zeros_chunk.1@[c]).wf(),
                    forall|c: int| 0 <= c < z ==> (#[trigger] zeros_chunk.2@[c]).wf(),
                    forall|c: int| 0 <= c < z ==> #[trigger] zeros_chunk.0@[c]@
                        == zeros.0@[c]@,
                    forall|c: int| 0 <= c < z ==> #[trigger] zeros_chunk.1@[c]@
                        == zeros.1@[c]@,
                    forall|c: int| 0 <= c < z ==> #[trigger] zeros_chunk.2@[c]@
                        == zeros.2@[c]@,
                decreases end - z,
            {
                zeros_chunk.0.push(ct_dup(&zeros.0[z]));
                zeros_chunk.1.push(ct_dup(&zeros.1[z]));
                zeros_chunk.2.push(ct_dup(&zeros.2[z]));
                z += 1;
            }
            let ghost cellv = cell_p@;
            let ghost zc = zeros_chunk;
            is_alive(server_key, cell_p, neighbours_p, &zeros_chunk, &mut new_states);
            proof {
                assert forall|k: int| k1 <= k < k1 + end implies #[trigger] new_states@[k]@
                    == sp_cell_step(bskv, kv, self.states@, nx as int, ny as int, *zeros,
                    k) by {
                    let c = k - k1;
                    assert(new_states@[k1 + c]@ == sp_is_alive(bskv, kv, cellv[c]@,
                        sp_lane_bits(neighbours_p@, c), zc.0@[c]@, zc.1@[c]@, zc.2@[c]@));
                    assert(sp_lane_bits(neighbours_p@, c) =~= Seq::new(8, |e: int|
                        self.states@[sp_neighbour_index(nx as int, ny as int, k, e)]@)) by {
                        assert forall|e: int| 0 <= e < 8 implies sp_lane_bits(neighbours_p@,
                            c)[e] == self.states@[sp_neighbour_index(nx as int, ny as int, k,
                            e)]@ by {
                            assert(sp_lane_bits(neighbours_p@, c)[e] == neighbours_p@[e]@[c]@);
                        }
                    }
                    vstd::arithmetic::div_mod::lemma_fundamental_div_mod(k1 as int,
                        PACKING_FACTOR as int);
                    vstd::arithmetic::div_mod::lemma_fundamental_div_mod_converse(k,
                        PACKING_FACTOR as int, k1 as int / (PACKING_FACTOR as int), c);
                    assert(k % (PACKING_FACTOR as int) == c);
                }
                if end == PACKING_FACTOR {
                    vstd::arithmetic::div_mod::lemma_fundamental_div_mod(k1 as int,
                        PACKING_FACTOR as int);
                    vstd::arithmetic::div_mod::lemma_fundamental_div_mod_converse((k1
                        + end) as int, PACKING_FACTOR as int, k1 as int / (
                    PACKING_FACTOR as int) + 1, 0);
                }
            }
            k1 = k1 + end;
        }
        self.states = new_states;
    }
}

} // verus!
