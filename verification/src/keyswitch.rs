//! Key switching: converts an extracted LWE sample back to the original LWE
//! dimension by cancelling each mask coefficient with gadget-decomposed
//! encryptions of the extracted key. With the exact decomposition of this
//! parameter set the switch preserves the phase exactly.

use vstd::prelude::*;

use crate::lwe::{lwe_wf, LweSample, LweV};
use crate::params::{EXT_LWE_DIM, KS_BASE_LOG, KS_DIGIT_MASK, KS_LEVELS, LWE_DIM, MOD_LOG2};

verus! {

/// Mathematical view of a key-switching key: one LWE encryption per
/// extracted-key position and decomposition level.
pub open spec fn ksk_view(k: Seq<Vec<LweSample>>) -> Seq<Seq<LweV>> {
    Seq::new(k.len(), |i: int| Seq::new(k[i]@.len(), |j: int| k[i]@[j]@))
}

pub open spec fn ksk_wf(kv: Seq<Seq<LweV>>) -> bool {
    &&& kv.len() == EXT_LWE_DIM
    &&& forall|i: int| 0 <= i < kv.len() ==> (#[trigger] kv[i]).len() == KS_LEVELS
    &&& forall|i: int, j: int|
        0 <= i < kv.len() && 0 <= j < KS_LEVELS ==> lwe_wf(#[trigger] kv[i][j], LWE_DIM as int)
}

/// Digit of a coefficient at the given key-switching decomposition level,
/// most significant level first.
pub open spec fn sp_ks_digit(v: u32, level: int) -> u32 {
    (v >> ((MOD_LOG2 - KS_BASE_LOG * ((level + 1) as u32)) as u32)) & KS_DIGIT_MASK
}

/// An LWE sample minus a scalar multiple of another: the elementary step of
/// key switching.
pub open spec fn sp_lwe_sub_scaled(acc: LweV, d: u32, e: LweV) -> LweV {
    LweV {
        mask: Seq::new(acc.mask.len(), |m: int| acc.mask[m].wrapping_sub(d.wrapping_mul(e.mask[m]))),
        body: acc.body.wrapping_sub(d.wrapping_mul(e.body)),
        modulus_log2: acc.modulus_log2,
    }
}

fn lwe_sub_scaled(acc: &LweSample, d: u32, e: &LweSample) -> (r: LweSample)
    requires
        acc@.mask.len() == e@.mask.len(),
    ensures
        r@ == sp_lwe_sub_scaled(acc@, d, e@),
{
    let mut mask: Vec<u32> = Vec::new();
    let mut m: usize = 0;
    while m < acc.mask.len()
        invariant
            acc@.mask.len() == e@.mask.len(),
            m <= acc@.mask.len(),
            mask@.len() == m,
            forall|k: int| 0 <= k < m ==> mask@[k] == acc@.mask[k].wrapping_sub(
                d.wrapping_mul(e@.mask[k])),
        decreases acc@.mask.len() - m,
    {
        mask.push(acc.mask[m].wrapping_sub(d.wrapping_mul(e.mask[m])));
        m += 1;
    }
    proof {
        assert(mask@ =~= sp_lwe_sub_scaled(acc@, d, e@).mask);
    }
    LweSample {
        mask,
        body: acc.body.wrapping_sub(d.wrapping_mul(e.body)),
        modulus_log2: acc.modulus_log2,
    }
}

/// Partial key switch over the first `t` (position, level) steps, starting
/// from the trivial sample that carries the input body.
pub open spec fn sp_keyswitch_partial(kv: Seq<Seq<LweV>>, c: LweV, t: int) -> LweV
    decreases t,
{
    if t <= 0 {
        LweV {
            mask: Seq::new(LWE_DIM as nat, |m: int| 0u32),
            body: c.body,
            modulus_log2: MOD_LOG2,
        }
    } else {
        let i = (t - 1) / (KS_LEVELS as int);
        let j = (t - 1) % (KS_LEVELS as int);
        sp_lwe_sub_scaled(
            sp_keyswitch_partial(kv, c, t - 1),
            sp_ks_digit(c.mask[i], j),
            kv[i][j],
        )
    }
}

/// The key switch of an extracted sample: its phase under the original key
/// equals the input's phase under the extracted key.
pub open spec fn sp_keyswitch(kv: Seq<Seq<LweV>>, c: LweV) -> LweV {
    sp_keyswitch_partial(kv, c, EXT_LWE_DIM as int * KS_LEVELS as int)
}

pub fn keyswitch(ksk: &Vec<Vec<LweSample>>, c: &LweSample) -> (r: LweSample)
    requires
        ksk_wf(ksk_view(ksk@)),
        lwe_wf(c@, EXT_LWE_DIM as int),
    ensures
        r@ == sp_keyswitch(ksk_view(ksk@), c@),
        lwe_wf(r@, LWE_DIM as int),
{
    let ghost kv = ksk_view(ksk@);
    let mut acc = crate::lwe::lwe_trivial(c.body);
    proof {
        assert(acc@ == sp_keyswitch_partial(kv, c@, 0));
    }
    let steps = EXT_LWE_DIM * KS_LEVELS;
    let mut t: usize = 0;
    while t < steps
        invariant
            ksk_wf(kv),
            kv == ksk_view(ksk@),
            lwe_wf(c@, EXT_LWE_DIM as int),
            steps == EXT_LWE_DIM * KS_LEVELS,
            t <= steps,
            acc@ == sp_keyswitch_partial(kv, c@, t as int),
            lwe_wf(acc@, LWE_DIM as int),
        decreases steps - t,
    {
        let i = t / KS_LEVELS;
        let j = t % KS_LEVELS;
        proof {
            assert(i < EXT_LWE_DIM && j < KS_LEVELS);
            assert(ksk@.len() == kv.len());
            assert(ksk@[i as int]@.len() == kv[i as int].len());
        }
        let shift: u32 = MOD_LOG2 - KS_BASE_LOG * (j as u32 + 1);
        let d = (c.mask[i] >> shift) & KS_DIGIT_MASK;
        let entry = &ksk[i][j];
        proof {
            assert(kv[i as int][j as int] == entry@);
            assert(lwe_wf(entry@, LWE_DIM as int));
            assert(d == sp_ks_digit(c@.mask[i as int], j as int));
        }
        acc = lwe_sub_scaled(&acc, d, entry);
        t += 1;
    }
    acc
}

} // verus!
