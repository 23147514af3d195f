//! Exact arithmetic on elements of the negacyclic polynomial ring
//! `Z_q[X] / (X^POLY_SIZE + 1)` with `q = 2^MOD_LOG2`.
//!
//! A ring element is a `Vec<u32>` of exactly `POLY_SIZE` coefficients;
//! all coefficient arithmetic wraps modulo `2^32`.

use vstd::prelude::*;

use crate::params::{LUT_DOMAIN, POLY_SIZE};

verus! {

/// A polynomial is well formed when it has exactly `POLY_SIZE` coefficients.
pub open spec fn poly_wf(a: Seq<u32>) -> bool {
    a.len() == POLY_SIZE
}

/// Coefficient-wise sum of two ring elements.
pub open spec fn sp_poly_add(a: Seq<u32>, b: Seq<u32>) -> Seq<u32> {
    Seq::new(a.len(), |i: int| a[i].wrapping_add(b[i]))
}

/// Coefficient-wise difference of two ring elements.
pub open spec fn sp_poly_sub(a: Seq<u32>, b: Seq<u32>) -> Seq<u32> {
    Seq::new(a.len(), |i: int| a[i].wrapping_sub(b[i]))
}

/// Coefficient-wise negation of a ring element.
pub open spec fn sp_poly_neg(a: Seq<u32>) -> Seq<u32> {
    Seq::new(a.len(), |i: int| 0u32.wrapping_sub(a[i]))
}

/// Partial sum of the negacyclic convolution giving coefficient `i` of the
/// product, over the first `j` coefficients of `a`: terms whose source index
/// wraps past the ring degree enter negated.
pub open spec fn sp_conv_partial(a: Seq<u32>, b: Seq<u32>, i: int, j: int) -> u32
    decreases j,
{
    if j <= 0 {
        0u32
    } else {
        let p = sp_conv_partial(a, b, i, j - 1);
        let t = j - 1;
        if t <= i {
            p.wrapping_add(a[t].wrapping_mul(b[i - t]))
        } else {
            p.wrapping_sub(a[t].wrapping_mul(b[POLY_SIZE + i - t]))
        }
    }
}

/// Negacyclic product of two ring elements.
pub open spec fn sp_poly_mul(a: Seq<u32>, b: Seq<u32>) -> Seq<u32> {
    Seq::new(POLY_SIZE as nat, |i: int| sp_conv_partial(a, b, i, POLY_SIZE as int))
}

/// Product of a ring element with the monic monomial `X^d`: a rotation of the
/// coefficients by `d` positions in which every coefficient that crosses the
/// ring degree flips sign (`X^POLY_SIZE == -1`).
pub open spec fn sp_monomial_mul(a: Seq<u32>, d: int) -> Seq<u32> {
    let d2 = d % (LUT_DOMAIN as int);
    Seq::new(a.len(), |i: int|
        if d2 < POLY_SIZE {
            if i >= d2 {
                a[i - d2]
            } else {
                0u32.wrapping_sub(a[i - d2 + POLY_SIZE])
            }
        } else {
            let d3 = d2 - POLY_SIZE;
            if i >= d3 {
                0u32.wrapping_sub(a[i - d3])
            } else {
                a[i - d3 + POLY_SIZE]
            }
        })
}

/// The coefficients of a ring element in reverse order.
pub open spec fn sp_poly_reverse(a: Seq<u32>) -> Seq<u32> {
    Seq::new(a.len(), |i: int| a[a.len() - 1 - i])
}

/// The all-zero ring element.
pub open spec fn sp_poly_zero() -> Seq<u32> {
    Seq::new(POLY_SIZE as nat, |i: int| 0u32)
}

/// The constant ring element with every coefficient equal to `c`.
pub open spec fn sp_poly_const(c: u32) -> Seq<u32> {
    Seq::new(POLY_SIZE as nat, |i: int| c)
}

pub fn poly_add(a: &Vec<u32>, b: &Vec<u32>) -> (r: Vec<u32>)
    requires
        poly_wf(a@),
        poly_wf(b@),
    ensures
        r@ == sp_poly_add(a@, b@),
{
    let mut r: Vec<u32> = Vec::new();
    let mut i: usize = 0;
    while i < POLY_SIZE
        invariant
            poly_wf(a@),
            poly_wf(b@),
            i <= POLY_SIZE,
            r@.len() == i,
            forall|k: int| 0 <= k < i ==> r@[k] == a@[k].wrapping_add(b@[k]),
        decreases POLY_SIZE - i,
    {
        r.push(a[i].wrapping_add(b[i]));
        i += 1;
    }
    proof {
        assert(r@ =~= sp_poly_add(a@, b@));
    }
    r
}

pub fn poly_sub(a: &Vec<u32>, b: &Vec<u32>) -> (r: Vec<u32>)
    requires
        poly_wf(a@),
        poly_wf(b@),
    ensures
        r@ == sp_poly_sub(a@, b@),
{
    let mut r: Vec<u32> = Vec::new();
    let mut i: usize = 0;
    while i < POLY_SIZE
        invariant
            poly_wf(a@),
            poly_wf(b@),
            i <= POLY_SIZE,
            r@.len() == i,
            forall|k: int| 0 <= k < i ==> r@[k] == a@[k].wrapping_sub(b@[k]),
        decreases POLY_SIZE - i,
    {
        r.push(a[i].wrapping_sub(b[i]));
        i += 1;
    }
    proof {
        assert(r@ =~= sp_poly_sub(a@, b@));
    }
    r
}

pub fn poly_mul(a: &Vec<u32>, b: &Vec<u32>) -> (r: Vec<u32>)
    requires
        poly_wf(a@),
        poly_wf(b@),
    ensures
        r@ == sp_poly_mul(a@, b@),
{
    let mut r: Vec<u32> = Vec::new();
    let mut i: usize = 0;
    while i < POLY_SIZE
        invariant
            poly_wf(a@),
            poly_wf(b@),
            i <= POLY_SIZE,
            r@.len() == i,
            forall|k: int| 0 <= k < i ==> r@[k] == sp_conv_partial(a@, b@, k, POLY_SIZE as int),
        decreases POLY_SIZE - i,
    {
        let mut acc: u32 = 0;
        let mut j: usize = 0;
        while j < POLY_SIZE
            invariant
                poly_wf(a@),
                poly_wf(b@),
                i < POLY_SIZE,
                j <= POLY_SIZE,
                acc == sp_conv_partial(a@, b@, i as int, j as int),
            decreases POLY_SIZE - j,
        {
            if j <= i {
                acc = acc.wrapping_add(a[j].wrapping_mul(b[i - j]));
            } else {
                acc = acc.wrapping_sub(a[j].wrapping_mul(b[POLY_SIZE + i - j]));
            }
            j += 1;
        }
        r.push(acc);
        i += 1;
    }
    proof {
        assert(r@ =~= sp_poly_mul(a@, b@));
    }
    r
}

pub fn poly_monomial_mul(a: &Vec<u32>, d: usize) -> (r: Vec<u32>)
    requires
        poly_wf(a@),
    ensures
        r@ == sp_monomial_mul(a@, d as int),
{
    let d2 = d % LUT_DOMAIN;
    let mut r: Vec<u32> = Vec::new();
    let mut i: usize = 0;
    while i < POLY_SIZE
        invariant
            poly_wf(a@),
            d2 == d as int % (LUT_DOMAIN as int),
            i <= POLY_SIZE,
            r@.len() == i,
            forall|k: int| 0 <= k < i ==> r@[k] == sp_monomial_mul(a@, d as int)[k],
        decreases POLY_SIZE - i,
    {
        let v = if d2 < POLY_SIZE {
            if i >= d2 {
                a[i - d2]
            } else {
                0u32.wrapping_sub(a[i + POLY_SIZE - d2])
            }
        } else {
            let d3 = d2 - POLY_SIZE;
            if i >= d3 {
                0u32.wrapping_sub(a[i - d3])
            } else {
                a[i + POLY_SIZE - d3]
            }
        };
        r.push(v);
        i += 1;
    }
    proof {
        assert(r@ =~= sp_monomial_mul(a@, d as int));
    }
    r
}

pub fn poly_reverse(a: &Vec<u32>) -> (r: Vec<u32>)
    requires
        poly_wf(a@),
    ensures
        r@ == sp_poly_reverse(a@),
{
    let mut r: Vec<u32> = Vec::new();
    let mut i: usize = 0;
    while i < POLY_SIZE
        invariant
            poly_wf(a@),
            i <= POLY_SIZE,
            r@.len() == i,
            forall|k: int| 0 <= k < i ==> r@[k] == a@[POLY_SIZE - 1 - k],
        decreases POLY_SIZE - i,
    {
        r.push(a[POLY_SIZE - 1 - i]);
        i += 1;
    }
    proof {
        assert(r@ =~= sp_poly_reverse(a@));
    }
    r
}

pub fn poly_const(c: u32) -> (r: Vec<u32>)
    ensures
        r@ == sp_poly_const(c),
{
    let mut r: Vec<u32> = Vec::new();
    let mut i: usize = 0;
    while i < POLY_SIZE
        invariant
            i <= POLY_SIZE,
            r@.len() == i,
            forall|k: int| 0 <= k < i ==> r@[k] == c,
        decreases POLY_SIZE - i,
    {
        r.push(c);
        i += 1;
    }
    proof {
        assert(r@ =~= sp_poly_const(c));
    }
    r
}

pub fn poly_zero() -> (r: Vec<u32>)
    ensures
        r@ == sp_poly_zero(),
{
    let r = poly_const(0);
    proof {
        assert(r@ =~= sp_poly_zero());
    }
    r
}

} // verus!
