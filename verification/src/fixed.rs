//! Integer helpers for fixed-point arithmetic: division that rounds toward
//! zero, and the share that one component has in the length of a vector.

use vstd::prelude::*;
use crate::config::UNIT;

verus! {

/// The quotient `a / d` rounded toward zero, for a positive divisor.
pub open spec fn div_toward_zero(a: int, d: int) -> int {
    if a >= 0 {
        a / d
    } else {
        -((-a) / d)
    }
}

/// `q` thousandths is the share `d / sqrt(n)`, rounded toward zero.
pub open spec fn is_unit_part(d: int, n: int, q: int) -> bool {
    &&& 0 <= q
    &&& q * q * n <= UNIT * UNIT * (d * d)
    &&& (q + 1) * (q + 1) * n > UNIT * UNIT * (d * d)
}

/// The share `d / sqrt(n)` in thousandths, rounded toward zero.
pub open spec fn spec_unit_part(d: int, n: int) -> int {
    choose|q: int| is_unit_part(d, n, q)
}

/// At most one number is the rounded share.
pub proof fn lemma_unit_part_unique(d: int, n: int, q: int, r: int)
    requires
        0 < n,
        is_unit_part(d, n, q),
        is_unit_part(d, n, r),
    ensures
        q == r,
{
    if q < r {
        assert((q + 1) * (q + 1) * n <= r * r * n) by (nonlinear_arith)
            requires
                0 <= q + 1 <= r,
                0 < n,
        ;
    } else if r < q {
        assert((r + 1) * (r + 1) * n <= q * q * n) by (nonlinear_arith)
            requires
                0 <= r + 1 <= q,
                0 < n,
        ;
    }
}

/// A number that has the defining property is the rounded share.
pub proof fn lemma_unit_part_is(d: int, n: int, q: int)
    requires
        0 < n,
        is_unit_part(d, n, q),
    ensures
        spec_unit_part(d, n) == q,
{
    lemma_unit_part_unique(d, n, q, spec_unit_part(d, n));
}

proof fn lemma_unit_part_search(d: int, n: int, c: int)
    requires
        0 < n,
        d * d <= n,
        0 <= c,
        c * c * n <= UNIT * UNIT * (d * d),
    ensures
        is_unit_part(d, n, spec_unit_part(d, n)),
    decreases UNIT + 1 - c,
{
    assert(c <= UNIT) by (nonlinear_arith)
        requires
            0 < n,
            d * d <= n,
            0 <= c,
            c * c * n <= UNIT * UNIT * (d * d),
            UNIT == 1000,
    ;
    if (c + 1) * (c + 1) * n > UNIT * UNIT * (d * d) {
        assert(is_unit_part(d, n, c));
    } else {
        lemma_unit_part_search(d, n, c + 1);
    }
}

/// A component of a vector has a rounded share in the vector's length, and
/// the share is at most one.
pub proof fn lemma_unit_part_exists(d: int, n: int)
    requires
        0 < n,
        d * d <= n,
    ensures
        is_unit_part(d, n, spec_unit_part(d, n)),
        0 <= spec_unit_part(d, n) <= UNIT,
{
    assert(0 * 0 * n <= UNIT * UNIT * (d * d)) by (nonlinear_arith)
        requires
            UNIT == 1000,
    ;
    lemma_unit_part_search(d, n, 0);
    let q = spec_unit_part(d, n);
    assert(q <= UNIT) by (nonlinear_arith)
        requires
            0 < n,
            d * d <= n,
            0 <= q,
            q * q * n <= UNIT * UNIT * (d * d),
            UNIT == 1000,
    ;
}

/// The share of a component does not change when the vector is stretched.
pub proof fn lemma_unit_part_scales(d: int, n: int, k: int)
    requires
        0 < k,
        0 < n,
        d * d <= n,
    ensures
        spec_unit_part(k * d, k * k * n) == spec_unit_part(d, n),
{
    lemma_unit_part_exists(d, n);
    let q = spec_unit_part(d, n);
    let u = UNIT * UNIT;
    let low = q * q * n;
    let high = (q + 1) * (q + 1) * n;
    let mid = u * (d * d);
    assert(low * (k * k) <= mid * (k * k) < high * (k * k)) by (nonlinear_arith)
        requires
            low <= mid < high,
            0 < k,
    ;
    assert(q * q * (k * k * n) == low * (k * k)) by (nonlinear_arith)
        requires
            low == q * q * n,
    ;
    assert((q + 1) * (q + 1) * (k * k * n) == high * (k * k)) by (nonlinear_arith)
        requires
            high == (q + 1) * (q + 1) * n,
    ;
    assert(u * ((k * d) * (k * d)) == mid * (k * k)) by (nonlinear_arith)
        requires
            mid == u * (d * d),
    ;
    assert(0 < k * k * n) by (nonlinear_arith)
        requires
            0 < k,
            0 < n,
    ;
    assert(is_unit_part(k * d, k * k * n, q));
    lemma_unit_part_is(k * d, k * k * n, q);
}

/// Computes the share `d / sqrt(n)` in thousandths, rounded toward zero, by
/// bisection.
pub fn unit_part(d: u64, n: u64) -> (q: u64)
    requires
        0 < n,
        d * d <= n,
    ensures
        is_unit_part(d as int, n as int, q as int),
        q == spec_unit_part(d as int, n as int),
        q <= UNIT,
{
    assert(0 <= d * d && UNIT * UNIT == 1_000_000) by (nonlinear_arith)
        requires
            UNIT == 1000,
    ;
    assert(d < 0x1_0000_0000) by (nonlinear_arith)
        requires
            d * d <= n,
            n < 0x1_0000_0000_0000_0000,
            0 <= d,
    ;
    assert(d * d < 0x1_0000_0000_0000_0000);
    let square: u128 = (d as u128) * (d as u128);
    let bound: u128 = 1_000_000 * square;
    let mut lo: u64 = 0;
    let mut hi: u64 = 1_001;
    assert(0 * 0 * n == 0 && 1_001 * 1_001 * n == 1_002_001 * n) by (nonlinear_arith);
    while hi - lo > 1
        invariant
            lo < hi <= 1_001,
            bound == UNIT * UNIT * (d * d),
            0 < n,
            lo * lo * n <= bound < hi * hi * n,
        decreases hi - lo,
    {
        let mid: u64 = lo + (hi - lo) / 2;
        assert(mid * mid <= 1_002_001 && mid * mid * n <= 1_002_001 * n) by (nonlinear_arith)
            requires
                0 <= mid <= 1_001,
                0 <= n,
        ;
        let trial: u128 = (mid as u128) * (mid as u128) * (n as u128);
        if trial <= bound {
            lo = mid;
        } else {
            hi = mid;
        }
    }
    proof {
        lemma_unit_part_is(d as int, n as int, lo as int);
    }
    lo
}

} // verus!
