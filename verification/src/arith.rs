//! Exact integer arithmetic on wide intermediates.

use vstd::prelude::*;

verus! {

/// Division that rounds towards zero, for a positive divisor.
pub open spec fn trunc_div(a: int, d: int) -> int {
    if a >= 0 {
        a / d
    } else {
        -((-a) / d)
    }
}

/// The largest magnitude of a difference of two `i32` values, plus one.
pub open spec fn span() -> int {
    0x1_0000_0000
}

/// A product stays within the product of the bounds of its factors.
pub proof fn lemma_mul_within(a: int, la: int, b: int, lb: int)
    requires
        -la <= a <= la,
        -lb <= b <= lb,
    ensures
        -(la * lb) <= a * b <= la * lb,
{
    assert(-(la * lb) <= a * b <= la * lb) by (nonlinear_arith)
        requires
            -la <= a <= la,
            -lb <= b <= lb,
    ;
}

/// A quotient towards zero is no larger in magnitude than the dividend.
pub proof fn lemma_trunc_div_within(a: int, d: int, la: int)
    requires
        d > 0,
        -la <= a <= la,
    ensures
        -la <= trunc_div(a, d) <= la,
{
    if a >= 0 {
        assert(0 <= a / d <= a) by (nonlinear_arith)
            requires
                a >= 0,
                d > 0,
        ;
    } else {
        assert(0 <= (-a) / d <= -a) by (nonlinear_arith)
            requires
                -a >= 0,
                d > 0,
        ;
    }
}

/// `a * b`, for factors whose bounds multiply to something an `i128` holds.
pub(crate) fn mul_within(a: i128, b: i128, Ghost(la): Ghost<int>, Ghost(lb): Ghost<int>) -> (r: i128)
    requires
        -la <= a <= la,
        -lb <= b <= lb,
        la * lb <= i128::MAX,
    ensures
        r == a * b,
        -(la * lb) <= r <= la * lb,
{
    proof {
        lemma_mul_within(a as int, la, b as int, lb);
    }
    a * b
}

/// `trunc_div(a, d)` for a positive divisor.
pub(crate) fn div_toward_zero(a: i128, d: i128) -> (q: i128)
    requires
        d > 0,
        a > i128::MIN,
    ensures
        q == trunc_div(a as int, d as int),
{
    if a >= 0 {
        a / d
    } else {
        let m: i128 = -a;
        let p: i128 = m / d;
        -p
    }
}

/// The dot product of two vectors of differences.
pub(crate) fn dot_within(ax: i64, ay: i64, az: i64, bx: i64, by: i64, bz: i64) -> (r: i128)
    requires
        -span() <= ax <= span(),
        -span() <= ay <= span(),
        -span() <= az <= span(),
        -span() <= bx <= span(),
        -span() <= by <= span(),
        -span() <= bz <= span(),
    ensures
        r == ax * bx + ay * by + az * bz,
        -3 * (span() * span()) <= r <= 3 * (span() * span()),
{
    let x: i128 = mul_within(ax as i128, bx as i128, Ghost(span()), Ghost(span()));
    let y: i128 = mul_within(ay as i128, by as i128, Ghost(span()), Ghost(span()));
    let z: i128 = mul_within(az as i128, bz as i128, Ghost(span()), Ghost(span()));
    x + y + z
}

/// The difference of two components, widened.
pub(crate) fn diff(a: i32, b: i32) -> (r: i64)
    ensures
        r == a - b,
        -span() <= r <= span(),
{
    a as i64 - b as i64
}

/// `v` as a component, where it fits.
pub(crate) fn narrow(v: i128) -> (r: Option<i32>)
    ensures
        r == (if i32::MIN <= v <= i32::MAX {
            Some(v as i32)
        } else {
            None
        }),
{
    if v >= -0x8000_0000 && v <= 0x7fff_ffff {
        Some(v as i32)
    } else {
        None
    }
}

} // verus!
