//! Fixed-point arithmetic shared by the whole crate.
//!
//! A continuous quantity is stored as a whole number of millionths: a length
//! of 300 pixels is `300 * ONE`, a zoom factor of 1.2 is `1_200_000`.
//! Quotients are rounded toward zero, for either sign.

use vstd::prelude::*;

verus! {

/// Fixed-point steps in one whole unit.
pub const ONE: i128 = 1_000_000;

/// Largest magnitude of a scroll position or of an offset pushed into a tile
/// (2 to the power 104).
pub const SPAN_LIMIT: i128 = 0x100_0000_0000_0000_0000_0000_0000;

/// Distance of `v` from zero.
pub open spec fn magnitude(v: int) -> int {
    if v < 0 {
        -v
    } else {
        v
    }
}

/// Quotient of `n` by a positive `d`, rounded toward zero.
pub open spec fn trunc_div(n: int, d: int) -> int {
    if n >= 0 {
        n / d
    } else {
        -((-n) / d)
    }
}

/// `value * num / den`, rounded toward zero.
pub fn mul_div(value: i128, num: i128, den: i128) -> (out: i128)
    requires
        den > 0,
        i128::MIN < value * num <= i128::MAX,
    ensures
        out == trunc_div(value * num, den as int),
{
    (value * num) / den
}

/// A quotient by a positive divisor is no farther from zero than the dividend
/// and lies on the same side of zero.
pub proof fn lemma_trunc_div_shrinks(n: int, d: int)
    requires
        d > 0,
    ensures
        magnitude(trunc_div(n, d)) <= magnitude(n),
        n >= 0 ==> trunc_div(n, d) >= 0,
        n <= 0 ==> trunc_div(n, d) <= 0,
{
    if n >= 0 {
        assert(0 <= n / d <= n) by (nonlinear_arith)
            requires
                n >= 0,
                d > 0,
        ;
    } else {
        let m = -n;
        assert(0 <= m / d <= m) by (nonlinear_arith)
            requires
                m >= 0,
                d > 0,
        ;
    }
}

/// Taking the fraction `num / den` of `v`, with `0 <= num <= den`, yields a
/// value between zero and `v`.
pub proof fn lemma_fraction_within(v: int, num: int, den: int)
    requires
        0 <= num <= den,
        den > 0,
    ensures
        v >= 0 ==> 0 <= trunc_div(v * num, den) <= v,
        v <= 0 ==> v <= trunc_div(v * num, den) <= 0,
{
    if v >= 0 {
        assert(0 <= v * num && (v * num) / den <= v) by (nonlinear_arith)
            requires
                v >= 0,
                0 <= num <= den,
                den > 0,
        ;
        assert(0 <= (v * num) / den) by (nonlinear_arith)
            requires
                0 <= v * num,
                den > 0,
        ;
    } else {
        let m = -v;
        assert(v * num == -(m * num)) by (nonlinear_arith)
            requires
                m == -v,
        ;
        assert(0 <= m * num && (m * num) / den <= m) by (nonlinear_arith)
            requires
                m >= 0,
                0 <= num <= den,
                den > 0,
        ;
        assert(0 <= (m * num) / den) by (nonlinear_arith)
            requires
                0 <= m * num,
                den > 0,
        ;
    }
}

/// If `size * num` reaches `den`, the fraction `num / den` of a value of that
/// size or more is at least one whole step.
pub proof fn lemma_fraction_moves(v: int, num: int, den: int, size: int)
    requires
        0 <= num,
        den > 0,
        size >= 0,
        size * num >= den,
        magnitude(v) >= size,
    ensures
        magnitude(trunc_div(v * num, den)) >= 1,
{
    let m = magnitude(v);
    assert(m * num >= den) by (nonlinear_arith)
        requires
            m >= size,
            size * num >= den,
            num >= 0,
    ;
    assert((m * num) / den >= 1) by (nonlinear_arith)
        requires
            m * num >= den,
            den > 0,
    ;
    if v < 0 {
        assert(v * num == -(m * num)) by (nonlinear_arith)
            requires
                m == -v,
        ;
    }
}

} // verus!
