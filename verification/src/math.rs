//! Integer arithmetic as the contracts compute it: `i128` division
//! truncates toward zero.

use vstd::prelude::*;

verus! {

/// Division rounded toward zero, as Rust's `/` on signed integers.
pub open spec fn tdiv(x: int, d: int) -> int {
    if x == 0 {
        0
    } else if x > 0 && d > 0 {
        x / d
    } else if x < 0 && d < 0 {
        (x * -1) / (d * -1)
    } else if x < 0 {
        ((x * -1) / d) * -1
    } else {
        (x / (d * -1)) * -1
    }
}

/// Whether a value fits in an `i128`.
pub open spec fn fits_i128(x: int) -> bool {
    i128::MIN <= x <= i128::MAX
}

/// `x / d` rounded toward zero; `d` must not be zero and the quotient must fit.
pub fn div_trunc(x: i128, d: i128) -> (q: i128)
    requires
        d != 0,
        fits_i128(tdiv(x as int, d as int)),
    ensures
        q == tdiv(x as int, d as int),
{
    match x.checked_div(d) {
        Some(q) => q,
        None => {
            assert(false);
            0
        },
    }
}

/// With a positive divisor, a quotient rounded toward zero lies between
/// zero and the dividend.
pub proof fn lemma_tdiv_positive_divisor(x: int, d: int)
    requires
        d > 0,
    ensures
        x >= 0 ==> 0 <= tdiv(x, d) <= x,
        x < 0 ==> x <= tdiv(x, d) <= 0,
{
    if x > 0 {
        vstd::arithmetic::div_mod::lemma_div_pos_is_pos(x, d);
        vstd::arithmetic::div_mod::lemma_div_is_ordered_by_denominator(x, 1, d);
    } else if x < 0 {
        vstd::arithmetic::div_mod::lemma_div_pos_is_pos(-x, d);
        vstd::arithmetic::div_mod::lemma_div_is_ordered_by_denominator(-x, 1, d);
    }
}

/// With a positive divisor, rounding toward zero is monotone in the dividend.
pub proof fn lemma_tdiv_monotone(x: int, y: int, d: int)
    requires
        d > 0,
        x <= y,
    ensures
        tdiv(x, d) <= tdiv(y, d),
{
    if x >= 0 {
        vstd::arithmetic::div_mod::lemma_div_is_ordered(x, y, d);
    } else if y < 0 {
        vstd::arithmetic::div_mod::lemma_div_is_ordered(-y, -x, d);
    } else {
        lemma_tdiv_positive_divisor(x, d);
        lemma_tdiv_positive_divisor(y, d);
    }
}

/// Multiplying by a non-zero divisor and dividing by it again gives the
/// starting value back.
pub proof fn lemma_tdiv_cancel(x: int, d: int)
    requires
        d != 0,
    ensures
        tdiv(x * d, d) == x,
{
    if x != 0 {
        if x > 0 && d > 0 {
            vstd::arithmetic::div_mod::lemma_div_multiples_vanish(x, d);
            assert(x * d == d * x) by (nonlinear_arith);
        } else if x < 0 && d < 0 {
            assert(x * d > 0) by (nonlinear_arith)
                requires
                    x < 0,
                    d < 0,
            ;
            vstd::arithmetic::div_mod::lemma_div_multiples_vanish(-x, -d);
            assert(x * d == (-d) * (-x)) by (nonlinear_arith);
        } else if x < 0 {
            assert(x * d < 0) by (nonlinear_arith)
                requires
                    x < 0,
                    d > 0,
            ;
            vstd::arithmetic::div_mod::lemma_div_multiples_vanish(-x, d);
            assert((x * d) * -1 == d * (-x)) by (nonlinear_arith);
        } else {
            assert(x * d < 0) by (nonlinear_arith)
                requires
                    x > 0,
                    d < 0,
            ;
            vstd::arithmetic::div_mod::lemma_div_multiples_vanish(x, -d);
            assert(x * d == (-d) * x * -1) by (nonlinear_arith);
        }
    } else {
        assert(x * d == 0);
    }
}

/// Rounding down is superadditive: the parts of two non-negative amounts,
/// rounded separately, add up to at most the part of their sum.
pub proof fn lemma_floor_div_superadditive(a: int, b: int, d: int)
    requires
        a >= 0,
        b >= 0,
        d > 0,
    ensures
        a / d + b / d <= (a + b) / d,
{
    let qa = a / d;
    let qb = b / d;
    let q = (a + b) / d;
    vstd::arithmetic::div_mod::lemma_fundamental_div_mod(a, d);
    vstd::arithmetic::div_mod::lemma_fundamental_div_mod(b, d);
    vstd::arithmetic::div_mod::lemma_fundamental_div_mod(a + b, d);
    vstd::arithmetic::div_mod::lemma_mod_bound(a, d);
    vstd::arithmetic::div_mod::lemma_mod_bound(b, d);
    vstd::arithmetic::div_mod::lemma_mod_bound(a + b, d);
    if q < qa + qb {
        assert(d * q <= d * (qa + qb) - d) by (nonlinear_arith)
            requires
                q <= qa + qb - 1,
                d > 0,
        ;
        assert(d * (qa + qb) == d * qa + d * qb) by (nonlinear_arith);
        assert(false);
    }
}

/// With a positive divisor, the quotient rounded toward zero is the number of
/// whole divisors in the dividend: that many divisors lie within one divisor
/// of the dividend, on the side of zero.
pub proof fn lemma_tdiv_bounds(x: int, d: int)
    requires
        d > 0,
    ensures
        x >= 0 ==> tdiv(x, d) >= 0 && tdiv(x, d) * d <= x < tdiv(x, d) * d + d,
        x <= 0 ==> tdiv(x, d) <= 0 && tdiv(x, d) * d - d < x <= tdiv(x, d) * d,
{
    if x > 0 {
        vstd::arithmetic::div_mod::lemma_fundamental_div_mod(x, d);
        vstd::arithmetic::div_mod::lemma_mod_bound(x, d);
        vstd::arithmetic::div_mod::lemma_div_pos_is_pos(x, d);
        assert(d * (x / d) == (x / d) * d) by (nonlinear_arith);
    } else if x < 0 {
        let y = -x;
        vstd::arithmetic::div_mod::lemma_fundamental_div_mod(y, d);
        vstd::arithmetic::div_mod::lemma_mod_bound(y, d);
        vstd::arithmetic::div_mod::lemma_div_pos_is_pos(y, d);
        assert(((y / d) * -1) * d == -(d * (y / d))) by (nonlinear_arith);
    }
}

/// With a positive divisor, a number of divisors that lies within one divisor
/// of the dividend, on the side of zero, is the quotient rounded toward zero.
pub proof fn lemma_tdiv_unique(x: int, d: int, q: int)
    requires
        d > 0,
        x >= 0 ==> q * d <= x < q * d + d,
        x <= 0 ==> q * d - d < x <= q * d,
    ensures
        q == tdiv(x, d),
{
    lemma_tdiv_bounds(x, d);
    let t = tdiv(x, d);
    if q < t {
        assert(q * d + d <= t * d) by (nonlinear_arith)
            requires
                q + 1 <= t,
                d > 0,
        ;
    } else if t < q {
        assert(t * d + d <= q * d) by (nonlinear_arith)
            requires
                t + 1 <= q,
                d > 0,
        ;
    }
}

/// Scaling dividend and divisor by the same positive factor leaves the
/// quotient unchanged.
pub proof fn lemma_tdiv_scale(x: int, d: int, k: int)
    requires
        d > 0,
        k > 0,
    ensures
        tdiv(k * x, k * d) == tdiv(x, d),
{
    lemma_tdiv_bounds(x, d);
    let t = tdiv(x, d);
    assert(k * d > 0) by (nonlinear_arith)
        requires
            d > 0,
            k > 0,
    ;
    if x >= 0 {
        assert(k * x >= 0 && t * (k * d) <= k * x < t * (k * d) + k * d) by (nonlinear_arith)
            requires
                k > 0,
                x >= 0,
                t * d <= x < t * d + d,
        ;
    }
    if x <= 0 {
        assert(k * x <= 0 && t * (k * d) - k * d < k * x <= t * (k * d)) by (nonlinear_arith)
            requires
                k > 0,
                x <= 0,
                t * d - d < x <= t * d,
        ;
    }
    assert((k * x >= 0 ==> x >= 0) && (k * x <= 0 ==> x <= 0)) by (nonlinear_arith)
        requires
            k > 0,
    ;
    lemma_tdiv_unique(k * x, k * d, t);
}

} // verus!
