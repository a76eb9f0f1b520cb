//! Fixed-point decimal coordinates.
//!
//! Every coordinate, color component, scale factor and chart sample in this
//! library is a [`Fixed`]: a signed count of thousandths of a unit (one
//! PostScript point).  All geometry is therefore exact integer arithmetic,
//! and products of a coordinate and a scale factor are divided back by
//! [`UNIT`] with truncation toward zero, matching ordinary `/` on hardware
//! integers.

use vstd::prelude::*;
use vstd::arithmetic::div_mod::{
    lemma_div_is_ordered, lemma_div_multiples_vanish, lemma_div_nonincreasing, lemma_div_of0,
    lemma_div_pos_is_pos,
};
use vstd::arithmetic::mul::{lemma_mul_inequality, lemma_mul_nonnegative};

verus! {

/// Thousandths per unit: the resolution of a `Fixed` value.
pub const UNIT: i64 = 1000;

/// Largest magnitude, in thousandths, accepted for a coordinate argument of
/// the public drawing operations (one million units).
pub const MAX_IN: i64 = 1_000_000_000;

/// Largest magnitude, in thousandths, accepted for a scale factor (a factor
/// of one thousand).
pub const MAX_SCALE: i64 = 1_000_000;

/// Largest magnitude, in thousandths, of a coordinate stored in the event
/// log: a coordinate at most `MAX_IN` scaled by a factor at most `MAX_SCALE`.
pub const MAX_STORE: i64 = 1_000_000_000_000;

/// Largest magnitude, in thousandths, the text cursor can reach: a position
/// within `MAX_IN` moved down by at most two line spacings.
pub const MAX_CURSOR: i64 = 3_000_000_000;

/// Largest magnitude, in thousandths, of the line spacing: a font scale
/// within `MAX_IN` times eleven tenths.
pub const MAX_SPACE: i64 = 1_100_000_000;

/// Division truncating toward zero, as `/` behaves on signed machine
/// integers (`int` division in specifications rounds toward negative
/// infinity instead).
pub open spec fn tdiv(x: int, d: int) -> int {
    if x == 0 {
        0
    } else if x > 0 && d > 0 {
        x / d
    } else if x < 0 && d < 0 {
        (x * -1) / (d * -1)
    } else if x < 0 {
        ((x * -1) / d) * -1
    } else {
        (x / (d * -1)) * -1
    }
}

/// A coordinate argument acceptable to the public drawing operations.
pub open spec fn in_range(x: int) -> bool {
    -MAX_IN <= x <= MAX_IN
}

/// A coordinate scaled at insertion time: the product in thousandths,
/// divided back by `UNIT` with truncation.
pub open spec fn scaled(x: int, scale: int) -> int {
    tdiv(x * scale, UNIT as int)
}

/// For a nonnegative dividend and a positive divisor, truncating division
/// agrees with the `int` division of specifications and shrinks the
/// dividend.
pub proof fn lemma_tdiv_nonneg(x: int, d: int)
    requires
        0 <= x,
        0 < d,
    ensures
        tdiv(x, d) == x / d,
        0 <= tdiv(x, d) <= x,
{
    if x == 0 {
        lemma_div_of0(d);
    } else {
        lemma_div_pos_is_pos(x, d);
        lemma_div_nonincreasing(x, d);
    }
}

/// A dividend within `k` multiples of the divisor has a quotient within `k`.
pub proof fn lemma_tdiv_bound(p: int, d: int, k: int)
    requires
        0 < d,
        0 <= k,
        -(k * d) <= p <= k * d,
    ensures
        -k <= tdiv(p, d) <= k,
{
    if p >= 0 {
        lemma_tdiv_nonneg(p, d);
        lemma_div_is_ordered(p, k * d, d);
        lemma_div_multiples_vanish(k, d);
        assert(k * d == d * k) by (nonlinear_arith);
    } else {
        lemma_tdiv_nonneg(p * -1, d);
        lemma_div_is_ordered(p * -1, k * d, d);
        lemma_div_multiples_vanish(k, d);
        assert(k * d == d * k) by (nonlinear_arith);
    }
}

/// The interpolation quotient `a * i / n` with `0 <= i <= n` stays between
/// zero and `a`.
pub proof fn lemma_tdiv_scaled_bounds(a: int, i: int, n: int)
    requires
        0 <= i <= n,
        1 <= n,
    ensures
        a >= 0 ==> 0 <= tdiv(a * i, n) <= a,
        a < 0 ==> a <= tdiv(a * i, n) <= 0,
{
    let b = if a >= 0 {
        a
    } else {
        a * -1
    };
    lemma_mul_nonnegative(b, i);
    lemma_mul_inequality(i, n, b);
    assert(i * b == b * i && n * b == b * n) by (nonlinear_arith);
    lemma_tdiv_nonneg(b * i, n);
    lemma_div_is_ordered(b * i, b * n, n);
    lemma_div_multiples_vanish(b, n);
    assert(b * n == n * b) by (nonlinear_arith);
    if a < 0 {
        assert(b * i == (a * i) * -1) by (nonlinear_arith)
            requires
                b == a * -1,
        ;
        if i == 0 {
            assert(a * i == 0) by (nonlinear_arith)
                requires
                    i == 0,
            ;
        } else {
            assert(a * i < 0) by (nonlinear_arith)
                requires
                    a < 0,
                    i > 0,
            ;
            assert(tdiv(a * i, n) == ((a * i) * -1) / n * -1);
        }
    }
}

/// Truncating division never grows the dividend's magnitude.
pub proof fn lemma_tdiv_abs(x: int, d: int)
    requires
        d != 0,
    ensures
        -(if x >= 0 { x } else { -x }) <= tdiv(x, d) <= (if x >= 0 { x } else { -x }),
{
    if x == 0 {
    } else if x > 0 && d > 0 {
        lemma_tdiv_nonneg(x, d);
    } else if x < 0 && d < 0 {
        lemma_tdiv_nonneg(x * -1, d * -1);
    } else if x < 0 {
        lemma_tdiv_nonneg(x * -1, d);
    } else {
        lemma_tdiv_nonneg(x, d * -1);
    }
}

/// A scaled in-range coordinate stays within the storable range.
pub proof fn lemma_scaled_in_store(x: int, scale: int)
    requires
        in_range(x),
        -MAX_SCALE <= scale <= MAX_SCALE,
    ensures
        -MAX_STORE <= scaled(x, scale) <= MAX_STORE,
{
    assert(-(MAX_STORE * UNIT) <= x * scale <= MAX_STORE * UNIT) by (nonlinear_arith)
        requires
            -MAX_IN <= x <= MAX_IN,
            -MAX_SCALE <= scale <= MAX_SCALE,
    ;
    lemma_tdiv_bound(x * scale, UNIT as int, MAX_STORE as int);
}

/// A coordinate in thousandths of a unit.
#[derive(Clone, Copy, Debug, PartialEq, Eq, Structural)]
pub struct Fixed {
    /// The signed count of thousandths.
    pub m: i64,
}

impl View for Fixed {
    type V = int;

    open spec fn view(&self) -> int {
        self.m as int
    }
}

impl DeepView for Fixed {
    type V = int;

    open spec fn deep_view(&self) -> int {
        self.m as int
    }
}

impl Fixed {
    /// The value zero.
    pub fn zero() -> (r: Fixed)
        ensures
            r@ == 0,
    {
        Fixed { m: 0 }
    }

    /// The value `m` thousandths of a unit.
    pub fn from_milli(m: i64) -> (r: Fixed)
        ensures
            r@ == m,
    {
        Fixed { m }
    }

    /// The value `v` whole units.
    pub fn from_int(v: i64) -> (r: Fixed)
        requires
            -9_000_000_000_000_000 <= v <= 9_000_000_000_000_000,
        ensures
            r@ == v * 1000,
    {
        Fixed { m: v * 1000 }
    }

    /// The count of thousandths.
    pub fn milli(&self) -> (r: i64)
        ensures
            r == self@,
    {
        self.m
    }
}

/// Division of machine integers truncating toward zero.
pub(crate) fn div_trunc(a: i64, b: i64) -> (r: i64)
    requires
        b != 0,
        -4_600_000_000_000_000_000 <= a <= 4_600_000_000_000_000_000,
    ensures
        r == tdiv(a as int, b as int),
{
    proof {
        lemma_tdiv_abs(a as int, b as int);
    }
    match a.checked_div(b) {
        Some(v) => v,
        None => {
            proof {
                assert(false);
            }
            0
        },
    }
}

} // verus!
