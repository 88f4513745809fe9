//! Exact fixed-point scalars.
//!
//! A [`Fix`] stores an `i64` raw value; the number it denotes is
//! `raw / FIX_SCALE`, giving six decimal places. Every operation either
//! returns the exactly specified result or reports that the result does not
//! fit, so contracts elsewhere in the crate can pin sample values down to the
//! raw unit.

use vstd::arithmetic::div_mod::{
    lemma_div_decreases, lemma_div_multiples_vanish, lemma_div_nonincreasing, lemma_div_pos_is_pos,
};
use vstd::prelude::*;

verus! {

/// Raw units per whole unit: values carry six decimal places.
pub const FIX_SCALE: i64 = 1_000_000;

/// A fixed-point number; the denoted value is `self.0 / FIX_SCALE`.
#[derive(Clone, Copy, PartialEq, Eq, Structural, Debug)]
pub struct Fix(pub i64);

/// Whether a mathematical integer fits the raw `i64` representation.
pub open spec fn in_i64(x: int) -> bool {
    i64::MIN <= x <= i64::MAX
}

/// Division truncated toward zero, the rounding that every raw operation uses.
pub open spec fn tdiv(x: int, d: int) -> int
    recommends
        d != 0,
{
    if x == 0 {
        0
    } else if x > 0 && d > 0 {
        x / d
    } else if x < 0 && d < 0 {
        (x * -1) / (d * -1)
    } else if x < 0 {
        ((x * -1) / d) * -1
    } else {
        (x / (d * -1)) * -1
    }
}

/// Raw value of the product of two fixed-point numbers.
pub open spec fn fix_mul_raw(a: int, b: int) -> int {
    tdiv(a * b, FIX_SCALE as int)
}

/// Raw value of the quotient of two fixed-point numbers.
pub open spec fn fix_div_raw(a: int, b: int) -> int
    recommends
        b != 0,
{
    tdiv(a * FIX_SCALE, b)
}

/// Raw value of the reciprocal of a fixed-point number.
pub open spec fn fix_recip_raw(a: int) -> int
    recommends
        a != 0,
{
    tdiv((FIX_SCALE * FIX_SCALE) as int, a)
}

/// Truncated `i128` division; the quotient always fits except for the one
/// excluded corner case.
fn tdiv_i128(x: i128, d: i128) -> (q: i128)
    requires
        d != 0,
        !(x == i128::MIN && d == -1),
    ensures
        q == tdiv(x as int, d as int),
{
    proof {
        lemma_tdiv_i128_fits(x as int, d as int);
    }
    match x.checked_div(d) {
        Some(q) => q,
        None => {
            proof {
                assert(false);
            }
            0
        },
    }
}

/// The quotient of an `i128` truncated division fits `i128`, outside the one
/// excluded corner case.
proof fn lemma_tdiv_i128_fits(x: int, d: int)
    requires
        d != 0,
        i128::MIN <= x <= i128::MAX,
        i128::MIN <= d <= i128::MAX,
        !(x == i128::MIN && d == -1),
    ensures
        i128::MIN <= tdiv(x, d) <= i128::MAX,
{
    if x == 0 {
    } else if x > 0 && d > 0 {
        lemma_div_nonincreasing(x, d);
        lemma_div_pos_is_pos(x, d);
    } else if x < 0 && d < 0 {
        if d == -1 {
            lemma_one_div(x * -1);
            assert(x * -1 <= i128::MAX);
        } else {
            lemma_div_decreases(x * -1, d * -1);
            lemma_div_pos_is_pos(x * -1, d * -1);
        }
    } else if x < 0 {
        lemma_div_nonincreasing(x * -1, d);
        lemma_div_pos_is_pos(x * -1, d);
    } else {
        lemma_div_nonincreasing(x, d * -1);
        lemma_div_pos_is_pos(x, d * -1);
    }
}

/// Dividing by one changes nothing.
proof fn lemma_one_div(x: int)
    ensures
        x / 1 == x,
{
    lemma_div_multiples_vanish(x, 1);
}

impl Fix {
    /// The fixed-point zero.
    pub fn zero() -> (r: Fix)
        ensures
            r.0 == 0,
    {
        Fix(0)
    }

    /// The fixed-point one.
    pub fn one() -> (r: Fix)
        ensures
            r.0 == FIX_SCALE,
    {
        Fix(FIX_SCALE)
    }

    /// The fixed-point number denoting the integer `n`, if it fits.
    pub fn from_int(n: i64) -> (r: Option<Fix>)
        ensures
            r is Some <==> in_i64(n * FIX_SCALE),
            r matches Some(f) ==> f.0 == n * FIX_SCALE,
    {
        match n.checked_mul(FIX_SCALE) {
            Some(v) => Some(Fix(v)),
            None => None,
        }
    }

    /// Exact sum, or `None` when the result does not fit.
    pub fn add(self, other: Fix) -> (r: Option<Fix>)
        ensures
            r is Some <==> in_i64(self.0 + other.0),
            r matches Some(f) ==> f.0 == self.0 + other.0,
    {
        match self.0.checked_add(other.0) {
            Some(v) => Some(Fix(v)),
            None => None,
        }
    }

    /// Exact difference, or `None` when the result does not fit.
    pub fn sub(self, other: Fix) -> (r: Option<Fix>)
        ensures
            r is Some <==> in_i64(self.0 - other.0),
            r matches Some(f) ==> f.0 == self.0 - other.0,
    {
        match self.0.checked_sub(other.0) {
            Some(v) => Some(Fix(v)),
            None => None,
        }
    }

    /// Exact negation, or `None` when the result does not fit.
    pub fn neg(self) -> (r: Option<Fix>)
        ensures
            r is Some <==> in_i64(0 - self.0),
            r matches Some(f) ==> f.0 == 0 - self.0,
    {
        match 0i64.checked_sub(self.0) {
            Some(v) => Some(Fix(v)),
            None => None,
        }
    }

    /// Product, truncated toward zero at the sixth decimal place, or `None`
    /// when the result does not fit.
    pub fn mul(self, other: Fix) -> (r: Option<Fix>)
        ensures
            r is Some <==> in_i64(fix_mul_raw(self.0 as int, other.0 as int)),
            r matches Some(f) ==> f.0 == fix_mul_raw(self.0 as int, other.0 as int),
    {
        assert(i128::MIN <= (self.0 as int) * (other.0 as int) <= i128::MAX) by (nonlinear_arith)
            requires
                i64::MIN <= self.0 <= i64::MAX,
                i64::MIN <= other.0 <= i64::MAX,
        ;
        let p: i128 = (self.0 as i128) * (other.0 as i128);
        let q = tdiv_i128(p, FIX_SCALE as i128);
        if i64::MIN as i128 <= q && q <= i64::MAX as i128 {
            Some(Fix(q as i64))
        } else {
            None
        }
    }

    /// Exact product with an integer, or `None` when the result does not fit.
    pub fn mul_int(self, n: i64) -> (r: Option<Fix>)
        ensures
            r is Some <==> in_i64(n * self.0),
            r matches Some(f) ==> f.0 == n * self.0,
    {
        assert(i128::MIN <= (n as int) * (self.0 as int) <= i128::MAX) by (nonlinear_arith)
            requires
                i64::MIN <= n <= i64::MAX,
                i64::MIN <= self.0 <= i64::MAX,
        ;
        let p: i128 = (n as i128) * (self.0 as i128);
        if i64::MIN as i128 <= p && p <= i64::MAX as i128 {
            Some(Fix(p as i64))
        } else {
            None
        }
    }

    /// Quotient, truncated toward zero at the sixth decimal place; `None` when
    /// the divisor is zero or the result does not fit.
    pub fn div(self, other: Fix) -> (r: Option<Fix>)
        ensures
            r is Some <==> other.0 != 0 && in_i64(fix_div_raw(self.0 as int, other.0 as int)),
            r matches Some(f) ==> f.0 == fix_div_raw(self.0 as int, other.0 as int),
    {
        if other.0 == 0 {
            None
        } else {
            assert(i128::MIN <= (self.0 as int) * (FIX_SCALE as int) <= i128::MAX)
                by (nonlinear_arith)
                requires
                    i64::MIN <= self.0 <= i64::MAX,
            ;
            let p: i128 = (self.0 as i128) * (FIX_SCALE as i128);
            let q = tdiv_i128(p, other.0 as i128);
            if i64::MIN as i128 <= q && q <= i64::MAX as i128 {
                Some(Fix(q as i64))
            } else {
                None
            }
        }
    }

    /// Reciprocal, truncated toward zero at the sixth decimal place; `None`
    /// exactly when the value is zero. The raw reciprocal of a nonzero value
    /// always fits.
    pub fn recip(self) -> (r: Option<Fix>)
        ensures
            r is Some <==> self.0 != 0,
            r matches Some(f) ==> f.0 == fix_recip_raw(self.0 as int),
    {
        if self.0 == 0 {
            None
        } else {
            assert((FIX_SCALE as int) * (FIX_SCALE as int) == 1_000_000_000_000) by (nonlinear_arith);
            let p: i128 = (FIX_SCALE as i128) * (FIX_SCALE as i128);
            let q = tdiv_i128(p, self.0 as i128);
            proof {
                lemma_fix_recip_fits(self.0 as int);
            }
            Some(Fix(q as i64))
        }
    }
}

/// The raw reciprocal of a nonzero raw value fits `i64`.
proof fn lemma_fix_recip_fits(a: int)
    requires
        a != 0,
        in_i64(a),
    ensures
        in_i64(fix_recip_raw(a)),
        in_i64(tdiv((FIX_SCALE * FIX_SCALE) as int, a)),
{
    let s2 = (FIX_SCALE * FIX_SCALE) as int;
    if a > 0 {
        lemma_div_nonincreasing(s2, a);
        vstd::arithmetic::div_mod::lemma_div_pos_is_pos(s2, a);
    } else {
        lemma_div_nonincreasing(s2, a * -1);
        vstd::arithmetic::div_mod::lemma_div_pos_is_pos(s2, a * -1);
    }
}

/// Multiplying by the fixed-point one returns the value unchanged.
pub proof fn lemma_fix_mul_one(a: int)
    ensures
        fix_mul_raw(a, FIX_SCALE as int) == a,
        fix_mul_raw(FIX_SCALE as int, a) == a,
{
    let s = FIX_SCALE as int;
    if a == 0 {
    } else if a > 0 {
        assert((a * s) / s == a) by {
            lemma_div_multiples_vanish(a, s);
            assert(a * s == s * a) by (nonlinear_arith);
        }
    } else {
        assert(((a * s) * -1) / s == a * -1) by {
            lemma_div_multiples_vanish(a * -1, s);
            assert((a * s) * -1 == s * (a * -1)) by (nonlinear_arith);
        }
        assert(a * s < 0) by (nonlinear_arith)
            requires
                a < 0,
                s > 0,
        ;
    }
    assert(a * s == s * a) by (nonlinear_arith);
}

/// Multiplying by the fixed-point zero returns zero.
pub proof fn lemma_fix_mul_zero(a: int)
    ensures
        fix_mul_raw(a, 0) == 0,
        fix_mul_raw(0, a) == 0,
{
    assert(a * 0 == 0) by (nonlinear_arith);
}

} // verus!
