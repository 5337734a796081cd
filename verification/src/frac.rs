//! Exact rational scalars and 2D vectors.
//!
//! All continuous quantities of the renderer (positions, ray depths, slice
//! geometry) are exact fractions of machine integers, so every comparison and
//! every tie-break of the traversal is decided exactly, with no rounding.

use vstd::prelude::*;

verus! {

/// The product of two `i64` values always fits in an `i128`.
pub proof fn lemma_i64_mul_fits_i128(a: int, b: int)
    by (nonlinear_arith)
    requires
        i64::MIN <= a <= i64::MAX,
        i64::MIN <= b <= i64::MAX,
    ensures
        i128::MIN <= a * b <= i128::MAX,
{
}

/// A rational number `num / den` with a positive denominator.
#[derive(Clone, Copy, Debug, PartialEq, Eq, Structural)]
pub struct Frac {
    pub num: i64,
    pub den: i64,
}

impl Frac {
    /// The denominator is positive, so the represented value is `num / den`
    /// and cross-multiplied comparisons keep their direction.
    pub open spec fn wf(self) -> bool {
        self.den >= 1
    }

    /// Two fractions denote the same rational.
    pub open spec fn eq_spec(self, other: Frac) -> bool {
        self.num * other.den == other.num * self.den
    }

    /// Strictly smaller as rationals (valid when both are well-formed).
    pub open spec fn lt_spec(self, other: Frac) -> bool {
        self.num * other.den < other.num * self.den
    }

    pub open spec fn le_spec(self, other: Frac) -> bool {
        self.num * other.den <= other.num * self.den
    }

    pub fn new(num: i64, den: i64) -> (r: Frac)
        requires
            den >= 1,
        ensures
            r.num == num,
            r.den == den,
            r.wf(),
    {
        Frac { num, den }
    }

    /// Exact equality test by cross-multiplication.
    pub fn eq_frac(self, other: Frac) -> (r: bool)
        requires
            self.wf(),
            other.wf(),
        ensures
            r == self.eq_spec(other),
    {
        proof {
            lemma_i64_mul_fits_i128(self.num as int, other.den as int);
            lemma_i64_mul_fits_i128(other.num as int, self.den as int);
        }
        (self.num as i128) * (other.den as i128) == (other.num as i128) * (self.den as i128)
    }

    /// Exact strict comparison by cross-multiplication.
    pub fn lt_frac(self, other: Frac) -> (r: bool)
        requires
            self.wf(),
            other.wf(),
        ensures
            r == self.lt_spec(other),
    {
        proof {
            lemma_i64_mul_fits_i128(self.num as int, other.den as int);
            lemma_i64_mul_fits_i128(other.num as int, self.den as int);
        }
        (self.num as i128) * (other.den as i128) < (other.num as i128) * (self.den as i128)
    }
}

/// A 2D vector (or point) with one shared positive denominator:
/// `(xn / den, yn / den)` in grid units.
#[derive(Clone, Copy, Debug, PartialEq, Eq, Structural)]
pub struct Vec2q {
    pub xn: i64,
    pub yn: i64,
    pub den: i64,
}

impl Vec2q {
    pub open spec fn wf(self) -> bool {
        self.den >= 1
    }

    pub open spec fn is_zero(self) -> bool {
        self.xn == 0 && self.yn == 0
    }

    pub fn new(xn: i64, yn: i64, den: i64) -> (r: Vec2q)
        requires
            den >= 1,
        ensures
            r.xn == xn,
            r.yn == yn,
            r.den == den,
            r.wf(),
    {
        Vec2q { xn, yn, den }
    }
}

} // verus!
