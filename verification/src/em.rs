//! Font-size-independent lengths.

use vstd::prelude::*;

verus! {

/// A length expressed as a fraction of the font size: the rational number
/// `numer / denom` in `em` units.
///
/// Font metrics arrive as raw font units together with the face's
/// units-per-em value; dividing the two yields the size-independent length.
/// The quotient is kept unevaluated and unreduced, so `==` (and the
/// derived equality) compares representations: two fractions in different
/// terms can denote one value. Value comparison goes through [`em_eq`] in
/// specifications and [`Em::same`] in executable code.
#[derive(Clone, Copy, Debug, PartialEq, Eq, Structural)]
pub struct Em {
    /// The numerator: raw font units, or a fixed per-mille amount.
    pub numer: i64,
    /// The denominator; at least 1.
    pub denom: u64,
}

/// Whether two lengths denote the same rational value, by cross
/// multiplication: `a.numer / a.denom == b.numer / b.denom`.
pub open spec fn em_eq(a: Em, b: Em) -> bool {
    a.numer * b.denom == b.numer * a.denom
}

impl Em {
    /// A denominator of zero never denotes a length.
    pub open spec fn wf(self) -> bool {
        self.denom >= 1
    }

    /// Whether this length denotes the same value as another, even when
    /// the two fractions are kept in different terms.
    pub fn same(self, other: Em) -> (r: bool)
        ensures
            r == em_eq(self, other),
    {
        proof {
            lemma_i128_products_fit(self.numer as int, other.denom as int);
            lemma_i128_products_fit(other.numer as int, self.denom as int);
        }
        (self.numer as i128) * (other.denom as i128) == (other.numer as i128) * (self.denom
            as i128)
    }

    /// The zero length.
    pub fn zero() -> (r: Em)
        ensures
            r == (Em { numer: 0, denom: 1 }),
            r.wf(),
    {
        Em { numer: 0, denom: 1 }
    }

    /// The length of `units` raw font units in a face with `per_em` units
    /// per em.
    pub fn from_units(units: i32, per_em: u16) -> (r: Em)
        requires
            per_em >= 1,
        ensures
            r == (Em { numer: units as i64, denom: per_em as u64 }),
            r.wf(),
    {
        Em { numer: units as i64, denom: per_em as u64 }
    }

    /// The length of `p` thousandths of an em.
    pub fn from_permille(p: i32) -> (r: Em)
        ensures
            r == (Em { numer: p as i64, denom: 1000u64 }),
            r.wf(),
    {
        Em { numer: p as i64, denom: 1000u64 }
    }

    /// The sum of two lengths, as the exact rational sum.
    pub fn plus(self, other: Em) -> (r: Em)
        requires
            self.wf(),
            other.wf(),
            -0x4000_0000 <= self.numer <= 0x4000_0000,
            -0x4000_0000 <= other.numer <= 0x4000_0000,
            self.denom <= 0x4000_0000,
            other.denom <= 0x4000_0000,
        ensures
            r.numer == self.numer * other.denom + other.numer * self.denom,
            r.denom == self.denom * other.denom,
            r.wf(),
    {
        proof {
            lemma_mul_bounds(self.numer as int, other.denom as int);
            lemma_mul_bounds(other.numer as int, self.denom as int);
            lemma_mul_bounds(self.denom as int, other.denom as int);
        }
        Em {
            numer: self.numer * (other.denom as i64) + other.numer * (self.denom as i64),
            denom: self.denom * other.denom,
        }
    }
}

/// The zero length in any denominator denotes the zero length.
pub proof fn lemma_zero_same(d: u64)
    requires
        d >= 1,
    ensures
        em_eq(Em { numer: 0, denom: d }, Em { numer: 0, denom: 1 }),
{
}

/// The product of an `i64` numerator and a `u64` denominator fits in an
/// `i128`.
proof fn lemma_i128_products_fit(a: int, b: int)
    requires
        -0x8000_0000_0000_0000 <= a <= 0x7fff_ffff_ffff_ffff,
        0 <= b <= 0xffff_ffff_ffff_ffff,
    ensures
        -0x8000_0000_0000_0000_0000_0000_0000_0000 <= a * b
            <= 0x7fff_ffff_ffff_ffff_ffff_ffff_ffff_ffff,
{
    assert(-0x8000_0000_0000_0000_0000_0000_0000_0000 <= a * b
        <= 0x7fff_ffff_ffff_ffff_ffff_ffff_ffff_ffff) by (nonlinear_arith)
        requires
            -0x8000_0000_0000_0000 <= a <= 0x7fff_ffff_ffff_ffff,
            0 <= b <= 0xffff_ffff_ffff_ffff,
    ;
}

/// The product of two factors bounded by 2^30 in magnitude stays within
/// 2^60, and is positive when both factors are.
proof fn lemma_mul_bounds(a: int, b: int)
    requires
        -0x4000_0000 <= a <= 0x4000_0000,
        -0x4000_0000 <= b <= 0x4000_0000,
    ensures
        -0x1000_0000_0000_0000 <= a * b <= 0x1000_0000_0000_0000,
        a >= 1 && b >= 1 ==> a * b >= 1,
{
    assert(-0x1000_0000_0000_0000 <= a * b <= 0x1000_0000_0000_0000) by (nonlinear_arith)
        requires
            -0x4000_0000 <= a <= 0x4000_0000,
            -0x4000_0000 <= b <= 0x4000_0000,
    ;
    assert(a >= 1 && b >= 1 ==> a * b >= 1) by (nonlinear_arith);
}

} // verus!
