//! Exact rational numbers.
//!
//! Every quantity that is not a whole number (a hue in degrees, a saturation,
//! a luminance, an angle, a threshold, an aspect ratio) is carried as an exact
//! fraction of two machine integers.  Contracts speak of the mathematical
//! fraction [`Frac`]; [`Ratio`] is the value that executable code holds.

use vstd::prelude::*;

verus! {

/// The mathematical fraction `num / den`.
pub struct Frac {
    pub num: int,
    pub den: int,
}

impl Frac {
    /// The fraction `num / den`.
    pub open spec fn new(num: int, den: int) -> Frac {
        Frac { num, den }
    }

    /// The whole number `n`.
    pub open spec fn whole(n: int) -> Frac {
        Frac { num: n, den: 1 }
    }

    /// A fraction is well formed when its denominator is positive.
    pub open spec fn wf(self) -> bool {
        self.den > 0
    }

    /// `self < other`, for well-formed fractions.
    pub open spec fn lt(self, other: Frac) -> bool {
        self.num * other.den < other.num * self.den
    }

    /// `self <= other`, for well-formed fractions.
    pub open spec fn le(self, other: Frac) -> bool {
        self.num * other.den <= other.num * self.den
    }

    /// `self >= other`, for well-formed fractions.
    pub open spec fn ge(self, other: Frac) -> bool {
        other.le(self)
    }

    /// `self > other`, for well-formed fractions.
    pub open spec fn gt(self, other: Frac) -> bool {
        other.lt(self)
    }

    /// `low <= self <= high`, for well-formed fractions.
    pub open spec fn within(self, low: Frac, high: Frac) -> bool {
        low.le(self) && self.le(high)
    }

    /// The fraction denotes the same number as `other`.
    pub open spec fn same(self, other: Frac) -> bool {
        self.num * other.den == other.num * self.den
    }

    /// `0 <= self <= 1`, for a well-formed fraction.
    pub open spec fn in_unit_interval(self) -> bool {
        0 <= self.num <= self.den
    }

    /// The largest whole number not above `self`, for a well-formed fraction.
    pub open spec fn floor(self) -> int {
        self.num / self.den
    }
}

/// The fraction `num / den` in machine integers; the denominator is never zero.
#[derive(Clone, Copy, Debug)]
pub struct Ratio {
    num: i32,
    den: u32,
}

impl View for Ratio {
    type V = Frac;

    closed spec fn view(&self) -> Frac {
        Frac { num: self.num as int, den: self.den as int }
    }
}

impl Ratio {
    #[verifier::type_invariant]
    spec fn positive_denominator(self) -> bool {
        self.den > 0
    }

    /// `num / den`, or `None` when `den` is zero.
    pub fn new(num: i32, den: u32) -> (r: Option<Ratio>)
        ensures
            den == 0 <==> r is None,
            r matches Some(q) ==> q@ == Frac::new(num as int, den as int),
    {
        if den == 0 {
            None
        } else {
            Some(Ratio { num, den })
        }
    }

    /// `num / den` for a denominator known to be positive.
    pub fn of(num: i32, den: u32) -> (r: Ratio)
        requires
            den > 0,
        ensures
            r@ == Frac::new(num as int, den as int),
    {
        Ratio { num, den }
    }

    /// The whole number `n`.
    pub fn whole(n: i32) -> (r: Ratio)
        ensures
            r@ == Frac::whole(n as int),
    {
        Ratio { num: n, den: 1 }
    }

    /// The numerator.
    pub fn num(&self) -> (n: i32)
        ensures
            n == self@.num,
    {
        self.num
    }

    /// The denominator, which is positive.
    pub fn den(&self) -> (d: u32)
        ensures
            d == self@.den,
            d > 0,
    {
        proof {
            use_type_invariant(self);
        }
        self.den
    }

    /// Whether `self < other`.
    pub fn lt(&self, other: &Ratio) -> (b: bool)
        ensures
            b == self@.lt(other@),
            self@.wf(),
            other@.wf(),
    {
        proof {
            use_type_invariant(self);
            use_type_invariant(other);
            lemma_product_fits(self.num as int, other.den as int);
            lemma_product_fits(other.num as int, self.den as int);
        }
        let left: i64 = (self.num as i64) * (other.den as i64);
        let right: i64 = (other.num as i64) * (self.den as i64);
        left < right
    }

    /// Whether `self <= other`.
    pub fn le(&self, other: &Ratio) -> (b: bool)
        ensures
            b == self@.le(other@),
            self@.wf(),
            other@.wf(),
    {
        proof {
            use_type_invariant(self);
            use_type_invariant(other);
            lemma_product_fits(self.num as int, other.den as int);
            lemma_product_fits(other.num as int, self.den as int);
        }
        let left: i64 = (self.num as i64) * (other.den as i64);
        let right: i64 = (other.num as i64) * (self.den as i64);
        left <= right
    }

    /// Whether `self >= other`.
    pub fn ge(&self, other: &Ratio) -> (b: bool)
        ensures
            b == self@.ge(other@),
            self@.wf(),
            other@.wf(),
    {
        other.le(self)
    }

    /// Whether `self > other`.
    pub fn gt(&self, other: &Ratio) -> (b: bool)
        ensures
            b == self@.gt(other@),
            self@.wf(),
            other@.wf(),
    {
        other.lt(self)
    }

    /// Whether `low <= self <= high`.
    pub fn within(&self, low: &Ratio, high: &Ratio) -> (b: bool)
        ensures
            b == self@.within(low@, high@),
    {
        low.le(self) && self.le(high)
    }
}

/// The product of a 32-bit signed and a 32-bit unsigned number fits in 64
/// signed bits.
proof fn lemma_product_fits(a: int, b: int)
    requires
        -0x8000_0000 <= a <= 0x7fff_ffff,
        0 <= b <= 0xffff_ffff,
    ensures
        -0x7fff_ffff_8000_0000 <= a * b <= 0x7fff_fffe_8000_0001,
{
    assert(a * b <= 0x7fff_ffff * 0xffff_ffff) by (nonlinear_arith)
        requires
            a <= 0x7fff_ffff,
            0 <= b <= 0xffff_ffff,
    ;
    assert(a * b >= -0x8000_0000 * 0xffff_ffff) by (nonlinear_arith)
        requires
            -0x8000_0000 <= a,
            0 <= b <= 0xffff_ffff,
    ;
}

} // verus!
