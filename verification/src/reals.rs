//! Real numbers.
//!
//! Rates, fractions and balances are binary64 numbers. Here such a number is its bit
//! pattern: enough to store it, to hand it on and to compare it. Arithmetic on it, and its
//! decimal notation, come from outside, as a [`Figure`].

use vstd::prelude::*;

verus! {

/// A binary64 number, as its bit pattern.
#[derive(Clone, Copy)]
pub struct Real {
    pub bits: u64,
}

/// The bit pattern of 0.
pub const BITS_ZERO: u64 = 0;

/// The bit pattern of 0.7.
pub const BITS_SEVEN_TENTHS: u64 = 0x3fe6_6666_6666_6666;

/// The bit pattern of 0.9.
pub const BITS_NINE_TENTHS: u64 = 0x3fec_cccc_cccc_cccd;

/// The bit pattern of 1.
pub const BITS_ONE: u64 = 0x3ff0_0000_0000_0000;

/// The bit pattern of 2.
pub const BITS_TWO: u64 = 0x4000_0000_0000_0000;

/// The bit pattern of 5.
pub const BITS_FIVE: u64 = 0x4014_0000_0000_0000;

/// The bit pattern of 10.
pub const BITS_TEN: u64 = 0x4024_0000_0000_0000;

/// The bit pattern of -1.
pub const BITS_MINUS_ONE: u64 = 0xbff0_0000_0000_0000;

impl Real {
    /// The bits below the sign bit.
    pub open spec fn magnitude(self) -> int {
        (self.bits % 0x8000_0000_0000_0000) as int
    }

    /// Is this no number? Its magnitude is then above that of infinity.
    pub open spec fn is_nan(self) -> bool {
        self.magnitude() > 0x7ff0_0000_0000_0000
    }

    /// The place of the number among the numbers: the magnitude, with the sign.
    pub open spec fn place(self) -> int {
        if self.bits < 0x8000_0000_0000_0000 {
            self.magnitude()
        } else {
            -self.magnitude()
        }
    }

    /// Is this number greater than `other`? No comparison holds of what is no number.
    pub open spec fn above(self, other: Real) -> bool {
        !self.is_nan() && !other.is_nan() && self.place() > other.place()
    }

    /// Is this number greater than or equal to `other`?
    pub open spec fn reaches(self, other: Real) -> bool {
        !self.is_nan() && !other.is_nan() && self.place() >= other.place()
    }

    /// The place of the number among the numbers, and whether it is one.
    pub fn placed(&self) -> (r: (i64, bool))
        ensures
            r.0 == self.place(),
            r.1 == !self.is_nan(),
    {
        let m: u64 = self.bits % 0x8000_0000_0000_0000;
        if self.bits < 0x8000_0000_0000_0000 {
            (m as i64, m <= 0x7ff0_0000_0000_0000)
        } else {
            (-(m as i64), m <= 0x7ff0_0000_0000_0000)
        }
    }

    /// Is this number greater than `other`?
    pub fn gt(&self, other: &Real) -> (r: bool)
        ensures
            r == self.above(*other),
    {
        let a = self.placed();
        let b = other.placed();
        a.1 && b.1 && a.0 > b.0
    }

    /// Is this number greater than or equal to `other`?
    pub fn ge(&self, other: &Real) -> (r: bool)
        ensures
            r == self.reaches(*other),
    {
        let a = self.placed();
        let b = other.placed();
        a.1 && b.1 && a.0 >= b.0
    }
}

/// A number, with the notations of it that the listings use.
pub struct Figure {
    /// The number.
    pub value: Real,
    /// The number without decimals, rounded.
    pub whole: String,
    /// The number with one decimal, rounded.
    pub tenth: String,
    /// The absolute value, rounded to an integer.
    pub rounded: u64,
    /// Does the number differ from an integer by less than 0.05?
    pub near_whole: bool,
}

/// A share of something, with the notations of it that the listings use.
pub struct Share {
    /// The share; 1 stands for all of it.
    pub value: Real,
    /// The percentage without decimals, rounded.
    pub percent: String,
    /// The percentage with one decimal, rounded.
    pub percent_tenth: String,
}

/// How far a bar of some width is filled.
pub struct Fill {
    /// The number of filled cells, rounded.
    pub cells: usize,
    /// The number of filled eighths of a cell, rounded.
    pub eighths: usize,
}

/// Of two numbers, one is greater or they are equal; and never both.
pub proof fn law_numbers_compare(a: Real, b: Real)
    requires
        !a.is_nan(),
        !b.is_nan(),
    ensures
        a.above(b) != b.reaches(a),
        a.reaches(b) == (a.above(b) || (a.reaches(b) && b.reaches(a))),
{
}

} // verus!
