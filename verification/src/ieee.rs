//! Floating-point numbers held by their IEEE 754 bit patterns.
//!
//! Magnitudes, similarities and confidences are measured elsewhere; the logic
//! here only compares them. A bit pattern carries everything a comparison
//! needs: the sign bit, and the remaining bits, which grow with the absolute
//! value of the number.

use vstd::prelude::*;

verus! {

/// Sign bit of a single-precision pattern.
pub const SIGN_32: u32 = 0x8000_0000;

/// Pattern of single-precision positive infinity.
pub const INFINITY_32: u32 = 0x7f80_0000;

/// Sign bit of a double-precision pattern.
pub const SIGN_64: u64 = 0x8000_0000_0000_0000;

/// Pattern of double-precision positive infinity.
pub const INFINITY_64: u64 = 0x7ff0_0000_0000_0000;

/// A single-precision number, by its bit pattern.
#[derive(Debug, Clone, Copy, PartialEq, Eq, Structural)]
pub struct F32Bits {
    pub bits: u32,
}

/// A double-precision number, by its bit pattern.
#[derive(Debug, Clone, Copy, PartialEq, Eq, Structural)]
pub struct F64Bits {
    pub bits: u64,
}

impl F32Bits {
    /// The pattern without its sign bit.
    pub open spec fn magnitude(self) -> int {
        if self.bits >= SIGN_32 {
            self.bits - SIGN_32
        } else {
            self.bits as int
        }
    }

    /// The pattern is not a number.
    pub open spec fn is_nan(self) -> bool {
        self.magnitude() > INFINITY_32
    }

    /// Position of the number among all numbers; both zeros are at 0.
    pub open spec fn order(self) -> int {
        if self.bits >= SIGN_32 {
            -self.magnitude()
        } else {
            self.magnitude()
        }
    }

    /// The number is greater than `other`; false when either is not a number.
    pub open spec fn exceeds(self, other: F32Bits) -> bool {
        !self.is_nan() && !other.is_nan() && self.order() > other.order()
    }

    /// Whether the number is greater than `other`, as `>` on `f32` decides it.
    pub fn gt(&self, other: &F32Bits) -> (r: bool)
        ensures
            r == self.exceeds(*other),
    {
        !self.nan() && !other.nan() && self.rank() > other.rank()
    }

    /// Whether the pattern is not a number.
    pub fn nan(&self) -> (r: bool)
        ensures
            r == self.is_nan(),
    {
        let magnitude: u32 = if self.bits >= SIGN_32 { self.bits - SIGN_32 } else { self.bits };
        magnitude > INFINITY_32
    }

    /// The number's position among all numbers.
    pub fn rank(&self) -> (r: i64)
        ensures
            r == self.order(),
    {
        if self.bits >= SIGN_32 {
            -((self.bits - SIGN_32) as i64)
        } else {
            self.bits as i64
        }
    }
}

impl F64Bits {
    /// The pattern without its sign bit.
    pub open spec fn magnitude(self) -> int {
        if self.bits >= SIGN_64 {
            self.bits - SIGN_64
        } else {
            self.bits as int
        }
    }

    /// The pattern is not a number.
    pub open spec fn is_nan(self) -> bool {
        self.magnitude() > INFINITY_64
    }

    /// Position of the number among all numbers; both zeros are at 0.
    pub open spec fn order(self) -> int {
        if self.bits >= SIGN_64 {
            -self.magnitude()
        } else {
            self.magnitude()
        }
    }

    /// The number is greater than `other`; false when either is not a number.
    pub open spec fn exceeds(self, other: F64Bits) -> bool {
        !self.is_nan() && !other.is_nan() && self.order() > other.order()
    }

    /// The number is at least `other`; false when either is not a number.
    pub open spec fn reaches(self, other: F64Bits) -> bool {
        !self.is_nan() && !other.is_nan() && self.order() >= other.order()
    }

    /// Whether the number is greater than `other`, as `>` on `f64` decides it.
    pub fn gt(&self, other: &F64Bits) -> (r: bool)
        ensures
            r == self.exceeds(*other),
    {
        !self.nan() && !other.nan() && self.rank() > other.rank()
    }

    /// Whether the number is at least `other`, as `>=` on `f64` decides it.
    pub fn ge(&self, other: &F64Bits) -> (r: bool)
        ensures
            r == self.reaches(*other),
    {
        !self.nan() && !other.nan() && self.rank() >= other.rank()
    }

    /// Whether the pattern is not a number.
    pub fn nan(&self) -> (r: bool)
        ensures
            r == self.is_nan(),
    {
        let magnitude: u64 = if self.bits >= SIGN_64 { self.bits - SIGN_64 } else { self.bits };
        magnitude > INFINITY_64
    }

    /// The number's position among all numbers.
    pub fn rank(&self) -> (r: i64)
        ensures
            r == self.order(),
    {
        if self.bits >= SIGN_64 {
            -((self.bits - SIGN_64) as i64)
        } else {
            self.bits as i64
        }
    }
}

/// Numbers are compared as their signs and sizes tell: those without a sign bit
/// grow with their patterns, those with one shrink, every one without is at
/// least every one with, and both zeros are equal. What is not a number exceeds
/// nothing and is exceeded by nothing.
pub proof fn law_single_order(a: F32Bits, b: F32Bits)
    ensures
        a.is_nan() <==> 0x7f80_0000 < a.bits < 0x8000_0000 || a.bits > 0xff80_0000,
        a.is_nan() || b.is_nan() ==> !a.exceeds(b),
        !a.is_nan() && !b.is_nan() && a.bits < 0x8000_0000 && b.bits < 0x8000_0000 ==> (a.exceeds(b)
            <==> a.bits > b.bits),
        !a.is_nan() && !b.is_nan() && a.bits >= 0x8000_0000 && b.bits >= 0x8000_0000 ==> (a.exceeds(
            b,
        ) <==> a.bits < b.bits),
        !a.is_nan() && !b.is_nan() && a.bits < 0x8000_0000 && b.bits >= 0x8000_0000 ==> (a.exceeds(
            b,
        ) <==> !(a.bits == 0 && b.bits == 0x8000_0000)),
        !a.is_nan() && !b.is_nan() && a.bits >= 0x8000_0000 && b.bits < 0x8000_0000 ==> !a.exceeds(
            b,
        ),
        !a.is_nan() && !b.is_nan() ==> (a.order() > b.order() <==> a.exceeds(b)),
{
}

/// Double-precision numbers are compared in the same way.
pub proof fn law_double_order(a: F64Bits, b: F64Bits)
    ensures
        a.is_nan() <==> 0x7ff0_0000_0000_0000 < a.bits < 0x8000_0000_0000_0000 || a.bits
            > 0xfff0_0000_0000_0000,
        a.is_nan() || b.is_nan() ==> !a.exceeds(b) && !a.reaches(b),
        !a.is_nan() && !b.is_nan() && a.bits < 0x8000_0000_0000_0000 && b.bits
            < 0x8000_0000_0000_0000 ==> (a.exceeds(b) <==> a.bits > b.bits),
        !a.is_nan() && !b.is_nan() && a.bits >= 0x8000_0000_0000_0000 && b.bits
            >= 0x8000_0000_0000_0000 ==> (a.exceeds(b) <==> a.bits < b.bits),
        !a.is_nan() && !b.is_nan() && a.bits < 0x8000_0000_0000_0000 && b.bits
            >= 0x8000_0000_0000_0000 ==> (a.exceeds(b) <==> !(a.bits == 0 && b.bits
            == 0x8000_0000_0000_0000)),
        !a.is_nan() && !b.is_nan() && a.bits >= 0x8000_0000_0000_0000 && b.bits
            < 0x8000_0000_0000_0000 ==> !a.exceeds(b),
        !a.is_nan() && !b.is_nan() ==> (a.reaches(b) <==> !b.exceeds(a)),
{
}

} // verus!
