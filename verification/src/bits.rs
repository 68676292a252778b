//! IEEE 754 numbers held by their bit patterns.
//!
//! The document stores, moves and compares numbers and does no arithmetic on
//! them, so a number is the integer that encodes it. Comparison is the IEEE
//! one: a not-a-number is unordered, and the two zeros are equal.

use vstd::prelude::*;

verus! {

/// The sign bit of a double.
pub const F64_SIGN: u64 = 0x8000_0000_0000_0000;

/// The encoding of positive infinity; every magnitude above it is a
/// not-a-number.
pub const F64_INFINITY: u64 = 0x7ff0_0000_0000_0000;

/// A single-precision number, by its bits.
#[derive(Clone, Copy, Debug, PartialEq, Eq, Hash, Structural)]
pub struct F32 {
    pub bits: u32,
}

impl F32 {
    pub fn from_bits(bits: u32) -> (r: F32)
        ensures
            r.bits == bits,
    {
        F32 { bits }
    }
}

/// A double-precision number, by its bits.
#[derive(Clone, Copy, Debug, PartialEq, Eq, Hash, Structural)]
pub struct F64 {
    pub bits: u64,
}

impl F64 {
    /// The encoding without its sign.
    pub open spec fn magnitude(self) -> int {
        if self.bits >= F64_SIGN {
            self.bits - F64_SIGN
        } else {
            self.bits as int
        }
    }

    pub open spec fn nan(self) -> bool {
        self.magnitude() > F64_INFINITY
    }

    pub open spec fn finite(self) -> bool {
        self.magnitude() < F64_INFINITY
    }

    /// The place of an ordered number on the number line: encodings of one sign
    /// grow with their magnitude, and both zeros stand at 0.
    pub open spec fn place(self) -> int {
        if self.bits >= F64_SIGN {
            -self.magnitude()
        } else {
            self.magnitude()
        }
    }

    /// `self < other` as IEEE 754 has it.
    pub open spec fn below(self, other: F64) -> bool {
        !self.nan() && !other.nan() && self.place() < other.place()
    }

    /// `self <= other` as IEEE 754 has it.
    pub open spec fn at_most(self, other: F64) -> bool {
        !self.nan() && !other.nan() && self.place() <= other.place()
    }

    /// `self == other` as IEEE 754 has it.
    pub open spec fn equals(self, other: F64) -> bool {
        !self.nan() && !other.nan() && self.place() == other.place()
    }

    pub fn from_bits(bits: u64) -> (r: F64)
        ensures
            r.bits == bits,
    {
        F64 { bits }
    }

    pub fn is_nan(&self) -> (r: bool)
        ensures
            r == self.nan(),
    {
        if self.bits >= F64_SIGN {
            self.bits - F64_SIGN > F64_INFINITY
        } else {
            self.bits > F64_INFINITY
        }
    }

    pub fn is_finite(&self) -> (r: bool)
        ensures
            r == self.finite(),
    {
        if self.bits >= F64_SIGN {
            self.bits - F64_SIGN < F64_INFINITY
        } else {
            self.bits < F64_INFINITY
        }
    }

    pub fn less(&self, other: &F64) -> (r: bool)
        ensures
            r == self.below(*other),
    {
        if self.is_nan() || other.is_nan() {
            return false;
        }
        if self.bits >= F64_SIGN {
            if other.bits >= F64_SIGN {
                other.bits < self.bits
            } else {
                self.bits > F64_SIGN || other.bits > 0
            }
        } else {
            other.bits < F64_SIGN && self.bits < other.bits
        }
    }

    pub fn less_or_equal(&self, other: &F64) -> (r: bool)
        ensures
            r == self.at_most(*other),
    {
        !self.is_nan() && !other.is_nan() && !other.less(self)
    }

    pub fn same_number(&self, other: &F64) -> (r: bool)
        ensures
            r == self.equals(*other),
    {
        self.less_or_equal(other) && other.less_or_equal(self)
    }
}

/// On numbers the comparison is a total preorder: of two, one is at most the
/// other, and both only where they are equal.
pub proof fn law_numbers_are_totally_ordered(a: F64, b: F64, c: F64)
    requires
        !a.nan(),
        !b.nan(),
        !c.nan(),
    ensures
        a.at_most(b) || b.at_most(a),
        a.at_most(b) && b.at_most(a) <==> a.equals(b),
        a.below(b) <==> a.at_most(b) && !a.equals(b),
        a.at_most(b) && b.at_most(c) ==> a.at_most(c),
{
}

/// The comparison is that of the numbers that the bits stand for. Numbers without
/// the sign bit grow with their bits up to infinity, those with it fall, one with
/// it is below one without it, and the two zeros are one number.
pub proof fn law_comparison_follows_the_bits(a: F64, b: F64)
    ensures
        a.bits < b.bits <= 0x7ff0_0000_0000_0000 ==> a.below(b) && a.at_most(b) && !b.at_most(a)
            && !a.equals(b),
        0x8000_0000_0000_0000 <= a.bits < b.bits <= 0xfff0_0000_0000_0000 ==> b.below(a) && b.at_most(a)
            && !a.at_most(b) && !a.equals(b),
        0x8000_0000_0000_0000 < a.bits <= 0xfff0_0000_0000_0000 && b.bits <= 0x7ff0_0000_0000_0000
            ==> a.below(b) && a.at_most(b) && !b.at_most(a) && !a.equals(b),
        a.bits == 0x8000_0000_0000_0000 && b.bits == 0 ==> a.equals(b) && b.equals(a) && !a.below(b)
            && !b.below(a),
        a.bits == b.bits && !a.nan() ==> a.equals(b) && a.at_most(b) && !a.below(b),
        a.nan() <==> 0x7ff0_0000_0000_0000 < a.bits < 0x8000_0000_0000_0000 || a.bits
            > 0xfff0_0000_0000_0000,
        a.finite() <==> a.bits < 0x7ff0_0000_0000_0000 || 0x8000_0000_0000_0000 <= a.bits
            < 0xfff0_0000_0000_0000,
{
}

/// A not-a-number compares with nothing, itself included.
pub proof fn law_nan_is_unordered(a: F64, b: F64)
    requires
        a.nan(),
    ensures
        !a.equals(a),
        !a.below(b) && !b.below(a) && !a.at_most(b) && !b.at_most(a) && !a.equals(b),
{
}

} // verus!
