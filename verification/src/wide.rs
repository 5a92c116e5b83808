//! Double precision numbers held by their IEEE 754 bit pattern.

use vstd::prelude::*;

verus! {

/// The sign bit of a double precision number.
pub const WIDE_SIGN: u64 = 0x8000_0000_0000_0000;

/// The bit pattern of positive infinity: a larger magnitude is not a number.
pub const WIDE_INFINITY: u64 = 0x7ff0_0000_0000_0000;

/// A double precision number by its bits.
#[derive(Clone, Copy, Debug, PartialEq, Eq, Structural)]
pub struct Wide {
    pub bits: u64,
}

impl Wide {
    /// The magnitude bits: all but the sign.
    pub open spec fn magnitude(self) -> int {
        if self.bits < WIDE_SIGN {
            self.bits as int
        } else {
            self.bits - WIDE_SIGN
        }
    }

    /// Whether the pattern is not a number.
    pub open spec fn nan(self) -> bool {
        self.magnitude() > WIDE_INFINITY
    }

    /// The place of a number in the order of all numbers; the two zeros share one.
    pub open spec fn rank(self) -> int {
        if self.bits < WIDE_SIGN {
            self.magnitude()
        } else {
            -self.magnitude()
        }
    }

    /// `self > other` on numbers; false where either is not a number.
    pub open spec fn above(self, other: Wide) -> bool {
        !self.nan() && !other.nan() && self.rank() > other.rank()
    }

    /// Infinity and what is not a number have no finite value.
    pub open spec fn finite(self) -> bool {
        self.magnitude() < WIDE_INFINITY
    }

    /// Whether the number is one of the two zeros.
    pub open spec fn zero(self) -> bool {
        self.magnitude() == 0
    }

    fn size(self) -> (r: u64)
        ensures
            r == self.magnitude(),
    {
        if self.bits < WIDE_SIGN {
            self.bits
        } else {
            self.bits - WIDE_SIGN
        }
    }

    /// Whether the number is finite.
    pub fn is_finite(self) -> (r: bool)
        ensures
            r == self.finite(),
    {
        self.size() < WIDE_INFINITY
    }

    /// Whether the number is one of the two zeros.
    pub fn is_zero(self) -> (r: bool)
        ensures
            r == self.zero(),
    {
        self.size() == 0
    }

    fn order_key(self) -> (r: i128)
        ensures
            r == self.rank(),
    {
        if self.bits < WIDE_SIGN {
            self.bits as i128
        } else {
            0 - (self.bits - WIDE_SIGN) as i128
        }
    }

    /// `self > other`.
    pub fn gt(self, other: Wide) -> (r: bool)
        ensures
            r == self.above(other),
    {
        self.size() <= WIDE_INFINITY && other.size() <= WIDE_INFINITY && self.order_key()
            > other.order_key()
    }
}

} // verus!
