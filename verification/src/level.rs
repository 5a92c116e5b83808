//! Levels: single precision numbers held by their IEEE 754 bit pattern and
//! ordered as the standard orders them.

use vstd::prelude::*;

verus! {

/// The sign bit of a single precision number.
pub const SIGN_BIT: u32 = 0x8000_0000;

/// The bit pattern of positive infinity: a larger magnitude is not a number.
pub const INFINITY_BITS: u32 = 0x7f80_0000;

/// The bit pattern of `-90.0`, the level that stands for silence.
pub const SILENCE_BITS: u32 = 0xc2b4_0000;

/// The bit pattern of `-70.0`, the level above which a source counts as heard.
pub const HEARD_BITS: u32 = 0xc28c_0000;

/// A single precision number (a level in dB, a sample, a score) by its bits.
#[derive(Clone, Copy, Debug, PartialEq, Eq, Structural)]
pub struct Level {
    pub bits: u32,
}

impl Level {
    /// The magnitude bits: all but the sign.
    pub open spec fn magnitude(self) -> int {
        if self.bits < SIGN_BIT {
            self.bits as int
        } else {
            self.bits - SIGN_BIT
        }
    }

    /// Whether the pattern is not a number.
    pub open spec fn nan(self) -> bool {
        self.magnitude() > INFINITY_BITS
    }

    /// The place of a number in the order of all numbers; the two zeros share one.
    pub open spec fn rank(self) -> int {
        if self.bits < SIGN_BIT {
            self.magnitude()
        } else {
            -self.magnitude()
        }
    }

    /// `self > other` on numbers; false where either is not a number.
    pub open spec fn above(self, other: Level) -> bool {
        !self.nan() && !other.nan() && self.rank() > other.rank()
    }

    /// `self >= other` on numbers; false where either is not a number.
    pub open spec fn at_least(self, other: Level) -> bool {
        !self.nan() && !other.nan() && self.rank() >= other.rank()
    }

    /// `self == other` on numbers: the zeros are equal, nothing equals what is not a number.
    pub open spec fn same(self, other: Level) -> bool {
        !self.nan() && !other.nan() && self.rank() == other.rank()
    }

    /// The larger of two, ignoring what is not a number.
    pub open spec fn larger(self, other: Level) -> Level {
        if self.nan() {
            other
        } else if other.above(self) {
            other
        } else {
            self
        }
    }

    /// The smaller of two, ignoring what is not a number.
    pub open spec fn smaller(self, other: Level) -> Level {
        if self.nan() {
            other
        } else if self.above(other) {
            other
        } else {
            self
        }
    }

    /// Infinity and what is not a number have no finite value.
    pub open spec fn finite(self) -> bool {
        self.magnitude() < INFINITY_BITS
    }

    /// The level without its sign.
    pub open spec fn absolute(self) -> Level {
        Level { bits: self.magnitude() as u32 }
    }

    /// The level held between two others.
    pub open spec fn clamped(self, lo: Level, hi: Level) -> Level {
        if lo.above(self) {
            lo
        } else if self.above(hi) {
            hi
        } else {
            self
        }
    }

    /// The level of the given bits.
    pub fn from_bits(bits: u32) -> (r: Level)
        ensures
            r.bits == bits,
    {
        Level { bits }
    }

    /// The level that stands for silence, `-90.0`.
    pub fn silence() -> (r: Level)
        ensures
            r.bits == SILENCE_BITS,
    {
        Level { bits: SILENCE_BITS }
    }

    /// Whether the pattern is not a number.
    pub fn is_nan(self) -> (r: bool)
        ensures
            r == self.nan(),
    {
        if self.bits < SIGN_BIT {
            self.bits > INFINITY_BITS
        } else {
            self.bits - SIGN_BIT > INFINITY_BITS
        }
    }

    /// Whether the level is a finite number.
    pub fn is_finite(self) -> (r: bool)
        ensures
            r == self.finite(),
    {
        if self.bits < SIGN_BIT {
            self.bits < INFINITY_BITS
        } else {
            self.bits - SIGN_BIT < INFINITY_BITS
        }
    }

    fn order_key(self) -> (r: i64)
        ensures
            r == self.rank(),
    {
        if self.bits < SIGN_BIT {
            self.bits as i64
        } else {
            0 - (self.bits - SIGN_BIT) as i64
        }
    }

    /// `self > other`.
    pub fn gt(self, other: Level) -> (r: bool)
        ensures
            r == self.above(other),
    {
        !self.is_nan() && !other.is_nan() && self.order_key() > other.order_key()
    }

    /// `self >= other`.
    pub fn ge(self, other: Level) -> (r: bool)
        ensures
            r == self.at_least(other),
    {
        !self.is_nan() && !other.is_nan() && self.order_key() >= other.order_key()
    }

    /// `self == other`.
    pub fn equals(self, other: Level) -> (r: bool)
        ensures
            r == self.same(other),
    {
        !self.is_nan() && !other.is_nan() && self.order_key() == other.order_key()
    }

    /// The larger of two levels.
    pub fn max(self, other: Level) -> (r: Level)
        ensures
            r == self.larger(other),
    {
        if self.is_nan() {
            other
        } else if other.gt(self) {
            other
        } else {
            self
        }
    }

    /// The level without its sign.
    pub fn abs(self) -> (r: Level)
        ensures
            r == self.absolute(),
    {
        if self.bits < SIGN_BIT {
            self
        } else {
            Level { bits: self.bits - SIGN_BIT }
        }
    }

    /// The level held between two others.
    pub fn clamp(self, lo: Level, hi: Level) -> (r: Level)
        requires
            hi.at_least(lo),
        ensures
            r == self.clamped(lo, hi),
    {
        if lo.gt(self) {
            lo
        } else if self.gt(hi) {
            hi
        } else {
            self
        }
    }

    /// The smaller of two levels.
    pub fn min(self, other: Level) -> (r: Level)
        ensures
            r == self.smaller(other),
    {
        if self.is_nan() {
            other
        } else if self.gt(other) {
            other
        } else {
            self
        }
    }
}

/// A number held between two others lies between them.
pub proof fn law_clamped_lies_between(x: Level, lo: Level, hi: Level)
    requires
        hi.at_least(lo),
        !x.nan(),
    ensures
        x.clamped(lo, hi).at_least(lo),
        hi.at_least(x.clamped(lo, hi)),
        x.at_least(lo) && hi.at_least(x) ==> x.clamped(lo, hi) == x,
{
}

/// `max` hands back one of its arguments, never below either of them.
pub proof fn law_max_is_an_upper_bound(a: Level, b: Level)
    ensures
        a.larger(b) == a || a.larger(b) == b,
        !a.above(a.larger(b)),
        !b.above(a.larger(b)),
        !a.nan() || !b.nan() ==> !a.larger(b).nan(),
{
}

/// `min` hands back one of its arguments, never above either of them.
pub proof fn law_min_is_a_lower_bound(a: Level, b: Level)
    ensures
        a.smaller(b) == a || a.smaller(b) == b,
        !a.smaller(b).above(a),
        !a.smaller(b).above(b),
        !a.nan() || !b.nan() ==> !a.smaller(b).nan(),
{
}

} // verus!
