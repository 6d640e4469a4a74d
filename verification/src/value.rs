//! Axis magnitudes.
//!
//! A magnitude is carried as the bit pattern of an IEEE 754 binary32 number. The library
//! stores and copies magnitudes and compares their absolute values; it never does arithmetic
//! on them, so the bit pattern is all it needs.

use vstd::prelude::*;

verus! {

/// Bit pattern of the sign bit.
pub const SIGN_BIT: u32 = 0x8000_0000;

/// Bit pattern of positive infinity; every larger magnitude pattern is a NaN.
pub const INFINITY_BITS: u32 = 0x7f80_0000;

/// Bit pattern of one.
pub const ONE_BITS: u32 = 0x3f80_0000;

/// Bit pattern of one tenth rounded to binary32.
pub const TENTH_BITS: u32 = 0x3dcc_cccd;

/// The magnitude of one receiver, as an IEEE 754 binary32 bit pattern.
///
/// Equality on this type is equality of bit patterns.
#[derive(PartialEq, Eq, Structural, Clone, Copy, Debug, Hash)]
pub struct AxisValue {
    pub bits: u32,
}

impl AxisValue {
    /// Positive zero, in specifications.
    pub open spec fn spec_zero() -> AxisValue {
        AxisValue { bits: 0 }
    }

    /// One, in specifications.
    pub open spec fn spec_one() -> AxisValue {
        AxisValue { bits: ONE_BITS }
    }

    /// The bit pattern with the sign bit cleared: the pattern of the absolute value.
    pub open spec fn magnitude(self) -> int {
        if self.bits >= SIGN_BIT {
            self.bits - SIGN_BIT
        } else {
            self.bits as int
        }
    }

    /// Whether the sign bit is set.
    pub open spec fn is_negative(self) -> bool {
        self.bits >= SIGN_BIT
    }

    /// Whether the pattern encodes a NaN.
    pub open spec fn is_nan(self) -> bool {
        self.magnitude() > INFINITY_BITS
    }

    /// Whether the value compares equal to zero: positive or negative zero.
    pub open spec fn spec_is_zero(self) -> bool {
        self.magnitude() == 0
    }

    /// Whether the absolute value is at most `bound` as IEEE 754 compares them: never
    /// when either side is a NaN; against a negative bound only when both are zero.
    pub open spec fn spec_abs_le(self, bound: AxisValue) -> bool {
        &&& !self.is_nan()
        &&& !bound.is_nan()
        &&& if bound.is_negative() {
            self.magnitude() == 0 && bound.magnitude() == 0
        } else {
            self.magnitude() <= bound.bits
        }
    }

    /// Whether the absolute value is strictly below `bound` as IEEE 754 compares them:
    /// never when either side is a NaN, and never against a negative bound.
    pub open spec fn spec_abs_lt(self, bound: AxisValue) -> bool {
        &&& !self.is_nan()
        &&& !bound.is_nan()
        &&& !bound.is_negative()
        &&& self.magnitude() < bound.bits
    }

    /// Positive zero.
    #[verifier::when_used_as_spec(spec_zero)]
    pub fn zero() -> (value: AxisValue)
        ensures
            value == Self::spec_zero(),
    {
        AxisValue { bits: 0 }
    }

    /// One: the magnitude of a digital receiver that has no registered default.
    #[verifier::when_used_as_spec(spec_one)]
    pub fn one() -> (value: AxisValue)
        ensures
            value == Self::spec_one(),
    {
        AxisValue { bits: ONE_BITS }
    }

    /// Wraps a binary32 bit pattern.
    pub fn from_bits(bits: u32) -> (value: AxisValue)
        ensures
            value.bits == bits,
    {
        AxisValue { bits }
    }

    /// The binary32 bit pattern.
    pub fn to_bits(self) -> (bits: u32)
        ensures
            bits == self.bits,
    {
        self.bits
    }

    /// The absolute value: the same pattern with the sign bit cleared.
    pub fn abs(self) -> (value: AxisValue)
        ensures
            value.bits == self.magnitude(),
    {
        if self.bits >= SIGN_BIT {
            AxisValue { bits: self.bits - SIGN_BIT }
        } else {
            self
        }
    }

    /// Whether the value compares equal to zero.
    #[verifier::when_used_as_spec(spec_is_zero)]
    pub fn is_zero(self) -> (zero: bool)
        ensures
            zero == self.spec_is_zero(),
    {
        self.abs().bits == 0
    }

    /// Whether the absolute value is at most `bound`.
    #[verifier::when_used_as_spec(spec_abs_le)]
    pub fn abs_le(self, bound: AxisValue) -> (holds: bool)
        ensures
            holds == self.spec_abs_le(bound),
    {
        let own: u32 = self.abs().bits;
        let limit: u32 = bound.abs().bits;
        if own > INFINITY_BITS || limit > INFINITY_BITS {
            false
        } else if bound.bits >= SIGN_BIT {
            own == 0 && limit == 0
        } else {
            own <= bound.bits
        }
    }

    /// Whether the absolute value is strictly below `bound`.
    #[verifier::when_used_as_spec(spec_abs_lt)]
    pub fn abs_lt(self, bound: AxisValue) -> (holds: bool)
        ensures
            holds == self.spec_abs_lt(bound),
    {
        let own: u32 = self.abs().bits;
        let limit: u32 = bound.abs().bits;
        if own > INFINITY_BITS || limit > INFINITY_BITS {
            false
        } else if bound.bits >= SIGN_BIT {
            false
        } else {
            own < bound.bits
        }
    }
}

/// A pair of magnitudes: a position, a motion, or a pair of dead-zone bounds.
#[derive(PartialEq, Eq, Structural, Clone, Copy, Debug, Hash)]
pub struct Vec2 {
    pub x: AxisValue,
    pub y: AxisValue,
}

impl Vec2 {
    /// The pair with both components zero, in specifications.
    pub open spec fn spec_zero() -> Vec2 {
        Vec2 { x: AxisValue::spec_zero(), y: AxisValue::spec_zero() }
    }

    /// The pair with both components zero.
    #[verifier::when_used_as_spec(spec_zero)]
    pub fn zero() -> (pair: Vec2)
        ensures
            pair == Self::spec_zero(),
    {
        Vec2 { x: AxisValue::zero(), y: AxisValue::zero() }
    }

    /// The pair of the two components.
    pub fn new(x: AxisValue, y: AxisValue) -> (pair: Vec2)
        ensures
            pair.x == x,
            pair.y == y,
    {
        Vec2 { x, y }
    }
}

} // verus!
