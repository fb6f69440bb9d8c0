//! Numbers as the library carries them.
//!
//! The library stores, copies and compares the simulation's numbers; it never
//! computes with them. A number is therefore held by the bit pattern of its
//! IEEE 754 encoding, which identifies it exactly.
use vstd::prelude::*;

verus! {

/// Bit pattern with only the sign bit of a double-precision number set.
pub const SIGN_BIT: u64 = 0x8000_0000_0000_0000;

/// Bit pattern of positive infinity in double precision.
pub const INFINITY_BITS: u64 = 0x7FF0_0000_0000_0000;

/// Bit pattern of one half in single precision.
pub const HALF_BITS: u32 = 0x3F00_0000;

/// A double-precision number, held by the bit pattern of its encoding.
#[derive(Clone, Copy, PartialEq, Eq, Structural, Debug)]
pub struct Real {
    pub bits: u64,
}

impl Real {
    /// The encoding without its sign bit.
    pub open spec fn magnitude(self) -> u64 {
        if self.bits >= SIGN_BIT {
            (self.bits - SIGN_BIT) as u64
        } else {
            self.bits
        }
    }

    /// The sign bit is set.
    pub open spec fn is_negative(self) -> bool {
        self.bits >= SIGN_BIT
    }

    /// The encoding is not a number.
    pub open spec fn spec_is_nan(self) -> bool {
        self.magnitude() > INFINITY_BITS
    }

    /// The number is zero, of either sign.
    pub open spec fn spec_is_zero(self) -> bool {
        self.magnitude() == 0
    }

    /// Numeric `self < other`. Zeros of both signs are equal, and nothing is
    /// less than, or has less than it, what is not a number.
    pub open spec fn spec_less_than(self, other: Real) -> bool {
        if self.is_nan() || other.is_nan() {
            false
        } else if self.is_zero() && other.is_zero() {
            false
        } else if self.is_negative() != other.is_negative() {
            self.is_negative()
        } else if self.is_negative() {
            self.magnitude() > other.magnitude()
        } else {
            self.magnitude() < other.magnitude()
        }
    }

    /// The number with the given encoding.
    pub fn from_bits(bits: u64) -> (r: Real)
        ensures
            r.bits == bits,
    {
        Real { bits }
    }

    /// The encoding of the number.
    pub fn to_bits(self) -> (bits: u64)
        ensures
            bits == self.bits,
    {
        self.bits
    }

    /// Positive zero.
    pub fn zero() -> (r: Real)
        ensures
            r.bits == 0,
            r.is_zero(),
    {
        Real { bits: 0 }
    }

    /// Whether the encoding is not a number.
    #[verifier::when_used_as_spec(spec_is_nan)]
    pub fn is_nan(self) -> (r: bool)
        ensures
            r == self.spec_is_nan(),
    {
        let magnitude: u64 = if self.bits >= SIGN_BIT {
            self.bits - SIGN_BIT
        } else {
            self.bits
        };
        magnitude > INFINITY_BITS
    }

    /// Whether the number is zero, of either sign.
    #[verifier::when_used_as_spec(spec_is_zero)]
    pub fn is_zero(self) -> (r: bool)
        ensures
            r == self.spec_is_zero(),
    {
        self.bits == 0 || self.bits == SIGN_BIT
    }

    /// Whether the number is numerically less than `other`.
    #[verifier::when_used_as_spec(spec_less_than)]
    pub fn less_than(self, other: Real) -> (r: bool)
        ensures
            r == self.spec_less_than(other),
    {
        let negative = self.bits >= SIGN_BIT;
        let other_negative = other.bits >= SIGN_BIT;
        let magnitude: u64 = if negative {
            self.bits - SIGN_BIT
        } else {
            self.bits
        };
        let other_magnitude: u64 = if other_negative {
            other.bits - SIGN_BIT
        } else {
            other.bits
        };
        if magnitude > INFINITY_BITS || other_magnitude > INFINITY_BITS {
            false
        } else if magnitude == 0 && other_magnitude == 0 {
            false
        } else if negative != other_negative {
            negative
        } else if negative {
            magnitude > other_magnitude
        } else {
            magnitude < other_magnitude
        }
    }
}

/// A vector of two numbers.
#[derive(Clone, Copy, PartialEq, Eq, Structural, Debug)]
pub struct Vector2 {
    pub x: Real,
    pub y: Real,
}

impl Vector2 {
    /// The vector whose two components are positive zero.
    pub open spec fn spec_zero() -> Vector2 {
        Vector2 { x: Real { bits: 0 }, y: Real { bits: 0 } }
    }

    /// The vector with the given components.
    pub fn new(x: Real, y: Real) -> (v: Vector2)
        ensures
            v == (Vector2 { x, y }),
    {
        Vector2 { x, y }
    }

    /// The zero vector.
    #[verifier::when_used_as_spec(spec_zero)]
    pub fn zero() -> (v: Vector2)
        ensures
            v == Vector2::spec_zero(),
    {
        Vector2 { x: Real { bits: 0 }, y: Real { bits: 0 } }
    }
}

/// A colour of four single-precision channels, each held by the bit pattern
/// of its encoding.
#[derive(Clone, Copy, PartialEq, Eq, Structural, Debug)]
pub struct Color {
    pub red: u32,
    pub green: u32,
    pub blue: u32,
    pub alpha: u32,
}

} // verus!
