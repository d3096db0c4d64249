//! Single-precision numbers, held by their bit patterns.
//!
//! An embedding's components and a similarity are IEEE 754 binary32 values.
//! Here each is the 32 bits that encode it: a sign bit, eight exponent bits,
//! twenty-three fraction bits. The comparisons below are those of the
//! encoded numbers, stated over integers.

use vstd::prelude::*;

verus! {

/// The sign bit of the encoding, as a number.
pub const SIGN_BIT: u32 = 0x8000_0000;

/// The bits of positive infinity; every greater magnitude is not a number.
pub const INFINITY_BITS: u32 = 0x7f80_0000;

/// A single-precision number, by its bits. Two values are equal under `==`
/// where their bits are, which tells the two zeros apart; the order below
/// does not.
#[derive(Clone, Copy, Debug, PartialEq, Eq)]
pub struct Single {
    pub bits: u32,
}

impl Single {
    /// The bits without the sign.
    pub open spec fn magnitude(self) -> int {
        self.bits as int % SIGN_BIT as int
    }

    /// Whether the sign bit is set.
    pub open spec fn negative(self) -> bool {
        self.bits >= SIGN_BIT
    }

    /// Whether the bits encode no number.
    pub open spec fn nan(self) -> bool {
        self.magnitude() > INFINITY_BITS
    }

    /// An integer that orders the numbers as they are ordered: the magnitude,
    /// negated under a set sign bit. Both zeros have the key zero.
    pub open spec fn key(self) -> int {
        if self.negative() {
            -self.magnitude()
        } else {
            self.magnitude()
        }
    }

    /// Whether this number is strictly less than `other`. Nothing is less
    /// than, or greater than, what is not a number.
    pub open spec fn lt(self, other: Single) -> bool {
        !self.nan() && !other.nan() && self.key() < other.key()
    }

    /// The number that `bits` encode.
    pub fn from_bits(bits: u32) -> (number: Single)
        ensures
            number.bits == bits,
    {
        Single { bits }
    }

    /// The bits that encode the number.
    pub fn to_bits(&self) -> (bits: u32)
        ensures
            bits == self.bits,
    {
        self.bits
    }

    /// Whether the bits encode no number.
    pub fn is_nan(&self) -> (nan: bool)
        ensures
            nan == self.nan(),
    {
        self.bits % SIGN_BIT > INFINITY_BITS
    }

    /// Whether this number is strictly less than `other`.
    pub fn less_than(&self, other: &Single) -> (less: bool)
        ensures
            less == self.lt(*other),
    {
        if self.is_nan() || other.is_nan() {
            false
        } else {
            let mine: i64 = if self.bits >= SIGN_BIT {
                -((self.bits % SIGN_BIT) as i64)
            } else {
                self.bits as i64
            };
            let theirs: i64 = if other.bits >= SIGN_BIT {
                -((other.bits % SIGN_BIT) as i64)
            } else {
                other.bits as i64
            };
            mine < theirs
        }
    }

    /// Whether this number is strictly greater than `other`.
    pub fn greater_than(&self, other: &Single) -> (greater: bool)
        ensures
            greater == other.lt(*self),
    {
        other.less_than(self)
    }
}

} // verus!
