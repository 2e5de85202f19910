//! Scalars: IEEE 754 binary64 values, held by their bit patterns.
//!
//! This crate never adds or multiplies scalars. It compares them, negates
//! them and cuts them off to whole numbers, and all three are plain reasoning
//! on the sixty-four bits: the top bit is the sign, the rest is a magnitude
//! that grows with the absolute value, and a magnitude above that of infinity
//! is not a number.

use vstd::prelude::*;
use std::cmp::Ordering;
use vstd::arithmetic::power2::{lemma2_to64_rest, pow2};
use vstd::bits::lemma_u64_shr_is_div;

verus! {

/// The sign bit of a binary64 value.
pub const SIGN_BIT: u64 = 0x8000_0000_0000_0000;

/// The bits of positive infinity: every larger magnitude is not a number.
pub const INFINITY_BITS: u64 = 0x7ff0_0000_0000_0000;

/// The bits of the largest finite value.
pub const LARGEST_BITS: u64 = 0x7fef_ffff_ffff_ffff;

/// Two to the power of fifty-two: the weight of the lowest exponent bit, and
/// of the leading one that stands before the fraction of a normal value.
pub const HIDDEN_BIT: u64 = 0x10_0000_0000_0000;

/// A binary64 value.
#[derive(Clone, Copy, Debug)]
pub struct Scalar {
    pub bits: u64,
}

impl Scalar {
    /// The bits without the sign.
    pub open spec fn magnitude(self) -> int {
        if self.bits >= SIGN_BIT {
            self.bits - SIGN_BIT
        } else {
            self.bits as int
        }
    }

    /// The sign bit is set. This holds of minus zero too.
    pub open spec fn sign_negative(self) -> bool {
        self.bits >= SIGN_BIT
    }

    /// The value is not a number.
    pub open spec fn nan(self) -> bool {
        self.magnitude() > INFINITY_BITS
    }

    /// The place of the value among all values that are numbers: smaller
    /// values have smaller ranks, and the two zeros share rank zero.
    pub open spec fn rank(self) -> int {
        if self.sign_negative() {
            -self.magnitude()
        } else {
            self.magnitude()
        }
    }

    /// `self < other`, as binary64 values compare.
    pub open spec fn less(self, other: Scalar) -> bool {
        !self.nan() && !other.nan() && self.rank() < other.rank()
    }

    /// `self == other`, as binary64 values compare: the two zeros are equal,
    /// and what is not a number equals nothing.
    pub open spec fn same(self, other: Scalar) -> bool {
        !self.nan() && !other.nan() && self.rank() == other.rank()
    }

    /// `self <= other`, as binary64 values compare.
    pub open spec fn at_most(self, other: Scalar) -> bool {
        !self.nan() && !other.nan() && self.rank() <= other.rank()
    }

    /// The exponent field.
    pub open spec fn exponent(self) -> int {
        self.magnitude() / (HIDDEN_BIT as int)
    }

    /// The fraction field.
    pub open spec fn fraction(self) -> int {
        self.magnitude() % (HIDDEN_BIT as int)
    }

    /// The whole part of the value, kept within the range of a byte: zero
    /// for what is not a number, for what is negative and for what is below
    /// one; 255 for 256 and above; else the value with what follows the
    /// point cut off.
    ///
    /// A normal value is its fraction, with a one before it, times two to the
    /// power of its exponent field less 1075.
    pub open spec fn clamped_byte(self) -> int {
        if self.nan() || self.sign_negative() || self.exponent() < 1023 {
            0
        } else if self.exponent() >= 1031 {
            255
        } else {
            (HIDDEN_BIT + self.fraction()) / (pow2((1075 - self.exponent()) as nat) as int)
        }
    }

    /// The value with the sign bit flipped.
    pub open spec fn negated(self) -> Scalar {
        if self.bits >= SIGN_BIT {
            Scalar { bits: (self.bits - SIGN_BIT) as u64 }
        } else {
            Scalar { bits: (self.bits + SIGN_BIT) as u64 }
        }
    }

    /// How two scalars compare, if they do.
    pub open spec fn compared(self, other: Scalar) -> Option<Ordering> {
        if self.nan() || other.nan() {
            None
        } else if self.rank() < other.rank() {
            Some(Ordering::Less)
        } else if self.rank() == other.rank() {
            Some(Ordering::Equal)
        } else {
            Some(Ordering::Greater)
        }
    }

    pub fn from_bits(bits: u64) -> (scalar: Self)
        ensures
            scalar.bits == bits,
    {
        Self { bits }
    }

    pub fn to_bits(self) -> (bits: u64)
        ensures
            bits == self.bits,
    {
        self.bits
    }

    /// Positive zero.
    pub fn zero() -> (scalar: Self)
        ensures
            scalar.bits == 0,
    {
        Self { bits: 0 }
    }

    /// The largest finite value.
    pub fn largest() -> (scalar: Self)
        ensures
            scalar.bits == LARGEST_BITS,
    {
        Self { bits: LARGEST_BITS }
    }

    /// The smallest finite value: the largest one, negated.
    pub fn smallest() -> (scalar: Self)
        ensures
            scalar == Scalar::largest_spec().negated(),
    {
        Self { bits: 0xffef_ffff_ffff_ffff }
    }

    pub open spec fn largest_spec() -> Scalar {
        Scalar { bits: LARGEST_BITS }
    }

    pub fn is_nan(self) -> (nan: bool)
        ensures
            nan == self.nan(),
    {
        self.abs_bits() > INFINITY_BITS
    }

    /// The bits without the sign.
    pub fn abs_bits(self) -> (magnitude: u64)
        ensures
            magnitude == self.magnitude(),
    {
        if self.bits >= SIGN_BIT {
            self.bits - SIGN_BIT
        } else {
            self.bits
        }
    }

    pub fn is_sign_negative(self) -> (negative: bool)
        ensures
            negative == self.sign_negative(),
    {
        self.bits >= SIGN_BIT
    }

    /// The value as a byte, as a cast of a binary64 value to an unsigned
    /// 8-bit integer gives it: cut off towards zero, and kept within range.
    pub fn to_u8(self) -> (byte: u8)
        ensures
            byte == self.clamped_byte(),
    {
        if self.is_nan() || self.is_sign_negative() {
            return 0;
        }
        let bits = self.bits;
        let exponent: u64 = bits >> 52;
        let fraction: u64 = bits & 0xf_ffff_ffff_ffff;
        proof {
            lemma2_to64_rest();
            lemma_u64_shr_is_div(bits, 52);
            assert(bits & 0xf_ffff_ffff_ffff == bits % 0x10_0000_0000_0000) by (bit_vector);
        }
        if exponent < 1023 {
            0
        } else if exponent >= 1031 {
            255
        } else {
            let mantissa: u64 = fraction | HIDDEN_BIT;
            let shift: u64 = 1075 - exponent;
            proof {
                assert(fraction | 0x10_0000_0000_0000 == fraction + 0x10_0000_0000_0000) by (bit_vector)
                    requires
                        fraction < 0x10_0000_0000_0000,
                ;
                lemma_u64_shr_is_div(mantissa, shift);
                assert(mantissa >> shift < 256) by (bit_vector)
                    requires
                        mantissa < 0x20_0000_0000_0000,
                        45 <= shift <= 52,
                ;
            }
            (mantissa >> shift) as u8
        }
    }

    /// Flips the sign, as unary minus does on a binary64 value.
    pub fn neg(self) -> (negated: Self)
        ensures
            negated == self.negated(),
    {
        if self.bits >= SIGN_BIT {
            Self { bits: self.bits - SIGN_BIT }
        } else {
            Self { bits: self.bits + SIGN_BIT }
        }
    }
}

impl PartialEq for Scalar {
    fn eq(&self, other: &Self) -> (equal: bool) {
        if self.is_nan() || other.is_nan() {
            false
        } else {
            let a = self.abs_bits();
            let b = other.abs_bits();
            a == b && (a == 0 || self.is_sign_negative() == other.is_sign_negative())
        }
    }
}

impl vstd::std_specs::cmp::PartialEqSpecImpl for Scalar {
    open spec fn obeys_eq_spec() -> bool {
        true
    }

    open spec fn eq_spec(&self, other: &Scalar) -> bool {
        self.same(*other)
    }
}

impl PartialOrd for Scalar {
    fn partial_cmp(&self, other: &Self) -> (order: Option<Ordering>) {
        if self.is_nan() || other.is_nan() {
            return None;
        }
        let a = self.abs_bits();
        let b = other.abs_bits();
        let order = if self.is_sign_negative() {
            if other.is_sign_negative() {
                if a > b {
                    Ordering::Less
                } else if a == b {
                    Ordering::Equal
                } else {
                    Ordering::Greater
                }
            } else if a == 0 && b == 0 {
                Ordering::Equal
            } else {
                Ordering::Less
            }
        } else if other.is_sign_negative() {
            if a == 0 && b == 0 {
                Ordering::Equal
            } else {
                Ordering::Greater
            }
        } else if a < b {
            Ordering::Less
        } else if a == b {
            Ordering::Equal
        } else {
            Ordering::Greater
        };
        Some(order)
    }
}

impl vstd::std_specs::cmp::PartialOrdSpecImpl for Scalar {
    open spec fn obeys_partial_cmp_spec() -> bool {
        true
    }

    open spec fn partial_cmp_spec(&self, other: &Scalar) -> Option<Ordering> {
        self.compared(*other)
    }
}

} // verus!
