//! Numbers as the score and the command line give them: the amplitude of
//! a note and the tempo of a piece. A `Number` holds the 64 bits of a value in
//! the IEEE 754 double-precision format, and reads them with integer
//! arithmetic alone.

use vstd::prelude::*;

verus! {

/// Two to the power of 52, the weight of the leading bit of a significand.
pub const HIDDEN_BIT: u64 = 0x10_0000_0000_0000;

/// The exponent field that marks infinities and values that are no number.
pub const EXPONENT_MAX: u64 = 2047;

/// A number in the IEEE 754 double-precision format, held as its 64 bits: from
/// the top a sign bit, 11 bits of exponent and 52 bits of fraction.
#[derive(Clone, Copy, Debug, PartialEq, Eq)]
pub struct Number {
    pub bits: u64,
}

impl Number {
    /// Whether the sign bit is set.
    pub open spec fn negative(self) -> bool {
        self.bits >= 0x8000_0000_0000_0000
    }

    /// The exponent field, from 0 to 2047.
    pub open spec fn exponent(self) -> nat {
        (self.bits as nat / HIDDEN_BIT as nat) % 2048
    }

    /// The fraction field, below two to the power of 52.
    pub open spec fn fraction(self) -> nat {
        self.bits as nat % HIDDEN_BIT as nat
    }

    /// Whether the value is a number, neither an infinity nor a value that
    /// stands for none.
    pub open spec fn finite(self) -> bool {
        self.exponent() < EXPONENT_MAX
    }

    /// Whether the value is no number at all.
    pub open spec fn nan(self) -> bool {
        self.exponent() == EXPONENT_MAX && self.fraction() != 0
    }

    /// Whether the value is above zero: a positive number or the positive
    /// infinity.
    pub open spec fn positive(self) -> bool {
        &&& !self.negative()
        &&& !self.nan()
        &&& self.exponent() > 0 || self.fraction() > 0
    }

    /// Whether the value is zero, of either sign.
    pub open spec fn zero(self) -> bool {
        self.exponent() == 0 && self.fraction() == 0
    }

    /// Whether the value is a finite number that is not below zero: what an
    /// amplitude may be.
    pub open spec fn finite_non_negative(self) -> bool {
        self.finite() && (!self.negative() || self.zero())
    }

    /// Whether the value is a finite number above zero: what a tempo may be.
    pub open spec fn finite_positive(self) -> bool {
        self.finite() && self.positive()
    }

    /// The significand of a finite value, as an integer: the fraction under the
    /// hidden leading bit, which only the smallest exponent field leaves out.
    pub open spec fn significand(self) -> nat {
        if self.exponent() == 0 {
            self.fraction()
        } else {
            HIDDEN_BIT as nat + self.fraction()
        }
    }

    /// The power of two that scales the significand of a finite value: its
    /// magnitude is `significand()` times two to the power of `scale()`.
    pub open spec fn scale(self) -> int {
        if self.exponent() == 0 {
            -1074
        } else {
            self.exponent() - 1075
        }
    }

    /// The number with these 64 bits.
    pub fn from_bits(bits: u64) -> (r: Self)
        ensures
            r.bits == bits,
    {
        Self { bits }
    }

    /// The 64 bits of this number.
    pub fn to_bits(&self) -> (bits: u64)
        ensures
            bits == self.bits,
    {
        self.bits
    }

    /// Whether the sign bit is set.
    pub fn is_negative(&self) -> (b: bool)
        ensures
            b == self.negative(),
    {
        self.bits >= 0x8000_0000_0000_0000
    }

    /// The exponent field.
    pub fn exponent_field(&self) -> (e: u64)
        ensures
            e == self.exponent(),
            e <= EXPONENT_MAX,
    {
        (self.bits / HIDDEN_BIT) % 2048
    }

    /// The fraction field.
    pub fn fraction_field(&self) -> (f: u64)
        ensures
            f == self.fraction(),
            f < HIDDEN_BIT,
    {
        self.bits % HIDDEN_BIT
    }

    /// Whether the value is a finite number that is not below zero.
    pub fn is_finite_non_negative(&self) -> (b: bool)
        ensures
            b == self.finite_non_negative(),
    {
        let exponent = self.exponent_field();
        exponent < EXPONENT_MAX && (!self.is_negative() || (exponent == 0
            && self.fraction_field() == 0))
    }

    /// Whether the value is a finite number above zero.
    pub fn is_finite_positive(&self) -> (b: bool)
        ensures
            b == self.finite_positive(),
    {
        let exponent = self.exponent_field();
        exponent < EXPONENT_MAX && !self.is_negative() && (exponent > 0 || self.fraction_field()
            > 0)
    }
}

} // verus!
