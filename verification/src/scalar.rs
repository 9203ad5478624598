//! Scalars: IEEE 754 binary floating-point numbers, held as bit patterns.
use vstd::prelude::*;

verus! {

/// A number of a binary floating-point format.
///
/// This crate never computes with a scalar. It carries scalars between the
/// caller and the arithmetic, knows the bit patterns of three constants, and
/// asks one question of a scalar: whether it is "not a number".
pub trait Scalar: Copy {
    /// Whether the value is a NaN of its format.
    spec fn nan(self) -> bool;

    /// The number `0`, with a positive sign.
    spec fn zero_value() -> Self;

    /// The number `1`.
    spec fn one_value() -> Self;

    /// The number `1/2`.
    spec fn half_value() -> Self;

    /// Tell whether the value is a NaN.
    fn is_nan(self) -> (r: bool)
        ensures
            r == self.nan(),
    ;

    /// The number `0`, with a positive sign.
    fn zero() -> (r: Self)
        ensures
            r == Self::zero_value(),
            !r.nan(),
    ;

    /// The number `1`.
    fn one() -> (r: Self)
        ensures
            r == Self::one_value(),
            !r.nan(),
    ;

    /// The number `1/2`.
    fn half() -> (r: Self)
        ensures
            r == Self::half_value(),
            !r.nan(),
    ;
}

/// A double precision number (IEEE 754 binary64), by its bit pattern: one
/// sign bit, eleven exponent bits, fifty-two fraction bits.
///
/// Two values are equal when their bit patterns are. So a NaN equals itself,
/// and the two zeros differ.
#[derive(Clone, Copy, Debug, PartialEq, Eq, Structural)]
pub struct Binary64 {
    pub bits: u64,
}

/// A single precision number (IEEE 754 binary32), by its bit pattern: one
/// sign bit, eight exponent bits, twenty-three fraction bits.
///
/// Two values are equal when their bit patterns are.
#[derive(Clone, Copy, Debug, PartialEq, Eq, Structural)]
pub struct Binary32 {
    pub bits: u32,
}

impl Binary64 {
    /// The biased exponent: bits 52 to 62.
    pub open spec fn exponent(self) -> u64 {
        (self.bits / 0x10_0000_0000_0000) % 0x800
    }

    /// The fraction: bits 0 to 51.
    pub open spec fn fraction(self) -> u64 {
        self.bits % 0x10_0000_0000_0000
    }

    /// The number with the given bit pattern.
    pub fn from_bits(bits: u64) -> (r: Self)
        ensures
            r.bits == bits,
    {
        Binary64 { bits }
    }

    /// The bit pattern of the number.
    pub fn to_bits(self) -> (bits: u64)
        ensures
            bits == self.bits,
    {
        self.bits
    }
}

impl Scalar for Binary64 {
    /// A NaN has every exponent bit set and a fraction other than zero.
    open spec fn nan(self) -> bool {
        self.exponent() == 0x7ff && self.fraction() != 0
    }

    /// Every bit is clear.
    open spec fn zero_value() -> Self {
        Binary64 { bits: 0 }
    }

    /// The sign is positive, the exponent is the bias 1023, the fraction is
    /// zero.
    open spec fn one_value() -> Self {
        Binary64 { bits: 0x3ff0_0000_0000_0000 }
    }

    /// The sign is positive, the exponent is 1022, the fraction is zero.
    open spec fn half_value() -> Self {
        Binary64 { bits: 0x3fe0_0000_0000_0000 }
    }

    fn zero() -> (r: Self) {
        assert(0u64 / 0x10_0000_0000_0000 % 0x800 == 0) by (bit_vector);
        Binary64 { bits: 0 }
    }

    fn one() -> (r: Self) {
        assert(0x3ff0_0000_0000_0000u64 / 0x10_0000_0000_0000 % 0x800 == 0x3ff) by (bit_vector);
        Binary64 { bits: 0x3ff0_0000_0000_0000 }
    }

    fn half() -> (r: Self) {
        assert(0x3fe0_0000_0000_0000u64 / 0x10_0000_0000_0000 % 0x800 == 0x3fe) by (bit_vector);
        Binary64 { bits: 0x3fe0_0000_0000_0000 }
    }

    fn is_nan(self) -> (r: bool) {
        let bits: u64 = self.bits;
        assert(((bits & 0x7fff_ffff_ffff_ffff) > 0x7ff0_0000_0000_0000) <==> ((bits
            / 0x10_0000_0000_0000) % 0x800 == 0x7ff && bits % 0x10_0000_0000_0000 != 0))
            by (bit_vector);
        (bits & 0x7fff_ffff_ffff_ffff) > 0x7ff0_0000_0000_0000
    }
}

impl Binary32 {
    /// The biased exponent: bits 23 to 30.
    pub open spec fn exponent(self) -> u32 {
        (self.bits / 0x80_0000) % 0x100
    }

    /// The fraction: bits 0 to 22.
    pub open spec fn fraction(self) -> u32 {
        self.bits % 0x80_0000
    }

    /// The number with the given bit pattern.
    pub fn from_bits(bits: u32) -> (r: Self)
        ensures
            r.bits == bits,
    {
        Binary32 { bits }
    }

    /// The bit pattern of the number.
    pub fn to_bits(self) -> (bits: u32)
        ensures
            bits == self.bits,
    {
        self.bits
    }
}

impl Scalar for Binary32 {
    /// A NaN has every exponent bit set and a fraction other than zero.
    open spec fn nan(self) -> bool {
        self.exponent() == 0xff && self.fraction() != 0
    }

    /// Every bit is clear.
    open spec fn zero_value() -> Self {
        Binary32 { bits: 0 }
    }

    /// The sign is positive, the exponent is the bias 127, the fraction is
    /// zero.
    open spec fn one_value() -> Self {
        Binary32 { bits: 0x3f80_0000 }
    }

    /// The sign is positive, the exponent is 126, the fraction is zero.
    open spec fn half_value() -> Self {
        Binary32 { bits: 0x3f00_0000 }
    }

    fn zero() -> (r: Self) {
        assert(0u32 / 0x80_0000 % 0x100 == 0) by (bit_vector);
        Binary32 { bits: 0 }
    }

    fn one() -> (r: Self) {
        assert(0x3f80_0000u32 / 0x80_0000 % 0x100 == 0x7f) by (bit_vector);
        Binary32 { bits: 0x3f80_0000 }
    }

    fn half() -> (r: Self) {
        assert(0x3f00_0000u32 / 0x80_0000 % 0x100 == 0x7e) by (bit_vector);
        Binary32 { bits: 0x3f00_0000 }
    }

    fn is_nan(self) -> (r: bool) {
        let bits: u32 = self.bits;
        assert(((bits & 0x7fff_ffff) > 0x7f80_0000) <==> ((bits / 0x80_0000) % 0x100 == 0xff
            && bits % 0x80_0000 != 0)) by (bit_vector);
        (bits & 0x7fff_ffff) > 0x7f80_0000
    }
}

/// Tell whether a scalar is a NaN.
pub fn is_nan<R: Scalar>(x: R) -> (r: bool)
    ensures
        r == x.nan(),
{
    x.is_nan()
}

} // verus!
