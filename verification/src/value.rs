//! Single-precision numbers, held by their IEEE 754 bit patterns.
//!
//! The arithmetic is done in software by `rustc_apfloat`; what it returns is
//! known to the rest of the library by name only.

use rustc_apfloat::ieee::Single;
use rustc_apfloat::Float;
use rustc_apfloat::Round;
use std::str::FromStr;
use vstd::prelude::*;

verus! {

/// The bits of the sign.
pub const SIGN_BIT: u32 = 0x8000_0000;

/// The bits of positive infinity: every exponent bit and no other.
pub const INFINITY_BITS: u32 = 0x7f80_0000;

/// The bits of `0`.
pub const ZERO_BITS: u32 = 0;

/// The bits of `1`.
pub const ONE_BITS: u32 = 0x3f80_0000;

/// The bits of `90`, a quarter turn in degrees.
pub const QUARTER_TURN_BITS: u32 = 0x42b4_0000;

/// The bits of `360`, a full turn in degrees.
pub const FULL_TURN_BITS: u32 = 0x43b4_0000;

/// A single-precision number. Two values are the same when their bits are:
/// a negative zero is not a positive zero, and a NaN equals itself.
#[derive(Debug, Clone, Copy)]
pub struct Value {
    pub bits: u32,
}

/// The sum of two numbers, rounded to the nearest, ties to even.
pub uninterp spec fn sum_bits(a: u32, b: u32) -> u32;

/// The first number less the second, rounded to the nearest, ties to even.
pub uninterp spec fn difference_bits(a: u32, b: u32) -> u32;

/// The product of two numbers, rounded to the nearest, ties to even.
pub uninterp spec fn product_bits(a: u32, b: u32) -> u32;

/// The first number divided by the second, rounded to the nearest, ties to
/// even.
pub uninterp spec fn quotient_bits(a: u32, b: u32) -> u32;

/// What is left of the first number after taking out the second as often as
/// it goes, with the sign of the first.
pub uninterp spec fn remainder_bits(a: u32, b: u32) -> u32;

/// The least whole number that is not below the given one.
pub uninterp spec fn ceiling_bits(a: u32) -> u32;

/// The whole part of a number as an integer: cut off toward zero, `0` for a
/// NaN, and the nearest end of the range for what lies outside it.
pub uninterp spec fn whole_part(a: u32) -> u64;

/// The number nearest to an integer, ties to even.
pub uninterp spec fn count_bits(n: u32) -> u32;

/// The number nearest to a decimal numeral, ties to even.
pub uninterp spec fn decimal_bits(text: Seq<u8>) -> u32;

/// The length from which on a decimal numeral is too long to be read.
///
/// `rustc_apfloat` multiplies the count of the digits by 196 in a word of the
/// machine, and holds the count itself, the length in bits of the digits
/// taken as one integer and that of the power of ten that goes with them in
/// 32 bits with a sign. Below this length, 16 MiB, all of them stay in range
/// on a machine with words of 32 bits as on one with words of 64.
pub const NUMERAL_LIMIT: usize = 0x0100_0000;

/// Whether a byte is a decimal digit.
pub open spec fn is_digit(b: u8) -> bool {
    0x30 <= b <= 0x39
}

/// Whether `text` is made of decimal digits and at most one point, with at
/// least one digit.
pub open spec fn is_plain_decimal(text: Seq<u8>) -> bool {
    &&& forall|i: int| 0 <= i < text.len() ==> is_digit(#[trigger] text[i]) || text[i] == 0x2e
    &&& forall|i: int, j: int|
        0 <= i < j < text.len() ==> !(#[trigger] text[i] == 0x2e && #[trigger] text[j] == 0x2e)
    &&& exists|i: int| 0 <= i < text.len() && is_digit(#[trigger] text[i])
}

/// `rustc_apfloat`'s `Add::add` on `ieee::Single`: the result's bits are a
/// function of the operands' bits.
#[verifier::external_body]
pub(crate) fn plus(a: Value, b: Value) -> (r: Value)
    ensures
        r.bits == sum_bits(a.bits, b.bits),
{
    let sum = Single::from_bits(a.bits as u128) + Single::from_bits(b.bits as u128);
    Value { bits: sum.value.to_bits() as u32 }
}

/// `rustc_apfloat`'s `Sub::sub` on `ieee::Single`: the result's bits are a
/// function of the operands' bits.
#[verifier::external_body]
pub(crate) fn minus(a: Value, b: Value) -> (r: Value)
    ensures
        r.bits == difference_bits(a.bits, b.bits),
{
    let difference = Single::from_bits(a.bits as u128) - Single::from_bits(b.bits as u128);
    Value { bits: difference.value.to_bits() as u32 }
}

/// `rustc_apfloat`'s `Mul::mul` on `ieee::Single`: the result's bits are a
/// function of the operands' bits.
#[verifier::external_body]
pub(crate) fn times(a: Value, b: Value) -> (r: Value)
    ensures
        r.bits == product_bits(a.bits, b.bits),
{
    let product = Single::from_bits(a.bits as u128) * Single::from_bits(b.bits as u128);
    Value { bits: product.value.to_bits() as u32 }
}

/// `rustc_apfloat`'s `Div::div` on `ieee::Single`: the result's bits are a
/// function of the operands' bits. A zero divisor gives an infinity or a NaN.
#[verifier::external_body]
pub(crate) fn divided_by(a: Value, b: Value) -> (r: Value)
    ensures
        r.bits == quotient_bits(a.bits, b.bits),
{
    let quotient = Single::from_bits(a.bits as u128) / Single::from_bits(b.bits as u128);
    Value { bits: quotient.value.to_bits() as u32 }
}

/// `rustc_apfloat`'s `Rem::rem` on `ieee::Single`, which is C's `fmod`: the
/// result's bits are a function of the operands' bits. A zero divisor gives
/// a NaN.
#[verifier::external_body]
pub(crate) fn modulo(a: Value, b: Value) -> (r: Value)
    ensures
        r.bits == remainder_bits(a.bits, b.bits),
{
    let remainder = Single::from_bits(a.bits as u128) % Single::from_bits(b.bits as u128);
    Value { bits: remainder.value.to_bits() as u32 }
}

/// `rustc_apfloat`'s `Float::round_to_integral` on `ieee::Single`, rounding
/// toward positive infinity: the result's bits are a function of the
/// operand's bits.
#[verifier::external_body]
pub(crate) fn ceiling(a: Value) -> (r: Value)
    ensures
        r.bits == ceiling_bits(a.bits),
{
    let rounded = Single::from_bits(a.bits as u128).round_to_integral(Round::TowardPositive);
    Value { bits: rounded.value.to_bits() as u32 }
}

/// `rustc_apfloat`'s `Float::to_u128` on `ieee::Single`, for a width of 64
/// bits: the integer is a function of the operand's bits.
#[verifier::external_body]
pub(crate) fn truncated(a: Value) -> (n: u64)
    ensures
        n == whole_part(a.bits),
{
    Single::from_bits(a.bits as u128).to_u128(64).value as u64
}

/// `rustc_apfloat`'s `Float::from_u128` on `ieee::Single`: the result's bits
/// are a function of the integer.
#[verifier::external_body]
pub(crate) fn from_count(n: u32) -> (r: Value)
    ensures
        r.bits == count_bits(n),
{
    Value { bits: Single::from_u128(n as u128).value.to_bits() as u32 }
}

/// `rustc_apfloat`'s `FromStr::from_str` on `ieee::Single`: digits with at
/// most one point among them are read as a number, whose bits are a function
/// of the text. A numeral of `NUMERAL_LIMIT` bytes or more is left out: on
/// some of them a count that the outside function keeps goes out of range,
/// and the call panics.
#[verifier::external_body]
pub(crate) fn from_decimal(text: &Vec<u8>) -> (r: Option<Value>)
    requires
        is_plain_decimal(text@),
        text@.len() < NUMERAL_LIMIT,
    ensures
        r is Some,
        r matches Some(v) ==> v.bits == decimal_bits(text@),
{
    match std::str::from_utf8(text.as_slice()) {
        Ok(numeral) => match Single::from_str(numeral) {
            Ok(number) => Some(Value { bits: number.to_bits() as u32 }),
            Err(_) => None,
        },
        Err(_) => None,
    }
}

impl Value {
    /// The number with the given bits.
    pub fn from_bits(bits: u32) -> (v: Value)
        ensures
            v.bits == bits,
    {
        Value { bits }
    }

    /// The bits of the number.
    pub fn to_bits(self) -> (bits: u32)
        ensures
            bits == self.bits,
    {
        self.bits
    }

    /// Positive zero.
    pub fn zero() -> (v: Value)
        ensures
            v.bits == ZERO_BITS,
    {
        Value { bits: ZERO_BITS }
    }

    /// Whether the bits stand for no number: every exponent bit set and some
    /// bit of the fraction.
    pub open spec fn spec_is_nan(self) -> bool {
        self.bits & !SIGN_BIT > INFINITY_BITS
    }

    /// Whether the value is a NaN.
    #[verifier::when_used_as_spec(spec_is_nan)]
    pub fn is_nan(self) -> (nan: bool)
        ensures
            nan == self.spec_is_nan(),
    {
        self.bits & !SIGN_BIT > INFINITY_BITS
    }

    /// Whether the sign bit is set.
    pub open spec fn spec_is_negative(self) -> bool {
        self.bits & SIGN_BIT != 0
    }

    /// Whether the sign bit is set, as it is for a negative zero too.
    #[verifier::when_used_as_spec(spec_is_negative)]
    pub fn is_negative(self) -> (negative: bool)
        ensures
            negative == self.spec_is_negative(),
    {
        self.bits & SIGN_BIT != 0
    }

    /// The value with the sign bit turned over.
    pub open spec fn spec_negated(self) -> Value {
        Value { bits: self.bits ^ SIGN_BIT }
    }

    /// The negation of the number: the sign bit is turned over, of a NaN too.
    #[verifier::when_used_as_spec(spec_negated)]
    pub fn negated(self) -> (v: Value)
        ensures
            v == self.spec_negated(),
    {
        Value { bits: self.bits ^ SIGN_BIT }
    }

    /// Whether the number is below one. Of two numbers that are not negative
    /// the one with the lesser bits is the lesser.
    pub open spec fn spec_is_below_one(self) -> bool {
        !self.spec_is_nan() && (self.spec_is_negative() || self.bits < ONE_BITS)
    }

    /// Whether the number is below one; a NaN is not.
    #[verifier::when_used_as_spec(spec_is_below_one)]
    pub fn is_below_one(self) -> (below: bool)
        ensures
            below == self.spec_is_below_one(),
    {
        !self.is_nan() && (self.is_negative() || self.bits < ONE_BITS)
    }

    /// The number itself where it is above zero, else positive zero.
    pub open spec fn spec_or_zero(self) -> Value {
        if self.spec_is_nan() || self.spec_is_negative() {
            Value { bits: ZERO_BITS }
        } else {
            self
        }
    }

    /// The greater of the number and zero; zero for a NaN.
    #[verifier::when_used_as_spec(spec_or_zero)]
    pub fn or_zero(self) -> (v: Value)
        ensures
            v == self.spec_or_zero(),
    {
        if self.is_nan() || self.is_negative() {
            Value { bits: ZERO_BITS }
        } else {
            self
        }
    }

    /// The number of whole turns that cover the span: the ceiling as a `u32`,
    /// `0` for a NaN or below zero, and the greatest `u32` beyond it.
    pub open spec fn spec_turns(self) -> u32 {
        let whole = whole_part(ceiling_bits(self.bits));
        if whole > u32::MAX {
            u32::MAX
        } else {
            whole as u32
        }
    }

    /// The ceiling of the number as a count of turns.
    #[verifier::when_used_as_spec(spec_turns)]
    pub fn turns(self) -> (n: u32)
        ensures
            n == self.spec_turns(),
    {
        let whole = truncated(ceiling(self));
        if whole > u32::MAX as u64 {
            u32::MAX
        } else {
            whole as u32
        }
    }
}

} // verus!
