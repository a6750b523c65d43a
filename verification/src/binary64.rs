//! IEEE 754 binary64 numbers, held by their encoding.
//!
//! An encoding is 64 bits wide: the sign in the top bit, then eleven bits of
//! biased exponent, then fifty-two bits of fraction. A finite number has the
//! magnitude `significand × 2^scale`, both of which are integers read off the
//! encoding, so everything here is stated and computed over integers.

use vstd::arithmetic::div_mod::*;
use vstd::arithmetic::power2::*;
use vstd::bits::*;
use vstd::prelude::*;

verus! {

/// The exponent field that marks infinities and NaNs.
pub const EXPONENT_SPECIAL: u64 = 0x7ff;

/// The exponent field of the numbers in `[1, 2)`.
pub const EXPONENT_BIAS: u64 = 1023;

/// The exponent field from which on every finite number is an integer: the
/// bias plus the width of the fraction.
pub const EXPONENT_INTEGRAL: u64 = 1075;

/// The implicit leading bit of a normal number's significand, `2^52`.
pub const HIDDEN_BIT: u64 = 0x10_0000_0000_0000;

/// A binary64 number, given by its encoding (what `to_bits` returns for the
/// float and `from_bits` turns back into it).
#[derive(Clone, Copy, Debug, PartialEq, Eq, Structural)]
pub struct Binary64 {
    pub bits: u64,
}

impl Binary64 {
    /// The sign bit. It is set on negative numbers, on `-0.0` and on half of
    /// the NaNs.
    pub open spec fn sign(self) -> bool {
        self.bits >= 0x8000_0000_0000_0000
    }

    /// The biased exponent, a field of eleven bits.
    pub open spec fn exponent(self) -> nat {
        (self.bits as nat / 0x10_0000_0000_0000) % 0x800
    }

    /// The fraction, a field of fifty-two bits.
    pub open spec fn fraction(self) -> nat {
        self.bits as nat % 0x10_0000_0000_0000
    }

    /// Not a number.
    pub open spec fn nan(self) -> bool {
        self.exponent() == 0x7ff && self.fraction() != 0
    }

    /// A number that is neither infinite nor NaN: zero, subnormal or normal.
    pub open spec fn finite(self) -> bool {
        self.exponent() < 0x7ff
    }

    /// The significand of a finite number as an integer. Subnormal numbers
    /// and zeros have no hidden bit.
    pub open spec fn significand(self) -> nat {
        if self.exponent() == 0 {
            self.fraction()
        } else {
            0x10_0000_0000_0000 + self.fraction()
        }
    }

    /// The power of two by which the significand of a finite number is
    /// scaled.
    pub open spec fn scale(self) -> int {
        if self.exponent() == 0 {
            -1074
        } else {
            self.exponent() - 1075
        }
    }

    /// Zero, with either sign: `0.0` or `-0.0`.
    pub open spec fn zero(self) -> bool {
        self.exponent() == 0 && self.fraction() == 0
    }

    /// A number greater than zero, positive infinity included.
    pub open spec fn positive(self) -> bool {
        !self.sign() && !self.nan() && !self.zero()
    }

    /// A number less than zero, negative infinity included.
    pub open spec fn negative(self) -> bool {
        self.sign() && !self.nan() && !self.zero()
    }

    /// The integer part of the magnitude of a finite number:
    /// `floor(significand × 2^scale)`.
    pub open spec fn magnitude_floor(self) -> nat {
        if self.scale() >= 0 {
            self.significand() * pow2(self.scale() as nat)
        } else {
            self.significand() / pow2((-self.scale()) as nat)
        }
    }

    /// Whether the magnitude of a finite number is less than the integer
    /// `bound`, that is `significand × 2^scale < bound`, written with the
    /// power of two on the side on which it is an integer.
    pub open spec fn magnitude_below(self, bound: nat) -> bool {
        if self.scale() >= 0 {
            self.significand() * pow2(self.scale() as nat) < bound
        } else {
            self.significand() < bound * pow2((-self.scale()) as nat)
        }
    }

    /// Whether the magnitude of a finite number is the integer `whole`,
    /// that is `significand × 2^scale == whole`, written with the power of
    /// two on the side on which it is an integer.
    pub open spec fn magnitude_is(self, whole: nat) -> bool {
        if self.scale() >= 0 {
            self.significand() * pow2(self.scale() as nat) == whole
        } else {
            self.significand() == whole * pow2((-self.scale()) as nat)
        }
    }

    /// A finite number rounded toward zero to an integer.
    pub open spec fn truncated(self) -> int {
        if self.sign() {
            -(self.magnitude_floor() as int)
        } else {
            self.magnitude_floor() as int
        }
    }

    /// The number with the given encoding.
    pub fn from_bits(bits: u64) -> (number: Binary64)
        ensures
            number.bits == bits,
    {
        Binary64 { bits }
    }

    /// The encoding of the number.
    pub fn to_bits(self) -> (bits: u64)
        ensures
            bits == self.bits,
    {
        self.bits
    }

    /// Whether the sign bit is set.
    pub fn is_sign_negative(self) -> (negative: bool)
        ensures
            negative == self.sign(),
    {
        self.bits >= 0x8000_0000_0000_0000
    }

    /// The exponent field.
    pub fn exponent_field(self) -> (exponent: u64)
        ensures
            exponent == self.exponent(),
            exponent <= 0x7ff,
    {
        let bits = self.bits;
        assert((bits >> 52) & 0x7ff == (bits / 0x10_0000_0000_0000) % 0x800) by (bit_vector);
        (bits >> 52) & 0x7ff
    }

    /// The fraction field.
    pub fn fraction_field(self) -> (fraction: u64)
        ensures
            fraction == self.fraction(),
            fraction < 0x10_0000_0000_0000,
    {
        let bits = self.bits;
        assert(bits & 0xf_ffff_ffff_ffff == bits % 0x10_0000_0000_0000) by (bit_vector);
        bits & 0xf_ffff_ffff_ffff
    }

    /// Whether the number is NaN.
    pub fn is_nan(self) -> (nan: bool)
        ensures
            nan == self.nan(),
    {
        self.exponent_field() == EXPONENT_SPECIAL && self.fraction_field() != 0
    }

    /// Whether the number is finite.
    pub fn is_finite(self) -> (finite: bool)
        ensures
            finite == self.finite(),
    {
        self.exponent_field() < EXPONENT_SPECIAL
    }

    /// Whether the number is zero, with either sign.
    pub fn is_zero(self) -> (zero: bool)
        ensures
            zero == self.zero(),
    {
        self.exponent_field() == 0 && self.fraction_field() == 0
    }

    /// Whether the number is greater than zero.
    pub fn is_positive(self) -> (positive: bool)
        ensures
            positive == self.positive(),
    {
        !self.is_sign_negative() && !self.is_nan() && !self.is_zero()
    }

    /// Whether the number is less than zero.
    pub fn is_negative(self) -> (negative: bool)
        ensures
            negative == self.negative(),
    {
        self.is_sign_negative() && !self.is_nan() && !self.is_zero()
    }

    /// The number rounded toward zero, where it is finite and the integer fits
    /// an `i64`; `None` for NaN, the infinities and what lies beyond.
    pub fn truncate(self) -> (integer: Option<i64>)
        ensures
            integer == (if self.finite() && i64::MIN <= self.truncated() <= i64::MAX {
                Some(self.truncated() as i64)
            } else {
                None::<i64>
            }),
    {
        let exponent = self.exponent_field();
        let fraction = self.fraction_field();
        let negative = self.is_sign_negative();
        if exponent == EXPONENT_SPECIAL {
            return None;
        }
        if exponent < EXPONENT_BIAS {
            proof {
                lemma_below_one(self);
            }
            return Some(0);
        }
        let significand: u64 = HIDDEN_BIT + fraction;
        if exponent <= EXPONENT_INTEGRAL {
            let shift: u64 = EXPONENT_INTEGRAL - exponent;
            let magnitude: u64 = significand >> shift;
            proof {
                lemma_u64_shr_is_div(significand, shift);
                lemma_pow2_pos(shift as nat);
                lemma_div_nonincreasing(significand as int, pow2(shift as nat) as int);
                lemma2_to64();
                if shift == 0 {
                    let unit = pow2(0);
                    assert(significand as nat * unit == significand as nat / unit)
                        by (nonlinear_arith)
                        requires
                            unit == 1,
                    ;
                }
            }
            Some(with_sign(negative, magnitude))
        } else if exponent <= EXPONENT_INTEGRAL + 10 {
            let shift: u64 = exponent - EXPONENT_INTEGRAL;
            proof {
                lemma_scaled_up_bound(significand as nat, shift as nat);
                lemma_u64_shl_is_mul(significand, shift);
            }
            let magnitude: u64 = significand << shift;
            Some(with_sign(negative, magnitude))
        } else {
            proof {
                lemma_beyond_range(self);
            }
            if negative && exponent == EXPONENT_INTEGRAL + 11 && fraction == 0 {
                Some(i64::MIN)
            } else {
                None
            }
        }
    }
}

/// The integer of the given magnitude, negated where `negative` is set.
fn with_sign(negative: bool, magnitude: u64) -> (integer: i64)
    requires
        magnitude <= i64::MAX,
    ensures
        integer == (if negative {
            -(magnitude as int)
        } else {
            magnitude as int
        }),
{
    if negative {
        -(magnitude as i64)
    } else {
        magnitude as i64
    }
}

/// The integer part of a magnitude is the largest integer that is not above
/// the magnitude: it is below an integer bound exactly where the magnitude
/// is.
pub proof fn lemma_magnitude_floor_is_floor(number: Binary64, bound: nat)
    ensures
        number.magnitude_floor() < bound <==> number.magnitude_below(bound),
{
    if number.scale() < 0 {
        let significand = number.significand() as int;
        let divisor = pow2((-number.scale()) as nat) as int;
        let limit = bound as int;
        lemma_pow2_pos((-number.scale()) as nat);
        lemma_fundamental_div_mod(significand, divisor);
        lemma_mod_bound(significand, divisor);
        let quotient = significand / divisor;
        let rest = significand % divisor;
        assert(quotient < limit <==> significand < limit * divisor) by (nonlinear_arith)
            requires
                divisor > 0,
                significand == divisor * quotient + rest,
                0 <= rest < divisor,
        ;
    }
}

/// A magnitude that is an integer has that integer for its integer part.
pub proof fn lemma_whole_magnitude(number: Binary64, whole: nat)
    requires
        number.magnitude_is(whole),
    ensures
        number.magnitude_floor() == whole,
{
    if number.scale() < 0 {
        let unit = pow2((-number.scale()) as nat);
        lemma_pow2_pos((-number.scale()) as nat);
        lemma_magnitude_floor_is_floor(number, whole);
        lemma_magnitude_floor_is_floor(number, whole + 1);
        assert(whole * unit < (whole + 1) * unit) by (nonlinear_arith)
            requires
                unit > 0,
        ;
    }
}

/// Truncation keeps the side of zero: a number that is not less than zero
/// truncates to an integer that is not, and likewise for greater.
pub proof fn lemma_truncated_keeps_side(number: Binary64)
    requires
        number.finite(),
    ensures
        !number.negative() ==> number.truncated() >= 0,
        !number.positive() ==> number.truncated() <= 0,
{
    if number.zero() {
        lemma_below_one(number);
    }
}

/// A finite number whose exponent field is below the bias is smaller than
/// one in magnitude.
proof fn lemma_below_one(number: Binary64)
    requires
        number.exponent() < 1023,
    ensures
        number.magnitude_floor() == 0,
        number.truncated() == 0,
{
    lemma2_to64_rest();
    let down = (-number.scale()) as nat;
    assert(down >= 53);
    if down > 53 {
        lemma_pow2_strictly_increases(53, down);
    }
    assert(number.significand() < pow2(down));
    lemma_basic_div(number.significand() as int, pow2(down) as int);
}

/// A significand shifted left by at most ten bits stays below `2^63`.
proof fn lemma_scaled_up_bound(significand: nat, shift: nat)
    requires
        significand < 0x20_0000_0000_0000,
        shift <= 10,
    ensures
        significand * pow2(shift) < 0x8000_0000_0000_0000,
{
    lemma2_to64();
    if shift < 10 {
        lemma_pow2_strictly_increases(shift, 10);
    }
    let factor = pow2(shift);
    assert(significand * factor < 0x8000_0000_0000_0000) by (nonlinear_arith)
        requires
            significand < 0x20_0000_0000_0000,
            factor <= 0x400,
    ;
}

/// From eleven bits above the integral exponent on, the magnitude is at
/// least `2^63`, and equal to it only for the smallest such significand.
proof fn lemma_beyond_range(number: Binary64)
    requires
        number.exponent() >= 1086,
    ensures
        number.magnitude_floor() >= 0x8000_0000_0000_0000,
        number.magnitude_floor() == 0x8000_0000_0000_0000 <==> number.exponent() == 1086
            && number.fraction() == 0,
{
    lemma2_to64();
    let up = number.scale() as nat;
    let significand = number.significand();
    let factor = pow2(up);
    if up > 11 {
        lemma_pow2_strictly_increases(11, up);
        assert(significand * factor > 0x8000_0000_0000_0000) by (nonlinear_arith)
            requires
                significand >= 0x10_0000_0000_0000,
                factor > 0x800,
        ;
    } else {
        assert(significand * factor == significand * 0x800);
    }
}

} // verus!
