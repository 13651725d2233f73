//! Double-precision numbers, carried as their IEEE-754 bit patterns.
//!
//! Verus has no floating-point arithmetic to reason with, so a number is
//! held as the pattern of its bits, and nothing here is a float. Sign,
//! ordering and equality are decided on the pattern and proved. Rounded
//! arithmetic and decimal conversion are done by the `rustc_apfloat` crate,
//! a software implementation of IEEE-754 that works on such patterns; their
//! results are named by the uninterpreted functions below.

use crate::notation::{positional, positional_text};
use rustc_apfloat::ieee::Double;
use rustc_apfloat::Float;
use vstd::prelude::*;
use vstd::string::StringExecFns;

verus! {

/// The bit that holds the sign.
pub const SIGN_BIT: u64 = 0x8000_0000_0000_0000;

/// The magnitude bits of positive infinity; larger magnitudes are NaNs.
pub const INFINITY_BITS: u64 = 0x7ff0_0000_0000_0000;

/// The number of significant decimal digits that identifies any double.
pub const MAX_DIGITS: usize = 17;

/// The longest text that is read as a number.
pub const MAX_TEXT_LENGTH: usize = 0x10_0000;

/// The width at which every number is written in scientific notation.
pub const SCIENTIFIC: usize = 0;

/// A double-precision number as its 64-bit IEEE-754 pattern.
///
/// `==` on this type compares patterns; [`Number::equals`] compares numbers.
#[derive(Clone, Copy, Debug, PartialEq, Eq, Structural)]
pub struct Number {
    pub bits: u64,
}

/// The pattern without its sign bit.
pub open spec fn magnitude(bits: u64) -> u64 {
    if bits >= SIGN_BIT {
        (bits - SIGN_BIT) as u64
    } else {
        bits
    }
}

/// Whether the sign bit is set: true of `-0.0` and of half the NaNs too.
pub open spec fn is_negative(bits: u64) -> bool {
    bits >= SIGN_BIT
}

/// Whether the pattern is no number: its magnitude lies beyond infinity.
pub open spec fn is_nan(bits: u64) -> bool {
    magnitude(bits) > INFINITY_BITS
}

/// The position of a non-NaN pattern on the number line: patterns of one
/// sign are ordered as their magnitudes, and the two zeros coincide.
pub open spec fn rank(bits: u64) -> int {
    if is_negative(bits) {
        -(magnitude(bits) as int)
    } else {
        magnitude(bits) as int
    }
}

/// IEEE-754 equality: a NaN equals nothing, and the two zeros are equal.
pub open spec fn number_eq(a: u64, b: u64) -> bool {
    !is_nan(a) && !is_nan(b) && rank(a) == rank(b)
}

/// IEEE-754 `<`: false as soon as either side is a NaN.
pub open spec fn number_lt(a: u64, b: u64) -> bool {
    !is_nan(a) && !is_nan(b) && rank(a) < rank(b)
}

/// IEEE-754 `<=`: false as soon as either side is a NaN.
pub open spec fn number_le(a: u64, b: u64) -> bool {
    !is_nan(a) && !is_nan(b) && rank(a) <= rank(b)
}

/// The pattern with its sign bit flipped.
pub open spec fn negated(bits: u64) -> u64 {
    if bits >= SIGN_BIT {
        (bits - SIGN_BIT) as u64
    } else {
        (bits + SIGN_BIT) as u64
    }
}

/// The sum of two doubles, rounded to nearest with ties to even.
pub uninterp spec fn sum_bits(a: u64, b: u64) -> u64;

/// The difference of two doubles, rounded to nearest with ties to even.
pub uninterp spec fn difference_bits(a: u64, b: u64) -> u64;

/// The product of two doubles, rounded to nearest with ties to even.
pub uninterp spec fn product_bits(a: u64, b: u64) -> u64;

/// The quotient of two doubles, rounded to nearest with ties to even.
pub uninterp spec fn quotient_bits(a: u64, b: u64) -> u64;

/// The double nearest to what a text denotes, or `None` where the text is
/// not a number.
pub uninterp spec fn parsed_bits(text: Seq<char>) -> Option<u64>;

/// The decimal notation of a double at a precision of `digits` significant
/// digits, with an exponent where it would take more than `width` padding
/// zeros, or more than `digits` digits before the point, to do without.
pub uninterp spec fn decimal_text(bits: u64, digits: nat, width: nat) -> Seq<char>;

/// The `+` of `rustc_apfloat::ieee::Double`, which rounds ties to even. It
/// has no state and no failure: the pattern it returns is a function of the
/// two patterns given, and [`sum_bits`] is the name of that function.
#[verifier::external_body]
fn apfloat_add(a: u64, b: u64) -> (r: u64)
    ensures
        r == sum_bits(a, b),
{
    (Double::from_bits(a as u128) + Double::from_bits(b as u128)).value.to_bits() as u64
}

/// The `-` of `rustc_apfloat::ieee::Double`; [`difference_bits`] names its
/// result.
#[verifier::external_body]
fn apfloat_sub(a: u64, b: u64) -> (r: u64)
    ensures
        r == difference_bits(a, b),
{
    (Double::from_bits(a as u128) - Double::from_bits(b as u128)).value.to_bits() as u64
}

/// The `*` of `rustc_apfloat::ieee::Double`; [`product_bits`] names its
/// result.
#[verifier::external_body]
fn apfloat_mul(a: u64, b: u64) -> (r: u64)
    ensures
        r == product_bits(a, b),
{
    (Double::from_bits(a as u128) * Double::from_bits(b as u128)).value.to_bits() as u64
}

/// The `/` of `rustc_apfloat::ieee::Double`; [`quotient_bits`] names its
/// result. Division by zero is no failure: it gives an infinity or a NaN.
#[verifier::external_body]
fn apfloat_div(a: u64, b: u64) -> (r: u64)
    ensures
        r == quotient_bits(a, b),
{
    (Double::from_bits(a as u128) / Double::from_bits(b as u128)).value.to_bits() as u64
}

/// The `FromStr` of `rustc_apfloat::ieee::Double`, which reads a decimal or
/// hexadecimal text and rounds ties to even; [`parsed_bits`] names its
/// result, `None` standing for its error. The bound on the length keeps the
/// size of its working storage within a `usize`.
#[verifier::external_body]
fn apfloat_parse(text: &str) -> (r: Option<u64>)
    requires
        text@.len() <= MAX_TEXT_LENGTH,
    ensures
        r == parsed_bits(text@),
{
    match text.parse::<Double>() {
        Ok(value) => Some(value.to_bits() as u64),
        Err(_) => None,
    }
}

/// The `Display` of `rustc_apfloat::ieee::Double`, asked for a precision of
/// `digits` and a width of `width`; [`decimal_text`] names its result. It
/// needs at least one digit to write, and the upper bound on the precision
/// keeps its digit count within a `usize`.
#[verifier::external_body]
fn apfloat_format(bits: u64, digits: usize, width: usize) -> (r: String)
    requires
        1 <= digits <= MAX_DIGITS,
    ensures
        r@ == decimal_text(bits, digits as nat, width as nat),
{
    format!("{:1$.2$}", Double::from_bits(bits as u128), width, digits)
}

/// Whether a decimal text reads back as `bits`.
pub open spec fn reads_back(bits: u64, text: Seq<char>) -> bool {
    text.len() <= MAX_TEXT_LENGTH && parsed_bits(text) == Some(bits)
}

/// The least number of significant digits, from `from` on, at which the
/// scientific notation of `bits` reads back; [`MAX_DIGITS`] where none
/// does.
pub open spec fn digits_needed(bits: u64, from: nat) -> nat
    decreases MAX_DIGITS - from,
{
    if from >= MAX_DIGITS || reads_back(bits, decimal_text(bits, from, SCIENTIFIC as nat)) {
        from
    } else {
        digits_needed(bits, from + 1)
    }
}

/// How a number is written: `NaN`, `inf` and `-inf` for what is no finite
/// number; otherwise in positional notation, with the fewest significant
/// digits that read back as the same number.
pub open spec fn number_text(bits: u64) -> Seq<char> {
    if is_nan(bits) {
        "NaN"@
    } else if bits == INFINITY_BITS {
        "inf"@
    } else if magnitude(bits) == INFINITY_BITS {
        "-inf"@
    } else {
        positional_text(decimal_text(bits, digits_needed(bits, 1), SCIENTIFIC as nat))
    }
}

/// The number that a text is read as: none where the text is longer than
/// [`MAX_TEXT_LENGTH`] or denotes no number.
pub open spec fn parsed_number(text: Seq<char>) -> Option<Number> {
    if text.len() <= MAX_TEXT_LENGTH {
        match parsed_bits(text) {
            Some(bits) => Some(Number { bits }),
            None => None,
        }
    } else {
        None
    }
}

impl Number {
    /// The number with the given pattern.
    pub fn from_bits(bits: u64) -> (r: Number)
        ensures
            r.bits == bits,
    {
        Number { bits }
    }

    /// The pattern without its sign.
    fn magnitude(&self) -> (r: u64)
        ensures
            r == magnitude(self.bits),
    {
        if self.bits >= SIGN_BIT {
            self.bits - SIGN_BIT
        } else {
            self.bits
        }
    }

    /// Whether this is a NaN.
    pub fn is_nan(&self) -> (r: bool)
        ensures
            r == is_nan(self.bits),
    {
        self.magnitude() > INFINITY_BITS
    }

    /// Whether the sign bit is set.
    pub fn is_negative(&self) -> (r: bool)
        ensures
            r == is_negative(self.bits),
    {
        self.bits >= SIGN_BIT
    }

    /// The sum, rounded.
    pub fn add(&self, other: &Number) -> (r: Number)
        ensures
            r.bits == sum_bits(self.bits, other.bits),
    {
        Number { bits: apfloat_add(self.bits, other.bits) }
    }

    /// The difference, rounded.
    pub fn sub(&self, other: &Number) -> (r: Number)
        ensures
            r.bits == difference_bits(self.bits, other.bits),
    {
        Number { bits: apfloat_sub(self.bits, other.bits) }
    }

    /// The product, rounded.
    pub fn mul(&self, other: &Number) -> (r: Number)
        ensures
            r.bits == product_bits(self.bits, other.bits),
    {
        Number { bits: apfloat_mul(self.bits, other.bits) }
    }

    /// The quotient, rounded. Dividing by zero gives an infinity or a NaN.
    pub fn div(&self, other: &Number) -> (r: Number)
        ensures
            r.bits == quotient_bits(self.bits, other.bits),
    {
        Number { bits: apfloat_div(self.bits, other.bits) }
    }

    /// The number with the opposite sign.
    pub fn neg(&self) -> (r: Number)
        ensures
            r.bits == negated(self.bits),
    {
        if self.bits >= SIGN_BIT {
            Number { bits: self.bits - SIGN_BIT }
        } else {
            Number { bits: self.bits + SIGN_BIT }
        }
    }

    /// `==` on numbers: a NaN equals nothing, `0.0` equals `-0.0`.
    pub fn equals(&self, other: &Number) -> (r: bool)
        ensures
            r == number_eq(self.bits, other.bits),
    {
        if self.is_nan() || other.is_nan() {
            return false;
        }
        let a: u64 = self.magnitude();
        let b: u64 = other.magnitude();
        if self.is_negative() == other.is_negative() {
            a == b
        } else {
            a == 0 && b == 0
        }
    }

    /// `<` on numbers.
    pub fn less(&self, other: &Number) -> (r: bool)
        ensures
            r == number_lt(self.bits, other.bits),
    {
        if self.is_nan() || other.is_nan() {
            return false;
        }
        let a: u64 = self.magnitude();
        let b: u64 = other.magnitude();
        if self.is_negative() {
            if other.is_negative() {
                b < a
            } else {
                a != 0 || b != 0
            }
        } else {
            !other.is_negative() && a < b
        }
    }

    /// `<=` on numbers.
    pub fn less_equal(&self, other: &Number) -> (r: bool)
        ensures
            r == number_le(self.bits, other.bits),
    {
        self.less(other) || self.equals(other)
    }

    /// `>` on numbers.
    pub fn greater(&self, other: &Number) -> (r: bool)
        ensures
            r == number_lt(other.bits, self.bits),
    {
        other.less(self)
    }

    /// `>=` on numbers.
    pub fn greater_equal(&self, other: &Number) -> (r: bool)
        ensures
            r == number_le(other.bits, self.bits),
    {
        other.less_equal(self)
    }

    /// Reads a number from its text. Texts longer than [`MAX_TEXT_LENGTH`]
    /// are not read.
    pub fn parse(text: &str) -> (r: Option<Number>)
        ensures
            r == parsed_number(text@),
    {
        if text.unicode_len() > MAX_TEXT_LENGTH {
            return None;
        }
        match apfloat_parse(text) {
            Some(bits) => Some(Number { bits }),
            None => None,
        }
    }

    /// Writes the number: see [`number_text`].
    pub fn to_text(&self) -> (r: String)
        ensures
            r@ == number_text(self.bits),
    {
        if self.is_nan() {
            return String::from_str("NaN");
        }
        if self.magnitude() == INFINITY_BITS {
            if self.is_negative() {
                return String::from_str("-inf");
            }
            return String::from_str("inf");
        }
        let mut digits: usize = 1;
        let mut text: String = apfloat_format(self.bits, digits, SCIENTIFIC);
        while digits < MAX_DIGITS && !Self::text_reads_back(self.bits, &text)
            invariant
                1 <= digits <= MAX_DIGITS,
                text@ == decimal_text(self.bits, digits as nat, SCIENTIFIC as nat),
                digits_needed(self.bits, 1) == digits_needed(self.bits, digits as nat),
            decreases MAX_DIGITS - digits,
        {
            digits += 1;
            text = apfloat_format(self.bits, digits, SCIENTIFIC);
        }
        positional(text.as_str())
    }

    /// Whether `text` reads back as `bits`.
    fn text_reads_back(bits: u64, text: &String) -> (r: bool)
        ensures
            r == reads_back(bits, text@),
    {
        let s: &str = text.as_str();
        if s.unicode_len() > MAX_TEXT_LENGTH {
            return false;
        }
        match apfloat_parse(s) {
            Some(back) => back == bits,
            None => false,
        }
    }
}

} // verus!
