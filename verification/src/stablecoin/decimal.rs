//! Decimal numbers as plain values, and the two operations on them that the
//! stabiliser takes from `rust_decimal`: multiplication and comparison.
//!
//! A number is a mantissa and a scale: the mantissa divided by ten to the
//! power of the scale. The same value can be written at several scales;
//! comparison goes by value.

use rust_decimal::Decimal;
use vstd::prelude::*;

verus! {

/// The largest scale of a decimal number.
pub const MAX_SCALE: u32 = 28;

/// The largest mantissa of a decimal number: 96 bits, all set.
pub const MAX_MANTISSA: i128 = 0xFFFF_FFFF_FFFF_FFFF_FFFF_FFFF;

/// Ten to the power of `n`.
pub open spec fn pow10(n: nat) -> nat
    decreases n,
{
    if n == 0 {
        1
    } else {
        10 * pow10((n - 1) as nat)
    }
}

/// Powers of ten are above zero.
pub proof fn lemma_pow10_positive(n: nat)
    ensures
        pow10(n) > 0,
    decreases n,
{
    if n > 0 {
        lemma_pow10_positive((n - 1) as nat);
    }
}

/// Ten to a sum is the product of the powers.
pub proof fn lemma_pow10_adds(a: nat, b: nat)
    ensures
        pow10(a + b) == pow10(a) * pow10(b),
    decreases a,
{
    if a > 0 {
        lemma_pow10_adds((a - 1) as nat, b);
        assert(pow10(a + b) == 10 * pow10((a - 1 + b) as nat));
        assert(10 * (pow10((a - 1) as nat) * pow10(b)) == (10 * pow10((a - 1) as nat)) * pow10(b))
            by (nonlinear_arith);
    } else {
        assert(pow10(a) * pow10(b) == pow10(b)) by (nonlinear_arith)
            requires
                pow10(a) == 1,
        ;
    }
}

/// A decimal number: `mantissa / 10^scale`.
#[derive(Clone, Copy, Debug, PartialEq, Eq, Structural)]
pub struct DecimalNumber {
    pub mantissa: i128,
    pub scale: u32,
}

impl DecimalNumber {
    /// Whether the number can be handed to the decimal arithmetic: its
    /// mantissa fits 96 bits and its scale is at most 28.
    pub open spec fn valid(self) -> bool {
        &&& -MAX_MANTISSA <= self.mantissa <= MAX_MANTISSA
        &&& self.scale <= MAX_SCALE
    }

    /// Whether this number's value is smaller than the other's.
    pub open spec fn less_than(self, other: DecimalNumber) -> bool {
        self.mantissa * pow10(other.scale as nat) < other.mantissa * pow10(self.scale as nat)
    }

    /// Whether the two numbers have the same value.
    pub open spec fn same_value(self, other: DecimalNumber) -> bool {
        self.mantissa * pow10(other.scale as nat) == other.mantissa * pow10(self.scale as nat)
    }

    /// Whether the number's value is above zero.
    pub open spec fn is_positive(self) -> bool {
        self.mantissa > 0
    }

    /// Whether the product with `other` can be written down as it is: the
    /// product of the mantissas fits 96 bits and the sum of the scales is at
    /// most 28.
    pub open spec fn multiplies_exactly(self, other: DecimalNumber) -> bool {
        &&& self.scale + other.scale <= MAX_SCALE
        &&& -MAX_MANTISSA <= self.mantissa * other.mantissa <= MAX_MANTISSA
    }
}

/// The mantissa and the scale of a number that may be missing.
pub open spec fn parts_of(r: Option<DecimalNumber>) -> Option<(i128, u32)> {
    match r {
        Some(p) => Some((p.mantissa, p.scale)),
        None => None,
    }
}

/// What `Decimal::checked_mul` answers where the product cannot be written
/// down as it is and has to be rounded to fit, or does not fit at all.
pub uninterp spec fn rounded_product(
    a_mantissa: i128,
    a_scale: u32,
    b_mantissa: i128,
    b_scale: u32,
) -> Option<(i128, u32)>;

/// The product of two decimal numbers as the decimal arithmetic computes it:
/// plain zero where a factor is zero, the exact product where it can be
/// written down as it is, and a rounded product, or nothing, otherwise.
pub open spec fn product(a: DecimalNumber, b: DecimalNumber) -> Option<DecimalNumber> {
    if a.mantissa == 0 || b.mantissa == 0 {
        Some(DecimalNumber { mantissa: 0, scale: 0 })
    } else if a.multiplies_exactly(b) {
        Some(
            DecimalNumber {
                mantissa: (a.mantissa * b.mantissa) as i128,
                scale: (a.scale + b.scale) as u32,
            },
        )
    } else {
        match rounded_product(a.mantissa, a.scale, b.mantissa, b.scale) {
            Some((mantissa, scale)) => Some(DecimalNumber { mantissa, scale }),
            None => None,
        }
    }
}

/// `Decimal::checked_mul` on two numbers built with
/// `Decimal::from_i128_with_scale`, the answer read back with `mantissa` and
/// `scale`.
///
/// Claimed of it: a zero factor gives zero at scale 0; where the product of
/// the mantissas fits 96 bits and the scales add up to at most 28, the answer
/// is that product at that scale; otherwise the answer depends on the two
/// numbers alone. Whatever comes back has a 96-bit mantissa and a scale of at
/// most 28.
#[verifier::external_body]
pub(crate) fn checked_mul(a: DecimalNumber, b: DecimalNumber) -> (r: Option<DecimalNumber>)
    requires
        a.valid(),
        b.valid(),
    ensures
        r matches Some(p) ==> p.valid(),
        a.mantissa == 0 || b.mantissa == 0 ==> r == Some(DecimalNumber { mantissa: 0, scale: 0 }),
        a.mantissa != 0 && b.mantissa != 0 && a.multiplies_exactly(b) ==> r == Some(
            DecimalNumber {
                mantissa: (a.mantissa * b.mantissa) as i128,
                scale: (a.scale + b.scale) as u32,
            },
        ),
        a.mantissa != 0 && b.mantissa != 0 && !a.multiplies_exactly(b) ==> parts_of(r)
            == rounded_product(a.mantissa, a.scale, b.mantissa, b.scale),
{
    let x = Decimal::from_i128_with_scale(a.mantissa, a.scale);
    let y = Decimal::from_i128_with_scale(b.mantissa, b.scale);
    match x.checked_mul(y) {
        Some(p) => Some(DecimalNumber { mantissa: p.mantissa(), scale: p.scale() }),
        None => None,
    }
}

/// The `>` of `Decimal` on two numbers built with
/// `Decimal::from_i128_with_scale`.
///
/// Claimed of it: it compares the values, whatever the scales they are
/// written at.
#[verifier::external_body]
pub(crate) fn greater_than(a: DecimalNumber, b: DecimalNumber) -> (r: bool)
    requires
        a.valid(),
        b.valid(),
    ensures
        r == b.less_than(a),
{
    let x = Decimal::from_i128_with_scale(a.mantissa, a.scale);
    let y = Decimal::from_i128_with_scale(b.mantissa, b.scale);
    x > y
}

/// Multiplies two decimal numbers; nothing where the product is too large.
pub fn multiply(a: DecimalNumber, b: DecimalNumber) -> (r: Option<DecimalNumber>)
    ensures
        a.valid() && b.valid() ==> r == product(a, b),
        !(a.valid() && b.valid()) ==> r is None,
        r matches Some(p) ==> p.valid(),
{
    if is_valid(a) && is_valid(b) {
        checked_mul(a, b)
    } else {
        None
    }
}

/// Whether `a`'s value is above `b`'s; false where either is no valid
/// decimal number.
pub fn exceeds(a: DecimalNumber, b: DecimalNumber) -> (r: bool)
    ensures
        r == (a.valid() && b.valid() && b.less_than(a)),
{
    is_valid(a) && is_valid(b) && greater_than(a, b)
}

/// Whether the number can be handed to the decimal arithmetic.
pub fn is_valid(d: DecimalNumber) -> (v: bool)
    ensures
        v == d.valid(),
{
    -MAX_MANTISSA <= d.mantissa && d.mantissa <= MAX_MANTISSA && d.scale <= MAX_SCALE
}

} // verus!
