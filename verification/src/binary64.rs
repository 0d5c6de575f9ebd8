//! IEEE 754 binary64 numbers, carried by their bit patterns.

use rustc_apfloat::ieee::Double;
use rustc_apfloat::Float;
use vstd::prelude::*;

verus! {

/// The sign bit of a binary64 bit pattern.
pub const SIGN_BIT: u64 = 0x8000_0000_0000_0000;

/// The bit pattern of positive infinity. Every larger magnitude is a NaN.
pub const INFINITY_BITS: u64 = 0x7ff0_0000_0000_0000;

/// The binary64 sum of the numbers with bit patterns `a` and `b`, rounded to
/// nearest with ties to even, as a bit pattern.
pub uninterp spec fn binary64_sum(a: u64, b: u64) -> u64;

/// The decimal text of the number with bit pattern `bits`.
pub uninterp spec fn binary64_text(bits: u64) -> Seq<char>;

/// A binary64 number, held as its bit pattern.
#[derive(Clone, Copy, Debug)]
pub struct Binary64 {
    pub bits: u64,
}

impl Binary64 {
    /// The bit pattern without its sign bit.
    pub open spec fn magnitude(self) -> int {
        if self.bits >= SIGN_BIT {
            self.bits - SIGN_BIT
        } else {
            self.bits as int
        }
    }

    /// Whether the sign bit is set.
    pub open spec fn is_negative(self) -> bool {
        self.bits >= SIGN_BIT
    }

    /// Whether the pattern encodes a NaN: its magnitude lies above infinity's.
    pub open spec fn is_nan(self) -> bool {
        self.magnitude() > INFINITY_BITS
    }

    /// The position of a number on the number line, as an integer.
    ///
    /// Among patterns of one sign a larger magnitude is a number further from
    /// zero, so the signed magnitude orders all numbers that are not NaN as
    /// their values do: both zeros share rank 0, and the infinities lie at
    /// the two ends.
    pub open spec fn rank(self) -> int {
        if self.is_negative() {
            -self.magnitude()
        } else {
            self.magnitude()
        }
    }

    /// `self <= other` as IEEE 754 defines it: false when either is a NaN.
    pub open spec fn le(self, other: Binary64) -> bool {
        !self.is_nan() && !other.is_nan() && self.rank() <= other.rank()
    }

    /// `self < other` as IEEE 754 defines it: false when either is a NaN.
    pub open spec fn lt(self, other: Binary64) -> bool {
        !self.is_nan() && !other.is_nan() && self.rank() < other.rank()
    }

    /// The sum `self + other`.
    pub open spec fn plus(self, other: Binary64) -> Binary64 {
        Binary64 { bits: binary64_sum(self.bits, other.bits) }
    }

    /// The decimal text of the number.
    pub open spec fn text(self) -> Seq<char> {
        binary64_text(self.bits)
    }

    /// The number with the given bit pattern.
    pub fn from_bits(bits: u64) -> (r: Binary64)
        ensures
            r.bits == bits,
    {
        Binary64 { bits }
    }

    /// The bit pattern of the number.
    pub fn to_bits(self) -> (r: u64)
        ensures
            r == self.bits,
    {
        self.bits
    }

    /// Positive zero.
    pub fn zero() -> (r: Binary64)
        ensures
            r.bits == 0,
    {
        Binary64 { bits: 0 }
    }

    fn exec_magnitude(self) -> (r: u64)
        ensures
            r == self.magnitude(),
    {
        if self.bits >= SIGN_BIT {
            self.bits - SIGN_BIT
        } else {
            self.bits
        }
    }

    /// Tells whether the number is a NaN.
    pub fn nan(self) -> (r: bool)
        ensures
            r == self.is_nan(),
    {
        self.exec_magnitude() > INFINITY_BITS
    }

    /// Tells whether `self <= other`.
    pub fn at_most(self, other: Binary64) -> (r: bool)
        ensures
            r == self.le(other),
    {
        if self.nan() || other.nan() {
            return false;
        }
        let a: u64 = self.exec_magnitude();
        let b: u64 = other.exec_magnitude();
        if self.bits >= SIGN_BIT {
            if other.bits >= SIGN_BIT {
                a >= b
            } else {
                true
            }
        } else {
            if other.bits >= SIGN_BIT {
                a == 0 && b == 0
            } else {
                a <= b
            }
        }
    }

    /// Tells whether `self < other`.
    pub fn below(self, other: Binary64) -> (r: bool)
        ensures
            r == self.lt(other),
    {
        if self.nan() || other.nan() {
            return false;
        }
        let a: u64 = self.exec_magnitude();
        let b: u64 = other.exec_magnitude();
        if self.bits >= SIGN_BIT {
            if other.bits >= SIGN_BIT {
                a > b
            } else {
                a != 0 || b != 0
            }
        } else {
            if other.bits >= SIGN_BIT {
                false
            } else {
                a < b
            }
        }
    }

    /// Adds `other` to the number.
    pub fn add(self, other: Binary64) -> (r: Binary64)
        ensures
            r == self.plus(other),
    {
        Binary64 { bits: sum_of_bits(self.bits, other.bits) }
    }

    /// Writes the number in decimal.
    pub fn to_text(self) -> (r: String)
        ensures
            r@ == self.text(),
    {
        text_of_bits(self.bits)
    }
}

/// On the numbers that are not NaN, `le` is a total order up to the sign of
/// zero, and `lt` is its strict part. A bound therefore counts a sample
/// equal to it.
pub proof fn order_of_numbers(a: Binary64, b: Binary64, c: Binary64)
    requires
        !a.is_nan(),
        !b.is_nan(),
        !c.is_nan(),
    ensures
        a.le(a),
        a.le(b) || b.le(a),
        a.le(b) && b.le(c) ==> a.le(c),
        a.le(b) && b.le(a) ==> a.bits == b.bits || (a.magnitude() == 0 && b.magnitude() == 0),
        a.lt(b) <==> a.le(b) && !b.le(a),
{
}

/// A NaN is neither at or below nor below any number, and no number is at or
/// below it.
pub proof fn nan_is_unordered(a: Binary64, b: Binary64)
    requires
        a.is_nan(),
    ensures
        !a.le(b),
        !b.le(a),
        !a.lt(b),
        !b.lt(a),
{
}

/// `Double::from_bits`, `+` and `to_bits` of rustc_apfloat: the two patterns
/// are read as binary64 numbers and added with ties to even. The sum is a
/// function of the two patterns alone; nothing more is claimed of it.
#[verifier::external_body]
fn sum_of_bits(a: u64, b: u64) -> (r: u64)
    ensures
        r == binary64_sum(a, b),
{
    let total = Double::from_bits(a as u128) + Double::from_bits(b as u128);
    total.value.to_bits() as u64
}

/// The `Display` of rustc_apfloat's `Double`, with neither width nor
/// precision given. The text is a function of the pattern alone; nothing
/// more is claimed of it.
#[verifier::external_body]
fn text_of_bits(bits: u64) -> (r: String)
    ensures
        r@ == binary64_text(bits),
{
    format!("{}", Double::from_bits(bits as u128))
}

} // verus!
