//! Real quantities carried as IEEE 754 binary64 bit patterns.
//!
//! The simulation never does arithmetic on a quantity here: arithmetic is the
//! caller's. What the simulation decides about a quantity (is it a number, is
//! it positive, which of two is larger, what is its opposite) depends on the
//! bit pattern alone, and those decisions are made and proved in this module.
//!
//! A pattern is a sign bit followed by 63 magnitude bits. Magnitudes above
//! `INFINITY_BITS` are NaNs. Among the other patterns, a larger magnitude means
//! a number further from zero, so the signed magnitude orders the numbers.
use vstd::prelude::*;

verus! {

/// The sign bit of a binary64 pattern.
pub const SIGN_BIT: u64 = 0x8000_0000_0000_0000;

/// The magnitude bits of an infinity; every larger magnitude is a NaN.
pub const INFINITY_BITS: u64 = 0x7ff0_0000_0000_0000;

/// A binary64 quantity, held as its bit pattern.
///
/// `==` on two scalars compares patterns: the two zeros differ, and a NaN
/// equals itself.
#[derive(Clone, Copy, Debug, PartialEq, Eq, Structural)]
pub struct Scalar {
    pub bits: u64,
}

impl Scalar {
    /// The pattern without its sign bit.
    pub open spec fn magnitude(self) -> int {
        if self.bits >= SIGN_BIT {
            self.bits - SIGN_BIT
        } else {
            self.bits as int
        }
    }

    /// Whether the sign bit is set.
    pub open spec fn sign_negative(self) -> bool {
        self.bits >= SIGN_BIT
    }

    /// Whether the pattern is a NaN.
    pub open spec fn nan(self) -> bool {
        self.magnitude() > INFINITY_BITS
    }

    /// Whether the pattern is a number other than an infinity.
    pub open spec fn finite(self) -> bool {
        self.magnitude() < INFINITY_BITS
    }

    /// The signed magnitude. For two patterns that are not NaN, the one with
    /// the smaller rank is the smaller number, and equal ranks are equal
    /// numbers (the two zeros share rank 0).
    pub open spec fn rank(self) -> int {
        if self.sign_negative() {
            -self.magnitude()
        } else {
            self.magnitude()
        }
    }

    /// Whether the pattern is a number strictly above zero (infinity counts).
    pub open spec fn positive(self) -> bool {
        !self.nan() && self.rank() > 0
    }

    /// Whether `self` is a strictly smaller number than `other`. False when
    /// either is a NaN.
    pub open spec fn below(self, other: Scalar) -> bool {
        !self.nan() && !other.nan() && self.rank() < other.rank()
    }

    /// The same magnitude with the sign bit flipped.
    pub open spec fn opposite(self) -> Scalar {
        if self.bits >= SIGN_BIT {
            Scalar { bits: (self.bits - SIGN_BIT) as u64 }
        } else {
            Scalar { bits: (self.bits + SIGN_BIT) as u64 }
        }
    }

    /// The larger of two quantities, a NaN giving way to the other one.
    /// Of two equal numbers it is the first.
    pub open spec fn larger(self, other: Scalar) -> Scalar {
        if self.nan() {
            other
        } else if other.nan() {
            self
        } else if self.rank() < other.rank() {
            other
        } else {
            self
        }
    }

    /// The smaller of two quantities, a NaN giving way to the other one.
    /// Of two equal numbers it is the first.
    pub open spec fn smaller(self, other: Scalar) -> Scalar {
        if self.nan() {
            other
        } else if other.nan() {
            self
        } else if other.rank() < self.rank() {
            other
        } else {
            self
        }
    }

    /// Wraps a bit pattern.
    pub fn from_bits(bits: u64) -> (r: Scalar)
        ensures
            r.bits == bits,
    {
        Scalar { bits }
    }

    /// The bit pattern.
    pub fn to_bits(self) -> (r: u64)
        ensures
            r == self.bits,
    {
        self.bits
    }

    fn magnitude_bits(self) -> (r: u64)
        ensures
            r == self.magnitude(),
            r < SIGN_BIT,
    {
        if self.bits >= SIGN_BIT {
            self.bits - SIGN_BIT
        } else {
            self.bits
        }
    }

    /// Whether the quantity is a NaN.
    pub fn is_nan(self) -> (r: bool)
        ensures
            r == self.nan(),
    {
        self.magnitude_bits() > INFINITY_BITS
    }

    /// Whether the quantity is neither an infinity nor a NaN.
    pub fn is_finite(self) -> (r: bool)
        ensures
            r == self.finite(),
    {
        self.magnitude_bits() < INFINITY_BITS
    }

    /// Whether the quantity is a number strictly above zero.
    pub fn is_positive(self) -> (r: bool)
        ensures
            r == self.positive(),
            r == (0 < self.bits <= INFINITY_BITS),
    {
        0 < self.bits && self.bits <= INFINITY_BITS
    }

    /// Whether `self` is a strictly smaller number than `other`.
    pub fn lt(self, other: Scalar) -> (r: bool)
        ensures
            r == self.below(other),
    {
        if self.is_nan() || other.is_nan() {
            return false;
        }
        let a: u64 = self.magnitude_bits();
        let b: u64 = other.magnitude_bits();
        if self.bits >= SIGN_BIT {
            if other.bits >= SIGN_BIT {
                b < a
            } else {
                a != 0 || b != 0
            }
        } else {
            if other.bits >= SIGN_BIT {
                false
            } else {
                a < b
            }
        }
    }

    /// The quantity with its sign flipped: the same magnitude, the other
    /// sign bit. Defined on every pattern, NaNs and zeros included.
    pub fn negated(self) -> (r: Scalar)
        ensures
            r == self.opposite(),
            r.bits == self.bits ^ SIGN_BIT,
    {
        let bits: u64 = self.bits;
        assert(bits >= 0x8000_0000_0000_0000u64 ==> bits ^ 0x8000_0000_0000_0000u64 == (bits
            - 0x8000_0000_0000_0000u64) as u64) by (bit_vector);
        assert(bits < 0x8000_0000_0000_0000u64 ==> bits ^ 0x8000_0000_0000_0000u64 == (bits
            + 0x8000_0000_0000_0000u64) as u64) by (bit_vector);
        Scalar { bits: bits ^ SIGN_BIT }
    }

    /// The larger of `self` and `other`; if one is a NaN, the other.
    pub fn max(self, other: Scalar) -> (r: Scalar)
        ensures
            r == self.larger(other),
    {
        if self.is_nan() {
            other
        } else if other.is_nan() {
            self
        } else if self.lt(other) {
            other
        } else {
            self
        }
    }

    /// The smaller of `self` and `other`; if one is a NaN, the other.
    pub fn min(self, other: Scalar) -> (r: Scalar)
        ensures
            r == self.smaller(other),
    {
        if self.is_nan() {
            other
        } else if other.is_nan() {
            self
        } else if other.lt(self) {
            other
        } else {
            self
        }
    }
}

/// Negating twice gives the quantity back, bit for bit.
pub proof fn lemma_opposite_involution(a: Scalar)
    ensures
        a.opposite().opposite() == a,
{
}

/// The opposite of a quantity has its magnitude and the other sign: it is a
/// NaN exactly when the quantity is, and otherwise it is the number as far
/// from zero on the other side.
pub proof fn lemma_opposite_mirrors(a: Scalar)
    ensures
        a.opposite().magnitude() == a.magnitude(),
        a.opposite().sign_negative() == !a.sign_negative(),
        a.opposite().rank() == -a.rank(),
        a.opposite().nan() == a.nan(),
        a.opposite().finite() == a.finite(),
{
}

} // verus!
