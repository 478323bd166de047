//! Finite double-precision numbers, held by their IEEE 754 bit patterns.
//!
//! Verified code never computes with floating point. It only has to carry
//! measurements around and to order them, and both can be done on the bit
//! pattern: among finite doubles, the numeric order is the order of the
//! sign-and-magnitude integers formed by the sign bit and the remaining 63
//! bits. That integer is the [`Real::key`] of a value.

use vstd::prelude::*;

verus! {

/// The sign bit of a double.
pub const SIGN_BIT: u64 = 0x8000_0000_0000_0000;

/// The bits of a double below the sign bit: exponent and fraction.
pub const MAGNITUDE_BITS: u64 = 0x7fff_ffff_ffff_ffff;

/// The exponent field of a double.
pub const EXPONENT_BITS: u64 = 0x7ff0_0000_0000_0000;

/// The bit pattern of the double 1.
pub const ONE_BITS: u64 = 0x3ff0_0000_0000_0000;

/// Whether `bits` is the pattern of a finite double: neither an infinity nor
/// a NaN, which are the patterns whose exponent field is all ones.
pub open spec fn is_finite(bits: u64) -> bool {
    bits & EXPONENT_BITS != EXPONENT_BITS
}

/// The integer that orders the pattern `bits` among the finite doubles: the
/// low 63 bits, negated where the sign bit is set. Both zeros have key 0.
pub open spec fn key_of(bits: u64) -> int {
    if bits & SIGN_BIT != 0 {
        -((bits & MAGNITUDE_BITS) as int)
    } else {
        (bits & MAGNITUDE_BITS) as int
    }
}

/// A finite double-precision number.
///
/// `==` on this type tells bit patterns apart, and so the two zeros; the
/// numeric comparisons are [`Real::equals`], [`Real::lt`], [`Real::le`] and
/// [`Real::gt`].
#[derive(Debug, Clone, Copy, PartialEq, Eq, Hash, Structural)]
pub struct Real {
    bits: u64,
}

impl Real {
    #[verifier::type_invariant]
    spec fn finite(self) -> bool {
        is_finite(self.bits)
    }

    /// The bit pattern of this number.
    pub closed spec fn bits(self) -> u64 {
        self.bits
    }

    /// The place of this number in the numeric order. Two numbers are
    /// numerically equal exactly when their keys are, and one is less than
    /// another exactly when its key is.
    pub open spec fn key(self) -> int {
        key_of(self.bits())
    }

    /// The number with the given bit pattern, unless the pattern is that of
    /// an infinity or a NaN.
    pub fn from_bits(bits: u64) -> (number: Option<Self>)
        ensures
            number is Some <==> is_finite(bits),
            number is Some ==> number.unwrap().bits() == bits,
    {
        if bits & EXPONENT_BITS != EXPONENT_BITS {
            Some(Real { bits })
        } else {
            None
        }
    }

    /// The bit pattern of this number, which is always that of a finite
    /// double.
    pub fn to_bits(self) -> (bits: u64)
        ensures
            bits == self.bits(),
            is_finite(bits),
    {
        proof {
            use_type_invariant(&self);
        }
        self.bits
    }

    /// Positive zero.
    pub fn zero() -> (number: Self)
        ensures
            number.bits() == 0,
            number.key() == 0,
    {
        assert(0u64 & EXPONENT_BITS != EXPONENT_BITS) by (bit_vector);
        assert(0u64 & SIGN_BIT == 0 && 0u64 & MAGNITUDE_BITS == 0) by (bit_vector);
        Real { bits: 0 }
    }

    /// The number one.
    pub fn one() -> (number: Self)
        ensures
            number.bits() == ONE_BITS,
            number.key() == ONE_BITS,
    {
        assert(ONE_BITS & EXPONENT_BITS != EXPONENT_BITS) by (bit_vector);
        assert(ONE_BITS & SIGN_BIT == 0 && ONE_BITS & MAGNITUDE_BITS == ONE_BITS) by (bit_vector);
        Real { bits: ONE_BITS }
    }

    /// Whether this number lies between zero and one, both included.
    pub open spec fn probable(self) -> bool {
        0 <= self.key() <= ONE_BITS
    }

    /// Whether this number lies between zero and one, both included.
    pub fn is_probability(self) -> (within: bool)
        ensures
            within == self.probable(),
    {
        let key = self.ordinal();
        0 <= key && key <= 0x3ff0_0000_0000_0000
    }

    /// The key as a machine integer.
    fn ordinal(self) -> (k: i64)
        ensures
            k == self.key(),
    {
        let bits: u64 = self.bits;
        let magnitude: u64 = bits & MAGNITUDE_BITS;
        assert(bits & MAGNITUDE_BITS <= MAGNITUDE_BITS) by (bit_vector);
        if bits & SIGN_BIT != 0 {
            -(magnitude as i64)
        } else {
            magnitude as i64
        }
    }

    /// Whether this number is numerically less than `other`.
    pub fn lt(self, other: Self) -> (less: bool)
        ensures
            less == (self.key() < other.key()),
    {
        self.ordinal() < other.ordinal()
    }

    /// Whether this number is numerically less than or equal to `other`.
    pub fn le(self, other: Self) -> (at_most: bool)
        ensures
            at_most == (self.key() <= other.key()),
    {
        self.ordinal() <= other.ordinal()
    }

    /// Whether this number is numerically greater than `other`.
    pub fn gt(self, other: Self) -> (greater: bool)
        ensures
            greater == (self.key() > other.key()),
    {
        self.ordinal() > other.ordinal()
    }

    /// Whether this number is numerically equal to `other`. The two zeros
    /// are equal in this sense though their bit patterns differ.
    pub fn equals(self, other: Self) -> (same: bool)
        ensures
            same == (self.key() == other.key()),
    {
        self.ordinal() == other.ordinal()
    }
}

/// The key and the finiteness of a bit pattern in plain arithmetic: the
/// sign bit is worth two to the 63rd, and the exponent is the eleven bits
/// below it.
pub proof fn lemma_key_arithmetic(bits: u64)
    ensures
        key_of(bits) == if bits < SIGN_BIT {
            bits as int
        } else {
            -(bits - SIGN_BIT)
        },
        is_finite(bits) <==> (bits / 0x10_0000_0000_0000) % 0x800 != 0x7ff,
{
    assert(bits < SIGN_BIT ==> bits & SIGN_BIT == 0 && bits & MAGNITUDE_BITS == bits)
        by (bit_vector);
    assert(bits >= SIGN_BIT ==> bits & SIGN_BIT != 0 && (bits & MAGNITUDE_BITS) + SIGN_BIT
        == bits) by (bit_vector);
    assert((bits & EXPONENT_BITS != EXPONENT_BITS) <==> (bits / 0x10_0000_0000_0000) % 0x800
        != 0x7ff) by (bit_vector);
}

/// Numerically equal numbers have the same bit pattern, unless both are
/// zero.
pub proof fn lemma_equal_keys(a: u64, b: u64)
    requires
        key_of(a) == key_of(b),
        key_of(a) != 0,
    ensures
        a == b,
{
    assert(a == (a & SIGN_BIT) | (a & MAGNITUDE_BITS)) by (bit_vector);
    assert(b == (b & SIGN_BIT) | (b & MAGNITUDE_BITS)) by (bit_vector);
    assert(a & SIGN_BIT == 0 || a & SIGN_BIT == SIGN_BIT) by (bit_vector);
    assert(b & SIGN_BIT == 0 || b & SIGN_BIT == SIGN_BIT) by (bit_vector);
}

} // verus!
