//! Real numbers as bit patterns.
//!
//! The renderer never rounds: every sum, product, quotient and root is computed by the
//! caller, in IEEE 754 binary64 arithmetic, and handed to this crate as the 64 bits of the
//! result. What the crate does with such a value is exact on those bits: it compares,
//! picks the smaller or the larger of two, flips or clears the sign. This module defines
//! those operations and proves the order laws the rest of the crate leans on.

use vstd::prelude::*;

verus! {

/// The sign bit of a binary64 value.
pub const SIGN_BIT: u64 = 0x8000_0000_0000_0000;

/// The bits of positive infinity. A larger magnitude is a NaN.
pub const INFINITY_BITS: u64 = 0x7ff0_0000_0000_0000;

/// The bits of 1.0.
pub const ONE_BITS: u64 = 0x3ff0_0000_0000_0000;

/// The bits of the largest finite value.
pub const MAX_BITS: u64 = 0x7fef_ffff_ffff_ffff;

/// A binary64 value, held as its bits.
#[derive(Clone, Copy, Debug, PartialEq, Eq, Structural)]
pub struct Scalar {
    pub bits: u64,
}

impl Scalar {
    /// The bits without the sign bit.
    pub open spec fn magnitude(self) -> int {
        if self.bits >= SIGN_BIT {
            self.bits - SIGN_BIT
        } else {
            self.bits as int
        }
    }

    /// Whether the sign bit is set. True of `-0.0` and of NaNs with the bit set.
    pub open spec fn spec_is_negative(self) -> bool {
        self.bits >= SIGN_BIT
    }

    /// Whether the bits encode a NaN.
    pub open spec fn spec_is_nan(self) -> bool {
        self.magnitude() > INFINITY_BITS
    }

    /// The numeric order of the values that are not NaN: `a` is below `b` exactly when
    /// `a.key() < b.key()`. Binary64 is a sign and magnitude format, so the magnitude
    /// bits, negated under a set sign bit, order the values; both zeros have key 0.
    pub open spec fn key(self) -> int {
        if self.bits >= SIGN_BIT {
            -self.magnitude()
        } else {
            self.magnitude()
        }
    }

    /// A total order on all bit patterns that refines `key`: `-0.0` ranks just below
    /// `0.0`, and each NaN ranks beyond the infinity of its sign.
    pub open spec fn rank(self) -> int {
        if self.bits >= SIGN_BIT {
            -self.magnitude() - 1
        } else {
            self.magnitude()
        }
    }

    /// `self < other` as IEEE 754 compares: false when either is NaN.
    pub open spec fn spec_lt(self, other: Scalar) -> bool {
        !self.spec_is_nan() && !other.spec_is_nan() && self.key() < other.key()
    }

    /// `self <= other` as IEEE 754 compares: false when either is NaN.
    pub open spec fn spec_le(self, other: Scalar) -> bool {
        !self.spec_is_nan() && !other.spec_is_nan() && self.key() <= other.key()
    }

    /// `self > other` as IEEE 754 compares.
    pub open spec fn spec_gt(self, other: Scalar) -> bool {
        other.spec_lt(self)
    }

    /// `self >= other` as IEEE 754 compares.
    pub open spec fn spec_ge(self, other: Scalar) -> bool {
        other.spec_le(self)
    }

    /// `self == other` as IEEE 754 compares: the zeros are equal, a NaN equals nothing.
    pub open spec fn spec_equals(self, other: Scalar) -> bool {
        !self.spec_is_nan() && !other.spec_is_nan() && self.key() == other.key()
    }

    /// The smaller of two values. A NaN yields to the other operand; of the two zeros the
    /// negative one is the smaller; of two NaNs the one of lower rank is returned.
    pub open spec fn spec_min(self, other: Scalar) -> Scalar {
        if self.spec_is_nan() && other.spec_is_nan() {
            if self.rank() <= other.rank() {
                self
            } else {
                other
            }
        } else if self.spec_is_nan() {
            other
        } else if other.spec_is_nan() {
            self
        } else if self.rank() <= other.rank() {
            self
        } else {
            other
        }
    }

    /// The larger of two values. A NaN yields to the other operand; of the two zeros the
    /// positive one is the larger; of two NaNs the one of higher rank is returned.
    pub open spec fn spec_max(self, other: Scalar) -> Scalar {
        if self.spec_is_nan() && other.spec_is_nan() {
            if self.rank() >= other.rank() {
                self
            } else {
                other
            }
        } else if self.spec_is_nan() {
            other
        } else if other.spec_is_nan() {
            self
        } else if self.rank() >= other.rank() {
            self
        } else {
            other
        }
    }

    /// The value with its sign bit flipped.
    pub open spec fn spec_neg(self) -> Scalar {
        if self.bits >= SIGN_BIT {
            Scalar { bits: (self.bits - SIGN_BIT) as u64 }
        } else {
            Scalar { bits: (self.bits + SIGN_BIT) as u64 }
        }
    }

    /// The value with its sign bit cleared.
    pub open spec fn spec_abs(self) -> Scalar {
        Scalar { bits: self.magnitude() as u64 }
    }

    /// Positive zero.
    pub open spec fn spec_zero() -> Scalar {
        Scalar { bits: 0 }
    }

    /// One.
    pub open spec fn spec_one() -> Scalar {
        Scalar { bits: ONE_BITS }
    }

    /// Positive infinity.
    pub open spec fn spec_infinity() -> Scalar {
        Scalar { bits: INFINITY_BITS }
    }

    /// Negative infinity.
    pub open spec fn spec_neg_infinity() -> Scalar {
        Scalar { bits: (INFINITY_BITS + SIGN_BIT) as u64 }
    }

    /// The largest finite value.
    pub open spec fn spec_largest() -> Scalar {
        Scalar { bits: MAX_BITS }
    }

    /// The smallest finite value, the negative of the largest.
    pub open spec fn spec_smallest() -> Scalar {
        Scalar { bits: (MAX_BITS + SIGN_BIT) as u64 }
    }

    /// Wraps the bits of a binary64 value.
    pub fn from_bits(bits: u64) -> (r: Scalar)
        ensures
            r.bits == bits,
    {
        Scalar { bits }
    }

    /// The bits of the value.
    pub fn to_bits(self) -> (r: u64)
        ensures
            r == self.bits,
    {
        self.bits
    }

    #[verifier::when_used_as_spec(spec_zero)]
    pub fn zero() -> (r: Scalar)
        ensures
            r == Scalar::spec_zero(),
    {
        Scalar { bits: 0 }
    }

    #[verifier::when_used_as_spec(spec_one)]
    pub fn one() -> (r: Scalar)
        ensures
            r == Scalar::spec_one(),
    {
        Scalar { bits: ONE_BITS }
    }

    #[verifier::when_used_as_spec(spec_infinity)]
    pub fn infinity() -> (r: Scalar)
        ensures
            r == Scalar::spec_infinity(),
    {
        Scalar { bits: INFINITY_BITS }
    }

    #[verifier::when_used_as_spec(spec_neg_infinity)]
    pub fn neg_infinity() -> (r: Scalar)
        ensures
            r == Scalar::spec_neg_infinity(),
    {
        Scalar { bits: INFINITY_BITS + SIGN_BIT }
    }

    #[verifier::when_used_as_spec(spec_largest)]
    pub fn largest() -> (r: Scalar)
        ensures
            r == Scalar::spec_largest(),
    {
        Scalar { bits: MAX_BITS }
    }

    #[verifier::when_used_as_spec(spec_smallest)]
    pub fn smallest() -> (r: Scalar)
        ensures
            r == Scalar::spec_smallest(),
    {
        Scalar { bits: MAX_BITS + SIGN_BIT }
    }

    /// The magnitude bits, as a machine integer.
    fn magnitude_bits(self) -> (r: u64)
        ensures
            r == self.magnitude(),
            r < SIGN_BIT,
    {
        if self.bits >= SIGN_BIT {
            self.bits - SIGN_BIT
        } else {
            self.bits
        }
    }

    /// `key` as a machine integer.
    pub fn ordinal(self) -> (r: i64)
        ensures
            r == self.key(),
    {
        let m: u64 = self.magnitude_bits();
        if self.bits >= SIGN_BIT {
            -(m as i64)
        } else {
            m as i64
        }
    }

    /// `rank` as a machine integer.
    fn position(self) -> (r: i64)
        ensures
            r == self.rank(),
    {
        let m: u64 = self.magnitude_bits();
        if self.bits >= SIGN_BIT {
            -(m as i64) - 1
        } else {
            m as i64
        }
    }

    #[verifier::when_used_as_spec(spec_is_negative)]
    pub fn is_negative(self) -> (r: bool)
        ensures
            r == self.spec_is_negative(),
    {
        self.bits >= SIGN_BIT
    }

    #[verifier::when_used_as_spec(spec_is_nan)]
    pub fn is_nan(self) -> (r: bool)
        ensures
            r == self.spec_is_nan(),
    {
        self.magnitude_bits() > INFINITY_BITS
    }

    #[verifier::when_used_as_spec(spec_lt)]
    pub fn lt(self, other: Scalar) -> (r: bool)
        ensures
            r == self.spec_lt(other),
    {
        !self.is_nan() && !other.is_nan() && self.ordinal() < other.ordinal()
    }

    #[verifier::when_used_as_spec(spec_le)]
    pub fn le(self, other: Scalar) -> (r: bool)
        ensures
            r == self.spec_le(other),
    {
        !self.is_nan() && !other.is_nan() && self.ordinal() <= other.ordinal()
    }

    #[verifier::when_used_as_spec(spec_gt)]
    pub fn gt(self, other: Scalar) -> (r: bool)
        ensures
            r == self.spec_gt(other),
    {
        other.lt(self)
    }

    #[verifier::when_used_as_spec(spec_ge)]
    pub fn ge(self, other: Scalar) -> (r: bool)
        ensures
            r == self.spec_ge(other),
    {
        other.le(self)
    }

    #[verifier::when_used_as_spec(spec_equals)]
    pub fn equals(self, other: Scalar) -> (r: bool)
        ensures
            r == self.spec_equals(other),
    {
        !self.is_nan() && !other.is_nan() && self.ordinal() == other.ordinal()
    }

    #[verifier::when_used_as_spec(spec_min)]
    pub fn min(self, other: Scalar) -> (r: Scalar)
        ensures
            r == self.spec_min(other),
    {
        let a: bool = self.is_nan();
        let b: bool = other.is_nan();
        if a && !b {
            other
        } else if b && !a {
            self
        } else if self.position() <= other.position() {
            self
        } else {
            other
        }
    }

    #[verifier::when_used_as_spec(spec_max)]
    pub fn max(self, other: Scalar) -> (r: Scalar)
        ensures
            r == self.spec_max(other),
    {
        let a: bool = self.is_nan();
        let b: bool = other.is_nan();
        if a && !b {
            other
        } else if b && !a {
            self
        } else if self.position() >= other.position() {
            self
        } else {
            other
        }
    }

    #[verifier::when_used_as_spec(spec_neg)]
    pub fn neg(self) -> (r: Scalar)
        ensures
            r == self.spec_neg(),
    {
        if self.bits >= SIGN_BIT {
            Scalar { bits: self.bits - SIGN_BIT }
        } else {
            Scalar { bits: self.bits + SIGN_BIT }
        }
    }

    #[verifier::when_used_as_spec(spec_abs)]
    pub fn abs(self) -> (r: Scalar)
        ensures
            r == self.spec_abs(),
    {
        Scalar { bits: self.magnitude_bits() }
    }
}

/// Where a pattern stands in the order that `min` minimises: the values by rank, every
/// NaN above them.
pub open spec fn min_order(a: Scalar) -> int {
    if a.spec_is_nan() {
        a.rank() + 0x2_0000_0000_0000_0000
    } else {
        a.rank()
    }
}

/// Where a pattern stands in the order that `max` maximises: the values by rank, every
/// NaN below them.
pub open spec fn max_order(a: Scalar) -> int {
    if a.spec_is_nan() {
        a.rank() - 0x2_0000_0000_0000_0000
    } else {
        a.rank()
    }
}

/// Two patterns of the same rank are the same pattern.
pub proof fn lemma_rank_injective(a: Scalar, b: Scalar)
    ensures
        a.rank() == b.rank() <==> a == b,
        min_order(a) == min_order(b) <==> a == b,
        max_order(a) == max_order(b) <==> a == b,
{
}

/// `min` is the minimum of a total order on bit patterns, and `max` the maximum of
/// another: each returns one of its operands, the one that stands lower (higher).
pub proof fn lemma_min_max_select(a: Scalar, b: Scalar)
    ensures
        a.spec_min(b) == (if min_order(a) <= min_order(b) { a } else { b }),
        a.spec_max(b) == (if max_order(a) >= max_order(b) { a } else { b }),
{
}

/// `min` and `max` are commutative, associative and idempotent on all bit patterns.
pub proof fn lemma_min_max_lattice(a: Scalar, b: Scalar, c: Scalar)
    ensures
        a.spec_min(b) == b.spec_min(a),
        a.spec_max(b) == b.spec_max(a),
        a.spec_min(b).spec_min(c) == a.spec_min(b.spec_min(c)),
        a.spec_max(b).spec_max(c) == a.spec_max(b.spec_max(c)),
        a.spec_min(a) == a,
        a.spec_max(a) == a,
{
    lemma_min_max_select(a, b);
    lemma_min_max_select(b, a);
    lemma_min_max_select(b, c);
    lemma_min_max_select(a.spec_min(b), c);
    lemma_min_max_select(a, b.spec_min(c));
    lemma_min_max_select(a.spec_max(b), c);
    lemma_min_max_select(a, b.spec_max(c));
    lemma_rank_injective(a, b);
    lemma_rank_injective(b, c);
    lemma_rank_injective(a, c);
}

/// `min` bounds the operands that are not NaN from below, and `max` from above. The
/// result is NaN only when both operands are.
pub proof fn lemma_min_max_bounds(a: Scalar, b: Scalar)
    ensures
        !a.spec_is_nan() ==> a.spec_min(b).spec_le(a) && a.spec_le(a.spec_max(b)),
        !b.spec_is_nan() ==> a.spec_min(b).spec_le(b) && b.spec_le(a.spec_max(b)),
        a.spec_min(b).spec_is_nan() <==> a.spec_is_nan() && b.spec_is_nan(),
        a.spec_max(b).spec_is_nan() <==> a.spec_is_nan() && b.spec_is_nan(),
{
}

/// The comparisons are those of a total order on the values that are not NaN.
pub proof fn lemma_order(a: Scalar, b: Scalar, c: Scalar)
    ensures
        a.spec_lt(b) && b.spec_lt(c) ==> a.spec_lt(c),
        a.spec_le(b) && b.spec_le(c) ==> a.spec_le(c),
        a.spec_lt(b) && b.spec_le(c) ==> a.spec_lt(c),
        a.spec_le(b) && b.spec_lt(c) ==> a.spec_lt(c),
        a.spec_lt(b) ==> a.spec_le(b) && !b.spec_le(a),
        !a.spec_is_nan() && !b.spec_is_nan() ==> (a.spec_lt(b) || b.spec_le(a)),
        a.spec_le(b) && b.spec_le(a) <==> a.spec_equals(b),
        !a.spec_is_nan() ==> a.spec_le(a),
{
}

/// Negation reverses the order and leaves the magnitude; `abs` clears the sign.
pub proof fn lemma_neg_abs(a: Scalar, b: Scalar)
    ensures
        a.spec_neg().spec_neg() == a,
        a.spec_neg().key() == -a.key(),
        a.spec_neg().spec_is_nan() == a.spec_is_nan(),
        a.spec_lt(b) <==> b.spec_neg().spec_lt(a.spec_neg()),
        a.spec_abs().key() == a.magnitude(),
        a.spec_abs().key() >= 0,
        a.spec_abs() == (if a.spec_is_negative() { a.spec_neg() } else { a }),
{
}

} // verus!
