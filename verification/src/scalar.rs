use vstd::prelude::*;

verus! {

/// The bit that carries the sign of a binary32 number.
pub const SIGN_BIT: u32 = 0x8000_0000;

/// The bit pattern of positive infinity; every larger magnitude is a NaN.
pub const INFINITY_BITS: u32 = 0x7f80_0000;

/// A real number of the renderer, held as the bit pattern of an IEEE-754
/// binary32 value.
///
/// The library never does arithmetic on scalars. It moves them, changes their
/// sign and compares them, and all of that is exact on the bit pattern: a
/// binary32 number is a sign and a magnitude, and among numbers that are not
/// NaN a larger magnitude pattern is a larger magnitude.
#[derive(Clone, Copy, Debug)]
pub struct Scalar {
    pub bits: u32,
}

impl Scalar {
    /// The sign bit is set.
    pub open spec fn negative(self) -> bool {
        self.bits >= SIGN_BIT
    }

    /// The pattern without its sign bit.
    pub open spec fn magnitude(self) -> int {
        if self.negative() {
            self.bits - SIGN_BIT
        } else {
            self.bits as int
        }
    }

    /// Not a number: the exponent is all ones and the fraction is not zero.
    pub open spec fn nan(self) -> bool {
        self.magnitude() > INFINITY_BITS
    }

    /// An integer that orders the numbers as their values do. Both zeros have
    /// key 0; it means nothing for a NaN.
    pub open spec fn key(self) -> int {
        if self.negative() {
            -self.magnitude()
        } else {
            self.magnitude()
        }
    }

    /// An integer that orders all patterns as IEEE-754 `totalOrder` does:
    /// negative NaNs, negative numbers, -0, +0, positive numbers, positive NaNs.
    pub open spec fn total_key(self) -> int {
        if self.negative() {
            -self.magnitude() - 1
        } else {
            self.magnitude()
        }
    }

    /// `self < other` as numbers; false when either is a NaN.
    pub open spec fn lt_spec(self, other: Scalar) -> bool {
        !self.nan() && !other.nan() && self.key() < other.key()
    }

    /// `self <= other` as numbers; false when either is a NaN.
    pub open spec fn le_spec(self, other: Scalar) -> bool {
        !self.nan() && !other.nan() && self.key() <= other.key()
    }

    /// The smaller of two numbers, a NaN being passed over for the other
    /// operand; of two equal numbers, `self`.
    pub open spec fn min_spec(self, other: Scalar) -> Scalar {
        if self.nan() {
            other
        } else if other.lt_spec(self) {
            other
        } else {
            self
        }
    }

    /// The larger of two numbers, a NaN being passed over for the other
    /// operand; of two equal numbers, `self`.
    pub open spec fn max_spec(self, other: Scalar) -> Scalar {
        if self.nan() {
            other
        } else if self.lt_spec(other) {
            other
        } else {
            self
        }
    }

    /// The same magnitude with the sign bit cleared.
    pub open spec fn abs_spec(self) -> Scalar {
        Scalar { bits: self.magnitude() as u32 }
    }

    /// The same magnitude with the sign bit flipped.
    pub open spec fn neg_spec(self) -> Scalar {
        if self.negative() {
            Scalar { bits: (self.bits - SIGN_BIT) as u32 }
        } else {
            Scalar { bits: (self.bits + SIGN_BIT) as u32 }
        }
    }

    pub fn from_bits(bits: u32) -> (s: Scalar)
        ensures
            s.bits == bits,
    {
        Scalar { bits }
    }

    pub fn to_bits(self) -> (bits: u32)
        ensures
            bits == self.bits,
    {
        self.bits
    }

    /// 0.0
    pub fn zero() -> (s: Scalar)
        ensures
            s.bits == 0,
    {
        Scalar { bits: 0 }
    }

    /// 1.0
    pub fn one() -> (s: Scalar)
        ensures
            s.bits == 0x3f80_0000,
    {
        Scalar { bits: 0x3f80_0000 }
    }

    /// Positive infinity.
    pub fn infinity() -> (s: Scalar)
        ensures
            s.bits == INFINITY_BITS,
    {
        Scalar { bits: INFINITY_BITS }
    }

    /// Negative infinity.
    pub fn neg_infinity() -> (s: Scalar)
        ensures
            s.bits == 0xff80_0000,
    {
        Scalar { bits: 0xff80_0000 }
    }

    /// The largest finite number.
    pub fn largest() -> (s: Scalar)
        ensures
            s.bits == 0x7f7f_ffff,
    {
        Scalar { bits: 0x7f7f_ffff }
    }

    pub fn is_nan(self) -> (b: bool)
        ensures
            b == self.nan(),
    {
        self.unsigned_part() > INFINITY_BITS
    }

    fn unsigned_part(self) -> (m: u32)
        ensures
            m == self.magnitude(),
    {
        if self.bits >= SIGN_BIT {
            self.bits - SIGN_BIT
        } else {
            self.bits
        }
    }

    fn signed_key(self) -> (k: i64)
        ensures
            k == self.key(),
    {
        let m: i64 = self.unsigned_part() as i64;
        if self.bits >= SIGN_BIT {
            -m
        } else {
            m
        }
    }

    pub fn lt(self, other: Scalar) -> (b: bool)
        ensures
            b == self.lt_spec(other),
    {
        !self.is_nan() && !other.is_nan() && self.signed_key() < other.signed_key()
    }

    pub fn le(self, other: Scalar) -> (b: bool)
        ensures
            b == self.le_spec(other),
    {
        !self.is_nan() && !other.is_nan() && self.signed_key() <= other.signed_key()
    }

    pub fn gt(self, other: Scalar) -> (b: bool)
        ensures
            b == other.lt_spec(self),
    {
        other.lt(self)
    }

    pub fn ge(self, other: Scalar) -> (b: bool)
        ensures
            b == other.le_spec(self),
    {
        other.le(self)
    }

    /// `self` comes before `other`, or is the same pattern, in the total order
    /// of all patterns.
    pub fn total_le(self, other: Scalar) -> (b: bool)
        ensures
            b == (self.total_key() <= other.total_key()),
    {
        let a: i64 = self.unsigned_part() as i64;
        let a: i64 = if self.bits >= SIGN_BIT {
            -a - 1
        } else {
            a
        };
        let b: i64 = other.unsigned_part() as i64;
        let b: i64 = if other.bits >= SIGN_BIT {
            -b - 1
        } else {
            b
        };
        a <= b
    }

    pub fn min(self, other: Scalar) -> (m: Scalar)
        ensures
            m == self.min_spec(other),
    {
        if self.is_nan() {
            other
        } else if other.lt(self) {
            other
        } else {
            self
        }
    }

    pub fn max(self, other: Scalar) -> (m: Scalar)
        ensures
            m == self.max_spec(other),
    {
        if self.is_nan() {
            other
        } else if self.lt(other) {
            other
        } else {
            self
        }
    }

    pub fn abs(self) -> (a: Scalar)
        ensures
            a == self.abs_spec(),
    {
        Scalar { bits: self.unsigned_part() }
    }

    pub fn neg(self) -> (n: Scalar)
        ensures
            n == self.neg_spec(),
    {
        if self.bits >= SIGN_BIT {
            Scalar { bits: self.bits - SIGN_BIT }
        } else {
            Scalar { bits: self.bits + SIGN_BIT }
        }
    }
}

/// `<` is a strict order on the numbers: nothing is below itself, and it is
/// transitive.
pub proof fn lemma_lt_strict_order(a: Scalar, b: Scalar, c: Scalar)
    ensures
        !a.lt_spec(a),
        a.lt_spec(b) && b.lt_spec(c) ==> a.lt_spec(c),
        a.lt_spec(b) ==> !b.lt_spec(a),
{
}

/// Of two numbers, neither a NaN, exactly one of `a < b`, `b <= a` holds, and
/// `<=` is `<` or equal keys.
pub proof fn lemma_lt_le(a: Scalar, b: Scalar)
    ensures
        !a.nan() && !b.nan() ==> (a.lt_spec(b) <==> !b.le_spec(a)),
        a.le_spec(b) <==> (a.lt_spec(b) || (!a.nan() && !b.nan() && a.key() == b.key())),
        a.nan() || b.nan() ==> !a.lt_spec(b) && !a.le_spec(b),
{
}

/// The total order is a linear order on bit patterns: two patterns with the
/// same key are the same pattern.
pub proof fn lemma_total_key_injective(a: Scalar, b: Scalar)
    ensures
        a.total_key() == b.total_key() <==> a.bits == b.bits,
{
}

/// Among numbers, the total order refines the numeric one: what is smaller as
/// a number comes first in the total order.
pub proof fn lemma_total_order_refines(a: Scalar, b: Scalar)
    ensures
        a.lt_spec(b) ==> a.total_key() < b.total_key(),
{
}

/// `min` and `max` return one of their operands and never a NaN unless both
/// operands are; the minimum is not above either number and the maximum not
/// below.
pub proof fn lemma_min_max(a: Scalar, b: Scalar)
    ensures
        a.min_spec(b) == a || a.min_spec(b) == b,
        a.max_spec(b) == a || a.max_spec(b) == b,
        a.min_spec(b).nan() ==> a.nan() && b.nan(),
        a.max_spec(b).nan() ==> a.nan() && b.nan(),
        !a.nan() && !b.nan() ==> a.min_spec(b).le_spec(a) && a.min_spec(b).le_spec(b),
        !a.nan() && !b.nan() ==> a.le_spec(a.max_spec(b)) && b.le_spec(a.max_spec(b)),
{
}

/// Changing the sign twice gives the pattern back, negation mirrors the key
/// and the absolute value has the key's absolute value.
pub proof fn lemma_neg_abs(a: Scalar)
    ensures
        a.neg_spec().neg_spec() == a,
        a.neg_spec().key() == -a.key(),
        a.neg_spec().nan() == a.nan(),
        a.abs_spec().key() == if a.key() < 0 { -a.key() } else { a.key() },
        a.abs_spec().nan() == a.nan(),
        !a.abs_spec().negative(),
{
}

} // verus!
