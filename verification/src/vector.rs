use vstd::prelude::*;

verus! {

/// Bit pattern of the sign of a scalar; the remaining 63 bits are its
/// magnitude.
pub const SIGN_BIT: u64 = 0x8000_0000_0000_0000;

/// Magnitude bits of positive infinity: every larger magnitude is not a
/// number.
pub const INFINITY_BITS: u64 = 0x7FF0_0000_0000_0000;

/// The number of values that the fraction of a scalar can take: two to the
/// power of 52, the width of the fraction in bits.
pub const FRACTION_RANGE: u64 = 0x0010_0000_0000_0000;

/// Bit pattern of the number one.
pub const ONE_BITS: u64 = 0x3FF0_0000_0000_0000;

/// Bit pattern of the number minus one.
pub const MINUS_ONE_BITS: u64 = 0xBFF0_0000_0000_0000;

/// A double-precision number in the IEEE 754 binary64 format, held as its 64
/// bits: one sign bit, then 63 bits of magnitude (exponent and fraction).
///
/// The library moves scalars about, negates them and compares them. It does
/// no arithmetic on them: that is left to the caller, who reads `bits`.
#[derive(Clone, Copy, Debug, PartialEq, Eq, Structural)]
pub struct Scalar {
    pub bits: u64,
}

impl Scalar {
    /// The lower 63 bits: exponent and fraction.
    pub open spec fn magnitude(&self) -> int {
        if self.bits < SIGN_BIT {
            self.bits as int
        } else {
            self.bits - SIGN_BIT
        }
    }

    /// The upper eleven bits of the magnitude: the exponent as it is stored.
    pub open spec fn exponent_field(&self) -> int {
        self.magnitude() / (FRACTION_RANGE as int)
    }

    /// The lower 52 bits of the magnitude: the fraction as it is stored.
    pub open spec fn fraction_field(&self) -> int {
        self.magnitude() % (FRACTION_RANGE as int)
    }

    /// The whole number `s` for which the size of a finite scalar is `s`
    /// times two to the power of `self.power()`: the fraction, with a
    /// leading one unless the exponent field is zero.
    pub open spec fn significand(&self) -> int {
        if self.exponent_field() == 0 {
            self.fraction_field()
        } else {
            self.fraction_field() + FRACTION_RANGE
        }
    }

    /// The power of two by which the significand of a finite scalar is to
    /// be multiplied.
    pub open spec fn power(&self) -> int {
        if self.exponent_field() == 0 {
            -1074
        } else {
            self.exponent_field() - 1075
        }
    }

    /// Whether the sign bit is set.
    pub open spec fn sign_set(&self) -> bool {
        self.bits >= SIGN_BIT
    }

    /// Whether the bits stand for no number at all.
    pub open spec fn nan(&self) -> bool {
        self.magnitude() > INFINITY_BITS
    }

    /// Whether the bits stand for zero, of either sign.
    pub open spec fn zero_valued(&self) -> bool {
        self.magnitude() == 0
    }

    /// Whether the bits stand for a number that is not infinite.
    pub open spec fn finite(&self) -> bool {
        self.magnitude() < INFINITY_BITS
    }

    /// Whether two scalars are equal as numbers: neither is a not-a-number,
    /// and they have the same bits or are both zero.
    pub open spec fn same_number(&self, other: &Scalar) -> bool {
        !self.nan() && !other.nan() && (self.bits == other.bits || (self.zero_valued()
            && other.zero_valued()))
    }

    /// The place of a scalar in the total order of all bit patterns:
    /// positive ones by rising magnitude, negative ones below them by
    /// falling magnitude.
    pub open spec fn order_key(&self) -> int {
        if self.sign_set() {
            -1 - self.magnitude()
        } else {
            self.magnitude()
        }
    }

    /// The scalar of the same magnitude and the opposite sign.
    pub open spec fn opposite(&self) -> Scalar {
        if self.bits < SIGN_BIT {
            Scalar { bits: (self.bits + SIGN_BIT) as u64 }
        } else {
            Scalar { bits: (self.bits - SIGN_BIT) as u64 }
        }
    }

    /// Whether this scalar is the smaller number of the two: both are
    /// numbers, they are not both zero, and this one comes first in the
    /// total order.
    pub open spec fn below(&self, other: &Scalar) -> bool {
        !self.nan() && !other.nan() && !(self.zero_valued() && other.zero_valued())
            && self.order_key() < other.order_key()
    }

    /// Whether this scalar is a number less than zero.
    pub open spec fn negative(&self) -> bool {
        self.sign_set() && !self.nan() && !self.zero_valued()
    }

    /// The scalar with the given bits.
    pub fn from_bits(bits: u64) -> (scalar: Scalar)
        ensures
            scalar.bits == bits,
    {
        Scalar { bits }
    }

    /// Positive zero.
    pub fn zero() -> (scalar: Scalar)
        ensures
            scalar.bits == 0,
            scalar.zero_valued(),
    {
        Scalar { bits: 0 }
    }

    /// The number one.
    pub fn one() -> (scalar: Scalar)
        ensures
            scalar.bits == ONE_BITS,
    {
        Scalar { bits: ONE_BITS }
    }

    /// The same magnitude with the opposite sign.
    pub fn negated(&self) -> (scalar: Scalar)
        ensures
            scalar == self.opposite(),
    {
        if self.bits < SIGN_BIT {
            Scalar { bits: self.bits + SIGN_BIT }
        } else {
            Scalar { bits: self.bits - SIGN_BIT }
        }
    }

    /// Whether the bits stand for no number at all.
    pub fn is_nan(&self) -> (nan: bool)
        ensures
            nan == self.nan(),
    {
        if self.bits < SIGN_BIT {
            self.bits > INFINITY_BITS
        } else {
            self.bits - SIGN_BIT > INFINITY_BITS
        }
    }

    /// Whether the scalar is a number that is not infinite.
    pub fn is_finite(&self) -> (finite: bool)
        ensures
            finite == self.finite(),
            finite == (!self.nan() && self.magnitude() != INFINITY_BITS),
    {
        if self.bits < SIGN_BIT {
            self.bits < INFINITY_BITS
        } else {
            self.bits - SIGN_BIT < INFINITY_BITS
        }
    }

    /// Whether the scalar is zero, of either sign.
    pub fn is_zero(&self) -> (zero: bool)
        ensures
            zero == self.zero_valued(),
    {
        self.bits == 0 || self.bits == SIGN_BIT
    }

    /// Whether the scalar is a number less than zero.
    pub fn is_negative(&self) -> (negative: bool)
        ensures
            negative == self.negative(),
            negative == self.below(&Scalar { bits: 0 }),
    {
        self.bits > SIGN_BIT && !self.is_nan()
    }

    /// Whether two scalars are equal as numbers.
    pub fn equals(&self, other: &Scalar) -> (equal: bool)
        ensures
            equal == self.same_number(other),
    {
        !self.is_nan() && !other.is_nan() && (self.bits == other.bits || (self.is_zero()
            && other.is_zero()))
    }

    /// Whether this scalar is the smaller number of the two.
    pub fn less_than(&self, other: &Scalar) -> (less: bool)
        ensures
            less == self.below(other),
    {
        !self.is_nan() && !other.is_nan() && !(self.is_zero() && other.is_zero())
            && self.total_order_key() < other.total_order_key()
    }

    /// The place of the scalar in the total order of all bit patterns.
    pub fn total_order_key(&self) -> (key: i64)
        ensures
            key == self.order_key(),
    {
        if self.bits < SIGN_BIT {
            self.bits as i64
        } else {
            -1 - ((self.bits - SIGN_BIT) as i64)
        }
    }
}

/// A point or direction in space.
#[derive(Clone, Copy, Debug, PartialEq, Eq, Structural)]
pub struct Vec3(pub Scalar, pub Scalar, pub Scalar);

impl Vec3 {
    /// Whether two vectors are equal as numbers, coordinate by coordinate.
    pub open spec fn same_point(&self, other: &Vec3) -> bool {
        self.0.same_number(&other.0) && self.1.same_number(&other.1) && self.2.same_number(
            &other.2,
        )
    }

    /// Whether all three coordinates are zero, of either sign.
    pub open spec fn zero_valued(&self) -> bool {
        self.0.zero_valued() && self.1.zero_valued() && self.2.zero_valued()
    }

    /// The vector whose coordinates are all zero.
    pub fn zero() -> (vector: Vec3)
        ensures
            vector == Vec3(Scalar { bits: 0 }, Scalar { bits: 0 }, Scalar { bits: 0 }),
    {
        Vec3(Scalar::zero(), Scalar::zero(), Scalar::zero())
    }

    /// The vector whose coordinates are all one.
    pub fn one() -> (vector: Vec3)
        ensures
            vector == Vec3(
                Scalar { bits: ONE_BITS },
                Scalar { bits: ONE_BITS },
                Scalar { bits: ONE_BITS },
            ),
    {
        Vec3(Scalar::one(), Scalar::one(), Scalar::one())
    }

    pub fn x(&self) -> (x: Scalar)
        ensures
            x == self.0,
    {
        self.0
    }

    pub fn y(&self) -> (y: Scalar)
        ensures
            y == self.1,
    {
        self.1
    }

    pub fn z(&self) -> (z: Scalar)
        ensures
            z == self.2,
    {
        self.2
    }

    /// Whether all three coordinates are zero, of either sign.
    pub fn is_zero(&self) -> (zero: bool)
        ensures
            zero == self.zero_valued(),
            zero == self.same_point(&Vec3(Scalar { bits: 0 }, Scalar { bits: 0 }, Scalar { bits: 0 })),
    {
        self.0.is_zero() && self.1.is_zero() && self.2.is_zero()
    }

    /// Whether two vectors are equal as numbers, coordinate by coordinate.
    pub fn equals(&self, other: &Vec3) -> (equal: bool)
        ensures
            equal == self.same_point(other),
    {
        self.0.equals(&other.0) && self.1.equals(&other.1) && self.2.equals(&other.2)
    }
}

/// Negating keeps the magnitude and flips the sign, so negating twice gives
/// the scalar back.
pub proof fn lemma_opposite(scalar: Scalar)
    ensures
        scalar.opposite().magnitude() == scalar.magnitude(),
        scalar.opposite().sign_set() == !scalar.sign_set(),
        scalar.opposite().opposite() == scalar,
{
}

/// The order key fits in 64 bits and tells any two bit patterns apart.
pub proof fn lemma_order_key_injective(a: Scalar, b: Scalar)
    ensures
        a.order_key() == b.order_key() <==> a == b,
        i64::MIN <= a.order_key() <= i64::MAX,
{
}

/// Among numbers, exactly one of three holds of any two: the first is
/// below the second, the second below the first, or they are the same
/// number.
pub proof fn lemma_below_trichotomy(a: Scalar, b: Scalar)
    requires
        !a.nan(),
        !b.nan(),
    ensures
        a.below(&b) || b.below(&a) || a.same_number(&b),
        !(a.below(&b) && b.below(&a)),
        !(a.below(&b) && a.same_number(&b)),
        !(b.below(&a) && a.same_number(&b)),
{
}

} // verus!
