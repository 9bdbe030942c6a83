//! Single-precision numbers as bit patterns.
//!
//! Every quantity the renderer compares (ray parameters, cosines,
//! discriminants, radiance) is an IEEE 754 binary32 number. This module holds
//! such a number as its 32 bits and gives the comparisons and the sign
//! operations their exact meaning over an integer order, so that every decision
//! built on them can be stated and proved. Rounding arithmetic is not done
//! here: callers compute sums, products, quotients and roots and hand in the
//! resulting bits.

use vstd::arithmetic::div_mod::{
    lemma_basic_div, lemma_div_is_ordered, lemma_div_multiples_vanish,
    lemma_div_multiples_vanish_quotient,
};
use vstd::arithmetic::power2::{
    lemma2_to64, lemma_pow2_adds, lemma_pow2_pos, lemma_pow2_strictly_increases, lemma_pow2_unfold,
    pow2,
};
use vstd::prelude::*;

verus! {

/// The sign bit of a pattern.
pub const SIGN_BIT: u32 = 0x8000_0000;

/// The magnitude bits of positive infinity; every larger magnitude is a NaN.
pub const INFINITY_BITS: u32 = 0x7F80_0000;

/// The bits of `1.0`.
pub const ONE_BITS: u32 = 0x3F80_0000;

/// The bits of the largest finite number.
pub const MAX_BITS: u32 = 0x7F7F_FFFF;

/// The bits of the gap between `1.0` and the next larger number, `2^-23`.
pub const EPSILON_BITS: u32 = 0x3400_0000;

/// The bits of the quiet NaN that operations here produce.
pub const NAN_BITS: u32 = 0x7FC0_0000;

/// The weight of the lowest exponent bit: the fraction lies below it.
pub const FRACTION_RANGE: u32 = 0x80_0000;

/// The bits of `256.0`, the least number beyond a byte.
pub const BYTE_RANGE_BITS: u32 = 0x4380_0000;

/// A single-precision number, held as its bit pattern.
///
/// `==` on this type compares patterns, so it tells `0.0` from `-0.0` and finds
/// a NaN equal to itself. The comparisons of numbers are [`Scalar::lt`] and
/// [`Scalar::le`].
#[derive(Clone, Copy, Debug, PartialEq, Eq)]
pub struct Scalar {
    pub bits: u32,
}

impl Scalar {
    /// The pattern without its sign bit.
    pub open spec fn magnitude(self) -> int {
        if self.bits >= SIGN_BIT {
            self.bits - SIGN_BIT
        } else {
            self.bits as int
        }
    }

    /// Whether the sign bit is set. True of `-0.0` and of NaNs with the bit set.
    pub open spec fn sign_negative(self) -> bool {
        self.bits >= SIGN_BIT
    }

    pub open spec fn spec_is_nan(self) -> bool {
        self.magnitude() > INFINITY_BITS
    }

    pub open spec fn spec_is_finite(self) -> bool {
        self.magnitude() < INFINITY_BITS
    }

    /// The place of a number on the number line, counted in representable
    /// steps from zero. Both zeros have ordinal 0, the infinities have the
    /// extreme ordinals. Meaningless for a NaN.
    pub open spec fn ordinal(self) -> int {
        if self.sign_negative() {
            -self.magnitude()
        } else {
            self.magnitude()
        }
    }

    /// The exponent field of the pattern.
    pub open spec fn exponent(self) -> int {
        self.magnitude() / (FRACTION_RANGE as int)
    }

    /// The fraction field of the pattern.
    pub open spec fn fraction(self) -> int {
        self.magnitude() % (FRACTION_RANGE as int)
    }

    /// The absolute value of the number, in units of `2^-149`, the least
    /// positive number: the fraction alone where the exponent field is zero,
    /// and otherwise the fraction with its leading one, doubled once for each
    /// step of the exponent above one. An integer for every finite number;
    /// for an infinity, a value beyond that of every finite number.
    pub open spec fn scaled_magnitude(self) -> int {
        if self.exponent() == 0 {
            self.fraction()
        } else {
            (FRACTION_RANGE + self.fraction()) * pow2((self.exponent() - 1) as nat)
        }
    }

    /// The number itself, in units of `2^-149`. Meaningless for a NaN.
    pub open spec fn scaled(self) -> int {
        if self.sign_negative() {
            -self.scaled_magnitude()
        } else {
            self.scaled_magnitude()
        }
    }

    /// `self < other` as IEEE 754 defines it: false when either is a NaN.
    pub open spec fn spec_lt(self, other: Scalar) -> bool {
        !self.spec_is_nan() && !other.spec_is_nan() && self.ordinal() < other.ordinal()
    }

    /// `self <= other` as IEEE 754 defines it: false when either is a NaN.
    pub open spec fn spec_le(self, other: Scalar) -> bool {
        !self.spec_is_nan() && !other.spec_is_nan() && self.ordinal() <= other.ordinal()
    }

    /// `self == other` as IEEE 754 defines it: the zeros are equal, a NaN
    /// equals nothing.
    pub open spec fn same_value(self, other: Scalar) -> bool {
        !self.spec_is_nan() && !other.spec_is_nan() && self.ordinal() == other.ordinal()
    }

    /// `self > 0`.
    pub open spec fn spec_is_positive(self) -> bool {
        !self.spec_is_nan() && self.ordinal() > 0
    }

    /// `self < 0`.
    pub open spec fn spec_is_negative(self) -> bool {
        !self.spec_is_nan() && self.ordinal() < 0
    }

    pub open spec fn spec_zero() -> Scalar {
        Scalar { bits: 0 }
    }

    pub open spec fn spec_one() -> Scalar {
        Scalar { bits: ONE_BITS }
    }

    pub open spec fn spec_neg_one() -> Scalar {
        Scalar { bits: 0xBF80_0000 }
    }

    pub open spec fn spec_nan() -> Scalar {
        Scalar { bits: NAN_BITS }
    }

    pub open spec fn spec_largest() -> Scalar {
        Scalar { bits: MAX_BITS }
    }

    pub open spec fn spec_smallest() -> Scalar {
        Scalar { bits: 0xFF7F_FFFF }
    }

    pub open spec fn spec_epsilon() -> Scalar {
        Scalar { bits: EPSILON_BITS }
    }

    pub open spec fn spec_abs(self) -> Scalar {
        Scalar { bits: self.magnitude() as u32 }
    }

    pub open spec fn spec_signum(self) -> Scalar {
        if self.spec_is_nan() {
            Scalar::spec_nan()
        } else if self.sign_negative() {
            Scalar::spec_neg_one()
        } else {
            Scalar::spec_one()
        }
    }

    pub open spec fn spec_max(self, other: Scalar) -> Scalar {
        if self.spec_is_nan() || self.spec_lt(other) {
            other
        } else {
            self
        }
    }

    /// The number with the given bit pattern.
    pub fn from_bits(bits: u32) -> (r: Scalar)
        ensures
            r.bits == bits,
    {
        Scalar { bits }
    }

    /// The bit pattern of the number.
    pub fn to_bits(self) -> (r: u32)
        ensures
            r == self.bits,
    {
        self.bits
    }

    /// `0.0`.
    #[verifier::when_used_as_spec(spec_zero)]
    pub fn zero() -> (r: Scalar)
        ensures
            r == Scalar::spec_zero(),
    {
        Scalar { bits: 0 }
    }

    /// `1.0`.
    #[verifier::when_used_as_spec(spec_one)]
    pub fn one() -> (r: Scalar)
        ensures
            r == Scalar::spec_one(),
    {
        Scalar { bits: ONE_BITS }
    }

    /// `-1.0`.
    #[verifier::when_used_as_spec(spec_neg_one)]
    pub fn neg_one() -> (r: Scalar)
        ensures
            r == Scalar::spec_neg_one(),
    {
        Scalar { bits: 0xBF80_0000 }
    }

    /// A quiet NaN.
    #[verifier::when_used_as_spec(spec_nan)]
    pub fn nan() -> (r: Scalar)
        ensures
            r == Scalar::spec_nan(),
    {
        Scalar { bits: NAN_BITS }
    }

    /// The largest finite number.
    #[verifier::when_used_as_spec(spec_largest)]
    pub fn largest() -> (r: Scalar)
        ensures
            r == Scalar::spec_largest(),
    {
        Scalar { bits: MAX_BITS }
    }

    /// The smallest finite number, the negative of the largest.
    #[verifier::when_used_as_spec(spec_smallest)]
    pub fn smallest() -> (r: Scalar)
        ensures
            r == Scalar::spec_smallest(),
    {
        Scalar { bits: 0xFF7F_FFFF }
    }

    /// The gap between `1.0` and the next larger number.
    #[verifier::when_used_as_spec(spec_epsilon)]
    pub fn epsilon() -> (r: Scalar)
        ensures
            r == Scalar::spec_epsilon(),
    {
        Scalar { bits: EPSILON_BITS }
    }

    fn magnitude_bits(self) -> (r: u32)
        ensures
            r == self.magnitude(),
    {
        if self.bits >= SIGN_BIT {
            self.bits - SIGN_BIT
        } else {
            self.bits
        }
    }

    fn ordinal_value(self) -> (r: i64)
        ensures
            r == self.ordinal(),
    {
        let m: i64 = self.magnitude_bits() as i64;
        if self.bits >= SIGN_BIT {
            -m
        } else {
            m
        }
    }

    /// Whether the number is a NaN.
    #[verifier::when_used_as_spec(spec_is_nan)]
    pub fn is_nan(self) -> (r: bool)
        ensures
            r == self.spec_is_nan(),
    {
        self.magnitude_bits() > INFINITY_BITS
    }

    /// Whether the number is neither an infinity nor a NaN.
    #[verifier::when_used_as_spec(spec_is_finite)]
    pub fn is_finite(self) -> (r: bool)
        ensures
            r == self.spec_is_finite(),
    {
        self.magnitude_bits() < INFINITY_BITS
    }

    /// `self < other`.
    #[verifier::when_used_as_spec(spec_lt)]
    pub fn lt(self, other: Scalar) -> (r: bool)
        ensures
            r == self.spec_lt(other),
    {
        !self.is_nan() && !other.is_nan() && self.ordinal_value() < other.ordinal_value()
    }

    /// `self <= other`.
    #[verifier::when_used_as_spec(spec_le)]
    pub fn le(self, other: Scalar) -> (r: bool)
        ensures
            r == self.spec_le(other),
    {
        !self.is_nan() && !other.is_nan() && self.ordinal_value() <= other.ordinal_value()
    }

    /// `self > 0`.
    #[verifier::when_used_as_spec(spec_is_positive)]
    pub fn is_positive(self) -> (r: bool)
        ensures
            r == self.spec_is_positive(),
            r == Scalar::spec_zero().spec_lt(self),
    {
        !self.is_nan() && self.ordinal_value() > 0
    }

    /// `self < 0`.
    #[verifier::when_used_as_spec(spec_is_negative)]
    pub fn is_negative(self) -> (r: bool)
        ensures
            r == self.spec_is_negative(),
            r == self.spec_lt(Scalar::spec_zero()),
    {
        !self.is_nan() && self.ordinal_value() < 0
    }

    /// Whether the sign bit is set, as it is in `-0.0`.
    pub fn is_sign_negative(self) -> (r: bool)
        ensures
            r == self.sign_negative(),
    {
        self.bits >= SIGN_BIT
    }

    /// `|self|`: the same magnitude with the sign bit cleared.
    #[verifier::when_used_as_spec(spec_abs)]
    pub fn abs(self) -> (r: Scalar)
        ensures
            r == self.spec_abs(),
            r.magnitude() == self.magnitude(),
            !r.sign_negative(),
    {
        Scalar { bits: self.magnitude_bits() }
    }

    /// `1.0` with the sign bit of `self`, so `-1.0` for `-0.0`; a NaN for a NaN.
    #[verifier::when_used_as_spec(spec_signum)]
    pub fn signum(self) -> (r: Scalar)
        ensures
            r == self.spec_signum(),
    {
        if self.is_nan() {
            Scalar::nan()
        } else if self.bits >= SIGN_BIT {
            Scalar::neg_one()
        } else {
            Scalar::one()
        }
    }

    /// The greater of two numbers. A NaN loses to a number; of two equal
    /// values `self` is returned.
    #[verifier::when_used_as_spec(spec_max)]
    pub fn max(self, other: Scalar) -> (r: Scalar)
        ensures
            r == self.spec_max(other),
            r == self || r == other,
            !self.spec_is_nan() ==> self.spec_le(r),
            !other.spec_is_nan() ==> other.spec_le(r),
            r.spec_is_nan() <==> self.spec_is_nan() && other.spec_is_nan(),
    {
        if self.is_nan() || self.lt(other) {
            other
        } else {
            self
        }
    }
}

/// Among patterns that are not NaNs, a greater magnitude stands for a greater
/// absolute value.
proof fn lemma_magnitude_order(a: Scalar, b: Scalar)
    requires
        !a.spec_is_nan(),
        !b.spec_is_nan(),
        a.magnitude() < b.magnitude(),
    ensures
        0 <= a.scaled_magnitude() < b.scaled_magnitude(),
{
    let range = FRACTION_RANGE as int;
    let (ea, fa) = (a.exponent(), a.fraction());
    let (eb, fb) = (b.exponent(), b.fraction());
    assert(a.magnitude() == ea * range + fa && 0 <= fa < range && 0 <= ea);
    assert(b.magnitude() == eb * range + fb && 0 <= fb < range && 0 <= eb);
    assert(ea <= eb) by (nonlinear_arith)
        requires
            ea * range + fa < eb * range + fb,
            0 <= fa < range,
            0 <= fb < range,
    ;
    if ea == eb {
        if ea > 0 {
            let p = pow2((ea - 1) as nat) as int;
            lemma_pow2_pos((ea - 1) as nat);
            assert(0 <= (range + fa) * p < (range + fb) * p) by (nonlinear_arith)
                requires
                    0 <= fa < fb,
                    0 < p,
                    0 < range,
            ;
        }
    } else {
        let pb = pow2((eb - 1) as nat) as int;
        lemma_pow2_pos((eb - 1) as nat);
        assert(range * pb <= (range + fb) * pb) by (nonlinear_arith)
            requires
                0 <= fb,
                0 < pb,
        ;
        if ea == 0 {
            assert(range <= range * pb) by (nonlinear_arith)
                requires
                    1 <= pb,
                    0 < range,
            ;
        } else {
            let pa = pow2((ea - 1) as nat) as int;
            lemma_pow2_pos((ea - 1) as nat);
            lemma_pow2_unfold(ea as nat);
            if ea < eb - 1 {
                lemma_pow2_strictly_increases(ea as nat, (eb - 1) as nat);
            }
            assert(2 * pa <= pb);
            assert(0 <= (range + fa) * pa < range * pb) by (nonlinear_arith)
                requires
                    0 <= fa < range,
                    0 < pa,
                    2 * pa <= pb,
            ;
        }
    }
}

/// Only zero has the absolute value zero.
proof fn lemma_magnitude_zero(a: Scalar)
    ensures
        0 <= a.scaled_magnitude(),
        a.scaled_magnitude() == 0 <==> a.magnitude() == 0,
{
    let range = FRACTION_RANGE as int;
    if a.exponent() > 0 {
        lemma_pow2_pos((a.exponent() - 1) as nat);
        let p = pow2((a.exponent() - 1) as nat) as int;
        assert((range + a.fraction()) * p > 0) by (nonlinear_arith)
            requires
                0 <= a.fraction(),
                0 < range,
                0 < p,
        ;
    }
}

/// The order of the patterns is the order of the numbers they stand for:
/// of two numbers, neither a NaN, one has the lesser ordinal exactly when it
/// is the lesser number, and they have the same ordinal exactly when they are
/// the same number.
pub proof fn lemma_order_is_value_order(a: Scalar, b: Scalar)
    requires
        !a.spec_is_nan(),
        !b.spec_is_nan(),
    ensures
        a.spec_lt(b) <==> a.scaled() < b.scaled(),
        a.spec_le(b) <==> a.scaled() <= b.scaled(),
        a.same_value(b) <==> a.scaled() == b.scaled(),
{
    lemma_magnitude_zero(a);
    lemma_magnitude_zero(b);
    if a.magnitude() < b.magnitude() {
        lemma_magnitude_order(a, b);
    } else if b.magnitude() < a.magnitude() {
        lemma_magnitude_order(b, a);
    } else {
        assert(a.exponent() == b.exponent() && a.fraction() == b.fraction());
    }
}

/// One is `2^149` units of `2^-149`, and 256 is `2^157`.
pub proof fn lemma_scaled_one()
    ensures
        Scalar::spec_one().scaled() == pow2(149),
        Scalar::spec_zero().scaled() == 0,
        (Scalar { bits: BYTE_RANGE_BITS }).scaled() == 256 * pow2(149),
{
    lemma2_to64();
    lemma_pow2_adds(23, 126);
    let one = Scalar::spec_one();
    assert(one.exponent() == 127 && one.fraction() == 0);
    let top = Scalar { bits: BYTE_RANGE_BITS };
    assert(top.exponent() == 135 && top.fraction() == 0);
    lemma_pow2_adds(8, 126);
    lemma_pow2_adds(23, 134);
    lemma_pow2_adds(23, 8);
    assert(pow2(23) * pow2(134) == pow2(23) * (pow2(8) * pow2(126)));
    assert(pow2(23) * (pow2(8) * pow2(126)) == 256 * (pow2(23) * pow2(126))) by (nonlinear_arith)
        requires
            pow2(8) == 256,
    ;
}

/// Two to a power that fits the machine word.
fn two_to(k: u32) -> (r: u32)
    requires
        k <= 31,
    ensures
        r == pow2(k as nat),
{
    let mut r: u32 = 1;
    let mut i: u32 = 0;
    proof {
        lemma2_to64();
    }
    while i < k
        invariant
            i <= k <= 31,
            r == pow2(i as nat),
        decreases k - i,
    {
        proof {
            lemma_pow2_unfold((i + 1) as nat);
            lemma_pow2_strictly_increases((i + 1) as nat, 32);
            lemma2_to64();
        }
        r = r * 2;
        i = i + 1;
    }
    r
}

impl Scalar {
    /// The number as a byte, as a cast makes it: a NaN and everything below
    /// one become zero, everything from 255 on becomes 255, and what lies
    /// between loses its fraction.
    pub open spec fn spec_to_u8(self) -> u8 {
        if self.spec_is_nan() || self.scaled() <= 0 {
            0
        } else if self.scaled() / (pow2(149) as int) >= 255 {
            255
        } else {
            (self.scaled() / (pow2(149) as int)) as u8
        }
    }

    /// The number as a byte, as a cast makes it: zero for a NaN and for
    /// everything below one, 255 for everything from 255 on, and the whole
    /// part of what lies between.
    #[verifier::when_used_as_spec(spec_to_u8)]
    pub fn to_u8(self) -> (r: u8)
        ensures
            r == self.spec_to_u8(),
    {
        let m: u32 = self.magnitude_bits();
        let unit = Ghost(pow2(149) as int);
        proof {
            lemma_scaled_one();
            lemma_pow2_pos(149);
            lemma_magnitude_zero(self);
        }
        if m > INFINITY_BITS || self.bits >= SIGN_BIT {
            0
        } else if m < ONE_BITS {
            proof {
                if m > 0 {
                    lemma_magnitude_order(self, Scalar::spec_one());
                }
                lemma_basic_div(self.scaled(), unit@);
            }
            0
        } else if m >= BYTE_RANGE_BITS {
            proof {
                let top = Scalar { bits: BYTE_RANGE_BITS };
                if m > BYTE_RANGE_BITS {
                    lemma_magnitude_order(top, self);
                }
                lemma_div_is_ordered(top.scaled(), self.scaled(), unit@);
                lemma_div_multiples_vanish(256, unit@);
                assert(256 * unit@ == unit@ * 256) by (nonlinear_arith);
            }
            255
        } else {
            let e: u32 = m / FRACTION_RANGE;
            let fraction: u32 = m % FRACTION_RANGE;
            let significand: u32 = FRACTION_RANGE + fraction;
            assert(127 <= e <= 134);
            let divisor: u32 = two_to(150 - e);
            proof {
                let low = pow2((e - 1) as nat) as int;
                let d = divisor as int;
                lemma_pow2_pos((e - 1) as nat);
                lemma_pow2_pos((150 - e) as nat);
                lemma_pow2_adds((e - 1) as nat, (150 - e) as nat);
                assert(unit@ == low * d);
                assert(self.scaled() == significand * low);
                assert(significand * low == low * significand) by (nonlinear_arith);
                lemma_div_multiples_vanish_quotient(low, significand as int, d);
                assert(self.scaled() / unit@ == significand as int / d);
                lemma2_to64();
                if e < 134 {
                    lemma_pow2_strictly_increases(16, (150 - e) as nat);
                }
                assert(d >= 0x1_0000);
                let q = significand as int / d;
                assert(q * d <= significand) by {
                    vstd::arithmetic::div_mod::lemma_fundamental_div_mod(significand as int, d);
                    assert(d * q == q * d) by (nonlinear_arith);
                }
                assert(q < 256) by (nonlinear_arith)
                    requires
                        q * d <= significand,
                        significand < 0x100_0000,
                        d >= 0x1_0000,
                ;
                assert(self.scaled() > 0);
            }
            (significand / divisor) as u8
        }
    }
}

} // verus!
