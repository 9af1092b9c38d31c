//! Numbers of the document and of the panels. A number is carried by the bit
//! pattern of its 64-bit IEEE 754 encoding, so that it can be stored, compared
//! and bounded here; arithmetic on it is the host's.

use vstd::prelude::*;

verus! {

/// A 64-bit IEEE 754 number, held by its bit pattern.
#[derive(Clone, Copy, Debug, PartialEq, Eq, Structural)]
pub struct Scalar {
    pub bits: u64,
}

/// Bit of the sign.
pub const SIGN_BIT: u64 = 0x8000_0000_0000_0000;

/// Magnitude of infinity: larger magnitudes are not numbers.
pub const INFINITE: u64 = 0x7ff0_0000_0000_0000;

// Bit patterns of the numbers that the rules name.

pub const ZERO: u64 = 0;

pub const ONE: u64 = 0x3ff0_0000_0000_0000;

pub const TWO: u64 = 0x4000_0000_0000_0000;

pub const THREE: u64 = 0x4008_0000_0000_0000;

pub const FOUR: u64 = 0x4010_0000_0000_0000;

pub const EIGHTEEN: u64 = 0x4032_0000_0000_0000;

pub const SIXTY: u64 = 0x404e_0000_0000_0000;

pub const NINETY: u64 = 0x4056_8000_0000_0000;

pub const HUNDRED: u64 = 0x4059_0000_0000_0000;

pub const HALF_TURN: u64 = 0x4066_8000_0000_0000;

pub const THREE_QUARTER_TURN: u64 = 0x4070_e000_0000_0000;

pub const THOUSAND: u64 = 0x408f_4000_0000_0000;

/// The single-precision number next to one millionth, widened.
pub const MILLIONTH: u64 = 0x3eb0_c6f7_a000_0000;

impl Scalar {
    /// The number with the given bit pattern.
    #[verifier::allow_in_spec]
    pub fn of(bits: u64) -> Scalar
        returns
            (Scalar { bits: bits }),
    {
        Scalar { bits: bits }
    }

    /// The bits without the sign.
    pub open spec fn magnitude(self) -> int {
        if self.bits < SIGN_BIT {
            self.bits as int
        } else {
            self.bits - SIGN_BIT
        }
    }

    pub open spec fn nan(self) -> bool {
        self.magnitude() > INFINITE
    }

    /// Neither infinite nor a NaN.
    pub open spec fn finite(self) -> bool {
        self.magnitude() < INFINITE
    }

    /// Order of the numbers: monotone in the value, zero for both zeros. Means
    /// nothing for a NaN.
    pub open spec fn rank(self) -> int {
        if self.bits < SIGN_BIT {
            self.magnitude()
        } else {
            -self.magnitude()
        }
    }

    pub open spec fn lt(self, other: Scalar) -> bool {
        !self.nan() && !other.nan() && self.rank() < other.rank()
    }

    pub open spec fn le(self, other: Scalar) -> bool {
        !self.nan() && !other.nan() && self.rank() <= other.rank()
    }

    /// Numeric equality: both zeros are equal, a NaN equals nothing.
    pub open spec fn same(self, other: Scalar) -> bool {
        !self.nan() && !other.nan() && self.rank() == other.rank()
    }

    fn strip_sign(self) -> (magnitude: u64)
        ensures
            magnitude == self.magnitude(),
    {
        if self.bits < SIGN_BIT {
            self.bits
        } else {
            self.bits - SIGN_BIT
        }
    }

    pub fn is_nan(self) -> (r: bool)
        ensures
            r == self.nan(),
    {
        self.strip_sign() > INFINITE
    }

    pub fn is_finite(self) -> (r: bool)
        ensures
            r == self.finite(),
    {
        self.strip_sign() < INFINITE
    }

    pub fn less(self, other: Scalar) -> (r: bool)
        ensures
            r == self.lt(other),
    {
        if self.is_nan() || other.is_nan() {
            return false;
        }
        let a: u64 = self.strip_sign();
        let b: u64 = other.strip_sign();
        if self.bits < SIGN_BIT {
            other.bits < SIGN_BIT && a < b
        } else if other.bits < SIGN_BIT {
            a > 0 || b > 0
        } else {
            b < a
        }
    }

    pub fn at_most(self, other: Scalar) -> (r: bool)
        ensures
            r == self.le(other),
    {
        !self.is_nan() && !other.is_nan() && !other.less(self)
    }

    pub fn equals(self, other: Scalar) -> (r: bool)
        ensures
            r == self.same(other),
    {
        self.at_most(other) && other.at_most(self)
    }

    /// `f64::max(self, 0.0)`: zero for a NaN.
    pub open spec fn at_least_zero(self) -> Scalar {
        if Self::of(ZERO).lt(self) {
            self
        } else {
            Self::of(ZERO)
        }
    }

    pub fn max_zero(self) -> (r: Scalar)
        ensures
            r == self.at_least_zero(),
    {
        if Self::of(ZERO).less(self) {
            self
        } else {
            Self::of(ZERO)
        }
    }

    /// `f64::clamp`: a NaN stays as it is.
    pub open spec fn clamped(self, low: Scalar, high: Scalar) -> Scalar {
        if self.lt(low) {
            low
        } else if high.lt(self) {
            high
        } else {
            self
        }
    }

    pub fn clamp(self, low: Scalar, high: Scalar) -> (r: Scalar)
        ensures
            r == self.clamped(low, high),
    {
        if self.less(low) {
            low
        } else if high.less(self) {
            high
        } else {
            self
        }
    }

    /// Absolute value.
    pub open spec fn absolute(self) -> Scalar {
        Scalar { bits: self.magnitude() as u64 }
    }

    pub fn abs(self) -> (r: Scalar)
        ensures
            r == self.absolute(),
    {
        Scalar { bits: self.strip_sign() }
    }

    /// Biased binary exponent.
    pub open spec fn exponent(self) -> int {
        self.magnitude() / 0x10_0000_0000_0000
    }

    /// Significand with its hidden bit, as for a normal number.
    pub open spec fn significand(self) -> int {
        0x10_0000_0000_0000 + self.magnitude() % 0x10_0000_0000_0000
    }

    /// What `as u32` makes of a number below 4096: the integer part, and zero
    /// for negative numbers and for a NaN.
    pub open spec fn whole_part(self) -> int {
        if self.nan() || self.rank() <= 0 || self.exponent() < 1023 {
            0
        } else {
            self.significand() / vstd::arithmetic::power2::pow2((1075 - self.exponent()) as nat) as int
        }
    }

    pub fn whole(self) -> (r: u32)
        requires
            self.nan() || self.rank() < 0x40b0_0000_0000_0000,
        ensures
            r == self.whole_part(),
    {
        if self.is_nan() || self.bits >= SIGN_BIT || self.bits == 0 {
            return 0;
        }
        let exponent: u64 = self.bits / 0x10_0000_0000_0000;
        if exponent < 1023 {
            return 0;
        }
        let significand: u64 = 0x10_0000_0000_0000 + self.bits % 0x10_0000_0000_0000;
        let shift: u64 = 1075 - exponent;
        let whole: u64 = significand >> shift;
        proof {
            assert(exponent < 1035);
            vstd::arithmetic::power2::lemma_pow2_pos(shift as nat);
            vstd::bits::lemma_u64_shr_is_div(significand, shift);
            assert(whole as int == significand as int / vstd::arithmetic::power2::pow2(shift as nat) as int);
            assert(significand < 0x20_0000_0000_0000);
            assert(whole < 0x1_0000_0000) by (bit_vector)
                requires
                    whole == significand >> shift,
                    significand < 0x20_0000_0000_0000u64,
                    41 <= shift <= 52,
            ;
        }
        whole as u32
    }
}

/// A number that is at least zero after `max_zero`, and at most as large as
/// before when it was positive.
pub proof fn lemma_at_least_zero(x: Scalar)
    ensures
        Scalar::of(ZERO).le(x.at_least_zero()),
        Scalar::of(ZERO).lt(x) ==> x.at_least_zero() == x,
{
}

/// A finite number is inside the bounds after `clamp`.
pub proof fn lemma_clamped_inside(x: Scalar, low: Scalar, high: Scalar)
    requires
        x.finite(),
        low.le(high),
    ensures
        low.le(x.clamped(low, high)),
        x.clamped(low, high).le(high),
{
}

} // verus!
