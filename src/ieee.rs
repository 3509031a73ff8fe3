use vstd::prelude::*;

verus! {

/// The largest bit pattern (sign bit clear) of a value that is not NaN:
/// positive infinity.
pub const INFINITY_PATTERN: u64 = 0x7ff0_0000_0000_0000;

/// The sign bit of an IEEE-754 double.
pub const SIGN_BIT: u64 = 0x8000_0000_0000_0000;

/// A double-precision number held as its IEEE-754 bit pattern.
#[derive(Clone, Copy, Debug, PartialEq, Eq, Structural)]
pub struct RealBits {
    pub bits: u64,
}

/// The bit pattern without its sign bit.
pub open spec fn magnitude(bits: u64) -> nat {
    (bits % SIGN_BIT) as nat
}

pub open spec fn is_negative_pattern(bits: u64) -> bool {
    bits >= SIGN_BIT
}

/// NaN: exponent all ones and a non-zero mantissa.
pub open spec fn is_nan_pattern(bits: u64) -> bool {
    magnitude(bits) > INFINITY_PATTERN
}

/// Neither NaN nor an infinity.
pub open spec fn is_finite_pattern(bits: u64) -> bool {
    magnitude(bits) < INFINITY_PATTERN
}

/// An integer that orders non-NaN doubles as their values do; both zeros map to 0.
pub open spec fn order_key(bits: u64) -> int {
    if is_negative_pattern(bits) {
        -magnitude(bits)
    } else {
        magnitude(bits) as int
    }
}

impl RealBits {
    pub open spec fn is_nan_spec(self) -> bool {
        is_nan_pattern(self.bits)
    }

    pub open spec fn key(self) -> int {
        order_key(self.bits)
    }

    /// `self < other` as doubles.
    pub open spec fn less(self, other: RealBits) -> bool {
        !self.is_nan_spec() && !other.is_nan_spec() && self.key() < other.key()
    }

    /// `self <= other` as doubles.
    pub open spec fn at_most(self, other: RealBits) -> bool {
        !self.is_nan_spec() && !other.is_nan_spec() && self.key() <= other.key()
    }

    pub fn from_bits(bits: u64) -> (r: RealBits)
        ensures
            r.bits == bits,
    {
        RealBits { bits }
    }

    pub fn is_nan(&self) -> (r: bool)
        ensures
            r == self.is_nan_spec(),
    {
        self.bits % SIGN_BIT > INFINITY_PATTERN
    }

    pub fn is_finite(&self) -> (r: bool)
        ensures
            r == is_finite_pattern(self.bits),
    {
        self.bits % SIGN_BIT < INFINITY_PATTERN
    }

    /// The order key of a value; NaN has none.
    pub fn order_key(&self) -> (r: i64)
        requires
            !self.is_nan_spec(),
        ensures
            r == self.key(),
    {
        let m = self.bits % SIGN_BIT;
        if self.bits >= SIGN_BIT {
            -(m as i64)
        } else {
            m as i64
        }
    }

    /// IEEE comparison `self < other`: false whenever either side is NaN.
    pub fn lt(&self, other: &RealBits) -> (r: bool)
        ensures
            r == self.less(*other),
    {
        if self.is_nan() || other.is_nan() {
            false
        } else {
            self.order_key() < other.order_key()
        }
    }

    /// IEEE comparison `self <= other`: false whenever either side is NaN.
    pub fn le(&self, other: &RealBits) -> (r: bool)
        ensures
            r == self.at_most(*other),
    {
        if self.is_nan() || other.is_nan() {
            false
        } else {
            self.order_key() <= other.order_key()
        }
    }
}

/// `min(v, hi)` then `max(_, lo)` with the NaN rule of IEEE minimum and maximum:
/// a NaN operand yields the other one.
pub open spec fn clamp_spec(v: RealBits, lo: RealBits, hi: RealBits) -> RealBits {
    let capped = if v.is_nan_spec() || hi.less(v) { hi } else { v };
    if capped.less(lo) { lo } else { capped }
}

/// Clamps `v` into the closed interval `[lo, hi]`.
pub fn clamp(v: RealBits, lo: RealBits, hi: RealBits) -> (r: RealBits)
    requires
        !lo.is_nan_spec(),
        !hi.is_nan_spec(),
    ensures
        r == clamp_spec(v, lo, hi),
        lo.at_most(hi) ==> lo.at_most(r) && r.at_most(hi),
{
    let capped = if v.is_nan() || hi.lt(&v) { hi } else { v };
    if capped.lt(&lo) { lo } else { capped }
}

} // verus!
