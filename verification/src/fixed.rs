//! Exact fixed-point numbers.
//!
//! A [`Fixed`] counts steps of 2^-32, so every value on either snapping grid,
//! the half-unit offset and the rounding bias of 2^-23 are represented without
//! error, and every operation below is stated over plain integers.

use vstd::prelude::*;

verus! {

/// Raw steps in one whole unit: 2^32.
pub const ONE: i64 = 4294967296;

/// Raw steps in half a unit.
pub const HALF: i64 = 2147483648;

/// The bias added before rounding: 2^-23 of a unit.
pub const EPSILON: i64 = 512;

/// `v` limited to what 64 signed bits hold.
pub open spec fn clamp_raw(v: int) -> int {
    if v < i64::MIN {
        i64::MIN as int
    } else if v > i64::MAX {
        i64::MAX as int
    } else {
        v
    }
}

/// The whole number nearest to `units` raw steps, halves going away from zero.
pub open spec fn round_half_away(units: int) -> int {
    if units >= 0 {
        (units + HALF) / (ONE as int)
    } else {
        -((HALF - units) / (ONE as int))
    }
}

/// Rounding as the display expects it: the bias is added first, then halves
/// go away from zero.
pub open spec fn biased_round(units: int) -> int {
    round_half_away(units + EPSILON)
}

/// `v` limited to `0..=limit`.
pub open spec fn clamp_between(v: int, limit: int) -> int {
    if v < 0 {
        0
    } else if v > limit {
        limit
    } else {
        v
    }
}

/// A number with 32 fractional bits; `raw` counts steps of 2^-32.
#[derive(Debug, Clone, Copy, PartialEq, Eq, Structural)]
pub struct Fixed {
    pub raw: i64,
}

/// Brings a wide intermediate result back into range, saturating.
pub fn saturate(v: i128) -> (r: Fixed)
    ensures
        r.raw == clamp_raw(v as int),
{
    if v < -9223372036854775808i128 {
        Fixed { raw: i64::MIN }
    } else if v > 9223372036854775807i128 {
        Fixed { raw: i64::MAX }
    } else {
        Fixed { raw: v as i64 }
    }
}

/// Executable form of [`round_half_away`] on a wide value.
pub fn round_wide(units: i128) -> (n: i128)
    requires
        -0x4000_0000_0000_0000_0000i128 <= units <= 0x4000_0000_0000_0000_0000i128,
    ensures
        n == round_half_away(units as int),
        -0x4000_0000_0001i128 <= n <= 0x4000_0000_0001i128,
{
    if units >= 0 {
        (units + 2147483648i128) / 4294967296i128
    } else {
        -((2147483648i128 - units) / 4294967296i128)
    }
}

impl Fixed {
    /// The number zero.
    pub fn zero() -> (r: Fixed)
        ensures
            r.raw == 0,
    {
        Fixed { raw: 0 }
    }

    /// The whole number `n`.
    pub fn from_int(n: i32) -> (r: Fixed)
        ensures
            r.raw == n * ONE,
    {
        let wide: i64 = n as i64;
        Fixed { raw: wide * 4294967296i64 }
    }

    /// Sum, saturating at the ends of the range.
    pub open spec fn spec_add(self, other: Fixed) -> Fixed {
        Fixed { raw: clamp_raw(self.raw + other.raw) as i64 }
    }

    /// The negated number, saturating.
    pub open spec fn spec_neg(self) -> Fixed {
        Fixed { raw: clamp_raw(-self.raw) as i64 }
    }

    /// Sum, saturating at the ends of the range.
    pub fn add(self, other: Fixed) -> (r: Fixed)
        ensures
            r == self.spec_add(other),
            r.raw == clamp_raw(self.raw + other.raw),
    {
        saturate(self.raw as i128 + other.raw as i128)
    }

    /// Difference, saturating at the ends of the range.
    pub fn sub(self, other: Fixed) -> (r: Fixed)
        ensures
            r.raw == clamp_raw(self.raw - other.raw),
    {
        saturate(self.raw as i128 - other.raw as i128)
    }

    /// The negated number, saturating.
    pub fn neg(self) -> (r: Fixed)
        ensures
            r == self.spec_neg(),
            r.raw == clamp_raw(-self.raw),
    {
        saturate(-(self.raw as i128))
    }

    /// The product with a whole number, saturating.
    pub open spec fn spec_mul(self, factor: i32) -> Fixed {
        Fixed { raw: clamp_raw(self.raw * factor) as i64 }
    }

    /// The product with a whole number, saturating.
    pub fn mul(self, factor: i32) -> (r: Fixed)
        ensures
            r == self.spec_mul(factor),
    {
        assert(-0x8000_0000_0000_0000 * 0x8000_0000 <= self.raw * factor <= 0x8000_0000_0000_0000
            * 0x8000_0000) by (nonlinear_arith)
            requires
                -0x8000_0000_0000_0000 <= self.raw <= 0x8000_0000_0000_0000,
                -0x8000_0000 <= factor <= 0x8000_0000,
        ;
        saturate(self.raw as i128 * factor as i128)
    }

    /// The quotient by a whole number that is not 0, rounded down and
    /// saturating.
    pub open spec fn spec_div(self, divisor: i32) -> Fixed {
        Fixed {
            raw: clamp_raw(
                if divisor > 0 {
                    self.raw as int / divisor as int
                } else {
                    (-(self.raw as int)) / (-(divisor as int))
                },
            ) as i64,
        }
    }

    /// The quotient by a whole number that is not 0, rounded down and
    /// saturating.
    pub fn div(self, divisor: i32) -> (r: Fixed)
        requires
            divisor != 0,
        ensures
            r == self.spec_div(divisor),
    {
        let top: i128 = if divisor > 0 {
            self.raw as i128
        } else {
            -(self.raw as i128)
        };
        let bottom: i128 = if divisor > 0 {
            divisor as i128
        } else {
            -(divisor as i128)
        };
        if top >= 0 {
            saturate(top / bottom)
        } else {
            let up: i128 = (bottom - 1 - top) / bottom;
            assert(-up == top as int / bottom as int) by (nonlinear_arith)
                requires
                    up == (bottom - 1 - top) / (bottom as int),
                    bottom > 0,
                    top < 0,
            ;
            saturate(-up)
        }
    }

    /// The largest whole number that is not above `self`.
    pub open spec fn spec_floor(self) -> int {
        (self.raw as int) / (ONE as int)
    }

    /// Rounds down to a whole number.
    pub fn floor(self) -> (r: Fixed)
        ensures
            r.raw == self.spec_floor() * ONE,
    {
        if self.raw >= 0 {
            let whole: i64 = self.raw / 4294967296i64;
            Fixed { raw: whole * 4294967296i64 }
        } else {
            let up: i128 = (4294967295i128 - self.raw as i128) / 4294967296i128;
            saturate(-up * 4294967296i128)
        }
    }

    /// Biased rounding to a whole number, saturating.
    pub fn round(self) -> (r: Fixed)
        ensures
            r.raw == clamp_raw(biased_round(self.raw as int) * ONE),
    {
        let n: i128 = round_wide(self.raw as i128 + 512i128);
        saturate(n * 4294967296i128)
    }

    /// The whole part, towards zero, limited to `0..=limit`.
    pub open spec fn spec_truncate(self, limit: int) -> int {
        if self.raw < 0 {
            0
        } else {
            clamp_between((self.raw as int) / (ONE as int), limit)
        }
    }

    /// The whole part as 16 unsigned bits: fractions are dropped, negative
    /// numbers give 0 and large ones 65535.
    pub fn to_u16(self) -> (r: u16)
        ensures
            r == self.spec_truncate(65535),
    {
        if self.raw < 0 {
            0
        } else {
            let whole: i64 = self.raw / 4294967296i64;
            if whole > 65535 {
                65535
            } else {
                whole as u16
            }
        }
    }

    /// The whole part as 8 unsigned bits: fractions are dropped, negative
    /// numbers give 0 and large ones 255.
    pub fn to_u8(self) -> (r: u8)
        ensures
            r == self.spec_truncate(255),
    {
        if self.raw < 0 {
            0
        } else {
            let whole: i64 = self.raw / 4294967296i64;
            if whole > 255 {
                255
            } else {
                whole as u8
            }
        }
    }
}

} // verus!
