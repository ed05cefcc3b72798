//! Fixed-point arithmetic in millionths.

use vstd::prelude::*;

verus! {

/// The number of fixed-point units in one whole: a stored `1_000_000`
/// stands for `1.0`.
pub const SCALE: i64 = 1_000_000;

/// A number with six decimal places, held as its count of millionths.
#[derive(Clone, Copy, Debug, PartialEq, Eq, Structural)]
pub struct Decimal {
    pub micros: i64,
}

impl Default for Decimal {
    fn default() -> (zero: Self)
        ensures
            zero.micros == 0,
    {
        Decimal { micros: 0 }
    }
}

impl Decimal {
    /// The number in tenths, rounded to the nearest tenth, a half rounded
    /// away from zero.
    pub open spec fn nearest_tenth(self) -> int {
        if self.micros >= 0 {
            (self.micros + 50_000) / 100_000
        } else {
            -((50_000 - self.micros) / 100_000)
        }
    }

    pub fn tenths(self) -> (tenths: i64)
        ensures
            tenths as int == self.nearest_tenth(),
    {
        if self.micros >= 0 {
            (((self.micros as i128) + 50_000) / 100_000) as i64
        } else {
            -(((50_000 - (self.micros as i128)) / 100_000) as i64)
        }
    }
}

/// `value` brought into the range of `i64`.
pub open spec fn clamp_i64(value: int) -> int {
    if value < i64::MIN as int {
        i64::MIN as int
    } else if value > i64::MAX as int {
        i64::MAX as int
    } else {
        value
    }
}

/// The magnitude of `value`.
pub open spec fn magnitude(value: int) -> int {
    if value < 0 {
        -value
    } else {
        value
    }
}

/// The magnitude of an amplitude, which always fits in a `u64`.
pub fn magnitude_of(value: i64) -> (m: u64)
    ensures
        m as int == magnitude(value as int),
{
    if value >= 0 {
        value as u64
    } else if value == i64::MIN {
        9_223_372_036_854_775_808u64
    } else {
        (-value) as u64
    }
}

/// Narrows a wide intermediate result to an amplitude, saturating at the
/// ends of the range.
pub fn saturate(value: i128) -> (narrow: i64)
    ensures
        narrow as int == clamp_i64(value as int),
{
    if value < i64::MIN as i128 {
        i64::MIN
    } else if value > i64::MAX as i128 {
        i64::MAX
    } else {
        value as i64
    }
}

/// The quotient of `a` by a positive `b`, rounded toward zero.
pub open spec fn trunc_div(a: int, b: int) -> int
    recommends
        b > 0,
{
    if a >= 0 {
        a / b
    } else {
        -((-a) / b)
    }
}

/// Division that rounds toward zero, on a wide dividend.
pub fn div_trunc(a: i128, b: u64) -> (q: i128)
    requires
        b > 0,
    ensures
        q as int == trunc_div(a as int, b as int),
{
    let divisor: u128 = b as u128;
    if a >= 0 {
        ((a as u128) / divisor) as i128
    } else if a == i128::MIN {
        if b == 1 {
            assert(170_141_183_460_469_231_731_687_303_715_884_105_728int / 1
                == 170_141_183_460_469_231_731_687_303_715_884_105_728int);
            i128::MIN
        } else {
            let whole: u128 = 170_141_183_460_469_231_731_687_303_715_884_105_728u128 / divisor;
            assert(whole <= 85_070_591_730_234_615_865_843_651_857_942_052_864u128) by {
                vstd::arithmetic::div_mod::lemma_div_is_ordered_by_denominator(
                    170_141_183_460_469_231_731_687_303_715_884_105_728int,
                    2,
                    divisor as int,
                );
            }
            -(whole as i128)
        }
    } else {
        let whole: u128 = ((-a) as u128) / divisor;
        -(whole as i128)
    }
}

} // verus!
