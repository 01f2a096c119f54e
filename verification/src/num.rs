//! Fixed-point numbers in millionths.
//!
//! Every numeric operand of the content stream is held as an integer count
//! of millionths, so `12.5` is `Num { micro: 12_500_000 }`.  A literal with
//! more than six fractional digits is truncated toward zero; a literal whose
//! magnitude exceeds [`MAG_MAX`] millionths saturates at [`MAG_MAX`].

use vstd::prelude::*;

verus! {

/// Number of millionths in one unit.
pub const MICRO_SCALE: i64 = 1_000_000;

/// Largest representable magnitude, in millionths.
pub const MAG_MAX: i64 = 999_999_999_999_999_999;

/// A fixed-point number: `micro` millionths.
#[derive(Clone, Copy, PartialEq, Eq, Structural, Debug)]
pub struct Num {
    pub micro: i64,
}

impl View for Num {
    type V = int;

    open spec fn view(&self) -> int {
        self.micro as int
    }
}

/// Clamp a non-negative magnitude (in millionths) to the representable range.
pub open spec fn clamp_mag(m: int) -> int {
    if m > MAG_MAX as int {
        MAG_MAX as int
    } else {
        m
    }
}

/// Magnitude of `x` in millionths, saturating at the representable bound.
pub open spec fn abs_fixed(x: int) -> int {
    if x < 0 {
        clamp_mag(-x)
    } else {
        clamp_mag(x)
    }
}

/// Product of two fixed-point values in millionths, truncated toward zero
/// and saturating at the representable bound.
pub open spec fn mul_fixed(x: int, y: int) -> int {
    let p = x * y;
    if p >= 0 {
        clamp_mag(p / (MICRO_SCALE as int))
    } else {
        -clamp_mag((-p) / (MICRO_SCALE as int))
    }
}

impl Num {
    /// Saturating absolute value.
    pub fn abs(self) -> (r: Num)
        ensures
            r@ == abs_fixed(self@),
    {
        if self.micro == i64::MIN {
            Num { micro: MAG_MAX }
        } else if self.micro < 0 {
            let m = -self.micro;
            if m > MAG_MAX {
                Num { micro: MAG_MAX }
            } else {
                Num { micro: m }
            }
        } else {
            if self.micro > MAG_MAX {
                Num { micro: MAG_MAX }
            } else {
                Num { micro: self.micro }
            }
        }
    }

    /// Fixed-point multiplication, truncating toward zero and saturating.
    pub fn mul(self, other: Num) -> (r: Num)
        ensures
            r@ == mul_fixed(self@, other@),
    {
        let a = self.micro as i128;
        let b = other.micro as i128;
        proof {
            assert(-0x4000_0000_0000_0000_0000_0000_0000_0000i128 <= a * b
                <= 0x4000_0000_0000_0000_0000_0000_0000_0000i128) by (nonlinear_arith)
                requires
                    -0x8000_0000_0000_0000i128 <= a <= 0x7fff_ffff_ffff_ffffi128,
                    -0x8000_0000_0000_0000i128 <= b <= 0x7fff_ffff_ffff_ffffi128,
            ;
        }
        let p = a * b;
        let neg = p < 0;
        let up: u128 = if neg {
            (-p) as u128
        } else {
            p as u128
        };
        let mag = up / (MICRO_SCALE as u128);
        let m: i64 = if mag > MAG_MAX as u128 {
            MAG_MAX
        } else {
            mag as i64
        };
        if neg {
            Num { micro: -m }
        } else {
            Num { micro: m }
        }
    }
}

} // verus!
