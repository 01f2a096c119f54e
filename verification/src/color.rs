//! Color values and color spaces.

use vstd::prelude::*;
use crate::num::Num;

verus! {

/// A color space, used to interpret raw numeric color operands.
#[derive(Debug)]
pub enum ColorSpace {
    DeviceRGB,
    DeviceCMYK,
    DeviceGray,
    Indexed { base: Box<ColorSpace>, lookup: Vec<u8> },
    Pattern,
}

/// A resolved color, tagged by the arity of its color space.
/// Components are fixed-point values; one unit is full intensity.
#[derive(Clone, Copy, PartialEq, Eq, Structural, Debug)]
pub enum Color {
    RGB(Num, Num, Num),
    CMYK(Num, Num, Num, Num),
    Gray(Num),
}

/// A color with an alpha component, as handed to the renderer.
#[derive(Clone, Copy, PartialEq, Eq, Structural, Debug)]
pub struct ColorRgba {
    pub r: Num,
    pub g: Num,
    pub b: Num,
    pub a: Num,
}

/// The RGBA stroke color recorded for a finished path: the current stroke
/// color if it is RGB, otherwise opaque black.
pub open spec fn stroke_rgba(c: Color) -> ColorRgba {
    match c {
        Color::RGB(r, g, b) => ColorRgba { r, g, b, a: Num { micro: 1000000 } },
        _ => ColorRgba {
            r: Num { micro: 0 },
            g: Num { micro: 0 },
            b: Num { micro: 0 },
            a: Num { micro: 1000000 },
        },
    }
}

/// The RGBA fill color recorded for a finished path: the current fill color
/// if it is RGB, otherwise no fill at all.
pub open spec fn fill_rgba(c: Color) -> Option<ColorRgba> {
    match c {
        Color::RGB(r, g, b) => Some(ColorRgba { r, g, b, a: Num { micro: 1000000 } }),
        _ => None,
    }
}

} // verus!
