//! Graphics-state snapshots.
//!
//! A snapshot holds the drawing parameters in effect at one point of the
//! stream.  It is copied by value onto a stack by a save operator and
//! restored by value by a restore operator.

use vstd::prelude::*;
use crate::num::Num;
use crate::color::Color;
use crate::content::{Matrix, identity_matrix};

verus! {

/// One graphics-state snapshot.
#[derive(Debug, Clone, PartialEq)]
pub struct GraphicsState {
    /// Resource name of the current font, if one was selected.
    pub font: Option<String>,
    /// Current font size, 12 units by default.
    pub font_size: Num,
    /// Current text matrix.
    pub text_matrix: Matrix,
    /// Current stroke color, black by default.
    pub stroke_color: Color,
    /// Current fill color, black by default.
    pub fill_color: Color,
}

/// Mathematical view of a [`GraphicsState`].
pub struct GsModel {
    pub font: Option<Seq<char>>,
    pub font_size: Num,
    pub text_matrix: Matrix,
    pub stroke_color: Color,
    pub fill_color: Color,
}

impl View for GraphicsState {
    type V = GsModel;

    open spec fn view(&self) -> GsModel {
        GsModel {
            font: match self.font {
                Some(f) => Some(f@),
                None => None,
            },
            font_size: self.font_size,
            text_matrix: self.text_matrix,
            stroke_color: self.stroke_color,
            fill_color: self.fill_color,
        }
    }
}

impl DeepView for GraphicsState {
    type V = GsModel;

    open spec fn deep_view(&self) -> GsModel {
        self.view()
    }
}

/// The initial graphics state: no font, size 12, identity matrix, black.
pub open spec fn init_gs() -> GsModel {
    GsModel {
        font: None,
        font_size: Num { micro: 12000000 },
        text_matrix: identity_matrix(),
        stroke_color: Color::RGB(Num { micro: 0 }, Num { micro: 0 }, Num { micro: 0 }),
        fill_color: Color::RGB(Num { micro: 0 }, Num { micro: 0 }, Num { micro: 0 }),
    }
}

impl GraphicsState {
    /// The initial graphics state.
    pub fn new() -> (r: GraphicsState)
        ensures
            r@ == init_gs(),
    {
        GraphicsState {
            font: None,
            font_size: Num { micro: 12000000 },
            text_matrix: Matrix {
                a: Num { micro: 1000000 },
                b: Num { micro: 0 },
                c: Num { micro: 0 },
                d: Num { micro: 1000000 },
                e: Num { micro: 0 },
                f: Num { micro: 0 },
            },
            stroke_color: Color::RGB(Num { micro: 0 }, Num { micro: 0 }, Num { micro: 0 }),
            fill_color: Color::RGB(Num { micro: 0 }, Num { micro: 0 }, Num { micro: 0 }),
        }
    }

    /// An exact copy, as pushed by a save operator.
    pub fn duplicate(&self) -> (r: GraphicsState)
        ensures
            r == *self,
    {
        GraphicsState {
            font: match &self.font {
                Some(f) => Some(f.clone()),
                None => None,
            },
            font_size: self.font_size,
            text_matrix: self.text_matrix,
            stroke_color: self.stroke_color,
            fill_color: self.fill_color,
        }
    }
}

} // verus!
