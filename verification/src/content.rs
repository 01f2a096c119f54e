//! Output records of one interpreter pass: positioned text runs and vector
//! paths, plus the text matrix they are positioned by.

use vstd::prelude::*;
use crate::num::Num;
use crate::color::ColorRgba;

verus! {

/// A 6-value affine text transform; `e` and `f` are the translation.
#[derive(Clone, Copy, PartialEq, Eq, Structural, Debug)]
pub struct Matrix {
    pub a: Num,
    pub b: Num,
    pub c: Num,
    pub d: Num,
    pub e: Num,
    pub f: Num,
}

/// The identity text matrix.
pub open spec fn identity_matrix() -> Matrix {
    Matrix {
        a: Num { micro: 1000000 },
        b: Num { micro: 0 },
        c: Num { micro: 0 },
        d: Num { micro: 1000000 },
        e: Num { micro: 0 },
        f: Num { micro: 0 },
    }
}

impl Default for Matrix {
    /// The identity transform.
    fn default() -> (r: Matrix)
        ensures
            r == identity_matrix(),
    {
        Matrix {
            a: Num { micro: 1000000 },
            b: Num { micro: 0 },
            c: Num { micro: 0 },
            d: Num { micro: 1000000 },
            e: Num { micro: 0 },
            f: Num { micro: 0 },
        }
    }
}

/// One command of a vector path.
#[derive(Clone, Copy, PartialEq, Eq, Structural, Debug)]
pub enum PathCommand {
    MoveTo(Num, Num),
    LineTo(Num, Num),
    CurveTo(Num, Num, Num, Num, Num, Num),
    Close,
}

/// One positioned text run.
#[derive(Clone, PartialEq, Debug)]
pub struct TextObject {
    pub text: String,
    pub x: Num,
    pub y: Num,
    pub font_size: Num,
    pub font_name: String,
}

/// Mathematical view of a [`TextObject`].
pub struct TextModel {
    pub text: Seq<char>,
    pub x: Num,
    pub y: Num,
    pub font_size: Num,
    pub font_name: Seq<char>,
}

impl View for TextObject {
    type V = TextModel;

    open spec fn view(&self) -> TextModel {
        TextModel {
            text: self.text@,
            x: self.x,
            y: self.y,
            font_size: self.font_size,
            font_name: self.font_name@,
        }
    }
}

impl DeepView for TextObject {
    type V = TextModel;

    open spec fn deep_view(&self) -> TextModel {
        self.view()
    }
}

/// One finished vector path with its resolved colors.
#[derive(Clone, PartialEq, Debug)]
pub struct VectorObject {
    pub path_data: Vec<PathCommand>,
    pub stroke_color: ColorRgba,
    pub fill_color: Option<ColorRgba>,
}

/// Mathematical view of a [`VectorObject`].
pub struct VectorModel {
    pub path_data: Seq<PathCommand>,
    pub stroke_color: ColorRgba,
    pub fill_color: Option<ColorRgba>,
}

impl View for VectorObject {
    type V = VectorModel;

    open spec fn view(&self) -> VectorModel {
        VectorModel {
            path_data: self.path_data@,
            stroke_color: self.stroke_color,
            fill_color: self.fill_color,
        }
    }
}

impl DeepView for VectorObject {
    type V = VectorModel;

    open spec fn deep_view(&self) -> VectorModel {
        self.view()
    }
}

} // verus!
