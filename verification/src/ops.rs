//! The operator set and the decoder's mathematical model.
//!
//! [`decode_op`] says, for every byte sequence and position, which operator
//! the decoder recognizes there and where its cursor ends up — on failure as
//! well as on success.  The executable decoder is proved to match it.

use vstd::prelude::*;
use crate::num::Num;
use crate::color::Color;
use crate::scan::{
    skip_ws, scan_number_at, scan_string_body, scan_array_body, scan_name_body, scan_token_end,
    name_starts, num_val, NumScan,
};

verus! {

/// Text rendering modes of the page-description language.
#[derive(Debug, Clone, Copy, PartialEq, Eq, Structural)]
pub enum TextRenderMode {
    Fill,
    Stroke,
    FillAndStroke,
    Invisible,
    FillAndClip,
    StrokeAndClip,
    FillStrokeAndClip,
    Clip,
}

/// Line cap styles.
#[derive(Debug, Clone, Copy, PartialEq, Eq, Structural)]
pub enum LineCap {
    Butt,
    Round,
    Square,
}

/// Line join styles.
#[derive(Debug, Clone, Copy, PartialEq, Eq, Structural)]
pub enum LineJoin {
    Miter,
    Round,
    Bevel,
}

/// One decoded instruction of the content stream.
#[derive(Debug, Clone, PartialEq)]
pub enum Operator {
    BeginText,
    EndText,
    SetFont(String, Num),
    ShowText(String),
    ShowTextAdjusted(String),
    SetTextMatrix(Num, Num, Num, Num, Num, Num),
    SetCharSpacing(Num),
    SetWordSpacing(Num),
    SetHorizontalScaling(Num),
    SetLeading(Num),
    SetRenderingMode(TextRenderMode),
    SetLineWidth(Num),
    SetLineCap(LineCap),
    SetLineJoin(LineJoin),
    SetMiterLimit(Num),
    SetDashPattern(Vec<Num>, Num),
    SetStrokeColor(Color),
    SetFillColor(Color),
    MoveTo(Num, Num),
    LineTo(Num, Num),
    CurveTo(Num, Num, Num, Num, Num, Num),
    ClosePath,
    SaveState,
    RestoreState,
    SetGraphicsState(String),
}

/// Mathematical view of an [`Operator`].
pub enum OpModel {
    BeginText,
    EndText,
    SetFont(Seq<char>, Num),
    ShowText(Seq<char>),
    ShowTextAdjusted(Seq<char>),
    SetTextMatrix(Num, Num, Num, Num, Num, Num),
    SetCharSpacing(Num),
    SetWordSpacing(Num),
    SetHorizontalScaling(Num),
    SetLeading(Num),
    SetRenderingMode(TextRenderMode),
    SetLineWidth(Num),
    SetLineCap(LineCap),
    SetLineJoin(LineJoin),
    SetMiterLimit(Num),
    SetDashPattern(Seq<Num>, Num),
    SetStrokeColor(Color),
    SetFillColor(Color),
    MoveTo(Num, Num),
    LineTo(Num, Num),
    CurveTo(Num, Num, Num, Num, Num, Num),
    ClosePath,
    SaveState,
    RestoreState,
    SetGraphicsState(Seq<char>),
}

impl View for Operator {
    type V = OpModel;

    open spec fn view(&self) -> OpModel {
        match self {
            Operator::BeginText => OpModel::BeginText,
            Operator::EndText => OpModel::EndText,
            Operator::SetFont(n, s) => OpModel::SetFont(n@, *s),
            Operator::ShowText(t) => OpModel::ShowText(t@),
            Operator::ShowTextAdjusted(t) => OpModel::ShowTextAdjusted(t@),
            Operator::SetTextMatrix(a, b, c, d, e, f) => OpModel::SetTextMatrix(
                *a,
                *b,
                *c,
                *d,
                *e,
                *f,
            ),
            Operator::SetCharSpacing(n) => OpModel::SetCharSpacing(*n),
            Operator::SetWordSpacing(n) => OpModel::SetWordSpacing(*n),
            Operator::SetHorizontalScaling(n) => OpModel::SetHorizontalScaling(*n),
            Operator::SetLeading(n) => OpModel::SetLeading(*n),
            Operator::SetRenderingMode(m) => OpModel::SetRenderingMode(*m),
            Operator::SetLineWidth(n) => OpModel::SetLineWidth(*n),
            Operator::SetLineCap(c) => OpModel::SetLineCap(*c),
            Operator::SetLineJoin(j) => OpModel::SetLineJoin(*j),
            Operator::SetMiterLimit(n) => OpModel::SetMiterLimit(*n),
            Operator::SetDashPattern(p, ph) => OpModel::SetDashPattern(p@, *ph),
            Operator::SetStrokeColor(c) => OpModel::SetStrokeColor(*c),
            Operator::SetFillColor(c) => OpModel::SetFillColor(*c),
            Operator::MoveTo(x, y) => OpModel::MoveTo(*x, *y),
            Operator::LineTo(x, y) => OpModel::LineTo(*x, *y),
            Operator::CurveTo(a, b, c, d, e, f) => OpModel::CurveTo(*a, *b, *c, *d, *e, *f),
            Operator::ClosePath => OpModel::ClosePath,
            Operator::SaveState => OpModel::SaveState,
            Operator::RestoreState => OpModel::RestoreState,
            Operator::SetGraphicsState(n) => OpModel::SetGraphicsState(n@),
        }
    }
}

/// The fixed-point number a scanned literal denotes.
pub open spec fn num_of_scan(sc: NumScan) -> Num {
    Num { micro: num_val(sc) as i64 }
}

/// Decoder model for the six numeric operands of a text-matrix or curve
/// operator, starting at `i`: the operator decoded from six further scans,
/// and the final cursor position.
pub open spec fn decode_six(s: Seq<u8>, i: int, curve: bool) -> (Option<OpModel>, int) {
    let n1 = scan_number_at(s, i);
    if !n1.ok {
        (None, n1.end)
    } else {
        let n2 = scan_number_at(s, n1.end);
        if !n2.ok {
            (None, n2.end)
        } else {
            let n3 = scan_number_at(s, n2.end);
            if !n3.ok {
                (None, n3.end)
            } else {
                let n4 = scan_number_at(s, n3.end);
                if !n4.ok {
                    (None, n4.end)
                } else {
                    let n5 = scan_number_at(s, n4.end);
                    if !n5.ok {
                        (None, n5.end)
                    } else {
                        let n6 = scan_number_at(s, n5.end);
                        if !n6.ok {
                            (None, n6.end)
                        } else {
                            let op = if curve {
                                OpModel::CurveTo(
                                    num_of_scan(n1),
                                    num_of_scan(n2),
                                    num_of_scan(n3),
                                    num_of_scan(n4),
                                    num_of_scan(n5),
                                    num_of_scan(n6),
                                )
                            } else {
                                OpModel::SetTextMatrix(
                                    num_of_scan(n1),
                                    num_of_scan(n2),
                                    num_of_scan(n3),
                                    num_of_scan(n4),
                                    num_of_scan(n5),
                                    num_of_scan(n6),
                                )
                            };
                            (Some(op), n6.end)
                        }
                    }
                }
            }
        }
    }
}

/// Decoder model for the two numeric operands of a move-to or line-to
/// operator, starting at `i`.
pub open spec fn decode_two(s: Seq<u8>, i: int, line: bool) -> (Option<OpModel>, int) {
    let n1 = scan_number_at(s, i);
    if !n1.ok {
        (None, n1.end)
    } else {
        let n2 = scan_number_at(s, n1.end);
        if !n2.ok {
            (None, n2.end)
        } else if line {
            (Some(OpModel::LineTo(num_of_scan(n1), num_of_scan(n2))), n2.end)
        } else {
            (Some(OpModel::MoveTo(num_of_scan(n1), num_of_scan(n2))), n2.end)
        }
    }
}

/// Decoder model for the text operators `Tm` (set text matrix) and `Tf`
/// (set font), dispatched on the byte after the `T` at `i`.
pub open spec fn decode_text_op(s: Seq<u8>, i: int) -> (Option<OpModel>, int) {
    if i + 1 >= s.len() {
        (None, i + 1)
    } else if s[i + 1] == 0x6d {
        decode_six(s, skip_ws(s, i + 2), false)
    } else if s[i + 1] == 0x66 {
        if !name_starts(s, i + 2) {
            (None, i + 2)
        } else {
            let nm = scan_name_body(s, i + 3, Seq::empty());
            let sz = scan_number_at(s, nm.end);
            if !sz.ok {
                (None, sz.end)
            } else {
                (Some(OpModel::SetFont(nm.text, num_of_scan(sz))), sz.end)
            }
        }
    } else {
        (None, i + 1)
    }
}

/// Decoder model for the font-selection shorthand: a name followed by a
/// size, starting at the slash at `i`.
pub open spec fn decode_font_shorthand(s: Seq<u8>, i: int) -> (Option<OpModel>, int) {
    let nm = scan_name_body(s, i + 1, Seq::empty());
    let sz = scan_number_at(s, skip_ws(s, nm.end));
    if !sz.ok {
        (None, sz.end)
    } else {
        (Some(OpModel::SetFont(nm.text, num_of_scan(sz))), sz.end)
    }
}

/// The decoder: which operator is recognized at `pos`, and where the cursor
/// stops.  `None` means a decode failure; the driver then resynchronizes by
/// advancing one byte past the returned position.
pub open spec fn decode_op(s: Seq<u8>, pos: int) -> (Option<OpModel>, int) {
    let i = skip_ws(s, pos);
    if i >= s.len() {
        (None, i)
    } else {
        let b = s[i];
        if b == 0x71 {
            (Some(OpModel::SaveState), i + 1)
        } else if b == 0x51 {
            (Some(OpModel::RestoreState), i + 1)
        } else if b == 0x42 {
            if i + 1 < s.len() && s[i + 1] == 0x54 {
                (Some(OpModel::BeginText), i + 2)
            } else {
                (None, i + 1)
            }
        } else if b == 0x45 {
            if i + 1 < s.len() && s[i + 1] == 0x54 {
                (Some(OpModel::EndText), i + 2)
            } else {
                (None, i + 1)
            }
        } else if b == 0x54 {
            decode_text_op(s, i)
        } else if b == 0x28 {
            let ss = scan_string_body(s, i + 1, false, Seq::empty());
            (Some(OpModel::ShowText(ss.text)), ss.end)
        } else if b == 0x5b {
            let ar = scan_array_body(s, i + 1, Seq::empty());
            (Some(OpModel::ShowTextAdjusted(ar.text)), ar.end)
        } else if b == 0x2f {
            decode_font_shorthand(s, i)
        } else if b == 0x6d {
            decode_two(s, i + 1, false)
        } else if b == 0x6c {
            decode_two(s, i + 1, true)
        } else if b == 0x63 {
            decode_six(s, i + 1, true)
        } else if b == 0x68 {
            (Some(OpModel::ClosePath), i + 1)
        } else {
            (None, scan_token_end(s, i))
        }
    }
}

} // verus!
