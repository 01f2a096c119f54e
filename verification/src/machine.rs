//! The interpreter driver's mathematical model.
//!
//! [`interp_from`] runs the whole pass over a byte sequence: it repeatedly
//! applies [`crate::ops::decode_op`] and folds each decoded operator into
//! the machine with [`apply_op`].  The executable driver in
//! [`crate::parser`] is proved to compute exactly this function, so two
//! passes over equal inputs give equal outputs.

use vstd::prelude::*;
use crate::num::{Num, mul_fixed, abs_fixed};
use crate::color::{stroke_rgba, fill_rgba};
use crate::content::{Matrix, identity_matrix, PathCommand, TextModel, VectorModel};
use crate::state::GsModel;
use crate::resources::{ResModel, res_lookup};
use crate::ops::{OpModel, decode_op, decode_six, decode_two, decode_text_op,
    decode_font_shorthand};
use crate::scan::{
    is_blank, skip_ws, lemma_skip_ws_bounds, lemma_scan_number_at_bounds,
    lemma_scan_string_bounds, lemma_scan_array_bounds, lemma_scan_name_bounds,
    lemma_scan_token_bounds, scan_number_at, scan_name_body, name_starts,
};

verus! {

/// The complete state of one interpreter pass.
pub struct Machine {
    /// Cursor position in the byte sequence.
    pub pos: int,
    /// Whether a begin-text operator is active.
    pub in_text: bool,
    /// The text matrix of the active text block.
    pub tm: Matrix,
    /// The current graphics-state snapshot.
    pub cur: GsModel,
    /// The stack of saved snapshots.
    pub stack: Seq<GsModel>,
    /// Path commands accumulated since the last finished path.
    pub path: Seq<PathCommand>,
    /// Text runs emitted so far.
    pub texts: Seq<TextModel>,
    /// Vector paths emitted so far.
    pub vecs: Seq<VectorModel>,
    /// How many restore operators found an empty stack (saturating).
    pub underflows: int,
}

/// The font name recorded on a text run: the current font, or `Default`.
pub open spec fn font_name_or_default(font: Option<Seq<char>>) -> Seq<char> {
    match font {
        Some(n) => n,
        None => "Default"@,
    }
}

/// The text run emitted for shown text `t` under text matrix `tm` and
/// state `cur`: positioned at the matrix translation, with the font size
/// scaled by the magnitude of the matrix's horizontal scale component.
pub open spec fn shown_text(t: Seq<char>, tm: Matrix, cur: GsModel) -> TextModel {
    TextModel {
        text: t,
        x: tm.e,
        y: tm.f,
        font_size: Num { micro: mul_fixed(cur.font_size@, abs_fixed(tm.a@)) as i64 },
        font_name: font_name_or_default(cur.font),
    }
}

/// Effect of one decoded operator on the machine; `end` is the cursor
/// position after the operator and becomes the new `pos`.
pub open spec fn apply_op(m: Machine, op: OpModel, end: int, res: ResModel) -> Machine {
    let m1 = Machine { pos: end, ..m };
    match op {
        OpModel::BeginText => Machine { in_text: true, tm: identity_matrix(), ..m1 },
        OpModel::EndText => Machine { in_text: false, ..m1 },
        OpModel::SetFont(name, size) => {
            if res_lookup(res, name) is Some {
                Machine {
                    cur: GsModel { font: Some(name), font_size: size, ..m.cur },
                    ..m1
                }
            } else {
                m1
            }
        },
        OpModel::SetTextMatrix(a, b, c, d, e, f) => {
            if m.in_text {
                Machine { tm: Matrix { a, b, c, d, e, f }, ..m1 }
            } else {
                m1
            }
        },
        OpModel::ShowText(t) => {
            if m.in_text && !is_blank(t) {
                Machine { texts: m.texts.push(shown_text(t, m.tm, m.cur)), ..m1 }
            } else {
                m1
            }
        },
        OpModel::ShowTextAdjusted(t) => {
            if m.in_text && !is_blank(t) {
                Machine { texts: m.texts.push(shown_text(t, m.tm, m.cur)), ..m1 }
            } else {
                m1
            }
        },
        OpModel::MoveTo(x, y) => Machine { path: m.path.push(PathCommand::MoveTo(x, y)), ..m1 },
        OpModel::LineTo(x, y) => Machine { path: m.path.push(PathCommand::LineTo(x, y)), ..m1 },
        OpModel::CurveTo(a, b, c, d, e, f) => Machine {
            path: m.path.push(PathCommand::CurveTo(a, b, c, d, e, f)),
            ..m1
        },
        OpModel::ClosePath => {
            if m.path.len() == 0 {
                m1
            } else {
                Machine {
                    path: Seq::empty(),
                    vecs: m.vecs.push(
                        VectorModel {
                            path_data: m.path.push(PathCommand::Close),
                            stroke_color: stroke_rgba(m.cur.stroke_color),
                            fill_color: fill_rgba(m.cur.fill_color),
                        },
                    ),
                    ..m1
                }
            }
        },
        OpModel::SaveState => Machine { stack: m.stack.push(m.cur), ..m1 },
        OpModel::RestoreState => {
            if m.stack.len() > 0 {
                Machine { cur: m.stack.last(), stack: m.stack.drop_last(), ..m1 }
            } else {
                Machine {
                    underflows: if m.underflows < usize::MAX as int {
                        m.underflows + 1
                    } else {
                        m.underflows
                    },
                    ..m1
                }
            }
        },
        OpModel::SetStrokeColor(c) => Machine { cur: GsModel { stroke_color: c, ..m.cur }, ..m1 },
        OpModel::SetFillColor(c) => Machine { cur: GsModel { fill_color: c, ..m.cur }, ..m1 },
        _ => m1,
    }
}

/// One step of the driver: decode at `m.pos`; on success apply the
/// operator, on failure resynchronize one byte past the failed scan.
pub open spec fn step(s: Seq<u8>, res: ResModel, m: Machine) -> Machine {
    let (op, end) = decode_op(s, m.pos);
    match op {
        Some(o) => apply_op(m, o, end, res),
        None => Machine {
            pos: if end < s.len() {
                end + 1
            } else {
                end
            },
            ..m
        },
    }
}

pub proof fn lemma_decode_six_bounds(s: Seq<u8>, i: int, curve: bool)
    requires
        0 <= i <= s.len(),
    ensures
        i <= decode_six(s, i, curve).1 <= s.len(),
{
    lemma_scan_number_at_bounds(s, i);
    let n1 = scan_number_at(s, i);
    if n1.ok {
        lemma_scan_number_at_bounds(s, n1.end);
        let n2 = scan_number_at(s, n1.end);
        if n2.ok {
            lemma_scan_number_at_bounds(s, n2.end);
            let n3 = scan_number_at(s, n2.end);
            if n3.ok {
                lemma_scan_number_at_bounds(s, n3.end);
                let n4 = scan_number_at(s, n3.end);
                if n4.ok {
                    lemma_scan_number_at_bounds(s, n4.end);
                    let n5 = scan_number_at(s, n4.end);
                    if n5.ok {
                        lemma_scan_number_at_bounds(s, n5.end);
                    }
                }
            }
        }
    }
}

pub proof fn lemma_decode_two_bounds(s: Seq<u8>, i: int, line: bool)
    requires
        0 <= i <= s.len(),
    ensures
        i <= decode_two(s, i, line).1 <= s.len(),
{
    lemma_scan_number_at_bounds(s, i);
    let n1 = scan_number_at(s, i);
    if n1.ok {
        lemma_scan_number_at_bounds(s, n1.end);
    }
}

pub proof fn lemma_decode_text_op_bounds(s: Seq<u8>, i: int)
    requires
        0 <= i < s.len(),
    ensures
        i < decode_text_op(s, i).1 <= s.len(),
{
    if i + 1 >= s.len() {
    } else if s[i + 1] == 0x6d {
        lemma_skip_ws_bounds(s, i + 2);
        lemma_decode_six_bounds(s, skip_ws(s, i + 2), false);
    } else if s[i + 1] == 0x66 {
        if name_starts(s, i + 2) {
            lemma_scan_name_bounds(s, i + 3, Seq::empty());
            let nm = scan_name_body(s, i + 3, Seq::empty());
            lemma_scan_number_at_bounds(s, nm.end);
        }
    }
}

pub proof fn lemma_decode_font_shorthand_bounds(s: Seq<u8>, i: int)
    requires
        0 <= i < s.len(),
    ensures
        i < decode_font_shorthand(s, i).1 <= s.len(),
{
    lemma_scan_name_bounds(s, i + 1, Seq::empty());
    let nm = scan_name_body(s, i + 1, Seq::empty());
    lemma_skip_ws_bounds(s, nm.end);
    lemma_scan_number_at_bounds(s, skip_ws(s, nm.end));
}

/// The decoder's cursor never moves backwards, never passes the end of the
/// input, and always consumes at least one byte for a recognized operator.
pub proof fn lemma_decode_op_bounds(s: Seq<u8>, pos: int)
    requires
        0 <= pos <= s.len(),
    ensures
        pos <= decode_op(s, pos).1 <= s.len(),
        decode_op(s, pos).0 is Some ==> decode_op(s, pos).1 > pos,
{
    lemma_skip_ws_bounds(s, pos);
    let i = skip_ws(s, pos);
    if i < s.len() {
        let b = s[i];
        if b == 0x71 || b == 0x51 {
        } else if b == 0x42 || b == 0x45 {
        } else if b == 0x54 {
            lemma_decode_text_op_bounds(s, i);
        } else if b == 0x28 {
            lemma_scan_string_bounds(s, i + 1, false, Seq::empty());
        } else if b == 0x5b {
            lemma_scan_array_bounds(s, i + 1, Seq::empty());
        } else if b == 0x2f {
            lemma_decode_font_shorthand_bounds(s, i);
        } else if b == 0x6d || b == 0x6c {
            lemma_decode_two_bounds(s, i + 1, b == 0x6c);
        } else if b == 0x63 {
            lemma_decode_six_bounds(s, i + 1, true);
        } else if b == 0x68 {
        } else {
            lemma_scan_token_bounds(s, i);
        }
    }
}

/// The whole pass from machine state `m` to the end of the input.
pub open spec fn interp_from(s: Seq<u8>, res: ResModel, m: Machine) -> Machine
    decreases s.len() - m.pos,
    when 0 <= m.pos
    via interp_from_dec
{
    if m.pos >= s.len() {
        m
    } else {
        interp_from(s, res, step(s, res, m))
    }
}

#[via_fn]
proof fn interp_from_dec(s: Seq<u8>, res: ResModel, m: Machine) {
    if 0 <= m.pos && m.pos < s.len() {
        lemma_decode_op_bounds(s, m.pos);
    }
}

/// Number of save operators in a sequence.
pub open spec fn count_saves(ops: Seq<OpModel>) -> int
    decreases ops.len(),
{
    if ops.len() == 0 {
        0
    } else {
        (if ops.first() is SaveState {
            1int
        } else {
            0int
        }) + count_saves(ops.drop_first())
    }
}

/// Number of restore operators in a sequence.
pub open spec fn count_restores(ops: Seq<OpModel>) -> int
    decreases ops.len(),
{
    if ops.len() == 0 {
        0
    } else {
        (if ops.first() is RestoreState {
            1int
        } else {
            0int
        }) + count_restores(ops.drop_first())
    }
}

/// Whether a sequence consists of save and restore operators only.
pub open spec fn only_save_restore(ops: Seq<OpModel>) -> bool {
    forall|k: int| 0 <= k < ops.len() ==> (#[trigger] ops[k]) is SaveState || ops[k] is RestoreState
}

/// The machine after applying a sequence of operators in order, with the
/// cursor left in place.
pub open spec fn run_ops(ops: Seq<OpModel>, m: Machine, res: ResModel) -> Machine
    decreases ops.len(),
{
    if ops.len() == 0 {
        m
    } else {
        run_ops(ops.drop_first(), apply_op(m, ops.first(), m.pos, res), res)
    }
}

proof fn lemma_sr_run(ops: Seq<OpModel>, m: Machine, res: ResModel, c: GsModel)
    requires
        only_save_restore(ops),
        m.cur == c,
        forall|j: int| 0 <= j < m.stack.len() ==> m.stack[j] == c,
        forall|k: int| 0 <= k <= ops.len() ==> count_restores(#[trigger] ops.take(k))
            <= m.stack.len() + count_saves(ops.take(k)),
    ensures
        run_ops(ops, m, res).cur == c,
        run_ops(ops, m, res).stack.len() == m.stack.len() + count_saves(ops) - count_restores(
            ops,
        ),
        forall|j: int| 0 <= j < run_ops(ops, m, res).stack.len() ==> run_ops(
            ops,
            m,
            res,
        ).stack[j] == c,
        run_ops(ops, m, res).underflows == m.underflows,
        run_ops(ops, m, res).texts == m.texts,
        run_ops(ops, m, res).vecs == m.vecs,
    decreases ops.len(),
{
    if ops.len() > 0 {
        let op = ops.first();
        let tail = ops.drop_first();
        let m1 = apply_op(m, op, m.pos, res);
        assert(ops.take(1).drop_first() =~= tail.take(0));
        assert(count_restores(ops.take(1)) <= m.stack.len() + count_saves(ops.take(1)));
        if op is SaveState {
            assert forall|k: int| 0 <= k <= tail.len() implies count_restores(
                #[trigger] tail.take(k),
            ) <= m1.stack.len() + count_saves(tail.take(k)) by {
                assert(ops.take(k + 1).drop_first() =~= tail.take(k));
                assert(count_restores(ops.take(k + 1)) <= m.stack.len() + count_saves(
                    ops.take(k + 1),
                ));
            }
            lemma_sr_run(tail, m1, res, c);
        } else {
            assert(ops.take(1).len() == 1);
            assert(ops.take(1).first() == op);
            assert(ops.take(1).drop_first() =~= Seq::<OpModel>::empty());
            assert(count_restores(Seq::<OpModel>::empty()) == 0);
            assert(count_saves(Seq::<OpModel>::empty()) == 0);
            assert(count_restores(ops.take(1)) == 1);
            assert(count_saves(ops.take(1)) == 0);
            assert(m.stack.len() >= 1);
            assert(m1.cur == m.stack.last());
            assert forall|k: int| 0 <= k <= tail.len() implies count_restores(
                #[trigger] tail.take(k),
            ) <= m1.stack.len() + count_saves(tail.take(k)) by {
                assert(ops.take(k + 1).drop_first() =~= tail.take(k));
                assert(count_restores(ops.take(k + 1)) <= m.stack.len() + count_saves(
                    ops.take(k + 1),
                ));
            }
            lemma_sr_run(tail, m1, res, c);
        }
    }
}

/// Balance law of the state stack.  For a sequence of save and restore
/// operators in which every restore is matched by a prior save, run from
/// a machine with an empty stack: the current state always returns to the
/// initial one, no underflow is recorded, the final stack depth is the
/// surplus of saves over restores — so the whole configuration (current
/// state together with the stack) equals the initial one exactly when the
/// number of saves equals the number of restores.
pub proof fn lemma_save_restore_balance(ops: Seq<OpModel>, m: Machine, res: ResModel)
    requires
        only_save_restore(ops),
        m.stack.len() == 0,
        forall|k: int| 0 <= k <= ops.len() ==> count_restores(#[trigger] ops.take(k))
            <= count_saves(ops.take(k)),
    ensures
        run_ops(ops, m, res).cur == m.cur,
        run_ops(ops, m, res).underflows == m.underflows,
        run_ops(ops, m, res).stack.len() == count_saves(ops) - count_restores(ops),
        (run_ops(ops, m, res).cur == m.cur && run_ops(ops, m, res).stack =~= m.stack)
            <==> count_saves(ops) == count_restores(ops),
{
    lemma_sr_run(ops, m, res, m.cur);
    if count_saves(ops) == count_restores(ops) {
        assert(run_ops(ops, m, res).stack =~= m.stack);
    }
}

/// The interpreter is a function of its input: equal bytes, equal
/// resource tables and equal starting machines give equal final machines.
/// Together with the contract of [`crate::parser::ContentParser::parse`],
/// which returns exactly this function of its input, parsing the same
/// buffer twice yields identical output sequences.
pub proof fn lemma_interp_deterministic(
    s1: Seq<u8>,
    s2: Seq<u8>,
    res1: ResModel,
    res2: ResModel,
    m1: Machine,
    m2: Machine,
)
    requires
        s1 == s2,
        res1 == res2,
        m1 == m2,
    ensures
        interp_from(s1, res1, m1) == interp_from(s2, res2, m2),
{
}

/// The machine at the start of a pass: cursor at `pos`, no active text
/// block, identity text matrix, empty path and output lists.
pub open spec fn start_machine(
    pos: int,
    cur: GsModel,
    stack: Seq<GsModel>,
    underflows: int,
) -> Machine {
    Machine {
        pos,
        in_text: false,
        tm: identity_matrix(),
        cur,
        stack,
        path: Seq::empty(),
        texts: Seq::empty(),
        vecs: Seq::empty(),
        underflows,
    }
}

} // verus!
