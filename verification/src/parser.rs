//! The executable content-stream parser: cursor, tokenizer, operator
//! decoder and interpreter driver.
//!
//! Every method is proved against the scan functions of [`crate::scan`],
//! the decoder model [`crate::ops::decode_op`], and the driver model
//! [`crate::machine::interp_from`].

use vstd::prelude::*;
use crate::num::Num;
use crate::scan::{
    is_ws, skip_ws, scan_number_at, scan_number_from, digits_val, frac_val, frac_weight,
    NumScan, scan_name_body, scan_string_body, scan_array_body, name_starts, string_starts,
    esc_char, scan_token_end, TextScan,
};
use crate::ops::{num_of_scan, Operator, decode_op, decode_six, decode_text_op};
use crate::state::{GraphicsState, GsModel};
use crate::resources::{PDFResources, PDFError, ResModel, res_lookup};
use crate::content::{PathCommand, Matrix, TextObject, VectorObject, TextModel, VectorModel};
use crate::color::{Color, ColorRgba};
use crate::machine::{Machine, interp_from, step, apply_op, start_machine,
    lemma_decode_op_bounds, shown_text};
use crate::scan::{is_blank, is_blank_char};

verus! {

/// Relies on `String::push`: appends exactly the given character.
pub assume_specification[ String::push ](s: &mut String, ch: char)
    ensures
        final(s)@ == old(s)@.push(ch),
;

/// A one-pass parser over one page's content stream.
pub struct ContentParser<'a> {
    data: &'a [u8],
    position: usize,
    graphics_state_stack: Vec<GraphicsState>,
    current_state: GraphicsState,
    resources: &'a PDFResources,
    underflow_count: usize,
}

impl<'a> ContentParser<'a> {
    /// The bytes being parsed.
    pub closed spec fn spec_data(&self) -> Seq<u8> {
        self.data@
    }

    /// The cursor position.
    pub closed spec fn spec_pos(&self) -> int {
        self.position as int
    }

    /// The current graphics state.
    pub closed spec fn spec_state(&self) -> GsModel {
        self.current_state@
    }

    /// The stack of saved graphics states.
    pub closed spec fn spec_stack(&self) -> Seq<GsModel> {
        self.graphics_state_stack.deep_view()
    }

    /// The resource table consulted for font lookups.
    pub closed spec fn spec_res(&self) -> ResModel {
        self.resources@
    }

    /// How many restore operators found an empty stack so far.
    pub closed spec fn spec_underflows(&self) -> int {
        self.underflow_count as int
    }

    /// A parser over `data`, at position zero, in the initial graphics
    /// state with an empty stack.
    pub fn new(data: &'a [u8], resources: &'a PDFResources) -> (r: ContentParser<'a>)
        ensures
            r.spec_data() == data@,
            r.spec_pos() == 0,
            r.spec_state() == crate::state::init_gs(),
            r.spec_stack() == Seq::<GsModel>::empty(),
            r.spec_res() == resources@,
            r.spec_underflows() == 0,
    {
        let r = ContentParser {
            data,
            position: 0,
            graphics_state_stack: Vec::new(),
            current_state: GraphicsState::new(),
            resources,
            underflow_count: 0,
        };
        proof {
            assert(r.spec_stack() =~= Seq::<GsModel>::empty());
        }
        r
    }

    /// The cursor position.
    pub fn position(&self) -> (r: usize)
        ensures
            r as int == self.spec_pos(),
    {
        self.position
    }

    /// The current graphics state.
    pub fn current_state(&self) -> (r: &GraphicsState)
        ensures
            r@ == self.spec_state(),
    {
        &self.current_state
    }

    /// Depth of the graphics-state stack.
    pub fn stack_depth(&self) -> (r: usize)
        ensures
            r as int == self.spec_stack().len(),
    {
        self.graphics_state_stack.len()
    }

    /// How many restore operators found an empty stack so far.
    pub fn underflow_count(&self) -> (r: usize)
        ensures
            r as int == self.spec_underflows(),
    {
        self.underflow_count
    }

    /// The byte at the cursor, or nothing at end of input.
    pub fn peek_byte(&self) -> (r: Option<u8>)
        ensures
            r == if self.spec_pos() < self.spec_data().len() {
                Some(self.spec_data()[self.spec_pos()])
            } else {
                None::<u8>
            },
    {
        if self.position < self.data.len() {
            Some(self.data[self.position])
        } else {
            None
        }
    }

    /// Move the cursor one byte forward; at end of input it stays put.
    pub fn advance(&mut self)
        ensures
            final(self).spec_pos() == if old(self).spec_pos() < old(self).spec_data().len() {
                old(self).spec_pos() + 1
            } else {
                old(self).spec_pos()
            },
            frame_eq(*old(self), *final(self)),
    {
        if self.position < self.data.len() {
            self.position = self.position + 1;
        }
    }

    /// Advance past whitespace: space, tab, line feed, carriage return and
    /// null bytes.
    pub fn skip_whitespace(&mut self)
        requires
            old(self).spec_pos() <= old(self).spec_data().len(),
        ensures
            final(self).spec_pos() == skip_ws(old(self).spec_data(), old(self).spec_pos()),
            final(self).spec_pos() <= final(self).spec_data().len(),
            frame_eq(*old(self), *final(self)),
    {
        let ghost s0 = self.spec_data();
        let ghost p0 = self.spec_pos();
        loop
            invariant
                self.spec_pos() <= s0.len(),
                self.spec_data() == s0,
                skip_ws(s0, self.spec_pos()) == skip_ws(s0, p0),
                frame_eq(*old(self), *self),
            ensures
                self.spec_data() == s0,
                frame_eq(*old(self), *self),
                self.spec_pos() == skip_ws(s0, p0),
            decreases s0.len() - self.spec_pos(),
        {
            if self.position >= self.data.len() {
                proof {
                    assert(skip_ws(s0, self.spec_pos()) == self.spec_pos());
                }
                break;
            }
            let b = self.data[self.position];
            if !byte_is_ws(b) {
                proof {
                    assert(skip_ws(s0, self.spec_pos()) == self.spec_pos());
                }
                break;
            }
            self.position = self.position + 1;
        }
    }

    /// Scan one numeric literal: an optional leading minus sign, digits,
    /// and at most one decimal point.  Returns nothing if no digit was
    /// consumed; the cursor stops where the scan stopped either way.
    pub fn parse_number(&mut self) -> (r: Option<Num>)
        requires
            old(self).spec_pos() <= old(self).spec_data().len(),
        ensures
            final(self).spec_pos() == scan_number_at(
                old(self).spec_data(),
                old(self).spec_pos(),
            ).end,
            final(self).spec_pos() <= final(self).spec_data().len(),
            r is Some <==> scan_number_at(old(self).spec_data(), old(self).spec_pos()).ok,
            r is Some ==> r->0 == num_of_scan(
                scan_number_at(old(self).spec_data(), old(self).spec_pos()),
            ),
            frame_eq(*old(self), *final(self)),
    {
        let ghost s = self.spec_data();
        let ghost p0 = self.spec_pos();
        self.skip_whitespace();
        let start: usize = self.position;
        let mut neg = false;
        let mut hd = false;
        let mut hdec = false;
        let mut isat = false;
        let mut ival: u64 = 0;
        let mut fval: u64 = 0;
        let mut fw: u64 = 100000;
        let ghost mut ip: Seq<u8> = Seq::empty();
        let ghost mut fp: Seq<u8> = Seq::empty();
        loop
            invariant
                self.spec_data() == s,
                start <= self.position,
                start as int == skip_ws(s, p0),
                self.spec_pos() <= s.len(),
                frame_eq(*old(self), *self),
                scan_number_from(
                    s,
                    self.spec_pos(),
                    start as int,
                    neg,
                    hd,
                    hdec,
                    ip,
                    fp,
                ) == scan_number_from(
                    s,
                    start as int,
                    start as int,
                    false,
                    false,
                    false,
                    Seq::empty(),
                    Seq::empty(),
                ),
                !isat ==> ival as int == digits_val(ip) && ival <= 999_999_999_999u64,
                isat ==> digits_val(ip) > 999_999_999_999,
                fw as int == frac_weight(fp.len() as int),
                fval as int == frac_val(fp),
                fw > 0 ==> fval + 10 * fw <= 1000000,
                fw == 0 ==> fval <= 999999,
            ensures
                self.spec_data() == s,
                frame_eq(*old(self), *self),
                self.spec_pos() <= s.len(),
                scan_number_at(s, p0) == (NumScan {
                    end: self.spec_pos(),
                    ok: hd,
                    neg,
                    ipart: ip,
                    fpart: fp,
                }),
                !isat ==> ival as int == digits_val(ip) && ival <= 999_999_999_999u64,
                isat ==> digits_val(ip) > 999_999_999_999,
                fval as int == frac_val(fp),
                fval <= 999999,
            decreases s.len() - self.spec_pos(),
        {
            if self.position >= self.data.len() {
                proof {
                    assert(scan_number_from(s, self.spec_pos(), start as int, neg, hd, hdec, ip, fp)
                        == (NumScan { end: self.spec_pos(), ok: hd, neg, ipart: ip, fpart: fp }));
                }
                break;
            }
            let b = self.data[self.position];
            if b >= 0x30 && b <= 0x39 {
                hd = true;
                if hdec {
                    proof {
                        assert(((b - 0x30) as u64) * fw <= 900000) by (nonlinear_arith)
                            requires
                                0x30 <= b <= 0x39,
                                0 <= fw <= 100000,
                        ;
                        assert(fp.push(b).drop_last() =~= fp);
                    }
                    fval = fval + ((b - 0x30) as u64) * fw;
                    fw = fw / 10;
                    proof {
                        fp = fp.push(b);
                    }
                } else {
                    proof {
                        assert(ip.push(b).drop_last() =~= ip);
                    }
                    if isat || ival > 99_999_999_999u64 {
                        isat = true;
                    } else {
                        ival = ival * 10 + (b - 0x30) as u64;
                    }
                    proof {
                        ip = ip.push(b);
                    }
                }
                self.position = self.position + 1;
            } else if b == 0x2e && !hdec {
                hdec = true;
                self.position = self.position + 1;
            } else if b == 0x2d && self.position == start {
                neg = true;
                self.position = self.position + 1;
            } else {
                proof {
                    assert(scan_number_from(s, self.spec_pos(), start as int, neg, hd, hdec, ip, fp)
                        == (NumScan { end: self.spec_pos(), ok: hd, neg, ipart: ip, fpart: fp }));
                }
                break;
            }
        }
        let ghost sc = scan_number_at(s, p0);
        if !hd {
            return None;
        }
        let mag: u64 = if isat {
            999_999_999_999_999_999u64
        } else {
            ival * 1_000_000 + fval
        };
        proof {
            if isat {
                assert(digits_val(ip) * 1000000 >= 1_000_000_000_000_000_000);
            }
            assert(mag as int == crate::num::clamp_mag(
                digits_val(ip) * 1000000 + frac_val(fp),
            ));
        }
        let micro: i64 = mag as i64;
        if neg {
            Some(Num { micro: -micro })
        } else {
            Some(Num { micro })
        }
    }
}

impl<'a> ContentParser<'a> {
    /// Scan a name token: a leading slash, then everything up to
    /// whitespace or one of `[`, `]`, `<`, `>`.  Returns the name without
    /// the slash, or nothing (cursor unmoved) if no slash is present.
    pub fn parse_name(&mut self) -> (r: Option<String>)
        requires
            old(self).spec_pos() <= old(self).spec_data().len(),
        ensures
            frame_eq(*old(self), *final(self)),
            final(self).spec_pos() <= final(self).spec_data().len(),
            !name_starts(old(self).spec_data(), old(self).spec_pos()) ==> r is None
                && final(self).spec_pos() == old(self).spec_pos(),
            name_starts(old(self).spec_data(), old(self).spec_pos()) ==> r is Some
                && r->0@ == scan_name_body(
                    old(self).spec_data(),
                    old(self).spec_pos() + 1,
                    Seq::empty(),
                ).text
                && final(self).spec_pos() == scan_name_body(
                    old(self).spec_data(),
                    old(self).spec_pos() + 1,
                    Seq::empty(),
                ).end,
    {
        let ghost s = self.spec_data();
        let ghost p0 = self.spec_pos();
        if self.position >= self.data.len() {
            return None;
        }
        if self.data[self.position] != 0x2f {
            return None;
        }
        self.position = self.position + 1;
        let mut name = String::new();
        loop
            invariant
                self.spec_data() == s,
                self.spec_pos() <= s.len(),
                frame_eq(*old(self), *self),
                scan_name_body(s, self.spec_pos(), name@) == scan_name_body(
                    s,
                    p0 + 1,
                    Seq::empty(),
                ),
            ensures
                self.spec_data() == s,
                self.spec_pos() <= s.len(),
                frame_eq(*old(self), *self),
                scan_name_body(s, p0 + 1, Seq::empty()) == (TextScan {
                    end: self.spec_pos(),
                    text: name@,
                }),
            decreases s.len() - self.spec_pos(),
        {
            if self.position >= self.data.len() {
                proof {
                    assert(scan_name_body(s, self.spec_pos(), name@) == (TextScan {
                        end: self.spec_pos(),
                        text: name@,
                    }));
                }
                break;
            }
            let b = self.data[self.position];
            if byte_is_ws(b) || b == 0x5b || b == 0x5d || b == 0x3c || b == 0x3e {
                proof {
                    assert(scan_name_body(s, self.spec_pos(), name@) == (TextScan {
                        end: self.spec_pos(),
                        text: name@,
                    }));
                }
                break;
            }
            name.push(b as char);
            self.position = self.position + 1;
        }
        Some(name)
    }

    /// Scan a parenthesized literal string, decoding backslash escapes.
    /// An unterminated string yields all text accumulated up to the end of
    /// the input.  Returns nothing (cursor unmoved) if no opening
    /// parenthesis is present.
    pub fn parse_text_string(&mut self) -> (r: Option<String>)
        requires
            old(self).spec_pos() <= old(self).spec_data().len(),
        ensures
            frame_eq(*old(self), *final(self)),
            final(self).spec_pos() <= final(self).spec_data().len(),
            !string_starts(old(self).spec_data(), old(self).spec_pos()) ==> r is None
                && final(self).spec_pos() == old(self).spec_pos(),
            string_starts(old(self).spec_data(), old(self).spec_pos()) ==> r is Some
                && r->0@ == scan_string_body(
                    old(self).spec_data(),
                    old(self).spec_pos() + 1,
                    false,
                    Seq::empty(),
                ).text
                && final(self).spec_pos() == scan_string_body(
                    old(self).spec_data(),
                    old(self).spec_pos() + 1,
                    false,
                    Seq::empty(),
                ).end,
    {
        let ghost s = self.spec_data();
        let ghost p0 = self.spec_pos();
        if self.position >= self.data.len() {
            return None;
        }
        if self.data[self.position] != 0x28 {
            return None;
        }
        self.position = self.position + 1;
        let mut text = String::new();
        let mut escaped = false;
        loop
            invariant_except_break
                scan_string_body(s, self.spec_pos(), escaped, text@) == scan_string_body(
                    s,
                    p0 + 1,
                    false,
                    Seq::empty(),
                ),
            invariant
                self.spec_data() == s,
                self.spec_pos() <= s.len(),
                frame_eq(*old(self), *self),
            ensures
                self.spec_data() == s,
                self.spec_pos() <= s.len(),
                frame_eq(*old(self), *self),
                scan_string_body(s, p0 + 1, false, Seq::empty()) == (TextScan {
                    end: self.spec_pos(),
                    text: text@,
                }),
            decreases s.len() - self.spec_pos(),
        {
            if self.position >= self.data.len() {
                proof {
                    assert(scan_string_body(s, self.spec_pos(), escaped, text@) == (TextScan {
                        end: self.spec_pos(),
                        text: text@,
                    }));
                }
                break;
            }
            let b = self.data[self.position];
            let ghost prev = self.spec_pos();
            self.position = self.position + 1;
            if b == 0x29 && !escaped {
                proof {
                    assert(scan_string_body(s, prev, escaped, text@) == (TextScan {
                        end: self.spec_pos(),
                        text: text@,
                    }));
                }
                break;
            } else if b == 0x5c && !escaped {
                escaped = true;
            } else if escaped {
                text.push(esc_char_exec(b));
                escaped = false;
            } else {
                text.push(b as char);
            }
        }
        Some(text)
    }

    /// Scan a bracketed text array: the texts of its parenthesized strings
    /// are concatenated, numeric kerning values between them are skipped
    /// and their values discarded.  The first byte is consumed unseen, so
    /// this is meant to be called on an opening bracket.
    pub fn parse_text_array(&mut self) -> (r: Option<String>)
        requires
            old(self).spec_pos() <= old(self).spec_data().len(),
        ensures
            frame_eq(*old(self), *final(self)),
            final(self).spec_pos() <= final(self).spec_data().len(),
            r is Some,
            ({
                let s = old(self).spec_data();
                let j = if old(self).spec_pos() < s.len() {
                    old(self).spec_pos() + 1
                } else {
                    old(self).spec_pos()
                };
                r->0@ == scan_array_body(s, j, Seq::empty()).text
                    && final(self).spec_pos() == scan_array_body(s, j, Seq::empty()).end
            }),
    {
        let ghost s = self.spec_data();
        self.advance();
        let ghost j = self.spec_pos();
        let mut text = String::new();
        loop
            invariant_except_break
                scan_array_body(s, self.spec_pos(), text@) == scan_array_body(
                    s,
                    j,
                    Seq::empty(),
                ),
            invariant
                self.spec_data() == s,
                self.spec_pos() <= s.len(),
                frame_eq(*old(self), *self),
            ensures
                self.spec_data() == s,
                self.spec_pos() <= s.len(),
                frame_eq(*old(self), *self),
                scan_array_body(s, j, Seq::empty()) == (TextScan {
                    end: self.spec_pos(),
                    text: text@,
                }),
            decreases s.len() - self.spec_pos(),
        {
            if self.position >= self.data.len() {
                proof {
                    assert(scan_array_body(s, self.spec_pos(), text@) == (TextScan {
                        end: self.spec_pos(),
                        text: text@,
                    }));
                }
                break;
            }
            let b = self.data[self.position];
            if b == 0x5d {
                let ghost prev = self.spec_pos();
                self.advance();
                proof {
                    assert(scan_array_body(s, prev, text@) == (TextScan {
                        end: self.spec_pos(),
                        text: text@,
                    }));
                }
                break;
            } else if b == 0x28 {
                let ghost prev = self.spec_pos();
                let ghost acc0 = text@;
                let part_opt = self.parse_text_string();
                if let Some(part) = part_opt {
                    text.append(part.as_str());
                }
                proof {
                    crate::scan::lemma_scan_string_acc(s, prev + 1, false, acc0);
                    crate::scan::lemma_scan_string_bounds(s, prev + 1, false, acc0);
                    let ss = scan_string_body(s, prev + 1, false, acc0);
                    assert(text@ == ss.text);
                    assert(self.spec_pos() == ss.end);
                    assert(scan_array_body(s, prev, acc0) == scan_array_body(
                        s,
                        ss.end,
                        ss.text,
                    ));
                }
            } else {
                self.advance();
            }
        }
        Some(text)
    }
}

impl<'a> ContentParser<'a> {
    /// A begin-text operator: the byte after the `B` must be `T`.
    fn parse_begin_text(&mut self) -> (r: Option<Operator>)
        requires
            old(self).spec_pos() < old(self).spec_data().len(),
        ensures
            frame_eq(*old(self), *final(self)),
            final(self).spec_pos() <= final(self).spec_data().len(),
            ({
                let s = old(self).spec_data();
                let i = old(self).spec_pos();
                if i + 1 < s.len() && s[i + 1] == 0x54 {
                    r == Some(Operator::BeginText) && final(self).spec_pos() == i + 2
                } else {
                    r is None && final(self).spec_pos() == i + 1
                }
            }),
    {
        self.advance();
        match self.peek_byte() {
            Some(b) => {
                if b == 0x54 {
                    self.advance();
                    Some(Operator::BeginText)
                } else {
                    None
                }
            },
            None => None,
        }
    }

    /// An end-text operator: the byte after the `E` must be `T`.
    fn parse_end_text(&mut self) -> (r: Option<Operator>)
        requires
            old(self).spec_pos() < old(self).spec_data().len(),
        ensures
            frame_eq(*old(self), *final(self)),
            final(self).spec_pos() <= final(self).spec_data().len(),
            ({
                let s = old(self).spec_data();
                let i = old(self).spec_pos();
                if i + 1 < s.len() && s[i + 1] == 0x54 {
                    r == Some(Operator::EndText) && final(self).spec_pos() == i + 2
                } else {
                    r is None && final(self).spec_pos() == i + 1
                }
            }),
    {
        self.advance();
        match self.peek_byte() {
            Some(b) => {
                if b == 0x54 {
                    self.advance();
                    Some(Operator::EndText)
                } else {
                    None
                }
            },
            None => None,
        }
    }

    /// The six numeric operands of a set-text-matrix operator, read after
    /// the `Tm` bytes.
    fn parse_text_matrix(&mut self) -> (r: Option<Operator>)
        requires
            old(self).spec_pos() < old(self).spec_data().len(),
        ensures
            frame_eq(*old(self), *final(self)),
            final(self).spec_pos() <= final(self).spec_data().len(),
            ({
                let s = old(self).spec_data();
                let d = decode_six(s, skip_ws(s, old(self).spec_pos() + 1), false);
                &&& final(self).spec_pos() == d.1
                &&& (r is Some <==> d.0 is Some)
                &&& (r is Some ==> r->0@ == d.0->0)
            }),
    {
        self.advance();
        self.skip_whitespace();
        let a = match self.parse_number() {
            Some(v) => v,
            None => {
                return None;
            },
        };
        let b = match self.parse_number() {
            Some(v) => v,
            None => {
                return None;
            },
        };
        let c = match self.parse_number() {
            Some(v) => v,
            None => {
                return None;
            },
        };
        let d = match self.parse_number() {
            Some(v) => v,
            None => {
                return None;
            },
        };
        let e = match self.parse_number() {
            Some(v) => v,
            None => {
                return None;
            },
        };
        let f = match self.parse_number() {
            Some(v) => v,
            None => {
                return None;
            },
        };
        Some(Operator::SetTextMatrix(a, b, c, d, e, f))
    }

    /// A text operator: dispatch on the byte after the `T`, `m` for the
    /// text matrix and `f` for font selection.
    fn parse_text_operator(&mut self) -> (r: Option<Operator>)
        requires
            old(self).spec_pos() < old(self).spec_data().len(),
        ensures
            frame_eq(*old(self), *final(self)),
            final(self).spec_pos() <= final(self).spec_data().len(),
            ({
                let s = old(self).spec_data();
                let d = decode_text_op(s, old(self).spec_pos());
                &&& final(self).spec_pos() == d.1
                &&& (r is Some <==> d.0 is Some)
                &&& (r is Some ==> r->0@ == d.0->0)
            }),
    {
        self.advance();
        let b = match self.peek_byte() {
            Some(b) => b,
            None => {
                return None;
            },
        };
        if b == 0x6d {
            self.parse_text_matrix()
        } else if b == 0x66 {
            self.advance();
            let name = match self.parse_name() {
                Some(n) => n,
                None => {
                    return None;
                },
            };
            let size = match self.parse_number() {
                Some(v) => v,
                None => {
                    return None;
                },
            };
            Some(Operator::SetFont(name, size))
        } else {
            None
        }
    }

    /// The next operator of the stream, or nothing on a decode failure;
    /// the cursor then rests where the failed scan stopped.
    pub fn parse_next_operator(&mut self) -> (r: Option<Operator>)
        requires
            old(self).spec_pos() <= old(self).spec_data().len(),
        ensures
            frame_eq(*old(self), *final(self)),
            final(self).spec_pos() <= final(self).spec_data().len(),
            ({
                let d = decode_op(old(self).spec_data(), old(self).spec_pos());
                &&& final(self).spec_pos() == d.1
                &&& (r is Some <==> d.0 is Some)
                &&& (r is Some ==> r->0@ == d.0->0)
            }),
    {
        let ghost s = self.spec_data();
        self.skip_whitespace();
        let b = match self.peek_byte() {
            Some(b) => b,
            None => {
                return None;
            },
        };
        if b == 0x71 {
            self.advance();
            Some(Operator::SaveState)
        } else if b == 0x51 {
            self.advance();
            Some(Operator::RestoreState)
        } else if b == 0x42 {
            self.parse_begin_text()
        } else if b == 0x45 {
            self.parse_end_text()
        } else if b == 0x54 {
            self.parse_text_operator()
        } else if b == 0x28 {
            match self.parse_text_string() {
                Some(text) => Some(Operator::ShowText(text)),
                None => None,
            }
        } else if b == 0x5b {
            match self.parse_text_array() {
                Some(text) => Some(Operator::ShowTextAdjusted(text)),
                None => None,
            }
        } else if b == 0x2f {
            let name = match self.parse_name() {
                Some(n) => n,
                None => {
                    return None;
                },
            };
            self.skip_whitespace();
            match self.parse_number() {
                Some(size) => Some(Operator::SetFont(name, size)),
                None => None,
            }
        } else if b == 0x6d {
            self.advance();
            let x = match self.parse_number() {
                Some(v) => v,
                None => {
                    return None;
                },
            };
            let y = match self.parse_number() {
                Some(v) => v,
                None => {
                    return None;
                },
            };
            Some(Operator::MoveTo(x, y))
        } else if b == 0x6c {
            self.advance();
            let x = match self.parse_number() {
                Some(v) => v,
                None => {
                    return None;
                },
            };
            let y = match self.parse_number() {
                Some(v) => v,
                None => {
                    return None;
                },
            };
            Some(Operator::LineTo(x, y))
        } else if b == 0x63 {
            self.advance();
            let x1 = match self.parse_number() {
                Some(v) => v,
                None => {
                    return None;
                },
            };
            let y1 = match self.parse_number() {
                Some(v) => v,
                None => {
                    return None;
                },
            };
            let x2 = match self.parse_number() {
                Some(v) => v,
                None => {
                    return None;
                },
            };
            let y2 = match self.parse_number() {
                Some(v) => v,
                None => {
                    return None;
                },
            };
            let x3 = match self.parse_number() {
                Some(v) => v,
                None => {
                    return None;
                },
            };
            let y3 = match self.parse_number() {
                Some(v) => v,
                None => {
                    return None;
                },
            };
            Some(Operator::CurveTo(x1, y1, x2, y2, x3, y3))
        } else if b == 0x68 {
            self.advance();
            Some(Operator::ClosePath)
        } else {
            let ghost i = self.spec_pos();
            loop
                invariant
                    self.spec_data() == s,
                    self.spec_pos() <= s.len(),
                    frame_eq(*old(self), *self),
                    scan_token_end(s, self.spec_pos()) == scan_token_end(s, i),
                ensures
                    self.spec_data() == s,
                    self.spec_pos() <= s.len(),
                    frame_eq(*old(self), *self),
                    self.spec_pos() == scan_token_end(s, i),
                decreases s.len() - self.spec_pos(),
            {
                if self.position >= self.data.len() {
                    proof {
                        assert(scan_token_end(s, self.spec_pos()) == self.spec_pos());
                    }
                    break;
                }
                let t = self.data[self.position];
                if byte_is_ws(t) {
                    proof {
                        assert(scan_token_end(s, self.spec_pos()) == self.spec_pos());
                    }
                    break;
                }
                self.position = self.position + 1;
            }
            None
        }
    }
}

impl<'a> ContentParser<'a> {
    /// A save operator: push a copy of the current state onto the stack.
    pub fn handle_save_state(&mut self)
        ensures
            final(self).spec_stack() == old(self).spec_stack().push(old(self).spec_state()),
            final(self).spec_data() == old(self).spec_data(),
            final(self).spec_pos() == old(self).spec_pos(),
            final(self).spec_res() == old(self).spec_res(),
            final(self).spec_state() == old(self).spec_state(),
            final(self).spec_underflows() == old(self).spec_underflows(),
    {
        let snap = self.current_state.duplicate();
        self.graphics_state_stack.push(snap);
        proof {
            assert(self.spec_stack() =~= old(self).spec_stack().push(old(self).spec_state()));
        }
    }

    /// A restore operator: pop the top of the stack into the current
    /// state.  With an empty stack this is the stack-underflow condition:
    /// the state is left unchanged and an error is reported.
    pub fn handle_restore_state(&mut self) -> (r: Result<(), PDFError>)
        ensures
            final(self).spec_data() == old(self).spec_data(),
            final(self).spec_pos() == old(self).spec_pos(),
            final(self).spec_res() == old(self).spec_res(),
            final(self).spec_underflows() == old(self).spec_underflows(),
            old(self).spec_stack().len() > 0 ==> r is Ok
                && final(self).spec_state() == old(self).spec_stack().last()
                && final(self).spec_stack() == old(self).spec_stack().drop_last(),
            old(self).spec_stack().len() == 0 ==> r is Err
                && r->Err_0 is ParseError
                && r->Err_0->ParseError_0@ == "Graphics state stack underflow"@
                && final(self).spec_state() == old(self).spec_state()
                && final(self).spec_stack() == old(self).spec_stack(),
    {
        match self.graphics_state_stack.pop() {
            Some(state) => {
                self.current_state = state;
                proof {
                    assert(self.spec_stack() =~= old(self).spec_stack().drop_last());
                }
                Ok(())
            },
            None => {
                proof {
                    assert(self.spec_stack() =~= old(self).spec_stack());
                }
                Err(PDFError::ParseError("Graphics state stack underflow".to_owned()))
            },
        }
    }

    /// A set-font operator: record the font name and size on the current
    /// state, but only if the resource table knows the name; an unknown
    /// font name is a no-op.
    pub fn handle_set_font(&mut self, name: String, size: Num) -> (r: Result<(), PDFError>)
        ensures
            r is Ok,
            final(self).spec_data() == old(self).spec_data(),
            final(self).spec_pos() == old(self).spec_pos(),
            final(self).spec_res() == old(self).spec_res(),
            final(self).spec_stack() == old(self).spec_stack(),
            final(self).spec_underflows() == old(self).spec_underflows(),
            final(self).spec_state() == if res_lookup(old(self).spec_res(), name@) is Some {
                GsModel { font: Some(name@), font_size: size, ..old(self).spec_state() }
            } else {
                old(self).spec_state()
            },
    {
        match self.resources.get_font(name.as_str()) {
            Ok(Some(_font)) => {
                self.current_state.font = Some(name);
                self.current_state.font_size = size;
                Ok(())
            },
            Ok(None) => Ok(()),
            Err(e) => Err(e),
        }
    }

    /// One full interpreter pass, from the cursor to the end of the input.
    ///
    /// The pass always succeeds: a decode failure is absorbed by advancing
    /// one byte and retrying, so a pathological input yields empty output
    /// lists rather than an error.  The result is exactly what the driver
    /// model [`interp_from`] computes from the input bytes, the resource
    /// table and the starting state — in particular, parsing the same
    /// bytes twice yields identical output sequences.
    pub fn parse(&mut self) -> (r: Option<(Vec<TextObject>, Vec<VectorObject>)>)
        requires
            old(self).spec_pos() <= old(self).spec_data().len(),
        ensures
            r is Some,
            final(self).spec_data() == old(self).spec_data(),
            final(self).spec_res() == old(self).spec_res(),
            ({
                let mf = interp_from(
                    old(self).spec_data(),
                    old(self).spec_res(),
                    start_machine(
                        old(self).spec_pos(),
                        old(self).spec_state(),
                        old(self).spec_stack(),
                        old(self).spec_underflows(),
                    ),
                );
                let pair = r->0;
                &&& pair.0.deep_view() == mf.texts
                &&& pair.1.deep_view() == mf.vecs
                &&& final(self).spec_pos() == mf.pos
                &&& final(self).spec_state() == mf.cur
                &&& final(self).spec_stack() == mf.stack
                &&& final(self).spec_underflows() == mf.underflows
            }),
    {
        let mut text_objects: Vec<TextObject> = Vec::new();
        let mut vector_objects: Vec<VectorObject> = Vec::new();
        let mut current_path: Vec<PathCommand> = Vec::new();
        let mut in_text_block = false;
        let mut text_matrix = Matrix::default();
        let ghost s = self.spec_data();
        let ghost res = self.spec_res();
        let ghost m0 = start_machine(
            self.spec_pos(),
            self.spec_state(),
            self.spec_stack(),
            self.spec_underflows(),
        );
        proof {
            assert(text_objects.deep_view() =~= Seq::<TextModel>::empty());
            assert(vector_objects.deep_view() =~= Seq::<VectorModel>::empty());
        }
        loop
            invariant
                self.spec_data() == s,
                self.spec_res() == res,
                self.spec_pos() <= s.len(),
                interp_from(
                    s,
                    res,
                    Machine {
                        pos: self.spec_pos(),
                        in_text: in_text_block,
                        tm: text_matrix,
                        cur: self.spec_state(),
                        stack: self.spec_stack(),
                        path: current_path@,
                        texts: text_objects.deep_view(),
                        vecs: vector_objects.deep_view(),
                        underflows: self.spec_underflows(),
                    },
                ) == interp_from(s, res, m0),
            ensures
                self.spec_data() == s,
                self.spec_res() == res,
                self.spec_pos() >= s.len(),
                self.spec_pos() <= s.len(),
                interp_from(
                    s,
                    res,
                    Machine {
                        pos: self.spec_pos(),
                        in_text: in_text_block,
                        tm: text_matrix,
                        cur: self.spec_state(),
                        stack: self.spec_stack(),
                        path: current_path@,
                        texts: text_objects.deep_view(),
                        vecs: vector_objects.deep_view(),
                        underflows: self.spec_underflows(),
                    },
                ) == interp_from(s, res, m0),
            decreases s.len() - self.spec_pos(),
        {
            if self.position >= self.data.len() {
                break;
            }
            let ghost m_pre = Machine {
                pos: self.spec_pos(),
                in_text: in_text_block,
                tm: text_matrix,
                cur: self.spec_state(),
                stack: self.spec_stack(),
                path: current_path@,
                texts: text_objects.deep_view(),
                vecs: vector_objects.deep_view(),
                underflows: self.spec_underflows(),
            };
            proof {
                lemma_decode_op_bounds(s, self.spec_pos());
            }
            let ghost dd = decode_op(s, m_pre.pos);
            let op_opt = self.parse_next_operator();
            match op_opt {
                Some(op) => {
                    let ghost opm = op@;
                    match op {
                        Operator::BeginText => {
                            in_text_block = true;
                            text_matrix = Matrix::default();
                        },
                        Operator::EndText => {
                            in_text_block = false;
                        },
                        Operator::SetFont(name, size) => {
                            match self.handle_set_font(name, size) {
                                Ok(_) => {},
                                Err(_) => {},
                            }
                        },
                        Operator::SetTextMatrix(a, b, c, d, e, f) => {
                            if in_text_block {
                                text_matrix = Matrix { a, b, c, d, e, f };
                            }
                        },
                        Operator::ShowText(text) | Operator::ShowTextAdjusted(text) => {
                            if in_text_block && !str_is_blank(text.as_str()) {
                                let font_name = match &self.current_state.font {
                                    Some(f) => f.clone(),
                                    None => "Default".to_owned(),
                                };
                                let font_size = self.current_state.font_size.mul(
                                    text_matrix.a.abs(),
                                );
                                let to = TextObject {
                                    text,
                                    x: text_matrix.e,
                                    y: text_matrix.f,
                                    font_size,
                                    font_name,
                                };
                                proof {
                                    assert(to@ == shown_text(to.text@, m_pre.tm, m_pre.cur));
                                }
                                text_objects.push(to);
                                proof {
                                    assert(text_objects.deep_view() =~= m_pre.texts.push(
                                        text_objects@.last()@,
                                    ));
                                }
                            }
                        },
                        Operator::MoveTo(x, y) => {
                            current_path.push(PathCommand::MoveTo(x, y));
                        },
                        Operator::LineTo(x, y) => {
                            current_path.push(PathCommand::LineTo(x, y));
                        },
                        Operator::CurveTo(x1, y1, x2, y2, x3, y3) => {
                            current_path.push(PathCommand::CurveTo(x1, y1, x2, y2, x3, y3));
                        },
                        Operator::ClosePath => {
                            if current_path.len() > 0 {
                                let stroke_color = match self.current_state.stroke_color {
                                    Color::RGB(cr, cg, cb) => ColorRgba {
                                        r: cr,
                                        g: cg,
                                        b: cb,
                                        a: Num { micro: 1000000 },
                                    },
                                    _ => ColorRgba {
                                        r: Num { micro: 0 },
                                        g: Num { micro: 0 },
                                        b: Num { micro: 0 },
                                        a: Num { micro: 1000000 },
                                    },
                                };
                                let fill_color = match self.current_state.fill_color {
                                    Color::RGB(cr, cg, cb) => Some(
                                        ColorRgba { r: cr, g: cg, b: cb, a: Num { micro: 1000000 } },
                                    ),
                                    _ => None,
                                };
                                let mut path_data = copy_path(&current_path);
                                path_data.push(PathCommand::Close);
                                let vo = VectorObject { path_data, stroke_color, fill_color };
                                vector_objects.push(vo);
                                current_path = Vec::new();
                                proof {
                                    assert(vector_objects.deep_view() =~= m_pre.vecs.push(
                                        vector_objects@.last()@,
                                    ));
                                    assert(current_path@ =~= Seq::<PathCommand>::empty());
                                }
                            }
                        },
                        Operator::SaveState => {
                            self.handle_save_state();
                        },
                        Operator::RestoreState => {
                            match self.handle_restore_state() {
                                Ok(_) => {},
                                Err(_) => {
                                    if self.underflow_count < usize::MAX {
                                        self.underflow_count = self.underflow_count + 1;
                                    }
                                },
                            }
                        },
                        Operator::SetStrokeColor(color) => {
                            self.current_state.stroke_color = color;
                        },
                        Operator::SetFillColor(color) => {
                            self.current_state.fill_color = color;
                        },
                        _ => {},
                    }
                    proof {
                        let m_post = Machine {
                            pos: self.spec_pos(),
                            in_text: in_text_block,
                            tm: text_matrix,
                            cur: self.spec_state(),
                            stack: self.spec_stack(),
                            path: current_path@,
                            texts: text_objects.deep_view(),
                            vecs: vector_objects.deep_view(),
                            underflows: self.spec_underflows(),
                        };
                        assert(dd.0 == Some(opm));
                        assert(m_post == apply_op(m_pre, opm, dd.1, res));
                        assert(step(s, res, m_pre) == m_post);
                        assert(interp_from(s, res, m_pre) == interp_from(s, res, m_post));
                    }
                },
                None => {
                    self.advance();
                    proof {
                        let m_post = Machine { pos: self.spec_pos(), ..m_pre };
                        assert(step(s, res, m_pre) == m_post);
                        assert(interp_from(s, res, m_pre) == interp_from(s, res, m_post));
                    }
                },
            }
        }
        proof {
            let m_fin = Machine {
                pos: self.spec_pos(),
                in_text: in_text_block,
                tm: text_matrix,
                cur: self.spec_state(),
                stack: self.spec_stack(),
                path: current_path@,
                texts: text_objects.deep_view(),
                vecs: vector_objects.deep_view(),
                underflows: self.spec_underflows(),
            };
            assert(interp_from(s, res, m_fin) == m_fin);
        }
        Some((text_objects, vector_objects))
    }
}

/// Whether every character of a string is blank: whitespace in the
/// Latin-1 range.
fn str_is_blank(t: &str) -> (r: bool)
    ensures
        r == is_blank(t@),
{
    let n = t.unicode_len();
    let mut k: usize = 0;
    while k < n
        invariant
            k <= n,
            n == t@.len(),
            forall|j: int| 0 <= j < k ==> is_blank_char(#[trigger] t@[j]),
        decreases n - k,
    {
        let c = t.get_char(k);
        if !(c == ' ' || c == '\t' || c == '\n' || c == '\r' || c == '\u{b}' || c == '\u{c}'
            || c == '\u{85}' || c == '\u{a0}') {
            return false;
        }
        k = k + 1;
    }
    true
}

/// An element-for-element copy of a path buffer.
fn copy_path(v: &Vec<PathCommand>) -> (r: Vec<PathCommand>)
    ensures
        r@ == v@,
{
    let mut out: Vec<PathCommand> = Vec::new();
    let mut i: usize = 0;
    while i < v.len()
        invariant
            i <= v.len(),
            out@ =~= v@.take(i as int),
        decreases v.len() - i,
    {
        out.push(v[i]);
        i = i + 1;
        proof {
            assert(out@ =~= v@.take(i as int));
        }
    }
    proof {
        assert(v@.take(v@.len() as int) =~= v@);
    }
    out
}

/// Everything of a parser except its cursor is unchanged.
pub open spec fn frame_eq<'a>(pre: ContentParser<'a>, post: ContentParser<'a>) -> bool {
    &&& post.spec_data() == pre.spec_data()
    &&& post.spec_res() == pre.spec_res()
    &&& post.spec_state() == pre.spec_state()
    &&& post.spec_stack() == pre.spec_stack()
    &&& post.spec_underflows() == pre.spec_underflows()
}

/// Exec test for the whitespace byte class.
fn byte_is_ws(b: u8) -> (r: bool)
    ensures
        r == is_ws(b),
{
    b == 0x20 || b == 0x09 || b == 0x0a || b == 0x0d || b == 0x00
}

/// Exec twin of [`esc_char`]: decode one escaped byte.
fn esc_char_exec(b: u8) -> (c: char)
    ensures
        c == esc_char(b),
{
    if b == 0x6e {
        '\n'
    } else if b == 0x72 {
        '\r'
    } else if b == 0x74 {
        '\t'
    } else {
        b as char
    }
}

} // verus!
