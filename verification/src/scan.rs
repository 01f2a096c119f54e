//! Mathematical model of the tokenizer.
//!
//! Each spec function here describes, over the raw byte sequence, exactly
//! where one lexical scan stops and what it yields.  The executable cursor
//! methods in [`crate::parser`] are proved to follow these functions.

use vstd::prelude::*;
use crate::num::clamp_mag;

verus! {

/// Recognized whitespace bytes: space, tab, line feed, carriage return, null.
pub open spec fn is_ws(b: u8) -> bool {
    b == 0x20 || b == 0x09 || b == 0x0a || b == 0x0d || b == 0x00
}

/// ASCII decimal digit.
pub open spec fn is_digit(b: u8) -> bool {
    0x30 <= b <= 0x39
}

/// Position of the first non-whitespace byte at or after `i`.
pub open spec fn skip_ws(s: Seq<u8>, i: int) -> int
    decreases s.len() - i,
    when 0 <= i <= s.len()
{
    if i < s.len() && is_ws(s[i]) {
        skip_ws(s, i + 1)
    } else {
        i
    }
}

pub proof fn lemma_skip_ws_bounds(s: Seq<u8>, i: int)
    requires
        0 <= i <= s.len(),
    ensures
        i <= skip_ws(s, i) <= s.len(),
    decreases s.len() - i,
{
    if i < s.len() && is_ws(s[i]) {
        lemma_skip_ws_bounds(s, i + 1);
    }
}

/// Result of scanning one numeric literal.
pub struct NumScan {
    /// Position just past the scanned text.
    pub end: int,
    /// Whether at least one digit was consumed, i.e. the literal is valid.
    pub ok: bool,
    /// Whether a leading minus sign was consumed.
    pub neg: bool,
    /// The digits of the integer part, in order.
    pub ipart: Seq<u8>,
    /// The digits of the fractional part, in order.
    pub fpart: Seq<u8>,
}

/// Scan of a numeric literal, continued from position `i`.
///
/// `start` is where the literal began (a minus sign is accepted only there);
/// `hd` and `hdec` record whether a digit, or the decimal point, was already
/// consumed; `ip` and `fp` accumulate the digits seen so far.
pub open spec fn scan_number_from(
    s: Seq<u8>,
    i: int,
    start: int,
    neg: bool,
    hd: bool,
    hdec: bool,
    ip: Seq<u8>,
    fp: Seq<u8>,
) -> NumScan
    decreases s.len() - i,
    when 0 <= i <= s.len()
{
    if i >= s.len() {
        NumScan { end: i, ok: hd, neg, ipart: ip, fpart: fp }
    } else {
        let b = s[i];
        if is_digit(b) {
            if hdec {
                scan_number_from(s, i + 1, start, neg, true, hdec, ip, fp.push(b))
            } else {
                scan_number_from(s, i + 1, start, neg, true, hdec, ip.push(b), fp)
            }
        } else if b == 0x2e && !hdec {
            scan_number_from(s, i + 1, start, neg, hd, true, ip, fp)
        } else if b == 0x2d && i == start {
            scan_number_from(s, i + 1, start, true, hd, hdec, ip, fp)
        } else if is_ws(b) || b == 0x5d {
            NumScan { end: i, ok: hd, neg, ipart: ip, fpart: fp }
        } else {
            NumScan { end: i, ok: hd, neg, ipart: ip, fpart: fp }
        }
    }
}

/// Scan of a numeric literal at `i`, after skipping leading whitespace.
pub open spec fn scan_number_at(s: Seq<u8>, i: int) -> NumScan {
    let j = skip_ws(s, i);
    scan_number_from(s, j, j, false, false, false, Seq::empty(), Seq::empty())
}

pub proof fn lemma_scan_number_bounds(
    s: Seq<u8>,
    i: int,
    start: int,
    neg: bool,
    hd: bool,
    hdec: bool,
    ip: Seq<u8>,
    fp: Seq<u8>,
)
    requires
        0 <= i <= s.len(),
    ensures
        i <= scan_number_from(s, i, start, neg, hd, hdec, ip, fp).end <= s.len(),
    decreases s.len() - i,
{
    if i < s.len() {
        let b = s[i];
        if is_digit(b) {
            if hdec {
                lemma_scan_number_bounds(s, i + 1, start, neg, true, hdec, ip, fp.push(b));
            } else {
                lemma_scan_number_bounds(s, i + 1, start, neg, true, hdec, ip.push(b), fp);
            }
        } else if b == 0x2e && !hdec {
            lemma_scan_number_bounds(s, i + 1, start, neg, hd, true, ip, fp);
        } else if b == 0x2d && i == start {
            lemma_scan_number_bounds(s, i + 1, start, true, hd, hdec, ip, fp);
        }
    }
}

pub proof fn lemma_scan_number_at_bounds(s: Seq<u8>, i: int)
    requires
        0 <= i <= s.len(),
    ensures
        i <= scan_number_at(s, i).end <= s.len(),
{
    lemma_skip_ws_bounds(s, i);
    let j = skip_ws(s, i);
    lemma_scan_number_bounds(s, j, j, false, false, false, Seq::empty(), Seq::empty());
}

/// Value of a digit string, most significant digit first.
pub open spec fn digits_val(ds: Seq<u8>) -> int
    decreases ds.len(),
{
    if ds.len() == 0 {
        0
    } else {
        digits_val(ds.drop_last()) * 10 + (ds.last() - 0x30)
    }
}

/// Weight, in millionths, of the fractional digit at index `j`.
/// Digits past the sixth are discarded (truncation toward zero).
pub open spec fn frac_weight(j: int) -> int {
    if j == 0 {
        100000
    } else if j == 1 {
        10000
    } else if j == 2 {
        1000
    } else if j == 3 {
        100
    } else if j == 4 {
        10
    } else if j == 5 {
        1
    } else {
        0
    }
}

/// Value of a fractional digit string, in millionths.
pub open spec fn frac_val(fs: Seq<u8>) -> int
    decreases fs.len(),
{
    if fs.len() == 0 {
        0
    } else {
        frac_val(fs.drop_last()) + (fs.last() - 0x30) * frac_weight(fs.len() - 1)
    }
}

/// Fixed-point value, in millionths, of a scanned numeric literal.
pub open spec fn num_val(sc: NumScan) -> int {
    let mag = clamp_mag(digits_val(sc.ipart) * 1000000 + frac_val(sc.fpart));
    if sc.neg {
        -mag
    } else {
        mag
    }
}

/// Decoding of a byte escaped by a backslash inside a literal string.
/// `n`, `r` and `t` become the usual control characters; every other byte
/// stands for itself.
pub open spec fn esc_char(b: u8) -> char {
    if b == 0x6e {
        '\n'
    } else if b == 0x72 {
        '\r'
    } else if b == 0x74 {
        '\t'
    } else {
        b as char
    }
}

/// Result of scanning the body of a literal string or of a text array.
pub struct TextScan {
    /// Position just past the scanned text.
    pub end: int,
    /// The accumulated characters.
    pub text: Seq<char>,
}

/// Scan of a literal string body (after the opening parenthesis), continued
/// from position `i` with pending-escape flag `esc` and accumulator `acc`.
/// An unterminated string ends at end of input with all accumulated text.
pub open spec fn scan_string_body(s: Seq<u8>, i: int, esc: bool, acc: Seq<char>) -> TextScan
    decreases s.len() - i,
    when 0 <= i <= s.len()
{
    if i >= s.len() {
        TextScan { end: i, text: acc }
    } else {
        let b = s[i];
        if b == 0x29 && !esc {
            TextScan { end: i + 1, text: acc }
        } else if b == 0x5c && !esc {
            scan_string_body(s, i + 1, true, acc)
        } else if esc {
            scan_string_body(s, i + 1, false, acc.push(esc_char(b)))
        } else {
            scan_string_body(s, i + 1, false, acc.push(b as char))
        }
    }
}

pub proof fn lemma_scan_string_bounds(s: Seq<u8>, i: int, esc: bool, acc: Seq<char>)
    requires
        0 <= i <= s.len(),
    ensures
        i <= scan_string_body(s, i, esc, acc).end <= s.len(),
    decreases s.len() - i,
{
    if i < s.len() {
        let b = s[i];
        if b == 0x29 && !esc {
        } else if b == 0x5c && !esc {
            lemma_scan_string_bounds(s, i + 1, true, acc);
        } else if esc {
            lemma_scan_string_bounds(s, i + 1, false, acc.push(esc_char(b)));
        } else {
            lemma_scan_string_bounds(s, i + 1, false, acc.push(b as char));
        }
    }
}

/// The accumulator only prefixes what a string scan yields: scanning with
/// accumulator `acc` ends where scanning with an empty accumulator ends,
/// and yields `acc` followed by that scan's text.
pub proof fn lemma_scan_string_acc(s: Seq<u8>, i: int, esc: bool, acc: Seq<char>)
    requires
        0 <= i <= s.len(),
    ensures
        scan_string_body(s, i, esc, acc).end == scan_string_body(s, i, esc, Seq::empty()).end,
        scan_string_body(s, i, esc, acc).text == acc + scan_string_body(
            s,
            i,
            esc,
            Seq::empty(),
        ).text,
    decreases s.len() - i,
{
    let empty = Seq::<char>::empty();
    if i >= s.len() {
        assert(acc + empty =~= acc);
    } else {
        let b = s[i];
        if b == 0x29 && !esc {
            assert(acc + empty =~= acc);
        } else if b == 0x5c && !esc {
            lemma_scan_string_acc(s, i + 1, true, acc);
        } else {
            let c = if esc {
                esc_char(b)
            } else {
                b as char
            };
            lemma_scan_string_acc(s, i + 1, false, acc.push(c));
            lemma_scan_string_acc(s, i + 1, false, empty.push(c));
            let t = scan_string_body(s, i + 1, false, empty).text;
            assert(acc + (empty.push(c) + t) =~= acc.push(c) + t);
        }
    }
}

/// Whether a literal string can start at `i`: an opening parenthesis.
pub open spec fn string_starts(s: Seq<u8>, i: int) -> bool {
    0 <= i < s.len() && s[i] == 0x28
}

/// Scan of a text-array body (after the opening bracket), continued from
/// position `i` with accumulator `acc`.  Parenthesized strings contribute
/// their text; every other byte, numeric kerning values included, is skipped.
pub open spec fn scan_array_body(s: Seq<u8>, i: int, acc: Seq<char>) -> TextScan
    decreases s.len() - i,
    when 0 <= i <= s.len()
    via scan_array_body_dec
{
    if i >= s.len() {
        TextScan { end: i, text: acc }
    } else if s[i] == 0x5d {
        TextScan { end: i + 1, text: acc }
    } else if s[i] == 0x28 {
        let ss = scan_string_body(s, i + 1, false, acc);
        scan_array_body(s, ss.end, ss.text)
    } else {
        scan_array_body(s, i + 1, acc)
    }
}

#[via_fn]
proof fn scan_array_body_dec(s: Seq<u8>, i: int, acc: Seq<char>) {
    if 0 <= i && i < s.len() && s[i] != 0x5d && s[i] == 0x28 {
        lemma_scan_string_bounds(s, i + 1, false, acc);
    }
}

pub proof fn lemma_scan_array_bounds(s: Seq<u8>, i: int, acc: Seq<char>)
    requires
        0 <= i <= s.len(),
    ensures
        i <= scan_array_body(s, i, acc).end <= s.len(),
    decreases s.len() - i,
{
    if i < s.len() {
        if s[i] == 0x5d {
        } else if s[i] == 0x28 {
            let ss = scan_string_body(s, i + 1, false, acc);
            lemma_scan_string_bounds(s, i + 1, false, acc);
            lemma_scan_array_bounds(s, ss.end, ss.text);
        } else {
            lemma_scan_array_bounds(s, i + 1, acc);
        }
    }
}

/// Whether a name can start at `i`: a forward slash.
pub open spec fn name_starts(s: Seq<u8>, i: int) -> bool {
    0 <= i < s.len() && s[i] == 0x2f
}

/// Scan of a name body (after the slash), continued from position `i`.
/// A name byte is anything but whitespace and `[`, `]`, `<`, `>`.
pub open spec fn scan_name_body(s: Seq<u8>, i: int, acc: Seq<char>) -> TextScan
    decreases s.len() - i,
    when 0 <= i <= s.len()
{
    if i >= s.len() {
        TextScan { end: i, text: acc }
    } else {
        let b = s[i];
        if is_ws(b) || b == 0x5b || b == 0x5d || b == 0x3c || b == 0x3e {
            TextScan { end: i, text: acc }
        } else {
            scan_name_body(s, i + 1, acc.push(b as char))
        }
    }
}

pub proof fn lemma_scan_name_bounds(s: Seq<u8>, i: int, acc: Seq<char>)
    requires
        0 <= i <= s.len(),
    ensures
        i <= scan_name_body(s, i, acc).end <= s.len(),
    decreases s.len() - i,
{
    if i < s.len() {
        let b = s[i];
        if is_ws(b) || b == 0x5b || b == 0x5d || b == 0x3c || b == 0x3e {
        } else {
            lemma_scan_name_bounds(s, i + 1, acc.push(b as char));
        }
    }
}

/// End of the whitespace-delimited token starting at `i`: the position of
/// the next whitespace byte or the end of input.
pub open spec fn scan_token_end(s: Seq<u8>, i: int) -> int
    decreases s.len() - i,
    when 0 <= i <= s.len()
{
    if i >= s.len() || is_ws(s[i]) {
        i
    } else {
        scan_token_end(s, i + 1)
    }
}

pub proof fn lemma_scan_token_bounds(s: Seq<u8>, i: int)
    requires
        0 <= i <= s.len(),
    ensures
        i <= scan_token_end(s, i) <= s.len(),
    decreases s.len() - i,
{
    if !(i >= s.len() || is_ws(s[i])) {
        lemma_scan_token_bounds(s, i + 1);
    }
}

/// Whether every character of a shown text is blank, i.e. whitespace in the
/// Latin-1 range.  Such a text produces no output record.
pub open spec fn is_blank_char(c: char) -> bool {
    c == ' ' || c == '\t' || c == '\n' || c == '\r' || c == '\u{b}' || c == '\u{c}'
        || c == '\u{85}' || c == '\u{a0}'
}

pub open spec fn is_blank(t: Seq<char>) -> bool {
    forall|k: int| 0 <= k < t.len() ==> is_blank_char(#[trigger] t[k])
}

} // verus!
