use pdf_content::num::Num;
use pdf_content::parser::ContentParser;
use pdf_content::resources::{FontType, PDFError, PDFFont, PDFResources};
use pdf_content::stream::decompress_stream;
use std::io::Write;

fn parser_over<'a>(data: &'a [u8], res: &'a PDFResources) -> ContentParser<'a> {
    ContentParser::new(data, res)
}

#[test]
fn number_integer() {
    let res = PDFResources::new();
    let mut p = parser_over(b"12 ", &res);
    assert_eq!(p.parse_number(), Some(Num { micro: 12_000_000 }));
    assert_eq!(p.position(), 2);
}

#[test]
fn number_fraction() {
    let res = PDFResources::new();
    let mut p = parser_over(b"12.5", &res);
    assert_eq!(p.parse_number(), Some(Num { micro: 12_500_000 }));
}

#[test]
fn number_negative() {
    let res = PDFResources::new();
    let mut p = parser_over(b"-3.75", &res);
    assert_eq!(p.parse_number(), Some(Num { micro: -3_750_000 }));
}

#[test]
fn number_leading_whitespace() {
    let res = PDFResources::new();
    let mut p = parser_over(b"   \t\r\n 7", &res);
    assert_eq!(p.parse_number(), Some(Num { micro: 7_000_000 }));
}

#[test]
fn number_two_decimal_points_stops_at_second() {
    let res = PDFResources::new();
    let mut p = parser_over(b"1.2.3", &res);
    assert_eq!(p.parse_number(), Some(Num { micro: 1_200_000 }));
    assert_eq!(p.position(), 3);
}

#[test]
fn number_seventh_fraction_digit_truncated() {
    let res = PDFResources::new();
    let mut p = parser_over(b"0.1234567", &res);
    assert_eq!(p.parse_number(), Some(Num { micro: 123_456 }));
}

#[test]
fn number_huge_saturates() {
    let res = PDFResources::new();
    let mut p = parser_over(b"99999999999999999999999999", &res);
    assert_eq!(p.parse_number(), Some(Num { micro: 999_999_999_999_999_999 }));
}

#[test]
fn number_no_digits_fails() {
    let res = PDFResources::new();
    let mut p = parser_over(b"abc", &res);
    assert_eq!(p.parse_number(), None);
    let mut q = parser_over(b"-", &res);
    assert_eq!(q.parse_number(), None);
}

#[test]
fn number_stops_at_bracket() {
    let res = PDFResources::new();
    let mut p = parser_over(b"12]", &res);
    assert_eq!(p.parse_number(), Some(Num { micro: 12_000_000 }));
    assert_eq!(p.position(), 2);
}

#[test]
fn name_token() {
    let res = PDFResources::new();
    let mut p = parser_over(b"/F1 12", &res);
    assert_eq!(p.parse_name(), Some("F1".to_string()));
    assert_eq!(p.position(), 3);
}

#[test]
fn name_requires_slash() {
    let res = PDFResources::new();
    let mut p = parser_over(b"F1", &res);
    assert_eq!(p.parse_name(), None);
    assert_eq!(p.position(), 0);
}

#[test]
fn name_stops_at_angle_brackets() {
    let res = PDFResources::new();
    let mut p = parser_over(b"/Alpha<deadbeef>", &res);
    assert_eq!(p.parse_name(), Some("Alpha".to_string()));
}

#[test]
fn string_escape_round_trip() {
    // The escaped string `(A\)B\(C)` decodes to the literal text `A)B(C`.
    let res = PDFResources::new();
    let mut p = parser_over(b"(A\\)B\\(C)", &res);
    assert_eq!(p.parse_text_string(), Some("A)B(C".to_string()));
}

#[test]
fn string_control_escapes() {
    let res = PDFResources::new();
    let mut p = parser_over(b"(a\\nb\\tc\\rd\\\\e)", &res);
    assert_eq!(p.parse_text_string(), Some("a\nb\tc\rd\\e".to_string()));
}

#[test]
fn string_unknown_escape_is_literal() {
    let res = PDFResources::new();
    let mut p = parser_over(b"(a\\qb)", &res);
    assert_eq!(p.parse_text_string(), Some("aqb".to_string()));
}

#[test]
fn string_unterminated_is_implicitly_closed() {
    // `(abc` with no closing parenthesis decodes to "abc" instead of failing.
    let res = PDFResources::new();
    let mut p = parser_over(b"(abc", &res);
    assert_eq!(p.parse_text_string(), Some("abc".to_string()));
}

#[test]
fn string_requires_open_paren() {
    let res = PDFResources::new();
    let mut p = parser_over(b"abc)", &res);
    assert_eq!(p.parse_text_string(), None);
    assert_eq!(p.position(), 0);
}

#[test]
fn text_array_concatenates_and_skips_kerning() {
    let res = PDFResources::new();
    let mut p = parser_over(b"[(Hel) 120 (lo)] rest", &res);
    assert_eq!(p.parse_text_array(), Some("Hello".to_string()));
    assert_eq!(p.position(), 16);
}

#[test]
fn skip_whitespace_stops_at_form_feed() {
    let res = PDFResources::new();
    let mut p = parser_over(b" \t\x0c7", &res);
    p.skip_whitespace();
    assert_eq!(p.position(), 2);
    assert_eq!(p.peek_byte(), Some(0x0c));
}

#[test]
fn skip_whitespace_skips_null() {
    let res = PDFResources::new();
    let mut p = parser_over(b"\x00\x007", &res);
    p.skip_whitespace();
    assert_eq!(p.position(), 2);
}

#[test]
fn num_abs_and_mul() {
    let a = Num { micro: -2_000_000 };
    assert_eq!(a.abs(), Num { micro: 2_000_000 });
    let b = Num { micro: 2_500_000 };
    assert_eq!(b.mul(a.abs()), Num { micro: 5_000_000 });
    assert_eq!(b.mul(a), Num { micro: -5_000_000 });
}

#[test]
fn num_mul_saturates() {
    let big = Num { micro: 999_999_999_999_999_999 };
    assert_eq!(big.mul(big), Num { micro: 999_999_999_999_999_999 });
    assert_eq!(big.mul(Num { micro: -999_999_999_999_999_999 }),
        Num { micro: -999_999_999_999_999_999 });
}

#[test]
fn num_mul_truncates_toward_zero() {
    // 0.000001 * 0.5 is 0.0000005, which truncates to zero.
    let tiny = Num { micro: 1 };
    let half = Num { micro: 500_000 };
    assert_eq!(tiny.mul(half), Num { micro: 0 });
    assert_eq!(tiny.mul(Num { micro: -500_000 }), Num { micro: 0 });
}

#[test]
fn decompress_round_trip() {
    let plain: &[u8] = b"BT (Hello) ET m 0 0 l 10 0 h";
    let mut enc = flate2::write::ZlibEncoder::new(Vec::new(), flate2::Compression::default());
    enc.write_all(plain).unwrap();
    let compressed = enc.finish().unwrap();
    assert_ne!(compressed, plain.to_vec());
    let out = decompress_stream(&compressed).expect("well-formed zlib stream");
    assert_eq!(out, plain.to_vec());
}

#[test]
fn decompress_rejects_garbage() {
    assert_eq!(decompress_stream(b"this is not a zlib stream"), None);
}

#[test]
fn resources_lookup() {
    let mut res = PDFResources::new();
    let font = PDFFont::new("Default".to_string(), FontType::Type1, vec![1, 2, 3]);
    res.add_font("F1".to_string(), font);
    let got = res.get_font("F1").unwrap().expect("F1 is present");
    assert_eq!(got.name, "Default");
    assert_eq!(got.get_font_data().unwrap(), &[1, 2, 3]);
    assert!(res.get_font("F2").unwrap().is_none());
}

#[test]
fn resources_later_entry_shadows() {
    let mut res = PDFResources::new();
    res.add_font("F1".to_string(), PDFFont::new("A".to_string(), FontType::Type1, vec![]));
    res.add_font("F1".to_string(), PDFFont::new("B".to_string(), FontType::TrueType, vec![]));
    let got = res.get_font("F1").unwrap().expect("F1 is present");
    assert_eq!(got.name, "B");
}

#[test]
fn restore_on_empty_stack_reports_underflow() {
    let res = PDFResources::new();
    let mut p = parser_over(b"", &res);
    match p.handle_restore_state() {
        Err(PDFError::ParseError(msg)) => {
            assert_eq!(msg, "Graphics state stack underflow");
        },
        other => panic!("expected a parse error, got {:?}", other),
    }
}
