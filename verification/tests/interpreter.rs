use pdf_content::content::{Matrix, PathCommand};
use pdf_content::num::Num;
use pdf_content::parser::ContentParser;
use pdf_content::resources::{FontType, PDFFont, PDFResources};
use pdf_content::state::GraphicsState;

fn run(data: &[u8]) -> (Vec<pdf_content::content::TextObject>, Vec<pdf_content::content::VectorObject>) {
    let res = PDFResources::new();
    let mut p = ContentParser::new(data, &res);
    p.parse().expect("the pass always succeeds")
}

fn micros(units: i64) -> Num {
    Num { micro: units * 1_000_000 }
}

#[test]
fn show_text_inside_block() {
    // `(Hello)` inside an active text block with default state yields one
    // text object at the origin with the default font size.
    let (texts, vecs) = run(b"BT (Hello) ET");
    assert_eq!(texts.len(), 1);
    assert_eq!(texts[0].text, "Hello");
    assert_eq!(texts[0].x, micros(0));
    assert_eq!(texts[0].y, micros(0));
    assert_eq!(texts[0].font_size, micros(12));
    assert_eq!(texts[0].font_name, "Default");
    assert_eq!(vecs.len(), 0);
}

#[test]
fn empty_input_yields_empty_output() {
    let (texts, vecs) = run(b"");
    assert_eq!(texts.len(), 0);
    assert_eq!(vecs.len(), 0);
}

#[test]
fn blank_text_array_is_not_emitted() {
    let (texts, _) = run(b"BT [( ) 5 (\t)] ET");
    assert_eq!(texts.len(), 0);
}

#[test]
fn show_text_outside_block() {
    // `(Hello)` outside a text block yields no text objects.
    let (texts, vecs) = run(b"(Hello)");
    assert_eq!(texts.len(), 0);
    assert_eq!(vecs.len(), 0);
}

#[test]
fn blank_text_is_not_emitted() {
    let (texts, _) = run(b"BT ( \t ) ET");
    assert_eq!(texts.len(), 0);
}

#[test]
fn unterminated_string_still_emits() {
    let (texts, _) = run(b"BT (abc");
    assert_eq!(texts.len(), 1);
    assert_eq!(texts[0].text, "abc");
}

#[test]
fn path_with_close_emits_one_vector_object() {
    // `m 0 0 l 10 0 l 10 10` followed by close-path yields one vector
    // object with four commands and a default opaque-black stroke.
    let (texts, vecs) = run(b"m 0 0 l 10 0 l 10 10 h");
    assert_eq!(texts.len(), 0);
    assert_eq!(vecs.len(), 1);
    assert_eq!(vecs[0].path_data, vec![
        PathCommand::MoveTo(micros(0), micros(0)),
        PathCommand::LineTo(micros(10), micros(0)),
        PathCommand::LineTo(micros(10), micros(10)),
        PathCommand::Close,
    ]);
    assert_eq!(vecs[0].stroke_color.r, micros(0));
    assert_eq!(vecs[0].stroke_color.g, micros(0));
    assert_eq!(vecs[0].stroke_color.b, micros(0));
    assert_eq!(vecs[0].stroke_color.a, micros(1));
    // The default fill color is RGB, so a fill is recorded too.
    let fill = vecs[0].fill_color.expect("default fill color is RGB");
    assert_eq!(fill.r, micros(0));
    assert_eq!(fill.a, micros(1));
}

#[test]
fn close_path_on_empty_buffer_is_a_no_op() {
    let (_, vecs) = run(b"h h h");
    assert_eq!(vecs.len(), 0);
}

#[test]
fn curve_command_is_recorded() {
    let (_, vecs) = run(b"m 0 0 c 1 2 3 4 5 6 h");
    assert_eq!(vecs.len(), 1);
    assert_eq!(vecs[0].path_data, vec![
        PathCommand::MoveTo(micros(0), micros(0)),
        PathCommand::CurveTo(micros(1), micros(2), micros(3), micros(4), micros(5), micros(6)),
        PathCommand::Close,
    ]);
}

#[test]
fn path_buffer_clears_after_emission() {
    let (_, vecs) = run(b"m 0 0 l 1 1 h m 2 2 h");
    assert_eq!(vecs.len(), 2);
    assert_eq!(vecs[0].path_data.len(), 3);
    assert_eq!(vecs[1].path_data, vec![
        PathCommand::MoveTo(micros(2), micros(2)),
        PathCommand::Close,
    ]);
}

#[test]
fn text_matrix_positions_text_and_scales_font() {
    let (texts, _) = run(b"BT Tm 2 0 0 2 5 7 (Hi) ET");
    assert_eq!(texts.len(), 1);
    assert_eq!(texts[0].x, micros(5));
    assert_eq!(texts[0].y, micros(7));
    assert_eq!(texts[0].font_size, micros(24));
}

#[test]
fn text_matrix_scale_uses_magnitude() {
    let (texts, _) = run(b"BT Tm -2 0 0 2 0 0 (Hi) ET");
    assert_eq!(texts[0].font_size, micros(24));
}

#[test]
fn text_matrix_outside_block_is_ignored() {
    let (texts, _) = run(b"Tm 2 0 0 2 5 7 BT (Hi) ET");
    assert_eq!(texts.len(), 1);
    assert_eq!(texts[0].x, micros(0));
    assert_eq!(texts[0].font_size, micros(12));
}

#[test]
fn begin_text_resets_text_matrix() {
    let (texts, _) = run(b"BT Tm 2 0 0 2 5 7 ET BT (Hi) ET");
    assert_eq!(texts.len(), 1);
    assert_eq!(texts[0].x, micros(0));
    assert_eq!(texts[0].font_size, micros(12));
}

#[test]
fn text_array_emits_concatenated_text() {
    let (texts, _) = run(b"BT [(Hel) 120 (lo)] ET");
    assert_eq!(texts.len(), 1);
    assert_eq!(texts[0].text, "Hello");
}

#[test]
fn known_font_is_recorded() {
    let mut res = PDFResources::new();
    res.add_font("F1".to_string(),
        PDFFont::new("Default".to_string(), FontType::Type1, Vec::new()));
    let mut p = ContentParser::new(b"BT /F1 14 (Z) ET", &res);
    let (texts, _) = p.parse().unwrap();
    assert_eq!(texts.len(), 1);
    assert_eq!(texts[0].font_name, "F1");
    assert_eq!(texts[0].font_size, micros(14));
}

#[test]
fn unknown_font_is_a_no_op() {
    let res = PDFResources::new();
    let mut p = ContentParser::new(b"BT /G9 14 (Z) ET", &res);
    let (texts, _) = p.parse().unwrap();
    assert_eq!(texts.len(), 1);
    assert_eq!(texts[0].font_name, "Default");
    assert_eq!(texts[0].font_size, micros(12));
}

#[test]
fn save_restore_balanced_returns_to_initial_state() {
    // Balanced save/restore sequences leave the machine configuration as
    // it started: initial state, empty stack, no underflow.
    let res = PDFResources::new();
    let mut p = ContentParser::new(b"q q Q Q", &res);
    let _ = p.parse().unwrap();
    assert_eq!(p.stack_depth(), 0);
    assert_eq!(p.underflow_count(), 0);
    assert_eq!(*p.current_state(), GraphicsState::new());
}

#[test]
fn save_surplus_leaves_stack_entries() {
    let res = PDFResources::new();
    let mut p = ContentParser::new(b"q Q q q", &res);
    let _ = p.parse().unwrap();
    assert_eq!(p.stack_depth(), 2);
    assert_eq!(p.underflow_count(), 0);
    assert_eq!(*p.current_state(), GraphicsState::new());
}

#[test]
fn restore_recovers_saved_font() {
    let mut res = PDFResources::new();
    res.add_font("F1".to_string(),
        PDFFont::new("A".to_string(), FontType::Type1, Vec::new()));
    res.add_font("F2".to_string(),
        PDFFont::new("B".to_string(), FontType::TrueType, Vec::new()));
    let mut p = ContentParser::new(b"BT /F1 14 q /F2 20 Q (X) ET", &res);
    let (texts, _) = p.parse().unwrap();
    assert_eq!(texts.len(), 1);
    assert_eq!(texts[0].font_name, "F1");
    assert_eq!(texts[0].font_size, micros(14));
}

#[test]
fn restore_with_empty_stack_is_detected() {
    // A restore on an empty stack leaves the state unchanged and is
    // counted as a reported underflow condition.
    let res = PDFResources::new();
    let mut p = ContentParser::new(b"Q", &res);
    let (texts, vecs) = p.parse().unwrap();
    assert_eq!(texts.len(), 0);
    assert_eq!(vecs.len(), 0);
    assert_eq!(p.underflow_count(), 1);
    assert_eq!(p.stack_depth(), 0);
    assert_eq!(*p.current_state(), GraphicsState::new());
}

#[test]
fn parse_twice_is_idempotent() {
    // Two passes over the same byte buffer produce identical output
    // sequences: there is no hidden mutable global state.
    let data: &[u8] = b"BT Tm 3 0 0 3 1 2 (One) [(Two)] ET m 0 0 l 4 5 h junk Q (skip)";
    let (t1, v1) = run(data);
    let (t2, v2) = run(data);
    assert_eq!(t1, t2);
    assert_eq!(v1, v2);
    assert_eq!(t1.len(), 2);
    assert_eq!(v1.len(), 1);
}

#[test]
fn unknown_operators_are_skipped() {
    let (texts, vecs) = run(b"xyz (A) BT (B) ET 3.5 w");
    assert_eq!(texts.len(), 1);
    assert_eq!(texts[0].text, "B");
    assert_eq!(vecs.len(), 0);
}

#[test]
fn begin_text_needs_the_t() {
    let (texts, _) = run(b"Bx (A) BT (B) ET");
    assert_eq!(texts.len(), 1);
    assert_eq!(texts[0].text, "B");
}

#[test]
fn output_order_is_stream_order() {
    let (texts, _) = run(b"BT (one) (two) (three) ET");
    let words: Vec<&str> = texts.iter().map(|t| t.text.as_str()).collect();
    assert_eq!(words, vec!["one", "two", "three"]);
}

#[test]
fn default_matrix_is_identity() {
    let m = Matrix::default();
    assert_eq!(m.a, micros(1));
    assert_eq!(m.b, micros(0));
    assert_eq!(m.c, micros(0));
    assert_eq!(m.d, micros(1));
    assert_eq!(m.e, micros(0));
    assert_eq!(m.f, micros(0));
}

#[test]
fn fresh_state_has_documented_defaults() {
    let gs = GraphicsState::new();
    assert_eq!(gs.font, None);
    assert_eq!(gs.font_size, micros(12));
    assert_eq!(gs.text_matrix, Matrix::default());
}
