use ropey::Rope;
use rholang_language_server::source_text::{text_slice, try_text_slice};

#[test]
fn slice_inside_ascii_text() {
    let rope = Rope::from_str("ch!(\"msg\")\nNil");
    assert_eq!(text_slice(&rope, 0, 10), "ch!(\"msg\")");
    assert_eq!(text_slice(&rope, 11, 14), "Nil");
    assert_eq!(text_slice(&rope, 4, 4), "");
}

#[test]
fn reversed_range_is_empty() {
    let rope = Rope::from_str("abcdef");
    assert_eq!(text_slice(&rope, 4, 2), "");
}

#[test]
fn byte_offsets_are_read_as_characters() {
    let rope = Rope::from_str("h\u{e9}llo");
    assert_eq!(text_slice(&rope, 0, 3), "h\u{e9}");
    assert_eq!(text_slice(&rope, 1, 2), "");
    assert_eq!(text_slice(&rope, 2, 6), "\u{e9}llo");
}

#[test]
fn range_past_the_end_is_clamped() {
    let rope = Rope::from_str("abc");
    assert_eq!(text_slice(&rope, 1, 10), "bc");
    assert_eq!(text_slice(&rope, 5, 9), "");
    assert_eq!(try_text_slice(&rope, 1, 10), Some("bc".to_string()));
}

#[test]
fn clamped_range_past_the_characters_cannot_be_cut() {
    let rope = Rope::from_str("h\u{e9}llo");
    assert_eq!(try_text_slice(&rope, 4, 10), None);
    assert_eq!(try_text_slice(&rope, 0, 3), Some("h\u{e9}".to_string()));
}
