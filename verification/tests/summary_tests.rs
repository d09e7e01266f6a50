use corky_relay::summary::{
    format_bytes, format_json_pretty, format_message, format_part, format_text,
    has_structured_shape, BYTES_PREVIEW_LEN,
};
use corky_relay::interop::try_parse_json_str;
use corky_relay::text::quote;

#[test]
fn format_part_renders_small_object() {
    let out = format_part(b"{\"b\": 1, \"a\": [1, 2]}");
    assert_eq!(out, "{\n  \"b\": 1,\n  \"a\": [\n    1,\n    2\n  ]\n}");
}

#[test]
fn format_part_crops_outer_array() {
    let out = format_part(b"[1, 2, 3, 4, 5, 6]");
    assert_eq!(out, "[\n  1,\n  \"... (4 more) ...\",\n  6\n]");
}

#[test]
fn format_part_renders_scalars_as_json() {
    assert_eq!(format_part(b"12"), "12");
    assert_eq!(format_part(b"null"), "null");
    assert_eq!(format_part(b"\"quoted\""), "\"quoted\"");
    assert_eq!(format_part(b" true "), "true");
}

#[test]
fn format_part_quotes_plain_text() {
    assert_eq!(format_part(b"hello"), "\"hello\"");
    assert_eq!(format_part(b"hello \"world\""), "\"hello \\\"world\\\"\"");
    assert_eq!(format_part(b""), "\"\"");
    assert_eq!(format_part("  gr\u{fc}\u{df}e ".as_bytes()), "\"  gr\u{fc}\u{df}e \"");
}

#[test]
fn format_part_quotes_text_that_only_looks_structured() {
    assert_eq!(format_part(b"{not json}"), "\"{not json}\"");
    assert_eq!(format_part(b"[1, 2"), "\"[1, 2\"");
    assert_eq!(format_part(b"{"), "\"{\"");
}

#[test]
fn format_part_counts_and_lists_bytes_that_are_no_text() {
    assert_eq!(format_part(&[0xff, 0x00, 0x10]), "[3 bytes: [255, 0, 16]]");
    assert_eq!(format_part(&[0x80]), "[1 bytes: [128]]");
    assert_eq!(format_part(&[0xff, 0xfe]), "[2 bytes: [255, 254]]");
}

#[test]
fn format_part_previews_long_frames_that_are_no_text() {
    let mut frame = vec![0xffu8];
    for i in 0..24u8 {
        frame.push(i);
    }
    assert_eq!(
        format_part(&frame),
        "[25 bytes: [255, 0, 1, 2, 3, 4, 5, 6, 7, 8, 9, 10, 11, 12, 13, 14, 15, 16, 17, 18]...]"
    );
}

#[test]
fn format_bytes_counts_and_lists_short_frames() {
    assert_eq!(format_bytes(&[255, 0, 7]), "[3 bytes: [255, 0, 7]]");
    assert_eq!(format_bytes(&[]), "[0 bytes: []]");
    assert_eq!(format_bytes(&[9]), "[1 bytes: [9]]");
    let exactly: Vec<u8> = (100..120).collect();
    assert_eq!(exactly.len(), BYTES_PREVIEW_LEN);
    assert_eq!(format_bytes(&exactly), format!("[20 bytes: {:?}]", exactly));
}

#[test]
fn format_bytes_previews_long_frames() {
    let frame: Vec<u8> = (0..=255).collect();
    assert_eq!(
        format_bytes(&frame),
        format!("[256 bytes: {:?}...]", &frame[..20])
    );
    let one_more: Vec<u8> = (0..21).collect();
    assert_eq!(
        format_bytes(&one_more),
        format!("[21 bytes: {:?}...]", &one_more[..20])
    );
}

#[test]
fn format_text_parses_trimmed_literal() {
    assert_eq!(format_text("  [1, 2]  "), "[\n  1,\n  2\n]");
    assert_eq!(format_text("\n\t{\"a\": null}\r\n"), "{\n  \"a\": null\n}");
}

#[test]
fn format_text_quotes_the_untrimmed_text() {
    assert_eq!(format_text("  plain  "), "\"  plain  \"");
    assert_eq!(format_text(" 12 "), "\" 12 \"");
    assert_eq!(format_text("say \"hi\""), "\"say \\\"hi\\\"\"");
    assert_eq!(format_text("  [1, 2  "), "\"  [1, 2  \"");
    assert_eq!(format_text("{]"), "\"{]\"");
}

#[test]
fn structured_shape_needs_matching_brackets() {
    assert!(has_structured_shape("{}"));
    assert!(has_structured_shape("[]"));
    assert!(has_structured_shape("{anything}"));
    assert!(has_structured_shape("[\u{e9}]"));
    assert!(!has_structured_shape(""));
    assert!(!has_structured_shape("{"));
    assert!(!has_structured_shape("]"));
    assert!(!has_structured_shape("{]"));
    assert!(!has_structured_shape("[}"));
    assert!(!has_structured_shape(" {}"));
    assert!(!has_structured_shape("\u{e9}{}\u{e9}"));
}

#[test]
fn quote_escapes_only_double_quotes() {
    assert_eq!(quote(""), "\"\"");
    assert_eq!(quote("a"), "\"a\"");
    assert_eq!(quote("\""), "\"\\\"\"");
    assert_eq!(quote("a\\b'c\n"), "\"a\\b'c\n\"");
    assert_eq!(quote("\"\u{1f600}\""), "\"\\\"\u{1f600}\\\"\"");
}

#[test]
fn format_json_pretty_crops_before_printing() {
    let value = try_parse_json_str("[[1], [2], [3], [4], [5], [6], [7]]").unwrap();
    assert_eq!(
        format_json_pretty(&value),
        "[\n  [\n    1\n  ],\n  \"... (5 more) ...\",\n  [\n    7\n  ]\n]"
    );
}

#[test]
fn format_message_joins_frames() {
    let parts = vec![b"a".to_vec(), vec![0xff, 0xfe], b"{}".to_vec()];
    assert_eq!(format_message(&parts), "[\"a\" | [2 bytes: [255, 254]] | {}]");
    let two = vec![b"id".to_vec(), b"".to_vec()];
    assert_eq!(format_message(&two), "[\"id\" | \"\"]");
}

#[test]
fn format_message_of_one_frame_is_the_frame() {
    assert_eq!(format_message(&[b"ping".to_vec()]), "\"ping\"");
    assert_eq!(format_message(&[b"[1]".to_vec()]), "[\n  1\n]");
}

#[test]
fn format_message_marks_the_empty_message() {
    assert_eq!(format_message(&[]), "[empty message]");
}
