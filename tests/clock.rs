use tui_clock::clock::format_clock;
use tui_clock::render::{format_time, Text};

fn rows(text: &Text) -> Vec<String> {
    text.lines
        .iter()
        .map(|l| l.spans.iter().map(|s| s.text.as_str()).collect())
        .collect()
}

#[test]
fn clock_face_matches_formatted_time() {
    assert_eq!(rows(&format_clock(23, 59, 59)), rows(&format_time("23:59:59")));
    assert_eq!(rows(&format_clock(12, 34, 56)), rows(&format_time("12:34:56")));
}

#[test]
fn clock_face_pads_single_digits_with_zero() {
    let text = format_clock(7, 5, 3);
    assert_eq!(text.lines.len(), 7);
    assert_eq!(rows(&text), rows(&format_time("07:05:03")));
    assert_ne!(rows(&text), rows(&format_time("7:5:3")));
}

#[test]
fn clock_face_at_midnight() {
    assert_eq!(rows(&format_clock(0, 0, 0)), rows(&format_time("00:00:00")));
}
