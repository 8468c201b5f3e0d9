use tui_clock::glyph::lookup;
use tui_clock::render::{format_large_digit, format_time, join_segments, Line, Text};

fn line_text(line: &Line) -> String {
    line.spans.iter().map(|s| s.text.as_str()).collect()
}

fn block_text(text: &Text) -> Vec<String> {
    text.lines.iter().map(line_text).collect()
}

fn glyph(c: char) -> Vec<String> {
    lookup(c).rows.iter().map(|r| r.to_string()).collect()
}

fn expected_block(h: [char; 2], m: [char; 2], s: [char; 2]) -> Vec<String> {
    (0..7)
        .map(|i| {
            format!(
                "{}{}   {}{}   {}{}",
                glyph(h[0])[i],
                glyph(h[1])[i],
                glyph(m[0])[i],
                glyph(m[1])[i],
                glyph(s[0])[i],
                glyph(s[1])[i]
            )
        })
        .collect()
}

#[test]
fn lookup_digits_have_seven_rows() {
    for c in '0'..='9' {
        assert_eq!(lookup(c).rows.len(), 7);
    }
    assert_eq!(lookup('0').rows[0], " ██████ ");
    assert_eq!(lookup('7').rows[6], "  █     ");
    assert_eq!(lookup('2').rows[6], "████████");
}

#[test]
fn every_glyph_row_is_eight_wide() {
    for c in ['0', '1', '2', '3', '4', '5', '6', '7', '8', '9', 'x'] {
        for row in lookup(c).rows.iter() {
            assert_eq!(row.chars().count(), 8);
        }
    }
    assert_eq!(lookup('4').rows[0], "█     █ ");
    assert_eq!(lookup('5').rows[6], "███████ ");
}

#[test]
fn lookup_other_characters_are_blank() {
    for c in ['a', ':', ' ', 'Z', '/', 'é'] {
        let g = lookup(c);
        assert_eq!(g.rows.len(), 7);
        for row in g.rows.iter() {
            assert_eq!(*row, "        ");
        }
    }
}

#[test]
fn segment_joins_glyphs_without_gap() {
    let lines = format_large_digit(&['1', '2']);
    assert_eq!(lines.len(), 7);
    assert_eq!(line_text(&lines[0]), "   ██    ██████ ");
    assert_eq!(line_text(&lines[6]), " █████  ████████");
    for line in lines.iter() {
        for span in line.spans.iter() {
            assert_eq!(span.text.chars().count(), 1);
            assert!(span.accent);
        }
    }
}

#[test]
fn segment_of_no_characters_has_no_lines() {
    assert_eq!(format_large_digit(&[]).len(), 0);
}

#[test]
fn render_has_seven_rows() {
    let text = format_time("12:34:56");
    assert_eq!(text.lines.len(), 7);
    assert_eq!(block_text(&text), expected_block(['1', '2'], ['3', '4'], ['5', '6']));
}

#[test]
fn render_is_deterministic() {
    let a = format_time("07:45:31");
    let b = format_time("07:45:31");
    assert_eq!(a.lines.len(), b.lines.len());
    for (la, lb) in a.lines.iter().zip(b.lines.iter()) {
        assert_eq!(la.spans.len(), lb.spans.len());
        for (sa, sb) in la.spans.iter().zip(lb.spans.iter()) {
            assert_eq!(sa.text, sb.text);
            assert_eq!(sa.accent, sb.accent);
        }
    }
}

#[test]
fn changing_seconds_keeps_hours_and_minutes() {
    let a = block_text(&format_time("12:34:56"));
    let b = block_text(&format_time("12:34:07"));
    assert_eq!(a.len(), b.len());
    let mut some_differ = false;
    for i in 0..7 {
        let lead: String = format!("{}{}   {}{}   ", glyph('1')[i], glyph('2')[i], glyph('3')[i], glyph('4')[i]);
        assert!(a[i].starts_with(&lead));
        assert!(b[i].starts_with(&lead));
        if a[i] != b[i] {
            some_differ = true;
        }
    }
    assert!(some_differ);
}

#[test]
fn midnight_renders_three_equal_segments() {
    let text = format_time("00:00:00");
    let rows = block_text(&text);
    assert_eq!(rows.len(), 7);
    let zero = glyph('0');
    for i in 0..7 {
        let seg = format!("{}{}", zero[i], zero[i]);
        assert_eq!(rows[i], format!("{}   {}   {}", seg, seg, seg));
    }
    for line in text.lines.iter() {
        assert_eq!(line.spans.len(), 6 * 8 + 2 * 3);
        for (j, span) in line.spans.iter().enumerate() {
            assert_eq!(span.text.chars().count(), 1);
            assert!(span.accent);
            if (16..19).contains(&j) || (35..38).contains(&j) {
                assert_eq!(span.text, " ");
            }
        }
    }
}

#[test]
fn late_evening_renders_digit_sequence() {
    let rows = block_text(&format_time("23:59:59"));
    assert_eq!(rows, expected_block(['2', '3'], ['5', '9'], ['5', '9']));
    assert_eq!(rows[0], " ██████  ██████     ███████ ███████    ███████ ███████");
}

#[test]
fn malformed_input_renders_blank_block() {
    let rows = block_text(&format_time("ab:cd:ef"));
    assert_eq!(rows.len(), 7);
    for row in rows.iter() {
        assert_eq!(row.chars().count(), 54);
        assert!(row.chars().all(|c| c == ' '));
    }
}

#[test]
fn short_input_falls_back_to_blank_glyphs() {
    let rows = block_text(&format_time("12"));
    assert_eq!(rows.len(), 7);
    for i in 0..7 {
        let blank = "        ";
        assert_eq!(
            rows[i],
            format!("{}{}   {}{}   {}{}", glyph('1')[i], glyph('2')[i], blank, blank, blank, blank)
        );
    }
}

#[test]
fn join_pads_missing_rows_with_nothing() {
    let hour = format_large_digit(&['4']);
    let none: Vec<Line> = Vec::new();
    let text = join_segments(&hour, &none, &none);
    let rows = block_text(&text);
    assert_eq!(rows.len(), 7);
    let four = glyph('4');
    for i in 0..7 {
        assert_eq!(rows[i], format!("{}      ", four[i]));
    }
}

#[test]
fn join_takes_tallest_segment() {
    let none: Vec<Line> = Vec::new();
    let secs = format_large_digit(&['9']);
    let rows = block_text(&join_segments(&none, &none, &secs));
    assert_eq!(rows.len(), 7);
    assert_eq!(rows[0], format!("      {}", glyph('9')[0]));
    assert_eq!(block_text(&join_segments(&none, &none, &none)).len(), 0);
}
