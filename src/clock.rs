//! The clock face for a time of day given as hour, minute and second.

use vstd::prelude::*;
use crate::glyph::GLYPH_HEIGHT;
use crate::render::{clock_face, format_time, Text};

verus! {

/// The decimal digit character for `d` (0 to 9).
pub open spec fn digit_char(d: int) -> char {
    if d == 0 {
        '0'
    } else if d == 1 {
        '1'
    } else if d == 2 {
        '2'
    } else if d == 3 {
        '3'
    } else if d == 4 {
        '4'
    } else if d == 5 {
        '5'
    } else if d == 6 {
        '6'
    } else if d == 7 {
        '7'
    } else if d == 8 {
        '8'
    } else {
        '9'
    }
}

/// `n` (below 100) written with two decimal digits, zero-padded.
pub open spec fn two_digits(n: int) -> Seq<char> {
    seq![digit_char(n / 10), digit_char(n % 10)]
}

/// The `HH:MM:SS` text of a time of day.
pub open spec fn hms_text(hour: int, minute: int, second: int) -> Seq<char> {
    two_digits(hour) + seq![':'] + two_digits(minute) + seq![':'] + two_digits(second)
}

/// Relies on chrono's `NaiveTime::from_hms_opt`, which accepts any hour below
/// 24, minute below 60 and second below 60, and on its `%H`, `%M` and `%S`
/// specifiers, each of which writes its number zero-padded to two digits.
#[verifier::external_body]
fn format_hms(hour: u32, minute: u32, second: u32) -> (s: String)
    requires
        hour < 24,
        minute < 60,
        second < 60,
    ensures
        s@ == hms_text(hour as int, minute as int, second as int),
{
    chrono::NaiveTime::from_hms_opt(hour, minute, second).map(
        |t| t.format("%H:%M:%S").to_string(),
    ).unwrap_or_default()
}

/// The clock face for a time of day: its `HH:MM:SS` text rendered in large
/// digits, seven lines tall.
pub fn format_clock(hour: u32, minute: u32, second: u32) -> (text: Text)
    requires
        hour < 24,
        minute < 60,
        second < 60,
    ensures
        text@ == clock_face(hms_text(hour as int, minute as int, second as int)),
        text@.len() == GLYPH_HEIGHT,
{
    let time = format_hms(hour, minute, second);
    format_time(time.as_str())
}

} // verus!
