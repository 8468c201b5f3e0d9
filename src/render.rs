//! Assembly of a time string into a block of coloured character spans.

use vstd::prelude::*;
use crate::glyph::{glyph_rows, lookup, GLYPH_HEIGHT};

verus! {

/// What a span shows: its characters, and whether they are drawn in the accent colour.
pub type SpanView = (Seq<char>, bool);

/// What a line shows: its spans, left to right.
pub type LineView = Seq<SpanView>;

/// One span of a rendered line.
pub struct Span {
    pub text: String,
    pub accent: bool,
}

impl View for Span {
    type V = SpanView;

    open spec fn view(&self) -> SpanView {
        (self.text@, self.accent)
    }
}

/// One rendered line: a sequence of spans.
pub struct Line {
    pub spans: Vec<Span>,
}

impl View for Line {
    type V = LineView;

    open spec fn view(&self) -> LineView {
        self.spans@.map_values(|s: Span| s@)
    }
}

/// A rendered block: its lines, top to bottom.
pub struct Text {
    pub lines: Vec<Line>,
}

impl View for Text {
    type V = Seq<LineView>;

    open spec fn view(&self) -> Seq<LineView> {
        lines_view(self.lines@)
    }
}

/// The views of a sequence of lines.
pub open spec fn lines_view(v: Seq<Line>) -> Seq<LineView> {
    v.map_values(|l: Line| l@)
}

/// Each character of `s` as a span of its own in the accent colour.
pub open spec fn cells(s: Seq<char>) -> LineView {
    s.map_values(|c: char| (seq![c], true))
}

/// The separator between two segments: three spaces, each an accent-coloured
/// span of its own like every other character of a line.
pub open spec fn separator() -> LineView {
    cells("   "@)
}

/// Row `i` of the segment drawn for the characters `cs`: the row-`i` strings of
/// their glyphs, side by side with no space between them.
pub open spec fn segment_row(cs: Seq<char>, i: int) -> Seq<char>
    decreases cs.len(),
{
    if cs.len() == 0 {
        seq![]
    } else {
        segment_row(cs.drop_last(), i) + glyph_rows(cs.last())[i]
    }
}

/// The lines of the segment drawn for `cs`: none when `cs` is empty, else one
/// per glyph row.
pub open spec fn segment_lines(cs: Seq<char>) -> Seq<LineView> {
    if cs.len() == 0 {
        seq![]
    } else {
        Seq::new(GLYPH_HEIGHT as nat, |i: int| cells(segment_row(cs, i)))
    }
}

/// Line `i` of a segment block, or nothing when the block has no such line.
pub open spec fn line_or_empty(b: Seq<LineView>, i: int) -> LineView {
    if 0 <= i < b.len() {
        b[i]
    } else {
        seq![]
    }
}

/// The largest of three lengths.
pub open spec fn max3(a: nat, b: nat, c: nat) -> nat {
    if a >= b && a >= c {
        a
    } else if b >= c {
        b
    } else {
        c
    }
}

/// Three segment blocks side by side: as many lines as the tallest, each line
/// made of the hour line, a separator, the minute line, a separator and the
/// second line.
pub open spec fn joined(h: Seq<LineView>, m: Seq<LineView>, s: Seq<LineView>) -> Seq<LineView> {
    Seq::new(
        max3(h.len(), m.len(), s.len()),
        |i: int| line_or_empty(h, i) + separator() + line_or_empty(m, i) + separator() + line_or_empty(s, i),
    )
}

/// The character at position `p` of `t`, or a space past its end.
pub open spec fn char_or_blank(t: Seq<char>, p: int) -> char {
    if 0 <= p < t.len() {
        t[p]
    } else {
        ' '
    }
}

/// The two characters of segment `k` (0 hours, 1 minutes, 2 seconds) of an
/// `HH:MM:SS` string.
pub open spec fn segment_chars(t: Seq<char>, k: int) -> Seq<char> {
    seq![char_or_blank(t, 3 * k), char_or_blank(t, 3 * k + 1)]
}

/// The block rendered for the time string `t`.
pub open spec fn clock_face(t: Seq<char>) -> Seq<LineView> {
    joined(
        segment_lines(segment_chars(t, 0)),
        segment_lines(segment_chars(t, 1)),
        segment_lines(segment_chars(t, 2)),
    )
}

proof fn lemma_cells_concat(a: Seq<char>, b: Seq<char>)
    ensures
        cells(a + b) == cells(a) + cells(b),
{
    assert(cells(a + b) =~= cells(a) + cells(b));
}

/// Appends each character of `row` to `line` as an accent-coloured span.
fn push_cells(line: &mut Line, row: &str)
    ensures
        final(line)@ == old(line)@ + cells(row@),
{
    let n = row.unicode_len();
    let mut j: usize = 0;
    while j < n
        invariant
            n == row@.len(),
            j <= n,
            line@ == old(line)@ + cells(row@.take(j as int)),
        decreases n - j,
    {
        let piece = row.substring_char(j, j + 1);
        let span = Span { text: String::from_str(piece), accent: true };
        let ghost before = line@;
        line.spans.push(span);
        proof {
            assert(line@ =~= before.push(span@));
            assert(piece@ =~= seq![row@[j as int]]);
            assert(row@.take(j + 1) =~= row@.take(j as int).push(row@[j as int]));
            lemma_cells_concat(row@.take(j as int), seq![row@[j as int]]);
            assert(cells(seq![row@[j as int]]) =~= seq![span@]);
            assert(row@.take(j as int).push(row@[j as int]) =~= row@.take(j as int) + seq![row@[j as int]]);
        }
        j += 1;
    }
    proof {
        assert(row@.take(n as int) =~= row@);
    }
}

/// Appends a copy of each span of `src` to `line`.
fn push_line(line: &mut Line, src: &Line)
    ensures
        final(line)@ == old(line)@ + src@,
{
    let mut j: usize = 0;
    while j < src.spans.len()
        invariant
            j <= src.spans@.len(),
            line@ == old(line)@ + src@.take(j as int),
        decreases src.spans@.len() - j,
    {
        let span = Span { text: src.spans[j].text.clone(), accent: src.spans[j].accent };
        let ghost before = line@;
        line.spans.push(span);
        proof {
            assert(line@ =~= before.push(span@));
            assert(src@.take(j + 1) =~= src@.take(j as int).push(src@[j as int]));
        }
        j += 1;
    }
    proof {
        assert(src@.take(src.spans@.len() as int) =~= src@);
    }
}

/// The segment block drawn for `digits`: for each glyph row, the row-`i` strings
/// of the characters' glyphs side by side, each character a span of its own in
/// the accent colour. No lines when `digits` is empty.
pub fn format_large_digit(digits: &[char]) -> (lines: Vec<Line>)
    ensures
        lines_view(lines@) == segment_lines(digits@),
{
    let mut lines: Vec<Line> = Vec::new();
    if digits.len() == 0 {
        proof {
            assert(lines_view(lines@) =~= segment_lines(digits@));
        }
        return lines;
    }
    let mut i: usize = 0;
    while i < GLYPH_HEIGHT
        invariant
            digits@.len() > 0,
            i <= GLYPH_HEIGHT,
            lines_view(lines@) =~= Seq::new(i as nat, |r: int| cells(segment_row(digits@, r))),
        decreases GLYPH_HEIGHT - i,
    {
        let mut line = Line { spans: Vec::new() };
        let mut k: usize = 0;
        while k < digits.len()
            invariant
                i < GLYPH_HEIGHT,
                k <= digits@.len(),
                line@ == cells(segment_row(digits@.take(k as int), i as int)),
            decreases digits@.len() - k,
        {
            let g = lookup(digits[k]);
            push_cells(&mut line, g.rows[i]);
            proof {
                let c = digits@[k as int];
                let t = digits@.take(k + 1);
                assert(t.drop_last() =~= digits@.take(k as int));
                assert(t.last() == c);
                assert(g@[i as int] == g.rows@[i as int]@);
                lemma_cells_concat(segment_row(digits@.take(k as int), i as int), glyph_rows(c)[i as int]);
            }
            k += 1;
        }
        proof {
            assert(digits@.take(digits@.len() as int) =~= digits@);
        }
        let ghost before = lines@;
        lines.push(line);
        proof {
            assert(lines_view(lines@) =~= lines_view(before).push(line@));
        }
        i += 1;
    }
    lines
}

/// Three segment blocks side by side, as many lines as the tallest of them:
/// line `i` is the hour block's line `i` (or nothing), a three-space separator, the
/// minute block's line `i` (or nothing), a separator, and the second block's line `i`
/// (or nothing).
pub fn join_segments(hour: &Vec<Line>, minutes: &Vec<Line>, seconds: &Vec<Line>) -> (text: Text)
    ensures
        text@ == joined(lines_view(hour@), lines_view(minutes@), lines_view(seconds@)),
        text@.len() == max3(hour@.len(), minutes@.len(), seconds@.len()),
{
    let ghost h = lines_view(hour@);
    let ghost m = lines_view(minutes@);
    let ghost s = lines_view(seconds@);
    let mut n = hour.len();
    if minutes.len() > n {
        n = minutes.len();
    }
    if seconds.len() > n {
        n = seconds.len();
    }
    assert(n == max3(hour@.len(), minutes@.len(), seconds@.len()));
    let mut lines: Vec<Line> = Vec::new();
    let mut i: usize = 0;
    while i < n
        invariant
            i <= n,
            n == max3(hour@.len(), minutes@.len(), seconds@.len()),
            h == lines_view(hour@),
            m == lines_view(minutes@),
            s == lines_view(seconds@),
            lines_view(lines@) =~= joined(h, m, s).take(i as int),
        decreases n - i,
    {
        let mut line = Line { spans: Vec::new() };
        proof {
            assert(line@ =~= seq![]);
        }
        if i < hour.len() {
            push_line(&mut line, &hour[i]);
        }
        let ghost a = line@;
        assert(a =~= line_or_empty(h, i as int));
        push_cells(&mut line, "   ");
        assert(line@ =~= a + separator());
        let ghost b = line@;
        if i < minutes.len() {
            push_line(&mut line, &minutes[i]);
        }
        assert(line@ =~= b + line_or_empty(m, i as int));
        let ghost c = line@;
        push_cells(&mut line, "   ");
        assert(line@ =~= c + separator());
        let ghost d = line@;
        if i < seconds.len() {
            push_line(&mut line, &seconds[i]);
        }
        assert(line@ =~= d + line_or_empty(s, i as int));
        let ghost before = lines@;
        lines.push(line);
        proof {
            assert(line@ =~= line_or_empty(h, i as int) + separator() + line_or_empty(m, i as int)
                + separator() + line_or_empty(s, i as int));
            assert(lines_view(lines@) =~= lines_view(before).push(line@));
            assert(joined(h, m, s).take(i + 1) =~= joined(h, m, s).take(i as int).push(line@));
        }
        i += 1;
    }
    let text = Text { lines };
    proof {
        assert(joined(h, m, s).take(n as int) =~= joined(h, m, s));
    }
    text
}

/// A line in which every span is one character in the accent colour.
pub open spec fn all_cells(line: LineView) -> bool {
    forall|j: int| 0 <= j < line.len() ==> (#[trigger] line[j]).0.len() == 1 && line[j].1
}

proof fn lemma_cells_all_cells(s: Seq<char>)
    ensures
        all_cells(cells(s)),
{
}

proof fn lemma_all_cells_concat(a: LineView, b: LineView)
    requires
        all_cells(a),
        all_cells(b),
    ensures
        all_cells(a + b),
{
    assert forall|j: int| 0 <= j < (a + b).len() implies (#[trigger] (a + b)[j]).0.len() == 1 && (a
        + b)[j].1 by {
        if j < a.len() {
            assert((a + b)[j] == a[j]);
        } else {
            assert((a + b)[j] == b[j - a.len()]);
        }
    }
}

/// Every line of the block for `t` consists of single characters, each in the
/// accent colour, separators included.
proof fn lemma_clock_face_cells(t: Seq<char>)
    ensures
        forall|i: int| 0 <= i < clock_face(t).len() ==> all_cells(#[trigger] clock_face(t)[i]),
{
    assert forall|i: int| 0 <= i < clock_face(t).len() implies all_cells(#[trigger] clock_face(t)[i]) by {
        let h = line_or_empty(segment_lines(segment_chars(t, 0)), i);
        let m = line_or_empty(segment_lines(segment_chars(t, 1)), i);
        let s = line_or_empty(segment_lines(segment_chars(t, 2)), i);
        lemma_cells_all_cells(segment_row(segment_chars(t, 0), i));
        lemma_cells_all_cells(segment_row(segment_chars(t, 1), i));
        lemma_cells_all_cells(segment_row(segment_chars(t, 2), i));
        lemma_cells_all_cells("   "@);
        assert(all_cells(h));
        assert(all_cells(m));
        assert(all_cells(s));
        lemma_all_cells_concat(h, separator());
        lemma_all_cells_concat(h + separator(), m);
        lemma_all_cells_concat(h + separator() + m, separator());
        lemma_all_cells_concat(h + separator() + m + separator(), s);
    }
}

/// The character at position `p` of `time`, or a space past its end.
fn char_or_blank_at(time: &str, len: usize, p: usize) -> (c: char)
    requires
        len == time@.len(),
    ensures
        c == char_or_blank(time@, p as int),
{
    if p < len {
        time.get_char(p)
    } else {
        ' '
    }
}

/// Renders an `HH:MM:SS` string as a block of seven lines: the hour, minute and
/// second segments drawn in large digits, side by side with three-space separators.
/// The characters at positions 0-1, 3-4 and 6-7 are drawn; any of them that is
/// not a digit, or lies past the end of `time`, is drawn as the blank glyph.
pub fn format_time(time: &str) -> (text: Text)
    ensures
        text@ == clock_face(time@),
        text@.len() == GLYPH_HEIGHT,
        forall|i: int| 0 <= i < text@.len() ==> all_cells(#[trigger] text@[i]),
{
    proof {
        lemma_clock_face_cells(time@);
    }
    let len = time.unicode_len();
    let hour = vec![char_or_blank_at(time, len, 0), char_or_blank_at(time, len, 1)];
    let minutes = vec![char_or_blank_at(time, len, 3), char_or_blank_at(time, len, 4)];
    let seconds = vec![char_or_blank_at(time, len, 6), char_or_blank_at(time, len, 7)];
    proof {
        assert(hour@ =~= segment_chars(time@, 0));
        assert(minutes@ =~= segment_chars(time@, 1));
        assert(seconds@ =~= segment_chars(time@, 2));
    }
    let large_hour = format_large_digit(hour.as_slice());
    let large_minutes = format_large_digit(minutes.as_slice());
    let large_seconds = format_large_digit(seconds.as_slice());
    join_segments(&large_hour, &large_minutes, &large_seconds)
}

/// The part of line `i` of the block for `t` that comes before the seconds:
/// the hour line, a separator, the minute line and a separator.
pub open spec fn leading_part(t: Seq<char>, i: int) -> LineView {
    line_or_empty(segment_lines(segment_chars(t, 0)), i) + separator() + line_or_empty(
        segment_lines(segment_chars(t, 1)),
        i,
    ) + separator()
}

/// The part of line `i` of the block for `t` that draws the seconds.
pub open spec fn seconds_part(t: Seq<char>, i: int) -> LineView {
    line_or_empty(segment_lines(segment_chars(t, 2)), i)
}

/// Rendering depends on the time string alone: equal strings give blocks with
/// the same lines, the same characters and the same colours.
pub proof fn lemma_render_deterministic(a: Seq<char>, b: Seq<char>)
    requires
        a == b,
    ensures
        clock_face(a) == clock_face(b),
{
}

/// Two time strings that differ only in the seconds (positions 6 and 7) give
/// blocks with the same number of lines, and each line of the two blocks has
/// the same leading part (hours, separator, minutes, separator); only what follows differs.
pub proof fn lemma_seconds_independent(a: Seq<char>, b: Seq<char>)
    requires
        a.len() == b.len(),
        forall|p: int| 0 <= p < a.len() && p != 6 && p != 7 ==> a[p] == b[p],
    ensures
        clock_face(a).len() == clock_face(b).len(),
        forall|i: int|
            0 <= i < clock_face(a).len() ==> {
                &&& clock_face(a)[i] == leading_part(a, i) + seconds_part(a, i)
                &&& clock_face(b)[i] == leading_part(b, i) + seconds_part(b, i)
                &&& leading_part(a, i) == leading_part(b, i)
            },
{
    assert(segment_chars(a, 0) =~= segment_chars(b, 0));
    assert(segment_chars(a, 1) =~= segment_chars(b, 1));
    assert forall|i: int| 0 <= i < clock_face(a).len() implies {
        &&& clock_face(a)[i] == leading_part(a, i) + seconds_part(a, i)
        &&& clock_face(b)[i] == leading_part(b, i) + seconds_part(b, i)
    } by {
        assert(clock_face(a)[i] =~= leading_part(a, i) + seconds_part(a, i));
        assert(clock_face(b)[i] =~= leading_part(b, i) + seconds_part(b, i));
    }
}

} // verus!
