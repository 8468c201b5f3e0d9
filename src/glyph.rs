//! The glyph table: each decimal digit drawn as seven rows of eight block
//! characters or spaces.

use vstd::prelude::*;

verus! {

/// Number of rows in every glyph of the table.
pub const GLYPH_HEIGHT: usize = 7;

/// Number of characters in every row of every glyph of the table.
pub const GLYPH_WIDTH: usize = 8;

/// True for the ten decimal digit characters.
pub open spec fn is_digit(c: char) -> bool {
    '0' <= c && c <= '9'
}

/// The rows of the glyph drawn for `c`; any character that is not a digit gets
/// the blank glyph.
pub open spec fn glyph_rows(c: char) -> Seq<Seq<char>> {
    if c == '0' {
        seq![" ██████ "@, "█      █"@, "█      █"@, "█      █"@, "█      █"@, "█      █"@, " ██████ "@]
    } else if c == '1' {
        seq!["   ██   "@, "  ███   "@, "   ██   "@, "   ██   "@, "   ██   "@, "   ██   "@, " █████  "@]
    } else if c == '2' {
        seq![" ██████ "@, "█      █"@, "       █"@, " █████  "@, "█       "@, "█       "@, "████████"@]
    } else if c == '3' {
        seq![" ██████ "@, "      █ "@, "  █████ "@, "      █ "@, "      █ "@, "  █████ "@, " ██████ "@]
    } else if c == '4' {
        seq!["█     █ "@, "█     █ "@, "█     █ "@, " █████  "@, "      █ "@, "      █ "@, "      █ "@]
    } else if c == '5' {
        seq![" ███████"@, "█       "@, "██████  "@, "      █ "@, "      █ "@, "      █ "@, "███████ "@]
    } else if c == '6' {
        seq![" ██████ "@, "█       "@, "██████  "@, "█     █ "@, "█     █ "@, "█     █ "@, " █████  "@]
    } else if c == '7' {
        seq!["███████ "@, "     █  "@, "    █   "@, "   █    "@, "  █     "@, "  █     "@, "  █     "@]
    } else if c == '8' {
        seq![" ██████ "@, "█      █"@, " ██████ "@, "█      █"@, "█      █"@, "█      █"@, " ██████ "@]
    } else if c == '9' {
        seq![" ███████"@, "█      █"@, " ███████"@, "      █ "@, "      █ "@, "      █ "@, "  █████ "@]
    } else {
        blank_rows()
    }
}

/// The blank glyph: seven rows of eight spaces.
pub open spec fn blank_rows() -> Seq<Seq<char>> {
    seq!["        "@, "        "@, "        "@, "        "@, "        "@, "        "@, "        "@]
}

/// A glyph of the table: its rows, top to bottom.
pub struct Glyph {
    pub rows: Vec<&'static str>,
}

impl View for Glyph {
    type V = Seq<Seq<char>>;

    open spec fn view(&self) -> Seq<Seq<char>> {
        self.rows@.map_values(|r: &'static str| r@)
    }
}

/// Every row of every glyph is exactly `GLYPH_WIDTH` characters wide.
pub proof fn lemma_glyph_width(c: char)
    ensures
        forall|i: int| 0 <= i < GLYPH_HEIGHT ==> #[trigger] glyph_rows(c)[i].len() == GLYPH_WIDTH,
{
    reveal_strlit(" ██████ ");
    reveal_strlit("█      █");
    reveal_strlit("   ██   ");
    reveal_strlit("  ███   ");
    reveal_strlit(" █████  ");
    reveal_strlit("       █");
    reveal_strlit("█       ");
    reveal_strlit("████████");
    reveal_strlit("      █ ");
    reveal_strlit("  █████ ");
    reveal_strlit("█     █ ");
    reveal_strlit(" ███████");
    reveal_strlit("██████  ");
    reveal_strlit("███████ ");
    reveal_strlit("     █  ");
    reveal_strlit("    █   ");
    reveal_strlit("   █    ");
    reveal_strlit("  █     ");
    reveal_strlit("        ");
}

fn rows_of(r0: &'static str, r1: &'static str, r2: &'static str, r3: &'static str,
    r4: &'static str, r5: &'static str, r6: &'static str) -> (g: Glyph)
    ensures
        g@ == seq![r0@, r1@, r2@, r3@, r4@, r5@, r6@],
{
    let rows = vec![r0, r1, r2, r3, r4, r5, r6];
    let g = Glyph { rows };
    assert(g@ =~= seq![r0@, r1@, r2@, r3@, r4@, r5@, r6@]);
    g
}

/// The glyph drawn for `c`: the digit's own for `'0'..='9'`, the blank glyph
/// for any other character.
pub fn lookup(c: char) -> (g: Glyph)
    ensures
        g@ == glyph_rows(c),
        g@.len() == GLYPH_HEIGHT,
        forall|i: int| 0 <= i < GLYPH_HEIGHT ==> #[trigger] g@[i].len() == GLYPH_WIDTH,
        !is_digit(c) ==> g@ == blank_rows(),
        !is_digit(c) ==> forall|i: int, j: int|
            0 <= i < g@.len() && 0 <= j < g@[i].len() ==> g@[i][j] == ' ',
{
    proof {
        reveal_strlit("        ");
    }
    let g = match c {
        '0' => rows_of(" ██████ ", "█      █", "█      █", "█      █", "█      █", "█      █", " ██████ "),
        '1' => rows_of("   ██   ", "  ███   ", "   ██   ", "   ██   ", "   ██   ", "   ██   ", " █████  "),
        '2' => rows_of(" ██████ ", "█      █", "       █", " █████  ", "█       ", "█       ", "████████"),
        '3' => rows_of(" ██████ ", "      █ ", "  █████ ", "      █ ", "      █ ", "  █████ ", " ██████ "),
        '4' => rows_of("█     █ ", "█     █ ", "█     █ ", " █████  ", "      █ ", "      █ ", "      █ "),
        '5' => rows_of(" ███████", "█       ", "██████  ", "      █ ", "      █ ", "      █ ", "███████ "),
        '6' => rows_of(" ██████ ", "█       ", "██████  ", "█     █ ", "█     █ ", "█     █ ", " █████  "),
        '7' => rows_of("███████ ", "     █  ", "    █   ", "   █    ", "  █     ", "  █     ", "  █     "),
        '8' => rows_of(" ██████ ", "█      █", " ██████ ", "█      █", "█      █", "█      █", " ██████ "),
        '9' => rows_of(" ███████", "█      █", " ███████", "      █ ", "      █ ", "      █ ", "  █████ "),
        _ => rows_of("        ", "        ", "        ", "        ", "        ", "        ", "        "),
    };
    proof {
        lemma_glyph_width(c);
        assert forall|i: int| 0 <= i < GLYPH_HEIGHT implies #[trigger] g@[i].len() == GLYPH_WIDTH by {
            assert(g@[i] == glyph_rows(c)[i]);
        }
    }
    g
}

} // verus!
