//! The fixed table of large characters: the ten digits and the colon.
use vstd::prelude::*;

verus! {

/// A character that the glyph table does not hold.
#[derive(Debug, Clone, Copy, PartialEq, Eq, Structural)]
pub enum GlyphError {
    UnsupportedCharacter(char),
}

/// Number of text rows of every glyph in the table.
pub const GLYPH_HEIGHT: usize = 5;

/// The rows of the glyph drawn for `c`, or `None` when the table has none.
pub open spec fn glyph_of(c: char) -> Option<Seq<Seq<char>>> {
    match c {
        '0' => Some(seq![" ###"@, "#   #"@, "#   #"@, "#   #"@, " ###"@]),
        '1' => Some(seq!["  #"@, " ##"@, "  #"@, "  #"@, " ###"@]),
        '2' => Some(seq![" ###"@, "#   #"@, "  ##"@, " #"@, "#####"@]),
        '3' => Some(seq!["####"@, "    #"@, " ###"@, "    #"@, "####"@]),
        '4' => Some(seq!["#   #"@, "#   #"@, "#####"@, "    #"@, "    #"@]),
        '5' => Some(seq!["#####"@, "#"@, "####"@, "    #"@, "####"@]),
        '6' => Some(seq![" ###"@, "#"@, "####"@, "#   #"@, " ###"@]),
        '7' => Some(seq!["#####"@, "    #"@, "   #"@, "  #"@, "  #"@]),
        '8' => Some(seq![" ###"@, "#   #"@, " ###"@, "#   #"@, " ###"@]),
        '9' => Some(seq![" ###"@, "#   #"@, " ####"@, "    #"@, " ###"@]),
        ':' => Some(seq![""@, " #"@, ""@, " #"@, ""@]),
        _ => None,
    }
}

pub open spec fn is_digit_char(c: char) -> bool {
    '0' <= c && c <= '9'
}

/// A row made of spaces only (the empty row included).
pub open spec fn is_blank(row: Seq<char>) -> bool {
    forall|j: int| 0 <= j < row.len() ==> row[j] == ' '
}

/// The view of a sequence of rows.
pub open spec fn rows_view(rows: Seq<String>) -> Seq<Seq<char>> {
    rows.map_values(|r: String| r@)
}

/// Every glyph of the table has five rows of at most five columns, and a
/// digit's bottom row is never blank.
pub proof fn lemma_glyph_shape(c: char)
    requires
        glyph_of(c) is Some,
    ensures
        glyph_of(c).unwrap().len() == GLYPH_HEIGHT,
        forall|i: int| 0 <= i < GLYPH_HEIGHT ==> #[trigger] glyph_of(c).unwrap()[i].len() <= 5,
        is_digit_char(c) ==> !is_blank(glyph_of(c).unwrap()[4]),
{
    reveal_strlit(" ###");
    reveal_strlit("#   #");
    reveal_strlit("  #");
    reveal_strlit(" ##");
    reveal_strlit("  ##");
    reveal_strlit(" #");
    reveal_strlit("#####");
    reveal_strlit("####");
    reveal_strlit("    #");
    reveal_strlit("#");
    reveal_strlit("   #");
    reveal_strlit(" ####");
    reveal_strlit("");
    let g = glyph_of(c).unwrap();
    if is_digit_char(c) {
        assert(g[4][1] == '#' || g[4][0] == '#' || g[4][2] == '#' || g[4][4] == '#');
    }
}

fn rows_of(a: &str, b: &str, c: &str, d: &str, e: &str) -> (r: Vec<String>)
    ensures
        rows_view(r@) == seq![a@, b@, c@, d@, e@],
{
    let r = vec![a.to_owned(), b.to_owned(), c.to_owned(), d.to_owned(), e.to_owned()];
    assert(rows_view(r@) =~= seq![a@, b@, c@, d@, e@]);
    r
}

/// Looks up the glyph of `c`.
pub fn lookup(c: char) -> (r: Result<Vec<String>, GlyphError>)
    ensures
        match glyph_of(c) {
            Some(g) => r is Ok && rows_view(r->Ok_0@) == g,
            None => r == Err::<Vec<String>, GlyphError>(GlyphError::UnsupportedCharacter(c)),
        },
{
    match c {
        '0' => Ok(rows_of(" ###", "#   #", "#   #", "#   #", " ###")),
        '1' => Ok(rows_of("  #", " ##", "  #", "  #", " ###")),
        '2' => Ok(rows_of(" ###", "#   #", "  ##", " #", "#####")),
        '3' => Ok(rows_of("####", "    #", " ###", "    #", "####")),
        '4' => Ok(rows_of("#   #", "#   #", "#####", "    #", "    #")),
        '5' => Ok(rows_of("#####", "#", "####", "    #", "####")),
        '6' => Ok(rows_of(" ###", "#", "####", "#   #", " ###")),
        '7' => Ok(rows_of("#####", "    #", "   #", "  #", "  #")),
        '8' => Ok(rows_of(" ###", "#   #", " ###", "#   #", " ###")),
        '9' => Ok(rows_of(" ###", "#   #", " ####", "    #", " ###")),
        ':' => Ok(rows_of("", " #", "", " #", "")),
        _ => Err(GlyphError::UnsupportedCharacter(c)),
    }
}

} // verus!
