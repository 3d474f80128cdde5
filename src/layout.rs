//! Placing a block and a title in the middle of a terminal.
use vstd::prelude::*;
use crate::glyph::{rows_view, GlyphError};
use crate::compose::{max_row_width, max_width, spaces};
use crate::render::{render, rendered};

verus! {

/// The message shown when a countdown is cut short.
pub const FAREWELL: &'static str = "Good job! See you soon!";

/// Columns (or lines) left of (or above) content of size `used` centered in
/// `total`; zero where the content does not fit.
pub open spec fn center_pad(total: nat, used: nat) -> nat {
    if total >= used {
        ((total - used) as nat) / 2
    } else {
        0
    }
}

/// Lines left above a title on a terminal of `height` lines; zero on a short
/// terminal.
pub open spec fn title_top(height: nat) -> nat {
    if height >= 4 {
        ((height - 4) as nat) / 3
    } else {
        0
    }
}

/// `n` line breaks.
pub open spec fn newlines(n: nat) -> Seq<char> {
    Seq::new(n, |_i: int| '\n')
}

/// Every row of the block shifted right by the same padding, then one blank
/// row.
pub open spec fn centered(block: Seq<Seq<char>>, width: nat) -> Seq<Seq<char>> {
    block.map_values(|r: Seq<char>| spaces(center_pad(width, max_width(block))) + r).push(
        Seq::empty(),
    )
}

/// The title after its top margin and its left padding.
pub open spec fn centered_title(title: Seq<char>, width: nat, height: nat) -> Seq<char> {
    newlines(title_top(height)) + spaces(center_pad(width, title.len())) + title
}

/// Shifts every row of the block right so that the block sits in the middle
/// of `term_width` columns, and adds a blank row after it.
pub fn center_ascii(ascii_time: &Vec<String>, term_width: usize) -> (r: Vec<String>)
    ensures
        rows_view(r@) == centered(rows_view(ascii_time@), term_width as nat),
{
    let max_line_width = max_row_width(ascii_time);
    let padding = if term_width >= max_line_width { (term_width - max_line_width) / 2 } else { 0 };
    let ghost target = centered(rows_view(ascii_time@), term_width as nat);
    let mut centered_rows: Vec<String> = Vec::new();
    let mut i: usize = 0;
    while i < ascii_time.len()
        invariant
            i <= ascii_time.len(),
            padding == center_pad(term_width as nat, max_width(rows_view(ascii_time@))),
            target == centered(rows_view(ascii_time@), term_width as nat),
            rows_view(centered_rows@) == target.take(i as int),
        decreases ascii_time.len() - i,
    {
        let mut line = String::new();
        append_spaces(&mut line, padding);
        line.append(ascii_time[i].as_str());
        assert(line@ == target[i as int]);
        let ghost prev = centered_rows@;
        centered_rows.push(line);
        assert(rows_view(centered_rows@) =~= rows_view(prev).push(target[i as int]));
        assert(target.take(i + 1) =~= target.take(i as int).push(target[i as int]));
        i += 1;
    }
    let ghost prev = centered_rows@;
    assert(target.take(i as int) =~= target.drop_last());
    centered_rows.push(String::new());
    assert(rows_view(centered_rows@) =~= rows_view(prev).push(Seq::empty()));
    assert(rows_view(centered_rows@) =~= target);
    centered_rows
}

fn append_spaces(s: &mut String, n: usize)
    ensures
        final(s)@ == old(s)@ + spaces(n as nat),
{
    let mut k: usize = 0;
    while k < n
        invariant
            k <= n,
            s@ == old(s)@ + spaces(k as nat),
        decreases n - k,
    {
        proof {
            reveal_strlit(" ");
        }
        s.append(" ");
        k += 1;
        assert(s@ =~= old(s)@ + spaces(k as nat));
    }
}

/// The title preceded by its top margin of blank lines and by the spaces
/// that center it in `term_width` columns.
pub fn center_text(title: &str, term_width: usize, term_height: usize) -> (r: String)
    ensures
        r@ == centered_title(title@, term_width as nat, term_height as nat),
{
    let len = title.unicode_len();
    let horizontal_padding = if term_width >= len { (term_width - len) / 2 } else { 0 };
    let vertical_padding = if term_height >= 4 { (term_height - 4) / 3 } else { 0 };
    let mut padded_title = String::new();
    let mut k: usize = 0;
    while k < vertical_padding
        invariant
            k <= vertical_padding,
            padded_title@ == newlines(k as nat),
        decreases vertical_padding - k,
    {
        proof {
            reveal_strlit("\n");
        }
        padded_title.append("\n");
        k += 1;
        assert(padded_title@ =~= newlines(k as nat));
    }
    append_spaces(&mut padded_title, horizontal_padding);
    padded_title.append(title);
    padded_title
}

/// The farewell message, centered like a title.
pub fn farewell(term_width: usize, term_height: usize) -> (r: String)
    ensures
        r@ == centered_title(FAREWELL@, term_width as nat, term_height as nat),
{
    center_text(FAREWELL, term_width, term_height)
}

/// The block of `minutes:seconds`, centered in `term_width` columns.
pub fn get_time(minutes: u32, seconds: u32, term_width: usize) -> (r: Result<Vec<String>, GlyphError>)
    ensures
        r is Ok,
        rows_view(r->Ok_0@) == centered(rendered(minutes as nat, seconds as nat), term_width as nat),
{
    let ascii_time = render(minutes, seconds)?;
    Ok(center_ascii(&ascii_time, term_width))
}

/// A block at least as wide as the terminal gets no padding: its rows stay as
/// they are, followed by the blank row.
pub proof fn lemma_center_no_padding(block: Seq<Seq<char>>, width: nat)
    requires
        width <= max_width(block),
    ensures
        centered(block, width) == block.push(Seq::empty()),
{
    assert(center_pad(width, max_width(block)) == 0);
    assert forall|r: Seq<char>| spaces(0) + r == r by {
        assert(spaces(0) + r =~= r);
    }
    assert(centered(block, width) =~= block.push(Seq::empty()));
}

} // verus!
