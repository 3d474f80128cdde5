//! Joining glyphs left to right into one rectangular block of text rows.
use vstd::prelude::*;
use crate::glyph::{is_blank, rows_view};

verus! {

/// `n` space characters.
pub open spec fn spaces(n: nat) -> Seq<char> {
    Seq::new(n, |_i: int| ' ')
}

/// `s` followed by as many spaces as bring it to `w` columns.
pub open spec fn pad_right(s: Seq<char>, w: nat) -> Seq<char> {
    if s.len() < w {
        s + spaces((w - s.len()) as nat)
    } else {
        s
    }
}

/// Width of the widest row; zero for no rows.
pub open spec fn max_width(rows: Seq<Seq<char>>) -> nat
    decreases rows.len(),
{
    if rows.len() == 0 {
        0
    } else {
        let w = max_width(rows.drop_last());
        if rows.last().len() > w {
            rows.last().len()
        } else {
            w
        }
    }
}

/// Row `i`, or the empty row past the end.
pub open spec fn row_or_empty(rows: Seq<Seq<char>>, i: int) -> Seq<char> {
    if 0 <= i < rows.len() {
        rows[i]
    } else {
        Seq::empty()
    }
}

/// The block `cur` with glyph `g` appended on its right: each row of `cur` is
/// padded to the width of `cur`, each row of `g` to the width of `g` plus one
/// column of spacing, and missing rows count as empty.
pub open spec fn merge(cur: Seq<Seq<char>>, g: Seq<Seq<char>>) -> Seq<Seq<char>> {
    let n = if cur.len() >= g.len() { cur.len() } else { g.len() };
    Seq::new(
        n,
        |i: int|
            pad_right(row_or_empty(cur, i), max_width(cur)) + pad_right(
                row_or_empty(g, i),
                max_width(g) + 1,
            ),
    )
}

/// The glyphs merged one after another, from the empty block.
pub open spec fn compose(gs: Seq<Seq<Seq<char>>>) -> Seq<Seq<char>>
    decreases gs.len(),
{
    if gs.len() == 0 {
        Seq::empty()
    } else {
        merge(compose(gs.drop_last()), gs.last())
    }
}

/// The block without its trailing blank rows.
pub open spec fn trim_blank_rows(rows: Seq<Seq<char>>) -> Seq<Seq<char>>
    decreases rows.len(),
{
    if rows.len() > 0 && is_blank(rows.last()) {
        trim_blank_rows(rows.drop_last())
    } else {
        rows
    }
}

/// All rows have the same length `w`.
pub open spec fn is_rectangular(rows: Seq<Seq<char>>, w: nat) -> bool {
    forall|i: int| 0 <= i < rows.len() ==> #[trigger] rows[i].len() == w
}

pub proof fn lemma_max_width_bounds(rows: Seq<Seq<char>>)
    ensures
        forall|i: int| 0 <= i < rows.len() ==> #[trigger] rows[i].len() <= max_width(rows),
        rows.len() > 0 ==> exists|i: int| 0 <= i < rows.len() && #[trigger] rows[i].len() == max_width(rows),
    decreases rows.len(),
{
    if rows.len() > 0 {
        lemma_max_width_bounds(rows.drop_last());
        assert forall|i: int| 0 <= i < rows.len() implies #[trigger] rows[i].len() <= max_width(rows) by {
            if i < rows.len() - 1 {
                assert(rows[i] == rows.drop_last()[i]);
            }
        }
        if rows.last().len() <= max_width(rows.drop_last()) && rows.len() > 1 {
            let j = choose|j: int| 0 <= j < rows.drop_last().len() && #[trigger] rows.drop_last()[j].len() == max_width(rows.drop_last());
            assert(rows[j] == rows.drop_last()[j]);
        }
    }
}

pub proof fn lemma_max_width_rectangular(rows: Seq<Seq<char>>, w: nat)
    requires
        is_rectangular(rows, w),
    ensures
        max_width(rows) == if rows.len() == 0 { 0 } else { w },
{
    lemma_max_width_bounds(rows);
    if rows.len() > 0 {
        assert(rows[0].len() == w);
    }
}

/// The length of a padded row.
pub proof fn lemma_pad_right_len(s: Seq<char>, w: nat)
    ensures
        pad_right(s, w).len() == if s.len() < w { w } else { s.len() },
{
}

/// A merge is rectangular, with the two widths plus one column of spacing.
pub proof fn lemma_merge_shape(cur: Seq<Seq<char>>, g: Seq<Seq<char>>)
    ensures
        merge(cur, g).len() == if cur.len() >= g.len() { cur.len() } else { g.len() },
        is_rectangular(merge(cur, g), max_width(cur) + max_width(g) + 1),
{
    lemma_max_width_bounds(cur);
    lemma_max_width_bounds(g);
    let m = merge(cur, g);
    assert forall|i: int| 0 <= i < m.len() implies #[trigger] m[i].len() == max_width(cur) + max_width(g) + 1 by {
        lemma_pad_right_len(row_or_empty(cur, i), max_width(cur));
        lemma_pad_right_len(row_or_empty(g, i), max_width(g) + 1);
    }
}

/// Widest row of `rows`.
pub fn max_row_width(rows: &Vec<String>) -> (w: usize)
    ensures
        w == max_width(rows_view(rows@)),
{
    let mut w: usize = 0;
    let mut i: usize = 0;
    while i < rows.len()
        invariant
            i <= rows.len(),
            w == max_width(rows_view(rows@).take(i as int)),
        decreases rows.len() - i,
    {
        let len = rows[i].as_str().unicode_len();
        assert(rows_view(rows@).take(i + 1).drop_last() =~= rows_view(rows@).take(i as int));
        if len > w {
            w = len;
        }
        i += 1;
    }
    assert(rows_view(rows@).take(i as int) =~= rows_view(rows@));
    w
}

/// Appends spaces to `s` until it is `w` columns wide.
pub fn pad_to(s: &mut String, w: usize)
    ensures
        final(s)@ == pad_right(old(s)@, w as nat),
{
    let len = s.as_str().unicode_len();
    if len < w {
        let mut k: usize = len;
        while k < w
            invariant
                len <= k <= w,
                len == old(s)@.len(),
                s@ == old(s)@ + spaces((k - len) as nat),
            decreases w - k,
        {
            proof {
                reveal_strlit(" ");
            }
            s.append(" ");
            k += 1;
            assert(s@ =~= old(s)@ + spaces((k - len) as nat));
        }
    } else {
        assert(s@ =~= old(s)@);
    }
}

/// Appends a glyph on the right of the block, as `merge` describes.
pub fn append_number(ascii_time: &mut Vec<String>, number: &Vec<String>)
    requires
        max_width(rows_view(old(ascii_time)@)) + max_width(rows_view(number@)) + 1 <= usize::MAX,
    ensures
        rows_view(final(ascii_time)@) == merge(rows_view(old(ascii_time)@), rows_view(number@)),
{
    let time_width = max_row_width(ascii_time);
    let new_width = max_row_width(number) + 1;
    let max_lines = if ascii_time.len() >= number.len() { ascii_time.len() } else { number.len() };
    let ghost cur = rows_view(ascii_time@);
    let ghost g = rows_view(number@);
    let ghost target = merge(cur, g);
    let mut result: Vec<String> = Vec::new();
    let mut i: usize = 0;
    while i < max_lines
        invariant
            i <= max_lines,
            max_lines == target.len(),
            cur == rows_view(ascii_time@),
            g == rows_view(number@),
            time_width == max_width(cur),
            new_width == max_width(g) + 1,
            target == merge(cur, g),
            rows_view(result@) == target.take(i as int),
        decreases max_lines - i,
    {
        let mut line = if i < ascii_time.len() { ascii_time[i].clone() } else { String::new() };
        assert(line@ == row_or_empty(cur, i as int));
        pad_to(&mut line, time_width);
        let mut part = if i < number.len() { number[i].clone() } else { String::new() };
        assert(part@ == row_or_empty(g, i as int));
        pad_to(&mut part, new_width);
        line.append(part.as_str());
        assert(line@ == target[i as int]);
        let ghost prev = result@;
        result.push(line);
        assert(rows_view(result@) =~= rows_view(prev).push(target[i as int]));
        assert(target.take(i + 1) =~= target.take(i as int).push(target[i as int]));
        i += 1;
    }
    assert(rows_view(result@) =~= target);
    *ascii_time = result;
}

/// Whether the row holds spaces only.
pub fn is_blank_row(row: &str) -> (r: bool)
    ensures
        r == is_blank(row@),
{
    let n = row.unicode_len();
    let mut j: usize = 0;
    while j < n
        invariant
            j <= n,
            n == row@.len(),
            forall|k: int| 0 <= k < j ==> row@[k] == ' ',
        decreases n - j,
    {
        if row.get_char(j) != ' ' {
            return false;
        }
        j += 1;
    }
    true
}

/// Drops the trailing blank rows of the block.
pub fn trim_trailing_blank_rows(block: &mut Vec<String>)
    ensures
        rows_view(final(block)@) == trim_blank_rows(rows_view(old(block)@)),
{
    let ghost orig = rows_view(block@);
    loop
        invariant
            trim_blank_rows(rows_view(block@)) == trim_blank_rows(orig),
        ensures
            rows_view(block@) == trim_blank_rows(orig),
        decreases block.len(),
    {
        if block.len() == 0 {
            break;
        }
        let last = block.len() - 1;
        if !is_blank_row(block[last].as_str()) {
            break;
        }
        let ghost before = rows_view(block@);
        let _ = block.pop();
        assert(rows_view(block@) =~= before.drop_last());
    }
}

} // verus!
