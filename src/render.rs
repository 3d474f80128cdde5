//! Rendering a `MM:SS` time as one block of large glyphs.
use vstd::prelude::*;
use crate::glyph::{glyph_of, is_blank, is_digit_char, lemma_glyph_shape, lookup, rows_view, GlyphError, GLYPH_HEIGHT};
use crate::compose::{
    append_number, compose, is_rectangular, lemma_max_width_bounds, lemma_max_width_rectangular,
    lemma_merge_shape, max_width, pad_right, row_or_empty, trim_blank_rows,
    trim_trailing_blank_rows,
};

verus! {

/// The character of a decimal digit.
pub open spec fn digit_char(d: nat) -> char {
    if d == 0 { '0' }
    else if d == 1 { '1' }
    else if d == 2 { '2' }
    else if d == 3 { '3' }
    else if d == 4 { '4' }
    else if d == 5 { '5' }
    else if d == 6 { '6' }
    else if d == 7 { '7' }
    else if d == 8 { '8' }
    else { '9' }
}

/// The decimal digits of `n`, without leading zeros.
pub open spec fn decimal(n: nat) -> Seq<char>
    decreases n,
{
    if n < 10 {
        seq![digit_char(n)]
    } else {
        decimal(n / 10).push(digit_char(n % 10))
    }
}

/// `n` in decimal, zero-padded to at least two digits.
pub open spec fn two_digits(n: nat) -> Seq<char> {
    if n < 10 {
        seq!['0'] + decimal(n)
    } else {
        decimal(n)
    }
}

/// The text `MM:SS` of a time.
pub open spec fn time_text(minutes: nat, seconds: nat) -> Seq<char> {
    two_digits(minutes) + seq![':'] + two_digits(seconds)
}

/// The glyphs of a text; meaningful where every character has one.
pub open spec fn glyphs_for(text: Seq<char>) -> Seq<Seq<Seq<char>>> {
    text.map_values(|c: char| glyph_of(c).unwrap())
}

/// Every character of the text has a glyph.
pub open spec fn supported(text: Seq<char>) -> bool {
    forall|i: int| 0 <= i < text.len() ==> #[trigger] glyph_of(text[i]) is Some
}

/// Row count of the tallest glyph.
pub open spec fn max_height(gs: Seq<Seq<Seq<char>>>) -> nat
    decreases gs.len(),
{
    if gs.len() == 0 {
        0
    } else {
        let h = max_height(gs.drop_last());
        if gs.last().len() > h {
            gs.last().len()
        } else {
            h
        }
    }
}

/// The block drawn for a time.
pub open spec fn rendered(minutes: nat, seconds: nat) -> Seq<Seq<char>> {
    trim_blank_rows(compose(glyphs_for(time_text(minutes, seconds))))
}

spec fn pow10(k: nat) -> nat
    decreases k,
{
    if k == 0 { 1 } else { 10 * pow10((k - 1) as nat) }
}

proof fn lemma_decimal_digits(n: nat)
    ensures
        decimal(n).len() >= 1,
        forall|i: int| 0 <= i < decimal(n).len() ==> is_digit_char(#[trigger] decimal(n)[i]),
    decreases n,
{
    if n >= 10 {
        lemma_decimal_digits(n / 10);
        let d = decimal(n);
        assert forall|i: int| 0 <= i < d.len() implies is_digit_char(#[trigger] d[i]) by {
            if i < d.len() - 1 {
                assert(d[i] == decimal(n / 10)[i]);
            }
        }
    }
}

proof fn lemma_decimal_len(n: nat, k: nat)
    requires
        n < pow10(k),
        k >= 1,
    ensures
        decimal(n).len() <= k,
    decreases n,
{
    if n >= 10 {
        if k == 1 {
            assert(pow10(1) == 10) by {
                assert(pow10(0) == 1);
            }
        }
        assert(pow10(k) == 10 * pow10((k - 1) as nat));
        assert(n / 10 < pow10((k - 1) as nat));
        lemma_decimal_len(n / 10, (k - 1) as nat);
    }
}

proof fn lemma_time_text_chars(minutes: nat, seconds: nat)
    ensures
        supported(time_text(minutes, seconds)),
        is_digit_char(time_text(minutes, seconds).last()),
{
    lemma_decimal_digits(minutes);
    lemma_decimal_digits(seconds);
    let t = time_text(minutes, seconds);
    let a = two_digits(minutes);
    let b = two_digits(seconds);
    assert forall|i: int| 0 <= i < a.len() implies is_digit_char(#[trigger] a[i]) by {
        if minutes < 10 && i > 0 {
            assert(a[i] == decimal(minutes)[i - 1]);
        }
    }
    assert forall|i: int| 0 <= i < b.len() implies is_digit_char(#[trigger] b[i]) by {
        if seconds < 10 && i > 0 {
            assert(b[i] == decimal(seconds)[i - 1]);
        }
    }
    assert forall|i: int| 0 <= i < t.len() implies #[trigger] glyph_of(t[i]) is Some by {
        if i < a.len() {
            assert(t[i] == a[i]);
        } else if i == a.len() {
            assert(t[i] == ':');
        } else {
            assert(t[i] == b[i - a.len() - 1]);
        }
    }
    assert(t.last() == b.last());
}

proof fn lemma_time_text(minutes: u32, seconds: u32)
    ensures
        time_text(minutes as nat, seconds as nat).len() <= 21,
        supported(time_text(minutes as nat, seconds as nat)),
{
    reveal_with_fuel(pow10, 11);
    assert(pow10(10) == 10000000000);
    lemma_decimal_len(minutes as nat, 10);
    lemma_decimal_len(seconds as nat, 10);
    lemma_time_text_chars(minutes as nat, seconds as nat);
}

fn digit(d: u32) -> (c: char)
    requires
        d < 10,
    ensures
        c == digit_char(d as nat),
{
    match d {
        0 => '0',
        1 => '1',
        2 => '2',
        3 => '3',
        4 => '4',
        5 => '5',
        6 => '6',
        7 => '7',
        8 => '8',
        _ => '9',
    }
}

fn push_decimal(out: &mut Vec<char>, n: u32)
    ensures
        final(out)@ == old(out)@ + decimal(n as nat),
    decreases n,
{
    if n >= 10 {
        push_decimal(out, n / 10);
    }
    out.push(digit(n % 10));
    assert(out@ =~= old(out)@ + decimal(n as nat));
}

fn push_two_digits(out: &mut Vec<char>, n: u32)
    ensures
        final(out)@ == old(out)@ + two_digits(n as nat),
{
    if n < 10 {
        out.push('0');
    }
    push_decimal(out, n);
    assert(out@ =~= old(out)@ + two_digits(n as nat));
}

/// The characters of `MM:SS`, each field zero-padded to two digits; minutes
/// past 99 keep all their digits.
pub fn time_chars(minutes: u32, seconds: u32) -> (r: Vec<char>)
    ensures
        r@ == time_text(minutes as nat, seconds as nat),
{
    let mut r: Vec<char> = Vec::new();
    push_two_digits(&mut r, minutes);
    r.push(':');
    push_two_digits(&mut r, seconds);
    assert(r@ =~= time_text(minutes as nat, seconds as nat));
    r
}

proof fn lemma_glyph_width(c: char)
    requires
        glyph_of(c) is Some,
    ensures
        max_width(glyph_of(c).unwrap()) <= 5,
        glyph_of(c).unwrap().len() == GLYPH_HEIGHT,
{
    let g = glyph_of(c).unwrap();
    lemma_glyph_shape(c);
    lemma_max_width_bounds(g);
    let j = choose|j: int| 0 <= j < g.len() && #[trigger] g[j].len() == max_width(g);
    assert(g[j].len() <= 5);
}

/// Renders `minutes:seconds` as one block of large glyphs.
pub fn render(minutes: u32, seconds: u32) -> (r: Result<Vec<String>, GlyphError>)
    ensures
        r is Ok,
        rows_view(r->Ok_0@) == rendered(minutes as nat, seconds as nat),
{
    let text = time_chars(minutes, seconds);
    proof {
        lemma_time_text(minutes, seconds);
    }
    let ghost gs = glyphs_for(text@);
    let mut block: Vec<String> = Vec::new();
    let mut i: usize = 0;
    assert(gs.take(0) =~= Seq::<Seq<Seq<char>>>::empty());
    while i < text.len()
        invariant
            i <= text.len(),
            text.len() <= 21,
            gs == glyphs_for(text@),
            supported(text@),
            rows_view(block@) == compose(gs.take(i as int)),
            max_width(rows_view(block@)) <= 6 * i,
        decreases text.len() - i,
    {
        let c = text[i];
        assert(glyph_of(text@[i as int]) is Some);
        let g = match lookup(c) {
            Ok(g) => g,
            Err(e) => {
                return Err(e);
            },
        };
        proof {
            lemma_glyph_width(c);
        }
        let ghost cur = rows_view(block@);
        append_number(&mut block, &g);
        proof {
            lemma_merge_shape(cur, rows_view(g@));
            lemma_max_width_rectangular(
                rows_view(block@),
                max_width(cur) + max_width(rows_view(g@)) + 1,
            );
            assert(gs.take(i + 1).drop_last() =~= gs.take(i as int));
        }
        i += 1;
    }
    assert(gs.take(i as int) =~= gs);
    trim_trailing_blank_rows(&mut block);
    Ok(block)
}

/// Composing glyphs gives as many rows as the tallest glyph has, all of
/// one length.
pub proof fn lemma_compose_shape(gs: Seq<Seq<Seq<char>>>)
    ensures
        compose(gs).len() == max_height(gs),
        is_rectangular(compose(gs), max_width(compose(gs))),
    decreases gs.len(),
{
    if gs.len() > 0 {
        let cur = compose(gs.drop_last());
        lemma_compose_shape(gs.drop_last());
        lemma_merge_shape(cur, gs.last());
        lemma_max_width_rectangular(compose(gs), max_width(cur) + max_width(gs.last()) + 1);
    }
}

proof fn lemma_max_height_uniform(gs: Seq<Seq<Seq<char>>>, h: nat)
    requires
        gs.len() > 0,
        forall|i: int| 0 <= i < gs.len() ==> (#[trigger] gs[i]).len() == h,
    ensures
        max_height(gs) == h,
    decreases gs.len(),
{
    assert(gs[gs.len() - 1].len() == h);
    if gs.len() > 1 {
        let p = gs.drop_last();
        assert forall|i: int| 0 <= i < p.len() implies (#[trigger] p[i]).len() == h by {
            assert(p[i] == gs[i]);
        }
        lemma_max_height_uniform(p, h);
    } else {
        assert(max_height(gs.drop_last()) == 0);
    }
}

/// The block of any time has as many rows as the tallest glyph of its text,
/// and all its rows have one length.
pub proof fn lemma_render_shape(minutes: nat, seconds: nat)
    ensures
        rendered(minutes, seconds).len() == max_height(glyphs_for(time_text(minutes, seconds))),
        is_rectangular(rendered(minutes, seconds), max_width(rendered(minutes, seconds))),
{
    let t = time_text(minutes, seconds);
    let gs = glyphs_for(t);
    lemma_time_text_chars(minutes, seconds);
    assert forall|i: int| 0 <= i < gs.len() implies (#[trigger] gs[i]).len() == GLYPH_HEIGHT by {
        assert(glyph_of(t[i]) is Some);
        lemma_glyph_shape(t[i]);
    }
    lemma_max_height_uniform(gs, GLYPH_HEIGHT as nat);
    lemma_compose_shape(gs);
    let c = compose(gs);
    let cur = compose(gs.drop_last());
    let g = gs.last();
    assert(g == glyph_of(t.last()).unwrap());
    lemma_glyph_shape(t.last());
    let j = choose|j: int| 0 <= j < g[4].len() && g[4][j] != ' ';
    lemma_max_width_bounds(cur);
    let left = pad_right(row_or_empty(cur, 4), max_width(cur));
    assert(left.len() == max_width(cur));
    assert(c[4] == left + pad_right(row_or_empty(g, 4), max_width(g) + 1));
    assert(c[4][left.len() + j] == g[4][j]);
    assert(!is_blank(c.last()));
}

} // verus!
