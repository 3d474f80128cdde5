use pomodoro::compose::{append_number, is_blank_row, max_row_width, trim_trailing_blank_rows};
use pomodoro::glyph::{lookup, GlyphError, GLYPH_HEIGHT};
use pomodoro::render::{render, time_chars};

fn rows(lines: &[&str]) -> Vec<String> {
    lines.iter().map(|s| s.to_string()).collect()
}

#[test]
fn lookup_digit_has_five_rows() {
    let g = lookup('0').unwrap();
    assert_eq!(g, rows(&[" ###", "#   #", "#   #", "#   #", " ###"]));
    assert_eq!(g.len(), GLYPH_HEIGHT);
}

#[test]
fn lookup_colon() {
    assert_eq!(lookup(':').unwrap(), rows(&["", " #", "", " #", ""]));
}

#[test]
fn lookup_rejects_other_characters() {
    assert_eq!(lookup('x'), Err(GlyphError::UnsupportedCharacter('x')));
    assert_eq!(lookup(' '), Err(GlyphError::UnsupportedCharacter(' ')));
}

#[test]
fn time_text_is_zero_padded() {
    assert_eq!(time_chars(0, 0).into_iter().collect::<String>(), "00:00");
    assert_eq!(time_chars(5, 7).into_iter().collect::<String>(), "05:07");
    assert_eq!(time_chars(12, 59).into_iter().collect::<String>(), "12:59");
}

#[test]
fn time_text_keeps_long_minutes() {
    assert_eq!(time_chars(125, 3).into_iter().collect::<String>(), "125:03");
}

#[test]
fn render_zero_exact_block() {
    let block = render(0, 0).unwrap();
    assert_eq!(
        block,
        rows(&[
            " ###   ###      ###   ###  ",
            "#   # #   #  # #   # #   # ",
            "#   # #   #    #   # #   # ",
            "#   # #   #  # #   # #   # ",
            " ###   ###      ###   ###  ",
        ])
    );
}

#[test]
fn render_twelve_fifty_nine_exact_block() {
    let block = render(12, 59).unwrap();
    assert_eq!(
        block,
        rows(&[
            "  #   ###     #####  ###  ",
            " ##  #   #  # #     #   # ",
            "  #    ##     ####   #### ",
            "  #   #     #     #     # ",
            " ### #####    ####   ###  ",
        ])
    );
}

#[test]
fn render_is_rectangular_with_glyph_height() {
    for (m, s) in [(0u32, 0u32), (1, 9), (59, 59), (100, 30), (4294967295, 0)] {
        let block = render(m, s).unwrap();
        assert_eq!(block.len(), GLYPH_HEIGHT);
        let w = block[0].len();
        assert!(block.iter().all(|r| r.len() == w));
    }
}

#[test]
fn render_twice_gives_the_same_block() {
    assert_eq!(render(7, 42).unwrap(), render(7, 42).unwrap());
    assert_eq!(render(0, 0).unwrap(), render(0, 0).unwrap());
}

#[test]
fn compose_with_one_by_one_glyphs() {
    let zero = rows(&["0"]);
    let colon = rows(&[":"]);
    let mut block: Vec<String> = Vec::new();
    for g in [&zero, &zero, &colon, &zero, &zero] {
        append_number(&mut block, g);
    }
    assert_eq!(block, rows(&["0 0 : 0 0 "]));
}

#[test]
fn compose_three_row_glyphs() {
    let zero = rows(&["0", "0", "0"]);
    let colon = rows(&[":", ":", ":"]);
    let mut block: Vec<String> = Vec::new();
    for g in [&zero, &zero, &colon, &zero, &zero] {
        append_number(&mut block, g);
    }
    assert_eq!(block, rows(&["0 0 : 0 0 ", "0 0 : 0 0 ", "0 0 : 0 0 "]));
}

#[test]
fn append_pads_uneven_glyphs() {
    let mut block = rows(&["ab", "a"]);
    append_number(&mut block, &rows(&["x", "xyz", "q"]));
    assert_eq!(block, rows(&["abx   ", "a xyz ", "  q   "]));
}

#[test]
fn append_to_empty_block() {
    let mut block: Vec<String> = Vec::new();
    append_number(&mut block, &rows(&["##", "#"]));
    assert_eq!(block, rows(&["## ", "#  "]));
}

#[test]
fn width_of_rows() {
    assert_eq!(max_row_width(&rows(&["a", "abcd", ""])), 4);
    assert_eq!(max_row_width(&Vec::new()), 0);
}

#[test]
fn blank_rows() {
    assert!(is_blank_row(""));
    assert!(is_blank_row("   "));
    assert!(!is_blank_row("  # "));
}

#[test]
fn trims_only_trailing_blank_rows() {
    let mut block = rows(&["  ", "# ", "  ", "   ", ""]);
    trim_trailing_blank_rows(&mut block);
    assert_eq!(block, rows(&["  ", "# "]));
    let mut all_blank = rows(&[" ", ""]);
    trim_trailing_blank_rows(&mut all_blank);
    assert!(all_blank.is_empty());
}
