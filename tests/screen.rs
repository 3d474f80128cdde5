use pomodoro::layout::{center_ascii, center_text, farewell, get_time, FAREWELL};
use pomodoro::render::render;

fn rows(lines: &[&str]) -> Vec<String> {
    lines.iter().map(|s| s.to_string()).collect()
}

#[test]
fn center_block_in_wider_terminal() {
    let block = rows(&["ab", "abcd"]);
    assert_eq!(center_ascii(&block, 9), rows(&["  ab", "  abcd", ""]));
}

#[test]
fn center_block_of_terminal_width_has_no_padding() {
    let block = rows(&["ab", "abcd"]);
    assert_eq!(center_ascii(&block, 4), rows(&["ab", "abcd", ""]));
}

#[test]
fn center_block_wider_than_terminal_has_no_padding() {
    let block = rows(&["ab", "abcd"]);
    assert_eq!(center_ascii(&block, 1), rows(&["ab", "abcd", ""]));
    assert_eq!(center_ascii(&block, 0), rows(&["ab", "abcd", ""]));
}

#[test]
fn center_empty_block() {
    assert_eq!(center_ascii(&Vec::new(), 10), rows(&[""]));
}

#[test]
fn center_title_on_standard_terminal() {
    let t = center_text("Work time!", 80, 24);
    assert_eq!(t, format!("{}{}Work time!", "\n".repeat(6), " ".repeat(35)));
}

#[test]
fn center_title_padding_is_floor_of_half() {
    let t = center_text("Break", 12, 4);
    assert_eq!(t, "   Break");
    let t = center_text("Break", 5, 10);
    assert_eq!(t, "\n\nBreak");
}

#[test]
fn center_title_on_tiny_terminal() {
    assert_eq!(center_text("Work time!", 3, 2), "Work time!");
}

#[test]
fn farewell_message_is_centered() {
    assert_eq!(FAREWELL, "Good job! See you soon!");
    assert_eq!(farewell(33, 10), format!("\n\n{}Good job! See you soon!", " ".repeat(5)));
}

#[test]
fn time_block_is_centered() {
    let block = render(0, 0).unwrap();
    let width = block[0].len();
    let centered = get_time(0, 0, width + 10).unwrap();
    assert_eq!(centered.len(), block.len() + 1);
    for (c, b) in centered.iter().zip(block.iter()) {
        assert_eq!(*c, format!("     {}", b));
    }
    assert_eq!(centered.last().unwrap(), "");
}
