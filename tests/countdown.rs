use pomodoro::input::{hex_to_ansi, parse_duration};
use pomodoro::ticker::{next_action, total_seconds, TickAction};

#[test]
fn seconds_in_a_phase() {
    assert_eq!(total_seconds(25), 1500);
    assert_eq!(total_seconds(0), 0);
    assert_eq!(total_seconds(u32::MAX), u32::MAX as u64 * 60);
}

#[test]
fn ticks_show_elapsed_time() {
    assert_eq!(next_action(0, 60, false), TickAction::Show { minutes: 0, seconds: 0 });
    assert_eq!(next_action(59, 60, false), TickAction::Show { minutes: 0, seconds: 59 });
    assert_eq!(next_action(61, 120, false), TickAction::Show { minutes: 1, seconds: 1 });
    assert_eq!(next_action(3725, 7200, false), TickAction::Show { minutes: 2, seconds: 5 });
}

#[test]
fn tick_past_the_end_is_done() {
    assert_eq!(next_action(60, 60, false), TickAction::Done);
    assert_eq!(next_action(60, 60, true), TickAction::Done);
    assert_eq!(next_action(0, 0, true), TickAction::Done);
}

#[test]
fn cancelled_tick_says_farewell() {
    assert_eq!(next_action(3, 60, true), TickAction::Farewell);
}

#[test]
fn cancellation_before_second_tick() {
    let total = total_seconds(0) + 5;
    let mut frames = Vec::new();
    let mut farewells = 0;
    let mut t: u64 = 0;
    loop {
        let cancelled = t >= 2;
        match next_action(t, total, cancelled) {
            TickAction::Show { minutes, seconds } => frames.push((minutes, seconds)),
            TickAction::Farewell => {
                farewells += 1;
                break;
            }
            TickAction::Done => break,
        }
        t += 1;
    }
    assert_eq!(frames, vec![(0, 0), (0, 1)]);
    assert_eq!(farewells, 1);
}

#[test]
fn uncancelled_phase_shows_every_second() {
    let mut frames = Vec::new();
    let mut t: u64 = 0;
    while let TickAction::Show { minutes, seconds } = next_action(t, 5, false) {
        frames.push((minutes, seconds));
        t += 1;
    }
    assert_eq!(frames, vec![(0, 0), (0, 1), (0, 2), (0, 3), (0, 4)]);
}

#[test]
fn duration_text_falls_back_to_default() {
    assert_eq!(parse_duration("abc", 25), 25);
    assert_eq!(parse_duration("10", 25), 10);
}

#[test]
fn duration_edge_cases() {
    assert_eq!(parse_duration("", 5), 5);
    assert_eq!(parse_duration("+7", 5), 7);
    assert_eq!(parse_duration("+", 5), 5);
    assert_eq!(parse_duration("-1", 5), 5);
    assert_eq!(parse_duration(" 5", 25), 25);
    assert_eq!(parse_duration("12a", 25), 25);
    assert_eq!(parse_duration("0", 25), 0);
    assert_eq!(parse_duration("4294967295", 25), 4294967295);
    assert_eq!(parse_duration("4294967296", 25), 25);
    assert_eq!(parse_duration("99999999999999999999", 25), 25);
}

#[test]
fn hex_colour_to_escape() {
    assert_eq!(hex_to_ansi("#1e1e2e").unwrap(), "\x1b[38;2;30;30;46m");
    assert_eq!(hex_to_ansi("#CBA6F7").unwrap(), "\x1b[38;2;203;166;247m");
    assert_eq!(hex_to_ansi("#000000").unwrap(), "\x1b[38;2;0;0;0m");
}

#[test]
fn hex_colour_rejected() {
    assert_eq!(hex_to_ansi("#12"), None);
    assert_eq!(hex_to_ansi("#zz0000"), None);
    assert_eq!(hex_to_ansi(""), None);
}
