//! Reading a duration typed by the user, and turning a `#RRGGBB` colour
//! into a terminal escape sequence.
use vstd::prelude::*;
use crate::glyph::is_digit_char;
use crate::render::{decimal, digit_char};

verus! {

/// Value of a decimal digit character.
pub open spec fn digit_value(c: char) -> nat {
    ((c as int) - ('0' as int)) as nat
}

/// Value of a string of decimal digits.
pub open spec fn digits_value(s: Seq<char>) -> nat
    decreases s.len(),
{
    if s.len() == 0 {
        0
    } else {
        digits_value(s.drop_last()) * 10 + digit_value(s.last())
    }
}

pub open spec fn all_digits(s: Seq<char>) -> bool {
    forall|i: int| 0 <= i < s.len() ==> is_digit_char(#[trigger] s[i])
}

/// The text of an unsigned number without its optional leading `+`.
pub open spec fn unsigned_digits(s: Seq<char>) -> Seq<char> {
    if s.len() > 0 && s[0] == '+' {
        s.drop_first()
    } else {
        s
    }
}

/// The `u32` written in `s`: an optional `+`, then one or more decimal
/// digits, of a value that fits in 32 bits.
pub open spec fn parsed_u32(s: Seq<char>) -> Option<nat> {
    let d = unsigned_digits(s);
    if d.len() > 0 && all_digits(d) && digits_value(d) <= u32::MAX {
        Some(digits_value(d))
    } else {
        None
    }
}

/// The duration in minutes written in `text`, or `default` where the text is
/// not such a number.
pub fn parse_duration(text: &str, default: u32) -> (r: u32)
    ensures
        r == match parsed_u32(text@) {
            Some(v) => v,
            None => default as nat,
        },
{
    let n = text.unicode_len();
    let mut start: usize = 0;
    if n > 0 && text.get_char(0) == '+' {
        start = 1;
    }
    let ghost d = unsigned_digits(text@);
    assert(d =~= text@.subrange(start as int, n as int));
    if start >= n {
        return default;
    }
    let cap: u64 = 0x1_0000_0000;
    let mut acc: u64 = 0;
    let mut i: usize = start;
    while i < n
        invariant
            start <= i <= n,
            n == text@.len(),
            d == text@.subrange(start as int, n as int),
            d == unsigned_digits(text@),
            cap == u32::MAX + 1,
            all_digits(d.take(i - start)),
            acc == if digits_value(d.take(i - start)) < cap { digits_value(d.take(i - start)) } else { cap as nat },
        decreases n - i,
    {
        let c = text.get_char(i);
        if !('0' <= c && c <= '9') {
            assert(!all_digits(d)) by {
                assert(d[i - start] == c);
            }
            return default;
        }
        let dv = (c as u32 - '0' as u32) as u64;
        let ghost prev = d.take(i - start);
        assert(d.take(i + 1 - start).drop_last() =~= prev);
        assert(d.take(i + 1 - start).last() == c);
        if acc >= cap {
            assert(digits_value(prev) * 10 + dv >= cap) by (nonlinear_arith)
                requires digits_value(prev) >= cap;
            acc = cap;
        } else {
            let next = acc * 10 + dv;
            acc = if next < cap { next } else { cap };
        }
        i += 1;
        assert(all_digits(d.take(i - start))) by {
            assert forall|k: int| 0 <= k < d.take(i - start).len() implies is_digit_char(
                #[trigger] d.take(i - start)[k],
            ) by {
                if k < i - 1 - start {
                    assert(d.take(i - start)[k] == prev[k]);
                }
            }
        }
    }
    assert(d.take(n - start) =~= d);
    if acc < cap {
        acc as u32
    } else {
        default
    }
}

/// Value of a hexadecimal digit character, either case.
pub open spec fn hex_value(c: char) -> Option<nat> {
    if '0' <= c && c <= '9' {
        Some(((c as int) - ('0' as int)) as nat)
    } else if 'a' <= c && c <= 'f' {
        Some(((c as int) - ('a' as int) + 10) as nat)
    } else if 'A' <= c && c <= 'F' {
        Some(((c as int) - ('A' as int) + 10) as nat)
    } else {
        None
    }
}

/// The byte written by two characters in base 16: two hex digits, or a `+`
/// sign and one hex digit.
pub open spec fn hex_byte(a: char, b: char) -> Option<nat> {
    if a == '+' {
        hex_value(b)
    } else if hex_value(a) is Some && hex_value(b) is Some {
        Some(hex_value(a).unwrap() * 16 + hex_value(b).unwrap())
    } else {
        None
    }
}

/// The escape sequence that sets a 24-bit foreground colour.
pub open spec fn ansi_foreground(red: nat, green: nat, blue: nat) -> Seq<char> {
    seq!['\x1b', '[', '3', '8', ';', '2', ';'] + decimal(red) + seq![';'] + decimal(green) + seq![';']
        + decimal(blue) + seq!['m']
}

/// The colour `#RRGGBB` at the start of `s` (the first character is not
/// read) as a foreground escape sequence.
pub open spec fn hex_color_escape(s: Seq<char>) -> Option<Seq<char>> {
    if s.len() >= 7 && hex_byte(s[1], s[2]) is Some && hex_byte(s[3], s[4]) is Some && hex_byte(
        s[5],
        s[6],
    ) is Some {
        Some(
            ansi_foreground(
                hex_byte(s[1], s[2]).unwrap(),
                hex_byte(s[3], s[4]).unwrap(),
                hex_byte(s[5], s[6]).unwrap(),
            ),
        )
    } else {
        None
    }
}

fn hex_digit(c: char) -> (r: Option<u32>)
    ensures
        r matches Some(v) ==> hex_value(c) == Some(v as nat),
        r is None ==> hex_value(c) is None,
{
    if '0' <= c && c <= '9' {
        Some(c as u32 - '0' as u32)
    } else if 'a' <= c && c <= 'f' {
        Some(c as u32 - 'a' as u32 + 10)
    } else if 'A' <= c && c <= 'F' {
        Some(c as u32 - 'A' as u32 + 10)
    } else {
        None
    }
}

fn parse_hex_byte(a: char, b: char) -> (r: Option<u32>)
    ensures
        r matches Some(v) ==> hex_byte(a, b) == Some(v as nat) && v < 256,
        r is None ==> hex_byte(a, b) is None,
{
    let lo = hex_digit(b);
    if a == '+' {
        return lo;
    }
    match (hex_digit(a), lo) {
        (Some(h), Some(l)) => Some(h * 16 + l),
        _ => None,
    }
}

fn digit_str(d: u32) -> (r: &'static str)
    requires
        d < 10,
    ensures
        r@ == seq![digit_char(d as nat)],
{
    proof {
        reveal_strlit("0");
        reveal_strlit("1");
        reveal_strlit("2");
        reveal_strlit("3");
        reveal_strlit("4");
        reveal_strlit("5");
        reveal_strlit("6");
        reveal_strlit("7");
        reveal_strlit("8");
        reveal_strlit("9");
    }
    match d {
        0 => "0",
        1 => "1",
        2 => "2",
        3 => "3",
        4 => "4",
        5 => "5",
        6 => "6",
        7 => "7",
        8 => "8",
        _ => "9",
    }
}

fn append_decimal(s: &mut String, n: u32)
    ensures
        final(s)@ == old(s)@ + decimal(n as nat),
    decreases n,
{
    if n >= 10 {
        append_decimal(s, n / 10);
    }
    s.append(digit_str(n % 10));
    assert(s@ =~= old(s)@ + decimal(n as nat));
}

/// Turns a colour written `#RRGGBB` into the escape sequence that selects it
/// as a 24-bit foreground colour; `None` where the text is too short or a
/// pair is not a byte in base 16.
pub fn hex_to_ansi(hex_color: &str) -> (r: Option<String>)
    ensures
        match hex_color_escape(hex_color@) {
            Some(e) => r is Some && r->Some_0@ == e,
            None => r is None,
        },
{
    if hex_color.unicode_len() < 7 {
        return None;
    }
    let red = match parse_hex_byte(hex_color.get_char(1), hex_color.get_char(2)) {
        Some(v) => v,
        None => {
            return None;
        },
    };
    let green = match parse_hex_byte(hex_color.get_char(3), hex_color.get_char(4)) {
        Some(v) => v,
        None => {
            return None;
        },
    };
    let blue = match parse_hex_byte(hex_color.get_char(5), hex_color.get_char(6)) {
        Some(v) => v,
        None => {
            return None;
        },
    };
    proof {
        reveal_strlit("\x1b[38;2;");
        reveal_strlit(";");
        reveal_strlit("m");
    }
    let mut code = String::new();
    code.append("\x1b[38;2;");
    append_decimal(&mut code, red);
    code.append(";");
    append_decimal(&mut code, green);
    code.append(";");
    append_decimal(&mut code, blue);
    code.append("m");
    assert(code@ =~= ansi_foreground(red as nat, green as nat, blue as nat));
    Some(code)
}

} // verus!
