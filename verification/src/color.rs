//! Terminal colours and the `#RRGGBB` / `#RGB` notation for them.
use vstd::prelude::*;
use crate::text::{chars_of, trim, trim_chars};

verus! {

/// A terminal colour: the reset colour, one of the sixteen named ANSI
/// colours, a 256-colour palette index, or a 24-bit RGB value.
#[derive(Debug, Clone, Copy, PartialEq, Eq)]
pub enum Color {
    Reset,
    Black,
    Red,
    Green,
    Yellow,
    Blue,
    Magenta,
    Cyan,
    Gray,
    DarkGray,
    LightRed,
    LightGreen,
    LightYellow,
    LightBlue,
    LightMagenta,
    LightCyan,
    White,
    Rgb(u8, u8, u8),
    Indexed(u8),
}

/// The value of a hexadecimal digit, as `char::to_digit(16)` gives it.
pub open spec fn hex_digit(c: char) -> Option<int> {
    let u = c as u32;
    if 0x30 <= u <= 0x39 {
        Some(u - 0x30)
    } else if 0x61 <= u <= 0x66 {
        Some(u - 0x61 + 10)
    } else if 0x41 <= u <= 0x46 {
        Some(u - 0x41 + 10)
    } else {
        None
    }
}

/// Two hexadecimal digits read as one base-16 byte, high digit first.
pub open spec fn hex_pair(a: char, b: char) -> Option<int> {
    match (hex_digit(a), hex_digit(b)) {
        (Some(x), Some(y)) => Some(16 * x + y),
        _ => None,
    }
}

/// The colour a hex string denotes, once trimmed: `#` followed by three
/// digits (each scaled by 17) or by three base-16 pairs.
pub open spec fn hex_color(s: Seq<char>) -> Option<Color> {
    let t = trim(s);
    if t.len() == 0 || t[0] != '#' {
        None
    } else {
        let d = t.drop_first();
        if d.len() == 3 {
            match (hex_digit(d[0]), hex_digit(d[1]), hex_digit(d[2])) {
                (Some(r), Some(g), Some(b)) => Some(Color::Rgb((r * 17) as u8, (g * 17) as u8, (b * 17) as u8)),
                _ => None,
            }
        } else if d.len() == 6 {
            match (hex_pair(d[0], d[1]), hex_pair(d[2], d[3]), hex_pair(d[4], d[5])) {
                (Some(r), Some(g), Some(b)) => Some(Color::Rgb(r as u8, g as u8, b as u8)),
                _ => None,
            }
        } else {
            None
        }
    }
}

/// The value of one hexadecimal digit.
pub fn to_hex_digit(c: char) -> (r: Option<u8>)
    ensures
        match hex_digit(c) {
            Some(v) => r == Some(v as u8) && v < 16,
            None => r is None,
        },
{
    let u = c as u32;
    if 0x30 <= u && u <= 0x39 {
        Some((u - 0x30) as u8)
    } else if 0x61 <= u && u <= 0x66 {
        Some((u - 0x61 + 10) as u8)
    } else if 0x41 <= u && u <= 0x46 {
        Some((u - 0x41 + 10) as u8)
    } else {
        None
    }
}

fn pair_value(a: char, b: char) -> (r: Option<u8>)
    ensures
        match hex_pair(a, b) {
            Some(v) => r == Some(v as u8) && v < 256,
            None => r is None,
        },
{
    match (to_hex_digit(a), to_hex_digit(b)) {
        (Some(x), Some(y)) => Some(16 * x + y),
        _ => None,
    }
}

/// Parse a hex color string as `#RRGGBB` or `#RGB`.
pub fn parse_hex_color(value: &str) -> (r: Option<Color>)
    ensures
        r == hex_color(value@),
{
    let all = chars_of(value);
    let t = trim_chars(&all);
    if t.len() == 0 || t[0] != '#' {
        return None;
    }
    proof {
        assert(t@.drop_first().len() == t@.len() - 1);
    }
    if t.len() == 4 {
        proof {
            assert(t@.drop_first()[0] == t@[1]);
            assert(t@.drop_first()[1] == t@[2]);
            assert(t@.drop_first()[2] == t@[3]);
        }
        match (to_hex_digit(t[1]), to_hex_digit(t[2]), to_hex_digit(t[3])) {
            (Some(r), Some(g), Some(b)) => Some(Color::Rgb(r * 17, g * 17, b * 17)),
            _ => None,
        }
    } else if t.len() == 7 {
        proof {
            assert forall|k: int| 0 <= k < 6 implies t@.drop_first()[k] == t@[k + 1] by {}
        }
        match (pair_value(t[1], t[2]), pair_value(t[3], t[4]), pair_value(t[5], t[6])) {
            (Some(r), Some(g), Some(b)) => Some(Color::Rgb(r, g, b)),
            _ => None,
        }
    } else {
        None
    }
}

/// The lowercase hexadecimal digit for `n < 16`.
pub open spec fn digit_char(n: int) -> char {
    if n < 10 {
        (0x30 + n) as char
    } else {
        (0x61 + n - 10) as char
    }
}

/// `#rrggbb` for a colour, in lowercase digits.
pub open spec fn hex_string(r: u8, g: u8, b: u8) -> Seq<char> {
    seq![
        '#',
        digit_char(r as int / 16),
        digit_char(r as int % 16),
        digit_char(g as int / 16),
        digit_char(g as int % 16),
        digit_char(b as int / 16),
        digit_char(b as int % 16),
    ]
}

proof fn lemma_digit_char(n: int)
    requires
        0 <= n < 16,
    ensures
        hex_digit(digit_char(n)) == Some(n),
        !crate::text::is_ws(digit_char(n)),
{
}

/// Writing a colour as `#rrggbb` and parsing it gives the colour back.
pub proof fn law_hex_roundtrip(r: u8, g: u8, b: u8)
    ensures
        hex_color(hex_string(r, g, b)) == Some(Color::Rgb(r, g, b)),
{
    let s = hex_string(r, g, b);
    lemma_digit_char(r as int / 16);
    lemma_digit_char(r as int % 16);
    lemma_digit_char(g as int / 16);
    lemma_digit_char(g as int % 16);
    lemma_digit_char(b as int / 16);
    lemma_digit_char(b as int % 16);
    assert(crate::text::trim_start(s) == s);
    assert(crate::text::trim_end(s) == s);
    let d = s.drop_first();
    assert(d.len() == 6);
    assert(d[0] == digit_char(r as int / 16));
    assert(d[1] == digit_char(r as int % 16));
    assert(d[2] == digit_char(g as int / 16));
    assert(d[3] == digit_char(g as int % 16));
    assert(d[4] == digit_char(b as int / 16));
    assert(d[5] == digit_char(b as int % 16));
    assert(hex_pair(d[0], d[1]) == Some(r as int));
    assert(hex_pair(d[2], d[3]) == Some(g as int));
    assert(hex_pair(d[4], d[5]) == Some(b as int));
}

} // verus!
