//! Text colors: the sixteen named chat colors, RGB colors, and the textual
//! form used by the decoder input shapes and the wire encoding.

use vstd::prelude::*;
use crate::strutil::{str_eq, push_char};

verus! {

/// One of the sixteen named chat colors.
#[derive(Clone, Copy, PartialEq, Eq, Structural, Debug)]
pub enum NamedColor {
    Black,
    DarkBlue,
    DarkGreen,
    DarkAqua,
    DarkRed,
    DarkPurple,
    Gold,
    Gray,
    DarkGray,
    Blue,
    Green,
    Aqua,
    Red,
    LightPurple,
    Yellow,
    White,
}

/// A 24-bit color.
#[derive(Clone, Copy, PartialEq, Eq, Structural, Debug)]
pub struct RGBColor {
    pub red: u8,
    pub green: u8,
    pub blue: u8,
}

/// A color with an alpha channel, used for text shadows.
#[derive(Clone, Copy, PartialEq, Eq, Structural, Debug)]
pub struct ARGBColor {
    pub alpha: u8,
    pub red: u8,
    pub green: u8,
    pub blue: u8,
}

/// A text color: named, or an exact RGB value.
#[derive(Clone, Copy, PartialEq, Eq, Structural, Debug)]
pub enum Color {
    Named(NamedColor),
    Rgb(RGBColor),
}

/// The textual name of a named color.
pub open spec fn named_name_spec(c: NamedColor) -> Seq<char> {
    match c {
        NamedColor::Black => "black"@,
        NamedColor::DarkBlue => "dark_blue"@,
        NamedColor::DarkGreen => "dark_green"@,
        NamedColor::DarkAqua => "dark_aqua"@,
        NamedColor::DarkRed => "dark_red"@,
        NamedColor::DarkPurple => "dark_purple"@,
        NamedColor::Gold => "gold"@,
        NamedColor::Gray => "gray"@,
        NamedColor::DarkGray => "dark_gray"@,
        NamedColor::Blue => "blue"@,
        NamedColor::Green => "green"@,
        NamedColor::Aqua => "aqua"@,
        NamedColor::Red => "red"@,
        NamedColor::LightPurple => "light_purple"@,
        NamedColor::Yellow => "yellow"@,
        NamedColor::White => "white"@,
    }
}

/// The textual name of a named color.
pub fn named_name(c: NamedColor) -> (r: &'static str)
    ensures
        r@ == named_name_spec(c),
{
    match c {
        NamedColor::Black => "black",
        NamedColor::DarkBlue => "dark_blue",
        NamedColor::DarkGreen => "dark_green",
        NamedColor::DarkAqua => "dark_aqua",
        NamedColor::DarkRed => "dark_red",
        NamedColor::DarkPurple => "dark_purple",
        NamedColor::Gold => "gold",
        NamedColor::Gray => "gray",
        NamedColor::DarkGray => "dark_gray",
        NamedColor::Blue => "blue",
        NamedColor::Green => "green",
        NamedColor::Aqua => "aqua",
        NamedColor::Red => "red",
        NamedColor::LightPurple => "light_purple",
        NamedColor::Yellow => "yellow",
        NamedColor::White => "white",
    }
}

/// The hexadecimal digit `d` as a lowercase character.
pub open spec fn hex_char(d: nat) -> char {
    if d == 0 {
        '0'
    } else if d == 1 {
        '1'
    } else if d == 2 {
        '2'
    } else if d == 3 {
        '3'
    } else if d == 4 {
        '4'
    } else if d == 5 {
        '5'
    } else if d == 6 {
        '6'
    } else if d == 7 {
        '7'
    } else if d == 8 {
        '8'
    } else if d == 9 {
        '9'
    } else if d == 10 {
        'a'
    } else if d == 11 {
        'b'
    } else if d == 12 {
        'c'
    } else if d == 13 {
        'd'
    } else if d == 14 {
        'e'
    } else {
        'f'
    }
}

/// The value of a hexadecimal digit character, lowercase or uppercase.
pub open spec fn hex_val_spec(c: char) -> Option<nat> {
    let u = c as u32;
    if 0x30 <= u && u <= 0x39 {
        Some((u - 0x30) as nat)
    } else if 0x61 <= u && u <= 0x66 {
        Some((u - 0x61 + 10) as nat)
    } else if 0x41 <= u && u <= 0x46 {
        Some((u - 0x41 + 10) as nat)
    } else {
        None
    }
}

/// `b` as two lowercase hexadecimal digits.
pub open spec fn byte_hex_spec(b: u8) -> Seq<char> {
    seq![hex_char(b as nat / 16), hex_char(b as nat % 16)]
}

/// The textual form of a color: a name, or `#` and six hexadecimal digits.
pub open spec fn color_text_spec(c: Color) -> Seq<char> {
    match c {
        Color::Named(n) => named_name_spec(n),
        Color::Rgb(rgb) => seq!['#'] + byte_hex_spec(rgb.red) + byte_hex_spec(rgb.green)
            + byte_hex_spec(rgb.blue),
    }
}

/// What a color string means: a named color, an RGB color written as `#`
/// and six hexadecimal digits, or nothing.
pub open spec fn parse_color_spec(s: Seq<char>) -> Option<Color> {
    if s == "black"@ {
        Some(Color::Named(NamedColor::Black))
    } else if s == "dark_blue"@ {
        Some(Color::Named(NamedColor::DarkBlue))
    } else if s == "dark_green"@ {
        Some(Color::Named(NamedColor::DarkGreen))
    } else if s == "dark_aqua"@ {
        Some(Color::Named(NamedColor::DarkAqua))
    } else if s == "dark_red"@ {
        Some(Color::Named(NamedColor::DarkRed))
    } else if s == "dark_purple"@ {
        Some(Color::Named(NamedColor::DarkPurple))
    } else if s == "gold"@ {
        Some(Color::Named(NamedColor::Gold))
    } else if s == "gray"@ {
        Some(Color::Named(NamedColor::Gray))
    } else if s == "dark_gray"@ {
        Some(Color::Named(NamedColor::DarkGray))
    } else if s == "blue"@ {
        Some(Color::Named(NamedColor::Blue))
    } else if s == "green"@ {
        Some(Color::Named(NamedColor::Green))
    } else if s == "aqua"@ {
        Some(Color::Named(NamedColor::Aqua))
    } else if s == "red"@ {
        Some(Color::Named(NamedColor::Red))
    } else if s == "light_purple"@ {
        Some(Color::Named(NamedColor::LightPurple))
    } else if s == "yellow"@ {
        Some(Color::Named(NamedColor::Yellow))
    } else if s == "white"@ {
        Some(Color::Named(NamedColor::White))
    } else if s.len() == 7 && s[0] == '#' && hex_val_spec(s[1]) is Some && hex_val_spec(s[2])
        is Some && hex_val_spec(s[3]) is Some && hex_val_spec(s[4]) is Some && hex_val_spec(s[5])
        is Some && hex_val_spec(s[6]) is Some {
        Some(
            Color::Rgb(
                RGBColor {
                    red: (hex_val_spec(s[1])->0 * 16 + hex_val_spec(s[2])->0) as u8,
                    green: (hex_val_spec(s[3])->0 * 16 + hex_val_spec(s[4])->0) as u8,
                    blue: (hex_val_spec(s[5])->0 * 16 + hex_val_spec(s[6])->0) as u8,
                },
            ),
        )
    } else {
        None
    }
}

fn hex_digit_of(d: u8) -> (c: char)
    requires
        d < 16,
    ensures
        c == hex_char(d as nat),
{
    if d == 0 {
        '0'
    } else if d == 1 {
        '1'
    } else if d == 2 {
        '2'
    } else if d == 3 {
        '3'
    } else if d == 4 {
        '4'
    } else if d == 5 {
        '5'
    } else if d == 6 {
        '6'
    } else if d == 7 {
        '7'
    } else if d == 8 {
        '8'
    } else if d == 9 {
        '9'
    } else if d == 10 {
        'a'
    } else if d == 11 {
        'b'
    } else if d == 12 {
        'c'
    } else if d == 13 {
        'd'
    } else if d == 14 {
        'e'
    } else {
        'f'
    }
}

fn hex_val(c: char) -> (r: Option<u8>)
    ensures
        match r {
            Some(v) => hex_val_spec(c) == Some(v as nat) && v < 16,
            None => hex_val_spec(c) is None,
        },
{
    let u = c as u32;
    if 0x30 <= u && u <= 0x39 {
        Some((u - 0x30) as u8)
    } else if 0x61 <= u && u <= 0x66 {
        Some((u - 0x61 + 10) as u8)
    } else if 0x41 <= u && u <= 0x46 {
        Some((u - 0x41 + 10) as u8)
    } else {
        None
    }
}

/// The textual form of `c`.
pub fn color_text(c: &Color) -> (r: String)
    ensures
        r@ == color_text_spec(*c),
{
    match c {
        Color::Named(n) => named_name(*n).to_owned(),
        Color::Rgb(rgb) => {
            let mut s = "#".to_owned();
            proof {
                reveal_strlit("#");
            }
            push_char(&mut s, hex_digit_of(rgb.red / 16));
            push_char(&mut s, hex_digit_of(rgb.red % 16));
            push_char(&mut s, hex_digit_of(rgb.green / 16));
            push_char(&mut s, hex_digit_of(rgb.green % 16));
            push_char(&mut s, hex_digit_of(rgb.blue / 16));
            push_char(&mut s, hex_digit_of(rgb.blue % 16));
            proof {
                assert(s@ =~= color_text_spec(*c));
            }
            s
        },
    }
}

/// Parse the textual form of a color.
pub fn parse_color(s: &str) -> (r: Option<Color>)
    ensures
        r == parse_color_spec(s@),
{
    if str_eq(s, "black") {
        Some(Color::Named(NamedColor::Black))
    } else if str_eq(s, "dark_blue") {
        Some(Color::Named(NamedColor::DarkBlue))
    } else if str_eq(s, "dark_green") {
        Some(Color::Named(NamedColor::DarkGreen))
    } else if str_eq(s, "dark_aqua") {
        Some(Color::Named(NamedColor::DarkAqua))
    } else if str_eq(s, "dark_red") {
        Some(Color::Named(NamedColor::DarkRed))
    } else if str_eq(s, "dark_purple") {
        Some(Color::Named(NamedColor::DarkPurple))
    } else if str_eq(s, "gold") {
        Some(Color::Named(NamedColor::Gold))
    } else if str_eq(s, "gray") {
        Some(Color::Named(NamedColor::Gray))
    } else if str_eq(s, "dark_gray") {
        Some(Color::Named(NamedColor::DarkGray))
    } else if str_eq(s, "blue") {
        Some(Color::Named(NamedColor::Blue))
    } else if str_eq(s, "green") {
        Some(Color::Named(NamedColor::Green))
    } else if str_eq(s, "aqua") {
        Some(Color::Named(NamedColor::Aqua))
    } else if str_eq(s, "red") {
        Some(Color::Named(NamedColor::Red))
    } else if str_eq(s, "light_purple") {
        Some(Color::Named(NamedColor::LightPurple))
    } else if str_eq(s, "yellow") {
        Some(Color::Named(NamedColor::Yellow))
    } else if str_eq(s, "white") {
        Some(Color::Named(NamedColor::White))
    } else {
        let n = s.unicode_len();
        if n != 7 {
            return None;
        }
        if s.get_char(0) != '#' {
            return None;
        }
        let v1 = hex_val(s.get_char(1));
        let v2 = hex_val(s.get_char(2));
        let v3 = hex_val(s.get_char(3));
        let v4 = hex_val(s.get_char(4));
        let v5 = hex_val(s.get_char(5));
        let v6 = hex_val(s.get_char(6));
        match (v1, v2, v3, v4, v5, v6) {
            (Some(a), Some(b), Some(c), Some(d), Some(e), Some(f)) => Some(
                Color::Rgb(
                    RGBColor { red: a * 16 + b, green: c * 16 + d, blue: e * 16 + f },
                ),
            ),
            _ => None,
        }
    }
}

/// Printing a color and parsing the result gives the color back.
pub proof fn lemma_color_text_round_trip(c: Color)
    ensures
        parse_color_spec(color_text_spec(c)) == Some(c),
{
    reveal_strlit("black");
    reveal_strlit("dark_blue");
    reveal_strlit("dark_green");
    reveal_strlit("dark_aqua");
    reveal_strlit("dark_red");
    reveal_strlit("dark_purple");
    reveal_strlit("gold");
    reveal_strlit("gray");
    reveal_strlit("dark_gray");
    reveal_strlit("blue");
    reveal_strlit("green");
    reveal_strlit("aqua");
    reveal_strlit("red");
    reveal_strlit("light_purple");
    reveal_strlit("yellow");
    reveal_strlit("white");
    assert("black"@.len() == 5 && "dark_blue"@.len() == 9 && "dark_green"@.len() == 10
        && "dark_aqua"@.len() == 9 && "dark_red"@.len() == 8 && "dark_purple"@.len() == 11
        && "gold"@.len() == 4 && "gray"@.len() == 4 && "dark_gray"@.len() == 9
        && "blue"@.len() == 4 && "green"@.len() == 5 && "aqua"@.len() == 4 && "red"@.len() == 3
        && "light_purple"@.len() == 12 && "yellow"@.len() == 6 && "white"@.len() == 5);
    assert("black"@[0] == 'b' && "green"@[0] == 'g' && "white"@[0] == 'w');
    assert("gold"@[0] == 'g' && "blue"@[0] == 'b' && "aqua"@[0] == 'a');
    assert("gold"@[1] == 'o' && "gray"@[1] == 'r');
    assert("dark_blue"@[5] == 'b' && "dark_aqua"@[5] == 'a' && "dark_gray"@[5] == 'g');
    match c {
        Color::Named(n) => {
            match n {
                NamedColor::Black => assert(parse_color_spec("black"@) == Some(c)),
                NamedColor::DarkBlue => assert(parse_color_spec("dark_blue"@) == Some(c)),
                NamedColor::DarkGreen => assert(parse_color_spec("dark_green"@) == Some(c)),
                NamedColor::DarkAqua => assert(parse_color_spec("dark_aqua"@) == Some(c)),
                NamedColor::DarkRed => assert(parse_color_spec("dark_red"@) == Some(c)),
                NamedColor::DarkPurple => assert(parse_color_spec("dark_purple"@) == Some(c)),
                NamedColor::Gold => assert(parse_color_spec("gold"@) == Some(c)),
                NamedColor::Gray => assert(parse_color_spec("gray"@) == Some(c)),
                NamedColor::DarkGray => assert(parse_color_spec("dark_gray"@) == Some(c)),
                NamedColor::Blue => assert(parse_color_spec("blue"@) == Some(c)),
                NamedColor::Green => assert(parse_color_spec("green"@) == Some(c)),
                NamedColor::Aqua => assert(parse_color_spec("aqua"@) == Some(c)),
                NamedColor::Red => assert(parse_color_spec("red"@) == Some(c)),
                NamedColor::LightPurple => assert(parse_color_spec("light_purple"@) == Some(c)),
                NamedColor::Yellow => assert(parse_color_spec("yellow"@) == Some(c)),
                NamedColor::White => assert(parse_color_spec("white"@) == Some(c)),
            }
        },
        Color::Rgb(rgb) => {
            let s = color_text_spec(c);
            assert(s.len() == 7);
            assert(hex_val_spec(hex_char(rgb.red as nat / 16)) == Some(rgb.red as nat / 16));
            assert(hex_val_spec(hex_char(rgb.red as nat % 16)) == Some(rgb.red as nat % 16));
            assert(hex_val_spec(hex_char(rgb.green as nat / 16)) == Some(rgb.green as nat / 16));
            assert(hex_val_spec(hex_char(rgb.green as nat % 16)) == Some(rgb.green as nat % 16));
            assert(hex_val_spec(hex_char(rgb.blue as nat / 16)) == Some(rgb.blue as nat / 16));
            assert(hex_val_spec(hex_char(rgb.blue as nat % 16)) == Some(rgb.blue as nat % 16));
        },
    }
}

} // verus!
