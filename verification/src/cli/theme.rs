//! Colour themes for the terminal interface, read from Windows Terminal
//! colour schemes (`#RRGGBB` strings).
use crate::text::{chars_of, string_of};
use vstd::prelude::*;

verus! {

broadcast use vstd::std_specs::vec::group_vec_axioms;

/// A terminal colour.
#[derive(Debug, Clone, Copy, PartialEq, Eq)]
pub enum Color {
    Reset,
    Black,
    Red,
    Green,
    Yellow,
    Blue,
    Magenta,
    Cyan,
    Gray,
    White,
    /// A colour of the 256-colour palette.
    Indexed(u8),
    /// A true colour.
    Rgb(u8, u8, u8),
}

/// A Windows Terminal colour scheme.
#[derive(Debug, Clone)]
pub struct WindowsTerminalScheme {
    pub name: String,
    pub foreground: String,
    pub background: String,
    pub cursor_color: Option<String>,
    pub selection_background: Option<String>,
    pub black: String,
    pub red: String,
    pub green: String,
    pub yellow: String,
    pub blue: String,
    pub purple: String,
    pub cyan: String,
    pub white: String,
    pub bright_black: String,
    pub bright_red: String,
    pub bright_green: String,
    pub bright_yellow: String,
    pub bright_blue: String,
    pub bright_purple: String,
    pub bright_cyan: String,
    pub bright_white: String,
}

/// The colours of the terminal interface.
#[derive(Debug, Clone, Copy, PartialEq, Eq)]
pub struct Theme {
    pub primary: Color,
    pub accent: Color,
    pub surface: Color,
    pub primary_text: Color,
    pub accent_text: Color,
    pub stone_gray: Color,
    pub error: Color,
    pub success: Color,
    pub border: Color,
    pub black: Color,
    pub red: Color,
    pub green: Color,
    pub yellow: Color,
    pub blue: Color,
    pub purple: Color,
    pub cyan: Color,
    pub white: Color,
}

/// `s` without its leading `#` characters.
pub open spec fn trim_hashes(s: Seq<char>) -> Seq<char>
    decreases s.len(),
{
    if s.len() > 0 && s[0] == '#' {
        trim_hashes(s.drop_first())
    } else {
        s
    }
}

/// Whether byte offset `k` of the UTF-8 encoding of `t` starts a character
/// (or is its end).
pub open spec fn is_char_boundary(t: Seq<char>, k: int) -> bool {
    exists|j: int| 0 <= j <= t.len() && #[trigger] vstd::utf8::encode_utf8(t.take(j)).len() == k
}

/// Whether reading `s` as a colour would slice a character in two: after
/// the leading `#`s it is six bytes long, but byte 2 or 4 falls inside a
/// character.
pub open spec fn hex_slices_char(s: Seq<char>) -> bool {
    let t = trim_hashes(s);
    &&& vstd::utf8::encode_utf8(t).len() == 6
    &&& (!is_char_boundary(t, 2) || !is_char_boundary(t, 4))
}

/// The value of a hexadecimal digit, either case.
pub open spec fn hex_value(c: char) -> Option<u8> {
    if '0' <= c <= '9' {
        Some((c as u32 - '0' as u32) as u8)
    } else if 'a' <= c <= 'f' {
        Some((c as u32 - 'a' as u32 + 10) as u8)
    } else if 'A' <= c <= 'F' {
        Some((c as u32 - 'A' as u32 + 10) as u8)
    } else {
        None
    }
}

/// The byte two characters spell in base 16: two digits, or `+` and one
/// digit.
pub open spec fn hex_pair(a: char, b: char) -> Option<u8> {
    if a == '+' {
        hex_value(b)
    } else {
        match (hex_value(a), hex_value(b)) {
            (Some(x), Some(y)) => Some((x * 16 + y) as u8),
            _ => None,
        }
    }
}

/// The colour a `#RRGGBB` (or `RRGGBB`) string names: after the leading
/// `#`s, six characters making three bytes in base 16.
pub open spec fn hex_color(s: Seq<char>) -> Option<Color> {
    let t = trim_hashes(s);
    if t.len() != 6 {
        None
    } else {
        match (hex_pair(t[0], t[1]), hex_pair(t[2], t[3]), hex_pair(t[4], t[5])) {
            (Some(r), Some(g), Some(b)) => Some(Color::Rgb(r, g, b)),
            _ => None,
        }
    }
}

/// The value of a base-16 digit of either case.
fn hex_value_of(c: char) -> (r: Option<u8>)
    ensures
        r == hex_value(c),
        r matches Some(v) ==> v < 16,
{
    if '0' <= c && c <= '9' {
        Some((c as u32 - '0' as u32) as u8)
    } else if 'a' <= c && c <= 'f' {
        Some((c as u32 - 'a' as u32 + 10) as u8)
    } else if 'A' <= c && c <= 'F' {
        Some((c as u32 - 'A' as u32 + 10) as u8)
    } else {
        None
    }
}

/// Reads a two-character string as a byte in base 16, as
/// `u8::from_str_radix(s, 16)` does: an optional `+` followed by digits of
/// either case.
fn byte_from_hex(s: &str) -> (r: Option<u8>)
    requires
        s@.len() == 2,
    ensures
        r == hex_pair(s@[0], s@[1]),
{
    let c = chars_of(s);
    let a = c[0];
    let b = c[1];
    if a == '+' {
        hex_value_of(b)
    } else {
        match (hex_value_of(a), hex_value_of(b)) {
            (Some(x), Some(y)) => Some(x * 16 + y),
            _ => None,
        }
    }
}

/// Parses a `#RRGGBB` colour; `None` for any other text.
pub fn parse_hex(hex: &str) -> (r: Option<Color>)
    requires
        !hex_slices_char(hex@),
    ensures
        r == hex_color(hex@),
{
    let c = chars_of(hex);
    let mut i: usize = 0;
    assert(c@.skip(0) =~= c@);
    while i < c.len() && c[i] == '#'
        invariant
            i <= c.len(),
            trim_hashes(c@) == trim_hashes(c@.skip(i as int)),
        decreases c.len() - i,
    {
        assert(c@.skip(i as int).drop_first() =~= c@.skip(i + 1));
        i = i + 1;
    }
    assert(trim_hashes(c@.skip(i as int)) == c@.skip(i as int));
    if c.len() - i != 6 {
        return None;
    }
    let r = byte_from_hex(string_of(&vec![c[i], c[i + 1]]).as_str());
    let g = byte_from_hex(string_of(&vec![c[i + 2], c[i + 3]]).as_str());
    let b = byte_from_hex(string_of(&vec![c[i + 4], c[i + 5]]).as_str());
    match (r, g, b) {
        (Some(r), Some(g), Some(b)) => Some(Color::Rgb(r, g, b)),
        _ => None,
    }
}

/// A colour of the scheme, or a fallback when it does not parse.
pub open spec fn color_or(s: Seq<char>, fallback: Color) -> Color {
    match hex_color(s) {
        Some(c) => c,
        None => fallback,
    }
}

fn parse_hex_or(hex: &String, fallback: Color) -> (r: Color)
    requires
        !hex_slices_char(hex@),
    ensures
        r == color_or(hex@, fallback),
{
    match parse_hex(hex.as_str()) {
        Some(c) => c,
        None => fallback,
    }
}

/// Whether every colour a theme reads from the scheme can be read.
pub open spec fn scheme_readable(s: WindowsTerminalScheme) -> bool {
    &&& !hex_slices_char(s.background@)
    &&& !hex_slices_char(s.foreground@)
    &&& !hex_slices_char(s.black@)
    &&& !hex_slices_char(s.red@)
    &&& !hex_slices_char(s.green@)
    &&& !hex_slices_char(s.yellow@)
    &&& !hex_slices_char(s.blue@)
    &&& !hex_slices_char(s.purple@)
    &&& !hex_slices_char(s.cyan@)
    &&& !hex_slices_char(s.white@)
    &&& !hex_slices_char(s.bright_black@)
    &&& !hex_slices_char(s.bright_white@)
}

/// The theme of a colour scheme: the background as primary, surface and
/// accent text, blue as accent, foreground as text, bright black as stone
/// gray, red as error, green as success, bright white as border, and the
/// ANSI colours as they are; each falls back to a terminal colour when it
/// does not parse.
pub open spec fn scheme_theme(s: WindowsTerminalScheme) -> Theme {
    Theme {
        primary: color_or(s.background@, Color::Reset),
        accent: color_or(s.blue@, Color::Blue),
        surface: color_or(s.background@, Color::Reset),
        primary_text: color_or(s.foreground@, Color::White),
        accent_text: color_or(s.background@, Color::Black),
        stone_gray: color_or(s.bright_black@, Color::Gray),
        error: color_or(s.red@, Color::Red),
        success: color_or(s.green@, Color::Green),
        border: color_or(s.bright_white@, Color::Indexed(250)),
        black: color_or(s.black@, Color::Black),
        red: color_or(s.red@, Color::Red),
        green: color_or(s.green@, Color::Green),
        yellow: color_or(s.yellow@, Color::Yellow),
        blue: color_or(s.blue@, Color::Blue),
        purple: color_or(s.purple@, Color::Magenta),
        cyan: color_or(s.cyan@, Color::Cyan),
        white: color_or(s.white@, Color::White),
    }
}

impl Theme {
    /// The theme of a Windows Terminal colour scheme.
    pub fn from_windows_terminal(scheme: &WindowsTerminalScheme) -> (t: Self)
        requires
            scheme_readable(*scheme),
        ensures
            t == scheme_theme(*scheme),
    {
        Theme {
            primary: parse_hex_or(&scheme.background, Color::Reset),
            accent: parse_hex_or(&scheme.blue, Color::Blue),
            surface: parse_hex_or(&scheme.background, Color::Reset),
            primary_text: parse_hex_or(&scheme.foreground, Color::White),
            accent_text: parse_hex_or(&scheme.background, Color::Black),
            stone_gray: parse_hex_or(&scheme.bright_black, Color::Gray),
            error: parse_hex_or(&scheme.red, Color::Red),
            success: parse_hex_or(&scheme.green, Color::Green),
            border: parse_hex_or(&scheme.bright_white, Color::Indexed(250)),
            black: parse_hex_or(&scheme.black, Color::Black),
            red: parse_hex_or(&scheme.red, Color::Red),
            green: parse_hex_or(&scheme.green, Color::Green),
            yellow: parse_hex_or(&scheme.yellow, Color::Yellow),
            blue: parse_hex_or(&scheme.blue, Color::Blue),
            purple: parse_hex_or(&scheme.purple, Color::Magenta),
            cyan: parse_hex_or(&scheme.cyan, Color::Cyan),
            white: parse_hex_or(&scheme.white, Color::White),
        }
    }

    /// The built-in Notion palette, used when no theme file can be read.
    pub fn notion_palette() -> (t: Self)
        ensures
            t == (Theme {
                primary: Color::Rgb(55, 53, 47),
                accent: Color::Rgb(35, 131, 226),
                surface: Color::White,
                primary_text: Color::Rgb(55, 53, 47),
                accent_text: Color::White,
                stone_gray: Color::Rgb(155, 154, 151),
                error: Color::Rgb(212, 76, 71),
                success: Color::Rgb(68, 131, 97),
                border: Color::Rgb(233, 233, 231),
                black: Color::Rgb(55, 53, 47),
                red: Color::Rgb(212, 76, 71),
                green: Color::Rgb(68, 131, 97),
                yellow: Color::Rgb(203, 145, 47),
                blue: Color::Rgb(35, 131, 226),
                purple: Color::Rgb(144, 101, 176),
                cyan: Color::Rgb(51, 126, 169),
                white: Color::White,
            }),
    {
        Theme {
            primary: Color::Rgb(55, 53, 47),
            accent: Color::Rgb(35, 131, 226),
            surface: Color::White,
            primary_text: Color::Rgb(55, 53, 47),
            accent_text: Color::White,
            stone_gray: Color::Rgb(155, 154, 151),
            error: Color::Rgb(212, 76, 71),
            success: Color::Rgb(68, 131, 97),
            border: Color::Rgb(233, 233, 231),
            black: Color::Rgb(55, 53, 47),
            red: Color::Rgb(212, 76, 71),
            green: Color::Rgb(68, 131, 97),
            yellow: Color::Rgb(203, 145, 47),
            blue: Color::Rgb(35, 131, 226),
            purple: Color::Rgb(144, 101, 176),
            cyan: Color::Rgb(51, 126, 169),
            white: Color::White,
        }
    }
}

} // verus!
