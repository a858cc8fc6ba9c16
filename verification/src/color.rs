//! Stroke colours: `#RRGGBB` hex notation and a small palette of names.

use crate::text::str_eq;
use vstd::prelude::*;

verus! {

/// An opaque colour with eight bits per channel.
#[derive(Clone, Copy, Debug, PartialEq, Eq, Structural)]
pub struct Rgb {
    pub r: u8,
    pub g: u8,
    pub b: u8,
}

impl Rgb {
    pub open spec fn black() -> Rgb {
        Rgb { r: 0, g: 0, b: 0 }
    }

    pub open spec fn red() -> Rgb {
        Rgb { r: 255, g: 0, b: 0 }
    }

    pub open spec fn green() -> Rgb {
        Rgb { r: 0, g: 255, b: 0 }
    }

    pub open spec fn blue() -> Rgb {
        Rgb { r: 0, g: 0, b: 255 }
    }
}

/// The value of one hexadecimal digit, either case; `None` for any other
/// character.
pub open spec fn hex_digit_value(c: char) -> Option<u8> {
    let n = c as u32;
    if 0x30 <= n <= 0x39 {
        Some((n - 0x30) as u8)
    } else if 0x61 <= n <= 0x66 {
        Some((n - 0x61 + 10) as u8)
    } else if 0x41 <= n <= 0x46 {
        Some((n - 0x41 + 10) as u8)
    } else {
        None
    }
}

/// The byte written by two hexadecimal digits, high digit first.
pub open spec fn hex_pair_value(hi: char, lo: char) -> Option<u8> {
    match (hex_digit_value(hi), hex_digit_value(lo)) {
        (Some(h), Some(l)) => Some((16 * h + l) as u8),
        _ => None,
    }
}

/// `s` is `#` followed by exactly six hexadecimal digits.
pub open spec fn is_hex_color(s: Seq<char>) -> bool {
    &&& s.len() == 7
    &&& s[0] == '#'
    &&& forall|i: int| 1 <= i < 7 ==> (#[trigger] hex_digit_value(s[i])) is Some
}

/// The colour that a string in `#RRGGBB` form denotes.
pub open spec fn hex_color_value(s: Seq<char>) -> Rgb
    recommends
        is_hex_color(s),
{
    Rgb {
        r: hex_pair_value(s[1], s[2]).unwrap(),
        g: hex_pair_value(s[3], s[4]).unwrap(),
        b: hex_pair_value(s[5], s[6]).unwrap(),
    }
}

/// Strict reading of `#RRGGBB`: the colour, or `None` when `s` is not of
/// that form.
pub open spec fn hex_color_of(s: Seq<char>) -> Option<Rgb> {
    if is_hex_color(s) {
        Some(hex_color_value(s))
    } else {
        None
    }
}

fn hex_digit(c: char) -> (v: Option<u8>)
    ensures
        v == hex_digit_value(c),
{
    let n: u32 = c as u32;
    if 0x30 <= n && n <= 0x39 {
        Some((n - 0x30) as u8)
    } else if 0x61 <= n && n <= 0x66 {
        Some((n - 0x61 + 10) as u8)
    } else if 0x41 <= n && n <= 0x46 {
        Some((n - 0x41 + 10) as u8)
    } else {
        None
    }
}

fn hex_pair(hi: char, lo: char) -> (v: Option<u8>)
    ensures
        v == hex_pair_value(hi, lo),
{
    match (hex_digit(hi), hex_digit(lo)) {
        (Some(h), Some(l)) => Some(16 * h + l),
        _ => None,
    }
}

/// Parses `#RRGGBB`, accepting digits of either case and nothing else: no
/// sign, no blank, no shorter or longer form.
pub fn parse_hex_color(s: &str) -> (res: Option<Rgb>)
    ensures
        res == hex_color_of(s@),
{
    if s.unicode_len() != 7 {
        return None;
    }
    if s.get_char(0) != '#' {
        return None;
    }
    let r = hex_pair(s.get_char(1), s.get_char(2));
    let g = hex_pair(s.get_char(3), s.get_char(4));
    let b = hex_pair(s.get_char(5), s.get_char(6));
    match (r, g, b) {
        (Some(r), Some(g), Some(b)) => Some(Rgb { r, g, b }),
        _ => None,
    }
}

/// What `str::to_lowercase` makes of a string.
pub uninterp spec fn lowercase_of(s: Seq<char>) -> Seq<char>;

/// Calls `str::to_lowercase`, whose result depends on the characters of
/// `s` alone. Nothing is claimed of that result beyond its name.
#[verifier::external_body]
fn to_lowercase(s: &str) -> (lowered: String)
    ensures
        lowered@ == lowercase_of(s@),
{
    s.to_lowercase()
}

/// The palette of named colours, looked up by a name already in lower case.
pub open spec fn named_color_of(lowered: Seq<char>) -> Option<Rgb> {
    if lowered == "black"@ {
        Some(Rgb::black())
    } else if lowered == "red"@ {
        Some(Rgb::red())
    } else if lowered == "green"@ {
        Some(Rgb::green())
    } else if lowered == "blue"@ {
        Some(Rgb::blue())
    } else {
        None
    }
}

/// The colour of a string, given its lower-case form: hex notation is tried
/// first, then the palette.
pub open spec fn color_of(s: Seq<char>, lowered: Seq<char>) -> Option<Rgb> {
    if is_hex_color(s) {
        Some(hex_color_value(s))
    } else {
        named_color_of(lowered)
    }
}

/// The colour a stroke is drawn in: the parsed colour, black where there
/// is none.
pub open spec fn render_color_of(parsed: Option<Rgb>) -> Rgb {
    match parsed {
        Some(c) => c,
        None => Rgb::black(),
    }
}

/// Looks a lower-case name up in the palette: `black`, `red`, `green`,
/// `blue`.
pub fn named_color(lowered: &str) -> (res: Option<Rgb>)
    ensures
        res == named_color_of(lowered@),
{
    if str_eq(lowered, "black") {
        Some(Rgb { r: 0, g: 0, b: 0 })
    } else if str_eq(lowered, "red") {
        Some(Rgb { r: 255, g: 0, b: 0 })
    } else if str_eq(lowered, "green") {
        Some(Rgb { r: 0, g: 255, b: 0 })
    } else if str_eq(lowered, "blue") {
        Some(Rgb { r: 0, g: 0, b: 255 })
    } else {
        None
    }
}

/// Strict colour parsing: `#RRGGBB`, or a palette name in any case.
/// `None` says that the string is neither.
pub fn parse_color(color_str: &str) -> (res: Option<Rgb>)
    ensures
        res == color_of(color_str@, lowercase_of(color_str@)),
{
    match parse_hex_color(color_str) {
        Some(c) => Some(c),
        None => {
            let lowered = to_lowercase(color_str);
            named_color(lowered.as_str())
        },
    }
}

/// Lenient colour resolution for drawing: an unparseable colour is black.
pub fn render_color(color_str: &str) -> (c: Rgb)
    ensures
        c == render_color_of(color_of(color_str@, lowercase_of(color_str@))),
{
    match parse_color(color_str) {
        Some(c) => c,
        None => Rgb { r: 0, g: 0, b: 0 },
    }
}

/// A string in hex notation has a colour, and the same one whatever its
/// lower-case form is: the palette is asked only for what is no hex
/// notation.
pub proof fn lemma_hex_color_needs_no_name(s: Seq<char>, lowered: Seq<char>, other: Seq<char>)
    requires
        is_hex_color(s),
    ensures
        color_of(s, lowered) == Some(hex_color_value(s)),
        color_of(s, lowered) == color_of(s, other),
        render_color_of(color_of(s, lowered)) == hex_color_value(s),
{
}

/// A hexadecimal digit has the same value in either case.
pub proof fn lemma_hex_digit_case(upper: char, lower: char)
    requires
        0x41 <= upper as u32 <= 0x46,
        lower as u32 == upper as u32 + 0x20,
    ensures
        hex_digit_value(upper) == hex_digit_value(lower),
        hex_digit_value(upper) is Some,
{
}

} // verus!
