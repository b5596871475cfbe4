use crate::palette;
use crate::terminal::SIZE;
use vstd::prelude::*;

verus! {

/// A position on the canvas. `x` is measured in terminal columns; `y` is
/// measured in half-block rows, so two consecutive `y` values share one
/// terminal row.
#[derive(Clone, Copy, Debug, PartialEq, Eq, Structural)]
pub struct Point {
    pub x: SIZE,
    pub y: SIZE,
}

impl Default for Point {
    fn default() -> (p: Point)
        ensures
            p == (Point { x: 0, y: 0 }),
    {
        Point { x: 0, y: 0 }
    }
}

/// A terminal size in whole character cells.
#[derive(Clone, Copy, Debug, PartialEq, Eq, Structural)]
pub struct Size {
    pub width: SIZE,
    pub height: SIZE,
}

impl Size {
    /// Both dimensions must fit the cell coordinate range; the caller checks
    /// this before constructing a size.
    pub fn new(width: usize, height: usize) -> (s: Size)
        requires
            width <= SIZE::MAX,
            height <= SIZE::MAX,
        ensures
            s.width == width,
            s.height == height,
    {
        Size { width: width as SIZE, height: height as SIZE }
    }
}

/// A drawable color: sixteen named colors, an 8-bit palette index, or a
/// 24-bit RGB triple.
#[derive(Clone, Copy, Debug, PartialEq, Eq, Structural)]
pub enum Color {
    DarkRed,
    DarkGreen,
    DarkYellow,
    DarkBlue,
    DarkMagenta,
    DarkCyan,
    Black,
    Gray,
    DarkGray,
    Red,
    Green,
    Yellow,
    Blue,
    Magenta,
    Cyan,
    White,
    ByteColor(u8),
    Rgb { r: u8, g: u8, b: u8 },
}

impl Default for Color {
    fn default() -> (c: Color)
        ensures
            c == Color::Black,
    {
        Color::Black
    }
}

/// The visual inverse of a color. RGB triples invert componentwise, and
/// each named color swaps with the named color of the complementary hue and
/// lightness (black with white, red with cyan, and so on), so inverting a
/// named or RGB color twice restores it. Palette bytes are only mapped to a
/// contrasting region of the palette: their exact inverse depends on the
/// palette layout, so no round trip is promised for them.
pub open spec fn invert_spec(c: Color) -> Color {
    match c {
        Color::ByteColor(byte) => {
            if byte >= 255 - palette::GRAYSCALE_COLOR_COUNT {
                Color::ByteColor(((255 - byte) + (255 - palette::GRAYSCALE_COLOR_COUNT - 1)) as u8)
            } else {
                Color::ByteColor((255 - byte - palette::FOUR_BIT_COLOR_COUNT + 1) as u8)
            }
        },
        Color::Rgb { r, g, b } => Color::Rgb {
            r: (255 - r) as u8,
            g: (255 - g) as u8,
            b: (255 - b) as u8,
        },
        Color::Black => Color::White,
        Color::White => Color::Black,
        Color::DarkGray => Color::Gray,
        Color::Gray => Color::DarkGray,
        Color::Red => Color::Cyan,
        Color::Cyan => Color::Red,
        Color::Green => Color::Magenta,
        Color::Magenta => Color::Green,
        Color::Blue => Color::Yellow,
        Color::Yellow => Color::Blue,
        Color::DarkRed => Color::DarkCyan,
        Color::DarkCyan => Color::DarkRed,
        Color::DarkGreen => Color::DarkMagenta,
        Color::DarkMagenta => Color::DarkGreen,
        Color::DarkBlue => Color::DarkYellow,
        Color::DarkYellow => Color::DarkBlue,
    }
}

impl Color {
    pub fn invert(&self) -> (r: Color)
        ensures
            r == invert_spec(*self),
    {
        match *self {
            Color::ByteColor(byte) => {
                if byte >= u8::MAX - palette::GRAYSCALE_COLOR_COUNT {
                    let flipped = u8::MAX - byte;
                    Color::ByteColor(flipped + (u8::MAX - palette::GRAYSCALE_COLOR_COUNT - 1))
                } else {
                    Color::ByteColor(u8::MAX - byte - palette::FOUR_BIT_COLOR_COUNT + 1)
                }
            },
            Color::Rgb { r, g, b } => Color::Rgb {
                r: u8::MAX - r,
                g: u8::MAX - g,
                b: u8::MAX - b,
            },
            Color::Black => Color::White,
            Color::White => Color::Black,
            Color::DarkGray => Color::Gray,
            Color::Gray => Color::DarkGray,
            Color::Red => Color::Cyan,
            Color::Cyan => Color::Red,
            Color::Green => Color::Magenta,
            Color::Magenta => Color::Green,
            Color::Blue => Color::Yellow,
            Color::Yellow => Color::Blue,
            Color::DarkRed => Color::DarkCyan,
            Color::DarkCyan => Color::DarkRed,
            Color::DarkGreen => Color::DarkMagenta,
            Color::DarkMagenta => Color::DarkGreen,
            Color::DarkBlue => Color::DarkYellow,
            Color::DarkYellow => Color::DarkBlue,
        }
    }
}

/// Decimal digits `'0' ..= '9'`.
pub open spec fn is_digit(c: char) -> bool {
    48 <= c as u32 <= 57
}

pub open spec fn digit_val(c: char) -> int {
    c as u32 - 48
}

/// Hexadecimal digits: decimal digits and the letters `a`-`f` in either
/// case.
pub open spec fn is_hexdigit(c: char) -> bool {
    is_digit(c) || (65 <= c as u32 <= 70) || (97 <= c as u32 <= 102)
}

pub open spec fn hex_val(c: char) -> int {
    if is_digit(c) {
        digit_val(c)
    } else if 65 <= c as u32 <= 70 {
        c as u32 - 55
    } else {
        c as u32 - 87
    }
}

/// The value of one two-character hexadecimal byte, as the standard
/// library's radix-16 byte parser reads it: two hex digits, or a leading
/// plus sign before a single digit.
pub open spec fn hex_pair(c1: char, c2: char) -> Option<u8> {
    if c1 == '+' {
        if is_hexdigit(c2) {
            Some(hex_val(c2) as u8)
        } else {
            None
        }
    } else if is_hexdigit(c1) && is_hexdigit(c2) {
        Some((16 * hex_val(c1) + hex_val(c2)) as u8)
    } else {
        None
    }
}

/// A six-hex-digit RGB triple read at position `i`, or nothing if the text
/// is too short there or a byte is malformed.
pub open spec fn parse_hex_at(s: Seq<char>, i: int) -> Option<Color> {
    if 0 <= i && i + 6 <= s.len() {
        match (hex_pair(s[i], s[i + 1]), hex_pair(s[i + 2], s[i + 3]), hex_pair(
            s[i + 4],
            s[i + 5],
        )) {
            (Some(r), Some(g), Some(b)) => Some(Color::Rgb { r, g, b }),
            _ => None,
        }
    } else {
        None
    }
}

/// Which color component incoming digits accumulate into.
#[derive(Clone, Copy, Debug, PartialEq, Eq, Structural)]
pub enum Component {
    R,
    G,
    B,
}

/// The color parser's running state: the three components gathered so far,
/// the component digits currently accumulate into, and how many hexadecimal
/// digits appeared in a row.
#[derive(Clone, Copy, Debug, PartialEq, Eq, Structural)]
pub struct ParseState {
    pub r: Option<u8>,
    pub g: Option<u8>,
    pub b: Option<u8>,
    pub which: Component,
    pub run: usize,
}

pub open spec fn initial_parse_state() -> ParseState {
    ParseState { r: None, g: None, b: None, which: Component::R, run: 0 }
}

pub open spec fn component_of(st: ParseState) -> Option<u8> {
    match st.which {
        Component::R => st.r,
        Component::G => st.g,
        Component::B => st.b,
    }
}

pub open spec fn set_component(st: ParseState, v: Option<u8>) -> ParseState {
    match st.which {
        Component::R => ParseState { r: v, ..st },
        Component::G => ParseState { g: v, ..st },
        Component::B => ParseState { b: v, ..st },
    }
}

/// One more decimal digit appended to a component: components saturate at
/// 255.
pub open spec fn add_digit(acc: Option<u8>, d: int) -> Option<u8> {
    match acc {
        None => Some(d as u8),
        Some(v) => if v * 10 + d > 255 {
            Some(255u8)
        } else {
            Some((v * 10 + d) as u8)
        },
    }
}

/// After six hexadecimal digits in a row, the parser retries them as one
/// six-digit RGB triple.
pub open spec fn check_hex_run(st: ParseState, s: Seq<char>, i: int) -> Result<
    ParseState,
    Option<Color>,
> {
    if st.run == 6 && i + 1 >= 6 {
        match parse_hex_at(s, i + 1 - 6) {
            Some(color) => Err(Some(color)),
            None => Ok(st),
        }
    } else {
        Ok(st)
    }
}

/// One parser step over the character at position `i`: digits accumulate
/// into the current component; any other hexadecimal digit makes the parser
/// try a six-digit triple right there; any other character moves on to the
/// next empty component, or finishes a complete triple early. `Err` carries
/// an early result.
pub open spec fn parse_step(st: ParseState, s: Seq<char>, i: int) -> Result<
    ParseState,
    Option<Color>,
> {
    let c = s[i];
    if is_digit(c) {
        let st1 = set_component(st, add_digit(component_of(st), digit_val(c)));
        check_hex_run(ParseState { run: (st1.run + 1) as usize, ..st1 }, s, i)
    } else if is_hexdigit(c) {
        match parse_hex_at(s, i) {
            Some(color) => Err(Some(color)),
            None => check_hex_run(ParseState { run: (st.run + 1) as usize, ..st }, s, i),
        }
    } else {
        match (st.r, st.g, st.b) {
            (Option::None, Option::None, Option::None) => Ok(
                ParseState { which: Component::R, run: 0, ..st },
            ),
            (Option::Some(_), Option::None, Option::None) => Ok(
                ParseState { which: Component::G, run: 0, ..st },
            ),
            (Option::Some(_), Option::Some(_), Option::None) => Ok(
                ParseState { which: Component::B, run: 0, ..st },
            ),
            (Option::Some(r), Option::Some(g), Option::Some(b)) => Err(
                Some(Color::Rgb { r, g, b }),
            ),
            _ => Err(None),
        }
    }
}

/// What the parser returns when the text ends: missing components default
/// to zero, and a text that never started a component is no color.
pub open spec fn finish_parse(st: ParseState) -> Option<Color> {
    match (st.r, st.g, st.b) {
        (Option::Some(r), Option::None, Option::None) => Some(Color::Rgb { r, g: 0, b: 0 }),
        (Option::Some(r), Option::Some(g), Option::None) => Some(Color::Rgb { r, g, b: 0 }),
        (Option::Some(r), Option::Some(g), Option::Some(b)) => Some(Color::Rgb { r, g, b }),
        _ => None,
    }
}

/// The parse result from position `i` onward, starting in state `st`.
pub open spec fn parse_from(s: Seq<char>, i: int, st: ParseState) -> Option<Color>
    decreases s.len() - i,
{
    if !(0 <= i < s.len()) {
        finish_parse(st)
    } else {
        match parse_step(st, s, i) {
            Ok(st2) => parse_from(s, i + 1, st2),
            Err(result) => result,
        }
    }
}

/// What `parse_rgb_color` returns for a text: the RGB notations it
/// understands are decimal component lists (saturating at 255, with any
/// separators), and six-hex-digit triples.
pub open spec fn parse_rgb_spec(s: Seq<char>) -> Option<Color> {
    parse_from(s, 0, initial_parse_state())
}

/// The characters of a text, in order.
pub fn str_chars(s: &str) -> (v: Vec<char>)
    ensures
        v@ == s@,
{
    let n = s.unicode_len();
    let mut v: Vec<char> = Vec::new();
    let mut i: usize = 0;
    while i < n
        invariant
            i <= n,
            n == s@.len(),
            v@ == s@.subrange(0, i as int),
        decreases n - i,
    {
        v.push(s.get_char(i));
        proof {
            assert(v@ =~= s@.subrange(0, i + 1));
        }
        i = i + 1;
    }
    proof {
        assert(s@.subrange(0, n as int) =~= s@);
    }
    v
}

fn is_digit_char(c: char) -> (r: bool)
    ensures
        r == is_digit(c),
{
    let u = c as u32;
    48 <= u && u <= 57
}

fn is_hexdigit_char(c: char) -> (r: bool)
    ensures
        r == is_hexdigit(c),
{
    let u = c as u32;
    (48 <= u && u <= 57) || (65 <= u && u <= 70) || (97 <= u && u <= 102)
}

fn hex_val_char(c: char) -> (r: u8)
    requires
        is_hexdigit(c),
    ensures
        r == hex_val(c),
{
    let u = c as u32;
    if 48 <= u && u <= 57 {
        (u - 48) as u8
    } else if 65 <= u && u <= 70 {
        (u - 55) as u8
    } else {
        (u - 87) as u8
    }
}

fn hex_pair_chars(c1: char, c2: char) -> (r: Option<u8>)
    ensures
        r == hex_pair(c1, c2),
{
    if c1 == '+' {
        if is_hexdigit_char(c2) {
            Some(hex_val_char(c2))
        } else {
            None
        }
    } else if is_hexdigit_char(c1) && is_hexdigit_char(c2) {
        Some(16 * hex_val_char(c1) + hex_val_char(c2))
    } else {
        None
    }
}

fn parse_hex_chars(chars: &Vec<char>, index: usize) -> (r: Option<Color>)
    ensures
        r == parse_hex_at(chars@, index as int),
{
    if chars.len() >= 6 && index <= chars.len() - 6 {
        let p1 = hex_pair_chars(chars[index], chars[index + 1]);
        let p2 = hex_pair_chars(chars[index + 2], chars[index + 3]);
        let p3 = hex_pair_chars(chars[index + 4], chars[index + 5]);
        if let (Some(r), Some(g), Some(b)) = (p1, p2, p3) {
            Some(Color::Rgb { r, g, b })
        } else {
            None
        }
    } else {
        None
    }
}

/// Reads a six-hex-digit RGB triple out of the input at the given character
/// position.
pub fn parse_hex(string: &str, index: usize) -> (r: Option<Color>)
    ensures
        r == parse_hex_at(string@, index as int),
{
    let chars = str_chars(string);
    parse_hex_chars(&chars, index)
}

/// Tries to parse the input characters into an RGB color; see
/// [`parse_rgb_color`].
#[verifier::loop_isolation(false)]
pub fn parse_rgb_chars(chars: &Vec<char>) -> (result: Option<Color>)
    ensures
        result == parse_rgb_spec(chars@),
{
    let mut st = ParseState { r: None, g: None, b: None, which: Component::R, run: 0 };
    let mut i: usize = 0;
    let n = chars.len();
    while i < n
        invariant
            i <= n,
            st.run <= i,
            parse_rgb_spec(chars@) == parse_from(chars@, i as int, st),
        decreases n - i,
    {
        let ghost st_pre = st;
        let c = chars[i];
        if is_digit_char(c) {
            let d = (c as u32 - 48) as u8;
            let acc = match st.which {
                Component::R => st.r,
                Component::G => st.g,
                Component::B => st.b,
            };
            let updated = match acc {
                None => Some(d),
                Some(v) => {
                    let sum = v as u16 * 10 + d as u16;
                    if sum > 255 {
                        Some(255u8)
                    } else {
                        Some(sum as u8)
                    }
                },
            };
            match st.which {
                Component::R => st.r = updated,
                Component::G => st.g = updated,
                Component::B => st.b = updated,
            }
            st.run = st.run + 1;
            proof {
                assert(updated == add_digit(component_of(st_pre), digit_val(c)));
                assert(st == (ParseState {
                    run: (set_component(st_pre, updated).run + 1) as usize,
                    ..set_component(st_pre, updated)
                }));
            }
            if st.run == 6 && i + 1 >= 6 {
                let early = parse_hex_chars(chars, i + 1 - 6);
                if let Some(color) = early {
                    proof {
                        assert(parse_step(st_pre, chars@, i as int) == Result::<
                            ParseState,
                            Option<Color>,
                        >::Err(Some(color)));
                    }
                    return Some(color);
                }
            }
            proof {
                assert(parse_step(st_pre, chars@, i as int) == Result::<
                    ParseState,
                    Option<Color>,
                >::Ok(st));
            }
        } else if is_hexdigit_char(c) {
            let early = parse_hex_chars(chars, i);
            if let Some(color) = early {
                proof {
                    assert(parse_step(st_pre, chars@, i as int) == Result::<
                        ParseState,
                        Option<Color>,
                    >::Err(Some(color)));
                }
                return Some(color);
            }
            st.run = st.run + 1;
            if st.run == 6 && i + 1 >= 6 {
                let late = parse_hex_chars(chars, i + 1 - 6);
                if let Some(color) = late {
                    proof {
                        assert(parse_step(st_pre, chars@, i as int) == Result::<
                            ParseState,
                            Option<Color>,
                        >::Err(Some(color)));
                    }
                    return Some(color);
                }
            }
            proof {
                assert(parse_step(st_pre, chars@, i as int) == Result::<
                    ParseState,
                    Option<Color>,
                >::Ok(st));
            }
        } else {
            match (st.r, st.g, st.b) {
                (Option::None, Option::None, Option::None) => {
                    st.which = Component::R;
                },
                (Option::Some(_), Option::None, Option::None) => {
                    st.which = Component::G;
                },
                (Option::Some(_), Option::Some(_), Option::None) => {
                    st.which = Component::B;
                },
                (Option::Some(r), Option::Some(g), Option::Some(b)) => {
                    proof {
                        assert(parse_step(st_pre, chars@, i as int) == Result::<
                            ParseState,
                            Option<Color>,
                        >::Err(Some(Color::Rgb { r, g, b })));
                    }
                    return Some(Color::Rgb { r, g, b });
                },
                _ => {
                    proof {
                        assert(parse_step(st_pre, chars@, i as int) == Result::<
                            ParseState,
                            Option<Color>,
                        >::Err(None));
                    }
                    return None;
                },
            }
            st.run = 0;
            proof {
                assert(parse_step(st_pre, chars@, i as int) == Result::<
                    ParseState,
                    Option<Color>,
                >::Ok(st));
            }
        }
        i = i + 1;
    }
    match (st.r, st.g, st.b) {
        (Option::Some(r), Option::None, Option::None) => Some(Color::Rgb { r, g: 0, b: 0 }),
        (Option::Some(r), Option::Some(g), Option::None) => Some(Color::Rgb { r, g, b: 0 }),
        (Option::Some(r), Option::Some(g), Option::Some(b)) => Some(Color::Rgb { r, g, b }),
        _ => None,
    }
}

/// Tries to parse the input into an RGB color. It understands decimal
/// component notations, e.g. `(255, 0, 0)` — components saturate at 255,
/// any non-digit separates components, and missing components are zero —
/// and six-hex-digit notation, e.g. `FF0000`. Malformed input is not an
/// error: it yields no color, an expected outcome of incremental typing.
pub fn parse_rgb_color(string: &str) -> (result: Option<Color>)
    ensures
        result == parse_rgb_spec(string@),
{
    let chars = str_chars(string);
    parse_rgb_chars(&chars)
}

/// Inverting twice is the identity on every named color and on every RGB
/// triple. Only palette bytes are left out: their inverse is a best-effort
/// visual contrast that depends on the palette layout.
pub proof fn lemma_invert_involution(c: Color)
    requires
        !(c matches Color::ByteColor(_)),
    ensures
        invert_spec(invert_spec(c)) == c,
{
}

} // verus!
