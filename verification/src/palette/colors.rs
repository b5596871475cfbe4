use crate::palette;
use crate::terminal::{extends, lemma_extends_trans, Command, Terminal, SIZE};
use crate::util::{invert_spec, Color, Point};
use vstd::prelude::*;

verus! {

broadcast use crate::terminal::lemma_extends_trans_auto;

/// One clickable strip of the palette: a run of `width` cells starting at
/// `point`, all selecting `color`.
#[derive(Clone, Copy, Debug)]
pub struct ClickableColor {
    pub point: Point,
    pub width: SIZE,
    pub color: Color,
}

/// Whether a click at `p` lands on this strip.
pub open spec fn cc_hit(cc: ClickableColor, p: Point) -> bool {
    &&& cc.point.y == p.y
    &&& cc.point.x <= p.x < cc.point.x + cc.width
}

/// The color of the first strip from position `i` onward that a click at
/// `p` lands on.
pub open spec fn first_hit(s: Seq<ClickableColor>, p: Point, i: int) -> Option<Color>
    decreases s.len() - i,
{
    if !(0 <= i < s.len()) {
        None
    } else if cc_hit(s[i], p) {
        Some(s[i].color)
    } else {
        first_hit(s, p, i + 1)
    }
}

/// The color under a click, scanning the strips in the order they were laid
/// out; `None` if the click hits none of them.
pub fn get_color(clickable_colors: &[ClickableColor], point: Point) -> (r: Option<Color>)
    ensures
        r == first_hit(clickable_colors@, point, 0),
{
    let mut i: usize = 0;
    let n = clickable_colors.len();
    while i < n
        invariant
            i <= n,
            n == clickable_colors@.len(),
            first_hit(clickable_colors@, point, 0) == first_hit(
                clickable_colors@,
                point,
                i as int,
            ),
        decreases n - i,
    {
        let cc = clickable_colors[i];
        if point.y == cc.point.y && point.x >= cc.point.x && (point.x as u16) < cc.point.x as u16
            + cc.width as u16 {
            return Some(cc.color);
        }
        i = i + 1;
    }
    None
}

enum Direction {
    Left,
    Right,
}

/// The palette fits on the terminal.
pub open spec fn palette_fits(term: Terminal) -> bool {
    &&& palette::WIDTH / 2 <= term.size.width / 2
    &&& palette::HEIGHT / 2 <= term.size.height / 2
}

/// Queues the indicator for the color bound to the left mouse button: the
/// letter on the color itself, in its inverse for contrast.
pub fn draw_left_color(term: &mut Terminal, color: Color)
    requires
        palette_fits(*old(term)),
    ensures
        final(term).size == old(term).size,
        extends(*old(term), *final(term)),
        final(term).commands@.len() == old(term).commands@.len() + 6,
        final(term).commands@[old(term).commands@.len() as int + 1] == Command::SetForegroundColor(
            invert_spec(color),
        ),
        final(term).commands@[old(term).commands@.len() as int + 2] == Command::SetBackgroundColor(color),
    {
        draw_direction_color(term, color, Direction::Left);
    }

/// Queues the indicator for the color bound to the right mouse button.
pub fn draw_right_color(term: &mut Terminal, color: Color)
    requires
        palette_fits(*old(term)),
    ensures
        final(term).size == old(term).size,
        extends(*old(term), *final(term)),
        final(term).commands@.len() == old(term).commands@.len() + 6,
        final(term).commands@[old(term).commands@.len() as int + 1] == Command::SetForegroundColor(
            invert_spec(color),
        ),
        final(term).commands@[old(term).commands@.len() as int + 2] == Command::SetBackgroundColor(color),
    {
        draw_direction_color(term, color, Direction::Right);
    }

fn draw_direction_color(term: &mut Terminal, color: Color, direction: Direction)
    requires
        palette_fits(*old(term)),
    ensures
        final(term).size == old(term).size,
        extends(*old(term), *final(term)),
        final(term).commands@.len() == old(term).commands@.len() + 6,
        final(term).commands@[old(term).commands@.len() as int + 1] == Command::SetForegroundColor(
            invert_spec(color),
        ),
        final(term).commands@[old(term).commands@.len() as int + 2] == Command::SetBackgroundColor(color),
{
    let mut point = term.get_centered_border_point(&palette::palette_size());
    if let Direction::Right = direction {
        point.x = point.x + palette::WIDTH;
        point.x = point.x - 5;
    }
    term.set_cursor(point);
    let ghost t1 = *term;
    term.set_foreground_color(color.invert());
    let ghost t2 = *term;
    term.set_background_color(color);
    let ghost t3 = *term;
    match direction {
        Direction::Left => term.write("  L  "),
        Direction::Right => term.write("  R  "),
    }
    let ghost t4 = *term;
    point.y = point.y + 1;
    term.set_cursor(point);
    let ghost t5 = *term;
    term.write("     ");
    proof {
        lemma_extends_trans(*old(term), t1, t2);
        lemma_extends_trans(*old(term), t2, t3);
        lemma_extends_trans(*old(term), t3, t4);
        lemma_extends_trans(*old(term), t4, t5);
        lemma_extends_trans(*old(term), t5, *term);
        assert(t3.commands@[old(term).commands@.len() as int + 1] == Command::SetForegroundColor(
            invert_spec(color),
        ));
        assert(t3.commands@[old(term).commands@.len() as int + 2] == Command::SetBackgroundColor(
            color,
        ));
        assert(extends(t3, *term));
        assert(term.commands@[old(term).commands@.len() as int + 1] == t3.commands@[old(
            term,
        ).commands@.len() as int + 1]);
        assert(term.commands@[old(term).commands@.len() as int + 2] == t3.commands@[old(
            term,
        ).commands@.len() as int + 2]);
    }
}

/// The first row of named palette colors.
pub open spec fn bright_color_spec(i: int) -> Color {
    if i == 0 {
        Color::Black
    } else if i == 1 {
        Color::Red
    } else if i == 2 {
        Color::Green
    } else if i == 3 {
        Color::Yellow
    } else if i == 4 {
        Color::Blue
    } else if i == 5 {
        Color::Magenta
    } else if i == 6 {
        Color::Cyan
    } else {
        Color::White
    }
}

/// The second row of named palette colors.
pub open spec fn dark_color_spec(i: int) -> Color {
    if i == 0 {
        Color::DarkGray
    } else if i == 1 {
        Color::DarkRed
    } else if i == 2 {
        Color::DarkGreen
    } else if i == 3 {
        Color::DarkYellow
    } else if i == 4 {
        Color::DarkBlue
    } else if i == 5 {
        Color::DarkMagenta
    } else if i == 6 {
        Color::DarkCyan
    } else {
        Color::Gray
    }
}

fn bright_color(i: u8) -> (c: Color)
    requires
        i < 8,
    ensures
        c == bright_color_spec(i as int),
{
    if i == 0 {
        Color::Black
    } else if i == 1 {
        Color::Red
    } else if i == 2 {
        Color::Green
    } else if i == 3 {
        Color::Yellow
    } else if i == 4 {
        Color::Blue
    } else if i == 5 {
        Color::Magenta
    } else if i == 6 {
        Color::Cyan
    } else {
        Color::White
    }
}

fn dark_color(i: u8) -> (c: Color)
    requires
        i < 8,
    ensures
        c == dark_color_spec(i as int),
{
    if i == 0 {
        Color::DarkGray
    } else if i == 1 {
        Color::DarkRed
    } else if i == 2 {
        Color::DarkGreen
    } else if i == 3 {
        Color::DarkYellow
    } else if i == 4 {
        Color::DarkBlue
    } else if i == 5 {
        Color::DarkMagenta
    } else if i == 6 {
        Color::DarkCyan
    } else {
        Color::Gray
    }
}

/// The palette bytes left out of the byte-color block because a named color
/// already shows them.
pub open spec fn is_high_intensity(c: int) -> bool {
    c == 244 || c == 196 || c == 46 || c == 226 || c == 21 || c == 201 || c == 51 || c == 231
}

fn is_high_intensity_color(c: u8) -> (r: bool)
    ensures
        r == is_high_intensity(c as int),
{
    c == 244 || c == 196 || c == 46 || c == 226 || c == 21 || c == 201 || c == 51 || c == 231
}

/// How many of the skipped bytes lie below `c`: lets the drawing loop tie
/// its entry count to the byte it has reached.
pub open spec fn skips_below(c: int) -> int {
    (if c > 21 {
        1int
    } else {
        0
    }) + (if c > 46 {
        1int
    } else {
        0
    }) + (if c > 51 {
        1int
    } else {
        0
    }) + (if c > 196 {
        1int
    } else {
        0
    }) + (if c > 201 {
        1int
    } else {
        0
    }) + (if c > 226 {
        1int
    } else {
        0
    })
}

/// What the `k`-th clickable strip a palette draw records must look like,
/// for a palette whose top-left corner is `corner`: two rows of named
/// colors two cells wide, then the byte-color block one cell per swatch in
/// rows as wide as the palette, then the grayscale ramp.
pub open spec fn palette_entry_ok(corner: Point, k: int, cc: ClickableColor) -> bool {
    if 0 <= k < 8 {
        cc == (ClickableColor {
            point: Point { x: (corner.x + 5 + 2 * k) as SIZE, y: corner.y },
            width: 2,
            color: bright_color_spec(k),
        })
    } else if 8 <= k < 16 {
        cc == (ClickableColor {
            point: Point { x: (corner.x + 5 + 2 * (k - 16 + 8)) as SIZE, y: (corner.y + 1) as SIZE },
            width: 2,
            color: dark_color_spec(k - 8),
        })
    } else if 16 <= k < 224 {
        let offset = k - 16;
        &&& cc.point == (Point {
            x: (corner.x + offset % 26) as SIZE,
            y: (corner.y + 2 + offset / 26) as SIZE,
        })
        &&& cc.width == 1
        &&& (cc.color matches Color::ByteColor(b) && 17 <= b < 231 && !is_high_intensity(b as int)
            && b - 17 - skips_below(b as int) == offset)
    } else if 224 <= k < 248 {
        cc == (ClickableColor {
            point: Point { x: (corner.x + 1 + (k - 224)) as SIZE, y: (corner.y + 10) as SIZE },
            width: 1,
            color: Color::ByteColor((232 + (k - 224)) as u8),
        })
    } else {
        false
    }
}

/// Queues the whole palette: the two button indicators, two rows of named
/// colors, a block of distinct byte colors, and the grayscale ramp, while
/// recording one clickable strip per swatch. Returns the point just under
/// the palette, where the color entry field sits.
#[verifier::loop_isolation(false)]
#[verifier::rlimit(60)]
pub fn draw(
    term: &mut Terminal,
    clickable_colors: &mut Vec<ClickableColor>,
    state: &crate::event::State,
) -> (r: Point)
    requires
        palette_fits(*old(term)),
    ensures
        final(term).size == old(term).size,
        extends(*old(term), *final(term)),
        final(clickable_colors)@.len() == old(clickable_colors)@.len() + 248,
        forall|i: int|
            0 <= i < old(clickable_colors)@.len() ==> final(clickable_colors)@[i] == old(
                clickable_colors,
            )@[i],
        forall|k: int|
            0 <= k < 248 ==> palette_entry_ok(
                Point {
                    x: (old(term).size.width / 2 - palette::WIDTH / 2) as SIZE,
                    y: (old(term).size.height / 2 - palette::HEIGHT / 2) as SIZE,
                },
                k,
                #[trigger] final(clickable_colors)@[old(clickable_colors)@.len() + k],
            ),
        r.x == old(term).size.width / 2 - palette::WIDTH / 2,
        r.y == old(term).size.height / 2 - palette::HEIGHT / 2 + 11,
    {
        let ghost old_cc = clickable_colors@;
        let mut point = term.get_centered_border_point(&palette::palette_size());
        let corner_x = point.x;
        let corner_y = point.y;

        draw_left_color(term, state.left_color);
        draw_right_color(term, state.right_color);

        // the sixteen named colors, two swatch cells each
        let four_bit_color_center = palette::WIDTH / 2 - 8;
        point.x = point.x + four_bit_color_center;
        term.set_cursor(point);
        let mut index: u8 = 0;
        while index < 8
            invariant
                index <= 8,
                point.x == corner_x + four_bit_color_center,
                point.y == corner_y,
                extends(*old(term), *term),
                term.size == old(term).size,
                clickable_colors@.len() == old_cc.len() + index,
                forall|i: int| 0 <= i < old_cc.len() ==> clickable_colors@[i] == old_cc[i],
                forall|k: int|
                    0 <= k < index ==> palette_entry_ok(
                        Point { x: corner_x, y: corner_y },
                        k,
                        #[trigger] clickable_colors@[old_cc.len() + k],
                    ),
            decreases 8 - index,
        {
            let color = bright_color(index);
            term.set_background_color(color);
            term.write("  ");
            clickable_colors.push(
                ClickableColor {
                    point: Point { x: point.x + index * 2, y: point.y },
                    width: 2,
                    color,
                },
            );
            index = index + 1;
        }

        point.y = point.y + 1;
        term.set_cursor(point);
        let mut index: u8 = 0;
        while index < 8
            invariant
                index <= 8,
                point.x == corner_x + four_bit_color_center,
                point.y == corner_y + 1,
                extends(*old(term), *term),
                term.size == old(term).size,
                clickable_colors@.len() == old_cc.len() + 8 + index,
                forall|i: int| 0 <= i < old_cc.len() ==> clickable_colors@[i] == old_cc[i],
                forall|k: int|
                    0 <= k < 8 + index ==> palette_entry_ok(
                        Point { x: corner_x, y: corner_y },
                        k,
                        #[trigger] clickable_colors@[old_cc.len() + k],
                    ),
            decreases 8 - index,
        {
            let color = dark_color(index);
            term.set_background_color(color);
            term.write("  ");
            clickable_colors.push(
                ClickableColor {
                    point: Point { x: point.x + index * 2, y: point.y },
                    width: 2,
                    color,
                },
            );
            index = index + 1;
        }

        // the byte colors that no named color already shows, in rows as wide
        // as the palette
        point.x = point.x - four_bit_color_center;
        let mut color_byte: u8 = palette::FOUR_BIT_COLOR_COUNT + 1;
        let mut index: u8 = 0;
        while color_byte < 255 - palette::GRAYSCALE_COLOR_COUNT
            invariant
                17 <= color_byte <= 231,
                index == color_byte - 17 - skips_below(color_byte as int),
                0 <= index <= 208,
                (index % 26 == 0 && index > 0) ==> point.x == corner_x + 26,
                (index % 26 == 0 && index == 0) ==> point.x == corner_x,
                index % 26 != 0 ==> point.x == corner_x + index % 26,
                point.y == corner_y + 1 + (index + 25) / 26,
                extends(*old(term), *term),
                term.size == old(term).size,
                clickable_colors@.len() == old_cc.len() + 16 + index,
                forall|i: int| 0 <= i < old_cc.len() ==> clickable_colors@[i] == old_cc[i],
                forall|k: int|
                    0 <= k < 16 + index ==> palette_entry_ok(
                        Point { x: corner_x, y: corner_y },
                        k,
                        #[trigger] clickable_colors@[old_cc.len() + k],
                    ),
            decreases 255 - palette::GRAYSCALE_COLOR_COUNT - color_byte,
        {
            if !is_high_intensity_color(color_byte) {
                if index % 26 == 0 {
                    if index > 0 {
                        point.x = point.x - palette::WIDTH;
                    }
                    point.y = point.y + 1;
                    term.set_cursor(point);
                }
                let byte_color = Color::ByteColor(color_byte);
                term.set_background_color(byte_color);
                term.write(" ");
                clickable_colors.push(
                    ClickableColor {
                        point: Point { x: point.x, y: point.y },
                        width: 1,
                        color: byte_color,
                    },
                );
                point.x = point.x + 1;
                index = index + 1;
            }
            color_byte = color_byte + 1;
        }
        proof {
            assert(index == 208);
            assert(point.x == corner_x + 26);
            assert(point.y == corner_y + 9);
        }
        point.x = point.x - palette::WIDTH;
        point.y = point.y + 1;

        point.x = point.x + 1;
        term.set_cursor(point);

        // the grayscale ramp
        let mut index: u8 = 0;
        while index < palette::GRAYSCALE_COLOR_COUNT
            invariant
                index <= palette::GRAYSCALE_COLOR_COUNT,
                point.x == corner_x + 1,
                point.y == corner_y + 10,
                extends(*old(term), *term),
                term.size == old(term).size,
                clickable_colors@.len() == old_cc.len() + 224 + index,
                forall|i: int| 0 <= i < old_cc.len() ==> clickable_colors@[i] == old_cc[i],
                forall|k: int|
                    0 <= k < 224 + index ==> palette_entry_ok(
                        Point { x: corner_x, y: corner_y },
                        k,
                        #[trigger] clickable_colors@[old_cc.len() + k],
                    ),
            decreases palette::GRAYSCALE_COLOR_COUNT - index,
        {
            let byte_color = Color::ByteColor(255 - palette::GRAYSCALE_COLOR_COUNT + 1 + index);
            term.set_background_color(byte_color);
            term.write(" ");
            clickable_colors.push(
                ClickableColor {
                    point: Point { x: point.x + index, y: point.y },
                    width: 1,
                    color: byte_color,
                },
            );
            index = index + 1;
        }
        point.x = point.x - 1;
        point.y = point.y + 1;

        point
    }

} // verus!
