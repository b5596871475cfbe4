use blockpaint::canvas::Canvas;
use blockpaint::terminal::{Command, Terminal};
use blockpaint::util::{Color, Point, Size};

fn term() -> Terminal {
    Terminal::new(Size {
        width: 80,
        height: 24,
    })
}

#[test]
fn test_get_point() {
    let mut t = term();
    let mut canvas = Canvas::new();
    let point = Point { x: 0, y: 0 };
    let color = Color::Red;
    canvas.half_block(&mut t, point, color);
    assert_eq!(canvas.get_color(point), color);
    assert_ne!(canvas.get_color(Point { x: 1, y: 0 }), color);
    assert_ne!(canvas.get_color(Point { x: 0, y: 1 }), color);

    canvas.clear();
    let point = Point { x: 0, y: 1 };
    let color = Color::Green;
    canvas.half_block(&mut t, point, color);
    assert_eq!(canvas.get_color(point), color);
    assert_ne!(canvas.get_color(Point { x: 0, y: 0 }), color);
    assert_ne!(canvas.get_color(Point { x: 0, y: 2 }), color);

    canvas.clear();
    let point = Point { x: 5, y: 3 };
    let color = Color::Blue;
    canvas.half_block(&mut t, point, color);
    assert_eq!(canvas.get_color(point), color);
    assert_ne!(canvas.get_color(Point { x: 5, y: 2 }), color);
    assert_ne!(canvas.get_color(Point { x: 5, y: 4 }), color);
}

#[test]
fn half_block_keeps_other_half() {
    let mut t = term();
    let mut canvas = Canvas::new();
    let upper = Point { x: 3, y: 6 };
    let lower = Point { x: 3, y: 7 };
    canvas.half_block(&mut t, upper, Color::Red);
    canvas.half_block(&mut t, lower, Color::Blue);
    // both halves of the same cell hold their own color
    assert_eq!(canvas.get_color(upper), Color::Red);
    assert_eq!(canvas.get_color(lower), Color::Blue);
    // repainting one half leaves the other alone
    canvas.half_block(&mut t, upper, Color::Green);
    assert_eq!(canvas.get_color(upper), Color::Green);
    assert_eq!(canvas.get_color(lower), Color::Blue);
}

#[test]
fn half_block_is_idempotent() {
    let mut t = term();
    let mut once = Canvas::new();
    let mut twice = Canvas::new();
    let point = Point { x: 10, y: 5 };
    once.half_block(&mut t, point, Color::Cyan);
    twice.half_block(&mut t, point, Color::Cyan);
    twice.half_block(&mut t, point, Color::Cyan);
    assert_eq!(once.get_cell(point), twice.get_cell(point));
    assert_eq!(once.cells, twice.cells);
}

#[test]
fn write_character_consumes_cell() {
    let mut t = term();
    let mut canvas = Canvas::new();
    let point = Point { x: 2, y: 4 };
    canvas.half_block(&mut t, point, Color::Red);
    canvas.write_character(point, 'x');
    let cell = canvas.get_cell(point);
    assert_eq!(cell.character, Some('x'));
    assert_eq!(cell.upper_block, None);
    assert_eq!(cell.lower_block, None);
    // painting again clears the character
    canvas.half_block(&mut t, point, Color::Blue);
    let cell = canvas.get_cell(point);
    assert_eq!(cell.character, None);
    assert_eq!(cell.upper_block, Some(Color::Blue));
}

#[test]
fn hollow_rectangle_paints_exactly_the_perimeter() {
    let mut t = term();
    let mut canvas = Canvas::new();
    canvas.hollow_rectangle(
        &mut t,
        Point { x: 0, y: 0 },
        Size {
            width: 5,
            height: 3,
        },
        Color::Red,
    );
    let mut painted = 0;
    for x in 0..5u8 {
        for y in 0..3u8 {
            if canvas.get_color(Point { x, y }) == Color::Red {
                painted += 1;
            }
        }
    }
    assert_eq!(painted, 12);
    // the three interior cells are untouched: row 1 is the lower half of
    // the cells whose upper half holds the top run
    for x in 1..4u8 {
        assert_eq!(canvas.get_color(Point { x, y: 1 }), Color::Black);
        assert_eq!(
            canvas.get_cell(Point { x, y: 1 }).lower_block,
            None,
            "interior must stay empty"
        );
    }
}

#[test]
fn filled_rectangle_fills_the_block() {
    let mut t = term();
    let mut canvas = Canvas::new();
    canvas.filled_rectangle(
        &mut t,
        Point { x: 2, y: 2 },
        Size {
            width: 3,
            height: 2,
        },
        Color::Magenta,
    );
    for x in 2..5u8 {
        for y in 2..4u8 {
            assert_eq!(canvas.get_color(Point { x, y }), Color::Magenta);
        }
    }
    assert_eq!(canvas.get_color(Point { x: 1, y: 2 }), Color::Black);
    assert_eq!(canvas.get_color(Point { x: 5, y: 2 }), Color::Black);
    assert_eq!(canvas.get_color(Point { x: 2, y: 4 }), Color::Black);
}

#[test]
fn circle_fills_a_disc() {
    let mut t = term();
    let mut canvas = Canvas::new();
    let center = Point { x: 10, y: 10 };
    canvas.circle(&mut t, center, Color::Yellow, 2);
    // the center column spans the full chord
    assert_eq!(canvas.get_color(Point { x: 10, y: 10 }), Color::Yellow);
    assert_eq!(canvas.get_color(Point { x: 10, y: 9 }), Color::Yellow);
    assert_eq!(canvas.get_color(Point { x: 10, y: 11 }), Color::Yellow);
    assert_eq!(canvas.get_color(Point { x: 9, y: 10 }), Color::Yellow);
    assert_eq!(canvas.get_color(Point { x: 11, y: 10 }), Color::Yellow);
    // the extreme left column has a zero-height chord, and points well
    // outside the disc stay empty
    assert_eq!(canvas.get_color(Point { x: 8, y: 10 }), Color::Black);
    assert_eq!(canvas.get_color(Point { x: 13, y: 10 }), Color::Black);
    assert_eq!(canvas.get_color(Point { x: 10, y: 14 }), Color::Black);
}

#[test]
fn bucket_is_a_no_op_on_matching_color() {
    let mut t = term();
    let mut canvas = Canvas::new();
    canvas.resize_terminal(Size {
        width: 10,
        height: 5,
    });
    canvas.half_block(&mut t, Point { x: 3, y: 3 }, Color::Red);
    let before = canvas.cells.clone();
    // the seed already shows red, so a red fill changes nothing
    canvas.bucket(&mut t, Point { x: 3, y: 3 }, Color::Red);
    assert_eq!(canvas.cells, before);
}

#[test]
fn bucket_fills_an_enclosed_region_and_nothing_else() {
    let mut t = term();
    let mut canvas = Canvas::new();
    canvas.resize_terminal(Size {
        width: 10,
        height: 5,
    });
    // a red border around the rectangle 1..=4 x 1..=4 (exclusive interior
    // 2..=3 x 2..=3)
    for i in 1..5u8 {
        canvas.half_block(&mut t, Point { x: i, y: 1 }, Color::Red);
        canvas.half_block(&mut t, Point { x: i, y: 4 }, Color::Red);
        canvas.half_block(&mut t, Point { x: 1, y: i }, Color::Red);
        canvas.half_block(&mut t, Point { x: 4, y: i }, Color::Red);
    }
    canvas.bucket(&mut t, Point { x: 2, y: 2 }, Color::Green);
    // every interior cell of the seed's region is painted
    for x in 2..4u8 {
        for y in 2..4u8 {
            assert_eq!(canvas.get_color(Point { x, y }), Color::Green);
        }
    }
    // the border is untouched
    assert_eq!(canvas.get_color(Point { x: 1, y: 1 }), Color::Red);
    assert_eq!(canvas.get_color(Point { x: 4, y: 4 }), Color::Red);
    // the outside is untouched
    assert_eq!(canvas.get_color(Point { x: 0, y: 0 }), Color::Black);
    assert_eq!(canvas.get_color(Point { x: 5, y: 5 }), Color::Black);
    assert_eq!(canvas.get_color(Point { x: 9, y: 9 }), Color::Black);
}

#[test]
fn bucket_fill_on_empty_canvas_stays_inside_bounds() {
    let mut t = term();
    let mut canvas = Canvas::new();
    canvas.resize_terminal(Size {
        width: 4,
        height: 2,
    });
    canvas.bucket(&mut t, Point { x: 0, y: 0 }, Color::Blue);
    // everything inside 4 x 4 half-block bounds is painted
    for x in 0..4u8 {
        for y in 0..4u8 {
            assert_eq!(canvas.get_color(Point { x, y }), Color::Blue);
        }
    }
    // the first point outside the bounds is not
    assert_eq!(canvas.get_color(Point { x: 4, y: 0 }), Color::Black);
    assert_eq!(canvas.get_color(Point { x: 0, y: 4 }), Color::Black);
}

#[test]
fn block_queues_the_color_bracket_and_glyph() {
    let mut t = term();
    let mut canvas = Canvas::new();
    t.take_commands();
    canvas.block(&mut t, Point { x: 3, y: 4 }, Color::Red);
    let commands = t.take_commands();
    assert_eq!(commands.len(), 4);
    assert!(matches!(commands[0], Command::SetForegroundColor(Color::Red)));
    // the cursor lands on the cell's terminal row: half the logical row
    assert!(matches!(commands[1], Command::SetCursor(Point { x: 3, y: 2 })));
    assert!(matches!(commands[2], Command::WriteChar('\u{2580}')));
    assert!(matches!(commands[3], Command::ResetColors));
    // painting the lower half of an already-painted cell writes its glyph
    // on the upper half's color as background
    canvas.block(&mut t, Point { x: 3, y: 5 }, Color::Blue);
    let commands = t.take_commands();
    assert_eq!(commands.len(), 5);
    assert!(matches!(commands[2], Command::SetBackgroundColor(Color::Red)));
    assert!(matches!(commands[3], Command::WriteChar('\u{2584}')));
}

#[test]
fn redraw_re_emits_painted_cells() {
    let mut t = term();
    let mut canvas = Canvas::new();
    canvas.half_block(&mut t, Point { x: 9, y: 1 }, Color::Green);
    t.take_commands();
    canvas.redraw(&mut t);
    let commands = t.take_commands();
    // one painted half re-emits exactly one color-bracketed block
    assert_eq!(commands.len(), 4);
    assert!(matches!(commands[0], Command::SetForegroundColor(Color::Green)));
    assert!(matches!(commands[1], Command::SetCursor(Point { x: 9, y: 0 })));
    assert!(matches!(commands[2], Command::WriteChar('\u{2584}')));
    assert!(matches!(commands[3], Command::ResetColors));
}

#[test]
fn redraw_leaves_the_grid_unchanged() {
    let mut t = term();
    let mut canvas = Canvas::new();
    canvas.half_block(&mut t, Point { x: 1, y: 2 }, Color::Red);
    canvas.half_block(&mut t, Point { x: 1, y: 3 }, Color::Blue);
    canvas.write_character(Point { x: 7, y: 0 }, 'q');
    let before = canvas.cells.clone();
    canvas.redraw(&mut t);
    assert_eq!(canvas.cells, before);
}

#[test]
fn border_draws_a_square_outline() {
    let mut t = term();
    let mut canvas = Canvas::new();
    canvas.resize_terminal(Size {
        width: 40,
        height: 20,
    });
    let corner = canvas.border(&mut t, 6, Color::White);
    assert_eq!(corner, Point { x: 17, y: 17 });
    assert_eq!(canvas.get_color(corner), Color::White);
    assert_eq!(
        canvas.get_color(Point {
            x: corner.x + 5,
            y: corner.y
        }),
        Color::White
    );
    // inside the outline nothing is painted
    assert_eq!(
        canvas.get_color(Point {
            x: corner.x + 2,
            y: corner.y + 2
        }),
        Color::Black
    );
}
