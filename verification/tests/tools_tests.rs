use blockpaint::canvas::tools::Tool;
use blockpaint::canvas::Canvas;
use blockpaint::event::undo_redo::{Operation, UndoRedoBuffer};
use blockpaint::terminal::Terminal;
use blockpaint::util::{Color, Point, Size};

fn term() -> Terminal {
    Terminal::new(Size {
        width: 80,
        height: 24,
    })
}

#[test]
fn blocks_paint_a_horizontal_run() {
    let mut t = term();
    let mut canvas = Canvas::new();
    canvas.blocks(&mut t, Point { x: 4, y: 9 }, Color::Red, 3);
    assert_eq!(canvas.get_color(Point { x: 4, y: 9 }), Color::Red);
    assert_eq!(canvas.get_color(Point { x: 5, y: 9 }), Color::Red);
    assert_eq!(canvas.get_color(Point { x: 6, y: 9 }), Color::Red);
    assert_eq!(canvas.get_color(Point { x: 3, y: 9 }), Color::Black);
    assert_eq!(canvas.get_color(Point { x: 7, y: 9 }), Color::Black);
}

#[test]
fn brush_size_two_stamps_a_plus() {
    let mut t = term();
    let mut canvas = Canvas::new();
    let p = Point { x: 10, y: 10 };
    canvas.brush(&mut t, p, Color::Green, 2);
    assert_eq!(canvas.get_color(p), Color::Green);
    assert_eq!(canvas.get_color(Point { x: 9, y: 10 }), Color::Green);
    assert_eq!(canvas.get_color(Point { x: 11, y: 10 }), Color::Green);
    assert_eq!(canvas.get_color(Point { x: 10, y: 9 }), Color::Green);
    assert_eq!(canvas.get_color(Point { x: 10, y: 11 }), Color::Green);
    // the diagonals stay empty
    assert_eq!(canvas.get_color(Point { x: 9, y: 9 }), Color::Black);
    assert_eq!(canvas.get_color(Point { x: 11, y: 11 }), Color::Black);
}

#[test]
fn quill_zigzags_around_the_anchor() {
    let mut t = term();
    let mut canvas = Canvas::new();
    let p = Point { x: 6, y: 10 };
    // offsets 0..=3 paint y, y (again), y+1 and y-1
    canvas.quill(&mut t, p, Color::Blue, 3);
    assert_eq!(canvas.get_color(Point { x: 6, y: 10 }), Color::Blue);
    assert_eq!(canvas.get_color(Point { x: 6, y: 11 }), Color::Blue);
    assert_eq!(canvas.get_color(Point { x: 6, y: 9 }), Color::Blue);
    assert_eq!(canvas.get_color(Point { x: 6, y: 12 }), Color::Black);
    assert_eq!(canvas.get_color(Point { x: 6, y: 8 }), Color::Black);
}

#[test]
fn draw_interpolates_between_drag_samples() {
    let mut t = term();
    let mut canvas = Canvas::new();
    let tool = Tool::Brush;
    // a fast drag from (2, 2) to (5, 2): the rasterized line covers the
    // start and the points between, exclusive of the end sample
    tool.draw(
        &mut canvas,
        &mut t,
        Point { x: 5, y: 2 },
        Some(Point { x: 2, y: 2 }),
        Color::Red,
        1,
    );
    assert_eq!(canvas.get_color(Point { x: 2, y: 2 }), Color::Red);
    assert_eq!(canvas.get_color(Point { x: 3, y: 2 }), Color::Red);
    assert_eq!(canvas.get_color(Point { x: 4, y: 2 }), Color::Red);
    assert_eq!(canvas.get_color(Point { x: 5, y: 2 }), Color::Black);
    assert_eq!(canvas.get_color(Point { x: 1, y: 2 }), Color::Black);
}

#[test]
fn draw_without_a_previous_sample_applies_once() {
    let mut t = term();
    let mut canvas = Canvas::new();
    let tool = Tool::Brush;
    tool.draw(&mut canvas, &mut t, Point { x: 9, y: 4 }, None, Color::Cyan, 1);
    assert_eq!(canvas.get_color(Point { x: 9, y: 4 }), Color::Cyan);
    assert_eq!(canvas.get_color(Point { x: 8, y: 4 }), Color::Black);
}

#[test]
fn draw_along_applies_the_tool_at_each_point() {
    let mut t = term();
    let mut canvas = Canvas::new();
    let tool = Tool::Brush;
    let points = vec![
        Point { x: 1, y: 1 },
        Point { x: 3, y: 5 },
        Point { x: 7, y: 2 },
    ];
    tool.draw_along(&mut canvas, &mut t, &points, Color::Yellow, 1);
    for p in points {
        assert_eq!(canvas.get_color(p), Color::Yellow);
    }
    assert_eq!(canvas.get_color(Point { x: 2, y: 1 }), Color::Black);
}

#[test]
fn rectangle_tool_draws_a_hollow_square() {
    let mut t = term();
    let mut canvas = Canvas::new();
    let tool = Tool::Rectangle;
    tool.draw(&mut canvas, &mut t, Point { x: 4, y: 4 }, None, Color::White, 3);
    assert_eq!(canvas.get_color(Point { x: 4, y: 4 }), Color::White);
    assert_eq!(canvas.get_color(Point { x: 6, y: 4 }), Color::White);
    assert_eq!(canvas.get_color(Point { x: 4, y: 6 }), Color::White);
    assert_eq!(canvas.get_color(Point { x: 6, y: 6 }), Color::White);
    assert_eq!(canvas.get_color(Point { x: 5, y: 5 }), Color::Black);
}

#[test]
fn undo_redo_round_trip_restores_the_canvas() {
    let mut t = term();
    let mut canvas = Canvas::new();
    canvas.resize_terminal(Size {
        width: 40,
        height: 12,
    });
    let mut buffer = UndoRedoBuffer::new();
    let strokes = [
        (Point { x: 2, y: 2 }, Color::Red),
        (Point { x: 3, y: 2 }, Color::Green),
        (Point { x: 4, y: 7 }, Color::Blue),
    ];
    for (p, c) in strokes {
        let op = Operation {
            tool: Tool::Brush,
            start: p,
            end: None,
            color: c,
            size: 1,
        };
        op.tool.draw(&mut canvas, &mut t, op.start, op.end, op.color, op.size);
        buffer.push(op);
    }
    let after_pushes = canvas.cells.clone();
    for _ in 0..3 {
        buffer.undo(&mut canvas, &mut t);
    }
    // everything is rolled back
    assert_eq!(canvas.get_color(Point { x: 2, y: 2 }), Color::Black);
    for _ in 0..3 {
        buffer.redo(&mut canvas, &mut t);
    }
    // the replayed state equals the state right after the pushes
    assert_eq!(canvas.cells, after_pushes);
}

#[test]
fn push_after_undo_discards_the_redo_branch() {
    let mut t = term();
    let mut canvas = Canvas::new();
    canvas.resize_terminal(Size {
        width: 40,
        height: 12,
    });
    let mut buffer = UndoRedoBuffer::new();
    for x in 0..3u8 {
        let op = Operation {
            tool: Tool::Brush,
            start: Point { x, y: 0 },
            end: None,
            color: Color::Red,
            size: 1,
        };
        op.tool.draw(&mut canvas, &mut t, op.start, op.end, op.color, op.size);
        buffer.push(op);
    }
    buffer.undo(&mut canvas, &mut t);
    buffer.undo(&mut canvas, &mut t);
    let op = Operation {
        tool: Tool::Brush,
        start: Point { x: 9, y: 9 },
        end: None,
        color: Color::Blue,
        size: 1,
    };
    buffer.push(op);
    // the log now holds (3 - 2) + 1 operations and redo has nothing to do
    assert_eq!(buffer.buffer.len(), 2);
    assert_eq!(buffer.cursor, 2);
    let before = canvas.cells.clone();
    buffer.redo(&mut canvas, &mut t);
    assert_eq!(buffer.cursor, 2);
    assert_eq!(canvas.cells, before);
}

#[test]
fn brush_stroke_undo_redo_scenario() {
    let mut t = term();
    let mut canvas = Canvas::new();
    canvas.resize_terminal(Size {
        width: 40,
        height: 12,
    });
    let mut buffer = UndoRedoBuffer::new();
    let op = Operation {
        tool: Tool::Brush,
        start: Point { x: 5, y: 6 },
        end: None,
        color: Color::Red,
        size: 1,
    };
    op.tool.draw(&mut canvas, &mut t, op.start, op.end, op.color, op.size);
    buffer.push(op);
    // the cell at (5, 6) shows red in the half its parity selects
    assert_eq!(canvas.get_color(Point { x: 5, y: 6 }), Color::Red);
    assert_eq!(
        canvas.get_cell(Point { x: 5, y: 6 }).upper_block,
        Some(Color::Red)
    );
    buffer.undo(&mut canvas, &mut t);
    // the cell reverts to its empty default
    assert_eq!(canvas.get_color(Point { x: 5, y: 6 }), Color::Black);
    assert_eq!(canvas.get_cell(Point { x: 5, y: 6 }).upper_block, None);
    buffer.redo(&mut canvas, &mut t);
    // red reappears identically
    assert_eq!(canvas.get_color(Point { x: 5, y: 6 }), Color::Red);
    assert_eq!(
        canvas.get_cell(Point { x: 5, y: 6 }).upper_block,
        Some(Color::Red)
    );
}

#[test]
fn bucket_tool_fills_through_draw() {
    let mut t = term();
    let mut canvas = Canvas::new();
    canvas.resize_terminal(Size {
        width: 3,
        height: 1,
    });
    let tool = Tool::Bucket;
    tool.draw(&mut canvas, &mut t, Point { x: 1, y: 1 }, None, Color::Magenta, 1);
    for x in 0..3u8 {
        for y in 0..2u8 {
            assert_eq!(canvas.get_color(Point { x, y }), Color::Magenta);
        }
    }
    assert_eq!(canvas.get_color(Point { x: 3, y: 0 }), Color::Black);
}
