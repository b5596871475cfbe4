use blockpaint::canvas::tools::Tool;
use blockpaint::event::{Mode, Session};
use blockpaint::input::Field;
use blockpaint::palette::colors::{get_color, ClickableColor};
use blockpaint::terminal::event::{Event, EventKind, KeyEvent, KeyModifier, MouseButton, MouseEvent};
use blockpaint::terminal::{Command, Terminal};
use blockpaint::util::{Color, Point, Size};
use blockpaint::window;

fn term() -> Terminal {
    Terminal::new(Size {
        width: 80,
        height: 24,
    })
}

fn key(k: KeyEvent) -> Event {
    Event::Key(k)
}

#[test]
fn number_keys_switch_tools() {
    let mut t = term();
    let mut session = Session::new();
    assert_eq!(session.state.tool, Tool::Brush);
    session.step(&mut t, &key(KeyEvent::Char('2', None)));
    assert_eq!(session.state.tool, Tool::Quill);
    session.step(&mut t, &key(KeyEvent::Char('3', None)));
    assert_eq!(session.state.tool, Tool::Rectangle);
    session.step(&mut t, &key(KeyEvent::Char('4', None)));
    assert_eq!(session.state.tool, Tool::Bucket);
    session.step(&mut t, &key(KeyEvent::Char('1', None)));
    assert_eq!(session.state.tool, Tool::Brush);
}

#[test]
fn escape_ends_the_session() {
    let mut t = term();
    let mut session = Session::new();
    assert!(session.step(&mut t, &key(KeyEvent::Char('x', None))));
    assert!(!session.step(&mut t, &key(KeyEvent::Esc)));
    let mut session = Session::new();
    assert!(!session.step(
        &mut t,
        &key(KeyEvent::Char('c', Some(KeyModifier::Control)))
    ));
}

#[test]
fn scroll_changes_the_tool_size() {
    let mut t = term();
    let mut session = Session::new();
    let up = Event::Mouse(MouseEvent {
        kind: EventKind::ScrollUp,
        point: Point { x: 0, y: 0 },
    });
    let down = Event::Mouse(MouseEvent {
        kind: EventKind::ScrollDown,
        point: Point { x: 0, y: 0 },
    });
    session.step(&mut t, &up);
    assert_eq!(session.state.tool_size, 2);
    session.step(&mut t, &down);
    assert_eq!(session.state.tool_size, 1);
    // the size never drops below one
    session.step(&mut t, &down);
    assert_eq!(session.state.tool_size, 1);
}

#[test]
fn a_press_paints_and_records_an_operation() {
    let mut t = term();
    let mut session = Session::new();
    session.primary_canvas.resize_terminal(Size {
        width: 80,
        height: 24,
    });
    let press = Event::Mouse(MouseEvent {
        kind: EventKind::Press(MouseButton::Left),
        point: Point { x: 5, y: 3 },
    });
    session.step(&mut t, &press);
    // the pointer row is doubled into half-block space
    assert_eq!(
        session.primary_canvas.get_color(Point { x: 5, y: 6 }),
        Color::White
    );
    assert_eq!(session.undo_redo_buffer.buffer.len(), 1);
    assert_eq!(session.state.last_point, Some(Point { x: 5, y: 6 }));
    // an undo key rolls the stroke back
    session.step(&mut t, &key(KeyEvent::Char('z', None)));
    assert_eq!(
        session.primary_canvas.get_color(Point { x: 5, y: 6 }),
        Color::Black
    );
    // and a redo key repaints it
    session.step(&mut t, &key(KeyEvent::Char('y', None)));
    assert_eq!(
        session.primary_canvas.get_color(Point { x: 5, y: 6 }),
        Color::White
    );
}

#[test]
fn tab_opens_and_closes_the_palette() {
    let mut t = term();
    let mut session = Session::new();
    session.step(&mut t, &key(KeyEvent::Tab));
    assert_eq!(session.mode, Mode::Palette);
    assert_eq!(session.clickable_colors.len(), 248);
    session.step(&mut t, &key(KeyEvent::Tab));
    assert_eq!(session.mode, Mode::Normal);
    assert_eq!(session.clickable_colors.len(), 0);
}

#[test]
fn palette_lays_out_the_named_colors_first() {
    let mut t = term();
    let mut session = Session::new();
    session.step(&mut t, &key(KeyEvent::Tab));
    // an 80 x 24 terminal centers the palette corner at (27, 6)
    let first = session.clickable_colors[0];
    assert_eq!(first.color, Color::Black);
    assert_eq!(first.point, Point { x: 32, y: 6 });
    assert_eq!(first.width, 2);
    let second = session.clickable_colors[1];
    assert_eq!(second.color, Color::Red);
    assert_eq!(second.point, Point { x: 34, y: 6 });
    // the grayscale ramp sits on the last palette row
    let gray = session.clickable_colors[224];
    assert_eq!(gray.color, Color::ByteColor(232));
    assert_eq!(gray.point, Point { x: 28, y: 16 });
}

#[test]
fn palette_release_binds_a_swatch_color() {
    let mut t = term();
    let mut session = Session::new();
    session.step(&mut t, &key(KeyEvent::Tab));
    assert_eq!(session.mode, Mode::Palette);
    // pick some swatch and release the left button on it
    let swatch = session.clickable_colors[20];
    let release = Event::Mouse(MouseEvent {
        kind: EventKind::Release(MouseButton::Left),
        point: swatch.point,
    });
    session.step(&mut t, &release);
    assert_eq!(session.state.left_color, swatch.color);
}

#[test]
fn color_picker_takes_a_color_from_the_canvas() {
    let mut t = term();
    let mut session = Session::new();
    session.primary_canvas.resize_terminal(Size {
        width: 80,
        height: 24,
    });
    // paint a known cell, then middle-release over it
    session
        .primary_canvas
        .half_block(&mut t, Point { x: 4, y: 8 }, Color::Magenta);
    let open = Event::Mouse(MouseEvent {
        kind: EventKind::Release(MouseButton::Middle),
        point: Point { x: 4, y: 4 },
    });
    session.step(&mut t, &open);
    assert_eq!(session.mode, Mode::ColorPicker);
    let pick = Event::Mouse(MouseEvent {
        kind: EventKind::Release(MouseButton::Left),
        point: Point { x: 4, y: 4 },
    });
    session.step(&mut t, &pick);
    assert_eq!(session.state.left_color, Color::Magenta);
    assert_eq!(session.mode, Mode::Normal);
}

#[test]
fn resize_updates_every_size() {
    let mut t = term();
    let mut session = Session::new();
    let new_size = Size {
        width: 100,
        height: 30,
    };
    session.step(&mut t, &Event::Resize(new_size));
    assert_eq!(t.size, new_size);
    assert_eq!(session.primary_canvas.size, new_size);
    assert_eq!(session.secondary_canvas.size, new_size);
}

#[test]
fn main_loop_stops_at_escape() {
    let mut t = term();
    let events = vec![
        key(KeyEvent::Char('2', None)),
        key(KeyEvent::Esc),
        key(KeyEvent::Char('3', None)),
    ];
    blockpaint::event::main_loop(&mut t, &events);
    // commands were queued for the help text at least
    assert!(!t.commands.is_empty());
}

#[test]
fn take_commands_drains_the_queue() {
    let mut t = term();
    t.write("hello");
    t.flush();
    let commands = t.take_commands();
    assert_eq!(commands.len(), 2);
    assert!(matches!(&commands[0], Command::Write(s) if s == "hello"));
    assert!(matches!(commands[1], Command::Flush));
    assert!(t.take_commands().is_empty());
}

#[test]
fn clickable_color_hit_test_finds_the_first_strip() {
    let strips = vec![
        ClickableColor {
            point: Point { x: 10, y: 5 },
            width: 2,
            color: Color::Red,
        },
        ClickableColor {
            point: Point { x: 10, y: 5 },
            width: 4,
            color: Color::Blue,
        },
    ];
    assert_eq!(
        get_color(&strips, Point { x: 11, y: 5 }),
        Some(Color::Red)
    );
    assert_eq!(
        get_color(&strips, Point { x: 13, y: 5 }),
        Some(Color::Blue)
    );
    assert_eq!(get_color(&strips, Point { x: 14, y: 5 }), None);
    assert_eq!(get_color(&strips, Point { x: 11, y: 6 }), None);
}

#[test]
fn entry_field_editing_and_word_movement() {
    let mut field = Field::new(Point { x: 3, y: 3 }, String::new());
    for c in "ab 12".chars() {
        field.write(c);
    }
    assert_eq!(field.input().iter().collect::<String>(), "ab 12");
    assert_eq!(field.cursor_x, 5);
    field.remove_char();
    assert_eq!(field.input().iter().collect::<String>(), "ab 1");
    field.move_cursor_to_word_to_left();
    assert_eq!(field.cursor_x, 2);
    field.remove_word_to_left_of_cursor();
    assert_eq!(field.input().iter().collect::<String>(), "ab");
    assert_eq!(field.cursor_x, 0);
}

#[test]
fn window_draw_returns_the_centered_corner() {
    let mut t = term();
    let corner = window::draw(&mut t, 10, Color::White);
    // a 12-wide, 6-tall frame centered on an 80 x 24 terminal
    assert_eq!(corner, Point { x: 34, y: 9 });
    assert!(!t.commands.is_empty());
}
