use crate::util::{Color, Point, Size};
use vstd::prelude::*;
use vstd::string::StringExecFns;

pub mod event;

verus! {

/// The terminal width and height boundary: coordinates fit in one byte.
pub type SIZE = u8;

/// One instruction for the terminal back end. The core only records what the
/// screen should do; an unverified front end performs the commands against
/// the real terminal.
#[derive(Clone, Debug)]
pub enum Command {
    EnterAlternateScreen,
    LeaveAlternateScreen,
    SetTitle(String),
    EnableRawMode,
    DisableRawMode,
    EnableMouseCapture,
    DisableMouseCapture,
    ShowCursor,
    HideCursor,
    SetCursor(Point),
    MoveCursorLeft(SIZE),
    MoveCursorRight(SIZE),
    SetForegroundColor(Color),
    SetBackgroundColor(Color),
    ResetColors,
    Clear,
    Write(String),
    WriteChar(char),
    Flush,
}

/// The core's view of the terminal: its size in cells and the queue of
/// commands not yet performed by the front end.
pub struct Terminal {
    pub size: Size,
    pub commands: Vec<Command>,
}

/// A terminal after a drawing step: the same size, with the old command queue
/// as a prefix of the new one (drawing only appends commands).
pub open spec fn extends(before: Terminal, after: Terminal) -> bool {
    &&& after.size == before.size
    &&& before.commands@.is_prefix_of(after.commands@)
}

pub proof fn lemma_prefix_push(s: Seq<Command>, c: Command)
    ensures
        s.is_prefix_of(s.push(c)),
{
    assert(s =~= s.push(c).subrange(0, s.len() as int));
}

pub proof fn lemma_extends_trans(a: Terminal, b: Terminal, c: Terminal)
    requires
        extends(a, b),
        extends(b, c),
    ensures
        extends(a, c),
{
    assert(a.commands@ =~= c.commands@.subrange(0, a.commands@.len() as int));
}

/// Ambient transitivity of the command-queue prefix order, for code whose
/// steps may also change the stored terminal size.
pub broadcast proof fn lemma_prefix_trans_auto(a: Seq<Command>, b: Seq<Command>, c: Seq<Command>)
    requires
        #[trigger] a.is_prefix_of(b),
        #[trigger] b.is_prefix_of(c),
    ensures
        a.is_prefix_of(c),
{
    assert(a =~= c.subrange(0, a.len() as int));
}

/// Ambient form of the transitivity above, for code that chains many
/// drawing steps.
pub broadcast proof fn lemma_extends_trans_auto(a: Terminal, b: Terminal, c: Terminal)
    requires
        #[trigger] extends(a, b),
        #[trigger] extends(b, c),
    ensures
        extends(a, c),
{
    lemma_extends_trans(a, b, c);
}

impl Terminal {
    /// The size is queried from the real terminal by the front end, once at
    /// startup; afterwards it is updated from resize events.
    pub fn new(size: Size) -> (t: Terminal)
        ensures
            t.size == size,
            t.commands@ == Seq::<Command>::empty(),
    {
        Terminal { size, commands: Vec::new() }
    }

    /// Hands the queued commands to the front end and empties the queue.
    pub fn take_commands(&mut self) -> (r: Vec<Command>)
        ensures
            r@ == old(self).commands@,
            final(self).commands@ == Seq::<Command>::empty(),
            final(self).size == old(self).size,
    {
        let mut taken = Vec::new();
        core::mem::swap(&mut taken, &mut self.commands);
        taken
    }

    fn push_command(&mut self, command: Command)
        ensures
            final(self).commands@ == old(self).commands@.push(command),
            final(self).size == old(self).size,
            extends(*old(self), *final(self)),
    {
        let ghost pre = self.commands@;
        self.commands.push(command);
        proof {
            lemma_prefix_push(pre, command);
        }
    }

    pub fn write(&mut self, string: &str)
        ensures
            final(self).commands@.len() == old(self).commands@.len() + 1,
            (final(self).commands@.last() matches Command::Write(s) && s@ == string@),
            extends(*old(self), *final(self)),
    {
        self.push_command(Command::Write(String::from_str(string)));
    }

    pub fn write_char(&mut self, character: char)
        ensures
            final(self).commands@ == old(self).commands@.push(Command::WriteChar(character)),
            extends(*old(self), *final(self)),
    {
        self.push_command(Command::WriteChar(character));
    }

    pub fn flush(&mut self)
        ensures
            final(self).commands@ == old(self).commands@.push(Command::Flush),
            extends(*old(self), *final(self)),
    {
        self.push_command(Command::Flush);
    }

    /// The top-left corner at which a box of the given size sits centered on
    /// this terminal. The box must not be wider or taller than the terminal.
    pub fn get_centered_border_point(&self, size: &Size) -> (p: Point)
        requires
            size.width / 2 <= self.size.width / 2,
            size.height / 2 <= self.size.height / 2,
        ensures
            p.x == self.size.width / 2 - size.width / 2,
            p.y == self.size.height / 2 - size.height / 2,
    {
        Point {
            x: self.size.width / 2 - size.width / 2,
            y: self.size.height / 2 - size.height / 2,
        }
    }

    pub fn set_cursor(&mut self, point: Point)
        ensures
            final(self).commands@ == old(self).commands@.push(Command::SetCursor(point)),
            extends(*old(self), *final(self)),
    {
        self.push_command(Command::SetCursor(point));
    }

    pub fn move_cursor_left(&mut self, cells: SIZE)
        ensures
            final(self).commands@ == old(self).commands@.push(Command::MoveCursorLeft(cells)),
            extends(*old(self), *final(self)),
    {
        self.push_command(Command::MoveCursorLeft(cells));
    }

    pub fn move_cursor_right(&mut self, cells: SIZE)
        ensures
            final(self).commands@ == old(self).commands@.push(Command::MoveCursorRight(cells)),
            extends(*old(self), *final(self)),
    {
        self.push_command(Command::MoveCursorRight(cells));
    }

    pub fn set_foreground_color(&mut self, color: Color)
        ensures
            final(self).commands@ == old(self).commands@.push(Command::SetForegroundColor(color)),
            extends(*old(self), *final(self)),
    {
        self.push_command(Command::SetForegroundColor(color));
    }

    pub fn set_background_color(&mut self, color: Color)
        ensures
            final(self).commands@ == old(self).commands@.push(Command::SetBackgroundColor(color)),
            extends(*old(self), *final(self)),
    {
        self.push_command(Command::SetBackgroundColor(color));
    }

    pub fn reset_colors(&mut self)
        ensures
            final(self).commands@ == old(self).commands@.push(Command::ResetColors),
            extends(*old(self), *final(self)),
    {
        self.push_command(Command::ResetColors);
    }

    pub fn show_cursor(&mut self)
        ensures
            final(self).commands@ == old(self).commands@.push(Command::ShowCursor),
            extends(*old(self), *final(self)),
    {
        self.push_command(Command::ShowCursor);
    }

    pub fn hide_cursor(&mut self)
        ensures
            final(self).commands@ == old(self).commands@.push(Command::HideCursor),
            extends(*old(self), *final(self)),
    {
        self.push_command(Command::HideCursor);
    }

    pub fn enter_alternate_dimension(&mut self)
        ensures
            final(self).commands@ == old(self).commands@.push(Command::EnterAlternateScreen),
            extends(*old(self), *final(self)),
    {
        self.push_command(Command::EnterAlternateScreen);
    }

    pub fn exit_alternate_dimension(&mut self)
        ensures
            final(self).commands@ == old(self).commands@.push(Command::LeaveAlternateScreen),
            extends(*old(self), *final(self)),
    {
        self.push_command(Command::LeaveAlternateScreen);
    }

    pub fn enable_raw_mode(&mut self)
        ensures
            final(self).commands@ == old(self).commands@.push(Command::EnableRawMode),
            extends(*old(self), *final(self)),
    {
        self.push_command(Command::EnableRawMode);
    }

    pub fn disable_raw_mode(&mut self)
        ensures
            final(self).commands@ == old(self).commands@.push(Command::DisableRawMode),
            extends(*old(self), *final(self)),
    {
        self.push_command(Command::DisableRawMode);
    }

    pub fn enable_mouse_capture(&mut self)
        ensures
            final(self).commands@ == old(self).commands@.push(Command::EnableMouseCapture),
            extends(*old(self), *final(self)),
    {
        self.push_command(Command::EnableMouseCapture);
    }

    pub fn disable_mouse_capture(&mut self)
        ensures
            final(self).commands@ == old(self).commands@.push(Command::DisableMouseCapture),
            extends(*old(self), *final(self)),
    {
        self.push_command(Command::DisableMouseCapture);
    }

    pub fn set_title(&mut self, title: &str)
        ensures
            final(self).commands@.len() == old(self).commands@.len() + 1,
            (final(self).commands@.last() matches Command::SetTitle(s) && s@ == title@),
            extends(*old(self), *final(self)),
    {
        self.push_command(Command::SetTitle(String::from_str(title)));
    }

    /// Queues a full screen clear with the colors reset first.
    pub fn clear(&mut self)
        ensures
            final(self).commands@ == old(self).commands@.push(Command::ResetColors).push(
                Command::Clear,
            ),
            extends(*old(self), *final(self)),
    {
        self.push_command(Command::ResetColors);
        self.push_command(Command::Clear);
        proof {
            assert(old(self).commands@ =~= self.commands@.subrange(
                0,
                old(self).commands@.len() as int,
            ));
        }
    }

    /// Queues everything the screen needs before the editor starts.
    pub fn initialize(&mut self)
        ensures
            final(self).commands@ == old(self).commands@.push(Command::EnterAlternateScreen).push(
                Command::EnableRawMode,
            ).push(Command::EnableMouseCapture).push(Command::HideCursor).push(Command::Flush),
            extends(*old(self), *final(self)),
    {
        self.enter_alternate_dimension();
        self.enable_raw_mode();
        self.enable_mouse_capture();
        self.hide_cursor();
        self.flush();
        proof {
            assert(old(self).commands@ =~= self.commands@.subrange(
                0,
                old(self).commands@.len() as int,
            ));
        }
    }

    /// Queues everything that restores the screen when the editor exits.
    pub fn deinitialize(&mut self)
        ensures
            final(self).commands@ == old(self).commands@.push(Command::ShowCursor).push(
                Command::DisableMouseCapture,
            ).push(Command::DisableRawMode).push(Command::LeaveAlternateScreen).push(Command::Flush),
            extends(*old(self), *final(self)),
    {
        self.show_cursor();
        self.disable_mouse_capture();
        self.disable_raw_mode();
        self.exit_alternate_dimension();
        self.flush();
        proof {
            assert(old(self).commands@ =~= self.commands@.subrange(
                0,
                old(self).commands@.len() as int,
            ));
        }
    }
}

} // verus!
