//! A console of 25 rows of 80 characters on the frame buffer.
//!
//! The console keeps the text it shows. When the last row is full, or ends,
//! the text moves up by one row and the console is drawn anew.

use crate::graphics::{Color, Colors, FrameBuffer, Position, Region, StencilView};
use crate::text::{saturated, shifted, Font, Screen};
use vstd::prelude::*;

verus! {

/// Rows of the console.
pub const ROWS: usize = 25;

/// Characters in one row.
pub const COLUMNS: usize = 80;

/// Width of the console in pixels.
pub const WIDTH: usize = 640;

/// Height of the console in pixels.
pub const HEIGHT: usize = 400;

/// The character of a place where nothing was written.
pub const BLANK: char = '\0';

/// A row in which nothing was written: one place more than a row shows.
pub open spec fn blank_line() -> Seq<char> {
    Seq::new((COLUMNS + 1) as nat, |i: int| BLANK)
}

/// A console, seen from outside.
pub struct ConsoleView {
    pub position: Position,
    pub column: int,
    pub row: int,
    pub background: Color,
    pub foreground: Color,
    pub lines: Seq<Seq<char>>,
}

impl ConsoleView {
    /// The cursor stands on the console, and the console has all its rows.
    pub open spec fn wf(self) -> bool {
        &&& 0 <= self.column < COLUMNS
        &&& 0 <= self.row < ROWS
        &&& self.lines.len() == ROWS
        &&& forall|i: int| 0 <= i < ROWS ==> (#[trigger] self.lines[i]).len() == COLUMNS + 1
    }

    /// The part of the screen that the console takes.
    pub open spec fn region(self) -> Region {
        Region { position: self.position, width: WIDTH, height: HEIGHT }
    }

    /// Where on the screen the cursor stands.
    pub open spec fn place(self) -> Position {
        Position {
            x: saturated(self.position.x + 8 * self.column) as usize,
            y: saturated(self.position.y + 16 * self.row) as usize,
        }
    }

    /// Where on the screen row `i` starts.
    pub open spec fn line_place(self, i: int) -> Position {
        Position { x: self.position.x, y: saturated(self.position.y + 16 * i) as usize }
    }

    /// The rows after the text moved up by one.
    pub open spec fn scrolled(self) -> Seq<Seq<char>> {
        self.lines.subrange(1, ROWS as int).push(blank_line())
    }

    /// The screen after the console's background and its first `n` rows
    /// were drawn.
    pub open spec fn redrawn(self, screen: Screen, font: Seq<Seq<u8>>, n: int) -> Screen
        decreases n,
    {
        if n <= 0 {
            screen.painted(StencilView::all(self.region()), self.background)
        } else {
            self.redrawn(screen, font, n - 1).with_chars(
                font,
                self.line_place(n - 1),
                self.lines[n - 1],
                self.foreground,
                COLUMNS + 1,
            )
        }
    }

    /// The cursor goes to the start of the next row. From the last row the
    /// text moves up instead and the console is drawn anew.
    pub open spec fn new_line(self, screen: Screen, font: Seq<Seq<u8>>) -> (ConsoleView, Screen) {
        if self.row < ROWS - 1 {
            (ConsoleView { column: 0, row: self.row + 1, ..self }, screen)
        } else {
            let moved = ConsoleView { column: 0, row: ROWS - 1, lines: self.scrolled(), ..self };
            (moved, moved.redrawn(screen, font, ROWS as int))
        }
    }

    /// The cursor goes one place on, and to a new line from the last place
    /// of a row.
    pub open spec fn next(self, screen: Screen, font: Seq<Seq<u8>>) -> (ConsoleView, Screen) {
        if self.column >= COLUMNS - 1 {
            self.new_line(screen, font)
        } else {
            (ConsoleView { column: self.column + 1, ..self }, screen)
        }
    }

    /// One character is written: a line break starts a new line; any other
    /// character is drawn at the cursor, kept, and the cursor goes on.
    pub open spec fn put(self, screen: Screen, font: Seq<Seq<u8>>, c: char) -> (
        ConsoleView,
        Screen,
    ) {
        if c == '\n' {
            self.new_line(screen, font)
        } else {
            (ConsoleView {
                lines: self.lines.update(self.row, self.lines[self.row].update(self.column, c)),
                ..self
            }).next(screen.with_ascii(font, self.place(), c, self.foreground), font)
        }
    }

    /// The first `n` characters of `text` are written.
    pub open spec fn written(self, screen: Screen, font: Seq<Seq<u8>>, text: Seq<char>, n: int) -> (
        ConsoleView,
        Screen,
    )
        decreases n,
    {
        if n <= 0 {
            (self, screen)
        } else {
            let before = self.written(screen, font, text, n - 1);
            before.0.put(before.1, font, text[n - 1])
        }
    }
}

/// The console.
#[derive(Debug)]
pub struct Console {
    position: Position,
    cursor: (usize, usize),
    background: Color,
    foreground: Color,
    buffer: Vec<Vec<char>>,
}

impl View for Console {
    type V = ConsoleView;

    closed spec fn view(&self) -> ConsoleView {
        ConsoleView {
            position: self.position,
            column: self.cursor.0 as int,
            row: self.cursor.1 as int,
            background: self.background,
            foreground: self.foreground,
            lines: Seq::new(self.buffer@.len(), |i: int| self.buffer@[i]@),
        }
    }
}

/// A row in which nothing was written.
fn blank_row() -> (row: Vec<char>)
    ensures
        row@ == blank_line(),
{
    let mut row: Vec<char> = Vec::new();
    let mut i: usize = 0;
    while i < COLUMNS + 1
        invariant
            i <= COLUMNS + 1,
            row@.len() == i,
            forall|k: int| 0 <= k < i ==> row@[k] == BLANK,
        decreases COLUMNS + 1 - i,
    {
        row.push(BLANK);
        i += 1;
    }
    assert(row@ =~= blank_line());
    row
}

impl Console {
    /// An empty console at the top left corner, black on white.
    pub fn new() -> (console: Console)
        ensures
            console@.wf(),
            console@ == (ConsoleView {
                position: Position { x: 0, y: 0 },
                column: 0,
                row: 0,
                background: Color { r: 0xff, g: 0xff, b: 0xff },
                foreground: Color { r: 0, g: 0, b: 0 },
                lines: Seq::new(ROWS as nat, |i: int| blank_line()),
            }),
    {
        let mut buffer: Vec<Vec<char>> = Vec::new();
        let mut i: usize = 0;
        while i < ROWS
            invariant
                i <= ROWS,
                buffer@.len() == i,
                forall|k: int| 0 <= k < i ==> (#[trigger] buffer@[k])@ == blank_line(),
            decreases ROWS - i,
        {
            buffer.push(blank_row());
            i += 1;
        }
        let console = Console {
            position: Position::zero(),
            cursor: (0, 0),
            background: Colors::white(),
            foreground: Colors::black(),
            buffer,
        };
        assert(console@.lines =~= Seq::new(ROWS as nat, |i: int| blank_line()));
        console
    }

    /// The console with its top left corner at `position`.
    pub fn with_position(self, position: Position) -> (console: Console)
        ensures
            console@ == (ConsoleView { position, ..self@ }),
    {
        let mut console = self;
        console.position = position;
        console
    }

    /// The console with the background `color`.
    pub fn with_background(self, color: Color) -> (console: Console)
        ensures
            console@ == (ConsoleView { background: color, ..self@ }),
    {
        let mut console = self;
        console.background = color;
        console
    }

    /// The console with text of colour `color`.
    pub fn with_foreground(self, color: Color) -> (console: Console)
        ensures
            console@ == (ConsoleView { foreground: color, ..self@ }),
    {
        let mut console = self;
        console.foreground = color;
        console
    }

    /// The part of the screen that the console takes.
    pub fn region(&self) -> (r: Region)
        ensures
            r == self@.region(),
    {
        Region::new(self.position, WIDTH, HEIGHT)
    }

    /// Where on the screen the cursor stands.
    pub fn position(&self) -> (r: Position)
        ensures
            r == self@.place(),
    {
        Position {
            x: shifted(self.position.x, 8, self.cursor.0),
            y: shifted(self.position.y, 16, self.cursor.1),
        }
    }

    /// Column and row of the cursor.
    pub fn cursor(&self) -> (r: (usize, usize))
        ensures
            r.0 == self@.column,
            r.1 == self@.row,
    {
        self.cursor
    }

    /// The text of row `row`, or nothing where the console has no such row.
    pub fn line(&self, row: usize) -> (r: Option<&Vec<char>>)
        ensures
            row < self@.lines.len() ==> r.is_some() && r.unwrap()@ == self@.lines[row as int],
            row >= self@.lines.len() ==> r.is_none(),
    {
        if row < self.buffer.len() {
            Some(&self.buffer[row])
        } else {
            None
        }
    }

    /// Moves the cursor one place on.
    pub fn next(&mut self, frame: &mut FrameBuffer, font: &Font)
        requires
            old(self)@.wf(),
        ensures
            final(self)@.wf(),
            (final(self)@, final(frame).screen()) == old(self)@.next(old(frame).screen(), font@),
            final(frame).spec_format() == old(frame).spec_format(),
            final(frame).spec_width() == old(frame).spec_width(),
            final(frame).spec_height() == old(frame).spec_height(),
    {
        if self.cursor.0 >= COLUMNS - 1 {
            self.new_line(frame, font);
        } else {
            self.cursor = (self.cursor.0 + 1, self.cursor.1);
        }
    }

    /// Moves the cursor to the start of the next row.
    pub fn new_line(&mut self, frame: &mut FrameBuffer, font: &Font)
        requires
            old(self)@.wf(),
        ensures
            final(self)@.wf(),
            (final(self)@, final(frame).screen()) == old(self)@.new_line(
                old(frame).screen(),
                font@,
            ),
            final(frame).spec_format() == old(frame).spec_format(),
            final(frame).spec_width() == old(frame).spec_width(),
            final(frame).spec_height() == old(frame).spec_height(),
    {
        if self.cursor.1 < ROWS - 1 {
            self.cursor = (0, self.cursor.1 + 1);
            return;
        }
        self.cursor = (0, ROWS - 1);
        frame.fill_in(self.region(), self.background);
        let first = self.buffer.remove(0);
        self.buffer.push(blank_row());
        assert(self@.lines =~= old(self)@.scrolled());
        let mut i: usize = 0;
        while i < ROWS
            invariant
                i <= ROWS,
                self@.wf(),
                self@ == (ConsoleView {
                    column: 0,
                    row: ROWS - 1,
                    lines: old(self)@.scrolled(),
                    ..old(self)@
                }),
                frame.screen() == self@.redrawn(old(frame).screen(), font@, i as int),
                frame.spec_format() == old(frame).spec_format(),
                frame.spec_width() == old(frame).spec_width(),
                frame.spec_height() == old(frame).spec_height(),
            decreases ROWS - i,
        {
            let place = Position { x: self.position.x, y: shifted(self.position.y, 16, i) };
            let line = &self.buffer[i];
            assert(line@ == self@.lines[i as int]);
            frame.write_chars(font, place, line.as_slice(), self.foreground);
            i += 1;
        }
    }

    /// Writes one character.
    pub fn put(&mut self, frame: &mut FrameBuffer, font: &Font, c: char)
        requires
            old(self)@.wf(),
        ensures
            final(self)@.wf(),
            (final(self)@, final(frame).screen()) == old(self)@.put(old(frame).screen(), font@, c),
            final(frame).spec_format() == old(frame).spec_format(),
            final(frame).spec_width() == old(frame).spec_width(),
            final(frame).spec_height() == old(frame).spec_height(),
    {
        if c == '\n' {
            self.new_line(frame, font);
            return;
        }
        frame.write_ascii(font, self.position(), c, self.foreground);
        let (x, y) = self.cursor;
        assert(self@.lines[y as int].len() == COLUMNS + 1);
        let mut row = self.buffer.remove(y);
        row.set(x, c);
        self.buffer.insert(y, row);
        assert(self@.lines =~= old(self)@.lines.update(
            y as int,
            old(self)@.lines[y as int].update(x as int, c),
        ));
        self.next(frame, font);
    }

    /// Writes `s`, character by character.
    pub fn write_str(&mut self, frame: &mut FrameBuffer, font: &Font, s: &str)
        requires
            old(self)@.wf(),
        ensures
            final(self)@.wf(),
            (final(self)@, final(frame).screen()) == old(self)@.written(
                old(frame).screen(),
                font@,
                s@,
                s@.len() as int,
            ),
            final(frame).spec_format() == old(frame).spec_format(),
            final(frame).spec_width() == old(frame).spec_width(),
            final(frame).spec_height() == old(frame).spec_height(),
    {
        let len: usize = s.unicode_len();
        let mut i: usize = 0;
        while i < len
            invariant
                i <= len,
                len == s@.len(),
                self@.wf(),
                (self@, frame.screen()) == old(self)@.written(
                    old(frame).screen(),
                    font@,
                    s@,
                    i as int,
                ),
                frame.spec_format() == old(frame).spec_format(),
                frame.spec_width() == old(frame).spec_width(),
                frame.spec_height() == old(frame).spec_height(),
            decreases len - i,
        {
            let c = s.get_char(i);
            self.put(frame, font, c);
            i += 1;
        }
    }
}

} // verus!
