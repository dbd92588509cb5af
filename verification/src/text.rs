//! Text on the frame buffer: glyphs of eight by sixteen pixels.
//!
//! Coordinates saturate at the largest `usize`: a place that far out has no
//! pixel on any screen.

use crate::graphics::{
    painted_bytes, Color, Colors, FrameBuffer, PixelWriter, Position, StencilView, FONT_HEIGHT,
    FONT_WIDTH,
};
use vstd::prelude::*;

verus! {

/// First character that a font has a glyph for: the space.
pub const FIRST_GLYPH: u32 = 0x20;

/// First character after the printable ones.
pub const END_OF_GLYPHS: u32 = 0x7f;

/// `a` limited to the largest `usize`.
pub open spec fn saturated(a: int) -> int {
    if a > usize::MAX {
        usize::MAX as int
    } else {
        a
    }
}

/// `base` moved on by `count` steps of `step`, saturating.
pub fn shifted(base: usize, step: usize, count: usize) -> (r: usize)
    ensures
        r == saturated(base + step * count),
{
    assert(0 <= step * count) by (nonlinear_arith);
    match step.checked_mul(count) {
        Some(distance) => base.saturating_add(distance),
        None => usize::MAX,
    }
}

/// The glyphs of the printable characters, from the space on, sixteen rows
/// of eight bits each.
pub struct Font {
    glyphs: Vec<[u8; 16]>,
}

impl View for Font {
    type V = Seq<Seq<u8>>;

    closed spec fn view(&self) -> Seq<Seq<u8>> {
        Seq::new(self.glyphs@.len(), |i: int| self.glyphs@[i]@)
    }
}

impl Font {
    /// The rows of the glyph of `c` in `glyphs`, if `c` is printable and
    /// `glyphs` reaches that far.
    pub open spec fn rows(glyphs: Seq<Seq<u8>>, c: char) -> Option<Seq<u8>> {
        let code = c as u32;
        if FIRST_GLYPH <= code < END_OF_GLYPHS && code - FIRST_GLYPH < glyphs.len() {
            Some(glyphs[code - FIRST_GLYPH])
        } else {
            None
        }
    }

    /// The font with the given glyphs, the first one for the space.
    pub fn new(glyphs: Vec<[u8; 16]>) -> (font: Font)
        ensures
            font@ == Seq::new(glyphs@.len(), |i: int| glyphs@[i]@),
    {
        Font { glyphs }
    }

    /// The glyph of `c`, or nothing where the font has none.
    pub fn glyph(&self, c: char) -> (r: Option<[u8; 16]>)
        ensures
            match Self::rows(self@, c) {
                Some(rows) => r.is_some() && r.unwrap()@ == rows,
                None => r.is_none(),
            },
    {
        let code: u32 = c as u32;
        if code < FIRST_GLYPH || code >= END_OF_GLYPHS {
            return None;
        }
        let index: usize = (code - FIRST_GLYPH) as usize;
        if index < self.glyphs.len() {
            Some(self.glyphs[index])
        } else {
            None
        }
    }
}

/// What is on a screen: its bytes, the pixels per scan line and the layout
/// of a pixel.
pub struct Screen {
    pub bytes: Seq<u8>,
    pub stride: int,
    pub writer: PixelWriter,
}

/// Where a text stands after some of its characters were written.
pub struct Pen {
    /// What is on the screen.
    pub screen: Screen,
    /// Number of line breaks passed.
    pub line: int,
    /// Where the current line started.
    pub x: int,
    pub y: int,
    /// Characters written in the current line.
    pub column: int,
}

impl Screen {
    /// The screen after `stencil` was painted in `color`.
    pub open spec fn painted(self, stencil: StencilView, color: Color) -> Screen {
        Screen {
            bytes: painted_bytes(self.bytes, self.stride, self.writer, stencil, color),
            ..self
        }
    }

    /// The screen after the glyph of `c` was drawn with its corner at
    /// `position`; a character without a glyph leaves the screen as it is.
    pub open spec fn with_ascii(
        self,
        font: Seq<Seq<u8>>,
        position: Position,
        c: char,
        color: Color,
    ) -> Screen {
        match Font::rows(font, c) {
            Some(rows) => self.painted(StencilView::glyph(position, rows), color),
            None => self,
        }
    }

    /// Where character `i` of a row of characters that starts at `position`
    /// is drawn: `i` glyph widths to the right and one glyph height down.
    pub open spec fn char_place(position: Position, i: int) -> Position {
        Position {
            x: saturated(position.x + FONT_WIDTH * i) as usize,
            y: saturated(position.y + FONT_HEIGHT) as usize,
        }
    }

    /// The screen after the first `n` of `chars` were drawn from `position`.
    pub open spec fn with_chars(
        self,
        font: Seq<Seq<u8>>,
        position: Position,
        chars: Seq<char>,
        color: Color,
        n: int,
    ) -> Screen
        decreases n,
    {
        if n <= 0 {
            self
        } else {
            self.with_chars(font, position, chars, color, n - 1).with_ascii(
                font,
                Self::char_place(position, n - 1),
                chars[n - 1],
                color,
            )
        }
    }

    /// The pen after a text's first `n` characters were written from
    /// `position`. A line break moves the pen to the left edge and down by
    /// as many glyph heights as line breaks were passed; any other
    /// character is drawn as by `with_chars`.
    pub open spec fn with_string(
        self,
        font: Seq<Seq<u8>>,
        position: Position,
        text: Seq<char>,
        color: Color,
        n: int,
    ) -> Pen
        decreases n,
    {
        if n <= 0 {
            Pen { screen: self, line: 0, x: position.x as int, y: position.y as int, column: 0 }
        } else {
            let pen = self.with_string(font, position, text, color, n - 1);
            if text[n - 1] == '\n' {
                Pen {
                    screen: pen.screen,
                    line: saturated(pen.line + 1),
                    x: 0,
                    y: saturated(pen.y + FONT_HEIGHT * saturated(pen.line + 1)),
                    column: 0,
                }
            } else {
                Pen {
                    screen: pen.screen.with_ascii(
                        font,
                        Self::char_place(
                            Position { x: pen.x as usize, y: pen.y as usize },
                            pen.column,
                        ),
                        text[n - 1],
                        color,
                    ),
                    column: saturated(pen.column + 1),
                    ..pen
                }
            }
        }
    }
}

impl Pen {
    /// Where the text ends: after the last character of the last line.
    pub open spec fn end(self) -> Position {
        Position { x: saturated(self.x + FONT_WIDTH * self.column) as usize, y: self.y as usize }
    }
}

impl FrameBuffer {
    /// What is on the screen.
    pub open spec fn screen(&self) -> Screen {
        Screen { bytes: self@, stride: self.spec_pixels_per_scan_line(), writer: self.writer() }
    }

    /// Draws the glyph of `c` with its corner at `position`. A character
    /// that the font has no glyph for leaves the screen as it is.
    pub fn write_ascii(&mut self, font: &Font, position: Position, c: char, color: Color)
        ensures
            final(self).screen() == old(self).screen().with_ascii(font@, position, c, color),
            final(self).spec_format() == old(self).spec_format(),
            final(self).spec_width() == old(self).spec_width(),
            final(self).spec_height() == old(self).spec_height(),
    {
        match font.glyph(c) {
            Some(glyph) => {
                self.write_glyph(position, &glyph, color);
            },
            None => {},
        }
    }

    /// Draws `chars` in a row: character `i` has its corner `i` glyph widths
    /// to the right of `position` and one glyph height below it.
    pub fn write_chars(&mut self, font: &Font, position: Position, chars: &[char], color: Color)
        ensures
            final(self).screen() == old(self).screen().with_chars(
                font@,
                position,
                chars@,
                color,
                chars@.len() as int,
            ),
            final(self).spec_format() == old(self).spec_format(),
            final(self).spec_width() == old(self).spec_width(),
            final(self).spec_height() == old(self).spec_height(),
    {
        let y: usize = position.y.saturating_add(FONT_HEIGHT);
        let mut i: usize = 0;
        while i < chars.len()
            invariant
                i <= chars@.len(),
                y == saturated(position.y + FONT_HEIGHT),
                self.screen() == old(self).screen().with_chars(
                    font@,
                    position,
                    chars@,
                    color,
                    i as int,
                ),
                self.spec_format() == old(self).spec_format(),
                self.spec_width() == old(self).spec_width(),
                self.spec_height() == old(self).spec_height(),
            decreases chars@.len() - i,
        {
            let place = Position { x: shifted(position.x, FONT_WIDTH, i), y };
            assert(place == Screen::char_place(position, i as int));
            self.write_ascii(font, place, chars[i], color);
            i += 1;
        }
    }

    /// Writes `string` from `position` and returns where it ends. See
    /// [`Screen::with_string`] for where each character goes.
    pub fn write_string(&mut self, font: &Font, position: Position, string: &str, color: Color) -> (r:
        Position)
        ensures
            final(self).screen() == old(self).screen().with_string(
                font@,
                position,
                string@,
                color,
                string@.len() as int,
            ).screen,
            r == old(self).screen().with_string(
                font@,
                position,
                string@,
                color,
                string@.len() as int,
            ).end(),
            final(self).spec_format() == old(self).spec_format(),
            final(self).spec_width() == old(self).spec_width(),
            final(self).spec_height() == old(self).spec_height(),
    {
        let len: usize = string.unicode_len();
        let mut line: usize = 0;
        let mut x: usize = position.x;
        let mut y: usize = position.y;
        let mut column: usize = 0;
        let mut i: usize = 0;
        while i < len
            invariant
                i <= len,
                len == string@.len(),
                old(self).screen().with_string(font@, position, string@, color, i as int) == (Pen {
                    screen: self.screen(),
                    line: line as int,
                    x: x as int,
                    y: y as int,
                    column: column as int,
                }),
                self.spec_format() == old(self).spec_format(),
                self.spec_width() == old(self).spec_width(),
                self.spec_height() == old(self).spec_height(),
            decreases len - i,
        {
            let c = string.get_char(i);
            if c == '\n' {
                line = line.saturating_add(1);
                x = 0;
                y = shifted(y, FONT_HEIGHT, line);
                column = 0;
            } else {
                let place = Position {
                    x: shifted(x, FONT_WIDTH, column),
                    y: y.saturating_add(FONT_HEIGHT),
                };
                assert(place == Screen::char_place(Position { x, y }, column as int));
                self.write_ascii(font, place, c, color);
                column = column.saturating_add(1);
            }
            i += 1;
        }
        Position { x: shifted(x, FONT_WIDTH, column), y }
    }
}

/// A writer that remembers where its text ended and goes on from there.
#[derive(Clone, Copy, Debug)]
pub struct BufTextWriter {
    position: Position,
    color: Color,
}

impl BufTextWriter {
    /// Where the next text starts.
    pub closed spec fn spec_position(&self) -> Position {
        self.position
    }

    /// The colour of the text.
    pub closed spec fn spec_color(&self) -> Color {
        self.color
    }

    /// A writer of black text from the top left corner.
    pub fn new() -> (w: BufTextWriter)
        ensures
            w.spec_position() == (Position { x: 0, y: 0 }),
            w.spec_color() == (Color { r: 0, g: 0, b: 0 }),
    {
        BufTextWriter { position: Position::zero(), color: Colors::black() }
    }

    /// The writer with its next text starting at `position`.
    pub fn with_position(self, position: Position) -> (w: BufTextWriter)
        ensures
            w.spec_position() == position,
            w.spec_color() == self.spec_color(),
    {
        BufTextWriter { position, color: self.color }
    }

    /// The writer with text of colour `color`.
    pub fn with_color(self, color: Color) -> (w: BufTextWriter)
        ensures
            w.spec_position() == self.spec_position(),
            w.spec_color() == color,
    {
        BufTextWriter { position: self.position, color }
    }

    /// Where the next text starts.
    pub fn position(&self) -> (r: Position)
        ensures
            r == self.spec_position(),
    {
        self.position
    }

    /// Writes `s` on `frame` from where the last text ended, and remembers
    /// where this one ends.
    pub fn write_str(&mut self, frame: &mut FrameBuffer, font: &Font, s: &str)
        ensures
            final(frame).screen() == old(frame).screen().with_string(
                font@,
                old(self).spec_position(),
                s@,
                old(self).spec_color(),
                s@.len() as int,
            ).screen,
            final(self).spec_position() == old(frame).screen().with_string(
                font@,
                old(self).spec_position(),
                s@,
                old(self).spec_color(),
                s@.len() as int,
            ).end(),
            final(self).spec_color() == old(self).spec_color(),
            final(frame).spec_format() == old(frame).spec_format(),
            final(frame).spec_width() == old(frame).spec_width(),
            final(frame).spec_height() == old(frame).spec_height(),
    {
        self.position = frame.write_string(font, self.position, s, self.color);
    }
}

} // verus!
