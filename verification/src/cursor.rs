//! The mouse cursor: an arrow of 15 by 24 pixels, black with a white core.

use crate::graphics::{Color, Colors, FrameBuffer, Position, Region, StencilView};
use crate::text::Screen;
use vstd::prelude::*;

verus! {

/// Width of the cursor in pixels.
pub const MOUSE_CURSOR_WIDTH: usize = 15;

/// Height of the cursor in pixels.
pub const MOUSE_CURSOR_HEIGHT: usize = 24;

/// Column of the screen at which the cursor's left edge is drawn.
pub const MOUSE_CURSOR_X: usize = 200;

/// Row of the screen at which the cursor's top edge is drawn.
pub const MOUSE_CURSOR_Y: usize = 100;

/// How a place of the cursor's shape is drawn.
#[derive(Clone, Copy, Debug, PartialEq, Eq)]
pub enum Cell {
    /// Part of the black edge.
    Edge,
    /// Part of the white core.
    Core,
    /// Not part of the cursor.
    Clear,
}

/// The edge of the shape: for each row one bit for each column, the
/// leftmost column in bit 14.
pub const EDGE: [u16; 24] = [
    0b100000000000000,
    0b110000000000000,
    0b101000000000000,
    0b100100000000000,
    0b100010000000000,
    0b100001000000000,
    0b100000100000000,
    0b100000010000000,
    0b100000001000000,
    0b100000000100000,
    0b100000000010000,
    0b100000000001000,
    0b100000000000100,
    0b100000000000010,
    0b100000011111111,
    0b100000010000000,
    0b100001101000000,
    0b100010101000000,
    0b100100010100000,
    0b101000010100000,
    0b110000001010000,
    0b100000001010000,
    0b000000000101000,
    0b000000000111000,
];

/// The core of the shape, laid out as the edge is.
pub const CORE: [u16; 24] = [
    0b000000000000000,
    0b000000000000000,
    0b010000000000000,
    0b011000000000000,
    0b011100000000000,
    0b011110000000000,
    0b011111000000000,
    0b011111100000000,
    0b011111110000000,
    0b011111111000000,
    0b011111111100000,
    0b011111111110000,
    0b011111111111000,
    0b011111111111100,
    0b011111100000000,
    0b011111100000000,
    0b011110010000000,
    0b011100010000000,
    0b011000001000000,
    0b010000001000000,
    0b000000000100000,
    0b000000000100000,
    0b000000000010000,
    0b000000000000000,
];

/// Whether bit `14 - x` of `bits` is set.
pub open spec fn has_bit(bits: u16, x: int) -> bool {
    (bits >> ((14 - x) as u16)) & 1 == 1
}

/// How the place in column `x` of row `y` of the shape is drawn.
pub open spec fn spec_cell(x: int, y: int) -> Cell {
    if has_bit(EDGE[y], x) {
        Cell::Edge
    } else if has_bit(CORE[y], x) {
        Cell::Core
    } else {
        Cell::Clear
    }
}

/// How the place in column `x` of row `y` of the shape is drawn.
pub fn cell(x: usize, y: usize) -> (c: Cell)
    requires
        x < MOUSE_CURSOR_WIDTH,
        y < MOUSE_CURSOR_HEIGHT,
    ensures
        c == spec_cell(x as int, y as int),
{
    let shift: u16 = (14 - x) as u16;
    if (EDGE[y] >> shift) & 1 == 1 {
        Cell::Edge
    } else if (CORE[y] >> shift) & 1 == 1 {
        Cell::Core
    } else {
        Cell::Clear
    }
}

/// The one place in column `x` of row `y` of the cursor on the screen.
pub open spec fn cell_region(x: int, y: int) -> Region {
    Region {
        position: Position { x: (MOUSE_CURSOR_X + x) as usize, y: (MOUSE_CURSOR_Y + y) as usize },
        width: 1,
        height: 1,
    }
}

/// The screen after place `k` of the shape was drawn, the places counted
/// row by row: black for the edge, white for the core, nothing otherwise.
pub open spec fn with_cell(screen: Screen, k: int) -> Screen {
    let x = k % (MOUSE_CURSOR_WIDTH as int);
    let y = k / (MOUSE_CURSOR_WIDTH as int);
    match spec_cell(x, y) {
        Cell::Edge => screen.painted(
            StencilView::all(cell_region(x, y)),
            Color { r: 0, g: 0, b: 0 },
        ),
        Cell::Core => screen.painted(
            StencilView::all(cell_region(x, y)),
            Color { r: 0xff, g: 0xff, b: 0xff },
        ),
        Cell::Clear => screen,
    }
}

/// The screen after the first `n` places of the shape were drawn.
pub open spec fn with_cursor(screen: Screen, n: int) -> Screen
    decreases n,
{
    if n <= 0 {
        screen
    } else {
        with_cell(with_cursor(screen, n - 1), n - 1)
    }
}

/// Draws the mouse cursor with its tip at column 200 of row 100.
pub fn write_cursor(frame: &mut FrameBuffer)
    ensures
        final(frame).screen() == with_cursor(
            old(frame).screen(),
            MOUSE_CURSOR_WIDTH * MOUSE_CURSOR_HEIGHT,
        ),
        final(frame).spec_format() == old(frame).spec_format(),
        final(frame).spec_width() == old(frame).spec_width(),
        final(frame).spec_height() == old(frame).spec_height(),
{
    let mut y: usize = 0;
    while y < MOUSE_CURSOR_HEIGHT
        invariant
            y <= MOUSE_CURSOR_HEIGHT,
            frame.screen() == with_cursor(old(frame).screen(), y * MOUSE_CURSOR_WIDTH),
            frame.spec_format() == old(frame).spec_format(),
            frame.spec_width() == old(frame).spec_width(),
            frame.spec_height() == old(frame).spec_height(),
        decreases MOUSE_CURSOR_HEIGHT - y,
    {
        let mut x: usize = 0;
        while x < MOUSE_CURSOR_WIDTH
            invariant
                x <= MOUSE_CURSOR_WIDTH,
                y < MOUSE_CURSOR_HEIGHT,
                frame.screen() == with_cursor(old(frame).screen(), y * MOUSE_CURSOR_WIDTH + x),
                frame.spec_format() == old(frame).spec_format(),
                frame.spec_width() == old(frame).spec_width(),
                frame.spec_height() == old(frame).spec_height(),
            decreases MOUSE_CURSOR_WIDTH - x,
        {
            let ghost k: int = y * MOUSE_CURSOR_WIDTH + x;
            assert(k % 15 == x && k / 15 == y);
            let place = Region::new(
                Position { x: MOUSE_CURSOR_X + x, y: MOUSE_CURSOR_Y + y },
                1,
                1,
            );
            match cell(x, y) {
                Cell::Edge => {
                    frame.fill_in(place, Colors::black());
                },
                Cell::Core => {
                    frame.fill_in(place, Colors::white());
                },
                Cell::Clear => {},
            }
            assert(frame.screen() == with_cell(with_cursor(old(frame).screen(), k), k));
            x += 1;
        }
        y += 1;
    }
}

} // verus!
