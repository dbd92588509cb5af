use mikan_xhci::console::Console;
use mikan_xhci::cursor::{cell, write_cursor, Cell};
use mikan_xhci::graphics::{Color, Colors, FrameBuffer, Position, Region};
use mikan_xhci::text::{shifted, BufTextWriter, Font};
use mikan_xhci::{FrameBufferConfig, PixelFormat};

const STRIDE: usize = 700;
const LINES: usize = 460;

fn screen() -> FrameBuffer {
    FrameBuffer::new(FrameBufferConfig {
        buf: vec![0x11; STRIDE * LINES * 4],
        pixels_per_scan_line: STRIDE,
        width: STRIDE,
        height: LINES,
        pixel_format: PixelFormat::RgbResv8BitPerColor,
    })
}

/// A font whose glyph of a character is a full block, as many rows high as
/// the character is away from the space.
fn font() -> Font {
    let mut glyphs = Vec::new();
    for code in 0x20..0x7fu32 {
        let mut glyph = [0u8; 16];
        for row in glyph.iter_mut().take(((code - 0x20) % 17) as usize) {
            *row = 0xff;
        }
        glyphs.push(glyph);
    }
    Font::new(glyphs)
}

fn rows_of(c: char) -> usize {
    ((c as u32 - 0x20) % 17) as usize
}

fn lit(f: &FrameBuffer, x: usize, y: usize, color: Color) -> bool {
    let o = (y * STRIDE + x) * 4;
    f.bytes()[o..o + 4] == [color.r, color.g, color.b, 0]
}

/// Number of rows, from `y` down, in which the eight pixels from `x` on have
/// the colour `color`.
fn block(f: &FrameBuffer, x: usize, y: usize, color: Color) -> usize {
    let mut rows = 0;
    while rows < 16 && (0..8).all(|dx| lit(f, x + dx, y + rows, color)) {
        rows += 1;
    }
    rows
}

#[test]
fn shifted_saturates() {
    assert_eq!(shifted(10, 8, 3), 34);
    assert_eq!(shifted(usize::MAX - 5, 8, 1), usize::MAX);
    assert_eq!(shifted(0, usize::MAX, 2), usize::MAX);
    assert_eq!(shifted(7, 16, 0), 7);
}

#[test]
fn font_has_glyphs_for_printable_characters() {
    let f = font();
    assert_eq!(f.glyph(' '), Some([0; 16]));
    assert_eq!(f.glyph('#').unwrap()[..4], [0xff, 0xff, 0xff, 0]);
    assert!(f.glyph('~').is_some());
    assert_eq!(f.glyph('\n'), None);
    assert_eq!(f.glyph('\u{7f}'), None);
    assert_eq!(f.glyph('é'), None);
    let short = Font::new(vec![[1; 16]; 2]);
    assert_eq!(short.glyph('!'), Some([1; 16]));
    assert_eq!(short.glyph('"'), None);
}

#[test]
fn write_ascii_draws_the_glyph() {
    let mut f = screen();
    let red = Colors::red();
    f.write_ascii(&font(), Position { x: 16, y: 32 }, '%', red);
    assert_eq!(block(&f, 16, 32, red), rows_of('%'));
    assert!(!lit(&f, 15, 32, red));
    assert!(!lit(&f, 24, 32, red));
    let before = f.bytes().clone();
    f.write_ascii(&font(), Position { x: 0, y: 0 }, '\0', red);
    assert_eq!(f.bytes(), &before);
}

#[test]
fn write_chars_draws_one_glyph_height_down() {
    let mut f = screen();
    let blue = Colors::blue();
    f.write_chars(&font(), Position { x: 8, y: 0 }, &['#', '\0', '&'], blue);
    assert_eq!(block(&f, 8, 16, blue), rows_of('#'));
    assert_eq!(block(&f, 16, 16, blue), 0);
    assert_eq!(block(&f, 24, 16, blue), rows_of('&'));
    assert_eq!(block(&f, 8, 0, blue), 0);
}

#[test]
fn write_string_breaks_lines() {
    let mut f = screen();
    let green = Colors::green();
    let end = f.write_string(&font(), Position { x: 40, y: 10 }, "#$\n%\n&'(", green);
    // Line 0 starts where the text starts; line 1 one glyph height below;
    // line 2 two more glyph heights below that.
    assert_eq!(end, Position { x: 24, y: 10 + 16 + 32 });
    assert_eq!(block(&f, 40, 26, green), rows_of('#'));
    assert_eq!(block(&f, 48, 26, green), rows_of('$'));
    assert_eq!(block(&f, 0, 42, green), rows_of('%'));
    assert_eq!(block(&f, 0, 74, green), rows_of('&'));
    assert_eq!(block(&f, 8, 74, green), rows_of('\''));
    assert_eq!(block(&f, 16, 74, green), rows_of('('));
    let untouched = f.write_string(&font(), Position { x: 3, y: 4 }, "", green);
    assert_eq!(untouched, Position { x: 3, y: 4 });
}

#[test]
fn buf_text_writer_goes_on_where_it_ended() {
    let mut f = screen();
    let mut w = BufTextWriter::new();
    assert_eq!(w.position(), Position { x: 0, y: 0 });
    w = w.with_position(Position { x: 8, y: 100 }).with_color(Colors::red());
    w.write_str(&mut f, &font(), "#$");
    assert_eq!(w.position(), Position { x: 24, y: 100 });
    w.write_str(&mut f, &font(), "%");
    assert_eq!(w.position(), Position { x: 32, y: 100 });
    assert_eq!(block(&f, 8, 116, Colors::red()), rows_of('#'));
    assert_eq!(block(&f, 24, 116, Colors::red()), rows_of('%'));
}

#[test]
fn console_starts_empty() {
    let c = Console::new();
    assert_eq!(c.cursor(), (0, 0));
    assert_eq!(c.position(), Position { x: 0, y: 0 });
    assert_eq!(c.region(), Region::new(Position { x: 0, y: 0 }, 640, 400));
    for row in 0..25 {
        assert_eq!(c.line(row), Some(&vec!['\0'; 81]));
    }
    assert_eq!(c.line(25), None);
}

#[test]
fn console_builders() {
    let c = Console::new()
        .with_position(Position { x: 10, y: 20 })
        .with_background(Color::new(1, 2, 3))
        .with_foreground(Color::new(4, 5, 6));
    assert_eq!(c.region(), Region::new(Position { x: 10, y: 20 }, 640, 400));
    assert_eq!(c.position(), Position { x: 10, y: 20 });
}

#[test]
fn console_next_and_new_line() {
    let mut f = screen();
    let font = font();
    let mut c = Console::new().with_position(Position { x: 8, y: 16 });
    c.next(&mut f, &font);
    c.next(&mut f, &font);
    assert_eq!(c.cursor(), (2, 0));
    assert_eq!(c.position(), Position { x: 24, y: 16 });
    c.new_line(&mut f, &font);
    assert_eq!(c.cursor(), (0, 1));
    assert_eq!(c.position(), Position { x: 8, y: 32 });
    for _ in 0..79 {
        c.next(&mut f, &font);
    }
    assert_eq!(c.cursor(), (79, 1));
    c.next(&mut f, &font);
    assert_eq!(c.cursor(), (0, 2));
    // Nothing was drawn so far.
    assert!(f.bytes().iter().all(|b| *b == 0x11));
}

#[test]
fn console_write_str_keeps_and_draws_the_text() {
    let mut f = screen();
    let font = font();
    let fg = Color::new(9, 9, 9);
    let mut c = Console::new().with_position(Position { x: 8, y: 16 }).with_foreground(fg);
    c.write_str(&mut f, &font, "#$\n%");
    assert_eq!(c.cursor(), (1, 1));
    assert_eq!(c.line(0).unwrap()[..3], ['#', '$', '\0']);
    assert_eq!(c.line(1).unwrap()[..2], ['%', '\0']);
    assert_eq!(block(&f, 8, 16, fg), rows_of('#'));
    assert_eq!(block(&f, 16, 16, fg), rows_of('$'));
    assert_eq!(block(&f, 8, 32, fg), rows_of('%'));
}

#[test]
fn console_scrolls_from_the_last_row() {
    let mut f = screen();
    let font = font();
    let fg = Color::new(9, 9, 9);
    let bg = Color::new(200, 200, 200);
    let mut c = Console::new()
        .with_position(Position { x: 8, y: 16 })
        .with_foreground(fg)
        .with_background(bg);
    let mut text = String::new();
    for row in 0..25 {
        text.push((b'#' + row as u8) as char);
        if row < 24 {
            text.push('\n');
        }
    }
    c.write_str(&mut f, &font, &text);
    assert_eq!(c.cursor(), (1, 24));
    assert!(!lit(&f, 8, 16 + 17, bg));
    c.write_str(&mut f, &font, "\n");
    assert_eq!(c.cursor(), (0, 24));
    // Every row moved up by one and the last one is empty.
    for row in 0..24 {
        assert_eq!(c.line(row).unwrap()[0], (b'#' + row as u8 + 1) as char);
    }
    assert_eq!(c.line(24), Some(&vec!['\0'; 81]));
    // The console was drawn anew: the rows stand one glyph height below
    // their places, on the background.
    for row in 0..24usize {
        let c0 = (b'#' + row as u8 + 1) as char;
        assert_eq!(block(&f, 8, 16 + 16 * row + 16, fg), rows_of(c0).min(16), "{}", row);
    }
    assert!(lit(&f, 8 + 639, 16 + 399, bg));
    assert!(!lit(&f, 8 + 640, 16 + 399, bg));
    assert!(!lit(&f, 7, 16, bg));
}

#[test]
fn cursor_shape() {
    assert_eq!(cell(0, 0), Cell::Edge);
    assert_eq!(cell(1, 0), Cell::Clear);
    assert_eq!(cell(1, 2), Cell::Core);
    assert_eq!(cell(14, 14), Cell::Edge);
    assert_eq!(cell(6, 14), Cell::Core);
    assert_eq!(cell(0, 22), Cell::Clear);
    assert_eq!(cell(10, 22), Cell::Core);
    assert_eq!(cell(11, 23), Cell::Edge);
    assert_eq!(cell(14, 23), Cell::Clear);
    let mut edge = 0;
    let mut core = 0;
    for y in 0..24 {
        for x in 0..15 {
            match cell(x, y) {
                Cell::Edge => edge += 1,
                Cell::Core => core += 1,
                Cell::Clear => {}
            }
        }
    }
    assert_eq!((edge, core), (66, 107));
}

#[test]
fn write_cursor_draws_the_arrow() {
    let mut f = screen();
    write_cursor(&mut f);
    for y in 0..LINES {
        for x in 0..STRIDE {
            let inside = (200..215).contains(&x) && (100..124).contains(&y);
            let kind = if inside { cell(x - 200, y - 100) } else { Cell::Clear };
            match kind {
                Cell::Edge => assert!(lit(&f, x, y, Colors::black())),
                Cell::Core => assert!(lit(&f, x, y, Colors::white())),
                Cell::Clear => {
                    let o = (y * STRIDE + x) * 4;
                    assert_eq!(f.bytes()[o..o + 4], [0x11; 4]);
                }
            }
        }
    }
}
