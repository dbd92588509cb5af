use mikan_xhci::graphics::{
    pixel_format_to_writer, Color, Colors, FrameBuffer, Pixel, PixelWriter, Position, Region,
};
use mikan_xhci::{FrameBufferConfig, PixelFormat};

fn frame(width: usize, height: usize, stride: usize, pixel_format: PixelFormat) -> FrameBuffer {
    FrameBuffer::new(FrameBufferConfig {
        buf: vec![0xee; stride * height * 4],
        pixels_per_scan_line: stride,
        width,
        height,
        pixel_format,
    })
}

#[test]
fn color_from_rgb() {
    assert_eq!(Color::new(0x12, 0x34, 0x56), Color::from(0x123456));
}

#[test]
fn color_from_ignores_the_top_byte() {
    assert_eq!(Color::from(0xff00_00ff), Color::new(0, 0, 0xff));
    assert_eq!(Color::from(0x00ab_cdef), Color { r: 0xab, g: 0xcd, b: 0xef });
}

#[test]
fn named_colors() {
    assert_eq!(Colors::black(), Color::new(0, 0, 0));
    assert_eq!(Colors::white(), Color::new(255, 255, 255));
    assert_eq!(Colors::red(), Color::new(255, 0, 0));
    assert_eq!(Colors::green(), Color::new(0, 255, 0));
    assert_eq!(Colors::blue(), Color::new(0, 0, 255));
}

#[test]
fn pixel_writers_order_the_channels() {
    let c = Color::new(1, 2, 3);
    assert_eq!(PixelWriter::Rgb.write(c), [1, 2, 3, 0]);
    assert_eq!(PixelWriter::Bgr.write(c), [3, 2, 1, 0]);
    assert_eq!(pixel_format_to_writer(PixelFormat::RgbResv8BitPerColor), PixelWriter::Rgb);
    assert_eq!(pixel_format_to_writer(PixelFormat::BgrResv8BitPerColor), PixelWriter::Bgr);
}

#[test]
fn position_from_and_into_raw_parts() {
    let p = Position::from_raw_parts(1234, 100);
    assert_eq!(p, Position { x: 34, y: 12 });
    assert_eq!(p.into_raw_parts(100), 1234);
    assert_eq!(p.into_offset(100), 4936);
    assert_eq!(p.checked_offset(100), Some(4936));
    assert_eq!(Position { x: 1, y: usize::MAX }.checked_offset(2), None);
    assert_eq!(Position::zero(), Position { x: 0, y: 0 });
    assert_eq!(Position::from((3, 4)), Position { x: 3, y: 4 });
    assert_eq!(p.plus(Position { x: 6, y: 8 }), Position { x: 40, y: 20 });
}

#[test]
fn region_new_keeps_its_parts() {
    let r = Region::new(Position { x: 1, y: 2 }, 3, 4);
    assert_eq!(r, Region { position: Position { x: 1, y: 2 }, width: 3, height: 4 });
}

#[test]
fn frame_buffer_at() {
    let f = frame(3, 2, 4, PixelFormat::BgrResv8BitPerColor);
    assert_eq!((f.width(), f.height()), (3, 2));
    assert_eq!(
        f.at(Position { x: 2, y: 1 }),
        Some(Pixel { offset: 24, position: Position { x: 2, y: 1 }, writer: PixelWriter::Bgr })
    );
    assert!(f.at(Position { x: 3, y: 1 }).is_some());
    assert_eq!(f.at(Position { x: 0, y: 2 }), None);
    assert_eq!(f.at(Position { x: 4, y: 1 }), None);
    assert_eq!(f.at(Position { x: 0, y: usize::MAX }), None);
}

#[test]
fn pixel_write_changes_four_bytes() {
    let mut f = frame(2, 2, 2, PixelFormat::RgbResv8BitPerColor);
    let p = f.at(Position { x: 1, y: 0 }).unwrap();
    p.write(&mut f, Color::new(1, 2, 3));
    let mut expected = vec![0xee; 16];
    expected[4..8].copy_from_slice(&[1, 2, 3, 0]);
    assert_eq!(f.bytes(), &expected);
}

#[test]
fn fill_paints_every_pixel() {
    let mut f = FrameBuffer::new(FrameBufferConfig {
        buf: vec![0xee; 14],
        pixels_per_scan_line: 3,
        width: 3,
        height: 1,
        pixel_format: PixelFormat::BgrResv8BitPerColor,
    });
    f.fill(Color::new(1, 2, 3));
    assert_eq!(f.bytes(), &vec![3, 2, 1, 0, 3, 2, 1, 0, 3, 2, 1, 0, 0xee, 0xee]);
}

fn pixel(f: &FrameBuffer, stride: usize, x: usize, y: usize) -> [u8; 4] {
    let o = (y * stride + x) * 4;
    let b = f.bytes();
    [b[o], b[o + 1], b[o + 2], b[o + 3]]
}

#[test]
fn fill_in_paints_the_region_only() {
    let mut f = frame(4, 3, 4, PixelFormat::RgbResv8BitPerColor);
    f.fill_in(Region::new(Position { x: 1, y: 1 }, 2, 1), Color::new(9, 8, 7));
    for y in 0..3 {
        for x in 0..4 {
            let expected = if y == 1 && (x == 1 || x == 2) { [9, 8, 7, 0] } else { [0xee; 4] };
            assert_eq!(pixel(&f, 4, x, y), expected);
        }
    }
}

#[test]
fn fill_in_passes_over_places_without_pixel() {
    let mut f = frame(2, 2, 2, PixelFormat::BgrResv8BitPerColor);
    f.fill_in(Region::new(Position { x: 1, y: 1 }, 5, 5), Color::new(1, 2, 3));
    assert_eq!(pixel(&f, 2, 0, 0), [0xee; 4]);
    assert_eq!(pixel(&f, 2, 1, 0), [0xee; 4]);
    assert_eq!(pixel(&f, 2, 0, 1), [0xee; 4]);
    assert_eq!(pixel(&f, 2, 1, 1), [3, 2, 1, 0]);
    let before = f.bytes().clone();
    f.fill_in(Region::new(Position { x: usize::MAX, y: usize::MAX }, 3, 3), Color::new(0, 0, 0));
    f.fill_in(Region::new(Position { x: 0, y: 0 }, 0, 7), Color::new(0, 0, 0));
    assert_eq!(f.bytes(), &before);
}

#[test]
fn fill_in_runs_into_the_next_scan_line() {
    // A place to the right of a scan line is the start of the next one.
    let mut f = frame(2, 2, 2, PixelFormat::RgbResv8BitPerColor);
    f.fill_in(Region::new(Position { x: 1, y: 0 }, 2, 1), Color::new(5, 5, 5));
    assert_eq!(pixel(&f, 2, 0, 0), [0xee; 4]);
    assert_eq!(pixel(&f, 2, 1, 0), [5, 5, 5, 0]);
    assert_eq!(pixel(&f, 2, 0, 1), [5, 5, 5, 0]);
    assert_eq!(pixel(&f, 2, 1, 1), [0xee; 4]);
}

#[test]
fn fill_by_colours_each_place() {
    let mut f = frame(3, 2, 3, PixelFormat::RgbResv8BitPerColor);
    f.fill_by(|p: Position| Color::new(p.x as u8, p.y as u8, 7));
    for y in 0..2 {
        for x in 0..3 {
            assert_eq!(pixel(&f, 3, x, y), [x as u8, y as u8, 7, 0]);
        }
    }
}

#[test]
fn write_glyph_follows_the_bits() {
    let mut f = frame(10, 18, 10, PixelFormat::RgbResv8BitPerColor);
    let mut glyph = [0u8; 16];
    glyph[0] = 0b1000_0001;
    glyph[3] = 0b0101_0000;
    glyph[15] = 0xff;
    f.write_glyph(Position { x: 1, y: 2 }, &glyph, Color::new(1, 1, 1));
    for y in 0..18 {
        for x in 0..10 {
            let lit = x >= 1 && x < 9 && y >= 2 && (glyph[y - 2] << (x - 1)) & 0x80 != 0;
            let expected = if lit { [1, 1, 1, 0] } else { [0xee; 4] };
            assert_eq!(pixel(&f, 10, x, y), expected, "{} {}", x, y);
        }
    }
    assert_eq!(pixel(&f, 10, 1, 2), [1, 1, 1, 0]);
    assert_eq!(pixel(&f, 10, 8, 2), [1, 1, 1, 0]);
    assert_eq!(pixel(&f, 10, 2, 5), [1, 1, 1, 0]);
    assert_eq!(pixel(&f, 10, 4, 5), [1, 1, 1, 0]);
    assert_eq!(pixel(&f, 10, 3, 5), [0xee; 4]);
}
