//! Colours, positions and the frame buffer of four bytes per pixel.

use crate::{FrameBufferConfig, PixelFormat};
use vstd::prelude::*;

verus! {

/// Bytes in one pixel.
pub const PIXEL_SIZE: usize = 4;

/// A colour of eight bits per channel.
#[derive(Copy, Clone, Debug, Eq, PartialEq)]
pub struct Color {
    pub r: u8,
    pub g: u8,
    pub b: u8,
}

impl Color {
    /// The colour with the given channels.
    pub fn new(r: u8, g: u8, b: u8) -> (c: Color)
        ensures
            c == (Color { r, g, b }),
    {
        Color { r, g, b }
    }

    /// The colour that `value` holds as `0xRRGGBB`.
    pub open spec fn of(value: u32) -> Color {
        Color {
            r: ((value >> 16) & 0xff) as u8,
            g: ((value >> 8) & 0xff) as u8,
            b: (value & 0xff) as u8,
        }
    }
}

impl From<u32> for Color {
    fn from(value: u32) -> (c: Color) {
        assert((value >> 16) & 0xff <= 0xff) by (bit_vector);
        assert((value >> 8) & 0xff <= 0xff) by (bit_vector);
        assert(value & 0xff <= 0xff) by (bit_vector);
        Color::new(((value >> 16) & 0xff) as u8, ((value >> 8) & 0xff) as u8, (value & 0xff) as u8)
    }
}

impl vstd::std_specs::convert::FromSpecImpl<u32> for Color {
    open spec fn obeys_from_spec() -> bool {
        true
    }

    open spec fn from_spec(value: u32) -> Color {
        Color::of(value)
    }
}

/// The named colours.
pub struct Colors;

impl Colors {
    /// Black.
    pub fn black() -> (c: Color)
        ensures
            c == (Color { r: 0, g: 0, b: 0 }),
    {
        Color::new(0x00, 0x00, 0x00)
    }

    /// White.
    pub fn white() -> (c: Color)
        ensures
            c == (Color { r: 0xff, g: 0xff, b: 0xff }),
    {
        Color::new(0xff, 0xff, 0xff)
    }

    /// Red.
    pub fn red() -> (c: Color)
        ensures
            c == (Color { r: 0xff, g: 0, b: 0 }),
    {
        Color::new(0xff, 0x00, 0x00)
    }

    /// Green.
    pub fn green() -> (c: Color)
        ensures
            c == (Color { r: 0, g: 0xff, b: 0 }),
    {
        Color::new(0x00, 0xff, 0x00)
    }

    /// Blue.
    pub fn blue() -> (c: Color)
        ensures
            c == (Color { r: 0, g: 0, b: 0xff }),
    {
        Color::new(0x00, 0x00, 0xff)
    }
}

/// How a colour is laid out in the four bytes of a pixel.
#[derive(Copy, Clone, Debug, Eq, PartialEq)]
pub enum PixelWriter {
    /// Red first.
    Rgb,
    /// Blue first.
    Bgr,
}

impl PixelWriter {
    /// The four bytes of a pixel of colour `color`; the last byte is unused.
    pub open spec fn bytes(self, color: Color) -> Seq<u8> {
        match self {
            PixelWriter::Rgb => seq![color.r, color.g, color.b, 0u8],
            PixelWriter::Bgr => seq![color.b, color.g, color.r, 0u8],
        }
    }

    /// The four bytes of a pixel of colour `color`.
    pub fn write(&self, color: Color) -> (r: [u8; 4])
        ensures
            r@ == self.bytes(color),
    {
        let r: [u8; 4] = match self {
            PixelWriter::Rgb => [color.r, color.g, color.b, 0],
            PixelWriter::Bgr => [color.b, color.g, color.r, 0],
        };
        assert(r@ =~= self.bytes(color));
        r
    }
}

/// The layout that goes with a pixel format.
pub fn pixel_format_to_writer(pixel_format: PixelFormat) -> (w: PixelWriter)
    ensures
        w == (match pixel_format {
            PixelFormat::RgbResv8BitPerColor => PixelWriter::Rgb,
            PixelFormat::BgrResv8BitPerColor => PixelWriter::Bgr,
        }),
{
    match pixel_format {
        PixelFormat::RgbResv8BitPerColor => PixelWriter::Rgb,
        PixelFormat::BgrResv8BitPerColor => PixelWriter::Bgr,
    }
}

/// A place on the screen, in pixels from the top left corner.
#[derive(Copy, Clone, Debug, Eq, PartialEq)]
pub struct Position {
    pub x: usize,
    pub y: usize,
}

impl Position {
    /// The top left corner.
    pub fn zero() -> (p: Position)
        ensures
            p == (Position { x: 0, y: 0 }),
    {
        Position { x: 0, y: 0 }
    }

    /// Index of the pixel at this place, counted along the scan lines.
    pub open spec fn index(self, pixels_per_scan_line: int) -> int {
        self.y * pixels_per_scan_line + self.x
    }

    /// The place of the pixel with the given index.
    pub fn from_raw_parts(index: usize, pixels_per_scan_line: usize) -> (p: Position)
        requires
            pixels_per_scan_line > 0,
        ensures
            p.x == index % pixels_per_scan_line,
            p.y == index / pixels_per_scan_line,
            p.index(pixels_per_scan_line as int) == index,
    {
        proof {
            vstd::arithmetic::div_mod::lemma_fundamental_div_mod(
                index as int,
                pixels_per_scan_line as int,
            );
            assert((index / pixels_per_scan_line) * pixels_per_scan_line == pixels_per_scan_line
                * (index / pixels_per_scan_line)) by (nonlinear_arith);
        }
        Position { x: index % pixels_per_scan_line, y: index / pixels_per_scan_line }
    }

    /// Index of the pixel at this place.
    pub fn into_raw_parts(self, pixels_per_scan_line: usize) -> (r: usize)
        requires
            self.index(pixels_per_scan_line as int) <= usize::MAX,
        ensures
            r == self.index(pixels_per_scan_line as int),
    {
        assert(0 <= self.y * pixels_per_scan_line) by (nonlinear_arith);
        self.y * pixels_per_scan_line + self.x
    }

    /// Offset of the pixel's first byte in the frame buffer.
    pub fn into_offset(self, pixels_per_scan_line: usize) -> (r: usize)
        requires
            self.index(pixels_per_scan_line as int) * 4 <= usize::MAX,
        ensures
            r == self.index(pixels_per_scan_line as int) * 4,
    {
        assert(0 <= self.y * pixels_per_scan_line) by (nonlinear_arith);
        self.into_raw_parts(pixels_per_scan_line) * PIXEL_SIZE
    }

    /// Offset of the pixel's first byte, or nothing where it does not fit
    /// the address space.
    pub fn checked_offset(self, pixels_per_scan_line: usize) -> (r: Option<usize>)
        ensures
            self.index(pixels_per_scan_line as int) * 4 <= usize::MAX ==> r == Some(
                (self.index(pixels_per_scan_line as int) * 4) as usize,
            ),
            self.index(pixels_per_scan_line as int) * 4 > usize::MAX ==> r.is_none(),
    {
        assert(0 <= self.y * pixels_per_scan_line) by (nonlinear_arith);
        let row: usize = match self.y.checked_mul(pixels_per_scan_line) {
            Some(row) => row,
            None => {
                return None;
            },
        };
        let index: usize = match row.checked_add(self.x) {
            Some(index) => index,
            None => {
                return None;
            },
        };
        index.checked_mul(PIXEL_SIZE)
    }

    /// This place moved by `other`, coordinate by coordinate.
    pub fn plus(self, other: Position) -> (p: Position)
        requires
            self.x + other.x <= usize::MAX,
            self.y + other.y <= usize::MAX,
        ensures
            p.x == self.x + other.x,
            p.y == self.y + other.y,
    {
        Position { x: self.x + other.x, y: self.y + other.y }
    }
}

impl From<(usize, usize)> for Position {
    fn from(value: (usize, usize)) -> (p: Position) {
        Position { x: value.0, y: value.1 }
    }
}

impl vstd::std_specs::convert::FromSpecImpl<(usize, usize)> for Position {
    open spec fn obeys_from_spec() -> bool {
        true
    }

    open spec fn from_spec(value: (usize, usize)) -> Position {
        Position { x: value.0, y: value.1 }
    }
}

/// A rectangle on the screen.
#[derive(Copy, Clone, Debug, Eq, PartialEq)]
pub struct Region {
    pub position: Position,
    pub width: usize,
    pub height: usize,
}

impl Region {
    /// The rectangle of the given size with its top left corner at `position`.
    pub fn new(position: Position, width: usize, height: usize) -> (r: Region)
        ensures
            r == (Region { position, width, height }),
    {
        Region { position, width, height }
    }

    /// Whether `p` lies in the rectangle.
    pub open spec fn contains(self, p: Position) -> bool {
        &&& self.position.x <= p.x < self.position.x + self.width
        &&& self.position.y <= p.y < self.position.y + self.height
    }

    /// Whether `p` lies in the rectangle, in one of its first `rows` rows or
    /// among the first `columns` places of the row after them.
    pub open spec fn reached(self, p: Position, columns: int, rows: int) -> bool {
        &&& self.contains(p)
        &&& p.y < self.position.y + rows || (p.y == self.position.y + rows && p.x
            < self.position.x + columns)
    }
}

/// Width of a glyph in pixels.
pub const FONT_WIDTH: usize = 8;

/// Height of a glyph in pixels.
pub const FONT_HEIGHT: usize = 16;

/// Whether a glyph's row has the bit for `column` set: the leftmost column
/// is the highest bit.
pub open spec fn glyph_bit(row: u8, column: int) -> bool {
    (row >> ((7 - column) as u8)) & 1 == 1
}

/// The bit for a column is the one that stands highest after the row was
/// shifted left by the column.
pub proof fn lemma_glyph_bit_after_shift(row: u8, column: u8)
    requires
        column < 8,
    ensures
        glyph_bit(row, column as int) == ((row << column) & 0x80 != 0),
{
    let shift: u8 = (7 - column) as u8;
    assert(((row >> shift) & 1 == 1) == ((row << column) & 0x80 != 0)) by (bit_vector)
        requires
            column < 8,
            shift == 7 - column,
    ;
}

/// The places of a region that are to be painted: all of them, or those for
/// which a row of bits has the bit of the column set.
pub struct Stencil {
    pub region: Region,
    pub rows: Vec<u8>,
    pub masked: bool,
}

/// A stencil, seen from outside.
pub struct StencilView {
    pub region: Region,
    pub rows: Seq<u8>,
    pub masked: bool,
}

impl StencilView {
    /// A masked stencil is no wider than a row of bits and has a row for
    /// each of its lines.
    pub open spec fn wf(self) -> bool {
        self.masked ==> self.region.width <= 8 && self.region.height <= self.rows.len()
    }

    /// The stencil that marks every place of `region`.
    pub open spec fn all(region: Region) -> StencilView {
        StencilView { region, rows: Seq::empty(), masked: false }
    }

    /// The stencil of a glyph with its top left corner at `position`.
    pub open spec fn glyph(position: Position, rows: Seq<u8>) -> StencilView {
        StencilView {
            region: Region { position, width: FONT_WIDTH, height: FONT_HEIGHT },
            rows,
            masked: true,
        }
    }

    /// Whether `p` is to be painted.
    pub open spec fn marks(self, p: Position) -> bool {
        &&& self.region.contains(p)
        &&& self.masked ==> glyph_bit(
            self.rows[p.y - self.region.position.y],
            p.x - self.region.position.x,
        )
    }

    /// Whether `p` is to be painted and lies in one of the first `rows` rows
    /// or among the first `columns` places of the row after them.
    pub open spec fn reached(self, p: Position, columns: int, rows: int) -> bool {
        self.marks(p) && self.region.reached(p, columns, rows)
    }
}

impl View for Stencil {
    type V = StencilView;

    open spec fn view(&self) -> StencilView {
        StencilView { region: self.region, rows: self.rows@, masked: self.masked }
    }
}

impl Stencil {
    /// Whether the place `dx` columns and `dy` rows from the corner is to be
    /// painted.
    pub fn test(&self, dx: usize, dy: usize) -> (r: bool)
        requires
            self@.wf(),
            dx < self.region.width,
            dy < self.region.height,
        ensures
            r == (self.masked ==> glyph_bit(self.rows@[dy as int], dx as int)),
    {
        if self.masked {
            let shift: u8 = (7 - dx) as u8;
            (self.rows[dy] >> shift) & 1 == 1
        } else {
            true
        }
    }
}

/// One pixel of a frame buffer: where it is on the screen, where its bytes
/// start, and how a colour is laid out in them.
#[derive(Copy, Clone, Debug, Eq, PartialEq)]
pub struct Pixel {
    pub offset: usize,
    pub position: Position,
    pub writer: PixelWriter,
}

/// The screen: four bytes for each pixel, scan line after scan line.
#[derive(Debug)]
pub struct FrameBuffer {
    config: FrameBufferConfig,
}

impl View for FrameBuffer {
    type V = Seq<u8>;

    closed spec fn view(&self) -> Seq<u8> {
        self.config.buf@
    }
}

impl Pixel {
    /// Whether the pixel's four bytes lie inside `frame`.
    pub open spec fn inside(self, frame: &FrameBuffer) -> bool {
        self.offset + 4 <= frame@.len()
    }

    /// Gives the pixel the colour `c`: its four bytes in `frame` are
    /// replaced, every other byte stays.
    pub fn write(&self, frame: &mut FrameBuffer, c: Color)
        requires
            self.inside(old(frame)),
        ensures
            final(frame)@ == replaced(old(frame)@, self.offset as int, self.writer.bytes(c)),
            final(frame).spec_pixels_per_scan_line() == old(frame).spec_pixels_per_scan_line(),
            final(frame).spec_format() == old(frame).spec_format(),
            final(frame).spec_width() == old(frame).spec_width(),
            final(frame).spec_height() == old(frame).spec_height(),
    {
        let bytes = self.writer.write(c);
        let len: usize = frame.config.buf.len();
        assert(self.offset + 4 <= len);
        frame.config.buf.set(self.offset, bytes[0]);
        frame.config.buf.set(self.offset + 1, bytes[1]);
        frame.config.buf.set(self.offset + 2, bytes[2]);
        frame.config.buf.set(self.offset + 3, bytes[3]);
        assert(frame@ =~= replaced(old(frame)@, self.offset as int, self.writer.bytes(c)));
    }
}

/// The four bytes of pixel `p` of `buf`.
pub open spec fn pixel_bytes(buf: Seq<u8>, p: int) -> Seq<u8> {
    buf.subrange(4 * p, 4 * p + 4)
}

/// Painting one pixel leaves every other pixel as it was.
pub proof fn lemma_replaced_pixels(buf: Seq<u8>, q: int, bytes: Seq<u8>, p: int)
    requires
        0 <= q,
        4 * q + 4 <= buf.len(),
        bytes.len() == 4,
        0 <= p,
        4 * p + 4 <= buf.len(),
    ensures
        p == q ==> pixel_bytes(replaced(buf, 4 * q, bytes), p) == bytes,
        p != q ==> pixel_bytes(replaced(buf, 4 * q, bytes), p) == pixel_bytes(buf, p),
{
    if p == q {
        assert(pixel_bytes(replaced(buf, 4 * q, bytes), p) =~= bytes);
    } else {
        assert(pixel_bytes(replaced(buf, 4 * q, bytes), p) =~= pixel_bytes(buf, p));
    }
}

/// Whether byte `i` of a buffer of `len` bytes belongs to a pixel at a place
/// that `stencil` marks.
pub open spec fn byte_marked(len: int, stride: int, stencil: StencilView, i: int) -> bool {
    exists|p: Position|
        #[trigger] stencil.marks(p) && p.index(stride) * 4 + 4 <= len && 4 * p.index(stride) <= i
            < 4 * p.index(stride) + 4
}

/// The bytes of a frame buffer after every place that `stencil` marks and
/// that has a pixel got the colour `color`.
pub open spec fn painted_bytes(
    bytes: Seq<u8>,
    stride: int,
    writer: PixelWriter,
    stencil: StencilView,
    color: Color,
) -> Seq<u8> {
    Seq::new(
        bytes.len(),
        |i: int|
            if byte_marked(bytes.len() as int, stride, stencil, i) {
                writer.bytes(color)[i % 4]
            } else {
                bytes[i]
            },
    )
}

/// Whether `bytes` are those of a pixel of a colour that `f` may return for
/// `place`.
pub open spec fn colored_by<F: Fn(Position) -> Color>(
    f: F,
    place: Position,
    bytes: Seq<u8>,
    writer: PixelWriter,
) -> bool {
    exists|c: Color| #[trigger] f.ensures((place,), c) && bytes == writer.bytes(c)
}

/// The bytes `buf` with the four at `offset` replaced by `bytes`.
pub open spec fn replaced(buf: Seq<u8>, offset: int, bytes: Seq<u8>) -> Seq<u8> {
    Seq::new(
        buf.len(),
        |i: int|
            if offset <= i < offset + 4 {
                bytes[i - offset]
            } else {
                buf[i]
            },
    )
}

impl FrameBuffer {
    /// Pixels in one scan line, visible or not.
    pub closed spec fn spec_pixels_per_scan_line(&self) -> int {
        self.config.pixels_per_scan_line as int
    }

    /// The layout of a pixel's bytes.
    pub closed spec fn spec_format(&self) -> PixelFormat {
        self.config.pixel_format
    }

    /// Visible pixels in one scan line.
    pub closed spec fn spec_width(&self) -> int {
        self.config.width as int
    }

    /// Number of scan lines.
    pub closed spec fn spec_height(&self) -> int {
        self.config.height as int
    }

    /// The layout of a pixel's bytes.
    pub open spec fn writer(&self) -> PixelWriter {
        match self.spec_format() {
            PixelFormat::RgbResv8BitPerColor => PixelWriter::Rgb,
            PixelFormat::BgrResv8BitPerColor => PixelWriter::Bgr,
        }
    }

    /// Number of whole pixels in the buffer.
    pub open spec fn pixel_count(&self) -> int {
        self@.len() as int / 4
    }

    /// The frame buffer that `config` describes.
    pub fn new(config: FrameBufferConfig) -> (f: FrameBuffer)
        ensures
            f@ == config.buf@,
            f.spec_pixels_per_scan_line() == config.pixels_per_scan_line,
            f.spec_format() == config.pixel_format,
            f.spec_width() == config.width,
            f.spec_height() == config.height,
    {
        FrameBuffer { config }
    }

    /// Visible pixels in one scan line.
    pub fn width(&self) -> (r: usize)
        ensures
            r == self.spec_width(),
    {
        self.config.width
    }

    /// Number of scan lines.
    pub fn height(&self) -> (r: usize)
        ensures
            r == self.spec_height(),
    {
        self.config.height
    }

    /// The bytes of the buffer.
    pub fn bytes(&self) -> (r: &Vec<u8>)
        ensures
            r@ == self@,
    {
        &self.config.buf
    }

    /// The pixel at `position`, or nothing where its four bytes do not lie
    /// inside the buffer.
    pub fn at(&self, position: Position) -> (r: Option<Pixel>)
        ensures
            ({
                let offset = position.index(self.spec_pixels_per_scan_line()) * 4;
                &&& offset + 4 <= self@.len() ==> r == Some(
                    Pixel { offset: offset as usize, position, writer: self.writer() },
                )
                &&& offset + 4 > self@.len() ==> r.is_none()
            }),
    {
        assert(0 <= position.y * self.config.pixels_per_scan_line) by (nonlinear_arith);
        let len: usize = self.config.buf.len();
        let offset: usize = match position.checked_offset(self.config.pixels_per_scan_line) {
            Some(offset) => offset,
            None => {
                return None;
            },
        };
        if len < PIXEL_SIZE || offset > len - PIXEL_SIZE {
            return None;
        }
        Some(Pixel { offset, position, writer: pixel_format_to_writer(self.config.pixel_format) })
    }

    /// Gives every whole pixel of the buffer the colour `color`. Bytes after
    /// the last whole pixel stay.
    pub fn fill(&mut self, color: Color)
        ensures
            final(self)@.len() == old(self)@.len(),
            final(self).spec_pixels_per_scan_line() == old(self).spec_pixels_per_scan_line(),
            final(self).spec_format() == old(self).spec_format(),
            final(self).spec_width() == old(self).spec_width(),
            final(self).spec_height() == old(self).spec_height(),
            forall|p: int|
                0 <= p < old(self).pixel_count() ==> #[trigger] pixel_bytes(final(self)@, p)
                    == old(self).writer().bytes(color),
            forall|i: int|
                4 * old(self).pixel_count() <= i < old(self)@.len() ==> final(self)@[i] == old(
                    self,
                )@[i],
    {
        let count: usize = self.config.buf.len() / PIXEL_SIZE;
        let writer = pixel_format_to_writer(self.config.pixel_format);
        let mut i: usize = 0;
        while i < count
            invariant
                i <= count,
                count == old(self).pixel_count(),
                4 * count <= self@.len() <= usize::MAX,
                writer == old(self).writer(),
                self@.len() == old(self)@.len(),
                self.spec_pixels_per_scan_line() == old(self).spec_pixels_per_scan_line(),
                self.spec_format() == old(self).spec_format(),
                self.spec_width() == old(self).spec_width(),
                self.spec_height() == old(self).spec_height(),
                forall|p: int| 0 <= p < i ==> #[trigger] pixel_bytes(self@, p) == writer.bytes(color),
                forall|j: int| 4 * i <= j < self@.len() ==> self@[j] == old(self)@[j],
            decreases count - i,
        {
            let ghost before = self@;
            let pixel = Pixel { offset: i * PIXEL_SIZE, position: Position { x: 0, y: 0 }, writer };
            pixel.write(self, color);
            proof {
                assert forall|p: int| 0 <= p < i + 1 implies #[trigger] pixel_bytes(self@, p)
                    == writer.bytes(color) by {
                    lemma_replaced_pixels(before, i as int, writer.bytes(color), p);
                }
            }
            i += 1;
        }
    }

    /// Whether the four bytes of the pixel at `p` lie inside the buffer.
    pub open spec fn has_pixel(&self, p: Position) -> bool {
        p.index(self.spec_pixels_per_scan_line()) * 4 + 4 <= self@.len()
    }

    /// Whether the pixel at `p` has the colour `c`.
    pub open spec fn shows(&self, p: Position, c: Color) -> bool {
        pixel_bytes(self@, p.index(self.spec_pixels_per_scan_line())) == self.writer().bytes(c)
    }

    /// Whether byte `i` of the buffer belongs to a pixel at a place that
    /// `stencil` marks.
    pub open spec fn marked(&self, stencil: StencilView, i: int) -> bool {
        byte_marked(self@.len() as int, self.spec_pixels_per_scan_line(), stencil, i)
    }

    /// Whether byte `i` of the buffer belongs to a pixel at a place of `region`.
    pub open spec fn covers(&self, region: Region, i: int) -> bool {
        exists|p: Position|
            #[trigger] region.contains(p) && self.has_pixel(p) && 4 * p.index(
                self.spec_pixels_per_scan_line(),
            ) <= i < 4 * p.index(self.spec_pixels_per_scan_line()) + 4
    }

    /// The bytes of the buffer after `stencil` was painted in `color`.
    pub open spec fn after_paint(&self, stencil: StencilView, color: Color) -> Seq<u8> {
        painted_bytes(self@, self.spec_pixels_per_scan_line(), self.writer(), stencil, color)
    }

    /// Gives the colour `color` to every place that `stencil` marks and that
    /// has a pixel. Bytes of other pixels stay.
    pub fn paint(&mut self, stencil: &Stencil, color: Color)
        requires
            stencil@.wf(),
        ensures
            final(self)@ == old(self).after_paint(stencil@, color),
            final(self)@.len() == old(self)@.len(),
            final(self).spec_pixels_per_scan_line() == old(self).spec_pixels_per_scan_line(),
            final(self).spec_format() == old(self).spec_format(),
            final(self).spec_width() == old(self).spec_width(),
            final(self).spec_height() == old(self).spec_height(),
            forall|p: Position|
                stencil@.marks(p) && old(self).has_pixel(p) ==> #[trigger] final(self).shows(
                    p,
                    color,
                ),
            forall|i: int|
                0 <= i < old(self)@.len() && !old(self).marked(stencil@, i) ==> final(self)@[i]
                    == old(self)@[i],
    {
        let region = stencil.region;
        let x0: usize = region.position.x;
        let y0: usize = region.position.y;
        let len: usize = self.config.buf.len();
        let rows: usize = if region.height <= usize::MAX - y0 {
            region.height
        } else {
            usize::MAX - y0 + 1
        };
        let columns: usize = if region.width <= usize::MAX - x0 {
            region.width
        } else {
            usize::MAX - x0 + 1
        };
        let mut dy: usize = 0;
        while dy < rows
            invariant
                dy <= rows,
                stencil@.wf(),
                region == stencil.region,
                x0 == region.position.x,
                y0 == region.position.y,
                y0 + rows <= usize::MAX + 1,
                x0 + columns <= usize::MAX + 1,
                rows == region.height || y0 + rows == usize::MAX + 1,
                columns == region.width || x0 + columns == usize::MAX + 1,
                rows <= region.height,
                columns <= region.width,
                self@.len() == len,
                self@.len() == old(self)@.len(),
                self.spec_pixels_per_scan_line() == old(self).spec_pixels_per_scan_line(),
                self.spec_format() == old(self).spec_format(),
                self.spec_width() == old(self).spec_width(),
                self.spec_height() == old(self).spec_height(),
                forall|p: Position|
                    stencil@.reached(p, 0, dy as int) && self.has_pixel(p) ==> #[trigger] self.shows(
                        p,
                        color,
                    ),
                forall|i: int|
                    0 <= i < self@.len() && !old(self).marked(stencil@, i) ==> self@[i] == old(
                        self,
                    )@[i],
            decreases rows - dy,
        {
            let y: usize = y0 + dy;
            let mut dx: usize = 0;
            while dx < columns
                invariant
                    dx <= columns,
                    dy < rows,
                    y == y0 + dy,
                    stencil@.wf(),
                    region == stencil.region,
                    x0 == region.position.x,
                    y0 == region.position.y,
                    y0 + rows <= usize::MAX + 1,
                    x0 + columns <= usize::MAX + 1,
                    rows == region.height || y0 + rows == usize::MAX + 1,
                    columns == region.width || x0 + columns == usize::MAX + 1,
                    rows <= region.height,
                    columns <= region.width,
                    self@.len() == len,
                    self@.len() == old(self)@.len(),
                    self.spec_pixels_per_scan_line() == old(self).spec_pixels_per_scan_line(),
                    self.spec_format() == old(self).spec_format(),
                    self.spec_width() == old(self).spec_width(),
                    self.spec_height() == old(self).spec_height(),
                    forall|p: Position|
                        stencil@.reached(p, dx as int, dy as int) && self.has_pixel(p)
                            ==> #[trigger] self.shows(p, color),
                    forall|i: int|
                        0 <= i < self@.len() && !old(self).marked(stencil@, i) ==> self@[i] == old(
                            self,
                        )@[i],
                decreases columns - dx,
            {
                let position = Position { x: x0 + dx, y };
                let ghost before = self@;
                let ghost prior = *self;
                let ghost stride = self.spec_pixels_per_scan_line();
                let ghost q = position.index(stride);
                let ghost bytes = self.writer().bytes(color);
                let wanted: bool = stencil.test(dx, dy);
                let found = if wanted {
                    self.at(position)
                } else {
                    None
                };
                match found {
                    Some(pixel) => {
                        pixel.write(self, color);
                        proof {
                            assert(0 <= position.y * stride) by (nonlinear_arith)
                                requires
                                    0 <= position.y,
                                    0 <= stride,
                            ;
                            assert(stencil@.marks(position));
                            assert(bytes.len() == 4);
                            assert(pixel.offset == 4 * q);
                            assert(self@ == replaced(before, 4 * q, bytes));
                            assert forall|p: Position|
                                stencil@.reached(p, dx + 1, dy as int) && self.has_pixel(
                                    p,
                                ) implies #[trigger] self.shows(p, color) by {
                                assert(0 <= p.y * stride) by (nonlinear_arith)
                                    requires
                                        0 <= p.y,
                                        0 <= stride,
                                ;
                                lemma_replaced_pixels(before, q, bytes, p.index(stride));
                                if p.index(stride) != q {
                                    assert(stencil@.reached(p, dx as int, dy as int));
                                    assert(prior.shows(p, color));
                                }
                            }
                            assert forall|i: int|
                                0 <= i < self@.len() && !old(self).marked(stencil@, i) implies self@[i] == old(self)@[i] by {
                                if 4 * q <= i < 4 * q + 4 {
                                    assert(old(self).has_pixel(position));
                                    assert(old(self).marked(stencil@, i));
                                }
                            }
                        }
                    },
                    None => {
                        proof {
                            assert forall|p: Position|
                                stencil@.reached(p, dx + 1, dy as int) && self.has_pixel(
                                    p,
                                ) implies #[trigger] self.shows(p, color) by {
                                if p != position {
                                    assert(stencil@.reached(p, dx as int, dy as int));
                                    assert(prior.shows(p, color));
                                }
                            }
                        }
                    },
                }
                dx += 1;
            }
            proof {
                assert forall|p: Position|
                    stencil@.reached(p, 0, dy + 1) && self.has_pixel(p) implies #[trigger] self.shows(
                        p,
                        color,
                    ) by {
                    assert(stencil@.reached(p, dx as int, dy as int));
                }
            }
            dy += 1;
        }
        proof {
            assert forall|p: Position|
                stencil@.marks(p) && old(self).has_pixel(p) implies #[trigger] self.shows(
                    p,
                    color,
                ) by {
                assert(stencil@.reached(p, 0, dy as int));
            }
            let stride = self.spec_pixels_per_scan_line();
            let bytes = self.writer().bytes(color);
            assert forall|i: int| 0 <= i < self@.len() implies self@[i] == old(self).after_paint(
                stencil@,
                color,
            )[i] by {
                if old(self).marked(stencil@, i) {
                    let p = choose|p: Position|
                        #[trigger] stencil@.marks(p) && p.index(stride) * 4 + 4 <= self@.len() && 4
                            * p.index(stride) <= i < 4 * p.index(stride) + 4;
                    let q = p.index(stride);
                    assert(self.shows(p, color));
                    assert(pixel_bytes(self@, q)[i - 4 * q] == self@[i]);
                    assert(i - 4 * q == i % 4);
                }
            }
            assert(self@ =~= old(self).after_paint(stencil@, color));
        }
    }

    /// Gives the colour `color` to every place of `region` that has a pixel.
    /// Bytes of other pixels stay.
    pub fn fill_in(&mut self, region: Region, color: Color)
        ensures
            final(self)@ == old(self).after_paint(StencilView::all(region), color),
            final(self)@.len() == old(self)@.len(),
            final(self).spec_pixels_per_scan_line() == old(self).spec_pixels_per_scan_line(),
            final(self).spec_format() == old(self).spec_format(),
            final(self).spec_width() == old(self).spec_width(),
            final(self).spec_height() == old(self).spec_height(),
            forall|p: Position|
                region.contains(p) && old(self).has_pixel(p) ==> #[trigger] final(self).shows(
                    p,
                    color,
                ),
            forall|i: int|
                0 <= i < old(self)@.len() && !old(self).covers(region, i) ==> final(self)@[i]
                    == old(self)@[i],
    {
        let stencil = Stencil { region, rows: Vec::new(), masked: false };
        assert(stencil@ == StencilView::all(region));
        self.paint(&stencil, color);
        proof {
            assert forall|p: Position|
                region.contains(p) && old(self).has_pixel(p) implies #[trigger] self.shows(
                    p,
                    color,
                ) by {
                assert(stencil@.marks(p));
            }
            assert forall|i: int|
                0 <= i < old(self)@.len() && !old(self).covers(region, i) implies self@[i] == old(
                    self,
                )@[i] by {
                if old(self).marked(stencil@, i) {
                    let p = choose|p: Position|
                        #[trigger] stencil@.marks(p) && old(self).has_pixel(p) && 4 * p.index(
                            old(self).spec_pixels_per_scan_line(),
                        ) <= i < 4 * p.index(old(self).spec_pixels_per_scan_line()) + 4;
                    assert(region.contains(p));
                }
            }
        }
    }

    /// Draws one glyph of eight by sixteen pixels with its top left corner at
    /// `position`: a place gets the colour `color` where the glyph's row has
    /// the bit for its column set, the leftmost column in the highest bit.
    /// Every other byte stays.
    pub fn write_glyph(&mut self, position: Position, glyph: &[u8; 16], color: Color)
        ensures
            final(self)@ == old(self).after_paint(StencilView::glyph(position, glyph@), color),
            final(self)@.len() == old(self)@.len(),
            final(self).spec_pixels_per_scan_line() == old(self).spec_pixels_per_scan_line(),
            final(self).spec_format() == old(self).spec_format(),
            final(self).spec_width() == old(self).spec_width(),
            final(self).spec_height() == old(self).spec_height(),
            forall|p: Position|
                StencilView::glyph(position, glyph@).marks(p) && old(self).has_pixel(p)
                    ==> #[trigger] final(self).shows(p, color),
            forall|i: int|
                0 <= i < old(self)@.len() && !old(self).marked(StencilView::glyph(position, glyph@), i)
                    ==> final(self)@[i] == old(self)@[i],
    {
        let mut rows: Vec<u8> = Vec::new();
        let mut i: usize = 0;
        while i < 16
            invariant
                i <= 16,
                rows@.len() == i,
                forall|k: int| 0 <= k < i ==> rows@[k] == glyph@[k],
            decreases 16 - i,
        {
            rows.push(glyph[i]);
            i += 1;
        }
        assert(rows@ =~= glyph@);
        let stencil = Stencil {
            region: Region { position, width: FONT_WIDTH, height: FONT_HEIGHT },
            rows,
            masked: true,
        };
        assert(stencil@ == StencilView::glyph(position, glyph@));
        self.paint(&stencil, color);
    }

    /// The place of pixel `i`, counted along the scan lines.
    pub open spec fn place(&self, i: int) -> Position {
        Position {
            x: (i % self.spec_pixels_per_scan_line()) as usize,
            y: (i / self.spec_pixels_per_scan_line()) as usize,
        }
    }

    /// Gives every whole pixel of the buffer the colour that `f` returns for
    /// its place. Bytes after the last whole pixel stay.
    pub fn fill_by<F: Fn(Position) -> Color>(&mut self, f: F)
        requires
            old(self).spec_pixels_per_scan_line() > 0,
            forall|p: Position| f.requires((p,)),
        ensures
            final(self)@.len() == old(self)@.len(),
            final(self).spec_pixels_per_scan_line() == old(self).spec_pixels_per_scan_line(),
            final(self).spec_format() == old(self).spec_format(),
            final(self).spec_width() == old(self).spec_width(),
            final(self).spec_height() == old(self).spec_height(),
            forall|i: int|
                0 <= i < old(self).pixel_count() ==> #[trigger] colored_by(
                    f,
                    old(self).place(i),
                    pixel_bytes(final(self)@, i),
                    old(self).writer(),
                ),
            forall|i: int|
                4 * old(self).pixel_count() <= i < old(self)@.len() ==> final(self)@[i] == old(
                    self,
                )@[i],
    {
        let count: usize = self.config.buf.len() / PIXEL_SIZE;
        let stride: usize = self.config.pixels_per_scan_line;
        let writer = pixel_format_to_writer(self.config.pixel_format);
        let mut i: usize = 0;
        while i < count
            invariant
                i <= count,
                stride > 0,
                stride == old(self).spec_pixels_per_scan_line(),
                count == old(self).pixel_count(),
                4 * count <= self@.len() <= usize::MAX,
                writer == old(self).writer(),
                forall|p: Position| f.requires((p,)),
                self@.len() == old(self)@.len(),
                self.spec_pixels_per_scan_line() == old(self).spec_pixels_per_scan_line(),
                self.spec_format() == old(self).spec_format(),
                self.spec_width() == old(self).spec_width(),
                self.spec_height() == old(self).spec_height(),
                forall|k: int|
                    0 <= k < i ==> #[trigger] colored_by(
                        f,
                        old(self).place(k),
                        pixel_bytes(self@, k),
                        writer,
                    ),
                forall|j: int| 4 * i <= j < self@.len() ==> self@[j] == old(self)@[j],
            decreases count - i,
        {
            let ghost before = self@;
            let position = Position::from_raw_parts(i, stride);
            assert(position == old(self).place(i as int));
            let color = f(position);
            let pixel = Pixel { offset: i * PIXEL_SIZE, position, writer };
            pixel.write(self, color);
            proof {
                assert forall|k: int| 0 <= k < i + 1 implies #[trigger] colored_by(
                    f,
                    old(self).place(k),
                    pixel_bytes(self@, k),
                    writer,
                ) by {
                    lemma_replaced_pixels(before, i as int, writer.bytes(color), k);
                    if k < i {
                        assert(colored_by(f, old(self).place(k), pixel_bytes(before, k), writer));
                    }
                }
            }
            i += 1;
        }
    }
}

} // verus!
