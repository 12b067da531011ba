//! The frame of the 72 by 40 pixel display, what is drawn on it, and the packets that
//! bring it to the controller.
use vstd::prelude::*;

use embedded_graphics::framebuffer::Framebuffer;
use embedded_graphics::geometry::Point;
use embedded_graphics::mono_font::ascii::{FONT_10X20, FONT_6X10};
use embedded_graphics::mono_font::MonoTextStyleBuilder;
use embedded_graphics::pixelcolor::raw::{LittleEndian, RawU1};
use embedded_graphics::pixelcolor::BinaryColor as PixelState;
use embedded_graphics::text::Text;
use embedded_graphics::Drawable;

verus! {

/// Width of the display in pixels
pub const DISPLAY_WIDTH: usize = 72;

/// Height of the display in pixels
pub const DISPLAY_HEIGHT: usize = 40;

/// Number of eight-pixel-high pages
pub const DISPLAY_PAGES: usize = 5;

/// Number of bytes in a frame
pub const DISPLAY_BYTES: usize = DISPLAY_WIDTH * DISPLAY_PAGES;

/// The controller has 128 columns; the 72 physical pixels start at this one
pub const DISPLAY_COL_OFFSET: u8 = 28;

/// First byte of a packet of commands
pub const SSD1306_CMD: u8 = 0x00;

/// First byte of a packet of pixels
pub const SSD1306_DATA: u8 = 0x40;

/// Whether a pixel is lit.
#[derive(Clone, Copy, Debug, PartialEq, Eq, Structural)]
pub enum BinaryColor {
    Off,
    On,
}

/// A font of fixed width.
#[derive(Clone, Copy, Debug, PartialEq, Eq, Structural)]
pub enum Font {
    /// Six by ten pixels.
    Small,
    /// Ten by twenty pixels.
    Large,
}

/// A frame: five pages of 72 columns, each byte a column of eight pixels with the
/// topmost in the lowest bit.
#[derive(Clone, Copy)]
pub struct DisplayBuffer {
    pub buffer: [u8; DISPLAY_BYTES],
}

/// The place lies on the display.
pub open spec fn on_display(x: int, y: int) -> bool {
    0 <= x < DISPLAY_WIDTH && 0 <= y < DISPLAY_HEIGHT
}

/// Bit `k` of `b`.
pub open spec fn bit(b: u8, k: int) -> bool {
    (b >> (k as u8)) & 1 == 1
}

impl DisplayBuffer {
    /// Whether the pixel at `x`, `y` is lit.
    pub open spec fn lit(self, x: int, y: int) -> bool {
        bit(self.buffer@[x + y / 8 * DISPLAY_WIDTH], y % 8)
    }
}

/// The place lies in the box from `x0`, `y0` up to but not at `x1`, `y1`.
pub open spec fn in_box(x: int, y: int, x0: int, y0: int, x1: int, y1: int) -> bool {
    x0 <= x < x1 && y0 <= y < y1
}

/// The strokes of a large "4": right stem, left stem, crossbar.
pub open spec fn in_four(x: int, y: int) -> bool {
    in_box(x, y, 44, 2, 50, 38) || in_box(x, y, 22, 2, 28, 26) || in_box(x, y, 22, 20, 50, 26)
}

/// A plus sign of five pixels around `cx`, `cy`.
pub open spec fn in_plus(x: int, y: int, cx: int, cy: int) -> bool {
    (y == cy && cx - 1 <= x <= cx + 1) || (x == cx && cy - 1 <= y <= cy + 1)
}

/// The plus signs at the four corners.
pub open spec fn in_decorations(x: int, y: int) -> bool {
    in_plus(x, y, 3, 3) || in_plus(x, y, 68, 3) || in_plus(x, y, 3, 36) || in_plus(x, y, 68, 36)
}

/// Whether the pixel at `x`, `y` is lit in a bitmap of 72 by 40 pixels: nine bytes to a
/// row, the leftmost pixel of a byte in its highest bit.
pub open spec fn bitmap_lit(bitmap: Seq<u8>, x: int, y: int) -> bool {
    bit(bitmap[y * 9 + x / 8], 7 - x % 8)
}

/// The bitmap of 72 by 40 pixels that `embedded_graphics` renders for a text with the
/// left end of its baseline at `x`, `y`, in the large or the small font.
pub uninterp spec fn text_bitmap(text: Seq<char>, x: int, y: int, large: bool) -> Seq<u8>;

/// Draws `text` with `embedded_graphics::text::Text` onto an empty `Framebuffer` of 72 by
/// 40 pixels and hands out its bytes. The bitmap depends on the arguments alone and has
/// 360 bytes; which pixels a character lights is left to the crate's fonts.
#[verifier::external_body]
fn render_text(text: &str, x: i32, y: i32, font: Font) -> (bitmap: Vec<u8>)
    requires
        text@.len() <= 16,
        0 <= x < 72,
        0 <= y < 40,
    ensures
        bitmap@ == text_bitmap(text@, x as int, y as int, font == Font::Large),
        bitmap@.len() == 360,
{
    let face = match font {
        Font::Small => &FONT_6X10,
        Font::Large => &FONT_10X20,
    };
    let style = MonoTextStyleBuilder::new().font(face).text_color(PixelState::On).build();
    let mut target = Framebuffer::<PixelState, RawU1, LittleEndian, 72, 40, 360>::new();
    Text::new(text, Point::new(x, y), style).draw(&mut target).unwrap();
    target.data().to_vec()
}

/// Setting or clearing one bit leaves the others alone.
proof fn lemma_one_bit(b: u8, k: u8, j: u8)
    by (bit_vector)
    requires
        k < 8,
        j < 8,
    ensures
        ((b | (1u8 << k)) >> j) & 1 == 1 <==> (j == k || (b >> j) & 1 == 1),
        ((b & !(1u8 << k)) >> j) & 1 == 1 <==> (j != k && (b >> j) & 1 == 1),
        ((0u8 >> j) & 1) == 0,
{
}

impl Default for DisplayBuffer {
    /// A dark frame.
    fn default() -> (frame: Self)
        ensures
            forall|x: int, y: int| on_display(x, y) ==> !#[trigger] frame.lit(x, y),
            frame.buffer@ == Seq::new(DISPLAY_BYTES as nat, |i: int| 0u8),
    {
        let frame = DisplayBuffer { buffer: [0u8; DISPLAY_BYTES] };
        assert(frame.buffer@ =~= Seq::new(DISPLAY_BYTES as nat, |i: int| 0u8));
        assert forall|x: int, y: int| on_display(x, y) implies !#[trigger] frame.lit(x, y) by {
            lemma_one_bit(0, 0, (y % 8) as u8);
        }
        frame
    }
}

impl DisplayBuffer {
    /// Darkens the whole frame.
    pub fn clear(&mut self)
        ensures
            forall|x: int, y: int| on_display(x, y) ==> !#[trigger] final(self).lit(x, y),
            final(self).buffer@ == Seq::new(DISPLAY_BYTES as nat, |i: int| 0u8),
    {
        *self = DisplayBuffer::default();
    }

    /// Sets one pixel; a place off the display is ignored.
    pub fn set_pixel(&mut self, x: i32, y: i32, color: BinaryColor)
        ensures
            !on_display(x as int, y as int) ==> final(self).buffer@ == old(self).buffer@,
            forall|px: int, py: int|
                on_display(px, py) ==> #[trigger] final(self).lit(px, py) == if px == x && py == y {
                    color == BinaryColor::On
                } else {
                    old(self).lit(px, py)
                },
    {
        if x < 0 || y < 0 || x >= DISPLAY_WIDTH as i32 || y >= DISPLAY_HEIGHT as i32 {
            return ;
        }
        let column: usize = x as usize;
        let row: usize = y as usize;
        let page: usize = row / 8;
        let index: usize = column + page * DISPLAY_WIDTH;
        let shift: u8 = (row % 8) as u8;
        let mask: u8 = 1u8 << shift;
        let byte: u8 = self.buffer[index];
        if color == BinaryColor::On {
            self.buffer[index] = byte | mask;
        } else {
            self.buffer[index] = byte & !mask;
        }
        assert forall|px: int, py: int| on_display(px, py) implies #[trigger] self.lit(px, py)
            == if px == x && py == y {
            color == BinaryColor::On
        } else {
            old(self).lit(px, py)
        } by {
            lemma_one_bit(byte, shift, (py % 8) as u8);
        }
    }

    /// Lights every pixel of a box.
    fn fill_box(&mut self, x0: i32, y0: i32, x1: i32, y1: i32)
        requires
            0 <= x0 <= x1 <= 72,
            0 <= y0 <= y1 <= 40,
        ensures
            forall|px: int, py: int|
                on_display(px, py) ==> #[trigger] final(self).lit(px, py) == (in_box(
                    px,
                    py,
                    x0 as int,
                    y0 as int,
                    x1 as int,
                    y1 as int,
                ) || old(self).lit(px, py)),
    {
        let mut y: i32 = y0;
        while y < y1
            invariant
                0 <= x0 <= x1 <= 72,
                0 <= y0 <= y <= y1 <= 40,
                forall|px: int, py: int|
                    on_display(px, py) ==> #[trigger] self.lit(px, py) == (in_box(
                        px,
                        py,
                        x0 as int,
                        y0 as int,
                        x1 as int,
                        y as int,
                    ) || old(self).lit(px, py)),
            decreases y1 - y,
        {
            let mut x: i32 = x0;
            while x < x1
                invariant
                    0 <= x0 <= x <= x1 <= 72,
                    0 <= y0 <= y < y1 <= 40,
                    forall|px: int, py: int|
                        on_display(px, py) ==> #[trigger] self.lit(px, py) == (in_box(
                            px,
                            py,
                            x0 as int,
                            y0 as int,
                            x1 as int,
                            y as int,
                        ) || (py == y && x0 <= px < x) || old(self).lit(px, py)),
                decreases x1 - x,
            {
                self.set_pixel(x, y, BinaryColor::On);
                x = x + 1;
            }
            y = y + 1;
        }
    }

    /// Lights a plus sign of five pixels, away from the edges.
    fn draw_plus(&mut self, cx: i32, cy: i32)
        requires
            1 <= cx <= 70,
            1 <= cy <= 38,
        ensures
            forall|px: int, py: int|
                on_display(px, py) ==> #[trigger] final(self).lit(px, py) == (in_plus(
                    px,
                    py,
                    cx as int,
                    cy as int,
                ) || old(self).lit(px, py)),
    {
        self.set_pixel(cx, cy, BinaryColor::On);
        self.set_pixel(cx - 1, cy, BinaryColor::On);
        self.set_pixel(cx + 1, cy, BinaryColor::On);
        self.set_pixel(cx, cy - 1, BinaryColor::On);
        self.set_pixel(cx, cy + 1, BinaryColor::On);
    }

    /// Lights the pixels that are lit in `bitmap`, a bitmap of 72 by 40 pixels.
    pub fn draw_bitmap(&mut self, bitmap: &[u8])
        requires
            bitmap@.len() == 360,
        ensures
            forall|px: int, py: int|
                on_display(px, py) ==> #[trigger] final(self).lit(px, py) == (bitmap_lit(
                    bitmap@,
                    px,
                    py,
                ) || old(self).lit(px, py)),
    {
        let mut y: i32 = 0;
        while y < 40
            invariant
                0 <= y <= 40,
                bitmap@.len() == 360,
                forall|px: int, py: int|
                    on_display(px, py) ==> #[trigger] self.lit(px, py) == ((py < y && bitmap_lit(
                        bitmap@,
                        px,
                        py,
                    )) || old(self).lit(px, py)),
            decreases 40 - y,
        {
            let mut x: i32 = 0;
            while x < 72
                invariant
                    0 <= x <= 72,
                    0 <= y < 40,
                    bitmap@.len() == 360,
                    forall|px: int, py: int|
                        on_display(px, py) ==> #[trigger] self.lit(px, py) == (((py < y || (py == y
                            && px < x)) && bitmap_lit(bitmap@, px, py)) || old(self).lit(px, py)),
                decreases 72 - x,
            {
                let byte: u8 = bitmap[(y * 9 + x / 8) as usize];
                let shift: u8 = (7 - x % 8) as u8;
                if (byte >> shift) & 1 == 1 {
                    self.set_pixel(x, y, BinaryColor::On);
                }
                x = x + 1;
            }
            y = y + 1;
        }
    }

    /// Lights the pixels of `text`, with the left end of its baseline at `x`, `y`.
    pub fn draw_text(&mut self, text: &str, x: i32, y: i32, font: Font)
        requires
            text@.len() <= 16,
            0 <= x < 72,
            0 <= y < 40,
        ensures
            forall|px: int, py: int|
                on_display(px, py) ==> #[trigger] final(self).lit(px, py) == (bitmap_lit(
                    text_bitmap(text@, x as int, y as int, font == Font::Large),
                    px,
                    py,
                ) || old(self).lit(px, py)),
    {
        let bitmap = render_text(text, x, y, font);
        self.draw_bitmap(bitmap.as_slice());
    }
}

/// Draws a large "4" filling most of the display.
pub fn draw_number_four(buf: &mut DisplayBuffer)
    ensures
        forall|px: int, py: int|
            on_display(px, py) ==> #[trigger] final(buf).lit(px, py) == (in_four(px, py) || old(
                buf,
            ).lit(px, py)),
{
    // Right vertical stroke, full height
    buf.fill_box(44, 2, 50, 38);
    // Left vertical stroke, stops at crossbar
    buf.fill_box(22, 2, 28, 26);
    // Horizontal crossbar, full width
    buf.fill_box(22, 20, 50, 26);
}

/// Draws small plus signs at the four corners of the display.
pub fn draw_display_decorations(buf: &mut DisplayBuffer)
    ensures
        forall|px: int, py: int|
            on_display(px, py) ==> #[trigger] final(buf).lit(px, py) == (in_decorations(px, py)
                || old(buf).lit(px, py)),
{
    buf.draw_plus(3, 3);
    buf.draw_plus(68, 3);
    buf.draw_plus(3, 36);
    buf.draw_plus(68, 36);
}

/// The commands that set the controller up, in order.
pub open spec fn init_commands() -> Seq<u8> {
    seq![
        0xAEu8, 0xD5u8, 0x80u8, 0xA8u8, 0x27u8, 0xD3u8, 0x00u8, 0x40u8, 0x8Du8, 0x14u8, 0x20u8,
        0x00u8, 0xA1u8, 0xC8u8, 0xDAu8, 0x12u8, 0x81u8, 0x8Fu8, 0xD9u8, 0xF1u8, 0xDBu8, 0x40u8,
        0xA4u8, 0xA6u8, 0xAFu8,
    ]
}

/// Packet `i` of commands, when a packet carries up to sixteen of them.
pub open spec fn command_packet(commands: Seq<u8>, i: int) -> Seq<u8> {
    let end = if 16 * i + 16 <= commands.len() {
        16 * i + 16
    } else {
        commands.len() as int
    };
    seq![SSD1306_CMD] + commands.subrange(16 * i, end)
}

/// The packets that set the controller up, in the order in which they are sent.
pub fn init_packets() -> (packets: Vec<Vec<u8>>)
    ensures
        packets@.len() == (init_commands().len() + 15) / 16,
        forall|i: int|
            0 <= i < packets@.len() ==> (#[trigger] packets@[i])@ == command_packet(
                init_commands(),
                i,
            ),
{
    let commands: [u8; 25] = [
        0xAE, 0xD5, 0x80, 0xA8, 0x27, 0xD3, 0x00, 0x40, 0x8D, 0x14, 0x20, 0x00, 0xA1, 0xC8, 0xDA,
        0x12, 0x81, 0x8F, 0xD9, 0xF1, 0xDB, 0x40, 0xA4, 0xA6, 0xAF,
    ];
    assert(commands@ =~= init_commands());
    let mut packets: Vec<Vec<u8>> = Vec::new();
    let mut start: usize = 0;
    while start < 25
        invariant
            commands@ == init_commands(),
            start == 16 * packets@.len(),
            start <= 32,
            forall|i: int|
                0 <= i < packets@.len() ==> (#[trigger] packets@[i])@ == command_packet(
                    init_commands(),
                    i,
                ),
        decreases 32 - start,
    {
        let end: usize = if start + 16 <= 25 {
            start + 16
        } else {
            25
        };
        let mut packet: Vec<u8> = Vec::new();
        packet.push(SSD1306_CMD);
        let mut k: usize = start;
        while k < end
            invariant
                start <= k <= end <= 25,
                packet@ == seq![SSD1306_CMD] + commands@.subrange(start as int, k as int),
            decreases end - k,
        {
            packet.push(commands[k]);
            assert(packet@ =~= seq![SSD1306_CMD] + commands@.subrange(start as int, k + 1));
            k = k + 1;
        }
        assert(packet@ == command_packet(init_commands(), packets@.len() as int));
        packets.push(packet);
        start = start + 16;
    }
    packets
}

/// The packet that selects a page and its first column.
pub open spec fn page_select(page: int) -> Seq<u8> {
    seq![
        SSD1306_CMD,
        (0xB0 + page) as u8,
        (DISPLAY_COL_OFFSET % 16) as u8,
        (0x10 + DISPLAY_COL_OFFSET / 16) as u8,
    ]
}

/// The packet that carries the columns of a page.
pub open spec fn page_pixels(frame: Seq<u8>, page: int) -> Seq<u8> {
    seq![SSD1306_DATA] + frame.subrange(page * DISPLAY_WIDTH, (page + 1) * DISPLAY_WIDTH)
}

/// Packet `i` of those that bring `frame` to the display: for every page one that
/// selects it and one with its pixels.
pub open spec fn flush_packet(frame: Seq<u8>, i: int) -> Seq<u8> {
    if i % 2 == 0 {
        page_select(i / 2)
    } else {
        page_pixels(frame, i / 2)
    }
}

impl DisplayBuffer {
    /// The packets that bring this frame to the display, in the order in which they are
    /// sent: for every page one that selects it and one with its pixels.
    pub fn flush_packets(&self) -> (packets: Vec<Vec<u8>>)
        ensures
            packets@.len() == 2 * DISPLAY_PAGES,
            forall|i: int|
                0 <= i < packets@.len() ==> (#[trigger] packets@[i])@ == flush_packet(
                    self.buffer@,
                    i,
                ),
    {
        let mut packets: Vec<Vec<u8>> = Vec::new();
        let mut page: usize = 0;
        while page < DISPLAY_PAGES
            invariant
                page <= DISPLAY_PAGES,
                packets@.len() == 2 * page,
                forall|i: int|
                    0 <= i < packets@.len() ==> (#[trigger] packets@[i])@ == flush_packet(
                        self.buffer@,
                        i,
                    ),
            decreases DISPLAY_PAGES - page,
        {
            let page_bits: u8 = page as u8;
            assert(page_bits < 5 ==> 0xB0u8 | page_bits == 0xB0 + page_bits) by (bit_vector);
            assert(28u8 & 0x0F == 28u8 % 16) by (bit_vector);
            assert(0x10u8 | (28u8 >> 4) == 0x10 + 28u8 / 16) by (bit_vector);
            let mut select: Vec<u8> = Vec::new();
            select.push(SSD1306_CMD);
            select.push(0xB0 | page_bits);
            select.push(DISPLAY_COL_OFFSET & 0x0F);
            select.push(0x10 | (DISPLAY_COL_OFFSET >> 4));
            assert(select@ =~= page_select(page as int));

            let mut pixels: Vec<u8> = Vec::new();
            pixels.push(SSD1306_DATA);
            let first: usize = page * DISPLAY_WIDTH;
            let mut k: usize = 0;
            while k < DISPLAY_WIDTH
                invariant
                    k <= DISPLAY_WIDTH,
                    page < DISPLAY_PAGES,
                    first == page * DISPLAY_WIDTH,
                    pixels@ == seq![SSD1306_DATA] + self.buffer@.subrange(first as int, first + k),
                decreases DISPLAY_WIDTH - k,
            {
                pixels.push(self.buffer[first + k]);
                assert(pixels@ =~= seq![SSD1306_DATA] + self.buffer@.subrange(
                    first as int,
                    first + k + 1,
                ));
                k = k + 1;
            }
            packets.push(select);
            packets.push(pixels);
            page = page + 1;
        }
        packets
    }
}

/// Eight bits make a byte.
proof fn lemma_bits_make_a_byte(a: u8, b: u8)
    by (bit_vector)
    requires
        (a >> 0u8) & 1 == (b >> 0u8) & 1,
        (a >> 1u8) & 1 == (b >> 1u8) & 1,
        (a >> 2u8) & 1 == (b >> 2u8) & 1,
        (a >> 3u8) & 1 == (b >> 3u8) & 1,
        (a >> 4u8) & 1 == (b >> 4u8) & 1,
        (a >> 5u8) & 1 == (b >> 5u8) & 1,
        (a >> 6u8) & 1 == (b >> 6u8) & 1,
        (a >> 7u8) & 1 == (b >> 7u8) & 1,
    ensures
        a == b,
{
}

/// A bit is zero or one.
proof fn lemma_bit_is_binary(a: u8, k: u8)
    by (bit_vector)
    ensures
        (a >> k) & 1 == 0 || (a >> k) & 1 == 1,
{
}

/// Bytes with the same bits are the same.
pub proof fn lemma_bits_determine_byte(a: u8, b: u8)
    requires
        forall|k: int| 0 <= k < 8 ==> bit(a, k) == #[trigger] bit(b, k),
    ensures
        a == b,
{
    assert forall|k: u8| k < 8 implies #[trigger] ((a >> k) & 1) == (b >> k) & 1 by {
        lemma_bit_is_binary(a, k);
        lemma_bit_is_binary(b, k);
        assert(bit(a, k as int) == bit(b, k as int));
    }
    lemma_bits_make_a_byte(a, b);
}

/// The pixels determine the frame: frames that look alike are the same bytes.
pub proof fn law_pixels_determine_the_frame(a: DisplayBuffer, b: DisplayBuffer)
    requires
        forall|x: int, y: int| on_display(x, y) ==> #[trigger] a.lit(x, y) == b.lit(x, y),
    ensures
        a.buffer@ == b.buffer@,
{
    assert forall|i: int| 0 <= i < DISPLAY_BYTES implies a.buffer@[i] == b.buffer@[i] by {
        let x: int = i % 72;
        let top: int = i / 72 * 8;
        assert forall|k: int| 0 <= k < 8 implies bit(a.buffer@[i], k) == #[trigger] bit(
            b.buffer@[i],
            k,
        ) by {
            let y: int = top + k;
            assert(y / 8 == i / 72 && y % 8 == k);
            assert(on_display(x, y));
            assert(a.lit(x, y) == b.lit(x, y));
        }
        lemma_bits_determine_byte(a.buffer@[i], b.buffer@[i]);
    }
    assert(a.buffer@ =~= b.buffer@);
}

/// The page packets carry the whole frame: byte by byte, page after page.
pub proof fn law_pages_carry_the_frame(frame: Seq<u8>, i: int)
    requires
        frame.len() == DISPLAY_BYTES,
        0 <= i < DISPLAY_BYTES,
    ensures
        page_pixels(frame, i / 72).len() == DISPLAY_WIDTH + 1,
        page_pixels(frame, i / 72)[1 + i % 72] == frame[i],
{
}

/// The bits of a byte, each worth twice the one before, add up to it.
pub proof fn law_bits_add_up(b: u8)
    ensures
        b == (if bit(b, 0) { 1int } else { 0 }) + (if bit(b, 1) { 2int } else { 0 }) + (if bit(b, 2) {
            4int
        } else {
            0
        }) + (if bit(b, 3) { 8int } else { 0 }) + (if bit(b, 4) { 16int } else { 0 }) + (if bit(
            b,
            5,
        ) {
            32int
        } else {
            0
        }) + (if bit(b, 6) { 64int } else { 0 }) + (if bit(b, 7) { 128int } else { 0 }),
{
    lemma_weighted_bits(b);
}

/// The bits of a byte, weighted, make it up.
proof fn lemma_weighted_bits(b: u8)
    by (bit_vector)
    ensures
        (b >> 0u8) & 1 <= 1,
        (b >> 1u8) & 1 <= 1,
        (b >> 2u8) & 1 <= 1,
        (b >> 3u8) & 1 <= 1,
        (b >> 4u8) & 1 <= 1,
        (b >> 5u8) & 1 <= 1,
        (b >> 6u8) & 1 <= 1,
        (b >> 7u8) & 1 <= 1,
        b == ((b >> 0u8) & 1) + 2 * ((b >> 1u8) & 1) + 4 * ((b >> 2u8) & 1) + 8 * ((b >> 3u8) & 1)
            + 16 * ((b >> 4u8) & 1) + 32 * ((b >> 5u8) & 1) + 64 * ((b >> 6u8) & 1) + 128 * ((b
            >> 7u8) & 1),
{
}

/// Where the pixels lie: byte `x` of page `p` is the column of eight pixels at `x`, the
/// topmost in the lowest bit.
pub proof fn law_pages_hold_columns(frame: DisplayBuffer, x: int, p: int, k: int)
    requires
        0 <= x < 72,
        0 <= p < 5,
        0 <= k < 8,
    ensures
        frame.lit(x, 8 * p + k) == bit(frame.buffer@[72 * p + x], k),
{
    assert((8 * p + k) / 8 == p && (8 * p + k) % 8 == k);
}

/// Where the pixels of a rendered bitmap lie: nine bytes to a row, the leftmost of eight
/// pixels in the highest bit.
pub proof fn law_bitmaps_hold_rows(bitmap: Seq<u8>, y: int, c: int, k: int)
    requires
        0 <= c < 9,
        0 <= k < 8,
        0 <= y < 40,
    ensures
        bitmap_lit(bitmap, 8 * c + k, y) == bit(bitmap[9 * y + c], 7 - k),
{
    assert((8 * c + k) / 8 == c && (8 * c + k) % 8 == k);
}

/// The packets of a frame: before the pixels of each page comes its selection, at the
/// column where the physical pixels start, in two halves of four bits.
pub proof fn law_pages_are_selected_in_order(frame: Seq<u8>, page: int)
    requires
        0 <= page < 5,
    ensures
        flush_packet(frame, 2 * page) == seq![0x00u8, (0xB0 + page) as u8, 0x0Cu8, 0x11u8],
        flush_packet(frame, 2 * page + 1) == seq![0x40u8] + frame.subrange(
            72 * page,
            72 * page + 72,
        ),
{
    assert(flush_packet(frame, 2 * page) =~= seq![0x00u8, (0xB0 + page) as u8, 0x0Cu8, 0x11u8]);
}

/// The commands that set the controller up are sent whole and in order: up to sixteen in
/// a packet, after the byte that announces commands.
pub proof fn law_commands_are_sent_in_order(commands: Seq<u8>, k: int)
    requires
        0 <= k < commands.len(),
    ensures
        command_packet(commands, k / 16)[0] == 0x00,
        command_packet(commands, k / 16)[1 + k % 16] == commands[k],
        command_packet(commands, k / 16).len() <= 17,
{
}

/// The display is 72 pixels wide and 40 high.
pub proof fn law_display_is_72_by_40(x: int, y: int)
    ensures
        on_display(x, y) <==> 0 <= x <= 71 && 0 <= y <= 39,
{
}

} // verus!
