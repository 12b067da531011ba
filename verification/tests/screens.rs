use core::convert::Infallible;
use embedded_graphics::draw_target::DrawTarget;
use embedded_graphics::geometry::{OriginDimensions, Point, Size};
use embedded_graphics::mono_font::ascii::{FONT_10X20, FONT_6X10};
use embedded_graphics::mono_font::MonoTextStyleBuilder;
use embedded_graphics::pixelcolor::BinaryColor as PixelState;
use embedded_graphics::text::Text;
use embedded_graphics::{Drawable, Pixel};
use racer::display::{
    draw_display_decorations, draw_number_four, init_packets, BinaryColor, DisplayBuffer, Font,
};
use racer::frame::{draw_screen, led_frame};
use racer::race::{RaceMode, Racer};
use racer::{rainbow_color, RGB8};

struct Target(DisplayBuffer);

impl OriginDimensions for Target {
    fn size(&self) -> Size {
        Size::new(72, 40)
    }
}

impl DrawTarget for Target {
    type Color = PixelState;
    type Error = Infallible;

    fn draw_iter<I>(&mut self, pixels: I) -> Result<(), Infallible>
    where
        I: IntoIterator<Item = Pixel<PixelState>>,
    {
        for Pixel(point, color) in pixels {
            let color = if color == PixelState::On { BinaryColor::On } else { BinaryColor::Off };
            self.0.set_pixel(point.x, point.y, color);
        }
        Ok(())
    }
}

fn direct(texts: &[(&str, i32, i32, bool)]) -> [u8; 360] {
    let mut target = Target(DisplayBuffer::default());
    for (text, x, y, large) in texts {
        let font = if *large { &FONT_10X20 } else { &FONT_6X10 };
        let style = MonoTextStyleBuilder::new().font(font).text_color(PixelState::On).build();
        Text::new(text, Point::new(*x, *y), style).draw(&mut target).unwrap();
    }
    target.0.buffer
}

fn lit(frame: &DisplayBuffer, x: usize, y: usize) -> bool {
    frame.buffer[x + y / 8 * 72] >> (y % 8) & 1 == 1
}

fn screen(racer: &Racer) -> [u8; 360] {
    let mut frame = DisplayBuffer { buffer: [0xFF; 360] };
    draw_screen(racer, &mut frame);
    frame.buffer
}

#[test]
fn pixels_stand_in_columns_of_eight() {
    let mut frame = DisplayBuffer::default();
    frame.set_pixel(0, 0, BinaryColor::On);
    frame.set_pixel(71, 39, BinaryColor::On);
    frame.set_pixel(5, 10, BinaryColor::On);
    assert_eq!(frame.buffer[0], 1);
    assert_eq!(frame.buffer[359], 0x80);
    assert_eq!(frame.buffer[77], 4);
    frame.set_pixel(5, 9, BinaryColor::On);
    assert_eq!(frame.buffer[77], 6);
    frame.set_pixel(5, 10, BinaryColor::Off);
    assert_eq!(frame.buffer[77], 2);
    frame.clear();
    assert_eq!(frame.buffer, [0u8; 360]);
}

#[test]
fn every_pixel_has_a_bit_of_its_own() {
    let mut seen = [0u8; 360];
    for y in 0..40 {
        for x in 0..72 {
            let mut frame = DisplayBuffer::default();
            frame.set_pixel(x, y, BinaryColor::On);
            for i in 0..360 {
                assert_eq!(seen[i] & frame.buffer[i], 0);
                seen[i] |= frame.buffer[i];
            }
        }
    }
    assert_eq!(seen, [0xFF; 360]);
}

#[test]
fn places_off_the_display_are_ignored() {
    let mut frame = DisplayBuffer::default();
    for (x, y) in [(-1, 0), (0, -1), (72, 0), (0, 40), (i32::MIN, i32::MAX)] {
        frame.set_pixel(x, y, BinaryColor::On);
    }
    assert_eq!(frame.buffer, [0u8; 360]);
}

#[test]
fn a_large_four() {
    let mut frame = DisplayBuffer::default();
    draw_number_four(&mut frame);
    for y in 0..40usize {
        for x in 0..72usize {
            let right = (44..50).contains(&x) && (2..38).contains(&y);
            let left = (22..28).contains(&x) && (2..26).contains(&y);
            let bar = (22..50).contains(&x) && (20..26).contains(&y);
            assert_eq!(lit(&frame, x, y), right || left || bar);
        }
    }
}

#[test]
fn plus_signs_in_the_corners() {
    let mut frame = DisplayBuffer::default();
    draw_display_decorations(&mut frame);
    let mut expected = DisplayBuffer::default();
    for (cx, cy) in [(3, 3), (68, 3), (3, 36), (68, 36)] {
        for (dx, dy) in [(0, 0), (1, 0), (-1, 0), (0, 1), (0, -1)] {
            expected.set_pixel(cx + dx, cy + dy, BinaryColor::On);
        }
    }
    assert_eq!(frame.buffer, expected.buffer);
    assert_eq!(frame.buffer.iter().map(|b| b.count_ones()).sum::<u32>(), 20);
}

#[test]
fn texts_match_drawing_pixel_by_pixel() {
    for (text, x, y, large) in [
        ("3", 31, 26, true),
        ("READY", 11, 26, true),
        ("12.345", 6, 26, true),
        ("RACE OVER", 9, 11, false),
        ("0123456789012345", 0, 32, true),
        ("x", 71, 39, false),
    ] {
        let mut frame = DisplayBuffer::default();
        let font = if large { Font::Large } else { Font::Small };
        frame.draw_text(text, x, y, font);
        assert_eq!(frame.buffer, direct(&[(text, x, y, large)]));
        assert_ne!(frame.buffer, [0u8; 360]);
    }
}

#[test]
fn texts_are_drawn_over_what_is_there() {
    let mut frame = DisplayBuffer::default();
    draw_number_four(&mut frame);
    let four = frame.buffer;
    frame.draw_text("8", 31, 26, Font::Large);
    let text = direct(&[("8", 31, 26, true)]);
    for i in 0..360 {
        assert_eq!(frame.buffer[i], four[i] | text[i]);
    }
}

#[test]
fn bitmaps_are_drawn_row_by_row() {
    let mut bitmap = [0u8; 360];
    bitmap[0] = 0x80;
    bitmap[9 + 8] = 0x01;
    let mut frame = DisplayBuffer::default();
    frame.draw_bitmap(&bitmap);
    assert!(lit(&frame, 0, 0));
    assert!(lit(&frame, 71, 1));
    assert_eq!(frame.buffer.iter().map(|b| b.count_ones()).sum::<u32>(), 2);
}

#[test]
fn screen_of_the_display_mode() {
    let mut expected = DisplayBuffer::default();
    draw_number_four(&mut expected);
    draw_display_decorations(&mut expected);
    assert_eq!(screen(&Racer::new()), expected.buffer);
}

#[test]
fn screen_counts_down() {
    let mut racer = Racer::new();
    racer.mode = RaceMode::RaceReady;
    for (ticks, text) in
        [(0, "3"), (12, "3"), (13, "2"), (25, "2"), (26, "1"), (37, "1")]
    {
        racer.ready_ticks = ticks;
        assert_eq!(screen(&racer), direct(&[(text, 31, 26, true)]));
    }
    racer.ready_ticks = 38;
    assert_eq!(screen(&racer), direct(&[("READY", 11, 26, true)]));
}

#[test]
fn screen_shows_the_race_time() {
    let mut racer = Racer::new();
    racer.mode = RaceMode::Racing;
    racer.race_elapsed_ms = 4217;
    assert_eq!(screen(&racer), direct(&[("04.217", 6, 26, true)]));
    racer.race_elapsed_ms = 104217;
    assert_eq!(screen(&racer), direct(&[("104.217", 1, 26, true)]));
    racer.race_elapsed_ms = 1104217;
    assert_eq!(screen(&racer), direct(&[("1104.217", 0, 26, true)]));
}

#[test]
fn screen_of_a_finished_race() {
    let mut racer = Racer::new();
    racer.mode = RaceMode::RaceOver;
    racer.race_elapsed_ms = 12345;
    assert_eq!(
        screen(&racer),
        direct(&[("RACE OVER", 9, 11, false), ("12.345", 6, 32, true)])
    );
}

#[test]
fn setup_goes_in_two_packets() {
    let packets = init_packets();
    assert_eq!(
        packets,
        vec![
            vec![
                0x00, 0xAE, 0xD5, 0x80, 0xA8, 0x27, 0xD3, 0x00, 0x40, 0x8D, 0x14, 0x20, 0x00,
                0xA1, 0xC8, 0xDA, 0x12,
            ],
            vec![0x00, 0x81, 0x8F, 0xD9, 0xF1, 0xDB, 0x40, 0xA4, 0xA6, 0xAF],
        ]
    );
}

#[test]
fn pages_carry_the_frame() {
    let mut frame = DisplayBuffer::default();
    for (i, byte) in frame.buffer.iter_mut().enumerate() {
        *byte = (i % 251) as u8;
    }
    let packets = frame.flush_packets();
    assert_eq!(packets.len(), 10);
    let mut carried = Vec::new();
    for page in 0..5usize {
        assert_eq!(packets[2 * page], vec![0x00, 0xB0 + page as u8, 0x0C, 0x11]);
        assert_eq!(packets[2 * page + 1][0], 0x40);
        carried.extend_from_slice(&packets[2 * page + 1][1..]);
    }
    assert_eq!(carried, frame.buffer.to_vec());
}

#[test]
fn leds_show_the_mode_dimmed() {
    let mut racer = Racer::new();
    let colors = led_frame(&racer, 80 * 4 + 79);
    let yellow = rainbow_color(2);
    assert_eq!(colors[0], RGB8::new(yellow.r / 12, yellow.g / 12, yellow.b / 12));
    racer.mode = RaceMode::RaceReady;
    racer.ready_ticks = 38;
    assert_eq!(led_frame(&racer, 12345), [RGB8::new(0, 21, 0); 64]);
    racer.ready_ticks = 37;
    assert_eq!(led_frame(&racer, 80 * 10), [RGB8::new(0, 11, 0); 64]);
}
