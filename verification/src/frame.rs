//! What the display and the LEDs show of the racer.
use vstd::prelude::*;

use crate::buffer::{as_str, new_16, put_str, TextBuffer};
use crate::color::RGB8;
use crate::display::{draw_display_decorations, draw_number_four, DisplayBuffer, Font};
use crate::effect::{update_leds, TOTAL_LEDS};
use crate::race::{RaceMode, Racer, READY_DELAY_TICKS};
use crate::text::format_race_time;

verus! {

/// Milliseconds in a tick of the light effects
pub const TICK_MS: usize = 80;

/// What the LED channels are divided by
pub const LED_DIM: u8 = 12;

/// A text to draw and where its baseline starts.
pub struct Label {
    pub text: heapless::String<16>,
    pub x: i32,
    pub y: i32,
    pub font: Font,
}

/// The text, place and font of a label.
pub struct LabelModel {
    pub text: Seq<char>,
    pub x: int,
    pub y: int,
    pub large: bool,
}

impl Label {
    /// The text, place and font of this label.
    pub open spec fn model(self) -> LabelModel {
        LabelModel {
            text: self.text.text(),
            x: self.x as int,
            y: self.y as int,
            large: self.font == Font::Large,
        }
    }
}

impl LabelModel {
    /// Whether this label lights the pixel at `px`, `py`.
    pub open spec fn lights(self, px: int, py: int) -> bool {
        crate::display::bitmap_lit(
            crate::display::text_bitmap(self.text, self.x, self.y, self.large),
            px,
            py,
        )
    }
}

/// The digit shown after `ticks` ticks of settling: "3", "2", "1", a third of the delay
/// each.
pub open spec fn countdown(ticks: int) -> Seq<char> {
    let segment = ticks * 3 / READY_DELAY_TICKS as int;
    if segment == 0 {
        "3"@
    } else if segment == 1 {
        "2"@
    } else {
        "1"@
    }
}

/// Where a text of `len` large characters starts to stand in the middle.
pub open spec fn centred(len: int) -> int {
    if len * 10 <= 72 {
        (72 - len * 10) / 2
    } else {
        0
    }
}

/// The race time at height `y`, in the middle.
pub open spec fn time_label(ms: u64, y: int) -> LabelModel {
    let text = crate::text::race_time(ms);
    LabelModel { text, x: centred(text.len() as int), y, large: true }
}

impl Racer {
    /// The race time shown, if any, is short enough to be shown.
    pub open spec fn time_fits(self) -> bool {
        self.mode == RaceMode::Racing || self.mode == RaceMode::RaceOver ==> crate::text::race_time(
            self.race_elapsed_ms,
        ).len() <= 16
    }

    /// The labels on the display.
    pub open spec fn shown_labels(self) -> Seq<LabelModel> {
        match self.mode {
            RaceMode::Display => Seq::empty(),
            RaceMode::RaceReady => if self.ready_ticks < READY_DELAY_TICKS {
                seq![LabelModel { text: countdown(self.ready_ticks as int), x: 31, y: 26, large: true }]
            } else {
                seq![LabelModel { text: "READY"@, x: 11, y: 26, large: true }]
            },
            RaceMode::Racing => seq![time_label(self.race_elapsed_ms, 26)],
            RaceMode::RaceOver => seq![
                LabelModel { text: "RACE OVER"@, x: 9, y: 11, large: false },
                time_label(self.race_elapsed_ms, 32),
            ],
        }
    }

    /// Whether the pixel at `px`, `py` is lit.
    pub open spec fn shows(self, px: int, py: int) -> bool {
        ||| self.mode == RaceMode::Display && (crate::display::in_four(px, py)
            || crate::display::in_decorations(px, py))
        ||| exists|i: int|
            0 <= i < self.shown_labels().len() && (#[trigger] self.shown_labels()[i]).lights(px, py)
    }

    /// The tick of the light effects at time `now`.
    pub open spec fn effect_tick(now: u64) -> usize {
        ((now as usize) / TICK_MS) as usize
    }

    /// The labels to draw on the display.
    pub fn labels(&self) -> (labels: Vec<Label>)
        requires
            self.time_fits(),
        ensures
            labels@.len() == self.shown_labels().len(),
            forall|i: int|
                0 <= i < labels@.len() ==> (#[trigger] labels@[i]).model()
                    == self.shown_labels()[i],
            forall|i: int|
                0 <= i < labels@.len() ==> (#[trigger] labels@[i]).text.text().len() <= 16 && 0
                    <= labels@[i].x < 72 && 0 <= labels@[i].y < 40,
    {
        let mut labels: Vec<Label> = Vec::new();
        match self.mode {
            RaceMode::Display => {},
            RaceMode::RaceReady => {
                let rt: u16 = self.ready_ticks;
                if rt < READY_DELAY_TICKS {
                    // Countdown across the baseline delay.
                    let segment: u16 = rt * 3 / READY_DELAY_TICKS;
                    let digit = match segment {
                        0 => "3",
                        1 => "2",
                        _ => "1",
                    };
                    proof {
                        reveal_strlit("3");
                        reveal_strlit("2");
                        reveal_strlit("1");
                        crate::buffer::lemma_byte_len_ascii(digit@);
                    }
                    labels.push(fixed_label(digit, 31, 26, Font::Large));
                } else {
                    proof {
                        reveal_strlit("READY");
                        crate::buffer::lemma_byte_len_ascii("READY"@);
                    }
                    labels.push(fixed_label("READY", 11, 26, Font::Large));
                }
            },
            RaceMode::Racing => {
                labels.push(race_time_label(self.race_elapsed_ms, 26));
            },
            RaceMode::RaceOver => {
                proof {
                    reveal_strlit("RACE OVER");
                    crate::buffer::lemma_byte_len_ascii("RACE OVER"@);
                }
                labels.push(fixed_label("RACE OVER", 9, 11, Font::Small));
                labels.push(race_time_label(self.race_elapsed_ms, 32));
            },
        }
        labels
    }
}

/// A label with a fixed text.
fn fixed_label(text: &str, x: i32, y: i32, font: Font) -> (label: Label)
    requires
        crate::buffer::byte_len(text@) <= 16,
    ensures
        label.model() == (LabelModel {
            text: text@,
            x: x as int,
            y: y as int,
            large: font == Font::Large,
        }),
{
    let mut buf = new_16();
    put_str(&mut buf, text);
    assert(buf.text() =~= text@);
    Label { text: buf, x, y, font }
}

/// A label with a race time, in the middle at height `y`.
fn race_time_label(ms: u64, y: i32) -> (label: Label)
    requires
        crate::text::race_time(ms).len() <= 16,
    ensures
        label.model() == time_label(ms, y as int),
{
    let mut buf = new_16();
    format_race_time(ms, &mut buf);
    assert(buf.text() =~= crate::text::race_time(ms));
    let len: usize = as_str(&buf).len();
    let x: i32 = (72usize.saturating_sub(len * 10) / 2) as i32;
    Label { text: buf, x, y, font: Font::Large }
}

/// Draws what the display shows of `racer`, over whatever was there.
pub fn draw_screen(racer: &Racer, frame: &mut DisplayBuffer)
    requires
        racer.time_fits(),
    ensures
        forall|px: int, py: int|
            crate::display::on_display(px, py) ==> #[trigger] final(frame).lit(px, py)
                == racer.shows(px, py),
{
    frame.clear();
    if racer.mode == RaceMode::Display {
        draw_number_four(frame);
        draw_display_decorations(frame);
    }
    let labels = racer.labels();
    let mut n: usize = 0;
    while n < labels.len()
        invariant
            n <= labels@.len(),
            labels@.len() == racer.shown_labels().len(),
            forall|i: int|
                0 <= i < labels@.len() ==> (#[trigger] labels@[i]).model()
                    == racer.shown_labels()[i],
            forall|i: int|
                0 <= i < labels@.len() ==> (#[trigger] labels@[i]).text.text().len() <= 16 && 0
                    <= labels@[i].x < 72 && 0 <= labels@[i].y < 40,
            forall|px: int, py: int|
                crate::display::on_display(px, py) ==> #[trigger] frame.lit(px, py) == {
                    ||| racer.mode == RaceMode::Display && (crate::display::in_four(px, py)
                        || crate::display::in_decorations(px, py))
                    ||| exists|i: int|
                        0 <= i < n && (#[trigger] racer.shown_labels()[i]).lights(px, py)
                },
        decreases labels@.len() - n,
    {
        let label = &labels[n];
        let ghost before = *frame;
        frame.draw_text(as_str(&label.text), label.x, label.y, label.font);
        assert forall|px: int, py: int| crate::display::on_display(px, py) implies #[trigger] frame.lit(
            px,
            py,
        ) == {
            ||| racer.mode == RaceMode::Display && (crate::display::in_four(px, py)
                || crate::display::in_decorations(px, py))
            ||| exists|i: int|
                0 <= i < n + 1 && (#[trigger] racer.shown_labels()[i]).lights(px, py)
        } by {
            assert(before.lit(px, py) == {
                ||| racer.mode == RaceMode::Display && (crate::display::in_four(px, py)
                    || crate::display::in_decorations(px, py))
                ||| exists|i: int|
                    0 <= i < n && (#[trigger] racer.shown_labels()[i]).lights(px, py)
            });
            assert(labels@[n as int].model() == racer.shown_labels()[n as int]);
        }
        n = n + 1;
    }
}

/// The colours that the LEDs show of `racer` at time `now`.
pub fn led_frame(racer: &Racer, now: u64) -> (colors: [RGB8; TOTAL_LEDS])
    requires
        racer.shown_effect().accepts_time(Racer::effect_tick(now)),
    ensures
        forall|j: int|
            0 <= j < TOTAL_LEDS ==> #[trigger] colors@[j] == racer.shown_effect().color(
                Racer::effect_tick(now),
                crate::effect::place_in_set(j),
            ).divided(LED_DIM as int),
{
    let tick: usize = (now as usize) / TICK_MS;
    let mut colors: [RGB8; TOTAL_LEDS] = [RGB8 { r: 0, g: 0, b: 0 }; TOTAL_LEDS];
    let effect = racer.led_effect();
    update_leds(&mut colors, effect, tick);
    let ghost bright = colors@;
    let mut i: usize = 0;
    while i < TOTAL_LEDS
        invariant
            i <= TOTAL_LEDS,
            forall|j: int| 0 <= j < i ==> #[trigger] colors@[j] == bright[j].divided(LED_DIM as int),
            forall|j: int| i <= j < TOTAL_LEDS ==> #[trigger] colors@[j] == bright[j],
        decreases TOTAL_LEDS - i,
    {
        let c = colors[i];
        colors[i] = RGB8::new(c.r / LED_DIM, c.g / LED_DIM, c.b / LED_DIM);
        i = i + 1;
    }
    colors
}

/// The countdown shows each of its digits for a third of the 38 ticks.
pub proof fn law_countdown_goes_by_thirds(ticks: int)
    requires
        0 <= ticks < 38,
    ensures
        countdown(ticks) == if ticks <= 12 {
            "3"@
        } else if ticks <= 25 {
            "2"@
        } else {
            "1"@
        },
{
}

/// A large text stands in the middle of the 72 columns, at most half a column to the
/// left, and at the left edge if it is wider.
pub proof fn law_times_stand_in_the_middle(ms: u64, y: int)
    ensures
        ({
            let label = time_label(ms, y);
            let width = 10 * label.text.len();
            &&& label.text == crate::text::race_time(ms)
            &&& width <= 72 ==> 2 * label.x + width == 72 || 2 * label.x + width == 71
            &&& width > 72 ==> label.x == 0
            &&& label.y == y
            &&& label.large
        }),
{
}

/// What is written on the display in each mode: nothing while showing the number; the
/// countdown and then READY while getting ready; the running time while racing; and the
/// time under RACE OVER at the end.
pub proof fn law_labels_tell_the_mode(racer: Racer)
    ensures
        racer.mode == RaceMode::Display ==> racer.shown_labels().len() == 0,
        racer.mode == RaceMode::RaceReady ==> racer.shown_labels().len() == 1,
        racer.mode == RaceMode::RaceReady && racer.ready_ticks < 38 ==> racer.shown_labels()[0] == (
        LabelModel { text: countdown(racer.ready_ticks as int), x: 31, y: 26, large: true }),
        racer.mode == RaceMode::RaceReady && racer.ready_ticks >= 38 ==> racer.shown_labels()[0]
            == (LabelModel { text: "READY"@, x: 11, y: 26, large: true }),
        racer.mode == RaceMode::Racing ==> racer.shown_labels().len() == 1
            && racer.shown_labels()[0] == time_label(racer.race_elapsed_ms, 26),
        racer.mode == RaceMode::RaceOver ==> racer.shown_labels().len() == 2
            && racer.shown_labels()[0] == (LabelModel {
            text: "RACE OVER"@,
            x: 9,
            y: 11,
            large: false,
        }) && racer.shown_labels()[1] == time_label(racer.race_elapsed_ms, 32),
{
}

/// Every lit pixel has a reason and every reason lights its pixels: a label, or while
/// showing the number the strokes of the four and the plus signs in the corners.
#[verifier::rlimit(50)]
pub proof fn law_screen_shows_labels_and_number(racer: Racer, px: int, py: int)
    requires
        0 <= px < 72,
        0 <= py < 40,
    ensures
        racer.shows(px, py) <==> {
            ||| exists|i: int|
                0 <= i < racer.shown_labels().len() && {
                    let label = #[trigger] racer.shown_labels()[i];
                    crate::display::bitmap_lit(
                        crate::display::text_bitmap(label.text, label.x, label.y, label.large),
                        px,
                        py,
                    )
                }
            ||| racer.mode == RaceMode::Display && {
                ||| 44 <= px <= 49 && 2 <= py <= 37
                ||| 22 <= px <= 27 && 2 <= py <= 25
                ||| 22 <= px <= 49 && 20 <= py <= 25
                ||| (px == 3 || px == 68) && (2 <= py <= 4 || 35 <= py <= 37)
                ||| (py == 3 || py == 36) && (2 <= px <= 4 || 67 <= px <= 69)
            }
        },
{
    let labelled = exists|i: int|
        0 <= i < racer.shown_labels().len() && (#[trigger] racer.shown_labels()[i]).lights(px, py);
    let rendered = exists|i: int|
        0 <= i < racer.shown_labels().len() && {
            let label = #[trigger] racer.shown_labels()[i];
            crate::display::bitmap_lit(
                crate::display::text_bitmap(label.text, label.x, label.y, label.large),
                px,
                py,
            )
        };
    if labelled {
        let i = choose|i: int|
            0 <= i < racer.shown_labels().len() && (#[trigger] racer.shown_labels()[i]).lights(
                px,
                py,
            );
        assert(racer.shown_labels()[i].lights(px, py));
        assert(rendered);
    }
    if rendered {
        let i = choose|i: int|
            0 <= i < racer.shown_labels().len() && {
                let label = #[trigger] racer.shown_labels()[i];
                crate::display::bitmap_lit(
                    crate::display::text_bitmap(label.text, label.x, label.y, label.large),
                    px,
                    py,
                )
            };
        assert(racer.shown_labels()[i].lights(px, py));
        assert(labelled);
    }
}

/// The lights run at a tick of eighty milliseconds and at a twelfth of the brightness of
/// the effect, every channel rounded down.
pub proof fn law_lights_are_dimmed(color: RGB8, now: u64)
    ensures
        ({
            let dim = color.divided(LED_DIM as int);
            &&& 12 * dim.r <= color.r < 12 * dim.r + 12
            &&& 12 * dim.g <= color.g < 12 * dim.g + 12
            &&& 12 * dim.b <= color.b < 12 * dim.b + 12
        }),
        80 * Racer::effect_tick(now) <= now as usize,
        (now as usize) < 80 * Racer::effect_tick(now) + 80,
{
    crate::color::law_channels_are_scaled_alike(color, 12, 0);
}

} // verus!
