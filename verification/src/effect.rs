//! Light effects for the two mirrored LED sets.
use vstd::prelude::*;

use crate::color::{hsv_to_rgb, rainbow_color, RAINBOW_LEN, RGB8};

verus! {

/// Number of LEDs in each set
pub const NUM_LEDS: usize = 32;

/// Total number of LEDs across both sets
pub const TOTAL_LEDS: usize = NUM_LEDS * 2;

/// A light effect.
#[derive(Clone, Copy, Debug, PartialEq, Eq, Structural)]
pub enum Effect {
    Off,
    Standby,
    BlueRedChase,
    RainbowTravel,
    RainbowSections,
    WaveChase,
    AlternatingGlow,
    PulsingGreen,
    SolidGreen,
    RacingChase,
    Fireworks,
    CheckerPulse,
}

impl Effect {
    /// The effects in their listed order.
    pub open spec fn listed() -> Seq<Effect> {
        seq![
            Effect::Off,
            Effect::Standby,
            Effect::BlueRedChase,
            Effect::RainbowTravel,
            Effect::RainbowSections,
            Effect::WaveChase,
            Effect::AlternatingGlow,
            Effect::PulsingGreen,
            Effect::SolidGreen,
            Effect::RacingChase,
            Effect::Fireworks,
            Effect::CheckerPulse,
        ]
    }

    /// Every effect, in listed order.
    pub fn all() -> (effects: [Effect; 12])
        ensures
            effects@ == Effect::listed(),
    {
        let effects = [
            Effect::Off,
            Effect::Standby,
            Effect::BlueRedChase,
            Effect::RainbowTravel,
            Effect::RainbowSections,
            Effect::WaveChase,
            Effect::AlternatingGlow,
            Effect::PulsingGreen,
            Effect::SolidGreen,
            Effect::RacingChase,
            Effect::Fireworks,
            Effect::CheckerPulse,
        ];
        assert(effects@ =~= Effect::listed());
        effects
    }

    /// The place of this effect in [`Effect::all`].
    pub fn index(self) -> (place: usize)
        ensures
            place < Effect::listed().len(),
            Effect::listed()[place as int] == self,
    {
        let effects = Effect::all();
        let mut place: usize = 0;
        while effects[place] != self
            invariant
                effects@ == Effect::listed(),
                place < 12,
                forall|k: int| 0 <= k < place ==> Effect::listed()[k] != self,
            decreases 12 - place,
        {
            proof {
                if place == 11 {
                    law_every_effect_is_listed(self);
                }
            }
            place = place + 1;
        }
        place
    }

    /// The name shown for this effect.
    pub open spec fn name(self) -> Seq<char> {
        match self {
            Effect::Off => "Off"@,
            Effect::Standby => "Standby"@,
            Effect::BlueRedChase => "Blue Red Chase"@,
            Effect::RainbowTravel => "Rainbow Travel"@,
            Effect::RainbowSections => "Rainbow Sections"@,
            Effect::WaveChase => "Wave Chase"@,
            Effect::AlternatingGlow => "Alternating Glow"@,
            Effect::PulsingGreen => "Pulsing Green"@,
            Effect::SolidGreen => "Solid Green"@,
            Effect::RacingChase => "Racing Chase"@,
            Effect::Fireworks => "Fireworks"@,
            Effect::CheckerPulse => "Checker Pulse"@,
        }
    }

    /// The name shown for this effect.
    pub fn as_str(&self) -> (name: &'static str)
        ensures
            name@ == self.name(),
    {
        match self {
            Effect::Off => "Off",
            Effect::Standby => "Standby",
            Effect::BlueRedChase => "Blue Red Chase",
            Effect::RainbowTravel => "Rainbow Travel",
            Effect::RainbowSections => "Rainbow Sections",
            Effect::WaveChase => "Wave Chase",
            Effect::AlternatingGlow => "Alternating Glow",
            Effect::PulsingGreen => "Pulsing Green",
            Effect::SolidGreen => "Solid Green",
            Effect::RacingChase => "Racing Chase",
            Effect::Fireworks => "Fireworks",
            Effect::CheckerPulse => "Checker Pulse",
        }
    }

    /// The hue arithmetic of this effect stays within `usize` at tick `time`.
    pub open spec fn accepts_time(self, time: usize) -> bool {
        match self {
            Effect::RainbowTravel => hue_offset(NUM_LEDS - 1) + time <= usize::MAX,
            Effect::RacingChase => hue_offset(NUM_LEDS - 1) + time * 90 <= usize::MAX,
            Effect::Fireworks => hue_offset(NUM_LEDS - 1) + time * 3 <= usize::MAX,
            _ => true,
        }
    }

    /// The colour that this effect shows at tick `time` on the LED at place `local`
    /// of a set.
    pub open spec fn color(self, time: usize, local: int) -> RGB8 {
        match self {
            Effect::Off => RGB8::black(),
            Effect::Standby => if local < 2 {
                RGB8 { r: 128, g: 80, b: 0 }
            } else if local == 28 || local == 29 {
                RGB8 { r: 128, g: 128, b: 128 }
            } else {
                RGB8::black()
            },
            Effect::BlueRedChase => if local != chase_place(time as int) {
                RGB8::black()
            } else if chase_outbound(time as int) {
                RGB8 { r: 0, g: 0, b: 255 }
            } else {
                RGB8 { r: 255, g: 0, b: 0 }
            },
            Effect::RainbowTravel => crate::color::hue_color(hue_offset(local) + time, 255),
            Effect::RainbowSections => crate::color::rainbow()[(local / 4 + time as int / 10) % 7],
            Effect::WaveChase => wave_color((time as int / 2 + local) % 14),
            Effect::AlternatingGlow => {
                let pattern = (local + time as int / 5) % 3;
                if pattern == 0 {
                    crate::color::rainbow()[time as int / 8 % 7]
                } else if pattern == 1 {
                    RGB8::black()
                } else {
                    crate::color::rainbow()[(time as int / 8 + 3) % 7].divided(3)
                }
            },
            Effect::PulsingGreen => RGB8::of(0, triangle(time as int, 38), 0),
            Effect::SolidGreen => RGB8 { r: 0, g: 255, b: 0 },
            Effect::RacingChase => crate::color::hue_color(hue_offset(local) + time * 90, 255),
            Effect::Fireworks => if sparkles(local as usize, time) {
                RGB8 { r: 255, g: 255, b: 255 }
            } else {
                crate::color::hue_color(hue_offset(local) + time * 3, 220)
            },
            Effect::CheckerPulse => {
                let level = triangle(time as int, 10);
                if local % 2 == 0 {
                    RGB8::of(level, level, level)
                } else {
                    RGB8::of(255 - level, 255 - level, 255 - level)
                }
            },
        }
    }
}

/// The hue, in degrees, at place `local` of a still rainbow over one set.
pub open spec fn hue_offset(local: int) -> int {
    local * 360 / 32
}

/// Whether the chasing LED runs away from the start of the set.
pub open spec fn chase_outbound(time: int) -> bool {
    time / 3 % 64 < 32
}

/// The place of the chasing LED, which runs to the end of the set and back.
pub open spec fn chase_place(time: int) -> int {
    let position = time / 3 % 64;
    if position < 32 {
        position
    } else {
        63 - position
    }
}

/// The colour at one of the fourteen places of the wave: the rainbow at full
/// brightness, then the rainbow fading out.
pub open spec fn wave_color(position: int) -> RGB8 {
    if position < 7 {
        crate::color::rainbow()[position]
    } else {
        crate::color::rainbow()[position - 7].scaled(255 - (position - 7) * 255 / 7)
    }
}

/// A wave that rises from 0 to 255 over half a period and falls back over the other.
pub open spec fn triangle(time: int, period: int) -> int {
    let phase = time % period;
    if phase < period / 2 {
        phase * 510 / period
    } else {
        (period - phase) * 510 / period
    }
}

/// Whether a white sparkle covers place `local` at tick `time`; a sparkle lasts
/// three ticks.
pub open spec fn sparkles(local: usize, time: usize) -> bool {
    let hash = local.wrapping_mul(2654435761usize) ^ ((time / 3) as usize).wrapping_mul(
        2246822519usize,
    );
    hash & 0xFF < 40
}

/// The place within its set of LED `j` on the strip; the second set runs backwards.
pub open spec fn place_in_set(j: int) -> int {
    if j < NUM_LEDS {
        j
    } else {
        TOTAL_LEDS - 1 - j
    }
}

/// The level of a triangle wave of an even period.
fn triangle_level(time: usize, period: usize) -> (level: u8)
    requires
        period == 10 || period == 38,
    ensures
        level == triangle(time as int, period as int),
        0 <= triangle(time as int, period as int) <= 255,
{
    let phase: usize = time % period;
    if phase < period / 2 {
        (phase * 510 / period) as u8
    } else {
        ((period - phase) * 510 / period) as u8
    }
}

/// One channel scaled by `level / 255`.
fn scale_channel(channel: u8, level: u8) -> (scaled: u8)
    ensures
        scaled == (channel * level / 255) as u8,
        channel * level / 255 <= 255,
{
    assert(0 <= channel * level <= 255 * 255) by (nonlinear_arith)
        requires
            0 <= channel <= 255,
            0 <= level <= 255,
    ;
    (channel as u16 * level as u16 / 255) as u8
}

/// The colour that `effect` shows at tick `time` on the LED at place `local` of a set.
fn led_color(effect: Effect, time: usize, local: usize) -> (color: RGB8)
    requires
        local < NUM_LEDS,
        effect.accepts_time(time),
    ensures
        color == effect.color(time, local as int),
{
    match effect {
        Effect::Off => RGB8::default(),
        Effect::Standby => match local {
            // Corner markers, amber at half brightness
            0 | 1 => RGB8::new(128, 80, 0),
            // Centre markers, white at half brightness
            28 | 29 => RGB8::new(128, 128, 128),
            _ => RGB8::default(),
        },
        Effect::BlueRedChase => {
            // Chasing blue and red LEDs
            let position: usize = (time / 3) % (NUM_LEDS * 2);
            let led_pos: usize = if position < NUM_LEDS {
                position
            } else {
                NUM_LEDS * 2 - position - 1
            };
            if local == led_pos {
                if position < NUM_LEDS {
                    RGB8::new(0, 0, 255)
                } else {
                    RGB8::new(255, 0, 0)
                }
            } else {
                RGB8::default()
            }
        },
        Effect::RainbowTravel => {
            // Rainbow colors traveling along the strip
            let hue: usize = ((local * 360 / NUM_LEDS) + time) % 360;
            proof {
                crate::color::law_hue_wheel_closes(hue as int, (hue_offset(local as int) + time) / 360, 255);
            }
            hsv_to_rgb(hue as u16, 255)
        },
        Effect::RainbowSections => {
            // Divide strip into sections, each getting a rainbow color
            let section_size: usize = NUM_LEDS / RAINBOW_LEN;
            let section: usize = local / section_size;
            let color_idx: usize = (section + time / 10) % RAINBOW_LEN;
            rainbow_color(color_idx)
        },
        Effect::WaveChase => {
            // Wave effect moving along the strip
            let wave_position: usize = (time / 2 + local) % (RAINBOW_LEN * 2);
            let color_idx: usize = wave_position % RAINBOW_LEN;
            let color = rainbow_color(color_idx);
            if wave_position < RAINBOW_LEN {
                color
            } else {
                // Fade out on the way back
                let brightness: u8 = 255 - ((wave_position - RAINBOW_LEN) * 255 / RAINBOW_LEN) as u8;
                RGB8::new(
                    scale_channel(color.r, brightness),
                    scale_channel(color.g, brightness),
                    scale_channel(color.b, brightness),
                )
            }
        },
        Effect::AlternatingGlow => {
            // Alternating pattern that shifts
            let pattern: usize = (local + time / 5) % 3;
            match pattern {
                0 => rainbow_color((time / 8) % RAINBOW_LEN),
                1 => RGB8::default(),
                _ => {
                    let color = rainbow_color((time / 8 + 3) % RAINBOW_LEN);
                    RGB8::new(color.r / 3, color.g / 3, color.b / 3)
                },
            }
        },
        Effect::PulsingGreen => RGB8::new(0, triangle_level(time, 38), 0),
        Effect::SolidGreen => RGB8::new(0, 255, 0),
        Effect::RacingChase => {
            // Fast rainbow sweep
            let hue: usize = ((local * 360 / NUM_LEDS) + time * 90) % 360;
            proof {
                crate::color::law_hue_wheel_closes(hue as int, (hue_offset(local as int) + time * 90) / 360, 255);
            }
            hsv_to_rgb(hue as u16, 255)
        },
        Effect::Fireworks => {
            // Full rainbow across all LEDs with scattered white sparkles
            let base_hue: usize = ((local * 360 / NUM_LEDS) + time * 3) % 360;
            proof {
                crate::color::law_hue_wheel_closes(base_hue as int, (hue_offset(local as int) + time * 3) / 360, 220);
            }
            let base_color = hsv_to_rgb(base_hue as u16, 220);
            let sparkle_tick: usize = time / 3;
            let hash: usize = local.wrapping_mul(2654435761usize) ^ sparkle_tick.wrapping_mul(
                2246822519usize,
            );
            if hash & 0xFF < 40 {
                RGB8::new(255, 255, 255)
            } else {
                base_color
            }
        },
        Effect::CheckerPulse => {
            // Even places fade in while odd places fade out, then swap
            let brightness: u8 = triangle_level(time, 10);
            let v: u8 = if local % 2 == 0 {
                brightness
            } else {
                255 - brightness
            };
            RGB8::new(v, v, v)
        },
    }
}

/// Fills both LED sets with the frame that `effect` shows at tick `time`; nothing of
/// the previous frame remains.
pub fn update_leds(data: &mut [RGB8; TOTAL_LEDS], effect: Effect, time: usize)
    requires
        effect.accepts_time(time),
    ensures
        forall|j: int|
            0 <= j < TOTAL_LEDS ==> #[trigger] final(data)@[j] == effect.color(
                time,
                place_in_set(j),
            ),
{
    let mut i: usize = 0;
    while i < TOTAL_LEDS
        invariant
            i <= TOTAL_LEDS,
            effect.accepts_time(time),
            forall|j: int|
                0 <= j < TOTAL_LEDS && (if j < NUM_LEDS {
                    j < i
                } else {
                    TOTAL_LEDS + NUM_LEDS - 1 - j < i
                }) ==> #[trigger] data@[j] == effect.color(time, place_in_set(j)),
        decreases TOTAL_LEDS - i,
    {
        let local: usize = i % NUM_LEDS;
        let j: usize = if i >= NUM_LEDS {
            TOTAL_LEDS - 1 - local  // Mirror index for second set
        } else {
            local
        };
        data[j] = led_color(effect, time, local);
        i = i + 1;
    }
}

/// Every effect has a place in the list.
pub proof fn law_every_effect_is_listed(effect: Effect)
    ensures
        exists|k: int| 0 <= k < 12 && #[trigger] Effect::listed()[k] == effect,
{
    let k: int = match effect {
        Effect::Off => 0,
        Effect::Standby => 1,
        Effect::BlueRedChase => 2,
        Effect::RainbowTravel => 3,
        Effect::RainbowSections => 4,
        Effect::WaveChase => 5,
        Effect::AlternatingGlow => 6,
        Effect::PulsingGreen => 7,
        Effect::SolidGreen => 8,
        Effect::RacingChase => 9,
        Effect::Fireworks => 10,
        Effect::CheckerPulse => 11,
    };
    assert(Effect::listed()[k] == effect);
}

/// No effect is listed twice, so a place names one effect and an effect one place.
pub proof fn law_effects_are_listed_once(a: int, b: int)
    requires
        0 <= a < 12,
        0 <= b < 12,
        Effect::listed()[a] == Effect::listed()[b],
    ensures
        a == b,
{
}

/// The two sets show mirror images: LEDs equally far from the two ends of the strip
/// have the same colour under every effect.
pub proof fn law_sets_are_mirrored(effect: Effect, time: usize, j: int)
    requires
        0 <= j < TOTAL_LEDS,
    ensures
        effect.color(time, place_in_set(j)) == effect.color(
            time,
            place_in_set(TOTAL_LEDS - 1 - j),
        ),
{
}

/// The checkered LEDs pulse in antiphase: an even and an odd place always add up to
/// full brightness, and both are grey.
pub proof fn law_checker_pulses_in_antiphase(time: usize, even: int, odd: int)
    requires
        0 <= even < NUM_LEDS,
        0 <= odd < NUM_LEDS,
        even % 2 == 0,
        odd % 2 == 1,
    ensures
        ({
            let a = Effect::CheckerPulse.color(time, even);
            let b = Effect::CheckerPulse.color(time, odd);
            &&& a.r == a.g == a.b
            &&& b.r == b.g == b.b
            &&& a.r + b.r == 255
        }),
{
}

/// A triangle wave falls as it rose.
pub proof fn law_triangle_is_symmetric(phase: int, period: int)
    requires
        0 < phase < period,
        period % 2 == 0,
    ensures
        triangle(phase, period) == triangle(period - phase, period),
{
    assert(phase % period == phase) by (nonlinear_arith)
        requires
            0 < phase < period,
    ;
    assert((period - phase) % period == period - phase) by (nonlinear_arith)
        requires
            0 < phase < period,
    ;
}

/// The chase lights exactly one LED of a set, and that LED moves by at most one
/// place from a tick to the next.
pub proof fn law_chase_moves_one_led(time: usize, local: int)
    requires
        0 <= local < NUM_LEDS,
    ensures
        0 <= chase_place(time as int) < NUM_LEDS,
        (Effect::BlueRedChase.color(time, local) != RGB8::black()) <==> local == chase_place(
            time as int,
        ),
        -1 <= chase_place(time + 1) - chase_place(time as int) <= 1,
{
}

/// The number of ticks after which an effect starts over.
pub open spec fn period(effect: Effect) -> int {
    match effect {
        Effect::Off => 1,
        Effect::Standby => 1,
        Effect::BlueRedChase => 192,
        Effect::RainbowTravel => 360,
        Effect::RainbowSections => 70,
        Effect::WaveChase => 28,
        Effect::AlternatingGlow => 840,
        Effect::PulsingGreen => 38,
        Effect::SolidGreen => 1,
        Effect::RacingChase => 4,
        Effect::Fireworks => 3840,
        Effect::CheckerPulse => 10,
    }
}

/// The low byte of a wrapped product is that of the product of the low bytes.
proof fn lemma_low_byte_of_product(x: usize, y: usize)
    ensures
        x.wrapping_mul(y) & 0xFF == ((x as int % 256) * (y as int % 256)) % 256,
{
    let range: int = usize::MAX + 1;
    let p: int = x * y;
    let w: usize = x.wrapping_mul(y);
    assert(0 <= p) by (nonlinear_arith)
        requires
            p == x * y,
            0 <= x,
            0 <= y,
    ;
    assert(w == p % range);
    assert(w & 0xFF == w % 256) by (bit_vector);
    assert((p % range) % 256 == p % 256) by {
        let k: int = if range == 0x1_0000_0000 {
            0x100_0000
        } else {
            0x100_0000_0000_0000
        };
        assert(range == 256 * k);
        vstd::arithmetic::div_mod::lemma_mod_mod(p, 256, k);
    }
    vstd::arithmetic::div_mod::lemma_mul_mod_noop(x as int, y as int, 256);
}

/// Which places sparkle depends only on the low bytes of the place and of the sparkle
/// tick, so it is the same whatever the width of `usize`.
pub proof fn law_sparkles_are_portable(local: usize, time: usize)
    ensures
        sparkles(local, time) <==> (((local as int * 177) % 256) as usize ^ ((time as int / 3 * 119)
            % 256) as usize) < 40,
{
    let tick: usize = (time / 3) as usize;
    let a: usize = local.wrapping_mul(2654435761usize);
    let b: usize = tick.wrapping_mul(2246822519usize);
    lemma_low_byte_of_product(local, 2654435761usize);
    lemma_low_byte_of_product(tick, 2246822519usize);
    assert((a ^ b) & 0xFF == (a & 0xFF) ^ (b & 0xFF)) by (bit_vector);
    vstd::arithmetic::div_mod::lemma_mul_mod_noop_left(local as int, 177, 256);
    vstd::arithmetic::div_mod::lemma_mul_mod_noop_left(tick as int, 119, 256);
    assert(a & 0xFF == (local as int * 177) % 256);
    assert(b & 0xFF == (tick as int * 119) % 256);
}

/// The sparkles start over with the period of the fireworks.
proof fn lemma_sparkles_repeat(local: usize, time: usize, later: usize)
    requires
        later == time + 3840,
    ensures
        sparkles(local, later) == sparkles(local, time),
{
    law_sparkles_are_portable(local, time);
    law_sparkles_are_portable(local, later);
    lemma_index_repeats(time as int, 3, 1280, 0, 119, 256, 595);
}

/// An index that counts every `slow` ticks starts over after `slow * steps` ticks
/// where `steps * factor` is a number of whole turns.
proof fn lemma_index_repeats(
    time: int,
    slow: int,
    steps: nat,
    offset: int,
    factor: int,
    turn: int,
    turns: int,
)
    requires
        slow > 0,
        turn > 0,
        steps * factor == turn * turns,
    ensures
        ((time + slow * steps) / slow * factor + offset) % turn == (time / slow * factor + offset)
            % turn,
{
    vstd::arithmetic::div_mod::lemma_hoist_over_denominator(time, steps as int, slow as nat);
    assert(slow * steps == steps * slow) by (nonlinear_arith);
    let q: int = time / slow;
    assert((q + steps) * factor + offset == turn * turns + (q * factor + offset)) by (nonlinear_arith)
        requires
            steps * factor == turn * turns,
    ;
    vstd::arithmetic::div_mod::lemma_mod_multiples_vanish(turns, q * factor + offset, turn);
}

/// The rainbow indices of the slower effects start over with their periods.
proof fn lemma_indices_repeat(time: int, local: int)
    ensures
        (time + 192) / 3 % 64 == time / 3 % 64,
        (local / 4 + (time + 70) / 10) % 7 == (local / 4 + time / 10) % 7,
        ((time + 28) / 2 + local) % 14 == (time / 2 + local) % 14,
        (local + (time + 840) / 5) % 3 == (local + time / 5) % 3,
        (time + 840) / 8 % 7 == time / 8 % 7,
        ((time + 840) / 8 + 3) % 7 == (time / 8 + 3) % 7,
        (time + 38) % 38 == time % 38,
        (time + 10) % 10 == time % 10,
{
    lemma_index_repeats(time, 3, 64, 0, 1, 64, 1);
    lemma_index_repeats(time, 10, 7, local / 4, 1, 7, 1);
    lemma_index_repeats(time, 2, 14, local, 1, 14, 1);
    lemma_index_repeats(time, 5, 168, local, 1, 3, 56);
    lemma_index_repeats(time, 8, 105, 0, 1, 7, 15);
    lemma_index_repeats(time, 8, 105, 3, 1, 7, 15);
}

/// Every effect starts over after its period.
pub proof fn law_effects_repeat(effect: Effect, time: usize, local: int)
    requires
        0 <= local < NUM_LEDS,
        time + period(effect) <= usize::MAX,
    ensures
        effect.color((time + period(effect)) as usize, local) == effect.color(time, local),
{
    let later: usize = (time + period(effect)) as usize;
    match effect {
        Effect::RainbowTravel => {
            crate::color::law_hue_wheel_closes(hue_offset(local) + time, 1, 255);
        },
        Effect::RacingChase => {
            crate::color::law_hue_wheel_closes(hue_offset(local) + time * 90, 1, 255);
        },
        Effect::Fireworks => {
            crate::color::law_hue_wheel_closes(hue_offset(local) + time * 3, 32, 220);
            lemma_sparkles_repeat(local as usize, time, later);
        },
        _ => {
            lemma_indices_repeat(time as int, local);
        },
    }
}

/// The effects that do not move: nothing, solid green, and the markers of standby, amber
/// at the first two places and white at the two from place 28.
pub proof fn law_still_effects(time: usize, local: int)
    requires
        0 <= local < 32,
    ensures
        Effect::Off.color(time, local) == (RGB8 { r: 0, g: 0, b: 0 }),
        Effect::SolidGreen.color(time, local) == (RGB8 { r: 0, g: 255, b: 0 }),
        Effect::Standby.color(time, local) == if local == 0 || local == 1 {
            RGB8 { r: 128, g: 80, b: 0 }
        } else if local == 28 || local == 29 {
            RGB8 { r: 128, g: 128, b: 128 }
        } else {
            RGB8 { r: 0, g: 0, b: 0 }
        },
{
}

/// The chase, round by round of 192 ticks: the light stays three ticks on each place,
/// blue on its way out and red on its way back.
pub proof fn law_chase_runs_out_and_back(time: usize, local: int, rounds: int, step: int, rest: int)
    requires
        0 <= local < 32,
        time == 192 * rounds + 3 * step + rest,
        0 <= step < 64,
        0 <= rest < 3,
    ensures
        Effect::BlueRedChase.color(time, local) == if step < 32 && local == step {
            RGB8 { r: 0, g: 0, b: 255 }
        } else if step >= 32 && local == 63 - step {
            RGB8 { r: 255, g: 0, b: 0 }
        } else {
            RGB8 { r: 0, g: 0, b: 0 }
        },
{
    assert(time as int / 3 == 64 * rounds + step);
    assert((64 * rounds + step) % 64 == step);
}

/// The rainbows: each place shows the hue that lies its share of the full circle,
/// rounded down to a degree, ahead of the first; the travelling one moves on by a degree
/// per tick, the racing one by ninety, and the fireworks by three, a little darker.
pub proof fn law_rainbows_move_by_degrees(time: usize, local: int, ahead: int)
    requires
        0 <= local < 32,
        32 * ahead <= 360 * local < 32 * ahead + 32,
    ensures
        Effect::RainbowTravel.color(time, local) == crate::color::hue_color(ahead + time, 255),
        Effect::RacingChase.color(time, local) == crate::color::hue_color(ahead + 90 * time, 255),
        Effect::Fireworks.color(time, local) == (RGB8 { r: 255, g: 255, b: 255 })
            || Effect::Fireworks.color(time, local) == crate::color::hue_color(
            ahead + 3 * time,
            220,
        ),
{
    assert(ahead == hue_offset(local));
}

/// The fireworks sparkle exactly where the low bytes of the place and of the third part
/// of the tick, multiplied and combined, come below forty.
pub proof fn law_fireworks_sparkle(time: usize, local: int, ahead: int)
    requires
        0 <= local < 32,
        32 * ahead <= 360 * local < 32 * ahead + 32,
    ensures
        Effect::Fireworks.color(time, local) == if (((local * 177) % 256) as usize ^ ((time as int / 3
            * 119) % 256) as usize) < 40 {
            RGB8 { r: 255, g: 255, b: 255 }
        } else {
            crate::color::hue_color(ahead + 3 * time, 220)
        },
{
    law_sparkles_are_portable(local as usize, time);
    assert(ahead == hue_offset(local));
}

/// The sections: four places each show one rainbow colour, and every ten ticks each takes
/// the colour of the next.
pub proof fn law_sections_take_turns(time: usize, local: int, section: int, turn: int)
    requires
        0 <= local < 32,
        4 * section <= local < 4 * section + 4,
        10 * turn <= time < 10 * turn + 10,
    ensures
        Effect::RainbowSections.color(time, local) == crate::color::rainbow()[(section + turn) % 7],
{
    assert(local / 4 == section);
    assert(time as int / 10 == turn);
}

/// The wave: fourteen places long, it moves on by one place every two ticks. Its first
/// half is the rainbow; in its second half the rainbow comes again, every channel at a
/// level that falls by a seventh of 255 per place, rounding in favour of light.
#[verifier::rlimit(50)]
pub proof fn law_wave_fades_out(time: usize, local: int, step: int, place: int, level: int)
    requires
        0 <= local < 32,
        2 * step <= time < 2 * step + 2,
        place == (step + local) % 14,
        7 <= place ==> 7 * (255 - level) <= 255 * (place - 7) < 7 * (255 - level) + 7,
    ensures
        ({
            let c = Effect::WaveChase.color(time, local);
            let full = crate::color::rainbow()[place % 7];
            &&& place < 7 ==> c == full
            &&& 7 <= place ==> {
                &&& 255 * c.r <= full.r * level < 255 * c.r + 255
                &&& 255 * c.g <= full.g * level < 255 * c.g + 255
                &&& 255 * c.b <= full.b * level < 255 * c.b + 255
            }
        }),
{
    assert(time as int / 2 == step);
    if 7 <= place {
        assert(place % 7 == place - 7);
        assert(level == 255 - (place - 7) * 255 / 7);
        crate::color::law_channels_are_scaled_alike(crate::color::rainbow()[place - 7], 1, level);
    }
}

/// The glow: of three places in a row one shows a rainbow colour, the next is dark, and
/// the third shows a third of the colour three further on. The pattern moves every five
/// ticks, the colours every eight.
#[verifier::rlimit(50)]
pub proof fn law_glow_alternates(time: usize, local: int, shift: int, turn: int)
    requires
        0 <= local < 32,
        5 * shift <= time < 5 * shift + 5,
        8 * turn <= time < 8 * turn + 8,
    ensures
        ({
            let c = Effect::AlternatingGlow.color(time, local);
            let other = crate::color::rainbow()[(turn + 3) % 7];
            &&& (local + shift) % 3 == 0 ==> c == crate::color::rainbow()[turn % 7]
            &&& (local + shift) % 3 == 1 ==> c == (RGB8 { r: 0, g: 0, b: 0 })
            &&& (local + shift) % 3 == 2 ==> {
                &&& 3 * c.r <= other.r < 3 * c.r + 3
                &&& 3 * c.g <= other.g < 3 * c.g + 3
                &&& 3 * c.b <= other.b < 3 * c.b + 3
            }
        }),
{
    assert(time as int / 5 == shift);
    assert(time as int / 8 == turn);
    crate::color::law_channels_are_scaled_alike(crate::color::rainbow()[(turn + 3) % 7], 3, 0);
}

/// The pulses, by the distance to the nearest dark moment: green comes and goes in 38
/// ticks and the checkers in 10, each step of the way an equal share of 255, rounded
/// down, and the odd checkers show what the even ones lack.
#[verifier::rlimit(50)]
pub proof fn law_pulses_come_and_go(time: usize, local: int, rounds: int, phase: int, level: int)
    requires
        0 <= local < 32,
    ensures
        time == 38 * rounds + phase && 0 <= phase < 38 && 19 * level <= 255 * (if phase < 19 {
            phase
        } else {
            38 - phase
        }) < 19 * level + 19 ==> Effect::PulsingGreen.color(time, local) == (RGB8 {
            r: 0,
            g: level as u8,
            b: 0,
        }) && 0 <= level <= 255,
        time == 10 * rounds + phase && 0 <= phase < 10 && 5 * level <= 255 * (if phase < 5 {
            phase
        } else {
            10 - phase
        }) < 5 * level + 5 ==> {
            let c = Effect::CheckerPulse.color(time, local);
            &&& 0 <= level <= 255
            &&& c.r == c.g == c.b
            &&& local % 2 == 0 ==> c.r == level
            &&& local % 2 == 1 ==> c.r == 255 - level
        },
{
    if time == 38 * rounds + phase && 0 <= phase < 38 {
        assert(time as int % 38 == phase);
    }
    if time == 10 * rounds + phase && 0 <= phase < 10 {
        assert(time as int % 10 == phase);
    }
}

/// Where the LEDs of the strip stand in their sets: the first 32 in order, the others in
/// reverse.
pub proof fn law_second_set_runs_backwards(j: int)
    requires
        0 <= j < 64,
    ensures
        place_in_set(j) == if j < 32 {
            j
        } else {
            63 - j
        },
{
}

/// The rainbow: red, orange, yellow, green, blue, indigo, violet.
pub proof fn law_rainbow_runs_from_red_to_violet(i: int)
    requires
        0 <= i < 7,
    ensures
        crate::color::rainbow().len() == 7,
        crate::color::rainbow()[i] == if i == 0 {
            RGB8 { r: 255, g: 0, b: 0 }
        } else if i == 1 {
            RGB8 { r: 255, g: 165, b: 0 }
        } else if i == 2 {
            RGB8 { r: 255, g: 255, b: 0 }
        } else if i == 3 {
            RGB8 { r: 0, g: 255, b: 0 }
        } else if i == 4 {
            RGB8 { r: 0, g: 0, b: 255 }
        } else if i == 5 {
            RGB8 { r: 75, g: 0, b: 130 }
        } else {
            RGB8 { r: 238, g: 130, b: 238 }
        },
{
}

/// Only the effects whose hue grows with the time set a limit to it, and that limit is
/// where the degrees no longer fit; every other effect goes on for ever.
pub proof fn law_effects_accept_times(effect: Effect, time: usize)
    ensures
        effect.accepts_time(time) <==> {
            &&& effect == Effect::RainbowTravel ==> 348 + time <= usize::MAX
            &&& effect == Effect::RacingChase ==> 348 + 90 * time <= usize::MAX
            &&& effect == Effect::Fireworks ==> 348 + 3 * time <= usize::MAX
        },
{
}

} // verus!
