//! LED colours and the hue wheel.
use vstd::prelude::*;

verus! {

/// A colour with eight bits per channel.
#[derive(Clone, Copy, Debug, PartialEq, Eq, Structural)]
pub struct RGB8 {
    pub r: u8,
    pub g: u8,
    pub b: u8,
}

impl RGB8 {
    /// The colour with the given channels.
    pub fn new(r: u8, g: u8, b: u8) -> (color: Self)
        ensures
            color.r == r,
            color.g == g,
            color.b == b,
    {
        RGB8 { r, g, b }
    }

    /// An unlit LED.
    pub open spec fn black() -> RGB8 {
        RGB8 { r: 0, g: 0, b: 0 }
    }

    /// The colour whose channels are the given numbers, each within `0..=255`.
    pub open spec fn of(r: int, g: int, b: int) -> RGB8 {
        RGB8 { r: r as u8, g: g as u8, b: b as u8 }
    }

    /// Every channel divided by `divisor`, rounded down.
    pub open spec fn divided(self, divisor: int) -> RGB8 {
        RGB8::of(self.r as int / divisor, self.g as int / divisor, self.b as int / divisor)
    }

    /// Every channel scaled by `level / 255`, rounded down.
    pub open spec fn scaled(self, level: int) -> RGB8 {
        RGB8::of(self.r * level / 255, self.g * level / 255, self.b * level / 255)
    }
}

impl Default for RGB8 {
    /// An unlit LED.
    fn default() -> (color: Self)
        ensures
            color == RGB8::black(),
    {
        RGB8 { r: 0, g: 0, b: 0 }
    }
}

/// Number of rainbow colors
pub const RAINBOW_LEN: usize = 7;

/// Rainbow colors, from red round to violet
pub open spec fn rainbow() -> Seq<RGB8> {
    seq![
        RGB8 { r: 255, g: 0, b: 0 },  // Red
        RGB8 { r: 255, g: 165, b: 0 },  // Orange
        RGB8 { r: 255, g: 255, b: 0 },  // Yellow
        RGB8 { r: 0, g: 255, b: 0 },  // Green
        RGB8 { r: 0, g: 0, b: 255 },  // Blue
        RGB8 { r: 75, g: 0, b: 130 },  // Indigo
        RGB8 { r: 238, g: 130, b: 238 },  // Violet
    ]
}

/// The rainbow color at `index`
pub fn rainbow_color(index: usize) -> (color: RGB8)
    requires
        index < RAINBOW_LEN,
    ensures
        color == rainbow()[index as int],
{
    match index {
        0 => RGB8::new(255, 0, 0),
        1 => RGB8::new(255, 165, 0),
        2 => RGB8::new(255, 255, 0),
        3 => RGB8::new(0, 255, 0),
        4 => RGB8::new(0, 0, 255),
        5 => RGB8::new(75, 0, 130),
        _ => RGB8::new(238, 130, 238),
    }
}

/// How far a hue lies through its sixth of the wheel, from 0 up to 250.
pub open spec fn hue_fraction(hue: int) -> int {
    (hue % 60) * 255 / 60
}

/// The channel that grows through a sixth of the wheel.
pub open spec fn rising(hue: int, brightness: int) -> int {
    brightness - brightness * (255 - hue_fraction(hue)) / 255
}

/// The channel that shrinks through a sixth of the wheel.
pub open spec fn falling(hue: int, brightness: int) -> int {
    brightness - brightness * hue_fraction(hue) / 255
}

/// The fully saturated colour at `hue` degrees on the wheel.
pub open spec fn hue_color(hue: int, brightness: int) -> RGB8 {
    let up = rising(hue, brightness);
    let down = falling(hue, brightness);
    let sixth = (hue % 360) / 60;
    if sixth == 0 {
        RGB8::of(brightness, up, 0)
    } else if sixth == 1 {
        RGB8::of(down, brightness, 0)
    } else if sixth == 2 {
        RGB8::of(0, brightness, up)
    } else if sixth == 3 {
        RGB8::of(0, down, brightness)
    } else if sixth == 4 {
        RGB8::of(up, 0, brightness)
    } else {
        RGB8::of(brightness, 0, down)
    }
}

/// Both moving channels stay between dark and full brightness.
proof fn lemma_ramp_bounds(hue: int, brightness: int)
    requires
        0 <= brightness <= 255,
    ensures
        0 <= hue_fraction(hue) <= 250,
        0 <= brightness * hue_fraction(hue) <= 255 * 255,
        0 <= brightness * (255 - hue_fraction(hue)) <= 255 * 255,
        0 <= rising(hue, brightness) <= brightness,
        0 <= falling(hue, brightness) <= brightness,
{
    let f = hue_fraction(hue);
    assert(0 <= brightness * f <= brightness * 255) by (nonlinear_arith)
        requires
            0 <= f <= 255,
            0 <= brightness,
    ;
    assert(0 <= brightness * (255 - f) <= brightness * 255) by (nonlinear_arith)
        requires
            0 <= f <= 255,
            0 <= brightness,
    ;
}

/// Convert HSV color to RGB
pub fn hsv_to_rgb(hue: u16, brightness: u8) -> (color: RGB8)
    ensures
        color == hue_color(hue as int, brightness as int),
{
    proof {
        lemma_ramp_bounds(hue as int, brightness as int);
    }
    let wrapped: u16 = hue % 360;
    let section: u16 = wrapped / 60;
    let fraction: u32 = (wrapped % 60) as u32 * 255 / 60;
    assert(fraction == hue_fraction(hue as int));
    let level: u32 = brightness as u32;
    let q: u32 = level - level * fraction / 255;
    let t: u32 = level - level * (255 - fraction) / 255;

    match section {
        0 => RGB8::new(level as u8, t as u8, 0),
        1 => RGB8::new(q as u8, level as u8, 0),
        2 => RGB8::new(0, level as u8, t as u8),
        3 => RGB8::new(0, q as u8, level as u8),
        4 => RGB8::new(t as u8, 0, level as u8),
        _ => RGB8::new(level as u8, 0, q as u8),
    }
}

/// The hue wheel closes: hues a full turn apart are the same colour.
pub proof fn law_hue_wheel_closes(hue: int, turns: int, brightness: int)
    ensures
        hue_color(hue + 360 * turns, brightness) == hue_color(hue, brightness),
{
    assert((hue + 360 * turns) % 360 == hue % 360);
    assert((hue + 360 * turns) % 60 == hue % 60);
}

/// Every hue is fully saturated and exactly as bright as asked: one channel is at
/// the brightness, one is dark, and the third lies between them.
pub proof fn law_hue_is_saturated(hue: int, brightness: int)
    requires
        0 <= brightness <= 255,
    ensures
        ({
            let c = hue_color(hue, brightness);
            &&& c.r == brightness || c.g == brightness || c.b == brightness
            &&& c.r == 0 || c.g == 0 || c.b == 0
            &&& c.r <= brightness && c.g <= brightness && c.b <= brightness
        }),
{
    lemma_ramp_bounds(hue, brightness);
}

/// The wheel, sixth by sixth: one channel is at full brightness, one is dark, and the
/// third runs up or down with the hue. With `f` the part of 255 that the hue has gone
/// through its sixth, rounded down, the rising channel is the share `f` of the
/// brightness rounded up, and the falling one is the brightness less that share rounded
/// down.
#[verifier::rlimit(50)]
pub proof fn law_hue_runs_round_the_wheel(hue: int, brightness: int)
    requires
        0 <= hue < 360,
        0 <= brightness <= 255,
    ensures
        exists|f: int, up: int, down: int|
            {
                &&& 60 * f <= 255 * (hue % 60) < 60 * f + 60
                &&& 255 * (up - 1) < brightness * f <= 255 * up
                &&& 255 * (brightness - down) <= brightness * f < 255 * (brightness - down + 1)
                &&& #[trigger] sixths(hue_color(hue, brightness), hue, brightness, f, up, down)
            },
{
    lemma_ramp_bounds(hue, brightness);
    let f = hue_fraction(hue);
    let up = rising(hue, brightness);
    let down = falling(hue, brightness);
    assert(brightness * (255 - f) == 255 * brightness - brightness * f) by (nonlinear_arith);
    assert(sixths(hue_color(hue, brightness), hue, brightness, f, up, down));
}

/// The colour `c` has its channels where the sixth of `hue` puts them: red, yellow, green,
/// cyan, blue and magenta start the sixths.
pub open spec fn sixths(c: RGB8, hue: int, brightness: int, f: int, up: int, down: int) -> bool {
    &&& 0 <= hue < 60 ==> c.r == brightness && c.g == up && c.b == 0
    &&& 60 <= hue < 120 ==> c.r == down && c.g == brightness && c.b == 0
    &&& 120 <= hue < 180 ==> c.r == 0 && c.g == brightness && c.b == up
    &&& 180 <= hue < 240 ==> c.r == 0 && c.g == down && c.b == brightness
    &&& 240 <= hue < 300 ==> c.r == up && c.g == 0 && c.b == brightness
    &&& 300 <= hue < 360 ==> c.r == brightness && c.g == 0 && c.b == down
    &&& 0 <= f <= 255
}

/// A third of a turn moves every channel on by one: what was red is green, what was
/// green is blue, and what was blue is red.
#[verifier::rlimit(50)]
pub proof fn law_thirds_of_the_wheel_are_alike(hue: int, brightness: int)
    requires
        0 <= brightness <= 255,
    ensures
        ({
            let c = hue_color(hue, brightness);
            let d = hue_color(hue + 120, brightness);
            &&& d.g == c.r
            &&& d.b == c.g
            &&& d.r == c.b
        }),
{
    lemma_third_of_a_turn(hue);
    lemma_ramp_bounds(hue, brightness);
    assert(rising(hue + 120, brightness) == rising(hue, brightness));
    assert(falling(hue + 120, brightness) == falling(hue, brightness));
}

/// A third of a turn goes on by two sixths.
proof fn lemma_third_of_a_turn(hue: int)
    ensures
        hue_fraction(hue + 120) == hue_fraction(hue),
        ({
            let sixth = (hue % 360) / 60;
            &&& 0 <= sixth < 6
            &&& ((hue + 120) % 360) / 60 == if sixth < 4 {
                sixth + 2
            } else {
                sixth - 4
            }
        }),
{
    assert((hue + 120) % 60 == hue % 60);
    assert((hue + 120) % 360 == if hue % 360 < 240 {
        hue % 360 + 120
    } else {
        hue % 360 - 240
    });
}

/// Dividing and scaling treat every channel alike and round down.
pub proof fn law_channels_are_scaled_alike(color: RGB8, divisor: int, level: int)
    requires
        0 < divisor,
        0 <= level <= 255,
    ensures
        ({
            let d = color.divided(divisor);
            let s = color.scaled(level);
            &&& d.r * divisor <= color.r < d.r * divisor + divisor
            &&& d.g * divisor <= color.g < d.g * divisor + divisor
            &&& d.b * divisor <= color.b < d.b * divisor + divisor
            &&& 255 * s.r <= color.r * level < 255 * s.r + 255
            &&& 255 * s.g <= color.g * level < 255 * s.g + 255
            &&& 255 * s.b <= color.b * level < 255 * s.b + 255
        }),
{
    lemma_channel_divides(color.r, divisor, level);
    lemma_channel_divides(color.g, divisor, level);
    lemma_channel_divides(color.b, divisor, level);
}

/// One channel divided and scaled stays a channel.
proof fn lemma_channel_divides(c: u8, divisor: int, level: int)
    requires
        0 < divisor,
        0 <= level <= 255,
    ensures
        0 <= c as int / divisor <= 255,
        (c as int / divisor) * divisor <= c < (c as int / divisor) * divisor + divisor,
        0 <= c * level / 255 <= 255,
        255 * (c * level / 255) <= c * level < 255 * (c * level / 255) + 255,
{
    let q: int = c as int / divisor;
    vstd::arithmetic::div_mod::lemma_fundamental_div_mod(c as int, divisor);
    vstd::arithmetic::div_mod::lemma_mod_bound(c as int, divisor);
    vstd::arithmetic::div_mod::lemma_div_pos_is_pos(c as int, divisor);
    assert(q * divisor == divisor * q) by (nonlinear_arith);
    assert(q <= 255) by (nonlinear_arith)
        requires
            0 < divisor,
            0 <= q,
            q * divisor <= 255,
    ;
    assert(0 <= c * level <= 255 * 255) by (nonlinear_arith)
        requires
            0 <= c <= 255,
            0 <= level <= 255,
    ;
}

} // verus!
