use racer::pulse::{encode_ws2812, Level, PulseCode, T0H, T0L, T1H, T1L};
use racer::{hsv_to_rgb, rainbow_color, update_leds, Effect, NUM_LEDS, RAINBOW_LEN, RGB8, TOTAL_LEDS};

fn frame(effect: Effect, time: usize) -> [RGB8; TOTAL_LEDS] {
    let mut data = [RGB8::new(1, 2, 3); TOTAL_LEDS];
    update_leds(&mut data, effect, time);
    data
}

#[test]
fn counts_of_leds() {
    assert_eq!(NUM_LEDS, 32);
    assert_eq!(TOTAL_LEDS, 64);
    assert_eq!(RAINBOW_LEN, 7);
}

#[test]
fn hues_have_exact_colours() {
    assert_eq!(hsv_to_rgb(0, 255), RGB8::new(255, 0, 0));
    assert_eq!(hsv_to_rgb(30, 255), RGB8::new(255, 127, 0));
    assert_eq!(hsv_to_rgb(60, 255), RGB8::new(255, 255, 0));
    assert_eq!(hsv_to_rgb(90, 200), RGB8::new(101, 200, 0));
    assert_eq!(hsv_to_rgb(150, 255), RGB8::new(0, 255, 127));
    assert_eq!(hsv_to_rgb(210, 255), RGB8::new(0, 128, 255));
    assert_eq!(hsv_to_rgb(270, 100), RGB8::new(50, 0, 100));
    assert_eq!(hsv_to_rgb(330, 255), RGB8::new(255, 0, 128));
    assert_eq!(hsv_to_rgb(359, 255), RGB8::new(255, 0, 5));
}

#[test]
fn hue_wheel_closes() {
    assert_eq!(hsv_to_rgb(390, 255), hsv_to_rgb(30, 255));
    assert_eq!(hsv_to_rgb(65535, 255), hsv_to_rgb(65535 % 360, 255));
}

#[test]
fn hues_are_saturated() {
    for hue in 0..720u16 {
        for brightness in [0u8, 1, 127, 220, 255] {
            let c = hsv_to_rgb(hue, brightness);
            let channels = [c.r, c.g, c.b];
            assert_eq!(channels.iter().max(), Some(&brightness));
            assert_eq!(channels.iter().min(), Some(&0));
        }
    }
}

#[test]
fn rainbow_runs_from_red_to_violet() {
    assert_eq!(rainbow_color(0), RGB8::new(255, 0, 0));
    assert_eq!(rainbow_color(1), RGB8::new(255, 165, 0));
    assert_eq!(rainbow_color(2), RGB8::new(255, 255, 0));
    assert_eq!(rainbow_color(3), RGB8::new(0, 255, 0));
    assert_eq!(rainbow_color(4), RGB8::new(0, 0, 255));
    assert_eq!(rainbow_color(5), RGB8::new(75, 0, 130));
    assert_eq!(rainbow_color(6), RGB8::new(238, 130, 238));
}

#[test]
fn every_effect_is_listed_once() {
    let all = Effect::all();
    assert_eq!(all.len(), 12);
    for (i, effect) in all.iter().enumerate() {
        assert_eq!(effect.index(), i);
    }
    assert_eq!(Effect::Off.index(), 0);
    assert_eq!(Effect::CheckerPulse.index(), 11);
}

#[test]
fn effects_have_names() {
    let names: Vec<&str> = Effect::all().iter().map(|e| e.as_str()).collect();
    assert_eq!(
        names,
        vec![
            "Off",
            "Standby",
            "Blue Red Chase",
            "Rainbow Travel",
            "Rainbow Sections",
            "Wave Chase",
            "Alternating Glow",
            "Pulsing Green",
            "Solid Green",
            "Racing Chase",
            "Fireworks",
            "Checker Pulse",
        ]
    );
}

#[test]
fn sets_are_mirrored() {
    for effect in Effect::all() {
        for time in [0, 1, 7, 95, 1000] {
            let data = frame(effect, time);
            for j in 0..TOTAL_LEDS {
                assert_eq!(data[j], data[TOTAL_LEDS - 1 - j]);
            }
        }
    }
}

#[test]
fn off_is_dark_and_green_is_green() {
    assert_eq!(frame(Effect::Off, 5), [RGB8::default(); TOTAL_LEDS]);
    assert_eq!(RGB8::default(), RGB8::new(0, 0, 0));
    assert_eq!(frame(Effect::SolidGreen, 5), [RGB8::new(0, 255, 0); TOTAL_LEDS]);
}

#[test]
fn standby_marks_corners_and_centre() {
    let data = frame(Effect::Standby, 0);
    for local in 0..NUM_LEDS {
        let expected = match local {
            0 | 1 => RGB8::new(128, 80, 0),
            28 | 29 => RGB8::new(128, 128, 128),
            _ => RGB8::new(0, 0, 0),
        };
        assert_eq!(data[local], expected);
    }
}

#[test]
fn chase_runs_out_in_blue_and_back_in_red() {
    for time in 0..400usize {
        let data = frame(Effect::BlueRedChase, time);
        let lit: Vec<usize> =
            (0..NUM_LEDS).filter(|&i| data[i] != RGB8::default()).collect();
        let position = time / 3 % 64;
        if position < 32 {
            assert_eq!(lit, vec![position]);
            assert_eq!(data[position], RGB8::new(0, 0, 255));
        } else {
            assert_eq!(lit, vec![63 - position]);
            assert_eq!(data[63 - position], RGB8::new(255, 0, 0));
        }
    }
}

#[test]
fn rainbows_travel() {
    assert_eq!(frame(Effect::RainbowTravel, 7)[3], RGB8::new(255, 170, 0));
    assert_eq!(frame(Effect::RacingChase, 1)[3], RGB8::new(0, 255, 12));
}

#[test]
fn rainbow_sections_shift_every_ten_ticks() {
    let data = frame(Effect::RainbowSections, 10);
    for local in 0..NUM_LEDS {
        assert_eq!(data[local], rainbow_color((local / 4 + 1) % 7));
    }
}

#[test]
fn wave_fades_on_the_way_back() {
    let data = frame(Effect::WaveChase, 4);
    assert_eq!(data[0], rainbow_color(2));
    // position 8 of the wave: orange at 219 of 255
    assert_eq!(data[6], RGB8::new(219, 141, 0));
    assert_eq!(data[14], data[0]);
}

#[test]
fn glow_alternates() {
    let data = frame(Effect::AlternatingGlow, 16);
    // tick 16: pattern starts at 3 % 3, colours 2 and 5
    assert_eq!(data[0], RGB8::new(255, 255, 0));
    assert_eq!(data[1], RGB8::new(0, 0, 0));
    assert_eq!(data[2], RGB8::new(25, 0, 43));
}

#[test]
fn green_pulses_as_a_triangle() {
    let level = |t: usize| frame(Effect::PulsingGreen, t)[0].g;
    assert_eq!(level(0), 0);
    assert_eq!(level(10), 134);
    assert_eq!(level(19), 255);
    for t in 1..38 {
        assert_eq!(level(t), level(38 - t));
        assert_eq!(level(t), level(t + 38));
    }
}

#[test]
fn fireworks_sparkle() {
    let data = frame(Effect::Fireworks, 30);
    let white = RGB8::new(255, 255, 255);
    let sparkling: Vec<usize> = (0..NUM_LEDS).filter(|&i| data[i] == white).collect();
    assert_eq!(sparkling, vec![1, 14, 21, 27, 30]);
    assert_eq!(data[5], RGB8::new(0, 220, 95));
    assert_eq!(frame(Effect::Fireworks, 31)[1], white);
    assert_eq!(frame(Effect::Fireworks, 32)[1], white);
}

#[test]
fn checkers_pulse_in_antiphase() {
    for time in 0..30 {
        let data = frame(Effect::CheckerPulse, time);
        for local in 0..NUM_LEDS / 2 {
            let even = data[2 * local];
            let odd = data[2 * local + 1];
            assert_eq!(even.r as u16 + odd.r as u16, 255);
            assert_eq!((even.r, even.r), (even.g, even.b));
        }
    }
    assert_eq!(frame(Effect::CheckerPulse, 3)[0], RGB8::new(153, 153, 153));
    assert_eq!(frame(Effect::CheckerPulse, 5)[0], RGB8::new(255, 255, 255));
}

#[test]
fn effects_start_over() {
    let periods = [1, 1, 192, 360, 70, 28, 840, 38, 1, 4, 3840, 10];
    for (effect, period) in Effect::all().iter().zip(periods) {
        for time in [0usize, 3, 17, 101] {
            assert_eq!(frame(*effect, time), frame(*effect, time + period));
        }
    }
}

#[test]
fn pulses_carry_green_red_blue() {
    let unset = PulseCode { level1: Level::High, length1: 9, level2: Level::High, length2: 9 };
    let mut pulses = [unset; 52];
    encode_ws2812(&[RGB8::new(0x80, 0x01, 0xFF), RGB8::new(0, 0, 0)], &mut pulses);
    let zero = PulseCode { level1: Level::High, length1: T0H, level2: Level::Low, length2: T0L };
    let one = PulseCode { level1: Level::High, length1: T1H, level2: Level::Low, length2: T1L };
    for i in 0..7 {
        assert_eq!(pulses[i], zero);
    }
    assert_eq!(pulses[7], one);
    assert_eq!(pulses[8], one);
    for i in 9..16 {
        assert_eq!(pulses[i], zero);
    }
    for i in 16..24 {
        assert_eq!(pulses[i], one);
    }
    for i in 24..48 {
        assert_eq!(pulses[i], zero);
    }
    assert_eq!(pulses[48], PulseCode::end_marker());
    assert_eq!(pulses[49], unset);
    assert_eq!((T0H, T0L, T1H, T1L), (28, 55, 56, 28));
}

#[test]
fn pulses_of_no_leds_are_an_end_marker() {
    let mut pulses = [PulseCode { level1: Level::High, length1: 1, level2: Level::High, length2: 1 }];
    encode_ws2812(&[], &mut pulses);
    assert_eq!(
        pulses[0],
        PulseCode { level1: Level::Low, length1: 0, level2: Level::Low, length2: 0 }
    );
}

#[test]
fn different_colours_give_different_pulses() {
    let mut a = [PulseCode::end_marker(); 25];
    let mut b = [PulseCode::end_marker(); 25];
    encode_ws2812(&[RGB8::new(1, 2, 3)], &mut a);
    encode_ws2812(&[RGB8::new(1, 2, 2)], &mut b);
    assert_ne!(a, b);
}
