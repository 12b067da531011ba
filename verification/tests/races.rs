use racer::button::{Button, ButtonEvent};
use racer::display::DisplayBuffer;
use racer::motion::{Accel, Axis};
use racer::race::{mode_effect, RaceMode, Racer};
use racer::tick::Rest;
use racer::websocket::Command;
use racer::Effect;

fn reading(x: i16) -> Accel {
    Accel { x, y: 0, z: 16000 }
}

#[test]
fn dominant_axes() {
    let axis = |x, y, z| Accel { x, y, z }.dominant_axis();
    assert_eq!(axis(3, 2, 1), Axis::X);
    assert_eq!(axis(-3, 2, 1), Axis::X);
    assert_eq!(axis(1, -3, 2), Axis::Y);
    assert_eq!(axis(1, 2, -3), Axis::Z);
    assert_eq!(axis(0, 0, 0), Axis::X);
    assert_eq!(axis(2, -2, 1), Axis::X);
    assert_eq!(axis(1, 2, -2), Axis::Y);
    assert_eq!(axis(32767, -32767, 32767), Axis::X);
}

#[test]
fn registers_hold_low_byte_first() {
    let accel = Accel::from_registers(&[0x34, 0x12, 0xFF, 0xFF, 0x00, 0x80]);
    assert_eq!(accel, Accel { x: 0x1234, y: -1, z: i16::MIN });
    let accel = Accel::from_registers(&[0xFF, 0x7F, 0x00, 0x00, 0x01, 0x80]);
    assert_eq!(accel, Accel { x: 32767, y: 0, z: -32767 });
}

#[test]
fn modes_have_effects() {
    assert_eq!(mode_effect(RaceMode::Display), Effect::WaveChase);
    assert_eq!(mode_effect(RaceMode::RaceReady), Effect::PulsingGreen);
    assert_eq!(mode_effect(RaceMode::Racing), Effect::RacingChase);
    assert_eq!(mode_effect(RaceMode::RaceOver), Effect::CheckerPulse);
}

#[test]
fn modes_cycle() {
    let mut racer = Racer::new();
    let mut modes = Vec::new();
    for now in 0..5 {
        modes.push(racer.mode);
        racer.cycle_mode(now);
    }
    assert_eq!(
        modes,
        vec![
            RaceMode::Display,
            RaceMode::RaceReady,
            RaceMode::Racing,
            RaceMode::RaceOver,
            RaceMode::Display,
        ]
    );
}

#[test]
fn settling_averages_the_incline() {
    let mut racer = Racer::new();
    racer.x_incline_baseline = 77;
    racer.enter_mode(RaceMode::RaceReady, 0);
    assert_eq!(racer.x_incline_baseline, 0);
    racer.sample(reading(100), 0);
    assert_eq!(racer.x_incline_baseline, 100);
    racer.sample(reading(201), 80);
    assert_eq!(racer.x_incline_baseline, 150);
    racer.sample(reading(-1000), 160);
    assert_eq!(racer.x_incline_baseline, -233);
    assert_eq!(racer.ready_ticks, 3);
    assert_eq!(racer.mode, RaceMode::RaceReady);
}

#[test]
fn settling_never_starts_a_race() {
    let mut racer = Racer::new();
    racer.enter_mode(RaceMode::RaceReady, 0);
    for i in 0..38u64 {
        assert_eq!(racer.led_effect(), Effect::PulsingGreen);
        racer.sample(reading(if i % 2 == 0 { 32767 } else { -32767 }), i * 80);
        assert_eq!(racer.mode, RaceMode::RaceReady);
        assert_eq!(racer.velocity_est, 0);
    }
    assert_eq!(racer.ready_ticks, 38);
    assert_eq!(racer.led_effect(), Effect::SolidGreen);
}

fn settled() -> Racer {
    let mut racer = Racer::new();
    racer.enter_mode(RaceMode::RaceReady, 0);
    for i in 0..38u64 {
        racer.sample(reading(1000), i * 80);
    }
    assert_eq!(racer.x_incline_baseline, 1000);
    racer
}

#[test]
fn noise_never_starts_a_race() {
    let mut racer = settled();
    for i in 0..500u64 {
        racer.sample(reading(if i % 2 == 0 { 1200 } else { 801 }), 4000 + i * 80);
    }
    assert_eq!(racer.mode, RaceMode::RaceReady);
    assert_eq!(racer.velocity_est, 0);
    racer.sample(reading(1201), 50000);
    assert_eq!(racer.velocity_est, 201);
}

#[test]
fn motion_starts_a_race() {
    let mut racer = settled();
    racer.sample(reading(3000), 5000);
    racer.sample(reading(3000), 5080);
    assert_eq!(racer.velocity_est, 4000);
    assert_eq!(racer.mode, RaceMode::RaceReady);
    racer.sample(reading(-3100), 5160);
    assert_eq!(racer.velocity_est, -100);
    racer.sample(reading(-3000), 5240);
    assert_eq!(racer.mode, RaceMode::Racing);
    assert_eq!(racer.race_start_ms, 5240);
    assert_eq!(racer.race_elapsed_ms, 0);
    assert_eq!(racer.race_ticks, 0);
    assert_eq!(racer.prev_x, -3000);
}

#[test]
fn impact_ends_a_race_after_the_minimum() {
    let mut racer = Racer::new();
    racer.enter_mode(RaceMode::Racing, 1000);
    for i in 0..6u64 {
        racer.sample(reading(if i % 2 == 0 { 20000 } else { 0 }), 1080 + i * 80);
        assert_eq!(racer.mode, RaceMode::Racing);
    }
    assert_eq!(racer.race_ticks, 6);
    racer.sample(reading(5000), 1600);
    assert_eq!(racer.mode, RaceMode::Racing);
    assert_eq!(racer.race_elapsed_ms, 600);
    racer.sample(reading(-1), 1700);
    assert_eq!(racer.mode, RaceMode::RaceOver);
    assert_eq!(racer.race_elapsed_ms, 700);
    assert_eq!(racer.best_race_ms, 700);
}

#[test]
fn quick_readings_end_a_race_too() {
    let mut racer = Racer::new();
    racer.enter_mode(RaceMode::Racing, 0);
    assert!(!racer.quick_sample(20000, 20));
    assert_eq!(racer.prev_x, 20000);
    racer.race_ticks = 7;
    assert!(!racer.quick_sample(15000, 40));
    assert!(racer.quick_sample(9999, 60));
    assert_eq!(racer.mode, RaceMode::RaceOver);
    assert_eq!(racer.race_elapsed_ms, 60);
    assert_eq!(racer.prev_x, 9999);
}

#[test]
fn best_time_never_worsens() {
    let mut racer = Racer::new();
    for (start, end, best) in [(0, 500, 500), (600, 1000, 400), (2000, 2900, 400), (5000, 5000, 400)] {
        racer.enter_mode(RaceMode::Racing, start);
        assert_eq!(racer.race_elapsed_ms, 0);
        racer.enter_mode(RaceMode::RaceOver, end);
        assert_eq!(racer.race_elapsed_ms, end - start);
        assert_eq!(racer.best_race_ms, best);
    }
}

#[test]
fn manual_finish_keeps_the_times() {
    let mut racer = Racer::new();
    racer.enter_mode(RaceMode::Racing, 10);
    racer.enter_mode(RaceMode::RaceOver, 110);
    racer.enter_mode(RaceMode::Display, 120);
    racer.enter_mode(RaceMode::RaceOver, 500);
    assert_eq!(racer.race_elapsed_ms, 100);
    assert_eq!(racer.best_race_ms, 100);
}

#[test]
fn commands_switch_modes() {
    let mut racer = Racer::new();
    assert!(!racer.obey(Command::Racing, 100));
    assert_eq!(racer.mode, RaceMode::Racing);
    assert!(!racer.obey(Command::RaceOver, 350));
    assert_eq!((racer.mode, racer.race_elapsed_ms), (RaceMode::RaceOver, 250));
    assert!(!racer.obey(Command::RaceReady, 400));
    assert_eq!(racer.mode, RaceMode::RaceReady);
    assert!(!racer.obey(Command::Display, 500));
    assert_eq!(racer.mode, RaceMode::Display);
    assert!(racer.obey(Command::Reboot, 600));
    assert_eq!(racer.mode, RaceMode::Display);
}

#[test]
fn counters_saturate() {
    let mut racer = Racer::new();
    racer.velocity_est = i32::MAX - 1;
    racer.add_velocity(5);
    assert_eq!(racer.velocity_est, i32::MAX);
    racer.velocity_est = i32::MIN + 1;
    racer.add_velocity(-5);
    assert_eq!(racer.velocity_est, i32::MIN);
    racer.add_velocity(7);
    assert_eq!(racer.velocity_est, i32::MIN + 7);
    racer.race_ticks = u16::MAX;
    racer.inc_race_ticks();
    assert_eq!(racer.race_ticks, u16::MAX);
    racer.ready_ticks = 3;
    racer.inc_ready_ticks();
    assert_eq!(racer.ready_ticks, 4);
}

#[test]
fn long_hold_only_reboots() {
    let mut button = Button::new();
    for _ in 0..62 {
        assert_eq!(button.tick(true), ButtonEvent::Nothing);
    }
    assert_eq!(button.tick(true), ButtonEvent::Reboot);
}

#[test]
fn short_press_cycles_on_release() {
    let mut button = Button::new();
    assert_eq!(button.tick(false), ButtonEvent::Nothing);
    assert_eq!(button.tick(true), ButtonEvent::Nothing);
    assert_eq!(button.tick(true), ButtonEvent::Nothing);
    assert_eq!(button.tick(false), ButtonEvent::CycleMode);
    assert_eq!(button.tick(false), ButtonEvent::Nothing);
}

#[test]
fn presses_are_five_ticks_apart() {
    let mut button = Button::new();
    button.tick(true);
    assert_eq!(button.tick(false), ButtonEvent::CycleMode);
    let readings = [true, false, true, false, true, false];
    let events: Vec<ButtonEvent> = readings.iter().map(|&r| button.tick(r)).collect();
    let mut expected = vec![ButtonEvent::Nothing; 5];
    expected.push(ButtonEvent::CycleMode);
    assert_eq!(events, expected);
}

#[test]
fn a_press_cycles_the_mode_once() {
    let mut racer = Racer::new();
    let mut button = Button::new();
    for _ in 0..10 {
        assert!(!racer.read_button(&mut button, true, 0));
        assert_eq!(racer.mode, RaceMode::Display);
    }
    assert!(!racer.read_button(&mut button, false, 0));
    assert_eq!(racer.mode, RaceMode::RaceReady);
    assert!(!racer.read_button(&mut button, false, 0));
    assert_eq!(racer.mode, RaceMode::RaceReady);
    for i in 0..63 {
        assert_eq!(racer.read_button(&mut button, true, 0), i == 62);
    }
    assert_eq!(racer.mode, RaceMode::RaceReady);
}

#[test]
fn ticks_rest_equally_long() {
    let mut racer = Racer::new();
    assert_eq!(racer.rest(), Rest { reads: 0, pause_ms: 80 });
    racer.enter_mode(RaceMode::Racing, 0);
    assert_eq!(racer.rest(), Rest { reads: 3, pause_ms: 20 });
}

#[test]
fn a_hit_ends_the_readings() {
    let rest = Rest { reads: 3, pause_ms: 20 };
    assert_eq!(rest.after_read(false), Rest { reads: 2, pause_ms: 20 });
    assert_eq!(rest.after_read(false).after_read(false).after_read(false).reads, 0);
    assert_eq!(rest.after_read(true), Rest { reads: 0, pause_ms: 20 });
}

#[test]
fn a_tick_remembers_what_it_drew() {
    let mut racer = Racer::new();
    let mut frame = DisplayBuffer::default();
    racer.enter_mode(RaceMode::RaceReady, 0);
    racer.tick(Accel { x: 50, y: -60, z: 7 }, 80, &mut frame);
    assert_eq!(racer.display, frame.buffer);
    assert!(frame.buffer.iter().any(|&b| b != 0));
    assert_eq!(racer.orientation, Axis::Y);
    assert_eq!(racer.accel, Accel { x: 50, y: -60, z: 7 });
    assert_eq!(racer.x_incline_baseline, 50);
}
