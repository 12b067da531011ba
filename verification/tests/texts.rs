use racer::motion::{Accel, Axis};
use racer::race::RaceMode;
use racer::status::{build_status_json, is_short};
use racer::text::{format_race_time, int_to_str, usize_to_str};

fn int_text(n: i16) -> String {
    let mut buf = heapless::String::<16>::new();
    int_to_str(n, &mut buf);
    String::from(buf.as_str())
}

fn usize_text(n: usize) -> String {
    let mut buf = heapless::String::<16>::new();
    usize_to_str(n, &mut buf);
    String::from(buf.as_str())
}

fn time_text(ms: u64) -> String {
    let mut buf = heapless::String::<16>::new();
    format_race_time(ms, &mut buf);
    String::from(buf.as_str())
}

#[test]
fn numbers_in_decimal() {
    assert_eq!(int_text(0), "0");
    assert_eq!(int_text(7), "7");
    assert_eq!(int_text(-7), "-7");
    assert_eq!(int_text(16384), "16384");
    assert_eq!(int_text(i16::MAX), "32767");
    assert_eq!(int_text(i16::MIN + 1), "-32767");
    assert_eq!(int_text(i16::MIN), "-32768");
}

#[test]
fn numbers_read_back() {
    for n in i16::MIN..=i16::MAX {
        assert_eq!(int_text(n).parse::<i16>(), Ok(n));
    }
    for n in [0usize, 9, 10, 99, 100, 4294967295] {
        assert_eq!(usize_text(n).parse::<usize>(), Ok(n));
    }
}

#[test]
fn sixteen_digits_fit() {
    assert_eq!(usize_text(9999999999999999), "9999999999999999");
    assert_eq!(usize_text(1000000000000000), "1000000000000000");
}

#[test]
fn numbers_are_appended() {
    let mut buf = heapless::String::<16>::new();
    int_to_str(-12, &mut buf);
    usize_to_str(0, &mut buf);
    usize_to_str(305, &mut buf);
    assert_eq!(buf.as_str(), "-120305");
}

#[test]
fn race_times() {
    assert_eq!(time_text(0), "00.000");
    assert_eq!(time_text(5), "00.005");
    assert_eq!(time_text(42), "00.042");
    assert_eq!(time_text(999), "00.999");
    assert_eq!(time_text(1000), "01.000");
    assert_eq!(time_text(12345), "12.345");
    assert_eq!(time_text(99999), "99.999");
    assert_eq!(time_text(123456), "123.456");
}

#[test]
fn race_times_read_back() {
    for ms in (0..200000u64).step_by(37) {
        let text = time_text(ms);
        let (secs, millis) = text.split_once('.').unwrap();
        assert_eq!(millis.len(), 3);
        assert_eq!(secs.parse::<u64>().unwrap() * 1000 + millis.parse::<u64>().unwrap(), ms);
        if ms < 100000 {
            assert_eq!(text.len(), 6);
        }
    }
}

#[test]
fn status_of_a_fresh_racer() {
    let display = [0u8; 360];
    let accel = Accel { x: 0, y: 0, z: 0 };
    let json = build_status_json(RaceMode::Display, Axis::X, accel, &display, 0, 0);
    let expected = format!(
        "{{\"mode\":\"Display\",\"orientation\":\"X\",\"accel\":{{\"x\":0,\"y\":0,\"z\":0}},\"display\":\"{}\",\"elapsed\":0,\"best\":0}}",
        "0".repeat(720)
    );
    assert_eq!(json.as_str(), expected);
}

#[test]
fn status_shows_everything() {
    let mut display = [0u8; 360];
    display[0] = 0xA5;
    display[1] = 0x0F;
    display[359] = 0xF0;
    let accel = Accel { x: -32767, y: 16384, z: -1 };
    let json = build_status_json(RaceMode::RaceReady, Axis::Z, accel, &display, 12345, 678);
    let expected = format!(
        "{{\"mode\":\"Race Ready\",\"orientation\":\"Z\",\"accel\":{{\"x\":-32767,\"y\":16384,\"z\":-1}},\"display\":\"a50f{}f0\",\"elapsed\":12345,\"best\":678}}",
        "0".repeat(714)
    );
    assert_eq!(json.as_str(), expected);
}

#[test]
fn display_reads_back_from_the_status() {
    let mut display = [0u8; 360];
    for (i, byte) in display.iter_mut().enumerate() {
        *byte = (i * 7 % 256) as u8;
    }
    let accel = Accel { x: 1, y: 2, z: 3 };
    let json = build_status_json(RaceMode::RaceOver, Axis::Y, accel, &display, 1, 2);
    let text = json.as_str();
    let start = text.find("\"display\":\"").unwrap() + 11;
    let hex = &text[start..start + 720];
    for i in 0..360 {
        assert_eq!(u8::from_str_radix(&hex[2 * i..2 * i + 2], 16), Ok(display[i]));
    }
}

#[test]
fn largest_status_fits() {
    let accel = Accel { x: -32768, y: -32768, z: -32768 };
    let ms = 9999999999999999u64;
    let json = build_status_json(RaceMode::RaceReady, Axis::Y, accel, &[255u8; 360], ms, ms);
    assert_eq!(json.len(), 866);
    assert!(json.as_str().contains("{\"x\":-32768,\"y\":-32768,\"z\":-32768}"));
    assert!(json.as_str().ends_with("\"elapsed\":9999999999999999,\"best\":9999999999999999}"));
}

#[test]
fn times_of_sixteen_digits_are_short() {
    assert!(is_short(0));
    assert!(is_short(9999999999999999));
    assert!(!is_short(10000000000000000));
    assert!(!is_short(u64::MAX));
}

#[test]
fn modes_and_axes_have_names() {
    assert_eq!(RaceMode::Display.as_str(), "Display");
    assert_eq!(RaceMode::RaceReady.as_str(), "Race Ready");
    assert_eq!(RaceMode::Racing.as_str(), "Racing");
    assert_eq!(RaceMode::RaceOver.as_str(), "Race Over");
    assert_eq!(Axis::X.as_str(), "X");
    assert_eq!(Axis::Y.as_str(), "Y");
    assert_eq!(Axis::Z.as_str(), "Z");
}
