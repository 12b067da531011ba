//! The racer's state as JSON for the web page.
use vstd::prelude::*;

use crate::buffer::{as_str, new_1024, new_16, put, put_str, TextBuffer};
use crate::display::DISPLAY_BYTES;
use crate::motion::{Accel, Axis};
use crate::race::RaceMode;
use crate::text::{int_to_str, usize_to_str};

verus! {

/// The hexadecimal digit of value `v`.
pub open spec fn hex_digit(v: int) -> char {
    if v < 10 {
        (48 + v) as char
    } else {
        (87 + v) as char
    }
}

/// Two hexadecimal digits for every byte, the high one first.
pub open spec fn hex(bytes: Seq<u8>) -> Seq<char> {
    Seq::new(
        2 * bytes.len(),
        |i: int|
            if i % 2 == 0 {
                hex_digit(bytes[i / 2] as int / 16)
            } else {
                hex_digit(bytes[i / 2] as int % 16)
            },
    )
}

/// The status of the racer as JSON.
pub open spec fn status_text(
    mode: RaceMode,
    orientation: Axis,
    accel: Accel,
    display: Seq<u8>,
    elapsed_ms: u64,
    best_ms: u64,
) -> Seq<char> {
    "{\"mode\":\""@ + mode.name() + "\",\"orientation\":\""@ + orientation.name()
        + "\",\"accel\":{\"x\":"@ + crate::text::decimal(accel.x as int) + ",\"y\":"@
        + crate::text::decimal(accel.y as int) + ",\"z\":"@ + crate::text::decimal(accel.z as int)
        + "},\"display\":\""@ + hex(display) + "\",\"elapsed\":"@ + crate::text::digits(
        (elapsed_ms as usize) as nat,
    ) + ",\"best\":"@ + crate::text::digits((best_ms as usize) as nat) + "}"@
}

/// The number of milliseconds has at most sixteen digits.
pub open spec fn ms_fits(ms: u64) -> bool {
    crate::text::digits((ms as usize) as nat).len() <= 16
}

/// Whether the number of milliseconds has at most sixteen digits.
pub fn is_short(ms: u64) -> (short: bool)
    ensures
        short == ms_fits(ms),
{
    proof {
        crate::text::lemma_digits_fit((ms as usize) as nat);
    }
    (ms as usize) as u64 <= 9_999_999_999_999_999
}

/// The hexadecimal digit of value `v`.
fn hex_digit_for(v: u8) -> (c: char)
    requires
        v < 16,
    ensures
        c == hex_digit(v as int),
        c <= '\u{7f}',
{
    if v < 10 {
        (48 + v) as char
    } else {
        (87 + v) as char
    }
}

/// The lengths of the fixed pieces of the status.
proof fn lemma_piece_lengths()
    ensures
        crate::buffer::byte_len("{\"mode\":\""@) == 9,
        crate::buffer::byte_len("\",\"orientation\":\""@) == 17,
        crate::buffer::byte_len("\",\"accel\":{\"x\":"@) == 15,
        crate::buffer::byte_len(",\"y\":"@) == 5,
        crate::buffer::byte_len(",\"z\":"@) == 5,
        crate::buffer::byte_len("},\"display\":\""@) == 13,
        crate::buffer::byte_len("\",\"elapsed\":"@) == 12,
        crate::buffer::byte_len(",\"best\":"@) == 8,
        crate::buffer::byte_len("}"@) == 1,
{
    reveal_strlit("{\"mode\":\"");
    reveal_strlit("\",\"orientation\":\"");
    reveal_strlit("\",\"accel\":{\"x\":");
    reveal_strlit(",\"y\":");
    reveal_strlit(",\"z\":");
    reveal_strlit("},\"display\":\"");
    reveal_strlit("\",\"elapsed\":");
    reveal_strlit(",\"best\":");
    reveal_strlit("}");
    crate::buffer::lemma_byte_len_ascii("{\"mode\":\""@);
    crate::buffer::lemma_byte_len_ascii("\",\"orientation\":\""@);
    crate::buffer::lemma_byte_len_ascii("\",\"accel\":{\"x\":"@);
    crate::buffer::lemma_byte_len_ascii(",\"y\":"@);
    crate::buffer::lemma_byte_len_ascii(",\"z\":"@);
    crate::buffer::lemma_byte_len_ascii("},\"display\":\""@);
    crate::buffer::lemma_byte_len_ascii("\",\"elapsed\":"@);
    crate::buffer::lemma_byte_len_ascii(",\"best\":"@);
    crate::buffer::lemma_byte_len_ascii("}"@);
}

/// The lengths of the names of modes and axes.
proof fn lemma_name_lengths(mode: RaceMode, axis: Axis)
    ensures
        crate::buffer::byte_len(mode.name()) <= 10,
        crate::buffer::byte_len(axis.name()) == 1,
{
    reveal_strlit("Display");
    reveal_strlit("Race Ready");
    reveal_strlit("Racing");
    reveal_strlit("Race Over");
    reveal_strlit("X");
    reveal_strlit("Y");
    reveal_strlit("Z");
    crate::buffer::lemma_byte_len_ascii(mode.name());
    crate::buffer::lemma_byte_len_ascii(axis.name());
}

/// Decimal notation of a 16-bit number has at most six characters.
proof fn lemma_decimal_length(n: int)
    requires
        i16::MIN <= n <= i16::MAX,
    ensures
        crate::text::decimal(n).len() <= 6,
{
    reveal_with_fuel(crate::text::digits, 5);
}

/// Appends the hexadecimal digits of `bytes`.
fn put_hex(json: &mut heapless::String<1024>, bytes: &[u8; DISPLAY_BYTES])
    requires
        crate::buffer::byte_len(old(json).text()) + 2 * DISPLAY_BYTES <= 1024,
    ensures
        final(json).text() == old(json).text() + hex(bytes@),
        crate::buffer::byte_len(final(json).text()) == crate::buffer::byte_len(old(json).text())
            + 2 * DISPLAY_BYTES,
{
    let ghost all = hex(bytes@);
    let mut i: usize = 0;
    assert(old(json).text() + all.take(0) =~= old(json).text());
    while i < DISPLAY_BYTES
        invariant
            i <= DISPLAY_BYTES,
            all == hex(bytes@),
            crate::buffer::byte_len(old(json).text()) + 2 * DISPLAY_BYTES <= 1024,
            json.text() == old(json).text() + all.take(2 * i as int),
            crate::buffer::byte_len(json.text()) == crate::buffer::byte_len(old(json).text()) + 2
                * i,
        decreases DISPLAY_BYTES - i,
    {
        let byte: u8 = bytes[i];
        assert(byte >> 4 == byte / 16) by (bit_vector);
        assert(byte & 0x0F == byte % 16) by (bit_vector);
        put(json, hex_digit_for(byte >> 4));
        put(json, hex_digit_for(byte & 0x0F));
        assert(all[2 * i as int] == hex_digit(byte as int / 16));
        assert(all[2 * i + 1] == hex_digit(byte as int % 16));
        assert(json.text() =~= old(json).text() + all.take(2 * (i + 1)));
        i = i + 1;
    }
    assert(all.take(2 * i as int) =~= all);
}

/// The status of the racer as JSON.
pub fn build_status_json(
    mode: RaceMode,
    orientation: Axis,
    accel: Accel,
    display: &[u8; DISPLAY_BYTES],
    elapsed_ms: u64,
    best_ms: u64,
) -> (json: heapless::String<1024>)
    requires
        ms_fits(elapsed_ms),
        ms_fits(best_ms),
    ensures
        json.text() == status_text(mode, orientation, accel, display@, elapsed_ms, best_ms),
        crate::buffer::byte_len(json.text()) <= 900,
{
    proof {
        lemma_piece_lengths();
        lemma_name_lengths(mode, orientation);
        lemma_decimal_length(accel.x as int);
        lemma_decimal_length(accel.y as int);
        lemma_decimal_length(accel.z as int);
    }
    let mut x_str = new_16();
    let mut y_str = new_16();
    let mut z_str = new_16();
    let mut elapsed_str = new_16();
    let mut best_str = new_16();
    int_to_str(accel.x, &mut x_str);
    int_to_str(accel.y, &mut y_str);
    int_to_str(accel.z, &mut z_str);
    usize_to_str(elapsed_ms as usize, &mut elapsed_str);
    usize_to_str(best_ms as usize, &mut best_str);
    assert(x_str.text() =~= crate::text::decimal(accel.x as int));
    assert(y_str.text() =~= crate::text::decimal(accel.y as int));
    assert(z_str.text() =~= crate::text::decimal(accel.z as int));
    assert(elapsed_str.text() =~= crate::text::digits((elapsed_ms as usize) as nat));
    assert(best_str.text() =~= crate::text::digits((best_ms as usize) as nat));

    let mut json = new_1024();
    put_str(&mut json, "{\"mode\":\"");
    put_str(&mut json, mode.as_str());
    put_str(&mut json, "\",\"orientation\":\"");
    put_str(&mut json, orientation.as_str());
    put_str(&mut json, "\",\"accel\":{\"x\":");
    put_str(&mut json, as_str(&x_str));
    put_str(&mut json, ",\"y\":");
    put_str(&mut json, as_str(&y_str));
    put_str(&mut json, ",\"z\":");
    put_str(&mut json, as_str(&z_str));
    put_str(&mut json, "},\"display\":\"");
    put_hex(&mut json, display);
    put_str(&mut json, "\",\"elapsed\":");
    put_str(&mut json, as_str(&elapsed_str));
    put_str(&mut json, ",\"best\":");
    put_str(&mut json, as_str(&best_str));
    put_str(&mut json, "}");
    assert(json.text() =~= status_text(
        mode,
        orientation,
        accel,
        display@,
        elapsed_ms,
        best_ms,
    ));
    json
}

/// Every status that can be put into words is longer than a short frame carries and
/// shorter than its buffer.
#[verifier::rlimit(50)]
pub proof fn lemma_status_length(
    mode: RaceMode,
    orientation: Axis,
    accel: Accel,
    display: Seq<u8>,
    elapsed_ms: u64,
    best_ms: u64,
)
    requires
        display.len() == DISPLAY_BYTES,
        ms_fits(elapsed_ms),
        ms_fits(best_ms),
    ensures
        720 < crate::buffer::byte_len(
            status_text(mode, orientation, accel, display, elapsed_ms, best_ms),
        ) <= 900,
{
    lemma_piece_lengths();
    lemma_name_lengths(mode, orientation);
    lemma_decimal_bytes(accel.x as int);
    lemma_decimal_bytes(accel.y as int);
    lemma_decimal_bytes(accel.z as int);
    lemma_decimal_length(accel.x as int);
    lemma_decimal_length(accel.y as int);
    lemma_decimal_length(accel.z as int);
    lemma_decimal_bytes((elapsed_ms as usize) as int);
    lemma_decimal_bytes((best_ms as usize) as int);
    assert(vstd::utf8::is_ascii_chars(hex(display)));
    crate::buffer::lemma_byte_len_ascii(hex(display));
    let x = crate::text::decimal(accel.x as int);
    let y = crate::text::decimal(accel.y as int);
    let z = crate::text::decimal(accel.z as int);
    let e = crate::text::digits((elapsed_ms as usize) as nat);
    let b = crate::text::digits((best_ms as usize) as nat);
    let t1 = "{\"mode\":\""@ + mode.name();
    let t2 = t1 + "\",\"orientation\":\""@;
    let t3 = t2 + orientation.name();
    let t4 = t3 + "\",\"accel\":{\"x\":"@;
    let t5 = t4 + x;
    let t6 = t5 + ",\"y\":"@;
    let t7 = t6 + y;
    let t8 = t7 + ",\"z\":"@;
    let t9 = t8 + z;
    let t10 = t9 + "},\"display\":\""@;
    let t11 = t10 + hex(display);
    let t12 = t11 + "\",\"elapsed\":"@;
    let t13 = t12 + e;
    let t14 = t13 + ",\"best\":"@;
    let t15 = t14 + b;
    crate::buffer::lemma_byte_len_concat("{\"mode\":\""@, mode.name());
    crate::buffer::lemma_byte_len_concat(t1, "\",\"orientation\":\""@);
    crate::buffer::lemma_byte_len_concat(t2, orientation.name());
    crate::buffer::lemma_byte_len_concat(t3, "\",\"accel\":{\"x\":"@);
    crate::buffer::lemma_byte_len_concat(t4, x);
    crate::buffer::lemma_byte_len_concat(t5, ",\"y\":"@);
    crate::buffer::lemma_byte_len_concat(t6, y);
    crate::buffer::lemma_byte_len_concat(t7, ",\"z\":"@);
    crate::buffer::lemma_byte_len_concat(t8, z);
    crate::buffer::lemma_byte_len_concat(t9, "},\"display\":\""@);
    crate::buffer::lemma_byte_len_concat(t10, hex(display));
    crate::buffer::lemma_byte_len_concat(t11, "\",\"elapsed\":"@);
    crate::buffer::lemma_byte_len_concat(t12, e);
    crate::buffer::lemma_byte_len_concat(t13, ",\"best\":"@);
    crate::buffer::lemma_byte_len_concat(t14, b);
    crate::buffer::lemma_byte_len_concat(t15, "}"@);
}

/// Decimal notation takes one byte per character.
proof fn lemma_decimal_bytes(n: int)
    ensures
        crate::buffer::byte_len(crate::text::decimal(n)) == crate::text::decimal(n).len(),
{
    lemma_decimal_is_numeric(n);
    assert(vstd::utf8::is_ascii_chars(crate::text::decimal(n)));
    crate::buffer::lemma_byte_len_ascii(crate::text::decimal(n));
}

/// The value of a hexadecimal digit.
pub open spec fn hex_value(c: char) -> int {
    if c <= '9' {
        c as int - 48
    } else {
        c as int - 87
    }
}

/// The bytes that pairs of hexadecimal digits stand for.
pub open spec fn unhex(text: Seq<char>) -> Seq<u8> {
    Seq::new(
        text.len() / 2,
        |i: int| (hex_value(text[2 * i]) * 16 + hex_value(text[2 * i + 1])) as u8,
    )
}

/// The page can draw what the display shows: the digits give the frame back.
pub proof fn law_hex_reads_back(bytes: Seq<u8>)
    ensures
        unhex(hex(bytes)) == bytes,
{
    let text = hex(bytes);
    assert forall|i: int| 0 <= i < bytes.len() implies unhex(text)[i] == bytes[i] by {
        assert(text[2 * i] == hex_digit(bytes[i] as int / 16));
        assert(text[2 * i + 1] == hex_digit(bytes[i] as int % 16));
    }
    assert(unhex(text) =~= bytes);
}

/// The status reads back: it is an object whose fields, in this order, hold the name of
/// the mode, the letter of the axis, the three components of the reading, two hexadecimal
/// digits for each byte of the display, the time of the race, and the best time.
#[verifier::rlimit(50)]
pub proof fn law_status_reads_back(
    mode: RaceMode,
    orientation: Axis,
    accel: Accel,
    display: Seq<u8>,
    elapsed_ms: u64,
    best_ms: u64,
)
    ensures
        exists|
            m: Seq<char>,
            o: Seq<char>,
            x: Seq<char>,
            y: Seq<char>,
            z: Seq<char>,
            d: Seq<char>,
            e: Seq<char>,
            b: Seq<char>,
        |
            {
                &&& #[trigger] status_object(m, o, x, y, z, d, e, b) == status_text(
                    mode,
                    orientation,
                    accel,
                    display,
                    elapsed_ms,
                    best_ms,
                )
                &&& m == match mode {
                    RaceMode::Display => "Display"@,
                    RaceMode::RaceReady => "Race Ready"@,
                    RaceMode::Racing => "Racing"@,
                    RaceMode::RaceOver => "Race Over"@,
                }
                &&& o == match orientation {
                    Axis::X => "X"@,
                    Axis::Y => "Y"@,
                    Axis::Z => "Z"@,
                }
                &&& numeric(x) && numeric(y) && numeric(z) && numeric(e) && numeric(b)
                &&& crate::text::decimal_value(x) == accel.x
                &&& crate::text::decimal_value(y) == accel.y
                &&& crate::text::decimal_value(z) == accel.z
                &&& d.len() == 2 * display.len()
                &&& unhex(d) == display
                &&& crate::text::digits_value(e) == elapsed_ms as usize
                &&& crate::text::digits_value(b) == best_ms as usize
            },
{
    let x = crate::text::decimal(accel.x as int);
    let y = crate::text::decimal(accel.y as int);
    let z = crate::text::decimal(accel.z as int);
    let d = hex(display);
    let e = crate::text::digits((elapsed_ms as usize) as nat);
    let b = crate::text::digits((best_ms as usize) as nat);
    lemma_decimal_is_numeric(accel.x as int);
    lemma_decimal_is_numeric(accel.y as int);
    lemma_decimal_is_numeric(accel.z as int);
    lemma_decimal_is_numeric((elapsed_ms as usize) as int);
    lemma_decimal_is_numeric((best_ms as usize) as int);
    crate::text::law_decimal_reads_back(accel.x as int);
    crate::text::law_decimal_reads_back(accel.y as int);
    crate::text::law_decimal_reads_back(accel.z as int);
    law_hex_reads_back(display);
    crate::text::law_digits_read_back((elapsed_ms as usize) as nat);
    crate::text::law_digits_read_back((best_ms as usize) as nat);
    assert(status_object(mode.name(), orientation.name(), x, y, z, d, e, b) == status_text(
        mode,
        orientation,
        accel,
        display,
        elapsed_ms,
        best_ms,
    ));
}

/// Digits, perhaps with a minus sign in front, and no zero in front of another digit.
pub open spec fn numeric(text: Seq<char>) -> bool {
    &&& text.len() > 0
    &&& text[0] == '0' ==> text.len() == 1
    &&& text[0] == '-' ==> text.len() > 1 && text[1] != '0'
    &&& forall|i: int|
        0 <= i < text.len() ==> 48 <= #[trigger] text[i] as int <= 57 || (i == 0 && text[i] == '-')
}

/// Decimal notation is made of digits, perhaps with a minus sign in front, and has no
/// zero in front of another digit.
proof fn lemma_decimal_is_numeric(n: int)
    ensures
        numeric(crate::text::decimal(n)),
{
    crate::text::law_numbers_are_written_canonically(n);
}

/// The JSON object with the given texts in its fields.
pub open spec fn status_object(
    m: Seq<char>,
    o: Seq<char>,
    x: Seq<char>,
    y: Seq<char>,
    z: Seq<char>,
    d: Seq<char>,
    e: Seq<char>,
    b: Seq<char>,
) -> Seq<char> {
    "{\"mode\":\""@ + m + "\",\"orientation\":\""@ + o + "\",\"accel\":{\"x\":"@ + x
        + ",\"y\":"@ + y + ",\"z\":"@ + z + "},\"display\":\""@ + d + "\",\"elapsed\":"@ + e
        + ",\"best\":"@ + b + "}"@
}

/// The display is written in lower-case hexadecimal, the high digit of each byte first.
pub proof fn law_hex_digits_are_plain(bytes: Seq<u8>, i: int)
    requires
        0 <= i < bytes.len(),
    ensures
        hex(bytes).len() == 2 * bytes.len(),
        16 * hex_value(hex(bytes)[2 * i]) + hex_value(hex(bytes)[2 * i + 1]) == bytes[i],
        forall|k: int|
            0 <= k < hex(bytes).len() ==> 48 <= #[trigger] hex(bytes)[k] as int <= 57 || 97
                <= hex(bytes)[k] as int <= 102,
{
}

} // verus!
