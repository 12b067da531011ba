//! The pulse train that carries LED colours to WS2812B LEDs.
use vstd::prelude::*;

use crate::color::RGB8;

verus! {

/// The level of an output pin.
#[derive(Clone, Copy, Debug, PartialEq, Eq, Structural)]
pub enum Level {
    Low,
    High,
}

/// Two levels in a row, each held for a number of clock cycles.
#[derive(Clone, Copy, Debug, PartialEq, Eq, Structural)]
pub struct PulseCode {
    pub level1: Level,
    pub length1: u16,
    pub level2: Level,
    pub length2: u16,
}

/// Cycles high for a zero bit
pub const T0H: u16 = 28;

/// Cycles low for a zero bit
pub const T0L: u16 = 55;

/// Cycles high for a one bit
pub const T1H: u16 = 56;

/// Cycles low for a one bit
pub const T1L: u16 = 28;

impl PulseCode {
    /// The code that ends a transmission: both levels low for no time.
    pub open spec fn end() -> PulseCode {
        PulseCode { level1: Level::Low, length1: 0, level2: Level::Low, length2: 0 }
    }

    /// The code of one bit: high, then low, longer high for a one.
    pub open spec fn of_bit(one: bool) -> PulseCode {
        if one {
            PulseCode { level1: Level::High, length1: T1H, level2: Level::Low, length2: T1L }
        } else {
            PulseCode { level1: Level::High, length1: T0H, level2: Level::Low, length2: T0L }
        }
    }

    /// The code that ends a transmission.
    pub fn end_marker() -> (code: PulseCode)
        ensures
            code == PulseCode::end(),
    {
        PulseCode { level1: Level::Low, length1: 0, level2: Level::Low, length2: 0 }
    }
}

/// Bit `k` of the 24 that are sent for a colour: green, red, blue, highest bit first.
pub open spec fn wire_bit(color: RGB8, k: int) -> bool {
    let byte = if k < 8 {
        color.g
    } else if k < 16 {
        color.r
    } else {
        color.b
    };
    crate::display::bit(byte, 7 - k % 8)
}

/// Code `i` of the train for `data`.
pub open spec fn train(data: Seq<RGB8>, i: int) -> PulseCode {
    if i < 24 * data.len() {
        PulseCode::of_bit(wire_bit(data[i / 24], i % 24))
    } else {
        PulseCode::end()
    }
}

/// Writes the codes of the bits of `value`, highest bit first, from `offset` on.
fn encode_byte(value: u8, output: &mut [PulseCode], offset: usize)
    requires
        offset + 8 <= old(output)@.len(),
    ensures
        final(output)@.len() == old(output)@.len(),
        forall|i: int|
            0 <= i < old(output)@.len() ==> #[trigger] final(output)@[i] == if offset <= i < offset
                + 8 {
                PulseCode::of_bit(crate::display::bit(value, 7 - (i - offset)))
            } else {
                old(output)@[i]
            },
{
    let room: usize = output.len();
    let mut k: usize = 0;
    while k < 8
        invariant
            k <= 8,
            offset + 8 <= output@.len() == room,
            room == old(output)@.len(),
            forall|i: int|
                0 <= i < room ==> #[trigger] output@[i] == if offset <= i < offset + k {
                    PulseCode::of_bit(crate::display::bit(value, 7 - (i - offset)))
                } else {
                    old(output)@[i]
                },
        decreases 8 - k,
    {
        let shift: u8 = 7 - k as u8;
        assert(shift < 8 ==> ((value & (1u8 << shift) != 0) == ((value >> shift) & 1 == 1)))
            by (bit_vector);
        let code = if (value & (1u8 << shift)) != 0 {
            PulseCode { level1: Level::High, length1: T1H, level2: Level::Low, length2: T1L }
        } else {
            PulseCode { level1: Level::High, length1: T0H, level2: Level::Low, length2: T0L }
        };
        output[offset + k] = code;
        k = k + 1;
    }
}

/// Writes the 24 codes of a colour from `offset` on.
fn encode_led(led: RGB8, output: &mut [PulseCode], offset: usize)
    requires
        offset + 24 <= old(output)@.len(),
    ensures
        final(output)@.len() == old(output)@.len(),
        forall|i: int|
            0 <= i < old(output)@.len() ==> #[trigger] final(output)@[i] == if offset <= i < offset
                + 24 {
                PulseCode::of_bit(wire_bit(led, i - offset))
            } else {
                old(output)@[i]
            },
{
    let room: usize = output.len();
    encode_byte(led.g, output, offset);
    encode_byte(led.r, output, offset + 8);
    encode_byte(led.b, output, offset + 16);
}

/// The LED and the bit that code `i` belongs to.
proof fn lemma_code_place(i: int, n: int)
    requires
        24 * n <= i < 24 * n + 24,
    ensures
        i / 24 == n,
        i % 24 == i - 24 * n,
{
}

/// Writes the train for `data`, with its end marker, to the front of `pulses`.
pub fn encode_ws2812(data: &[RGB8], pulses: &mut [PulseCode])
    requires
        24 * data@.len() + 1 <= old(pulses)@.len(),
    ensures
        final(pulses)@.len() == old(pulses)@.len(),
        forall|i: int|
            0 <= i <= 24 * data@.len() ==> #[trigger] final(pulses)@[i] == train(data@, i),
        forall|i: int|
            24 * data@.len() < i < old(pulses)@.len() ==> #[trigger] final(pulses)@[i] == old(
                pulses,
            )@[i],
{
    let room: usize = pulses.len();
    let mut index: usize = 0;
    let mut n: usize = 0;
    while n < data.len()
        invariant
            n <= data@.len(),
            index == 24 * n,
            24 * data@.len() + 1 <= pulses@.len() == room,
            room == old(pulses)@.len(),
            forall|i: int| 0 <= i < index ==> #[trigger] pulses@[i] == train(data@, i),
            forall|i: int| index <= i < room ==> #[trigger] pulses@[i] == old(pulses)@[i],
        decreases data@.len() - n,
    {
        encode_led(data[n], pulses, index);
        assert forall|i: int| 0 <= i < index + 24 implies #[trigger] pulses@[i] == train(data@, i) by {
            if i >= index {
                lemma_code_place(i, n as int);
            }
        }
        index = index + 24;
        n = n + 1;
    }
    pulses[index] = PulseCode::end_marker();
}

/// The pulses determine the colours: trains of equally many LEDs that agree code by
/// code carry the same colours.
pub proof fn law_pulses_determine_colors(a: Seq<RGB8>, b: Seq<RGB8>)
    requires
        a.len() == b.len(),
        forall|i: int| 0 <= i < 24 * a.len() ==> #[trigger] train(a, i) == train(b, i),
    ensures
        a == b,
{
    assert forall|n: int| 0 <= n < a.len() implies a[n] == b[n] by {
        assert forall|k: int| 0 <= k < 24 implies #[trigger] wire_bit(a[n], k) == wire_bit(b[n], k) by {
            let i: int = 24 * n + k;
            lemma_code_place(i, n);
            assert(train(a, i) == train(b, i));
        }
        assert forall|j: int| 0 <= j < 8 implies crate::display::bit(a[n].g, j)
            == #[trigger] crate::display::bit(b[n].g, j) by {
            assert(wire_bit(a[n], 7 - j) == wire_bit(b[n], 7 - j));
        }
        assert forall|j: int| 0 <= j < 8 implies crate::display::bit(a[n].r, j)
            == #[trigger] crate::display::bit(b[n].r, j) by {
            assert(wire_bit(a[n], 15 - j) == wire_bit(b[n], 15 - j));
        }
        assert forall|j: int| 0 <= j < 8 implies crate::display::bit(a[n].b, j)
            == #[trigger] crate::display::bit(b[n].b, j) by {
            assert(wire_bit(a[n], 23 - j) == wire_bit(b[n], 23 - j));
        }
        crate::display::lemma_bits_determine_byte(a[n].g, b[n].g);
        crate::display::lemma_bits_determine_byte(a[n].r, b[n].r);
        crate::display::lemma_bits_determine_byte(a[n].b, b[n].b);
    }
    assert(a =~= b);
}

/// The value of a code as an LED reads it: one for a long high time.
pub open spec fn code_value(code: PulseCode) -> int {
    if code.length1 == 56 {
        1
    } else {
        0
    }
}

/// The byte that an LED reads from the eight codes from `at` on, highest bit first.
pub open spec fn read_byte(codes: Seq<PulseCode>, at: int) -> int {
    128 * code_value(codes[at]) + 64 * code_value(codes[at + 1]) + 32 * code_value(codes[at + 2])
        + 16 * code_value(codes[at + 3]) + 8 * code_value(codes[at + 4]) + 4 * code_value(
        codes[at + 5],
    ) + 2 * code_value(codes[at + 6]) + code_value(codes[at + 7])
}

/// The bits of a byte, weighted, add up to it.
proof fn lemma_bits_add_up(b: u8)
    by (bit_vector)
    ensures
        128 * ((b >> 7u8) & 1) + 64 * ((b >> 6u8) & 1) + 32 * ((b >> 5u8) & 1) + 16 * ((b >> 4u8)
            & 1) + 8 * ((b >> 3u8) & 1) + 4 * ((b >> 2u8) & 1) + 2 * ((b >> 1u8) & 1) + ((b
            >> 0u8) & 1) == b,
        (b >> 7u8) & 1 <= 1,
        (b >> 6u8) & 1 <= 1,
        (b >> 5u8) & 1 <= 1,
        (b >> 4u8) & 1 <= 1,
        (b >> 3u8) & 1 <= 1,
        (b >> 2u8) & 1 <= 1,
        (b >> 1u8) & 1 <= 1,
        (b >> 0u8) & 1 <= 1,
{
}

/// Code `k` of LED `n` carries bit `k` of its colour.
proof fn lemma_code_of_led(data: Seq<RGB8>, codes: Seq<PulseCode>, n: int, k: int)
    requires
        0 <= n < data.len(),
        0 <= k < 24,
        forall|i: int| 0 <= i <= 24 * data.len() ==> #[trigger] codes[i] == train(data, i),
    ensures
        code_value(codes[24 * n + k]) == if wire_bit(data[n], k) {
            1int
        } else {
            0
        },
{
    lemma_code_place(24 * n + k, n);
    assert(codes[24 * n + k] == train(data, 24 * n + k));
}

/// The eight codes from code `from` of LED `n` on read as `b` if they carry its bits,
/// highest first.
#[verifier::rlimit(50)]
proof fn lemma_byte_of_led(data: Seq<RGB8>, codes: Seq<PulseCode>, n: int, from: int, b: u8)
    requires
        0 <= n < data.len(),
        from == 0 || from == 8 || from == 16,
        forall|i: int| 0 <= i <= 24 * data.len() ==> #[trigger] codes[i] == train(data, i),
        forall|k: int|
            0 <= k < 8 ==> wire_bit(data[n], from + k) == #[trigger] crate::display::bit(b, 7 - k),
    ensures
        read_byte(codes, 24 * n + from) == b,
{
    lemma_bits_add_up(b);
    lemma_code_of_led(data, codes, n, from);
    lemma_code_of_led(data, codes, n, from + 1);
    lemma_code_of_led(data, codes, n, from + 2);
    lemma_code_of_led(data, codes, n, from + 3);
    lemma_code_of_led(data, codes, n, from + 4);
    lemma_code_of_led(data, codes, n, from + 5);
    lemma_code_of_led(data, codes, n, from + 6);
    lemma_code_of_led(data, codes, n, from + 7);
    let at: int = 24 * n + from;
    assert(crate::display::bit(b, 7 - 0) == wire_bit(data[n], from + 0));
    assert(crate::display::bit(b, 7 - 1) == wire_bit(data[n], from + 1));
    assert(crate::display::bit(b, 7 - 2) == wire_bit(data[n], from + 2));
    assert(crate::display::bit(b, 7 - 3) == wire_bit(data[n], from + 3));
    assert(crate::display::bit(b, 7 - 4) == wire_bit(data[n], from + 4));
    assert(crate::display::bit(b, 7 - 5) == wire_bit(data[n], from + 5));
    assert(crate::display::bit(b, 7 - 6) == wire_bit(data[n], from + 6));
    assert(crate::display::bit(b, 7 - 7) == wire_bit(data[n], from + 7));
    assert(code_value(codes[at]) == (b >> 7u8) & 1);
    assert(code_value(codes[at + 1]) == (b >> 6u8) & 1);
    assert(code_value(codes[at + 2]) == (b >> 5u8) & 1);
    assert(code_value(codes[at + 3]) == (b >> 4u8) & 1);
    assert(code_value(codes[at + 4]) == (b >> 3u8) & 1);
    assert(code_value(codes[at + 5]) == (b >> 2u8) & 1);
    assert(code_value(codes[at + 6]) == (b >> 1u8) & 1);
    assert(code_value(codes[at + 7]) == (b >> 0u8) & 1);
}

/// The LEDs read back what was sent: of the codes of a train, LED `n` takes green, then
/// red, then blue from its 24, highest bit first.
#[verifier::rlimit(50)]
pub proof fn law_leds_read_their_colors(data: Seq<RGB8>, codes: Seq<PulseCode>, n: int)
    requires
        0 <= n < data.len(),
        codes.len() > 24 * data.len(),
        forall|i: int| 0 <= i <= 24 * data.len() ==> #[trigger] codes[i] == train(data, i),
    ensures
        read_byte(codes, 24 * n) == data[n].g,
        read_byte(codes, 24 * n + 8) == data[n].r,
        read_byte(codes, 24 * n + 16) == data[n].b,
{
    lemma_byte_of_led(data, codes, n, 0, data[n].g);
    lemma_byte_of_led(data, codes, n, 8, data[n].r);
    lemma_byte_of_led(data, codes, n, 16, data[n].b);
}

/// Every code of a train has one of the two timings that the LEDs know, high before low,
/// and the train ends with the empty code.
pub proof fn law_codes_have_known_timings(data: Seq<RGB8>, i: int)
    requires
        0 <= i,
    ensures
        i < 24 * data.len() ==> {
            let code = train(data, i);
            &&& code.level1 == Level::High
            &&& code.level2 == Level::Low
            &&& (code.length1 == 56 && code.length2 == 28) || (code.length1 == 28 && code.length2
                == 55)
        },
        i == 24 * data.len() ==> {
            let code = train(data, i);
            &&& code.level1 == Level::Low
            &&& code.level2 == Level::Low
            &&& code.length1 == 0
            &&& code.length2 == 0
        },
{
}

} // verus!
