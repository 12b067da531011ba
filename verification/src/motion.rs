//! Accelerometer readings.
use vstd::prelude::*;

verus! {

/// Register of the sensor that takes commands
pub const BMI160_CMD: u8 = 0x7E;

/// Command that switches the accelerometer on
pub const BMI160_CMD_ACCEL_NORMAL: u8 = 0x11;

/// Register of the sensor that sets the range
pub const BMI160_ACC_RANGE: u8 = 0x41;

/// Range of 2 g in either direction
pub const BMI160_ACC_RANGE_2G: u8 = 0x03;

/// First of the six data registers of the sensor
pub const BMI160_ACCEL_DATA: u8 = 0x12;

/// Accelerometer data structure
#[derive(Copy, Clone, Debug, PartialEq, Eq, Structural)]
pub struct Accel {
    pub x: i16,
    pub y: i16,
    pub z: i16,
}

/// An axis of the car.
#[derive(Copy, Clone, Debug, PartialEq, Eq, Structural)]
pub enum Axis {
    X,
    Y,
    Z,
}

impl Axis {
    /// The letter of this axis.
    pub open spec fn name(self) -> Seq<char> {
        match self {
            Axis::X => "X"@,
            Axis::Y => "Y"@,
            Axis::Z => "Z"@,
        }
    }

    /// The letter of this axis.
    pub fn as_str(self) -> (name: &'static str)
        ensures
            name@ == self.name(),
    {
        match self {
            Axis::X => "X",
            Axis::Y => "Y",
            Axis::Z => "Z",
        }
    }
}

/// The size of `n`, whatever its sign.
pub open spec fn magnitude(n: int) -> int {
    if n < 0 {
        -n
    } else {
        n
    }
}

/// The size of `n`, whatever its sign.
fn abs(n: i16) -> (size: i16)
    requires
        n != i16::MIN,
    ensures
        size == magnitude(n as int),
{
    if n < 0 {
        -n
    } else {
        n
    }
}

/// The signed 16-bit number with the given low and high byte.
pub open spec fn signed_le(low: u8, high: u8) -> int {
    if high < 128 {
        high * 256 + low
    } else {
        high * 256 + low - 65536
    }
}

impl Accel {
    /// Every component has a positive counterpart, so that its size can be taken.
    pub open spec fn measurable(self) -> bool {
        self.x != i16::MIN && self.y != i16::MIN && self.z != i16::MIN
    }

    /// The axis with the largest component; among equals X goes before Y and Y before Z.
    pub open spec fn dominant(self) -> Axis {
        let x = magnitude(self.x as int);
        let y = magnitude(self.y as int);
        let z = magnitude(self.z as int);
        if x >= y && x >= z {
            Axis::X
        } else if y >= z {
            Axis::Y
        } else {
            Axis::Z
        }
    }

    /// The component along `axis`.
    pub open spec fn along(self, axis: Axis) -> int {
        match axis {
            Axis::X => self.x as int,
            Axis::Y => self.y as int,
            Axis::Z => self.z as int,
        }
    }

    /// The axis with the largest component; among equals X goes before Y and Y before Z.
    pub fn dominant_axis(self) -> (axis: Axis)
        requires
            self.measurable(),
        ensures
            axis == self.dominant(),
    {
        let x: i16 = abs(self.x);
        let y: i16 = abs(self.y);
        let z: i16 = abs(self.z);

        if x >= y && x >= z {
            Axis::X
        } else if y >= x && y >= z {
            Axis::Y
        } else {
            Axis::Z
        }
    }

    /// The reading in the six data registers of the sensor, low byte first.
    pub fn from_registers(buf: &[u8; 6]) -> (accel: Accel)
        ensures
            accel.x == signed_le(buf@[0], buf@[1]),
            accel.y == signed_le(buf@[2], buf@[3]),
            accel.z == signed_le(buf@[4], buf@[5]),
    {
        Accel {
            x: le_number(buf[0], buf[1]),
            y: le_number(buf[2], buf[3]),
            z: le_number(buf[4], buf[5]),
        }
    }
}

/// The signed 16-bit number with the given low and high byte.
fn le_number(low: u8, high: u8) -> (n: i16)
    ensures
        n == signed_le(low, high),
{
    let bits: i32 = high as i32 * 256 + low as i32;
    if high < 128 {
        bits as i16
    } else {
        (bits - 65536) as i16
    }
}

/// No component is larger than the dominant one.
pub proof fn law_dominant_axis_is_largest(accel: Accel, axis: Axis)
    ensures
        magnitude(accel.along(axis)) <= magnitude(accel.along(accel.dominant())),
{
}

/// The dominant axis comes first among the largest: every axis before it is strictly
/// smaller, and none after it is larger. Sizes are told by squares, so that the sign of a
/// component plays no part.
pub proof fn law_first_of_the_largest_dominates(accel: Accel)
    ensures
        ({
            let x = accel.x * accel.x;
            let y = accel.y * accel.y;
            let z = accel.z * accel.z;
            &&& accel.dominant() == Axis::X <==> y <= x && z <= x
            &&& accel.dominant() == Axis::Y <==> x < y && z <= y
            &&& accel.dominant() == Axis::Z <==> x < z && y < z
        }),
{
    lemma_squares_order(accel.x as int, accel.y as int);
    lemma_squares_order(accel.x as int, accel.z as int);
    lemma_squares_order(accel.y as int, accel.z as int);
}

/// Sizes are ordered as squares are.
proof fn lemma_squares_order(a: int, b: int)
    ensures
        magnitude(a) <= magnitude(b) <==> a * a <= b * b,
        magnitude(b) <= magnitude(a) <==> b * b <= a * a,
{
    let p = magnitude(a);
    let q = magnitude(b);
    assert(p * p == a * a) by (nonlinear_arith)
        requires
            p == a || p == -a,
    ;
    assert(q * q == b * b) by (nonlinear_arith)
        requires
            q == b || q == -b,
    ;
    assert(p <= q <==> p * p <= q * q) by (nonlinear_arith)
        requires
            0 <= p,
            0 <= q,
    ;
    assert(q <= p <==> q * q <= p * p) by (nonlinear_arith)
        requires
            0 <= p,
            0 <= q,
    ;
}

/// Two bytes denote the one number of sixteen bits, with a sign, that agrees with them
/// modulo 65536, the first byte being the low one.
pub proof fn law_registers_denote_signed_numbers(low: u8, high: u8)
    ensures
        -32768 <= signed_le(low, high) <= 32767,
        signed_le(low, high) % 65536 == (256 * high + low) % 65536,
        signed_le(low, high) < 0 <==> high >= 128,
{
}

} // verus!
