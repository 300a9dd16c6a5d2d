//! Fetching a sample byte by byte: one register of the sensor with each
//! turn of the main loop, thirteen turns for a whole sample.

use vstd::prelude::*;
use crate::motion_control::SensorCells;
use crate::mpu6050::{mpu6050_set_data_ready, word, DataReady};

verus! {

/// Only every tenth interrupt of the sensor is taken up.
pub const INTERRUPT_SKIP_COUNT: u32 = 10;

/// The number of registers that a whole sample is read from.
pub const ROTATION_LENGTH: u32 = 13;

/// Takes an interrupt of the sensor, the `count`-th since the start,
/// counted from zero: every tenth flags a new sample.
pub fn on_sensor_interrupt(flag: &mut DataReady, count: u32)
    ensures
        final(flag).ready == (old(flag).ready || count % 10 == 0),
{
    if count % INTERRUPT_SKIP_COUNT == 0 {
        mpu6050_set_data_ready(flag);
    }
}

/// The register that is read in turn `rotation_index`: the six bytes of
/// the acceleration, the high byte of the temperature, the six bytes of
/// the rotation, and over again.
pub open spec fn register_in_turn(rotation_index: u32) -> u8 {
    let turn = rotation_index % 13;
    if turn <= 6 {
        (0x3B + turn) as u8
    } else {
        (0x3C + turn) as u8
    }
}

/// The register to read in turn `rotation_index`.
pub fn rotation_register(rotation_index: u32) -> (register: u8)
    ensures
        register == register_in_turn(rotation_index),
{
    match rotation_index % ROTATION_LENGTH {
        0 => 0x3B,
        1 => 0x3C,
        2 => 0x3D,
        3 => 0x3E,
        4 => 0x3F,
        5 => 0x40,
        6 => 0x41,
        7 => 0x43,
        8 => 0x44,
        9 => 0x45,
        10 => 0x46,
        11 => 0x47,
        12 => 0x48,
        _ => 0x3B,
    }
}

/// The low byte of what a cell holds.
pub open spec fn low_byte(cell: i32) -> u8 {
    ((cell as u32) & 0xFF) as u8
}

/// The second-lowest byte of what a cell holds.
pub open spec fn high_byte(cell: i32) -> u8 {
    (((cell as u32) >> 8) & 0xFF) as u8
}

/// A cell with the high byte of its sixteen-bit value replaced.
pub open spec fn with_high_byte(cell: i32, value: u8) -> i32 {
    word(value, low_byte(cell)) as i32
}

/// A cell with the low byte of its sixteen-bit value replaced.
pub open spec fn with_low_byte(cell: i32, value: u8) -> i32 {
    word(high_byte(cell), value) as i32
}

/// The cells after the byte read in turn `rotation_index` was stored: the
/// byte replaces its half of its value, and the high byte of the
/// temperature stands alone, the low byte zero.
pub open spec fn stored(cells: SensorCells, rotation_index: u32, value: u8) -> SensorCells {
    match rotation_index % 13 {
        0 => SensorCells { accel_x: with_high_byte(cells.accel_x, value), ..cells },
        1 => SensorCells { accel_x: with_low_byte(cells.accel_x, value), ..cells },
        2 => SensorCells { accel_y: with_high_byte(cells.accel_y, value), ..cells },
        3 => SensorCells { accel_y: with_low_byte(cells.accel_y, value), ..cells },
        4 => SensorCells { accel_z: with_high_byte(cells.accel_z, value), ..cells },
        5 => SensorCells { accel_z: with_low_byte(cells.accel_z, value), ..cells },
        6 => SensorCells { temperature: (value * 256) as i32, ..cells },
        7 => SensorCells { gyro_x: with_high_byte(cells.gyro_x, value), ..cells },
        8 => SensorCells { gyro_x: with_low_byte(cells.gyro_x, value), ..cells },
        9 => SensorCells { gyro_y: with_high_byte(cells.gyro_y, value), ..cells },
        10 => SensorCells { gyro_y: with_low_byte(cells.gyro_y, value), ..cells },
        11 => SensorCells { gyro_z: with_high_byte(cells.gyro_z, value), ..cells },
        _ => SensorCells { gyro_z: with_low_byte(cells.gyro_z, value), ..cells },
    }
}

/// A sixteen-bit value from its two bytes, as a cell holds it.
fn cell_of(high: u8, low: u8) -> (r: i32)
    ensures
        r == word(high, low),
{
    let unsigned: i32 = high as i32 * 256 + low as i32;
    if unsigned >= 0x8000 {
        unsigned - 0x1_0000
    } else {
        unsigned
    }
}

fn replace_high(cell: i32, value: u8) -> (r: i32)
    ensures
        r == with_high_byte(cell, value),
{
    let bits: u32 = #[verifier::truncate]
    (cell as u32);
    let masked: u32 = bits & 0xFF;
    assert(masked <= 0xFF) by (bit_vector)
        requires
            masked == bits & 0xFF,
    ;
    cell_of(value, masked as u8)
}

fn replace_low(cell: i32, value: u8) -> (r: i32)
    ensures
        r == with_low_byte(cell, value),
{
    let bits: u32 = #[verifier::truncate]
    (cell as u32);
    let masked: u32 = (bits >> 8) & 0xFF;
    assert(masked <= 0xFF) by (bit_vector)
        requires
            masked == (bits >> 8) & 0xFF,
    ;
    cell_of(masked as u8, value)
}

/// Stores the byte that was read in turn `rotation_index`.
pub fn store_rotated(cells: &mut SensorCells, rotation_index: u32, register_value: u8)
    ensures
        *final(cells) == stored(*old(cells), rotation_index, register_value),
{
    match rotation_index % ROTATION_LENGTH {
        0 => {
            cells.accel_x = replace_high(cells.accel_x, register_value);
        },
        1 => {
            cells.accel_x = replace_low(cells.accel_x, register_value);
        },
        2 => {
            cells.accel_y = replace_high(cells.accel_y, register_value);
        },
        3 => {
            cells.accel_y = replace_low(cells.accel_y, register_value);
        },
        4 => {
            cells.accel_z = replace_high(cells.accel_z, register_value);
        },
        5 => {
            cells.accel_z = replace_low(cells.accel_z, register_value);
        },
        6 => {
            cells.temperature = register_value as i32 * 256;
        },
        7 => {
            cells.gyro_x = replace_high(cells.gyro_x, register_value);
        },
        8 => {
            cells.gyro_x = replace_low(cells.gyro_x, register_value);
        },
        9 => {
            cells.gyro_y = replace_high(cells.gyro_y, register_value);
        },
        10 => {
            cells.gyro_y = replace_low(cells.gyro_y, register_value);
        },
        11 => {
            cells.gyro_z = replace_high(cells.gyro_z, register_value);
        },
        _ => {
            cells.gyro_z = replace_low(cells.gyro_z, register_value);
        },
    }
}

/// After the two bytes of a value were stored, in either order, the cell
/// holds the value that the two bytes stand for.
pub proof fn lemma_both_bytes_make_the_word(cell: i32, high: u8, low: u8)
    ensures
        with_low_byte(with_high_byte(cell, high), low) == word(high, low),
        with_high_byte(with_low_byte(cell, low), high) == word(high, low),
{
    let a = with_high_byte(cell, high);
    let b = with_low_byte(cell, low);
    let l0 = low_byte(cell);
    let h0 = high_byte(cell);
    assert(high_byte(a) == high) by {
        lemma_bytes_of_word(high, l0);
    }
    assert(low_byte(b) == low) by {
        lemma_bytes_of_word(h0, low);
    }
}

/// The two low bytes of a cell that holds a word are the bytes of the
/// word.
pub proof fn lemma_bytes_of_word(high: u8, low: u8)
    ensures
        high_byte(word(high, low) as i32) == high,
        low_byte(word(high, low) as i32) == low,
{
    let unsigned: u32 = (high * 256 + low) as u32;
    let cell: i32 = word(high, low) as i32;
    assert(unsigned == (high as u32) << 8 | (low as u32)) by (bit_vector)
        requires
            unsigned == (high as u32) * 256 + (low as u32),
    ;
    if unsigned >= 0x8000 {
        assert(cell == unsigned - 0x1_0000);
        assert(cell as u32 == (unsigned + 0xFFFF_0000) as u32) by (bit_vector)
            requires
                cell == unsigned - 0x1_0000,
                0x8000 <= unsigned <= 0xFFFF,
        ;
        let bits: u32 = (unsigned + 0xFFFF_0000) as u32;
        assert((bits & 0xFF) == low && ((bits >> 8) & 0xFF) == high) by (bit_vector)
            requires
                bits == unsigned + 0xFFFF_0000,
                0x8000 <= unsigned <= 0xFFFF,
                unsigned == (high as u32) << 8 | (low as u32),
        ;
    } else {
        assert(cell == unsigned);
        assert(cell as u32 == unsigned);
        assert((unsigned & 0xFF) == low && ((unsigned >> 8) & 0xFF) == high) by (bit_vector)
            requires
                unsigned == (high as u32) << 8 | (low as u32),
        ;
    }
}

} // verus!
