use f429_disco::motion_control::SensorCells;
use f429_disco::mpu6050::DataReady;
use f429_disco::sampling::{on_sensor_interrupt, rotation_register, store_rotated};

fn cells(v: i32) -> SensorCells {
    SensorCells { accel_x: v, accel_y: v, accel_z: v, gyro_x: v, gyro_y: v, gyro_z: v, temperature: v }
}

fn with_high(cell: i32, value: u8) -> i32 {
    let current_low = (cell & 0xFF) as i16;
    (((value as i16) << 8) | current_low) as i32
}

fn with_low(cell: i32, value: u8) -> i32 {
    let current_high = (cell & 0xFF00) as i16;
    (current_high | (value as i16)) as i32
}

#[test]
fn every_tenth_interrupt_flags_a_sample() {
    for count in 0..45u32 {
        let mut flag = DataReady { ready: false };
        on_sensor_interrupt(&mut flag, count);
        assert_eq!(flag.ready, count % 10 == 0);
        let mut flag = DataReady { ready: true };
        on_sensor_interrupt(&mut flag, count);
        assert!(flag.ready);
    }
    let mut flag = DataReady { ready: false };
    on_sensor_interrupt(&mut flag, u32::MAX);
    assert!(!flag.ready);
    on_sensor_interrupt(&mut flag, 4_294_967_290);
    assert!(flag.ready);
}

#[test]
fn the_registers_come_in_turn() {
    let want = [0x3B, 0x3C, 0x3D, 0x3E, 0x3F, 0x40, 0x41, 0x43, 0x44, 0x45, 0x46, 0x47, 0x48];
    for (i, register) in want.iter().enumerate() {
        assert_eq!(rotation_register(i as u32), *register);
        assert_eq!(rotation_register(i as u32 + 13 * 7), *register);
    }
    assert_eq!(rotation_register(u32::MAX), want[(u32::MAX % 13) as usize]);
}

#[test]
fn a_byte_replaces_its_half_of_its_value() {
    for start in [0, 1, -1, 0x1234, -0x1234, 32767, -32768, 0x7FFF_FFFF, i32::MIN, 0x00FF, 0xFF00] {
        for value in [0u8, 1, 0x7F, 0x80, 0xFF, 0x5A] {
            for turn in 0..26u32 {
                let mut got = cells(start);
                store_rotated(&mut got, turn, value);
                let mut want = cells(start);
                match turn % 13 {
                    0 => want.accel_x = with_high(start, value),
                    1 => want.accel_x = with_low(start, value),
                    2 => want.accel_y = with_high(start, value),
                    3 => want.accel_y = with_low(start, value),
                    4 => want.accel_z = with_high(start, value),
                    5 => want.accel_z = with_low(start, value),
                    6 => want.temperature = (value as i32) << 8,
                    7 => want.gyro_x = with_high(start, value),
                    8 => want.gyro_x = with_low(start, value),
                    9 => want.gyro_y = with_high(start, value),
                    10 => want.gyro_y = with_low(start, value),
                    11 => want.gyro_z = with_high(start, value),
                    _ => want.gyro_z = with_low(start, value),
                }
                assert_eq!(got, want, "turn {turn}, value {value}, start {start}");
            }
        }
    }
}

#[test]
fn a_whole_turn_gives_a_whole_sample() {
    let raw = [0x12, 0x34, 0xFF, 0xFE, 0x80, 0x00, 0x0C, 0x00, 0x01, 0x7F, 0xFF, 0xC0, 0x00];
    let mut got = cells(-1);
    for (turn, value) in raw.iter().enumerate() {
        store_rotated(&mut got, turn as u32, *value);
    }
    assert_eq!(
        got,
        SensorCells {
            accel_x: 0x1234,
            accel_y: -2,
            accel_z: -32768,
            gyro_x: 1,
            gyro_y: 32767,
            gyro_z: -16384,
            temperature: 0x0C00,
        }
    );
}
