//! The MPU6050 motion sensor: what to send it, and what its bytes mean.

use vstd::prelude::*;
use crate::i2c::{i2c_read_register, read_register_steps, I2CError, I2cStep};

verus! {

/// The sensor's bus address, with its AD0 pin low.
pub const MPU6050_ADDR: u8 = 0x68;

pub const MPU6050_WHO_AM_I: u8 = 0x75;

pub const MPU6050_PWR_MGMT_1: u8 = 0x6B;

pub const MPU6050_PWR_MGMT_2: u8 = 0x6C;

pub const MPU6050_GYRO_CONFIG: u8 = 0x1B;

pub const MPU6050_ACCEL_CONFIG: u8 = 0x1C;

pub const MPU6050_SMPLRT_DIV: u8 = 0x19;

pub const MPU6050_CONFIG: u8 = 0x1A;

pub const MPU6050_INT_PIN_CFG: u8 = 0x37;

pub const MPU6050_INT_ENABLE: u8 = 0x38;

pub const MPU6050_INT_STATUS: u8 = 0x3A;

pub const MPU6050_ACCEL_XOUT_H: u8 = 0x3B;

pub const MPU6050_ACCEL_XOUT_L: u8 = 0x3C;

pub const MPU6050_ACCEL_YOUT_H: u8 = 0x3D;

pub const MPU6050_ACCEL_YOUT_L: u8 = 0x3E;

pub const MPU6050_ACCEL_ZOUT_H: u8 = 0x3F;

pub const MPU6050_ACCEL_ZOUT_L: u8 = 0x40;

pub const MPU6050_TEMP_OUT_H: u8 = 0x41;

pub const MPU6050_TEMP_OUT_L: u8 = 0x42;

pub const MPU6050_GYRO_XOUT_H: u8 = 0x43;

pub const MPU6050_GYRO_XOUT_L: u8 = 0x44;

pub const MPU6050_GYRO_YOUT_H: u8 = 0x45;

pub const MPU6050_GYRO_YOUT_L: u8 = 0x46;

pub const MPU6050_GYRO_ZOUT_H: u8 = 0x47;

pub const MPU6050_GYRO_ZOUT_L: u8 = 0x48;

#[derive(Debug, Copy, Clone, PartialEq, Eq, Structural)]
pub struct AccelData {
    pub x: i16,
    pub y: i16,
    pub z: i16,
}

#[derive(Debug, Copy, Clone, PartialEq, Eq, Structural)]
pub struct GyroData {
    pub x: i16,
    pub y: i16,
    pub z: i16,
}

#[derive(Debug, Copy, Clone, PartialEq, Eq, Structural)]
pub struct Mpu6050Data {
    pub accel: AccelData,
    pub gyro: GyroData,
    pub temperature: i16,
}

#[derive(Debug, Copy, Clone, PartialEq, Eq, Structural)]
pub enum Mpu6050Error {
    I2CError(I2CError),
    DeviceNotFound,
    InitializationFailed,
}

impl From<I2CError> for Mpu6050Error {
    fn from(error: I2CError) -> (r: Mpu6050Error) {
        Mpu6050Error::I2CError(error)
    }
}

impl vstd::std_specs::convert::FromSpecImpl<I2CError> for Mpu6050Error {
    open spec fn obeys_from_spec() -> bool {
        true
    }

    open spec fn from_spec(error: I2CError) -> Mpu6050Error {
        Mpu6050Error::I2CError(error)
    }
}

/// The signed 16-bit number that two bytes stand for, the high byte first,
/// in two's complement.
pub open spec fn word(high: u8, low: u8) -> int {
    let unsigned = high * 256 + low;
    if unsigned >= 0x8000 {
        unsigned - 0x1_0000
    } else {
        unsigned
    }
}

/// Puts two bytes together.
fn join(high: u8, low: u8) -> (w: i16)
    ensures
        w == word(high, low),
{
    let unsigned: i32 = high as i32 * 256 + low as i32;
    if unsigned >= 0x8000 {
        (unsigned - 0x1_0000) as i16
    } else {
        unsigned as i16
    }
}

/// `a / b` rounded toward zero, for a positive `b`.
pub open spec fn quotient_toward_zero(a: int, b: int) -> int {
    if a >= 0 {
        a / b
    } else {
        -((-a) / b)
    }
}

/// One thing to do while the sensor is set up.
#[derive(Debug, Copy, Clone, PartialEq, Eq, Structural)]
pub enum InitStep {
    /// Write `value` to a register of the sensor.
    Write { register: u8, value: u8 },
    /// Wait for this many processor cycles.
    Delay { cycles: u32 },
}

/// The setup of the sensor for polling: wake it, 125 Hz sample rate, the
/// +-2 g and +-250 degrees per second ranges, the 94 Hz low pass filter.
pub open spec fn init_steps() -> Seq<InitStep> {
    seq![
        InitStep::Write { register: 0x6B, value: 0x00 },
        InitStep::Write { register: 0x19, value: 0x07 },
        InitStep::Write { register: 0x1C, value: 0x00 },
        InitStep::Write { register: 0x1B, value: 0x00 },
        InitStep::Write { register: 0x1A, value: 0x02 },
    ]
}

/// The setup of the sensor for interrupts: reset it and wait, wake it and
/// wait, 50 Hz sample rate, the ranges and the filter as for polling, the
/// interrupt pin active high and latched until the status is read, the
/// data ready interrupt on.
pub open spec fn init_interrupt_driven_steps() -> Seq<InitStep> {
    seq![
        InitStep::Write { register: 0x6B, value: 0x80 },
        InitStep::Delay { cycles: 1_600_000 },
        InitStep::Write { register: 0x6B, value: 0x00 },
        InitStep::Delay { cycles: 800_000 },
        InitStep::Write { register: 0x19, value: 0x13 },
        InitStep::Write { register: 0x1C, value: 0x00 },
        InitStep::Write { register: 0x1B, value: 0x00 },
        InitStep::Write { register: 0x1A, value: 0x02 },
        InitStep::Write { register: 0x37, value: 0x30 },
        InitStep::Write { register: 0x38, value: 0x01 },
    ]
}

/// Sets the sensor up for polling, given what its identity register
/// `MPU6050_WHO_AM_I` reads: `DeviceNotFound` unless that is `0x68`, else
/// the steps to take.
pub fn mpu6050_init(who_am_i: u8) -> (r: Result<Vec<InitStep>, Mpu6050Error>)
    ensures
        who_am_i != 0x68 ==> (r matches Err(e) && e == Mpu6050Error::DeviceNotFound),
        who_am_i == 0x68 ==> (r matches Ok(steps) && steps@ == init_steps()),
{
    if who_am_i != 0x68 {
        return Err(Mpu6050Error::DeviceNotFound);
    }
    let mut steps: Vec<InitStep> = Vec::new();
    steps.push(InitStep::Write { register: MPU6050_PWR_MGMT_1, value: 0x00 });
    steps.push(InitStep::Write { register: MPU6050_SMPLRT_DIV, value: 0x07 });
    steps.push(InitStep::Write { register: MPU6050_ACCEL_CONFIG, value: 0x00 });
    steps.push(InitStep::Write { register: MPU6050_GYRO_CONFIG, value: 0x00 });
    steps.push(InitStep::Write { register: MPU6050_CONFIG, value: 0x02 });
    assert(steps@ =~= init_steps());
    Ok(steps)
}

/// Sets the sensor up for interrupts, given what its identity register
/// reads: `DeviceNotFound` unless that is `0x68`, else the steps to take.
pub fn mpu6050_init_interrupt_driven(who_am_i: u8) -> (r: Result<Vec<InitStep>, Mpu6050Error>)
    ensures
        who_am_i != 0x68 ==> (r matches Err(e) && e == Mpu6050Error::DeviceNotFound),
        who_am_i == 0x68 ==> (r matches Ok(steps) && steps@ == init_interrupt_driven_steps()),
{
    if who_am_i != 0x68 {
        return Err(Mpu6050Error::DeviceNotFound);
    }
    let mut steps: Vec<InitStep> = Vec::new();
    steps.push(InitStep::Write { register: MPU6050_PWR_MGMT_1, value: 0x80 });
    steps.push(InitStep::Delay { cycles: 1_600_000 });
    steps.push(InitStep::Write { register: MPU6050_PWR_MGMT_1, value: 0x00 });
    steps.push(InitStep::Delay { cycles: 800_000 });
    steps.push(InitStep::Write { register: MPU6050_SMPLRT_DIV, value: 0x13 });
    steps.push(InitStep::Write { register: MPU6050_ACCEL_CONFIG, value: 0x00 });
    steps.push(InitStep::Write { register: MPU6050_GYRO_CONFIG, value: 0x00 });
    steps.push(InitStep::Write { register: MPU6050_CONFIG, value: 0x02 });
    steps.push(InitStep::Write { register: MPU6050_INT_PIN_CFG, value: 0x30 });
    steps.push(InitStep::Write { register: MPU6050_INT_ENABLE, value: 0x01 });
    assert(steps@ =~= init_interrupt_driven_steps());
    Ok(steps)
}

/// The registers that hold the acceleration, in the order in which
/// `mpu6050_read_accel` takes their bytes.
pub fn accel_registers() -> (r: [u8; 6])
    ensures
        r@ == seq![0x3Bu8, 0x3Cu8, 0x3Du8, 0x3Eu8, 0x3Fu8, 0x40u8],
{
    let r = [
        MPU6050_ACCEL_XOUT_H,
        MPU6050_ACCEL_XOUT_L,
        MPU6050_ACCEL_YOUT_H,
        MPU6050_ACCEL_YOUT_L,
        MPU6050_ACCEL_ZOUT_H,
        MPU6050_ACCEL_ZOUT_L,
    ];
    assert(r@ =~= seq![0x3Bu8, 0x3Cu8, 0x3Du8, 0x3Eu8, 0x3Fu8, 0x40u8]);
    r
}

/// The registers that hold the rotation, in the order in which
/// `mpu6050_read_gyro` takes their bytes.
pub fn gyro_registers() -> (r: [u8; 6])
    ensures
        r@ == seq![0x43u8, 0x44u8, 0x45u8, 0x46u8, 0x47u8, 0x48u8],
{
    let r = [
        MPU6050_GYRO_XOUT_H,
        MPU6050_GYRO_XOUT_L,
        MPU6050_GYRO_YOUT_H,
        MPU6050_GYRO_YOUT_L,
        MPU6050_GYRO_ZOUT_H,
        MPU6050_GYRO_ZOUT_L,
    ];
    assert(r@ =~= seq![0x43u8, 0x44u8, 0x45u8, 0x46u8, 0x47u8, 0x48u8]);
    r
}

/// The registers that hold the temperature, in the order in which
/// `mpu6050_read_temperature` takes their bytes.
pub fn temperature_registers() -> (r: [u8; 2])
    ensures
        r@ == seq![0x41u8, 0x42u8],
{
    let r = [MPU6050_TEMP_OUT_H, MPU6050_TEMP_OUT_L];
    assert(r@ =~= seq![0x41u8, 0x42u8]);
    r
}

/// The acceleration that the six bytes of the registers from
/// `MPU6050_ACCEL_XOUT_H` on stand for.
pub fn mpu6050_read_accel(x_h: u8, x_l: u8, y_h: u8, y_l: u8, z_h: u8, z_l: u8) -> (r: AccelData)
    ensures
        r.x == word(x_h, x_l),
        r.y == word(y_h, y_l),
        r.z == word(z_h, z_l),
{
    let x = join(x_h, x_l);
    let y = join(y_h, y_l);
    let z = join(z_h, z_l);
    AccelData { x, y, z }
}

/// The rotation that the six bytes of the registers from
/// `MPU6050_GYRO_XOUT_H` on stand for.
pub fn mpu6050_read_gyro(x_h: u8, x_l: u8, y_h: u8, y_l: u8, z_h: u8, z_l: u8) -> (r: GyroData)
    ensures
        r.x == word(x_h, x_l),
        r.y == word(y_h, y_l),
        r.z == word(z_h, z_l),
{
    let x = join(x_h, x_l);
    let y = join(y_h, y_l);
    let z = join(z_h, z_l);
    GyroData { x, y, z }
}

/// The raw temperature that the two bytes of the registers from
/// `MPU6050_TEMP_OUT_H` on stand for.
pub fn mpu6050_read_temperature(temp_h: u8, temp_l: u8) -> (r: i16)
    ensures
        r == word(temp_h, temp_l),
{
    join(temp_h, temp_l)
}

/// One thing to do while the sensor's data registers are read.
#[derive(Debug, Copy, Clone, PartialEq, Eq, Structural)]
pub enum BurstStep {
    /// Read a register of the sensor.
    Read { register: u8 },
    /// Let this many idle instructions pass.
    Pause { nops: u32 },
}

/// The reads that fetch a whole sample, registers `0x3B` to `0x48` in
/// order, with a short pause after each axis and a longer one before the
/// temperature and before the rotation.
pub open spec fn burst_steps() -> Seq<BurstStep> {
    seq![
        BurstStep::Read { register: 0x3B },
        BurstStep::Read { register: 0x3C },
        BurstStep::Pause { nops: 1000 },
        BurstStep::Read { register: 0x3D },
        BurstStep::Read { register: 0x3E },
        BurstStep::Pause { nops: 1000 },
        BurstStep::Read { register: 0x3F },
        BurstStep::Read { register: 0x40 },
        BurstStep::Pause { nops: 2000 },
        BurstStep::Read { register: 0x41 },
        BurstStep::Read { register: 0x42 },
        BurstStep::Pause { nops: 2000 },
        BurstStep::Read { register: 0x43 },
        BurstStep::Read { register: 0x44 },
        BurstStep::Pause { nops: 1000 },
        BurstStep::Read { register: 0x45 },
        BurstStep::Read { register: 0x46 },
        BurstStep::Pause { nops: 1000 },
        BurstStep::Read { register: 0x47 },
        BurstStep::Read { register: 0x48 },
    ]
}

/// The reads and pauses that fetch a whole sample.
pub fn burst_read_plan() -> (steps: Vec<BurstStep>)
    ensures
        steps@ == burst_steps(),
{
    let mut steps: Vec<BurstStep> = Vec::new();
    steps.push(BurstStep::Read { register: MPU6050_ACCEL_XOUT_H });
    steps.push(BurstStep::Read { register: MPU6050_ACCEL_XOUT_L });
    steps.push(BurstStep::Pause { nops: 1000 });
    steps.push(BurstStep::Read { register: MPU6050_ACCEL_YOUT_H });
    steps.push(BurstStep::Read { register: MPU6050_ACCEL_YOUT_L });
    steps.push(BurstStep::Pause { nops: 1000 });
    steps.push(BurstStep::Read { register: MPU6050_ACCEL_ZOUT_H });
    steps.push(BurstStep::Read { register: MPU6050_ACCEL_ZOUT_L });
    steps.push(BurstStep::Pause { nops: 2000 });
    steps.push(BurstStep::Read { register: MPU6050_TEMP_OUT_H });
    steps.push(BurstStep::Read { register: MPU6050_TEMP_OUT_L });
    steps.push(BurstStep::Pause { nops: 2000 });
    steps.push(BurstStep::Read { register: MPU6050_GYRO_XOUT_H });
    steps.push(BurstStep::Read { register: MPU6050_GYRO_XOUT_L });
    steps.push(BurstStep::Pause { nops: 1000 });
    steps.push(BurstStep::Read { register: MPU6050_GYRO_YOUT_H });
    steps.push(BurstStep::Read { register: MPU6050_GYRO_YOUT_L });
    steps.push(BurstStep::Pause { nops: 1000 });
    steps.push(BurstStep::Read { register: MPU6050_GYRO_ZOUT_H });
    steps.push(BurstStep::Read { register: MPU6050_GYRO_ZOUT_L });
    assert(steps@ =~= burst_steps());
    steps
}

/// The sample that the bytes of the fourteen registers from `0x3B` to
/// `0x48` stand for: acceleration, temperature, rotation.
pub open spec fn sample_of(raw: Seq<u8>) -> Mpu6050Data {
    Mpu6050Data {
        accel: AccelData {
            x: word(raw[0], raw[1]) as i16,
            y: word(raw[2], raw[3]) as i16,
            z: word(raw[4], raw[5]) as i16,
        },
        gyro: GyroData {
            x: word(raw[8], raw[9]) as i16,
            y: word(raw[10], raw[11]) as i16,
            z: word(raw[12], raw[13]) as i16,
        },
        temperature: word(raw[6], raw[7]) as i16,
    }
}

/// The whole sample that the bytes read by `burst_read_plan` stand for.
pub fn mpu6050_read_all(raw: &[u8; 14]) -> (r: Mpu6050Data)
    ensures
        r == sample_of(raw@),
{
    mpu6050_read_all_burst(raw)
}

/// The whole sample that the bytes read by `burst_read_plan` stand for.
pub fn mpu6050_read_all_burst(raw: &[u8; 14]) -> (r: Mpu6050Data)
    ensures
        r == sample_of(raw@),
{
    let accel = AccelData { x: join(raw[0], raw[1]), y: join(raw[2], raw[3]), z: join(raw[4], raw[5]) };
    let gyro = GyroData {
        x: join(raw[8], raw[9]),
        y: join(raw[10], raw[11]),
        z: join(raw[12], raw[13]),
    };
    let temperature = join(raw[6], raw[7]);
    Mpu6050Data { accel, gyro, temperature }
}

/// Whether the sensor has signalled a sample that was not yet fetched.
#[derive(Debug, Copy, Clone, PartialEq, Eq, Structural)]
pub struct DataReady {
    pub ready: bool,
}

/// Whether a new sample waits to be fetched.
pub fn mpu6050_data_ready(flag: &DataReady) -> (r: bool)
    ensures
        r == flag.ready,
{
    flag.ready
}

/// Notes that the sample was fetched.
pub fn mpu6050_clear_data_ready(flag: &mut DataReady)
    ensures
        !final(flag).ready,
{
    flag.ready = false;
}

/// Notes that the sensor has signalled a new sample.
pub fn mpu6050_set_data_ready(flag: &mut DataReady)
    ensures
        final(flag).ready,
{
    flag.ready = true;
}

/// Clears the sensor's interrupt: a read of its interrupt status register.
pub fn mpu6050_clear_interrupt() -> (steps: Vec<I2cStep>)
    ensures
        steps@ == read_register_steps(0x68, 0x3A),
{
    i2c_read_register(MPU6050_ADDR, MPU6050_INT_STATUS)
}

impl AccelData {
    /// The acceleration in thousandths of g, for the +-2 g range: each
    /// raw value times 61 and divided by 1000, rounded toward zero.
    pub fn to_g(&self) -> (r: (i32, i32, i32))
        ensures
            r.0 == quotient_toward_zero(self.x * 61, 1000),
            r.1 == quotient_toward_zero(self.y * 61, 1000),
            r.2 == quotient_toward_zero(self.z * 61, 1000),
    {
        ((self.x as i32 * 61) / 1000, (self.y as i32 * 61) / 1000, (self.z as i32 * 61) / 1000)
    }
}

impl GyroData {
    /// The rotation in thousandths of a degree per second, for the +-250
    /// degrees per second range: each raw value times 76 and divided by
    /// 10, rounded toward zero.
    pub fn to_dps(&self) -> (r: (i32, i32, i32))
        ensures
            r.0 == quotient_toward_zero(self.x * 76, 10),
            r.1 == quotient_toward_zero(self.y * 76, 10),
            r.2 == quotient_toward_zero(self.z * 76, 10),
    {
        ((self.x as i32 * 76) / 10, (self.y as i32 * 76) / 10, (self.z as i32 * 76) / 10)
    }
}

} // verus!
