//! Motion control: from the motion sensor's readings to the inputs of a
//! game, by tilt, tap, rotation, gesture, or tilt against a calibrated
//! rest position.

use vstd::prelude::*;
use crate::mpu6050::quotient_toward_zero;

verus! {

/// A change of acceleration along z above this is a tap.
pub const TAP_THRESHOLD: i32 = 8000;

/// A tilt from the rest position above this flaps.
pub const TILT_THRESHOLD: i32 = 4000;

/// A rotation rate above this flaps; above twice this it is a special
/// action.
pub const ROTATION_THRESHOLD: i32 = 5000;

/// The number of samples that a calibration takes.
pub const CALIBRATION_SAMPLES_NEEDED: u32 = 50;

#[derive(Debug, Copy, Clone, PartialEq, Eq, Structural)]
pub enum MotionControlMode {
    Disabled,
    /// The bird follows the board's tilt.
    TiltControl,
    /// A tap flaps.
    TapControl,
    /// The gyroscope steers.
    RotationControl,
    /// Gestures.
    GestureControl,
    /// Tilt against a calibrated rest position.
    CalibratedTilt,
}

#[derive(Debug, Copy, Clone, PartialEq, Eq, Structural)]
pub struct MotionState {
    /// Should the bird flap?
    pub flap_trigger: bool,
    /// Up and down, from -100 to 100.
    pub vertical_input: i32,
    /// Left and right, from -100 to 100.
    pub horizontal_input: i32,
    pub special_action: bool,
    pub calibrating: bool,
}

#[derive(Debug, Copy, Clone, PartialEq, Eq, Structural)]
pub struct SensorReading {
    pub accel_x: i16,
    pub accel_y: i16,
    pub accel_z: i16,
    pub gyro_x: i16,
    pub gyro_y: i16,
    pub gyro_z: i16,
    pub temperature: i16,
}

/// The latest sample as the interrupt handler has stored it, each value in
/// a 32-bit cell.
#[derive(Debug, Copy, Clone, PartialEq, Eq, Structural)]
pub struct SensorCells {
    pub accel_x: i32,
    pub accel_y: i32,
    pub accel_z: i32,
    pub gyro_x: i32,
    pub gyro_y: i32,
    pub gyro_z: i32,
    pub temperature: i32,
}

/// The number that stands for a mode.
pub open spec fn mode_number(mode: MotionControlMode) -> u32 {
    match mode {
        MotionControlMode::Disabled => 0,
        MotionControlMode::TiltControl => 1,
        MotionControlMode::TapControl => 2,
        MotionControlMode::RotationControl => 3,
        MotionControlMode::GestureControl => 4,
        MotionControlMode::CalibratedTilt => 5,
    }
}

/// The mode that a number stands for; a number that stands for none means
/// `Disabled`.
pub open spec fn mode_of(value: u32) -> MotionControlMode {
    match value {
        1 => MotionControlMode::TiltControl,
        2 => MotionControlMode::TapControl,
        3 => MotionControlMode::RotationControl,
        4 => MotionControlMode::GestureControl,
        5 => MotionControlMode::CalibratedTilt,
        _ => MotionControlMode::Disabled,
    }
}

impl MotionControlMode {
    pub fn from_u32(value: u32) -> (mode: MotionControlMode)
        ensures
            mode == mode_of(value),
    {
        match value {
            1 => MotionControlMode::TiltControl,
            2 => MotionControlMode::TapControl,
            3 => MotionControlMode::RotationControl,
            4 => MotionControlMode::GestureControl,
            5 => MotionControlMode::CalibratedTilt,
            _ => MotionControlMode::Disabled,
        }
    }

    /// The number that stands for the mode.
    pub fn to_u32(self) -> (value: u32)
        ensures
            value == mode_number(self),
    {
        match self {
            MotionControlMode::Disabled => 0,
            MotionControlMode::TiltControl => 1,
            MotionControlMode::TapControl => 2,
            MotionControlMode::RotationControl => 3,
            MotionControlMode::GestureControl => 4,
            MotionControlMode::CalibratedTilt => 5,
        }
    }
}

/// A mode survives the way through its number.
pub proof fn lemma_mode_round_trip(mode: MotionControlMode)
    ensures
        mode_of(mode_number(mode)) == mode,
{
}

/// `v` held to the range from -100 to 100.
pub open spec fn clamp100(v: int) -> int {
    if v < -100 {
        -100
    } else if v > 100 {
        100
    } else {
        v
    }
}

/// A raw reading as a share of `full_scale` in hundredths, rounded toward
/// zero and held to the range from -100 to 100.
pub open spec fn scaled(raw: int, full_scale: int) -> int {
    clamp100(quotient_toward_zero(raw * 100, full_scale))
}

/// The size of a number without its sign.
pub open spec fn magnitude(v: int) -> int {
    if v < 0 {
        -v
    } else {
        v
    }
}

/// What motion control remembers between samples.
pub struct MotionControlView {
    /// The number of the mode.
    pub control_mode: u32,
    /// How many samples the calibration has taken.
    pub calibration_samples: u32,
    /// The rest position: the average of the samples taken.
    pub accel_x_neutral: int,
    pub accel_y_neutral: int,
    pub accel_z_neutral: int,
    /// The acceleration along z of the sample before.
    pub prev_accel_z: int,
    /// For how many samples no tap counts.
    pub tap_cooldown: u32,
    /// The last eight accelerations along z, as a ring.
    pub gesture_buffer: Seq<i16>,
    /// Where in the ring the next one goes.
    pub buffer_index: nat,
}

impl MotionControlView {
    pub open spec fn wf(self) -> bool {
        &&& self.calibration_samples <= 50
        &&& -32768 <= self.accel_x_neutral <= 32767
        &&& -32768 <= self.accel_y_neutral <= 32767
        &&& -32768 <= self.accel_z_neutral <= 32767
        &&& -32768 <= self.prev_accel_z <= 32767
        &&& self.tap_cooldown <= 10
        &&& self.gesture_buffer.len() == 8
        &&& self.buffer_index < 8
    }
}

/// Motion control as it starts: disabled, not calibrated, at rest flat on
/// the table with one g along z.
pub open spec fn initial_view() -> MotionControlView {
    MotionControlView {
        control_mode: 0,
        calibration_samples: 0,
        accel_x_neutral: 0,
        accel_y_neutral: 0,
        accel_z_neutral: -16384,
        prev_accel_z: 0,
        tap_cooldown: 0,
        gesture_buffer: Seq::new(8, |i: int| 0i16),
        buffer_index: 0,
    }
}

/// No input at all.
pub open spec fn idle_state(calibrating: bool) -> MotionState {
    MotionState {
        flap_trigger: false,
        vertical_input: 0,
        horizontal_input: 0,
        special_action: false,
        calibrating,
    }
}

/// Tilt: the accelerations along x and y against one g, a flap above half.
pub open spec fn tilt_state(s: SensorReading) -> MotionState {
    MotionState {
        flap_trigger: scaled(s.accel_x as int, 16384) > 50,
        vertical_input: scaled(s.accel_x as int, 16384) as i32,
        horizontal_input: scaled(s.accel_y as int, 16384) as i32,
        special_action: false,
        calibrating: false,
    }
}

/// Whether a sample is a tap: the acceleration along z has changed by more
/// than the threshold, and the cooldown, counted down by this sample, is
/// over.
pub open spec fn tap_detected(v: MotionControlView, s: SensorReading) -> bool {
    magnitude(s.accel_z - v.prev_accel_z) > 8000 && v.tap_cooldown <= 1
}

/// Tap: a tap flaps and starts a cooldown of ten samples; the acceleration
/// along y steers.
pub open spec fn tap_step(v: MotionControlView, s: SensorReading) -> (MotionControlView, MotionState) {
    (
        MotionControlView {
            prev_accel_z: s.accel_z as int,
            tap_cooldown: if tap_detected(v, s) {
                10u32
            } else if v.tap_cooldown > 0 {
                (v.tap_cooldown - 1) as u32
            } else {
                0u32
            },
            ..v
        },
        MotionState {
            flap_trigger: tap_detected(v, s),
            vertical_input: 0,
            horizontal_input: scaled(s.accel_y as int, 16384) as i32,
            special_action: false,
            calibrating: false,
        },
    )
}

/// Rotation: the rates about x and y against full scale; a rate about z
/// above the threshold flaps, above twice the threshold it is a special
/// action.
pub open spec fn rotation_state(s: SensorReading) -> MotionState {
    MotionState {
        flap_trigger: magnitude(s.gyro_z as int) > 5000,
        vertical_input: scaled(s.gyro_x as int, 32768) as i32,
        horizontal_input: scaled(s.gyro_y as int, 32768) as i32,
        special_action: magnitude(s.gyro_z as int) > 10000,
        calibrating: false,
    }
}

/// Whether entry `i` of the ring is a peak: above both neighbours and above
/// the threshold.
pub open spec fn is_peak(buffer: Seq<i16>, i: int) -> bool {
    buffer[i] > buffer[i - 1] && buffer[i] > buffer[i + 1] && buffer[i] > 8000
}

/// Whether entry `i` of the ring is a valley: below both neighbours and
/// below the negative threshold.
pub open spec fn is_valley(buffer: Seq<i16>, i: int) -> bool {
    buffer[i] < buffer[i - 1] && buffer[i] < buffer[i + 1] && buffer[i] < -8000
}

/// Whether the slope changes its sign at entry `i` of the ring, with a
/// slope of more than 1000 on one side.
pub open spec fn is_turn(buffer: Seq<i16>, i: int) -> bool {
    let prev_slope = buffer[i] - buffer[i - 1];
    let curr_slope = buffer[i + 1] - buffer[i];
    &&& (prev_slope > 0 && curr_slope < 0) || (prev_slope < 0 && curr_slope > 0)
    &&& magnitude(prev_slope) > 1000 || magnitude(curr_slope) > 1000
}

/// How many of the entries from 1 to `n - 1` satisfy `kind`.
pub open spec fn count_below(buffer: Seq<i16>, kind: spec_fn(Seq<i16>, int) -> bool, n: int) -> nat
    decreases n,
{
    if n <= 1 {
        0
    } else {
        count_below(buffer, kind, n - 1) + if kind(buffer, n - 1) {
            1nat
        } else {
            0nat
        }
    }
}

/// A wave: among the six inner entries of the ring, two peaks and a valley.
pub open spec fn wave_detected(buffer: Seq<i16>) -> bool {
    count_below(buffer, |b: Seq<i16>, i: int| is_peak(b, i), 7) >= 2 && count_below(
        buffer,
        |b: Seq<i16>, i: int| is_valley(b, i),
        7,
    ) >= 1
}

/// A shake: among the six inner entries of the ring, three turns.
pub open spec fn shake_detected(buffer: Seq<i16>) -> bool {
    count_below(buffer, |b: Seq<i16>, i: int| is_turn(b, i), 7) >= 3
}

/// Gesture: the sample goes into the ring; a wave flaps, a shake is a
/// special action, tilt steers.
pub open spec fn gesture_step(v: MotionControlView, s: SensorReading) -> (
    MotionControlView,
    MotionState,
) {
    let buffer = v.gesture_buffer.update(v.buffer_index as int, s.accel_z);
    (
        MotionControlView {
            gesture_buffer: buffer,
            buffer_index: ((v.buffer_index + 1) % 8) as nat,
            ..v
        },
        MotionState {
            flap_trigger: wave_detected(buffer),
            vertical_input: scaled(s.accel_x as int, 16384) as i32,
            horizontal_input: scaled(s.accel_y as int, 16384) as i32,
            special_action: shake_detected(buffer),
            calibrating: false,
        },
    )
}

/// The average of `count + 1` samples, given the average of the first
/// `count` and the last one, rounded toward zero.
pub open spec fn running_average(average: int, count: int, sample: int) -> int {
    quotient_toward_zero(average * count + sample, count + 1)
}

/// Calibrated tilt: the first fifty samples are averaged into the rest
/// position and give no input; after that the accelerations along x and y
/// count from the rest position, against half a g, and a tilt above the
/// threshold flaps.
pub open spec fn calibrated_step(v: MotionControlView, s: SensorReading) -> (
    MotionControlView,
    MotionState,
) {
    if v.calibration_samples < 50 {
        (
            MotionControlView {
                calibration_samples: (v.calibration_samples + 1) as u32,
                accel_x_neutral: running_average(
                    v.accel_x_neutral,
                    v.calibration_samples as int,
                    s.accel_x as int,
                ),
                accel_y_neutral: running_average(
                    v.accel_y_neutral,
                    v.calibration_samples as int,
                    s.accel_y as int,
                ),
                accel_z_neutral: running_average(
                    v.accel_z_neutral,
                    v.calibration_samples as int,
                    s.accel_z as int,
                ),
                ..v
            },
            idle_state(true),
        )
    } else {
        (
            v,
            MotionState {
                flap_trigger: s.accel_x - v.accel_x_neutral > 4000,
                vertical_input: scaled(s.accel_x - v.accel_x_neutral, 8192) as i32,
                horizontal_input: scaled(s.accel_y - v.accel_y_neutral, 8192) as i32,
                special_action: false,
                calibrating: false,
            },
        )
    }
}

/// One sample, in the mode that is set: what is remembered after it, and
/// the input that it gives.
pub open spec fn process_step(v: MotionControlView, s: SensorReading) -> (
    MotionControlView,
    MotionState,
) {
    match mode_of(v.control_mode) {
        MotionControlMode::Disabled => (v, idle_state(false)),
        MotionControlMode::TiltControl => (v, tilt_state(s)),
        MotionControlMode::TapControl => tap_step(v, s),
        MotionControlMode::RotationControl => (v, rotation_state(s)),
        MotionControlMode::GestureControl => gesture_step(v, s),
        MotionControlMode::CalibratedTilt => calibrated_step(v, s),
    }
}

/// The sample in the cells, each value cut to its low sixteen bits.
pub open spec fn reading_of(cells: SensorCells) -> SensorReading {
    SensorReading {
        accel_x: cells.accel_x as i16,
        accel_y: cells.accel_y as i16,
        accel_z: cells.accel_z as i16,
        gyro_x: cells.gyro_x as i16,
        gyro_y: cells.gyro_y as i16,
        gyro_z: cells.gyro_z as i16,
        temperature: cells.temperature as i16,
    }
}

/// Motion control: the mode and what is remembered between samples.
#[derive(Debug)]
pub struct MotionControl {
    control_mode: u32,
    calibration_samples: u32,
    accel_x_neutral: i32,
    accel_y_neutral: i32,
    accel_z_neutral: i32,
    prev_accel_z: i16,
    tap_cooldown: u32,
    gesture_buffer: [i16; 8],
    buffer_index: usize,
}

impl View for MotionControl {
    type V = MotionControlView;

    closed spec fn view(&self) -> MotionControlView {
        MotionControlView {
            control_mode: self.control_mode,
            calibration_samples: self.calibration_samples,
            accel_x_neutral: self.accel_x_neutral as int,
            accel_y_neutral: self.accel_y_neutral as int,
            accel_z_neutral: self.accel_z_neutral as int,
            prev_accel_z: self.prev_accel_z as int,
            tap_cooldown: self.tap_cooldown,
            gesture_buffer: self.gesture_buffer@,
            buffer_index: self.buffer_index as nat,
        }
    }
}

/// The quotient of a number within `bound` times the divisor lies within
/// `bound`.
proof fn lemma_quotient_within(a: int, n: int, bound: int)
    requires
        n > 0,
        bound >= 0,
        -bound * n <= a <= bound * n,
    ensures
        -bound <= quotient_toward_zero(a, n) <= bound,
{
    if a >= 0 {
        vstd::arithmetic::div_mod::lemma_div_pos_is_pos(a, n);
        vstd::arithmetic::div_mod::lemma_fundamental_div_mod(a, n);
        vstd::arithmetic::div_mod::lemma_mod_bound(a, n);
        assert(a / n <= bound) by (nonlinear_arith)
            requires
                n > 0,
                a == n * (a / n) + a % n,
                a % n >= 0,
                a <= bound * n,
        ;
    } else {
        let b = -a;
        assert((-bound) * n == -(bound * n)) by (nonlinear_arith);
        vstd::arithmetic::div_mod::lemma_div_pos_is_pos(b, n);
        vstd::arithmetic::div_mod::lemma_fundamental_div_mod(b, n);
        vstd::arithmetic::div_mod::lemma_mod_bound(b, n);
        assert(b / n <= bound) by (nonlinear_arith)
            requires
                n > 0,
                b == n * (b / n) + b % n,
                b % n >= 0,
                b <= bound * n,
        ;
    }
}

/// A raw reading as a share of `full_scale` in hundredths, from -100 to
/// 100.
fn scale(raw: i32, full_scale: i32) -> (r: i32)
    requires
        -70000 <= raw <= 70000,
        full_scale > 0,
    ensures
        r == scaled(raw as int, full_scale as int),
        -100 <= r <= 100,
{
    let v: i32 = (raw * 100) / full_scale;
    let v: i32 = if v < -100 { -100 } else { v };
    if v > 100 {
        100
    } else {
        v
    }
}

/// The size of a number without its sign.
fn abs(v: i32) -> (r: i32)
    requires
        v > i32::MIN,
    ensures
        r == magnitude(v as int),
{
    if v < 0 {
        -v
    } else {
        v
    }
}

/// The average of sixteen-bit samples is a sixteen-bit number.
pub proof fn lemma_running_average_in_range(current: int, count: int, sample: int)
    requires
        -32768 <= current <= 32767,
        -32768 <= sample <= 32767,
        0 <= count,
    ensures
        -32768 <= running_average(current, count, sample) <= 32767,
{
    let a = current * count + sample;
    let n = count + 1;
    assert(-32768 * n <= a <= 32767 * n) by (nonlinear_arith)
        requires
            a == current * count + sample,
            n == count + 1,
            -32768 <= current <= 32767,
            -32768 <= sample <= 32767,
            0 <= count,
    ;
    assert(32767 * n <= 32768 * n) by (nonlinear_arith)
        requires
            n > 0,
    ;
    lemma_quotient_within(a, n, 32768);
    if a >= 0 {
        vstd::arithmetic::div_mod::lemma_fundamental_div_mod(a, n);
        vstd::arithmetic::div_mod::lemma_mod_bound(a, n);
        assert(a / n <= 32767) by (nonlinear_arith)
            requires
                a <= 32767 * n,
                n > 0,
                a == n * (a / n) + a % n,
                a % n >= 0,
        ;
    }
}

/// The average of `count + 1` samples.
fn average(current: i32, count: u32, sample: i16) -> (r: i32)
    requires
        -32768 <= current <= 32767,
        count < 50,
    ensures
        r == running_average(current as int, count as int, sample as int),
        -32768 <= r <= 32767,
{
    proof {
        assert(-2_000_000 <= current * count <= 2_000_000) by (nonlinear_arith)
            requires
                -32768 <= current <= 32767,
                0 <= count < 50,
        ;
        lemma_running_average_in_range(current as int, count as int, sample as int);
    }
    (current * count as i32 + sample as i32) / (count + 1) as i32
}

impl MotionControl {
    #[verifier::type_invariant]
    spec fn inv(&self) -> bool {
        self@.wf()
    }

    /// Motion control as it starts.
    pub fn new() -> (r: MotionControl)
        ensures
            r@ == initial_view(),
    {
        let r = MotionControl {
            control_mode: 0,
            calibration_samples: 0,
            accel_x_neutral: 0,
            accel_y_neutral: 0,
            accel_z_neutral: -16384,
            prev_accel_z: 0,
            tap_cooldown: 0,
            gesture_buffer: [0i16; 8],
            buffer_index: 0,
        };
        assert(r@.gesture_buffer =~= Seq::new(8, |i: int| 0i16));
        r
    }
}

/// Disables motion control and forgets the calibration count.
pub fn motion_init(control: &mut MotionControl)
    ensures
        final(control)@ == (MotionControlView { control_mode: 0, calibration_samples: 0, ..old(control)@ }),
        final(control)@.wf(),
{
    proof {
        use_type_invariant(&*control);
    }
    control.control_mode = 0;
    control.calibration_samples = 0;
}

/// Sets the mode; calibrated tilt starts with a new calibration.
pub fn motion_set_mode(control: &mut MotionControl, mode: MotionControlMode)
    ensures
        final(control)@ == (MotionControlView {
            control_mode: mode_number(mode),
            calibration_samples: if mode == MotionControlMode::CalibratedTilt {
                0
            } else {
                old(control)@.calibration_samples
            },
            ..old(control)@
        }),
        final(control)@.wf(),
{
    proof {
        use_type_invariant(&*control);
    }
    control.control_mode = mode.to_u32();
    match mode {
        MotionControlMode::CalibratedTilt => {
            control.calibration_samples = 0;
        },
        _ => {},
    }
}

/// The sample in the cells.
pub fn motion_get_sensors(cells: &SensorCells) -> (r: SensorReading)
    ensures
        r == reading_of(*cells),
{
    SensorReading {
        accel_x: #[verifier::truncate]
        (cells.accel_x as i16),
        accel_y: #[verifier::truncate]
        (cells.accel_y as i16),
        accel_z: #[verifier::truncate]
        (cells.accel_z as i16),
        gyro_x: #[verifier::truncate]
        (cells.gyro_x as i16),
        gyro_y: #[verifier::truncate]
        (cells.gyro_y as i16),
        gyro_z: #[verifier::truncate]
        (cells.gyro_z as i16),
        temperature: #[verifier::truncate]
        (cells.temperature as i16),
    }
}

/// Takes the sample in the cells, in the mode that is set, and gives the
/// input that it means, each direction between -100 and 100.
pub fn motion_process(control: &mut MotionControl, cells: &SensorCells) -> (r: MotionState)
    ensures
        old(control)@.wf(),
        final(control)@ == process_step(old(control)@, reading_of(*cells)).0,
        r == process_step(old(control)@, reading_of(*cells)).1,
        final(control)@.wf(),
        -100 <= r.vertical_input <= 100,
        -100 <= r.horizontal_input <= 100,
{
    proof {
        use_type_invariant(&*control);
        lemma_inputs_in_range(control@, reading_of(*cells));
    }
    let mode = MotionControlMode::from_u32(control.control_mode);
    let sensors = motion_get_sensors(cells);
    match mode {
        MotionControlMode::Disabled => MotionState {
            flap_trigger: false,
            vertical_input: 0,
            horizontal_input: 0,
            special_action: false,
            calibrating: false,
        },
        MotionControlMode::TiltControl => process_tilt_control(sensors),
        MotionControlMode::TapControl => process_tap_control(control, sensors),
        MotionControlMode::RotationControl => process_rotation_control(sensors),
        MotionControlMode::GestureControl => process_gesture_control(control, sensors),
        MotionControlMode::CalibratedTilt => process_calibrated_tilt_control(control, sensors),
    }
}

fn process_tilt_control(sensors: SensorReading) -> (r: MotionState)
    ensures
        r == tilt_state(sensors),
{
    let vertical_input = scale(sensors.accel_x as i32, 16384);
    let horizontal_input = scale(sensors.accel_y as i32, 16384);
    let flap_trigger = vertical_input > 50;
    MotionState { flap_trigger, vertical_input, horizontal_input, special_action: false, calibrating: false }
}

fn process_tap_control(control: &mut MotionControl, sensors: SensorReading) -> (r: MotionState)
    ensures
        final(control)@ == tap_step(old(control)@, sensors).0,
        r == tap_step(old(control)@, sensors).1,
        final(control)@.wf(),
{
    proof {
        use_type_invariant(&*control);
    }
    let mut cooldown: u32 = control.tap_cooldown;
    if cooldown > 0 {
        cooldown -= 1;
    }
    let accel_change: i32 = (sensors.accel_z as i32) - (control.prev_accel_z as i32);
    let flap_trigger = abs(accel_change) > TAP_THRESHOLD && cooldown == 0;
    if flap_trigger {
        cooldown = 10;
    }
    let horizontal_input = scale(sensors.accel_y as i32, 16384);
    control.prev_accel_z = sensors.accel_z;
    control.tap_cooldown = cooldown;
    MotionState {
        flap_trigger,
        vertical_input: 0,
        horizontal_input,
        special_action: false,
        calibrating: false,
    }
}

fn process_rotation_control(sensors: SensorReading) -> (r: MotionState)
    ensures
        r == rotation_state(sensors),
{
    let rotation_raw: i32 = sensors.gyro_z as i32;
    let vertical_input = scale(sensors.gyro_x as i32, 32768);
    let horizontal_input = scale(sensors.gyro_y as i32, 32768);
    let flap_trigger = abs(rotation_raw) > ROTATION_THRESHOLD;
    let special_action = abs(rotation_raw) > ROTATION_THRESHOLD * 2;
    MotionState { flap_trigger, vertical_input, horizontal_input, special_action, calibrating: false }
}

fn process_gesture_control(control: &mut MotionControl, sensors: SensorReading) -> (r: MotionState)
    ensures
        final(control)@ == gesture_step(old(control)@, sensors).0,
        r == gesture_step(old(control)@, sensors).1,
        final(control)@.wf(),
{
    proof {
        use_type_invariant(&*control);
    }
    let mut buffer: [i16; 8] = control.gesture_buffer;
    let index: usize = control.buffer_index;
    buffer[index] = sensors.accel_z;
    assert(buffer@ =~= old(control)@.gesture_buffer.update(index as int, sensors.accel_z));
    let wave_detected = detect_wave_gesture(buffer);
    let shake_detected = detect_shake_gesture(buffer);
    let vertical_input = scale(sensors.accel_x as i32, 16384);
    let horizontal_input = scale(sensors.accel_y as i32, 16384);
    control.gesture_buffer = buffer;
    control.buffer_index = (index + 1) % 8;
    MotionState {
        flap_trigger: wave_detected,
        vertical_input,
        horizontal_input,
        special_action: shake_detected,
        calibrating: false,
    }
}

fn process_calibrated_tilt_control(control: &mut MotionControl, sensors: SensorReading) -> (r:
    MotionState)
    ensures
        final(control)@ == calibrated_step(old(control)@, sensors).0,
        r == calibrated_step(old(control)@, sensors).1,
        final(control)@.wf(),
{
    proof {
        use_type_invariant(&*control);
    }
    let samples: u32 = control.calibration_samples;
    if samples < CALIBRATION_SAMPLES_NEEDED {
        let new_x = average(control.accel_x_neutral, samples, sensors.accel_x);
        let new_y = average(control.accel_y_neutral, samples, sensors.accel_y);
        let new_z = average(control.accel_z_neutral, samples, sensors.accel_z);
        control.calibration_samples = samples + 1;
        control.accel_x_neutral = new_x;
        control.accel_y_neutral = new_y;
        control.accel_z_neutral = new_z;
        return MotionState {
            flap_trigger: false,
            vertical_input: 0,
            horizontal_input: 0,
            special_action: false,
            calibrating: true,
        };
    }
    let vertical_offset: i32 = (sensors.accel_x as i32) - control.accel_x_neutral;
    let horizontal_offset: i32 = (sensors.accel_y as i32) - control.accel_y_neutral;
    let vertical_input = scale(vertical_offset, 8192);
    let horizontal_input = scale(horizontal_offset, 8192);
    let flap_trigger = vertical_offset > TILT_THRESHOLD;
    MotionState { flap_trigger, vertical_input, horizontal_input, special_action: false, calibrating: false }
}

fn detect_wave_gesture(buffer: [i16; 8]) -> (r: bool)
    ensures
        r == wave_detected(buffer@),
{
    let mut peaks: u32 = 0;
    let mut valleys: u32 = 0;
    let mut i: usize = 1;
    while i < 7
        invariant
            1 <= i <= 7,
            peaks == count_below(buffer@, |b: Seq<i16>, i: int| is_peak(b, i), i as int),
            valleys == count_below(buffer@, |b: Seq<i16>, i: int| is_valley(b, i), i as int),
            peaks <= i,
            valleys <= i,
        decreases 7 - i,
    {
        if buffer[i] > buffer[i - 1] && buffer[i] > buffer[i + 1] && buffer[i] > 8000 {
            peaks += 1;
        }
        if buffer[i] < buffer[i - 1] && buffer[i] < buffer[i + 1] && buffer[i] < -8000 {
            valleys += 1;
        }
        i += 1;
    }
    peaks >= 2 && valleys >= 1
}

fn detect_shake_gesture(buffer: [i16; 8]) -> (r: bool)
    ensures
        r == shake_detected(buffer@),
{
    let mut direction_changes: u32 = 0;
    let mut i: usize = 1;
    while i < 7
        invariant
            1 <= i <= 7,
            direction_changes == count_below(buffer@, |b: Seq<i16>, i: int| is_turn(b, i), i as int),
            direction_changes <= i,
        decreases 7 - i,
    {
        let prev_slope: i32 = buffer[i] as i32 - buffer[i - 1] as i32;
        let curr_slope: i32 = buffer[i + 1] as i32 - buffer[i] as i32;
        if (prev_slope > 0 && curr_slope < 0) || (prev_slope < 0 && curr_slope > 0) {
            if abs(prev_slope) > 1000 || abs(curr_slope) > 1000 {
                direction_changes += 1;
            }
        }
        i += 1;
    }
    direction_changes >= 3
}

/// The mode that is set.
pub fn motion_get_mode(control: &MotionControl) -> (mode: MotionControlMode)
    ensures
        mode == mode_of(control@.control_mode),
{
    MotionControlMode::from_u32(control.control_mode)
}

/// Whether a calibration is under way: the mode is calibrated tilt and the
/// calibration has not yet taken its fifty samples.
pub fn motion_is_calibrating(control: &MotionControl) -> (r: bool)
    ensures
        r == (mode_of(control@.control_mode) == MotionControlMode::CalibratedTilt
            && control@.calibration_samples < 50),
{
    let mode = motion_get_mode(control);
    match mode {
        MotionControlMode::CalibratedTilt => control.calibration_samples < CALIBRATION_SAMPLES_NEEDED,
        _ => false,
    }
}

/// How far the calibration has come, in hundredths.
pub fn motion_get_calibration_progress(control: &MotionControl) -> (r: u32)
    ensures
        r == control@.calibration_samples * 2,
        r <= 100,
{
    proof {
        use_type_invariant(control);
    }
    let samples: u32 = control.calibration_samples;
    (samples * 100) / CALIBRATION_SAMPLES_NEEDED
}

/// Starts the calibration anew.
pub fn motion_recalibrate(control: &mut MotionControl)
    ensures
        final(control)@ == (MotionControlView { calibration_samples: 0, ..old(control)@ }),
        final(control)@.wf(),
{
    proof {
        use_type_invariant(&*control);
    }
    control.calibration_samples = 0;
}

/// Every input that motion control gives lies between -100 and 100, and
/// what it remembers stays well-formed.
pub proof fn lemma_inputs_in_range(v: MotionControlView, s: SensorReading)
    requires
        v.wf(),
    ensures
        -100 <= process_step(v, s).1.vertical_input <= 100,
        -100 <= process_step(v, s).1.horizontal_input <= 100,
        process_step(v, s).0.wf(),
{
    let c = v.calibration_samples as int;
    lemma_running_average_in_range(v.accel_x_neutral, c, s.accel_x as int);
    lemma_running_average_in_range(v.accel_y_neutral, c, s.accel_y as int);
    lemma_running_average_in_range(v.accel_z_neutral, c, s.accel_z as int);
}

/// While a calibration is under way no input is given, and it is over
/// after fifty samples: each sample in calibrated tilt counts one up until
/// fifty are taken, and none is counted after that.
pub proof fn lemma_calibration_counts_to_fifty(v: MotionControlView, s: SensorReading)
    requires
        v.wf(),
        mode_of(v.control_mode) == MotionControlMode::CalibratedTilt,
    ensures
        v.calibration_samples < 50 ==> process_step(v, s).1 == idle_state(true) && process_step(
            v,
            s,
        ).0.calibration_samples == v.calibration_samples + 1,
        v.calibration_samples == 50 ==> !process_step(v, s).1.calibrating && process_step(v, s).0 == v,
{
}

} // verus!
