//! The I2C driver: each bus operation as the script of register accesses
//! and waits that carries it out.

use vstd::prelude::*;
use crate::gpio::{
    enable_gpio_clock, set_gpio_alternate_function, set_gpio_mode_alternate_function,
    set_gpio_output_type_open_drain, set_gpio_pull_up, set_gpio_speed_high,
};
use crate::mcu::{GPIOB_BASE, RCC_BASE};
use crate::reg::RegOp;

verus! {

pub const I2C_CR1_OFFSET: u32 = 0x00;

pub const I2C_CR2_OFFSET: u32 = 0x04;

pub const I2C_OAR1_OFFSET: u32 = 0x08;

pub const I2C_DR_OFFSET: u32 = 0x10;

pub const I2C_SR1_OFFSET: u32 = 0x14;

pub const I2C_SR2_OFFSET: u32 = 0x18;

pub const I2C_CCR_OFFSET: u32 = 0x1C;

pub const I2C_TRISE_OFFSET: u32 = 0x20;

pub const I2C1_BASE: u32 = 0x4000_5400;

/// Peripheral enable, in control register 1.
pub const I2C_CR1_PE: u32 = 0;

/// Start generation.
pub const I2C_CR1_START: u32 = 8;

/// Stop generation.
pub const I2C_CR1_STOP: u32 = 9;

/// Acknowledge enable.
pub const I2C_CR1_ACK: u32 = 10;

/// Start bit sent, in status register 1.
pub const I2C_SR1_SB: u32 = 0;

/// Address sent.
pub const I2C_SR1_ADDR: u32 = 1;

/// Byte transfer finished.
pub const I2C_SR1_BTF: u32 = 2;

/// Data register not empty.
pub const I2C_SR1_RXNE: u32 = 6;

/// Data register empty.
pub const I2C_SR1_TXE: u32 = 7;

/// How often a flag is read before a wait for it is given up.
pub const I2C_TRIES: u32 = 100000;

#[derive(Copy, Clone, Debug, PartialEq, Eq, Structural)]
pub enum I2CError {
    Timeout,
    AddressNack,
    DataNack,
}

/// One step of a bus operation.
#[derive(Copy, Clone, Debug, PartialEq, Eq, Structural)]
pub enum I2cStep {
    /// Carry out a register access.
    Reg(RegOp),
    /// Read the register at `addr` until bit `bit` is set, at most `tries`
    /// times; if it is not set by then, the operation ends with `error`.
    Await { addr: u32, bit: u32, tries: u32, error: I2CError },
}

/// What to do after a read of an awaited flag.
#[derive(Copy, Clone, Debug, PartialEq, Eq, Structural)]
pub enum Poll {
    /// The flag is set: go on with the next step.
    Ready,
    /// Read the flag again, with this many tries left.
    Retry(u32),
    /// The tries are used up: the wait has failed.
    GiveUp,
}

/// How a wait goes on after one read of its flag, with `tries_left` tries
/// left before that read: a set flag ends it, a clear one uses up a try.
pub open spec fn polled(tries_left: u32, flag: bool) -> Poll {
    if flag {
        Poll::Ready
    } else if tries_left == 1 {
        Poll::GiveUp
    } else {
        Poll::Retry((tries_left - 1) as u32)
    }
}

/// Where a wait with `tries_left` tries stands after the flag was read as
/// `readings` tell, one reading for each read that the wait made.
pub open spec fn wait_after(tries_left: u32, readings: Seq<bool>) -> Poll
    decreases readings.len(),
{
    if readings.len() == 0 {
        Poll::Retry(tries_left)
    } else {
        match polled(tries_left, readings[0]) {
            Poll::Retry(left) => wait_after(left, readings.drop_first()),
            ended => ended,
        }
    }
}

/// A wait whose flag stays clear gives up with its last try: after fewer
/// reads than tries it still goes on, with the tries counted down, and
/// after as many reads as tries it has given up.
pub proof fn lemma_wait_gives_up_with_its_last_try(tries_left: u32, readings: Seq<bool>)
    requires
        0 < readings.len() <= tries_left,
        forall|i: int| 0 <= i < readings.len() ==> !readings[i],
    ensures
        readings.len() < tries_left ==> wait_after(tries_left, readings) == Poll::Retry(
            (tries_left - readings.len()) as u32,
        ),
        readings.len() == tries_left ==> wait_after(tries_left, readings) == Poll::GiveUp,
    decreases readings.len(),
{
    let rest = readings.drop_first();
    assert(!readings[0]);
    if readings.len() > 1 {
        assert forall|i: int| 0 <= i < rest.len() implies !rest[i] by {
            assert(rest[i] == readings[i + 1]);
        }
        lemma_wait_gives_up_with_its_last_try((tries_left - 1) as u32, rest);
    } else {
        assert(rest.len() == 0);
        assert(wait_after((tries_left - 1) as u32, rest) == Poll::Retry((tries_left - 1) as u32));
    }
}

/// A wait is over with the first read that finds the flag set, if that
/// read is one of its tries.
pub proof fn lemma_wait_ends_with_the_flag(tries_left: u32, readings: Seq<bool>)
    requires
        0 < readings.len() <= tries_left,
        forall|i: int| 0 <= i < readings.len() - 1 ==> !readings[i],
        readings[readings.len() - 1],
    ensures
        wait_after(tries_left, readings) == Poll::Ready,
    decreases readings.len(),
{
    let rest = readings.drop_first();
    if readings.len() > 1 {
        assert(!readings[0]);
        assert forall|i: int| 0 <= i < rest.len() - 1 implies !rest[i] by {
            assert(rest[i] == readings[i + 1]);
        }
        assert(rest[rest.len() - 1] == readings[readings.len() - 1]);
        lemma_wait_ends_with_the_flag((tries_left - 1) as u32, rest);
    }
}

/// Decides how a wait goes on after one read of its flag, with
/// `tries_left` tries left before that read.
pub fn poll(tries_left: u32, flag: bool) -> (next: Poll)
    requires
        tries_left > 0,
    ensures
        next == polled(tries_left, flag),
{
    if flag {
        return Poll::Ready;
    }
    let timeout: u32 = tries_left - 1;
    if timeout == 0 {
        Poll::GiveUp
    } else {
        Poll::Retry(timeout)
    }
}

/// The byte that a value read from the data register carries.
pub fn received_byte(data_register: u32) -> (byte: u8)
    ensures
        byte == data_register % 256,
{
    assert(data_register & 0xFF == data_register % 256) by (bit_vector);
    (data_register & 0xFF) as u8
}

/// The accesses that turn on the clock of the I2C1 peripheral.
pub open spec fn i2c1_clock_ops() -> Seq<RegOp> {
    seq![RegOp::SetBit { addr: 0x4002_3840, bit: 21, on: true }]
}

/// The accesses that hand PB8 and PB9 to the peripheral, as open-drain
/// lines with pull-ups at high speed.
pub open spec fn i2c_pin_ops() -> Seq<RegOp> {
    seq![
        RegOp::SetBits { addr: 0x4002_0400, value: 0x2, position: 16, width: 2 },
        RegOp::SetBits { addr: 0x4002_0400, value: 0x2, position: 18, width: 2 },
        RegOp::SetBits { addr: 0x4002_0424, value: 4, position: 0, width: 4 },
        RegOp::SetBits { addr: 0x4002_0424, value: 4, position: 4, width: 4 },
        RegOp::SetBit { addr: 0x4002_0404, bit: 8, on: true },
        RegOp::SetBit { addr: 0x4002_0404, bit: 9, on: true },
        RegOp::SetBits { addr: 0x4002_040C, value: 0x1, position: 16, width: 2 },
        RegOp::SetBits { addr: 0x4002_040C, value: 0x1, position: 18, width: 2 },
        RegOp::SetBits { addr: 0x4002_0408, value: 0x2, position: 16, width: 2 },
        RegOp::SetBits { addr: 0x4002_0408, value: 0x2, position: 18, width: 2 },
    ]
}

/// The accesses that put the peripheral into reset and release it.
pub open spec fn i2c1_reset_ops() -> Seq<RegOp> {
    seq![
        RegOp::SetBit { addr: 0x4002_3820, bit: 21, on: true },
        RegOp::SetBit { addr: 0x4002_3820, bit: 21, on: false },
    ]
}

/// The accesses that set the peripheral up as a master at 100 kHz on a
/// 42 MHz bus clock: disabled, the clock frequency, the clock divider, the
/// rise time, no own address, enabled.
pub open spec fn i2c1_setup_ops() -> Seq<RegOp> {
    seq![
        RegOp::SetBit { addr: 0x4000_5400, bit: 0, on: false },
        RegOp::SetBits { addr: 0x4000_5404, value: 42, position: 0, width: 6 },
        RegOp::SetVal { addr: 0x4000_541C, value: 210 },
        RegOp::SetVal { addr: 0x4000_5420, value: 43 },
        RegOp::SetVal { addr: 0x4000_5408, value: 0x00 },
        RegOp::SetBit { addr: 0x4000_5400, bit: 0, on: true },
    ]
}

/// All the accesses that bring up the bus, in order: the clocks of the
/// peripheral and of port B, the pins, the reset, the setup.
pub open spec fn i2c_init_ops() -> Seq<RegOp> {
    i2c1_clock_ops() + seq![RegOp::SetBit { addr: 0x4002_3830, bit: 1, on: true }] + i2c_pin_ops()
        + i2c1_reset_ops() + i2c1_setup_ops()
}

/// Appends `more` to `ops`.
fn append_ops(ops: &mut Vec<RegOp>, more: Vec<RegOp>)
    ensures
        final(ops)@ == old(ops)@ + more@,
{
    let mut more = more;
    ops.append(&mut more);
}

/// Appends `more` to `steps`.
fn append_steps(steps: &mut Vec<I2cStep>, more: Vec<I2cStep>)
    ensures
        final(steps)@ == old(steps)@ + more@,
{
    let mut more = more;
    steps.append(&mut more);
}

/// Brings up the bus.
pub fn i2c_init() -> (ops: Vec<RegOp>)
    ensures
        ops@ == i2c_init_ops(),
{
    let mut ops: Vec<RegOp> = Vec::new();
    ops.push(enable_i2c1_clock());
    match enable_gpio_clock(GPIOB_BASE) {
        Some(op) => ops.push(op),
        None => {},
    }
    append_ops(&mut ops, configure_i2c_pins());
    append_ops(&mut ops, reset_i2c1());
    append_ops(&mut ops, configure_i2c1());
    assert(ops@ =~= i2c_init_ops());
    ops
}

fn enable_i2c1_clock() -> (op: RegOp)
    ensures
        seq![op] == i2c1_clock_ops(),
{
    let op = RegOp::SetBit { addr: RCC_BASE + 0x40, bit: 21, on: true };
    assert(seq![op] =~= i2c1_clock_ops());
    op
}

fn configure_i2c_pins() -> (ops: Vec<RegOp>)
    ensures
        ops@ == i2c_pin_ops(),
{
    let mut ops: Vec<RegOp> = Vec::new();
    ops.push(set_gpio_mode_alternate_function(GPIOB_BASE, 8));
    ops.push(set_gpio_mode_alternate_function(GPIOB_BASE, 9));
    ops.push(set_gpio_alternate_function(GPIOB_BASE, 8, 4));
    ops.push(set_gpio_alternate_function(GPIOB_BASE, 9, 4));
    ops.push(set_gpio_output_type_open_drain(GPIOB_BASE, 8));
    ops.push(set_gpio_output_type_open_drain(GPIOB_BASE, 9));
    ops.push(set_gpio_pull_up(GPIOB_BASE, 8));
    ops.push(set_gpio_pull_up(GPIOB_BASE, 9));
    ops.push(set_gpio_speed_high(GPIOB_BASE, 8));
    ops.push(set_gpio_speed_high(GPIOB_BASE, 9));
    assert(ops@ =~= i2c_pin_ops());
    ops
}

fn reset_i2c1() -> (ops: Vec<RegOp>)
    ensures
        ops@ == i2c1_reset_ops(),
{
    let rcc_apb1rstr_addr: u32 = RCC_BASE + 0x20;
    let mut ops: Vec<RegOp> = Vec::new();
    ops.push(RegOp::SetBit { addr: rcc_apb1rstr_addr, bit: 21, on: true });
    ops.push(RegOp::SetBit { addr: rcc_apb1rstr_addr, bit: 21, on: false });
    assert(ops@ =~= i2c1_reset_ops());
    ops
}

fn configure_i2c1() -> (ops: Vec<RegOp>)
    ensures
        ops@ == i2c1_setup_ops(),
{
    let i2c_cr1_addr: u32 = I2C1_BASE + I2C_CR1_OFFSET;
    let i2c_cr2_addr: u32 = I2C1_BASE + I2C_CR2_OFFSET;
    let i2c_ccr_addr: u32 = I2C1_BASE + I2C_CCR_OFFSET;
    let i2c_trise_addr: u32 = I2C1_BASE + I2C_TRISE_OFFSET;
    let i2c_oar1_addr: u32 = I2C1_BASE + I2C_OAR1_OFFSET;
    let mut ops: Vec<RegOp> = Vec::new();
    ops.push(RegOp::SetBit { addr: i2c_cr1_addr, bit: I2C_CR1_PE, on: false });
    ops.push(RegOp::SetBits { addr: i2c_cr2_addr, value: 42, position: 0, width: 6 });
    ops.push(RegOp::SetVal { addr: i2c_ccr_addr, value: 210 });
    ops.push(RegOp::SetVal { addr: i2c_trise_addr, value: 43 });
    ops.push(RegOp::SetVal { addr: i2c_oar1_addr, value: 0x00 });
    ops.push(RegOp::SetBit { addr: i2c_cr1_addr, bit: I2C_CR1_PE, on: true });
    assert(ops@ =~= i2c1_setup_ops());
    ops
}

/// A start condition: ask for it, then wait until it was sent; a wait that
/// fails is a `Timeout`.
pub open spec fn start_steps() -> Seq<I2cStep> {
    seq![
        I2cStep::Reg(RegOp::SetBit { addr: 0x4000_5400, bit: 8, on: true }),
        I2cStep::Await { addr: 0x4000_5414, bit: 0, tries: 100000, error: I2CError::Timeout },
    ]
}

/// The access that asks for a stop condition.
pub open spec fn stop_op() -> RegOp {
    RegOp::SetBit { addr: 0x4000_5400, bit: 9, on: true }
}

/// The byte that addresses a device: its seven-bit address in the high
/// bits, and the low bit set for a read.
pub open spec fn address_byte(address: u8, read: bool) -> u8 {
    (address << 1) | (if read { 1u8 } else { 0u8 })
}

/// Addressing a device: write the address byte to the data register, wait
/// until the device has acknowledged it (else `AddressNack`), then read
/// both status registers, which clears the flag.
pub open spec fn send_address_steps(address: u8, read: bool) -> Seq<I2cStep> {
    seq![
        I2cStep::Reg(RegOp::SetVal { addr: 0x4000_5410, value: address_byte(address, read) as u32 }),
        I2cStep::Await { addr: 0x4000_5414, bit: 1, tries: 100000, error: I2CError::AddressNack },
        I2cStep::Reg(RegOp::GetVal { addr: 0x4000_5414 }),
        I2cStep::Reg(RegOp::GetVal { addr: 0x4000_5418 }),
    ]
}

/// Sending a byte: wait until the data register is empty (else `Timeout`),
/// write the byte, wait until it has gone out (else `DataNack`).
pub open spec fn send_data_steps(data: u8) -> Seq<I2cStep> {
    seq![
        I2cStep::Await { addr: 0x4000_5414, bit: 7, tries: 100000, error: I2CError::Timeout },
        I2cStep::Reg(RegOp::SetVal { addr: 0x4000_5410, value: data as u32 }),
        I2cStep::Await { addr: 0x4000_5414, bit: 2, tries: 100000, error: I2CError::DataNack },
    ]
}

/// Receiving a byte: say whether it is to be acknowledged, wait until it
/// has come in (else `Timeout`), read the data register.
pub open spec fn receive_data_steps(ack: bool) -> Seq<I2cStep> {
    seq![
        I2cStep::Reg(RegOp::SetBit { addr: 0x4000_5400, bit: 10, on: ack }),
        I2cStep::Await { addr: 0x4000_5414, bit: 6, tries: 100000, error: I2CError::Timeout },
        I2cStep::Reg(RegOp::GetVal { addr: 0x4000_5410 }),
    ]
}

/// Writing a register of a device: start, address the device for a write,
/// send the register's number, send the value, stop.
pub open spec fn write_register_steps(device_addr: u8, reg_addr: u8, data: u8) -> Seq<I2cStep> {
    start_steps() + send_address_steps(device_addr, false) + send_data_steps(reg_addr)
        + send_data_steps(data) + seq![I2cStep::Reg(stop_op())]
}

/// Reading a register of a device: start, address the device for a write,
/// send the register's number; start again, address the device for a read,
/// receive one byte without acknowledging it, stop. The byte is in the
/// last value that the script reads.
pub open spec fn read_register_steps(device_addr: u8, reg_addr: u8) -> Seq<I2cStep> {
    start_steps() + send_address_steps(device_addr, false) + send_data_steps(reg_addr)
        + start_steps() + send_address_steps(device_addr, true) + receive_data_steps(false) + seq![
        I2cStep::Reg(stop_op()),
    ]
}

pub fn i2c_start() -> (steps: Vec<I2cStep>)
    ensures
        steps@ == start_steps(),
{
    let i2c_cr1_addr: u32 = I2C1_BASE + I2C_CR1_OFFSET;
    let i2c_sr1_addr: u32 = I2C1_BASE + I2C_SR1_OFFSET;
    let mut steps: Vec<I2cStep> = Vec::new();
    steps.push(I2cStep::Reg(RegOp::SetBit { addr: i2c_cr1_addr, bit: I2C_CR1_START, on: true }));
    steps.push(
        I2cStep::Await { addr: i2c_sr1_addr, bit: I2C_SR1_SB, tries: I2C_TRIES, error: I2CError::Timeout },
    );
    assert(steps@ =~= start_steps());
    steps
}

pub fn i2c_stop() -> (op: RegOp)
    ensures
        op == stop_op(),
{
    let i2c_cr1_addr: u32 = I2C1_BASE + I2C_CR1_OFFSET;
    RegOp::SetBit { addr: i2c_cr1_addr, bit: I2C_CR1_STOP, on: true }
}

pub fn i2c_send_address(address: u8, read: bool) -> (steps: Vec<I2cStep>)
    ensures
        steps@ == send_address_steps(address, read),
{
    let i2c_dr_addr: u32 = I2C1_BASE + I2C_DR_OFFSET;
    let i2c_sr1_addr: u32 = I2C1_BASE + I2C_SR1_OFFSET;
    let i2c_sr2_addr: u32 = I2C1_BASE + I2C_SR2_OFFSET;
    let addr_with_rw: u8 = (address << 1) | if read { 1u8 } else { 0u8 };
    let mut steps: Vec<I2cStep> = Vec::new();
    steps.push(I2cStep::Reg(RegOp::SetVal { addr: i2c_dr_addr, value: addr_with_rw as u32 }));
    steps.push(
        I2cStep::Await {
            addr: i2c_sr1_addr,
            bit: I2C_SR1_ADDR,
            tries: I2C_TRIES,
            error: I2CError::AddressNack,
        },
    );
    steps.push(I2cStep::Reg(RegOp::GetVal { addr: i2c_sr1_addr }));
    steps.push(I2cStep::Reg(RegOp::GetVal { addr: i2c_sr2_addr }));
    assert(steps@ =~= send_address_steps(address, read));
    steps
}

pub fn i2c_send_data(data: u8) -> (steps: Vec<I2cStep>)
    ensures
        steps@ == send_data_steps(data),
{
    let i2c_dr_addr: u32 = I2C1_BASE + I2C_DR_OFFSET;
    let i2c_sr1_addr: u32 = I2C1_BASE + I2C_SR1_OFFSET;
    let mut steps: Vec<I2cStep> = Vec::new();
    steps.push(
        I2cStep::Await { addr: i2c_sr1_addr, bit: I2C_SR1_TXE, tries: I2C_TRIES, error: I2CError::Timeout },
    );
    steps.push(I2cStep::Reg(RegOp::SetVal { addr: i2c_dr_addr, value: data as u32 }));
    steps.push(
        I2cStep::Await { addr: i2c_sr1_addr, bit: I2C_SR1_BTF, tries: I2C_TRIES, error: I2CError::DataNack },
    );
    assert(steps@ =~= send_data_steps(data));
    steps
}

pub fn i2c_receive_data(ack: bool) -> (steps: Vec<I2cStep>)
    ensures
        steps@ == receive_data_steps(ack),
{
    let i2c_dr_addr: u32 = I2C1_BASE + I2C_DR_OFFSET;
    let i2c_sr1_addr: u32 = I2C1_BASE + I2C_SR1_OFFSET;
    let i2c_cr1_addr: u32 = I2C1_BASE + I2C_CR1_OFFSET;
    let mut steps: Vec<I2cStep> = Vec::new();
    steps.push(I2cStep::Reg(RegOp::SetBit { addr: i2c_cr1_addr, bit: I2C_CR1_ACK, on: ack }));
    steps.push(
        I2cStep::Await { addr: i2c_sr1_addr, bit: I2C_SR1_RXNE, tries: I2C_TRIES, error: I2CError::Timeout },
    );
    steps.push(I2cStep::Reg(RegOp::GetVal { addr: i2c_dr_addr }));
    assert(steps@ =~= receive_data_steps(ack));
    steps
}

pub fn i2c_write_register(device_addr: u8, reg_addr: u8, data: u8) -> (steps: Vec<I2cStep>)
    ensures
        steps@ == write_register_steps(device_addr, reg_addr, data),
{
    let mut steps = i2c_start();
    append_steps(&mut steps, i2c_send_address(device_addr, false));
    append_steps(&mut steps, i2c_send_data(reg_addr));
    append_steps(&mut steps, i2c_send_data(data));
    steps.push(I2cStep::Reg(i2c_stop()));
    assert(steps@ =~= write_register_steps(device_addr, reg_addr, data));
    steps
}

pub fn i2c_read_register(device_addr: u8, reg_addr: u8) -> (steps: Vec<I2cStep>)
    ensures
        steps@ == read_register_steps(device_addr, reg_addr),
{
    let mut steps = i2c_start();
    append_steps(&mut steps, i2c_send_address(device_addr, false));
    append_steps(&mut steps, i2c_send_data(reg_addr));
    append_steps(&mut steps, i2c_start());
    append_steps(&mut steps, i2c_send_address(device_addr, true));
    append_steps(&mut steps, i2c_receive_data(false));
    steps.push(I2cStep::Reg(i2c_stop()));
    assert(steps@ =~= read_register_steps(device_addr, reg_addr));
    steps
}

} // verus!
