use f429_disco::bus::{check_script, BusAction, Transfer};
use f429_disco::i2c::{i2c_read_register, i2c_write_register, I2CError, I2cStep};
use f429_disco::reg::RegOp;
use std::collections::HashMap;

struct FakeBus {
    registers: HashMap<u32, u32>,
    reads: Vec<u32>,
    writes: Vec<(u32, u32)>,
}

impl FakeBus {
    fn new(registers: &[(u32, u32)]) -> Self {
        FakeBus { registers: registers.iter().copied().collect(), reads: Vec::new(), writes: Vec::new() }
    }

    fn run(&mut self, script: Vec<I2cStep>) -> (Result<u32, I2CError>, usize) {
        let mut transfer = Transfer::new(script).unwrap();
        let mut response = 0xDEAD_BEEF;
        let mut calls = 0;
        loop {
            calls += 1;
            match transfer.advance(response) {
                BusAction::Read { addr } => {
                    self.reads.push(addr);
                    response = *self.registers.get(&addr).unwrap_or(&0);
                }
                BusAction::Write { addr, value } => {
                    self.writes.push((addr, value));
                    self.registers.insert(addr, value);
                    response = 0xDEAD_BEEF;
                }
                BusAction::Finished { last } => {
                    assert_eq!(transfer.advance(7), BusAction::Finished { last });
                    return (Ok(last), calls);
                }
                BusAction::Failed { error } => {
                    assert_eq!(transfer.advance(7), BusAction::Failed { error });
                    return (Err(error), calls);
                }
            }
        }
    }
}

const CR1: u32 = 0x4000_5400;
const DR: u32 = 0x4000_5410;
const SR1: u32 = 0x4000_5414;
const SR2: u32 = 0x4000_5418;

#[test]
fn an_empty_script_is_over_at_once() {
    let mut bus = FakeBus::new(&[]);
    assert_eq!(bus.run(Vec::new()), (Ok(0), 1));
    assert!(bus.reads.is_empty() && bus.writes.is_empty());
}

#[test]
fn a_change_of_bits_reads_then_writes() {
    let mut bus = FakeBus::new(&[(0x100, 0xFFFF_FFFF), (0x200, 0)]);
    let script = vec![
        I2cStep::Reg(RegOp::SetBits { addr: 0x100, value: 1, position: 26, width: 2 }),
        I2cStep::Reg(RegOp::SetBit { addr: 0x200, bit: 3, on: true }),
        I2cStep::Reg(RegOp::SetVal { addr: 0x300, value: 9 }),
    ];
    assert_eq!(bus.run(script), (Ok(0), 6));
    assert_eq!(bus.reads, vec![0x100, 0x200]);
    assert_eq!(bus.writes, vec![(0x100, 0xF7FF_FFFF), (0x200, 8), (0x300, 9)]);
}

#[test]
fn the_last_fetch_is_the_result() {
    let mut bus = FakeBus::new(&[(0x100, 11), (0x200, 22), (0x300, 0x10)]);
    let script = vec![
        I2cStep::Reg(RegOp::GetVal { addr: 0x100 }),
        I2cStep::Reg(RegOp::GetVal { addr: 0x200 }),
        I2cStep::Reg(RegOp::SetVal { addr: 0x400, value: 1 }),
    ];
    assert_eq!(bus.run(script), (Ok(22), 4));
    let mut bus = FakeBus::new(&[(0x300, 0x10)]);
    assert_eq!(bus.run(vec![I2cStep::Reg(RegOp::ReadBit { addr: 0x300, bit: 4 })]), (Ok(1), 2));
    assert_eq!(bus.run(vec![I2cStep::Reg(RegOp::ReadBit { addr: 0x300, bit: 3 })]), (Ok(0), 2));
}

#[test]
fn a_register_is_written_when_the_bus_answers() {
    let mut bus = FakeBus::new(&[(SR1, 0xFFFF_FFFF)]);
    let (r, _) = bus.run(i2c_write_register(0x68, 0x6B, 0x80));
    assert_eq!(r, Ok(0));
    assert_eq!(
        bus.writes,
        vec![(CR1, 1 << 8), (DR, 0xD0), (DR, 0x6B), (DR, 0x80), (CR1, (1 << 8) | (1 << 9))]
    );
    assert_eq!(bus.reads, vec![CR1, SR1, SR1, SR1, SR2, SR1, SR1, SR1, SR1, CR1]);
}

#[test]
fn a_register_is_read_when_the_bus_answers() {
    let mut bus = FakeBus::new(&[(SR1, 0xFFFF_FFFF), (CR1, 1 << 10)]);
    // this bus, as the real one, does not read back what was written to the data register
    let mut transfer = Transfer::new(i2c_read_register(0x68, 0x75)).unwrap();
    let mut response = 0;
    let mut last_write_to_cr1 = 0;
    let result = loop {
        match transfer.advance(response) {
            BusAction::Read { addr } => {
                response = if addr == DR { 0x1234_5668 } else { *bus.registers.get(&addr).unwrap_or(&0) }
            }
            BusAction::Write { addr, value } => {
                if addr == CR1 {
                    last_write_to_cr1 = value;
                    bus.registers.insert(addr, value);
                }
            }
            BusAction::Finished { last } => break Ok(last),
            BusAction::Failed { error } => break Err(error),
        }
    };
    assert_eq!(result, Ok(0x1234_5668));
    assert_eq!(f429_disco::i2c::received_byte(result.unwrap()), 0x68);
    // start and stop are set, acknowledge is cleared
    assert_eq!(last_write_to_cr1, (1 << 8) | (1 << 9));
}

#[test]
fn a_silent_bus_times_out_at_the_start() {
    let mut bus = FakeBus::new(&[]);
    let (r, calls) = bus.run(i2c_write_register(0x68, 0x6B, 0x80));
    assert_eq!(r, Err(I2CError::Timeout));
    assert_eq!(bus.writes, vec![(CR1, 1 << 8)]);
    assert_eq!(bus.reads.len(), 1 + 100000);
    // the read and the write of the start bit, the reads of the flag, and the end
    assert_eq!(calls, 2 + 100000 + 1);
}

#[test]
fn a_device_that_does_not_answer_is_an_address_nack() {
    // the start bit comes, the address flag never does
    let mut bus = FakeBus::new(&[(SR1, 1)]);
    let (r, _) = bus.run(i2c_read_register(0x68, 0x75));
    assert_eq!(r, Err(I2CError::AddressNack));
    assert_eq!(bus.writes, vec![(CR1, 1 << 8), (DR, 0xD0)]);
}

#[test]
fn a_byte_that_does_not_go_out_is_a_data_nack() {
    // start, address and empty data register, but the transfer never finishes
    let mut bus = FakeBus::new(&[(SR1, 0b1000_0011)]);
    let (r, _) = bus.run(i2c_write_register(0x68, 0x6B, 0x80));
    assert_eq!(r, Err(I2CError::DataNack));
    assert_eq!(bus.writes, vec![(CR1, 1 << 8), (DR, 0xD0), (DR, 0x6B)]);
}

#[test]
fn a_flag_that_comes_late_is_waited_for() {
    let script = vec![I2cStep::Await { addr: 0x10, bit: 2, tries: 3, error: I2CError::DataNack }];
    let mut transfer = Transfer::new(script.clone()).unwrap();
    assert_eq!(transfer.advance(0), BusAction::Read { addr: 0x10 });
    assert_eq!(transfer.advance(0), BusAction::Read { addr: 0x10 });
    assert_eq!(transfer.advance(0xFB), BusAction::Read { addr: 0x10 });
    assert_eq!(transfer.advance(4), BusAction::Finished { last: 0 });
    let mut transfer = Transfer::new(script).unwrap();
    assert_eq!(transfer.advance(0), BusAction::Read { addr: 0x10 });
    assert_eq!(transfer.advance(0), BusAction::Read { addr: 0x10 });
    assert_eq!(transfer.advance(0), BusAction::Read { addr: 0x10 });
    assert_eq!(transfer.advance(0), BusAction::Failed { error: I2CError::DataNack });
    assert_eq!(transfer.advance(4), BusAction::Failed { error: I2CError::DataNack });
}

#[test]
fn scripts_that_cannot_run_are_refused() {
    assert!(check_script(&i2c_read_register(0x68, 0x75)));
    assert!(check_script(&Vec::new()));
    let bad = vec![
        vec![I2cStep::Reg(RegOp::SetBit { addr: 0, bit: 32, on: true })],
        vec![I2cStep::Reg(RegOp::SetBits { addr: 0, value: 0, position: 32, width: 1 })],
        vec![I2cStep::Reg(RegOp::ReadBit { addr: 0, bit: 99 })],
        vec![I2cStep::Await { addr: 0, bit: 32, tries: 1, error: I2CError::Timeout }],
        vec![I2cStep::Await { addr: 0, bit: 0, tries: 0, error: I2CError::Timeout }],
        vec![
            I2cStep::Reg(RegOp::GetVal { addr: 0 }),
            I2cStep::Await { addr: 0, bit: 0, tries: 0, error: I2CError::Timeout },
        ],
    ];
    for script in bad {
        assert!(!check_script(&script));
        assert!(Transfer::new(script).is_none());
    }
}

#[test]
fn register_transfers_need_no_check() {
    let mut ready = Transfer::for_write_register(0x68, 0x6B, 0x80);
    let mut checked = Transfer::new(i2c_write_register(0x68, 0x6B, 0x80)).unwrap();
    let mut response = 0;
    for turn in 0..40u32 {
        let a = ready.advance(response);
        assert_eq!(a, checked.advance(response), "turn {turn}");
        response = 0xFFFF_FFFF;
    }
    assert_eq!(ready.advance(0), BusAction::Finished { last: 0xFFFF_FFFF });
    let mut ready = Transfer::for_read_register(0x68, 0x75);
    let mut checked = Transfer::new(i2c_read_register(0x68, 0x75)).unwrap();
    for turn in 0..40u32 {
        assert_eq!(ready.advance(0x55AA_55AA), checked.advance(0x55AA_55AA), "turn {turn}");
    }
}
