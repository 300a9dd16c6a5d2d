use f429_disco::board::{GREEN_LED_PIN, GREEN_LED_PORT, MPU6050_INT_PIN, USER_BTN_PORT};
use f429_disco::gpio::{
    enable_gpio_clock, get_gpio_pin_state, set_gpio_alternate_function, set_gpio_mode_alternate_function,
    set_gpio_mode_input, set_gpio_mode_output, set_gpio_output_type_open_drain,
    set_gpio_output_type_push_pull, set_gpio_pin_state, set_gpio_pull_up, set_gpio_speed_high, PinState,
};
use f429_disco::i2c::{
    i2c_init, i2c_read_register, i2c_receive_data, i2c_send_address, i2c_send_data, i2c_start, i2c_stop,
    i2c_write_register, poll, received_byte, I2CError, I2cStep, Poll,
};
use f429_disco::mcu::{GPIOA_BASE, GPIOB_BASE, GPIOC_BASE, GPIOG_BASE};
use f429_disco::reg::{reg_read_bit, reg_set_bit, reg_set_bits, RegOp};

#[test]
fn bits_are_set_and_cleared() {
    assert_eq!(reg_set_bit(0, 0, true), 1);
    assert_eq!(reg_set_bit(0, 31, true), 0x8000_0000);
    assert_eq!(reg_set_bit(0xFFFF_FFFF, 4, false), 0xFFFF_FFEF);
    assert_eq!(reg_set_bit(0x10, 4, true), 0x10);
    assert_eq!(reg_set_bit(0, 4, false), 0);
    assert!(reg_read_bit(0x8000_0000, 31));
    assert!(!reg_read_bit(0x7FFF_FFFF, 31));
    assert!(reg_read_bit(1, 0));
    assert!(!reg_read_bit(2, 0));
}

#[test]
fn fields_are_replaced() {
    assert_eq!(reg_set_bits(0, 0x1, 26, 2), 0x0400_0000);
    assert_eq!(reg_set_bits(0xFFFF_FFFF, 0x1, 26, 2), 0xF7FF_FFFF);
    assert_eq!(reg_set_bits(0xFFFF_FFFF, 0, 0, 32), 0);
    assert_eq!(reg_set_bits(0, 0xFFFF_FFFF, 0, 32), 0xFFFF_FFFF);
    assert_eq!(reg_set_bits(0x1234_5678, 0xFF, 4, 4), 0x1234_56F8);
    assert_eq!(reg_set_bits(0x1234_5678, 0xABCD, 8, 0), 0x1234_5678);
    assert_eq!(reg_set_bits(0, 0xF, 30, 4), 0xC000_0000);
}

#[test]
fn accesses_are_applied() {
    let op = RegOp::SetBits { addr: 0x4002_1800, value: 2, position: 4, width: 2 };
    assert_eq!(op.addr(), 0x4002_1800);
    assert!(op.is_in_range());
    assert_eq!(op.apply(0xFFFF_FFFF), 0xFFFF_FFEF);
    assert_eq!(RegOp::SetBit { addr: 8, bit: 3, on: true }.apply(0), 8);
    assert_eq!(RegOp::SetVal { addr: 8, value: 77 }.apply(5), 77);
    assert_eq!(RegOp::GetVal { addr: 8 }.apply(5), 5);
    assert_eq!(RegOp::ReadBit { addr: 12, bit: 3 }.apply(5), 5);
    assert_eq!(RegOp::ReadBit { addr: 12, bit: 3 }.addr(), 12);
    assert!(!RegOp::SetBit { addr: 8, bit: 32, on: true }.is_in_range());
    assert!(!RegOp::SetBits { addr: 8, value: 0, position: 32, width: 1 }.is_in_range());
    assert!(!RegOp::SetBits { addr: 8, value: 0, position: 0, width: 33 }.is_in_range());
    assert!(!RegOp::ReadBit { addr: 8, bit: 40 }.is_in_range());
}

#[test]
fn port_clocks() {
    let enable = |bit| Some(RegOp::SetBit { addr: 0x4002_3830, bit, on: true });
    assert_eq!(enable_gpio_clock(GPIOA_BASE), enable(0));
    assert_eq!(enable_gpio_clock(GPIOB_BASE), enable(1));
    assert_eq!(enable_gpio_clock(GPIOC_BASE), enable(2));
    assert_eq!(enable_gpio_clock(GPIOG_BASE), enable(6));
    assert_eq!(enable_gpio_clock(0x4002_0C00), None);
    assert_eq!(enable_gpio_clock(0), None);
    assert_eq!(enable_gpio_clock(USER_BTN_PORT), enable(0));
}

#[test]
fn pin_settings() {
    let p = GREEN_LED_PORT;
    assert_eq!(
        set_gpio_mode_output(p, GREEN_LED_PIN),
        RegOp::SetBits { addr: 0x4002_1800, value: 1, position: 26, width: 2 }
    );
    assert_eq!(set_gpio_mode_input(p, 0), RegOp::SetBits { addr: 0x4002_1800, value: 0, position: 0, width: 2 });
    assert_eq!(
        set_gpio_mode_input(GPIOC_BASE, MPU6050_INT_PIN),
        RegOp::SetBits { addr: 0x4002_0800, value: 0, position: 26, width: 2 }
    );
    assert_eq!(
        set_gpio_output_type_push_pull(p, 13),
        RegOp::SetBits { addr: 0x4002_1804, value: 0, position: 13, width: 1 }
    );
    assert_eq!(
        set_gpio_mode_alternate_function(GPIOB_BASE, 9),
        RegOp::SetBits { addr: 0x4002_0400, value: 2, position: 18, width: 2 }
    );
    assert_eq!(
        set_gpio_alternate_function(GPIOB_BASE, 7, 4),
        RegOp::SetBits { addr: 0x4002_0420, value: 4, position: 28, width: 4 }
    );
    assert_eq!(
        set_gpio_alternate_function(GPIOB_BASE, 8, 4),
        RegOp::SetBits { addr: 0x4002_0424, value: 4, position: 0, width: 4 }
    );
    assert_eq!(
        set_gpio_alternate_function(GPIOB_BASE, 15, 5),
        RegOp::SetBits { addr: 0x4002_0424, value: 5, position: 28, width: 4 }
    );
    assert_eq!(
        set_gpio_output_type_open_drain(GPIOB_BASE, 8),
        RegOp::SetBit { addr: 0x4002_0404, bit: 8, on: true }
    );
    assert_eq!(
        set_gpio_pull_up(GPIOB_BASE, 8),
        RegOp::SetBits { addr: 0x4002_040C, value: 1, position: 16, width: 2 }
    );
    assert_eq!(
        set_gpio_speed_high(GPIOB_BASE, 9),
        RegOp::SetBits { addr: 0x4002_0408, value: 2, position: 18, width: 2 }
    );
    assert_eq!(get_gpio_pin_state(GPIOA_BASE, 0), RegOp::ReadBit { addr: 0x4002_0010, bit: 0 });
}

#[test]
fn pin_levels() {
    let p = GPIOG_BASE;
    assert_eq!(set_gpio_pin_state(p, 13, PinState::High, 0), RegOp::SetVal { addr: 0x4002_1818, value: 1 << 13 });
    assert_eq!(set_gpio_pin_state(p, 13, PinState::Low, 0), RegOp::SetVal { addr: 0x4002_1818, value: 1 << 29 });
    assert_eq!(
        set_gpio_pin_state(p, 13, PinState::High, 0xFFFF_FFFF),
        RegOp::SetVal { addr: 0x4002_1818, value: 1 << 13 }
    );
    assert_eq!(
        set_gpio_pin_state(p, 13, PinState::Toggle, 1 << 13),
        RegOp::SetVal { addr: 0x4002_1818, value: 1 << 29 }
    );
    assert_eq!(
        set_gpio_pin_state(p, 13, PinState::Toggle, !(1u32 << 13)),
        RegOp::SetVal { addr: 0x4002_1818, value: 1 << 13 }
    );
    assert_eq!(set_gpio_pin_state(p, 15, PinState::Low, 0), RegOp::SetVal { addr: 0x4002_1818, value: 1 << 31 });
    assert_eq!(set_gpio_pin_state(p, 0, PinState::Toggle, 0), RegOp::SetVal { addr: 0x4002_1818, value: 1 });
}

#[test]
fn waits_count_their_tries_down() {
    assert_eq!(poll(100000, true), Poll::Ready);
    assert_eq!(poll(1, true), Poll::Ready);
    assert_eq!(poll(100000, false), Poll::Retry(99999));
    assert_eq!(poll(2, false), Poll::Retry(1));
    assert_eq!(poll(1, false), Poll::GiveUp);
    // a flag that never comes is read as often as there are tries
    let mut left = 100000;
    let mut reads = 0;
    loop {
        reads += 1;
        match poll(left, false) {
            Poll::Retry(n) => left = n,
            Poll::GiveUp => break,
            Poll::Ready => unreachable!(),
        }
    }
    assert_eq!(reads, 100000);
}

#[test]
fn data_register_carries_one_byte() {
    assert_eq!(received_byte(0), 0);
    assert_eq!(received_byte(0x68), 0x68);
    assert_eq!(received_byte(0x1FF), 0xFF);
    assert_eq!(received_byte(0xFFFF_FF00), 0);
}

fn wait(bit: u32, error: I2CError) -> I2cStep {
    I2cStep::Await { addr: 0x4000_5414, bit, tries: 100000, error }
}

fn start() -> Vec<I2cStep> {
    vec![I2cStep::Reg(RegOp::SetBit { addr: 0x4000_5400, bit: 8, on: true }), wait(0, I2CError::Timeout)]
}

fn address(byte: u32) -> Vec<I2cStep> {
    vec![
        I2cStep::Reg(RegOp::SetVal { addr: 0x4000_5410, value: byte }),
        wait(1, I2CError::AddressNack),
        I2cStep::Reg(RegOp::GetVal { addr: 0x4000_5414 }),
        I2cStep::Reg(RegOp::GetVal { addr: 0x4000_5418 }),
    ]
}

fn data(byte: u32) -> Vec<I2cStep> {
    vec![
        wait(7, I2CError::Timeout),
        I2cStep::Reg(RegOp::SetVal { addr: 0x4000_5410, value: byte }),
        wait(2, I2CError::DataNack),
    ]
}

#[test]
fn bus_operations() {
    assert_eq!(i2c_start(), start());
    assert_eq!(i2c_stop(), RegOp::SetBit { addr: 0x4000_5400, bit: 9, on: true });
    assert_eq!(i2c_send_address(0x68, false), address(0xD0));
    assert_eq!(i2c_send_address(0x68, true), address(0xD1));
    assert_eq!(i2c_send_address(0xFF, true), address(0xFF));
    assert_eq!(i2c_send_address(0x80, false), address(0x00));
    assert_eq!(i2c_send_data(0x6B), data(0x6B));
    assert_eq!(
        i2c_receive_data(true),
        vec![
            I2cStep::Reg(RegOp::SetBit { addr: 0x4000_5400, bit: 10, on: true }),
            wait(6, I2CError::Timeout),
            I2cStep::Reg(RegOp::GetVal { addr: 0x4000_5410 }),
        ]
    );
}

#[test]
fn register_transfers() {
    let stop = I2cStep::Reg(RegOp::SetBit { addr: 0x4000_5400, bit: 9, on: true });
    let mut write = start();
    write.extend(address(0xD0));
    write.extend(data(0x6B));
    write.extend(data(0x80));
    write.push(stop);
    assert_eq!(i2c_write_register(0x68, 0x6B, 0x80), write);

    let mut read = start();
    read.extend(address(0xD0));
    read.extend(data(0x75));
    read.extend(start());
    read.extend(address(0xD1));
    read.push(I2cStep::Reg(RegOp::SetBit { addr: 0x4000_5400, bit: 10, on: false }));
    read.push(wait(6, I2CError::Timeout));
    read.push(I2cStep::Reg(RegOp::GetVal { addr: 0x4000_5410 }));
    read.push(stop);
    assert_eq!(i2c_read_register(0x68, 0x75), read);
}

#[test]
fn bus_bring_up() {
    let ops = i2c_init();
    assert_eq!(ops.len(), 20);
    assert_eq!(ops[0], RegOp::SetBit { addr: 0x4002_3840, bit: 21, on: true });
    assert_eq!(ops[1], RegOp::SetBit { addr: 0x4002_3830, bit: 1, on: true });
    assert_eq!(ops[2], RegOp::SetBits { addr: 0x4002_0400, value: 2, position: 16, width: 2 });
    assert_eq!(ops[5], RegOp::SetBits { addr: 0x4002_0424, value: 4, position: 4, width: 4 });
    assert_eq!(ops[11], RegOp::SetBits { addr: 0x4002_0408, value: 2, position: 18, width: 2 });
    assert_eq!(ops[12], RegOp::SetBit { addr: 0x4002_3820, bit: 21, on: true });
    assert_eq!(ops[13], RegOp::SetBit { addr: 0x4002_3820, bit: 21, on: false });
    assert_eq!(ops[14], RegOp::SetBit { addr: 0x4000_5400, bit: 0, on: false });
    assert_eq!(ops[15], RegOp::SetBits { addr: 0x4000_5404, value: 42, position: 0, width: 6 });
    assert_eq!(ops[16], RegOp::SetVal { addr: 0x4000_541C, value: 210 });
    assert_eq!(ops[17], RegOp::SetVal { addr: 0x4000_5420, value: 43 });
    assert_eq!(ops[18], RegOp::SetVal { addr: 0x4000_5408, value: 0 });
    assert_eq!(ops[19], RegOp::SetBit { addr: 0x4000_5400, bit: 0, on: true });
    assert!(ops.iter().all(|op| op.is_in_range()));
}
