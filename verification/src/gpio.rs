//! The GPIO driver: for each setting of a pin, the register access that
//! makes it.

use vstd::prelude::*;
use crate::mcu::{GPIOA_BASE, GPIOB_BASE, GPIOC_BASE, GPIOG_BASE, RCC_BASE};
use crate::reg::{bit_of, reg_read_bit, RegOp};

verus! {

/// Offset of the clock enable register for the GPIO ports, from `RCC_BASE`.
pub const RCC_AHB1ENR_OFFSET: u32 = 0x30;

/// Offsets of a port's registers, from the port's base address.
pub const GPIO_MODER_OFFSET: u32 = 0x00;

pub const GPIO_OTYPER_OFFSET: u32 = 0x04;

pub const GPIO_OSPEEDR_OFFSET: u32 = 0x08;

pub const GPIO_PUPDR_OFFSET: u32 = 0x0C;

pub const GPIO_IDR_OFFSET: u32 = 0x10;

pub const GPIO_ODR_OFFSET: u32 = 0x14;

pub const GPIO_BSRR_OFFSET: u32 = 0x18;

pub const GPIO_AFRL_OFFSET: u32 = 0x20;

pub const GPIO_AFRH_OFFSET: u32 = 0x24;

/// The bit of the clock enable register that stands for a port, for the
/// ports that the board uses.
pub open spec fn clock_bit(port: u32) -> Option<u32> {
    if port == GPIOA_BASE {
        Some(0u32)
    } else if port == GPIOB_BASE {
        Some(1u32)
    } else if port == GPIOC_BASE {
        Some(2u32)
    } else if port == GPIOG_BASE {
        Some(6u32)
    } else {
        None
    }
}

/// Turns on the clock of a port: sets the port's bit in the clock enable
/// register. For a port that the board does not use there is nothing to do.
pub fn enable_gpio_clock(port: u32) -> (op: Option<RegOp>)
    ensures
        op == match clock_bit(port) {
            Some(bit) => Some(RegOp::SetBit { addr: (RCC_BASE + 0x30) as u32, bit, on: true }),
            None => None,
        },
{
    let rcc_ahb1enr_addr: u32 = RCC_BASE + RCC_AHB1ENR_OFFSET;
    if port == GPIOA_BASE {
        Some(RegOp::SetBit { addr: rcc_ahb1enr_addr, bit: 0, on: true })
    } else if port == GPIOB_BASE {
        Some(RegOp::SetBit { addr: rcc_ahb1enr_addr, bit: 1, on: true })
    } else if port == GPIOC_BASE {
        Some(RegOp::SetBit { addr: rcc_ahb1enr_addr, bit: 2, on: true })
    } else if port == GPIOG_BASE {
        Some(RegOp::SetBit { addr: rcc_ahb1enr_addr, bit: 6, on: true })
    } else {
        None
    }
}

/// Makes a pin an output: mode `01` in the pin's two bits of the mode
/// register.
pub fn set_gpio_mode_output(port: u32, pin: u32) -> (op: RegOp)
    requires
        pin * 2 <= u32::MAX,
    ensures
        op == (RegOp::SetBits { addr: port, value: 0x1, position: (pin * 2) as u32, width: 2 }),
{
    RegOp::SetBits { addr: port + GPIO_MODER_OFFSET, value: 0x1, position: pin * 2, width: 2 }
}

/// Makes a pin an input: mode `00`.
pub fn set_gpio_mode_input(port: u32, pin: u32) -> (op: RegOp)
    requires
        pin * 2 <= u32::MAX,
    ensures
        op == (RegOp::SetBits { addr: port, value: 0, position: (pin * 2) as u32, width: 2 }),
{
    RegOp::SetBits { addr: port + GPIO_MODER_OFFSET, value: 0, position: pin * 2, width: 2 }
}

/// Makes a pin's output push-pull: clears the pin's bit of the output type
/// register.
pub fn set_gpio_output_type_push_pull(port: u32, pin: u32) -> (op: RegOp)
    requires
        port + 0x04 <= u32::MAX,
    ensures
        op == (RegOp::SetBits { addr: (port + 0x04) as u32, value: 0, position: pin, width: 1 }),
{
    RegOp::SetBits { addr: port + GPIO_OTYPER_OFFSET, value: 0, position: pin, width: 1 }
}

/// The level to drive a pin to.
#[derive(Copy, Clone, Debug, PartialEq, Eq, Structural)]
pub enum PinState {
    /// Logic 1.
    High,
    /// Logic 0.
    Low,
    /// The opposite of the level that the pin is driven to now.
    Toggle,
}

/// The word that, written to the set/reset register, drives a pin to a
/// level: the pin's bit in the low half to set it, in the high half to
/// reset it. `output_data` is what the output data register holds; a
/// toggle resets a pin that is set there and sets one that is not.
pub open spec fn set_reset_word(pin: u32, pin_state: PinState, output_data: u32) -> u32 {
    match pin_state {
        PinState::High => 1u32 << pin,
        PinState::Low => 1u32 << ((pin + 16) as u32),
        PinState::Toggle => if bit_of(output_data, pin) {
            1u32 << ((pin + 16) as u32)
        } else {
            1u32 << pin
        },
    }
}

/// Drives a pin to a level by a write to the port's set/reset register.
/// `output_data` is the value of the port's output data register, at
/// `GPIO_ODR_OFFSET`; only a toggle looks at it.
pub fn set_gpio_pin_state(port: u32, pin: u32, pin_state: PinState, output_data: u32) -> (op: RegOp)
    requires
        port + 0x18 <= u32::MAX,
        pin < 16,
    ensures
        op == (RegOp::SetVal {
            addr: (port + 0x18) as u32,
            value: set_reset_word(pin, pin_state, output_data),
        }),
{
    let gpio_bsrr_addr: u32 = port + GPIO_BSRR_OFFSET;
    match pin_state {
        PinState::High => RegOp::SetVal { addr: gpio_bsrr_addr, value: 1u32 << pin },
        PinState::Low => RegOp::SetVal { addr: gpio_bsrr_addr, value: 1u32 << (pin + 16) },
        PinState::Toggle => {
            if reg_read_bit(output_data, pin) {
                RegOp::SetVal { addr: gpio_bsrr_addr, value: 1u32 << (pin + 16) }
            } else {
                RegOp::SetVal { addr: gpio_bsrr_addr, value: 1u32 << pin }
            }
        },
    }
}

/// Reads the level at a pin: the pin's bit of the input data register.
pub fn get_gpio_pin_state(port: u32, pin: u32) -> (op: RegOp)
    requires
        port + 0x10 <= u32::MAX,
    ensures
        op == (RegOp::ReadBit { addr: (port + 0x10) as u32, bit: pin }),
{
    RegOp::ReadBit { addr: port + GPIO_IDR_OFFSET, bit: pin }
}

/// Hands a pin to a peripheral: mode `10`.
pub fn set_gpio_mode_alternate_function(port: u32, pin: u32) -> (op: RegOp)
    requires
        pin * 2 <= u32::MAX,
    ensures
        op == (RegOp::SetBits { addr: port, value: 0x2, position: (pin * 2) as u32, width: 2 }),
{
    RegOp::SetBits { addr: port + GPIO_MODER_OFFSET, value: 0x2, position: pin * 2, width: 2 }
}

/// Chooses the peripheral that a pin is handed to: the pin's four bits, in
/// the low alternate function register for pins 0 to 7 and in the high one
/// for the others.
pub fn set_gpio_alternate_function(port: u32, pin: u32, af_number: u32) -> (op: RegOp)
    requires
        port + 0x24 <= u32::MAX,
    ensures
        op == (RegOp::SetBits {
            addr: (port + if pin < 8 { 0x20int } else { 0x24int }) as u32,
            value: af_number,
            position: ((pin % 8) * 4) as u32,
            width: 4,
        }),
{
    let gpio_afr_offset: u32 = if pin < 8 { GPIO_AFRL_OFFSET } else { GPIO_AFRH_OFFSET };
    RegOp::SetBits { addr: port + gpio_afr_offset, value: af_number, position: (pin % 8) * 4, width: 4 }
}

/// Makes a pin's output open-drain: sets the pin's bit of the output type
/// register.
pub fn set_gpio_output_type_open_drain(port: u32, pin: u32) -> (op: RegOp)
    requires
        port + 0x04 <= u32::MAX,
    ensures
        op == (RegOp::SetBit { addr: (port + 0x04) as u32, bit: pin, on: true }),
{
    RegOp::SetBit { addr: port + GPIO_OTYPER_OFFSET, bit: pin, on: true }
}

/// Pulls a pin up: `01` in the pin's two bits of the pull register.
pub fn set_gpio_pull_up(port: u32, pin: u32) -> (op: RegOp)
    requires
        port + 0x0C <= u32::MAX,
        pin * 2 <= u32::MAX,
    ensures
        op == (RegOp::SetBits {
            addr: (port + 0x0C) as u32,
            value: 0x1,
            position: (pin * 2) as u32,
            width: 2,
        }),
{
    RegOp::SetBits { addr: port + GPIO_PUPDR_OFFSET, value: 0x1, position: pin * 2, width: 2 }
}

/// Sets a pin's speed to high: `10` in the pin's two bits of the speed
/// register.
pub fn set_gpio_speed_high(port: u32, pin: u32) -> (op: RegOp)
    requires
        port + 0x08 <= u32::MAX,
        pin * 2 <= u32::MAX,
    ensures
        op == (RegOp::SetBits {
            addr: (port + 0x08) as u32,
            value: 0x2,
            position: (pin * 2) as u32,
            width: 2,
        }),
{
    RegOp::SetBits { addr: port + GPIO_OSPEEDR_OFFSET, value: 0x2, position: pin * 2, width: 2 }
}

/// On a port of sixteen pins, every access that this driver asks for lies
/// within its register.
pub proof fn lemma_pin_accesses_in_range(port: u32, pin: u32, af_number: u32)
    requires
        pin < 16,
    ensures
        (RegOp::SetBits { addr: port, value: 0x1, position: (pin * 2) as u32, width: 2 }).in_range(),
        (RegOp::SetBits {
            addr: port,
            value: af_number,
            position: ((pin % 8) * 4) as u32,
            width: 4,
        }).in_range(),
        (RegOp::SetBit { addr: port, bit: pin, on: true }).in_range(),
        (RegOp::ReadBit { addr: port, bit: pin }).in_range(),
{
}

} // verus!
