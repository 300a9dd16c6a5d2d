//! Addresses of the STM32F429 peripherals that the drivers use.

use vstd::prelude::*;

verus! {

pub const GPIOA_BASE: u32 = 0x4002_0000;

pub const GPIOB_BASE: u32 = 0x4002_0400;

pub const GPIOC_BASE: u32 = 0x4002_0800;

pub const GPIOG_BASE: u32 = 0x4002_1800;

pub const RCC_BASE: u32 = 0x4002_3800;

pub const GPIO_PIN_0: u32 = 0;

pub const GPIO_PIN_13: u32 = 13;

pub const GPIO_PIN_14: u32 = 14;

} // verus!
