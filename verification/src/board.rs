//! What is wired to which pin on the STM32F429I discovery board.

use vstd::prelude::*;
use crate::mcu::{GPIOA_BASE, GPIOB_BASE, GPIOC_BASE, GPIOG_BASE, GPIO_PIN_0, GPIO_PIN_13, GPIO_PIN_14};

verus! {

pub const GREEN_LED_PIN: u32 = GPIO_PIN_13;

pub const GREEN_LED_PORT: u32 = GPIOG_BASE;

pub const RED_LED_PIN: u32 = GPIO_PIN_14;

pub const RED_LED_PORT: u32 = GPIOG_BASE;

pub const USER_BTN_PORT: u32 = GPIOA_BASE;

pub const USER_BTN_PIN: u32 = GPIO_PIN_0;

/// The sensor's clock line is on PB8.
pub const I2C_SCL_PORT: u32 = GPIOB_BASE;

pub const I2C_SCL_PIN: u32 = 8;

/// The sensor's data line is on PB9.
pub const I2C_SDA_PORT: u32 = GPIOB_BASE;

pub const I2C_SDA_PIN: u32 = 9;

/// The sensor's interrupt line is on PC13.
pub const MPU6050_INT_PORT: u32 = GPIOC_BASE;

pub const MPU6050_INT_PIN: u32 = GPIO_PIN_13;

} // verus!
