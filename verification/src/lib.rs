//! Board support for the STM32F429I discovery kit: a framebuffer with a
//! rectangle and triangle outline rasteriser, and the drivers of the GPIO
//! ports, the I2C bus and the motion sensor as plans of register accesses.

pub mod board;
pub mod bus;
pub mod demo;
pub mod display;
pub mod game_display;
pub mod gpio;
pub mod hw;
pub mod i2c;
pub mod line;
pub mod mcu;
pub mod motion_control;
pub mod mpu6050;
pub mod reg;
pub mod sampling;
pub mod shapes;

pub use display::{init_display, Display, DisplayConfig, Error, Layer, Orientation, PixelFormat, Rgb565};
pub use shapes::{
    draw_rectangle_outline, draw_rectangle_outline_on_layer, draw_triangle_outline,
    draw_triangle_outline_on_layer, PixelSink, PixelSinkLayers, Point, Rect, Triangle,
};
