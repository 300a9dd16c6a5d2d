//! The panels: one behind a driver as a pixel sink, and the board's own and
//! a parallel one as the words to send them.

pub mod gc9a01;
pub mod ili9341;
pub mod onboard;
