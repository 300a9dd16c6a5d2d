//! A GC9A01 panel on an eight-bit parallel bus of plain output pins: which
//! pins to drive and what to send, to bring it up and to set a pixel.

use vstd::prelude::*;
use crate::display::Rgb565;
use crate::hw::onboard::{pixel_words, window_words, Ili9341Spi, PanelWord};

verus! {

/// A control line of the panel.
#[derive(Copy, Clone, Debug, PartialEq, Eq, Structural)]
pub enum Line {
    /// Chip select, active low.
    Cs,
    /// Write strobe.
    Wr,
    /// Read strobe.
    Rd,
    /// Data, or low for a command.
    Dc,
    /// Reset, active low.
    Rst,
    /// Backlight.
    Bl,
}

/// One thing to do to the panel.
#[derive(Copy, Clone, Debug, PartialEq, Eq, Structural)]
pub enum PanelStep {
    /// Drive a control line high or low.
    Pin { line: Line, high: bool },
    /// Send a word, or pause.
    Word(PanelWord),
}

/// The steps that bring the panel up: all strobes idle and the backlight
/// off; a reset pulse and a pause; chip select; wake, and a pause; sixteen
/// bits to the pixel; landscape, blue before red; display on; backlight on.
pub open spec fn init_steps() -> Seq<PanelStep> {
    seq![
        PanelStep::Pin { line: Line::Cs, high: true },
        PanelStep::Pin { line: Line::Wr, high: true },
        PanelStep::Pin { line: Line::Rd, high: true },
        PanelStep::Pin { line: Line::Dc, high: true },
        PanelStep::Pin { line: Line::Bl, high: false },
        PanelStep::Pin { line: Line::Rst, high: false },
        PanelStep::Word(PanelWord::Pause { nops: 72_000 }),
        PanelStep::Pin { line: Line::Rst, high: true },
        PanelStep::Word(PanelWord::Pause { nops: 8_640_000 }),
        PanelStep::Pin { line: Line::Cs, high: false },
        PanelStep::Word(PanelWord::Cmd(0x11)),
        PanelStep::Word(PanelWord::Pause { nops: 8_640_000 }),
        PanelStep::Word(PanelWord::Cmd(0x3A)),
        PanelStep::Word(PanelWord::Data8(0x55)),
        PanelStep::Word(PanelWord::Cmd(0x36)),
        PanelStep::Word(PanelWord::Data8(0x28)),
        PanelStep::Word(PanelWord::Cmd(0x29)),
        PanelStep::Pin { line: Line::Bl, high: true },
    ]
}

/// Whether bit `i` of a byte is set.
pub open spec fn bus_bit(v: u8, i: int) -> bool {
    (v >> (i as u8)) & 1 == 1
}

/// The panel.
pub struct Gc9a01Parallel;

impl Gc9a01Parallel {
    /// The levels of the eight data lines for a byte: line `i` is high
    /// where bit `i` of the byte is set.
    pub fn set_bus(v: u8) -> (levels: [bool; 8])
        ensures
            forall|i: int| 0 <= i < 8 ==> levels@[i] == bus_bit(v, i),
    {
        let levels = [
            v & 0x01 != 0,
            v & 0x02 != 0,
            v & 0x04 != 0,
            v & 0x08 != 0,
            v & 0x10 != 0,
            v & 0x20 != 0,
            v & 0x40 != 0,
            v & 0x80 != 0,
        ];
        assert((v & 0x01 != 0) == ((v >> 0u8) & 1 == 1) && (v & 0x02 != 0) == ((v >> 1u8) & 1 == 1) && (v
            & 0x04 != 0) == ((v >> 2u8) & 1 == 1) && (v & 0x08 != 0) == ((v >> 3u8) & 1 == 1) && (v & 0x10
            != 0) == ((v >> 4u8) & 1 == 1) && (v & 0x20 != 0) == ((v >> 5u8) & 1 == 1) && (v & 0x40 != 0) == ((v
            >> 6u8) & 1 == 1) && (v & 0x80 != 0) == ((v >> 7u8) & 1 == 1)) by (bit_vector);
        assert forall|i: int| 0 <= i < 8 implies levels@[i] == bus_bit(v, i) by {
            if i == 0 {
            } else if i == 1 {
            } else if i == 2 {
            } else if i == 3 {
            } else if i == 4 {
            } else if i == 5 {
            } else if i == 6 {
            } else {
            }
        }
        levels
    }

    /// Opens the window of the one pixel at `(x, y)` for writing.
    pub fn set_addr_window(x: u16, y: u16) -> (words: Vec<PanelWord>)
        ensures
            words@ == window_words(x, y, x, y),
    {
        Ili9341Spi::set_window(x, y, x, y)
    }

    /// Brings the panel up.
    pub fn init() -> (steps: Vec<PanelStep>)
        ensures
            steps@ == init_steps(),
    {
        let mut steps: Vec<PanelStep> = Vec::new();
        steps.push(PanelStep::Pin { line: Line::Cs, high: true });
        steps.push(PanelStep::Pin { line: Line::Wr, high: true });
        steps.push(PanelStep::Pin { line: Line::Rd, high: true });
        steps.push(PanelStep::Pin { line: Line::Dc, high: true });
        steps.push(PanelStep::Pin { line: Line::Bl, high: false });
        steps.push(PanelStep::Pin { line: Line::Rst, high: false });
        steps.push(PanelStep::Word(PanelWord::Pause { nops: 72_000 }));
        steps.push(PanelStep::Pin { line: Line::Rst, high: true });
        steps.push(PanelStep::Word(PanelWord::Pause { nops: 8_640_000 }));
        steps.push(PanelStep::Pin { line: Line::Cs, high: false });
        steps.push(PanelStep::Word(PanelWord::Cmd(0x11)));
        steps.push(PanelStep::Word(PanelWord::Pause { nops: 8_640_000 }));
        steps.push(PanelStep::Word(PanelWord::Cmd(0x3A)));
        steps.push(PanelStep::Word(PanelWord::Data8(0x55)));
        steps.push(PanelStep::Word(PanelWord::Cmd(0x36)));
        steps.push(PanelStep::Word(PanelWord::Data8(0x28)));
        steps.push(PanelStep::Word(PanelWord::Cmd(0x29)));
        steps.push(PanelStep::Pin { line: Line::Bl, high: true });
        assert(steps@ =~= init_steps());
        steps
    }

    /// Sets one pixel: its window, and its colour.
    pub fn set_pixel(x: u16, y: u16, color: Rgb565) -> (words: Vec<PanelWord>)
        ensures
            words@ == pixel_words(x, y, color.0),
    {
        Ili9341Spi::set_pixel(x, y, color.0)
    }
}

} // verus!
