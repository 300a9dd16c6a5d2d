//! The board's own ILI9341 panel: what to send it to bring it up and to
//! set a window, a pixel, a filled rectangle or a rectangle's outline.

use vstd::prelude::*;

verus! {

/// Column address set.
pub const CMD_COLUMN_ADDRESS: u8 = 0x2A;

/// Page address set.
pub const CMD_PAGE_ADDRESS: u8 = 0x2B;

/// Memory write.
pub const CMD_MEMORY_WRITE: u8 = 0x2C;

/// One thing to send to the panel.
#[derive(Copy, Clone, Debug, PartialEq, Eq, Structural)]
pub enum PanelWord {
    /// A command byte.
    Cmd(u8),
    /// A data byte.
    Data8(u8),
    /// A data word of sixteen bits.
    Data16(u16),
    /// The same data word, `count` times.
    Stream { word: u16, count: u32 },
    /// Nothing for this many idle instructions.
    Pause { nops: u32 },
}

/// The two bytes of a data word as they go over a byte-wide bus: the high
/// byte first.
pub fn wire_bytes(data: u16) -> (bytes: (u8, u8))
    ensures
        bytes.0 == data / 256,
        bytes.1 == data % 256,
{
    assert(data >> 8 == data / 256) by (bit_vector);
    assert(data & 0xFF == data % 256) by (bit_vector);
    ((data >> 8) as u8, (data & 0xFF) as u8)
}

/// The words that bring the panel up: reset and wake it, with a pause of
/// `settle` after each; sixteen bits to the pixel; rows from the top, blue
/// before red; the whole panel of 240 by 320 pixels as the window; display
/// on, and a pause of `finish`.
pub open spec fn init_words(settle: u32, finish: u32) -> Seq<PanelWord> {
    seq![
        PanelWord::Cmd(0x01),
        PanelWord::Pause { nops: settle },
        PanelWord::Cmd(0x11),
        PanelWord::Pause { nops: settle },
        PanelWord::Cmd(0x3A),
        PanelWord::Data8(0x55),
        PanelWord::Cmd(0x36),
        PanelWord::Data8(0x48),
        PanelWord::Cmd(0x2A),
        PanelWord::Data16(0),
        PanelWord::Data16(239),
        PanelWord::Cmd(0x2B),
        PanelWord::Data16(0),
        PanelWord::Data16(319),
        PanelWord::Cmd(0x29),
        PanelWord::Pause { nops: finish },
    ]
}

/// The words that ask a panel for its identity: reset and wake it, each
/// with a pause, then the read-identity command. Four reads of the data
/// address follow; the first is a dummy.
pub open spec fn probe_words() -> Seq<PanelWord> {
    seq![
        PanelWord::Cmd(0x01),
        PanelWord::Pause { nops: 2_000_000 },
        PanelWord::Cmd(0x11),
        PanelWord::Pause { nops: 2_000_000 },
        PanelWord::Cmd(0xD3),
    ]
}

/// The words that bring the panel up.
fn bring_up(settle: u32, finish: u32) -> (words: Vec<PanelWord>)
    ensures
        words@ == init_words(settle, finish),
{
    let mut words: Vec<PanelWord> = Vec::new();
    words.push(PanelWord::Cmd(0x01));
    words.push(PanelWord::Pause { nops: settle });
    words.push(PanelWord::Cmd(0x11));
    words.push(PanelWord::Pause { nops: settle });
    words.push(PanelWord::Cmd(0x3A));
    words.push(PanelWord::Data8(0x55));
    words.push(PanelWord::Cmd(0x36));
    words.push(PanelWord::Data8(0x48));
    words.push(PanelWord::Cmd(CMD_COLUMN_ADDRESS));
    words.push(PanelWord::Data16(0));
    words.push(PanelWord::Data16(239));
    words.push(PanelWord::Cmd(CMD_PAGE_ADDRESS));
    words.push(PanelWord::Data16(0));
    words.push(PanelWord::Data16(319));
    words.push(PanelWord::Cmd(0x29));
    words.push(PanelWord::Pause { nops: finish });
    assert(words@ =~= init_words(settle, finish));
    words
}

/// `a + b`, or the largest value where that is too large.
pub open spec fn plus_saturating(a: u16, b: u16) -> u16 {
    if a + b > u16::MAX {
        u16::MAX
    } else {
        (a + b) as u16
    }
}

/// The last of `n` coordinates from `first` on; for no coordinates, and
/// past the largest coordinate, as near as it gets.
pub open spec fn last_of(first: u16, n: u16) -> u16 {
    plus_saturating(first, if n == 0 { 0u16 } else { (n - 1) as u16 })
}

/// The words that open the window from `(x0, y0)` to `(x1, y1)`, both
/// included, for writing: the columns, the pages, the write command.
pub open spec fn window_words(x0: u16, y0: u16, x1: u16, y1: u16) -> Seq<PanelWord> {
    seq![
        PanelWord::Cmd(0x2A),
        PanelWord::Data16(x0),
        PanelWord::Data16(x1),
        PanelWord::Cmd(0x2B),
        PanelWord::Data16(y0),
        PanelWord::Data16(y1),
        PanelWord::Cmd(0x2C),
    ]
}

/// The words that set one pixel: a window of that pixel, and its colour.
pub open spec fn pixel_words(x: u16, y: u16, color_565: u16) -> Seq<PanelWord> {
    window_words(x, y, x, y).push(PanelWord::Data16(color_565))
}

/// The words that fill a rectangle: its window, and the colour once for
/// each of its `w * h` pixels.
pub open spec fn fill_words(x0: u16, y0: u16, w: u16, h: u16, color_565: u16) -> Seq<PanelWord> {
    window_words(x0, y0, last_of(x0, w), last_of(y0, h)).push(
        PanelWord::Stream { word: color_565, count: (w * h) as u32 },
    )
}

/// The words that set the two end pixels of each of the rows from `y` to
/// `y + rows - 1`, the left end at `x` and the right end at `x2`.
pub open spec fn side_words(x: u16, x2: u16, y: int, rows: nat, color_565: u16) -> Seq<PanelWord>
    decreases rows,
{
    if rows == 0 {
        Seq::empty()
    } else {
        side_words(x, x2, y, (rows - 1) as nat, color_565) + pixel_words(
            x,
            (y + rows - 1) as u16,
            color_565,
        ) + pixel_words(x2, (y + rows - 1) as u16, color_565)
    }
}

/// The words that draw the outline, one pixel thick, of the rectangle from
/// `(x, y)` to `(last_of(x, w), last_of(y, h))`: the top row and the bottom
/// row as streams, then the two ends of every row.
pub open spec fn outline_words(x: u16, y: u16, w: u16, h: u16, color_565: u16) -> Seq<PanelWord> {
    let x2 = last_of(x, w);
    let y2 = last_of(y, h);
    window_words(x, y, x2, y).push(PanelWord::Stream { word: color_565, count: (x2 - x + 1) as u32 })
        + window_words(x, y2, x2, y2).push(
        PanelWord::Stream { word: color_565, count: (x2 - x + 1) as u32 },
    ) + side_words(x, x2, y as int, (y2 - y + 1) as nat, color_565)
}

/// Appends to `out` the words that open a window.
fn push_window(out: &mut Vec<PanelWord>, x0: u16, y0: u16, x1: u16, y1: u16)
    ensures
        final(out)@ == old(out)@ + window_words(x0, y0, x1, y1),
{
    out.push(PanelWord::Cmd(CMD_COLUMN_ADDRESS));
    out.push(PanelWord::Data16(x0));
    out.push(PanelWord::Data16(x1));
    out.push(PanelWord::Cmd(CMD_PAGE_ADDRESS));
    out.push(PanelWord::Data16(y0));
    out.push(PanelWord::Data16(y1));
    out.push(PanelWord::Cmd(CMD_MEMORY_WRITE));
    assert(out@ =~= old(out)@ + window_words(x0, y0, x1, y1));
}

/// Appends to `out` the words that set one pixel.
fn push_pixel(out: &mut Vec<PanelWord>, x: u16, y: u16, color_565: u16)
    ensures
        final(out)@ == old(out)@ + pixel_words(x, y, color_565),
{
    push_window(out, x, y, x, y);
    out.push(PanelWord::Data16(color_565));
    assert(out@ =~= old(out)@ + pixel_words(x, y, color_565));
}

/// The last of `n` coordinates from `first` on.
fn last(first: u16, n: u16) -> (r: u16)
    ensures
        r == last_of(first, n),
        r >= first,
{
    let span: u16 = if n == 0 { 0 } else { n - 1 };
    if span > u16::MAX - first {
        u16::MAX
    } else {
        first + span
    }
}

/// The board's ILI9341 panel on the memory controller.
pub struct Ili9341Fmc;

impl Ili9341Fmc {
    /// The words that ask the panel for its identity.
    pub fn probe() -> (words: Vec<PanelWord>)
        ensures
            words@ == probe_words(),
    {
        let mut words: Vec<PanelWord> = Vec::new();
        words.push(PanelWord::Cmd(0x01));
        words.push(PanelWord::Pause { nops: 2_000_000 });
        words.push(PanelWord::Cmd(0x11));
        words.push(PanelWord::Pause { nops: 2_000_000 });
        words.push(PanelWord::Cmd(0xD3));
        assert(words@ =~= probe_words());
        words
    }

    /// Whether the three identity bytes that follow the dummy are those of
    /// an ILI9341.
    pub fn is_ili9341(id1: u8, id2: u8, id3: u8) -> (r: bool)
        ensures
            r == (id1 == 0x00 && id2 == 0x93 && id3 == 0x41),
    {
        id1 == 0x00 && id2 == 0x93 && id3 == 0x41
    }

    /// Brings the panel up, once its bus is set up.
    pub fn init_and_take() -> (words: Vec<PanelWord>)
        ensures
            words@ == init_words(8_000_000, 100_000),
    {
        bring_up(8_000_000, 100_000)
    }

    /// Opens the window from `(x0, y0)` to `(x1, y1)` for writing.
    pub fn set_window(x0: u16, y0: u16, x1: u16, y1: u16) -> (words: Vec<PanelWord>)
        ensures
            words@ == window_words(x0, y0, x1, y1),
    {
        Ili9341Spi::set_window(x0, y0, x1, y1)
    }

    /// Sets one pixel.
    pub fn set_pixel(x: u16, y: u16, color_565: u16) -> (words: Vec<PanelWord>)
        ensures
            words@ == pixel_words(x, y, color_565),
    {
        Ili9341Spi::set_pixel(x, y, color_565)
    }

    /// Fills the rectangle of `w` by `h` pixels at `(x0, y0)`.
    pub fn fill_rect(x0: u16, y0: u16, w: u16, h: u16, color_565: u16) -> (words: Vec<PanelWord>)
        ensures
            words@ == fill_words(x0, y0, w, h, color_565),
    {
        Ili9341Spi::fill_rect(x0, y0, w, h, color_565)
    }
}

/// The board's ILI9341 panel on the serial bus.
pub struct Ili9341Spi;

impl Ili9341Spi {
    /// Brings the panel up, once its bus is set up.
    pub fn init_and_take() -> (words: Vec<PanelWord>)
        ensures
            words@ == init_words(800_000, 200_000),
    {
        bring_up(800_000, 200_000)
    }

    /// Opens the window from `(x0, y0)` to `(x1, y1)` for writing.
    pub fn set_window(x0: u16, y0: u16, x1: u16, y1: u16) -> (words: Vec<PanelWord>)
        ensures
            words@ == window_words(x0, y0, x1, y1),
    {
        let mut words: Vec<PanelWord> = Vec::new();
        push_window(&mut words, x0, y0, x1, y1);
        words
    }

    /// Sets one pixel.
    pub fn set_pixel(x: u16, y: u16, color_565: u16) -> (words: Vec<PanelWord>)
        ensures
            words@ == pixel_words(x, y, color_565),
    {
        let mut words: Vec<PanelWord> = Vec::new();
        push_pixel(&mut words, x, y, color_565);
        words
    }

    /// Fills the rectangle of `w` by `h` pixels at `(x0, y0)`.
    pub fn fill_rect(x0: u16, y0: u16, w: u16, h: u16, color_565: u16) -> (words: Vec<PanelWord>)
        ensures
            words@ == fill_words(x0, y0, w, h, color_565),
    {
        let x1 = last(x0, w);
        let y1 = last(y0, h);
        let mut words: Vec<PanelWord> = Vec::new();
        push_window(&mut words, x0, y0, x1, y1);
        assert(w * h <= 0xFFFF * 0xFFFF) by (nonlinear_arith)
            requires
                w <= 0xFFFF,
                h <= 0xFFFF,
        ;
        let count: u32 = (w as u32) * (h as u32);
        words.push(PanelWord::Stream { word: color_565, count });
        words
    }
}

/// Draws the outline, one pixel thick, of the rectangle of `w` by `h`
/// pixels at `(x, y)`.
pub fn draw_rect_outline(x: u16, y: u16, w: u16, h: u16, color_565: u16) -> (words: Vec<PanelWord>)
    ensures
        words@ == outline_words(x, y, w, h, color_565),
{
    let x2 = last(x, w);
    let y2 = last(y, h);
    let mut words: Vec<PanelWord> = Vec::new();
    push_window(&mut words, x, y, x2, y);
    words.push(PanelWord::Stream { word: color_565, count: (x2 - x) as u32 + 1 });
    push_window(&mut words, x, y2, x2, y2);
    words.push(PanelWord::Stream { word: color_565, count: (x2 - x) as u32 + 1 });
    let ghost head = words@;
    let mut yy: u16 = y;
    let mut rows: u32 = 0;
    assert(side_words(x, x2, y as int, 0, color_565) =~= Seq::<PanelWord>::empty());
    while rows < (y2 - y) as u32 + 1
        invariant
            y <= y2,
            rows <= y2 - y + 1,
            yy == if rows <= y2 - y { (y + rows) as u16 } else { y2 },
            words@ == head + side_words(x, x2, y as int, rows as nat, color_565),
        decreases y2 - y + 1 - rows,
    {
        let ghost before = words@;
        push_pixel(&mut words, x, yy, color_565);
        push_pixel(&mut words, x2, yy, color_565);
        rows += 1;
        assert(words@ =~= head + side_words(x, x2, y as int, rows as nat, color_565));
        if yy < y2 {
            yy += 1;
        }
    }
    assert(words@ =~= outline_words(x, y, w, h, color_565));
    words
}

} // verus!
