//! The framebuffer: two layers of RGB565 pixels in row-major order.

use vstd::prelude::*;

verus! {

#[derive(Copy, Clone, Debug, PartialEq, Eq, Structural)]
pub enum Orientation {
    Portrait,
    Landscape,
    InvertedPortrait,
    InvertedLandscape,
}

#[derive(Copy, Clone, Debug, PartialEq, Eq, Structural)]
pub enum PixelFormat {
    Rgb565,
}

/// A colour packed as five bits of red, six of green and five of blue.
#[derive(Copy, Clone, Debug, PartialEq, Eq, Structural)]
pub struct Rgb565(pub u16);

/// The packed colour of an 8-bit-per-channel colour: each channel keeps its
/// high bits.
pub open spec fn pack_rgb888(r: u8, g: u8, b: u8) -> u16 {
    (((r as u16 >> 3) & 0x1F) << 11) | (((g as u16 >> 2) & 0x3F) << 5) | ((b as u16 >> 3) & 0x1F)
}

impl Rgb565 {
    /// Black: every channel at zero.
    pub fn black() -> (c: Rgb565)
        ensures
            c == Rgb565(0x0000),
    {
        Rgb565(0x0000)
    }

    /// White: every channel at its maximum.
    pub fn white() -> (c: Rgb565)
        ensures
            c == Rgb565(0xFFFF),
    {
        Rgb565(0xFFFF)
    }

    pub fn from_rgb888(r: u8, g: u8, b: u8) -> (c: Rgb565)
        ensures
            c.0 == pack_rgb888(r, g, b),
    {
        let r5: u16 = (r as u16 >> 3) & 0x1F;
        let g6: u16 = (g as u16 >> 2) & 0x3F;
        let b5: u16 = (b as u16 >> 3) & 0x1F;
        Rgb565((r5 << 11) | (g6 << 5) | b5)
    }
}

/// Packing truncates: red contributes `r / 8` in the top five bits, green
/// `g / 4` in the middle six and blue `b / 8` in the low five.
pub proof fn lemma_pack_is_truncation(r: u8, g: u8, b: u8)
    ensures
        pack_rgb888(r, g, b) == (r / 8) * 2048 + (g / 4) * 32 + b / 8,
{
    assert(((((r as u16 >> 3) & 0x1F) << 11) | (((g as u16 >> 2) & 0x3F) << 5) | ((b as u16 >> 3)
        & 0x1F)) == (r as u16 / 8) * 2048 + (g as u16 / 4) * 32 + b as u16 / 8) by (bit_vector);
}

/// What a display is built from.
#[derive(Clone, Debug)]
pub struct DisplayConfig {
    pub width: u16,
    pub height: u16,
    pub orientation: Orientation,
    pub pixel_format: PixelFormat,
}

#[derive(Copy, Clone, Debug, PartialEq, Eq, Structural)]
pub enum Layer {
    Layer1,
    Layer2,
}

#[derive(Debug, PartialEq, Eq, Structural)]
pub enum Error {
    InvalidDimensions,
    UnsupportedPixelFormat,
}

impl Error {
    /// The message that describes the error.
    pub fn message(&self) -> (s: &'static str)
        ensures
            s@ == match *self {
                Error::InvalidDimensions => "invalid dimensions: width and height must be > 0"@,
                Error::UnsupportedPixelFormat => "unsupported pixel format"@,
            },
    {
        match self {
            Error::InvalidDimensions => "invalid dimensions: width and height must be > 0",
            Error::UnsupportedPixelFormat => "unsupported pixel format",
        }
    }
}

/// Where pixel `(x, y)` lies in a row-major layer of the given width.
pub open spec fn pixel_index(width: int, x: int, y: int) -> int {
    y * width + x
}

/// A display as a value: its size, its configuration and the colours of its
/// two layers, each in row-major order.
pub struct DisplayView {
    pub width: u16,
    pub height: u16,
    pub orientation: Orientation,
    pub pixel_format: PixelFormat,
    pub layer1: Seq<Rgb565>,
    pub layer2: Seq<Rgb565>,
}

impl DisplayView {
    /// Both sides are positive and each layer holds one colour per pixel.
    pub open spec fn wf(self) -> bool {
        &&& 0 < self.width
        &&& 0 < self.height
        &&& self.layer1.len() == self.width * self.height
        &&& self.layer2.len() == self.width * self.height
    }

    pub open spec fn layer(self, layer: Layer) -> Seq<Rgb565> {
        match layer {
            Layer::Layer1 => self.layer1,
            Layer::Layer2 => self.layer2,
        }
    }

    pub open spec fn contains(self, x: int, y: int) -> bool {
        0 <= x < self.width && 0 <= y < self.height
    }

    /// The colour at `(x, y)` in a layer, absent outside the display.
    pub open spec fn get(self, layer: Layer, x: int, y: int) -> Option<Rgb565> {
        if self.contains(x, y) {
            Some(self.layer(layer)[pixel_index(self.width as int, x, y)])
        } else {
            None
        }
    }

    /// The display with one layer replaced.
    pub open spec fn with_layer(self, layer: Layer, pixels: Seq<Rgb565>) -> DisplayView {
        match layer {
            Layer::Layer1 => DisplayView { layer1: pixels, ..self },
            Layer::Layer2 => DisplayView { layer2: pixels, ..self },
        }
    }

    /// The display after a write of `color` at `(x, y)` in a layer: a write
    /// outside the display changes nothing.
    pub open spec fn with_pixel(self, layer: Layer, x: int, y: int, color: Rgb565) -> DisplayView {
        if self.contains(x, y) {
            self.with_layer(
                layer,
                self.layer(layer).update(pixel_index(self.width as int, x, y), color),
            )
        } else {
            self
        }
    }

    /// The display with every pixel of a layer set to `color`.
    pub open spec fn with_layer_filled(self, layer: Layer, color: Rgb565) -> DisplayView {
        self.with_layer(layer, Seq::new(self.layer(layer).len(), |i: int| color))
    }
}

/// The decimal digits of `n` as ASCII bytes, without leading zeros.
pub open spec fn decimal(n: nat) -> Seq<u8>
    decreases n,
{
    if n < 10 {
        seq![(0x30 + n) as u8]
    } else {
        decimal(n / 10).push((0x30 + n % 10) as u8)
    }
}

/// Five bits widened to eight: shifted up, with the high bits repeated in
/// the low ones.
pub open spec fn expand5(v: u8) -> u8 {
    (v << 3) | (v >> 2)
}

/// Six bits widened to eight in the same way.
pub open spec fn expand6(v: u8) -> u8 {
    (v << 2) | (v >> 4)
}

/// The red, green and blue bytes of a packed colour.
pub open spec fn rgb888(c: Rgb565) -> Seq<u8> {
    seq![
        expand5(((c.0 >> 11) & 0x1F) as u8),
        expand6(((c.0 >> 5) & 0x3F) as u8),
        expand5((c.0 & 0x1F) as u8),
    ]
}

/// The header of a binary pixmap: the magic `P6`, width and height in
/// decimal, and the maximum channel value 255, each followed by a newline.
pub open spec fn ppm_header(width: nat, height: nat) -> Seq<u8> {
    seq![0x50u8, 0x36u8, 0x0Au8] + decimal(width) + seq![0x20u8] + decimal(height) + seq![
        0x0Au8,
        0x32u8,
        0x35u8,
        0x35u8,
        0x0Au8,
    ]
}

/// Three bytes for each pixel, in order.
pub open spec fn ppm_pixels(pixels: Seq<Rgb565>) -> Seq<u8> {
    Seq::new(3 * pixels.len(), |i: int| rgb888(pixels[i / 3])[i % 3])
}

/// The first layer of a display as a binary pixmap.
pub open spec fn ppm_image(d: DisplayView) -> Seq<u8> {
    ppm_header(d.width as nat, d.height as nat) + ppm_pixels(d.layer1)
}

/// One more pixel adds its three bytes.
pub proof fn lemma_ppm_pixels_push(pixels: Seq<Rgb565>, c: Rgb565)
    ensures
        ppm_pixels(pixels.push(c)) == ppm_pixels(pixels) + rgb888(c),
{
    assert(ppm_pixels(pixels.push(c)) =~= ppm_pixels(pixels) + rgb888(c));
}

/// Widening keeps the ends of the range: nothing stays nothing, full stays
/// full.
pub proof fn lemma_expand_ends()
    ensures
        expand5(0) == 0,
        expand5(31) == 255,
        expand6(0) == 0,
        expand6(63) == 255,
{
    assert(((0u8 << 3) | (0u8 >> 2)) == 0) by (bit_vector);
    assert(((31u8 << 3) | (31u8 >> 2)) == 255) by (bit_vector);
    assert(((0u8 << 2) | (0u8 >> 4)) == 0) by (bit_vector);
    assert(((63u8 << 2) | (63u8 >> 4)) == 255) by (bit_vector);
}

/// Appends the decimal digits of `n`.
fn push_decimal(out: &mut Vec<u8>, n: u16)
    ensures
        final(out)@ == old(out)@ + decimal(n as nat),
    decreases n,
{
    if n >= 10 {
        push_decimal(out, n / 10);
    }
    out.push(0x30 + (n % 10) as u8);
    assert(out@ =~= old(out)@ + decimal(n as nat));
}

/// A framebuffer of two layers.
#[derive(Debug)]
pub struct Display {
    width: u16,
    height: u16,
    orientation: Orientation,
    pixel_format: PixelFormat,
    framebuffer_l1: Vec<u16>,
    framebuffer_l2: Vec<u16>,
}

impl View for Display {
    type V = DisplayView;

    closed spec fn view(&self) -> DisplayView {
        DisplayView {
            width: self.width,
            height: self.height,
            orientation: self.orientation,
            pixel_format: self.pixel_format,
            layer1: self.framebuffer_l1@.map_values(|p: u16| Rgb565(p)),
            layer2: self.framebuffer_l2@.map_values(|p: u16| Rgb565(p)),
        }
    }
}

/// In a layer of positive width, an in-range pixel has an in-range index.
pub proof fn lemma_pixel_index_in_range(width: int, height: int, x: int, y: int)
    requires
        0 <= x < width,
        0 <= y < height,
    ensures
        0 <= pixel_index(width, x, y) < width * height,
{
    assert(y * width >= 0) by (nonlinear_arith)
        requires
            y >= 0,
            width > 0,
    ;
    assert(y * width + width <= height * width) by (nonlinear_arith)
        requires
            y + 1 <= height,
            width > 0,
    ;
    assert(height * width == width * height) by (nonlinear_arith);
}

/// Two in-range pixels share an index only if they are the same pixel.
pub proof fn lemma_pixel_index_injective(width: int, x1: int, y1: int, x2: int, y2: int)
    requires
        0 <= x1 < width,
        0 <= x2 < width,
        pixel_index(width, x1, y1) == pixel_index(width, x2, y2),
    ensures
        x1 == x2,
        y1 == y2,
{
    assert(y1 == y2) by (nonlinear_arith)
        requires
            0 <= x1 < width,
            0 <= x2 < width,
            y1 * width + x1 == y2 * width + x2,
    ;
}

/// A pixel that was written is read back: after a write of `color` at a
/// pixel of the display, a read of that pixel in that layer gives `color`.
pub proof fn lemma_write_then_read(d: DisplayView, layer: Layer, x: int, y: int, color: Rgb565)
    requires
        d.wf(),
        d.contains(x, y),
    ensures
        d.with_pixel(layer, x, y, color).get(layer, x, y) == Some(color),
{
    lemma_pixel_index_in_range(d.width as int, d.height as int, x, y);
}

/// A write leaves every other pixel, and the other layer, as they were.
pub proof fn lemma_write_keeps_others(
    d: DisplayView,
    layer: Layer,
    x: int,
    y: int,
    color: Rgb565,
    l: Layer,
    px: int,
    py: int,
)
    requires
        d.wf(),
        d.contains(px, py),
        l != layer || px != x || py != y,
    ensures
        d.with_pixel(layer, x, y, color).get(l, px, py) == d.get(l, px, py),
{
    lemma_pixel_index_in_range(d.width as int, d.height as int, px, py);
    if d.contains(x, y) {
        lemma_pixel_index_in_range(d.width as int, d.height as int, x, y);
        if pixel_index(d.width as int, px, py) == pixel_index(d.width as int, x, y) {
            lemma_pixel_index_injective(d.width as int, px, py, x, y);
        }
    }
}

/// Outside the display there is nothing to read, and a write there changes
/// nothing.
pub proof fn lemma_outside_is_absent(d: DisplayView, layer: Layer, x: int, y: int, color: Rgb565)
    requires
        !d.contains(x, y),
    ensures
        d.get(layer, x, y) is None,
        d.with_pixel(layer, x, y, color) == d,
{
}

/// After both layers were cleared to `color`, every pixel of the display
/// reads as `color`, in either layer.
pub proof fn lemma_cleared_reads_color(d: DisplayView, color: Rgb565, layer: Layer, x: int, y: int)
    requires
        d.wf(),
        d.contains(x, y),
    ensures
        d.with_layer_filled(Layer::Layer1, color).with_layer_filled(Layer::Layer2, color).get(
            layer,
            x,
            y,
        ) == Some(color),
        d.with_layer_filled(layer, color).get(layer, x, y) == Some(color),
{
    lemma_pixel_index_in_range(d.width as int, d.height as int, x, y);
}

/// Builds a display with both layers black. Fails with `InvalidDimensions`
/// exactly when a side is zero.
pub fn init_display(cfg: DisplayConfig) -> (r: Result<Display, Error>)
    ensures
        (cfg.width == 0 || cfg.height == 0) <==> r == Err::<Display, Error>(Error::InvalidDimensions),
        r is Err ==> (cfg.width == 0 || cfg.height == 0),
        r is Ok ==> {
            let d = r->Ok_0@;
            &&& d.wf()
            &&& d.width == cfg.width
            &&& d.height == cfg.height
            &&& d.orientation == cfg.orientation
            &&& d.pixel_format == cfg.pixel_format
            &&& d.layer1 == Seq::new((d.width * d.height) as nat, |i: int| Rgb565(0x0000))
            &&& d.layer2 == Seq::new((d.width * d.height) as nat, |i: int| Rgb565(0x0000))
        },
{
    if cfg.width == 0 || cfg.height == 0 {
        return Err(Error::InvalidDimensions);
    }
    match cfg.pixel_format {
        PixelFormat::Rgb565 => {},
    }
    assert(cfg.width * cfg.height <= 0xFFFF * 0xFFFF) by (nonlinear_arith)
        requires
            cfg.width <= 0xFFFF,
            cfg.height <= 0xFFFF,
    ;
    let len: usize = cfg.width as usize * cfg.height as usize;
    let framebuffer_l1 = filled(len, 0x0000);
    let framebuffer_l2 = filled(len, 0x0000);
    let d = Display {
        width: cfg.width,
        height: cfg.height,
        orientation: cfg.orientation,
        pixel_format: cfg.pixel_format,
        framebuffer_l1,
        framebuffer_l2,
    };
    assert(d@.layer1 =~= Seq::new((d@.width * d@.height) as nat, |i: int| Rgb565(0x0000)));
    assert(d@.layer2 =~= Seq::new((d@.width * d@.height) as nat, |i: int| Rgb565(0x0000)));
    Ok(d)
}

/// The index of an in-range pixel in a row-major layer.
fn offset(width: u16, height: u16, x: u16, y: u16) -> (idx: usize)
    requires
        x < width,
        y < height,
    ensures
        idx == pixel_index(width as int, x as int, y as int),
        idx < width * height,
    no_unwind
{
    proof {
        lemma_pixel_index_in_range(width as int, height as int, x as int, y as int);
        assert(width * height <= 0xFFFF * 0xFFFF) by (nonlinear_arith)
            requires
                width <= 0xFFFF,
                height <= 0xFFFF,
        ;
        assert(y * width >= 0) by (nonlinear_arith)
            requires
                y >= 0,
                width >= 0,
        ;
    }
    y as usize * width as usize + x as usize
}

/// A vector of `len` copies of `value`.
fn filled(len: usize, value: u16) -> (v: Vec<u16>)
    ensures
        v@ == Seq::new(len as nat, |i: int| value),
{
    let mut v: Vec<u16> = Vec::with_capacity(len);
    let mut i: usize = 0;
    while i < len
        invariant
            i <= len,
            v@ == Seq::new(i as nat, |k: int| value),
        decreases len - i,
    {
        v.push(value);
        i += 1;
        assert(v@ =~= Seq::new(i as nat, |k: int| value));
    }
    v
}

/// A copy of `src`.
fn copy_of(src: &Vec<u16>) -> (v: Vec<u16>)
    ensures
        v@ == src@,
{
    let n = src.len();
    let mut v: Vec<u16> = Vec::with_capacity(n);
    let mut i: usize = 0;
    while i < n
        invariant
            i <= n,
            n == src@.len(),
            v@ == src@.take(i as int),
        decreases n - i,
    {
        v.push(src[i]);
        i += 1;
        assert(v@ =~= src@.take(i as int));
    }
    assert(src@.take(n as int) =~= src@);
    v
}

/// Sets every element of `v` to `value`.
fn fill(v: &mut Vec<u16>, value: u16)
    ensures
        final(v)@ == Seq::new(old(v)@.len(), |i: int| value),
    no_unwind
{
    let n = v.len();
    let mut i: usize = 0;
    while i < n
        invariant
            i <= n,
            n == v@.len(),
            n == old(v)@.len(),
            forall|k: int| 0 <= k < i ==> v@[k] == value,
        decreases n - i,
    {
        v[i] = value;
        i += 1;
    }
    assert(v@ =~= Seq::new(old(v)@.len(), |i: int| value));
}

impl Clone for Display {
    fn clone(&self) -> (r: Display)
        ensures
            r@ == self@,
    {
        proof {
            use_type_invariant(self);
        }
        Display {
            width: self.width,
            height: self.height,
            orientation: self.orientation,
            pixel_format: self.pixel_format,
            framebuffer_l1: copy_of(&self.framebuffer_l1),
            framebuffer_l2: copy_of(&self.framebuffer_l2),
        }
    }
}

impl Display {
    #[verifier::type_invariant]
    spec fn inv(&self) -> bool {
        &&& self.width > 0
        &&& self.height > 0
        &&& self.framebuffer_l1@.len() == self.width * self.height
        &&& self.framebuffer_l2@.len() == self.width * self.height
    }

    pub fn size(&self) -> (r: (u16, u16))
        ensures
            r.0 == self@.width,
            r.1 == self@.height,
            self@.wf(),
    {
        proof {
            use_type_invariant(self);
        }
        (self.width, self.height)
    }

    pub fn orientation(&self) -> (r: Orientation)
        ensures
            r == self@.orientation,
    {
        self.orientation
    }

    pub fn pixel_format(&self) -> (r: PixelFormat)
        ensures
            r == self@.pixel_format,
    {
        self.pixel_format
    }

    /// Sets every pixel of both layers to `color`.
    pub fn clear(&mut self, color: Rgb565) -> (r: Result<(), Error>)
        ensures
            r == Ok::<(), Error>(()),
            final(self)@ == old(self)@.with_layer_filled(Layer::Layer1, color).with_layer_filled(
                Layer::Layer2,
                color,
            ),
            final(self)@.wf(),
    {
        proof {
            use_type_invariant(&*self);
        }
        fill(&mut self.framebuffer_l1, color.0);
        fill(&mut self.framebuffer_l2, color.0);
        assert(self@.layer1 =~= Seq::new(old(self)@.layer1.len(), |i: int| color));
        assert(self@.layer2 =~= Seq::new(old(self)@.layer2.len(), |i: int| color));
        Ok(())
    }

    /// The colour at `(x, y)` in the first layer, absent outside the display.
    pub fn get_pixel(&self, x: u16, y: u16) -> (r: Option<Rgb565>)
        ensures
            r == self@.get(Layer::Layer1, x as int, y as int),
    {
        self.get_pixel_from_layer(Layer::Layer1, x, y)
    }

    /// Writes a pixel of the first layer; a write outside the display
    /// changes nothing.
    pub fn set_pixel_unchecked(&mut self, x: u16, y: u16, color: Rgb565)
        ensures
            old(self)@.wf(),
            final(self)@ == old(self)@.with_pixel(Layer::Layer1, x as int, y as int, color),
            final(self)@.wf(),
    {
        self.set_pixel_unchecked_in_layer(Layer::Layer1, x, y, color)
    }

    /// Sets every pixel of one layer to `color`.
    pub fn clear_layer(&mut self, layer: Layer, color: Rgb565)
        ensures
            final(self)@ == old(self)@.with_layer_filled(layer, color),
            final(self)@.wf(),
    {
        proof {
            use_type_invariant(&*self);
        }
        match layer {
            Layer::Layer1 => {
                fill(&mut self.framebuffer_l1, color.0);
                assert(self@.layer1 =~= Seq::new(old(self)@.layer1.len(), |i: int| color));
            },
            Layer::Layer2 => {
                fill(&mut self.framebuffer_l2, color.0);
                assert(self@.layer2 =~= Seq::new(old(self)@.layer2.len(), |i: int| color));
            },
        }
    }

    /// The colour at `(x, y)` in a layer, absent outside the display.
    pub fn get_pixel_from_layer(&self, layer: Layer, x: u16, y: u16) -> (r: Option<Rgb565>)
        ensures
            r == self@.get(layer, x as int, y as int),
    {
        proof {
            use_type_invariant(self);
        }
        if x >= self.width || y >= self.height {
            return None;
        }
        let idx: usize = offset(self.width, self.height, x, y);
        match layer {
            Layer::Layer1 => Some(Rgb565(self.framebuffer_l1[idx])),
            Layer::Layer2 => Some(Rgb565(self.framebuffer_l2[idx])),
        }
    }

    /// Writes a pixel of a layer; a write outside the display changes
    /// nothing.
    pub fn set_pixel_unchecked_in_layer(&mut self, layer: Layer, x: u16, y: u16, color: Rgb565)
        ensures
            old(self)@.wf(),
            final(self)@ == old(self)@.with_pixel(layer, x as int, y as int, color),
            final(self)@.wf(),
    {
        proof {
            use_type_invariant(&*self);
        }
        if x >= self.width || y >= self.height {
            return ;
        }
        let idx: usize = offset(self.width, self.height, x, y);
        match layer {
            Layer::Layer1 => {
                self.framebuffer_l1[idx] = color.0;
                assert(self@.layer1 =~= old(self)@.layer1.update(idx as int, color));
            },
            Layer::Layer2 => {
                self.framebuffer_l2[idx] = color.0;
                assert(self@.layer2 =~= old(self)@.layer2.update(idx as int, color));
            },
        }
    }

    /// The first layer as a binary portable pixmap: the header, then three
    /// bytes for each pixel, row by row.
    pub fn to_ppm(&self) -> (out: Vec<u8>)
        ensures
            out@ == ppm_image(self@),
    {
        proof {
            use_type_invariant(self);
        }
        let mut out: Vec<u8> = Vec::new();
        out.push(0x50);
        out.push(0x36);
        out.push(0x0A);
        push_decimal(&mut out, self.width);
        out.push(0x20);
        push_decimal(&mut out, self.height);
        out.push(0x0A);
        out.push(0x32);
        out.push(0x35);
        out.push(0x35);
        out.push(0x0A);
        assert(out@ =~= ppm_header(self@.width as nat, self@.height as nat));
        let n = self.framebuffer_l1.len();
        let mut i: usize = 0;
        while i < n
            invariant
                i <= n,
                n == self.framebuffer_l1@.len(),
                n == self@.layer1.len(),
                out@ == ppm_header(self@.width as nat, self@.height as nat) + ppm_pixels(self@.layer1.take(i as int)),
            decreases n - i,
        {
            let px: u16 = self.framebuffer_l1[i];
            let r5: u8 = ((px >> 11) & 0x1F) as u8;
            let g6: u8 = ((px >> 5) & 0x3F) as u8;
            let b5: u8 = (px & 0x1F) as u8;
            let r8: u8 = (r5 << 3) | (r5 >> 2);
            let g8: u8 = (g6 << 2) | (g6 >> 4);
            let b8: u8 = (b5 << 3) | (b5 >> 2);
            out.push(r8);
            out.push(g8);
            out.push(b8);
            proof {
                let before = self@.layer1.take(i as int);
                let after = self@.layer1.take(i + 1);
                assert(after =~= before.push(Rgb565(px)));
                lemma_ppm_pixels_push(before, Rgb565(px));
            }
            i += 1;
        }
        assert(self@.layer1.take(n as int) =~= self@.layer1);
        out
    }
}

} // verus!
