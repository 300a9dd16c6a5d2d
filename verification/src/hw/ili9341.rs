//! An ILI9341 panel as a pixel sink.

use vstd::prelude::*;
use crate::display::Rgb565;
use crate::shapes::{record_kept, PixelSink};

verus! {

/// What a panel driver has to offer: a way to set one pixel. Nothing is
/// asked of it beyond that; a write may fail.
pub trait Ili9341Driver {
    type Error;

    fn set_pixel(&mut self, x: u16, y: u16, color: Rgb565) -> Result<(), Self::Error>;
}

/// A panel of `width` by `height` pixels behind a driver.
///
/// A panel cannot be read back, and a write that fails is not reported, as
/// the sink has no way to report it. So the sink keeps a record: `handed`
/// holds every write that was handed to the driver, in order, and
/// `picture` holds, for each pixel, the colour of the last of them: the
/// picture that the panel was asked to show.
pub struct Ili9341Display<D> {
    pub drv: D,
    pub width: u16,
    pub height: u16,
    pub picture: Ghost<Map<(int, int), Rgb565>>,
    pub handed: Ghost<Seq<(u16, u16, Rgb565)>>,
}

impl<D: Ili9341Driver> Ili9341Display<D> {
    /// A panel of the given size behind `drv`, with nothing handed to it
    /// yet.
    pub fn new(drv: D, width: u16, height: u16) -> (r: Self)
        ensures
            r.drv == drv,
            r.width == width,
            r.height == height,
            r.picture@ == Map::<(int, int), Rgb565>::empty(),
            r.handed@ == Seq::<(u16, u16, Rgb565)>::empty(),
    {
        Ili9341Display { drv, width, height, picture: Ghost(Map::empty()), handed: Ghost(Seq::empty()) }
    }
}

impl<D: Ili9341Driver> PixelSink for Ili9341Display<D> {
    open spec fn dims(&self) -> (u16, u16) {
        (self.width, self.height)
    }

    open spec fn pixel(&self, x: int, y: int) -> Rgb565 {
        self.picture@[(x, y)]
    }

    open spec fn records(&self) -> bool {
        true
    }

    open spec fn handed(&self) -> Seq<(u16, u16, Rgb565)> {
        self.handed@
    }

    /// Of what the driver was handed nothing is taken back: the record
    /// only grows.
    open spec fn rest_unchanged(&self, later: &Self) -> bool {
        record_kept(self.handed@, later.handed@)
    }

    proof fn rest_unchanged_reflexive(&self) {
    }

    proof fn rest_unchanged_transitive(&self, mid: &Self, later: &Self) {
    }

    fn size(&self) -> (r: (u16, u16)) {
        (self.width, self.height)
    }

    /// Hands the write to the driver, whatever it is, and notes it.
    fn set_pixel(&mut self, x: u16, y: u16, color: Rgb565) {
        let _ = self.drv.set_pixel(x, y, color);
        proof {
            self.picture@ = self.picture@.insert((x as int, y as int), color);
            self.handed@ = self.handed@.push((x, y, color));
        }
    }
}

} // verus!
