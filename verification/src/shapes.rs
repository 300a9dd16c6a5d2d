//! Outlines of rectangles and triangles, drawn through any pixel sink and
//! clipped to it.

use vstd::prelude::*;
use crate::display::{Display, Error, Layer, Rgb565};
use crate::line::{
    distance, lemma_line_point_between, lemma_on_track_point, lemma_on_track_start,
    lemma_on_track_step, line_point, line_steps, on_track, toward,
};

verus! {

/// Whether `(x, y)` is a pixel of a surface of the given size.
pub open spec fn on_surface(dims: (u16, u16), x: int, y: int) -> bool {
    0 <= x < dims.0 && 0 <= y < dims.1
}

/// Whether `region` holds no pixel of a surface of the given size.
pub open spec fn misses_surface(region: spec_fn(int, int) -> bool, dims: (u16, u16)) -> bool {
    forall|x: int, y: int| #[trigger] on_surface(dims, x, y) ==> !region(x, y)
}

/// A record that has only grown: `after` starts with the entries of
/// `before`.
pub open spec fn record_kept<W>(before: Seq<W>, after: Seq<W>) -> bool {
    &&& before.len() <= after.len()
    &&& forall|i: int| 0 <= i < before.len() ==> #[trigger] after[i] == before[i]
}

/// Anything that has a size and takes pixels: a framebuffer, a panel driver.
///
/// A sink is seen as a surface of `dims()` pixels, each with a colour, and
/// whatever else it holds. A write changes one pixel of the surface, or
/// nothing when it falls outside. A sink for which a write is more than a
/// change of its picture, such as a panel behind a bus, keeps a record of
/// the writes that it was handed; a sink whose picture is all there is to a
/// write keeps none.
pub trait PixelSink: Sized {
    /// Width and height of the surface.
    spec fn dims(&self) -> (u16, u16);

    /// The colour at `(x, y)` of the surface.
    spec fn pixel(&self, x: int, y: int) -> Rgb565;

    /// Whether the sink keeps a record of the writes that it is handed.
    spec fn records(&self) -> bool;

    /// The writes that the sink was handed, in order, where it keeps a
    /// record: where each went, on the surface or off it, and in what
    /// colour.
    spec fn handed(&self) -> Seq<(u16, u16, Rgb565)>;

    /// `later` holds, apart from its surface, what `self` holds.
    spec fn rest_unchanged(&self, later: &Self) -> bool;

    /// A sink holds what it holds.
    proof fn rest_unchanged_reflexive(&self)
        ensures
            self.rest_unchanged(self),
    ;

    /// What is unchanged over each of two steps is unchanged over both.
    proof fn rest_unchanged_transitive(&self, mid: &Self, later: &Self)
        requires
            self.rest_unchanged(mid),
            mid.rest_unchanged(later),
        ensures
            self.rest_unchanged(later),
    ;

    /// Width and height of the surface.
    fn size(&self) -> (r: (u16, u16))
        ensures
            r == self.dims(),
    ;

    /// Sets the pixel at `(x, y)` to `color`. Every other pixel, the size
    /// and the rest stay as they are; a write outside the surface changes
    /// no pixel of it. Where a record is kept, the write is its new last
    /// entry.
    fn set_pixel(&mut self, x: u16, y: u16, color: Rgb565)
        ensures
            final(self).dims() == old(self).dims(),
            old(self).rest_unchanged(final(self)),
            final(self).records() == old(self).records(),
            final(self).handed() == if old(self).records() {
                old(self).handed().push((x, y, color))
            } else {
                old(self).handed()
            },
            forall|px: int, py: int|
                0 <= px < old(self).dims().0 && 0 <= py < old(self).dims().1
                    ==> #[trigger] final(self).pixel(px, py) == if px == x && py == y {
                    color
                } else {
                    old(self).pixel(px, py)
                },
    ;
}

/// `after` is `before` with the pixels of `region` that lie on the surface
/// set to `color`, and nothing else changed. Every write that the sink was
/// handed on the way went to a pixel of the surface that `region` holds, in
/// that colour; and where `region` holds no pixel of the surface, the sink
/// was handed nothing and is as it was.
pub open spec fn painted<S: PixelSink>(
    before: &S,
    after: &S,
    region: spec_fn(int, int) -> bool,
    color: Rgb565,
) -> bool {
    &&& after.dims() == before.dims()
    &&& before.rest_unchanged(after)
    &&& after.records() == before.records()
    &&& record_kept(before.handed(), after.handed())
    &&& forall|i: int|
        #![trigger after.handed()[i]]
        before.handed().len() <= i < after.handed().len() ==> {
            &&& on_surface(before.dims(), after.handed()[i].0 as int, after.handed()[i].1 as int)
            &&& region(after.handed()[i].0 as int, after.handed()[i].1 as int)
            &&& after.handed()[i].2 == color
        }
    &&& misses_surface(region, before.dims()) ==> after == before
    &&& forall|x: int, y: int|
        0 <= x < before.dims().0 && 0 <= y < before.dims().1 ==> #[trigger] after.pixel(x, y) == if region(
            x,
            y,
        ) {
            color
        } else {
            before.pixel(x, y)
        }
}

/// A sink with layers: each layer is a surface of `dims()` pixels. As for
/// a plain sink, it may keep a record of the writes that it was handed.
pub trait PixelSinkLayers: Sized {
    /// Width and height of each layer.
    spec fn dims(&self) -> (u16, u16);

    /// The colour at `(x, y)` of a layer.
    spec fn pixel_in_layer(&self, layer: Layer, x: int, y: int) -> Rgb565;

    /// Whether the sink keeps a record of the writes that it is handed.
    spec fn records(&self) -> bool;

    /// The writes that the sink was handed, in order, where it keeps a
    /// record: into which layer each went, where, and in what colour.
    spec fn handed(&self) -> Seq<(Layer, u16, u16, Rgb565)>;

    /// `later` holds, apart from its layers, what `self` holds.
    spec fn rest_unchanged(&self, later: &Self) -> bool;

    /// A sink holds what it holds.
    proof fn rest_unchanged_reflexive(&self)
        ensures
            self.rest_unchanged(self),
    ;

    /// What is unchanged over each of two steps is unchanged over both.
    proof fn rest_unchanged_transitive(&self, mid: &Self, later: &Self)
        requires
            self.rest_unchanged(mid),
            mid.rest_unchanged(later),
        ensures
            self.rest_unchanged(later),
    ;

    /// Width and height of each layer.
    fn size(&self) -> (r: (u16, u16))
        ensures
            r == self.dims(),
    ;

    /// Sets the pixel at `(x, y)` of `layer` to `color`. Every other pixel
    /// of every layer, the size and the rest stay as they are; a write
    /// outside the surface changes no pixel of it. Where a record is kept,
    /// the write is its new last entry.
    fn set_pixel_in_layer(&mut self, layer: Layer, x: u16, y: u16, color: Rgb565)
        ensures
            final(self).dims() == old(self).dims(),
            old(self).rest_unchanged(final(self)),
            final(self).records() == old(self).records(),
            final(self).handed() == if old(self).records() {
                old(self).handed().push((layer, x, y, color))
            } else {
                old(self).handed()
            },
            forall|l: Layer, px: int, py: int|
                0 <= px < old(self).dims().0 && 0 <= py < old(self).dims().1
                    ==> #[trigger] final(self).pixel_in_layer(l, px, py) == if l == layer && px == x
                    && py == y {
                    color
                } else {
                    old(self).pixel_in_layer(l, px, py)
                },
    ;
}

/// `after` is `before` with the pixels of `region` that lie on the surface
/// set to `color` in `layer`, and nothing else changed, in any layer. Every
/// write that the sink was handed on the way went into `layer`, to a pixel
/// of the surface that `region` holds, in that colour; and where `region`
/// holds no pixel of the surface, the sink was handed nothing and is as it
/// was.
pub open spec fn painted_in_layer<S: PixelSinkLayers>(
    before: &S,
    after: &S,
    layer: Layer,
    region: spec_fn(int, int) -> bool,
    color: Rgb565,
) -> bool {
    &&& after.dims() == before.dims()
    &&& before.rest_unchanged(after)
    &&& after.records() == before.records()
    &&& record_kept(before.handed(), after.handed())
    &&& forall|i: int|
        #![trigger after.handed()[i]]
        before.handed().len() <= i < after.handed().len() ==> {
            &&& after.handed()[i].0 == layer
            &&& on_surface(before.dims(), after.handed()[i].1 as int, after.handed()[i].2 as int)
            &&& region(after.handed()[i].1 as int, after.handed()[i].2 as int)
            &&& after.handed()[i].3 == color
        }
    &&& misses_surface(region, before.dims()) ==> after == before
    &&& forall|l: Layer, x: int, y: int|
        0 <= x < before.dims().0 && 0 <= y < before.dims().1 ==> #[trigger] after.pixel_in_layer(
            l,
            x,
            y,
        ) == if l == layer && region(x, y) {
            color
        } else {
            before.pixel_in_layer(l, x, y)
        }
}

impl PixelSink for Display {
    open spec fn dims(&self) -> (u16, u16) {
        (self@.width, self@.height)
    }

    open spec fn pixel(&self, x: int, y: int) -> Rgb565 {
        self@.layer1[crate::display::pixel_index(self@.width as int, x, y)]
    }

    /// A framebuffer shows all that it was handed: it keeps no record.
    open spec fn records(&self) -> bool {
        false
    }

    open spec fn handed(&self) -> Seq<(u16, u16, Rgb565)> {
        Seq::empty()
    }

    open spec fn rest_unchanged(&self, later: &Self) -> bool {
        &&& later@.orientation == self@.orientation
        &&& later@.pixel_format == self@.pixel_format
        &&& later@.layer2 == self@.layer2
        &&& later@.layer1.len() == self@.layer1.len()
    }

    proof fn rest_unchanged_reflexive(&self) {
    }

    proof fn rest_unchanged_transitive(&self, mid: &Self, later: &Self) {
    }

    fn size(&self) -> (r: (u16, u16)) {
        Display::size(self)
    }

    fn set_pixel(&mut self, x: u16, y: u16, color: Rgb565) {
        self.set_pixel_unchecked(x, y, color);
        proof {
            let w = old(self)@.width as int;
            assert forall|px: int, py: int| 0 <= px < w && 0 <= py < old(self)@.height implies #[trigger] self.pixel(
                px,
                py,
            ) == if px == x && py == y {
                color
            } else {
                old(self).pixel(px, py)
            } by {
                crate::display::lemma_pixel_index_in_range(w, old(self)@.height as int, px, py);
                if x < w && y < old(self)@.height {
                    crate::display::lemma_pixel_index_in_range(
                        w,
                        old(self)@.height as int,
                        x as int,
                        y as int,
                    );
                    if !(px == x && py == y) {
                        if crate::display::pixel_index(w, px, py) == crate::display::pixel_index(
                            w,
                            x as int,
                            y as int,
                        ) {
                            crate::display::lemma_pixel_index_injective(w, px, py, x as int, y as int);
                        }
                    }
                }
            }
        }
    }
}

impl PixelSinkLayers for Display {
    open spec fn dims(&self) -> (u16, u16) {
        (self@.width, self@.height)
    }

    open spec fn pixel_in_layer(&self, layer: Layer, x: int, y: int) -> Rgb565 {
        self@.layer(layer)[crate::display::pixel_index(self@.width as int, x, y)]
    }

    /// A framebuffer shows all that it was handed: it keeps no record.
    open spec fn records(&self) -> bool {
        false
    }

    open spec fn handed(&self) -> Seq<(Layer, u16, u16, Rgb565)> {
        Seq::empty()
    }

    open spec fn rest_unchanged(&self, later: &Self) -> bool {
        &&& later@.orientation == self@.orientation
        &&& later@.pixel_format == self@.pixel_format
        &&& later@.layer1.len() == self@.layer1.len()
        &&& later@.layer2.len() == self@.layer2.len()
    }

    proof fn rest_unchanged_reflexive(&self) {
    }

    proof fn rest_unchanged_transitive(&self, mid: &Self, later: &Self) {
    }

    fn size(&self) -> (r: (u16, u16)) {
        Display::size(self)
    }

    fn set_pixel_in_layer(&mut self, layer: Layer, x: u16, y: u16, color: Rgb565) {
        self.set_pixel_unchecked_in_layer(layer, x, y, color);
        proof {
            let w = old(self)@.width as int;
            let h = old(self)@.height as int;
            assert forall|l: Layer, px: int, py: int| 0 <= px < w && 0 <= py < h implies #[trigger] self.pixel_in_layer(
                l,
                px,
                py,
            ) == if l == layer && px == x && py == y {
                color
            } else {
                old(self).pixel_in_layer(l, px, py)
            } by {
                crate::display::lemma_pixel_index_in_range(w, h, px, py);
                if x < w && y < h {
                    crate::display::lemma_pixel_index_in_range(w, h, x as int, y as int);
                    if !(px == x && py == y) {
                        if crate::display::pixel_index(w, px, py) == crate::display::pixel_index(
                            w,
                            x as int,
                            y as int,
                        ) {
                            crate::display::lemma_pixel_index_injective(w, px, py, x as int, y as int);
                        }
                    }
                }
            }
        }
    }
}

#[derive(Copy, Clone, Debug, PartialEq, Eq, Structural)]
pub struct Point {
    pub x: i32,
    pub y: i32,
}

#[derive(Copy, Clone, Debug, PartialEq, Eq, Structural)]
pub struct Rect {
    pub x: i32,
    pub y: i32,
    pub width: u16,
    pub height: u16,
}

#[derive(Copy, Clone, Debug, PartialEq, Eq, Structural)]
pub struct Triangle {
    pub a: Point,
    pub b: Point,
    pub c: Point,
}

/// A way to write into a sink of type `S`: into the sink as it is, or into
/// one layer of it. The rasteriser is written once, against this. A pen is
/// handed over beside the sink and does not hold it: the sink stays the
/// caller's, and what is proved of it is proved of the caller's sink.
trait Pen<S, W> {
    spec fn dims(&self, sink: &S) -> (u16, u16);

    spec fn pixel(&self, sink: &S, x: int, y: int) -> Rgb565;

    /// Whether the sink keeps a record of its writes.
    spec fn records(&self, sink: &S) -> bool;

    /// The sink's record of its writes.
    spec fn record(&self, sink: &S) -> Seq<W>;

    /// The entry that a write of this pen makes in the record.
    spec fn entry(&self, x: u16, y: u16, color: Rgb565) -> W;

    /// Where the write of an entry went.
    spec fn spot(&self, w: W) -> (u16, u16);

    /// An entry tells where its write went.
    proof fn spot_of_entry(&self, x: u16, y: u16, color: Rgb565)
        ensures
            self.spot(self.entry(x, y, color)) == (x, y),
    ;

    /// `after` has the size of `before` and holds, apart from the surface
    /// that this pen writes to, what `before` holds.
    spec fn elsewhere_unchanged(&self, before: &S, after: &S) -> bool;

    proof fn elsewhere_unchanged_reflexive(&self, sink: &S)
        ensures
            self.elsewhere_unchanged(sink, sink),
    ;

    proof fn elsewhere_unchanged_transitive(&self, before: &S, mid: &S, after: &S)
        requires
            self.elsewhere_unchanged(before, mid),
            self.elsewhere_unchanged(mid, after),
        ensures
            self.elsewhere_unchanged(before, after),
    ;

    fn extent(&self, sink: &S) -> (r: (u16, u16))
        ensures
            r == self.dims(sink),
    ;

    /// Writes one pixel of the surface. The rasteriser clips before it
    /// writes: a write off the surface is not asked for.
    fn put(&self, sink: &mut S, x: u16, y: u16, color: Rgb565)
        requires
            x < self.dims(old(sink)).0,
            y < self.dims(old(sink)).1,
        ensures
            self.dims(final(sink)) == self.dims(old(sink)),
            self.elsewhere_unchanged(old(sink), final(sink)),
            self.records(final(sink)) == self.records(old(sink)),
            self.record(final(sink)) == if self.records(old(sink)) {
                self.record(old(sink)).push(self.entry(x, y, color))
            } else {
                self.record(old(sink))
            },
            forall|px: int, py: int|
                0 <= px < self.dims(old(sink)).0 && 0 <= py < self.dims(old(sink)).1
                    ==> #[trigger] self.pixel(final(sink), px, py) == if px == x && py == y {
                    color
                } else {
                    self.pixel(old(sink), px, py)
                },
    ;
}

/// Whether an entry of the record is a write of this pen, in `color`, to a
/// pixel of the surface that `region` holds.
spec fn entry_within<S, W, P: Pen<S, W>>(
    pen: &P,
    dims: (u16, u16),
    region: spec_fn(int, int) -> bool,
    color: Rgb565,
    w: W,
) -> bool {
    &&& on_surface(dims, pen.spot(w).0 as int, pen.spot(w).1 as int)
    &&& region(pen.spot(w).0 as int, pen.spot(w).1 as int)
    &&& w == pen.entry(pen.spot(w).0, pen.spot(w).1, color)
}

/// `after` is `before` with the pixels of `region` that lie on the pen's
/// surface set to `color`, and nothing else changed. Every write on the way
/// was one of this pen to a pixel of the surface that `region` holds; and
/// where `region` holds no pixel of the surface, the sink is as it was.
spec fn inked<S, W, P: Pen<S, W>>(
    pen: &P,
    before: &S,
    after: &S,
    region: spec_fn(int, int) -> bool,
    color: Rgb565,
) -> bool {
    &&& pen.dims(after) == pen.dims(before)
    &&& pen.elsewhere_unchanged(before, after)
    &&& pen.records(after) == pen.records(before)
    &&& record_kept(pen.record(before), pen.record(after))
    &&& forall|i: int|
        pen.record(before).len() <= i < pen.record(after).len() ==> entry_within(
            pen,
            pen.dims(before),
            region,
            color,
            #[trigger] pen.record(after)[i],
        )
    &&& misses_surface(region, pen.dims(before)) ==> after == before
    &&& forall|x: int, y: int|
        0 <= x < pen.dims(before).0 && 0 <= y < pen.dims(before).1 ==> #[trigger] pen.pixel(after, x, y)
            == if region(x, y) {
            color
        } else {
            pen.pixel(before, x, y)
        }
}

/// The pen that writes into a sink as it is.
struct Direct;

impl<S: PixelSink> Pen<S, (u16, u16, Rgb565)> for Direct {
    spec fn dims(&self, sink: &S) -> (u16, u16) {
        sink.dims()
    }

    spec fn pixel(&self, sink: &S, x: int, y: int) -> Rgb565 {
        sink.pixel(x, y)
    }

    spec fn records(&self, sink: &S) -> bool {
        sink.records()
    }

    spec fn record(&self, sink: &S) -> Seq<(u16, u16, Rgb565)> {
        sink.handed()
    }

    spec fn entry(&self, x: u16, y: u16, color: Rgb565) -> (u16, u16, Rgb565) {
        (x, y, color)
    }

    spec fn spot(&self, w: (u16, u16, Rgb565)) -> (u16, u16) {
        (w.0, w.1)
    }

    proof fn spot_of_entry(&self, x: u16, y: u16, color: Rgb565) {
    }

    spec fn elsewhere_unchanged(&self, before: &S, after: &S) -> bool {
        before.rest_unchanged(after)
    }

    proof fn elsewhere_unchanged_reflexive(&self, sink: &S) {
        sink.rest_unchanged_reflexive();
    }

    proof fn elsewhere_unchanged_transitive(&self, before: &S, mid: &S, after: &S) {
        before.rest_unchanged_transitive(mid, after);
    }

    fn extent(&self, sink: &S) -> (r: (u16, u16)) {
        sink.size()
    }

    fn put(&self, sink: &mut S, x: u16, y: u16, color: Rgb565) {
        sink.set_pixel(x, y, color)
    }
}

/// The pen that writes into one layer of a layered sink.
struct OnLayer(Layer);

impl<S: PixelSinkLayers> Pen<S, (Layer, u16, u16, Rgb565)> for OnLayer {
    spec fn dims(&self, sink: &S) -> (u16, u16) {
        sink.dims()
    }

    spec fn pixel(&self, sink: &S, x: int, y: int) -> Rgb565 {
        sink.pixel_in_layer(self.0, x, y)
    }

    spec fn records(&self, sink: &S) -> bool {
        sink.records()
    }

    spec fn record(&self, sink: &S) -> Seq<(Layer, u16, u16, Rgb565)> {
        sink.handed()
    }

    spec fn entry(&self, x: u16, y: u16, color: Rgb565) -> (Layer, u16, u16, Rgb565) {
        (self.0, x, y, color)
    }

    spec fn spot(&self, w: (Layer, u16, u16, Rgb565)) -> (u16, u16) {
        (w.1, w.2)
    }

    proof fn spot_of_entry(&self, x: u16, y: u16, color: Rgb565) {
    }

    spec fn elsewhere_unchanged(&self, before: &S, after: &S) -> bool {
        &&& after.dims() == before.dims()
        &&& before.rest_unchanged(after)
        &&& forall|l: Layer, x: int, y: int|
            l != self.0 && 0 <= x < before.dims().0 && 0 <= y < before.dims().1
                ==> #[trigger] after.pixel_in_layer(l, x, y) == before.pixel_in_layer(l, x, y)
    }

    proof fn elsewhere_unchanged_reflexive(&self, sink: &S) {
        sink.rest_unchanged_reflexive();
    }

    proof fn elsewhere_unchanged_transitive(&self, before: &S, mid: &S, after: &S) {
        before.rest_unchanged_transitive(mid, after);
    }

    fn extent(&self, sink: &S) -> (r: (u16, u16)) {
        sink.size()
    }

    fn put(&self, sink: &mut S, x: u16, y: u16, color: Rgb565) {
        sink.set_pixel_in_layer(self.0, x, y, color)
    }
}

/// What the direct pen reads is what the sink shows, and its record is the
/// sink's.
proof fn lemma_direct_pen<S: PixelSink>(pen: &Direct, before: &S, after: &S)
    ensures
        pen.dims(before) == before.dims(),
        pen.dims(after) == after.dims(),
        pen.elsewhere_unchanged(before, after) == before.rest_unchanged(after),
        Pen::<S, (u16, u16, Rgb565)>::records(pen, before) == before.records(),
        Pen::<S, (u16, u16, Rgb565)>::records(pen, after) == after.records(),
        Pen::<S, (u16, u16, Rgb565)>::record(pen, before) == before.handed(),
        Pen::<S, (u16, u16, Rgb565)>::record(pen, after) == after.handed(),
        forall|w: (u16, u16, Rgb565)| #[trigger]
            Pen::<S, (u16, u16, Rgb565)>::spot(pen, w) == (w.0, w.1),
        forall|x: u16, y: u16, c: Rgb565| #[trigger]
            Pen::<S, (u16, u16, Rgb565)>::entry(pen, x, y, c) == (x, y, c),
        forall|x: int, y: int| #[trigger] after.pixel(x, y) == pen.pixel(after, x, y),
        forall|x: int, y: int| #[trigger] pen.pixel(before, x, y) == before.pixel(x, y),
{
}

/// What a layer's pen reads is what the sink shows in that layer, and its
/// record is the sink's.
proof fn lemma_layer_pen<S: PixelSinkLayers>(pen: &OnLayer, before: &S, after: &S)
    ensures
        pen.dims(before) == before.dims(),
        pen.dims(after) == after.dims(),
        Pen::<S, (Layer, u16, u16, Rgb565)>::records(pen, before) == before.records(),
        Pen::<S, (Layer, u16, u16, Rgb565)>::records(pen, after) == after.records(),
        Pen::<S, (Layer, u16, u16, Rgb565)>::record(pen, before) == before.handed(),
        Pen::<S, (Layer, u16, u16, Rgb565)>::record(pen, after) == after.handed(),
        forall|w: (Layer, u16, u16, Rgb565)| #[trigger]
            Pen::<S, (Layer, u16, u16, Rgb565)>::spot(pen, w) == (w.1, w.2),
        forall|x: u16, y: u16, c: Rgb565| #[trigger]
            Pen::<S, (Layer, u16, u16, Rgb565)>::entry(pen, x, y, c) == (pen.0, x, y, c),
        pen.elsewhere_unchanged(before, after) ==> before.rest_unchanged(after),
        pen.elsewhere_unchanged(before, after) ==> forall|l: Layer, x: int, y: int|
            l != pen.0 && 0 <= x < before.dims().0 && 0 <= y < before.dims().1
                ==> #[trigger] after.pixel_in_layer(l, x, y) == before.pixel_in_layer(l, x, y),
        forall|x: int, y: int| #[trigger]
            after.pixel_in_layer(pen.0, x, y) == pen.pixel(after, x, y),
        forall|x: int, y: int| #[trigger] pen.pixel(before, x, y) == before.pixel_in_layer(pen.0, x, y),
{
}

/// The entries of the direct pen are the writes themselves.
proof fn lemma_direct_stream<S: PixelSink>(pen: &Direct, cells: Seq<(int, int)>, color: Rgb565)
    ensures
        stream::<S, (u16, u16, Rgb565), Direct>(pen, cells, color) == writes_of(cells, color),
{
    assert(stream::<S, (u16, u16, Rgb565), Direct>(pen, cells, color) =~= writes_of(cells, color));
}

/// The entries of a layer's pen are the writes into its layer.
proof fn lemma_layer_stream<S: PixelSinkLayers>(pen: &OnLayer, cells: Seq<(int, int)>, color: Rgb565)
    ensures
        stream::<S, (Layer, u16, u16, Rgb565), OnLayer>(pen, cells, color) == layer_writes_of(
            cells,
            pen.0,
            color,
        ),
{
    assert(stream::<S, (Layer, u16, u16, Rgb565), OnLayer>(pen, cells, color) =~= layer_writes_of(
        cells,
        pen.0,
        color,
    ));
}

/// Whether `(px, py)` lies in the `w` by `h` block of pixels whose top left
/// corner is `(x, y)`.
pub open spec fn span_covers(x: int, y: int, w: int, h: int, px: int, py: int) -> bool {
    x <= px < x + w && y <= py < y + h
}

/// The pixels of row `y` from `x0` up to `x1`, `x1` left out, from left to
/// right.
pub open spec fn row_cells(x0: int, x1: int, y: int) -> Seq<(int, int)> {
    if x1 <= x0 {
        Seq::empty()
    } else {
        Seq::new((x1 - x0) as nat, |i: int| (x0 + i, y))
    }
}

/// The pixels of `rows` rows from row `y0` down, each from `x0` up to `x1`:
/// row by row, each row from left to right.
pub open spec fn rows_cells(x0: int, x1: int, y0: int, rows: nat) -> Seq<(int, int)>
    decreases rows,
{
    if rows == 0 {
        Seq::empty()
    } else {
        rows_cells(x0, x1, y0, (rows - 1) as nat) + row_cells(x0, x1, y0 + rows - 1)
    }
}

/// The pixels of the `w` by `h` block at `(x, y)` that lie on a surface of
/// the given size, in the order in which they are written: row by row from
/// the top, each row from left to right.
pub open spec fn span_cells(x: int, y: int, w: int, h: int, dims: (u16, u16)) -> Seq<(int, int)> {
    let x0 = if x > 0 { x } else { 0 };
    let y0 = if y > 0 { y } else { 0 };
    let x1 = if x + w < dims.0 { x + w } else { dims.0 as int };
    let y1 = if y + h < dims.1 { y + h } else { dims.1 as int };
    if x0 >= x1 || y0 >= y1 {
        Seq::empty()
    } else {
        rows_cells(x0, x1, y0, (y1 - y0) as nat)
    }
}

/// The writes that set the given pixels to `color`, one after the other.
pub open spec fn writes_of(cells: Seq<(int, int)>, color: Rgb565) -> Seq<(u16, u16, Rgb565)> {
    Seq::new(cells.len(), |i: int| (cells[i].0 as u16, cells[i].1 as u16, color))
}

/// The writes that set the given pixels of `layer` to `color`, one after
/// the other.
pub open spec fn layer_writes_of(cells: Seq<(int, int)>, layer: Layer, color: Rgb565) -> Seq<
    (Layer, u16, u16, Rgb565),
> {
    Seq::new(cells.len(), |i: int| (layer, cells[i].0 as u16, cells[i].1 as u16, color))
}

/// The entries that the writes of the given pixels make in a pen's record.
spec fn stream<S, W, P: Pen<S, W>>(pen: &P, cells: Seq<(int, int)>, color: Rgb565) -> Seq<W> {
    Seq::new(cells.len(), |i: int| pen.entry(cells[i].0 as u16, cells[i].1 as u16, color))
}

/// Where the sink keeps a record, the record of `after` is that of
/// `before` and then one write for each of `cells`, in order.
spec fn streamed<S, W, P: Pen<S, W>>(
    pen: &P,
    before: &S,
    after: &S,
    cells: Seq<(int, int)>,
    color: Rgb565,
) -> bool {
    pen.records(before) ==> pen.record(after) == pen.record(before) + stream(pen, cells, color)
}

/// The writes of pixels one after the other are the writes of the first and
/// then those of the second.
proof fn lemma_stream_join<S, W, P: Pen<S, W>>(
    pen: &P,
    first: Seq<(int, int)>,
    second: Seq<(int, int)>,
    color: Rgb565,
)
    ensures
        stream(pen, first + second, color) == stream(pen, first, color) + stream(pen, second, color),
        stream(pen, Seq::<(int, int)>::empty(), color) == Seq::<W>::empty(),
{
    assert(stream(pen, first + second, color) =~= stream(pen, first, color) + stream(pen, second, color));
    assert(stream(pen, Seq::<(int, int)>::empty(), color) =~= Seq::<W>::empty());
}

/// One stroke after another: where the record grew by the writes of
/// `first` and then by those of `second`, it grew by those of both.
proof fn lemma_streamed_then<S, W, P: Pen<S, W>>(
    pen: &P,
    s0: &S,
    s1: &S,
    s2: &S,
    first: Seq<(int, int)>,
    second: Seq<(int, int)>,
    color: Rgb565,
)
    requires
        streamed(pen, s0, s1, first, color),
        streamed(pen, s1, s2, second, color),
        pen.records(s1) == pen.records(s0),
    ensures
        streamed(pen, s0, s2, first + second, color),
{
    lemma_stream_join(pen, first, second, color);
    if pen.records(s0) {
        assert(pen.record(s2) =~= pen.record(s0) + stream(pen, first + second, color));
    }
}

/// A sink that was handed nothing has a record grown by no write.
proof fn lemma_streamed_nothing<S, W, P: Pen<S, W>>(pen: &P, sink: &S, color: Rgb565)
    ensures
        streamed(pen, sink, sink, Seq::<(int, int)>::empty(), color),
{
    lemma_stream_join(pen, Seq::empty(), Seq::empty(), color);
    assert(pen.record(sink) + Seq::<W>::empty() =~= pen.record(sink));
}

/// Fills the block of `w` by `h` pixels at `(x, y)`, as far as it lies on
/// the pen's surface: the block is clipped first, and only pixels of the
/// surface are written, row by row.
fn fill_span_rect<S, W, P: Pen<S, W>>(
    pen: &P,
    disp: &mut S,
    x: i64,
    y: i64,
    w: u16,
    h: u16,
    color: Rgb565,
)
    requires
        -0x1_0000_0000 <= x <= 0x1_0000_0000,
        -0x1_0000_0000 <= y <= 0x1_0000_0000,
    ensures
        inked(
            pen,
            old(disp),
            final(disp),
            |px: int, py: int| span_covers(x as int, y as int, w as int, h as int, px, py),
            color,
        ),
        streamed(
            pen,
            old(disp),
            final(disp),
            span_cells(x as int, y as int, w as int, h as int, pen.dims(old(disp))),
            color,
        ),
{
    proof {
        pen.elsewhere_unchanged_reflexive(&*disp);
        lemma_stream_join(pen, Seq::empty(), Seq::empty(), color);
        assert(pen.record(&*disp) + Seq::<W>::empty() =~= pen.record(&*disp));
    }
    if w == 0 || h == 0 {
        return ;
    }
    let (dw, dh) = pen.extent(&*disp);
    let x0: i64 = if x > 0 { x } else { 0 };
    let y0: i64 = if y > 0 { y } else { 0 };
    let x1: i64 = if x + (w as i64) < dw as i64 { x + w as i64 } else { dw as i64 };
    let y1: i64 = if y + (h as i64) < dh as i64 { y + h as i64 } else { dh as i64 };
    if x0 >= x1 || y0 >= y1 {
        return ;
    }
    let mut yy: i64 = y0;
    while yy < y1
        invariant
            0 <= x0 < x1 <= dw,
            0 <= y0 <= yy <= y1 <= dh,
            x0 == if x > 0 { x } else { 0 },
            y0 == if y > 0 { y } else { 0 },
            x1 == if x + w < dw { x + w } else { dw as int },
            y1 == if y + h < dh { y + h } else { dh as int },
            pen.dims(old(disp)) == (dw, dh),
            pen.dims(&*disp) == (dw, dh),
            pen.elsewhere_unchanged(old(disp), &*disp),
            pen.records(&*disp) == pen.records(old(disp)),
            record_kept(pen.record(old(disp)), pen.record(&*disp)),
            streamed(pen, old(disp), &*disp, rows_cells(x0 as int, x1 as int, y0 as int, (yy - y0) as nat), color),
            forall|i: int|
                pen.record(old(disp)).len() <= i < pen.record(&*disp).len() ==> {
                    let e = #[trigger] pen.record(&*disp)[i];
                    &&& on_surface((dw, dh), pen.spot(e).0 as int, pen.spot(e).1 as int)
                    &&& span_covers(
                        x as int,
                        y as int,
                        w as int,
                        h as int,
                        pen.spot(e).0 as int,
                        pen.spot(e).1 as int,
                    )
                    &&& e == pen.entry(pen.spot(e).0, pen.spot(e).1, color)
                },
            forall|px: int, py: int|
                0 <= px < dw && 0 <= py < dh ==> #[trigger] pen.pixel(&*disp, px, py) == if span_covers(
                    x as int,
                    y as int,
                    w as int,
                    h as int,
                    px,
                    py,
                ) && py < yy {
                    color
                } else {
                    pen.pixel(old(disp), px, py)
                },
        decreases y1 - yy,
    {
        let mut xx: i64 = x0;
        proof {
            let done = rows_cells(x0 as int, x1 as int, y0 as int, (yy - y0) as nat);
            assert(done + row_cells(x0 as int, x0 as int, yy as int) =~= done);
        }
        while xx < x1
            invariant
                0 <= x0 <= xx <= x1 <= dw,
                0 <= y0 <= yy < y1 <= dh,
                x0 == if x > 0 { x } else { 0 },
                y0 == if y > 0 { y } else { 0 },
                x1 == if x + w < dw { x + w } else { dw as int },
                y1 == if y + h < dh { y + h } else { dh as int },
                pen.dims(old(disp)) == (dw, dh),
                pen.dims(&*disp) == (dw, dh),
                pen.elsewhere_unchanged(old(disp), &*disp),
                pen.records(&*disp) == pen.records(old(disp)),
                record_kept(pen.record(old(disp)), pen.record(&*disp)),
                streamed(
                    pen,
                    old(disp),
                    &*disp,
                    rows_cells(x0 as int, x1 as int, y0 as int, (yy - y0) as nat) + row_cells(
                        x0 as int,
                        xx as int,
                        yy as int,
                    ),
                    color,
                ),
                forall|i: int|
                    pen.record(old(disp)).len() <= i < pen.record(&*disp).len() ==> {
                        let e = #[trigger] pen.record(&*disp)[i];
                        &&& on_surface((dw, dh), pen.spot(e).0 as int, pen.spot(e).1 as int)
                        &&& span_covers(
                            x as int,
                            y as int,
                            w as int,
                            h as int,
                            pen.spot(e).0 as int,
                            pen.spot(e).1 as int,
                        )
                        &&& e == pen.entry(pen.spot(e).0, pen.spot(e).1, color)
                    },
                forall|px: int, py: int|
                    0 <= px < dw && 0 <= py < dh ==> #[trigger] pen.pixel(&*disp, px, py)
                        == if span_covers(x as int, y as int, w as int, h as int, px, py) && (py < yy || (py
                        == yy && px < xx)) {
                        color
                    } else {
                        pen.pixel(old(disp), px, py)
                    },
            decreases x1 - xx,
        {
            let ghost prev = *disp;
            pen.put(disp, xx as u16, yy as u16, color);
            proof {
                pen.elsewhere_unchanged_transitive(old(disp), &prev, &*disp);
                pen.spot_of_entry(xx as u16, yy as u16, color);
                assert forall|i: int|
                    pen.record(old(disp)).len() <= i < pen.record(&*disp).len() implies {
                    let e = #[trigger] pen.record(&*disp)[i];
                    &&& on_surface((dw, dh), pen.spot(e).0 as int, pen.spot(e).1 as int)
                    &&& span_covers(
                        x as int,
                        y as int,
                        w as int,
                        h as int,
                        pen.spot(e).0 as int,
                        pen.spot(e).1 as int,
                    )
                    &&& e == pen.entry(pen.spot(e).0, pen.spot(e).1, color)
                } by {
                    if i < pen.record(&prev).len() {
                        assert(pen.record(&*disp)[i] == pen.record(&prev)[i]);
                    }
                }
                if pen.records(old(disp)) {
                    let done = rows_cells(x0 as int, x1 as int, y0 as int, (yy - y0) as nat);
                    let row = row_cells(x0 as int, xx as int, yy as int);
                    let longer = row_cells(x0 as int, xx + 1, yy as int);
                    assert(longer =~= row.push((xx as int, yy as int)));
                    assert(done + longer =~= (done + row).push((xx as int, yy as int)));
                    assert(stream(pen, (done + row).push((xx as int, yy as int)), color) =~= stream(
                        pen,
                        done + row,
                        color,
                    ).push(pen.entry(xx as u16, yy as u16, color)));
                    assert(pen.record(&*disp) =~= pen.record(old(disp)) + stream(pen, done + longer, color));
                }
            }
            xx += 1;
        }
        proof {
            assert(rows_cells(x0 as int, x1 as int, y0 as int, (yy + 1 - y0) as nat) == rows_cells(
                x0 as int,
                x1 as int,
                y0 as int,
                (yy - y0) as nat,
            ) + row_cells(x0 as int, x1 as int, yy as int));
        }
        yy += 1;
    }
    proof {
        assert(on_surface(pen.dims(old(disp)), x0 as int, y0 as int));
        assert(span_covers(x as int, y as int, w as int, h as int, x0 as int, y0 as int));
    }
}

/// Whether `(px, py)` belongs to the outline of `rect`: it lies in the
/// rectangle, less than `thickness` pixels from one of its four sides.
pub open spec fn rect_outline_covers(rect: Rect, thickness: u16, px: int, py: int) -> bool {
    let dx = px - rect.x;
    let dy = py - rect.y;
    &&& 0 <= dx < rect.width
    &&& 0 <= dy < rect.height
    &&& (dx < thickness || dx >= rect.width - thickness || dy < thickness || dy >= rect.height
        - thickness)
}

/// The smaller of two numbers.
pub open spec fn least(a: int, b: int) -> int {
    if a <= b {
        a
    } else {
        b
    }
}

/// `a - b`, or zero where that is negative.
pub open spec fn minus_or_zero(a: int, b: int) -> int {
    if a >= b {
        a - b
    } else {
        0
    }
}

/// The band along the top of `rect`.
pub open spec fn top_band_covers(rect: Rect, thickness: u16, px: int, py: int) -> bool {
    span_covers(
        rect.x as int,
        rect.y as int,
        rect.width as int,
        least(thickness as int, rect.height as int),
        px,
        py,
    )
}

/// The band along the bottom of `rect`, there only where the rectangle is
/// higher than the outline is thick.
pub open spec fn bottom_band_covers(rect: Rect, thickness: u16, px: int, py: int) -> bool {
    rect.height > thickness && span_covers(
        rect.x as int,
        rect.y + rect.height - least(thickness as int, rect.height as int),
        rect.width as int,
        least(thickness as int, rect.height as int),
        px,
        py,
    )
}

/// The band along the left side of `rect`, between the top and bottom bands.
pub open spec fn left_band_covers(rect: Rect, thickness: u16, px: int, py: int) -> bool {
    span_covers(
        rect.x as int,
        rect.y + thickness,
        least(thickness as int, rect.width as int),
        minus_or_zero(rect.height as int, 2 * thickness),
        px,
        py,
    )
}

/// The band along the right side of `rect`, there only where the rectangle
/// is wider than the outline is thick.
pub open spec fn right_band_covers(rect: Rect, thickness: u16, px: int, py: int) -> bool {
    rect.width > thickness && span_covers(
        rect.x + rect.width - least(thickness as int, rect.width as int),
        rect.y + thickness,
        least(thickness as int, rect.width as int),
        minus_or_zero(rect.height as int, 2 * thickness),
        px,
        py,
    )
}

/// The outline of a rectangle is its four bands taken together.
pub proof fn lemma_outline_is_four_bands(rect: Rect, thickness: u16, px: int, py: int)
    ensures
        rect_outline_covers(rect, thickness, px, py) <==> (top_band_covers(rect, thickness, px, py)
            || bottom_band_covers(rect, thickness, px, py) || left_band_covers(
            rect,
            thickness,
            px,
            py,
        ) || right_band_covers(rect, thickness, px, py)),
{
}

/// Whether `rect` lies wholly off a surface of the given size: to the right
/// of it, below it, to the left of it or above it.
pub open spec fn rect_off_surface(rect: Rect, dims: (u16, u16)) -> bool {
    rect.x >= dims.0 || rect.y >= dims.1 || rect.x + rect.width <= 0 || rect.y + rect.height <= 0
}

/// The outline of a rectangle without width or height, of no thickness, or
/// wholly off the surface holds no pixel of the surface.
pub proof fn lemma_rect_misses_surface(rect: Rect, thickness: u16, dims: (u16, u16))
    ensures
        rect.width == 0 || rect.height == 0 || thickness == 0 || rect_off_surface(rect, dims)
            ==> misses_surface(|px: int, py: int| rect_outline_covers(rect, thickness, px, py), dims),
{
}

/// The pixels that are written for the outline of `rect` on a surface of
/// the given size, in order: the top band, the bottom band where there is
/// one, the left band, the right band where there is one, each clipped to
/// the surface and written row by row. Where bands overlap, a pixel is
/// written once for each.
pub open spec fn rect_cells(rect: Rect, thickness: u16, dims: (u16, u16)) -> Seq<(int, int)> {
    let band_h = least(thickness as int, rect.height as int);
    let band_w = least(thickness as int, rect.width as int);
    let inner_h = minus_or_zero(rect.height as int, 2 * thickness);
    span_cells(rect.x as int, rect.y as int, rect.width as int, band_h, dims) + (if rect.height
        > thickness {
        span_cells(rect.x as int, rect.y + rect.height - band_h, rect.width as int, band_h, dims)
    } else {
        Seq::empty()
    }) + span_cells(rect.x as int, rect.y + thickness, band_w, inner_h, dims) + (if rect.width
        > thickness {
        span_cells(rect.x + rect.width - band_w, rect.y + thickness, band_w, inner_h, dims)
    } else {
        Seq::empty()
    })
}

/// Draws the outline of `rect` with the given pen.
fn outline_rect<S, W, P: Pen<S, W>>(pen: &P, disp: &mut S, rect: Rect, color: Rgb565, thickness: u16)
    ensures
        inked(
            pen,
            old(disp),
            final(disp),
            |px: int, py: int| rect_outline_covers(rect, thickness, px, py),
            color,
        ),
        streamed(pen, old(disp), final(disp), rect_cells(rect, thickness, pen.dims(old(disp))), color),
{
    proof {
        pen.elsewhere_unchanged_reflexive(&*disp);
        lemma_streamed_nothing(pen, &*disp, color);
        let dims = pen.dims(&*disp);
        let rx = if rect.x > 0 { rect.x as int } else { 0 };
        let ry = if rect.y > 0 { rect.y as int } else { 0 };
        let rx1 = if rect.x + rect.width < dims.0 { rect.x + rect.width } else { dims.0 as int };
        let ry1 = if rect.y + rect.height < dims.1 { rect.y + rect.height } else { dims.1 as int };
        if rect.width == 0 || rect.height == 0 || thickness == 0 || rx >= rx1 || ry >= ry1 {
            assert(rect_cells(rect, thickness, dims) =~= Seq::<(int, int)>::empty());
        }
    }
    if rect.width == 0 || rect.height == 0 || thickness == 0 {
        return ;
    }
    let (dw, dh) = pen.extent(&*disp);
    let rx: i64 = rect.x as i64;
    let ry: i64 = rect.y as i64;
    let x0: i64 = if rx > 0 { rx } else { 0 };
    let y0: i64 = if ry > 0 { ry } else { 0 };
    let x1: i64 = if rx + (rect.width as i64) < dw as i64 { rx + rect.width as i64 } else { dw as i64 };
    let y1: i64 = if ry + (rect.height as i64) < dh as i64 { ry + rect.height as i64 } else { dh as i64 };
    if x0 >= x1 || y0 >= y1 {
        return ;
    }
    let top_h: u16 = if thickness < rect.height { thickness } else { rect.height };
    let side_w: u16 = if thickness < rect.width { thickness } else { rect.width };
    let t: i64 = thickness as i64;
    let inner_h: u16 = if rect.height as u32 > 2 * (thickness as u32) {
        (rect.height as u32 - 2 * (thickness as u32)) as u16
    } else {
        0
    };

    let ghost s0 = *disp;
    fill_span_rect(pen, disp, rx, ry, rect.width, top_h, color);
    let ghost s1 = *disp;
    if rect.height > thickness {
        fill_span_rect(pen, disp, rx, ry + rect.height as i64 - top_h as i64, rect.width, top_h, color);
    }
    let ghost s2 = *disp;
    fill_span_rect(pen, disp, rx, ry + t, side_w, inner_h, color);
    let ghost s3 = *disp;
    if rect.width > thickness {
        fill_span_rect(pen, disp, rx + rect.width as i64 - side_w as i64, ry + t, side_w, inner_h, color);
    }
    proof {
        let dims = pen.dims(&s0);
        let band_h = least(thickness as int, rect.height as int);
        let band_w = least(thickness as int, rect.width as int);
        let inner = minus_or_zero(rect.height as int, 2 * thickness);
        let c1 = span_cells(rect.x as int, rect.y as int, rect.width as int, band_h, dims);
        let c2 = if rect.height > thickness {
            span_cells(rect.x as int, rect.y + rect.height - band_h, rect.width as int, band_h, dims)
        } else {
            Seq::<(int, int)>::empty()
        };
        let c3 = span_cells(rect.x as int, rect.y + thickness, band_w, inner, dims);
        let c4 = if rect.width > thickness {
            span_cells(rect.x + rect.width - band_w, rect.y + thickness, band_w, inner, dims)
        } else {
            Seq::<(int, int)>::empty()
        };
        lemma_streamed_nothing(pen, &s1, color);
        lemma_streamed_nothing(pen, &s3, color);
        lemma_streamed_then(pen, &s0, &s1, &s2, c1, c2, color);
        lemma_streamed_then(pen, &s0, &s2, &s3, c1 + c2, c3, color);
        lemma_streamed_then(pen, &s0, &s3, &*disp, c1 + c2 + c3, c4, color);
        pen.elsewhere_unchanged_reflexive(&s1);
        pen.elsewhere_unchanged_reflexive(&s3);
        pen.elsewhere_unchanged_transitive(&s0, &s1, &s2);
        pen.elsewhere_unchanged_transitive(&s0, &s2, &s3);
        pen.elsewhere_unchanged_transitive(&s0, &s3, &*disp);
        assert forall|px: int, py: int|
            0 <= px < pen.dims(&s0).0 && 0 <= py < pen.dims(&s0).1 implies #[trigger] pen.pixel(
            &*disp,
            px,
            py,
        ) == if rect_outline_covers(rect, thickness, px, py) {
            color
        } else {
            pen.pixel(&s0, px, py)
        } by {
            lemma_outline_is_four_bands(rect, thickness, px, py);
            let _ = pen.pixel(&s1, px, py);
            let _ = pen.pixel(&s2, px, py);
            let _ = pen.pixel(&s3, px, py);
        }
        assert forall|i: int| pen.record(&s0).len() <= i < pen.record(&*disp).len() implies entry_within(
            pen,
            pen.dims(&s0),
            |px: int, py: int| rect_outline_covers(rect, thickness, px, py),
            color,
            #[trigger] pen.record(&*disp)[i],
        ) by {
            let e = pen.record(&*disp)[i];
            lemma_outline_is_four_bands(rect, thickness, pen.spot(e).0 as int, pen.spot(e).1 as int);
            if i < pen.record(&s1).len() {
                assert(pen.record(&s1)[i] == e);
            } else if i < pen.record(&s2).len() {
                assert(pen.record(&s2)[i] == e);
            } else if i < pen.record(&s3).len() {
                assert(pen.record(&s3)[i] == e);
            }
        }
        if forall|px: int, py: int| #[trigger]
            on_surface(pen.dims(&s0), px, py) ==> !rect_outline_covers(rect, thickness, px, py) {
            assert forall|px: int, py: int| #[trigger] on_surface(pen.dims(&s0), px, py) implies !top_band_covers(
                rect,
                thickness,
                px,
                py,
            ) && !bottom_band_covers(rect, thickness, px, py) && !left_band_covers(
                rect,
                thickness,
                px,
                py,
            ) && !right_band_covers(rect, thickness, px, py) by {
                lemma_outline_is_four_bands(rect, thickness, px, py);
            }
            assert(s1 == s0);
            assert(s2 == s1);
            assert(s3 == s2);
            assert(*disp == s3);
        }
    }
}

/// Draws the outline of `rect`, `thickness` pixels wide and inside the
/// rectangle, clipped to the sink. Nothing is drawn for an empty rectangle
/// or a thickness of zero.
///
/// The sink is handed pixels of its surface only: those of `rect_cells`,
/// band by band. Where the outline holds no pixel of the surface the sink
/// is handed nothing and is left as it was.
pub fn draw_rectangle_outline<S: PixelSink>(
    disp: &mut S,
    rect: Rect,
    color: Rgb565,
    thickness: u16,
) -> (r: Result<(), Error>)
    ensures
        r == Ok::<(), Error>(()),
        painted(
            old(disp),
            final(disp),
            |px: int, py: int| rect_outline_covers(rect, thickness, px, py),
            color,
        ),
        rect.width == 0 || rect.height == 0 || thickness == 0 || rect_off_surface(rect, old(disp).dims())
            ==> *final(disp) == *old(disp),
        old(disp).records() ==> final(disp).handed() == old(disp).handed() + writes_of(
            rect_cells(rect, thickness, old(disp).dims()),
            color,
        ),
{
    let pen = Direct;
    outline_rect(&pen, disp, rect, color, thickness);
    proof {
        lemma_direct_pen(&pen, old(disp), &*disp);
        lemma_rect_misses_surface(rect, thickness, old(disp).dims());
        lemma_direct_stream::<S>(&pen, rect_cells(rect, thickness, old(disp).dims()), color);
    }
    Ok(())
}

/// Draws the outline of `rect` into one layer of a layered sink: as
/// `draw_rectangle_outline` does, with every write into `layer`.
pub fn draw_rectangle_outline_on_layer<S: PixelSinkLayers>(
    disp: &mut S,
    rect: Rect,
    color: Rgb565,
    thickness: u16,
    layer: Layer,
) -> (r: Result<(), Error>)
    ensures
        r == Ok::<(), Error>(()),
        painted_in_layer(
            old(disp),
            final(disp),
            layer,
            |px: int, py: int| rect_outline_covers(rect, thickness, px, py),
            color,
        ),
        rect.width == 0 || rect.height == 0 || thickness == 0 || rect_off_surface(rect, old(disp).dims())
            ==> *final(disp) == *old(disp),
        old(disp).records() ==> final(disp).handed() == old(disp).handed() + layer_writes_of(
            rect_cells(rect, thickness, old(disp).dims()),
            layer,
            color,
        ),
{
    let pen = OnLayer(layer);
    outline_rect(&pen, disp, rect, color, thickness);
    proof {
        lemma_layer_pen(&pen, old(disp), &*disp);
        lemma_rect_misses_surface(rect, thickness, old(disp).dims());
        lemma_layer_stream::<S>(&pen, rect_cells(rect, thickness, old(disp).dims()), color);
    }
    Ok(())
}

/// The side of the square that is stamped at each point of a line.
pub open spec fn stamp_side(thickness: u16) -> int {
    if thickness > 1 {
        thickness as int
    } else {
        1
    }
}

/// Whether `(px, py)` lies in the square stamped at `(cx, cy)`: a square of
/// side `stamp_side(thickness)` whose top left corner is half a thickness,
/// rounded down, above and left of the point.
pub open spec fn stamp_covers(cx: int, cy: int, thickness: u16, px: int, py: int) -> bool {
    span_covers(
        cx - thickness / 2,
        cy - thickness / 2,
        stamp_side(thickness),
        stamp_side(thickness),
        px,
        py,
    )
}

/// Whether `(px, py)` lies in the square stamped at the `k`-th point of the
/// line from `a` to `b`.
pub open spec fn stamp_at(a: Point, b: Point, thickness: u16, k: int, px: int, py: int) -> bool {
    stamp_covers(line_point(a, b, k).0, line_point(a, b, k).1, thickness, px, py)
}

/// Whether `(px, py)` lies in a square stamped at one of the first `n + 1`
/// points of the line from `a` to `b`.
pub open spec fn line_covers_upto(a: Point, b: Point, thickness: u16, n: int, px: int, py: int) -> bool {
    exists|k: int| 0 <= k <= n && #[trigger] stamp_at(a, b, thickness, k, px, py)
}

/// Whether `(px, py)` belongs to the stroke of the given thickness from `a`
/// to `b`: to a square stamped at a point of the line.
pub open spec fn line_covers(a: Point, b: Point, thickness: u16, px: int, py: int) -> bool {
    thickness > 0 && line_covers_upto(a, b, thickness, line_steps(a, b), px, py)
}

/// Whether `(px, py)` belongs to the outline of `tri`: to the stroke of one
/// of its three edges, unless the three corners are one point.
pub open spec fn triangle_outline_covers(tri: Triangle, thickness: u16, px: int, py: int) -> bool {
    &&& !(tri.a == tri.b && tri.b == tri.c)
    &&& (line_covers(tri.a, tri.b, thickness, px, py) || line_covers(tri.b, tri.c, thickness, px, py)
        || line_covers(tri.c, tri.a, thickness, px, py))
}

/// The pixels that are written for the squares at the first `k + 1` points
/// of the line from `a` to `b` on a surface of the given size, in order:
/// square after square along the line, each clipped to the surface and
/// written row by row.
pub open spec fn line_cells_upto(a: Point, b: Point, thickness: u16, dims: (u16, u16), k: int) -> Seq<
    (int, int),
>
    decreases k + 1,
{
    if k < 0 {
        Seq::empty()
    } else {
        line_cells_upto(a, b, thickness, dims, k - 1) + span_cells(
            line_point(a, b, k).0 - thickness / 2,
            line_point(a, b, k).1 - thickness / 2,
            stamp_side(thickness),
            stamp_side(thickness),
            dims,
        )
    }
}

/// The pixels that are written for the stroke from `a` to `b`, in order.
pub open spec fn line_cells(a: Point, b: Point, thickness: u16, dims: (u16, u16)) -> Seq<(int, int)> {
    if thickness == 0 {
        Seq::empty()
    } else {
        line_cells_upto(a, b, thickness, dims, line_steps(a, b))
    }
}

/// The pixels that are written for the outline of `tri`, in order: the
/// stroke from the first corner to the second, from the second to the
/// third, and from the third back to the first.
pub open spec fn triangle_cells(tri: Triangle, thickness: u16, dims: (u16, u16)) -> Seq<(int, int)> {
    if thickness == 0 || (tri.a == tri.b && tri.b == tri.c) {
        Seq::empty()
    } else {
        line_cells(tri.a, tri.b, thickness, dims) + line_cells(tri.b, tri.c, thickness, dims)
            + line_cells(tri.c, tri.a, thickness, dims)
    }
}

/// What a stroke has done to the record so far: every write on the way
/// was one of this pen to a pixel of the surface that the stroke holds, and
/// where the stroke holds no pixel of the surface, the sink is as it was.
spec fn line_record<S, W, P: Pen<S, W>>(
    pen: &P,
    start: &S,
    cur: &S,
    a: Point,
    b: Point,
    color: Rgb565,
    thickness: u16,
) -> bool {
    &&& pen.records(cur) == pen.records(start)
    &&& record_kept(pen.record(start), pen.record(cur))
    &&& forall|i: int|
        pen.record(start).len() <= i < pen.record(cur).len() ==> entry_within(
            pen,
            pen.dims(start),
            |px: int, py: int| line_covers(a, b, thickness, px, py),
            color,
            #[trigger] pen.record(cur)[i],
        )
    &&& misses_surface(|px: int, py: int| line_covers(a, b, thickness, px, py), pen.dims(start)) ==> cur
        == start
}

/// One more square of a stroke: what held of the record before the square
/// at the `k`-th point of the line was filled holds after it.
proof fn lemma_stamp_in_line<S, W, P: Pen<S, W>>(
    pen: &P,
    start: &S,
    prev: &S,
    cur: &S,
    a: Point,
    b: Point,
    color: Rgb565,
    thickness: u16,
    k: int,
    cx: int,
    cy: int,
)
    requires
        thickness > 0,
        0 <= k <= line_steps(a, b),
        line_point(a, b, k) == (cx, cy),
        pen.dims(prev) == pen.dims(start),
        prev == start || line_record(pen, start, prev, a, b, color, thickness),
        inked(
            pen,
            prev,
            cur,
            |px: int, py: int|
                span_covers(
                    cx - thickness / 2,
                    cy - thickness / 2,
                    stamp_side(thickness),
                    stamp_side(thickness),
                    px,
                    py,
                ),
            color,
        ),
    ensures
        line_record(pen, start, cur, a, b, color, thickness),
{
    assert forall|px: int, py: int|
        span_covers(
            cx - thickness / 2,
            cy - thickness / 2,
            stamp_side(thickness),
            stamp_side(thickness),
            px,
            py,
        ) implies line_covers(a, b, thickness, px, py) by {
        assert(stamp_at(a, b, thickness, k, px, py));
    }
    assert forall|i: int| pen.record(start).len() <= i < pen.record(cur).len() implies entry_within(
        pen,
        pen.dims(start),
        |px: int, py: int| line_covers(a, b, thickness, px, py),
        color,
        #[trigger] pen.record(cur)[i],
    ) by {
        if i < pen.record(prev).len() {
            assert(pen.record(prev)[i] == pen.record(cur)[i]);
        }
    }
    if misses_surface(|px: int, py: int| line_covers(a, b, thickness, px, py), pen.dims(start)) {
        assert forall|px: int, py: int| #[trigger] on_surface(pen.dims(prev), px, py) implies !span_covers(
            cx - thickness / 2,
            cy - thickness / 2,
            stamp_side(thickness),
            stamp_side(thickness),
            px,
            py,
        ) by {}
        assert(cur == prev);
    }
}

/// Draws the stroke from `a` to `b`: a square at every point of the line,
/// each clipped to the pen's surface.
fn draw_line<S, W, P: Pen<S, W>>(
    pen: &P,
    disp: &mut S,
    a: Point,
    b: Point,
    color: Rgb565,
    thickness: u16,
)
    ensures
        inked(
            pen,
            old(disp),
            final(disp),
            |px: int, py: int| line_covers(a, b, thickness, px, py),
            color,
        ),
        streamed(pen, old(disp), final(disp), line_cells(a, b, thickness, pen.dims(old(disp))), color),
{
    proof {
        pen.elsewhere_unchanged_reflexive(&*disp);
        lemma_streamed_nothing(pen, &*disp, color);
    }
    if thickness == 0 {
        return ;
    }
    let x1: i64 = b.x as i64;
    let y1: i64 = b.y as i64;
    let mut x: i64 = a.x as i64;
    let mut y: i64 = a.y as i64;
    let dx: i64 = if x < x1 { x1 - x } else { x - x1 };
    let sx: i64 = if x < x1 { 1 } else { -1 };
    let dy: i64 = if y < y1 { y - y1 } else { y1 - y };
    let sy: i64 = if y < y1 { 1 } else { -1 };
    let mut err: i64 = dx + dy;
    let half: i64 = (thickness / 2) as i64;
    let side: u16 = if thickness > 1 { thickness } else { 1 };
    let ghost adx = distance(a.x as int, b.x as int);
    let ghost ady = distance(a.y as int, b.y as int);
    let ghost mut i: int = 0;
    let ghost mut j: int = 0;
    let ghost mut k: int = 0;
    proof {
        lemma_on_track_start(adx, ady);
        lemma_on_track_point(a, b, i, j, err as int);
    }
    fill_span_rect(pen, disp, x - half, y - half, side, side, color);
    proof {
        lemma_stamp_in_line(pen, old(disp), old(disp), &*disp, a, b, color, thickness, 0, x as int, y as int);
        lemma_streamed_then(
            pen,
            old(disp),
            old(disp),
            &*disp,
            line_cells_upto(a, b, thickness, pen.dims(old(disp)), -1),
            span_cells(x - half, y - half, side as int, side as int, pen.dims(old(disp))),
            color,
        );
        assert forall|px: int, py: int|
            0 <= px < pen.dims(old(disp)).0 && 0 <= py < pen.dims(old(disp)).1 implies #[trigger] pen.pixel(
            &*disp,
            px,
            py,
        ) == if line_covers_upto(a, b, thickness, 0, px, py) {
            color
        } else {
            pen.pixel(old(disp), px, py)
        } by {
            assert(stamp_at(a, b, thickness, 0, px, py) == span_covers(
                x - half,
                y - half,
                side as int,
                side as int,
                px,
                py,
            ));
        }
    }
    while !(x == x1 && y == y1)
        invariant
            thickness > 0,
            x1 == b.x,
            y1 == b.y,
            adx == distance(a.x as int, b.x as int),
            ady == distance(a.y as int, b.y as int),
            dx == adx,
            dy == -ady,
            sx == if a.x < b.x { 1int } else { -1int },
            sy == if a.y < b.y { 1int } else { -1int },
            half == thickness / 2,
            side == stamp_side(thickness),
            on_track(adx, ady, i, j, err as int),
            k == if adx >= ady { i } else { j },
            0 <= k <= line_steps(a, b),
            x == toward(a.x as int, b.x as int, i),
            y == toward(a.y as int, b.y as int, j),
            pen.dims(&*disp) == pen.dims(old(disp)),
            pen.elsewhere_unchanged(old(disp), &*disp),
            line_record(pen, old(disp), &*disp, a, b, color, thickness),
            streamed(pen, old(disp), &*disp, line_cells_upto(a, b, thickness, pen.dims(old(disp)), k), color),
            forall|px: int, py: int|
                0 <= px < pen.dims(old(disp)).0 && 0 <= py < pen.dims(old(disp)).1
                    ==> #[trigger] pen.pixel(&*disp, px, py) == if line_covers_upto(
                    a,
                    b,
                    thickness,
                    k,
                    px,
                    py,
                ) {
                    color
                } else {
                    pen.pixel(old(disp), px, py)
                },
        decreases line_steps(a, b) - k,
    {
        proof {
            lemma_on_track_point(a, b, i, j, err as int);
            lemma_on_track_step(adx, ady, i, j, err as int);
        }
        let e2: i64 = 2 * err;
        let step_x: bool = e2 >= dy;
        let step_y: bool = e2 <= dx;
        if step_x {
            err += dy;
            x += sx;
            proof {
                i = i + 1;
            }
        }
        if step_y {
            err += dx;
            y += sy;
            proof {
                j = j + 1;
            }
        }
        proof {
            k = k + 1;
            lemma_on_track_point(a, b, i, j, err as int);
        }
        let ghost prev = *disp;
        fill_span_rect(pen, disp, x - half, y - half, side, side, color);
        proof {
            pen.elsewhere_unchanged_transitive(old(disp), &prev, &*disp);
            lemma_stamp_in_line(pen, old(disp), &prev, &*disp, a, b, color, thickness, k, x as int, y as int);
            lemma_streamed_then(
                pen,
                old(disp),
                &prev,
                &*disp,
                line_cells_upto(a, b, thickness, pen.dims(old(disp)), k - 1),
                span_cells(x - half, y - half, side as int, side as int, pen.dims(old(disp))),
                color,
            );
            assert forall|px: int, py: int|
                0 <= px < pen.dims(old(disp)).0 && 0 <= py < pen.dims(old(disp)).1 implies #[trigger] pen.pixel(
                &*disp,
                px,
                py,
            ) == if line_covers_upto(a, b, thickness, k, px, py) {
                color
            } else {
                pen.pixel(old(disp), px, py)
            } by {
                let here = stamp_at(a, b, thickness, k, px, py);
                assert(here == span_covers(x - half, y - half, side as int, side as int, px, py));
                let _ = pen.pixel(&prev, px, py);
                if line_covers_upto(a, b, thickness, k - 1, px, py) {
                    let m = choose|m: int| 0 <= m <= k - 1 && #[trigger] stamp_at(a, b, thickness, m, px, py);
                    assert(stamp_at(a, b, thickness, m, px, py));
                }
                if line_covers_upto(a, b, thickness, k, px, py) && !here {
                    let m = choose|m: int| 0 <= m <= k && #[trigger] stamp_at(a, b, thickness, m, px, py);
                    assert(m <= k - 1);
                }
            }
        }
    }
    proof {
        lemma_on_track_point(a, b, i, j, err as int);
    }
}

/// Draws the three edges of `tri` with the given pen.
fn outline_triangle<S, W, P: Pen<S, W>>(
    pen: &P,
    disp: &mut S,
    tri: Triangle,
    color: Rgb565,
    thickness: u16,
)
    ensures
        inked(
            pen,
            old(disp),
            final(disp),
            |px: int, py: int| triangle_outline_covers(tri, thickness, px, py),
            color,
        ),
        streamed(pen, old(disp), final(disp), triangle_cells(tri, thickness, pen.dims(old(disp))), color),
{
    proof {
        pen.elsewhere_unchanged_reflexive(&*disp);
        lemma_streamed_nothing(pen, &*disp, color);
    }
    if thickness == 0 {
        return ;
    }
    let Triangle { a, b, c } = tri;
    if a == b && b == c {
        return ;
    }
    let ghost s0 = *disp;
    draw_line(pen, disp, a, b, color, thickness);
    let ghost s1 = *disp;
    draw_line(pen, disp, b, c, color, thickness);
    let ghost s2 = *disp;
    draw_line(pen, disp, c, a, color, thickness);
    proof {
        let dims = pen.dims(&s0);
        lemma_streamed_then(
            pen,
            &s0,
            &s1,
            &s2,
            line_cells(a, b, thickness, dims),
            line_cells(b, c, thickness, dims),
            color,
        );
        lemma_streamed_then(
            pen,
            &s0,
            &s2,
            &*disp,
            line_cells(a, b, thickness, dims) + line_cells(b, c, thickness, dims),
            line_cells(c, a, thickness, dims),
            color,
        );
        pen.elsewhere_unchanged_transitive(&s0, &s1, &s2);
        pen.elsewhere_unchanged_transitive(&s0, &s2, &*disp);
        assert forall|px: int, py: int|
            0 <= px < pen.dims(&s0).0 && 0 <= py < pen.dims(&s0).1 implies #[trigger] pen.pixel(
            &*disp,
            px,
            py,
        ) == if triangle_outline_covers(tri, thickness, px, py) {
            color
        } else {
            pen.pixel(&s0, px, py)
        } by {
            let _ = pen.pixel(&s1, px, py);
            let _ = pen.pixel(&s2, px, py);
        }
        assert forall|i: int| pen.record(&s0).len() <= i < pen.record(&*disp).len() implies entry_within(
            pen,
            pen.dims(&s0),
            |px: int, py: int| triangle_outline_covers(tri, thickness, px, py),
            color,
            #[trigger] pen.record(&*disp)[i],
        ) by {
            let e = pen.record(&*disp)[i];
            if i < pen.record(&s1).len() {
                assert(pen.record(&s1)[i] == e);
            } else if i < pen.record(&s2).len() {
                assert(pen.record(&s2)[i] == e);
            }
        }
        if forall|px: int, py: int| #[trigger]
            on_surface(pen.dims(&s0), px, py) ==> !triangle_outline_covers(tri, thickness, px, py) {
            assert forall|px: int, py: int| #[trigger] on_surface(pen.dims(&s0), px, py) implies !line_covers(
                a,
                b,
                thickness,
                px,
                py,
            ) && !line_covers(b, c, thickness, px, py) && !line_covers(c, a, thickness, px, py) by {}
            assert(s1 == s0);
            assert(s2 == s1);
            assert(*disp == s2);
        }
    }
}

/// Whether the three corners of `tri` lie so far to one side of a surface
/// of the given size that no corner's square reaches it: all to the left,
/// all to the right, all above or all below.
pub open spec fn triangle_off_surface(tri: Triangle, thickness: u16, dims: (u16, u16)) -> bool {
    let reach = stamp_side(thickness) - thickness / 2;
    let near = thickness / 2;
    ||| (tri.a.x + reach <= 0 && tri.b.x + reach <= 0 && tri.c.x + reach <= 0)
    ||| (tri.a.x - near >= dims.0 && tri.b.x - near >= dims.0 && tri.c.x - near >= dims.0)
    ||| (tri.a.y + reach <= 0 && tri.b.y + reach <= 0 && tri.c.y + reach <= 0)
    ||| (tri.a.y - near >= dims.1 && tri.b.y - near >= dims.1 && tri.c.y - near >= dims.1)
}

/// The outline of a triangle of no thickness, of three equal corners, or
/// off the surface with all its squares holds no pixel of the surface.
pub proof fn lemma_triangle_misses_surface(tri: Triangle, thickness: u16, dims: (u16, u16))
    ensures
        thickness == 0 || (tri.a == tri.b && tri.b == tri.c) || triangle_off_surface(tri, thickness, dims)
            ==> misses_surface(|px: int, py: int| triangle_outline_covers(tri, thickness, px, py), dims),
{
    if triangle_off_surface(tri, thickness, dims) {
        assert forall|px: int, py: int| #[trigger] on_surface(dims, px, py) implies !triangle_outline_covers(
            tri,
            thickness,
            px,
            py,
        ) by {
            lemma_offscreen_triangle_covers_nothing(tri, thickness, dims.0 as int, dims.1 as int, px, py);
        }
    }
}

/// Draws the outline of `tri`: its three edges as strokes of the given
/// thickness, clipped to the sink. Nothing is drawn for a thickness of zero
/// or where the three corners are one point.
///
/// The sink is handed pixels of its surface only: those of
/// `triangle_cells`, square by square along each edge. Where the outline
/// holds no pixel of the surface the sink is handed nothing and is left as
/// it was.
pub fn draw_triangle_outline<S: PixelSink>(
    disp: &mut S,
    tri: Triangle,
    color: Rgb565,
    thickness: u16,
) -> (r: Result<(), Error>)
    ensures
        r == Ok::<(), Error>(()),
        painted(
            old(disp),
            final(disp),
            |px: int, py: int| triangle_outline_covers(tri, thickness, px, py),
            color,
        ),
        thickness == 0 || (tri.a == tri.b && tri.b == tri.c) || triangle_off_surface(
            tri,
            thickness,
            old(disp).dims(),
        ) ==> *final(disp) == *old(disp),
        old(disp).records() ==> final(disp).handed() == old(disp).handed() + writes_of(
            triangle_cells(tri, thickness, old(disp).dims()),
            color,
        ),
{
    let pen = Direct;
    outline_triangle(&pen, disp, tri, color, thickness);
    proof {
        lemma_direct_pen(&pen, old(disp), &*disp);
        lemma_triangle_misses_surface(tri, thickness, old(disp).dims());
        lemma_direct_stream::<S>(&pen, triangle_cells(tri, thickness, old(disp).dims()), color);
    }
    Ok(())
}

/// Draws the outline of `tri` into one layer of a layered sink: as
/// `draw_triangle_outline` does, with every write into `layer`.
pub fn draw_triangle_outline_on_layer<S: PixelSinkLayers>(
    disp: &mut S,
    tri: Triangle,
    color: Rgb565,
    thickness: u16,
    layer: Layer,
) -> (r: Result<(), Error>)
    ensures
        r == Ok::<(), Error>(()),
        painted_in_layer(
            old(disp),
            final(disp),
            layer,
            |px: int, py: int| triangle_outline_covers(tri, thickness, px, py),
            color,
        ),
        thickness == 0 || (tri.a == tri.b && tri.b == tri.c) || triangle_off_surface(
            tri,
            thickness,
            old(disp).dims(),
        ) ==> *final(disp) == *old(disp),
        old(disp).records() ==> final(disp).handed() == old(disp).handed() + layer_writes_of(
            triangle_cells(tri, thickness, old(disp).dims()),
            layer,
            color,
        ),
{
    let pen = OnLayer(layer);
    outline_triangle(&pen, disp, tri, color, thickness);
    proof {
        lemma_layer_pen(&pen, old(disp), &*disp);
        lemma_triangle_misses_surface(tri, thickness, old(disp).dims());
        lemma_layer_stream::<S>(&pen, triangle_cells(tri, thickness, old(disp).dims()), color);
    }
    Ok(())
}

/// Two sinks show the same picture: the same size, the same colour at
/// every pixel, and the same apart from their surfaces.
pub open spec fn same_picture<S: PixelSink>(a: &S, b: &S) -> bool {
    &&& a.dims() == b.dims()
    &&& a.rest_unchanged(b)
    &&& forall|x: int, y: int|
        0 <= x < a.dims().0 && 0 <= y < a.dims().1 ==> #[trigger] b.pixel(x, y) == a.pixel(x, y)
}

/// Painting a region again, in the same colour, changes nothing: the
/// picture after the second time is the picture after the first.
pub proof fn lemma_painted_twice<S: PixelSink>(
    s0: &S,
    s1: &S,
    s2: &S,
    region: spec_fn(int, int) -> bool,
    color: Rgb565,
)
    requires
        painted(s0, s1, region, color),
        painted(s1, s2, region, color),
    ensures
        same_picture(s1, s2),
        painted(s0, s2, region, color),
{
    s0.rest_unchanged_transitive(s1, s2);
    assert forall|x: int, y: int| 0 <= x < s0.dims().0 && 0 <= y < s0.dims().1 implies #[trigger] s2.pixel(
        x,
        y,
    ) == s1.pixel(x, y) by {
        let _ = s1.pixel(x, y);
    }
}

/// Drawing the outline of a rectangle twice gives what drawing it once
/// gives.
pub proof fn lemma_rectangle_outline_twice<S: PixelSink>(
    s0: &S,
    s1: &S,
    s2: &S,
    rect: Rect,
    color: Rgb565,
    thickness: u16,
)
    requires
        painted(s0, s1, |px: int, py: int| rect_outline_covers(rect, thickness, px, py), color),
        painted(s1, s2, |px: int, py: int| rect_outline_covers(rect, thickness, px, py), color),
    ensures
        same_picture(s1, s2),
{
    lemma_painted_twice(
        s0,
        s1,
        s2,
        |px: int, py: int| rect_outline_covers(rect, thickness, px, py),
        color,
    );
}

/// Drawing the outline of a triangle twice gives what drawing it once
/// gives.
pub proof fn lemma_triangle_outline_twice<S: PixelSink>(
    s0: &S,
    s1: &S,
    s2: &S,
    tri: Triangle,
    color: Rgb565,
    thickness: u16,
)
    requires
        painted(s0, s1, |px: int, py: int| triangle_outline_covers(tri, thickness, px, py), color),
        painted(s1, s2, |px: int, py: int| triangle_outline_covers(tri, thickness, px, py), color),
    ensures
        same_picture(s1, s2),
{
    lemma_painted_twice(
        s0,
        s1,
        s2,
        |px: int, py: int| triangle_outline_covers(tri, thickness, px, py),
        color,
    );
}

/// Painting a region that holds no pixel of the surface changes nothing:
/// the sink is handed nothing and is as it was.
pub proof fn lemma_painted_nothing<S: PixelSink>(
    s0: &S,
    s1: &S,
    region: spec_fn(int, int) -> bool,
    color: Rgb565,
)
    requires
        painted(s0, s1, region, color),
        forall|x: int, y: int| 0 <= x < s0.dims().0 && 0 <= y < s0.dims().1 ==> !#[trigger] region(x, y),
    ensures
        same_picture(s0, s1),
        s1 == s0,
{
    assert(misses_surface(region, s0.dims()));
}

/// A rectangle without width or height, or an outline without thickness,
/// covers no pixel.
pub proof fn lemma_empty_outline_covers_nothing(rect: Rect, thickness: u16, px: int, py: int)
    requires
        rect.width == 0 || rect.height == 0 || thickness == 0,
    ensures
        !rect_outline_covers(rect, thickness, px, py),
{
}

/// An outline at least half as thick as the rectangle is wide or high
/// covers the whole rectangle.
pub proof fn lemma_thick_outline_fills(rect: Rect, thickness: u16, px: int, py: int)
    requires
        2 * thickness >= rect.width || 2 * thickness >= rect.height,
        thickness > 0,
    ensures
        rect_outline_covers(rect, thickness, px, py) <==> span_covers(
            rect.x as int,
            rect.y as int,
            rect.width as int,
            rect.height as int,
            px,
            py,
        ),
{
}

/// A rectangle that lies wholly outside a surface of `width` by `height`
/// pixels covers no pixel of it.
pub proof fn lemma_offscreen_rectangle_covers_nothing(
    rect: Rect,
    thickness: u16,
    width: int,
    height: int,
    px: int,
    py: int,
)
    requires
        rect.x + rect.width <= 0 || rect.x >= width || rect.y + rect.height <= 0 || rect.y >= height,
        0 <= px < width,
        0 <= py < height,
    ensures
        !rect_outline_covers(rect, thickness, px, py),
{
}

/// A stroke whose two ends lie so far to one side of a surface of `width`
/// by `height` pixels that neither end's square reaches it covers no pixel
/// of the surface.
pub proof fn lemma_offscreen_line_covers_nothing(
    a: Point,
    b: Point,
    thickness: u16,
    width: int,
    height: int,
    px: int,
    py: int,
)
    requires
        0 <= px < width,
        0 <= py < height,
        ({
            let reach = stamp_side(thickness) - thickness / 2;
            ||| (a.x + reach <= 0 && b.x + reach <= 0)
            ||| (a.x - thickness / 2 >= width && b.x - thickness / 2 >= width)
            ||| (a.y + reach <= 0 && b.y + reach <= 0)
            ||| (a.y - thickness / 2 >= height && b.y - thickness / 2 >= height)
        }),
    ensures
        !line_covers(a, b, thickness, px, py),
{
    assert forall|k: int| 0 <= k <= line_steps(a, b) implies !#[trigger] stamp_at(
        a,
        b,
        thickness,
        k,
        px,
        py,
    ) by {
        lemma_line_point_between(a, b, k);
    }
}

/// A triangle whose three corners lie so far to one side of a surface that
/// no corner's square reaches it covers no pixel of the surface.
pub proof fn lemma_offscreen_triangle_covers_nothing(
    tri: Triangle,
    thickness: u16,
    width: int,
    height: int,
    px: int,
    py: int,
)
    requires
        0 <= px < width,
        0 <= py < height,
        ({
            let reach = stamp_side(thickness) - thickness / 2;
            let near = thickness / 2;
            ||| (tri.a.x + reach <= 0 && tri.b.x + reach <= 0 && tri.c.x + reach <= 0)
            ||| (tri.a.x - near >= width && tri.b.x - near >= width && tri.c.x - near >= width)
            ||| (tri.a.y + reach <= 0 && tri.b.y + reach <= 0 && tri.c.y + reach <= 0)
            ||| (tri.a.y - near >= height && tri.b.y - near >= height && tri.c.y - near >= height)
        }),
    ensures
        !triangle_outline_covers(tri, thickness, px, py),
{
    lemma_offscreen_line_covers_nothing(tri.a, tri.b, thickness, width, height, px, py);
    lemma_offscreen_line_covers_nothing(tri.b, tri.c, thickness, width, height, px, py);
    lemma_offscreen_line_covers_nothing(tri.c, tri.a, thickness, width, height, px, py);
}

/// A triangle whose three corners are one point, or an outline without
/// thickness, covers no pixel.
pub proof fn lemma_degenerate_triangle_covers_nothing(tri: Triangle, thickness: u16, px: int, py: int)
    requires
        (tri.a == tri.b && tri.b == tri.c) || thickness == 0,
    ensures
        !triangle_outline_covers(tri, thickness, px, py),
{
}

/// Both ends of a stroke belong to it.
pub proof fn lemma_line_covers_its_ends(a: Point, b: Point, thickness: u16)
    requires
        thickness > 0,
    ensures
        line_covers(a, b, thickness, a.x as int, a.y as int),
        line_covers(a, b, thickness, b.x as int, b.y as int),
{
    let n = line_steps(a, b);
    lemma_line_point_between(a, b, 0);
    assert(stamp_at(a, b, thickness, 0, a.x as int, a.y as int));
    let adx = distance(a.x as int, b.x as int);
    let ady = distance(a.y as int, b.y as int);
    if adx >= ady {
        if adx > 0 {
            assert(2 * adx * ady + adx == ady * (2 * adx) + adx) by (nonlinear_arith);
            vstd::arithmetic::div_mod::lemma_fundamental_div_mod_converse(
                2 * adx * ady + adx,
                2 * adx,
                ady,
                adx,
            );
        }
    } else {
        assert(2 * ady * adx + ady == adx * (2 * ady) + ady) by (nonlinear_arith);
        vstd::arithmetic::div_mod::lemma_fundamental_div_mod_converse(
            2 * ady * adx + ady,
            2 * ady,
            adx,
            ady,
        );
    }
    assert(line_point(a, b, n) == (b.x as int, b.y as int));
    assert(stamp_at(a, b, thickness, n, b.x as int, b.y as int));
}

/// A triangle whose corners are not all one point is drawn whatever its
/// shape, be its corners on one line: with a thickness above zero the
/// outline covers each of the three corners.
pub proof fn lemma_triangle_outline_covers_corners(tri: Triangle, thickness: u16)
    requires
        thickness > 0,
        !(tri.a == tri.b && tri.b == tri.c),
    ensures
        triangle_outline_covers(tri, thickness, tri.a.x as int, tri.a.y as int),
        triangle_outline_covers(tri, thickness, tri.b.x as int, tri.b.y as int),
        triangle_outline_covers(tri, thickness, tri.c.x as int, tri.c.y as int),
{
    lemma_line_covers_its_ends(tri.a, tri.b, thickness);
    lemma_line_covers_its_ends(tri.b, tri.c, thickness);
}

/// The pixels that the outline of `rect` covers.
pub open spec fn outline_pixels(rect: Rect, thickness: u16) -> Set<(int, int)> {
    Set::new(|p: (int, int)| rect_outline_covers(rect, thickness, p.0, p.1))
}

/// `n` pixels side by side, from `(x, y)` to the right.
pub open spec fn row_pixels(x: int, y: int, n: int) -> Set<(int, int)> {
    Set::new(|p: (int, int)| p.1 == y && x <= p.0 < x + n)
}

/// `n` pixels one below the other, from `(x, y)` down.
pub open spec fn column_pixels(x: int, y: int, n: int) -> Set<(int, int)> {
    Set::new(|p: (int, int)| p.0 == x && y <= p.1 < y + n)
}

/// A row of `n` pixels holds `n` pixels.
pub proof fn lemma_row_count(x: int, y: int, n: nat)
    ensures
        row_pixels(x, y, n as int).finite(),
        row_pixels(x, y, n as int).len() == n,
    decreases n,
{
    if n == 0 {
        assert(row_pixels(x, y, 0) =~= Set::<(int, int)>::empty());
    } else {
        lemma_row_count(x, y, (n - 1) as nat);
        assert(row_pixels(x, y, n as int) =~= row_pixels(x, y, n - 1).insert((x + n - 1, y)));
    }
}

/// A column of `n` pixels holds `n` pixels.
pub proof fn lemma_column_count(x: int, y: int, n: nat)
    ensures
        column_pixels(x, y, n as int).finite(),
        column_pixels(x, y, n as int).len() == n,
    decreases n,
{
    if n == 0 {
        assert(column_pixels(x, y, 0) =~= Set::<(int, int)>::empty());
    } else {
        lemma_column_count(x, y, (n - 1) as nat);
        assert(column_pixels(x, y, n as int) =~= column_pixels(x, y, n - 1).insert((x, y + n - 1)));
    }
}

/// An outline one pixel thick, of a rectangle at least two pixels wide and
/// high, covers twice the width plus twice the height less the four corners
/// that would be counted twice; and where the rectangle lies on a surface
/// of `width` by `height` pixels, all of them are pixels of the surface.
pub proof fn lemma_thin_outline_count(rect: Rect, width: int, height: int)
    requires
        rect.width >= 2,
        rect.height >= 2,
    ensures
        outline_pixels(rect, 1).finite(),
        outline_pixels(rect, 1).len() == 2 * (rect.width + rect.height) - 4,
        0 <= rect.x && rect.x + rect.width <= width && 0 <= rect.y && rect.y + rect.height <= height
            ==> forall|p: (int, int)| #[trigger]
            outline_pixels(rect, 1).contains(p) ==> 0 <= p.0 < width && 0 <= p.1 < height,
{
    let w = rect.width as int;
    let h = rect.height as int;
    let x = rect.x as int;
    let y = rect.y as int;
    let top = row_pixels(x, y, w);
    let bottom = row_pixels(x, y + h - 1, w);
    let left = column_pixels(x, y + 1, h - 2);
    let right = column_pixels(x + w - 1, y + 1, h - 2);
    lemma_row_count(x, y, w as nat);
    lemma_row_count(x, y + h - 1, w as nat);
    lemma_column_count(x, y + 1, (h - 2) as nat);
    lemma_column_count(x + w - 1, y + 1, (h - 2) as nat);
    assert(top.disjoint(bottom));
    vstd::set_lib::lemma_set_disjoint_lens(top, bottom);
    let rows = top + bottom;
    assert(left.disjoint(right));
    vstd::set_lib::lemma_set_disjoint_lens(left, right);
    let columns = left + right;
    assert(rows.disjoint(columns));
    vstd::set_lib::lemma_set_disjoint_lens(rows, columns);
    assert(outline_pixels(rect, 1) =~= rows + columns);
}

/// The pixels of the `w` by `h` block whose top left corner is `(x, y)`.
pub open spec fn block_pixels(x: int, y: int, w: int, h: int) -> Set<(int, int)> {
    Set::new(|p: (int, int)| span_covers(x, y, w, h, p.0, p.1))
}

/// A block of `w` by `h` pixels holds `w * h` pixels.
pub proof fn lemma_block_count(x: int, y: int, w: nat, h: nat)
    ensures
        block_pixels(x, y, w as int, h as int).finite(),
        block_pixels(x, y, w as int, h as int).len() == w * h,
    decreases h,
{
    if h == 0 {
        assert(block_pixels(x, y, w as int, 0) =~= Set::<(int, int)>::empty());
        assert(w * 0 == 0) by (nonlinear_arith);
    } else {
        let above = block_pixels(x, y, w as int, h - 1);
        let last = row_pixels(x, y + h - 1, w as int);
        lemma_block_count(x, y, w, (h - 1) as nat);
        lemma_row_count(x, y + h - 1, w);
        assert(above.disjoint(last));
        vstd::set_lib::lemma_set_disjoint_lens(above, last);
        assert(block_pixels(x, y, w as int, h as int) =~= above + last);
        assert(w * (h - 1) + w == w * h) by (nonlinear_arith);
    }
}

/// A part of a finite set has at most as many elements as the whole, fewer
/// where an element of the whole is missing from it, and none only where
/// it holds none.
pub proof fn lemma_part_count<A>(part: Set<A>, whole: Set<A>)
    requires
        whole.finite(),
        part.subset_of(whole),
    ensures
        part.finite(),
        part.len() <= whole.len(),
        forall|p: A| whole.contains(p) && !part.contains(p) ==> part.len() < whole.len(),
        forall|p: A| part.contains(p) ==> part.len() > 0,
{
    vstd::set_lib::lemma_len_subset(part, whole);
    assert forall|p: A| whole.contains(p) && !part.contains(p) implies part.len() < whole.len() by {
        if part.len() == whole.len() {
            vstd::set_lib::lemma_subset_equality(part, whole);
            assert(part.contains(p));
        }
    }
    assert forall|p: A| part.contains(p) implies part.len() > 0 by {
        if part.len() == 0 {
            assert(part =~= Set::<A>::empty());
        }
    }
}

/// The pixels of the outline of `rect` that lie on a surface of `width` by
/// `height` pixels: those that are drawn.
pub open spec fn visible_outline_pixels(rect: Rect, thickness: u16, width: int, height: int) -> Set<
    (int, int),
> {
    Set::new(
        |p: (int, int)|
            rect_outline_covers(rect, thickness, p.0, p.1) && 0 <= p.0 < width && 0 <= p.1 < height,
    )
}

/// Clipping takes pixels away and adds none: what is drawn of an outline
/// is part of the outline, at most as many pixels as the whole outline
/// has, fewer where a pixel of the outline lies off the surface, and none
/// only where none lies on it.
pub proof fn lemma_visible_outline_count(rect: Rect, thickness: u16, width: int, height: int)
    ensures
        outline_pixels(rect, thickness).finite(),
        outline_pixels(rect, thickness).len() <= rect.width * rect.height,
        visible_outline_pixels(rect, thickness, width, height).finite(),
        visible_outline_pixels(rect, thickness, width, height).subset_of(outline_pixels(rect, thickness)),
        visible_outline_pixels(rect, thickness, width, height).len() <= outline_pixels(
            rect,
            thickness,
        ).len(),
        forall|p: (int, int)|
            outline_pixels(rect, thickness).contains(p) && !(0 <= p.0 < width && 0 <= p.1 < height)
                ==> visible_outline_pixels(rect, thickness, width, height).len() < outline_pixels(
                rect,
                thickness,
            ).len(),
        forall|p: (int, int)|
            visible_outline_pixels(rect, thickness, width, height).contains(p)
                ==> visible_outline_pixels(rect, thickness, width, height).len() > 0,
{
    let full = outline_pixels(rect, thickness);
    let seen = visible_outline_pixels(rect, thickness, width, height);
    let block = block_pixels(rect.x as int, rect.y as int, rect.width as int, rect.height as int);
    lemma_block_count(rect.x as int, rect.y as int, rect.width as nat, rect.height as nat);
    assert(full.subset_of(block));
    vstd::set_lib::lemma_len_subset(full, block);
    assert(seen.subset_of(full));
    lemma_part_count(seen, full);
    assert forall|p: (int, int)| full.contains(p) && !(0 <= p.0 < width && 0 <= p.1 < height) implies seen.len()
        < full.len() by {
        assert(!seen.contains(p));
    }
}

/// Painting a region of a layer again, in the same colour, changes nothing
/// in any layer.
pub proof fn lemma_painted_in_layer_twice<S: PixelSinkLayers>(
    s0: &S,
    s1: &S,
    s2: &S,
    layer: Layer,
    region: spec_fn(int, int) -> bool,
    color: Rgb565,
)
    requires
        painted_in_layer(s0, s1, layer, region, color),
        painted_in_layer(s1, s2, layer, region, color),
    ensures
        painted_in_layer(s0, s2, layer, region, color),
        s2.dims() == s1.dims(),
        s1.rest_unchanged(s2),
        forall|l: Layer, x: int, y: int|
            0 <= x < s1.dims().0 && 0 <= y < s1.dims().1 ==> #[trigger] s2.pixel_in_layer(l, x, y)
                == s1.pixel_in_layer(l, x, y),
{
    s0.rest_unchanged_transitive(s1, s2);
    assert forall|l: Layer, x: int, y: int|
        0 <= x < s0.dims().0 && 0 <= y < s0.dims().1 implies #[trigger] s2.pixel_in_layer(l, x, y)
        == s1.pixel_in_layer(l, x, y) by {
        let _ = s1.pixel_in_layer(l, x, y);
    }
}

/// The pixels that the outline of `tri` covers.
pub open spec fn triangle_pixels(tri: Triangle, thickness: u16) -> Set<(int, int)> {
    Set::new(|p: (int, int)| triangle_outline_covers(tri, thickness, p.0, p.1))
}

/// The pixels of the outline of `tri` that lie on a surface of `width` by
/// `height` pixels: those that are drawn.
pub open spec fn visible_triangle_pixels(tri: Triangle, thickness: u16, width: int, height: int) -> Set<
    (int, int),
> {
    Set::new(
        |p: (int, int)|
            triangle_outline_covers(tri, thickness, p.0, p.1) && 0 <= p.0 < width && 0 <= p.1 < height,
    )
}

/// The smallest of three numbers.
pub open spec fn least_of(a: int, b: int, c: int) -> int {
    least(least(a, b), c)
}

/// The largest of three numbers.
pub open spec fn most_of(a: int, b: int, c: int) -> int {
    -least_of(-a, -b, -c)
}

/// A stroke stays within the block around its two ends, grown by the
/// square that is stamped.
pub proof fn lemma_line_stays_near_its_ends(a: Point, b: Point, thickness: u16, px: int, py: int)
    requires
        line_covers(a, b, thickness, px, py),
    ensures
        least(a.x as int, b.x as int) - thickness / 2 <= px < -least(-a.x, -b.x) - thickness / 2
            + stamp_side(thickness),
        least(a.y as int, b.y as int) - thickness / 2 <= py < -least(-a.y, -b.y) - thickness / 2
            + stamp_side(thickness),
{
    let k = choose|k: int| 0 <= k <= line_steps(a, b) && #[trigger] stamp_at(a, b, thickness, k, px, py);
    lemma_line_point_between(a, b, k);
}

/// Clipping takes pixels away from the outline of a triangle and adds
/// none: what is drawn is part of the outline, at most as many pixels as
/// the whole outline has, fewer where a pixel of the outline lies off the
/// surface, and none only where none lies on it.
pub proof fn lemma_visible_triangle_count(tri: Triangle, thickness: u16, width: int, height: int)
    ensures
        triangle_pixels(tri, thickness).finite(),
        visible_triangle_pixels(tri, thickness, width, height).finite(),
        visible_triangle_pixels(tri, thickness, width, height).subset_of(triangle_pixels(tri, thickness)),
        visible_triangle_pixels(tri, thickness, width, height).len() <= triangle_pixels(
            tri,
            thickness,
        ).len(),
        forall|p: (int, int)|
            triangle_pixels(tri, thickness).contains(p) && !(0 <= p.0 < width && 0 <= p.1 < height)
                ==> visible_triangle_pixels(tri, thickness, width, height).len() < triangle_pixels(
                tri,
                thickness,
            ).len(),
        forall|p: (int, int)|
            visible_triangle_pixels(tri, thickness, width, height).contains(p)
                ==> visible_triangle_pixels(tri, thickness, width, height).len() > 0,
{
    let full = triangle_pixels(tri, thickness);
    let seen = visible_triangle_pixels(tri, thickness, width, height);
    let x0 = least_of(tri.a.x as int, tri.b.x as int, tri.c.x as int) - thickness / 2;
    let y0 = least_of(tri.a.y as int, tri.b.y as int, tri.c.y as int) - thickness / 2;
    let w = most_of(tri.a.x as int, tri.b.x as int, tri.c.x as int) - thickness / 2 + stamp_side(thickness)
        - x0;
    let h = most_of(tri.a.y as int, tri.b.y as int, tri.c.y as int) - thickness / 2 + stamp_side(thickness)
        - y0;
    let block = block_pixels(x0, y0, w, h);
    lemma_block_count(x0, y0, w as nat, h as nat);
    assert forall|p: (int, int)| full.contains(p) implies block.contains(p) by {
        if line_covers(tri.a, tri.b, thickness, p.0, p.1) {
            lemma_line_stays_near_its_ends(tri.a, tri.b, thickness, p.0, p.1);
        } else if line_covers(tri.b, tri.c, thickness, p.0, p.1) {
            lemma_line_stays_near_its_ends(tri.b, tri.c, thickness, p.0, p.1);
        } else {
            lemma_line_stays_near_its_ends(tri.c, tri.a, thickness, p.0, p.1);
        }
    }
    assert(full.subset_of(block));
    vstd::set_lib::lemma_len_subset(full, block);
    assert(seen.subset_of(full));
    lemma_part_count(seen, full);
    assert forall|p: (int, int)| full.contains(p) && !(0 <= p.0 < width && 0 <= p.1 < height) implies seen.len()
        < full.len() by {
        assert(!seen.contains(p));
    }
}

} // verus!
