//! A picture to show that a panel works.

use vstd::prelude::*;
use crate::display::Rgb565;
use crate::shapes::{
    draw_rectangle_outline, painted, rect_cells, rect_outline_covers, writes_of, PixelSink, Rect,
};

verus! {

/// The rectangle of the demonstration: 160 by 80 pixels at `(40, 60)`.
pub open spec fn demo_rect() -> Rect {
    Rect { x: 40, y: 60, width: 160, height: 80 }
}

/// Draws the outline of the demonstration's rectangle, one pixel thick, in
/// white.
pub fn f429_rect<S: PixelSink>(panel: &mut S)
    ensures
        painted(
            old(panel),
            final(panel),
            |px: int, py: int| rect_outline_covers(demo_rect(), 1, px, py),
            Rgb565(0xFFFF),
        ),
        old(panel).records() ==> final(panel).handed() == old(panel).handed() + writes_of(
            rect_cells(demo_rect(), 1, old(panel).dims()),
            Rgb565(0xFFFF),
        ),
{
    let white = Rgb565::from_rgb888(255, 255, 255);
    proof {
        assert(crate::display::pack_rgb888(255, 255, 255) == 0xFFFF) by (bit_vector);
    }
    let _ = draw_rectangle_outline(panel, Rect { x: 40, y: 60, width: 160, height: 80 }, white, 1);
}

} // verus!
