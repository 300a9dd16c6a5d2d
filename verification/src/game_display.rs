//! The screen of the game as its display driver takes it: positions and
//! sizes in sixteen bits.

use vstd::prelude::*;

verus! {

/// A coordinate of the game.
pub type Coord = i32;

/// Whether a coordinate fits the driver's sixteen bits.
pub open spec fn coord_fits(v: int) -> bool {
    0 <= v <= 0xFFFF
}

/// Whether a position fits the driver.
pub fn point_in_range(x: Coord, y: Coord) -> (ok: bool)
    ensures
        ok == (coord_fits(x as int) && coord_fits(y as int)),
{
    0 <= x && x <= 0xFFFF && 0 <= y && y <= 0xFFFF
}

/// Whether a position and a size fit the driver.
pub fn area_in_range(x: Coord, w: u32, y: Coord, h: u32) -> (ok: bool)
    ensures
        ok == (coord_fits(x as int) && coord_fits(w as int) && coord_fits(y as int) && coord_fits(
            h as int,
        )),
{
    point_in_range(x, y) && w <= 0xFFFF && h <= 0xFFFF
}

/// A position as the driver takes it.
pub fn checked_point(x: Coord, y: Coord) -> (r: (u16, u16))
    requires
        coord_fits(x as int),
        coord_fits(y as int),
    ensures
        r.0 == x,
        r.1 == y,
{
    (x as u16, y as u16)
}

/// A position and a size as the driver takes them, in the driver's order:
/// x, width, y, height.
pub fn checked_area(x: Coord, w: u32, y: Coord, h: u32) -> (r: (u16, u16, u16, u16))
    requires
        coord_fits(x as int),
        coord_fits(w as int),
        coord_fits(y as int),
        coord_fits(h as int),
    ensures
        r.0 == x,
        r.1 == w,
        r.2 == y,
        r.3 == h,
{
    (x as u16, w as u16, y as u16, h as u16)
}

} // verus!
