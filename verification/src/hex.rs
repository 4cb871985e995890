//! Pointy-top hex layout geometry, in exact quarter-pixel integers.
//!
//! A cell has an independently configurable width `w` and height `h` (it
//! need not be regular). Cells sit in columns `c` and rows `r`; every row
//! is staggered to the right by `r * w / 2` pixels. The center of cell
//! `(c, r)` under a camera offset `(ox, oy)` is, in pixels,
//!
//! ```text
//! x = c*w + ox + r*w/2 + w/2
//! y = r*h*3/4 + oy + h/2
//! ```
//!
//! and its six corner points are `center + (w/sqrt(3)*cos a, h/2*sin a)`
//! for the angles `a = 60*i - 30` degrees, `i` in `0..6`. At those angles
//! the trigonometry collapses to the exact offsets `(+-w/2, +-h/4)`,
//! `(0, +-h/2)`, so every coordinate of the layout is a multiple of a
//! quarter pixel. This module therefore measures positions in quarter
//! pixels: a `PixelPoint` holds `4*x` and `4*y`, exactly.

use vstd::prelude::*;

verus! {

/// A pixel position, stored as exact quarter-pixel coordinates:
/// the point is `(x4 / 4, y4 / 4)` in pixels.
#[derive(Clone, Copy, PartialEq, Eq, Structural, Debug)]
pub struct PixelPoint {
    pub x4: i64,
    pub y4: i64,
}

impl PixelPoint {
    /// The point `(x, y)` in whole pixels.
    pub fn from_pixels(x: i32, y: i32) -> (p: PixelPoint)
        ensures
            p.x4 == 4 * x as int,
            p.y4 == 4 * y as int,
    {
        PixelPoint { x4: 4 * (x as i64), y4: 4 * (y as i64) }
    }
}

/// Quarter-pixel x coordinate of the center of cell `(c, r)`:
/// `4 * (c*w + ox + r*w/2 + w/2)`.
pub open spec fn center_x4(c: int, r: int, w: int, ox: int) -> int {
    4 * c * w + 2 * r * w + 2 * w + 4 * ox
}

/// Quarter-pixel y coordinate of the center of cell `(c, r)`:
/// `4 * (r*h*3/4 + oy + h/2)`.
pub open spec fn center_y4(r: int, h: int, oy: int) -> int {
    3 * r * h + 2 * h + 4 * oy
}

/// Quarter-pixel x offset of corner `i` from the cell center:
/// `4 * (w/sqrt(3)) * cos(60*i - 30 degrees)`.
pub open spec fn corner_dx4(i: int, w: int) -> int {
    if i == 0 || i == 1 {
        2 * w
    } else if i == 3 || i == 4 {
        -2 * w
    } else {
        0
    }
}

/// Quarter-pixel y offset of corner `i` from the cell center:
/// `4 * (h/2) * sin(60*i - 30 degrees)`.
pub open spec fn corner_dy4(i: int, h: int) -> int {
    if i == 1 || i == 3 {
        h
    } else if i == 0 || i == 4 {
        -h
    } else if i == 2 {
        2 * h
    } else {
        -2 * h
    }
}

/// With a column, row and cell size of at most `u16::MAX` and a camera
/// offset within `i32`, a center coordinate stays within a few multiples
/// of `2^32` quarter pixels, far inside `i64`.
pub proof fn lemma_center_in_range(c: int, r: int, w: int, h: int, ox: int, oy: int)
    requires
        0 <= c <= 0xffff,
        0 <= r <= 0xffff,
        0 <= w <= 0xffff,
        0 <= h <= 0xffff,
        -0x8000_0000 <= ox <= 0x7fff_ffff,
        -0x8000_0000 <= oy <= 0x7fff_ffff,
    ensures
        -9_000_000_000 <= center_x4(c, r, w, ox) <= 35_000_000_000,
        -9_000_000_000 <= center_y4(r, h, oy) <= 22_000_000_000,
{
    assert(0 <= c * w <= 0xffff * 0xffff && 0 <= r * w <= 0xffff * 0xffff && 0 <= r * h <= 0xffff
        * 0xffff) by (nonlinear_arith)
        requires
            0 <= c <= 0xffff,
            0 <= r <= 0xffff,
            0 <= w <= 0xffff,
            0 <= h <= 0xffff,
    ;
    assert(4 * c * w == 4 * (c * w) && 2 * r * w == 2 * (r * w) && 3 * r * h == 3 * (r * h))
        by (nonlinear_arith);
}

/// The center of a cell is the arithmetic mean of its six corner points,
/// exactly: summed over the six corners, each coordinate comes to six
/// times the center coordinate, because the corner offsets cancel.
pub proof fn lemma_center_is_mean_of_corners(c: int, r: int, w: int, h: int, ox: int, oy: int)
    ensures
        (center_x4(c, r, w, ox) + corner_dx4(0, w)) + (center_x4(c, r, w, ox) + corner_dx4(1, w))
            + (center_x4(c, r, w, ox) + corner_dx4(2, w)) + (center_x4(c, r, w, ox) + corner_dx4(
            3,
            w,
        )) + (center_x4(c, r, w, ox) + corner_dx4(4, w)) + (center_x4(c, r, w, ox) + corner_dx4(
            5,
            w,
        )) == 6 * center_x4(c, r, w, ox),
        (center_y4(r, h, oy) + corner_dy4(0, h)) + (center_y4(r, h, oy) + corner_dy4(1, h)) + (
        center_y4(r, h, oy) + corner_dy4(2, h)) + (center_y4(r, h, oy) + corner_dy4(3, h)) + (
        center_y4(r, h, oy) + corner_dy4(4, h)) + (center_y4(r, h, oy) + corner_dy4(5, h)) == 6
            * center_y4(r, h, oy),
{
}

} // verus!
