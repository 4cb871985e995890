//! The camera: a pan offset in whole pixels, moved by drag deltas under
//! an asymmetric clamp against the grid and window extents.
//!
//! The clamp is deliberately one-sided, per axis and per frame: a delta
//! `d` is applied only if both
//!
//! * the moved offset stays at or below zero (the grid's top-left corner
//!   never comes past the viewport's top-left corner), and
//! * the grid's far edge still covers the window after the move:
//!   `map_extent + offset + d > window`.
//!
//! Otherwise the offset is left unchanged for this frame. The rule never
//! re-clamps the opposite edge; panning that would expose background
//! beyond the far edge silently stops.
//!
//! The map extents are `(width + height/2) * tile_width` pixels across
//! (the widest, bottom row ends at that stagger) and
//! `(height + 1/2) * tile_height * 3/4` pixels down. To stay exact they
//! are carried scaled: the x comparison is scaled by 2, the y comparison
//! by 8.

use vstd::prelude::*;

use crate::grid::Grid;

verus! {

/// Twice the map's x extent in pixels: `2 * (width + height/2) * tile_width`.
pub open spec fn map_extent_x2(width: int, height: int, tile_width: int) -> int {
    (2 * width + height) * tile_width
}

/// Eight times the map's y extent in pixels:
/// `8 * (height + 1/2) * tile_height * 3/4`.
pub open spec fn map_extent_y8(height: int, tile_height: int) -> int {
    3 * (2 * height + 1) * tile_height
}

/// One axis of the clamped pan update: apply delta `d` to `off` only if
/// the moved offset stays at or below zero and the far edge still covers
/// the window. `extent_scaled` and the comparison are scaled by
/// `scale` so the half- and three-quarter-pixel extents stay exact.
pub open spec fn pan_step(off: int, d: int, extent_scaled: int, window: int, scale: int) -> int {
    if off + d <= 0 && extent_scaled + scale * (off + d) > scale * window {
        off + d
    } else {
        off
    }
}

/// The x offset after one pan of delta `dx` against a grid and window.
pub open spec fn pan_step_x(
    off: int,
    dx: int,
    width: int,
    height: int,
    tile_width: int,
    window_width: int,
) -> int {
    pan_step(off, dx, map_extent_x2(width, height, tile_width), window_width, 2)
}

/// The y offset after one pan of delta `dy` against a grid and window.
pub open spec fn pan_step_y(
    off: int,
    dy: int,
    height: int,
    tile_height: int,
    window_height: int,
) -> int {
    pan_step(off, dy, map_extent_y8(height, tile_height), window_height, 8)
}

/// The offset after `n` pans of the same delta `d` on one axis.
pub open spec fn pan_iter(
    off: int,
    d: int,
    extent_scaled: int,
    window: int,
    scale: int,
    n: nat,
) -> int
    decreases n,
{
    if n == 0 {
        off
    } else {
        pan_iter(pan_step(off, d, extent_scaled, window, scale), d, extent_scaled, window, scale, (
        n - 1) as nat)
    }
}

/// The clamp never lets an axis offset become positive: from an offset at
/// or below zero, any delta leaves it at or below zero.
pub proof fn lemma_pan_never_positive(off: int, d: int, extent_scaled: int, window: int, scale: int)
    requires
        off <= 0,
    ensures
        pan_step(off, d, extent_scaled, window, scale) <= 0,
{
}

/// An axis offset at exactly zero is kept there by every positive delta,
/// however often it is applied.
pub proof fn lemma_pan_positive_delta_keeps_zero(
    d: int,
    extent_scaled: int,
    window: int,
    scale: int,
    n: nat,
)
    requires
        d >= 1,
    ensures
        pan_iter(0, d, extent_scaled, window, scale, n) == 0,
    decreases n,
{
    if n > 0 {
        lemma_pan_positive_delta_keeps_zero(d, extent_scaled, window, scale, (n - 1) as nat);
    }
}

/// From an offset that is a whole multiple `-d * n` of a positive delta
/// `d`, and with the far edge covering the window throughout (it covers
/// it at the first, lowest step, and every later step only raises the
/// offset), `n` pans of `+d` drive the offset to exactly zero, and
/// further ones keep it there.
pub proof fn lemma_pan_drives_offset_to_zero(
    d: int,
    extent_scaled: int,
    window: int,
    scale: int,
    n: nat,
    m: nat,
)
    requires
        d >= 1,
        scale >= 1,
        extent_scaled + scale * (-d * n + d) > scale * window,
    ensures
        pan_iter(-d * n, d, extent_scaled, window, scale, n + m) == 0,
    decreases n,
{
    if n == 0 {
        assert(-d * 0 == 0) by (nonlinear_arith);
        lemma_pan_positive_delta_keeps_zero(d, extent_scaled, window, scale, m);
    } else {
        let off = -d * n;
        assert(off + d == -d * (n - 1) && off + d <= 0) by (nonlinear_arith)
            requires
                off == -d * n && d >= 1 && n >= 1,
        ;
        assert(pan_step(off, d, extent_scaled, window, scale) == off + d);
        assert(extent_scaled + scale * (-d * (n - 1) + d) > scale * window) by (nonlinear_arith)
            requires
                extent_scaled + scale * (off + d) > scale * window,
                off + d == -d * (n - 1),
                off == -d * n,
                d >= 1,
                scale >= 1,
                n >= 1,
        ;
        lemma_pan_drives_offset_to_zero(d, extent_scaled, window, scale, (n - 1) as nat, m);
    }
}

/// The camera's pan offset in whole pixels, both axes at or below zero
/// whenever it only ever moved by [`CameraController::pan`] from the
/// initial `(0, 0)`.
#[derive(Clone, Copy, PartialEq, Eq, Structural, Debug)]
pub struct CameraController {
    pub cameraoffset_x: i32,
    pub cameraoffset_y: i32,
}

impl CameraController {
    /// A camera at the home position: offset `(0, 0)`.
    pub fn new() -> (cam: CameraController)
        ensures
            cam.cameraoffset_x == 0,
            cam.cameraoffset_y == 0,
    {
        CameraController { cameraoffset_x: 0, cameraoffset_y: 0 }
    }

    /// Apply one drag frame's delta `(dx, dy)` under the asymmetric
    /// clamp, against the extents of `grid` and a window of
    /// `window_width` by `window_height` pixels. Each axis moves or stays
    /// independently, exactly as [`pan_step`] says.
    pub fn pan(
        &mut self,
        dx: i32,
        dy: i32,
        window_width: u32,
        window_height: u32,
        grid: &Grid,
    )
        requires
            old(self).cameraoffset_x + dx >= i32::MIN,
            old(self).cameraoffset_y + dy >= i32::MIN,
        ensures
            final(self).cameraoffset_x == pan_step_x(
                old(self).cameraoffset_x as int,
                dx as int,
                grid.width as int,
                grid.height as int,
                grid.tile_width as int,
                window_width as int,
            ),
            final(self).cameraoffset_y == pan_step_y(
                old(self).cameraoffset_y as int,
                dy as int,
                grid.height as int,
                grid.tile_height as int,
                window_height as int,
            ),
    {
        proof {
            assert((2 * grid.width as int + grid.height as int) * grid.tile_width as int
                <= 196605 * 65535 && (2 * grid.width as int + grid.height as int)
                * grid.tile_width as int >= 0) by (nonlinear_arith);
            assert((2 * grid.height as int + 1) * grid.tile_height as int <= 131071 * 65535 && (2
                * grid.height as int + 1) * grid.tile_height as int >= 0) by (nonlinear_arith);
            assert(3 * ((2 * grid.height as int + 1) * grid.tile_height as int) == 3 * (2
                * grid.height as int + 1) * grid.tile_height as int) by (nonlinear_arith);
        }
        let extent_x2: i64 = (2 * (grid.width as i64) + (grid.height as i64))
            * (grid.tile_width as i64);
        let moved_x: i64 = self.cameraoffset_x as i64 + dx as i64;
        if moved_x <= 0 && extent_x2 + 2 * moved_x > 2 * (window_width as i64) {
            self.cameraoffset_x = moved_x as i32;
        }
        let extent_y8: i64 = 3 * ((2 * (grid.height as i64) + 1) * (grid.tile_height as i64));
        let moved_y: i64 = self.cameraoffset_y as i64 + dy as i64;
        if moved_y <= 0 && extent_y8 + 8 * moved_y > 8 * (window_height as i64) {
            self.cameraoffset_y = moved_y as i32;
        }
    }
}

} // verus!
