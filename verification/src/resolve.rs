//! Pointer resolution: from a pixel position and the camera offset to the
//! containing tile, by a fractional cell estimate and a four-candidate
//! nearest-center disambiguation.
//!
//! For a pixel point `(x, y)` made local by subtracting the camera offset,
//! the fractional estimates of column and row are
//!
//! ```text
//! ex = (x - ox)/w - ((y - oy)/(h*3/4) * (w/2))/w - 1/2
//! ey = (y - oy)/(h*3/4) - 1/2
//! ```
//!
//! Each is clamped into `[-99/100, extent - 51/100]` (extent = grid width
//! for `ex`, grid height for `ey`), so its floor and ceiling are sane
//! candidates even at the grid edges. The four integer candidates
//! `(floor ex, floor ey), (floor ex, ceil ey), (ceil ex, floor ey),
//! (ceil ex, ceil ey)`, in that fixed order, are compared by distance from
//! the point to their cell centers, with the vertical compression `w/h`
//! applied to the y difference; a candidate outside the grid counts as
//! infinitely far. The earliest candidate at minimal distance wins; only
//! when all four are outside the grid (possible only on an empty grid) is
//! the answer none.
//!
//! All of it is computed exactly: an estimate is carried as an integer
//! numerator over the denominator `12*w*h` (scaled by a further 100 once
//! clamped), and distances are compared as squared distances scaled by
//! `16*h*h`, which orders them exactly as the true distances.

use vstd::arithmetic::div_mod::{
    lemma_div_is_ordered, lemma_div_plus_one, lemma_fundamental_div_mod,
    lemma_fundamental_div_mod_converse, lemma_mod_add_multiples_vanish,
};
use vstd::prelude::*;

use crate::grid::Grid;
use crate::hex::{center_x4, center_y4, PixelPoint};

verus! {

/// The largest quarter-pixel coordinate the resolver accepts, one
/// hundred times any screen: it keeps the exact scaled squared
/// distances (up to around `2^124`) inside machine integers.
pub const COORD_LIMIT_X4: i64 = 40_000_000_000_000;

/// Numerator of the column estimate `ex` over the denominator `12*w*h`,
/// for the quarter-pixel point `(x4, y4)` and camera offset `(ox, oy)`.
pub open spec fn est_x_num(x4: int, y4: int, ox: int, oy: int, w: int, h: int) -> int {
    3 * (h * (x4 - 4 * ox)) - 2 * (w * (y4 - 4 * oy)) - 6 * (w * h)
}

/// Numerator of the row estimate `ey` over the denominator `12*w*h`.
pub open spec fn est_y_num(y4: int, oy: int, w: int, h: int) -> int {
    4 * (w * (y4 - 4 * oy)) - 6 * (w * h)
}

/// The estimate `num/den` clamped into `[-99/100, extent - 51/100]`,
/// returned as a numerator over the finer denominator `100*den`.
pub open spec fn clamped_num(num: int, den: int, extent: int) -> int {
    if 100 * num < -99 * den {
        -99 * den
    } else if 100 * num > (100 * extent - 51) * den {
        (100 * extent - 51) * den
    } else {
        100 * num
    }
}

/// Floor of the clamped estimate. Division by the positive `100*den`
/// rounds toward minus infinity.
pub open spec fn floor_est(num: int, den: int, extent: int) -> int {
    clamped_num(num, den, extent) / (100 * den)
}

/// Ceiling of the clamped estimate.
pub open spec fn ceil_est(num: int, den: int, extent: int) -> int {
    if clamped_num(num, den, extent) % (100 * den) == 0 {
        floor_est(num, den, extent)
    } else {
        floor_est(num, den, extent) + 1
    }
}

/// After the clamp, floor and ceiling of an estimate frame the valid
/// cell range: the floor is in `[-1, extent-1]`, the ceiling in
/// `[0, extent]`, one apart exactly when the estimate is not whole.
pub proof fn lemma_est_bounds(num: int, den: int, extent: int)
    requires
        den >= 1,
        extent >= 0,
    ensures
        -1 <= floor_est(num, den, extent) <= extent - 1,
        ceil_est(num, den, extent) == floor_est(num, den, extent) || ceil_est(num, den, extent)
            == floor_est(num, den, extent) + 1,
        0 <= ceil_est(num, den, extent) <= extent,
{
    let d100 = 100 * den;
    let c = clamped_num(num, den, extent);
    let hi = (100 * extent - 51) * den;
    assert((100 * extent - 51) * den == (extent - 1) * (100 * den) + 49 * den)
        by (nonlinear_arith);
    assert(-99 * den <= (100 * extent - 51) * den) by (nonlinear_arith)
        requires
            den >= 1 && extent >= 0,
    ;
    assert(-99 * den <= c <= hi);
    lemma_fundamental_div_mod_converse(-99 * den, d100, -1, den);
    lemma_fundamental_div_mod_converse(hi, d100, extent - 1, 49 * den);
    lemma_div_is_ordered(-99 * den, c, d100);
    lemma_div_is_ordered(c, hi, d100);
    assert(-1 <= c / d100 <= extent - 1);
    if c % d100 == 0 {
        lemma_fundamental_div_mod(c, d100);
        if c / d100 == -1 {
            assert(c == -d100);
            assert(false);
        }
        assert(c / d100 >= 0);
    }
}

/// Floor and ceiling of the clamped estimate `num/den`, computed with
/// exact integer arithmetic. `extent` is the grid extent the estimate is
/// clamped against.
fn floor_ceil_est(num: i128, den: i128, extent: u16) -> (fc: (i64, i64))
    requires
        1 <= den <= 100_000_000_000,
        -100_000_000_000_000_000_000 <= num <= 100_000_000_000_000_000_000,
    ensures
        fc.0 as int == floor_est(num as int, den as int, extent as int),
        fc.1 as int == ceil_est(num as int, den as int, extent as int),
        -1 <= fc.0 <= extent as i64 - 1,
        0 <= fc.1 <= extent as i64,
{
    proof {
        lemma_est_bounds(num as int, den as int, extent as int);
    }
    let den100: i128 = 100 * den;
    let lo: i128 = -(99 * den);
    let hi: i128 = {
        let bound: i128 = 100 * (extent as i128) - 51;
        proof {
            assert(bound * den <= 6_553_449 * 100_000_000_000 && bound * den >= -51
                * 100_000_000_000) by (nonlinear_arith)
                requires
                    1 <= den <= 100_000_000_000 && -51 <= bound <= 6_553_449,
            ;
        }
        bound * den
    };
    proof {
        assert((100 * (extent as int) - 51) * (den as int) >= -99 * (den as int))
            by (nonlinear_arith)
            requires
                den as int >= 1 && extent as int >= 0,
        ;
    }
    let n100: i128 = 100 * num;
    let cnum: i128 = if n100 < lo {
        lo
    } else if n100 > hi {
        hi
    } else {
        n100
    };
    let shifted: i128 = cnum + den100;
    proof {
        assert(shifted >= den as int);
        lemma_div_plus_one(cnum as int, den100 as int);
        lemma_mod_add_multiples_vanish(cnum as int, den100 as int);
    }
    let q: u128 = (shifted as u128) / (den100 as u128);
    let rem: u128 = (shifted as u128) % (den100 as u128);
    proof {
        assert(q == shifted as int / den100 as int);
        assert(q == floor_est(num as int, den as int, extent as int) + 1);
        assert(rem == shifted as int % den100 as int);
        assert(rem == clamped_num(num as int, den as int, extent as int) % (den100 as int));
    }
    let fl: i64 = (q as i64) - 1;
    let cl: i64 = if rem == 0 {
        fl
    } else {
        fl + 1
    };
    (fl, cl)
}

/// Squared distance between the quarter-pixel point `(x4, y4)` and the
/// center of cell `(c, r)`, with the vertical compression `w/h` applied
/// to the y difference, scaled by `16*h*h`. Scaling and squaring are both
/// strictly monotone, so comparing these numbers orders candidates
/// exactly as the true distances do.
pub open spec fn dist_num(x4: int, y4: int, c: int, r: int, w: int, h: int, ox: int, oy: int) -> int {
    let a = h * (x4 - center_x4(c, r, w, ox));
    let b = w * (y4 - center_y4(r, h, oy));
    a * a + b * b
}

/// The distance of candidate cell `(c, r)` from the point, with `None`
/// standing for "infinitely far" when the candidate is outside the grid.
pub open spec fn cand_dist(
    width: int,
    height: int,
    x4: int,
    y4: int,
    c: int,
    r: int,
    w: int,
    h: int,
    ox: int,
    oy: int,
) -> Option<int> {
    if 0 <= c < width && 0 <= r < height {
        Option::Some(dist_num(x4, y4, c, r, w, h, ox, oy))
    } else {
        Option::None
    }
}

/// `a <= b` on candidate distances, where `None` stands for +infinity
/// (so `None <= None` holds, as two infinities compare equal).
pub open spec fn dist_le(a: Option<int>, b: Option<int>) -> bool {
    match b {
        Option::None => true,
        Option::Some(bv) => match a {
            Option::None => false,
            Option::Some(av) => av <= bv,
        },
    }
}

/// A machine candidate distance as its mathematical value.
pub open spec fn opt_dist(o: Option<i128>) -> Option<int> {
    match o {
        Option::Some(v) => Option::Some(v as int),
        Option::None => Option::None,
    }
}

/// The cell the resolver answers for the quarter-pixel point `(x4, y4)`
/// under camera offset `(ox, oy)`, on a grid of `width` by `height` cells
/// of size `w` by `h`: the earliest of the four floor/ceiling candidates
/// at minimal center distance, or `None` when no candidate is a cell.
pub open spec fn resolve_spec(
    width: int,
    height: int,
    w: int,
    h: int,
    x4: int,
    y4: int,
    ox: int,
    oy: int,
) -> Option<(int, int)> {
    let den = 12 * (w * h);
    let nx = est_x_num(x4, y4, ox, oy, w, h);
    let ny = est_y_num(y4, oy, w, h);
    let fx = floor_est(nx, den, width);
    let gx = ceil_est(nx, den, width);
    let fy = floor_est(ny, den, height);
    let gy = ceil_est(ny, den, height);
    let d1 = cand_dist(width, height, x4, y4, fx, fy, w, h, ox, oy);
    let d2 = cand_dist(width, height, x4, y4, fx, gy, w, h, ox, oy);
    let d3 = cand_dist(width, height, x4, y4, gx, fy, w, h, ox, oy);
    let d4 = cand_dist(width, height, x4, y4, gx, gy, w, h, ox, oy);
    let sel = if dist_le(d1, d2) && dist_le(d1, d3) && dist_le(d1, d4) {
        (fx, fy)
    } else if dist_le(d2, d1) && dist_le(d2, d3) && dist_le(d2, d4) {
        (fx, gy)
    } else if dist_le(d3, d1) && dist_le(d3, d2) && dist_le(d3, d4) {
        (gx, fy)
    } else {
        (gx, gy)
    };
    if 0 <= sel.0 < width && 0 <= sel.1 < height {
        Option::Some(sel)
    } else {
        Option::None
    }
}

/// The resolver degrades to `None` only when it must: on a grid with at
/// least one cell it answers a cell for every point and every offset,
/// however far outside the window the point lies, and on a grid with no
/// cells it answers none.
pub proof fn lemma_resolve_spec_total(
    width: int,
    height: int,
    w: int,
    h: int,
    x4: int,
    y4: int,
    ox: int,
    oy: int,
)
    requires
        w >= 1,
        h >= 1,
    ensures
        resolve_spec(width, height, w, h, x4, y4, ox, oy) is Some <==> width >= 1 && height >= 1,
{
    let den = 12 * (w * h);
    assert(12 * (w * h) >= 12) by (nonlinear_arith)
        requires
            w >= 1 && h >= 1,
    ;
    let nx = est_x_num(x4, y4, ox, oy, w, h);
    let ny = est_y_num(y4, oy, w, h);
    if width >= 1 && height >= 1 {
        lemma_est_bounds(nx, den, width);
        lemma_est_bounds(ny, den, height);
        let fx = floor_est(nx, den, width);
        let gx = ceil_est(nx, den, width);
        let fy = floor_est(ny, den, height);
        let gy = ceil_est(ny, den, height);
        let vx = if gx < width {
            gx
        } else {
            fx
        };
        let vy = if gy < height {
            gy
        } else {
            fy
        };
        assert(0 <= vx < width && (vx == fx || vx == gx));
        assert(0 <= vy < height && (vy == fy || vy == gy));
        let d1 = cand_dist(width, height, x4, y4, fx, fy, w, h, ox, oy);
        let d2 = cand_dist(width, height, x4, y4, fx, gy, w, h, ox, oy);
        let d3 = cand_dist(width, height, x4, y4, gx, fy, w, h, ox, oy);
        let d4 = cand_dist(width, height, x4, y4, gx, gy, w, h, ox, oy);
        assert(d1 is Some || d2 is Some || d3 is Some || d4 is Some);
        if dist_le(d1, d2) && dist_le(d1, d3) && dist_le(d1, d4) {
            assert(d1 is Some);
        } else if dist_le(d2, d1) && dist_le(d2, d3) && dist_le(d2, d4) {
            assert(d2 is Some);
        } else if dist_le(d3, d1) && dist_le(d3, d2) && dist_le(d3, d4) {
            assert(d3 is Some);
        } else {
            assert(d4 is Some) by {
                if d4 is None {
                    if d1 is Some && dist_le(d1, d2) && dist_le(d1, d3) {
                        assert(false);
                    } else if d2 is Some && dist_le(d2, d1) && dist_le(d2, d3) {
                        assert(false);
                    } else if d3 is Some && dist_le(d3, d1) && dist_le(d3, d2) {
                        assert(false);
                    } else {
                        assert(false);
                    }
                }
            }
        }
    }
}

/// Round-trip law: resolving the exact center of any cell of the grid,
/// under the same camera offset, answers exactly that cell. At a center
/// the estimates come out as `ex == c - 1/3` and `ey == r + 1/6`, no
/// clamping happens, and among the candidates `(c-1, r)`, `(c-1, r+1)`,
/// `(c, r)`, `(c, r+1)` the cell itself sits at distance zero while the
/// others are strictly away.
pub proof fn lemma_resolve_center_roundtrip(
    width: int,
    height: int,
    w: int,
    h: int,
    c: int,
    r: int,
    ox: int,
    oy: int,
)
    requires
        w >= 1,
        h >= 1,
        0 <= c < width,
        0 <= r < height,
    ensures
        resolve_spec(width, height, w, h, center_x4(c, r, w, ox), center_y4(r, h, oy), ox, oy)
            == Option::Some((c, r)),
{
    let x4 = center_x4(c, r, w, ox);
    let y4 = center_y4(r, h, oy);
    let den = 12 * (w * h);
    let nx = est_x_num(x4, y4, ox, oy, w, h);
    let ny = est_y_num(y4, oy, w, h);
    assert(w * h >= 1) by (nonlinear_arith)
        requires
            w >= 1 && h >= 1,
    ;
    // The estimate numerators at a center: ex == c - 1/3, ey == r + 1/6.
    assert(3 * (h * ((4 * c * w + 2 * r * w + 2 * w + 4 * ox) - 4 * ox)) - 2 * (w * ((3 * r * h + 2
        * h + 4 * oy) - 4 * oy)) - 6 * (w * h) == (12 * c - 4) * (w * h)) by (nonlinear_arith);
    assert(nx == (12 * c - 4) * (w * h));
    assert(4 * (w * ((3 * r * h + 2 * h + 4 * oy) - 4 * oy)) - 6 * (w * h) == (12 * r + 2) * (w
        * h)) by (nonlinear_arith);
    assert(ny == (12 * r + 2) * (w * h));
    // Both estimates lie inside the clamp interval.
    assert(100 * ((12 * c - 4) * (w * h)) >= -99 * (12 * (w * h)) && 100 * ((12 * c - 4) * (w * h))
        <= (100 * width - 51) * (12 * (w * h)) && 100 * ((12 * r + 2) * (w * h)) >= -99 * (12 * (w
        * h)) && 100 * ((12 * r + 2) * (w * h)) <= (100 * height - 51) * (12 * (w * h)))
        by (nonlinear_arith)
        requires
            0 <= c <= width - 1,
            0 <= r <= height - 1,
            w * h >= 1,
    ;
    assert(clamped_num(nx, den, width) == 100 * nx);
    assert(clamped_num(ny, den, height) == 100 * ny);
    // Floors and ceilings: (c-1, c) and (r, r+1).
    assert(100 * ((12 * c - 4) * (w * h)) == (c - 1) * (100 * (12 * (w * h))) + 800 * (w * h) && 0
        <= 800 * (w * h) < 100 * (12 * (w * h)) && 100 * ((12 * r + 2) * (w * h)) == r * (100 * (12
        * (w * h))) + 200 * (w * h) && 0 <= 200 * (w * h) < 100 * (12 * (w * h)))
        by (nonlinear_arith)
        requires
            w * h >= 1,
    ;
    lemma_fundamental_div_mod_converse(100 * nx, 100 * den, c - 1, 800 * (w * h));
    lemma_fundamental_div_mod_converse(100 * ny, 100 * den, r, 200 * (w * h));
    assert(floor_est(nx, den, width) == c - 1);
    assert(ceil_est(nx, den, width) == c);
    assert(floor_est(ny, den, height) == r);
    assert(ceil_est(ny, den, height) == r + 1);
    // Center differences from the point to the four candidates.
    assert((4 * c * w + 2 * r * w + 2 * w + 4 * ox) - (4 * (c - 1) * w + 2 * r * w + 2 * w + 4 * ox)
        == 4 * w && (4 * c * w + 2 * r * w + 2 * w + 4 * ox) - (4 * (c - 1) * w + 2 * (r + 1) * w
        + 2 * w + 4 * ox) == 2 * w && (4 * c * w + 2 * r * w + 2 * w + 4 * ox) - (4 * c * w + 2 * (
    r + 1) * w + 2 * w + 4 * ox) == -(2 * w) && (3 * r * h + 2 * h + 4 * oy) - (3 * (r + 1) * h + 2
        * h + 4 * oy) == -(3 * h)) by (nonlinear_arith);
    // The scaled squared distances of the four candidates.
    assert(h * (4 * w) == 4 * (w * h) && h * (2 * w) == 2 * (w * h) && h * (-(2 * w)) == -(2 * (w
        * h)) && w * (-(3 * h)) == -(3 * (w * h)) && h * 0 == 0 && w * 0 == 0 && 0 * 0 == 0)
        by (nonlinear_arith);
    assert((4 * (w * h)) * (4 * (w * h)) == 16 * ((w * h) * (w * h)) && (2 * (w * h)) * (2 * (w
        * h)) + (-(3 * (w * h))) * (-(3 * (w * h))) == 13 * ((w * h) * (w * h)) && (-(2 * (w * h)))
        * (-(2 * (w * h))) + (-(3 * (w * h))) * (-(3 * (w * h))) == 13 * ((w * h) * (w * h)) && 16
        * ((w * h) * (w * h)) > 0 && 13 * ((w * h) * (w * h)) > 0) by (nonlinear_arith)
        requires
            w * h >= 1,
    ;
    assert(dist_num(x4, y4, c, r, w, h, ox, oy) == 0);
    assert(c >= 1 ==> dist_num(x4, y4, c - 1, r, w, h, ox, oy) == 16 * ((w * h) * (w * h)));
    assert(dist_num(x4, y4, c - 1, r + 1, w, h, ox, oy) == 13 * ((w * h) * (w * h)));
    assert(dist_num(x4, y4, c, r + 1, w, h, ox, oy) == 13 * ((w * h) * (w * h)));
    // The cell itself is third in candidate order, at distance zero; the
    // two earlier candidates are strictly farther or off the grid.
    assert(resolve_spec(width, height, w, h, x4, y4, ox, oy) == Option::Some((c, r)));
}

/// An estimate at or below `-1/2` clamps and rounds to the candidate
/// pair `(-1, 0)`.
proof fn lemma_neg_est_floor_ceil(num: int, den: int, extent: int)
    requires
        den >= 1,
        extent >= 1,
        100 * num <= -50 * den,
    ensures
        floor_est(num, den, extent) == -1,
        ceil_est(num, den, extent) == 0,
{
    assert((100 * extent - 51) * den >= 49 * den) by (nonlinear_arith)
        requires
            extent >= 1 && den >= 1,
    ;
    let cl = clamped_num(num, den, extent);
    assert(-99 * den <= cl <= -50 * den);
    assert(cl == (-1) * (100 * den) + (cl + 100 * den)) by (nonlinear_arith);
    lemma_fundamental_div_mod_converse(cl, 100 * den, -1, cl + 100 * den);
}

/// Boundary robustness: a pixel point far outside the window toward the
/// top-left, here `(-10000, -10000)` under offset `(0, 0)`, resolves on
/// any non-empty grid to the cell nearest that corner, `(0, 0)` — as
/// long as the cells are not wider than `3/2` of their height. (With
/// `2*w > 3*h` the row stagger tips the column estimate of a far-up
/// point to the right instead, and the answer lands at the grid's right
/// edge.)
pub proof fn lemma_resolve_far_negative_corner(width: int, height: int, w: int, h: int)
    requires
        width >= 1,
        height >= 1,
        w >= 1,
        h >= 1,
        2 * w <= 3 * h,
    ensures
        resolve_spec(width, height, w, h, -40000, -40000, 0, 0) == Option::Some((0int, 0int)),
{
    let den = 12 * (w * h);
    let nx = est_x_num(-40000, -40000, 0, 0, w, h);
    let ny = est_y_num(-40000, 0, w, h);
    assert(w * h >= 1) by (nonlinear_arith)
        requires
            w >= 1 && h >= 1,
    ;
    assert(h * ((-40000) - 4 * 0) == (-40000) * h && w * ((-40000) - 4 * 0) == (-40000) * w)
        by (nonlinear_arith);
    assert(nx == 3 * ((-40000) * h) - 2 * ((-40000) * w) - 6 * (w * h));
    assert(ny == 4 * ((-40000) * w) - 6 * (w * h));
    assert(100 * nx <= -50 * den);
    assert(100 * ny <= -50 * den);
    lemma_neg_est_floor_ceil(nx, den, width);
    lemma_neg_est_floor_ceil(ny, den, height);
    assert(resolve_spec(width, height, w, h, -40000, -40000, 0, 0) == Option::Some((0int, 0int)));
}

/// `a <= b` on machine candidate distances, `None` as +infinity.
fn dist_le_exec(a: Option<i128>, b: Option<i128>) -> (r: bool)
    ensures
        r == dist_le(opt_dist(a), opt_dist(b)),
{
    match b {
        Option::None => true,
        Option::Some(bv) => match a {
            Option::None => false,
            Option::Some(av) => av <= bv,
        },
    }
}

impl Grid {
    /// The distance of candidate cell `(c, r)` from `point`, or `None`
    /// when the candidate lies outside this grid.
    fn cand_dist_exec(&self, point: PixelPoint, c: i64, r: i64, x_offset: i32, y_offset: i32) -> (d:
        Option<i128>)
        requires
            self.wf(),
            -65536 <= c <= 65536,
            -65536 <= r <= 65536,
            -COORD_LIMIT_X4 <= point.x4 <= COORD_LIMIT_X4,
            -COORD_LIMIT_X4 <= point.y4 <= COORD_LIMIT_X4,
        ensures
            opt_dist(d) == cand_dist(
                self.width as int,
                self.height as int,
                point.x4 as int,
                point.y4 as int,
                c as int,
                r as int,
                self.tile_width as int,
                self.tile_height as int,
                x_offset as int,
                y_offset as int,
            ),
    {
        if !self.valid_hex(c, r) {
            return None;
        }
        let w: i128 = self.tile_width as i128;
        let h: i128 = self.tile_height as i128;
        let cc: i128 = c as i128;
        let rr: i128 = r as i128;
        proof {
            assert((4 * (c as int)) * (self.tile_width as int) <= 262144 * 65535 && (4 * (
            c as int)) * (self.tile_width as int) >= -(262144 * 65535) && (2 * (r as int)) * (
            self.tile_width as int) <= 131072 * 65535 && (2 * (r as int)) * (
            self.tile_width as int) >= -(131072 * 65535) && (3 * (r as int)) * (
            self.tile_height as int) <= 196608 * 65535 && (3 * (r as int)) * (
            self.tile_height as int) >= -(196608 * 65535)) by (nonlinear_arith)
                requires
                    -65536 <= c as int <= 65536,
                    -65536 <= r as int <= 65536,
                    0 <= self.tile_width as int <= 65535,
                    0 <= self.tile_height as int <= 65535,
            ;
        }
        let cx4: i128 = 4 * cc * w + 2 * rr * w + 2 * w + 4 * (x_offset as i128);
        let cy4: i128 = 3 * rr * h + 2 * h + 4 * (y_offset as i128);
        let dx: i128 = (point.x4 as i128) - cx4;
        let dy: i128 = (point.y4 as i128) - cy4;
        proof {
            assert((self.tile_height as int) * (dx as int) <= 65535 * 40_100_000_000_000 && (
            self.tile_height as int) * (dx as int) >= -(65535 * 40_100_000_000_000) && (
            self.tile_width as int) * (dy as int) <= 65535 * 40_100_000_000_000 && (
            self.tile_width as int) * (dy as int) >= -(65535 * 40_100_000_000_000))
                by (nonlinear_arith)
                requires
                    0 <= self.tile_width as int <= 65535,
                    0 <= self.tile_height as int <= 65535,
                    -40_100_000_000_000 <= dx as int <= 40_100_000_000_000,
                    -40_100_000_000_000 <= dy as int <= 40_100_000_000_000,
            ;
        }
        let a: i128 = h * dx;
        let b: i128 = w * dy;
        proof {
            assert(0 <= (a as int) * (a as int) <= 2_700_000_000_000_000_000
                * 2_700_000_000_000_000_000 && 0 <= (b as int) * (b as int)
                <= 2_700_000_000_000_000_000 * 2_700_000_000_000_000_000) by (nonlinear_arith)
                requires
                    -2_700_000_000_000_000_000 <= a as int <= 2_700_000_000_000_000_000,
                    -2_700_000_000_000_000_000 <= b as int <= 2_700_000_000_000_000_000,
            ;
        }
        Some(a * a + b * b)
    }

    /// The tile containing the pixel point `point` under camera offset
    /// `(x_offset, y_offset)`, as its `(column, row)` cell position: the
    /// nearest-center candidate that [`resolve_spec`] picks. On any grid
    /// with at least one cell the answer is a valid cell, however far
    /// outside the window or the grid the point lies; `None` comes only
    /// from a grid with no cells.
    pub fn get_tile_from_coords(&self, point: PixelPoint, x_offset: i32, y_offset: i32) -> (result:
        Option<(u16, u16)>)
        requires
            self.wf(),
            -COORD_LIMIT_X4 <= point.x4 <= COORD_LIMIT_X4,
            -COORD_LIMIT_X4 <= point.y4 <= COORD_LIMIT_X4,
        ensures
            ({
                let m = resolve_spec(
                    self.width as int,
                    self.height as int,
                    self.tile_width as int,
                    self.tile_height as int,
                    point.x4 as int,
                    point.y4 as int,
                    x_offset as int,
                    y_offset as int,
                );
                match result {
                    Option::Some(cr) => m == Option::Some((cr.0 as int, cr.1 as int))
                        && self.in_bounds(cr.0 as int, cr.1 as int),
                    Option::None => m is None,
                }
            }),
            result is Some <==> self.width >= 1 && self.height >= 1,
    {
        proof {
            lemma_resolve_spec_total(
                self.width as int,
                self.height as int,
                self.tile_width as int,
                self.tile_height as int,
                point.x4 as int,
                point.y4 as int,
                x_offset as int,
                y_offset as int,
            );
        }
        let w: i128 = self.tile_width as i128;
        let h: i128 = self.tile_height as i128;
        proof {
            assert(1 <= (self.tile_width as int) * (self.tile_height as int) <= 65535 * 65535)
                by (nonlinear_arith)
                requires
                    1 <= self.tile_width as int <= 65535,
                    1 <= self.tile_height as int <= 65535,
            ;
            assert((self.tile_height as int) * (point.x4 as int - 4 * (x_offset as int)) <= 65535
                * 40_100_000_000_000 && (self.tile_height as int) * (point.x4 as int - 4 * (
            x_offset as int)) >= -(65535 * 40_100_000_000_000) && (self.tile_width as int) * (
            point.y4 as int - 4 * (y_offset as int)) <= 65535 * 40_100_000_000_000 && (
            self.tile_width as int) * (point.y4 as int - 4 * (y_offset as int)) >= -(65535
                * 40_100_000_000_000)) by (nonlinear_arith)
                requires
                    0 <= self.tile_width as int <= 65535,
                    0 <= self.tile_height as int <= 65535,
                    -40_000_000_000_000 <= point.x4 as int <= 40_000_000_000_000,
                    -40_000_000_000_000 <= point.y4 as int <= 40_000_000_000_000,
                    -2_147_483_648 <= x_offset as int <= 2_147_483_647,
                    -2_147_483_648 <= y_offset as int <= 2_147_483_647,
            ;
        }
        let wh: i128 = w * h;
        let den: i128 = 12 * wh;
        let rx: i128 = (point.x4 as i128) - 4 * (x_offset as i128);
        let ry: i128 = (point.y4 as i128) - 4 * (y_offset as i128);
        let nx: i128 = 3 * (h * rx) - 2 * (w * ry) - 6 * wh;
        let ny: i128 = 4 * (w * ry) - 6 * wh;
        let (fx, gx) = floor_ceil_est(nx, den, self.width);
        let (fy, gy) = floor_ceil_est(ny, den, self.height);
        let d1 = self.cand_dist_exec(point, fx, fy, x_offset, y_offset);
        let d2 = self.cand_dist_exec(point, fx, gy, x_offset, y_offset);
        let d3 = self.cand_dist_exec(point, gx, fy, x_offset, y_offset);
        let d4 = self.cand_dist_exec(point, gx, gy, x_offset, y_offset);
        let sel: (i64, i64) = if dist_le_exec(d1, d2) && dist_le_exec(d1, d3) && dist_le_exec(
            d1,
            d4,
        ) {
            (fx, fy)
        } else if dist_le_exec(d2, d1) && dist_le_exec(d2, d3) && dist_le_exec(d2, d4) {
            (fx, gy)
        } else if dist_le_exec(d3, d1) && dist_le_exec(d3, d2) && dist_le_exec(d3, d4) {
            (gx, fy)
        } else {
            (gx, gy)
        };
        if self.valid_hex(sel.0, sel.1) {
            Some((sel.0 as u16, sel.1 as u16))
        } else {
            None
        }
    }
}

} // verus!
