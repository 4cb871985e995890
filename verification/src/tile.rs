//! One grid cell: a terrain type, a grid position and the cell size.

use vstd::prelude::*;

use crate::hex::{center_x4, center_y4, corner_dx4, corner_dy4, PixelPoint};

verus! {

/// The closed set of terrain kinds a cell can show. A value carries no
/// data beyond its tag; which display color belongs to which kind is the
/// render collaborator's own business.
#[derive(Clone, Copy, PartialEq, Eq, Structural, Debug)]
pub enum TileType {
    TtDirt,
    TtSand,
    TtMountain,
    TtRoad,
    TtOcean,
    TtRiver,
    TtGras,
    TtSnow,
}

/// The enumerated variant table: variant `i` of the eight terrain kinds,
/// for `i` in `0..8`.
pub open spec fn tile_type_of_index(i: int) -> TileType {
    if i == 0 {
        TileType::TtDirt
    } else if i == 1 {
        TileType::TtSand
    } else if i == 2 {
        TileType::TtMountain
    } else if i == 3 {
        TileType::TtRoad
    } else if i == 4 {
        TileType::TtOcean
    } else if i == 5 {
        TileType::TtRiver
    } else if i == 6 {
        TileType::TtGras
    } else {
        TileType::TtSnow
    }
}

/// The position of a terrain kind in the variant table.
pub open spec fn index_of_tile_type(t: TileType) -> int {
    match t {
        TileType::TtDirt => 0,
        TileType::TtSand => 1,
        TileType::TtMountain => 2,
        TileType::TtRoad => 3,
        TileType::TtOcean => 4,
        TileType::TtRiver => 5,
        TileType::TtGras => 6,
        TileType::TtSnow => 7,
    }
}

/// The variant table is a bijection between `0..8` and the eight terrain
/// kinds: the two directions invert each other.
pub proof fn lemma_tile_type_table_bijective()
    ensures
        forall|i: int| 0 <= i < 8 ==> index_of_tile_type(#[trigger] tile_type_of_index(i)) == i,
        forall|t: TileType| tile_type_of_index(#[trigger] index_of_tile_type(t)) == t,
{
}

/// Variant `i` of the variant table, as a value.
pub fn tile_type_from_index(i: u8) -> (t: TileType)
    requires
        i < 8,
    ensures
        t == tile_type_of_index(i as int),
{
    if i == 0 {
        TileType::TtDirt
    } else if i == 1 {
        TileType::TtSand
    } else if i == 2 {
        TileType::TtMountain
    } else if i == 3 {
        TileType::TtRoad
    } else if i == 4 {
        TileType::TtOcean
    } else if i == 5 {
        TileType::TtRiver
    } else if i == 6 {
        TileType::TtGras
    } else {
        TileType::TtSnow
    }
}

/// Relies on `rand::random::<u8>`: one fresh draw from the thread-local
/// generator, distributed uniformly over all 256 byte values. Nothing can
/// be promised of a single random value, so the contract says nothing.
#[verifier::external_body]
fn random_byte() -> u8 {
    rand::random::<u8>()
}

/// One hexagonal cell. `x` is its column, `y` its row; both are fixed at
/// construction, as are the cell width and height (copied from the
/// grid-wide field size). Only `tile_type` is ever reassigned.
#[derive(Clone, Copy, PartialEq, Eq, Structural, Debug)]
pub struct Tile {
    pub tile_type: TileType,
    pub x: u16,
    pub y: u16,
    pub width: u16,
    pub height: u16,
}

impl Tile {
    /// A cell of terrain `tt` at column `x`, row `y`, with the given
    /// field size.
    pub fn new(tt: TileType, x: u16, y: u16, width: u16, height: u16) -> (t: Tile)
        ensures
            t == (Tile { tile_type: tt, x, y, width, height }),
    {
        Tile { tile_type: tt, x, y, width, height }
    }

    /// Reassign the terrain kind; position and size stay.
    pub fn set_type(&mut self, tt: TileType)
        ensures
            *final(self) == (Tile { tile_type: tt, ..*old(self) }),
    {
        self.tile_type = tt;
    }

    /// Resample the terrain kind uniformly over the eight variants;
    /// position and size stay. The draw maps a uniform byte through
    /// `% 8`; 256 is a multiple of 8, so each variant is exactly as
    /// likely as every other.
    pub fn randomize(&mut self)
        ensures
            final(self).x == old(self).x,
            final(self).y == old(self).y,
            final(self).width == old(self).width,
            final(self).height == old(self).height,
    {
        let b = random_byte();
        let t = tile_type_from_index(b % 8);
        self.set_type(t);
    }

    /// The center of this cell under camera offset `(x_offset, y_offset)`,
    /// in exact quarter pixels.
    pub fn get_center(&self, x_offset: i32, y_offset: i32) -> (p: PixelPoint)
        ensures
            p.x4 == center_x4(self.x as int, self.y as int, self.width as int, x_offset as int),
            p.y4 == center_y4(self.y as int, self.height as int, y_offset as int),
    {
        let w = self.width as i64;
        let h = self.height as i64;
        proof {
            assert((self.x as int) * (self.width as int) <= 65535 * 65535
                && (self.y as int) * (self.width as int) <= 65535 * 65535
                && (self.y as int) * (self.height as int) <= 65535 * 65535
                && (self.x as int) * (self.width as int) >= 0
                && (self.y as int) * (self.width as int) >= 0
                && (self.y as int) * (self.height as int) >= 0) by (nonlinear_arith);
        }
        let x4 = 4 * ((self.x as i64) * w) + 2 * ((self.y as i64) * w) + 2 * w
            + 4 * (x_offset as i64);
        let y4 = 3 * ((self.y as i64) * h) + 2 * h + 4 * (y_offset as i64);
        proof {
            assert(4 * ((self.x as int) * (self.width as int)) == 4 * (self.x as int) * (
            self.width as int)) by (nonlinear_arith);
            assert(2 * ((self.y as int) * (self.width as int)) == 2 * (self.y as int) * (
            self.width as int)) by (nonlinear_arith);
            assert(3 * ((self.y as int) * (self.height as int)) == 3 * (self.y as int) * (
            self.height as int)) by (nonlinear_arith);
        }
        PixelPoint { x4, y4 }
    }

    /// Corner `i` of this cell's hexagon, for `i` in `0..6`: the point at
    /// angle `60*i - 30` degrees from the center, in exact quarter
    /// pixels.
    pub fn pointy_hex_corner(&self, i: u16, x_offset: i32, y_offset: i32) -> (p: PixelPoint)
        requires
            i < 6,
        ensures
            p.x4 == center_x4(self.x as int, self.y as int, self.width as int, x_offset as int)
                + corner_dx4(i as int, self.width as int),
            p.y4 == center_y4(self.y as int, self.height as int, y_offset as int)
                + corner_dy4(i as int, self.height as int),
    {
        let c = self.get_center(x_offset, y_offset);
        proof {
            crate::hex::lemma_center_in_range(
                self.x as int,
                self.y as int,
                self.width as int,
                self.height as int,
                x_offset as int,
                y_offset as int,
            );
        }
        let w2 = 2 * (self.width as i64);
        let h = self.height as i64;
        let dx: i64 = if i == 0 || i == 1 {
            w2
        } else if i == 3 || i == 4 {
            -w2
        } else {
            0
        };
        let dy: i64 = if i == 1 || i == 3 {
            h
        } else if i == 0 || i == 4 {
            -h
        } else if i == 2 {
            2 * h
        } else {
            -(2 * h)
        };
        assert(-9_200_000_000 <= c.x4 + dx <= 35_200_000_000);
        assert(-9_200_000_000 <= c.y4 + dy <= 22_200_000_000);
        PixelPoint { x4: c.x4 + dx, y4: c.y4 + dy }
    }

    /// The six corner points of this cell's hexagon, in the fixed angular
    /// order corner `0` to corner `5`. The render collaborator draws them
    /// as the polygon boundary; the order keeps its edges from crossing.
    pub fn get_hex_point_vec(&self, x_offset: i32, y_offset: i32) -> (points: Vec<PixelPoint>)
        ensures
            points.len() == 6,
            forall|i: int|
                0 <= i < 6 ==> (#[trigger] points[i]).x4 == center_x4(
                    self.x as int,
                    self.y as int,
                    self.width as int,
                    x_offset as int,
                ) + corner_dx4(i, self.width as int) && points[i].y4 == center_y4(
                    self.y as int,
                    self.height as int,
                    y_offset as int,
                ) + corner_dy4(i, self.height as int),
    {
        let mut points: Vec<PixelPoint> = Vec::new();
        let mut n: u16 = 0;
        while n < 6
            invariant
                n <= 6,
                points.len() == n as int,
                forall|i: int|
                    0 <= i < n as int ==> (#[trigger] points[i]).x4 == center_x4(
                        self.x as int,
                        self.y as int,
                        self.width as int,
                        x_offset as int,
                    ) + corner_dx4(i, self.width as int) && points[i].y4 == center_y4(
                        self.y as int,
                        self.height as int,
                        y_offset as int,
                    ) + corner_dy4(i, self.height as int),
            decreases 6 - n as int,
        {
            let p = self.pointy_hex_corner(n, x_offset, y_offset);
            points.push(p);
            n = n + 1;
        }
        points
    }
}

} // verus!
