//! The 2-D ordered collection of tiles: fixed dimensions, randomized
//! initial contents, bounds-checked access.

use vstd::arithmetic::div_mod::lemma_fundamental_div_mod_converse;
use vstd::prelude::*;

use crate::tile::{Tile, TileType};

verus! {

/// What a grid operation can fail with.
#[derive(Clone, Copy, PartialEq, Eq, Structural, Debug)]
pub enum GridError {
    /// A cell position outside the constructed bounds was asked for.
    IndexOutOfRange,
    /// A grid was asked for with a cell width or height of zero.
    DegenerateTileSize,
}

/// A grid of `width` columns and `height` rows of hexagonal tiles, each
/// of the grid-wide cell size `tile_width` by `tile_height`. Dimensions
/// and cell size are fixed at construction; only tile types change.
///
/// The tiles sit in `tiles` in column-major order: the tile of column
/// `c`, row `r` is `tiles[c * height + r]`.
#[derive(Debug)]
pub struct Grid {
    pub width: u16,
    pub height: u16,
    pub tile_width: u16,
    pub tile_height: u16,
    pub tiles: Vec<Tile>,
}

impl Grid {
    /// The tile stored for column `c`, row `r`.
    pub open spec fn tile_at(self, c: int, r: int) -> Tile {
        self.tiles[c * (self.height as int) + r]
    }

    /// Whether `(c, r)` is a cell position inside the grid.
    pub open spec fn in_bounds(self, c: int, r: int) -> bool {
        0 <= c < self.width as int && 0 <= r < self.height as int
    }

    /// Well-formedness: the cell size is not degenerate, there is exactly
    /// one tile per cell, and the tile stored for `(c, r)` knows that
    /// position and the grid-wide cell size.
    pub open spec fn wf(self) -> bool {
        &&& self.tile_width >= 1
        &&& self.tile_height >= 1
        &&& self.tiles.len() == self.width as int * self.height as int
        &&& forall|c: int, r: int|
            self.in_bounds(c, r) ==> {
                &&& (#[trigger] self.tile_at(c, r)).x == c
                &&& self.tile_at(c, r).y == r
                &&& self.tile_at(c, r).width == self.tile_width
                &&& self.tile_at(c, r).height == self.tile_height
            }
    }

    /// A grid of `h` rows by `w` columns, every tile's type drawn
    /// independently and uniformly from the eight variants. A zero cell
    /// width or height is refused at construction, so the geometry never
    /// meets it.
    pub fn new(h: u16, w: u16, tile_width: u16, tile_height: u16) -> (result: Result<
        Grid,
        GridError,
    >)
        ensures
            result is Ok <==> tile_width >= 1 && tile_height >= 1,
            match result {
                Ok(g) => {
                    &&& g.wf()
                    &&& g.width == w
                    &&& g.height == h
                    &&& g.tile_width == tile_width
                    &&& g.tile_height == tile_height
                },
                Err(e) => e == GridError::DegenerateTileSize,
            },
    {
        if tile_width == 0 || tile_height == 0 {
            return Err(GridError::DegenerateTileSize);
        }
        let mut tiles: Vec<Tile> = Vec::new();
        let mut c: u16 = 0;
        while c < w
            invariant
                c <= w,
                tiles.len() == c as int * h as int,
                forall|j: int|
                    0 <= j < tiles.len() ==> {
                        &&& (#[trigger] tiles[j]).x == j / (h as int)
                        &&& tiles[j].y == j % (h as int)
                        &&& tiles[j].width == tile_width
                        &&& tiles[j].height == tile_height
                    },
            decreases w as int - c as int,
        {
            let mut r: u16 = 0;
            while r < h
                invariant
                    c < w,
                    r <= h,
                    tiles.len() == c as int * h as int + r as int,
                    forall|j: int|
                        0 <= j < tiles.len() ==> {
                            &&& (#[trigger] tiles[j]).x == j / (h as int)
                            &&& tiles[j].y == j % (h as int)
                            &&& tiles[j].width == tile_width
                            &&& tiles[j].height == tile_height
                        },
                decreases h as int - r as int,
            {
                let mut t = Tile::new(TileType::TtDirt, c, r, tile_width, tile_height);
                t.randomize();
                proof {
                    lemma_fundamental_div_mod_converse(
                        c as int * h as int + r as int,
                        h as int,
                        c as int,
                        r as int,
                    );
                }
                tiles.push(t);
                r = r + 1;
            }
            proof {
                assert((c as int + 1) * h as int == c as int * h as int + h as int)
                    by (nonlinear_arith);
            }
            c = c + 1;
        }
        let g = Grid { width: w, height: h, tile_width, tile_height, tiles };
        proof {
            assert forall|cc: int, rr: int| g.in_bounds(cc, rr) implies {
                &&& (#[trigger] g.tile_at(cc, rr)).x == cc
                &&& g.tile_at(cc, rr).y == rr
                &&& g.tile_at(cc, rr).width == tile_width
                &&& g.tile_at(cc, rr).height == tile_height
            } by {
                lemma_flat_index_in_range(cc, rr, w as int, h as int);
            }
        }
        Ok(g)
    }

    /// Whether `(x, y)` is a cell position inside the grid.
    pub fn valid_hex(&self, x: i64, y: i64) -> (valid: bool)
        ensures
            valid == self.in_bounds(x as int, y as int),
    {
        x >= 0 && y >= 0 && x < self.width as i64 && y < self.height as i64
    }

    /// The tile at column `x`, row `y`, bounds-checked: a position
    /// outside the constructed grid is answered with
    /// `GridError::IndexOutOfRange`, never with undefined access.
    pub fn get(&self, x: u16, y: u16) -> (result: Result<&Tile, GridError>)
        requires
            self.wf(),
        ensures
            result is Ok <==> self.in_bounds(x as int, y as int),
            match result {
                Ok(t) => {
                    &&& *t == self.tile_at(x as int, y as int)
                    &&& t.x == x
                    &&& t.y == y
                    &&& t.width == self.tile_width
                    &&& t.height == self.tile_height
                },
                Err(e) => e == GridError::IndexOutOfRange,
            },
    {
        if x < self.width && y < self.height {
            proof {
                lemma_flat_index_in_range(x as int, y as int, self.width as int, self.height as int);
            }
            let idx: usize = (x as usize) * (self.height as usize) + (y as usize);
            Ok(&self.tiles[idx])
        } else {
            Err(GridError::IndexOutOfRange)
        }
    }

    /// Resample the type of the tile at column `x`, row `y`, uniformly
    /// over the eight variants. Every other tile, and everything but the
    /// type of this one, stays as it was.
    pub fn randomize_at(&mut self, x: u16, y: u16)
        requires
            old(self).wf(),
            old(self).in_bounds(x as int, y as int),
        ensures
            final(self).wf(),
            final(self).width == old(self).width,
            final(self).height == old(self).height,
            final(self).tile_width == old(self).tile_width,
            final(self).tile_height == old(self).tile_height,
            forall|c: int, r: int|
                old(self).in_bounds(c, r) && !(c == x as int && r == y as int)
                    ==> #[trigger] final(self).tile_at(c, r) == old(self).tile_at(c, r),
            final(self).tile_at(x as int, y as int).x == x,
            final(self).tile_at(x as int, y as int).y == y,
            final(self).tile_at(x as int, y as int).width == old(self).tile_width,
            final(self).tile_at(x as int, y as int).height == old(self).tile_height,
    {
        proof {
            lemma_flat_index_in_range(x as int, y as int, self.width as int, self.height as int);
        }
        let idx: usize = (x as usize) * (self.height as usize) + (y as usize);
        let mut t = self.tiles[idx];
        t.randomize();
        self.tiles.set(idx, t);
        proof {
            assert forall|c: int, r: int|
                old(self).in_bounds(c, r) && !(c == x as int && r == y as int)
                    implies #[trigger] self.tile_at(c, r) == old(self).tile_at(c, r) by {
                lemma_flat_index_in_range(c, r, self.width as int, self.height as int);
                if c * (self.height as int) + r == idx as int {
                    lemma_fundamental_div_mod_converse(
                        c * (self.height as int) + r,
                        self.height as int,
                        c,
                        r,
                    );
                    lemma_fundamental_div_mod_converse(
                        x as int * (self.height as int) + y as int,
                        self.height as int,
                        x as int,
                        y as int,
                    );
                }
            }
            assert forall|c: int, r: int| self.in_bounds(c, r) implies {
                &&& (#[trigger] self.tile_at(c, r)).x == c
                &&& self.tile_at(c, r).y == r
                &&& self.tile_at(c, r).width == self.tile_width
                &&& self.tile_at(c, r).height == self.tile_height
            } by {
                lemma_flat_index_in_range(c, r, self.width as int, self.height as int);
            }
        }
    }
}

/// A cell position's flat column-major index lies inside the tile store,
/// and recovers the position by division and remainder.
proof fn lemma_flat_index_in_range(c: int, r: int, w: int, h: int)
    requires
        0 <= c < w,
        0 <= r < h,
    ensures
        0 <= c * h + r < w * h,
        (c * h + r) / h == c,
        (c * h + r) % h == r,
{
    assert(0 <= c * h + r && c * h + r < w * h) by (nonlinear_arith)
        requires
            0 <= c < w && 0 <= r < h,
    ;
    lemma_fundamental_div_mod_converse(c * h + r, h, c, r);
}

} // verus!
