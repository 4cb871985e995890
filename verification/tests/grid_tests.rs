use hexgrid::Grid;
use hexgrid::GridError;

#[test]
fn grid_has_requested_shape() {
    let grid = Grid::new(10, 30, 17, 8).unwrap();
    assert_eq!(grid.width, 30);
    assert_eq!(grid.height, 10);
    assert_eq!(grid.tile_width, 17);
    assert_eq!(grid.tile_height, 8);
    assert_eq!(grid.tiles.len(), 300);
}

#[test]
fn every_tile_knows_its_position() {
    // Index consistency: get(c, r) answers a tile with column c, row r.
    let grid = Grid::new(7, 5, 30, 20).unwrap();
    for c in 0..5u16 {
        for r in 0..7u16 {
            let tile = grid.get(c, r).unwrap();
            assert_eq!(tile.x, c);
            assert_eq!(tile.y, r);
            assert_eq!(tile.width, 30);
            assert_eq!(tile.height, 20);
        }
    }
}

#[test]
fn out_of_range_get_is_an_error_not_a_crash() {
    let grid = Grid::new(7, 5, 30, 20).unwrap();
    assert_eq!(grid.get(5, 0).unwrap_err(), GridError::IndexOutOfRange);
    assert_eq!(grid.get(0, 7).unwrap_err(), GridError::IndexOutOfRange);
    assert_eq!(grid.get(u16::MAX, u16::MAX).unwrap_err(), GridError::IndexOutOfRange);
}

#[test]
fn degenerate_tile_size_is_refused_at_construction() {
    assert_eq!(Grid::new(7, 5, 0, 20).unwrap_err(), GridError::DegenerateTileSize);
    assert_eq!(Grid::new(7, 5, 30, 0).unwrap_err(), GridError::DegenerateTileSize);
    assert_eq!(Grid::new(7, 5, 0, 0).unwrap_err(), GridError::DegenerateTileSize);
    assert!(Grid::new(7, 5, 1, 1).is_ok());
}

#[test]
fn empty_grid_constructs() {
    let grid = Grid::new(0, 0, 30, 20).unwrap();
    assert_eq!(grid.tiles.len(), 0);
    assert!(grid.get(0, 0).is_err());
}

#[test]
fn valid_hex_matches_bounds() {
    let grid = Grid::new(7, 5, 30, 20).unwrap();
    assert!(grid.valid_hex(0, 0));
    assert!(grid.valid_hex(4, 6));
    assert!(!grid.valid_hex(5, 0));
    assert!(!grid.valid_hex(0, 7));
    assert!(!grid.valid_hex(-1, 0));
    assert!(!grid.valid_hex(0, -1));
}

#[test]
fn randomize_at_touches_only_the_one_tile() {
    let mut grid = Grid::new(6, 6, 30, 20).unwrap();
    let before: Vec<hexgrid::TileType> = grid.tiles.iter().map(|t| t.tile_type).collect();
    grid.randomize_at(2, 3);
    for c in 0..6u16 {
        for r in 0..6u16 {
            let tile = grid.get(c, r).unwrap();
            assert_eq!(tile.x, c);
            assert_eq!(tile.y, r);
            if !(c == 2 && r == 3) {
                assert_eq!(tile.tile_type, before[(c as usize) * 6 + (r as usize)]);
            }
        }
    }
}
