use hexgrid::Grid;
use hexgrid::PixelPoint;

#[test]
fn concrete_scenario_center_of_1_1_resolves_to_1_1() {
    // Grid(2,2), tiles 30x20, offset (0,0): the pixel point (60, 25) is
    // the center of cell (1,1) and resolves to it.
    let grid = Grid::new(2, 2, 30, 20).unwrap();
    let hit = grid.get_tile_from_coords(PixelPoint::from_pixels(60, 25), 0, 0);
    assert_eq!(hit, Some((1, 1)));
}

#[test]
fn every_center_resolves_to_its_own_tile() {
    // Round trip over a full 50x50 grid, under several camera offsets.
    let grid = Grid::new(50, 50, 30, 20).unwrap();
    for (ox, oy) in [(0i32, 0i32), (-123, -77), (411, -40000), (-2000000, 1500000)] {
        for c in 0..50u16 {
            for r in 0..50u16 {
                let center = grid.get(c, r).unwrap().get_center(ox, oy);
                let hit = grid.get_tile_from_coords(center, ox, oy);
                assert_eq!(hit, Some((c, r)), "offset ({ox},{oy}), cell ({c},{r})");
            }
        }
    }
}

#[test]
fn roundtrip_holds_for_irregular_cells_too() {
    let grid = Grid::new(9, 13, 17, 8).unwrap();
    for c in 0..13u16 {
        for r in 0..9u16 {
            let center = grid.get(c, r).unwrap().get_center(-31, 12);
            assert_eq!(grid.get_tile_from_coords(center, -31, 12), Some((c, r)));
        }
    }
}

#[test]
fn far_negative_point_resolves_to_origin_corner_tile() {
    // Boundary robustness: (-10000, -10000) never answers none, and with
    // cells no wider than 3/2 their height it answers the corner cell.
    let far = PixelPoint::from_pixels(-10000, -10000);
    for (h, w) in [(2u16, 2u16), (1, 1), (50, 50), (7, 3), (300, 200)] {
        let grid = Grid::new(h, w, 30, 20).unwrap();
        assert_eq!(grid.get_tile_from_coords(far, 0, 0), Some((0, 0)));
    }
    let square_cells = Grid::new(5, 5, 16, 16).unwrap();
    assert_eq!(square_cells.get_tile_from_coords(far, 0, 0), Some((0, 0)));
}

#[test]
fn only_an_empty_grid_resolves_to_none() {
    let empty = Grid::new(0, 0, 30, 20).unwrap();
    assert_eq!(empty.get_tile_from_coords(PixelPoint::from_pixels(0, 0), 0, 0), None);
    let no_rows = Grid::new(0, 4, 30, 20).unwrap();
    assert_eq!(no_rows.get_tile_from_coords(PixelPoint::from_pixels(15, 10), 0, 0), None);
    let one_cell = Grid::new(1, 1, 30, 20).unwrap();
    assert_eq!(
        one_cell.get_tile_from_coords(PixelPoint::from_pixels(987654, -987654), 0, 0),
        Some((0, 0))
    );
}

#[test]
fn far_off_grid_points_clamp_to_the_nearest_edge() {
    let grid = Grid::new(2, 2, 30, 20).unwrap();
    // Far to the right at the height of row 1: the column estimate
    // clamps to the right edge.
    let hit = grid.get_tile_from_coords(PixelPoint::from_pixels(10000, 25), 0, 0);
    assert_eq!(hit, Some((1, 1)));
    // Far below at the x of column 0 row 0's center: the row estimate
    // clamps to the bottom edge; the stagger pushes the column down to 0.
    let hit = grid.get_tile_from_coords(PixelPoint::from_pixels(15, 10000), 0, 0);
    assert_eq!(hit, Some((0, 1)));
}

#[test]
fn resolution_respects_the_camera_offset() {
    let grid = Grid::new(2, 2, 30, 20).unwrap();
    // The same screen point hits different tiles as the camera moves.
    let p = PixelPoint::from_pixels(60, 25);
    assert_eq!(grid.get_tile_from_coords(p, 0, 0), Some((1, 1)));
    assert_eq!(grid.get_tile_from_coords(p, -45, -15), Some((1, 1)));
    // Shift the world right and down by a full cell: the point now sits
    // in an earlier cell.
    assert_eq!(grid.get_tile_from_coords(p, 45, 15), Some((0, 0)));
}
