use hexgrid::PixelPoint;
use hexgrid::Tile;
use hexgrid::TileType;

#[test]
fn from_pixels_scales_by_four() {
    let p = PixelPoint::from_pixels(60, 25);
    assert_eq!(p.x4, 240);
    assert_eq!(p.y4, 100);
    let q = PixelPoint::from_pixels(-10000, -10000);
    assert_eq!(q.x4, -40000);
    assert_eq!(q.y4, -40000);
}

#[test]
fn center_of_cell_1_1_in_2x2_grid_is_60_25() {
    // tileWidth=30, tileHeight=20, offset (0,0):
    // x = 1*30 + 0 + 1*0.5*30 + 15 = 60, y = 1*20*0.75 + 0 + 10 = 25.
    let tile = Tile::new(TileType::TtGras, 1, 1, 30, 20);
    let center = tile.get_center(0, 0);
    assert_eq!(center.x4, 60 * 4);
    assert_eq!(center.y4, 25 * 4);
}

#[test]
fn center_follows_camera_offset() {
    let tile = Tile::new(TileType::TtSand, 3, 2, 30, 20);
    // x = 3*30 + 7 + 2*15 + 15 = 142, y = 2*15 - 9 + 10 = 31.
    let center = tile.get_center(7, -9);
    assert_eq!(center.x4, 142 * 4);
    assert_eq!(center.y4, 31 * 4);
}

#[test]
fn corners_of_origin_cell() {
    // Cell (0,0), 30 by 20, offset (0,0): center (15, 10); corners at
    // x in {30, 15, 0} and y in {0, 5, 15, 20}, in the fixed angular
    // order of angles -30, 30, 90, 150, 210, 270 degrees.
    let tile = Tile::new(TileType::TtOcean, 0, 0, 30, 20);
    let points = tile.get_hex_point_vec(0, 0);
    assert_eq!(points.len(), 6);
    let expected = [(120, 20), (120, 60), (60, 80), (0, 60), (0, 20), (60, 0)];
    for (point, (ex4, ey4)) in points.iter().zip(expected.iter()) {
        assert_eq!(point.x4, *ex4);
        assert_eq!(point.y4, *ey4);
    }
}

#[test]
fn corner_matches_single_corner_query() {
    let tile = Tile::new(TileType::TtSnow, 5, 3, 17, 8);
    let points = tile.get_hex_point_vec(-40, 11);
    for i in 0..6u16 {
        let p = tile.pointy_hex_corner(i, -40, 11);
        assert_eq!(points[i as usize], p);
    }
}

#[test]
fn center_is_mean_of_corners() {
    // Summed over the six corners, each coordinate is exactly six times
    // the center coordinate, whatever the offset.
    for (x, y, w, h, ox, oy) in [
        (0u16, 0u16, 30u16, 20u16, 0i32, 0i32),
        (1, 1, 30, 20, 0, 0),
        (7, 4, 17, 8, -300, 250),
        (65535, 65535, 65535, 65535, i32::MIN, i32::MAX),
    ] {
        let tile = Tile::new(TileType::TtRoad, x, y, w, h);
        let center = tile.get_center(ox, oy);
        let points = tile.get_hex_point_vec(ox, oy);
        let sum_x: i64 = points.iter().map(|p| p.x4).sum();
        let sum_y: i64 = points.iter().map(|p| p.y4).sum();
        assert_eq!(sum_x, 6 * center.x4);
        assert_eq!(sum_y, 6 * center.y4);
    }
}
