use hexgrid::CameraController;
use hexgrid::Grid;

#[test]
fn pan_applies_a_plain_drag() {
    // 200 columns, 300 rows of 30x20 cells: extents 10500 by 4507.5
    // pixels, far larger than a 400x400 window.
    let grid = Grid::new(300, 200, 30, 20).unwrap();
    let mut cam = CameraController::new();
    cam.pan(-3000, -3000, 400, 400, &grid);
    assert_eq!(cam.cameraoffset_x, -3000);
    assert_eq!(cam.cameraoffset_y, -3000);
}

#[test]
fn pan_never_goes_positive() {
    let grid = Grid::new(300, 200, 30, 20).unwrap();
    let mut cam = CameraController::new();
    cam.pan(10, 10, 400, 400, &grid);
    assert_eq!(cam.cameraoffset_x, 0);
    assert_eq!(cam.cameraoffset_y, 0);
    cam.pan(-500, -700, 400, 400, &grid);
    cam.pan(900, 900, 400, 400, &grid);
    // +900 would overshoot zero on both axes: blocked, not clipped.
    assert_eq!(cam.cameraoffset_x, -500);
    assert_eq!(cam.cameraoffset_y, -700);
}

#[test]
fn pan_stops_when_far_edge_would_leave_window() {
    // A 2x2 grid of 30x20 cells spans 90 by 37.5 pixels: smaller than
    // the window, so any pan toward negative offsets would pull the far
    // edge inside the window and is blocked.
    let grid = Grid::new(2, 2, 30, 20).unwrap();
    let mut cam = CameraController::new();
    cam.pan(-50, -50, 400, 400, &grid);
    assert_eq!(cam.cameraoffset_x, 0);
    assert_eq!(cam.cameraoffset_y, 0);
}

#[test]
fn repeated_positive_pans_drive_offset_to_zero_and_keep_it() {
    let grid = Grid::new(300, 200, 30, 20).unwrap();
    let mut cam = CameraController::new();
    cam.pan(-3000, -3000, 400, 400, &grid);
    assert_eq!((cam.cameraoffset_x, cam.cameraoffset_y), (-3000, -3000));
    cam.pan(1000, 1000, 400, 400, &grid);
    assert_eq!((cam.cameraoffset_x, cam.cameraoffset_y), (-2000, -2000));
    cam.pan(1000, 1000, 400, 400, &grid);
    assert_eq!((cam.cameraoffset_x, cam.cameraoffset_y), (-1000, -1000));
    cam.pan(1000, 1000, 400, 400, &grid);
    assert_eq!((cam.cameraoffset_x, cam.cameraoffset_y), (0, 0));
    for _ in 0..10 {
        cam.pan(1000, 1000, 400, 400, &grid);
        assert_eq!((cam.cameraoffset_x, cam.cameraoffset_y), (0, 0));
    }
}

#[test]
fn axes_move_independently() {
    // A narrow, tall grid: x extent (10 + 150) * 30 = 4800 pixels,
    // y extent 300.5 * 20 * 0.75 = 4507.5 pixels.
    let grid = Grid::new(300, 10, 30, 20).unwrap();
    let mut cam = CameraController::new();
    cam.pan(-4400, -4000, 400, 400, &grid);
    // x: 4800 - 4400 = 400, not > 400: blocked. y: 4507.5 - 4000 > 400: moves.
    assert_eq!(cam.cameraoffset_x, 0);
    assert_eq!(cam.cameraoffset_y, -4000);
}
