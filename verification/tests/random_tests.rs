use hexgrid::tile_type_from_index;
use hexgrid::Tile;
use hexgrid::TileType;

fn variant_index(t: TileType) -> usize {
    match t {
        TileType::TtDirt => 0,
        TileType::TtSand => 1,
        TileType::TtMountain => 2,
        TileType::TtRoad => 3,
        TileType::TtOcean => 4,
        TileType::TtRiver => 5,
        TileType::TtGras => 6,
        TileType::TtSnow => 7,
    }
}

#[test]
fn variant_table_is_a_bijection() {
    let mut seen = [false; 8];
    for i in 0..8u8 {
        let t = tile_type_from_index(i);
        assert_eq!(variant_index(t), i as usize);
        assert!(!seen[i as usize]);
        seen[i as usize] = true;
    }
    assert!(seen.iter().all(|s| *s));
}

#[test]
fn randomize_keeps_position_and_size() {
    let mut tile = Tile::new(TileType::TtSnow, 9, 4, 17, 8);
    for _ in 0..100 {
        tile.randomize();
        assert_eq!(tile.x, 9);
        assert_eq!(tile.y, 4);
        assert_eq!(tile.width, 17);
        assert_eq!(tile.height, 8);
    }
}

#[test]
fn randomize_is_uniform_over_the_eight_variants() {
    // 80,000 resamples: each variant expects 10,000 occurrences with a
    // standard deviation of about 94, so a band of 600 on either side
    // (more than six standard deviations) practically never fails on a
    // correct uniform sampler.
    let mut tile = Tile::new(TileType::TtDirt, 0, 0, 30, 20);
    let mut counts = [0u32; 8];
    for _ in 0..80_000 {
        tile.randomize();
        counts[variant_index(tile.tile_type)] += 1;
    }
    for (i, count) in counts.iter().enumerate() {
        assert!(
            (9_400..=10_600).contains(count),
            "variant {i} occurred {count} times out of 80000"
        );
    }
}

#[test]
fn randomize_eventually_changes_the_type() {
    // 7/8 chance to leave the current type per draw: 200 draws that all
    // land on the same variant would be astronomically unlikely.
    let mut tile = Tile::new(TileType::TtDirt, 0, 0, 30, 20);
    let first = tile.tile_type;
    let mut changed = false;
    for _ in 0..200 {
        tile.randomize();
        if tile.tile_type != first {
            changed = true;
        }
    }
    assert!(changed);
}
