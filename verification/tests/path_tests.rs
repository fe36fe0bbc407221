use fruitstar_core::grid::{build_level_grid, Tile};
use fruitstar_core::level::load_level;
use fruitstar_core::path::{compute_path_from_grid, TileMapError, TilePos};

/// Luminance buffer (row-major) with the given walkable cells lit.
fn luma_with(width: u32, height: u32, walkable: &[(u32, u32)]) -> Vec<u8> {
    let mut luma = vec![0u8; (width * height) as usize];
    for &(x, y) in walkable {
        luma[(y * width + x) as usize] = 255;
    }
    luma
}

fn coords(path: &[TilePos]) -> Vec<(u32, u32)> {
    path.iter().map(|p| (p.x, p.y)).collect()
}

#[test]
fn straight_corridor_walks_to_goal_edge() {
    let luma = luma_with(4, 3, &[(3, 0), (2, 0), (1, 0), (0, 0)]);
    let (grid, _tiles) = build_level_grid(&luma, 4, 3);
    let path = compute_path_from_grid(&grid).expect("corridor must have a path");
    assert_eq!(coords(&path.path), vec![(3, 0), (2, 0), (1, 0), (0, 0)]);
}

#[test]
fn no_walkable_start_edge_cell_is_no_start() {
    let luma = luma_with(4, 3, &[(0, 0), (1, 0), (2, 0)]);
    let (grid, _tiles) = build_level_grid(&luma, 4, 3);
    match compute_path_from_grid(&grid) {
        Err(TileMapError::NoStart) => {}
        other => panic!("expected NoStart, got {:?}", other.map(|p| coords(&p.path))),
    }
}

#[test]
fn start_on_final_row_only_is_no_start() {
    // The scan covers the rightmost column without its final row.
    let luma = luma_with(4, 3, &[(3, 2), (2, 2), (1, 2), (0, 2)]);
    let (grid, _tiles) = build_level_grid(&luma, 4, 3);
    match compute_path_from_grid(&grid) {
        Err(TileMapError::NoStart) => {}
        other => panic!("expected NoStart, got {:?}", other.map(|p| coords(&p.path))),
    }
}

#[test]
fn isolated_start_is_no_path_to_end() {
    let luma = luma_with(3, 3, &[(2, 0), (0, 2)]);
    let (grid, _tiles) = build_level_grid(&luma, 3, 3);
    match compute_path_from_grid(&grid) {
        Err(TileMapError::NoPathToEnd) => {}
        other => panic!("expected NoPathToEnd, got {:?}", other.map(|p| coords(&p.path))),
    }
}

#[test]
fn start_is_lowest_walkable_row_of_rightmost_column() {
    let luma = luma_with(
        3,
        4,
        &[(2, 1), (1, 1), (0, 1), (2, 2), (1, 2), (0, 2)],
    );
    let (grid, _tiles) = build_level_grid(&luma, 3, 4);
    let path = compute_path_from_grid(&grid).expect("path expected");
    assert_eq!(path.path[0], TilePos { x: 2, y: 1 });
    assert_eq!(path.path.last().unwrap().x, 0);
}

#[test]
fn rerunning_the_search_gives_the_same_path() {
    let luma = luma_with(
        4,
        4,
        &[
            (3, 0),
            (2, 0),
            (2, 1),
            (1, 1),
            (1, 0),
            (0, 0),
            (1, 2),
            (0, 2),
        ],
    );
    let (grid, _tiles) = build_level_grid(&luma, 4, 4);
    let first = compute_path_from_grid(&grid).expect("path expected");
    let second = compute_path_from_grid(&grid).expect("path expected");
    assert_eq!(coords(&first.path), coords(&second.path));
}

#[test]
fn path_cells_are_adjacent_and_end_on_goal_edge() {
    let luma = luma_with(
        5,
        4,
        &[
            (4, 1),
            (3, 1),
            (3, 2),
            (2, 2),
            (2, 1),
            (2, 0),
            (1, 0),
            (0, 0),
        ],
    );
    let (grid, _tiles) = build_level_grid(&luma, 5, 4);
    let path = compute_path_from_grid(&grid).expect("path expected");
    assert!(!path.path.is_empty());
    assert_eq!(path.path.last().unwrap().x, 0);
    for pair in path.path.windows(2) {
        let dx = pair[0].x.abs_diff(pair[1].x);
        let dy = pair[0].y.abs_diff(pair[1].y);
        assert_eq!(dx + dy, 1, "consecutive cells must be 4-adjacent");
    }
}

#[test]
fn luminance_threshold_is_fifty() {
    let mut luma = vec![49u8; 2 * 2];
    luma[1 * 2 + 1] = 50; // (1, 1)
    let (grid, tiles) = build_level_grid(&luma, 2, 2);
    let tile_at = |x: u32, y: u32| -> Tile { tiles[(x * 2 + y) as usize] };
    assert!(!tile_at(0, 0).passable);
    assert!(tile_at(1, 1).passable);
    // Only one vertex made it into the grid, and it is not on a start row
    // the scan accepts, so the search reports a missing start.
    match compute_path_from_grid(&grid) {
        Err(TileMapError::NoStart) => {}
        other => panic!("expected NoStart, got {:?}", other.map(|p| coords(&p.path))),
    }
}

#[test]
fn tiles_cover_every_cell_with_texture_flags() {
    let luma = luma_with(3, 2, &[(0, 0), (2, 1)]);
    let (_grid, tiles) = build_level_grid(&luma, 3, 2);
    assert_eq!(tiles.len(), 6);
    for x in 0..3u32 {
        for y in 0..2u32 {
            let t = tiles[(x * 2 + y) as usize];
            assert_eq!((t.x, t.y), (x, y));
            let expect_passable = (x, y) == (0, 0) || (x, y) == (2, 1);
            assert_eq!(t.passable, expect_passable);
            assert_eq!(t.texture_index, if expect_passable { 0 } else { 1 });
        }
    }
}

#[test]
fn load_level_bundles_grid_tiles_and_path() {
    let luma = luma_with(4, 3, &[(3, 0), (2, 0), (1, 0), (0, 0)]);
    let lvl = load_level(&luma, 4, 3, 16, (0, 0)).expect("level expected");
    assert_eq!(lvl.tiles.len(), 12);
    assert_eq!(coords(&lvl.tile_path.path), vec![(3, 0), (2, 0), (1, 0), (0, 0)]);
    assert_eq!(lvl.tile_size, 16);
    assert_eq!(lvl.origin, (0, 0));
}

#[test]
fn load_level_propagates_failures() {
    let luma = vec![0u8; 12];
    match load_level(&luma, 4, 3, 16, (0, 0)) {
        Err(TileMapError::NoStart) => {}
        other => panic!("expected NoStart, got {:?}", other.map(|l| coords(&l.tile_path.path))),
    }
}

#[test]
fn error_messages_name_the_failure() {
    assert_eq!(
        TileMapError::NoStart.message(),
        "No starting point was available on the proposed map."
    );
    assert_eq!(
        TileMapError::NoPathToEnd.message(),
        "No path was found from starting point to the end of the map."
    );
}
