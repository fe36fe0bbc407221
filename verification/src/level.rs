//! The assembled level: grid, tiles, path and placement metadata.
//!
//! World positions are integers in milli-units (one thousandth of a world
//! unit), so sub-cell positions along the path stay exact without floating
//! point.

use vstd::prelude::*;

use crate::grid::{build_level_grid, grid_cells, grid_shape, tile_for_cell, walkable_cells, Tile};
use crate::path::{
    adjacent, compute_path_from_grid, is_goal_walk, path_search_spec, start_scan, tile_points,
    TileMapError, TilePath, TilePos,
};

verus! {

/// Largest accepted cell edge, in world units: keeps every cell-center
/// computation inside `i64` milli-units.
pub const MAX_TILE_SIZE: u32 = 100000;

/// Largest accepted placement-origin magnitude, in milli-units, for the same
/// reason.
pub const MAX_ORIGIN_MILLI: i64 = 1000000000000000000;

/// One level's bundle: the walkability grid, one tile record per cell, the
/// discovered path, and where in the world the grid sits. Built whole by
/// `load_level`; no partially assembled level is ever observable.
pub struct Level {
    pub grid: pathfinding::grid::Grid,
    pub tiles: Vec<Tile>,
    pub tile_path: TilePath,
    /// Cell edge length, world units.
    pub tile_size: u32,
    /// World-space translation of the grid's corner, milli-units.
    pub origin: (i64, i64),
}

/// The map-local center of a cell along one axis, in milli-units.
pub open spec fn cell_center_milli(tile_size: int, c: int) -> int {
    c * tile_size * 1000 + tile_size * 500
}

impl Level {
    /// The path cell at index `i`, as a coordinate pair.
    pub open spec fn path_point(self, i: int) -> (int, int) {
        (self.tile_path.path@[i].x as int, self.tile_path.path@[i].y as int)
    }

    /// How many cells the path has.
    pub open spec fn path_len(self) -> int {
        self.tile_path.path@.len() as int
    }

    /// The map-local center of a cell, both axes, in milli-units.
    pub open spec fn center_spec(self, p: (int, int)) -> (int, int) {
        (cell_center_milli(self.tile_size as int, p.0), cell_center_milli(
            self.tile_size as int,
            p.1,
        ))
    }

    /// A level is well formed when its path is a non-empty chain of adjacent
    /// cells and its placement numbers are small enough for the milli-unit
    /// position arithmetic to stay inside `i64`.
    pub open spec fn wf(self) -> bool {
        &&& self.path_len() >= 1
        &&& 1 <= self.tile_size <= MAX_TILE_SIZE
        &&& -MAX_ORIGIN_MILLI <= self.origin.0 <= MAX_ORIGIN_MILLI
        &&& -MAX_ORIGIN_MILLI <= self.origin.1 <= MAX_ORIGIN_MILLI
        &&& forall|i: int|
            0 <= i < self.path_len() - 1 ==> adjacent(#[trigger] self.path_point(i), self.path_point(i + 1))
    }

    /// The map-local world center of one path cell, in milli-units.
    pub fn center_in_world(&self, pos: TilePos) -> (c: (i64, i64))
        requires
            self.wf(),
        ensures
            (c.0 as int, c.1 as int) == self.center_spec((pos.x as int, pos.y as int)),
    {
        proof {
            lemma_center_in_range(pos.x as int, self.tile_size as int);
            lemma_center_in_range(pos.y as int, self.tile_size as int);
        }
        let ts = self.tile_size as i64;
        ((pos.x as i64) * ts * 1000 + ts * 500, (pos.y as i64) * ts * 1000 + ts * 500)
    }
}

/// A cell center in milli-units never leaves `[0, 10^18)` while the cell
/// coordinate fits `u32` and the tile size respects `MAX_TILE_SIZE`.
pub proof fn lemma_center_in_range(c: int, ts: int)
    by (nonlinear_arith)
    requires
        0 <= c <= u32::MAX,
        1 <= ts <= MAX_TILE_SIZE,
    ensures
        0 <= cell_center_milli(ts, c) < MAX_ORIGIN_MILLI,
{
}

/// Bundles an already-built grid, tiles and path into one level. The level
/// is complete the moment it exists: callers never see a grid without its
/// path or the reverse.
pub fn assemble_level(
    grid: pathfinding::grid::Grid,
    tiles: Vec<Tile>,
    tile_path: TilePath,
    tile_size: u32,
    origin: (i64, i64),
) -> (lvl: Level)
    requires
        tile_path.path@.len() >= 1,
        1 <= tile_size <= MAX_TILE_SIZE,
        -MAX_ORIGIN_MILLI <= origin.0 <= MAX_ORIGIN_MILLI,
        -MAX_ORIGIN_MILLI <= origin.1 <= MAX_ORIGIN_MILLI,
        forall|i: int|
            0 <= i < tile_path.path@.len() - 1 ==> adjacent(
                #[trigger] tile_points(tile_path.path@)[i],
                tile_points(tile_path.path@)[i + 1],
            ),
    ensures
        lvl == (Level { grid, tiles, tile_path, tile_size, origin }),
        lvl.wf(),
{
    let lvl = Level { grid, tiles, tile_path, tile_size, origin };
    proof {
        assert forall|i: int| 0 <= i < lvl.path_len() - 1 implies adjacent(
            #[trigger] lvl.path_point(i),
            lvl.path_point(i + 1),
        ) by {
            assert(lvl.path_point(i) == tile_points(lvl.tile_path.path@)[i]);
            assert(lvl.path_point(i + 1) == tile_points(lvl.tile_path.path@)[i + 1]);
        }
    }
    lvl
}

/// Converts a luminance image into a complete level: walkability grid, one
/// tile per cell, and the discovered path, placed with the given cell size
/// and origin. Fails, publishing nothing, exactly when path discovery fails.
pub fn load_level(
    luma: &Vec<u8>,
    width: u32,
    height: u32,
    tile_size: u32,
    origin: (i64, i64),
) -> (r: Result<Level, TileMapError>)
    requires
        luma@.len() == width as int * height as int,
        width >= 1,
        height >= 1,
        1 <= tile_size <= MAX_TILE_SIZE,
        -MAX_ORIGIN_MILLI <= origin.0 <= MAX_ORIGIN_MILLI,
        -MAX_ORIGIN_MILLI <= origin.1 <= MAX_ORIGIN_MILLI,
    ensures
        (match r {
            Ok(lvl) => Ok(tile_points(lvl.tile_path.path@)),
            Err(e) => Err(e),
        }) == path_search_spec(
            walkable_cells(luma@, width as int, height as int),
            width as int,
            height as int,
        ),
        match r {
            Ok(lvl) => {
                &&& lvl.wf()
                &&& grid_cells(lvl.grid) == walkable_cells(luma@, width as int, height as int)
                &&& grid_shape(lvl.grid) == (width as int, height as int, false)
                &&& lvl.tiles@.len() == width as int * height as int
                &&& forall|x: int, y: int|
                    0 <= x < width && 0 <= y < height ==> lvl.tiles@[x * height + y]
                        == tile_for_cell(luma@, width as int, x, y)
                &&& lvl.tile_size == tile_size
                &&& lvl.origin == origin
                &&& is_goal_walk(
                    walkable_cells(luma@, width as int, height as int),
                    (width as int - 1, start_scan(
                        walkable_cells(luma@, width as int, height as int),
                        width as int,
                        height as int,
                    ).unwrap()),
                    tile_points(lvl.tile_path.path@),
                )
            },
            Err(_) => true,
        },
{
    let (grid, tiles) = build_level_grid(luma, width, height);
    match compute_path_from_grid(&grid) {
        Err(e) => Err(e),
        Ok(tile_path) => Ok(assemble_level(grid, tiles, tile_path, tile_size, origin)),
    }
}

} // verus!
