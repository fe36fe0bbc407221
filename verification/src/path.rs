//! Path discovery over the walkability grid.
//!
//! The start cell is the lowest-`y` walkable cell of the rightmost column
//! (the final row excluded); the goal is any cell with `x == 0`. The route
//! between them is found by the `pathfinding` crate's depth-first search
//! over the grid's 4-connected adjacency, behind a trusted wrapper.

use vstd::prelude::*;

use crate::grid::{grid_cells, grid_height, grid_shape, grid_width};

verus! {

/// A grid cell coordinate on the discovered route.
#[derive(Clone, Copy, Debug, PartialEq, Eq, Structural)]
pub struct TilePos {
    pub x: u32,
    pub y: u32,
}

/// The route a level's units walk, from the discovered start cell to a cell
/// on the goal edge.
pub struct TilePath {
    pub path: Vec<TilePos>,
}

/// Why no route could be produced for a level.
#[derive(Clone, Copy, Debug, PartialEq, Eq, Structural)]
pub enum TileMapError {
    /// No walkable cell was found on the start-scan edge.
    NoStart,
    /// The search exhausted every reachable cell without touching the goal
    /// edge.
    NoPathToEnd,
}

impl TileMapError {
    /// A human-readable account of the failure.
    pub fn message(&self) -> (r: &'static str)
        ensures
            *self is NoStart ==> r@ =~= "No starting point was available on the proposed map."@,
            *self is NoPathToEnd ==> r@
                =~= "No path was found from starting point to the end of the map."@,
    {
        match self {
            TileMapError::NoStart => "No starting point was available on the proposed map.",
            TileMapError::NoPathToEnd => "No path was found from starting point to the end of the map.",
        }
    }
}

/// Cells that differ by one step along exactly one axis; diagonals are not
/// neighbours.
pub open spec fn adjacent(a: (int, int), b: (int, int)) -> bool {
    (a.0 == b.0 && (a.1 == b.1 + 1 || a.1 + 1 == b.1)) || (a.1 == b.1 && (a.0 == b.0 + 1 || a.0
        + 1 == b.0))
}

/// A walk over walkable cells from `start` to some cell on the goal edge
/// (`x == 0`), each step moving to an adjacent cell.
pub open spec fn is_goal_walk(cells: Set<(int, int)>, start: (int, int), p: Seq<(int, int)>) -> bool {
    &&& p.len() >= 1
    &&& p[0] == start
    &&& p[p.len() - 1].0 == 0
    &&& forall|i: int| 0 <= i < p.len() ==> cells.contains(#[trigger] p[i])
    &&& forall|i: int| 0 <= i < p.len() - 1 ==> adjacent(p[i], #[trigger] p[i + 1])
}

/// Whether any walk reaches the goal edge from `start`.
pub open spec fn has_goal_walk(cells: Set<(int, int)>, start: (int, int)) -> bool {
    exists|p: Seq<(int, int)>| is_goal_walk(cells, start, p)
}

/// The coordinate pairs of a searched path, as mathematical integers.
pub open spec fn usize_pairs(s: Seq<(usize, usize)>) -> Seq<(int, int)> {
    s.map_values(|p: (usize, usize)| (p.0 as int, p.1 as int))
}

/// The coordinate pairs of a tile path, as mathematical integers.
pub open spec fn tile_points(s: Seq<TilePos>) -> Seq<(int, int)> {
    s.map_values(|t: TilePos| (t.x as int, t.y as int))
}

/// What the depth-first search returns for a grid with the given cells and
/// dimensions (diagonal mode off) from `start`. The search visits neighbours
/// in a fixed order, so its result is a function of these arguments alone.
pub uninterp spec fn dfs_goal_path(
    cells: Set<(int, int)>,
    width: int,
    height: int,
    start: (int, int),
) -> Option<Seq<(int, int)>>;

/// Relies on `pathfinding::directed::dfs::dfs` driven by
/// `pathfinding::grid::Grid::neighbours`: the search returns a duplicate-free
/// walk from `start` to the first cell it reaches with `x == 0`, stepping only
/// between adjacent cells present in the grid (diagonal mode is off), and
/// returns `None` exactly when no such walk exists; with a fixed neighbour
/// order the outcome is a function of the grid's contents, its dimensions and
/// the start cell.
#[verifier::external_body]
fn grid_dfs_to_goal(g: &pathfinding::grid::Grid, start: (usize, usize)) -> (r: Option<
    Vec<(usize, usize)>,
>)
    requires
        grid_shape(*g).2 == false,
        grid_cells(*g).contains((start.0 as int, start.1 as int)),
    ensures
        (match r {
            Some(p) => Some(usize_pairs(p@)),
            None => None,
        }) == dfs_goal_path(
            grid_cells(*g),
            grid_shape(*g).0,
            grid_shape(*g).1,
            (start.0 as int, start.1 as int),
        ),
        r is Some <==> has_goal_walk(grid_cells(*g), (start.0 as int, start.1 as int)),
        r is Some ==> is_goal_walk(
            grid_cells(*g),
            (start.0 as int, start.1 as int),
            usize_pairs(r.unwrap()@),
        ),
        r is Some ==> forall|i: int|
            0 <= i < r.unwrap()@.len() ==> ((#[trigger] r.unwrap()@[i]).0 as int) < grid_shape(
                *g,
            ).0 && (r.unwrap()@[i].1 as int) < grid_shape(*g).1,
{
    pathfinding::directed::dfs::dfs(start, |p| g.neighbours(*p), |p| p.0 == 0)
}

/// The start cell the scan settles on: the first `y` at or after `from` and
/// before the final row for which the rightmost column's cell is walkable.
pub open spec fn start_scan_from(
    cells: Set<(int, int)>,
    width: int,
    height: int,
    from: int,
) -> Option<int>
    decreases height - 1 - from,
{
    if from < 0 || from >= height - 1 {
        None
    } else if cells.contains((width - 1, from)) {
        Some(from)
    } else {
        start_scan_from(cells, width, height, from + 1)
    }
}

/// The start cell of the whole grid: the scan begun at `y == 0`.
pub open spec fn start_scan(cells: Set<(int, int)>, width: int, height: int) -> Option<int> {
    start_scan_from(cells, width, height, 0)
}

/// What path discovery as a whole returns for a grid with the given cells
/// and dimensions.
pub open spec fn path_search_spec(cells: Set<(int, int)>, width: int, height: int) -> Result<
    Seq<(int, int)>,
    TileMapError,
> {
    match start_scan(cells, width, height) {
        None => Err(TileMapError::NoStart),
        Some(y) => match dfs_goal_path(cells, width, height, (width - 1, y)) {
            None => Err(TileMapError::NoPathToEnd),
            Some(p) => Ok(p),
        },
    }
}

proof fn lemma_start_scan_prefix(cells: Set<(int, int)>, width: int, height: int, y: int)
    requires
        0 <= y <= height - 1,
        forall|yy: int| 0 <= yy < y ==> !(#[trigger] cells.contains((width - 1, yy))),
    ensures
        start_scan(cells, width, height) == start_scan_from(cells, width, height, y),
    decreases y,
{
    if y > 0 {
        lemma_start_scan_prefix(cells, width, height, y - 1);
    }
}

/// Scans the rightmost column upward from `y == 0` (final row excluded) for
/// the first walkable cell, then walks the depth-first search's route from it
/// to the `x == 0` edge. Fails with `NoStart` when the scan finds nothing and
/// with `NoPathToEnd` when no route to the goal edge exists.
pub fn compute_path_from_grid(grid_data: &pathfinding::grid::Grid) -> (r: Result<
    TilePath,
    TileMapError,
>)
    requires
        1 <= grid_shape(*grid_data).0 <= u32::MAX,
        1 <= grid_shape(*grid_data).1 <= u32::MAX,
        grid_shape(*grid_data).2 == false,
    ensures
        (match r {
            Ok(tp) => Ok(tile_points(tp.path@)),
            Err(e) => Err(e),
        }) == path_search_spec(
            grid_cells(*grid_data),
            grid_shape(*grid_data).0,
            grid_shape(*grid_data).1,
        ),
        r is Ok <==> (start_scan(
            grid_cells(*grid_data),
            grid_shape(*grid_data).0,
            grid_shape(*grid_data).1,
        ) matches Some(y) && has_goal_walk(
            grid_cells(*grid_data),
            (grid_shape(*grid_data).0 - 1, y),
        )),
        r matches Ok(tp) ==> is_goal_walk(
            grid_cells(*grid_data),
            (grid_shape(*grid_data).0 - 1, start_scan(
                grid_cells(*grid_data),
                grid_shape(*grid_data).0,
                grid_shape(*grid_data).1,
            ).unwrap()),
            tile_points(tp.path@),
        ),
{
    let ghost cells = grid_cells(*grid_data);
    let ghost gw = grid_shape(*grid_data).0;
    let ghost gh = grid_shape(*grid_data).1;
    let w = grid_width(grid_data);
    let h = grid_height(grid_data);
    let x = w - 1;

    let mut start: Option<(usize, usize)> = None;
    let mut y: usize = 0;
    while y < h - 1 && start.is_none()
        invariant
            w as int == gw,
            h as int == gh,
            1 <= gw <= u32::MAX,
            1 <= gh <= u32::MAX,
            x as int == gw - 1,
            y <= h - 1,
            cells == grid_cells(*grid_data),
            match start {
                None => forall|yy: int| 0 <= yy < y ==> !(#[trigger] cells.contains((gw - 1, yy))),
                Some(s) => s == (x, y) && cells.contains((gw - 1, y as int)) && y < h - 1 && forall|
                    yy: int,
                |
                    0 <= yy < y ==> !(#[trigger] cells.contains((gw - 1, yy))),
            },
        decreases h - 1 - y, (if start.is_none() { 1int } else { 0int }),
    {
        if grid_data.has_vertex((x, y)) {
            start = Some((x, y));
        } else {
            y = y + 1;
        }
    }

    match start {
        None => {
            proof {
                lemma_start_scan_prefix(cells, gw, gh, gh - 1);
            }
            Err(TileMapError::NoStart)
        },
        Some(s) => {
            proof {
                lemma_start_scan_prefix(cells, gw, gh, y as int);
                assert(start_scan(cells, gw, gh) == Some(y as int));
            }
            match grid_dfs_to_goal(grid_data, s) {
                None => Err(TileMapError::NoPathToEnd),
                Some(raw) => {
                    let mut path: Vec<TilePos> = Vec::new();
                    let mut i: usize = 0;
                    while i < raw.len()
                        invariant
                            i <= raw.len(),
                            path@.len() == i as int,
                            forall|j: int|
                                0 <= j < raw@.len() ==> ((#[trigger] raw@[j]).0 as int) < gw && (
                                raw@[j].1 as int) < gh,
                            1 <= gw <= u32::MAX,
                            1 <= gh <= u32::MAX,
                            forall|j: int|
                                0 <= j < i ==> (#[trigger] path@[j]).x as int == raw@[j].0 as int
                                    && path@[j].y as int == raw@[j].1 as int,
                        decreases raw.len() - i,
                    {
                        let p = raw[i];
                        path.push(TilePos { x: p.0 as u32, y: p.1 as u32 });
                        i = i + 1;
                    }
                    proof {
                        assert(tile_points(path@) =~= usize_pairs(raw@));
                    }
                    Ok(TilePath { path })
                },
            }
        },
    }
}

/// What the start scan answers, in closed form: nothing when no cell of the
/// rightmost column is walkable on a row the scan covers, and otherwise the
/// lowest such row.
pub proof fn lemma_start_scan_characterization(cells: Set<(int, int)>, width: int, height: int)
    ensures
        start_scan(cells, width, height) is None <==> forall|y: int|
            0 <= y < height - 1 ==> !(#[trigger] cells.contains((width - 1, y))),
        start_scan(cells, width, height) matches Some(y) ==> {
            &&& 0 <= y < height - 1
            &&& cells.contains((width - 1, y))
            &&& forall|yy: int| 0 <= yy < y ==> !(#[trigger] cells.contains((width - 1, yy)))
        },
{
    lemma_start_scan_from_characterization(cells, width, height, 0);
}

proof fn lemma_start_scan_from_characterization(
    cells: Set<(int, int)>,
    width: int,
    height: int,
    from: int,
)
    requires
        from >= 0,
    ensures
        start_scan_from(cells, width, height, from) is None <==> forall|y: int|
            from <= y < height - 1 ==> !(#[trigger] cells.contains((width - 1, y))),
        start_scan_from(cells, width, height, from) matches Some(y) ==> {
            &&& from <= y < height - 1
            &&& cells.contains((width - 1, y))
            &&& forall|yy: int| from <= yy < y ==> !(#[trigger] cells.contains((width - 1, yy)))
        },
    decreases height - 1 - from,
{
    if from < height - 1 && !cells.contains((width - 1, from)) {
        lemma_start_scan_from_characterization(cells, width, height, from + 1);
    }
}

/// Re-running path discovery on an unchanged grid yields the same outcome:
/// the search's result is a function of the grid's cells and dimensions, so
/// two grids with equal contents and shape give equal paths (or the same
/// failure).
pub proof fn lemma_path_search_deterministic(
    g1: pathfinding::grid::Grid,
    g2: pathfinding::grid::Grid,
)
    requires
        grid_cells(g1) == grid_cells(g2),
        grid_shape(g1) == grid_shape(g2),
    ensures
        path_search_spec(grid_cells(g1), grid_shape(g1).0, grid_shape(g1).1) == path_search_spec(
            grid_cells(g2),
            grid_shape(g2).0,
            grid_shape(g2).1,
        ),
{
}

/// A grid with a walkable cell on the start-scan edge and a walk from the
/// scanned start to the goal edge always yields a path: non-empty, made of
/// walkable cells, consecutive cells adjacent, ending on the `x == 0` edge.
pub proof fn lemma_path_found_is_valid(grid_data: pathfinding::grid::Grid, r: Result<
    TilePath,
    TileMapError,
>)
    requires
        (match r {
            Ok(tp) => Ok(tile_points(tp.path@)),
            Err(e) => Err(e),
        }) == path_search_spec(
            grid_cells(grid_data),
            grid_shape(grid_data).0,
            grid_shape(grid_data).1,
        ),
        r matches Ok(tp) ==> is_goal_walk(
            grid_cells(grid_data),
            (grid_shape(grid_data).0 - 1, start_scan(
                grid_cells(grid_data),
                grid_shape(grid_data).0,
                grid_shape(grid_data).1,
            ).unwrap()),
            tile_points(tp.path@),
        ),
        r is Ok,
    ensures
        (r matches Ok(tp) ==> {
            &&& tp.path@.len() >= 1
            &&& tile_points(tp.path@)[tp.path@.len() - 1].0 == 0
            &&& forall|i: int|
                0 <= i < tp.path@.len() ==> grid_cells(grid_data).contains(
                    #[trigger] tile_points(tp.path@)[i],
                )
            &&& forall|i: int|
                0 <= i < tp.path@.len() - 1 ==> adjacent(
                    tile_points(tp.path@)[i],
                    #[trigger] tile_points(tp.path@)[i + 1],
                )
        }),
{
}

} // verus!
