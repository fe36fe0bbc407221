//! Walkability grid built from a luminance image.
//!
//! The grid itself is `pathfinding::grid::Grid`, an outside collection of
//! walkable cell coordinates. Its contents and dimensions are named by the
//! spec functions below, and the handful of methods the crate calls carry
//! trusted contracts over those names.

use vstd::prelude::*;

verus! {

/// Luminance at or above this value makes a cell walkable.
pub const WALKABLE_MIN_LUMA: u8 = 50;

#[verifier::external_type_specification]
#[verifier::external_body]
pub struct ExGrid(pathfinding::grid::Grid);

/// The set of cell coordinates the grid currently contains, exactly the
/// cells for which `Grid::has_vertex` answers true.
pub uninterp spec fn grid_cells(g: pathfinding::grid::Grid) -> Set<(int, int)>;

/// The grid's width, height, and whether diagonal mode is enabled.
pub uninterp spec fn grid_shape(g: pathfinding::grid::Grid) -> (int, int, bool);

/// Relies on `pathfinding::grid::Grid::new`: it creates an empty grid of the
/// given dimensions with diagonal mode disabled.
pub assume_specification[ pathfinding::grid::Grid::new ](
    width: usize,
    height: usize,
) -> (g: pathfinding::grid::Grid)
    ensures
        grid_cells(g) == Set::<(int, int)>::empty(),
        grid_shape(g) == (width as int, height as int, false),
;

/// Relies on `pathfinding::grid::Grid::add_vertex`: a vertex inside the grid's
/// dimensions is added (and the call reports whether it was new); a vertex
/// outside them leaves the grid unchanged.
pub assume_specification[ pathfinding::grid::Grid::add_vertex ](
    g: &mut pathfinding::grid::Grid,
    vertex: (usize, usize),
) -> (added: bool)
    ensures
        grid_shape(*final(g)) == grid_shape(*old(g)),
        (vertex.0 as int) < grid_shape(*old(g)).0 && (vertex.1 as int) < grid_shape(*old(g)).1
            ==> grid_cells(*final(g)) == grid_cells(*old(g)).insert(
                (vertex.0 as int, vertex.1 as int),
            ) && added == !grid_cells(*old(g)).contains((vertex.0 as int, vertex.1 as int)),
        !((vertex.0 as int) < grid_shape(*old(g)).0 && (vertex.1 as int) < grid_shape(*old(g)).1)
            ==> grid_cells(*final(g)) == grid_cells(*old(g)) && !added,
;

/// Relies on `pathfinding::grid::Grid::has_vertex`: it answers whether the
/// grid contains the given cell.
pub assume_specification[ pathfinding::grid::Grid::has_vertex ](
    g: &pathfinding::grid::Grid,
    vertex: (usize, usize),
) -> (r: bool)
    ensures
        r == grid_cells(*g).contains((vertex.0 as int, vertex.1 as int)),
;

/// Relies on the public `width` field of `pathfinding::grid::Grid`.
#[verifier::external_body]
pub fn grid_width(g: &pathfinding::grid::Grid) -> (w: usize)
    ensures
        w as int == grid_shape(*g).0,
{
    g.width
}

/// Relies on the public `height` field of `pathfinding::grid::Grid`.
#[verifier::external_body]
pub fn grid_height(g: &pathfinding::grid::Grid) -> (h: usize)
    ensures
        h as int == grid_shape(*g).1,
{
    g.height
}

/// One grid cell's passability record, kept for every cell of the image,
/// blocked ones included.
#[derive(Clone, Copy, Debug, PartialEq, Eq, Structural)]
pub struct Tile {
    pub x: u32,
    pub y: u32,
    pub passable: bool,
    pub texture_index: u32,
}

/// Whether the luminance buffer (row-major, `width` pixels per row) makes
/// cell `(x, y)` walkable.
pub open spec fn cell_walkable(luma: Seq<u8>, width: int, x: int, y: int) -> bool {
    luma[y * width + x] >= WALKABLE_MIN_LUMA
}

/// All walkable cells of the image.
pub open spec fn walkable_cells(luma: Seq<u8>, width: int, height: int) -> Set<(int, int)> {
    Set::new(
        |p: (int, int)|
            0 <= p.0 < width && 0 <= p.1 < height && cell_walkable(luma, width, p.0, p.1),
    )
}

/// The tile record cell `(x, y)` of the image must carry.
pub open spec fn tile_for_cell(luma: Seq<u8>, width: int, x: int, y: int) -> Tile {
    Tile {
        x: x as u32,
        y: y as u32,
        passable: cell_walkable(luma, width, x, y),
        texture_index: if cell_walkable(luma, width, x, y) {
            0u32
        } else {
            1u32
        },
    }
}

/// The walkable cells among those already visited by the builder's column
/// scan: all of columns before `x`, and rows before `y` of column `x`.
spec fn walkable_cells_upto(
    luma: Seq<u8>,
    width: int,
    height: int,
    x: int,
    y: int,
) -> Set<(int, int)> {
    Set::new(
        |p: (int, int)|
            0 <= p.0 < width && 0 <= p.1 < height && cell_walkable(luma, width, p.0, p.1) && (p.0
                < x || (p.0 == x && p.1 < y)),
    )
}

proof fn lemma_cell_index_bounds(x: int, y: int, w: int, h: int)
    by (nonlinear_arith)
    requires
        0 <= x < w,
        0 <= y < h,
    ensures
        0 <= y * w + x < w * h,
        0 <= x * h + y < w * h,
{
}

/// Converts a luminance image into the walkability grid and the per-cell
/// tile records. Every cell gets a tile; only walkable cells enter the grid.
pub fn build_level_grid(luma: &Vec<u8>, width: u32, height: u32) -> (out: (
    pathfinding::grid::Grid,
    Vec<Tile>,
))
    requires
        luma@.len() == width as int * height as int,
    ensures
        grid_shape(out.0) == (width as int, height as int, false),
        grid_cells(out.0) == walkable_cells(luma@, width as int, height as int),
        out.1@.len() == width as int * height as int,
        forall|x: int, y: int|
            0 <= x < width && 0 <= y < height ==> out.1@[x * height + y] == tile_for_cell(
                luma@,
                width as int,
                x,
                y,
            ),
{
    let w = width as usize;
    let h = height as usize;
    let total = luma.len();
    let mut g = pathfinding::grid::Grid::new(w, h);
    let mut tiles: Vec<Tile> = Vec::new();
    proof {
        assert(grid_cells(g) =~= walkable_cells_upto(luma@, width as int, height as int, 0, 0));
    }
    let mut x: usize = 0;
    while x < w
        invariant
            w == width as int,
            h == height as int,
            luma@.len() == w as int * h as int,
            luma@.len() == total as int,
            x <= w,
            grid_shape(g) == (width as int, height as int, false),
            grid_cells(g) == walkable_cells_upto(luma@, width as int, height as int, x as int, 0),
            tiles@.len() == x as int * h as int,
            forall|a: int, b: int|
                0 <= a < x && 0 <= b < height ==> tiles@[a * height + b] == tile_for_cell(
                    luma@,
                    width as int,
                    a,
                    b,
                ),
        decreases w - x,
    {
        let mut y: usize = 0;
        while y < h
            invariant
                w == width as int,
                h == height as int,
                luma@.len() == w as int * h as int,
                luma@.len() == total as int,
                x < w,
                y <= h,
                grid_shape(g) == (width as int, height as int, false),
                grid_cells(g) == walkable_cells_upto(
                    luma@,
                    width as int,
                    height as int,
                    x as int,
                    y as int,
                ),
                tiles@.len() == x as int * h as int + y as int,
                forall|a: int, b: int|
                    0 <= a < x && 0 <= b < height ==> tiles@[a * height + b] == tile_for_cell(
                        luma@,
                        width as int,
                        a,
                        b,
                    ),
                forall|b: int|
                    0 <= b < y ==> tiles@[x as int * height + b] == tile_for_cell(
                        luma@,
                        width as int,
                        x as int,
                        b,
                    ),
            decreases h - y,
        {
            proof {
                lemma_cell_index_bounds(x as int, y as int, w as int, h as int);
            }
            let idx = y * w + x;
            let filled = luma[idx] >= WALKABLE_MIN_LUMA;
            if filled {
                g.add_vertex((x, y));
            }
            proof {
                assert(grid_cells(g) =~= walkable_cells_upto(
                    luma@,
                    width as int,
                    height as int,
                    x as int,
                    y as int + 1,
                ));
            }
            tiles.push(
                Tile {
                    x: x as u32,
                    y: y as u32,
                    passable: filled,
                    texture_index: if filled {
                        0
                    } else {
                        1
                    },
                },
            );
            proof {
                assert forall|a: int, b: int| 0 <= a < x && 0 <= b < height implies tiles@[a
                    * height + b] == tile_for_cell(luma@, width as int, a, b) by {
                    lemma_cell_index_bounds(a, b, x as int, height as int);
                }
            }
            y = y + 1;
        }
        proof {
            assert(grid_cells(g) =~= walkable_cells_upto(
                luma@,
                width as int,
                height as int,
                x as int + 1,
                0,
            ));
            assert((x as int + 1) * h as int == x as int * h as int + h as int) by (nonlinear_arith);
            assert forall|a: int, b: int| 0 <= a < x as int + 1 && 0 <= b < height implies tiles@[a
                * height + b] == tile_for_cell(luma@, width as int, a, b) by {
                lemma_cell_index_bounds(a, b, x as int + 1, height as int);
            }
        }
        x = x + 1;
    }
    proof {
        assert(grid_cells(g) =~= walkable_cells(luma@, width as int, height as int));
    }
    (g, tiles)
}

} // verus!
