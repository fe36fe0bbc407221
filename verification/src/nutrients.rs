//! Per-tile water content, seeded from passability.

use vstd::prelude::*;

use crate::grid::Tile;

verus! {

/// How much water a walkable tile starts with.
pub const INITIAL_TILE_WATER: u32 = 1000;

/// One tile's water content.
#[derive(Clone, Copy, Debug, PartialEq, Eq, Structural)]
pub struct TileWater(pub u32);

/// The water a tile is seeded with: full for passable ground, none for
/// blocked cells.
pub open spec fn initial_water(t: Tile) -> TileWater {
    TileWater(
        if t.passable {
            INITIAL_TILE_WATER
        } else {
            0
        },
    )
}

/// Seeds every tile's water content from its passability, in tile order.
pub fn sys_setup_nutrients(tiles: &Vec<Tile>) -> (water: Vec<TileWater>)
    ensures
        water@.len() == tiles@.len(),
        forall|i: int| 0 <= i < tiles@.len() ==> water@[i] == initial_water(#[trigger] tiles@[i]),
{
    let mut water: Vec<TileWater> = Vec::new();
    let mut i: usize = 0;
    while i < tiles.len()
        invariant
            i <= tiles@.len(),
            water@.len() == i as int,
            forall|j: int| 0 <= j < i ==> water@[j] == initial_water(#[trigger] tiles@[j]),
        decreases tiles@.len() - i,
    {
        let t = tiles[i];
        water.push(TileWater(if t.passable { INITIAL_TILE_WATER } else { 0 }));
        i = i + 1;
    }
    water
}

} // verus!
