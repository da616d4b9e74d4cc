//! The kinds of ground that the world is tiled with.

use vstd::prelude::*;

verus! {

/// Edge of one tile, in world units.
pub const TILE_SIZE: i32 = 16;

/// Tiles along each edge of the world.
pub const MAP_TILES: u32 = 500;

/// Height of the layer that the ground is drawn on.
pub const Z_FLOOR: i32 = 0;

/// What a tile is made of.
#[derive(Debug, Clone, Copy, PartialEq, Eq, Hash, Structural)]
pub enum Terrain {
    Grass,
    Stone,
    Sand,
    Water,
}

/// Marks a tile that nobody can walk on.
#[derive(Debug, Clone, Copy, PartialEq, Eq, Structural)]
pub struct UnwalkableTile;

/// The picture in the tile sheet that shows `terrain`.
pub open spec fn texture_of(terrain: Terrain) -> u32 {
    match terrain {
        Terrain::Grass => 0,
        Terrain::Stone => 1,
        Terrain::Sand => 2,
        Terrain::Water => 4,
    }
}

/// Whether `terrain` stops whoever walks into it: water and stone do.
pub open spec fn blocks(terrain: Terrain) -> bool {
    terrain == Terrain::Water || terrain == Terrain::Stone
}

impl Terrain {
    /// The picture in the tile sheet that shows this terrain.
    pub fn texture_index(&self) -> (index: u32)
        ensures
            index == texture_of(*self),
    {
        match self {
            Terrain::Grass => 0,
            Terrain::Stone => 1,
            Terrain::Sand => 2,
            Terrain::Water => 4,
        }
    }

    /// The mark that a tile of this terrain bears, if it cannot be walked on.
    pub fn unwalkable(&self) -> (mark: Option<UnwalkableTile>)
        ensures
            mark is Some <==> blocks(*self),
    {
        match self {
            Terrain::Water => Some(UnwalkableTile),
            Terrain::Stone => Some(UnwalkableTile),
            _ => None,
        }
    }
}

} // verus!
