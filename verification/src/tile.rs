//! Tiles: the contents of one cell of the world grid, the derived blocking
//! predicate used for collision checks, and the single-byte encoding used by
//! the compact binary form of a chunk.

use vstd::prelude::*;

verus! {

/// Growth state of a plant tile.
#[derive(Clone, Copy, Debug, PartialEq, Eq, Structural)]
pub enum PlantState {
    Ripe,
    Harvested,
    Dead,
}

/// Indicates characteristics of a tile such as its texture and whether it
/// can be walked through.
#[derive(Clone, Copy, Debug, PartialEq, Eq, Structural)]
pub enum TileType {
    Ground,
    Wall,
    Dirt,
    Flower(PlantState),
    Tree(PlantState),
    Bush(PlantState),
}

/// One cell of the world grid: its type plus whether it has been seen by the
/// player yet.
#[derive(Clone, Copy, Debug, PartialEq, Eq, Structural)]
pub struct Tile {
    /// Indicates characteristics of this tile such as its texture.
    pub tile_type: TileType,
    /// Whether or not this tile has been seen by the player yet.
    pub seen: bool,
}

/// The tile value substituted where no other tile is known: plain unseen
/// ground.
pub open spec fn default_tile() -> Tile {
    Tile { tile_type: TileType::Ground, seen: false }
}

impl Default for Tile {
    /// Plain unseen ground.
    fn default() -> (r: Self)
        ensures
            r == default_tile(),
    {
        Tile { tile_type: TileType::Ground, seen: false }
    }
}

/// Whether a tile prevents entities from moving onto it.
pub open spec fn tile_blocking(t: Tile) -> bool {
    match t.tile_type {
        TileType::Wall => true,
        TileType::Flower(_) => true,
        TileType::Tree(_) => true,
        TileType::Bush(_) => true,
        _ => false,
    }
}

impl Tile {
    /// Whether this tile prevents entities from moving onto it; used for both
    /// collision checks and movement validation.
    pub fn blocking(&self) -> (r: bool)
        ensures
            r == tile_blocking(*self),
    {
        match self.tile_type {
            TileType::Wall | TileType::Flower(_) | TileType::Tree(_) | TileType::Bush(_) => true,
            _ => false,
        }
    }
}

/// Index of a plant state within its group of encoded values.
pub open spec fn plant_state_index(s: PlantState) -> int {
    match s {
        PlantState::Ripe => 0,
        PlantState::Harvested => 1,
        PlantState::Dead => 2,
    }
}

/// Index of a tile type among all tile type values.
pub open spec fn tile_type_index(t: TileType) -> int {
    match t {
        TileType::Ground => 0,
        TileType::Wall => 1,
        TileType::Dirt => 2,
        TileType::Flower(s) => 3 + plant_state_index(s),
        TileType::Tree(s) => 6 + plant_state_index(s),
        TileType::Bush(s) => 9 + plant_state_index(s),
    }
}

/// The single byte a tile is stored and transferred as: the tile type index
/// doubled, plus one if the tile has been seen.
pub open spec fn tile_to_byte(t: Tile) -> u8 {
    (tile_type_index(t.tile_type) * 2 + (if t.seen {
        1int
    } else {
        0int
    })) as u8
}

/// The plant state denoted by an index in `[0, 3)`.
pub open spec fn plant_state_from_index(i: int) -> PlantState {
    if i == 0 {
        PlantState::Ripe
    } else if i == 1 {
        PlantState::Harvested
    } else {
        PlantState::Dead
    }
}

/// The tile denoted by a stored byte. A byte that does not correspond to any
/// tile denotes the default tile, so that corrupted stored data degrades to a
/// usable value instead of failing the load.
pub open spec fn tile_from_byte(b: u8) -> Tile {
    let seen = b % 2 == 1;
    let idx = b / 2;
    let tile_type = if idx == 0 {
        TileType::Ground
    } else if idx == 1 {
        TileType::Wall
    } else if idx == 2 {
        TileType::Dirt
    } else if idx < 6 {
        TileType::Flower(plant_state_from_index(idx - 3))
    } else if idx < 9 {
        TileType::Tree(plant_state_from_index(idx - 6))
    } else if idx < 12 {
        TileType::Bush(plant_state_from_index(idx - 9))
    } else {
        TileType::Ground
    };
    if idx < 12 {
        Tile { tile_type, seen }
    } else {
        default_tile()
    }
}

/// Decoding a tile's stored byte yields the tile again: every tile survives
/// the compact binary form unchanged.
pub proof fn lemma_tile_byte_round_trip(t: Tile)
    ensures
        tile_from_byte(tile_to_byte(t)) == t,
{
}

impl Tile {
    /// Encode this tile as the single byte used by the compact binary form.
    pub fn to_byte(&self) -> (r: u8)
        ensures
            r == tile_to_byte(*self),
    {
        let idx: u8 = match self.tile_type {
            TileType::Ground => 0,
            TileType::Wall => 1,
            TileType::Dirt => 2,
            TileType::Flower(s) => 3 + plant_state_offset(s),
            TileType::Tree(s) => 6 + plant_state_offset(s),
            TileType::Bush(s) => 9 + plant_state_offset(s),
        };
        idx * 2 + (if self.seen {
            1
        } else {
            0
        })
    }

    /// Decode a tile from the single byte used by the compact binary form.
    /// Bytes that denote no tile decode to the default tile.
    pub fn from_byte(b: u8) -> (r: Tile)
        ensures
            r == tile_from_byte(b),
    {
        let seen = b % 2 == 1;
        let idx = b / 2;
        let tile_type = if idx == 0 {
            TileType::Ground
        } else if idx == 1 {
            TileType::Wall
        } else if idx == 2 {
            TileType::Dirt
        } else if idx < 6 {
            TileType::Flower(plant_state_from_offset(idx - 3))
        } else if idx < 9 {
            TileType::Tree(plant_state_from_offset(idx - 6))
        } else if idx < 12 {
            TileType::Bush(plant_state_from_offset(idx - 9))
        } else {
            TileType::Ground
        };
        if idx < 12 {
            Tile { tile_type, seen }
        } else {
            Tile { tile_type: TileType::Ground, seen: false }
        }
    }
}

/// Executable counterpart of [`plant_state_index`].
fn plant_state_offset(s: PlantState) -> (r: u8)
    ensures
        r == plant_state_index(s),
{
    match s {
        PlantState::Ripe => 0,
        PlantState::Harvested => 1,
        PlantState::Dead => 2,
    }
}

/// Executable counterpart of [`plant_state_from_index`].
fn plant_state_from_offset(i: u8) -> (r: PlantState)
    ensures
        r == plant_state_from_index(i as int),
{
    if i == 0 {
        PlantState::Ripe
    } else if i == 1 {
        PlantState::Harvested
    } else {
        PlantState::Dead
    }
}

} // verus!
