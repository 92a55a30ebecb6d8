//! Conversions between absolute tile coordinates, chunk coordinates, and
//! intra-chunk offset coordinates.
//!
//! Chunk coordinates are obtained by floor division (not truncating division)
//! so that negative tile coordinates map to the correct chunk, and offsets are
//! normalised into `[0, chunk size)`.

use vstd::prelude::*;
use vstd::arithmetic::div_mod::{lemma_fundamental_div_mod, lemma_fundamental_div_mod_converse};

verus! {

/// Width of a chunk in tiles.
pub const CHUNK_WIDTH: i32 = 16;

/// Height of a chunk in tiles.
pub const CHUNK_HEIGHT: i32 = 16;

/// Number of tiles in a chunk (`CHUNK_WIDTH * CHUNK_HEIGHT`).
pub const CHUNK_TILE_COUNT: usize = 256;

/// An absolute tile position on the conceptually infinite world grid.
#[derive(Clone, Copy, Debug, Default, PartialEq, Eq, Hash, Structural)]
pub struct TileCoords {
    pub x: i32,
    pub y: i32,
}

/// Identifies one fixed-size chunk of the world grid.
#[derive(Clone, Copy, Debug, Default, PartialEq, Eq, Hash, Structural)]
pub struct ChunkCoords {
    pub x: i32,
    pub y: i32,
}

/// A position within a chunk, bounded to `[0, CHUNK_WIDTH) x [0, CHUNK_HEIGHT)`
/// when obtained from [`TileCoords::as_chunk_offset_coords`].
#[derive(Clone, Copy, Debug, Default, PartialEq, Eq, Structural)]
pub struct OffsetCoords {
    pub x: u8,
    pub y: u8,
}

/// The chunk coordinate (on one axis) containing the given tile coordinate:
/// floor division of the tile coordinate by the chunk size.
pub open spec fn chunk_coord_of(tile: int) -> int {
    tile / 16
}

/// The offset (on one axis) of the given tile coordinate within its chunk,
/// always in `[0, 16)`.
pub open spec fn offset_coord_of(tile: int) -> int {
    tile % 16
}

/// Relates the truncating quotient and remainder computed in executable code
/// to the floor quotient and normalised remainder used in specifications, on
/// one axis. `tq` and `tr` are the values of the executable `/` and `%`.
proof fn lemma_axis_division(x: int, tq: int, tr: int)
    requires
        tq == (if x >= 0 { x / 16 } else { -((-x) / 16) }),
        tr == (if x >= 0 { x % 16 } else { -((-x) % 16) }),
    ensures
        x >= 0 || tr == 0 ==> tq == chunk_coord_of(x) && tr == offset_coord_of(x),
        !(x >= 0 || tr == 0) ==> tq - 1 == chunk_coord_of(x) && 16 + tr == offset_coord_of(x),
{
    if x >= 0 {
        // Truncating and floor division agree on non-negative values.
    } else {
        let m = -x;
        let qm = m / 16;
        let rm = m % 16;
        lemma_fundamental_div_mod(m, 16);
        if rm == 0 {
            lemma_fundamental_div_mod_converse(x, 16, -qm, 0);
        } else {
            assert(x == (-qm - 1) * 16 + (16 - rm)) by {
                assert(m == 16 * qm + rm);
            };
            lemma_fundamental_div_mod_converse(x, 16, -qm - 1, 16 - rm);
        }
    }
}

/// The coordinates of the chunk containing a tile.
pub open spec fn tile_chunk(t: TileCoords) -> ChunkCoords {
    ChunkCoords { x: chunk_coord_of(t.x as int) as i32, y: chunk_coord_of(t.y as int) as i32 }
}

/// The row-major index of a tile within its chunk's tile grid.
pub open spec fn tile_index_in_chunk(t: TileCoords) -> int {
    offset_coord_of(t.y as int) * 16 + offset_coord_of(t.x as int)
}

impl TileCoords {
    /// Identify the coordinates of the chunk that the tile at these tile
    /// coordinates would be found in.
    pub fn as_chunk_coords(&self) -> (r: ChunkCoords)
        ensures
            r.x == chunk_coord_of(self.x as int),
            r.y == chunk_coord_of(self.y as int),
            r == tile_chunk(*self),
    {
        let chunk_x = self.x / CHUNK_WIDTH;
        let chunk_y = self.y / CHUNK_HEIGHT;
        let rem_x = self.x % CHUNK_WIDTH;
        let rem_y = self.y % CHUNK_HEIGHT;

        proof {
            lemma_axis_division(self.x as int, chunk_x as int, rem_x as int);
            lemma_axis_division(self.y as int, chunk_y as int, rem_y as int);
        }

        ChunkCoords {
            x: if self.x >= 0 || rem_x == 0 { chunk_x } else { chunk_x - 1 },
            y: if self.y >= 0 || rem_y == 0 { chunk_y } else { chunk_y - 1 },
        }
    }

    /// Identify the offset from its containing chunk that the specified tile
    /// would be found at.
    pub fn as_chunk_offset_coords(&self) -> (r: OffsetCoords)
        ensures
            r.x == offset_coord_of(self.x as int),
            r.y == offset_coord_of(self.y as int),
            r.x < 16,
            r.y < 16,
            r.y as int * 16 + r.x as int == tile_index_in_chunk(*self),
    {
        let chunk_x = self.x / CHUNK_WIDTH;
        let chunk_y = self.y / CHUNK_HEIGHT;
        let offset_x = self.x % CHUNK_WIDTH;
        let offset_y = self.y % CHUNK_HEIGHT;

        proof {
            lemma_axis_division(self.x as int, chunk_x as int, offset_x as int);
            lemma_axis_division(self.y as int, chunk_y as int, offset_y as int);
        }

        OffsetCoords {
            x: (if self.x >= 0 || offset_x == 0 { offset_x } else { CHUNK_WIDTH + offset_x }) as u8,
            y: (if self.y >= 0 || offset_y == 0 { offset_y } else { CHUNK_HEIGHT + offset_y }) as u8,
        }
    }
}

/// Round-trip law: for every tile coordinate, the chunk coordinate scaled by
/// the chunk size plus the intra-chunk offset reconstructs the original tile
/// coordinate exactly, on both axes, including negative coordinates; the
/// offset always lies within the chunk bounds.
pub proof fn lemma_tile_coords_round_trip(t: TileCoords)
    ensures
        chunk_coord_of(t.x as int) * 16 + offset_coord_of(t.x as int) == t.x as int,
        chunk_coord_of(t.y as int) * 16 + offset_coord_of(t.y as int) == t.y as int,
        0 <= offset_coord_of(t.x as int) < 16,
        0 <= offset_coord_of(t.y as int) < 16,
{
    lemma_fundamental_div_mod(t.x as int, 16);
    lemma_fundamental_div_mod(t.y as int, 16);
}

/// The linear tile index denoted by offset coordinates: row-major order,
/// clamped to the last valid index when the offsets lie outside the chunk.
pub open spec fn offset_index(x: int, y: int) -> int {
    if y * 16 + x < 256 {
        y * 16 + x
    } else {
        255
    }
}

impl OffsetCoords {
    /// Calculate the index within the array used to store tiles in chunks.
    /// Guaranteed to be within bounds regardless of offset coordinate values.
    pub fn calculate_index(&self) -> (r: usize)
        ensures
            r == offset_index(self.x as int, self.y as int),
            r < 256,
            self.x < 16 && self.y < 16 ==> r == self.y as int * 16 + self.x as int,
    {
        let raw = self.y as i32 * CHUNK_WIDTH + self.x as i32;
        if raw < 256 {
            raw as usize
        } else {
            255
        }
    }
}

} // verus!
