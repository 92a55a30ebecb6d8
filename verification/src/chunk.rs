//! A chunk: a fixed-size 16x16 block of tiles, the unit of loading, streaming
//! and persistence, together with its compact binary form.
//!
//! Offset access never fails: out-of-range offsets clamp to the last valid
//! index. Decoding a buffer with the wrong tile count repairs the chunk by
//! truncating or padding with default tiles, so a corrupted store degrades to
//! a usable chunk instead of failing the load.

use vstd::prelude::*;

use crate::coords::{ChunkCoords, OffsetCoords, offset_index, CHUNK_TILE_COUNT};
use crate::tile::{default_tile, tile_from_byte, tile_to_byte, Tile};

verus! {

/// 16x16 area of tiles on a map. As maps are infinite, chunks are generated,
/// loaded, and unloaded dynamically as necessary.
#[derive(Clone, Debug, PartialEq)]
pub struct Chunk {
    /// The tiles that this chunk is comprised of, in row-major order.
    tiles: Vec<Tile>,
}

/// The byte sequence of a chunk's compact binary form: one byte per tile.
pub open spec fn encoded_chunk_bytes(tiles: Seq<Tile>) -> Seq<u8> {
    tiles.map(|_i: int, t: Tile| tile_to_byte(t))
}

/// The tiles denoted by a stored byte buffer, repaired to exactly the chunk
/// tile count: extra bytes are ignored and missing bytes denote default tiles.
pub open spec fn decoded_chunk_tiles(bytes: Seq<u8>) -> Seq<Tile> {
    Seq::new(256, |i: int| if i < bytes.len() {
        tile_from_byte(bytes[i])
    } else {
        default_tile()
    })
}

/// The view of a keyed chunk list: each entry's coordinates with its tiles.
pub open spec fn chunk_entry_views(s: Seq<(ChunkCoords, Chunk)>) -> Seq<(ChunkCoords, Seq<Tile>)> {
    s.map(|_i: int, p: (ChunkCoords, Chunk)| (p.0, p.1@))
}

impl View for Chunk {
    type V = Seq<Tile>;

    closed spec fn view(&self) -> Seq<Tile> {
        self.tiles@
    }
}

impl Chunk {
    /// A chunk holds exactly one tile per cell of the 16x16 grid.
    pub open spec fn wf(&self) -> bool {
        self@.len() == 256
    }

    /// A new chunk consisting entirely of default tiles.
    pub fn new() -> (r: Chunk)
        ensures
            r.wf(),
            r@ == Seq::new(256, |_i: int| default_tile()),
    {
        let mut tiles: Vec<Tile> = Vec::new();
        let mut i: usize = 0;
        while i < CHUNK_TILE_COUNT
            invariant
                i <= 256,
                tiles@.len() == i,
                forall|j: int| 0 <= j < i ==> tiles@[j] == default_tile(),
            decreases 256 - i,
        {
            tiles.push(Tile::default());
            i += 1;
        }
        proof {
            assert(tiles@ =~= Seq::new(256, |_i: int| default_tile()));
        }
        Chunk { tiles }
    }

    /// The tile at the given offset coordinates. Out-of-range offsets clamp
    /// to the last valid index rather than failing.
    pub fn tile_at_offset(&self, coords: OffsetCoords) -> (r: Tile)
        requires
            self.wf(),
        ensures
            r == self@[offset_index(coords.x as int, coords.y as int)],
    {
        let index = coords.calculate_index();
        self.tiles[index]
    }

    /// Replace the tile at the given offset coordinates. Out-of-range offsets
    /// clamp to the last valid index rather than failing.
    pub fn set_tile_at_offset(&mut self, coords: OffsetCoords, tile: Tile)
        requires
            old(self).wf(),
        ensures
            final(self).wf(),
            final(self)@ == old(self)@.update(offset_index(coords.x as int, coords.y as int), tile),
    {
        let index = coords.calculate_index();
        self.tiles[index] = tile;
    }

    /// An identical copy of this chunk.
    pub fn duplicate(&self) -> (r: Chunk)
        requires
            self.wf(),
        ensures
            r.wf(),
            r@ == self@,
    {
        let mut tiles: Vec<Tile> = Vec::new();
        let mut i: usize = 0;
        while i < self.tiles.len()
            invariant
                self.wf(),
                i <= 256,
                tiles@.len() == i,
                forall|j: int| 0 <= j < i ==> tiles@[j] == self@[j],
            decreases 256 - i,
        {
            tiles.push(self.tiles[i]);
            i += 1;
        }
        proof {
            assert(tiles@ =~= self@);
        }
        Chunk { tiles }
    }

    /// Encode this chunk to its compact binary form: one byte per tile, in
    /// row-major order. Used for both on-disk persistence and wire transfer.
    pub fn to_bytes(&self) -> (r: Vec<u8>)
        requires
            self.wf(),
        ensures
            r@ == encoded_chunk_bytes(self@),
    {
        let mut bytes: Vec<u8> = Vec::new();
        let mut i: usize = 0;
        while i < self.tiles.len()
            invariant
                self.wf(),
                i <= self@.len(),
                bytes@.len() == i,
                forall|j: int| 0 <= j < i ==> bytes@[j] == tile_to_byte(self@[j]),
            decreases self@.len() - i,
        {
            bytes.push(self.tiles[i].to_byte());
            i += 1;
        }
        proof {
            assert(bytes@ =~= encoded_chunk_bytes(self@));
        }
        bytes
    }

    /// Decode a chunk from its compact binary form. A buffer with the wrong
    /// tile count is repaired by truncating or padding with default tiles,
    /// never failing the load.
    pub fn from_bytes(bytes: &[u8]) -> (r: Chunk)
        ensures
            r.wf(),
            r@ == decoded_chunk_tiles(bytes@),
    {
        let mut tiles: Vec<Tile> = Vec::new();
        let mut i: usize = 0;
        while i < CHUNK_TILE_COUNT
            invariant
                i <= 256,
                tiles@.len() == i,
                forall|j: int|
                    0 <= j < i ==> tiles@[j] == (if j < bytes@.len() {
                        tile_from_byte(bytes@[j])
                    } else {
                        default_tile()
                    }),
            decreases 256 - i,
        {
            if i < bytes.len() {
                tiles.push(Tile::from_byte(bytes[i]));
            } else {
                tiles.push(Tile::default());
            }
            i += 1;
        }
        proof {
            assert(tiles@ =~= decoded_chunk_tiles(bytes@));
        }
        Chunk { tiles }
    }
}

/// Serialisation round trip: decoding the compact binary form of any
/// well-formed sequence of chunk tiles reproduces the identical tiles.
pub proof fn lemma_chunk_bytes_round_trip(tiles: Seq<Tile>)
    requires
        tiles.len() == 256,
    ensures
        decoded_chunk_tiles(encoded_chunk_bytes(tiles)) == tiles,
{
    let encoded = encoded_chunk_bytes(tiles);
    assert forall|i: int| 0 <= i < 256 implies decoded_chunk_tiles(encoded)[i] == tiles[i] by {
        crate::tile::lemma_tile_byte_round_trip(tiles[i]);
    };
    assert(decoded_chunk_tiles(encoded) =~= tiles);
}

} // verus!
