//! Coordinate model tests: tile-to-chunk and tile-to-offset conversions,
//! including negative coordinates, and the bounds of the linear tile index.

use gemgame::coords::{ChunkCoords, OffsetCoords, TileCoords};

const TEST_DATA: &[(TileCoords, ChunkCoords, OffsetCoords)] = &[
    (TileCoords { x: 0, y: 0 }, ChunkCoords { x: 0, y: 0 }, OffsetCoords { x: 0, y: 0 }),
    (TileCoords { x: 12, y: -14 }, ChunkCoords { x: 0, y: -1 }, OffsetCoords { x: 12, y: 2 }),
    (TileCoords { x: -13, y: 14 }, ChunkCoords { x: -1, y: 0 }, OffsetCoords { x: 3, y: 14 }),
    (TileCoords { x: -3, y: -2 }, ChunkCoords { x: -1, y: -1 }, OffsetCoords { x: 13, y: 14 }),
    (TileCoords { x: -34, y: -19 }, ChunkCoords { x: -3, y: -2 }, OffsetCoords { x: 14, y: 13 }),
    (TileCoords { x: -16, y: -17 }, ChunkCoords { x: -1, y: -2 }, OffsetCoords { x: 0, y: 15 }),
    (TileCoords { x: -33, y: -32 }, ChunkCoords { x: -3, y: -2 }, OffsetCoords { x: 15, y: 0 }),
];

#[test]
fn coords_tile_coords_to_chunk_coords() {
    for (tile, chunk, _) in TEST_DATA {
        assert_eq!(tile.as_chunk_coords(), *chunk);
    }
}

#[test]
fn coords_tile_coords_to_chunk_offset_coords() {
    for (tile, _, offset) in TEST_DATA {
        assert_eq!(tile.as_chunk_offset_coords(), *offset);
    }
}

#[test]
fn conversions_agree_on_further_fixtures() {
    let tile = TileCoords { x: -14, y: 14 };
    assert_eq!(tile.as_chunk_coords(), ChunkCoords { x: -1, y: 0 });
    assert_eq!(tile.as_chunk_offset_coords(), OffsetCoords { x: 2, y: 14 });

    let tile = TileCoords { x: 8, y: 6 };
    assert_eq!(tile.as_chunk_coords(), ChunkCoords { x: 0, y: 0 });
    assert_eq!(tile.as_chunk_offset_coords(), OffsetCoords { x: 8, y: 6 });
}

#[test]
fn round_trip_reconstructs_tile_coords() {
    for (tile, chunk, offset) in TEST_DATA {
        assert_eq!(chunk.x * 16 + offset.x as i32, tile.x);
        assert_eq!(chunk.y * 16 + offset.y as i32, tile.y);
    }
}

#[test]
fn calculate_index_in_bounds_for_all_offsets() {
    assert_eq!(OffsetCoords { x: 0, y: 0 }.calculate_index(), 0);
    assert_eq!(OffsetCoords { x: 5, y: 3 }.calculate_index(), 53);
    assert_eq!(OffsetCoords { x: 15, y: 15 }.calculate_index(), 255);
    // Out-of-range offsets clamp to the last valid index instead of
    // overrunning the tile array.
    assert_eq!(OffsetCoords { x: 16, y: 16 }.calculate_index(), 255);
    assert_eq!(OffsetCoords { x: 255, y: 255 }.calculate_index(), 255);
    for x in 0..=255u8 {
        for y in 0..=255u8 {
            assert!(OffsetCoords { x, y }.calculate_index() < 256);
        }
    }
}
