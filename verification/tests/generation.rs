//! Terrain generation tests: determinism, the canonical-chunk guarantee of
//! the server store, and the binary repair semantics of chunk storage.

use gemgame::chunk::Chunk;
use gemgame::coords::{ChunkCoords, OffsetCoords};
use gemgame::generator::{generate_chunk, surface_generator_config};
use gemgame::server_map::ServerMap;
use gemgame::tile::{Tile, TileType};

#[test]
fn chunk_generation_deterministic() {
    let config = surface_generator_config();
    let coords = ChunkCoords { x: 3, y: -7 };
    let first = generate_chunk(1234, coords, &config);
    let second = generate_chunk(1234, coords, &config);
    assert_eq!(first.to_bytes(), second.to_bytes());
}

#[test]
fn server_generates_chunk_once_and_replays_it() {
    // Request chunk (0, 0), never before generated with this seed: the
    // server generates and installs it. Requesting it again later in the
    // same world instance returns byte-identical tiles without
    // regenerating.
    let mut map = ServerMap::new(42, surface_generator_config());
    let coords = ChunkCoords { x: 0, y: 0 };

    let first = map.resolve_chunk_request(coords, None);
    assert!(first.newly_generated);

    let second = map.resolve_chunk_request(coords, None);
    assert!(!second.newly_generated);
    assert_eq!(first.chunk.to_bytes(), second.chunk.to_bytes());
}

#[test]
fn concurrent_requests_observe_one_canonical_chunk() {
    // Two clients ask for the same never-loaded chunk coordinates: the
    // server generates it exactly once and both observe the same chunk.
    let mut map = ServerMap::new(99, surface_generator_config());
    let coords = ChunkCoords { x: -2, y: 5 };

    let for_first_client = map.resolve_chunk_request(coords, None);
    let for_second_client = map.resolve_chunk_request(coords, None);

    assert!(for_first_client.newly_generated);
    assert!(!for_second_client.newly_generated);
    assert_eq!(for_first_client.chunk.to_bytes(), for_second_client.chunk.to_bytes());
}

#[test]
fn persisted_chunk_is_installed_not_regenerated() {
    let mut map = ServerMap::new(7, surface_generator_config());
    let coords = ChunkCoords { x: 1, y: 1 };

    let mut stored = Chunk::new();
    stored.set_tile_at_offset(
        OffsetCoords { x: 4, y: 4 },
        Tile { tile_type: TileType::Wall, seen: false },
    );
    let stored_bytes = stored.to_bytes();

    let response = map.resolve_chunk_request(coords, Some(stored));
    assert!(!response.newly_generated);
    assert_eq!(response.chunk.to_bytes(), stored_bytes);

    // The installed chunk is now canonical.
    let replay = map.resolve_chunk_request(coords, None);
    assert!(!replay.newly_generated);
    assert_eq!(replay.chunk.to_bytes(), stored_bytes);
}

#[test]
fn chunk_bytes_round_trip() {
    let config = surface_generator_config();
    let chunk = generate_chunk(5, ChunkCoords { x: 2, y: 2 }, &config);
    let bytes = chunk.to_bytes();
    assert_eq!(bytes.len(), 256);
    let decoded = Chunk::from_bytes(&bytes);
    assert_eq!(decoded.to_bytes(), bytes);
}

#[test]
fn chunk_load_repairs_wrong_tile_count() {
    // A too-short buffer is padded with default tiles; a too-long buffer
    // is truncated. The load never fails.
    let short = vec![2u8; 10];
    let repaired = Chunk::from_bytes(&short);
    let bytes = repaired.to_bytes();
    assert_eq!(bytes.len(), 256);
    assert_eq!(&bytes[..10], &short[..]);
    let default_byte = Tile { tile_type: TileType::Ground, seen: false }.to_byte();
    assert!(bytes[10..].iter().all(|b| *b == default_byte));

    let long = vec![4u8; 300];
    let truncated = Chunk::from_bytes(&long);
    let bytes = truncated.to_bytes();
    assert_eq!(bytes.len(), 256);
    assert!(bytes.iter().all(|b| *b == 4));
}

#[test]
fn undecodable_tile_byte_degrades_to_default() {
    let tile = Tile::from_byte(255);
    assert_eq!(tile, Tile { tile_type: TileType::Ground, seen: false });
}
