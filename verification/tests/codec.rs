//! Wire protocol tests: every message survives the encode/decode round
//! trip, and malformed payloads are rejected.

use gemgame::chunk::Chunk;
use gemgame::coords::{ChunkCoords, TileCoords};
use gemgame::entities::{Direction, Entity, FacialExpression, HairStyle, Id, Variety};
use gemgame::gems::{Collection, Gem};
use gemgame::messages::{
    decode_from_server, decode_to_server, encode_from_server, encode_to_server, FromServer,
    ToServer,
};
use gemgame::tile::{PlantState, Tile, TileType};

fn sample_entity() -> Entity {
    let mut gems = Collection::default();
    gems.increase_quantity(Gem::Ruby, 17);
    gems.increase_quantity(Gem::Diamond, 2);
    Entity {
        pos: TileCoords { x: -31, y: 250 },
        variety: Variety::Human {
            direction: Direction::Left,
            facial_expression: FacialExpression::Shocked,
            hair_style: HairStyle::Mohawk,
        },
        gem_collection: gems,
        bombs_placed_count: 3,
    }
}

#[test]
fn to_server_messages_round_trip() {
    let messages = vec![
        ToServer::RequestChunk(ChunkCoords { x: -5, y: 11 }),
        ToServer::MoveMyEntity { request_number: 900, direction: Direction::Down },
        ToServer::PlaceBomb(TileCoords { x: 7, y: -1 }),
        ToServer::DetonateBombs,
        ToServer::PurchaseBombs { quantity: 4 },
    ];
    for message in messages {
        let bytes = encode_to_server(&message);
        assert_eq!(decode_to_server(&bytes), Some(message));
    }
}

#[test]
fn from_server_messages_round_trip() {
    let mut chunk = Chunk::new();
    chunk.set_tile_at_offset(
        gemgame::coords::OffsetCoords { x: 9, y: 2 },
        Tile { tile_type: TileType::Bush(PlantState::Dead), seen: true },
    );
    let messages = vec![
        FromServer::Welcome { entity_id: Id { value: 77 }, entity: sample_entity() },
        FromServer::ProvideChunk(ChunkCoords { x: 2, y: -9 }, chunk),
        FromServer::ShouldUnloadChunk(ChunkCoords { x: 0, y: 1 }),
        FromServer::ChangeTile(
            TileCoords { x: -4, y: 4 },
            Tile { tile_type: TileType::Flower(PlantState::Ripe), seen: false },
        ),
        FromServer::YourEntityMoved {
            request_number: 12,
            new_position: TileCoords { x: 1, y: 1 },
        },
        FromServer::MoveEntity(Id { value: 8 }, TileCoords { x: 0, y: -200 }, Direction::Up),
        FromServer::ProvideEntity(Id { value: 9 }, sample_entity()),
        FromServer::ShouldUnloadEntity(Id { value: 10 }),
        FromServer::YouCollectedGems { gem_type: Gem::Emerald, quantity_increase: 5 },
    ];
    for message in messages {
        let bytes = encode_from_server(&message);
        assert_eq!(decode_from_server(&bytes), Some(message));
    }
}

#[test]
fn malformed_payloads_are_rejected() {
    // Empty frame.
    assert_eq!(decode_to_server(&[]), None);
    assert_eq!(decode_from_server(&[]), None);
    // Unknown tag.
    assert_eq!(decode_to_server(&[200]), None);
    assert_eq!(decode_from_server(&[200]), None);
    // Right tag, wrong length.
    assert_eq!(decode_to_server(&[0, 1, 2]), None);
    assert_eq!(decode_from_server(&[2, 1]), None);
    // Move message with an invalid direction byte.
    let mut move_bytes = encode_to_server(&ToServer::MoveMyEntity {
        request_number: 1,
        direction: Direction::Up,
    });
    let last = move_bytes.len() - 1;
    move_bytes[last] = 99;
    assert_eq!(decode_to_server(&move_bytes), None);
}

#[test]
fn tile_bytes_round_trip() {
    let tiles = [
        Tile { tile_type: TileType::Ground, seen: false },
        Tile { tile_type: TileType::Ground, seen: true },
        Tile { tile_type: TileType::Wall, seen: false },
        Tile { tile_type: TileType::Dirt, seen: true },
        Tile { tile_type: TileType::Flower(PlantState::Ripe), seen: false },
        Tile { tile_type: TileType::Tree(PlantState::Harvested), seen: true },
        Tile { tile_type: TileType::Bush(PlantState::Dead), seen: false },
    ];
    for tile in tiles {
        assert_eq!(Tile::from_byte(tile.to_byte()), tile);
    }
}

#[test]
fn tile_byte_values_are_exact() {
    // Tile type index doubled, plus one when seen.
    assert_eq!(Tile { tile_type: TileType::Ground, seen: false }.to_byte(), 0);
    assert_eq!(Tile { tile_type: TileType::Ground, seen: true }.to_byte(), 1);
    assert_eq!(Tile { tile_type: TileType::Wall, seen: false }.to_byte(), 2);
    assert_eq!(Tile { tile_type: TileType::Dirt, seen: true }.to_byte(), 5);
    assert_eq!(Tile { tile_type: TileType::Flower(PlantState::Ripe), seen: false }.to_byte(), 6);
    assert_eq!(Tile { tile_type: TileType::Bush(PlantState::Dead), seen: true }.to_byte(), 23);
}

#[test]
fn blocking_predicate_matches_tile_types() {
    assert!(!Tile { tile_type: TileType::Ground, seen: false }.blocking());
    assert!(!Tile { tile_type: TileType::Dirt, seen: true }.blocking());
    assert!(Tile { tile_type: TileType::Wall, seen: false }.blocking());
    assert!(Tile { tile_type: TileType::Flower(PlantState::Ripe), seen: false }.blocking());
    assert!(Tile { tile_type: TileType::Tree(PlantState::Dead), seen: true }.blocking());
    assert!(Tile { tile_type: TileType::Bush(PlantState::Harvested), seen: false }.blocking());
}
