//! The map capability: the same algorithm drives the client's partial view
//! and the server's authoritative store through one interface.

use gemgame::chunk::Chunk;
use gemgame::client_map::ClientMap;
use gemgame::coords::{ChunkCoords, TileCoords};
use gemgame::entities::{Direction, Entity, FacialExpression, HairStyle, Id, Variety};
use gemgame::gems::Collection;
use gemgame::generator::surface_generator_config;
use gemgame::server_map::ServerMap;
use gemgame::world_map::WorldMap;

fn human(pos: TileCoords) -> Entity {
    Entity {
        pos,
        variety: Variety::Human {
            direction: Direction::Down,
            facial_expression: FacialExpression::Neutral,
            hair_style: HairStyle::Quiff,
        },
        gem_collection: Collection::default(),
        bombs_placed_count: 0,
    }
}

/// Installs a chunk and an entity, then reads both back and removes the
/// entity again — written once, against the capability only.
fn exercise<M: WorldMap>(map: &mut M) {
    let coords = ChunkCoords { x: 1, y: -1 };
    assert!(!map.is_chunk_loaded(coords));
    map.provide_chunk(coords, Chunk::new());
    assert!(map.is_chunk_loaded(coords));

    let id = Id { value: 1234 };
    let entity = human(TileCoords { x: 30, y: -5 });
    assert_eq!(map.entity_by_id(id), None);
    map.add_entity(id, entity);
    assert_eq!(map.entity_by_id(id), Some(entity));
    assert_eq!(map.remove_entity(id), Some(entity));
    assert_eq!(map.entity_by_id(id), None);
}

#[test]
fn client_map_provides_the_capability() {
    let mut map = ClientMap::new();
    exercise(&mut map);
}

#[test]
fn server_map_provides_the_capability() {
    let mut map = ServerMap::new(0, surface_generator_config());
    exercise(&mut map);
}
