//! Movement tests: authoritative validation and commitment on the server,
//! optimistic prediction on the client, and the correction flow between
//! them.

use gemgame::chunk::Chunk;
use gemgame::client_map::ClientMap;
use gemgame::coords::{ChunkCoords, OffsetCoords, TileCoords};
use gemgame::entities::{Direction, Entity, FacialExpression, HairStyle, Id, Variety};
use gemgame::game_state::GameState;
use gemgame::gems::Collection;
use gemgame::messages::{FromServer, ToServer};
use gemgame::my_entity::MyEntity;
use gemgame::networking::{ConnectionTrait, Error};
use gemgame::generator::surface_generator_config;
use gemgame::server_map::{outcome_broadcast, outcome_reply, MoveOutcome, ServerMap};
use gemgame::tile::{Tile, TileType};

fn human(pos: TileCoords) -> Entity {
    Entity {
        pos,
        variety: Variety::Human {
            direction: Direction::Down,
            facial_expression: FacialExpression::Neutral,
            hair_style: HairStyle::Quiff,
        },
        gem_collection: Collection::default(),
        bombs_placed_count: 0,
    }
}

/// A server map whose chunk (0, 0) consists entirely of open ground.
fn server_with_open_chunk() -> ServerMap {
    let mut map = ServerMap::new(0, surface_generator_config());
    map.resolve_chunk_request(ChunkCoords { x: 0, y: 0 }, Some(Chunk::new()));
    map
}

#[test]
fn legal_move_commits_and_broadcasts() {
    let mut server = server_with_open_chunk();
    let mover = Id { value: 1 };
    server.add_entity(mover, human(TileCoords { x: 4, y: 4 }));

    let outcome = server.handle_move_request(mover, 0, Direction::Right);
    let expected_position = TileCoords { x: 5, y: 4 };
    assert_eq!(
        outcome,
        MoveOutcome::Committed {
            entity_id: mover,
            new_position: expected_position,
            direction: Direction::Right,
        }
    );
    assert_eq!(server.entity_by_id(mover).unwrap().pos, expected_position);

    // A committed move broadcasts to other clients and needs no reply to
    // the origin client.
    assert_eq!(outcome_reply(&outcome), None);
    assert_eq!(
        outcome_broadcast(&outcome),
        Some(FromServer::MoveEntity(mover, expected_position, Direction::Right))
    );
}

#[test]
fn blocked_tile_returns_correction_with_authoritative_position() {
    let mut server = ServerMap::new(0, surface_generator_config());
    let mut chunk = Chunk::new();
    chunk.set_tile_at_offset(
        OffsetCoords { x: 5, y: 4 },
        Tile { tile_type: TileType::Wall, seen: false },
    );
    server.resolve_chunk_request(ChunkCoords { x: 0, y: 0 }, Some(chunk));

    let mover = Id { value: 1 };
    let start = TileCoords { x: 4, y: 4 };
    server.add_entity(mover, human(start));

    let outcome = server.handle_move_request(mover, 9, Direction::Right);
    // The correction carries the entity's current authoritative position,
    // never the attempted one.
    assert_eq!(outcome, MoveOutcome::Corrected { request_number: 9, position: start });
    assert_eq!(server.entity_by_id(mover).unwrap().pos, start);
    assert_eq!(outcome_broadcast(&outcome), None);
    assert_eq!(
        outcome_reply(&outcome),
        Some(FromServer::YourEntityMoved { request_number: 9, new_position: start })
    );
}

#[test]
fn occupied_tile_returns_correction() {
    let mut server = server_with_open_chunk();
    let mover = Id { value: 1 };
    let occupant = Id { value: 2 };
    let start = TileCoords { x: 4, y: 4 };
    server.add_entity(mover, human(start));
    server.add_entity(occupant, human(TileCoords { x: 5, y: 4 }));

    let outcome = server.handle_move_request(mover, 3, Direction::Right);
    assert_eq!(outcome, MoveOutcome::Corrected { request_number: 3, position: start });
    assert_eq!(server.entity_by_id(mover).unwrap().pos, start);
}

/// A client-side transport that records sent frames and never receives.
struct SilentConnection {
    sent: Vec<Vec<u8>>,
}

impl ConnectionTrait for SilentConnection {
    fn send_bytes(&mut self, bytes: Vec<u8>) -> Result<(), Error> {
        self.sent.push(bytes);
        Ok(())
    }

    fn receive_bytes(&mut self) -> Result<Option<Vec<u8>>, Error> {
        Ok(None)
    }
}

#[test]
fn client_prediction_applies_immediately_and_increments_sequence() {
    let mut map = ClientMap::new();
    let start = TileCoords { x: 4, y: 4 };
    map.provide_chunk(start.as_chunk_coords(), Chunk::new());
    let mut me = MyEntity::new(human(start));

    let first = me.move_towards_checked(Direction::Right, &mut map);
    assert_eq!(
        first,
        Some(ToServer::MoveMyEntity { request_number: 0, direction: Direction::Right })
    );
    assert_eq!(me.contained.pos, TileCoords { x: 5, y: 4 });

    let second = me.move_towards_checked(Direction::Up, &mut map);
    assert_eq!(
        second,
        Some(ToServer::MoveMyEntity { request_number: 1, direction: Direction::Up })
    );
    assert_eq!(me.contained.pos, TileCoords { x: 5, y: 5 });
}

#[test]
fn blocked_local_move_is_not_predicted() {
    let mut map = ClientMap::new();
    let start = TileCoords { x: 4, y: 4 };
    let mut chunk = Chunk::new();
    chunk.set_tile_at_offset(
        OffsetCoords { x: 5, y: 4 },
        Tile { tile_type: TileType::Wall, seen: false },
    );
    map.provide_chunk(start.as_chunk_coords(), chunk);
    let mut me = MyEntity::new(human(start));

    assert_eq!(me.move_towards_checked(Direction::Right, &mut map), None);
    assert_eq!(me.contained.pos, start);
    assert_eq!(me.next_request_number, 0);
}

#[test]
fn race_with_other_player_reverts_prediction() {
    // Scenario: the client predicts a move onto a tile that a
    // faster-arriving other player just occupied. The server rejects the
    // move and the correction reverts the client to its pre-move tile.
    let start = TileCoords { x: 4, y: 4 };
    let contested = TileCoords { x: 5, y: 4 };

    // Client side: the tile looks free locally, so the move is predicted.
    let connection = SilentConnection { sent: Vec::new() };
    let mut state = GameState::new(connection, MyEntity::new(human(start)));
    state.map.provide_chunk(start.as_chunk_coords(), Chunk::new());
    state.handle_input(Direction::Right).unwrap();
    assert_eq!(state.my_entity.contained.pos, contested);
    assert_eq!(state.connection.sent.len(), 1);

    // Server side: another player took the tile first, so the request is
    // rejected with a correction.
    let mut server = server_with_open_chunk();
    let me = Id { value: 1 };
    let rival = Id { value: 2 };
    server.add_entity(me, human(start));
    server.add_entity(rival, human(contested));
    let outcome = server.handle_move_request(me, 0, Direction::Right);
    let reply = outcome_reply(&outcome).unwrap();
    assert_eq!(
        reply,
        FromServer::YourEntityMoved { request_number: 0, new_position: start }
    );

    // Client side: applying the correction snaps the entity back to its
    // pre-move tile and discards the stale prediction.
    state.handle_message_from_server(reply);
    assert_eq!(state.my_entity.contained.pos, start);
    assert!(state.my_entity.pending_predictions.is_empty());
}

#[test]
fn remote_entities_follow_server_broadcasts() {
    let connection = SilentConnection { sent: Vec::new() };
    let mut state = GameState::new(connection, MyEntity::new(human(TileCoords { x: 0, y: 0 })));

    let remote = Id { value: 7 };
    let spawn = TileCoords { x: 2, y: 2 };
    state.handle_message_from_server(FromServer::ProvideEntity(remote, human(spawn)));
    assert_eq!(state.map.entity_by_id(remote).unwrap().pos, spawn);

    let moved = TileCoords { x: 2, y: 3 };
    state.handle_message_from_server(FromServer::MoveEntity(remote, moved, Direction::Up));
    assert_eq!(state.map.entity_by_id(remote).unwrap().pos, moved);

    state.handle_message_from_server(FromServer::ShouldUnloadEntity(remote));
    assert_eq!(state.map.entity_by_id(remote), None);
}
