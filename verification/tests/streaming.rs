//! Chunk streaming tests: the needed/requested lifecycle on the client and
//! the request messages it emits.

use gemgame::chunk::Chunk;
use gemgame::client_map::ClientMap;
use gemgame::coords::{ChunkCoords, TileCoords};
use gemgame::messages::{decode_to_server, ToServer};
use gemgame::networking::{receive_from_server, ConnectionTrait, Error};

/// A test transport that records every frame sent through it.
struct RecordingConnection {
    sent: Vec<Vec<u8>>,
    fail_sends: bool,
}

impl RecordingConnection {
    fn new() -> Self {
        RecordingConnection { sent: Vec::new(), fail_sends: false }
    }
}

impl ConnectionTrait for RecordingConnection {
    fn send_bytes(&mut self, bytes: Vec<u8>) -> Result<(), Error> {
        if self.fail_sends {
            Err(Error::Connection)
        } else {
            self.sent.push(bytes);
            Ok(())
        }
    }

    fn receive_bytes(&mut self) -> Result<Option<Vec<u8>>, Error> {
        Ok(None)
    }
}

#[test]
fn unloaded_read_marks_chunk_needed_and_requests_once() {
    let mut map = ClientMap::new();
    let mut connection = RecordingConnection::new();
    let coords = TileCoords { x: 20, y: -3 };

    // Reading an unloaded tile yields nothing and marks the chunk needed.
    assert_eq!(map.tile_at(coords), None);
    // Reading again is idempotent.
    assert_eq!(map.tile_at(coords), None);

    // The flush step sends exactly one request for the chunk.
    map.request_needed_chunks_from_server(&mut connection).unwrap();
    assert_eq!(connection.sent.len(), 1);
    let expected_chunk = coords.as_chunk_coords();
    assert_eq!(
        decode_to_server(&connection.sent[0]),
        Some(ToServer::RequestChunk(expected_chunk))
    );

    // A second flush sends nothing: the coordinate is already requested,
    // and re-requesting before a response arrives is forbidden.
    map.request_needed_chunks_from_server(&mut connection).unwrap();
    assert_eq!(connection.sent.len(), 1);
}

#[test]
fn providing_chunk_clears_streaming_state() {
    let mut map = ClientMap::new();
    let mut connection = RecordingConnection::new();
    let coords = TileCoords { x: 5, y: 5 };
    let chunk_coords = coords.as_chunk_coords();

    assert_eq!(map.tile_at(coords), None);
    map.request_needed_chunks_from_server(&mut connection).unwrap();
    assert_eq!(connection.sent.len(), 1);

    // The chunk arrives: the coordinate leaves both sets and the tile
    // becomes readable.
    map.provide_chunk(chunk_coords, Chunk::new());
    assert!(map.tile_at(coords).is_some());

    // Nothing is needed any more, so the next flush sends nothing.
    map.request_needed_chunks_from_server(&mut connection).unwrap();
    assert_eq!(connection.sent.len(), 1);
}

#[test]
fn failed_send_leaves_state_consistent() {
    let mut map = ClientMap::new();
    let mut connection = RecordingConnection::new();
    connection.fail_sends = true;

    assert_eq!(map.tile_at(TileCoords { x: 0, y: 0 }), None);
    assert_eq!(
        map.request_needed_chunks_from_server(&mut connection),
        Err(Error::Connection)
    );

    // After the transport recovers, the chunk is requested.
    connection.fail_sends = false;
    map.request_needed_chunks_from_server(&mut connection).unwrap();
    assert_eq!(connection.sent.len(), 1);
}

/// A transport whose received frames are scripted, for exercising the
/// failure taxonomy.
struct ScriptedConnection {
    incoming: Vec<Result<Option<Vec<u8>>, Error>>,
}

impl ConnectionTrait for ScriptedConnection {
    fn send_bytes(&mut self, _bytes: Vec<u8>) -> Result<(), Error> {
        Ok(())
    }

    fn receive_bytes(&mut self) -> Result<Option<Vec<u8>>, Error> {
        if self.incoming.is_empty() {
            Ok(None)
        } else {
            self.incoming.remove(0)
        }
    }
}

#[test]
fn garbage_frame_is_a_malformed_payload() {
    let mut connection =
        ScriptedConnection { incoming: vec![Ok(Some(vec![250, 0, 1, 2, 3]))] };
    assert_eq!(receive_from_server(&mut connection), Err(Error::MalformedPayload));
}

#[test]
fn peer_close_and_faults_are_distinguished() {
    let mut connection = ScriptedConnection {
        incoming: vec![Ok(None), Err(Error::ConnectionClosed), Err(Error::Connection)],
    };
    assert_eq!(receive_from_server(&mut connection), Ok(None));
    assert_eq!(receive_from_server(&mut connection), Err(Error::ConnectionClosed));
    assert_eq!(receive_from_server(&mut connection), Err(Error::Connection));
}

#[test]
fn unload_then_read_requests_again() {
    let mut map = ClientMap::new();
    let mut connection = RecordingConnection::new();
    let coords = TileCoords { x: 1, y: 2 };
    let chunk_coords = coords.as_chunk_coords();

    map.provide_chunk(chunk_coords, Chunk::new());
    assert!(map.tile_at(coords).is_some());

    map.remove_chunk(chunk_coords);
    assert_eq!(map.tile_at(coords), None);

    map.request_needed_chunks_from_server(&mut connection).unwrap();
    assert_eq!(connection.sent.len(), 1);
    assert_eq!(
        decode_to_server(&connection.sent[0]),
        Some(ToServer::RequestChunk(chunk_coords))
    );
}
