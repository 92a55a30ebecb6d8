//! The wire protocol: the message vocabulary exchanged between client and
//! server, its compact binary encoding, and the round-trip laws of that
//! encoding. Messages travel over a reliable ordered byte stream; each
//! message is one framed byte sequence.

use vstd::prelude::*;

use crate::chunk::{decoded_chunk_tiles, encoded_chunk_bytes, Chunk};
use crate::coords::{ChunkCoords, TileCoords};
use crate::entities::{direction_from_index, direction_index, Direction, Entity, Id};
use crate::gems::{gem_from_index, gem_index, Gem};
use crate::tile::{tile_from_byte, tile_to_byte, Tile};
use crate::wire::{
    chunk_coords_bytes, dec_chunk_coords, dec_entity, dec_tile_coords, dec_u32, dec_u64,
    entity_bytes, push_chunk_coords, push_entity, push_tile_coords, push_u32, push_u64,
    read_chunk_coords_at, read_entity_at, read_tile_coords_at, read_u32_at, read_u64_at,
    tile_coords_bytes, u32_le_bytes, u64_le_bytes,
};

verus! {

/// A message sent from a client to the server.
#[derive(Clone, Copy, Debug, PartialEq, Eq, Structural)]
pub enum ToServer {
    /// Ask the server for the chunk at the given coordinates.
    RequestChunk(ChunkCoords),
    /// Announce a predicted move of this client's entity one step in the
    /// given direction. Request numbers strictly increase per connection.
    MoveMyEntity { request_number: u32, direction: Direction },
    /// Place a bomb at the given position.
    PlaceBomb(TileCoords),
    /// Detonate all bombs this client has placed.
    DetonateBombs,
    /// Purchase the given number of bombs.
    PurchaseBombs { quantity: u32 },
}

/// A message sent from the server to a client.
#[derive(Clone, Debug, PartialEq)]
pub enum FromServer {
    /// Sent once at connection start, carrying the client's own entity.
    Welcome { entity_id: Id, entity: Entity },
    /// A full chunk, in response to a chunk request.
    ProvideChunk(ChunkCoords, Chunk),
    /// The client should drop the chunk at the given coordinates.
    ShouldUnloadChunk(ChunkCoords),
    /// A single tile of a loaded chunk changed.
    ChangeTile(TileCoords, Tile),
    /// Correction of one of this client's predicted moves: the request
    /// number it answers and the entity's true position.
    YourEntityMoved { request_number: u32, new_position: TileCoords },
    /// Another entity moved to the given position facing the given way.
    MoveEntity(Id, TileCoords, Direction),
    /// A remote entity entered this client's view.
    ProvideEntity(Id, Entity),
    /// A remote entity left this client's view.
    ShouldUnloadEntity(Id),
    /// This client's entity collected gems.
    YouCollectedGems { gem_type: Gem, quantity_increase: u32 },
}

/// Spec-level mirror of a server-to-client message, with the chunk payload
/// abstracted to its tile sequence.
pub enum FromServerView {
    Welcome { entity_id: Id, entity: Entity },
    ProvideChunk(ChunkCoords, Seq<Tile>),
    ShouldUnloadChunk(ChunkCoords),
    ChangeTile(TileCoords, Tile),
    YourEntityMoved { request_number: u32, new_position: TileCoords },
    MoveEntity(Id, TileCoords, Direction),
    ProvideEntity(Id, Entity),
    ShouldUnloadEntity(Id),
    YouCollectedGems { gem_type: Gem, quantity_increase: u32 },
}

/// The spec-level view of a server-to-client message.
pub open spec fn from_server_view(m: FromServer) -> FromServerView {
    match m {
        FromServer::Welcome { entity_id, entity } => FromServerView::Welcome { entity_id, entity },
        FromServer::ProvideChunk(coords, chunk) => FromServerView::ProvideChunk(coords, chunk@),
        FromServer::ShouldUnloadChunk(coords) => FromServerView::ShouldUnloadChunk(coords),
        FromServer::ChangeTile(coords, tile) => FromServerView::ChangeTile(coords, tile),
        FromServer::YourEntityMoved { request_number, new_position } => {
            FromServerView::YourEntityMoved { request_number, new_position }
        },
        FromServer::MoveEntity(id, pos, direction) => FromServerView::MoveEntity(
            id,
            pos,
            direction,
        ),
        FromServer::ProvideEntity(id, entity) => FromServerView::ProvideEntity(id, entity),
        FromServer::ShouldUnloadEntity(id) => FromServerView::ShouldUnloadEntity(id),
        FromServer::YouCollectedGems { gem_type, quantity_increase } => {
            FromServerView::YouCollectedGems { gem_type, quantity_increase }
        },
    }
}

/// Whether a server-to-client message is well-formed: any chunk it carries
/// holds exactly one tile per cell.
pub open spec fn from_server_wf(m: FromServer) -> bool {
    match m {
        FromServer::ProvideChunk(_, chunk) => chunk.wf(),
        _ => true,
    }
}

/// Whether a message view is well-formed: any chunk payload has exactly one
/// tile per cell.
pub open spec fn from_server_view_wf(v: FromServerView) -> bool {
    match v {
        FromServerView::ProvideChunk(_, tiles) => tiles.len() == 256,
        _ => true,
    }
}

/// The wire bytes of a client-to-server message: a tag byte followed by the
/// message's fixed-size payload.
pub open spec fn encoded_to_server(m: ToServer) -> Seq<u8> {
    match m {
        ToServer::RequestChunk(coords) => seq![0u8] + chunk_coords_bytes(coords),
        ToServer::MoveMyEntity { request_number, direction } => seq![1u8] + u32_le_bytes(
            request_number,
        ) + seq![direction_index(direction) as u8],
        ToServer::PlaceBomb(position) => seq![2u8] + tile_coords_bytes(position),
        ToServer::DetonateBombs => seq![3u8],
        ToServer::PurchaseBombs { quantity } => seq![4u8] + u32_le_bytes(quantity),
    }
}

/// The client-to-server message denoted by a byte sequence, if any.
pub open spec fn decoded_to_server(b: Seq<u8>) -> Option<ToServer> {
    if b.len() == 0 {
        None
    } else if b[0] == 0 && b.len() == 9 {
        Some(ToServer::RequestChunk(dec_chunk_coords(b.subrange(1, 9))))
    } else if b[0] == 1 && b.len() == 6 {
        match direction_from_index(b[5] as int) {
            Some(direction) => Some(
                ToServer::MoveMyEntity { request_number: dec_u32(b.subrange(1, 5)), direction },
            ),
            None => None,
        }
    } else if b[0] == 2 && b.len() == 9 {
        Some(ToServer::PlaceBomb(dec_tile_coords(b.subrange(1, 9))))
    } else if b[0] == 3 && b.len() == 1 {
        Some(ToServer::DetonateBombs)
    } else if b[0] == 4 && b.len() == 5 {
        Some(ToServer::PurchaseBombs { quantity: dec_u32(b.subrange(1, 5)) })
    } else {
        None
    }
}

/// The wire bytes of a server-to-client message view: a tag byte followed
/// by the message's fixed-size payload.
pub open spec fn encoded_from_server_view(v: FromServerView) -> Seq<u8> {
    match v {
        FromServerView::Welcome { entity_id, entity } => seq![0u8] + u64_le_bytes(entity_id.value)
            + entity_bytes(entity),
        FromServerView::ProvideChunk(coords, tiles) => seq![1u8] + chunk_coords_bytes(coords)
            + encoded_chunk_bytes(tiles),
        FromServerView::ShouldUnloadChunk(coords) => seq![2u8] + chunk_coords_bytes(coords),
        FromServerView::ChangeTile(coords, tile) => seq![3u8] + tile_coords_bytes(coords) + seq![
            tile_to_byte(tile),
        ],
        FromServerView::YourEntityMoved { request_number, new_position } => seq![4u8]
            + u32_le_bytes(request_number) + tile_coords_bytes(new_position),
        FromServerView::MoveEntity(id, pos, direction) => seq![5u8] + u64_le_bytes(id.value)
            + tile_coords_bytes(pos) + seq![direction_index(direction) as u8],
        FromServerView::ProvideEntity(id, entity) => seq![6u8] + u64_le_bytes(id.value)
            + entity_bytes(entity),
        FromServerView::ShouldUnloadEntity(id) => seq![7u8] + u64_le_bytes(id.value),
        FromServerView::YouCollectedGems { gem_type, quantity_increase } => seq![8u8] + seq![
            gem_index(gem_type) as u8,
        ] + u32_le_bytes(quantity_increase),
    }
}

/// The wire bytes of a server-to-client message.
pub open spec fn encoded_from_server(m: FromServer) -> Seq<u8> {
    encoded_from_server_view(from_server_view(m))
}

/// The server-to-client message view denoted by a byte sequence, if any.
pub open spec fn decoded_from_server_view(b: Seq<u8>) -> Option<FromServerView> {
    if b.len() == 0 {
        None
    } else if b[0] == 0 && b.len() == 36 {
        match dec_entity(b.subrange(9, 36)) {
            Some(entity) => Some(
                FromServerView::Welcome {
                    entity_id: Id { value: dec_u64(b.subrange(1, 9)) },
                    entity,
                },
            ),
            None => None,
        }
    } else if b[0] == 1 && b.len() == 265 {
        Some(
            FromServerView::ProvideChunk(
                dec_chunk_coords(b.subrange(1, 9)),
                decoded_chunk_tiles(b.subrange(9, 265)),
            ),
        )
    } else if b[0] == 2 && b.len() == 9 {
        Some(FromServerView::ShouldUnloadChunk(dec_chunk_coords(b.subrange(1, 9))))
    } else if b[0] == 3 && b.len() == 10 {
        Some(FromServerView::ChangeTile(dec_tile_coords(b.subrange(1, 9)), tile_from_byte(b[9])))
    } else if b[0] == 4 && b.len() == 13 {
        Some(
            FromServerView::YourEntityMoved {
                request_number: dec_u32(b.subrange(1, 5)),
                new_position: dec_tile_coords(b.subrange(5, 13)),
            },
        )
    } else if b[0] == 5 && b.len() == 18 {
        match direction_from_index(b[17] as int) {
            Some(direction) => Some(
                FromServerView::MoveEntity(
                    Id { value: dec_u64(b.subrange(1, 9)) },
                    dec_tile_coords(b.subrange(9, 17)),
                    direction,
                ),
            ),
            None => None,
        }
    } else if b[0] == 6 && b.len() == 36 {
        match dec_entity(b.subrange(9, 36)) {
            Some(entity) => Some(
                FromServerView::ProvideEntity(Id { value: dec_u64(b.subrange(1, 9)) }, entity),
            ),
            None => None,
        }
    } else if b[0] == 7 && b.len() == 9 {
        Some(FromServerView::ShouldUnloadEntity(Id { value: dec_u64(b.subrange(1, 9)) }))
    } else if b[0] == 8 && b.len() == 6 {
        match gem_from_index(b[1] as int) {
            Some(gem_type) => Some(
                FromServerView::YouCollectedGems {
                    gem_type,
                    quantity_increase: dec_u32(b.subrange(2, 6)),
                },
            ),
            None => None,
        }
    } else {
        None
    }
}

/// Encoding then decoding a client-to-server message yields the message
/// again.
pub proof fn lemma_to_server_round_trip(m: ToServer)
    ensures
        decoded_to_server(encoded_to_server(m)) == Some(m),
{
    let b = encoded_to_server(m);
    match m {
        ToServer::RequestChunk(coords) => {
            assert(b.len() == 9 && b[0] == 0);
            assert(b.subrange(1, 9) =~= chunk_coords_bytes(coords));
            crate::wire::lemma_chunk_coords_round_trip(coords);
        },
        ToServer::MoveMyEntity { request_number, direction } => {
            assert(b.len() == 6 && b[0] == 1);
            assert(b[5] == direction_index(direction) as u8);
            assert(b.subrange(1, 5) =~= u32_le_bytes(request_number));
            crate::wire::lemma_u32_round_trip(request_number);
            assert(direction_from_index(direction_index(direction)) == Some(direction));
        },
        ToServer::PlaceBomb(position) => {
            assert(b.len() == 9 && b[0] == 2);
            assert(b.subrange(1, 9) =~= tile_coords_bytes(position));
            crate::wire::lemma_tile_coords_round_trip(position);
        },
        ToServer::DetonateBombs => {
            assert(b.len() == 1 && b[0] == 3);
        },
        ToServer::PurchaseBombs { quantity } => {
            assert(b.len() == 5 && b[0] == 4);
            assert(b.subrange(1, 5) =~= u32_le_bytes(quantity));
            crate::wire::lemma_u32_round_trip(quantity);
        },
    }
}

/// Encoding then decoding a well-formed server-to-client message view
/// yields the view again.
#[verifier::rlimit(60)]
pub proof fn lemma_from_server_round_trip(v: FromServerView)
    requires
        from_server_view_wf(v),
    ensures
        decoded_from_server_view(encoded_from_server_view(v)) == Some(v),
{
    let b = encoded_from_server_view(v);
    match v {
        FromServerView::Welcome { entity_id, entity } => {
            assert(b.len() == 36 && b[0] == 0);
            assert(b.subrange(1, 9) =~= u64_le_bytes(entity_id.value));
            assert(b.subrange(9, 36) =~= entity_bytes(entity));
            crate::wire::lemma_u64_round_trip(entity_id.value);
            crate::wire::lemma_entity_round_trip(entity);
        },
        FromServerView::ProvideChunk(coords, tiles) => {
            assert(b.len() == 265 && b[0] == 1);
            assert(b.subrange(1, 9) =~= chunk_coords_bytes(coords));
            assert(b.subrange(9, 265) =~= encoded_chunk_bytes(tiles));
            crate::wire::lemma_chunk_coords_round_trip(coords);
            crate::chunk::lemma_chunk_bytes_round_trip(tiles);
        },
        FromServerView::ShouldUnloadChunk(coords) => {
            assert(b.len() == 9 && b[0] == 2);
            assert(b.subrange(1, 9) =~= chunk_coords_bytes(coords));
            crate::wire::lemma_chunk_coords_round_trip(coords);
        },
        FromServerView::ChangeTile(coords, tile) => {
            assert(b.len() == 10 && b[0] == 3);
            assert(b.subrange(1, 9) =~= tile_coords_bytes(coords));
            assert(b[9] == tile_to_byte(tile));
            crate::wire::lemma_tile_coords_round_trip(coords);
            crate::tile::lemma_tile_byte_round_trip(tile);
        },
        FromServerView::YourEntityMoved { request_number, new_position } => {
            assert(b.len() == 13 && b[0] == 4);
            assert(b.subrange(1, 5) =~= u32_le_bytes(request_number));
            assert(b.subrange(5, 13) =~= tile_coords_bytes(new_position));
            crate::wire::lemma_u32_round_trip(request_number);
            crate::wire::lemma_tile_coords_round_trip(new_position);
        },
        FromServerView::MoveEntity(id, pos, direction) => {
            assert(b.len() == 18 && b[0] == 5);
            assert(b.subrange(1, 9) =~= u64_le_bytes(id.value));
            assert(b.subrange(9, 17) =~= tile_coords_bytes(pos));
            assert(b[17] == direction_index(direction) as u8);
            crate::wire::lemma_u64_round_trip(id.value);
            crate::wire::lemma_tile_coords_round_trip(pos);
            assert(direction_from_index(direction_index(direction)) == Some(direction));
        },
        FromServerView::ProvideEntity(id, entity) => {
            assert(b.len() == 36 && b[0] == 6);
            assert(b.subrange(1, 9) =~= u64_le_bytes(id.value));
            assert(b.subrange(9, 36) =~= entity_bytes(entity));
            crate::wire::lemma_u64_round_trip(id.value);
            crate::wire::lemma_entity_round_trip(entity);
        },
        FromServerView::ShouldUnloadEntity(id) => {
            assert(b.len() == 9 && b[0] == 7);
            assert(b.subrange(1, 9) =~= u64_le_bytes(id.value));
            crate::wire::lemma_u64_round_trip(id.value);
        },
        FromServerView::YouCollectedGems { gem_type, quantity_increase } => {
            assert(b.len() == 6 && b[0] == 8);
            assert(b[1] == gem_index(gem_type) as u8);
            assert(b.subrange(2, 6) =~= u32_le_bytes(quantity_increase));
            crate::wire::lemma_u32_round_trip(quantity_increase);
            assert(gem_from_index(gem_index(gem_type)) == Some(gem_type));
        },
    }
}

/// Encode a client-to-server message to its wire bytes.
pub fn encode_to_server(m: &ToServer) -> (r: Vec<u8>)
    ensures
        r@ == encoded_to_server(*m),
{
    let mut buf: Vec<u8> = Vec::new();
    match m {
        ToServer::RequestChunk(coords) => {
            buf.push(0);
            push_chunk_coords(&mut buf, *coords);
        },
        ToServer::MoveMyEntity { request_number, direction } => {
            buf.push(1);
            push_u32(&mut buf, *request_number);
            buf.push(direction.index());
        },
        ToServer::PlaceBomb(position) => {
            buf.push(2);
            push_tile_coords(&mut buf, *position);
        },
        ToServer::DetonateBombs => {
            buf.push(3);
        },
        ToServer::PurchaseBombs { quantity } => {
            buf.push(4);
            push_u32(&mut buf, *quantity);
        },
    }
    proof {
        assert(buf@ =~= encoded_to_server(*m));
    }
    buf
}

/// Decode a client-to-server message from its wire bytes. Yields a message
/// exactly when the bytes are a valid encoding.
pub fn decode_to_server(bytes: &[u8]) -> (r: Option<ToServer>)
    ensures
        r == decoded_to_server(bytes@),
{
    let n = bytes.len();
    if n == 0 {
        return None;
    }
    let tag = bytes[0];
    if tag == 0 && n == 9 {
        Some(ToServer::RequestChunk(read_chunk_coords_at(bytes, 1)))
    } else if tag == 1 && n == 6 {
        let request_number = read_u32_at(bytes, 1);
        match Direction::from_index(bytes[5]) {
            Some(direction) => Some(ToServer::MoveMyEntity { request_number, direction }),
            None => None,
        }
    } else if tag == 2 && n == 9 {
        Some(ToServer::PlaceBomb(read_tile_coords_at(bytes, 1)))
    } else if tag == 3 && n == 1 {
        Some(ToServer::DetonateBombs)
    } else if tag == 4 && n == 5 {
        Some(ToServer::PurchaseBombs { quantity: read_u32_at(bytes, 1) })
    } else {
        None
    }
}

/// Encode a server-to-client message to its wire bytes.
pub fn encode_from_server(m: &FromServer) -> (r: Vec<u8>)
    requires
        from_server_wf(*m),
    ensures
        r@ == encoded_from_server(*m),
{
    let mut buf: Vec<u8> = Vec::new();
    match m {
        FromServer::Welcome { entity_id, entity } => {
            buf.push(0);
            push_u64(&mut buf, entity_id.value);
            push_entity(&mut buf, entity);
        },
        FromServer::ProvideChunk(coords, chunk) => {
            buf.push(1);
            push_chunk_coords(&mut buf, *coords);
            let mut chunk_bytes = chunk.to_bytes();
            buf.append(&mut chunk_bytes);
        },
        FromServer::ShouldUnloadChunk(coords) => {
            buf.push(2);
            push_chunk_coords(&mut buf, *coords);
        },
        FromServer::ChangeTile(coords, tile) => {
            buf.push(3);
            push_tile_coords(&mut buf, *coords);
            buf.push(tile.to_byte());
        },
        FromServer::YourEntityMoved { request_number, new_position } => {
            buf.push(4);
            push_u32(&mut buf, *request_number);
            push_tile_coords(&mut buf, *new_position);
        },
        FromServer::MoveEntity(id, pos, direction) => {
            buf.push(5);
            push_u64(&mut buf, id.value);
            push_tile_coords(&mut buf, *pos);
            buf.push(direction.index());
        },
        FromServer::ProvideEntity(id, entity) => {
            buf.push(6);
            push_u64(&mut buf, id.value);
            push_entity(&mut buf, entity);
        },
        FromServer::ShouldUnloadEntity(id) => {
            buf.push(7);
            push_u64(&mut buf, id.value);
        },
        FromServer::YouCollectedGems { gem_type, quantity_increase } => {
            buf.push(8);
            buf.push(gem_type.index());
            push_u32(&mut buf, *quantity_increase);
        },
    }
    proof {
        assert(buf@ =~= encoded_from_server(*m));
    }
    buf
}

/// Decode a server-to-client message from its wire bytes. Yields a message
/// exactly when the bytes are a valid encoding; any chunk payload decodes to
/// a well-formed chunk.
pub fn decode_from_server(bytes: &[u8]) -> (r: Option<FromServer>)
    ensures
        r is Some <==> decoded_from_server_view(bytes@) is Some,
        r is Some ==> from_server_view(r->Some_0) == decoded_from_server_view(bytes@)->Some_0,
        r is Some ==> from_server_wf(r->Some_0),
{
    let n = bytes.len();
    if n == 0 {
        return None;
    }
    let tag = bytes[0];
    if tag == 0 && n == 36 {
        let entity_id = Id { value: read_u64_at(bytes, 1) };
        match read_entity_at(bytes, 9) {
            Some(entity) => Some(FromServer::Welcome { entity_id, entity }),
            None => None,
        }
    } else if tag == 1 && n == 265 {
        let coords = read_chunk_coords_at(bytes, 1);
        let chunk = Chunk::from_bytes(&bytes[9..265]);
        Some(FromServer::ProvideChunk(coords, chunk))
    } else if tag == 2 && n == 9 {
        Some(FromServer::ShouldUnloadChunk(read_chunk_coords_at(bytes, 1)))
    } else if tag == 3 && n == 10 {
        Some(
            FromServer::ChangeTile(read_tile_coords_at(bytes, 1), Tile::from_byte(bytes[9])),
        )
    } else if tag == 4 && n == 13 {
        Some(
            FromServer::YourEntityMoved {
                request_number: read_u32_at(bytes, 1),
                new_position: read_tile_coords_at(bytes, 5),
            },
        )
    } else if tag == 5 && n == 18 {
        let id = Id { value: read_u64_at(bytes, 1) };
        let pos = read_tile_coords_at(bytes, 9);
        match Direction::from_index(bytes[17]) {
            Some(direction) => Some(FromServer::MoveEntity(id, pos, direction)),
            None => None,
        }
    } else if tag == 6 && n == 36 {
        let id = Id { value: read_u64_at(bytes, 1) };
        match read_entity_at(bytes, 9) {
            Some(entity) => Some(FromServer::ProvideEntity(id, entity)),
            None => None,
        }
    } else if tag == 7 && n == 9 {
        Some(FromServer::ShouldUnloadEntity(Id { value: read_u64_at(bytes, 1) }))
    } else if tag == 8 && n == 6 {
        let quantity_increase = read_u32_at(bytes, 2);
        match Gem::from_index(bytes[1]) {
            Some(gem_type) => Some(FromServer::YouCollectedGems { gem_type, quantity_increase }),
            None => None,
        }
    } else {
        None
    }
}

} // verus!
