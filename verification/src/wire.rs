//! Byte-level primitives of the compact binary wire and storage format:
//! little-endian integers, bias-encoded signed coordinates, and the field
//! layouts of coordinates and entities.

use vstd::prelude::*;

use crate::coords::{ChunkCoords, TileCoords};
use crate::entities::{
    direction_from_index, direction_index, entity_direction, entity_facial_expression,
    entity_hair_style, facial_expression_from_index, facial_expression_index,
    hair_style_from_index, hair_style_index, Entity, Variety,
};
use crate::gems::{collection_of, Gem};

verus! {

/// The four little-endian bytes of a 32-bit value.
pub open spec fn u32_le_bytes(v: u32) -> Seq<u8> {
    seq![
        (v & 0xff) as u8,
        ((v >> 8u32) & 0xff) as u8,
        ((v >> 16u32) & 0xff) as u8,
        ((v >> 24u32) & 0xff) as u8,
    ]
}

/// The 32-bit value denoted by four little-endian bytes.
pub open spec fn u32_from_le(b0: u8, b1: u8, b2: u8, b3: u8) -> u32 {
    (b0 as u32) | ((b1 as u32) << 8u32) | ((b2 as u32) << 16u32) | ((b3 as u32) << 24u32)
}

/// The eight little-endian bytes of a 64-bit value.
pub open spec fn u64_le_bytes(v: u64) -> Seq<u8> {
    seq![
        (v & 0xff) as u8,
        ((v >> 8u64) & 0xff) as u8,
        ((v >> 16u64) & 0xff) as u8,
        ((v >> 24u64) & 0xff) as u8,
        ((v >> 32u64) & 0xff) as u8,
        ((v >> 40u64) & 0xff) as u8,
        ((v >> 48u64) & 0xff) as u8,
        ((v >> 56u64) & 0xff) as u8,
    ]
}

/// The 64-bit value denoted by eight little-endian bytes.
pub open spec fn u64_from_le(
    b0: u8,
    b1: u8,
    b2: u8,
    b3: u8,
    b4: u8,
    b5: u8,
    b6: u8,
    b7: u8,
) -> u64 {
    (b0 as u64) | ((b1 as u64) << 8u64) | ((b2 as u64) << 16u64) | ((b3 as u64) << 24u64) | ((
    b4 as u64) << 32u64) | ((b5 as u64) << 40u64) | ((b6 as u64) << 48u64) | ((b7 as u64)
        << 56u64)
}

/// A signed 32-bit coordinate shifted into the unsigned range, so that the
/// wire format needs no sign-dependent cases.
pub open spec fn biased(x: i32) -> u32 {
    (x + 0x8000_0000) as u32
}

/// The signed coordinate denoted by a bias-encoded unsigned value.
pub open spec fn unbiased(u: u32) -> i32 {
    (u - 0x8000_0000) as i32
}

/// The four wire bytes of a signed coordinate.
pub open spec fn i32_le_bytes(x: i32) -> Seq<u8> {
    u32_le_bytes(biased(x))
}

/// The 32-bit value denoted by a four-byte sequence.
pub open spec fn dec_u32(b: Seq<u8>) -> u32 {
    u32_from_le(b[0], b[1], b[2], b[3])
}

/// The 64-bit value denoted by an eight-byte sequence.
pub open spec fn dec_u64(b: Seq<u8>) -> u64 {
    u64_from_le(b[0], b[1], b[2], b[3], b[4], b[5], b[6], b[7])
}

/// The signed coordinate denoted by a four-byte sequence.
pub open spec fn dec_i32(b: Seq<u8>) -> i32 {
    unbiased(dec_u32(b))
}

/// The eight wire bytes of a tile coordinate pair.
pub open spec fn tile_coords_bytes(c: TileCoords) -> Seq<u8> {
    i32_le_bytes(c.x) + i32_le_bytes(c.y)
}

/// The tile coordinate pair denoted by an eight-byte sequence.
pub open spec fn dec_tile_coords(b: Seq<u8>) -> TileCoords {
    TileCoords { x: dec_i32(b.subrange(0, 4)), y: dec_i32(b.subrange(4, 8)) }
}

/// The eight wire bytes of a chunk coordinate pair.
pub open spec fn chunk_coords_bytes(c: ChunkCoords) -> Seq<u8> {
    i32_le_bytes(c.x) + i32_le_bytes(c.y)
}

/// The chunk coordinate pair denoted by an eight-byte sequence.
pub open spec fn dec_chunk_coords(b: Seq<u8>) -> ChunkCoords {
    ChunkCoords { x: dec_i32(b.subrange(0, 4)), y: dec_i32(b.subrange(4, 8)) }
}

/// The 27 wire bytes of an entity: position, facing direction, facial
/// expression, hair style, the three gem quantities, and the bomb counter.
pub open spec fn entity_bytes(e: Entity) -> Seq<u8> {
    tile_coords_bytes(e.pos) + seq![
        direction_index(entity_direction(e)) as u8,
        facial_expression_index(entity_facial_expression(e)) as u8,
        hair_style_index(entity_hair_style(e)) as u8,
    ] + u32_le_bytes(e.gem_collection.quantity(Gem::Emerald)) + u32_le_bytes(
        e.gem_collection.quantity(Gem::Ruby),
    ) + u32_le_bytes(e.gem_collection.quantity(Gem::Diamond)) + u32_le_bytes(
        e.bombs_placed_count,
    )
}

/// The entity denoted by a 27-byte sequence, if its attribute bytes are
/// valid.
pub open spec fn dec_entity(b: Seq<u8>) -> Option<Entity> {
    match (direction_from_index(b[8] as int), facial_expression_from_index(b[9] as int),
    hair_style_from_index(b[10] as int)) {
        (Some(direction), Some(facial_expression), Some(hair_style)) => Some(
            Entity {
                pos: dec_tile_coords(b.subrange(0, 8)),
                variety: Variety::Human { direction, facial_expression, hair_style },
                gem_collection: collection_of(
                    dec_u32(b.subrange(11, 15)),
                    dec_u32(b.subrange(15, 19)),
                    dec_u32(b.subrange(19, 23)),
                ),
                bombs_placed_count: dec_u32(b.subrange(23, 27)),
            },
        ),
        _ => None,
    }
}

/// Little-endian 32-bit round trip.
pub proof fn lemma_u32_round_trip(v: u32)
    ensures
        dec_u32(u32_le_bytes(v)) == v,
{
    assert(((v & 0xff) as u8) as u32 | ((((v >> 8u32) & 0xff) as u8) as u32) << 8u32 | ((((v
        >> 16u32) & 0xff) as u8) as u32) << 16u32 | ((((v >> 24u32) & 0xff) as u8) as u32)
        << 24u32 == v) by (bit_vector);
}

/// Little-endian 64-bit round trip.
pub proof fn lemma_u64_round_trip(v: u64)
    ensures
        dec_u64(u64_le_bytes(v)) == v,
{
    assert(((v & 0xff) as u8) as u64 | ((((v >> 8u64) & 0xff) as u8) as u64) << 8u64 | ((((v
        >> 16u64) & 0xff) as u8) as u64) << 16u64 | ((((v >> 24u64) & 0xff) as u8) as u64)
        << 24u64 | ((((v >> 32u64) & 0xff) as u8) as u64) << 32u64 | ((((v >> 40u64) & 0xff) as u8)
        as u64) << 40u64 | ((((v >> 48u64) & 0xff) as u8) as u64) << 48u64 | ((((v >> 56u64)
        & 0xff) as u8) as u64) << 56u64 == v) by (bit_vector);
}

/// Bias-encoded signed coordinate round trip.
pub proof fn lemma_i32_round_trip(x: i32)
    ensures
        dec_i32(i32_le_bytes(x)) == x,
{
    lemma_u32_round_trip(biased(x));
}

/// Tile coordinate round trip.
pub proof fn lemma_tile_coords_round_trip(c: TileCoords)
    ensures
        dec_tile_coords(tile_coords_bytes(c)) == c,
{
    let b = tile_coords_bytes(c);
    assert(b.subrange(0, 4) =~= i32_le_bytes(c.x));
    assert(b.subrange(4, 8) =~= i32_le_bytes(c.y));
    lemma_i32_round_trip(c.x);
    lemma_i32_round_trip(c.y);
}

/// Chunk coordinate round trip.
pub proof fn lemma_chunk_coords_round_trip(c: ChunkCoords)
    ensures
        dec_chunk_coords(chunk_coords_bytes(c)) == c,
{
    let b = chunk_coords_bytes(c);
    assert(b.subrange(0, 4) =~= i32_le_bytes(c.x));
    assert(b.subrange(4, 8) =~= i32_le_bytes(c.y));
    lemma_i32_round_trip(c.x);
    lemma_i32_round_trip(c.y);
}

/// Entity round trip.
pub proof fn lemma_entity_round_trip(e: Entity)
    ensures
        dec_entity(entity_bytes(e)) == Some(e),
{
    let b = entity_bytes(e);
    assert(b.subrange(0, 8) =~= tile_coords_bytes(e.pos));
    assert(b.subrange(11, 15) =~= u32_le_bytes(e.gem_collection.quantity(Gem::Emerald)));
    assert(b.subrange(15, 19) =~= u32_le_bytes(e.gem_collection.quantity(Gem::Ruby)));
    assert(b.subrange(19, 23) =~= u32_le_bytes(e.gem_collection.quantity(Gem::Diamond)));
    assert(b.subrange(23, 27) =~= u32_le_bytes(e.bombs_placed_count));
    lemma_tile_coords_round_trip(e.pos);
    lemma_u32_round_trip(e.gem_collection.quantity(Gem::Emerald));
    lemma_u32_round_trip(e.gem_collection.quantity(Gem::Ruby));
    lemma_u32_round_trip(e.gem_collection.quantity(Gem::Diamond));
    lemma_u32_round_trip(e.bombs_placed_count);
    crate::gems::lemma_collection_ext(e.gem_collection);
}

/// Append the little-endian bytes of a 32-bit value.
pub fn push_u32(buf: &mut Vec<u8>, v: u32)
    ensures
        final(buf)@ == old(buf)@ + u32_le_bytes(v),
{
    buf.push((v & 0xff) as u8);
    buf.push(((v >> 8u32) & 0xff) as u8);
    buf.push(((v >> 16u32) & 0xff) as u8);
    buf.push(((v >> 24u32) & 0xff) as u8);
    proof {
        assert(buf@ =~= old(buf)@ + u32_le_bytes(v));
    }
}

/// Append the little-endian bytes of a 64-bit value.
pub fn push_u64(buf: &mut Vec<u8>, v: u64)
    ensures
        final(buf)@ == old(buf)@ + u64_le_bytes(v),
{
    buf.push((v & 0xff) as u8);
    buf.push(((v >> 8u64) & 0xff) as u8);
    buf.push(((v >> 16u64) & 0xff) as u8);
    buf.push(((v >> 24u64) & 0xff) as u8);
    buf.push(((v >> 32u64) & 0xff) as u8);
    buf.push(((v >> 40u64) & 0xff) as u8);
    buf.push(((v >> 48u64) & 0xff) as u8);
    buf.push(((v >> 56u64) & 0xff) as u8);
    proof {
        assert(buf@ =~= old(buf)@ + u64_le_bytes(v));
    }
}

/// Append the bias-encoded bytes of a signed coordinate.
pub fn push_i32(buf: &mut Vec<u8>, x: i32)
    ensures
        final(buf)@ == old(buf)@ + i32_le_bytes(x),
{
    let biased_value = (x as i64 + 0x8000_0000) as u32;
    proof {
        assert(biased_value == biased(x));
    }
    push_u32(buf, biased_value);
}

/// Append the wire bytes of a tile coordinate pair.
pub fn push_tile_coords(buf: &mut Vec<u8>, c: TileCoords)
    ensures
        final(buf)@ == old(buf)@ + tile_coords_bytes(c),
{
    push_i32(buf, c.x);
    push_i32(buf, c.y);
    proof {
        assert(buf@ =~= old(buf)@ + tile_coords_bytes(c));
    }
}

/// Append the wire bytes of a chunk coordinate pair.
pub fn push_chunk_coords(buf: &mut Vec<u8>, c: ChunkCoords)
    ensures
        final(buf)@ == old(buf)@ + chunk_coords_bytes(c),
{
    push_i32(buf, c.x);
    push_i32(buf, c.y);
    proof {
        assert(buf@ =~= old(buf)@ + chunk_coords_bytes(c));
    }
}

/// Append the wire bytes of an entity.
pub fn push_entity(buf: &mut Vec<u8>, e: &Entity)
    ensures
        final(buf)@ == old(buf)@ + entity_bytes(*e),
{
    push_tile_coords(buf, e.pos);
    buf.push(e.direction().index());
    match e.variety {
        Variety::Human { facial_expression, hair_style, .. } => {
            buf.push(facial_expression.index());
            buf.push(hair_style.index());
        },
    }
    push_u32(buf, e.gem_collection.get_quantity(Gem::Emerald));
    push_u32(buf, e.gem_collection.get_quantity(Gem::Ruby));
    push_u32(buf, e.gem_collection.get_quantity(Gem::Diamond));
    push_u32(buf, e.bombs_placed_count);
    proof {
        assert(buf@ =~= old(buf)@ + entity_bytes(*e));
    }
}

/// Read a little-endian 32-bit value at the given offset.
pub fn read_u32_at(bytes: &[u8], i: usize) -> (r: u32)
    requires
        i + 4 <= bytes@.len(),
    ensures
        r == dec_u32(bytes@.subrange(i as int, i as int + 4)),
{
    let b0 = bytes[i];
    let b1 = bytes[i + 1];
    let b2 = bytes[i + 2];
    let b3 = bytes[i + 3];
    proof {
        let sub = bytes@.subrange(i as int, i as int + 4);
        assert(sub[0] == b0 && sub[1] == b1 && sub[2] == b2 && sub[3] == b3);
    }
    (b0 as u32) | ((b1 as u32) << 8u32) | ((b2 as u32) << 16u32) | ((b3 as u32) << 24u32)
}

/// Read a little-endian 64-bit value at the given offset.
pub fn read_u64_at(bytes: &[u8], i: usize) -> (r: u64)
    requires
        i + 8 <= bytes@.len(),
    ensures
        r == dec_u64(bytes@.subrange(i as int, i as int + 8)),
{
    let b0 = bytes[i];
    let b1 = bytes[i + 1];
    let b2 = bytes[i + 2];
    let b3 = bytes[i + 3];
    let b4 = bytes[i + 4];
    let b5 = bytes[i + 5];
    let b6 = bytes[i + 6];
    let b7 = bytes[i + 7];
    proof {
        let sub = bytes@.subrange(i as int, i as int + 8);
        assert(sub[0] == b0 && sub[1] == b1 && sub[2] == b2 && sub[3] == b3);
        assert(sub[4] == b4 && sub[5] == b5 && sub[6] == b6 && sub[7] == b7);
    }
    (b0 as u64) | ((b1 as u64) << 8u64) | ((b2 as u64) << 16u64) | ((b3 as u64) << 24u64) | ((
    b4 as u64) << 32u64) | ((b5 as u64) << 40u64) | ((b6 as u64) << 48u64) | ((b7 as u64)
        << 56u64)
}

/// Read a bias-encoded signed coordinate at the given offset.
pub fn read_i32_at(bytes: &[u8], i: usize) -> (r: i32)
    requires
        i + 4 <= bytes@.len(),
    ensures
        r == dec_i32(bytes@.subrange(i as int, i as int + 4)),
{
    let u = read_u32_at(bytes, i);
    (u as i64 - 0x8000_0000) as i32
}

/// Read a tile coordinate pair at the given offset.
pub fn read_tile_coords_at(bytes: &[u8], i: usize) -> (r: TileCoords)
    requires
        i + 8 <= bytes@.len(),
    ensures
        r == dec_tile_coords(bytes@.subrange(i as int, i as int + 8)),
{
    let n = bytes.len();
    let x = read_i32_at(bytes, i);
    let y = read_i32_at(bytes, i + 4);
    proof {
        let sub = bytes@.subrange(i as int, i as int + 8);
        assert(sub.subrange(0, 4) =~= bytes@.subrange(i as int, i as int + 4));
        assert(sub.subrange(4, 8) =~= bytes@.subrange(i as int + 4, i as int + 8));
    }
    TileCoords { x, y }
}

/// Read a chunk coordinate pair at the given offset.
pub fn read_chunk_coords_at(bytes: &[u8], i: usize) -> (r: ChunkCoords)
    requires
        i + 8 <= bytes@.len(),
    ensures
        r == dec_chunk_coords(bytes@.subrange(i as int, i as int + 8)),
{
    let n = bytes.len();
    let x = read_i32_at(bytes, i);
    let y = read_i32_at(bytes, i + 4);
    proof {
        let sub = bytes@.subrange(i as int, i as int + 8);
        assert(sub.subrange(0, 4) =~= bytes@.subrange(i as int, i as int + 4));
        assert(sub.subrange(4, 8) =~= bytes@.subrange(i as int + 4, i as int + 8));
    }
    ChunkCoords { x, y }
}

/// Read an entity at the given offset, if its attribute bytes are valid.
pub fn read_entity_at(bytes: &[u8], i: usize) -> (r: Option<Entity>)
    requires
        i + 27 <= bytes@.len(),
    ensures
        r == dec_entity(bytes@.subrange(i as int, i as int + 27)),
{
    let n = bytes.len();
    let ghost sub = bytes@.subrange(i as int, i as int + 27);
    let pos = read_tile_coords_at(bytes, i);
    let direction_opt = crate::entities::Direction::from_index(bytes[i + 8]);
    let facial_opt = crate::entities::FacialExpression::from_index(bytes[i + 9]);
    let hair_opt = crate::entities::HairStyle::from_index(bytes[i + 10]);
    let emeralds = read_u32_at(bytes, i + 11);
    let rubies = read_u32_at(bytes, i + 15);
    let diamonds = read_u32_at(bytes, i + 19);
    let bombs_placed_count = read_u32_at(bytes, i + 23);
    proof {
        assert(sub[8] == bytes@[i as int + 8]);
        assert(sub[9] == bytes@[i as int + 9]);
        assert(sub[10] == bytes@[i as int + 10]);
        assert(sub.subrange(0, 8) =~= bytes@.subrange(i as int, i as int + 8));
        assert(sub.subrange(11, 15) =~= bytes@.subrange(i as int + 11, i as int + 15));
        assert(sub.subrange(15, 19) =~= bytes@.subrange(i as int + 15, i as int + 19));
        assert(sub.subrange(19, 23) =~= bytes@.subrange(i as int + 19, i as int + 23));
        assert(sub.subrange(23, 27) =~= bytes@.subrange(i as int + 23, i as int + 27));
    }
    match (direction_opt, facial_opt, hair_opt) {
        (Some(direction), Some(facial_expression), Some(hair_style)) => Some(
            Entity {
                pos,
                variety: Variety::Human { direction, facial_expression, hair_style },
                gem_collection: crate::gems::Collection::from_quantities(
                    emeralds,
                    rubies,
                    diamonds,
                ),
                bombs_placed_count,
            },
        ),
        _ => None,
    }
}

} // verus!
