//! The map capability: what both the client's partial view and the
//! server's authoritative store expose — chunk lookup and installation,
//! and entity lookup, addition and removal. Algorithms that need only
//! these are written against this trait, not against either concrete
//! representation.

use vstd::prelude::*;

use crate::chunk::Chunk;
use crate::client_map::ClientMap;
use crate::coords::ChunkCoords;
use crate::entities::{Entity, Id};
use crate::server_map::ServerMap;
use crate::tile::Tile;

verus! {

/// A map of the game world: loaded chunks keyed by coordinates and
/// entities keyed by identifier.
pub trait WorldMap: Sized {
    /// The tiles of each loaded chunk.
    spec fn chunks(&self) -> Map<ChunkCoords, Seq<Tile>>;

    /// The entities present on the map.
    spec fn map_entities(&self) -> Map<Id, Entity>;

    /// The representation invariant of the concrete map.
    spec fn inv(&self) -> bool;

    /// Whether the chunk at the given coordinates is loaded.
    fn is_chunk_loaded(&self, coords: ChunkCoords) -> (r: bool)
        requires
            self.inv(),
        ensures
            r == self.chunks().contains_key(coords),
    ;

    /// Install a chunk at the given coordinates, replacing any chunk
    /// already loaded there. No two loaded chunks ever share coordinates.
    fn provide_chunk(&mut self, coords: ChunkCoords, chunk: Chunk)
        requires
            old(self).inv(),
            chunk.wf(),
        ensures
            final(self).inv(),
            final(self).chunks() == old(self).chunks().insert(coords, chunk@),
            final(self).map_entities() == old(self).map_entities(),
    ;

    /// The entity with the given identifier, if present.
    fn entity_by_id(&self, id: Id) -> (r: Option<Entity>)
        requires
            self.inv(),
        ensures
            r == (if self.map_entities().contains_key(id) {
                Some(self.map_entities()[id])
            } else {
                None::<Entity>
            }),
    ;

    /// Add an entity, replacing any previous entity with the same
    /// identifier.
    fn add_entity(&mut self, id: Id, entity: Entity)
        requires
            old(self).inv(),
        ensures
            final(self).inv(),
            final(self).map_entities() == old(self).map_entities().insert(id, entity),
            final(self).chunks() == old(self).chunks(),
    ;

    /// Remove and return the entity with the given identifier, if any.
    fn remove_entity(&mut self, id: Id) -> (r: Option<Entity>)
        requires
            old(self).inv(),
        ensures
            final(self).inv(),
            final(self).map_entities() == old(self).map_entities().remove(id),
            final(self).chunks() == old(self).chunks(),
            r == (if old(self).map_entities().contains_key(id) {
                Some(old(self).map_entities()[id])
            } else {
                None::<Entity>
            }),
    ;
}

impl WorldMap for ClientMap {
    open spec fn chunks(&self) -> Map<ChunkCoords, Seq<Tile>> {
        self@.loaded
    }

    open spec fn map_entities(&self) -> Map<Id, Entity> {
        self@.entities
    }

    open spec fn inv(&self) -> bool {
        self.wf()
    }

    fn is_chunk_loaded(&self, coords: ChunkCoords) -> (r: bool) {
        ClientMap::is_chunk_loaded(self, coords)
    }

    fn provide_chunk(&mut self, coords: ChunkCoords, chunk: Chunk) {
        ClientMap::provide_chunk(self, coords, chunk);
    }

    fn entity_by_id(&self, id: Id) -> (r: Option<Entity>) {
        ClientMap::entity_by_id(self, id)
    }

    fn add_entity(&mut self, id: Id, entity: Entity) {
        ClientMap::add_entity(self, id, entity);
    }

    fn remove_entity(&mut self, id: Id) -> (r: Option<Entity>) {
        ClientMap::remove_entity(self, id)
    }
}

impl WorldMap for ServerMap {
    open spec fn chunks(&self) -> Map<ChunkCoords, Seq<Tile>> {
        self@.loaded
    }

    open spec fn map_entities(&self) -> Map<Id, Entity> {
        self@.entities
    }

    open spec fn inv(&self) -> bool {
        self.wf()
    }

    fn is_chunk_loaded(&self, coords: ChunkCoords) -> (r: bool) {
        ServerMap::is_chunk_loaded(self, coords)
    }

    fn provide_chunk(&mut self, coords: ChunkCoords, chunk: Chunk) {
        ServerMap::install_chunk(self, coords, chunk);
    }

    fn entity_by_id(&self, id: Id) -> (r: Option<Entity>) {
        ServerMap::entity_by_id(self, id)
    }

    fn add_entity(&mut self, id: Id, entity: Entity) {
        ServerMap::add_entity(self, id, entity);
    }

    fn remove_entity(&mut self, id: Id) -> (r: Option<Entity>) {
        ServerMap::remove_entity(self, id)
    }
}

} // verus!
