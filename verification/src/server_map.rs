//! The server's authoritative world state: the single source of truth for
//! tile and entity data. Chunk requests are resolved against the in-memory
//! store first, then against persisted data handed in by the caller, and
//! only then by deterministic generation, so every chunk becomes canonical
//! exactly once and all later readers observe that same chunk. Move
//! requests are re-validated here against the authoritative map and entity
//! registry.

use vstd::prelude::*;

use crate::assoc::{
    assoc_map, assoc_unique, lemma_assoc_contains, lemma_assoc_push, lemma_assoc_remove,
    lemma_assoc_update, lemma_assoc_value,
};
use crate::chunk::{chunk_entry_views, Chunk};
use crate::coords::{tile_chunk, tile_index_in_chunk, ChunkCoords, TileCoords};
use crate::entities::{
    can_step, check_can_step, entity_facing, stepped, Direction, Entity, Id,
};
use crate::generator::{generate_chunk, generated_chunk_tiles, GeneratorConfig};
use crate::messages::FromServer;
use crate::tile::{tile_blocking, Tile};

verus! {

/// The mathematical state of the authoritative map: the tiles of each
/// loaded chunk, the entity registry, the world seed and the generator's
/// tile configuration.
pub struct ServerMapView {
    pub loaded: Map<ChunkCoords, Seq<Tile>>,
    pub entities: Map<Id, Entity>,
    pub seed: u32,
    pub config: GeneratorConfig,
}

/// Whether the given position is blocked for the given moving entity: its
/// tile blocks, or some other entity occupies it.
pub open spec fn server_pos_blocked(v: ServerMapView, t: TileCoords, mover: Id) -> bool {
    ||| tile_blocking(v.loaded[tile_chunk(t)][tile_index_in_chunk(t)])
    ||| exists|id: Id|
        #[trigger] v.entities.contains_key(id) && id != mover && v.entities[id].pos == t
}

/// The server's reply to one chunk request.
pub struct ChunkResponse {
    /// The canonical chunk at the requested coordinates.
    pub chunk: Chunk,
    /// Whether the chunk was generated by this request and therefore still
    /// needs to be persisted by the caller.
    pub newly_generated: bool,
}

/// The server's decision on one move request.
#[derive(Clone, Copy, Debug, PartialEq, Eq, Structural)]
pub enum MoveOutcome {
    /// The move was legal: it has been committed, and all other clients
    /// that see the entity should be notified.
    Committed { entity_id: Id, new_position: TileCoords, direction: Direction },
    /// The move was illegal (the destination was blocked, or the client's
    /// view was stale): nothing changed, and the requesting client must be
    /// corrected to the entity's current authoritative position — never the
    /// attempted one.
    Corrected { request_number: u32, position: TileCoords },
}

/// The message to send back to the requesting client for a move outcome:
/// nothing for a committed move (the client's prediction already matches),
/// an explicit correction otherwise.
pub fn outcome_reply(outcome: &MoveOutcome) -> (r: Option<FromServer>)
    ensures
        r == (match *outcome {
            MoveOutcome::Committed { .. } => None::<FromServer>,
            MoveOutcome::Corrected { request_number, position } => Some(
                FromServer::YourEntityMoved { request_number, new_position: position },
            ),
        }),
{
    match outcome {
        MoveOutcome::Committed { .. } => None,
        MoveOutcome::Corrected { request_number, position } => Some(
            FromServer::YourEntityMoved {
                request_number: *request_number,
                new_position: *position,
            },
        ),
    }
}

/// The notification to broadcast to all other clients for a move outcome:
/// the entity's new position for a committed move, nothing otherwise.
pub fn outcome_broadcast(outcome: &MoveOutcome) -> (r: Option<FromServer>)
    ensures
        r == (match *outcome {
            MoveOutcome::Committed { entity_id, new_position, direction } => Some(
                FromServer::MoveEntity(entity_id, new_position, direction),
            ),
            MoveOutcome::Corrected { .. } => None::<FromServer>,
        }),
{
    match outcome {
        MoveOutcome::Committed { entity_id, new_position, direction } => Some(
            FromServer::MoveEntity(*entity_id, *new_position, *direction),
        ),
        MoveOutcome::Corrected { .. } => None,
    }
}

/// The server's authoritative map and entity registry.
pub struct ServerMap {
    /// The canonical chunks currently in memory, keyed by coordinates. No
    /// two loaded chunks share coordinates.
    loaded_chunks: Vec<(ChunkCoords, Chunk)>,
    /// All persisted entities currently in the world, keyed by identifier.
    entities: Vec<(Id, Entity)>,
    /// The world seed all generation derives from.
    seed: u32,
    /// The tiles the generator places.
    config: GeneratorConfig,
}

impl View for ServerMap {
    type V = ServerMapView;

    closed spec fn view(&self) -> ServerMapView {
        ServerMapView {
            loaded: assoc_map(chunk_entry_views(self.loaded_chunks@)),
            entities: assoc_map(self.entities@),
            seed: self.seed,
            config: self.config,
        }
    }
}

impl ServerMap {
    /// No duplicate chunk coordinates or entity identifiers, and every
    /// loaded chunk holds one tile per cell.
    pub closed spec fn wf(&self) -> bool {
        &&& assoc_unique(self.loaded_chunks@)
        &&& assoc_unique(self.entities@)
        &&& (forall|i: int|
            0 <= i < self.loaded_chunks@.len() ==> self.loaded_chunks@[i].1.wf())
    }

    /// A new, empty authoritative map for the given seed and generator
    /// configuration.
    pub fn new(seed: u32, config: GeneratorConfig) -> (r: ServerMap)
        ensures
            r.wf(),
            r@ == (ServerMapView {
                loaded: Map::<ChunkCoords, Seq<Tile>>::empty(),
                entities: Map::<Id, Entity>::empty(),
                seed,
                config,
            }),
    {
        let r = ServerMap { loaded_chunks: Vec::new(), entities: Vec::new(), seed, config };
        proof {
            assert(chunk_entry_views(r.loaded_chunks@) =~= Seq::<(ChunkCoords, Seq<Tile>)>::empty());
        }
        r
    }

    /// The index of the loaded chunk with the given coordinates, if any.
    fn chunk_index(&self, coords: ChunkCoords) -> (r: Option<usize>)
        ensures
            match r {
                Some(i) => i < self.loaded_chunks@.len() && self.loaded_chunks@[i as int].0
                    == coords,
                None => forall|j: int|
                    0 <= j < self.loaded_chunks@.len() ==> self.loaded_chunks@[j].0 != coords,
            },
    {
        let n = self.loaded_chunks.len();
        let mut i: usize = 0;
        while i < n
            invariant
                n == self.loaded_chunks@.len(),
                i <= n,
                forall|j: int| 0 <= j < i ==> self.loaded_chunks@[j].0 != coords,
            decreases n - i,
        {
            if self.loaded_chunks[i].0 == coords {
                return Some(i);
            }
            i += 1;
        }
        None
    }

    /// The index of the entity with the given identifier, if any.
    fn entity_index(&self, id: Id) -> (r: Option<usize>)
        ensures
            match r {
                Some(i) => i < self.entities@.len() && self.entities@[i as int].0 == id,
                None => forall|j: int|
                    0 <= j < self.entities@.len() ==> self.entities@[j].0 != id,
            },
    {
        let n = self.entities.len();
        let mut i: usize = 0;
        while i < n
            invariant
                n == self.entities@.len(),
                i <= n,
                forall|j: int| 0 <= j < i ==> self.entities@[j].0 != id,
            decreases n - i,
        {
            if self.entities[i].0 == id {
                return Some(i);
            }
            i += 1;
        }
        None
    }

    /// Establishes that the projected chunk entries keep the raw entries'
    /// keys, so uniqueness carries over.
    proof fn lemma_views_unique(&self)
        requires
            assoc_unique(self.loaded_chunks@),
        ensures
            assoc_unique(chunk_entry_views(self.loaded_chunks@)),
    {
        assert(forall|a: int, b: int|
            0 <= a < self.loaded_chunks@.len() && 0 <= b < self.loaded_chunks@.len() && a != b
                ==> chunk_entry_views(self.loaded_chunks@)[a].0 == self.loaded_chunks@[a].0
                && chunk_entry_views(self.loaded_chunks@)[b].0 == self.loaded_chunks@[b].0);
    }

    /// Whether the chunk at the given coordinates is loaded.
    pub fn is_chunk_loaded(&self, coords: ChunkCoords) -> (r: bool)
        ensures
            r == self@.loaded.contains_key(coords),
    {
        proof {
            lemma_assoc_contains(chunk_entry_views(self.loaded_chunks@), coords);
        }
        match self.chunk_index(coords) {
            Some(i) => {
                proof {
                    assert(chunk_entry_views(self.loaded_chunks@)[i as int].0 == coords);
                }
                true
            },
            None => {
                proof {
                    assert forall|j: int| 0 <= j < chunk_entry_views(self.loaded_chunks@).len()
                        implies chunk_entry_views(self.loaded_chunks@)[j].0 != coords by {
                        assert(self.loaded_chunks@[j].0 != coords);
                    };
                }
                false
            },
        }
    }

    /// Resolve one chunk request: the in-memory store first; on a miss the
    /// persisted chunk handed in by the caller, installed; on a second miss
    /// a deterministically generated chunk, installed and flagged for the
    /// caller to persist. Either way the returned chunk is canonical at
    /// these coordinates from now on, so a second request for the same
    /// coordinates observes the identical chunk.
    pub fn resolve_chunk_request(&mut self, coords: ChunkCoords, persisted: Option<Chunk>) -> (r:
        ChunkResponse)
        requires
            old(self).wf(),
            persisted matches Some(c) ==> c.wf(),
        ensures
            final(self).wf(),
            r.chunk.wf(),
            final(self)@.entities == old(self)@.entities,
            final(self)@.seed == old(self)@.seed,
            final(self)@.config == old(self)@.config,
            final(self)@.loaded == old(self)@.loaded.insert(coords, r.chunk@),
            final(self)@.loaded.contains_key(coords),
            old(self)@.loaded.contains_key(coords) ==> r.chunk@ == old(self)@.loaded[coords]
                && !r.newly_generated && final(self)@.loaded == old(self)@.loaded,
            !old(self)@.loaded.contains_key(coords) && persisted is Some ==> r.chunk
                == persisted->Some_0 && !r.newly_generated,
            !old(self)@.loaded.contains_key(coords) && persisted is None ==> r.chunk@
                == generated_chunk_tiles(old(self)@.seed, coords, old(self)@.config)
                && r.newly_generated,
    {
        proof {
            lemma_assoc_contains(chunk_entry_views(self.loaded_chunks@), coords);
        }
        match self.chunk_index(coords) {
            Some(i) => {
                proof {
                    self.lemma_views_unique();
                    lemma_assoc_value(chunk_entry_views(self.loaded_chunks@), i as int);
                    assert(old(self)@.loaded.insert(coords, self.loaded_chunks@[i as int].1@)
                        =~= old(self)@.loaded);
                }
                let chunk = self.loaded_chunks[i].1.duplicate();
                ChunkResponse { chunk, newly_generated: false }
            },
            None => {
                proof {
                    assert forall|j: int| 0 <= j < chunk_entry_views(self.loaded_chunks@).len()
                        implies chunk_entry_views(self.loaded_chunks@)[j].0 != coords by {
                        assert(self.loaded_chunks@[j].0 != coords);
                    };
                }
                let (chunk, newly_generated) = match persisted {
                    Some(c) => (c, false),
                    None => (generate_chunk(self.seed, coords, &self.config), true),
                };
                let stored = chunk.duplicate();
                proof {
                    lemma_assoc_push(chunk_entry_views(self.loaded_chunks@), coords, stored@);
                }
                let ghost before = self.loaded_chunks@;
                self.loaded_chunks.push((coords, stored));
                proof {
                    assert(chunk_entry_views(self.loaded_chunks@) =~= chunk_entry_views(
                        before,
                    ).push((coords, stored@)));
                }
                ChunkResponse { chunk, newly_generated }
            },
        }
    }

    /// Install a chunk at the given coordinates, replacing any chunk
    /// already loaded there. Used when the caller, not the request path,
    /// decides what the chunk holds.
    pub fn install_chunk(&mut self, coords: ChunkCoords, chunk: Chunk)
        requires
            old(self).wf(),
            chunk.wf(),
        ensures
            final(self).wf(),
            final(self)@.loaded == old(self)@.loaded.insert(coords, chunk@),
            final(self)@.entities == old(self)@.entities,
            final(self)@.seed == old(self)@.seed,
            final(self)@.config == old(self)@.config,
    {
        proof {
            lemma_assoc_contains(chunk_entry_views(self.loaded_chunks@), coords);
        }
        match self.chunk_index(coords) {
            Some(i) => {
                proof {
                    self.lemma_views_unique();
                    lemma_assoc_update(
                        chunk_entry_views(self.loaded_chunks@),
                        i as int,
                        coords,
                        chunk@,
                    );
                }
                self.loaded_chunks[i] = (coords, chunk);
                proof {
                    assert(chunk_entry_views(self.loaded_chunks@) =~= chunk_entry_views(
                        old(self).loaded_chunks@,
                    ).update(i as int, (coords, chunk@)));
                }
            },
            None => {
                proof {
                    assert forall|j: int| 0 <= j < chunk_entry_views(self.loaded_chunks@).len()
                        implies chunk_entry_views(self.loaded_chunks@)[j].0 != coords by {
                        assert(self.loaded_chunks@[j].0 != coords);
                    };
                    lemma_assoc_push(chunk_entry_views(self.loaded_chunks@), coords, chunk@);
                }
                let ghost before = self.loaded_chunks@;
                self.loaded_chunks.push((coords, chunk));
                proof {
                    assert(chunk_entry_views(self.loaded_chunks@) =~= chunk_entry_views(
                        before,
                    ).push((coords, chunk@)));
                }
            },
        }
    }

    /// The entity with the given identifier, if it is in the registry.
    pub fn entity_by_id(&self, id: Id) -> (r: Option<Entity>)
        requires
            self.wf(),
        ensures
            r == (if self@.entities.contains_key(id) {
                Some(self@.entities[id])
            } else {
                None::<Entity>
            }),
    {
        proof {
            lemma_assoc_contains(self.entities@, id);
        }
        match self.entity_index(id) {
            Some(i) => {
                proof {
                    lemma_assoc_value(self.entities@, i as int);
                }
                Some(self.entities[i].1)
            },
            None => None,
        }
    }

    /// Add an entity to the registry, replacing any previous entity with
    /// the same identifier. Identifiers are server-generated and globally
    /// unique for an entity's lifetime.
    pub fn add_entity(&mut self, id: Id, entity: Entity)
        requires
            old(self).wf(),
        ensures
            final(self).wf(),
            final(self)@.loaded == old(self)@.loaded,
            final(self)@.seed == old(self)@.seed,
            final(self)@.config == old(self)@.config,
            final(self)@.entities == old(self)@.entities.insert(id, entity),
    {
        proof {
            lemma_assoc_contains(self.entities@, id);
        }
        match self.entity_index(id) {
            Some(i) => {
                proof {
                    lemma_assoc_update(self.entities@, i as int, id, entity);
                }
                self.entities[i] = (id, entity);
            },
            None => {
                proof {
                    lemma_assoc_push(self.entities@, id, entity);
                }
                self.entities.push((id, entity));
            },
        }
    }

    /// Remove and return the entity with the given identifier, if any.
    pub fn remove_entity(&mut self, id: Id) -> (r: Option<Entity>)
        requires
            old(self).wf(),
        ensures
            final(self).wf(),
            final(self)@.loaded == old(self)@.loaded,
            final(self)@.seed == old(self)@.seed,
            final(self)@.config == old(self)@.config,
            final(self)@.entities == old(self)@.entities.remove(id),
            r == (if old(self)@.entities.contains_key(id) {
                Some(old(self)@.entities[id])
            } else {
                None::<Entity>
            }),
    {
        proof {
            lemma_assoc_contains(self.entities@, id);
        }
        match self.entity_index(id) {
            Some(i) => {
                proof {
                    lemma_assoc_value(self.entities@, i as int);
                    lemma_assoc_remove(self.entities@, i as int);
                }
                let entry = self.entities.remove(i);
                Some(entry.1)
            },
            None => {
                proof {
                    assert(old(self)@.entities.remove(id) =~= old(self)@.entities);
                }
                None
            },
        }
    }

    /// Every entity currently in the registry, with its identifier.
    pub fn all_entities(&self) -> (r: Vec<(Id, Entity)>)
        requires
            self.wf(),
        ensures
            forall|i: int|
                0 <= i < r@.len() ==> self@.entities.contains_key(#[trigger] r@[i].0)
                    && self@.entities[r@[i].0] == r@[i].1,
            forall|id: Id|
                self@.entities.contains_key(id) ==> exists|i: int|
                    0 <= i < r@.len() && #[trigger] r@[i].0 == id,
    {
        let mut listing: Vec<(Id, Entity)> = Vec::new();
        let n = self.entities.len();
        let mut i: usize = 0;
        while i < n
            invariant
                self.wf(),
                n == self.entities@.len(),
                i <= n,
                listing@.len() == i,
                forall|j: int| 0 <= j < i ==> listing@[j] == self.entities@[j],
            decreases n - i,
        {
            listing.push(self.entities[i]);
            i += 1;
        }
        proof {
            assert forall|j: int| 0 <= j < listing@.len() implies self@.entities.contains_key(
                #[trigger] listing@[j].0,
            ) && self@.entities[listing@[j].0] == listing@[j].1 by {
                lemma_assoc_value(self.entities@, j);
            };
            assert forall|id: Id| self@.entities.contains_key(id) implies exists|i: int|
                0 <= i < listing@.len() && #[trigger] listing@[i].0 == id by {
                lemma_assoc_contains(self.entities@, id);
                let j = choose|j: int| 0 <= j < self.entities@.len() && self.entities@[j].0 == id;
                assert(listing@[j].0 == id);
            };
        }
        listing
    }

    /// Re-validate and decide one move request against the authoritative
    /// map and entity registry. If the destination tile is not blocking and
    /// no other entity occupies it, the move is committed (the entity's
    /// position and facing change) and the outcome says to broadcast it;
    /// otherwise nothing changes and the outcome carries a correction with
    /// the entity's current authoritative position — never the attempted
    /// one. A move off the edge of the coordinate range is likewise
    /// corrected.
    pub fn handle_move_request(
        &mut self,
        entity_id: Id,
        request_number: u32,
        direction: Direction,
    ) -> (r: MoveOutcome)
        requires
            old(self).wf(),
            old(self)@.entities.contains_key(entity_id),
            can_step(old(self)@.entities[entity_id].pos, direction) ==> old(
                self,
            )@.loaded.contains_key(
                tile_chunk(stepped(old(self)@.entities[entity_id].pos, direction)),
            ),
        ensures
            final(self).wf(),
            final(self)@.loaded == old(self)@.loaded,
            final(self)@.seed == old(self)@.seed,
            final(self)@.config == old(self)@.config,
            ({
                let pos = old(self)@.entities[entity_id].pos;
                let dest = stepped(pos, direction);
                if can_step(pos, direction) && !server_pos_blocked(old(self)@, dest, entity_id) {
                    &&& final(self)@.entities == old(self)@.entities.insert(
                        entity_id,
                        (Entity {
                            pos: dest,
                            ..entity_facing(old(self)@.entities[entity_id], direction)
                        }),
                    )
                    &&& r == (MoveOutcome::Committed {
                        entity_id,
                        new_position: dest,
                        direction,
                    })
                } else {
                    &&& final(self)@.entities == old(self)@.entities
                    &&& r == (MoveOutcome::Corrected { request_number, position: pos })
                }
            }),
    {
        proof {
            lemma_assoc_contains(self.entities@, entity_id);
        }
        let i = match self.entity_index(entity_id) {
            Some(i) => i,
            None => {
                proof {
                    assert(false);
                }
                return MoveOutcome::Corrected {
                    request_number,
                    position: TileCoords { x: 0, y: 0 },
                };
            },
        };
        proof {
            lemma_assoc_value(self.entities@, i as int);
        }
        let entity = self.entities[i].1;
        if !check_can_step(entity.pos, direction) {
            return MoveOutcome::Corrected { request_number, position: entity.pos };
        }
        let dest = entity.pos.moved_towards(direction);

        // The destination tile must not block.
        let dest_chunk_coords = dest.as_chunk_coords();
        proof {
            lemma_assoc_contains(chunk_entry_views(self.loaded_chunks@), dest_chunk_coords);
        }
        let tile = match self.chunk_index(dest_chunk_coords) {
            Some(ci) => {
                proof {
                    self.lemma_views_unique();
                    lemma_assoc_value(chunk_entry_views(self.loaded_chunks@), ci as int);
                }
                let offset = dest.as_chunk_offset_coords();
                self.loaded_chunks[ci].1.tile_at_offset(offset)
            },
            None => {
                proof {
                    assert forall|j: int| 0 <= j < chunk_entry_views(self.loaded_chunks@).len()
                        implies chunk_entry_views(self.loaded_chunks@)[j].0 != dest_chunk_coords by {
                        assert(self.loaded_chunks@[j].0 != dest_chunk_coords);
                    };
                    assert(false);
                }
                return MoveOutcome::Corrected { request_number, position: entity.pos };
            },
        };
        if tile.blocking() {
            return MoveOutcome::Corrected { request_number, position: entity.pos };
        }

        // No other entity may occupy the destination.
        let n = self.entities.len();
        let mut k: usize = 0;
        let mut occupied = false;
        while k < n
            invariant
                self.wf(),
                n == self.entities@.len(),
                k <= n,
                occupied <==> exists|j: int|
                    0 <= j < k && self.entities@[j].0 != entity_id && self.entities@[j].1.pos
                        == dest,
            decreases n - k,
        {
            if !(self.entities[k].0 == entity_id) && self.entities[k].1.pos == dest {
                occupied = true;
            }
            k += 1;
        }
        if occupied {
            proof {
                let j = choose|j: int|
                    0 <= j < self.entities@.len() && self.entities@[j].0 != entity_id
                        && self.entities@[j].1.pos == dest;
                lemma_assoc_value(self.entities@, j);
            }
            return MoveOutcome::Corrected { request_number, position: entity.pos };
        }
        proof {
            assert(!server_pos_blocked(old(self)@, dest, entity_id)) by {
                if exists|id: Id|
                    #[trigger] old(self)@.entities.contains_key(id) && id != entity_id && old(
                        self,
                    )@.entities[id].pos == dest {
                    let id = choose|id: Id|
                        #[trigger] old(self)@.entities.contains_key(id) && id != entity_id
                            && old(self)@.entities[id].pos == dest;
                    lemma_assoc_contains(self.entities@, id);
                    let j = choose|j: int|
                        0 <= j < self.entities@.len() && self.entities@[j].0 == id;
                    lemma_assoc_value(self.entities@, j);
                }
            };
        }

        // Legal: commit the new position and facing.
        let mut updated = entity;
        updated.face(direction);
        updated.pos = dest;
        proof {
            lemma_assoc_update(self.entities@, i as int, entity_id, updated);
        }
        self.entities[i] = (entity_id, updated);
        MoveOutcome::Committed { entity_id, new_position: dest, direction }
    }
}

} // verus!
