//! The client's partial, predictive view of the world map: the chunks it has
//! loaded, the needed/requested streaming state that fetches absent chunks
//! from the server, and the remote entities within loaded chunks.
//!
//! The streaming state machine keeps three sets per chunk coordinate:
//! `needed` (required for some outstanding read), `requested` (a fetch
//! message has been sent; always a subset of `needed`), and the loaded
//! chunks themselves. A coordinate is never requested twice concurrently,
//! and receiving a chunk clears the coordinate from both sets.

use vstd::prelude::*;

use crate::assoc::{
    assoc_map, assoc_unique, lemma_assoc_contains, lemma_assoc_push, lemma_assoc_remove,
    lemma_assoc_update, lemma_assoc_value, lemma_seq_set_contains, lemma_seq_set_push,
    lemma_seq_set_remove, seq_set,
};
use crate::chunk::{chunk_entry_views, Chunk};
use crate::coords::{tile_chunk, tile_index_in_chunk, ChunkCoords, TileCoords};
use crate::entities::{entity_facing, Direction, Entity, Id};
use crate::messages::ToServer;
use crate::networking::{send_to_server, ConnectionTrait, Error};
use crate::tile::{tile_blocking, Tile};

verus! {

/// The mathematical state of a client map: the tiles of each loaded chunk,
/// the two streaming sets, and the remote entities.
pub struct ClientMapView {
    pub loaded: Map<ChunkCoords, Seq<Tile>>,
    pub needed: Set<ChunkCoords>,
    pub requested: Set<ChunkCoords>,
    pub entities: Map<Id, Entity>,
}

/// Whether an entity may stand on the given position of a map view: the
/// position's chunk is loaded, its tile is not blocking, and no entity
/// occupies it.
pub open spec fn pos_free(v: ClientMapView, t: TileCoords) -> bool {
    &&& v.loaded.contains_key(tile_chunk(t))
    &&& !tile_blocking(v.loaded[tile_chunk(t)][tile_index_in_chunk(t)])
    &&& forall|id: Id| v.entities.contains_key(id) ==> v.entities[id].pos != t
}

/// The client's partial view of the game map.
pub struct ClientMap {
    /// Chunks that are currently loaded, keyed by their coordinates.
    loaded_chunks: Vec<(ChunkCoords, Chunk)>,
    /// Coordinates of chunks that are needed: not loaded, but required to
    /// fulfill some read. A coordinate stays here until its chunk arrives.
    needed_chunks: Vec<ChunkCoords>,
    /// Coordinates of needed chunks whose fetch message has been sent but
    /// whose chunk has not yet been received.
    requested_chunks: Vec<ChunkCoords>,
    /// All remote entities on this map within currently loaded chunks.
    entities: Vec<(Id, Entity)>,
}

impl View for ClientMap {
    type V = ClientMapView;

    closed spec fn view(&self) -> ClientMapView {
        ClientMapView {
            loaded: assoc_map(chunk_entry_views(self.loaded_chunks@)),
            needed: seq_set(self.needed_chunks@),
            requested: seq_set(self.requested_chunks@),
            entities: assoc_map(self.entities@),
        }
    }
}

impl ClientMap {
    /// The map's internal invariant: no duplicate chunk coordinates, needed
    /// coordinates, requested coordinates or entity identifiers; every
    /// loaded chunk holds one tile per cell; and every requested coordinate
    /// is still needed.
    pub closed spec fn wf(&self) -> bool {
        &&& assoc_unique(self.loaded_chunks@)
        &&& assoc_unique(self.entities@)
        &&& (forall|i: int, j: int|
            0 <= i < self.needed_chunks@.len() && 0 <= j < self.needed_chunks@.len() && i != j
                ==> self.needed_chunks@[i] != self.needed_chunks@[j])
        &&& (forall|i: int, j: int|
            0 <= i < self.requested_chunks@.len() && 0 <= j < self.requested_chunks@.len() && i
                != j ==> self.requested_chunks@[i] != self.requested_chunks@[j])
        &&& (forall|i: int|
            0 <= i < self.loaded_chunks@.len() ==> self.loaded_chunks@[i].1.wf())
        &&& seq_set(self.requested_chunks@).subset_of(seq_set(self.needed_chunks@))
    }

    /// The streaming law: a coordinate is never present in `requested`
    /// while absent from `needed`.
    pub proof fn lemma_requested_subset_of_needed(&self)
        requires
            self.wf(),
        ensures
            self@.requested.subset_of(self@.needed),
    {
    }

    /// A new, empty client map: nothing loaded, needed or requested, and no
    /// entities.
    pub fn new() -> (r: ClientMap)
        ensures
            r.wf(),
            r@ == (ClientMapView {
                loaded: Map::<ChunkCoords, Seq<Tile>>::empty(),
                needed: Set::<ChunkCoords>::empty(),
                requested: Set::<ChunkCoords>::empty(),
                entities: Map::<Id, Entity>::empty(),
            }),
    {
        let r = ClientMap {
            loaded_chunks: Vec::new(),
            needed_chunks: Vec::new(),
            requested_chunks: Vec::new(),
            entities: Vec::new(),
        };
        proof {
            assert(chunk_entry_views(r.loaded_chunks@) =~= Seq::<(ChunkCoords, Seq<Tile>)>::empty());
        }
        r
    }

    /// The index of the loaded chunk with the given coordinates, if any.
    fn chunk_index(&self, coords: ChunkCoords) -> (r: Option<usize>)
        ensures
            match r {
                Some(i) => i < self.loaded_chunks@.len() && self.loaded_chunks@[i as int].0
                    == coords,
                None => forall|j: int|
                    0 <= j < self.loaded_chunks@.len() ==> self.loaded_chunks@[j].0 != coords,
            },
    {
        let n = self.loaded_chunks.len();
        let mut i: usize = 0;
        while i < n
            invariant
                n == self.loaded_chunks@.len(),
                i <= n,
                forall|j: int| 0 <= j < i ==> self.loaded_chunks@[j].0 != coords,
            decreases n - i,
        {
            if self.loaded_chunks[i].0 == coords {
                return Some(i);
            }
            i += 1;
        }
        None
    }

    /// The index of the entity with the given identifier, if any.
    fn entity_index(&self, id: Id) -> (r: Option<usize>)
        ensures
            match r {
                Some(i) => i < self.entities@.len() && self.entities@[i as int].0 == id,
                None => forall|j: int|
                    0 <= j < self.entities@.len() ==> self.entities@[j].0 != id,
            },
    {
        let n = self.entities.len();
        let mut i: usize = 0;
        while i < n
            invariant
                n == self.entities@.len(),
                i <= n,
                forall|j: int| 0 <= j < i ==> self.entities@[j].0 != id,
            decreases n - i,
        {
            if self.entities[i].0 == id {
                return Some(i);
            }
            i += 1;
        }
        None
    }

    /// Whether the chunk at the given coordinates is loaded.
    pub fn is_chunk_loaded(&self, coords: ChunkCoords) -> (r: bool)
        ensures
            r == self@.loaded.contains_key(coords),
    {
        proof {
            lemma_assoc_contains(chunk_entry_views(self.loaded_chunks@), coords);
        }
        match self.chunk_index(coords) {
            Some(i) => {
                proof {
                    assert(chunk_entry_views(self.loaded_chunks@)[i as int].0 == coords);
                }
                true
            },
            None => {
                proof {
                    assert forall|j: int| 0 <= j < chunk_entry_views(self.loaded_chunks@).len()
                        implies chunk_entry_views(self.loaded_chunks@)[j].0 != coords by {
                        assert(self.loaded_chunks@[j].0 != coords);
                    };
                }
                false
            },
        }
    }

    /// Whether the chunk containing the given tile is loaded.
    pub fn is_tile_loaded(&self, coords: TileCoords) -> (r: bool)
        ensures
            r == self@.loaded.contains_key(tile_chunk(coords)),
    {
        let chunk_coords = coords.as_chunk_coords();
        proof {
            lemma_assoc_contains(chunk_entry_views(self.loaded_chunks@), chunk_coords);
        }
        match self.chunk_index(chunk_coords) {
            Some(i) => {
                proof {
                    assert(chunk_entry_views(self.loaded_chunks@)[i as int].0 == chunk_coords);
                }
                true
            },
            None => {
                proof {
                    assert forall|j: int| 0 <= j < chunk_entry_views(self.loaded_chunks@).len()
                        implies chunk_entry_views(self.loaded_chunks@)[j].0 != chunk_coords by {
                        assert(self.loaded_chunks@[j].0 != chunk_coords);
                    };
                }
                false
            },
        }
    }

    /// The tile at the given coordinates, if its chunk is loaded.
    pub fn loaded_tile_at(&self, coords: TileCoords) -> (r: Option<Tile>)
        requires
            self.wf(),
        ensures
            r == (if self@.loaded.contains_key(tile_chunk(coords)) {
                Some(self@.loaded[tile_chunk(coords)][tile_index_in_chunk(coords)])
            } else {
                None::<Tile>
            }),
    {
        let chunk_coords = coords.as_chunk_coords();
        proof {
            lemma_assoc_contains(chunk_entry_views(self.loaded_chunks@), chunk_coords);
        }
        match self.chunk_index(chunk_coords) {
            Some(i) => {
                proof {
                    assert(assoc_unique(chunk_entry_views(self.loaded_chunks@))) by {
                        assert(forall|a: int, b: int|
                            0 <= a < self.loaded_chunks@.len() && 0 <= b
                                < self.loaded_chunks@.len() && a != b ==> chunk_entry_views(
                                self.loaded_chunks@,
                            )[a].0 == self.loaded_chunks@[a].0 && chunk_entry_views(
                                self.loaded_chunks@,
                            )[b].0 == self.loaded_chunks@[b].0);
                    };
                    lemma_assoc_value(chunk_entry_views(self.loaded_chunks@), i as int);
                }
                let offset = coords.as_chunk_offset_coords();
                let tile = self.loaded_chunks[i].1.tile_at_offset(offset);
                Some(tile)
            },
            None => {
                proof {
                    assert forall|j: int| 0 <= j < chunk_entry_views(self.loaded_chunks@).len()
                        implies chunk_entry_views(self.loaded_chunks@)[j].0 != chunk_coords by {
                        assert(self.loaded_chunks@[j].0 != chunk_coords);
                    };
                }
                None
            },
        }
    }

    /// Attempt to get the tile at the given coordinates. If the tile's chunk
    /// is not loaded, its coordinates are marked as needed (idempotently)
    /// and the read returns nothing rather than blocking.
    pub fn tile_at(&mut self, coords: TileCoords) -> (r: Option<Tile>)
        requires
            old(self).wf(),
        ensures
            final(self).wf(),
            final(self)@.loaded == old(self)@.loaded,
            final(self)@.requested == old(self)@.requested,
            final(self)@.entities == old(self)@.entities,
            final(self)@.needed == (if old(self)@.loaded.contains_key(tile_chunk(coords)) {
                old(self)@.needed
            } else {
                old(self)@.needed.insert(tile_chunk(coords))
            }),
            r == (if old(self)@.loaded.contains_key(tile_chunk(coords)) {
                Some(old(self)@.loaded[tile_chunk(coords)][tile_index_in_chunk(coords)])
            } else {
                None::<Tile>
            }),
    {
        if !self.is_tile_loaded(coords) {
            let chunk_coords = coords.as_chunk_coords();
            let mut present = false;
            let n = self.needed_chunks.len();
            let mut i: usize = 0;
            while i < n
                invariant
                    n == self.needed_chunks@.len(),
                    i <= n,
                    present <==> exists|j: int| 0 <= j < i && self.needed_chunks@[j]
                        == chunk_coords,
                decreases n - i,
            {
                if self.needed_chunks[i] == chunk_coords {
                    present = true;
                }
                i += 1;
            }
            proof {
                lemma_seq_set_contains(self.needed_chunks@, chunk_coords);
            }
            if !present {
                proof {
                    lemma_seq_set_push(self.needed_chunks@, chunk_coords);
                }
                self.needed_chunks.push(chunk_coords);
            } else {
                proof {
                    assert(old(self)@.needed.insert(chunk_coords) =~= old(self)@.needed);
                }
            }
        }
        self.loaded_tile_at(coords)
    }

    /// Install a chunk received from the server: its coordinates leave both
    /// the needed and requested sets, and the chunk becomes loaded.
    pub fn provide_chunk(&mut self, coords: ChunkCoords, chunk: Chunk)
        requires
            old(self).wf(),
            chunk.wf(),
        ensures
            final(self).wf(),
            final(self)@.loaded == old(self)@.loaded.insert(coords, chunk@),
            final(self)@.needed == old(self)@.needed.remove(coords),
            final(self)@.requested == old(self)@.requested.remove(coords),
            final(self)@.entities == old(self)@.entities,
    {
        remove_coords(&mut self.needed_chunks, coords);
        remove_coords(&mut self.requested_chunks, coords);
        proof {
            lemma_assoc_contains(chunk_entry_views(self.loaded_chunks@), coords);
        }
        match self.chunk_index(coords) {
            Some(i) => {
                proof {
                    let views = chunk_entry_views(self.loaded_chunks@);
                    assert(assoc_unique(views)) by {
                        assert(forall|a: int, b: int|
                            0 <= a < self.loaded_chunks@.len() && 0 <= b
                                < self.loaded_chunks@.len() && a != b ==> views[a].0
                                == self.loaded_chunks@[a].0 && views[b].0
                                == self.loaded_chunks@[b].0);
                    };
                    lemma_assoc_update(views, i as int, coords, chunk@);
                }
                self.loaded_chunks[i] = (coords, chunk);
                proof {
                    assert(chunk_entry_views(self.loaded_chunks@) =~= chunk_entry_views(
                        old(self).loaded_chunks@,
                    ).update(i as int, (coords, chunk@)));
                }
            },
            None => {
                proof {
                    assert forall|j: int| 0 <= j < chunk_entry_views(self.loaded_chunks@).len()
                        implies chunk_entry_views(self.loaded_chunks@)[j].0 != coords by {
                        assert(self.loaded_chunks@[j].0 != coords);
                    };
                    lemma_assoc_push(chunk_entry_views(self.loaded_chunks@), coords, chunk@);
                }
                let ghost before = self.loaded_chunks@;
                self.loaded_chunks.push((coords, chunk));
                proof {
                    assert(chunk_entry_views(self.loaded_chunks@) =~= chunk_entry_views(
                        before,
                    ).push((coords, chunk@)));
                }
            },
        }
    }

    /// Drop the chunk at the given coordinates, if it is loaded.
    pub fn remove_chunk(&mut self, coords: ChunkCoords)
        requires
            old(self).wf(),
        ensures
            final(self).wf(),
            final(self)@.loaded == old(self)@.loaded.remove(coords),
            final(self)@.needed == old(self)@.needed,
            final(self)@.requested == old(self)@.requested,
            final(self)@.entities == old(self)@.entities,
    {
        proof {
            lemma_assoc_contains(chunk_entry_views(self.loaded_chunks@), coords);
        }
        match self.chunk_index(coords) {
            Some(i) => {
                proof {
                    let views = chunk_entry_views(self.loaded_chunks@);
                    assert(assoc_unique(views)) by {
                        assert(forall|a: int, b: int|
                            0 <= a < self.loaded_chunks@.len() && 0 <= b
                                < self.loaded_chunks@.len() && a != b ==> views[a].0
                                == self.loaded_chunks@[a].0 && views[b].0
                                == self.loaded_chunks@[b].0);
                    };
                    lemma_assoc_remove(views, i as int);
                }
                let ghost before = self.loaded_chunks@;
                self.loaded_chunks.remove(i);
                proof {
                    assert(chunk_entry_views(self.loaded_chunks@) =~= chunk_entry_views(
                        before,
                    ).remove(i as int));
                }
            },
            None => {
                proof {
                    assert forall|j: int| 0 <= j < chunk_entry_views(self.loaded_chunks@).len()
                        implies chunk_entry_views(self.loaded_chunks@)[j].0 != coords by {
                        assert(self.loaded_chunks@[j].0 != coords);
                    };
                    assert(old(self)@.loaded.remove(coords) =~= old(self)@.loaded);
                }
            },
        }
    }

    /// Replace the tile at the given coordinates, whose chunk must be
    /// loaded.
    pub fn set_loaded_tile_at(&mut self, coords: TileCoords, tile: Tile)
        requires
            old(self).wf(),
            old(self)@.loaded.contains_key(tile_chunk(coords)),
        ensures
            final(self).wf(),
            final(self)@.loaded == old(self)@.loaded.insert(
                tile_chunk(coords),
                old(self)@.loaded[tile_chunk(coords)].update(tile_index_in_chunk(coords), tile),
            ),
            final(self)@.needed == old(self)@.needed,
            final(self)@.requested == old(self)@.requested,
            final(self)@.entities == old(self)@.entities,
    {
        let chunk_coords = coords.as_chunk_coords();
        proof {
            lemma_assoc_contains(chunk_entry_views(self.loaded_chunks@), chunk_coords);
            assert(exists|j: int|
                0 <= j < chunk_entry_views(self.loaded_chunks@).len() && chunk_entry_views(
                    self.loaded_chunks@,
                )[j].0 == chunk_coords);
            let j = choose|j: int|
                0 <= j < chunk_entry_views(self.loaded_chunks@).len() && chunk_entry_views(
                    self.loaded_chunks@,
                )[j].0 == chunk_coords;
            assert(self.loaded_chunks@[j].0 == chunk_coords);
        }
        match self.chunk_index(chunk_coords) {
            Some(i) => {
                proof {
                    let views = chunk_entry_views(self.loaded_chunks@);
                    assert(assoc_unique(views)) by {
                        assert(forall|a: int, b: int|
                            0 <= a < self.loaded_chunks@.len() && 0 <= b
                                < self.loaded_chunks@.len() && a != b ==> views[a].0
                                == self.loaded_chunks@[a].0 && views[b].0
                                == self.loaded_chunks@[b].0);
                    };
                    lemma_assoc_value(views, i as int);
                }
                let offset = coords.as_chunk_offset_coords();
                let mut entry = self.loaded_chunks.remove(i);
                entry.1.set_tile_at_offset(offset, tile);
                proof {
                    let views = chunk_entry_views(old(self).loaded_chunks@);
                    lemma_assoc_update(views, i as int, chunk_coords, entry.1@);
                }
                let ghost mid = self.loaded_chunks@;
                self.loaded_chunks.push(entry);
                proof {
                    assert(chunk_entry_views(self.loaded_chunks@) =~= chunk_entry_views(
                        old(self).loaded_chunks@,
                    ).update(i as int, (chunk_coords, entry.1@)).remove(i as int).push(
                        (chunk_coords, entry.1@),
                    ));
                    let u = chunk_entry_views(old(self).loaded_chunks@).update(
                        i as int,
                        (chunk_coords, entry.1@),
                    );
                    assert(assoc_unique(u));
                    lemma_assoc_remove(u, i as int);
                    lemma_assoc_push(u.remove(i as int), chunk_coords, entry.1@);
                    assert(assoc_map(u).remove(chunk_coords).insert(chunk_coords, entry.1@)
                        =~= assoc_map(u));
                    assert(forall|a: int, b: int|
                        0 <= a < u.remove(i as int).len() && 0 <= b < u.remove(i as int).len()
                            && a != b ==> u.remove(i as int)[a].0 != u.remove(i as int)[b].0);
                    assert forall|j: int| 0 <= j < u.remove(i as int).len()
                        implies u.remove(i as int)[j].0 != chunk_coords by {
                        if j < i {
                            assert(u.remove(i as int)[j] == u[j]);
                        } else {
                            assert(u.remove(i as int)[j] == u[j + 1]);
                        }
                    };
                }
            },
            None => {
                proof {
                    assert(false);
                }
            },
        }
    }

    /// The coordinates of every loaded chunk.
    pub fn get_loaded_chunk_coords(&self) -> (r: Vec<ChunkCoords>)
        ensures
            forall|i: int| 0 <= i < r@.len() ==> self@.loaded.contains_key(r@[i]),
            forall|c: ChunkCoords| self@.loaded.contains_key(c) ==> r@.contains(c),
    {
        let mut coords: Vec<ChunkCoords> = Vec::new();
        let n = self.loaded_chunks.len();
        let mut i: usize = 0;
        while i < n
            invariant
                n == self.loaded_chunks@.len(),
                i <= n,
                coords@.len() == i,
                forall|j: int| 0 <= j < i ==> coords@[j] == self.loaded_chunks@[j].0,
            decreases n - i,
        {
            coords.push(self.loaded_chunks[i].0);
            i += 1;
        }
        proof {
            assert forall|j: int| 0 <= j < coords@.len() implies self@.loaded.contains_key(
                coords@[j],
            ) by {
                lemma_assoc_contains(chunk_entry_views(self.loaded_chunks@), coords@[j]);
                assert(chunk_entry_views(self.loaded_chunks@)[j].0 == coords@[j]);
            };
            assert forall|c: ChunkCoords| self@.loaded.contains_key(c) implies coords@.contains(
                c,
            ) by {
                lemma_assoc_contains(chunk_entry_views(self.loaded_chunks@), c);
                let j = choose|j: int|
                    0 <= j < chunk_entry_views(self.loaded_chunks@).len() && chunk_entry_views(
                        self.loaded_chunks@,
                    )[j].0 == c;
                assert(self.loaded_chunks@[j].0 == c);
                assert(coords@[j] == c);
            };
        }
        coords
    }

    /// Send one chunk request for every needed chunk that has not been
    /// requested yet, and mark each as requested. No chunk coordinate is
    /// ever requested twice concurrently. If sending fails, the coordinates
    /// already sent stay marked, so they will not be requested again. An
    /// error can only come from the transport: when every needed chunk has
    /// already been requested, nothing is sent and the flush succeeds.
    pub fn request_needed_chunks_from_server<C: ConnectionTrait>(&mut self, ws: &mut C) -> (r:
        Result<(), Error>)
        requires
            old(self).wf(),
        ensures
            final(self).wf(),
            final(self)@.loaded == old(self)@.loaded,
            final(self)@.needed == old(self)@.needed,
            final(self)@.entities == old(self)@.entities,
            old(self)@.requested.subset_of(final(self)@.requested),
            final(self)@.requested.subset_of(old(self)@.needed.union(old(self)@.requested)),
            r is Ok ==> final(self)@.requested == old(self)@.needed.union(old(self)@.requested),
            old(self)@.needed.subset_of(old(self)@.requested) ==> r is Ok,
    {
        let n = self.needed_chunks.len();
        let mut i: usize = 0;
        while i < n
            invariant
                self.wf(),
                n == self.needed_chunks@.len(),
                i <= n,
                self.loaded_chunks@ == old(self).loaded_chunks@,
                self.needed_chunks@ == old(self).needed_chunks@,
                self.entities@ == old(self).entities@,
                self@.requested =~= old(self)@.requested.union(
                    seq_set(self.needed_chunks@.take(i as int)),
                ),
            decreases n - i,
        {
            let coords = self.needed_chunks[i];
            let mut present = false;
            let m = self.requested_chunks.len();
            let mut k: usize = 0;
            while k < m
                invariant
                    m == self.requested_chunks@.len(),
                    k <= m,
                    present <==> exists|j: int| 0 <= j < k && self.requested_chunks@[j] == coords,
                decreases m - k,
            {
                if self.requested_chunks[k] == coords {
                    present = true;
                }
                k += 1;
            }
            proof {
                lemma_seq_set_contains(self.requested_chunks@, coords);
            }
            if !present {
                proof {
                    // Something is about to be sent, so not everything
                    // needed was already requested.
                    if old(self)@.needed.subset_of(old(self)@.requested) {
                        lemma_seq_set_contains(self.needed_chunks@, coords);
                        assert(old(self)@.needed.contains(coords));
                        assert(self@.requested.contains(coords));
                        assert(false);
                    }
                }
                let result = send_to_server(ws, &ToServer::RequestChunk(coords));
                if let Err(e) = result {
                    proof {
                        lemma_subsets_after_partial(
                            old(self)@.requested,
                            old(self)@.needed,
                            self@.requested,
                            self.needed_chunks@,
                            i as int,
                        );
                    }
                    return Err(e);
                }
                proof {
                    lemma_seq_set_push(self.requested_chunks@, coords);
                    lemma_seq_set_contains(self.needed_chunks@, coords);
                }
                self.requested_chunks.push(coords);
            }
            proof {
                assert(self.needed_chunks@.take(i + 1).drop_last() =~= self.needed_chunks@.take(
                    i as int,
                ));
                assert(self@.requested =~= old(self)@.requested.union(
                    seq_set(self.needed_chunks@.take(i + 1)),
                ));
            }
            i += 1;
        }
        proof {
            assert(self.needed_chunks@.take(n as int) =~= self.needed_chunks@);
            lemma_subsets_after_partial(
                old(self)@.requested,
                old(self)@.needed,
                self@.requested,
                self.needed_chunks@,
                n as int,
            );
        }
        Ok(())
    }

    /// Whether an entity may move onto the given position: its tile is
    /// loaded and not blocking, and no remote entity occupies it. A read of
    /// an unloaded tile marks its chunk as needed, and the position counts
    /// as not free until the chunk arrives.
    pub fn is_position_free(&mut self, coords: TileCoords) -> (r: bool)
        requires
            old(self).wf(),
        ensures
            final(self).wf(),
            final(self)@.loaded == old(self)@.loaded,
            final(self)@.requested == old(self)@.requested,
            final(self)@.entities == old(self)@.entities,
            final(self)@.needed == (if old(self)@.loaded.contains_key(tile_chunk(coords)) {
                old(self)@.needed
            } else {
                old(self)@.needed.insert(tile_chunk(coords))
            }),
            r == pos_free(old(self)@, coords),
    {
        let tile = self.tile_at(coords);
        match tile {
            None => false,
            Some(t) => {
                if t.blocking() {
                    false
                } else {
                    let n = self.entities.len();
                    let mut i: usize = 0;
                    let mut occupied = false;
                    while i < n
                        invariant
                            n == self.entities@.len(),
                            i <= n,
                            occupied <==> exists|j: int| 0 <= j < i && self.entities@[j].1.pos
                                == coords,
                        decreases n - i,
                    {
                        if self.entities[i].1.pos == coords {
                            occupied = true;
                        }
                        i += 1;
                    }
                    proof {
                        if occupied {
                            let j = choose|j: int|
                                0 <= j < self.entities@.len() && self.entities@[j].1.pos == coords;
                            lemma_assoc_value(self.entities@, j);
                        } else {
                            assert forall|id: Id| self@.entities.contains_key(id)
                                implies self@.entities[id].pos != coords by {
                                lemma_assoc_contains(self.entities@, id);
                                let j = choose|j: int|
                                    0 <= j < self.entities@.len() && self.entities@[j].0 == id;
                                lemma_assoc_value(self.entities@, j);
                            };
                        }
                    }
                    !occupied
                }
            },
        }
    }

    /// The entity with the given identifier, if it is on this map.
    pub fn entity_by_id(&self, id: Id) -> (r: Option<Entity>)
        requires
            self.wf(),
        ensures
            r == (if self@.entities.contains_key(id) {
                Some(self@.entities[id])
            } else {
                None::<Entity>
            }),
    {
        proof {
            lemma_assoc_contains(self.entities@, id);
        }
        match self.entity_index(id) {
            Some(i) => {
                proof {
                    lemma_assoc_value(self.entities@, i as int);
                }
                Some(self.entities[i].1)
            },
            None => None,
        }
    }

    /// Add an entity to the map, replacing any previous entity with the same
    /// identifier.
    pub fn add_entity(&mut self, id: Id, entity: Entity)
        requires
            old(self).wf(),
        ensures
            final(self).wf(),
            final(self)@.loaded == old(self)@.loaded,
            final(self)@.needed == old(self)@.needed,
            final(self)@.requested == old(self)@.requested,
            final(self)@.entities == old(self)@.entities.insert(id, entity),
    {
        proof {
            lemma_assoc_contains(self.entities@, id);
        }
        match self.entity_index(id) {
            Some(i) => {
                proof {
                    lemma_assoc_update(self.entities@, i as int, id, entity);
                }
                self.entities[i] = (id, entity);
            },
            None => {
                proof {
                    lemma_assoc_push(self.entities@, id, entity);
                }
                self.entities.push((id, entity));
            },
        }
    }

    /// Remove and return the entity with the given identifier, if any.
    pub fn remove_entity(&mut self, id: Id) -> (r: Option<Entity>)
        requires
            old(self).wf(),
        ensures
            final(self).wf(),
            final(self)@.loaded == old(self)@.loaded,
            final(self)@.needed == old(self)@.needed,
            final(self)@.requested == old(self)@.requested,
            final(self)@.entities == old(self)@.entities.remove(id),
            r == (if old(self)@.entities.contains_key(id) {
                Some(old(self)@.entities[id])
            } else {
                None::<Entity>
            }),
    {
        proof {
            lemma_assoc_contains(self.entities@, id);
        }
        match self.entity_index(id) {
            Some(i) => {
                proof {
                    lemma_assoc_value(self.entities@, i as int);
                    lemma_assoc_remove(self.entities@, i as int);
                }
                let entry = self.entities.remove(i);
                Some(entry.1)
            },
            None => {
                proof {
                    assert(old(self)@.entities.remove(id) =~= old(self)@.entities);
                }
                None
            },
        }
    }

    /// Move the entity with the given identifier to a new position, if it is
    /// on this map; an unknown identifier changes nothing.
    pub fn set_entity_position_by_id(&mut self, id: Id, new_pos: TileCoords)
        requires
            old(self).wf(),
        ensures
            final(self).wf(),
            final(self)@.loaded == old(self)@.loaded,
            final(self)@.needed == old(self)@.needed,
            final(self)@.requested == old(self)@.requested,
            final(self)@.entities == (if old(self)@.entities.contains_key(id) {
                old(self)@.entities.insert(
                    id,
                    (Entity { pos: new_pos, ..old(self)@.entities[id] }),
                )
            } else {
                old(self)@.entities
            }),
    {
        proof {
            lemma_assoc_contains(self.entities@, id);
        }
        match self.entity_index(id) {
            Some(i) => {
                proof {
                    lemma_assoc_value(self.entities@, i as int);
                }
                let entity = self.entities[i].1;
                let updated = Entity { pos: new_pos, ..entity };
                proof {
                    lemma_assoc_update(self.entities@, i as int, id, updated);
                }
                self.entities[i] = (id, updated);
            },
            None => {},
        }
    }

    /// Move the entity with the given identifier to a new position facing
    /// the given direction, if it is on this map; an unknown identifier
    /// changes nothing.
    pub fn move_remote_entity(&mut self, id: Id, new_pos: TileCoords, direction: Direction)
        requires
            old(self).wf(),
        ensures
            final(self).wf(),
            final(self)@.loaded == old(self)@.loaded,
            final(self)@.needed == old(self)@.needed,
            final(self)@.requested == old(self)@.requested,
            final(self)@.entities == (if old(self)@.entities.contains_key(id) {
                old(self)@.entities.insert(
                    id,
                    (Entity {
                        pos: new_pos,
                        ..entity_facing(old(self)@.entities[id], direction)
                    }),
                )
            } else {
                old(self)@.entities
            }),
    {
        proof {
            lemma_assoc_contains(self.entities@, id);
        }
        match self.entity_index(id) {
            Some(i) => {
                proof {
                    lemma_assoc_value(self.entities@, i as int);
                }
                let mut entity = self.entities[i].1;
                entity.face(direction);
                let updated = Entity { pos: new_pos, ..entity };
                proof {
                    lemma_assoc_update(self.entities@, i as int, id, updated);
                }
                self.entities[i] = (id, updated);
            },
            None => {},
        }
    }
}

/// Remove the given coordinates from a duplicate-free coordinate list, if
/// present.
fn remove_coords(v: &mut Vec<ChunkCoords>, coords: ChunkCoords)
    requires
        forall|i: int, j: int|
            0 <= i < old(v)@.len() && 0 <= j < old(v)@.len() && i != j ==> old(v)@[i] != old(
                v,
            )@[j],
    ensures
        seq_set(final(v)@) == seq_set(old(v)@).remove(coords),
        forall|i: int, j: int|
            0 <= i < final(v)@.len() && 0 <= j < final(v)@.len() && i != j ==> final(v)@[i]
                != final(v)@[j],
{
    let n = v.len();
    let mut i: usize = 0;
    while i < n
        invariant
            v@ == old(v)@,
            n == v@.len(),
            i <= n,
            forall|a: int, b: int|
                0 <= a < old(v)@.len() && 0 <= b < old(v)@.len() && a != b ==> old(v)@[a] != old(
                    v,
                )@[b],
            forall|j: int| 0 <= j < i ==> v@[j] != coords,
        decreases n - i,
    {
        if v[i] == coords {
            proof {
                assert forall|j: int| 0 <= j < v@.len() && j != i
                    implies v@[j] != v@[i as int] by {
                    assert(old(v)@[j] != old(v)@[i as int]);
                };
                lemma_seq_set_remove(v@, i as int);
            }
            let ghost before = v@;
            v.remove(i);
            proof {
                assert forall|a: int, b: int|
                    0 <= a < v@.len() && 0 <= b < v@.len() && a != b implies v@[a] != v@[b] by {
                    let a0 = if a < i { a } else { a + 1 };
                    let b0 = if b < i { b } else { b + 1 };
                    assert(v@[a] == before[a0] && v@[b] == before[b0]);
                    assert(before[a0] != before[b0]);
                };
            }
            return ;
        }
        i += 1;
    }
    proof {
        lemma_seq_set_contains(v@, coords);
        assert(seq_set(v@).remove(coords) =~= seq_set(v@));
    }
}

/// After requesting a prefix of the needed list, the requested set sits
/// between its old value and the full union.
proof fn lemma_subsets_after_partial(
    old_requested: Set<ChunkCoords>,
    old_needed: Set<ChunkCoords>,
    requested: Set<ChunkCoords>,
    needed_seq: Seq<ChunkCoords>,
    i: int,
)
    requires
        0 <= i <= needed_seq.len(),
        old_needed == seq_set(needed_seq),
        requested == old_requested.union(seq_set(needed_seq.take(i))),
    ensures
        old_requested.subset_of(requested),
        requested.subset_of(old_needed.union(old_requested)),
{
    assert forall|c: ChunkCoords| requested.contains(c) implies old_needed.union(
        old_requested,
    ).contains(c) by {
        if seq_set(needed_seq.take(i)).contains(c) {
            lemma_seq_set_contains(needed_seq.take(i), c);
            let j = choose|j: int| 0 <= j < needed_seq.take(i).len() && needed_seq.take(i)[j] == c;
            assert(needed_seq[j] == c);
            lemma_seq_set_contains(needed_seq, c);
        }
    };
}

} // verus!
