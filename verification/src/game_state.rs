//! The client's in-game state: its connection, its own predicted entity,
//! and its partial map, together with the handling of every message the
//! server can send.

use vstd::prelude::*;

use crate::client_map::{ClientMap, ClientMapView, pos_free};
use crate::coords::{tile_chunk, tile_index_in_chunk};
use crate::entities::{can_step, entity_facing, stepped, Direction, Entity};
use crate::gems::Gem;
use crate::messages::{from_server_wf, FromServer};
use crate::my_entity::MyEntity;
use crate::networking::{send_to_server, ConnectionTrait, Error};

verus! {

/// Identifies a texture asset the game requires. Asset loading itself is an
/// external collaborator; the library only names the assets.
#[derive(Clone, Copy, Debug, PartialEq, Eq, Hash, Structural)]
pub enum TextureKey {
    Tiles,
    Entities,
    Bombs,
    Ui,
}

impl TextureKey {
    /// The file name of this texture within the asset directory.
    pub fn path(&self) -> (r: &'static str)
        ensures
            (match self {
                TextureKey::Tiles => r@ == "tileset.png"@,
                TextureKey::Entities => r@ == "entities.png"@,
                TextureKey::Bombs => r@ == "bombs.png"@,
                TextureKey::Ui => r@ == "ui.png"@,
            }),
    {
        match self {
            TextureKey::Tiles => "tileset.png",
            TextureKey::Entities => "entities.png",
            TextureKey::Bombs => "bombs.png",
            TextureKey::Ui => "ui.png",
        }
    }
}

/// The client's in-game state: the connection to the server, the client's
/// own player entity, and the partial world map.
pub struct GameState<C: ConnectionTrait> {
    /// Connection with the remote server.
    pub connection: C,
    /// This client's player character entity.
    pub my_entity: MyEntity,
    /// The current world map that the player entity is in.
    pub map: ClientMap,
}

impl<C: ConnectionTrait> GameState<C> {
    /// Enter the game with an established connection and the entity the
    /// server's welcome carried. The map starts empty and fills on demand.
    pub fn new(connection: C, my_entity: MyEntity) -> (r: GameState<C>)
        ensures
            r.my_entity == my_entity,
            r.map.wf(),
            r.map@ == (ClientMapView {
                loaded: Map::empty(),
                needed: Set::empty(),
                requested: Set::empty(),
                entities: Map::empty(),
            }),
    {
        GameState { connection, my_entity, map: ClientMap::new() }
    }

    /// Apply one message from the server to the client's state. The
    /// server's welcome is handled at connection start and must not recur.
    pub fn handle_message_from_server(&mut self, msg: FromServer)
        requires
            old(self).map.wf(),
            !(msg matches FromServer::Welcome { .. }),
            from_server_wf(msg),
            (msg matches FromServer::YouCollectedGems { gem_type, quantity_increase } ==> old(
                self,
            ).my_entity.contained.gem_collection.quantity(gem_type) + quantity_increase
                <= u32::MAX),
        ensures
            final(self).map.wf(),
            (match msg {
                FromServer::Welcome { .. } => true,
                FromServer::ProvideChunk(coords, chunk) => {
                    &&& final(self).map@.loaded == old(self).map@.loaded.insert(coords, chunk@)
                    &&& final(self).map@.needed == old(self).map@.needed.remove(coords)
                    &&& final(self).map@.requested == old(self).map@.requested.remove(coords)
                    &&& final(self).map@.entities == old(self).map@.entities
                    &&& final(self).my_entity == old(self).my_entity
                },
                FromServer::ShouldUnloadChunk(coords) => {
                    &&& final(self).map@.loaded == old(self).map@.loaded.remove(coords)
                    &&& final(self).map@.needed == old(self).map@.needed
                    &&& final(self).map@.requested == old(self).map@.requested
                    &&& final(self).map@.entities == old(self).map@.entities
                    &&& final(self).my_entity == old(self).my_entity
                },
                FromServer::ChangeTile(coords, tile) => {
                    &&& final(self).map@.loaded == (if old(self).map@.loaded.contains_key(
                        tile_chunk(coords),
                    ) {
                        old(self).map@.loaded.insert(
                            tile_chunk(coords),
                            old(self).map@.loaded[tile_chunk(coords)].update(
                                tile_index_in_chunk(coords),
                                tile,
                            ),
                        )
                    } else {
                        old(self).map@.loaded
                    })
                    &&& final(self).map@.needed == old(self).map@.needed
                    &&& final(self).map@.requested == old(self).map@.requested
                    &&& final(self).map@.entities == old(self).map@.entities
                    &&& final(self).my_entity == old(self).my_entity
                },
                FromServer::YourEntityMoved { request_number, new_position } => {
                    &&& final(self).map@ == old(self).map@
                    &&& final(self).my_entity.contained == (Entity {
                        pos: new_position,
                        ..old(self).my_entity.contained
                    })
                    &&& final(self).my_entity.next_request_number == old(
                        self,
                    ).my_entity.next_request_number
                    &&& final(self).my_entity.pending_predictions@ == Seq::<(
                        u32,
                        crate::coords::TileCoords,
                    )>::empty()
                },
                FromServer::MoveEntity(id, pos, direction) => {
                    &&& final(self).map@.entities == (if old(self).map@.entities.contains_key(
                        id,
                    ) {
                        old(self).map@.entities.insert(
                            id,
                            (Entity {
                                pos,
                                ..entity_facing(old(self).map@.entities[id], direction)
                            }),
                        )
                    } else {
                        old(self).map@.entities
                    })
                    &&& final(self).map@.loaded == old(self).map@.loaded
                    &&& final(self).map@.needed == old(self).map@.needed
                    &&& final(self).map@.requested == old(self).map@.requested
                    &&& final(self).my_entity == old(self).my_entity
                },
                FromServer::ProvideEntity(id, entity) => {
                    &&& final(self).map@.entities == old(self).map@.entities.insert(id, entity)
                    &&& final(self).map@.loaded == old(self).map@.loaded
                    &&& final(self).map@.needed == old(self).map@.needed
                    &&& final(self).map@.requested == old(self).map@.requested
                    &&& final(self).my_entity == old(self).my_entity
                },
                FromServer::ShouldUnloadEntity(id) => {
                    &&& final(self).map@.entities == old(self).map@.entities.remove(id)
                    &&& final(self).map@.loaded == old(self).map@.loaded
                    &&& final(self).map@.needed == old(self).map@.needed
                    &&& final(self).map@.requested == old(self).map@.requested
                    &&& final(self).my_entity == old(self).my_entity
                },
                FromServer::YouCollectedGems { gem_type, quantity_increase } => {
                    &&& final(self).map@ == old(self).map@
                    &&& final(self).my_entity.contained.gem_collection.quantity(gem_type) == old(
                        self,
                    ).my_entity.contained.gem_collection.quantity(gem_type) + quantity_increase
                    &&& (forall|g: Gem|
                        g != gem_type
                            ==> final(self).my_entity.contained.gem_collection.quantity(g) == old(
                            self,
                        ).my_entity.contained.gem_collection.quantity(g))
                    &&& final(self).my_entity.contained.pos == old(self).my_entity.contained.pos
                    &&& final(self).my_entity.contained.variety == old(
                        self,
                    ).my_entity.contained.variety
                    &&& final(self).my_entity.next_request_number == old(
                        self,
                    ).my_entity.next_request_number
                    &&& final(self).my_entity.pending_predictions == old(
                        self,
                    ).my_entity.pending_predictions
                },
            }),
    {
        match msg {
            FromServer::Welcome { .. } => {
                // Excluded by the caller: the welcome is consumed during
                // connection establishment, before the game state exists.
            },
            FromServer::ProvideChunk(coords, chunk) => {
                self.map.provide_chunk(coords, chunk);
            },
            FromServer::ShouldUnloadChunk(coords) => {
                self.map.remove_chunk(coords);
            },
            FromServer::ChangeTile(coords, tile) => {
                if self.map.is_tile_loaded(coords) {
                    self.map.set_loaded_tile_at(coords, tile);
                }
            },
            FromServer::YourEntityMoved { request_number, new_position } => {
                self.my_entity.received_movement_reconciliation(request_number, new_position);
            },
            FromServer::MoveEntity(id, pos, direction) => {
                self.map.move_remote_entity(id, pos, direction);
            },
            FromServer::ProvideEntity(id, entity) => {
                self.map.add_entity(id, entity);
            },
            FromServer::ShouldUnloadEntity(id) => {
                self.map.remove_entity(id);
            },
            FromServer::YouCollectedGems { gem_type, quantity_increase } => {
                self.my_entity.contained.gem_collection.increase_quantity(
                    gem_type,
                    quantity_increase,
                );
            },
        }
    }

    /// Handle one directional input: predict the move locally if the
    /// destination is free, and announce it to the server. A blocked or
    /// not-yet-loaded destination sends nothing and always succeeds.
    pub fn handle_input(&mut self, direction: Direction) -> (r: Result<(), Error>)
        requires
            old(self).map.wf(),
            can_step(old(self).my_entity.contained.pos, direction),
            old(self).my_entity.next_request_number < u32::MAX,
        ensures
            final(self).map.wf(),
            final(self).map@.loaded == old(self).map@.loaded,
            final(self).map@.requested == old(self).map@.requested,
            final(self).map@.entities == old(self).map@.entities,
            final(self).map@.needed == (if old(self).map@.loaded.contains_key(
                tile_chunk(stepped(old(self).my_entity.contained.pos, direction)),
            ) {
                old(self).map@.needed
            } else {
                old(self).map@.needed.insert(
                    tile_chunk(stepped(old(self).my_entity.contained.pos, direction)),
                )
            }),
            pos_free(old(self).map@, stepped(old(self).my_entity.contained.pos, direction)) ==> {
                &&& final(self).my_entity.contained == (Entity {
                    pos: stepped(old(self).my_entity.contained.pos, direction),
                    ..entity_facing(old(self).my_entity.contained, direction)
                })
                &&& final(self).my_entity.next_request_number == old(
                    self,
                ).my_entity.next_request_number + 1
            },
            !pos_free(old(self).map@, stepped(old(self).my_entity.contained.pos, direction))
                ==> final(self).my_entity == old(self).my_entity && r is Ok,
    {
        match self.my_entity.move_towards_checked(direction, &mut self.map) {
            Some(message) => send_to_server(&mut self.connection, &message),
            None => Ok(()),
        }
    }

    /// Send one request for every needed chunk not yet requested, marking
    /// each as requested. When every needed chunk has already been
    /// requested, nothing is sent and the flush succeeds.
    pub fn request_needed_chunks(&mut self) -> (r: Result<(), Error>)
        requires
            old(self).map.wf(),
        ensures
            final(self).map.wf(),
            final(self).map@.loaded == old(self).map@.loaded,
            final(self).map@.needed == old(self).map@.needed,
            final(self).map@.entities == old(self).map@.entities,
            final(self).my_entity == old(self).my_entity,
            old(self).map@.requested.subset_of(final(self).map@.requested),
            final(self).map@.requested.subset_of(
                old(self).map@.needed.union(old(self).map@.requested),
            ),
            r is Ok ==> final(self).map@.requested == old(self).map@.needed.union(
                old(self).map@.requested,
            ),
            old(self).map@.needed.subset_of(old(self).map@.requested) ==> r is Ok,
    {
        self.map.request_needed_chunks_from_server(&mut self.connection)
    }
}

} // verus!
