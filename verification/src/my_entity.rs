//! The client's own player entity: optimistic movement prediction against
//! the local partial map, strictly increasing move request numbers, and
//! reconciliation when the server corrects a prediction.
//!
//! States per move: idle, then predicted (the move was applied locally and
//! announced), then either silently confirmed (the server sends nothing) or
//! corrected (the server replies with the true position, and every
//! prediction made from the now-known-stale state is discarded).

use vstd::prelude::*;

use crate::client_map::{pos_free, ClientMap};
use crate::coords::{tile_chunk, TileCoords};
use crate::entities::{can_step, entity_facing, stepped, Direction, Entity};
use crate::messages::ToServer;

verus! {

/// The client's own player character entity and its prediction state.
pub struct MyEntity {
    /// The client's local, optimistic copy of its own entity.
    pub contained: Entity,
    /// The request number the next move announcement will carry; strictly
    /// increasing per connection.
    pub next_request_number: u32,
    /// Predictions announced to the server and not yet contradicted: the
    /// request number sent and the predicted target tile.
    pub pending_predictions: Vec<(u32, TileCoords)>,
}

impl MyEntity {
    /// Wrap the entity received in the server's welcome.
    pub fn new(contained: Entity) -> (r: MyEntity)
        ensures
            r.contained == contained,
            r.next_request_number == 0,
            r.pending_predictions@ == Seq::<(u32, TileCoords)>::empty(),
    {
        MyEntity { contained, next_request_number: 0, pending_predictions: Vec::new() }
    }

    /// Attempt a move one step in the given direction. If the local partial
    /// map shows the destination free, the move is applied immediately
    /// (position and facing), recorded as a pending prediction, and the
    /// announcement to send is returned, carrying the next request number.
    /// If the destination is blocked or not yet loaded, nothing changes and
    /// nothing is sent; reading an unloaded destination marks its chunk as
    /// needed.
    pub fn move_towards_checked(&mut self, direction: Direction, map: &mut ClientMap) -> (r:
        Option<ToServer>)
        requires
            old(map).wf(),
            can_step(old(self).contained.pos, direction),
            old(self).next_request_number < u32::MAX,
        ensures
            final(map).wf(),
            final(map)@.loaded == old(map)@.loaded,
            final(map)@.requested == old(map)@.requested,
            final(map)@.entities == old(map)@.entities,
            final(map)@.needed == (if old(map)@.loaded.contains_key(
                tile_chunk(stepped(old(self).contained.pos, direction)),
            ) {
                old(map)@.needed
            } else {
                old(map)@.needed.insert(tile_chunk(stepped(old(self).contained.pos, direction)))
            }),
            pos_free(old(map)@, stepped(old(self).contained.pos, direction)) ==> {
                &&& final(self).contained == (Entity {
                    pos: stepped(old(self).contained.pos, direction),
                    ..entity_facing(old(self).contained, direction)
                })
                &&& final(self).next_request_number == old(self).next_request_number + 1
                &&& final(self).pending_predictions@ == old(self).pending_predictions@.push(
                    (
                        old(self).next_request_number,
                        stepped(old(self).contained.pos, direction),
                    ),
                )
                &&& r == Some(
                    ToServer::MoveMyEntity {
                        request_number: old(self).next_request_number,
                        direction,
                    },
                )
            },
            !pos_free(old(map)@, stepped(old(self).contained.pos, direction)) ==> *final(self)
                == *old(self) && r == None::<ToServer>,
    {
        let dest = self.contained.pos.moved_towards(direction);
        if map.is_position_free(dest) {
            self.contained.face(direction);
            self.contained.pos = dest;
            let request_number = self.next_request_number;
            self.next_request_number = request_number + 1;
            self.pending_predictions.push((request_number, dest));
            Some(ToServer::MoveMyEntity { request_number, direction })
        } else {
            None
        }
    }

    /// Apply a correction from the server: snap the entity to the
    /// authoritative position it carries and discard every outstanding
    /// prediction, since each was made from state now known stale.
    pub fn received_movement_reconciliation(&mut self, request_number: u32, position: TileCoords)
        ensures
            final(self).contained == (Entity { pos: position, ..old(self).contained }),
            final(self).next_request_number == old(self).next_request_number,
            final(self).pending_predictions@ == Seq::<(u32, TileCoords)>::empty(),
    {
        self.contained.pos = position;
        self.pending_predictions = Vec::new();
    }
}

} // verus!
