//! Core world-state layer of a tile-based multiplayer game: an infinite tile
//! grid partitioned into fixed-size chunks, streamed on demand between an
//! authoritative server and predictive clients.

pub mod assoc;
pub mod chunk;
pub mod client_map;
pub mod coords;
pub mod entities;
pub mod game_state;
pub mod gems;
pub mod generator;
pub mod messages;
pub mod my_entity;
pub mod networking;
pub mod plan;
pub mod server_map;
pub mod tile;
pub mod wire;
pub mod world_map;
