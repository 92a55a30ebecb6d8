//! Gem collection tests and the gem-collecting message flow.

use gemgame::coords::TileCoords;
use gemgame::entities::{Direction, Entity, FacialExpression, HairStyle, Variety};
use gemgame::game_state::GameState;
use gemgame::gems::{Collection, Gem};
use gemgame::messages::FromServer;
use gemgame::my_entity::MyEntity;
use gemgame::networking::{ConnectionTrait, Error};

#[test]
fn collection_starts_empty() {
    let collection = Collection::default();
    assert_eq!(collection.get_quantity(Gem::Emerald), 0);
    assert_eq!(collection.get_quantity(Gem::Ruby), 0);
    assert_eq!(collection.get_quantity(Gem::Diamond), 0);
}

#[test]
fn increase_and_decrease_change_one_kind_only() {
    let mut collection = Collection::default();
    collection.increase_quantity(Gem::Ruby, 12);
    assert_eq!(collection.get_quantity(Gem::Ruby), 12);
    assert_eq!(collection.get_quantity(Gem::Emerald), 0);
    assert_eq!(collection.get_quantity(Gem::Diamond), 0);

    collection.increase_quantity(Gem::Ruby, 3);
    assert_eq!(collection.get_quantity(Gem::Ruby), 15);

    collection.decrease_quantity(Gem::Ruby, 5);
    assert_eq!(collection.get_quantity(Gem::Ruby), 10);
    assert_eq!(collection.get_quantity(Gem::Emerald), 0);
}

#[test]
fn from_quantities_reconstructs() {
    let collection = Collection::from_quantities(1, 2, 3);
    assert_eq!(collection.get_quantity(Gem::Emerald), 1);
    assert_eq!(collection.get_quantity(Gem::Ruby), 2);
    assert_eq!(collection.get_quantity(Gem::Diamond), 3);
}

struct NullConnection;

impl ConnectionTrait for NullConnection {
    fn send_bytes(&mut self, _bytes: Vec<u8>) -> Result<(), Error> {
        Ok(())
    }

    fn receive_bytes(&mut self) -> Result<Option<Vec<u8>>, Error> {
        Ok(None)
    }
}

#[test]
fn collected_gems_update_own_entity() {
    let entity = Entity {
        pos: TileCoords { x: 0, y: 0 },
        variety: Variety::Human {
            direction: Direction::Down,
            facial_expression: FacialExpression::Neutral,
            hair_style: HairStyle::Fringe,
        },
        gem_collection: Collection::default(),
        bombs_placed_count: 0,
    };
    let mut state = GameState::new(NullConnection, MyEntity::new(entity));

    state.handle_message_from_server(FromServer::YouCollectedGems {
        gem_type: Gem::Diamond,
        quantity_increase: 4,
    });
    assert_eq!(state.my_entity.contained.gem_collection.get_quantity(Gem::Diamond), 4);
    assert_eq!(state.my_entity.contained.gem_collection.get_quantity(Gem::Ruby), 0);
}
