//! Entities: players and other moving objects, their identifiers, facing
//! directions and cosmetic attributes.

use vstd::prelude::*;

use crate::coords::TileCoords;
use crate::gems::Collection;

verus! {

/// A server-generated entity identifier, globally unique for the entity's
/// lifetime. Identifiers sort roughly by creation time.
#[derive(Clone, Copy, Debug, PartialEq, Eq, PartialOrd, Ord, Hash, Structural)]
pub struct Id {
    pub value: u64,
}

/// Direction that an entity is facing or moving. Defaults to 'down'.
#[derive(Clone, Copy, Debug, PartialEq, Eq, Hash, Structural)]
pub enum Direction {
    Up,
    Down,
    Left,
    Right,
}

impl Default for Direction {
    fn default() -> (r: Self)
        ensures
            r == Direction::Down,
    {
        Direction::Down
    }
}

/// Emotional expression of an entity (angry, shocked, etc.) Defaults to
/// 'neutral'.
#[derive(Clone, Copy, Debug, PartialEq, Eq, Hash, Structural)]
pub enum FacialExpression {
    /// Neutral facial expression.
    Neutral,
    /// Angry facial expression (both eyebrows slanted inward).
    Angry,
    /// Shocked/surprised facial expression (mouth opened wide).
    Shocked,
    /// Skeptical/suspicious facial expression (single eyebrow raised).
    Skeptical,
}

impl Default for FacialExpression {
    fn default() -> (r: Self)
        ensures
            r == FacialExpression::Neutral,
    {
        FacialExpression::Neutral
    }
}

/// Hair style of a human entity.
#[derive(Clone, Copy, Debug, PartialEq, Eq, Hash, Structural)]
pub enum HairStyle {
    Quiff,
    Mohawk,
    Fringe,
}

impl Default for HairStyle {
    fn default() -> (r: Self)
        ensures
            r == HairStyle::Quiff,
    {
        HairStyle::Quiff
    }
}

/// The 'variety' of an entity (e.g. human, monster, etc.) together with its
/// variety-specific attributes.
#[derive(Clone, Copy, Debug, PartialEq, Eq, Structural)]
pub enum Variety {
    Human {
        /// Direction that this human entity is facing.
        direction: Direction,
        /// Emotional expression of this entity.
        facial_expression: FacialExpression,
        hair_style: HairStyle,
    },
}

/// A moving object of the world: a position, a facing direction with
/// cosmetic attributes, and game-state counters. Server entities are
/// persisted; client entities are ephemeral projections received over the
/// wire.
#[derive(Clone, Copy, Debug, PartialEq, Eq, Structural)]
pub struct Entity {
    /// The position of the entity within its current map.
    pub pos: TileCoords,
    /// The variety of this entity and its variety-specific attributes.
    pub variety: Variety,
    /// The gems this entity has collected.
    pub gem_collection: Collection,
    /// How many bombs this entity has placed in the world.
    pub bombs_placed_count: u32,
}

/// The direction an entity is facing.
pub open spec fn entity_direction(e: Entity) -> Direction {
    match e.variety {
        Variety::Human { direction, .. } => direction,
    }
}

/// The facial expression of an entity.
pub open spec fn entity_facial_expression(e: Entity) -> FacialExpression {
    match e.variety {
        Variety::Human { facial_expression, .. } => facial_expression,
    }
}

/// The hair style of an entity.
pub open spec fn entity_hair_style(e: Entity) -> HairStyle {
    match e.variety {
        Variety::Human { hair_style, .. } => hair_style,
    }
}

/// The entity with its facing direction replaced and everything else kept.
pub open spec fn entity_facing(e: Entity, direction: Direction) -> Entity {
    match e.variety {
        Variety::Human { facial_expression, hair_style, .. } => Entity {
            variety: Variety::Human { direction, facial_expression, hair_style },
            ..e
        },
    }
}

impl Entity {
    /// The direction this entity is facing.
    pub fn direction(&self) -> (r: Direction)
        ensures
            r == entity_direction(*self),
    {
        match self.variety {
            Variety::Human { direction, .. } => direction,
        }
    }

    /// Turn the entity to face the given direction.
    pub fn face(&mut self, direction: Direction)
        ensures
            *final(self) == entity_facing(*old(self), direction),
    {
        match self.variety {
            Variety::Human { facial_expression, hair_style, .. } => {
                self.variety = Variety::Human { direction, facial_expression, hair_style };
            },
        }
    }
}

/// Whether one step from the given position in the given direction stays
/// within the coordinate range.
pub open spec fn can_step(pos: TileCoords, d: Direction) -> bool {
    match d {
        Direction::Up => pos.y < i32::MAX,
        Direction::Down => pos.y > i32::MIN,
        Direction::Left => pos.x > i32::MIN,
        Direction::Right => pos.x < i32::MAX,
    }
}

/// The position one step from the given position in the given direction.
pub open spec fn stepped(pos: TileCoords, d: Direction) -> TileCoords {
    match d {
        Direction::Up => TileCoords { x: pos.x, y: (pos.y + 1) as i32 },
        Direction::Down => TileCoords { x: pos.x, y: (pos.y - 1) as i32 },
        Direction::Left => TileCoords { x: (pos.x - 1) as i32, y: pos.y },
        Direction::Right => TileCoords { x: (pos.x + 1) as i32, y: pos.y },
    }
}

/// Whether one step from the given position in the given direction stays
/// within the coordinate range.
pub fn check_can_step(pos: TileCoords, d: Direction) -> (r: bool)
    ensures
        r == can_step(pos, d),
{
    match d {
        Direction::Up => pos.y < i32::MAX,
        Direction::Down => pos.y > i32::MIN,
        Direction::Left => pos.x > i32::MIN,
        Direction::Right => pos.x < i32::MAX,
    }
}

impl TileCoords {
    /// The position one step away in the given direction.
    pub fn moved_towards(&self, d: Direction) -> (r: TileCoords)
        requires
            can_step(*self, d),
        ensures
            r == stepped(*self, d),
    {
        match d {
            Direction::Up => TileCoords { x: self.x, y: self.y + 1 },
            Direction::Down => TileCoords { x: self.x, y: self.y - 1 },
            Direction::Left => TileCoords { x: self.x - 1, y: self.y },
            Direction::Right => TileCoords { x: self.x + 1, y: self.y },
        }
    }
}

/// Index of a direction within the wire and storage encodings.
pub open spec fn direction_index(d: Direction) -> int {
    match d {
        Direction::Up => 0,
        Direction::Down => 1,
        Direction::Left => 2,
        Direction::Right => 3,
    }
}

/// The direction denoted by an encoded index, if any.
pub open spec fn direction_from_index(i: int) -> Option<Direction> {
    if i == 0 {
        Some(Direction::Up)
    } else if i == 1 {
        Some(Direction::Down)
    } else if i == 2 {
        Some(Direction::Left)
    } else if i == 3 {
        Some(Direction::Right)
    } else {
        None
    }
}

impl Direction {
    /// Encode this direction as its index.
    pub fn index(&self) -> (r: u8)
        ensures
            r == direction_index(*self),
    {
        match self {
            Direction::Up => 0,
            Direction::Down => 1,
            Direction::Left => 2,
            Direction::Right => 3,
        }
    }

    /// Decode a direction from its index.
    pub fn from_index(i: u8) -> (r: Option<Direction>)
        ensures
            r == direction_from_index(i as int),
    {
        if i == 0 {
            Some(Direction::Up)
        } else if i == 1 {
            Some(Direction::Down)
        } else if i == 2 {
            Some(Direction::Left)
        } else if i == 3 {
            Some(Direction::Right)
        } else {
            None
        }
    }
}

/// Index of a facial expression within the wire and storage encodings.
pub open spec fn facial_expression_index(f: FacialExpression) -> int {
    match f {
        FacialExpression::Neutral => 0,
        FacialExpression::Angry => 1,
        FacialExpression::Shocked => 2,
        FacialExpression::Skeptical => 3,
    }
}

/// The facial expression denoted by an encoded index, if any.
pub open spec fn facial_expression_from_index(i: int) -> Option<FacialExpression> {
    if i == 0 {
        Some(FacialExpression::Neutral)
    } else if i == 1 {
        Some(FacialExpression::Angry)
    } else if i == 2 {
        Some(FacialExpression::Shocked)
    } else if i == 3 {
        Some(FacialExpression::Skeptical)
    } else {
        None
    }
}

impl FacialExpression {
    /// Encode this facial expression as its index.
    pub fn index(&self) -> (r: u8)
        ensures
            r == facial_expression_index(*self),
    {
        match self {
            FacialExpression::Neutral => 0,
            FacialExpression::Angry => 1,
            FacialExpression::Shocked => 2,
            FacialExpression::Skeptical => 3,
        }
    }

    /// Decode a facial expression from its index.
    pub fn from_index(i: u8) -> (r: Option<FacialExpression>)
        ensures
            r == facial_expression_from_index(i as int),
    {
        if i == 0 {
            Some(FacialExpression::Neutral)
        } else if i == 1 {
            Some(FacialExpression::Angry)
        } else if i == 2 {
            Some(FacialExpression::Shocked)
        } else if i == 3 {
            Some(FacialExpression::Skeptical)
        } else {
            None
        }
    }
}

/// Index of a hair style within the wire and storage encodings.
pub open spec fn hair_style_index(h: HairStyle) -> int {
    match h {
        HairStyle::Quiff => 0,
        HairStyle::Mohawk => 1,
        HairStyle::Fringe => 2,
    }
}

/// The hair style denoted by an encoded index, if any.
pub open spec fn hair_style_from_index(i: int) -> Option<HairStyle> {
    if i == 0 {
        Some(HairStyle::Quiff)
    } else if i == 1 {
        Some(HairStyle::Mohawk)
    } else if i == 2 {
        Some(HairStyle::Fringe)
    } else {
        None
    }
}

impl HairStyle {
    /// Encode this hair style as its index.
    pub fn index(&self) -> (r: u8)
        ensures
            r == hair_style_index(*self),
    {
        match self {
            HairStyle::Quiff => 0,
            HairStyle::Mohawk => 1,
            HairStyle::Fringe => 2,
        }
    }

    /// Decode a hair style from its index.
    pub fn from_index(i: u8) -> (r: Option<HairStyle>)
        ensures
            r == hair_style_from_index(i as int),
    {
        if i == 0 {
            Some(HairStyle::Quiff)
        } else if i == 1 {
            Some(HairStyle::Mohawk)
        } else if i == 2 {
            Some(HairStyle::Fringe)
        } else {
            None
        }
    }
}

} // verus!
