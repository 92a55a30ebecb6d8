//! Gems: the currency players collect, and per-player gem collections.

use vstd::prelude::*;

verus! {

/// Represents the types of gems which may be collected by players.
#[derive(Clone, Copy, Debug, PartialEq, Eq, Hash, Structural)]
pub enum Gem {
    Emerald,
    Ruby,
    Diamond,
}

/// Index of a gem kind within the wire and storage encodings.
pub open spec fn gem_index(g: Gem) -> int {
    match g {
        Gem::Emerald => 0,
        Gem::Ruby => 1,
        Gem::Diamond => 2,
    }
}

/// The gem kind denoted by an encoded index, if any.
pub open spec fn gem_from_index(i: int) -> Option<Gem> {
    if i == 0 {
        Some(Gem::Emerald)
    } else if i == 1 {
        Some(Gem::Ruby)
    } else if i == 2 {
        Some(Gem::Diamond)
    } else {
        None
    }
}

impl Gem {
    /// Encode this gem kind as its index.
    pub fn index(&self) -> (r: u8)
        ensures
            r == gem_index(*self),
    {
        match self {
            Gem::Emerald => 0,
            Gem::Ruby => 1,
            Gem::Diamond => 2,
        }
    }

    /// Decode a gem kind from its index.
    pub fn from_index(i: u8) -> (r: Option<Gem>)
        ensures
            r == gem_from_index(i as int),
    {
        if i == 0 {
            Some(Gem::Emerald)
        } else if i == 1 {
            Some(Gem::Ruby)
        } else if i == 2 {
            Some(Gem::Diamond)
        } else {
            None
        }
    }
}

/// Represents the potential yield of gems produced from the smashing of a
/// rock tile.
#[derive(Clone, Copy, Debug, PartialEq, Eq, Structural)]
pub struct Yield {
    pub gem: Gem,
    pub minimum_quantity: u32,
    pub maximum_quantity: u32,
}

/// How many gems of each kind a player holds.
#[derive(Clone, Copy, Debug, PartialEq, Eq, Structural)]
pub struct Collection {
    emeralds: u32,
    rubies: u32,
    diamonds: u32,
}

/// The collection holding exactly the given quantities of each kind.
pub closed spec fn collection_of(emeralds: u32, rubies: u32, diamonds: u32) -> Collection {
    Collection { emeralds, rubies, diamonds }
}

/// The quantities held by [`collection_of`].
pub proof fn lemma_collection_of(emeralds: u32, rubies: u32, diamonds: u32)
    ensures
        collection_of(emeralds, rubies, diamonds).quantity(Gem::Emerald) == emeralds,
        collection_of(emeralds, rubies, diamonds).quantity(Gem::Ruby) == rubies,
        collection_of(emeralds, rubies, diamonds).quantity(Gem::Diamond) == diamonds,
{
}

/// A collection is determined by its three quantities.
pub proof fn lemma_collection_ext(c: Collection)
    ensures
        collection_of(
            c.quantity(Gem::Emerald),
            c.quantity(Gem::Ruby),
            c.quantity(Gem::Diamond),
        ) == c,
{
}

impl Collection {
    /// How many gems of the given kind this collection holds.
    pub closed spec fn quantity(&self, gem: Gem) -> u32 {
        match gem {
            Gem::Emerald => self.emeralds,
            Gem::Ruby => self.rubies,
            Gem::Diamond => self.diamonds,
        }
    }

    /// How many gems of the given kind this collection holds.
    pub fn get_quantity(&self, gem: Gem) -> (r: u32)
        ensures
            r == self.quantity(gem),
    {
        match gem {
            Gem::Emerald => self.emeralds,
            Gem::Ruby => self.rubies,
            Gem::Diamond => self.diamonds,
        }
    }

    /// Add the given number of gems of one kind to the collection.
    pub fn increase_quantity(&mut self, gem: Gem, increase: u32)
        requires
            old(self).quantity(gem) + increase <= u32::MAX,
        ensures
            final(self).quantity(gem) == old(self).quantity(gem) + increase,
            forall|g: Gem| g != gem ==> final(self).quantity(g) == old(self).quantity(g),
    {
        match gem {
            Gem::Emerald => self.emeralds = self.emeralds + increase,
            Gem::Ruby => self.rubies = self.rubies + increase,
            Gem::Diamond => self.diamonds = self.diamonds + increase,
        }
    }

    /// Remove the given number of gems of one kind from the collection.
    pub fn decrease_quantity(&mut self, gem: Gem, decrease: u32)
        requires
            decrease <= old(self).quantity(gem),
        ensures
            final(self).quantity(gem) == old(self).quantity(gem) - decrease,
            forall|g: Gem| g != gem ==> final(self).quantity(g) == old(self).quantity(g),
    {
        match gem {
            Gem::Emerald => self.emeralds = self.emeralds - decrease,
            Gem::Ruby => self.rubies = self.rubies - decrease,
            Gem::Diamond => self.diamonds = self.diamonds - decrease,
        }
    }

    /// Rebuild a collection from stored per-kind quantities.
    pub fn from_quantities(emeralds: u32, rubies: u32, diamonds: u32) -> (r: Collection)
        ensures
            r == collection_of(emeralds, rubies, diamonds),
            r.quantity(Gem::Emerald) == emeralds,
            r.quantity(Gem::Ruby) == rubies,
            r.quantity(Gem::Diamond) == diamonds,
    {
        Collection { emeralds, rubies, diamonds }
    }
}

impl Default for Collection {
    /// An empty collection: no gems of any kind.
    fn default() -> (r: Self)
        ensures
            forall|g: Gem| r.quantity(g) == 0,
    {
        Collection { emeralds: 0, rubies: 0, diamonds: 0 }
    }
}

} // verus!
