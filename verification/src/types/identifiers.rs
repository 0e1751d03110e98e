use vstd::prelude::*;

verus! {

/// Identity of a game object (a card or token in some zone).
#[derive(Debug, Clone, Copy, PartialEq, Eq, Hash, Structural)]
pub struct ObjectId(pub u64);

/// Identity of a printed card.
#[derive(Debug, Clone, Copy, PartialEq, Eq, Hash, Structural)]
pub struct CardId(pub u64);

/// Identity of a player (a seat index).
#[derive(Debug, Clone, Copy, PartialEq, Eq, Hash, Structural)]
pub struct PlayerId(pub u8);

/// Identity of an object set that one effect publishes for a later one.
#[derive(Debug, Clone, Copy, PartialEq, Eq, Hash, Structural)]
pub struct TrackedSetId(pub u64);

} // verus!
