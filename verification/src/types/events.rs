//! What happens in the game, reported as it happens.

use vstd::prelude::*;

use crate::types::ability::{CounterType, EffectKind, TargetRef};
use crate::types::identifiers::{CardId, ObjectId, PlayerId};
use crate::types::zones::Zone;

verus! {

/// Steps of a turn that events announce (CR 500).
#[derive(Debug, Clone, Copy, PartialEq, Eq, Structural)]
pub enum Phase {
    Untap,
    Upkeep,
    Draw,
    PreCombatMain,
    Combat,
    PostCombatMain,
    End,
    Cleanup,
}

/// An event of the game.
#[derive(Debug, Clone, PartialEq, Eq)]
pub enum GameEvent {
    /// An effect finished resolving.
    EffectResolved { kind: EffectKind, source_id: ObjectId },
    /// A player revealed cards.
    CardsRevealed { player: PlayerId, card_ids: Vec<ObjectId>, card_names: Vec<String> },
    /// An object moved between zones; `from` is `None` for an object that
    /// came from outside the game.
    ZoneChanged { object_id: ObjectId, from: Option<Zone>, to: Zone },
    /// A card was conjured.
    ObjectConjured { object_id: ObjectId, name: String },
    /// A token was created.
    TokenCreated { object_id: ObjectId, name: String },
    /// A coin was flipped for a player (CR 705).
    CoinFlipped { player_id: PlayerId, won: bool },
    PermanentTapped { object_id: ObjectId, caused_by: Option<ObjectId> },
    PermanentUntapped { object_id: ObjectId },
    PhasedOut { object_id: ObjectId },
    PhasedIn { object_id: ObjectId },
    PlayerPhasedOut { player: PlayerId },
    PlayerPhasedIn { player: PlayerId },
    LifeChanged { player: PlayerId, amount: i64 },
    CardDrawn { player: PlayerId, object_id: ObjectId },
    CounterAdded { object_id: ObjectId, counter_type: CounterType, count: u32 },
    PhaseChanged { phase: Phase },
    SpellCast { card_id: CardId, controller: PlayerId, object_id: ObjectId },
    /// A player activated an ability of an object.
    AbilityActivated { player_id: PlayerId, source_id: ObjectId },
    /// A vehicle was crewed by the creatures.
    VehicleCrewed { vehicle_id: ObjectId, creatures: Vec<ObjectId> },
    /// A mount was saddled by the creatures.
    Saddled { mount_id: ObjectId, creatures: Vec<ObjectId> },
    AttackersDeclared { attacker_ids: Vec<ObjectId>, defending_player: PlayerId },
    DamageDealt {
        source_id: ObjectId,
        target: TargetRef,
        amount: u32,
        is_combat: bool,
        excess: u32,
    },
}

} // verus!
