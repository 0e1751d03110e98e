//! The state of a game: its objects, its players and their zones, what the
//! game is waiting for, and the effects that linger.

use vstd::prelude::*;

use crate::rng::seeded_rng;
use crate::types::ability::{
    AbilityDefinition, CombatDamageScope, DamageTargetFilter, Duration, EffectKind,
    GameRestriction, PreventionAmount, ResolvedAbility, TargetFilter, TargetRef,
};
use crate::types::card::CardType;
use crate::types::events::GameEvent;
use crate::types::identifiers::{CardId, ObjectId, PlayerId, TrackedSetId};
use crate::types::keywords::Keyword;
use crate::types::card_type::CoreType;
use crate::types::mana::{mana_value_of, ManaColor, ManaCost, ManaCostView};
use crate::types::zones::Zone;

verus! {

/// What an Aura or Equipment is attached to.
#[derive(Debug, Clone, Copy, PartialEq, Eq, Structural)]
pub enum AttachTarget {
    Object(ObjectId),
    Player(PlayerId),
}

/// The event a replacement effect watches for.
#[derive(Debug, Clone, Copy, PartialEq, Eq, Structural)]
pub enum ReplacementEvent {
    DamageDone,
}

/// What kind of shield a replacement effect is.
#[derive(Debug, Clone, Copy, PartialEq, Eq, Structural)]
pub enum ShieldKind {
    /// Prevents damage (CR 615).
    Prevention { amount: PreventionAmount },
}

/// A damage-prevention shield (CR 615): how much it prevents, and which
/// damage it applies to.
#[derive(Debug, Clone, PartialEq, Eq)]
pub struct ReplacementDefinition {
    pub event: ReplacementEvent,
    pub shield_kind: ShieldKind,
    pub description: Option<String>,
    /// Only damage from sources that match.
    pub damage_source_filter: Option<TargetFilter>,
    /// Only damage dealt to what this names.
    pub damage_target_filter: Option<DamageTargetFilter>,
    /// Only damage dealt to objects that match.
    pub valid_card: Option<TargetFilter>,
    pub combat_scope: Option<CombatDamageScope>,
    pub is_consumed: bool,
}

/// A static ability mode that a continuous effect can grant.
#[derive(Debug, Clone, Copy, PartialEq, Eq, Structural)]
pub enum StaticMode {
    /// The creature must block this attacker if able (CR 509.1c).
    MustBlockAttacker { attacker: ObjectId },
    /// CR 107.4f: for each mana symbol of the color in a cost, the affected
    /// player may pay 2 life rather than pay that mana.
    PayLifeAsColoredMana { color: ManaColor },
}

/// A static ability read from Oracle text: what it does, whom it affects,
/// and the text it came from.
#[derive(Debug, Clone, PartialEq, Eq)]
pub struct StaticDefinition {
    pub mode: StaticMode,
    pub affected: Option<TargetFilter>,
    pub description: Option<String>,
}

/// A change that a continuous effect makes.
#[derive(Debug, Clone, Copy, PartialEq, Eq, Structural)]
pub enum ContinuousModification {
    AddStaticMode { mode: StaticMode },
}

/// A continuous effect created by a resolving ability (CR 611.2).
#[derive(Debug, Clone, PartialEq, Eq)]
pub struct TransientContinuousEffect {
    pub source_id: ObjectId,
    pub controller: PlayerId,
    pub duration: Duration,
    pub affected: TargetFilter,
    pub modifications: Vec<ContinuousModification>,
}

/// An activated ability that the rules give an object.
#[derive(Debug, Clone, PartialEq, Eq)]
pub enum ObjectAbility {
    /// "{cost}: Transform this object."
    Transform { cost: ManaCost },
}

/// The back face of a double-faced object.
#[derive(Debug, Clone)]
pub struct BackFace {
    pub name: String,
    pub power: Option<i32>,
    pub toughness: Option<i32>,
    pub card_types: CardType,
}

/// How an object phased out (CR 702.26g): on its own, or along with the
/// object it is attached to.
#[derive(Debug, Clone, Copy, PartialEq, Eq, Structural)]
pub enum PhaseOutCause {
    Directly,
    Indirectly,
}

/// A card or token in some zone.
#[derive(Debug, Clone)]
pub struct GameObject {
    pub id: ObjectId,
    pub card_id: CardId,
    pub owner: PlayerId,
    pub controller: PlayerId,
    pub name: String,
    pub zone: Zone,
    pub tapped: bool,
    pub face_down: bool,
    pub is_token: bool,
    pub phased_out: bool,
    /// It phased out along with the object it is attached to (CR 702.26g).
    pub phased_out_indirectly: bool,
    pub power: Option<i32>,
    pub toughness: Option<i32>,
    pub card_types: CardType,
    pub mana_cost: ManaCost,
    pub color: Vec<ManaColor>,
    pub keywords: Vec<Keyword>,
    pub base_keywords: Vec<Keyword>,
    /// The players who goaded it (CR 701.15), each once.
    pub goaded_by: Vec<PlayerId>,
    /// Its +1/+1 counters.
    pub plus_one_counters: u32,
    pub attached_to: Option<AttachTarget>,
    pub replacement_definitions: Vec<ReplacementDefinition>,
    /// The color chosen for it as it entered, where one was.
    pub chosen_color: Option<ManaColor>,
    pub abilities: Vec<ObjectAbility>,
    pub back_face: Option<BackFace>,
    /// The turn it last entered the battlefield on.
    pub entered_battlefield_turn: Option<u32>,
    /// It has an ability that refers to the cards it exiled.
    pub links_exiled_cards: bool,
}

impl GameObject {
    /// Whether it is phased out (CR 702.26).
    pub fn is_phased_out(&self) -> (r: bool)
        ensures
            r == self.phased_out,
    {
        self.phased_out
    }
}

/// A player and the zones that belong to them.
#[derive(Debug, Clone)]
pub struct Player {
    pub id: PlayerId,
    pub life: i32,
    /// Top card first.
    pub library: Vec<ObjectId>,
    pub hand: Vec<ObjectId>,
    pub graveyard: Vec<ObjectId>,
    pub phased_out: bool,
}

/// What a discover offer is about.
#[derive(Debug, Clone, PartialEq, Eq)]
pub enum CastOfferKind {
    /// The card discover hit, and the cards it exiled before it.
    Discover { hit_card: ObjectId, exiled_misses: Vec<ObjectId> },
}

/// The decision the game is waiting for.
#[derive(Debug, Clone, PartialEq, Eq)]
pub enum WaitingFor {
    Priority { player: PlayerId },
    /// Choose which of the looked-at cards to keep (CR 701.20e).
    DigChoice {
        player: PlayerId,
        library_owner: PlayerId,
        selectable_cards: Vec<ObjectId>,
        cards: Vec<ObjectId>,
        keep_count: usize,
        up_to: bool,
        kept_destination: Option<Zone>,
        rest_destination: Option<Zone>,
        source_id: Option<ObjectId>,
        enter_tapped: bool,
    },
    /// Cast the offered card or take the other option.
    CastOffer { player: PlayerId, kind: CastOfferKind },
    /// Choose one of the branches.
    ChooseOneOfBranch {
        player: PlayerId,
        source_id: ObjectId,
        branches: Vec<AbilityDefinition>,
        targets: Vec<TargetRef>,
    },
    /// Keep `keep_count` of the flipped coins (CR 705, doubled flips).
    CoinFlipKeepChoice { player: PlayerId, results: Vec<bool>, keep_count: usize },
    /// Choose objects in a zone for an effect.
    EffectZoneChoice {
        player: PlayerId,
        cards: Vec<ObjectId>,
        count: usize,
        min_count: usize,
        up_to: bool,
        source_id: ObjectId,
        effect_kind: EffectKind,
        zone: Zone,
    },
}

/// A record of one zone change this turn.
#[derive(Debug, Clone, Copy, PartialEq, Eq, Structural)]
pub struct ZoneChangeRecord {
    pub object_id: ObjectId,
    pub from_zone: Option<Zone>,
    pub to_zone: Zone,
}

/// What an item on the stack is.
#[derive(Debug, Clone)]
pub enum StackEntryKind {
    Spell { card_id: CardId, ability: Option<ResolvedAbility> },
    /// An activated ability; `ability_index` is its place among its
    /// source's abilities, where known.
    ActivatedAbility { ability: ResolvedAbility, ability_index: Option<usize> },
    TriggeredAbility {
        ability: ResolvedAbility,
        description: Option<String>,
        /// The source's name as the ability triggered.
        source_name: String,
        trigger_event: Option<GameEvent>,
    },
    /// A keyword action put on the stack (equip, crew, saddle, station).
    KeywordAction { action: KeywordAction },
}

/// A keyword action that uses the stack.
#[derive(Debug, Clone, Copy, PartialEq, Eq, Structural)]
pub enum KeywordAction {
    Equip { target_creature_id: ObjectId },
    Crew,
    Saddle,
    Station,
}

/// An item on the stack.
#[derive(Debug, Clone)]
pub struct StackEntry {
    pub id: ObjectId,
    pub source_id: ObjectId,
    pub controller: PlayerId,
    pub kind: StackEntryKind,
}

/// The rest-of-game effect an epic spell leaves (CR 702.50a).
#[derive(Debug, Clone)]
pub struct EpicEffect {
    pub controller: PlayerId,
    pub source_entry: StackEntry,
    pub source_name: String,
    pub timestamp: u32,
}

/// Which coin-flip resolver a doubled flip interrupted, and where it stood.
#[derive(Debug, Clone, Copy, PartialEq, Eq, Structural)]
pub enum PendingCoinFlipKind {
    Single,
    /// Flipping N coins, with `remaining` still to flip after this one.
    FlipN { remaining: u32 },
    /// Flipping until a loss, with `wins_so_far` wins before this flip.
    UntilLose { wins_so_far: u32 },
}

/// A coin-flip resolution interrupted by a keep choice.
#[derive(Debug, Clone)]
pub struct PendingCoinFlip {
    pub source_id: ObjectId,
    pub controller: PlayerId,
    pub targets: Vec<TargetRef>,
    pub win_effect: Option<Box<AbilityDefinition>>,
    pub lose_effect: Option<Box<AbilityDefinition>>,
    pub kind: PendingCoinFlipKind,
}

/// How a replacement effect changes a player's coin flips (CR 614).
#[derive(Debug, Clone, Copy, PartialEq, Eq, Structural)]
pub enum CoinFlipReplacementKind {
    /// Flip twice as many coins and keep one (Krark's Thumb).
    Double,
    /// The flip doesn't happen.
    Prevent,
}

/// A replacement effect on one player's coin flips.
#[derive(Debug, Clone, Copy, PartialEq, Eq, Structural)]
pub struct CoinFlipReplacement {
    pub player: PlayerId,
    pub kind: CoinFlipReplacementKind,
}

/// A card exiled by a source that refers back to what it exiled.
#[derive(Debug, Clone, Copy, PartialEq, Eq, Structural)]
pub struct ExileLink {
    pub exiled_id: ObjectId,
    pub source_id: ObjectId,
}

/// The damage source a player chose for a prevention effect.
#[derive(Debug, Clone, PartialEq, Eq)]
pub struct ChosenDamageSource {
    pub source_id: ObjectId,
    pub source_filter: TargetFilter,
}

/// Commander damage a player has taken from one commander (CR 903.10a).
#[derive(Debug, Clone, Copy, PartialEq, Eq, Structural)]
pub struct CommanderDamageEntry {
    pub player: PlayerId,
    pub commander: ObjectId,
    pub damage: u32,
}

/// How a spell was cast.
#[derive(Debug, Clone, Copy, PartialEq, Eq, Structural)]
pub enum CastingVariant {
    Normal,
    Flashback,
    Foretell,
    Evoke,
    Overload,
}

/// What was paid for a spell on the stack.
#[derive(Debug, Clone, Copy, PartialEq, Eq, Structural)]
pub struct StackPaidSnapshot {
    pub actual_mana_spent: u32,
    pub x_value: Option<u32>,
    pub distinct_colors_spent: u32,
    pub kickers_paid: usize,
    pub additional_cost_paid: bool,
    pub casting_variant: CastingVariant,
    pub convoked_creatures: usize,
}

impl StackPaidSnapshot {
    /// Nothing paid, cast normally.
    pub fn empty() -> (r: StackPaidSnapshot)
        ensures
            r == (StackPaidSnapshot {
                actual_mana_spent: 0,
                x_value: None,
                distinct_colors_spent: 0,
                kickers_paid: 0,
                additional_cost_paid: false,
                casting_variant: CastingVariant::Normal,
                convoked_creatures: 0,
            }),
    {
        StackPaidSnapshot {
            actual_mana_spent: 0,
            x_value: None,
            distinct_colors_spent: 0,
            kickers_paid: 0,
            additional_cost_paid: false,
            casting_variant: CastingVariant::Normal,
            convoked_creatures: 0,
        }
    }
}

/// The rules a game is played by, as far as they matter here.
#[derive(Debug, Clone, Copy, PartialEq, Eq, Structural)]
pub struct FormatConfig {
    /// The commander damage that makes a player lose (CR 903.10a); none
    /// outside Commander.
    pub commander_damage_threshold: Option<u32>,
}

impl FormatConfig {
    /// A format without commanders.
    pub fn standard() -> (r: FormatConfig)
        ensures
            r.commander_damage_threshold is None,
    {
        FormatConfig { commander_damage_threshold: None }
    }

    /// Commander (CR 903): 21 combat damage from one commander.
    pub fn commander() -> (r: FormatConfig)
        ensures
            r.commander_damage_threshold == Some(21u32),
    {
        FormatConfig { commander_damage_threshold: Some(21) }
    }
}

/// The whole state of a game.
#[derive(Debug)]
pub struct GameState {
    /// Every object of the game; an object's id is its index.
    pub objects: Vec<GameObject>,
    /// The players; a player's id is its index.
    pub players: Vec<Player>,
    pub battlefield: Vec<ObjectId>,
    pub exile: Vec<ObjectId>,
    pub stack_objects: Vec<ObjectId>,
    pub command: Vec<ObjectId>,
    pub stack: Vec<StackEntry>,
    pub waiting_for: WaitingFor,
    pub restrictions: Vec<GameRestriction>,
    pub transient_continuous_effects: Vec<TransientContinuousEffect>,
    pub revealed_cards: Vec<ObjectId>,
    pub last_revealed_ids: Vec<ObjectId>,
    pub private_look_ids: Vec<ObjectId>,
    pub private_look_player: Option<PlayerId>,
    pub zone_changes_this_turn: Vec<ZoneChangeRecord>,
    /// Shields that belong to no object on the battlefield.
    pub pending_damage_replacements: Vec<ReplacementDefinition>,
    pub epic_effects: Vec<EpicEffect>,
    pub current_trigger_event: Option<GameEvent>,
    pub pending_coin_flip: Option<PendingCoinFlip>,
    pub coin_flip_replacements: Vec<CoinFlipReplacement>,
    pub tracked_object_sets: Vec<(TrackedSetId, Vec<ObjectId>)>,
    pub exile_links: Vec<ExileLink>,
    pub last_chosen_damage_source: Option<ChosenDamageSource>,
    pub rng: rand_chacha::ChaCha20Rng,
    pub turn_number: u32,
    pub active_player: PlayerId,
    pub next_timestamp: u64,
    pub format_config: FormatConfig,
    /// The players in turn order.
    pub seat_order: Vec<PlayerId>,
    /// The players' display names, by seat, where known.
    pub log_player_names: Vec<String>,
    pub commander_damage: Vec<CommanderDamageEntry>,
    /// What was paid for each spell on the stack, by its entry id.
    pub stack_paid_facts: Vec<(ObjectId, StackPaidSnapshot)>,
    /// The events that triggered each triggered ability on the stack, by
    /// its entry id.
    pub stack_trigger_event_batches: Vec<(ObjectId, Vec<GameEvent>)>,
}

/// Every id in `ids` names one of `n` objects.
pub open spec fn ids_below(ids: Seq<ObjectId>, n: nat) -> bool {
    forall|j: int| 0 <= j < ids.len() ==> (#[trigger] ids[j]).0 < n
}

/// Every object the list names is owned by `p`.
pub open spec fn owned_by(ids: Seq<ObjectId>, objects: Seq<GameObject>, p: PlayerId) -> bool {
    forall|j: int| 0 <= j < ids.len() ==> objects[(#[trigger] ids[j]).0 as int].owner == p
}

/// A zone list: it names existing objects, each once, all in `zone`.
pub open spec fn zone_list_ok(ids: Seq<ObjectId>, objects: Seq<GameObject>, zone: Zone) -> bool {
    &&& ids_below(ids, objects.len())
    &&& ids.no_duplicates()
    &&& forall|j: int| 0 <= j < ids.len() ==> objects[(#[trigger] ids[j]).0 as int].zone == zone
}

impl GameState {
    /// The object with the given id.
    pub open spec fn obj(self, id: ObjectId) -> GameObject {
        self.objects@[id.0 as int]
    }

    /// The given id names an object of this game.
    pub open spec fn has_obj(self, id: ObjectId) -> bool {
        id.0 < self.objects@.len()
    }

    /// The given id names a player of this game.
    pub open spec fn has_player(self, p: PlayerId) -> bool {
        p.0 < self.players@.len()
    }

    /// The player with the given id.
    pub open spec fn player(self, p: PlayerId) -> Player {
        self.players@[p.0 as int]
    }

    /// The state is consistent: ids are indices; each zone list names
    /// existing objects, each at most once, whose zone is that list's zone;
    /// and every mana value fits in 32 bits.
    pub open spec fn wf(self) -> bool {
        &&& forall|i: int|
            0 <= i < self.objects@.len() ==> (#[trigger] self.objects@[i]).id == ObjectId(
                i as u64,
            )
        &&& forall|i: int|
            0 <= i < self.players@.len() ==> (#[trigger] self.players@[i]).id == PlayerId(i as u8)
        &&& self.players@.len() <= 256
        &&& self.objects@.len() <= u64::MAX
        &&& forall|i: int|
            0 <= i < self.players@.len() ==> {
                &&& zone_list_ok((#[trigger] self.players@[i]).library@, self.objects@, Zone::Library)
                &&& zone_list_ok(self.players@[i].hand@, self.objects@, Zone::Hand)
                &&& zone_list_ok(self.players@[i].graveyard@, self.objects@, Zone::Graveyard)
                &&& owned_by(self.players@[i].library@, self.objects@, PlayerId(i as u8))
                &&& owned_by(self.players@[i].hand@, self.objects@, PlayerId(i as u8))
                &&& owned_by(self.players@[i].graveyard@, self.objects@, PlayerId(i as u8))
            }
        &&& zone_list_ok(self.battlefield@, self.objects@, Zone::Battlefield)
        &&& zone_list_ok(self.exile@, self.objects@, Zone::Exile)
        &&& zone_list_ok(self.stack_objects@, self.objects@, Zone::Stack)
        &&& zone_list_ok(self.command@, self.objects@, Zone::Command)
        &&& forall|i: int|
            0 <= i < self.objects@.len() ==> mana_value_of((#[trigger] self.objects@[i]).mana_cost@)
                <= u32::MAX
    }

    /// A game of `num_players` players at 20 life each (seated in id
    /// order), with empty zones, waiting for the first player's priority, its
    /// randomness seeded from `seed`.
    pub fn new(format: FormatConfig, num_players: u8, seed: u64) -> (s: GameState)
        ensures
            s.wf(),
            s.objects@.len() == 0,
            s.players@.len() == num_players,
            forall|i: int|
                0 <= i < num_players ==> {
                    &&& (#[trigger] s.players@[i]).life == 20
                    &&& s.players@[i].library@.len() == 0
                    &&& s.players@[i].hand@.len() == 0
                    &&& s.players@[i].graveyard@.len() == 0
                    &&& !s.players@[i].phased_out
                },
            s.seat_order@ == Seq::new(num_players as nat, |i: int| PlayerId(i as u8)),
            s.format_config == format,
            s.battlefield@.len() == 0,
            s.exile@.len() == 0,
            s.stack@.len() == 0,
            s.waiting_for == (WaitingFor::Priority { player: PlayerId(0) }),
            s.restrictions@.len() == 0,
            s.epic_effects@.len() == 0,
            s.pending_coin_flip is None,
            s.current_trigger_event is None,
            s.coin_flip_replacements@.len() == 0,
            s.commander_damage@.len() == 0,
            s.log_player_names@.len() == 0,
            s.stack_paid_facts@.len() == 0,
            s.stack_trigger_event_batches@.len() == 0,
            s.active_player == PlayerId(0),
            s.turn_number == 1,
    {
        let mut players: Vec<Player> = Vec::new();
        let mut seats: Vec<PlayerId> = Vec::new();
        let mut i: u8 = 0;
        while i < num_players
            invariant
                i <= num_players,
                players@.len() == i,
                seats@ == Seq::new(i as nat, |k: int| PlayerId(k as u8)),
                forall|k: int|
                    0 <= k < i ==> {
                        &&& (#[trigger] players@[k]).id == PlayerId(k as u8)
                        &&& players@[k].life == 20
                        &&& players@[k].library@.len() == 0
                        &&& players@[k].hand@.len() == 0
                        &&& players@[k].graveyard@.len() == 0
                        &&& !players@[k].phased_out
                    },
            decreases num_players - i,
        {
            players.push(Player {
                id: PlayerId(i),
                life: 20,
                library: Vec::new(),
                hand: Vec::new(),
                graveyard: Vec::new(),
                phased_out: false,
            });
            seats.push(PlayerId(i));
            assert(seats@ =~= Seq::new((i + 1) as nat, |k: int| PlayerId(k as u8)));
            i = i + 1;
        }
        GameState {
            objects: Vec::new(),
            players,
            battlefield: Vec::new(),
            exile: Vec::new(),
            stack_objects: Vec::new(),
            command: Vec::new(),
            stack: Vec::new(),
            waiting_for: WaitingFor::Priority { player: PlayerId(0) },
            restrictions: Vec::new(),
            transient_continuous_effects: Vec::new(),
            revealed_cards: Vec::new(),
            last_revealed_ids: Vec::new(),
            private_look_ids: Vec::new(),
            private_look_player: None,
            zone_changes_this_turn: Vec::new(),
            pending_damage_replacements: Vec::new(),
            epic_effects: Vec::new(),
            current_trigger_event: None,
            pending_coin_flip: None,
            coin_flip_replacements: Vec::new(),
            tracked_object_sets: Vec::new(),
            exile_links: Vec::new(),
            last_chosen_damage_source: None,
            rng: seeded_rng(seed),
            turn_number: 1,
            active_player: PlayerId(0),
            next_timestamp: 1,
            format_config: format,
            seat_order: seats,
            log_player_names: Vec::new(),
            commander_damage: Vec::new(),
            stack_paid_facts: Vec::new(),
            stack_trigger_event_batches: Vec::new(),
        }
    }

    /// A two-player game without commanders at 20 life each, with empty
    /// zones, waiting for the first player's priority, its randomness seeded
    /// from `seed`.
    pub fn new_two_player(seed: u64) -> (s: GameState)
        ensures
            s.wf(),
            s.objects@.len() == 0,
            s.players@.len() == 2,
            forall|i: int|
                0 <= i < 2 ==> {
                    &&& (#[trigger] s.players@[i]).life == 20
                    &&& s.players@[i].library@.len() == 0
                    &&& s.players@[i].hand@.len() == 0
                    &&& s.players@[i].graveyard@.len() == 0
                    &&& !s.players@[i].phased_out
                },
            s.seat_order@ == seq![PlayerId(0), PlayerId(1)],
            s.format_config.commander_damage_threshold is None,
            s.battlefield@.len() == 0,
            s.exile@.len() == 0,
            s.stack@.len() == 0,
            s.waiting_for == (WaitingFor::Priority { player: PlayerId(0) }),
            s.restrictions@.len() == 0,
            s.epic_effects@.len() == 0,
            s.pending_coin_flip is None,
            s.current_trigger_event is None,
            s.coin_flip_replacements@.len() == 0,
            s.commander_damage@.len() == 0,
            s.log_player_names@.len() == 0,
            s.stack_paid_facts@.len() == 0,
            s.stack_trigger_event_batches@.len() == 0,
            s.active_player == PlayerId(0),
            s.turn_number == 1,
    {
        let s = GameState::new(FormatConfig::standard(), 2, seed);
        assert(s.seat_order@ =~= seq![PlayerId(0), PlayerId(1)]);
        s
    }

    /// The object with the given id, if there is one.
    pub fn object(&self, id: ObjectId) -> (r: Option<&GameObject>)
        ensures
            r is Some <==> self.has_obj(id),
            r matches Some(o) ==> *o == self.obj(id),
    {
        if id.0 < self.objects.len() as u64 {
            Some(&self.objects[id.0 as usize])
        } else {
            None
        }
    }
}

} // verus!

verus! {

/// The parts of a game state that an operation may change; every part not
/// named stays as it was.
pub struct Touched {
    pub objects: bool,
    pub players: bool,
    pub battlefield: bool,
    pub exile: bool,
    pub stack_objects: bool,
    pub command: bool,
    pub stack: bool,
    pub waiting_for: bool,
    pub restrictions: bool,
    pub transient_continuous_effects: bool,
    pub revealed: bool,
    pub zone_changes_this_turn: bool,
    pub pending_damage_replacements: bool,
    pub epic_effects: bool,
    pub pending_coin_flip: bool,
    pub tracked_object_sets: bool,
    pub exile_links: bool,
    pub rng: bool,
    pub next_timestamp: bool,
}

/// An operation that changes nothing.
pub open spec fn touch_none() -> Touched {
    Touched {
        objects: false,
        players: false,
        battlefield: false,
        exile: false,
        stack_objects: false,
        command: false,
        stack: false,
        waiting_for: false,
        restrictions: false,
        transient_continuous_effects: false,
        revealed: false,
        zone_changes_this_turn: false,
        pending_damage_replacements: false,
        epic_effects: false,
        pending_coin_flip: false,
        tracked_object_sets: false,
        exile_links: false,
        rng: false,
        next_timestamp: false,
    }
}

/// `b` is `a` but for the parts in `t`.
pub open spec fn frame(a: GameState, b: GameState, t: Touched) -> bool {
    &&& (!t.objects ==> b.objects@ == a.objects@)
    &&& (!t.players ==> b.players@ == a.players@)
    &&& (!t.battlefield ==> b.battlefield@ == a.battlefield@)
    &&& (!t.exile ==> b.exile@ == a.exile@)
    &&& (!t.stack_objects ==> b.stack_objects@ == a.stack_objects@)
    &&& (!t.command ==> b.command@ == a.command@)
    &&& (!t.stack ==> b.stack@ == a.stack@)
    &&& (!t.waiting_for ==> b.waiting_for == a.waiting_for)
    &&& (!t.restrictions ==> b.restrictions@ == a.restrictions@)
    &&& (!t.transient_continuous_effects ==> b.transient_continuous_effects@
        == a.transient_continuous_effects@)
    &&& (!t.revealed ==> {
        &&& b.revealed_cards@ == a.revealed_cards@
        &&& b.last_revealed_ids@ == a.last_revealed_ids@
        &&& b.private_look_ids@ == a.private_look_ids@
        &&& b.private_look_player == a.private_look_player
    })
    &&& (!t.zone_changes_this_turn ==> b.zone_changes_this_turn@ == a.zone_changes_this_turn@)
    &&& (!t.pending_damage_replacements ==> b.pending_damage_replacements@
        == a.pending_damage_replacements@)
    &&& (!t.epic_effects ==> b.epic_effects@ == a.epic_effects@)
    &&& (!t.pending_coin_flip ==> b.pending_coin_flip == a.pending_coin_flip)
    &&& (!t.tracked_object_sets ==> b.tracked_object_sets@ == a.tracked_object_sets@)
    &&& (!t.exile_links ==> b.exile_links@ == a.exile_links@)
    &&& (!t.rng ==> b.rng == a.rng)
    &&& (!t.next_timestamp ==> b.next_timestamp == a.next_timestamp)
    &&& b.coin_flip_replacements@ == a.coin_flip_replacements@
    &&& b.current_trigger_event == a.current_trigger_event
    &&& b.last_chosen_damage_source == a.last_chosen_damage_source
    &&& b.turn_number == a.turn_number
    &&& b.active_player == a.active_player
    &&& b.format_config == a.format_config
    &&& b.seat_order@ == a.seat_order@
    &&& b.log_player_names@ == a.log_player_names@
    &&& b.commander_damage@ == a.commander_damage@
    &&& b.stack_paid_facts@ == a.stack_paid_facts@
    &&& b.stack_trigger_event_batches@ == a.stack_trigger_event_batches@
}

} // verus!

verus! {

/// Mathematical view of a type line.
pub struct CardTypeView {
    pub supertypes: Seq<String>,
    pub core_types: Seq<CoreType>,
    pub subtypes: Seq<String>,
}

/// The view of a type line.
pub open spec fn card_type_view(t: CardType) -> CardTypeView {
    CardTypeView { supertypes: t.supertypes@, core_types: t.core_types@, subtypes: t.subtypes@ }
}

/// Mathematical view of a game object.
pub struct ObjectView {
    pub id: ObjectId,
    pub card_id: CardId,
    pub owner: PlayerId,
    pub controller: PlayerId,
    pub name: Seq<char>,
    pub zone: Zone,
    pub tapped: bool,
    pub face_down: bool,
    pub is_token: bool,
    pub phased_out: bool,
    pub phased_out_indirectly: bool,
    pub power: Option<i32>,
    pub toughness: Option<i32>,
    pub card_types: CardTypeView,
    pub mana_cost: ManaCostView,
    pub color: Seq<ManaColor>,
    pub keywords: Seq<Keyword>,
    pub base_keywords: Seq<Keyword>,
    pub goaded_by: Seq<PlayerId>,
    pub plus_one_counters: u32,
    pub attached_to: Option<AttachTarget>,
    pub replacement_definitions: Seq<ReplacementDefinition>,
    pub chosen_color: Option<ManaColor>,
    pub abilities: Seq<ObjectAbility>,
    pub back_face: Option<BackFace>,
    pub entered_battlefield_turn: Option<u32>,
    pub links_exiled_cards: bool,
}

impl View for GameObject {
    type V = ObjectView;

    open spec fn view(&self) -> ObjectView {
        ObjectView {
            id: self.id,
            card_id: self.card_id,
            owner: self.owner,
            controller: self.controller,
            name: self.name@,
            zone: self.zone,
            tapped: self.tapped,
            face_down: self.face_down,
            is_token: self.is_token,
            phased_out: self.phased_out,
            phased_out_indirectly: self.phased_out_indirectly,
            power: self.power,
            toughness: self.toughness,
            card_types: card_type_view(self.card_types),
            mana_cost: self.mana_cost@,
            color: self.color@,
            keywords: self.keywords@,
            base_keywords: self.base_keywords@,
            goaded_by: self.goaded_by@,
            plus_one_counters: self.plus_one_counters,
            attached_to: self.attached_to,
            replacement_definitions: self.replacement_definitions@,
            chosen_color: self.chosen_color,
            abilities: self.abilities@,
            back_face: self.back_face,
            entered_battlefield_turn: self.entered_battlefield_turn,
            links_exiled_cards: self.links_exiled_cards,
        }
    }
}

/// Mathematical view of a player.
pub struct PlayerView {
    pub id: PlayerId,
    pub life: i32,
    pub library: Seq<ObjectId>,
    pub hand: Seq<ObjectId>,
    pub graveyard: Seq<ObjectId>,
    pub phased_out: bool,
}

impl View for Player {
    type V = PlayerView;

    open spec fn view(&self) -> PlayerView {
        PlayerView {
            id: self.id,
            life: self.life,
            library: self.library@,
            hand: self.hand@,
            graveyard: self.graveyard@,
            phased_out: self.phased_out,
        }
    }
}

/// The views of a sequence of objects.
pub open spec fn oviews(s: Seq<GameObject>) -> Seq<ObjectView> {
    s.map_values(|o: GameObject| o@)
}

/// The views of a sequence of players.
pub open spec fn pviews(s: Seq<Player>) -> Seq<PlayerView> {
    s.map_values(|p: Player| p@)
}

impl GameState {
    /// The view of the object with the given id.
    pub open spec fn ov(self, id: ObjectId) -> ObjectView {
        self.objects@[id.0 as int]@
    }

    /// The view of the player with the given id.
    pub open spec fn pv(self, p: PlayerId) -> PlayerView {
        self.players@[p.0 as int]@
    }
}

} // verus!
