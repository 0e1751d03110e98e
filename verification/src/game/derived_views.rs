//! Presentation projections over the game state, computed when the state
//! is handed to a client: commander damage per attacking player, the stack
//! as display groups and entry details, and the Auras attached to players.

use vstd::prelude::*;

use crate::game::state::{
    AttachTarget, CastingVariant, CommanderDamageEntry, GameState, KeywordAction, StackEntry, StackEntryKind, StackPaidSnapshot,
};
use crate::text::{decimal, decimal_string, string_of};
use crate::types::ability::TargetRef;
use crate::types::events::GameEvent;
use crate::types::identifiers::{ObjectId, PlayerId};

use crate::types::zones::Zone;

verus! {

/// A commander-damage badge: `victim` took `damage` from `commander`.
#[derive(Debug, Clone, Copy, PartialEq, Eq, Structural)]
pub struct CommanderDamageView {
    pub victim: PlayerId,
    pub commander: ObjectId,
    pub damage: u32,
}

/// A chosen target of a stack entry and its label.
#[derive(Debug, Clone, PartialEq, Eq)]
pub struct StackTargetDisplay {
    pub target: TargetRef,
    pub label: String,
}

/// A fact about what was paid for a spell.
#[derive(Debug, Clone, PartialEq, Eq)]
pub enum StackPaidFactView {
    XValue { value: u32 },
    ManaSpent { amount: u32 },
    ColorsSpent { distinct: u32 },
    Kicked { count: usize },
    AdditionalCostPaid,
    CastVariant { variant: String },
    Convoked { count: usize },
}

/// What a triggering event was, for players.
#[derive(Debug, Clone, PartialEq, Eq)]
pub struct TriggerContextDisplay {
    pub label: String,
    pub object_id: Option<ObjectId>,
    pub player: Option<PlayerId>,
}

/// The display facts of a stack entry.
#[derive(Debug, Clone, PartialEq, Eq)]
pub struct StackEntryDisplay {
    pub source_name: String,
    pub kind_label: String,
    pub ability_description: Option<String>,
    pub targets: Vec<StackTargetDisplay>,
    pub paid: Vec<StackPaidFactView>,
    pub trigger_context: Vec<TriggerContextDisplay>,
}

/// The text of an optional string.
pub open spec fn opt_text(o: Option<String>) -> Option<Seq<char>> {
    match o {
        Some(t) => Some(t@),
        None => None,
    }
}

/// The label of a zone ("nowhere" for none).
pub open spec fn zone_text(z: Option<Zone>) -> Seq<char> {
    match z {
        Some(Zone::Battlefield) => "battlefield"@,
        Some(Zone::Hand) => "hand"@,
        Some(Zone::Library) => "library"@,
        Some(Zone::Graveyard) => "graveyard"@,
        Some(Zone::Exile) => "exile"@,
        Some(Zone::Stack) => "stack"@,
        Some(Zone::Command) => "command"@,
        None => "nowhere"@,
    }
}

fn zone_label(z: Option<Zone>) -> (r: &'static str)
    ensures
        r@ == zone_text(z),
{
    match z {
        Some(Zone::Battlefield) => "battlefield",
        Some(Zone::Hand) => "hand",
        Some(Zone::Library) => "library",
        Some(Zone::Graveyard) => "graveyard",
        Some(Zone::Exile) => "exile",
        Some(Zone::Stack) => "stack",
        Some(Zone::Command) => "command",
        None => "nowhere",
    }
}

/// A player's label: their display name where it is known and not empty,
/// else "Player N".
pub open spec fn player_text(s: GameState, p: PlayerId) -> Seq<char> {
    if (p.0 as int) < s.log_player_names@.len() && s.log_player_names@[p.0 as int]@.len() > 0 {
        s.log_player_names@[p.0 as int]@
    } else {
        "Player "@ + decimal(p.0 as nat)
    }
}

fn player_label(state: &GameState, p: PlayerId) -> (r: String)
    ensures
        r@ == player_text(*state, p),
{
    let i = p.0 as usize;
    if i < state.log_player_names.len() && state.log_player_names[i].unicode_len() > 0 {
        return state.log_player_names[i].clone();
    }
    let mut t = string_of("Player ");
    let n = decimal_string(p.0 as u128);
    t.append(n.as_str());
    t
}

/// A target's label: an object's name ("Object N" where there is no such
/// object), or a player's label.
pub open spec fn target_text(s: GameState, t: TargetRef) -> Seq<char> {
    match t {
        TargetRef::Object(id) => if s.has_obj(id) {
            s.ov(id).name
        } else {
            "Object "@ + decimal(id.0 as nat)
        },
        TargetRef::Player(p) => player_text(s, p),
    }
}

fn target_label(state: &GameState, t: TargetRef) -> (r: String)
    ensures
        r@ == target_text(*state, t),
{
    match t {
        TargetRef::Object(id) => match state.object(id) {
            Some(o) => o.name.clone(),
            None => {
                let mut s = string_of("Object ");
                let n = decimal_string(id.0 as u128);
                s.append(n.as_str());
                s
            },
        },
        TargetRef::Player(p) => player_label(state, p),
    }
}

/// The zone hides the identity of what is in it from other players.
pub open spec fn is_hidden_zone(z: Zone) -> bool {
    z == Zone::Hand || z == Zone::Library
}

/// The name shown for an object that moved between zones: its name where
/// the state has it; "Hidden Card" where it moved from or to a hidden zone;
/// else "Unknown".
pub open spec fn moved_name_text(s: GameState, id: ObjectId, from: Option<Zone>, to: Zone) -> Seq<char> {
    if s.has_obj(id) {
        s.ov(id).name
    } else if (from matches Some(z) && is_hidden_zone(z)) || is_hidden_zone(to) {
        "Hidden Card"@
    } else {
        "Unknown"@
    }
}

fn visible_zone_change_object_name(state: &GameState, id: ObjectId, from: Option<Zone>, to: Zone) -> (r: String)
    ensures
        r@ == moved_name_text(*state, id, from, to),
{
    if let Some(o) = state.object(id) {
        return o.name.clone();
    }
    let hidden_from = match from {
        Some(z) => matches!(z, Zone::Hand | Zone::Library),
        None => false,
    };
    if hidden_from || matches!(to, Zone::Hand | Zone::Library) {
        string_of("Hidden Card")
    } else {
        string_of("Unknown")
    }
}

/// The controller of the object, where the state has it.
pub open spec fn controller_of(s: GameState, id: ObjectId) -> Option<PlayerId> {
    if s.has_obj(id) {
        Some(s.ov(id).controller)
    } else {
        None
    }
}

/// What a trigger-context label says.
pub struct ContextView {
    pub label: Seq<char>,
    pub object_id: Option<ObjectId>,
    pub player: Option<PlayerId>,
}

/// The view of a trigger-context display.
pub open spec fn context_view(d: TriggerContextDisplay) -> ContextView {
    ContextView { label: d.label@, object_id: d.object_id, player: d.player }
}

/// "creature" or "creatures", by the count.
pub open spec fn creature_word(n: nat) -> Seq<char> {
    if n == 1 {
        " creature"@
    } else {
        " creatures"@
    }
}

/// How a triggering event is shown: a move between zones, a reveal, a
/// cast, an activation, a crew or a saddle; other events are not shown.
pub open spec fn event_display(s: GameState, ev: GameEvent) -> Option<ContextView> {
    match ev {
        GameEvent::ZoneChanged { object_id, from, to } => Some(
            ContextView {
                label: moved_name_text(s, object_id, from, to) + " moved "@ + zone_text(from) + " -> "@ + zone_text(
                    Some(to),
                ),
                object_id: Some(object_id),
                player: controller_of(s, object_id),
            },
        ),
        GameEvent::CardsRevealed { player, card_ids, .. } => Some(
            ContextView {
                label: if card_ids@.len() == 1 {
                    player_text(s, player) + " revealed "@ + target_text(s, TargetRef::Object(card_ids@[0]))
                } else {
                    player_text(s, player) + " revealed "@ + decimal(card_ids@.len()) + " cards"@
                },
                object_id: if card_ids@.len() > 0 {
                    Some(card_ids@[0])
                } else {
                    None
                },
                player: Some(player),
            },
        ),
        GameEvent::SpellCast { object_id, controller, .. } => Some(
            ContextView {
                label: player_text(s, controller) + " cast "@ + target_text(s, TargetRef::Object(object_id)),
                object_id: Some(object_id),
                player: Some(controller),
            },
        ),
        GameEvent::AbilityActivated { player_id, source_id } => Some(
            ContextView {
                label: target_text(s, TargetRef::Object(source_id)) + " ability activated"@,
                object_id: Some(source_id),
                player: Some(player_id),
            },
        ),
        GameEvent::VehicleCrewed { vehicle_id, creatures } => Some(
            ContextView {
                label: target_text(s, TargetRef::Object(vehicle_id)) + " crewed by "@ + decimal(creatures@.len())
                    + creature_word(creatures@.len()),
                object_id: Some(vehicle_id),
                player: controller_of(s, vehicle_id),
            },
        ),
        GameEvent::Saddled { mount_id, creatures } => Some(
            ContextView {
                label: target_text(s, TargetRef::Object(mount_id)) + " saddled by "@ + decimal(creatures@.len())
                    + creature_word(creatures@.len()),
                object_id: Some(mount_id),
                player: controller_of(s, mount_id),
            },
        ),
        _ => None,
    }
}

fn controller_of_exec(state: &GameState, id: ObjectId) -> (r: Option<PlayerId>)
    ensures
        r == controller_of(*state, id),
{
    match state.object(id) {
        Some(o) => Some(o.controller),
        None => None,
    }
}

fn crew_label(state: &GameState, id: ObjectId, verb: &str, n: usize) -> (r: String)
    ensures
        r@ == target_text(*state, TargetRef::Object(id)) + verb@ + decimal(n as nat) + creature_word(n as nat),
{
    let mut t = target_label(state, TargetRef::Object(id));
    t.append(verb);
    let num = decimal_string(n as u128);
    t.append(num.as_str());
    if n == 1 {
        t.append(" creature");
    } else {
        t.append(" creatures");
    }
    t
}

/// How a triggering event is shown, where it is shown.
fn trigger_event_display(state: &GameState, ev: &GameEvent) -> (r: Option<TriggerContextDisplay>)
    ensures
        match event_display(*state, *ev) {
            Some(v) => r matches Some(d) && context_view(d) == v,
            None => r is None,
        },
{
    match ev {
        GameEvent::ZoneChanged { object_id, from, to } => {
            let mut label = visible_zone_change_object_name(state, *object_id, *from, *to);
            label.append(" moved ");
            label.append(zone_label(*from));
            label.append(" -> ");
            label.append(zone_label(Some(*to)));
            Some(
                TriggerContextDisplay {
                    label,
                    object_id: Some(*object_id),
                    player: controller_of_exec(state, *object_id),
                },
            )
        },
        GameEvent::CardsRevealed { player, card_ids, .. } => {
            let mut label = player_label(state, *player);
            label.append(" revealed ");
            if card_ids.len() == 1 {
                let t = target_label(state, TargetRef::Object(card_ids[0]));
                label.append(t.as_str());
            } else {
                let num = decimal_string(card_ids.len() as u128);
                label.append(num.as_str());
                label.append(" cards");
            }
            let first = if card_ids.len() > 0 {
                Some(card_ids[0])
            } else {
                None
            };
            Some(TriggerContextDisplay { label, object_id: first, player: Some(*player) })
        },
        GameEvent::SpellCast { object_id, controller, .. } => {
            let mut label = player_label(state, *controller);
            label.append(" cast ");
            let t = target_label(state, TargetRef::Object(*object_id));
            label.append(t.as_str());
            Some(TriggerContextDisplay { label, object_id: Some(*object_id), player: Some(*controller) })
        },
        GameEvent::AbilityActivated { player_id, source_id } => {
            let mut label = target_label(state, TargetRef::Object(*source_id));
            label.append(" ability activated");
            Some(TriggerContextDisplay { label, object_id: Some(*source_id), player: Some(*player_id) })
        },
        GameEvent::VehicleCrewed { vehicle_id, creatures } => Some(
            TriggerContextDisplay {
                label: crew_label(state, *vehicle_id, " crewed by ", creatures.len()),
                object_id: Some(*vehicle_id),
                player: controller_of_exec(state, *vehicle_id),
            },
        ),
        GameEvent::Saddled { mount_id, creatures } => Some(
            TriggerContextDisplay {
                label: crew_label(state, *mount_id, " saddled by ", creatures.len()),
                object_id: Some(*mount_id),
                player: controller_of_exec(state, *mount_id),
            },
        ),
        _ => None,
    }
}

/// The name of a way of casting.
pub open spec fn casting_variant_text(v: CastingVariant) -> Seq<char> {
    match v {
        CastingVariant::Normal => "Normal"@,
        CastingVariant::Flashback => "Flashback"@,
        CastingVariant::Foretell => "Foretell"@,
        CastingVariant::Evoke => "Evoke"@,
        CastingVariant::Overload => "Overload"@,
    }
}

fn casting_variant_name(v: CastingVariant) -> (r: &'static str)
    ensures
        r@ == casting_variant_text(v),
{
    match v {
        CastingVariant::Normal => "Normal",
        CastingVariant::Flashback => "Flashback",
        CastingVariant::Foretell => "Foretell",
        CastingVariant::Evoke => "Evoke",
        CastingVariant::Overload => "Overload",
    }
}

/// The view of a paid fact.
pub enum PaidFactView {
    XValue { value: u32 },
    ManaSpent { amount: u32 },
    ColorsSpent { distinct: u32 },
    Kicked { count: usize },
    AdditionalCostPaid,
    CastVariant { variant: Seq<char> },
    Convoked { count: usize },
}

/// The view of a paid fact.
pub open spec fn fact_view(f: StackPaidFactView) -> PaidFactView {
    match f {
        StackPaidFactView::XValue { value } => PaidFactView::XValue { value },
        StackPaidFactView::ManaSpent { amount } => PaidFactView::ManaSpent { amount },
        StackPaidFactView::ColorsSpent { distinct } => PaidFactView::ColorsSpent { distinct },
        StackPaidFactView::Kicked { count } => PaidFactView::Kicked { count },
        StackPaidFactView::AdditionalCostPaid => PaidFactView::AdditionalCostPaid,
        StackPaidFactView::CastVariant { variant } => PaidFactView::CastVariant { variant: variant@ },
        StackPaidFactView::Convoked { count } => PaidFactView::Convoked { count },
    }
}

/// One fact, where it is shown.
pub open spec fn shown(cond: bool, f: PaidFactView) -> Seq<PaidFactView> {
    if cond {
        seq![f]
    } else {
        Seq::empty()
    }
}

/// The X paid, where there is one.
pub open spec fn x_part(p: StackPaidSnapshot) -> Seq<PaidFactView> {
    match p.x_value {
        Some(v) => seq![PaidFactView::XValue { value: v }],
        None => Seq::empty(),
    }
}

/// The facts shown for what was paid, in this order: X, mana spent (when
/// some), colors spent (when some), kickers (when some), an additional cost
/// (when paid), the way of casting (when not the normal one), convoking
/// creatures (when some). Nothing without a snapshot.
pub open spec fn paid_facts(snap: Option<StackPaidSnapshot>) -> Seq<PaidFactView> {
    match snap {
        None => Seq::empty(),
        Some(p) => x_part(p) + shown(p.actual_mana_spent > 0, PaidFactView::ManaSpent { amount: p.actual_mana_spent })
            + shown(p.distinct_colors_spent > 0, PaidFactView::ColorsSpent { distinct: p.distinct_colors_spent })
            + shown(p.kickers_paid > 0, PaidFactView::Kicked { count: p.kickers_paid })
            + shown(p.additional_cost_paid, PaidFactView::AdditionalCostPaid)
            + shown(
                p.casting_variant != CastingVariant::Normal,
                PaidFactView::CastVariant { variant: casting_variant_text(p.casting_variant) },
            ) + shown(p.convoked_creatures > 0, PaidFactView::Convoked { count: p.convoked_creatures }),
    }
}

/// The views of a list of paid facts.
pub open spec fn fact_views(fs: Seq<StackPaidFactView>) -> Seq<PaidFactView> {
    fs.map_values(|f: StackPaidFactView| fact_view(f))
}

fn push_fact_if(v: &mut Vec<StackPaidFactView>, cond: bool, f: StackPaidFactView)
    ensures
        fact_views(final(v)@) == fact_views(old(v)@) + shown(cond, fact_view(f)),
{
    if cond {
        v.push(f);
        assert(fact_views(v@) =~= fact_views(old(v)@) + shown(cond, fact_view(f)));
    } else {
        assert(fact_views(v@) =~= fact_views(old(v)@) + shown(cond, fact_view(f)));
    }
}

/// The facts shown for what was paid for a spell.
pub fn stack_paid_facts(snapshot: Option<&StackPaidSnapshot>) -> (r: Vec<StackPaidFactView>)
    ensures
        fact_views(r@) == paid_facts(
            match snapshot {
                Some(p) => Some(*p),
                None => None,
            },
        ),
{
    let mut facts: Vec<StackPaidFactView> = Vec::new();
    let p = match snapshot {
        Some(p) => p,
        None => {
            assert(fact_views(facts@) =~= Seq::<PaidFactView>::empty());
            return facts;
        },
    };
    match p.x_value {
        Some(v) => {
            facts.push(StackPaidFactView::XValue { value: v });
        },
        None => {},
    }
    assert(fact_views(facts@) =~= x_part(*p));
    push_fact_if(&mut facts, p.actual_mana_spent > 0, StackPaidFactView::ManaSpent { amount: p.actual_mana_spent });
    push_fact_if(
        &mut facts,
        p.distinct_colors_spent > 0,
        StackPaidFactView::ColorsSpent { distinct: p.distinct_colors_spent },
    );
    push_fact_if(&mut facts, p.kickers_paid > 0, StackPaidFactView::Kicked { count: p.kickers_paid });
    push_fact_if(&mut facts, p.additional_cost_paid, StackPaidFactView::AdditionalCostPaid);
    let variant = string_of(casting_variant_name(p.casting_variant));
    push_fact_if(
        &mut facts,
        !matches!(p.casting_variant, CastingVariant::Normal),
        StackPaidFactView::CastVariant { variant },
    );
    push_fact_if(&mut facts, p.convoked_creatures > 0, StackPaidFactView::Convoked { count: p.convoked_creatures });
    facts
}

/// A chosen target and its label, as values.
pub open spec fn target_display_view(d: StackTargetDisplay) -> (TargetRef, Seq<char>) {
    (d.target, d.label@)
}

/// The views of a list of labelled targets.
pub open spec fn targets_view(ds: Seq<StackTargetDisplay>) -> Seq<(TargetRef, Seq<char>)> {
    ds.map_values(|d: StackTargetDisplay| target_display_view(d))
}

/// Each target with its label.
pub open spec fn labelled_targets(s: GameState, ts: Seq<TargetRef>) -> Seq<(TargetRef, Seq<char>)> {
    ts.map_values(|t: TargetRef| (t, target_text(s, t)))
}

/// The targets shown for a stack entry: the creature an equip attaches to;
/// none for the other keyword actions; else the chosen targets of its
/// ability.
pub open spec fn entry_targets(e: StackEntry) -> Seq<TargetRef> {
    match e.kind {
        StackEntryKind::KeywordAction { action } => match action {
            KeywordAction::Equip { target_creature_id } => seq![TargetRef::Object(target_creature_id)],
            _ => Seq::empty(),
        },
        StackEntryKind::Spell { ability, .. } => match ability {
            Some(a) => a.targets@,
            None => Seq::empty(),
        },
        StackEntryKind::ActivatedAbility { ability, .. } => ability.targets@,
        StackEntryKind::TriggeredAbility { ability, .. } => ability.targets@,
    }
}

fn entry_target_refs(entry: &StackEntry) -> (r: Vec<TargetRef>)
    ensures
        r@ == entry_targets(*entry),
{
    match &entry.kind {
        StackEntryKind::KeywordAction { action } => match action {
            KeywordAction::Equip { target_creature_id } => vec![TargetRef::Object(*target_creature_id)],
            _ => Vec::new(),
        },
        StackEntryKind::Spell { ability, .. } => match ability {
            Some(a) => a.targets.clone(),
            None => Vec::new(),
        },
        StackEntryKind::ActivatedAbility { ability, .. } => ability.targets.clone(),
        StackEntryKind::TriggeredAbility { ability, .. } => ability.targets.clone(),
    }
}

/// The labelled targets of a stack entry.
fn stack_entry_targets(state: &GameState, entry: &StackEntry) -> (r: Vec<StackTargetDisplay>)
    ensures
        targets_view(r@) == labelled_targets(*state, entry_targets(*entry)),
{
    let ts = entry_target_refs(entry);
    let mut out: Vec<StackTargetDisplay> = Vec::new();
    let mut i: usize = 0;
    while i < ts.len()
        invariant
            i <= ts@.len(),
            targets_view(out@) == labelled_targets(*state, ts@.take(i as int)),
        decreases ts@.len() - i,
    {
        let t = ts[i];
        assert(ts@.take(i as int + 1) =~= ts@.take(i as int).push(t));
        let label = target_label(state, t);
        let ghost prev = out@;
        let d = StackTargetDisplay { target: t, label };
        out.push(d);
        assert(targets_view(out@) =~= targets_view(prev).push(target_display_view(d)));
        assert(labelled_targets(*state, ts@.take(i as int + 1)) =~= labelled_targets(*state, ts@.take(i as int)).push(
            (t, target_text(*state, t)),
        ));
        i = i + 1;
    }
    assert(ts@.take(i as int) =~= ts@);
    out
}

/// The name of a keyword action.
pub open spec fn action_text(a: KeywordAction) -> Seq<char> {
    match a {
        KeywordAction::Equip { .. } => "Equip"@,
        KeywordAction::Crew => "Crew"@,
        KeywordAction::Saddle => "Saddle"@,
        KeywordAction::Station => "Station"@,
    }
}

fn keyword_action_label(a: KeywordAction) -> (r: &'static str)
    ensures
        r@ == action_text(a),
{
    match a {
        KeywordAction::Equip { .. } => "Equip",
        KeywordAction::Crew => "Crew",
        KeywordAction::Saddle => "Saddle",
        KeywordAction::Station => "Station",
    }
}

/// What kind of stack entry it is, for players; an activated ability whose
/// place among its source's abilities is known is numbered from one.
pub open spec fn kind_text(e: StackEntry) -> Seq<char> {
    match e.kind {
        StackEntryKind::Spell { .. } => "Spell"@,
        StackEntryKind::ActivatedAbility { ability_index, .. } => match ability_index {
            Some(i) => "Activated ability "@ + decimal((i + 1) as nat),
            None => "Activated ability"@,
        },
        StackEntryKind::TriggeredAbility { .. } => "Triggered ability"@,
        StackEntryKind::KeywordAction { action } => action_text(action),
    }
}

fn kind_label(entry: &StackEntry) -> (r: String)
    ensures
        r@ == kind_text(*entry),
{
    match &entry.kind {
        StackEntryKind::Spell { .. } => string_of("Spell"),
        StackEntryKind::ActivatedAbility { ability_index, .. } => match ability_index {
            Some(i) => {
                let mut t = string_of("Activated ability ");
                let n = decimal_string(*i as u128 + 1);
                t.append(n.as_str());
                t
            },
            None => string_of("Activated ability"),
        },
        StackEntryKind::TriggeredAbility { .. } => string_of("Triggered ability"),
        StackEntryKind::KeywordAction { action } => string_of(keyword_action_label(*action)),
    }
}

/// The ability text shown for a stack entry: a spell's or an activated
/// ability's own; for a triggered ability, the trigger's description, else
/// its ability's; none for a keyword action.
pub open spec fn description_text(e: StackEntry) -> Option<Seq<char>> {
    match e.kind {
        StackEntryKind::Spell { ability, .. } => match ability {
            Some(a) => opt_text(a.description),
            None => None,
        },
        StackEntryKind::ActivatedAbility { ability, .. } => opt_text(ability.description),
        StackEntryKind::TriggeredAbility { ability, description, .. } => match description {
            Some(d) => Some(d@),
            None => opt_text(ability.description),
        },
        StackEntryKind::KeywordAction { .. } => None,
    }
}

fn clone_text(o: &Option<String>) -> (r: Option<String>)
    ensures
        opt_text(r) == opt_text(*o),
{
    match o {
        Some(t) => Some(t.clone()),
        None => None,
    }
}

fn description_of(entry: &StackEntry) -> (r: Option<String>)
    ensures
        opt_text(r) == description_text(*entry),
{
    match &entry.kind {
        StackEntryKind::Spell { ability, .. } => match ability {
            Some(a) => clone_text(&a.description),
            None => None,
        },
        StackEntryKind::ActivatedAbility { ability, .. } => clone_text(&ability.description),
        StackEntryKind::TriggeredAbility { ability, description, .. } => match description {
            Some(d) => Some(d.clone()),
            None => clone_text(&ability.description),
        },
        StackEntryKind::KeywordAction { .. } => None,
    }
}

/// The name shown for the source of a stack entry: a triggered ability's
/// recorded source name where it is not empty; else the source object's
/// name; "Unknown" where there is no such object.
pub open spec fn source_text(s: GameState, e: StackEntry) -> Seq<char> {
    let fallback = if s.has_obj(e.source_id) {
        s.ov(e.source_id).name
    } else {
        "Unknown"@
    };
    match e.kind {
        StackEntryKind::TriggeredAbility { source_name, .. } => if source_name@.len() > 0 {
            source_name@
        } else {
            fallback
        },
        _ => fallback,
    }
}

fn stack_source_name(state: &GameState, entry: &StackEntry) -> (r: String)
    ensures
        r@ == source_text(*state, *entry),
{
    if let StackEntryKind::TriggeredAbility { source_name, .. } = &entry.kind {
        if source_name.unicode_len() > 0 {
            return source_name.clone();
        }
    }
    match state.object(entry.source_id) {
        Some(o) => o.name.clone(),
        None => string_of("Unknown"),
    }
}

/// The first paid-facts record kept for the entry id.
pub open spec fn paid_record(ps: Seq<(ObjectId, StackPaidSnapshot)>, id: ObjectId) -> Option<StackPaidSnapshot>
    decreases ps.len(),
{
    if ps.len() == 0 {
        None
    } else if ps[0].0 == id {
        Some(ps[0].1)
    } else {
        paid_record(ps.drop_first(), id)
    }
}

fn find_paid(state: &GameState, id: ObjectId) -> (r: Option<&StackPaidSnapshot>)
    ensures
        match r {
            Some(p) => paid_record(state.stack_paid_facts@, id) == Some(*p),
            None => paid_record(state.stack_paid_facts@, id) is None,
        },
{
    let ps = &state.stack_paid_facts;
    let mut i: usize = 0;
    assert(ps@.skip(0) =~= ps@);
    while i < ps.len()
        invariant
            i <= ps@.len(),
            ps@ == state.stack_paid_facts@,
            paid_record(ps@, id) == paid_record(ps@.skip(i as int), id),
        decreases ps@.len() - i,
    {
        assert(ps@.skip(i as int).drop_first() =~= ps@.skip(i as int + 1));
        assert(ps@.skip(i as int)[0] == ps@[i as int]);
        if ps[i].0 == id {
            assert(paid_record(ps@.skip(i as int), id) == Some(ps@[i as int].1));
            return Some(&ps[i].1);
        }
        i = i + 1;
    }
    None
}

/// The first batch of triggering events kept for the entry id.
pub open spec fn batch_record(bs: Seq<(ObjectId, Vec<GameEvent>)>, id: ObjectId) -> Option<Seq<GameEvent>>
    decreases bs.len(),
{
    if bs.len() == 0 {
        None
    } else if bs[0].0 == id {
        Some(bs[0].1@)
    } else {
        batch_record(bs.drop_first(), id)
    }
}

fn find_batch(state: &GameState, id: ObjectId) -> (r: Option<&Vec<GameEvent>>)
    ensures
        match r {
            Some(b) => batch_record(state.stack_trigger_event_batches@, id) == Some(b@),
            None => batch_record(state.stack_trigger_event_batches@, id) is None,
        },
{
    let bs = &state.stack_trigger_event_batches;
    let mut i: usize = 0;
    assert(bs@.skip(0) =~= bs@);
    while i < bs.len()
        invariant
            i <= bs@.len(),
            bs@ == state.stack_trigger_event_batches@,
            batch_record(bs@, id) == batch_record(bs@.skip(i as int), id),
        decreases bs@.len() - i,
    {
        assert(bs@.skip(i as int).drop_first() =~= bs@.skip(i as int + 1));
        assert(bs@.skip(i as int)[0] == bs@[i as int]);
        if bs[i].0 == id {
            assert(batch_record(bs@.skip(i as int), id) == Some(bs@[i as int].1@));
            return Some(&bs[i].1);
        }
        i = i + 1;
    }
    None
}

/// The events whose context is shown for a stack entry: the batch kept for
/// it where that batch is not empty; else a triggered ability's own
/// triggering event, where it has one.
pub open spec fn context_events(s: GameState, e: StackEntry) -> Seq<GameEvent> {
    let batch = match batch_record(s.stack_trigger_event_batches@, e.id) {
        Some(b) => b,
        None => Seq::empty(),
    };
    if batch.len() > 0 {
        batch
    } else {
        match e.kind {
            StackEntryKind::TriggeredAbility { trigger_event, .. } => match trigger_event {
                Some(ev) => seq![ev],
                None => Seq::empty(),
            },
            _ => Seq::empty(),
        }
    }
}

/// The shown contexts of a list of events, in order; events that are not
/// shown are left out.
pub open spec fn contexts(s: GameState, evs: Seq<GameEvent>) -> Seq<ContextView>
    decreases evs.len(),
{
    if evs.len() == 0 {
        Seq::empty()
    } else {
        let r = contexts(s, evs.drop_last());
        match event_display(s, evs.last()) {
            Some(v) => r.push(v),
            None => r,
        }
    }
}

/// The views of a list of trigger contexts.
pub open spec fn context_views(ds: Seq<TriggerContextDisplay>) -> Seq<ContextView> {
    ds.map_values(|d: TriggerContextDisplay| context_view(d))
}

fn displays_of_events(state: &GameState, evs: &Vec<GameEvent>) -> (r: Vec<TriggerContextDisplay>)
    ensures
        context_views(r@) == contexts(*state, evs@),
{
    let mut out: Vec<TriggerContextDisplay> = Vec::new();
    let mut i: usize = 0;
    while i < evs.len()
        invariant
            i <= evs@.len(),
            context_views(out@) == contexts(*state, evs@.take(i as int)),
        decreases evs@.len() - i,
    {
        let d = trigger_event_display(state, &evs[i]);
        assert(evs@.take(i as int + 1).drop_last() =~= evs@.take(i as int));
        match d {
            Some(x) => {
                out.push(x);
            },
            None => {},
        }
        i = i + 1;
        assert(context_views(out@) =~= contexts(*state, evs@.take(i as int)));
    }
    assert(evs@.take(i as int) =~= evs@);
    out
}

/// The public context of the events behind a stack entry.
fn stack_trigger_context(state: &GameState, entry: &StackEntry) -> (r: Vec<TriggerContextDisplay>)
    ensures
        context_views(r@) == contexts(*state, context_events(*state, *entry)),
{
    match find_batch(state, entry.id) {
        Some(b) => {
            if b.len() > 0 {
                return displays_of_events(state, b);
            }
        },
        None => {},
    }
    match &entry.kind {
        StackEntryKind::TriggeredAbility { trigger_event, .. } => match trigger_event {
            Some(ev) => {
                let d = trigger_event_display(state, ev);
                let mut r: Vec<TriggerContextDisplay> = Vec::new();
                match d {
                    Some(x) => {
                        r.push(x);
                    },
                    None => {},
                }
                assert(seq![*ev].drop_last() =~= Seq::<GameEvent>::empty());
                assert(seq![*ev].last() == *ev);
                assert(contexts(*state, Seq::<GameEvent>::empty()) =~= Seq::<ContextView>::empty());
                assert(context_views(r@) =~= contexts(*state, seq![*ev]));
                r
            },
            None => {
                let r: Vec<TriggerContextDisplay> = Vec::new();
                assert(context_views(r@) =~= Seq::<ContextView>::empty());
                r
            },
        },
        _ => {
            let r: Vec<TriggerContextDisplay> = Vec::new();
            assert(context_views(r@) =~= Seq::<ContextView>::empty());
            r
        },
    }
}

/// What the details of a stack entry say, as values.
pub struct DetailView {
    pub source_name: Seq<char>,
    pub kind_label: Seq<char>,
    pub ability_description: Option<Seq<char>>,
    pub targets: Seq<(TargetRef, Seq<char>)>,
    pub paid: Seq<PaidFactView>,
    pub trigger_context: Seq<ContextView>,
}

/// The view of the details of a stack entry.
pub open spec fn detail_view(d: StackEntryDisplay) -> DetailView {
    DetailView {
        source_name: d.source_name@,
        kind_label: d.kind_label@,
        ability_description: opt_text(d.ability_description),
        targets: targets_view(d.targets@),
        paid: fact_views(d.paid@),
        trigger_context: context_views(d.trigger_context@),
    }
}

/// The details shown for a stack entry.
pub open spec fn entry_detail(s: GameState, e: StackEntry) -> DetailView {
    DetailView {
        source_name: source_text(s, e),
        kind_label: kind_text(e),
        ability_description: description_text(e),
        targets: labelled_targets(s, entry_targets(e)),
        paid: paid_facts(paid_record(s.stack_paid_facts@, e.id)),
        trigger_context: contexts(s, context_events(s, e)),
    }
}

fn stack_entry_detail(state: &GameState, entry: &StackEntry) -> (r: StackEntryDisplay)
    ensures
        detail_view(r) == entry_detail(*state, *entry),
{
    let source_name = stack_source_name(state, entry);
    let kind_label = kind_label(entry);
    let ability_description = description_of(entry);
    let targets = stack_entry_targets(state, entry);
    let paid = stack_paid_facts(find_paid(state, entry.id));
    let trigger_context = stack_trigger_context(state, entry);
    StackEntryDisplay { source_name, kind_label, ability_description, targets, paid, trigger_context }
}

/// The details of every stack entry, keyed by the entry's id, in stack order.
pub open spec fn details_view(ds: Seq<(ObjectId, StackEntryDisplay)>) -> Seq<(ObjectId, DetailView)> {
    ds.map_values(|d: (ObjectId, StackEntryDisplay)| (d.0, detail_view(d.1)))
}

/// The details of the entries, in order.
pub open spec fn entry_details(s: GameState, es: Seq<StackEntry>) -> Seq<(ObjectId, DetailView)> {
    es.map_values(|e: StackEntry| (e.id, entry_detail(s, e)))
}

fn stack_entry_details(state: &GameState) -> (r: Vec<(ObjectId, StackEntryDisplay)>)
    ensures
        details_view(r@) == entry_details(*state, state.stack@),
{
    let mut out: Vec<(ObjectId, StackEntryDisplay)> = Vec::new();
    let mut i: usize = 0;
    while i < state.stack.len()
        invariant
            i <= state.stack@.len(),
            details_view(out@) == entry_details(*state, state.stack@.take(i as int)),
        decreases state.stack@.len() - i,
    {
        assert(state.stack@.take(i as int + 1) =~= state.stack@.take(i as int).push(state.stack@[i as int]));
        let d = stack_entry_detail(state, &state.stack[i]);
        let ghost prev = out@;
        let id = state.stack[i].id;
        out.push((id, d));
        assert(details_view(out@) =~= details_view(prev).push((id, detail_view(d))));
        assert(entry_details(*state, state.stack@.take(i as int + 1)) =~= entry_details(
            *state,
            state.stack@.take(i as int),
        ).push((id, entry_detail(*state, state.stack@[i as int]))));
        i = i + 1;
    }
    assert(state.stack@.take(i as int) =~= state.stack@);
    out
}

/// A run of adjacent stack entries shown as one: the ids of its entries,
/// top first, and how many there are.
#[derive(Debug, Clone, PartialEq, Eq)]
pub struct StackDisplayGroup {
    pub entry_ids: Vec<ObjectId>,
    pub count: usize,
}

/// What makes two stack entries look the same to players.
pub struct GroupKey {
    pub source: ObjectId,
    pub kind: Seq<char>,
    pub description: Option<Seq<char>>,
    pub targets: Seq<TargetRef>,
}

/// The look of a stack entry: its source, kind, ability text and targets.
pub open spec fn group_key(e: StackEntry) -> GroupKey {
    GroupKey {
        source: e.source_id,
        kind: kind_text(e),
        description: description_text(e),
        targets: entry_targets(e),
    }
}

/// Keyword actions are always shown one by one.
pub open spec fn coalesces(e: StackEntry) -> bool {
    !(e.kind is KeywordAction)
}

/// Two adjacent entries are shown as one group.
pub open spec fn joins(a: StackEntry, b: StackEntry) -> bool {
    coalesces(a) && coalesces(b) && group_key(a) == group_key(b)
}

/// The stack as display groups: each entry joins the group of the entry
/// before it where the two look the same, else starts a group of its own.
pub open spec fn stack_groups(es: Seq<StackEntry>) -> Seq<Seq<ObjectId>>
    decreases es.len(),
{
    if es.len() == 0 {
        Seq::empty()
    } else {
        let g = stack_groups(es.drop_last());
        if es.len() >= 2 && joins(es[es.len() - 2], es.last()) {
            g.update(g.len() - 1, g.last().push(es.last().id))
        } else {
            g.push(seq![es.last().id])
        }
    }
}

/// The ids in each group.
pub open spec fn groups_view(gs: Seq<StackDisplayGroup>) -> Seq<Seq<ObjectId>> {
    gs.map_values(|g: StackDisplayGroup| g.entry_ids@)
}

/// Every group counts its entries.
pub open spec fn groups_counted(gs: Seq<StackDisplayGroup>) -> bool {
    forall|j: int| 0 <= j < gs.len() ==> (#[trigger] gs[j]).count == gs[j].entry_ids@.len()
}

fn same_text(a: &Option<String>, b: &Option<String>) -> (r: bool)
    ensures
        r == (opt_text(*a) == opt_text(*b)),
{
    match (a, b) {
        (Some(x), Some(y)) => *x == *y,
        (None, None) => true,
        _ => false,
    }
}

fn same_refs(a: &Vec<TargetRef>, b: &Vec<TargetRef>) -> (r: bool)
    ensures
        r == (a@ == b@),
{
    if a.len() != b.len() {
        return false;
    }
    let mut i: usize = 0;
    while i < a.len()
        invariant
            a@.len() == b@.len(),
            i <= a@.len(),
            forall|j: int| 0 <= j < i ==> a@[j] == b@[j],
        decreases a@.len() - i,
    {
        if a[i] != b[i] {
            return false;
        }
        i = i + 1;
    }
    assert(a@ =~= b@);
    true
}

fn entries_join(a: &StackEntry, b: &StackEntry) -> (r: bool)
    ensures
        r == joins(*a, *b),
{
    if matches!(a.kind, StackEntryKind::KeywordAction { .. }) || matches!(b.kind, StackEntryKind::KeywordAction { .. }) {
        return false;
    }
    if a.source_id != b.source_id {
        return false;
    }
    let ka = kind_label(a);
    let kb = kind_label(b);
    if !(ka == kb) {
        return false;
    }
    let da = description_of(a);
    let db = description_of(b);
    if !same_text(&da, &db) {
        return false;
    }
    let ta = entry_target_refs(a);
    let tb = entry_target_refs(b);
    same_refs(&ta, &tb)
}

/// The stack as display groups.
pub fn stack_display_groups(state: &GameState) -> (r: Vec<StackDisplayGroup>)
    ensures
        groups_view(r@) == stack_groups(state.stack@),
        groups_counted(r@),
{
    let es = &state.stack;
    let mut out: Vec<StackDisplayGroup> = Vec::new();
    let mut i: usize = 0;
    while i < es.len()
        invariant
            i <= es@.len(),
            groups_view(out@) == stack_groups(es@.take(i as int)),
            groups_counted(out@),
            forall|j: int| 0 <= j < out@.len() ==> (#[trigger] out@[j]).count <= i,
            i > 0 ==> out@.len() > 0,
        decreases es@.len() - i,
    {
        let ghost prev = out@;
        let ghost pre = es@.take(i as int);
        let ghost cur = es@.take(i as int + 1);
        assert(cur.drop_last() =~= pre);
        let id = es[i].id;
        let join = if i > 0 {
            entries_join(&es[i - 1], &es[i])
        } else {
            false
        };
        if join {
            assert(cur[cur.len() - 2] == es@[i - 1]);
            let mut g = out.pop().unwrap();
            g.entry_ids.push(id);
            g.count = g.count + 1;
            out.push(g);
            assert(groups_view(out@) =~= groups_view(prev).update(prev.len() - 1, groups_view(prev).last().push(id)));
        } else {
            let mut ids: Vec<ObjectId> = Vec::new();
            ids.push(id);
            assert(ids@ =~= seq![id]);
            out.push(StackDisplayGroup { entry_ids: ids, count: 1 });
            assert(groups_view(out@) =~= groups_view(prev).push(seq![id]));
        }
        i = i + 1;
    }
    assert(es@.take(i as int) =~= es@);
    out
}

/// The Aura is on the battlefield, attached to the player.
pub open spec fn hosts_aura(s: GameState, id: ObjectId, p: PlayerId) -> bool {
    &&& s.has_obj(id)
    &&& s.ov(id).zone == Zone::Battlefield
    &&& s.ov(id).attached_to == Some(AttachTarget::Player(p))
}

/// The listed objects attached to the player, in order.
pub open spec fn auras_on(s: GameState, ids: Seq<ObjectId>, p: PlayerId) -> Seq<ObjectId>
    decreases ids.len(),
{
    if ids.len() == 0 {
        Seq::empty()
    } else {
        let r = auras_on(s, ids.drop_last(), p);
        if hosts_aura(s, ids.last(), p) {
            r.push(ids.last())
        } else {
            r
        }
    }
}

/// For each player with an id below `k`, in order, the battlefield
/// objects attached to them; players with none are left out.
pub open spec fn aura_buckets(s: GameState, k: nat) -> Seq<(PlayerId, Seq<ObjectId>)>
    decreases k,
{
    if k == 0 {
        Seq::empty()
    } else {
        let r = aura_buckets(s, (k - 1) as nat);
        let p = PlayerId((k - 1) as u8);
        let l = auras_on(s, s.battlefield@, p);
        if l.len() > 0 {
            r.push((p, l))
        } else {
            r
        }
    }
}

/// The views of per-player id lists.
pub open spec fn id_buckets_view(bs: Seq<(PlayerId, Vec<ObjectId>)>) -> Seq<(PlayerId, Seq<ObjectId>)> {
    bs.map_values(|b: (PlayerId, Vec<ObjectId>)| (b.0, b.1@))
}

fn auras_attached_to(state: &GameState, p: PlayerId) -> (r: Vec<ObjectId>)
    ensures
        r@ == auras_on(*state, state.battlefield@, p),
{
    let bf = &state.battlefield;
    let mut out: Vec<ObjectId> = Vec::new();
    let mut i: usize = 0;
    while i < bf.len()
        invariant
            i <= bf@.len(),
            bf@ == state.battlefield@,
            out@ == auras_on(*state, bf@.take(i as int), p),
        decreases bf@.len() - i,
    {
        let id = bf[i];
        assert(bf@.take(i as int + 1).drop_last() =~= bf@.take(i as int));
        let hosted = match state.object(id) {
            Some(o) => matches!(o.zone, Zone::Battlefield) && o.attached_to == Some(AttachTarget::Player(p)),
            None => false,
        };
        if hosted {
            out.push(id);
        }
        i = i + 1;
    }
    assert(bf@.take(i as int) =~= bf@);
    out
}

fn auras_by_player(state: &GameState) -> (r: Vec<(PlayerId, Vec<ObjectId>)>)
    ensures
        id_buckets_view(r@) == aura_buckets(*state, 256),
{
    let mut out: Vec<(PlayerId, Vec<ObjectId>)> = Vec::new();
    let mut k: u16 = 0;
    while k < 256
        invariant
            k <= 256,
            id_buckets_view(out@) == aura_buckets(*state, k as nat),
        decreases 256 - k,
    {
        let p = PlayerId(k as u8);
        let l = auras_attached_to(state, p);
        let ghost prev = out@;
        if l.len() > 0 {
            out.push((p, l));
            assert(id_buckets_view(out@) =~= id_buckets_view(prev).push((p, auras_on(*state, state.battlefield@, p))));
        }
        k = k + 1;
    }
    out
}

/// The commander damage the victim took from commanders that the attacker
/// controls, in the order it was recorded; damage by a commander the state
/// has no object for is left out.
pub open spec fn damage_from(
    s: GameState,
    victim: PlayerId,
    attacker: PlayerId,
    es: Seq<CommanderDamageEntry>,
) -> Seq<CommanderDamageView>
    decreases es.len(),
{
    if es.len() == 0 {
        Seq::empty()
    } else {
        let r = damage_from(s, victim, attacker, es.drop_last());
        let e = es.last();
        if e.player == victim && s.has_obj(e.commander) && s.ov(e.commander).controller == attacker {
            r.push(CommanderDamageView { victim, commander: e.commander, damage: e.damage })
        } else {
            r
        }
    }
}

/// The commander damage dealt by the attacker's commanders, victim by
/// victim in the order of the seats.
pub open spec fn damage_over_seats(s: GameState, attacker: PlayerId, seats: Seq<PlayerId>) -> Seq<CommanderDamageView>
    decreases seats.len(),
{
    if seats.len() == 0 {
        Seq::empty()
    } else {
        damage_over_seats(s, attacker, seats.drop_last()) + damage_from(
            s,
            seats.last(),
            attacker,
            s.commander_damage@,
        )
    }
}

/// For each attacking player with an id below `k`, in order, the
/// commander damage their commanders dealt; players who dealt none are
/// left out.
pub open spec fn damage_buckets(s: GameState, k: nat) -> Seq<(PlayerId, Seq<CommanderDamageView>)>
    decreases k,
{
    if k == 0 {
        Seq::empty()
    } else {
        let r = damage_buckets(s, (k - 1) as nat);
        let p = PlayerId((k - 1) as u8);
        let l = damage_over_seats(s, p, s.seat_order@);
        if l.len() > 0 {
            r.push((p, l))
        } else {
            r
        }
    }
}

/// The views of per-player damage lists.
pub open spec fn damage_buckets_view(bs: Seq<(PlayerId, Vec<CommanderDamageView>)>) -> Seq<
    (PlayerId, Seq<CommanderDamageView>),
> {
    bs.map_values(|b: (PlayerId, Vec<CommanderDamageView>)| (b.0, b.1@))
}

fn damage_received_from(state: &GameState, victim: PlayerId, attacker: PlayerId) -> (r: Vec<CommanderDamageView>)
    ensures
        r@ == damage_from(*state, victim, attacker, state.commander_damage@),
{
    let es = &state.commander_damage;
    let mut out: Vec<CommanderDamageView> = Vec::new();
    let mut i: usize = 0;
    while i < es.len()
        invariant
            i <= es@.len(),
            es@ == state.commander_damage@,
            out@ == damage_from(*state, victim, attacker, es@.take(i as int)),
        decreases es@.len() - i,
    {
        let e = es[i];
        assert(es@.take(i as int + 1).drop_last() =~= es@.take(i as int));
        if e.player == victim {
            match state.object(e.commander) {
                Some(o) => {
                    if o.controller == attacker {
                        out.push(CommanderDamageView { victim, commander: e.commander, damage: e.damage });
                    }
                },
                None => {},
            }
        }
        i = i + 1;
    }
    assert(es@.take(i as int) =~= es@);
    out
}

fn damage_dealt_by(state: &GameState, attacker: PlayerId) -> (r: Vec<CommanderDamageView>)
    ensures
        r@ == damage_over_seats(*state, attacker, state.seat_order@),
{
    let seats = &state.seat_order;
    let mut out: Vec<CommanderDamageView> = Vec::new();
    let mut i: usize = 0;
    while i < seats.len()
        invariant
            i <= seats@.len(),
            seats@ == state.seat_order@,
            out@ == damage_over_seats(*state, attacker, seats@.take(i as int)),
        decreases seats@.len() - i,
    {
        assert(seats@.take(i as int + 1).drop_last() =~= seats@.take(i as int));
        let mut more = damage_received_from(state, seats[i], attacker);
        out.append(&mut more);
        i = i + 1;
    }
    assert(seats@.take(i as int) =~= seats@);
    out
}

fn damage_by_attacker(state: &GameState) -> (r: Vec<(PlayerId, Vec<CommanderDamageView>)>)
    ensures
        damage_buckets_view(r@) == damage_buckets(*state, 256),
{
    let mut out: Vec<(PlayerId, Vec<CommanderDamageView>)> = Vec::new();
    let mut k: u16 = 0;
    while k < 256
        invariant
            k <= 256,
            damage_buckets_view(out@) == damage_buckets(*state, k as nat),
        decreases 256 - k,
    {
        let p = PlayerId(k as u8);
        let l = damage_dealt_by(state, p);
        let ghost prev = out@;
        if l.len() > 0 {
            out.push((p, l));
            assert(damage_buckets_view(out@) =~= damage_buckets_view(prev).push(
                (p, damage_over_seats(*state, p, state.seat_order@)),
            ));
        }
        k = k + 1;
    }
    out
}

/// The presentation projections handed to clients with the state.
#[derive(Debug, Clone, PartialEq, Eq)]
pub struct DerivedViews {
    /// Commander damage by the player controlling the commander that dealt
    /// it, in player order; each commander keeps its own entries.
    pub commander_damage_by_attacker: Vec<(PlayerId, Vec<CommanderDamageView>)>,
    /// The stack as groups of adjacent entries that look the same.
    pub stack_display_groups: Vec<StackDisplayGroup>,
    /// The details of each stack entry, by the entry's id, in stack order.
    pub stack_entry_details: Vec<(ObjectId, StackEntryDisplay)>,
    /// The Auras attached to each player, in player order; players with
    /// none are left out.
    pub auras_attached_to_player: Vec<(PlayerId, Vec<ObjectId>)>,
}

impl DerivedViews {
    /// No projections.
    pub fn empty() -> (r: DerivedViews)
        ensures
            r.commander_damage_by_attacker@.len() == 0,
            r.stack_display_groups@.len() == 0,
            r.stack_entry_details@.len() == 0,
            r.auras_attached_to_player@.len() == 0,
    {
        DerivedViews {
            commander_damage_by_attacker: Vec::new(),
            stack_display_groups: Vec::new(),
            stack_entry_details: Vec::new(),
            auras_attached_to_player: Vec::new(),
        }
    }
}

/// What the projections of a state are: commander damage only where the
/// format has a commander-damage threshold; the stack's groups and entry
/// details; and the Auras attached to each player.
pub open spec fn views_of(s: GameState, d: DerivedViews) -> bool {
    &&& damage_buckets_view(d.commander_damage_by_attacker@) == (if s.format_config.commander_damage_threshold is None {
        Seq::empty()
    } else {
        damage_buckets(s, 256)
    })
    &&& groups_view(d.stack_display_groups@) == stack_groups(s.stack@)
    &&& groups_counted(d.stack_display_groups@)
    &&& details_view(d.stack_entry_details@) == entry_details(s, s.stack@)
    &&& id_buckets_view(d.auras_attached_to_player@) == aura_buckets(s, 256)
}

/// Computes the projections of the state for a client. Commander damage is
/// public, so nothing computed here depends on the viewer. The web-slinging
/// costs of the viewer's own hand (CR 702.188a), which depend on the viewer,
/// are not computed: this library models no static abilities and no
/// web-slinging keyword, so `viewer` goes unused.
pub fn derive_views(state: &GameState, viewer: Option<PlayerId>) -> (r: DerivedViews)
    ensures
        views_of(*state, r),
{
    let mut views = DerivedViews::empty();
    if state.stack.len() > 0 {
        views.stack_display_groups = stack_display_groups(state);
        views.stack_entry_details = stack_entry_details(state);
    } else {
        assert(state.stack@ =~= Seq::<StackEntry>::empty());
        assert(groups_view(views.stack_display_groups@) =~= Seq::<Seq<ObjectId>>::empty());
        assert(details_view(views.stack_entry_details@) =~= entry_details(*state, state.stack@));
    }
    views.auras_attached_to_player = auras_by_player(state);
    if state.format_config.commander_damage_threshold.is_none() {
        assert(damage_buckets_view(views.commander_damage_by_attacker@) =~= Seq::<
            (PlayerId, Seq<CommanderDamageView>),
        >::empty());
        return views;
    }
    views.commander_damage_by_attacker = damage_by_attacker(state);
    views
}

/// A borrowed state with its projections, as sent to a client.
#[derive(Debug)]
pub struct ClientGameStateRef<'a> {
    pub state: &'a GameState,
    pub derived: DerivedViews,
}

impl<'a> ClientGameStateRef<'a> {
    /// The state with its projections.
    pub fn wrap(state: &'a GameState, viewer: Option<PlayerId>) -> (r: Self)
        ensures
            *r.state == *state,
            views_of(*state, r.derived),
    {
        ClientGameStateRef { state, derived: derive_views(state, viewer) }
    }
}

/// An owned state with its projections, as a client receives it.
#[derive(Debug)]
pub struct ClientGameState {
    pub state: GameState,
    pub derived: DerivedViews,
}

/// The ids of the entries, in order.
pub open spec fn entry_ids(es: Seq<StackEntry>) -> Seq<ObjectId> {
    es.map_values(|e: StackEntry| e.id)
}

/// The groups, one after another.
pub open spec fn flatten_groups(gs: Seq<Seq<ObjectId>>) -> Seq<ObjectId>
    decreases gs.len(),
{
    if gs.len() == 0 {
        Seq::empty()
    } else {
        flatten_groups(gs.drop_last()) + gs.last()
    }
}

proof fn lemma_flatten_update_last(gs: Seq<Seq<ObjectId>>, x: ObjectId)
    requires
        gs.len() > 0,
    ensures
        flatten_groups(gs.update(gs.len() - 1, gs.last().push(x))) == flatten_groups(gs).push(x),
{
    let u = gs.update(gs.len() - 1, gs.last().push(x));
    assert(u.drop_last() =~= gs.drop_last());
    assert(u.last() == gs.last().push(x));
    assert(flatten_groups(gs.drop_last()) + gs.last().push(x) =~= (flatten_groups(gs.drop_last()) + gs.last()).push(x));
}

/// Grouping the stack for display loses, adds and reorders nothing: the
/// groups, one after another, are the stack's entries in order, and no
/// group is empty.
pub proof fn law_stack_groups_partition_the_stack(es: Seq<StackEntry>)
    ensures
        flatten_groups(stack_groups(es)) == entry_ids(es),
        forall|j: int| 0 <= j < stack_groups(es).len() ==> (#[trigger] stack_groups(es)[j]).len() > 0,
        es.len() > 0 ==> stack_groups(es).len() > 0,
    decreases es.len(),
{
    if es.len() > 0 {
        let pre = es.drop_last();
        law_stack_groups_partition_the_stack(pre);
        let g = stack_groups(pre);
        assert(entry_ids(es) =~= entry_ids(pre).push(es.last().id));
        if es.len() >= 2 && joins(es[es.len() - 2], es.last()) {
            lemma_flatten_update_last(g, es.last().id);
        } else {
            let h = g.push(seq![es.last().id]);
            assert(h.drop_last() =~= g);
            assert(flatten_groups(g) + seq![es.last().id] =~= flatten_groups(g).push(es.last().id));
        }
    } else {
        assert(entry_ids(es) =~= Seq::<ObjectId>::empty());
    }
}

} // verus!
