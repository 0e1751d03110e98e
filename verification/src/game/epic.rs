//! CR 702.50: epic. Resolving an epic spell leaves a rest-of-game effect:
//! its controller can't cast spells, and at the beginning of each of their
//! upkeeps a copy of the spell is put on the stack.

use vstd::prelude::*;

use crate::game::state::{frame, touch_none, EpicEffect, GameState, ObjectView, StackEntry, StackEntryKind, Touched};
use crate::text::string_of;
use crate::types::copies::{copy_ability, copy_event, copy_text, same_ability, same_event};
use crate::types::ability::{CopyRetargetPermission, Effect, ResolvedAbility, TargetFilter};
use crate::types::events::{GameEvent, Phase};
use crate::types::identifiers::{ObjectId, PlayerId};
use crate::types::keywords::Keyword;

verus! {

/// A triggered ability waiting to be put on the stack.
#[derive(Debug)]
pub struct PendingTrigger {
    pub source_id: ObjectId,
    pub controller: PlayerId,
    pub ability: ResolvedAbility,
    pub timestamp: u32,
    pub trigger_event: Option<GameEvent>,
    pub description: Option<String>,
}

/// A pending trigger with the events that triggered it.
#[derive(Debug)]
pub struct PendingTriggerContext {
    pub trigger_events: Vec<GameEvent>,
    pub pending: PendingTrigger,
}

/// CR 702.50a: the player controls an epic effect, so can't cast spells for
/// the rest of the game.
pub open spec fn epic_locked(s: GameState, p: PlayerId) -> bool {
    exists|i: int| 0 <= i < s.epic_effects@.len() && (#[trigger] s.epic_effects@[i]).controller == p
}

/// Whether the player is under an epic effect's casting lock.
pub fn player_is_epic_locked(state: &GameState, player: PlayerId) -> (r: bool)
    ensures
        r == epic_locked(*state, player),
{
    let mut i: usize = 0;
    while i < state.epic_effects.len()
        invariant
            i <= state.epic_effects@.len(),
            forall|j: int| 0 <= j < i ==> (#[trigger] state.epic_effects@[j]).controller != player,
        decreases state.epic_effects@.len() - i,
    {
        if state.epic_effects[i].controller == player {
            return true;
        }
        i = i + 1;
    }
    false
}

/// The two stack entries are the same: the same id, source and controller,
/// and the same kind of entry with the same contents (the abilities,
/// texts and triggering event they carry).
pub open spec fn same_entry(a: StackEntry, b: StackEntry) -> bool {
    &&& a.id == b.id
    &&& a.source_id == b.source_id
    &&& a.controller == b.controller
    &&& match (a.kind, b.kind) {
        (StackEntryKind::Spell { card_id: x, ability: p }, StackEntryKind::Spell { card_id: y, ability: q }) => {
            &&& x == y
            &&& match (p, q) {
                (None, None) => true,
                (Some(f), Some(g)) => same_ability(f, g),
                _ => false,
            }
        },
        (
            StackEntryKind::ActivatedAbility { ability: p, ability_index: x },
            StackEntryKind::ActivatedAbility { ability: q, ability_index: y },
        ) => x == y && same_ability(p, q),
        (
            StackEntryKind::TriggeredAbility { ability: p, description: d, source_name: x, trigger_event: t },
            StackEntryKind::TriggeredAbility { ability: q, description: e, source_name: y, trigger_event: u },
        ) => {
            &&& same_ability(p, q)
            &&& d == e
            &&& x == y
            &&& match (t, u) {
                (None, None) => true,
                (Some(v), Some(w)) => same_event(v, w),
                _ => false,
            }
        },
        (StackEntryKind::KeywordAction { action: x }, StackEntryKind::KeywordAction { action: y }) => x == y,
        _ => false,
    }
}

fn copy_entry(e: &StackEntry) -> (r: StackEntry)
    ensures
        same_entry(*e, r),
{
    let kind = match &e.kind {
        StackEntryKind::Spell { card_id, ability } => StackEntryKind::Spell {
            card_id: *card_id,
            ability: match ability {
                Some(a) => Some(copy_ability(a)),
                None => None,
            },
        },
        StackEntryKind::ActivatedAbility { ability, ability_index } => StackEntryKind::ActivatedAbility {
            ability: copy_ability(ability),
            ability_index: *ability_index,
        },
        StackEntryKind::TriggeredAbility { ability, description, source_name, trigger_event } => {
            StackEntryKind::TriggeredAbility {
                ability: copy_ability(ability),
                description: copy_text(description),
                source_name: source_name.clone(),
                trigger_event: match trigger_event {
                    Some(t) => Some(copy_event(t)),
                    None => None,
                },
            }
        },
        StackEntryKind::KeywordAction { action } => StackEntryKind::KeywordAction { action: *action },
    };
    StackEntry { id: e.id, source_id: e.source_id, controller: e.controller, kind }
}

/// The index of the first epic effect left by the stack entry `id`.
pub open spec fn first_epic_of(effects: Seq<EpicEffect>, id: ObjectId) -> Option<int> {
    if exists|i: int| 0 <= i < effects.len() && (#[trigger] effects[i]).source_entry.id == id {
        Some(
            choose|i: int|
                0 <= i < effects.len() && effects[i].source_entry.id == id && forall|j: int|
                    0 <= j < i ==> (#[trigger] effects[j]).source_entry.id != id,
        )
    } else {
        None
    }
}

/// The stack entry of the spell that left the first epic effect from
/// `source_id`, copied; `None` where there is no such effect.
pub fn epic_source_entry(state: &GameState, source_id: ObjectId) -> (r: Option<StackEntry>)
    ensures
        match first_epic_of(state.epic_effects@, source_id) {
            Some(i) => (r matches Some(e) && same_entry(state.epic_effects@[i].source_entry, e)),
            None => r is None,
        },
{
    let ghost es = state.epic_effects@;
    let mut i: usize = 0;
    while i < state.epic_effects.len()
        invariant
            i <= es.len(),
            es == state.epic_effects@,
            forall|j: int| 0 <= j < i ==> (#[trigger] es[j]).source_entry.id != source_id,
        decreases es.len() - i,
    {
        if state.epic_effects[i].source_entry.id == source_id {
            proof {
                let w = choose|k: int|
                    0 <= k < es.len() && es[k].source_entry.id == source_id && forall|j: int|
                        0 <= j < k ==> (#[trigger] es[j]).source_entry.id != source_id;
                assert(0 <= i < es.len() && es[i as int].source_entry.id == source_id && forall|j: int|
                    0 <= j < i ==> (#[trigger] es[j]).source_entry.id != source_id);
                if w < i {
                    assert(es[w].source_entry.id != source_id);
                } else if w > i {
                    assert(es[i as int].source_entry.id != source_id);
                }
            }
            return Some(copy_entry(&state.epic_effects[i].source_entry));
        }
        i = i + 1;
    }
    None
}

/// The keywords include epic.
pub open spec fn has_epic(ks: Seq<Keyword>) -> bool {
    exists|i: int| 0 <= i < ks.len() && ks[i] is Epic
}

/// CR 702.50a: the entry is an epic spell: a spell whose object exists, is
/// no token (a copy isn't cast) and has epic.
pub open spec fn is_epic_spell(s: GameState, e: StackEntry) -> bool {
    &&& e.kind is Spell
    &&& s.has_obj(e.id)
    &&& !s.ov(e.id).is_token
    &&& has_epic(s.ov(e.id).keywords)
}

fn keywords_have_epic(ks: &Vec<Keyword>) -> (r: bool)
    ensures
        r == has_epic(ks@),
{
    let mut i: usize = 0;
    while i < ks.len()
        invariant
            i <= ks@.len(),
            forall|j: int| 0 <= j < i ==> !(ks@[j] is Epic),
        decreases ks@.len() - i,
    {
        if matches!(ks[i], Keyword::Epic) {
            return true;
        }
        i = i + 1;
    }
    false
}

/// CR 702.50a: when an epic spell resolves, register its rest-of-game
/// effect: controlled by the spell's controller, remembering the spell's
/// entry and name, stamped with the next timestamp. Anything else changes
/// nothing.
pub fn register_epic_effect(state: &mut GameState, entry: &StackEntry)
    requires
        is_epic_spell(*old(state), *entry) ==> old(state).next_timestamp < u64::MAX,
    ensures
        if is_epic_spell(*old(state), *entry) {
            let n = old(state).epic_effects@.len();
            let e = final(state).epic_effects@[n as int];
            &&& final(state).epic_effects@.len() == n + 1
            &&& final(state).epic_effects@.take(n as int) == old(state).epic_effects@
            &&& e.controller == entry.controller
            &&& epic_locked(*final(state), entry.controller)
            &&& same_entry(*entry, e.source_entry)
            &&& e.source_name@ == old(state).ov(entry.id).name
            &&& e.timestamp == old(state).next_timestamp as u32
            &&& final(state).next_timestamp == old(state).next_timestamp + 1
            &&& frame(*old(state), *final(state), Touched { epic_effects: true, next_timestamp: true, ..touch_none() })
        } else {
            *final(state) == *old(state)
        },
{
    let is_spell = matches!(entry.kind, StackEntryKind::Spell { .. });
    if !is_spell || entry.id.0 >= state.objects.len() as u64 {
        return ;
    }
    let i = entry.id.0 as usize;
    if state.objects[i].is_token || !keywords_have_epic(&state.objects[i].keywords) {
        return ;
    }
    let source_name = state.objects[i].name.clone();
    let ts = state.next_timestamp;
    state.next_timestamp = ts + 1;
    let timestamp = ts as u32;
    state.epic_effects.push(EpicEffect { controller: entry.controller, source_entry: copy_entry(entry), source_name, timestamp });
    assert(state.epic_effects@.take(old(state).epic_effects@.len() as int) =~= old(state).epic_effects@);
    assert(state.epic_effects@[old(state).epic_effects@.len() as int].controller == entry.controller);
}

/// The indexes, in order, of the first `n` epic effects that the given
/// player controls.
pub open spec fn epics_of(effects: Seq<EpicEffect>, p: PlayerId, n: nat) -> Seq<int>
    decreases n,
{
    if n == 0 {
        Seq::empty()
    } else {
        epics_of(effects, p, (n - 1) as nat) + if effects[n - 1].controller == p {
            seq![n - 1]
        } else {
            Seq::empty()
        }
    }
}

/// The epic effects a trigger is owed for, per event in turn: at each
/// beginning of an upkeep, every epic effect of the active player.
pub open spec fn upkeep_plan(s: GameState, evs: Seq<GameEvent>) -> Seq<int>
    decreases evs.len(),
{
    if evs.len() == 0 {
        Seq::empty()
    } else {
        upkeep_plan(s, evs.drop_last()) + if evs.last() == (GameEvent::PhaseChanged { phase: Phase::Upkeep }) {
            epics_of(s.epic_effects@, s.active_player, s.epic_effects@.len())
        } else {
            Seq::empty()
        }
    }
}

/// CR 702.50a: the upkeep trigger of an epic effect: copy the spell (the
/// copy may get new targets), from the spell and for the effect's
/// controller, with the effect's timestamp, triggered by the upkeep.
pub open spec fn is_epic_trigger(t: PendingTriggerContext, e: EpicEffect) -> bool {
    let upkeep = GameEvent::PhaseChanged { phase: Phase::Upkeep };
    &&& t.trigger_events@ == seq![upkeep]
    &&& t.pending.source_id == e.source_entry.id
    &&& t.pending.controller == e.controller
    &&& t.pending.ability.effect == (Effect::CopySpell {
        target: TargetFilter::SelfRef,
        retarget: CopyRetargetPermission::MayChooseNewTargets,
    })
    &&& t.pending.ability.targets@.len() == 0
    &&& t.pending.ability.source_id == e.source_entry.id
    &&& t.pending.ability.controller == e.controller
    &&& t.pending.timestamp == e.timestamp
    &&& t.pending.trigger_event == Some(upkeep)
    &&& (t.pending.description matches Some(d) && d@ == "Epic - "@ + e.source_name@)
}

fn epic_trigger(e: &EpicEffect) -> (t: PendingTriggerContext)
    ensures
        is_epic_trigger(t, *e),
{
    let ability = ResolvedAbility::new(
        Effect::CopySpell { target: TargetFilter::SelfRef, retarget: CopyRetargetPermission::MayChooseNewTargets },
        Vec::new(),
        e.source_entry.id,
        e.controller,
    );
    let mut description = string_of("Epic - ");
    description.append(e.source_name.as_str());
    let mut trigger_events: Vec<GameEvent> = Vec::new();
    trigger_events.push(GameEvent::PhaseChanged { phase: Phase::Upkeep });
    assert(trigger_events@ =~= seq![GameEvent::PhaseChanged { phase: Phase::Upkeep }]);
    PendingTriggerContext {
        trigger_events,
        pending: PendingTrigger {
            source_id: e.source_entry.id,
            controller: e.controller,
            ability,
            timestamp: e.timestamp,
            trigger_event: Some(GameEvent::PhaseChanged { phase: Phase::Upkeep }),
            description: Some(description),
        },
    }
}

/// `b` is `a` with one trigger appended per entry of the plan, each the
/// upkeep trigger of the planned epic effect.
pub open spec fn triggers_appended(
    effects: Seq<EpicEffect>,
    a: Seq<PendingTriggerContext>,
    b: Seq<PendingTriggerContext>,
    plan: Seq<int>,
) -> bool {
    &&& b.len() == a.len() + plan.len()
    &&& b.take(a.len() as int) == a
    &&& forall|m: int| 0 <= m < plan.len() ==> is_epic_trigger(#[trigger] b[a.len() + m], effects[plan[m]])
}

proof fn lemma_epics_of_bounds(effects: Seq<EpicEffect>, p: PlayerId, n: nat)
    requires
        n <= effects.len(),
    ensures
        forall|m: int| 0 <= m < epics_of(effects, p, n).len() ==> 0 <= #[trigger] epics_of(effects, p, n)[m] < n,
    decreases n,
{
    if n > 0 {
        lemma_epics_of_bounds(effects, p, (n - 1) as nat);
        let a = epics_of(effects, p, (n - 1) as nat);
        let b: Seq<int> = if effects[n - 1].controller == p {
            seq![n - 1]
        } else {
            Seq::empty()
        };
        assert forall|m: int| 0 <= m < (a + b).len() implies 0 <= #[trigger] (a + b)[m] < n by {
            if m < a.len() {
                assert((a + b)[m] == a[m]);
            } else {
                assert((a + b)[m] == b[m - a.len()]);
            }
        }
    }
}

proof fn lemma_upkeep_plan_bounds(s: GameState, evs: Seq<GameEvent>)
    ensures
        forall|m: int| 0 <= m < upkeep_plan(s, evs).len() ==> 0 <= #[trigger] upkeep_plan(s, evs)[m]
            < s.epic_effects@.len(),
    decreases evs.len(),
{
    if evs.len() > 0 {
        lemma_upkeep_plan_bounds(s, evs.drop_last());
        lemma_epics_of_bounds(s.epic_effects@, s.active_player, s.epic_effects@.len());
        let a = upkeep_plan(s, evs.drop_last());
        let b: Seq<int> = if evs.last() == (GameEvent::PhaseChanged { phase: Phase::Upkeep }) {
            epics_of(s.epic_effects@, s.active_player, s.epic_effects@.len())
        } else {
            Seq::empty()
        };
        assert forall|m: int| 0 <= m < (a + b).len() implies 0 <= #[trigger] (a + b)[m] < s.epic_effects@.len() by {
            if m < a.len() {
                assert((a + b)[m] == a[m]);
            } else {
                assert((a + b)[m] == b[m - a.len()]);
            }
        }
    }
}

proof fn lemma_triggers_appended_push(
    effects: Seq<EpicEffect>,
    a: Seq<PendingTriggerContext>,
    b: Seq<PendingTriggerContext>,
    plan: Seq<int>,
    t: PendingTriggerContext,
    i: int,
)
    requires
        triggers_appended(effects, a, b, plan),
        is_epic_trigger(t, effects[i]),
    ensures
        triggers_appended(effects, a, b.push(t), plan.push(i)),
{
    assert(b.push(t).take(a.len() as int) =~= b.take(a.len() as int));
    assert forall|m: int| 0 <= m < plan.len() + 1 implies is_epic_trigger(
        #[trigger] b.push(t)[a.len() + m],
        effects[plan.push(i)[m]],
    ) by {
        if m < plan.len() {
            assert(b.push(t)[a.len() + m] == b[a.len() + m]);
        }
    }
}

/// CR 702.50a: for each beginning of an upkeep among the events, queue the
/// upkeep trigger of each epic effect the active player controls, in order.
pub fn collect_upkeep_triggers(state: &GameState, events: &[GameEvent], pending: &mut Vec<PendingTriggerContext>)
    ensures
        triggers_appended(state.epic_effects@, old(pending)@, final(pending)@, upkeep_plan(*state, events@)),
{
    let ghost effects = state.epic_effects@;
    let ghost p0 = pending@;
    assert(pending@.take(p0.len() as int) =~= p0);
    proof {
        lemma_upkeep_plan_bounds(*state, events@);
    }
    let mut k: usize = 0;
    while k < events.len()
        invariant
            k <= events@.len(),
            effects == state.epic_effects@,
            triggers_appended(effects, p0, pending@, upkeep_plan(*state, events@.take(k as int))),
        decreases events@.len() - k,
    {
        assert(events@.take(k + 1).drop_last() =~= events@.take(k as int));
        let ghost plan0 = upkeep_plan(*state, events@.take(k as int));
        if matches!(events[k], GameEvent::PhaseChanged { phase: Phase::Upkeep }) {
            assert(events@.take(k + 1).last() == (GameEvent::PhaseChanged { phase: Phase::Upkeep }));
            let active = state.active_player;
            let mut j: usize = 0;
            assert(plan0 + epics_of(effects, active, 0) =~= plan0);
            while j < state.epic_effects.len()
                invariant
                    j <= effects.len(),
                    effects == state.epic_effects@,
                    active == state.active_player,
                    triggers_appended(effects, p0, pending@, plan0 + epics_of(effects, active, j as nat)),
                decreases effects.len() - j,
            {
                let e = &state.epic_effects[j];
                if e.controller == active {
                    let t = epic_trigger(e);
                    proof {
                        lemma_triggers_appended_push(effects, p0, pending@, plan0 + epics_of(effects, active, j as nat), t, j as int);
                        assert(plan0 + epics_of(effects, active, (j + 1) as nat) =~= (plan0 + epics_of(
                            effects,
                            active,
                            j as nat,
                        )).push(j as int));
                    }
                    pending.push(t);
                } else {
                    assert(plan0 + epics_of(effects, active, (j + 1) as nat) =~= plan0 + epics_of(effects, active, j as nat));
                }
                j = j + 1;
            }
        } else {
            assert(upkeep_plan(*state, events@.take(k + 1)) =~= plan0);
        }
        k = k + 1;
    }
    assert(events@.take(k as int) =~= events@);
}

/// The keywords without epic.
pub open spec fn without_epic(ks: Seq<Keyword>) -> Seq<Keyword>
    decreases ks.len(),
{
    if ks.len() == 0 {
        ks
    } else if ks.last() is Epic {
        without_epic(ks.drop_last())
    } else {
        without_epic(ks.drop_last()).push(ks.last())
    }
}

fn drop_epic(ks: Vec<Keyword>) -> (r: Vec<Keyword>)
    ensures
        r@ == without_epic(ks@),
{
    let ghost k0 = ks@;
    let mut rest = ks;
    let mut reversed: Vec<Keyword> = Vec::new();
    while rest.len() > 0
        invariant
            k0 == rest@ + reversed@.reverse(),
        decreases rest@.len(),
    {
        let k = rest.pop().unwrap();
        proof {
            assert(rest@.push(k) + reversed@.reverse() =~= rest@ + reversed@.push(k).reverse());
        }
        reversed.push(k);
    }
    assert(reversed@.reverse() =~= k0);
    let mut out: Vec<Keyword> = Vec::new();
    while reversed.len() > 0
        invariant
            out@ == without_epic(k0.take(k0.len() - reversed@.len())),
            reversed@.reverse() == k0.skip(k0.len() - reversed@.len()),
            reversed@.len() <= k0.len(),
        decreases reversed@.len(),
    {
        let ghost n = k0.len() - reversed@.len();
        let k = reversed.pop().unwrap();
        proof {
            assert(k0.skip(n)[0] == k) by {
                assert(k0.skip(n) == reversed@.push(k).reverse());
            }
            assert(k0.take(n + 1).drop_last() =~= k0.take(n));
            assert(k0.take(n + 1).last() == k0[n]);
            assert(k0[n] == k0.skip(n)[0]);
            assert(reversed@.reverse() =~= k0.skip(n + 1)) by {
                assert(k0.skip(n) == reversed@.push(k).reverse());
                assert(reversed@.push(k).reverse() =~= seq![k] + reversed@.reverse());
                assert(k0.skip(n + 1) =~= k0.skip(n).drop_first());
            }
        }
        if !matches!(k, Keyword::Epic) {
            out.push(k);
        }
    }
    assert(k0.take(k0.len() as int) =~= k0);
    out
}

/// CR 702.50a: a copy of an epic spell does not have epic of its own: take
/// epic out of the object's keywords and printed keywords. Does nothing where
/// there is no such object.
pub fn remove_epic_keyword_from_copy(state: &mut GameState, object_id: ObjectId)
    ensures
        final(state).objects@.len() == old(state).objects@.len(),
        forall|i: int|
            0 <= i < old(state).objects@.len() ==> (#[trigger] final(state).objects@[i])@ == if i == object_id.0 {
                ObjectView {
                    keywords: without_epic(old(state).objects@[i]@.keywords),
                    base_keywords: without_epic(old(state).objects@[i]@.base_keywords),
                    ..old(state).objects@[i]@
                }
            } else {
                old(state).objects@[i]@
            },
        forall|i: int|
            0 <= i < old(state).objects@.len() ==> (#[trigger] final(state).objects@[i]).id == old(state).objects@[i].id
                && final(state).objects@[i].zone == old(state).objects@[i].zone && final(state).objects@[i].owner
                == old(state).objects@[i].owner && final(state).objects@[i].mana_cost@
                == old(state).objects@[i].mana_cost@,
        frame(*old(state), *final(state), Touched { objects: true, ..touch_none() }),
{
    let n = state.objects.len();
    if object_id.0 >= n as u64 {
        return ;
    }
    let i = object_id.0 as usize;
    let ghost os = state.objects@;
    let mut ks: Vec<Keyword> = Vec::new();
    std::mem::swap(&mut ks, &mut state.objects[i].keywords);
    state.objects[i].keywords = drop_epic(ks);
    let mut bks: Vec<Keyword> = Vec::new();
    std::mem::swap(&mut bks, &mut state.objects[i].base_keywords);
    state.objects[i].base_keywords = drop_epic(bks);
    assert(state.objects@ =~= os.update(i as int, state.objects@[i as int]));
}

} // verus!
