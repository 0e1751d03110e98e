//! CR 701.26: tapping and untapping permanents.

use vstd::prelude::*;

use crate::game::effects::{
    ctx_of,
    ability_ctx, clamped_quantity, lemma_wf_same_skeleton, matching_ids, matching_ids_of,
    object_targets, object_targets_of, resolve_count,
};
use crate::game::filter::FilterContext;
use crate::game::state::{
    frame, oviews, touch_none, GameObject, GameState, ObjectView, Touched, WaitingFor,
};
use crate::seqs::{first_index, lemma_contains_push, lemma_first_index_found, lemma_first_index_none};
use crate::text::string_of;
use crate::types::ability::{
    is_missing_param,
    effect_kind_of, Effect, EffectError, EffectKind, EffectScope, MultiTargetSpec, ResolvedAbility,
    TapStateChange, TargetChoiceTiming, TargetFilter,
};
use crate::types::events::GameEvent;
use crate::types::identifiers::{ObjectId, TrackedSetId};
use crate::types::zones::Zone;

verus! {

/// The ids of the first tracked set published under `id`; empty if none
/// was.
pub open spec fn tracked_set(sets: Seq<(TrackedSetId, Vec<ObjectId>)>, id: TrackedSetId) -> Seq<ObjectId>
    decreases sets.len(),
{
    if sets.len() == 0 {
        Seq::empty()
    } else if sets[0].0 == id {
        sets[0].1@
    } else {
        tracked_set(sets.drop_first(), id)
    }
}

/// The position of the tracked set with the highest id (the first such);
/// -1 when there is none.
pub open spec fn latest_tracked_index(sets: Seq<(TrackedSetId, Vec<ObjectId>)>) -> int
    decreases sets.len(),
{
    if sets.len() == 0 {
        -1
    } else {
        let r = latest_tracked_index(sets.drop_last());
        if r < 0 || sets.last().0.0 > sets[r].0.0 {
            sets.len() - 1
        } else {
            r
        }
    }
}

/// The objects a single-scope tap or untap acts on (CR 603.7e, CR 608.2c):
/// `SelfRef` is the source; `TrackedSet` the published set, its id 0 being
/// the most recently published; otherwise the object targets.
pub open spec fn tap_untap_targets(s: GameState, ab: ResolvedAbility, f: TargetFilter) -> Seq<ObjectId> {
    match f {
        TargetFilter::SelfRef => seq![ab.source_id],
        TargetFilter::TrackedSet { id } => if id == TrackedSetId(0) {
            let r = latest_tracked_index(s.tracked_object_sets@);
            if r < 0 {
                Seq::empty()
            } else {
                s.tracked_object_sets@[r].1@
            }
        } else {
            tracked_set(s.tracked_object_sets@, id)
        },
        _ => object_targets(ab.targets@),
    }
}

/// The objects with each named object's tapped flag set to `v`.
pub open spec fn with_tapped(os: Seq<ObjectView>, ids: Seq<ObjectId>, v: bool) -> Seq<ObjectView> {
    Seq::new(
        os.len(),
        |i: int|
            if ids.contains(ObjectId(i as u64)) {
                ObjectView { tapped: v, ..os[i] }
            } else {
                os[i]
            },
    )
}

/// The events tapping or untapping the ids reports, in order.
pub open spec fn tap_events(ids: Seq<ObjectId>, change: TapStateChange, source: ObjectId) -> Seq<GameEvent> {
    Seq::new(
        ids.len(),
        |j: int|
            match change {
                TapStateChange::Tap => GameEvent::PermanentTapped { object_id: ids[j], caused_by: Some(source) },
                TapStateChange::Untap => GameEvent::PermanentUntapped { object_id: ids[j] },
            },
    )
}

/// An id that names none of `n` objects.
pub open spec fn missing_pred(n: nat) -> spec_fn(ObjectId) -> bool {
    |x: ObjectId| x.0 >= n
}

/// The position of the first id that names no object; -1 if all do.
pub open spec fn first_missing(s: GameState, ids: Seq<ObjectId>) -> int {
    first_index(ids, missing_pred(s.objects@.len()))
}

/// The bounds of an "up to" choice among `n` eligible objects: the
/// minimum and maximum counts, each clamped at zero and at `n`, the
/// minimum never above the maximum.
pub open spec fn choice_bounds(s: GameState, spec: MultiTargetSpec, ab: ResolvedAbility, n: nat) -> (nat, nat) {
    let max = if clamped_quantity(s, spec.max, ability_ctx(ab)) < n {
        clamped_quantity(s, spec.max, ability_ctx(ab))
    } else {
        n
    };
    let min = if clamped_quantity(s, spec.min, ability_ctx(ab)) < max {
        clamped_quantity(s, spec.min, ability_ctx(ab))
    } else {
        max
    };
    (min, max)
}

/// Whether a single tap/untap chooses its objects on resolution: targets
/// chosen on resolution, none chosen yet, and a count given.
pub open spec fn prompts_on_resolution(ab: ResolvedAbility) -> bool {
    ab.target_choice_timing == TargetChoiceTiming::Resolution && ab.targets@.len() == 0
        && ab.multi_target is Some
}

/// The battlefield objects a resolution-time choice may pick.
pub open spec fn prompt_eligible(s: GameState, ab: ResolvedAbility, f: TargetFilter) -> Seq<ObjectId> {
    matching_ids(s, s.battlefield@, f, ability_ctx(ab))
}

/// The effect's objects each get their tapped flag set; the state and the
/// events are as CR 701.26 says, stopping at the first id that names no
/// object.
pub open spec fn tapped_outcome(
    s0: GameState,
    s1: GameState,
    ev0: Seq<GameEvent>,
    ev1: Seq<GameEvent>,
    r: Result<(), EffectError>,
    ids: Seq<ObjectId>,
    change: TapStateChange,
    ab: ResolvedAbility,
) -> bool {
    let v = change == TapStateChange::Tap;
    let fm = first_missing(s0, ids);
    let done = if fm < 0 {
        ids
    } else {
        ids.take(fm)
    };
    &&& s1.wf()
    &&& oviews(s1.objects@) == with_tapped(oviews(s0.objects@), done, v)
    &&& frame(s0, s1, Touched { objects: true, ..touch_none() })
    &&& if fm < 0 {
        &&& r is Ok
        &&& ev1 == ev0 + tap_events(ids, change, ab.source_id) + seq![
            GameEvent::EffectResolved { kind: effect_kind_of(ab.effect), source_id: ab.source_id },
        ]
    } else {
        &&& r == Err::<(), EffectError>(EffectError::ObjectNotFound(ids[fm]))
        &&& ev1 == ev0 + tap_events(done, change, ab.source_id)
    }
}

fn tracked_set_of(sets: &Vec<(TrackedSetId, Vec<ObjectId>)>, id: TrackedSetId) -> (r: Vec<ObjectId>)
    ensures
        r@ == tracked_set(sets@, id),
{
    let mut i: usize = 0;
    assert(sets@.skip(0) =~= sets@);
    while i < sets.len()
        invariant
            i <= sets@.len(),
            tracked_set(sets@, id) == tracked_set(sets@.skip(i as int), id),
        decreases sets@.len() - i,
    {
        assert(sets@.skip(i as int).drop_first() =~= sets@.skip(i + 1));
        if sets[i].0 == id {
            return copy_ids(&sets[i].1);
        }
        i = i + 1;
    }
    Vec::new()
}

fn copy_ids(v: &Vec<ObjectId>) -> (r: Vec<ObjectId>)
    ensures
        r@ == v@,
{
    let mut out: Vec<ObjectId> = Vec::new();
    let mut i: usize = 0;
    while i < v.len()
        invariant
            i <= v@.len(),
            out@ == v@.take(i as int),
        decreases v@.len() - i,
    {
        out.push(v[i]);
        assert(v@.take(i + 1) =~= v@.take(i as int).push(v@[i as int]));
        i = i + 1;
    }
    assert(v@.take(i as int) =~= v@);
    out
}

fn latest_tracked(sets: &Vec<(TrackedSetId, Vec<ObjectId>)>) -> (r: Vec<ObjectId>)
    ensures
        latest_tracked_index(sets@) < 0 ==> r@.len() == 0,
        latest_tracked_index(sets@) >= 0 ==> r@ == sets@[latest_tracked_index(sets@)].1@,
{
    let mut best: Option<usize> = None;
    let mut i: usize = 0;
    while i < sets.len()
        invariant
            i <= sets@.len(),
            match best {
                None => latest_tracked_index(sets@.take(i as int)) < 0,
                Some(b) => b < i && latest_tracked_index(sets@.take(i as int)) == b,
            },
        decreases sets@.len() - i,
    {
        assert(sets@.take(i + 1).drop_last() =~= sets@.take(i as int));
        match best {
            None => {
                best = Some(i);
            },
            Some(b) => {
                if sets[i].0.0 > sets[b].0.0 {
                    best = Some(i);
                }
            },
        }
        i = i + 1;
    }
    assert(sets@.take(i as int) =~= sets@);
    match best {
        None => Vec::new(),
        Some(b) => copy_ids(&sets[b].1),
    }
}

/// CR 603.7e + CR 608.2c: the objects a single tap/untap acts on.
fn tap_untap_target_ids(state: &GameState, ability: &ResolvedAbility, f: &TargetFilter) -> (r: Vec<ObjectId>)
    ensures
        r@ == tap_untap_targets(*state, *ability, *f),
{
    match f {
        TargetFilter::SelfRef => {
            let mut v: Vec<ObjectId> = Vec::new();
            v.push(ability.source_id);
            assert(v@ =~= seq![ability.source_id]);
            v
        },
        TargetFilter::TrackedSet { id } => {
            if *id == TrackedSetId(0) {
                latest_tracked(&state.tracked_object_sets)
            } else {
                tracked_set_of(&state.tracked_object_sets, *id)
            }
        },
        _ => object_targets_of(&ability.targets),
    }
}

/// Tap or untap each id in order; stop with `ObjectNotFound` at the first
/// id that names no object.
#[verifier::loop_isolation(false)]
fn apply_tap_state(
    state: &mut GameState,
    ids: &Vec<ObjectId>,
    change: TapStateChange,
    ability: &ResolvedAbility,
    events: &mut Vec<GameEvent>,
) -> (r: Result<(), EffectError>)
    requires
        old(state).wf(),
    ensures
        ({
            let fm = first_missing(*old(state), ids@);
            let done = if fm < 0 {
                ids@
            } else {
                ids@.take(fm)
            };
            &&& final(state).wf()
            &&& oviews(final(state).objects@) == with_tapped(
                oviews(old(state).objects@),
                done,
                change == TapStateChange::Tap,
            )
            &&& frame(*old(state), *final(state), Touched { objects: true, ..touch_none() })
            &&& final(events)@ == old(events)@ + tap_events(done, change, ability.source_id)
            &&& if fm < 0 {
                r is Ok
            } else {
                r == Err::<(), EffectError>(EffectError::ObjectNotFound(ids@[fm]))
            }
        }),
{
    let ghost s0 = *state;
    let ghost ev0 = events@;
    let ghost pred = missing_pred(s0.objects@.len());
    let v = change == TapStateChange::Tap;
    let mut k: usize = 0;
    assert(oviews(s0.objects@) =~= with_tapped(oviews(s0.objects@), ids@.take(0), v));
    assert(events@ =~= ev0 + tap_events(ids@.take(0), change, ability.source_id));
    while k < ids.len()
        invariant
            k <= ids@.len(),
            s0.wf(),
            pred == missing_pred(s0.objects@.len()),
            forall|j: int| 0 <= j < k ==> !pred(#[trigger] ids@[j]),
            v == (change == TapStateChange::Tap),
            state.objects@.len() == s0.objects@.len(),
            oviews(state.objects@) == with_tapped(oviews(s0.objects@), ids@.take(k as int), v),
            frame(s0, *state, Touched { objects: true, ..touch_none() }),
            forall|i: int|
                0 <= i < s0.objects@.len() ==> (#[trigger] state.objects@[i]).id == s0.objects@[i].id
                    && state.objects@[i].zone == s0.objects@[i].zone
                    && state.objects@[i].owner == s0.objects@[i].owner
                    && state.objects@[i].mana_cost@ == s0.objects@[i].mana_cost@,
            events@ == ev0 + tap_events(ids@.take(k as int), change, ability.source_id),
        decreases ids@.len() - k,
    {
        let id = ids[k];
        if id.0 >= state.objects.len() as u64 {
            proof {
                lemma_first_index_found(ids@, pred, k as int);
                lemma_wf_same_skeleton(s0, *state);
            }
            return Err(EffectError::ObjectNotFound(id));
        }
        let i = id.0 as usize;
        let ghost before = oviews(state.objects@);
        let ghost raw = state.objects@;
        state.objects[i].tapped = v;
        assert(state.objects@ == raw.update(i as int, GameObject { tapped: v, ..raw[i as int] }));
        assert(oviews(state.objects@) =~= before.update(i as int, ObjectView { tapped: v, ..before[i as int] }));
        match change {
            TapStateChange::Tap => events.push(GameEvent::PermanentTapped { object_id: id, caused_by: Some(ability.source_id) }),
            TapStateChange::Untap => events.push(GameEvent::PermanentUntapped { object_id: id }),
        }
        proof {
            let os0 = oviews(s0.objects@);
            assert(ids@.take(k + 1) =~= ids@.take(k as int).push(id));
            assert forall|m: int| 0 <= m < s0.objects@.len() implies oviews(state.objects@)[m]
                == with_tapped(os0, ids@.take(k + 1), v)[m] by {
                lemma_contains_push(ids@.take(k as int), id, ObjectId(m as u64));
                if m != i as int {
                    assert(oviews(state.objects@)[m] == before[m]);
                }
            }
            assert(oviews(state.objects@) =~= with_tapped(os0, ids@.take(k + 1), v));
            assert(events@ =~= ev0 + tap_events(ids@.take(k + 1), change, ability.source_id));
        }
        k = k + 1;
    }
    proof {
        assert(ids@.take(k as int) =~= ids@);
        lemma_first_index_none(ids@, pred);
        lemma_wf_same_skeleton(s0, *state);
    }
    Ok(())
}

/// Resolve a multi-target count against `n` eligible objects.
fn choice_bounds_of(state: &GameState, spec: &MultiTargetSpec, ability: &ResolvedAbility, n: usize) -> (r: (usize, usize))
    requires
        state.wf(),
    ensures
        r.0 == choice_bounds(*state, *spec, *ability, n as nat).0,
        r.1 == choice_bounds(*state, *spec, *ability, n as nat).1,
{
    let maxq = resolve_count(state, &spec.max, ctx_of(ability));
    let max: usize = if maxq < n as u64 {
        maxq as usize
    } else {
        n
    };
    let minq = resolve_count(state, &spec.min, ctx_of(ability));
    let min: usize = if minq < max as u64 {
        minq as usize
    } else {
        max
    };
    (min, max)
}

/// CR 608.2c: where the targets are chosen on resolution, ask the controller
/// to choose among the matching battlefield objects. Returns whether the
/// effect was taken care of here.
fn prompt_resolution_tap_untap_choice(
    state: &mut GameState,
    ability: &ResolvedAbility,
    target: &TargetFilter,
    effect_kind: EffectKind,
    events: &mut Vec<GameEvent>,
) -> (handled: bool)
    requires
        old(state).wf(),
    ensures
        handled == prompts_on_resolution(*ability),
        handled ==> ({
            let eligible = prompt_eligible(*old(state), *ability, *target);
            let b = choice_bounds(*old(state), ability.multi_target->Some_0, *ability, eligible.len());
            if b.1 == 0 {
                &&& frame(*old(state), *final(state), touch_none())
                &&& final(events)@ == old(events)@.push(
                    GameEvent::EffectResolved { kind: effect_kind_of(ability.effect), source_id: ability.source_id },
                )
            } else {
                &&& frame(*old(state), *final(state), Touched { waiting_for: true, ..touch_none() })
                &&& final(state).waiting_for matches WaitingFor::EffectZoneChoice {
                    player,
                    cards,
                    count,
                    min_count,
                    up_to,
                    source_id,
                    effect_kind: k,
                    zone,
                } && player == ability.controller && cards@ == eligible && count == b.1
                    && min_count == b.0 && up_to == (b.0 != b.1) && source_id == ability.source_id
                    && k == effect_kind && zone == Zone::Battlefield
                &&& final(events)@ == old(events)@
            }
        }),
        !handled ==> frame(*old(state), *final(state), touch_none()) && final(events)@ == old(events)@,
        final(state).wf(),
{
    if ability.target_choice_timing != TargetChoiceTiming::Resolution || ability.targets.len() != 0 {
        return false;
    }
    let spec = match &ability.multi_target {
        Some(spec) => spec,
        None => return false,
    };
    let ctx = FilterContext { source_id: ability.source_id, controller: ability.controller };
    let eligible = matching_ids_of(state, &state.battlefield, target, ctx);
    let (min, max) = choice_bounds_of(state, spec, ability, eligible.len());
    if max == 0 && min == 0 {
        events.push(GameEvent::EffectResolved { kind: EffectKind::of(&ability.effect), source_id: ability.source_id });
        return true;
    }
    state.waiting_for = WaitingFor::EffectZoneChoice {
        player: ability.controller,
        cards: eligible,
        count: max,
        min_count: min,
        up_to: min != max,
        source_id: ability.source_id,
        effect_kind,
        zone: Zone::Battlefield,
    };
    true
}

/// The class a single-scope change reports before the objects are chosen.
pub open spec fn single_kind(change: TapStateChange) -> EffectKind {
    match change {
        TapStateChange::Tap => EffectKind::Tap,
        TapStateChange::Untap => EffectKind::Untap,
    }
}

/// CR 701.26a/b + CR 608.2c: tap or untap the effect's own objects (see
/// `tap_untap_targets`), or ask for them when they are chosen on resolution.
fn resolve_single(
    state: &mut GameState,
    ability: &ResolvedAbility,
    target: &TargetFilter,
    change: TapStateChange,
    events: &mut Vec<GameEvent>,
) -> (r: Result<(), EffectError>)
    requires
        old(state).wf(),
    ensures
        final(state).wf(),
        prompts_on_resolution(*ability) ==> ({
            let eligible = prompt_eligible(*old(state), *ability, *target);
            let b = choice_bounds(*old(state), ability.multi_target->Some_0, *ability, eligible.len());
            &&& r is Ok
            &&& if b.1 == 0 {
                &&& frame(*old(state), *final(state), touch_none())
                &&& final(events)@ == old(events)@.push(
                    GameEvent::EffectResolved { kind: effect_kind_of(ability.effect), source_id: ability.source_id },
                )
            } else {
                &&& frame(*old(state), *final(state), Touched { waiting_for: true, ..touch_none() })
                &&& final(state).waiting_for matches WaitingFor::EffectZoneChoice {
                    player,
                    cards,
                    count,
                    min_count,
                    up_to,
                    source_id,
                    effect_kind: k,
                    zone,
                } && player == ability.controller && cards@ == eligible && count == b.1
                    && min_count == b.0 && up_to == (b.0 != b.1) && source_id == ability.source_id
                    && k == single_kind(change) && zone == Zone::Battlefield
                &&& final(events)@ == old(events)@
            }
        }),
        !prompts_on_resolution(*ability) ==> tapped_outcome(
            *old(state),
            *final(state),
            old(events)@,
            final(events)@,
            r,
            tap_untap_targets(*old(state), *ability, *target),
            change,
            *ability,
        ),
{
    let effect_kind = match change {
        TapStateChange::Tap => EffectKind::Tap,
        TapStateChange::Untap => EffectKind::Untap,
    };
    if prompt_resolution_tap_untap_choice(state, ability, target, effect_kind, events) {
        return Ok(());
    }
    let ids = tap_untap_target_ids(state, ability, target);
    let r = apply_tap_state(state, &ids, change, ability, events);
    if r.is_err() {
        return r;
    }
    let ghost before = events@;
    events.push(GameEvent::EffectResolved { kind: EffectKind::of(&ability.effect), source_id: ability.source_id });
    assert(events@ =~= before + seq![
        GameEvent::EffectResolved { kind: effect_kind_of(ability.effect), source_id: ability.source_id },
    ]);
    Ok(())
}

/// The permanents a mass tap/untap acts on.
pub open spec fn tap_all_targets(s: GameState, ab: ResolvedAbility, f: TargetFilter) -> Seq<ObjectId> {
    matching_ids(s, s.battlefield@, f, ability_ctx(ab))
}

/// CR 701.26a/b: tap or untap every battlefield permanent the filter
/// matches.
fn resolve_all(
    state: &mut GameState,
    ability: &ResolvedAbility,
    target: &TargetFilter,
    change: TapStateChange,
    events: &mut Vec<GameEvent>,
) -> (r: Result<(), EffectError>)
    requires
        old(state).wf(),
    ensures
        tapped_outcome(
            *old(state),
            *final(state),
            old(events)@,
            final(events)@,
            r,
            tap_all_targets(*old(state), *ability, *target),
            change,
            *ability,
        ),
{
    let ctx = FilterContext { source_id: ability.source_id, controller: ability.controller };
    let matching = matching_ids_of(state, &state.battlefield, target, ctx);
    let r = apply_tap_state(state, &matching, change, ability, events);
    if r.is_err() {
        return r;
    }
    let ghost before = events@;
    events.push(GameEvent::EffectResolved { kind: EffectKind::of(&ability.effect), source_id: ability.source_id });
    assert(events@ =~= before + seq![
        GameEvent::EffectResolved { kind: effect_kind_of(ability.effect), source_id: ability.source_id },
    ]);
    Ok(())
}

/// CR 701.26a (tap) / CR 701.26b (untap): resolve a tap-state effect. A
/// single scope acts on the effect's own objects (or asks for them when
/// they are chosen on resolution); the whole scope on every battlefield
/// permanent its filter matches. Fails, changing nothing, on another
/// effect.
pub fn resolve_set_tap_state(game_state: &mut GameState, ability: &ResolvedAbility, events: &mut Vec<GameEvent>) -> (r:
    Result<(), EffectError>)
    requires
        old(game_state).wf(),
    ensures
        final(game_state).wf(),
        match ability.effect {
            Effect::SetTapState { target, scope: EffectScope::Single, state } => {
                &&& prompts_on_resolution(*ability) ==> r is Ok && ({
                    let eligible = prompt_eligible(*old(game_state), *ability, target);
                    let b = choice_bounds(*old(game_state), ability.multi_target->Some_0, *ability, eligible.len());
                    if b.1 == 0 {
                        &&& frame(*old(game_state), *final(game_state), touch_none())
                        &&& final(events)@ == old(events)@.push(
                            GameEvent::EffectResolved { kind: effect_kind_of(ability.effect), source_id: ability.source_id },
                        )
                    } else {
                        &&& frame(*old(game_state), *final(game_state), Touched { waiting_for: true, ..touch_none() })
                        &&& final(game_state).waiting_for matches WaitingFor::EffectZoneChoice {
                            player,
                            cards,
                            count,
                            min_count,
                            up_to,
                            source_id,
                            effect_kind: k,
                            zone,
                        } && player == ability.controller && cards@ == eligible && count == b.1
                            && min_count == b.0 && up_to == (b.0 != b.1) && source_id == ability.source_id
                            && k == single_kind(state) && zone == Zone::Battlefield
                        &&& final(events)@ == old(events)@
                    }
                })
                &&& !prompts_on_resolution(*ability) ==> tapped_outcome(
                    *old(game_state),
                    *final(game_state),
                    old(events)@,
                    final(events)@,
                    r,
                    tap_untap_targets(*old(game_state), *ability, target),
                    state,
                    *ability,
                )
            },
            Effect::SetTapState { target, scope: EffectScope::All, state } => tapped_outcome(
                *old(game_state),
                *final(game_state),
                old(events)@,
                final(events)@,
                r,
                tap_all_targets(*old(game_state), *ability, target),
                state,
                *ability,
            ),
            _ => {
                &&& is_missing_param(r, "SetTapState"@)
                &&& frame(*old(game_state), *final(game_state), touch_none())
                &&& final(events)@ == old(events)@
            },
        },
{
    match &ability.effect {
        Effect::SetTapState { target, scope, state } => match scope {
            EffectScope::Single => resolve_single(game_state, ability, target, *state, events),
            EffectScope::All => resolve_all(game_state, ability, target, *state, events),
        },
        _ => Err(EffectError::MissingParam(string_of("SetTapState"))),
    }
}

} // verus!
