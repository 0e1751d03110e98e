//! CR 701.15: goad.

use vstd::prelude::*;

use crate::game::effects::{
    ability_ctx, lemma_wf_same_skeleton, matching_ids, matching_ids_of, object_targets,
    object_targets_of,
};
use crate::game::filter::FilterContext;
use crate::seqs::lemma_contains_push;
use crate::game::state::{frame, oviews, touch_none, GameState, ObjectView, Touched};
use crate::types::ability::{effect_kind_of, Effect, EffectError, EffectKind, ResolvedAbility};
use crate::types::events::GameEvent;
use crate::types::identifiers::{ObjectId, PlayerId};
use crate::types::zones::Zone;

verus! {

/// `s` with `p` added, unless it is there already.
pub open spec fn add_once(s: Seq<PlayerId>, p: PlayerId) -> Seq<PlayerId> {
    if s.contains(p) {
        s
    } else {
        s.push(p)
    }
}

/// The objects an ability goads: for "goad all", the phased-in battlefield
/// objects its filter matches; otherwise its object targets.
pub open spec fn goad_targets(s: GameState, ab: ResolvedAbility) -> Seq<ObjectId> {
    match ab.effect {
        Effect::GoadAll { target } => matching_ids(s, s.battlefield@, target, ability_ctx(ab)),
        _ => object_targets(ab.targets@),
    }
}

/// The objects after goading: each named battlefield object is goaded by
/// `p`; everything else is as it was.
pub open spec fn goaded(os: Seq<ObjectView>, ids: Seq<ObjectId>, p: PlayerId) -> Seq<ObjectView> {
    Seq::new(
        os.len(),
        |i: int|
            if ids.contains(ObjectId(i as u64)) && os[i].zone == Zone::Battlefield {
                ObjectView { goaded_by: add_once(os[i].goaded_by, p), ..os[i] }
            } else {
                os[i]
            },
    )
}

fn goad_target_ids(state: &GameState, ability: &ResolvedAbility) -> (r: Vec<ObjectId>)
    ensures
        r@ == goad_targets(*state, *ability),
{
    if let Effect::GoadAll { target } = &ability.effect {
        let ctx = FilterContext { source_id: ability.source_id, controller: ability.controller };
        return matching_ids_of(state, &state.battlefield, target, ctx);
    }
    object_targets_of(&ability.targets)
}

/// CR 701.15a: goad each target creature (for "goad all", each matching
/// battlefield creature) by the ability's controller. A creature is goaded
/// by each player at most once (CR 701.15d); objects not on the
/// battlefield, and ids that name no object, are skipped.
pub fn resolve(state: &mut GameState, ability: &ResolvedAbility, events: &mut Vec<GameEvent>) -> (r:
    Result<(), EffectError>)
    requires
        old(state).wf(),
    ensures
        r is Ok,
        final(state).wf(),
        oviews(final(state).objects@) == goaded(
            oviews(old(state).objects@),
            goad_targets(*old(state), *ability),
            ability.controller,
        ),
        frame(*old(state), *final(state), Touched { objects: true, ..touch_none() }),
        final(events)@ == old(events)@.push(
            GameEvent::EffectResolved { kind: effect_kind_of(ability.effect), source_id: ability.source_id },
        ),
{
    let ghost s0 = *state;
    let ids = goad_target_ids(state, ability);
    let p = ability.controller;
    let mut k: usize = 0;
    assert(oviews(s0.objects@) =~= goaded(oviews(s0.objects@), ids@.take(0), p));
    while k < ids.len()
        invariant
            k <= ids@.len(),
            s0.wf(),
            state.objects@.len() == s0.objects@.len(),
            oviews(state.objects@) == goaded(oviews(s0.objects@), ids@.take(k as int), p),
            frame(s0, *state, Touched { objects: true, ..touch_none() }),
            forall|i: int|
                0 <= i < s0.objects@.len() ==> (#[trigger] state.objects@[i]).id == s0.objects@[i].id
                    && state.objects@[i].zone == s0.objects@[i].zone
                    && state.objects@[i].owner == s0.objects@[i].owner
                    && state.objects@[i].mana_cost@ == s0.objects@[i].mana_cost@,
        decreases ids@.len() - k,
    {
        let id = ids[k];
        let ghost before = oviews(state.objects@);
        if id.0 < state.objects.len() as u64 {
            let i = id.0 as usize;
            if state.objects[i].zone == Zone::Battlefield {
                let mut present = false;
                let mut j: usize = 0;
                while j < state.objects[i].goaded_by.len()
                    invariant
                        i < state.objects@.len(),
                        j <= state.objects@[i as int].goaded_by@.len(),
                        present == (exists|m: int| 0 <= m < j && state.objects@[i as int].goaded_by@[m] == p),
                    decreases state.objects@[i as int].goaded_by@.len() - j,
                {
                    if state.objects[i].goaded_by[j] == p {
                        present = true;
                    }
                    j = j + 1;
                }
                if !present {
                    state.objects[i].goaded_by.push(p);
                }
            }
        }
        proof {
            let os0 = oviews(s0.objects@);
            let after = goaded(os0, ids@.take(k + 1), p);
            assert(ids@.take(k + 1) =~= ids@.take(k as int).push(id));
            assert forall|m: int| 0 <= m < s0.objects@.len() implies oviews(state.objects@)[m] == after[m] by {
                lemma_contains_push(ids@.take(k as int), id, ObjectId(m as u64));
                lemma_contains_push(os0[m].goaded_by, p, p);
                if id != ObjectId(m as u64) {
                    assert(oviews(state.objects@)[m] == before[m]);
                }
            }
            assert(oviews(state.objects@) =~= after);
        }
        k = k + 1;
    }
    assert(ids@.take(k as int) =~= ids@);
    proof {
        lemma_wf_same_skeleton(s0, *state);
    }
    events.push(GameEvent::EffectResolved { kind: EffectKind::of(&ability.effect), source_id: ability.source_id });
    Ok(())
}

} // verus!
