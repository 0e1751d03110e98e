//! CR 702.39a / CR 509.1c: force a creature to block.

use vstd::prelude::*;

use crate::game::effects::{object_targets, object_targets_of};
use crate::game::state::{
    frame, touch_none, ContinuousModification, GameState, StaticMode, Touched,
    TransientContinuousEffect,
};
use crate::types::ability::{Duration, EffectError, EffectKind, ResolvedAbility, TargetFilter};
use crate::types::events::GameEvent;
use crate::types::identifiers::{ObjectId, PlayerId};

verus! {

/// The ids of the list that name objects of the game, in order.
pub open spec fn present_ids(s: GameState, ids: Seq<ObjectId>) -> Seq<ObjectId>
    decreases ids.len(),
{
    if ids.len() == 0 {
        Seq::empty()
    } else {
        present_ids(s, ids.drop_last()) + if s.has_obj(ids.last()) {
            seq![ids.last()]
        } else {
            Seq::empty()
        }
    }
}

/// `e` is the effect that makes `target` block `attacker` this turn.
pub open spec fn is_must_block(e: TransientContinuousEffect, attacker: ObjectId, controller: PlayerId, target: ObjectId) -> bool {
    &&& e.source_id == attacker
    &&& e.controller == controller
    &&& e.duration == Duration::UntilEndOfTurn
    &&& e.affected == TargetFilter::SpecificObject { id: target }
    &&& e.modifications@ == seq![
        ContinuousModification::AddStaticMode { mode: StaticMode::MustBlockAttacker { attacker } },
    ]
}

/// CR 702.39a: each target creature that exists must block the effect's
/// source (the provoking attacker) this turn if able: one end-of-turn
/// effect per target, in target order.
pub fn resolve(state: &mut GameState, ability: &ResolvedAbility, events: &mut Vec<GameEvent>) -> (r:
    Result<(), EffectError>)
    ensures
        r is Ok,
        ({
            let ids = present_ids(*old(state), object_targets(ability.targets@));
            let n = old(state).transient_continuous_effects@.len();
            &&& final(state).transient_continuous_effects@.len() == n + ids.len()
            &&& final(state).transient_continuous_effects@.take(n as int)
                == old(state).transient_continuous_effects@
            &&& forall|j: int|
                0 <= j < ids.len() ==> is_must_block(
                    #[trigger] final(state).transient_continuous_effects@[n + j],
                    ability.source_id,
                    ability.controller,
                    ids[j],
                )
        }),
        frame(*old(state), *final(state), Touched { transient_continuous_effects: true, ..touch_none() }),
        final(events)@ == old(events)@.push(
            GameEvent::EffectResolved { kind: EffectKind::ForceBlock, source_id: ability.source_id },
        ),
{
    let ghost s0 = *state;
    let targets = object_targets_of(&ability.targets);
    let ghost n = s0.transient_continuous_effects@.len();
    let mut k: usize = 0;
    while k < targets.len()
        invariant
            k <= targets@.len(),
            targets@ == object_targets(ability.targets@),
            frame(s0, *state, Touched { transient_continuous_effects: true, ..touch_none() }),
            state.transient_continuous_effects@.len() == n + present_ids(s0, targets@.take(k as int)).len(),
            state.transient_continuous_effects@.take(n as int) == s0.transient_continuous_effects@,
            forall|j: int|
                0 <= j < present_ids(s0, targets@.take(k as int)).len() ==> is_must_block(
                    #[trigger] state.transient_continuous_effects@[n + j],
                    ability.source_id,
                    ability.controller,
                    present_ids(s0, targets@.take(k as int))[j],
                ),
        decreases targets@.len() - k,
    {
        let id = targets[k];
        assert(targets@.take(k + 1).drop_last() =~= targets@.take(k as int));
        let ghost prev = present_ids(s0, targets@.take(k as int));
        if id.0 < state.objects.len() as u64 {
            let mut mods: Vec<ContinuousModification> = Vec::new();
            mods.push(ContinuousModification::AddStaticMode {
                mode: StaticMode::MustBlockAttacker { attacker: ability.source_id },
            });
            state.transient_continuous_effects.push(TransientContinuousEffect {
                source_id: ability.source_id,
                controller: ability.controller,
                duration: Duration::UntilEndOfTurn,
                affected: TargetFilter::SpecificObject { id },
                modifications: mods,
            });
            proof {
                assert(present_ids(s0, targets@.take(k + 1)) =~= prev.push(id));
                assert(state.transient_continuous_effects@.take(n as int)
                    =~= s0.transient_continuous_effects@);
                assert(mods@ =~= seq![
                    ContinuousModification::AddStaticMode { mode: StaticMode::MustBlockAttacker { attacker: ability.source_id } },
                ]);
            }
        } else {
            assert(present_ids(s0, targets@.take(k + 1)) =~= prev);
        }
        k = k + 1;
    }
    assert(targets@.take(k as int) =~= targets@);
    events.push(GameEvent::EffectResolved { kind: EffectKind::ForceBlock, source_id: ability.source_id });
    Ok(())
}

} // verus!
