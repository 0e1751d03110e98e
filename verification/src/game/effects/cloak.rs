//! CR 701.58: cloak.

use vstd::prelude::*;

use crate::game::effects::exile_top::zone_events;
use crate::game::effects::manifest::{face_down_count, face_down_outcome, turn_top_face_down};
use crate::game::effects::{
    ctx_of,
    ability_ctx,clamped_quantity, context_player, resolve_count, resolve_player_for_context_ref};
use crate::game::state::{frame, touch_none, GameState};
use crate::text::string_of;
use crate::types::ability::{
    is_missing_param,Effect, EffectError, EffectKind, ResolvedAbility};
use crate::types::events::GameEvent;
use crate::types::zones::Zone;

verus! {

/// CR 701.58a: cloak the top N cards of the library of the player the
/// effect's filter names: each goes onto the battlefield face down as a 2/2
/// creature with ward {2}, one at a time (CR 701.58e), as many as the
/// library holds. Fails, changing nothing, on another effect.
pub fn resolve(state: &mut GameState, ability: &ResolvedAbility, events: &mut Vec<GameEvent>) -> (r:
    Result<(), EffectError>)
    requires
        old(state).wf(),
    ensures
        final(state).wf(),
        match ability.effect {
            Effect::Cloak { target, count } => {
                let p = context_player(*old(state), *ability, target);
                let n = clamped_quantity(*old(state), count, ability_ctx(*ability));
                let top = if old(state).has_player(p) {
                    old(state).pv(p).library.take(face_down_count(*old(state), p, n) as int)
                } else {
                    Seq::empty()
                };
                &&& r is Ok
                &&& face_down_outcome(*old(state), *final(state), p, n, true)
                &&& final(events)@ == old(events)@ + zone_events(top, Zone::Library, Zone::Battlefield)
                    + seq![GameEvent::EffectResolved { kind: EffectKind::Cloak, source_id: ability.source_id }]
            },
            _ => {
                &&& is_missing_param(r, "count"@)
                &&& frame(*old(state), *final(state), touch_none())
                &&& final(events)@ == old(events)@
            },
        },
{
    let (target, count) = match &ability.effect {
        Effect::Cloak { target, count } => (target, count),
        _ => return Err(EffectError::MissingParam(string_of("count"))),
    };
    let n = resolve_count(state, count, ctx_of(ability));
    let p = resolve_player_for_context_ref(state, ability, target);
    turn_top_face_down(state, p, n, true, events);
    let ghost before = events@;
    events.push(GameEvent::EffectResolved { kind: EffectKind::Cloak, source_id: ability.source_id });
    assert(events@ =~= before + seq![GameEvent::EffectResolved { kind: EffectKind::Cloak, source_id: ability.source_id }]);
    Ok(())
}

} // verus!
