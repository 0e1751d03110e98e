//! CR 614.16: adding a game-level restriction.

use vstd::prelude::*;

use crate::game::state::{frame, touch_none, GameState, Touched};
use crate::text::string_of;
use crate::types::ability::{
    is_missing_param,
    same_activity, target_player_of, Duration, Effect, EffectError, EffectKind, GameRestriction,
    PlayerScope, ResolvedAbility, RestrictionExpiry, RestrictionPlayerScope,
};
use crate::types::events::GameEvent;

verus! {

/// The expiry of a prohibition once the ability's duration is read: "until
/// [the end of] your next turn" expires at the controller's next turn
/// (CR 514.2); otherwise the printed expiry stands.
pub open spec fn bound_expiry(expiry: RestrictionExpiry, ab: ResolvedAbility) -> RestrictionExpiry {
    match ab.duration {
        Some(Duration::UntilNextTurnOf { player: PlayerScope::Controller })
        | Some(Duration::UntilEndOfNextTurnOf { player: PlayerScope::Controller }) =>
            RestrictionExpiry::UntilPlayerNextTurn { player: ab.controller },
        _ => expiry,
    }
}

/// The affected players of a prohibition once the ability's targets are
/// read: a targeted scope becomes the target player.
pub open spec fn bound_scope(scope: RestrictionPlayerScope, ab: ResolvedAbility) -> RestrictionPlayerScope {
    match scope {
        RestrictionPlayerScope::TargetedPlayer | RestrictionPlayerScope::ParentTargetedPlayer =>
            RestrictionPlayerScope::SpecificPlayer(target_player_of(ab.targets@, ab.controller)),
        _ => scope,
    }
}

/// `out` is `r` with its runtime fields bound from the ability: the source
/// is the ability's source, a targeted scope the target player, and the
/// expiry follows the ability's duration.
pub open spec fn filled(out: GameRestriction, r: GameRestriction, ab: ResolvedAbility) -> bool {
    match r {
        GameRestriction::DamagePreventionDisabled { expiry, scope, .. } => out
            == GameRestriction::DamagePreventionDisabled { source: ab.source_id, expiry, scope },
        GameRestriction::ProhibitActivity { affected_players, expiry, activity, .. } => match out {
            GameRestriction::ProhibitActivity {
                source: s,
                affected_players: a,
                expiry: e,
                activity: act,
            } => s == ab.source_id && a == bound_scope(affected_players, ab) && e == bound_expiry(
                expiry,
                ab,
            ) && same_activity(act, activity),
            _ => false,
        },
    }
}

/// The restriction with its runtime fields bound from the resolving ability.
fn fill_runtime_fields(r: &GameRestriction, ab: &ResolvedAbility) -> (out: GameRestriction)
    ensures
        filled(out, *r, *ab),
{
    match r {
        GameRestriction::DamagePreventionDisabled { expiry, scope, .. } => {
            GameRestriction::DamagePreventionDisabled { source: ab.source_id, expiry: *expiry, scope: *scope }
        },
        GameRestriction::ProhibitActivity { affected_players, expiry, activity, .. } => {
            let a = match affected_players {
                RestrictionPlayerScope::TargetedPlayer | RestrictionPlayerScope::ParentTargetedPlayer => {
                    RestrictionPlayerScope::SpecificPlayer(ab.target_player())
                },
                other => *other,
            };
            let e = match ab.duration {
                Some(Duration::UntilNextTurnOf { player: PlayerScope::Controller })
                | Some(Duration::UntilEndOfNextTurnOf { player: PlayerScope::Controller }) => {
                    RestrictionExpiry::UntilPlayerNextTurn { player: ab.controller }
                },
                _ => *expiry,
            };
            GameRestriction::ProhibitActivity {
                source: ab.source_id,
                affected_players: a,
                expiry: e,
                activity: activity.clone(),
            }
        },
    }
}

/// CR 614.16: add the effect's restriction to the game, its runtime fields
/// bound from the ability. Fails, changing nothing, on another effect.
pub fn resolve(state: &mut GameState, ability: &ResolvedAbility, events: &mut Vec<GameEvent>) -> (r:
    Result<(), EffectError>)
    ensures
        match ability.effect {
            Effect::AddRestriction { restriction } => {
                &&& r is Ok
                &&& final(state).restrictions@.len() == old(state).restrictions@.len() + 1
                &&& final(state).restrictions@.drop_last() == old(state).restrictions@
                &&& filled(final(state).restrictions@.last(), restriction, *ability)
                &&& frame(*old(state), *final(state), Touched { restrictions: true, ..touch_none() })
                &&& final(events)@ == old(events)@.push(
                    GameEvent::EffectResolved { kind: EffectKind::AddRestriction, source_id: ability.source_id },
                )
            },
            _ => {
                &&& is_missing_param(r, "AddRestriction restriction"@)
                &&& frame(*old(state), *final(state), touch_none())
                &&& final(events)@ == old(events)@
            },
        },
{
    if let Effect::AddRestriction { restriction } = &ability.effect {
        let filled = fill_runtime_fields(restriction, ability);
        state.restrictions.push(filled);
        events.push(GameEvent::EffectResolved { kind: EffectKind::AddRestriction, source_id: ability.source_id });
        Ok(())
    } else {
        Err(EffectError::MissingParam(string_of("AddRestriction restriction")))
    }
}

} // verus!
