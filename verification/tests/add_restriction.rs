use forge_rules::game::effects::add_restriction::resolve;
use forge_rules::game::state::GameState;
use forge_rules::types::ability::{
    ActivationExemption, Duration, Effect, EffectError, EffectKind, GameRestriction, PlayerScope,
    ProhibitedActivity, ResolvedAbility, RestrictionExpiry, RestrictionPlayerScope, TargetRef,
};
use forge_rules::types::events::GameEvent;
use forge_rules::types::identifiers::{ObjectId, PlayerId};
use forge_rules::types::zones::Zone;

#[test]
fn restriction_add_restriction_pushes_to_state() {
    let mut state = GameState::new_two_player(42);
    assert!(state.restrictions.is_empty());

    let ability = ResolvedAbility::new(
        Effect::AddRestriction {
            restriction: GameRestriction::DamagePreventionDisabled {
                source: ObjectId(0),
                expiry: RestrictionExpiry::EndOfTurn,
                scope: None,
            },
        },
        vec![],
        ObjectId(5),
        PlayerId(0),
    );

    let mut events = Vec::new();
    let result = resolve(&mut state, &ability, &mut events);
    assert!(result.is_ok());
    assert_eq!(state.restrictions.len(), 1);
    assert!(matches!(
        &state.restrictions[0],
        GameRestriction::DamagePreventionDisabled { source: ObjectId(5), .. }
    ));
    assert!(events.iter().any(|e| matches!(
        e,
        GameEvent::EffectResolved { kind: EffectKind::AddRestriction, .. }
    )));
}

#[test]
fn cast_only_from_zones_uses_controllers_next_turn_for_expiry() {
    let mut state = GameState::new_two_player(42);

    let ability = ResolvedAbility::new(
        Effect::AddRestriction {
            restriction: GameRestriction::ProhibitActivity {
                source: ObjectId(0),
                affected_players: RestrictionPlayerScope::OpponentsOfSourceController,
                expiry: RestrictionExpiry::EndOfTurn,
                activity: ProhibitedActivity::CastOnlyFromZones { allowed_zones: vec![Zone::Hand] },
            },
        },
        vec![],
        ObjectId(9),
        PlayerId(1),
    )
    .duration(Duration::UntilNextTurnOf { player: PlayerScope::Controller });

    let mut events = Vec::new();
    resolve(&mut state, &ability, &mut events).unwrap();

    assert!(matches!(
        &state.restrictions[0],
        GameRestriction::ProhibitActivity {
            source: ObjectId(9),
            affected_players: RestrictionPlayerScope::OpponentsOfSourceController,
            expiry: RestrictionExpiry::UntilPlayerNextTurn { player: PlayerId(1) },
            activity: ProhibitedActivity::CastOnlyFromZones { allowed_zones },
        } if allowed_zones == &vec![Zone::Hand]
    ));
}

#[test]
fn targeted_player_scope_is_resolved_on_restrictions() {
    let mut state = GameState::new_two_player(42);

    let ability = ResolvedAbility::new(
        Effect::AddRestriction {
            restriction: GameRestriction::ProhibitActivity {
                source: ObjectId(0),
                affected_players: RestrictionPlayerScope::TargetedPlayer,
                expiry: RestrictionExpiry::EndOfTurn,
                activity: ProhibitedActivity::ActivateAbilities { exemption: ActivationExemption::ManaAbilities },
            },
        },
        vec![TargetRef::Player(PlayerId(1))],
        ObjectId(7),
        PlayerId(0),
    );

    let mut events = Vec::new();
    resolve(&mut state, &ability, &mut events).unwrap();

    assert!(matches!(
        &state.restrictions[0],
        GameRestriction::ProhibitActivity {
            source: ObjectId(7),
            affected_players: RestrictionPlayerScope::SpecificPlayer(PlayerId(1)),
            activity: ProhibitedActivity::ActivateAbilities { .. },
            ..
        }
    ));
}

#[test]
fn parent_targeted_player_scope_is_resolved_from_inherited_target() {
    let mut state = GameState::new_two_player(42);

    let ability = ResolvedAbility::new(
        Effect::AddRestriction {
            restriction: GameRestriction::ProhibitActivity {
                source: ObjectId(0),
                affected_players: RestrictionPlayerScope::ParentTargetedPlayer,
                expiry: RestrictionExpiry::EndOfTurn,
                activity: ProhibitedActivity::ActivateAbilities { exemption: ActivationExemption::ManaAbilities },
            },
        },
        vec![TargetRef::Player(PlayerId(1))],
        ObjectId(7),
        PlayerId(0),
    );

    let mut events = Vec::new();
    resolve(&mut state, &ability, &mut events).unwrap();

    assert!(matches!(
        &state.restrictions[0],
        GameRestriction::ProhibitActivity {
            source: ObjectId(7),
            affected_players: RestrictionPlayerScope::SpecificPlayer(PlayerId(1)),
            activity: ProhibitedActivity::ActivateAbilities { .. },
            ..
        }
    ));
}

#[test]
fn add_restriction_refuses_other_effects() {
    let mut state = GameState::new_two_player(42);
    let ability = ResolvedAbility::new(Effect::Endure { amount: 1 }, vec![], ObjectId(7), PlayerId(0));
    let mut events = Vec::new();
    assert_eq!(resolve(&mut state, &ability, &mut events), Err(EffectError::MissingParam("AddRestriction restriction".to_string())));
    assert!(state.restrictions.is_empty());
    assert!(events.is_empty());
}

#[test]
fn targeted_scope_without_player_target_falls_back_to_controller() {
    let mut state = GameState::new_two_player(42);
    let ability = ResolvedAbility::new(
        Effect::AddRestriction {
            restriction: GameRestriction::ProhibitActivity {
                source: ObjectId(0),
                affected_players: RestrictionPlayerScope::TargetedPlayer,
                expiry: RestrictionExpiry::EndOfTurn,
                activity: ProhibitedActivity::CastSpells,
            },
        },
        vec![TargetRef::Object(ObjectId(3))],
        ObjectId(7),
        PlayerId(0),
    );
    let mut events = Vec::new();
    resolve(&mut state, &ability, &mut events).unwrap();
    assert!(matches!(
        &state.restrictions[0],
        GameRestriction::ProhibitActivity {
            affected_players: RestrictionPlayerScope::SpecificPlayer(PlayerId(0)),
            expiry: RestrictionExpiry::EndOfTurn,
            ..
        }
    ));
}
