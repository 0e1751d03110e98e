use forge_rules::game::effects::goad::resolve;
use forge_rules::game::state::GameState;
use forge_rules::game::zones::create_object;
use forge_rules::types::ability::{ControllerRef, Effect, EffectKind, ResolvedAbility, TargetFilter, TargetRef, TypedFilter};
use forge_rules::types::card_type::CoreType;
use forge_rules::types::events::GameEvent;
use forge_rules::types::identifiers::{CardId, ObjectId, PlayerId};
use forge_rules::types::zones::Zone;

fn make_goad_ability(target: ObjectId, controller: PlayerId) -> ResolvedAbility {
    ResolvedAbility::new(
        Effect::Goad {
            target: TargetFilter::Any,
        },
        vec![TargetRef::Object(target)],
        ObjectId(100),
        controller,
    )
}

fn mark_creature(state: &mut GameState, object_id: ObjectId) {
    state.objects[object_id.0 as usize]
        .card_types
        .core_types
        .push(CoreType::Creature);
}

#[test]
fn goad_marks_creature_with_goading_player() {
    let mut state = GameState::new_two_player(42);
    let target_id = create_object(
        &mut state,
        CardId(1),
        PlayerId(1),
        "Bear".to_string(),
        Zone::Battlefield,
    );

    let ability = make_goad_ability(target_id, PlayerId(0));
    let mut events = Vec::new();

    resolve(&mut state, &ability, &mut events).unwrap();

    let obj = state.objects.get(target_id.0 as usize).unwrap();
    assert!(obj.goaded_by.contains(&PlayerId(0)));
    assert_eq!(obj.goaded_by.len(), 1);
}

#[test]
fn goad_same_player_twice_is_idempotent() {
    let mut state = GameState::new_two_player(42);
    let target_id = create_object(
        &mut state,
        CardId(1),
        PlayerId(1),
        "Bear".to_string(),
        Zone::Battlefield,
    );

    let ability = make_goad_ability(target_id, PlayerId(0));
    let mut events = Vec::new();

    // CR 701.15d: Same player goading again has no additional effect.
    resolve(&mut state, &ability, &mut events).unwrap();
    resolve(&mut state, &ability, &mut events).unwrap();

    let obj = state.objects.get(target_id.0 as usize).unwrap();
    assert_eq!(obj.goaded_by.len(), 1);
}

#[test]
fn goad_multiple_players() {
    let mut state = GameState::new_two_player(42);
    let target_id = create_object(
        &mut state,
        CardId(1),
        PlayerId(1),
        "Bear".to_string(),
        Zone::Battlefield,
    );

    let mut events = Vec::new();
    // CR 701.15c: Goaded by two different players.
    resolve(
        &mut state,
        &make_goad_ability(target_id, PlayerId(0)),
        &mut events,
    )
    .unwrap();
    resolve(
        &mut state,
        &make_goad_ability(target_id, PlayerId(1)),
        &mut events,
    )
    .unwrap();

    let obj = state.objects.get(target_id.0 as usize).unwrap();
    assert!(obj.goaded_by.contains(&PlayerId(0)));
    assert!(obj.goaded_by.contains(&PlayerId(1)));
    assert_eq!(obj.goaded_by.len(), 2);
}

#[test]
fn goad_all_marks_matching_creatures_without_explicit_targets() {
    let mut state = GameState::new_two_player(42);
    let opponent_creature_a = create_object(
        &mut state,
        CardId(1),
        PlayerId(1),
        "Bear".to_string(),
        Zone::Battlefield,
    );
    let opponent_creature_b = create_object(
        &mut state,
        CardId(2),
        PlayerId(1),
        "Wolf".to_string(),
        Zone::Battlefield,
    );
    let controller_creature = create_object(
        &mut state,
        CardId(3),
        PlayerId(0),
        "Cat".to_string(),
        Zone::Battlefield,
    );
    mark_creature(&mut state, opponent_creature_a);
    mark_creature(&mut state, opponent_creature_b);
    mark_creature(&mut state, controller_creature);
    let ability = ResolvedAbility::new(
        Effect::GoadAll {
            target: TargetFilter::Typed(
                TypedFilter::creature().controller(ControllerRef::Opponent),
            ),
        },
        vec![],
        ObjectId(100),
        PlayerId(0),
    );

    resolve(&mut state, &ability, &mut Vec::new()).unwrap();

    assert!(state
        .objects
        .get(opponent_creature_a.0 as usize)
        .unwrap()
        .goaded_by
        .contains(&PlayerId(0)));
    assert!(state
        .objects
        .get(opponent_creature_b.0 as usize)
        .unwrap()
        .goaded_by
        .contains(&PlayerId(0)));
    assert!(!state
        .objects
        .get(controller_creature.0 as usize)
        .unwrap()
        .goaded_by
        .contains(&PlayerId(0)));
}

#[test]
fn goad_nonexistent_target_is_skipped() {
    let mut state = GameState::new_two_player(42);
    let ability = make_goad_ability(ObjectId(999), PlayerId(0));
    let mut events = Vec::new();

    // Should succeed (no-op for missing targets, not an error).
    let result = resolve(&mut state, &ability, &mut events);
    assert!(result.is_ok());
}

#[test]
fn goad_emits_effect_resolved() {
    let mut state = GameState::new_two_player(42);
    let target_id = create_object(
        &mut state,
        CardId(1),
        PlayerId(1),
        "Bear".to_string(),
        Zone::Battlefield,
    );

    let ability = make_goad_ability(target_id, PlayerId(0));
    let mut events = Vec::new();
    resolve(&mut state, &ability, &mut events).unwrap();

    assert!(events.iter().any(|e| matches!(
        e,
        GameEvent::EffectResolved {
            kind: EffectKind::Goad,
            ..
        }
    )));
}
