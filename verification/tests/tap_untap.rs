use forge_rules::game::effects::tap_untap::resolve_set_tap_state;
use forge_rules::game::state::{GameState, WaitingFor};
use forge_rules::game::zones::create_object;
use forge_rules::types::ability::{
    ControllerRef, Effect, EffectError, EffectKind, EffectScope, MultiTargetSpec, QuantityExpr, ResolvedAbility, TapStateChange,
    TargetChoiceTiming, TargetFilter, TargetRef, TypeFilter, TypedFilter,
};
use forge_rules::types::card_type::CoreType;
use forge_rules::types::events::GameEvent;
use forge_rules::types::identifiers::{CardId, ObjectId, PlayerId};
use forge_rules::types::zones::Zone;

fn make_tap_ability(target: ObjectId) -> ResolvedAbility {
    ResolvedAbility::new(
        Effect::SetTapState {
            target: TargetFilter::Any,
            scope: EffectScope::Single,
            state: TapStateChange::Tap,
        },
        vec![TargetRef::Object(target)],
        ObjectId(100),
        PlayerId(0),
    )
}

fn make_untap_ability(target: ObjectId) -> ResolvedAbility {
    ResolvedAbility::new(
        Effect::SetTapState {
            target: TargetFilter::Any,
            scope: EffectScope::Single,
            state: TapStateChange::Untap,
        },
        vec![TargetRef::Object(target)],
        ObjectId(100),
        PlayerId(0),
    )
}

#[test]
fn tap_sets_tapped_true() {
    let mut state = GameState::new_two_player(42);
    let obj_id = create_object(
        &mut state,
        CardId(1),
        PlayerId(0),
        "Land".to_string(),
        Zone::Battlefield,
    );
    let mut events = Vec::new();

    resolve_set_tap_state(&mut state, &make_tap_ability(obj_id), &mut events).unwrap();

    assert!(state.objects[obj_id.0 as usize].tapped);
    assert!(events
        .iter()
        .any(|e| matches!(e, GameEvent::PermanentTapped { .. })));
}

/// CR 701.26b: When a triggered ability has
/// `Effect::Untap { target: SelfRef }` and the source is the trigger's
/// own object (Ragost, Famished Paladin, Pristine Angel, etc.), the
/// resolver must untap the source even when `ability.targets` is empty.
/// SelfRef is a context-ref (no target slot is surfaced and the
/// event-context resolver does not bind it), so the resolver itself
/// must expand SelfRef to the source.
#[test]
fn untap_self_ref_with_empty_targets_untaps_source() {
    let mut state = GameState::new_two_player(42);
    let obj_id = create_object(
        &mut state,
        CardId(1),
        PlayerId(0),
        "Ragost".to_string(),
        Zone::Battlefield,
    );
    state.objects[obj_id.0 as usize].tapped = true;

    let ability = ResolvedAbility::new(
        Effect::SetTapState {
            target: TargetFilter::SelfRef,
            scope: EffectScope::Single,
            state: TapStateChange::Untap,
        },
        vec![], // empty — SelfRef must resolve via source_id
        obj_id,
        PlayerId(0),
    );
    let mut events = Vec::new();

    resolve_set_tap_state(&mut state, &ability, &mut events).unwrap();

    assert!(
        !state.objects[obj_id.0 as usize].tapped,
        "SelfRef untap must untap the source object"
    );
    assert!(events
        .iter()
        .any(|e| matches!(e, GameEvent::PermanentUntapped { .. })));
}

/// CR 701.26a: Same SelfRef expansion for tap (e.g. "tap ~" triggered
/// effects).
#[test]
fn tap_self_ref_with_empty_targets_taps_source() {
    let mut state = GameState::new_two_player(42);
    let obj_id = create_object(
        &mut state,
        CardId(1),
        PlayerId(0),
        "SomeCreature".to_string(),
        Zone::Battlefield,
    );

    let ability = ResolvedAbility::new(
        Effect::SetTapState {
            target: TargetFilter::SelfRef,
            scope: EffectScope::Single,
            state: TapStateChange::Tap,
        },
        vec![],
        obj_id,
        PlayerId(0),
    );
    let mut events = Vec::new();

    resolve_set_tap_state(&mut state, &ability, &mut events).unwrap();

    assert!(
        state.objects[obj_id.0 as usize].tapped,
        "SelfRef tap must tap the source object"
    );
}

#[test]
fn untap_sets_tapped_false() {
    let mut state = GameState::new_two_player(42);
    let obj_id = create_object(
        &mut state,
        CardId(1),
        PlayerId(0),
        "Land".to_string(),
        Zone::Battlefield,
    );
    state.objects[obj_id.0 as usize].tapped = true;
    let mut events = Vec::new();

    resolve_set_tap_state(&mut state, &make_untap_ability(obj_id), &mut events).unwrap();

    assert!(!state.objects[obj_id.0 as usize].tapped);
    assert!(events
        .iter()
        .any(|e| matches!(e, GameEvent::PermanentUntapped { .. })));
}

#[test]
fn resolution_timed_multi_untap_prompts_for_battlefield_lands() {
    let mut state = GameState::new_two_player(42);
    let land_a = create_object(
        &mut state,
        CardId(1),
        PlayerId(0),
        "Island".to_string(),
        Zone::Battlefield,
    );
    let land_b = create_object(
        &mut state,
        CardId(2),
        PlayerId(0),
        "Forest".to_string(),
        Zone::Battlefield,
    );
    let creature = create_object(
        &mut state,
        CardId(3),
        PlayerId(0),
        "Bear".to_string(),
        Zone::Battlefield,
    );
    state.objects[land_a.0 as usize]
        .card_types
        .core_types
        .push(CoreType::Land);
    state.objects[land_b.0 as usize]
        .card_types
        .core_types
        .push(CoreType::Land);
    state.objects[creature.0 as usize]
        .card_types
        .core_types
        .push(CoreType::Creature);

    let mut ability = ResolvedAbility::new(
        Effect::SetTapState {
            target: TargetFilter::Typed(TypedFilter {
                type_filters: vec![TypeFilter::Land],
                controller: None,
                properties: vec![],
            }),
            scope: EffectScope::Single,
            state: TapStateChange::Untap,
        },
        vec![],
        ObjectId(100),
        PlayerId(0),
    );
    ability.multi_target = Some(MultiTargetSpec::up_to(QuantityExpr::Fixed { value: 3 }));
    ability.target_choice_timing = TargetChoiceTiming::Resolution;
    let mut events = Vec::new();

    resolve_set_tap_state(&mut state, &ability, &mut events).unwrap();

    match &state.waiting_for {
        WaitingFor::EffectZoneChoice {
            player,
            cards,
            count,
            min_count,
            up_to,
            effect_kind,
            zone,
            ..
        } => {
            assert_eq!(*player, PlayerId(0));
            assert_eq!(*count, 2);
            assert_eq!(*min_count, 0);
            assert!(*up_to);
            assert_eq!(*effect_kind, EffectKind::Untap);
            assert_eq!(*zone, Zone::Battlefield);
            assert!(cards.contains(&land_a));
            assert!(cards.contains(&land_b));
            assert!(!cards.contains(&creature));
        }
        other => panic!("expected EffectZoneChoice, got {other:?}"),
    }
    assert!(events.is_empty());
}

#[test]
fn untap_all_nonland_permanents_you_control() {

    let mut state = GameState::new_two_player(42);

    // 3 nonland permanents (tapped, controller P0)
    let creature1 = create_object(
        &mut state,
        CardId(1),
        PlayerId(0),
        "Bear".to_string(),
        Zone::Battlefield,
    );
    state.objects[creature1.0 as usize]
        .card_types
        .core_types
        .push(CoreType::Creature);
    state.objects[creature1.0 as usize].tapped = true;

    let creature2 = create_object(
        &mut state,
        CardId(2),
        PlayerId(0),
        "Elf".to_string(),
        Zone::Battlefield,
    );
    state.objects[creature2.0 as usize]
        .card_types
        .core_types
        .push(CoreType::Creature);
    state.objects[creature2.0 as usize].tapped = true;

    let artifact = create_object(
        &mut state,
        CardId(3),
        PlayerId(0),
        "Signet".to_string(),
        Zone::Battlefield,
    );
    state.objects[artifact.0 as usize]
        .card_types
        .core_types
        .push(CoreType::Artifact);
    state.objects[artifact.0 as usize].tapped = true;

    // 1 land (tapped, controller P0) — should NOT be untapped
    let land = create_object(
        &mut state,
        CardId(4),
        PlayerId(0),
        "Forest".to_string(),
        Zone::Battlefield,
    );
    state.objects[land.0 as usize]
        .card_types
        .core_types
        .push(CoreType::Land);
    state.objects[land.0 as usize].tapped = true;

    let filter = TargetFilter::Typed(TypedFilter {
        type_filters: vec![
            TypeFilter::Permanent,
            TypeFilter::Non(Box::new(TypeFilter::Land)),
        ],
        controller: Some(ControllerRef::You),
        properties: vec![],
    });

    let ability = ResolvedAbility::new(
        Effect::SetTapState {
            target: filter,
            scope: EffectScope::All,
            state: TapStateChange::Untap,
        },
        vec![],
        ObjectId(100),
        PlayerId(0),
    );
    let mut events = Vec::new();

    resolve_set_tap_state(&mut state, &ability, &mut events).unwrap();

    // All 3 nonland permanents should be untapped
    assert!(
        !state.objects[creature1.0 as usize].tapped,
        "creature1 should be untapped"
    );
    assert!(
        !state.objects[creature2.0 as usize].tapped,
        "creature2 should be untapped"
    );
    assert!(
        !state.objects[artifact.0 as usize].tapped,
        "artifact should be untapped"
    );
    // Land should remain tapped
    assert!(state.objects[land.0 as usize].tapped, "land should remain tapped");
    // Should have 3 PermanentUntapped events
    let untap_count = events
        .iter()
        .filter(|e| matches!(e, GameEvent::PermanentUntapped { .. }))
        .count();
    assert_eq!(untap_count, 3);
}

#[test]
fn tap_all_creatures() {

    let mut state = GameState::new_two_player(42);

    let creature = create_object(
        &mut state,
        CardId(1),
        PlayerId(0),
        "Bear".to_string(),
        Zone::Battlefield,
    );
    state.objects[creature.0 as usize]
        .card_types
        .core_types
        .push(CoreType::Creature);

    let land = create_object(
        &mut state,
        CardId(2),
        PlayerId(0),
        "Forest".to_string(),
        Zone::Battlefield,
    );
    state.objects[land.0 as usize]
        .card_types
        .core_types
        .push(CoreType::Land);

    let filter = TargetFilter::Typed(TypedFilter {
        type_filters: vec![TypeFilter::Creature],
        controller: None,
        properties: vec![],
    });

    let ability = ResolvedAbility::new(
        Effect::SetTapState {
            target: filter,
            scope: EffectScope::All,
            state: TapStateChange::Tap,
        },
        vec![],
        ObjectId(100),
        PlayerId(0),
    );
    let mut events = Vec::new();

    resolve_set_tap_state(&mut state, &ability, &mut events).unwrap();

    assert!(state.objects[creature.0 as usize].tapped, "creature should be tapped");
    assert!(!state.objects[land.0 as usize].tapped, "land should not be tapped");
}

/// Building-block test: `resolve_set_tap_state` routes every
/// (scope, state) quadrant correctly. CR 701.26a (tap) / CR 701.26b (untap).
#[test]
fn set_tap_state_routes_all_four_quadrants() {

    // Helper: a single battlefield permanent in a known tap state.
    fn one_creature(tapped: bool) -> (GameState, ObjectId) {
        let mut state = GameState::new_two_player(42);
        let id = create_object(
            &mut state,
            CardId(1),
            PlayerId(0),
            "Bear".to_string(),
            Zone::Battlefield,
        );
        state.objects[id.0 as usize]
            .card_types
            .core_types
            .push(CoreType::Creature);
        state.objects[id.0 as usize].tapped = tapped;
        (state, id)
    }

    let single = |state: TapStateChange, id: ObjectId| {
        ResolvedAbility::new(
            Effect::SetTapState {
                target: TargetFilter::Any,
                scope: EffectScope::Single,
                state,
            },
            vec![TargetRef::Object(id)],
            ObjectId(100),
            PlayerId(0),
        )
    };
    let all = |state: TapStateChange| {
        ResolvedAbility::new(
            Effect::SetTapState {
                target: TargetFilter::Typed(TypedFilter {
                    type_filters: vec![TypeFilter::Creature],
                    controller: Some(ControllerRef::You),
                    properties: vec![],
                }),
                scope: EffectScope::All,
                state,
            },
            vec![],
            ObjectId(100),
            PlayerId(0),
        )
    };

    // (Single, Tap): untapped → tapped via the target path.
    let (mut state, id) = one_creature(false);
    resolve_set_tap_state(
        &mut state,
        &single(TapStateChange::Tap, id),
        &mut Vec::new(),
    )
    .unwrap();
    assert!(state.objects[id.0 as usize].tapped, "Single/Tap must tap the target");

    // (Single, Untap): tapped → untapped via the target path.
    let (mut state, id) = one_creature(true);
    resolve_set_tap_state(
        &mut state,
        &single(TapStateChange::Untap, id),
        &mut Vec::new(),
    )
    .unwrap();
    assert!(
        !state.objects[id.0 as usize].tapped,
        "Single/Untap must untap the target"
    );

    // (All, Tap): untapped → tapped via the population-filter path.
    let (mut state, id) = one_creature(false);
    resolve_set_tap_state(&mut state, &all(TapStateChange::Tap), &mut Vec::new()).unwrap();
    assert!(
        state.objects[id.0 as usize].tapped,
        "All/Tap must tap each matching permanent"
    );

    // (All, Untap): tapped → untapped via the population-filter path.
    let (mut state, id) = one_creature(true);
    resolve_set_tap_state(&mut state, &all(TapStateChange::Untap), &mut Vec::new()).unwrap();
    assert!(
        !state.objects[id.0 as usize].tapped,
        "All/Untap must untap each matching permanent"
    );
}

#[test]
fn untapping_what_was_tapped_restores_it() {
    let mut state = GameState::new_two_player(42);
    let obj_id = create_object(&mut state, CardId(1), PlayerId(0), "Land".to_string(), Zone::Battlefield);
    let before = state.objects[obj_id.0 as usize].clone();
    let mut events = Vec::new();
    resolve_set_tap_state(&mut state, &make_tap_ability(obj_id), &mut events).unwrap();
    resolve_set_tap_state(&mut state, &make_untap_ability(obj_id), &mut events).unwrap();
    let after = &state.objects[obj_id.0 as usize];
    assert_eq!(after.tapped, before.tapped);
    assert_eq!(after.zone, before.zone);
    assert_eq!(after.name, before.name);
}

#[test]
fn set_tap_state_on_another_effect_names_the_missing_parameter() {
    let mut state = GameState::new_two_player(42);
    let ability = ResolvedAbility::new(
        Effect::Goad { target: TargetFilter::Any },
        vec![],
        ObjectId(100),
        PlayerId(0),
    );
    let mut events = Vec::new();
    assert_eq!(
        resolve_set_tap_state(&mut state, &ability, &mut events),
        Err(EffectError::MissingParam("SetTapState".to_string()))
    );
    assert!(events.is_empty());
}
