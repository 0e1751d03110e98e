use forge_rules::game::effects::exile_top::resolve;
use forge_rules::game::state::GameState;
use forge_rules::game::zones::create_object;
use forge_rules::types::ability::{
    CardTypeSetSource, ControllerRef, Effect, EffectKind, FilterProp, QuantityExpr, QuantityRef, ResolvedAbility,
    TargetFilter, TargetRef, TypeFilter, TypedFilter,
};
use forge_rules::types::card_type::CoreType;
use forge_rules::types::events::GameEvent;
use forge_rules::types::identifiers::{CardId, ObjectId, PlayerId};
use forge_rules::types::zones::Zone;

fn make_exile_top_ability(count: u32) -> ResolvedAbility {
    ResolvedAbility::new(
        Effect::ExileTop {
            player: TargetFilter::Controller,
            count: QuantityExpr::Fixed { value: count as i32 },
            face_down: false,
        },
        vec![],
        ObjectId(100),
        PlayerId(0),
    )
}

fn zone_of(state: &GameState, id: ObjectId) -> Option<Zone> {
    state.objects.get(id.0 as usize).map(|obj| obj.zone)
}

#[test]
fn exile_top_moves_top_card_of_controller_library() {
    let mut state = GameState::new_two_player(42);
    let top = create_object(&mut state, CardId(1), PlayerId(0), "Top".to_string(), Zone::Library);
    let bottom = create_object(&mut state, CardId(2), PlayerId(0), "Bottom".to_string(), Zone::Library);
    let ability = make_exile_top_ability(1);

    let mut events = Vec::new();
    resolve(&mut state, &ability, &mut events).unwrap();

    assert_eq!(zone_of(&state, top), Some(Zone::Exile));
    assert_eq!(zone_of(&state, bottom), Some(Zone::Library));
    assert!(state.exile_links.is_empty());
}

#[test]
fn exile_top_tracks_when_source_has_linked_exile_mana_consumer() {
    let mut state = GameState::new_two_player(42);
    let source = create_object(&mut state, CardId(99), PlayerId(0), "Pit Style Land".to_string(), Zone::Battlefield);
    state.objects[source.0 as usize].links_exiled_cards = true;
    let top = create_object(&mut state, CardId(1), PlayerId(0), "Top".to_string(), Zone::Library);
    let ability = ResolvedAbility::new(
        Effect::ExileTop {
            player: TargetFilter::Controller,
            count: QuantityExpr::Fixed { value: 1 },
            face_down: false,
        },
        vec![],
        source,
        PlayerId(0),
    );

    let mut events = Vec::new();
    resolve(&mut state, &ability, &mut events).unwrap();

    assert_eq!(state.exile_links.len(), 1);
    assert_eq!(state.exile_links[0].exiled_id, top);
    assert_eq!(state.exile_links[0].source_id, source);
}

#[test]
fn exile_top_triggering_player_uses_attacking_players_library() {
    let mut state = GameState::new_two_player(42);
    let controller_top =
        create_object(&mut state, CardId(1), PlayerId(0), "Controller Top".to_string(), Zone::Library);
    let opponent_top = create_object(&mut state, CardId(2), PlayerId(1), "Opponent Top".to_string(), Zone::Library);
    let attacker = create_object(&mut state, CardId(10), PlayerId(1), "Attacker".to_string(), Zone::Battlefield);
    state.current_trigger_event =
        Some(GameEvent::AttackersDeclared { attacker_ids: vec![attacker], defending_player: PlayerId(0) });
    let ability = ResolvedAbility::new(
        Effect::ExileTop {
            player: TargetFilter::TriggeringPlayer,
            count: QuantityExpr::Fixed { value: 1 },
            face_down: false,
        },
        vec![],
        ObjectId(100),
        PlayerId(0),
    );

    let mut events = Vec::new();
    resolve(&mut state, &ability, &mut events).unwrap();

    assert_eq!(zone_of(&state, opponent_top), Some(Zone::Exile));
    assert_eq!(zone_of(&state, controller_top), Some(Zone::Library));
}

#[test]
fn exile_top_moves_multiple_cards() {
    let mut state = GameState::new_two_player(42);
    let top = create_object(&mut state, CardId(1), PlayerId(0), "First".to_string(), Zone::Library);
    let second = create_object(&mut state, CardId(2), PlayerId(0), "Second".to_string(), Zone::Library);
    let third = create_object(&mut state, CardId(3), PlayerId(0), "Third".to_string(), Zone::Library);
    let ability = make_exile_top_ability(2);

    let mut events = Vec::new();
    resolve(&mut state, &ability, &mut events).unwrap();

    assert_eq!(zone_of(&state, top), Some(Zone::Exile));
    assert_eq!(zone_of(&state, second), Some(Zone::Exile));
    assert_eq!(zone_of(&state, third), Some(Zone::Library));
}

#[test]
fn exile_top_controller_filter_does_not_inherit_parent_player_target() {
    let mut state = GameState::new_two_player(42);
    let p0_top = create_object(&mut state, CardId(1), PlayerId(0), "P0 top".to_string(), Zone::Library);
    let p1_top = create_object(&mut state, CardId(2), PlayerId(1), "P1 top".to_string(), Zone::Library);

    let ability = ResolvedAbility::new(
        Effect::ExileTop {
            player: TargetFilter::Controller,
            count: QuantityExpr::Fixed { value: 1 },
            face_down: false,
        },
        vec![TargetRef::Player(PlayerId(1))],
        ObjectId(100),
        PlayerId(0),
    );
    let mut events = Vec::new();
    resolve(&mut state, &ability, &mut events).unwrap();

    assert_eq!(
        zone_of(&state, p0_top),
        Some(Zone::Exile),
        "P0's library top should be exiled (Controller filter resolves to caster)"
    );
    assert_eq!(
        zone_of(&state, p1_top),
        Some(Zone::Library),
        "P1's library must NOT be exiled — parent target inheritance must not override Controller filter"
    );
}

#[test]
fn exile_top_dynamic_card_type_count_moves_that_many_cards() {
    let mut state = GameState::new_two_player(42);
    let source = create_object(
        &mut state,
        CardId(10),
        PlayerId(0),
        "Loot, the Key to Everything".to_string(),
        Zone::Battlefield,
    );
    state.objects[source.0 as usize].card_types.core_types = vec![CoreType::Creature];
    let artifact = create_object(&mut state, CardId(11), PlayerId(0), "Artifact".to_string(), Zone::Battlefield);
    state.objects[artifact.0 as usize].card_types.core_types = vec![CoreType::Artifact];
    let enchantment = create_object(&mut state, CardId(12), PlayerId(0), "Enchantment".to_string(), Zone::Battlefield);
    state.objects[enchantment.0 as usize].card_types.core_types = vec![CoreType::Enchantment];
    let creature = create_object(&mut state, CardId(13), PlayerId(0), "Creature".to_string(), Zone::Battlefield);
    state.objects[creature.0 as usize].card_types.core_types = vec![CoreType::Creature];

    let top = create_object(&mut state, CardId(1), PlayerId(0), "First".to_string(), Zone::Library);
    let second = create_object(&mut state, CardId(2), PlayerId(0), "Second".to_string(), Zone::Library);
    let third = create_object(&mut state, CardId(3), PlayerId(0), "Third".to_string(), Zone::Library);
    let fourth = create_object(&mut state, CardId(4), PlayerId(0), "Fourth".to_string(), Zone::Library);

    let ability = ResolvedAbility::new(
        Effect::ExileTop {
            player: TargetFilter::Controller,
            count: QuantityExpr::Ref {
                qty: QuantityRef::DistinctCardTypes {
                    source: CardTypeSetSource::Objects {
                        filter: TargetFilter::Typed(
                            TypedFilter::new(TypeFilter::Permanent)
                                .with_type(TypeFilter::Non(Box::new(TypeFilter::Land)))
                                .controller(ControllerRef::You)
                                .properties(vec![FilterProp::Another]),
                        ),
                    },
                },
            },
            face_down: false,
        },
        vec![],
        source,
        PlayerId(0),
    );

    let mut events = Vec::new();
    resolve(&mut state, &ability, &mut events).unwrap();

    assert_eq!(zone_of(&state, top), Some(Zone::Exile));
    assert_eq!(zone_of(&state, second), Some(Zone::Exile));
    assert_eq!(zone_of(&state, third), Some(Zone::Exile));
    assert_eq!(zone_of(&state, fourth), Some(Zone::Library));
}

#[test]
fn exile_top_with_empty_library_resolves_without_error() {
    let mut state = GameState::new_two_player(42);
    let ability = make_exile_top_ability(3);

    let mut events = Vec::new();
    resolve(&mut state, &ability, &mut events).unwrap();

    assert!(events.iter().any(|e| matches!(e, GameEvent::EffectResolved { kind: EffectKind::ExileTop, .. })));
}

#[test]
fn exile_top_face_down_sets_object_face_down_flag() {
    let mut state = GameState::new_two_player(42);
    let top = create_object(&mut state, CardId(1), PlayerId(0), "Top".to_string(), Zone::Library);

    let ability = ResolvedAbility::new(
        Effect::ExileTop {
            player: TargetFilter::Controller,
            count: QuantityExpr::Fixed { value: 1 },
            face_down: true,
        },
        vec![],
        ObjectId(100),
        PlayerId(0),
    );

    let mut events = Vec::new();
    resolve(&mut state, &ability, &mut events).unwrap();

    let obj = state.objects.get(top.0 as usize).expect("object should exist");
    assert_eq!(obj.zone, Zone::Exile);
    assert!(obj.face_down, "expected face_down=true on the exiled object");
}

#[test]
fn exile_top_face_up_does_not_set_face_down_flag() {
    let mut state = GameState::new_two_player(42);
    let top = create_object(&mut state, CardId(1), PlayerId(0), "Top".to_string(), Zone::Library);

    let ability = ResolvedAbility::new(
        Effect::ExileTop {
            player: TargetFilter::Controller,
            count: QuantityExpr::Fixed { value: 1 },
            face_down: false,
        },
        vec![],
        ObjectId(100),
        PlayerId(0),
    );

    let mut events = Vec::new();
    resolve(&mut state, &ability, &mut events).unwrap();

    let obj = state.objects.get(top.0 as usize).expect("object should exist");
    assert_eq!(obj.zone, Zone::Exile);
    assert!(!obj.face_down, "face-up ExileTop must not flip the object's `face_down` flag");
}

#[test]
fn exile_top_takes_whole_library_when_count_exceeds_it() {
    let mut state = GameState::new_two_player(42);
    let a = create_object(&mut state, CardId(1), PlayerId(0), "A".to_string(), Zone::Library);
    let b = create_object(&mut state, CardId(2), PlayerId(0), "B".to_string(), Zone::Library);
    let mut events = Vec::new();
    resolve(&mut state, &make_exile_top_ability(5), &mut events).unwrap();
    assert_eq!(zone_of(&state, a), Some(Zone::Exile));
    assert_eq!(zone_of(&state, b), Some(Zone::Exile));
    assert!(state.players[0].library.is_empty());
    assert_eq!(state.exile.len(), 2);
}
