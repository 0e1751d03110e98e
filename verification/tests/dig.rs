use forge_rules::game::effects::dig::resolve;
use forge_rules::game::state::{GameState, WaitingFor};
use forge_rules::game::zones::create_object;
use forge_rules::types::ability::{Effect, QuantityExpr, ResolvedAbility, TargetFilter, TargetRef, TypedFilter};
use forge_rules::types::card_type::CoreType;
use forge_rules::types::events::GameEvent;
use forge_rules::types::identifiers::{CardId, ObjectId, PlayerId};
use forge_rules::types::zones::Zone;

fn make_dig_ability(dig_num: u32) -> ResolvedAbility {
    ResolvedAbility::new(
        Effect::Dig {
            player: TargetFilter::Controller,
            count: QuantityExpr::Fixed { value: dig_num as i32 },
            destination: None,
            keep_count: None,
            up_to: false,
            filter: TargetFilter::Any,
            rest_destination: None,
            reveal: false,
            enter_tapped: false,
        },
        vec![],
        ObjectId(100),
        PlayerId(0),
    )
}

#[test]
fn test_dig_5_keep_1_sets_waiting_for_dig_choice() {
    let mut state = GameState::new_two_player(42);
    for i in 0..7 {
        create_object(&mut state, CardId(i + 1), PlayerId(0), format!("Card {}", i), Zone::Library);
    }
    let top_5: Vec<_> = state.players[0].library.iter().take(5).copied().collect::<Vec<_>>();

    let ability = make_dig_ability(5);
    let mut events = Vec::new();
    resolve(&mut state, &ability, &mut events).unwrap();

    match &state.waiting_for {
        WaitingFor::DigChoice { player, cards, keep_count, .. } => {
            assert_eq!(*player, PlayerId(0));
            assert_eq!(cards.len(), 5);
            assert_eq!(*cards, top_5);
            assert_eq!(*keep_count, 1);
        }
        other => panic!("Expected DigChoice, got {:?}", other),
    }
}

#[test]
fn test_dig_with_empty_library_does_nothing() {
    let mut state = GameState::new_two_player(42);
    assert!(state.players[0].library.is_empty());

    let ability = make_dig_ability(3);
    let mut events = Vec::new();

    let result = resolve(&mut state, &ability, &mut events);
    assert!(result.is_ok());
    assert!(matches!(state.waiting_for, WaitingFor::Priority { .. }));
}

#[test]
fn pure_peek_uses_target_players_library_without_moving_cards() {
    let mut state = GameState::new_two_player(42);
    create_object(&mut state, CardId(1), PlayerId(1), "Opponent Top".to_string(), Zone::Library);
    let top_card = state.players[1].library[0];
    let ability = ResolvedAbility::new(
        Effect::Dig {
            player: TargetFilter::Player,
            count: QuantityExpr::Fixed { value: 1 },
            destination: None,
            keep_count: Some(0),
            up_to: false,
            filter: TargetFilter::Any,
            rest_destination: None,
            reveal: false,
            enter_tapped: false,
        },
        vec![TargetRef::Player(PlayerId(1))],
        ObjectId(100),
        PlayerId(0),
    );
    let mut events = Vec::new();

    resolve(&mut state, &ability, &mut events).unwrap();

    assert_eq!(state.last_revealed_ids, vec![top_card]);
    assert_eq!(state.objects[top_card.0 as usize].zone, Zone::Library);
    assert_eq!(state.players[1].library.first(), Some(&top_card));
    assert!(matches!(state.waiting_for, WaitingFor::Priority { .. }));
    assert_eq!(state.private_look_ids, vec![top_card]);
    assert_eq!(state.private_look_player, Some(PlayerId(0)));
}

#[test]
fn look_at_top_card_makes_peek_visible_to_looker_only() {
    let mut state = GameState::new_two_player(42);
    create_object(&mut state, CardId(1), PlayerId(0), "Delver Top Card".to_string(), Zone::Library);
    let top_card = state.players[0].library[0];

    let ability = ResolvedAbility::new(
        Effect::Dig {
            player: TargetFilter::Controller,
            count: QuantityExpr::Fixed { value: 1 },
            destination: None,
            keep_count: Some(0),
            up_to: false,
            filter: TargetFilter::Any,
            rest_destination: None,
            reveal: false,
            enter_tapped: false,
        },
        vec![],
        ObjectId(100),
        PlayerId(0),
    );
    let mut events = Vec::new();
    resolve(&mut state, &ability, &mut events).unwrap();

    assert_eq!(state.private_look_ids, vec![top_card]);
    assert_eq!(state.private_look_player, Some(PlayerId(0)));
    assert!(!state.revealed_cards.contains(&top_card));
}

#[test]
fn dig_reorder_mode_sets_keep_count_to_all_seen_cards() {
    let mut state = GameState::new_two_player(42);
    for i in 0..5 {
        create_object(&mut state, CardId(i + 1), PlayerId(0), format!("Card {}", i), Zone::Library);
    }
    let ability = ResolvedAbility::new(
        Effect::Dig {
            player: TargetFilter::Controller,
            count: QuantityExpr::Fixed { value: 3 },
            destination: Some(Zone::Library),
            keep_count: None,
            up_to: false,
            filter: TargetFilter::Any,
            rest_destination: Some(Zone::Library),
            reveal: false,
            enter_tapped: false,
        },
        vec![],
        ObjectId(100),
        PlayerId(0),
    );
    let mut events = Vec::new();

    resolve(&mut state, &ability, &mut events).unwrap();

    match &state.waiting_for {
        WaitingFor::DigChoice { cards, keep_count, .. } => {
            assert_eq!(cards.len(), 3);
            assert_eq!(*keep_count, 3);
        }
        other => panic!("Expected DigChoice, got {:?}", other),
    }
}

#[test]
fn dig_unbounded_exact_count_clamps_to_selectable_cards() {
    let mut state = GameState::new_two_player(42);
    let creature_a = create_object(&mut state, CardId(1), PlayerId(0), "Creature A".to_string(), Zone::Library);
    let creature_b = create_object(&mut state, CardId(2), PlayerId(0), "Creature B".to_string(), Zone::Library);
    create_object(&mut state, CardId(3), PlayerId(0), "Instant".to_string(), Zone::Library);
    for id in [creature_a, creature_b] {
        state.objects[id.0 as usize].card_types.core_types.push(CoreType::Creature);
    }

    let ability = ResolvedAbility::new(
        Effect::Dig {
            player: TargetFilter::Controller,
            count: QuantityExpr::Fixed { value: 3 },
            destination: Some(Zone::Hand),
            keep_count: Some(u32::MAX),
            up_to: false,
            filter: TargetFilter::Typed(TypedFilter::creature()),
            rest_destination: None,
            reveal: false,
            enter_tapped: false,
        },
        vec![],
        ObjectId(100),
        PlayerId(0),
    );

    let mut events = Vec::new();
    resolve(&mut state, &ability, &mut events).unwrap();

    match &state.waiting_for {
        WaitingFor::DigChoice { selectable_cards, keep_count, up_to, .. } => {
            assert_eq!(selectable_cards, &vec![creature_a, creature_b]);
            assert_eq!(*keep_count, 2);
            assert!(!*up_to);
        }
        other => panic!("Expected DigChoice, got {:?}", other),
    }
}

#[test]
fn dig_with_reveal_reveals_cards_to_all() {
    let mut state = GameState::new_two_player(42);
    let a = create_object(&mut state, CardId(1), PlayerId(0), "Alpha".to_string(), Zone::Library);
    let b = create_object(&mut state, CardId(2), PlayerId(0), "Beta".to_string(), Zone::Library);
    let ability = ResolvedAbility::new(
        Effect::Dig {
            player: TargetFilter::Controller,
            count: QuantityExpr::Fixed { value: 2 },
            destination: Some(Zone::Hand),
            keep_count: Some(1),
            up_to: false,
            filter: TargetFilter::Any,
            rest_destination: None,
            reveal: true,
            enter_tapped: false,
        },
        vec![],
        ObjectId(100),
        PlayerId(0),
    );
    let mut events = Vec::new();
    resolve(&mut state, &ability, &mut events).unwrap();
    assert_eq!(state.last_revealed_ids, vec![a, b]);
    assert!(state.revealed_cards.contains(&a) && state.revealed_cards.contains(&b));
    assert!(matches!(
        &events[0],
        GameEvent::CardsRevealed { player: PlayerId(0), card_ids, card_names }
            if card_ids == &vec![a, b] && card_names == &vec!["Alpha".to_string(), "Beta".to_string()]
    ));
}

#[test]
fn dig_fails_for_a_player_not_in_the_game() {
    let mut state = GameState::new_two_player(42);
    let ability = ResolvedAbility::new(
        Effect::Dig {
            player: TargetFilter::Player,
            count: QuantityExpr::Fixed { value: 1 },
            destination: None,
            keep_count: Some(0),
            up_to: false,
            filter: TargetFilter::Any,
            rest_destination: None,
            reveal: false,
            enter_tapped: false,
        },
        vec![TargetRef::Player(PlayerId(7))],
        ObjectId(100),
        PlayerId(0),
    );
    let mut events = Vec::new();
    assert!(resolve(&mut state, &ability, &mut events).is_err());
    assert!(events.is_empty());
}
