use forge_rules::game::effects::discover::resolve;
use forge_rules::game::state::{CastOfferKind, GameState, WaitingFor};
use forge_rules::game::zones::create_object;
use forge_rules::types::ability::{Effect, ObjectScope, QuantityExpr, QuantityRef, ResolvedAbility};
use forge_rules::types::card_type::CoreType;
use forge_rules::types::events::GameEvent;
use forge_rules::types::identifiers::{CardId, ObjectId, PlayerId};
use forge_rules::types::mana::ManaCost;
use forge_rules::types::zones::Zone;

#[test]
fn test_discover_finds_nonland_card() {
    let mut state = GameState::new_two_player(42);
    // Create library: land, land, nonland (MV 2)
    let land1 = create_object(
        &mut state,
        CardId(1),
        PlayerId(0),
        "Forest".to_string(),
        Zone::Library,
    );
    state.objects[land1.0 as usize]
        .card_types
        .core_types
        .push(CoreType::Land);

    let land2 = create_object(
        &mut state,
        CardId(2),
        PlayerId(0),
        "Mountain".to_string(),
        Zone::Library,
    );
    state.objects[land2.0 as usize]
        .card_types
        .core_types
        .push(CoreType::Land);

    let creature = create_object(
        &mut state,
        CardId(3),
        PlayerId(0),
        "Bear".to_string(),
        Zone::Library,
    );
    state.objects[creature.0 as usize]
        .card_types
        .core_types
        .push(CoreType::Creature);
    state.objects[creature.0 as usize].mana_cost = ManaCost::generic(2);

    let ability = ResolvedAbility::new(
        Effect::Discover {
            mana_value_limit: QuantityExpr::Fixed { value: 3 },
        },
        vec![],
        ObjectId(100),
        PlayerId(0),
    );

    let mut events = vec![];
    resolve(&mut state, &ability, &mut events).unwrap();

    // Should find the creature and set DiscoverChoice
    match &state.waiting_for {
        WaitingFor::CastOffer {
            kind:
                CastOfferKind::Discover {
                    hit_card,
                    exiled_misses,
                },
            ..
        } => {
            assert_eq!(*hit_card, creature);
            assert_eq!(exiled_misses.len(), 2, "Should have 2 land misses");
        }
        other => panic!("Expected DiscoverChoice, got {:?}", other),
    }
}

#[test]
fn discover_limit_can_use_triggering_spell_mana_value() {
    let mut state = GameState::new_two_player(42);

    let hit = create_object(
        &mut state,
        CardId(3),
        PlayerId(0),
        "Four Drop".to_string(),
        Zone::Library,
    );
    {
        let obj = &mut state.objects[hit.0 as usize];
        obj.card_types.core_types.push(CoreType::Creature);
        obj.mana_cost = ManaCost::generic(4);
    }

    let triggering_spell = create_object(
        &mut state,
        CardId(4),
        PlayerId(0),
        "Triggering Spell".to_string(),
        Zone::Stack,
    );
    state.objects[triggering_spell.0 as usize].mana_cost = ManaCost::generic(4);
    state.current_trigger_event = Some(GameEvent::SpellCast {
        card_id: CardId(4),
        controller: PlayerId(0),
        object_id: triggering_spell,
    });

    let ability = ResolvedAbility::new(
        Effect::Discover {
            mana_value_limit: QuantityExpr::Ref {
                qty: QuantityRef::ObjectManaValue {
                    scope: ObjectScope::EventSource,
                },
            },
        },
        vec![],
        ObjectId(100),
        PlayerId(0),
    );

    let mut events = Vec::new();
    resolve(&mut state, &ability, &mut events).unwrap();

    assert!(matches!(
        state.waiting_for,
        WaitingFor::CastOffer {
            kind: CastOfferKind::Discover { hit_card, .. },
            ..
        } if hit_card == hit
    ));
}
