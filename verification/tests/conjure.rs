use forge_rules::game::effects::conjure::resolve;
use forge_rules::game::state::GameState;
use forge_rules::types::ability::{ConjureCard, Effect, QuantityExpr, ResolvedAbility};
use forge_rules::types::events::GameEvent;
use forge_rules::types::identifiers::{ObjectId, PlayerId};
use forge_rules::types::zones::Zone;

#[test]
fn battlefield_conjure_records_zone_change_for_turn_history() {
    let mut state = GameState::new_two_player(7);
    let ability = ResolvedAbility::new(
        Effect::Conjure {
            cards: vec![ConjureCard { name: "Verdant Dread".to_string(), count: QuantityExpr::Fixed { value: 1 } }],
            destination: Zone::Battlefield,
            tapped: false,
        },
        vec![],
        ObjectId(99),
        PlayerId(0),
    );
    let mut events = Vec::new();

    resolve(&mut state, &ability, &mut events).unwrap();

    let zone_change = events
        .iter()
        .find_map(|event| match event {
            GameEvent::ZoneChanged { object_id, from, to, .. } => Some((*object_id, *from, *to)),
            _ => None,
        })
        .expect("conjuring onto the battlefield emits ZoneChanged");

    assert_eq!(zone_change.1, None);
    assert_eq!(zone_change.2, Zone::Battlefield);
    assert_eq!(state.zone_changes_this_turn.len(), 1);
    assert_eq!(state.zone_changes_this_turn[0].object_id, zone_change.0);
    assert_eq!(state.zone_changes_this_turn[0].from_zone, None);
    assert_eq!(state.zone_changes_this_turn[0].to_zone, Zone::Battlefield);
}

#[test]
fn conjure_to_hand_creates_each_copy() {
    let mut state = GameState::new_two_player(7);
    let ability = ResolvedAbility::new(
        Effect::Conjure {
            cards: vec![ConjureCard { name: "Ghostly Vision".to_string(), count: QuantityExpr::Fixed { value: 2 } }],
            destination: Zone::Hand,
            tapped: false,
        },
        vec![],
        ObjectId(99),
        PlayerId(0),
    );
    let mut events = Vec::new();
    resolve(&mut state, &ability, &mut events).unwrap();
    assert_eq!(state.players[0].hand.len(), 2);
    for id in &state.players[0].hand {
        assert_eq!(state.objects[id.0 as usize].name, "Ghostly Vision");
        assert_eq!(state.objects[id.0 as usize].zone, Zone::Hand);
    }
    assert!(state.zone_changes_this_turn.is_empty());
}
