use forge_rules::game::effects::cloak::resolve;
use forge_rules::game::state::GameState;
use forge_rules::game::zones::create_object;
use forge_rules::types::ability::{Effect, QuantityExpr, ResolvedAbility, TargetFilter};
use forge_rules::types::events::GameEvent;
use forge_rules::types::identifiers::{CardId, ObjectId, PlayerId};
use forge_rules::types::keywords::{Keyword, WardCost};
use forge_rules::types::mana::ManaCost;
use forge_rules::types::zones::Zone;

#[test]
fn cloak_top_card_enters_face_down_with_ward_two() {
    let mut state = GameState::new_two_player(42);
    let player = PlayerId(0);
    let card = create_object(&mut state, CardId(70158), player, "Cloaked Card".to_string(), Zone::Library);
    let ability = ResolvedAbility::new(
        Effect::Cloak { target: TargetFilter::Controller, count: QuantityExpr::Fixed { value: 1 } },
        vec![],
        ObjectId(999),
        player,
    );

    let mut events = Vec::new();
    resolve(&mut state, &ability, &mut events).unwrap();

    let obj = &state.objects[card.0 as usize];
    assert_eq!(obj.zone, Zone::Battlefield);
    assert!(obj.face_down);
    assert_eq!(obj.power, Some(2));
    assert_eq!(obj.toughness, Some(2));
    assert!(obj
        .keywords
        .iter()
        .any(|keyword| matches!(keyword, Keyword::Ward(WardCost::Mana(cost)) if *cost == ManaCost::generic(2))));
    assert!(events.iter().any(
        |event| matches!(event, GameEvent::ZoneChanged { object_id, to, .. } if *object_id == card && *to == Zone::Battlefield)
    ));
}
