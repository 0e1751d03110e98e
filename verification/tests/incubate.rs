use forge_rules::game::effects::incubate::resolve;
use forge_rules::game::state::{GameObject, GameState, ObjectAbility};
use forge_rules::types::ability::{Effect, QuantityExpr, ResolvedAbility};
use forge_rules::types::card_type::CoreType;
use forge_rules::types::identifiers::{ObjectId, PlayerId};
use forge_rules::types::mana::ManaCost;

fn make_incubate_ability(count: QuantityExpr) -> ResolvedAbility {
    ResolvedAbility::new(Effect::Incubate { count }, vec![], ObjectId(100), PlayerId(0))
}

fn incubators(state: &GameState) -> Vec<&GameObject> {
    state
        .battlefield
        .iter()
        .filter_map(|id| state.objects.get(id.0 as usize))
        .filter(|obj| obj.card_types.subtypes.iter().any(|s| s == "Incubator"))
        .collect()
}

#[test]
fn incubate_creates_artifact_token_with_counters() {
    let mut state = GameState::new_two_player(42);
    let mut events = Vec::new();
    let ability = make_incubate_ability(QuantityExpr::Fixed { value: 3 });

    resolve(&mut state, &ability, &mut events).unwrap();

    let incs = incubators(&state);
    assert_eq!(incs.len(), 1);
    let inc = incs[0];
    assert!(inc.is_token);
    assert!(inc.card_types.core_types.contains(&CoreType::Artifact));
    assert!(!inc.card_types.core_types.contains(&CoreType::Creature));
    assert!(inc.color.is_empty());
    assert_eq!(inc.name, "Incubator");
    assert_eq!(inc.plus_one_counters, 3);
    assert_eq!(inc.abilities.len(), 1);
    assert!(matches!(inc.abilities[0], ObjectAbility::Transform { .. }));
    assert!(inc.back_face.is_some());
}

#[test]
fn incubate_zero_creates_token_without_counters() {
    let mut state = GameState::new_two_player(42);
    let mut events = Vec::new();
    let ability = make_incubate_ability(QuantityExpr::Fixed { value: 0 });

    resolve(&mut state, &ability, &mut events).unwrap();

    let incs = incubators(&state);
    assert_eq!(incs.len(), 1);
    assert_eq!(incs[0].plus_one_counters, 0);
}

#[test]
fn incubate_multiple_creates_separate_tokens() {
    let mut state = GameState::new_two_player(42);
    let mut events = Vec::new();

    let ability = make_incubate_ability(QuantityExpr::Fixed { value: 2 });
    resolve(&mut state, &ability, &mut events).unwrap();
    resolve(&mut state, &ability, &mut events).unwrap();

    assert_eq!(incubators(&state).len(), 2);
}

#[test]
fn incubator_transforms_for_two_generic_into_a_phyrexian() {
    let mut state = GameState::new_two_player(42);
    let mut events = Vec::new();
    resolve(&mut state, &make_incubate_ability(QuantityExpr::Fixed { value: 1 }), &mut events).unwrap();
    let incs = incubators(&state);
    let inc = incs[0];
    match &inc.abilities[0] {
        ObjectAbility::Transform { cost } => assert_eq!(cost.mana_value(), ManaCost::generic(2).mana_value()),
    }
    let back = inc.back_face.as_ref().unwrap();
    assert_eq!(back.power, Some(0));
    assert_eq!(back.toughness, Some(0));
    assert!(back.card_types.core_types.contains(&CoreType::Creature));
    assert!(back.card_types.subtypes.iter().any(|s| s == "Phyrexian"));
}
