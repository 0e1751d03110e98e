use forge_rules::game::state::StaticMode;
use forge_rules::parser::cost_mod::{parse_activated_cost_reduction_minimum_mana, parse_pay_life_as_colored_mana};
use forge_rules::types::ability::TargetFilter;
use forge_rules::types::mana::ManaColor;

#[test]
fn parse_pay_life_as_colored_mana_for_krrik() {
    let def = parse_pay_life_as_colored_mana("For each {B} in a cost, you may pay 2 life rather than pay that mana.")
        .expect("K'rrik line must parse to a StaticDefinition");
    assert_eq!(def.mode, StaticMode::PayLifeAsColoredMana { color: ManaColor::Black });
    assert!(matches!(def.affected, Some(TargetFilter::Controller)));
}

#[test]
fn parse_pay_life_as_colored_mana_red_variant() {
    let def = parse_pay_life_as_colored_mana("For each {R} in a cost, you may pay 2 life rather than pay that mana.")
        .expect("Red-variant line must parse to a StaticDefinition");
    assert_eq!(def.mode, StaticMode::PayLifeAsColoredMana { color: ManaColor::Red });
}

#[test]
fn parse_pay_life_as_colored_mana_rejects_non_two_life() {
    assert!(
        parse_pay_life_as_colored_mana("For each {B} in a cost, you may pay 3 life rather than pay that mana.")
            .is_none(),
        "non-2-life variants must not bind to PayLifeAsColoredMana"
    );
}

#[test]
fn pay_life_phrase_keeps_its_text_and_ignores_surrounding_space() {
    let text = "  for each {g} in a cost, you may pay 2 life rather than pay that mana..";
    let def = parse_pay_life_as_colored_mana(text).unwrap();
    assert_eq!(def.mode, StaticMode::PayLifeAsColoredMana { color: ManaColor::Green });
    assert_eq!(def.description.as_deref(), Some(text));
}

#[test]
fn pay_life_phrase_rejects_trailing_words_and_colorless() {
    assert!(parse_pay_life_as_colored_mana(
        "For each {B} in a cost, you may pay 2 life rather than pay that mana this turn."
    )
    .is_none());
    assert!(parse_pay_life_as_colored_mana("For each {C} in a cost, you may pay 2 life rather than pay that mana.")
        .is_none());
    assert!(parse_pay_life_as_colored_mana("For each {B} in a cost, you may pay 22 life rather than pay that mana.")
        .is_none());
}

#[test]
fn cost_reduction_floor_reads_one_mana() {
    assert_eq!(
        parse_activated_cost_reduction_minimum_mana(
            "abilities you activate cost {2} less to activate. this effect can't reduce the mana in that cost to less than one mana."
        ),
        Some(1)
    );
    assert_eq!(
        parse_activated_cost_reduction_minimum_mana("this effect can't reduce the mana in that cost to less than 2 mana"),
        Some(2)
    );
    assert_eq!(parse_activated_cost_reduction_minimum_mana("abilities you activate cost {1} less to activate."), None);
    assert_eq!(
        parse_activated_cost_reduction_minimum_mana("this effect can't reduce the mana in that cost to less than zero"),
        None
    );
}
