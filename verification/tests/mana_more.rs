use forge_rules::types::identifiers::ObjectId;
use forge_rules::types::mana::{
    ColoredManaCount, ManaColor, ManaCost, ManaCostShard, ManaPool, ManaRestriction, ManaType, ManaUnit,
};

fn unit(color: ManaType) -> ManaUnit {
    ManaUnit::new(color, ObjectId(1), false, Vec::new())
}

#[test]
fn spend_generic_takes_first_unrestricted_units() {
    let mut pool = ManaPool::default();
    pool.add(ManaUnit::new(ManaType::Green, ObjectId(1), false, vec![ManaRestriction::OnlyForCreatureType("Elf".to_string())]));
    pool.add(unit(ManaType::Red));
    pool.add(unit(ManaType::Blue));
    pool.add(unit(ManaType::White));
    assert!(pool.spend_generic(2));
    assert_eq!(pool.total(), 2);
    assert_eq!(pool.count_color(ManaType::Green), 1);
    assert_eq!(pool.count_color(ManaType::White), 1);
}

#[test]
fn spend_generic_without_enough_changes_nothing() {
    let mut pool = ManaPool::default();
    pool.add(ManaUnit::new(ManaType::Green, ObjectId(1), false, vec![ManaRestriction::OnlyForCreatureType("Elf".to_string())]));
    pool.add(unit(ManaType::Red));
    assert!(!pool.spend_generic(2));
    assert_eq!(pool.total(), 2);
}

#[test]
fn convoke_markers_are_not_produced_mana() {
    let mut pool = ManaPool::default();
    pool.add(unit(ManaType::Red));
    let marker = ManaUnit::convoke_payment(ManaType::Green, ObjectId(7));
    assert!(marker.is_convoke_payment());
    assert!(!unit(ManaType::Red).is_convoke_payment());
    pool.add(marker);
    assert_eq!(pool.total(), 2);
    assert_eq!(pool.produced_mana_total(), 1);
}

#[test]
fn distinct_colors_counts_positive_tallies() {
    let mut count = ColoredManaCount::new();
    assert_eq!(count.distinct_colors(), 0);
    count.add(ManaColor::Red, 2);
    count.add(ManaColor::Blue, 1);
    assert_eq!(count.distinct_colors(), 2);
    assert_eq!(count.get(ManaColor::Red), 2);
}

#[test]
fn hybrid_symbols_count_toward_both_colors() {
    assert!(ManaCostShard::WhiteBlue.contributes_to(ManaColor::White));
    assert!(ManaCostShard::WhiteBlue.contributes_to(ManaColor::Blue));
    assert!(!ManaCostShard::WhiteBlue.contributes_to(ManaColor::Red));
    assert!(ManaCostShard::PhyrexianBlack.contributes_to(ManaColor::Black));
    assert!(!ManaCostShard::X.contributes_to(ManaColor::Green));
}

#[test]
fn plus_and_scaled_add_mana_values() {
    let a = ManaCost::Cost { shards: vec![ManaCostShard::Red], generic: 2 };
    let b = ManaCost::Cost { shards: vec![ManaCostShard::Blue, ManaCostShard::Blue], generic: 1 };
    assert_eq!(a.plus(&b).mana_value(), 6);
    assert_eq!(a.scaled(3).mana_value(), 9);
    assert_eq!(ManaCost::zero().mana_value(), 0);
}

#[test]
fn plus_of_two_no_costs_is_no_cost() {
    assert_eq!(ManaCost::NoCost.plus(&ManaCost::NoCost), ManaCost::NoCost);
    assert_eq!(ManaCost::NoCost.plus(&ManaCost::zero()), ManaCost::zero());
    assert_eq!(ManaCost::SelfManaCost.plus(&ManaCost::NoCost), ManaCost::zero());
}

#[test]
fn concretize_x_replaces_each_x() {
    let mut c = ManaCost::Cost { shards: vec![ManaCostShard::X, ManaCostShard::X, ManaCostShard::Red], generic: 1 };
    assert_eq!(c.mana_value(), 2);
    c.concretize_x(3);
    assert_eq!(c.mana_value(), 8);
}
