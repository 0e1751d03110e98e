use forge_rules::types::identifiers::ObjectId;
use forge_rules::types::keywords::KeywordKind;
use forge_rules::types::mana::{
    ColoredManaCount, ManaColor, ManaCost, ManaCostShard, ManaExpiry, ManaPool, ManaRestriction, ManaType,
    ManaUnit, PaymentContext, SpellMeta, StepEndManaAction, StepEndManaHandler,
};
fn make_unit(color: ManaType) -> ManaUnit {
    ManaUnit::new(color, ObjectId(1), false, Vec::new())
}

fn make_restricted_unit(
    color: ManaType,
    source: ObjectId,
    restrictions: Vec<ManaRestriction>,
) -> ManaUnit {
    ManaUnit::new(color, source, false, restrictions)
}



#[test]
fn mana_pool_default_is_empty() {
    let pool = ManaPool::default();
    assert_eq!(pool.total(), 0);
}

#[test]
fn mana_pool_add_increases_count() {
    let mut pool = ManaPool::default();
    pool.add(make_unit(ManaType::Blue));
    pool.add(make_unit(ManaType::Blue));
    pool.add(make_unit(ManaType::Blue));
    assert_eq!(pool.count_color(ManaType::Blue), 3);
    assert_eq!(pool.total(), 3);
}

#[test]
fn mana_pool_add_multiple_colors() {
    let mut pool = ManaPool::default();
    pool.add(make_unit(ManaType::White));
    pool.add(make_unit(ManaType::White));
    pool.add(make_unit(ManaType::Red));
    pool.add(make_unit(ManaType::Green));
    pool.add(make_unit(ManaType::Green));
    pool.add(make_unit(ManaType::Green));
    assert_eq!(pool.total(), 6);
    assert_eq!(pool.count_color(ManaType::White), 2);
    assert_eq!(pool.count_color(ManaType::Red), 1);
    assert_eq!(pool.count_color(ManaType::Green), 3);
}

#[test]
fn mana_pool_total_includes_colorless() {
    let mut pool = ManaPool::default();
    pool.add(make_unit(ManaType::Colorless));
    pool.add(make_unit(ManaType::Colorless));
    pool.add(make_unit(ManaType::Colorless));
    pool.add(make_unit(ManaType::Colorless));
    pool.add(make_unit(ManaType::Colorless));
    assert_eq!(pool.total(), 5);
}

#[test]
fn mana_pool_spend_removes_unit() {
    let mut pool = ManaPool::default();
    pool.add(make_unit(ManaType::Blue));
    pool.add(make_unit(ManaType::Red));

    let spent = pool.spend(ManaType::Blue);
    assert!(spent.is_some());
    assert_eq!(spent.unwrap().color, ManaType::Blue);
    assert_eq!(pool.total(), 1);
    assert_eq!(pool.count_color(ManaType::Blue), 0);
}

#[test]
fn mana_pool_spend_returns_none_when_empty() {
    let mut pool = ManaPool::default();
    assert!(pool.spend(ManaType::Black).is_none());
}

#[test]
fn mana_pool_clear_empties_pool() {
    let mut pool = ManaPool::default();
    pool.add(make_unit(ManaType::White));
    pool.add(make_unit(ManaType::Blue));
    pool.clear();
    assert_eq!(pool.total(), 0);
}

fn retain(filter: Option<ManaColor>) -> StepEndManaHandler {
    StepEndManaHandler {
        filter,
        action: StepEndManaAction::Retain,
    }
}

fn transform(to: ManaType) -> StepEndManaHandler {
    StepEndManaHandler {
        filter: None,
        action: StepEndManaAction::Transform(to),
    }
}

#[test]
fn mana_pool_retains_end_of_turn_mana_until_cleanup() {
    let mut pool = ManaPool::default();
    let mut retained = make_unit(ManaType::Green);
    retained.expiry = Some(ManaExpiry::EndOfTurn);
    pool.add(retained);
    pool.add(make_unit(ManaType::Red));

    pool.clear_step_transition(false, false, &[]);
    assert_eq!(pool.count_color(ManaType::Green), 1);
    assert_eq!(pool.count_color(ManaType::Red), 0);

    pool.clear_step_transition(false, true, &[]);
    assert_eq!(pool.total(), 0);
}

#[test]
fn mana_pool_retains_static_selected_color() {
    let mut pool = ManaPool::default();
    pool.add(make_unit(ManaType::Red));
    pool.add(make_unit(ManaType::Blue));
    pool.add(make_unit(ManaType::Colorless));

    pool.clear_step_transition(false, false, &[retain(Some(ManaColor::Red))]);

    assert_eq!(pool.count_color(ManaType::Red), 1);
    assert_eq!(pool.count_color(ManaType::Blue), 0);
    assert_eq!(pool.count_color(ManaType::Colorless), 0);
}

#[test]
fn mana_pool_retains_static_all_mana_including_colorless() {
    let mut pool = ManaPool::default();
    pool.add(make_unit(ManaType::Red));
    pool.add(make_unit(ManaType::Colorless));

    pool.clear_step_transition(false, false, &[retain(None)]);

    assert_eq!(pool.count_color(ManaType::Red), 1);
    assert_eq!(pool.count_color(ManaType::Colorless), 1);
}

#[test]
fn mana_pool_transform_on_loss_recolors_to_target_type() {
    // CR 614.1a + CR 703.4q: Horizon Stone — would-be-lost mana becomes
    // colorless instead. All units are kept and recolored.
    let mut pool = ManaPool::default();
    pool.add(make_unit(ManaType::Red));
    pool.add(make_unit(ManaType::Blue));

    pool.clear_step_transition(false, false, &[transform(ManaType::Colorless)]);

    assert_eq!(pool.total(), 2);
    assert_eq!(pool.count_color(ManaType::Colorless), 2);
    assert_eq!(pool.count_color(ManaType::Red), 0);
    assert_eq!(pool.count_color(ManaType::Blue), 0);
}

#[test]
fn mana_pool_transform_does_not_promote_expiry_bound_mana_at_cleanup() {
    // CR 614.6 + CR 703.4q: Symmetric with retention — a Transform
    // handler must NOT rewrite expiry-bound mana into permanent. The
    // EndOfTurn unit follows its own expiry rule at cleanup and is
    // dropped; only the None-expiry unit is transformed.
    let mut pool = ManaPool::default();
    let mut expiry_bound = make_unit(ManaType::Red);
    expiry_bound.expiry = Some(ManaExpiry::EndOfTurn);
    pool.add(expiry_bound);
    pool.add(make_unit(ManaType::Red));

    // entering_cleanup = true: the expiry-bound unit's own rule fires.
    pool.clear_step_transition(false, true, &[transform(ManaType::Colorless)]);

    assert_eq!(pool.total(), 1);
    assert_eq!(pool.count_color(ManaType::Colorless), 1);
    assert_eq!(pool.count_color(ManaType::Red), 0);
}

#[test]
fn mana_pool_transform_leaves_expiry_bound_mana_alone_pre_cleanup() {
    // CR 614.6 + CR 703.4q: An expiry-bound unit whose explicit rule
    // hasn't fired yet (EndOfTurn at a non-cleanup transition) survives
    // unchanged — its color is preserved, the transform handler does
    // not touch it. The None-expiry unit transforms normally.
    let mut pool = ManaPool::default();
    let mut expiry_bound = make_unit(ManaType::Red);
    expiry_bound.expiry = Some(ManaExpiry::EndOfTurn);
    pool.add(expiry_bound);
    pool.add(make_unit(ManaType::Red));

    // entering_cleanup = false: expiry-bound rule has not yet fired.
    pool.clear_step_transition(false, false, &[transform(ManaType::Colorless)]);

    assert_eq!(pool.total(), 2);
    // Expiry-bound unit is unchanged — still Red, still has expiry.
    let expiry_survivor = pool
        .mana
        .iter()
        .find(|u| u.expiry == Some(ManaExpiry::EndOfTurn))
        .expect("expiry-bound unit survived");
    assert_eq!(expiry_survivor.color, ManaType::Red);
    // None-expiry unit transformed.
    let transformed = pool
        .mana
        .iter()
        .find(|u| u.expiry.is_none())
        .expect("non-expiry unit survived");
    assert_eq!(transformed.color, ManaType::Colorless);
}

#[test]
fn mana_pool_retention_wins_over_transform_when_both_apply() {
    // CR 614.6 + CR 703.4q: Retained mana never enters the "would be lost"
    // event, so a coexisting transform leaves it alone. Only unretained
    // mana runs through the transform recolor. First-match policy means
    // the retention handler (listed first) intercepts matching units.
    let mut pool = ManaPool::default();
    pool.add(make_unit(ManaType::Red));
    pool.add(make_unit(ManaType::Blue));

    pool.clear_step_transition(
        false,
        false,
        &[retain(Some(ManaColor::Red)), transform(ManaType::Colorless)],
    );

    assert_eq!(pool.count_color(ManaType::Red), 1);
    assert_eq!(pool.count_color(ManaType::Colorless), 1);
    assert_eq!(pool.count_color(ManaType::Blue), 0);
}

#[test]
fn mana_type_includes_colorless() {
    let types = [
        ManaType::White,
        ManaType::Blue,
        ManaType::Black,
        ManaType::Red,
        ManaType::Green,
        ManaType::Colorless,
    ];
    assert_eq!(types.len(), 6);
}

#[test]
fn mana_unit_tracks_source_and_snow() {
    let unit = ManaUnit::new(
        ManaType::Green,
        ObjectId(42),
        true,
        vec![ManaRestriction::OnlyForSpellType("Creature".to_string())],
    );
    assert_eq!(unit.source_id, ObjectId(42));
    assert!(unit.snow);
    assert_eq!(unit.restrictions.len(), 1);
}


#[test]
fn restriction_allows_matching_spell_type() {
    let restriction = ManaRestriction::OnlyForSpellType("Creature".to_string());
    let creature_spell = SpellMeta {
        types: vec!["Creature".to_string()],
        subtypes: vec!["Elf".to_string()],
        keyword_kinds: vec![],
        cast_from_zone: None,
    };
    let instant_spell = SpellMeta {
        types: vec!["Instant".to_string()],
        subtypes: vec![],
        keyword_kinds: vec![],
        cast_from_zone: None,
    };
    let legendary_spell = SpellMeta {
        types: vec!["Legendary".to_string(), "Creature".to_string()],
        subtypes: vec![],
        keyword_kinds: vec![],
        cast_from_zone: None,
    };
    assert!(restriction.allows_spell(&creature_spell));
    assert!(!restriction.allows_spell(&instant_spell));

    let legendary_restriction = ManaRestriction::OnlyForSpellType("Legendary".to_string());
    assert!(legendary_restriction.allows_spell(&legendary_spell));
    assert!(!legendary_restriction.allows_spell(&creature_spell));
}

#[test]
fn restriction_creature_type_requires_both_type_and_subtype() {
    let restriction = ManaRestriction::OnlyForCreatureType("Elf".to_string());
    let elf_creature = SpellMeta {
        types: vec!["Creature".to_string()],
        subtypes: vec!["Elf".to_string(), "Warrior".to_string()],
        keyword_kinds: vec![],
        cast_from_zone: None,
    };
    let goblin_creature = SpellMeta {
        types: vec!["Creature".to_string()],
        subtypes: vec!["Goblin".to_string()],
        keyword_kinds: vec![],
        cast_from_zone: None,
    };
    let elf_instant = SpellMeta {
        types: vec!["Instant".to_string()],
        subtypes: vec!["Elf".to_string()],
        keyword_kinds: vec![],
        cast_from_zone: None,
    };
    assert!(restriction.allows_spell(&elf_creature));
    assert!(!restriction.allows_spell(&goblin_creature));
    assert!(!restriction.allows_spell(&elf_instant));
}

#[test]
fn spend_for_prefers_unrestricted_mana() {
    let mut pool = ManaPool::default();
    // Add restricted green, then unrestricted green
    pool.add(make_restricted_unit(
        ManaType::Green,
        ObjectId(1),
        vec![ManaRestriction::OnlyForCreatureType("Elf".to_string())],
    ));
    pool.add(make_unit(ManaType::Green));

    let spell = SpellMeta {
        types: vec!["Creature".to_string()],
        subtypes: vec!["Elf".to_string()],
        keyword_kinds: vec![],
        cast_from_zone: None,
    };
    let spent = pool
        .spend_for(ManaType::Green, &PaymentContext::Spell(&spell))
        .unwrap();
    // Should prefer unrestricted mana first
    assert!(spent.restrictions.is_empty());
    assert_eq!(pool.total(), 1);
}

#[test]
fn spend_for_uses_restricted_mana_when_allowed() {
    let mut pool = ManaPool::default();
    pool.add(make_restricted_unit(
        ManaType::Green,
        ObjectId(1),
        vec![ManaRestriction::OnlyForCreatureType("Elf".to_string())],
    ));

    let elf_spell = SpellMeta {
        types: vec!["Creature".to_string()],
        subtypes: vec!["Elf".to_string()],
        keyword_kinds: vec![],
        cast_from_zone: None,
    };
    assert!(pool
        .spend_for(ManaType::Green, &PaymentContext::Spell(&elf_spell))
        .is_some());
}

#[test]
fn remove_from_source_removes_matching_units() {
    let mut pool = ManaPool::default();
    pool.add(ManaUnit::new(
        ManaType::Green,
        ObjectId(10),
        false,
        Vec::new(),
    ));
    pool.add(ManaUnit::new(
        ManaType::Red,
        ObjectId(10),
        false,
        Vec::new(),
    ));
    pool.add(ManaUnit::new(
        ManaType::Blue,
        ObjectId(20),
        false,
        Vec::new(),
    ));

    let removed = pool.remove_from_source(ObjectId(10));
    assert_eq!(removed, 2);
    assert_eq!(pool.total(), 1);
    assert_eq!(pool.count_color(ManaType::Blue), 1);
}

#[test]
fn remove_from_source_returns_zero_when_no_match() {
    let mut pool = ManaPool::default();
    pool.add(make_unit(ManaType::White));
    let removed = pool.remove_from_source(ObjectId(99));
    assert_eq!(removed, 0);
    assert_eq!(pool.total(), 1);
}

#[test]
fn spend_for_skips_restricted_mana_when_not_allowed() {
    let mut pool = ManaPool::default();
    pool.add(make_restricted_unit(
        ManaType::Green,
        ObjectId(1),
        vec![ManaRestriction::OnlyForCreatureType("Elf".to_string())],
    ));

    let goblin_spell = SpellMeta {
        types: vec!["Creature".to_string()],
        subtypes: vec!["Goblin".to_string()],
        keyword_kinds: vec![],
        cast_from_zone: None,
    };
    assert!(pool
        .spend_for(ManaType::Green, &PaymentContext::Spell(&goblin_spell))
        .is_none());
    assert_eq!(pool.total(), 1, "Restricted mana should remain in pool");
}

// CR 106.6: "Spend this mana only to cast Elemental spells or activate abilities
// of Elemental sources" — "Elemental" names a creature subtype. The restriction
// must match against both core types and subtypes on `SpellMeta`.
#[test]
fn restriction_type_or_ability_allows_subtype_creature_spell() {
    let restriction = ManaRestriction::OnlyForTypeSpellsOrAbilities("Elemental".to_string());
    let elemental_creature = SpellMeta {
        types: vec!["Creature".to_string()],
        subtypes: vec!["Elemental".to_string()],
        keyword_kinds: vec![],
        cast_from_zone: None,
    };
    let tribal_elemental_instant = SpellMeta {
        types: vec!["Tribal".to_string(), "Instant".to_string()],
        subtypes: vec!["Elemental".to_string()],
        keyword_kinds: vec![],
        cast_from_zone: None,
    };
    let goblin_creature = SpellMeta {
        types: vec!["Creature".to_string()],
        subtypes: vec!["Goblin".to_string()],
        keyword_kinds: vec![],
        cast_from_zone: None,
    };
    let plain_instant = SpellMeta {
        types: vec!["Instant".to_string()],
        subtypes: vec![],
        keyword_kinds: vec![],
        cast_from_zone: None,
    };
    assert!(restriction.allows_spell(&elemental_creature));
    assert!(restriction.allows_spell(&tribal_elemental_instant));
    assert!(!restriction.allows_spell(&goblin_creature));
    assert!(!restriction.allows_spell(&plain_instant));
}

// CR 105.2c + CR 106.6: "colorless Eldrazi" is a compound quality phrase.
// Both the colorless quality and Eldrazi subtype must be true.
#[test]
fn restriction_type_or_ability_requires_all_compound_spell_qualities() {
    let restriction =
        ManaRestriction::OnlyForTypeSpellsOrAbilities("Colorless Eldrazi".to_string());
    let colorless_eldrazi = SpellMeta {
        types: vec!["Creature".to_string(), "Colorless".to_string()],
        subtypes: vec!["Eldrazi".to_string()],
        keyword_kinds: vec![],
        cast_from_zone: None,
    };
    let colored_eldrazi = SpellMeta {
        types: vec!["Creature".to_string()],
        subtypes: vec!["Eldrazi".to_string()],
        keyword_kinds: vec![],
        cast_from_zone: None,
    };
    let colorless_construct = SpellMeta {
        types: vec!["Artifact".to_string(), "Colorless".to_string()],
        subtypes: vec!["Construct".to_string()],
        keyword_kinds: vec![],
        cast_from_zone: None,
    };
    assert!(restriction.allows_spell(&colorless_eldrazi));
    assert!(!restriction.allows_spell(&colored_eldrazi));
    assert!(!restriction.allows_spell(&colorless_construct));
}

// CR 106.6: The ability-activation half of the OR. An Elemental permanent is a
// source whose subtypes include "Elemental"; activation must be permitted.
#[test]
fn restriction_type_or_ability_allows_subtype_activation() {
    let restriction = ManaRestriction::OnlyForTypeSpellsOrAbilities("Elemental".to_string());
    let elemental_creature_types = vec!["Creature".to_string()];
    let elemental_subtypes = vec!["Elemental".to_string(), "Shaman".to_string()];
    assert!(restriction.allows_activation(&elemental_creature_types, &elemental_subtypes));

    let goblin_subtypes = vec!["Goblin".to_string()];
    assert!(!restriction.allows_activation(&elemental_creature_types, &goblin_subtypes));

    // Core-type match also satisfies the check (e.g., "Artifact sources").
    let artifact_restriction =
        ManaRestriction::OnlyForTypeSpellsOrAbilities("Artifact".to_string());
    let artifact_types = vec!["Artifact".to_string()];
    let no_subtypes: Vec<String> = vec![];
    assert!(artifact_restriction.allows_activation(&artifact_types, &no_subtypes));
}

// CR 105.2c + CR 106.6: The activation half uses the same compound-quality
// predicate as spell casting.
#[test]
fn restriction_type_or_ability_requires_all_compound_activation_qualities() {
    let restriction =
        ManaRestriction::OnlyForTypeSpellsOrAbilities("Colorless Eldrazi".to_string());
    let colorless_creature_types = vec!["Creature".to_string(), "Colorless".to_string()];
    let eldrazi_subtypes = vec!["Eldrazi".to_string()];
    assert!(restriction.allows_activation(&colorless_creature_types, &eldrazi_subtypes));

    let colored_creature_types = vec!["Creature".to_string()];
    assert!(!restriction.allows_activation(&colored_creature_types, &eldrazi_subtypes));

    let construct_subtypes = vec!["Construct".to_string()];
    assert!(!restriction.allows_activation(&colorless_creature_types, &construct_subtypes));
}

#[test]
fn restriction_allows_matching_keyword_kind() {
    let restriction = ManaRestriction::OnlyForSpellWithKeywordKind(KeywordKind::Flashback);
    let flashback_spell = SpellMeta {
        types: vec!["Instant".to_string()],
        subtypes: vec![],
        keyword_kinds: vec![KeywordKind::Flashback],
        cast_from_zone: None,
    };
    let normal_spell = SpellMeta {
        types: vec!["Instant".to_string()],
        subtypes: vec![],
        keyword_kinds: vec![],
        cast_from_zone: None,
    };
    assert!(restriction.allows_spell(&flashback_spell));
    assert!(!restriction.allows_spell(&normal_spell));
}

#[test]
fn mana_value_two_generic_hybrid() {
    // CR 202.3f: {2/W}{2/W}{2/W} → max(2,1) * 3 = 6
    let cost = ManaCost::Cost {
        shards: vec![
            ManaCostShard::TwoWhite,
            ManaCostShard::TwoWhite,
            ManaCostShard::TwoWhite,
        ],
        generic: 0,
    };
    assert_eq!(cost.mana_value(), 6);
}

#[test]
fn mana_value_standard_hybrid() {
    // {1}{W/U}{W/U} → 1 + 1 + 1 = 3
    let cost = ManaCost::Cost {
        shards: vec![ManaCostShard::WhiteBlue, ManaCostShard::WhiteBlue],
        generic: 1,
    };
    assert_eq!(cost.mana_value(), 3);
}

#[test]
fn mana_value_basic_colored() {
    // {W}{U}{B} → 3
    let cost = ManaCost::Cost {
        shards: vec![
            ManaCostShard::White,
            ManaCostShard::Blue,
            ManaCostShard::Black,
        ],
        generic: 0,
    };
    assert_eq!(cost.mana_value(), 3);
}

#[test]
fn mana_value_x_contributes_zero() {
    // CR 202.3e: {X}{R} → 0 + 1 = 1
    let cost = ManaCost::Cost {
        shards: vec![ManaCostShard::X, ManaCostShard::Red],
        generic: 0,
    };
    assert_eq!(cost.mana_value(), 1);
}

#[test]
fn mana_value_phyrexian() {
    // CR 202.3g: {W/P}{B/P} → 1 + 1 = 2
    let cost = ManaCost::Cost {
        shards: vec![ManaCostShard::PhyrexianWhite, ManaCostShard::PhyrexianBlack],
        generic: 0,
    };
    assert_eq!(cost.mana_value(), 2);
}

#[test]
fn test_colored_mana_count_add_unit_ignores_colorless() {
    // CR 207.2c: Adamant checks "of [color]" — colorless mana does not count
    // toward any color tally.
    let mut count = ColoredManaCount::default();
    let source = ObjectId(1);

    count.add_unit(&ManaUnit::new(ManaType::Red, source, false, vec![]));
    count.add_unit(&ManaUnit::new(ManaType::Red, source, false, vec![]));
    count.add_unit(&ManaUnit::new(ManaType::Colorless, source, false, vec![]));
    count.add_unit(&ManaUnit::new(ManaType::Colorless, source, false, vec![]));

    assert_eq!(count.get(ManaColor::Red), 2);
    assert_eq!(count.get(ManaColor::White), 0);
    assert_eq!(count.get(ManaColor::Blue), 0);
    assert_eq!(count.get(ManaColor::Black), 0);
    assert_eq!(count.get(ManaColor::Green), 0);
    assert!(!count.is_empty());

    // An all-colorless tally is considered empty for the "of [color]" check.
    let mut colorless_only = ColoredManaCount::default();
    colorless_only.add_unit(&ManaUnit::new(ManaType::Colorless, source, false, vec![]));
    assert!(colorless_only.is_empty());
}

