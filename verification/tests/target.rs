use forge_rules::parser::target::{
    parse_controller_suffix, parse_event_context_ref, parse_self_reference, parse_stack_object_target,
    parse_target_phrase, parse_type_filter_word, parse_type_phrase,
};
use forge_rules::types::ability::{ControllerRef, FilterProp, TargetFilter, TypeFilter, TypedFilter};
use forge_rules::types::card_type::Supertype;
use forge_rules::types::mana::ManaColor;
use forge_rules::types::zones::Zone;

#[test]
fn test_parse_target_phrase_creature() {
    let (rest, filter) = parse_target_phrase("target creature with power").unwrap();
    assert_eq!(rest, " with power");
    match filter {
        TargetFilter::Typed(tf) => {
            assert_eq!(tf.type_filters, vec![TypeFilter::Creature]);
        }
        _ => panic!("expected Typed filter"),
    }
}

#[test]
fn test_parse_target_phrase_artifact_or_enchantment() {
    let (rest, filter) =
        parse_target_phrase("target artifact or enchantment you control").unwrap();
    assert_eq!(rest, "");
    match filter {
        TargetFilter::Typed(tf) => {
            assert_eq!(
                tf.type_filters,
                vec![TypeFilter::AnyOf(vec![
                    TypeFilter::Artifact,
                    TypeFilter::Enchantment
                ])]
            );
            assert_eq!(tf.controller, Some(ControllerRef::You));
        }
        _ => panic!("expected Typed filter"),
    }
}

#[test]
fn test_parse_target_phrase_no_target_prefix() {
    assert!(parse_target_phrase("creature").is_err());
}

#[test]
fn test_parse_controller_suffix() {
    let (rest, c) = parse_controller_suffix("you control stuff").unwrap();
    assert_eq!(c, ControllerRef::You);
    assert_eq!(rest, " stuff");

    let (rest2, c2) = parse_controller_suffix("an opponent controls").unwrap();
    assert_eq!(c2, ControllerRef::Opponent);
    assert_eq!(rest2, "");
}

#[test]
fn test_parse_type_phrase_single() {
    let (rest, filter) = parse_type_phrase("creature you control").unwrap();
    assert_eq!(rest, "");
    match filter {
        TargetFilter::Typed(tf) => {
            assert_eq!(tf.type_filters, vec![TypeFilter::Creature]);
            assert_eq!(tf.controller, Some(ControllerRef::You));
        }
        _ => panic!("expected Typed filter"),
    }
}

#[test]
fn test_parse_type_phrase_multi() {
    let (rest, filter) = parse_type_phrase("instant or sorcery").unwrap();
    assert_eq!(rest, "");
    match filter {
        TargetFilter::Typed(tf) => {
            assert_eq!(
                tf.type_filters,
                vec![TypeFilter::AnyOf(vec![
                    TypeFilter::Instant,
                    TypeFilter::Sorcery
                ])]
            );
        }
        _ => panic!("expected Typed filter"),
    }
}

#[test]
fn test_parse_type_phrase_with_color() {
    let (rest, filter) = parse_type_phrase("white creature").unwrap();
    assert_eq!(rest, "");
    match filter {
        TargetFilter::Typed(tf) => {
            assert_eq!(tf.type_filters, vec![TypeFilter::Creature]);
            assert!(tf.properties.contains(&FilterProp::HasColor {
                color: ManaColor::White
            }));
        }
        _ => panic!("expected Typed filter"),
    }
}

#[test]
fn test_parse_type_phrase_with_supertype() {
    let (rest, filter) = parse_type_phrase("legendary creature").unwrap();
    assert_eq!(rest, "");
    match filter {
        TargetFilter::Typed(tf) => {
            assert_eq!(tf.type_filters, vec![TypeFilter::Creature]);
            assert!(tf.properties.contains(&FilterProp::HasSupertype {
                value: Supertype::Legendary
            }));
        }
        _ => panic!("expected Typed filter"),
    }
}

#[test]
fn test_parse_type_phrase_nonland() {
    // "nonland" → Non(Land) with trailing text unconsumed
    let (rest, filter) = parse_type_phrase("nonland permanent").unwrap();
    // The parser reads "non" prefix, then "land" as type, leaving " permanent"
    // It wraps the parsed type in Non
    match filter {
        TargetFilter::Typed(tf) => {
            assert_eq!(
                tf.type_filters,
                vec![TypeFilter::Non(Box::new(TypeFilter::Land))]
            );
        }
        _ => panic!("expected Typed filter"),
    }
    assert_eq!(rest, " permanent");
}

#[test]
fn test_parse_self_reference() {
    let (rest, f) = parse_self_reference("~ gets").unwrap();
    assert_eq!(rest, " gets");
    assert_eq!(f, TargetFilter::SelfRef);

    let (rest2, f2) = parse_self_reference("it deals").unwrap();
    assert_eq!(rest2, " deals");
    assert_eq!(f2, TargetFilter::SelfRef);

    let (rest3, f3) = parse_self_reference("this creature gets").unwrap();
    assert_eq!(rest3, " gets");
    assert_eq!(f3, TargetFilter::SelfRef);

    // "this card" used when the ability source is in a non-battlefield zone
    // (e.g. Ichorid: "other than this card from your graveyard").
    let (rest4, f4) = parse_self_reference("this card from your graveyard").unwrap();
    assert_eq!(rest4, " from your graveyard");
    assert_eq!(f4, TargetFilter::SelfRef);
}

#[test]
fn test_parse_self_reference_it_word_boundary() {
    // "item" should NOT match as "it" self-reference
    assert!(parse_self_reference("item").is_err());
    assert!(parse_self_reference("iterate").is_err());

    // "it" at end of input should match
    let (rest, f) = parse_self_reference("it").unwrap();
    assert_eq!(rest, "");
    assert_eq!(f, TargetFilter::SelfRef);
}

#[test]
fn test_parse_self_reference_itself() {
    // "itself" at end of input should match
    let (rest, f) = parse_self_reference("itself").unwrap();
    assert_eq!(rest, "");
    assert_eq!(f, TargetFilter::SelfRef);

    // "itself" followed by word boundary should match
    let (rest2, f2) = parse_self_reference("itself.").unwrap();
    assert_eq!(rest2, ".");
    assert_eq!(f2, TargetFilter::SelfRef);

    let (rest3, f3) = parse_self_reference("itself-damage").unwrap();
    assert_eq!(rest3, "-damage");
    assert_eq!(f3, TargetFilter::SelfRef);

    // "itselfless" should NOT match as an "itself" self-reference.
    assert!(parse_self_reference("itselfless").is_err());
}

#[test]
fn test_parse_event_context_ref() {
    let (rest, f) = parse_event_context_ref("that spell's controller gains").unwrap();
    assert_eq!(rest, " gains");
    assert_eq!(f, TargetFilter::TriggeringSpellController);

    let (rest2, f2) = parse_event_context_ref("that player loses").unwrap();
    assert_eq!(rest2, " loses");
    assert_eq!(f2, TargetFilter::TriggeringPlayer);

    let (rest3, f3) = parse_event_context_ref("defending player").unwrap();
    assert_eq!(rest3, "");
    assert_eq!(f3, TargetFilter::DefendingPlayer);

    let (rest4, f4) = parse_event_context_ref("that spell is countered").unwrap();
    assert_eq!(rest4, " is countered");
    assert_eq!(f4, TargetFilter::TriggeringSource);

    // CR 608.2k: "the player" in trigger context is anaphoric to
    // the triggering player (synonym for "that player").
    let (rest5, f5) = parse_event_context_ref("the player loses").unwrap();
    assert_eq!(rest5, " loses");
    assert_eq!(f5, TargetFilter::TriggeringPlayer);

    // "the defending player" still wins over "the player" (longest-match).
    let (rest6, f6) = parse_event_context_ref("the defending player gains").unwrap();
    assert_eq!(rest6, " gains");
    assert_eq!(f6, TargetFilter::DefendingPlayer);
}

#[test]
fn test_parse_type_filter_word_plurals() {
    let r = parse_type_filter_word("creatures you");
    assert!(r.is_ok());
    let (rest, _t) = r.unwrap();
    assert_eq!(rest, " you");
}

#[test]
fn test_parse_type_filter_word_spell() {
    // CR 112.1: a spell is a card on the stack — "spell" maps to Card.
    let (rest, t) = parse_type_filter_word("spell").unwrap();
    assert!(matches!(t, TypeFilter::Card), "expected Card for spell");
    assert_eq!(rest, "");
}

/// CR 700.12: the expected outlaw disjunction (Assassin, Mercenary, Pirate,
/// Rogue, Warlock) produced by the "outlaw[s]" head noun.
fn outlaw_any_of() -> TypeFilter {
    TypeFilter::AnyOf(
        ["Assassin", "Mercenary", "Pirate", "Rogue", "Warlock"]
            .iter()
            .map(|s| TypeFilter::Subtype((*s).to_string()))
            .collect(),
    )
}

#[test]
fn test_parse_type_filter_word_outlaws() {
    // CR 700.12: "outlaws" expands to the five outlaw creature types.
    let (rest, t) = parse_type_filter_word("outlaws you control").unwrap();
    assert_eq!(t, outlaw_any_of());
    assert_eq!(rest, " you control");
}

#[test]
fn test_parse_type_filter_word_outlaw_singular() {
    let (rest, t) = parse_type_filter_word("outlaw").unwrap();
    assert_eq!(t, outlaw_any_of());
    assert_eq!(rest, "");
}

#[test]
fn test_parse_type_filter_word_outlawry_does_not_match_outlaw() {
    // Word-boundary guard: "outlawry" must NOT match the "outlaw" head noun.
    // An `Err` is also acceptable — "outlawry" is not a type word at all.
    if let Ok((_, tf)) = parse_type_filter_word("outlawry") {
        assert_ne!(
            tf,
            outlaw_any_of(),
            "outlawry must not parse as the outlaw disjunction"
        );
    }
}

// --- parse_stack_object_target (CR 701.6a + CR 115.1) ---

/// The noncreature-spell disjunct: a stack-pinned `Typed` filter that
/// excludes creature spells via `TypeFilter::Non(Creature)`.
fn noncreature_spell_leg() -> TargetFilter {
    TargetFilter::Typed(TypedFilter {
        type_filters: vec![TypeFilter::Non(Box::new(TypeFilter::Creature))],
        controller: None,
        properties: vec![FilterProp::InZone { zone: Zone::Stack }],
    })
}

#[test]
fn test_stack_object_three_way_disjunction() {
    // Louisoix's Sacrifice — the full three-way disjunction.
    let (rest, filter) =
        parse_stack_object_target("activated ability, triggered ability, or noncreature spell")
            .unwrap();
    assert_eq!(rest, "");
    assert_eq!(
        filter,
        TargetFilter::Or {
            filters: vec![
                TargetFilter::StackAbility { controller: None },
                noncreature_spell_leg(),
            ],
        }
    );
}

#[test]
fn test_stack_object_noncreature_excludes_creature_spell() {
    // The noncreature restriction must be carried as a typed `Non` leg —
    // a creature spell is NOT a member of the legal target set.
    let (_, filter) =
        parse_stack_object_target("activated ability, triggered ability, or noncreature spell")
            .unwrap();
    let TargetFilter::Or { filters } = &filter else {
        panic!("expected Or filter");
    };
    let spell_leg = &filters[1];
    let TargetFilter::Typed(tf) = spell_leg else {
        panic!("expected Typed spell leg");
    };
    assert_eq!(
        tf.type_filters,
        vec![TypeFilter::Non(Box::new(TypeFilter::Creature))],
        "creature spells must be excluded by the noncreature restriction"
    );
    assert!(
        tf.properties
            .contains(&FilterProp::InZone { zone: Zone::Stack }),
        "the spell leg must be pinned to the stack zone"
    );
}

#[test]
fn test_stack_object_activated_or_triggered_ability() {
    // Ability-only counter (e.g. Stifle / Disallow's ability disjunct).
    let (rest, filter) = parse_stack_object_target("activated or triggered ability").unwrap();
    assert_eq!(rest, "");
    assert_eq!(filter, TargetFilter::StackAbility { controller: None });
}

#[test]
fn test_stack_object_activated_ability_only() {
    let (rest, filter) = parse_stack_object_target("activated ability").unwrap();
    assert_eq!(rest, "");
    assert_eq!(filter, TargetFilter::StackAbility { controller: None });
}

#[test]
fn test_stack_object_spell_or_ability() {
    // Disallow / Voidslime — "counter target spell, activated ability, or
    // triggered ability" reduces (in the simple two-way form) to the
    // "spell or ability" phrasing.
    let (rest, filter) = parse_stack_object_target("spell or ability").unwrap();
    assert_eq!(rest, "");
    assert_eq!(
        filter,
        TargetFilter::Or {
            filters: vec![
                TargetFilter::StackSpell,
                TargetFilter::StackAbility { controller: None },
            ],
        }
    );
}

#[test]
fn test_stack_object_rejects_pure_spell_phrase() {
    // A phrase that is purely a spell type restriction (no ability
    // disjunct) must NOT be matched — `parse_target` handles those.
    assert!(parse_stack_object_target("noncreature spell").is_err());
    assert!(parse_stack_object_target("artifact or enchantment spell").is_err());
    assert!(parse_stack_object_target("spell").is_err());
    // A battlefield type phrase must likewise not be swallowed.
    assert!(parse_stack_object_target("creature you control").is_err());
    assert!(parse_stack_object_target("permanent").is_err());
}
