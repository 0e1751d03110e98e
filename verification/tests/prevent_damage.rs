use forge_rules::game::effects::prevent_damage::resolve;
use forge_rules::game::state::{ChosenDamageSource, GameState, ReplacementEvent, ShieldKind};
use forge_rules::game::zones::create_object;
use forge_rules::types::ability::{
    CombatDamageScope, ControllerRef, DamageTargetFilter, DamageTargetPlayerScope, Effect, EffectKind, FilterProp,
    PreventionAmount, PreventionScope, QuantityExpr, ResolvedAbility, TargetFilter, TargetRef, TypeFilter,
    TypedFilter,
};
use forge_rules::types::card::CardType;
use forge_rules::types::card_type::CoreType;
use forge_rules::types::events::GameEvent;
use forge_rules::types::identifiers::{CardId, ObjectId, PlayerId};
use forge_rules::types::mana::ManaColor;
use forge_rules::types::zones::Zone;

fn make_prevent_ability(
    source: ObjectId,
    amount: PreventionAmount,
    scope: PreventionScope,
    targets: Vec<TargetRef>,
) -> ResolvedAbility {
    ResolvedAbility::new(
        Effect::PreventDamage {
            amount,
            amount_dynamic: None,
            target: TargetFilter::Any,
            scope,
            damage_source_filter: None,
        },
        targets,
        source,
        PlayerId(0),
    )
}

fn empty_typed() -> TypedFilter {
    TypedFilter { type_filters: vec![], controller: None, properties: vec![] }
}

#[test]
fn prevent_all_creates_shield_on_source() {
    let mut state = GameState::new_two_player(42);
    let source = create_object(&mut state, CardId(1), PlayerId(0), "Fog".to_string(), Zone::Battlefield);

    let ability = make_prevent_ability(source, PreventionAmount::All, PreventionScope::AllDamage, vec![]);
    let mut events = Vec::new();
    resolve(&mut state, &ability, &mut events).unwrap();

    let obj = &state.objects[source.0 as usize];
    assert_eq!(obj.replacement_definitions.len(), 1);
    assert!(matches!(
        obj.replacement_definitions[0].shield_kind,
        ShieldKind::Prevention { amount: PreventionAmount::All }
    ));
    assert_eq!(obj.replacement_definitions[0].event, ReplacementEvent::DamageDone);
    assert!(!obj.replacement_definitions[0].is_consumed);
}

#[test]
fn dynamic_amount_resolves_to_static_next_shield() {
    let mut state = GameState::new_two_player(42);
    let source = create_object(&mut state, CardId(1), PlayerId(0), "Cover of Winter".to_string(), Zone::Battlefield);

    let ability = ResolvedAbility::new(
        Effect::PreventDamage {
            amount: PreventionAmount::Next(1),
            amount_dynamic: Some(QuantityExpr::Fixed { value: 4 }),
            target: TargetFilter::Any,
            scope: PreventionScope::AllDamage,
            damage_source_filter: None,
        },
        vec![],
        source,
        PlayerId(0),
    );
    let mut events = Vec::new();
    resolve(&mut state, &ability, &mut events).unwrap();

    let obj = &state.objects[source.0 as usize];
    assert_eq!(obj.replacement_definitions.len(), 1);
    assert!(
        matches!(obj.replacement_definitions[0].shield_kind, ShieldKind::Prevention { amount: PreventionAmount::Next(4) }),
        "dynamic Fixed(4) should resolve to a Next(4) shield, got {:?}",
        obj.replacement_definitions[0].shield_kind
    );
}

#[test]
fn chosen_damage_source_resolves_to_specific_source_and_rechecked_filter() {
    let mut state = GameState::new_two_player(42);
    let source = create_object(&mut state, CardId(1), PlayerId(0), "Prevention Spell".to_string(), Zone::Stack);
    let chosen = create_object(&mut state, CardId(2), PlayerId(1), "Red Source".to_string(), Zone::Battlefield);
    state.objects[chosen.0 as usize].color = vec![ManaColor::Red];
    let source_filter =
        TargetFilter::Typed(empty_typed().properties(vec![FilterProp::HasColor { color: ManaColor::Red }]));
    state.last_chosen_damage_source = Some(ChosenDamageSource { source_id: chosen, source_filter: source_filter.clone() });

    let ability = ResolvedAbility::new(
        Effect::PreventDamage {
            amount: PreventionAmount::All,
            amount_dynamic: None,
            target: TargetFilter::Any,
            scope: PreventionScope::AllDamage,
            damage_source_filter: Some(TargetFilter::ChosenDamageSource),
        },
        vec![],
        source,
        PlayerId(0),
    );
    let mut events = Vec::new();
    resolve(&mut state, &ability, &mut events).unwrap();

    assert_eq!(state.pending_damage_replacements.len(), 1);
    assert_eq!(
        state.pending_damage_replacements[0].damage_source_filter,
        Some(TargetFilter::And { filters: vec![TargetFilter::SpecificObject { id: chosen }, source_filter] })
    );
}

#[test]
fn prevent_next_n_creates_shield_with_amount() {
    let mut state = GameState::new_two_player(42);
    let source = create_object(&mut state, CardId(1), PlayerId(0), "Shield".to_string(), Zone::Battlefield);

    let ability = make_prevent_ability(source, PreventionAmount::Next(3), PreventionScope::AllDamage, vec![]);
    let mut events = Vec::new();
    resolve(&mut state, &ability, &mut events).unwrap();

    let obj = &state.objects[source.0 as usize];
    assert!(matches!(
        obj.replacement_definitions[0].shield_kind,
        ShieldKind::Prevention { amount: PreventionAmount::Next(3) }
    ));
}

#[test]
fn combat_damage_scope_sets_combat_only() {
    let mut state = GameState::new_two_player(42);
    let source = create_object(&mut state, CardId(1), PlayerId(0), "Fog".to_string(), Zone::Battlefield);

    let ability = make_prevent_ability(source, PreventionAmount::All, PreventionScope::CombatDamage, vec![]);
    let mut events = Vec::new();
    resolve(&mut state, &ability, &mut events).unwrap();

    let obj = &state.objects[source.0 as usize];
    assert_eq!(obj.replacement_definitions[0].combat_scope, Some(CombatDamageScope::CombatOnly));
}

#[test]
fn controller_scoped_instant_prevention_only_prevents_damage_to_controller() {
    let mut state = GameState::new_two_player(42);
    let shield_source = create_object(&mut state, CardId(1), PlayerId(0), "Inkshield".to_string(), Zone::Stack);
    create_object(&mut state, CardId(2), PlayerId(1), "Attacker".to_string(), Zone::Battlefield);

    let ability = ResolvedAbility::new(
        Effect::PreventDamage {
            amount: PreventionAmount::All,
            amount_dynamic: None,
            target: TargetFilter::Controller,
            scope: PreventionScope::CombatDamage,
            damage_source_filter: None,
        },
        vec![],
        shield_source,
        PlayerId(0),
    );
    let mut events = Vec::new();
    resolve(&mut state, &ability, &mut events).unwrap();

    assert_eq!(state.pending_damage_replacements.len(), 1);
    assert_eq!(
        state.pending_damage_replacements[0].damage_target_filter,
        Some(DamageTargetFilter::Player { player: DamageTargetPlayerScope::Specific(PlayerId(0)) })
    );
    assert_eq!(state.pending_damage_replacements[0].combat_scope, Some(CombatDamageScope::CombatOnly));
}

#[test]
fn player_recipient_prevention_uses_damage_target_filter() {
    let mut state = GameState::new_two_player(42);
    let shield_source = create_object(&mut state, CardId(1), PlayerId(0), "Player Shield".to_string(), Zone::Stack);
    create_object(&mut state, CardId(2), PlayerId(1), "Attacker".to_string(), Zone::Battlefield);
    create_object(&mut state, CardId(3), PlayerId(1), "Creature".to_string(), Zone::Battlefield);

    let ability = ResolvedAbility::new(
        Effect::PreventDamage {
            amount: PreventionAmount::All,
            amount_dynamic: None,
            target: TargetFilter::Player,
            scope: PreventionScope::AllDamage,
            damage_source_filter: None,
        },
        vec![],
        shield_source,
        PlayerId(0),
    );
    let mut events = Vec::new();
    resolve(&mut state, &ability, &mut events).unwrap();

    assert_eq!(state.pending_damage_replacements.len(), 1);
    let shield = &state.pending_damage_replacements[0];
    assert_eq!(shield.damage_target_filter, Some(DamageTargetFilter::Player { player: DamageTargetPlayerScope::Any }));
    assert_eq!(shield.valid_card, None);
}

#[test]
fn emits_effect_resolved() {
    let mut state = GameState::new_two_player(42);
    let source = create_object(&mut state, CardId(1), PlayerId(0), "Fog".to_string(), Zone::Battlefield);

    let ability = make_prevent_ability(source, PreventionAmount::All, PreventionScope::AllDamage, vec![]);
    let mut events = Vec::new();
    resolve(&mut state, &ability, &mut events).unwrap();

    assert!(events.iter().any(|e| matches!(e, GameEvent::EffectResolved { kind: EffectKind::PreventDamage, .. })));
}

#[test]
fn typed_recipient_prevention_only_blocks_matching_creatures() {
    let mut state = GameState::new_two_player(42);
    let pack_leader = create_object(&mut state, CardId(1), PlayerId(0), "Pack Leader".to_string(), Zone::Battlefield);
    let dog = create_object(&mut state, CardId(2), PlayerId(0), "Dog".to_string(), Zone::Battlefield);
    state.objects[dog.0 as usize].card_types =
        CardType { supertypes: vec![], core_types: vec![CoreType::Creature], subtypes: vec!["Dog".to_string()] };
    let bear = create_object(&mut state, CardId(3), PlayerId(0), "Bear".to_string(), Zone::Battlefield);
    state.objects[bear.0 as usize].card_types =
        CardType { supertypes: vec![], core_types: vec![CoreType::Creature], subtypes: vec!["Bear".to_string()] };
    create_object(&mut state, CardId(4), PlayerId(1), "Attacker".to_string(), Zone::Battlefield);

    let ability = ResolvedAbility::new(
        Effect::PreventDamage {
            amount: PreventionAmount::All,
            amount_dynamic: None,
            target: TargetFilter::Typed(
                TypedFilter::creature().with_type(TypeFilter::Subtype("Dog".into())).controller(ControllerRef::You),
            ),
            scope: PreventionScope::CombatDamage,
            damage_source_filter: None,
        },
        vec![],
        pack_leader,
        PlayerId(0),
    );
    let mut events = Vec::new();
    resolve(&mut state, &ability, &mut events).unwrap();

    let shield = &state.objects[pack_leader.0 as usize].replacement_definitions[0];
    assert_eq!(
        shield.valid_card,
        Some(TargetFilter::Typed(
            TypedFilter::creature().with_type(TypeFilter::Subtype("Dog".into())).controller(ControllerRef::You)
        ))
    );
}

#[test]
fn prevent_damage_with_parent_target_hosts_shield_on_inherited_targets() {
    let mut state = GameState::new_two_player(42);
    let source = create_object(&mut state, CardId(1), PlayerId(0), "Gatta and Luzzu".to_string(), Zone::Battlefield);
    let chosen = create_object(&mut state, CardId(2), PlayerId(0), "Bear".to_string(), Zone::Battlefield);

    let ability = ResolvedAbility::new(
        Effect::PreventDamage {
            amount: PreventionAmount::All,
            amount_dynamic: None,
            target: TargetFilter::ParentTarget,
            scope: PreventionScope::AllDamage,
            damage_source_filter: None,
        },
        vec![TargetRef::Object(chosen)],
        source,
        PlayerId(0),
    );
    let mut events = Vec::new();
    resolve(&mut state, &ability, &mut events).unwrap();

    let chosen_obj = &state.objects[chosen.0 as usize];
    assert_eq!(chosen_obj.replacement_definitions.len(), 1, "shield must be hosted on the chosen target");
    assert!(matches!(
        chosen_obj.replacement_definitions[0].shield_kind,
        ShieldKind::Prevention { amount: PreventionAmount::All }
    ));
    let source_obj = &state.objects[source.0 as usize];
    assert!(
        source_obj.replacement_definitions.is_empty(),
        "shield must NOT land on the source — got {:?}",
        source_obj.replacement_definitions
    );
}
