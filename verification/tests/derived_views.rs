use forge_rules::game::derived_views::{derive_views, ClientGameStateRef, StackPaidFactView};
use forge_rules::game::state::{
    AttachTarget, CommanderDamageEntry, FormatConfig, GameState, StackEntry, StackEntryKind, StackPaidSnapshot,
};
use forge_rules::game::zones::create_object;
use forge_rules::types::ability::{Effect, ResolvedAbility, TargetRef};
use forge_rules::types::events::GameEvent;
use forge_rules::types::identifiers::{CardId, ObjectId, PlayerId};
use forge_rules::types::zones::Zone;

fn setup_commander_game(num_players: u8) -> GameState {
    let mut state = GameState::new(FormatConfig::commander(), num_players, 42);
    for player_idx in 0..num_players {
        for i in 0..5 {
            create_object(
                &mut state,
                CardId((player_idx as u64) * 100 + i as u64),
                PlayerId(player_idx),
                format!("Card {} P{}", i, player_idx),
                Zone::Library,
            );
        }
    }
    state
}

fn attacker_entries<'a>(
    buckets: &'a [(PlayerId, Vec<forge_rules::game::derived_views::CommanderDamageView>)],
    p: PlayerId,
) -> Option<&'a Vec<forge_rules::game::derived_views::CommanderDamageView>> {
    buckets.iter().find(|(k, _)| *k == p).map(|(_, v)| v)
}

fn plain_ability(source: ObjectId, targets: Vec<TargetRef>) -> ResolvedAbility {
    ResolvedAbility::new(Effect::Endure { amount: 0 }, targets, source, PlayerId(0))
}

#[test]
fn derive_views_empty_for_non_commander_format() {
    let mut state = GameState::new(FormatConfig::standard(), 2, 42);
    state.commander_damage.push(CommanderDamageEntry { player: PlayerId(0), commander: ObjectId(1), damage: 21 });

    let views = derive_views(&state, None);
    assert!(
        views.commander_damage_by_attacker.is_empty(),
        "non-Commander format must short-circuit regardless of stored damage entries"
    );
}

#[test]
fn derive_views_groups_by_attacker_in_four_player_pod() {
    let mut state = setup_commander_game(4);
    let cmd_p1 = create_object(&mut state, CardId(1001), PlayerId(1), "P1 Commander".into(), Zone::Command);
    let cmd_p2 = create_object(&mut state, CardId(1002), PlayerId(2), "P2 Commander".into(), Zone::Command);
    state.commander_damage.push(CommanderDamageEntry { player: PlayerId(0), commander: cmd_p1, damage: 7 });
    state.commander_damage.push(CommanderDamageEntry { player: PlayerId(0), commander: cmd_p2, damage: 11 });

    let views = derive_views(&state, None);
    let from_p1 = attacker_entries(&views.commander_damage_by_attacker, PlayerId(1)).expect("P1 should have an entry");
    let from_p2 = attacker_entries(&views.commander_damage_by_attacker, PlayerId(2)).expect("P2 should have an entry");
    assert_eq!(from_p1.len(), 1);
    assert_eq!(from_p1[0].damage, 7);
    assert_eq!(from_p1[0].victim, PlayerId(0));
    assert_eq!(from_p1[0].commander, cmd_p1);
    assert_eq!(from_p2.len(), 1);
    assert_eq!(from_p2[0].damage, 11);
}

#[test]
fn derive_views_respects_partner_commanders() {
    let mut state = setup_commander_game(2);
    let partner_a = create_object(&mut state, CardId(2001), PlayerId(1), "Partner A".into(), Zone::Command);
    let partner_b = create_object(&mut state, CardId(2002), PlayerId(1), "Partner B".into(), Zone::Command);
    state.commander_damage.push(CommanderDamageEntry { player: PlayerId(0), commander: partner_a, damage: 20 });
    state.commander_damage.push(CommanderDamageEntry { player: PlayerId(0), commander: partner_b, damage: 5 });

    let views = derive_views(&state, None);
    let from_p1 = attacker_entries(&views.commander_damage_by_attacker, PlayerId(1)).expect("P1 should have an entry");
    assert_eq!(from_p1.len(), 2, "partner commanders must stay as separate entries, not be summed");
    let damages: Vec<u32> = from_p1.iter().map(|e| e.damage).collect();
    assert!(damages.contains(&20));
    assert!(damages.contains(&5));
}

#[test]
fn derive_views_wires_stack_display_groups() {
    let mut state = GameState::new_two_player(42);
    let source = create_object(&mut state, CardId(4001), PlayerId(0), "Scute Swarm".into(), Zone::Battlefield);
    for i in 0..2u64 {
        state.stack.push(StackEntry {
            id: ObjectId(9000 + i),
            source_id: source,
            controller: PlayerId(0),
            kind: StackEntryKind::TriggeredAbility {
                ability: plain_ability(source, vec![]),
                description: Some("landfall".into()),
                source_name: String::new(),
                trigger_event: None,
            },
        });
    }

    let views = derive_views(&state, None);
    assert_eq!(views.stack_display_groups.len(), 1, "identical adjacent triggers must coalesce into one group");
    assert_eq!(views.stack_display_groups[0].count, 2);

    state.stack.clear();
    let empty = derive_views(&state, None);
    assert!(empty.stack_display_groups.is_empty(), "empty-stack short-circuit must leave the group vec empty");
}

#[test]
fn derive_views_wires_stack_entry_details() {
    let mut state = GameState::new_two_player(42);
    let spell = create_object(&mut state, CardId(1), PlayerId(0), "Prismatic Ending".to_string(), Zone::Stack);
    let target = create_object(&mut state, CardId(2), PlayerId(1), "Sol Ring".to_string(), Zone::Battlefield);
    let ability = plain_ability(spell, vec![TargetRef::Object(target)]);
    state.stack.push(StackEntry {
        id: spell,
        source_id: spell,
        controller: PlayerId(0),
        kind: StackEntryKind::Spell { card_id: CardId(1), ability: Some(ability) },
    });
    let mut snapshot = StackPaidSnapshot::empty();
    snapshot.actual_mana_spent = 2;
    snapshot.x_value = Some(1);
    snapshot.distinct_colors_spent = 2;
    state.stack_paid_facts.push((spell, snapshot));

    let views = derive_views(&state, None);
    let details = views
        .stack_entry_details
        .iter()
        .find(|(id, _)| *id == spell)
        .map(|(_, d)| d)
        .expect("stack details include the spell");
    assert_eq!(details.source_name, "Prismatic Ending");
    assert_eq!(details.targets[0].label, "Sol Ring");
    assert!(details.paid.iter().any(|fact| matches!(fact, StackPaidFactView::XValue { value: 1 })));
    assert!(details.paid.iter().any(|fact| matches!(fact, StackPaidFactView::ColorsSpent { distinct: 2 })));
}

#[test]
fn derive_views_uses_filtered_names_for_trigger_context() {
    let mut state = GameState::new_two_player(42);
    let trigger_source = create_object(&mut state, CardId(1), PlayerId(0), "Watcher".to_string(), Zone::Battlefield);
    // The viewer's filtered state holds no object for the opponent's hidden card.
    let hidden_card = ObjectId(500);
    let trigger_event = GameEvent::ZoneChanged { object_id: hidden_card, from: Some(Zone::Library), to: Zone::Hand };
    state.stack.push(StackEntry {
        id: ObjectId(900),
        source_id: trigger_source,
        controller: PlayerId(0),
        kind: StackEntryKind::TriggeredAbility {
            ability: plain_ability(trigger_source, Vec::new()),
            description: Some("hidden-zone trigger".to_string()),
            source_name: "Watcher".to_string(),
            trigger_event: Some(trigger_event),
        },
    });

    let views = derive_views(&state, None);
    let details = views
        .stack_entry_details
        .iter()
        .find(|(id, _)| *id == ObjectId(900))
        .map(|(_, d)| d)
        .expect("trigger details are present");
    let label = details.trigger_context.first().expect("trigger context is present").label.clone();
    assert!(!label.contains("Secret Card"), "trigger context must not bypass multiplayer hidden-card filtering");
    assert!(label.contains("Hidden Card"));
}

#[test]
fn derive_views_surfaces_auras_attached_to_player() {
    let mut state = GameState::new(FormatConfig::standard(), 2, 42);
    let curse = create_object(&mut state, CardId(99), PlayerId(0), "Curse of Opulence".into(), Zone::Battlefield);
    state.objects[curse.0 as usize].card_types.subtypes.push("Aura".to_string());
    state.objects[curse.0 as usize].attached_to = Some(AttachTarget::Player(PlayerId(1)));

    let creature = create_object(&mut state, CardId(100), PlayerId(0), "A Creature".into(), Zone::Battlefield);
    let aura_on_creature = create_object(&mut state, CardId(101), PlayerId(0), "Some Aura".into(), Zone::Battlefield);
    state.objects[aura_on_creature.0 as usize].card_types.subtypes.push("Aura".to_string());
    state.objects[aura_on_creature.0 as usize].attached_to = Some(AttachTarget::Object(creature));

    let views = derive_views(&state, None);
    let p1_auras = views
        .auras_attached_to_player
        .iter()
        .find(|(p, _)| *p == PlayerId(1))
        .map(|(_, v)| v)
        .expect("P1 should appear as an Aura host");
    assert_eq!(p1_auras, &vec![curse], "Curse must be the only entry");
    assert!(
        !views.auras_attached_to_player.iter().any(|(p, _)| *p == PlayerId(0)),
        "P0 has no Aura host — must not get an empty entry",
    );
}

#[test]
fn wrapped_state_carries_its_projections() {
    let mut state = setup_commander_game(2);
    let cmd = create_object(&mut state, CardId(3001), PlayerId(1), "Roundtrip Cmdr".into(), Zone::Command);
    state.commander_damage.push(CommanderDamageEntry { player: PlayerId(0), commander: cmd, damage: 14 });
    let wrapped = ClientGameStateRef::wrap(&state, None);
    let from_p1 = attacker_entries(&wrapped.derived.commander_damage_by_attacker, PlayerId(1))
        .expect("P1 entry is present");
    assert_eq!(from_p1[0].damage, 14);
    assert_eq!(wrapped.state.commander_damage.len(), 1);
}

#[test]
fn stack_entry_details_label_kinds_and_keyword_actions() {
    let mut state = GameState::new_two_player(42);
    let equipment = create_object(&mut state, CardId(1), PlayerId(0), "Bonesplitter".to_string(), Zone::Battlefield);
    let bear = create_object(&mut state, CardId(2), PlayerId(0), "Bear".to_string(), Zone::Battlefield);
    state.stack.push(StackEntry {
        id: ObjectId(800),
        source_id: equipment,
        controller: PlayerId(0),
        kind: StackEntryKind::ActivatedAbility { ability: plain_ability(equipment, vec![]), ability_index: Some(1) },
    });
    state.stack.push(StackEntry {
        id: ObjectId(801),
        source_id: equipment,
        controller: PlayerId(0),
        kind: StackEntryKind::KeywordAction {
            action: forge_rules::game::state::KeywordAction::Equip { target_creature_id: bear },
        },
    });
    state.stack.push(StackEntry {
        id: ObjectId(802),
        source_id: equipment,
        controller: PlayerId(0),
        kind: StackEntryKind::KeywordAction {
            action: forge_rules::game::state::KeywordAction::Equip { target_creature_id: bear },
        },
    });
    let views = derive_views(&state, None);
    assert_eq!(views.stack_entry_details[0].1.kind_label, "Activated ability 2");
    assert_eq!(views.stack_entry_details[1].1.kind_label, "Equip");
    assert_eq!(views.stack_entry_details[1].1.targets[0].label, "Bear");
    assert_eq!(views.stack_display_groups.len(), 3, "keyword actions never coalesce");
}
