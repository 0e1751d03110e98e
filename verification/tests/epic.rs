use forge_rules::game::epic::{
    collect_upkeep_triggers, epic_source_entry, player_is_epic_locked, register_epic_effect,
    remove_epic_keyword_from_copy,
};
use forge_rules::game::state::{GameState, StackEntry, StackEntryKind};
use forge_rules::game::zones::create_object;
use forge_rules::types::ability::{Effect, ResolvedAbility, TargetRef};
use forge_rules::types::card_type::CoreType;
use forge_rules::types::events::{GameEvent, Phase};
use forge_rules::types::identifiers::{CardId, ObjectId, PlayerId};
use forge_rules::types::keywords::Keyword;
use forge_rules::types::zones::Zone;

fn blank_ability(source_id: ObjectId) -> ResolvedAbility {
    ResolvedAbility::new(Effect::Endure { amount: 0 }, Vec::new(), source_id, PlayerId(0))
}

fn make_spell_object(state: &mut GameState, card_id: CardId, zone: Zone, keywords: Vec<Keyword>) -> ObjectId {
    let id = create_object(state, card_id, PlayerId(0), "Endless Swarm".to_string(), zone);
    let object = &mut state.objects[id.0 as usize];
    object.card_types.core_types.push(CoreType::Instant);
    object.keywords = keywords.clone();
    object.base_keywords = keywords;
    id
}

fn epic_entry(state: &mut GameState) -> StackEntry {
    let card_id = CardId(100);
    let spell_id = make_spell_object(state, card_id, Zone::Stack, vec![Keyword::Epic]);
    StackEntry {
        id: spell_id,
        source_id: spell_id,
        controller: PlayerId(0),
        kind: StackEntryKind::Spell { card_id, ability: Some(blank_ability(spell_id)) },
    }
}

#[test]
fn resolving_epic_spell_registers_rest_of_game_effect_and_locks_casting() {
    let mut state = GameState::new_two_player(1);
    let entry = epic_entry(&mut state);
    assert!(!player_is_epic_locked(&state, PlayerId(0)));

    register_epic_effect(&mut state, &entry);

    assert_eq!(state.epic_effects.len(), 1);
    assert!(player_is_epic_locked(&state, PlayerId(0)));
    assert!(!player_is_epic_locked(&state, PlayerId(1)));
    assert_eq!(state.epic_effects[0].source_name, "Endless Swarm");
    let remembered = epic_source_entry(&state, entry.id).expect("epic effect remembers its spell");
    assert_eq!(remembered.id, entry.id);
    assert_eq!(remembered.controller, PlayerId(0));
}

#[test]
fn epic_upkeep_trigger_copies_spell_without_casting_or_rearming_epic() {
    let mut state = GameState::new_two_player(2);
    let entry = epic_entry(&mut state);
    register_epic_effect(&mut state, &entry);
    assert_eq!(state.epic_effects.len(), 1);

    state.active_player = PlayerId(0);
    let mut pending = Vec::new();
    collect_upkeep_triggers(&state, &[GameEvent::PhaseChanged { phase: Phase::Upkeep }], &mut pending);
    assert_eq!(pending.len(), 1);
    assert_eq!(pending[0].pending.controller, PlayerId(0));
    assert_eq!(pending[0].pending.source_id, entry.id);

    let copy = make_spell_object(&mut state, CardId(100), Zone::Stack, vec![Keyword::Epic]);
    state.objects[copy.0 as usize].is_token = true;
    remove_epic_keyword_from_copy(&mut state, copy);
    assert!(!state.objects[copy.0 as usize].keywords.iter().any(|k| matches!(k, Keyword::Epic)));
    assert!(!state.objects[copy.0 as usize].base_keywords.iter().any(|k| matches!(k, Keyword::Epic)));

    let copy_entry = StackEntry {
        id: copy,
        source_id: copy,
        controller: PlayerId(0),
        kind: StackEntryKind::Spell { card_id: CardId(100), ability: Some(blank_ability(copy)) },
    };
    register_epic_effect(&mut state, &copy_entry);
    assert_eq!(state.epic_effects.len(), 1);
}

#[test]
fn upkeep_of_another_player_queues_no_epic_copy() {
    let mut state = GameState::new_two_player(2);
    let entry = epic_entry(&mut state);
    register_epic_effect(&mut state, &entry);
    state.active_player = PlayerId(1);
    let mut pending = Vec::new();
    collect_upkeep_triggers(&state, &[GameEvent::PhaseChanged { phase: Phase::Upkeep }], &mut pending);
    assert!(pending.is_empty());
}

#[test]
fn epic_lookup_returns_the_registered_entry_with_its_ability() {
    let mut state = GameState::new_two_player(3);
    let card_id = CardId(100);
    let spell_id = make_spell_object(&mut state, card_id, Zone::Stack, vec![Keyword::Epic]);
    let ability = ResolvedAbility::new(
        Effect::Endure { amount: 2 },
        vec![TargetRef::Player(PlayerId(1))],
        spell_id,
        PlayerId(0),
    );
    let entry = StackEntry {
        id: spell_id,
        source_id: spell_id,
        controller: PlayerId(0),
        kind: StackEntryKind::Spell { card_id, ability: Some(ability.clone()) },
    };
    register_epic_effect(&mut state, &entry);
    let found = epic_source_entry(&state, spell_id).expect("registered");
    assert_eq!(found.id, spell_id);
    assert_eq!(found.source_id, spell_id);
    match found.kind {
        StackEntryKind::Spell { card_id: c, ability: Some(a) } => {
            assert_eq!(c, card_id);
            assert_eq!(a.effect, ability.effect);
            assert_eq!(a.targets, ability.targets);
            assert_eq!(a.source_id, ability.source_id);
            assert_eq!(a.controller, ability.controller);
            assert_eq!(a.description, ability.description);
        }
        _ => panic!("expected the spell's entry"),
    }
    assert!(epic_source_entry(&state, ObjectId(999)).is_none());
}
