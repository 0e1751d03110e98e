use forge_rules::game::effects::endure::{choose_branch, resolve};
use forge_rules::game::state::{GameState, WaitingFor};
use forge_rules::game::zones::create_object;
use forge_rules::types::ability::{BranchEffect, Effect, EffectError, ResolvedAbility};
use forge_rules::types::card_type::CoreType;
use forge_rules::types::identifiers::{CardId, ObjectId, PlayerId};
use forge_rules::types::mana::ManaColor;
use forge_rules::types::zones::Zone;

fn setup(amount: u32) -> (GameState, ObjectId, ResolvedAbility) {
    let mut state = GameState::new_two_player(42);
    state.waiting_for = WaitingFor::Priority { player: PlayerId(0) };
    let source_id = create_object(&mut state, CardId(1), PlayerId(0), "Creature".to_string(), Zone::Battlefield);
    state.objects[source_id.0 as usize].card_types.core_types.push(CoreType::Creature);
    let ability = ResolvedAbility::new(Effect::Endure { amount }, vec![], source_id, PlayerId(0));
    (state, source_id, ability)
}

fn spirit_tokens(state: &GameState) -> Vec<ObjectId> {
    state
        .battlefield
        .iter()
        .copied()
        .filter(|id| {
            state
                .objects
                .get(id.0 as usize)
                .map(|o| o.is_token && o.card_types.subtypes.iter().any(|s| s == "Spirit"))
                .unwrap_or(false)
        })
        .collect()
}

#[test]
fn endure_counter_branch_puts_counters_on_source() {
    let (mut state, source_id, ability) = setup(2);
    let mut events = Vec::new();

    resolve(&mut state, &ability, &mut events).unwrap();

    let counter_index = match &state.waiting_for {
        WaitingFor::ChooseOneOfBranch { player, source_id: prompt_source, branches, .. } => {
            assert_eq!(*player, PlayerId(0));
            assert_eq!(*prompt_source, source_id);
            branches
                .iter()
                .position(|b| matches!(b.effect, BranchEffect::PutCounter { .. }))
                .expect("counter branch present")
        }
        other => panic!("expected ChooseOneOfBranch, got {other:?}"),
    };

    choose_branch(&mut state, counter_index, &mut events).unwrap();

    assert_eq!(state.objects[source_id.0 as usize].plus_one_counters, 2);
    assert!(spirit_tokens(&state).is_empty());
}

#[test]
fn endure_token_branch_creates_spirit_token() {
    let (mut state, source_id, ability) = setup(2);
    let mut events = Vec::new();

    resolve(&mut state, &ability, &mut events).unwrap();

    let token_index = match &state.waiting_for {
        WaitingFor::ChooseOneOfBranch { branches, .. } => branches
            .iter()
            .position(|b| matches!(b.effect, BranchEffect::Token { .. }))
            .expect("token branch present"),
        other => panic!("expected ChooseOneOfBranch, got {other:?}"),
    };

    choose_branch(&mut state, token_index, &mut events).unwrap();

    let tokens = spirit_tokens(&state);
    assert_eq!(tokens.len(), 1);
    let token = &state.objects[tokens[0].0 as usize];
    assert!(token.is_token);
    assert_eq!(token.power, Some(2));
    assert_eq!(token.toughness, Some(2));
    assert_eq!(token.color, vec![ManaColor::White]);
    assert_eq!(token.controller, PlayerId(0));
    assert!(token.card_types.core_types.contains(&CoreType::Creature));
    assert!(token.card_types.subtypes.iter().any(|s| s == "Spirit"));
    assert_eq!(state.objects[source_id.0 as usize].plus_one_counters, 0);
}

#[test]
fn endure_zero_does_nothing() {
    let (mut state, source_id, ability) = setup(0);
    let mut events = Vec::new();

    resolve(&mut state, &ability, &mut events).unwrap();

    assert!(
        !matches!(state.waiting_for, WaitingFor::ChooseOneOfBranch { .. }),
        "endure 0 must not present a branch choice"
    );
    assert!(spirit_tokens(&state).is_empty());
    assert_eq!(state.objects[source_id.0 as usize].plus_one_counters, 0);
}

#[test]
fn choose_branch_without_a_pending_choice_is_refused() {
    let (mut state, _source_id, _ability) = setup(2);
    let mut events = Vec::new();
    assert_eq!(choose_branch(&mut state, 0, &mut events), Err(EffectError::InvalidParam("no branch choice pending".to_string())));
    assert!(events.is_empty());
}

#[test]
fn choose_branch_with_out_of_range_index_is_refused() {
    let (mut state, _source_id, ability) = setup(1);
    let mut events = Vec::new();
    resolve(&mut state, &ability, &mut events).unwrap();
    let before = events.len();
    assert_eq!(choose_branch(&mut state, 5, &mut events), Err(EffectError::InvalidParam("branch index out of range".to_string())));
    assert_eq!(events.len(), before);
    assert!(matches!(state.waiting_for, WaitingFor::ChooseOneOfBranch { .. }));
}
