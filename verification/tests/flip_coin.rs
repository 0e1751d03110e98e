use forge_rules::game::effects::flip_coin::{resolve, resolve_flip_coins, resolve_until_lose};
use forge_rules::game::state::GameState;
use forge_rules::game::zones::create_object;
use forge_rules::types::ability::{
    AbilityDefinition, AbilityKind, BranchEffect, Effect, EffectKind, QuantityExpr, ResolvedAbility, TargetFilter,
};
use forge_rules::types::events::GameEvent;
use forge_rules::types::identifiers::{CardId, ObjectId, PlayerId};
use forge_rules::types::zones::Zone;
use rand::SeedableRng;
use rand_chacha::ChaCha20Rng;

#[test]
fn flip_coin_emits_event() {
    let mut state = GameState::new_two_player(42);
    let ability =
        ResolvedAbility::new(Effect::FlipCoin { win_effect: None, lose_effect: None }, vec![], ObjectId(1), PlayerId(0));
    let mut events = Vec::new();
    let result = resolve(&mut state, &ability, &mut events);
    assert!(result.is_ok());
    assert!(events.iter().any(|e| matches!(e, GameEvent::CoinFlipped { .. })));
}

#[test]
fn flip_coin_with_branches_resolves_one() {
    let mut state = GameState::new_two_player(42);

    let win_effect = Box::new(AbilityDefinition::new(
        AbilityKind::Spell,
        BranchEffect::GainLife { amount: QuantityExpr::Fixed { value: 5 }, player: TargetFilter::Controller },
    ));
    let lose_effect = Box::new(AbilityDefinition::new(
        AbilityKind::Spell,
        BranchEffect::LoseLife { amount: QuantityExpr::Fixed { value: 3 } },
    ));

    let ability = ResolvedAbility::new(
        Effect::FlipCoin { win_effect: Some(win_effect), lose_effect: Some(lose_effect) },
        vec![],
        ObjectId(1),
        PlayerId(0),
    );
    let initial_life = state.players[0].life;
    let mut events = Vec::new();
    resolve(&mut state, &ability, &mut events).unwrap();

    let new_life = state.players[0].life;
    assert_ne!(new_life, initial_life, "One branch should have fired");
    assert!(
        new_life == initial_life + 5 || new_life == initial_life - 3,
        "Expected +5 or -3, got {}",
        new_life - initial_life
    );
}

#[test]
fn flip_coin_until_lose_emits_multiple_events() {
    let mut state = GameState::new_two_player(42);
    for i in 0..10 {
        create_object(&mut state, CardId(i + 1), PlayerId(0), format!("Card {}", i), Zone::Library);
    }

    let ability = ResolvedAbility::new(
        Effect::FlipCoinUntilLose {
            win_effect: Box::new(AbilityDefinition::new(
                AbilityKind::Spell,
                BranchEffect::Draw { count: QuantityExpr::Fixed { value: 1 } },
            )),
        },
        vec![],
        ObjectId(1),
        PlayerId(0),
    );
    let mut events = Vec::new();
    let result = resolve_until_lose(&mut state, &ability, &mut events);
    assert!(result.is_ok());

    let flip_count = events.iter().filter(|e| matches!(e, GameEvent::CoinFlipped { .. })).count();
    assert!(flip_count >= 1);

    let last_flip = events.iter().rev().find(|e| matches!(e, GameEvent::CoinFlipped { .. }));
    assert!(matches!(last_flip, Some(GameEvent::CoinFlipped { won: false, .. })));
}

#[test]
fn flip_coins_emits_n_coin_flip_events() {
    let mut state = GameState::new_two_player(42);
    let ability = ResolvedAbility::new(
        Effect::FlipCoins { count: QuantityExpr::Fixed { value: 5 }, win_effect: None, lose_effect: None },
        vec![],
        ObjectId(1),
        PlayerId(0),
    );
    let mut events = Vec::new();
    resolve_flip_coins(&mut state, &ability, &mut events).unwrap();

    let flip_count = events.iter().filter(|e| matches!(e, GameEvent::CoinFlipped { .. })).count();
    assert_eq!(flip_count, 5);
}

#[test]
fn flip_coins_zero_count_is_noop() {
    let mut state = GameState::new_two_player(42);
    let ability = ResolvedAbility::new(
        Effect::FlipCoins { count: QuantityExpr::Fixed { value: 0 }, win_effect: None, lose_effect: None },
        vec![],
        ObjectId(1),
        PlayerId(0),
    );
    let mut events = Vec::new();
    resolve_flip_coins(&mut state, &ability, &mut events).unwrap();
    let flip_count = events.iter().filter(|e| matches!(e, GameEvent::CoinFlipped { .. })).count();
    assert_eq!(flip_count, 0);
}

#[test]
fn flip_coins_runs_win_effect_per_heads() {
    let mut state = GameState::new_two_player(42);
    let initial_life = state.players[0].life;

    let win_effect = Box::new(AbilityDefinition::new(
        AbilityKind::Spell,
        BranchEffect::GainLife { amount: QuantityExpr::Fixed { value: 1 }, player: TargetFilter::Controller },
    ));

    let ability = ResolvedAbility::new(
        Effect::FlipCoins { count: QuantityExpr::Fixed { value: 4 }, win_effect: Some(win_effect), lose_effect: None },
        vec![],
        ObjectId(1),
        PlayerId(0),
    );
    let mut events = Vec::new();
    resolve_flip_coins(&mut state, &ability, &mut events).unwrap();

    let heads = events.iter().filter(|e| matches!(e, GameEvent::CoinFlipped { won: true, .. })).count() as i32;
    assert_eq!(state.players[0].life - initial_life, heads);
}

#[test]
fn flip_coin_reports_effect_resolved() {
    let mut state = GameState::new_two_player(42);
    let ability =
        ResolvedAbility::new(Effect::FlipCoin { win_effect: None, lose_effect: None }, vec![], ObjectId(1), PlayerId(0));
    let mut events = Vec::new();
    resolve(&mut state, &ability, &mut events).unwrap();
    assert!(matches!(events.last(), Some(GameEvent::EffectResolved { kind: EffectKind::FlipCoin, .. })));
}

#[test]
fn chacha20_seed_zero_wins_and_seed_one_loses_the_first_flip() {
    for (seed, expected) in [(0u64, true), (1u64, false)] {
        let mut state = GameState::new_two_player(42);
        state.rng = ChaCha20Rng::seed_from_u64(seed);
        let ability = ResolvedAbility::new(
            Effect::FlipCoin { win_effect: None, lose_effect: None },
            vec![],
            ObjectId(1),
            PlayerId(0),
        );
        let mut events = Vec::new();
        resolve(&mut state, &ability, &mut events).unwrap();
        assert!(events.iter().any(|e| matches!(e, GameEvent::CoinFlipped { won, .. } if *won == expected)));
    }
}
