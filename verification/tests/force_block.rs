use forge_rules::game::effects::force_block::resolve;
use forge_rules::game::state::{ContinuousModification, GameState, StaticMode};
use forge_rules::game::zones::create_object;
use forge_rules::types::ability::{Effect, EffectKind, ResolvedAbility, TargetFilter, TargetRef};
use forge_rules::types::events::GameEvent;
use forge_rules::types::identifiers::{CardId, ObjectId, PlayerId};
use forge_rules::types::zones::Zone;

fn make_force_block_ability(source: ObjectId, target: ObjectId) -> ResolvedAbility {
    ResolvedAbility::new(Effect::ForceBlock { target: TargetFilter::Any }, vec![TargetRef::Object(target)], source, PlayerId(0))
}

#[test]
fn force_block_grants_must_block_static() {
    let mut state = GameState::new_two_player(42);
    let source = create_object(&mut state, CardId(1), PlayerId(0), "Provocateur".to_string(), Zone::Battlefield);
    let target = create_object(&mut state, CardId(2), PlayerId(1), "Bear".to_string(), Zone::Battlefield);

    let ability = make_force_block_ability(source, target);
    let mut events = Vec::new();
    resolve(&mut state, &ability, &mut events).unwrap();

    assert!(
        state.transient_continuous_effects.iter().any(|ce| {
            ce.modifications.iter().any(|m| {
                matches!(
                    m,
                    ContinuousModification::AddStaticMode { mode: StaticMode::MustBlockAttacker { attacker } }
                        if *attacker == source
                )
            })
        }),
        "Should grant MustBlockAttacker(source) static to target"
    );
    assert!(events.iter().any(|e| matches!(e, GameEvent::EffectResolved { kind: EffectKind::ForceBlock, .. })));
}

#[test]
fn force_block_multiple_targets() {
    let mut state = GameState::new_two_player(42);
    let source = create_object(&mut state, CardId(1), PlayerId(0), "Source".to_string(), Zone::Battlefield);
    let target1 = create_object(&mut state, CardId(2), PlayerId(1), "Bear1".to_string(), Zone::Battlefield);
    let target2 = create_object(&mut state, CardId(3), PlayerId(1), "Bear2".to_string(), Zone::Battlefield);

    let ability = ResolvedAbility::new(
        Effect::ForceBlock { target: TargetFilter::Any },
        vec![TargetRef::Object(target1), TargetRef::Object(target2)],
        source,
        PlayerId(0),
    );
    let mut events = Vec::new();
    resolve(&mut state, &ability, &mut events).unwrap();

    let must_block_count = state
        .transient_continuous_effects
        .iter()
        .filter(|ce| {
            ce.modifications.iter().any(|m| {
                matches!(
                    m,
                    ContinuousModification::AddStaticMode { mode: StaticMode::MustBlockAttacker { attacker } }
                        if *attacker == source
                )
            })
        })
        .count();
    assert_eq!(must_block_count, 2, "Should create one effect per target");
}
