use forge_rules::game::effects::phase_out::{phase_out_object, resolve, resolve_phase_in};
use forge_rules::game::state::{AttachTarget, GameState, PhaseOutCause};
use forge_rules::game::zones::create_object;
use forge_rules::types::ability::{ControllerRef, Effect, ResolvedAbility, TargetFilter, TargetRef, TypedFilter};
use forge_rules::types::card_type::CoreType;
use forge_rules::types::events::GameEvent;
use forge_rules::types::identifiers::{CardId, ObjectId, PlayerId};
use forge_rules::types::zones::Zone;

fn add_creature(state: &mut GameState, owner: PlayerId, name: &str) -> ObjectId {
    let next = state.objects.len() as u64;
    let id = create_object(state, CardId(next), owner, name.to_string(), Zone::Battlefield);
    state.objects[id.0 as usize].card_types.core_types.push(CoreType::Creature);
    id
}

#[test]
fn phase_in_mass_filter_only_returns_matching_phased_out_objects() {
    let mut state = GameState::new_two_player(42);
    let source = add_creature(&mut state, PlayerId(0), "Phase Source");
    let mine = add_creature(&mut state, PlayerId(0), "Mine");
    let theirs = add_creature(&mut state, PlayerId(1), "Theirs");

    let mut events = Vec::new();
    phase_out_object(&mut state, mine, PhaseOutCause::Directly, &mut events);
    phase_out_object(&mut state, theirs, PhaseOutCause::Directly, &mut events);

    let ability = ResolvedAbility::new(
        Effect::PhaseIn { target: TargetFilter::Typed(TypedFilter::creature().controller(ControllerRef::You)) },
        Vec::new(),
        source,
        PlayerId(0),
    );

    resolve_phase_in(&mut state, &ability, &mut events).unwrap();

    assert!(!state.objects[mine.0 as usize].is_phased_out(), "controller's matching phased-out creature must phase in");
    assert!(state.objects[theirs.0 as usize].is_phased_out(), "opponent's phased-out creature must remain phased out");
}

#[test]
fn phase_out_target_phases_it_out_and_reports_it() {
    let mut state = GameState::new_two_player(42);
    let source = add_creature(&mut state, PlayerId(0), "Source");
    let target = add_creature(&mut state, PlayerId(1), "Target");
    let ability = ResolvedAbility::new(
        Effect::PhaseOut { target: TargetFilter::Any },
        vec![TargetRef::Object(target)],
        source,
        PlayerId(0),
    );
    let mut events = Vec::new();
    resolve(&mut state, &ability, &mut events).unwrap();
    assert!(state.objects[target.0 as usize].phased_out);
    assert!(!state.objects[source.0 as usize].phased_out);
    assert!(events.iter().any(|e| matches!(e, GameEvent::PhasedOut { object_id } if *object_id == target)));
}

#[test]
fn phase_out_then_in_restores_the_object() {
    let mut state = GameState::new_two_player(42);
    let c = add_creature(&mut state, PlayerId(0), "Blinker");
    let mut events = Vec::new();
    phase_out_object(&mut state, c, PhaseOutCause::Directly, &mut events);
    assert!(state.objects[c.0 as usize].phased_out);
    forge_rules::game::effects::phase_out::phase_in_object(&mut state, c, &mut events);
    assert!(!state.objects[c.0 as usize].phased_out);
    assert_eq!(state.objects[c.0 as usize].zone, Zone::Battlefield);
}

#[test]
fn attachments_phase_with_their_host_but_direct_ones_stay_out() {
    let mut state = GameState::new_two_player(42);
    let host = add_creature(&mut state, PlayerId(0), "Host");
    let aura = add_creature(&mut state, PlayerId(0), "Aura");
    state.objects[aura.0 as usize].attached_to = Some(AttachTarget::Object(host));
    let mut events = Vec::new();
    phase_out_object(&mut state, host, PhaseOutCause::Directly, &mut events);
    assert!(state.objects[aura.0 as usize].phased_out);
    assert!(state.objects[aura.0 as usize].phased_out_indirectly);
    forge_rules::game::effects::phase_out::phase_in_object(&mut state, host, &mut events);
    assert!(!state.objects[aura.0 as usize].phased_out);

    let equipment = add_creature(&mut state, PlayerId(0), "Equipment");
    state.objects[equipment.0 as usize].attached_to = Some(AttachTarget::Object(host));
    phase_out_object(&mut state, equipment, PhaseOutCause::Directly, &mut events);
    phase_out_object(&mut state, host, PhaseOutCause::Directly, &mut events);
    forge_rules::game::effects::phase_out::phase_in_object(&mut state, host, &mut events);
    assert!(!state.objects[host.0 as usize].phased_out);
    assert!(state.objects[equipment.0 as usize].phased_out, "a directly phased-out attachment stays out");
}
