//! CR 701.63: endure, and the choice between the branches of a "choose one"
//! prompt.

use vstd::prelude::*;

use crate::game::effects::branch::{branch_outcome, run_branch};
use crate::game::effects::flip_coin::copy_targets;
use crate::game::state::{frame, touch_none, GameState, Touched, WaitingFor};
use crate::text::{decimal, decimal_string, string_of};
use crate::types::ability::{
    is_invalid_param,
    AbilityDefinition, AbilityKind, BranchEffect, CounterType, Effect, EffectError, EffectKind, PtValue, QuantityExpr,
    ResolvedAbility, TargetFilter,
};
use crate::types::events::GameEvent;
use crate::types::identifiers::PlayerId;
use crate::types::mana::ManaColor;

verus! {

/// The text of endure's token branch.
pub open spec fn token_branch_text(n: u32) -> Seq<char> {
    "Create a "@ + decimal(n as nat) + "/"@ + decimal(n as nat) + " white Spirit token."@
}

/// The text of endure's counter branch.
pub open spec fn counter_branch_text(n: u32) -> Seq<char> {
    "Put "@ + decimal(n as nat) + " +1/+1 counters on it."@
}

/// CR 701.63a, CR 111.1: the branch that creates one N/N white Spirit
/// creature token (N is its power and toughness, not a count).
pub open spec fn is_endure_token_branch(d: AbilityDefinition, n: u32) -> bool {
    &&& d.kind == AbilityKind::Spell
    &&& d.effect matches BranchEffect::Token { name, power, toughness, subtypes, colors, count }
    &&& name@ == Seq::<char>::empty()
    &&& power == PtValue::Fixed(n as i32)
    &&& toughness == PtValue::Fixed(n as i32)
    &&& subtypes@.len() == 1
    &&& subtypes@[0]@ == "Spirit"@
    &&& colors@ == seq![ManaColor::White]
    &&& count == (QuantityExpr::Fixed { value: 1 })
    &&& d.description matches Some(t) && t@ == token_branch_text(n)
}

/// CR 701.63a, CR 122.1: the branch that puts N +1/+1 counters on the
/// enduring permanent itself.
pub open spec fn is_endure_counter_branch(d: AbilityDefinition, n: u32) -> bool {
    &&& d.kind == AbilityKind::Spell
    &&& d.effect == (BranchEffect::PutCounter {
        counter_type: CounterType::Plus1Plus1,
        count: QuantityExpr::Fixed { value: n as i32 },
        target: TargetFilter::SelfRef,
    })
    &&& d.description matches Some(t) && t@ == counter_branch_text(n)
}

fn token_branch(n: u32) -> (d: AbilityDefinition)
    ensures
        is_endure_token_branch(d, n),
{
    let mut subtypes: Vec<String> = Vec::new();
    subtypes.push(string_of("Spirit"));
    let mut colors: Vec<ManaColor> = Vec::new();
    colors.push(ManaColor::White);
    assert(colors@ =~= seq![ManaColor::White]);
    let num = decimal_string(n as u128);
    let mut t = string_of("Create a ");
    t.append(num.as_str());
    t.append("/");
    t.append(num.as_str());
    t.append(" white Spirit token.");
    let effect = BranchEffect::Token {
        name: String::new(),
        power: PtValue::Fixed(n as i32),
        toughness: PtValue::Fixed(n as i32),
        subtypes,
        colors,
        count: QuantityExpr::Fixed { value: 1 },
    };
    AbilityDefinition { kind: AbilityKind::Spell, effect, description: Some(t) }
}

fn counter_branch(n: u32) -> (d: AbilityDefinition)
    ensures
        is_endure_counter_branch(d, n),
{
    let num = decimal_string(n as u128);
    let mut t = string_of("Put ");
    t.append(num.as_str());
    t.append(" +1/+1 counters on it.");
    let effect = BranchEffect::PutCounter {
        counter_type: CounterType::Plus1Plus1,
        count: QuantityExpr::Fixed { value: n as i32 },
        target: TargetFilter::SelfRef,
    };
    AbilityDefinition { kind: AbilityKind::Spell, effect, description: Some(t) }
}

/// CR 701.63a: endure N asks the enduring permanent's controller to choose
/// between creating an N/N white Spirit token and putting N +1/+1 counters
/// on that permanent; the state waits for that choice. CR 701.63b: endure 0
/// does nothing. Either way the effect is reported resolved. Another effect
/// changes nothing.
pub fn resolve(state: &mut GameState, ability: &ResolvedAbility, events: &mut Vec<GameEvent>) -> (r: Result<
    (),
    EffectError,
>)
    ensures
        r is Ok,
        match ability.effect {
            Effect::Endure { amount } => {
                &&& final(events)@ == old(events)@.push(
                    GameEvent::EffectResolved { kind: EffectKind::Endure, source_id: ability.source_id },
                )
                &&& if amount == 0 {
                    *final(state) == *old(state)
                } else {
                    &&& frame(*old(state), *final(state), Touched { waiting_for: true, ..touch_none() })
                    &&& final(state).waiting_for matches WaitingFor::ChooseOneOfBranch {
                        player,
                        source_id,
                        branches,
                        targets,
                    } && player == ability.controller && source_id == ability.source_id && branches@.len() == 2
                        && is_endure_token_branch(branches@[0], amount) && is_endure_counter_branch(
                        branches@[1],
                        amount,
                    ) && targets@ == ability.targets@
                }
            },
            _ => *final(state) == *old(state) && final(events)@ == old(events)@,
        },
{
    let amount = match &ability.effect {
        Effect::Endure { amount } => *amount,
        _ => return Ok(()),
    };
    if amount == 0 {
        events.push(GameEvent::EffectResolved { kind: EffectKind::Endure, source_id: ability.source_id });
        return Ok(());
    }
    let mut branches: Vec<AbilityDefinition> = Vec::new();
    branches.push(token_branch(amount));
    branches.push(counter_branch(amount));
    state.waiting_for = WaitingFor::ChooseOneOfBranch {
        player: ability.controller,
        source_id: ability.source_id,
        branches,
        targets: copy_targets(&ability.targets),
    };
    events.push(GameEvent::EffectResolved { kind: EffectKind::Endure, source_id: ability.source_id });
    Ok(())
}

/// The state with the decision handed back to `p`'s priority.
pub open spec fn with_priority(s: GameState, p: PlayerId) -> GameState {
    GameState { waiting_for: WaitingFor::Priority { player: p }, ..s }
}

/// Answer a "choose one" prompt with the branch at `index`: the decision
/// goes back to the choosing player's priority and the branch runs for that
/// player, from the prompt's source, with its targets. Fails with
/// `InvalidParam`, changing nothing, when the state waits for no such
/// choice or the index names no branch.
pub fn choose_branch(state: &mut GameState, index: usize, events: &mut Vec<GameEvent>) -> (r: Result<(), EffectError>)
    requires
        old(state).wf(),
    ensures
        final(state).wf(),
        match old(state).waiting_for {
            WaitingFor::ChooseOneOfBranch { player, source_id, branches, targets } => if index < branches@.len() {
                &&& r is Ok
                &&& branch_outcome(
                    with_priority(*old(state), player),
                    *final(state),
                    old(events)@,
                    final(events)@,
                    branches@[index as int].effect,
                    source_id,
                    player,
                    targets@,
                )
            } else {
                &&& is_invalid_param(r, "branch index out of range"@)
                &&& *final(state) == *old(state)
                &&& final(events)@ == old(events)@
            },
            _ => {
                &&& is_invalid_param(r, "no branch choice pending"@)
                &&& *final(state) == *old(state)
                &&& final(events)@ == old(events)@
            },
        },
{
    let mut w = WaitingFor::Priority { player: PlayerId(0) };
    std::mem::swap(&mut w, &mut state.waiting_for);
    match w {
        WaitingFor::ChooseOneOfBranch { player, source_id, branches, targets } => {
            if index < branches.len() {
                state.waiting_for = WaitingFor::Priority { player };
                assert(*state == with_priority(*old(state), player));
                run_branch(state, &branches[index], source_id, player, &targets, events);
                Ok(())
            } else {
                state.waiting_for = WaitingFor::ChooseOneOfBranch { player, source_id, branches, targets };
                Err(EffectError::InvalidParam(string_of("branch index out of range")))
            }
        },
        other => {
            state.waiting_for = other;
            Err(EffectError::InvalidParam(string_of("no branch choice pending")))
        },
    }
}

} // verus!
