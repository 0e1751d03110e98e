//! CR 701.53a: incubate N.

use vstd::prelude::*;

use crate::game::effects::{
    ctx_of,
    ability_ctx,clamped_quantity, lemma_wf_same_skeleton, resolve_count};
use crate::game::state::{frame, oviews, touch_none, BackFace, GameObject, GameState, ObjectAbility, ObjectView};
use crate::game::zones::{create_object, fresh_view, touch_zone};
use crate::text::string_of;
use crate::types::ability::{CounterType, Effect, EffectError, EffectKind, ResolvedAbility};
use crate::types::card::CardType;
use crate::types::card_type::CoreType;
use crate::types::events::GameEvent;
use crate::types::identifiers::{CardId, ObjectId, PlayerId};
use crate::types::mana::{ManaCost, ManaCostView};
use crate::types::zones::Zone;

verus! {

/// `v` is an Incubator token (CR 111.10i) under `p`'s control with `n`
/// +1/+1 counters, which entered on `turn`: a colorless Incubator artifact
/// whose back face is a 0/0 Phyrexian artifact creature, with "{2}:
/// Transform this token".
pub open spec fn is_incubator(v: ObjectView, id: ObjectId, p: PlayerId, n: nat, turn: u32) -> bool {
    let f = fresh_view(id, CardId(0), p, "Incubator"@, Zone::Battlefield);
    &&& v == ObjectView {
        is_token: true,
        card_types: v.card_types,
        plus_one_counters: n as u32,
        entered_battlefield_turn: Some(turn),
        abilities: v.abilities,
        back_face: v.back_face,
        ..f
    }
    &&& v.card_types.supertypes.len() == 0
    &&& v.card_types.core_types == seq![CoreType::Artifact]
    &&& v.card_types.subtypes.len() == 1 && v.card_types.subtypes[0]@ == "Incubator"@
    &&& v.abilities.len() == 1
    &&& v.abilities[0] matches ObjectAbility::Transform { cost } && cost@
        == (ManaCostView::Cost { shards: Seq::empty(), generic: 2 })
    &&& v.back_face matches Some(b) && b.name@ == "Phyrexian Token"@ && b.power == Some(0i32)
        && b.toughness == Some(0i32) && b.card_types.core_types@ == seq![CoreType::Artifact, CoreType::Creature]
        && b.card_types.subtypes@.len() == 1 && b.card_types.subtypes@[0]@ == "Phyrexian"@
}

fn incubator_types() -> (t: CardType)
    ensures
        t.supertypes@.len() == 0,
        t.core_types@ == seq![CoreType::Artifact],
        t.subtypes@.len() == 1 && t.subtypes@[0]@ == "Incubator"@,
{
    let mut core_types: Vec<CoreType> = Vec::new();
    core_types.push(CoreType::Artifact);
    let mut subtypes: Vec<String> = Vec::new();
    subtypes.push(string_of("Incubator"));
    assert(core_types@ =~= seq![CoreType::Artifact]);
    CardType { supertypes: Vec::new(), core_types, subtypes }
}

fn phyrexian_back_face() -> (b: BackFace)
    ensures
        b.name@ == "Phyrexian Token"@,
        b.power == Some(0i32),
        b.toughness == Some(0i32),
        b.card_types.core_types@ == seq![CoreType::Artifact, CoreType::Creature],
        b.card_types.subtypes@.len() == 1 && b.card_types.subtypes@[0]@ == "Phyrexian"@,
{
    let mut core_types: Vec<CoreType> = Vec::new();
    core_types.push(CoreType::Artifact);
    core_types.push(CoreType::Creature);
    let mut subtypes: Vec<String> = Vec::new();
    subtypes.push(string_of("Phyrexian"));
    assert(core_types@ =~= seq![CoreType::Artifact, CoreType::Creature]);
    BackFace {
        name: string_of("Phyrexian Token"),
        power: Some(0),
        toughness: Some(0),
        card_types: CardType { supertypes: Vec::new(), core_types, subtypes },
    }
}

/// Make a fresh battlefield object an Incubator token with `n` counters.
fn make_incubator(o: &mut GameObject, n: u32, turn: u32)
    ensures
        final(o).id == old(o).id,
        final(o).zone == old(o).zone,
        final(o).owner == old(o).owner,
        final(o).mana_cost@ == old(o).mana_cost@,
        final(o)@ == (ObjectView {
            is_token: true,
            card_types: final(o)@.card_types,
            color: Seq::empty(),
            plus_one_counters: n,
            entered_battlefield_turn: Some(turn),
            abilities: final(o)@.abilities,
            back_face: final(o)@.back_face,
            ..old(o)@
        }),
        final(o)@.card_types.supertypes.len() == 0,
        final(o)@.card_types.core_types == seq![CoreType::Artifact],
        final(o)@.card_types.subtypes.len() == 1 && final(o)@.card_types.subtypes[0]@ == "Incubator"@,
        final(o)@.abilities.len() == 1,
        final(o)@.abilities[0] matches ObjectAbility::Transform { cost } && cost@ == (ManaCostView::Cost {
            shards: Seq::empty(),
            generic: 2,
        }),
        final(o)@.back_face matches Some(b) && b.name@ == "Phyrexian Token"@ && b.power == Some(0i32)
            && b.toughness == Some(0i32) && b.card_types.core_types@ == seq![CoreType::Artifact, CoreType::Creature]
            && b.card_types.subtypes@.len() == 1 && b.card_types.subtypes@[0]@ == "Phyrexian"@,
{
    o.is_token = true;
    o.card_types = incubator_types();
    o.color = Vec::new();
    o.entered_battlefield_turn = Some(turn);
    o.plus_one_counters = n;
    let mut abilities: Vec<ObjectAbility> = Vec::new();
    abilities.push(ObjectAbility::Transform { cost: ManaCost::generic(2) });
    o.abilities = abilities;
    o.back_face = Some(phyrexian_back_face());
}

/// CR 701.53a: create an Incubator token on the battlefield under the
/// controller's control, with N +1/+1 counters (N at least zero). Another
/// effect does nothing.
pub fn resolve(state: &mut GameState, ability: &ResolvedAbility, events: &mut Vec<GameEvent>) -> (r:
    Result<(), EffectError>)
    requires
        old(state).wf(),
    ensures
        r is Ok,
        final(state).wf(),
        match ability.effect {
            Effect::Incubate { count } => {
                let n = clamped_quantity(*old(state), count, ability_ctx(*ability));
                let id = ObjectId(old(state).objects@.len() as u64);
                let counters = if n > u32::MAX { u32::MAX as nat } else { n };
                &&& final(state).objects@.len() == old(state).objects@.len() + 1
                &&& oviews(final(state).objects@).drop_last() == oviews(old(state).objects@)
                &&& is_incubator(final(state).objects@.last()@, id, ability.controller, counters, old(state).turn_number)
                &&& final(state).battlefield@ == old(state).battlefield@.push(id)
                &&& frame(*old(state), *final(state), touch_zone(Zone::Battlefield))
                &&& final(events)@ == old(events)@ + (if counters > 0 {
                    seq![GameEvent::CounterAdded { object_id: id, counter_type: CounterType::Plus1Plus1, count: counters as u32 }]
                } else {
                    Seq::empty()
                }) + seq![GameEvent::EffectResolved { kind: EffectKind::Incubate, source_id: ability.source_id }]
            },
            _ => frame(*old(state), *final(state), touch_none()) && final(events)@ == old(events)@,
        },
{
    let count = match &ability.effect {
        Effect::Incubate { count } => count,
        _ => return Ok(()),
    };
    let q = resolve_count(state, count, ctx_of(ability));
    let n: u32 = if q > u32::MAX as u64 {
        u32::MAX
    } else {
        q as u32
    };
    let ghost s0 = *state;
    let ghost ev0 = events@;
    let id = create_object(state, CardId(0), ability.controller, string_of("Incubator"), Zone::Battlefield);
    let ghost s1 = *state;
    let nobj = state.objects.len();
    assert(oviews(state.objects@).len() == state.objects@.len());
    assert(id.0 < nobj);
    let i = id.0 as usize;
    let turn = state.turn_number;
    make_incubator(&mut state.objects[i], n, turn);
    proof {
        assert(oviews(s1.objects@)[i as int] == fresh_view(id, CardId(0), ability.controller, "Incubator"@, Zone::Battlefield));
        assert forall|k: int| 0 <= k < s1.objects@.len() implies (#[trigger] state.objects@[k]).id == s1.objects@[k].id
            && state.objects@[k].zone == s1.objects@[k].zone && state.objects@[k].owner == s1.objects@[k].owner
            && state.objects@[k].mana_cost@ == s1.objects@[k].mana_cost@ by {}
        lemma_wf_same_skeleton(s1, *state);
        assert(oviews(state.objects@).drop_last() =~= oviews(s0.objects@)) by {
            assert forall|k: int| 0 <= k < s0.objects@.len() implies oviews(state.objects@)[k] == oviews(s0.objects@)[k] by {
                assert(oviews(state.objects@)[k] == oviews(s1.objects@)[k]);
            }
        }
    }
    if n > 0 {
        events.push(GameEvent::CounterAdded { object_id: id, counter_type: CounterType::Plus1Plus1, count: n });
    }
    events.push(GameEvent::EffectResolved { kind: EffectKind::Incubate, source_id: ability.source_id });
    proof {
        if n > 0 {
            assert(events@ =~= ev0 + seq![GameEvent::CounterAdded { object_id: id, counter_type: CounterType::Plus1Plus1, count: n }]
                + seq![GameEvent::EffectResolved { kind: EffectKind::Incubate, source_id: ability.source_id }]);
        } else {
            assert(events@ =~= ev0 + Seq::<GameEvent>::empty()
                + seq![GameEvent::EffectResolved { kind: EffectKind::Incubate, source_id: ability.source_id }]);
        }
    }
    Ok(())
}

} // verus!
