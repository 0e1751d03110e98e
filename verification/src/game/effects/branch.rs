//! Running a branch ability from inside another effect: the outcome of a
//! coin flip, or the chosen branch of a choice.

use vstd::prelude::*;


use crate::game::effects::{
    clamped_quantity, context_player_exec, context_player_of, lemma_wf_same_skeleton,
    object_targets, object_targets_of, resolve_count,
};
use crate::game::filter::FilterContext;
use crate::game::state::{
    frame, oviews, pviews, touch_none, zone_list_ok, CardTypeView, GameObject, GameState,
    ObjectView, PlayerView, Touched,
};
use crate::game::zones::{create_object, fresh_view, move_top_of_library, top_moved, touch_zone};
use crate::types::ability::{
    AbilityDefinition, BranchEffect, CounterType, PtValue, TargetFilter, TargetRef,
};
use crate::types::card::CardType;
use crate::types::card_type::CoreType;
use crate::types::events::GameEvent;
use crate::types::identifiers::{CardId, ObjectId, PlayerId};
use crate::types::mana::ManaColor;
use crate::types::zones::Zone;

verus! {

/// `x` clamped to the range of `i32`.
pub open spec fn clamp_i32(x: int) -> i32 {
    if x > i32::MAX {
        i32::MAX
    } else if x < i32::MIN {
        i32::MIN
    } else {
        x as i32
    }
}

/// `x` clamped to the range of `u32`.
pub open spec fn clamp_u32(x: int) -> u32 {
    if x > u32::MAX {
        u32::MAX
    } else if x < 0 {
        0
    } else {
        x as u32
    }
}

fn life_after(life: i32, delta: i128) -> (r: i32)
    requires
        -0x1_0000_0000_0000_0000 <= delta <= 0x1_0000_0000_0000_0000,
    ensures
        r == clamp_i32(life + delta),
{
    let v: i128 = life as i128 + delta;
    if v > i32::MAX as i128 {
        i32::MAX
    } else if v < i32::MIN as i128 {
        i32::MIN
    } else {
        v as i32
    }
}

/// The objects a counter branch puts counters on: the source for
/// `SelfRef`, else the object targets.
pub open spec fn counter_targets(f: TargetFilter, source: ObjectId, targets: Seq<TargetRef>) -> Seq<ObjectId> {
    match f {
        TargetFilter::SelfRef => seq![source],
        _ => object_targets(targets),
    }
}

/// The objects after `n` +1/+1 counters went on each existing one named.
pub open spec fn with_counters(os: Seq<ObjectView>, ids: Seq<ObjectId>, n: nat) -> Seq<ObjectView>
    decreases ids.len(),
{
    if ids.len() == 0 {
        os
    } else {
        let r = with_counters(os, ids.drop_last(), n);
        let x = ids.last().0 as int;
        if 0 <= x < r.len() {
            r.update(x, ObjectView { plus_one_counters: clamp_u32(r[x].plus_one_counters + n), ..r[x] })
        } else {
            r
        }
    }
}

/// The counter events of the existing named objects, in order.
pub open spec fn counter_events(len: nat, ids: Seq<ObjectId>, n: nat) -> Seq<GameEvent>
    decreases ids.len(),
{
    if ids.len() == 0 {
        Seq::empty()
    } else {
        counter_events(len, ids.drop_last(), n) + if ids.last().0 < len {
            seq![GameEvent::CounterAdded { object_id: ids.last(), counter_type: CounterType::Plus1Plus1, count: clamp_u32(n as int) }]
        } else {
            Seq::empty()
        }
    }
}

/// `v` is a fresh creature token named `name` under `p`'s control with the
/// given power, toughness, subtypes and colors, entered on `turn`.
pub open spec fn is_token_view(
    v: ObjectView,
    id: ObjectId,
    p: PlayerId,
    name: Seq<char>,
    pt: (i32, i32),
    subtypes: Seq<String>,
    colors: Seq<ManaColor>,
    turn: u32,
) -> bool {
    v == ObjectView {
        is_token: true,
        power: Some(pt.0),
        toughness: Some(pt.1),
        card_types: CardTypeView { supertypes: Seq::empty(), core_types: seq![CoreType::Creature], subtypes },
        color: colors,
        entered_battlefield_turn: Some(turn),
        ..fresh_view(id, CardId(0), p, name, Zone::Battlefield)
    }
}

/// The value of a fixed power or toughness.
pub open spec fn pt_value(v: PtValue) -> i32 {
    match v {
        PtValue::Fixed(x) => x,
    }
}

/// The outcome of running a branch for the given source, controller and
/// targets: life gained or lost, cards drawn, tokens created, counters put.
pub open spec fn branch_outcome(
    s0: GameState,
    s1: GameState,
    ev0: Seq<GameEvent>,
    ev1: Seq<GameEvent>,
    e: BranchEffect,
    source: ObjectId,
    controller: PlayerId,
    targets: Seq<TargetRef>,
) -> bool {
    let ctx = FilterContext { source_id: source, controller };
    match e {
        BranchEffect::GainLife { amount, player } => {
            let p = context_player_of(s0, targets, controller, None, player);
            let n = clamped_quantity(s0, amount, ctx);
            if s0.has_player(p) {
                &&& pviews(s1.players@) == pviews(s0.players@).update(
                    p.0 as int,
                    PlayerView { life: clamp_i32(s0.pv(p).life + n), ..s0.pv(p) },
                )
                &&& frame(s0, s1, Touched { players: true, ..touch_none() })
                &&& ev1 == ev0.push(GameEvent::LifeChanged { player: p, amount: n as i64 })
            } else {
                frame(s0, s1, touch_none()) && ev1 == ev0
            }
        },
        BranchEffect::LoseLife { amount } => {
            let n = clamped_quantity(s0, amount, ctx);
            if s0.has_player(controller) {
                &&& pviews(s1.players@) == pviews(s0.players@).update(
                    controller.0 as int,
                    PlayerView { life: clamp_i32(s0.pv(controller).life - n), ..s0.pv(controller) },
                )
                &&& frame(s0, s1, Touched { players: true, ..touch_none() })
                &&& ev1 == ev0.push(GameEvent::LifeChanged { player: controller, amount: (-(n as int)) as i64 })
            } else {
                frame(s0, s1, touch_none()) && ev1 == ev0
            }
        },
        BranchEffect::Draw { count } => {
            let n = clamped_quantity(s0, count, ctx);
            if s0.has_player(controller) {
                let lib = s0.pv(controller).library;
                let k = if n < lib.len() { n } else { lib.len() };
                let drawn = lib.take(k as int);
                &&& oviews(s1.objects@) == Seq::new(
                    s0.objects@.len(),
                    |i: int|
                        if drawn.contains(ObjectId(i as u64)) {
                            ObjectView { zone: Zone::Hand, ..oviews(s0.objects@)[i] }
                        } else {
                            oviews(s0.objects@)[i]
                        },
                )
                &&& pviews(s1.players@) == pviews(s0.players@).update(
                    controller.0 as int,
                    PlayerView {
                        library: lib.skip(k as int),
                        hand: s0.pv(controller).hand + drawn,
                        ..s0.pv(controller)
                    },
                )
                &&& frame(s0, s1, Touched { objects: true, players: true, ..touch_none() })
                &&& ev1 == ev0 + Seq::new(
                    drawn.len(),
                    |j: int| GameEvent::CardDrawn { player: controller, object_id: drawn[j] },
                )
            } else {
                frame(s0, s1, touch_none()) && ev1 == ev0
            }
        },
        BranchEffect::Token { name, power, toughness, subtypes, colors, count } => {
            let n = clamped_quantity(s0, count, ctx);
            let len0 = s0.objects@.len();
            &&& s1.objects@.len() == len0 + n
            &&& oviews(s1.objects@).take(len0 as int) == oviews(s0.objects@)
            &&& forall|j: int|
                0 <= j < n ==> is_token_view(
                    #[trigger] oviews(s1.objects@)[len0 + j],
                    ObjectId((len0 + j) as u64),
                    controller,
                    name@,
                    (pt_value(power), pt_value(toughness)),
                    subtypes@,
                    colors@,
                    s0.turn_number,
                )
            &&& s1.battlefield@ == s0.battlefield@ + Seq::new(n, |j: int| ObjectId((len0 + j) as u64))
            &&& frame(s0, s1, touch_zone(Zone::Battlefield))
            &&& ev1 == ev0 + Seq::new(
                n,
                |j: int| GameEvent::TokenCreated { object_id: ObjectId((len0 + j) as u64), name: name },
            )
        },
        BranchEffect::PutCounter { count, target, .. } => {
            let n = clamped_quantity(s0, count, ctx);
            let ids = counter_targets(target, source, targets);
            &&& oviews(s1.objects@) == with_counters(oviews(s0.objects@), ids, n)
            &&& frame(s0, s1, Touched { objects: true, ..touch_none() })
            &&& ev1 == ev0 + counter_events(s0.objects@.len(), ids, n)
        },
    }
}

fn copy_strings(v: &Vec<String>) -> (r: Vec<String>)
    ensures
        r@ == v@,
{
    let mut out: Vec<String> = Vec::new();
    let mut i: usize = 0;
    while i < v.len()
        invariant
            i <= v@.len(),
            out@ == v@.take(i as int),
        decreases v@.len() - i,
    {
        out.push(v[i].clone());
        assert(v@.take(i + 1) =~= v@.take(i as int).push(v@[i as int]));
        i = i + 1;
    }
    assert(v@.take(i as int) =~= v@);
    out
}

fn copy_colors(v: &Vec<ManaColor>) -> (r: Vec<ManaColor>)
    ensures
        r@ == v@,
{
    let mut out: Vec<ManaColor> = Vec::new();
    let mut i: usize = 0;
    while i < v.len()
        invariant
            i <= v@.len(),
            out@ == v@.take(i as int),
        decreases v@.len() - i,
    {
        out.push(v[i]);
        assert(v@.take(i + 1) =~= v@.take(i as int).push(v@[i as int]));
        i = i + 1;
    }
    assert(v@.take(i as int) =~= v@);
    out
}

fn change_life(state: &mut GameState, p: PlayerId, delta: i128, events: &mut Vec<GameEvent>)
    requires
        old(state).wf(),
        old(state).has_player(p),
        -0x1_0000_0000_0000_0000 <= delta <= 0x1_0000_0000_0000_0000,
        i64::MIN <= delta <= i64::MAX,
    ensures
        final(state).wf(),
        pviews(final(state).players@) == pviews(old(state).players@).update(
            p.0 as int,
            PlayerView { life: clamp_i32(old(state).pv(p).life + delta), ..old(state).pv(p) },
        ),
        frame(*old(state), *final(state), Touched { players: true, ..touch_none() }),
        final(events)@ == old(events)@.push(GameEvent::LifeChanged { player: p, amount: delta as i64 }),
{
    let ghost s0 = *state;
    let pi = p.0 as usize;
    let life = state.players[pi].life;
    state.players[pi].life = life_after(life, delta);
    events.push(GameEvent::LifeChanged { player: p, amount: delta as i64 });
    proof {
        assert(pviews(state.players@) =~= pviews(s0.players@).update(
            p.0 as int,
            PlayerView { life: clamp_i32(s0.pv(p).life + delta), ..s0.pv(p) },
        ));
        assert forall|q: int| 0 <= q < state.players@.len() implies (#[trigger] state.players@[q]).id == s0.players@[q].id
            && state.players@[q].library@ == s0.players@[q].library@ && state.players@[q].hand@ == s0.players@[q].hand@
            && state.players@[q].graveyard@ == s0.players@[q].graveyard@ by {
            if q != pi as int {
                assert(state.players@[q] == s0.players@[q]);
            }
        }
        assert forall|q: int| 0 <= q < state.players@.len() implies {
            &&& zone_list_ok((#[trigger] state.players@[q]).library@, state.objects@, Zone::Library)
            &&& zone_list_ok(state.players@[q].hand@, state.objects@, Zone::Hand)
            &&& zone_list_ok(state.players@[q].graveyard@, state.objects@, Zone::Graveyard)
            &&& crate::game::state::owned_by(state.players@[q].library@, state.objects@, PlayerId(q as u8))
            &&& crate::game::state::owned_by(state.players@[q].hand@, state.objects@, PlayerId(q as u8))
            &&& crate::game::state::owned_by(state.players@[q].graveyard@, state.objects@, PlayerId(q as u8))
        } by {
            assert(state.players@[q].library@ == s0.players@[q].library@);
        }
    }
}

/// Draw `n` cards for `p`: the top cards of the library, as many as there
/// are, go to the hand in order.
fn draw_cards(state: &mut GameState, p: PlayerId, n: u64, events: &mut Vec<GameEvent>)
    requires
        old(state).wf(),
        old(state).has_player(p),
    ensures
        final(state).wf(),
        ({
            let lib = old(state).pv(p).library;
            let k = if n < lib.len() { n as nat } else { lib.len() };
            let drawn = lib.take(k as int);
            &&& oviews(final(state).objects@) == Seq::new(
                old(state).objects@.len(),
                |i: int|
                    if drawn.contains(ObjectId(i as u64)) {
                        ObjectView { zone: Zone::Hand, ..oviews(old(state).objects@)[i] }
                    } else {
                        oviews(old(state).objects@)[i]
                    },
            )
            &&& pviews(final(state).players@) == pviews(old(state).players@).update(
                p.0 as int,
                PlayerView { library: lib.skip(k as int), hand: old(state).pv(p).hand + drawn, ..old(state).pv(p) },
            )
            &&& frame(*old(state), *final(state), Touched { objects: true, players: true, ..touch_none() })
            &&& final(events)@ == old(events)@ + Seq::new(
                drawn.len(),
                |j: int| GameEvent::CardDrawn { player: p, object_id: drawn[j] },
            )
        }),
{
    let ghost s0 = *state;
    let ghost ev0 = events@;
    let ghost lib = s0.pv(p).library;
    let ghost os0 = oviews(s0.objects@);
    let pi = p.0 as usize;
    let len = state.players[pi].library.len();
    let k: usize = if n < len as u64 {
        n as usize
    } else {
        len
    };
    proof {
        assert(zone_list_ok(s0.players@[pi as int].library@, s0.objects@, Zone::Library));
        assert(lib.skip(0) =~= lib);
        assert(s0.pv(p).hand + lib.take(0) =~= s0.pv(p).hand);
        assert(pviews(s0.players@)[pi as int] == s0.pv(p));
        assert(pviews(s0.players@) =~= pviews(s0.players@).update(
            pi as int,
            PlayerView { library: lib.skip(0), hand: s0.pv(p).hand + lib.take(0), ..s0.pv(p) },
        ));
        assert(os0 =~= Seq::new(
            s0.objects@.len(),
            |i: int| if lib.take(0).contains(ObjectId(i as u64)) { ObjectView { zone: Zone::Hand, ..os0[i] } } else { os0[i] },
        ));
        assert(events@ =~= ev0 + Seq::new(lib.take(0).len(), |j: int| GameEvent::CardDrawn { player: p, object_id: lib.take(0)[j] }));
    }
    let mut j: usize = 0;
    while j < k
        invariant
            j <= k <= lib.len(),
            s0.wf(),
            state.wf(),
            pi as int == p.0 as int,
            s0.has_player(p),
            state.players@.len() == s0.players@.len(),
            state.objects@.len() == s0.objects@.len(),
            zone_list_ok(lib, s0.objects@, Zone::Library),
            lib == s0.pv(p).library,
            os0 == oviews(s0.objects@),
            oviews(state.objects@) == Seq::new(
                s0.objects@.len(),
                |i: int| if lib.take(j as int).contains(ObjectId(i as u64)) { ObjectView { zone: Zone::Hand, ..os0[i] } } else { os0[i] },
            ),
            pviews(state.players@) == pviews(s0.players@).update(
                pi as int,
                PlayerView { library: lib.skip(j as int), hand: s0.pv(p).hand + lib.take(j as int), ..s0.pv(p) },
            ),
            frame(s0, *state, Touched { objects: true, players: true, ..touch_none() }),
            events@ == ev0 + Seq::new(
                lib.take(j as int).len(),
                |m: int| GameEvent::CardDrawn { player: p, object_id: lib.take(j as int)[m] },
            ),
        decreases k - j,
    {
        let ghost before = *state;
        proof {
            assert(state.pv(p) == pviews(state.players@)[pi as int]);
            assert(state.pv(p).library == lib.skip(j as int));
        }
        let x = move_top_of_library(state, p, Zone::Hand);
        events.push(GameEvent::CardDrawn { player: p, object_id: x });
        proof {
            assert(top_moved(before, *state, p, Zone::Hand, x));
            assert(x == lib[j as int]);
            assert(oviews(state.objects@).len() == state.objects@.len());
            assert(oviews(before.objects@).len() == before.objects@.len());
            assert(!lib.take(j as int).contains(x)) by {
                if lib.take(j as int).contains(x) {
                    let m = choose|m: int| 0 <= m < j && lib.take(j as int)[m] == x;
                    assert(lib[m] == lib[j as int]);
                }
            }
            assert(lib.take(j + 1) =~= lib.take(j as int).push(x));
            assert(x.0 < s0.objects@.len());
            assert(ObjectId(x.0 as u64) == x);
            assert(oviews(before.objects@)[x.0 as int] == os0[x.0 as int]);
            assert forall|m: int| 0 <= m < s0.objects@.len() implies oviews(state.objects@)[m]
                == (if lib.take(j + 1).contains(ObjectId(m as u64)) { ObjectView { zone: Zone::Hand, ..os0[m] } } else { os0[m] }) by {
                crate::seqs::lemma_contains_push(lib.take(j as int), x, ObjectId(m as u64));
                if m == x.0 as int {
                    assert(ObjectId(m as u64) == x);
                } else {
                    assert(ObjectId(m as u64) != x);
                    assert(oviews(state.objects@)[m] == oviews(before.objects@)[m]);
                }
            }
            assert(oviews(state.objects@) =~= Seq::new(
                s0.objects@.len(),
                |i: int| if lib.take(j + 1).contains(ObjectId(i as u64)) { ObjectView { zone: Zone::Hand, ..os0[i] } } else { os0[i] },
            ));
            assert(lib.skip(j as int).skip(1) =~= lib.skip(j + 1));
            assert(s0.pv(p).hand + lib.take(j as int) + seq![x] =~= s0.pv(p).hand + lib.take(j + 1));
            assert(pviews(state.players@) =~= pviews(s0.players@).update(
                pi as int,
                PlayerView { library: lib.skip(j + 1), hand: s0.pv(p).hand + lib.take(j + 1), ..s0.pv(p) },
            ));
            assert(events@ =~= ev0 + Seq::new(
                lib.take(j + 1).len(),
                |m: int| GameEvent::CardDrawn { player: p, object_id: lib.take(j + 1)[m] },
            ));
        }
        j = j + 1;
    }
}

fn make_token(o: &mut GameObject, pt: (i32, i32), subtypes: &Vec<String>, colors: &Vec<ManaColor>, turn: u32)
    ensures
        final(o).id == old(o).id,
        final(o).zone == old(o).zone,
        final(o).owner == old(o).owner,
        final(o).mana_cost@ == old(o).mana_cost@,
        final(o)@ == (ObjectView {
            is_token: true,
            power: Some(pt.0),
            toughness: Some(pt.1),
            card_types: CardTypeView {
                supertypes: Seq::empty(),
                core_types: seq![CoreType::Creature],
                subtypes: subtypes@,
            },
            color: colors@,
            entered_battlefield_turn: Some(turn),
            ..old(o)@
        }),
{
    o.is_token = true;
    o.power = Some(pt.0);
    o.toughness = Some(pt.1);
    let mut core_types: Vec<CoreType> = Vec::new();
    core_types.push(CoreType::Creature);
    assert(core_types@ =~= seq![CoreType::Creature]);
    o.card_types = CardType { supertypes: Vec::new(), core_types, subtypes: copy_strings(subtypes) };
    o.color = copy_colors(colors);
    o.entered_battlefield_turn = Some(turn);
}

/// Create `n` creature tokens under `p`'s control on the battlefield, each
/// reported as created.
fn create_tokens(
    state: &mut GameState,
    p: PlayerId,
    name: &String,
    pt: (i32, i32),
    subtypes: &Vec<String>,
    colors: &Vec<ManaColor>,
    n: u64,
    events: &mut Vec<GameEvent>,
)
    requires
        old(state).wf(),
    ensures
        final(state).wf(),
        ({
            let len0 = old(state).objects@.len();
            &&& final(state).objects@.len() == len0 + n
            &&& oviews(final(state).objects@).take(len0 as int) == oviews(old(state).objects@)
            &&& forall|j: int|
                0 <= j < n ==> is_token_view(
                    #[trigger] oviews(final(state).objects@)[len0 + j],
                    ObjectId((len0 + j) as u64),
                    p,
                    name@,
                    pt,
                    subtypes@,
                    colors@,
                    old(state).turn_number,
                )
            &&& final(state).battlefield@ == old(state).battlefield@ + Seq::new(n as nat, |j: int| ObjectId((len0 + j) as u64))
            &&& frame(*old(state), *final(state), touch_zone(Zone::Battlefield))
            &&& final(events)@ == old(events)@ + Seq::new(
                n as nat,
                |j: int| GameEvent::TokenCreated { object_id: ObjectId((len0 + j) as u64), name: *name },
            )
        }),
{
    let ghost s0 = *state;
    let ghost ev0 = events@;
    let ghost len0 = s0.objects@.len();
    let ghost os0 = oviews(s0.objects@);
    proof {
        assert(oviews(s0.objects@).take(len0 as int) =~= os0);
        assert(s0.battlefield@ =~= s0.battlefield@ + Seq::new(0, |j: int| ObjectId((len0 + j) as u64)));
        assert(events@ =~= ev0 + Seq::new(0, |j: int| GameEvent::TokenCreated { object_id: ObjectId((len0 + j) as u64), name: *name }));
    }
    let mut k: u64 = 0;
    while k < n
        invariant
            k <= n,
            s0.wf(),
            state.wf(),
            state.turn_number == s0.turn_number,
            os0 == oviews(s0.objects@),
            len0 == s0.objects@.len(),
            state.objects@.len() == len0 + k,
            oviews(state.objects@).take(len0 as int) == os0,
            forall|j: int|
                0 <= j < k ==> is_token_view(
                    #[trigger] oviews(state.objects@)[len0 + j],
                    ObjectId((len0 + j) as u64),
                    p,
                    name@,
                    pt,
                    subtypes@,
                    colors@,
                    s0.turn_number,
                ),
            state.battlefield@ == s0.battlefield@ + Seq::new(k as nat, |j: int| ObjectId((len0 + j) as u64)),
            frame(s0, *state, touch_zone(Zone::Battlefield)),
            events@ == ev0 + Seq::new(
                k as nat,
                |j: int| GameEvent::TokenCreated { object_id: ObjectId((len0 + j) as u64), name: *name },
            ),
        decreases n - k,
    {
        let ghost before = *state;
        let id = create_object(state, CardId(0), p, name.clone(), Zone::Battlefield);
        let ghost mid = *state;
        let nobj = state.objects.len();
        assert(oviews(state.objects@).len() == state.objects@.len());
        assert(id.0 < nobj);
        let i = id.0 as usize;
        let turn = state.turn_number;
        make_token(&mut state.objects[i], pt, subtypes, colors, turn);
        events.push(GameEvent::TokenCreated { object_id: id, name: name.clone() });
        proof {
            assert forall|m: int| 0 <= m < mid.objects@.len() implies (#[trigger] state.objects@[m]).id == mid.objects@[m].id
                && state.objects@[m].zone == mid.objects@[m].zone && state.objects@[m].owner == mid.objects@[m].owner
                && state.objects@[m].mana_cost@ == mid.objects@[m].mana_cost@ by {}
            lemma_wf_same_skeleton(mid, *state);
            assert(oviews(mid.objects@)[i as int] == fresh_view(id, CardId(0), p, name@, Zone::Battlefield));
            assert(oviews(state.objects@).take(len0 as int) =~= os0) by {
                assert forall|m: int| 0 <= m < len0 implies oviews(state.objects@)[m] == os0[m] by {
                    assert(oviews(state.objects@)[m] == oviews(mid.objects@)[m]);
                    assert(oviews(mid.objects@)[m] == oviews(before.objects@)[m]);
                    assert(oviews(before.objects@).take(len0 as int)[m] == oviews(before.objects@)[m]);
                }
            }
            assert forall|j: int| 0 <= j < k + 1 implies is_token_view(
                #[trigger] oviews(state.objects@)[len0 + j],
                ObjectId((len0 + j) as u64),
                p,
                name@,
                pt,
                subtypes@,
                colors@,
                s0.turn_number,
            ) by {
                if j < k {
                    assert(oviews(state.objects@)[len0 + j] == oviews(mid.objects@)[len0 + j]);
                    assert(oviews(mid.objects@)[len0 + j] == oviews(before.objects@)[len0 + j]);
                } else {
                    assert(len0 + j == i as int);
                }
            }
            assert(state.battlefield@ =~= s0.battlefield@ + Seq::new((k + 1) as nat, |j: int| ObjectId((len0 + j) as u64)));
            assert(events@ =~= ev0 + Seq::new(
                (k + 1) as nat,
                |j: int| GameEvent::TokenCreated { object_id: ObjectId((len0 + j) as u64), name: *name },
            ));
        }
        k = k + 1;
    }
}

/// Put `n` +1/+1 counters on each existing object named, in order.
fn put_counters(state: &mut GameState, ids: &Vec<ObjectId>, n: u64, events: &mut Vec<GameEvent>)
    requires
        old(state).wf(),
    ensures
        final(state).wf(),
        oviews(final(state).objects@) == with_counters(oviews(old(state).objects@), ids@, n as nat),
        frame(*old(state), *final(state), Touched { objects: true, ..touch_none() }),
        final(events)@ == old(events)@ + counter_events(old(state).objects@.len(), ids@, n as nat),
{
    let ghost s0 = *state;
    let ghost ev0 = events@;
    let add: u32 = if n > u32::MAX as u64 {
        u32::MAX
    } else {
        n as u32
    };
    let mut k: usize = 0;
    proof {
        assert(ids@.take(0) =~= Seq::<ObjectId>::empty());
        assert(events@ =~= ev0 + counter_events(s0.objects@.len(), ids@.take(0), n as nat));
    }
    while k < ids.len()
        invariant
            k <= ids@.len(),
            s0.wf(),
            state.wf(),
            add as int == if n > u32::MAX { u32::MAX as int } else { n as int },
            state.objects@.len() == s0.objects@.len(),
            oviews(state.objects@) == with_counters(oviews(s0.objects@), ids@.take(k as int), n as nat),
            frame(s0, *state, Touched { objects: true, ..touch_none() }),
            forall|i: int|
                0 <= i < s0.objects@.len() ==> (#[trigger] state.objects@[i]).id == s0.objects@[i].id
                    && state.objects@[i].zone == s0.objects@[i].zone
                    && state.objects@[i].owner == s0.objects@[i].owner
                    && state.objects@[i].mana_cost@ == s0.objects@[i].mana_cost@,
            events@ == ev0 + counter_events(s0.objects@.len(), ids@.take(k as int), n as nat),
        decreases ids@.len() - k,
    {
        let id = ids[k];
        let ghost before = oviews(state.objects@);
        proof {
            assert(ids@.take(k + 1).drop_last() =~= ids@.take(k as int));
            assert(ids@.take(k + 1).last() == id);
        }
        if id.0 < state.objects.len() as u64 {
            let i = id.0 as usize;
            let ghost raw = state.objects@;
            let c = state.objects[i].plus_one_counters;
            state.objects[i].plus_one_counters = c.saturating_add(add);
            events.push(GameEvent::CounterAdded { object_id: id, counter_type: CounterType::Plus1Plus1, count: add });
            proof {
                assert(state.objects@ == raw.update(i as int, GameObject { plus_one_counters: c.saturating_add(add), ..raw[i as int] }));
                assert(oviews(state.objects@) =~= before.update(
                    i as int,
                    ObjectView { plus_one_counters: clamp_u32(before[i as int].plus_one_counters + n), ..before[i as int] },
                ));
                assert(add == clamp_u32(n as int));
            }
        }
        proof {
            lemma_wf_same_skeleton(s0, *state);
        }
        k = k + 1;
    }
    assert(ids@.take(k as int) =~= ids@);
}

/// Run a branch ability for the given source, controller and targets (see
/// `branch_outcome`).
pub fn run_branch(
    state: &mut GameState,
    def: &AbilityDefinition,
    source: ObjectId,
    controller: PlayerId,
    targets: &Vec<TargetRef>,
    events: &mut Vec<GameEvent>,
)
    requires
        old(state).wf(),
    ensures
        final(state).wf(),
        final(state).turn_number == old(state).turn_number,
        branch_outcome(*old(state), *final(state), old(events)@, final(events)@, def.effect, source, controller, targets@),
{
    let ctx = FilterContext { source_id: source, controller };
    match &def.effect {
        BranchEffect::GainLife { amount, player } => {
            let n = resolve_count(state, amount, ctx);
            let p = context_player_exec(state, targets, controller, None, player);
            if (p.0 as usize) < state.players.len() {
                change_life(state, p, n as i128, events);
            }
        },
        BranchEffect::LoseLife { amount } => {
            let n = resolve_count(state, amount, ctx);
            if (controller.0 as usize) < state.players.len() {
                change_life(state, controller, -(n as i128), events);
                assert((-(n as int)) as i64 == (-(n as i128)) as i64);
            }
        },
        BranchEffect::Draw { count } => {
            let n = resolve_count(state, count, ctx);
            if (controller.0 as usize) < state.players.len() {
                draw_cards(state, controller, n, events);
            }
        },
        BranchEffect::Token { name, power, toughness, subtypes, colors, count } => {
            let n = resolve_count(state, count, ctx);
            let pw = match power {
                PtValue::Fixed(v) => *v,
            };
            let th = match toughness {
                PtValue::Fixed(v) => *v,
            };
            create_tokens(state, controller, name, (pw, th), subtypes, colors, n, events);
        },
        BranchEffect::PutCounter { count, target, .. } => {
            let n = resolve_count(state, count, ctx);
            let ids = match target {
                TargetFilter::SelfRef => {
                    let mut v: Vec<ObjectId> = Vec::new();
                    v.push(source);
                    assert(v@ =~= seq![source]);
                    v
                },
                _ => object_targets_of(targets),
            };
            put_counters(state, &ids, n, events);
        },
    }
}

} // verus!
