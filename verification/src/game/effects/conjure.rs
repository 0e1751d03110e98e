//! Conjure: create cards from outside the game.

use vstd::prelude::*;

use crate::game::effects::{ability_ctx, clamped_quantity, ctx_of, lemma_wf_same_skeleton, resolve_count};
use crate::game::filter::FilterContext;
use crate::game::state::{frame, oviews, GameObject, GameState, ObjectView, Touched, ZoneChangeRecord};
use crate::game::zones::{added_to_zone, create_object, fresh_view, touch_zone};
use crate::types::ability::{ConjureCard, Effect, EffectError, EffectKind, ResolvedAbility};
use crate::types::events::GameEvent;
use crate::types::identifiers::{CardId, ObjectId, PlayerId};
use crate::types::zones::Zone;

verus! {

/// The view of a conjured card: a real card (no token) under its
/// conjurer; on the battlefield it has just entered this turn (CR 302.6),
/// tapped when the effect says so.
pub open spec fn conjured_view(id: ObjectId, owner: PlayerId, name: Seq<char>, dest: Zone, tapped: bool, turn: u32) -> ObjectView {
    let v = fresh_view(id, CardId(0), owner, name, dest);
    if dest == Zone::Battlefield {
        ObjectView { tapped, entered_battlefield_turn: Some(turn), ..v }
    } else {
        v
    }
}

/// What conjuring one card into `dest` changes: the state's objects,
/// the zone's list, and, for the battlefield, the turn's zone changes.
pub open spec fn conjure_touch(dest: Zone) -> Touched {
    Touched { zone_changes_this_turn: dest == Zone::Battlefield, ..touch_zone(dest) }
}

/// `b` is `a` with one card named `name` conjured into `dest` for `owner`:
/// a new object at the end of the zone's list; onto the battlefield it
/// counts as a zone change from nowhere (CR 603.6a), reported, and the
/// conjuring is reported last.
pub open spec fn conjured_one(
    a: GameState,
    b: GameState,
    ea: Seq<GameEvent>,
    eb: Seq<GameEvent>,
    owner: PlayerId,
    name: String,
    dest: Zone,
    tapped: bool,
) -> bool {
    let id = ObjectId(a.objects@.len() as u64);
    &&& oviews(b.objects@) == oviews(a.objects@).push(conjured_view(id, owner, name@, dest, tapped, a.turn_number))
    &&& added_to_zone(a, b, id, owner, dest)
    &&& frame(a, b, conjure_touch(dest))
    &&& b.zone_changes_this_turn@ == if dest == Zone::Battlefield {
        a.zone_changes_this_turn@.push(ZoneChangeRecord { object_id: id, from_zone: None, to_zone: Zone::Battlefield })
    } else {
        a.zone_changes_this_turn@
    }
    &&& eb == ea + if dest == Zone::Battlefield {
        seq![
            GameEvent::ZoneChanged { object_id: id, from: None, to: Zone::Battlefield },
            GameEvent::ObjectConjured { object_id: id, name },
        ]
    } else {
        seq![GameEvent::ObjectConjured { object_id: id, name }]
    }
}

/// Each state of the chain follows from the one before by conjuring one
/// more copy of the card.
pub open spec fn copies_chain(
    ss: Seq<GameState>,
    es: Seq<Seq<GameEvent>>,
    n: nat,
    owner: PlayerId,
    name: String,
    dest: Zone,
    tapped: bool,
) -> bool {
    &&& ss.len() == n + 1
    &&& es.len() == n + 1
    &&& forall|i: int| 0 <= i < n ==> #[trigger] conjured_one(ss[i], ss[i + 1], es[i], es[i + 1], owner, name, dest, tapped)
}

/// `b` is `a` with the card conjured as many times as its count reads on
/// `a`, at least zero.
pub open spec fn card_conjured(
    a: GameState,
    b: GameState,
    ea: Seq<GameEvent>,
    eb: Seq<GameEvent>,
    card: ConjureCard,
    owner: PlayerId,
    dest: Zone,
    tapped: bool,
    ctx: FilterContext,
) -> bool {
    exists|ss: Seq<GameState>, es: Seq<Seq<GameEvent>>|
        #[trigger] copies_chain(ss, es, clamped_quantity(a, card.count, ctx), owner, card.name, dest, tapped) && ss[0]
            == a && es[0] == ea && ss.last() == b && es.last() == eb
}

/// Each state of the chain follows from the one before by conjuring the
/// next card of the list.
pub open spec fn cards_chain(
    ss: Seq<GameState>,
    es: Seq<Seq<GameEvent>>,
    cards: Seq<ConjureCard>,
    owner: PlayerId,
    dest: Zone,
    tapped: bool,
    ctx: FilterContext,
) -> bool {
    &&& ss.len() == cards.len() + 1
    &&& es.len() == cards.len() + 1
    &&& forall|i: int|
        0 <= i < cards.len() ==> #[trigger] card_conjured(ss[i], ss[i + 1], es[i], es[i + 1], cards[i], owner, dest, tapped, ctx)
}

fn enter_conjured(o: &mut GameObject, tapped: bool, turn: u32)
    ensures
        final(o).id == old(o).id,
        final(o).zone == old(o).zone,
        final(o).owner == old(o).owner,
        final(o).mana_cost@ == old(o).mana_cost@,
        final(o)@ == (ObjectView { tapped, entered_battlefield_turn: Some(turn), ..old(o)@ }),
{
    o.entered_battlefield_turn = Some(turn);
    o.tapped = tapped;
}

/// Conjure one copy of the card.
fn conjure_one(state: &mut GameState, owner: PlayerId, name: &String, dest: Zone, tapped: bool, events: &mut Vec<GameEvent>)
    requires
        old(state).wf(),
    ensures
        final(state).wf(),
        final(state).turn_number == old(state).turn_number,
        conjured_one(*old(state), *final(state), old(events)@, final(events)@, owner, *name, dest, tapped),
{
    let ghost s0 = *state;
    let id = create_object(state, CardId(0), owner, name.clone(), dest);
    let ghost mid = *state;
    let n = state.objects.len();
    assert(oviews(state.objects@).len() == state.objects@.len());
    let i = id.0 as usize;
    assert(oviews(mid.objects@)[i as int] == mid.objects@[i as int]@);
    assert(mid.objects@[i as int]@ == fresh_view(id, CardId(0), owner, name@, dest));
    if matches!(dest, Zone::Battlefield) {
        let turn = state.turn_number;
        enter_conjured(&mut state.objects[i], tapped, turn);
        proof {
            assert forall|m: int| 0 <= m < mid.objects@.len() implies (#[trigger] state.objects@[m]).id
                == mid.objects@[m].id && state.objects@[m].zone == mid.objects@[m].zone && state.objects@[m].owner
                == mid.objects@[m].owner && state.objects@[m].mana_cost@ == mid.objects@[m].mana_cost@ by {}
            lemma_wf_same_skeleton(mid, *state);
            assert(oviews(state.objects@) =~= oviews(mid.objects@).update(i as int, state.objects@[i as int]@));
        }
        state.zone_changes_this_turn.push(ZoneChangeRecord { object_id: id, from_zone: None, to_zone: Zone::Battlefield });
        events.push(GameEvent::ZoneChanged { object_id: id, from: None, to: Zone::Battlefield });
    }
    events.push(GameEvent::ObjectConjured { object_id: id, name: name.clone() });
    proof {
        assert(oviews(state.objects@) =~= oviews(s0.objects@).push(
            conjured_view(id, owner, name@, dest, tapped, s0.turn_number),
        ));
        if dest == Zone::Battlefield {
            assert(events@ =~= old(events)@ + seq![
                GameEvent::ZoneChanged { object_id: id, from: None, to: Zone::Battlefield },
                GameEvent::ObjectConjured { object_id: id, name: *name },
            ]);
        } else {
            assert(events@ =~= old(events)@ + seq![GameEvent::ObjectConjured { object_id: id, name: *name }]);
        }
    }
}

/// Conjure `n` copies of the card.
fn conjure_copies(
    state: &mut GameState,
    owner: PlayerId,
    name: &String,
    n: u64,
    dest: Zone,
    tapped: bool,
    events: &mut Vec<GameEvent>,
)
    requires
        old(state).wf(),
    ensures
        final(state).wf(),
        final(state).turn_number == old(state).turn_number,
        exists|ss: Seq<GameState>, es: Seq<Seq<GameEvent>>|
            #[trigger] copies_chain(ss, es, n as nat, owner, *name, dest, tapped) && ss[0] == *old(state) && es[0]
                == old(events)@ && ss.last() == *final(state) && es.last() == final(events)@,
{
    let ghost mut ss: Seq<GameState> = seq![*state];
    let ghost mut es: Seq<Seq<GameEvent>> = seq![events@];
    let mut k: u64 = 0;
    while k < n
        invariant
            k <= n,
            state.wf(),
            state.turn_number == old(state).turn_number,
            copies_chain(ss, es, k as nat, owner, *name, dest, tapped),
            ss[0] == *old(state),
            es[0] == old(events)@,
            ss.last() == *state,
            es.last() == events@,
        decreases n - k,
    {
        conjure_one(state, owner, name, dest, tapped, events);
        proof {
            let ss2 = ss.push(*state);
            let es2 = es.push(events@);
            assert forall|i: int| 0 <= i < k + 1 implies #[trigger] conjured_one(
                ss2[i],
                ss2[i + 1],
                es2[i],
                es2[i + 1],
                owner,
                *name,
                dest,
                tapped,
            ) by {
                if i < k {
                    assert(ss2[i] == ss[i] && ss2[i + 1] == ss[i + 1] && es2[i] == es[i] && es2[i + 1] == es[i + 1]);
                }
            }
            ss = ss2;
            es = es2;
        }
        k = k + 1;
    }
    assert(copies_chain(ss, es, n as nat, owner, *name, dest, tapped));
}

/// Conjure: create, for each card of the list in turn, as many copies as its
/// count reads (at least zero) and put them into the destination for the
/// ability's controller; each is a real card, not a token. Onto the
/// battlefield a conjured card enters this turn, tapped when the effect
/// says so, and counts as a zone change from nowhere (CR 603.6a). Each
/// conjured card is reported, then the effect as resolved. Another effect
/// changes nothing.
pub fn resolve(state: &mut GameState, ability: &ResolvedAbility, events: &mut Vec<GameEvent>) -> (r: Result<
    (),
    EffectError,
>)
    requires
        old(state).wf(),
    ensures
        r is Ok,
        final(state).wf(),
        match ability.effect {
            Effect::Conjure { cards, destination, tapped } => {
                &&& final(events)@.len() > 0
                &&& final(events)@.last() == GameEvent::EffectResolved {
                    kind: EffectKind::Conjure,
                    source_id: ability.source_id,
                }
                &&& exists|ss: Seq<GameState>, es: Seq<Seq<GameEvent>>|
                    #[trigger] cards_chain(ss, es, cards@, ability.controller, destination, tapped, ability_ctx(*ability))
                        && ss[0] == *old(state) && es[0] == old(events)@ && ss.last() == *final(state) && es.last()
                        == final(events)@.drop_last()
            },
            _ => *final(state) == *old(state) && final(events)@ == old(events)@,
        },
{
    let (cards, dest, tapped) = match &ability.effect {
        Effect::Conjure { cards, destination, tapped } => (cards, *destination, *tapped),
        _ => return Ok(()),
    };
    let ctx = ctx_of(ability);
    let ghost mut ss: Seq<GameState> = seq![*state];
    let ghost mut es: Seq<Seq<GameEvent>> = seq![events@];
    let mut k: usize = 0;
    while k < cards.len()
        invariant
            k <= cards@.len(),
            state.wf(),
            ctx == ability_ctx(*ability),
            cards_chain(ss, es, cards@.take(k as int), ability.controller, dest, tapped, ctx),
            ss[0] == *old(state),
            es[0] == old(events)@,
            ss.last() == *state,
            es.last() == events@,
        decreases cards@.len() - k,
    {
        let card = &cards[k];
        let ghost before = *state;
        let ghost ev_before = events@;
        let n = resolve_count(state, &card.count, ctx);
        conjure_copies(state, ability.controller, &card.name, n, dest, tapped, events);
        proof {
            assert(card_conjured(before, *state, ev_before, events@, *card, ability.controller, dest, tapped, ctx));
            let ss2 = ss.push(*state);
            let es2 = es.push(events@);
            let cs = cards@.take(k + 1);
            assert(cs =~= cards@.take(k as int).push(*card));
            assert forall|i: int| 0 <= i < cs.len() implies #[trigger] card_conjured(
                ss2[i],
                ss2[i + 1],
                es2[i],
                es2[i + 1],
                cs[i],
                ability.controller,
                dest,
                tapped,
                ctx,
            ) by {
                if i < k {
                    assert(ss2[i] == ss[i] && ss2[i + 1] == ss[i + 1] && es2[i] == es[i] && es2[i + 1] == es[i + 1]);
                    assert(cs[i] == cards@.take(k as int)[i]);
                }
            }
            ss = ss2;
            es = es2;
        }
        k = k + 1;
    }
    assert(cards@.take(k as int) =~= cards@);
    let ghost before = events@;
    events.push(GameEvent::EffectResolved { kind: EffectKind::Conjure, source_id: ability.source_id });
    assert(events@.drop_last() =~= before);
    assert(cards_chain(ss, es, cards@, ability.controller, dest, tapped, ability_ctx(*ability)));
    Ok(())
}

} // verus!
