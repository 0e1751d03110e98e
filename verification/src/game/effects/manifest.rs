//! CR 701.40: manifest; and what it shares with cloak (CR 701.58): putting
//! the top cards of a library onto the battlefield face down as 2/2
//! creatures.

use vstd::prelude::*;

use crate::game::effects::exile_top::zone_events;
use crate::game::effects::{
    ctx_of,
    ability_ctx,
    clamped_quantity, context_player, lemma_wf_same_skeleton, resolve_count,
    resolve_player_for_context_ref,
};
use crate::game::state::{
    frame, oviews, pviews, touch_none, zone_list_ok, GameObject, GameState, ObjectView, PlayerView,
    Touched,
};
use crate::game::zones::{move_top_of_library, top_moved};
use crate::text::string_of;
use crate::types::ability::{
    is_missing_param,Effect, EffectError, EffectKind, ResolvedAbility};
use crate::types::events::GameEvent;
use crate::types::identifiers::{ObjectId, PlayerId};
use crate::types::keywords::{Keyword, WardCost};
use crate::types::mana::{ManaCost, ManaCostView};
use crate::types::zones::Zone;

verus! {

/// The keyword is ward {2}.
pub open spec fn is_ward_two(k: Keyword) -> bool {
    k matches Keyword::Ward(WardCost::Mana(c)) && c@ == (ManaCostView::Cost { shards: Seq::empty(), generic: 2 })
}

/// `after` is `before` turned face down onto the battlefield as a 2/2
/// under `p`'s control (CR 701.40a), with ward {2} added for a cloak
/// (CR 701.58a).
pub open spec fn face_down_two_two(before: ObjectView, after: ObjectView, p: PlayerId, ward: bool, turn: u32) -> bool {
    &&& after == ObjectView {
        zone: Zone::Battlefield,
        face_down: true,
        power: Some(2),
        toughness: Some(2),
        controller: p,
        entered_battlefield_turn: Some(turn),
        keywords: after.keywords,
        ..before
    }
    &&& if ward {
        &&& after.keywords.len() == before.keywords.len() + 1
        &&& after.keywords.drop_last() == before.keywords
        &&& is_ward_two(after.keywords.last())
    } else {
        after.keywords == before.keywords
    }
}

/// The number of cards turned face down: the count, at most the library.
pub open spec fn face_down_count(s: GameState, p: PlayerId, n: nat) -> nat {
    if !s.has_player(p) {
        0
    } else if n < s.pv(p).library.len() {
        n
    } else {
        s.pv(p).library.len()
    }
}

/// The outcome of putting the top `n` cards of `p`'s library onto the
/// battlefield face down (see `face_down_two_two`), one at a time.
pub open spec fn face_down_outcome(s0: GameState, s1: GameState, p: PlayerId, n: nat, ward: bool) -> bool {
    let k = face_down_count(s0, p, n);
    let lib = if s0.has_player(p) {
        s0.pv(p).library
    } else {
        Seq::empty()
    };
    let top = lib.take(k as int);
    &&& s1.objects@.len() == s0.objects@.len()
    &&& forall|i: int|
        0 <= i < s0.objects@.len() ==> if top.contains(ObjectId(i as u64)) {
            face_down_two_two(oviews(s0.objects@)[i], #[trigger] oviews(s1.objects@)[i], p, ward, s0.turn_number)
        } else {
            oviews(s1.objects@)[i] == oviews(s0.objects@)[i]
        }
    &&& k > 0 ==> pviews(s1.players@) == pviews(s0.players@).update(
        p.0 as int,
        PlayerView { library: lib.skip(k as int), ..s0.pv(p) },
    )
    &&& k == 0 ==> s1.players@ == s0.players@
    &&& s1.battlefield@ == s0.battlefield@ + top
    &&& frame(s0, s1, Touched { objects: true, players: true, battlefield: true, ..touch_none() })
}

/// Turn the object face down as a 2/2 under `p`'s control that entered on
/// `turn`, with ward {2} added where asked.
fn make_face_down_two_two(o: &mut GameObject, p: PlayerId, turn: u32, ward: bool)
    ensures
        final(o).id == old(o).id,
        final(o).zone == old(o).zone,
        final(o).owner == old(o).owner,
        final(o).mana_cost@ == old(o).mana_cost@,
        final(o)@ == (ObjectView {
            face_down: true,
            power: Some(2),
            toughness: Some(2),
            controller: p,
            entered_battlefield_turn: Some(turn),
            keywords: final(o)@.keywords,
            ..old(o)@
        }),
        ward ==> final(o)@.keywords.len() == old(o)@.keywords.len() + 1 && final(o)@.keywords.drop_last()
            == old(o)@.keywords && is_ward_two(final(o)@.keywords.last()),
        !ward ==> final(o)@.keywords == old(o)@.keywords,
{
    o.face_down = true;
    o.power = Some(2);
    o.toughness = Some(2);
    o.controller = p;
    o.entered_battlefield_turn = Some(turn);
    if ward {
        let w = make_ward_two();
        o.keywords.push(w);
        assert(o.keywords@.drop_last() =~= old(o).keywords@);
    }
}

fn make_ward_two() -> (k: Keyword)
    ensures
        is_ward_two(k),
{
    Keyword::Ward(WardCost::Mana(ManaCost::generic(2)))
}

/// Put the top `n` cards of `p`'s library onto the battlefield face down as
/// 2/2 creatures under `p`'s control, one at a time (CR 701.40e, CR
/// 701.58e); as many as the library holds. With `ward`, each gets ward {2}.
pub fn turn_top_face_down(state: &mut GameState, p: PlayerId, n: u64, ward: bool, events: &mut Vec<GameEvent>)
    requires
        old(state).wf(),
    ensures
        final(state).wf(),
        face_down_outcome(*old(state), *final(state), p, n as nat, ward),
        final(events)@ == old(events)@ + zone_events(
            if old(state).has_player(p) {
                old(state).pv(p).library.take(face_down_count(*old(state), p, n as nat) as int)
            } else {
                Seq::empty()
            },
            Zone::Library,
            Zone::Battlefield,
        ),
{
    let ghost s0 = *state;
    let ghost ev0 = events@;
    if p.0 as usize >= state.players.len() {
        assert(s0.battlefield@ =~= s0.battlefield@ + Seq::<ObjectId>::empty().take(0));
        assert(events@ =~= ev0 + zone_events(Seq::<ObjectId>::empty().take(0), Zone::Library, Zone::Battlefield));
        return;
    }
    let pi = p.0 as usize;
    let len = state.players[pi].library.len();
    let k: usize = if n < len as u64 {
        n as usize
    } else {
        len
    };
    let ghost lib = s0.pv(p).library;
    proof {
        assert(zone_list_ok(s0.players@[pi as int].library@, s0.objects@, Zone::Library));
        assert(lib.take(0) =~= Seq::<ObjectId>::empty());
        assert(s0.battlefield@ =~= s0.battlefield@ + lib.take(0));
        assert(events@ =~= ev0 + zone_events(lib.take(0), Zone::Library, Zone::Battlefield));
        assert(lib.skip(0) =~= lib);
    }
    let mut j: usize = 0;
    while j < k
        invariant
            j <= k <= lib.len(),
            k == face_down_count(s0, p, n as nat),
            s0.wf(),
            state.wf(),
            pi as int == p.0 as int,
            s0.has_player(p),
            state.players@.len() == s0.players@.len(),
            state.objects@.len() == s0.objects@.len(),
            zone_list_ok(lib, s0.objects@, Zone::Library),
            lib == s0.pv(p).library,
            state.turn_number == s0.turn_number,
            forall|i: int|
                0 <= i < s0.objects@.len() ==> if lib.take(j as int).contains(ObjectId(i as u64)) {
                    face_down_two_two(oviews(s0.objects@)[i], #[trigger] oviews(state.objects@)[i], p, ward, s0.turn_number)
                } else {
                    oviews(state.objects@)[i] == oviews(s0.objects@)[i]
                },
            j > 0 ==> pviews(state.players@) == pviews(s0.players@).update(
                pi as int,
                PlayerView { library: lib.skip(j as int), ..s0.pv(p) },
            ),
            j == 0 ==> state.players@ == s0.players@,
            state.battlefield@ == s0.battlefield@ + lib.take(j as int),
            frame(s0, *state, Touched { objects: true, players: true, battlefield: true, ..touch_none() }),
            events@ == ev0 + zone_events(lib.take(j as int), Zone::Library, Zone::Battlefield),
        decreases k - j,
    {
        let ghost before = *state;
        proof {
            if j == 0 {
                assert(state.pv(p) == s0.pv(p));
            } else {
                assert(state.pv(p) == pviews(state.players@)[pi as int]);
            }
            assert(state.pv(p).library =~= lib.skip(j as int));
        }
        let x = move_top_of_library(state, p, Zone::Battlefield);
        let ghost mid = *state;
        proof {
            assert(top_moved(before, mid, p, Zone::Battlefield, x));
            assert(x == lib[j as int]);
            assert(oviews(mid.objects@).len() == mid.objects@.len());
            assert(oviews(before.objects@).len() == before.objects@.len());
            assert(x.0 < s0.objects@.len());
            assert(!lib.take(j as int).contains(x)) by {
                if lib.take(j as int).contains(x) {
                    let m = choose|m: int| 0 <= m < j && lib.take(j as int)[m] == x;
                    assert(lib[m] == lib[j as int]);
                }
            }
            assert(oviews(before.objects@)[x.0 as int] == oviews(s0.objects@)[x.0 as int]);
        }
        let nobj = state.objects.len();
        assert(x.0 < nobj);
        let xi = x.0 as usize;
        let ghost raw = state.objects@;
        let turn = state.turn_number;
        make_face_down_two_two(&mut state.objects[xi], p, turn, ward);
        events.push(GameEvent::ZoneChanged { object_id: x, from: Some(Zone::Library), to: Zone::Battlefield });
        proof {
            assert(state.objects@.len() == raw.len());
            assert(pviews(state.players@).len() == state.players@.len());
            assert forall|i: int| 0 <= i < raw.len() implies (#[trigger] state.objects@[i]).id == mid.objects@[i].id
                && state.objects@[i].zone == mid.objects@[i].zone && state.objects@[i].owner == mid.objects@[i].owner
                && state.objects@[i].mana_cost@ == mid.objects@[i].mana_cost@ by {}
            lemma_wf_same_skeleton(mid, *state);
            let os0 = oviews(s0.objects@);
            assert forall|i: int| 0 <= i < s0.objects@.len() implies if lib.take(j + 1).contains(ObjectId(i as u64)) {
                face_down_two_two(os0[i], #[trigger] oviews(state.objects@)[i], p, ward, s0.turn_number)
            } else {
                oviews(state.objects@)[i] == os0[i]
            } by {
                assert(lib.take(j + 1) =~= lib.take(j as int).push(x));
                crate::seqs::lemma_contains_push(lib.take(j as int), x, ObjectId(i as u64));
                if i == xi as int {
                    assert(ObjectId(i as u64) == x);
                    assert(oviews(mid.objects@)[i] == ObjectView { zone: Zone::Battlefield, ..os0[i] });
                    if ward {
                        assert(oviews(state.objects@)[i].keywords.drop_last() =~= os0[i].keywords);
                    }
                } else {
                    assert(ObjectId(i as u64) != x);
                    assert(oviews(mid.objects@)[i] == oviews(before.objects@)[i]);
                }
            }
            assert(lib.skip(j as int).skip(1) =~= lib.skip(j + 1));
            if j == 0 {
                assert(pviews(before.players@) == pviews(s0.players@));
            }
            assert(pviews(state.players@) =~= pviews(s0.players@).update(
                pi as int,
                PlayerView { library: lib.skip(j + 1), ..s0.pv(p) },
            ));
            assert(lib.take(j + 1) =~= lib.take(j as int).push(x));
            assert(state.battlefield@ =~= s0.battlefield@ + lib.take(j + 1));
            assert(zone_events(lib.take(j + 1), Zone::Library, Zone::Battlefield) =~= zone_events(
                lib.take(j as int),
                Zone::Library,
                Zone::Battlefield,
            ).push(GameEvent::ZoneChanged { object_id: x, from: Some(Zone::Library), to: Zone::Battlefield }));
        }
        j = j + 1;
    }
}

/// CR 701.40a: manifest the top N cards of the library of the player the
/// effect's filter names, one at a time (CR 701.40e), as many as the library
/// holds. Fails, changing nothing, on another effect.
pub fn resolve(state: &mut GameState, ability: &ResolvedAbility, events: &mut Vec<GameEvent>) -> (r:
    Result<(), EffectError>)
    requires
        old(state).wf(),
    ensures
        final(state).wf(),
        match ability.effect {
            Effect::Manifest { target, count } => {
                let p = context_player(*old(state), *ability, target);
                let n = clamped_quantity(*old(state), count, ability_ctx(*ability));
                let top = if old(state).has_player(p) {
                    old(state).pv(p).library.take(face_down_count(*old(state), p, n) as int)
                } else {
                    Seq::empty()
                };
                &&& r is Ok
                &&& face_down_outcome(*old(state), *final(state), p, n, false)
                &&& final(events)@ == old(events)@ + zone_events(top, Zone::Library, Zone::Battlefield)
                    + seq![GameEvent::EffectResolved { kind: EffectKind::Manifest, source_id: ability.source_id }]
            },
            _ => {
                &&& is_missing_param(r, "count"@)
                &&& frame(*old(state), *final(state), touch_none())
                &&& final(events)@ == old(events)@
            },
        },
{
    let (target, count) = match &ability.effect {
        Effect::Manifest { target, count } => (target, count),
        _ => return Err(EffectError::MissingParam(string_of("count"))),
    };
    let n = resolve_count(state, count, ctx_of(ability));
    let p = resolve_player_for_context_ref(state, ability, target);
    turn_top_face_down(state, p, n, false, events);
    let ghost before = events@;
    events.push(GameEvent::EffectResolved { kind: EffectKind::Manifest, source_id: ability.source_id });
    assert(events@ =~= before + seq![GameEvent::EffectResolved { kind: EffectKind::Manifest, source_id: ability.source_id }]);
    Ok(())
}

} // verus!
