//! Exiling the top cards of a player's library.

use vstd::prelude::*;

use crate::game::effects::{
    ctx_of,
    ability_ctx,context_player, quantity_value, resolve_player_for_context_ref, resolve_quantity};
use crate::game::state::{
    frame, oviews, pviews, touch_none, zone_list_ok, ExileLink, GameState, ObjectView, PlayerView,
    Touched,
};
use crate::game::zones::{move_top_of_library, top_moved};
use crate::text::string_of;
use crate::types::ability::{
    is_missing_param,Effect, EffectError, EffectKind, ResolvedAbility};
use crate::types::events::GameEvent;
use crate::types::identifiers::{ObjectId};
use crate::types::zones::Zone;

verus! {

/// How many cards "exile the top N" takes from a library of `len` cards: N,
/// at most the whole library (CR 701.17b). A negative N takes the whole
/// library.
pub open spec fn exile_count(n: int, len: nat) -> nat {
    if n < 0 || n >= len {
        len
    } else {
        n as nat
    }
}

/// The objects after the named ones were exiled, face down if asked.
pub open spec fn exiled_views(os: Seq<ObjectView>, ids: Seq<ObjectId>, face_down: bool) -> Seq<ObjectView> {
    Seq::new(
        os.len(),
        |i: int|
            if ids.contains(ObjectId(i as u64)) {
                ObjectView { zone: Zone::Exile, face_down: face_down || os[i].face_down, ..os[i] }
            } else {
                os[i]
            },
    )
}

/// The zone-change events of cards moving between two zones, in order.
pub open spec fn zone_events(ids: Seq<ObjectId>, from: Zone, to: Zone) -> Seq<GameEvent> {
    Seq::new(ids.len(), |j: int| GameEvent::ZoneChanged { object_id: ids[j], from: Some(from), to })
}

/// The exile links from the source to each card.
pub open spec fn links_to(ids: Seq<ObjectId>, source: ObjectId) -> Seq<ExileLink> {
    Seq::new(ids.len(), |j: int| ExileLink { exiled_id: ids[j], source_id: source })
}

/// The source keeps track of the cards it exiles: it has an ability that
/// refers to them.
pub open spec fn tracks_exiled(s: GameState, source: ObjectId) -> bool {
    s.has_obj(source) && s.ov(source).links_exiled_cards
}

/// CR 701.17b + CR 406.3: exile the top N cards of the library of the
/// player the effect's filter names (as many as there are), face down if
/// the effect says so, linking each to the source where the source keeps
/// track of what it exiled. Fails, changing nothing, on another effect or a
/// player who isn't in the game.
pub fn resolve(state: &mut GameState, ability: &ResolvedAbility, events: &mut Vec<GameEvent>) -> (r:
    Result<(), EffectError>)
    requires
        old(state).wf(),
    ensures
        final(state).wf(),
        match ability.effect {
            Effect::ExileTop { count, player, face_down } => {
                let p = context_player(*old(state), *ability, player);
                if !old(state).has_player(p) {
                    &&& r == Err::<(), EffectError>(EffectError::PlayerNotFound)
                    &&& frame(*old(state), *final(state), touch_none())
                    &&& final(events)@ == old(events)@
                } else {
                    let lib = old(state).pv(p).library;
                    let k = exile_count(quantity_value(*old(state), count, ability_ctx(*ability)), lib.len());
                    let top = lib.take(k as int);
                    &&& r is Ok
                    &&& oviews(final(state).objects@) == exiled_views(oviews(old(state).objects@), top, face_down)
                    &&& pviews(final(state).players@) == pviews(old(state).players@).update(
                        p.0 as int,
                        PlayerView { library: lib.skip(k as int), ..old(state).pv(p) },
                    )
                    &&& final(state).exile@ == old(state).exile@ + top
                    &&& final(state).exile_links@ == old(state).exile_links@ + if tracks_exiled(
                        *old(state),
                        ability.source_id,
                    ) {
                        links_to(top, ability.source_id)
                    } else {
                        Seq::empty()
                    }
                    &&& frame(
                        *old(state),
                        *final(state),
                        Touched { objects: true, players: true, exile: true, exile_links: true, ..touch_none() },
                    )
                    &&& final(events)@ == old(events)@ + zone_events(top, Zone::Library, Zone::Exile)
                        + seq![GameEvent::EffectResolved { kind: EffectKind::ExileTop, source_id: ability.source_id }]
                }
            },
            _ => {
                &&& is_missing_param(r, "ExileTop count"@)
                &&& frame(*old(state), *final(state), touch_none())
                &&& final(events)@ == old(events)@
            },
        },
{
    let (count, player_filter, face_down) = match &ability.effect {
        Effect::ExileTop { count, player, face_down } => (count, player, *face_down),
        _ => return Err(EffectError::MissingParam(string_of("ExileTop count"))),
    };
    let n = resolve_quantity(state, count, ctx_of(ability));
    let p = resolve_player_for_context_ref(state, ability, player_filter);
    if p.0 as usize >= state.players.len() {
        return Err(EffectError::PlayerNotFound);
    }
    let pi = p.0 as usize;
    let len = state.players[pi].library.len();
    let k: usize = if n < 0 || n as u64 >= len as u64 {
        len
    } else {
        n as usize
    };
    let track = match state.object(ability.source_id) {
        Some(o) => o.links_exiled_cards,
        None => false,
    };
    let ghost s0 = *state;
    let ghost ev0 = events@;
    let ghost lib = s0.pv(p).library;
    proof {
        assert(zone_list_ok(s0.players@[pi as int].library@, s0.objects@, Zone::Library));
        assert(oviews(s0.objects@) =~= exiled_views(oviews(s0.objects@), lib.take(0), face_down));
        assert(lib.skip(0) =~= lib);
        assert(pviews(s0.players@)[pi as int] == s0.pv(p));
        assert(pviews(s0.players@) =~= pviews(s0.players@).update(pi as int, PlayerView { library: lib.skip(0), ..s0.pv(p) }));
        assert(s0.exile@ =~= s0.exile@ + lib.take(0));
        assert(s0.exile_links@ =~= s0.exile_links@ + links_to(lib.take(0), ability.source_id));
        assert(events@ =~= ev0 + zone_events(lib.take(0), Zone::Library, Zone::Exile));
    }
    let mut j: usize = 0;
    while j < k
        invariant
            j <= k <= lib.len(),
            s0.wf(),
            state.wf(),
            pi as int == p.0 as int,
            s0.has_player(p),
            state.players@.len() == s0.players@.len(),
            state.objects@.len() == s0.objects@.len(),
            zone_list_ok(lib, s0.objects@, Zone::Library),
            lib == s0.pv(p).library,
            lib.no_duplicates(),
            oviews(state.objects@) == exiled_views(oviews(s0.objects@), lib.take(j as int), face_down),
            pviews(state.players@) == pviews(s0.players@).update(
                pi as int,
                PlayerView { library: lib.skip(j as int), ..s0.pv(p) },
            ),
            state.exile@ == s0.exile@ + lib.take(j as int),
            state.exile_links@ == s0.exile_links@ + if track {
                links_to(lib.take(j as int), ability.source_id)
            } else {
                Seq::empty()
            },
            frame(s0, *state, Touched { objects: true, players: true, exile: true, exile_links: true, ..touch_none() }),
            events@ == ev0 + zone_events(lib.take(j as int), Zone::Library, Zone::Exile),
        decreases k - j,
    {
        let ghost before = *state;
        proof {
            assert(state.pv(p) == pviews(state.players@)[pi as int]);
            assert(state.pv(p).library == lib.skip(j as int));
            assert(state.pv(p).library.len() > 0);
        }
        let x = move_top_of_library(state, p, Zone::Exile);
        proof {
            assert(x == lib[j as int]);
        }
        let ghost mid = *state;
        proof {
            assert(top_moved(before, mid, p, Zone::Exile, x));
            assert(oviews(mid.objects@).len() == mid.objects@.len());
            assert(oviews(before.objects@).len() == before.objects@.len());
            assert(mid.objects@.len() == s0.objects@.len());
            assert(x.0 < s0.objects@.len());
            assert(oviews(before.objects@)[x.0 as int] == oviews(s0.objects@)[x.0 as int]) by {
                assert(!lib.take(j as int).contains(x)) by {
                    if lib.take(j as int).contains(x) {
                        let m = choose|m: int| 0 <= m < j && lib.take(j as int)[m] == x;
                        assert(lib[m] == lib[j as int]);
                    }
                }
            }
        }
        if face_down {
            let nobj = state.objects.len();
            assert(x.0 < nobj);
            let xi = x.0 as usize;
            let ghost raw = state.objects@;
            state.objects[xi].face_down = true;
            proof {
                assert(state.objects@ == raw.update(xi as int, crate::game::state::GameObject { face_down: true, ..raw[xi as int] }));
                assert(oviews(state.objects@) =~= oviews(mid.objects@).update(
                    xi as int,
                    ObjectView { face_down: true, ..oviews(mid.objects@)[xi as int] },
                ));
                crate::game::effects::lemma_wf_same_skeleton(mid, *state);
            }
        }
        if track {
            state.exile_links.push(ExileLink { exiled_id: x, source_id: ability.source_id });
        }
        events.push(GameEvent::ZoneChanged { object_id: x, from: Some(Zone::Library), to: Zone::Exile });
        proof {
            assert(lib.take(j + 1) =~= lib.take(j as int).push(x));
            assert(!lib.take(j as int).contains(x)) by {
                if lib.take(j as int).contains(x) {
                    let m = choose|m: int| 0 <= m < j && lib.take(j as int)[m] == x;
                    assert(lib[m] == lib[j as int]);
                }
            }
            let os0 = oviews(s0.objects@);
            assert(oviews(state.objects@).len() == s0.objects@.len());
            assert forall|m: int| 0 <= m < s0.objects@.len() implies oviews(state.objects@)[m]
                == exiled_views(os0, lib.take(j + 1), face_down)[m] by {
                crate::seqs::lemma_contains_push(lib.take(j as int), x, ObjectId(m as u64));
                if m == x.0 as int {
                    assert(ObjectId(m as u64) == x);
                    assert(oviews(mid.objects@)[m] == ObjectView { zone: Zone::Exile, ..os0[m] });
                } else {
                    assert(ObjectId(m as u64) != x);
                    assert(oviews(mid.objects@)[m] == oviews(before.objects@)[m]);
                    assert(oviews(state.objects@)[m] == oviews(mid.objects@)[m]);
                }
            }
            assert(oviews(state.objects@) =~= exiled_views(oviews(s0.objects@), lib.take(j + 1), face_down));
            assert(lib.skip(j as int).skip(1) =~= lib.skip(j + 1));
            assert(pviews(state.players@) =~= pviews(s0.players@).update(
                pi as int,
                PlayerView { library: lib.skip(j + 1), ..s0.pv(p) },
            ));
            assert(state.exile@ =~= s0.exile@ + lib.take(j + 1));
            assert(links_to(lib.take(j + 1), ability.source_id) =~= links_to(lib.take(j as int), ability.source_id).push(
                ExileLink { exiled_id: x, source_id: ability.source_id },
            ));
            assert(zone_events(lib.take(j + 1), Zone::Library, Zone::Exile) =~= zone_events(
                lib.take(j as int),
                Zone::Library,
                Zone::Exile,
            ).push(GameEvent::ZoneChanged { object_id: x, from: Some(Zone::Library), to: Zone::Exile }));
        }
        j = j + 1;
    }
    let ghost before_last = events@;
    events.push(GameEvent::EffectResolved { kind: EffectKind::ExileTop, source_id: ability.source_id });
    assert(events@ =~= before_last + seq![
        GameEvent::EffectResolved { kind: EffectKind::ExileTop, source_id: ability.source_id },
    ]);
    Ok(())
}

} // verus!
