//! CR 701.57a: discover N.

use vstd::prelude::*;

use crate::game::effects::exile_top::{exiled_views, zone_events};
use crate::game::effects::{
    ctx_of,
    ability_ctx,clamped_quantity, resolve_count};
use crate::game::filter::contains_core;
use crate::game::state::{
    frame, oviews, pviews, touch_none, zone_list_ok, CastOfferKind, GameState, ObjectView, PlayerView,
    Touched, WaitingFor,
};
use crate::game::zones::{
    lemma_library_member_elsewhere, move_top_of_library, put_on_library_bottom, top_moved, unlisted,
};
use crate::rng::shuffle_in_place;
use crate::seqs::{first_index, lemma_first_index_found, lemma_first_index_none};
use crate::text::string_of;
use crate::types::ability::{
    is_invalid_param,Effect, EffectError, EffectKind, ResolvedAbility};
use crate::types::card_type::CoreType;
use crate::types::events::GameEvent;
use crate::types::identifiers::{ObjectId};
use crate::types::mana::mana_value_of;
use crate::types::zones::Zone;

verus! {

/// The card is a discover hit: a nonland card of mana value at most the
/// limit.
pub open spec fn discover_hit(s: GameState, x: ObjectId, limit: nat) -> bool {
    !s.ov(x).card_types.core_types.contains(CoreType::Land) && mana_value_of(s.ov(x).mana_cost) <= limit
}

/// The discover-hit test for a state and limit.
pub open spec fn hit_pred(s: GameState, limit: nat) -> spec_fn(ObjectId) -> bool {
    |x: ObjectId| discover_hit(s, x, limit)
}

/// CR 701.57a: exile cards from the top of the controller's library one at
/// a time until a nonland card with mana value N or less is exiled. On a
/// hit, the controller is offered to cast it, the misses noted; with no
/// hit, the misses (the whole library) go back to the bottom of the library
/// in a random order. Fails, changing nothing, on another effect
/// (`InvalidParam`) or a controller who isn't in the game.
pub fn resolve(state: &mut GameState, ability: &ResolvedAbility, events: &mut Vec<GameEvent>) -> (r:
    Result<(), EffectError>)
    requires
        old(state).wf(),
    ensures
        final(state).wf(),
        match ability.effect {
            Effect::Discover { mana_value_limit } => {
                let c = ability.controller;
                let limit = clamped_quantity(*old(state), mana_value_limit, ability_ctx(*ability));
                let resolved = GameEvent::EffectResolved { kind: EffectKind::Discover, source_id: ability.source_id };
                if !old(state).has_player(c) {
                    &&& r == Err::<(), EffectError>(EffectError::PlayerNotFound)
                    &&& frame(*old(state), *final(state), touch_none())
                    &&& final(events)@ == old(events)@
                } else {
                    let lib = old(state).pv(c).library;
                    let h = first_index(lib, hit_pred(*old(state), limit));
                    &&& r is Ok
                    &&& if h >= 0 {
                        let exiled = lib.take(h + 1);
                        &&& oviews(final(state).objects@) == exiled_views(oviews(old(state).objects@), exiled, false)
                        &&& pviews(final(state).players@) == pviews(old(state).players@).update(
                            c.0 as int,
                            PlayerView { library: lib.skip(h + 1), ..old(state).pv(c) },
                        )
                        &&& final(state).exile@ == old(state).exile@ + exiled
                        &&& final(state).waiting_for matches WaitingFor::CastOffer {
                            player,
                            kind: CastOfferKind::Discover { hit_card, exiled_misses },
                        } && player == c && hit_card == lib[h] && exiled_misses@ == lib.take(h)
                        &&& frame(
                            *old(state),
                            *final(state),
                            Touched { objects: true, players: true, exile: true, waiting_for: true, ..touch_none() },
                        )
                        &&& final(events)@ == old(events)@ + zone_events(exiled, Zone::Library, Zone::Exile)
                            + seq![resolved]
                    } else {
                        let back = final(state).pv(c).library;
                        &&& oviews(final(state).objects@) == oviews(old(state).objects@)
                        &&& pviews(final(state).players@) == pviews(old(state).players@).update(
                            c.0 as int,
                            PlayerView { library: back, ..old(state).pv(c) },
                        )
                        &&& back.to_multiset() == lib.to_multiset()
                        &&& back.len() == lib.len()
                        &&& final(state).exile@ == old(state).exile@
                        &&& frame(
                            *old(state),
                            *final(state),
                            Touched { objects: true, players: true, exile: true, rng: true, ..touch_none() },
                        )
                        &&& final(events)@ == old(events)@ + zone_events(lib, Zone::Library, Zone::Exile) + seq![
                            resolved,
                        ] + zone_events(back, Zone::Exile, Zone::Library)
                    }
                }
            },
            _ => {
                &&& is_invalid_param(r, "Expected Discover"@)
                &&& frame(*old(state), *final(state), touch_none())
                &&& final(events)@ == old(events)@
            },
        },
{
    let limit_expr = match &ability.effect {
        Effect::Discover { mana_value_limit } => mana_value_limit,
        _ => return Err(EffectError::InvalidParam(string_of("Expected Discover"))),
    };
    let limit = resolve_count(state, limit_expr, ctx_of(ability));
    let c = ability.controller;
    if c.0 as usize >= state.players.len() {
        return Err(EffectError::PlayerNotFound);
    }
    let ghost s0 = *state;
    let ghost ev0 = events@;
    let ghost lib = s0.pv(c).library;
    let ghost pred = hit_pred(s0, limit as nat);
    let ci = c.0 as usize;
    let n = state.players[ci].library.len();
    let exile_len = state.exile.len();
    proof {
        assert(zone_list_ok(s0.players@[ci as int].library@, s0.objects@, Zone::Library));
        assert(oviews(s0.objects@) =~= exiled_views(oviews(s0.objects@), lib.take(0), false));
        assert(lib.skip(0) =~= lib);
        assert(pviews(s0.players@)[ci as int] == s0.pv(c));
        assert(pviews(s0.players@) =~= pviews(s0.players@).update(ci as int, PlayerView { library: lib.skip(0), ..s0.pv(c) }));
        assert(s0.exile@ =~= s0.exile@ + lib.take(0));
        assert(events@ =~= ev0 + zone_events(lib.take(0), Zone::Library, Zone::Exile));
    }
    let mut misses: Vec<ObjectId> = Vec::new();
    let mut hit: Option<ObjectId> = None;
    let mut j: usize = 0;
    while j < n && hit.is_none()
        invariant
            j <= n == lib.len(),
            s0.wf(),
            state.wf(),
            ci as int == c.0 as int,
            s0.has_player(c),
            state.players@.len() == s0.players@.len(),
            state.objects@.len() == s0.objects@.len(),
            zone_list_ok(lib, s0.objects@, Zone::Library),
            lib == s0.pv(c).library,
            pred == hit_pred(s0, limit as nat),
            hit is None ==> misses@ == lib.take(j as int),
            hit is None ==> forall|m: int| 0 <= m < j ==> !pred(#[trigger] lib[m]),
            hit matches Some(x) ==> j >= 1 && x == lib[j - 1] && pred(x) && misses@ == lib.take(j - 1)
                && forall|m: int| 0 <= m < j - 1 ==> !pred(#[trigger] lib[m]),
            oviews(state.objects@) == exiled_views(oviews(s0.objects@), lib.take(j as int), false),
            pviews(state.players@) == pviews(s0.players@).update(
                ci as int,
                PlayerView { library: lib.skip(j as int), ..s0.pv(c) },
            ),
            state.exile@ == s0.exile@ + lib.take(j as int),
            state.exile@.len() >= exile_len == s0.exile@.len(),
            frame(s0, *state, Touched { objects: true, players: true, exile: true, ..touch_none() }),
            events@ == ev0 + zone_events(lib.take(j as int), Zone::Library, Zone::Exile),
        decreases n - j,
    {
        let ghost before = *state;
        proof {
            assert(state.pv(c) == pviews(state.players@)[ci as int]);
            assert(state.pv(c).library == lib.skip(j as int));
        }
        let x = move_top_of_library(state, c, Zone::Exile);
        events.push(GameEvent::ZoneChanged { object_id: x, from: Some(Zone::Library), to: Zone::Exile });
        let ghost mid = *state;
        proof {
            assert(top_moved(before, mid, c, Zone::Exile, x));
            assert(x == lib[j as int]);
            assert(oviews(mid.objects@).len() == mid.objects@.len());
            assert(oviews(before.objects@).len() == before.objects@.len());
            assert(x.0 < s0.objects@.len());
            assert(!lib.take(j as int).contains(x)) by {
                if lib.take(j as int).contains(x) {
                    let m = choose|m: int| 0 <= m < j && lib.take(j as int)[m] == x;
                    assert(lib[m] == lib[j as int]);
                }
            }
            let os0 = oviews(s0.objects@);
            assert(oviews(before.objects@)[x.0 as int] == os0[x.0 as int]);
            assert(lib.take(j + 1) =~= lib.take(j as int).push(x));
            assert forall|m: int| 0 <= m < s0.objects@.len() implies oviews(state.objects@)[m]
                == exiled_views(os0, lib.take(j + 1), false)[m] by {
                crate::seqs::lemma_contains_push(lib.take(j as int), x, ObjectId(m as u64));
                if m == x.0 as int {
                    assert(ObjectId(m as u64) == x);
                } else {
                    assert(ObjectId(m as u64) != x);
                    assert(oviews(mid.objects@)[m] == oviews(before.objects@)[m]);
                }
            }
            assert(oviews(state.objects@) =~= exiled_views(os0, lib.take(j + 1), false));
            assert(lib.skip(j as int).skip(1) =~= lib.skip(j + 1));
            assert(pviews(state.players@) =~= pviews(s0.players@).update(
                ci as int,
                PlayerView { library: lib.skip(j + 1), ..s0.pv(c) },
            ));
            assert(state.exile@ =~= s0.exile@ + lib.take(j + 1));
            assert(zone_events(lib.take(j + 1), Zone::Library, Zone::Exile) =~= zone_events(
                lib.take(j as int),
                Zone::Library,
                Zone::Exile,
            ).push(GameEvent::ZoneChanged { object_id: x, from: Some(Zone::Library), to: Zone::Exile }));
        }
        let nobj = state.objects.len();
        assert(x.0 < nobj);
        let xi = x.0 as usize;
        let is_land = contains_core(&state.objects[xi].card_types.core_types, CoreType::Land);
        let mv = state.objects[xi].mana_cost.mana_value();
        let is_hit = !is_land && (mv as u64) <= limit;
        proof {
            assert(ObjectId(xi as u64) == x);
            assert(lib.take(j + 1).contains(x)) by {
                assert(lib.take(j + 1)[j as int] == x);
            }
            assert(oviews(state.objects@)[xi as int] == state.objects@[xi as int]@);
            assert(state.objects@[xi as int]@ == ObjectView { zone: Zone::Exile, ..oviews(s0.objects@)[xi as int] });
            assert(is_hit == pred(x));
        }
        if is_hit {
            hit = Some(x);
        } else {
            misses.push(x);
            proof {
                assert(misses@ =~= lib.take(j + 1));
            }
        }
        j = j + 1;
    }
    let ghost before_resolved = events@;
    events.push(GameEvent::EffectResolved { kind: EffectKind::Discover, source_id: ability.source_id });
    match hit {
        Some(x) => {
            proof {
                lemma_first_index_found(lib, pred, (j - 1) as int);
            }
            state.waiting_for = WaitingFor::CastOffer {
                player: c,
                kind: CastOfferKind::Discover { hit_card: x, exiled_misses: misses },
            };
            assert(events@ =~= ev0 + zone_events(lib.take(j as int), Zone::Library, Zone::Exile) + seq![
                GameEvent::EffectResolved { kind: EffectKind::Discover, source_id: ability.source_id },
            ]);
            Ok(())
        },
        None => {
            proof {
                lemma_first_index_none(lib, pred);
                assert(lib.take(j as int) =~= lib);
                assert(lib.skip(j as int) =~= Seq::<ObjectId>::empty());
            }
            let ghost s1 = *state;
            let ghost ev1 = events@;
            shuffle_in_place(&mut misses, &mut state.rng);
            state.exile.truncate(exile_len);
            let ghost sh = misses@;
            proof {
                assert(state.exile@ =~= s0.exile@);
                lib.lemma_multiset_has_no_duplicates();
                assert forall|y: ObjectId| sh.to_multiset().contains(y) implies sh.to_multiset().count(y) == 1 by {}
                sh.lemma_multiset_has_no_duplicates_conv();
                assert(sh.len() == lib.len());
                assert(pviews(state.players@) == pviews(s0.players@).update(
                    ci as int,
                    PlayerView { library: Seq::empty(), ..s0.pv(c) },
                ));
                assert(sh.take(0) =~= Seq::<ObjectId>::empty());
                assert(events@ =~= ev1 + zone_events(sh.take(0), Zone::Exile, Zone::Library));
                assert forall|m: int| 0 <= m < s0.objects@.len() implies #[trigger] oviews(state.objects@)[m] == if sh.take(0).contains(
                    ObjectId(m as u64),
                ) || !lib.contains(ObjectId(m as u64)) {
                    oviews(s0.objects@)[m]
                } else {
                    ObjectView { zone: Zone::Exile, ..oviews(s0.objects@)[m] }
                } by {
                    assert(!sh.take(0).contains(ObjectId(m as u64)));
                }
            }
            // The state is well formed again: the exile list is as it was.
            proof {
                assert(zone_list_ok(state.exile@, state.objects@, Zone::Exile)) by {
                    assert(zone_list_ok(s1.exile@, s1.objects@, Zone::Exile));
                    assert forall|m: int| 0 <= m < state.exile@.len() implies state.objects@[(#[trigger] state.exile@[m]).0 as int].zone == Zone::Exile by {
                        assert(state.exile@[m] == s1.exile@[m]);
                    }
                    assert forall|a: int, b: int| 0 <= a < b < state.exile@.len() implies state.exile@[a] != state.exile@[b] by {
                        assert(state.exile@[a] == s1.exile@[a]);
                        assert(state.exile@[b] == s1.exile@[b]);
                    }
                }
                assert(state.wf());
            }
            let mut k: usize = 0;
            while k < misses.len()
                invariant
                    k <= misses@.len() == lib.len(),
                    sh == misses@,
                    sh.no_duplicates(),
                    sh.to_multiset() == lib.to_multiset(),
                    s0.wf(),
                    state.wf(),
                    ci as int == c.0 as int,
                    s0.has_player(c),
                    state.players@.len() == s0.players@.len(),
                    state.objects@.len() == s0.objects@.len(),
                    lib == s0.pv(c).library,
                    state.exile@ == s0.exile@,
                    pviews(state.players@) == pviews(s0.players@).update(
                        ci as int,
                        PlayerView { library: sh.take(k as int), ..s0.pv(c) },
                    ),
                    forall|m: int|
                        0 <= m < s0.objects@.len() ==> #[trigger] oviews(state.objects@)[m] == if sh.take(k as int).contains(
                            ObjectId(m as u64),
                        ) || !lib.contains(ObjectId(m as u64)) {
                            oviews(s0.objects@)[m]
                        } else {
                            ObjectView { zone: Zone::Exile, ..oviews(s0.objects@)[m] }
                        },
                    frame(s1, *state, Touched { objects: true, players: true, exile: true, rng: true, ..touch_none() }),
                    events@ == ev1 + zone_events(sh.take(k as int), Zone::Exile, Zone::Library),
                decreases misses@.len() - k,
            {
                let y = misses[k];
                let ghost before = *state;
                proof {
                    sh.to_multiset_ensures();
                    lib.to_multiset_ensures();
                    assert(sh[k as int] == y);
                    assert(sh.contains(y));
                    assert(sh.to_multiset().count(y) > 0);
                    assert(lib.contains(y));
                    lemma_library_member_elsewhere(s0, c, y);
                    assert(!sh.take(k as int).contains(y)) by {
                        if sh.take(k as int).contains(y) {
                            let m = choose|m: int| 0 <= m < k && sh.take(k as int)[m] == y;
                            assert(sh[m] == sh[k as int]);
                        }
                    }
                    assert(state.pv(c) == pviews(state.players@)[ci as int]);
                    assert forall|q: int| 0 <= q < state.players@.len() implies {
                        &&& !(#[trigger] state.players@[q]).library@.contains(y)
                        &&& !state.players@[q].hand@.contains(y)
                        &&& !state.players@[q].graveyard@.contains(y)
                    } by {
                        if q == ci as int {
                            assert(state.players@[q].library@ == sh.take(k as int));
                            assert(state.players@[q].hand@ == s0.players@[q].hand@);
                            assert(state.players@[q].graveyard@ == s0.players@[q].graveyard@);
                        } else {
                            assert(pviews(state.players@)[q] == pviews(s0.players@)[q]);
                            assert(state.players@[q].library@ == s0.players@[q].library@);
                            assert(state.players@[q].hand@ == s0.players@[q].hand@);
                            assert(state.players@[q].graveyard@ == s0.players@[q].graveyard@);
                        }
                    }
                    assert(unlisted(*state, y));
                    assert(oviews(state.objects@)[y.0 as int].owner == c);
                }
                put_on_library_bottom(state, y, c);
                events.push(GameEvent::ZoneChanged { object_id: y, from: Some(Zone::Exile), to: Zone::Library });
                proof {
                    assert(oviews(state.objects@).len() == state.objects@.len());
                    assert(oviews(before.objects@).len() == before.objects@.len());
                    assert(sh.take(k + 1) =~= sh.take(k as int).push(y));
                    assert forall|m: int| 0 <= m < s0.objects@.len() implies #[trigger] oviews(state.objects@)[m] == if sh.take(k + 1).contains(
                        ObjectId(m as u64),
                    ) || !lib.contains(ObjectId(m as u64)) {
                        oviews(s0.objects@)[m]
                    } else {
                        ObjectView { zone: Zone::Exile, ..oviews(s0.objects@)[m] }
                    } by {
                        crate::seqs::lemma_contains_push(sh.take(k as int), y, ObjectId(m as u64));
                        if m == y.0 as int {
                            assert(ObjectId(m as u64) == y);
                        } else {
                            assert(ObjectId(m as u64) != y);
                            assert(oviews(state.objects@)[m] == oviews(before.objects@)[m]);
                        }
                    }
                    assert(pviews(state.players@) =~= pviews(s0.players@).update(
                        ci as int,
                        PlayerView { library: sh.take(k + 1), ..s0.pv(c) },
                    ));
                    assert(zone_events(sh.take(k + 1), Zone::Exile, Zone::Library) =~= zone_events(
                        sh.take(k as int),
                        Zone::Exile,
                        Zone::Library,
                    ).push(GameEvent::ZoneChanged { object_id: y, from: Some(Zone::Exile), to: Zone::Library }));
                }
                k = k + 1;
            }
            proof {
                assert(sh.take(k as int) =~= sh);
                sh.to_multiset_ensures();
                lib.to_multiset_ensures();
                assert forall|m: int| 0 <= m < s0.objects@.len() implies oviews(state.objects@)[m] == oviews(s0.objects@)[m] by {
                    if lib.contains(ObjectId(m as u64)) {
                        assert(lib.to_multiset().count(ObjectId(m as u64)) > 0);
                        assert(sh.contains(ObjectId(m as u64)));
                    }
                }
                assert(oviews(state.objects@) =~= oviews(s0.objects@));
                assert(state.pv(c) == pviews(state.players@)[ci as int]);
                assert(state.pv(c).library == sh);
                assert(events@ =~= ev0 + zone_events(lib, Zone::Library, Zone::Exile) + seq![
                    GameEvent::EffectResolved { kind: EffectKind::Discover, source_id: ability.source_id },
                ] + zone_events(sh, Zone::Exile, Zone::Library));
            }
            Ok(())
        },
    }
}

} // verus!
