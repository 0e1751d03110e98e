//! Creating objects and moving them between zones.

use vstd::prelude::*;

use crate::game::state::{
    frame, ids_below, oviews, owned_by, pviews, touch_none, zone_list_ok, CardTypeView, GameObject, GameState,
    ObjectView, PlayerView, Touched,
};
use crate::types::card::CardType;

use crate::types::identifiers::{CardId, ObjectId, PlayerId};
use crate::types::mana::{mana_value_of, ManaCost, ManaCostView};
use crate::types::zones::Zone;

verus! {

/// The zones that belong to a player (CR 400.3).
pub open spec fn is_player_zone(z: Zone) -> bool {
    z == Zone::Library || z == Zone::Hand || z == Zone::Graveyard
}

/// The view of an object just created: controlled by its owner, untapped,
/// face up, not a token, with no characteristics but its name.
pub open spec fn fresh_view(
    id: ObjectId,
    card_id: CardId,
    owner: PlayerId,
    name: Seq<char>,
    zone: Zone,
) -> ObjectView {
    ObjectView {
        id,
        card_id,
        owner,
        controller: owner,
        name,
        zone,
        tapped: false,
        face_down: false,
        is_token: false,
        phased_out: false,
        phased_out_indirectly: false,
        power: None,
        toughness: None,
        card_types: CardTypeView {
            supertypes: Seq::empty(),
            core_types: Seq::empty(),
            subtypes: Seq::empty(),
        },
        mana_cost: ManaCostView::NoCost,
        color: Seq::empty(),
        keywords: Seq::empty(),
        base_keywords: Seq::empty(),
        goaded_by: Seq::empty(),
        plus_one_counters: 0,
        attached_to: None,
        replacement_definitions: Seq::empty(),
        chosen_color: None,
        abilities: Seq::empty(),
        back_face: None,
        entered_battlefield_turn: None,
        links_exiled_cards: false,
    }
}

/// The parts of the state that putting a new object into `zone` changes.
pub open spec fn touch_zone(zone: Zone) -> Touched {
    Touched {
        objects: true,
        players: is_player_zone(zone),
        battlefield: zone == Zone::Battlefield,
        exile: zone == Zone::Exile,
        stack_objects: zone == Zone::Stack,
        command: zone == Zone::Command,
        ..touch_none()
    }
}

/// `b`'s zone lists are `a`'s with `id` added at the end of `zone`'s list
/// (the bottom, for a library).
pub open spec fn added_to_zone(a: GameState, b: GameState, id: ObjectId, owner: PlayerId, zone: Zone) -> bool {
    if is_player_zone(zone) && !a.has_player(owner) {
        b.players@ == a.players@
    } else {
        match zone {
        Zone::Library => pviews(b.players@) == pviews(a.players@).update(
            owner.0 as int,
            PlayerView { library: a.pv(owner).library.push(id), ..a.pv(owner) },
        ),
        Zone::Hand => pviews(b.players@) == pviews(a.players@).update(
            owner.0 as int,
            PlayerView { hand: a.pv(owner).hand.push(id), ..a.pv(owner) },
        ),
        Zone::Graveyard => pviews(b.players@) == pviews(a.players@).update(
            owner.0 as int,
            PlayerView { graveyard: a.pv(owner).graveyard.push(id), ..a.pv(owner) },
        ),
        Zone::Battlefield => b.battlefield@ == a.battlefield@.push(id),
        Zone::Exile => b.exile@ == a.exile@.push(id),
        Zone::Stack => b.stack_objects@ == a.stack_objects@.push(id),
        Zone::Command => b.command@ == a.command@.push(id),
        }
    }
}

/// The list of `zone` (the owner's, for a player's zone).
pub open spec fn zone_list(s: GameState, owner: PlayerId, zone: Zone) -> Seq<ObjectId> {
    match zone {
        Zone::Library => s.pv(owner).library,
        Zone::Hand => s.pv(owner).hand,
        Zone::Graveyard => s.pv(owner).graveyard,
        Zone::Battlefield => s.battlefield@,
        Zone::Exile => s.exile@,
        Zone::Stack => s.stack_objects@,
        Zone::Command => s.command@,
    }
}

proof fn lemma_zone_list_push(ids: Seq<ObjectId>, objects: Seq<GameObject>, z: Zone, id: ObjectId)
    requires
        zone_list_ok(ids, objects, z),
        id.0 < objects.len(),
        objects[id.0 as int].zone == z,
        !ids.contains(id),
    ensures
        zone_list_ok(ids.push(id), objects, z),
{
    assert forall|j: int| 0 <= j < ids.push(id).len() implies (#[trigger] ids.push(id)[j]).0 < objects.len()
        && objects[ids.push(id)[j].0 as int].zone == z by {
        if j < ids.len() {
            assert(ids.push(id)[j] == ids[j]);
        }
    }
    assert forall|a: int, b: int| 0 <= a < b < ids.push(id).len() implies ids.push(id)[a] != ids.push(id)[b] by {
        if b == ids.len() {
            assert(ids.push(id)[a] == ids[a]);
        }
    }
}

/// Append `id` to the list of `zone` (to the bottom of the owner's library
/// for `Library`). The object must be in that zone and not yet listed.
pub fn push_to_zone_list(state: &mut GameState, id: ObjectId, owner: PlayerId, zone: Zone)
    requires
        old(state).wf(),
        id.0 < old(state).objects@.len(),
        old(state).objects@[id.0 as int].zone == zone,
        is_player_zone(zone) ==> old(state).has_player(owner),
        is_player_zone(zone) ==> old(state).objects@[id.0 as int].owner == owner,
        !zone_list(*old(state), owner, zone).contains(id),
    ensures
        final(state).wf(),
        frame(*old(state), *final(state), Touched { objects: false, ..touch_zone(zone) }),
        added_to_zone(*old(state), *final(state), id, owner, zone),
{
    let ghost s0 = *state;
    match zone {
        Zone::Library => {
            let p = owner.0 as usize;
            state.players[p].library.push(id);
        },
        Zone::Hand => {
            let p = owner.0 as usize;
            state.players[p].hand.push(id);
        },
        Zone::Graveyard => {
            let p = owner.0 as usize;
            state.players[p].graveyard.push(id);
        },
        Zone::Battlefield => state.battlefield.push(id),
        Zone::Exile => state.exile.push(id),
        Zone::Stack => state.stack_objects.push(id),
        Zone::Command => state.command.push(id),
    }
    proof {
        lemma_zone_list_push(zone_list(s0, owner, zone), s0.objects@, zone, id);
        if is_player_zone(zone) {
            assert(pviews(state.players@) =~= pviews(s0.players@).update(
                owner.0 as int,
                state.players@[owner.0 as int]@,
            ));
            let l = zone_list(s0, owner, zone);
            assert forall|j: int| 0 <= j < l.push(id).len() implies state.objects@[(#[trigger] l.push(id)[j]).0 as int].owner == owner by {
                if j < l.len() {
                    assert(l.push(id)[j] == l[j]);
                }
            }
            assert forall|i: int| 0 <= i < state.players@.len() implies {
                &&& zone_list_ok((#[trigger] state.players@[i]).library@, state.objects@, Zone::Library)
                &&& zone_list_ok(state.players@[i].hand@, state.objects@, Zone::Hand)
                &&& zone_list_ok(state.players@[i].graveyard@, state.objects@, Zone::Graveyard)
                &&& owned_by(state.players@[i].library@, state.objects@, PlayerId(i as u8))
                &&& owned_by(state.players@[i].hand@, state.objects@, PlayerId(i as u8))
                &&& owned_by(state.players@[i].graveyard@, state.objects@, PlayerId(i as u8))
            } by {
                if i != owner.0 as int {
                    assert(state.players@[i] == s0.players@[i]);
                } else {
                    assert(owner == PlayerId(i as u8));
                }
            }
        }
    }
}

/// CR 400.7: create a new object with the given card, owner and name in the
/// given zone; it is added at the end of that zone's list (the bottom, for a
/// library). Its id is the next free one.
pub fn create_object(
    state: &mut GameState,
    card_id: CardId,
    owner: PlayerId,
    name: String,
    zone: Zone,
) -> (id: ObjectId)
    requires
        old(state).wf(),
    ensures
        final(state).wf(),
        id == ObjectId(old(state).objects@.len() as u64),
        oviews(final(state).objects@) == oviews(old(state).objects@).push(
            fresh_view(id, card_id, owner, name@, zone),
        ),
        frame(*old(state), *final(state), touch_zone(zone)),
        added_to_zone(*old(state), *final(state), id, owner, zone),
{
    let ghost s0 = *state;
    let n = state.objects.len();
    let id = ObjectId(n as u64);
    let obj = GameObject {
        id,
        card_id,
        owner,
        controller: owner,
        name,
        zone,
        tapped: false,
        face_down: false,
        is_token: false,
        phased_out: false,
        phased_out_indirectly: false,
        power: None,
        toughness: None,
        card_types: CardType { supertypes: Vec::new(), core_types: Vec::new(), subtypes: Vec::new() },
        mana_cost: ManaCost::NoCost,
        color: Vec::new(),
        keywords: Vec::new(),
        base_keywords: Vec::new(),
        goaded_by: Vec::new(),
        plus_one_counters: 0,
        attached_to: None,
        replacement_definitions: Vec::new(),
        chosen_color: None,
        abilities: Vec::new(),
        back_face: None,
        entered_battlefield_turn: None,
        links_exiled_cards: false,
    };
    state.objects.push(obj);
    let _len = state.objects.len();
    proof {
        assert(oviews(state.objects@) =~= oviews(s0.objects@).push(
            fresh_view(id, card_id, owner, state.objects@[n as int].name@, zone),
        ));
        assert(state.objects@.take(n as int) =~= s0.objects@);
        lemma_wf_push_object(s0, *state);
        let l = zone_list(s0, owner, zone);
        if l.contains(id) && (!is_player_zone(zone) || s0.has_player(owner)) {
            let j = choose|j: int| 0 <= j < l.len() && l[j] == id;
            if is_player_zone(zone) {
                assert(zone_list_ok(s0.players@[owner.0 as int].library@, s0.objects@, Zone::Library));
                assert(zone_list_ok(s0.players@[owner.0 as int].hand@, s0.objects@, Zone::Hand));
                assert(zone_list_ok(s0.players@[owner.0 as int].graveyard@, s0.objects@, Zone::Graveyard));
                assert(l[j].0 < n);
            } else {
                assert(l[j].0 < n);
            }
        }
    }
    if !is_player_zone_exec(zone) || (owner.0 as usize) < state.players.len() {
        push_to_zone_list(state, id, owner, zone);
    }
    id
}

fn is_player_zone_exec(z: Zone) -> (r: bool)
    ensures
        r == is_player_zone(z),
{
    match z {
        Zone::Library | Zone::Hand | Zone::Graveyard => true,
        _ => false,
    }
}

/// Adding an object that is in no zone list keeps the state well formed.
proof fn lemma_wf_push_object(a: GameState, b: GameState)
    requires
        a.wf(),
        b.objects@.len() == a.objects@.len() + 1,
        b.objects@.len() <= u64::MAX,
        b.objects@.take(a.objects@.len() as int) == a.objects@,
        b.objects@.last().id == ObjectId(a.objects@.len() as u64),
        mana_value_of(b.objects@.last().mana_cost@) <= u32::MAX,
        b.players@ == a.players@,
        b.battlefield@ == a.battlefield@,
        b.exile@ == a.exile@,
        b.stack_objects@ == a.stack_objects@,
        b.command@ == a.command@,
    ensures
        b.wf(),
{
    let n = a.objects@.len();
    assert forall|i: int| 0 <= i < n implies (#[trigger] b.objects@[i]) == a.objects@[i] by {
        assert(b.objects@.take(n as int)[i] == b.objects@[i]);
    }
    assert forall|i: int| 0 <= i < b.objects@.len() implies (#[trigger] b.objects@[i]).id == ObjectId(i as u64)
        && mana_value_of(b.objects@[i].mana_cost@) <= u32::MAX by {
        if i < n {
            assert(b.objects@[i] == a.objects@[i]);
        }
    }
    assert forall|ids: Seq<ObjectId>, z: Zone| zone_list_ok(ids, a.objects@, z) implies #[trigger] zone_list_ok(ids, b.objects@, z) by {
        assert forall|j: int| 0 <= j < ids.len() implies (#[trigger] ids[j]).0 < b.objects@.len()
            && b.objects@[ids[j].0 as int].zone == z by {
            assert(ids[j].0 < n);
            assert(b.objects@[ids[j].0 as int] == a.objects@[ids[j].0 as int]);
        }
    }
    assert forall|ids: Seq<ObjectId>, p: PlayerId| owned_by(ids, a.objects@, p) && ids_below(ids, a.objects@.len()) implies #[trigger] owned_by(ids, b.objects@, p) by {
        assert forall|j: int| 0 <= j < ids.len() implies b.objects@[(#[trigger] ids[j]).0 as int].owner == p by {
            assert(ids[j].0 < n);
            assert(b.objects@[ids[j].0 as int] == a.objects@[ids[j].0 as int]);
        }
    }
    assert forall|i: int| 0 <= i < b.players@.len() implies {
        &&& zone_list_ok((#[trigger] b.players@[i]).library@, b.objects@, Zone::Library)
        &&& zone_list_ok(b.players@[i].hand@, b.objects@, Zone::Hand)
        &&& zone_list_ok(b.players@[i].graveyard@, b.objects@, Zone::Graveyard)
        &&& owned_by(b.players@[i].library@, b.objects@, PlayerId(i as u8))
        &&& owned_by(b.players@[i].hand@, b.objects@, PlayerId(i as u8))
        &&& owned_by(b.players@[i].graveyard@, b.objects@, PlayerId(i as u8))
    } by {
        assert(b.players@[i] == a.players@[i]);
        assert(zone_list_ok(a.players@[i].library@, a.objects@, Zone::Library));
        assert(zone_list_ok(a.players@[i].hand@, a.objects@, Zone::Hand));
        assert(zone_list_ok(a.players@[i].graveyard@, a.objects@, Zone::Graveyard));
    }
    assert(zone_list_ok(a.battlefield@, a.objects@, Zone::Battlefield));
    assert(zone_list_ok(a.exile@, a.objects@, Zone::Exile));
    assert(zone_list_ok(a.stack_objects@, a.objects@, Zone::Stack));
    assert(zone_list_ok(a.command@, a.objects@, Zone::Command));
}

/// A list stays a zone list when only an object it does not name changed.
pub proof fn lemma_zone_list_other_changed(ids: Seq<ObjectId>, a: Seq<GameObject>, b: Seq<GameObject>, z: Zone, x: int)
    requires
        zone_list_ok(ids, a, z),
        b.len() == a.len(),
        forall|i: int| 0 <= i < a.len() && i != x ==> (#[trigger] b[i]).zone == a[i].zone,
        !ids.contains(ObjectId(x as u64)),
        0 <= x < a.len(),
        forall|i: int| 0 <= i < a.len() ==> (#[trigger] a[i]).id == ObjectId(i as u64),
    ensures
        zone_list_ok(ids, b, z),
{
    assert forall|j: int| 0 <= j < ids.len() implies b[(#[trigger] ids[j]).0 as int].zone == z by {
        assert(ids[j].0 < a.len());
        if ids[j].0 as int == x {
            assert(ids[j] == ObjectId(x as u64));
        }
    }
}

/// Ownership of a list's objects survives a change to an object it does
/// not name, and to any object's fields but its owner.
pub proof fn lemma_owned_other_changed(ids: Seq<ObjectId>, a: Seq<GameObject>, b: Seq<GameObject>, p: PlayerId)
    requires
        owned_by(ids, a, p),
        ids_below(ids, a.len()),
        b.len() == a.len(),
        forall|i: int| 0 <= i < a.len() ==> (#[trigger] b[i]).owner == a[i].owner,
    ensures
        owned_by(ids, b, p),
{
    assert forall|j: int| 0 <= j < ids.len() implies b[(#[trigger] ids[j]).0 as int].owner == p by {
        assert(ids[j].0 < a.len());
    }
}

/// The parts of the state that moving a library's top card to `to` changes.
pub open spec fn touch_move(to: Zone) -> Touched {
    Touched {
        objects: true,
        players: true,
        battlefield: to == Zone::Battlefield,
        exile: to == Zone::Exile,
        stack_objects: to == Zone::Stack,
        command: to == Zone::Command,
        ..touch_none()
    }
}

/// `b` is `a` after the top card `x` of `p`'s library moved to `to`: it
/// left the library, joined the end of `to`'s list (of `p`'s, for a
/// player's zone), and its zone is `to`.
pub open spec fn top_moved(a: GameState, b: GameState, p: PlayerId, to: Zone, x: ObjectId) -> bool {
    let lib = a.pv(p).library;
    &&& lib.len() > 0 && x == lib[0]
    &&& oviews(b.objects@) == oviews(a.objects@).update(x.0 as int, ObjectView { zone: to, ..a.ov(x) })
    &&& pviews(b.players@) == pviews(a.players@).update(
        p.0 as int,
        PlayerView {
            library: lib.skip(1),
            hand: if to == Zone::Hand {
                a.pv(p).hand.push(x)
            } else {
                a.pv(p).hand
            },
            graveyard: if to == Zone::Graveyard {
                a.pv(p).graveyard.push(x)
            } else {
                a.pv(p).graveyard
            },
            ..a.pv(p)
        },
    )
    &&& to == Zone::Battlefield ==> b.battlefield@ == a.battlefield@.push(x)
    &&& to == Zone::Exile ==> b.exile@ == a.exile@.push(x)
    &&& to == Zone::Stack ==> b.stack_objects@ == a.stack_objects@.push(x)
    &&& to == Zone::Command ==> b.command@ == a.command@.push(x)
    &&& frame(a, b, touch_move(to))
}

/// Move the top card of `p`'s library to the end of `to`'s list, and put it
/// in that zone.
#[verifier::rlimit(40)]
pub fn move_top_of_library(state: &mut GameState, p: PlayerId, to: Zone) -> (x: ObjectId)
    requires
        old(state).wf(),
        old(state).has_player(p),
        old(state).pv(p).library.len() > 0,
        to != Zone::Library,
    ensures
        final(state).wf(),
        top_moved(*old(state), *final(state), p, to, x),
{
    let ghost s0 = *state;
    let pi = p.0 as usize;
    let x = state.players[pi].library.remove(0);
    let ghost lib = s0.pv(p).library;
    proof {
        assert(lib[0] == x);
        assert(zone_list_ok(s0.players@[pi as int].library@, s0.objects@, Zone::Library));
        assert(owned_by(s0.players@[pi as int].library@, s0.objects@, PlayerId(pi as u8)));
        assert(s0.players@[pi as int].id == PlayerId(pi as u8));
        assert(x.0 < s0.objects@.len());
        assert(state.players@[pi as int].library@ =~= lib.skip(1));
        assert(s0.objects@[x.0 as int].zone == Zone::Library);
        assert(s0.objects@[x.0 as int].owner == p);
    }
    let nobj = state.objects.len();
    assert(x.0 < nobj);
    let xi = x.0 as usize;
    assert(xi as int == x.0 as int);
    let ghost raw = state.objects@;
    assert(raw == s0.objects@);
    state.objects[xi].zone = to;
    let ghost s1 = *state;
    proof {
        assert(state.objects@ == raw.update(xi as int, GameObject { zone: to, ..raw[xi as int] }));
        assert forall|i: int| 0 <= i < s1.objects@.len() implies (#[trigger] s1.objects@[i]).owner == s0.objects@[i].owner
            && s1.objects@[i].id == s0.objects@[i].id
            && s1.objects@[i].mana_cost@ == s0.objects@[i].mana_cost@
            && (i != xi ==> s1.objects@[i].zone == s0.objects@[i].zone) by {}
        // x is named by no list of the intermediate state.
        assert forall|q: int| 0 <= q < s1.players@.len() implies {
            &&& zone_list_ok((#[trigger] s1.players@[q]).library@, s1.objects@, Zone::Library)
            &&& zone_list_ok(s1.players@[q].hand@, s1.objects@, Zone::Hand)
            &&& zone_list_ok(s1.players@[q].graveyard@, s1.objects@, Zone::Graveyard)
            &&& owned_by(s1.players@[q].library@, s1.objects@, PlayerId(q as u8))
            &&& owned_by(s1.players@[q].hand@, s1.objects@, PlayerId(q as u8))
            &&& owned_by(s1.players@[q].graveyard@, s1.objects@, PlayerId(q as u8))
            &&& !s1.players@[q].library@.contains(x)
            &&& !s1.players@[q].hand@.contains(x)
            &&& !s1.players@[q].graveyard@.contains(x)
        } by {
            let a = s0.players@[q];
            let b = s1.players@[q];
            assert(zone_list_ok(a.library@, s0.objects@, Zone::Library));
            assert(zone_list_ok(a.hand@, s0.objects@, Zone::Hand));
            assert(zone_list_ok(a.graveyard@, s0.objects@, Zone::Graveyard));
            assert(owned_by(a.library@, s0.objects@, PlayerId(q as u8)));
            if q != pi as int {
                assert(b == a);
                assert(PlayerId(q as u8) != p);
                if a.library@.contains(x) {
                    let j = choose|j: int| 0 <= j < a.library@.len() && a.library@[j] == x;
                    assert(s0.objects@[a.library@[j].0 as int].owner == PlayerId(q as u8));
                }
            } else {
                if b.library@.contains(x) {
                    let j = choose|j: int| 0 <= j < b.library@.len() && b.library@[j] == x;
                    assert(b.library@[j] == lib[j + 1]);
                    assert(lib[0] == lib[j + 1]);
                }
                assert forall|j: int| 0 <= j < b.library@.len() implies (#[trigger] b.library@[j]).0 < s1.objects@.len()
                    && s1.objects@[b.library@[j].0 as int].zone == Zone::Library
                    && s1.objects@[b.library@[j].0 as int].owner == p by {
                    assert(b.library@[j] == lib[j + 1]);
                    assert(lib[0] != lib[j + 1]);
                }
                assert(b.library@.no_duplicates()) by {
                    assert forall|u: int, v: int| 0 <= u < v < b.library@.len() implies b.library@[u] != b.library@[v] by {
                        assert(b.library@[u] == lib[u + 1]);
                        assert(b.library@[v] == lib[v + 1]);
                    }
                }
            }
            if a.hand@.contains(x) {
                let j = choose|j: int| 0 <= j < a.hand@.len() && a.hand@[j] == x;
                assert(s0.objects@[a.hand@[j].0 as int].zone == Zone::Hand);
            }
            if a.graveyard@.contains(x) {
                let j = choose|j: int| 0 <= j < a.graveyard@.len() && a.graveyard@[j] == x;
                assert(s0.objects@[a.graveyard@[j].0 as int].zone == Zone::Graveyard);
            }
            assert(b.hand@ == a.hand@);
            assert(b.graveyard@ == a.graveyard@);
            lemma_zone_list_other_changed(a.hand@, s0.objects@, s1.objects@, Zone::Hand, xi as int);
            lemma_zone_list_other_changed(a.graveyard@, s0.objects@, s1.objects@, Zone::Graveyard, xi as int);
            if q != pi as int {
                lemma_zone_list_other_changed(a.library@, s0.objects@, s1.objects@, Zone::Library, xi as int);
            }
            lemma_owned_other_changed(b.library@, s0.objects@, s1.objects@, PlayerId(q as u8));
            lemma_owned_other_changed(a.hand@, s0.objects@, s1.objects@, PlayerId(q as u8));
            lemma_owned_other_changed(a.graveyard@, s0.objects@, s1.objects@, PlayerId(q as u8));
        }
        let lists = seq![s0.battlefield@, s0.exile@, s0.stack_objects@, s0.command@];
        let zones = seq![Zone::Battlefield, Zone::Exile, Zone::Stack, Zone::Command];
        assert forall|k: int| 0 <= k < 4 implies zone_list_ok(#[trigger] lists[k], s1.objects@, zones[k]) && !lists[k].contains(x) by {
            assert(zone_list_ok(lists[k], s0.objects@, zones[k]));
            if lists[k].contains(x) {
                let j = choose|j: int| 0 <= j < lists[k].len() && lists[k][j] == x;
                assert(s0.objects@[lists[k][j].0 as int].zone == zones[k]);
            }
            lemma_zone_list_other_changed(lists[k], s0.objects@, s1.objects@, zones[k], xi as int);
        }
        assert(lists[0] == s0.battlefield@);
        assert(lists[1] == s0.exile@);
        assert(lists[2] == s0.stack_objects@);
        assert(lists[3] == s0.command@);
        assert(s1.wf());
        assert(s1.players@[pi as int].id == p);
    }
    assert(state.objects@[x.0 as int].zone == to);
    push_to_zone_list(state, x, p, to);
    proof {
        assert(oviews(state.objects@) =~= oviews(s0.objects@).update(xi as int, ObjectView { zone: to, ..s0.ov(x) }));
        assert(pviews(s1.players@) =~= pviews(s0.players@).update(pi as int, PlayerView { library: lib.skip(1), ..s0.pv(p) }));
        assert(pviews(state.players@) =~= pviews(s0.players@).update(
            pi as int,
            PlayerView {
                library: lib.skip(1),
                hand: if to == Zone::Hand { s0.pv(p).hand.push(x) } else { s0.pv(p).hand },
                graveyard: if to == Zone::Graveyard { s0.pv(p).graveyard.push(x) } else { s0.pv(p).graveyard },
                ..s0.pv(p)
            },
        ));
    }
    x
}

/// No zone list of the state names `x`.
pub open spec fn unlisted(s: GameState, x: ObjectId) -> bool {
    &&& forall|q: int|
        0 <= q < s.players@.len() ==> {
            &&& !(#[trigger] s.players@[q]).library@.contains(x)
            &&& !s.players@[q].hand@.contains(x)
            &&& !s.players@[q].graveyard@.contains(x)
        }
    &&& !s.battlefield@.contains(x)
    &&& !s.exile@.contains(x)
    &&& !s.stack_objects@.contains(x)
    &&& !s.command@.contains(x)
}

/// Put `x`, which no zone list names, at the bottom of its owner `p`'s
/// library.
pub fn put_on_library_bottom(state: &mut GameState, x: ObjectId, p: PlayerId)
    requires
        old(state).wf(),
        old(state).has_player(p),
        old(state).has_obj(x),
        old(state).objects@[x.0 as int].owner == p,
        unlisted(*old(state), x),
    ensures
        final(state).wf(),
        oviews(final(state).objects@) == oviews(old(state).objects@).update(
            x.0 as int,
            ObjectView { zone: Zone::Library, ..old(state).ov(x) },
        ),
        pviews(final(state).players@) == pviews(old(state).players@).update(
            p.0 as int,
            PlayerView { library: old(state).pv(p).library.push(x), ..old(state).pv(p) },
        ),
        frame(*old(state), *final(state), Touched { objects: true, players: true, ..touch_none() }),
{
    let ghost s0 = *state;
    let nobj = state.objects.len();
    let xi = x.0 as usize;
    let ghost raw = state.objects@;
    state.objects[xi].zone = Zone::Library;
    proof {
        let s1 = *state;
        assert(s1.objects@ == raw.update(xi as int, GameObject { zone: Zone::Library, ..raw[xi as int] }));
        assert forall|q: int| 0 <= q < s1.players@.len() implies {
            &&& zone_list_ok((#[trigger] s1.players@[q]).library@, s1.objects@, Zone::Library)
            &&& zone_list_ok(s1.players@[q].hand@, s1.objects@, Zone::Hand)
            &&& zone_list_ok(s1.players@[q].graveyard@, s1.objects@, Zone::Graveyard)
            &&& owned_by(s1.players@[q].library@, s1.objects@, PlayerId(q as u8))
            &&& owned_by(s1.players@[q].hand@, s1.objects@, PlayerId(q as u8))
            &&& owned_by(s1.players@[q].graveyard@, s1.objects@, PlayerId(q as u8))
        } by {
            let a = s0.players@[q];
            assert(zone_list_ok(a.library@, s0.objects@, Zone::Library));
            assert(zone_list_ok(a.hand@, s0.objects@, Zone::Hand));
            assert(zone_list_ok(a.graveyard@, s0.objects@, Zone::Graveyard));
            lemma_zone_list_other_changed(a.library@, s0.objects@, s1.objects@, Zone::Library, xi as int);
            lemma_zone_list_other_changed(a.hand@, s0.objects@, s1.objects@, Zone::Hand, xi as int);
            lemma_zone_list_other_changed(a.graveyard@, s0.objects@, s1.objects@, Zone::Graveyard, xi as int);
            lemma_owned_other_changed(a.library@, s0.objects@, s1.objects@, PlayerId(q as u8));
            lemma_owned_other_changed(a.hand@, s0.objects@, s1.objects@, PlayerId(q as u8));
            lemma_owned_other_changed(a.graveyard@, s0.objects@, s1.objects@, PlayerId(q as u8));
        }
        lemma_zone_list_other_changed(s0.battlefield@, s0.objects@, s1.objects@, Zone::Battlefield, xi as int);
        lemma_zone_list_other_changed(s0.exile@, s0.objects@, s1.objects@, Zone::Exile, xi as int);
        lemma_zone_list_other_changed(s0.stack_objects@, s0.objects@, s1.objects@, Zone::Stack, xi as int);
        lemma_zone_list_other_changed(s0.command@, s0.objects@, s1.objects@, Zone::Command, xi as int);
        assert(s1.wf());
        assert(s1.players@[p.0 as int].library@ == s0.players@[p.0 as int].library@);
    }
    push_to_zone_list(state, x, p, Zone::Library);
    proof {
        assert(oviews(state.objects@) =~= oviews(s0.objects@).update(
            x.0 as int,
            ObjectView { zone: Zone::Library, ..s0.ov(x) },
        ));
    }
}

/// A card in `p`'s library is named by no other zone list.
pub proof fn lemma_library_member_elsewhere(s: GameState, p: PlayerId, y: ObjectId)
    requires
        s.wf(),
        s.has_player(p),
        s.pv(p).library.contains(y),
    ensures
        forall|q: int|
            0 <= q < s.players@.len() ==> {
                &&& (q != p.0 as int ==> !(#[trigger] s.players@[q]).library@.contains(y))
                &&& !s.players@[q].hand@.contains(y)
                &&& !s.players@[q].graveyard@.contains(y)
            },
        !s.battlefield@.contains(y),
        !s.exile@.contains(y),
        !s.stack_objects@.contains(y),
        !s.command@.contains(y),
        s.objects@[y.0 as int].zone == Zone::Library,
        s.objects@[y.0 as int].owner == p,
        y.0 < s.objects@.len(),
{
    let lib = s.players@[p.0 as int].library@;
    assert(zone_list_ok(lib, s.objects@, Zone::Library));
    assert(owned_by(lib, s.objects@, PlayerId(p.0 as u8)));
    let j = choose|j: int| 0 <= j < lib.len() && lib[j] == y;
    assert(s.objects@[lib[j].0 as int].zone == Zone::Library);
    assert forall|q: int| 0 <= q < s.players@.len() implies {
        &&& (q != p.0 as int ==> !(#[trigger] s.players@[q]).library@.contains(y))
        &&& !s.players@[q].hand@.contains(y)
        &&& !s.players@[q].graveyard@.contains(y)
    } by {
        let a = s.players@[q];
        assert(zone_list_ok(a.library@, s.objects@, Zone::Library));
        assert(zone_list_ok(a.hand@, s.objects@, Zone::Hand));
        assert(zone_list_ok(a.graveyard@, s.objects@, Zone::Graveyard));
        assert(owned_by(a.library@, s.objects@, PlayerId(q as u8)));
        if q != p.0 as int && a.library@.contains(y) {
            let m = choose|m: int| 0 <= m < a.library@.len() && a.library@[m] == y;
            assert(s.objects@[a.library@[m].0 as int].owner == PlayerId(q as u8));
        }
        if a.hand@.contains(y) {
            let m = choose|m: int| 0 <= m < a.hand@.len() && a.hand@[m] == y;
            assert(s.objects@[a.hand@[m].0 as int].zone == Zone::Hand);
        }
        if a.graveyard@.contains(y) {
            let m = choose|m: int| 0 <= m < a.graveyard@.len() && a.graveyard@[m] == y;
            assert(s.objects@[a.graveyard@[m].0 as int].zone == Zone::Graveyard);
        }
    }
    if s.battlefield@.contains(y) {
        let m = choose|m: int| 0 <= m < s.battlefield@.len() && s.battlefield@[m] == y;
        assert(s.objects@[s.battlefield@[m].0 as int].zone == Zone::Battlefield);
    }
    if s.exile@.contains(y) {
        let m = choose|m: int| 0 <= m < s.exile@.len() && s.exile@[m] == y;
        assert(s.objects@[s.exile@[m].0 as int].zone == Zone::Exile);
    }
    if s.stack_objects@.contains(y) {
        let m = choose|m: int| 0 <= m < s.stack_objects@.len() && s.stack_objects@[m] == y;
        assert(s.objects@[s.stack_objects@[m].0 as int].zone == Zone::Stack);
    }
    if s.command@.contains(y) {
        let m = choose|m: int| 0 <= m < s.command@.len() && s.command@[m] == y;
        assert(s.objects@[s.command@[m].0 as int].zone == Zone::Command);
    }
}

} // verus!
