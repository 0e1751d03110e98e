//! CR 702.26: phasing out and phasing in, of permanents and of players.

use vstd::prelude::*;

use crate::game::effects::{ability_ctx, lemma_wf_same_skeleton, matching_ids, matching_ids_of, object_targets, object_targets_of};
use crate::game::filter::{filter_admits, filter_admits_object, FilterContext};
use crate::game::state::{
    frame, owned_by, oviews, pviews, touch_none, zone_list_ok, AttachTarget, GameState, ObjectView, PhaseOutCause,
    PlayerView, Touched,
};
use crate::types::ability::{Effect, EffectError, EffectKind, ResolvedAbility, TargetFilter, TargetRef};
use crate::types::events::GameEvent;
use crate::types::identifiers::{ObjectId, PlayerId};
use crate::types::zones::Zone;

verus! {

/// The object at index `i` is a phased-in battlefield object.
pub open spec fn can_phase_out(os: Seq<ObjectView>, i: int) -> bool {
    0 <= i < os.len() && os[i].zone == Zone::Battlefield && !os[i].phased_out
}

/// The object at index `i` is attached to the object `x`.
pub open spec fn attached_to_obj(os: Seq<ObjectView>, i: int, x: ObjectId) -> bool {
    os[i].attached_to == Some(AttachTarget::Object(x))
}

/// CR 702.26a, CR 702.26g: phasing out `x` when it is a phased-in
/// battlefield object, directly or not as `cause` says; the phased-in
/// battlefield objects attached to it phase out with it, indirectly.
pub open spec fn phase_out_view(os: Seq<ObjectView>, x: ObjectId, cause: PhaseOutCause) -> Seq<ObjectView> {
    if can_phase_out(os, x.0 as int) {
        Seq::new(
            os.len(),
            |i: int|
                if i == x.0 {
                    ObjectView { phased_out: true, phased_out_indirectly: cause == PhaseOutCause::Indirectly, ..os[i] }
                } else if can_phase_out(os, i) && attached_to_obj(os, i, x) {
                    ObjectView { phased_out: true, phased_out_indirectly: true, ..os[i] }
                } else {
                    os[i]
                },
        )
    } else {
        os
    }
}

/// The reports of the objects among the first `n` that phase out with `x`,
/// by index.
pub open spec fn attached_out_events(os: Seq<ObjectView>, x: ObjectId, n: nat) -> Seq<GameEvent>
    decreases n,
{
    if n == 0 {
        Seq::empty()
    } else {
        let j = n - 1;
        attached_out_events(os, x, (n - 1) as nat) + if j != x.0 && can_phase_out(os, j) && attached_to_obj(
            os,
            j,
            x,
        ) {
            seq![GameEvent::PhasedOut { object_id: ObjectId(j as u64) }]
        } else {
            Seq::empty()
        }
    }
}

/// The reports of phasing out `x`: it, then what phases out with it.
pub open spec fn phase_out_events(os: Seq<ObjectView>, x: ObjectId) -> Seq<GameEvent> {
    if can_phase_out(os, x.0 as int) {
        seq![GameEvent::PhasedOut { object_id: x }] + attached_out_events(os, x, os.len())
    } else {
        Seq::empty()
    }
}

/// CR 702.26h: the object is attached to one of `set`; it phases out only
/// with its host, not directly.
pub open spec fn host_in(os: Seq<ObjectView>, x: ObjectId, set: Seq<ObjectId>) -> bool {
    0 <= x.0 < os.len() && (os[x.0 as int].attached_to matches Some(AttachTarget::Object(h)) && set.contains(h))
}

/// The objects after phasing out each of `ids` in turn, skipping those
/// attached to a host in `set`.
pub open spec fn objects_out(os: Seq<ObjectView>, ids: Seq<ObjectId>, set: Seq<ObjectId>) -> Seq<ObjectView>
    decreases ids.len(),
{
    if ids.len() == 0 {
        os
    } else {
        let prev = objects_out(os, ids.drop_last(), set);
        if host_in(prev, ids.last(), set) {
            prev
        } else {
            phase_out_view(prev, ids.last(), PhaseOutCause::Directly)
        }
    }
}

/// The reports of phasing out each of `ids` in turn.
pub open spec fn objects_out_events(os: Seq<ObjectView>, ids: Seq<ObjectId>, set: Seq<ObjectId>) -> Seq<GameEvent>
    decreases ids.len(),
{
    if ids.len() == 0 {
        Seq::empty()
    } else {
        let prev = objects_out(os, ids.drop_last(), set);
        objects_out_events(os, ids.drop_last(), set) + if host_in(prev, ids.last(), set) {
            Seq::empty()
        } else {
            phase_out_events(prev, ids.last())
        }
    }
}

/// The object at index `i` is phased out.
pub open spec fn can_phase_in(os: Seq<ObjectView>, i: int) -> bool {
    0 <= i < os.len() && os[i].phased_out
}

/// The object at index `i` phased out indirectly (CR 702.26g): it phases in
/// with its host, never on its own.
pub open spec fn phased_with_host(os: Seq<ObjectView>, i: int) -> bool {
    can_phase_in(os, i) && os[i].phased_out_indirectly
}

/// CR 702.26c, CR 702.26g: phasing in `x` when it is phased out; the
/// objects attached to it that phased out indirectly phase in with it.
pub open spec fn phase_in_view(os: Seq<ObjectView>, x: ObjectId) -> Seq<ObjectView> {
    if can_phase_in(os, x.0 as int) {
        Seq::new(
            os.len(),
            |i: int|
                if i == x.0 || (phased_with_host(os, i) && attached_to_obj(os, i, x)) {
                    ObjectView { phased_out: false, phased_out_indirectly: false, ..os[i] }
                } else {
                    os[i]
                },
        )
    } else {
        os
    }
}

/// The reports of the objects among the first `n` that phase in with `x`.
pub open spec fn attached_in_events(os: Seq<ObjectView>, x: ObjectId, n: nat) -> Seq<GameEvent>
    decreases n,
{
    if n == 0 {
        Seq::empty()
    } else {
        let j = n - 1;
        attached_in_events(os, x, (n - 1) as nat) + if j != x.0 && phased_with_host(os, j) && attached_to_obj(os, j, x) {
            seq![GameEvent::PhasedIn { object_id: ObjectId(j as u64) }]
        } else {
            Seq::empty()
        }
    }
}

/// The reports of phasing in `x`: it, then what phases in with it.
pub open spec fn phase_in_events(os: Seq<ObjectView>, x: ObjectId) -> Seq<GameEvent> {
    if can_phase_in(os, x.0 as int) {
        seq![GameEvent::PhasedIn { object_id: x }] + attached_in_events(os, x, os.len())
    } else {
        Seq::empty()
    }
}

/// The objects after phasing in each of `ids` in turn.
pub open spec fn objects_in(os: Seq<ObjectView>, ids: Seq<ObjectId>) -> Seq<ObjectView>
    decreases ids.len(),
{
    if ids.len() == 0 {
        os
    } else {
        phase_in_view(objects_in(os, ids.drop_last()), ids.last())
    }
}

/// The reports of phasing in each of `ids` in turn.
pub open spec fn objects_in_events(os: Seq<ObjectView>, ids: Seq<ObjectId>) -> Seq<GameEvent>
    decreases ids.len(),
{
    if ids.len() == 0 {
        Seq::empty()
    } else {
        objects_in_events(os, ids.drop_last()) + phase_in_events(objects_in(os, ids.drop_last()), ids.last())
    }
}

/// The players after each of `ps` in turn phases out (`out`) or in; a
/// player already so, or no player of the game, is skipped.
pub open spec fn players_phased(vs: Seq<PlayerView>, ps: Seq<PlayerId>, out: bool) -> Seq<PlayerView>
    decreases ps.len(),
{
    if ps.len() == 0 {
        vs
    } else {
        let prev = players_phased(vs, ps.drop_last(), out);
        let p = ps.last().0 as int;
        if p < prev.len() && prev[p].phased_out != out {
            prev.update(p, PlayerView { phased_out: out, ..prev[p] })
        } else {
            prev
        }
    }
}

/// The reports of the players of `ps` phasing out (`out`) or in.
pub open spec fn players_phased_events(vs: Seq<PlayerView>, ps: Seq<PlayerId>, out: bool) -> Seq<GameEvent>
    decreases ps.len(),
{
    if ps.len() == 0 {
        Seq::empty()
    } else {
        let prev = players_phased(vs, ps.drop_last(), out);
        let p = ps.last().0 as int;
        players_phased_events(vs, ps.drop_last(), out) + if p < prev.len() && prev[p].phased_out != out {
            if out {
                seq![GameEvent::PlayerPhasedOut { player: ps.last() }]
            } else {
                seq![GameEvent::PlayerPhasedIn { player: ps.last() }]
            }
        } else {
            Seq::empty()
        }
    }
}

/// The player targets of an ability, in order.
pub open spec fn player_targets(t: Seq<TargetRef>) -> Seq<PlayerId>
    decreases t.len(),
{
    if t.len() == 0 {
        Seq::empty()
    } else {
        player_targets(t.drop_last()) + match t.last() {
            TargetRef::Player(p) => seq![p],
            TargetRef::Object(_) => Seq::empty(),
        }
    }
}

/// The players an effect phases: its player targets; without any, those a
/// player filter names (the controller, or every player).
pub open spec fn phase_players(s: GameState, ab: ResolvedAbility, f: TargetFilter) -> Seq<PlayerId> {
    if player_targets(ab.targets@).len() > 0 {
        player_targets(ab.targets@)
    } else {
        match f {
            TargetFilter::Controller => seq![ab.controller],
            TargetFilter::Player => Seq::new(s.players@.len(), |i: int| PlayerId(i as u8)),
            _ => Seq::empty(),
        }
    }
}

/// The objects a phase-out effect acts on: its object targets; without any,
/// the phased-in battlefield objects its filter matches.
pub open spec fn phase_out_ids(s: GameState, ab: ResolvedAbility, f: TargetFilter) -> Seq<ObjectId> {
    if object_targets(ab.targets@).len() > 0 {
        object_targets(ab.targets@)
    } else {
        matching_ids(s, s.battlefield@, f, ability_ctx(ab))
    }
}

/// The phased-out objects among `ids` that the filter admits, in order.
pub open spec fn phased_out_matching(s: GameState, ids: Seq<ObjectId>, f: TargetFilter, ctx: FilterContext) -> Seq<
    ObjectId,
>
    decreases ids.len(),
{
    if ids.len() == 0 {
        Seq::empty()
    } else {
        let id = ids.last();
        phased_out_matching(s, ids.drop_last(), f, ctx) + if s.has_obj(id) && s.ov(id).phased_out && filter_admits(
            s,
            id,
            f,
            ctx,
        ) {
            seq![id]
        } else {
            Seq::empty()
        }
    }
}

/// CR 702.26b: the objects a phase-in effect acts on: its object targets;
/// without any, the phased-out battlefield objects its filter admits (the
/// filter is applied to the phased-out objects themselves).
pub open spec fn phase_in_ids(s: GameState, ab: ResolvedAbility, f: TargetFilter) -> Seq<ObjectId> {
    if object_targets(ab.targets@).len() > 0 {
        object_targets(ab.targets@)
    } else {
        phased_out_matching(s, s.battlefield@, f, ability_ctx(ab))
    }
}

fn player_targets_of(targets: &Vec<TargetRef>) -> (r: Vec<PlayerId>)
    ensures
        r@ == player_targets(targets@),
{
    let mut out: Vec<PlayerId> = Vec::new();
    let mut i: usize = 0;
    while i < targets.len()
        invariant
            i <= targets@.len(),
            out@ == player_targets(targets@.take(i as int)),
        decreases targets@.len() - i,
    {
        assert(targets@.take(i + 1).drop_last() =~= targets@.take(i as int));
        if let TargetRef::Player(p) = targets[i] {
            out.push(p);
        }
        assert(out@ =~= player_targets(targets@.take(i + 1)));
        i = i + 1;
    }
    assert(targets@.take(i as int) =~= targets@);
    out
}

fn phase_players_of(s: &GameState, ab: &ResolvedAbility, f: &TargetFilter) -> (r: Vec<PlayerId>)
    requires
        s.wf(),
    ensures
        r@ == phase_players(*s, *ab, *f),
{
    let explicit = player_targets_of(&ab.targets);
    if explicit.len() > 0 {
        return explicit;
    }
    let mut out: Vec<PlayerId> = Vec::new();
    match f {
        TargetFilter::Controller => {
            out.push(ab.controller);
            assert(out@ =~= seq![ab.controller]);
        },
        TargetFilter::Player => {
            let n = s.players.len();
            let mut i: usize = 0;
            while i < n
                invariant
                    n == s.players@.len(),
                    n <= 256,
                    i <= n,
                    out@ == Seq::new(i as nat, |j: int| PlayerId(j as u8)),
                decreases n - i,
            {
                out.push(PlayerId(i as u8));
                assert(out@ =~= Seq::new((i + 1) as nat, |j: int| PlayerId(j as u8)));
                i = i + 1;
            }
        },
        _ => {
            assert(out@ =~= Seq::<PlayerId>::empty());
        },
    }
    out
}

fn phased_out_matching_of(s: &GameState, ids: &Vec<ObjectId>, f: &TargetFilter, ctx: FilterContext) -> (r: Vec<
    ObjectId,
>)
    ensures
        r@ == phased_out_matching(*s, ids@, *f, ctx),
{
    let mut out: Vec<ObjectId> = Vec::new();
    let mut i: usize = 0;
    while i < ids.len()
        invariant
            i <= ids@.len(),
            out@ == phased_out_matching(*s, ids@.take(i as int), *f, ctx),
        decreases ids@.len() - i,
    {
        assert(ids@.take(i + 1).drop_last() =~= ids@.take(i as int));
        let id = ids[i];
        let keep = match s.object(id) {
            Some(o) => o.phased_out && filter_admits_object(s, id, f, ctx),
            None => false,
        };
        if keep {
            out.push(id);
        }
        assert(out@ =~= phased_out_matching(*s, ids@.take(i + 1), *f, ctx));
        i = i + 1;
    }
    assert(ids@.take(i as int) =~= ids@);
    out
}

/// The objects' skeleton (id, zone, owner, mana cost) is unchanged.
pub open spec fn same_skeleton(a: GameState, b: GameState) -> bool {
    &&& b.objects@.len() == a.objects@.len()
    &&& forall|i: int|
        0 <= i < a.objects@.len() ==> (#[trigger] b.objects@[i]).id == a.objects@[i].id && b.objects@[i].zone
            == a.objects@[i].zone && b.objects@[i].owner == a.objects@[i].owner && b.objects@[i].mana_cost@
            == a.objects@[i].mana_cost@
}

proof fn lemma_views_skeleton(a: GameState, b: GameState)
    requires
        b.objects@.len() == a.objects@.len(),
        forall|i: int|
            0 <= i < a.objects@.len() ==> (#[trigger] oviews(b.objects@)[i]) == (ObjectView {
                phased_out: oviews(b.objects@)[i].phased_out,
                phased_out_indirectly: oviews(b.objects@)[i].phased_out_indirectly,
                ..oviews(a.objects@)[i]
            }),
    ensures
        same_skeleton(a, b),
{
    assert forall|i: int| 0 <= i < a.objects@.len() implies (#[trigger] b.objects@[i]).id == a.objects@[i].id
        && b.objects@[i].zone == a.objects@[i].zone && b.objects@[i].owner == a.objects@[i].owner
        && b.objects@[i].mana_cost@ == a.objects@[i].mana_cost@ by {
        assert(oviews(b.objects@)[i] == b.objects@[i]@);
        assert(oviews(a.objects@)[i] == a.objects@[i]@);
    }
}

/// Set the phasing flags of the object at index `i`.
fn set_phased(state: &mut GameState, i: usize, v: bool, indirectly: bool)
    requires
        i < old(state).objects@.len(),
    ensures
        final(state).objects@ == old(state).objects@.update(
            i as int,
            final(state).objects@[i as int],
        ),
        final(state).objects@[i as int]@ == (ObjectView {
            phased_out: v,
            phased_out_indirectly: indirectly,
            ..old(state).objects@[i as int]@
        }),
        frame(*old(state), *final(state), Touched { objects: true, ..touch_none() }),
{
    state.objects[i].phased_out = v;
    state.objects[i].phased_out_indirectly = indirectly;
}

/// CR 702.26a, CR 702.26g: phase out the object when it is a phased-in
/// battlefield object, directly or not as `cause` says, and with it,
/// indirectly, the phased-in battlefield objects attached to it; report each.
pub fn phase_out_object(state: &mut GameState, oid: ObjectId, cause: PhaseOutCause, events: &mut Vec<GameEvent>)
    requires
        old(state).wf(),
    ensures
        final(state).wf(),
        oviews(final(state).objects@) == phase_out_view(oviews(old(state).objects@), oid, cause),
        final(events)@ == old(events)@ + phase_out_events(oviews(old(state).objects@), oid),
        frame(*old(state), *final(state), Touched { objects: true, ..touch_none() }),
{
    let ghost s0 = *state;
    let ghost os = oviews(state.objects@);
    let n = state.objects.len();
    if !(oid.0 < n as u64 && matches!(state.objects[oid.0 as usize].zone, Zone::Battlefield)
        && !state.objects[oid.0 as usize].phased_out) {
        assert(events@ =~= old(events)@ + phase_out_events(os, oid));
        return ;
    }
    let oi = oid.0 as usize;
    let indirect = match cause {
        PhaseOutCause::Directly => false,
        PhaseOutCause::Indirectly => true,
    };
    set_phased(state, oi, true, indirect);
    events.push(GameEvent::PhasedOut { object_id: oid });
    let ghost ev1 = events@;
    let mut j: usize = 0;
    while j < n
        invariant
            n == s0.objects@.len(),
            oi < n,
            oi == oid.0,
            can_phase_out(os, oi as int),
            os == oviews(s0.objects@),
            j <= n,
            state.objects@.len() == n,
            frame(s0, *state, Touched { objects: true, ..touch_none() }),
            forall|i: int|
                0 <= i < n ==> (#[trigger] state.objects@[i])@ == if i < j || i == oi {
                    phase_out_view(os, oid, cause)[i]
                } else {
                    os[i]
                },
            events@ == ev1 + attached_out_events(os, oid, j as nat),
        decreases n - j,
    {
        let hit = j != oi && matches!(state.objects[j].zone, Zone::Battlefield) && !state.objects[j].phased_out
            && match state.objects[j].attached_to {
            Some(AttachTarget::Object(h)) => h.0 == oid.0,
            _ => false,
        };
        proof {
            if j != oi {
                assert(state.objects@[j as int]@ == os[j as int]);
            }
            assert(hit == (j != oi && can_phase_out(os, j as int) && attached_to_obj(os, j as int, oid)));
        }
        if hit {
            set_phased(state, j, true, true);
            events.push(GameEvent::PhasedOut { object_id: ObjectId(j as u64) });
        }
        assert(events@ =~= ev1 + attached_out_events(os, oid, (j + 1) as nat));
        j = j + 1;
    }
    proof {
        assert(oviews(state.objects@) =~= phase_out_view(os, oid, cause));
        assert(events@ =~= old(events)@ + phase_out_events(os, oid));
        lemma_views_skeleton(s0, *state);
        lemma_wf_same_skeleton(s0, *state);
    }
}

/// CR 702.26c: phase in the object when it is phased out, and with it the
/// phased-out objects attached to it; report each.
pub fn phase_in_object(state: &mut GameState, oid: ObjectId, events: &mut Vec<GameEvent>)
    requires
        old(state).wf(),
    ensures
        final(state).wf(),
        oviews(final(state).objects@) == phase_in_view(oviews(old(state).objects@), oid),
        final(events)@ == old(events)@ + phase_in_events(oviews(old(state).objects@), oid),
        frame(*old(state), *final(state), Touched { objects: true, ..touch_none() }),
{
    let ghost s0 = *state;
    let ghost os = oviews(state.objects@);
    let n = state.objects.len();
    if !(oid.0 < n as u64 && state.objects[oid.0 as usize].phased_out) {
        assert(events@ =~= old(events)@ + phase_in_events(os, oid));
        return ;
    }
    let oi = oid.0 as usize;
    set_phased(state, oi, false, false);
    events.push(GameEvent::PhasedIn { object_id: oid });
    let ghost ev1 = events@;
    let mut j: usize = 0;
    while j < n
        invariant
            n == s0.objects@.len(),
            oi < n,
            oi == oid.0,
            can_phase_in(os, oi as int),
            os == oviews(s0.objects@),
            j <= n,
            state.objects@.len() == n,
            frame(s0, *state, Touched { objects: true, ..touch_none() }),
            forall|i: int|
                0 <= i < n ==> (#[trigger] state.objects@[i])@ == if i < j || i == oi {
                    phase_in_view(os, oid)[i]
                } else {
                    os[i]
                },
            events@ == ev1 + attached_in_events(os, oid, j as nat),
        decreases n - j,
    {
        let hit = j != oi && state.objects[j].phased_out && state.objects[j].phased_out_indirectly
            && match state.objects[j].attached_to {
            Some(AttachTarget::Object(h)) => h.0 == oid.0,
            _ => false,
        };
        proof {
            if j != oi {
                assert(state.objects@[j as int]@ == os[j as int]);
            }
            assert(hit == (j != oi && phased_with_host(os, j as int) && attached_to_obj(os, j as int, oid)));
        }
        if hit {
            set_phased(state, j, false, false);
            events.push(GameEvent::PhasedIn { object_id: ObjectId(j as u64) });
        }
        assert(events@ =~= ev1 + attached_in_events(os, oid, (j + 1) as nat));
        j = j + 1;
    }
    proof {
        assert(oviews(state.objects@) =~= phase_in_view(os, oid));
        assert(events@ =~= old(events)@ + phase_in_events(os, oid));
        lemma_views_skeleton(s0, *state);
        lemma_wf_same_skeleton(s0, *state);
    }
}

proof fn lemma_wf_players_flag(a: GameState, b: GameState)
    requires
        a.wf(),
        b.objects@ == a.objects@,
        b.players@.len() == a.players@.len(),
        forall|i: int|
            0 <= i < a.players@.len() ==> (#[trigger] pviews(b.players@)[i]) == (PlayerView {
                phased_out: pviews(b.players@)[i].phased_out,
                ..pviews(a.players@)[i]
            }),
        b.battlefield@ == a.battlefield@,
        b.exile@ == a.exile@,
        b.stack_objects@ == a.stack_objects@,
        b.command@ == a.command@,
    ensures
        b.wf(),
{
    assert forall|i: int| 0 <= i < b.players@.len() implies {
        &&& (#[trigger] b.players@[i]).id == PlayerId(i as u8)
        &&& zone_list_ok(b.players@[i].library@, b.objects@, Zone::Library)
        &&& zone_list_ok(b.players@[i].hand@, b.objects@, Zone::Hand)
        &&& zone_list_ok(b.players@[i].graveyard@, b.objects@, Zone::Graveyard)
        &&& owned_by(b.players@[i].library@, b.objects@, PlayerId(i as u8))
        &&& owned_by(b.players@[i].hand@, b.objects@, PlayerId(i as u8))
        &&& owned_by(b.players@[i].graveyard@, b.objects@, PlayerId(i as u8))
    } by {
        assert(pviews(b.players@)[i] == b.players@[i]@);
        assert(pviews(a.players@)[i] == a.players@[i]@);
    }
}

/// Phase each of the players out (`out`) or in, in turn, reporting each that
/// changes.
fn phase_players_exec(state: &mut GameState, ps: &Vec<PlayerId>, out: bool, events: &mut Vec<GameEvent>)
    requires
        old(state).wf(),
    ensures
        final(state).wf(),
        pviews(final(state).players@) == players_phased(pviews(old(state).players@), ps@, out),
        final(events)@ == old(events)@ + players_phased_events(pviews(old(state).players@), ps@, out),
        frame(*old(state), *final(state), Touched { players: true, ..touch_none() }),
{
    let ghost s0 = *state;
    let ghost vs = pviews(state.players@);
    let mut k: usize = 0;
    assert(events@ =~= old(events)@ + players_phased_events(vs, ps@.take(0), out));
    assert(pviews(state.players@) =~= players_phased(vs, ps@.take(0), out));
    while k < ps.len()
        invariant
            k <= ps@.len(),
            s0.wf(),
            vs == pviews(s0.players@),
            state.objects@ == s0.objects@,
            frame(s0, *state, Touched { players: true, ..touch_none() }),
            pviews(state.players@) == players_phased(vs, ps@.take(k as int), out),
            events@ == old(events)@ + players_phased_events(vs, ps@.take(k as int), out),
        decreases ps@.len() - k,
    {
        let p = ps[k];
        assert(ps@.take(k + 1).drop_last() =~= ps@.take(k as int));
        let ghost before = pviews(state.players@);
        let n = state.players.len();
        if (p.0 as usize) < n && state.players[p.0 as usize].phased_out != out {
            let pi = p.0 as usize;
            assert(before[pi as int] == state.players@[pi as int]@);
            state.players[pi].phased_out = out;
            if out {
                events.push(GameEvent::PlayerPhasedOut { player: p });
            } else {
                events.push(GameEvent::PlayerPhasedIn { player: p });
            }
            assert(pviews(state.players@) =~= before.update(pi as int, PlayerView { phased_out: out, ..before[pi as int] }));
        } else {
            proof {
                if (p.0 as usize) < n {
                    assert(before[p.0 as int] == state.players@[p.0 as int]@);
                }
            }
        }
        assert(pviews(state.players@) =~= players_phased(vs, ps@.take(k + 1), out));
        assert(events@ =~= old(events)@ + players_phased_events(vs, ps@.take(k + 1), out));
        k = k + 1;
    }
    assert(ps@.take(k as int) =~= ps@);
    proof {
        lemma_players_phased_shape(vs, ps@, out);
        lemma_wf_players_flag(s0, *state);
    }
}

proof fn lemma_players_phased_shape(vs: Seq<PlayerView>, ps: Seq<PlayerId>, out: bool)
    ensures
        players_phased(vs, ps, out).len() == vs.len(),
        forall|i: int|
            0 <= i < vs.len() ==> (#[trigger] players_phased(vs, ps, out)[i]) == (PlayerView {
                phased_out: players_phased(vs, ps, out)[i].phased_out,
                ..vs[i]
            }),
    decreases ps.len(),
{
    if ps.len() > 0 {
        lemma_players_phased_shape(vs, ps.drop_last(), out);
    }
}

/// Is `x` attached to an object among `set`?
#[verifier::loop_isolation(false)]
fn attached_host_in(state: &GameState, x: ObjectId, set: &Vec<ObjectId>) -> (r: bool)
    ensures
        r == host_in(oviews(state.objects@), x, set@),
{
    let n = state.objects.len();
    if x.0 >= n as u64 {
        return false;
    }
    let xi = x.0 as usize;
    assert(oviews(state.objects@)[xi as int] == state.objects@[xi as int]@);
    match state.objects[xi].attached_to {
        Some(AttachTarget::Object(h)) => {
            let mut i: usize = 0;
            while i < set.len()
                invariant
                    i <= set@.len(),
                    forall|j: int| 0 <= j < i ==> set@[j] != h,
                decreases set@.len() - i,
            {
                if set[i].0 == h.0 {
                    assert(set@[i as int] == h);
                    assert(set@.contains(h));
                    return true;
                }
                i = i + 1;
            }
            false
        },
        _ => false,
    }
}

/// CR 702.26a: resolve a phase-out effect. Its players phase out first (its
/// player targets, or the players a player filter names); then its objects
/// (its object targets, or the phased-in battlefield objects its filter
/// matches) phase out in turn, except those attached to another of them,
/// which phase out with their host (CR 702.26h). Another effect changes
/// nothing.
pub fn resolve(state: &mut GameState, ability: &ResolvedAbility, events: &mut Vec<GameEvent>) -> (r: Result<
    (),
    EffectError,
>)
    requires
        old(state).wf(),
    ensures
        r is Ok,
        final(state).wf(),
        match ability.effect {
            Effect::PhaseOut { target } => {
                let ps = phase_players(*old(state), *ability, target);
                let ids = phase_out_ids(*old(state), *ability, target);
                let os = oviews(old(state).objects@);
                &&& pviews(final(state).players@) == players_phased(pviews(old(state).players@), ps, true)
                &&& oviews(final(state).objects@) == objects_out(os, ids, ids)
                &&& frame(*old(state), *final(state), Touched { objects: true, players: true, ..touch_none() })
                &&& final(events)@ == old(events)@ + players_phased_events(pviews(old(state).players@), ps, true)
                    + objects_out_events(os, ids, ids) + seq![
                    GameEvent::EffectResolved { kind: EffectKind::PhaseOut, source_id: ability.source_id },
                ]
            },
            _ => *final(state) == *old(state) && final(events)@ == old(events)@,
        },
{
    let target = match &ability.effect {
        Effect::PhaseOut { target } => target,
        _ => return Ok(()),
    };
    let ghost s0 = *state;
    let ghost os = oviews(state.objects@);
    let ghost ev0 = events@;
    let ps = phase_players_of(state, ability, target);
    let explicit = object_targets_of(&ability.targets);
    let ids = if explicit.len() > 0 {
        explicit
    } else {
        let ctx = FilterContext { source_id: ability.source_id, controller: ability.controller };
        matching_ids_of(state, &state.battlefield, target, ctx)
    };
    phase_players_exec(state, &ps, true, events);
    let ghost s1 = *state;
    let ghost ev1 = events@;
    assert(oviews(s1.objects@) == os);
    let mut k: usize = 0;
    assert(ev1 =~= ev1 + objects_out_events(os, ids@.take(0), ids@));
    assert(ids@.take(0) =~= Seq::<ObjectId>::empty());
    while k < ids.len()
        invariant
            k <= ids@.len(),
            s1.wf(),
            state.wf(),
            state.players@ == s1.players@,
            frame(s1, *state, Touched { objects: true, ..touch_none() }),
            oviews(state.objects@) == objects_out(os, ids@.take(k as int), ids@),
            events@ == ev1 + objects_out_events(os, ids@.take(k as int), ids@),
        decreases ids@.len() - k,
    {
        let x = ids[k];
        assert(ids@.take(k + 1).drop_last() =~= ids@.take(k as int));
        assert(ids@.take(k + 1).last() == x);
        if !attached_host_in(state, x, &ids) {
            phase_out_object(state, x, PhaseOutCause::Directly, events);
        }
        assert(events@ =~= ev1 + objects_out_events(os, ids@.take(k + 1), ids@));
        k = k + 1;
    }
    assert(ids@.take(k as int) =~= ids@);
    events.push(GameEvent::EffectResolved { kind: EffectKind::PhaseOut, source_id: ability.source_id });
    assert(events@ =~= ev0 + players_phased_events(pviews(s0.players@), ps@, true) + objects_out_events(os, ids@, ids@)
        + seq![GameEvent::EffectResolved { kind: EffectKind::PhaseOut, source_id: ability.source_id }]);
    Ok(())
}

/// CR 702.26c: resolve a phase-in effect. Its players phase in first (its
/// player targets, or the players a player filter names); then its objects
/// (its object targets, or the phased-out battlefield objects its filter
/// admits, CR 702.26b) phase in in turn. Another effect changes nothing.
pub fn resolve_phase_in(state: &mut GameState, ability: &ResolvedAbility, events: &mut Vec<GameEvent>) -> (r: Result<
    (),
    EffectError,
>)
    requires
        old(state).wf(),
    ensures
        r is Ok,
        final(state).wf(),
        match ability.effect {
            Effect::PhaseIn { target } => {
                let ps = phase_players(*old(state), *ability, target);
                let ids = phase_in_ids(*old(state), *ability, target);
                let os = oviews(old(state).objects@);
                &&& pviews(final(state).players@) == players_phased(pviews(old(state).players@), ps, false)
                &&& oviews(final(state).objects@) == objects_in(os, ids)
                &&& frame(*old(state), *final(state), Touched { objects: true, players: true, ..touch_none() })
                &&& final(events)@ == old(events)@ + players_phased_events(pviews(old(state).players@), ps, false)
                    + objects_in_events(os, ids) + seq![
                    GameEvent::EffectResolved { kind: EffectKind::PhaseIn, source_id: ability.source_id },
                ]
            },
            _ => *final(state) == *old(state) && final(events)@ == old(events)@,
        },
{
    let target = match &ability.effect {
        Effect::PhaseIn { target } => target,
        _ => return Ok(()),
    };
    let ghost s0 = *state;
    let ghost os = oviews(state.objects@);
    let ghost ev0 = events@;
    let ps = phase_players_of(state, ability, target);
    let explicit = object_targets_of(&ability.targets);
    let ids = if explicit.len() > 0 {
        explicit
    } else {
        let ctx = FilterContext { source_id: ability.source_id, controller: ability.controller };
        phased_out_matching_of(state, &state.battlefield, target, ctx)
    };
    phase_players_exec(state, &ps, false, events);
    let ghost s1 = *state;
    let ghost ev1 = events@;
    assert(oviews(s1.objects@) == os);
    let mut k: usize = 0;
    assert(ev1 =~= ev1 + objects_in_events(os, ids@.take(0)));
    assert(ids@.take(0) =~= Seq::<ObjectId>::empty());
    while k < ids.len()
        invariant
            k <= ids@.len(),
            state.wf(),
            state.players@ == s1.players@,
            frame(s1, *state, Touched { objects: true, ..touch_none() }),
            oviews(state.objects@) == objects_in(os, ids@.take(k as int)),
            events@ == ev1 + objects_in_events(os, ids@.take(k as int)),
        decreases ids@.len() - k,
    {
        let x = ids[k];
        assert(ids@.take(k + 1).drop_last() =~= ids@.take(k as int));
        assert(ids@.take(k + 1).last() == x);
        phase_in_object(state, x, events);
        assert(events@ =~= ev1 + objects_in_events(os, ids@.take(k + 1)));
        k = k + 1;
    }
    assert(ids@.take(k as int) =~= ids@);
    events.push(GameEvent::EffectResolved { kind: EffectKind::PhaseIn, source_id: ability.source_id });
    assert(events@ =~= ev0 + players_phased_events(pviews(s0.players@), ps@, false) + objects_in_events(os, ids@)
        + seq![GameEvent::EffectResolved { kind: EffectKind::PhaseIn, source_id: ability.source_id }]);
    Ok(())
}

} // verus!
