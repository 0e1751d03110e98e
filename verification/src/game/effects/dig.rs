//! CR 701.20e + CR 608.2c: looking at the top cards of a library and
//! choosing some to keep.

use vstd::prelude::*;

use crate::game::effects::{
    ctx_of,
    ability_ctx, clamped_quantity, context_player, resolve_count, resolve_player_for_context_ref,
};
use crate::game::filter::{filter_matches, matches_target_filter, FilterContext};
use crate::game::state::{frame, touch_none, zone_list_ok, GameState, Touched, WaitingFor};
use crate::types::ability::{effect_kind_of, Effect, EffectError, EffectKind, ResolvedAbility, TargetFilter};
use crate::types::events::GameEvent;
use crate::types::identifiers::{ObjectId};
use crate::types::zones::Zone;

verus! {

/// The parameters a dig reads from its effect: whose library, how many
/// cards, how many to keep, "up to", the filter on kept cards, the kept and
/// rest destinations, whether the cards are revealed, and whether kept
/// permanents enter tapped. Another effect digs one card of the
/// controller's library with nothing else.
pub struct DigParams {
    pub owner: TargetFilter,
    pub count: nat,
    pub keep: nat,
    pub up_to: bool,
    pub filter: TargetFilter,
    pub kept_destination: Option<Zone>,
    pub rest_destination: Option<Zone>,
    pub reveal: bool,
    pub enter_tapped: bool,
}

/// The keep count of "look at N, put them back in any order" is all of
/// them; an absent keep count otherwise means one.
pub open spec fn dig_params(s: GameState, ab: ResolvedAbility) -> DigParams {
    match ab.effect {
        Effect::Dig {
            player,
            count,
            keep_count,
            up_to,
            filter,
            destination,
            rest_destination,
            reveal,
            enter_tapped,
        } => {
            let n = clamped_quantity(s, count, ability_ctx(ab));
            let reorder = destination == Some(Zone::Library) && rest_destination == Some(Zone::Library)
                && keep_count is None;
            DigParams {
                owner: player,
                count: n,
                keep: if reorder {
                    n
                } else {
                    match keep_count {
                        Some(k) => k as nat,
                        None => 1,
                    }
                },
                up_to,
                filter,
                kept_destination: destination,
                rest_destination,
                reveal,
                enter_tapped,
            }
        },
        _ => DigParams {
            owner: TargetFilter::Controller,
            count: 1,
            keep: 1,
            up_to: false,
            filter: TargetFilter::Any,
            kept_destination: None,
            rest_destination: None,
            reveal: false,
            enter_tapped: false,
        },
    }
}

/// The smaller of two numbers.
pub open spec fn min_nat(a: nat, b: nat) -> nat {
    if a < b {
        a
    } else {
        b
    }
}

/// `s` with each id of `ids` added at the end unless already there.
pub open spec fn add_all_once(s: Seq<ObjectId>, ids: Seq<ObjectId>) -> Seq<ObjectId>
    decreases ids.len(),
{
    if ids.len() == 0 {
        s
    } else {
        let r = add_all_once(s, ids.drop_last());
        if r.contains(ids.last()) {
            r
        } else {
            r.push(ids.last())
        }
    }
}

/// The looked-at cards a player may keep: all of them for `Any`, else those
/// the filter matches.
pub open spec fn selectable(s: GameState, cards: Seq<ObjectId>, f: TargetFilter, ctx: FilterContext) -> Seq<ObjectId>
    decreases cards.len(),
{
    if f == TargetFilter::Any {
        cards
    } else if cards.len() == 0 {
        Seq::empty()
    } else {
        selectable(s, cards.drop_last(), f, ctx) + if filter_matches(s, cards.last(), f, ctx) {
            seq![cards.last()]
        } else {
            Seq::empty()
        }
    }
}

/// The names of the cards are the names of their objects.
pub open spec fn names_of(s: GameState, cards: Seq<ObjectId>, names: Seq<String>) -> bool {
    &&& names.len() == cards.len()
    &&& forall|j: int| 0 <= j < cards.len() ==> (#[trigger] names[j])@ == s.ov(cards[j]).name
}

fn selectable_cards(s: &GameState, cards: &Vec<ObjectId>, f: &TargetFilter, ctx: FilterContext) -> (r: Vec<ObjectId>)
    ensures
        r@ == selectable(*s, cards@, *f, ctx),
{
    let any = match f {
        TargetFilter::Any => true,
        _ => false,
    };
    let mut out: Vec<ObjectId> = Vec::new();
    let mut i: usize = 0;
    while i < cards.len()
        invariant
            i <= cards@.len(),
            any == (*f == TargetFilter::Any),
            out@ == if any {
                cards@.take(i as int)
            } else {
                selectable(*s, cards@.take(i as int), *f, ctx)
            },
        decreases cards@.len() - i,
    {
        assert(cards@.take(i + 1).drop_last() =~= cards@.take(i as int));
        assert(cards@.take(i + 1) =~= cards@.take(i as int).push(cards@[i as int]));
        if any || matches_target_filter(s, cards[i], f, ctx) {
            out.push(cards[i]);
        }
        i = i + 1;
    }
    assert(cards@.take(i as int) =~= cards@);
    out
}

fn top_cards(lib: &Vec<ObjectId>, n: usize) -> (r: Vec<ObjectId>)
    requires
        n <= lib@.len(),
    ensures
        r@ == lib@.take(n as int),
{
    let mut out: Vec<ObjectId> = Vec::new();
    let mut i: usize = 0;
    while i < n
        invariant
            i <= n <= lib@.len(),
            out@ == lib@.take(i as int),
        decreases n - i,
    {
        out.push(lib[i]);
        assert(lib@.take(i + 1) =~= lib@.take(i as int).push(lib@[i as int]));
        i = i + 1;
    }
    out
}

fn add_ids_once(s: &mut Vec<ObjectId>, ids: &Vec<ObjectId>)
    ensures
        final(s)@ == add_all_once(old(s)@, ids@),
{
    let ghost s0 = s@;
    let mut i: usize = 0;
    while i < ids.len()
        invariant
            i <= ids@.len(),
            s@ == add_all_once(s0, ids@.take(i as int)),
        decreases ids@.len() - i,
    {
        assert(ids@.take(i + 1).drop_last() =~= ids@.take(i as int));
        let x = ids[i];
        let mut present = false;
        let mut j: usize = 0;
        while j < s.len()
            invariant
                j <= s@.len(),
                present == (exists|m: int| 0 <= m < j && s@[m] == x),
            decreases s@.len() - j,
        {
            if s[j] == x {
                present = true;
            }
            j = j + 1;
        }
        if !present {
            s.push(x);
        }
        i = i + 1;
    }
    assert(ids@.take(i as int) =~= ids@);
}

fn copy_ids(v: &Vec<ObjectId>) -> (r: Vec<ObjectId>)
    ensures
        r@ == v@,
{
    let mut out: Vec<ObjectId> = Vec::new();
    let mut i: usize = 0;
    while i < v.len()
        invariant
            i <= v@.len(),
            out@ == v@.take(i as int),
        decreases v@.len() - i,
    {
        out.push(v[i]);
        assert(v@.take(i + 1) =~= v@.take(i as int).push(v@[i as int]));
        i = i + 1;
    }
    assert(v@.take(i as int) =~= v@);
    out
}

fn card_names(s: &GameState, cards: &Vec<ObjectId>) -> (r: Vec<String>)
    requires
        forall|j: int| 0 <= j < cards@.len() ==> s.has_obj(#[trigger] cards@[j]),
    ensures
        names_of(*s, cards@, r@),
{
    let mut out: Vec<String> = Vec::new();
    let mut i: usize = 0;
    while i < cards.len()
        invariant
            i <= cards@.len(),
            forall|j: int| 0 <= j < cards@.len() ==> s.has_obj(#[trigger] cards@[j]),
            out@.len() == i,
            forall|j: int| 0 <= j < i ==> (#[trigger] out@[j])@ == s.ov(cards@[j]).name,
        decreases cards@.len() - i,
    {
        let id = cards[i];
        let nobj = s.objects.len();
        assert(id.0 < nobj);
        let name = s.objects[id.0 as usize].name.clone();
        out.push(name);
        i = i + 1;
    }
    out
}

/// CR 701.20e: look at the top N cards of the library of the player the
/// effect names (as many as there are, CR 401.5). With nothing to keep and
/// no reveal, the controller only looks: the cards become the last revealed
/// ones and a private look for the controller. Otherwise, for a reveal the
/// cards are revealed to all (CR 701.20a), and the controller is asked to
/// choose which to keep among those the filter admits. Fails with
/// `PlayerNotFound`, changing nothing, where the library's player isn't in
/// the game; does nothing where there is no card to look at.
pub fn resolve(state: &mut GameState, ability: &ResolvedAbility, events: &mut Vec<GameEvent>) -> (r:
    Result<(), EffectError>)
    requires
        old(state).wf(),
    ensures
        final(state).wf(),
        ({
            let prm = dig_params(*old(state), *ability);
            let owner = context_player(*old(state), *ability, prm.owner);
            let resolved = GameEvent::EffectResolved { kind: effect_kind_of(ability.effect), source_id: ability.source_id };
            if !old(state).has_player(owner) {
                &&& r == Err::<(), EffectError>(EffectError::PlayerNotFound)
                &&& frame(*old(state), *final(state), touch_none())
                &&& final(events)@ == old(events)@
            } else {
                let lib = old(state).pv(owner).library;
                let count = min_nat(prm.count, lib.len());
                let cards = lib.take(count as int);
                let keep = min_nat(prm.keep, count);
                &&& r is Ok
                &&& if count == 0 {
                    &&& frame(*old(state), *final(state), touch_none())
                    &&& final(events)@ == old(events)@
                } else if keep == 0 && !prm.reveal {
                    &&& final(state).last_revealed_ids@ == cards
                    &&& final(state).private_look_ids@ == cards
                    &&& final(state).private_look_player == Some(ability.controller)
                    &&& final(state).revealed_cards@ == old(state).revealed_cards@
                    &&& frame(*old(state), *final(state), Touched { revealed: true, ..touch_none() })
                    &&& final(events)@ == old(events)@.push(resolved)
                } else {
                    let sel = selectable(*old(state), cards, prm.filter, ability_ctx(*ability));
                    &&& frame(*old(state), *final(state), Touched { revealed: true, waiting_for: true, ..touch_none() })
                    &&& final(state).private_look_ids@ == old(state).private_look_ids@
                    &&& final(state).private_look_player == old(state).private_look_player
                    &&& if prm.reveal {
                        &&& final(state).revealed_cards@ == add_all_once(old(state).revealed_cards@, cards)
                        &&& final(state).last_revealed_ids@ == cards
                        &&& final(events)@.len() == old(events)@.len() + 2
                        &&& final(events)@.take(old(events)@.len() as int) == old(events)@
                        &&& final(events)@[old(events)@.len() as int] matches GameEvent::CardsRevealed {
                            player,
                            card_ids,
                            card_names,
                        } && player == ability.controller && card_ids@ == cards && names_of(
                            *old(state),
                            cards,
                            card_names@,
                        )
                        &&& final(events)@.last() == resolved
                    } else {
                        &&& final(state).revealed_cards@ == old(state).revealed_cards@
                        &&& final(state).last_revealed_ids@ == old(state).last_revealed_ids@
                        &&& final(events)@ == old(events)@.push(resolved)
                    }
                    &&& final(state).waiting_for matches WaitingFor::DigChoice {
                        player,
                        library_owner,
                        selectable_cards,
                        cards: looked,
                        keep_count,
                        up_to,
                        kept_destination,
                        rest_destination,
                        source_id,
                        enter_tapped,
                    } && player == ability.controller && library_owner == owner && selectable_cards@
                        == sel && looked@ == cards && keep_count == (if prm.keep == u32::MAX {
                        sel.len()
                    } else {
                        keep
                    }) && up_to == prm.up_to && kept_destination == prm.kept_destination
                        && rest_destination == prm.rest_destination && source_id == Some(ability.source_id)
                        && enter_tapped == prm.enter_tapped
                }
            }
        }),
{
    let ghost s0 = *state;
    let ghost ev0 = events@;
    let default_owner = TargetFilter::Controller;
    let default_filter = TargetFilter::Any;
    let (owner_filter, dig_num, raw_keep, is_up_to, filter, kept_dest, rest_dest, is_reveal, enter_tapped) =
        match &ability.effect {
        Effect::Dig {
            player,
            count,
            keep_count,
            up_to,
            filter,
            destination,
            rest_destination,
            reveal,
            enter_tapped,
        } => {
            let n = resolve_count(state, count, ctx_of(ability));
            let reorder = *destination == Some(Zone::Library) && *rest_destination == Some(Zone::Library)
                && keep_count.is_none();
            let keep: u64 = if reorder {
                n
            } else {
                match keep_count {
                    Some(k) => *k as u64,
                    None => 1,
                }
            };
            (player, n, keep, *up_to, filter, *destination, *rest_destination, *reveal, *enter_tapped)
        },
        _ => (&default_owner, 1u64, 1u64, false, &default_filter, None, None, false, false),
    };
    let owner = resolve_player_for_context_ref(state, ability, owner_filter);
    if owner.0 as usize >= state.players.len() {
        return Err(EffectError::PlayerNotFound);
    }
    let pi = owner.0 as usize;
    let len = state.players[pi].library.len();
    let count: usize = if dig_num < len as u64 {
        dig_num as usize
    } else {
        len
    };
    if count == 0 {
        return Ok(());
    }
    proof {
        assert(zone_list_ok(s0.players@[pi as int].library@, s0.objects@, Zone::Library));
    }
    let cards = top_cards(&state.players[pi].library, count);
    let keep: usize = if raw_keep < count as u64 {
        raw_keep as usize
    } else {
        count
    };
    if keep == 0 && !is_reveal {
        state.last_revealed_ids = copy_ids(&cards);
        state.private_look_ids = cards;
        state.private_look_player = Some(ability.controller);
        events.push(GameEvent::EffectResolved { kind: EffectKind::of(&ability.effect), source_id: ability.source_id });
        return Ok(());
    }
    let ctx = FilterContext { source_id: ability.source_id, controller: ability.controller };
    let sel = selectable_cards(state, &cards, filter, ctx);
    if is_reveal {
        add_ids_once(&mut state.revealed_cards, &cards);
        state.last_revealed_ids = copy_ids(&cards);
        let names = card_names(state, &cards);
        events.push(GameEvent::CardsRevealed { player: ability.controller, card_ids: copy_ids(&cards), card_names: names });
    }
    let keep_count = if raw_keep == u32::MAX as u64 {
        sel.len()
    } else {
        keep
    };
    state.waiting_for = WaitingFor::DigChoice {
        player: ability.controller,
        library_owner: owner,
        selectable_cards: sel,
        cards,
        keep_count,
        up_to: is_up_to,
        kept_destination: kept_dest,
        rest_destination: rest_dest,
        source_id: Some(ability.source_id),
        enter_tapped,
    };
    events.push(GameEvent::EffectResolved { kind: EffectKind::of(&ability.effect), source_id: ability.source_id });
    Ok(())
}

} // verus!
