//! Effect resolvers, and what they share: the player a context filter names
//! and the value of a quantity.

use vstd::prelude::*;

use crate::game::filter::{filter_matches, matches_target_filter, FilterContext};
use crate::game::state::{owned_by, zone_list_ok, GameObject, GameState};
use crate::types::zones::Zone;
use crate::seqs::{count_where, lemma_count_push};
use crate::types::ability::{
    target_player_of, CardTypeSetSource, CostPaidObjectSnapshot, ObjectScope, QuantityExpr, QuantityRef, ResolvedAbility,
    TargetFilter, TargetRef,
};
use crate::types::card_type::CoreType;
use crate::types::events::GameEvent;
use crate::types::identifiers::{ObjectId, PlayerId};
use crate::types::mana::mana_value_of;

pub mod add_restriction;
pub mod branch;
pub mod cloak;
pub mod conjure;
pub mod dig;
pub mod discover;
pub mod endure;
pub mod exile_top;
pub mod flip_coin;
pub mod force_block;
pub mod goad;
pub mod incubate;
pub mod manifest;
pub mod phase_out;
pub mod prevent_damage;
pub mod tap_untap;

verus! {

/// The player the triggering event names, where it names one: the caster of
/// a spell, the controller of the first attacker, a damaged player.
pub open spec fn trigger_player(s: GameState) -> Option<PlayerId> {
    match s.current_trigger_event {
        Some(GameEvent::SpellCast { controller, .. }) => Some(controller),
        Some(GameEvent::AttackersDeclared { attacker_ids, .. }) => if attacker_ids@.len() > 0
            && s.has_obj(attacker_ids@[0]) {
            Some(s.ov(attacker_ids@[0]).controller)
        } else {
            None
        },
        Some(GameEvent::DamageDealt { target: TargetRef::Player(p), .. }) => Some(p),
        _ => None,
    }
}

/// The first object among the targets.
pub open spec fn first_object_target(targets: Seq<TargetRef>) -> Option<ObjectId>
    decreases targets.len(),
{
    if targets.len() == 0 {
        None
    } else {
        match targets[0] {
            TargetRef::Object(o) => Some(o),
            TargetRef::Player(_) => first_object_target(targets.drop_first()),
        }
    }
}

/// CR 115.1: the player a context filter names, for an ability with the
/// given targets, controller and cost-named object. `Controller` is the
/// controller whatever the targets; `Player` the first player target;
/// `ParentTargetController` the controller of the first object target, else
/// of the object a parent cost named; `TriggeringPlayer` the player the
/// trigger names. Where nothing is named, the controller.
pub open spec fn context_player_of(
    s: GameState,
    targets: Seq<TargetRef>,
    controller: PlayerId,
    context_object: Option<CostPaidObjectSnapshot>,
    f: TargetFilter,
) -> PlayerId {
    match f {
        TargetFilter::SpecificPlayer { id } => id,
        TargetFilter::Player => target_player_of(targets, controller),
        TargetFilter::ParentTargetController => match first_object_target(targets) {
            Some(o) if s.has_obj(o) => s.ov(o).controller,
            _ => match context_object {
                Some(c) => c.controller,
                None => controller,
            },
        },
        TargetFilter::TriggeringPlayer => match trigger_player(s) {
            Some(p) => p,
            None => controller,
        },
        _ => controller,
    }
}

/// The player a context filter names for an ability (see
/// `context_player_of`).
pub open spec fn context_player(s: GameState, ab: ResolvedAbility, f: TargetFilter) -> PlayerId {
    context_player_of(s, ab.targets@, ab.controller, ab.effect_context_object, f)
}

/// Whether the filter names a player from the ability's context rather than
/// objects.
pub open spec fn is_context_ref(f: TargetFilter) -> bool {
    match f {
        TargetFilter::Controller | TargetFilter::ParentTarget
        | TargetFilter::ParentTargetController | TargetFilter::TriggeringPlayer => true,
        _ => false,
    }
}

/// The object the triggering event is about: the spell cast, or the source
/// of the damage.
pub open spec fn event_source_object(s: GameState) -> Option<ObjectId> {
    match s.current_trigger_event {
        Some(GameEvent::SpellCast { object_id, .. }) => Some(object_id),
        Some(GameEvent::DamageDealt { source_id, .. }) => Some(source_id),
        _ => None,
    }
}

/// The mana value of an object; 0 for an id that names none.
pub open spec fn object_mana_value(s: GameState, id: ObjectId) -> int {
    if s.has_obj(id) {
        mana_value_of(s.ov(id).mana_cost) as int
    } else {
        0
    }
}

/// Every core type, in declaration order.
pub open spec fn all_core_types() -> Seq<CoreType> {
    seq![
        CoreType::Artifact,
        CoreType::Battle,
        CoreType::Creature,
        CoreType::Dungeon,
        CoreType::Enchantment,
        CoreType::Instant,
        CoreType::Kindred,
        CoreType::Land,
        CoreType::Plane,
        CoreType::Phenomenon,
        CoreType::Scheme,
        CoreType::Planeswalker,
        CoreType::Sorcery,
        CoreType::Tribal,
        CoreType::Conspiracy,
    ]
}

/// Some battlefield object that the filter matches has the core type.
pub open spec fn type_on_matching(s: GameState, f: TargetFilter, ctx: FilterContext, t: CoreType) -> bool {
    exists|j: int|
        0 <= j < s.battlefield@.len() && filter_matches(s, #[trigger] s.battlefield@[j], f, ctx)
            && s.has_obj(s.battlefield@[j]) && s.ov(s.battlefield@[j]).card_types.core_types.contains(t)
}

/// The number of distinct core types among the battlefield objects the
/// filter matches.
pub open spec fn distinct_types_count(s: GameState, f: TargetFilter, ctx: FilterContext) -> nat {
    count_where(all_core_types(), |t: CoreType| type_on_matching(s, f, ctx, t))
}

/// The filter context of an ability: its source and controller.
pub open spec fn ability_ctx(ab: ResolvedAbility) -> FilterContext {
    FilterContext { source_id: ab.source_id, controller: ab.controller }
}

/// CR 107.1: the value of a quantity, read for an ability with the given
/// source and controller.
pub open spec fn quantity_value(s: GameState, q: QuantityExpr, ctx: FilterContext) -> int {
    match q {
        QuantityExpr::Fixed { value } => value as int,
        QuantityExpr::Ref { qty } => match qty {
            QuantityRef::ObjectManaValue { scope: ObjectScope::EventSource } => match event_source_object(s) {
                Some(o) => object_mana_value(s, o),
                None => 0,
            },
            QuantityRef::ObjectManaValue { scope: ObjectScope::Source } => object_mana_value(s, ctx.source_id),
            QuantityRef::DistinctCardTypes { source: CardTypeSetSource::Objects { filter } } =>
                distinct_types_count(s, filter, ctx) as int,
        },
    }
}

/// A quantity, clamped at zero (CR 107.1b).
pub open spec fn clamped_quantity(s: GameState, q: QuantityExpr, ctx: FilterContext) -> nat {
    if quantity_value(s, q, ctx) < 0 {
        0
    } else {
        quantity_value(s, q, ctx) as nat
    }
}

/// The filter context of an ability.
pub fn ctx_of(ab: &ResolvedAbility) -> (c: FilterContext)
    ensures
        c == ability_ctx(*ab),
{
    FilterContext { source_id: ab.source_id, controller: ab.controller }
}

fn first_object_target_of(targets: &Vec<TargetRef>) -> (r: Option<ObjectId>)
    ensures
        r == first_object_target(targets@),
{
    let mut i: usize = 0;
    assert(targets@.skip(0) =~= targets@);
    while i < targets.len()
        invariant
            i <= targets@.len(),
            first_object_target(targets@) == first_object_target(targets@.skip(i as int)),
        decreases targets@.len() - i,
    {
        assert(targets@.skip(i as int).drop_first() =~= targets@.skip(i + 1));
        if let TargetRef::Object(o) = targets[i] {
            return Some(o);
        }
        i = i + 1;
    }
    None
}

fn trigger_player_of(s: &GameState) -> (r: Option<PlayerId>)
    ensures
        r == trigger_player(*s),
{
    match &s.current_trigger_event {
        Some(GameEvent::SpellCast { controller, .. }) => Some(*controller),
        Some(GameEvent::AttackersDeclared { attacker_ids, .. }) => {
            if attacker_ids.len() > 0 {
                match s.object(attacker_ids[0]) {
                    Some(o) => Some(o.controller),
                    None => None,
                }
            } else {
                None
            }
        },
        Some(GameEvent::DamageDealt { target: TargetRef::Player(p), .. }) => Some(*p),
        _ => None,
    }
}

/// CR 115.1: the player a context filter names, for an ability with the
/// given targets, controller and cost-named object (see
/// `context_player_of`).
#[verifier::loop_isolation(false)]
pub fn context_player_exec(
    s: &GameState,
    targets: &Vec<TargetRef>,
    controller: PlayerId,
    context_object: Option<CostPaidObjectSnapshot>,
    f: &TargetFilter,
) -> (p: PlayerId)
    ensures
        p == context_player_of(*s, targets@, controller, context_object, *f),
{
    match f {
        TargetFilter::SpecificPlayer { id } => *id,
        TargetFilter::Player => {
            let mut i: usize = 0;
            assert(targets@.skip(0) =~= targets@);
            while i < targets.len()
                invariant
                    i <= targets@.len(),
                    target_player_of(targets@, controller) == target_player_of(targets@.skip(i as int), controller),
                decreases targets@.len() - i,
            {
                assert(targets@.skip(i as int).drop_first() =~= targets@.skip(i + 1));
                if let TargetRef::Player(p) = targets[i] {
                    return p;
                }
                i = i + 1;
            }
            controller
        },
        TargetFilter::ParentTargetController => {
            let fallback = match context_object {
                Some(c) => c.controller,
                None => controller,
            };
            match first_object_target_of(targets) {
                Some(o) => match s.object(o) {
                    Some(obj) => obj.controller,
                    None => fallback,
                },
                None => fallback,
            }
        },
        TargetFilter::TriggeringPlayer => match trigger_player_of(s) {
            Some(p) => p,
            None => controller,
        },
        _ => controller,
    }
}

/// CR 115.1: the player a context filter names for the ability (see
/// `context_player`).
pub fn resolve_player_for_context_ref(s: &GameState, ab: &ResolvedAbility, f: &TargetFilter) -> (p: PlayerId)
    ensures
        p == context_player(*s, *ab, *f),
{
    context_player_exec(s, &ab.targets, ab.controller, ab.effect_context_object, f)
}

fn object_mana_value_of(s: &GameState, id: ObjectId) -> (r: i64)
    requires
        s.wf(),
    ensures
        r == object_mana_value(*s, id),
{
    match s.object(id) {
        Some(o) => {
            assert(mana_value_of(s.objects@[id.0 as int].mana_cost@) <= u32::MAX);
            o.mana_cost.mana_value() as i64
        },
        None => 0,
    }
}

fn type_on_matching_exec(s: &GameState, f: &TargetFilter, ctx: FilterContext, t: CoreType) -> (r: bool)
    ensures
        r == type_on_matching(*s, *f, ctx, t),
{
    let mut j: usize = 0;
    while j < s.battlefield.len()
        invariant
            j <= s.battlefield@.len(),
            forall|k: int|
                0 <= k < j ==> !(filter_matches(*s, #[trigger] s.battlefield@[k], *f, ctx) && s.has_obj(
                    s.battlefield@[k],
                ) && s.ov(s.battlefield@[k]).card_types.core_types.contains(t)),
        decreases s.battlefield@.len() - j,
    {
        let id = s.battlefield[j];
        if matches_target_filter(s, id, f, ctx) {
            if let Some(o) = s.object(id) {
                let mut i: usize = 0;
                let mut found = false;
                while i < o.card_types.core_types.len()
                    invariant
                        i <= o.card_types.core_types@.len(),
                        found == (exists|k: int| 0 <= k < i && o.card_types.core_types@[k] == t),
                    decreases o.card_types.core_types@.len() - i,
                {
                    if o.card_types.core_types[i] == t {
                        found = true;
                    }
                    i = i + 1;
                }
                if found {
                    return true;
                }
            }
        }
        j = j + 1;
    }
    false
}

fn distinct_types(s: &GameState, f: &TargetFilter, ctx: FilterContext) -> (r: i64)
    ensures
        r == distinct_types_count(*s, *f, ctx),
{
    let types: Vec<CoreType> = vec![
        CoreType::Artifact,
        CoreType::Battle,
        CoreType::Creature,
        CoreType::Dungeon,
        CoreType::Enchantment,
        CoreType::Instant,
        CoreType::Kindred,
        CoreType::Land,
        CoreType::Plane,
        CoreType::Phenomenon,
        CoreType::Scheme,
        CoreType::Planeswalker,
        CoreType::Sorcery,
        CoreType::Tribal,
        CoreType::Conspiracy,
    ];
    assert(types@ =~= all_core_types());
    let ghost pred = |t: CoreType| type_on_matching(*s, *f, ctx, t);
    let mut n: i64 = 0;
    let mut i: usize = 0;
    while i < types.len()
        invariant
            i <= types@.len(),
            types@ == all_core_types(),
            pred == (|t: CoreType| type_on_matching(*s, *f, ctx, t)),
            n == count_where(types@.take(i as int), pred),
            n <= i,
        decreases types@.len() - i,
    {
        proof {
            assert(types@.take(i + 1) =~= types@.take(i as int).push(types@[i as int]));
            lemma_count_push(types@.take(i as int), types@[i as int], pred);
        }
        if type_on_matching_exec(s, f, ctx, types[i]) {
            n = n + 1;
        }
        i = i + 1;
    }
    assert(types@.take(i as int) =~= types@);
    n
}

/// CR 107.1: the value of a quantity, read for an ability with the given
/// source and controller.
pub fn resolve_quantity(s: &GameState, q: &QuantityExpr, ctx: FilterContext) -> (r: i64)
    requires
        s.wf(),
    ensures
        r == quantity_value(*s, *q, ctx),
{
    match q {
        QuantityExpr::Fixed { value } => *value as i64,
        QuantityExpr::Ref { qty } => match qty {
            QuantityRef::ObjectManaValue { scope: ObjectScope::EventSource } => {
                let src = match &s.current_trigger_event {
                    Some(GameEvent::SpellCast { object_id, .. }) => Some(*object_id),
                    Some(GameEvent::DamageDealt { source_id, .. }) => Some(*source_id),
                    _ => None,
                };
                match src {
                    Some(o) => object_mana_value_of(s, o),
                    None => 0,
                }
            },
            QuantityRef::ObjectManaValue { scope: ObjectScope::Source } => object_mana_value_of(s, ctx.source_id),
            QuantityRef::DistinctCardTypes { source: CardTypeSetSource::Objects { filter } } => {
                distinct_types(s, filter, ctx)
            },
        },
    }
}

/// Every quantity fits in 32 bits.
pub proof fn lemma_quantity_bounded(s: GameState, q: QuantityExpr, ctx: FilterContext)
    requires
        s.wf(),
    ensures
        quantity_value(s, q, ctx) <= u32::MAX,
{
    match q {
        QuantityExpr::Fixed { .. } => {},
        QuantityExpr::Ref { qty } => match qty {
            QuantityRef::DistinctCardTypes { source: CardTypeSetSource::Objects { filter } } => {
                crate::seqs::lemma_count_le_len(all_core_types(), |t: CoreType| type_on_matching(s, filter, ctx, t));
            },
            QuantityRef::ObjectManaValue { scope } => {
                let o = match scope {
                    ObjectScope::EventSource => event_source_object(s),
                    ObjectScope::Source => Some(ctx.source_id),
                };
                if let Some(id) = o {
                    if s.has_obj(id) {
                        assert(mana_value_of(s.objects@[id.0 as int].mana_cost@) <= u32::MAX);
                    }
                }
            },
        },
    }
}

/// A quantity clamped at zero, as a count.
pub fn resolve_count(s: &GameState, q: &QuantityExpr, ctx: FilterContext) -> (r: u64)
    requires
        s.wf(),
    ensures
        r == clamped_quantity(*s, *q, ctx),
        r <= u32::MAX,
{
    proof {
        lemma_quantity_bounded(*s, *q, ctx);
    }
    let v = resolve_quantity(s, q, ctx);
    if v < 0 {
        0
    } else {
        v as u64
    }
}

/// The object targets among the targets, in order.
pub open spec fn object_targets(t: Seq<TargetRef>) -> Seq<ObjectId>
    decreases t.len(),
{
    if t.len() == 0 {
        Seq::empty()
    } else {
        object_targets(t.drop_last()) + match t.last() {
            TargetRef::Object(o) => seq![o],
            TargetRef::Player(_) => Seq::empty(),
        }
    }
}

/// The ids among `ids` that the filter matches, in order.
pub open spec fn matching_ids(s: GameState, ids: Seq<ObjectId>, f: TargetFilter, ctx: FilterContext) -> Seq<ObjectId>
    decreases ids.len(),
{
    if ids.len() == 0 {
        Seq::empty()
    } else {
        matching_ids(s, ids.drop_last(), f, ctx) + if filter_matches(s, ids.last(), f, ctx) {
            seq![ids.last()]
        } else {
            Seq::empty()
        }
    }
}

/// The object targets of an ability.
pub fn object_targets_of(targets: &Vec<TargetRef>) -> (r: Vec<ObjectId>)
    ensures
        r@ == object_targets(targets@),
{
    let mut out: Vec<ObjectId> = Vec::new();
    let mut i: usize = 0;
    while i < targets.len()
        invariant
            i <= targets@.len(),
            out@ == object_targets(targets@.take(i as int)),
        decreases targets@.len() - i,
    {
        assert(targets@.take(i + 1).drop_last() =~= targets@.take(i as int));
        if let TargetRef::Object(o) = targets[i] {
            out.push(o);
            assert(out@ =~= object_targets(targets@.take(i + 1)));
        } else {
            assert(out@ =~= object_targets(targets@.take(i + 1)));
        }
        i = i + 1;
    }
    assert(targets@.take(i as int) =~= targets@);
    out
}

/// The ids of the list that the filter matches.
pub fn matching_ids_of(s: &GameState, ids: &Vec<ObjectId>, f: &TargetFilter, ctx: FilterContext) -> (r: Vec<ObjectId>)
    ensures
        r@ == matching_ids(*s, ids@, *f, ctx),
{
    let mut out: Vec<ObjectId> = Vec::new();
    let mut i: usize = 0;
    while i < ids.len()
        invariant
            i <= ids@.len(),
            out@ == matching_ids(*s, ids@.take(i as int), *f, ctx),
        decreases ids@.len() - i,
    {
        assert(ids@.take(i + 1).drop_last() =~= ids@.take(i as int));
        if matches_target_filter(s, ids[i], f, ctx) {
            out.push(ids[i]);
            assert(out@ =~= matching_ids(*s, ids@.take(i + 1), *f, ctx));
        } else {
            assert(out@ =~= matching_ids(*s, ids@.take(i + 1), *f, ctx));
        }
        i = i + 1;
    }
    assert(ids@.take(i as int) =~= ids@);
    out
}

/// The lists keep their shape when objects keep their ids and zones.
pub proof fn lemma_zone_list_same_objects(ids: Seq<ObjectId>, a: Seq<GameObject>, b: Seq<GameObject>, z: Zone)
    requires
        zone_list_ok(ids, a, z),
        b.len() == a.len(),
        forall|i: int| 0 <= i < a.len() ==> (#[trigger] b[i]).zone == a[i].zone,
    ensures
        zone_list_ok(ids, b, z),
{
    assert forall|j: int| 0 <= j < ids.len() implies b[(#[trigger] ids[j]).0 as int].zone == z by {
        assert(ids[j].0 < a.len());
    }
}

/// A state whose objects changed only in ways that keep ids, zones and
/// mana costs, and whose players and zone lists did not change, stays well
/// formed.
pub proof fn lemma_wf_same_skeleton(a: GameState, b: GameState)
    requires
        a.wf(),
        b.objects@.len() == a.objects@.len(),
        forall|i: int|
            0 <= i < a.objects@.len() ==> (#[trigger] b.objects@[i]).id == a.objects@[i].id
                && b.objects@[i].zone == a.objects@[i].zone
                && b.objects@[i].owner == a.objects@[i].owner
                && b.objects@[i].mana_cost@ == a.objects@[i].mana_cost@,
        b.players@ == a.players@,
        b.battlefield@ == a.battlefield@,
        b.exile@ == a.exile@,
        b.stack_objects@ == a.stack_objects@,
        b.command@ == a.command@,
    ensures
        b.wf(),
{
    assert forall|i: int| 0 <= i < b.players@.len() implies {
        &&& zone_list_ok((#[trigger] b.players@[i]).library@, b.objects@, Zone::Library)
        &&& zone_list_ok(b.players@[i].hand@, b.objects@, Zone::Hand)
        &&& zone_list_ok(b.players@[i].graveyard@, b.objects@, Zone::Graveyard)
        &&& owned_by(b.players@[i].library@, b.objects@, PlayerId(i as u8))
        &&& owned_by(b.players@[i].hand@, b.objects@, PlayerId(i as u8))
        &&& owned_by(b.players@[i].graveyard@, b.objects@, PlayerId(i as u8))
    } by {
        assert(b.players@[i] == a.players@[i]);
        let p = a.players@[i];
        assert forall|j: int| 0 <= j < p.library@.len() implies b.objects@[(#[trigger] p.library@[j]).0 as int].owner == PlayerId(i as u8) by {
            assert(p.library@[j].0 < a.objects@.len());
        }
        assert forall|j: int| 0 <= j < p.hand@.len() implies b.objects@[(#[trigger] p.hand@[j]).0 as int].owner == PlayerId(i as u8) by {
            assert(p.hand@[j].0 < a.objects@.len());
        }
        assert forall|j: int| 0 <= j < p.graveyard@.len() implies b.objects@[(#[trigger] p.graveyard@[j]).0 as int].owner == PlayerId(i as u8) by {
            assert(p.graveyard@[j].0 < a.objects@.len());
        }
        lemma_zone_list_same_objects(a.players@[i].library@, a.objects@, b.objects@, Zone::Library);
        lemma_zone_list_same_objects(a.players@[i].hand@, a.objects@, b.objects@, Zone::Hand);
        lemma_zone_list_same_objects(a.players@[i].graveyard@, a.objects@, b.objects@, Zone::Graveyard);
    }
    lemma_zone_list_same_objects(a.battlefield@, a.objects@, b.objects@, Zone::Battlefield);
    lemma_zone_list_same_objects(a.exile@, a.objects@, b.objects@, Zone::Exile);
    lemma_zone_list_same_objects(a.stack_objects@, a.objects@, b.objects@, Zone::Stack);
    lemma_zone_list_same_objects(a.command@, a.objects@, b.objects@, Zone::Command);
}

} // verus!
