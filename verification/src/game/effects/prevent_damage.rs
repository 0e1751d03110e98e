//! CR 615: damage-prevention shields.

use vstd::prelude::*;

use crate::game::effects::{
    ability_ctx, clamped_quantity, context_player, ctx_of, is_context_ref, lemma_wf_same_skeleton, resolve_count,
    resolve_player_for_context_ref,
};
use crate::game::state::{
    frame, touch_none, ChosenDamageSource, GameObject, GameState, ObjectView, ReplacementDefinition,
    ReplacementEvent, ShieldKind, Touched,
};
use crate::text::string_of;
use crate::types::ability::{
    is_invalid_param,
    same_filter, tfvs, CombatDamageScope, DamageTargetFilter, DamageTargetPlayerScope, Effect, EffectError, EffectKind,
    FilterProp, PreventionAmount, PreventionScope, ResolvedAbility, TargetFilter, TargetRef,
};
use crate::types::events::GameEvent;
use crate::types::identifiers::{ObjectId};
use crate::types::mana::ManaColor;
use crate::types::zones::Zone;

verus! {

/// The properties with every `IsChosenColor` left out.
pub open spec fn without_chosen_color(ps: Seq<FilterProp>) -> Seq<FilterProp>
    decreases ps.len(),
{
    if ps.len() == 0 {
        ps
    } else {
        let rest = without_chosen_color(ps.drop_last());
        if ps.last() == FilterProp::IsChosenColor {
            rest
        } else {
            rest.push(ps.last())
        }
    }
}

/// The properties with `IsChosenColor` made concrete: left out, and the
/// chosen color required instead, where a color was chosen.
pub open spec fn concrete_color_props(ps: Seq<FilterProp>, color: Option<ManaColor>) -> Seq<FilterProp> {
    match color {
        Some(c) => without_chosen_color(ps).push(FilterProp::HasColor { color: c }),
        None => without_chosen_color(ps),
    }
}

/// The measure that lets the chosen damage source be expanded once.
pub open spec fn rank(outer: bool) -> int {
    if outer {
        1
    } else {
        0
    }
}

/// `g` is the damage-source filter `f` with its references to earlier
/// choices made concrete (CR 614.1a): the chosen damage source becomes that
/// very object, further narrowed by the filter it was chosen by; a required
/// "chosen color" becomes the color chosen for the ability's source. Only
/// the outermost filter is expected to name the chosen damage source; an
/// inner reference to it admits nothing.
pub open spec fn source_resolved(
    chosen: Option<ChosenDamageSource>,
    color: Option<ManaColor>,
    f: TargetFilter,
    g: TargetFilter,
    outer: bool,
) -> bool
    decreases rank(outer), f,
{
    match f {
        TargetFilter::ChosenDamageSource => if outer {
            match chosen {
                Some(c) => (g matches TargetFilter::And { filters: gs } && gs@.len() == 2 && gs@[0] == (
                TargetFilter::SpecificObject { id: c.source_id }) && source_resolved(
                    chosen,
                    color,
                    c.source_filter,
                    gs@[1],
                    false,
                )),
                None => g == TargetFilter::Nothing,
            }
        } else {
            g == TargetFilter::Nothing
        },
        TargetFilter::Not { filter } => (g matches TargetFilter::Not { filter: h } && source_resolved(
            chosen,
            color,
            *filter,
            *h,
            outer,
        )),
        TargetFilter::And { filters } => (g matches TargetFilter::And { filters: gs } && all_resolved(
            chosen,
            color,
            filters@,
            gs@,
            outer,
        )),
        TargetFilter::Or { filters } => (g matches TargetFilter::Or { filters: gs } && all_resolved(
            chosen,
            color,
            filters@,
            gs@,
            outer,
        )),
        TargetFilter::Typed(tf) => (g matches TargetFilter::Typed(tg) && tfvs(tg.type_filters@) == tfvs(tf.type_filters@)
            && tg.controller == tf.controller && tg.properties@ == if tf.properties@.contains(
            FilterProp::IsChosenColor,
        ) {
            concrete_color_props(tf.properties@, color)
        } else {
            tf.properties@
        }),
        _ => g == f,
    }
}

/// Each filter of `gs` is the matching filter of `fs` made concrete.
pub open spec fn all_resolved(
    chosen: Option<ChosenDamageSource>,
    color: Option<ManaColor>,
    fs: Seq<TargetFilter>,
    gs: Seq<TargetFilter>,
    outer: bool,
) -> bool
    decreases rank(outer), fs,
{
    if fs.len() == 0 {
        gs.len() == 0
    } else {
        gs.len() > 0 && source_resolved(chosen, color, fs[0], gs[0], outer) && all_resolved(
            chosen,
            color,
            fs.drop_first(),
            gs.drop_first(),
            outer,
        )
    }
}

/// The filter names the chosen damage source somewhere.
pub open spec fn mentions_chosen_source(f: TargetFilter) -> bool
    decreases f,
{
    match f {
        TargetFilter::ChosenDamageSource => true,
        TargetFilter::Not { filter } => mentions_chosen_source(*filter),
        TargetFilter::And { filters } => any_mentions_chosen_source(filters@),
        TargetFilter::Or { filters } => any_mentions_chosen_source(filters@),
        _ => false,
    }
}

/// Some filter of the list names the chosen damage source.
pub open spec fn any_mentions_chosen_source(fs: Seq<TargetFilter>) -> bool
    decreases fs,
{
    if fs.len() == 0 {
        false
    } else {
        mentions_chosen_source(fs[0]) || any_mentions_chosen_source(fs.drop_first())
    }
}

proof fn lemma_all_resolved_push(
    chosen: Option<ChosenDamageSource>,
    color: Option<ManaColor>,
    fs: Seq<TargetFilter>,
    gs: Seq<TargetFilter>,
    f: TargetFilter,
    g: TargetFilter,
    outer: bool,
)
    requires
        all_resolved(chosen, color, fs, gs, outer),
        source_resolved(chosen, color, f, g, outer),
    ensures
        all_resolved(chosen, color, fs.push(f), gs.push(g), outer),
    decreases fs.len(),
{
    if fs.len() > 0 {
        assert(fs.push(f).drop_first() =~= fs.drop_first().push(f));
        assert(gs.push(g).drop_first() =~= gs.drop_first().push(g));
        assert(fs.push(f)[0] == fs[0]);
        assert(gs.push(g)[0] == gs[0]);
        lemma_all_resolved_push(chosen, color, fs.drop_first(), gs.drop_first(), f, g, outer);
    } else {
        assert(fs.push(f).drop_first() =~= Seq::<TargetFilter>::empty());
        assert(gs.push(g).drop_first() =~= Seq::<TargetFilter>::empty());
        assert(fs.push(f)[0] == f);
        assert(gs.push(g)[0] == g);
        assert(all_resolved(chosen, color, Seq::<TargetFilter>::empty(), Seq::<TargetFilter>::empty(), outer));
    }
}

fn has_chosen_color_prop(ps: &Vec<FilterProp>) -> (r: bool)
    ensures
        r == ps@.contains(FilterProp::IsChosenColor),
{
    let mut i: usize = 0;
    while i < ps.len()
        invariant
            i <= ps@.len(),
            forall|j: int| 0 <= j < i ==> ps@[j] != FilterProp::IsChosenColor,
        decreases ps@.len() - i,
    {
        if matches!(ps[i], FilterProp::IsChosenColor) {
            assert(ps@[i as int] == FilterProp::IsChosenColor);
            return true;
        }
        i = i + 1;
    }
    false
}

fn concrete_props(ps: &Vec<FilterProp>, color: Option<ManaColor>) -> (r: Vec<FilterProp>)
    ensures
        r@ == concrete_color_props(ps@, color),
{
    let mut out: Vec<FilterProp> = Vec::new();
    let mut i: usize = 0;
    while i < ps.len()
        invariant
            i <= ps@.len(),
            out@ == without_chosen_color(ps@.take(i as int)),
        decreases ps@.len() - i,
    {
        let p = ps[i];
        assert(ps@.take(i + 1).drop_last() =~= ps@.take(i as int));
        if !matches!(p, FilterProp::IsChosenColor) {
            out.push(p);
        }
        i = i + 1;
    }
    assert(ps@.take(i as int) =~= ps@);
    if let Some(c) = color {
        out.push(FilterProp::HasColor { color: c });
    }
    out
}

/// CR 614.1a: the damage-source filter with its references to earlier
/// choices made concrete.
fn resolve_source_filter(
    filter: &TargetFilter,
    chosen: &Option<ChosenDamageSource>,
    color: Option<ManaColor>,
    outer: bool,
) -> (g: TargetFilter)
    ensures
        source_resolved(*chosen, color, *filter, g, outer),
    decreases rank(outer), *filter, 2nat,
{
    match filter {
        TargetFilter::ChosenDamageSource => {
            if !outer {
                return TargetFilter::Nothing;
            }
            match chosen {
                Some(c) => {
                    let inner = resolve_source_filter(&c.source_filter, chosen, color, false);
                    let mut fs: Vec<TargetFilter> = Vec::new();
                    fs.push(TargetFilter::SpecificObject { id: c.source_id });
                    fs.push(inner);
                    TargetFilter::And { filters: fs }
                },
                None => TargetFilter::Nothing,
            }
        },
        TargetFilter::Not { filter: inner } => TargetFilter::Not {
            filter: Box::new(resolve_source_filter(inner, chosen, color, outer)),
        },
        TargetFilter::And { filters } => {
            assert forall|i: int| 0 <= i < filters@.len() implies decreases_to!(*filter => #[trigger] filters@[i]) by {}
            TargetFilter::And { filters: resolve_source_filters(filters, chosen, color, outer, Ghost(*filter)) }
        },
        TargetFilter::Or { filters } => {
            assert forall|i: int| 0 <= i < filters@.len() implies decreases_to!(*filter => #[trigger] filters@[i]) by {}
            TargetFilter::Or { filters: resolve_source_filters(filters, chosen, color, outer, Ghost(*filter)) }
        },
        TargetFilter::Typed(tf) => {
            let mut r = tf.clone();
            if has_chosen_color_prop(&tf.properties) {
                r.properties = concrete_props(&tf.properties, color);
            }
            TargetFilter::Typed(r)
        },
        _ => filter.clone(),
    }
}

fn resolve_source_filters(
    fs: &Vec<TargetFilter>,
    chosen: &Option<ChosenDamageSource>,
    color: Option<ManaColor>,
    outer: bool,
    Ghost(whole): Ghost<TargetFilter>,
) -> (r: Vec<TargetFilter>)
    requires
        forall|i: int| 0 <= i < fs@.len() ==> decreases_to!(whole => #[trigger] fs@[i]),
    ensures
        all_resolved(*chosen, color, fs@, r@, outer),
    decreases rank(outer), whole, 1nat,
{
    let mut out: Vec<TargetFilter> = Vec::new();
    let mut i: usize = 0;
    while i < fs.len()
        invariant
            i <= fs@.len(),
            forall|j: int| 0 <= j < fs@.len() ==> decreases_to!(whole => #[trigger] fs@[j]),
            all_resolved(*chosen, color, fs@.take(i as int), out@, outer),
        decreases fs@.len() - i,
    {
        let g = resolve_source_filter(&fs[i], chosen, color, outer);
        proof {
            lemma_all_resolved_push(*chosen, color, fs@.take(i as int), out@, fs@[i as int], g, outer);
            assert(fs@.take(i + 1) =~= fs@.take(i as int).push(fs@[i as int]));
        }
        out.push(g);
        i = i + 1;
    }
    assert(fs@.take(i as int) =~= fs@);
    out
}

/// The target filter of a prevention effect.
pub open spec fn prevent_target(ab: ResolvedAbility) -> TargetFilter {
    match ab.effect {
        Effect::PreventDamage { target, .. } => target,
        _ => TargetFilter::Any,
    }
}

/// The damage-source filter of a prevention effect.
pub open spec fn prevent_source_filter(ab: ResolvedAbility) -> Option<TargetFilter> {
    match ab.effect {
        Effect::PreventDamage { damage_source_filter, .. } => damage_source_filter,
        _ => None,
    }
}

/// The scope of a prevention effect.
pub open spec fn prevent_scope(ab: ResolvedAbility) -> PreventionScope {
    match ab.effect {
        Effect::PreventDamage { scope, .. } => scope,
        _ => PreventionScope::AllDamage,
    }
}

/// The amount a shield prevents; a dynamic amount is counted as the effect
/// resolves, at least zero (CR 615.11).
pub open spec fn shield_amount(s: GameState, ab: ResolvedAbility) -> PreventionAmount {
    match ab.effect {
        Effect::PreventDamage { amount, amount_dynamic, .. } => match amount_dynamic {
            Some(q) => PreventionAmount::Next(clamped_quantity(s, q, ability_ctx(ab)) as u32),
            None => amount,
        },
        _ => PreventionAmount::All,
    }
}

/// The color chosen for the object, where it exists and one was chosen.
pub open spec fn chosen_color_of(s: GameState, id: ObjectId) -> Option<ManaColor> {
    if s.has_obj(id) {
        s.ov(id).chosen_color
    } else {
        None
    }
}

/// CR 608.2c: the shield protects an object the parent ability chose.
pub open spec fn hosts_on_parent_object(ab: ResolvedAbility) -> bool {
    &&& prevent_target(ab) == TargetFilter::ParentTarget
    &&& exists|i: int| 0 <= i < ab.targets@.len() && ab.targets@[i] is Object
}

/// The players whose damage a shield covers, from the effect's own target
/// filter: any player, a given player, or the player a context filter names.
pub open spec fn untargeted_filter(s: GameState, ab: ResolvedAbility, t: TargetFilter) -> Option<DamageTargetFilter> {
    match t {
        TargetFilter::Any => None,
        TargetFilter::Player => Some(DamageTargetFilter::Player { player: DamageTargetPlayerScope::Any }),
        TargetFilter::SpecificPlayer { id } => Some(
            DamageTargetFilter::Player { player: DamageTargetPlayerScope::Specific(id) },
        ),
        _ => if is_context_ref(t) {
            Some(DamageTargetFilter::Player { player: DamageTargetPlayerScope::Specific(context_player(s, ab, t)) })
        } else {
            None
        },
    }
}

/// The damage-recipient player filter every shield of the effect starts with.
pub open spec fn base_target_filter(s: GameState, ab: ResolvedAbility) -> Option<DamageTargetFilter> {
    if hosts_on_parent_object(ab) {
        None
    } else {
        untargeted_filter(s, ab, prevent_target(ab))
    }
}

/// CR 614.1a: a typed filter on the recipients ("Dogs you control") scopes
/// the shield to the damaged objects that match it.
pub open spec fn wants_recipient_filter(s: GameState, ab: ResolvedAbility) -> bool {
    let t = prevent_target(ab);
    &&& !hosts_on_parent_object(ab)
    &&& untargeted_filter(s, ab, t) is None
    &&& !(t is Any || t is ParentTarget || is_context_ref(t))
}

/// The shield built from the given parts, for a host: `None` for the
/// effect's own host, an object target, or a player target (which narrows
/// the shield to damage dealt to that player). A shield on an object with no
/// recipient filter covers only damage to that object.
pub open spec fn shield_built(
    chosen: Option<ChosenDamageSource>,
    color: Option<ManaColor>,
    amount: PreventionAmount,
    source_filter: Option<TargetFilter>,
    scope: PreventionScope,
    base: Option<DamageTargetFilter>,
    want_recipient: bool,
    target: TargetFilter,
    rd: ReplacementDefinition,
    tag: Option<TargetRef>,
) -> bool {
    &&& rd.event == ReplacementEvent::DamageDone
    &&& rd.shield_kind == (ShieldKind::Prevention { amount })
    &&& (rd.description matches Some(d) && d@ == "Prevent damage"@)
    &&& match source_filter {
        None => rd.damage_source_filter is None,
        Some(f) => (rd.damage_source_filter matches Some(g) && source_resolved(chosen, color, f, g, true)),
    }
    &&& rd.combat_scope == if scope == PreventionScope::CombatDamage {
        Some(CombatDamageScope::CombatOnly)
    } else {
        None
    }
    &&& !rd.is_consumed
    &&& rd.damage_target_filter == match tag {
        Some(TargetRef::Player(p)) => Some(DamageTargetFilter::Player { player: DamageTargetPlayerScope::Specific(p) }),
        _ => base,
    }
    &&& if want_recipient {
        (rd.valid_card matches Some(g) && same_filter(target, g))
    } else if tag matches Some(TargetRef::Object(_)) {
        rd.valid_card == Some(TargetFilter::SelfRef)
    } else {
        rd.valid_card is None
    }
}

/// CR 615: the shield a prevention effect creates for a host.
pub open spec fn shield_ok(s: GameState, ab: ResolvedAbility, rd: ReplacementDefinition, tag: Option<TargetRef>) -> bool {
    shield_built(
        s.last_chosen_damage_source,
        chosen_color_of(s, ab.source_id),
        shield_amount(s, ab),
        prevent_source_filter(ab),
        prevent_scope(ab),
        base_target_filter(s, ab),
        wants_recipient_filter(s, ab),
        prevent_target(ab),
        rd,
        tag,
    )
}

/// CR 615: the shields are placed on the targets, where there are targets
/// and the filter is no context filter (or names the parent's targets).
pub open spec fn host_on_targets(ab: ResolvedAbility) -> bool {
    &&& ab.targets@.len() > 0
    &&& (!is_context_ref(prevent_target(ab)) || prevent_target(ab) == TargetFilter::ParentTarget)
}

/// The source is an object on the battlefield or in the command zone, where
/// a shield on it keeps working.
pub open spec fn source_active(s: GameState, src: ObjectId) -> bool {
    s.has_obj(src) && (s.ov(src).zone == Zone::Battlefield || s.ov(src).zone == Zone::Command)
}

/// The hosts of the shields, in target order, that the object `id` gets:
/// one per target naming it, and, when it is the still-working source, one
/// per player target.
pub open spec fn target_tags(ts: Seq<TargetRef>, id: ObjectId, src: ObjectId, active: bool) -> Seq<
    Option<TargetRef>,
>
    decreases ts.len(),
{
    if ts.len() == 0 {
        Seq::empty()
    } else {
        let rest = target_tags(ts.drop_last(), id, src, active);
        match ts.last() {
            TargetRef::Object(o) => if o == id {
                rest.push(Some(ts.last()))
            } else {
                rest
            },
            TargetRef::Player(p) => if active && id == src {
                rest.push(Some(ts.last()))
            } else {
                rest
            },
        }
    }
}

/// The hosts of the player-scoped shields that go to the game's pending
/// list: one per player target when the source no longer works.
pub open spec fn pending_target_tags(ts: Seq<TargetRef>, active: bool) -> Seq<Option<TargetRef>>
    decreases ts.len(),
{
    if ts.len() == 0 {
        Seq::empty()
    } else {
        let rest = pending_target_tags(ts.drop_last(), active);
        match ts.last() {
            TargetRef::Object(_) => rest,
            TargetRef::Player(p) => if active {
                rest
            } else {
                rest.push(Some(ts.last()))
            },
        }
    }
}

/// The hosts of the shields the object `id` gets. Without targets the single
/// shield goes on the source when it is a permanent on the battlefield
/// (CR 615.3).
pub open spec fn object_tags(s: GameState, ab: ResolvedAbility, id: ObjectId) -> Seq<Option<TargetRef>> {
    if host_on_targets(ab) {
        target_tags(ab.targets@, id, ab.source_id, source_active(s, ab.source_id))
    } else if id == ab.source_id && s.has_obj(id) && s.ov(id).zone == Zone::Battlefield {
        seq![None]
    } else {
        Seq::empty()
    }
}

/// The hosts of the shields that go to the game's pending list, which keeps
/// them working until the end of the turn after an instant or sorcery left
/// the stack.
pub open spec fn pending_tags(s: GameState, ab: ResolvedAbility) -> Seq<Option<TargetRef>> {
    if host_on_targets(ab) {
        pending_target_tags(ab.targets@, source_active(s, ab.source_id))
    } else if s.has_obj(ab.source_id) && s.ov(ab.source_id).zone == Zone::Battlefield {
        Seq::empty()
    } else {
        seq![None]
    }
}

/// `b` is `a` with one shield added per host, in order.
pub open spec fn shields_added(
    s: GameState,
    ab: ResolvedAbility,
    a: Seq<ReplacementDefinition>,
    b: Seq<ReplacementDefinition>,
    tags: Seq<Option<TargetRef>>,
) -> bool {
    &&& b.len() == a.len() + tags.len()
    &&& b.take(a.len() as int) == a
    &&& forall|k: int| 0 <= k < tags.len() ==> shield_ok(s, ab, #[trigger] b[a.len() + k], tags[k])
}

proof fn lemma_shields_added_push(
    s: GameState,
    ab: ResolvedAbility,
    a: Seq<ReplacementDefinition>,
    b: Seq<ReplacementDefinition>,
    tags: Seq<Option<TargetRef>>,
    rd: ReplacementDefinition,
    tag: Option<TargetRef>,
)
    requires
        shields_added(s, ab, a, b, tags),
        shield_ok(s, ab, rd, tag),
    ensures
        shields_added(s, ab, a, b.push(rd), tags.push(tag)),
{
    assert(b.push(rd).take(a.len() as int) =~= b.take(a.len() as int));
    assert forall|k: int| 0 <= k < tags.len() + 1 implies shield_ok(
        s,
        ab,
        #[trigger] b.push(rd)[a.len() + k],
        tags.push(tag)[k],
    ) by {
        if k < tags.len() {
            assert(b.push(rd)[a.len() + k] == b[a.len() + k]);
        }
    }
}

fn make_shield(
    chosen: &Option<ChosenDamageSource>,
    color: Option<ManaColor>,
    amount: PreventionAmount,
    source_filter: &Option<TargetFilter>,
    scope: PreventionScope,
    base: Option<DamageTargetFilter>,
    want_recipient: bool,
    target: &TargetFilter,
    tag: Option<TargetRef>,
) -> (rd: ReplacementDefinition)
    ensures
        shield_built(*chosen, color, amount, *source_filter, scope, base, want_recipient, *target, rd, tag),
{
    let damage_source_filter = match source_filter {
        Some(f) => Some(resolve_source_filter(f, chosen, color, true)),
        None => None,
    };
    let combat_scope = if matches!(scope, PreventionScope::CombatDamage) {
        Some(CombatDamageScope::CombatOnly)
    } else {
        None
    };
    let damage_target_filter = match tag {
        Some(TargetRef::Player(p)) => Some(
            DamageTargetFilter::Player { player: DamageTargetPlayerScope::Specific(p) },
        ),
        _ => base,
    };
    let valid_card = if want_recipient {
        Some(target.clone())
    } else if matches!(tag, Some(TargetRef::Object(_))) {
        Some(TargetFilter::SelfRef)
    } else {
        None
    };
    let description = string_of("Prevent damage");
    ReplacementDefinition {
        event: ReplacementEvent::DamageDone,
        shield_kind: ShieldKind::Prevention { amount },
        description: Some(description),
        damage_source_filter,
        damage_target_filter,
        valid_card,
        combat_scope,
        is_consumed: false,
    }
}

fn chosen_color_exec(state: &GameState, id: ObjectId) -> (c: Option<ManaColor>)
    ensures
        c == chosen_color_of(*state, id),
{
    match state.object(id) {
        Some(o) => o.chosen_color,
        None => None,
    }
}

fn untargeted_damage_filter(state: &GameState, ability: &ResolvedAbility, target: &TargetFilter) -> (r: Option<
    DamageTargetFilter,
>)
    ensures
        r == untargeted_filter(*state, *ability, *target),
{
    match target {
        TargetFilter::Any => None,
        TargetFilter::Player => Some(DamageTargetFilter::Player { player: DamageTargetPlayerScope::Any }),
        TargetFilter::SpecificPlayer { id } => Some(
            DamageTargetFilter::Player { player: DamageTargetPlayerScope::Specific(*id) },
        ),
        TargetFilter::Controller | TargetFilter::ParentTarget | TargetFilter::ParentTargetController
        | TargetFilter::TriggeringPlayer => Some(
            DamageTargetFilter::Player {
                player: DamageTargetPlayerScope::Specific(resolve_player_for_context_ref(state, ability, target)),
            },
        ),
        _ => None,
    }
}

fn has_object_target(ts: &Vec<TargetRef>) -> (r: bool)
    ensures
        r == exists|i: int| 0 <= i < ts@.len() && ts@[i] is Object,
{
    let mut i: usize = 0;
    while i < ts.len()
        invariant
            i <= ts@.len(),
            forall|j: int| 0 <= j < i ==> !(ts@[j] is Object),
        decreases ts@.len() - i,
    {
        if matches!(ts[i], TargetRef::Object(_)) {
            return true;
        }
        i = i + 1;
    }
    false
}

fn is_context_filter(t: &TargetFilter) -> (r: bool)
    ensures
        r == is_context_ref(*t),
{
    matches!(
        t,
        TargetFilter::Controller | TargetFilter::ParentTarget | TargetFilter::ParentTargetController
            | TargetFilter::TriggeringPlayer
    )
}

fn add_shield(o: &mut GameObject, rd: ReplacementDefinition)
    ensures
        final(o)@ == (ObjectView { replacement_definitions: old(o)@.replacement_definitions.push(rd), ..old(o)@ }),
        final(o).id == old(o).id,
        final(o).zone == old(o).zone,
        final(o).owner == old(o).owner,
        final(o).mana_cost@ == old(o).mana_cost@,
{
    o.replacement_definitions.push(rd);
}

/// Every object keeps all of its view but its shields, and its shields grew
/// by one per host `object_tags` gives for it, in order.
pub open spec fn objects_shielded(s0: GameState, s1: GameState, ab: ResolvedAbility) -> bool {
    &&& s1.objects@.len() == s0.objects@.len()
    &&& forall|i: int|
        0 <= i < s0.objects@.len() ==> (ObjectView {
            replacement_definitions: s0.objects@[i]@.replacement_definitions,
            ..#[trigger] s1.objects@[i]@
        }) == s0.objects@[i]@ && shields_added(
            s0,
            ab,
            s0.objects@[i]@.replacement_definitions,
            s1.objects@[i]@.replacement_definitions,
            object_tags(s0, ab, ObjectId(i as u64)),
        )
}

/// The target `t` puts its shield on the object `id`.
pub open spec fn lands_on(t: TargetRef, id: ObjectId, src: ObjectId, active: bool) -> bool {
    match t {
        TargetRef::Object(o) => o == id,
        TargetRef::Player(_) => active && id == src,
    }
}

/// The object keeps all of its view but its shields.
pub open spec fn same_but_shields(a: ObjectView, b: ObjectView) -> bool {
    (ObjectView { replacement_definitions: a.replacement_definitions, ..b }) == a
}

/// The shields of the targets so far are placed.
#[verifier::opaque]
pub open spec fn placed(s0: GameState, s1: GameState, ab: ResolvedAbility, ts: Seq<TargetRef>, active: bool) -> bool {
    &&& s1.objects@.len() == s0.objects@.len()
    &&& forall|i: int|
        0 <= i < s0.objects@.len() ==> same_but_shields(s0.objects@[i]@, #[trigger] s1.objects@[i]@)
            && shields_added(
            s0,
            ab,
            s0.objects@[i]@.replacement_definitions,
            s1.objects@[i]@.replacement_definitions,
            target_tags(ts, ObjectId(i as u64), ab.source_id, active),
        )
    &&& shields_added(
        s0,
        ab,
        s0.pending_damage_replacements@,
        s1.pending_damage_replacements@,
        pending_target_tags(ts, active),
    )
}

proof fn lemma_placed_start(s0: GameState, ab: ResolvedAbility, active: bool)
    ensures
        placed(s0, s0, ab, Seq::empty(), active),
{
    reveal(placed);
    assert forall|i: int| 0 <= i < s0.objects@.len() implies same_but_shields(s0.objects@[i]@, #[trigger] s0.objects@[i]@)
        && shields_added(
        s0,
        ab,
        s0.objects@[i]@.replacement_definitions,
        s0.objects@[i]@.replacement_definitions,
        target_tags(Seq::empty(), ObjectId(i as u64), ab.source_id, active),
    ) by {
        let d0 = s0.objects@[i]@.replacement_definitions;
        assert(d0.take(d0.len() as int) =~= d0);
    }
    let p0 = s0.pending_damage_replacements@;
    assert(p0.take(p0.len() as int) =~= p0);
}

proof fn lemma_placed_len(s0: GameState, s1: GameState, ab: ResolvedAbility, ts: Seq<TargetRef>, active: bool)
    requires
        placed(s0, s1, ab, ts, active),
    ensures
        s1.objects@.len() == s0.objects@.len(),
{
    reveal(placed);
}

proof fn lemma_shields_added_maybe(
    s: GameState,
    ab: ResolvedAbility,
    a: Seq<ReplacementDefinition>,
    b: Seq<ReplacementDefinition>,
    tags: Seq<Option<TargetRef>>,
    rd: ReplacementDefinition,
    tag: Option<TargetRef>,
    cond: bool,
)
    requires
        shields_added(s, ab, a, b, tags),
        shield_ok(s, ab, rd, tag),
    ensures
        shields_added(
            s,
            ab,
            a,
            if cond {
                b.push(rd)
            } else {
                b
            },
            if cond {
                tags.push(tag)
            } else {
                tags
            },
        ),
{
    if cond {
        lemma_shields_added_push(s, ab, a, b, tags, rd, tag);
    }
}

proof fn lemma_placed_step(
    s0: GameState,
    s1: GameState,
    s2: GameState,
    ab: ResolvedAbility,
    ts: Seq<TargetRef>,
    t: TargetRef,
    sh: ReplacementDefinition,
    active: bool,
)
    requires
        placed(s0, s1, ab, ts, active),
        shield_ok(s0, ab, sh, Some(t)),
        s2.objects@.len() == s1.objects@.len(),
        forall|i: int|
            0 <= i < s1.objects@.len() ==> (#[trigger] s2.objects@[i])@ == (ObjectView {
                replacement_definitions: if lands_on(t, ObjectId(i as u64), ab.source_id, active) {
                    s1.objects@[i]@.replacement_definitions.push(sh)
                } else {
                    s1.objects@[i]@.replacement_definitions
                },
                ..s1.objects@[i]@
            }),
        s2.pending_damage_replacements@ == if (t is Player && !active) {
            s1.pending_damage_replacements@.push(sh)
        } else {
            s1.pending_damage_replacements@
        },
    ensures
        placed(s0, s2, ab, ts.push(t), active),
{
    reveal(placed);
    assert(ts.push(t).drop_last() =~= ts);
    assert forall|i: int| 0 <= i < s0.objects@.len() implies same_but_shields(s0.objects@[i]@, #[trigger] s2.objects@[i]@)
        && shields_added(
        s0,
        ab,
        s0.objects@[i]@.replacement_definitions,
        s2.objects@[i]@.replacement_definitions,
        target_tags(ts.push(t), ObjectId(i as u64), ab.source_id, active),
    ) by {
        assert(same_but_shields(s0.objects@[i]@, s1.objects@[i]@));
        lemma_shields_added_maybe(
            s0,
            ab,
            s0.objects@[i]@.replacement_definitions,
            s1.objects@[i]@.replacement_definitions,
            target_tags(ts, ObjectId(i as u64), ab.source_id, active),
            sh,
            Some(t),
            lands_on(t, ObjectId(i as u64), ab.source_id, active),
        );
    }
    lemma_shields_added_maybe(
        s0,
        ab,
        s0.pending_damage_replacements@,
        s1.pending_damage_replacements@,
        pending_target_tags(ts, active),
        sh,
        Some(t),
        t is Player && !active,
    );
}

proof fn lemma_placed_done(s0: GameState, s1: GameState, ab: ResolvedAbility, active: bool)
    requires
        placed(s0, s1, ab, ab.targets@, active),
        host_on_targets(ab),
        active == source_active(s0, ab.source_id),
    ensures
        objects_shielded(s0, s1, ab),
        shields_added(s0, ab, s0.pending_damage_replacements@, s1.pending_damage_replacements@, pending_tags(s0, ab)),
        forall|i: int|
            0 <= i < s0.objects@.len() ==> (#[trigger] s1.objects@[i]).id == s0.objects@[i].id
                && s1.objects@[i].zone == s0.objects@[i].zone && s1.objects@[i].owner == s0.objects@[i].owner
                && s1.objects@[i].mana_cost@ == s0.objects@[i].mana_cost@,
{
    reveal(placed);
    assert forall|i: int| 0 <= i < s0.objects@.len() implies (#[trigger] s1.objects@[i]).id == s0.objects@[i].id
        && s1.objects@[i].zone == s0.objects@[i].zone && s1.objects@[i].owner == s0.objects@[i].owner
        && s1.objects@[i].mana_cost@ == s0.objects@[i].mana_cost@ by {
        assert(same_but_shields(s0.objects@[i]@, s1.objects@[i]@));
    }
}

/// Put a target's shield where it goes: on the targeted object, on the
/// still-working source for a player target, else on the pending list.
fn host_shield(state: &mut GameState, t: TargetRef, sh: ReplacementDefinition, src: ObjectId, active: bool)
    requires
        active ==> old(state).has_obj(src),
        old(state).objects@.len() <= u64::MAX,
    ensures
        final(state).objects@.len() == old(state).objects@.len(),
        forall|i: int|
            0 <= i < old(state).objects@.len() ==> (#[trigger] final(state).objects@[i])@ == (ObjectView {
                replacement_definitions: if lands_on(t, ObjectId(i as u64), src, active) {
                    old(state).objects@[i]@.replacement_definitions.push(sh)
                } else {
                    old(state).objects@[i]@.replacement_definitions
                },
                ..old(state).objects@[i]@
            }),
        final(state).pending_damage_replacements@ == if (t is Player && !active) {
            old(state).pending_damage_replacements@.push(sh)
        } else {
            old(state).pending_damage_replacements@
        },
        frame(*old(state), *final(state), Touched { objects: true, pending_damage_replacements: true, ..touch_none() }),
{
    let n = state.objects.len();
    let ghost os = state.objects@;
    match t {
        TargetRef::Object(o) => {
            if o.0 < n as u64 {
                let oi = o.0 as usize;
                add_shield(&mut state.objects[oi], sh);
                assert(state.objects@ == os.update(oi as int, state.objects@[oi as int]));
            }
        },
        TargetRef::Player(_) => {
            if active {
                let si = src.0 as usize;
                add_shield(&mut state.objects[si], sh);
                assert(state.objects@ == os.update(si as int, state.objects@[si as int]));
            } else {
                state.pending_damage_replacements.push(sh);
            }
        },
    }
}

/// Put the shield of an untargeted effect on the source, when that is on
/// the battlefield, else on the pending list.
fn host_untargeted(state: &mut GameState, sh: ReplacementDefinition, src: ObjectId, on_battlefield: bool)
    requires
        on_battlefield ==> old(state).has_obj(src),
    ensures
        final(state).objects@.len() == old(state).objects@.len(),
        forall|i: int|
            0 <= i < old(state).objects@.len() ==> (#[trigger] final(state).objects@[i])@ == (ObjectView {
                replacement_definitions: if on_battlefield && i == src.0 {
                    old(state).objects@[i]@.replacement_definitions.push(sh)
                } else {
                    old(state).objects@[i]@.replacement_definitions
                },
                ..old(state).objects@[i]@
            }),
        final(state).pending_damage_replacements@ == if on_battlefield {
            old(state).pending_damage_replacements@
        } else {
            old(state).pending_damage_replacements@.push(sh)
        },
        frame(*old(state), *final(state), Touched { objects: true, pending_damage_replacements: true, ..touch_none() }),
{
    let n = state.objects.len();
    let ghost os = state.objects@;
    if on_battlefield {
        let si = src.0 as usize;
        add_shield(&mut state.objects[si], sh);
        assert(state.objects@ == os.update(si as int, state.objects@[si as int]));
    } else {
        state.pending_damage_replacements.push(sh);
    }
}

proof fn lemma_untargeted_done(s0: GameState, s1: GameState, ab: ResolvedAbility, sh: ReplacementDefinition, on_battlefield: bool)
    requires
        s0.wf(),
        !host_on_targets(ab),
        shield_ok(s0, ab, sh, None),
        on_battlefield == (s0.has_obj(ab.source_id) && s0.ov(ab.source_id).zone == Zone::Battlefield),
        s1.objects@.len() == s0.objects@.len(),
        forall|i: int|
            0 <= i < s0.objects@.len() ==> (#[trigger] s1.objects@[i])@ == (ObjectView {
                replacement_definitions: if on_battlefield && i == ab.source_id.0 {
                    s0.objects@[i]@.replacement_definitions.push(sh)
                } else {
                    s0.objects@[i]@.replacement_definitions
                },
                ..s0.objects@[i]@
            }),
        s1.pending_damage_replacements@ == if on_battlefield {
            s0.pending_damage_replacements@
        } else {
            s0.pending_damage_replacements@.push(sh)
        },
    ensures
        objects_shielded(s0, s1, ab),
        shields_added(s0, ab, s0.pending_damage_replacements@, s1.pending_damage_replacements@, pending_tags(s0, ab)),
        forall|i: int|
            0 <= i < s0.objects@.len() ==> (#[trigger] s1.objects@[i]).id == s0.objects@[i].id
                && s1.objects@[i].zone == s0.objects@[i].zone && s1.objects@[i].owner == s0.objects@[i].owner
                && s1.objects@[i].mana_cost@ == s0.objects@[i].mana_cost@,
{
    let empty = Seq::<Option<TargetRef>>::empty();
    assert(empty.push(None) =~= seq![None]);
    assert forall|i: int| 0 <= i < s0.objects@.len() implies (ObjectView {
        replacement_definitions: s0.objects@[i]@.replacement_definitions,
        ..#[trigger] s1.objects@[i]@
    }) == s0.objects@[i]@ && shields_added(
        s0,
        ab,
        s0.objects@[i]@.replacement_definitions,
        s1.objects@[i]@.replacement_definitions,
        object_tags(s0, ab, ObjectId(i as u64)),
    ) by {
        let d0 = s0.objects@[i]@.replacement_definitions;
        assert(d0.take(d0.len() as int) =~= d0);
        assert(shields_added(s0, ab, d0, d0, empty));
        assert(s0.objects@[i].id == ObjectId(i as u64));
        lemma_shields_added_maybe(s0, ab, d0, d0, empty, sh, None, on_battlefield && i == ab.source_id.0);
    }
    let p0 = s0.pending_damage_replacements@;
    assert(p0.take(p0.len() as int) =~= p0);
    assert(shields_added(s0, ab, p0, p0, empty));
    lemma_shields_added_maybe(s0, ab, p0, p0, empty, sh, None, !on_battlefield);
    assert forall|i: int| 0 <= i < s0.objects@.len() implies (#[trigger] s1.objects@[i]).id == s0.objects@[i].id
        && s1.objects@[i].zone == s0.objects@[i].zone && s1.objects@[i].owner == s0.objects@[i].owner
        && s1.objects@[i].mana_cost@ == s0.objects@[i].mana_cost@ by {
        assert(s1.objects@[i]@.id == s0.objects@[i]@.id);
    }
}

/// CR 615: resolve a prevention effect by creating its shields. A targeted
/// effect puts one shield on each object target (covering only damage to
/// it, unless a recipient filter scopes it) and one per player target,
/// scoped to that player, on the source when it is still on the battlefield
/// or in the command zone, else on the game's pending list. An untargeted
/// effect puts its shield on the source when that is a permanent on the
/// battlefield, else on the pending list. A dynamic amount is counted now
/// (CR 615.11). Fails with `InvalidParam`, changing nothing, on another
/// effect. A chosen damage source whose own filter names the chosen damage
/// source again would be expanded without end, so that input is left out.
#[verifier::rlimit(40)]
pub fn resolve(state: &mut GameState, ability: &ResolvedAbility, events: &mut Vec<GameEvent>) -> (r: Result<
    (),
    EffectError,
>)
    requires
        old(state).wf(),
        prevent_source_filter(*ability) matches Some(f) ==> (mentions_chosen_source(f) ==> (old(
            state,
        ).last_chosen_damage_source matches Some(c) ==> !mentions_chosen_source(c.source_filter))),
    ensures
        final(state).wf(),
        ability.effect is PreventDamage ==> {
            &&& r is Ok
            &&& objects_shielded(*old(state), *final(state), *ability)
            &&& shields_added(
                *old(state),
                *ability,
                old(state).pending_damage_replacements@,
                final(state).pending_damage_replacements@,
                pending_tags(*old(state), *ability),
            )
            &&& frame(*old(state), *final(state), Touched { objects: true, pending_damage_replacements: true, ..touch_none() })
            &&& final(events)@ == old(events)@.push(
                GameEvent::EffectResolved { kind: EffectKind::PreventDamage, source_id: ability.source_id },
            )
        },
        !(ability.effect is PreventDamage) ==> {
            &&& is_invalid_param(r, "expected PreventDamage effect"@)
            &&& *final(state) == *old(state)
            &&& final(events)@ == old(events)@
        },
{
    let (amount0, amount_dynamic, target, scope, source_filter) = match &ability.effect {
        Effect::PreventDamage { amount, amount_dynamic, target, scope, damage_source_filter } => (
            amount,
            amount_dynamic,
            target,
            scope,
            damage_source_filter,
        ),
        _ => return Err(EffectError::InvalidParam(string_of("expected PreventDamage effect"))),
    };
    let ghost s0 = *state;
    let src = ability.source_id;
    let amount = match amount_dynamic {
        Some(q) => PreventionAmount::Next(resolve_count(state, q, ctx_of(ability)) as u32),
        None => *amount0,
    };
    let color = chosen_color_exec(state, src);
    let host_parent = matches!(target, TargetFilter::ParentTarget) && has_object_target(&ability.targets);
    let base = if host_parent {
        None
    } else {
        untargeted_damage_filter(state, ability, target)
    };
    let context = is_context_filter(target);
    let want_recipient = !host_parent && untargeted_damage_filter(state, ability, target).is_none() && !(matches!(
        target,
        TargetFilter::Any | TargetFilter::ParentTarget
    ) || context);
    let on_targets = ability.targets.len() > 0 && (!context || matches!(target, TargetFilter::ParentTarget));
    assert(shield_amount(s0, *ability) == amount);
    assert(base == base_target_filter(s0, *ability));
    assert(want_recipient == wants_recipient_filter(s0, *ability));
    assert(on_targets == host_on_targets(*ability));
    if on_targets {
        let active = match state.object(src) {
            Some(o) => matches!(o.zone, Zone::Battlefield | Zone::Command),
            None => false,
        };
        assert(active == source_active(s0, src));
        let mut k: usize = 0;
        proof {
            lemma_placed_start(s0, *ability, active);
            assert(ability.targets@.take(0) =~= Seq::<TargetRef>::empty());
        }
        while k < ability.targets.len()
            invariant
                k <= ability.targets@.len(),
                s0.wf(),
                ability.effect is PreventDamage,
                src == ability.source_id,
                active == source_active(s0, src),
                shield_amount(s0, *ability) == amount,
                base == base_target_filter(s0, *ability),
                want_recipient == wants_recipient_filter(s0, *ability),
                color == chosen_color_of(s0, src),
                *target == prevent_target(*ability),
                *scope == prevent_scope(*ability),
                *source_filter == prevent_source_filter(*ability),
                frame(s0, *state, Touched { objects: true, pending_damage_replacements: true, ..touch_none() }),
                placed(s0, *state, *ability, ability.targets@.take(k as int), active),
            decreases ability.targets@.len() - k,
        {
            let t = ability.targets[k];
            let sh = make_shield(
                &state.last_chosen_damage_source,
                color,
                amount,
                source_filter,
                *scope,
                base,
                want_recipient,
                target,
                Some(t),
            );
            assert(shield_ok(s0, *ability, sh, Some(t)));
            let ghost before = *state;
            proof {
                lemma_placed_len(s0, before, *ability, ability.targets@.take(k as int), active);
            }
            host_shield(state, t, sh, src, active);
            proof {
                lemma_placed_step(s0, before, *state, *ability, ability.targets@.take(k as int), t, sh, active);
                assert(ability.targets@.take(k + 1) =~= ability.targets@.take(k as int).push(t));
            }
            k = k + 1;
        }
        assert(ability.targets@.take(k as int) =~= ability.targets@);
        proof {
            lemma_placed_done(s0, *state, *ability, active);
        }
    } else {
        let sh = make_shield(
            &state.last_chosen_damage_source,
            color,
            amount,
            source_filter,
            *scope,
            base,
            want_recipient,
            target,
            None,
        );
        assert(shield_ok(s0, *ability, sh, None));
        let on_battlefield = match state.object(src) {
            Some(o) => matches!(o.zone, Zone::Battlefield),
            None => false,
        };
        host_untargeted(state, sh, src, on_battlefield);
        proof {
            lemma_untargeted_done(s0, *state, *ability, sh, on_battlefield);
        }
    }
    proof {
        lemma_wf_same_skeleton(s0, *state);
    }
    events.push(GameEvent::EffectResolved { kind: EffectKind::PreventDamage, source_id: src });
    Ok(())
}

} // verus!
