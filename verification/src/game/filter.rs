//! Which objects a target filter admits.

use vstd::prelude::*;

use crate::game::state::{card_type_view, AttachTarget, CardTypeView, GameObject, GameState, ObjectView};
use crate::text::string_of;
use crate::types::zones::Zone;
use crate::text::str_eq;
use crate::types::ability::{lemma_tfvs_index, tfv, tfvs, AttachmentKind, ControllerRef, FilterProp, TargetFilter, TypeFilter, TypeFilterView, TypedFilter};
use crate::types::card::CardType;
use crate::types::card_type::{supertype_text, CoreType, Supertype};
use crate::types::identifiers::{ObjectId, PlayerId};
use crate::types::mana::ManaColor;

verus! {

/// The ability a filter is read for: its source and its controller.
#[derive(Debug, Clone, Copy, PartialEq, Eq, Structural)]
pub struct FilterContext {
    pub source_id: ObjectId,
    pub controller: PlayerId,
}

/// The core type is a permanent type (CR 110.4).
pub open spec fn is_permanent_core(t: CoreType) -> bool {
    t == CoreType::Artifact || t == CoreType::Creature || t == CoreType::Enchantment || t
        == CoreType::Land || t == CoreType::Planeswalker || t == CoreType::Battle
}

/// The object's type line passes the type test.
pub open spec fn type_admits(ct: CardTypeView, t: TypeFilterView) -> bool
    decreases t,
{
    let types = ct.core_types;
    match t {
        TypeFilterView::Creature => types.contains(CoreType::Creature),
        TypeFilterView::Land => types.contains(CoreType::Land),
        TypeFilterView::Artifact => types.contains(CoreType::Artifact),
        TypeFilterView::Enchantment => types.contains(CoreType::Enchantment),
        TypeFilterView::Planeswalker => types.contains(CoreType::Planeswalker),
        TypeFilterView::Instant => types.contains(CoreType::Instant),
        TypeFilterView::Sorcery => types.contains(CoreType::Sorcery),
        TypeFilterView::Battle => types.contains(CoreType::Battle),
        TypeFilterView::Permanent => exists|i: int| 0 <= i < types.len() && is_permanent_core(#[trigger] types[i]),
        TypeFilterView::Card => true,
        TypeFilterView::Subtype(n) => exists|i: int| 0 <= i < ct.subtypes.len() && (#[trigger] ct.subtypes[i])@ == n,
        TypeFilterView::AnyOf(ts) => any_type_admits(ct, ts),
        TypeFilterView::Non(inner) => !type_admits(ct, *inner),
    }
}

/// Some test of the list admits the type line.
pub open spec fn any_type_admits(ct: CardTypeView, ts: Seq<TypeFilterView>) -> bool
    decreases ts,
{
    if ts.len() == 0 {
        false
    } else {
        type_admits(ct, ts[0]) || any_type_admits(ct, ts.drop_first())
    }
}

/// The object's type line has the supertype.
pub open spec fn has_supertype(ct: CardTypeView, t: Supertype) -> bool {
    exists|i: int| 0 <= i < ct.supertypes.len() && (#[trigger] ct.supertypes[i])@ == supertype_text(t)
}

/// The object has the property, read for the given ability.
pub open spec fn prop_admits(s: GameState, o: ObjectView, p: FilterProp, ctx: FilterContext) -> bool {
    match p {
        FilterProp::Another => o.id != ctx.source_id,
        FilterProp::HasColor { color } => o.color.contains(color),
        FilterProp::IsChosenColor => s.has_obj(ctx.source_id) && (s.ov(
            ctx.source_id,
        ).chosen_color matches Some(c) && o.color.contains(c)),
        FilterProp::HasSupertype { value } => has_supertype(o.card_types, value),
        FilterProp::InZone { zone } => o.zone == zone,
        FilterProp::HasAttachment { kind, controller, exclude_source } => exists|j: int|
            0 <= j < s.objects@.len() && #[trigger] attachment_of(s, j, o.id, kind, controller, exclude_source, ctx),
    }
}

/// The subtype that names an attachment kind.
pub open spec fn attachment_subtype(kind: AttachmentKind) -> Seq<char> {
    match kind {
        AttachmentKind::Aura => "Aura"@,
        AttachmentKind::Equipment => "Equipment"@,
    }
}

/// The object at index `j` is a battlefield permanent of the kind, attached
/// to `host`, controlled as required, and not the ability's source where
/// that is excluded.
pub open spec fn attachment_of(
    s: GameState,
    j: int,
    host: ObjectId,
    kind: AttachmentKind,
    controller: Option<ControllerRef>,
    exclude_source: bool,
    ctx: FilterContext,
) -> bool {
    let a = s.objects@[j]@;
    &&& a.zone == Zone::Battlefield
    &&& a.attached_to == Some(AttachTarget::Object(host))
    &&& type_admits(a.card_types, TypeFilterView::Subtype(attachment_subtype(kind)))
    &&& (exclude_source ==> a.id != ctx.source_id)
    &&& match controller {
        None => true,
        Some(ControllerRef::You) => a.controller == ctx.controller,
        Some(ControllerRef::Opponent) => a.controller != ctx.controller,
        Some(ControllerRef::TargetPlayer) => false,
    }
}

/// The object passes every part of the typed filter.
pub open spec fn typed_admits(s: GameState, o: ObjectView, tf: TypedFilter, ctx: FilterContext) -> bool {
    &&& forall|i: int| 0 <= i < tf.type_filters@.len() ==> type_admits(o.card_types, #[trigger] tfvs(tf.type_filters@)[i])
    &&& match tf.controller {
        None => true,
        Some(ControllerRef::You) => o.controller == ctx.controller,
        Some(ControllerRef::Opponent) => o.controller != ctx.controller,
        Some(ControllerRef::TargetPlayer) => false,
    }
    &&& forall|i: int| 0 <= i < tf.properties@.len() ==> prop_admits(s, o, #[trigger] tf.properties@[i], ctx)
}

/// The filter admits the object, phased out or not. Filters that name
/// players admit no object.
pub open spec fn filter_admits(s: GameState, id: ObjectId, f: TargetFilter, ctx: FilterContext) -> bool
    decreases f,
{
    match f {
        TargetFilter::Any => true,
        TargetFilter::SelfRef => id == ctx.source_id,
        TargetFilter::SpecificObject { id: x } => id == x,
        TargetFilter::Typed(tf) => s.has_obj(id) && typed_admits(s, s.ov(id), tf, ctx),
        TargetFilter::Not { filter } => !filter_admits(s, id, *filter, ctx),
        TargetFilter::And { filters } => all_admit(s, id, filters@, ctx),
        TargetFilter::Or { filters } => any_admits(s, id, filters@, ctx),
        _ => false,
    }
}

/// Every filter of the list admits the object.
pub open spec fn all_admit(s: GameState, id: ObjectId, fs: Seq<TargetFilter>, ctx: FilterContext) -> bool
    decreases fs,
{
    if fs.len() == 0 {
        true
    } else {
        filter_admits(s, id, fs[0], ctx) && all_admit(s, id, fs.drop_first(), ctx)
    }
}

/// Some filter of the list admits the object.
pub open spec fn any_admits(s: GameState, id: ObjectId, fs: Seq<TargetFilter>, ctx: FilterContext) -> bool
    decreases fs,
{
    if fs.len() == 0 {
        false
    } else {
        filter_admits(s, id, fs[0], ctx) || any_admits(s, id, fs.drop_first(), ctx)
    }
}

/// The filter admits the object and the object is not phased out: phased-out
/// permanents are treated as though they don't exist (CR 702.26b).
pub open spec fn filter_matches(s: GameState, id: ObjectId, f: TargetFilter, ctx: FilterContext) -> bool {
    !(s.has_obj(id) && s.ov(id).phased_out) && filter_admits(s, id, f, ctx)
}

} // verus!

verus! {

pub fn contains_core(types: &Vec<CoreType>, t: CoreType) -> (r: bool)
    ensures
        r == types@.contains(t),
{
    let mut i: usize = 0;
    while i < types.len()
        invariant
            i <= types@.len(),
            forall|j: int| 0 <= j < i ==> types@[j] != t,
        decreases types@.len() - i,
    {
        if types[i] == t {
            return true;
        }
        i = i + 1;
    }
    false
}

fn contains_color(colors: &Vec<ManaColor>, c: ManaColor) -> (r: bool)
    ensures
        r == colors@.contains(c),
{
    let mut i: usize = 0;
    while i < colors.len()
        invariant
            i <= colors@.len(),
            forall|j: int| 0 <= j < i ==> colors@[j] != c,
        decreases colors@.len() - i,
    {
        if colors[i] == c {
            return true;
        }
        i = i + 1;
    }
    false
}

fn is_permanent_type(t: CoreType) -> (r: bool)
    ensures
        r == is_permanent_core(t),
{
    match t {
        CoreType::Artifact | CoreType::Creature | CoreType::Enchantment | CoreType::Land
        | CoreType::Planeswalker | CoreType::Battle => true,
        _ => false,
    }
}

fn has_core(ct: &CardType, t: CoreType) -> (r: bool)
    ensures
        r == card_type_view(*ct).core_types.contains(t),
{
    contains_core(&ct.core_types, t)
}

/// Whether the type line passes the type test.
#[verifier::loop_isolation(false)]
pub fn type_filter_admits(ct: &CardType, t: &TypeFilter) -> (r: bool)
    ensures
        r == type_admits(card_type_view(*ct), tfv(*t)),
    decreases *t,
{
    let types = &ct.core_types;
    match t {
        TypeFilter::Creature => has_core(ct, CoreType::Creature),
        TypeFilter::Land => has_core(ct, CoreType::Land),
        TypeFilter::Artifact => has_core(ct, CoreType::Artifact),
        TypeFilter::Enchantment => has_core(ct, CoreType::Enchantment),
        TypeFilter::Planeswalker => has_core(ct, CoreType::Planeswalker),
        TypeFilter::Instant => has_core(ct, CoreType::Instant),
        TypeFilter::Sorcery => has_core(ct, CoreType::Sorcery),
        TypeFilter::Battle => has_core(ct, CoreType::Battle),
        TypeFilter::Permanent => {
            let mut i: usize = 0;
            while i < types.len()
                invariant
                    i <= types@.len(),
                    forall|j: int| 0 <= j < i ==> !is_permanent_core(#[trigger] types@[j]),
                decreases types@.len() - i,
            {
                if is_permanent_type(types[i]) {
                    assert(is_permanent_core(types@[i as int]));
                    assert(card_type_view(*ct).core_types == types@);
                    assert(exists|k: int| 0 <= k < types@.len() && is_permanent_core(#[trigger] types@[k]));
                    return true;
                }
                i = i + 1;
            }
            false
        },
        TypeFilter::Card => true,
        TypeFilter::Subtype(n) => {
            let mut i: usize = 0;
            while i < ct.subtypes.len()
                invariant
                    i <= ct.subtypes@.len(),
                    forall|j: int| 0 <= j < i ==> (#[trigger] ct.subtypes@[j])@ != n@,
                decreases ct.subtypes@.len() - i,
            {
                if str_eq(ct.subtypes[i].as_str(), n.as_str()) {
                    assert((ct.subtypes@[i as int])@ == n@);
                    assert(card_type_view(*ct).subtypes == ct.subtypes@);
                    assert(card_type_view(*ct).subtypes[i as int]@ == n@);
                    return true;
                }
                i = i + 1;
            }
            false
        },
        TypeFilter::AnyOf(v) => {
            proof {
                lemma_tfvs_index(v@);
            }
            assert forall|k: int| 0 <= k < v@.len() implies decreases_to!(*t => #[trigger] v@[k]) by {}
            let mut i: usize = 0;
            while i < v.len()
                invariant
                    i <= v@.len(),
                    forall|k: int| 0 <= k < v@.len() ==> decreases_to!(*t => #[trigger] v@[k]),
                    forall|j: int| 0 <= j < i ==> !type_admits(card_type_view(*ct), #[trigger] tfvs(v@)[j]),
                decreases v@.len() - i,
            {
                if type_filter_admits(ct, &v[i]) {
                    proof {
                        lemma_any_type_admits_prefix(card_type_view(*ct), tfvs(v@), i as int);
                    }
                    return true;
                }
                i = i + 1;
            }
            proof {
                lemma_any_type_admits_prefix(card_type_view(*ct), tfvs(v@), i as int);
            }
            false
        },
        TypeFilter::Non(inner) => !type_filter_admits(ct, inner),
    }
}

proof fn lemma_any_type_admits_prefix(ct: CardTypeView, ts: Seq<TypeFilterView>, k: int)
    requires
        0 <= k <= ts.len(),
        forall|j: int| 0 <= j < k ==> !type_admits(ct, #[trigger] ts[j]),
    ensures
        any_type_admits(ct, ts) == any_type_admits(ct, ts.skip(k)),
        k < ts.len() ==> (type_admits(ct, ts[k]) ==> any_type_admits(ct, ts)),
    decreases k,
{
    if k > 0 {
        lemma_any_type_admits_prefix(ct, ts.drop_first(), k - 1);
        assert(ts.drop_first().skip(k - 1) =~= ts.skip(k));
        if k < ts.len() {
            assert(ts.drop_first()[k - 1] == ts[k]);
        }
    } else {
        assert(ts.skip(0) =~= ts);
    }
}

fn object_has_supertype(ct: &CardType, t: Supertype) -> (r: bool)
    ensures
        r == has_supertype(card_type_view(*ct), t),
{
    let name = t.name();
    let mut i: usize = 0;
    while i < ct.supertypes.len()
        invariant
            i <= ct.supertypes@.len(),
            name@ == supertype_text(t),
            forall|j: int| 0 <= j < i ==> (#[trigger] ct.supertypes@[j])@ != supertype_text(t),
        decreases ct.supertypes@.len() - i,
    {
        if str_eq(ct.supertypes[i].as_str(), name) {
            assert((ct.supertypes@[i as int])@ == supertype_text(t));
            assert(card_type_view(*ct).supertypes == ct.supertypes@);
            assert(card_type_view(*ct).supertypes[i as int]@ == supertype_text(t));
            return true;
        }
        i = i + 1;
    }
    false
}

fn prop_holds(s: &GameState, o: &GameObject, p: FilterProp, ctx: FilterContext) -> (r: bool)
    ensures
        r == prop_admits(*s, o@, p, ctx),
{
    match p {
        FilterProp::Another => o.id != ctx.source_id,
        FilterProp::HasColor { color } => contains_color(&o.color, color),
        FilterProp::IsChosenColor => match s.object(ctx.source_id) {
            Some(src) => match src.chosen_color {
                Some(c) => contains_color(&o.color, c),
                None => false,
            },
            None => false,
        },
        FilterProp::HasSupertype { value } => object_has_supertype(&o.card_types, value),
        FilterProp::InZone { zone } => o.zone == zone,
        FilterProp::HasAttachment { kind, controller, exclude_source } => {
            let r = has_attachment(s, o.id, kind, controller, exclude_source, ctx);
            assert(o@.id == o.id);
            r
        },
    }
}

/// Whether some object is attached to `host` as the property requires.
fn has_attachment(
    s: &GameState,
    host: ObjectId,
    kind: AttachmentKind,
    controller: Option<ControllerRef>,
    exclude_source: bool,
    ctx: FilterContext,
) -> (r: bool)
    ensures
        r == exists|j: int|
            0 <= j < s.objects@.len() && #[trigger] attachment_of(*s, j, host, kind, controller, exclude_source, ctx),
{
    let name = match kind {
        AttachmentKind::Aura => "Aura",
        AttachmentKind::Equipment => "Equipment",
    };
    let mut j: usize = 0;
    while j < s.objects.len()
        invariant
            j <= s.objects@.len(),
            name@ == attachment_subtype(kind),
            forall|i: int| 0 <= i < j ==> !#[trigger] attachment_of(*s, i, host, kind, controller, exclude_source, ctx),
        decreases s.objects@.len() - j,
    {
        let a = &s.objects[j];
        let ctl_ok = match controller {
            None => true,
            Some(ControllerRef::You) => a.controller == ctx.controller,
            Some(ControllerRef::Opponent) => a.controller != ctx.controller,
            Some(ControllerRef::TargetPlayer) => false,
        };
        let placed = matches!(a.zone, Zone::Battlefield) && a.attached_to == Some(AttachTarget::Object(host));
        if placed && ctl_ok && !(exclude_source && a.id == ctx.source_id) {
            let st = type_filter_admits(&a.card_types, &TypeFilter::Subtype(string_of(name)));
            if st {
                assert(attachment_of(*s, j as int, host, kind, controller, exclude_source, ctx));
                return true;
            }
        }
        j = j + 1;
    }
    false
}

/// Whether the object passes every part of the typed filter.
pub fn typed_filter_admits(s: &GameState, o: &GameObject, tf: &TypedFilter, ctx: FilterContext) -> (r: bool)
    ensures
        r == typed_admits(*s, o@, *tf, ctx),
{
    proof {
        lemma_tfvs_index(tf.type_filters@);
    }
    let mut i: usize = 0;
    while i < tf.type_filters.len()
        invariant
            i <= tf.type_filters@.len(),
            tfvs(tf.type_filters@).len() == tf.type_filters@.len(),
            forall|j: int| 0 <= j < tf.type_filters@.len() ==> #[trigger] tfvs(tf.type_filters@)[j] == tfv(tf.type_filters@[j]),
            forall|j: int| 0 <= j < i ==> type_admits(o@.card_types, #[trigger] tfvs(tf.type_filters@)[j]),
        decreases tf.type_filters@.len() - i,
    {
        if !type_filter_admits(&o.card_types, &tf.type_filters[i]) {
            assert(o@.card_types == card_type_view(o.card_types));
            assert(!type_admits(o@.card_types, tfvs(tf.type_filters@)[i as int]));
            return false;
        }
        i = i + 1;
    }
    let controller_ok = match tf.controller {
        None => true,
        Some(ControllerRef::You) => o.controller == ctx.controller,
        Some(ControllerRef::Opponent) => o.controller != ctx.controller,
        Some(ControllerRef::TargetPlayer) => false,
    };
    if !controller_ok {
        return false;
    }
    let mut k: usize = 0;
    while k < tf.properties.len()
        invariant
            k <= tf.properties@.len(),
            forall|j: int| 0 <= j < k ==> prop_admits(*s, o@, #[trigger] tf.properties@[j], ctx),
        decreases tf.properties@.len() - k,
    {
        if !prop_holds(s, o, tf.properties[k], ctx) {
            return false;
        }
        k = k + 1;
    }
    true
}

proof fn lemma_all_admit_prefix(s: GameState, id: ObjectId, fs: Seq<TargetFilter>, ctx: FilterContext, k: int)
    requires
        0 <= k <= fs.len(),
        forall|j: int| 0 <= j < k ==> filter_admits(s, id, #[trigger] fs[j], ctx),
    ensures
        all_admit(s, id, fs, ctx) == all_admit(s, id, fs.skip(k), ctx),
    decreases k,
{
    if k > 0 {
        lemma_all_admit_prefix(s, id, fs.drop_first(), ctx, k - 1);
        assert(fs.drop_first().skip(k - 1) =~= fs.skip(k));
    } else {
        assert(fs.skip(0) =~= fs);
    }
}

proof fn lemma_any_admits_prefix(s: GameState, id: ObjectId, fs: Seq<TargetFilter>, ctx: FilterContext, k: int)
    requires
        0 <= k <= fs.len(),
        forall|j: int| 0 <= j < k ==> !filter_admits(s, id, #[trigger] fs[j], ctx),
    ensures
        any_admits(s, id, fs, ctx) == any_admits(s, id, fs.skip(k), ctx),
    decreases k,
{
    if k > 0 {
        lemma_any_admits_prefix(s, id, fs.drop_first(), ctx, k - 1);
        assert(fs.drop_first().skip(k - 1) =~= fs.skip(k));
    } else {
        assert(fs.skip(0) =~= fs);
    }
}

/// Whether the filter admits the object, phased out or not.
#[verifier::loop_isolation(false)]
pub fn filter_admits_object(s: &GameState, id: ObjectId, f: &TargetFilter, ctx: FilterContext) -> (r: bool)
    ensures
        r == filter_admits(*s, id, *f, ctx),
    decreases *f,
{
    match f {
        TargetFilter::Any => true,
        TargetFilter::SelfRef => id == ctx.source_id,
        TargetFilter::SpecificObject { id: x } => id == *x,
        TargetFilter::Typed(tf) => match s.object(id) {
            Some(o) => typed_filter_admits(s, o, tf, ctx),
            None => false,
        },
        TargetFilter::Not { filter } => !filter_admits_object(s, id, filter, ctx),
        TargetFilter::And { filters } => {
            assert forall|k: int| 0 <= k < filters@.len() implies decreases_to!(*f => #[trigger] filters@[k]) by {}
            let mut i: usize = 0;
            while i < filters.len()
                invariant
                    i <= filters@.len(),
                    forall|k: int| 0 <= k < filters@.len() ==> decreases_to!(*f => #[trigger] filters@[k]),
                    forall|j: int| 0 <= j < i ==> filter_admits(*s, id, #[trigger] filters@[j], ctx),
                decreases filters@.len() - i,
            {
                if !filter_admits_object(s, id, &filters[i], ctx) {
                    proof {
                        lemma_all_admit_prefix(*s, id, filters@, ctx, i as int);
                    }
                    return false;
                }
                i = i + 1;
            }
            proof {
                lemma_all_admit_prefix(*s, id, filters@, ctx, i as int);
            }
            true
        },
        TargetFilter::Or { filters } => {
            assert forall|k: int| 0 <= k < filters@.len() implies decreases_to!(*f => #[trigger] filters@[k]) by {}
            let mut i: usize = 0;
            while i < filters.len()
                invariant
                    i <= filters@.len(),
                    forall|k: int| 0 <= k < filters@.len() ==> decreases_to!(*f => #[trigger] filters@[k]),
                    forall|j: int| 0 <= j < i ==> !filter_admits(*s, id, #[trigger] filters@[j], ctx),
                decreases filters@.len() - i,
            {
                if filter_admits_object(s, id, &filters[i], ctx) {
                    proof {
                        lemma_any_admits_prefix(*s, id, filters@, ctx, i as int);
                    }
                    return true;
                }
                i = i + 1;
            }
            proof {
                lemma_any_admits_prefix(*s, id, filters@, ctx, i as int);
            }
            false
        },
        _ => false,
    }
}

/// Whether the filter admits the object and the object is not phased out.
pub fn matches_target_filter(s: &GameState, id: ObjectId, f: &TargetFilter, ctx: FilterContext) -> (r: bool)
    ensures
        r == filter_matches(*s, id, *f, ctx),
{
    match s.object(id) {
        Some(o) => {
            if o.phased_out {
                return false;
            }
        },
        None => {},
    }
    filter_admits_object(s, id, f, ctx)
}

} // verus!
