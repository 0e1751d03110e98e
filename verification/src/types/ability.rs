//! Abilities as the rules resolve them: effects, target filters, durations
//! and the resolved ability that carries them.

use vstd::prelude::*;

use crate::types::card_type::{Supertype};
use crate::types::identifiers::{ObjectId, PlayerId, TrackedSetId};
use crate::types::mana::{ManaColor, ManaCost};
use crate::types::zones::Zone;

verus! {

/// Whose turn a duration is measured against.
#[derive(Debug, Clone, Copy, PartialEq, Eq, Structural)]
pub enum PlayerScope {
    /// The controller of the effect.
    Controller,
}

/// A condition that is checked continuously (CR 611.2b).
#[derive(Debug, Clone, Copy, PartialEq, Eq, Structural)]
pub enum StaticCondition {
    /// The effect's source is tapped.
    SourceIsTapped,
}

/// How long an effect lasts (CR 611.2).
#[derive(Debug, Clone, Copy, PartialEq, Eq, Structural)]
pub enum Duration {
    UntilEndOfTurn,
    UntilEndOfCombat,
    /// Until the given player's next turn begins.
    UntilNextTurnOf { player: PlayerScope },
    /// Until the given player's next turn ends (CR 514.2).
    UntilEndOfNextTurnOf { player: PlayerScope },
    /// For as long as the condition holds.
    ForAsLongAs { condition: StaticCondition },
}

} // verus!

verus! {

/// A chosen target: an object or a player.
#[derive(Debug, Clone, Copy, PartialEq, Eq, Structural)]
pub enum TargetRef {
    Object(ObjectId),
    Player(PlayerId),
}

/// Whose permanents a typed filter admits, relative to the ability's
/// controller.
#[derive(Debug, Clone, Copy, PartialEq, Eq, Structural)]
pub enum ControllerRef {
    You,
    Opponent,
    /// The player chosen as a target of the same ability (CR 109.4, CR 115.1).
    TargetPlayer,
}

/// One type test of a typed filter.
#[derive(Debug, PartialEq, Eq)]
pub enum TypeFilter {
    Creature,
    Land,
    Artifact,
    Enchantment,
    Planeswalker,
    Instant,
    Sorcery,
    /// Any permanent type (CR 110.4).
    Permanent,
    /// Any card.
    Card,
    Battle,
    /// Objects with this subtype.
    Subtype(String),
    /// Objects that pass one of the tests.
    AnyOf(Vec<TypeFilter>),
    /// Anything but what the inner test admits.
    Non(Box<TypeFilter>),
}

/// The mathematical value of a type test.
pub enum TypeFilterView {
    Creature,
    Land,
    Artifact,
    Enchantment,
    Planeswalker,
    Instant,
    Sorcery,
    Permanent,
    Card,
    Battle,
    Subtype(Seq<char>),
    AnyOf(Seq<TypeFilterView>),
    Non(Box<TypeFilterView>),
}

/// The view of a type test.
pub open spec fn tfv(t: TypeFilter) -> TypeFilterView
    decreases t,
{
    match t {
        TypeFilter::Creature => TypeFilterView::Creature,
        TypeFilter::Land => TypeFilterView::Land,
        TypeFilter::Artifact => TypeFilterView::Artifact,
        TypeFilter::Enchantment => TypeFilterView::Enchantment,
        TypeFilter::Planeswalker => TypeFilterView::Planeswalker,
        TypeFilter::Instant => TypeFilterView::Instant,
        TypeFilter::Sorcery => TypeFilterView::Sorcery,
        TypeFilter::Permanent => TypeFilterView::Permanent,
        TypeFilter::Card => TypeFilterView::Card,
        TypeFilter::Battle => TypeFilterView::Battle,
        TypeFilter::Subtype(n) => TypeFilterView::Subtype(n@),
        TypeFilter::AnyOf(v) => TypeFilterView::AnyOf(tfvs(v@)),
        TypeFilter::Non(inner) => TypeFilterView::Non(Box::new(tfv(*inner))),
    }
}

/// The views of a list of type tests.
pub open spec fn tfvs(s: Seq<TypeFilter>) -> Seq<TypeFilterView>
    decreases s,
{
    if s.len() == 0 {
        Seq::empty()
    } else {
        tfvs(s.drop_last()).push(tfv(s.last()))
    }
}

/// The views of a list are the views of its items.
pub proof fn lemma_tfvs_index(s: Seq<TypeFilter>)
    ensures
        tfvs(s).len() == s.len(),
        forall|j: int| 0 <= j < s.len() ==> #[trigger] tfvs(s)[j] == tfv(s[j]),
    decreases s.len(),
{
    if s.len() > 0 {
        lemma_tfvs_index(s.drop_last());
        assert forall|j: int| 0 <= j < s.len() implies #[trigger] tfvs(s)[j] == tfv(s[j]) by {
            if j < s.len() - 1 {
                assert(s.drop_last()[j] == s[j]);
            }
        }
    }
}

/// An extra property a typed filter requires.
#[derive(Debug, Clone, Copy, PartialEq, Eq, Structural)]
pub enum FilterProp {
    /// Some object other than the ability's source.
    Another,
    /// An object of this color.
    HasColor { color: ManaColor },
    /// An object of the color chosen for the ability's source.
    IsChosenColor,
    /// An object with this supertype.
    HasSupertype { value: Supertype },
    /// An object in this zone.
    InZone { zone: Zone },
    /// An object with an Aura or Equipment attached to it, controlled as
    /// given; where `exclude_source`, one other than the ability's source.
    HasAttachment { kind: AttachmentKind, controller: Option<ControllerRef>, exclude_source: bool },
}

/// What kind of permanent is attached to an object (CR 301.5, CR 303.4).
#[derive(Debug, Clone, Copy, PartialEq, Eq, Structural)]
pub enum AttachmentKind {
    Aura,
    Equipment,
}

/// A filter on objects by type, controller and properties; every part must
/// hold.
#[derive(Debug, PartialEq, Eq)]
pub struct TypedFilter {
    pub type_filters: Vec<TypeFilter>,
    pub controller: Option<ControllerRef>,
    pub properties: Vec<FilterProp>,
}

/// What an effect acts on or looks for.
#[derive(Debug, PartialEq, Eq)]
pub enum TargetFilter {
    Any,
    /// Admits nothing.
    Nothing,
    /// Any player.
    Player,
    /// The ability's controller.
    Controller,
    /// The ability's source object.
    SelfRef,
    /// The targets inherited from a parent ability.
    ParentTarget,
    /// The controller of the parent ability's object target.
    ParentTargetController,
    /// The player the triggering event names.
    TriggeringPlayer,
    SpecificObject { id: ObjectId },
    SpecificPlayer { id: PlayerId },
    /// An object set that an earlier effect published.
    TrackedSet { id: TrackedSetId },
    /// The damage source chosen earlier in the resolution.
    ChosenDamageSource,
    /// The controller of the spell the triggering event names.
    TriggeringSpellController,
    /// The owner of the spell the triggering event names.
    TriggeringSpellOwner,
    /// The object the triggering event names.
    TriggeringSource,
    /// The defending player (CR 506.3d).
    DefendingPlayer,
    /// A spell on the stack.
    StackSpell,
    /// An activated or triggered ability on the stack, of a controller where given.
    StackAbility { controller: Option<ControllerRef> },
    Typed(TypedFilter),
    Not { filter: Box<TargetFilter> },
    And { filters: Vec<TargetFilter> },
    Or { filters: Vec<TargetFilter> },
}

/// Which object a quantity measures.
#[derive(Debug, Clone, Copy, PartialEq, Eq, Structural)]
pub enum ObjectScope {
    /// The object the triggering event names.
    EventSource,
    /// The ability's source.
    Source,
}

/// Where a count of distinct card types looks.
#[derive(Debug, Clone, PartialEq, Eq)]
pub enum CardTypeSetSource {
    /// The battlefield objects that match the filter.
    Objects { filter: TargetFilter },
}

/// A quantity read from the game.
#[derive(Debug, Clone, PartialEq, Eq)]
pub enum QuantityRef {
    /// The mana value of an object.
    ObjectManaValue { scope: ObjectScope },
    /// The number of distinct card types among some objects.
    DistinctCardTypes { source: CardTypeSetSource },
}

/// A number in an effect: a literal or a quantity read at resolution.
#[derive(Debug, Clone, PartialEq, Eq)]
pub enum QuantityExpr {
    Fixed { value: i32 },
    Ref { qty: QuantityRef },
}

impl TypedFilter {
    /// A filter with one type test.
    pub fn new(t: TypeFilter) -> (r: TypedFilter)
        ensures
            r.type_filters@ == seq![t],
            r.controller is None,
            r.properties@.len() == 0,
    {
        TypedFilter { type_filters: vec![t], controller: None, properties: Vec::new() }
    }

    /// A filter that admits creatures.
    pub fn creature() -> (r: TypedFilter)
        ensures
            r.type_filters@ == seq![TypeFilter::Creature],
            r.controller is None,
            r.properties@.len() == 0,
    {
        TypedFilter::new(TypeFilter::Creature)
    }

    /// This filter with one more type test.
    pub fn with_type(self, t: TypeFilter) -> (r: TypedFilter)
        ensures
            r.type_filters@ == self.type_filters@.push(t),
            r.controller == self.controller,
            r.properties@ == self.properties@,
    {
        let mut r = self;
        r.type_filters.push(t);
        r
    }

    /// This filter, admitting only the given controller's objects.
    pub fn controller(self, c: ControllerRef) -> (r: TypedFilter)
        ensures
            r.type_filters@ == self.type_filters@,
            r.controller == Some(c),
            r.properties@ == self.properties@,
    {
        let mut r = self;
        r.controller = Some(c);
        r
    }

    /// This filter with the given properties in place of its own.
    pub fn properties(self, props: Vec<FilterProp>) -> (r: TypedFilter)
        ensures
            r.type_filters@ == self.type_filters@,
            r.controller == self.controller,
            r.properties@ == props@,
    {
        let mut r = self;
        r.properties = props;
        r
    }
}

fn clone_type_filter(t: &TypeFilter) -> (r: TypeFilter)
    ensures
        tfv(r) == tfv(*t),
    decreases *t, 2nat,
{
    match t {
        TypeFilter::Creature => TypeFilter::Creature,
        TypeFilter::Land => TypeFilter::Land,
        TypeFilter::Artifact => TypeFilter::Artifact,
        TypeFilter::Enchantment => TypeFilter::Enchantment,
        TypeFilter::Planeswalker => TypeFilter::Planeswalker,
        TypeFilter::Instant => TypeFilter::Instant,
        TypeFilter::Sorcery => TypeFilter::Sorcery,
        TypeFilter::Permanent => TypeFilter::Permanent,
        TypeFilter::Card => TypeFilter::Card,
        TypeFilter::Battle => TypeFilter::Battle,
        TypeFilter::Subtype(n) => TypeFilter::Subtype(n.clone()),
        TypeFilter::AnyOf(v) => {
            assert forall|i: int| 0 <= i < v@.len() implies decreases_to!(*t => #[trigger] v@[i]) by {}
            TypeFilter::AnyOf(clone_type_filters(v, Ghost(*t)))
        },
        TypeFilter::Non(inner) => TypeFilter::Non(Box::new(clone_type_filter(inner))),
    }
}

/// A copy of each type test of the list.
pub fn clone_type_filters(v: &Vec<TypeFilter>, Ghost(whole): Ghost<TypeFilter>) -> (r: Vec<TypeFilter>)
    requires
        forall|i: int| 0 <= i < v@.len() ==> decreases_to!(whole => #[trigger] v@[i]),
    ensures
        tfvs(r@) == tfvs(v@),
    decreases whole, 1nat,
{
    let mut out: Vec<TypeFilter> = Vec::new();
    let mut i: usize = 0;
    while i < v.len()
        invariant
            i <= v@.len(),
            forall|j: int| 0 <= j < v@.len() ==> decreases_to!(whole => #[trigger] v@[j]),
            tfvs(out@) == tfvs(v@.take(i as int)),
        decreases v@.len() - i,
    {
        let c = clone_type_filter(&v[i]);
        proof {
            assert(v@.take(i + 1).drop_last() =~= v@.take(i as int));
            assert(out@.push(c).drop_last() =~= out@);
        }
        out.push(c);
        i = i + 1;
    }
    assert(v@.take(i as int) =~= v@);
    out
}

impl Clone for TypeFilter {
    fn clone(&self) -> (r: Self)
        ensures
            tfv(r) == tfv(*self),
    {
        clone_type_filter(self)
    }
}

/// The two typed filters have the same parts.
pub open spec fn same_typed(a: TypedFilter, b: TypedFilter) -> bool {
    &&& tfvs(a.type_filters@) == tfvs(b.type_filters@)
    &&& a.controller == b.controller
    &&& a.properties@ == b.properties@
}

impl Clone for TypedFilter {
    fn clone(&self) -> (r: Self)
        ensures
            same_typed(r, *self),
    {
        let mut type_filters: Vec<TypeFilter> = Vec::new();
        let mut i: usize = 0;
        while i < self.type_filters.len()
            invariant
                i <= self.type_filters@.len(),
                tfvs(type_filters@) == tfvs(self.type_filters@.take(i as int)),
            decreases self.type_filters@.len() - i,
        {
            let c = self.type_filters[i].clone();
            proof {
                assert(self.type_filters@.take(i + 1).drop_last() =~= self.type_filters@.take(i as int));
                assert(type_filters@.push(c).drop_last() =~= type_filters@);
            }
            type_filters.push(c);
            i = i + 1;
        }
        assert(self.type_filters@.take(i as int) =~= self.type_filters@);
        let mut properties: Vec<FilterProp> = Vec::new();
        let mut k: usize = 0;
        while k < self.properties.len()
            invariant
                k <= self.properties@.len(),
                properties@ == self.properties@.take(k as int),
            decreases self.properties@.len() - k,
        {
            properties.push(self.properties[k]);
            assert(self.properties@.take(k + 1) =~= self.properties@.take(k as int).push(
                self.properties@[k as int],
            ));
            k = k + 1;
        }
        assert(self.properties@.take(k as int) =~= self.properties@);
        TypedFilter { type_filters, controller: self.controller, properties }
    }
}

/// The two filters have the same structure and parts: what a copy of a
/// filter is to the filter.
pub open spec fn same_filter(a: TargetFilter, b: TargetFilter) -> bool
    decreases a,
{
    match a {
        TargetFilter::Typed(x) => b matches TargetFilter::Typed(y) && same_typed(x, y),
        TargetFilter::Not { filter: f } => b matches TargetFilter::Not { filter: g } && same_filter(*f, *g),
        TargetFilter::And { filters: fs } => b matches TargetFilter::And { filters: gs } && same_filters(fs@, gs@),
        TargetFilter::Or { filters: fs } => b matches TargetFilter::Or { filters: gs } && same_filters(fs@, gs@),
        _ => a == b,
    }
}

/// The two lists hold the same filters, in the same order.
pub open spec fn same_filters(fs: Seq<TargetFilter>, gs: Seq<TargetFilter>) -> bool
    decreases fs,
{
    if fs.len() == 0 {
        gs.len() == 0
    } else {
        gs.len() > 0 && same_filter(fs[0], gs[0]) && same_filters(fs.drop_first(), gs.drop_first())
    }
}

proof fn lemma_same_filters_push(fs: Seq<TargetFilter>, gs: Seq<TargetFilter>, f: TargetFilter, g: TargetFilter)
    requires
        same_filters(fs, gs),
        same_filter(f, g),
    ensures
        same_filters(fs.push(f), gs.push(g)),
    decreases fs.len(),
{
    if fs.len() > 0 {
        assert(fs.push(f).drop_first() =~= fs.drop_first().push(f));
        assert(gs.push(g).drop_first() =~= gs.drop_first().push(g));
        assert(fs.push(f)[0] == fs[0]);
        assert(gs.push(g)[0] == gs[0]);
        lemma_same_filters_push(fs.drop_first(), gs.drop_first(), f, g);
    } else {
        assert(fs.push(f).drop_first() =~= Seq::<TargetFilter>::empty());
        assert(gs.push(g).drop_first() =~= Seq::<TargetFilter>::empty());
        assert(fs.push(f)[0] == f);
        assert(gs.push(g)[0] == g);
        assert(same_filters(Seq::<TargetFilter>::empty(), Seq::<TargetFilter>::empty()));
    }
}

/// A copy of each filter of the list.
fn clone_filters(fs: &Vec<TargetFilter>, Ghost(whole): Ghost<TargetFilter>) -> (r: Vec<TargetFilter>)
    requires
        forall|i: int| 0 <= i < fs@.len() ==> decreases_to!(whole => #[trigger] fs@[i]),
    ensures
        same_filters(fs@, r@),
    decreases whole, 1nat,
{
    let mut out: Vec<TargetFilter> = Vec::new();
    let mut i: usize = 0;
    while i < fs.len()
        invariant
            i <= fs@.len(),
            forall|j: int| 0 <= j < fs@.len() ==> decreases_to!(whole => #[trigger] fs@[j]),
            same_filters(fs@.take(i as int), out@),
        decreases fs@.len() - i,
    {
        let c = clone_target_filter(&fs[i]);
        proof {
            lemma_same_filters_push(fs@.take(i as int), out@, fs@[i as int], c);
            assert(fs@.take(i + 1) =~= fs@.take(i as int).push(fs@[i as int]));
        }
        out.push(c);
        i = i + 1;
    }
    assert(fs@.take(i as int) =~= fs@);
    out
}

/// A copy of the filter.
fn clone_target_filter(f: &TargetFilter) -> (r: TargetFilter)
    ensures
        same_filter(*f, r),
    decreases *f, 2nat,
{
    match f {
        TargetFilter::Any => TargetFilter::Any,
        TargetFilter::Nothing => TargetFilter::Nothing,
        TargetFilter::Player => TargetFilter::Player,
        TargetFilter::Controller => TargetFilter::Controller,
        TargetFilter::SelfRef => TargetFilter::SelfRef,
        TargetFilter::ParentTarget => TargetFilter::ParentTarget,
        TargetFilter::ParentTargetController => TargetFilter::ParentTargetController,
        TargetFilter::TriggeringPlayer => TargetFilter::TriggeringPlayer,
        TargetFilter::SpecificObject { id } => TargetFilter::SpecificObject { id: *id },
        TargetFilter::SpecificPlayer { id } => TargetFilter::SpecificPlayer { id: *id },
        TargetFilter::TrackedSet { id } => TargetFilter::TrackedSet { id: *id },
        TargetFilter::ChosenDamageSource => TargetFilter::ChosenDamageSource,
        TargetFilter::TriggeringSpellController => TargetFilter::TriggeringSpellController,
        TargetFilter::TriggeringSpellOwner => TargetFilter::TriggeringSpellOwner,
        TargetFilter::TriggeringSource => TargetFilter::TriggeringSource,
        TargetFilter::DefendingPlayer => TargetFilter::DefendingPlayer,
        TargetFilter::StackSpell => TargetFilter::StackSpell,
        TargetFilter::StackAbility { controller } => TargetFilter::StackAbility { controller: *controller },
        TargetFilter::Typed(tf) => TargetFilter::Typed(tf.clone()),
        TargetFilter::Not { filter } => TargetFilter::Not { filter: Box::new(clone_target_filter(filter)) },
        TargetFilter::And { filters } => {
            assert forall|i: int| 0 <= i < filters@.len() implies decreases_to!(*f => #[trigger] filters@[i]) by {}
            TargetFilter::And { filters: clone_filters(filters, Ghost(*f)) }
        },
        TargetFilter::Or { filters } => {
            assert forall|i: int| 0 <= i < filters@.len() implies decreases_to!(*f => #[trigger] filters@[i]) by {}
            TargetFilter::Or { filters: clone_filters(filters, Ghost(*f)) }
        },
    }
}

impl Clone for TargetFilter {
    fn clone(&self) -> (r: Self)
        ensures
            same_filter(*self, r),
    {
        clone_target_filter(self)
    }
}

impl Default for TypedFilter {
    /// A filter that admits every object.
    fn default() -> (r: TypedFilter)
        ensures
            r.type_filters@.len() == 0,
            r.controller is None,
            r.properties@.len() == 0,
    {
        TypedFilter { type_filters: Vec::new(), controller: None, properties: Vec::new() }
    }
}

} // verus!

verus! {

/// When a restriction stops applying.
#[derive(Debug, Clone, Copy, PartialEq, Eq, Structural)]
pub enum RestrictionExpiry {
    EndOfTurn,
    /// At the beginning of the given player's next turn.
    UntilPlayerNextTurn { player: PlayerId },
}

/// Which players a prohibition applies to.
#[derive(Debug, Clone, Copy, PartialEq, Eq, Structural)]
pub enum RestrictionPlayerScope {
    AllPlayers,
    OpponentsOfSourceController,
    SourceController,
    /// The ability's target player, bound when the restriction is added.
    TargetedPlayer,
    /// The parent ability's target player, bound when the restriction is added.
    ParentTargetedPlayer,
    SpecificPlayer(PlayerId),
}

/// Which activated abilities a prohibition on activating leaves alone.
#[derive(Debug, Clone, Copy, PartialEq, Eq, Structural)]
pub enum ActivationExemption {
    NoExemption,
    ManaAbilities,
}

/// What a prohibition forbids.
#[derive(Debug, PartialEq, Eq)]
pub enum ProhibitedActivity {
    CastSpells,
    ActivateAbilities { exemption: ActivationExemption },
    /// Spells may be cast only from these zones.
    CastOnlyFromZones { allowed_zones: Vec<Zone> },
}

/// The two prohibitions forbid the same thing.
pub open spec fn same_activity(a: ProhibitedActivity, b: ProhibitedActivity) -> bool {
    match (a, b) {
        (
            ProhibitedActivity::CastOnlyFromZones { allowed_zones: x },
            ProhibitedActivity::CastOnlyFromZones { allowed_zones: y },
        ) => x@ == y@,
        (ProhibitedActivity::CastOnlyFromZones { .. }, _) => false,
        (_, ProhibitedActivity::CastOnlyFromZones { .. }) => false,
        _ => a == b,
    }
}

impl Clone for ProhibitedActivity {
    fn clone(&self) -> (r: Self)
        ensures
            same_activity(r, *self),
    {
        match self {
            ProhibitedActivity::CastSpells => ProhibitedActivity::CastSpells,
            ProhibitedActivity::ActivateAbilities { exemption } => ProhibitedActivity::ActivateAbilities {
                exemption: *exemption,
            },
            ProhibitedActivity::CastOnlyFromZones { allowed_zones } => {
                let mut zs: Vec<Zone> = Vec::new();
                let mut i: usize = 0;
                while i < allowed_zones.len()
                    invariant
                        i <= allowed_zones@.len(),
                        zs@ == allowed_zones@.take(i as int),
                    decreases allowed_zones@.len() - i,
                {
                    zs.push(allowed_zones[i]);
                    assert(allowed_zones@.take(i + 1) =~= allowed_zones@.take(i as int).push(
                        allowed_zones@[i as int],
                    ));
                    i = i + 1;
                }
                assert(allowed_zones@.take(i as int) =~= allowed_zones@);
                ProhibitedActivity::CastOnlyFromZones { allowed_zones: zs }
            },
        }
    }
}

/// Which damage a prevention effect covers (CR 615).
#[derive(Debug, Clone, Copy, PartialEq, Eq, Structural)]
pub enum PreventionScope {
    AllDamage,
    CombatDamage,
}

/// A game-level restriction on how rules apply (CR 614.16).
#[derive(Debug, Clone, PartialEq, Eq)]
pub enum GameRestriction {
    /// Damage can't be prevented.
    DamagePreventionDisabled {
        source: ObjectId,
        expiry: RestrictionExpiry,
        scope: Option<PreventionScope>,
    },
    /// Some players can't do something.
    ProhibitActivity {
        source: ObjectId,
        affected_players: RestrictionPlayerScope,
        expiry: RestrictionExpiry,
        activity: ProhibitedActivity,
    },
}

/// How much damage a prevention shield prevents.
#[derive(Debug, Clone, Copy, PartialEq, Eq, Structural)]
pub enum PreventionAmount {
    All,
    /// The next N damage.
    Next(u32),
}

/// Whether a shield covers only combat damage.
#[derive(Debug, Clone, Copy, PartialEq, Eq, Structural)]
pub enum CombatDamageScope {
    CombatOnly,
}

/// Which players a shield's damage must be dealt to.
#[derive(Debug, Clone, Copy, PartialEq, Eq, Structural)]
pub enum DamageTargetPlayerScope {
    Any,
    Specific(PlayerId),
}

/// What a shield's damage must be dealt to.
#[derive(Debug, Clone, Copy, PartialEq, Eq, Structural)]
pub enum DamageTargetFilter {
    Player { player: DamageTargetPlayerScope },
}

/// Whether a tap/untap effect acts on chosen objects or on all that match.
#[derive(Debug, Clone, Copy, PartialEq, Eq, Structural)]
pub enum EffectScope {
    Single,
    All,
}

/// Tap or untap.
#[derive(Debug, Clone, Copy, PartialEq, Eq, Structural)]
pub enum TapStateChange {
    Tap,
    Untap,
}

/// When an ability's targets are chosen.
#[derive(Debug, Clone, Copy, PartialEq, Eq, Structural)]
pub enum TargetChoiceTiming {
    Announcement,
    Resolution,
}

/// How many targets an ability chooses: between `min` and `max`.
#[derive(Debug, Clone, PartialEq, Eq)]
pub struct MultiTargetSpec {
    pub min: QuantityExpr,
    pub max: QuantityExpr,
}

impl MultiTargetSpec {
    /// "Up to N" targets: from none to `max`.
    pub fn up_to(max: QuantityExpr) -> (r: MultiTargetSpec)
        ensures
            r.min == (QuantityExpr::Fixed { value: 0 }),
            r.max == max,
    {
        MultiTargetSpec { min: QuantityExpr::Fixed { value: 0 }, max }
    }
}

/// Whether a copy may choose new targets.
#[derive(Debug, Clone, Copy, PartialEq, Eq, Structural)]
pub enum CopyRetargetPermission {
    KeepTargets,
    MayChooseNewTargets,
}

/// A named card to conjure, and how many.
#[derive(Debug, Clone, PartialEq, Eq)]
pub struct ConjureCard {
    pub name: String,
    pub count: QuantityExpr,
}

/// Kinds of counters (CR 122).
#[derive(Debug, Clone, Copy, PartialEq, Eq, Hash, Structural)]
pub enum CounterType {
    Plus1Plus1,
}

/// A power or toughness value.
#[derive(Debug, Clone, Copy, PartialEq, Eq, Structural)]
pub enum PtValue {
    Fixed(i32),
}

/// Whether an ability is a spell's, an activated or a triggered ability.
#[derive(Debug, Clone, Copy, PartialEq, Eq, Structural)]
pub enum AbilityKind {
    Spell,
    Activated,
    Triggered,
}

/// The effects an ability run from inside another effect performs: the
/// outcomes of a coin flip and the branches of a choice.
#[derive(Debug, Clone, PartialEq, Eq)]
pub enum BranchEffect {
    GainLife { amount: QuantityExpr, player: TargetFilter },
    LoseLife { amount: QuantityExpr },
    Draw { count: QuantityExpr },
    /// Create tokens: creatures of the given power, toughness, subtypes and
    /// colors.
    Token {
        name: String,
        power: PtValue,
        toughness: PtValue,
        subtypes: Vec<String>,
        colors: Vec<ManaColor>,
        count: QuantityExpr,
    },
    /// Put counters on the objects the filter names.
    PutCounter { counter_type: CounterType, count: QuantityExpr, target: TargetFilter },
}

/// An ability as printed or built by the rules: its kind, its effect and a
/// text for players.
#[derive(Debug, Clone, PartialEq, Eq)]
pub struct AbilityDefinition {
    pub kind: AbilityKind,
    pub effect: BranchEffect,
    pub description: Option<String>,
}

impl AbilityDefinition {
    pub fn new(kind: AbilityKind, effect: BranchEffect) -> (r: AbilityDefinition)
        ensures
            r.kind == kind,
            r.effect == effect,
            r.description is None,
    {
        AbilityDefinition { kind, effect, description: None }
    }
}

/// A cost of an activated ability (CR 602.1a).
#[derive(Debug)]
pub enum AbilityCost {
    Mana { cost: ManaCost },
    /// Exile `count` objects from `zone` that the filter admits.
    Exile { count: u32, zone: Option<Zone>, filter: Option<TargetFilter> },
    /// All of the costs.
    Composite { costs: Vec<AbilityCost> },
}

/// The two costs have the same structure and parts: what a copy of a cost
/// is to the cost.
pub open spec fn same_cost(a: AbilityCost, b: AbilityCost) -> bool
    decreases a,
{
    match a {
        AbilityCost::Mana { cost } => b matches AbilityCost::Mana { cost: d } && d@ == cost@,
        AbilityCost::Exile { count, zone, filter } => match b {
            AbilityCost::Exile { count: n, zone: z, filter: g } => {
                &&& n == count
                &&& z == zone
                &&& match (filter, g) {
                    (None, None) => true,
                    (Some(f), Some(h)) => same_filter(f, h),
                    _ => false,
                }
            },
            _ => false,
        },
        AbilityCost::Composite { costs } => match b {
            AbilityCost::Composite { costs: ds } => {
                &&& ds@.len() == costs@.len()
                &&& forall|k: int| 0 <= k < costs@.len() ==> same_cost(#[trigger] costs@[k], ds@[k])
            },
            _ => false,
        },
    }
}

fn clone_ability_cost(c: &AbilityCost) -> (r: AbilityCost)
    ensures
        same_cost(*c, r),
    decreases *c,
{
    match c {
        AbilityCost::Mana { cost } => AbilityCost::Mana { cost: cost.copy() },
        AbilityCost::Exile { count, zone, filter } => {
            let f = match filter {
                Some(f) => Some(clone_target_filter(f)),
                None => None,
            };
            AbilityCost::Exile { count: *count, zone: *zone, filter: f }
        },
        AbilityCost::Composite { costs } => {
            let mut out: Vec<AbilityCost> = Vec::new();
            let mut i: usize = 0;
            while i < costs.len()
                invariant
                    i <= costs@.len(),
                    out@.len() == i,
                    forall|k: int| 0 <= k < costs@.len() ==> decreases_to!(*c => #[trigger] costs@[k]),
                    forall|k: int| 0 <= k < i ==> same_cost(#[trigger] costs@[k], out@[k]),
                decreases costs@.len() - i,
            {
                out.push(clone_ability_cost(&costs[i]));
                i = i + 1;
            }
            AbilityCost::Composite { costs: out }
        },
    }
}

impl Clone for AbilityCost {
    fn clone(&self) -> (r: Self) {
        clone_ability_cost(self)
    }
}

/// An ability printed on a card face, or given to it by a keyword: its
/// kind, effect, activation cost, whether it is activated only as a sorcery,
/// and the zone it is activated from where that is not the battlefield.
#[derive(Debug, Clone)]
pub struct FaceAbility {
    pub kind: AbilityKind,
    pub effect: Effect,
    pub cost: Option<AbilityCost>,
    pub sorcery_speed: bool,
    pub activation_zone: Option<Zone>,
}

/// The effects the rules here resolve.
#[derive(Debug, Clone, PartialEq, Eq)]
pub enum Effect {
    AddRestriction { restriction: GameRestriction },
    Cloak { target: TargetFilter, count: QuantityExpr },
    Conjure { cards: Vec<ConjureCard>, destination: Zone, tapped: bool },
    Dig {
        player: TargetFilter,
        count: QuantityExpr,
        keep_count: Option<u32>,
        up_to: bool,
        filter: TargetFilter,
        destination: Option<Zone>,
        rest_destination: Option<Zone>,
        reveal: bool,
        enter_tapped: bool,
    },
    Discover { mana_value_limit: QuantityExpr },
    Endure { amount: u32 },
    ExileTop { player: TargetFilter, count: QuantityExpr, face_down: bool },
    FlipCoin { win_effect: Option<Box<AbilityDefinition>>, lose_effect: Option<Box<AbilityDefinition>> },
    FlipCoins {
        count: QuantityExpr,
        win_effect: Option<Box<AbilityDefinition>>,
        lose_effect: Option<Box<AbilityDefinition>>,
    },
    FlipCoinUntilLose { win_effect: Box<AbilityDefinition> },
    ForceBlock { target: TargetFilter },
    Goad { target: TargetFilter },
    GoadAll { target: TargetFilter },
    Incubate { count: QuantityExpr },
    Manifest { target: TargetFilter, count: QuantityExpr },
    PhaseOut { target: TargetFilter },
    PhaseIn { target: TargetFilter },
    PreventDamage {
        amount: PreventionAmount,
        amount_dynamic: Option<QuantityExpr>,
        target: TargetFilter,
        scope: PreventionScope,
        damage_source_filter: Option<TargetFilter>,
    },
    SetTapState { target: TargetFilter, scope: EffectScope, state: TapStateChange },
    CopySpell { target: TargetFilter, retarget: CopyRetargetPermission },
    /// For each opponent, a token copy of this card that attacks it (CR 702.141a).
    Encore,
}

/// The effect classes that events report.
#[derive(Debug, Clone, Copy, PartialEq, Eq, Structural)]
pub enum EffectKind {
    AddRestriction,
    Cloak,
    Conjure,
    Dig,
    Discover,
    Endure,
    ExileTop,
    FlipCoin,
    FlipCoins,
    FlipCoinUntilLose,
    ForceBlock,
    Goad,
    GoadAll,
    Incubate,
    Manifest,
    PhaseOut,
    PhaseIn,
    PreventDamage,
    Tap,
    Untap,
    TapAll,
    UntapAll,
    CopySpell,
    Encore,
}

/// The class an effect reports itself under.
pub open spec fn effect_kind_of(e: Effect) -> EffectKind {
    match e {
        Effect::AddRestriction { .. } => EffectKind::AddRestriction,
        Effect::Cloak { .. } => EffectKind::Cloak,
        Effect::Conjure { .. } => EffectKind::Conjure,
        Effect::Dig { .. } => EffectKind::Dig,
        Effect::Discover { .. } => EffectKind::Discover,
        Effect::Endure { .. } => EffectKind::Endure,
        Effect::ExileTop { .. } => EffectKind::ExileTop,
        Effect::FlipCoin { .. } => EffectKind::FlipCoin,
        Effect::FlipCoins { .. } => EffectKind::FlipCoins,
        Effect::FlipCoinUntilLose { .. } => EffectKind::FlipCoinUntilLose,
        Effect::ForceBlock { .. } => EffectKind::ForceBlock,
        Effect::Goad { .. } => EffectKind::Goad,
        Effect::GoadAll { .. } => EffectKind::GoadAll,
        Effect::Incubate { .. } => EffectKind::Incubate,
        Effect::Manifest { .. } => EffectKind::Manifest,
        Effect::PhaseOut { .. } => EffectKind::PhaseOut,
        Effect::PhaseIn { .. } => EffectKind::PhaseIn,
        Effect::PreventDamage { .. } => EffectKind::PreventDamage,
        Effect::SetTapState { scope, state, .. } => match (scope, state) {
            (EffectScope::Single, TapStateChange::Tap) => EffectKind::Tap,
            (EffectScope::Single, TapStateChange::Untap) => EffectKind::Untap,
            (EffectScope::All, TapStateChange::Tap) => EffectKind::TapAll,
            (EffectScope::All, TapStateChange::Untap) => EffectKind::UntapAll,
        },
        Effect::CopySpell { .. } => EffectKind::CopySpell,
        Effect::Encore => EffectKind::Encore,
    }
}

impl EffectKind {
    /// The class `effect` reports itself under.
    pub fn of(effect: &Effect) -> (r: EffectKind)
        ensures
            r == effect_kind_of(*effect),
    {
        match effect {
            Effect::AddRestriction { .. } => EffectKind::AddRestriction,
            Effect::Cloak { .. } => EffectKind::Cloak,
            Effect::Conjure { .. } => EffectKind::Conjure,
            Effect::Dig { .. } => EffectKind::Dig,
            Effect::Discover { .. } => EffectKind::Discover,
            Effect::Endure { .. } => EffectKind::Endure,
            Effect::ExileTop { .. } => EffectKind::ExileTop,
            Effect::FlipCoin { .. } => EffectKind::FlipCoin,
            Effect::FlipCoins { .. } => EffectKind::FlipCoins,
            Effect::FlipCoinUntilLose { .. } => EffectKind::FlipCoinUntilLose,
            Effect::ForceBlock { .. } => EffectKind::ForceBlock,
            Effect::Goad { .. } => EffectKind::Goad,
            Effect::GoadAll { .. } => EffectKind::GoadAll,
            Effect::Incubate { .. } => EffectKind::Incubate,
            Effect::Manifest { .. } => EffectKind::Manifest,
            Effect::PhaseOut { .. } => EffectKind::PhaseOut,
            Effect::PhaseIn { .. } => EffectKind::PhaseIn,
            Effect::PreventDamage { .. } => EffectKind::PreventDamage,
            Effect::SetTapState { scope, state, .. } => match (scope, state) {
                (EffectScope::Single, TapStateChange::Tap) => EffectKind::Tap,
                (EffectScope::Single, TapStateChange::Untap) => EffectKind::Untap,
                (EffectScope::All, TapStateChange::Tap) => EffectKind::TapAll,
                (EffectScope::All, TapStateChange::Untap) => EffectKind::UntapAll,
            },
            Effect::CopySpell { .. } => EffectKind::CopySpell,
            Effect::Encore => EffectKind::Encore,
        }
    }
}

/// What the rules remember of an object that paid a cost, for effects that
/// refer back to it.
#[derive(Debug, Clone, Copy, PartialEq, Eq, Structural)]
pub struct CostPaidObjectSnapshot {
    pub object_id: ObjectId,
    pub controller: PlayerId,
    pub owner: PlayerId,
}

/// An ability on its way through resolution: its effect, the targets chosen
/// for it, its source and its controller.
#[derive(Debug, Clone)]
pub struct ResolvedAbility {
    pub effect: Effect,
    pub targets: Vec<TargetRef>,
    pub source_id: ObjectId,
    pub controller: PlayerId,
    pub duration: Option<Duration>,
    pub target_choice_timing: TargetChoiceTiming,
    pub multi_target: Option<MultiTargetSpec>,
    /// The object a cost of the parent ability named, where one did.
    pub effect_context_object: Option<CostPaidObjectSnapshot>,
    /// The ability's text for players, where it has one.
    pub description: Option<String>,
}

/// The player an ability targets: its first player target, else its
/// controller.
pub open spec fn target_player_of(targets: Seq<TargetRef>, controller: PlayerId) -> PlayerId
    decreases targets.len(),
{
    if targets.len() == 0 {
        controller
    } else {
        match targets[0] {
            TargetRef::Player(p) => p,
            TargetRef::Object(_) => target_player_of(targets.drop_first(), controller),
        }
    }
}

impl ResolvedAbility {
    /// An ability with the given effect, targets, source and controller,
    /// targets chosen on announcement, and nothing else.
    pub fn new(effect: Effect, targets: Vec<TargetRef>, source_id: ObjectId, controller: PlayerId) -> (r:
        ResolvedAbility)
        ensures
            r.effect == effect,
            r.targets@ == targets@,
            r.source_id == source_id,
            r.controller == controller,
            r.duration is None,
            r.target_choice_timing == TargetChoiceTiming::Announcement,
            r.multi_target is None,
            r.effect_context_object is None,
            r.description is None,
    {
        ResolvedAbility {
            effect,
            targets,
            source_id,
            controller,
            duration: None,
            target_choice_timing: TargetChoiceTiming::Announcement,
            multi_target: None,
            effect_context_object: None,
            description: None,
        }
    }

    /// This ability with the given duration.
    pub fn duration(self, d: Duration) -> (r: ResolvedAbility)
        ensures
            r == (ResolvedAbility { duration: Some(d), ..self }),
    {
        let mut r = self;
        r.duration = Some(d);
        r
    }

    /// The player this ability targets: its first player target, else its
    /// controller.
    pub fn target_player(&self) -> (p: PlayerId)
        ensures
            p == target_player_of(self.targets@, self.controller),
    {
        let mut i: usize = 0;
        assert(self.targets@.skip(0) =~= self.targets@);
        while i < self.targets.len()
            invariant
                i <= self.targets@.len(),
                target_player_of(self.targets@, self.controller) == target_player_of(
                    self.targets@.skip(i as int),
                    self.controller,
                ),
            decreases self.targets@.len() - i,
        {
            assert(self.targets@.skip(i as int).drop_first() =~= self.targets@.skip(i + 1));
            if let TargetRef::Player(p) = self.targets[i] {
                return p;
            }
            i = i + 1;
        }
        self.controller
    }
}

/// Why an effect could not resolve.
#[derive(Debug, Clone, PartialEq, Eq)]
pub enum EffectError {
    /// The effect lacks what the resolver needs (it is not the kind this
    /// resolver handles); the text names what is missing.
    MissingParam(String),
    /// The effect or the answer given is not one the resolver accepts; the
    /// text says why.
    InvalidParam(String),
    PlayerNotFound,
    ObjectNotFound(ObjectId),
}

/// The result is a `MissingParam` error whose text is `what`.
pub open spec fn is_missing_param<T>(r: Result<T, EffectError>, what: Seq<char>) -> bool {
    r matches Err(EffectError::MissingParam(m)) && m@ == what
}

/// The result is an `InvalidParam` error whose text is `what`.
pub open spec fn is_invalid_param<T>(r: Result<T, EffectError>, what: Seq<char>) -> bool {
    r matches Err(EffectError::InvalidParam(m)) && m@ == what
}

} // verus!
