//! Copies of abilities and events, each proved the same as what it copies:
//! equal in every part, with vectors compared by their contents and target
//! filters by `same_filter`.

use vstd::prelude::*;

use crate::types::ability::{
    same_activity, same_filter, AbilityDefinition, BranchEffect, CardTypeSetSource, ConjureCard, Effect,
    GameRestriction, MultiTargetSpec, QuantityExpr, QuantityRef, ResolvedAbility, TargetFilter,
};
use crate::types::events::GameEvent;

verus! {

/// A copy of a vector of plain values.
pub fn copy_vec<T: Copy>(v: &Vec<T>) -> (r: Vec<T>)
    ensures
        r@ == v@,
{
    let mut out: Vec<T> = Vec::new();
    let mut i: usize = 0;
    while i < v.len()
        invariant
            i <= v@.len(),
            out@ == v@.take(i as int),
        decreases v@.len() - i,
    {
        out.push(v[i]);
        assert(v@.take(i + 1) =~= v@.take(i as int).push(v@[i as int]));
        i = i + 1;
    }
    assert(v@.take(i as int) =~= v@);
    out
}

fn copy_string_vec(v: &Vec<String>) -> (r: Vec<String>)
    ensures
        r@ == v@,
{
    let mut out: Vec<String> = Vec::new();
    let mut i: usize = 0;
    while i < v.len()
        invariant
            i <= v@.len(),
            out@ == v@.take(i as int),
        decreases v@.len() - i,
    {
        out.push(v[i].clone());
        assert(v@.take(i + 1) =~= v@.take(i as int).push(v@[i as int]));
        i = i + 1;
    }
    assert(v@.take(i as int) =~= v@);
    out
}

/// A copy of an optional text.
pub fn copy_text(o: &Option<String>) -> (r: Option<String>)
    ensures
        r == *o,
{
    match o {
        Some(s) => Some(s.clone()),
        None => None,
    }
}

/// Both filters are absent, or both present and the same.
pub open spec fn same_opt_filter(a: Option<TargetFilter>, b: Option<TargetFilter>) -> bool {
    match (a, b) {
        (None, None) => true,
        (Some(f), Some(g)) => same_filter(f, g),
        _ => false,
    }
}

fn copy_opt_filter(o: &Option<TargetFilter>) -> (r: Option<TargetFilter>)
    ensures
        same_opt_filter(*o, r),
{
    match o {
        Some(f) => Some(f.clone()),
        None => None,
    }
}

/// The two quantities are the same: equal, but for the filter that a count
/// of distinct card types reads, which is the same filter.
pub open spec fn same_quantity(a: QuantityExpr, b: QuantityExpr) -> bool {
    match a {
        QuantityExpr::Ref { qty: QuantityRef::DistinctCardTypes { source: CardTypeSetSource::Objects { filter: f } } } => {
            b matches QuantityExpr::Ref {
                qty: QuantityRef::DistinctCardTypes { source: CardTypeSetSource::Objects { filter: g } },
            } && same_filter(f, g)
        },
        _ => a == b,
    }
}

/// A copy of a quantity.
pub fn copy_quantity(q: &QuantityExpr) -> (r: QuantityExpr)
    ensures
        same_quantity(*q, r),
{
    match q {
        QuantityExpr::Fixed { value } => QuantityExpr::Fixed { value: *value },
        QuantityExpr::Ref { qty } => match qty {
            QuantityRef::ObjectManaValue { scope } => QuantityExpr::Ref {
                qty: QuantityRef::ObjectManaValue { scope: *scope },
            },
            QuantityRef::DistinctCardTypes { source } => match source {
                CardTypeSetSource::Objects { filter } => QuantityExpr::Ref {
                    qty: QuantityRef::DistinctCardTypes { source: CardTypeSetSource::Objects { filter: filter.clone() } },
                },
            },
        },
    }
}

/// Both quantities are absent, or both present and the same.
pub open spec fn same_opt_quantity(a: Option<QuantityExpr>, b: Option<QuantityExpr>) -> bool {
    match (a, b) {
        (None, None) => true,
        (Some(x), Some(y)) => same_quantity(x, y),
        _ => false,
    }
}

fn copy_opt_quantity(o: &Option<QuantityExpr>) -> (r: Option<QuantityExpr>)
    ensures
        same_opt_quantity(*o, r),
{
    match o {
        Some(q) => Some(copy_quantity(q)),
        None => None,
    }
}

/// The two restrictions are the same.
pub open spec fn same_restriction(a: GameRestriction, b: GameRestriction) -> bool {
    match (a, b) {
        (
            GameRestriction::ProhibitActivity { source: s, affected_players: p, expiry: e, activity: x },
            GameRestriction::ProhibitActivity { source: t, affected_players: q, expiry: f, activity: y },
        ) => s == t && p == q && e == f && same_activity(x, y),
        (GameRestriction::ProhibitActivity { .. }, _) => false,
        _ => a == b,
    }
}

fn copy_restriction(g: &GameRestriction) -> (r: GameRestriction)
    ensures
        same_restriction(*g, r),
{
    match g {
        GameRestriction::DamagePreventionDisabled { source, expiry, scope } => {
            GameRestriction::DamagePreventionDisabled { source: *source, expiry: *expiry, scope: *scope }
        },
        GameRestriction::ProhibitActivity { source, affected_players, expiry, activity } => {
            GameRestriction::ProhibitActivity {
                source: *source,
                affected_players: *affected_players,
                expiry: *expiry,
                activity: activity.clone(),
            }
        },
    }
}

/// The two lists of cards to conjure are the same: the same names and the
/// same counts, in the same order.
pub open spec fn same_conjure_cards(a: Seq<ConjureCard>, b: Seq<ConjureCard>) -> bool {
    &&& a.len() == b.len()
    &&& forall|i: int| 0 <= i < a.len() ==> #[trigger] a[i].name == b[i].name && same_quantity(a[i].count, b[i].count)
}

fn copy_conjure_cards(v: &Vec<ConjureCard>) -> (r: Vec<ConjureCard>)
    ensures
        same_conjure_cards(v@, r@),
{
    let mut out: Vec<ConjureCard> = Vec::new();
    let mut i: usize = 0;
    while i < v.len()
        invariant
            i <= v@.len(),
            out@.len() == i,
            forall|k: int| 0 <= k < i ==> v@[k].name == (#[trigger] out@[k]).name && same_quantity(v@[k].count, out@[k].count),
        decreases v@.len() - i,
    {
        let c = ConjureCard { name: v[i].name.clone(), count: copy_quantity(&v[i].count) };
        out.push(c);
        assert(out@[i as int] == c);
        i = i + 1;
    }
    out
}

/// The two branch effects are the same.
pub open spec fn same_branch(a: BranchEffect, b: BranchEffect) -> bool {
    match (a, b) {
        (BranchEffect::GainLife { amount: x, player: f }, BranchEffect::GainLife { amount: y, player: g }) => {
            same_quantity(x, y) && same_filter(f, g)
        },
        (BranchEffect::LoseLife { amount: x }, BranchEffect::LoseLife { amount: y }) => same_quantity(x, y),
        (BranchEffect::Draw { count: x }, BranchEffect::Draw { count: y }) => same_quantity(x, y),
        (
            BranchEffect::Token { name: n, power: p, toughness: t, subtypes: s, colors: c, count: x },
            BranchEffect::Token { name: m, power: q, toughness: u, subtypes: r, colors: d, count: y },
        ) => n == m && p == q && t == u && s@ == r@ && c@ == d@ && same_quantity(x, y),
        (
            BranchEffect::PutCounter { counter_type: k, count: x, target: f },
            BranchEffect::PutCounter { counter_type: l, count: y, target: g },
        ) => k == l && same_quantity(x, y) && same_filter(f, g),
        _ => false,
    }
}

fn copy_branch(b: &BranchEffect) -> (r: BranchEffect)
    ensures
        same_branch(*b, r),
{
    match b {
        BranchEffect::GainLife { amount, player } => BranchEffect::GainLife {
            amount: copy_quantity(amount),
            player: player.clone(),
        },
        BranchEffect::LoseLife { amount } => BranchEffect::LoseLife { amount: copy_quantity(amount) },
        BranchEffect::Draw { count } => BranchEffect::Draw { count: copy_quantity(count) },
        BranchEffect::Token { name, power, toughness, subtypes, colors, count } => BranchEffect::Token {
            name: name.clone(),
            power: *power,
            toughness: *toughness,
            subtypes: copy_string_vec(subtypes),
            colors: copy_vec(colors),
            count: copy_quantity(count),
        },
        BranchEffect::PutCounter { counter_type, count, target } => BranchEffect::PutCounter {
            counter_type: *counter_type,
            count: copy_quantity(count),
            target: target.clone(),
        },
    }
}

/// The two ability definitions are the same.
pub open spec fn same_definition(a: AbilityDefinition, b: AbilityDefinition) -> bool {
    &&& a.kind == b.kind
    &&& same_branch(a.effect, b.effect)
    &&& a.description == b.description
}

/// A copy of an ability definition.
pub fn copy_definition(d: &AbilityDefinition) -> (r: AbilityDefinition)
    ensures
        same_definition(*d, r),
{
    AbilityDefinition { kind: d.kind, effect: copy_branch(&d.effect), description: copy_text(&d.description) }
}

/// Both definitions are absent, or both present and the same.
pub open spec fn same_opt_definition(a: Option<Box<AbilityDefinition>>, b: Option<Box<AbilityDefinition>>) -> bool {
    match (a, b) {
        (None, None) => true,
        (Some(x), Some(y)) => same_definition(*x, *y),
        _ => false,
    }
}

fn copy_opt_definition(o: &Option<Box<AbilityDefinition>>) -> (r: Option<Box<AbilityDefinition>>)
    ensures
        same_opt_definition(*o, r),
{
    match o {
        Some(d) => Some(Box::new(copy_definition(d))),
        None => None,
    }
}

/// The two effects are the same.
pub open spec fn same_effect(a: Effect, b: Effect) -> bool {
    match (a, b) {
        (Effect::AddRestriction { restriction: x }, Effect::AddRestriction { restriction: y }) => same_restriction(x, y),
        (Effect::Cloak { target: f, count: x }, Effect::Cloak { target: g, count: y }) => same_filter(f, g)
            && same_quantity(x, y),
        (
            Effect::Conjure { cards: c, destination: z, tapped: t },
            Effect::Conjure { cards: d, destination: w, tapped: u },
        ) => same_conjure_cards(c@, d@) && z == w && t == u,
        (
            Effect::Dig {
                player: p,
                count: x,
                keep_count: k,
                up_to: o,
                filter: f,
                destination: z,
                rest_destination: rz,
                reveal: rv,
                enter_tapped: et,
            },
            Effect::Dig {
                player: q,
                count: y,
                keep_count: l,
                up_to: o2,
                filter: g,
                destination: w,
                rest_destination: rw,
                reveal: rv2,
                enter_tapped: et2,
            },
        ) => {
            &&& same_filter(p, q)
            &&& same_quantity(x, y)
            &&& k == l
            &&& o == o2
            &&& same_filter(f, g)
            &&& z == w
            &&& rz == rw
            &&& rv == rv2
            &&& et == et2
        },
        (Effect::Discover { mana_value_limit: x }, Effect::Discover { mana_value_limit: y }) => same_quantity(x, y),
        (Effect::Endure { amount: x }, Effect::Endure { amount: y }) => x == y,
        (
            Effect::ExileTop { player: p, count: x, face_down: d },
            Effect::ExileTop { player: q, count: y, face_down: e },
        ) => same_filter(p, q) && same_quantity(x, y) && d == e,
        (
            Effect::FlipCoin { win_effect: w, lose_effect: l },
            Effect::FlipCoin { win_effect: v, lose_effect: m },
        ) => same_opt_definition(w, v) && same_opt_definition(l, m),
        (
            Effect::FlipCoins { count: x, win_effect: w, lose_effect: l },
            Effect::FlipCoins { count: y, win_effect: v, lose_effect: m },
        ) => same_quantity(x, y) && same_opt_definition(w, v) && same_opt_definition(l, m),
        (Effect::FlipCoinUntilLose { win_effect: w }, Effect::FlipCoinUntilLose { win_effect: v }) => same_definition(
            *w,
            *v,
        ),
        (Effect::ForceBlock { target: f }, Effect::ForceBlock { target: g }) => same_filter(f, g),
        (Effect::Goad { target: f }, Effect::Goad { target: g }) => same_filter(f, g),
        (Effect::GoadAll { target: f }, Effect::GoadAll { target: g }) => same_filter(f, g),
        (Effect::Incubate { count: x }, Effect::Incubate { count: y }) => same_quantity(x, y),
        (Effect::Manifest { target: f, count: x }, Effect::Manifest { target: g, count: y }) => same_filter(f, g)
            && same_quantity(x, y),
        (Effect::PhaseOut { target: f }, Effect::PhaseOut { target: g }) => same_filter(f, g),
        (Effect::PhaseIn { target: f }, Effect::PhaseIn { target: g }) => same_filter(f, g),
        (
            Effect::PreventDamage {
                amount: n,
                amount_dynamic: x,
                target: f,
                scope: c,
                damage_source_filter: h,
            },
            Effect::PreventDamage {
                amount: m,
                amount_dynamic: y,
                target: g,
                scope: d,
                damage_source_filter: k,
            },
        ) => n == m && same_opt_quantity(x, y) && same_filter(f, g) && c == d && same_opt_filter(h, k),
        (
            Effect::SetTapState { target: f, scope: c, state: t },
            Effect::SetTapState { target: g, scope: d, state: u },
        ) => same_filter(f, g) && c == d && t == u,
        (Effect::CopySpell { target: f, retarget: x }, Effect::CopySpell { target: g, retarget: y }) => same_filter(f, g)
            && x == y,
        (Effect::Encore, Effect::Encore) => true,
        _ => false,
    }
}

/// A copy of an effect.
pub fn copy_effect(e: &Effect) -> (r: Effect)
    ensures
        same_effect(*e, r),
{
    match e {
        Effect::AddRestriction { restriction } => Effect::AddRestriction { restriction: copy_restriction(restriction) },
        Effect::Cloak { target, count } => Effect::Cloak { target: target.clone(), count: copy_quantity(count) },
        Effect::Conjure { cards, destination, tapped } => Effect::Conjure {
            cards: copy_conjure_cards(cards),
            destination: *destination,
            tapped: *tapped,
        },
        Effect::Dig {
            player,
            count,
            keep_count,
            up_to,
            filter,
            destination,
            rest_destination,
            reveal,
            enter_tapped,
        } => Effect::Dig {
            player: player.clone(),
            count: copy_quantity(count),
            keep_count: *keep_count,
            up_to: *up_to,
            filter: filter.clone(),
            destination: *destination,
            rest_destination: *rest_destination,
            reveal: *reveal,
            enter_tapped: *enter_tapped,
        },
        Effect::Discover { mana_value_limit } => Effect::Discover { mana_value_limit: copy_quantity(mana_value_limit) },
        Effect::Endure { amount } => Effect::Endure { amount: *amount },
        Effect::ExileTop { player, count, face_down } => Effect::ExileTop {
            player: player.clone(),
            count: copy_quantity(count),
            face_down: *face_down,
        },
        Effect::FlipCoin { win_effect, lose_effect } => Effect::FlipCoin {
            win_effect: copy_opt_definition(win_effect),
            lose_effect: copy_opt_definition(lose_effect),
        },
        Effect::FlipCoins { count, win_effect, lose_effect } => Effect::FlipCoins {
            count: copy_quantity(count),
            win_effect: copy_opt_definition(win_effect),
            lose_effect: copy_opt_definition(lose_effect),
        },
        Effect::FlipCoinUntilLose { win_effect } => Effect::FlipCoinUntilLose {
            win_effect: Box::new(copy_definition(win_effect)),
        },
        Effect::ForceBlock { target } => Effect::ForceBlock { target: target.clone() },
        Effect::Goad { target } => Effect::Goad { target: target.clone() },
        Effect::GoadAll { target } => Effect::GoadAll { target: target.clone() },
        Effect::Incubate { count } => Effect::Incubate { count: copy_quantity(count) },
        Effect::Manifest { target, count } => Effect::Manifest { target: target.clone(), count: copy_quantity(count) },
        Effect::PhaseOut { target } => Effect::PhaseOut { target: target.clone() },
        Effect::PhaseIn { target } => Effect::PhaseIn { target: target.clone() },
        Effect::PreventDamage { amount, amount_dynamic, target, scope, damage_source_filter } => Effect::PreventDamage {
            amount: *amount,
            amount_dynamic: copy_opt_quantity(amount_dynamic),
            target: target.clone(),
            scope: *scope,
            damage_source_filter: copy_opt_filter(damage_source_filter),
        },
        Effect::SetTapState { target, scope, state } => Effect::SetTapState {
            target: target.clone(),
            scope: *scope,
            state: *state,
        },
        Effect::CopySpell { target, retarget } => Effect::CopySpell { target: target.clone(), retarget: *retarget },
        Effect::Encore => Effect::Encore,
    }
}

/// Both target specifications are absent, or both present with the same
/// bounds.
pub open spec fn same_multi_target(a: Option<MultiTargetSpec>, b: Option<MultiTargetSpec>) -> bool {
    match (a, b) {
        (None, None) => true,
        (Some(x), Some(y)) => same_quantity(x.min, y.min) && same_quantity(x.max, y.max),
        _ => false,
    }
}

/// The two resolved abilities are the same.
pub open spec fn same_ability(a: ResolvedAbility, b: ResolvedAbility) -> bool {
    &&& same_effect(a.effect, b.effect)
    &&& a.targets@ == b.targets@
    &&& a.source_id == b.source_id
    &&& a.controller == b.controller
    &&& a.duration == b.duration
    &&& a.target_choice_timing == b.target_choice_timing
    &&& same_multi_target(a.multi_target, b.multi_target)
    &&& a.effect_context_object == b.effect_context_object
    &&& a.description == b.description
}

/// A copy of a resolved ability.
pub fn copy_ability(a: &ResolvedAbility) -> (r: ResolvedAbility)
    ensures
        same_ability(*a, r),
{
    let multi_target = match &a.multi_target {
        Some(m) => Some(MultiTargetSpec { min: copy_quantity(&m.min), max: copy_quantity(&m.max) }),
        None => None,
    };
    ResolvedAbility {
        effect: copy_effect(&a.effect),
        targets: copy_vec(&a.targets),
        source_id: a.source_id,
        controller: a.controller,
        duration: a.duration,
        target_choice_timing: a.target_choice_timing,
        multi_target,
        effect_context_object: a.effect_context_object,
        description: copy_text(&a.description),
    }
}

/// The two events are the same.
pub open spec fn same_event(a: GameEvent, b: GameEvent) -> bool {
    match (a, b) {
        (
            GameEvent::CardsRevealed { player: p, card_ids: x, card_names: n },
            GameEvent::CardsRevealed { player: q, card_ids: y, card_names: m },
        ) => p == q && x@ == y@ && n@ == m@,
        (
            GameEvent::VehicleCrewed { vehicle_id: v, creatures: x },
            GameEvent::VehicleCrewed { vehicle_id: w, creatures: y },
        ) => v == w && x@ == y@,
        (GameEvent::Saddled { mount_id: v, creatures: x }, GameEvent::Saddled { mount_id: w, creatures: y }) => v == w
            && x@ == y@,
        (
            GameEvent::AttackersDeclared { attacker_ids: x, defending_player: p },
            GameEvent::AttackersDeclared { attacker_ids: y, defending_player: q },
        ) => x@ == y@ && p == q,
        (GameEvent::CardsRevealed { .. }, _) => false,
        (GameEvent::VehicleCrewed { .. }, _) => false,
        (GameEvent::Saddled { .. }, _) => false,
        (GameEvent::AttackersDeclared { .. }, _) => false,
        _ => a == b,
    }
}

/// A copy of an event.
pub fn copy_event(e: &GameEvent) -> (r: GameEvent)
    ensures
        same_event(*e, r),
{
    match e {
        GameEvent::EffectResolved { kind, source_id } => GameEvent::EffectResolved { kind: *kind, source_id: *source_id },
        GameEvent::CardsRevealed { player, card_ids, card_names } => GameEvent::CardsRevealed {
            player: *player,
            card_ids: copy_vec(card_ids),
            card_names: copy_string_vec(card_names),
        },
        GameEvent::ZoneChanged { object_id, from, to } => GameEvent::ZoneChanged {
            object_id: *object_id,
            from: *from,
            to: *to,
        },
        GameEvent::ObjectConjured { object_id, name } => GameEvent::ObjectConjured {
            object_id: *object_id,
            name: name.clone(),
        },
        GameEvent::TokenCreated { object_id, name } => GameEvent::TokenCreated { object_id: *object_id, name: name.clone() },
        GameEvent::CoinFlipped { player_id, won } => GameEvent::CoinFlipped { player_id: *player_id, won: *won },
        GameEvent::PermanentTapped { object_id, caused_by } => GameEvent::PermanentTapped {
            object_id: *object_id,
            caused_by: *caused_by,
        },
        GameEvent::PermanentUntapped { object_id } => GameEvent::PermanentUntapped { object_id: *object_id },
        GameEvent::PhasedOut { object_id } => GameEvent::PhasedOut { object_id: *object_id },
        GameEvent::PhasedIn { object_id } => GameEvent::PhasedIn { object_id: *object_id },
        GameEvent::PlayerPhasedOut { player } => GameEvent::PlayerPhasedOut { player: *player },
        GameEvent::PlayerPhasedIn { player } => GameEvent::PlayerPhasedIn { player: *player },
        GameEvent::LifeChanged { player, amount } => GameEvent::LifeChanged { player: *player, amount: *amount },
        GameEvent::CardDrawn { player, object_id } => GameEvent::CardDrawn { player: *player, object_id: *object_id },
        GameEvent::CounterAdded { object_id, counter_type, count } => GameEvent::CounterAdded {
            object_id: *object_id,
            counter_type: *counter_type,
            count: *count,
        },
        GameEvent::PhaseChanged { phase } => GameEvent::PhaseChanged { phase: *phase },
        GameEvent::SpellCast { card_id, controller, object_id } => GameEvent::SpellCast {
            card_id: *card_id,
            controller: *controller,
            object_id: *object_id,
        },
        GameEvent::AbilityActivated { player_id, source_id } => GameEvent::AbilityActivated {
            player_id: *player_id,
            source_id: *source_id,
        },
        GameEvent::VehicleCrewed { vehicle_id, creatures } => GameEvent::VehicleCrewed {
            vehicle_id: *vehicle_id,
            creatures: copy_vec(creatures),
        },
        GameEvent::Saddled { mount_id, creatures } => GameEvent::Saddled {
            mount_id: *mount_id,
            creatures: copy_vec(creatures),
        },
        GameEvent::AttackersDeclared { attacker_ids, defending_player } => GameEvent::AttackersDeclared {
            attacker_ids: copy_vec(attacker_ids),
            defending_player: *defending_player,
        },
        GameEvent::DamageDealt { source_id, target, amount, is_combat, excess } => GameEvent::DamageDealt {
            source_id: *source_id,
            target: *target,
            amount: *amount,
            is_combat: *is_combat,
            excess: *excess,
        },
    }
}

} // verus!
