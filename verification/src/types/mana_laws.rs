//! Properties of mana costs, spending restrictions and the mana pool that
//! hold for every input, stated over the specifications that the operations
//! in `mana` are proved against.

use vstd::prelude::*;

use crate::seqs::{count_where, first_index, lemma_count_concat, lemma_count_drop_first, lemma_count_positive, lemma_count_push, lemma_first_index_spec};
use crate::types::identifiers::ObjectId;
use crate::types::mana::{
    allowed_of_color, allows_spec, color_of_type, cost_generic, cost_shards, count_color_of,
    free_of_color, has_color, is_unrestricted, is_x, lemma_repeat_value,
    lemma_shards_value_concat, lemma_without_x_value, mana_type_of, mana_value_of,
    concretized_view, not_from, plus_view, restrictions_allow, scaled_view, shard_colors,
    shard_mana_value, shards_value, step_end_pool, step_end_result, swap_removed,
    without_unrestricted, without_x, x_count, ManaColor, ManaCostShard, ManaCostView,
    ManaRestriction, ManaType, ManaUnit, PaymentContext, StepEndManaHandler,
};

verus! {

/// CR 508.1h: the combined cost's mana value is the sum of the two mana values.
pub proof fn law_plus_adds_mana_values(a: ManaCostView, b: ManaCostView)
    requires
        cost_generic(a) + cost_generic(b) <= u32::MAX,
    ensures
        mana_value_of(plus_view(a, b)) == mana_value_of(a) + mana_value_of(b),
{
    lemma_shards_value_concat(cost_shards(a), cost_shards(b));
}

/// CR 508.1h: a cost taken `k` times has `k` times its mana value; taken once
/// it is unchanged.
pub proof fn law_scaled_multiplies_mana_value(c: ManaCostView, k: u32)
    requires
        cost_generic(c) * k <= u32::MAX,
    ensures
        mana_value_of(scaled_view(c, k)) == k * mana_value_of(c),
        k == 1 ==> mana_value_of(scaled_view(c, k)) == mana_value_of(c) && cost_shards(
            scaled_view(c, k),
        ) == cost_shards(c),
{
    if k == 0 {
        assert(k * mana_value_of(c) == 0) by (nonlinear_arith)
            requires
                k == 0,
        ;
    }
    match c {
        ManaCostView::Cost { shards, generic } => {
            if k > 0 {
                lemma_repeat_value(shards, k as nat);
                assert(k * (shards_value(shards) + generic) == k * shards_value(shards) + k
                    * generic) by (nonlinear_arith);
                assert(generic * k == k * generic) by (nonlinear_arith);
                assert(cost_generic(scaled_view(c, k)) == generic * k);
            }
            if k == 1 {
                lemma_repeat_once(shards);
            }
        },
        _ => {
            assert(k * 0 == 0) by (nonlinear_arith);
        },
    }
}

spec fn repeat_shards_once(s: Seq<ManaCostShard>) -> bool {
    crate::types::mana::repeat_shards(s, 1) == s
}

proof fn lemma_repeat_once(s: Seq<ManaCostShard>)
    ensures
        repeat_shards_once(s),
{
    assert(crate::types::mana::repeat_shards(s, 0) + s =~= s);
}

/// CR 107.1b + CR 601.2f: fixing X leaves no {X} symbol, and the mana value
/// grows by the value of X once for each {X} that was there.
pub proof fn law_concretize_x_adds_value_per_x(c: ManaCostView, value: u32)
    requires
        cost_generic(c) + value * x_count(cost_shards(c)) <= u32::MAX,
    ensures
        x_count(cost_shards(concretized_view(c, value))) == 0,
        mana_value_of(concretized_view(c, value)) == mana_value_of(c) + value * x_count(
            cost_shards(c),
        ),
{
    match c {
        ManaCostView::Cost { shards, generic } => {
            lemma_without_x_value(shards);
            lemma_without_x_has_no_x(shards);
            let g2 = (generic + value * x_count(shards)) as u32;
            assert(g2 == generic + value * x_count(shards));
            assert(concretized_view(c, value) == ManaCostView::Cost {
                shards: without_x(shards),
                generic: g2,
            });
            assert(cost_generic(concretized_view(c, value)) == g2);
            assert(cost_shards(concretized_view(c, value)) == without_x(shards));
            assert(mana_value_of(concretized_view(c, value)) == shards_value(without_x(shards))
                + g2);
            assert(mana_value_of(c) == shards_value(shards) + generic);
            assert(shards_value(without_x(shards)) == shards_value(shards));
            assert(cost_shards(c) == shards);
            assert(mana_value_of(concretized_view(c, value)) == mana_value_of(c) + value * x_count(
                cost_shards(c),
            ));
        },
        _ => {
            let z = x_count(Seq::<ManaCostShard>::empty());
            assert(z == 0);
            assert(value * z == 0) by (nonlinear_arith)
                requires
                    z == 0,
            ;
        },
    }
}

proof fn lemma_without_x_has_no_x(s: Seq<ManaCostShard>)
    ensures
        x_count(without_x(s)) == 0,
    decreases s.len(),
{
    if s.len() > 0 {
        lemma_without_x_has_no_x(s.drop_last());
        if !is_x(s.last()) {
            lemma_count_push(without_x(s.drop_last()), s.last(), |sh: ManaCostShard| is_x(sh));
        }
    }
}

/// CR 700.5 + CR 202.3: a symbol that counts toward devotion to a color adds
/// at least one to a mana value.
pub proof fn law_colored_symbol_has_mana_value(s: ManaCostShard, c: ManaColor)
    requires
        shard_colors(s).contains(c),
    ensures
        shard_mana_value(s) >= 1,
{
    if s == ManaCostShard::X {
        assert(shard_colors(s).len() == 0);
    }
}

/// Mana of a color has that color's type, and every type but colorless comes
/// from exactly one color.
pub proof fn law_color_type_round_trip(c: ManaColor, t: ManaType)
    ensures
        color_of_type(mana_type_of(c)) == Some(c),
        color_of_type(t) == Some(c) <==> mana_type_of(c) == t,
{
}

/// CR 106.6: restricted mana is never spent on costs paid while an effect
/// resolves, whatever the restriction.
pub proof fn law_restricted_mana_not_for_effects(r: ManaRestriction)
    ensures
        !allows_spec(r, PaymentContext::Effect),
{
}

/// CR 106.6: activation-only mana can't be spent to cast a spell, and can
/// always be spent to activate an ability.
pub proof fn law_activation_only_mana(meta: crate::types::mana::SpellMeta, types: Seq<String>, subtypes: Seq<String>)
    ensures
        !crate::types::mana::allows_spell_spec(ManaRestriction::OnlyForActivation, meta),
        crate::types::mana::allows_activation_spec(ManaRestriction::OnlyForActivation, types, subtypes),
{
}

/// Adding a unit adds one to its type's count and to the total, and leaves
/// the other types' counts unchanged.
pub proof fn law_add_counts_one(s: Seq<ManaUnit>, u: ManaUnit, c: ManaType)
    ensures
        s.push(u).len() == s.len() + 1,
        count_color_of(s.push(u), c) == count_color_of(s, c) + if u.color == c {
            1nat
        } else {
            0nat
        },
{
    lemma_count_push(s, u, has_color(c));
}

/// Removing the element at `p` the way `Vec::swap_remove` does takes away
/// exactly one element that satisfies `pred` when `s[p]` does.
pub proof fn lemma_count_swap_removed(s: Seq<ManaUnit>, p: int, pred: spec_fn(ManaUnit) -> bool)
    requires
        0 <= p < s.len(),
    ensures
        swap_removed(s, p).len() == s.len() - 1,
        count_where(swap_removed(s, p), pred) + (if pred(s[p]) {
            1nat
        } else {
            0nat
        }) == count_where(s, pred),
{
    let n = s.len() as int;
    if p == n - 1 {
        assert(swap_removed(s, p) =~= s.drop_last());
    } else {
        let a = s.subrange(0, p);
        let b = s.subrange(p + 1, n - 1);
        let l = s.last();
        assert(s =~= a + seq![s[p]] + b + seq![l]);
        assert(swap_removed(s, p) =~= a + seq![l] + b);
        lemma_count_concat(a + seq![s[p]], b, pred);
        lemma_count_concat(a, seq![s[p]], pred);
        lemma_count_concat(a + seq![s[p]] + b, seq![l], pred);
        lemma_count_concat(a + seq![l], b, pred);
        lemma_count_concat(a, seq![l], pred);
        lemma_count_single(s[p], pred);
        lemma_count_single(l, pred);
    }
}

proof fn lemma_count_single(x: ManaUnit, pred: spec_fn(ManaUnit) -> bool)
    ensures
        count_where(seq![x], pred) == if pred(x) {
            1nat
        } else {
            0nat
        },
{
    assert(seq![x].drop_last() =~= Seq::<ManaUnit>::empty());
    assert(count_where(Seq::<ManaUnit>::empty(), pred) == 0);
}

/// Spending mana of a type succeeds exactly when the pool has some, and then
/// takes away one unit of that type and nothing else.
pub proof fn law_spend_takes_one_of_the_type(s: Seq<ManaUnit>, c: ManaType, other: ManaType)
    ensures
        first_index(s, has_color(c)) >= 0 <==> count_color_of(s, c) > 0,
        first_index(s, has_color(c)) >= 0 ==> {
            let p = first_index(s, has_color(c));
            &&& s[p].color == c
            &&& swap_removed(s, p).len() == s.len() - 1
            &&& count_color_of(swap_removed(s, p), c) + 1 == count_color_of(s, c)
            &&& other != c ==> count_color_of(swap_removed(s, p), other) == count_color_of(
                s,
                other,
            )
        },
{
    lemma_first_index_spec(s, has_color(c));
    lemma_count_positive(s, has_color(c));
    let p = first_index(s, has_color(c));
    if p >= 0 {
        lemma_count_swap_removed(s, p, has_color(c));
        lemma_count_swap_removed(s, p, has_color(other));
    } else {
        if count_color_of(s, c) > 0 {
            let q = choose|q: int| 0 <= q < s.len() && has_color(c)(#[trigger] s[q]);
            assert(!has_color(c)(s[q]));
        }
    }
}

/// CR 106.6: the unit `spend_for` spends is unrestricted mana of the type if
/// the pool has any; otherwise restricted mana of the type all of whose
/// restrictions allow the payment; mana whose restrictions forbid the
/// payment is never spent.
pub proof fn law_spend_for_respects_restrictions(
    s: Seq<ManaUnit>,
    c: ManaType,
    ctx: PaymentContext,
)
    ensures
        ({
            let p1 = first_index(s, free_of_color(c));
            let p2 = first_index(s, allowed_of_color(c, ctx));
            &&& p1 >= 0 ==> s[p1].color == c && s[p1].restrictions@.len() == 0
            &&& p1 < 0 ==> forall|q: int|
                0 <= q < s.len() && s[q].color == c ==> (#[trigger] s[q]).restrictions@.len() > 0
            &&& p1 < 0 && p2 >= 0 ==> s[p2].color == c && restrictions_allow(
                s[p2].restrictions@,
                ctx,
            )
            &&& p1 < 0 && p2 < 0 ==> forall|q: int|
                0 <= q < s.len() && (#[trigger] s[q]).color == c ==> !restrictions_allow(
                    s[q].restrictions@,
                    ctx,
                ) || s[q].restrictions@.len() == 0
        }),
{
    lemma_first_index_spec(s, free_of_color(c));
    lemma_first_index_spec(s, allowed_of_color(c, ctx));
    let p1 = first_index(s, free_of_color(c));
    if p1 < 0 {
        assert forall|q: int| 0 <= q < s.len() && s[q].color == c implies (
        #[trigger] s[q]).restrictions@.len() > 0 by {
            assert(!free_of_color(c)(s[q]));
        }
        assert forall|q: int|
            0 <= q < s.len() && (#[trigger] s[q]).color == c && first_index(
                s,
                allowed_of_color(c, ctx),
            ) < 0 implies !restrictions_allow(s[q].restrictions@, ctx)
            || s[q].restrictions@.len() == 0 by {
            assert(!allowed_of_color(c, ctx)(s[q]));
        }
    }
}

/// Removing the mana of a source leaves none from it, and the number
/// removed plus the number left is the number there was.
pub proof fn law_remove_from_source_accounts(s: Seq<ManaUnit>, id: ObjectId)
    ensures
        forall|q: int|
            0 <= q < s.filter(not_from(id)).len() ==> (#[trigger] s.filter(
                not_from(id),
            )[q]).source_id != id,
        s.filter(not_from(id)).len() + count_where(s, |u: ManaUnit| u.source_id == id)
            == s.len(),
    decreases s.len(),
{
    reveal_with_fuel(Seq::<_>::filter, 1);
    if s.len() > 0 {
        law_remove_from_source_accounts(s.drop_last(), id);
        let f = s.drop_last().filter(not_from(id));
        if s.last().source_id != id {
            assert forall|q: int| 0 <= q < f.push(s.last()).len() implies (
            #[trigger] f.push(s.last())[q]).source_id != id by {
                if q < f.len() {
                    assert(f.push(s.last())[q] == f[q]);
                }
            }
        }
    }
}

/// CR 702.139a: when enough unrestricted mana is there, paying a generic
/// amount removes exactly that many units, all of them unrestricted, and
/// keeps every restricted unit.
pub proof fn law_spend_generic_removes_exactly(s: Seq<ManaUnit>, n: nat)
    requires
        count_where(s, is_unrestricted()) >= n,
    ensures
        without_unrestricted(s, n).len() + n == s.len(),
        count_where(without_unrestricted(s, n), is_unrestricted()) + n == count_where(
            s,
            is_unrestricted(),
        ),
    decreases s.len(),
{
    if s.len() > 0 {
        lemma_count_drop_first(s, is_unrestricted());
        if n > 0 && s[0].restrictions@.len() == 0 {
            law_spend_generic_removes_exactly(s.drop_first(), (n - 1) as nat);
        } else {
            law_spend_generic_removes_exactly(s.drop_first(), n);
            let rest = without_unrestricted(s.drop_first(), n);
            lemma_count_concat(seq![s[0]], rest, is_unrestricted());
            lemma_count_single(s[0], is_unrestricted());
        }
    }
}

/// CR 106.4 + CR 703.4q: the end of a step never adds mana; and with no
/// step-end handler, entering the cleanup step outside combat empties the
/// pool entirely.
pub proof fn law_step_end_never_adds_mana(
    s: Seq<ManaUnit>,
    in_combat: bool,
    entering_cleanup: bool,
    hs: Seq<StepEndManaHandler>,
)
    ensures
        step_end_pool(s, in_combat, entering_cleanup, hs).len() <= s.len(),
        hs.len() == 0 && entering_cleanup && !in_combat ==> step_end_pool(
            s,
            in_combat,
            entering_cleanup,
            hs,
        ).len() == 0,
    decreases s.len(),
{
    if s.len() > 0 {
        law_step_end_never_adds_mana(s.drop_last(), in_combat, entering_cleanup, hs);
        if hs.len() == 0 && entering_cleanup && !in_combat {
            assert(step_end_result(s.last(), in_combat, entering_cleanup, hs) is None);
        }
    }
}

/// CR 106.6: mana that may be spent only on spells with a keyword cast from
/// a zone is spent on a spell only where the spell was cast from that zone
/// (a flashback spell cast from its owner's hand gets none of it); where it
/// was, it is spent on exactly the spells that mana for spells with that
/// keyword is spent on. The same holds of a unit of mana carrying that
/// restriction among others, and such a unit is never spent on anything but
/// a spell.
pub proof fn law_keyword_from_zone_needs_the_zone(
    k: crate::types::keywords::KeywordKind,
    z: crate::types::zones::Zone,
    meta: crate::types::mana::SpellMeta,
    rs: Seq<ManaRestriction>,
    ctx: PaymentContext,
)
    ensures
        crate::types::mana::allows_spell_spec(ManaRestriction::OnlyForSpellWithKeywordKindFromZone(k, z), meta)
            ==> meta.cast_from_zone == Some(z),
        meta.cast_from_zone == Some(z) ==> (crate::types::mana::allows_spell_spec(
            ManaRestriction::OnlyForSpellWithKeywordKindFromZone(k, z),
            meta,
        ) == crate::types::mana::allows_spell_spec(ManaRestriction::OnlyForSpellWithKeywordKind(k), meta)),
        match ctx {
            PaymentContext::Spell(m) => rs.contains(ManaRestriction::OnlyForSpellWithKeywordKindFromZone(k, z))
                && restrictions_allow(rs, ctx) ==> m.cast_from_zone == Some(z),
            _ => rs.contains(ManaRestriction::OnlyForSpellWithKeywordKindFromZone(k, z)) ==> !restrictions_allow(
                rs,
                ctx,
            ),
        },
{
    if rs.contains(ManaRestriction::OnlyForSpellWithKeywordKindFromZone(k, z)) && restrictions_allow(rs, ctx) {
        let i = choose|i: int| 0 <= i < rs.len() && rs[i] == ManaRestriction::OnlyForSpellWithKeywordKindFromZone(k, z);
        assert(allows_spec(rs[i], ctx));
    }
}

} // verus!
