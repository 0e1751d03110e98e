//! Properties of the game's effects that span calls: what applying an
//! effect twice does, what one effect undoes of another, and what stays.

use vstd::prelude::*;

use crate::game::effects::goad::{add_once, goaded};
use crate::game::effects::phase_out::{attached_to_obj, can_phase_out, phase_in_view, phase_out_view};
use crate::game::effects::tap_untap::with_tapped;
use crate::game::epic::{epic_locked, first_epic_of, same_entry};
use crate::game::derived_views::{casting_variant_text, paid_facts, shown, x_part, PaidFactView};
use crate::game::state::{CastingVariant, GameState, StackEntry, StackPaidSnapshot, ObjectView, PhaseOutCause};
use crate::types::identifiers::{ObjectId, PlayerId};

verus! {

/// CR 701.15d: goading the same objects by the same player a second time
/// has no further effect.
pub proof fn law_goad_twice_is_goad_once(os: Seq<ObjectView>, ids: Seq<ObjectId>, p: PlayerId)
    ensures
        goaded(goaded(os, ids, p), ids, p) == goaded(os, ids, p),
{
    let once = goaded(os, ids, p);
    assert forall|i: int| 0 <= i < os.len() implies #[trigger] goaded(once, ids, p)[i] == once[i] by {
        if ids.contains(ObjectId(i as u64)) && os[i].zone == crate::types::zones::Zone::Battlefield {
            assert(once[i].goaded_by.contains(p)) by {
                if !os[i].goaded_by.contains(p) {
                    assert(os[i].goaded_by.push(p)[os[i].goaded_by.len() as int] == p);
                }
            }
        }
    }
    assert(goaded(once, ids, p) =~= once);
}

/// CR 701.15c-d: a creature is goaded by each player at most once, however
/// often it is goaded.
pub proof fn law_goaded_by_each_player_once(os: Seq<ObjectView>, ids: Seq<ObjectId>, p: PlayerId)
    requires
        forall|i: int| 0 <= i < os.len() ==> (#[trigger] os[i]).goaded_by.no_duplicates(),
    ensures
        forall|i: int| 0 <= i < os.len() ==> (#[trigger] goaded(os, ids, p)[i]).goaded_by.no_duplicates(),
{
    assert forall|i: int| 0 <= i < os.len() implies (#[trigger] goaded(os, ids, p)[i]).goaded_by.no_duplicates() by {
        let g = os[i].goaded_by;
        if !g.contains(p) {
            assert forall|a: int, b: int| 0 <= a < b < g.push(p).len() implies g.push(p)[a] != g.push(p)[b] by {
                if b == g.len() {
                    assert(g.push(p)[a] == g[a]);
                }
            }
        }
        assert(add_once(g, p) == g || add_once(g, p) == g.push(p));
    }
}

/// CR 702.26: phasing a phased-in battlefield object out directly and then
/// in again gives back the objects as they were, where nothing attached to
/// it was phased out before.
pub proof fn law_phase_out_then_in_restores(os: Seq<ObjectView>, x: ObjectId)
    requires
        can_phase_out(os, x.0 as int),
        !os[x.0 as int].phased_out_indirectly,
        forall|i: int|
            0 <= i < os.len() && #[trigger] attached_to_obj(os, i, x) ==> !os[i].phased_out
                && !os[i].phased_out_indirectly,
    ensures
        phase_in_view(phase_out_view(os, x, PhaseOutCause::Directly), x) == os,
{
    let out = phase_out_view(os, x, PhaseOutCause::Directly);
    assert(out[x.0 as int].phased_out);
    assert forall|i: int| 0 <= i < os.len() implies #[trigger] phase_in_view(out, x)[i] == os[i] by {
        if i != x.0 && attached_to_obj(out, i, x) {
            assert(attached_to_obj(os, i, x));
        }
    }
    assert(phase_in_view(out, x) =~= os);
}

/// CR 702.26g: an object that phased out on its own stays phased out when
/// the object it is attached to phases in.
pub proof fn law_directly_phased_out_stays_out(os: Seq<ObjectView>, x: ObjectId, y: int)
    requires
        0 <= y < os.len(),
        y != x.0,
        os[y].phased_out,
        !os[y].phased_out_indirectly,
    ensures
        phase_in_view(os, x)[y] == os[y],
{
}

/// CR 701.26: untapping what was just tapped gives back the objects as they
/// were, where none of them was tapped before.
pub proof fn law_untap_undoes_tap(os: Seq<ObjectView>, ids: Seq<ObjectId>)
    requires
        forall|i: int| 0 <= i < os.len() && ids.contains(ObjectId(i as u64)) ==> !(#[trigger] os[i]).tapped,
    ensures
        with_tapped(with_tapped(os, ids, true), ids, false) == os,
{
    let t = with_tapped(os, ids, true);
    assert forall|i: int| 0 <= i < os.len() implies #[trigger] with_tapped(t, ids, false)[i] == os[i] by {}
    assert(with_tapped(t, ids, false) =~= os);
}

/// CR 702.50a: an epic lock lasts for the rest of the game: a later state
/// that keeps every earlier epic effect keeps the lock.
pub proof fn law_epic_lock_persists(a: GameState, b: GameState, p: PlayerId)
    requires
        epic_locked(a, p),
        a.epic_effects@.len() <= b.epic_effects@.len(),
        b.epic_effects@.take(a.epic_effects@.len() as int) == a.epic_effects@,
    ensures
        epic_locked(b, p),
{
    let i = choose|i: int| 0 <= i < a.epic_effects@.len() && (#[trigger] a.epic_effects@[i]).controller == p;
    assert(b.epic_effects@.take(a.epic_effects@.len() as int)[i] == b.epic_effects@[i]);
    assert(b.epic_effects@[i].controller == p);
}

/// CR 702.50a: the epic effect that registering a spell's entry appends is
/// the one a lookup by the entry's id finds, where no earlier epic effect
/// came from an entry with that id.
pub proof fn law_registered_epic_is_found(a: GameState, b: GameState, entry: StackEntry)
    requires
        b.epic_effects@.len() == a.epic_effects@.len() + 1,
        b.epic_effects@.take(a.epic_effects@.len() as int) == a.epic_effects@,
        same_entry(entry, b.epic_effects@[a.epic_effects@.len() as int].source_entry),
        forall|i: int| 0 <= i < a.epic_effects@.len() ==> (#[trigger] a.epic_effects@[i]).source_entry.id != entry.id,
    ensures
        first_epic_of(b.epic_effects@, entry.id) == Some(a.epic_effects@.len() as int),
{
    let n = a.epic_effects@.len() as int;
    let es = b.epic_effects@;
    assert forall|j: int| 0 <= j < n implies (#[trigger] es[j]).source_entry.id != entry.id by {
        assert(es.take(n)[j] == es[j]);
    }
    assert(0 <= n < es.len() && es[n].source_entry.id == entry.id);
    let w = choose|k: int| 0 <= k < es.len() && es[k].source_entry.id == entry.id && forall|j: int|
        0 <= j < k ==> (#[trigger] es[j]).source_entry.id != entry.id;
    if w < n {
        assert(es[w].source_entry.id != entry.id);
    } else if w > n {
        assert(es[n].source_entry.id != entry.id);
    }
}

/// A list made of a part, a fact shown on a condition and a part: where
/// neither outer part holds an element that `pick` picks and `pick` picks
/// the fact, the list holds the fact exactly when the condition holds, and
/// every element `pick` picks is the fact.
proof fn lemma_shown_in_middle(
    pre: Seq<PaidFactView>,
    cond: bool,
    fact: PaidFactView,
    post: Seq<PaidFactView>,
    pick: spec_fn(PaidFactView) -> bool,
)
    requires
        pick(fact),
        forall|j: int| 0 <= j < pre.len() ==> !pick(#[trigger] pre[j]),
        forall|j: int| 0 <= j < post.len() ==> !pick(#[trigger] post[j]),
    ensures
        (pre + shown(cond, fact) + post).contains(fact) <==> cond,
        forall|i: int|
            0 <= i < (pre + shown(cond, fact) + post).len() && pick(#[trigger] (pre + shown(cond, fact) + post)[i])
                ==> (pre + shown(cond, fact) + post)[i] == fact,
{
    let f = pre + shown(cond, fact) + post;
    let mid = shown(cond, fact);
    assert forall|i: int| 0 <= i < f.len() && pick(#[trigger] f[i]) implies pre.len() <= i < pre.len() + mid.len()
        && f[i] == fact by {
        if i < pre.len() {
            assert(f[i] == pre[i]);
        } else if i >= pre.len() + mid.len() {
            assert(f[i] == post[i - pre.len() - mid.len()]);
        } else {
            assert(f[i] == mid[i - pre.len()]);
        }
    }
    if cond {
        assert(f[pre.len() as int] == fact);
    } else if f.contains(fact) {
        let i = choose|i: int| 0 <= i < f.len() && f[i] == fact;
        assert(pick(f[i]));
    }
}

/// Where neither of two lists holds an element that `pick` picks, neither
/// does the two joined.
proof fn lemma_none_picked2(a: Seq<PaidFactView>, b: Seq<PaidFactView>, pick: spec_fn(PaidFactView) -> bool)
    requires
        forall|j: int| 0 <= j < a.len() ==> !pick(#[trigger] a[j]),
        forall|j: int| 0 <= j < b.len() ==> !pick(#[trigger] b[j]),
    ensures
        forall|j: int| 0 <= j < (a + b).len() ==> !pick(#[trigger] (a + b)[j]),
{
    assert forall|j: int| 0 <= j < (a + b).len() implies !pick(#[trigger] (a + b)[j]) by {
        if j < a.len() {
            assert((a + b)[j] == a[j]);
        } else {
            assert((a + b)[j] == b[j - a.len()]);
        }
    }
}

/// A fact shown on a condition, which `pick` does not pick: no element of
/// it is picked.
proof fn lemma_shown_not_picked(cond: bool, f: PaidFactView, pick: spec_fn(PaidFactView) -> bool)
    requires
        !pick(f),
    ensures
        forall|j: int| 0 <= j < shown(cond, f).len() ==> !pick(#[trigger] shown(cond, f)[j]),
{
}

/// Seven lists joined in turn, grouped around each of them.
proof fn lemma_regroup7(
    x: Seq<PaidFactView>,
    m: Seq<PaidFactView>,
    c: Seq<PaidFactView>,
    k: Seq<PaidFactView>,
    a: Seq<PaidFactView>,
    v: Seq<PaidFactView>,
    n: Seq<PaidFactView>,
)
    ensures
        x + m + c + k + a + v + n == x + m + (c + k + a + v + n),
        x + m + c + k + a + v + n == (x + m) + c + (k + a + v + n),
        x + m + c + k + a + v + n == (x + m + c) + k + (a + v + n),
        x + m + c + k + a + v + n == (x + m + c + k) + a + (v + n),
        x + m + c + k + a + v + n == (x + m + c + k + a + v) + n + Seq::<PaidFactView>::empty(),
{
    assert(x + m + c + k + a + v + n =~= x + m + (c + k + a + v + n));
    assert(x + m + c + k + a + v + n =~= (x + m) + c + (k + a + v + n));
    assert(x + m + c + k + a + v + n =~= (x + m + c) + k + (a + v + n));
    assert(x + m + c + k + a + v + n =~= (x + m + c + k) + a + (v + n));
    assert(x + m + c + k + a + v + n =~= (x + m + c + k + a + v) + n + Seq::<PaidFactView>::empty());
}

/// The paid facts hold the fact of the mana spent exactly when it is shown, and
/// no other fact of that kind.
#[verifier::rlimit(40)]
proof fn lemma_paid_facts_mana_spent(p: StackPaidSnapshot)
    ensures
        paid_facts(Some(p)).contains(PaidFactView::ManaSpent { amount: p.actual_mana_spent }) <==> p.actual_mana_spent > 0,
        forall|i: int|
            0 <= i < paid_facts(Some(p)).len() && (#[trigger] paid_facts(Some(p))[i]) is ManaSpent ==> paid_facts(Some(p))[i]
                == (PaidFactView::ManaSpent { amount: p.actual_mana_spent }),
{
    let x = x_part(p);
    let m = shown(p.actual_mana_spent > 0, PaidFactView::ManaSpent { amount: p.actual_mana_spent });
    let c = shown(p.distinct_colors_spent > 0, PaidFactView::ColorsSpent { distinct: p.distinct_colors_spent });
    let k = shown(p.kickers_paid > 0, PaidFactView::Kicked { count: p.kickers_paid });
    let a = shown(p.additional_cost_paid, PaidFactView::AdditionalCostPaid);
    let v = shown(p.casting_variant != CastingVariant::Normal, PaidFactView::CastVariant { variant: casting_variant_text(p.casting_variant) });
    let n = shown(p.convoked_creatures > 0, PaidFactView::Convoked { count: p.convoked_creatures });
    let f = paid_facts(Some(p));
    assert(f == x + m + c + k + a + v + n);
    lemma_regroup7(x, m, c, k, a, v, n);
    let pick = |e: PaidFactView| e is ManaSpent;
    assert forall|j: int| 0 <= j < x.len() implies !pick(#[trigger] x[j]) by {}
    lemma_shown_not_picked(p.distinct_colors_spent > 0, PaidFactView::ColorsSpent { distinct: p.distinct_colors_spent }, pick);
    lemma_shown_not_picked(p.kickers_paid > 0, PaidFactView::Kicked { count: p.kickers_paid }, pick);
    lemma_shown_not_picked(p.additional_cost_paid, PaidFactView::AdditionalCostPaid, pick);
    lemma_shown_not_picked(p.casting_variant != CastingVariant::Normal, PaidFactView::CastVariant { variant: casting_variant_text(p.casting_variant) }, pick);
    lemma_shown_not_picked(p.convoked_creatures > 0, PaidFactView::Convoked { count: p.convoked_creatures }, pick);
    lemma_none_picked2(c, k, pick);
    lemma_none_picked2(c + k, a, pick);
    lemma_none_picked2(c + k + a, v, pick);
    lemma_none_picked2(c + k + a + v, n, pick);
    lemma_shown_in_middle(x, p.actual_mana_spent > 0, PaidFactView::ManaSpent { amount: p.actual_mana_spent }, c + k + a + v + n, pick);
}

/// The paid facts hold the fact of the colors spent exactly when it is shown, and
/// no other fact of that kind.
#[verifier::rlimit(40)]
proof fn lemma_paid_facts_colors_spent(p: StackPaidSnapshot)
    ensures
        paid_facts(Some(p)).contains(PaidFactView::ColorsSpent { distinct: p.distinct_colors_spent }) <==> p.distinct_colors_spent > 0,
        forall|i: int|
            0 <= i < paid_facts(Some(p)).len() && (#[trigger] paid_facts(Some(p))[i]) is ColorsSpent ==> paid_facts(Some(p))[i]
                == (PaidFactView::ColorsSpent { distinct: p.distinct_colors_spent }),
{
    let x = x_part(p);
    let m = shown(p.actual_mana_spent > 0, PaidFactView::ManaSpent { amount: p.actual_mana_spent });
    let c = shown(p.distinct_colors_spent > 0, PaidFactView::ColorsSpent { distinct: p.distinct_colors_spent });
    let k = shown(p.kickers_paid > 0, PaidFactView::Kicked { count: p.kickers_paid });
    let a = shown(p.additional_cost_paid, PaidFactView::AdditionalCostPaid);
    let v = shown(p.casting_variant != CastingVariant::Normal, PaidFactView::CastVariant { variant: casting_variant_text(p.casting_variant) });
    let n = shown(p.convoked_creatures > 0, PaidFactView::Convoked { count: p.convoked_creatures });
    let f = paid_facts(Some(p));
    assert(f == x + m + c + k + a + v + n);
    lemma_regroup7(x, m, c, k, a, v, n);
    let pick = |e: PaidFactView| e is ColorsSpent;
    assert forall|j: int| 0 <= j < x.len() implies !pick(#[trigger] x[j]) by {}
    lemma_shown_not_picked(p.actual_mana_spent > 0, PaidFactView::ManaSpent { amount: p.actual_mana_spent }, pick);
    lemma_shown_not_picked(p.kickers_paid > 0, PaidFactView::Kicked { count: p.kickers_paid }, pick);
    lemma_shown_not_picked(p.additional_cost_paid, PaidFactView::AdditionalCostPaid, pick);
    lemma_shown_not_picked(p.casting_variant != CastingVariant::Normal, PaidFactView::CastVariant { variant: casting_variant_text(p.casting_variant) }, pick);
    lemma_shown_not_picked(p.convoked_creatures > 0, PaidFactView::Convoked { count: p.convoked_creatures }, pick);
    lemma_none_picked2(x, m, pick);
    lemma_none_picked2(k, a, pick);
    lemma_none_picked2(k + a, v, pick);
    lemma_none_picked2(k + a + v, n, pick);
    lemma_shown_in_middle(x + m, p.distinct_colors_spent > 0, PaidFactView::ColorsSpent { distinct: p.distinct_colors_spent }, k + a + v + n, pick);
}

/// The paid facts hold the fact of the kickers paid exactly when it is shown, and
/// no other fact of that kind.
#[verifier::rlimit(40)]
proof fn lemma_paid_facts_kickers(p: StackPaidSnapshot)
    ensures
        paid_facts(Some(p)).contains(PaidFactView::Kicked { count: p.kickers_paid }) <==> p.kickers_paid > 0,
        forall|i: int|
            0 <= i < paid_facts(Some(p)).len() && (#[trigger] paid_facts(Some(p))[i]) is Kicked ==> paid_facts(Some(p))[i]
                == (PaidFactView::Kicked { count: p.kickers_paid }),
{
    let x = x_part(p);
    let m = shown(p.actual_mana_spent > 0, PaidFactView::ManaSpent { amount: p.actual_mana_spent });
    let c = shown(p.distinct_colors_spent > 0, PaidFactView::ColorsSpent { distinct: p.distinct_colors_spent });
    let k = shown(p.kickers_paid > 0, PaidFactView::Kicked { count: p.kickers_paid });
    let a = shown(p.additional_cost_paid, PaidFactView::AdditionalCostPaid);
    let v = shown(p.casting_variant != CastingVariant::Normal, PaidFactView::CastVariant { variant: casting_variant_text(p.casting_variant) });
    let n = shown(p.convoked_creatures > 0, PaidFactView::Convoked { count: p.convoked_creatures });
    let f = paid_facts(Some(p));
    assert(f == x + m + c + k + a + v + n);
    lemma_regroup7(x, m, c, k, a, v, n);
    let pick = |e: PaidFactView| e is Kicked;
    assert forall|j: int| 0 <= j < x.len() implies !pick(#[trigger] x[j]) by {}
    lemma_shown_not_picked(p.actual_mana_spent > 0, PaidFactView::ManaSpent { amount: p.actual_mana_spent }, pick);
    lemma_shown_not_picked(p.distinct_colors_spent > 0, PaidFactView::ColorsSpent { distinct: p.distinct_colors_spent }, pick);
    lemma_shown_not_picked(p.additional_cost_paid, PaidFactView::AdditionalCostPaid, pick);
    lemma_shown_not_picked(p.casting_variant != CastingVariant::Normal, PaidFactView::CastVariant { variant: casting_variant_text(p.casting_variant) }, pick);
    lemma_shown_not_picked(p.convoked_creatures > 0, PaidFactView::Convoked { count: p.convoked_creatures }, pick);
    lemma_none_picked2(x, m, pick);
    lemma_none_picked2(x + m, c, pick);
    lemma_none_picked2(a, v, pick);
    lemma_none_picked2(a + v, n, pick);
    lemma_shown_in_middle(x + m + c, p.kickers_paid > 0, PaidFactView::Kicked { count: p.kickers_paid }, a + v + n, pick);
}

/// The paid facts hold the fact of an additional cost paid exactly when it is shown, and
/// no other fact of that kind.
#[verifier::rlimit(40)]
proof fn lemma_paid_facts_additional_cost(p: StackPaidSnapshot)
    ensures
        paid_facts(Some(p)).contains(PaidFactView::AdditionalCostPaid) <==> p.additional_cost_paid,
        forall|i: int|
            0 <= i < paid_facts(Some(p)).len() && (#[trigger] paid_facts(Some(p))[i]) is AdditionalCostPaid ==> paid_facts(Some(p))[i]
                == PaidFactView::AdditionalCostPaid,
{
    let x = x_part(p);
    let m = shown(p.actual_mana_spent > 0, PaidFactView::ManaSpent { amount: p.actual_mana_spent });
    let c = shown(p.distinct_colors_spent > 0, PaidFactView::ColorsSpent { distinct: p.distinct_colors_spent });
    let k = shown(p.kickers_paid > 0, PaidFactView::Kicked { count: p.kickers_paid });
    let a = shown(p.additional_cost_paid, PaidFactView::AdditionalCostPaid);
    let v = shown(p.casting_variant != CastingVariant::Normal, PaidFactView::CastVariant { variant: casting_variant_text(p.casting_variant) });
    let n = shown(p.convoked_creatures > 0, PaidFactView::Convoked { count: p.convoked_creatures });
    let f = paid_facts(Some(p));
    assert(f == x + m + c + k + a + v + n);
    lemma_regroup7(x, m, c, k, a, v, n);
    let pick = |e: PaidFactView| e is AdditionalCostPaid;
    assert forall|j: int| 0 <= j < x.len() implies !pick(#[trigger] x[j]) by {}
    lemma_shown_not_picked(p.actual_mana_spent > 0, PaidFactView::ManaSpent { amount: p.actual_mana_spent }, pick);
    lemma_shown_not_picked(p.distinct_colors_spent > 0, PaidFactView::ColorsSpent { distinct: p.distinct_colors_spent }, pick);
    lemma_shown_not_picked(p.kickers_paid > 0, PaidFactView::Kicked { count: p.kickers_paid }, pick);
    lemma_shown_not_picked(p.casting_variant != CastingVariant::Normal, PaidFactView::CastVariant { variant: casting_variant_text(p.casting_variant) }, pick);
    lemma_shown_not_picked(p.convoked_creatures > 0, PaidFactView::Convoked { count: p.convoked_creatures }, pick);
    lemma_none_picked2(x, m, pick);
    lemma_none_picked2(x + m, c, pick);
    lemma_none_picked2(x + m + c, k, pick);
    lemma_none_picked2(v, n, pick);
    lemma_shown_in_middle(x + m + c + k, p.additional_cost_paid, PaidFactView::AdditionalCostPaid, v + n, pick);
}

/// The paid facts hold the fact of the convoking creatures exactly when it is shown, and
/// no other fact of that kind.
#[verifier::rlimit(40)]
proof fn lemma_paid_facts_convoked(p: StackPaidSnapshot)
    ensures
        paid_facts(Some(p)).contains(PaidFactView::Convoked { count: p.convoked_creatures }) <==> p.convoked_creatures > 0,
        forall|i: int|
            0 <= i < paid_facts(Some(p)).len() && (#[trigger] paid_facts(Some(p))[i]) is Convoked ==> paid_facts(Some(p))[i]
                == (PaidFactView::Convoked { count: p.convoked_creatures }),
{
    let x = x_part(p);
    let m = shown(p.actual_mana_spent > 0, PaidFactView::ManaSpent { amount: p.actual_mana_spent });
    let c = shown(p.distinct_colors_spent > 0, PaidFactView::ColorsSpent { distinct: p.distinct_colors_spent });
    let k = shown(p.kickers_paid > 0, PaidFactView::Kicked { count: p.kickers_paid });
    let a = shown(p.additional_cost_paid, PaidFactView::AdditionalCostPaid);
    let v = shown(p.casting_variant != CastingVariant::Normal, PaidFactView::CastVariant { variant: casting_variant_text(p.casting_variant) });
    let n = shown(p.convoked_creatures > 0, PaidFactView::Convoked { count: p.convoked_creatures });
    let f = paid_facts(Some(p));
    assert(f == x + m + c + k + a + v + n);
    lemma_regroup7(x, m, c, k, a, v, n);
    let pick = |e: PaidFactView| e is Convoked;
    assert forall|j: int| 0 <= j < x.len() implies !pick(#[trigger] x[j]) by {}
    lemma_shown_not_picked(p.actual_mana_spent > 0, PaidFactView::ManaSpent { amount: p.actual_mana_spent }, pick);
    lemma_shown_not_picked(p.distinct_colors_spent > 0, PaidFactView::ColorsSpent { distinct: p.distinct_colors_spent }, pick);
    lemma_shown_not_picked(p.kickers_paid > 0, PaidFactView::Kicked { count: p.kickers_paid }, pick);
    lemma_shown_not_picked(p.additional_cost_paid, PaidFactView::AdditionalCostPaid, pick);
    lemma_shown_not_picked(p.casting_variant != CastingVariant::Normal, PaidFactView::CastVariant { variant: casting_variant_text(p.casting_variant) }, pick);
    lemma_none_picked2(x, m, pick);
    lemma_none_picked2(x + m, c, pick);
    lemma_none_picked2(x + m + c, k, pick);
    lemma_none_picked2(x + m + c + k, a, pick);
    lemma_none_picked2(x + m + c + k + a, v, pick);
    assert forall|j: int| 0 <= j < Seq::<PaidFactView>::empty().len() implies !pick(#[trigger] Seq::<PaidFactView>::empty()[j]) by {}
    lemma_shown_in_middle(x + m + c + k + a + v, p.convoked_creatures > 0, PaidFactView::Convoked { count: p.convoked_creatures }, Seq::<PaidFactView>::empty(), pick);
}

/// The facts shown for what was paid for a spell on the stack: "kicked N
/// times" is shown exactly when the spell was kicked, with N the number of
/// kickers paid, and no kicker fact shows another number; likewise the mana
/// spent, the colors spent and the convoking creatures, each shown exactly
/// when there are some and only with that number; and "additional cost
/// paid" exactly when one was paid. Without a record of what was paid
/// nothing is shown.
pub proof fn law_paid_facts_show_what_was_paid(p: StackPaidSnapshot)
    ensures
        paid_facts(Some(p)).contains(PaidFactView::Kicked { count: p.kickers_paid }) <==> p.kickers_paid > 0,
        forall|i: int|
            0 <= i < paid_facts(Some(p)).len() && (#[trigger] paid_facts(Some(p))[i]) is Kicked ==> paid_facts(Some(p))[i]
                == (PaidFactView::Kicked { count: p.kickers_paid }),
        paid_facts(Some(p)).contains(PaidFactView::ManaSpent { amount: p.actual_mana_spent }) <==> p.actual_mana_spent
            > 0,
        forall|i: int|
            0 <= i < paid_facts(Some(p)).len() && (#[trigger] paid_facts(Some(p))[i]) is ManaSpent ==> paid_facts(
                Some(p),
            )[i] == (PaidFactView::ManaSpent { amount: p.actual_mana_spent }),
        paid_facts(Some(p)).contains(PaidFactView::ColorsSpent { distinct: p.distinct_colors_spent })
            <==> p.distinct_colors_spent > 0,
        forall|i: int|
            0 <= i < paid_facts(Some(p)).len() && (#[trigger] paid_facts(Some(p))[i]) is ColorsSpent ==> paid_facts(
                Some(p),
            )[i] == (PaidFactView::ColorsSpent { distinct: p.distinct_colors_spent }),
        paid_facts(Some(p)).contains(PaidFactView::Convoked { count: p.convoked_creatures }) <==> p.convoked_creatures
            > 0,
        forall|i: int|
            0 <= i < paid_facts(Some(p)).len() && (#[trigger] paid_facts(Some(p))[i]) is Convoked ==> paid_facts(
                Some(p),
            )[i] == (PaidFactView::Convoked { count: p.convoked_creatures }),
        paid_facts(Some(p)).contains(PaidFactView::AdditionalCostPaid) <==> p.additional_cost_paid,
        paid_facts(None).len() == 0,
{
    lemma_paid_facts_mana_spent(p);
    lemma_paid_facts_colors_spent(p);
    lemma_paid_facts_kickers(p);
    lemma_paid_facts_additional_cost(p);
    lemma_paid_facts_convoked(p);
}

} // verus!
