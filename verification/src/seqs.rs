//! Sequence facts used across the crate: the first position that satisfies a
//! predicate, and counting.

use vstd::prelude::*;

verus! {

/// Index of the first element satisfying `pred`, or -1 when none does.
pub open spec fn first_index<T>(s: Seq<T>, pred: spec_fn(T) -> bool) -> int
    decreases s.len(),
{
    if s.len() == 0 {
        -1
    } else if pred(s[0]) {
        0
    } else {
        let r = first_index(s.drop_first(), pred);
        if r < 0 {
            -1
        } else {
            r + 1
        }
    }
}

/// Number of elements satisfying `pred`.
pub open spec fn count_where<T>(s: Seq<T>, pred: spec_fn(T) -> bool) -> nat
    decreases s.len(),
{
    if s.len() == 0 {
        0
    } else {
        count_where(s.drop_last(), pred) + if pred(s.last()) {
            1nat
        } else {
            0nat
        }
    }
}

/// `p` is the first position satisfying `pred`.
pub proof fn lemma_first_index_found<T>(s: Seq<T>, pred: spec_fn(T) -> bool, p: int)
    requires
        0 <= p < s.len(),
        pred(s[p]),
        forall|q: int| 0 <= q < p ==> !pred(#[trigger] s[q]),
    ensures
        first_index(s, pred) == p,
    decreases p,
{
    if p > 0 {
        assert(!pred(s[0]));
        assert forall|q: int| 0 <= q < p - 1 implies !pred(#[trigger] s.drop_first()[q]) by {
            assert(s.drop_first()[q] == s[q + 1]);
        }
        lemma_first_index_found(s.drop_first(), pred, p - 1);
    }
}

/// No position satisfies `pred`.
pub proof fn lemma_first_index_none<T>(s: Seq<T>, pred: spec_fn(T) -> bool)
    requires
        forall|q: int| 0 <= q < s.len() ==> !pred(#[trigger] s[q]),
    ensures
        first_index(s, pred) == -1,
    decreases s.len(),
{
    if s.len() > 0 {
        assert(!pred(s[0]));
        assert forall|q: int| 0 <= q < s.len() - 1 implies !pred(#[trigger] s.drop_first()[q]) by {
            assert(s.drop_first()[q] == s[q + 1]);
        }
        lemma_first_index_none(s.drop_first(), pred);
    }
}

/// What `first_index` returns: -1, or a position that satisfies `pred` with
/// none before it.
pub proof fn lemma_first_index_spec<T>(s: Seq<T>, pred: spec_fn(T) -> bool)
    ensures
        -1 <= first_index(s, pred) < s.len(),
        first_index(s, pred) >= 0 ==> pred(s[first_index(s, pred)]),
        first_index(s, pred) >= 0 ==> forall|q: int|
            0 <= q < first_index(s, pred) ==> !pred(#[trigger] s[q]),
        first_index(s, pred) == -1 ==> forall|q: int| 0 <= q < s.len() ==> !pred(#[trigger] s[q]),
    decreases s.len(),
{
    if s.len() > 0 {
        lemma_first_index_spec(s.drop_first(), pred);
        if !pred(s[0]) {
            assert forall|q: int| 0 <= q < s.len() && first_index(s, pred) == -1 implies !pred(
                #[trigger] s[q],
            ) by {
                if q > 0 {
                    assert(s[q] == s.drop_first()[q - 1]);
                }
            }
            assert forall|q: int|
                0 <= q < first_index(s, pred) && first_index(s, pred) >= 0 implies !pred(
                #[trigger] s[q],
            ) by {
                if q > 0 {
                    assert(s[q] == s.drop_first()[q - 1]);
                }
            }
        }
    }
}

/// Counting over a sequence extended by one element.
pub proof fn lemma_count_push<T>(s: Seq<T>, x: T, pred: spec_fn(T) -> bool)
    ensures
        count_where(s.push(x), pred) == count_where(s, pred) + if pred(x) {
            1nat
        } else {
            0nat
        },
{
    assert(s.push(x).drop_last() =~= s);
}

/// Counting over a concatenation.
pub proof fn lemma_count_concat<T>(a: Seq<T>, b: Seq<T>, pred: spec_fn(T) -> bool)
    ensures
        count_where(a + b, pred) == count_where(a, pred) + count_where(b, pred),
    decreases b.len(),
{
    if b.len() == 0 {
        assert(a + b =~= a);
    } else {
        assert((a + b).drop_last() =~= a + b.drop_last());
        lemma_count_concat(a, b.drop_last(), pred);
    }
}

/// Counting over a sequence with its first element removed.
pub proof fn lemma_count_drop_first<T>(s: Seq<T>, pred: spec_fn(T) -> bool)
    requires
        s.len() > 0,
    ensures
        count_where(s, pred) == count_where(s.drop_first(), pred) + if pred(s[0]) {
            1nat
        } else {
            0nat
        },
{
    assert(s =~= seq![s[0]] + s.drop_first());
    lemma_count_concat(seq![s[0]], s.drop_first(), pred);
    assert(seq![s[0]].drop_last() =~= Seq::<T>::empty());
    assert(seq![s[0]].last() == s[0]);
    assert(count_where(Seq::<T>::empty(), pred) == 0);
    assert(count_where(seq![s[0]], pred) == if pred(s[0]) {
        1nat
    } else {
        0nat
    });
}

/// Counting is bounded by the length.
pub proof fn lemma_count_le_len<T>(s: Seq<T>, pred: spec_fn(T) -> bool)
    ensures
        count_where(s, pred) <= s.len(),
    decreases s.len(),
{
    if s.len() > 0 {
        lemma_count_le_len(s.drop_last(), pred);
    }
}

/// A positive count means some element satisfies the predicate.
pub proof fn lemma_count_positive<T>(s: Seq<T>, pred: spec_fn(T) -> bool)
    ensures
        count_where(s, pred) > 0 <==> exists|q: int| 0 <= q < s.len() && pred(#[trigger] s[q]),
    decreases s.len(),
{
    if s.len() > 0 {
        lemma_count_positive(s.drop_last(), pred);
        if exists|q: int| 0 <= q < s.len() && pred(#[trigger] s[q]) {
            let q = choose|q: int| 0 <= q < s.len() && pred(#[trigger] s[q]);
            if q < s.len() - 1 {
                assert(s.drop_last()[q] == s[q]);
            }
        }
        if exists|q: int| 0 <= q < s.drop_last().len() && pred(#[trigger] s.drop_last()[q]) {
            let q = choose|q: int| 0 <= q < s.drop_last().len() && pred(#[trigger] s.drop_last()[q]);
            assert(s[q] == s.drop_last()[q]);
        }
    }
}

} // verus!

verus! {

/// What a sequence extended by one element contains.
pub proof fn lemma_contains_push<T>(s: Seq<T>, x: T, y: T)
    ensures
        s.push(x).contains(y) == (s.contains(y) || x == y),
{
    if s.contains(y) {
        let j = choose|j: int| 0 <= j < s.len() && s[j] == y;
        assert(s.push(x)[j] == y);
    }
    if x == y {
        assert(s.push(x)[s.len() as int] == y);
    }
    if s.push(x).contains(y) {
        let j = choose|j: int| 0 <= j < s.push(x).len() && s.push(x)[j] == y;
        if j < s.len() {
            assert(s[j] == y);
        }
    }
}

} // verus!
