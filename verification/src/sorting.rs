//! A stable sort, specified functionally: `spec_sort_by` is insertion sort
//! over a strict order, inserting each element after its ties, together with
//! the laws that make it usable — it permutes its input, orders it, keeps
//! ties in input order, and is idempotent on sorted input.

use vstd::prelude::*;
use vstd::multiset::Multiset;
use vstd::seq_lib::group_seq_properties;

verus! {

/// Inserts `x` after every element it does not strictly precede.
pub open spec fn spec_insert_by<T>(lt: spec_fn(T, T) -> bool, s: Seq<T>, x: T) -> Seq<T>
    decreases s.len(),
{
    if s.len() == 0 {
        seq![x]
    } else if lt(x, s[0]) {
        seq![x] + s
    } else {
        seq![s[0]] + spec_insert_by(lt, s.drop_first(), x)
    }
}

/// Stable insertion sort: elements are inserted left to right, each after
/// its ties, so equal elements keep their input order.
pub open spec fn spec_sort_by<T>(lt: spec_fn(T, T) -> bool, s: Seq<T>) -> Seq<T>
    decreases s.len(),
{
    if s.len() == 0 {
        s
    } else {
        spec_insert_by(lt, spec_sort_by(lt, s.drop_last()), s.last())
    }
}

/// No later element strictly precedes an earlier one.
pub open spec fn spec_sorted_by<T>(lt: spec_fn(T, T) -> bool, s: Seq<T>) -> bool {
    forall|i: int, j: int| 0 <= i < j < s.len() ==> !lt(#[trigger] s[j], #[trigger] s[i])
}

/// Neither element strictly precedes the other.
pub open spec fn spec_tied<T>(lt: spec_fn(T, T) -> bool, a: T, b: T) -> bool {
    !lt(a, b) && !lt(b, a)
}

/// `lt` is a strict weak order: irreflexive and transitive, with transitive
/// incomparability.
pub open spec fn spec_strict_weak<T>(lt: spec_fn(T, T) -> bool) -> bool {
    &&& forall|a: T| !#[trigger] lt(a, a)
    &&& forall|a: T, b: T, c: T| #[trigger] lt(a, b) && #[trigger] lt(b, c) ==> lt(a, c)
    &&& forall|a: T, b: T, c: T| !#[trigger] lt(a, b) && !#[trigger] lt(b, c) ==> !lt(a, c)
}

pub proof fn lemma_insert_by_len<T>(lt: spec_fn(T, T) -> bool, s: Seq<T>, x: T)
    ensures
        spec_insert_by(lt, s, x).len() == s.len() + 1,
    decreases s.len(),
{
    if s.len() != 0 && !lt(x, s[0]) {
        lemma_insert_by_len(lt, s.drop_first(), x);
    }
}

/// Inserting contributes exactly one copy of the inserted element.
pub proof fn lemma_insert_by_multiset<T>(lt: spec_fn(T, T) -> bool, s: Seq<T>, x: T)
    ensures
        spec_insert_by(lt, s, x).to_multiset() == s.to_multiset().insert(x),
    decreases s.len(),
{
    broadcast use vstd::seq_lib::group_to_multiset_ensures;

    if s.len() == 0 {
        assert(spec_insert_by(lt, s, x) =~= Seq::<T>::empty().push(x));
        assert(Seq::<T>::empty().push(x).to_multiset() =~= s.to_multiset().insert(x));
    } else if lt(x, s[0]) {
        vstd::seq_lib::lemma_multiset_commutative(seq![x], s);
        assert(seq![x] =~= Seq::<T>::empty().push(x));
        assert(seq![x].to_multiset() =~= Multiset::<T>::empty().insert(x));
        assert((seq![x] + s).to_multiset() =~= s.to_multiset().insert(x));
    } else {
        lemma_insert_by_multiset(lt, s.drop_first(), x);
        vstd::seq_lib::lemma_multiset_commutative(seq![s[0]], spec_insert_by(lt, s.drop_first(), x));
        vstd::seq_lib::lemma_multiset_commutative(seq![s[0]], s.drop_first());
        assert(seq![s[0]] + s.drop_first() =~= s);
        assert(seq![s[0]].to_multiset() =~= Multiset::<T>::empty().insert(s[0]));
        assert((seq![s[0]] + spec_insert_by(lt, s.drop_first(), x)).to_multiset()
            =~= s.to_multiset().insert(x));
    }
}

/// Sorting permutes: the output holds exactly the input's elements.
pub proof fn lemma_sort_by_multiset<T>(lt: spec_fn(T, T) -> bool, s: Seq<T>)
    ensures
        spec_sort_by(lt, s).to_multiset() == s.to_multiset(),
    decreases s.len(),
{
    broadcast use vstd::seq_lib::group_to_multiset_ensures;

    if s.len() != 0 {
        lemma_sort_by_multiset(lt, s.drop_last());
        lemma_insert_by_multiset(lt, spec_sort_by(lt, s.drop_last()), s.last());
        assert(s.drop_last().push(s.last()) =~= s);
        assert(s.drop_last().push(s.last()).to_multiset() =~= s.drop_last().to_multiset().insert(
            s.last(),
        ));
    }
}

/// Inserting into a sorted sequence keeps it sorted.
pub proof fn lemma_insert_by_sorted<T>(lt: spec_fn(T, T) -> bool, s: Seq<T>, x: T)
    requires
        spec_strict_weak(lt),
        spec_sorted_by(lt, s),
    ensures
        spec_sorted_by(lt, spec_insert_by(lt, s, x)),
    decreases s.len(),
{
    if s.len() == 0 {
    } else if lt(x, s[0]) {
        let out = seq![x] + s;
        assert forall|i: int, j: int| 0 <= i < j < out.len() implies !lt(out[j], out[i]) by {
            if i == 0 {
                if lt(out[j], x) {
                    assert(lt(out[j], s[0]));
                    assert(!lt(s[j - 1], s[0]) || j == 1);
                }
            }
        }
    } else {
        let t = s.drop_first();
        assert(spec_sorted_by(lt, t)) by {
            assert(forall|i: int, j: int|
                0 <= i < j < t.len() ==> !lt(#[trigger] t[j], #[trigger] t[i]) && t[j] == s[j + 1]
                    && t[i] == s[i + 1]);
        }
        lemma_insert_by_sorted(lt, t, x);
        lemma_insert_by_len(lt, t, x);
        let ins = spec_insert_by(lt, t, x);
        let out = seq![s[0]] + ins;
        // every element of the inserted tail either came from `t` or is `x`,
        // and neither precedes the old head
        assert forall|j: int| 0 <= j < ins.len() implies !lt(ins[j], s[0]) by {
            lemma_insert_by_membership(lt, t, x, j);
            if ins[j] == x {
            } else {
                let k = choose|k: int| 0 <= k < t.len() && t[k] == ins[j];
                assert(!lt(s[k + 1], s[0]));
            }
        }
        assert forall|i: int, j: int| 0 <= i < j < out.len() implies !lt(out[j], out[i]) by {
            if i > 0 {
                assert(!lt(ins[j - 1], ins[i - 1]));
            }
        }
    }
}

/// Every element of an insertion came from the sequence or is the new one.
pub proof fn lemma_insert_by_membership<T>(lt: spec_fn(T, T) -> bool, s: Seq<T>, x: T, j: int)
    requires
        0 <= j < spec_insert_by(lt, s, x).len(),
    ensures
        spec_insert_by(lt, s, x)[j] == x || exists|k: int|
            0 <= k < s.len() && s[k] == spec_insert_by(lt, s, x)[j],
    decreases s.len(),
{
    if s.len() == 0 {
    } else if lt(x, s[0]) {
    } else {
        if j > 0 {
            lemma_insert_by_membership(lt, s.drop_first(), x, j - 1);
            let v = spec_insert_by(lt, s, x)[j];
            if v != x {
                let k = choose|k: int|
                    0 <= k < s.drop_first().len() && s.drop_first()[k] == spec_insert_by(
                        lt,
                        s.drop_first(),
                        x,
                    )[j - 1];
                assert(s[k + 1] == v);
            }
        }
    }
}

/// Sorting orders: the output is sorted.
pub proof fn lemma_sort_by_sorted<T>(lt: spec_fn(T, T) -> bool, s: Seq<T>)
    requires
        spec_strict_weak(lt),
    ensures
        spec_sorted_by(lt, spec_sort_by(lt, s)),
    decreases s.len(),
{
    if s.len() != 0 {
        lemma_sort_by_sorted(lt, s.drop_last());
        lemma_insert_by_sorted(lt, spec_sort_by(lt, s.drop_last()), s.last());
    }
}

/// An element that no element of `s` must follow goes to the end.
pub proof fn lemma_insert_by_at_end<T>(lt: spec_fn(T, T) -> bool, s: Seq<T>, x: T)
    requires
        forall|k: int| 0 <= k < s.len() ==> !lt(x, #[trigger] s[k]),
    ensures
        spec_insert_by(lt, s, x) == s.push(x),
    decreases s.len(),
{
    if s.len() == 0 {
        assert(spec_insert_by(lt, s, x) =~= s.push(x));
    } else {
        lemma_insert_by_at_end(lt, s.drop_first(), x);
        assert(seq![s[0]] + s.drop_first().push(x) =~= s.push(x));
    }
}

/// Sorting something already sorted changes nothing: re-applying the same
/// sort order causes no visible reordering.
pub proof fn lemma_sort_by_idempotent<T>(lt: spec_fn(T, T) -> bool, s: Seq<T>)
    requires
        spec_strict_weak(lt),
        spec_sorted_by(lt, s),
    ensures
        spec_sort_by(lt, s) == s,
    decreases s.len(),
{
    if s.len() != 0 {
        let t = s.drop_last();
        assert(spec_sorted_by(lt, t)) by {
            assert(forall|i: int, j: int|
                0 <= i < j < t.len() ==> !lt(#[trigger] t[j], #[trigger] t[i]) && t[j] == s[j]
                    && t[i] == s[i]);
        }
        lemma_sort_by_idempotent(lt, t);
        assert forall|k: int| 0 <= k < t.len() implies !lt(s.last(), #[trigger] t[k]) by {
            assert(!lt(s[s.len() - 1], s[k]));
        }
        lemma_insert_by_at_end(lt, t, s.last());
        assert(t.push(s.last()) =~= s);
    }
}

/// Where insertion lands: before the first element the new one strictly
/// precedes.
pub proof fn lemma_insert_by_at<T>(lt: spec_fn(T, T) -> bool, s: Seq<T>, x: T, p: int)
    requires
        0 <= p <= s.len(),
        forall|k: int| 0 <= k < p ==> !lt(x, #[trigger] s[k]),
        p < s.len() ==> lt(x, s[p]),
    ensures
        spec_insert_by(lt, s, x) == s.take(p) + seq![x] + s.skip(p),
    decreases s.len(),
{
    if p == 0 {
        if s.len() == 0 {
            assert(spec_insert_by(lt, s, x) =~= s.take(0) + seq![x] + s.skip(0));
        } else {
            assert(lt(x, s[0]));
            assert(seq![x] + s =~= s.take(0) + seq![x] + s.skip(0));
        }
    } else {
        assert(!lt(x, s[0]));
        let t = s.drop_first();
        lemma_insert_by_at(lt, t, x, p - 1);
        assert(forall|k: int| 0 <= k < p - 1 ==> t[k] == s[k + 1] && !lt(x, #[trigger] t[k]));
        assert(seq![s[0]] + (t.take(p - 1) + seq![x] + t.skip(p - 1)) =~= s.take(p) + seq![x]
            + s.skip(p));
    }
}

/// Sorting one more element is inserting it into the sorted rest.
pub proof fn lemma_sort_by_push<T>(lt: spec_fn(T, T) -> bool, s: Seq<T>, x: T)
    ensures
        spec_sort_by(lt, s.push(x)) == spec_insert_by(lt, spec_sort_by(lt, s), x),
{
    assert(s.push(x).drop_last() =~= s);
    assert(s.push(x).last() == x);
}

/// Inserting keeps the ties of any pivot in order: the inserted element
/// lands after every element tied with it.
pub proof fn lemma_insert_by_filter<T>(lt: spec_fn(T, T) -> bool, s: Seq<T>, x: T, k: T)
    requires
        spec_strict_weak(lt),
        spec_sorted_by(lt, s),
    ensures
        spec_insert_by(lt, s, x).filter(|y: T| spec_tied(lt, k, y)) == if spec_tied(lt, k, x) {
            s.filter(|y: T| spec_tied(lt, k, y)).push(x)
        } else {
            s.filter(|y: T| spec_tied(lt, k, y))
        },
    decreases s.len(),
{
    broadcast use group_seq_properties;

    let pred = |y: T| spec_tied(lt, k, y);
    if s.len() == 0 {
        reveal_with_fuel(Seq::filter, 3);
        assert(seq![x] =~= Seq::<T>::empty().push(x));
        assert(s.filter(pred) =~= Seq::<T>::empty());
    } else if lt(x, s[0]) {
        Seq::filter_distributes_over_add(seq![x], s, pred);
        reveal_with_fuel(Seq::filter, 3);
        assert(seq![x] =~= Seq::<T>::empty().push(x));
        if pred(x) {
            // x is tied with the pivot yet precedes the whole sequence, so no
            // element of the sequence is tied with the pivot
            assert forall|j: int| 0 <= j < s.len() implies !pred(s[j]) by {
                assert(!lt(s[j], s[0]) || j == 0);
                if !lt(x, s[j]) {
                    assert(!lt(x, s[0]));
                }
                if pred(s[j]) {
                    assert(!lt(x, k) && !lt(k, s[j]));
                    assert(!lt(x, s[j]));
                }
            }
            lemma_filter_all_false(s, pred);
            assert(seq![x].filter(pred) =~= Seq::<T>::empty().push(x));
            assert(seq![x] + s =~= seq![x].push(s[0]) + s.drop_first());
            assert((seq![x] + s).filter(pred) =~= s.filter(pred).push(x));
        } else {
            assert(seq![x].filter(pred) =~= Seq::<T>::empty());
            assert((seq![x] + s).filter(pred) =~= s.filter(pred));
        }
    } else {
        let t = s.drop_first();
        assert(spec_sorted_by(lt, t)) by {
            assert(forall|i: int, j: int|
                0 <= i < j < t.len() ==> !lt(#[trigger] t[j], #[trigger] t[i]) && t[j] == s[j + 1]
                    && t[i] == s[i + 1]);
        }
        lemma_insert_by_filter(lt, t, x, k);
        Seq::filter_distributes_over_add(seq![s[0]], spec_insert_by(lt, t, x), pred);
        Seq::filter_distributes_over_add(seq![s[0]], t, pred);
        assert(seq![s[0]] + t =~= s);
        if pred(x) {
            assert(seq![s[0]] + t.filter(pred).push(x) =~= (seq![s[0]] + t.filter(pred)).push(x));
            assert((seq![s[0]]).filter(pred) + t.filter(pred).push(x) =~= ((seq![s[0]]).filter(pred)
                + t.filter(pred)).push(x));
            assert(spec_insert_by(lt, s, x).filter(pred) =~= s.filter(pred).push(x));
        } else {
            assert(spec_insert_by(lt, s, x).filter(pred) =~= s.filter(pred));
        }
    }
}

/// Filtering one more element keeps it exactly when the predicate holds.
pub proof fn lemma_filter_push<T>(s: Seq<T>, pred: spec_fn(T) -> bool, x: T)
    ensures
        s.push(x).filter(pred) == if pred(x) {
            s.filter(pred).push(x)
        } else {
            s.filter(pred)
        },
{
    reveal_with_fuel(Seq::filter, 2);
    assert(s.push(x).drop_last() =~= s);
    assert(s.push(x).last() == x);
}

proof fn lemma_filter_all_false<T>(s: Seq<T>, pred: spec_fn(T) -> bool)
    requires
        forall|j: int| 0 <= j < s.len() ==> !pred(#[trigger] s[j]),
    ensures
        s.filter(pred) == Seq::<T>::empty(),
    decreases s.len(),
{
    reveal_with_fuel(Seq::filter, 2);
    if s.len() != 0 {
        lemma_filter_all_false(s.drop_last(), pred);
        assert(!pred(s.last()));
    }
}

/// Stability: sorting keeps the elements tied with any pivot in their input
/// order — the tied subsequence of the output is that of the input.
pub proof fn lemma_sort_by_stable<T>(lt: spec_fn(T, T) -> bool, s: Seq<T>, k: T)
    requires
        spec_strict_weak(lt),
    ensures
        spec_sort_by(lt, s).filter(|y: T| spec_tied(lt, k, y)) == s.filter(
            |y: T| spec_tied(lt, k, y),
        ),
    decreases s.len(),
{
    reveal_with_fuel(Seq::filter, 2);
    let pred = |y: T| spec_tied(lt, k, y);
    if s.len() != 0 {
        lemma_sort_by_stable(lt, s.drop_last(), k);
        lemma_sort_by_sorted(lt, s.drop_last());
        lemma_insert_by_filter(lt, spec_sort_by(lt, s.drop_last()), s.last(), k);
    }
}

} // verus!
