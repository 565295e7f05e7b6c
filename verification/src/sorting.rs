//! A stable insertion sort at the specification level. The loader, the
//! version store and the rollback planner each sort with their own order;
//! their executable sorts are pinned to `spec_sort`, which makes every
//! ordering in the crate a deterministic function of its input.
use vstd::prelude::*;
use vstd::multiset::Multiset;
use vstd::relations::{sorted_by, strongly_connected, transitive};
use vstd::seq_lib::{group_to_multiset_ensures, lemma_multiset_commutative};

verus! {

/// `x` inserted into `s` after every element `e` with `leq(e, x)`; where
/// `s` is sorted this keeps it sorted, and keeps equal elements in
/// insertion order.
pub open spec fn spec_insert_sorted<A>(x: A, s: Seq<A>, leq: spec_fn(A, A) -> bool) -> Seq<A>
    decreases s.len(),
{
    if s.len() == 0 {
        seq![x]
    } else if leq(s.first(), x) {
        seq![s.first()] + spec_insert_sorted(x, s.drop_first(), leq)
    } else {
        seq![x] + s
    }
}

/// The elements of `s` in `leq` order, equal elements in input order
/// (a stable insertion sort).
pub open spec fn spec_sort<A>(s: Seq<A>, leq: spec_fn(A, A) -> bool) -> Seq<A>
    decreases s.len(),
{
    if s.len() == 0 {
        Seq::empty()
    } else {
        spec_insert_sorted(s.last(), spec_sort(s.drop_last(), leq), leq)
    }
}

/// The elements of `s` satisfying `pred`, in input order. Defined
/// back-to-front so that extending the input by one element unfolds in
/// one step.
pub open spec fn spec_filter<A>(s: Seq<A>, pred: spec_fn(A) -> bool) -> Seq<A>
    decreases s.len(),
{
    if s.len() == 0 {
        Seq::empty()
    } else if pred(s.last()) {
        spec_filter(s.drop_last(), pred).push(s.last())
    } else {
        spec_filter(s.drop_last(), pred)
    }
}

pub proof fn lemma_filter_properties<A>(s: Seq<A>, pred: spec_fn(A) -> bool)
    ensures
        spec_filter(s, pred).len() <= s.len(),
        forall|k: int|
            0 <= k < spec_filter(s, pred).len() ==> pred(#[trigger] spec_filter(s, pred)[k])
                && s.contains(spec_filter(s, pred)[k]),
        forall|i: int| 0 <= i < s.len() && pred(s[i]) ==> spec_filter(s, pred).contains(#[trigger] s[i]),
    decreases s.len(),
{
    if s.len() > 0 {
        let init = s.drop_last();
        lemma_filter_properties(init, pred);
        let res = spec_filter(s, pred);
        let sub = spec_filter(init, pred);
        assert forall|k: int| 0 <= k < res.len() implies pred(#[trigger] res[k]) && s.contains(
            res[k],
        ) by {
            if k < sub.len() {
                assert(init.contains(sub[k]));
                let m = choose|m: int| 0 <= m < init.len() && init[m] == sub[k];
                assert(s[m] == res[k]);
            } else {
                assert(res[k] == s.last());
                assert(s[s.len() - 1] == s.last());
            }
        }
        assert forall|i: int| 0 <= i < s.len() && pred(s[i]) implies res.contains(#[trigger] s[i]) by {
            if i < s.len() - 1 {
                assert(init[i] == s[i]);
                assert(sub.contains(init[i]));
                let m = choose|m: int| 0 <= m < sub.len() && sub[m] == s[i];
                assert(res[m] == s[i]);
            } else {
                assert(pred(s.last()));
                assert(res[res.len() - 1] == s[i]);
            }
        }
    }
}

pub proof fn lemma_insert_sorted_properties<A>(x: A, s: Seq<A>, leq: spec_fn(A, A) -> bool)
    requires
        sorted_by(s, leq),
        strongly_connected(leq),
        transitive(leq),
    ensures
        spec_insert_sorted(x, s, leq).len() == s.len() + 1,
        sorted_by(spec_insert_sorted(x, s, leq), leq),
        spec_insert_sorted(x, s, leq).to_multiset() == s.to_multiset().insert(x),
        forall|k: int|
            0 <= k < s.len() + 1 ==> #[trigger] spec_insert_sorted(x, s, leq)[k] == x
                || s.contains(spec_insert_sorted(x, s, leq)[k]),
    decreases s.len(),
{
    broadcast use group_to_multiset_ensures;

    let res = spec_insert_sorted(x, s, leq);
    if s.len() == 0 {
        assert(res =~= seq![x]);
        assert(res.to_multiset() =~= s.to_multiset().insert(x)) by {
            assert(res =~= Seq::<A>::empty().push(x));
            assert(s.to_multiset() =~= Multiset::<A>::empty());
        }
    } else if leq(s.first(), x) {
        let tail = s.drop_first();
        assert(sorted_by(tail, leq));
        lemma_insert_sorted_properties(x, tail, leq);
        let rest = spec_insert_sorted(x, tail, leq);
        assert(res =~= seq![s.first()] + rest);
        // order: the head is below everything behind it
        assert forall|i: int, j: int| 0 <= i < j < res.len() implies leq(res[i], res[j]) by {
            if i == 0 {
                let e = rest[j - 1];
                if e == x {
                    assert(leq(s.first(), x));
                } else {
                    assert(tail.contains(e));
                    let k = choose|k: int| 0 <= k < tail.len() && tail[k] == e;
                    assert(leq(s[0], s[k + 1]));
                }
            } else {
                assert(leq(rest[i - 1], rest[j - 1]));
            }
        }
        // contents
        assert(res.to_multiset() =~= s.to_multiset().insert(x)) by {
            assert(res.to_multiset() =~= seq![s.first()].to_multiset().add(rest.to_multiset()))
                by {
                lemma_multiset_commutative(seq![s.first()], rest);
            }
            assert(s =~= seq![s.first()] + tail);
            assert(s.to_multiset() =~= seq![s.first()].to_multiset().add(tail.to_multiset())) by {
                lemma_multiset_commutative(seq![s.first()], tail);
            }
        }
        assert forall|k: int| 0 <= k < s.len() + 1 implies #[trigger] res[k] == x || s.contains(
            res[k],
        ) by {
            if k == 0 {
                assert(s[0] == res[0]);
            } else {
                if rest[k - 1] == x {
                } else {
                    assert(tail.contains(rest[k - 1]));
                    let m = choose|m: int| 0 <= m < tail.len() && tail[m] == rest[k - 1];
                    assert(s[m + 1] == rest[k - 1]);
                }
            }
        }
    } else {
        assert(res =~= seq![x] + s);
        assert(leq(x, s.first()));
        assert forall|i: int, j: int| 0 <= i < j < res.len() implies leq(res[i], res[j]) by {
            if i == 0 {
                assert(leq(x, s[0]));
                if j > 1 {
                    assert(leq(s[0], s[j - 1]));
                }
            } else {
                assert(leq(s[i - 1], s[j - 1]));
            }
        }
        assert(res.to_multiset() =~= s.to_multiset().insert(x)) by {
            lemma_multiset_commutative(seq![x], s);
            assert(seq![x].to_multiset() =~= Multiset::<A>::empty().insert(x)) by {
                assert(seq![x] =~= Seq::<A>::empty().push(x));
            }
        }
    }
}

pub proof fn lemma_sort_properties<A>(s: Seq<A>, leq: spec_fn(A, A) -> bool)
    requires
        strongly_connected(leq),
        transitive(leq),
    ensures
        spec_sort(s, leq).len() == s.len(),
        sorted_by(spec_sort(s, leq), leq),
        spec_sort(s, leq).to_multiset() == s.to_multiset(),
        forall|k: int|
            0 <= k < s.len() ==> s.contains(#[trigger] spec_sort(s, leq)[k]),
    decreases s.len(),
{
    broadcast use group_to_multiset_ensures;

    let res = spec_sort(s, leq);
    if s.len() == 0 {
        assert(sorted_by(res, leq));
        assert(res.to_multiset() =~= s.to_multiset());
    } else {
        let init = s.drop_last();
        lemma_sort_properties(init, leq);
        lemma_insert_sorted_properties(s.last(), spec_sort(init, leq), leq);
        assert(s =~= init.push(s.last()));
        assert(res.to_multiset() =~= s.to_multiset()) by {
            assert(init.push(s.last()).to_multiset() =~= init.to_multiset().insert(s.last()));
        }
        assert forall|k: int| 0 <= k < s.len() implies s.contains(#[trigger] res[k]) by {
            if res[k] == s.last() {
                assert(s[s.len() - 1] == s.last());
            } else {
                assert(spec_sort(init, leq).contains(res[k]));
                let m = choose|m: int|
                    0 <= m < spec_sort(init, leq).len() && spec_sort(init, leq)[m] == res[k];
                assert(init.contains(spec_sort(init, leq)[m]));
                let p = choose|p: int| 0 <= p < init.len() && init[p] == res[k];
                assert(s[p] == res[k]);
            }
        }
    }
}

} // verus!
