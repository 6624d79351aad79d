//! Sequence combinators that the contracts of the pipeline are stated with.

use vstd::prelude::*;

verus! {

/// The values that `f` gives for the items of `s`, in order, leaving out the
/// items for which it gives none.
pub open spec fn collect<A, B>(s: Seq<A>, f: spec_fn(A) -> Option<B>) -> Seq<B>
    decreases s.len(),
{
    if s.len() == 0 {
        Seq::empty()
    } else {
        let rest = collect(s.drop_last(), f);
        match f(s.last()) {
            Some(b) => rest.push(b),
            None => rest,
        }
    }
}

/// The sequences that `f` gives for the items of `s`, one after the other.
pub open spec fn concat_map<A, B>(s: Seq<A>, f: spec_fn(A) -> Seq<B>) -> Seq<B>
    decreases s.len(),
{
    if s.len() == 0 {
        Seq::empty()
    } else {
        concat_map(s.drop_last(), f) + f(s.last())
    }
}

/// The items of `s` that satisfy `keep`, in order.
pub open spec fn keep_if<A>(s: Seq<A>, keep: spec_fn(A) -> bool) -> Seq<A>
    decreases s.len(),
{
    if s.len() == 0 {
        Seq::empty()
    } else {
        let rest = keep_if(s.drop_last(), keep);
        if keep(s.last()) {
            rest.push(s.last())
        } else {
            rest
        }
    }
}

/// How many items of `s` satisfy `keep`.
pub open spec fn count_if<A>(s: Seq<A>, keep: spec_fn(A) -> bool) -> nat
    decreases s.len(),
{
    if s.len() == 0 {
        0
    } else {
        count_if(s.drop_last(), keep) + if keep(s.last()) {
            1nat
        } else {
            0nat
        }
    }
}

/// `collect` over one more item: what `f` gives for it is added at the end.
pub proof fn lemma_collect_step<A, B>(s: Seq<A>, f: spec_fn(A) -> Option<B>, i: int)
    requires
        0 <= i < s.len(),
    ensures
        collect(s.take(i + 1), f) == match f(s[i]) {
            Some(b) => collect(s.take(i), f).push(b),
            None => collect(s.take(i), f),
        },
{
    assert(s.take(i + 1).drop_last() =~= s.take(i));
}

/// `concat_map` over one more item: what `f` gives for it is added at the end.
pub proof fn lemma_concat_map_step<A, B>(s: Seq<A>, f: spec_fn(A) -> Seq<B>, i: int)
    requires
        0 <= i < s.len(),
    ensures
        concat_map(s.take(i + 1), f) == concat_map(s.take(i), f) + f(s[i]),
{
    assert(s.take(i + 1).drop_last() =~= s.take(i));
}

/// `keep_if` over one more item: it is added at the end where it is kept.
pub proof fn lemma_keep_if_step<A>(s: Seq<A>, keep: spec_fn(A) -> bool, i: int)
    requires
        0 <= i < s.len(),
    ensures
        keep_if(s.take(i + 1), keep) == if keep(s[i]) {
            keep_if(s.take(i), keep).push(s[i])
        } else {
            keep_if(s.take(i), keep)
        },
{
    assert(s.take(i + 1).drop_last() =~= s.take(i));
}

/// `count_if` over one more item: it is counted where it satisfies `keep`;
/// no more items are counted than there are.
pub proof fn lemma_count_if_step<A>(s: Seq<A>, keep: spec_fn(A) -> bool, i: int)
    requires
        0 <= i < s.len(),
    ensures
        count_if(s.take(i + 1), keep) == count_if(s.take(i), keep) + if keep(s[i]) {
            1nat
        } else {
            0nat
        },
        count_if(s.take(i), keep) <= i,
    decreases i,
{
    assert(s.take(i + 1).drop_last() =~= s.take(i));
    if i > 0 {
        lemma_count_if_step(s, keep, i - 1);
    }
}

/// Every kept item satisfies the predicate and comes from the sequence, and
/// no item that satisfies it is lost.
pub proof fn lemma_keep_if_members<A>(s: Seq<A>, keep: spec_fn(A) -> bool)
    ensures
        forall|x: A| #[trigger] keep_if(s, keep).contains(x) <==> (s.contains(x) && keep(x)),
        keep_if(s, keep).len() == count_if(s, keep),
        keep_if(s, keep).len() <= s.len(),
    decreases s.len(),
{
    if s.len() > 0 {
        let init = s.drop_last();
        lemma_keep_if_members(init, keep);
        let kept = keep_if(s, keep);
        let ki = keep_if(init, keep);
        assert forall|x: A| #[trigger] kept.contains(x) <==> (s.contains(x) && keep(x)) by {
            if kept.contains(x) {
                let k = choose|k: int| 0 <= k < kept.len() && kept[k] == x;
                if keep(s.last()) && k == ki.len() {
                    assert(s[s.len() - 1] == x);
                } else {
                    assert(ki[k] == x);
                    assert(ki.contains(x));
                    let j = choose|j: int| 0 <= j < init.len() && init[j] == x;
                    assert(s[j] == x);
                }
            }
            if s.contains(x) && keep(x) {
                let j = choose|j: int| 0 <= j < s.len() && s[j] == x;
                if j == s.len() - 1 {
                    assert(kept[ki.len() as int] == x);
                } else {
                    assert(init[j] == x);
                    assert(init.contains(x));
                    assert(ki.contains(x));
                    let k = choose|k: int| 0 <= k < ki.len() && ki[k] == x;
                    assert(kept[k] == x);
                }
            }
        }
    }
}

/// Where an item with key `k` goes into a sequence that is in the order of
/// its keys: behind the last item whose key is at most `k`.
pub open spec fn place_for<A>(sorted: Seq<A>, key: spec_fn(A) -> int, k: int) -> int
    decreases sorted.len(),
{
    if sorted.len() == 0 || key(sorted.last()) <= k {
        sorted.len() as int
    } else {
        place_for(sorted.drop_last(), key, k)
    }
}

/// The items in the order of their keys, least first; items with the same
/// key keep their order.
pub open spec fn ordered_by<A>(rows: Seq<A>, key: spec_fn(A) -> int) -> Seq<A>
    decreases rows.len(),
{
    if rows.len() == 0 {
        Seq::empty()
    } else {
        let init = ordered_by(rows.drop_last(), key);
        init.insert(place_for(init, key, key(rows.last())), rows.last())
    }
}

/// Whether the keys of the items do not go down.
pub open spec fn in_order<A>(rows: Seq<A>, key: spec_fn(A) -> int) -> bool {
    forall|i: int, j: int| 0 <= i < j < rows.len() ==> key(rows[i]) <= key(rows[j])
}

/// The place for a key lies behind the items with a key that is not
/// greater and before those with a greater one.
pub proof fn lemma_place_for<A>(sorted: Seq<A>, key: spec_fn(A) -> int, k: int)
    ensures
        0 <= place_for(sorted, key, k) <= sorted.len(),
        forall|t: int| place_for(sorted, key, k) <= t < sorted.len() ==> key(sorted[t]) > k,
        place_for(sorted, key, k) > 0 ==> key(sorted[place_for(sorted, key, k) - 1]) <= k,
    decreases sorted.len(),
{
    if !(sorted.len() == 0 || key(sorted.last()) <= k) {
        let init = sorted.drop_last();
        lemma_place_for(init, key, k);
        let p = place_for(sorted, key, k);
        assert forall|t: int| p <= t < sorted.len() implies key(sorted[t]) > k by {
            if t < init.len() {
                assert(sorted[t] == init[t]);
            }
        }
        if p > 0 {
            assert(sorted[p - 1] == init[p - 1]);
        }
    }
}

/// Ordering keeps every item, as often as it occurs, and puts the items in
/// the order of their keys.
pub proof fn lemma_ordered_by<A>(rows: Seq<A>, key: spec_fn(A) -> int)
    ensures
        ordered_by(rows, key).len() == rows.len(),
        ordered_by(rows, key).to_multiset() =~= rows.to_multiset(),
        in_order(ordered_by(rows, key), key),
    decreases rows.len(),
{
    broadcast use vstd::seq_lib::group_to_multiset_ensures;

    if rows.len() > 0 {
        let init_rows = rows.drop_last();
        let last = rows.last();
        lemma_ordered_by(init_rows, key);
        let init = ordered_by(init_rows, key);
        let p = place_for(init, key, key(last));
        lemma_place_for(init, key, key(last));
        let out = init.insert(p, last);
        assert(out.remove(p) =~= init);
        assert(out[p] == last);
        assert(init_rows.push(last) =~= rows);
        assert(out.to_multiset().remove(last) =~= init.to_multiset());
        assert(out.to_multiset().count(last) > 0) by {
            assert(out.contains(last));
        }
        assert(out.to_multiset() =~= init.to_multiset().insert(last));
        assert forall|i: int, j: int| 0 <= i < j < out.len() implies key(out[i]) <= key(out[j]) by {
            if j < p {
                assert(out[i] == init[i] && out[j] == init[j]);
            } else if j == p {
                assert(out[i] == init[i]);
                if p > 0 {
                    assert(key(init[i]) <= key(init[p - 1]));
                }
            } else if i < p {
                assert(out[i] == init[i] && out[j] == init[j - 1]);
            } else if i == p {
                assert(out[j] == init[j - 1]);
            } else {
                assert(out[i] == init[i - 1] && out[j] == init[j - 1]);
            }
        }
    } else {
        assert(ordered_by(rows, key).to_multiset() =~= rows.to_multiset());
    }
}

/// Where every item satisfies the predicate, all of them are kept.
pub proof fn lemma_keep_all<A>(s: Seq<A>, keep: spec_fn(A) -> bool)
    requires
        forall|i: int| 0 <= i < s.len() ==> keep(#[trigger] s[i]),
    ensures
        keep_if(s, keep) == s,
    decreases s.len(),
{
    if s.len() > 0 {
        let init = s.drop_last();
        assert forall|i: int| 0 <= i < init.len() implies keep(#[trigger] init[i]) by {
            assert(init[i] == s[i]);
        }
        lemma_keep_all(init, keep);
        assert(keep(s[s.len() - 1]));
        assert(init.push(s.last()) =~= s);
    }
}

/// What holds of every value that `f` gives for an item of `s` holds of
/// every collected value.
pub proof fn lemma_collect_all<A, B>(s: Seq<A>, f: spec_fn(A) -> Option<B>, p: spec_fn(B) -> bool)
    requires
        forall|i: int| 0 <= i < s.len() && f(#[trigger] s[i]) is Some ==> p(f(s[i])->Some_0),
    ensures
        forall|k: int| 0 <= k < collect(s, f).len() ==> p(#[trigger] collect(s, f)[k]),
    decreases s.len(),
{
    if s.len() > 0 {
        let init = s.drop_last();
        assert forall|i: int| 0 <= i < init.len() && f(#[trigger] init[i]) is Some implies p(
            f(init[i])->Some_0,
        ) by {
            assert(init[i] == s[i]);
        }
        lemma_collect_all(init, f, p);
        let rest = collect(init, f);
        let out = collect(s, f);
        assert(s[s.len() - 1] == s.last());
        assert forall|k: int| 0 <= k < out.len() implies p(#[trigger] out[k]) by {
            if k < rest.len() {
                assert(out[k] == rest[k]);
            } else {
                assert(out[k] == f(s.last())->Some_0);
            }
        }
    }
}

/// What holds of every value in the sequences that `f` gives for the items
/// of `s` holds of every value of their concatenation.
pub proof fn lemma_concat_map_all<A, B>(s: Seq<A>, f: spec_fn(A) -> Seq<B>, p: spec_fn(B) -> bool)
    requires
        forall|i: int, j: int|
            0 <= i < s.len() && 0 <= j < f(s[i]).len() ==> p(#[trigger] f(#[trigger] s[i])[j]),
    ensures
        forall|k: int| 0 <= k < concat_map(s, f).len() ==> p(#[trigger] concat_map(s, f)[k]),
    decreases s.len(),
{
    if s.len() > 0 {
        let init = s.drop_last();
        assert forall|i: int, j: int| 0 <= i < init.len() && 0 <= j < f(init[i]).len() implies p(
            #[trigger] f(#[trigger] init[i])[j],
        ) by {
            assert(init[i] == s[i]);
        }
        lemma_concat_map_all(init, f, p);
        let head = concat_map(init, f);
        let tail = f(s.last());
        assert(s[s.len() - 1] == s.last());
        assert forall|k: int| 0 <= k < concat_map(s, f).len() implies p(
            #[trigger] concat_map(s, f)[k],
        ) by {
            if k >= head.len() {
                assert(concat_map(s, f)[k] == tail[k - head.len()]);
            }
        }
    }
}

/// What holds of every item holds of every kept item.
pub proof fn lemma_keep_if_all<A>(s: Seq<A>, keep: spec_fn(A) -> bool, p: spec_fn(A) -> bool)
    requires
        forall|i: int| 0 <= i < s.len() ==> p(#[trigger] s[i]),
    ensures
        forall|k: int| 0 <= k < keep_if(s, keep).len() ==> p(#[trigger] keep_if(s, keep)[k]),
    decreases s.len(),
{
    if s.len() > 0 {
        let init = s.drop_last();
        assert forall|i: int| 0 <= i < init.len() implies p(#[trigger] init[i]) by {
            assert(init[i] == s[i]);
        }
        lemma_keep_if_all(init, keep, p);
        let rest = keep_if(init, keep);
        let out = keep_if(s, keep);
        assert(s[s.len() - 1] == s.last());
        assert forall|k: int| 0 <= k < out.len() implies p(#[trigger] out[k]) by {
            if k < rest.len() {
                assert(out[k] == rest[k]);
            } else {
                assert(out[k] == s.last());
            }
        }
    }
}

} // verus!
