//! Stable sorting by a key: the specification, and the step that inserts one
//! element into an already sorted prefix.

use vstd::prelude::*;
use vstd::relations::total_ordering;

verus! {

/// The elements of `s` whose key is `k`, in their order in `s`.
pub open spec fn with_key<T, K>(s: Seq<T>, key: spec_fn(T) -> K, k: K) -> Seq<T> {
    s.filter(|x: T| key(x) == k)
}

/// `r` is ordered by `le` on keys.
pub open spec fn sorted_by_key<T, K>(r: Seq<T>, key: spec_fn(T) -> K, le: spec_fn(K, K) -> bool) -> bool {
    forall|i: int, j: int| 0 <= i < j < r.len() ==> #[trigger] le(key(r[i]), key(r[j]))
}

/// `r` is `s` sorted stably by key: ordered by key, and for every key the
/// elements with that key appear in `r` exactly as in `s`, in the same order.
pub open spec fn is_stable_sort<T, K>(r: Seq<T>, s: Seq<T>, key: spec_fn(T) -> K, le: spec_fn(K, K) -> bool) -> bool {
    &&& sorted_by_key(r, key, le)
    &&& forall|k: K| #[trigger] with_key(r, key, k) == with_key(s, key, k)
}

/// The empty sequence is the stable sort of the empty sequence.
pub proof fn lemma_stable_sort_empty<T, K>(key: spec_fn(T) -> K, le: spec_fn(K, K) -> bool)
    ensures
        is_stable_sort(Seq::<T>::empty(), Seq::<T>::empty(), key, le),
{
    reveal(Seq::filter);
}

/// Inserting `x` into the stable sort `r` of `s`, after the elements whose
/// keys are at most `x`'s and before the others, gives the stable sort of `s`
/// followed by `x`.
pub proof fn lemma_stable_insert<T, K>(
    r: Seq<T>,
    s: Seq<T>,
    x: T,
    j: int,
    key: spec_fn(T) -> K,
    le: spec_fn(K, K) -> bool,
)
    requires
        total_ordering(le),
        is_stable_sort(r, s, key, le),
        0 <= j <= r.len(),
        forall|m: int| 0 <= m < j ==> #[trigger] le(key(r[m]), key(x)),
        forall|m: int| j <= m < r.len() ==> !#[trigger] le(key(r[m]), key(x)),
    ensures
        is_stable_sort(r.insert(j, x), s.push(x), key, le),
{
    let r2 = r.insert(j, x);
    let left = r.take(j);
    let right = r.skip(j);
    assert(r =~= left + right);
    assert(r2 =~= left + seq![x] + right);
    assert forall|i: int, k: int| 0 <= i < k < r2.len() implies #[trigger] le(key(r2[i]), key(r2[k])) by {
        if i < j && k < j {
            assert(r2[i] == r[i] && r2[k] == r[k]);
        } else if i < j && k == j {
            assert(r2[i] == r[i]);
        } else if i < j && k > j {
            assert(r2[i] == r[i] && r2[k] == r[k - 1]);
            assert(le(key(r[i]), key(r[k - 1])));
        } else if i == j {
            assert(r2[k] == r[k - 1]);
            assert(!le(key(r[k - 1]), key(x)));
        } else {
            assert(r2[i] == r[i - 1] && r2[k] == r[k - 1]);
            assert(le(key(r[i - 1]), key(r[k - 1])));
        }
    }
    assert forall|k: K| #[trigger] with_key(r2, key, k) == with_key(s.push(x), key, k) by {
        let pred = |y: T| key(y) == k;
        Seq::filter_distributes_over_add(left, right, pred);
        Seq::filter_distributes_over_add(left + seq![x], right, pred);
        Seq::filter_distributes_over_add(left, seq![x], pred);
        s.lemma_filter_push(x, pred);
        reveal(Seq::filter);
        Seq::<T>::empty().lemma_filter_push(x, pred);
        assert(Seq::<T>::empty().push(x) =~= seq![x]);
        assert(Seq::<T>::empty().filter(pred) =~= Seq::<T>::empty());
        if key(x) == k {
            assert forall|m: int| 0 <= m < right.len() implies !pred(right[m]) by {
                assert(right[m] == r[j + m]);
                assert(!le(key(r[j + m]), key(x)));
            }
            right.lemma_all_neg_filter_empty(pred);
            assert(right.all(|y: T| !pred(y)));
            assert(right.filter(pred) =~= Seq::<T>::empty());
            assert(with_key(r, key, k) == with_key(s, key, k));
            assert(left.filter(pred) + right.filter(pred) == r.filter(pred));
            assert(left.filter(pred) =~= r.filter(pred));
            assert(seq![x].filter(pred) =~= seq![x]);
            assert(r2.filter(pred) =~= r.filter(pred).push(x));
        } else {
            assert(seq![x].filter(pred) =~= Seq::<T>::empty());
            assert(r2.filter(pred) =~= left.filter(pred) + right.filter(pred));
            assert(with_key(r, key, k) == with_key(s, key, k));
        }
    }
}

/// Removing the first element of `r` removes it from its own key's group and
/// leaves the other groups as they are.
proof fn lemma_groups_after_first<T, K>(r: Seq<T>, key: spec_fn(T) -> K, k: K)
    requires
        r.len() > 0,
    ensures
        with_key(r.drop_first(), key, k) == if key(r[0]) == k {
            with_key(r, key, k).drop_first()
        } else {
            with_key(r, key, k)
        },
        key(r[0]) == k ==> with_key(r, key, k).len() > 0 && with_key(r, key, k)[0] == r[0],
{
    let pred = |y: T| key(y) == k;
    let head = seq![r[0]];
    assert(r =~= head + r.drop_first());
    Seq::filter_distributes_over_add(head, r.drop_first(), pred);
    reveal(Seq::filter);
    Seq::<T>::empty().lemma_filter_push(r[0], pred);
    assert(Seq::<T>::empty().push(r[0]) =~= head);
    assert(Seq::<T>::empty().filter(pred) =~= Seq::<T>::empty());
    if key(r[0]) == k {
        assert(head.filter(pred) =~= head);
        assert((head + r.drop_first().filter(pred)).drop_first() =~= r.drop_first().filter(pred));
    } else {
        assert(head.filter(pred) =~= Seq::<T>::empty());
        assert(Seq::<T>::empty() + r.drop_first().filter(pred) =~= r.drop_first().filter(pred));
    }
}

/// If some element of `r` has key `k`, its group is not empty; if none has,
/// the group is empty.
proof fn lemma_group_nonempty<T, K>(r: Seq<T>, key: spec_fn(T) -> K, k: K)
    ensures
        with_key(r, key, k).len() > 0 <==> exists|m: int| 0 <= m < r.len() && key(#[trigger] r[m]) == k,
{
    let pred = |y: T| key(y) == k;
    if exists|m: int| 0 <= m < r.len() && key(#[trigger] r[m]) == k {
        let m = choose|m: int| 0 <= m < r.len() && key(#[trigger] r[m]) == k;
        r.lemma_filter_contains(pred, m);
    } else {
        assert forall|m: int| 0 <= m < r.len() implies !pred(#[trigger] r[m]) by {}
        r.lemma_all_neg_filter_empty(pred);
    }
}

/// Two sequences ordered by key, whose groups of equal keys are the same
/// sequences, are equal.
pub proof fn lemma_same_groups_equal<T, K>(r1: Seq<T>, r2: Seq<T>, key: spec_fn(T) -> K, le: spec_fn(K, K) -> bool)
    requires
        total_ordering(le),
        sorted_by_key(r1, key, le),
        sorted_by_key(r2, key, le),
        forall|k: K| #[trigger] with_key(r1, key, k) == with_key(r2, key, k),
    ensures
        r1 == r2,
    decreases r1.len(),
{
    if r1.len() == 0 || r2.len() == 0 {
        if r2.len() > 0 {
            let k = key(r2[0]);
            lemma_group_nonempty(r2, key, k);
            lemma_group_nonempty(r1, key, k);
            assert(with_key(r1, key, k) == with_key(r2, key, k));
        }
        if r1.len() > 0 {
            let k = key(r1[0]);
            lemma_group_nonempty(r2, key, k);
            lemma_group_nonempty(r1, key, k);
            assert(with_key(r1, key, k) == with_key(r2, key, k));
        }
        assert(r1 =~= r2);
    } else {
        let k1 = key(r1[0]);
        let k2 = key(r2[0]);
        lemma_group_nonempty(r1, key, k2);
        lemma_group_nonempty(r2, key, k2);
        lemma_group_nonempty(r1, key, k1);
        lemma_group_nonempty(r2, key, k1);
        assert(with_key(r1, key, k2) == with_key(r2, key, k2));
        assert(with_key(r1, key, k1) == with_key(r2, key, k1));
        assert(r2[0] == r2[0]);
        assert(le(k1, k2)) by {
            let m = choose|m: int| 0 <= m < r1.len() && key(#[trigger] r1[m]) == k2;
            if m > 0 {
                assert(le(key(r1[0]), key(r1[m])));
            }
        }
        assert(le(k2, k1)) by {
            let m = choose|m: int| 0 <= m < r2.len() && key(#[trigger] r2[m]) == k1;
            if m > 0 {
                assert(le(key(r2[0]), key(r2[m])));
            }
        }
        assert(k1 == k2);
        lemma_groups_after_first(r1, key, k1);
        lemma_groups_after_first(r2, key, k1);
        assert(r1[0] == r2[0]);
        let t1 = r1.drop_first();
        let t2 = r2.drop_first();
        assert forall|k: K| #[trigger] with_key(t1, key, k) == with_key(t2, key, k) by {
            lemma_groups_after_first(r1, key, k);
            lemma_groups_after_first(r2, key, k);
            assert(with_key(r1, key, k) == with_key(r2, key, k));
        }
        assert forall|i: int, j: int| 0 <= i < j < t1.len() implies #[trigger] le(key(t1[i]), key(t1[j])) by {
            assert(le(key(r1[i + 1]), key(r1[j + 1])));
        }
        assert forall|i: int, j: int| 0 <= i < j < t2.len() implies #[trigger] le(key(t2[i]), key(t2[j])) by {
            assert(le(key(r2[i + 1]), key(r2[j + 1])));
        }
        lemma_same_groups_equal(t1, t2, key, le);
        assert(r1 =~= seq![r1[0]] + t1);
        assert(r2 =~= seq![r2[0]] + t2);
    }
}

/// A stable sort by a total order on keys is unique: any two stable sorts of
/// the same sequence are equal.
pub proof fn lemma_stable_sort_unique<T, K>(r1: Seq<T>, r2: Seq<T>, s: Seq<T>, key: spec_fn(T) -> K, le: spec_fn(K, K) -> bool)
    requires
        total_ordering(le),
        is_stable_sort(r1, s, key, le),
        is_stable_sort(r2, s, key, le),
    ensures
        r1 == r2,
{
    assert forall|k: K| #[trigger] with_key(r1, key, k) == with_key(r2, key, k) by {
        assert(with_key(r1, key, k) == with_key(s, key, k));
        assert(with_key(r2, key, k) == with_key(s, key, k));
    }
    lemma_same_groups_equal(r1, r2, key, le);
}

/// What a filter keeps is an element of the sequence that meets the predicate.
pub proof fn lemma_filter_member<T>(s: Seq<T>, p: spec_fn(T) -> bool, x: T)
    requires
        s.filter(p).contains(x),
    ensures
        s.contains(x),
        p(x),
    decreases s.len(),
{
    reveal(Seq::filter);
    let f = s.filter(p);
    let idx = choose|idx: int| 0 <= idx < f.len() && f[idx] == x;
    s.lemma_filter_pred(p, idx);
    if s.len() > 0 {
        let rest = s.drop_last();
        if p(s.last()) && idx == f.len() - 1 {
            assert(s[s.len() - 1] == x);
        } else {
            assert(rest.filter(p)[idx] == x);
            lemma_filter_member(rest, p, x);
            let m = choose|m: int| 0 <= m < rest.len() && rest[m] == x;
            assert(s[m] == x);
        }
    }
}

/// Every element belongs to its key's group, and the groups hold nothing else.
pub proof fn lemma_group_member<T, K>(s: Seq<T>, key: spec_fn(T) -> K, x: T)
    ensures
        s.contains(x) ==> with_key(s, key, key(x)).contains(x),
        forall|k: K| #[trigger] with_key(s, key, k).contains(x) ==> s.contains(x) && key(x) == k,
{
    if s.contains(x) {
        let i = choose|i: int| 0 <= i < s.len() && s[i] == x;
        s.lemma_filter_contains(|y: T| key(y) == key(x), i);
    }
    assert forall|k: K| #[trigger] with_key(s, key, k).contains(x) implies s.contains(x) && key(x) == k by {
        lemma_filter_member(s, |y: T| key(y) == k, x);
    }
}

/// Two elements with the same key make that key's group hold at least two.
pub proof fn lemma_group_two<T, K>(s: Seq<T>, key: spec_fn(T) -> K, i: int, j: int)
    requires
        0 <= i < j < s.len(),
        key(s[i]) == key(s[j]),
    ensures
        with_key(s, key, key(s[i])).len() >= 2,
{
    let k = key(s[i]);
    let a = s.take(j);
    let b = s.skip(j);
    assert(s =~= a + b);
    Seq::filter_distributes_over_add(a, b, |x: T| key(x) == k);
    assert(a[i] == s[i]);
    a.lemma_filter_contains(|x: T| key(x) == k, i);
    assert(b[0] == s[j]);
    b.lemma_filter_contains(|x: T| key(x) == k, 0);
}

/// In a sequence whose keys are all different, each key's group has at most
/// one element.
pub proof fn lemma_group_at_most_one<T, K>(s: Seq<T>, key: spec_fn(T) -> K, k: K)
    requires
        forall|i: int, j: int| 0 <= i < j < s.len() ==> key(#[trigger] s[i]) != key(#[trigger] s[j]),
    ensures
        with_key(s, key, k).len() <= 1,
    decreases s.len(),
{
    reveal(Seq::filter);
    if s.len() > 0 {
        let d = s.drop_last();
        assert forall|i: int, j: int| 0 <= i < j < d.len() implies key(#[trigger] d[i]) != key(#[trigger] d[j]) by {
            assert(d[i] == s[i] && d[j] == s[j]);
        }
        lemma_group_at_most_one(d, key, k);
        if key(s.last()) == k {
            assert forall|m: int| 0 <= m < d.len() implies !(|x: T| key(x) == k)(#[trigger] d[m]) by {
                assert(d[m] == s[m]);
                assert(key(s[m]) != key(s[s.len() - 1]));
            }
            d.lemma_all_neg_filter_empty(|x: T| key(x) == k);
        }
    }
}

} // verus!
