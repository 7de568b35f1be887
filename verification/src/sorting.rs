//! Stable sorting by integer keys. Every deterministic order of the library is a
//! lexicographic order on a tuple of integers; items are sorted stably, as
//! `slice::sort_by_key` does.

use vstd::prelude::*;

verus! {

/// A sort key: six integers compared lexicographically.
pub type SortKey = (u128, u128, u128, u8, u8, u8);

/// Strict lexicographic order on sort keys.
pub open spec fn key_lt(a: SortKey, b: SortKey) -> bool {
    ||| a.0 < b.0
    ||| (a.0 == b.0 && a.1 < b.1)
    ||| (a.0 == b.0 && a.1 == b.1 && a.2 < b.2)
    ||| (a.0 == b.0 && a.1 == b.1 && a.2 == b.2 && a.3 < b.3)
    ||| (a.0 == b.0 && a.1 == b.1 && a.2 == b.2 && a.3 == b.3 && a.4 < b.4)
    ||| (a.0 == b.0 && a.1 == b.1 && a.2 == b.2 && a.3 == b.3 && a.4 == b.4 && a.5 < b.5)
}

/// Strict order on keys.
pub fn key_less(a: SortKey, b: SortKey) -> (r: bool)
    ensures
        r == key_lt(a, b),
{
    a.0 < b.0 || (a.0 == b.0 && (a.1 < b.1 || (a.1 == b.1 && (a.2 < b.2 || (a.2 == b.2 && (a.3
        < b.3 || (a.3 == b.3 && (a.4 < b.4 || (a.4 == b.4 && a.5 < b.5)))))))))
}

/// Inserts `x` after every element whose key is not greater than its key.
pub open spec fn insert_by_key<T>(s: Seq<(T, SortKey)>, x: (T, SortKey)) -> Seq<(T, SortKey)>
    decreases s.len(),
{
    if s.len() == 0 {
        seq![x]
    } else if key_lt(x.1, s.last().1) {
        insert_by_key(s.drop_last(), x).push(s.last())
    } else {
        s.push(x)
    }
}

/// The stable sort of keyed items by key.
pub open spec fn sort_by_key_spec<T>(s: Seq<(T, SortKey)>) -> Seq<(T, SortKey)>
    decreases s.len(),
{
    if s.len() == 0 {
        seq![]
    } else {
        insert_by_key(sort_by_key_spec(s.drop_last()), s.last())
    }
}

/// Items paired with their keys.
pub open spec fn keyed<T>(items: Seq<T>, keys: Seq<SortKey>) -> Seq<(T, SortKey)> {
    Seq::new(items.len(), |i: int| (items[i], keys[i]))
}

/// The items of `items`, stably sorted by the parallel `keys`.
pub open spec fn sorted_by_keys<T>(items: Seq<T>, keys: Seq<SortKey>) -> Seq<T> {
    sort_by_key_spec(keyed(items, keys)).map_values(|p: (T, SortKey)| p.0)
}

proof fn lemma_insert_at<T>(s: Seq<(T, SortKey)>, x: (T, SortKey), j: int)
    requires
        0 <= j <= s.len(),
        forall|k: int| j <= k < s.len() ==> key_lt(x.1, #[trigger] s[k].1),
        j == 0 || !key_lt(x.1, s[j - 1].1),
    ensures
        insert_by_key(s, x) == s.take(j).push(x) + s.skip(j),
    decreases s.len(),
{
    if s.len() == 0 {
        assert(s.take(j).push(x) + s.skip(j) =~= seq![x]);
    } else if key_lt(x.1, s.last().1) {
        assert(j < s.len());
        lemma_insert_at(s.drop_last(), x, j);
        assert(s.drop_last().take(j) =~= s.take(j));
        assert((s.drop_last().take(j).push(x) + s.drop_last().skip(j)).push(s.last()) =~= s.take(
            j,
        ).push(x) + s.skip(j));
    } else {
        assert(j == s.len());
        assert(s.take(j).push(x) + s.skip(j) =~= s.push(x));
    }
}

proof fn lemma_insert_len<T>(s: Seq<(T, SortKey)>, x: (T, SortKey))
    ensures
        insert_by_key(s, x).len() == s.len() + 1,
    decreases s.len(),
{
    if s.len() > 0 && key_lt(x.1, s.last().1) {
        lemma_insert_len(s.drop_last(), x);
    }
}

/// Sorting keeps the number of items.
pub proof fn lemma_sort_len<T>(s: Seq<(T, SortKey)>)
    ensures
        sort_by_key_spec(s).len() == s.len(),
    decreases s.len(),
{
    if s.len() > 0 {
        lemma_sort_len(s.drop_last());
        lemma_insert_len(sort_by_key_spec(s.drop_last()), s.last());
    }
}

/// Stably sorts `items` by the parallel `keys`.
pub fn sort_by_keys<T>(items: Vec<T>, keys: Vec<SortKey>) -> (r: Vec<T>)
    requires
        items@.len() == keys@.len(),
    ensures
        r@ == sorted_by_keys(items@, keys@),
{
    let ghost orig = keyed(items@, keys@);
    let n = items.len();
    let mut v = items;
    let mut k = keys;
    let mut i: usize = 0;
    assert(orig.take(0) =~= Seq::<(T, SortKey)>::empty());
    assert(keyed(v@, k@).skip(0) =~= orig);
    while i < n
        invariant
            n == orig.len(),
            v@.len() == n,
            k@.len() == n,
            i <= n,
            keyed(v@, k@).take(i as int) == sort_by_key_spec(orig.take(i as int)),
            keyed(v@, k@).skip(i as int) == orig.skip(i as int),
        decreases n - i,
    {
        let ghost before = keyed(v@, k@);
        let ghost sorted = before.take(i as int);
        assert(before[i as int] == orig[i as int]) by {
            assert(before.skip(i as int)[0] == orig.skip(i as int)[0]);
        }
        let x = v.remove(i);
        let kx = k.remove(i);
        let ghost removed_v = v@;
        let ghost removed_k = k@;
        let mut j: usize = i;
        while j > 0 && key_less(kx, k[j - 1])
            invariant
                j <= i,
                i < n,
                k@.len() == n - 1,
                v@.len() == n - 1,
                keyed(v@, k@).take(i as int) == sorted,
                forall|m: int| j <= m < i ==> key_lt(kx, #[trigger] sorted[m].1),
            decreases j,
        {
            assert(sorted[j - 1] == keyed(v@, k@)[j - 1]);
            j = j - 1;
        }
        proof {
            if j > 0 {
                assert(sorted[j - 1] == keyed(v@, k@)[j - 1]);
            }
            lemma_insert_at(sorted, (x, kx), j as int);
            assert(orig.take(i + 1).drop_last() =~= orig.take(i as int));
            assert(orig.take(i + 1).last() == (x, kx));
        }
        v.insert(j, x);
        k.insert(j, kx);
        proof {
            let after = keyed(v@, k@);
            assert(after.take(i + 1) =~= sorted.take(j as int).push((x, kx)) + sorted.skip(
                j as int,
            ));
            assert forall|m: int| 0 <= m < n - (i + 1) implies #[trigger] after.skip(i + 1)[m]
                == orig.skip(i + 1)[m] by {
                assert(v@[i + 1 + m] == removed_v[i + m]);
                assert(k@[i + 1 + m] == removed_k[i + m]);
                assert(removed_v[i + m] == before[i + 1 + m].0);
                assert(removed_k[i + m] == before[i + 1 + m].1);
                assert(before.skip(i as int)[m + 1] == orig.skip(i as int)[m + 1]);
            }
            assert(after.skip(i + 1) =~= orig.skip(i + 1));
        }
        i = i + 1;
    }
    proof {
        assert(orig.take(n as int) =~= orig);
        assert(keyed(v@, k@).take(n as int) =~= keyed(v@, k@));
        assert(v@ =~= keyed(v@, k@).map_values(|p: (T, SortKey)| p.0));
    }
    v
}


proof fn lemma_insert_elements<T>(s: Seq<(T, SortKey)>, x: (T, SortKey))
    ensures
        forall|y: (T, SortKey)| insert_by_key(s, x).contains(y) ==> s.contains(y) || y == x,
    decreases s.len(),
{
    if s.len() > 0 && key_lt(x.1, s.last().1) {
        lemma_insert_elements(s.drop_last(), x);
        assert forall|y: (T, SortKey)| insert_by_key(s, x).contains(y) implies s.contains(y) || y == x by {
            let r = insert_by_key(s, x);
            let k = choose|k: int| 0 <= k < r.len() && r[k] == y;
            let inner = insert_by_key(s.drop_last(), x);
            if k < inner.len() {
                assert(inner.contains(y));
                if s.drop_last().contains(y) {
                    let m = choose|m: int| 0 <= m < s.drop_last().len() && s.drop_last()[m] == y;
                    assert(s[m] == y);
                }
            } else {
                assert(y == s.last());
                assert(s[s.len() - 1] == y);
            }
        }
    } else if s.len() > 0 {
        assert forall|y: (T, SortKey)| insert_by_key(s, x).contains(y) implies s.contains(y) || y == x by {
            let r = insert_by_key(s, x);
            let k = choose|k: int| 0 <= k < r.len() && r[k] == y;
            if k < s.len() {
                assert(s[k] == y);
            }
        }
    }
}

/// Every item of a sorted sequence comes from the sequence sorted.
pub proof fn lemma_sort_elements<T>(s: Seq<(T, SortKey)>)
    ensures
        forall|y: (T, SortKey)| sort_by_key_spec(s).contains(y) ==> s.contains(y),
    decreases s.len(),
{
    if s.len() > 0 {
        lemma_sort_elements(s.drop_last());
        lemma_insert_elements(sort_by_key_spec(s.drop_last()), s.last());
        assert forall|y: (T, SortKey)| sort_by_key_spec(s).contains(y) implies s.contains(y) by {
            if sort_by_key_spec(s.drop_last()).contains(y) {
                assert(s.drop_last().contains(y));
                let m = choose|m: int| 0 <= m < s.drop_last().len() && s.drop_last()[m] == y;
                assert(s[m] == y);
            } else {
                assert(y == s.last());
                assert(s[s.len() - 1] == y);
            }
        }
    }
}

/// Every item of the sorted items is one of the items.
pub proof fn lemma_sorted_by_keys_elements<T>(items: Seq<T>, keys: Seq<SortKey>)
    requires
        items.len() == keys.len(),
    ensures
        sorted_by_keys(items, keys).len() == items.len(),
        forall|i: int| 0 <= i < sorted_by_keys(items, keys).len() ==> items.contains(
            #[trigger] sorted_by_keys(items, keys)[i],
        ),
{
    let kd = keyed(items, keys);
    lemma_sort_elements(kd);
    lemma_sort_len(kd);
    assert forall|i: int| 0 <= i < sorted_by_keys(items, keys).len() implies items.contains(
        #[trigger] sorted_by_keys(items, keys)[i],
    ) by {
        let y = sort_by_key_spec(kd)[i];
        assert(sorted_by_keys(items, keys)[i] == y.0);
        assert(sort_by_key_spec(kd).contains(y));
        assert(kd.contains(y));
        let m = choose|m: int| 0 <= m < kd.len() && kd[m] == y;
        assert(items[m] == y.0);
    }
}

proof fn lemma_insert_multiset<T>(s: Seq<(T, SortKey)>, x: (T, SortKey))
    ensures
        insert_by_key(s, x).to_multiset() =~= s.to_multiset().insert(x),
    decreases s.len(),
{
    broadcast use vstd::seq_lib::group_to_multiset_ensures;

    if s.len() == 0 {
        assert(seq![x] =~= Seq::<(T, SortKey)>::empty().push(x));
    } else if key_lt(x.1, s.last().1) {
        lemma_insert_multiset(s.drop_last(), x);
        assert(s =~= s.drop_last().push(s.last()));
    }
}

/// Sorting keeps every item, as many times as it occurs.
pub proof fn lemma_sort_multiset<T>(s: Seq<(T, SortKey)>)
    ensures
        sort_by_key_spec(s).to_multiset() =~= s.to_multiset(),
    decreases s.len(),
{
    broadcast use vstd::seq_lib::group_to_multiset_ensures;

    if s.len() > 0 {
        lemma_sort_multiset(s.drop_last());
        lemma_insert_multiset(sort_by_key_spec(s.drop_last()), s.last());
        assert(s =~= s.drop_last().push(s.last()));
    } else {
        assert(sort_by_key_spec(s) =~= s);
    }
}

/// The sorted items are exactly the items.
pub proof fn lemma_sorted_by_keys_contains<T>(items: Seq<T>, keys: Seq<SortKey>)
    requires
        items.len() == keys.len(),
    ensures
        forall|y: T| #[trigger] sorted_by_keys(items, keys).contains(y) <==> items.contains(y),
{
    broadcast use vstd::seq_lib::group_to_multiset_ensures;

    let kd = keyed(items, keys);
    lemma_sorted_by_keys_elements(items, keys);
    lemma_sort_multiset(kd);
    lemma_sort_len(kd);
    assert forall|y: T| items.contains(y) implies #[trigger] sorted_by_keys(items, keys).contains(y) by {
        let m = choose|m: int| 0 <= m < items.len() && items[m] == y;
        assert(kd[m] == (y, keys[m]));
        assert(kd.contains(kd[m]));
        assert(kd.to_multiset().count(kd[m]) > 0);
        assert(sort_by_key_spec(kd).contains(kd[m]));
        let n = choose|n: int| 0 <= n < sort_by_key_spec(kd).len() && sort_by_key_spec(kd)[n] == kd[m];
        assert(sorted_by_keys(items, keys)[n] == y);
    }
    assert forall|y: T| #[trigger] sorted_by_keys(items, keys).contains(y) implies items.contains(y) by {
        let n = choose|n: int| 0 <= n < sorted_by_keys(items, keys).len() && sorted_by_keys(items, keys)[n] == y;
        assert(items.contains(sorted_by_keys(items, keys)[n]));
    }
}

/// Whether keyed items are in key order, equal keys allowed.
pub open spec fn keys_ordered<T>(s: Seq<(T, SortKey)>) -> bool {
    forall|i: int, j: int| 0 <= i < j < s.len() ==> !key_lt(#[trigger] s[j].1, #[trigger] s[i].1)
}

proof fn lemma_insert_ordered<T>(s: Seq<(T, SortKey)>, x: (T, SortKey))
    requires
        keys_ordered(s),
    ensures
        keys_ordered(insert_by_key(s, x)),
        insert_by_key(s, x).len() == s.len() + 1,
        forall|i: int| 0 <= i < insert_by_key(s, x).len() ==> #[trigger] insert_by_key(s, x)[i] == x
            || s.contains(insert_by_key(s, x)[i]),
    decreases s.len(),
{
    if s.len() == 0 {
    } else if key_lt(x.1, s.last().1) {
        let t = s.drop_last();
        assert forall|i: int, j: int| 0 <= i < j < t.len() implies !key_lt(#[trigger] t[j].1, #[trigger] t[i].1) by {
            assert(t[i] == s[i] && t[j] == s[j]);
        }
        lemma_insert_ordered(t, x);
        let u = insert_by_key(t, x);
        assert forall|i: int| 0 <= i < u.len() implies !key_lt(s.last().1, #[trigger] u[i].1) by {
            if u[i] != x {
                assert(t.contains(u[i]));
                let m = choose|m: int| 0 <= m < t.len() && t[m] == u[i];
                assert(s[m] == u[i]);
                assert(!key_lt(s[s.len() - 1].1, s[m].1));
            }
        }
        assert forall|i: int| 0 <= i < u.push(s.last()).len() implies #[trigger] u.push(s.last())[i] == x
            || s.contains(u.push(s.last())[i]) by {
            if i == u.len() as int {
                assert(s[s.len() - 1] == s.last());
            } else if u[i] != x {
                assert(t.contains(u[i]));
                let m = choose|m: int| 0 <= m < t.len() && t[m] == u[i];
                assert(s[m] == u[i]);
            }
        }
    } else {
        assert forall|i: int| 0 <= i < s.push(x).len() implies #[trigger] s.push(x)[i] == x
            || s.contains(s.push(x)[i]) by {
            if i < s.len() {
                assert(s.push(x)[i] == s[i]);
            }
        }
        assert forall|i: int, j: int| 0 <= i < j < s.push(x).len() implies !key_lt(#[trigger] s.push(x)[j].1, #[trigger] s.push(x)[i].1) by {
            if j == s.len() {
                assert(!key_lt(x.1, s[s.len() - 1].1));
            }
        }
    }
}

/// Sorting puts items in key order.
pub proof fn lemma_sort_ordered<T>(s: Seq<(T, SortKey)>)
    ensures
        keys_ordered(sort_by_key_spec(s)),
    decreases s.len(),
{
    if s.len() > 0 {
        lemma_sort_ordered(s.drop_last());
        lemma_insert_ordered(sort_by_key_spec(s.drop_last()), s.last());
    }
}

/// Keyed items with each item's second part replaced by `f`.
pub open spec fn map_items<T, U>(s: Seq<(T, SortKey)>, f: spec_fn(T) -> U) -> Seq<(U, SortKey)> {
    s.map_values(|p: (T, SortKey)| (f(p.0), p.1))
}

proof fn lemma_insert_map<T, U>(s: Seq<(T, SortKey)>, x: (T, SortKey), f: spec_fn(T) -> U)
    ensures
        map_items(insert_by_key(s, x), f) == insert_by_key(map_items(s, f), (f(x.0), x.1)),
    decreases s.len(),
{
    if s.len() == 0 {
        assert(map_items(seq![x], f) =~= seq![(f(x.0), x.1)]);
    } else {
        assert(map_items(s, f).drop_last() =~= map_items(s.drop_last(), f));
        assert(map_items(s, f).last() == (f(s.last().0), s.last().1));
        if key_lt(x.1, s.last().1) {
            lemma_insert_map(s.drop_last(), x, f);
            assert(map_items(insert_by_key(s.drop_last(), x).push(s.last()), f)
                =~= map_items(insert_by_key(s.drop_last(), x), f).push((f(s.last().0), s.last().1)));
        } else {
            assert(map_items(s.push(x), f) =~= map_items(s, f).push((f(x.0), x.1)));
        }
    }
}

/// Sorting depends on the keys only: mapping the items before or after it is the same.
pub proof fn lemma_sort_map<T, U>(s: Seq<(T, SortKey)>, f: spec_fn(T) -> U)
    ensures
        map_items(sort_by_key_spec(s), f) == sort_by_key_spec(map_items(s, f)),
    decreases s.len(),
{
    if s.len() > 0 {
        lemma_sort_map(s.drop_last(), f);
        assert(map_items(s, f).drop_last() =~= map_items(s.drop_last(), f));
        lemma_insert_map(sort_by_key_spec(s.drop_last()), s.last(), f);
    } else {
        assert(map_items(sort_by_key_spec(s), f) =~= sort_by_key_spec(map_items(s, f)));
    }
}

/// Two sequences in strict key order with the same items are equal.
pub proof fn lemma_strictly_ordered_unique<T>(a: Seq<(T, SortKey)>, b: Seq<(T, SortKey)>)
    requires
        forall|i: int, j: int| 0 <= i < j < a.len() ==> key_lt(#[trigger] a[i].1, #[trigger] a[j].1),
        forall|i: int, j: int| 0 <= i < j < b.len() ==> key_lt(#[trigger] b[i].1, #[trigger] b[j].1),
        forall|y: (T, SortKey)| a.contains(y) <==> b.contains(y),
    ensures
        a == b,
    decreases a.len(),
{
    if a.len() == 0 {
        if b.len() > 0 {
            assert(b.contains(b[0]));
        }
        assert(a =~= b);
    } else {
        assert(a.contains(a[0]));
        assert(b.contains(a[0]));
        let j = choose|j: int| 0 <= j < b.len() && b[j] == a[0];
        assert(b.contains(b[0]));
        assert(a.contains(b[0]));
        let i = choose|i: int| 0 <= i < a.len() && a[i] == b[0];
        if j > 0 {
            assert(key_lt(b[0].1, b[j].1));
            if i > 0 {
                assert(key_lt(a[0].1, a[i].1));
            }
            assert(false);
        }
        let a1 = a.drop_first();
        let b1 = b.drop_first();
        assert forall|y: (T, SortKey)| a1.contains(y) implies b1.contains(y) by {
            let k = choose|k: int| 0 <= k < a1.len() && a1[k] == y;
            assert(a[k + 1] == y);
            assert(key_lt(a[0].1, a[k + 1].1));
            assert(b.contains(y));
            let m = choose|m: int| 0 <= m < b.len() && b[m] == y;
            assert(m != 0);
            assert(b1[m - 1] == y);
        }
        assert forall|y: (T, SortKey)| b1.contains(y) implies a1.contains(y) by {
            let k = choose|k: int| 0 <= k < b1.len() && b1[k] == y;
            assert(b[k + 1] == y);
            assert(key_lt(b[0].1, b[k + 1].1));
            assert(a.contains(y));
            let m = choose|m: int| 0 <= m < a.len() && a[m] == y;
            assert(m != 0);
            assert(a1[m - 1] == y);
        }
        assert forall|x: int, y: int| 0 <= x < y < a1.len() implies key_lt(#[trigger] a1[x].1, #[trigger] a1[y].1) by {
            assert(a1[x] == a[x + 1] && a1[y] == a[y + 1]);
        }
        assert forall|x: int, y: int| 0 <= x < y < b1.len() implies key_lt(#[trigger] b1[x].1, #[trigger] b1[y].1) by {
            assert(b1[x] == b[x + 1] && b1[y] == b[y + 1]);
        }
        lemma_strictly_ordered_unique(a1, b1);
        assert(a[0] == b[0]);
        assert(a =~= seq![a[0]] + a1);
        assert(b =~= seq![b[0]] + b1);
    }
}

} // verus!
