//! The same items in another order: what stays the same.
use vstd::prelude::*;
use crate::grouping::{
    distinct_keys, distinct_keys_props, indices_of, key_le, key_order, present_keys,
};
use crate::order::{
    distinct_sorted, inserted_is_sorted, is_preorder, is_sorted, stable_sorted, stable_sorted_map,
    stable_sorted_props,
};
use crate::text::{text_le, text_le_antisymmetric, text_le_total, text_le_transitive};

verus! {

/// `a` and `b` hold the same items, equally often.
pub open spec fn rearranged<A>(a: Seq<A>, b: Seq<A>) -> bool {
    a.to_multiset() == b.to_multiset()
}

proof fn last_is_found<A>(a: Seq<A>, b: Seq<A>) -> (j: int)
    requires
        rearranged(a, b),
        a.len() > 0,
    ensures
        a.len() == b.len(),
        0 <= j < b.len(),
        b[j] == a.last(),
        rearranged(a.drop_last(), b.remove(j)),
{
    a.to_multiset_ensures();
    b.to_multiset_ensures();
    let x = a.last();
    assert(a.contains(a[a.len() - 1]));
    assert(b.to_multiset().count(x) > 0);
    assert(b.contains(x));
    let j = choose|j: int| 0 <= j < b.len() && b[j] == x;
    assert(a.remove(a.len() - 1) =~= a.drop_last());
    assert(a.remove(a.len() - 1).to_multiset() =~= a.to_multiset().remove(x));
    assert(b.remove(j).to_multiset() =~= b.to_multiset().remove(x));
    j
}

/// Rearranged items stay so when each is replaced by what `f` makes of it.
pub proof fn rearranged_map<A, B>(a: Seq<A>, b: Seq<A>, f: spec_fn(A) -> B)
    requires
        rearranged(a, b),
    ensures
        rearranged(a.map_values(f), b.map_values(f)),
    decreases a.len(),
{
    a.to_multiset_ensures();
    b.to_multiset_ensures();
    if a.len() == 0 {
        assert(a.map_values(f) =~= b.map_values(f));
    } else {
        let j = last_is_found(a, b);
        let x = a.last();
        rearranged_map(a.drop_last(), b.remove(j), f);
        let fa = a.map_values(f);
        let fb = b.map_values(f);
        assert(fa =~= a.drop_last().map_values(f).push(f(x)));
        assert(fb.remove(j) =~= b.remove(j).map_values(f));
        a.drop_last().map_values(f).to_multiset_ensures();
        fb.to_multiset_ensures();
        assert(fb[j] == f(x));
        assert(fb.contains(fb[j]));
        assert(fb.to_multiset().remove(f(x)).insert(f(x)) =~= fb.to_multiset());
    }
}

/// Two ascending rearrangements of the same items are equal, if no two
/// different ones among them rank the same.
pub proof fn sorted_rearrangement_is_unique<A>(a: Seq<A>, b: Seq<A>, le: spec_fn(A, A) -> bool)
    requires
        rearranged(a, b),
        is_preorder(le),
        is_sorted(a, le),
        is_sorted(b, le),
        forall|x: A, y: A|
            a.contains(x) && a.contains(y) && #[trigger] le(x, y) && le(y, x) ==> x == y,
    ensures
        a == b,
    decreases a.len(),
{
    a.to_multiset_ensures();
    b.to_multiset_ensures();
    if a.len() > 0 {
        let x = a.last();
        let y = b.last();
        let n = a.len() - 1;
        assert(b.len() == a.len());
        assert(a.contains(a[n]) && b.contains(b[n]));
        assert(a.contains(y) && b.contains(x)) by {
            assert(a.to_multiset().count(y) > 0);
            assert(b.to_multiset().count(x) > 0);
        }
        let i = choose|i: int| 0 <= i < a.len() && a[i] == y;
        let j = choose|j: int| 0 <= j < b.len() && b[j] == x;
        assert(le(x, x));
        assert(le(y, y));
        assert(le(y, x)) by {
            if i < n {
                assert(le(a[i], a[n]));
            }
        }
        assert(le(x, y)) by {
            if j < n {
                assert(le(b[j], b[n]));
            }
        }
        assert(x == y);
        let a1 = a.drop_last();
        let b1 = b.drop_last();
        assert(a.remove(n) =~= a1 && b.remove(n) =~= b1);
        assert(a.remove(n).to_multiset() =~= a.to_multiset().remove(x));
        assert(b.remove(n).to_multiset() =~= b.to_multiset().remove(y));
        assert forall|p: A, q: A|
            a1.contains(p) && a1.contains(q) && #[trigger] le(p, q) && le(q, p) implies p == q by {
            let s = choose|s: int| 0 <= s < a1.len() && a1[s] == p;
            let t = choose|t: int| 0 <= t < a1.len() && a1[t] == q;
            assert(a[s] == p && a[t] == q);
            assert(a.contains(p) && a.contains(q));
        }
        assert forall|s: int, t: int| 0 <= s < t < a1.len() implies le(
            #[trigger] a1[s],
            #[trigger] a1[t],
        ) by {
            assert(le(a[s], a[t]));
        }
        assert forall|s: int, t: int| 0 <= s < t < b1.len() implies le(
            #[trigger] b1[s],
            #[trigger] b1[t],
        ) by {
            assert(le(b[s], b[t]));
        }
        sorted_rearrangement_is_unique(a1, b1, le);
        assert(a =~= a1.push(x));
        assert(b =~= b1.push(y));
    } else {
        assert(a =~= b);
    }
}

proof fn key_le_laws(a: Seq<Seq<char>>, b: Seq<Seq<char>>, c: Seq<Seq<char>>)
    ensures
        key_le(a, b) || key_le(b, a),
        key_le(a, b) && key_le(b, a) ==> a == b,
        key_le(a, b) && key_le(b, c) ==> key_le(a, c),
    decreases a.len() + b.len() + c.len(),
{
    if a.len() > 0 && b.len() > 0 {
        text_le_total(a[0], b[0]);
        if text_le(a[0], b[0]) && text_le(b[0], a[0]) {
            text_le_antisymmetric(a[0], b[0]);
        }
        if a[0] == b[0] {
            key_le_laws(a.drop_first(), b.drop_first(), seq![]);
            if a.drop_first() == b.drop_first() {
                assert(a =~= seq![a[0]] + a.drop_first());
                assert(b =~= seq![b[0]] + b.drop_first());
            }
        }
        if c.len() > 0 {
            if a[0] == b[0] && b[0] == c[0] {
                key_le_laws(a.drop_first(), b.drop_first(), c.drop_first());
            }
            if text_le(a[0], b[0]) && text_le(b[0], c[0]) {
                text_le_transitive(a[0], b[0], c[0]);
                if a[0] == c[0] {
                    text_le_antisymmetric(a[0], b[0]);
                }
            }
        }
    } else if a.len() == 0 && b.len() == 0 {
        assert(a =~= b);
    }
}

proof fn key_order_is_total()
    ensures
        is_preorder(key_order()),
        forall|a: Seq<Seq<char>>, b: Seq<Seq<char>>| #[trigger]
            key_order()(a, b) && key_order()(b, a) ==> a == b,
{
    let le = key_order();
    assert forall|a: Seq<Seq<char>>, b: Seq<Seq<char>>| #[trigger] le(a, b) || #[trigger] le(
        b,
        a,
    ) by {
        key_le_laws(a, b, seq![]);
    }
    assert forall|a: Seq<Seq<char>>, b: Seq<Seq<char>>, c: Seq<Seq<char>>| #[trigger] le(a, b)
        && #[trigger] le(b, c) implies le(a, c) by {
        key_le_laws(a, b, c);
    }
    assert forall|a: Seq<Seq<char>>, b: Seq<Seq<char>>| #[trigger] le(a, b) && le(b, a) implies a
        == b by {
        key_le_laws(a, b, seq![]);
    }
}

proof fn distinct_sorted_is_sorted<A>(s: Seq<A>, le: spec_fn(A, A) -> bool)
    requires
        is_preorder(le),
    ensures
        is_sorted(distinct_sorted(s, le), le),
    decreases s.len(),
{
    if s.len() > 0 {
        let before = distinct_sorted(s.drop_last(), le);
        distinct_sorted_is_sorted(s.drop_last(), le);
        if !before.contains(s.last()) {
            inserted_is_sorted(before, s.last(), le);
        }
    }
}

proof fn same_elements_without_repeats<A>(a: Seq<A>, b: Seq<A>)
    requires
        a.no_duplicates(),
        b.no_duplicates(),
        forall|x: A| #[trigger] a.contains(x) <==> b.contains(x),
    ensures
        rearranged(a, b),
{
    a.lemma_multiset_has_no_duplicates();
    b.lemma_multiset_has_no_duplicates();
    a.to_multiset_ensures();
    b.to_multiset_ensures();
    assert forall|x: A| #[trigger] a.to_multiset().count(x) == b.to_multiset().count(x) by {
        assert(a.contains(x) <==> b.contains(x));
        if a.contains(x) {
            assert(a.to_multiset().contains(x) && b.to_multiset().contains(x));
        }
    }
    assert(a.to_multiset() =~= b.to_multiset());
}

/// Items that are all different stay so when rearranged.
pub proof fn rearranged_stays_distinct<A>(a: Seq<A>, b: Seq<A>)
    requires
        rearranged(a, b),
        a.no_duplicates(),
    ensures
        b.no_duplicates(),
{
    a.lemma_multiset_has_no_duplicates();
    b.lemma_multiset_has_no_duplicates_conv();
}

/// The listed keys of rearranged items are the same.
pub proof fn keys_ignore_order(a: Seq<Option<Seq<Seq<char>>>>, b: Seq<Option<Seq<Seq<char>>>>)
    requires
        rearranged(a, b),
    ensures
        distinct_keys(a) == distinct_keys(b),
{
    let le = key_order();
    let x = distinct_keys(a);
    let y = distinct_keys(b);
    distinct_keys_props(a);
    distinct_keys_props(b);
    a.to_multiset_ensures();
    b.to_multiset_ensures();
    assert forall|k: Seq<Seq<char>>| #[trigger] x.contains(k) <==> y.contains(k) by {
        assert(x.contains(k) <==> a.contains(Some(k)));
        assert(y.contains(k) <==> b.contains(Some(k)));
        assert(a.contains(Some(k)) <==> a.to_multiset().count(Some(k)) > 0);
        assert(b.contains(Some(k)) <==> b.to_multiset().count(Some(k)) > 0);
    }
    same_elements_without_repeats(x, y);
    key_order_is_total();
    distinct_sorted_is_sorted(present_keys(a), le);
    distinct_sorted_is_sorted(present_keys(b), le);
    sorted_rearrangement_is_unique(x, y, le);
}

/// What `pay` makes of the items with key `k`, in order.
pub open spec fn picked<A, P>(
    items: Seq<A>,
    key: spec_fn(A) -> Option<Seq<Seq<char>>>,
    pay: spec_fn(A) -> P,
    k: Seq<Seq<char>>,
) -> Seq<P>
    decreases items.len(),
{
    if items.len() == 0 {
        seq![]
    } else if key(items.last()) == Some(k) {
        picked(items.drop_last(), key, pay, k).push(pay(items.last()))
    } else {
        picked(items.drop_last(), key, pay, k)
    }
}

/// [`picked`] goes by the indices of the items with key `k`.
pub proof fn picked_by_index<A, P>(
    items: Seq<A>,
    key: spec_fn(A) -> Option<Seq<Seq<char>>>,
    pay: spec_fn(A) -> P,
    k: Seq<Seq<char>>,
)
    ensures
        indices_of(items.map_values(key), k).map_values(|i: int| pay(items[i])) == picked(
            items,
            key,
            pay,
            k,
        ),
    decreases items.len(),
{
    let live = items.map_values(key);
    let at = |i: int| pay(items[i]);
    if items.len() == 0 {
        assert(indices_of(live, k).map_values(at) =~= picked(items, key, pay, k));
    } else {
        let init = items.drop_last();
        let at_init = |i: int| pay(init[i]);
        picked_by_index(init, key, pay, k);
        assert(live.drop_last() =~= init.map_values(key));
        let before = indices_of(init.map_values(key), k);
        crate::grouping::indices_of_props(init.map_values(key), k);
        assert(before.map_values(at) =~= before.map_values(at_init)) by {
            assert forall|n: int| 0 <= n < before.len() implies #[trigger] before.map_values(at)[n]
                == before.map_values(at_init)[n] by {
                assert(0 <= before[n] < init.len());
                assert(init[before[n]] == items[before[n]]);
            }
        }
        if key(items.last()) == Some(k) {
            assert(indices_of(live, k) == before.push(items.len() - 1));
            assert(before.push(items.len() - 1).map_values(at) =~= before.map_values(at).push(
                at(items.len() - 1),
            ));
        }
    }
}

proof fn picked_count<A, P>(
    items: Seq<A>,
    key: spec_fn(A) -> Option<Seq<Seq<char>>>,
    pay: spec_fn(A) -> P,
    k: Seq<Seq<char>>,
    p: P,
)
    ensures
        picked(items, key, pay, k).to_multiset().count(p) == items.map_values(
            |x: A| (key(x), pay(x)),
        ).to_multiset().count((Some(k), p)),
    decreases items.len(),
{
    let row = |x: A| (key(x), pay(x));
    let rows = items.map_values(row);
    if items.len() == 0 {
        picked(items, key, pay, k).to_multiset_ensures();
        rows.to_multiset_ensures();
        assert(!picked(items, key, pay, k).contains(p));
        assert(!rows.contains((Some(k), p)));
    } else {
        let init = items.drop_last();
        picked_count(init, key, pay, k, p);
        picked(init, key, pay, k).to_multiset_ensures();
        init.map_values(row).to_multiset_ensures();
        assert(rows =~= init.map_values(row).push(row(items.last())));
    }
}

/// Rearranged items yield rearranged picks.
pub proof fn picked_rearranged<A, P>(
    a: Seq<A>,
    b: Seq<A>,
    key: spec_fn(A) -> Option<Seq<Seq<char>>>,
    pay: spec_fn(A) -> P,
    k: Seq<Seq<char>>,
)
    requires
        rearranged(a, b),
    ensures
        rearranged(picked(a, key, pay, k), picked(b, key, pay, k)),
        picked(a, key, pay, k).len() == picked(b, key, pay, k).len(),
{
    let x = picked(a, key, pay, k);
    let y = picked(b, key, pay, k);
    rearranged_map(a, b, |x: A| (key(x), pay(x)));
    assert forall|p: P| #[trigger] x.to_multiset().count(p) == y.to_multiset().count(p) by {
        picked_count(a, key, pay, k, p);
        picked_count(b, key, pay, k, p);
    }
    assert(x.to_multiset() =~= y.to_multiset());
    x.to_multiset_ensures();
    y.to_multiset_ensures();
}

proof fn picked_from<A, P>(
    items: Seq<A>,
    key: spec_fn(A) -> Option<Seq<Seq<char>>>,
    pay: spec_fn(A) -> P,
    k: Seq<Seq<char>>,
    p: P,
) -> (i: int)
    requires
        picked(items, key, pay, k).contains(p),
    ensures
        0 <= i < items.len(),
        key(items[i]) == Some(k),
        pay(items[i]) == p,
    decreases items.len(),
{
    let all = picked(items, key, pay, k);
    let n = choose|n: int| 0 <= n < all.len() && all[n] == p;
    if items.len() == 0 {
        0
    } else {
        let init = items.drop_last();
        let before = picked(init, key, pay, k);
        if n < before.len() {
            assert(before[n] == p);
            picked_from(init, key, pay, k, p)
        } else {
            items.len() - 1
        }
    }
}

/// Rearranged items yield the same picks once these are sorted, if no two
/// different picks rank the same.
proof fn sorted_picks_ignore_order<A, P>(
    a: Seq<A>,
    b: Seq<A>,
    key: spec_fn(A) -> Option<Seq<Seq<char>>>,
    pay: spec_fn(A) -> P,
    k: Seq<Seq<char>>,
    le: spec_fn(P, P) -> bool,
)
    requires
        rearranged(a, b),
        is_preorder(le),
        forall|i: int, j: int|
            0 <= i < a.len() && 0 <= j < a.len() && key(a[i]) == Some(k) && key(a[j]) == Some(k)
                && le(#[trigger] pay(a[i]), #[trigger] pay(a[j])) && le(pay(a[j]), pay(a[i]))
                ==> pay(a[i]) == pay(a[j]),
    ensures
        stable_sorted(picked(a, key, pay, k), le) == stable_sorted(picked(b, key, pay, k), le),
{
    let x = picked(a, key, pay, k);
    let y = picked(b, key, pay, k);
    let sx = stable_sorted(x, le);
    let sy = stable_sorted(y, le);
    picked_rearranged(a, b, key, pay, k);
    stable_sorted_props(x, le);
    stable_sorted_props(y, le);
    assert forall|p: P, q: P|
        sx.contains(p) && sx.contains(q) && #[trigger] le(p, q) && le(q, p) implies p == q by {
        sx.to_multiset_ensures();
        x.to_multiset_ensures();
        assert(sx.to_multiset().count(p) > 0 && sx.to_multiset().count(q) > 0);
        assert(x.contains(p) && x.contains(q));
        let i = picked_from(a, key, pay, k, p);
        let j = picked_from(a, key, pay, k, q);
        assert(le(pay(a[i]), pay(a[j])));
    }
    sorted_rearrangement_is_unique(sx, sy, le);
}

proof fn picked_seen<A, P, Q>(
    items: Seq<A>,
    key: spec_fn(A) -> Option<Seq<Seq<char>>>,
    pay: spec_fn(A) -> P,
    seen: spec_fn(P) -> Q,
    k: Seq<Seq<char>>,
)
    ensures
        picked(items, key, pay, k).map_values(seen) == picked(
            items,
            key,
            |x: A| seen(pay(x)),
            k,
        ),
    decreases items.len(),
{
    let through = |x: A| seen(pay(x));
    let all = picked(items, key, pay, k);
    if items.len() == 0 {
        assert(all.map_values(seen) =~= picked(items, key, through, k));
    } else {
        let init = items.drop_last();
        let before = picked(init, key, pay, k);
        picked_seen(init, key, pay, seen, k);
        if key(items.last()) == Some(k) {
            assert(all.map_values(seen) =~= before.map_values(seen).push(
                seen(pay(items.last())),
            ));
        }
    }
}

/// Rearranged items yield picks that look the same once these are sorted, if no
/// two picks that look different rank the same.
pub proof fn sorted_picks_look_the_same<A, P, Q>(
    a: Seq<A>,
    b: Seq<A>,
    key: spec_fn(A) -> Option<Seq<Seq<char>>>,
    pay: spec_fn(A) -> P,
    seen: spec_fn(P) -> Q,
    k: Seq<Seq<char>>,
    le: spec_fn(P, P) -> bool,
    le_seen: spec_fn(Q, Q) -> bool,
)
    requires
        rearranged(a, b),
        is_preorder(le_seen),
        forall|p: P, q: P| #[trigger] le(p, q) == le_seen(seen(p), seen(q)),
        forall|i: int, j: int|
            0 <= i < a.len() && 0 <= j < a.len() && key(a[i]) == Some(k) && key(a[j]) == Some(k)
                && le(#[trigger] pay(a[i]), #[trigger] pay(a[j])) && le(pay(a[j]), pay(a[i]))
                ==> seen(pay(a[i])) == seen(pay(a[j])),
    ensures
        stable_sorted(picked(a, key, pay, k), le).map_values(seen) == stable_sorted(
            picked(b, key, pay, k),
            le,
        ).map_values(seen),
{
    let through = |x: A| seen(pay(x));
    stable_sorted_map(picked(a, key, pay, k), seen, le, le_seen);
    stable_sorted_map(picked(b, key, pay, k), seen, le, le_seen);
    picked_seen(a, key, pay, seen, k);
    picked_seen(b, key, pay, seen, k);
    assert forall|i: int, j: int|
        0 <= i < a.len() && 0 <= j < a.len() && key(a[i]) == Some(k) && key(a[j]) == Some(k)
            && le_seen(#[trigger] through(a[i]), #[trigger] through(a[j])) && le_seen(
            through(a[j]),
            through(a[i]),
        ) implies through(a[i]) == through(a[j]) by {
        assert(le(pay(a[i]), pay(a[j])));
        assert(le(pay(a[j]), pay(a[i])));
    }
    sorted_picks_ignore_order(a, b, key, through, k, le_seen);
}

} // verus!
