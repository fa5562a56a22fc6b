//! Grouping items by an optional key: the distinct keys in ascending order,
//! and for each key the indices of its items in their given order.
use vstd::prelude::*;
use vstd::string::*;
use crate::order::{above, distinct_sorted, distinct_sorted_props};
use crate::seqs::first_index_unique;
use crate::text::{same_text, text_at_most, text_le, views};

verus! {

/// Lexicographic order of keys, part by part.
pub open spec fn key_le(a: Seq<Seq<char>>, b: Seq<Seq<char>>) -> bool
    decreases a.len(),
{
    if a.len() == 0 {
        true
    } else if b.len() == 0 {
        false
    } else if a[0] == b[0] {
        key_le(a.drop_first(), b.drop_first())
    } else {
        text_le(a[0], b[0])
    }
}

/// [`key_le`] as an order.
pub open spec fn key_order() -> spec_fn(Seq<Seq<char>>, Seq<Seq<char>>) -> bool {
    |a: Seq<Seq<char>>, b: Seq<Seq<char>>| key_le(a, b)
}

/// The contents of a sequence of keys.
pub open spec fn key_views(keys: Seq<Vec<String>>) -> Seq<Seq<Seq<char>>> {
    keys.map_values(|k: Vec<String>| views(k@))
}

/// The contents of an optional key.
pub open spec fn opt_key(k: Option<Vec<String>>) -> Option<Seq<Seq<char>>> {
    match k {
        Some(k) => Some(views(k@)),
        None => None,
    }
}

/// The contents of a sequence of optional keys.
pub open spec fn live_views(live: Seq<Option<Vec<String>>>) -> Seq<Option<Seq<Seq<char>>>> {
    live.map_values(|k: Option<Vec<String>>| opt_key(k))
}

/// The keys that are present, in order.
pub open spec fn present_keys(live: Seq<Option<Seq<Seq<char>>>>) -> Seq<Seq<Seq<char>>>
    decreases live.len(),
{
    if live.len() == 0 {
        seq![]
    } else {
        match live.last() {
            Some(k) => present_keys(live.drop_last()).push(k),
            None => present_keys(live.drop_last()),
        }
    }
}

/// The distinct keys that are present, ascending.
pub open spec fn distinct_keys(live: Seq<Option<Seq<Seq<char>>>>) -> Seq<Seq<Seq<char>>> {
    distinct_sorted(present_keys(live), key_order())
}

/// The indices of the items with key `k`, ascending.
pub open spec fn indices_of(live: Seq<Option<Seq<Seq<char>>>>, k: Seq<Seq<char>>) -> Seq<int>
    decreases live.len(),
{
    if live.len() == 0 {
        seq![]
    } else if live.last() == Some(k) {
        indices_of(live.drop_last(), k).push(live.len() - 1)
    } else {
        indices_of(live.drop_last(), k)
    }
}

/// Indices as integers.
pub open spec fn ints(v: Seq<usize>) -> Seq<int> {
    v.map_values(|i: usize| i as int)
}

/// A key is listed exactly when some item has it.
pub proof fn present_keys_props(live: Seq<Option<Seq<Seq<char>>>>)
    ensures
        forall|k: Seq<Seq<char>>| #[trigger] present_keys(live).contains(k) <==> live.contains(
            Some(k),
        ),
    decreases live.len(),
{
    if live.len() > 0 {
        present_keys_props(live.drop_last());
        let init = live.drop_last();
        assert forall|k: Seq<Seq<char>>| #[trigger] present_keys(live).contains(k)
            <==> live.contains(Some(k)) by {
            let all = present_keys(live);
            let before = present_keys(init);
            assert(before.contains(k) <==> init.contains(Some(k)));
            if all.contains(k) {
                let i = choose|i: int| 0 <= i < all.len() && all[i] == k;
                if i < before.len() {
                    assert(before[i] == k);
                    let j = choose|j: int| 0 <= j < init.len() && init[j] == Some(k);
                    assert(live[j] == Some(k));
                } else {
                    assert(live[live.len() - 1] == Some(k));
                }
            }
            if live.contains(Some(k)) {
                let j = choose|j: int| 0 <= j < live.len() && live[j] == Some(k);
                if j < live.len() - 1 {
                    assert(init[j] == Some(k));
                    let i = choose|i: int| 0 <= i < before.len() && before[i] == k;
                    assert(all[i] == k);
                } else {
                    assert(all[all.len() - 1] == k);
                }
            }
        }
    }
}

/// The listed keys are distinct and are exactly the keys that items have.
pub proof fn distinct_keys_props(live: Seq<Option<Seq<Seq<char>>>>)
    ensures
        distinct_keys(live).no_duplicates(),
        forall|k: Seq<Seq<char>>| #[trigger] distinct_keys(live).contains(k) <==> live.contains(
            Some(k),
        ),
{
    present_keys_props(live);
    distinct_sorted_props(present_keys(live), key_order());
    assert forall|k: Seq<Seq<char>>| #[trigger] distinct_keys(live).contains(k) <==> live.contains(
        Some(k),
    ) by {
        assert(distinct_sorted(present_keys(live), key_order()).contains(k) <==> present_keys(
            live,
        ).contains(k));
    }
}

/// [`indices_of`] is strictly ascending and lists exactly the items with key
/// `k`.
pub proof fn indices_of_props(live: Seq<Option<Seq<Seq<char>>>>, k: Seq<Seq<char>>)
    ensures
        forall|n: int|
            0 <= n < indices_of(live, k).len() ==> 0 <= #[trigger] indices_of(live, k)[n]
                < live.len() && live[indices_of(live, k)[n]] == Some(k),
        forall|m: int, n: int|
            0 <= m < n < indices_of(live, k).len() ==> #[trigger] indices_of(live, k)[m]
                < #[trigger] indices_of(live, k)[n],
        forall|i: int|
            0 <= i < live.len() && live[i] == Some(k) ==> #[trigger] indices_of(live, k).contains(
                i,
            ),
    decreases live.len(),
{
    if live.len() > 0 {
        let init = live.drop_last();
        indices_of_props(init, k);
        let before = indices_of(init, k);
        let all = indices_of(live, k);
        assert forall|n: int| 0 <= n < all.len() implies 0 <= #[trigger] all[n] < live.len()
            && live[all[n]] == Some(k) by {
            if n < before.len() {
                assert(all[n] == before[n]);
                assert(init[before[n]] == live[before[n]]);
            }
        }
        assert forall|m: int, n: int| 0 <= m < n < all.len() implies #[trigger] all[m]
            < #[trigger] all[n] by {
            assert(all[m] == before[m]);
            if n < before.len() {
                assert(all[n] == before[n]);
            }
        }
        assert forall|i: int| 0 <= i < live.len() && live[i] == Some(k) implies #[trigger] all.contains(
            i,
        ) by {
            if i < live.len() - 1 {
                assert(init[i] == Some(k));
                assert(before.contains(i));
                let n = choose|n: int| 0 <= n < before.len() && before[n] == i;
                assert(all[n] == i);
            } else {
                assert(all[all.len() - 1] == i);
            }
        }
    }
}

/// Whether two keys are equal.
pub fn same_key(a: &Vec<String>, b: &Vec<String>) -> (r: bool)
    ensures
        r == (views(a@) == views(b@)),
{
    if a.len() != b.len() {
        assert(views(a@).len() != views(b@).len());
        return false;
    }
    let mut i: usize = 0;
    while i < a.len()
        invariant
            i <= a@.len(),
            a@.len() == b@.len(),
            forall|j: int| 0 <= j < i ==> a@[j]@ == b@[j]@,
        decreases a.len() - i,
    {
        if !same_text(a[i].as_str(), b[i].as_str()) {
            assert(views(a@)[i as int] != views(b@)[i as int]);
            return false;
        }
        i = i + 1;
    }
    assert(views(a@) =~= views(b@));
    true
}

/// Whether key `a` comes no later than key `b`.
fn key_at_most(a: &Vec<String>, b: &Vec<String>) -> (r: bool)
    ensures
        r == key_le(views(a@), views(b@)),
{
    let ghost x = views(a@);
    let ghost y = views(b@);
    let mut i: usize = 0;
    assert(x.skip(0) =~= x);
    assert(y.skip(0) =~= y);
    while i < a.len()
        invariant
            i <= a@.len(),
            i <= b@.len(),
            x == views(a@),
            y == views(b@),
            key_le(x, y) == key_le(x.skip(i as int), y.skip(i as int)),
        decreases a.len() - i,
    {
        if i == b.len() {
            return false;
        }
        assert(x.skip(i as int).drop_first() =~= x.skip(i + 1));
        assert(y.skip(i as int).drop_first() =~= y.skip(i + 1));
        if !same_text(a[i].as_str(), b[i].as_str()) {
            return text_at_most(a[i].as_str(), b[i].as_str());
        }
        i = i + 1;
    }
    true
}

/// An equal key.
pub fn copy_key(k: &Vec<String>) -> (r: Vec<String>)
    ensures
        r@ == k@,
{
    crate::text::copy_strings(k)
}

/// The distinct keys that are present, ascending.
pub fn sorted_keys(live: &Vec<Option<Vec<String>>>) -> (r: Vec<Vec<String>>)
    ensures
        key_views(r@) == distinct_keys(live_views(live@)),
{
    let ghost all = live_views(live@);
    let mut out: Vec<Vec<String>> = Vec::new();
    let mut i: usize = 0;
    assert(present_keys(all.take(0)) =~= seq![]);
    assert(key_views(out@) =~= distinct_keys(all.take(0)));
    while i < live.len()
        invariant
            i <= live@.len(),
            all == live_views(live@),
            key_views(out@) == distinct_keys(all.take(i as int)),
        decreases live.len() - i,
    {
        proof {
            assert(all.take(i + 1).drop_last() =~= all.take(i as int));
            assert(all.take(i + 1).last() == all[i as int]);
        }
        if let Some(key) = &live[i] {
            let ghost k = views(key@);
            proof {
                let now = present_keys(all.take(i + 1));
                assert(now.drop_last() =~= present_keys(all.take(i as int)));
                assert(now.last() == k);
            }
            let mut seen = false;
            let mut n: usize = 0;
            while n < out.len()
                invariant
                    n <= out@.len(),
                    k == views(key@),
                    seen == (exists|j: int| 0 <= j < n && key_views(out@)[j] == k),
                decreases out.len() - n,
            {
                assert(key_views(out@)[n as int] == views(out@[n as int]@));
                if same_key(&out[n], key) {
                    seen = true;
                }
                n = n + 1;
            }
            assert(seen == key_views(out@).contains(k)) by {
                assert(key_views(out@).len() == out@.len());
            }
            if !seen {
                let mut at: usize = 0;
                while at < out.len() && key_at_most(&out[at], key)
                    invariant
                        at <= out@.len(),
                        k == views(key@),
                        forall|j: int|
                            0 <= j < at ==> !above(key_order(), k)(#[trigger] key_views(out@)[j]),
                    ensures
                        at <= out@.len(),
                        forall|j: int|
                            0 <= j < at ==> !above(key_order(), k)(#[trigger] key_views(out@)[j]),
                        at < out@.len() ==> above(key_order(), k)(key_views(out@)[at as int]),
                    decreases out.len() - at,
                {
                    at = at + 1;
                }
                let copied = copy_key(key);
                proof {
                    first_index_unique(key_views(out@), above(key_order(), k), at as int);
                    assert(key_views(out@.insert(at as int, copied)) =~= key_views(out@).insert(
                        at as int,
                        k,
                    ));
                }
                out.insert(at, copied);
            }
        }
        i = i + 1;
    }
    assert(all.take(i as int) =~= all);
    out
}

/// The indices of the items with key `k`, ascending.
pub fn indices_with(live: &Vec<Option<Vec<String>>>, k: &Vec<String>) -> (r: Vec<usize>)
    ensures
        ints(r@) == indices_of(live_views(live@), views(k@)),
        forall|n: int| 0 <= n < r@.len() ==> (#[trigger] r@[n]) < live@.len(),
{
    let ghost all = live_views(live@);
    let mut out: Vec<usize> = Vec::new();
    let mut i: usize = 0;
    assert(ints(out@) =~= indices_of(all.take(0), views(k@)));
    while i < live.len()
        invariant
            i <= live@.len(),
            all == live_views(live@),
            ints(out@) == indices_of(all.take(i as int), views(k@)),
            forall|n: int| 0 <= n < out@.len() ==> (#[trigger] out@[n]) < live@.len(),
        decreases live.len() - i,
    {
        proof {
            assert(all.take(i + 1).drop_last() =~= all.take(i as int));
            assert(all.take(i + 1).last() == all[i as int]);
        }
        let hit = match &live[i] {
            Some(key) => same_key(key, k),
            None => false,
        };
        if hit {
            assert(ints(out@.push(i)) =~= ints(out@).push(i as int));
            out.push(i);
        }
        i = i + 1;
    }
    assert(all.take(i as int) =~= all);
    out
}

} // verus!
