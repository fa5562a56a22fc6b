//! Stable sorting by a total preorder.
use vstd::prelude::*;
use crate::seqs::{first_index, first_index_props, first_index_unique};

verus! {

/// `le` is reflexive through totality, and transitive.
pub open spec fn is_preorder<A>(le: spec_fn(A, A) -> bool) -> bool {
    &&& forall|a: A, b: A| #[trigger] le(a, b) || #[trigger] le(b, a)
    &&& forall|a: A, b: A, c: A| #[trigger] le(a, b) && #[trigger] le(b, c) ==> le(a, c)
}

/// Every element of `s` is at most every later one.
pub open spec fn is_sorted<A>(s: Seq<A>, le: spec_fn(A, A) -> bool) -> bool {
    forall|i: int, j: int| 0 <= i < j < s.len() ==> le(#[trigger] s[i], #[trigger] s[j])
}

/// The test for elements that are not at most `x`.
pub open spec fn above<A>(le: spec_fn(A, A) -> bool, x: A) -> spec_fn(A) -> bool {
    |e: A| !le(e, x)
}

/// `s` with `x` put in front of the first element that is not at most `x`.
pub open spec fn inserted<A>(s: Seq<A>, x: A, le: spec_fn(A, A) -> bool) -> Seq<A> {
    s.insert(first_index(s, above(le, x)), x)
}

/// The elements of `s` in ascending order, equal ones in their order in `s`.
pub open spec fn stable_sorted<A>(s: Seq<A>, le: spec_fn(A, A) -> bool) -> Seq<A>
    decreases s.len(),
{
    if s.len() == 0 {
        s
    } else {
        inserted(stable_sorted(s.drop_last(), le), s.last(), le)
    }
}

/// The distinct elements of `s`, each put in order when it first occurs.
pub open spec fn distinct_sorted<A>(s: Seq<A>, le: spec_fn(A, A) -> bool) -> Seq<A>
    decreases s.len(),
{
    if s.len() == 0 {
        s
    } else {
        let before = distinct_sorted(s.drop_last(), le);
        if before.contains(s.last()) {
            before
        } else {
            inserted(before, s.last(), le)
        }
    }
}

/// [`distinct_sorted`] holds exactly the elements of `s`, each once.
pub proof fn distinct_sorted_props<A>(s: Seq<A>, le: spec_fn(A, A) -> bool)
    ensures
        forall|x: A| #[trigger] distinct_sorted(s, le).contains(x) <==> s.contains(x),
        distinct_sorted(s, le).no_duplicates(),
    decreases s.len(),
{
    if s.len() > 0 {
        let before = distinct_sorted(s.drop_last(), le);
        let x = s.last();
        let r = distinct_sorted(s, le);
        distinct_sorted_props(s.drop_last(), le);
        assert(s[s.len() - 1] == x);
        assert forall|y: A| s.contains(y) implies s.drop_last().contains(y) || y == x by {
            let i = choose|i: int| 0 <= i < s.len() && s[i] == y;
            if i < s.len() - 1 {
                assert(s.drop_last()[i] == y);
            }
        }
        assert forall|y: A| s.drop_last().contains(y) implies s.contains(y) by {
            let i = choose|i: int| 0 <= i < s.drop_last().len() && s.drop_last()[i] == y;
            assert(s[i] == y);
        }
        if !before.contains(x) {
            let k = first_index(before, above(le, x));
            first_index_props(before, above(le, x));
            assert(r == before.insert(k, x));
            assert forall|y: A| #[trigger] r.contains(y) <==> s.contains(y) by {
                if r.contains(y) {
                    let i = choose|i: int| 0 <= i < r.len() && r[i] == y;
                    if i < k {
                        assert(before.contains(before[i]));
                    } else if i > k {
                        assert(before.contains(before[i - 1]));
                    }
                }
                if s.contains(y) {
                    if y == x {
                        assert(r[k] == x);
                    } else {
                        assert(before.contains(y));
                        let i = choose|i: int| 0 <= i < before.len() && before[i] == y;
                        if i < k {
                            assert(r[i] == y);
                        } else {
                            assert(r[i + 1] == y);
                        }
                    }
                }
            }
            assert forall|i: int, j: int| 0 <= i < r.len() && 0 <= j < r.len() && i != j implies r[i]
                != r[j] by {
                let a = if i < k {
                    i
                } else {
                    i - 1
                };
                let b = if j < k {
                    j
                } else {
                    j - 1
                };
                if i == k {
                    assert(before.contains(before[b]));
                } else if j == k {
                    assert(before.contains(before[a]));
                } else {
                    assert(before[a] != before[b]);
                }
            }
        }
    }
}

/// Inserting keeps the order.
pub proof fn inserted_is_sorted<A>(s: Seq<A>, x: A, le: spec_fn(A, A) -> bool)
    requires
        is_preorder(le),
        is_sorted(s, le),
    ensures
        is_sorted(inserted(s, x, le), le),
        inserted(s, x, le).to_multiset() == s.to_multiset().insert(x),
        inserted(s, x, le).len() == s.len() + 1,
{
    let k = first_index(s, above(le, x));
    first_index_props(s, above(le, x));
    let r = inserted(s, x, le);
    assert forall|i: int, j: int| 0 <= i < j < r.len() implies le(
        #[trigger] r[i],
        #[trigger] r[j],
    ) by {
        if j < k {
            assert(le(s[i], s[j]));
        } else if i == k {
            assert(!le(s[k], x));
            assert(le(x, s[k]));
            if j - 1 > k {
                assert(le(s[k], s[j - 1]));
            }
        } else if j == k {
            assert(!above(le, x)(s[i]));
        } else if i < k {
            assert(le(s[i], s[j - 1]));
        } else {
            assert(le(s[i - 1], s[j - 1]));
        }
    }
    r.to_multiset_ensures();
    assert(r.remove(k) =~= s);
    assert(r.contains(r[k]));
    assert(r.to_multiset().remove(x).insert(x) =~= r.to_multiset());
}

/// Sorting yields an ascending rearrangement.
pub proof fn stable_sorted_props<A>(s: Seq<A>, le: spec_fn(A, A) -> bool)
    requires
        is_preorder(le),
    ensures
        is_sorted(stable_sorted(s, le), le),
        stable_sorted(s, le).to_multiset() == s.to_multiset(),
        stable_sorted(s, le).len() == s.len(),
    decreases s.len(),
{
    if s.len() > 0 {
        stable_sorted_props(s.drop_last(), le);
        inserted_is_sorted(stable_sorted(s.drop_last(), le), s.last(), le);
        assert(s =~= s.drop_last().push(s.last()));
        s.drop_last().to_multiset_ensures();
    }
}

/// Sorting commutes with a map that carries one order to the other.
pub proof fn stable_sorted_map<A, B>(
    s: Seq<A>,
    f: spec_fn(A) -> B,
    le: spec_fn(A, A) -> bool,
    le_mapped: spec_fn(B, B) -> bool,
)
    requires
        forall|a: A, b: A| #[trigger] le(a, b) == le_mapped(f(a), f(b)),
    ensures
        stable_sorted(s, le).map_values(f) == stable_sorted(s.map_values(f), le_mapped),
    decreases s.len(),
{
    if s.len() == 0 {
        assert(stable_sorted(s, le).map_values(f) =~= stable_sorted(s.map_values(f), le_mapped));
    } else {
        stable_sorted_map(s.drop_last(), f, le, le_mapped);
        let before = stable_sorted(s.drop_last(), le);
        let x = s.last();
        assert(s.map_values(f).drop_last() =~= s.drop_last().map_values(f));
        assert(s.map_values(f).last() == f(x));
        let k = first_index(before, above(le, x));
        first_index_props(before, above(le, x));
        let mapped = before.map_values(f);
        assert forall|i: int| 0 <= i < k implies !above(le_mapped, f(x))(#[trigger] mapped[i]) by {
            assert(!above(le, x)(before[i]));
        }
        if k < before.len() {
            assert(above(le, x)(before[k]));
            assert(above(le_mapped, f(x))(mapped[k]));
        }
        first_index_unique(mapped, above(le_mapped, f(x)), k);
        assert(before.insert(k, x).map_values(f) =~= mapped.insert(k, f(x)));
    }
}

/// Sorts by `at_most`, which computes `le`; equal elements keep their order.
pub(crate) fn stable_sort<T, F: Fn(&T, &T) -> bool>(
    items: Vec<T>,
    at_most: F,
    Ghost(le): Ghost<spec_fn(T, T) -> bool>,
) -> (r: Vec<T>)
    requires
        forall|a: &T, b: &T| #[trigger] call_requires(at_most, (a, b)),
        forall|a: &T, b: &T, out: bool| #[trigger]
            call_ensures(at_most, (a, b), out) ==> out == le(*a, *b),
    ensures
        r@ == stable_sorted(items@, le),
{
    let mut rest = items;
    let mut out: Vec<T> = Vec::new();
    let ghost mut n: int = 0;
    assert(items@.take(0) =~= Seq::<T>::empty());
    assert(items@.skip(0) =~= items@);
    while rest.len() > 0
        invariant
            0 <= n <= items@.len(),
            rest@ == items@.skip(n),
            out@ == stable_sorted(items@.take(n), le),
            forall|a: &T, b: &T| #[trigger] call_requires(at_most, (a, b)),
            forall|a: &T, b: &T, o: bool| #[trigger]
                call_ensures(at_most, (a, b), o) ==> o == le(*a, *b),
        decreases rest.len(),
    {
        let x = rest.remove(0);
        let mut k: usize = 0;
        while k < out.len() && at_most(&out[k], &x)
            invariant
                k <= out@.len(),
                forall|i: int| 0 <= i < k ==> !above(le, x)(#[trigger] out@[i]),
                forall|a: &T, b: &T| #[trigger] call_requires(at_most, (a, b)),
                forall|a: &T, b: &T, o: bool| #[trigger]
                    call_ensures(at_most, (a, b), o) ==> o == le(*a, *b),
            ensures
                k <= out@.len(),
                forall|i: int| 0 <= i < k ==> !above(le, x)(#[trigger] out@[i]),
                k < out@.len() ==> above(le, x)(out@[k as int]),
            decreases out.len() - k,
        {
            k = k + 1;
        }
        proof {
            first_index_unique(out@, above(le, x), k as int);
            assert(x == items@[n]);
            assert(items@.take(n + 1).drop_last() =~= items@.take(n));
            assert(items@.skip(n).remove(0) =~= items@.skip(n + 1));
            n = n + 1;
        }
        out.insert(k, x);
    }
    assert(items@.take(n) =~= items@);
    out
}

} // verus!
