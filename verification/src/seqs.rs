//! Sequence vocabulary shared by the text, byte and path modules: trimming,
//! splitting and searching, stated once over any element type.
use vstd::prelude::*;

verus! {

/// The index of the first element satisfying `p`, or the length when there is
/// none.
pub open spec fn first_index<A>(s: Seq<A>, p: spec_fn(A) -> bool) -> int
    decreases s.len(),
{
    if s.len() == 0 || p(s[0]) {
        0
    } else {
        1 + first_index(s.drop_first(), p)
    }
}

/// `s` without its longest prefix of elements satisfying `p`.
pub open spec fn skip_front<A>(s: Seq<A>, p: spec_fn(A) -> bool) -> Seq<A>
    decreases s.len(),
{
    if s.len() > 0 && p(s[0]) {
        skip_front(s.drop_first(), p)
    } else {
        s
    }
}

/// `s` without its longest suffix of elements satisfying `p`.
pub open spec fn skip_back<A>(s: Seq<A>, p: spec_fn(A) -> bool) -> Seq<A>
    decreases s.len(),
{
    if s.len() > 0 && p(s.last()) {
        skip_back(s.drop_last(), p)
    } else {
        s
    }
}

/// `s` without its longest prefix and suffix of elements satisfying `p`.
pub open spec fn trim_where<A>(s: Seq<A>, p: spec_fn(A) -> bool) -> Seq<A> {
    skip_back(skip_front(s, p), p)
}

/// The maximal runs of `s` between elements satisfying `sep`; always at least
/// one piece.
pub open spec fn pieces<A>(s: Seq<A>, sep: spec_fn(A) -> bool) -> Seq<Seq<A>>
    decreases s.len(),
{
    let k = first_index(s, sep);
    if 0 <= k < s.len() {
        seq![s.take(k)] + pieces(s.skip(k + 1), sep)
    } else {
        seq![s]
    }
}

/// `p` occurs in `s` starting at index `i`.
pub open spec fn occurs_at<A>(s: Seq<A>, p: Seq<A>, i: int) -> bool {
    0 <= i <= s.len() - p.len() && s.subrange(i, i + p.len()) == p
}

/// `p` is a prefix of `s`.
pub open spec fn has_prefix<A>(s: Seq<A>, p: Seq<A>) -> bool {
    occurs_at(s, p, 0)
}

/// `p` occurs somewhere in `s`.
pub open spec fn contains_run<A>(s: Seq<A>, p: Seq<A>) -> bool {
    exists|i: int| occurs_at(s, p, i)
}

/// The bounds and meaning of [`first_index`].
pub proof fn first_index_props<A>(s: Seq<A>, p: spec_fn(A) -> bool)
    ensures
        0 <= first_index(s, p) <= s.len(),
        forall|i: int| 0 <= i < first_index(s, p) ==> !p(#[trigger] s[i]),
        first_index(s, p) < s.len() ==> p(s[first_index(s, p)]),
    decreases s.len(),
{
    if s.len() > 0 && !p(s[0]) {
        first_index_props(s.drop_first(), p);
        assert forall|i: int| 0 <= i < first_index(s, p) implies !p(#[trigger] s[i]) by {
            if i > 0 {
                assert(s[i] == s.drop_first()[i - 1]);
            }
        }
        let k = first_index(s.drop_first(), p);
        if k < s.drop_first().len() {
            assert(s.drop_first()[k] == s[k + 1]);
        }
    }
}

/// Any index with the meaning of [`first_index`] is [`first_index`].
pub proof fn first_index_unique<A>(s: Seq<A>, p: spec_fn(A) -> bool, k: int)
    requires
        0 <= k <= s.len(),
        forall|i: int| 0 <= i < k ==> !p(#[trigger] s[i]),
        k < s.len() ==> p(s[k]),
    ensures
        first_index(s, p) == k,
{
    first_index_props(s, p);
    let f = first_index(s, p);
    if f < k {
        assert(!p(s[f]));
    } else if k < f {
        assert(!p(s[k]));
    }
}

/// Skipping an all-`p` prefix explicitly does not change [`skip_front`].
pub proof fn skip_front_run<A>(s: Seq<A>, p: spec_fn(A) -> bool, k: int)
    requires
        0 <= k <= s.len(),
        forall|i: int| 0 <= i < k ==> p(#[trigger] s[i]),
        k < s.len() ==> !p(s[k]),
    ensures
        skip_front(s, p) == s.skip(k),
    decreases k,
{
    if k == 0 {
        assert(s.skip(0) =~= s);
    } else {
        assert(p(s[0]));
        assert forall|i: int| 0 <= i < k - 1 implies p(#[trigger] s.drop_first()[i]) by {
            assert(s.drop_first()[i] == s[i + 1]);
        }
        skip_front_run(s.drop_first(), p, k - 1);
        assert(s.drop_first().skip(k - 1) =~= s.skip(k));
    }
}

/// Dropping an all-`p` suffix explicitly does not change [`skip_back`].
pub proof fn skip_back_run<A>(s: Seq<A>, p: spec_fn(A) -> bool, n: int)
    requires
        0 <= n <= s.len(),
        forall|i: int| n <= i < s.len() ==> p(#[trigger] s[i]),
        n > 0 ==> !p(s[n - 1]),
    ensures
        skip_back(s, p) == s.take(n),
    decreases s.len(),
{
    if n == s.len() {
        assert(s.take(n) =~= s);
    } else {
        assert(p(s[s.len() - 1]));
        assert forall|i: int| n <= i < s.drop_last().len() implies p(#[trigger] s.drop_last()[i]) by {
            assert(s.drop_last()[i] == s[i]);
        }
        skip_back_run(s.drop_last(), p, n);
        assert(s.drop_last().take(n) =~= s.take(n));
    }
}

/// One step of [`pieces`]: cutting at the first separator.
pub proof fn pieces_step<A>(s: Seq<A>, sep: spec_fn(A) -> bool, k: int)
    requires
        0 <= k <= s.len(),
        forall|i: int| 0 <= i < k ==> !sep(#[trigger] s[i]),
        k < s.len() ==> sep(s[k]),
    ensures
        k == s.len() ==> pieces(s, sep) == seq![s],
        k < s.len() ==> pieces(s, sep) == seq![s.take(k)] + pieces(s.skip(k + 1), sep),
{
    first_index_unique(s, sep, k);
}

} // verus!
