//! A set of texts, kept in ascending order.
use vstd::prelude::*;
use vstd::string::*;
use crate::text::{
    same_text, text_at_most, text_le, text_le_antisymmetric, text_le_total, text_le_transitive,
    text_lt, views,
};

verus! {

/// Every text comes strictly before every later one.
pub open spec fn is_ascending(s: Seq<Seq<char>>) -> bool {
    forall|i: int, j: int| 0 <= i < j < s.len() ==> text_lt(#[trigger] s[i], #[trigger] s[j])
}

/// A set of texts.
#[derive(Debug, PartialEq, Eq)]
pub struct TextSet {
    items: Vec<String>,
}

impl View for TextSet {
    type V = Set<Seq<char>>;

    closed spec fn view(&self) -> Set<Seq<char>> {
        views(self.items@).to_set()
    }
}

impl TextSet {
    #[verifier::type_invariant]
    spec fn ordered(self) -> bool {
        is_ascending(views(self.items@))
    }

    /// The empty set.
    pub fn new() -> (r: TextSet)
        ensures
            r@ == Set::<Seq<char>>::empty(),
    {
        let r = TextSet { items: Vec::new() };
        assert(r@ =~= Set::<Seq<char>>::empty());
        r
    }

    /// The number of texts.
    pub fn len(&self) -> (r: usize)
        ensures
            self@.finite(),
            r == self@.len(),
    {
        proof {
            use_type_invariant(&self);
            assert(views(self.items@).no_duplicates());
            views(self.items@).unique_seq_to_set();
        }
        self.items.len()
    }

    /// Whether `t` is in the set.
    pub fn contains(&self, t: &str) -> (r: bool)
        ensures
            r == self@.contains(t@),
    {
        crate::text::contains_string(&self.items, t)
    }

    /// The texts in ascending order.
    pub fn to_vec(&self) -> (r: Vec<String>)
        ensures
            is_ascending(views(r@)),
            views(r@).to_set() == self@,
    {
        proof {
            use_type_invariant(&self);
        }
        crate::text::copy_strings(&self.items)
    }

    /// Adds `t`.
    pub fn insert(&mut self, t: &str)
        ensures
            final(self)@ == old(self)@.insert(t@),
    {
        proof {
            use_type_invariant(&*self);
        }
        let ghost all = views(self.items@);
        let mut items: Vec<String> = Vec::new();
        let mut i: usize = 0;
        while i < self.items.len() && !text_at_most(t, self.items[i].as_str())
            invariant
                i <= self.items@.len(),
                all == views(self.items@),
                is_ascending(all),
                views(items@) == all.take(i as int),
                forall|j: int| 0 <= j < i ==> !text_le(t@, #[trigger] all[j]),
            ensures
                i <= self.items@.len(),
                views(items@) == all.take(i as int),
                forall|j: int| 0 <= j < i ==> !text_le(t@, #[trigger] all[j]),
                i < all.len() ==> text_le(t@, all[i as int]),
            decreases self.items.len() - i,
        {
            let item = self.items[i].clone();
            assert(views(items@.push(item)) =~= views(items@).push(item@));
            assert(all.take(i + 1) =~= all.take(i as int).push(all[i as int]));
            items.push(item);
            i = i + 1;
        }
        if i < self.items.len() && same_text(self.items[i].as_str(), t) {
            assert(all[i as int] == t@);
            assert(self@.insert(t@) =~= self@);
            return ;
        }
        let ghost at = i as int;
        let ghost want = all.insert(at, t@);
        let new = t.to_owned();
        assert(views(items@.push(new)) =~= views(items@).push(new@));
        assert(want.take(at + 1) =~= all.take(at).push(t@));
        items.push(new);
        while i < self.items.len()
            invariant
                0 <= at <= i <= self.items@.len(),
                all == views(self.items@),
                want == all.insert(at, t@),
                views(items@) == want.take(i + 1),
            decreases self.items.len() - i,
        {
            let item = self.items[i].clone();
            assert(views(items@.push(item)) =~= views(items@).push(item@));
            assert(want.take(i + 2) =~= want.take(i + 1).push(want[i + 1]));
            assert(want[i + 1] == all[i as int]);
            items.push(item);
            i = i + 1;
        }
        proof {
            assert(want.take(i + 1) =~= want);
            assert forall|j: int| 0 <= j < at implies text_lt(#[trigger] all[j], t@) by {
                text_le_total(t@, all[j]);
            }
            assert forall|j: int| at <= j < all.len() implies text_lt(t@, #[trigger] all[j]) by {
                if j > at {
                    assert(text_lt(all[at], all[j]));
                    text_le_transitive(t@, all[at], all[j]);
                    if t@ == all[j] {
                        text_le_antisymmetric(all[at], all[j]);
                    }
                }
            }
            assert forall|a: int, b: int| 0 <= a < b < want.len() implies text_lt(
                #[trigger] want[a],
                #[trigger] want[b],
            ) by {
                if a < at && b < at {
                    assert(want[a] == all[a] && want[b] == all[b]);
                } else if a < at && b == at {
                    assert(want[a] == all[a]);
                } else if a < at {
                    assert(want[a] == all[a] && want[b] == all[b - 1]);
                } else if a == at {
                    assert(want[b] == all[b - 1]);
                } else {
                    assert(want[a] == all[a - 1] && want[b] == all[b - 1]);
                }
            }
            assert forall|x: Seq<char>| #[trigger] want.contains(x) <==> (all.contains(x) || x
                == t@) by {
                if want.contains(x) {
                    let k = choose|k: int| 0 <= k < want.len() && want[k] == x;
                    if k < at {
                        assert(all[k] == x);
                    } else if k > at {
                        assert(all[k - 1] == x);
                    }
                }
                if all.contains(x) {
                    let k = choose|k: int| 0 <= k < all.len() && all[k] == x;
                    if k < at {
                        assert(want[k] == x);
                    } else {
                        assert(want[k + 1] == x);
                    }
                }
                assert(want[at] == t@);
            }
            assert(want.to_set() =~= all.to_set().insert(t@));
        }
        *self = TextSet { items };
    }

    /// Takes `t` out; whether it was in the set.
    pub fn remove(&mut self, t: &str) -> (r: bool)
        ensures
            r == old(self)@.contains(t@),
            final(self)@ == old(self)@.remove(t@),
    {
        proof {
            use_type_invariant(&*self);
        }
        let ghost all = views(self.items@);
        let mut items: Vec<String> = Vec::new();
        let mut found = false;
        let mut i: usize = 0;
        while i < self.items.len()
            invariant
                i <= self.items@.len(),
                all == views(self.items@),
                is_ascending(all),
                is_ascending(views(items@)),
                forall|j: int|
                    0 <= j < items@.len() ==> all.take(i as int).contains(
                        #[trigger] views(items@)[j],
                    ),
                forall|x: Seq<char>| #[trigger] views(items@).contains(x) <==> (all.take(
                    i as int,
                ).contains(x) && x != t@),
                found == all.take(i as int).contains(t@),
            decreases self.items.len() - i,
        {
            proof {
                let before = all.take(i as int);
                let after = all.take(i + 1);
                let x = all[i as int];
                assert(after =~= before.push(x));
                assert forall|y: Seq<char>| after.contains(y) <==> (before.contains(y) || y == x) by {
                    if after.contains(y) {
                        let k = choose|k: int| 0 <= k < after.len() && after[k] == y;
                        if k < i {
                            assert(before[k] == y);
                        }
                    }
                    if before.contains(y) {
                        let k = choose|k: int| 0 <= k < before.len() && before[k] == y;
                        assert(after[k] == y);
                    }
                    assert(after[i as int] == x);
                }
                assert forall|j: int| 0 <= j < items@.len() implies text_lt(
                    #[trigger] views(items@)[j],
                    x,
                ) by {
                    let k = choose|k: int| 0 <= k < before.len() && before[k] == views(items@)[j];
                    assert(text_lt(all[k], all[i as int]));
                }
            }
            if same_text(self.items[i].as_str(), t) {
                found = true;
            } else {
                let ghost before = items@;
                let item = self.items[i].clone();
                items.push(item);
                proof {
                    assert(views(items@) =~= views(before).push(item@));
                    assert forall|y: Seq<char>| #[trigger] views(items@).contains(y) <==> (views(
                        before,
                    ).contains(y) || y == item@) by {
                        if views(items@).contains(y) {
                            let k = choose|k: int|
                                0 <= k < views(items@).len() && views(items@)[k] == y;
                            if k < before.len() {
                                assert(views(before)[k] == y);
                            }
                        }
                        if views(before).contains(y) {
                            let k = choose|k: int|
                                0 <= k < views(before).len() && views(before)[k] == y;
                            assert(views(items@)[k] == y);
                        }
                        assert(views(items@)[before.len() as int] == item@);
                    }
                    assert forall|a: int, b: int| 0 <= a < b < views(items@).len() implies text_lt(
                        #[trigger] views(items@)[a],
                        #[trigger] views(items@)[b],
                    ) by {
                        assert(views(items@)[a] == views(before)[a]);
                        if b < before.len() {
                            assert(views(items@)[b] == views(before)[b]);
                        }
                    }
                    assert forall|j: int| 0 <= j < items@.len() implies all.take(i + 1).contains(
                        #[trigger] views(items@)[j],
                    ) by {
                        assert(views(items@).contains(views(items@)[j]));
                    }
                }
            }
            i = i + 1;
        }
        proof {
            assert(all.take(i as int) =~= all);
            assert(views(items@).to_set() =~= all.to_set().remove(t@));
        }
        *self = TextSet { items };
        found
    }
}

impl Clone for TextSet {
    fn clone(&self) -> (r: TextSet)
        ensures
            r@ == self@,
    {
        proof {
            use_type_invariant(&self);
        }
        TextSet { items: crate::text::copy_strings(&self.items) }
    }
}

impl Default for TextSet {
    fn default() -> (r: TextSet)
        ensures
            r@ == Set::<Seq<char>>::empty(),
    {
        TextSet::new()
    }
}

} // verus!
