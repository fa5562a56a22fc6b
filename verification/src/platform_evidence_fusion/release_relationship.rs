//! A release's lineage as its DAT declares it: `cloneof` and nothing else.
use vstd::prelude::*;
use vstd::string::*;
use crate::param_sfo::opt_str;
use crate::seqs::{first_index, first_index_unique};
use crate::text::{debug_quoted, debug_quoted_text, same_text};

verus! {

/// The lineage data of a DAT: for each game the parent it declares, if any.
#[derive(Debug, Clone, PartialEq, Eq)]
pub struct DatIndex {
    /// Games and their declared parents. The first entry for a game counts.
    pub game_clone_of: Vec<(String, Option<String>)>,
}

/// The lineage of one release.
#[derive(Debug, Clone, PartialEq, Eq)]
pub enum ReleaseRelationship {
    /// There is no DAT match to ask.
    Unknown,
    /// A release without a declared parent.
    Canonical { game_name: String },
    /// A release with a declared parent.
    CloneOf { game_name: String, parent: String },
}

impl ReleaseRelationship {
    /// What releases of one family share: the declared parent, or the own name
    /// of a release without one.
    pub open spec fn root(self) -> Option<Seq<char>> {
        match self {
            ReleaseRelationship::Unknown => None,
            ReleaseRelationship::Canonical { game_name } => Some(game_name@),
            ReleaseRelationship::CloneOf { parent, .. } => Some(parent@),
        }
    }

    /// The release's own name.
    pub open spec fn own_name(self) -> Option<Seq<char>> {
        match self {
            ReleaseRelationship::Unknown => None,
            ReleaseRelationship::Canonical { game_name } => Some(game_name@),
            ReleaseRelationship::CloneOf { game_name, .. } => Some(game_name@),
        }
    }

    pub fn lineage_root(&self) -> (r: Option<&str>)
        ensures
            opt_str(r) == self.root(),
    {
        match self {
            ReleaseRelationship::Unknown => None,
            ReleaseRelationship::Canonical { game_name } => Some(game_name.as_str()),
            ReleaseRelationship::CloneOf { parent, .. } => Some(parent.as_str()),
        }
    }

    pub fn game_name(&self) -> (r: Option<&str>)
        ensures
            opt_str(r) == self.own_name(),
    {
        match self {
            ReleaseRelationship::Unknown => None,
            ReleaseRelationship::Canonical { game_name } => Some(game_name.as_str()),
            ReleaseRelationship::CloneOf { game_name, .. } => Some(game_name.as_str()),
        }
    }

    /// What the relationship is called.
    pub open spec fn label_text(self) -> Seq<char> {
        match self {
            ReleaseRelationship::Unknown => "Unknown (no DAT match)"@,
            ReleaseRelationship::Canonical { .. } => "Canonical release (no declared parent)"@,
            ReleaseRelationship::CloneOf { parent, .. } => {
                "Same game, different revision (parent: "@ + parent@ + ")"@
            },
        }
    }

    pub fn label(&self) -> (r: String)
        ensures
            r@ == self.label_text(),
    {
        match self {
            ReleaseRelationship::Unknown => "Unknown (no DAT match)".to_owned(),
            ReleaseRelationship::Canonical { .. } => {
                "Canonical release (no declared parent)".to_owned()
            },
            ReleaseRelationship::CloneOf { parent, .. } => {
                let mut r = "Same game, different revision (parent: ".to_owned();
                r.append(parent.as_str());
                r.append(")");
                r
            },
        }
    }

    /// The text std's `Debug` writes for the relationship.
    pub open spec fn debug_text(self) -> Seq<char> {
        match self {
            ReleaseRelationship::Unknown => "Unknown"@,
            ReleaseRelationship::Canonical { game_name } => {
                "Canonical { game_name: "@ + debug_quoted_text(game_name@) + " }"@
            },
            ReleaseRelationship::CloneOf { game_name, parent } => {
                "CloneOf { game_name: "@ + debug_quoted_text(game_name@) + ", parent: "@
                    + debug_quoted_text(parent@) + " }"@
            },
        }
    }

    pub fn debug(&self) -> (r: String)
        ensures
            r@ == self.debug_text(),
    {
        match self {
            ReleaseRelationship::Unknown => "Unknown".to_owned(),
            ReleaseRelationship::Canonical { game_name } => {
                let mut r = "Canonical { game_name: ".to_owned();
                r.append(debug_quoted(game_name.as_str()).as_str());
                r.append(" }");
                r
            },
            ReleaseRelationship::CloneOf { game_name, parent } => {
                let mut r = "CloneOf { game_name: ".to_owned();
                r.append(debug_quoted(game_name.as_str()).as_str());
                r.append(", parent: ");
                r.append(debug_quoted(parent.as_str()).as_str());
                r.append(" }");
                r
            },
        }
    }

    /// An equal relationship.
    pub fn copy(&self) -> (r: ReleaseRelationship)
        ensures
            r == *self,
    {
        match self {
            ReleaseRelationship::Unknown => ReleaseRelationship::Unknown,
            ReleaseRelationship::Canonical { game_name } => ReleaseRelationship::Canonical {
                game_name: game_name.clone(),
            },
            ReleaseRelationship::CloneOf { game_name, parent } => ReleaseRelationship::CloneOf {
                game_name: game_name.clone(),
                parent: parent.clone(),
            },
        }
    }
}

/// The test for the entry of `name`.
pub open spec fn entry_for(name: Seq<char>) -> spec_fn((String, Option<String>)) -> bool {
    |e: (String, Option<String>)| e.0@ == name
}

/// The parent a DAT declares for `name`, if it declares one.
pub open spec fn declared_parent(index: DatIndex, name: Seq<char>) -> Option<Seq<char>> {
    let k = first_index(index.game_clone_of@, entry_for(name));
    if 0 <= k < index.game_clone_of@.len() {
        match index.game_clone_of@[k].1 {
            Some(parent) => Some(parent@),
            None => None,
        }
    } else {
        None
    }
}

/// The lineage of a matched game: a clone exactly when its DAT declares a
/// parent for it, else canonical.
pub fn resolve_release_relationship(index: &DatIndex, game_name: &str) -> (r: ReleaseRelationship)
    ensures
        match declared_parent(*index, game_name@) {
            Some(p) => r matches ReleaseRelationship::CloneOf { game_name: n, parent } && n@
                == game_name@ && parent@ == p,
            None => r matches ReleaseRelationship::Canonical { game_name: n } && n@ == game_name@,
        },
{
    let entries = &index.game_clone_of;
    let mut k: usize = 0;
    while k < entries.len() && !same_text(entries[k].0.as_str(), game_name)
        invariant
            k <= entries@.len(),
            forall|j: int| 0 <= j < k ==> !entry_for(game_name@)(#[trigger] entries@[j]),
        ensures
            k <= entries@.len(),
            forall|j: int| 0 <= j < k ==> !entry_for(game_name@)(#[trigger] entries@[j]),
            k < entries@.len() ==> entry_for(game_name@)(entries@[k as int]),
        decreases entries.len() - k,
    {
        k = k + 1;
    }
    proof {
        first_index_unique(entries@, entry_for(game_name@), k as int);
    }
    if k < entries.len() {
        if let Some(parent) = &entries[k].1 {
            return ReleaseRelationship::CloneOf {
                game_name: game_name.to_owned(),
                parent: parent.clone(),
            };
        }
    }
    ReleaseRelationship::Canonical { game_name: game_name.to_owned() }
}

/// Two releases of one declared family.
pub open spec fn related(a: ReleaseRelationship, b: ReleaseRelationship) -> bool {
    a.root() is Some && a.root() == b.root()
}

/// Whether two releases share a declared lineage root. An unknown release is
/// related to none.
pub fn same_lineage(a: &ReleaseRelationship, b: &ReleaseRelationship) -> (r: bool)
    ensures
        r == related(*a, *b),
{
    match (a.lineage_root(), b.lineage_root()) {
        (Some(x), Some(y)) => same_text(x, y),
        _ => false,
    }
}

/// The roots of a sequence of groups and the keys in each.
pub open spec fn lineage_models<K>(groups: Seq<(String, Vec<K>)>) -> Seq<(Seq<char>, Seq<K>)> {
    groups.map_values(|g: (String, Vec<K>)| (g.0@, g.1@))
}

/// The test for the group of `root`.
pub open spec fn group_with_root<K>(root: Seq<char>) -> spec_fn((Seq<char>, Seq<K>)) -> bool {
    |g: (Seq<char>, Seq<K>)| g.0 == root
}

/// The groups with `key` added to that of `root`.
pub open spec fn with_key<K>(
    groups: Seq<(Seq<char>, Seq<K>)>,
    root: Seq<char>,
    key: K,
) -> Seq<(Seq<char>, Seq<K>)> {
    let k = first_index(groups, group_with_root(root));
    if 0 <= k < groups.len() {
        groups.update(k, (root, groups[k].1.push(key)))
    } else {
        groups.push((root, seq![key]))
    }
}

/// The keys of `items` by lineage root, roots in order of first occurrence;
/// items without a root are left out.
pub open spec fn lineage_groups<K>(items: Seq<(K, &ReleaseRelationship)>) -> Seq<
    (Seq<char>, Seq<K>),
>
    decreases items.len(),
{
    if items.len() == 0 {
        seq![]
    } else {
        let before = lineage_groups(items.drop_last());
        match items.last().1.root() {
            Some(root) => with_key(before, root, items.last().0),
            None => before,
        }
    }
}

/// Groups keys by lineage root, in order.
pub fn group_by_lineage<'a, K>(items: Vec<(K, &'a ReleaseRelationship)>) -> (r: Vec<
    (String, Vec<K>),
>)
    ensures
        lineage_models(r@) == lineage_groups(items@),
{
    let mut rest = items;
    let mut groups: Vec<(String, Vec<K>)> = Vec::new();
    let ghost mut n: int = 0;
    assert(items@.skip(0) =~= items@);
    assert(lineage_models(groups@) =~= lineage_groups(items@.take(0)));
    while rest.len() > 0
        invariant
            0 <= n <= items@.len(),
            rest@ == items@.skip(n),
            lineage_models(groups@) == lineage_groups(items@.take(n)),
        decreases rest.len(),
    {
        let (key, relationship) = rest.remove(0);
        let ghost item = items@[n];
        proof {
            assert(items@.skip(n).remove(0) =~= items@.skip(n + 1));
            assert(items@.take(n + 1).drop_last() =~= items@.take(n));
            assert(items@.take(n + 1).last() == item);
            n = n + 1;
        }
        if let Some(root) = relationship.lineage_root() {
            let mut k: usize = 0;
            while k < groups.len() && !same_text(groups[k].0.as_str(), root)
                invariant
                    k <= groups@.len(),
                    forall|j: int|
                        0 <= j < k ==> !group_with_root::<K>(root@)(
                            #[trigger] lineage_models(groups@)[j],
                        ),
                ensures
                    k <= groups@.len(),
                    forall|j: int|
                        0 <= j < k ==> !group_with_root::<K>(root@)(
                            #[trigger] lineage_models(groups@)[j],
                        ),
                    k < groups@.len() ==> group_with_root::<K>(root@)(
                        lineage_models(groups@)[k as int],
                    ),
                decreases groups.len() - k,
            {
                k = k + 1;
            }
            proof {
                first_index_unique(
                    lineage_models(groups@),
                    group_with_root::<K>(root@),
                    k as int,
                );
            }
            let ghost before = groups@;
            if k < groups.len() {
                let (name, mut keys) = groups.remove(k);
                keys.push(key);
                groups.insert(k, (name, keys));
                assert(lineage_models(groups@) =~= lineage_models(before).update(
                    k as int,
                    (root@, lineage_models(before)[k as int].1.push(key)),
                ));
            } else {
                let mut keys: Vec<K> = Vec::new();
                keys.push(key);
                groups.push((root.to_owned(), keys));
                assert(keys@ =~= seq![key]);
                assert(lineage_models(groups@) =~= lineage_models(before).push(
                    (root@, seq![key]),
                ));
            }
        }
    }
    assert(items@.take(n) =~= items@);
    groups
}

/// The keys of the items whose lineage root is `root`, in order.
pub open spec fn keys_of_root<K>(items: Seq<(K, &ReleaseRelationship)>, root: Seq<char>) -> Seq<K>
    decreases items.len(),
{
    if items.len() == 0 {
        seq![]
    } else if items.last().1.root() == Some(root) {
        keys_of_root(items.drop_last(), root).push(items.last().0)
    } else {
        keys_of_root(items.drop_last(), root)
    }
}

/// Grouping maps every root that some item has, and no other, to the keys of
/// all its items in their order: roots are listed once, and no list is empty.
pub proof fn lineage_groups_map_roots_to_keys<K>(items: Seq<(K, &ReleaseRelationship)>)
    ensures
        forall|p: int, q: int|
            0 <= p < q < lineage_groups(items).len() ==> (#[trigger] lineage_groups(items)[p]).0
                != (#[trigger] lineage_groups(items)[q]).0,
        forall|p: int|
            0 <= p < lineage_groups(items).len() ==> {
                let group = #[trigger] lineage_groups(items)[p];
                group.1 == keys_of_root(items, group.0) && group.1.len() > 0
            },
        forall|i: int|
            0 <= i < items.len() ==> match (#[trigger] items[i]).1.root() {
                Some(root) => exists|p: int|
                    0 <= p < lineage_groups(items).len() && (#[trigger] lineage_groups(items)[p]).0
                        == root,
                None => true,
            },
        forall|root: Seq<char>|
            (#[trigger] keys_of_root(items, root)).len() > 0 ==> exists|i: int|
                0 <= i < items.len() && (#[trigger] items[i]).1.root() == Some(root),
    decreases items.len(),
{
    if items.len() > 0 {
        let rest = items.drop_last();
        let before = lineage_groups(rest);
        let now = lineage_groups(items);
        lineage_groups_map_roots_to_keys(rest);
        assert forall|i: int| 0 <= i < rest.len() implies items[i] == #[trigger] rest[i] by {}
        assert(items[items.len() - 1] == items.last());
        assert forall|root: Seq<char>| (#[trigger] keys_of_root(items, root)).len() > 0 implies
            exists|i: int|
            0 <= i < items.len() && (#[trigger] items[i]).1.root() == Some(root) by {
            if items.last().1.root() != Some(root) {
                assert(keys_of_root(rest, root).len() > 0);
                let i = choose|i: int|
                    0 <= i < rest.len() && (#[trigger] rest[i]).1.root() == Some(root);
                assert(items[i].1.root() == Some(root));
            }
        }
        match items.last().1.root() {
            None => {
                assert forall|i: int| 0 <= i < items.len() implies match (
                #[trigger] items[i]).1.root() {
                    Some(root) => exists|p: int|
                        0 <= p < now.len() && (#[trigger] now[p]).0 == root,
                    None => true,
                } by {
                    if i < rest.len() {
                        assert(rest[i] == items[i]);
                    }
                }
            },
            Some(root) => {
                let k = first_index(before, group_with_root::<K>(root));
                crate::seqs::first_index_props(before, group_with_root::<K>(root));
                assert forall|q: int| 0 <= q < k implies (#[trigger] before[q]).0 != root by {
                    assert(!group_with_root::<K>(root)(before[q]));
                }
                if k < before.len() {
                    assert(group_with_root::<K>(root)(before[k]));
                    assert(now[k].0 == root);
                } else {
                    if keys_of_root(rest, root).len() > 0 {
                        let i = choose|i: int|
                            0 <= i < rest.len() && (#[trigger] rest[i]).1.root() == Some(root);
                        let p = choose|p: int|
                            0 <= p < before.len() && (#[trigger] before[p]).0 == root;
                        assert(before[p].0 != root);
                    }
                    assert(keys_of_root(rest, root) =~= seq![]);
                    assert(now[before.len() as int] == (root, seq![items.last().0]));
                    assert(keys_of_root(items, root) =~= seq![items.last().0]);
                }
                assert forall|p: int| 0 <= p < now.len() implies {
                    let group = #[trigger] now[p];
                    group.1 == keys_of_root(items, group.0) && group.1.len() > 0
                } by {
                    if p < before.len() && p != k {
                        assert(now[p] == before[p]);
                        assert(before[p].0 != root) by {
                            if k < before.len() && p > k {
                                assert(before[k].0 != before[p].0);
                            }
                        }
                    } else if p == k && k < before.len() {
                        assert(before[k].1 == keys_of_root(rest, root));
                    }
                }
                assert forall|p: int, q: int| 0 <= p < q < now.len() implies (
                #[trigger] now[p]).0 != (#[trigger] now[q]).0 by {
                    assert(now[p].0 == before[p].0);
                    if q < before.len() {
                        assert(now[q].0 == before[q].0);
                    }
                }
                assert forall|i: int| 0 <= i < items.len() implies match (
                #[trigger] items[i]).1.root() {
                    Some(r) => exists|p: int| 0 <= p < now.len() && (#[trigger] now[p]).0 == r,
                    None => true,
                } by {
                    if i < rest.len() {
                        assert(rest[i] == items[i]);
                        if items[i].1.root() is Some {
                            let r = items[i].1.root()->0;
                            let p = choose|p: int|
                                0 <= p < before.len() && (#[trigger] before[p]).0 == r;
                            assert(now[p].0 == r);
                        }
                    } else {
                        assert(now[k].0 == root);
                    }
                }
            },
        }
    }
}

/// Being of one lineage is symmetric and transitive.
pub proof fn lineage_is_an_equivalence(
    a: ReleaseRelationship,
    b: ReleaseRelationship,
    c: ReleaseRelationship,
)
    ensures
        related(a, b) == related(b, a),
        related(a, b) && related(b, c) ==> related(a, c),
        related(a, a) <==> !(a is Unknown),
{
}

} // verus!
