//! What an archive's members amount to as a set.
//!
//! Every member is fused on its own; evidence is never pooled. Several members
//! of one platform settle the archive's platform, not which game it holds, and
//! members of different platforms never have a winner.
use std::collections::BTreeSet;
use vstd::prelude::*;
use vstd::relations::sorted_by;
use crate::content_evidence::{copy_evidence, facts, ContentEvidence, Fact};
use crate::order::{is_preorder, stable_sort, stable_sorted, stable_sorted_props};
use crate::platform::{ascending, ascending_ids, strs};
use crate::platform_evidence_fusion::{
    equivalence_groups, fired, fuse_platform_evidence, group_by_equivalence, group_heads, heads,
    str_groups, strong_groups,
};
use crate::platform_evidence_fusion::laws::grouping_ignores_order_and_repetition;
use crate::platform_evidence_fusion::rules::rule_table;

verus! {

/// The structure of an archive's members.
#[derive(Debug, Clone, PartialEq, Eq)]
pub enum ArchiveSetIdentity {
    /// No member resolved a platform.
    Unknown,
    /// Exactly one member resolved a platform.
    SingleMember { member_index: usize, platform: &'static str },
    /// Several members resolved, all to the same or equivalent platforms.
    MultiMemberSamePlatform { member_indices: Vec<usize>, platform: &'static str },
    /// Members resolved to platforms that are not equivalent.
    MultiPlatform { member_indices: Vec<usize>, platforms: Vec<&'static str> },
    /// A determinable multi-part structure. Nothing produces this yet.
    StructuredSet { member_indices: Vec<usize>, platform: &'static str },
}

/// The contents of an [`ArchiveSetIdentity`].
pub enum SetModel {
    Unknown,
    SingleMember(usize, Seq<char>),
    MultiMemberSamePlatform(Seq<usize>, Seq<char>),
    MultiPlatform(Seq<usize>, Seq<Seq<char>>),
    StructuredSet(Seq<usize>, Seq<char>),
}

impl View for ArchiveSetIdentity {
    type V = SetModel;

    open spec fn view(&self) -> SetModel {
        match *self {
            ArchiveSetIdentity::Unknown => SetModel::Unknown,
            ArchiveSetIdentity::SingleMember { member_index, platform } => SetModel::SingleMember(
                member_index,
                platform@,
            ),
            ArchiveSetIdentity::MultiMemberSamePlatform { member_indices, platform } => {
                SetModel::MultiMemberSamePlatform(member_indices@, platform@)
            },
            ArchiveSetIdentity::MultiPlatform { member_indices, platforms } => {
                SetModel::MultiPlatform(member_indices@, strs(platforms@))
            },
            ArchiveSetIdentity::StructuredSet { member_indices, platform } => {
                SetModel::StructuredSet(member_indices@, platform@)
            },
        }
    }
}

impl ArchiveSetIdentity {
    pub fn is_multi_member(&self) -> (r: bool)
        ensures
            r == (*self is MultiMemberSamePlatform || *self is MultiPlatform
                || *self is StructuredSet),
    {
        match self {
            ArchiveSetIdentity::MultiMemberSamePlatform { .. } => true,
            ArchiveSetIdentity::MultiPlatform { .. } => true,
            ArchiveSetIdentity::StructuredSet { .. } => true,
            _ => false,
        }
    }

    pub fn is_conflict(&self) -> (r: bool)
        ensures
            r == (*self is MultiPlatform),
    {
        match self {
            ArchiveSetIdentity::MultiPlatform { .. } => true,
            _ => false,
        }
    }
}

/// The platform a bundle of facts resolves to.
pub open spec fn resolved_id(bundle: Seq<Fact>) -> Option<Seq<char>> {
    let groups = strong_groups(fired(rule_table(), bundle));
    if groups.len() == 1 {
        Some(groups[0][0])
    } else {
        None
    }
}

/// The indices and facts of a sequence of members.
pub open spec fn member_models(members: Seq<(usize, Vec<ContentEvidence>)>) -> Seq<
    (usize, Seq<Fact>),
> {
    members.map_values(|m: (usize, Vec<ContentEvidence>)| (m.0, facts(m.1@)))
}

/// The members that resolve a platform, with it, in order.
pub open spec fn resolved_members(members: Seq<(usize, Seq<Fact>)>) -> Seq<(usize, Seq<char>)>
    decreases members.len(),
{
    if members.len() == 0 {
        seq![]
    } else {
        let before = resolved_members(members.drop_last());
        match resolved_id(members.last().1) {
            Some(id) => before.push((members.last().0, id)),
            None => before,
        }
    }
}

/// The order of member indices.
pub open spec fn index_order() -> spec_fn(usize, usize) -> bool {
    |a: usize, b: usize| a <= b
}

/// The indices of resolved members, ascending.
pub open spec fn sorted_indices(resolved: Seq<(usize, Seq<char>)>) -> Seq<usize> {
    stable_sorted(resolved.map_values(|m: (usize, Seq<char>)| m.0), index_order())
}

/// The platforms of resolved members.
pub open spec fn member_platforms(resolved: Seq<(usize, Seq<char>)>) -> Seq<Seq<char>> {
    resolved.map_values(|m: (usize, Seq<char>)| m.1)
}

/// What resolved members amount to.
pub open spec fn set_of_resolved(resolved: Seq<(usize, Seq<char>)>) -> SetModel {
    if resolved.len() == 0 {
        SetModel::Unknown
    } else if resolved.len() == 1 {
        SetModel::SingleMember(resolved[0].0, resolved[0].1)
    } else {
        let groups = equivalence_groups(member_platforms(resolved));
        if groups.len() == 1 {
            SetModel::MultiMemberSamePlatform(sorted_indices(resolved), groups[0][0])
        } else {
            SetModel::MultiPlatform(sorted_indices(resolved), ascending(heads(groups)))
        }
    }
}

/// What an archive's members amount to.
pub open spec fn set_of(members: Seq<(usize, Seq<Fact>)>) -> SetModel {
    set_of_resolved(resolved_members(members))
}

fn index_at_most(a: &usize, b: &usize) -> (r: bool)
    ensures
        r == (*a <= *b),
{
    *a <= *b
}

/// Classifies an archive from the evidence of each member.
pub fn classify_archive_set(members: &[(usize, Vec<ContentEvidence>)]) -> (r: ArchiveSetIdentity)
    ensures
        r@ == set_of(member_models(members@)),
{
    let ghost models = member_models(members@);
    let mut indices: Vec<usize> = Vec::new();
    let mut platforms: Vec<&'static str> = Vec::new();
    let ghost mut resolved = Seq::<(usize, Seq<char>)>::empty();
    let mut i: usize = 0;
    assert(resolved =~= resolved_members(models.take(0)));
    while i < members.len()
        invariant
            i <= members@.len(),
            models == member_models(members@),
            resolved == resolved_members(models.take(i as int)),
            indices@ == resolved.map_values(|m: (usize, Seq<char>)| m.0),
            strs(platforms@) == member_platforms(resolved),
        decreases members.len() - i,
    {
        let explanation = fuse_platform_evidence(copy_evidence(&members[i].1));
        proof {
            let next = models.take(i + 1);
            assert(next.drop_last() =~= models.take(i as int));
            assert(next.last() == (members@[i as int].0, facts(members@[i as int].1@)));
        }
        if let Some(platform) = explanation.resolved_platform {
            let index: usize = members[i].0;
            proof {
                let now = resolved.push((index, platform@));
                assert(indices@.push(index) =~= now.map_values(|m: (usize, Seq<char>)| m.0));
                assert(strs(platforms@.push(platform)) =~= strs(platforms@).push(platform@));
                assert(member_platforms(now) =~= member_platforms(resolved).push(platform@));
                resolved = now;
            }
            indices.push(index);
            platforms.push(platform);
        }
        i = i + 1;
    }
    proof {
        assert(models.take(i as int) =~= models);
        assert(indices@.len() == resolved.len());
        assert(strs(platforms@).len() == platforms@.len());
    }
    if indices.len() == 0 {
        return ArchiveSetIdentity::Unknown;
    }
    if indices.len() == 1 {
        assert(indices@[0] == resolved[0].0);
        assert(strs(platforms@)[0] == resolved[0].1);
        return ArchiveSetIdentity::SingleMember {
            member_index: indices[0],
            platform: platforms[0],
        };
    }
    let groups = group_by_equivalence(platforms.as_slice());
    assert(str_groups(groups@).len() == groups@.len());
    let member_indices = stable_sort(indices, index_at_most, Ghost(index_order()));
    if groups.len() == 1 {
        assert(str_groups(groups@)[0][0] == groups@[0]@[0]@);
        ArchiveSetIdentity::MultiMemberSamePlatform { member_indices, platform: groups[0][0] }
    } else {
        let distinct = group_heads(&groups);
        ArchiveSetIdentity::MultiPlatform {
            member_indices,
            platforms: ascending_ids(distinct.as_slice()),
        }
    }
}

/// The member indices an identity refers to.
pub open spec fn participants(identity: ArchiveSetIdentity) -> Set<usize> {
    match identity {
        ArchiveSetIdentity::Unknown => Set::empty(),
        ArchiveSetIdentity::SingleMember { member_index, .. } => Set::empty().insert(member_index),
        ArchiveSetIdentity::MultiMemberSamePlatform { member_indices, .. } => {
            member_indices@.to_set()
        },
        ArchiveSetIdentity::MultiPlatform { member_indices, .. } => member_indices@.to_set(),
        ArchiveSetIdentity::StructuredSet { member_indices, .. } => member_indices@.to_set(),
    }
}

/// The member indices an identity refers to.
pub fn participating_members(identity: &ArchiveSetIdentity) -> (r: BTreeSet<usize>)
    ensures
        r@ == participants(*identity),
{
    match identity {
        ArchiveSetIdentity::Unknown => BTreeSet::new(),
        ArchiveSetIdentity::SingleMember { member_index, .. } => {
            let mut r: BTreeSet<usize> = BTreeSet::new();
            r.insert(*member_index);
            r
        },
        ArchiveSetIdentity::MultiMemberSamePlatform { member_indices, .. } => index_set(
            member_indices,
        ),
        ArchiveSetIdentity::MultiPlatform { member_indices, .. } => index_set(member_indices),
        ArchiveSetIdentity::StructuredSet { member_indices, .. } => index_set(member_indices),
    }
}

fn index_set(indices: &Vec<usize>) -> (r: BTreeSet<usize>)
    ensures
        r@ == indices@.to_set(),
{
    let mut r: BTreeSet<usize> = BTreeSet::new();
    let mut i: usize = 0;
    assert(indices@.take(0).to_set() =~= Set::empty());
    while i < indices.len()
        invariant
            i <= indices@.len(),
            r@ == indices@.take(i as int).to_set(),
        decreases indices.len() - i,
    {
        proof {
            let next = indices@.take(i + 1);
            let before = indices@.take(i as int);
            assert(next =~= before.push(indices@[i as int]));
            assert forall|x: usize| next.to_set().contains(x) == before.to_set().insert(
                indices@[i as int],
            ).contains(x) by {
                if next.contains(x) && x != indices@[i as int] {
                    let k = choose|k: int| 0 <= k < next.len() && next[k] == x;
                    assert(before[k] == x);
                }
                if before.contains(x) {
                    let k = choose|k: int| 0 <= k < before.len() && before[k] == x;
                    assert(next[k] == x);
                }
                assert(next[i as int] == indices@[i as int]);
            }
            assert(next.to_set() =~= before.to_set().insert(indices@[i as int]));
        }
        r.insert(indices[i]);
        i = i + 1;
    }
    assert(indices@.take(i as int) =~= indices@);
    r
}

/// No archive is classified as a structured set.
pub proof fn structured_set_is_never_produced(members: Seq<(usize, Seq<Fact>)>)
    ensures
        !(set_of(members) is StructuredSet),
{
}

proof fn resolved_members_remove(members: Seq<(usize, Seq<Fact>)>, k: int)
    requires
        0 <= k < members.len(),
    ensures
        resolved_members(members).to_multiset() == match resolved_id(members[k].1) {
            Some(id) => resolved_members(members.remove(k)).to_multiset().insert(
                (members[k].0, id),
            ),
            None => resolved_members(members.remove(k)).to_multiset(),
        },
    decreases members.len(),
{
    let last = members.last();
    let init = members.drop_last();
    resolved_members(init).to_multiset_ensures();
    if k == members.len() - 1 {
        assert(members.remove(k) =~= init);
    } else {
        resolved_members_remove(init, k);
        let rest = members.remove(k);
        assert(rest.drop_last() =~= init.remove(k));
        assert(rest.last() == last);
        resolved_members(init.remove(k)).to_multiset_ensures();
        if let Some(id) = resolved_id(last.1) {
            if let Some(other) = resolved_id(members[k].1) {
                let m = resolved_members(init.remove(k)).to_multiset();
                assert(m.insert((members[k].0, other)).insert((last.0, id)) =~= m.insert(
                    (last.0, id),
                ).insert((members[k].0, other)));
            }
        }
    }
}

proof fn same_members<A>(a: Seq<A>, b: Seq<A>, x: A)
    requires
        a.to_multiset() == b.to_multiset(),
        a.contains(x),
    ensures
        b.contains(x),
{
    a.to_multiset_ensures();
    b.to_multiset_ensures();
    assert(a.to_multiset().count(x) > 0);
    assert(b.to_multiset().count(x) > 0);
}

proof fn resolved_members_permute(a: Seq<(usize, Seq<Fact>)>, b: Seq<(usize, Seq<Fact>)>)
    requires
        a.to_multiset() == b.to_multiset(),
    ensures
        resolved_members(a).to_multiset() == resolved_members(b).to_multiset(),
    decreases a.len(),
{
    a.to_multiset_ensures();
    b.to_multiset_ensures();
    if a.len() == 0 {
        assert(b.len() == 0);
        assert(a =~= b);
    } else {
        let x = a.last();
        assert(a.contains(x));
        same_members(a, b, x);
        let k = choose|k: int| 0 <= k < b.len() && b[k] == x;
        assert(a.remove(a.len() - 1) =~= a.drop_last());
        resolved_members_permute(a.drop_last(), b.remove(k));
        resolved_members_remove(a, a.len() - 1);
        resolved_members_remove(b, k);
    }
}

proof fn mapped_multiset<A, B>(a: Seq<A>, b: Seq<A>, f: spec_fn(A) -> B)
    requires
        a.to_multiset() == b.to_multiset(),
    ensures
        a.map_values(f).to_multiset() == b.map_values(f).to_multiset(),
    decreases a.len(),
{
    a.to_multiset_ensures();
    b.to_multiset_ensures();
    if a.len() == 0 {
        assert(a =~= b);
    } else {
        let x = a.last();
        assert(a.contains(x));
        same_members(a, b, x);
        let k = choose|k: int| 0 <= k < b.len() && b[k] == x;
        assert(a.remove(a.len() - 1) =~= a.drop_last());
        mapped_multiset(a.drop_last(), b.remove(k), f);
        let am = a.map_values(f);
        let bm = b.map_values(f);
        am.to_multiset_ensures();
        bm.to_multiset_ensures();
        assert(am.remove(am.len() - 1) =~= a.drop_last().map_values(f));
        assert(bm.remove(k) =~= b.remove(k).map_values(f));
        assert(am[am.len() - 1] == f(x));
        assert(bm[k] == f(x));
        assert(am.contains(am[am.len() - 1]));
        assert(bm.contains(bm[k]));
        assert(am.to_multiset() =~= am.to_multiset().remove(f(x)).insert(f(x)));
        assert(bm.to_multiset() =~= bm.to_multiset().remove(f(x)).insert(f(x)));
    }
}

/// The classification does not depend on the order in which members are given.
pub proof fn classification_ignores_member_order(
    a: Seq<(usize, Seq<Fact>)>,
    b: Seq<(usize, Seq<Fact>)>,
)
    requires
        a.to_multiset() == b.to_multiset(),
    ensures
        set_of(a) == set_of(b),
{
    resolved_members_permute(a, b);
    let x = resolved_members(a);
    let y = resolved_members(b);
    x.to_multiset_ensures();
    y.to_multiset_ensures();
    if x.len() == 1 {
        assert(x.contains(x[0]));
        same_members(x, y, x[0]);
    } else if x.len() > 1 {
        let first = |m: (usize, Seq<char>)| m.0;
        let xi = x.map_values(first);
        let yi = y.map_values(first);
        mapped_multiset(x, y, first);
        assert(is_preorder(index_order()));
        stable_sorted_props(xi, index_order());
        stable_sorted_props(yi, index_order());
        let sx = stable_sorted(xi, index_order());
        let sy = stable_sorted(yi, index_order());
        assert(sorted_by(sx, index_order()));
        assert(sorted_by(sy, index_order()));
        vstd::seq_lib::lemma_sorted_unique(sx, sy, index_order());
        assert forall|p: Seq<char>| #[trigger] member_platforms(x).contains(p)
            <==> member_platforms(y).contains(p) by {
            if member_platforms(x).contains(p) {
                let k = choose|k: int| 0 <= k < x.len() && member_platforms(x)[k] == p;
                assert(x.contains(x[k]));
                same_members(x, y, x[k]);
                let n = choose|n: int| 0 <= n < y.len() && y[n] == x[k];
                assert(member_platforms(y)[n] == p);
            }
            if member_platforms(y).contains(p) {
                let k = choose|k: int| 0 <= k < y.len() && member_platforms(y)[k] == p;
                assert(y.contains(y[k]));
                same_members(y, x, y[k]);
                let n = choose|n: int| 0 <= n < x.len() && x[n] == y[k];
                assert(member_platforms(x)[n] == p);
            }
        }
        grouping_ignores_order_and_repetition(member_platforms(x), member_platforms(y));
    }
}

} // verus!
