//! What holds of duplicate groups for every batch of files.
use vstd::prelude::*;
use vstd::string::*;
use crate::grouping::{distinct_keys, distinct_keys_props, indices_of, indices_of_props};
use crate::order::{is_sorted, stable_sorted, stable_sorted_props};
use crate::path::{
    components, components_le_antisymmetric, components_le_total, components_le_transitive,
    file_stem, path_le, path_order,
};
use crate::platform_evidence_fusion::duplicate_taxonomy::{
    claimed_after, claimed_by, class_at, class_groups, duplicates, group_model, groups_by,
    groups_of_keys, index_groups, key_of, live_keys, members_le, model_order, paths_at, reported,
    DuplicateClass, DuplicateGroupConfidence, GroupModel, IndexGroup,
};
use crate::platform_evidence_fusion::grouping_laws::is_release;
use crate::platform_evidence_fusion::library_grouping::exact_match;
use crate::platform_evidence_fusion::library_planning::{settled_id, LibraryPlanInput};
use crate::rearranged::rearranged_map;
use crate::text::{ascii_lower, debug_quoted_text, lower_text, opt_view, views};

verus! {

/// A group of at least two different files that share its key under its class.
pub open spec fn valid_group(inputs: Seq<LibraryPlanInput>, g: IndexGroup) -> bool {
    &&& g.indices.len() >= 2
    &&& g.class != DuplicateClass::NotDuplicate
    &&& forall|n: int|
        0 <= n < g.indices.len() ==> 0 <= #[trigger] g.indices[n] < inputs.len() && key_of(
            g.class,
            inputs[g.indices[n]],
        ) == Some(g.key)
    &&& forall|m: int, n: int|
        0 <= m < n < g.indices.len() ==> #[trigger] g.indices[m] < #[trigger] g.indices[n]
}

/// Two groups without a common file.
pub open spec fn disjoint(a: IndexGroup, b: IndexGroup) -> bool {
    forall|i: int| !(#[trigger] a.indices.contains(i) && b.indices.contains(i))
}

proof fn groups_of_keys_props(
    live: Seq<Option<Seq<Seq<char>>>>,
    keys: Seq<Seq<Seq<char>>>,
    class: DuplicateClass,
)
    requires
        keys.no_duplicates(),
    ensures
        forall|p: int|
            #![trigger groups_of_keys(live, keys, class)[p]]
            0 <= p < groups_of_keys(live, keys, class).len() ==> {
                let g = groups_of_keys(live, keys, class)[p];
                &&& g.class == class
                &&& keys.contains(g.key)
                &&& g.indices == indices_of(live, g.key)
                &&& g.indices.len() >= 2
            },
        forall|p: int, q: int|
            0 <= p < q < groups_of_keys(live, keys, class).len() ==> (
            #[trigger] groups_of_keys(live, keys, class)[p]).key != (
            #[trigger] groups_of_keys(live, keys, class)[q]).key,
        forall|k: Seq<Seq<char>>|
            keys.contains(k) && #[trigger] indices_of(live, k).len() >= 2 ==> exists|p: int|
                0 <= p < groups_of_keys(live, keys, class).len() && (
                #[trigger] groups_of_keys(live, keys, class)[p]).key == k,
    decreases keys.len(),
{
    if keys.len() > 0 {
        let init = keys.drop_last();
        let before = groups_of_keys(live, init, class);
        let all = groups_of_keys(live, keys, class);
        let last = keys.last();
        assert forall|i: int, j: int| 0 <= i < init.len() && 0 <= j < init.len() && i != j implies init[i]
            != init[j] by {
            assert(init[i] == keys[i] && init[j] == keys[j]);
        }
        groups_of_keys_props(live, init, class);
        assert(keys[keys.len() - 1] == last);
        assert forall|k: Seq<Seq<char>>| init.contains(k) implies keys.contains(k) && k != last by {
            let i = choose|i: int| 0 <= i < init.len() && init[i] == k;
            assert(keys[i] == k);
        }
        assert forall|p: int| 0 <= p < all.len() implies ({
            let g = #[trigger] all[p];
            &&& g.class == class
            &&& keys.contains(g.key)
            &&& g.indices == indices_of(live, g.key)
            &&& g.indices.len() >= 2
        }) by {
            if p < before.len() {
                assert(all[p] == before[p]);
            }
        }
        assert forall|p: int, q: int| 0 <= p < q < all.len() implies (#[trigger] all[p]).key != (
        #[trigger] all[q]).key by {
            assert(all[p] == before[p]);
            if q < before.len() {
                assert(all[q] == before[q]);
            }
        }
        assert forall|k: Seq<Seq<char>>| keys.contains(k) && #[trigger] indices_of(live, k).len()
            >= 2 implies exists|p: int| 0 <= p < all.len() && (#[trigger] all[p]).key == k by {
            if k == last {
                assert(all[all.len() - 1].key == k);
            } else {
                let i = choose|i: int| 0 <= i < keys.len() && keys[i] == k;
                assert(init[i] == k);
                assert(init.contains(k));
                let p = choose|p: int| 0 <= p < before.len() && (#[trigger] before[p]).key == k;
                assert(all[p].key == k);
            }
        }
    }
}

proof fn class_groups_props(
    inputs: Seq<LibraryPlanInput>,
    claimed: Seq<bool>,
    class: DuplicateClass,
)
    requires
        claimed.len() == inputs.len(),
        class != DuplicateClass::NotDuplicate,
    ensures
        forall|p: int|
            0 <= p < class_groups(inputs, claimed, class).len() ==> valid_group(
                inputs,
                #[trigger] class_groups(inputs, claimed, class)[p],
            ) && class_groups(inputs, claimed, class)[p].class == class,
        forall|p: int, q: int|
            0 <= p < q < class_groups(inputs, claimed, class).len() ==> disjoint(
                #[trigger] class_groups(inputs, claimed, class)[p],
                #[trigger] class_groups(inputs, claimed, class)[q],
            ),
        forall|p: int, i: int|
            0 <= p < class_groups(inputs, claimed, class).len()
                && #[trigger] class_groups(inputs, claimed, class)[p].indices.contains(i)
                ==> !claimed[i] && claimed_after(inputs, claimed, class)[i],
{
    let live = live_keys(inputs, claimed, class);
    let keys = distinct_keys(live);
    let all = class_groups(inputs, claimed, class);
    distinct_keys_props(live);
    groups_of_keys_props(live, keys, class);
    assert forall|p: int| 0 <= p < all.len() implies valid_group(inputs, #[trigger] all[p])
        && all[p].class == class by {
        let g = all[p];
        indices_of_props(live, g.key);
        assert forall|n: int| 0 <= n < g.indices.len() implies 0 <= #[trigger] g.indices[n]
            < inputs.len() && key_of(g.class, inputs[g.indices[n]]) == Some(g.key) by {
            assert(live[g.indices[n]] == Some(g.key));
        }
    }
    assert forall|p: int, i: int| 0 <= p < all.len() && #[trigger] all[p].indices.contains(i) implies !claimed[i]
        && claimed_after(inputs, claimed, class)[i] && live[i] == Some(all[p].key) by {
        let g = all[p];
        indices_of_props(live, g.key);
        let n = choose|n: int| 0 <= n < g.indices.len() && g.indices[n] == i;
        assert(live[g.indices[n]] == Some(g.key));
    }
    assert forall|p: int, q: int| 0 <= p < q < all.len() implies disjoint(
        #[trigger] all[p],
        #[trigger] all[q],
    ) by {
        assert forall|i: int| !(#[trigger] all[p].indices.contains(i) && all[q].indices.contains(
            i,
        )) by {
            if all[p].indices.contains(i) && all[q].indices.contains(i) {
                assert(live[i] == Some(all[p].key));
                assert(live[i] == Some(all[q].key));
            }
        }
    }
}

proof fn claimed_only_grows(inputs: Seq<LibraryPlanInput>, n: nat)
    ensures
        claimed_by(inputs, n).len() == inputs.len(),
        forall|i: int|
            0 <= i < inputs.len() && #[trigger] claimed_by(inputs, n)[i] ==> claimed_by(
                inputs,
                n + 1,
            )[i],
    decreases n,
{
}

proof fn groups_by_props(inputs: Seq<LibraryPlanInput>, n: nat)
    ensures
        claimed_by(inputs, n).len() == inputs.len(),
        forall|p: int|
            0 <= p < groups_by(inputs, n).len() ==> valid_group(
                inputs,
                #[trigger] groups_by(inputs, n)[p],
            ),
        forall|p: int, q: int|
            0 <= p < q < groups_by(inputs, n).len() ==> disjoint(
                #[trigger] groups_by(inputs, n)[p],
                #[trigger] groups_by(inputs, n)[q],
            ),
        forall|p: int, i: int|
            0 <= p < groups_by(inputs, n).len() && #[trigger] groups_by(
                inputs,
                n,
            )[p].indices.contains(i) ==> claimed_by(inputs, n)[i],
    decreases n,
{
    if n > 0 {
        let m = (n - 1) as nat;
        groups_by_props(inputs, m);
        claimed_only_grows(inputs, m);
        let claimed = claimed_by(inputs, m);
        let class = class_at(n - 1);
        class_groups_props(inputs, claimed, class);
        let before = groups_by(inputs, m);
        let added = class_groups(inputs, claimed, class);
        let all = groups_by(inputs, n);
        assert forall|p: int| 0 <= p < all.len() implies valid_group(inputs, #[trigger] all[p]) by {
            if p < before.len() {
                assert(all[p] == before[p]);
            } else {
                assert(all[p] == added[p - before.len()]);
            }
        }
        assert forall|p: int, i: int| 0 <= p < all.len() && #[trigger] all[p].indices.contains(
            i,
        ) implies claimed_by(inputs, n)[i] by {
            let g = all[p];
            let k = choose|k: int| 0 <= k < g.indices.len() && g.indices[k] == i;
            assert(valid_group(inputs, g));
            assert(0 <= g.indices[k] < inputs.len());
            if p < before.len() {
                assert(before[p].indices.contains(i));
                assert(claimed[i]);
            } else {
                assert(added[p - before.len()].indices.contains(i));
            }
        }
        assert forall|p: int, q: int| 0 <= p < q < all.len() implies disjoint(
            #[trigger] all[p],
            #[trigger] all[q],
        ) by {
            if q < before.len() {
                assert(all[p] == before[p] && all[q] == before[q]);
            } else if p >= before.len() {
                assert(all[p] == added[p - before.len()] && all[q] == added[q - before.len()]);
            } else {
                assert forall|i: int| !(#[trigger] all[p].indices.contains(i)
                    && all[q].indices.contains(i)) by {
                    if all[p].indices.contains(i) && all[q].indices.contains(i) {
                        assert(before[p].indices.contains(i));
                        assert(claimed[i]);
                        assert(added[q - before.len()].indices.contains(i));
                    }
                }
            }
        }
    }
}

/// Every group has at least two members, in range and each listed once, and all
/// of them share the group's key under its class.
pub proof fn groups_share_their_key(inputs: Seq<LibraryPlanInput>, p: int)
    requires
        0 <= p < index_groups(inputs).len(),
    ensures
        valid_group(inputs, index_groups(inputs)[p]),
{
    groups_by_props(inputs, 6);
}

/// A file is in at most one group.
pub proof fn a_file_is_in_at_most_one_group(
    inputs: Seq<LibraryPlanInput>,
    p: int,
    q: int,
    i: int,
)
    requires
        0 <= p < index_groups(inputs).len(),
        0 <= q < index_groups(inputs).len(),
        index_groups(inputs)[p].indices.contains(i),
        index_groups(inputs)[q].indices.contains(i),
    ensures
        p == q,
{
    groups_by_props(inputs, 6);
    let all = index_groups(inputs);
    if p < q {
        assert(disjoint(all[p], all[q]));
    } else if q < p {
        assert(disjoint(all[q], all[p]));
    }
}

proof fn groups_by_extends(inputs: Seq<LibraryPlanInput>, n: nat, m: nat)
    requires
        n <= m,
    ensures
        groups_by(inputs, n).len() <= groups_by(inputs, m).len(),
        forall|p: int|
            0 <= p < groups_by(inputs, n).len() ==> groups_by(inputs, m)[p] == #[trigger] groups_by(
                inputs,
                n,
            )[p],
    decreases m,
{
    if n < m {
        groups_by_extends(inputs, n, (m - 1) as nat);
    }
}

/// Two files that share a key under a class, and that no stronger class has
/// claimed, are reported together under that class.
pub proof fn shared_keys_are_reported_together(
    inputs: Seq<LibraryPlanInput>,
    n: nat,
    i: int,
    j: int,
)
    requires
        n < 6,
        0 <= i < j < inputs.len(),
        !claimed_by(inputs, n)[i],
        !claimed_by(inputs, n)[j],
        key_of(class_at(n as int), inputs[i]) is Some,
        key_of(class_at(n as int), inputs[i]) == key_of(class_at(n as int), inputs[j]),
    ensures
        exists|p: int|
            0 <= p < index_groups(inputs).len() && (#[trigger] index_groups(inputs)[p]).class
                == class_at(n as int) && index_groups(inputs)[p].indices.contains(i)
                && index_groups(inputs)[p].indices.contains(j),
{
    let claimed = claimed_by(inputs, n);
    let class = class_at(n as int);
    let live = live_keys(inputs, claimed, class);
    let keys = distinct_keys(live);
    let k = key_of(class, inputs[i])->0;
    claimed_only_grows(inputs, n);
    distinct_keys_props(live);
    assert(live[i] == Some(k));
    assert(live[j] == Some(k));
    assert(live.contains(Some(k)));
    assert(keys.contains(k));
    indices_of_props(live, k);
    let indices = indices_of(live, k);
    assert(indices.contains(i) && indices.contains(j));
    let a = choose|a: int| 0 <= a < indices.len() && indices[a] == i;
    let b = choose|b: int| 0 <= b < indices.len() && indices[b] == j;
    assert(a != b);
    groups_of_keys_props(live, keys, class);
    let added = class_groups(inputs, claimed, class);
    let p = choose|p: int| 0 <= p < added.len() && (#[trigger] added[p]).key == k;
    let before = groups_by(inputs, n);
    let after = groups_by(inputs, n + 1);
    assert(after[before.len() + p] == added[p]);
    groups_by_extends(inputs, n + 1, 6);
    assert(index_groups(inputs)[before.len() + p] == added[p]);
}

proof fn members_le_total(a: Seq<Seq<char>>, b: Seq<Seq<char>>)
    ensures
        members_le(a, b) || members_le(b, a),
    decreases a.len(),
{
    if a.len() > 0 && b.len() > 0 {
        components_le_total(components(a[0]), components(b[0]));
        if components(a[0]) == components(b[0]) {
            members_le_total(a.drop_first(), b.drop_first());
        }
    }
}

proof fn members_le_transitive(a: Seq<Seq<char>>, b: Seq<Seq<char>>, c: Seq<Seq<char>>)
    requires
        members_le(a, b),
        members_le(b, c),
    ensures
        members_le(a, c),
    decreases a.len(),
{
    if a.len() > 0 && b.len() > 0 && c.len() > 0 {
        let x = components(a[0]);
        let y = components(b[0]);
        let z = components(c[0]);
        if x == y && y == z {
            members_le_transitive(a.drop_first(), b.drop_first(), c.drop_first());
        } else if x != y && y != z {
            components_le_transitive(x, y, z);
            if x == z {
                components_le_antisymmetric(x, y);
            }
        }
    }
}

/// Groups come strongest class first, and within a class in order of members.
pub proof fn groups_are_in_order(inputs: Seq<LibraryPlanInput>)
    ensures
        is_sorted(duplicates(inputs), model_order()),
        duplicates(inputs).to_multiset() == reported(inputs, index_groups(inputs)).to_multiset(),
{
    let le = model_order();
    assert forall|a: GroupModel, b: GroupModel| #[trigger] le(a, b) || #[trigger] le(b, a) by {
        members_le_total(a.members, b.members);
    }
    assert forall|a: GroupModel, b: GroupModel, c: GroupModel| #[trigger] le(a, b) && #[trigger] le(
        b,
        c,
    ) implies le(a, c) by {
        if members_le(a.members, b.members) && members_le(b.members, c.members) {
            members_le_transitive(a.members, b.members, c.members);
        }
    }
    stable_sorted_props(reported(inputs, index_groups(inputs)), le);
}

/// The texts differ at most in the case of ASCII letters.
pub open spec fn same_but_for_case(a: Seq<char>, b: Seq<char>) -> bool {
    &&& a.len() == b.len()
    &&& forall|i: int|
        0 <= i < a.len() ==> #[trigger] a[i] == b[i] || ('A' <= a[i] <= 'Z' && b[i] as int
            == a[i] as int + 32) || ('A' <= b[i] <= 'Z' && a[i] as int == b[i] as int + 32)
}

/// What two files of a class share: a hash; the DAT game and rom entry, or the
/// game alone; the root of their lineages; or platform and base name.
pub open spec fn shares(class: DuplicateClass, a: LibraryPlanInput, b: LibraryPlanInput) -> bool {
    match class {
        DuplicateClass::ExactPhysicalDuplicate => {
            opt_view(a.physical_hash) is Some && opt_view(a.physical_hash) == opt_view(
                b.physical_hash,
            )
        },
        DuplicateClass::ExactNormalizedDuplicate => {
            opt_view(a.normalized_hash) is Some && opt_view(a.normalized_hash) == opt_view(
                b.normalized_hash,
            )
        },
        DuplicateClass::SameDatRelease => {
            exact_match(a.identity) is Some && exact_match(a.identity) == exact_match(b.identity)
        },
        DuplicateClass::SameGameDifferentDump => {
            &&& exact_match(a.identity) is Some
            &&& exact_match(b.identity) is Some
            &&& (exact_match(a.identity)->0).0 == (exact_match(b.identity)->0).0
        },
        DuplicateClass::SameGameDifferentRevision => exists|
            root: Seq<char>,
            x: Seq<char>,
            y: Seq<char>,
        | #[trigger] is_release(a, root, x) && #[trigger] is_release(b, root, y),
        DuplicateClass::PossibleDuplicate => {
            &&& settled_id(a.identity) is Some
            &&& settled_id(a.identity) == settled_id(b.identity)
            &&& file_stem(a.source_path@) is Some
            &&& file_stem(b.source_path@) is Some
            &&& same_but_for_case(file_stem(a.source_path@)->0, file_stem(b.source_path@)->0)
        },
        DuplicateClass::NotDuplicate => false,
    }
}

proof fn case_folds(a: char, b: char)
    ensures
        ascii_lower(a) == ascii_lower(b) <==> a == b || ('A' <= a <= 'Z' && b as int == a as int
            + 32) || ('A' <= b <= 'Z' && a as int == b as int + 32),
{
    if 'A' <= a && a <= 'Z' {
        assert(ascii_lower(a) as int == a as int + 32);
    }
    if 'A' <= b && b <= 'Z' {
        assert(ascii_lower(b) as int == b as int + 32);
    }
}

proof fn lower_texts_fold(a: Seq<char>, b: Seq<char>)
    ensures
        lower_text(a) == lower_text(b) <==> same_but_for_case(a, b),
{
    assert(lower_text(a).len() == a.len() && lower_text(b).len() == b.len());
    assert forall|i: int| 0 <= i < a.len() && i < b.len() implies (lower_text(a)[i] == lower_text(
        b,
    )[i] <==> #[trigger] a[i] == b[i] || ('A' <= a[i] <= 'Z' && b[i] as int == a[i] as int + 32)
        || ('A' <= b[i] <= 'Z' && a[i] as int == b[i] as int + 32)) by {
        case_folds(a[i], b[i]);
    }
    if same_but_for_case(a, b) {
        assert(lower_text(a) =~= lower_text(b));
    }
    if lower_text(a) == lower_text(b) {
        assert forall|i: int| 0 <= i < a.len() implies #[trigger] a[i] == b[i] || ('A' <= a[i]
            <= 'Z' && b[i] as int == a[i] as int + 32) || ('A' <= b[i] <= 'Z' && a[i] as int
            == b[i] as int + 32) by {
            assert(lower_text(a)[i] == lower_text(b)[i]);
        }
    }
}

/// Two files have the same key under a class exactly when they share what the
/// class stands for.
pub proof fn keys_are_what_files_share(
    class: DuplicateClass,
    a: LibraryPlanInput,
    b: LibraryPlanInput,
)
    ensures
        key_of(class, a) is Some && key_of(class, a) == key_of(class, b) <==> shares(class, a, b),
{
    let x = key_of(class, a);
    let y = key_of(class, b);
    if x is Some && y is Some {
        if x == y {
            assert((x->0)[0] == (y->0)[0]);
            assert((x->0)[1] == (y->0)[1]);
        }
        if shares(class, a, b) {
            if class == DuplicateClass::PossibleDuplicate {
                lower_texts_fold(file_stem(a.source_path@)->0, file_stem(b.source_path@)->0);
            }
            assert(x->0 =~= y->0);
        }
        if class == DuplicateClass::PossibleDuplicate && x == y {
            lower_texts_fold(file_stem(a.source_path@)->0, file_stem(b.source_path@)->0);
        }
        if class == DuplicateClass::SameGameDifferentRevision && x == y {
            let root = (a.release_relationship->0).root()->0;
            assert(is_release(a, root, (a.release_relationship->0).own_name()->0));
            assert(is_release(b, root, (b.release_relationship->0).own_name()->0));
        }
    }
}

proof fn claimed_files_share(inputs: Seq<LibraryPlanInput>, n: nat, i: int)
    requires
        n <= 6,
        0 <= i < inputs.len(),
        claimed_by(inputs, n).len() == inputs.len(),
        claimed_by(inputs, n)[i],
    ensures
        exists|d: int, k: int|
            0 <= d < n && 0 <= k < inputs.len() && k != i && #[trigger] shares(
                class_at(d),
                inputs[i],
                inputs[k],
            ),
    decreases n,
{
    if n > 0 {
        let m = (n - 1) as nat;
        let before = claimed_by(inputs, m);
        let class = class_at(m as int);
        let live = live_keys(inputs, before, class);
        claimed_only_grows(inputs, m);
        if before[i] {
            claimed_files_share(inputs, m, i);
            let (d, k) = choose|d: int, k: int|
                0 <= d < m && 0 <= k < inputs.len() && k != i && #[trigger] shares(
                    class_at(d),
                    inputs[i],
                    inputs[k],
                );
            assert(shares(class_at(d), inputs[i], inputs[k]));
        } else {
            let key = live[i]->0;
            indices_of_props(live, key);
            let at = indices_of(live, key);
            let k = if at[0] != i {
                at[0]
            } else {
                at[1]
            };
            assert(at[0] < at[1]);
            assert(live[at[0]] == Some(key) && live[at[1]] == Some(key));
            assert(live[k] == Some(key));
            keys_are_what_files_share(class, inputs[i], inputs[k]);
            assert(shares(class_at(m as int), inputs[i], inputs[k]));
        }
    }
}

/// The paths of the files with these indices.
pub open spec fn paths_of(inputs: Seq<LibraryPlanInput>, at: Seq<int>) -> Seq<Seq<char>> {
    at.map_values(|i: int| inputs[i].source_path@)
}

/// The group is that of the files with these indices: two or more different
/// ones, all of which share what its class stands for.
pub open spec fn is_group_of(
    group: GroupModel,
    inputs: Seq<LibraryPlanInput>,
    at: Seq<int>,
) -> bool {
    &&& at.len() >= 2
    &&& forall|m: int, n: int| 0 <= m < n < at.len() ==> #[trigger] at[m] < #[trigger] at[n]
    &&& forall|n: int| 0 <= n < at.len() ==> 0 <= #[trigger] at[n] < inputs.len()
    &&& forall|m: int, n: int|
        0 <= m < at.len() && 0 <= n < at.len() ==> shares(
            group.classification,
            inputs[#[trigger] at[m]],
            inputs[#[trigger] at[n]],
        )
    &&& group.members.to_multiset() == paths_of(inputs, at).to_multiset()
    &&& forall|m: int, n: int|
        0 <= m < n < group.members.len() ==> path_le(
            #[trigger] group.members[m],
            #[trigger] group.members[n],
        )
    &&& group.confidence == if group.classification == DuplicateClass::PossibleDuplicate {
        DuplicateGroupConfidence::Weak
    } else {
        DuplicateGroupConfidence::Strong
    }
    &&& group.classification == DuplicateClass::ExactPhysicalDuplicate ==> group.basis
        == "identical physical hash "@ + (inputs[at[0]].physical_hash->0)@
    &&& group.classification == DuplicateClass::ExactNormalizedDuplicate ==> group.basis
        == "identical normalized representation hash "@ + (inputs[at[0]].normalized_hash->0)@
    &&& group.classification == DuplicateClass::SameDatRelease ==> group.basis
        == "both confidently match the same DAT release: "@ + (exact_match(
        inputs[at[0]].identity,
    )->0).0 + " / "@ + (exact_match(inputs[at[0]].identity)->0).1
    &&& group.classification == DuplicateClass::SameGameDifferentDump ==> group.basis
        == "both confidently match the same DAT game "@ + debug_quoted_text(
        (exact_match(inputs[at[0]].identity)->0).0,
    ) + ", under different rom entries"@
    &&& group.classification == DuplicateClass::SameGameDifferentRevision ==> exists|
        root: Seq<char>,
        own: Seq<char>,
    | #[trigger] is_release(inputs[at[0]], root, own) && group.basis
        == "share a DAT-declared cloneof lineage rooted at "@ + debug_quoted_text(root)
    &&& group.classification == DuplicateClass::PossibleDuplicate ==> group.basis
        == "same basename ("@ + debug_quoted_text(
        lower_text(file_stem(inputs[at[0]].source_path@)->0),
    ) + ") and resolved platform ("@ + settled_id(inputs[at[0]].identity)->0
        + ") - filename similarity only, never stronger"@
}

/// The group is that of some files.
pub open spec fn is_some_group(group: GroupModel, inputs: Seq<LibraryPlanInput>) -> bool {
    exists|at: Seq<int>| #[trigger] is_group_of(group, inputs, at)
}

proof fn reported_groups_are_groups(inputs: Seq<LibraryPlanInput>, p: int)
    requires
        0 <= p < index_groups(inputs).len(),
    ensures
        is_group_of(
            group_model(inputs, index_groups(inputs)[p]),
            inputs,
            index_groups(inputs)[p].indices,
        ),
{
    let g = index_groups(inputs)[p];
    let group = group_model(inputs, g);
    let at = g.indices;
    groups_share_their_key(inputs, p);
    assert forall|m: int, n: int| 0 <= m < at.len() && 0 <= n < at.len() implies shares(
        group.classification,
        inputs[#[trigger] at[m]],
        inputs[#[trigger] at[n]],
    ) by {
        keys_are_what_files_share(g.class, inputs[at[m]], inputs[at[n]]);
    }
    let text = |t: String| t@;
    let paths = paths_at(inputs, at);
    crate::path::path_order_is_preorder();
    stable_sorted_props(paths, path_order());
    rearranged_map(stable_sorted(paths, path_order()), paths, text);
    assert(views(paths) =~= paths_of(inputs, at));
    assert forall|m: int, n: int| 0 <= m < n < group.members.len() implies path_le(
        #[trigger] group.members[m],
        #[trigger] group.members[n],
    ) by {
        let sorted = stable_sorted(paths, path_order());
        assert(path_order()(sorted[m], sorted[n]));
    }
    assert(key_of(g.class, inputs[at[0]]) == Some(g.key));
    if g.class == DuplicateClass::SameGameDifferentRevision {
        let relationship = inputs[at[0]].release_relationship->0;
        assert(is_release(inputs[at[0]], relationship.root()->0, relationship.own_name()->0));
    }
}

/// Every duplicate group is the group of two or more files that all share what
/// its class stands for, with their paths in order.
pub proof fn duplicate_groups_are_groups_of_files(inputs: Seq<LibraryPlanInput>)
    ensures
        forall|p: int|
            0 <= p < duplicates(inputs).len() ==> is_some_group(
                #[trigger] duplicates(inputs)[p],
                inputs,
            ),
{
    let all = duplicates(inputs);
    let listed = reported(inputs, index_groups(inputs));
    groups_are_in_order(inputs);
    assert forall|p: int| 0 <= p < all.len() implies is_some_group(#[trigger] all[p], inputs) by {
        all.to_multiset_ensures();
        listed.to_multiset_ensures();
        assert(all.contains(all[p]));
        assert(listed.to_multiset().count(all[p]) > 0);
        assert(listed.contains(all[p]));
        let q = choose|q: int| 0 <= q < listed.len() && listed[q] == all[p];
        reported_groups_are_groups(inputs, q);
    }
}

/// Two files that share what a class stands for are in one group of that class,
/// unless one of them shares something stronger with some file. So two files
/// with one physical hash always are.
pub proof fn files_that_share_are_reported(
    inputs: Seq<LibraryPlanInput>,
    n: int,
    i: int,
    j: int,
)
    requires
        0 <= n < 6,
        0 <= i < j < inputs.len(),
        shares(class_at(n), inputs[i], inputs[j]),
        forall|d: int, k: int|
            0 <= d < n && 0 <= k < inputs.len() && k != i ==> !#[trigger] shares(
                class_at(d),
                inputs[i],
                inputs[k],
            ),
        forall|d: int, k: int|
            0 <= d < n && 0 <= k < inputs.len() && k != j ==> !#[trigger] shares(
                class_at(d),
                inputs[j],
                inputs[k],
            ),
    ensures
        exists|p: int|
            0 <= p < duplicates(inputs).len() && (#[trigger] duplicates(
                inputs,
            )[p]).classification == class_at(n) && duplicates(inputs)[p].members.contains(
                inputs[i].source_path@,
            ) && duplicates(inputs)[p].members.contains(inputs[j].source_path@),
{
    let all = duplicates(inputs);
    let listed = reported(inputs, index_groups(inputs));
    claimed_only_grows(inputs, n as nat);
    if claimed_by(inputs, n as nat)[i] {
        claimed_files_share(inputs, n as nat, i);
    }
    if claimed_by(inputs, n as nat)[j] {
        claimed_files_share(inputs, n as nat, j);
    }
    keys_are_what_files_share(class_at(n), inputs[i], inputs[j]);
    shared_keys_are_reported_together(inputs, n as nat, i, j);
    let q = choose|q: int|
        0 <= q < index_groups(inputs).len() && (#[trigger] index_groups(inputs)[q]).class
            == class_at(n) && index_groups(inputs)[q].indices.contains(i) && index_groups(
            inputs,
        )[q].indices.contains(j);
    let g = index_groups(inputs)[q];
    reported_groups_are_groups(inputs, q);
    groups_are_in_order(inputs);
    all.to_multiset_ensures();
    listed.to_multiset_ensures();
    assert(listed[q] == group_model(inputs, g));
    assert(listed.contains(listed[q]));
    assert(all.to_multiset().count(listed[q]) > 0);
    assert(all.contains(listed[q]));
    let p = choose|p: int| 0 <= p < all.len() && all[p] == listed[q];
    let paths = paths_of(inputs, g.indices);
    paths.to_multiset_ensures();
    all[p].members.to_multiset_ensures();
    let a = choose|a: int| 0 <= a < g.indices.len() && g.indices[a] == i;
    let b = choose|b: int| 0 <= b < g.indices.len() && g.indices[b] == j;
    assert(paths.contains(paths[a]) && paths.contains(paths[b]));
    assert(all[p].members.to_multiset().count(paths[a]) > 0);
    assert(all[p].members.to_multiset().count(paths[b]) > 0);
    assert(all[p].classification == class_at(n));
}

/// The classes from the strongest down: physical hash, normalised hash, DAT
/// release, DAT game, lineage, base name.
pub proof fn classes_from_the_strongest_down()
    ensures
        class_at(0) == DuplicateClass::ExactPhysicalDuplicate,
        class_at(1) == DuplicateClass::ExactNormalizedDuplicate,
        class_at(2) == DuplicateClass::SameDatRelease,
        class_at(3) == DuplicateClass::SameGameDifferentDump,
        class_at(4) == DuplicateClass::SameGameDifferentRevision,
        class_at(5) == DuplicateClass::PossibleDuplicate,
{
}

} // verus!
