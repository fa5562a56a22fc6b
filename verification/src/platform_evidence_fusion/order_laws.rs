//! Groups of a library do not depend on the order its files are given in.
//!
//! Two paths are the same path when their components are equal, however they
//! are spelled. The laws compare groups by path for every library, and by text
//! for libraries that spell each path in one way.
use vstd::prelude::*;
use vstd::string::*;
use crate::grouping::{distinct_keys, indices_of};
use crate::order::{is_preorder, stable_sorted, stable_sorted_map};
use crate::path::{
    components, components_le, components_le_antisymmetric, components_le_total,
    components_le_transitive, path_order,
};
use crate::platform_evidence_fusion::duplicate_taxonomy::{
    claimed_by, class_at, class_groups, duplicates, group_model, groups_by, groups_of_keys,
    key_of, live_keys, members_le, model_order, paths_at, reported, DuplicateClass,
    DuplicateGroupConfidence, GroupModel, IndexGroup,
};
use crate::platform_evidence_fusion::library_grouping::{
    disc_key, disc_keys, disc_order, disc_parts, disc_sets, disc_sets_of_keys, discs_at,
    lineage_keys, lineage_of, release_order, releases_at, revisions, revisions_of_keys,
    set_of_discs, title_order, DiscModel, DiscSetModel, RevisionModel,
};
use crate::platform_evidence_fusion::library_planning::LibraryPlanInput;
use crate::platform_evidence_fusion::plan_transaction::path_text_order;
use crate::platform_evidence_fusion::plan_transaction_laws::path_components;
use crate::rearranged::{
    keys_ignore_order, picked_by_index, picked_rearranged, rearranged, rearranged_map,
    sorted_picks_look_the_same,
};
use crate::text::{text_le, text_le_antisymmetric, text_le_total, text_le_transitive, views};

verus! {

/// No path is spelled in two ways.
pub open spec fn one_spelling(inputs: Seq<LibraryPlanInput>) -> bool {
    forall|i: int, j: int|
        0 <= i < inputs.len() && 0 <= j < inputs.len() && components(
            (#[trigger] inputs[i]).source_path@,
        ) == components((#[trigger] inputs[j]).source_path@) ==> inputs[i].source_path@
            == inputs[j].source_path@
}

// Multi-disc sets.

/// The disc a file is, if it is one.
pub open spec fn disc_of(input: LibraryPlanInput) -> DiscModel {
    DiscModel {
        part: (disc_parts(input.identity)->0).1,
        total: (disc_parts(input.identity)->0).2,
        path: input.source_path@,
    }
}

/// Files of one title that are the same disc at the same path declare the same
/// number of discs.
pub open spec fn totals_agree(inputs: Seq<LibraryPlanInput>) -> bool {
    forall|i: int, j: int|
        0 <= i < inputs.len() && 0 <= j < inputs.len() && disc_key(inputs[i]) is Some && disc_key(
            inputs[i],
        ) == disc_key(inputs[j]) && (#[trigger] disc_of(inputs[i])).part == (
        #[trigger] disc_of(inputs[j])).part && components(inputs[i].source_path@) == components(
            inputs[j].source_path@,
        ) ==> disc_of(inputs[i]).total == disc_of(inputs[j]).total
}

/// The title of a set, and the parts and paths of its discs.
pub open spec fn discs_by_path(set: DiscSetModel) -> (Seq<char>, Seq<(nat, Seq<Seq<char>>)>) {
    (set.base_title, set.discs.map_values(|d: (nat, Seq<char>)| (d.0, components(d.1))))
}

/// [`discs_by_path`] together with the declared number of discs.
pub open spec fn set_by_path(set: DiscSetModel) -> (
    (Seq<char>, Seq<(nat, Seq<Seq<char>>)>),
    nat,
) {
    (discs_by_path(set), set.declared_total)
}

spec fn placed(d: DiscModel) -> (nat, Seq<Seq<char>>) {
    (d.part, components(d.path))
}

spec fn placed_le(a: (nat, Seq<Seq<char>>), b: (nat, Seq<Seq<char>>)) -> bool {
    a.0 < b.0 || (a.0 == b.0 && components_le(a.1, b.1))
}

proof fn placed_le_laws(
    a: (nat, Seq<Seq<char>>),
    b: (nat, Seq<Seq<char>>),
    c: (nat, Seq<Seq<char>>),
)
    ensures
        placed_le(a, b) || placed_le(b, a),
        placed_le(a, b) && placed_le(b, a) ==> a == b,
        placed_le(a, b) && placed_le(b, c) ==> placed_le(a, c),
{
    components_le_total(a.1, b.1);
    if components_le(a.1, b.1) && components_le(b.1, a.1) {
        components_le_antisymmetric(a.1, b.1);
    }
    if components_le(a.1, b.1) && components_le(b.1, c.1) {
        components_le_transitive(a.1, b.1, c.1);
    }
}

/// The sorted discs of a key look the same through `seen`, if discs that rank
/// the same do.
proof fn discs_of_key_look_the_same<Q>(
    a: Seq<LibraryPlanInput>,
    b: Seq<LibraryPlanInput>,
    k: Seq<Seq<char>>,
    seen: spec_fn(DiscModel) -> Q,
    place: spec_fn(Q) -> (nat, Seq<Seq<char>>),
)
    requires
        rearranged(a, b),
        forall|d: DiscModel| #[trigger] place(seen(d)) == placed(d),
        forall|i: int, j: int|
            0 <= i < a.len() && 0 <= j < a.len() && disc_key(a[i]) == Some(k) && disc_key(a[j])
                == Some(k) && placed(#[trigger] disc_of(a[i])) == placed(#[trigger] disc_of(a[j]))
                ==> seen(disc_of(a[i])) == seen(disc_of(a[j])),
    ensures
        indices_of(disc_keys(a), k).len() == indices_of(disc_keys(b), k).len(),
        stable_sorted(discs_at(a, indices_of(disc_keys(a), k)), disc_order()).map_values(seen)
            == stable_sorted(
            discs_at(b, indices_of(disc_keys(b), k)),
            disc_order(),
        ).map_values(seen),
{
    let key = |x: LibraryPlanInput| disc_key(x);
    let pay = |x: LibraryPlanInput| disc_of(x);
    let le = disc_order();
    let le_seen = |x: Q, y: Q| placed_le(place(x), place(y));
    picked_by_index(a, key, pay, k);
    picked_by_index(b, key, pay, k);
    assert(a.map_values(key) =~= disc_keys(a));
    assert(b.map_values(key) =~= disc_keys(b));
    let ia = indices_of(disc_keys(a), k);
    let ib = indices_of(disc_keys(b), k);
    assert(ia.map_values(|i: int| pay(a[i])) =~= discs_at(a, ia));
    assert(ib.map_values(|i: int| pay(b[i])) =~= discs_at(b, ib));
    picked_rearranged(a, b, key, pay, k);
    assert(ia.map_values(|i: int| pay(a[i])).len() == ia.len());
    assert(ib.map_values(|i: int| pay(b[i])).len() == ib.len());
    assert forall|x: Q, y: Q| #[trigger] le_seen(x, y) || #[trigger] le_seen(y, x) by {
        placed_le_laws(place(x), place(y), place(x));
    }
    assert forall|x: Q, y: Q, z: Q| #[trigger] le_seen(x, y) && #[trigger] le_seen(
        y,
        z,
    ) implies le_seen(x, z) by {
        placed_le_laws(place(x), place(y), place(z));
    }
    assert forall|p: DiscModel, q: DiscModel| #[trigger] le(p, q) == le_seen(seen(p), seen(q)) by {
        assert(place(seen(p)) == placed(p));
        assert(place(seen(q)) == placed(q));
    }
    assert forall|i: int, j: int|
        0 <= i < a.len() && 0 <= j < a.len() && key(a[i]) == Some(k) && key(a[j]) == Some(k)
            && le(#[trigger] pay(a[i]), #[trigger] pay(a[j])) && le(pay(a[j]), pay(a[i])) implies
        seen(pay(a[i])) == seen(pay(a[j])) by {
        placed_le_laws(placed(pay(a[i])), placed(pay(a[j])), placed(pay(a[i])));
        assert(placed(disc_of(a[i])) == placed(disc_of(a[j])));
    }
    sorted_picks_look_the_same(a, b, key, pay, seen, k, le, le_seen);
}

proof fn same_sets_by_path(title: Seq<char>, x: Seq<DiscModel>, y: Seq<DiscModel>)
    requires
        x.map_values(|d: DiscModel| placed(d)) == y.map_values(|d: DiscModel| placed(d)),
    ensures
        discs_by_path(set_of_discs(title, x)) == discs_by_path(set_of_discs(title, y)),
{
    let seen = |d: DiscModel| placed(d);
    assert(x.map_values(seen).len() == x.len());
    assert(y.map_values(seen).len() == y.len());
    let p = discs_by_path(set_of_discs(title, x)).1;
    let q = discs_by_path(set_of_discs(title, y)).1;
    assert forall|i: int| 0 <= i < x.len() implies p[i] == q[i] by {
        assert(x.map_values(seen)[i] == y.map_values(seen)[i]);
    }
    assert(p =~= q);
}

proof fn sets_of_key_ignore_order(
    a: Seq<LibraryPlanInput>,
    b: Seq<LibraryPlanInput>,
    k: Seq<Seq<char>>,
    title: Seq<char>,
)
    requires
        rearranged(a, b),
    ensures
        indices_of(disc_keys(a), k).len() == indices_of(disc_keys(b), k).len(),
        ({
            let ia = indices_of(disc_keys(a), k);
            let x = set_of_discs(title, stable_sorted(discs_at(a, ia), disc_order()));
            let ib = indices_of(disc_keys(b), k);
            let y = set_of_discs(title, stable_sorted(discs_at(b, ib), disc_order()));
            &&& discs_by_path(x) == discs_by_path(y)
            &&& totals_agree(a) && ia.len() > 0 ==> set_by_path(x) == set_by_path(y)
            &&& totals_agree(a) && one_spelling(a) ==> x == y
        }),
{
    let le = disc_order();
    let da = discs_at(a, indices_of(disc_keys(a), k));
    let db = discs_at(b, indices_of(disc_keys(b), k));
    let sa = stable_sorted(da, le);
    let sb = stable_sorted(db, le);
    discs_of_key_look_the_same(
        a,
        b,
        k,
        |d: DiscModel| placed(d),
        |q: (nat, Seq<Seq<char>>)| q,
    );
    same_sets_by_path(title, sa, sb);
    if totals_agree(a) {
        let seen = |d: DiscModel| (placed(d), d.total);
        assert forall|i: int, j: int|
            0 <= i < a.len() && 0 <= j < a.len() && disc_key(a[i]) == Some(k) && disc_key(a[j])
                == Some(k) && placed(#[trigger] disc_of(a[i])) == placed(
                #[trigger] disc_of(a[j]),
            ) implies seen(disc_of(a[i])) == seen(disc_of(a[j])) by {
            assert(disc_of(a[i]).part == disc_of(a[j]).part);
        }
        discs_of_key_look_the_same(
            a,
            b,
            k,
            seen,
            |q: ((nat, Seq<Seq<char>>), nat)| q.0,
        );
        crate::platform_evidence_fusion::library_grouping::disc_order_is_preorder();
        crate::order::stable_sorted_props(da, le);
        crate::order::stable_sorted_props(db, le);
        if sa.len() > 0 {
            assert(sb.map_values(seen).len() == sb.len());
            assert(sa.map_values(seen)[0] == seen(sa[0]));
            assert(sb.map_values(seen)[0] == seen(sb[0]));
        }
        if one_spelling(a) {
            let same = |d: DiscModel| d;
            assert forall|i: int, j: int|
                0 <= i < a.len() && 0 <= j < a.len() && disc_key(a[i]) == Some(k) && disc_key(
                    a[j],
                ) == Some(k) && placed(#[trigger] disc_of(a[i])) == placed(
                    #[trigger] disc_of(a[j]),
                ) implies same(disc_of(a[i])) == same(disc_of(a[j])) by {
                assert(disc_of(a[i]).part == disc_of(a[j]).part);
                assert(a[i].source_path@ == a[j].source_path@);
            }
            discs_of_key_look_the_same(a, b, k, same, |q: DiscModel| placed(q));
            assert(sa.map_values(same) =~= sa);
            assert(sb.map_values(same) =~= sb);
        }
    }
}

proof fn sets_of_keys_ignore_order(
    a: Seq<LibraryPlanInput>,
    b: Seq<LibraryPlanInput>,
    keys: Seq<Seq<Seq<char>>>,
)
    requires
        rearranged(a, b),
    ensures
        disc_sets_of_keys(a, keys).map_values(|s: DiscSetModel| discs_by_path(s))
            == disc_sets_of_keys(b, keys).map_values(|s: DiscSetModel| discs_by_path(s)),
        totals_agree(a) ==> disc_sets_of_keys(a, keys).map_values(
            |s: DiscSetModel| set_by_path(s),
        ) == disc_sets_of_keys(b, keys).map_values(|s: DiscSetModel| set_by_path(s)),
        totals_agree(a) && one_spelling(a) ==> disc_sets_of_keys(a, keys) == disc_sets_of_keys(
            b,
            keys,
        ),
    decreases keys.len(),
{
    let f = |s: DiscSetModel| discs_by_path(s);
    let g = |s: DiscSetModel| set_by_path(s);
    let all_a = disc_sets_of_keys(a, keys);
    let all_b = disc_sets_of_keys(b, keys);
    if keys.len() == 0 {
        assert(all_a.map_values(f) =~= all_b.map_values(f));
        assert(all_a.map_values(g) =~= all_b.map_values(g));
    } else {
        let k = keys.last();
        let before_a = disc_sets_of_keys(a, keys.drop_last());
        let before_b = disc_sets_of_keys(b, keys.drop_last());
        sets_of_keys_ignore_order(a, b, keys.drop_last());
        sets_of_key_ignore_order(a, b, k, k[1]);
        let ia = indices_of(disc_keys(a), k);
        let ib = indices_of(disc_keys(b), k);
        if ia.len() >= 2 {
            let x = set_of_discs(k[1], stable_sorted(discs_at(a, ia), disc_order()));
            let y = set_of_discs(k[1], stable_sorted(discs_at(b, ib), disc_order()));
            assert(before_a.push(x).map_values(f) =~= before_a.map_values(f).push(f(x)));
            assert(before_b.push(y).map_values(f) =~= before_b.map_values(f).push(f(y)));
            assert(before_a.push(x).map_values(g) =~= before_a.map_values(g).push(g(x)));
            assert(before_b.push(y).map_values(g) =~= before_b.map_values(g).push(g(y)));
        }
    }
}

/// The multi-disc sets of a library have the same titles and discs in whatever
/// order its files are given. Where no disc is given twice with different
/// declared numbers of discs, these are the same too.
pub proof fn disc_sets_ignore_order(a: Seq<LibraryPlanInput>, b: Seq<LibraryPlanInput>)
    requires
        rearranged(a, b),
    ensures
        disc_sets(a).map_values(|s: DiscSetModel| discs_by_path(s)) == disc_sets(b).map_values(
            |s: DiscSetModel| discs_by_path(s),
        ),
        totals_agree(a) ==> disc_sets(a).map_values(|s: DiscSetModel| set_by_path(s)) == disc_sets(
            b,
        ).map_values(|s: DiscSetModel| set_by_path(s)),
        totals_agree(a) && one_spelling(a) ==> disc_sets(a) == disc_sets(b),
{
    let key = |x: LibraryPlanInput| disc_key(x);
    rearranged_map(a, b, key);
    assert(a.map_values(key) =~= disc_keys(a));
    assert(b.map_values(key) =~= disc_keys(b));
    keys_ignore_order(disc_keys(a), disc_keys(b));
    let keys = distinct_keys(disc_keys(a));
    sets_of_keys_ignore_order(a, b, keys);
    let f = |s: DiscSetModel| discs_by_path(s);
    let g = |s: DiscSetModel| set_by_path(s);
    let le_f = |x: (Seq<char>, Seq<(nat, Seq<Seq<char>>)>), y: (
        Seq<char>,
        Seq<(nat, Seq<Seq<char>>)>,
    )| text_le(x.0, y.0);
    let le_g = |x: ((Seq<char>, Seq<(nat, Seq<Seq<char>>)>), nat), y: (
        (Seq<char>, Seq<(nat, Seq<Seq<char>>)>),
        nat,
    )| text_le(x.0.0, y.0.0);
    stable_sorted_map(disc_sets_of_keys(a, keys), f, title_order(), le_f);
    stable_sorted_map(disc_sets_of_keys(b, keys), f, title_order(), le_f);
    stable_sorted_map(disc_sets_of_keys(a, keys), g, title_order(), le_g);
    stable_sorted_map(disc_sets_of_keys(b, keys), g, title_order(), le_g);
}

// Revisions.

spec fn lineage_key(input: LibraryPlanInput) -> Option<Seq<Seq<char>>> {
    match lineage_of(input) {
        Some((root, _)) => Some(seq![root]),
        None => None,
    }
}

spec fn release_of(input: LibraryPlanInput) -> (Seq<char>, Seq<char>) {
    ((lineage_of(input)->0).1, input.source_path@)
}

/// The root of a lineage, and the names and paths of its releases.
pub open spec fn revision_by_path(group: RevisionModel) -> (
    Seq<char>,
    Seq<(Seq<char>, Seq<Seq<char>>)>,
) {
    (
        group.lineage_root,
        group.releases.map_values(|r: (Seq<char>, Seq<char>)| (r.0, components(r.1))),
    )
}

spec fn named_le(a: (Seq<char>, Seq<Seq<char>>), b: (Seq<char>, Seq<Seq<char>>)) -> bool {
    if a.0 == b.0 {
        components_le(a.1, b.1)
    } else {
        text_le(a.0, b.0)
    }
}

proof fn named_le_laws(
    a: (Seq<char>, Seq<Seq<char>>),
    b: (Seq<char>, Seq<Seq<char>>),
    c: (Seq<char>, Seq<Seq<char>>),
)
    ensures
        named_le(a, b) || named_le(b, a),
        named_le(a, b) && named_le(b, a) ==> a == b,
        named_le(a, b) && named_le(b, c) ==> named_le(a, c),
{
    components_le_total(a.1, b.1);
    text_le_total(a.0, b.0);
    if components_le(a.1, b.1) && components_le(b.1, a.1) {
        components_le_antisymmetric(a.1, b.1);
    }
    if text_le(a.0, b.0) && text_le(b.0, a.0) {
        text_le_antisymmetric(a.0, b.0);
    }
    if components_le(a.1, b.1) && components_le(b.1, c.1) {
        components_le_transitive(a.1, b.1, c.1);
    }
    if text_le(a.0, b.0) && text_le(b.0, c.0) {
        text_le_transitive(a.0, b.0, c.0);
        if a.0 == c.0 {
            text_le_antisymmetric(a.0, b.0);
        }
    }
}

/// The order of releases is a total preorder.
pub proof fn release_order_is_preorder()
    ensures
        is_preorder(release_order()),
{
    let le = release_order();
    let seen = |r: (Seq<char>, Seq<char>)| (r.0, components(r.1));
    assert forall|x: (Seq<char>, Seq<char>), y: (Seq<char>, Seq<char>)| #[trigger] le(x, y)
        || #[trigger] le(y, x) by {
        named_le_laws(seen(x), seen(y), seen(x));
    }
    assert forall|
        x: (Seq<char>, Seq<char>),
        y: (Seq<char>, Seq<char>),
        z: (Seq<char>, Seq<char>),
    | #[trigger] le(x, y) && #[trigger] le(y, z) implies le(x, z) by {
        named_le_laws(seen(x), seen(y), seen(z));
    }
}

proof fn releases_of_key_ignore_order(
    a: Seq<LibraryPlanInput>,
    b: Seq<LibraryPlanInput>,
    k: Seq<Seq<char>>,
)
    requires
        rearranged(a, b),
    ensures
        indices_of(lineage_keys(a), k).len() == indices_of(lineage_keys(b), k).len(),
        ({
            let x = stable_sorted(
                releases_at(a, indices_of(lineage_keys(a), k)),
                release_order(),
            );
            let y = stable_sorted(
                releases_at(b, indices_of(lineage_keys(b), k)),
                release_order(),
            );
            let f = |r: (Seq<char>, Seq<char>)| (r.0, components(r.1));
            &&& x.map_values(f) == y.map_values(f)
            &&& one_spelling(a) ==> x == y
        }),
{
    let key = |x: LibraryPlanInput| lineage_key(x);
    let pay = |x: LibraryPlanInput| release_of(x);
    let seen = |r: (Seq<char>, Seq<char>)| (r.0, components(r.1));
    let same = |r: (Seq<char>, Seq<char>)| r;
    let le = release_order();
    let le_seen = |x: (Seq<char>, Seq<Seq<char>>), y: (Seq<char>, Seq<Seq<char>>)| named_le(x, y);
    picked_by_index(a, key, pay, k);
    picked_by_index(b, key, pay, k);
    assert(a.map_values(key) =~= lineage_keys(a));
    assert(b.map_values(key) =~= lineage_keys(b));
    let ia = indices_of(lineage_keys(a), k);
    let ib = indices_of(lineage_keys(b), k);
    assert(ia.map_values(|i: int| pay(a[i])) =~= releases_at(a, ia));
    assert(ib.map_values(|i: int| pay(b[i])) =~= releases_at(b, ib));
    picked_rearranged(a, b, key, pay, k);
    assert(ia.map_values(|i: int| pay(a[i])).len() == ia.len());
    assert(ib.map_values(|i: int| pay(b[i])).len() == ib.len());
    assert forall|x: (Seq<char>, Seq<Seq<char>>), y: (Seq<char>, Seq<Seq<char>>)| #[trigger]
        le_seen(x, y) || #[trigger] le_seen(y, x) by {
        named_le_laws(x, y, x);
    }
    assert forall|
        x: (Seq<char>, Seq<Seq<char>>),
        y: (Seq<char>, Seq<Seq<char>>),
        z: (Seq<char>, Seq<Seq<char>>),
    | #[trigger] le_seen(x, y) && #[trigger] le_seen(y, z) implies le_seen(x, z) by {
        named_le_laws(x, y, z);
    }
    assert forall|i: int, j: int|
        0 <= i < a.len() && 0 <= j < a.len() && le(
            #[trigger] pay(a[i]),
            #[trigger] pay(a[j]),
        ) && le(pay(a[j]), pay(a[i])) implies seen(pay(a[i])) == seen(pay(a[j])) by {
        named_le_laws(seen(pay(a[i])), seen(pay(a[j])), seen(pay(a[i])));
    }
    sorted_picks_look_the_same(a, b, key, pay, seen, k, le, le_seen);
    if one_spelling(a) {
        assert forall|i: int, j: int|
            0 <= i < a.len() && 0 <= j < a.len() && le(
                #[trigger] pay(a[i]),
                #[trigger] pay(a[j]),
            ) && le(pay(a[j]), pay(a[i])) implies same(pay(a[i])) == same(pay(a[j])) by {
            assert(seen(pay(a[i])) == seen(pay(a[j])));
            assert(a[i].source_path@ == a[j].source_path@);
        }
        release_order_is_preorder();
        sorted_picks_look_the_same(a, b, key, pay, same, k, le, le);
        let x = stable_sorted(releases_at(a, ia), le);
        let y = stable_sorted(releases_at(b, ib), le);
        assert(x.map_values(same) =~= x);
        assert(y.map_values(same) =~= y);
    }
}

proof fn revisions_of_keys_ignore_order(
    a: Seq<LibraryPlanInput>,
    b: Seq<LibraryPlanInput>,
    keys: Seq<Seq<Seq<char>>>,
)
    requires
        rearranged(a, b),
    ensures
        revisions_of_keys(a, keys).map_values(|g: RevisionModel| revision_by_path(g))
            == revisions_of_keys(b, keys).map_values(|g: RevisionModel| revision_by_path(g)),
        one_spelling(a) ==> revisions_of_keys(a, keys) == revisions_of_keys(b, keys),
    decreases keys.len(),
{
    let f = |g: RevisionModel| revision_by_path(g);
    let all_a = revisions_of_keys(a, keys);
    let all_b = revisions_of_keys(b, keys);
    if keys.len() == 0 {
        assert(all_a.map_values(f) =~= all_b.map_values(f));
    } else {
        let k = keys.last();
        revisions_of_keys_ignore_order(a, b, keys.drop_last());
        releases_of_key_ignore_order(a, b, k);
        let before_a = revisions_of_keys(a, keys.drop_last());
        let before_b = revisions_of_keys(b, keys.drop_last());
        let ia = indices_of(lineage_keys(a), k);
        let ib = indices_of(lineage_keys(b), k);
        if ia.len() >= 2 {
            let x = RevisionModel {
                lineage_root: k[0],
                releases: stable_sorted(releases_at(a, ia), release_order()),
            };
            let y = RevisionModel {
                lineage_root: k[0],
                releases: stable_sorted(releases_at(b, ib), release_order()),
            };
            assert(f(x) == f(y));
            assert(before_a.push(x).map_values(f) =~= before_a.map_values(f).push(f(x)));
            assert(before_b.push(y).map_values(f) =~= before_b.map_values(f).push(f(y)));
        }
    }
}

/// The revision groups of a library are the same in whatever order its files
/// are given.
pub proof fn revisions_ignore_order(a: Seq<LibraryPlanInput>, b: Seq<LibraryPlanInput>)
    requires
        rearranged(a, b),
    ensures
        revisions(a).map_values(|g: RevisionModel| revision_by_path(g)) == revisions(b).map_values(
            |g: RevisionModel| revision_by_path(g),
        ),
        one_spelling(a) ==> revisions(a) == revisions(b),
{
    let key = |x: LibraryPlanInput| lineage_key(x);
    rearranged_map(a, b, key);
    assert(a.map_values(key) =~= lineage_keys(a));
    assert(b.map_values(key) =~= lineage_keys(b));
    keys_ignore_order(lineage_keys(a), lineage_keys(b));
    revisions_of_keys_ignore_order(a, b, distinct_keys(lineage_keys(a)));
}

// Duplicates.

/// The key of a file under `class`, unless it is claimed already.
spec fn live_by(
    claimed: spec_fn(LibraryPlanInput) -> bool,
    class: DuplicateClass,
) -> spec_fn(LibraryPlanInput) -> Option<Seq<Seq<char>>> {
    |y: LibraryPlanInput|
        if claimed(y) {
            None
        } else {
            key_of(class, y)
        }
}

/// Which files one more class claims.
spec fn also_claims(
    inputs: Seq<LibraryPlanInput>,
    claimed: spec_fn(LibraryPlanInput) -> bool,
    class: DuplicateClass,
) -> spec_fn(LibraryPlanInput) -> bool {
    |x: LibraryPlanInput|
        claimed(x) || match key_of(class, x) {
            Some(k) => indices_of(inputs.map_values(live_by(claimed, class)), k).len() >= 2,
            None => false,
        }
}

/// Which files the first `n` classes claim, as one of `inputs`.
spec fn claims(inputs: Seq<LibraryPlanInput>, n: nat) -> spec_fn(LibraryPlanInput) -> bool
    decreases n,
{
    if n == 0 {
        |x: LibraryPlanInput| false
    } else {
        also_claims(inputs, claims(inputs, (n - 1) as nat), class_at(n - 1))
    }
}

/// The key of a file under class `n`, unless a stronger class claims it.
spec fn live_key(inputs: Seq<LibraryPlanInput>, n: nat) -> spec_fn(
    LibraryPlanInput,
) -> Option<Seq<Seq<char>>> {
    live_by(claims(inputs, n), class_at(n as int))
}

proof fn claimed_is_claims(inputs: Seq<LibraryPlanInput>, n: nat)
    ensures
        claimed_by(inputs, n).len() == inputs.len(),
        forall|i: int|
            0 <= i < inputs.len() ==> #[trigger] claimed_by(inputs, n)[i] == claims(inputs, n)(
                inputs[i],
            ),
        live_keys(inputs, claimed_by(inputs, n), class_at(n as int)) == inputs.map_values(
            live_key(inputs, n),
        ),
    decreases n,
{
    if n > 0 {
        let m = (n - 1) as nat;
        claimed_is_claims(inputs, m);
        let live = live_keys(inputs, claimed_by(inputs, m), class_at(m as int));
        assert forall|i: int| 0 <= i < inputs.len() implies #[trigger] claimed_by(inputs, n)[i]
            == claims(inputs, n)(inputs[i]) by {
            assert(claimed_by(inputs, m)[i] == claims(inputs, m)(inputs[i]));
            assert(live[i] == live_key(inputs, m)(inputs[i]));
        }
    }
    assert(live_keys(inputs, claimed_by(inputs, n), class_at(n as int)) =~= inputs.map_values(
        live_key(inputs, n),
    ));
}

proof fn count_of_key(live: Seq<Option<Seq<Seq<char>>>>, k: Seq<Seq<char>>)
    ensures
        indices_of(live, k).len() == live.to_multiset().count(Some(k)),
    decreases live.len(),
{
    live.to_multiset_ensures();
    if live.len() == 0 {
        assert(!live.contains(Some(k)));
    } else {
        let init = live.drop_last();
        count_of_key(init, k);
        init.to_multiset_ensures();
        assert(live =~= init.push(live.last()));
    }
}

proof fn claims_ignore_order(a: Seq<LibraryPlanInput>, b: Seq<LibraryPlanInput>, n: nat)
    requires
        rearranged(a, b),
    ensures
        claims(a, n) == claims(b, n),
    decreases n,
{
    if n > 0 {
        let m = (n - 1) as nat;
        claims_ignore_order(a, b, m);
        let f = live_key(a, m);
        rearranged_map(a, b, f);
        assert forall|x: LibraryPlanInput| #[trigger] claims(a, n)(x) == claims(b, n)(x) by {
            match key_of(class_at(m as int), x) {
                Some(k) => {
                    count_of_key(a.map_values(f), k);
                    count_of_key(b.map_values(f), k);
                },
                None => {},
            }
        }
    }
    assert(claims(a, n) =~= claims(b, n));
}

/// A duplicate group with its members as paths.
#[verifier::ext_equal]
pub struct PathGroup {
    pub classification: DuplicateClass,
    pub members: Seq<Seq<Seq<char>>>,
    pub basis: Seq<char>,
    pub confidence: DuplicateGroupConfidence,
}

/// The contents of a duplicate group, with its members as paths.
pub open spec fn group_by_path(group: GroupModel) -> PathGroup {
    PathGroup {
        classification: group.classification,
        members: path_components(group.members),
        basis: group.basis,
        confidence: group.confidence,
    }
}

proof fn members_ignore_order(
    a: Seq<LibraryPlanInput>,
    b: Seq<LibraryPlanInput>,
    key: spec_fn(LibraryPlanInput) -> Option<Seq<Seq<char>>>,
    k: Seq<Seq<char>>,
)
    requires
        rearranged(a, b),
    ensures
        indices_of(a.map_values(key), k).len() == indices_of(b.map_values(key), k).len(),
        ({
            let x = views(
                stable_sorted(paths_at(a, indices_of(a.map_values(key), k)), path_order()),
            );
            let y = views(
                stable_sorted(paths_at(b, indices_of(b.map_values(key), k)), path_order()),
            );
            &&& path_components(x) == path_components(y)
            &&& one_spelling(a) ==> x == y
        }),
{
    let pay = |x: LibraryPlanInput| x.source_path@;
    let le = path_text_order();
    let text = |t: String| t@;
    let seen = |t: Seq<char>| components(t);
    let same = |t: Seq<char>| t;
    let le_seen = |x: Seq<Seq<char>>, y: Seq<Seq<char>>| components_le(x, y);
    let ia = indices_of(a.map_values(key), k);
    let ib = indices_of(b.map_values(key), k);
    picked_by_index(a, key, pay, k);
    picked_by_index(b, key, pay, k);
    assert(ia.map_values(|i: int| pay(a[i])) =~= views(paths_at(a, ia)));
    assert(ib.map_values(|i: int| pay(b[i])) =~= views(paths_at(b, ib)));
    picked_rearranged(a, b, key, pay, k);
    assert(views(paths_at(a, ia)).len() == ia.len());
    assert(views(paths_at(b, ib)).len() == ib.len());
    crate::platform_evidence_fusion::plan_transaction_laws::path_text_order_is_preorder();
    assert forall|x: Seq<Seq<char>>, y: Seq<Seq<char>>| #[trigger] le_seen(x, y)
        || #[trigger] le_seen(y, x) by {
        components_le_total(x, y);
    }
    assert forall|x: Seq<Seq<char>>, y: Seq<Seq<char>>, z: Seq<Seq<char>>| #[trigger] le_seen(x, y)
        && #[trigger] le_seen(y, z) implies le_seen(x, z) by {
        components_le_transitive(x, y, z);
    }
    assert forall|i: int, j: int|
        0 <= i < a.len() && 0 <= j < a.len() && le(
            #[trigger] pay(a[i]),
            #[trigger] pay(a[j]),
        ) && le(pay(a[j]), pay(a[i])) implies seen(pay(a[i])) == seen(pay(a[j])) by {
        components_le_antisymmetric(
            components(a[i].source_path@),
            components(a[j].source_path@),
        );
    }
    sorted_picks_look_the_same(a, b, key, pay, seen, k, le, le_seen);
    stable_sorted_map(paths_at(a, ia), text, path_order(), le);
    stable_sorted_map(paths_at(b, ib), text, path_order(), le);
    if one_spelling(a) {
        assert forall|i: int, j: int|
            0 <= i < a.len() && 0 <= j < a.len() && le(
                #[trigger] pay(a[i]),
                #[trigger] pay(a[j]),
            ) && le(pay(a[j]), pay(a[i])) implies same(pay(a[i])) == same(pay(a[j])) by {
            assert(seen(pay(a[i])) == seen(pay(a[j])));
        }
        sorted_picks_look_the_same(a, b, key, pay, same, k, le, le);
        let x = views(stable_sorted(paths_at(a, ia), path_order()));
        let y = views(stable_sorted(paths_at(b, ib), path_order()));
        assert(x.map_values(same) =~= x);
        assert(y.map_values(same) =~= y);
    }
}

/// `x` and `y` are the same groups by path, and by text if `spelled` holds.
spec fn look_alike(x: Seq<GroupModel>, y: Seq<GroupModel>, spelled: bool) -> bool {
    &&& x.map_values(|g: GroupModel| group_by_path(g)) == y.map_values(
        |g: GroupModel| group_by_path(g),
    )
    &&& spelled ==> x == y
}

proof fn look_alike_push(
    x: Seq<GroupModel>,
    y: Seq<GroupModel>,
    g: GroupModel,
    h: GroupModel,
    spelled: bool,
)
    requires
        look_alike(x, y, spelled),
        group_by_path(g) == group_by_path(h),
        spelled ==> g == h,
    ensures
        look_alike(x.push(g), y.push(h), spelled),
{
    let f = |g: GroupModel| group_by_path(g);
    assert(x.push(g).map_values(f) =~= x.map_values(f).push(f(g)));
    assert(y.push(h).map_values(f) =~= y.map_values(f).push(f(h)));
}

proof fn look_alike_append(
    x: Seq<GroupModel>,
    y: Seq<GroupModel>,
    more_x: Seq<GroupModel>,
    more_y: Seq<GroupModel>,
    spelled: bool,
)
    requires
        look_alike(x, y, spelled),
        look_alike(more_x, more_y, spelled),
    ensures
        look_alike(x + more_x, y + more_y, spelled),
{
    let f = |g: GroupModel| group_by_path(g);
    assert((x + more_x).map_values(f) =~= x.map_values(f) + more_x.map_values(f));
    assert((y + more_y).map_values(f) =~= y.map_values(f) + more_y.map_values(f));
}

proof fn class_ignores_order(
    a: Seq<LibraryPlanInput>,
    b: Seq<LibraryPlanInput>,
    key: spec_fn(LibraryPlanInput) -> Option<Seq<Seq<char>>>,
    keys: Seq<Seq<Seq<char>>>,
    class: DuplicateClass,
)
    requires
        rearranged(a, b),
    ensures
        look_alike(
            reported(a, groups_of_keys(a.map_values(key), keys, class)),
            reported(b, groups_of_keys(b.map_values(key), keys, class)),
            one_spelling(a),
        ),
    decreases keys.len(),
{
    let la = a.map_values(key);
    let lb = b.map_values(key);
    let ga = groups_of_keys(la, keys, class);
    let gb = groups_of_keys(lb, keys, class);
    if keys.len() == 0 {
        assert(reported(a, ga) =~= reported(b, gb));
    } else {
        let k = keys.last();
        class_ignores_order(a, b, key, keys.drop_last(), class);
        members_ignore_order(a, b, key, k);
        let before_a = groups_of_keys(la, keys.drop_last(), class);
        let before_b = groups_of_keys(lb, keys.drop_last(), class);
        let xa = IndexGroup { class, key: k, indices: indices_of(la, k) };
        let xb = IndexGroup { class, key: k, indices: indices_of(lb, k) };
        if indices_of(la, k).len() >= 2 {
            assert(reported(a, before_a.push(xa)) =~= reported(a, before_a).push(
                group_model(a, xa),
            ));
            assert(reported(b, before_b.push(xb)) =~= reported(b, before_b).push(
                group_model(b, xb),
            ));
            look_alike_push(
                reported(a, before_a),
                reported(b, before_b),
                group_model(a, xa),
                group_model(b, xb),
                one_spelling(a),
            );
        }
    }
}

proof fn reports_ignore_order(a: Seq<LibraryPlanInput>, b: Seq<LibraryPlanInput>, n: nat)
    requires
        rearranged(a, b),
    ensures
        look_alike(
            reported(a, groups_by(a, n)),
            reported(b, groups_by(b, n)),
            one_spelling(a),
        ),
    decreases n,
{
    if n == 0 {
        assert(reported(a, groups_by(a, n)) =~= reported(b, groups_by(b, n)));
    } else {
        let m = (n - 1) as nat;
        let class = class_at(m as int);
        reports_ignore_order(a, b, m);
        claims_ignore_order(a, b, m);
        claimed_is_claims(a, m);
        claimed_is_claims(b, m);
        let f = live_key(a, m);
        rearranged_map(a, b, f);
        keys_ignore_order(a.map_values(f), b.map_values(f));
        class_ignores_order(a, b, f, distinct_keys(a.map_values(f)), class);
        let ca = class_groups(a, claimed_by(a, m), class);
        let cb = class_groups(b, claimed_by(b, m), class);
        assert(reported(a, groups_by(a, m) + ca) =~= reported(a, groups_by(a, m)) + reported(
            a,
            ca,
        ));
        assert(reported(b, groups_by(b, m) + cb) =~= reported(b, groups_by(b, m)) + reported(
            b,
            cb,
        ));
        look_alike_append(
            reported(a, groups_by(a, m)),
            reported(b, groups_by(b, m)),
            reported(a, ca),
            reported(b, cb),
            one_spelling(a),
        );
    }
}

spec fn path_lists_le(a: Seq<Seq<Seq<char>>>, b: Seq<Seq<Seq<char>>>) -> bool
    decreases a.len(),
{
    if a.len() == 0 {
        true
    } else if b.len() == 0 {
        false
    } else if a[0] == b[0] {
        path_lists_le(a.drop_first(), b.drop_first())
    } else {
        components_le(a[0], b[0])
    }
}

proof fn members_rank_by_path(a: Seq<Seq<char>>, b: Seq<Seq<char>>)
    ensures
        members_le(a, b) == path_lists_le(path_components(a), path_components(b)),
    decreases a.len(),
{
    if a.len() > 0 && b.len() > 0 {
        members_rank_by_path(a.drop_first(), b.drop_first());
        assert(path_components(a).drop_first() =~= path_components(a.drop_first()));
        assert(path_components(b).drop_first() =~= path_components(b.drop_first()));
    }
}

/// The duplicate groups of a library are the same in whatever order its files
/// are given.
pub proof fn duplicates_ignore_order(a: Seq<LibraryPlanInput>, b: Seq<LibraryPlanInput>)
    requires
        rearranged(a, b),
    ensures
        duplicates(a).map_values(|g: GroupModel| group_by_path(g)) == duplicates(b).map_values(
            |g: GroupModel| group_by_path(g),
        ),
        one_spelling(a) ==> duplicates(a) == duplicates(b),
{
    let f = |g: GroupModel| group_by_path(g);
    let le = model_order();
    let le_path = |x: PathGroup, y: PathGroup|
        x.classification.rank() < y.classification.rank() || (x.classification.rank()
            == y.classification.rank() && path_lists_le(x.members, y.members));
    reports_ignore_order(a, b, 6);
    assert forall|x: GroupModel, y: GroupModel| #[trigger] le(x, y) == le_path(f(x), f(y)) by {
        members_rank_by_path(x.members, y.members);
    }
    stable_sorted_map(reported(a, groups_by(a, 6)), f, le, le_path);
    stable_sorted_map(reported(b, groups_by(b, 6)), f, le, le_path);
}

} // verus!
