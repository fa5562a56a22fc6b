//! What multi-disc sets and lineages hold, file by file.
use vstd::prelude::*;
use crate::dat::audit::AuditVerdict;
use crate::grouping::{distinct_keys, distinct_keys_props, indices_of, indices_of_props};
use crate::order::{is_preorder, stable_sorted, stable_sorted_props};
use crate::path::path_le;
use crate::platform_evidence_fusion::dat_hash_representation::RepresentationMatchOutcome;
use crate::platform_evidence_fusion::identity_orchestrator::IdentityResult;
use crate::platform_evidence_fusion::library_grouping::{
    disc_key, disc_keys, disc_order, disc_order_is_preorder, disc_parts, disc_sets,
    disc_sets_of_keys, discs_at, exact_match, lineage_keys, lineage_of, release_order, releases_at,
    revisions, revisions_of_keys, set_of_discs, title_order, DiscSetModel, RevisionModel,
};
use crate::platform_evidence_fusion::library_planning::{settled_id, LibraryPlanInput};
use crate::platform_evidence_fusion::order_laws::{disc_of, release_order_is_preorder};
use crate::platform_evidence_fusion::release_relationship::ReleaseRelationship;
use crate::text::{text_le, text_le_total, text_le_transitive};

verus! {

/// The verdict is an exact match of this game and rom entry.
pub open spec fn names_exactly(verdict: AuditVerdict, game: Seq<char>, rom: Seq<char>) -> bool {
    verdict matches AuditVerdict::Exact { game_name, rom_name, .. } && game_name@ == game
        && rom_name@ == rom
}

/// A file has a release exactly when a hash match that nothing contradicts names
/// it exactly; a disagreement, several candidates, or a checksum alone, never
/// does.
pub proof fn only_uncontradicted_exact_matches_are_releases(
    identity: IdentityResult,
    game: Seq<char>,
    rom: Seq<char>,
)
    ensures
        exact_match(identity) == Some((game, rom)) <==> match identity.representation_match {
            Some(RepresentationMatchOutcome::PhysicalOnly { verdict }) => names_exactly(
                verdict,
                game,
                rom,
            ),
            Some(RepresentationMatchOutcome::NormalizedOnly { verdict }) => names_exactly(
                verdict,
                game,
                rom,
            ),
            Some(RepresentationMatchOutcome::BothAgree { verdict, .. }) => names_exactly(
                verdict,
                game,
                rom,
            ),
            Some(RepresentationMatchOutcome::Disagree { .. }) => false,
            Some(RepresentationMatchOutcome::NoMatch) => false,
            None => false,
        },
{
}

/// The file is this disc of the title on the platform, by the title its release
/// has in the DAT.
pub open spec fn is_disc(
    input: LibraryPlanInput,
    platform: Seq<char>,
    title: Seq<char>,
    part: nat,
    total: nat,
) -> bool {
    &&& settled_id(input.identity) == Some(platform)
    &&& exact_match(input.identity) matches Some((game, _))
        && crate::dat::classification::multidisc_parts(game) == Some((title, part, total))
}

/// The set has the discs of this title on this platform: each of its entries is
/// such a file, each such file is an entry, and its declared total is the one
/// that the title of its first entry states.
pub open spec fn holds_title(
    set: DiscSetModel,
    inputs: Seq<LibraryPlanInput>,
    platform: Seq<char>,
) -> bool {
    let title = set.base_title;
    &&& set.discs.len() >= 2
    &&& forall|d: int|
        0 <= d < set.discs.len() ==> exists|i: int|
            0 <= i < inputs.len() && (#[trigger] inputs[i]).source_path@ == (
            #[trigger] set.discs[d]).1 && is_disc_part(inputs[i], platform, title, set.discs[d].0)
    &&& forall|i: int|
        0 <= i < inputs.len() ==> match disc_parts((#[trigger] inputs[i]).identity) {
            Some((base, part, _)) => base == title && settled_id(inputs[i].identity) == Some(
                platform,
            ) ==> set.discs.contains((part, inputs[i].source_path@)),
            None => true,
        }
    &&& forall|d: int, e: int|
        0 <= d < e < set.discs.len() ==> (#[trigger] set.discs[d]).0 < (
        #[trigger] set.discs[e]).0 || (set.discs[d].0 == set.discs[e].0 && path_le(
            set.discs[d].1,
            set.discs[e].1,
        ))
    &&& exists|i: int|
        0 <= i < inputs.len() && (#[trigger] inputs[i]).source_path@ == set.discs[0].1 && is_disc(
            inputs[i],
            platform,
            title,
            set.discs[0].0,
            set.declared_total,
        )
}

/// The set has the discs of its title on some platform.
pub open spec fn holds_some_title(set: DiscSetModel, inputs: Seq<LibraryPlanInput>) -> bool {
    exists|platform: Seq<char>| #[trigger] holds_title(set, inputs, platform)
}

/// The file is this part of the title, of however many.
pub open spec fn is_disc_part(
    input: LibraryPlanInput,
    platform: Seq<char>,
    title: Seq<char>,
    part: nat,
) -> bool {
    exists|total: nat| #[trigger] is_disc(input, platform, title, part, total)
}

proof fn sets_of_keys_props(inputs: Seq<LibraryPlanInput>, keys: Seq<Seq<Seq<char>>>)
    ensures
        forall|p: int|
            0 <= p < disc_sets_of_keys(inputs, keys).len() ==> comes_from_key(
                inputs,
                keys,
                #[trigger] disc_sets_of_keys(inputs, keys)[p],
            ),
        forall|n: int|
            0 <= n < keys.len() && indices_of(disc_keys(inputs), #[trigger] keys[n]).len() >= 2
                ==> disc_sets_of_keys(inputs, keys).contains(set_of_key(inputs, keys[n])),
    decreases keys.len(),
{
    if keys.len() > 0 {
        let rest = keys.drop_last();
        let before = disc_sets_of_keys(inputs, rest);
        let all = disc_sets_of_keys(inputs, keys);
        sets_of_keys_props(inputs, rest);
        assert forall|p: int| 0 <= p < all.len() implies comes_from_key(
            inputs,
            keys,
            #[trigger] all[p],
        ) by {
            if p < before.len() {
                assert(all[p] == before[p]);
                assert(comes_from_key(inputs, rest, before[p]));
                let n = choose|n: int|
                    0 <= n < rest.len() && indices_of(disc_keys(inputs), #[trigger] rest[n]).len()
                        >= 2 && before[p] == set_of_key(inputs, rest[n]);
                assert(keys[n] == rest[n]);
            } else {
                assert(keys[keys.len() - 1] == keys.last());
            }
        }
        assert forall|n: int|
            0 <= n < keys.len() && indices_of(disc_keys(inputs), #[trigger] keys[n]).len()
                >= 2 implies all.contains(set_of_key(inputs, keys[n])) by {
            if n < rest.len() {
                assert(rest[n] == keys[n]);
                let p = choose|p: int|
                    0 <= p < before.len() && before[p] == set_of_key(inputs, rest[n]);
                assert(all[p] == before[p]);
            } else {
                assert(all[all.len() - 1] == set_of_key(inputs, keys[n]));
            }
        }
    }
}

spec fn set_of_key(inputs: Seq<LibraryPlanInput>, k: Seq<Seq<char>>) -> DiscSetModel {
    set_of_discs(
        k[1],
        stable_sorted(discs_at(inputs, indices_of(disc_keys(inputs), k)), disc_order()),
    )
}

spec fn comes_from_key(
    inputs: Seq<LibraryPlanInput>,
    keys: Seq<Seq<Seq<char>>>,
    set: DiscSetModel,
) -> bool {
    exists|n: int|
        0 <= n < keys.len() && indices_of(disc_keys(inputs), #[trigger] keys[n]).len() >= 2 && set
            == set_of_key(inputs, keys[n])
}

proof fn title_order_is_preorder()
    ensures
        is_preorder(title_order()),
{
    let le = title_order();
    assert forall|a: DiscSetModel, b: DiscSetModel| #[trigger] le(a, b) || #[trigger] le(b, a) by {
        text_le_total(a.base_title, b.base_title);
    }
    assert forall|a: DiscSetModel, b: DiscSetModel, c: DiscSetModel| #[trigger] le(a, b)
        && #[trigger] le(b, c) implies le(a, c) by {
        text_le_transitive(a.base_title, b.base_title, c.base_title);
    }
}

proof fn set_of_key_holds_title(inputs: Seq<LibraryPlanInput>, k: Seq<Seq<char>>)
    requires
        indices_of(disc_keys(inputs), k).len() >= 2,
    ensures
        k.len() == 2,
        holds_title(set_of_key(inputs, k), inputs, k[0]),
        set_of_key(inputs, k).discs.len() == indices_of(disc_keys(inputs), k).len(),
{
    let live = disc_keys(inputs);
    let at = indices_of(live, k);
    let found = discs_at(inputs, at);
    let sorted = stable_sorted(found, disc_order());
    let set = set_of_key(inputs, k);
    indices_of_props(live, k);
    disc_order_is_preorder();
    stable_sorted_props(found, disc_order());
    sorted.to_multiset_ensures();
    found.to_multiset_ensures();
    assert(live[at[0]] == Some(k));
    assert(disc_key(inputs[at[0]]) == Some(k));
    assert forall|d: int| 0 <= d < sorted.len() implies exists|n: int|
        0 <= n < at.len() && sorted[d] == disc_of(inputs[#[trigger] at[n]]) && is_disc(
            inputs[at[n]],
            k[0],
            k[1],
            (#[trigger] sorted[d]).part,
            sorted[d].total,
        ) by {
        assert(sorted.contains(sorted[d]));
        assert(found.to_multiset().count(sorted[d]) > 0);
        assert(found.contains(sorted[d]));
        let n = choose|n: int| 0 <= n < found.len() && found[n] == sorted[d];
        assert(live[at[n]] == Some(k));
        assert(disc_key(inputs[at[n]]) == Some(k));
        assert(found[n] == disc_of(inputs[at[n]]));
    }
    assert forall|d: int| 0 <= d < set.discs.len() implies exists|i: int|
        0 <= i < inputs.len() && (#[trigger] inputs[i]).source_path@ == (
        #[trigger] set.discs[d]).1 && is_disc_part(inputs[i], k[0], k[1], set.discs[d].0) by {
        assert(set.discs[d] == (sorted[d].part, sorted[d].path));
        let n = choose|n: int|
            0 <= n < at.len() && sorted[d] == disc_of(inputs[#[trigger] at[n]]) && is_disc(
                inputs[at[n]],
                k[0],
                k[1],
                sorted[d].part,
                sorted[d].total,
            );
        assert(inputs[at[n]].source_path@ == set.discs[d].1);
    }
    assert forall|i: int| 0 <= i < inputs.len() implies match disc_parts(
        (#[trigger] inputs[i]).identity,
    ) {
        Some((base, part, _)) => base == k[1] && settled_id(inputs[i].identity) == Some(k[0])
            ==> set.discs.contains((part, inputs[i].source_path@)),
        None => true,
    } by {
        if let Some((base, part, total)) = disc_parts(inputs[i].identity) {
            if base == k[1] && settled_id(inputs[i].identity) == Some(k[0]) {
                assert(disc_key(inputs[i])->0 =~= k);
                assert(live[i] == Some(k));
                assert(at.contains(i));
                let n = choose|n: int| 0 <= n < at.len() && at[n] == i;
                assert(found[n] == disc_of(inputs[i]));
                assert(found.contains(found[n]));
                assert(sorted.to_multiset().count(found[n]) > 0);
                assert(sorted.contains(found[n]));
                let d = choose|d: int| 0 <= d < sorted.len() && sorted[d] == found[n];
                assert(set.discs[d] == (part, inputs[i].source_path@));
            }
        }
    }
    assert forall|d: int, e: int| 0 <= d < e < set.discs.len() implies (
    #[trigger] set.discs[d]).0 < (#[trigger] set.discs[e]).0 || (set.discs[d].0 == set.discs[e].0
        && path_le(set.discs[d].1, set.discs[e].1)) by {
        assert(set.discs[d] == (sorted[d].part, sorted[d].path));
        assert(set.discs[e] == (sorted[e].part, sorted[e].path));
        assert(disc_order()(sorted[d], sorted[e]));
    }
    let n = choose|n: int|
        0 <= n < at.len() && sorted[0] == disc_of(inputs[#[trigger] at[n]]) && is_disc(
            inputs[at[n]],
            k[0],
            k[1],
            sorted[0].part,
            sorted[0].total,
        );
    assert(set.discs[0] == (sorted[0].part, sorted[0].path));
    assert(inputs[at[n]].source_path@ == set.discs[0].1);
}

/// Every multi-disc set has the discs of one title on one platform, as
/// [`holds_title`] says; and every title of which a platform has two files or
/// more has its set. Sets come in order of their titles.
pub proof fn disc_sets_hold_their_titles(inputs: Seq<LibraryPlanInput>)
    ensures
        forall|p: int|
            0 <= p < disc_sets(inputs).len() ==> holds_some_title(
                #[trigger] disc_sets(inputs)[p],
                inputs,
            ),
        forall|i: int, j: int, platform: Seq<char>, title: Seq<char>, m: nat, n: nat, x: nat, y: nat|
            0 <= i < j < inputs.len() && #[trigger] is_disc(inputs[i], platform, title, m, x)
                && #[trigger] is_disc(inputs[j], platform, title, n, y) ==> exists|p: int|
                0 <= p < disc_sets(inputs).len() && (#[trigger] disc_sets(inputs)[p]).base_title
                    == title && holds_title(disc_sets(inputs)[p], inputs, platform),
        forall|p: int, q: int|
            0 <= p < q < disc_sets(inputs).len() ==> text_le(
                (#[trigger] disc_sets(inputs)[p]).base_title,
                (#[trigger] disc_sets(inputs)[q]).base_title,
            ),
{
    let live = disc_keys(inputs);
    let keys = distinct_keys(live);
    let listed = disc_sets_of_keys(inputs, keys);
    let sets = disc_sets(inputs);
    sets_of_keys_props(inputs, keys);
    title_order_is_preorder();
    stable_sorted_props(listed, title_order());
    sets.to_multiset_ensures();
    listed.to_multiset_ensures();
    distinct_keys_props(live);
    assert forall|p: int| 0 <= p < sets.len() implies holds_some_title(
        #[trigger] sets[p],
        inputs,
    ) by {
        assert(sets.contains(sets[p]));
        assert(listed.to_multiset().count(sets[p]) > 0);
        assert(listed.contains(sets[p]));
        let q = choose|q: int| 0 <= q < listed.len() && listed[q] == sets[p];
        assert(comes_from_key(inputs, keys, listed[q]));
        let n = choose|n: int|
            0 <= n < keys.len() && indices_of(live, #[trigger] keys[n]).len() >= 2 && listed[q]
                == set_of_key(inputs, keys[n]);
        set_of_key_holds_title(inputs, keys[n]);
    }
    assert forall|
        i: int,
        j: int,
        platform: Seq<char>,
        title: Seq<char>,
        m: nat,
        n: nat,
        x: nat,
        y: nat,
    |
        0 <= i < j < inputs.len() && #[trigger] is_disc(inputs[i], platform, title, m, x)
            && #[trigger] is_disc(inputs[j], platform, title, n, y) implies exists|p: int|
        0 <= p < sets.len() && (#[trigger] sets[p]).base_title == title && holds_title(
            sets[p],
            inputs,
            platform,
        ) by {
        let k = seq![platform, title];
        assert(disc_key(inputs[i])->0 =~= k);
        assert(disc_key(inputs[j])->0 =~= k);
        assert(live[i] == Some(k) && live[j] == Some(k));
        assert(live.contains(Some(k)));
        assert(keys.contains(k));
        indices_of_props(live, k);
        let at = indices_of(live, k);
        assert(at.contains(i) && at.contains(j));
        let a = choose|a: int| 0 <= a < at.len() && at[a] == i;
        let b = choose|b: int| 0 <= b < at.len() && at[b] == j;
        assert(a != b);
        let q = choose|q: int| 0 <= q < keys.len() && keys[q] == k;
        assert(listed.contains(set_of_key(inputs, keys[q])));
        set_of_key_holds_title(inputs, k);
        assert(sets.to_multiset().count(set_of_key(inputs, k)) > 0);
        assert(sets.contains(set_of_key(inputs, k)));
        let p = choose|p: int| 0 <= p < sets.len() && sets[p] == set_of_key(inputs, k);
        assert(sets[p].base_title == title);
    }
    assert forall|p: int, q: int| 0 <= p < q < sets.len() implies text_le(
        (#[trigger] sets[p]).base_title,
        (#[trigger] sets[q]).base_title,
    ) by {
        assert(title_order()(sets[p], sets[q]));
    }
}

/// Where all files of a title state the same number of discs, that number is
/// what its set declares, whichever discs are there.
pub proof fn declared_totals_are_what_the_titles_state(
    inputs: Seq<LibraryPlanInput>,
    p: int,
    total: nat,
)
    requires
        0 <= p < disc_sets(inputs).len(),
        forall|i: int, platform: Seq<char>, part: nat, stated: nat|
            0 <= i < inputs.len() && #[trigger] is_disc(
                inputs[i],
                platform,
                disc_sets(inputs)[p].base_title,
                part,
                stated,
            ) ==> stated == total,
    ensures
        disc_sets(inputs)[p].declared_total == total,
{
    disc_sets_hold_their_titles(inputs);
    let set = disc_sets(inputs)[p];
    assert(holds_some_title(set, inputs));
    let platform = choose|platform: Seq<char>| #[trigger] holds_title(set, inputs, platform);
    let i = choose|i: int|
        0 <= i < inputs.len() && (#[trigger] inputs[i]).source_path@ == set.discs[0].1 && is_disc(
            inputs[i],
            platform,
            set.base_title,
            set.discs[0].0,
            set.declared_total,
        );
    assert(is_disc(inputs[i], platform, set.base_title, set.discs[0].0, set.declared_total));
}

/// The file's release belongs to this lineage under this name: it is a clone of
/// the root, or is the root and has no parent.
pub open spec fn is_release(
    input: LibraryPlanInput,
    root: Seq<char>,
    name: Seq<char>,
) -> bool {
    match input.release_relationship {
        Some(ReleaseRelationship::CloneOf { game_name, parent }) => game_name@ == name && parent@
            == root,
        Some(ReleaseRelationship::Canonical { game_name }) => game_name@ == name && name == root,
        Some(ReleaseRelationship::Unknown) => false,
        None => false,
    }
}

/// The group has the releases of this lineage: each of its entries is one, and
/// each one is an entry. They come in order of name, then of path.
pub open spec fn holds_lineage(group: RevisionModel, inputs: Seq<LibraryPlanInput>) -> bool {
    let root = group.lineage_root;
    &&& group.releases.len() >= 2
    &&& forall|r: int|
        0 <= r < group.releases.len() ==> exists|i: int|
            0 <= i < inputs.len() && (#[trigger] inputs[i]).source_path@ == (
            #[trigger] group.releases[r]).1 && is_release(inputs[i], root, group.releases[r].0)
    &&& forall|i: int, name: Seq<char>|
        0 <= i < inputs.len() && #[trigger] is_release(inputs[i], root, name)
            ==> group.releases.contains((name, inputs[i].source_path@))
    &&& forall|r: int, t: int|
        0 <= r < t < group.releases.len() ==> if (#[trigger] group.releases[r]).0 == (
        #[trigger] group.releases[t]).0 {
            path_le(group.releases[r].1, group.releases[t].1)
        } else {
            text_le(group.releases[r].0, group.releases[t].0)
        }
}

spec fn group_of_key(inputs: Seq<LibraryPlanInput>, k: Seq<Seq<char>>) -> RevisionModel {
    RevisionModel {
        lineage_root: k[0],
        releases: stable_sorted(
            releases_at(inputs, indices_of(lineage_keys(inputs), k)),
            release_order(),
        ),
    }
}

spec fn group_from_key(
    inputs: Seq<LibraryPlanInput>,
    keys: Seq<Seq<Seq<char>>>,
    group: RevisionModel,
) -> bool {
    exists|n: int|
        0 <= n < keys.len() && indices_of(lineage_keys(inputs), #[trigger] keys[n]).len() >= 2
            && group == group_of_key(inputs, keys[n])
}

proof fn groups_of_keys_props(inputs: Seq<LibraryPlanInput>, keys: Seq<Seq<Seq<char>>>)
    ensures
        forall|p: int|
            0 <= p < revisions_of_keys(inputs, keys).len() ==> group_from_key(
                inputs,
                keys,
                #[trigger] revisions_of_keys(inputs, keys)[p],
            ),
        forall|n: int|
            0 <= n < keys.len() && indices_of(lineage_keys(inputs), #[trigger] keys[n]).len() >= 2
                ==> revisions_of_keys(inputs, keys).contains(group_of_key(inputs, keys[n])),
    decreases keys.len(),
{
    if keys.len() > 0 {
        let rest = keys.drop_last();
        let before = revisions_of_keys(inputs, rest);
        let all = revisions_of_keys(inputs, keys);
        groups_of_keys_props(inputs, rest);
        assert forall|p: int| 0 <= p < all.len() implies group_from_key(
            inputs,
            keys,
            #[trigger] all[p],
        ) by {
            if p < before.len() {
                assert(all[p] == before[p]);
                assert(group_from_key(inputs, rest, before[p]));
                let n = choose|n: int|
                    0 <= n < rest.len() && indices_of(lineage_keys(inputs), #[trigger] rest[n]).len()
                        >= 2 && before[p] == group_of_key(inputs, rest[n]);
                assert(keys[n] == rest[n]);
            } else {
                assert(keys[keys.len() - 1] == keys.last());
            }
        }
        assert forall|n: int|
            0 <= n < keys.len() && indices_of(lineage_keys(inputs), #[trigger] keys[n]).len()
                >= 2 implies all.contains(group_of_key(inputs, keys[n])) by {
            if n < rest.len() {
                assert(rest[n] == keys[n]);
                let p = choose|p: int|
                    0 <= p < before.len() && before[p] == group_of_key(inputs, rest[n]);
                assert(all[p] == before[p]);
            } else {
                assert(all[all.len() - 1] == group_of_key(inputs, keys[n]));
            }
        }
    }
}

proof fn lineage_is_release(input: LibraryPlanInput, root: Seq<char>, name: Seq<char>)
    ensures
        lineage_of(input) == Some((root, name)) <==> is_release(input, root, name),
{
}

proof fn group_of_key_holds_lineage(inputs: Seq<LibraryPlanInput>, k: Seq<Seq<char>>)
    requires
        indices_of(lineage_keys(inputs), k).len() >= 2,
    ensures
        k.len() == 1,
        holds_lineage(group_of_key(inputs, k), inputs),
{
    let live = lineage_keys(inputs);
    let at = indices_of(live, k);
    let found = releases_at(inputs, at);
    let group = group_of_key(inputs, k);
    let sorted = group.releases;
    indices_of_props(live, k);
    release_order_is_preorder();
    stable_sorted_props(found, release_order());
    sorted.to_multiset_ensures();
    found.to_multiset_ensures();
    assert(live[at[0]] == Some(k));
    assert forall|r: int| 0 <= r < sorted.len() implies exists|i: int|
        0 <= i < inputs.len() && (#[trigger] inputs[i]).source_path@ == (#[trigger] sorted[r]).1
            && is_release(inputs[i], k[0], sorted[r].0) by {
        assert(sorted.contains(sorted[r]));
        assert(found.to_multiset().count(sorted[r]) > 0);
        assert(found.contains(sorted[r]));
        let n = choose|n: int| 0 <= n < found.len() && found[n] == sorted[r];
        assert(live[at[n]] == Some(k));
        lineage_is_release(inputs[at[n]], k[0], sorted[r].0);
        assert((lineage_of(inputs[at[n]])->0).0 == k[0]);
        assert(inputs[at[n]].source_path@ == sorted[r].1);
    }
    assert forall|i: int, name: Seq<char>|
        0 <= i < inputs.len() && #[trigger] is_release(inputs[i], k[0], name) implies sorted.contains(
        (name, inputs[i].source_path@),
    ) by {
        lineage_is_release(inputs[i], k[0], name);
        assert(live[i]->0 =~= k);
        assert(live[i] == Some(k));
        assert(at.contains(i));
        let n = choose|n: int| 0 <= n < at.len() && at[n] == i;
        assert(found[n] == (name, inputs[i].source_path@));
        assert(found.contains(found[n]));
        assert(sorted.to_multiset().count(found[n]) > 0);
    }
    assert forall|r: int, t: int| 0 <= r < t < sorted.len() implies if (#[trigger] sorted[r]).0 == (
    #[trigger] sorted[t]).0 {
        path_le(sorted[r].1, sorted[t].1)
    } else {
        text_le(sorted[r].0, sorted[t].0)
    } by {
        assert(release_order()(sorted[r], sorted[t]));
    }
}

/// Every revision group has the releases of one lineage, as [`holds_lineage`]
/// says; and every lineage with two files or more has its group.
pub proof fn revision_groups_hold_their_lineages(inputs: Seq<LibraryPlanInput>)
    ensures
        forall|p: int|
            0 <= p < revisions(inputs).len() ==> holds_lineage(
                #[trigger] revisions(inputs)[p],
                inputs,
            ),
        forall|i: int, j: int, root: Seq<char>, x: Seq<char>, y: Seq<char>|
            0 <= i < j < inputs.len() && #[trigger] is_release(inputs[i], root, x)
                && #[trigger] is_release(inputs[j], root, y) ==> exists|p: int|
                0 <= p < revisions(inputs).len() && (#[trigger] revisions(inputs)[p]).lineage_root
                    == root,
{
    let live = lineage_keys(inputs);
    let keys = distinct_keys(live);
    let groups = revisions(inputs);
    groups_of_keys_props(inputs, keys);
    distinct_keys_props(live);
    assert forall|p: int| 0 <= p < groups.len() implies holds_lineage(
        #[trigger] groups[p],
        inputs,
    ) by {
        assert(group_from_key(inputs, keys, groups[p]));
        let n = choose|n: int|
            0 <= n < keys.len() && indices_of(live, #[trigger] keys[n]).len() >= 2 && groups[p]
                == group_of_key(inputs, keys[n]);
        group_of_key_holds_lineage(inputs, keys[n]);
    }
    assert forall|i: int, j: int, root: Seq<char>, x: Seq<char>, y: Seq<char>|
        0 <= i < j < inputs.len() && #[trigger] is_release(inputs[i], root, x)
            && #[trigger] is_release(inputs[j], root, y) implies exists|p: int|
        0 <= p < groups.len() && (#[trigger] groups[p]).lineage_root == root by {
        let k = seq![root];
        lineage_is_release(inputs[i], root, x);
        lineage_is_release(inputs[j], root, y);
        assert(live[i]->0 =~= k && live[j]->0 =~= k);
        assert(live[i] == Some(k) && live[j] == Some(k));
        assert(live.contains(Some(k)));
        indices_of_props(live, k);
        let at = indices_of(live, k);
        assert(at.contains(i) && at.contains(j));
        let a = choose|a: int| 0 <= a < at.len() && at[a] == i;
        let b = choose|b: int| 0 <= b < at.len() && at[b] == j;
        assert(a != b);
        assert(keys.contains(k));
        let q = choose|q: int| 0 <= q < keys.len() && keys[q] == k;
        assert(groups.contains(group_of_key(inputs, keys[q])));
        let p = choose|p: int| 0 <= p < groups.len() && groups[p] == group_of_key(inputs, k);
        assert(groups[p].lineage_root == root);
    }
}

} // verus!
