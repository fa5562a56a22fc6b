//! Games, releases and multi-disc sets, from confident DAT matches only.
//!
//! A file without an exact DAT match is never put into a set, however much its
//! name looks like one.
use vstd::prelude::*;
use vstd::string::*;
use crate::dat::audit::AuditVerdict;
use crate::dat::classification::{multidisc_group_key, multidisc_parts};
use crate::grouping::{
    distinct_keys, distinct_keys_props, indices_of, indices_of_props, indices_with, ints,
    key_views, live_views, opt_key, sorted_keys,
};
use crate::order::{
    is_preorder, is_sorted, stable_sort, stable_sorted, stable_sorted_map, stable_sorted_props,
};
use crate::path::{
    components_le_total, components_le_transitive, components, path_at_most, path_le,
};
use crate::platform_evidence_fusion::dat_hash_representation::RepresentationMatchOutcome;
use crate::platform_evidence_fusion::identity_orchestrator::IdentityResult;
use crate::platform_evidence_fusion::library_planning::{
    settled_id, settled_platform, LibraryPlanInput,
};
use crate::platform_evidence_fusion::release_relationship::ReleaseRelationship;
use crate::text::{opt_view, same_text, text_at_most, text_le, views};

verus! {

/// The DAT game and rom entry a confident, uncontradicted hash match names
/// exactly.
pub open spec fn exact_match(identity: IdentityResult) -> Option<(Seq<char>, Seq<char>)> {
    match identity.representation_match {
        Some(RepresentationMatchOutcome::PhysicalOnly { verdict }) => exact_names(verdict),
        Some(RepresentationMatchOutcome::NormalizedOnly { verdict }) => exact_names(verdict),
        Some(RepresentationMatchOutcome::BothAgree { verdict, .. }) => exact_names(verdict),
        _ => None,
    }
}

/// The game and rom entry of an exact verdict.
pub open spec fn exact_names(verdict: AuditVerdict) -> Option<(Seq<char>, Seq<char>)> {
    match verdict {
        AuditVerdict::Exact { game_name, rom_name, .. } => Some((game_name@, rom_name@)),
        _ => None,
    }
}

/// The views of an optional pair of strings.
pub open spec fn opt_pair(p: Option<(&str, &str)>) -> Option<(Seq<char>, Seq<char>)> {
    match p {
        Some((a, b)) => Some((a@, b@)),
        None => None,
    }
}

fn names_of<'a>(verdict: &'a AuditVerdict) -> (r: Option<(&'a str, &'a str)>)
    ensures
        opt_pair(r) == exact_names(*verdict),
{
    match verdict {
        AuditVerdict::Exact { game_name, rom_name, .. } => Some(
            (game_name.as_str(), rom_name.as_str()),
        ),
        _ => None,
    }
}

/// The DAT game and rom entry a confident, uncontradicted hash match names
/// exactly.
pub fn exact_release<'a>(identity: &'a IdentityResult) -> (r: Option<(&'a str, &'a str)>)
    ensures
        opt_pair(r) == exact_match(*identity),
{
    match &identity.representation_match {
        Some(RepresentationMatchOutcome::PhysicalOnly { verdict }) => names_of(verdict),
        Some(RepresentationMatchOutcome::NormalizedOnly { verdict }) => names_of(verdict),
        Some(RepresentationMatchOutcome::BothAgree { verdict, .. }) => names_of(verdict),
        _ => None,
    }
}


/// Which set a file belongs to, if any.
#[derive(Debug, Clone, PartialEq, Eq)]
pub enum SetMembership {
    SingleFile,
    /// One disc of a title whose DAT name ends in `(Disc N of M)`.
    MultiDiscPart { base_title: String, part: u16, total: u16 },
}

/// What is known of one file, from platform down to set.
#[derive(Debug, Clone, PartialEq, Eq)]
pub struct GameReleaseSetHierarchy {
    pub platform: Option<String>,
    /// The exact DAT title, else the original base name.
    pub game_label: String,
    /// Whether `game_label` is the DAT title.
    pub game_label_is_dat_confirmed: bool,
    pub set: SetMembership,
    pub revision: Option<ReleaseRelationship>,
}

/// The multi-disc parts of the DAT title an identity matches exactly.
pub open spec fn disc_parts(identity: IdentityResult) -> Option<(Seq<char>, nat, nat)> {
    match exact_match(identity) {
        Some((game, _)) => multidisc_parts(game),
        None => None,
    }
}

/// A membership as multi-disc parts.
pub open spec fn membership_parts(m: SetMembership) -> Option<(Seq<char>, nat, nat)> {
    match m {
        SetMembership::SingleFile => None,
        SetMembership::MultiDiscPart { base_title, part, total } => Some(
            (base_title@, part as nat, total as nat),
        ),
    }
}

fn set_membership(identity: &IdentityResult) -> (r: SetMembership)
    ensures
        membership_parts(r) == disc_parts(*identity),
{
    match exact_release(identity) {
        Some((game, _)) => match multidisc_group_key(game) {
            Some(token) => SetMembership::MultiDiscPart {
                base_title: token.base_title,
                part: token.part,
                total: token.total,
            },
            None => SetMembership::SingleFile,
        },
        None => SetMembership::SingleFile,
    }
}

/// The hierarchy of one file. `resolved_platform` and `revision` are carried
/// over as given.
pub fn hierarchy_for(
    identity: &IdentityResult,
    resolved_platform: Option<&str>,
    original_basename: &str,
    revision: Option<ReleaseRelationship>,
) -> (r: GameReleaseSetHierarchy)
    ensures
        opt_view(r.platform) == crate::param_sfo::opt_str(resolved_platform),
        match exact_match(*identity) {
            Some((game, _)) => r.game_label@ == game && r.game_label_is_dat_confirmed,
            None => r.game_label@ == original_basename@ && !r.game_label_is_dat_confirmed,
        },
        membership_parts(r.set) == disc_parts(*identity),
        r.revision == revision,
{
    let (game_label, game_label_is_dat_confirmed) = match exact_release(identity) {
        Some((game, _)) => (game.to_owned(), true),
        None => (original_basename.to_owned(), false),
    };
    let platform = match resolved_platform {
        Some(id) => Some(id.to_owned()),
        None => None,
    };
    GameReleaseSetHierarchy {
        platform,
        game_label,
        game_label_is_dat_confirmed,
        set: set_membership(identity),
        revision,
    }
}

/// The releases of one lineage.
#[derive(Debug, Clone, PartialEq, Eq)]
pub struct RevisionGroup {
    pub lineage_root: String,
    /// Release names and source paths, ascending.
    pub releases: Vec<(String, String)>,
}

/// The contents of a [`RevisionGroup`].
pub struct RevisionModel {
    pub lineage_root: Seq<char>,
    pub releases: Seq<(Seq<char>, Seq<char>)>,
}

/// The contents of a sequence of string pairs.
pub open spec fn pair_views(s: Seq<(String, String)>) -> Seq<(Seq<char>, Seq<char>)> {
    s.map_values(|p: (String, String)| (p.0@, p.1@))
}

impl View for RevisionGroup {
    type V = RevisionModel;

    open spec fn view(&self) -> RevisionModel {
        RevisionModel {
            lineage_root: self.lineage_root@,
            releases: pair_views(self.releases@),
        }
    }
}

/// The contents of a sequence of revision groups.
pub open spec fn revision_models(s: Seq<RevisionGroup>) -> Seq<RevisionModel> {
    s.map_values(|g: RevisionGroup| g@)
}

/// The lineage root and own name of a file's release, when both are known.
pub open spec fn lineage_of(input: LibraryPlanInput) -> Option<(Seq<char>, Seq<char>)> {
    match input.release_relationship {
        Some(relationship) => match (relationship.root(), relationship.own_name()) {
            (Some(root), Some(name)) => Some((root, name)),
            _ => None,
        },
        None => None,
    }
}

/// The lineage keys of a batch of files.
pub open spec fn lineage_keys(inputs: Seq<LibraryPlanInput>) -> Seq<Option<Seq<Seq<char>>>> {
    Seq::new(
        inputs.len(),
        |i: int|
            match lineage_of(inputs[i]) {
                Some((root, _)) => Some(seq![root]),
                None => None,
            },
    )
}

/// The order of releases: by name, then by path.
pub open spec fn release_le(a: (Seq<char>, Seq<char>), b: (Seq<char>, Seq<char>)) -> bool {
    if a.0 == b.0 {
        path_le(a.1, b.1)
    } else {
        text_le(a.0, b.0)
    }
}

/// [`release_le`] as an order.
pub open spec fn release_order() -> spec_fn(
    (Seq<char>, Seq<char>),
    (Seq<char>, Seq<char>),
) -> bool {
    |a: (Seq<char>, Seq<char>), b: (Seq<char>, Seq<char>)| release_le(a, b)
}

/// The names and paths of the releases at `indices`, in order.
pub open spec fn releases_at(inputs: Seq<LibraryPlanInput>, indices: Seq<int>) -> Seq<
    (Seq<char>, Seq<char>),
> {
    indices.map_values(|i: int| ((lineage_of(inputs[i])->0).1, inputs[i].source_path@))
}

/// The groups of two or more for `keys`, in order.
pub open spec fn revisions_of_keys(
    inputs: Seq<LibraryPlanInput>,
    keys: Seq<Seq<Seq<char>>>,
) -> Seq<RevisionModel>
    decreases keys.len(),
{
    if keys.len() == 0 {
        seq![]
    } else {
        let before = revisions_of_keys(inputs, keys.drop_last());
        let indices = indices_of(lineage_keys(inputs), keys.last());
        if indices.len() >= 2 {
            before.push(
                RevisionModel {
                    lineage_root: keys.last()[0],
                    releases: stable_sorted(releases_at(inputs, indices), release_order()),
                },
            )
        } else {
            before
        }
    }
}

/// The lineages with two or more releases, in ascending order of their root.
pub open spec fn revisions(inputs: Seq<LibraryPlanInput>) -> Seq<RevisionModel> {
    revisions_of_keys(inputs, distinct_keys(lineage_keys(inputs)))
}

fn lineage_key_list(inputs: &[LibraryPlanInput]) -> (r: Vec<Option<Vec<String>>>)
    ensures
        live_views(r@) == lineage_keys(inputs@),
{
    let ghost want = lineage_keys(inputs@);
    let mut out: Vec<Option<Vec<String>>> = Vec::new();
    let mut i: usize = 0;
    while i < inputs.len()
        invariant
            i <= inputs@.len(),
            want == lineage_keys(inputs@),
            live_views(out@) == want.take(i as int),
        decreases inputs.len() - i,
    {
        let key: Option<Vec<String>> = match &inputs[i].release_relationship {
            Some(relationship) => match (relationship.lineage_root(), relationship.game_name()) {
                (Some(root), Some(_)) => {
                    let mut k: Vec<String> = Vec::new();
                    k.push(root.to_owned());
                    assert(views(k@) =~= seq![root@]);
                    Some(k)
                },
                _ => None,
            },
            None => None,
        };
        proof {
            let model = opt_key(key);
            assert(want[i as int] == model);
            assert(live_views(out@.push(key)) =~= live_views(out@).push(model));
            assert(want.take(i + 1) =~= want.take(i as int).push(model));
        }
        out.push(key);
        i = i + 1;
    }
    assert(want.take(i as int) =~= want);
    out
}

fn release_at_most(a: &(String, String), b: &(String, String)) -> (r: bool)
    ensures
        r == release_le((a.0@, a.1@), (b.0@, b.1@)),
{
    if same_text(a.0.as_str(), b.0.as_str()) {
        path_at_most(a.1.as_str(), b.1.as_str())
    } else {
        text_at_most(a.0.as_str(), b.0.as_str())
    }
}

fn sorted_releases(inputs: &[LibraryPlanInput], indices: &Vec<usize>) -> (r: Vec<(String, String)>)
    requires
        forall|n: int|
            0 <= n < indices@.len() ==> (#[trigger] indices@[n]) < inputs@.len() && lineage_of(
                inputs@[indices@[n] as int],
            ) is Some,
    ensures
        pair_views(r@) == stable_sorted(
            releases_at(inputs@, ints(indices@)),
            release_order(),
        ),
{
    let ghost want = releases_at(inputs@, ints(indices@));
    let mut out: Vec<(String, String)> = Vec::new();
    let mut n: usize = 0;
    while n < indices.len()
        invariant
            n <= indices@.len(),
            forall|j: int|
                0 <= j < indices@.len() ==> (#[trigger] indices@[j]) < inputs@.len()
                    && lineage_of(inputs@[indices@[j] as int]) is Some,
            want == releases_at(inputs@, ints(indices@)),
            pair_views(out@) == want.take(n as int),
        decreases indices.len() - n,
    {
        let input = &inputs[indices[n]];
        let name = match &input.release_relationship {
            Some(relationship) => match relationship.game_name() {
                Some(name) => name.to_owned(),
                None => String::new(),
            },
            None => String::new(),
        };
        let pair = (name, input.source_path.clone());
        proof {
            assert(want[n as int] == (pair.0@, pair.1@));
            assert(pair_views(out@.push(pair)) =~= pair_views(out@).push((pair.0@, pair.1@)));
            assert(want.take(n + 1) =~= want.take(n as int).push((pair.0@, pair.1@)));
        }
        out.push(pair);
        n = n + 1;
    }
    assert(want.take(n as int) =~= want);
    let ghost le = |a: (String, String), b: (String, String)|
        release_le((a.0@, a.1@), (b.0@, b.1@));
    proof {
        stable_sorted_map(out@, |p: (String, String)| (p.0@, p.1@), le, release_order());
    }
    stable_sort(out, release_at_most, Ghost(le))
}

/// Groups files by declared lineage; a lineage with one release is left out.
pub fn group_revisions(inputs: &[LibraryPlanInput]) -> (r: Vec<RevisionGroup>)
    ensures
        revision_models(r@) == revisions(inputs@),
{
    let live = lineage_key_list(inputs);
    let keys = sorted_keys(&live);
    let ghost live_model = lineage_keys(inputs@);
    let ghost key_models = distinct_keys(live_model);
    assert(key_views(keys@).len() == keys@.len());
    assert(live_views(live@).len() == live@.len());
    let mut out: Vec<RevisionGroup> = Vec::new();
    let mut n: usize = 0;
    assert(revision_models(out@) =~= revisions_of_keys(inputs@, key_models.take(0)));
    while n < keys.len()
        invariant
            n <= keys@.len(),
            live@.len() == inputs@.len(),
            live_views(live@) == live_model,
            live_model == lineage_keys(inputs@),
            key_models == distinct_keys(live_model),
            key_views(keys@) == key_models,
            key_models.len() == keys@.len(),
            revision_models(out@) == revisions_of_keys(inputs@, key_models.take(n as int)),
        decreases keys.len() - n,
    {
        let key = &keys[n];
        let ghost k = views(key@);
        proof {
            assert(key_models[n as int] == k);
            assert(key_models.take(n + 1).drop_last() =~= key_models.take(n as int));
            assert(key_models.take(n + 1).last() == k);
            assert(key_models.contains(k));
            distinct_keys_props(live_model);
            assert(live_model.contains(Some(k)));
            indices_of_props(live_model, k);
        }
        let indices = indices_with(&live, key);
        proof {
            assert(ints(indices@).len() == indices@.len());
            assert forall|j: int| 0 <= j < indices@.len() implies lineage_of(
                inputs@[(#[trigger] indices@[j]) as int],
            ) is Some by {
                assert(ints(indices@)[j] == indices@[j] as int);
                assert(live_model[indices@[j] as int] == Some(k));
            }
            assert(key@.len() == 1);
        }
        if indices.len() >= 2 {
            let group = RevisionGroup {
                lineage_root: key[0].clone(),
                releases: sorted_releases(inputs, &indices),
            };
            assert(revision_models(out@.push(group)) =~= revision_models(out@).push(group@));
            out.push(group);
        }
        n = n + 1;
    }
    assert(key_models.take(n as int) =~= key_models);
    out
}

/// One multi-disc title with the discs that are present.
#[derive(Debug, Clone, PartialEq, Eq)]
pub struct MultiDiscSet {
    pub base_title: String,
    /// Parts and source paths, ascending.
    pub discs: Vec<(u16, String)>,
    pub declared_total: u16,
}

/// The contents of a [`MultiDiscSet`].
pub struct DiscSetModel {
    pub base_title: Seq<char>,
    pub discs: Seq<(nat, Seq<char>)>,
    pub declared_total: nat,
}

/// The contents of a sequence of discs.
pub open spec fn disc_views(s: Seq<(u16, String)>) -> Seq<(nat, Seq<char>)> {
    s.map_values(|d: (u16, String)| (d.0 as nat, d.1@))
}

impl View for MultiDiscSet {
    type V = DiscSetModel;

    open spec fn view(&self) -> DiscSetModel {
        DiscSetModel {
            base_title: self.base_title@,
            discs: disc_views(self.discs@),
            declared_total: self.declared_total as nat,
        }
    }
}

/// The contents of a sequence of multi-disc sets.
pub open spec fn disc_set_models(s: Seq<MultiDiscSet>) -> Seq<DiscSetModel> {
    s.map_values(|d: MultiDiscSet| d@)
}

/// The platform and base title of a file that is one disc of a title.
pub open spec fn disc_key(input: LibraryPlanInput) -> Option<Seq<Seq<char>>> {
    match settled_id(input.identity) {
        Some(platform) => match disc_parts(input.identity) {
            Some((base, _, _)) => Some(seq![platform, base]),
            None => None,
        },
        None => None,
    }
}

/// The disc keys of a batch of files.
pub open spec fn disc_keys(inputs: Seq<LibraryPlanInput>) -> Seq<Option<Seq<Seq<char>>>> {
    Seq::new(inputs.len(), |i: int| disc_key(inputs[i]))
}

/// A disc: its part, its declared total and its path.
pub struct DiscModel {
    pub part: nat,
    pub total: nat,
    pub path: Seq<char>,
}

/// The order of discs: by part, then by path.
pub open spec fn disc_le(a: DiscModel, b: DiscModel) -> bool {
    a.part < b.part || (a.part == b.part && path_le(a.path, b.path))
}

/// [`disc_le`] as an order.
pub open spec fn disc_order() -> spec_fn(DiscModel, DiscModel) -> bool {
    |a: DiscModel, b: DiscModel| disc_le(a, b)
}

/// The discs at `indices`, in order.
pub open spec fn discs_at(inputs: Seq<LibraryPlanInput>, indices: Seq<int>) -> Seq<DiscModel> {
    indices.map_values(
        |i: int|
            DiscModel {
                part: (disc_parts(inputs[i].identity)->0).1,
                total: (disc_parts(inputs[i].identity)->0).2,
                path: inputs[i].source_path@,
            },
    )
}

/// The set that sorted discs make.
pub open spec fn set_of_discs(base_title: Seq<char>, discs: Seq<DiscModel>) -> DiscSetModel {
    DiscSetModel {
        base_title,
        discs: discs.map_values(|d: DiscModel| (d.part, d.path)),
        declared_total: discs[0].total,
    }
}

/// The sets of two or more for `keys`, in order.
pub open spec fn disc_sets_of_keys(
    inputs: Seq<LibraryPlanInput>,
    keys: Seq<Seq<Seq<char>>>,
) -> Seq<DiscSetModel>
    decreases keys.len(),
{
    if keys.len() == 0 {
        seq![]
    } else {
        let before = disc_sets_of_keys(inputs, keys.drop_last());
        let indices = indices_of(disc_keys(inputs), keys.last());
        if indices.len() >= 2 {
            before.push(
                set_of_discs(
                    keys.last()[1],
                    stable_sorted(discs_at(inputs, indices), disc_order()),
                ),
            )
        } else {
            before
        }
    }
}

/// The order of sets by base title.
pub open spec fn title_order() -> spec_fn(DiscSetModel, DiscSetModel) -> bool {
    |a: DiscSetModel, b: DiscSetModel| text_le(a.base_title, b.base_title)
}

/// The titles of one platform with two or more discs present, by base title.
pub open spec fn disc_sets(inputs: Seq<LibraryPlanInput>) -> Seq<DiscSetModel> {
    stable_sorted(disc_sets_of_keys(inputs, distinct_keys(disc_keys(inputs))), title_order())
}

/// A disc with its declared total.
struct Disc {
    part: u16,
    total: u16,
    path: String,
}

impl View for Disc {
    type V = DiscModel;

    closed spec fn view(&self) -> DiscModel {
        DiscModel { part: self.part as nat, total: self.total as nat, path: self.path@ }
    }
}

fn disc_at_most(a: &Disc, b: &Disc) -> (r: bool)
    ensures
        r == disc_le(a@, b@),
{
    a.part < b.part || (a.part == b.part && path_at_most(a.path.as_str(), b.path.as_str()))
}

fn disc_key_list(inputs: &[LibraryPlanInput]) -> (r: Vec<Option<Vec<String>>>)
    ensures
        live_views(r@) == disc_keys(inputs@),
{
    let ghost want = disc_keys(inputs@);
    let mut out: Vec<Option<Vec<String>>> = Vec::new();
    let mut i: usize = 0;
    while i < inputs.len()
        invariant
            i <= inputs@.len(),
            want == disc_keys(inputs@),
            live_views(out@) == want.take(i as int),
        decreases inputs.len() - i,
    {
        let identity = &inputs[i].identity;
        let key: Option<Vec<String>> = match (settled_platform(identity), set_membership(identity)) {
            (Some(platform), SetMembership::MultiDiscPart { base_title, .. }) => {
                let mut k: Vec<String> = Vec::new();
                k.push(platform.to_owned());
                k.push(base_title);
                assert(views(k@) =~= seq![platform@, base_title@]);
                Some(k)
            },
            _ => None,
        };
        proof {
            let model = opt_key(key);
            assert(want[i as int] == model);
            assert(live_views(out@.push(key)) =~= live_views(out@).push(model));
            assert(want.take(i + 1) =~= want.take(i as int).push(model));
        }
        out.push(key);
        i = i + 1;
    }
    assert(want.take(i as int) =~= want);
    out
}

/// The contents of a sequence of discs.
spec fn disc_models(s: Seq<Disc>) -> Seq<DiscModel> {
    s.map_values(|d: Disc| d@)
}

fn sorted_discs(inputs: &[LibraryPlanInput], indices: &Vec<usize>) -> (r: Vec<Disc>)
    requires
        forall|n: int|
            0 <= n < indices@.len() ==> (#[trigger] indices@[n]) < inputs@.len() && disc_parts(
                inputs@[indices@[n] as int].identity,
            ) is Some,
    ensures
        disc_models(r@) == stable_sorted(discs_at(inputs@, ints(indices@)), disc_order()),
{
    let ghost want = discs_at(inputs@, ints(indices@));
    let mut out: Vec<Disc> = Vec::new();
    let mut n: usize = 0;
    while n < indices.len()
        invariant
            n <= indices@.len(),
            forall|j: int|
                0 <= j < indices@.len() ==> (#[trigger] indices@[j]) < inputs@.len()
                    && disc_parts(inputs@[indices@[j] as int].identity) is Some,
            want == discs_at(inputs@, ints(indices@)),
            disc_models(out@) == want.take(n as int),
        decreases indices.len() - n,
    {
        let input = &inputs[indices[n]];
        let (part, total): (u16, u16) = match set_membership(&input.identity) {
            SetMembership::MultiDiscPart { part, total, .. } => (part, total),
            SetMembership::SingleFile => (0, 0),
        };
        let disc = Disc { part, total, path: input.source_path.clone() };
        proof {
            assert(want[n as int] == disc@);
            assert(disc_models(out@.push(disc)) =~= disc_models(out@).push(disc@));
            assert(want.take(n + 1) =~= want.take(n as int).push(disc@));
        }
        out.push(disc);
        n = n + 1;
    }
    assert(want.take(n as int) =~= want);
    let ghost le = |a: Disc, b: Disc| disc_le(a@, b@);
    proof {
        stable_sorted_map(out@, |d: Disc| d@, le, disc_order());
    }
    stable_sort(out, disc_at_most, Ghost(le))
}

fn disc_set(base_title: String, discs: Vec<Disc>) -> (r: MultiDiscSet)
    requires
        discs@.len() > 0,
    ensures
        r@ == set_of_discs(base_title@, disc_models(discs@)),
{
    let declared_total: u16 = discs[0].total;
    let ghost want = disc_models(discs@).map_values(|d: DiscModel| (d.part, d.path));
    let mut out: Vec<(u16, String)> = Vec::new();
    let mut i: usize = 0;
    while i < discs.len()
        invariant
            i <= discs@.len(),
            want == disc_models(discs@).map_values(|d: DiscModel| (d.part, d.path)),
            disc_views(out@) == want.take(i as int),
        decreases discs.len() - i,
    {
        let disc = (discs[i].part, discs[i].path.clone());
        proof {
            let model = (disc.0 as nat, disc.1@);
            assert(disc_models(discs@)[i as int] == discs@[i as int]@);
            assert(want[i as int] == model);
            assert(disc_views(out@.push(disc)) =~= disc_views(out@).push(model));
            assert(want.take(i + 1) =~= want.take(i as int).push(model));
        }
        out.push(disc);
        i = i + 1;
    }
    assert(want.take(i as int) =~= want);
    assert(disc_models(discs@)[0] == discs@[0]@);
    MultiDiscSet { base_title, discs: out, declared_total }
}

fn title_at_most(a: &MultiDiscSet, b: &MultiDiscSet) -> (r: bool)
    ensures
        r == text_le(a@.base_title, b@.base_title),
{
    text_at_most(a.base_title.as_str(), b.base_title.as_str())
}

/// Groups the discs of each multi-disc title of one platform; a title with one
/// disc present is left out, and no disc is ever dropped from a set.
pub fn group_multidisc_sets(inputs: &[LibraryPlanInput]) -> (r: Vec<MultiDiscSet>)
    ensures
        disc_set_models(r@) == disc_sets(inputs@),
{
    let live = disc_key_list(inputs);
    let keys = sorted_keys(&live);
    let ghost live_model = disc_keys(inputs@);
    let ghost key_models = distinct_keys(live_model);
    assert(key_views(keys@).len() == keys@.len());
    assert(live_views(live@).len() == live@.len());
    let mut out: Vec<MultiDiscSet> = Vec::new();
    let mut n: usize = 0;
    assert(disc_set_models(out@) =~= disc_sets_of_keys(inputs@, key_models.take(0)));
    while n < keys.len()
        invariant
            n <= keys@.len(),
            live@.len() == inputs@.len(),
            live_views(live@) == live_model,
            live_model == disc_keys(inputs@),
            key_models == distinct_keys(live_model),
            key_views(keys@) == key_models,
            key_models.len() == keys@.len(),
            disc_set_models(out@) == disc_sets_of_keys(inputs@, key_models.take(n as int)),
        decreases keys.len() - n,
    {
        let key = &keys[n];
        let ghost k = views(key@);
        proof {
            assert(key_models[n as int] == k);
            assert(key_models.take(n + 1).drop_last() =~= key_models.take(n as int));
            assert(key_models.take(n + 1).last() == k);
            assert(key_models.contains(k));
            distinct_keys_props(live_model);
            assert(live_model.contains(Some(k)));
            indices_of_props(live_model, k);
        }
        let indices = indices_with(&live, key);
        proof {
            assert(ints(indices@).len() == indices@.len());
            assert forall|j: int| 0 <= j < indices@.len() implies disc_parts(
                inputs@[(#[trigger] indices@[j]) as int].identity,
            ) is Some by {
                assert(ints(indices@)[j] == indices@[j] as int);
                assert(live_model[indices@[j] as int] == Some(k));
            }
            assert(key@.len() == 2);
        }
        if indices.len() >= 2 {
            let discs = sorted_discs(inputs, &indices);
            proof {
                crate::platform_evidence_fusion::library_grouping::disc_order_is_preorder();
                stable_sorted_props(discs_at(inputs@, ints(indices@)), disc_order());
                assert(disc_models(discs@).len() == discs@.len());
            }
            let set = disc_set(key[1].clone(), discs);
            assert(disc_set_models(out@.push(set)) =~= disc_set_models(out@).push(set@));
            out.push(set);
        }
        n = n + 1;
    }
    assert(key_models.take(n as int) =~= key_models);
    let ghost le = |a: MultiDiscSet, b: MultiDiscSet| text_le(a@.base_title, b@.base_title);
    proof {
        stable_sorted_map(out@, |s: MultiDiscSet| s@, le, title_order());
    }
    stable_sort(out, title_at_most, Ghost(le))
}

/// The order of discs is a total preorder.
pub proof fn disc_order_is_preorder()
    ensures
        is_preorder(disc_order()),
{
    let le = disc_order();
    assert forall|a: DiscModel, b: DiscModel| #[trigger] le(a, b) || #[trigger] le(b, a) by {
        components_le_total(components(a.path), components(b.path));
    }
    assert forall|a: DiscModel, b: DiscModel, c: DiscModel| #[trigger] le(a, b) && #[trigger] le(
        b,
        c,
    ) implies le(a, c) by {
        if path_le(a.path, b.path) && path_le(b.path, c.path) {
            components_le_transitive(components(a.path), components(b.path), components(c.path));
        }
    }
}

/// A set keeps every disc of its title, in order of part: two files for the
/// same part both stay.
pub proof fn no_disc_is_dropped(inputs: Seq<LibraryPlanInput>, key: Seq<Seq<char>>)
    ensures
        ({
            let found = discs_at(inputs, indices_of(disc_keys(inputs), key));
            let kept = stable_sorted(found, disc_order());
            &&& kept.to_multiset() == found.to_multiset()
            &&& is_sorted(kept, disc_order())
        }),
{
    disc_order_is_preorder();
    stable_sorted_props(discs_at(inputs, indices_of(disc_keys(inputs), key)), disc_order());
}

} // verus!
