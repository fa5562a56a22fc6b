//! Read-only classification of duplicates from hashes, DAT matches and names
//! that are already known.
//!
//! Classes are tried from the strongest down, and a file claimed by one class
//! is never reported under a weaker one. A group is evidence; it never says
//! which member, if any, should go.
use vstd::prelude::*;
use vstd::string::*;
use crate::grouping::{
    distinct_keys, distinct_keys_props, indices_of, indices_with, ints, key_views, live_views,
    opt_key, sorted_keys,
};
use crate::order::{stable_sort, stable_sorted, stable_sorted_map};
use crate::path::{
    components, file_stem, file_stem_of, path_at_most, path_le, path_order, same_path, sort_paths,
};
use crate::platform_evidence_fusion::library_grouping::{exact_match, exact_release};
use crate::platform_evidence_fusion::library_planning::{
    settled_id, settled_platform, LibraryPlanInput,
};
use crate::text::{debug_quoted, debug_quoted_text, lower_text, to_lower, views};

verus! {

/// Why files belong together, strongest first.
#[derive(Debug, Clone, Copy, PartialEq, Eq, PartialOrd, Ord, Structural)]
pub enum DuplicateClass {
    /// Same physical hash.
    ExactPhysicalDuplicate,
    /// Same hash of the normalised bytes.
    ExactNormalizedDuplicate,
    /// Same DAT game and rom entry.
    SameDatRelease,
    /// Same DAT game, different rom entries.
    SameGameDifferentDump,
    /// Same declared lineage.
    SameGameDifferentRevision,
    /// Same base name and platform, and nothing stronger.
    PossibleDuplicate,
    /// Compared and found unrelated; never the class of a group.
    NotDuplicate,
}

impl DuplicateClass {
    /// The variant's name.
    pub open spec fn name_text(self) -> Seq<char> {
        match self {
            DuplicateClass::ExactPhysicalDuplicate => "ExactPhysicalDuplicate"@,
            DuplicateClass::ExactNormalizedDuplicate => "ExactNormalizedDuplicate"@,
            DuplicateClass::SameDatRelease => "SameDatRelease"@,
            DuplicateClass::SameGameDifferentDump => "SameGameDifferentDump"@,
            DuplicateClass::SameGameDifferentRevision => "SameGameDifferentRevision"@,
            DuplicateClass::PossibleDuplicate => "PossibleDuplicate"@,
            DuplicateClass::NotDuplicate => "NotDuplicate"@,
        }
    }

    pub fn name(self) -> (r: &'static str)
        ensures
            r@ == self.name_text(),
    {
        match self {
            DuplicateClass::ExactPhysicalDuplicate => "ExactPhysicalDuplicate",
            DuplicateClass::ExactNormalizedDuplicate => "ExactNormalizedDuplicate",
            DuplicateClass::SameDatRelease => "SameDatRelease",
            DuplicateClass::SameGameDifferentDump => "SameGameDifferentDump",
            DuplicateClass::SameGameDifferentRevision => "SameGameDifferentRevision",
            DuplicateClass::PossibleDuplicate => "PossibleDuplicate",
            DuplicateClass::NotDuplicate => "NotDuplicate",
        }
    }

    pub open spec fn label_text(self) -> Seq<char> {
        match self {
            DuplicateClass::ExactPhysicalDuplicate => "Exact physical duplicate"@,
            DuplicateClass::ExactNormalizedDuplicate => "Exact normalized duplicate"@,
            DuplicateClass::SameDatRelease => "Same DAT release"@,
            DuplicateClass::SameGameDifferentDump => "Same game, different dump"@,
            DuplicateClass::SameGameDifferentRevision => "Same game, different revision"@,
            DuplicateClass::PossibleDuplicate => "Possible duplicate"@,
            DuplicateClass::NotDuplicate => "Not a duplicate"@,
        }
    }

    pub fn label(self) -> (r: &'static str)
        ensures
            r@ == self.label_text(),
    {
        match self {
            DuplicateClass::ExactPhysicalDuplicate => "Exact physical duplicate",
            DuplicateClass::ExactNormalizedDuplicate => "Exact normalized duplicate",
            DuplicateClass::SameDatRelease => "Same DAT release",
            DuplicateClass::SameGameDifferentDump => "Same game, different dump",
            DuplicateClass::SameGameDifferentRevision => "Same game, different revision",
            DuplicateClass::PossibleDuplicate => "Possible duplicate",
            DuplicateClass::NotDuplicate => "Not a duplicate",
        }
    }

    /// The position in the order of strength.
    pub open spec fn rank(self) -> int {
        match self {
            DuplicateClass::ExactPhysicalDuplicate => 0,
            DuplicateClass::ExactNormalizedDuplicate => 1,
            DuplicateClass::SameDatRelease => 2,
            DuplicateClass::SameGameDifferentDump => 3,
            DuplicateClass::SameGameDifferentRevision => 4,
            DuplicateClass::PossibleDuplicate => 5,
            DuplicateClass::NotDuplicate => 6,
        }
    }

    fn rank_of(self) -> (r: u8)
        ensures
            r == self.rank(),
    {
        match self {
            DuplicateClass::ExactPhysicalDuplicate => 0,
            DuplicateClass::ExactNormalizedDuplicate => 1,
            DuplicateClass::SameDatRelease => 2,
            DuplicateClass::SameGameDifferentDump => 3,
            DuplicateClass::SameGameDifferentRevision => 4,
            DuplicateClass::PossibleDuplicate => 5,
            DuplicateClass::NotDuplicate => 6,
        }
    }
}

/// How strong the shared evidence is.
#[derive(Debug, Clone, Copy, PartialEq, Eq, Structural)]
pub enum DuplicateGroupConfidence {
    /// A hash, a DAT release or a declared lineage.
    Strong,
    /// A base name only.
    Weak,
}

/// One group of related files.
#[derive(Debug, Clone, PartialEq, Eq)]
pub struct DuplicateGroup {
    pub classification: DuplicateClass,
    /// The paths of the members, ascending.
    pub members: Vec<String>,
    /// The evidence the members share, in words.
    pub basis: String,
    pub confidence: DuplicateGroupConfidence,
}

/// The contents of a [`DuplicateGroup`].
pub struct GroupModel {
    pub classification: DuplicateClass,
    pub members: Seq<Seq<char>>,
    pub basis: Seq<char>,
    pub confidence: DuplicateGroupConfidence,
}

impl View for DuplicateGroup {
    type V = GroupModel;

    open spec fn view(&self) -> GroupModel {
        GroupModel {
            classification: self.classification,
            members: views(self.members@),
            basis: self.basis@,
            confidence: self.confidence,
        }
    }
}

/// The contents of a sequence of groups.
pub open spec fn group_models(s: Seq<DuplicateGroup>) -> Seq<GroupModel> {
    s.map_values(|g: DuplicateGroup| g@)
}

impl DuplicateGroup {
    /// An equal group.
    pub fn copy(&self) -> (r: DuplicateGroup)
        ensures
            r.classification == self.classification,
            r.members@ == self.members@,
            r.basis == self.basis,
            r.confidence == self.confidence,
    {
        DuplicateGroup {
            classification: self.classification,
            members: crate::text::copy_strings(&self.members),
            basis: self.basis.clone(),
            confidence: self.confidence,
        }
    }
}

/// What a file has to share with another to fall under `class` with it.
pub open spec fn key_of(class: DuplicateClass, input: LibraryPlanInput) -> Option<Seq<Seq<char>>> {
    match class {
        DuplicateClass::ExactPhysicalDuplicate => match input.physical_hash {
            Some(hash) => Some(seq![hash@]),
            None => None,
        },
        DuplicateClass::ExactNormalizedDuplicate => match input.normalized_hash {
            Some(hash) => Some(seq![hash@]),
            None => None,
        },
        DuplicateClass::SameDatRelease => match exact_match(input.identity) {
            Some((game, rom)) => Some(seq![game, rom]),
            None => None,
        },
        DuplicateClass::SameGameDifferentDump => match exact_match(input.identity) {
            Some((game, _)) => Some(seq![game]),
            None => None,
        },
        DuplicateClass::SameGameDifferentRevision => match input.release_relationship {
            Some(relationship) => match relationship.root() {
                Some(root) => Some(seq![root]),
                None => None,
            },
            None => None,
        },
        DuplicateClass::PossibleDuplicate => match settled_id(input.identity) {
            Some(platform) => match file_stem(input.source_path@) {
                Some(stem) => Some(seq![platform, lower_text(stem)]),
                None => None,
            },
            None => None,
        },
        DuplicateClass::NotDuplicate => None,
    }
}

/// The shared evidence in words.
pub open spec fn basis_text(class: DuplicateClass, key: Seq<Seq<char>>) -> Seq<char> {
    match class {
        DuplicateClass::ExactPhysicalDuplicate => "identical physical hash "@ + key[0],
        DuplicateClass::ExactNormalizedDuplicate => {
            "identical normalized representation hash "@ + key[0]
        },
        DuplicateClass::SameDatRelease => {
            "both confidently match the same DAT release: "@ + key[0] + " / "@ + key[1]
        },
        DuplicateClass::SameGameDifferentDump => {
            "both confidently match the same DAT game "@ + debug_quoted_text(key[0])
                + ", under different rom entries"@
        },
        DuplicateClass::SameGameDifferentRevision => {
            "share a DAT-declared cloneof lineage rooted at "@ + debug_quoted_text(key[0])
        },
        DuplicateClass::PossibleDuplicate => {
            "same basename ("@ + debug_quoted_text(key[1]) + ") and resolved platform ("@ + key[0]
                + ") - filename similarity only, never stronger"@
        },
        DuplicateClass::NotDuplicate => seq![],
    }
}

/// How strong the evidence of a class is.
pub open spec fn class_confidence(class: DuplicateClass) -> DuplicateGroupConfidence {
    if class == DuplicateClass::PossibleDuplicate {
        DuplicateGroupConfidence::Weak
    } else {
        DuplicateGroupConfidence::Strong
    }
}

/// A group by the indices of its members.
pub struct IndexGroup {
    pub class: DuplicateClass,
    pub key: Seq<Seq<char>>,
    pub indices: Seq<int>,
}

/// The keys under `class` of the files that no stronger class has claimed.
pub open spec fn live_keys(
    inputs: Seq<LibraryPlanInput>,
    claimed: Seq<bool>,
    class: DuplicateClass,
) -> Seq<Option<Seq<Seq<char>>>> {
    Seq::new(
        inputs.len(),
        |i: int|
            if claimed[i] {
                None
            } else {
                key_of(class, inputs[i])
            },
    )
}

/// The groups of two or more for `keys`, in order.
pub open spec fn groups_of_keys(
    live: Seq<Option<Seq<Seq<char>>>>,
    keys: Seq<Seq<Seq<char>>>,
    class: DuplicateClass,
) -> Seq<IndexGroup>
    decreases keys.len(),
{
    if keys.len() == 0 {
        seq![]
    } else {
        let before = groups_of_keys(live, keys.drop_last(), class);
        let indices = indices_of(live, keys.last());
        if indices.len() >= 2 {
            before.push(IndexGroup { class, key: keys.last(), indices })
        } else {
            before
        }
    }
}

/// The groups of one class.
pub open spec fn class_groups(
    inputs: Seq<LibraryPlanInput>,
    claimed: Seq<bool>,
    class: DuplicateClass,
) -> Seq<IndexGroup> {
    let live = live_keys(inputs, claimed, class);
    groups_of_keys(live, distinct_keys(live), class)
}

/// Which files are claimed once `class` has been tried.
pub open spec fn claimed_after(
    inputs: Seq<LibraryPlanInput>,
    claimed: Seq<bool>,
    class: DuplicateClass,
) -> Seq<bool> {
    let live = live_keys(inputs, claimed, class);
    Seq::new(
        inputs.len(),
        |i: int|
            claimed[i] || match live[i] {
                Some(k) => indices_of(live, k).len() >= 2,
                None => false,
            },
    )
}

/// The classes that are tried, strongest first.
pub open spec fn class_at(n: int) -> DuplicateClass {
    if n == 0 {
        DuplicateClass::ExactPhysicalDuplicate
    } else if n == 1 {
        DuplicateClass::ExactNormalizedDuplicate
    } else if n == 2 {
        DuplicateClass::SameDatRelease
    } else if n == 3 {
        DuplicateClass::SameGameDifferentDump
    } else if n == 4 {
        DuplicateClass::SameGameDifferentRevision
    } else {
        DuplicateClass::PossibleDuplicate
    }
}

/// Which files the first `n` classes claim.
pub open spec fn claimed_by(inputs: Seq<LibraryPlanInput>, n: nat) -> Seq<bool>
    decreases n,
{
    if n == 0 {
        Seq::new(inputs.len(), |i: int| false)
    } else {
        claimed_after(inputs, claimed_by(inputs, (n - 1) as nat), class_at(n - 1))
    }
}

/// The groups of the first `n` classes.
pub open spec fn groups_by(inputs: Seq<LibraryPlanInput>, n: nat) -> Seq<IndexGroup>
    decreases n,
{
    if n == 0 {
        seq![]
    } else {
        groups_by(inputs, (n - 1) as nat) + class_groups(
            inputs,
            claimed_by(inputs, (n - 1) as nat),
            class_at(n - 1),
        )
    }
}

/// All groups, class by class.
pub open spec fn index_groups(inputs: Seq<LibraryPlanInput>) -> Seq<IndexGroup> {
    groups_by(inputs, 6)
}

/// The paths at `indices`, in order.
pub open spec fn paths_at(inputs: Seq<LibraryPlanInput>, indices: Seq<int>) -> Seq<String> {
    indices.map_values(|i: int| inputs[i].source_path)
}

/// A group as it is reported.
pub open spec fn group_model(inputs: Seq<LibraryPlanInput>, g: IndexGroup) -> GroupModel {
    GroupModel {
        classification: g.class,
        members: views(stable_sorted(paths_at(inputs, g.indices), path_order())),
        basis: basis_text(g.class, g.key),
        confidence: class_confidence(g.class),
    }
}

/// The groups as they are reported, class by class.
pub open spec fn reported(inputs: Seq<LibraryPlanInput>, groups: Seq<IndexGroup>) -> Seq<
    GroupModel,
> {
    groups.map_values(|g: IndexGroup| group_model(inputs, g))
}

/// Lexicographic order of member lists.
pub open spec fn members_le(a: Seq<Seq<char>>, b: Seq<Seq<char>>) -> bool
    decreases a.len(),
{
    if a.len() == 0 {
        true
    } else if b.len() == 0 {
        false
    } else if components(a[0]) == components(b[0]) {
        members_le(a.drop_first(), b.drop_first())
    } else {
        path_le(a[0], b[0])
    }
}

/// The order of groups: by class, then by members.
pub open spec fn group_le(a: GroupModel, b: GroupModel) -> bool {
    a.classification.rank() < b.classification.rank() || (a.classification.rank()
        == b.classification.rank() && members_le(a.members, b.members))
}

/// [`group_le`] as an order of models.
pub open spec fn model_order() -> spec_fn(GroupModel, GroupModel) -> bool {
    |a: GroupModel, b: GroupModel| group_le(a, b)
}

/// [`group_le`] as an order of groups.
pub open spec fn group_order() -> spec_fn(DuplicateGroup, DuplicateGroup) -> bool {
    |a: DuplicateGroup, b: DuplicateGroup| group_le(a@, b@)
}

/// The duplicate groups of a batch of files.
pub open spec fn duplicates(inputs: Seq<LibraryPlanInput>) -> Seq<GroupModel> {
    stable_sorted(reported(inputs, index_groups(inputs)), model_order())
}

fn one_key(part: &str) -> (r: Vec<String>)
    ensures
        views(r@) == seq![part@],
{
    let mut r: Vec<String> = Vec::new();
    r.push(part.to_owned());
    assert(views(r@) =~= seq![part@]);
    r
}

fn two_key(first: &str, second: &str) -> (r: Vec<String>)
    ensures
        views(r@) == seq![first@, second@],
{
    let mut r: Vec<String> = Vec::new();
    r.push(first.to_owned());
    r.push(second.to_owned());
    assert(views(r@) =~= seq![first@, second@]);
    r
}

fn duplicate_key(class: DuplicateClass, input: &LibraryPlanInput) -> (r: Option<Vec<String>>)
    ensures
        match r {
            Some(k) => key_of(class, *input) == Some(views(k@)),
            None => key_of(class, *input) is None,
        },
{
    match class {
        DuplicateClass::ExactPhysicalDuplicate => match &input.physical_hash {
            Some(hash) => Some(one_key(hash.as_str())),
            None => None,
        },
        DuplicateClass::ExactNormalizedDuplicate => match &input.normalized_hash {
            Some(hash) => Some(one_key(hash.as_str())),
            None => None,
        },
        DuplicateClass::SameDatRelease => match exact_release(&input.identity) {
            Some((game, rom)) => Some(two_key(game, rom)),
            None => None,
        },
        DuplicateClass::SameGameDifferentDump => match exact_release(&input.identity) {
            Some((game, _)) => Some(one_key(game)),
            None => None,
        },
        DuplicateClass::SameGameDifferentRevision => match &input.release_relationship {
            Some(relationship) => match relationship.lineage_root() {
                Some(root) => Some(one_key(root)),
                None => None,
            },
            None => None,
        },
        DuplicateClass::PossibleDuplicate => match settled_platform(&input.identity) {
            Some(platform) => match file_stem_of(input.source_path.as_str()) {
                Some(stem) => Some(two_key(platform, to_lower(stem.as_str()).as_str())),
                None => None,
            },
            None => None,
        },
        DuplicateClass::NotDuplicate => None,
    }
}

/// The number of parts of a key of `class`.
pub open spec fn key_len(class: DuplicateClass) -> int {
    match class {
        DuplicateClass::SameDatRelease => 2,
        DuplicateClass::PossibleDuplicate => 2,
        _ => 1,
    }
}

fn basis_of(class: DuplicateClass, key: &Vec<String>) -> (r: String)
    requires
        key@.len() == key_len(class),
    ensures
        r@ == basis_text(class, views(key@)),
{
    match class {
        DuplicateClass::ExactPhysicalDuplicate => {
            let mut r = "identical physical hash ".to_owned();
            r.append(key[0].as_str());
            r
        },
        DuplicateClass::ExactNormalizedDuplicate => {
            let mut r = "identical normalized representation hash ".to_owned();
            r.append(key[0].as_str());
            r
        },
        DuplicateClass::SameDatRelease => {
            let mut r = "both confidently match the same DAT release: ".to_owned();
            r.append(key[0].as_str());
            r.append(" / ");
            r.append(key[1].as_str());
            r
        },
        DuplicateClass::SameGameDifferentDump => {
            let mut r = "both confidently match the same DAT game ".to_owned();
            r.append(debug_quoted(key[0].as_str()).as_str());
            r.append(", under different rom entries");
            r
        },
        DuplicateClass::SameGameDifferentRevision => {
            let mut r = "share a DAT-declared cloneof lineage rooted at ".to_owned();
            r.append(debug_quoted(key[0].as_str()).as_str());
            r
        },
        DuplicateClass::PossibleDuplicate => {
            let mut r = "same basename (".to_owned();
            r.append(debug_quoted(key[1].as_str()).as_str());
            r.append(") and resolved platform (");
            r.append(key[0].as_str());
            r.append(") - filename similarity only, never stronger");
            r
        },
        DuplicateClass::NotDuplicate => {
            let r = String::new();
            assert(r@ =~= seq![]);
            r
        },
    }
}

fn live_class_keys(
    inputs: &[LibraryPlanInput],
    claimed: &Vec<bool>,
    class: DuplicateClass,
) -> (r: Vec<Option<Vec<String>>>)
    requires
        claimed@.len() == inputs@.len(),
    ensures
        live_views(r@) == live_keys(inputs@, claimed@, class),
{
    let ghost want = live_keys(inputs@, claimed@, class);
    let mut out: Vec<Option<Vec<String>>> = Vec::new();
    let mut i: usize = 0;
    while i < inputs.len()
        invariant
            i <= inputs@.len(),
            claimed@.len() == inputs@.len(),
            want == live_keys(inputs@, claimed@, class),
            live_views(out@) == want.take(i as int),
        decreases inputs.len() - i,
    {
        let key = if claimed[i] {
            None
        } else {
            duplicate_key(class, &inputs[i])
        };
        let ghost model = opt_key(key);
        proof {
            assert(want[i as int] == model);
            assert(live_views(out@.push(key)) =~= live_views(out@).push(model));
            assert(want.take(i + 1) =~= want.take(i as int).push(model));
        }
        out.push(key);
        i = i + 1;
    }
    assert(want.take(i as int) =~= want);
    out
}

fn member_paths(inputs: &[LibraryPlanInput], indices: &Vec<usize>) -> (r: Vec<String>)
    requires
        forall|n: int| 0 <= n < indices@.len() ==> (#[trigger] indices@[n]) < inputs@.len(),
    ensures
        r@ == paths_at(inputs@, ints(indices@)),
{
    let ghost want = paths_at(inputs@, ints(indices@));
    let mut out: Vec<String> = Vec::new();
    let mut n: usize = 0;
    while n < indices.len()
        invariant
            n <= indices@.len(),
            forall|j: int| 0 <= j < indices@.len() ==> (#[trigger] indices@[j]) < inputs@.len(),
            want == paths_at(inputs@, ints(indices@)),
            out@ == want.take(n as int),
        decreases indices.len() - n,
    {
        let path = inputs[indices[n]].source_path.clone();
        proof {
            assert(want[n as int] == path);
            assert(want.take(n + 1) =~= want.take(n as int).push(path));
        }
        out.push(path);
        n = n + 1;
    }
    assert(want.take(n as int) =~= want);
    out
}

fn confidence_of(class: DuplicateClass) -> (r: DuplicateGroupConfidence)
    ensures
        r == class_confidence(class),
{
    match class {
        DuplicateClass::PossibleDuplicate => DuplicateGroupConfidence::Weak,
        _ => DuplicateGroupConfidence::Strong,
    }
}

proof fn live_key_len(
    inputs: Seq<LibraryPlanInput>,
    claimed: Seq<bool>,
    class: DuplicateClass,
    k: Seq<Seq<char>>,
)
    requires
        distinct_keys(live_keys(inputs, claimed, class)).contains(k),
    ensures
        k.len() == key_len(class),
{
    let live = live_keys(inputs, claimed, class);
    distinct_keys_props(live);
    assert(live.contains(Some(k)));
    let i = choose|i: int| 0 <= i < live.len() && live[i] == Some(k);
    assert(key_of(class, inputs[i]) == Some(k));
}

fn emit_class(
    inputs: &[LibraryPlanInput],
    claimed: Vec<bool>,
    groups: Vec<DuplicateGroup>,
    class: DuplicateClass,
) -> (r: (Vec<bool>, Vec<DuplicateGroup>))
    requires
        claimed@.len() == inputs@.len(),
    ensures
        r.0@ == claimed_after(inputs@, claimed@, class),
        group_models(r.1@) == group_models(groups@) + reported(
            inputs@,
            class_groups(inputs@, claimed@, class),
        ),
{
    let live = live_class_keys(inputs, &claimed, class);
    let keys = sorted_keys(&live);
    let ghost live_model = live_keys(inputs@, claimed@, class);
    let ghost key_models = distinct_keys(live_model);
    assert(key_views(keys@).len() == keys@.len());
    assert(live_views(live@).len() == live@.len());
    let mut out = groups;
    let mut n: usize = 0;
    assert(reported(inputs@, groups_of_keys(live_model, key_models.take(0), class)) =~= seq![]);
    assert(group_models(out@) =~= group_models(groups@) + reported(
        inputs@,
        groups_of_keys(live_model, key_models.take(0), class),
    ));
    while n < keys.len()
        invariant
            n <= keys@.len(),
            live_views(live@) == live_model,
            live@.len() == inputs@.len(),
            live_model == live_keys(inputs@, claimed@, class),
            key_models == distinct_keys(live_model),
            key_views(keys@) == key_models,
            key_models.len() == keys@.len(),
            group_models(out@) == group_models(groups@) + reported(
                inputs@,
                groups_of_keys(live_model, key_models.take(n as int), class),
            ),
        decreases keys.len() - n,
    {
        let key = &keys[n];
        let ghost k = views(key@);
        let ghost done = groups_of_keys(live_model, key_models.take(n as int), class);
        proof {
            assert(key_models[n as int] == k);
            assert(key_models.take(n + 1).drop_last() =~= key_models.take(n as int));
            assert(key_models.take(n + 1).last() == k);
            assert(key_models.contains(k));
            live_key_len(inputs@, claimed@, class, k);
        }
        let indices = indices_with(&live, key);
        assert(ints(indices@).len() == indices@.len());
        if indices.len() >= 2 {
            let members = sort_paths(member_paths(inputs, &indices));
            let group = DuplicateGroup {
                classification: class,
                members,
                basis: basis_of(class, key),
                confidence: confidence_of(class),
            };
            proof {
                let g = IndexGroup { class, key: k, indices: ints(indices@) };
                assert(group@ == group_model(inputs@, g));
                assert(group_models(out@.push(group)) =~= group_models(out@).push(group@));
                assert(reported(inputs@, done.push(g)) =~= reported(inputs@, done).push(group@));
                assert(group_models(groups@) + reported(inputs@, done).push(group@)
                    =~= (group_models(groups@) + reported(inputs@, done)).push(group@));
            }
            out.push(group);
        }
        n = n + 1;
    }
    assert(key_models.take(n as int) =~= key_models);
    let ghost want = claimed_after(inputs@, claimed@, class);
    let mut after: Vec<bool> = Vec::new();
    let mut i: usize = 0;
    while i < inputs.len()
        invariant
            i <= inputs@.len(),
            claimed@.len() == inputs@.len(),
            live@.len() == inputs@.len(),
            live_views(live@) == live_model,
            live_model == live_keys(inputs@, claimed@, class),
            want == claimed_after(inputs@, claimed@, class),
            after@ == want.take(i as int),
        decreases inputs.len() - i,
    {
        assert(live_views(live@)[i as int] == live_model[i as int]);
        let hit = match &live[i] {
            Some(key) => {
                let indices = indices_with(&live, key);
                assert(ints(indices@).len() == indices@.len());
                indices.len() >= 2
            },
            None => false,
        };
        let now = claimed[i] || hit;
        proof {
            assert(want[i as int] == now);
            assert(want.take(i + 1) =~= want.take(i as int).push(now));
        }
        after.push(now);
        i = i + 1;
    }
    assert(want.take(i as int) =~= want);
    (after, out)
}

fn members_at_most(a: &Vec<String>, b: &Vec<String>) -> (r: bool)
    ensures
        r == members_le(views(a@), views(b@)),
{
    let ghost x = views(a@);
    let ghost y = views(b@);
    let mut i: usize = 0;
    assert(x.skip(0) =~= x);
    assert(y.skip(0) =~= y);
    while i < a.len()
        invariant
            i <= a@.len(),
            i <= b@.len(),
            x == views(a@),
            y == views(b@),
            members_le(x, y) == members_le(x.skip(i as int), y.skip(i as int)),
        decreases a.len() - i,
    {
        if i == b.len() {
            return false;
        }
        assert(x.skip(i as int).drop_first() =~= x.skip(i + 1));
        assert(y.skip(i as int).drop_first() =~= y.skip(i + 1));
        if !same_path(a[i].as_str(), b[i].as_str()) {
            return path_at_most(a[i].as_str(), b[i].as_str());
        }
        i = i + 1;
    }
    true
}

fn group_at_most(a: &DuplicateGroup, b: &DuplicateGroup) -> (r: bool)
    ensures
        r == group_le(a@, b@),
{
    let x: u8 = a.classification.rank_of();
    let y: u8 = b.classification.rank_of();
    x < y || (x == y && members_at_most(&a.members, &b.members))
}

/// Groups files by the strongest evidence they share.
///
/// Groups come in order of class, then of members; a file is in at most one.
pub fn group_duplicates(inputs: &[LibraryPlanInput]) -> (r: Vec<DuplicateGroup>)
    ensures
        group_models(r@) == duplicates(inputs@),
{
    let mut claimed: Vec<bool> = Vec::new();
    let mut i: usize = 0;
    while i < inputs.len()
        invariant
            i <= inputs@.len(),
            claimed@.len() == i,
            forall|j: int| 0 <= j < i ==> !claimed@[j],
        decreases inputs.len() - i,
    {
        claimed.push(false);
        i = i + 1;
    }
    let groups: Vec<DuplicateGroup> = Vec::new();
    proof {
        reveal_with_fuel(claimed_by, 7);
        reveal_with_fuel(groups_by, 7);
        assert(claimed@ =~= claimed_by(inputs@, 0));
        assert(group_models(groups@) =~= reported(inputs@, groups_by(inputs@, 0)));
    }
    let (claimed, groups) = emit_class(
        inputs,
        claimed,
        groups,
        DuplicateClass::ExactPhysicalDuplicate,
    );
    assert(group_models(groups@) =~= reported(inputs@, groups_by(inputs@, 1)));
    let (claimed, groups) = emit_class(
        inputs,
        claimed,
        groups,
        DuplicateClass::ExactNormalizedDuplicate,
    );
    assert(group_models(groups@) =~= reported(inputs@, groups_by(inputs@, 2)));
    let (claimed, groups) = emit_class(inputs, claimed, groups, DuplicateClass::SameDatRelease);
    assert(group_models(groups@) =~= reported(inputs@, groups_by(inputs@, 3)));
    let (claimed, groups) = emit_class(
        inputs,
        claimed,
        groups,
        DuplicateClass::SameGameDifferentDump,
    );
    assert(group_models(groups@) =~= reported(inputs@, groups_by(inputs@, 4)));
    let (claimed, groups) = emit_class(
        inputs,
        claimed,
        groups,
        DuplicateClass::SameGameDifferentRevision,
    );
    assert(group_models(groups@) =~= reported(inputs@, groups_by(inputs@, 5)));
    let (_, groups) = emit_class(inputs, claimed, groups, DuplicateClass::PossibleDuplicate);
    assert(group_models(groups@) =~= reported(inputs@, groups_by(inputs@, 6)));
    proof {
        stable_sorted_map(
            groups@,
            |g: DuplicateGroup| g@,
            group_order(),
            model_order(),
        );
    }
    stable_sort(groups, group_at_most, Ghost(group_order()))
}

} // verus!
