//! Where the members of a set and its support files would go together.
//!
//! A set is planned only as a whole: one member that is missing from the plan
//! or not ready leaves the set unplanned. Sets come from multi-disc titles and
//! from the references of attached listings, never from sharing a folder.
use vstd::prelude::*;
use vstd::string::*;
use crate::path::{
    components, file_name, file_name_of, file_names_are_relative, is_absolute, is_under, join,
    join_path, join_stays_under, parent, parent_of, same_path,
};
use crate::platform_evidence_fusion::library_grouping::{
    disc_set_models, DiscSetModel, MultiDiscSet,
};
use crate::platform_evidence_fusion::library_planning::{
    LibraryItemPlan, LibraryPlanningReport, PlanStatus,
};
use crate::platform_evidence_fusion::side_file_classification::SideFileRole;
use crate::platform_evidence_fusion::support_attachment::{AssociationModel, SupportAssociation};
use crate::seqs::{first_index, first_index_unique};
use crate::text::{chars_of, opt_view, same_text, views};

verus! {

/// A name that can stand as one path component: not empty, not `.` or `..`,
/// and without separators or NUL.
pub open spec fn is_safe_name(s: Seq<char>) -> bool {
    &&& s.len() > 0
    &&& s != seq!['.']
    &&& s != seq!['.', '.']
    &&& forall|i: int|
        0 <= i < s.len() ==> (#[trigger] s[i]) != '/' && s[i] != '\\' && s[i] != '\0'
}

/// Whether `name` can stand as one path component.
pub fn is_safe_basename(name: &str) -> (r: bool)
    ensures
        r == is_safe_name(name@),
{
    let chars = chars_of(name);
    if chars.len() == 0 {
        return false;
    }
    if chars.len() == 1 && chars[0] == '.' {
        assert(name@ =~= seq!['.']);
        return false;
    }
    if chars.len() == 2 && chars[0] == '.' && chars[1] == '.' {
        assert(name@ =~= seq!['.', '.']);
        return false;
    }
    proof {
        if name@ == seq!['.'] {
            assert(name@.len() == 1 && name@[0] == '.');
        }
        if name@ == seq!['.', '.'] {
            assert(name@.len() == 2 && name@[0] == '.' && name@[1] == '.');
        }
    }
    let mut i: usize = 0;
    while i < chars.len()
        invariant
            i <= chars@.len(),
            chars@ == name@,
            forall|j: int|
                0 <= j < i ==> (#[trigger] name@[j]) != '/' && name@[j] != '\\' && name@[j]
                    != '\0',
        decreases chars.len() - i,
    {
        let c: char = chars[i];
        if c == '/' || c == '\\' || c == '\0' {
            assert(name@[i as int] == c);
            return false;
        }
        i = i + 1;
    }
    true
}

/// The planned destination of one support file.
#[derive(Debug, Clone, PartialEq, Eq)]
pub struct SupportPlanItem {
    pub path: String,
    pub role: SideFileRole,
    pub association: SupportAssociation,
    pub attached_set: Option<String>,
    /// Only for a file attached to a set that was planned.
    pub proposed_destination: Option<String>,
    pub status: PlanStatus,
}

/// The contents of a [`SupportPlanItem`].
pub struct SupportItemModel {
    pub path: Seq<char>,
    pub role: SideFileRole,
    pub association: AssociationModel,
    pub attached_set: Option<Seq<char>>,
    pub proposed_destination: Option<Seq<char>>,
    pub status: PlanStatus,
}

impl View for SupportPlanItem {
    type V = SupportItemModel;

    open spec fn view(&self) -> SupportItemModel {
        SupportItemModel {
            path: self.path@,
            role: self.role,
            association: self.association@,
            attached_set: opt_view(self.attached_set),
            proposed_destination: opt_view(self.proposed_destination),
            status: self.status,
        }
    }
}

/// The contents of a sequence of support items.
pub open spec fn support_item_models(s: Seq<SupportPlanItem>) -> Seq<SupportItemModel> {
    s.map_values(|i: SupportPlanItem| i@)
}

/// A planned set.
#[derive(Debug, Clone, PartialEq, Eq)]
pub struct SetDestinationPlan {
    pub set_label: String,
    pub set_folder: String,
    /// Source and destination of every member.
    pub member_destinations: Vec<(String, String)>,
}

/// The contents of a [`SetDestinationPlan`].
pub struct SetPlanModel {
    pub set_label: Seq<char>,
    pub set_folder: Seq<char>,
    pub member_destinations: Seq<(Seq<char>, Seq<char>)>,
}

impl View for SetDestinationPlan {
    type V = SetPlanModel;

    open spec fn view(&self) -> SetPlanModel {
        SetPlanModel {
            set_label: self.set_label@,
            set_folder: self.set_folder@,
            member_destinations: self.member_destinations@.map_values(
                |p: (String, String)| (p.0@, p.1@),
            ),
        }
    }
}

/// The contents of a sequence of set plans.
pub open spec fn set_plan_models(s: Seq<SetDestinationPlan>) -> Seq<SetPlanModel> {
    s.map_values(|p: SetDestinationPlan| p@)
}

/// All planned sets and support files.
#[derive(Debug, Clone, PartialEq, Eq)]
pub struct SetDestinationReport {
    pub sets: Vec<SetDestinationPlan>,
    pub support_items: Vec<SupportPlanItem>,
}

impl Default for SetDestinationReport {
    /// Nothing is planned.
    fn default() -> (r: SetDestinationReport)
        ensures
            r.sets@.len() == 0,
            r.support_items@.len() == 0,
    {
        SetDestinationReport { sets: Vec::new(), support_items: Vec::new() }
    }
}

/// A support file that has been classified and attached.
#[derive(Debug, Clone, PartialEq, Eq)]
pub struct SupportCandidate<'a> {
    pub path: &'a str,
    pub role: SideFileRole,
    pub association: SupportAssociation,
    /// The safe references of a cue sheet or playlist; empty for other roles.
    pub referenced_members: Vec<String>,
}

/// The contents of a [`SupportCandidate`].
pub struct SupportModel {
    pub path: Seq<char>,
    pub role: SideFileRole,
    pub association: AssociationModel,
    pub referenced_members: Seq<Seq<char>>,
}

impl<'a> View for SupportCandidate<'a> {
    type V = SupportModel;

    open spec fn view(&self) -> SupportModel {
        SupportModel {
            path: self.path@,
            role: self.role,
            association: self.association@,
            referenced_members: views(self.referenced_members@),
        }
    }
}

/// The contents of a sequence of candidates.
pub open spec fn support_models(s: Seq<SupportCandidate<'_>>) -> Seq<SupportModel> {
    s.map_values(|c: SupportCandidate<'_>| c@)
}

/// The test for the plan of the file at `path`.
pub open spec fn plan_for(path: Seq<char>) -> spec_fn(LibraryItemPlan) -> bool {
    |item: LibraryItemPlan| components(item.organisation.source_path@) == components(path)
}

/// The folder and destination of one member below the folder `label`: only for
/// a file whose plan is ready.
pub open spec fn member_place(
    items: Seq<LibraryItemPlan>,
    label: Seq<char>,
    path: Seq<char>,
) -> Option<(Seq<char>, Seq<char>)> {
    let k = first_index(items, plan_for(path));
    if 0 <= k < items.len() && items[k].status == PlanStatus::Ready {
        let destination = items[k].organisation.destination_path@;
        match (parent(destination), file_name(destination)) {
            (Some(dir), Some(name)) => Some((join(dir, label), join(join(dir, label), name))),
            _ => None,
        }
    } else {
        None
    }
}

/// The plan of the set `label` with the given members: every one of them needs
/// a place.
pub open spec fn nested_set(
    items: Seq<LibraryItemPlan>,
    label: Seq<char>,
    members: Seq<Seq<char>>,
) -> Option<SetPlanModel> {
    if is_safe_name(label) && members.len() > 0 && (forall|i: int|
        0 <= i < members.len() ==> member_place(items, label, #[trigger] members[i]) is Some) {
        Some(
            SetPlanModel {
                set_label: label,
                set_folder: (member_place(items, label, members[0])->0).0,
                member_destinations: members.map_values(
                    |m: Seq<char>| (m, (member_place(items, label, m)->0).1),
                ),
            },
        )
    } else {
        None
    }
}

/// The source paths of a disc set.
pub open spec fn disc_paths(set: DiscSetModel) -> Seq<Seq<char>> {
    set.discs.map_values(|d: (nat, Seq<char>)| d.1)
}

/// The plans of the disc sets that can be planned, in order.
pub open spec fn disc_plans(items: Seq<LibraryItemPlan>, sets: Seq<DiscSetModel>) -> Seq<
    SetPlanModel,
>
    decreases sets.len(),
{
    if sets.len() == 0 {
        seq![]
    } else {
        let before = disc_plans(items, sets.drop_last());
        match nested_set(items, sets.last().base_title, disc_paths(sets.last())) {
            Some(plan) => before.push(plan),
            None => before,
        }
    }
}

/// The test for the plan of the set `label`.
pub open spec fn set_named(label: Seq<char>) -> spec_fn(SetPlanModel) -> bool {
    |p: SetPlanModel| p.set_label == label
}

/// Some plan is for the set `label`.
pub open spec fn has_set(plans: Seq<SetPlanModel>, label: Seq<char>) -> bool {
    first_index(plans, set_named(label)) < plans.len()
}

/// The plans once the attached candidates have added the sets that their own
/// references describe.
pub open spec fn with_attached(
    items: Seq<LibraryItemPlan>,
    plans: Seq<SetPlanModel>,
    candidates: Seq<SupportModel>,
) -> Seq<SetPlanModel>
    decreases candidates.len(),
{
    if candidates.len() == 0 {
        plans
    } else {
        let before = with_attached(items, plans, candidates.drop_last());
        match candidates.last().association {
            AssociationModel::Attached(label) => if has_set(before, label) {
                before
            } else {
                match nested_set(items, label, candidates.last().referenced_members) {
                    Some(plan) => before.push(plan),
                    None => before,
                }
            },
            _ => before,
        }
    }
}

/// Where a support file would go.
pub open spec fn support_destination(plans: Seq<SetPlanModel>, candidate: SupportModel) -> Option<
    Seq<char>,
> {
    match candidate.association {
        AssociationModel::Attached(label) => {
            let k = first_index(plans, set_named(label));
            if 0 <= k < plans.len() {
                match file_name(candidate.path) {
                    Some(name) => Some(join(plans[k].set_folder, name)),
                    None => None,
                }
            } else {
                None
            }
        },
        _ => None,
    }
}

/// The plan of one support file.
pub open spec fn support_item(
    plans: Seq<SetPlanModel>,
    candidate: SupportModel,
) -> SupportItemModel {
    let destination = support_destination(plans, candidate);
    SupportItemModel {
        path: candidate.path,
        role: candidate.role,
        association: candidate.association,
        attached_set: match candidate.association {
            AssociationModel::Attached(label) => Some(label),
            _ => None,
        },
        proposed_destination: destination,
        status: if destination is Some {
            PlanStatus::Ready
        } else if candidate.association is Unassociated {
            PlanStatus::Unsupported
        } else {
            PlanStatus::NeedsReview
        },
    }
}

/// All planned sets: multi-disc titles first, then those of attached listings.
pub open spec fn planned_sets(
    items: Seq<LibraryItemPlan>,
    disc_sets: Seq<DiscSetModel>,
    candidates: Seq<SupportModel>,
) -> Seq<SetPlanModel> {
    with_attached(items, disc_plans(items, disc_sets), candidates)
}

/// The plans of all support files.
pub open spec fn support_items_of(plans: Seq<SetPlanModel>, candidates: Seq<SupportModel>) -> Seq<
    SupportItemModel,
> {
    candidates.map_values(|c: SupportModel| support_item(plans, c))
}

fn place_member(items: &Vec<LibraryItemPlan>, label: &str, path: &str) -> (r: Option<
    (String, String),
>)
    ensures
        match r {
            Some((folder, destination)) => member_place(items@, label@, path@) == Some(
                (folder@, destination@),
            ),
            None => member_place(items@, label@, path@) is None,
        },
{
    let mut k: usize = 0;
    while k < items.len() && !same_path(items[k].organisation.source_path.as_str(), path)
        invariant
            k <= items@.len(),
            forall|j: int| 0 <= j < k ==> !plan_for(path@)(#[trigger] items@[j]),
        ensures
            k <= items@.len(),
            forall|j: int| 0 <= j < k ==> !plan_for(path@)(#[trigger] items@[j]),
            k < items@.len() ==> plan_for(path@)(items@[k as int]),
        decreases items.len() - k,
    {
        k = k + 1;
    }
    proof {
        first_index_unique(items@, plan_for(path@), k as int);
    }
    if k == items.len() {
        return None;
    }
    if items[k].status != PlanStatus::Ready {
        return None;
    }
    let destination = items[k].organisation.destination_path.as_str();
    match (parent_of(destination), file_name_of(destination)) {
        (Some(dir), Some(name)) => {
            let folder = join_path(dir.as_str(), label);
            let place = join_path(folder.as_str(), name.as_str());
            Some((folder, place))
        },
        _ => None,
    }
}

fn nest_members(items: &Vec<LibraryItemPlan>, label: &str, members: &Vec<String>) -> (r: Option<
    SetDestinationPlan,
>)
    ensures
        match r {
            Some(plan) => nested_set(items@, label@, views(members@)) == Some(plan@),
            None => nested_set(items@, label@, views(members@)) is None,
        },
{
    let ghost all = views(members@);
    if !is_safe_basename(label) || members.len() == 0 {
        return None;
    }
    let ghost placed = all.map_values(|m: Seq<char>| (m, (member_place(items@, label@, m)->0).1));
    let mut set_folder: Option<String> = None;
    let mut member_destinations: Vec<(String, String)> = Vec::new();
    let ghost pair = |p: (String, String)| (p.0@, p.1@);
    let mut i: usize = 0;
    assert(member_destinations@.map_values(pair) =~= placed.take(0));
    while i < members.len()
        invariant
            i <= members@.len(),
            all == views(members@),
            is_safe_name(label@),
            placed == all.map_values(
                |m: Seq<char>| (m, (member_place(items@, label@, m)->0).1),
            ),
            pair == (|p: (String, String)| (p.0@, p.1@)),
            forall|j: int| 0 <= j < i ==> member_place(items@, label@, #[trigger] all[j]) is Some,
            i > 0 ==> opt_view(set_folder) == Some((member_place(items@, label@, all[0])->0).0),
            i == 0 ==> set_folder is None,
            member_destinations@.map_values(pair) == placed.take(i as int),
        decreases members.len() - i,
    {
        assert(all[i as int] == members@[i as int]@);
        match place_member(items, label, members[i].as_str()) {
            Some((folder, destination)) => {
                if set_folder.is_none() {
                    set_folder = Some(folder);
                }
                let entry = (members[i].clone(), destination);
                proof {
                    assert(placed[i as int] == (entry.0@, entry.1@));
                    assert(member_destinations@.push(entry).map_values(pair)
                        =~= member_destinations@.map_values(pair).push((entry.0@, entry.1@)));
                    assert(placed.take(i + 1) =~= placed.take(i as int).push(
                        (entry.0@, entry.1@),
                    ));
                }
                member_destinations.push(entry);
            },
            None => {
                return None;
            },
        }
        i = i + 1;
    }
    proof {
        assert(all.len() == members@.len());
        assert(placed.take(i as int) =~= placed);
    }
    match set_folder {
        Some(set_folder) => {
            let plan = SetDestinationPlan {
                set_label: label.to_owned(),
                set_folder,
                member_destinations,
            };
            assert(plan@.member_destinations =~= placed);
            Some(plan)
        },
        None => None,
    }
}

fn disc_source_paths(set: &MultiDiscSet) -> (r: Vec<String>)
    ensures
        views(r@) == disc_paths(set@),
{
    let ghost all = disc_paths(set@);
    let mut out: Vec<String> = Vec::new();
    let mut i: usize = 0;
    while i < set.discs.len()
        invariant
            i <= set.discs@.len(),
            all == disc_paths(set@),
            views(out@) == all.take(i as int),
        decreases set.discs.len() - i,
    {
        let path = set.discs[i].1.clone();
        proof {
            assert(set@.discs[i as int] == (set.discs@[i as int].0 as nat, path@));
            assert(all[i as int] == path@);
            assert(views(out@.push(path)) =~= views(out@).push(path@));
            assert(all.take(i + 1) =~= all.take(i as int).push(path@));
        }
        out.push(path);
        i = i + 1;
    }
    assert(all.len() == set.discs@.len());
    assert(all.take(i as int) =~= all);
    out
}

fn find_set(plans: &Vec<SetDestinationPlan>, label: &str) -> (r: usize)
    ensures
        r == first_index(set_plan_models(plans@), set_named(label@)),
        r <= plans@.len(),
{
    let ghost models = set_plan_models(plans@);
    let mut k: usize = 0;
    while k < plans.len() && !same_text(plans[k].set_label.as_str(), label)
        invariant
            k <= plans@.len(),
            models == set_plan_models(plans@),
            forall|j: int| 0 <= j < k ==> !set_named(label@)(#[trigger] models[j]),
        ensures
            k <= plans@.len(),
            forall|j: int| 0 <= j < k ==> !set_named(label@)(#[trigger] models[j]),
            k < plans@.len() ==> set_named(label@)(models[k as int]),
        decreases plans.len() - k,
    {
        k = k + 1;
    }
    proof {
        first_index_unique(models, set_named(label@), k as int);
    }
    k
}

fn resolve_support_item(candidate: &SupportCandidate<'_>, plans: &Vec<SetDestinationPlan>) -> (r:
    SupportPlanItem)
    ensures
        r@ == support_item(set_plan_models(plans@), candidate@),
{
    let association = candidate.association.copy();
    match &candidate.association {
        SupportAssociation::Attached { set_label } => {
            let k: usize = find_set(plans, set_label.as_str());
            assert(set_plan_models(plans@).len() == plans@.len());
            let proposed_destination = if k < plans.len() {
                assert(set_plan_models(plans@)[k as int] == plans@[k as int]@);
                match file_name_of(candidate.path) {
                    Some(name) => Some(
                        join_path(plans[k].set_folder.as_str(), name.as_str()),
                    ),
                    None => None,
                }
            } else {
                None
            };
            let status = if proposed_destination.is_some() {
                PlanStatus::Ready
            } else {
                PlanStatus::NeedsReview
            };
            SupportPlanItem {
                path: candidate.path.to_owned(),
                role: candidate.role,
                association,
                attached_set: Some(set_label.clone()),
                proposed_destination,
                status,
            }
        },
        SupportAssociation::Unassociated => SupportPlanItem {
            path: candidate.path.to_owned(),
            role: candidate.role,
            association,
            attached_set: None,
            proposed_destination: None,
            status: PlanStatus::Unsupported,
        },
        _ => SupportPlanItem {
            path: candidate.path.to_owned(),
            role: candidate.role,
            association,
            attached_set: None,
            proposed_destination: None,
            status: PlanStatus::NeedsReview,
        },
    }
}

/// Plans the folders of all sets and the places of their support files.
pub fn plan_set_destinations(
    report: &LibraryPlanningReport,
    multidisc_sets: &[MultiDiscSet],
    support_candidates: &[SupportCandidate<'_>],
) -> (r: SetDestinationReport)
    ensures
        set_plan_models(r.sets@) == planned_sets(
            report.items@,
            disc_set_models(multidisc_sets@),
            support_models(support_candidates@),
        ),
        support_item_models(r.support_items@) == support_items_of(
            set_plan_models(r.sets@),
            support_models(support_candidates@),
        ),
{
    let items = &report.items;
    let ghost discs = disc_set_models(multidisc_sets@);
    let ghost candidates = support_models(support_candidates@);
    let mut sets: Vec<SetDestinationPlan> = Vec::new();
    let mut i: usize = 0;
    assert(set_plan_models(sets@) =~= disc_plans(items@, discs.take(0)));
    while i < multidisc_sets.len()
        invariant
            i <= multidisc_sets@.len(),
            discs == disc_set_models(multidisc_sets@),
            set_plan_models(sets@) == disc_plans(items@, discs.take(i as int)),
        decreases multidisc_sets.len() - i,
    {
        let set = &multidisc_sets[i];
        proof {
            assert(discs.take(i + 1).drop_last() =~= discs.take(i as int));
            assert(discs.take(i + 1).last() == set@);
        }
        let paths = disc_source_paths(set);
        if let Some(plan) = nest_members(items, set.base_title.as_str(), &paths) {
            assert(set_plan_models(sets@.push(plan)) =~= set_plan_models(sets@).push(plan@));
            sets.push(plan);
        }
        i = i + 1;
    }
    assert(discs.take(i as int) =~= discs);
    let ghost first = set_plan_models(sets@);
    let mut n: usize = 0;
    assert(set_plan_models(sets@) == with_attached(items@, first, candidates.take(0)));
    while n < support_candidates.len()
        invariant
            n <= support_candidates@.len(),
            candidates == support_models(support_candidates@),
            set_plan_models(sets@) == with_attached(items@, first, candidates.take(n as int)),
        decreases support_candidates.len() - n,
    {
        let candidate = &support_candidates[n];
        proof {
            assert(candidates.take(n + 1).drop_last() =~= candidates.take(n as int));
            assert(candidates.take(n + 1).last() == candidate@);
            assert(set_plan_models(sets@).len() == sets@.len());
        }
        if let SupportAssociation::Attached { set_label } = &candidate.association {
            if find_set(&sets, set_label.as_str()) == sets.len() {
                if let Some(plan) = nest_members(
                    items,
                    set_label.as_str(),
                    &candidate.referenced_members,
                ) {
                    assert(set_plan_models(sets@.push(plan)) =~= set_plan_models(sets@).push(
                        plan@,
                    ));
                    sets.push(plan);
                }
            }
        }
        n = n + 1;
    }
    assert(candidates.take(n as int) =~= candidates);
    let ghost plans = set_plan_models(sets@);
    let ghost want = support_items_of(plans, candidates);
    let mut support_items: Vec<SupportPlanItem> = Vec::new();
    let mut k: usize = 0;
    while k < support_candidates.len()
        invariant
            k <= support_candidates@.len(),
            candidates == support_models(support_candidates@),
            plans == set_plan_models(sets@),
            want == support_items_of(plans, candidates),
            support_item_models(support_items@) == want.take(k as int),
        decreases support_candidates.len() - k,
    {
        let item = resolve_support_item(&support_candidates[k], &sets);
        proof {
            assert(candidates[k as int] == support_candidates@[k as int]@);
            assert(want[k as int] == item@);
            assert(support_item_models(support_items@.push(item)) =~= support_item_models(
                support_items@,
            ).push(item@));
            assert(want.take(k + 1) =~= want.take(k as int).push(item@));
        }
        support_items.push(item);
        k = k + 1;
    }
    assert(want.take(k as int) =~= want);
    SetDestinationReport { sets, support_items }
}

/// A support file has a destination exactly when its status is ready, and only
/// ever one in the folder of the planned set it is attached to.
pub proof fn support_destinations_belong_to_sets(
    plans: Seq<SetPlanModel>,
    candidate: SupportModel,
)
    ensures
        support_item(plans, candidate).proposed_destination is Some <==> support_item(
            plans,
            candidate,
        ).status == PlanStatus::Ready,
        support_item(plans, candidate).proposed_destination is Some ==> candidate.association
            is Attached && exists|k: int|
            0 <= k < plans.len() && (#[trigger] plans[k]).set_label
                == candidate.association->Attached_0 && support_item(
                plans,
                candidate,
            ).proposed_destination == Some(
                join(plans[k].set_folder, file_name(candidate.path)->0),
            ),
{
    if let AssociationModel::Attached(label) = candidate.association {
        crate::seqs::first_index_props(plans, set_named(label));
        let k = first_index(plans, set_named(label));
        if 0 <= k < plans.len() {
            assert(plans[k].set_label == label);
        }
    }
}

/// A set is planned only as a whole: each member of a planned set has a plan of
/// its own that is ready.
pub proof fn planned_sets_are_complete(
    items: Seq<LibraryItemPlan>,
    label: Seq<char>,
    members: Seq<Seq<char>>,
    i: int,
)
    requires
        nested_set(items, label, members) is Some,
        0 <= i < members.len(),
    ensures
        is_safe_name(label),
        exists|k: int|
            0 <= k < items.len() && (#[trigger] items[k]).status == PlanStatus::Ready
                && components(items[k].organisation.source_path@) == components(members[i]),
        (nested_set(items, label, members)->0).member_destinations.len() == members.len(),
        (nested_set(items, label, members)->0).member_destinations[i].0 == members[i],
{
    assert(member_place(items, label, members[i]) is Some);
    crate::seqs::first_index_props(items, plan_for(members[i]));
    let k = first_index(items, plan_for(members[i]));
    assert(plan_for(members[i])(items[k]));
}

/// `plan` is that of a multi-disc title, whole.
pub open spec fn is_disc_plan(
    items: Seq<LibraryItemPlan>,
    disc_sets: Seq<DiscSetModel>,
    plan: SetPlanModel,
) -> bool {
    exists|d: int|
        0 <= d < disc_sets.len() && nested_set(
            items,
            (#[trigger] disc_sets[d]).base_title,
            disc_paths(disc_sets[d]),
        ) == Some(plan)
}

/// `plan` is that of what an attached listing refers to, whole.
pub open spec fn is_listing_plan(
    items: Seq<LibraryItemPlan>,
    candidates: Seq<SupportModel>,
    plan: SetPlanModel,
) -> bool {
    exists|c: int|
        0 <= c < candidates.len() && (#[trigger] candidates[c]).association
            == AssociationModel::Attached(plan.set_label) && nested_set(
            items,
            plan.set_label,
            candidates[c].referenced_members,
        ) == Some(plan)
}

proof fn disc_plans_come_from_titles(items: Seq<LibraryItemPlan>, disc_sets: Seq<DiscSetModel>)
    ensures
        forall|k: int|
            0 <= k < disc_plans(items, disc_sets).len() ==> is_disc_plan(
                items,
                disc_sets,
                #[trigger] disc_plans(items, disc_sets)[k],
            ),
    decreases disc_sets.len(),
{
    if disc_sets.len() > 0 {
        let rest = disc_sets.drop_last();
        let before = disc_plans(items, rest);
        let all = disc_plans(items, disc_sets);
        disc_plans_come_from_titles(items, rest);
        assert forall|k: int| 0 <= k < all.len() implies is_disc_plan(
            items,
            disc_sets,
            #[trigger] all[k],
        ) by {
            if k < before.len() {
                assert(all[k] == before[k]);
                let d = choose|d: int|
                    0 <= d < rest.len() && nested_set(
                        items,
                        (#[trigger] rest[d]).base_title,
                        disc_paths(rest[d]),
                    ) == Some(before[k]);
                assert(disc_sets[d] == rest[d]);
            } else {
                assert(disc_sets[disc_sets.len() - 1] == disc_sets.last());
            }
        }
    }
}

/// Every planned set is a multi-disc title or what an attached listing refers
/// to, planned whole. No set comes from anything else.
pub proof fn planned_sets_have_a_basis(
    items: Seq<LibraryItemPlan>,
    disc_sets: Seq<DiscSetModel>,
    candidates: Seq<SupportModel>,
)
    ensures
        forall|k: int|
            0 <= k < planned_sets(items, disc_sets, candidates).len() ==> {
                let plan = #[trigger] planned_sets(items, disc_sets, candidates)[k];
                is_disc_plan(items, disc_sets, plan) || is_listing_plan(items, candidates, plan)
            },
    decreases candidates.len(),
{
    let all = planned_sets(items, disc_sets, candidates);
    if candidates.len() == 0 {
        disc_plans_come_from_titles(items, disc_sets);
    } else {
        let rest = candidates.drop_last();
        let before = planned_sets(items, disc_sets, rest);
        planned_sets_have_a_basis(items, disc_sets, rest);
        assert forall|k: int| 0 <= k < all.len() implies is_disc_plan(
            items,
            disc_sets,
            #[trigger] all[k],
        ) || is_listing_plan(items, candidates, all[k]) by {
            if k < before.len() {
                assert(all[k] == before[k]);
                if is_listing_plan(items, rest, before[k]) {
                    let c = choose|c: int|
                        0 <= c < rest.len() && (#[trigger] rest[c]).association
                            == AssociationModel::Attached(before[k].set_label) && nested_set(
                            items,
                            before[k].set_label,
                            rest[c].referenced_members,
                        ) == Some(before[k]);
                    assert(candidates[c] == rest[c]);
                }
            } else {
                assert(candidates[candidates.len() - 1] == candidates.last());
            }
        }
    }
}

/// Every member of a planned set goes into a folder named after the set, inside
/// the directory its own plan puts it in.
pub proof fn members_are_nested(
    items: Seq<LibraryItemPlan>,
    label: Seq<char>,
    members: Seq<Seq<char>>,
    i: int,
)
    requires
        nested_set(items, label, members) is Some,
        0 <= i < members.len(),
    ensures
        ({
            let destination = (nested_set(items, label, members)->0).member_destinations[i].1;
            exists|k: int|
                {
                    &&& 0 <= k < items.len()
                    &&& plan_for(members[i])(#[trigger] items[k])
                    &&& match parent(items[k].organisation.destination_path@) {
                        Some(dir) => {
                            &&& is_under(join(dir, label), dir)
                            &&& is_under(destination, join(dir, label))
                        },
                        None => false,
                    }
                }
        }),
{
    assert(member_place(items, label, members[i]) is Some);
    crate::seqs::first_index_props(items, plan_for(members[i]));
    let k = first_index(items, plan_for(members[i]));
    assert(plan_for(members[i])(items[k]));
    let own = items[k].organisation.destination_path@;
    let dir = parent(own)->0;
    file_names_are_relative(own);
    if is_absolute(label) {
        assert(label[0] == '/');
    }
    join_stays_under(dir, label);
    join_stays_under(join(dir, label), file_name(own)->0);
}

/// A support file with a destination stays in the folder of its set.
pub proof fn support_stays_in_its_folder(plans: Seq<SetPlanModel>, candidate: SupportModel)
    ensures
        match support_item(plans, candidate).proposed_destination {
            Some(destination) => exists|k: int|
                0 <= k < plans.len() && (#[trigger] plans[k]).set_label
                    == candidate.association->Attached_0 && is_under(
                    destination,
                    plans[k].set_folder,
                ),
            None => true,
        },
{
    support_destinations_belong_to_sets(plans, candidate);
    file_names_are_relative(candidate.path);
    if support_item(plans, candidate).proposed_destination is Some {
        let k = choose|k: int|
            0 <= k < plans.len() && (#[trigger] plans[k]).set_label
                == candidate.association->Attached_0 && support_item(
                plans,
                candidate,
            ).proposed_destination == Some(
                join(plans[k].set_folder, file_name(candidate.path)->0),
            );
        join_stays_under(plans[k].set_folder, file_name(candidate.path)->0);
        assert(plans[k].set_label == candidate.association->Attached_0);
    }
}

/// Every member of a planned set goes to the directory its own plan puts it in,
/// there into a folder named after the set, and keeps the file name of its own
/// plan. The set's folder is that of its first member.
pub proof fn members_keep_their_own_names(
    items: Seq<LibraryItemPlan>,
    label: Seq<char>,
    members: Seq<Seq<char>>,
    i: int,
)
    requires
        nested_set(items, label, members) is Some,
        0 <= i < members.len(),
    ensures
        ({
            let plan = nested_set(items, label, members)->0;
            exists|k: int|
                {
                    let own = components(items[k].organisation.destination_path@);
                    let moved = components(plan.member_destinations[i].1);
                    &&& 0 <= k < items.len()
                    &&& components((#[trigger] items[k]).organisation.source_path@) == components(
                        members[i],
                    )
                    &&& forall|j: int|
                        0 <= j < k ==> components(
                            (#[trigger] items[j]).organisation.source_path@,
                        ) != components(members[i])
                    &&& items[k].status == PlanStatus::Ready
                    &&& own.len() > 0
                    &&& moved == own.drop_last().push(label).push(own.last())
                    &&& i == 0 ==> components(plan.set_folder) == own.drop_last().push(label)
                }
        }),
{
    let plan = nested_set(items, label, members)->0;
    let path = members[i];
    assert(member_place(items, label, path) is Some);
    crate::seqs::first_index_props(items, plan_for(path));
    let k = first_index(items, plan_for(path));
    assert(plan_for(path)(items[k]));
    assert forall|j: int| 0 <= j < k implies components(
        (#[trigger] items[j]).organisation.source_path@,
    ) != components(path) by {
        assert(!plan_for(path)(items[j]));
    }
    let own = items[k].organisation.destination_path@;
    let dir = parent(own)->0;
    let name = file_name(own)->0;
    crate::path::parents_drop_the_last_component(own);
    crate::path::file_names_are_last_components(own);
    if label.contains('/') {
        let j = choose|j: int| 0 <= j < label.len() && label[j] == '/';
        assert(label[j] != '/');
    }
    crate::path::join_adds_a_name(dir, label);
    crate::path::join_adds_a_name(join(dir, label), name);
    assert(plan.member_destinations[i].1 == join(join(dir, label), name));
}

/// Two members whose own plans put them into one directory under different file
/// names never go to one place.
pub proof fn members_with_different_names_stay_apart(
    items: Seq<LibraryItemPlan>,
    label: Seq<char>,
    members: Seq<Seq<char>>,
    i: int,
    j: int,
    k: int,
    l: int,
)
    requires
        nested_set(items, label, members) is Some,
        0 <= i < members.len(),
        0 <= j < members.len(),
        0 <= k < items.len(),
        0 <= l < items.len(),
        components(items[k].organisation.source_path@) == components(members[i]),
        components(items[l].organisation.source_path@) == components(members[j]),
        forall|m: int, n: int|
            0 <= m < items.len() && 0 <= n < items.len() && components(
                (#[trigger] items[m]).organisation.source_path@,
            ) == components((#[trigger] items[n]).organisation.source_path@) ==> m == n,
        components(items[k].organisation.destination_path@) != components(
            items[l].organisation.destination_path@,
        ),
    ensures
        ({
            let placed = (nested_set(items, label, members)->0).member_destinations;
            components(placed[i].1) != components(placed[j].1)
        }),
{
    let placed = (nested_set(items, label, members)->0).member_destinations;
    members_keep_their_own_names(items, label, members, i);
    members_keep_their_own_names(items, label, members, j);
    let a = components(items[k].organisation.destination_path@);
    let b = components(items[l].organisation.destination_path@);
    let x = components(placed[i].1);
    let y = components(placed[j].1);
    assert(x == a.drop_last().push(label).push(a.last()));
    assert(y == b.drop_last().push(label).push(b.last()));
    assert(a.len() > 0 && b.len() > 0);
    if x == y {
        assert(x.last() == a.last() && y.last() == b.last());
        assert(x.drop_last().drop_last() =~= a.drop_last());
        assert(y.drop_last().drop_last() =~= b.drop_last());
        assert(a =~= a.drop_last().push(a.last()));
        assert(b =~= b.drop_last().push(b.last()));
    }
}

/// A support file that has a destination is attached to a planned set, and goes
/// into that set's folder under its own file name. It has one whenever it is
/// attached to the label of a planned set and has a file name.
pub proof fn support_keeps_its_own_name(plans: Seq<SetPlanModel>, candidate: SupportModel)
    ensures
        ({
            let item = support_item(plans, candidate);
            let own = components(candidate.path);
            &&& item.path == candidate.path && item.role == candidate.role && item.association
                == candidate.association
            &&& item.proposed_destination matches Some(destination) ==> {
                &&& own.len() > 0
                &&& candidate.association is Attached
                &&& exists|k: int|
                    0 <= k < plans.len() && (#[trigger] plans[k]).set_label
                        == candidate.association->Attached_0 && components(destination)
                        == components(plans[k].set_folder).push(own.last())
            }
            &&& forall|k: int|
                0 <= k < plans.len() && candidate.association == AssociationModel::Attached(
                    (#[trigger] plans[k]).set_label,
                ) && file_name(candidate.path) is Some ==> item.proposed_destination is Some
            &&& item.status == if item.proposed_destination is Some {
                PlanStatus::Ready
            } else if candidate.association == AssociationModel::Unassociated {
                PlanStatus::Unsupported
            } else {
                PlanStatus::NeedsReview
            }
            &&& item.attached_set == match candidate.association {
                AssociationModel::Attached(label) => Some(label),
                _ => None,
            }
        }),
{
    crate::path::file_names_are_last_components(candidate.path);
    if let AssociationModel::Attached(label) = candidate.association {
        crate::seqs::first_index_props(plans, set_named(label));
        let k = first_index(plans, set_named(label));
        if 0 <= k < plans.len() {
            assert(plans[k].set_label == label);
            if file_name(candidate.path) is Some {
                crate::path::join_adds_a_name(plans[k].set_folder, file_name(candidate.path)->0);
            }
        } else {
            assert forall|j: int| 0 <= j < plans.len() implies (#[trigger] plans[j]).set_label
                != label by {
                assert(!set_named(label)(plans[j]));
            }
        }
    }
}

/// Every multi-disc title whose set can be planned is planned, and so is what
/// an attached listing refers to unless its label is taken already.
pub proof fn plannable_sets_are_planned(
    items: Seq<LibraryItemPlan>,
    disc_sets: Seq<DiscSetModel>,
    candidates: Seq<SupportModel>,
)
    ensures
        forall|d: int|
            0 <= d < disc_sets.len() ==> match nested_set(
                items,
                (#[trigger] disc_sets[d]).base_title,
                disc_paths(disc_sets[d]),
            ) {
                Some(plan) => planned_sets(items, disc_sets, candidates).contains(plan),
                None => true,
            },
        forall|c: int|
            0 <= c < candidates.len() ==> match (#[trigger] candidates[c]).association {
                AssociationModel::Attached(label) => nested_set(
                    items,
                    label,
                    candidates[c].referenced_members,
                ) is Some ==> exists|k: int|
                    0 <= k < planned_sets(items, disc_sets, candidates).len() && (
                    #[trigger] planned_sets(items, disc_sets, candidates)[k]).set_label == label,
                _ => true,
            },
    decreases candidates.len(),
{
    let all = planned_sets(items, disc_sets, candidates);
    if candidates.len() == 0 {
        disc_plans_are_all_there(items, disc_sets);
    } else {
        let rest = candidates.drop_last();
        let before = planned_sets(items, disc_sets, rest);
        plannable_sets_are_planned(items, disc_sets, rest);
        assert(all == before || (all.len() == before.len() + 1 && all.drop_last() == before)) by {
            assert(before.push(all.last()).drop_last() =~= before);
            if all.len() > before.len() {
                assert(all.drop_last() =~= before);
            }
        }
        assert forall|p: SetPlanModel| before.contains(p) implies all.contains(p) by {
            let k = choose|k: int| 0 <= k < before.len() && before[k] == p;
            if all != before {
                assert(all.drop_last()[k] == p);
            }
            assert(all[k] == p);
        }
        assert forall|c: int| 0 <= c < candidates.len() implies match (
        #[trigger] candidates[c]).association {
            AssociationModel::Attached(label) => nested_set(
                items,
                label,
                candidates[c].referenced_members,
            ) is Some ==> exists|k: int| 0 <= k < all.len() && (#[trigger] all[k]).set_label
                == label,
            _ => true,
        } by {
            if let AssociationModel::Attached(label) = candidates[c].association {
                if nested_set(items, label, candidates[c].referenced_members) is Some {
                    if c < rest.len() {
                        assert(rest[c] == candidates[c]);
                        let k = choose|k: int|
                            0 <= k < before.len() && (#[trigger] before[k]).set_label == label;
                        if all != before {
                            assert(all.drop_last()[k] == before[k]);
                        }
                        assert(all[k].set_label == label);
                    } else if has_set(before, label) {
                        crate::seqs::first_index_props(before, set_named(label));
                        let k = first_index(before, set_named(label));
                        assert(set_named(label)(before[k]));
                        assert(all[k].set_label == label);
                    } else {
                        assert(all[all.len() - 1].set_label == label);
                    }
                }
            }
        }
    }
}

proof fn disc_plans_are_all_there(items: Seq<LibraryItemPlan>, disc_sets: Seq<DiscSetModel>)
    ensures
        forall|d: int|
            0 <= d < disc_sets.len() ==> match nested_set(
                items,
                (#[trigger] disc_sets[d]).base_title,
                disc_paths(disc_sets[d]),
            ) {
                Some(plan) => disc_plans(items, disc_sets).contains(plan),
                None => true,
            },
    decreases disc_sets.len(),
{
    if disc_sets.len() > 0 {
        let rest = disc_sets.drop_last();
        let before = disc_plans(items, rest);
        let all = disc_plans(items, disc_sets);
        disc_plans_are_all_there(items, rest);
        assert forall|d: int| 0 <= d < disc_sets.len() implies match nested_set(
            items,
            (#[trigger] disc_sets[d]).base_title,
            disc_paths(disc_sets[d]),
        ) {
            Some(plan) => all.contains(plan),
            None => true,
        } by {
            if let Some(plan) = nested_set(
                items,
                disc_sets[d].base_title,
                disc_paths(disc_sets[d]),
            ) {
                if d < rest.len() {
                    assert(rest[d] == disc_sets[d]);
                    let k = choose|k: int| 0 <= k < before.len() && before[k] == plan;
                    assert(all[k] == plan);
                } else {
                    assert(all[all.len() - 1] == plan);
                }
            }
        }
    }
}

/// The item is the first plan for the path, and puts it somewhere.
pub open spec fn is_ready_plan_for(
    items: Seq<LibraryItemPlan>,
    path: Seq<char>,
    k: int,
) -> bool {
    &&& 0 <= k < items.len()
    &&& components(items[k].organisation.source_path@) == components(path)
    &&& forall|j: int|
        0 <= j < k ==> components((#[trigger] items[j]).organisation.source_path@) != components(
            path,
        )
    &&& items[k].status == PlanStatus::Ready
    &&& file_name(items[k].organisation.destination_path@) is Some
}

/// Some item is the ready plan for the path.
pub open spec fn has_ready_plan(items: Seq<LibraryItemPlan>, path: Seq<char>) -> bool {
    exists|k: int| #[trigger] is_ready_plan_for(items, path, k)
}

/// Members make a set exactly when there is one, the set's label can name a
/// folder, and every one of them has a plan of its own that is ready. The set
/// then has the label, and its members in their order.
pub proof fn ready_members_make_a_set(
    items: Seq<LibraryItemPlan>,
    label: Seq<char>,
    members: Seq<Seq<char>>,
)
    ensures
        nested_set(items, label, members) is Some <==> {
            &&& members.len() > 0
            &&& label.len() > 0 && label != seq!['.'] && label != seq!['.', '.']
            &&& !label.contains('/') && !label.contains('\\') && !label.contains('\0')
            &&& forall|i: int|
                0 <= i < members.len() ==> has_ready_plan(items, #[trigger] members[i])
        },
        nested_set(items, label, members) matches Some(plan) ==> {
            &&& plan.set_label == label
            &&& plan.member_destinations.len() == members.len()
            &&& forall|i: int|
                0 <= i < members.len() ==> (#[trigger] plan.member_destinations[i]).0 == members[i]
        },
{
    assert(is_safe_name(label) <==> label.len() > 0 && label != seq!['.'] && label != seq![
        '.',
        '.',
    ] && !label.contains('/') && !label.contains('\\') && !label.contains('\0')) by {
        if !label.contains('/') && !label.contains('\\') && !label.contains('\0') {
            assert forall|i: int| 0 <= i < label.len() implies (#[trigger] label[i]) != '/'
                && label[i] != '\\' && label[i] != '\0' by {
                assert(label.contains(label[i]));
            }
        }
    }
    assert forall|i: int| 0 <= i < members.len() implies (member_place(
        items,
        label,
        #[trigger] members[i],
    ) is Some <==> has_ready_plan(items, members[i])) by {
        places_need_a_ready_plan(items, label, members[i]);
    }
}

proof fn places_need_a_ready_plan(items: Seq<LibraryItemPlan>, label: Seq<char>, path: Seq<char>)
    ensures
        member_place(items, label, path) is Some <==> has_ready_plan(items, path),
{
    let k = first_index(items, plan_for(path));
    crate::seqs::first_index_props(items, plan_for(path));
    if k < items.len() {
        let own = items[k].organisation.destination_path@;
        crate::path::file_names_are_last_components(own);
        crate::path::parents_drop_the_last_component(own);
        if file_name(own) is Some && components(own) == seq![seq!['/']] {
            assert(components(own).last() == seq!['/']);
        }
        assert forall|j: int| 0 <= j < k implies components(
            (#[trigger] items[j]).organisation.source_path@,
        ) != components(path) by {
            assert(!plan_for(path)(items[j]));
        }
        assert(plan_for(path)(items[k]));
        if member_place(items, label, path) is Some {
            assert(is_ready_plan_for(items, path, k));
        }
    }
    if has_ready_plan(items, path) {
        let m = choose|m: int| #[trigger] is_ready_plan_for(items, path, m);
        assert forall|j: int| 0 <= j < m implies !plan_for(path)(#[trigger] items[j]) by {
        }
        first_index_unique(items, plan_for(path), m);
    }
}

} // verus!
