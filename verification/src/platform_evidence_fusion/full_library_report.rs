//! The whole planned picture of a library in one report.
//!
//! Everything here is composed from the plan, the duplicate groups, the
//! multi-disc sets and the set destinations; the counts are derived from them
//! and never kept separately.
use vstd::prelude::*;
use crate::platform_evidence_fusion::duplicate_taxonomy::{
    duplicates, group_duplicates, group_models, DuplicateClass, DuplicateGroup, GroupModel,
};
use crate::platform_evidence_fusion::library_grouping::{
    disc_set_models, disc_sets, group_multidisc_sets, group_revisions, revision_models, revisions,
    MultiDiscSet,
};
use crate::platform_evidence_fusion::library_planning::{LibraryPlanInput, LibraryPlanningReport};
use crate::platform_evidence_fusion::set_destination::{
    plan_set_destinations, planned_sets, set_plan_models, support_item_models, support_items_of,
    support_models, SetDestinationPlan, SupportCandidate, SupportModel, SupportPlanItem,
};
use crate::platform_evidence_fusion::support_attachment::{AssociationModel, SupportAssociation};

verus! {

/// The counts of a report.
#[derive(Debug, Clone, Copy, PartialEq, Eq)]
pub struct FullLibraryCounts {
    pub primary_items: usize,
    pub support_files: usize,
    pub support_attached: usize,
    pub support_candidate: usize,
    pub support_unassociated: usize,
    pub support_unsafe: usize,
    /// Always 0: games are not grouped.
    pub game_groups: usize,
    pub set_groups: usize,
    /// Lineages with two or more releases.
    pub release_groups: usize,
    pub exact_physical_duplicates: usize,
    pub normalized_duplicates: usize,
    pub same_dat_release_groups: usize,
    pub different_revision_groups: usize,
    pub possible_duplicate_groups: usize,
    pub ready: usize,
    pub needs_review: usize,
    pub ambiguous: usize,
    pub conflict: usize,
    pub unknown: usize,
    pub unsupported: usize,
    pub romm_mapped: usize,
    pub romm_unmapped: usize,
}

/// Counts that do not add up.
#[derive(Debug, Clone, Copy, PartialEq, Eq, Structural)]
pub enum CountMismatch {
    /// The plan statuses do not add up to the primary items.
    PlanStatuses,
    /// The support states do not add up to the support files.
    SupportStates,
}

impl Default for FullLibraryCounts {
    /// All zero.
    fn default() -> (r: FullLibraryCounts)
        ensures
            r == zero_counts(),
    {
        FullLibraryCounts {
            primary_items: 0,
            support_files: 0,
            support_attached: 0,
            support_candidate: 0,
            support_unassociated: 0,
            support_unsafe: 0,
            game_groups: 0,
            set_groups: 0,
            release_groups: 0,
            exact_physical_duplicates: 0,
            normalized_duplicates: 0,
            same_dat_release_groups: 0,
            different_revision_groups: 0,
            possible_duplicate_groups: 0,
            ready: 0,
            needs_review: 0,
            ambiguous: 0,
            conflict: 0,
            unknown: 0,
            unsupported: 0,
            romm_mapped: 0,
            romm_unmapped: 0,
        }
    }
}

/// All counts zero.
pub open spec fn zero_counts() -> FullLibraryCounts {
    FullLibraryCounts {
        primary_items: 0,
        support_files: 0,
        support_attached: 0,
        support_candidate: 0,
        support_unassociated: 0,
        support_unsafe: 0,
        game_groups: 0,
        set_groups: 0,
        release_groups: 0,
        exact_physical_duplicates: 0,
        normalized_duplicates: 0,
        same_dat_release_groups: 0,
        different_revision_groups: 0,
        possible_duplicate_groups: 0,
        ready: 0,
        needs_review: 0,
        ambiguous: 0,
        conflict: 0,
        unknown: 0,
        unsupported: 0,
        romm_mapped: 0,
        romm_unmapped: 0,
    }
}

impl FullLibraryCounts {
    /// The plan statuses add up to the primary items.
    pub open spec fn statuses_reconcile(self) -> bool {
        self.ready + self.needs_review + self.ambiguous + self.conflict + self.unknown
            + self.unsupported == self.primary_items
    }

    /// The support states add up to the support files.
    pub open spec fn support_reconciles(self) -> bool {
        self.support_attached + self.support_candidate + self.support_unassociated
            + self.support_unsafe == self.support_files
    }

    /// Checks that the counts add up.
    pub fn check_invariants(&self) -> (r: Result<(), CountMismatch>)
        ensures
            r == if !self.statuses_reconcile() {
                Err::<(), CountMismatch>(CountMismatch::PlanStatuses)
            } else if !self.support_reconciles() {
                Err(CountMismatch::SupportStates)
            } else {
                Ok(())
            },
    {
        let statuses: u128 = self.ready as u128 + self.needs_review as u128 + self.ambiguous as u128
            + self.conflict as u128 + self.unknown as u128 + self.unsupported as u128;
        if statuses != self.primary_items as u128 {
            return Err(CountMismatch::PlanStatuses);
        }
        let support: u128 = self.support_attached as u128 + self.support_candidate as u128
            + self.support_unassociated as u128 + self.support_unsafe as u128;
        if support != self.support_files as u128 {
            return Err(CountMismatch::SupportStates);
        }
        Ok(())
    }
}

/// The report.
#[derive(Debug, Clone, PartialEq, Eq)]
pub struct FullLibraryReport {
    pub plan: LibraryPlanningReport,
    pub duplicate_groups: Vec<DuplicateGroup>,
    pub multidisc_sets: Vec<MultiDiscSet>,
    pub set_destinations: Vec<SetDestinationPlan>,
    pub support_items: Vec<SupportPlanItem>,
    pub counts: FullLibraryCounts,
}

/// How many groups have one of two classes.
pub open spec fn class_count(groups: Seq<GroupModel>, a: DuplicateClass, b: DuplicateClass) -> nat
    decreases groups.len(),
{
    if groups.len() == 0 {
        0
    } else {
        class_count(groups.drop_last(), a, b) + if groups.last().classification == a
            || groups.last().classification == b {
            1nat
        } else {
            0nat
        }
    }
}

/// The four states of a support file.
pub enum SupportState {
    Attached,
    Candidate,
    Unassociated,
    Unsafe,
}

/// The state of a support file.
pub open spec fn support_state(association: AssociationModel) -> SupportState {
    match association {
        AssociationModel::Attached(_) => SupportState::Attached,
        AssociationModel::Candidate(_) => SupportState::Candidate,
        AssociationModel::Unassociated => SupportState::Unassociated,
        AssociationModel::UnsafeReference(_) => SupportState::Unsafe,
    }
}

/// How many support files are in `state`.
pub open spec fn state_count(candidates: Seq<SupportModel>, state: SupportState) -> nat
    decreases candidates.len(),
{
    if candidates.len() == 0 {
        0
    } else {
        state_count(candidates.drop_last(), state) + if support_state(
            candidates.last().association,
        ) == state {
            1nat
        } else {
            0nat
        }
    }
}

/// `counts` are the counts of a report on `inputs`, `plan` and `candidates`.
pub open spec fn counts_reflect(
    counts: FullLibraryCounts,
    inputs: Seq<LibraryPlanInput>,
    plan: LibraryPlanningReport,
    candidates: Seq<SupportModel>,
) -> bool {
    let groups = duplicates(inputs);
    &&& counts.primary_items == inputs.len()
    &&& counts.support_files == candidates.len()
    &&& counts.support_attached == state_count(candidates, SupportState::Attached)
    &&& counts.support_candidate == state_count(candidates, SupportState::Candidate)
    &&& counts.support_unassociated == state_count(candidates, SupportState::Unassociated)
    &&& counts.support_unsafe == state_count(candidates, SupportState::Unsafe)
    &&& counts.game_groups == 0
    &&& counts.set_groups == disc_sets(inputs).len()
    &&& counts.release_groups == revisions(inputs).len()
    &&& counts.exact_physical_duplicates == class_count(
        groups,
        DuplicateClass::ExactPhysicalDuplicate,
        DuplicateClass::ExactPhysicalDuplicate,
    )
    &&& counts.normalized_duplicates == class_count(
        groups,
        DuplicateClass::ExactNormalizedDuplicate,
        DuplicateClass::ExactNormalizedDuplicate,
    )
    &&& counts.same_dat_release_groups == class_count(
        groups,
        DuplicateClass::SameDatRelease,
        DuplicateClass::SameGameDifferentDump,
    )
    &&& counts.different_revision_groups == class_count(
        groups,
        DuplicateClass::SameGameDifferentRevision,
        DuplicateClass::SameGameDifferentRevision,
    )
    &&& counts.possible_duplicate_groups == class_count(
        groups,
        DuplicateClass::PossibleDuplicate,
        DuplicateClass::PossibleDuplicate,
    )
    &&& counts.ready == plan.ready
    &&& counts.needs_review == plan.needs_review
    &&& counts.ambiguous == plan.ambiguous
    &&& counts.conflict == plan.conflict
    &&& counts.unknown == plan.unknown
    &&& counts.unsupported == plan.unsupported
    &&& counts.romm_mapped == plan.romm_mapped
    &&& counts.romm_unmapped == plan.romm_unmapped
}

fn count_class(groups: &Vec<DuplicateGroup>, a: DuplicateClass, b: DuplicateClass) -> (r: usize)
    ensures
        r == class_count(group_models(groups@), a, b),
{
    let ghost all = group_models(groups@);
    let mut n: usize = 0;
    let mut i: usize = 0;
    assert(class_count(all.take(0), a, b) == 0);
    while i < groups.len()
        invariant
            i <= groups@.len(),
            n <= i,
            all == group_models(groups@),
            n == class_count(all.take(i as int), a, b),
        decreases groups.len() - i,
    {
        proof {
            assert(all.take(i + 1).drop_last() =~= all.take(i as int));
            assert(all.take(i + 1).last() == groups@[i as int]@);
        }
        if groups[i].classification == a || groups[i].classification == b {
            n = n + 1;
        }
        i = i + 1;
    }
    assert(all.take(i as int) =~= all);
    n
}

/// How many support files are attached, candidates, unassociated and unsafe.
fn count_states(candidates: &[SupportCandidate<'_>]) -> (r: (usize, usize, usize, usize))
    ensures
        r.0 == state_count(support_models(candidates@), SupportState::Attached),
        r.1 == state_count(support_models(candidates@), SupportState::Candidate),
        r.2 == state_count(support_models(candidates@), SupportState::Unassociated),
        r.3 == state_count(support_models(candidates@), SupportState::Unsafe),
{
    let ghost all = support_models(candidates@);
    let mut attached: usize = 0;
    let mut candidate: usize = 0;
    let mut unassociated: usize = 0;
    let mut unsafe_files: usize = 0;
    let mut i: usize = 0;
    assert(all.take(0) =~= seq![]);
    while i < candidates.len()
        invariant
            i <= candidates@.len(),
            attached <= i,
            candidate <= i,
            unassociated <= i,
            unsafe_files <= i,
            all == support_models(candidates@),
            attached == state_count(all.take(i as int), SupportState::Attached),
            candidate == state_count(all.take(i as int), SupportState::Candidate),
            unassociated == state_count(all.take(i as int), SupportState::Unassociated),
            unsafe_files == state_count(all.take(i as int), SupportState::Unsafe),
        decreases candidates.len() - i,
    {
        proof {
            assert(all.take(i + 1).drop_last() =~= all.take(i as int));
            assert(all.take(i + 1).last() == candidates@[i as int]@);
        }
        match &candidates[i].association {
            SupportAssociation::Attached { .. } => {
                attached = attached + 1;
            },
            SupportAssociation::Candidate { .. } => {
                candidate = candidate + 1;
            },
            SupportAssociation::Unassociated => {
                unassociated = unassociated + 1;
            },
            SupportAssociation::UnsafeReference { .. } => {
                unsafe_files = unsafe_files + 1;
            },
        }
        i = i + 1;
    }
    assert(all.take(i as int) =~= all);
    (attached, candidate, unassociated, unsafe_files)
}

/// Builds the report on a batch of files, the plan made for them, and their
/// support files.
pub fn build_full_report(
    inputs: &[LibraryPlanInput],
    plan: LibraryPlanningReport,
    support_candidates: &[SupportCandidate<'_>],
) -> (r: FullLibraryReport)
    ensures
        r.plan == plan,
        group_models(r.duplicate_groups@) == duplicates(inputs@),
        disc_set_models(r.multidisc_sets@) == disc_sets(inputs@),
        set_plan_models(r.set_destinations@) == planned_sets(
            plan.items@,
            disc_sets(inputs@),
            support_models(support_candidates@),
        ),
        support_item_models(r.support_items@) == support_items_of(
            set_plan_models(r.set_destinations@),
            support_models(support_candidates@),
        ),
        counts_reflect(r.counts, inputs@, plan, support_models(support_candidates@)),
{
    let duplicate_groups = group_duplicates(inputs);
    let multidisc_sets = group_multidisc_sets(inputs);
    let revision_groups = group_revisions(inputs);
    let destinations = plan_set_destinations(&plan, multidisc_sets.as_slice(), support_candidates);
    let (attached, candidate, unassociated, unsafe_files) = count_states(support_candidates);
    proof {
        assert(disc_set_models(multidisc_sets@).len() == multidisc_sets@.len());
        assert(revision_models(revision_groups@).len() == revision_groups@.len());
        assert(support_models(support_candidates@).len() == support_candidates@.len());
    }
    let counts = FullLibraryCounts {
        primary_items: inputs.len(),
        support_files: support_candidates.len(),
        support_attached: attached,
        support_candidate: candidate,
        support_unassociated: unassociated,
        support_unsafe: unsafe_files,
        game_groups: 0,
        set_groups: multidisc_sets.len(),
        release_groups: revision_groups.len(),
        exact_physical_duplicates: count_class(
            &duplicate_groups,
            DuplicateClass::ExactPhysicalDuplicate,
            DuplicateClass::ExactPhysicalDuplicate,
        ),
        normalized_duplicates: count_class(
            &duplicate_groups,
            DuplicateClass::ExactNormalizedDuplicate,
            DuplicateClass::ExactNormalizedDuplicate,
        ),
        same_dat_release_groups: count_class(
            &duplicate_groups,
            DuplicateClass::SameDatRelease,
            DuplicateClass::SameGameDifferentDump,
        ),
        different_revision_groups: count_class(
            &duplicate_groups,
            DuplicateClass::SameGameDifferentRevision,
            DuplicateClass::SameGameDifferentRevision,
        ),
        possible_duplicate_groups: count_class(
            &duplicate_groups,
            DuplicateClass::PossibleDuplicate,
            DuplicateClass::PossibleDuplicate,
        ),
        ready: plan.ready,
        needs_review: plan.needs_review,
        ambiguous: plan.ambiguous,
        conflict: plan.conflict,
        unknown: plan.unknown,
        unsupported: plan.unsupported,
        romm_mapped: plan.romm_mapped,
        romm_unmapped: plan.romm_unmapped,
    };
    FullLibraryReport {
        plan,
        duplicate_groups,
        multidisc_sets,
        set_destinations: destinations.sets,
        support_items: destinations.support_items,
        counts,
    }
}

proof fn states_add_up(candidates: Seq<SupportModel>)
    ensures
        state_count(candidates, SupportState::Attached) + state_count(
            candidates,
            SupportState::Candidate,
        ) + state_count(candidates, SupportState::Unassociated) + state_count(
            candidates,
            SupportState::Unsafe,
        ) == candidates.len(),
    decreases candidates.len(),
{
    if candidates.len() > 0 {
        states_add_up(candidates.drop_last());
    }
}

/// The support states of a report always add up, and its plan statuses add up
/// exactly when those of the plan add up to the number of files.
pub proof fn report_counts_reconcile(
    counts: FullLibraryCounts,
    inputs: Seq<LibraryPlanInput>,
    plan: LibraryPlanningReport,
    candidates: Seq<SupportModel>,
)
    requires
        counts_reflect(counts, inputs, plan, candidates),
    ensures
        counts.support_reconciles(),
        counts.statuses_reconcile() <==> plan.ready + plan.needs_review + plan.ambiguous
            + plan.conflict + plan.unknown + plan.unsupported == inputs.len(),
{
    states_add_up(candidates);
}

} // verus!
