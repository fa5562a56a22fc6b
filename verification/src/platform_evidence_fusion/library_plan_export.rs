//! Plans frozen as plain data: facts and intents, never actions.
use vstd::prelude::*;
use vstd::string::*;
use crate::dat::rom_organisation::OrganisationMode;
use crate::param_sfo::opt_str;
use crate::platform_evidence_fusion::duplicate_taxonomy::DuplicateClass;
use crate::platform_evidence_fusion::library_plan_presentation::LibraryPlanPresentation;
use crate::platform_evidence_fusion::library_planning::{
    LibraryItemPlan, PlanStatus, RenameBasis, RommMappingStatus,
};
use crate::platform_evidence_fusion::release_relationship::ReleaseRelationship;
use crate::text::{copy_opt, copy_strings, opt_view};

verus! {

/// What was known of the source when the plan was made.
#[derive(Debug, Clone, PartialEq, Eq)]
pub struct SourcePrecondition {
    pub source_path: String,
    pub physical_hash: Option<String>,
    pub normalized_hash: Option<String>,
}

/// What a plan proposes to do, as a label.
#[derive(Debug, Clone, Copy, PartialEq, Eq, Structural)]
pub enum OperationIntent {
    MoveToLibraryFolder,
    RenameInPlace,
    OrganiseSymlinkOnly,
    /// Nothing: the plan is not ready.
    NoOperation,
}

impl OperationIntent {
    /// What the intent is called in a digest line.
    pub open spec fn name_text(self) -> Seq<char> {
        match self {
            OperationIntent::MoveToLibraryFolder => "MoveToLibraryFolder"@,
            OperationIntent::RenameInPlace => "RenameInPlace"@,
            OperationIntent::OrganiseSymlinkOnly => "OrganiseSymlinkOnly"@,
            OperationIntent::NoOperation => "None"@,
        }
    }

    pub fn name(self) -> (r: &'static str)
        ensures
            r@ == self.name_text(),
    {
        match self {
            OperationIntent::MoveToLibraryFolder => "MoveToLibraryFolder",
            OperationIntent::RenameInPlace => "RenameInPlace",
            OperationIntent::OrganiseSymlinkOnly => "OrganiseSymlinkOnly",
            OperationIntent::NoOperation => "None",
        }
    }
}

/// One file's frozen plan.
#[derive(Debug, Clone, PartialEq, Eq)]
pub struct LibraryPlanExportItem {
    pub status: PlanStatus,
    pub precondition: SourcePrecondition,
    pub proposed_destination: Option<String>,
    pub operation_intent: OperationIntent,
    pub platform_library: Option<String>,
    pub display_name: String,
    pub romm_status: RommMappingStatus,
    pub romm_slug: Option<String>,
    pub rename_basis: RenameBasis,
    pub proposed_name: Option<String>,
    pub duplicate_classification: Option<DuplicateClass>,
    pub revision_relationship: Option<ReleaseRelationship>,
    pub set_label: Option<String>,
    pub set_destination: Option<String>,
    pub support_role: Option<String>,
    pub support_association: Option<String>,
    pub blockers: Vec<String>,
    pub warnings: Vec<String>,
    pub source_modified: bool,
}

/// A batch of frozen plans, in the order they were given.
#[derive(Debug, Clone, PartialEq, Eq)]
pub struct LibraryPlanExport {
    pub items: Vec<LibraryPlanExportItem>,
}

/// What is known of a file's set and support role.
#[derive(Debug, Clone, PartialEq, Eq)]
pub struct SetAndSupportContext {
    pub set_label: Option<String>,
    pub set_destination: Option<String>,
    pub support_role: Option<String>,
    pub support_association: Option<String>,
}

impl Default for SetAndSupportContext {
    /// Nothing is known.
    fn default() -> (r: SetAndSupportContext)
        ensures
            r.set_label is None,
            r.set_destination is None,
            r.support_role is None,
            r.support_association is None,
    {
        SetAndSupportContext {
            set_label: None,
            set_destination: None,
            support_role: None,
            support_association: None,
        }
    }
}

/// What a plan proposes to do: something only when it is ready.
pub open spec fn intent_of(plan: LibraryItemPlan) -> OperationIntent {
    if plan.status == PlanStatus::Ready {
        match plan.organisation.mode {
            OrganisationMode::MoveRealFile => OperationIntent::MoveToLibraryFolder,
            OrganisationMode::RenameInPlace => OperationIntent::RenameInPlace,
            OrganisationMode::OrganiseSymlinkOnly => OperationIntent::OrganiseSymlinkOnly,
        }
    } else {
        OperationIntent::NoOperation
    }
}

/// `item` freezes the plan and its presentation with the given hashes.
pub open spec fn exports(
    item: LibraryPlanExportItem,
    plan: LibraryItemPlan,
    presentation: LibraryPlanPresentation,
    physical_hash: Option<Seq<char>>,
    normalized_hash: Option<Seq<char>>,
) -> bool {
    &&& item.status == plan.status
    &&& item.precondition.source_path == plan.organisation.source_path
    &&& opt_view(item.precondition.physical_hash) == physical_hash
    &&& opt_view(item.precondition.normalized_hash) == normalized_hash
    &&& item.proposed_destination == presentation.destination_preview
    &&& item.operation_intent == intent_of(plan)
    &&& item.platform_library == presentation.platform_library
    &&& item.display_name@ == match presentation.identity.platform {
        Some(platform) => platform@,
        None => "Unknown"@,
    }
    &&& item.romm_status == plan.romm.status
    &&& item.romm_slug == plan.romm.slug
    &&& item.rename_basis == plan.rename.basis
    &&& item.proposed_name == plan.rename.proposed_name
    &&& item.duplicate_classification == match presentation.duplicate_relationship {
        Some(group) => Some(group.classification),
        None => None,
    }
    &&& item.revision_relationship == presentation.revision_relationship
    &&& item.blockers@ == presentation.blockers@
    &&& item.warnings@ == presentation.warnings@
    &&& item.source_modified == presentation.source_modified
}

/// `item` carries the set and support facts of `context`.
pub open spec fn carries(item: LibraryPlanExportItem, context: SetAndSupportContext) -> bool {
    &&& item.set_label == context.set_label
    &&& item.set_destination == context.set_destination
    &&& item.support_role == context.support_role
    &&& item.support_association == context.support_association
}

fn owned(s: Option<&str>) -> (r: Option<String>)
    ensures
        opt_view(r) == opt_str(s),
{
    match s {
        Some(t) => Some(t.to_owned()),
        None => None,
    }
}

/// Freezes one plan together with what is known of its set and support role.
pub fn export_item_with_context(
    plan: &LibraryItemPlan,
    presentation: &LibraryPlanPresentation,
    physical_hash: Option<&str>,
    normalized_hash: Option<&str>,
    context: &SetAndSupportContext,
) -> (r: LibraryPlanExportItem)
    ensures
        exports(r, *plan, *presentation, opt_str(physical_hash), opt_str(normalized_hash)),
        carries(r, *context),
{
    let entry = &plan.organisation;
    let operation_intent = if plan.status == PlanStatus::Ready {
        match entry.mode {
            OrganisationMode::MoveRealFile => OperationIntent::MoveToLibraryFolder,
            OrganisationMode::RenameInPlace => OperationIntent::RenameInPlace,
            OrganisationMode::OrganiseSymlinkOnly => OperationIntent::OrganiseSymlinkOnly,
        }
    } else {
        OperationIntent::NoOperation
    };
    let display_name = match presentation.identity.platform {
        Some(platform) => platform.to_owned(),
        None => "Unknown".to_owned(),
    };
    let duplicate_classification = match &presentation.duplicate_relationship {
        Some(group) => Some(group.classification),
        None => None,
    };
    let revision_relationship = match &presentation.revision_relationship {
        Some(revision) => Some(revision.copy()),
        None => None,
    };
    LibraryPlanExportItem {
        status: plan.status,
        precondition: SourcePrecondition {
            source_path: entry.source_path.clone(),
            physical_hash: owned(physical_hash),
            normalized_hash: owned(normalized_hash),
        },
        proposed_destination: copy_opt(&presentation.destination_preview),
        operation_intent,
        platform_library: copy_opt(&presentation.platform_library),
        display_name,
        romm_status: plan.romm.status,
        romm_slug: copy_opt(&plan.romm.slug),
        rename_basis: plan.rename.basis,
        proposed_name: copy_opt(&plan.rename.proposed_name),
        duplicate_classification,
        revision_relationship,
        set_label: copy_opt(&context.set_label),
        set_destination: copy_opt(&context.set_destination),
        support_role: copy_opt(&context.support_role),
        support_association: copy_opt(&context.support_association),
        blockers: copy_strings(&presentation.blockers),
        warnings: copy_strings(&presentation.warnings),
        source_modified: presentation.source_modified,
    }
}

/// Freezes one plan. The hashes are carried over, never computed.
pub fn export_item(
    plan: &LibraryItemPlan,
    presentation: &LibraryPlanPresentation,
    physical_hash: Option<&str>,
    normalized_hash: Option<&str>,
) -> (r: LibraryPlanExportItem)
    ensures
        exports(r, *plan, *presentation, opt_str(physical_hash), opt_str(normalized_hash)),
        r.set_label is None,
        r.set_destination is None,
        r.support_role is None,
        r.support_association is None,
{
    let context = SetAndSupportContext {
        set_label: None,
        set_destination: None,
        support_role: None,
        support_association: None,
    };
    export_item_with_context(plan, presentation, physical_hash, normalized_hash, &context)
}

/// Freezes a batch of plans, one item for each, in the given order.
pub fn export_plan(
    items: &[(&LibraryItemPlan, &LibraryPlanPresentation, Option<&str>, Option<&str>)],
) -> (r: LibraryPlanExport)
    ensures
        r.items@.len() == items@.len(),
        forall|i: int|
            0 <= i < items@.len() ==> exports(
                #[trigger] r.items@[i],
                *items@[i].0,
                *items@[i].1,
                opt_str(items@[i].2),
                opt_str(items@[i].3),
            ) && carries(
                r.items@[i],
                (SetAndSupportContext {
                    set_label: None,
                    set_destination: None,
                    support_role: None,
                    support_association: None,
                }),
            ),
{
    let mut out: Vec<LibraryPlanExportItem> = Vec::new();
    let mut i: usize = 0;
    while i < items.len()
        invariant
            i <= items@.len(),
            out@.len() == i,
            forall|j: int|
                0 <= j < i ==> exports(
                    #[trigger] out@[j],
                    *items@[j].0,
                    *items@[j].1,
                    opt_str(items@[j].2),
                    opt_str(items@[j].3),
                ) && carries(
                    out@[j],
                    (SetAndSupportContext {
                        set_label: None,
                        set_destination: None,
                        support_role: None,
                        support_association: None,
                    }),
                ),
        decreases items.len() - i,
    {
        let (plan, presentation, physical, normalized) = items[i];
        out.push(export_item(plan, presentation, physical, normalized));
        i = i + 1;
    }
    LibraryPlanExport { items: out }
}

/// A frozen plan that is not ready proposes no operation, and one made from a
/// presentation of that plan has no destination either.
pub proof fn unready_exports_propose_nothing(
    item: LibraryPlanExportItem,
    plan: LibraryItemPlan,
    identity: crate::platform_evidence_fusion::identity_orchestrator::IdentityResult,
    presentation: LibraryPlanPresentation,
    physical_hash: Option<Seq<char>>,
    normalized_hash: Option<Seq<char>>,
)
    requires
        crate::platform_evidence_fusion::library_plan_presentation::presents_plan(
            presentation,
            plan,
            identity,
        ),
        exports(item, plan, presentation, physical_hash, normalized_hash),
    ensures
        plan.status != PlanStatus::Ready <==> item.operation_intent == OperationIntent::NoOperation,
        plan.status != PlanStatus::Ready <==> item.proposed_destination is None,
        !item.source_modified,
{
}

} // verus!
