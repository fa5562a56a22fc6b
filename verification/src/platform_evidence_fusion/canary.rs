//! The first batch that may touch real files: one small file, inside one
//! directory, under every precondition.
use vstd::prelude::*;
use vstd::string::*;
use crate::dat::rename_apply::{FileIdentity, HardConflictMode, ObjectKind};
use crate::path::{components, is_under, path_is_under, same_path};
use crate::platform_evidence_fusion::library_plan_export::{
    LibraryPlanExport, LibraryPlanExportItem,
};
use crate::platform_evidence_fusion::library_planning::PlanStatus;
use crate::platform_evidence_fusion::plan_transaction::{
    compute_plan_digest, plan_hash, ApprovedPlan,
};
use crate::text::{decimal, decimal_text, hex_text, opt_view, same_text};

verus! {

/// The largest file a canary may move: 64 MiB.
pub const CANARY_MAX_SIZE_BYTES: u64 = 67_108_864;

/// How real files may be touched. There is no variant that skips anything.
#[derive(Debug, Clone, Copy, PartialEq, Eq, Structural)]
pub enum RealApplyPolicy {
    Canary,
}

impl RealApplyPolicy {
    /// What the policy does with a batch that has an unsafe entry.
    pub fn hard_conflict_mode(self) -> (r: HardConflictMode)
        ensures
            r == HardConflictMode::AbortAll,
    {
        match self {
            RealApplyPolicy::Canary => HardConflictMode::AbortAll,
        }
    }
}

/// Where the real library stands; nothing under it is ever a canary.
pub fn production_root() -> (r: &'static str)
    ensures
        r@ == "/mnt/games/roms"@,
{
    "/mnt/games/roms"
}

/// Why an item cannot be a canary.
#[derive(Debug, Clone, Copy, PartialEq, Eq, Structural)]
pub enum CanaryIneligibleReason {
    DigestStale,
    NotReady,
    HasBlockers,
    NotApproved,
    NoDestination,
    BelongsToSet,
    HasSupportAssociation,
    NoHashPrecondition,
    SourceUnderProductionRoot,
    SourceOutsideCanaryRoot,
    SourceMissing,
    SourceIsSymlink,
    SourceNotRegularFile,
    SourceTooLarge { bytes: u64, limit: u64 },
    DestinationUnderProductionRoot,
    DestinationOutsideCanaryRoot,
    DestinationAlreadyExists,
    DestinationParentMissing,
    CycleOrDuplicateTarget,
}

impl CanaryIneligibleReason {
    /// What the reason is called in a preview.
    pub open spec fn name_text(self) -> Seq<char> {
        match self {
            CanaryIneligibleReason::DigestStale => "DigestStale"@,
            CanaryIneligibleReason::NotReady => "NotReady"@,
            CanaryIneligibleReason::HasBlockers => "HasBlockers"@,
            CanaryIneligibleReason::NotApproved => "NotApproved"@,
            CanaryIneligibleReason::NoDestination => "NoDestination"@,
            CanaryIneligibleReason::BelongsToSet => "BelongsToSet"@,
            CanaryIneligibleReason::HasSupportAssociation => "HasSupportAssociation"@,
            CanaryIneligibleReason::NoHashPrecondition => "NoHashPrecondition"@,
            CanaryIneligibleReason::SourceUnderProductionRoot => "SourceUnderProductionRoot"@,
            CanaryIneligibleReason::SourceOutsideCanaryRoot => "SourceOutsideCanaryRoot"@,
            CanaryIneligibleReason::SourceMissing => "SourceMissing"@,
            CanaryIneligibleReason::SourceIsSymlink => "SourceIsSymlink"@,
            CanaryIneligibleReason::SourceNotRegularFile => "SourceNotRegularFile"@,
            CanaryIneligibleReason::SourceTooLarge { bytes, limit } => {
                "SourceTooLarge { bytes: "@ + decimal(bytes as nat) + ", limit: "@ + decimal(
                    limit as nat,
                ) + " }"@
            },
            CanaryIneligibleReason::DestinationUnderProductionRoot => {
                "DestinationUnderProductionRoot"@
            },
            CanaryIneligibleReason::DestinationOutsideCanaryRoot => {
                "DestinationOutsideCanaryRoot"@
            },
            CanaryIneligibleReason::DestinationAlreadyExists => "DestinationAlreadyExists"@,
            CanaryIneligibleReason::DestinationParentMissing => "DestinationParentMissing"@,
            CanaryIneligibleReason::CycleOrDuplicateTarget => "CycleOrDuplicateTarget"@,
        }
    }

    pub fn name(self) -> (r: String)
        ensures
            r@ == self.name_text(),
    {
        match self {
            CanaryIneligibleReason::DigestStale => "DigestStale".to_owned(),
            CanaryIneligibleReason::NotReady => "NotReady".to_owned(),
            CanaryIneligibleReason::HasBlockers => "HasBlockers".to_owned(),
            CanaryIneligibleReason::NotApproved => "NotApproved".to_owned(),
            CanaryIneligibleReason::NoDestination => "NoDestination".to_owned(),
            CanaryIneligibleReason::BelongsToSet => "BelongsToSet".to_owned(),
            CanaryIneligibleReason::HasSupportAssociation => "HasSupportAssociation".to_owned(),
            CanaryIneligibleReason::NoHashPrecondition => "NoHashPrecondition".to_owned(),
            CanaryIneligibleReason::SourceUnderProductionRoot => {
                "SourceUnderProductionRoot".to_owned()
            },
            CanaryIneligibleReason::SourceOutsideCanaryRoot => {
                "SourceOutsideCanaryRoot".to_owned()
            },
            CanaryIneligibleReason::SourceMissing => "SourceMissing".to_owned(),
            CanaryIneligibleReason::SourceIsSymlink => "SourceIsSymlink".to_owned(),
            CanaryIneligibleReason::SourceNotRegularFile => "SourceNotRegularFile".to_owned(),
            CanaryIneligibleReason::SourceTooLarge { bytes, limit } => {
                let mut r = "SourceTooLarge { bytes: ".to_owned();
                r.append(decimal_text(bytes).as_str());
                r.append(", limit: ");
                r.append(decimal_text(limit).as_str());
                r.append(" }");
                r
            },
            CanaryIneligibleReason::DestinationUnderProductionRoot => {
                "DestinationUnderProductionRoot".to_owned()
            },
            CanaryIneligibleReason::DestinationOutsideCanaryRoot => {
                "DestinationOutsideCanaryRoot".to_owned()
            },
            CanaryIneligibleReason::DestinationAlreadyExists => {
                "DestinationAlreadyExists".to_owned()
            },
            CanaryIneligibleReason::DestinationParentMissing => {
                "DestinationParentMissing".to_owned()
            },
            CanaryIneligibleReason::CycleOrDuplicateTarget => "CycleOrDuplicateTarget".to_owned(),
        }
    }
}

/// What was seen on disk.
#[derive(Debug, Clone, Copy, PartialEq, Eq, Structural)]
pub struct CanaryObservation {
    /// The source, not followed if it is a link; `None` if it is missing.
    pub source: Option<FileIdentity>,
    pub destination_exists: bool,
    pub destination_parent_exists: bool,
    pub same_filesystem: bool,
}

/// What speaks for an item that can be a canary.
#[derive(Debug, Clone, Copy, PartialEq, Eq, Structural)]
pub struct CanaryEligibility {
    pub is_regular_file: bool,
    pub is_symlink: bool,
    pub physical_hash_present: bool,
    pub same_filesystem: bool,
    pub destination_clear: bool,
    pub strong_enough_for_canary: bool,
}

/// Another item moves to the same destination, or the destination is a source.
pub open spec fn target_collides(
    items: Seq<LibraryPlanExportItem>,
    source: Seq<char>,
    destination: Seq<char>,
) -> bool {
    exists|i: int| 0 <= i < items.len() && item_collides(#[trigger] items[i], source, destination)
}

/// The item is another one with the same destination, or its source is the
/// destination.
pub open spec fn item_collides(
    item: LibraryPlanExportItem,
    source: Seq<char>,
    destination: Seq<char>,
) -> bool {
    ||| components(item.precondition.source_path@) == components(destination)
    ||| item.precondition.source_path@ != source && match opt_view(item.proposed_destination) {
        Some(other) => components(other) == components(destination),
        None => false,
    }
}

/// The reason, if it holds.
pub open spec fn when(holds: bool, reason: CanaryIneligibleReason) -> Seq<CanaryIneligibleReason> {
    if holds {
        seq![reason]
    } else {
        seq![]
    }
}

/// What speaks against the plan of an item.
pub open spec fn plan_reasons(
    items: Seq<LibraryPlanExportItem>,
    item: LibraryPlanExportItem,
    approved: ApprovedPlan,
) -> Seq<CanaryIneligibleReason> {
    when(hex_text(plan_hash(items)) != approved.digest.0@, CanaryIneligibleReason::DigestStale)
        + when(item.status != PlanStatus::Ready, CanaryIneligibleReason::NotReady) + when(
        item.blockers@.len() > 0,
        CanaryIneligibleReason::HasBlockers,
    ) + when(
        !approved.approved_item_ids@.contains(item.precondition.source_path@),
        CanaryIneligibleReason::NotApproved,
    ) + when(item.proposed_destination is None, CanaryIneligibleReason::NoDestination) + when(
        item.set_label is Some,
        CanaryIneligibleReason::BelongsToSet,
    ) + when(
        item.support_role is Some || item.support_association is Some,
        CanaryIneligibleReason::HasSupportAssociation,
    ) + when(
        item.precondition.physical_hash is None && item.precondition.normalized_hash is None,
        CanaryIneligibleReason::NoHashPrecondition,
    )
}

/// What speaks against a source.
pub open spec fn source_reasons(
    source: Seq<char>,
    root: Seq<char>,
    seen: Option<FileIdentity>,
) -> Seq<CanaryIneligibleReason> {
    when(
        is_under(source, "/mnt/games/roms"@),
        CanaryIneligibleReason::SourceUnderProductionRoot,
    ) + when(!is_under(source, root), CanaryIneligibleReason::SourceOutsideCanaryRoot) + match seen {
        None => seq![CanaryIneligibleReason::SourceMissing],
        Some(file) => when(
            file.kind == ObjectKind::Symlink,
            CanaryIneligibleReason::SourceIsSymlink,
        ) + when(
            file.kind != ObjectKind::Symlink && file.kind != ObjectKind::RegularFile,
            CanaryIneligibleReason::SourceNotRegularFile,
        ) + when(
            file.size > CANARY_MAX_SIZE_BYTES,
            CanaryIneligibleReason::SourceTooLarge {
                bytes: file.size,
                limit: CANARY_MAX_SIZE_BYTES,
            },
        ),
    }
}

/// What speaks against a destination.
pub open spec fn destination_reasons(
    items: Seq<LibraryPlanExportItem>,
    source: Seq<char>,
    destination: Seq<char>,
    root: Seq<char>,
    seen: CanaryObservation,
) -> Seq<CanaryIneligibleReason> {
    when(
        is_under(destination, "/mnt/games/roms"@),
        CanaryIneligibleReason::DestinationUnderProductionRoot,
    ) + when(!is_under(destination, root), CanaryIneligibleReason::DestinationOutsideCanaryRoot)
        + when(seen.destination_exists, CanaryIneligibleReason::DestinationAlreadyExists) + when(
        !seen.destination_parent_exists,
        CanaryIneligibleReason::DestinationParentMissing,
    ) + when(
        target_collides(items, source, destination),
        CanaryIneligibleReason::CycleOrDuplicateTarget,
    )
}

/// Everything that speaks against an item as a canary.
pub open spec fn canary_reasons(
    items: Seq<LibraryPlanExportItem>,
    item: LibraryPlanExportItem,
    approved: ApprovedPlan,
    root: Seq<char>,
    seen: CanaryObservation,
) -> Seq<CanaryIneligibleReason> {
    let source = item.precondition.source_path@;
    plan_reasons(items, item, approved) + source_reasons(source, root, seen.source) + match opt_view(
        item.proposed_destination,
    ) {
        Some(destination) => destination_reasons(items, source, destination, root, seen),
        None => seq![],
    }
}

fn note(reasons: &mut Vec<CanaryIneligibleReason>, holds: bool, reason: CanaryIneligibleReason)
    ensures
        final(reasons)@ == old(reasons)@ + when(holds, reason),
{
    if holds {
        reasons.push(reason);
    }
    assert(reasons@ =~= old(reasons)@ + when(holds, reason));
}

fn collides(items: &Vec<LibraryPlanExportItem>, source: &str, destination: &str) -> (r: bool)
    ensures
        r == target_collides(items@, source@, destination@),
{
    let mut i: usize = 0;
    while i < items.len()
        invariant
            i <= items@.len(),
            forall|j: int|
                0 <= j < i ==> !item_collides(#[trigger] items@[j], source@, destination@),
        decreases items.len() - i,
    {
        let path = items[i].precondition.source_path.as_str();
        let mut hit = same_path(path, destination);
        if !hit && !same_text(path, source) {
            hit = match &items[i].proposed_destination {
                Some(other) => same_path(other.as_str(), destination),
                None => false,
            };
        }
        assert(hit == item_collides(items@[i as int], source@, destination@));
        if hit {
            return true;
        }
        i = i + 1;
    }
    false
}

fn note_plan(
    export: &LibraryPlanExport,
    item: &LibraryPlanExportItem,
    approved: &ApprovedPlan,
) -> (r: Vec<CanaryIneligibleReason>)
    ensures
        r@ == plan_reasons(export.items@, *item, *approved),
{
    let mut reasons: Vec<CanaryIneligibleReason> = Vec::new();
    let digest = compute_plan_digest(export);
    let stale = !same_text(digest.as_str(), approved.digest.as_str());
    let source = item.precondition.source_path.as_str();
    note(&mut reasons, stale, CanaryIneligibleReason::DigestStale);
    assert(reasons@ =~= when(stale, CanaryIneligibleReason::DigestStale));
    note(&mut reasons, item.status != PlanStatus::Ready, CanaryIneligibleReason::NotReady);
    note(&mut reasons, item.blockers.len() > 0, CanaryIneligibleReason::HasBlockers);
    note(
        &mut reasons,
        !approved.approved_item_ids.contains(source),
        CanaryIneligibleReason::NotApproved,
    );
    note(
        &mut reasons,
        item.proposed_destination.is_none(),
        CanaryIneligibleReason::NoDestination,
    );
    note(&mut reasons, item.set_label.is_some(), CanaryIneligibleReason::BelongsToSet);
    note(
        &mut reasons,
        item.support_role.is_some() || item.support_association.is_some(),
        CanaryIneligibleReason::HasSupportAssociation,
    );
    note(
        &mut reasons,
        item.precondition.physical_hash.is_none() && item.precondition.normalized_hash.is_none(),
        CanaryIneligibleReason::NoHashPrecondition,
    );
    reasons
}

fn note_source(
    reasons: &mut Vec<CanaryIneligibleReason>,
    source: &str,
    root: &str,
    seen: Option<FileIdentity>,
)
    ensures
        final(reasons)@ == old(reasons)@ + source_reasons(source@, root@, seen),
{
    let ghost before = reasons@;
    note(
        reasons,
        path_is_under(source, production_root()),
        CanaryIneligibleReason::SourceUnderProductionRoot,
    );
    note(reasons, !path_is_under(source, root), CanaryIneligibleReason::SourceOutsideCanaryRoot);
    match seen {
        None => {
            reasons.push(CanaryIneligibleReason::SourceMissing);
        },
        Some(file) => {
            note(
                reasons,
                file.kind == ObjectKind::Symlink,
                CanaryIneligibleReason::SourceIsSymlink,
            );
            note(
                reasons,
                file.kind != ObjectKind::Symlink && file.kind != ObjectKind::RegularFile,
                CanaryIneligibleReason::SourceNotRegularFile,
            );
            note(
                reasons,
                file.size > CANARY_MAX_SIZE_BYTES,
                CanaryIneligibleReason::SourceTooLarge {
                    bytes: file.size,
                    limit: CANARY_MAX_SIZE_BYTES,
                },
            );
        },
    }
    assert(reasons@ =~= before + source_reasons(source@, root@, seen));
}

fn note_destination(
    reasons: &mut Vec<CanaryIneligibleReason>,
    items: &Vec<LibraryPlanExportItem>,
    source: &str,
    destination: &str,
    root: &str,
    seen: &CanaryObservation,
)
    ensures
        final(reasons)@ == old(reasons)@ + destination_reasons(
            items@,
            source@,
            destination@,
            root@,
            *seen,
        ),
{
    let ghost before = reasons@;
    note(
        reasons,
        path_is_under(destination, production_root()),
        CanaryIneligibleReason::DestinationUnderProductionRoot,
    );
    note(
        reasons,
        !path_is_under(destination, root),
        CanaryIneligibleReason::DestinationOutsideCanaryRoot,
    );
    note(reasons, seen.destination_exists, CanaryIneligibleReason::DestinationAlreadyExists);
    note(
        reasons,
        !seen.destination_parent_exists,
        CanaryIneligibleReason::DestinationParentMissing,
    );
    note(
        reasons,
        collides(items, source, destination),
        CanaryIneligibleReason::CycleOrDuplicateTarget,
    );
    assert(reasons@ =~= before + destination_reasons(
        items@,
        source@,
        destination@,
        root@,
        *seen,
    ));
}

/// Whether an item can be a canary inside `root`; if not, everything that
/// speaks against it.
pub fn assess_canary_eligibility(
    export: &LibraryPlanExport,
    item: &LibraryPlanExportItem,
    approved: &ApprovedPlan,
    root: &str,
    seen: &CanaryObservation,
) -> (r: Result<CanaryEligibility, Vec<CanaryIneligibleReason>>)
    ensures
        match r {
            Ok(report) => {
                &&& canary_reasons(export.items@, *item, *approved, root@, *seen).len() == 0
                &&& report == CanaryEligibility {
                    is_regular_file: true,
                    is_symlink: false,
                    physical_hash_present: item.precondition.physical_hash is Some,
                    same_filesystem: seen.same_filesystem,
                    destination_clear: true,
                    strong_enough_for_canary: true,
                }
            },
            Err(reasons) => {
                &&& reasons@.len() > 0
                &&& reasons@ == canary_reasons(export.items@, *item, *approved, root@, *seen)
            },
        },
{
    let mut reasons = note_plan(export, item, approved);
    let source = item.precondition.source_path.as_str();
    note_source(&mut reasons, source, root, seen.source);
    match &item.proposed_destination {
        Some(destination) => {
            note_destination(
                &mut reasons,
                &export.items,
                source,
                destination.as_str(),
                root,
                seen,
            );
        },
        None => {},
    }
    assert(reasons@ =~= canary_reasons(export.items@, *item, *approved, root@, *seen));
    if reasons.len() > 0 {
        return Err(reasons);
    }
    Ok(
        CanaryEligibility {
            is_regular_file: true,
            is_symlink: false,
            physical_hash_present: item.precondition.physical_hash.is_some(),
            same_filesystem: seen.same_filesystem,
            destination_clear: true,
            strong_enough_for_canary: true,
        },
    )
}

/// `head` followed by one line for each reason.
pub open spec fn reason_lines(head: Seq<char>, reasons: Seq<CanaryIneligibleReason>) -> Seq<char>
    decreases reasons.len(),
{
    if reasons.len() == 0 {
        head
    } else {
        reason_lines(head, reasons.drop_last()) + "  - "@ + reasons.last().name_text() + "\n"@
    }
}

/// A canary as text. It never says that anything was done.
pub open spec fn canary_text(
    item: LibraryPlanExportItem,
    reasons: Option<Seq<CanaryIneligibleReason>>,
) -> Seq<char> {
    let head = "REAL APPLY CANARY PREVIEW\n\nSource:\n  "@ + item.precondition.source_path@
        + "\n\nDestination:\n  "@ + (match opt_view(item.proposed_destination) {
        Some(destination) => destination,
        None => "(none)"@,
    }) + "\n\nMode:\n  AbortAll\n\nPreconditions:\n  "@;
    let checked = match reasons {
        None => head + "PASS\n\nBlast radius:\n  1 file\n"@,
        Some(reasons) => reason_lines(head + "FAIL\n"@, reasons),
    };
    checked + "\nApproval:\n  REQUIRED\n\nApplied:\n  NO\n"@
}

/// The reasons of a refusal.
pub open spec fn refusal(
    result: Result<CanaryEligibility, Vec<CanaryIneligibleReason>>,
) -> Option<Seq<CanaryIneligibleReason>> {
    match result {
        Ok(_) => None,
        Err(reasons) => Some(reasons@),
    }
}

/// A canary as text for people to read.
pub fn render_canary_preview(
    item: &LibraryPlanExportItem,
    eligibility: &Result<CanaryEligibility, Vec<CanaryIneligibleReason>>,
) -> (r: String)
    ensures
        r@ == canary_text(*item, refusal(*eligibility)),
{
    let mut out = "REAL APPLY CANARY PREVIEW\n\nSource:\n  ".to_owned();
    out.append(item.precondition.source_path.as_str());
    out.append("\n\nDestination:\n  ");
    match &item.proposed_destination {
        Some(destination) => out.append(destination.as_str()),
        None => out.append("(none)"),
    }
    out.append("\n\nMode:\n  AbortAll\n\nPreconditions:\n  ");
    match eligibility {
        Ok(_) => {
            out.append("PASS\n\nBlast radius:\n  1 file\n");
        },
        Err(reasons) => {
            out.append("FAIL\n");
            let ghost head = out@;
            let mut i: usize = 0;
            while i < reasons.len()
                invariant
                    i <= reasons@.len(),
                    out@ == reason_lines(head, reasons@.take(i as int)),
                decreases reasons.len() - i,
            {
                out.append("  - ");
                out.append(reasons[i].name().as_str());
                out.append("\n");
                assert(reasons@.take(i + 1).drop_last() =~= reasons@.take(i as int));
                i = i + 1;
            }
            assert(reasons@.take(i as int) =~= reasons@);
        },
    }
    out.append("\nApproval:\n  REQUIRED\n\nApplied:\n  NO\n");
    out
}

proof fn nothing_against_the_plan(
    items: Seq<LibraryPlanExportItem>,
    item: LibraryPlanExportItem,
    approved: ApprovedPlan,
)
    requires
        plan_reasons(items, item, approved).len() == 0,
    ensures
        item.status == PlanStatus::Ready,
        item.blockers@.len() == 0,
        item.proposed_destination is Some,
        item.set_label is None,
        item.support_role is None,
        approved.approved_item_ids@.contains(item.precondition.source_path@),
        hex_text(plan_hash(items)) == approved.digest.0@,
        item.precondition.physical_hash is Some || item.precondition.normalized_hash is Some,
{
}

proof fn nothing_against_the_source(
    source: Seq<char>,
    root: Seq<char>,
    seen: Option<FileIdentity>,
)
    requires
        source_reasons(source, root, seen).len() == 0,
    ensures
        is_under(source, root),
        !is_under(source, "/mnt/games/roms"@),
        seen matches Some(file) && file.kind == ObjectKind::RegularFile && file.size
            <= CANARY_MAX_SIZE_BYTES,
{
}

proof fn nothing_against_the_destination(
    items: Seq<LibraryPlanExportItem>,
    source: Seq<char>,
    destination: Seq<char>,
    root: Seq<char>,
    seen: CanaryObservation,
)
    requires
        destination_reasons(items, source, destination, root, seen).len() == 0,
    ensures
        is_under(destination, root),
        !is_under(destination, "/mnt/games/roms"@),
        !seen.destination_exists,
        seen.destination_parent_exists,
        !target_collides(items, source, destination),
{
}

/// An eligible item is a ready, unblocked, approved, single file with a frozen
/// hash, no larger than the limit; it and its destination lie inside the canary
/// root and outside the real library, and the destination is free.
pub proof fn eligible_items_are_confined(
    items: Seq<LibraryPlanExportItem>,
    item: LibraryPlanExportItem,
    approved: ApprovedPlan,
    root: Seq<char>,
    seen: CanaryObservation,
)
    requires
        canary_reasons(items, item, approved, root, seen).len() == 0,
    ensures
        item.status == PlanStatus::Ready,
        item.blockers@.len() == 0,
        item.set_label is None,
        item.support_role is None,
        approved.approved_item_ids@.contains(item.precondition.source_path@),
        hex_text(plan_hash(items)) == approved.digest.0@,
        item.precondition.physical_hash is Some || item.precondition.normalized_hash is Some,
        is_under(item.precondition.source_path@, root),
        !is_under(item.precondition.source_path@, "/mnt/games/roms"@),
        seen.source matches Some(file) && file.kind == ObjectKind::RegularFile && file.size
            <= CANARY_MAX_SIZE_BYTES,
        opt_view(item.proposed_destination) matches Some(destination) && is_under(
            destination,
            root,
        ) && !is_under(destination, "/mnt/games/roms"@),
        !seen.destination_exists,
        seen.destination_parent_exists,
{
    let source = item.precondition.source_path@;
    nothing_against_the_plan(items, item, approved);
    nothing_against_the_source(source, root, seen.source);
    match opt_view(item.proposed_destination) {
        Some(destination) => {
            nothing_against_the_destination(items, source, destination, root, seen);
        },
        None => {},
    }
}

} // verus!
