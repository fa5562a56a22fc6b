//! What speaks against a canary, reason by reason.
use vstd::prelude::*;
use vstd::string::*;
use crate::dat::rename_apply::ObjectKind;
use crate::path::components;
use crate::platform_evidence_fusion::canary::{
    canary_reasons, canary_text, destination_reasons, item_collides, plan_reasons, reason_lines,
    source_reasons, target_collides, CanaryIneligibleReason, CanaryObservation,
};
use crate::platform_evidence_fusion::library_plan_export::LibraryPlanExportItem;
use crate::platform_evidence_fusion::library_planning::PlanStatus;
use crate::platform_evidence_fusion::plan_transaction::{plan_hash, ApprovedPlan};
use crate::text::{hex_text, opt_view};
use crate::text_laws::{amid, stands_in, stands_in_parts};

verus! {

/// The path is the root or lies below it.
pub open spec fn lies_in(path: Seq<char>, root: Seq<char>) -> bool {
    components(root).is_prefix_of(components(path))
}

/// Some item of the plan starts where this one would end, or another one would
/// end there too.
pub open spec fn is_contested(
    items: Seq<LibraryPlanExportItem>,
    item: LibraryPlanExportItem,
    destination: Seq<char>,
) -> bool {
    ||| exists|i: int|
        0 <= i < items.len() && components((#[trigger] items[i]).precondition.source_path@)
            == components(destination)
    ||| exists|i: int|
        0 <= i < items.len() && (#[trigger] items[i]).precondition.source_path@
            != item.precondition.source_path@ && (items[i].proposed_destination matches Some(other)
            && components(other@) == components(destination))
}

/// What each reason means.
pub open spec fn speaks_against(
    reason: CanaryIneligibleReason,
    items: Seq<LibraryPlanExportItem>,
    item: LibraryPlanExportItem,
    approved: ApprovedPlan,
    root: Seq<char>,
    seen: CanaryObservation,
) -> bool {
    let source = item.precondition.source_path@;
    match reason {
        CanaryIneligibleReason::DigestStale => hex_text(plan_hash(items)) != approved.digest.0@,
        CanaryIneligibleReason::NotReady => item.status != PlanStatus::Ready,
        CanaryIneligibleReason::HasBlockers => item.blockers@.len() > 0,
        CanaryIneligibleReason::NotApproved => !approved.approved_item_ids@.contains(source),
        CanaryIneligibleReason::NoDestination => item.proposed_destination is None,
        CanaryIneligibleReason::BelongsToSet => item.set_label is Some,
        CanaryIneligibleReason::HasSupportAssociation => {
            item.support_role is Some || item.support_association is Some
        },
        CanaryIneligibleReason::NoHashPrecondition => {
            item.precondition.physical_hash is None && item.precondition.normalized_hash is None
        },
        CanaryIneligibleReason::SourceUnderProductionRoot => lies_in(source, "/mnt/games/roms"@),
        CanaryIneligibleReason::SourceOutsideCanaryRoot => !lies_in(source, root),
        CanaryIneligibleReason::SourceMissing => seen.source is None,
        CanaryIneligibleReason::SourceIsSymlink => seen.source matches Some(file) && file.kind
            == ObjectKind::Symlink,
        CanaryIneligibleReason::SourceNotRegularFile => seen.source matches Some(file) && file.kind
            != ObjectKind::Symlink && file.kind != ObjectKind::RegularFile,
        CanaryIneligibleReason::SourceTooLarge { bytes, limit } => seen.source matches Some(file)
            && bytes == file.size && limit == 67108864 && bytes > 67108864,
        CanaryIneligibleReason::DestinationUnderProductionRoot => {
            item.proposed_destination matches Some(path) && lies_in(path@, "/mnt/games/roms"@)
        },
        CanaryIneligibleReason::DestinationOutsideCanaryRoot => {
            item.proposed_destination matches Some(path) && !lies_in(path@, root)
        },
        CanaryIneligibleReason::DestinationAlreadyExists => {
            item.proposed_destination is Some && seen.destination_exists
        },
        CanaryIneligibleReason::DestinationParentMissing => {
            item.proposed_destination is Some && !seen.destination_parent_exists
        },
        CanaryIneligibleReason::CycleOrDuplicateTarget => {
            item.proposed_destination matches Some(path) && is_contested(items, item, path@)
        },
    }
}

/// The place of a reason in a report: the plan, the source, the destination.
pub open spec fn place(reason: CanaryIneligibleReason) -> int {
    match reason {
        CanaryIneligibleReason::DigestStale => 0,
        CanaryIneligibleReason::NotReady => 1,
        CanaryIneligibleReason::HasBlockers => 2,
        CanaryIneligibleReason::NotApproved => 3,
        CanaryIneligibleReason::NoDestination => 4,
        CanaryIneligibleReason::BelongsToSet => 5,
        CanaryIneligibleReason::HasSupportAssociation => 6,
        CanaryIneligibleReason::NoHashPrecondition => 7,
        CanaryIneligibleReason::SourceUnderProductionRoot => 8,
        CanaryIneligibleReason::SourceOutsideCanaryRoot => 9,
        CanaryIneligibleReason::SourceMissing => 10,
        CanaryIneligibleReason::SourceIsSymlink => 11,
        CanaryIneligibleReason::SourceNotRegularFile => 12,
        CanaryIneligibleReason::SourceTooLarge { .. } => 13,
        CanaryIneligibleReason::DestinationUnderProductionRoot => 14,
        CanaryIneligibleReason::DestinationOutsideCanaryRoot => 15,
        CanaryIneligibleReason::DestinationAlreadyExists => 16,
        CanaryIneligibleReason::DestinationParentMissing => 17,
        CanaryIneligibleReason::CycleOrDuplicateTarget => 18,
    }
}

/// The reasons stand in their places, from `from` up to before `to`.
pub open spec fn in_place(s: Seq<CanaryIneligibleReason>, from: int, to: int) -> bool {
    &&& forall|i: int| 0 <= i < s.len() ==> from <= place(#[trigger] s[i]) < to
    &&& forall|i: int, j: int|
        0 <= i < j < s.len() ==> place(#[trigger] s[i]) < place(#[trigger] s[j])
}

proof fn both_in_place(
    a: Seq<CanaryIneligibleReason>,
    b: Seq<CanaryIneligibleReason>,
    from: int,
    mid: int,
    to: int,
)
    requires
        from <= mid <= to,
        in_place(a, from, mid),
        in_place(b, mid, to),
    ensures
        in_place(a + b, from, to),
        forall|r: CanaryIneligibleReason| #[trigger]
            (a + b).contains(r) <==> a.contains(r) || b.contains(r),
{
    let s = a + b;
    assert forall|i: int| 0 <= i < s.len() implies from <= place(#[trigger] s[i]) < to by {
        if i < a.len() {
            assert(s[i] == a[i]);
        } else {
            assert(s[i] == b[i - a.len()]);
        }
    }
    assert forall|i: int, j: int| 0 <= i < j < s.len() implies place(#[trigger] s[i]) < place(
        #[trigger] s[j],
    ) by {
        if j < a.len() {
            assert(place(a[i]) < place(a[j]));
        } else if i < a.len() {
            assert(place(a[i]) < mid && mid <= place(b[j - a.len()]));
        } else {
            assert(place(b[i - a.len()]) < place(b[j - a.len()]));
        }
    }
    assert forall|r: CanaryIneligibleReason| #[trigger] s.contains(r) <==> a.contains(r)
        || b.contains(r) by {
        if s.contains(r) {
            let i = choose|i: int| 0 <= i < s.len() && s[i] == r;
            if i < a.len() {
                assert(a[i] == r);
            } else {
                assert(b[i - a.len()] == r);
            }
        }
        if a.contains(r) {
            let i = choose|i: int| 0 <= i < a.len() && a[i] == r;
            assert(s[i] == r);
        }
        if b.contains(r) {
            let i = choose|i: int| 0 <= i < b.len() && b[i] == r;
            assert(s[a.len() + i] == r);
        }
    }
}

spec fn given(holds: bool, reason: CanaryIneligibleReason) -> Seq<CanaryIneligibleReason> {
    crate::platform_evidence_fusion::canary::when(holds, reason)
}

proof fn one_in_place(holds: bool, reason: CanaryIneligibleReason)
    ensures
        in_place(given(holds, reason), place(reason), place(reason) + 1),
        forall|r: CanaryIneligibleReason| #[trigger]
            given(holds, reason).contains(r) <==> holds && r == reason,
{
    if holds {
        assert(given(holds, reason)[0] == reason);
    }
}

/// `s` is in place and holds exactly the reasons before `to` that speak against
/// the item.
spec fn is_complete(
    s: Seq<CanaryIneligibleReason>,
    from: int,
    to: int,
    against: spec_fn(CanaryIneligibleReason) -> bool,
) -> bool {
    &&& in_place(s, from, to)
    &&& forall|r: CanaryIneligibleReason| #[trigger]
        s.contains(r) <==> from <= place(r) < to && against(r)
}

proof fn next_reason(
    s: Seq<CanaryIneligibleReason>,
    from: int,
    holds: bool,
    reason: CanaryIneligibleReason,
    against: spec_fn(CanaryIneligibleReason) -> bool,
)
    requires
        from <= place(reason),
        is_complete(s, from, place(reason), against),
        forall|r: CanaryIneligibleReason| #[trigger]
            against(r) && place(r) == place(reason) ==> r == reason,
        against(reason) == holds,
    ensures
        is_complete(s + given(holds, reason), from, place(reason) + 1, against),
{
    one_in_place(holds, reason);
    both_in_place(s, given(holds, reason), from, place(reason), place(reason) + 1);
    let now = s + given(holds, reason);
    assert forall|r: CanaryIneligibleReason| #[trigger] now.contains(r) <==> from <= place(r)
        < place(reason) + 1 && against(r) by {
        assert(s.contains(r) <==> from <= place(r) < place(reason) && against(r));
    }
}

proof fn plan_reasons_are_complete(
    items: Seq<LibraryPlanExportItem>,
    item: LibraryPlanExportItem,
    approved: ApprovedPlan,
    against: spec_fn(CanaryIneligibleReason) -> bool,
    root: Seq<char>,
    seen: CanaryObservation,
)
    requires
        forall|r: CanaryIneligibleReason| #[trigger]
            against(r) == speaks_against(r, items, item, approved, root, seen),
    ensures
        is_complete(plan_reasons(items, item, approved), 0, 8, against),
{
    let source = item.precondition.source_path@;
    let none = Seq::<CanaryIneligibleReason>::empty();
    let c0 = hex_text(plan_hash(items)) != approved.digest.0@;
    let c1 = item.status != PlanStatus::Ready;
    let c2 = item.blockers@.len() > 0;
    let c3 = !approved.approved_item_ids@.contains(source);
    let c4 = item.proposed_destination is None;
    let c5 = item.set_label is Some;
    let c6 = item.support_role is Some || item.support_association is Some;
    let c7 = item.precondition.physical_hash is None && item.precondition.normalized_hash is None;
    let s0 = given(c0, CanaryIneligibleReason::DigestStale);
    next_reason(none, 0, c0, CanaryIneligibleReason::DigestStale, against);
    assert(none + s0 =~= s0);
    let s1 = s0 + given(c1, CanaryIneligibleReason::NotReady);
    next_reason(s0, 0, c1, CanaryIneligibleReason::NotReady, against);
    let s2 = s1 + given(c2, CanaryIneligibleReason::HasBlockers);
    next_reason(s1, 0, c2, CanaryIneligibleReason::HasBlockers, against);
    let s3 = s2 + given(c3, CanaryIneligibleReason::NotApproved);
    next_reason(s2, 0, c3, CanaryIneligibleReason::NotApproved, against);
    let s4 = s3 + given(c4, CanaryIneligibleReason::NoDestination);
    next_reason(s3, 0, c4, CanaryIneligibleReason::NoDestination, against);
    let s5 = s4 + given(c5, CanaryIneligibleReason::BelongsToSet);
    next_reason(s4, 0, c5, CanaryIneligibleReason::BelongsToSet, against);
    let s6 = s5 + given(c6, CanaryIneligibleReason::HasSupportAssociation);
    next_reason(s5, 0, c6, CanaryIneligibleReason::HasSupportAssociation, against);
    next_reason(s6, 0, c7, CanaryIneligibleReason::NoHashPrecondition, against);
}

proof fn source_reasons_are_complete(
    items: Seq<LibraryPlanExportItem>,
    item: LibraryPlanExportItem,
    approved: ApprovedPlan,
    against: spec_fn(CanaryIneligibleReason) -> bool,
    root: Seq<char>,
    seen: CanaryObservation,
)
    requires
        forall|r: CanaryIneligibleReason| #[trigger]
            against(r) == speaks_against(r, items, item, approved, root, seen),
    ensures
        is_complete(
            source_reasons(item.precondition.source_path@, root, seen.source),
            8,
            14,
            against,
        ),
{
    let source = item.precondition.source_path@;
    let none = Seq::<CanaryIneligibleReason>::empty();
    let c0 = lies_in(source, "/mnt/games/roms"@);
    let c1 = !lies_in(source, root);
    let s0 = given(c0, CanaryIneligibleReason::SourceUnderProductionRoot);
    next_reason(none, 8, c0, CanaryIneligibleReason::SourceUnderProductionRoot, against);
    assert(none + s0 =~= s0);
    let s1 = s0 + given(c1, CanaryIneligibleReason::SourceOutsideCanaryRoot);
    next_reason(s0, 8, c1, CanaryIneligibleReason::SourceOutsideCanaryRoot, against);
    match seen.source {
        None => {
            let missing = seq![CanaryIneligibleReason::SourceMissing];
            assert(missing == given(true, CanaryIneligibleReason::SourceMissing));
            next_reason(s1, 8, true, CanaryIneligibleReason::SourceMissing, against);
        },
        Some(file) => {
            let a = file.kind == ObjectKind::Symlink;
            let b = file.kind != ObjectKind::Symlink && file.kind != ObjectKind::RegularFile;
            let c = file.size > 67108864;
            let large = CanaryIneligibleReason::SourceTooLarge {
                bytes: file.size,
                limit: 67108864,
            };
            let t0 = given(a, CanaryIneligibleReason::SourceIsSymlink);
            next_reason(none, 11, a, CanaryIneligibleReason::SourceIsSymlink, against);
            assert(none + t0 =~= t0);
            let t1 = t0 + given(b, CanaryIneligibleReason::SourceNotRegularFile);
            next_reason(t0, 11, b, CanaryIneligibleReason::SourceNotRegularFile, against);
            next_reason(t1, 11, c, large, against);
            let t2 = t1 + given(c, large);
            both_in_place(s1, t2, 8, 10, 14);
            let all = s1 + t2;
            assert forall|r: CanaryIneligibleReason| #[trigger] all.contains(r) <==> 8 <= place(r)
                < 14 && against(r) by {
                assert(s1.contains(r) <==> 8 <= place(r) < 10 && against(r));
                assert(t2.contains(r) <==> 11 <= place(r) < 14 && against(r));
                if place(r) == 10 {
                    assert(!against(r));
                }
            }
        },
    }
}

proof fn contests_are_collisions(
    items: Seq<LibraryPlanExportItem>,
    item: LibraryPlanExportItem,
    destination: Seq<char>,
)
    ensures
        is_contested(items, item, destination) == target_collides(
            items,
            item.precondition.source_path@,
            destination,
        ),
{
    let source = item.precondition.source_path@;
    if is_contested(items, item, destination) {
        let i = choose|i: int|
            0 <= i < items.len() && (components((#[trigger] items[i]).precondition.source_path@)
                == components(destination) || (items[i].precondition.source_path@ != source && (
            items[i].proposed_destination matches Some(other) && components(other@) == components(
                destination,
            ))));
        assert(item_collides(items[i], source, destination));
    }
    if target_collides(items, source, destination) {
        let i = choose|i: int|
            0 <= i < items.len() && item_collides(#[trigger] items[i], source, destination);
        assert(items[i].proposed_destination is Some ==> opt_view(items[i].proposed_destination)
            == Some((items[i].proposed_destination->0)@));
    }
}

proof fn destination_reasons_are_complete(
    items: Seq<LibraryPlanExportItem>,
    item: LibraryPlanExportItem,
    approved: ApprovedPlan,
    against: spec_fn(CanaryIneligibleReason) -> bool,
    root: Seq<char>,
    seen: CanaryObservation,
    destination: Seq<char>,
)
    requires
        opt_view(item.proposed_destination) == Some(destination),
        forall|r: CanaryIneligibleReason| #[trigger]
            against(r) == speaks_against(r, items, item, approved, root, seen),
    ensures
        is_complete(
            destination_reasons(
                items,
                item.precondition.source_path@,
                destination,
                root,
                seen,
            ),
            14,
            19,
            against,
        ),
{
    let source = item.precondition.source_path@;
    let none = Seq::<CanaryIneligibleReason>::empty();
    contests_are_collisions(items, item, destination);
    let c0 = lies_in(destination, "/mnt/games/roms"@);
    let c1 = !lies_in(destination, root);
    let s0 = given(c0, CanaryIneligibleReason::DestinationUnderProductionRoot);
    next_reason(none, 14, c0, CanaryIneligibleReason::DestinationUnderProductionRoot, against);
    assert(none + s0 =~= s0);
    let s1 = s0 + given(c1, CanaryIneligibleReason::DestinationOutsideCanaryRoot);
    next_reason(s0, 14, c1, CanaryIneligibleReason::DestinationOutsideCanaryRoot, against);
    let s2 = s1 + given(seen.destination_exists, CanaryIneligibleReason::DestinationAlreadyExists);
    next_reason(
        s1,
        14,
        seen.destination_exists,
        CanaryIneligibleReason::DestinationAlreadyExists,
        against,
    );
    let s3 = s2 + given(
        !seen.destination_parent_exists,
        CanaryIneligibleReason::DestinationParentMissing,
    );
    next_reason(
        s2,
        14,
        !seen.destination_parent_exists,
        CanaryIneligibleReason::DestinationParentMissing,
        against,
    );
    next_reason(
        s3,
        14,
        target_collides(items, source, destination),
        CanaryIneligibleReason::CycleOrDuplicateTarget,
        against,
    );
}

/// Exactly the reasons that hold are reported, each once and in its place: first
/// those of the plan, then of the source, then of the destination. An item that
/// none of them speaks against is a canary.
pub proof fn every_reason_that_holds_is_reported(
    items: Seq<LibraryPlanExportItem>,
    item: LibraryPlanExportItem,
    approved: ApprovedPlan,
    root: Seq<char>,
    seen: CanaryObservation,
)
    ensures
        forall|r: CanaryIneligibleReason| #[trigger]
            canary_reasons(items, item, approved, root, seen).contains(r) <==> speaks_against(
                r,
                items,
                item,
                approved,
                root,
                seen,
            ),
        in_place(canary_reasons(items, item, approved, root, seen), 0, 19),
{
    let against = |r: CanaryIneligibleReason|
        speaks_against(r, items, item, approved, root, seen);
    let source = item.precondition.source_path@;
    let a = plan_reasons(items, item, approved);
    let b = source_reasons(source, root, seen.source);
    plan_reasons_are_complete(items, item, approved, against, root, seen);
    source_reasons_are_complete(items, item, approved, against, root, seen);
    both_in_place(a, b, 0, 8, 14);
    match opt_view(item.proposed_destination) {
        Some(destination) => {
            destination_reasons_are_complete(
                items,
                item,
                approved,
                against,
                root,
                seen,
                destination,
            );
            let c = destination_reasons(items, source, destination, root, seen);
            both_in_place(a + b, c, 0, 14, 19);
            let all = a + b + c;
            assert forall|r: CanaryIneligibleReason| #[trigger] all.contains(r)
                <==> speaks_against(r, items, item, approved, root, seen) by {
                assert((a + b).contains(r) <==> a.contains(r) || b.contains(r));
                assert(a.contains(r) <==> place(r) < 8 && against(r));
                assert(b.contains(r) <==> 8 <= place(r) < 14 && against(r));
                assert(c.contains(r) <==> 14 <= place(r) < 19 && against(r));
            }
        },
        None => {
            let all = a + b + seq![];
            assert(all =~= a + b);
            assert forall|r: CanaryIneligibleReason| #[trigger] all.contains(r)
                <==> speaks_against(r, items, item, approved, root, seen) by {
                assert((a + b).contains(r) <==> a.contains(r) || b.contains(r));
                assert(a.contains(r) <==> place(r) < 8 && against(r));
                assert(b.contains(r) <==> 8 <= place(r) < 14 && against(r));
            }
        },
    }
}

proof fn reasons_are_listed(head: Seq<char>, reasons: Seq<CanaryIneligibleReason>, k: int)
    requires
        0 <= k < reasons.len(),
    ensures
        stands_in("  - "@ + reasons[k].name_text() + "\n"@, reason_lines(head, reasons)),
    decreases reasons.len(),
{
    let empty = Seq::<char>::empty();
    let rest = reasons.drop_last();
    let before = reason_lines(head, rest);
    let line = "  - "@ + reasons.last().name_text() + "\n"@;
    assert(reason_lines(head, reasons) =~= amid(before, line, empty));
    if k < rest.len() {
        reasons_are_listed(head, rest, k);
        stands_in_parts("  - "@ + reasons[k].name_text() + "\n"@, before, empty, line);
        assert(reason_lines(head, reasons) =~= empty + before + line);
    }
}

/// A refused canary is shown with every reason; a preview of either kind names
/// the source and says that nothing was done.
pub proof fn canary_previews_show_every_reason(
    item: LibraryPlanExportItem,
    reasons: Option<Seq<CanaryIneligibleReason>>,
)
    ensures
        stands_in(item.precondition.source_path@, canary_text(item, None)),
        stands_in("PASS\n\nBlast radius:\n  1 file\n"@, canary_text(item, None)),
        stands_in(
            "\nApproval:\n  REQUIRED\n\nApplied:\n  NO\n"@,
            canary_text(item, reasons),
        ),
        reasons matches Some(against) ==> forall|k: int|
            0 <= k < against.len() ==> stands_in(
                "  - "@ + (#[trigger] against[k]).name_text() + "\n"@,
                canary_text(item, reasons),
            ),
{
    let empty = Seq::<char>::empty();
    let foot = "\nApproval:\n  REQUIRED\n\nApplied:\n  NO\n"@;
    let source = item.precondition.source_path@;
    let title = "REAL APPLY CANARY PREVIEW\n\nSource:\n  "@;
    let rest = "\n\nDestination:\n  "@ + (match opt_view(item.proposed_destination) {
        Some(destination) => destination,
        None => "(none)"@,
    }) + "\n\nMode:\n  AbortAll\n\nPreconditions:\n  "@;
    let head = title + source + "\n\nDestination:\n  "@ + (match opt_view(
        item.proposed_destination,
    ) {
        Some(destination) => destination,
        None => "(none)"@,
    }) + "\n\nMode:\n  AbortAll\n\nPreconditions:\n  "@;
    let pass = "PASS\n\nBlast radius:\n  1 file\n"@;
    assert(head =~= title + source + rest);
    assert(canary_text(item, None) =~= amid(title, source, rest + pass + foot));
    assert(canary_text(item, None) =~= amid(head, pass, foot));
    match reasons {
        None => {
            assert(canary_text(item, reasons) =~= amid(head + pass, foot, empty));
        },
        Some(against) => {
            let lines = reason_lines(head + "FAIL\n"@, against);
            assert(canary_text(item, reasons) =~= amid(lines, foot, empty));
            assert forall|k: int| 0 <= k < against.len() implies stands_in(
                "  - "@ + (#[trigger] against[k]).name_text() + "\n"@,
                canary_text(item, reasons),
            ) by {
                reasons_are_listed(head + "FAIL\n"@, against, k);
                stands_in_parts("  - "@ + against[k].name_text() + "\n"@, lines, empty, foot);
                assert(canary_text(item, reasons) =~= empty + lines + foot);
            }
        },
    }
}

} // verus!
