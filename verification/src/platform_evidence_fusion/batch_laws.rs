//! What becomes of each item of a plan: its row in the preview and its entry in
//! the batch.
use vstd::prelude::*;
use vstd::string::*;
use crate::dat::rename_apply::{
    entry_models, EntryModel, EntryState, FileIdentity, RenameTransaction, TransactionState,
};
use crate::path::{components, file_name};
use crate::platform_evidence_fusion::library_plan_export::{
    LibraryPlanExportItem, OperationIntent,
};
use crate::platform_evidence_fusion::library_planning::PlanStatus;
use crate::platform_evidence_fusion::plan_transaction::{
    approves, big_endian_number, builds, captured_identity, cyclic_paths, entries_of, entry_of,
    is_admitted, is_fresh, is_operation, operation_lines, operation_models, operation_of,
    operations_of, plan_hash, precondition_lines, preview_text, source_paths, ApprovalError,
    ApprovedPlan, OperationKind, OperationModel, PlanTransactionError, PreconditionStrength,
    TransactionPreview, TransactionStamp,
};
use crate::platform_evidence_fusion::plan_transaction_laws::cycles_are_destinations_that_are_sources;
use crate::text::{decimal, hex_text, is_white_space, opt_view};
use crate::text_laws::{
    all_white, amid, every_text_can_be_trimmed, stands_in, stands_in_parts,
    trimming_cuts_outer_white_space,
};

verus! {

/// A ready item that nothing blocks and that has somewhere to go.
pub open spec fn moves(item: LibraryPlanExportItem) -> bool {
    &&& item.status == PlanStatus::Ready
    &&& item.blockers@.len() == 0
    &&& item.proposed_destination is Some
    &&& item.operation_intent == OperationIntent::MoveToLibraryFolder || item.operation_intent
        == OperationIntent::RenameInPlace || item.operation_intent
        == OperationIntent::OrganiseSymlinkOnly
}

/// The row says what the item does: from where, to where, whether it is only
/// renamed, and whether a hash can tell that it is still the same file.
pub open spec fn is_row_of(row: OperationModel, item: LibraryPlanExportItem) -> bool {
    &&& row.source == item.precondition.source_path@
    &&& item.proposed_destination matches Some(path) && row.destination == Some(path@)
    &&& row.kind == OperationKind::Rename <==> item.operation_intent
        == OperationIntent::RenameInPlace
    &&& row.kind == OperationKind::Move <==> item.operation_intent
        != OperationIntent::RenameInPlace
    &&& row.strength == PreconditionStrength::HashVerified
        <==> item.precondition.physical_hash is Some || item.precondition.normalized_hash is Some
    &&& row.blockers.len() == 0
}

/// The items that move.
pub open spec fn moving(items: Seq<LibraryPlanExportItem>) -> Seq<LibraryPlanExportItem> {
    items.filter(|item: LibraryPlanExportItem| moves(item))
}

/// A preview has one row for each item that moves, in the order of the plan.
pub proof fn previews_have_a_row_for_each_move(items: Seq<LibraryPlanExportItem>)
    ensures
        operations_of(items).len() == moving(items).len(),
        forall|k: int|
            0 <= k < moving(items).len() ==> is_row_of(
                #[trigger] operations_of(items)[k],
                moving(items)[k],
            ),
        forall|k: int| 0 <= k < moving(items).len() ==> moves(#[trigger] moving(items)[k]),
    decreases items.len(),
{
    reveal(Seq::filter);
    if items.len() > 0 {
        let rest = items.drop_last();
        let item = items.last();
        previews_have_a_row_for_each_move(rest);
        assert(moves(item) == is_operation(item));
        let rows = operations_of(items);
        let kept = moving(items);
        if moves(item) {
            assert(kept == moving(rest).push(item));
            assert(rows == operations_of(rest).push(operation_of(item)));
            assert forall|k: int| 0 <= k < kept.len() implies is_row_of(#[trigger] rows[k], kept[k])
                && moves(kept[k]) by {
                if k < moving(rest).len() {
                    assert(rows[k] == operations_of(rest)[k]);
                    assert(moves(moving(rest)[k]));
                }
            }
        } else {
            assert(kept == moving(rest));
        }
    } else {
        assert(moving(items) =~= seq![]);
    }
}

/// A name that stands for one file in a directory.
pub open spec fn is_one_name(name: Seq<char>) -> bool {
    &&& name.len() > 0
    &&& !name.contains('/')
    &&& !name.contains('\\')
    &&& !name.contains('\0')
    &&& name != seq!['.']
    &&& name != seq!['.', '.']
}

/// The position is that of the first identity captured for the path.
pub open spec fn is_first_capture(
    captured: Seq<(String, FileIdentity)>,
    path: Seq<char>,
    k: int,
) -> bool {
    &&& 0 <= k < captured.len()
    &&& captured[k].0@ == path
    &&& forall|j: int| 0 <= j < k ==> (#[trigger] captured[j]).0@ != path
}

/// An approved item that is ready and unblocked, goes to another path under one
/// plain name, and was seen where the plan says it is.
pub open spec fn enters(
    item: LibraryPlanExportItem,
    approved: Set<Seq<char>>,
    captured: Seq<(String, FileIdentity)>,
) -> bool {
    &&& item.status == PlanStatus::Ready
    &&& item.blockers@.len() == 0
    &&& approved.contains(item.precondition.source_path@)
    &&& item.proposed_destination matches Some(path) && components(path@) != components(
        item.precondition.source_path@,
    ) && (file_name(path@) matches Some(name) && is_one_name(name))
    &&& exists|k: int| #[trigger] is_first_capture(captured, item.precondition.source_path@, k)
}

/// The entry is the item's: untouched, from its source to its destination, with
/// the identity captured for the source.
pub open spec fn is_entry_of(
    entry: EntryModel,
    item: LibraryPlanExportItem,
    captured: Seq<(String, FileIdentity)>,
) -> bool {
    &&& entry.source == item.precondition.source_path@
    &&& item.proposed_destination matches Some(path) && entry.destination == path@
        && Some(entry.proposed_basename) == file_name(path@)
    &&& file_name(entry.source) matches Some(name) ==> entry.original_basename == name
    &&& file_name(entry.source) is None ==> entry.original_basename.len() == 0
    &&& forall|k: int| #[trigger]
        is_first_capture(captured, entry.source, k) ==> entry.identity == captured[k].1
    &&& !entry.preflight_passed
    &&& entry.preflight_failures.len() == 0
    &&& entry.state == EntryState::Planned
    &&& entry.failure_reason is None
    &&& entry.applied_at_unix is None
    &&& entry.rolled_back_at_unix is None
    &&& entry.set_label == opt_view(item.set_label)
}

proof fn first_captures(captured: Seq<(String, FileIdentity)>, path: Seq<char>)
    ensures
        captured_identity(captured, path) is Some <==> exists|k: int| #[trigger]
            is_first_capture(captured, path, k),
        forall|k: int| #[trigger]
            is_first_capture(captured, path, k) ==> captured_identity(captured, path) == Some(
                captured[k].1,
            ),
    decreases captured.len(),
{
    if captured.len() > 0 {
        let rest = captured.drop_first();
        first_captures(rest, path);
        if captured[0].0@ == path {
            assert(is_first_capture(captured, path, 0));
            assert forall|k: int| #[trigger] is_first_capture(captured, path, k) implies k == 0 by {
                if k > 0 {
                    assert(captured[0].0@ != path);
                }
            }
        } else {
            assert forall|k: int| #[trigger] is_first_capture(captured, path, k) implies
                is_first_capture(rest, path, k - 1) by {
                assert(k != 0);
                assert(rest[k - 1] == captured[k]);
                assert forall|j: int| 0 <= j < k - 1 implies (#[trigger] rest[j]).0@ != path by {
                    assert(rest[j] == captured[j + 1]);
                }
            }
            assert forall|k: int| #[trigger] is_first_capture(rest, path, k) implies
                is_first_capture(captured, path, k + 1) by {
                assert(rest[k] == captured[k + 1]);
                assert forall|j: int| 0 <= j < k + 1 implies (#[trigger] captured[j]).0@
                    != path by {
                    if j > 0 {
                        assert(rest[j - 1] == captured[j]);
                    }
                }
            }
        }
    }
}

proof fn entering_items_are_admitted(
    item: LibraryPlanExportItem,
    approved: Set<Seq<char>>,
    captured: Seq<(String, FileIdentity)>,
)
    ensures
        enters(item, approved, captured) == is_admitted(item, approved, captured),
        enters(item, approved, captured) ==> is_entry_of(entry_of(item, captured), item, captured),
{
    first_captures(captured, item.precondition.source_path@);
    if let Some(path) = item.proposed_destination {
        if let Some(name) = file_name(path@) {
            if is_one_name(name) {
                assert forall|i: int| 0 <= i < name.len() implies (#[trigger] name[i]) != '/'
                    && name[i] != '\\' && name[i] != '\0' by {
                    assert(name.contains(name[i]));
                }
            }
        }
    }
}

/// The items that enter a batch.
pub open spec fn entering(
    items: Seq<LibraryPlanExportItem>,
    approved: Set<Seq<char>>,
    captured: Seq<(String, FileIdentity)>,
) -> Seq<LibraryPlanExportItem> {
    items.filter(|item: LibraryPlanExportItem| enters(item, approved, captured))
}

/// A batch has one entry for each item that may enter it, in the order of the
/// plan.
pub proof fn batches_have_an_entry_for_each_move(
    items: Seq<LibraryPlanExportItem>,
    approved: Set<Seq<char>>,
    captured: Seq<(String, FileIdentity)>,
)
    ensures
        entries_of(items, approved, captured).len() == entering(items, approved, captured).len(),
        forall|k: int|
            0 <= k < entering(items, approved, captured).len() ==> is_entry_of(
                #[trigger] entries_of(items, approved, captured)[k],
                entering(items, approved, captured)[k],
                captured,
            ),
    decreases items.len(),
{
    reveal(Seq::filter);
    if items.len() > 0 {
        let rest = items.drop_last();
        let item = items.last();
        batches_have_an_entry_for_each_move(rest, approved, captured);
        entering_items_are_admitted(item, approved, captured);
        let before = entries_of(rest, approved, captured);
        let entries = entries_of(items, approved, captured);
        let kept = entering(items, approved, captured);
        if enters(item, approved, captured) {
            assert(kept == entering(rest, approved, captured).push(item));
            assert(entries == before.push(entry_of(item, captured)));
            assert forall|k: int| 0 <= k < kept.len() implies is_entry_of(
                #[trigger] entries[k],
                kept[k],
                captured,
            ) by {
                if k < before.len() {
                    assert(entries[k] == before[k]);
                }
            }
        } else {
            assert(kept == entering(rest, approved, captured));
        }
    } else {
        assert(entering(items, approved, captured) =~= seq![]);
    }
}

/// A new batch has run nothing and made nothing: it is planned, owns no
/// directory, and carries what it was stamped with.
pub proof fn new_batches_have_done_nothing(
    transaction: RenameTransaction,
    entries: Seq<EntryModel>,
    generation: nat,
    scan_root_label: Seq<char>,
    stamp: TransactionStamp,
)
    requires
        is_fresh(transaction, entries, generation, scan_root_label, stamp),
    ensures
        transaction.state == TransactionState::Planned,
        transaction.created_directories@.len() == 0,
        transaction.entries@.len() == entries.len(),
        forall|k: int|
            0 <= k < entries.len() ==> (#[trigger] transaction.entries@[k])@ == entries[k],
        transaction.transaction_id@ == stamp.transaction_id@,
        transaction.created_at_unix == stamp.created_at_unix,
        transaction.classifier_version matches Some(version) && version@
            == stamp.classifier_version@,
        transaction.source_scan_root@ == scan_root_label,
        transaction.plan_generation as nat == generation,
{
    assert(entry_models(transaction.entries@).len() == transaction.entries@.len());
    assert forall|k: int| 0 <= k < entries.len() implies (#[trigger] transaction.entries@[k])@
        == entries[k] by {
        assert(entry_models(transaction.entries@)[k] == transaction.entries@[k]@);
    }
}

/// What a preview says of one move.
pub open spec fn move_block(op: OperationModel) -> Seq<char> {
    (match op.kind {
        OperationKind::Move => "MOVE\n"@,
        OperationKind::Rename => "RENAME\n"@,
        OperationKind::Unsupported => "UNSUPPORTED\n"@,
    }) + "  Source:\n    "@ + op.source + "\n  Destination:\n    "@ + (match op.destination {
        Some(path) => path,
        None => "(none)"@,
    }) + "\n\n"@
}

/// What a preview says of how a source is recognised.
pub open spec fn check_line(op: OperationModel) -> Seq<char> {
    "  "@ + op.source + ": "@ + (match op.strength {
        PreconditionStrength::HashVerified => "physical hash verified"@,
        PreconditionStrength::IdentityOnly => "identity only (no frozen hash)"@,
    }) + "\n"@
}

proof fn blocks_are_listed(head: Seq<char>, ops: Seq<OperationModel>, k: int)
    requires
        0 <= k < ops.len(),
    ensures
        stands_in(move_block(ops[k]), operation_lines(head, ops)),
        stands_in(check_line(ops[k]), precondition_lines(head, ops)),
    decreases ops.len(),
{
    let empty = Seq::<char>::empty();
    let rest = ops.drop_last();
    reveal_strlit("\n");
    reveal_strlit("  Destination:\n    ");
    reveal_strlit("\n  Destination:\n    ");
    assert("\n  Destination:\n    "@ =~= "\n"@ + "  Destination:\n    "@);
    let before = operation_lines(head, rest);
    let lines = precondition_lines(head, rest);
    let block = move_block(ops.last());
    let line = check_line(ops.last());
    assert(operation_lines(head, ops) =~= amid(before, block, empty));
    assert(precondition_lines(head, ops) =~= amid(lines, line, empty));
    if k < rest.len() {
        blocks_are_listed(head, rest, k);
        stands_in_parts(move_block(ops[k]), before, empty, block);
        stands_in_parts(check_line(ops[k]), lines, empty, line);
        assert(operation_lines(head, ops) =~= empty + before + block);
        assert(precondition_lines(head, ops) =~= empty + lines + line);
    }
}

proof fn heads_come_first(head: Seq<char>, ops: Seq<OperationModel>)
    ensures
        head.is_prefix_of(operation_lines(head, ops)),
        head.is_prefix_of(precondition_lines(head, ops)),
    decreases ops.len(),
{
    if ops.len() > 0 {
        heads_come_first(head, ops.drop_last());
        let a = operation_lines(head, ops.drop_last());
        let b = precondition_lines(head, ops.drop_last());
        assert(head =~= a.take(head.len() as int));
        assert(head =~= b.take(head.len() as int));
        assert(head =~= operation_lines(head, ops).take(head.len() as int));
        assert(head =~= precondition_lines(head, ops).take(head.len() as int));
    } else {
        assert(head =~= head.take(head.len() as int));
    }
}

/// A preview opens with the number of moves, names the source and destination of
/// each and how the source is recognised, and says at its end how many items it
/// leaves out, that approval is required and that nothing is done.
pub proof fn previews_name_every_move(ops: Seq<OperationModel>, total: nat, unsupported: nat)
    ensures
        stands_in(
            "TRANSACTION PREVIEW\n\nOperations: "@ + decimal(total) + "\n\n"@,
            preview_text(ops, total, unsupported),
        ),
        stands_in(
            "\nUnsupported items:\n  "@ + decimal(unsupported)
                + "\n\nApproval:\n  REQUIRED\n\nApplied:\n  NO\n"@,
            preview_text(ops, total, unsupported),
        ),
        forall|k: int|
            0 <= k < ops.len() ==> stands_in(
                move_block(#[trigger] ops[k]),
                preview_text(ops, total, unsupported),
            ) && stands_in(check_line(ops[k]), preview_text(ops, total, unsupported)),
{
    let empty = Seq::<char>::empty();
    let text = preview_text(ops, total, unsupported);
    let head = "TRANSACTION PREVIEW\n\n"@ + "Operations: "@ + decimal(total) + "\n\n"@;
    let listed = operation_lines(head, ops) + "Preconditions:\n"@;
    let checked = precondition_lines(listed, ops);
    let tail = "\nUnsupported items:\n  "@ + decimal(unsupported) + "\n"@
        + "\nApproval:\n  REQUIRED\n"@ + "\nApplied:\n  NO\n"@;
    reveal_strlit("TRANSACTION PREVIEW\n\n");
    reveal_strlit("Operations: ");
    reveal_strlit("TRANSACTION PREVIEW\n\nOperations: ");
    assert("TRANSACTION PREVIEW\n\nOperations: "@ =~= "TRANSACTION PREVIEW\n\n"@ + "Operations: "@);
    reveal_strlit("\n");
    reveal_strlit("\nApproval:\n  REQUIRED\n");
    reveal_strlit("\nApplied:\n  NO\n");
    reveal_strlit("\n\nApproval:\n  REQUIRED\n\nApplied:\n  NO\n");
    assert("\n\nApproval:\n  REQUIRED\n\nApplied:\n  NO\n"@ =~= "\n"@
        + "\nApproval:\n  REQUIRED\n"@ + "\nApplied:\n  NO\n"@);
    assert(tail =~= "\nUnsupported items:\n  "@ + decimal(unsupported)
        + "\n\nApproval:\n  REQUIRED\n\nApplied:\n  NO\n"@);
    assert(text =~= amid(checked, tail, empty));
    heads_come_first(head, ops);
    heads_come_first(listed, ops);
    let after_head = operation_lines(head, ops).skip(head.len() as int);
    let after_listed = checked.skip(listed.len() as int);
    assert(operation_lines(head, ops) =~= head + after_head);
    assert(checked =~= listed + after_listed);
    assert(text =~= amid(empty, head, after_head + "Preconditions:\n"@ + after_listed + tail));
    assert forall|k: int| 0 <= k < ops.len() implies stands_in(move_block(#[trigger] ops[k]), text)
        && stands_in(check_line(ops[k]), text) by {
        blocks_are_listed(head, ops, k);
        blocks_are_listed(listed, ops, k);
        stands_in_parts(
            move_block(ops[k]),
            operation_lines(head, ops),
            empty,
            "Preconditions:\n"@ + after_listed + tail,
        );
        assert(text =~= empty + operation_lines(head, ops) + ("Preconditions:\n"@ + after_listed
            + tail));
        stands_in_parts(check_line(ops[k]), checked, empty, tail);
        assert(text =~= empty + checked + tail);
    }
}

/// A preview is approved exactly when it has a move and the acknowledgement has a
/// character that is not white space. The approval is bound to the preview's
/// digest and holds the source of every move, and of nothing else.
pub proof fn approvals_need_a_move_and_a_word(
    r: Result<ApprovedPlan, ApprovalError>,
    preview: TransactionPreview,
    acknowledgement: Seq<char>,
    now_unix: u64,
)
    requires
        approves(r, preview, acknowledgement, now_unix),
    ensures
        r is Ok <==> preview.operations@.len() > 0 && !all_white(acknowledgement),
        r matches Err(error) ==> (error == ApprovalError::NoOperations
            <==> preview.operations@.len() == 0),
        r matches Ok(approved) ==> {
            &&& approved.digest.0@ == preview.digest.0@
            &&& approved.approved_at_unix == now_unix
            &&& approved.acknowledgement@ == acknowledgement
            &&& forall|path: Seq<char>| #[trigger]
                approved.approved_item_ids@.contains(path) <==> exists|k: int|
                    0 <= k < preview.operations@.len() && (
                    #[trigger] preview.operations@[k]).source_path@ == path
        },
{
    let (lead, core, tail) = every_text_can_be_trimmed(acknowledgement);
    trimming_cuts_outer_white_space(lead, core, tail);
    if core.len() > 0 {
        assert(acknowledgement[lead.len() as int] == core[0]);
    } else {
        assert forall|i: int| 0 <= i < acknowledgement.len() implies is_white_space(
            #[trigger] acknowledgement[i],
        ) by {
            if i < lead.len() {
                assert(acknowledgement[i] == lead[i]);
            } else {
                assert(acknowledgement[i] == tail[i - lead.len()]);
            }
        }
    }
    if let Ok(approved) = r {
        let ops = preview.operations@;
        let all = source_paths(operation_models(ops));
        assert forall|path: Seq<char>| #[trigger]
            approved.approved_item_ids@.contains(path) <==> exists|k: int|
                0 <= k < ops.len() && (#[trigger] ops[k]).source_path@ == path by {
            if approved.approved_item_ids@.contains(path) {
                assert(all.contains(path));
                let k = choose|k: int| 0 <= k < all.len() && all[k] == path;
                assert(ops[k].source_path@ == path);
            }
            if exists|k: int| 0 <= k < ops.len() && (#[trigger] ops[k]).source_path@ == path {
                let k = choose|k: int|
                    0 <= k < ops.len() && (#[trigger] ops[k]).source_path@ == path;
                assert(all[k] == path);
                assert(all.contains(path));
            }
        }
    }
}

/// Some item would be moved to where some item that moves is.
pub open spec fn has_cycle(moved: Seq<LibraryPlanExportItem>) -> bool {
    exists|i: int, j: int|
        0 <= i < moved.len() && 0 <= j < moved.len() && ends_where_starts(
            #[trigger] moved[i],
            #[trigger] moved[j],
        )
}

/// The one item would be moved to where the other is.
pub open spec fn ends_where_starts(a: LibraryPlanExportItem, b: LibraryPlanExportItem) -> bool {
    a.proposed_destination matches Some(path) && components(path@) == components(
        b.precondition.source_path@,
    )
}

/// A plan becomes a batch exactly when it is still the one that was approved,
/// some item may enter, and none of those would be moved to where another is. Of
/// several grounds to refuse it the first in this order is given.
pub proof fn approved_plans_become_batches(
    r: Result<RenameTransaction, PlanTransactionError>,
    items: Seq<LibraryPlanExportItem>,
    approved: ApprovedPlan,
    scan_root_label: Seq<char>,
    captured: Seq<(String, FileIdentity)>,
    stamp: TransactionStamp,
)
    requires
        builds(r, items, approved, scan_root_label, captured, stamp),
    ensures
        ({
            let current = approved.digest.0@ == hex_text(plan_hash(items));
            let moved = entering(items, approved.approved_item_ids@, captured);
            match r {
                Ok(transaction) => current && moved.len() > 0 && !has_cycle(moved)
                    && transaction.entries@.len() == moved.len(),
                Err(PlanTransactionError::DigestMismatch { .. }) => !current,
                Err(PlanTransactionError::NoApprovedReadyItems) => current && moved.len() == 0,
                Err(PlanTransactionError::CycleDetected(_)) => current && moved.len() > 0
                    && has_cycle(moved),
                Err(PlanTransactionError::Underlying(_)) => false,
            }
        }),
{
    let ids = approved.approved_item_ids@;
    let moved = entering(items, ids, captured);
    let entries = entries_of(items, ids, captured);
    batches_have_an_entry_for_each_move(items, ids, captured);
    cycles_are_destinations_that_are_sources(entries);
    assert(has_cycle(moved) <==> cyclic_paths(entries).len() > 0) by {
        if has_cycle(moved) {
            let (i, j) = choose|i: int, j: int|
                0 <= i < moved.len() && 0 <= j < moved.len() && ends_where_starts(
                    #[trigger] moved[i],
                    #[trigger] moved[j],
                );
            assert(is_entry_of(entries[i], moved[i], captured));
            assert(is_entry_of(entries[j], moved[j], captured));
        }
        if cyclic_paths(entries).len() > 0 {
            let (i, j) = choose|i: int, j: int|
                0 <= i < entries.len() && 0 <= j < entries.len() && components(
                    (#[trigger] entries[i]).destination,
                ) == components((#[trigger] entries[j]).source);
            assert(is_entry_of(entries[i], moved[i], captured));
            assert(is_entry_of(entries[j], moved[j], captured));
            assert(ends_where_starts(moved[i], moved[j]));
        }
    }
    if let Ok(transaction) = r {
        new_batches_have_done_nothing(
            transaction,
            entries,
            big_endian_number(plan_hash(items).take(8)),
            scan_root_label,
            stamp,
        );
    }
}

} // verus!
