//! From a frozen plan to a batch of moves: a digest that stands for the plan, a
//! preview, an explicit approval bound to the digest, and the batch built from
//! what was approved.
use vstd::prelude::*;
use vstd::string::*;
use vstd::utf8::encode_utf8;
use crate::dat::rename_apply::{
    entry_models, EntryModel, EntryState, FileIdentity, RenameTransaction, TransactionEntry,
    TransactionState,
};
use crate::order::stable_sorted;
use crate::path::{
    components, file_name, file_name_of, path_is_under, path_order, same_path, sort_paths,
};
use crate::platform_evidence_fusion::dat_hash_representation::{sha256_digest, sha256_of};
use crate::platform_evidence_fusion::library_plan_export::{
    LibraryPlanExport, LibraryPlanExportItem, OperationIntent,
};
use crate::platform_evidence_fusion::library_planning::PlanStatus;
use crate::platform_evidence_fusion::set_destination::{is_safe_basename, is_safe_name};
use crate::text::{
    copy_opt, debug_opt, debug_opt_text, debug_texts, decimal, decimal_text, bracketed, hex,
    hex_text, hex_text_len, join_texts, joined, opt_view, quoted_texts, same_text, trim, trimmed,
    views,
};
use crate::text_set::TextSet;

verus! {

/// A digest that stands for a frozen plan.
#[derive(Debug, Clone, PartialEq, Eq)]
pub struct PlanDigest(pub String);

impl PlanDigest {
    pub fn as_str(&self) -> (r: &str)
        ensures
            r@ == self.0@,
    {
        self.0.as_str()
    }
}

/// The text std's `Debug` writes for an optional value whose own text is `s`.
pub open spec fn some_text(s: Option<Seq<char>>) -> Seq<char> {
    match s {
        Some(t) => "Some("@ + t + ")"@,
        None => "None"@,
    }
}

/// The fields of an item that decide what would happen, as one line.
pub open spec fn digest_line(item: LibraryPlanExportItem) -> Seq<char> {
    "status="@ + item.status.name_text() + "|source="@ + item.precondition.source_path@
        + "|physical_hash="@ + debug_opt_text(opt_view(item.precondition.physical_hash))
        + "|normalized_hash="@ + debug_opt_text(opt_view(item.precondition.normalized_hash))
        + "|destination="@ + debug_opt_text(opt_view(item.proposed_destination)) + "|intent="@
        + item.operation_intent.name_text() + "|blockers="@ + bracketed(
        quoted_texts(views(item.blockers@)),
    ) + "|set_label="@ + debug_opt_text(opt_view(item.set_label)) + "|set_destination="@
        + debug_opt_text(opt_view(item.set_destination)) + "|support_role="@ + debug_opt_text(
        opt_view(item.support_role),
    ) + "|support_association="@ + debug_opt_text(opt_view(item.support_association))
        + "|duplicate="@ + some_text(
        match item.duplicate_classification {
            Some(class) => Some(class.name_text()),
            None => None,
        },
    ) + "|revision="@ + some_text(
        match item.revision_relationship {
            Some(relationship) => Some(relationship.debug_text()),
            None => None,
        },
    )
}

/// The lines of all items in order, each ended by a line break.
pub open spec fn plan_text(items: Seq<LibraryPlanExportItem>) -> Seq<char>
    decreases items.len(),
{
    if items.len() == 0 {
        seq![]
    } else {
        plan_text(items.drop_last()) + digest_line(items.last()) + "\n"@
    }
}

/// The SHA-256 digest of the plan's lines.
pub open spec fn plan_hash(items: Seq<LibraryPlanExportItem>) -> Seq<u8> {
    sha256_digest(encode_utf8(plan_text(items)))
}

fn some(s: Option<String>) -> (r: String)
    ensures
        r@ == some_text(opt_view(s)),
{
    match s {
        Some(t) => {
            let mut r = "Some(".to_owned();
            r.append(t.as_str());
            r.append(")");
            r
        },
        None => "None".to_owned(),
    }
}

fn line_of(item: &LibraryPlanExportItem) -> (r: String)
    ensures
        r@ == digest_line(*item),
{
    let duplicate = match item.duplicate_classification {
        Some(class) => Some(class.name().to_owned()),
        None => None,
    };
    let revision = match &item.revision_relationship {
        Some(relationship) => Some(relationship.debug()),
        None => None,
    };
    let mut r = "status=".to_owned();
    r.append(item.status.name());
    r.append("|source=");
    r.append(item.precondition.source_path.as_str());
    r.append("|physical_hash=");
    r.append(debug_opt(&item.precondition.physical_hash).as_str());
    r.append("|normalized_hash=");
    r.append(debug_opt(&item.precondition.normalized_hash).as_str());
    r.append("|destination=");
    r.append(debug_opt(&item.proposed_destination).as_str());
    r.append("|intent=");
    r.append(item.operation_intent.name());
    r.append("|blockers=");
    r.append(debug_texts(&item.blockers).as_str());
    r.append("|set_label=");
    r.append(debug_opt(&item.set_label).as_str());
    r.append("|set_destination=");
    r.append(debug_opt(&item.set_destination).as_str());
    r.append("|support_role=");
    r.append(debug_opt(&item.support_role).as_str());
    r.append("|support_association=");
    r.append(debug_opt(&item.support_association).as_str());
    r.append("|duplicate=");
    r.append(some(duplicate).as_str());
    r.append("|revision=");
    r.append(some(revision).as_str());
    r
}

fn hash_of(export: &LibraryPlanExport) -> (r: Vec<u8>)
    ensures
        r@ == plan_hash(export.items@),
        r@.len() == 32,
{
    let mut text = String::new();
    let mut i: usize = 0;
    assert(text@ =~= plan_text(export.items@.take(0)));
    while i < export.items.len()
        invariant
            i <= export.items@.len(),
            text@ == plan_text(export.items@.take(i as int)),
        decreases export.items.len() - i,
    {
        text.append(line_of(&export.items[i]).as_str());
        text.append("\n");
        assert(export.items@.take(i + 1).drop_last() =~= export.items@.take(i as int));
        i = i + 1;
    }
    assert(export.items@.take(i as int) =~= export.items@);
    sha256_of(text.as_str().as_bytes())
}

/// The digest of a frozen plan: the SHA-256 of its lines, in hexadecimal.
pub fn compute_plan_digest(export: &LibraryPlanExport) -> (r: PlanDigest)
    ensures
        r.0@ == hex_text(plan_hash(export.items@)),
        r.0@.len() == 64,
{
    let hash = hash_of(export);
    proof {
        hex_text_len(hash@);
    }
    PlanDigest(hex(hash.as_slice()))
}

/// The number whose big-endian bytes are `bytes`.
pub open spec fn big_endian_number(bytes: Seq<u8>) -> nat
    decreases bytes.len(),
{
    if bytes.len() == 0 {
        0
    } else {
        big_endian_number(bytes.drop_last()) * 256 + bytes.last() as nat
    }
}

/// A number derived from the digest: its first sixteen hexadecimal digits.
pub fn plan_generation_of(export: &LibraryPlanExport) -> (r: u64)
    ensures
        r as nat == big_endian_number(plan_hash(export.items@).take(8)),
{
    let hash = hash_of(export);
    let mut number: u64 = 0;
    let mut i: usize = 0;
    while i < 8
        invariant
            i <= 8,
            hash@.len() == 32,
            number as nat == big_endian_number(hash@.take(i as int)),
            i == 0 ==> number < 1,
            i == 1 ==> number < 0x100,
            i == 2 ==> number < 0x1_0000,
            i == 3 ==> number < 0x100_0000,
            i == 4 ==> number < 0x1_0000_0000,
            i == 5 ==> number < 0x100_0000_0000,
            i == 6 ==> number < 0x1_0000_0000_0000,
            i == 7 ==> number < 0x100_0000_0000_0000,
        decreases 8 - i,
    {
        assert(hash@.take(i + 1).drop_last() =~= hash@.take(i as int));
        number = number * 256 + hash[i] as u64;
        i = i + 1;
    }
    number
}

/// What an item's destination implies.
#[derive(Debug, Clone, Copy, PartialEq, Eq, Structural)]
pub enum OperationKind {
    Move,
    Rename,
    /// Never the kind of an operation that is built.
    Unsupported,
}

/// How well a source can be recognised before it is moved.
#[derive(Debug, Clone, Copy, PartialEq, Eq, Structural)]
pub enum PreconditionStrength {
    /// A hash was frozen with the plan.
    HashVerified,
    /// No hash was frozen; only the file's identity can be compared.
    IdentityOnly,
}

/// One row of a preview.
#[derive(Debug, Clone, PartialEq, Eq)]
pub struct PreviewOperation {
    pub source_path: String,
    pub destination_path: Option<String>,
    pub kind: OperationKind,
    pub precondition_strength: PreconditionStrength,
    pub blockers: Vec<String>,
}

/// A [`PreviewOperation`] with its texts as sequences.
#[verifier::ext_equal]
pub struct OperationModel {
    pub source: Seq<char>,
    pub destination: Option<Seq<char>>,
    pub kind: OperationKind,
    pub strength: PreconditionStrength,
    pub blockers: Seq<Seq<char>>,
}

impl View for PreviewOperation {
    type V = OperationModel;

    open spec fn view(&self) -> OperationModel {
        OperationModel {
            source: self.source_path@,
            destination: opt_view(self.destination_path),
            kind: self.kind,
            strength: self.precondition_strength,
            blockers: views(self.blockers@),
        }
    }
}

/// The models of operations.
pub open spec fn operation_models(s: Seq<PreviewOperation>) -> Seq<OperationModel> {
    s.map_values(|o: PreviewOperation| o@)
}

/// What would be done, without anything that could do it.
#[derive(Debug, Clone, PartialEq, Eq)]
pub struct TransactionPreview {
    pub digest: PlanDigest,
    pub operations: Vec<PreviewOperation>,
    pub unsupported_item_count: usize,
    pub total_operation_count: usize,
}

/// An item is an operation when it is ready and unblocked, and has a
/// destination and an intent.
pub open spec fn is_operation(item: LibraryPlanExportItem) -> bool {
    &&& item.status == PlanStatus::Ready
    &&& item.proposed_destination is Some
    &&& item.blockers@.len() == 0
    &&& item.operation_intent != OperationIntent::NoOperation
}

/// The row of an item that is an operation.
pub open spec fn operation_of(item: LibraryPlanExportItem) -> OperationModel {
    OperationModel {
        source: item.precondition.source_path@,
        destination: opt_view(item.proposed_destination),
        kind: if item.operation_intent == OperationIntent::RenameInPlace {
            OperationKind::Rename
        } else {
            OperationKind::Move
        },
        strength: if item.precondition.physical_hash is Some
            || item.precondition.normalized_hash is Some {
            PreconditionStrength::HashVerified
        } else {
            PreconditionStrength::IdentityOnly
        },
        blockers: seq![],
    }
}

/// The rows of all items that are operations, in order.
pub open spec fn operations_of(items: Seq<LibraryPlanExportItem>) -> Seq<OperationModel>
    decreases items.len(),
{
    if items.len() == 0 {
        seq![]
    } else if is_operation(items.last()) {
        operations_of(items.drop_last()).push(operation_of(items.last()))
    } else {
        operations_of(items.drop_last())
    }
}

/// Builds a preview; whatever is not an operation is only counted.
pub fn build_preview(export: &LibraryPlanExport) -> (r: TransactionPreview)
    ensures
        r.digest.0@ == hex_text(plan_hash(export.items@)),
        operation_models(r.operations@) == operations_of(export.items@),
        r.total_operation_count == operations_of(export.items@).len(),
        r.unsupported_item_count == export.items@.len() - operations_of(export.items@).len(),
{
    let digest = compute_plan_digest(export);
    let mut operations: Vec<PreviewOperation> = Vec::new();
    let mut unsupported_item_count: usize = 0;
    let mut i: usize = 0;
    assert(operation_models(operations@) =~= operations_of(export.items@.take(0)));
    while i < export.items.len()
        invariant
            i <= export.items@.len(),
            operation_models(operations@) == operations_of(export.items@.take(i as int)),
            unsupported_item_count + operations@.len() == i,
        decreases export.items.len() - i,
    {
        assert(export.items@.take(i + 1).drop_last() =~= export.items@.take(i as int));
        match preview_operation_for(&export.items[i]) {
            Some(operation) => {
                assert(operation_models(operations@.push(operation)) =~= operation_models(
                    operations@,
                ).push(operation@));
                operations.push(operation);
            },
            None => {
                unsupported_item_count = unsupported_item_count + 1;
            },
        }
        i = i + 1;
    }
    assert(export.items@.take(i as int) =~= export.items@);
    assert(operation_models(operations@).len() == operations@.len());
    let total_operation_count: usize = operations.len();
    TransactionPreview { digest, operations, unsupported_item_count, total_operation_count }
}

fn preview_operation_for(item: &LibraryPlanExportItem) -> (r: Option<PreviewOperation>)
    ensures
        match r {
            Some(operation) => is_operation(*item) && operation@ == operation_of(*item),
            None => !is_operation(*item),
        },
{
    if item.status != PlanStatus::Ready {
        return None;
    }
    if item.proposed_destination.is_none() || item.blockers.len() > 0 {
        return None;
    }
    let kind = match item.operation_intent {
        OperationIntent::MoveToLibraryFolder => OperationKind::Move,
        OperationIntent::OrganiseSymlinkOnly => OperationKind::Move,
        OperationIntent::RenameInPlace => OperationKind::Rename,
        OperationIntent::NoOperation => return None,
    };
    let precondition_strength = if item.precondition.physical_hash.is_some()
        || item.precondition.normalized_hash.is_some() {
        PreconditionStrength::HashVerified
    } else {
        PreconditionStrength::IdentityOnly
    };
    let blockers: Vec<String> = Vec::new();
    assert(views(blockers@) =~= seq![]);
    Some(
        PreviewOperation {
            source_path: item.precondition.source_path.clone(),
            destination_path: copy_opt(&item.proposed_destination),
            kind,
            precondition_strength,
            blockers,
        },
    )
}

/// The heading of an operation's kind.
pub open spec fn kind_line(kind: OperationKind) -> Seq<char> {
    match kind {
        OperationKind::Move => "MOVE\n"@,
        OperationKind::Rename => "RENAME\n"@,
        OperationKind::Unsupported => "UNSUPPORTED\n"@,
    }
}

/// What a preview says of a precondition.
pub open spec fn strength_label(strength: PreconditionStrength) -> Seq<char> {
    match strength {
        PreconditionStrength::HashVerified => "physical hash verified"@,
        PreconditionStrength::IdentityOnly => "identity only (no frozen hash)"@,
    }
}

/// `head` followed by the operations, each with its source and destination.
pub open spec fn operation_lines(head: Seq<char>, operations: Seq<OperationModel>) -> Seq<char>
    decreases operations.len(),
{
    if operations.len() == 0 {
        head
    } else {
        let op = operations.last();
        operation_lines(head, operations.drop_last()) + kind_line(op.kind) + "  Source:\n    "@
            + op.source + "\n"@ + "  Destination:\n    "@ + (match op.destination {
            Some(destination) => destination,
            None => "(none)"@,
        }) + "\n\n"@
    }
}

/// `head` followed by the operations' preconditions.
pub open spec fn precondition_lines(head: Seq<char>, operations: Seq<OperationModel>) -> Seq<char>
    decreases operations.len(),
{
    if operations.len() == 0 {
        head
    } else {
        precondition_lines(head, operations.drop_last()) + "  "@ + operations.last().source + ": "@
            + strength_label(operations.last().strength) + "\n"@
    }
}

/// A preview as text.
pub open spec fn preview_text(
    operations: Seq<OperationModel>,
    total: nat,
    unsupported: nat,
) -> Seq<char> {
    let head = "TRANSACTION PREVIEW\n\n"@ + "Operations: "@ + decimal(total) + "\n\n"@;
    let listed = operation_lines(head, operations) + "Preconditions:\n"@;
    precondition_lines(listed, operations) + "\nUnsupported items:\n  "@ + decimal(unsupported)
        + "\n"@ + "\nApproval:\n  REQUIRED\n"@ + "\nApplied:\n  NO\n"@
}

/// A preview as text for people to read.
pub fn render_preview_text(preview: &TransactionPreview) -> (r: String)
    ensures
        r@ == preview_text(
            operation_models(preview.operations@),
            preview.total_operation_count as nat,
            preview.unsupported_item_count as nat,
        ),
{
    let ghost ops = operation_models(preview.operations@);
    let mut out = "TRANSACTION PREVIEW\n\n".to_owned();
    out.append("Operations: ");
    out.append(decimal_text(preview.total_operation_count as u64).as_str());
    out.append("\n\n");
    let ghost head = out@;
    let mut i: usize = 0;
    assert(ops.take(0) =~= seq![]);
    while i < preview.operations.len()
        invariant
            i <= preview.operations@.len(),
            ops == operation_models(preview.operations@),
            out@ == operation_lines(head, ops.take(i as int)),
        decreases preview.operations.len() - i,
    {
        let op = &preview.operations[i];
        match op.kind {
            OperationKind::Move => out.append("MOVE\n"),
            OperationKind::Rename => out.append("RENAME\n"),
            OperationKind::Unsupported => out.append("UNSUPPORTED\n"),
        }
        out.append("  Source:\n    ");
        out.append(op.source_path.as_str());
        out.append("\n");
        out.append("  Destination:\n    ");
        match &op.destination_path {
            Some(destination) => out.append(destination.as_str()),
            None => out.append("(none)"),
        }
        out.append("\n\n");
        proof {
            assert(ops[i as int] == op@);
            assert(ops.take(i + 1).drop_last() =~= ops.take(i as int));
        }
        i = i + 1;
    }
    assert(ops.take(i as int) =~= ops);
    out.append("Preconditions:\n");
    let ghost listed = out@;
    let mut i: usize = 0;
    while i < preview.operations.len()
        invariant
            i <= preview.operations@.len(),
            ops == operation_models(preview.operations@),
            out@ == precondition_lines(listed, ops.take(i as int)),
        decreases preview.operations.len() - i,
    {
        let op = &preview.operations[i];
        out.append("  ");
        out.append(op.source_path.as_str());
        out.append(": ");
        match op.precondition_strength {
            PreconditionStrength::HashVerified => out.append("physical hash verified"),
            PreconditionStrength::IdentityOnly => out.append("identity only (no frozen hash)"),
        }
        out.append("\n");
        proof {
            assert(ops[i as int] == op@);
            assert(ops.take(i + 1).drop_last() =~= ops.take(i as int));
        }
        i = i + 1;
    }
    assert(ops.take(i as int) =~= ops);
    out.append("\nUnsupported items:\n  ");
    out.append(decimal_text(preview.unsupported_item_count as u64).as_str());
    out.append("\n");
    out.append("\nApproval:\n  REQUIRED\n");
    out.append("\nApplied:\n  NO\n");
    out
}

/// Whether every destination of a preview lies under `root`.
pub fn preview_is_confined_to_root(preview: &TransactionPreview, root: &str) -> (r: bool)
    ensures
        r == forall|i: int|
            0 <= i < preview.operations@.len() ==> match (
            #[trigger] preview.operations@[i]).destination_path {
                Some(destination) => crate::path::is_under(destination@, root@),
                None => true,
            },
{
    let mut i: usize = 0;
    while i < preview.operations.len()
        invariant
            i <= preview.operations@.len(),
            forall|j: int|
                0 <= j < i ==> match (#[trigger] preview.operations@[j]).destination_path {
                    Some(destination) => crate::path::is_under(destination@, root@),
                    None => true,
                },
        decreases preview.operations.len() - i,
    {
        match &preview.operations[i].destination_path {
            Some(destination) => {
                if !path_is_under(destination.as_str(), root) {
                    return false;
                }
            },
            None => {},
        }
        i = i + 1;
    }
    true
}

/// Why an approval could not be given.
#[derive(Debug, Clone, Copy, PartialEq, Eq, Structural)]
pub enum ApprovalError {
    /// There is nothing to approve.
    NoOperations,
    /// An acknowledgement has to say something.
    EmptyAcknowledgement,
}

/// An explicit approval of one plan, bound to its digest.
#[derive(Debug, Clone, PartialEq, Eq)]
pub struct ApprovedPlan {
    pub digest: PlanDigest,
    pub approved_at_unix: u64,
    /// The source paths that were approved.
    pub approved_item_ids: TextSet,
    pub acknowledgement: String,
}

/// The source paths of operations.
pub open spec fn source_paths(operations: Seq<OperationModel>) -> Seq<Seq<char>> {
    operations.map_values(|o: OperationModel| o.source)
}

/// `r` is the answer to a request to approve the preview: refused without an
/// operation, and then without an acknowledgement that says something.
pub open spec fn approves(
    r: Result<ApprovedPlan, ApprovalError>,
    preview: TransactionPreview,
    acknowledgement: Seq<char>,
    now_unix: u64,
) -> bool {
    match r {
        Err(ApprovalError::NoOperations) => preview.operations@.len() == 0,
        Err(ApprovalError::EmptyAcknowledgement) => preview.operations@.len() > 0 && trimmed(
            acknowledgement,
        ).len() == 0,
        Ok(approved) => {
            &&& preview.operations@.len() > 0
            &&& trimmed(acknowledgement).len() > 0
            &&& approved.digest.0@ == preview.digest.0@
            &&& approved.approved_at_unix == now_unix
            &&& approved.approved_item_ids@ == source_paths(
                operation_models(preview.operations@),
            ).to_set()
            &&& approved.acknowledgement@ == acknowledgement
        },
    }
}

/// Approves a preview at the given time. Nothing is approved by default: there
/// has to be an operation, and an acknowledgement that is not blank.
pub fn approve_transaction(
    preview: &TransactionPreview,
    acknowledgement: &str,
    now_unix: u64,
) -> (r: Result<ApprovedPlan, ApprovalError>)
    ensures
        approves(r, *preview, acknowledgement@, now_unix),
{
    if preview.operations.len() == 0 {
        return Err(ApprovalError::NoOperations);
    }
    if trim(acknowledgement).as_str().as_bytes().len() == 0 {
        proof {
            let t = trimmed(acknowledgement@);
            vstd::utf8::encode_utf8_decode_utf8(t);
            vstd::utf8::encode_utf8_decode_utf8(seq![]);
            assert(encode_utf8(t) =~= encode_utf8(seq![]));
        }
        return Err(ApprovalError::EmptyAcknowledgement);
    }
    let ghost all = source_paths(operation_models(preview.operations@));
    let mut approved_item_ids = TextSet::new();
    let mut i: usize = 0;
    assert(all.take(0).to_set() =~= approved_item_ids@);
    while i < preview.operations.len()
        invariant
            i <= preview.operations@.len(),
            all == source_paths(operation_models(preview.operations@)),
            approved_item_ids@ == all.take(i as int).to_set(),
        decreases preview.operations.len() - i,
    {
        approved_item_ids.insert(preview.operations[i].source_path.as_str());
        proof {
            assert(all.take(i + 1) =~= all.take(i as int).push(all[i as int]));
            push_to_set(all.take(i as int), all[i as int]);
        }
        i = i + 1;
    }
    assert(all.take(i as int) =~= all);
    Ok(
        ApprovedPlan {
            digest: PlanDigest(preview.digest.0.clone()),
            approved_at_unix: now_unix,
            approved_item_ids,
            acknowledgement: acknowledgement.to_owned(),
        },
    )
}

/// The set of a sequence grows by what is appended.
pub(crate) proof fn push_to_set<A>(s: Seq<A>, x: A)
    ensures
        s.push(x).to_set() == s.to_set().insert(x),
{
    assert forall|y: A| #[trigger] s.push(x).contains(y) <==> (s.contains(y) || y == x) by {
        if s.contains(y) {
            let k = choose|k: int| 0 <= k < s.len() && s[k] == y;
            assert(s.push(x)[k] == y);
        }
        assert(s.push(x)[s.len() as int] == x);
        if s.push(x).contains(y) {
            let k = choose|k: int| 0 <= k < s.push(x).len() && s.push(x)[k] == y;
            if k < s.len() {
                assert(s[k] == y);
            }
        }
    }
    assert(s.push(x).to_set() =~= s.to_set().insert(x));
}

/// Why no batch could be built from an approved plan.
#[derive(Debug, Clone, PartialEq, Eq)]
pub enum PlanTransactionError {
    /// The plan is not the one that was approved.
    DigestMismatch { approved: String, current: String },
    /// Nothing that was approved can move.
    NoApprovedReadyItems,
    /// These destinations are sources of the same batch.
    CycleDetected(Vec<String>),
    /// The layer below failed.
    Underlying(String),
}

impl PlanTransactionError {
    /// What the error says.
    pub open spec fn text(self) -> Seq<char> {
        match self {
            PlanTransactionError::DigestMismatch { approved, current } => {
                "the plan changed since approval (approved digest "@ + approved@ + ", current "@
                    + current@ + "); the approval no longer applies"@
            },
            PlanTransactionError::NoApprovedReadyItems => {
                "no approved item is Ready with a real destination"@
            },
            PlanTransactionError::CycleDetected(paths) => {
                "a destination/source cycle was detected and rejected: "@ + joined(
                    views(paths@),
                    " -> "@,
                )
            },
            PlanTransactionError::Underlying(detail) => detail@,
        }
    }

    pub fn message(&self) -> (r: String)
        ensures
            r@ == self.text(),
    {
        match self {
            PlanTransactionError::DigestMismatch { approved, current } => {
                let mut r = "the plan changed since approval (approved digest ".to_owned();
                r.append(approved.as_str());
                r.append(", current ");
                r.append(current.as_str());
                r.append("); the approval no longer applies");
                r
            },
            PlanTransactionError::NoApprovedReadyItems => {
                "no approved item is Ready with a real destination".to_owned()
            },
            PlanTransactionError::CycleDetected(paths) => {
                let mut r = "a destination/source cycle was detected and rejected: ".to_owned();
                r.append(join_texts(paths, " -> ").as_str());
                r
            },
            PlanTransactionError::Underlying(detail) => detail.clone(),
        }
    }
}

/// What the clock and the journal give a new batch.
#[derive(Debug, Clone, PartialEq, Eq)]
pub struct TransactionStamp {
    pub transaction_id: String,
    pub classifier_version: String,
    pub created_at_unix: u64,
}

/// The identity captured for `path`, if it was there to be captured.
pub open spec fn captured_identity(
    captured: Seq<(String, FileIdentity)>,
    path: Seq<char>,
) -> Option<FileIdentity>
    decreases captured.len(),
{
    if captured.len() == 0 {
        None
    } else if captured[0].0@ == path {
        Some(captured[0].1)
    } else {
        captured_identity(captured.drop_first(), path)
    }
}

/// An item becomes an entry when it is ready, unblocked and approved, moves to
/// another path with a safe file name, and its source was there.
pub open spec fn is_admitted(
    item: LibraryPlanExportItem,
    approved: Set<Seq<char>>,
    captured: Seq<(String, FileIdentity)>,
) -> bool {
    let source = item.precondition.source_path@;
    &&& item.status == PlanStatus::Ready
    &&& item.blockers@.len() == 0
    &&& approved.contains(source)
    &&& match opt_view(item.proposed_destination) {
        Some(destination) => {
            &&& components(source) != components(destination)
            &&& match file_name(destination) {
                Some(name) => is_safe_name(name),
                None => false,
            }
        },
        None => false,
    }
    &&& captured_identity(captured, source) is Some
}

/// The entry of an admitted item.
pub open spec fn entry_of(
    item: LibraryPlanExportItem,
    captured: Seq<(String, FileIdentity)>,
) -> EntryModel {
    let source = item.precondition.source_path@;
    let destination = opt_view(item.proposed_destination)->0;
    EntryModel {
        source,
        destination,
        original_basename: match file_name(source) {
            Some(name) => name,
            None => seq![],
        },
        proposed_basename: file_name(destination)->0,
        identity: captured_identity(captured, source)->0,
        preflight_passed: false,
        preflight_failures: seq![],
        state: EntryState::Planned,
        failure_reason: None,
        applied_at_unix: None,
        rolled_back_at_unix: None,
        set_label: opt_view(item.set_label),
    }
}

/// The entries of all admitted items, in order.
pub open spec fn entries_of(
    items: Seq<LibraryPlanExportItem>,
    approved: Set<Seq<char>>,
    captured: Seq<(String, FileIdentity)>,
) -> Seq<EntryModel>
    decreases items.len(),
{
    if items.len() == 0 {
        seq![]
    } else if is_admitted(items.last(), approved, captured) {
        entries_of(items.drop_last(), approved, captured).push(entry_of(items.last(), captured))
    } else {
        entries_of(items.drop_last(), approved, captured)
    }
}

/// `path` names the source of some entry.
pub open spec fn is_source(entries: Seq<EntryModel>, path: Seq<char>) -> bool {
    exists|i: int|
        0 <= i < entries.len() && components((#[trigger] entries[i]).source) == components(path)
}

/// `path` names one of `paths`.
pub open spec fn names_one_of(paths: Seq<Seq<char>>, path: Seq<char>) -> bool {
    exists|i: int| 0 <= i < paths.len() && components(#[trigger] paths[i]) == components(path)
}

/// The destinations among `entries` that are sources in `all`, each path once.
pub open spec fn clashes(entries: Seq<EntryModel>, all: Seq<EntryModel>) -> Seq<Seq<char>>
    decreases entries.len(),
{
    if entries.len() == 0 {
        seq![]
    } else {
        let before = clashes(entries.drop_last(), all);
        let path = entries.last().destination;
        if is_source(all, path) && !names_one_of(before, path) {
            before.push(path)
        } else {
            before
        }
    }
}

/// The order of paths, on texts.
pub open spec fn path_text_order() -> spec_fn(Seq<char>, Seq<char>) -> bool {
    |a: Seq<char>, b: Seq<char>| crate::path::path_le(a, b)
}

/// The destinations that are also sources, in path order.
pub open spec fn cyclic_paths(entries: Seq<EntryModel>) -> Seq<Seq<char>> {
    stable_sorted(clashes(entries, entries), path_text_order())
}

fn identity_of(captured: &Vec<(String, FileIdentity)>, path: &str) -> (r: Option<FileIdentity>)
    ensures
        r == captured_identity(captured@, path@),
{
    let mut i: usize = 0;
    assert(captured@.skip(0) =~= captured@);
    while i < captured.len()
        invariant
            i <= captured@.len(),
            captured_identity(captured@, path@) == captured_identity(
                captured@.skip(i as int),
                path@,
            ),
        decreases captured.len() - i,
    {
        assert(captured@.skip(i as int)[0] == captured@[i as int]);
        if same_text(captured[i].0.as_str(), path) {
            return Some(captured[i].1);
        }
        assert(captured@.skip(i as int).drop_first() =~= captured@.skip(i + 1));
        i = i + 1;
    }
    None
}

fn entry_for(
    item: &LibraryPlanExportItem,
    approved: &TextSet,
    captured: &Vec<(String, FileIdentity)>,
) -> (r: Option<TransactionEntry>)
    ensures
        match r {
            Some(entry) => is_admitted(*item, approved@, captured@) && entry@ == entry_of(
                *item,
                captured@,
            ),
            None => !is_admitted(*item, approved@, captured@),
        },
{
    if item.status != PlanStatus::Ready || item.blockers.len() > 0 {
        return None;
    }
    let source = item.precondition.source_path.as_str();
    if !approved.contains(source) {
        return None;
    }
    let destination = match &item.proposed_destination {
        Some(destination) => destination.as_str(),
        None => return None,
    };
    if same_path(source, destination) {
        return None;
    }
    let proposed_basename = match file_name_of(destination) {
        Some(name) => name,
        None => return None,
    };
    if !is_safe_basename(proposed_basename.as_str()) {
        return None;
    }
    let identity = match identity_of(captured, source) {
        Some(identity) => identity,
        None => return None,
    };
    let original_basename = match file_name_of(source) {
        Some(name) => name,
        None => {
            let empty = String::new();
            assert(empty@ =~= seq![]);
            empty
        },
    };
    let preflight_failures: Vec<String> = Vec::new();
    assert(views(preflight_failures@) =~= seq![]);
    Some(
        TransactionEntry {
            source_path: item.precondition.source_path.clone(),
            destination_path: destination.to_owned(),
            original_basename,
            proposed_basename,
            identity,
            preflight_passed: false,
            preflight_failures,
            state: EntryState::Planned,
            failure_reason: None,
            applied_at_unix: None,
            rolled_back_at_unix: None,
            set_label: copy_opt(&item.set_label),
        },
    )
}

fn source_named(entries: &Vec<TransactionEntry>, path: &str) -> (r: bool)
    ensures
        r == is_source(entry_models(entries@), path@),
{
    let mut i: usize = 0;
    while i < entries.len()
        invariant
            i <= entries@.len(),
            forall|j: int|
                0 <= j < i ==> components((#[trigger] entry_models(entries@)[j]).source)
                    != components(path@),
        decreases entries.len() - i,
    {
        assert(entry_models(entries@)[i as int] == entries@[i as int]@);
        if same_path(entries[i].source_path.as_str(), path) {
            return true;
        }
        i = i + 1;
    }
    false
}

pub(crate) fn path_listed(paths: &Vec<String>, path: &str) -> (r: bool)
    ensures
        r == names_one_of(views(paths@), path@),
{
    let mut i: usize = 0;
    while i < paths.len()
        invariant
            i <= paths@.len(),
            forall|j: int|
                0 <= j < i ==> components(#[trigger] views(paths@)[j]) != components(path@),
        decreases paths.len() - i,
    {
        assert(views(paths@)[i as int] == paths@[i as int]@);
        if same_path(paths[i].as_str(), path) {
            return true;
        }
        i = i + 1;
    }
    false
}

fn cycles_in(entries: &Vec<TransactionEntry>) -> (r: Vec<String>)
    ensures
        views(r@) == cyclic_paths(entry_models(entries@)),
{
    let ghost all = entry_models(entries@);
    let mut found: Vec<String> = Vec::new();
    let mut i: usize = 0;
    assert(views(found@) =~= clashes(all.take(0), all));
    while i < entries.len()
        invariant
            i <= entries@.len(),
            all == entry_models(entries@),
            views(found@) == clashes(all.take(i as int), all),
        decreases entries.len() - i,
    {
        let path = entries[i].destination_path.as_str();
        proof {
            assert(all.take(i + 1).drop_last() =~= all.take(i as int));
            assert(all[i as int] == entries@[i as int]@);
        }
        if source_named(entries, path) && !path_listed(&found, path) {
            let text = path.to_owned();
            assert(views(found@.push(text)) =~= views(found@).push(text@));
            found.push(text);
        }
        i = i + 1;
    }
    proof {
        assert(all.take(i as int) =~= all);
        crate::order::stable_sorted_map(
            found@,
            |t: String| t@,
            path_order(),
            path_text_order(),
        );
    }
    sort_paths(found)
}

/// `transaction` is the untouched batch of the given entries.
pub open spec fn is_fresh(
    transaction: RenameTransaction,
    entries: Seq<EntryModel>,
    generation: nat,
    scan_root_label: Seq<char>,
    stamp: TransactionStamp,
) -> bool {
    &&& transaction.transaction_id@ == stamp.transaction_id@
    &&& transaction.plan_generation as nat == generation
    &&& opt_view(transaction.classifier_version) == Some(stamp.classifier_version@)
    &&& transaction.created_at_unix == stamp.created_at_unix
    &&& transaction.source_scan_root@ == scan_root_label
    &&& transaction.state == TransactionState::Planned
    &&& entry_models(transaction.entries@) == entries
    &&& transaction.created_directories@.len() == 0
}

/// `r` is what becomes of an approved plan: it is refused if it is not the one
/// that was approved, if none of its items may move, and if a destination is a
/// source, in this order; otherwise it is the untouched batch of those items.
pub open spec fn builds(
    r: Result<RenameTransaction, PlanTransactionError>,
    items: Seq<LibraryPlanExportItem>,
    approved: ApprovedPlan,
    scan_root_label: Seq<char>,
    captured: Seq<(String, FileIdentity)>,
    stamp: TransactionStamp,
) -> bool {
    let current = hex_text(plan_hash(items));
    let entries = entries_of(items, approved.approved_item_ids@, captured);
    match r {
        Err(PlanTransactionError::DigestMismatch { approved: a, current: c }) => {
            &&& current != approved.digest.0@
            &&& a@ == approved.digest.0@
            &&& c@ == current
        },
        Err(PlanTransactionError::NoApprovedReadyItems) => {
            &&& current == approved.digest.0@
            &&& entries.len() == 0
        },
        Err(PlanTransactionError::CycleDetected(paths)) => {
            &&& current == approved.digest.0@
            &&& entries.len() > 0
            &&& views(paths@) == cyclic_paths(entries)
            &&& cyclic_paths(entries).len() > 0
        },
        Err(PlanTransactionError::Underlying(_)) => false,
        Ok(transaction) => {
            &&& current == approved.digest.0@
            &&& entries.len() > 0
            &&& cyclic_paths(entries).len() == 0
            &&& is_fresh(
                transaction,
                entries,
                big_endian_number(plan_hash(items).take(8)),
                scan_root_label,
                stamp,
            )
        },
    }
}

/// Builds the batch of an approved plan that is still current. `captured` holds
/// the identities of the sources that exist; a source without one has vanished
/// and is left out.
pub fn build_plan_transaction(
    export: &LibraryPlanExport,
    approved: &ApprovedPlan,
    scan_root_label: &str,
    captured: &Vec<(String, FileIdentity)>,
    stamp: &TransactionStamp,
) -> (r: Result<RenameTransaction, PlanTransactionError>)
    ensures
        builds(
            r,
            export.items@,
            *approved,
            scan_root_label@,
            captured@,
            *stamp,
        ),
{
    let current = compute_plan_digest(export);
    if !same_text(current.as_str(), approved.digest.as_str()) {
        return Err(
            PlanTransactionError::DigestMismatch {
                approved: approved.digest.as_str().to_owned(),
                current: current.as_str().to_owned(),
            },
        );
    }
    let mut entries: Vec<TransactionEntry> = Vec::new();
    let mut i: usize = 0;
    assert(entry_models(entries@) =~= entries_of(
        export.items@.take(0),
        approved.approved_item_ids@,
        captured@,
    ));
    while i < export.items.len()
        invariant
            i <= export.items@.len(),
            entry_models(entries@) == entries_of(
                export.items@.take(i as int),
                approved.approved_item_ids@,
                captured@,
            ),
        decreases export.items.len() - i,
    {
        assert(export.items@.take(i + 1).drop_last() =~= export.items@.take(i as int));
        match entry_for(&export.items[i], &approved.approved_item_ids, captured) {
            Some(entry) => {
                assert(entry_models(entries@.push(entry)) =~= entry_models(entries@).push(entry@));
                entries.push(entry);
            },
            None => {},
        }
        i = i + 1;
    }
    assert(export.items@.take(i as int) =~= export.items@);
    assert(entry_models(entries@).len() == entries@.len());
    if entries.len() == 0 {
        return Err(PlanTransactionError::NoApprovedReadyItems);
    }
    let cyclic = cycles_in(&entries);
    assert(views(cyclic@).len() == cyclic@.len());
    if cyclic.len() > 0 {
        return Err(PlanTransactionError::CycleDetected(cyclic));
    }
    let created_directories: Vec<String> = Vec::new();
    Ok(
        RenameTransaction {
            transaction_id: stamp.transaction_id.clone(),
            plan_generation: plan_generation_of(export),
            classifier_version: Some(stamp.classifier_version.clone()),
            created_at_unix: stamp.created_at_unix,
            source_scan_root: scan_root_label.to_owned(),
            state: TransactionState::Planned,
            entries,
            created_directories,
        },
    )
}

} // verus!
