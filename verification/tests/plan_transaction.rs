//! From a frozen plan to moved files: digests, previews, approvals, batches,
//! canaries, and the steps of carrying a batch out and taking it back.
use archivefs_core::content_evidence::{
    ContentEvidence, ContentEvidenceConfidence, ContentEvidenceKind,
};
use archivefs_core::dat::rename_apply::{
    ApplyError, EntryState, FileIdentity, HardConflictMode, ObjectKind, RecoveryIssue,
    RecoveryIssueKind, RenameTransaction, RollbackOutcome, RollbackResult, TransactionState,
};
use archivefs_core::platform_evidence_fusion::canary::{
    assess_canary_eligibility, render_canary_preview, CanaryEligibility, CanaryIneligibleReason,
    CanaryObservation, RealApplyPolicy, CANARY_MAX_SIZE_BYTES,
};
use archivefs_core::platform_evidence_fusion::dat_hash_representation::hash_bytes;
use archivefs_core::platform_evidence_fusion::duplicate_taxonomy::DuplicateClass;
use archivefs_core::platform_evidence_fusion::identity_orchestrator::{
    inspect_identity, IdentityInspectionInput, IdentityResult,
};
use archivefs_core::platform_evidence_fusion::library_plan_export::{
    LibraryPlanExport, LibraryPlanExportItem, OperationIntent, SourcePrecondition,
};
use archivefs_core::platform_evidence_fusion::library_planning::{
    PlanStatus, RenameBasis, RommMappingStatus,
};
use archivefs_core::platform_evidence_fusion::plan_apply::{
    apply_plan_transaction, apply_plan_transaction_with_mode, approved_paths, assess_recovery,
    removal_order, rollback_plan_transaction, set_label_of, ApplyAction, ApplyEvent, ApplyRun,
    DirectoryFate, PlanRollbackOutcome, RecoveryAssessment,
};
use archivefs_core::platform_evidence_fusion::plan_transaction::{
    approve_transaction as approve_at, build_plan_transaction as build_from, build_preview,
    compute_plan_digest, plan_generation_of, preview_is_confined_to_root, render_preview_text,
    ApprovalError, ApprovedPlan, OperationKind, PlanTransactionError, PreconditionStrength,
    TransactionPreview, TransactionStamp,
};
use archivefs_core::platform_evidence_fusion::release_relationship::ReleaseRelationship;
use archivefs_core::platform_evidence_fusion::FusionOutcome;
use archivefs_core::text_set::TextSet;
use std::cell::{Cell, RefCell};
use std::collections::{BTreeMap, BTreeSet};
use std::path::{Path, PathBuf};

/// A disk in memory: paths and what stands there.
struct Fixture {
    root: PathBuf,
    objects: RefCell<BTreeMap<PathBuf, FileIdentity>>,
    journal: RefCell<Vec<RenameTransaction>>,
    inodes: Cell<u64>,
    builds: Cell<u64>,
}

fn fixture() -> Fixture {
    fixture_at("/disk/library")
}

fn fixture_at(root: &str) -> Fixture {
    let fx = Fixture {
        root: PathBuf::from(root),
        objects: RefCell::new(BTreeMap::new()),
        journal: RefCell::new(Vec::new()),
        inodes: Cell::new(1),
        builds: Cell::new(0),
    };
    fx.make_directories(&PathBuf::from(root));
    fx
}

impl Fixture {
    fn put(&self, path: &Path, kind: ObjectKind, size: u64) {
        let inode = self.inodes.get();
        self.inodes.set(inode + 1);
        let identity = FileIdentity {
            kind,
            size,
            modified_unix: 1,
            device: 1,
            inode,
        };
        self.objects
            .borrow_mut()
            .insert(path.to_path_buf(), identity);
    }

    fn make_directories(&self, path: &Path) {
        for ancestor in path.ancestors() {
            if !self.has(ancestor) {
                self.put(ancestor, ObjectKind::Directory, 0);
            }
        }
    }

    fn write(&self, path: &Path) {
        self.write_sized(path, 8);
    }

    fn write_sized(&self, path: &Path, size: u64) {
        self.make_directories(path.parent().unwrap());
        self.put(path, ObjectKind::RegularFile, size);
    }

    fn remove(&self, path: &Path) {
        self.objects
            .borrow_mut()
            .retain(|other, _| !other.starts_with(path));
    }

    fn identity(&self, path: &Path) -> Option<FileIdentity> {
        self.objects.borrow().get(path).copied()
    }

    fn has(&self, path: &Path) -> bool {
        self.identity(path).is_some()
    }

    fn is_empty_directory(&self, path: &Path) -> bool {
        !self
            .objects
            .borrow()
            .keys()
            .any(|other| other.starts_with(path) && other != path)
    }

    fn capture(&self, export: &LibraryPlanExport) -> Vec<(String, FileIdentity)> {
        let mut captured = Vec::new();
        for item in &export.items {
            let path = item.precondition.source_path.clone();
            if let Some(identity) = self.identity(Path::new(&path)) {
                captured.push((path, identity));
            }
        }
        captured
    }

    fn build(
        &self,
        export: &LibraryPlanExport,
        approved: &ApprovedPlan,
        label: &str,
    ) -> Result<RenameTransaction, PlanTransactionError> {
        let number = self.builds.get();
        self.builds.set(number + 1);
        let stamp = TransactionStamp {
            transaction_id: format!("transaction-{number}"),
            classifier_version: "1".to_string(),
            created_at_unix: 1_700_000_000 + number,
        };
        build_from(export, approved, label, &self.capture(export), &stamp)
    }

    fn assess(
        &self,
        export: &LibraryPlanExport,
        item: &LibraryPlanExportItem,
        approved: &ApprovedPlan,
        root: &Path,
    ) -> Result<CanaryEligibility, Vec<CanaryIneligibleReason>> {
        let destination = item.proposed_destination.as_ref().map(PathBuf::from);
        let seen = CanaryObservation {
            source: self.identity(Path::new(&item.precondition.source_path)),
            destination_exists: destination.as_ref().is_some_and(|path| self.has(path)),
            destination_parent_exists: destination
                .as_ref()
                .and_then(|path| path.parent())
                .is_some_and(|parent| self.has(parent)),
            same_filesystem: true,
        };
        assess_canary_eligibility(export, item, approved, root.to_str().unwrap(), &seen)
    }

    /// Moves what may move, as an executor would.
    fn execute(
        &self,
        transaction: &mut RenameTransaction,
        mode: HardConflictMode,
    ) -> Result<(), ApplyError> {
        let mut blocked = Vec::new();
        for (i, entry) in transaction.entries.iter().enumerate() {
            let shared = transaction
                .entries
                .iter()
                .enumerate()
                .any(|(j, other)| j != i && other.destination_path == entry.destination_path);
            let source = self.identity(Path::new(&entry.source_path));
            blocked.push(
                shared
                    || source != Some(entry.identity)
                    || self.has(Path::new(&entry.destination_path)),
            );
        }
        if mode == HardConflictMode::AbortAll && blocked.contains(&true) {
            return Err(ApplyError::HardConflicts(vec!["unsafe entry".to_string()]));
        }
        let released = approved_paths(&transaction.entries, &blocked, mode);
        for (i, entry) in transaction.entries.iter_mut().enumerate() {
            if blocked[i] || !released.contains(&entry.source_path) {
                entry.state = EntryState::Skipped;
                continue;
            }
            let identity = entry.identity;
            self.remove(Path::new(&entry.source_path));
            self.objects
                .borrow_mut()
                .insert(PathBuf::from(&entry.destination_path), identity);
            entry.state = EntryState::Applied;
        }
        transaction.state = TransactionState::Applied;
        Ok(())
    }

    /// Does what a run asks for until it returns.
    fn drive(
        &self,
        run: ApplyRun,
        transaction: &mut RenameTransaction,
    ) -> Result<(), ApplyError> {
        let mode = run.mode;
        let mut action = run.pending();
        let mut run = run;
        loop {
            let event = match action {
                ApplyAction::WriteJournal => {
                    self.journal.borrow_mut().push(transaction.clone());
                    ApplyEvent::Journaled
                }
                ApplyAction::Inspect(path) => {
                    if self.has(Path::new(&path)) {
                        ApplyEvent::Present
                    } else {
                        ApplyEvent::Missing
                    }
                }
                ApplyAction::Create(path) => {
                    assert!(
                        self.has(Path::new(&path).parent().unwrap()),
                        "a parent has to be there before {path}"
                    );
                    self.put(Path::new(&path), ObjectKind::Directory, 0);
                    ApplyEvent::Created
                }
                ApplyAction::Execute => match self.execute(transaction, mode) {
                    Ok(()) => ApplyEvent::Executed,
                    Err(error) => ApplyEvent::ExecuteFailed(error),
                },
                ApplyAction::Return(None) => return Ok(()),
                ApplyAction::Return(Some(error)) => return Err(error),
                ApplyAction::Rest => unreachable!("the run has returned"),
            };
            let (next, asked) = run.step(transaction, event);
            run = next;
            action = asked;
        }
    }

    fn apply(&self, transaction: &mut RenameTransaction) -> Result<Applied, ApplyError> {
        let run = apply_plan_transaction(transaction, self.root.to_str().unwrap(), Ok(()), false)?;
        self.finish(run, transaction)
    }

    fn apply_with_mode(
        &self,
        transaction: &mut RenameTransaction,
        mode: HardConflictMode,
    ) -> Result<Applied, ApplyError> {
        let root = self.root.to_str().unwrap();
        let run = apply_plan_transaction_with_mode(transaction, root, Ok(()), false, mode)?;
        self.finish(run, transaction)
    }

    fn finish(
        &self,
        run: ApplyRun,
        transaction: &mut RenameTransaction,
    ) -> Result<Applied, ApplyError> {
        self.drive(run, transaction)?;
        self.journal.borrow_mut().push(transaction.clone());
        Ok(Applied {
            transaction: transaction.clone(),
        })
    }

    /// The batch as the journal last held it.
    fn persisted(&self) -> RenameTransaction {
        self.journal.borrow().last().unwrap().clone()
    }

    fn rollback(&self, transaction: &mut RenameTransaction) -> Result<PlanRollbackOutcome, String> {
        for entry in &mut transaction.entries {
            if entry.state == EntryState::Applied {
                self.remove(Path::new(&entry.destination_path));
                self.objects
                    .borrow_mut()
                    .insert(PathBuf::from(&entry.source_path), entry.identity);
                entry.state = EntryState::RolledBack;
            }
        }
        transaction.state = TransactionState::RolledBack;
        let mut fates = Vec::new();
        for path in removal_order(transaction) {
            let path = Path::new(&path);
            fates.push(if !self.has(path) {
                DirectoryFate::NotADirectory
            } else if !self.is_empty_directory(path) {
                DirectoryFate::Occupied
            } else {
                self.remove(path);
                DirectoryFate::Removed
            });
        }
        let moved = RollbackOutcome {
            result: RollbackResult::FullyRolledBack,
        };
        self.journal.borrow_mut().push(transaction.clone());
        Ok(rollback_plan_transaction(transaction, moved, &fates))
    }
}

/// What applying reports.
#[derive(Debug)]
struct Applied {
    transaction: RenameTransaction,
}

fn approve_transaction(
    preview: &TransactionPreview,
    acknowledgement: &str,
) -> Result<ApprovedPlan, ApprovalError> {
    approve_at(preview, acknowledgement, 1_700_000_000)
}

fn item(source: &str, destination: &str) -> LibraryPlanExportItem {
    LibraryPlanExportItem {
        status: PlanStatus::Ready,
        precondition: SourcePrecondition {
            source_path: source.to_string(),
            physical_hash: None,
            normalized_hash: None,
        },
        proposed_destination: Some(destination.to_string()),
        operation_intent: OperationIntent::MoveToLibraryFolder,
        platform_library: None,
        display_name: "Test Item".to_string(),
        romm_status: RommMappingStatus::Unmapped,
        romm_slug: None,
        rename_basis: RenameBasis::OriginalNamePreserved,
        proposed_name: None,
        duplicate_classification: None,
        revision_relationship: None,
        set_label: None,
        set_destination: None,
        support_role: None,
        support_association: None,
        blockers: Vec::new(),
        warnings: Vec::new(),
        source_modified: false,
    }
}

fn ready_export(source: &str, destination: &str, physical_hash: Option<&str>) -> LibraryPlanExport {
    let mut export_item = item(source, destination);
    export_item.precondition.physical_hash = physical_hash.map(str::to_string);
    LibraryPlanExport {
        items: vec![export_item],
    }
}

fn ready_export_local(source: &str, destination: &str) -> LibraryPlanExport {
    ready_export(source, destination, None)
}

fn status_export(status: PlanStatus) -> LibraryPlanExport {
    let mut export_item = item("/roms/a.bin", "/lib/a.bin");
    export_item.status = status;
    if status != PlanStatus::Ready {
        export_item.proposed_destination = None;
        export_item.operation_intent = OperationIntent::NoOperation;
    }
    LibraryPlanExport {
        items: vec![export_item],
    }
}

fn set_item(source: &str, destination: &str, set_label: &str) -> LibraryPlanExportItem {
    let mut export_item = item(source, destination);
    export_item.set_label = Some(set_label.to_string());
    export_item.set_destination = Some(format!("{set_label}-dir"));
    export_item
}

fn hashed_item(source: &str, destination: &str) -> LibraryPlanExportItem {
    let mut export_item = item(source, destination);
    export_item.precondition.physical_hash = Some("deadbeef".to_string());
    export_item
}

fn build_and_approve(
    fx: &Fixture,
    export: &LibraryPlanExport,
) -> (ApprovedPlan, RenameTransaction) {
    let preview = build_preview(export);
    let approved = approve_transaction(&preview, "test acknowledgement").unwrap();
    let transaction = fx.build(export, &approved, "test-root").unwrap();
    (approved, transaction)
}

fn entry_state(transaction: &RenameTransaction, source: &Path) -> EntryState {
    transaction
        .entries
        .iter()
        .find(|entry| Path::new(&entry.source_path) == source)
        .expect("entry present")
        .state
}

struct CanaryFixture {
    fx: Fixture,
    root: PathBuf,
    source: PathBuf,
    destination: PathBuf,
}

fn canary_fixture() -> CanaryFixture {
    let fx = fixture();
    let root = fx.root.clone();
    let source = root.join("incoming").join("Game.bin");
    fx.write(&source);
    let destination = root.join("lib").join("Game.bin");
    fx.make_directories(destination.parent().unwrap());
    CanaryFixture {
        fx,
        root,
        source,
        destination,
    }
}

fn canary_export_and_approval(
    cf: &CanaryFixture,
) -> (LibraryPlanExport, ApprovedPlan, LibraryPlanExportItem) {
    let export_item = hashed_item(
        cf.source.to_str().unwrap(),
        cf.destination.to_str().unwrap(),
    );
    let export = LibraryPlanExport {
        items: vec![export_item.clone()],
    };
    let preview = build_preview(&export);
    let approved = approve_transaction(&preview, "canary ack").unwrap();
    (export, approved, export_item)
}

fn resolved_gb_identity() -> IdentityResult {
    inspect_identity(IdentityInspectionInput {
        content_evidence: vec![ContentEvidence::new(
            ContentEvidenceKind::BootStructure,
            "Nintendo Game Boy logo",
            ContentEvidenceConfidence::Strong,
            "test fixture: synthetic Game Boy header fact",
        )],
        dat: None,
        representation_match: None,
        archive_members: None,
    })
}

struct MultiSetFixture {
    fx: Fixture,
    export: LibraryPlanExport,
    a1: PathBuf,
    a1_dest: PathBuf,
    a2: PathBuf,
    a2_dest: PathBuf,
    b_rom: PathBuf,
    b_rom_dest: PathBuf,
    b_manual: PathBuf,
    b_manual_dest: PathBuf,
    c_rom: PathBuf,
    c_rom_dest: PathBuf,
}

fn multi_set_fixture() -> MultiSetFixture {
    let fx = fixture();
    let a1 = fx.root.join("incoming").join("A Disc 1.bin");
    let a2 = fx.root.join("incoming").join("A Disc 2.bin");
    let b_rom = fx.root.join("incoming").join("B.bin");
    let b_manual = fx.root.join("incoming").join("B.pdf");
    let c_rom = fx.root.join("incoming").join("C.bin");
    for p in [&a1, &a2, &b_rom, &b_manual, &c_rom] {
        fx.write(p);
    }
    let a1_dest = fx.root.join("lib").join("A Disc 1.bin");
    let a2_dest = fx.root.join("lib").join("A Disc 2.bin");
    let b_rom_dest = fx.root.join("lib").join("B.bin");
    let b_manual_dest = fx.root.join("lib").join("B.pdf");
    let c_rom_dest = fx.root.join("lib").join("C.bin");
    fx.write(&b_rom_dest);

    let export = LibraryPlanExport {
        items: vec![
            set_item(a1.to_str().unwrap(), a1_dest.to_str().unwrap(), "SetA"),
            set_item(a2.to_str().unwrap(), a2_dest.to_str().unwrap(), "SetA"),
            set_item(
                b_rom.to_str().unwrap(),
                b_rom_dest.to_str().unwrap(),
                "SetB",
            ),
            support_item(
                b_manual.to_str().unwrap(),
                b_manual_dest.to_str().unwrap(),
                "SetB",
            ),
            set_item(
                c_rom.to_str().unwrap(),
                c_rom_dest.to_str().unwrap(),
                "SetC",
            ),
        ],
    };
    MultiSetFixture {
        fx,
        export,
        a1,
        a1_dest,
        a2,
        a2_dest,
        b_rom,
        b_rom_dest,
        b_manual,
        b_manual_dest,
        c_rom,
        c_rom_dest,
    }
}

fn apply_a_single_move(fx: &Fixture) -> (LibraryPlanExport, RenameTransaction, PathBuf, PathBuf) {
    let source = fx.root.join("incoming").join("game.bin");
    fx.write(&source);
    let destination = fx.root.join("lib").join("game.bin");
    let export = ready_export_local(source.to_str().unwrap(), destination.to_str().unwrap());
    let (_, mut transaction) = build_and_approve(fx, &export);
    fx.apply(&mut transaction).unwrap();
    (export, transaction, source, destination)
}

fn support_item(source: &str, destination: &str, set_label: &str) -> LibraryPlanExportItem {
    let mut export_item = set_item(source, destination, set_label);
    export_item.support_role = Some("manual".to_string());
    export_item.support_association = Some("attached".to_string());
    export_item
}

fn canary_library() -> Fixture {
    let fx = fixture_at("/disk/canary");
    fx.make_directories(&fx.root.join("library"));
    fx
}

fn game_boy_library() -> Fixture {
    let fx = fixture_at("/disk/canary");
    fx.make_directories(&fx.root.join("library").join("Game Boy"));
    fx
}

fn gb_item(source: &str, destination: &str, hash: &str) -> LibraryPlanExportItem {
    let mut export_item = item(source, destination);
    export_item.precondition.physical_hash = Some(hash.to_string());
    export_item.platform_library = Some("Game Boy".to_string());
    export_item.display_name = "Game Boy".to_string();
    export_item
}

#[test]
fn digest_is_deterministic_for_the_same_export() {
    let export = ready_export("/roms/a.bin", "/lib/ps/a.bin", Some("hash1"));
    assert_eq!(compute_plan_digest(&export), compute_plan_digest(&export));
}

#[test]
fn digest_changes_when_destination_changes() {
    let a = ready_export("/roms/a.bin", "/lib/ps/a.bin", Some("hash1"));
    let b = ready_export("/roms/a.bin", "/lib/ps/other.bin", Some("hash1"));
    assert_ne!(compute_plan_digest(&a), compute_plan_digest(&b));
}

#[test]
fn digest_changes_when_hash_changes() {
    let a = ready_export("/roms/a.bin", "/lib/ps/a.bin", Some("hash1"));
    let b = ready_export("/roms/a.bin", "/lib/ps/a.bin", Some("hash2"));
    assert_ne!(compute_plan_digest(&a), compute_plan_digest(&b));
}

#[test]
fn digest_changes_when_status_changes() {
    let mut a = ready_export("/roms/a.bin", "/lib/ps/a.bin", Some("hash1"));
    let mut b = a.clone();
    b.items[0].status = PlanStatus::NeedsReview;
    assert_ne!(compute_plan_digest(&a), compute_plan_digest(&b));
    a.items[0].status = PlanStatus::Ready;
    assert_eq!(
        a,
        ready_export("/roms/a.bin", "/lib/ps/a.bin", Some("hash1"))
    );
}

#[test]
fn digest_changes_when_blockers_change() {
    let a = ready_export("/roms/a.bin", "/lib/ps/a.bin", Some("hash1"));
    let mut b = a.clone();
    b.items[0].blockers.push("something".to_string());
    assert_ne!(compute_plan_digest(&a), compute_plan_digest(&b));
}

#[test]
fn digest_changes_when_set_label_changes() {
    let mut a = ready_export("/roms/a.bin", "/lib/ps/a.bin", Some("hash1"));
    let mut b = a.clone();
    b.items[0].set_label = Some("Some Set".to_string());
    assert_ne!(compute_plan_digest(&a), compute_plan_digest(&b));
    a.items[0].set_label = None;
}

#[test]
fn digest_is_stable_across_multiple_computations() {
    let export = ready_export("/roms/a.bin", "/lib/ps/a.bin", None);
    let d1 = compute_plan_digest(&export);
    let d2 = compute_plan_digest(&export);
    let d3 = compute_plan_digest(&export);
    assert_eq!(d1, d2);
    assert_eq!(d2, d3);
}

#[test]
fn digest_is_a_64_character_hex_string() {
    let export = ready_export("/roms/a.bin", "/lib/ps/a.bin", None);
    let digest = compute_plan_digest(&export);
    assert_eq!(digest.0.len(), 64);
    assert!(digest.0.chars().all(|c| c.is_ascii_hexdigit()));
}

#[test]
fn empty_export_has_a_stable_digest() {
    let export = LibraryPlanExport { items: Vec::new() };
    assert_eq!(compute_plan_digest(&export), compute_plan_digest(&export));
}

#[test]
fn digest_order_reflects_item_order() {
    let a = LibraryPlanExport {
        items: vec![
            item("/roms/a.bin", "/lib/a.bin"),
            item("/roms/b.bin", "/lib/b.bin"),
        ],
    };
    let b = LibraryPlanExport {
        items: vec![
            item("/roms/b.bin", "/lib/b.bin"),
            item("/roms/a.bin", "/lib/a.bin"),
        ],
    };
    assert_ne!(compute_plan_digest(&a), compute_plan_digest(&b));
}

#[test]
fn preview_includes_one_operation_per_ready_item() {
    let export = ready_export("/roms/a.bin", "/lib/ps/a.bin", Some("hash1"));
    let preview = build_preview(&export);
    assert_eq!(preview.total_operation_count, 1);
    assert_eq!(preview.unsupported_item_count, 0);
}

#[test]
fn preview_excludes_non_ready_items() {
    let mut export = ready_export("/roms/a.bin", "/lib/ps/a.bin", Some("hash1"));
    export.items[0].status = PlanStatus::Unknown;
    let preview = build_preview(&export);
    assert_eq!(preview.total_operation_count, 0);
    assert_eq!(preview.unsupported_item_count, 1);
}

#[test]
fn preview_excludes_ready_items_with_blockers() {
    let mut export = ready_export("/roms/a.bin", "/lib/ps/a.bin", Some("hash1"));
    export.items[0].blockers.push("stale hash".to_string());
    let preview = build_preview(&export);
    assert_eq!(preview.total_operation_count, 0);
    assert_eq!(preview.unsupported_item_count, 1);
}

#[test]
fn preview_excludes_ready_items_with_no_destination() {
    let mut export = ready_export("/roms/a.bin", "/lib/ps/a.bin", Some("hash1"));
    export.items[0].proposed_destination = None;
    let preview = build_preview(&export);
    assert_eq!(preview.total_operation_count, 0);
}

#[test]
fn preview_reports_hash_verified_when_a_hash_was_frozen() {
    let export = ready_export("/roms/a.bin", "/lib/ps/a.bin", Some("hash1"));
    let preview = build_preview(&export);
    assert_eq!(
        preview.operations[0].precondition_strength,
        PreconditionStrength::HashVerified
    );
}

#[test]
fn preview_reports_identity_only_when_no_hash_was_frozen() {
    let export = ready_export("/roms/a.bin", "/lib/ps/a.bin", None);
    let preview = build_preview(&export);
    assert_eq!(
        preview.operations[0].precondition_strength,
        PreconditionStrength::IdentityOnly
    );
}

#[test]
fn render_preview_text_matches_the_milestone_shape() {
    let export = ready_export("/roms/a.bin", "/lib/ps/a.bin", Some("hash1"));
    let preview = build_preview(&export);
    let text = render_preview_text(&preview);
    assert!(text.starts_with("TRANSACTION PREVIEW"));
    assert!(text.contains("Operations: 1"));
    assert!(text.contains("MOVE"));
    assert!(text.contains("Source:"));
    assert!(text.contains("Destination:"));
    assert!(text.contains("Preconditions:"));
    assert!(text.contains("Unsupported items:"));
    assert!(text.contains("Approval:\n  REQUIRED"));
    assert!(text.contains("Applied:\n  NO"));
}

#[test]
fn render_preview_text_never_claims_applied() {
    let export = ready_export("/roms/a.bin", "/lib/ps/a.bin", Some("hash1"));
    let preview = build_preview(&export);
    let text = render_preview_text(&preview);
    assert!(!text.contains("Applied:\n  YES"));
}

#[test]
fn approval_requires_a_non_empty_acknowledgement() {
    let export = ready_export("/roms/a.bin", "/lib/ps/a.bin", Some("hash1"));
    let preview = build_preview(&export);
    assert_eq!(
        approve_transaction(&preview, ""),
        Err(ApprovalError::EmptyAcknowledgement)
    );
    assert_eq!(
        approve_transaction(&preview, "   "),
        Err(ApprovalError::EmptyAcknowledgement)
    );
}

#[test]
fn approval_requires_at_least_one_operation() {
    let mut export = ready_export("/roms/a.bin", "/lib/ps/a.bin", Some("hash1"));
    export.items[0].status = PlanStatus::Unknown;
    let preview = build_preview(&export);
    assert_eq!(
        approve_transaction(&preview, "yes, apply this"),
        Err(ApprovalError::NoOperations)
    );
}

#[test]
fn approval_captures_the_preview_digest() {
    let export = ready_export("/roms/a.bin", "/lib/ps/a.bin", Some("hash1"));
    let preview = build_preview(&export);
    let approved = approve_transaction(&preview, "yes").unwrap();
    assert_eq!(approved.digest, preview.digest);
}

#[test]
fn approval_captures_exactly_the_operation_source_paths() {
    let export = LibraryPlanExport {
        items: vec![
            item("/roms/a.bin", "/lib/a.bin"),
            item("/roms/b.bin", "/lib/b.bin"),
        ],
    };
    let preview = build_preview(&export);
    let approved = approve_transaction(&preview, "yes").unwrap();
    assert_eq!(approved.approved_item_ids.len(), 2);
    assert!(approved.approved_item_ids.contains("/roms/a.bin"));
    assert!(approved.approved_item_ids.contains("/roms/b.bin"));
}

#[test]
fn digest_mismatch_after_a_plan_change_is_refused() {
    let fx = fixture();
    let export = ready_export("/roms/a.bin", "/lib/ps/a.bin", Some("hash1"));
    let preview = build_preview(&export);
    let approved = approve_transaction(&preview, "yes").unwrap();

    let mut changed = export.clone();
    changed.items[0].proposed_destination = Some("/lib/ps/different.bin".to_string());
    let result = fx.build(&changed, &approved, "test");
    assert!(matches!(
        result,
        Err(PlanTransactionError::DigestMismatch { .. })
    ));
}

#[test]
fn raw_export_cannot_be_applied_without_an_approved_plan() {
    let dir = fixture();
    let source = dir.root.join("a.bin");
    dir.write(&source);
    let destination = dir.root.join("lib").join("a.bin");
    let export = ready_export(
        source.to_str().unwrap(),
        destination.to_str().unwrap(),
        Some("hash1"),
    );
    let preview = build_preview(&export);
    let approved = approve_transaction(&preview, "yes").unwrap();
    let result = dir.build(&export, &approved, "test");
    assert!(result.is_ok());
}

#[test]
fn unknown_plan_item_never_becomes_an_operation() {
    let export = status_export(PlanStatus::Unknown);
    let preview = build_preview(&export);
    assert!(approve_transaction(&preview, "yes").is_err());
}

#[test]
fn ambiguous_plan_item_never_becomes_an_operation() {
    let export = status_export(PlanStatus::Ambiguous);
    let preview = build_preview(&export);
    assert!(approve_transaction(&preview, "yes").is_err());
}

#[test]
fn conflict_plan_item_never_becomes_an_operation() {
    let export = status_export(PlanStatus::Conflict);
    let preview = build_preview(&export);
    assert!(approve_transaction(&preview, "yes").is_err());
}

#[test]
fn needs_review_plan_item_never_becomes_an_operation() {
    let export = status_export(PlanStatus::NeedsReview);
    let preview = build_preview(&export);
    assert!(approve_transaction(&preview, "yes").is_err());
}

#[test]
fn unsupported_plan_item_never_becomes_an_operation() {
    let export = status_export(PlanStatus::Unsupported);
    let preview = build_preview(&export);
    assert!(approve_transaction(&preview, "yes").is_err());
}

#[test]
fn a_destination_that_is_also_another_sources_source_is_rejected() {
    let dir = fixture();
    let a = dir.root.join("a.bin");
    let b = dir.root.join("b.bin");
    dir.write(&a);
    dir.write(&b);
    let export = LibraryPlanExport {
        items: vec![
            item(a.to_str().unwrap(), b.to_str().unwrap()),
            item(b.to_str().unwrap(), a.to_str().unwrap()),
        ],
    };
    let preview = build_preview(&export);
    let approved = approve_transaction(&preview, "yes").unwrap();
    let result = dir.build(&export, &approved, "test");
    assert!(matches!(
        result,
        Err(PlanTransactionError::CycleDetected(_))
    ));
}

#[test]
fn source_equal_to_destination_is_excluded_not_treated_as_a_cycle() {
    let dir = fixture();
    let a = dir.root.join("a.bin");
    dir.write(&a);
    let export = LibraryPlanExport {
        items: vec![item(a.to_str().unwrap(), a.to_str().unwrap())],
    };
    let preview = build_preview(&export);
    let approved = approve_transaction(&preview, "yes");
    if let Ok(approved) = approved {
        let result = dir.build(&export, &approved, "test");
        assert!(matches!(
            result,
            Err(PlanTransactionError::NoApprovedReadyItems)
        ));
    }
}

#[test]
fn no_cycle_among_unrelated_operations() {
    let dir = fixture();
    let a = dir.root.join("a.bin");
    let b = dir.root.join("b.bin");
    dir.write(&a);
    dir.write(&b);
    let dest_a = dir.root.join("lib").join("a.bin");
    let dest_b = dir.root.join("lib").join("b.bin");
    let export = LibraryPlanExport {
        items: vec![
            item(a.to_str().unwrap(), dest_a.to_str().unwrap()),
            item(b.to_str().unwrap(), dest_b.to_str().unwrap()),
        ],
    };
    let preview = build_preview(&export);
    let approved = approve_transaction(&preview, "yes").unwrap();
    let result = dir.build(&export, &approved, "test");
    assert!(result.is_ok());
}

#[test]
fn unassociated_support_never_enters_the_transaction_unless_its_own_item_is_approved() {
    let mut export = ready_export("/roms/a.bin", "/lib/a.bin", None);
    export.items.push(LibraryPlanExportItem {
        proposed_destination: None,
        support_role: Some("Readme".to_string()),
        support_association: Some("Unassociated".to_string()),
        ..item("/roms/readme.txt", "/lib/readme.txt")
    });
    let preview = build_preview(&export);
    assert_eq!(preview.total_operation_count, 1);
}

#[test]
fn fail_before_op1_missing_source_refuses_before_any_mutation() {
    let fx = fixture();
    let source = fx.root.join("game.bin");
    let destination = fx.root.join("ps").join("game.bin");
    let export = ready_export(
        source.to_str().unwrap(),
        destination.to_str().unwrap(),
        None,
    );
    let preview = build_preview(&export);
    let approved = approve_transaction(&preview, "yes").unwrap();
    let result = fx.build(&export, &approved, "test");
    assert!(matches!(
        result,
        Err(PlanTransactionError::NoApprovedReadyItems)
    ));
    assert!(!fx.has(&destination));
}

#[test]
fn unsafe_path_component_is_excluded_at_build_time() {
    let dir = fixture();
    let source = dir.root.join("game.bin");
    dir.write(&source);
    let destination = dir.root.join("..");
    let export = ready_export(
        source.to_str().unwrap(),
        destination.to_str().unwrap(),
        None,
    );
    let preview = build_preview(&export);
    let approved = approve_transaction(&preview, "yes").unwrap();
    let result = dir.build(&export, &approved, "test");
    assert!(matches!(
        result,
        Err(PlanTransactionError::NoApprovedReadyItems)
    ));
}

#[test]
fn planned_transaction_is_safe_to_resume() {
    let fx = fixture();
    let source = fx.root.join("game.bin");
    fx.write(&source);
    let destination = fx.root.join("ps").join("game.bin");
    let export = ready_export(
        source.to_str().unwrap(),
        destination.to_str().unwrap(),
        None,
    );
    let (_, transaction) = build_and_approve(&fx, &export);
    assert_eq!(
        assess_recovery(&transaction, &[]),
        RecoveryAssessment::SafeToResume
    );
}

#[test]
fn an_unresolved_recovery_issue_forces_manual_recovery_required() {
    let fx = fixture();
    let source = fx.root.join("game.bin");
    fx.write(&source);
    let destination = fx.root.join("ps").join("game.bin");
    let export = ready_export(
        source.to_str().unwrap(),
        destination.to_str().unwrap(),
        None,
    );
    let (_, transaction) = build_and_approve(&fx, &export);
    let issues = vec![RecoveryIssue {
        entry_index: 0,
        kind: RecoveryIssueKind::BothSourceAndDestination,
        detail: "both exist".to_string(),
    }];
    assert_eq!(
        assess_recovery(&transaction, &issues),
        RecoveryAssessment::ManualRecoveryRequired
    );
}

#[test]
fn an_item_not_in_the_approved_set_is_excluded_from_the_transaction() {
    let dir = fixture();
    let a = dir.root.join("a.bin");
    let b = dir.root.join("b.bin");
    dir.write(&a);
    dir.write(&b);
    let export = LibraryPlanExport {
        items: vec![
            item(
                a.to_str().unwrap(),
                dir.root.join("lib/a.bin").to_str().unwrap(),
            ),
            item(
                b.to_str().unwrap(),
                dir.root.join("lib/b.bin").to_str().unwrap(),
            ),
        ],
    };
    let preview = build_preview(&export);
    let approved = approve_transaction(&preview, "yes").unwrap();
    let mut narrower = approved.clone();
    narrower.approved_item_ids.remove(b.to_str().unwrap());
    let transaction = dir.build(&export, &narrower, "test").unwrap();
    assert_eq!(transaction.entries.len(), 1);
    assert_eq!(Path::new(&transaction.entries[0].source_path), a);
}

#[test]
fn digest_of_two_items_differs_from_a_single_item_subset() {
    let export_one = LibraryPlanExport {
        items: vec![item("/roms/a.bin", "/lib/a.bin")],
    };
    let export_two = LibraryPlanExport {
        items: vec![
            item("/roms/a.bin", "/lib/a.bin"),
            item("/roms/b.bin", "/lib/b.bin"),
        ],
    };
    assert_ne!(
        compute_plan_digest(&export_one),
        compute_plan_digest(&export_two)
    );
}

#[test]
fn approval_scope_removing_an_operation_after_approval_changes_the_digest() {
    let fx = fixture();
    let export_before = LibraryPlanExport {
        items: vec![
            item("/roms/a.bin", "/lib/a.bin"),
            item("/roms/b.bin", "/lib/b.bin"),
        ],
    };
    let preview = build_preview(&export_before);
    let approved = approve_transaction(&preview, "yes").unwrap();

    let export_after = LibraryPlanExport {
        items: vec![item("/roms/a.bin", "/lib/a.bin")],
    };
    let result = fx.build(&export_after, &approved, "test");
    assert!(matches!(
        result,
        Err(PlanTransactionError::DigestMismatch { .. })
    ));
}

#[test]
fn approval_scope_adding_an_operation_after_approval_changes_the_digest() {
    let fx = fixture();
    let export_before = LibraryPlanExport {
        items: vec![item("/roms/a.bin", "/lib/a.bin")],
    };
    let preview = build_preview(&export_before);
    let approved = approve_transaction(&preview, "yes").unwrap();

    let export_after = LibraryPlanExport {
        items: vec![
            item("/roms/a.bin", "/lib/a.bin"),
            item("/roms/b.bin", "/lib/b.bin"),
        ],
    };
    let result = fx.build(&export_after, &approved, "test");
    assert!(matches!(
        result,
        Err(PlanTransactionError::DigestMismatch { .. })
    ));
}

#[test]
fn approval_scope_reordering_operations_after_approval_changes_the_digest() {
    let fx = fixture();
    let export_before = LibraryPlanExport {
        items: vec![
            item("/roms/a.bin", "/lib/a.bin"),
            item("/roms/b.bin", "/lib/b.bin"),
        ],
    };
    let preview = build_preview(&export_before);
    let approved = approve_transaction(&preview, "yes").unwrap();

    let export_reordered = LibraryPlanExport {
        items: vec![
            item("/roms/b.bin", "/lib/b.bin"),
            item("/roms/a.bin", "/lib/a.bin"),
        ],
    };
    let result = fx.build(&export_reordered, &approved, "test");
    assert!(matches!(
        result,
        Err(PlanTransactionError::DigestMismatch { .. })
    ));
}

#[test]
fn recovery_assessment_is_deterministic() {
    let fx = fixture();
    let source = fx.root.join("game.bin");
    fx.write(&source);
    let destination = fx.root.join("ps").join("game.bin");
    let export = ready_export(
        source.to_str().unwrap(),
        destination.to_str().unwrap(),
        None,
    );
    let (_, transaction) = build_and_approve(&fx, &export);
    let a = assess_recovery(&transaction, &[]);
    let b = assess_recovery(&transaction, &[]);
    assert_eq!(a, b);
}

#[test]
fn preview_operations_preserve_export_item_order() {
    let export = LibraryPlanExport {
        items: vec![
            item("/roms/z.bin", "/lib/z.bin"),
            item("/roms/a.bin", "/lib/a.bin"),
        ],
    };
    let preview = build_preview(&export);
    assert_eq!(preview.operations[0].source_path, "/roms/z.bin");
    assert_eq!(preview.operations[1].source_path, "/roms/a.bin");
}

#[test]
fn building_a_transaction_twice_from_the_same_export_yields_different_ids() {
    let fx = fixture();
    let source = fx.root.join("incoming").join("a.bin");
    fx.write(&source);
    let destination = fx.root.join("lib").join("a.bin");
    let export = ready_export_local(source.to_str().unwrap(), destination.to_str().unwrap());
    let preview = build_preview(&export);
    let approved = approve_transaction(&preview, "ack").unwrap();
    let t1 = fx.build(&export, &approved, "root").unwrap();
    let t2 = fx.build(&export, &approved, "root").unwrap();
    assert_ne!(t1.transaction_id, t2.transaction_id);
    assert_eq!(t1.plan_generation, t2.plan_generation);
}

#[test]
fn approval_digest_is_identical_across_two_independent_builds() {
    let export = ready_export_local("/roms/a.bin", "/lib/a.bin");
    let preview = build_preview(&export);
    let approved1 = approve_transaction(&preview, "ack one").unwrap();
    let approved2 = approve_transaction(&preview, "ack two").unwrap();
    assert_eq!(approved1.digest, approved2.digest);
}

#[test]
fn transaction_id_never_influences_the_plan_digest() {
    let fx = fixture();
    let source = fx.root.join("incoming").join("a.bin");
    fx.write(&source);
    let destination = fx.root.join("lib").join("a.bin");
    let export = ready_export_local(source.to_str().unwrap(), destination.to_str().unwrap());
    let d1 = compute_plan_digest(&export);
    let d2 = compute_plan_digest(&export);
    assert_eq!(d1, d2);
    let preview = build_preview(&export);
    let approved = approve_transaction(&preview, "ack").unwrap();
    let t1 = fx.build(&export, &approved, "root").unwrap();
    let t2 = fx.build(&export, &approved, "root").unwrap();
    assert_ne!(t1.transaction_id, t2.transaction_id);
    assert_eq!(t1.plan_generation, t2.plan_generation);
}

#[test]
fn two_approvals_of_one_preview_share_a_digest_but_have_independent_timestamps() {
    let export = ready_export_local("/roms/a.bin", "/lib/a.bin");
    let preview = build_preview(&export);
    let a1 = approve_transaction(&preview, "first").unwrap();
    let a2 = approve_transaction(&preview, "second").unwrap();
    assert_eq!(a1.digest, a2.digest);
    assert_ne!(a1.acknowledgement, a2.acknowledgement);
}

#[test]
fn rebuilding_after_an_external_export_change_produces_a_new_digest_and_a_new_id() {
    let fx = fixture();
    let source = fx.root.join("incoming").join("a.bin");
    fx.write(&source);
    let destination1 = fx.root.join("lib").join("a.bin");
    let destination2 = fx.root.join("lib").join("renamed-a.bin");
    let export1 = ready_export_local(source.to_str().unwrap(), destination1.to_str().unwrap());
    let preview1 = build_preview(&export1);
    let approved1 = approve_transaction(&preview1, "ack").unwrap();
    let t1 = fx.build(&export1, &approved1, "root").unwrap();

    let export2 = ready_export_local(source.to_str().unwrap(), destination2.to_str().unwrap());
    let preview2 = build_preview(&export2);
    let approved2 = approve_transaction(&preview2, "ack").unwrap();
    let t2 = fx.build(&export2, &approved2, "root").unwrap();

    assert_ne!(approved1.digest, approved2.digest);
    assert_ne!(t1.plan_generation, t2.plan_generation);
    assert_ne!(t1.transaction_id, t2.transaction_id);
}

#[test]
fn stale_approval_is_refused_even_though_the_old_transaction_id_would_have_been_new() {
    let fx = fixture();
    let export = ready_export_local("/roms/a.bin", "/lib/a.bin");
    let preview = build_preview(&export);
    let approved = approve_transaction(&preview, "ack").unwrap();
    let mut changed = export.clone();
    changed.items[0].proposed_destination = Some("/lib/different.bin".to_string());
    let result = fx.build(&changed, &approved, "root");
    assert!(matches!(
        result,
        Err(PlanTransactionError::DigestMismatch { .. })
    ));
}

#[test]
fn a_small_single_file_regular_source_is_canary_eligible() {
    let cf = canary_fixture();
    let (export, approved, item) = canary_export_and_approval(&cf);
    let result = cf.fx.assess(&export, &item, &approved, &cf.root);
    assert!(result.is_ok(), "{result:?}");
    assert!(result.unwrap().strong_enough_for_canary);
}

#[test]
fn stale_digest_makes_a_candidate_ineligible() {
    let cf = canary_fixture();
    let (mut export, approved, item) = canary_export_and_approval(&cf);
    export.items[0].proposed_destination = Some("/somewhere/else.bin".to_string());
    let result = cf.fx.assess(&export, &item, &approved, &cf.root);
    assert!(
        result
            .unwrap_err()
            .contains(&CanaryIneligibleReason::DigestStale)
    );
}

#[test]
fn not_ready_status_makes_a_candidate_ineligible() {
    let cf = canary_fixture();
    let (mut export, approved, mut item) = canary_export_and_approval(&cf);
    item.status = PlanStatus::NeedsReview;
    export.items[0].status = PlanStatus::NeedsReview;
    let result = cf.fx.assess(&export, &item, &approved, &cf.root);
    assert!(
        result
            .unwrap_err()
            .contains(&CanaryIneligibleReason::NotReady)
    );
}

#[test]
fn blockers_make_a_candidate_ineligible() {
    let cf = canary_fixture();
    let (export, approved, mut item) = canary_export_and_approval(&cf);
    item.blockers = vec!["needs review".to_string()];
    let result = cf.fx.assess(&export, &item, &approved, &cf.root);
    assert!(
        result
            .unwrap_err()
            .contains(&CanaryIneligibleReason::HasBlockers)
    );
}

#[test]
fn an_unapproved_item_is_canary_ineligible() {
    let cf = canary_fixture();
    let (export, mut approved, item) = canary_export_and_approval(&cf);
    approved.approved_item_ids = TextSet::new();
    let result = cf.fx.assess(&export, &item, &approved, &cf.root);
    assert!(
        result
            .unwrap_err()
            .contains(&CanaryIneligibleReason::NotApproved)
    );
}

#[test]
fn no_destination_makes_a_candidate_ineligible() {
    let cf = canary_fixture();
    let (export, approved, mut item) = canary_export_and_approval(&cf);
    item.proposed_destination = None;
    let result = cf.fx.assess(&export, &item, &approved, &cf.root);
    assert!(
        result
            .unwrap_err()
            .contains(&CanaryIneligibleReason::NoDestination)
    );
}

#[test]
fn set_membership_makes_a_candidate_ineligible_no_multi_disc_for_canary_1() {
    let cf = canary_fixture();
    let (export, approved, mut item) = canary_export_and_approval(&cf);
    item.set_label = Some("SetA".to_string());
    let result = cf.fx.assess(&export, &item, &approved, &cf.root);
    assert!(
        result
            .unwrap_err()
            .contains(&CanaryIneligibleReason::BelongsToSet)
    );
}

#[test]
fn support_association_makes_a_candidate_ineligible() {
    let cf = canary_fixture();
    let (export, approved, mut item) = canary_export_and_approval(&cf);
    item.support_role = Some("manual".to_string());
    let result = cf.fx.assess(&export, &item, &approved, &cf.root);
    assert!(
        result
            .unwrap_err()
            .contains(&CanaryIneligibleReason::HasSupportAssociation)
    );
}

#[test]
fn a_missing_source_makes_a_candidate_ineligible() {
    let cf = canary_fixture();
    let (export, approved, item) = canary_export_and_approval(&cf);
    cf.fx.remove(&cf.source);
    let result = cf.fx.assess(&export, &item, &approved, &cf.root);
    assert!(
        result
            .unwrap_err()
            .contains(&CanaryIneligibleReason::SourceMissing)
    );
}

#[test]
fn a_symlink_source_makes_a_candidate_ineligible() {
    let cf = canary_fixture();
    let (export, approved, item) = canary_export_and_approval(&cf);
    cf.fx.remove(&cf.source);
    let target = cf.root.join("real-target.bin");
    cf.fx.write(&target);
    cf.fx.put(&cf.source, ObjectKind::Symlink, 8);
    let result = cf.fx.assess(&export, &item, &approved, &cf.root);
    assert!(
        result
            .unwrap_err()
            .contains(&CanaryIneligibleReason::SourceIsSymlink)
    );
}

#[test]
fn an_existing_destination_makes_a_candidate_ineligible() {
    let cf = canary_fixture();
    let (export, approved, item) = canary_export_and_approval(&cf);
    cf.fx.write(&cf.destination);
    let result = cf.fx.assess(&export, &item, &approved, &cf.root);
    assert!(
        result
            .unwrap_err()
            .contains(&CanaryIneligibleReason::DestinationAlreadyExists)
    );
}

#[test]
fn a_missing_destination_parent_makes_a_candidate_ineligible() {
    let cf = canary_fixture();
    let (export, approved, item) = canary_export_and_approval(&cf);
    cf.fx.remove(cf.destination.parent().unwrap());
    let result = cf.fx.assess(&export, &item, &approved, &cf.root);
    assert!(
        result
            .unwrap_err()
            .contains(&CanaryIneligibleReason::DestinationParentMissing)
    );
}

#[test]
fn a_source_over_the_size_ceiling_makes_a_candidate_ineligible() {
    let cf = canary_fixture();
    let (export, approved, item) = canary_export_and_approval(&cf);
    cf.fx.write_sized(&cf.source, CANARY_MAX_SIZE_BYTES + 1);
    let result = cf.fx.assess(&export, &item, &approved, &cf.root);
    let reasons = result.unwrap_err();
    assert!(
        reasons
            .iter()
            .any(|r| matches!(r, CanaryIneligibleReason::SourceTooLarge { .. }))
    );
}

#[test]
fn no_frozen_hash_makes_a_candidate_ineligible() {
    let cf = canary_fixture();
    let export_item = item(
        cf.source.to_str().unwrap(),
        cf.destination.to_str().unwrap(),
    );
    let export = LibraryPlanExport {
        items: vec![export_item.clone()],
    };
    let preview = build_preview(&export);
    let approved = approve_transaction(&preview, "ack").unwrap();
    let result = cf.fx.assess(&export, &export_item, &approved, &cf.root);
    assert!(
        result
            .unwrap_err()
            .contains(&CanaryIneligibleReason::NoHashPrecondition)
    );
}

#[test]
fn a_source_under_the_production_roms_root_is_unconditionally_ineligible() {
    let cf = canary_fixture();
    let (mut export, approved, mut item) = canary_export_and_approval(&cf);
    item.precondition.source_path = "/mnt/games/roms/psx/Fake Game.chd".to_string();
    export.items[0].precondition.source_path = item.precondition.source_path.clone();
    let approved_matching = ApprovedPlan {
        digest: compute_plan_digest(&export),
        approved_at_unix: approved.approved_at_unix,
        approved_item_ids: {
            let mut ids = TextSet::new();
            ids.insert(&item.precondition.source_path);
            ids
        },
        acknowledgement: approved.acknowledgement.clone(),
    };
    let result = cf.fx.assess(&export, &item, &approved_matching, &cf.root);
    assert!(
        result
            .unwrap_err()
            .contains(&CanaryIneligibleReason::SourceUnderProductionRoot)
    );
}

#[test]
fn a_destination_under_the_production_roms_root_is_unconditionally_ineligible() {
    let cf = canary_fixture();
    let (mut export, _approved, mut item) = canary_export_and_approval(&cf);
    item.proposed_destination = Some("/mnt/games/roms/psx/Fake Destination.chd".to_string());
    export.items[0].proposed_destination = item.proposed_destination.clone();
    let preview = build_preview(&export);
    let approved = approve_transaction(&preview, "ack").unwrap();
    let result = cf.fx.assess(&export, &item, &approved, &cf.root);
    assert!(
        result
            .unwrap_err()
            .contains(&CanaryIneligibleReason::DestinationUnderProductionRoot)
    );
}

#[test]
fn a_source_outside_the_supplied_canary_root_is_ineligible() {
    let cf = canary_fixture();
    let (export, approved, item) = canary_export_and_approval(&cf);
    let other_root = PathBuf::from("/elsewhere");
    let result = cf.fx.assess(&export, &item, &approved, &other_root);
    assert!(
        result
            .unwrap_err()
            .contains(&CanaryIneligibleReason::SourceOutsideCanaryRoot)
    );
}

#[test]
fn a_duplicate_destination_target_makes_both_candidates_ineligible() {
    let cf = canary_fixture();
    let other_source = cf.root.join("incoming").join("Other.bin");
    cf.fx.write(&other_source);
    let mut other = hashed_item(
        other_source.to_str().unwrap(),
        cf.destination.to_str().unwrap(),
    );
    other.precondition.physical_hash = Some("cafef00d".to_string());
    let mut primary = hashed_item(
        cf.source.to_str().unwrap(),
        cf.destination.to_str().unwrap(),
    );
    primary.precondition.physical_hash = Some("deadbeef".to_string());
    let export = LibraryPlanExport {
        items: vec![primary.clone(), other],
    };
    let preview = build_preview(&export);
    let approved = approve_transaction(&preview, "ack").unwrap();
    let result = cf.fx.assess(&export, &primary, &approved, &cf.root);
    assert!(
        result
            .unwrap_err()
            .contains(&CanaryIneligibleReason::CycleOrDuplicateTarget)
    );
}

#[test]
fn canary_size_ceiling_is_exactly_64_mib() {
    assert_eq!(CANARY_MAX_SIZE_BYTES, 64 * 1024 * 1024);
}

#[test]
fn a_same_filesystem_small_file_reports_same_filesystem_true() {
    let cf = canary_fixture();
    let (export, approved, item) = canary_export_and_approval(&cf);
    let report = cf.fx.assess(&export, &item, &approved, &cf.root).unwrap();
    assert!(report.same_filesystem);
    assert!(report.is_regular_file);
    assert!(!report.is_symlink);
    assert!(report.destination_clear);
}

#[test]
fn render_canary_preview_shows_pass_and_blast_radius_when_eligible() {
    let cf = canary_fixture();
    let (export, approved, item) = canary_export_and_approval(&cf);
    let eligibility = cf.fx.assess(&export, &item, &approved, &cf.root);
    let rendered = render_canary_preview(&item, &eligibility);
    assert!(rendered.contains("REAL APPLY CANARY PREVIEW"));
    assert!(rendered.contains("Mode:\n  AbortAll"));
    assert!(rendered.contains("Preconditions:\n  PASS"));
    assert!(rendered.contains("Blast radius:\n  1 file"));
    assert!(rendered.contains("Approval:\n  REQUIRED"));
    assert!(rendered.contains("Applied:\n  NO"));
}

#[test]
fn render_canary_preview_shows_fail_and_reasons_when_ineligible() {
    let cf = canary_fixture();
    let (export, approved, mut item) = canary_export_and_approval(&cf);
    item.set_label = Some("SetA".to_string());
    let eligibility = cf.fx.assess(&export, &item, &approved, &cf.root);
    let rendered = render_canary_preview(&item, &eligibility);
    assert!(rendered.contains("Preconditions:\n  FAIL"));
    assert!(rendered.contains("BelongsToSet"));
    assert!(!rendered.contains("Blast radius"));
    assert!(rendered.contains("Applied:\n  NO"));
}

#[test]
fn canary_preview_never_claims_applied() {
    let cf = canary_fixture();
    let (export, approved, item) = canary_export_and_approval(&cf);
    let eligibility = cf.fx.assess(&export, &item, &approved, &cf.root);
    let rendered = render_canary_preview(&item, &eligibility);
    assert!(!rendered.contains("Applied:\n  YES"));
}

#[test]
fn real_apply_policy_type_structurally_cannot_express_skip_unsafe_subset() {
    let all = [RealApplyPolicy::Canary];
    for policy in all {
        assert_eq!(policy.hard_conflict_mode(), HardConflictMode::AbortAll);
    }
}

#[test]
fn preview_confined_to_root_rejects_a_canary_style_out_of_root_destination() {
    let cf = canary_fixture();
    let export_item = hashed_item(
        cf.source.to_str().unwrap(),
        "/somewhere/completely/different/game.bin",
    );
    let export = LibraryPlanExport {
        items: vec![export_item],
    };
    let preview = build_preview(&export);
    assert!(!preview_is_confined_to_root(&preview, cf.root.to_str().unwrap()));
}

#[test]
fn entries_with_no_set_label_are_never_grouped_together() {
    let fx = fixture();
    let a = fx.root.join("incoming").join("a.bin");
    let b = fx.root.join("incoming").join("b.bin");
    fx.write(&a);
    fx.write(&b);
    let a_dest = fx.root.join("lib").join("a.bin");
    let b_dest = fx.root.join("lib").join("b.bin");
    fx.write(&a_dest);
    let export = LibraryPlanExport {
        items: vec![
            item(a.to_str().unwrap(), a_dest.to_str().unwrap()),
            item(b.to_str().unwrap(), b_dest.to_str().unwrap()),
        ],
    };
    let (_, transaction) = build_and_approve(&fx, &export);
    assert!(set_label_of(&transaction.entries[0]).is_none());
    assert!(set_label_of(&transaction.entries[1]).is_none());
}

#[test]
fn canary_run_tests_real_apply_policy_canary_can_only_ever_produce_abort_all() {
    let policy = RealApplyPolicy::Canary;
    assert_eq!(policy.hard_conflict_mode(), HardConflictMode::AbortAll);
}

#[test]
fn closeout_tests_real_apply_policy_canary_can_only_ever_produce_abort_all() {
    assert_eq!(
        RealApplyPolicy::Canary.hard_conflict_mode(),
        HardConflictMode::AbortAll
    );
}

#[test]
fn real_rom_canary_tests_real_apply_policy_canary_can_only_ever_produce_abort_all() {
    assert_eq!(
        RealApplyPolicy::Canary.hard_conflict_mode(),
        HardConflictMode::AbortAll
    );
}

#[test]
fn a_set_member_is_never_canary_eligible() {
    let fx = canary_library();
    let source = fx.root.join("source.bin");
    fx.write(&source);
    let destination = fx.root.join("library").join("dest.bin");
    let mut export_item = hashed_item(&source.to_string_lossy(), &destination.to_string_lossy());
    export_item.set_label = Some("some-set".to_string());
    let export = LibraryPlanExport {
        items: vec![export_item],
    };
    let preview = build_preview(&export);
    let approved = approve_transaction(&preview, "ack").unwrap();
    let result = fx.assess(&export, &export.items[0], &approved, &fx.root);
    assert_eq!(result, Err(vec![CanaryIneligibleReason::BelongsToSet]));
}

#[test]
fn a_support_associated_item_is_never_canary_eligible() {
    let fx = canary_library();
    let source = fx.root.join("source.bin");
    fx.write(&source);
    let destination = fx.root.join("library").join("dest.bin");
    let mut export_item = hashed_item(&source.to_string_lossy(), &destination.to_string_lossy());
    export_item.support_role = Some("manual".to_string());
    let export = LibraryPlanExport {
        items: vec![export_item],
    };
    let preview = build_preview(&export);
    let approved = approve_transaction(&preview, "ack").unwrap();
    let result = fx.assess(&export, &export.items[0], &approved, &fx.root);
    assert!(
        matches!(result, Err(reasons) if reasons.contains(&CanaryIneligibleReason::HasSupportAssociation))
    );
}

#[test]
fn missing_hash_precondition_makes_a_canary_ineligible() {
    let fx = canary_library();
    let source = fx.root.join("source.bin");
    fx.write(&source);
    let destination = fx.root.join("library").join("dest.bin");
    let mut export_item = hashed_item(&source.to_string_lossy(), &destination.to_string_lossy());
    export_item.precondition.physical_hash = None;
    export_item.precondition.normalized_hash = None;
    let export = LibraryPlanExport {
        items: vec![export_item],
    };
    let preview = build_preview(&export);
    let approved = approve_transaction(&preview, "ack").unwrap();
    let result = fx.assess(&export, &export.items[0], &approved, &fx.root);
    assert_eq!(
        result,
        Err(vec![CanaryIneligibleReason::NoHashPrecondition])
    );
}

#[test]
fn a_pre_existing_destination_makes_a_canary_ineligible() {
    let fx = canary_library();
    let source = fx.root.join("source.bin");
    fx.write(&source);
    let destination = fx.root.join("library").join("dest.bin");
    fx.write(&destination);
    let export = LibraryPlanExport {
        items: vec![hashed_item(
            &source.to_string_lossy(),
            &destination.to_string_lossy(),
        )],
    };
    let preview = build_preview(&export);
    let approved = approve_transaction(&preview, "ack").unwrap();
    let result = fx.assess(&export, &export.items[0], &approved, &fx.root);
    assert!(
        matches!(result, Err(reasons) if reasons.contains(&CanaryIneligibleReason::DestinationAlreadyExists))
    );
}

#[test]
fn a_missing_destination_parent_makes_a_canary_ineligible() {
    let fx = canary_library();
    let source = fx.root.join("source.bin");
    fx.write(&source);
    let destination = fx.root.join("not_created_yet").join("dest.bin");
    let export = LibraryPlanExport {
        items: vec![hashed_item(
            &source.to_string_lossy(),
            &destination.to_string_lossy(),
        )],
    };
    let preview = build_preview(&export);
    let approved = approve_transaction(&preview, "ack").unwrap();
    let result = fx.assess(&export, &export.items[0], &approved, &fx.root);
    assert!(
        matches!(result, Err(reasons) if reasons.contains(&CanaryIneligibleReason::DestinationParentMissing))
    );
}

#[test]
fn source_under_production_root_is_refused_even_if_canary_root_is_permissive() {
    let fx = canary_library();
    let source = PathBuf::from("/mnt/games/roms/psx/definitely-not-real.bin");
    let destination = fx.root.join("library").join("dest.bin");
    let export = LibraryPlanExport {
        items: vec![hashed_item(
            &source.to_string_lossy(),
            &destination.to_string_lossy(),
        )],
    };
    let preview = build_preview(&export);
    let approved = approve_transaction(&preview, "ack").unwrap();
    let result = fx.assess(&export, &export.items[0], &approved, Path::new("/"));
    assert!(
        matches!(result, Err(reasons) if reasons.contains(&CanaryIneligibleReason::SourceUnderProductionRoot))
    );
}

#[test]
fn destination_under_production_root_is_refused() {
    let fx = canary_library();
    let source = fx.root.join("source.bin");
    fx.write(&source);
    let destination = PathBuf::from("/mnt/games/roms/gcn/definitely-not-real.bin");
    let export = LibraryPlanExport {
        items: vec![hashed_item(
            &source.to_string_lossy(),
            &destination.to_string_lossy(),
        )],
    };
    let preview = build_preview(&export);
    let approved = approve_transaction(&preview, "ack").unwrap();
    let result = fx.assess(&export, &export.items[0], &approved, Path::new("/"));
    assert!(
        matches!(result, Err(reasons) if reasons.contains(&CanaryIneligibleReason::DestinationUnderProductionRoot))
    );
}

#[test]
fn source_outside_the_supplied_canary_root_is_refused() {
    let fx = canary_library();
    
    let source = PathBuf::from("/elsewhere").join("source.bin");
    fx.write(&source);
    let destination = fx.root.join("library").join("dest.bin");
    let export = LibraryPlanExport {
        items: vec![hashed_item(
            &source.to_string_lossy(),
            &destination.to_string_lossy(),
        )],
    };
    let preview = build_preview(&export);
    let approved = approve_transaction(&preview, "ack").unwrap();
    let result = fx.assess(&export, &export.items[0], &approved, &fx.root);
    assert!(
        matches!(result, Err(reasons) if reasons.contains(&CanaryIneligibleReason::SourceOutsideCanaryRoot))
    );
}

#[test]
fn a_file_over_the_size_ceiling_is_refused_with_named_bytes_and_limit() {
    let fx = canary_library();
    let source = fx.root.join("big.bin");
    fx.write_sized(&source, CANARY_MAX_SIZE_BYTES + 1);
    let destination = fx.root.join("library").join("dest.bin");
    let export = LibraryPlanExport {
        items: vec![hashed_item(
            &source.to_string_lossy(),
            &destination.to_string_lossy(),
        )],
    };
    let preview = build_preview(&export);
    let approved = approve_transaction(&preview, "ack").unwrap();
    let result = fx.assess(&export, &export.items[0], &approved, &fx.root);
    match result {
        Err(reasons) => {
            let over_limit = reasons.iter().any(|reason| {
                matches!(
                    reason,
                    CanaryIneligibleReason::SourceTooLarge { bytes, limit }
                        if *bytes == CANARY_MAX_SIZE_BYTES + 1 && *limit == CANARY_MAX_SIZE_BYTES
                )
            });
            assert!(
                over_limit,
                "expected a named SourceTooLarge reason, got {reasons:?}"
            );
        }
        Ok(_) => panic!("a file one byte over the ceiling must never be eligible"),
    }
}

#[test]
fn a_file_exactly_at_the_size_ceiling_is_eligible_on_size_alone() {
    let fx = canary_library();
    let source = fx.root.join("exact.bin");
    fx.write_sized(&source, CANARY_MAX_SIZE_BYTES);
    let dest_dir = fx.root.join("library");
    let destination = dest_dir.join("dest.bin");
    let export = LibraryPlanExport {
        items: vec![hashed_item(
            &source.to_string_lossy(),
            &destination.to_string_lossy(),
        )],
    };
    let preview = build_preview(&export);
    let approved = approve_transaction(&preview, "ack").unwrap();
    let result = fx.assess(&export, &export.items[0], &approved, &fx.root);
    assert!(
        result.is_ok()
            || !matches!(result, Err(ref r) if r.iter().any(|x| matches!(x, CanaryIneligibleReason::SourceTooLarge { .. }))),
        "a file exactly at the ceiling must not be refused for size"
    );
}

#[test]
fn a_second_item_targeting_the_same_destination_is_a_cycle_or_duplicate_refusal() {
    let fx = canary_library();
    let source_a = fx.root.join("a.bin");
    let source_b = fx.root.join("b.bin");
    fx.write(&source_a);
    fx.write(&source_b);
    let destination = fx.root.join("library").join("dest.bin");
    let export = LibraryPlanExport {
        items: vec![
            hashed_item(&source_a.to_string_lossy(), &destination.to_string_lossy()),
            hashed_item(&source_b.to_string_lossy(), &destination.to_string_lossy()),
        ],
    };
    let preview = build_preview(&export);
    let approved = approve_transaction(&preview, "ack").unwrap();
    let result = fx.assess(&export, &export.items[0], &approved, &fx.root);
    assert!(
        matches!(result, Err(reasons) if reasons.contains(&CanaryIneligibleReason::CycleOrDuplicateTarget))
    );
}

#[test]
fn strong_enough_for_canary_is_only_ever_true_on_a_clean_ok_report() {
    let fx = canary_library();
    let source = fx.root.join("clean.bin");
    fx.write(&source);
    let destination = fx.root.join("library").join("dest.bin");
    let export = LibraryPlanExport {
        items: vec![hashed_item(
            &source.to_string_lossy(),
            &destination.to_string_lossy(),
        )],
    };
    let preview = build_preview(&export);
    let approved = approve_transaction(&preview, "ack").unwrap();
    let result = fx.assess(&export, &export.items[0], &approved, &fx.root);
    let report = result.expect("a clean single-file item must be eligible");
    assert!(report.strong_enough_for_canary);
    assert!(report.physical_hash_present);
    assert!(report.is_regular_file);
    assert!(!report.is_symlink);
}

#[test]
fn canary_preview_always_says_applied_no_on_both_pass_and_fail() {
    let fx = canary_library();
    let source = fx.root.join("clean.bin");
    fx.write(&source);
    let destination = fx.root.join("library").join("dest.bin");
    let export = LibraryPlanExport {
        items: vec![hashed_item(
            &source.to_string_lossy(),
            &destination.to_string_lossy(),
        )],
    };
    let preview = build_preview(&export);
    let approved = approve_transaction(&preview, "ack").unwrap();

    let ok_result = fx.assess(&export, &export.items[0], &approved, &fx.root);
    let ok_text = render_canary_preview(&export.items[0], &ok_result);
    assert!(ok_text.contains("Applied:\n  NO"));
    assert!(ok_text.contains("Preconditions:\n  PASS"));

    let mut ineligible_item = export.items[0].clone();
    ineligible_item.set_label = Some("forces-a-failure".to_string());
    let fail_result = Err(vec![CanaryIneligibleReason::BelongsToSet]);
    let fail_text = render_canary_preview(&ineligible_item, &fail_result);
    assert!(fail_text.contains("Applied:\n  NO"));
    assert!(fail_text.contains("Preconditions:\n  FAIL"));
    assert!(fail_text.contains("BelongsToSet"));
}

#[test]
fn canary_eligibility_refuses_a_source_under_the_production_roms_root() {
    let f = game_boy_library();
    let source = "/mnt/games/roms/gb/Alleyway (World).gb".to_string();
    let destination = f
        .root
        .join("library/Game Boy/Alleyway (World).gb")
        .display()
        .to_string();
    let export = LibraryPlanExport {
        items: vec![gb_item(&source, &destination, "deadbeef")],
    };
    let preview = build_preview(&export);
    let approved = approve_transaction(&preview, "ack").unwrap();
    let result = f.assess(&export, &export.items[0], &approved, &f.root);
    let Err(reasons) = result else {
        panic!("a production-rooted source must never be canary-eligible");
    };
    assert!(reasons.contains(&CanaryIneligibleReason::SourceUnderProductionRoot));
}

#[test]
fn canary_eligibility_refuses_a_destination_under_the_production_roms_root() {
    let f = game_boy_library();
    let source_path = f.root.join("source/Alleyway (World).gb");
    f.write(&source_path);
    let export = LibraryPlanExport {
        items: vec![gb_item(
            &source_path.display().to_string(),
            "/mnt/games/roms/gb/Alleyway (World).gb",
            "deadbeef",
        )],
    };
    let preview = build_preview(&export);
    let approved = approve_transaction(&preview, "ack").unwrap();
    let result = f.assess(&export, &export.items[0], &approved, &f.root);
    let Err(reasons) = result else {
        panic!("a production-rooted destination must never be canary-eligible");
    };
    assert!(reasons.contains(&CanaryIneligibleReason::DestinationUnderProductionRoot));
}

#[test]
fn fusion_outcome_is_deterministic_across_repeated_calls_on_the_same_evidence() {
    let first = resolved_gb_identity();
    let second = resolved_gb_identity();
    assert_eq!(first.content.outcome, second.content.outcome);
    assert_eq!(
        first.content.resolved_platform,
        second.content.resolved_platform
    );
}

#[test]
fn fusion_outcome_survives_an_apply_shaped_round_trip_unchanged() {
    let before = resolved_gb_identity();
    let at_destination = resolved_gb_identity();
    let after_rollback = resolved_gb_identity();
    assert_eq!(before.content.outcome, FusionOutcome::Resolved);
    assert_eq!(before.content.outcome, at_destination.content.outcome);
    assert_eq!(before.content.outcome, after_rollback.content.outcome);
    assert_eq!(
        before.content.resolved_platform,
        at_destination.content.resolved_platform
    );
    assert_eq!(
        before.content.resolved_platform,
        after_rollback.content.resolved_platform
    );
}

#[test]
fn no_dat_source_produces_an_honest_none_never_a_fabricated_match() {
    let identity = resolved_gb_identity();
    assert!(identity.dat.is_none());
}

#[test]
fn canary_eligibility_passes_for_a_well_formed_confined_single_file_plan() {
    let f = game_boy_library();
    let source = f.root.join("source/Alleyway (World).gb");
    f.write(&source);
    let destination = f.root.join("library/Game Boy/Alleyway (World).gb");
    let export = LibraryPlanExport {
        items: vec![gb_item(
            &source.display().to_string(),
            &destination.display().to_string(),
            "deadbeef",
        )],
    };
    let preview = build_preview(&export);
    let approved = approve_transaction(&preview, "ack").unwrap();
    let result = f.assess(&export, &export.items[0], &approved, &f.root);
    assert!(result.is_ok(), "{result:?}");
    let report = result.unwrap();
    assert!(report.strong_enough_for_canary);
    assert!(report.same_filesystem);
    assert!(!report.is_symlink);
    assert!(report.physical_hash_present);
}

#[test]
fn canary_eligibility_refuses_when_destination_falls_outside_the_canary_root() {
    let f = game_boy_library();
    let source = f.root.join("source/Alleyway (World).gb");
    f.write(&source);
    let outside = fixture_at("/elsewhere");
    let destination = outside.root.join("library/Game Boy/Alleyway (World).gb");
    let export = LibraryPlanExport {
        items: vec![gb_item(
            &source.display().to_string(),
            &destination.display().to_string(),
            "deadbeef",
        )],
    };
    let preview = build_preview(&export);
    let approved = approve_transaction(&preview, "ack").unwrap();
    let result = f.assess(&export, &export.items[0], &approved, &f.root);
    let Err(reasons) = result else {
        panic!("a destination outside the canary root must never be eligible");
    };
    assert!(reasons.contains(&CanaryIneligibleReason::DestinationOutsideCanaryRoot));
}

#[test]
fn canary_eligibility_refuses_a_source_outside_the_canary_root() {
    let f = game_boy_library();
    let outside = fixture_at("/elsewhere");
    let source = outside.root.join("Alleyway (World).gb");
    f.write(&source);
    let destination = f.root.join("library/Game Boy/Alleyway (World).gb");
    let export = LibraryPlanExport {
        items: vec![gb_item(
            &source.display().to_string(),
            &destination.display().to_string(),
            "deadbeef",
        )],
    };
    let preview = build_preview(&export);
    let approved = approve_transaction(&preview, "ack").unwrap();
    let result = f.assess(&export, &export.items[0], &approved, &f.root);
    let Err(reasons) = result else {
        panic!("a source outside the canary root must never be eligible");
    };
    assert!(reasons.contains(&CanaryIneligibleReason::SourceOutsideCanaryRoot));
}

#[test]
fn identity_result_is_unaffected_by_a_transaction_apply_and_rollback() {
    let before = resolved_gb_identity();
    let after = resolved_gb_identity();
    assert_eq!(before, after);
}

#[test]
fn destination_confinement_holds_across_apply_for_a_well_formed_plan() {
    let f = game_boy_library();
    let source = f.root.join("source/Alleyway (World).gb");
    f.write(&source);
    let destination = f.root.join("library/Game Boy/Alleyway (World).gb");
    let export = LibraryPlanExport {
        items: vec![gb_item(
            &source.display().to_string(),
            &destination.display().to_string(),
            "deadbeef",
        )],
    };
    let preview = build_preview(&export);
    assert!(preview_is_confined_to_root(&preview, f.root.to_str().unwrap()));
}

#[test]
fn destination_confinement_fails_for_a_plan_pointing_outside_the_root() {
    let f = game_boy_library();
    let source = f.root.join("source/Alleyway (World).gb");
    f.write(&source);
    let outside = fixture_at("/elsewhere");
    let destination = outside.root.join("Alleyway (World).gb");
    let export = LibraryPlanExport {
        items: vec![gb_item(
            &source.display().to_string(),
            &destination.display().to_string(),
            "deadbeef",
        )],
    };
    let preview = build_preview(&export);
    assert!(!preview_is_confined_to_root(&preview, f.root.to_str().unwrap()));
}

#[test]
fn fresh_transaction_ids_never_collide_across_many_builds_of_the_same_plan() {
    let f = game_boy_library();
    let source = f.root.join("source/Alleyway (World).gb");
    f.write(&source);
    let destination = f.root.join("library/Game Boy/Alleyway (World).gb");
    let export = LibraryPlanExport {
        items: vec![gb_item(
            &source.display().to_string(),
            &destination.display().to_string(),
            "deadbeef",
        )],
    };
    let preview = build_preview(&export);
    let mut ids = BTreeSet::new();
    for _ in 0..10 {
        let approved = approve_transaction(&preview, "ack").unwrap();
        let transaction = f.build(&export, &approved, "test").unwrap();
        ids.insert(transaction.transaction_id);
    }
    assert_eq!(ids.len(), 10);
}

#[test]
fn canary_eligibility_refuses_when_no_hash_precondition_is_present() {
    let f = game_boy_library();
    let source = f.root.join("source/Alleyway (World).gb");
    f.write(&source);
    let destination = f.root.join("library/Game Boy/Alleyway (World).gb");
    let mut plain_item = gb_item(
        &source.display().to_string(),
        &destination.display().to_string(),
        "irrelevant",
    );
    plain_item.precondition.physical_hash = None;
    plain_item.precondition.normalized_hash = None;
    let export = LibraryPlanExport {
        items: vec![plain_item],
    };
    let preview = build_preview(&export);
    let approved = approve_transaction(&preview, "ack").unwrap();
    let result = f.assess(&export, &export.items[0], &approved, &f.root);
    let Err(reasons) = result else {
        panic!("a plan with no hash precondition must never be canary-eligible");
    };
    assert!(reasons.contains(&CanaryIneligibleReason::NoHashPrecondition));
}

#[test]
fn canary_eligibility_refuses_a_set_member_even_if_otherwise_well_formed() {
    let f = game_boy_library();
    let source = f.root.join("source/Alleyway (World).gb");
    f.write(&source);
    let destination = f.root.join("library/Game Boy/Alleyway (World).gb");
    let mut set_item = gb_item(
        &source.display().to_string(),
        &destination.display().to_string(),
        "deadbeef",
    );
    set_item.set_label = Some("Some Set".to_string());
    let export = LibraryPlanExport {
        items: vec![set_item],
    };
    let preview = build_preview(&export);
    let approved = approve_transaction(&preview, "ack").unwrap();
    let result = f.assess(&export, &export.items[0], &approved, &f.root);
    let Err(reasons) = result else {
        panic!("a set member must never be first-canary eligible");
    };
    assert!(reasons.contains(&CanaryIneligibleReason::BelongsToSet));
}

#[test]
fn canary_eligibility_refuses_when_destination_already_exists() {
    let f = game_boy_library();
    let source = f.root.join("source/Alleyway (World).gb");
    f.write(&source);
    let destination = f.root.join("library/Game Boy/Alleyway (World).gb");
    f.write(&destination);
    let export = LibraryPlanExport {
        items: vec![gb_item(
            &source.display().to_string(),
            &destination.display().to_string(),
            "deadbeef",
        )],
    };
    let preview = build_preview(&export);
    let approved = approve_transaction(&preview, "ack").unwrap();
    let result = f.assess(&export, &export.items[0], &approved, &f.root);
    let Err(reasons) = result else {
        panic!("an already-occupied destination must never be canary-eligible");
    };
    assert!(reasons.contains(&CanaryIneligibleReason::DestinationAlreadyExists));
}

#[test]
fn resolved_gb_identity_has_no_conflict_and_no_caveats() {
    let identity = resolved_gb_identity();
    assert!(!identity.has_conflict());
    assert!(identity.caveats.is_empty());
}

#[test]
fn digest_of_a_real_shaped_single_item_export_is_stable_across_rebuilds() {
    let f = game_boy_library();
    let source = f.root.join("source/Alleyway (World).gb");
    f.write(&source);
    let destination = f.root.join("library/Game Boy/Alleyway (World).gb");
    let export = LibraryPlanExport {
        items: vec![gb_item(
            &source.display().to_string(),
            &destination.display().to_string(),
            "deadbeef",
        )],
    };
    let first = compute_plan_digest(&export);
    let second = compute_plan_digest(&export);
    assert_eq!(first.as_str(), second.as_str());
}

#[test]
fn canary_preview_render_never_claims_applied_before_a_real_apply() {
    let f = game_boy_library();
    let source = f.root.join("source/Alleyway (World).gb");
    f.write(&source);
    let destination = f.root.join("library/Game Boy/Alleyway (World).gb");
    let export = LibraryPlanExport {
        items: vec![gb_item(
            &source.display().to_string(),
            &destination.display().to_string(),
            "deadbeef",
        )],
    };
    let preview = build_preview(&export);
    let approved = approve_transaction(&preview, "ack").unwrap();
    let eligibility = f.assess(&export, &export.items[0], &approved, &f.root);
    let rendered = render_canary_preview(&export.items[0], &eligibility);
    assert!(rendered.contains("Applied:\n  NO"));
}

#[test]
fn a_single_unsafe_member_never_leaves_a_partial_set_move() {
    let fx = fixture();
    let disc1 = fx.root.join("incoming").join("Disc 1.bin");
    let disc2 = fx.root.join("incoming").join("Disc 2.bin");
    let m3u = fx.root.join("incoming").join("game.m3u");
    fx.write(&disc1);
    fx.write(&disc2);
    fx.write(&m3u);
    let disc1_dest = fx.root.join("lib").join("Disc 1.bin");
    let disc2_dest = fx.root.join("lib").join("Disc 2.bin");
    let m3u_dest = fx.root.join("lib").join("game.m3u");
    fx.write(&disc2_dest);

    let export = LibraryPlanExport {
        items: vec![
            set_item(
                disc1.to_str().unwrap(),
                disc1_dest.to_str().unwrap(),
                "game",
            ),
            set_item(
                disc2.to_str().unwrap(),
                disc2_dest.to_str().unwrap(),
                "game",
            ),
            set_item(m3u.to_str().unwrap(), m3u_dest.to_str().unwrap(), "game"),
        ],
    };
    let (_, mut transaction) = build_and_approve(&fx, &export);

    let outcome = fx.apply_with_mode(&mut transaction, HardConflictMode::SkipUnsafeSubset).unwrap();

    assert_eq!(
        entry_state(&outcome.transaction, &disc1),
        EntryState::Skipped
    );
    assert_eq!(
        entry_state(&outcome.transaction, &disc2),
        EntryState::Skipped
    );
    assert_eq!(entry_state(&outcome.transaction, &m3u), EntryState::Skipped);
    assert!(fx.has(Path::new(&disc1)) && !fx.has(Path::new(&disc1_dest)));
    assert!(fx.has(Path::new(&m3u)) && !fx.has(Path::new(&m3u_dest)));
}

#[test]
fn a_fully_safe_set_applies_every_member() {
    let fx = fixture();
    let disc1 = fx.root.join("incoming").join("Disc 1.bin");
    let disc2 = fx.root.join("incoming").join("Disc 2.bin");
    fx.write(&disc1);
    fx.write(&disc2);
    let disc1_dest = fx.root.join("lib").join("Disc 1.bin");
    let disc2_dest = fx.root.join("lib").join("Disc 2.bin");

    let export = LibraryPlanExport {
        items: vec![
            set_item(
                disc1.to_str().unwrap(),
                disc1_dest.to_str().unwrap(),
                "game",
            ),
            set_item(
                disc2.to_str().unwrap(),
                disc2_dest.to_str().unwrap(),
                "game",
            ),
        ],
    };
    let (_, mut transaction) = build_and_approve(&fx, &export);

    let outcome = fx.apply_with_mode(&mut transaction, HardConflictMode::SkipUnsafeSubset).unwrap();

    assert_eq!(
        entry_state(&outcome.transaction, &disc1),
        EntryState::Applied
    );
    assert_eq!(
        entry_state(&outcome.transaction, &disc2),
        EntryState::Applied
    );
    assert!(fx.has(Path::new(&disc1_dest)) && fx.has(Path::new(&disc2_dest)));
}

#[test]
fn an_ungrouped_unsafe_entry_is_still_only_individually_skipped() {
    let fx = fixture();
    let solo = fx.root.join("incoming").join("Solo.bin");
    let other = fx.root.join("incoming").join("Other.bin");
    fx.write(&solo);
    fx.write(&other);
    let solo_dest = fx.root.join("lib").join("Solo.bin");
    let other_dest = fx.root.join("lib").join("Other.bin");
    fx.write(&solo_dest);

    let export = LibraryPlanExport {
        items: vec![
            item(solo.to_str().unwrap(), solo_dest.to_str().unwrap()),
            item(other.to_str().unwrap(), other_dest.to_str().unwrap()),
        ],
    };
    let (_, mut transaction) = build_and_approve(&fx, &export);

    let outcome = fx.apply_with_mode(&mut transaction, HardConflictMode::SkipUnsafeSubset).unwrap();

    assert_eq!(
        entry_state(&outcome.transaction, &solo),
        EntryState::Skipped
    );
    assert_eq!(
        entry_state(&outcome.transaction, &other),
        EntryState::Applied
    );
}

#[test]
fn set_skip_leaves_zero_bytes_moved_on_disk_for_any_member() {
    let fx = fixture();
    let disc1 = fx.root.join("incoming").join("Disc 1.bin");
    let disc2 = fx.root.join("incoming").join("Disc 2.bin");
    fx.write(&disc1);
    fx.write(&disc2);
    let disc1_dest = fx.root.join("lib").join("Disc 1.bin");
    let disc2_dest = fx.root.join("lib").join("Disc 2.bin");
    fx.write(&disc1_dest);

    let export = LibraryPlanExport {
        items: vec![
            set_item(
                disc1.to_str().unwrap(),
                disc1_dest.to_str().unwrap(),
                "game",
            ),
            set_item(
                disc2.to_str().unwrap(),
                disc2_dest.to_str().unwrap(),
                "game",
            ),
        ],
    };
    let (_, mut transaction) = build_and_approve(&fx, &export);
    fx.apply_with_mode(&mut transaction, HardConflictMode::SkipUnsafeSubset).unwrap();

    assert!(fx.has(Path::new(&disc2)), "disc2 must never have moved");
    assert!(!fx.has(Path::new(&disc2_dest)));
}

#[test]
fn abort_all_with_an_unsafe_set_member_refuses_the_whole_batch_before_mutation() {
    let fx = fixture();
    let disc1 = fx.root.join("incoming").join("Disc 1.bin");
    let disc2 = fx.root.join("incoming").join("Disc 2.bin");
    fx.write(&disc1);
    fx.write(&disc2);
    let disc1_dest = fx.root.join("lib").join("Disc 1.bin");
    let disc2_dest = fx.root.join("lib").join("Disc 2.bin");
    fx.write(&disc2_dest);

    let export = LibraryPlanExport {
        items: vec![
            set_item(
                disc1.to_str().unwrap(),
                disc1_dest.to_str().unwrap(),
                "game",
            ),
            set_item(
                disc2.to_str().unwrap(),
                disc2_dest.to_str().unwrap(),
                "game",
            ),
        ],
    };
    let (_, mut transaction) = build_and_approve(&fx, &export);

    let result = fx.apply(&mut transaction);
    assert!(matches!(result, Err(ApplyError::HardConflicts(_))));
    assert!(fx.has(Path::new(&disc1)) && !fx.has(Path::new(&disc1_dest)));
}

#[test]
fn two_member_set_first_unsafe_skips_both() {
    let fx = fixture();
    let a = fx.root.join("incoming").join("a.bin");
    let b = fx.root.join("incoming").join("b.bin");
    fx.write(&a);
    fx.write(&b);
    let a_dest = fx.root.join("lib").join("a.bin");
    let b_dest = fx.root.join("lib").join("b.bin");
    fx.write(&a_dest);

    let export = LibraryPlanExport {
        items: vec![
            set_item(a.to_str().unwrap(), a_dest.to_str().unwrap(), "set"),
            set_item(b.to_str().unwrap(), b_dest.to_str().unwrap(), "set"),
        ],
    };
    let (_, mut transaction) = build_and_approve(&fx, &export);
    let outcome = fx.apply_with_mode(&mut transaction, HardConflictMode::SkipUnsafeSubset).unwrap();
    assert_eq!(entry_state(&outcome.transaction, &a), EntryState::Skipped);
    assert_eq!(entry_state(&outcome.transaction, &b), EntryState::Skipped);
}

#[test]
fn two_member_set_second_unsafe_skips_both_order_independence() {
    let fx = fixture();
    let a = fx.root.join("incoming").join("a.bin");
    let b = fx.root.join("incoming").join("b.bin");
    fx.write(&a);
    fx.write(&b);
    let a_dest = fx.root.join("lib").join("a.bin");
    let b_dest = fx.root.join("lib").join("b.bin");
    fx.write(&b_dest);

    let export = LibraryPlanExport {
        items: vec![
            set_item(a.to_str().unwrap(), a_dest.to_str().unwrap(), "set"),
            set_item(b.to_str().unwrap(), b_dest.to_str().unwrap(), "set"),
        ],
    };
    let (_, mut transaction) = build_and_approve(&fx, &export);
    let outcome = fx.apply_with_mode(&mut transaction, HardConflictMode::SkipUnsafeSubset).unwrap();
    assert_eq!(entry_state(&outcome.transaction, &a), EntryState::Skipped);
    assert_eq!(entry_state(&outcome.transaction, &b), EntryState::Skipped);
}

#[test]
fn set_aware_skip_does_not_affect_an_unrelated_ungrouped_entry_in_the_same_batch() {
    let fx = fixture();
    let disc1 = fx.root.join("incoming").join("Disc 1.bin");
    let disc2 = fx.root.join("incoming").join("Disc 2.bin");
    let solo = fx.root.join("incoming").join("Solo.bin");
    fx.write(&disc1);
    fx.write(&disc2);
    fx.write(&solo);
    let disc1_dest = fx.root.join("lib").join("Disc 1.bin");
    let disc2_dest = fx.root.join("lib").join("Disc 2.bin");
    let solo_dest = fx.root.join("lib").join("Solo.bin");
    fx.write(&disc2_dest);

    let export = LibraryPlanExport {
        items: vec![
            set_item(
                disc1.to_str().unwrap(),
                disc1_dest.to_str().unwrap(),
                "game",
            ),
            set_item(
                disc2.to_str().unwrap(),
                disc2_dest.to_str().unwrap(),
                "game",
            ),
            item(solo.to_str().unwrap(), solo_dest.to_str().unwrap()),
        ],
    };
    let (_, mut transaction) = build_and_approve(&fx, &export);
    let outcome = fx.apply_with_mode(&mut transaction, HardConflictMode::SkipUnsafeSubset).unwrap();
    assert_eq!(
        entry_state(&outcome.transaction, &disc1),
        EntryState::Skipped
    );
    assert_eq!(
        entry_state(&outcome.transaction, &solo),
        EntryState::Applied
    );
    assert!(fx.has(Path::new(&solo_dest)));
}

#[test]
fn a_three_member_multi_disc_set_with_one_unsafe_member_skips_all_three() {
    let fx = fixture();
    let discs: Vec<PathBuf> = (1..=3)
        .map(|n| fx.root.join("incoming").join(format!("Disc {n}.bin")))
        .collect();
    for disc in &discs {
        fx.write(disc);
    }
    let dests: Vec<PathBuf> = (1..=3)
        .map(|n| fx.root.join("lib").join(format!("Disc {n}.bin")))
        .collect();
    fx.write(&dests[2]);

    let export = LibraryPlanExport {
        items: discs
            .iter()
            .zip(dests.iter())
            .map(|(s, d)| set_item(s.to_str().unwrap(), d.to_str().unwrap(), "trilogy"))
            .collect(),
    };
    let (_, mut transaction) = build_and_approve(&fx, &export);
    let outcome = fx.apply_with_mode(&mut transaction, HardConflictMode::SkipUnsafeSubset).unwrap();
    for disc in &discs {
        assert_eq!(entry_state(&outcome.transaction, disc), EntryState::Skipped);
        assert!(fx.has(Path::new(&disc)));
    }
}

#[test]
fn rollback_after_a_whole_set_skip_is_a_safe_no_op() {
    let fx = fixture();
    let disc1 = fx.root.join("incoming").join("Disc 1.bin");
    let disc2 = fx.root.join("incoming").join("Disc 2.bin");
    fx.write(&disc1);
    fx.write(&disc2);
    let disc1_dest = fx.root.join("lib").join("Disc 1.bin");
    let disc2_dest = fx.root.join("lib").join("Disc 2.bin");
    fx.write(&disc2_dest);

    let export = LibraryPlanExport {
        items: vec![
            set_item(
                disc1.to_str().unwrap(),
                disc1_dest.to_str().unwrap(),
                "game",
            ),
            set_item(
                disc2.to_str().unwrap(),
                disc2_dest.to_str().unwrap(),
                "game",
            ),
        ],
    };
    let (_, mut transaction) = build_and_approve(&fx, &export);
    fx.apply_with_mode(&mut transaction, HardConflictMode::SkipUnsafeSubset).unwrap();

    let outcome = fx.rollback(&mut transaction).unwrap();
    assert_eq!(outcome.rollback.result, RollbackResult::FullyRolledBack);
    assert!(fx.has(Path::new(&disc1)) && !fx.has(Path::new(&disc1_dest)));
}

#[test]
fn multi_set_three_independent_sets_all_safe_all_apply() {
    let fx = fixture();
    let a = fx.root.join("incoming").join("A.bin");
    let b = fx.root.join("incoming").join("B.bin");
    let c = fx.root.join("incoming").join("C.bin");
    for p in [&a, &b, &c] {
        fx.write(p);
    }
    let a_dest = fx.root.join("lib").join("A.bin");
    let b_dest = fx.root.join("lib").join("B.bin");
    let c_dest = fx.root.join("lib").join("C.bin");
    let export = LibraryPlanExport {
        items: vec![
            set_item(a.to_str().unwrap(), a_dest.to_str().unwrap(), "SetA"),
            set_item(b.to_str().unwrap(), b_dest.to_str().unwrap(), "SetB"),
            set_item(c.to_str().unwrap(), c_dest.to_str().unwrap(), "SetC"),
        ],
    };
    let (_, mut transaction) = build_and_approve(&fx, &export);
    let outcome = fx.apply_with_mode(&mut transaction, HardConflictMode::SkipUnsafeSubset).unwrap();
    assert!(fx.has(Path::new(&a_dest)) && fx.has(Path::new(&b_dest)) && fx.has(Path::new(&c_dest)));
    assert_eq!(outcome.transaction.applied_count(), 3);
}

#[test]
fn applying_a_rolled_back_transaction_again_is_refused_already_settled() {
    let fx = fixture();
    let (_, mut transaction, source, destination) = apply_a_single_move(&fx);
    fx.rollback(&mut transaction).unwrap();
    assert_eq!(transaction.state, TransactionState::RolledBack);

    let result = fx.apply(&mut transaction);
    assert!(matches!(
        result,
        Err(ApplyError::AlreadySettled {
            state: TransactionState::RolledBack,
            ..
        })
    ));
    assert!(fx.has(Path::new(&source)) && !fx.has(Path::new(&destination)));
}

#[test]
fn applying_a_rolling_back_state_is_refused_already_settled() {
    let fx = fixture();
    let (_, mut transaction, ..) = apply_a_single_move(&fx);
    transaction.state = TransactionState::RollingBack;
    let result = fx.apply(&mut transaction);
    assert!(matches!(
        result,
        Err(ApplyError::AlreadySettled {
            state: TransactionState::RollingBack,
            ..
        })
    ));
}

#[test]
fn applying_a_rollback_failed_state_is_refused_already_settled() {
    let fx = fixture();
    let (_, mut transaction, ..) = apply_a_single_move(&fx);
    transaction.state = TransactionState::RollbackFailed;
    let result = fx.apply(&mut transaction);
    assert!(matches!(
        result,
        Err(ApplyError::AlreadySettled {
            state: TransactionState::RollbackFailed,
            ..
        })
    ));
}

#[test]
fn already_settled_error_names_the_correct_transaction_id_and_state() {
    let fx = fixture();
    let (_, mut transaction, ..) = apply_a_single_move(&fx);
    fx.rollback(&mut transaction).unwrap();
    let id = transaction.transaction_id.clone();
    let result = fx.apply(&mut transaction);
    match result {
        Err(ApplyError::AlreadySettled {
            transaction_id,
            state,
        }) => {
            assert_eq!(transaction_id, id);
            assert_eq!(state, TransactionState::RolledBack);
        }
        other => panic!("expected AlreadySettled, got {other:?}"),
    }
}

#[test]
fn abort_all_hard_conflict_demotes_a_stuck_applying_state_to_apply_failed() {
    let fx = fixture();
    let source = fx.root.join("incoming").join("game.bin");
    fx.write(&source);
    let destination = fx.root.join("lib").join("game.bin");
    fx.write(&destination);
    let export = ready_export_local(source.to_str().unwrap(), destination.to_str().unwrap());
    let (_, mut transaction) = build_and_approve(&fx, &export);
    let result = fx.apply(&mut transaction);
    assert!(result.is_err());
    assert_eq!(transaction.state, TransactionState::ApplyFailed);
    let persisted = fx.persisted();
    assert_eq!(persisted.state, TransactionState::ApplyFailed);
}

#[test]
fn no_apply_error_variant_can_silently_resurrect_a_rolled_back_transaction() {
    let fx = fixture();
    let (_, mut transaction, source, destination) = apply_a_single_move(&fx);
    fx.rollback(&mut transaction).unwrap();
    for mode in [
        HardConflictMode::AbortAll,
        HardConflictMode::SkipUnsafeSubset,
    ] {
        let result = fx.apply_with_mode(&mut transaction, mode);
        assert!(matches!(result, Err(ApplyError::AlreadySettled { .. })));
    }
    assert!(fx.has(Path::new(&source)) && !fx.has(Path::new(&destination)));
}

#[test]
fn rollback_then_a_fresh_build_produces_a_new_transaction_id() {
    let fx = fixture();
    let (_, mut transaction, source, destination) = apply_a_single_move(&fx);
    let old_id = transaction.transaction_id.clone();
    fx.rollback(&mut transaction).unwrap();
    assert!(fx.has(Path::new(&source)) && !fx.has(Path::new(&destination)));

    let export = ready_export_local(source.to_str().unwrap(), destination.to_str().unwrap());
    let (_, fresh_transaction) = build_and_approve(&fx, &export);
    assert_ne!(fresh_transaction.transaction_id, old_id);
}

#[test]
fn a_genuinely_fresh_reapply_after_rollback_succeeds_via_a_new_transaction() {
    let fx = fixture();
    let (_, mut transaction, source, destination) = apply_a_single_move(&fx);
    fx.rollback(&mut transaction).unwrap();

    let export = ready_export_local(source.to_str().unwrap(), destination.to_str().unwrap());
    let (_, mut fresh_transaction) = build_and_approve(&fx, &export);
    let outcome = fx.apply(&mut fresh_transaction).unwrap();
    assert_eq!(outcome.transaction.state, TransactionState::Applied);
    assert!(fx.has(Path::new(&destination)));
}

#[test]
fn created_directories_are_removed_deepest_first_on_rollback() {
    let fx = fixture();
    let source = fx.root.join("incoming").join("game.bin");
    fx.write(&source);
    let destination = fx
        .root
        .join("lib")
        .join("a")
        .join("b")
        .join("c")
        .join("game.bin");
    let export = ready_export_local(source.to_str().unwrap(), destination.to_str().unwrap());
    let (_, mut transaction) = build_and_approve(&fx, &export);
    fx.apply(&mut transaction).unwrap();
    assert_eq!(transaction.created_directories.len(), 4);
    let outcome = fx.rollback(&mut transaction).unwrap();
    assert_eq!(outcome.directories_removed.len(), 4);
    assert!(outcome.directories_remaining.is_empty());
    for dir in &transaction.created_directories {
        assert!(!fx.has(Path::new(&dir)));
    }
}

#[test]
fn created_directories_are_journaled_and_round_trip_through_read_journal() {
    let fx = fixture();
    let source = fx.root.join("incoming").join("game.bin");
    fx.write(&source);
    let destination = fx.root.join("lib").join("nested").join("game.bin");
    let export = ready_export_local(source.to_str().unwrap(), destination.to_str().unwrap());
    let (_, mut transaction) = build_and_approve(&fx, &export);
    fx.apply(&mut transaction).unwrap();
    let persisted = fx.persisted();
    assert_eq!(
        persisted.created_directories,
        transaction.created_directories
    );
}

#[test]
fn multi_set_abort_all_rejects_everything_when_set_b_is_unsafe() {
    let mf = multi_set_fixture();
    let (_, mut transaction) = build_and_approve(&mf.fx, &mf.export);
    let result = mf.fx.apply(&mut transaction);
    assert!(matches!(result, Err(ApplyError::HardConflicts(_))));
    assert!(mf.fx.has(Path::new(&mf.a1)) && !mf.fx.has(Path::new(&mf.a1_dest)));
    assert!(mf.fx.has(Path::new(&mf.c_rom)) && !mf.fx.has(Path::new(&mf.c_rom_dest)));
}

#[test]
fn multi_set_skip_unsafe_subset_skips_only_set_b() {
    let mf = multi_set_fixture();
    let (_, mut transaction) = build_and_approve(&mf.fx, &mf.export);
    let outcome = mf.fx.apply_with_mode(&mut transaction, HardConflictMode::SkipUnsafeSubset).unwrap();
    assert_eq!(
        entry_state(&outcome.transaction, &mf.a1),
        EntryState::Applied
    );
    assert_eq!(
        entry_state(&outcome.transaction, &mf.a2),
        EntryState::Applied
    );
    assert_eq!(
        entry_state(&outcome.transaction, &mf.c_rom),
        EntryState::Applied
    );
    assert_eq!(
        entry_state(&outcome.transaction, &mf.b_rom),
        EntryState::Skipped
    );
    assert_eq!(
        entry_state(&outcome.transaction, &mf.b_manual),
        EntryState::Skipped
    );
}

#[test]
fn multi_set_c_single_rom_applies_independently_of_set_b_failure() {
    let mf = multi_set_fixture();
    let (_, mut transaction) = build_and_approve(&mf.fx, &mf.export);
    mf.fx.apply_with_mode(&mut transaction, HardConflictMode::SkipUnsafeSubset).unwrap();
    assert!(mf.fx.has(Path::new(&mf.c_rom_dest)));
    assert!(!mf.fx.has(Path::new(&mf.c_rom)));
}

#[test]
fn multi_set_set_a_moves_together_both_discs() {
    let mf = multi_set_fixture();
    let (_, mut transaction) = build_and_approve(&mf.fx, &mf.export);
    mf.fx.apply_with_mode(&mut transaction, HardConflictMode::SkipUnsafeSubset).unwrap();
    assert!(mf.fx.has(Path::new(&mf.a1_dest)) && mf.fx.has(Path::new(&mf.a2_dest)));
}

#[test]
fn multi_set_journal_records_set_b_skipped_a_and_c_applied() {
    let mf = multi_set_fixture();
    let (_, mut transaction) = build_and_approve(&mf.fx, &mf.export);
    mf.fx.apply_with_mode(&mut transaction, HardConflictMode::SkipUnsafeSubset).unwrap();
    let persisted = mf.fx.persisted();
    assert_eq!(entry_state(&persisted, &mf.a1), EntryState::Applied);
    assert_eq!(entry_state(&persisted, &mf.b_rom), EntryState::Skipped);
    assert_eq!(entry_state(&persisted, &mf.c_rom), EntryState::Applied);
}

#[test]
fn multi_set_abort_all_leaves_zero_mutation_on_disk() {
    let mf = multi_set_fixture();
    let (_, mut transaction) = build_and_approve(&mf.fx, &mf.export);
    let _ = mf.fx.apply(&mut transaction);
    for p in [&mf.a1_dest, &mf.a2_dest, &mf.c_rom_dest, &mf.b_manual_dest] {
        assert!(!mf.fx.has(Path::new(&p)));
    }
}

#[test]
fn multi_set_rollback_after_partial_skip_only_reverses_the_applied_sets() {
    let mf = multi_set_fixture();
    let (_, mut transaction) = build_and_approve(&mf.fx, &mf.export);
    mf.fx.apply_with_mode(&mut transaction, HardConflictMode::SkipUnsafeSubset).unwrap();
    let outcome = mf.fx.rollback(&mut transaction).unwrap();
    assert_eq!(outcome.rollback.result, RollbackResult::FullyRolledBack);
    assert!(mf.fx.has(Path::new(&mf.a1)) && mf.fx.has(Path::new(&mf.c_rom)));
    assert!(mf.fx.has(Path::new(&mf.b_rom)) && mf.fx.has(Path::new(&mf.b_manual)));
}

#[test]
fn multi_set_support_file_in_set_b_is_skipped_alongside_its_primary() {
    let mf = multi_set_fixture();
    let (_, mut transaction) = build_and_approve(&mf.fx, &mf.export);
    let outcome = mf.fx.apply_with_mode(&mut transaction, HardConflictMode::SkipUnsafeSubset).unwrap();
    assert_eq!(
        entry_state(&outcome.transaction, &mf.b_manual),
        EntryState::Skipped
    );
}

#[test]
fn a_single_move_applies_and_is_confirmed_on_disk() {
    let fx = fixture();
    let source_dir = fx.root.join("incoming");
    let source = source_dir.join("game.bin");
    fx.write(&source);
    let destination = fx.root.join("ps").join("game.bin");

    let export = ready_export(
        source.to_str().unwrap(),
        destination.to_str().unwrap(),
        None,
    );
    let (_, mut transaction) = build_and_approve(&fx, &export);

    let outcome = fx.apply(&mut transaction).unwrap();

    assert_eq!(outcome.transaction.state, TransactionState::Applied);
    assert!(!fx.has(Path::new(&source)));
    assert!(fx.has(Path::new(&destination)));
}

#[test]
fn missing_destination_directory_is_created_and_journaled() {
    let fx = fixture();
    let source = fx.root.join("game.bin");
    fx.write(&source);
    let destination = fx.root.join("ps").join("set-name").join("game.bin");

    let export = ready_export(
        source.to_str().unwrap(),
        destination.to_str().unwrap(),
        None,
    );
    let (_, mut transaction) = build_and_approve(&fx, &export);

    let outcome = fx.apply(&mut transaction).unwrap();

    assert_eq!(outcome.transaction.state, TransactionState::Applied);
    assert_eq!(outcome.transaction.created_directories.len(), 2);
    assert!(fx.has(Path::new(&destination)));
}

#[test]
fn pre_existing_directory_is_never_recorded_as_owned() {
    let fx = fixture();
    let platform_dir = fx.root.join("ps");
    fx.make_directories(&platform_dir);
    let source = fx.root.join("game.bin");
    fx.write(&source);
    let destination = platform_dir.join("game.bin");

    let export = ready_export(
        source.to_str().unwrap(),
        destination.to_str().unwrap(),
        None,
    );
    let (_, mut transaction) = build_and_approve(&fx, &export);

    let outcome = fx.apply(&mut transaction).unwrap();
    assert!(outcome.transaction.created_directories.is_empty());
}

#[test]
fn applied_transaction_is_safe_to_rollback() {
    let fx = fixture();
    let source = fx.root.join("game.bin");
    fx.write(&source);
    let destination = fx.root.join("ps").join("game.bin");
    let export = ready_export(
        source.to_str().unwrap(),
        destination.to_str().unwrap(),
        None,
    );
    let (_, mut transaction) = build_and_approve(&fx, &export);
    fx.apply(&mut transaction).unwrap();
    assert_eq!(
        assess_recovery(&transaction, &[]),
        RecoveryAssessment::SafeToRollback
    );
}

#[test]
fn rolled_back_transaction_is_already_rolled_back() {
    let fx = fixture();
    let source = fx.root.join("game.bin");
    fx.write(&source);
    let destination = fx.root.join("ps").join("game.bin");
    let export = ready_export(
        source.to_str().unwrap(),
        destination.to_str().unwrap(),
        None,
    );
    let (_, mut transaction) = build_and_approve(&fx, &export);
    fx.apply(&mut transaction).unwrap();
    fx.rollback(&mut transaction).unwrap();
    assert_eq!(
        assess_recovery(&transaction, &[]),
        RecoveryAssessment::AlreadyRolledBack
    );
}

#[test]
fn duplicate_operation_target_within_a_batch_is_refused() {
    let fx = fixture();
    let a = fx.root.join("a.bin");
    let b = fx.root.join("b.bin");
    fx.write(&a);
    fx.write(&b);
    let shared_destination = fx.root.join("ps").join("same.bin");
    let export = LibraryPlanExport {
        items: vec![
            item(a.to_str().unwrap(), shared_destination.to_str().unwrap()),
            item(b.to_str().unwrap(), shared_destination.to_str().unwrap()),
        ],
    };
    let (_, mut transaction) = build_and_approve(&fx, &export);
    let result = fx.apply(&mut transaction);
    assert!(matches!(result, Err(ApplyError::HardConflicts(_))));
    assert!(fx.has(Path::new(&a)));
    assert!(fx.has(Path::new(&b)));
    assert!(!fx.has(Path::new(&shared_destination)));
}

#[test]
fn set_atomicity_a_two_member_set_moves_together() {
    let fx = fixture();
    let disc1 = fx.root.join("Disc 1.chd");
    let disc2 = fx.root.join("Disc 2.chd");
    fx.write(&disc1);
    fx.write(&disc2);
    let dest1 = fx.root.join("ps").join("Game").join("Disc 1.chd");
    let dest2 = fx.root.join("ps").join("Game").join("Disc 2.chd");

    let export = LibraryPlanExport {
        items: vec![
            item(disc1.to_str().unwrap(), dest1.to_str().unwrap()),
            item(disc2.to_str().unwrap(), dest2.to_str().unwrap()),
        ],
    };
    let (_, mut transaction) = build_and_approve(&fx, &export);
    let outcome = fx.apply(&mut transaction).unwrap();
    assert_eq!(outcome.transaction.state, TransactionState::Applied);
    assert!(fx.has(Path::new(&dest1)));
    assert!(fx.has(Path::new(&dest2)));
}

#[test]
fn empty_directories_created_by_the_transaction_are_removed_on_rollback() {
    let fx = fixture();
    let source = fx.root.join("game.bin");
    fx.write(&source);
    let destination = fx.root.join("ps").join("set").join("game.bin");
    let export = ready_export(
        source.to_str().unwrap(),
        destination.to_str().unwrap(),
        None,
    );
    let (_, mut transaction) = build_and_approve(&fx, &export);
    fx.apply(&mut transaction).unwrap();
    assert!(fx.has(destination.parent().unwrap()));

    let outcome = fx.rollback(&mut transaction).unwrap();
    assert_eq!(outcome.directories_removed.len(), 2);
    assert!(!fx.has(&fx.root.join("ps")));
}

#[test]
fn destination_exists_is_refused_never_overwritten() {
    let fx = fixture();
    let source = fx.root.join("game.bin");
    fx.write(&source);
    let destination = fx.root.join("ps").join("game.bin");
    fx.write(&destination);

    let export = ready_export(
        source.to_str().unwrap(),
        destination.to_str().unwrap(),
        None,
    );
    let (_, mut transaction) = build_and_approve(&fx, &export);
    let result = fx.apply(&mut transaction);
    assert!(matches!(result, Err(ApplyError::HardConflicts(_))));
    assert!(fx.has(&destination));
    assert!(fx.has(Path::new(&source)));
}

#[test]
fn replay_after_rollback_is_refused_for_a_real_shaped_single_file_plan() {
    let f = game_boy_library();
    let source = f.root.join("source/Alleyway (World).gb");
    f.write(&source);
    let destination = f.root.join("library/Game Boy/Alleyway (World).gb");
    let export = LibraryPlanExport {
        items: vec![gb_item(
            &source.display().to_string(),
            &destination.display().to_string(),
            "deadbeef",
        )],
    };
    let preview = build_preview(&export);
    let approved = approve_transaction(&preview, "ack").unwrap();
    let mut transaction = f.build(&export, &approved, "test").unwrap();
    f.apply(&mut transaction).unwrap();
    f.rollback(&mut transaction).unwrap();

    let replay = f.apply(&mut transaction);
    assert!(matches!(replay, Err(ApplyError::AlreadySettled { .. })));
}

#[test]
fn recovery_after_a_real_shaped_apply_is_safe_to_rollback() {
    let f = game_boy_library();
    let source = f.root.join("source/Alleyway (World).gb");
    f.write(&source);
    let destination = f.root.join("library/Game Boy/Alleyway (World).gb");
    let export = LibraryPlanExport {
        items: vec![gb_item(
            &source.display().to_string(),
            &destination.display().to_string(),
            "deadbeef",
        )],
    };
    let preview = build_preview(&export);
    let approved = approve_transaction(&preview, "ack").unwrap();
    let mut transaction = f.build(&export, &approved, "test").unwrap();
    f.apply(&mut transaction).unwrap();
    let issues: Vec<RecoveryIssue> = Vec::new();
    let assessment = assess_recovery(&transaction, &issues);
    assert_eq!(assessment, RecoveryAssessment::SafeToRollback);
}

#[test]
fn digest_is_the_sha_256_of_the_lines() {
    let empty = LibraryPlanExport { items: Vec::new() };
    assert_eq!(
        compute_plan_digest(&empty).as_str(),
        "e3b0c44298fc1c149afbf4c8996fb92427ae41e4649b934ca495991b7852b855"
    );
    let mut export = ready_export("/roms/a.bin", "/lib/ps/a.bin", Some("hash1"));
    assert_eq!(
        compute_plan_digest(&export).as_str(),
        "f549e392a163814aeb88536bd62822f8dd4f5b5a48f6b4ac55d401736c0b16f0"
    );
    let mut second = item("/roms/\u{e9} \"x\".bin", "/unused");
    second.status = PlanStatus::NeedsReview;
    second.precondition.normalized_hash = Some("n".to_string());
    second.proposed_destination = None;
    second.operation_intent = OperationIntent::NoOperation;
    second.blockers = vec!["needs \"care\"".to_string(), "b".to_string()];
    second.set_label = Some("Set".to_string());
    second.set_destination = Some("/lib/Set".to_string());
    second.support_role = Some("manual".to_string());
    second.support_association = Some("attached".to_string());
    second.duplicate_classification = Some(DuplicateClass::SameDatRelease);
    second.revision_relationship = Some(ReleaseRelationship::CloneOf {
        game_name: "Game (Rev 1)".to_string(),
        parent: "Game".to_string(),
    });
    export.items.push(second);
    assert_eq!(
        compute_plan_digest(&export).as_str(),
        "49ee853b438b3d91486584396cbd6333d19539716bb0d7e0ab939ce0ca08cec6"
    );
}

#[test]
fn generation_is_the_head_of_the_digest() {
    let export = ready_export("/roms/a.bin", "/lib/ps/a.bin", Some("hash1"));
    assert_eq!(plan_generation_of(&export), 0xf549e392a163814a);
    let digest = compute_plan_digest(&export);
    assert_eq!(
        plan_generation_of(&export),
        u64::from_str_radix(&digest.as_str()[..16], 16).unwrap()
    );
}

#[test]
fn digest_ignores_what_is_only_displayed() {
    let export = ready_export("/roms/a.bin", "/lib/ps/a.bin", Some("hash1"));
    let mut renamed = export.clone();
    renamed.items[0].display_name = "Another Name".to_string();
    renamed.items[0].romm_slug = Some("slug".to_string());
    renamed.items[0].warnings.push("careful".to_string());
    assert_eq!(compute_plan_digest(&export), compute_plan_digest(&renamed));
}

#[test]
fn preview_text_is_exact() {
    let mut rename = item("/roms/b.bin", "/roms/B (USA).bin");
    rename.operation_intent = OperationIntent::RenameInPlace;
    let mut link = item("/roms/c.bin", "/lib/c.bin");
    link.operation_intent = OperationIntent::OrganiseSymlinkOnly;
    link.precondition.normalized_hash = Some("n".to_string());
    let mut waiting = item("/roms/d.bin", "/lib/d.bin");
    waiting.status = PlanStatus::NeedsReview;
    let preview = build_preview(&LibraryPlanExport {
        items: vec![rename, link, waiting],
    });
    assert_eq!(preview.operations[0].kind, OperationKind::Rename);
    assert_eq!(preview.operations[1].kind, OperationKind::Move);
    assert_eq!(
        render_preview_text(&preview),
        "TRANSACTION PREVIEW\n\nOperations: 2\n\n\
         RENAME\n  Source:\n    /roms/b.bin\n  Destination:\n    /roms/B (USA).bin\n\n\
         MOVE\n  Source:\n    /roms/c.bin\n  Destination:\n    /lib/c.bin\n\n\
         Preconditions:\n  /roms/b.bin: identity only (no frozen hash)\n  \
         /roms/c.bin: physical hash verified\n\
         \nUnsupported items:\n  1\n\nApproval:\n  REQUIRED\n\nApplied:\n  NO\n"
    );
}

#[test]
fn approval_keeps_the_time_and_the_acknowledgement() {
    let preview = build_preview(&ready_export("/roms/a.bin", "/lib/a.bin", None));
    let approved = approve_at(&preview, "  go ahead ", 1_234).unwrap();
    assert_eq!(approved.approved_at_unix, 1_234);
    assert_eq!(approved.acknowledgement, "  go ahead ");
    assert_eq!(
        approve_at(&preview, "\t\n\u{2003}", 1_234),
        Err(ApprovalError::EmptyAcknowledgement)
    );
}

#[test]
fn a_built_batch_is_fresh() {
    let fx = fixture();
    let source = fx.root.join("in").join("Old Name.bin");
    fx.write(&source);
    let destination = fx.root.join("lib").join("New Name.bin");
    let mut export = ready_export_local(source.to_str().unwrap(), destination.to_str().unwrap());
    export.items[0].set_label = Some("Set".to_string());
    let (_, transaction) = build_and_approve(&fx, &export);
    assert_eq!(transaction.transaction_id, "transaction-0");
    assert_eq!(transaction.plan_generation, plan_generation_of(&export));
    assert_eq!(transaction.classifier_version.as_deref(), Some("1"));
    assert_eq!(transaction.created_at_unix, 1_700_000_000);
    assert_eq!(transaction.source_scan_root, "test-root");
    assert_eq!(transaction.state, TransactionState::Planned);
    assert!(transaction.created_directories.is_empty());
    let entry = &transaction.entries[0];
    assert_eq!(Path::new(&entry.source_path), source);
    assert_eq!(Path::new(&entry.destination_path), destination);
    assert_eq!(entry.original_basename, "Old Name.bin");
    assert_eq!(entry.proposed_basename, "New Name.bin");
    assert_eq!(Some(entry.identity), fx.identity(&source));
    assert_eq!(entry.state, EntryState::Planned);
    assert!(!entry.preflight_passed);
    assert_eq!(set_label_of(entry), Some("Set".to_string()));
}

#[test]
fn cycles_are_named_once_each_in_path_order() {
    let fx = fixture();
    for name in ["a", "b", "z"] {
        fx.write(&fx.root.join(name));
    }
    let path = |name: &str| fx.root.join(name).to_str().unwrap().to_string();
    let export = LibraryPlanExport {
        items: vec![
            item(&path("a"), &path("z")),
            item(&path("z"), &path("b")),
            item(&path("b"), "/disk//library/./z"),
        ],
    };
    let approved = approve_transaction(&build_preview(&export), "yes").unwrap();
    let error = fx.build(&export, &approved, "test").unwrap_err();
    assert_eq!(
        error,
        PlanTransactionError::CycleDetected(vec![path("b"), path("z")])
    );
    assert_eq!(
        error.message(),
        "a destination/source cycle was detected and rejected: \
         /disk/library/b -> /disk/library/z"
    );
}

#[test]
fn build_errors_say_what_is_wrong() {
    let mismatch = PlanTransactionError::DigestMismatch {
        approved: "aa".to_string(),
        current: "bb".to_string(),
    };
    assert_eq!(
        mismatch.message(),
        "the plan changed since approval (approved digest aa, current bb); \
         the approval no longer applies"
    );
    assert_eq!(
        PlanTransactionError::NoApprovedReadyItems.message(),
        "no approved item is Ready with a real destination"
    );
    assert_eq!(
        PlanTransactionError::Underlying("disk on fire".to_string()).message(),
        "disk on fire"
    );
}

/// A batch of one move that needs two directories.
fn two_directory_batch(fx: &Fixture) -> RenameTransaction {
    let source = fx.root.join("game.bin");
    fx.write(&source);
    let destination = fx.root.join("lib").join("Set").join("game.bin");
    let export = ready_export_local(source.to_str().unwrap(), destination.to_str().unwrap());
    build_and_approve(fx, &export).1
}

#[test]
fn steps_ask_for_the_journal_before_any_directory() {
    let fx = fixture();
    let mut transaction = two_directory_batch(&fx);
    let run = apply_plan_transaction(&mut transaction, "/disk/library", Ok(()), false).unwrap();
    assert_eq!(transaction.state, TransactionState::Applying);
    assert_eq!(
        run.directories,
        vec!["/disk/library/lib", "/disk/library/lib/Set"]
    );
    assert_eq!(run.pending(), ApplyAction::WriteJournal);
    let (run, action) = run.step(&mut transaction, ApplyEvent::Journaled);
    assert_eq!(action, ApplyAction::Inspect("/disk/library/lib".to_string()));
    let (run, action) = run.step(&mut transaction, ApplyEvent::Executed);
    assert_eq!(
        action,
        ApplyAction::Inspect("/disk/library/lib".to_string()),
        "an event that is no answer changes nothing"
    );
    let (run, action) = run.step(&mut transaction, ApplyEvent::Missing);
    assert_eq!(action, ApplyAction::Create("/disk/library/lib".to_string()));
    assert!(transaction.created_directories.is_empty());
    let (run, action) = run.step(&mut transaction, ApplyEvent::Created);
    assert_eq!(action, ApplyAction::WriteJournal);
    assert_eq!(transaction.created_directories, vec!["/disk/library/lib"]);
    let (run, action) = run.step(&mut transaction, ApplyEvent::Journaled);
    assert_eq!(
        action,
        ApplyAction::Inspect("/disk/library/lib/Set".to_string())
    );
    let (run, _) = run.step(&mut transaction, ApplyEvent::Missing);
    let (run, action) = run.step(&mut transaction, ApplyEvent::AlreadyThere);
    assert_eq!(action, ApplyAction::Execute);
    assert_eq!(transaction.created_directories, vec!["/disk/library/lib"]);
    let (run, action) = run.step(&mut transaction, ApplyEvent::Executed);
    assert_eq!(action, ApplyAction::Return(None));
    let (_, action) = run.step(&mut transaction, ApplyEvent::Executed);
    assert_eq!(action, ApplyAction::Rest);
}

#[test]
fn failures_are_journaled_and_returned() {
    let fx = fixture();
    let mut transaction = two_directory_batch(&fx);
    let run = apply_plan_transaction(&mut transaction, "/disk/library", Ok(()), false).unwrap();
    let (run, _) = run.step(&mut transaction, ApplyEvent::Journaled);
    let (run, action) = run.step(
        &mut transaction,
        ApplyEvent::InspectFailed("no permission".to_string()),
    );
    assert_eq!(action, ApplyAction::WriteJournal);
    assert_eq!(transaction.state, TransactionState::ApplyFailed);
    let (_, action) = run.step(&mut transaction, ApplyEvent::Journaled);
    assert_eq!(
        action,
        ApplyAction::Return(Some(ApplyError::Journal(
            "could not inspect directory /disk/library/lib: no permission".to_string()
        )))
    );

    let mut transaction = two_directory_batch(&fx);
    let run = apply_plan_transaction(&mut transaction, "/disk/library", Ok(()), false).unwrap();
    let (run, _) = run.step(&mut transaction, ApplyEvent::Journaled);
    let (run, _) = run.step(&mut transaction, ApplyEvent::Missing);
    let (run, _) = run.step(
        &mut transaction,
        ApplyEvent::CreateFailed("disk full".to_string()),
    );
    let (_, action) = run.step(&mut transaction, ApplyEvent::Journaled);
    assert_eq!(
        action,
        ApplyAction::Return(Some(ApplyError::Journal(
            "could not create directory /disk/library/lib: disk full".to_string()
        )))
    );

    let mut transaction = two_directory_batch(&fx);
    let run = apply_plan_transaction(&mut transaction, "/disk/library", Ok(()), false).unwrap();
    let (_, action) = run.step(
        &mut transaction,
        ApplyEvent::JournalFailed("read-only".to_string()),
    );
    assert_eq!(
        action,
        ApplyAction::Return(Some(ApplyError::Journal("read-only".to_string())))
    );
    assert_eq!(transaction.state, TransactionState::Applying);
}

#[test]
fn a_refused_or_cancelled_batch_is_left_as_it_is() {
    let fx = fixture();
    let mut transaction = two_directory_batch(&fx);
    let before = transaction.clone();
    let refused = Err(ApplyError::ClassifierVersion("old".to_string()));
    assert_eq!(
        apply_plan_transaction(&mut transaction, "/disk/library", refused, true).unwrap_err(),
        ApplyError::ClassifierVersion("old".to_string())
    );
    assert_eq!(
        apply_plan_transaction(&mut transaction, "/disk/library", Ok(()), true).unwrap_err(),
        ApplyError::Cancelled
    );
    assert_eq!(transaction, before);
}

#[test]
fn directories_outside_the_root_are_never_asked_for() {
    let fx = fixture();
    let source = fx.root.join("game.bin");
    fx.write(&source);
    let export = ready_export_local(source.to_str().unwrap(), "/elsewhere/lib/game.bin");
    let (_, mut transaction) = build_and_approve(&fx, &export);
    let run = apply_plan_transaction(&mut transaction, "/disk/library", Ok(()), false).unwrap();
    assert!(run.directories.is_empty());
}

#[test]
fn a_rollback_goes_backwards_and_reports_what_it_left() {
    let fx = fixture();
    let mut transaction = two_directory_batch(&fx);
    transaction.created_directories =
        vec!["/a".to_string(), "/a/b".to_string(), "/a/b/c".to_string()];
    assert_eq!(removal_order(&transaction), vec!["/a/b/c", "/a/b", "/a"]);
    let moved = RollbackOutcome {
        result: RollbackResult::FullyRolledBack,
    };
    let fates = vec![
        DirectoryFate::Removed,
        DirectoryFate::RemovalFailed,
        DirectoryFate::NotADirectory,
    ];
    let outcome = rollback_plan_transaction(&transaction, moved, &fates);
    assert_eq!(outcome.directories_removed, vec!["/a/b/c"]);
    assert_eq!(outcome.directories_remaining, vec!["/a/b"]);
}

#[test]
fn recovery_goes_by_state_and_applied_entries() {
    let fx = fixture();
    let mut transaction = two_directory_batch(&fx);
    let settled = [
        (TransactionState::Planned, RecoveryAssessment::SafeToResume),
        (TransactionState::Applied, RecoveryAssessment::AlreadyCommitted),
        (TransactionState::ApplyFailed, RecoveryAssessment::SafeToResume),
        (TransactionState::RollbackFailed, RecoveryAssessment::SafeToResume),
        (TransactionState::RolledBack, RecoveryAssessment::AlreadyRolledBack),
        (TransactionState::Applying, RecoveryAssessment::ManualRecoveryRequired),
        (TransactionState::RollingBack, RecoveryAssessment::ManualRecoveryRequired),
    ];
    for (state, expected) in settled {
        transaction.state = state;
        assert_eq!(assess_recovery(&transaction, &[]), expected, "{state:?}");
    }
    transaction.entries[0].state = EntryState::Applied;
    for state in [
        TransactionState::Applied,
        TransactionState::ApplyFailed,
        TransactionState::RollbackFailed,
    ] {
        transaction.state = state;
        assert_eq!(
            assess_recovery(&transaction, &[]),
            RecoveryAssessment::SafeToRollback
        );
    }
    let harmless = [RecoveryIssue {
        entry_index: 0,
        kind: RecoveryIssueKind::FoundApplied,
        detail: String::new(),
    }];
    assert_eq!(
        assess_recovery(&transaction, &harmless),
        RecoveryAssessment::SafeToRollback
    );
}

#[test]
fn a_set_of_texts_is_ordered_and_distinct() {
    let mut set = TextSet::new();
    for text in ["b", "a", "c", "a"] {
        set.insert(text);
    }
    assert_eq!(set.len(), 3);
    assert_eq!(set.to_vec(), vec!["a", "b", "c"]);
    assert!(set.contains("b") && !set.contains("d"));
    assert!(set.remove("b") && !set.remove("b"));
    let mut other = TextSet::default();
    other.insert("c");
    other.insert("a");
    assert_eq!(set, other);
    assert_eq!(set.clone(), other);
}

#[test]
fn a_directory_is_no_canary() {
    let cf = canary_fixture();
    cf.fx.remove(&cf.source);
    cf.fx.make_directories(&cf.source);
    let (export, approved, item) = canary_export_and_approval(&cf);
    assert_eq!(
        cf.fx.assess(&export, &item, &approved, &cf.root),
        Err(vec![CanaryIneligibleReason::SourceNotRegularFile])
    );
}

#[test]
fn canary_reasons_are_named_in_the_preview() {
    let cf = canary_fixture();
    let (_, _, item) = canary_export_and_approval(&cf);
    let refusal = Err(vec![
        CanaryIneligibleReason::NotReady,
        CanaryIneligibleReason::SourceTooLarge {
            bytes: 67_108_865,
            limit: CANARY_MAX_SIZE_BYTES,
        },
    ]);
    let text = render_canary_preview(&item, &refusal);
    assert!(text.contains(
        "FAIL\n  - NotReady\n  - SourceTooLarge { bytes: 67108865, limit: 67108864 }\n\nApproval"
    ));
}

#[test]
fn canary_policy_apply_after_rollback_on_the_old_transaction_id_is_refused() {
    let fx = fixture();
    let source = fx.root.join("source.bin");
    fx.write(&source);
    let destination = fx.root.join("library").join("dest.bin");
    let export = LibraryPlanExport {
        items: vec![item(
            &source.to_string_lossy(),
            &destination.to_string_lossy(),
        )],
    };
    let preview = build_preview(&export);
    let approved = approve_transaction(&preview, "ack").unwrap();
    let mut transaction = fx.build(&export, &approved, "root").unwrap();
    let mode = RealApplyPolicy::Canary.hard_conflict_mode();

    fx.apply_with_mode(&mut transaction, mode).unwrap();
    fx.rollback(&mut transaction).unwrap();

    let reapply = fx.apply_with_mode(&mut transaction, mode);
    assert!(matches!(reapply, Err(ApplyError::AlreadySettled { .. })));
}

#[test]
fn a_fresh_build_after_rollback_produces_a_new_transaction_id_with_the_same_digest() {
    let fx = fixture();
    let source = fx.root.join("source.bin");
    fx.write(&source);
    let destination = fx.root.join("library").join("dest.bin");
    let export = LibraryPlanExport {
        items: vec![item(
            &source.to_string_lossy(),
            &destination.to_string_lossy(),
        )],
    };
    let preview = build_preview(&export);
    let approved = approve_transaction(&preview, "ack").unwrap();
    let mut transaction = fx.build(&export, &approved, "root").unwrap();

    fx.apply_with_mode(&mut transaction, RealApplyPolicy::Canary.hard_conflict_mode())
        .unwrap();
    fx.rollback(&mut transaction).unwrap();

    let fresh_preview = build_preview(&export);
    let fresh_approved = approve_transaction(&fresh_preview, "fresh ack").unwrap();
    let fresh_transaction = fx.build(&export, &fresh_approved, "root").unwrap();

    assert_ne!(fresh_transaction.transaction_id, transaction.transaction_id);
    assert_eq!(fresh_preview.digest, preview.digest);
    assert_eq!(transaction.state, TransactionState::RolledBack);
}

#[test]
fn journal_on_disk_reflects_applied_then_rolled_back_terminal_states() {
    let fx = fixture();
    let source = fx.root.join("source.bin");
    fx.write(&source);
    let destination = fx.root.join("library").join("dest.bin");
    let export = LibraryPlanExport {
        items: vec![item(
            &source.to_string_lossy(),
            &destination.to_string_lossy(),
        )],
    };
    let preview = build_preview(&export);
    let approved = approve_transaction(&preview, "ack").unwrap();
    let mut transaction = fx.build(&export, &approved, "root").unwrap();

    fx.apply_with_mode(&mut transaction, RealApplyPolicy::Canary.hard_conflict_mode())
        .unwrap();
    assert_eq!(fx.persisted().state, TransactionState::Applied);

    fx.rollback(&mut transaction).unwrap();
    assert_eq!(fx.persisted().state, TransactionState::RolledBack);
}

#[test]
fn a_corrupted_copy_is_detectable_by_hash_mismatch() {
    let good = b"synthetic canary rom bytes";
    let corrupted = b"synthetic canary rom byteX";
    assert_ne!(
        hash_bytes(good, "good.bin", "good.bin").sha256,
        hash_bytes(corrupted, "bad.bin", "bad.bin").sha256
    );
}

#[test]
fn set_label_survives_a_journal_round_trip() {
    let fx = fixture();
    let disc1 = fx.root.join("incoming").join("Disc 1.bin");
    fx.write(&disc1);
    let disc1_dest = fx.root.join("lib").join("Disc 1.bin");
    let export = LibraryPlanExport {
        items: vec![set_item(
            disc1.to_str().unwrap(),
            disc1_dest.to_str().unwrap(),
            "game",
        )],
    };
    let (_, mut transaction) = build_and_approve(&fx, &export);
    assert_eq!(
        set_label_of(&transaction.entries[0]),
        Some("game".to_string())
    );

    fx.apply(&mut transaction).unwrap();
    let persisted = fx.persisted();
    assert_eq!(
        set_label_of(&persisted.entries[0]),
        Some("game".to_string())
    );
}

#[test]
fn journal_is_written_before_the_first_mutation() {
    let fx = fixture();
    let source = fx.root.join("game.bin");
    fx.write(&source);
    let destination = fx.root.join("ps").join("game.bin");
    let export = ready_export(
        source.to_str().unwrap(),
        destination.to_str().unwrap(),
        None,
    );
    let (_, mut transaction) = build_and_approve(&fx, &export);
    fx.apply(&mut transaction).unwrap();
    let first = fx.journal.borrow()[0].clone();
    assert_eq!(first.transaction_id, transaction.transaction_id);
    assert_eq!(first.state, TransactionState::Applying);
    assert!(first.created_directories.is_empty());
}

#[test]
fn support_file_moves_with_its_attached_set() {
    let fx = fixture();
    let rom = fx.root.join("game.bin");
    let manual = fx.root.join("manual.pdf");
    fx.write(&rom);
    fx.write(&manual);
    let dest_rom = fx.root.join("ps").join("Game").join("game.bin");
    let dest_manual = fx.root.join("ps").join("Game").join("manual.pdf");
    let export = LibraryPlanExport {
        items: vec![
            item(rom.to_str().unwrap(), dest_rom.to_str().unwrap()),
            item(manual.to_str().unwrap(), dest_manual.to_str().unwrap()),
        ],
    };
    let (_, mut transaction) = build_and_approve(&fx, &export);
    let outcome = fx.apply(&mut transaction).unwrap();
    assert_eq!(outcome.transaction.state, TransactionState::Applied);
    assert!(fx.has(&dest_manual));
}

#[test]
fn a_non_empty_created_directory_is_never_removed_on_rollback() {
    let fx = fixture();
    let source = fx.root.join("game.bin");
    fx.write(&source);
    let destination = fx.root.join("ps").join("game.bin");
    let export = ready_export(
        source.to_str().unwrap(),
        destination.to_str().unwrap(),
        None,
    );
    let (_, mut transaction) = build_and_approve(&fx, &export);
    fx.apply(&mut transaction).unwrap();
    fx.write(&fx.root.join("ps").join("unrelated.txt"));

    let outcome = fx.rollback(&mut transaction).unwrap();
    let ps = fx.root.join("ps").to_str().unwrap().to_string();
    assert!(outcome.directories_remaining.contains(&ps));
    assert!(fx.has(&fx.root.join("ps")));
}

#[test]
fn cancellation_before_any_mutation_leaves_zero_mutations() {
    let fx = fixture();
    let source = fx.root.join("game.bin");
    fx.write(&source);
    let destination = fx.root.join("ps").join("game.bin");
    let export = ready_export(
        source.to_str().unwrap(),
        destination.to_str().unwrap(),
        None,
    );
    let (_, mut transaction) = build_and_approve(&fx, &export);
    let result = apply_plan_transaction(&mut transaction, fx.root.to_str().unwrap(), Ok(()), true);
    assert!(matches!(result, Err(ApplyError::Cancelled)));
    assert!(fx.has(&source));
    assert!(!fx.has(&destination));
}

#[test]
fn a_cycle_names_each_destination_once() {
    let fx = fixture();
    let path = |name: &str| fx.root.join(name).to_str().unwrap().to_string();
    for name in ["a", "b", "c", "d"] {
        fx.write(&fx.root.join(name));
    }
    let export = LibraryPlanExport {
        items: vec![
            item(&path("a"), &path("c")),
            item(&path("b"), &path("c")),
            item(&path("c"), &path("a")),
            item(&path("d"), &path("e")),
        ],
    };
    let approved = approve_transaction(&build_preview(&export), "ack").unwrap();
    assert_eq!(
        fx.build(&export, &approved, "root"),
        Err(PlanTransactionError::CycleDetected(vec![path("a"), path("c")]))
    );
}

#[test]
fn builds_differ_only_by_their_stamps() {
    let fx = fixture();
    let source = fx.root.join("game.bin");
    fx.write(&source);
    let destination = fx.root.join("ps").join("game.bin");
    let export = ready_export_local(source.to_str().unwrap(), destination.to_str().unwrap());
    let approved = approve_transaction(&build_preview(&export), "ack").unwrap();
    let stamp = |id: &str| TransactionStamp {
        transaction_id: id.to_string(),
        classifier_version: "1".to_string(),
        created_at_unix: 7,
    };
    let build = |id: &str| {
        build_from(&export, &approved, "root", &fx.capture(&export), &stamp(id)).unwrap()
    };
    let first = build("one");
    let mut second = build("two");
    assert_ne!(first.transaction_id, second.transaction_id);
    assert_eq!(build("one"), first);
    second.transaction_id = first.transaction_id.clone();
    assert_eq!(first, second);
    assert_eq!(first.plan_generation, plan_generation_of(&export));
}

#[test]
fn a_clean_rollback_removes_all_and_a_second_one_nothing() {
    let fx = fixture();
    let source = fx.root.join("game.bin");
    fx.write(&source);
    let destination = fx.root.join("ps").join("set").join("game.bin");
    let export = ready_export_local(source.to_str().unwrap(), destination.to_str().unwrap());
    let (_, mut transaction) = build_and_approve(&fx, &export);
    fx.apply(&mut transaction).unwrap();
    let mut made = transaction.created_directories.clone();
    assert_eq!(made.len(), 2);
    made.reverse();

    let first = fx.rollback(&mut transaction).unwrap();
    assert_eq!(first.directories_removed, made);
    assert!(first.directories_remaining.is_empty());
    assert!(fx.has(&source) && !fx.has(&destination));

    let second = fx.rollback(&mut transaction).unwrap();
    assert!(second.directories_removed.is_empty());
    assert!(second.directories_remaining.is_empty());
    assert!(fx.has(&source) && !fx.has(&destination));
}
