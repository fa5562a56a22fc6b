//! The journal's model of a batch of file moves: what is to move where, how far
//! each move has come, and what a recovery found.
use vstd::prelude::*;
use vstd::string::*;
use crate::text::{opt_view, views};

verus! {

/// What kind of file system object a path named.
#[derive(Debug, Clone, Copy, PartialEq, Eq, Structural)]
pub enum ObjectKind {
    RegularFile,
    Symlink,
    Directory,
    Other,
}

/// What a file was when it was looked at, short of its content.
#[derive(Debug, Clone, Copy, PartialEq, Eq, Structural)]
pub struct FileIdentity {
    pub kind: ObjectKind,
    pub size: u64,
    pub modified_unix: u64,
    pub device: u64,
    pub inode: u64,
}

/// How far one move has come.
#[derive(Debug, Clone, Copy, PartialEq, Eq, Structural)]
pub enum EntryState {
    Planned,
    Applying,
    Applied,
    Skipped,
    Failed,
    RollingBack,
    RolledBack,
    RollbackFailed,
}

/// One move.
#[derive(Debug, Clone, PartialEq, Eq)]
pub struct TransactionEntry {
    pub source_path: String,
    pub destination_path: String,
    pub original_basename: String,
    pub proposed_basename: String,
    pub identity: FileIdentity,
    pub preflight_passed: bool,
    pub preflight_failures: Vec<String>,
    pub state: EntryState,
    pub failure_reason: Option<String>,
    pub applied_at_unix: Option<u64>,
    pub rolled_back_at_unix: Option<u64>,
    /// The set the file moves with, if any.
    pub set_label: Option<String>,
}

/// A [`TransactionEntry`] with its texts as sequences.
#[verifier::ext_equal]
pub struct EntryModel {
    pub source: Seq<char>,
    pub destination: Seq<char>,
    pub original_basename: Seq<char>,
    pub proposed_basename: Seq<char>,
    pub identity: FileIdentity,
    pub preflight_passed: bool,
    pub preflight_failures: Seq<Seq<char>>,
    pub state: EntryState,
    pub failure_reason: Option<Seq<char>>,
    pub applied_at_unix: Option<u64>,
    pub rolled_back_at_unix: Option<u64>,
    pub set_label: Option<Seq<char>>,
}

impl View for TransactionEntry {
    type V = EntryModel;

    open spec fn view(&self) -> EntryModel {
        EntryModel {
            source: self.source_path@,
            destination: self.destination_path@,
            original_basename: self.original_basename@,
            proposed_basename: self.proposed_basename@,
            identity: self.identity,
            preflight_passed: self.preflight_passed,
            preflight_failures: views(self.preflight_failures@),
            state: self.state,
            failure_reason: opt_view(self.failure_reason),
            applied_at_unix: self.applied_at_unix,
            rolled_back_at_unix: self.rolled_back_at_unix,
            set_label: opt_view(self.set_label),
        }
    }
}

/// The models of entries.
pub open spec fn entry_models(s: Seq<TransactionEntry>) -> Seq<EntryModel> {
    s.map_values(|e: TransactionEntry| e@)
}

/// How far a batch has come.
#[derive(Debug, Clone, Copy, PartialEq, Eq, Structural)]
pub enum TransactionState {
    Planned,
    Applying,
    Applied,
    ApplyFailed,
    RollingBack,
    RolledBack,
    RollbackFailed,
}

/// A batch of moves as the journal holds it.
#[derive(Debug, Clone, PartialEq, Eq)]
pub struct RenameTransaction {
    pub transaction_id: String,
    /// Stands for the plan the batch was made from.
    pub plan_generation: u64,
    pub classifier_version: Option<String>,
    pub created_at_unix: u64,
    pub source_scan_root: String,
    pub state: TransactionState,
    pub entries: Vec<TransactionEntry>,
    /// The directories the batch made, in the order it made them.
    pub created_directories: Vec<String>,
}

impl RenameTransaction {
    /// Some entry has been applied and not been taken back.
    pub open spec fn some_applied(self) -> bool {
        exists|i: int|
            0 <= i < self.entries@.len() && (#[trigger] self.entries@[i]).state
                == EntryState::Applied
    }

    /// Whether some entry has been applied and not been taken back.
    pub fn has_applied_entries(&self) -> (r: bool)
        ensures
            r == self.some_applied(),
    {
        let mut i: usize = 0;
        while i < self.entries.len()
            invariant
                i <= self.entries@.len(),
                forall|j: int|
                    0 <= j < i ==> (#[trigger] self.entries@[j]).state != EntryState::Applied,
            decreases self.entries.len() - i,
        {
            if self.entries[i].state == EntryState::Applied {
                return true;
            }
            i = i + 1;
        }
        false
    }

    /// The number of entries that have been applied and not been taken back.
    pub fn applied_count(&self) -> (r: usize)
        ensures
            r == count_applied(self.entries@),
    {
        let mut count: usize = 0;
        let mut i: usize = 0;
        while i < self.entries.len()
            invariant
                i <= self.entries@.len(),
                count <= i,
                count == count_applied(self.entries@.take(i as int)),
            decreases self.entries.len() - i,
        {
            assert(self.entries@.take(i + 1).drop_last() =~= self.entries@.take(i as int));
            if self.entries[i].state == EntryState::Applied {
                count = count + 1;
            }
            i = i + 1;
        }
        assert(self.entries@.take(i as int) =~= self.entries@);
        count
    }
}

/// The number of entries that have been applied and not been taken back.
pub open spec fn count_applied(entries: Seq<TransactionEntry>) -> nat
    decreases entries.len(),
{
    if entries.len() == 0 {
        0
    } else if entries.last().state == EntryState::Applied {
        count_applied(entries.drop_last()) + 1
    } else {
        count_applied(entries.drop_last())
    }
}

/// What to do with a batch some of whose entries are unsafe.
#[derive(Debug, Clone, Copy, PartialEq, Eq, Structural)]
pub enum HardConflictMode {
    /// Nothing moves if anything is wrong.
    AbortAll,
    /// The safe entries move; the others are recorded as skipped.
    SkipUnsafeSubset,
}

/// Why a batch was not applied.
#[derive(Debug, Clone, PartialEq, Eq)]
pub enum ApplyError {
    Cancelled,
    /// The journal, or a directory the batch needs, could not be written.
    Journal(String),
    /// The batch has been rolled back, or a rollback of it has begun.
    AlreadySettled { transaction_id: String, state: TransactionState },
    /// The classifier that made the plan is not the current one.
    ClassifierVersion(String),
    /// The plan changed since the batch was made.
    StalePlan,
    /// Entries that are unsafe to move, with what is wrong with them.
    HardConflicts(Vec<String>),
}

/// What a recovery found of one entry that it could not settle by itself.
#[derive(Debug, Clone, Copy, PartialEq, Eq, Structural)]
pub enum RecoveryIssueKind {
    BothSourceAndDestination,
    BothAbsent,
    DestinationIdentityChanged,
    SourceIdentityChanged,
    /// The entry was found applied after all.
    FoundApplied,
    /// The entry was found not to have moved.
    FoundNotApplied,
}

/// One finding of a recovery.
#[derive(Debug, Clone, PartialEq, Eq)]
pub struct RecoveryIssue {
    pub entry_index: usize,
    pub kind: RecoveryIssueKind,
    pub detail: String,
}

/// How a rollback of the moves ended.
#[derive(Debug, Clone, PartialEq, Eq)]
pub enum RollbackResult {
    FullyRolledBack,
    PartiallyRolledBack { failures: Vec<String> },
    RollbackFailed { reason: String },
}

/// What a rollback of the moves reports.
#[derive(Debug, Clone, PartialEq, Eq)]
pub struct RollbackOutcome {
    pub result: RollbackResult,
}

} // verus!
