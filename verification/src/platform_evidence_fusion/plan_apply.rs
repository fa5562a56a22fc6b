//! Carrying out a batch: which directories it needs, the steps from the first
//! journal entry to the executor, the directories a rollback takes back, and
//! what a recovery amounts to.
//!
//! Nothing here touches a disk. Each step says what to do next and is told what
//! came of it.
use vstd::prelude::*;
use vstd::string::*;
use crate::dat::rename_apply::{
    entry_models, ApplyError, EntryModel, HardConflictMode, RecoveryIssue, RecoveryIssueKind,
    RenameTransaction, RollbackOutcome, TransactionEntry, TransactionState,
};
use crate::path::{
    components, is_under, parent, parent_is_shorter, parent_of, path_is_under, same_path,
};
use crate::platform_evidence_fusion::plan_transaction::{names_one_of, path_listed};
use crate::text::{copy_opt, same_opt_text, views};
use crate::text_set::TextSet;

verus! {

/// `path` lies under `root` and is not `root`.
pub open spec fn is_below(path: Seq<char>, root: Seq<char>) -> bool {
    is_under(path, root) && components(path) != components(root)
}

/// `path` and those of its ancestors that lie below `root`, outermost first.
pub open spec fn chain(path: Seq<char>, root: Seq<char>) -> Seq<Seq<char>>
    decreases path.len(),
    via chain_shrinks
{
    if is_below(path, root) {
        match parent(path) {
            Some(p) => chain(p, root).push(path),
            None => seq![path],
        }
    } else {
        seq![]
    }
}

#[via_fn]
proof fn chain_shrinks(path: Seq<char>, root: Seq<char>) {
    parent_is_shorter(path);
}

/// `listed` followed by those of `more` that it does not name yet.
pub open spec fn with_new_paths(listed: Seq<Seq<char>>, more: Seq<Seq<char>>) -> Seq<Seq<char>>
    decreases more.len(),
{
    if more.len() == 0 {
        listed
    } else {
        let before = with_new_paths(listed, more.drop_last());
        if names_one_of(before, more.last()) {
            before
        } else {
            before.push(more.last())
        }
    }
}

/// The directories below `root` that the destinations need, parents first.
pub open spec fn needed_directories(entries: Seq<EntryModel>, root: Seq<char>) -> Seq<Seq<char>>
    decreases entries.len(),
{
    if entries.len() == 0 {
        seq![]
    } else {
        let before = needed_directories(entries.drop_last(), root);
        match parent(entries.last().destination) {
            Some(p) => with_new_paths(before, chain(p, root)),
            None => before,
        }
    }
}

fn chain_of(path: &str, root: &str) -> (r: Vec<String>)
    ensures
        views(r@) == chain(path@, root@),
    decreases path@.len(),
{
    if !path_is_under(path, root) || same_path(path, root) {
        let r: Vec<String> = Vec::new();
        assert(views(r@) =~= seq![]);
        return r;
    }
    proof {
        parent_is_shorter(path@);
    }
    let mut r = match parent_of(path) {
        Some(p) => chain_of(p.as_str(), root),
        None => Vec::new(),
    };
    let own = path.to_owned();
    let ghost before = r@;
    r.push(own);
    assert(views(r@) =~= views(before).push(path@));
    r
}

fn destination_directories(entries: &Vec<TransactionEntry>, root: &str) -> (r: Vec<String>)
    ensures
        views(r@) == needed_directories(entry_models(entries@), root@),
{
    let ghost all = entry_models(entries@);
    let mut listed: Vec<String> = Vec::new();
    let mut i: usize = 0;
    assert(views(listed@) =~= needed_directories(all.take(0), root@));
    while i < entries.len()
        invariant
            i <= entries@.len(),
            all == entry_models(entries@),
            views(listed@) == needed_directories(all.take(i as int), root@),
        decreases entries.len() - i,
    {
        proof {
            assert(all.take(i + 1).drop_last() =~= all.take(i as int));
            assert(all.take(i + 1).last() == entries@[i as int]@);
        }
        match parent_of(entries[i].destination_path.as_str()) {
            Some(p) => {
                let more = chain_of(p.as_str(), root);
                let ghost before = views(listed@);
                let ghost steps = views(more@);
                let mut k: usize = 0;
                assert(with_new_paths(before, steps.take(0)) =~= before);
                while k < more.len()
                    invariant
                        k <= more@.len(),
                        steps == views(more@),
                        views(listed@) == with_new_paths(before, steps.take(k as int)),
                    decreases more.len() - k,
                {
                    assert(steps.take(k + 1).drop_last() =~= steps.take(k as int));
                    assert(steps.take(k + 1).last() == more@[k as int]@);
                    if !path_listed(&listed, more[k].as_str()) {
                        let directory = more[k].clone();
                        assert(views(listed@.push(directory)) =~= views(listed@).push(
                            directory@,
                        ));
                        listed.push(directory);
                    }
                    k = k + 1;
                }
                assert(steps.take(k as int) =~= steps);
            },
            None => {},
        }
        i = i + 1;
    }
    assert(all.take(i as int) =~= all);
    listed
}

/// How far carrying out a batch has come.
#[derive(Debug, PartialEq, Eq)]
pub enum ApplyPhase {
    /// The journal is to say that the batch has begun.
    Opening,
    /// The directory with this index is to be looked at.
    Inspecting(usize),
    /// The directory with this index is to be made.
    Creating(usize),
    /// The journal is to say that the directory with this index was made.
    Recording(usize),
    /// The executor is to run.
    Executing,
    /// The journal is to say that the batch failed.
    Failing(ApplyError),
    Finished,
}

/// A batch that is being carried out.
#[derive(Debug, PartialEq, Eq)]
pub struct ApplyRun {
    /// The directories the batch needs, parents first.
    pub directories: Vec<String>,
    /// What the executor does with unsafe entries.
    pub mode: HardConflictMode,
    pub phase: ApplyPhase,
}

/// What to do next.
#[derive(Debug, PartialEq, Eq)]
pub enum ApplyAction {
    WriteJournal,
    /// Look whether anything stands at this path.
    Inspect(String),
    /// Make this one directory.
    Create(String),
    /// Run the executor on the batch.
    Execute,
    /// Return; with an error, or with the executor's outcome.
    Return(Option<ApplyError>),
    /// The run has returned already.
    Rest,
}

/// What came of an action.
#[derive(Debug, PartialEq, Eq)]
pub enum ApplyEvent {
    Journaled,
    JournalFailed(String),
    /// Something stands at the path.
    Present,
    /// Nothing stands at the path.
    Missing,
    InspectFailed(String),
    Created,
    /// Something came to stand at the path in the meantime.
    AlreadyThere,
    CreateFailed(String),
    Executed,
    ExecuteFailed(ApplyError),
}

/// A batch that a rollback has begun or ended on is never applied again.
pub open spec fn is_settled(state: TransactionState) -> bool {
    state == TransactionState::RolledBack || state == TransactionState::RollingBack || state
        == TransactionState::RollbackFailed
}

/// `after` is `before` in another state.
pub open spec fn only_state_changed(
    before: RenameTransaction,
    after: RenameTransaction,
    state: TransactionState,
) -> bool {
    after == (RenameTransaction { state, ..before })
}

/// How a batch begins: not at all if its classifier version is refused, if it
/// was cancelled, or if it is settled, in this order; otherwise as applying,
/// with the journal to be written before anything else.
pub open spec fn begins(
    before: RenameTransaction,
    after: RenameTransaction,
    root: Seq<char>,
    version_check: Result<(), ApplyError>,
    cancelled: bool,
    mode: HardConflictMode,
    r: Result<ApplyRun, ApplyError>,
) -> bool {
    match version_check {
        Err(error) => after == before && r == Err::<ApplyRun, ApplyError>(error),
        Ok(_) => if cancelled {
            after == before && r == Err::<ApplyRun, ApplyError>(ApplyError::Cancelled)
        } else if is_settled(before.state) {
            after == before && r == Err::<ApplyRun, ApplyError>(
                ApplyError::AlreadySettled {
                    transaction_id: before.transaction_id,
                    state: before.state,
                },
            )
        } else {
            &&& only_state_changed(before, after, TransactionState::Applying)
            &&& r is Ok
            &&& r->Ok_0.phase == ApplyPhase::Opening
            &&& r->Ok_0.mode == mode
            &&& views(r->Ok_0.directories@) == needed_directories(
                entry_models(before.entries@),
                root,
            )
        },
    }
}

/// Begins to carry out a batch that is refused as a whole if anything is wrong.
/// `version_check` is what the executor says of the batch's classifier version.
pub fn apply_plan_transaction(
    transaction: &mut RenameTransaction,
    root: &str,
    version_check: Result<(), ApplyError>,
    cancelled: bool,
) -> (r: Result<ApplyRun, ApplyError>)
    ensures
        begins(
            *old(transaction),
            *final(transaction),
            root@,
            version_check,
            cancelled,
            HardConflictMode::AbortAll,
            r,
        ),
{
    apply_plan_transaction_with_mode(
        transaction,
        root,
        version_check,
        cancelled,
        HardConflictMode::AbortAll,
    )
}

/// Begins to carry out a batch in the given mode.
pub fn apply_plan_transaction_with_mode(
    transaction: &mut RenameTransaction,
    root: &str,
    version_check: Result<(), ApplyError>,
    cancelled: bool,
    hard_conflict_mode: HardConflictMode,
) -> (r: Result<ApplyRun, ApplyError>)
    ensures
        begins(
            *old(transaction),
            *final(transaction),
            root@,
            version_check,
            cancelled,
            hard_conflict_mode,
            r,
        ),
{
    match version_check {
        Err(error) => return Err(error),
        Ok(_) => {},
    }
    if cancelled {
        return Err(ApplyError::Cancelled);
    }
    match transaction.state {
        TransactionState::RolledBack
        | TransactionState::RollingBack
        | TransactionState::RollbackFailed => {
            return Err(
                ApplyError::AlreadySettled {
                    transaction_id: transaction.transaction_id.clone(),
                    state: transaction.state,
                },
            );
        },
        _ => {},
    }
    let directories = destination_directories(&transaction.entries, root);
    transaction.state = TransactionState::Applying;
    Ok(ApplyRun { directories, mode: hard_conflict_mode, phase: ApplyPhase::Opening })
}

/// What the phase waits for.
pub open spec fn is_pending(run: ApplyRun, action: ApplyAction) -> bool {
    match run.phase {
        ApplyPhase::Opening => action == ApplyAction::WriteJournal,
        ApplyPhase::Inspecting(i) => {
            &&& i < run.directories@.len()
            &&& action == ApplyAction::Inspect(run.directories@[i as int])
        },
        ApplyPhase::Creating(i) => {
            &&& i < run.directories@.len()
            &&& action == ApplyAction::Create(run.directories@[i as int])
        },
        ApplyPhase::Recording(_) => action == ApplyAction::WriteJournal,
        ApplyPhase::Executing => action == ApplyAction::Execute,
        ApplyPhase::Failing(_) => action == ApplyAction::WriteJournal,
        ApplyPhase::Finished => action == ApplyAction::Rest,
    }
}

/// The index of a directory phase is one of the directories.
pub open spec fn is_run(run: ApplyRun) -> bool {
    match run.phase {
        ApplyPhase::Inspecting(i) => i < run.directories@.len(),
        ApplyPhase::Creating(i) => i < run.directories@.len(),
        ApplyPhase::Recording(i) => i < run.directories@.len(),
        _ => true,
    }
}

/// The phase once the first `done` of `count` directories are there.
pub open spec fn phase_after(done: int, count: int) -> ApplyPhase {
    if done < count {
        ApplyPhase::Inspecting(done as usize)
    } else {
        ApplyPhase::Executing
    }
}

/// The batch and what is to be done, one step on.
pub struct StepModel {
    pub transaction: RenameTransaction,
    pub phase: ApplyPhase,
    /// The error to return, when the run finishes.
    pub returned: Option<Option<ApplyError>>,
}

/// The step into failure: the journal is still to be told.
pub open spec fn failed(transaction: RenameTransaction, error: ApplyError) -> StepModel {
    StepModel {
        transaction: RenameTransaction { state: TransactionState::ApplyFailed, ..transaction },
        phase: ApplyPhase::Failing(error),
        returned: None,
    }
}

/// The step that ends the run.
pub open spec fn ended(transaction: RenameTransaction, error: Option<ApplyError>) -> StepModel {
    StepModel { transaction, phase: ApplyPhase::Finished, returned: Some(error) }
}

/// The step into another phase.
pub open spec fn moved(transaction: RenameTransaction, phase: ApplyPhase) -> StepModel {
    StepModel { transaction, phase, returned: None }
}

/// What an action returns, if it ends the run.
pub open spec fn returned_by(action: ApplyAction) -> Option<Option<ApplyError>> {
    match action {
        ApplyAction::Return(error) => Some(error),
        _ => None,
    }
}

/// `error` is the failure to do `deed` at `directory` for the given reason.
pub open spec fn is_directory_error(
    error: ApplyError,
    deed: Seq<char>,
    directory: Seq<char>,
    reason: Seq<char>,
) -> bool {
    error matches ApplyError::Journal(text) && text@ == deed + directory + ": "@ + reason
}

/// `after` is one step on from `before`, on the given event. An event that is no
/// answer to what is pending changes nothing.
pub open spec fn steps_to(
    run: ApplyRun,
    before: RenameTransaction,
    event: ApplyEvent,
    after: StepModel,
) -> bool {
    match (run.phase, event) {
        (ApplyPhase::Opening, ApplyEvent::Journaled) => after == moved(
            before,
            phase_after(0, run.directories@.len() as int),
        ),
        (ApplyPhase::Opening, ApplyEvent::JournalFailed(text)) => after == ended(
            before,
            Some(ApplyError::Journal(text)),
        ),
        (ApplyPhase::Inspecting(i), ApplyEvent::Present) => after == moved(
            before,
            phase_after(i + 1, run.directories@.len() as int),
        ),
        (ApplyPhase::Inspecting(i), ApplyEvent::Missing) => after == moved(
            before,
            ApplyPhase::Creating(i),
        ),
        (ApplyPhase::Inspecting(i), ApplyEvent::InspectFailed(text)) => {
            &&& after.phase is Failing
            &&& after == failed(before, after.phase->Failing_0)
            &&& is_directory_error(
                after.phase->Failing_0,
                "could not inspect directory "@,
                run.directories@[i as int]@,
                text@,
            )
        },
        (ApplyPhase::Creating(i), ApplyEvent::Created) => {
            &&& after.transaction.created_directories@ == before.created_directories@.push(
                run.directories@[i as int],
            )
            &&& after == moved(
                RenameTransaction {
                    created_directories: after.transaction.created_directories,
                    ..before
                },
                ApplyPhase::Recording(i),
            )
        },
        (ApplyPhase::Creating(i), ApplyEvent::AlreadyThere) => after == moved(
            before,
            phase_after(i + 1, run.directories@.len() as int),
        ),
        (ApplyPhase::Creating(i), ApplyEvent::CreateFailed(text)) => {
            &&& after.phase is Failing
            &&& after == failed(before, after.phase->Failing_0)
            &&& is_directory_error(
                after.phase->Failing_0,
                "could not create directory "@,
                run.directories@[i as int]@,
                text@,
            )
        },
        (ApplyPhase::Recording(i), ApplyEvent::Journaled) => after == moved(
            before,
            phase_after(i + 1, run.directories@.len() as int),
        ),
        (ApplyPhase::Recording(_), ApplyEvent::JournalFailed(text)) => after == failed(
            before,
            ApplyError::Journal(text),
        ),
        (ApplyPhase::Executing, ApplyEvent::Executed) => after == ended(before, None),
        (ApplyPhase::Executing, ApplyEvent::ExecuteFailed(error)) => after == if before.state
            == TransactionState::Applying {
            failed(before, error)
        } else {
            ended(before, Some(error))
        },
        (ApplyPhase::Failing(error), ApplyEvent::Journaled) => after == ended(before, Some(error)),
        (ApplyPhase::Failing(_), ApplyEvent::JournalFailed(text)) => after == ended(
            before,
            Some(ApplyError::Journal(text)),
        ),
        (phase, _) => after == moved(before, phase),
    }
}

fn directory_error(deed: &str, directory: &str, reason: &str) -> (r: ApplyError)
    ensures
        is_directory_error(r, deed@, directory@, reason@),
{
    let mut text = deed.to_owned();
    text.append(directory);
    text.append(": ");
    text.append(reason);
    ApplyError::Journal(text)
}

impl ApplyRun {
    /// What the run waits for.
    pub fn pending(&self) -> (r: ApplyAction)
        requires
            is_run(*self),
        ensures
            is_pending(*self, r),
    {
        match &self.phase {
            ApplyPhase::Opening => ApplyAction::WriteJournal,
            ApplyPhase::Inspecting(i) => ApplyAction::Inspect(self.directories[*i].clone()),
            ApplyPhase::Creating(i) => ApplyAction::Create(self.directories[*i].clone()),
            ApplyPhase::Recording(_) => ApplyAction::WriteJournal,
            ApplyPhase::Executing => ApplyAction::Execute,
            ApplyPhase::Failing(_) => ApplyAction::WriteJournal,
            ApplyPhase::Finished => ApplyAction::Rest,
        }
    }

    /// One step: what came of the pending action, and what to do next.
    pub fn step(self, transaction: &mut RenameTransaction, event: ApplyEvent) -> (r: (
        ApplyRun,
        ApplyAction,
    ))
        requires
            is_run(self),
        ensures
            is_run(r.0),
            r.0.directories == self.directories,
            r.0.mode == self.mode,
            steps_to(
                self,
                *old(transaction),
                event,
                StepModel {
                    transaction: *final(transaction),
                    phase: r.0.phase,
                    returned: returned_by(r.1),
                },
            ),
            returned_by(r.1) is Some || is_pending(r.0, r.1),
    {
        let directories = self.directories;
        let mode = self.mode;
        let mut returned: Option<Option<ApplyError>> = None;
        let count: usize = directories.len();
        assert(count == directories@.len());
        let phase = match (self.phase, event) {
            (ApplyPhase::Opening, ApplyEvent::Journaled) => next_phase(0, count),
            (ApplyPhase::Opening, ApplyEvent::JournalFailed(text)) => {
                returned = Some(Some(ApplyError::Journal(text)));
                ApplyPhase::Finished
            },
            (ApplyPhase::Inspecting(i), ApplyEvent::Present) => next_phase(i + 1, count),
            (ApplyPhase::Inspecting(i), ApplyEvent::Missing) => ApplyPhase::Creating(i),
            (ApplyPhase::Inspecting(i), ApplyEvent::InspectFailed(text)) => {
                transaction.state = TransactionState::ApplyFailed;
                ApplyPhase::Failing(
                    directory_error(
                        "could not inspect directory ",
                        directories[i].as_str(),
                        text.as_str(),
                    ),
                )
            },
            (ApplyPhase::Creating(i), ApplyEvent::Created) => {
                transaction.created_directories.push(directories[i].clone());
                ApplyPhase::Recording(i)
            },
            (ApplyPhase::Creating(i), ApplyEvent::AlreadyThere) => next_phase(i + 1, count),
            (ApplyPhase::Creating(i), ApplyEvent::CreateFailed(text)) => {
                transaction.state = TransactionState::ApplyFailed;
                ApplyPhase::Failing(
                    directory_error(
                        "could not create directory ",
                        directories[i].as_str(),
                        text.as_str(),
                    ),
                )
            },
            (ApplyPhase::Recording(i), ApplyEvent::Journaled) => next_phase(i + 1, count),
            (ApplyPhase::Recording(_), ApplyEvent::JournalFailed(text)) => {
                transaction.state = TransactionState::ApplyFailed;
                ApplyPhase::Failing(ApplyError::Journal(text))
            },
            (ApplyPhase::Executing, ApplyEvent::Executed) => {
                returned = Some(None);
                ApplyPhase::Finished
            },
            (ApplyPhase::Executing, ApplyEvent::ExecuteFailed(error)) => {
                if transaction.state == TransactionState::Applying {
                    transaction.state = TransactionState::ApplyFailed;
                    ApplyPhase::Failing(error)
                } else {
                    returned = Some(Some(error));
                    ApplyPhase::Finished
                }
            },
            (ApplyPhase::Failing(error), ApplyEvent::Journaled) => {
                returned = Some(Some(error));
                ApplyPhase::Finished
            },
            (ApplyPhase::Failing(_), ApplyEvent::JournalFailed(text)) => {
                returned = Some(Some(ApplyError::Journal(text)));
                ApplyPhase::Finished
            },
            (phase, _) => phase,
        };
        let run = ApplyRun { directories, mode, phase };
        let action = match returned {
            Some(error) => ApplyAction::Return(error),
            None => run.pending(),
        };
        (run, action)
    }
}

fn next_phase(done: usize, count: usize) -> (r: ApplyPhase)
    ensures
        r == phase_after(done as int, count as int),
{
    if done < count {
        ApplyPhase::Inspecting(done)
    } else {
        ApplyPhase::Executing
    }
}

/// The set an entry moves with, if any.
pub fn set_label_of(entry: &TransactionEntry) -> (r: Option<String>)
    ensures
        r == entry.set_label,
{
    copy_opt(&entry.set_label)
}

/// The entry with index `i` was found unsafe to move.
pub open spec fn is_unsafe(flags: Seq<bool>, i: int) -> bool {
    0 <= i < flags.len() && flags[i]
}

/// The entry belongs to a set that has an unsafe member.
pub open spec fn is_held_back(entries: Seq<EntryModel>, flags: Seq<bool>, i: int) -> bool {
    &&& entries[i].set_label is Some
    &&& exists|j: int|
        0 <= j < entries.len() && #[trigger] is_unsafe(flags, j) && entries[j].set_label
            == entries[i].set_label
}

/// `path` is the source of an entry that the executor may move.
pub open spec fn is_released(
    entries: Seq<EntryModel>,
    flags: Seq<bool>,
    mode: HardConflictMode,
    path: Seq<char>,
) -> bool {
    exists|i: int|
        0 <= i < entries.len() && (#[trigger] entries[i]).source == path && (mode
            == HardConflictMode::AbortAll || !is_held_back(entries, flags, i))
}

fn held_back(entries: &Vec<TransactionEntry>, flags: &Vec<bool>, i: usize) -> (r: bool)
    requires
        i < entries@.len(),
    ensures
        r == is_held_back(entry_models(entries@), flags@, i as int),
{
    let ghost all = entry_models(entries@);
    assert(all[i as int] == entries@[i as int]@);
    if entries[i].set_label.is_none() {
        return false;
    }
    let mut j: usize = 0;
    while j < entries.len() && j < flags.len()
        invariant
            i < entries@.len(),
            j <= entries@.len(),
            j <= flags@.len(),
            all == entry_models(entries@),
            all[i as int].set_label is Some,
            forall|k: int|
                0 <= k < j ==> !(#[trigger] is_unsafe(flags@, k) && all[k].set_label
                    == all[i as int].set_label),
        decreases entries.len() - j,
    {
        assert(all[j as int] == entries@[j as int]@);
        assert(all[i as int] == entries@[i as int]@);
        assert(is_unsafe(flags@, j as int) == flags@[j as int]);
        if flags[j] && same_opt_text(&entries[j].set_label, &entries[i].set_label) {
            return true;
        }
        j = j + 1;
    }
    false
}

/// The source paths the executor may move. When the unsafe entries are to be
/// skipped, the whole set of an unsafe entry is held back, so that no set moves
/// in part.
pub fn approved_paths(
    entries: &Vec<TransactionEntry>,
    unsafe_entries: &Vec<bool>,
    mode: HardConflictMode,
) -> (r: TextSet)
    ensures
        forall|path: Seq<char>| #[trigger]
            r@.contains(path) <==> is_released(
                entry_models(entries@),
                unsafe_entries@,
                mode,
                path,
            ),
{
    let ghost all = entry_models(entries@);
    let mut r = TextSet::new();
    let mut i: usize = 0;
    while i < entries.len()
        invariant
            i <= entries@.len(),
            all == entry_models(entries@),
            forall|path: Seq<char>| #[trigger]
                r@.contains(path) <==> exists|k: int|
                    0 <= k < i && (#[trigger] all[k]).source == path && (mode
                        == HardConflictMode::AbortAll || !is_held_back(all, unsafe_entries@, k)),
        decreases entries.len() - i,
    {
        assert(all[i as int] == entries@[i as int]@);
        if mode == HardConflictMode::AbortAll || !held_back(entries, unsafe_entries, i) {
            r.insert(entries[i].source_path.as_str());
        }
        i = i + 1;
    }
    r
}

/// What was found at a directory of the batch, and what came of removing it.
#[derive(Debug, Clone, Copy, PartialEq, Eq, Structural)]
pub enum DirectoryFate {
    /// No directory stands there any more.
    NotADirectory,
    /// It holds something, or could not be read.
    Occupied,
    /// It is empty, and could not be removed.
    RemovalFailed,
    Removed,
}

/// What a rollback reports.
#[derive(Debug, Clone, PartialEq, Eq)]
pub struct PlanRollbackOutcome {
    pub rollback: RollbackOutcome,
    pub directories_removed: Vec<String>,
    pub directories_remaining: Vec<String>,
}

/// The directories of a batch in the order a rollback takes them: the last one
/// made goes first.
pub fn removal_order(transaction: &RenameTransaction) -> (r: Vec<String>)
    ensures
        r@ == transaction.created_directories@.reverse(),
{
    let ghost all = transaction.created_directories@;
    let mut r: Vec<String> = Vec::new();
    let mut i: usize = transaction.created_directories.len();
    assert(all.reverse().take(0) =~= r@);
    while i > 0
        invariant
            i <= all.len(),
            all == transaction.created_directories@,
            r@ == all.reverse().take(all.len() - i),
        decreases i,
    {
        i = i - 1;
        r.push(transaction.created_directories[i].clone());
        assert(all.reverse().take(all.len() - i) =~= all.reverse().take(
            all.len() - i - 1,
        ).push(all[i as int]));
    }
    assert(all.reverse().take(all.len() as int) =~= all.reverse());
    r
}

/// A directory that is still there after the rollback.
pub open spec fn is_left(fate: DirectoryFate) -> bool {
    fate == DirectoryFate::Occupied || fate == DirectoryFate::RemovalFailed
}

/// The paths whose fate is (or is not) removal, of those still or last there.
pub open spec fn with_fate(
    paths: Seq<String>,
    fates: Seq<DirectoryFate>,
    removed: bool,
) -> Seq<String>
    decreases paths.len(),
{
    if paths.len() == 0 {
        seq![]
    } else {
        let before = with_fate(paths.drop_last(), fates, removed);
        let fate = fates[paths.len() - 1];
        if (removed && fate == DirectoryFate::Removed) || (!removed && is_left(fate)) {
            before.push(paths.last())
        } else {
            before
        }
    }
}

/// What a rollback comes to, given the executor's own rollback of the moves and
/// the fates of the batch's directories in [`removal_order`].
pub fn rollback_plan_transaction(
    transaction: &RenameTransaction,
    rollback: RollbackOutcome,
    fates: &Vec<DirectoryFate>,
) -> (r: PlanRollbackOutcome)
    requires
        fates@.len() == transaction.created_directories@.len(),
    ensures
        r.rollback == rollback,
        r.directories_removed@ == with_fate(
            transaction.created_directories@.reverse(),
            fates@,
            true,
        ),
        r.directories_remaining@ == with_fate(
            transaction.created_directories@.reverse(),
            fates@,
            false,
        ),
{
    let order = removal_order(transaction);
    let mut directories_removed: Vec<String> = Vec::new();
    let mut directories_remaining: Vec<String> = Vec::new();
    let mut i: usize = 0;
    while i < order.len()
        invariant
            i <= order@.len(),
            fates@.len() == order@.len(),
            directories_removed@ == with_fate(order@.take(i as int), fates@, true),
            directories_remaining@ == with_fate(order@.take(i as int), fates@, false),
        decreases order.len() - i,
    {
        assert(order@.take(i + 1).drop_last() =~= order@.take(i as int));
        match fates[i] {
            DirectoryFate::Removed => directories_removed.push(order[i].clone()),
            DirectoryFate::Occupied => directories_remaining.push(order[i].clone()),
            DirectoryFate::RemovalFailed => directories_remaining.push(order[i].clone()),
            DirectoryFate::NotADirectory => {},
        }
        i = i + 1;
    }
    assert(order@.take(i as int) =~= order@);
    PlanRollbackOutcome { rollback, directories_removed, directories_remaining }
}

/// What can be done with a batch after a recovery.
#[derive(Debug, Clone, Copy, PartialEq, Eq, Structural)]
pub enum RecoveryAssessment {
    /// Nothing has moved.
    SafeToResume,
    /// Something has moved and can be moved back.
    SafeToRollback,
    AlreadyCommitted,
    AlreadyRolledBack,
    /// Something could not be settled and is left to a person.
    ManualRecoveryRequired,
}

/// A finding that leaves open where the file is.
pub open spec fn is_unresolved(kind: RecoveryIssueKind) -> bool {
    match kind {
        RecoveryIssueKind::BothSourceAndDestination => true,
        RecoveryIssueKind::BothAbsent => true,
        RecoveryIssueKind::DestinationIdentityChanged => true,
        RecoveryIssueKind::SourceIdentityChanged => true,
        _ => false,
    }
}

/// Some finding leaves open where a file is.
pub open spec fn some_unresolved(issues: Seq<RecoveryIssue>) -> bool {
    exists|i: int| 0 <= i < issues.len() && is_unresolved((#[trigger] issues[i]).kind)
}

/// The assessment: an open finding, or a batch still under way, needs a person;
/// otherwise the state decides, together with whether anything is applied.
pub open spec fn assessment(
    state: TransactionState,
    applied: bool,
    unresolved: bool,
) -> RecoveryAssessment {
    if unresolved || state == TransactionState::Applying || state
        == TransactionState::RollingBack {
        RecoveryAssessment::ManualRecoveryRequired
    } else if state == TransactionState::RolledBack {
        RecoveryAssessment::AlreadyRolledBack
    } else if state == TransactionState::Planned {
        RecoveryAssessment::SafeToResume
    } else if applied {
        RecoveryAssessment::SafeToRollback
    } else if state == TransactionState::Applied {
        RecoveryAssessment::AlreadyCommitted
    } else {
        RecoveryAssessment::SafeToResume
    }
}

/// The assessment of a batch and what a recovery found.
pub open spec fn recovery_of(
    transaction: RenameTransaction,
    issues: Seq<RecoveryIssue>,
) -> RecoveryAssessment {
    assessment(transaction.state, transaction.some_applied(), some_unresolved(issues))
}

/// Assesses a batch from its journal and what a recovery found.
pub fn assess_recovery(transaction: &RenameTransaction, issues: &[RecoveryIssue]) -> (r:
    RecoveryAssessment)
    ensures
        r == recovery_of(*transaction, issues@),
{
    let mut i: usize = 0;
    while i < issues.len()
        invariant
            i <= issues@.len(),
            forall|j: int| 0 <= j < i ==> !is_unresolved((#[trigger] issues@[j]).kind),
        decreases issues.len() - i,
    {
        match issues[i].kind {
            RecoveryIssueKind::BothSourceAndDestination
            | RecoveryIssueKind::BothAbsent
            | RecoveryIssueKind::DestinationIdentityChanged
            | RecoveryIssueKind::SourceIdentityChanged => {
                assert(is_unresolved(issues@[i as int].kind));
                return RecoveryAssessment::ManualRecoveryRequired;
            },
            _ => {},
        }
        i = i + 1;
    }
    match transaction.state {
        TransactionState::RolledBack => RecoveryAssessment::AlreadyRolledBack,
        TransactionState::Planned => RecoveryAssessment::SafeToResume,
        TransactionState::Applied => {
            if transaction.has_applied_entries() {
                RecoveryAssessment::SafeToRollback
            } else {
                RecoveryAssessment::AlreadyCommitted
            }
        },
        TransactionState::ApplyFailed | TransactionState::RollbackFailed => {
            if transaction.has_applied_entries() {
                RecoveryAssessment::SafeToRollback
            } else {
                RecoveryAssessment::SafeToResume
            }
        },
        TransactionState::Applying | TransactionState::RollingBack => {
            RecoveryAssessment::ManualRecoveryRequired
        },
    }
}

} // verus!
