//! Laws of carrying out a batch of moves and of taking it back.
use vstd::prelude::*;
use vstd::string::*;
use crate::dat::rename_apply::{
    ApplyError, EntryModel, EntryState, HardConflictMode, RecoveryIssue, RecoveryIssueKind,
    RenameTransaction, TransactionState,
};
use crate::path::{components, parent, parent_is_shorter};
use crate::platform_evidence_fusion::plan_apply::{
    begins, chain, is_below, is_held_back, is_left, is_released, is_run, is_settled, is_unresolved,
    needed_directories, recovery_of, steps_to, with_fate, with_new_paths, ApplyEvent, ApplyPhase,
    ApplyRun, DirectoryFate, RecoveryAssessment, StepModel,
};
use crate::platform_evidence_fusion::plan_transaction::names_one_of;

verus! {

/// Every listed directory below `root` comes after its parent, if that is below
/// `root` too; all lie below `root`; no two have the same path.
pub open spec fn is_creatable(listed: Seq<Seq<char>>, root: Seq<char>) -> bool {
    &&& forall|k: int| 0 <= k < listed.len() ==> is_below(#[trigger] listed[k], root)
    &&& forall|k: int|
        0 <= k < listed.len() ==> match parent(#[trigger] listed[k]) {
            Some(p) => is_below(p, root) ==> names_one_of(listed.take(k), p),
            None => true,
        }
    &&& forall|i: int, j: int|
        0 <= i < j < listed.len() ==> components(#[trigger] listed[i]) != components(
            #[trigger] listed[j],
        )
}

proof fn naming_grows(listed: Seq<Seq<char>>, more: Seq<Seq<char>>, path: Seq<char>)
    requires
        names_one_of(listed, path),
        more.len() >= listed.len(),
        more.take(listed.len() as int) == listed,
    ensures
        names_one_of(more, path),
{
    let i = choose|i: int|
        0 <= i < listed.len() && components(#[trigger] listed[i]) == components(path);
    assert(more.take(listed.len() as int)[i] == more[i]);
}

proof fn chain_is_creatable(listed: Seq<Seq<char>>, path: Seq<char>, root: Seq<char>)
    requires
        is_creatable(listed, root),
    ensures
        ({
            let now = with_new_paths(listed, chain(path, root));
            &&& is_creatable(now, root)
            &&& now.len() >= listed.len()
            &&& now.take(listed.len() as int) == listed
            &&& is_below(path, root) ==> names_one_of(now, path)
        }),
    decreases path.len(),
{
    parent_is_shorter(path);
    let steps = chain(path, root);
    let now = with_new_paths(listed, steps);
    if !is_below(path, root) {
        assert(now.take(listed.len() as int) =~= listed);
    } else {
        let rest = match parent(path) {
            Some(p) => chain(p, root),
            None => seq![],
        };
        let before = with_new_paths(listed, rest);
        assert(steps.drop_last() =~= rest);
        assert(steps.last() == path);
        match parent(path) {
            Some(p) => {
                chain_is_creatable(listed, p, root);
            },
            None => {
                assert(before.take(listed.len() as int) =~= listed);
            },
        }
        if !names_one_of(before, path) {
            assert(now == before.push(path));
            assert(now.take(listed.len() as int) =~= before.take(listed.len() as int));
            assert(now[before.len() as int] == path);
            assert forall|k: int| 0 <= k < now.len() implies match parent(#[trigger] now[k]) {
                Some(p) => is_below(p, root) ==> names_one_of(now.take(k), p),
                None => true,
            } by {
                if k < before.len() {
                    assert(now[k] == before[k]);
                    assert(now.take(k) =~= before.take(k));
                } else {
                    assert(now.take(k) =~= before);
                }
            }
            assert forall|i: int, j: int| 0 <= i < j < now.len() implies components(
                #[trigger] now[i],
            ) != components(#[trigger] now[j]) by {
                assert(now[i] == before[i]);
                if j < before.len() {
                    assert(now[j] == before[j]);
                }
            }
        }
    }
}

/// The directories a batch needs lie below the root, no two of them are the
/// same, and each comes after its parent; and every destination's parent below
/// the root is among them.
pub proof fn directories_can_be_made_in_order(entries: Seq<EntryModel>, root: Seq<char>)
    ensures
        is_creatable(needed_directories(entries, root), root),
        forall|i: int|
            0 <= i < entries.len() ==> match parent((#[trigger] entries[i]).destination) {
                Some(p) => is_below(p, root) ==> names_one_of(needed_directories(entries, root), p),
                None => true,
            },
    decreases entries.len(),
{
    if entries.len() > 0 {
        let rest = entries.drop_last();
        let before = needed_directories(rest, root);
        let now = needed_directories(entries, root);
        directories_can_be_made_in_order(rest, root);
        match parent(entries.last().destination) {
            Some(p) => {
                chain_is_creatable(before, p, root);
            },
            None => {
                assert(now.take(before.len() as int) =~= before);
            },
        }
        assert forall|i: int| 0 <= i < entries.len() implies match parent(
            (#[trigger] entries[i]).destination,
        ) {
            Some(p) => is_below(p, root) ==> names_one_of(now, p),
            None => true,
        } by {
            if i < rest.len() {
                assert(rest[i] == entries[i]);
                match parent(rest[i].destination) {
                    Some(p) => {
                        if is_below(p, root) {
                            naming_grows(before, now, p);
                        }
                    },
                    None => {},
                }
            }
        }
    }
}

/// A batch that a rollback has begun or ended on is refused and left as it is.
pub proof fn settled_batches_are_refused(
    before: RenameTransaction,
    after: RenameTransaction,
    root: Seq<char>,
    version_check: Result<(), ApplyError>,
    cancelled: bool,
    mode: HardConflictMode,
    r: Result<ApplyRun, ApplyError>,
)
    requires
        is_settled(before.state),
        begins(before, after, root, version_check, cancelled, mode, r),
    ensures
        r is Err,
        after == before,
{
}

/// A step never changes an entry, nor what the batch was made from. It records
/// a directory as the batch's own only on hearing that making it succeeded, and
/// asks for the journal to be written next; and it leaves the state as it is but
/// for a failure.
pub proof fn ownership_follows_creation(
    run: ApplyRun,
    before: RenameTransaction,
    event: ApplyEvent,
    after: StepModel,
)
    requires
        is_run(run),
        steps_to(run, before, event, after),
    ensures
        after.transaction.entries == before.entries,
        after.transaction.transaction_id == before.transaction_id,
        after.transaction.plan_generation == before.plan_generation,
        after.transaction.state == before.state || (after.transaction.state
            == TransactionState::ApplyFailed && after.phase is Failing),
        after.transaction.created_directories@ == before.created_directories@ || {
            &&& event == ApplyEvent::Created
            &&& run.phase is Creating
            &&& after.transaction.created_directories@ == before.created_directories@.push(
                run.directories@[run.phase->Creating_0 as int],
            )
            &&& after.phase == ApplyPhase::Recording(run.phase->Creating_0)
        },
{
}

/// `picked` are some of the first `n` directories, in their order.
pub open spec fn is_pick(picked: Seq<String>, directories: Seq<String>, n: int) -> bool
    decreases picked.len(),
{
    picked.len() == 0 || exists|m: int|
        0 <= m < n && m < directories.len() && picked.last() == #[trigger] directories[m]
            && is_pick(picked.drop_last(), directories, m)
}

/// How many directories have been dealt with.
pub open spec fn progress(run: ApplyRun) -> int {
    match run.phase {
        ApplyPhase::Opening => 0,
        ApplyPhase::Inspecting(i) => i as int,
        ApplyPhase::Creating(i) => i as int,
        ApplyPhase::Recording(i) => i + 1,
        _ => run.directories@.len() as int,
    }
}

/// The directories recorded since `start` are some of those dealt with, each
/// once and in order.
pub open spec fn owns_in_order(run: ApplyRun, start: Seq<String>, owned: Seq<String>) -> bool {
    &&& owned.len() >= start.len()
    &&& owned.take(start.len() as int) == start
    &&& is_pick(owned.skip(start.len() as int), run.directories@, progress(run))
}

proof fn pick_grows(picked: Seq<String>, directories: Seq<String>, n: int, more: int)
    requires
        is_pick(picked, directories, n),
        n <= more,
    ensures
        is_pick(picked, directories, more),
{
    if picked.len() > 0 {
        let m = choose|m: int|
            0 <= m < n && m < directories.len() && picked.last() == #[trigger] directories[m]
                && is_pick(picked.drop_last(), directories, m);
        assert(directories[m] == picked.last());
    }
}

/// Every step keeps it that the recorded directories are some of those dealt
/// with, each once and in order: so a parent is recorded before its child, and
/// a rollback, which goes backwards, takes the child first.
pub proof fn steps_keep_ownership_in_order(
    run: ApplyRun,
    start: Seq<String>,
    before: RenameTransaction,
    event: ApplyEvent,
    after: StepModel,
)
    requires
        is_run(run),
        steps_to(run, before, event, after),
        owns_in_order(run, start, before.created_directories@),
    ensures
        owns_in_order(
            ApplyRun { directories: run.directories, mode: run.mode, phase: after.phase },
            start,
            after.transaction.created_directories@,
        ),
{
    ownership_follows_creation(run, before, event, after);
    let next = ApplyRun { directories: run.directories, mode: run.mode, phase: after.phase };
    let owned = before.created_directories@;
    let now = after.transaction.created_directories@;
    let n = start.len() as int;
    if now == owned {
        assert(run.directories.len() == run.directories@.len());
        assert(progress(run) <= progress(next));
        pick_grows(owned.skip(n), run.directories@, progress(run), progress(next));
    } else {
        let i = run.phase->Creating_0 as int;
        assert(now.take(n) =~= owned.take(n));
        assert(now.skip(n) =~= owned.skip(n).push(run.directories@[i]));
        assert(now.skip(n).drop_last() =~= owned.skip(n));
        assert(now.skip(n).last() == run.directories@[i]);
        assert(is_pick(now.skip(n), run.directories@, i + 1));
    }
}

/// The executor is asked for only once the journal has been written and every
/// directory has been dealt with; and a run that fails never asks for it again.
pub proof fn the_executor_runs_last(
    run: ApplyRun,
    before: RenameTransaction,
    event: ApplyEvent,
    after: StepModel,
)
    requires
        is_run(run),
        steps_to(run, before, event, after),
        after.phase == ApplyPhase::Executing,
        run.phase != ApplyPhase::Executing,
    ensures
        run.phase == ApplyPhase::Opening || run.phase is Inspecting || run.phase is Creating
            || run.phase is Recording,
        run.phase == ApplyPhase::Opening ==> event == ApplyEvent::Journaled
            && run.directories@.len() == 0,
        run.phase matches ApplyPhase::Inspecting(i) ==> i + 1 == run.directories@.len(),
        run.phase matches ApplyPhase::Creating(i) ==> i + 1 == run.directories@.len(),
        run.phase matches ApplyPhase::Recording(i) ==> i + 1 == run.directories@.len(),
{
}

/// When unsafe entries are skipped, the entries of one set are released
/// together or held back together, and an entry without a set is never held
/// back for another.
pub proof fn sets_move_together(entries: Seq<EntryModel>, flags: Seq<bool>, i: int, j: int)
    requires
        0 <= i < entries.len(),
        0 <= j < entries.len(),
    ensures
        entries[i].set_label is Some && entries[i].set_label == entries[j].set_label
            ==> is_held_back(entries, flags, i) == is_held_back(entries, flags, j),
        entries[i].set_label is None ==> !is_held_back(entries, flags, i),
        entries[i].set_label is None ==> is_released(
            entries,
            flags,
            HardConflictMode::SkipUnsafeSubset,
            entries[i].source,
        ),
{
}

/// `path` is the directory of some fate.
pub open spec fn has_fate(
    paths: Seq<String>,
    fates: Seq<DirectoryFate>,
    removed: bool,
    path: String,
) -> bool {
    exists|i: int|
        0 <= i < paths.len() && #[trigger] paths[i] == path && (if removed {
            fates[i] == DirectoryFate::Removed
        } else {
            is_left(fates[i])
        })
}

/// A rollback reports as removed exactly the directories that were removed, and
/// as remaining exactly those that are still there.
pub proof fn directories_are_accounted_for(
    paths: Seq<String>,
    fates: Seq<DirectoryFate>,
    removed: bool,
)
    requires
        paths.len() <= fates.len(),
    ensures
        forall|path: String| #[trigger]
            with_fate(paths, fates, removed).contains(path) <==> has_fate(
                paths,
                fates,
                removed,
                path,
            ),
    decreases paths.len(),
{
    let all = with_fate(paths, fates, removed);
    if paths.len() > 0 {
        let rest = paths.drop_last();
        let n = paths.len() - 1;
        let before = with_fate(rest, fates, removed);
        directories_are_accounted_for(rest, fates, removed);
        assert forall|path: String| #[trigger] all.contains(path) <==> has_fate(
            paths,
            fates,
            removed,
            path,
        ) by {
            if all.contains(path) {
                let k = choose|k: int| 0 <= k < all.len() && all[k] == path;
                if k < before.len() {
                    assert(before[k] == path);
                    assert(before.contains(path));
                    let i = choose|i: int|
                        0 <= i < rest.len() && #[trigger] rest[i] == path && (if removed {
                            fates[i] == DirectoryFate::Removed
                        } else {
                            is_left(fates[i])
                        });
                    assert(paths[i] == path);
                } else {
                    assert(paths[n] == path);
                }
            }
            if has_fate(paths, fates, removed, path) {
                let i = choose|i: int|
                    0 <= i < paths.len() && #[trigger] paths[i] == path && (if removed {
                        fates[i] == DirectoryFate::Removed
                    } else {
                        is_left(fates[i])
                    });
                if i < n {
                    assert(rest[i] == path);
                    assert(before.contains(path));
                    let k = choose|k: int| 0 <= k < before.len() && before[k] == path;
                    assert(all[k] == path);
                } else {
                    assert(all[before.len() as int] == path);
                }
            }
        }
    }
}

/// When every directory a batch made was empty and went, a rollback reports all
/// of them as removed, in the order they were taken, and none as remaining; and
/// when none of them stands there any more, as after a rollback, it reports
/// nothing.
pub proof fn clean_rollbacks_remove_all_and_then_nothing(
    paths: Seq<String>,
    fates: Seq<DirectoryFate>,
)
    requires
        paths.len() == fates.len(),
    ensures
        (forall|i: int| 0 <= i < fates.len() ==> #[trigger] fates[i] == DirectoryFate::Removed)
            ==> with_fate(paths, fates, true) == paths && with_fate(paths, fates, false).len()
            == 0,
        (forall|i: int|
            0 <= i < fates.len() ==> #[trigger] fates[i] == DirectoryFate::NotADirectory)
            ==> with_fate(paths, fates, true).len() == 0 && with_fate(paths, fates, false).len()
            == 0,
{
    clean_prefix(paths, fates);
}

proof fn clean_prefix(paths: Seq<String>, fates: Seq<DirectoryFate>)
    requires
        paths.len() <= fates.len(),
    ensures
        (forall|i: int| 0 <= i < fates.len() ==> #[trigger] fates[i] == DirectoryFate::Removed)
            ==> with_fate(paths, fates, true) == paths && with_fate(paths, fates, false).len()
            == 0,
        (forall|i: int|
            0 <= i < fates.len() ==> #[trigger] fates[i] == DirectoryFate::NotADirectory)
            ==> with_fate(paths, fates, true).len() == 0 && with_fate(paths, fates, false).len()
            == 0,
    decreases paths.len(),
{
    if paths.len() > 0 {
        clean_prefix(paths.drop_last(), fates);
        assert(paths =~= paths.drop_last().push(paths.last()));
        let last = fates[paths.len() - 1];
        assert(last == fates[paths.len() - 1]);
    } else {
        assert(with_fate(paths, fates, true) =~= paths);
    }
}

/// The finding leaves open where a file is: it stands at both places or at
/// neither, or what stands there is another file.
pub open spec fn leaves_open(issue: RecoveryIssue) -> bool {
    ||| issue.kind == RecoveryIssueKind::BothSourceAndDestination
    ||| issue.kind == RecoveryIssueKind::BothAbsent
    ||| issue.kind == RecoveryIssueKind::DestinationIdentityChanged
    ||| issue.kind == RecoveryIssueKind::SourceIdentityChanged
}

/// Whatever the state of a batch, one finding that leaves open where a file is
/// leaves the batch to a person.
pub proof fn open_findings_need_a_person(
    transaction: RenameTransaction,
    issues: Seq<RecoveryIssue>,
    i: int,
)
    requires
        0 <= i < issues.len(),
        leaves_open(issues[i]),
    ensures
        recovery_of(transaction, issues) == RecoveryAssessment::ManualRecoveryRequired,
{
    assert(is_unresolved(issues[i].kind));
}

/// Without such a finding the state decides: a batch still under way is left to
/// a person, one that was rolled back is done, and one that never began can be
/// resumed. Of the others one with an applied entry can be rolled back; one
/// without is done if it was applied, and can be resumed if it failed.
pub proof fn settled_findings_go_by_state(
    transaction: RenameTransaction,
    issues: Seq<RecoveryIssue>,
)
    requires
        forall|i: int| 0 <= i < issues.len() ==> !leaves_open(#[trigger] issues[i]),
    ensures
        ({
            let applied = exists|k: int|
                0 <= k < transaction.entries@.len() && (#[trigger] transaction.entries@[k]).state
                    == EntryState::Applied;
            recovery_of(transaction, issues) == match transaction.state {
                TransactionState::Planned => RecoveryAssessment::SafeToResume,
                TransactionState::Applying => RecoveryAssessment::ManualRecoveryRequired,
                TransactionState::RollingBack => RecoveryAssessment::ManualRecoveryRequired,
                TransactionState::RolledBack => RecoveryAssessment::AlreadyRolledBack,
                TransactionState::Applied => if applied {
                    RecoveryAssessment::SafeToRollback
                } else {
                    RecoveryAssessment::AlreadyCommitted
                },
                TransactionState::ApplyFailed => if applied {
                    RecoveryAssessment::SafeToRollback
                } else {
                    RecoveryAssessment::SafeToResume
                },
                TransactionState::RollbackFailed => if applied {
                    RecoveryAssessment::SafeToRollback
                } else {
                    RecoveryAssessment::SafeToResume
                },
            }
        }),
{
    assert forall|i: int| 0 <= i < issues.len() implies !is_unresolved(
        (#[trigger] issues[i]).kind,
    ) by {
        assert(!leaves_open(issues[i]));
    }
}

} // verus!
