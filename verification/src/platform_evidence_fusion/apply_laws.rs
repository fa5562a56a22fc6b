//! How a batch begins, what each answer leads to, and what it leaves.
use vstd::prelude::*;
use vstd::string::*;
use crate::dat::rename_apply::{
    count_applied, ApplyError, EntryModel, EntryState, HardConflictMode, RenameTransaction,
    TransactionEntry, TransactionState,
};
use crate::path::{components, parent, parent_is_shorter, parents_drop_the_last_component};
use crate::platform_evidence_fusion::plan_apply::{
    begins, chain, is_below, is_held_back, is_pending, is_released, is_run, is_unsafe,
    needed_directories, steps_to, with_fate, with_new_paths, ApplyAction, ApplyEvent, ApplyPhase,
    ApplyRun, DirectoryFate, StepModel,
};
use crate::platform_evidence_fusion::plan_transaction::names_one_of;

verus! {

/// A batch that was never taken back.
pub open spec fn may_begin(state: TransactionState) -> bool {
    match state {
        TransactionState::Planned => true,
        TransactionState::Applying => true,
        TransactionState::Applied => true,
        TransactionState::ApplyFailed => true,
        TransactionState::RollingBack => false,
        TransactionState::RolledBack => false,
        TransactionState::RollbackFailed => false,
    }
}

/// A batch begins exactly when the classifier is accepted, nobody cancelled, and
/// it was never taken back; each refusal says which of these failed first, and
/// changes nothing. What begins is marked as under way before anything is done,
/// and is otherwise as it was.
pub proof fn batches_begin_unless_refused(
    before: RenameTransaction,
    after: RenameTransaction,
    root: Seq<char>,
    version_check: Result<(), ApplyError>,
    cancelled: bool,
    mode: HardConflictMode,
    r: Result<ApplyRun, ApplyError>,
)
    requires
        begins(before, after, root, version_check, cancelled, mode, r),
    ensures
        r is Ok <==> version_check is Ok && !cancelled && may_begin(before.state),
        version_check matches Err(error) ==> r == Err::<ApplyRun, ApplyError>(error),
        version_check is Ok && cancelled ==> (r matches Err(error) && error
            == ApplyError::Cancelled),
        version_check is Ok && !cancelled && !may_begin(before.state) ==> (r matches Err(error)
            && (error matches ApplyError::AlreadySettled { transaction_id, state }
            && transaction_id@ == before.transaction_id@ && state == before.state)),
        r is Err ==> after == before,
        r matches Ok(run) ==> {
            &&& after.state == TransactionState::Applying
            &&& after.transaction_id == before.transaction_id
            &&& after.plan_generation == before.plan_generation
            &&& after.classifier_version == before.classifier_version
            &&& after.created_at_unix == before.created_at_unix
            &&& after.source_scan_root == before.source_scan_root
            &&& after.entries == before.entries
            &&& after.created_directories == before.created_directories
            &&& run.phase == ApplyPhase::Opening
            &&& run.mode == mode
        },
{
}

/// The directory is one on the way from below the root to the destination.
pub open spec fn leads_to(dir: Seq<char>, destination: Seq<char>, root: Seq<char>) -> bool {
    &&& components(root).is_prefix_of(components(dir))
    &&& components(root).len() < components(dir).len()
    &&& components(dir).is_prefix_of(components(destination))
    &&& components(dir).len() < components(destination).len()
}

proof fn below_is_longer(path: Seq<char>, root: Seq<char>)
    ensures
        is_below(path, root) <==> components(root).is_prefix_of(components(path)) && components(
            root,
        ).len() < components(path).len(),
{
    let a = components(path);
    let b = components(root);
    if is_below(path, root) {
        assert(a.subrange(0, b.len() as int) =~= a.take(b.len() as int));
        if a.len() == b.len() {
            assert(a.take(b.len() as int) =~= a);
        }
    }
    if b.is_prefix_of(a) {
        assert(a.subrange(0, b.len() as int) =~= b);
    }
}

proof fn chain_is_the_way(path: Seq<char>, root: Seq<char>)
    ensures
        forall|k: int|
            0 <= k < chain(path, root).len() ==> is_below(#[trigger] chain(path, root)[k], root)
                && components(chain(path, root)[k]).is_prefix_of(components(path)),
        forall|q: Seq<char>|
            is_below(q, root) && #[trigger] components(q).is_prefix_of(components(path))
                ==> names_one_of(chain(path, root), q),
    decreases path.len(),
{
    parent_is_shorter(path);
    parents_drop_the_last_component(path);
    below_is_longer(path, root);
    let all = chain(path, root);
    let own = components(path);
    if is_below(path, root) {
        let rest = match parent(path) {
            Some(p) => chain(p, root),
            None => seq![],
        };
        assert(all =~= rest.push(path));
        if let Some(p) = parent(path) {
            chain_is_the_way(p, root);
        }
        assert forall|k: int| 0 <= k < all.len() implies is_below(#[trigger] all[k], root)
            && components(all[k]).is_prefix_of(own) by {
            if k < rest.len() {
                let p = parent(path)->0;
                assert(all[k] == rest[k]);
                assert(components(rest[k]).is_prefix_of(components(p)));
                let n = components(rest[k]).len() as int;
                assert(own.take(n) =~= own.drop_last().take(n));
            } else {
                assert(own.take(own.len() as int) =~= own);
            }
        }
        assert forall|q: Seq<char>|
            is_below(q, root) && #[trigger] components(q).is_prefix_of(own) implies names_one_of(
            all,
            q,
        ) by {
            let n = components(q).len() as int;
            below_is_longer(q, root);
            if n == own.len() {
                assert(own.take(n) =~= own);
                assert(all[rest.len() as int] == path);
            } else {
                if parent(path) is None {
                    assert(own.len() <= 1);
                    assert(false);
                }
                let p = parent(path)->0;
                assert(own.take(n) =~= own.drop_last().take(n));
                assert(components(q).is_prefix_of(components(p)));
                assert(names_one_of(rest, q));
                let k = choose|k: int|
                    0 <= k < rest.len() && components(#[trigger] rest[k]) == components(q);
                assert(all[k] == rest[k]);
            }
        }
    } else {
        assert forall|q: Seq<char>|
            is_below(q, root) && #[trigger] components(q).is_prefix_of(own) implies names_one_of(
            all,
            q,
        ) by {
            below_is_longer(q, root);
            let n = components(root).len() as int;
            assert(components(q).take(n) =~= own.take(n));
        }
    }
}

proof fn new_paths_props(listed: Seq<Seq<char>>, more: Seq<Seq<char>>)
    ensures
        forall|k: int|
            0 <= k < with_new_paths(listed, more).len() ==> listed.contains(
                #[trigger] with_new_paths(listed, more)[k],
            ) || more.contains(with_new_paths(listed, more)[k]),
        forall|q: Seq<char>| #[trigger]
            names_one_of(with_new_paths(listed, more), q) <==> names_one_of(listed, q)
                || names_one_of(more, q),
    decreases more.len(),
{
    let now = with_new_paths(listed, more);
    if more.len() > 0 {
        let rest = more.drop_last();
        let last = more.last();
        let before = with_new_paths(listed, rest);
        new_paths_props(listed, rest);
        assert(more[more.len() - 1] == last);
        assert forall|k: int| 0 <= k < now.len() implies listed.contains(#[trigger] now[k])
            || more.contains(now[k]) by {
            if k < before.len() {
                assert(now[k] == before[k]);
                if rest.contains(before[k]) {
                    let i = choose|i: int| 0 <= i < rest.len() && rest[i] == before[k];
                    assert(more[i] == before[k]);
                }
            }
        }
        assert forall|q: Seq<char>| #[trigger] names_one_of(now, q) <==> names_one_of(listed, q)
            || names_one_of(more, q) by {
            assert(names_one_of(before, q) <==> names_one_of(listed, q) || names_one_of(rest, q));
            if names_one_of(rest, q) {
                let i = choose|i: int|
                    0 <= i < rest.len() && components(#[trigger] rest[i]) == components(q);
                assert(more[i] == rest[i]);
            }
            if names_one_of(more, q) && !names_one_of(rest, q) {
                let i = choose|i: int|
                    0 <= i < more.len() && components(#[trigger] more[i]) == components(q);
                if i < rest.len() {
                    assert(rest[i] == more[i]);
                }
                assert(components(last) == components(q));
                if names_one_of(before, last) {
                    let j = choose|j: int|
                        0 <= j < before.len() && components(#[trigger] before[j]) == components(
                            last,
                        );
                    assert(now[j] == before[j]);
                } else {
                    assert(now[before.len() as int] == last);
                }
            }
            if names_one_of(before, q) {
                let j = choose|j: int|
                    0 <= j < before.len() && components(#[trigger] before[j]) == components(q);
                assert(now[j] == before[j]);
            }
            if names_one_of(now, q) {
                let j = choose|j: int|
                    0 <= j < now.len() && components(#[trigger] now[j]) == components(q);
                if j < before.len() {
                    assert(before[j] == now[j]);
                } else {
                    assert(components(more[more.len() - 1]) == components(q));
                }
            }
        }
    } else {
        assert forall|k: int| 0 <= k < now.len() implies listed.contains(#[trigger] now[k])
            || more.contains(now[k]) by {
            assert(listed.contains(listed[k]));
        }
    }
}

/// Some destination lies beyond the directory.
pub open spec fn is_on_the_way(dir: Seq<char>, entries: Seq<EntryModel>, root: Seq<char>) -> bool {
    exists|i: int|
        0 <= i < entries.len() && leads_to(dir, (#[trigger] entries[i]).destination, root)
}

proof fn one_destination(path: Seq<char>, root: Seq<char>, dir: Seq<char>)
    ensures
        parent(path) matches Some(p) ==> (names_one_of(chain(p, root), dir) <==> leads_to(
            dir,
            path,
            root,
        )),
        parent(path) is None ==> !leads_to(dir, path, root),
{
    parents_drop_the_last_component(path);
    below_is_longer(dir, root);
    let own = components(path);
    let n = components(dir).len() as int;
    match parent(path) {
        Some(p) => {
            let all = chain(p, root);
            chain_is_the_way(p, root);
            if leads_to(dir, path, root) {
                assert(own.take(n) =~= own.drop_last().take(n));
                assert(components(dir).is_prefix_of(components(p)));
            }
            if names_one_of(all, dir) {
                let k = choose|k: int|
                    0 <= k < all.len() && components(#[trigger] all[k]) == components(dir);
                below_is_longer(all[k], root);
                assert(components(dir).is_prefix_of(components(p)));
                assert(own.len() > 0) by {
                    if own.len() == 0 {
                        assert(false);
                    }
                }
                assert(own.take(n) =~= own.drop_last().take(n));
            }
        },
        None => {},
    }
}

/// A batch makes exactly the directories on the way to its destinations: those
/// below the root that a destination lies beyond.
pub proof fn directories_are_on_the_way(
    entries: Seq<EntryModel>,
    root: Seq<char>,
    dir: Seq<char>,
)
    ensures
        names_one_of(needed_directories(entries, root), dir) <==> is_on_the_way(dir, entries, root),
    decreases entries.len(),
{
    let now = needed_directories(entries, root);
    if entries.len() > 0 {
        let rest = entries.drop_last();
        let last = entries.last();
        let before = needed_directories(rest, root);
        directories_are_on_the_way(rest, root, dir);
        one_destination(last.destination, root, dir);
        if let Some(p) = parent(last.destination) {
            new_paths_props(before, chain(p, root));
            assert(names_one_of(now, dir) <==> names_one_of(before, dir) || names_one_of(
                chain(p, root),
                dir,
            ));
        }
        assert(is_on_the_way(dir, entries, root) <==> is_on_the_way(dir, rest, root) || leads_to(
            dir,
            last.destination,
            root,
        )) by {
            assert(entries[entries.len() - 1] == last);
            if is_on_the_way(dir, rest, root) {
                let i = choose|i: int|
                    0 <= i < rest.len() && leads_to(dir, (#[trigger] rest[i]).destination, root);
                assert(entries[i] == rest[i]);
            }
            if is_on_the_way(dir, entries, root) {
                let i = choose|i: int|
                    0 <= i < entries.len() && leads_to(
                        dir,
                        (#[trigger] entries[i]).destination,
                        root,
                    );
                if i < rest.len() {
                    assert(rest[i] == entries[i]);
                }
            }
        }
    }
}

/// The run goes on with the directory after `i`, or with the executor when there
/// is none.
pub open spec fn goes_on_after(phase: ApplyPhase, run: ApplyRun, i: int) -> bool {
    if i + 1 < run.directories@.len() {
        phase == ApplyPhase::Inspecting((i + 1) as usize)
    } else {
        phase == ApplyPhase::Executing
    }
}

/// The batch has failed with the error, and the journal is told before the run
/// ends.
pub open spec fn is_failing(
    after: StepModel,
    before: RenameTransaction,
    text: Seq<char>,
) -> bool {
    &&& after.returned is None
    &&& after.transaction.state == TransactionState::ApplyFailed
    &&& after.transaction.created_directories == before.created_directories
    &&& after.phase matches ApplyPhase::Failing(error) && (error matches ApplyError::Journal(t)
        && t@ == text)
}

/// A directory that is there is left alone and one that is missing is made. What
/// was made is written down before the run goes on. A directory that cannot be
/// looked at or made, or written down, fails the batch with its name and reason.
pub proof fn directories_are_made_one_by_one(
    run: ApplyRun,
    before: RenameTransaction,
    event: ApplyEvent,
    after: StepModel,
)
    requires
        is_run(run),
        steps_to(run, before, event, after),
    ensures
        run.phase == ApplyPhase::Opening && event == ApplyEvent::Journaled ==> after.transaction
            == before && after.returned is None && goes_on_after(after.phase, run, -1),
        run.phase matches ApplyPhase::Inspecting(i) ==> {
            &&& event == ApplyEvent::Present ==> after.transaction == before && after.returned
                is None && goes_on_after(after.phase, run, i as int)
            &&& event == ApplyEvent::Missing ==> after.transaction == before && after.returned
                is None && after.phase == ApplyPhase::Creating(i)
            &&& event matches ApplyEvent::InspectFailed(why) ==> is_failing(
                after,
                before,
                "could not inspect directory "@ + run.directories@[i as int]@ + ": "@ + why@,
            )
        },
        run.phase matches ApplyPhase::Creating(i) ==> {
            &&& event == ApplyEvent::Created ==> after.returned is None && after.phase
                == ApplyPhase::Recording(i) && after.transaction.state == before.state
                && after.transaction.created_directories@ == before.created_directories@.push(
                run.directories@[i as int],
            )
            &&& event == ApplyEvent::AlreadyThere ==> after.transaction == before
                && after.returned is None && goes_on_after(after.phase, run, i as int)
            &&& event matches ApplyEvent::CreateFailed(why) ==> is_failing(
                after,
                before,
                "could not create directory "@ + run.directories@[i as int]@ + ": "@ + why@,
            )
        },
        run.phase matches ApplyPhase::Recording(i) ==> {
            &&& event == ApplyEvent::Journaled ==> after.transaction == before && after.returned
                is None && goes_on_after(after.phase, run, i as int)
            &&& event matches ApplyEvent::JournalFailed(why) ==> is_failing(after, before, why@)
        },
{
}

/// A run returns without an error only when the executor succeeded. It returns
/// the executor's error once the failure is written down, or at once if the
/// executor has already settled the batch; a journal that cannot be written ends
/// the run with its own error.
pub proof fn runs_end_with_what_went_wrong(
    run: ApplyRun,
    before: RenameTransaction,
    event: ApplyEvent,
    after: StepModel,
)
    requires
        is_run(run),
        steps_to(run, before, event, after),
    ensures
        after.returned == Some(None::<ApplyError>) <==> run.phase == ApplyPhase::Executing && event
            == ApplyEvent::Executed,
        run.phase == ApplyPhase::Opening ==> (event matches ApplyEvent::JournalFailed(why)
            ==> after.returned == Some(Some(ApplyError::Journal(why))) && after.transaction
            == before),
        run.phase == ApplyPhase::Executing ==> (event matches ApplyEvent::ExecuteFailed(error)
            ==> if before.state == TransactionState::Applying {
            after.phase == ApplyPhase::Failing(error) && after.transaction.state
                == TransactionState::ApplyFailed && after.returned is None
        } else {
            after.returned == Some(Some(error)) && after.transaction == before
        }),
        run.phase matches ApplyPhase::Failing(error) ==> {
            &&& event == ApplyEvent::Journaled ==> after.returned == Some(Some(error))
                && after.transaction == before
            &&& event matches ApplyEvent::JournalFailed(why) ==> after.returned == Some(
                Some(ApplyError::Journal(why)),
            ) && after.transaction == before
        },
        after.returned is Some ==> after.phase == ApplyPhase::Finished,
        run.phase == ApplyPhase::Finished ==> after.phase == ApplyPhase::Finished
            && after.returned is None && after.transaction == before,
{
}

/// The run waits for one thing at a time: the journal, a look at the next
/// directory, that directory, or the executor.
pub proof fn runs_wait_for_one_thing(run: ApplyRun, action: ApplyAction)
    requires
        is_pending(run, action),
    ensures
        action == ApplyAction::WriteJournal <==> run.phase == ApplyPhase::Opening
            || run.phase is Recording || run.phase is Failing,
        action is Inspect <==> run.phase is Inspecting,
        action matches ApplyAction::Inspect(path) ==> path
            == run.directories@[run.phase->Inspecting_0 as int],
        action is Create <==> run.phase is Creating,
        action matches ApplyAction::Create(path) ==> path
            == run.directories@[run.phase->Creating_0 as int],
        action == ApplyAction::Execute <==> run.phase == ApplyPhase::Executing,
        action == ApplyAction::Rest <==> run.phase == ApplyPhase::Finished,
        !(action is Return),
{
}

/// Some entry of the same set is unsafe.
pub open spec fn has_unsafe_partner(
    entries: Seq<EntryModel>,
    flags: Seq<bool>,
    i: int,
) -> bool {
    exists|j: int|
        0 <= j < entries.len() && j < flags.len() && #[trigger] flags[j]
            && entries[j].set_label is Some && entries[j].set_label == entries[i].set_label
}

/// When nothing may be wrong, every source is handed to the executor. When the
/// unsafe entries are to be skipped, a source is handed over exactly when some
/// entry that moves it has no unsafe partner in its set.
pub proof fn sources_are_released_set_by_set(
    entries: Seq<EntryModel>,
    flags: Seq<bool>,
    path: Seq<char>,
)
    ensures
        is_released(entries, flags, HardConflictMode::AbortAll, path) <==> exists|i: int|
            0 <= i < entries.len() && (#[trigger] entries[i]).source == path,
        is_released(entries, flags, HardConflictMode::SkipUnsafeSubset, path) <==> exists|i: int|
            0 <= i < entries.len() && (#[trigger] entries[i]).source == path
                && !has_unsafe_partner(entries, flags, i),
{
    assert forall|i: int| 0 <= i < entries.len() implies has_unsafe_partner(entries, flags, i)
        == #[trigger] is_held_back(entries, flags, i) by {
        if has_unsafe_partner(entries, flags, i) {
            let j = choose|j: int|
                0 <= j < entries.len() && j < flags.len() && #[trigger] flags[j]
                    && entries[j].set_label is Some && entries[j].set_label
                    == entries[i].set_label;
            assert(is_unsafe(flags, j));
        }
        if is_held_back(entries, flags, i) {
            let j = choose|j: int|
                0 <= j < entries.len() && #[trigger] is_unsafe(flags, j) && entries[j].set_label
                    == entries[i].set_label;
            assert(flags[j]);
        }
    }
    assert forall|i: int| 0 <= i < entries.len() implies has_unsafe_partner(entries, flags, i)
        == is_held_back(entries, flags, i) && (#[trigger] entries[i]).source
        == entries[i].source by {
    }
}

/// The directories with their fates.
pub open spec fn fated(
    paths: Seq<String>,
    fates: Seq<DirectoryFate>,
) -> Seq<(String, DirectoryFate)> {
    Seq::new(paths.len(), |i: int| (paths[i], fates[i]))
}

/// The paths of directories.
pub open spec fn paths_of(s: Seq<(String, DirectoryFate)>) -> Seq<String> {
    s.map_values(|d: (String, DirectoryFate)| d.0)
}

/// A rollback lists the directories that were removed, and those that still hold
/// something or could not be removed, each as often and in the order that it
/// came to them; one that was gone is in neither list.
pub proof fn rollbacks_list_directories_by_fate(paths: Seq<String>, fates: Seq<DirectoryFate>)
    requires
        paths.len() <= fates.len(),
    ensures
        with_fate(paths, fates, true) == paths_of(
            fated(paths, fates).filter(
                |d: (String, DirectoryFate)| d.1 == DirectoryFate::Removed,
            ),
        ),
        with_fate(paths, fates, false) == paths_of(
            fated(paths, fates).filter(
                |d: (String, DirectoryFate)|
                    d.1 == DirectoryFate::Occupied || d.1 == DirectoryFate::RemovalFailed,
            ),
        ),
    decreases paths.len(),
{
    reveal(Seq::filter);
    let gone = |d: (String, DirectoryFate)| d.1 == DirectoryFate::Removed;
    let left = |d: (String, DirectoryFate)|
        d.1 == DirectoryFate::Occupied || d.1 == DirectoryFate::RemovalFailed;
    let all = fated(paths, fates);
    if paths.len() > 0 {
        let rest = paths.drop_last();
        rollbacks_list_directories_by_fate(rest, fates);
        let before = fated(rest, fates);
        assert(all.drop_last() =~= before);
        let last = all.last();
        assert(last == (paths.last(), fates[paths.len() - 1]));
        assert(paths_of(before.filter(gone).push(last)) =~= paths_of(before.filter(gone)).push(
            last.0,
        ));
        assert(paths_of(before.filter(left).push(last)) =~= paths_of(before.filter(left)).push(
            last.0,
        ));
    } else {
        assert(paths_of(all.filter(gone)) =~= seq![]);
        assert(paths_of(all.filter(left)) =~= seq![]);
    }
}

/// The applied entries are counted one by one.
pub proof fn applied_entries_are_counted(entries: Seq<TransactionEntry>)
    ensures
        count_applied(entries) == entries.filter(
            |e: TransactionEntry| e.state == EntryState::Applied,
        ).len(),
    decreases entries.len(),
{
    reveal(Seq::filter);
    if entries.len() > 0 {
        applied_entries_are_counted(entries.drop_last());
    }
}

} // verus!
