//! Runs on a workspace: what is recorded while they last, and how they end.

use crate::run_id::{hyphenated, RunId};
use crate::versioned_fs::diff::{change_views, diff_entries, WorkspaceChange};
use crate::versioned_fs::entry::{entry_view, EntryView};
use crate::versioned_fs::error::FsError;
use crate::versioned_fs::journal::{event_views, journal_events, WorkspaceJournalEvent};
use crate::versioned_fs::operation::{append_event, WorkspaceOperation, WorkspaceOperationEvent};
use crate::versioned_fs::session::{
    after_run_message, before_run_message, changed_files, count_changed_files, operation_after_message, operation_base_message,
    OperationJournal, RunEnd, RunFinish, VersionedRunSession, WorkspaceOperationRecorder, WorkspaceOperationRecorderOutcome,
    WorkspaceTransaction,
};
use crate::versioned_fs::store::{
    store_action_views, JournalFiles, StoreAction, WorkspaceCheckpoint, WorkspaceStore,
};
use vstd::prelude::*;

verus! {

/// The messages of checkpoints name the run, and when in it they were taken.
pub proof fn messages_name_the_run(run_id: RunId, first: String, last: String, base: String, after: String)
    requires
        call_ensures(before_run_message, (run_id,), first),
        call_ensures(after_run_message, (run_id,), last),
        call_ensures(operation_base_message, (run_id,), base),
        call_ensures(operation_after_message, (run_id,), after),
    ensures
        first@ == "before run "@ + hyphenated(run_id.value),
        last@ == "after run "@ + hyphenated(run_id.value),
        base@ == "operation base "@ + hyphenated(run_id.value),
        after@ == "operation after "@ + hyphenated(run_id.value),
{
}

/// A change of a file counts, one of directories alone does not.
pub proof fn changed_files_are_counted(
    fewer: Vec<WorkspaceChange>,
    c: WorkspaceChange,
    changes: Vec<WorkspaceChange>,
    first: usize,
    n: usize,
)
    requires
        changes@ == fewer@.push(c),
        call_ensures(count_changed_files, (&fewer,), first),
        call_ensures(count_changed_files, (&changes,), n),
    ensures
        fewer@.len() == 0 ==> first == 0,
        ({
            let file = match (entry_view(c.before), entry_view(c.after)) {
                (Some(EntryView::File { .. }), _) => true,
                (_, Some(EntryView::File { .. })) => true,
                _ => false,
            };
            n == first + (if file {
                1int
            } else {
                0int
            })
        }),
{
    let a = change_views(fewer@);
    let b = change_views(changes@);
    let k = fewer@.len() as int;
    assert forall|i: int| 0 <= i < k implies #[trigger] a[i] == b[i] by {
        assert(changes@[i] == fewer@[i]);
    }
    assert(b[k] == c@);
    lemma_same_count(a, b, k);
    assert(c@.before == entry_view(c.before) && c@.after == entry_view(c.after));
}

proof fn lemma_same_count(a: Seq<crate::versioned_fs::diff::ChangeView>, b: Seq<crate::versioned_fs::diff::ChangeView>, n: int)
    requires
        n <= a.len(),
        n <= b.len(),
        forall|i: int| 0 <= i < n ==> #[trigger] a[i] == b[i],
    ensures
        changed_files(a, n) == changed_files(b, n),
    decreases n,
{
    if n > 0 {
        lemma_same_count(a, b, n - 1);
        assert(a[n - 1] == b[n - 1]);
    }
}

/// A run ends with the journal of what it changed. It is committed exactly
/// where its command succeeded and that was asked for, and rolled back exactly
/// where its command failed and that was asked for; else nothing is done.
pub proof fn a_run_ends_as_was_asked(
    s: WorkspaceStore,
    session: VersionedRunSession,
    end: RunFinish,
    result: RunEnd,
    changes: Vec<WorkspaceChange>,
    n: usize,
    run: &str,
    open: String,
    compacted: String,
)
    requires
        end.wf(),
        call_ensures(WorkspaceStore::finish_run, (&s, session, &end), result),
        call_ensures(diff_entries, (&end.before.entries, &end.after.entries), changes),
        call_ensures(count_changed_files, (&changes,), n),
        run@ == hyphenated(end.run_id.value),
        call_ensures(WorkspaceStore::journal_path, (&s, run), open),
        call_ensures(WorkspaceStore::compacted_journal_path, (&s, run), compacted),
    ensures
        ({
            let out = result.outcome;
            let committed = end.command_succeeded && end.commit_on_success;
            let undone = !end.command_succeeded && end.rollback_on_failure;
            &&& change_views(out.changes@) == change_views(changes@)
            &&& out.changed_files == n
            &&& result.journal@.len() == changes@.len()
            &&& out.workspace@ == s.root@
            &&& out.checkpoint_before@ == session.checkpoint_before@ && out.checkpoint_after@ == end.after.checkpoint_id@
            &&& out.committed <==> committed
            &&& out.rolled_back <==> undone
            &&& out.rollback is Some <==> undone
            &&& committed ==> out.journal_path@ == compacted@
            &&& !committed ==> out.journal_path@ == open@ && result.store_actions@.len() == 0
            &&& !undone ==> result.actions@.len() == 0
            &&& out.rollback matches Some(report) ==> report.checkpoint_id@ == end.before.checkpoint_id@
        }),
{
    assert(change_views(changes@).len() == changes@.len());
    assert(event_views(result.journal@).len() == result.journal@.len());
    assert(store_action_views(result.store_actions@).len() == result.store_actions@.len());
}

/// A run that is committed is committed as its checkpoint is, with its journal
/// still open; what it journals is the diff between its checkpoints.
pub proof fn a_run_is_committed_as_its_checkpoint(
    s: WorkspaceStore,
    session: VersionedRunSession,
    end: RunFinish,
    result: RunEnd,
    id: &str,
    commit: Result<Vec<StoreAction>, FsError>,
    diff: crate::versioned_fs::diff::WorkspaceDiff,
    stamps: &[u128],
    events: Vec<WorkspaceJournalEvent>,
)
    requires
        end.wf(),
        call_ensures(WorkspaceStore::finish_run, (&s, session, &end), result),
        id@ == end.after.checkpoint_id@,
        call_ensures(
            WorkspaceStore::commit,
            (&s, id, Some(&end.after), JournalFiles { active: true, compacted: end.compacted_journal }, end.operations),
            commit,
        ),
        call_ensures(WorkspaceStore::diff_checkpoints, (&s, &end.before, &end.after), diff),
        stamps@ == end.stamps@,
        call_ensures(journal_events, (end.run_id, &diff, stamps), events),
    ensures
        event_views(result.journal@) == event_views(events@),
        result.outcome.committed ==> (commit matches Ok(list) && store_action_views(list@) == store_action_views(result.store_actions@)),
{
    assert(end.stamps@ == stamps@);
}

/// A transaction carries the run and the checkpoint before it; it can be
/// finished once, and then as the run is.
pub proof fn a_transaction_is_finished_once(
    store: WorkspaceStore,
    run_id: RunId,
    first: WorkspaceCheckpoint,
    t: WorkspaceTransaction,
    open: WorkspaceTransaction,
    end: RunFinish,
    result: Result<RunEnd, FsError>,
    parts: Result<(WorkspaceStore, VersionedRunSession, RunId), FsError>,
)
    requires
        call_ensures(WorkspaceTransaction::begin, (store, run_id, &first), open),
        call_ensures(WorkspaceTransaction::finish, (t, &end), result),
        call_ensures(WorkspaceTransaction::into_parts, (t,), parts),
    ensures
        open.run_id == run_id && open.store == store,
        open.session matches Some(s) && s.checkpoint_before@ == first.checkpoint_id@ && s.workspace@ == store.root@,
        t.session is None ==> (result matches Err(e) && e is AlreadyFinished) && (parts matches Err(e) && e is AlreadyFinished),
        t.session matches Some(s) ==> result is Ok && (parts matches Ok(p) && p.0 == t.store && p.1 == s && p.2 == t.run_id),
        t.session is Some ==> (result matches Ok(r) && {
            &&& r.outcome.committed <==> end.command_succeeded && end.commit_on_success
            &&& r.outcome.rolled_back <==> !end.command_succeeded && end.rollback_on_failure
            &&& r.outcome.checkpoint_before@ == t.session->0.checkpoint_before@
        }),
{
}

/// Recording the creation of a file appends that operation to the journal, or leaves it as it was.
pub proof fn recording_create_file(
    r: WorkspaceOperationRecorder,
    journal: &mut OperationJournal,
    path: String,
    ts: u128,
    base: String,
    existing: &[WorkspaceOperationEvent],
    expected: Result<WorkspaceOperationEvent, FsError>,
    result: Result<WorkspaceOperationEvent, FsError>,
)
    requires
        base@ == r.base_checkpoint@,
        existing@ == old(journal).events@,
        call_ensures(append_event, (r.run_id, base, WorkspaceOperation::CreateFile { path }, old(journal).compacted, existing, ts), expected),
        call_ensures(WorkspaceOperationRecorder::record_create_file, (&r, journal, path, ts), result),
    ensures
        final(journal).compacted == old(journal).compacted,
        match (expected, result) {
            (Ok(a), Ok(b)) => a@ == b@ && final(journal).events@ == old(journal).events@.push(b),
            (Err(a), Err(b)) => a@ == b@ && final(journal).events@ == old(journal).events@,
            _ => false,
        },
{
}

/// Recording the creation of a directory appends that operation to the journal, or leaves it as it was.
pub proof fn recording_create_dir(
    r: WorkspaceOperationRecorder,
    journal: &mut OperationJournal,
    path: String,
    ts: u128,
    base: String,
    existing: &[WorkspaceOperationEvent],
    expected: Result<WorkspaceOperationEvent, FsError>,
    result: Result<WorkspaceOperationEvent, FsError>,
)
    requires
        base@ == r.base_checkpoint@,
        existing@ == old(journal).events@,
        call_ensures(append_event, (r.run_id, base, WorkspaceOperation::CreateDir { path }, old(journal).compacted, existing, ts), expected),
        call_ensures(WorkspaceOperationRecorder::record_create_dir, (&r, journal, path, ts), result),
    ensures
        final(journal).compacted == old(journal).compacted,
        match (expected, result) {
            (Ok(a), Ok(b)) => a@ == b@ && final(journal).events@ == old(journal).events@.push(b),
            (Err(a), Err(b)) => a@ == b@ && final(journal).events@ == old(journal).events@,
            _ => false,
        },
{
}

/// Recording a new length appends that operation to the journal, or leaves it as it was.
pub proof fn recording_truncate(
    r: WorkspaceOperationRecorder,
    journal: &mut OperationJournal,
    path: String, len: u64,
    ts: u128,
    base: String,
    existing: &[WorkspaceOperationEvent],
    expected: Result<WorkspaceOperationEvent, FsError>,
    result: Result<WorkspaceOperationEvent, FsError>,
)
    requires
        base@ == r.base_checkpoint@,
        existing@ == old(journal).events@,
        call_ensures(append_event, (r.run_id, base, WorkspaceOperation::Truncate { path, len }, old(journal).compacted, existing, ts), expected),
        call_ensures(WorkspaceOperationRecorder::record_truncate, (&r, journal, path, len, ts), result),
    ensures
        final(journal).compacted == old(journal).compacted,
        match (expected, result) {
            (Ok(a), Ok(b)) => a@ == b@ && final(journal).events@ == old(journal).events@.push(b),
            (Err(a), Err(b)) => a@ == b@ && final(journal).events@ == old(journal).events@,
            _ => false,
        },
{
}

/// Recording a deletion appends that operation to the journal, or leaves it as it was.
pub proof fn recording_delete_path(
    r: WorkspaceOperationRecorder,
    journal: &mut OperationJournal,
    path: String,
    ts: u128,
    base: String,
    existing: &[WorkspaceOperationEvent],
    expected: Result<WorkspaceOperationEvent, FsError>,
    result: Result<WorkspaceOperationEvent, FsError>,
)
    requires
        base@ == r.base_checkpoint@,
        existing@ == old(journal).events@,
        call_ensures(append_event, (r.run_id, base, WorkspaceOperation::DeletePath { path }, old(journal).compacted, existing, ts), expected),
        call_ensures(WorkspaceOperationRecorder::record_delete_path, (&r, journal, path, ts), result),
    ensures
        final(journal).compacted == old(journal).compacted,
        match (expected, result) {
            (Ok(a), Ok(b)) => a@ == b@ && final(journal).events@ == old(journal).events@.push(b),
            (Err(a), Err(b)) => a@ == b@ && final(journal).events@ == old(journal).events@,
            _ => false,
        },
{
}

/// Recording a rename appends that operation to the journal, or leaves it as it was.
pub proof fn recording_rename_path(
    r: WorkspaceOperationRecorder,
    journal: &mut OperationJournal,
    source_path: String, path: String,
    ts: u128,
    base: String,
    existing: &[WorkspaceOperationEvent],
    expected: Result<WorkspaceOperationEvent, FsError>,
    result: Result<WorkspaceOperationEvent, FsError>,
)
    requires
        base@ == r.base_checkpoint@,
        existing@ == old(journal).events@,
        call_ensures(append_event, (r.run_id, base, WorkspaceOperation::RenamePath { source_path, path }, old(journal).compacted, existing, ts), expected),
        call_ensures(WorkspaceOperationRecorder::record_rename_path, (&r, journal, source_path, path, ts), result),
    ensures
        final(journal).compacted == old(journal).compacted,
        match (expected, result) {
            (Ok(a), Ok(b)) => a@ == b@ && final(journal).events@ == old(journal).events@.push(b),
            (Err(a), Err(b)) => a@ == b@ && final(journal).events@ == old(journal).events@,
            _ => false,
        },
{
}

/// Recording a permission appends that operation to the journal, or leaves it as it was.
pub proof fn recording_chmod(
    r: WorkspaceOperationRecorder,
    journal: &mut OperationJournal,
    path: String, readonly: bool,
    ts: u128,
    base: String,
    existing: &[WorkspaceOperationEvent],
    expected: Result<WorkspaceOperationEvent, FsError>,
    result: Result<WorkspaceOperationEvent, FsError>,
)
    requires
        base@ == r.base_checkpoint@,
        existing@ == old(journal).events@,
        call_ensures(append_event, (r.run_id, base, WorkspaceOperation::Chmod { path, readonly }, old(journal).compacted, existing, ts), expected),
        call_ensures(WorkspaceOperationRecorder::record_chmod, (&r, journal, path, readonly, ts), result),
    ensures
        final(journal).compacted == old(journal).compacted,
        match (expected, result) {
            (Ok(a), Ok(b)) => a@ == b@ && final(journal).events@ == old(journal).events@.push(b),
            (Err(a), Err(b)) => a@ == b@ && final(journal).events@ == old(journal).events@,
            _ => false,
        },
{
}

/// Recording a flush appends that operation to the journal, or leaves it as it was.
pub proof fn recording_fsync(
    r: WorkspaceOperationRecorder,
    journal: &mut OperationJournal,
    path: String,
    ts: u128,
    base: String,
    existing: &[WorkspaceOperationEvent],
    expected: Result<WorkspaceOperationEvent, FsError>,
    result: Result<WorkspaceOperationEvent, FsError>,
)
    requires
        base@ == r.base_checkpoint@,
        existing@ == old(journal).events@,
        call_ensures(append_event, (r.run_id, base, WorkspaceOperation::Fsync { path }, old(journal).compacted, existing, ts), expected),
        call_ensures(WorkspaceOperationRecorder::record_fsync, (&r, journal, path, ts), result),
    ensures
        final(journal).compacted == old(journal).compacted,
        match (expected, result) {
            (Ok(a), Ok(b)) => a@ == b@ && final(journal).events@ == old(journal).events@.push(b),
            (Err(a), Err(b)) => a@ == b@ && final(journal).events@ == old(journal).events@,
            _ => false,
        },
{
}

/// Recording appends the operation to the journal, or leaves it as it was.
pub proof fn recording_any_operation(
    r: WorkspaceOperationRecorder,
    journal: &mut OperationJournal,
    op: WorkspaceOperation,
    ts: u128,
    base: String,
    existing: &[WorkspaceOperationEvent],
    expected: Result<WorkspaceOperationEvent, FsError>,
    result: Result<WorkspaceOperationEvent, FsError>,
)
    requires
        base@ == r.base_checkpoint@,
        existing@ == old(journal).events@,
        call_ensures(append_event, (r.run_id, base, op, old(journal).compacted, existing, ts), expected),
        call_ensures(WorkspaceOperationRecorder::record, (&r, journal, op, ts), result),
    ensures
        final(journal).compacted == old(journal).compacted,
        match (expected, result) {
            (Ok(a), Ok(b)) => a@ == b@ && final(journal).events@ == old(journal).events@.push(b),
            (Err(a), Err(b)) => a@ == b@ && final(journal).events@ == old(journal).events@,
            _ => false,
        },
{
}

/// Recording a write appends it, with what identifies its bytes, or leaves the journal as it was.
pub proof fn recording_write(
    r: WorkspaceOperationRecorder,
    journal: &mut OperationJournal,
    path: String,
    offset: u64,
    bytes: &[u8],
    op: WorkspaceOperation,
    ts: u128,
    base: String,
    existing: &[WorkspaceOperationEvent],
    expected: Result<WorkspaceOperationEvent, FsError>,
    result: Result<WorkspaceOperationEvent, FsError>,
)
    requires
        base@ == r.base_checkpoint@,
        existing@ == old(journal).events@,
        call_ensures(append_event, (r.run_id, base, op, old(journal).compacted, existing, ts), expected),
        call_ensures(WorkspaceOperationRecorder::record_write, (&r, journal, path, offset, bytes, ts), result),
        call_ensures(crate::versioned_fs::operation::write_operation, (path, offset, bytes), op),
    ensures
        final(journal).compacted == old(journal).compacted,
        match (expected, result) {
            (Ok(a), Ok(b)) => a@ == b@ && final(journal).events@ == old(journal).events@.push(b),
            (Err(a), Err(b)) => a@ == b@ && final(journal).events@ == old(journal).events@,
            _ => false,
        },
{
}

/// A recorder starts from its checkpoint, in its store, for its run.
pub proof fn a_recorder_starts_from_its_checkpoint(
    store: WorkspaceStore,
    run_id: RunId,
    base: WorkspaceCheckpoint,
    id: String,
    a: WorkspaceOperationRecorder,
    b: WorkspaceOperationRecorder,
    session: VersionedRunSession,
)
    requires
        call_ensures(WorkspaceOperationRecorder::begin, (store, run_id, &base), a),
        call_ensures(WorkspaceOperationRecorder::from_checkpoint, (store, run_id, id), b),
        call_ensures(WorkspaceStore::begin_run, (&store, &base), session),
    ensures
        a.store == store && a.run_id == run_id && a.base_checkpoint@ == base.checkpoint_id@,
        b.store == store && b.run_id == run_id && b.base_checkpoint@ == id@,
        session.workspace@ == store.root@ && session.checkpoint_before@ == base.checkpoint_id@,
{
}

/// A recorder ends with what it recorded; it commits exactly where that was
/// asked for, as its last checkpoint is committed.
pub proof fn a_recorder_ends_as_was_asked(
    r: WorkspaceOperationRecorder,
    after: WorkspaceCheckpoint,
    recorded: &[WorkspaceOperationEvent],
    commit: bool,
    journal: JournalFiles,
    operations: JournalFiles,
    id: &str,
    run: &str,
    open: String,
    compacted: String,
    committed: Result<Vec<StoreAction>, FsError>,
    result: (Vec<StoreAction>, WorkspaceOperationRecorderOutcome),
)
    requires
        after.source_run_id == Some(r.run_id),
        id@ == after.checkpoint_id@,
        run@ == hyphenated(r.run_id.value),
        call_ensures(WorkspaceStore::operation_journal_path, (&r.store, run), open),
        call_ensures(WorkspaceStore::compacted_operation_journal_path, (&r.store, run), compacted),
        call_ensures(WorkspaceStore::commit, (&r.store, id, Some(&after), journal, operations), committed),
        call_ensures(WorkspaceOperationRecorder::finish, (r, &after, recorded, commit, journal, operations), result),
    ensures
        result.1.committed == commit && result.1.operation_count == recorded@.len(),
        result.1.run_id == r.run_id && result.1.base_checkpoint@ == r.base_checkpoint@,
        result.1.checkpoint_after@ == after.checkpoint_id@ && result.1.workspace@ == r.store.root@,
        commit ==> (committed matches Ok(list) && store_action_views(list@) == store_action_views(result.0@)),
        !commit ==> result.0@.len() == 0 && result.1.journal_path@ == open@,
        commit && (operations.active || operations.compacted) ==> result.1.journal_path@ == compacted@,
        commit && !operations.active && !operations.compacted ==> result.1.journal_path@ == open@,
{
    assert(store_action_views(result.0@).len() == result.0@.len());
}

} // verus!
