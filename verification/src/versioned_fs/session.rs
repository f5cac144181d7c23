//! Runs and recordings as transactions on a workspace.

use crate::run_id::{hyphenated, RunId};
use crate::string_map::StringMap;
use crate::text::concat2;
use crate::versioned_fs::diff::{change_views, diff_changes, ChangeView, WorkspaceChange};
use crate::versioned_fs::entry::{entry_view, manifest, WorkspaceEntry};
use crate::versioned_fs::error::{FsError, FsErrorView};
use crate::versioned_fs::journal::{event_views, journal_events, journal_of, WorkspaceJournalEvent};
use crate::versioned_fs::object::content_id_of;
use crate::versioned_fs::operation::{
    appended, operation_event_views, write_operation, OperationEventView, OperationView,
    WorkspaceOperation, WorkspaceOperationEvent,
};
use crate::versioned_fs::plan::{action_views, is_rollback, FsAction};
use crate::versioned_fs::store::{
    diff_manifests, store_action_views, JournalFiles, StoreAction, WorkspaceCheckpoint,
    WorkspaceRollbackReport, WorkspaceStore,
};
use vstd::prelude::*;

verus! {

/// A run in progress.
#[derive(Debug, PartialEq, Eq)]
pub struct VersionedRunSession {
    pub workspace: String,
    pub checkpoint_before: String,
}

/// What a finished run did to its workspace.
#[derive(Debug, PartialEq, Eq)]
pub struct VersionedRunOutcome {
    pub workspace: String,
    pub checkpoint_before: String,
    pub checkpoint_after: String,
    pub journal_path: String,
    pub changed_files: usize,
    pub changes: Vec<WorkspaceChange>,
    pub committed: bool,
    pub rolled_back: bool,
    pub rollback: Option<WorkspaceRollbackReport>,
}

/// Everything that finishing a run asks for, in the order in which it is done:
/// the journal, the steps on the store, the steps on the workspace.
pub struct RunEnd {
    pub journal: Vec<WorkspaceJournalEvent>,
    pub store_actions: Vec<StoreAction>,
    pub actions: Vec<FsAction>,
    pub outcome: VersionedRunOutcome,
}

/// The text of a message about a run.
pub open spec fn run_message(prefix: Seq<char>, run_id: RunId) -> Seq<char> {
    prefix + hyphenated(run_id.value)
}

/// The message of the checkpoint before a run.
pub fn before_run_message(run_id: RunId) -> (message: String)
    ensures
        message@ == run_message("before run "@, run_id),
{
    concat2("before run ", run_id.text().as_str())
}

/// The message of the checkpoint after a run.
pub fn after_run_message(run_id: RunId) -> (message: String)
    ensures
        message@ == run_message("after run "@, run_id),
{
    concat2("after run ", run_id.text().as_str())
}

/// The message of the checkpoint that a recording starts from.
pub fn operation_base_message(run_id: RunId) -> (message: String)
    ensures
        message@ == run_message("operation base "@, run_id),
{
    concat2("operation base ", run_id.text().as_str())
}

/// The message of the checkpoint that a recording ends with.
pub fn operation_after_message(run_id: RunId) -> (message: String)
    ensures
        message@ == run_message("operation after "@, run_id),
{
    concat2("operation after ", run_id.text().as_str())
}

/// The change concerns a file: one that was there, or one that is.
pub open spec fn changes_file(c: ChangeView) -> bool {
    ||| c.before matches Some(entry) && entry is File
    ||| c.after matches Some(entry) && entry is File
}

/// How many of the first `n` changes concern files.
pub open spec fn changed_files(changes: Seq<ChangeView>, n: int) -> nat
    decreases n,
{
    if n <= 0 {
        0
    } else {
        changed_files(changes, n - 1) + (if changes_file(changes[n - 1]) {
            1nat
        } else {
            0nat
        })
    }
}

/// Whether a file is recorded.
fn is_file(entry: &Option<WorkspaceEntry>) -> (r: bool)
    ensures
        r == (entry_view(*entry) matches Some(e) && e is File),
{
    match entry {
        Some(WorkspaceEntry::File { .. }) => true,
        _ => false,
    }
}

/// How many changes concern files.
pub fn count_changed_files(changes: &Vec<WorkspaceChange>) -> (n: usize)
    ensures
        n == changed_files(change_views(changes@), changes@.len() as int),
{
    let ghost list = change_views(changes@);
    let mut n: usize = 0;
    for i in 0..changes.len()
        invariant
            list == change_views(changes@),
            n <= i,
            n == changed_files(list, i as int),
    {
        let change = &changes[i];
        assert(list[i as int] == change@);
        if is_file(&change.before) || is_file(&change.after) {
            n = n + 1;
        }
    }
    n
}

/// What a session is finished with: how the command ended, what was asked for,
/// and what the store and the workspace hold by then.
pub struct RunFinish {
    pub run_id: RunId,
    pub command_succeeded: bool,
    pub rollback_on_failure: bool,
    pub commit_on_success: bool,
    pub before: WorkspaceCheckpoint,
    pub after: WorkspaceCheckpoint,
    pub current: StringMap<WorkspaceEntry>,
    pub stamps: Vec<u128>,
    pub compacted_journal: bool,
    pub operations: JournalFiles,
}

impl RunFinish {
    /// The checkpoints are those of the run, and there is a time for each change.
    pub open spec fn wf(&self) -> bool {
        &&& self.before.wf()
        &&& self.after.wf()
        &&& self.current.wf()
        &&& self.after.source_run_id == Some(self.run_id)
        &&& self.stamps@.len() == diff_changes(self.before.manifest(), self.after.manifest()).len()
    }

    /// The changes that the run made.
    pub open spec fn changes(&self) -> Seq<ChangeView> {
        diff_changes(self.before.manifest(), self.after.manifest())
    }
}

/// What finishing a run comes to.
pub open spec fn finishes(store: &WorkspaceStore, checkpoint_before: Seq<char>, end: &RunFinish, result: RunEnd) -> bool {
    let run = hyphenated(end.run_id.value);
    let committed = end.command_succeeded && end.commit_on_success;
    let rolled_back = !end.command_succeeded && end.rollback_on_failure;
    let journal = JournalFiles { active: true, compacted: end.compacted_journal };
    let out = result.outcome;
    &&& event_views(result.journal@) == journal_of(
        end.run_id,
        end.before.checkpoint_id@,
        end.after.checkpoint_id@,
        end.changes(),
        end.stamps@,
    )
    &&& out.workspace@ == store.root@
    &&& out.checkpoint_before@ == checkpoint_before
    &&& out.checkpoint_after@ == end.after.checkpoint_id@
    &&& change_views(out.changes@) == end.changes()
    &&& out.changed_files == changed_files(end.changes(), end.changes().len() as int)
    &&& out.committed == committed
    &&& out.rolled_back == rolled_back
    &&& out.journal_path@ == (if committed {
        store.spec_compacted_journal_path(run)
    } else {
        store.spec_journal_path(run)
    })
    &&& store_action_views(result.store_actions@) == (if committed {
        store.spec_commit_steps(end.after.checkpoint_id@, Some(end.run_id), journal, end.operations)
    } else {
        Seq::empty()
    })
    &&& rolled_back ==> (out.rollback matches Some(report) && report.checkpoint_id@ == end.before.checkpoint_id@ && is_rollback(
        action_views(result.actions@),
        manifest(end.current@),
        end.before.manifest(),
        report.removed_paths as nat,
        report.restored_dirs as nat,
        report.restored_files as nat,
    ))
    &&& !rolled_back ==> out.rollback is None && result.actions@.len() == 0
}

impl WorkspaceStore {
    /// The session of a run that starts from a checkpoint.
    pub fn begin_run(&self, before: &WorkspaceCheckpoint) -> (session: VersionedRunSession)
        ensures
            session.workspace@ == self.root@,
            session.checkpoint_before@ == before.checkpoint_id@,
    {
        VersionedRunSession {
            workspace: self.root.clone(),
            checkpoint_before: before.checkpoint_id.clone(),
        }
    }

    /// Finishes a run: the journal of its changes is written; on success the
    /// result is committed where that is asked for, on failure the workspace is
    /// rolled back where that is asked for.
    pub fn finish_run(&self, session: VersionedRunSession, end: &RunFinish) -> (result: RunEnd)
        requires
            end.wf(),
            end.before.checkpoint_id@ == session.checkpoint_before@,
        ensures
            finishes(self, session.checkpoint_before@, end, result),
    {
        let run = end.run_id.text();
        let diff = diff_manifests(&end.before, &end.after);
        assert(diff.changes@.len() == change_views(diff.changes@).len());
        let journal = journal_events(end.run_id, &diff, end.stamps.as_slice());
        let committed = end.command_succeeded && end.commit_on_success;
        let rolled_back = !end.command_succeeded && end.rollback_on_failure;
        let mut journal_path = self.journal_path(run.as_str());
        let mut store_actions: Vec<StoreAction> = Vec::new();
        assert(store_action_views(store_actions@) =~= Seq::empty());
        if committed {
            let files = JournalFiles { active: true, compacted: end.compacted_journal };
            match self.commit_with_report(
                end.after.checkpoint_id.as_str(),
                Some(&end.after),
                files,
                end.operations,
            ) {
                Ok((steps, report)) => {
                    store_actions = steps;
                    if let Some(path) = report.journal_path {
                        journal_path = path;
                    }
                },
                Err(_) => {},
            }
        }
        let mut actions: Vec<FsAction> = Vec::new();
        let mut rollback: Option<WorkspaceRollbackReport> = None;
        if rolled_back {
            let (steps, report) = self.rollback(&end.before, &end.current);
            actions = steps;
            rollback = Some(report);
        }
        let outcome = VersionedRunOutcome {
            workspace: self.root.clone(),
            checkpoint_before: session.checkpoint_before,
            checkpoint_after: end.after.checkpoint_id.clone(),
            journal_path,
            changed_files: count_changed_files(&diff.changes),
            changes: diff.changes,
            committed,
            rolled_back,
            rollback,
        };
        RunEnd { journal, store_actions, actions, outcome }
    }
}

/// A run on a workspace, from the checkpoint before it to its outcome.
pub struct WorkspaceTransaction {
    pub store: WorkspaceStore,
    pub session: Option<VersionedRunSession>,
    pub run_id: RunId,
}

impl WorkspaceTransaction {
    /// Begins a run from a checkpoint of the workspace.
    pub fn begin(store: WorkspaceStore, run_id: RunId, before: &WorkspaceCheckpoint) -> (t: Self)
        ensures
            t.store == store,
            t.run_id == run_id,
            t.session matches Some(s) && s.workspace@ == store.root@ && s.checkpoint_before@ == before.checkpoint_id@,
    {
        let session = store.begin_run(before);
        WorkspaceTransaction { store, session: Some(session), run_id }
    }

    /// The workspace root.
    pub fn workspace(&self) -> (root: &str)
        ensures
            root@ == self.store.root@,
    {
        self.store.root()
    }

    /// The checkpoint before the run, while the run is open.
    pub fn checkpoint_before(&self) -> (id: Option<&str>)
        ensures
            match self.session {
                Some(s) => id matches Some(text) && text@ == s.checkpoint_before@,
                None => id is None,
            },
    {
        match &self.session {
            Some(s) => Some(s.checkpoint_before.as_str()),
            None => None,
        }
    }

    /// Takes the transaction apart; one without a session was already finished.
    pub fn into_parts(self) -> (parts: Result<(WorkspaceStore, VersionedRunSession, RunId), FsError>)
        ensures
            match self.session {
                Some(s) => parts matches Ok(p) && p.0 == self.store && p.1 == s && p.2 == self.run_id,
                None => parts matches Err(e) && e@ == FsErrorView::AlreadyFinished,
            },
    {
        match self.session {
            Some(session) => Ok((self.store, session, self.run_id)),
            None => Err(FsError::AlreadyFinished),
        }
    }

    /// Finishes the run; one without a session was already finished.
    pub fn finish(self, end: &RunFinish) -> (result: Result<RunEnd, FsError>)
        requires
            end.wf(),
            end.run_id == self.run_id,
            self.session matches Some(s) ==> end.before.checkpoint_id@ == s.checkpoint_before@,
        ensures
            match self.session {
                None => result matches Err(e) && e@ == FsErrorView::AlreadyFinished,
                Some(s) => result matches Ok(r) && finishes(&self.store, s.checkpoint_before@, end, r),
            },
    {
        match self.session {
            None => Err(FsError::AlreadyFinished),
            Some(session) => Ok(self.store.finish_run(session, end)),
        }
    }
}

/// The operation journal of a run as the store holds it.
pub struct OperationJournal {
    pub compacted: bool,
    pub events: Vec<WorkspaceOperationEvent>,
}

impl Clone for WorkspaceOperationEvent {
    fn clone(&self) -> (copy: Self)
        ensures
            copy == *self,
    {
        WorkspaceOperationEvent {
            schema_version: self.schema_version,
            seq: self.seq,
            ts: self.ts,
            run_id: self.run_id,
            base_checkpoint: self.base_checkpoint.clone(),
            op: self.op.clone(),
        }
    }
}

/// What a recording ended with.
#[derive(Debug, PartialEq, Eq)]
pub struct WorkspaceOperationRecorderOutcome {
    pub workspace: String,
    pub run_id: RunId,
    pub base_checkpoint: String,
    pub checkpoint_after: String,
    pub journal_path: String,
    pub operation_count: usize,
    pub committed: bool,
}

/// Records the operations of a run on a workspace.
#[derive(Debug, PartialEq, Eq)]
pub struct WorkspaceOperationRecorder {
    pub store: WorkspaceStore,
    pub run_id: RunId,
    pub base_checkpoint: String,
}

/// The journal took the event that `appended` gives for the operation, or is unchanged and the operation is refused.
pub open spec fn records(
    recorder: &WorkspaceOperationRecorder,
    before: OperationJournal,
    after: OperationJournal,
    op: OperationView,
    ts: u128,
    result: Result<WorkspaceOperationEvent, FsError>,
) -> bool {
    let expected = appended(
        recorder.run_id,
        recorder.base_checkpoint@,
        op,
        before.compacted,
        operation_event_views(before.events@),
        ts as nat,
    );
    &&& after.compacted == before.compacted
    &&& match result {
        Ok(event) => expected == Ok::<OperationEventView, FsErrorView>(event@) && after.events@ == before.events@.push(event),
        Err(e) => expected == Err::<OperationEventView, FsErrorView>(e@) && after.events@ == before.events@,
    }
}

impl WorkspaceOperationRecorder {
    /// Begins a recording from a checkpoint of the workspace.
    pub fn begin(store: WorkspaceStore, run_id: RunId, base: &WorkspaceCheckpoint) -> (r: Self)
        ensures
            r.store == store,
            r.run_id == run_id,
            r.base_checkpoint@ == base.checkpoint_id@,
    {
        WorkspaceOperationRecorder { store, run_id, base_checkpoint: base.checkpoint_id.clone() }
    }

    /// Continues a recording from a checkpoint that the store knows.
    pub fn from_checkpoint(store: WorkspaceStore, run_id: RunId, base_checkpoint: String) -> (r: Self)
        ensures
            r.store == store,
            r.run_id == run_id,
            r.base_checkpoint@ == base_checkpoint@,
    {
        WorkspaceOperationRecorder { store, run_id, base_checkpoint }
    }

    /// The workspace root.
    pub fn workspace(&self) -> (root: &str)
        ensures
            root@ == self.store.root@,
    {
        self.store.root()
    }

    /// The run that is recorded.
    pub fn run_id(&self) -> (id: RunId)
        ensures
            id == self.run_id,
    {
        self.run_id
    }

    /// The checkpoint that the recording starts from.
    pub fn base_checkpoint(&self) -> (id: &str)
        ensures
            id@ == self.base_checkpoint@,
    {
        self.base_checkpoint.as_str()
    }

    /// Records an operation.
    pub fn record(&self, journal: &mut OperationJournal, op: WorkspaceOperation, ts: u128) -> (result: Result<WorkspaceOperationEvent, FsError>)
        requires
            old(journal).events@.len() < usize::MAX,
        ensures
            records(self, *old(journal), *final(journal), op@, ts, result),
    {
        let result = self.store.append_operation_event(
            self.run_id,
            self.base_checkpoint.clone(),
            op,
            journal.compacted,
            journal.events.as_slice(),
            ts,
        );
        match result {
            Ok(event) => {
                journal.events.push(event.clone());
                Ok(event)
            },
            Err(e) => Err(e),
        }
    }

    /// Records that a file was created.
    pub fn record_create_file(&self, journal: &mut OperationJournal, path: String, ts: u128) -> (result: Result<WorkspaceOperationEvent, FsError>)
        requires
            old(journal).events@.len() < usize::MAX,
        ensures
            records(self, *old(journal), *final(journal), OperationView::CreateFile { path: path@ }, ts, result),
    {
        self.record(journal, WorkspaceOperation::CreateFile { path }, ts)
    }

    /// Records that a directory was created.
    pub fn record_create_dir(&self, journal: &mut OperationJournal, path: String, ts: u128) -> (result: Result<WorkspaceOperationEvent, FsError>)
        requires
            old(journal).events@.len() < usize::MAX,
        ensures
            records(self, *old(journal), *final(journal), OperationView::CreateDir { path: path@ }, ts, result),
    {
        self.record(journal, WorkspaceOperation::CreateDir { path }, ts)
    }

    /// Records that bytes were written; they belong in the object that the event names.
    pub fn record_write(&self, journal: &mut OperationJournal, path: String, offset: u64, bytes: &[u8], ts: u128) -> (result: Result<WorkspaceOperationEvent, FsError>)
        requires
            old(journal).events@.len() < usize::MAX,
        ensures
            records(
                self,
                *old(journal),
                *final(journal),
                OperationView::Write {
                    path: path@,
                    offset: offset as nat,
                    object: content_id_of(bytes@),
                    len: bytes@.len(),
                },
                ts,
                result,
            ),
    {
        self.record(journal, write_operation(path, offset, bytes), ts)
    }

    /// Records that a file was given a length.
    pub fn record_truncate(&self, journal: &mut OperationJournal, path: String, len: u64, ts: u128) -> (result: Result<WorkspaceOperationEvent, FsError>)
        requires
            old(journal).events@.len() < usize::MAX,
        ensures
            records(self, *old(journal), *final(journal), OperationView::Truncate { path: path@, len: len as nat }, ts, result),
    {
        self.record(journal, WorkspaceOperation::Truncate { path, len }, ts)
    }

    /// Records that a path was deleted.
    pub fn record_delete_path(&self, journal: &mut OperationJournal, path: String, ts: u128) -> (result: Result<WorkspaceOperationEvent, FsError>)
        requires
            old(journal).events@.len() < usize::MAX,
        ensures
            records(self, *old(journal), *final(journal), OperationView::DeletePath { path: path@ }, ts, result),
    {
        self.record(journal, WorkspaceOperation::DeletePath { path }, ts)
    }

    /// Records that a path was moved.
    pub fn record_rename_path(&self, journal: &mut OperationJournal, source_path: String, path: String, ts: u128) -> (result: Result<WorkspaceOperationEvent, FsError>)
        requires
            old(journal).events@.len() < usize::MAX,
        ensures
            records(
                self,
                *old(journal),
                *final(journal),
                OperationView::RenamePath { source_path: source_path@, path: path@ },
                ts,
                result,
            ),
    {
        self.record(journal, WorkspaceOperation::RenamePath { source_path, path }, ts)
    }

    /// Records that the permission to write was set or cleared.
    pub fn record_chmod(&self, journal: &mut OperationJournal, path: String, readonly: bool, ts: u128) -> (result: Result<WorkspaceOperationEvent, FsError>)
        requires
            old(journal).events@.len() < usize::MAX,
        ensures
            records(self, *old(journal), *final(journal), OperationView::Chmod { path: path@, readonly }, ts, result),
    {
        self.record(journal, WorkspaceOperation::Chmod { path, readonly }, ts)
    }

    /// Records that a file was flushed.
    pub fn record_fsync(&self, journal: &mut OperationJournal, path: String, ts: u128) -> (result: Result<WorkspaceOperationEvent, FsError>)
        requires
            old(journal).events@.len() < usize::MAX,
        ensures
            records(self, *old(journal), *final(journal), OperationView::Fsync { path: path@ }, ts, result),
    {
        self.record(journal, WorkspaceOperation::Fsync { path }, ts)
    }

    /// Ends the recording with a checkpoint: the steps that commit it, where
    /// that is asked for, and the outcome. The states are those of the run's
    /// journals, and `recorded` holds the events of the operation journal,
    /// none where nothing was recorded.
    pub fn finish(
        self,
        after: &WorkspaceCheckpoint,
        recorded: &[WorkspaceOperationEvent],
        commit: bool,
        journal: JournalFiles,
        operations: JournalFiles,
    ) -> (result: (Vec<StoreAction>, WorkspaceOperationRecorderOutcome))
        requires
            after.source_run_id == Some(self.run_id),
        ensures
            ({
                let run = hyphenated(self.run_id.value);
                let out = result.1;
                &&& store_action_views(result.0@) == (if commit {
                    self.store.spec_commit_steps(after.checkpoint_id@, Some(self.run_id), journal, operations)
                } else {
                    Seq::empty()
                })
                &&& out.workspace@ == self.store.root@
                &&& out.run_id == self.run_id
                &&& out.base_checkpoint == self.base_checkpoint
                &&& out.checkpoint_after@ == after.checkpoint_id@
                &&& out.operation_count == recorded@.len()
                &&& out.committed == commit
                &&& out.journal_path@ == (if commit && (operations.active || operations.compacted) {
                    self.store.spec_compacted_operation_journal_path(run)
                } else {
                    self.store.spec_operation_journal_path(run)
                })
            }),
    {
        let run = self.run_id.text();
        let mut journal_path = self.store.operation_journal_path(run.as_str());
        let mut actions: Vec<StoreAction> = Vec::new();
        assert(store_action_views(actions@) =~= Seq::empty());
        if commit {
            match self.store.commit_with_report(
                after.checkpoint_id.as_str(),
                Some(after),
                journal,
                operations,
            ) {
                Ok((steps, report)) => {
                    actions = steps;
                    if let Some(path) = report.operation_journal_path {
                        journal_path = path;
                    }
                },
                Err(_) => {},
            }
        }
        let outcome = WorkspaceOperationRecorderOutcome {
            workspace: self.store.root.clone(),
            run_id: self.run_id,
            base_checkpoint: self.base_checkpoint,
            checkpoint_after: after.checkpoint_id.clone(),
            journal_path,
            operation_count: recorded.len(),
            committed: commit,
        };
        (actions, outcome)
    }
}

/// A run never both commits and rolls back, and does the one that is asked
/// for on how its command ended.
pub proof fn a_run_commits_or_rolls_back(end: RunFinish)
    ensures
        ({
            let committed = end.command_succeeded && end.commit_on_success;
            let rolled_back = !end.command_succeeded && end.rollback_on_failure;
            &&& !(committed && rolled_back)
            &&& end.commit_on_success && end.rollback_on_failure ==> committed || rolled_back
        }),
{
}

} // verus!
