//! The workspace store: checkpoints, their layout on disk, and the requests on them.

use crate::number::{decimal, decimal_text};
use crate::run_id::RunId;
use crate::string_map::StringMap;
use crate::text::{chars_of, concat2, concat3, string_of, trim, trimmed, views};
use crate::versioned_fs::diff::{
    change_views, diff_changes, diff_entries, WorkspaceChange, WorkspaceDiff,
};
use crate::versioned_fs::entry::{clone_text, manifest, text_view, EntryView, WorkspaceEntry};
use crate::versioned_fs::error::{FsError, FsErrorView};
use crate::versioned_fs::journal::{
    event_views, replay_events, replayed, WorkspaceJournalEvent,
};
use crate::versioned_fs::operation::{
    append_event, appended, operation_event_views, replay_operations, replayed_operations,
    write_operation, OperationEventView, OperationView, Planned, WorkspaceOperation,
    WorkspaceOperationEvent,
};
use crate::versioned_fs::object::content_id_of;
use crate::versioned_fs::paths::{join_path, pushed};
use crate::versioned_fs::plan::{
    action_views, is_removal_list, is_rollback, is_writing, locked_paths, push_removals, push_unlocks,
    remove_steps, removable_paths, rolls_back, unlock_steps, write_checkpoint_to_root, writes_out,
    FsAction, FsActionView,
};
use crate::versioned_fs::restore::{
    copies_of, copy_steps, copy_views, found_views, CopyAction, FoundPath,
};
use vstd::prelude::*;

verus! {

/// A recorded state of a workspace.
#[derive(Debug, PartialEq, Eq)]
pub struct WorkspaceCheckpoint {
    pub checkpoint_id: String,
    pub parent: Option<String>,
    pub created_at: u128,
    pub message: Option<String>,
    pub source_run_id: Option<RunId>,
    pub root: String,
    pub entries: StringMap<WorkspaceEntry>,
}

/// A checkpoint without its manifest.
#[derive(Debug, PartialEq, Eq)]
pub struct WorkspaceCheckpointSummary {
    pub checkpoint_id: String,
    pub parent: Option<String>,
    pub created_at: u128,
    pub message: Option<String>,
    pub source_run_id: Option<RunId>,
    pub entry_count: usize,
}

/// The manifest of a checkpoint records finitely many paths.
pub proof fn manifests_are_finite(c: WorkspaceCheckpoint)
    ensures
        c.manifest().dom().finite(),
{
    crate::string_map::maps_are_finite(c.entries);
    assert(c.manifest().dom() =~= c.entries@.dom());
}

/// Everything that a restore asks for, in the order in which it is done.
pub struct RestorePlan {
    pub removals: Vec<FsAction>,
    pub copies: Vec<CopyAction>,
    pub report: WorkspaceOperationReplayReport,
}

impl WorkspaceCheckpoint {
    /// The manifest's keys are in order.
    pub open spec fn wf(&self) -> bool {
        self.entries.wf()
    }

    /// The manifest.
    pub open spec fn manifest(&self) -> Map<Seq<char>, EntryView> {
        manifest(self.entries@)
    }

    /// The checkpoint without its manifest.
    pub fn summary(&self) -> (s: WorkspaceCheckpointSummary)
        ensures
            s.checkpoint_id@ == self.checkpoint_id@,
            text_view(s.parent) == text_view(self.parent),
            s.created_at == self.created_at,
            text_view(s.message) == text_view(self.message),
            s.source_run_id == self.source_run_id,
            s.entry_count == self.entries.items@.len(),
    {
        WorkspaceCheckpointSummary {
            checkpoint_id: self.checkpoint_id.clone(),
            parent: clone_text(&self.parent),
            created_at: self.created_at,
            message: clone_text(&self.message),
            source_run_id: self.source_run_id,
            entry_count: self.entries.len(),
        }
    }
}

/// What a rollback did.
#[derive(Debug, PartialEq, Eq)]
pub struct WorkspaceRollbackReport {
    pub checkpoint_id: String,
    pub restored_files: usize,
    pub restored_dirs: usize,
    pub removed_paths: usize,
}

/// The health of a store.
#[derive(Debug, PartialEq, Eq)]
pub struct WorkspaceVerifyReport {
    pub ok: bool,
    pub checkpoint_count: usize,
    pub object_count: usize,
    pub missing_objects: Vec<String>,
    pub corrupt_objects: Vec<String>,
}

/// What a collection of unreferenced objects did.
#[derive(Debug, PartialEq, Eq)]
pub struct WorkspaceGcReport {
    pub referenced_objects: usize,
    pub removed_objects: usize,
    pub removed_bytes: u64,
}

/// What a commit did.
#[derive(Debug, PartialEq, Eq)]
pub struct WorkspaceCommitReport {
    pub checkpoint_id: String,
    pub source_run_id: Option<RunId>,
    pub compacted_journals: usize,
    pub journal_path: Option<String>,
    pub operation_journal_path: Option<String>,
}

/// What was written to a separate directory.
#[derive(Debug, PartialEq, Eq)]
pub struct WorkspaceMaterializeReport {
    pub checkpoint_id: String,
    pub destination: String,
    pub restored_files: usize,
    pub restored_dirs: usize,
}

/// How a workspace differs from its head.
#[derive(Debug, PartialEq, Eq)]
pub struct WorkspaceStatusReport {
    pub head: Option<String>,
    pub dirty: bool,
    pub changes: Vec<WorkspaceChange>,
}

/// What a replay of a journal wrote.
#[derive(Debug, PartialEq, Eq)]
pub struct WorkspaceReplayReport {
    pub run_id: String,
    pub checkpoint_id: String,
    pub until_seq: Option<usize>,
    pub until_ts: Option<u128>,
    pub applied_events: usize,
    pub destination: String,
    pub restored_files: usize,
    pub restored_dirs: usize,
}

/// What a replay of an operation journal wrote.
#[derive(Debug, PartialEq, Eq)]
pub struct WorkspaceOperationReplayReport {
    pub run_id: String,
    pub base_checkpoint: String,
    pub until_seq: Option<usize>,
    pub until_ts: Option<u128>,
    pub applied_events: usize,
    pub destination: String,
    pub restored_files: usize,
    pub restored_dirs: usize,
}

/// One step on the store's own files; paths are whole.
#[derive(Debug, PartialEq, Eq)]
pub enum StoreAction {
    /// Create the directory and its missing ancestors.
    MakeDirs(String),
    /// Remove the file.
    RemoveFile(String),
    /// Move the file.
    RenameFile { from: String, to: String },
    /// Replace the file's text.
    WriteText { path: String, text: String },
}

/// The mathematical value of a step.
pub enum StoreActionView {
    MakeDirs(Seq<char>),
    RemoveFile(Seq<char>),
    RenameFile { from: Seq<char>, to: Seq<char> },
    WriteText { path: Seq<char>, text: Seq<char> },
}

impl View for StoreAction {
    type V = StoreActionView;

    open spec fn view(&self) -> StoreActionView {
        match *self {
            StoreAction::MakeDirs(path) => StoreActionView::MakeDirs(path@),
            StoreAction::RemoveFile(path) => StoreActionView::RemoveFile(path@),
            StoreAction::RenameFile { from, to } => StoreActionView::RenameFile { from: from@, to: to@ },
            StoreAction::WriteText { path, text } => StoreActionView::WriteText { path: path@, text: text@ },
        }
    }
}

/// The values of a list of steps.
pub open spec fn store_action_views(actions: Seq<StoreAction>) -> Seq<StoreActionView> {
    actions.map_values(|a: StoreAction| a@)
}

/// Which files of a journal are there.
#[derive(Debug, Clone, Copy, PartialEq, Eq, Structural)]
pub struct JournalFiles {
    pub active: bool,
    pub compacted: bool,
}

/// What stands at a destination before a checkpoint is written there.
#[derive(Debug, Clone, Copy, PartialEq, Eq, Structural)]
pub enum DestinationState {
    Missing,
    Empty,
    Occupied,
}

/// Whether the destination is to be removed first; an occupied one is refused unless forced.
pub fn prepare_destination(state: DestinationState, force: bool) -> (clear: Result<bool, FsError>)
    ensures
        match clear {
            Ok(c) => !(state == DestinationState::Occupied && !force) && c == (force && state != DestinationState::Missing),
            Err(e) => state == DestinationState::Occupied && !force && e@ == FsErrorView::DestinationNotEmpty,
        },
{
    match state {
        DestinationState::Missing => Ok(false),
        DestinationState::Empty => Ok(force),
        DestinationState::Occupied => if force {
            Ok(true)
        } else {
            Err(FsError::DestinationNotEmpty)
        },
    }
}

/// The differences between two checkpoints.
pub fn diff_manifests(from: &WorkspaceCheckpoint, to: &WorkspaceCheckpoint) -> (diff: WorkspaceDiff)
    requires
        from.wf(),
        to.wf(),
    ensures
        diff.from@ == from.checkpoint_id@,
        diff.to@ == to.checkpoint_id@,
        change_views(diff.changes@) == diff_changes(from.manifest(), to.manifest()),
{
    WorkspaceDiff {
        from: from.checkpoint_id.clone(),
        to: to.checkpoint_id.clone(),
        changes: diff_entries(&from.entries, &to.entries),
    }
}

/// The head that a ref file names: its text without surrounding white space, unless that is empty.
pub open spec fn head_of(text: Seq<char>) -> Option<Seq<char>> {
    if trim(text).len() > 0 {
        Some(trim(text))
    } else {
        None
    }
}

/// The name of a replayed state.
pub open spec fn replay_id(base: Seq<char>, until_seq: Option<usize>) -> Seq<char> {
    base + "_replay_"@ + match until_seq {
        Some(seq) => decimal(seq as nat),
        None => "all"@,
    }
}

/// A workspace and its store.
#[derive(Debug, PartialEq, Eq)]
pub struct WorkspaceStore {
    pub root: String,
    pub store: String,
}

impl WorkspaceStore {
    /// The store lies below the workspace root.
    pub open spec fn wf(&self) -> bool {
        self.store@ == pushed(self.root@, ".shadox/fs"@)
    }

    /// The file of a checkpoint.
    pub open spec fn spec_checkpoint_path(&self, checkpoint_id: Seq<char>) -> Seq<char> {
        pushed(pushed(self.store@, "checkpoints"@), checkpoint_id + ".json"@)
    }

    /// The file of a content object.
    pub open spec fn spec_object_path(&self, object: Seq<char>) -> Seq<char> {
        pushed(pushed(self.store@, "objects"@), object)
    }

    /// The file of a run's journal while it is open.
    pub open spec fn spec_journal_path(&self, run_id: Seq<char>) -> Seq<char> {
        pushed(pushed(self.store@, "journals"@), run_id + ".jsonl"@)
    }

    /// The file of a run's journal once it is compacted.
    pub open spec fn spec_compacted_journal_path(&self, run_id: Seq<char>) -> Seq<char> {
        pushed(pushed(pushed(self.store@, "journals"@), "compacted"@), run_id + ".jsonl"@)
    }

    /// The file of a run's operation journal while it is open.
    pub open spec fn spec_operation_journal_path(&self, run_id: Seq<char>) -> Seq<char> {
        pushed(pushed(self.store@, "operation-journals"@), run_id + ".jsonl"@)
    }

    /// The file of a run's operation journal once it is compacted.
    pub open spec fn spec_compacted_operation_journal_path(&self, run_id: Seq<char>) -> Seq<char> {
        pushed(pushed(pushed(self.store@, "operation-journals"@), "compacted"@), run_id + ".jsonl"@)
    }

    /// The file that names the head.
    pub open spec fn spec_head_path(&self) -> Seq<char> {
        pushed(pushed(self.store@, "refs"@), "head"@)
    }

    /// The store of a workspace whose root is given as a canonical path.
    pub fn open(root: String) -> (s: Self)
        ensures
            s.wf(),
            s.root@ == root@,
    {
        let store = join_path(root.as_str(), ".shadox/fs");
        WorkspaceStore { root, store }
    }

    /// The workspace root.
    pub fn root(&self) -> (root: &str)
        ensures
            root@ == self.root@,
    {
        self.root.as_str()
    }

    /// A path below the store.
    fn below_store(&self, name: &str) -> (path: String)
        ensures
            path@ == pushed(self.store@, name@),
    {
        join_path(self.store.as_str(), name)
    }

    /// The directories that an open store has.
    pub fn layout(&self) -> (dirs: Vec<String>)
        ensures
            views(dirs@) == seq![
                pushed(self.store@, "objects"@),
                pushed(self.store@, "checkpoints"@),
                pushed(self.store@, "journals"@),
                pushed(pushed(self.store@, "journals"@), "compacted"@),
                pushed(self.store@, "operation-journals"@),
                pushed(pushed(self.store@, "operation-journals"@), "compacted"@),
                pushed(self.store@, "restores"@),
                pushed(self.store@, "refs"@),
            ],
    {
        let journals = self.below_store("journals");
        let operations = self.below_store("operation-journals");
        let mut dirs: Vec<String> = Vec::new();
        dirs.push(self.below_store("objects"));
        dirs.push(self.below_store("checkpoints"));
        let compacted = join_path(journals.as_str(), "compacted");
        dirs.push(journals);
        dirs.push(compacted);
        let compacted_operations = join_path(operations.as_str(), "compacted");
        dirs.push(operations);
        dirs.push(compacted_operations);
        dirs.push(self.below_store("restores"));
        dirs.push(self.below_store("refs"));
        assert(views(dirs@) =~= seq![
            pushed(self.store@, "objects"@),
            pushed(self.store@, "checkpoints"@),
            pushed(self.store@, "journals"@),
            pushed(pushed(self.store@, "journals"@), "compacted"@),
            pushed(self.store@, "operation-journals"@),
            pushed(pushed(self.store@, "operation-journals"@), "compacted"@),
            pushed(self.store@, "restores"@),
            pushed(self.store@, "refs"@),
        ]);
        dirs
    }

    /// The file of a checkpoint.
    pub fn checkpoint_path(&self, checkpoint_id: &str) -> (path: String)
        ensures
            path@ == self.spec_checkpoint_path(checkpoint_id@),
    {
        join_path(self.below_store("checkpoints").as_str(), concat2(checkpoint_id, ".json").as_str())
    }

    /// The file of a content object.
    pub fn object_path(&self, object: &str) -> (path: String)
        ensures
            path@ == self.spec_object_path(object@),
    {
        join_path(self.below_store("objects").as_str(), object)
    }

    /// The file of a run's journal while it is open.
    pub fn journal_path(&self, run_id: &str) -> (path: String)
        ensures
            path@ == self.spec_journal_path(run_id@),
    {
        join_path(self.below_store("journals").as_str(), concat2(run_id, ".jsonl").as_str())
    }

    /// The file of a run's journal once it is compacted.
    pub fn compacted_journal_path(&self, run_id: &str) -> (path: String)
        ensures
            path@ == self.spec_compacted_journal_path(run_id@),
    {
        let dir = join_path(self.below_store("journals").as_str(), "compacted");
        join_path(dir.as_str(), concat2(run_id, ".jsonl").as_str())
    }

    /// The file of a run's operation journal while it is open.
    pub fn operation_journal_path(&self, run_id: &str) -> (path: String)
        ensures
            path@ == self.spec_operation_journal_path(run_id@),
    {
        join_path(self.below_store("operation-journals").as_str(), concat2(run_id, ".jsonl").as_str())
    }

    /// The file of a run's operation journal once it is compacted.
    pub fn compacted_operation_journal_path(&self, run_id: &str) -> (path: String)
        ensures
            path@ == self.spec_compacted_operation_journal_path(run_id@),
    {
        let dir = join_path(self.below_store("operation-journals").as_str(), "compacted");
        join_path(dir.as_str(), concat2(run_id, ".jsonl").as_str())
    }

    /// The file that names the head.
    pub fn head_path(&self) -> (path: String)
        ensures
            path@ == self.spec_head_path(),
    {
        join_path(self.below_store("refs").as_str(), "head")
    }

    /// The directory in which a restore is prepared.
    pub fn restore_path(&self, token: &str) -> (path: String)
        ensures
            path@ == pushed(pushed(self.store@, "restores"@), "restore_"@ + token@),
    {
        join_path(self.below_store("restores").as_str(), concat2("restore_", token).as_str())
    }

    /// The journal file to read: the open one, else the compacted one.
    pub fn existing_journal_path(&self, run_id: &str, files: JournalFiles) -> (path: Result<String, FsError>)
        ensures
            match path {
                Ok(p) => (files.active || files.compacted) && p@ == (if files.active {
                    self.spec_journal_path(run_id@)
                } else {
                    self.spec_compacted_journal_path(run_id@)
                }),
                Err(e) => !files.active && !files.compacted && e@ == FsErrorView::NoJournal(run_id@),
            },
    {
        if files.active {
            Ok(self.journal_path(run_id))
        } else if files.compacted {
            Ok(self.compacted_journal_path(run_id))
        } else {
            Err(FsError::NoJournal(run_id.to_string()))
        }
    }

    /// The operation journal file to read: the open one, else the compacted one.
    pub fn existing_operation_journal_path(&self, run_id: &str, files: JournalFiles) -> (path: Result<String, FsError>)
        ensures
            match path {
                Ok(p) => (files.active || files.compacted) && p@ == (if files.active {
                    self.spec_operation_journal_path(run_id@)
                } else {
                    self.spec_compacted_operation_journal_path(run_id@)
                }),
                Err(e) => !files.active && !files.compacted && e@ == FsErrorView::NoOperationJournal(run_id@),
            },
    {
        if files.active {
            Ok(self.operation_journal_path(run_id))
        } else if files.compacted {
            Ok(self.compacted_operation_journal_path(run_id))
        } else {
            Err(FsError::NoOperationJournal(run_id.to_string()))
        }
    }

    /// The head that the ref file names, given its text where it exists.
    pub fn head(&self, text: Option<&str>) -> (head: Option<String>)
        ensures
            text_view(head) == match text {
                Some(t) => head_of(t@),
                None => None,
            },
    {
        match text {
            Some(t) => {
                let chars = chars_of(t);
                let value = trimmed(chars.as_slice());
                if value.len() > 0 {
                    Some(string_of(value.as_slice()))
                } else {
                    None
                }
            },
            None => None,
        }
    }

    /// A checkpoint of this workspace: the parent is the head at the time.
    pub fn create_checkpoint(
        &self,
        checkpoint_id: String,
        parent: Option<String>,
        created_at: u128,
        message: Option<String>,
        source_run_id: Option<RunId>,
        entries: StringMap<WorkspaceEntry>,
    ) -> (c: WorkspaceCheckpoint)
        requires
            entries.wf(),
        ensures
            c.wf(),
            c.checkpoint_id@ == checkpoint_id@,
            c.parent == parent,
            c.created_at == created_at,
            c.message == message,
            c.source_run_id == source_run_id,
            c.root@ == self.root@,
            c.entries == entries,
    {
        WorkspaceCheckpoint {
            checkpoint_id,
            parent,
            created_at,
            message,
            source_run_id,
            root: self.root.clone(),
            entries,
        }
    }

    /// The differences between two checkpoints.
    pub fn diff_checkpoints(&self, from: &WorkspaceCheckpoint, to: &WorkspaceCheckpoint) -> (diff: WorkspaceDiff)
        requires
            from.wf(),
            to.wf(),
        ensures
            diff.from@ == from.checkpoint_id@,
            diff.to@ == to.checkpoint_id@,
            change_views(diff.changes@) == diff_changes(from.manifest(), to.manifest()),
    {
        diff_manifests(from, to)
    }

    /// The steps that bring the workspace from `current` to the checkpoint, and the report of them.
    pub fn rollback(&self, checkpoint: &WorkspaceCheckpoint, current: &StringMap<WorkspaceEntry>) -> (plan: (Vec<FsAction>, WorkspaceRollbackReport))
        requires
            checkpoint.wf(),
            current.wf(),
        ensures
            plan.1.checkpoint_id@ == checkpoint.checkpoint_id@,
            is_rollback(
                action_views(plan.0@),
                manifest(current@),
                checkpoint.manifest(),
                plan.1.removed_paths as nat,
                plan.1.restored_dirs as nat,
                plan.1.restored_files as nat,
            ),
    {
        let mut actions: Vec<FsAction> = Vec::new();
        let removable = removable_paths(current, &checkpoint.entries);
        push_removals(&mut actions, &removable);
        let ghost removals = views(removable@);
        assert(action_views(actions@) =~= remove_steps(removals));
        let locked = locked_paths(current, &checkpoint.entries);
        push_unlocks(&mut actions, &locked);
        let ghost opened = views(locked@);
        let ghost cleared = remove_steps(removals) + unlock_steps(opened);
        assert(action_views(actions@) == cleared);
        let (restored_files, restored_dirs) = write_checkpoint_to_root(&mut actions, &checkpoint.entries);
        let ghost steps = choose|steps: Seq<FsActionView>|
            #[trigger] is_writing(steps, checkpoint.manifest(), restored_dirs as nat, restored_files as nat) && action_views(actions@) == cleared + steps;
        proof {
            let (dirs, files) = choose|dirs: Seq<Seq<char>>, files: Seq<Seq<char>>|
                #[trigger] writes_out(steps, checkpoint.manifest(), dirs, files) && restored_dirs == dirs.len()
                    && restored_files == files.len();
            assert(cleared + steps =~= remove_steps(removals) + (unlock_steps(opened) + steps));
            assert(rolls_back(
                action_views(actions@),
                manifest(current@),
                checkpoint.manifest(),
                removals,
                opened,
                dirs,
                files,
            ));
        }
        let report = WorkspaceRollbackReport {
            checkpoint_id: checkpoint.checkpoint_id.clone(),
            restored_files,
            restored_dirs,
            removed_paths: removable.len(),
        };
        (actions, report)
    }

    /// The steps that write the checkpoint into an empty directory, and the report of them.
    pub fn materialize(&self, checkpoint: &WorkspaceCheckpoint, destination: String) -> (plan: (Vec<FsAction>, WorkspaceMaterializeReport))
        requires
            checkpoint.wf(),
        ensures
            plan.1.checkpoint_id@ == checkpoint.checkpoint_id@,
            plan.1.destination@ == destination@,
            is_writing(
                action_views(plan.0@),
                checkpoint.manifest(),
                plan.1.restored_dirs as nat,
                plan.1.restored_files as nat,
            ),
    {
        let mut actions: Vec<FsAction> = Vec::new();
        assert(action_views(actions@) =~= Seq::empty());
        let (restored_files, restored_dirs) = write_checkpoint_to_root(&mut actions, &checkpoint.entries);
        let ghost steps = choose|steps: Seq<FsActionView>|
            #[trigger] is_writing(steps, checkpoint.manifest(), restored_dirs as nat, restored_files as nat) && action_views(actions@) == Seq::<
                FsActionView,
            >::empty() + steps;
        assert(action_views(actions@) =~= steps);
        let report = WorkspaceMaterializeReport {
            checkpoint_id: checkpoint.checkpoint_id.clone(),
            destination,
            restored_files,
            restored_dirs,
        };
        (actions, report)
    }

    /// How the workspace differs from its head; a workspace without a head is clean.
    pub fn status(&self, head: Option<(String, WorkspaceCheckpoint)>, current: &StringMap<WorkspaceEntry>) -> (report: WorkspaceStatusReport)
        requires
            head matches Some(h) ==> h.1.wf(),
            current.wf(),
        ensures
            match head {
                Some(h) => text_view(report.head) == Some(h.0@) && change_views(report.changes@) == diff_changes(
                    h.1.manifest(),
                    manifest(current@),
                ) && report.dirty == (report.changes@.len() > 0),
                None => report.head is None && !report.dirty && report.changes@.len() == 0,
            },
    {
        match head {
            Some((id, checkpoint)) => {
                let changes = diff_entries(&checkpoint.entries, current);
                WorkspaceStatusReport { head: Some(id), dirty: changes.len() > 0, changes }
            },
            None => WorkspaceStatusReport { head: None, dirty: false, changes: Vec::new() },
        }
    }

    /// The checkpoint that a journal starts from.
    pub fn journal_base(&self, run_id: &str, events: &[WorkspaceJournalEvent]) -> (base: Result<String, FsError>)
        ensures
            match base {
                Ok(b) => events@.len() > 0 && b@ == events@[0].base_checkpoint@,
                Err(e) => events@.len() == 0 && e@ == FsErrorView::EmptyJournal(run_id@),
            },
    {
        if events.len() == 0 {
            Err(FsError::EmptyJournal(run_id.to_string()))
        } else {
            Ok(events[0].base_checkpoint.clone())
        }
    }

    /// The steps that write the replayed state into an empty directory, and
    /// the report of them. The replay starts from the journal's base checkpoint.
    pub fn replay_journal(
        &self,
        run_id: &str,
        events: &[WorkspaceJournalEvent],
        base: &WorkspaceCheckpoint,
        until_seq: Option<usize>,
        until_ts: Option<u128>,
        destination: String,
    ) -> (plan: Result<(Vec<FsAction>, WorkspaceReplayReport), FsError>)
        requires
            base.wf(),
            events@.len() > 0 ==> base.checkpoint_id@ == events@[0].base_checkpoint@,
        ensures
            events@.len() == 0 ==> (plan matches Err(e) && e@ == FsErrorView::EmptyJournal(run_id@)),
            events@.len() > 0 ==> match replayed(
                base.manifest(),
                event_views(events@),
                until_seq,
                until_ts,
                events@.len() as int,
            ) {
                Err(seq) => plan matches Err(e) && e@ == FsErrorView::MissingRenameSource(seq),
                Ok((m, applied)) => plan matches Ok((actions, report)) && {
                    &&& report.run_id@ == run_id@
                    &&& report.checkpoint_id@ == replay_id(base.checkpoint_id@, until_seq)
                    &&& report.until_seq == until_seq
                    &&& report.until_ts == until_ts
                    &&& report.applied_events == applied
                    &&& report.destination@ == destination@
                    &&& is_writing(
                        action_views(actions@),
                        m,
                        report.restored_dirs as nat,
                        report.restored_files as nat,
                    )
                },
            },
    {
        match self.journal_base(run_id, events) {
            Ok(_) => {},
            Err(e) => {
                return Err(e);
            },
        }
        match replay_events(&base.entries, events, until_seq, until_ts) {
            Err(e) => Err(e),
            Ok((entries, applied_events)) => {
                let mut actions: Vec<FsAction> = Vec::new();
                assert(action_views(actions@) =~= Seq::empty());
                let (restored_files, restored_dirs) = write_checkpoint_to_root(&mut actions, &entries);
                let ghost steps = choose|steps: Seq<FsActionView>|
            #[trigger] is_writing(steps, manifest(entries@), restored_dirs as nat, restored_files as nat) && action_views(actions@) == Seq::<
                        FsActionView,
                    >::empty() + steps;
                assert(action_views(actions@) =~= steps);
                let suffix = match until_seq {
                    Some(seq) => decimal_text(seq as u128),
                    None => "all".to_string(),
                };
                let checkpoint_id = concat3(base.checkpoint_id.as_str(), "_replay_", suffix.as_str());
                Ok(
                    (
                        actions,
                        WorkspaceReplayReport {
                            run_id: run_id.to_string(),
                            checkpoint_id,
                            until_seq,
                            until_ts,
                            applied_events,
                            destination,
                            restored_files,
                            restored_dirs,
                        },
                    ),
                )
            },
        }
    }

    /// The event to append to a run's operation journal for an operation.
    pub fn append_operation_event(
        &self,
        run_id: RunId,
        base_checkpoint: String,
        op: WorkspaceOperation,
        compacted: bool,
        existing: &[WorkspaceOperationEvent],
        ts: u128,
    ) -> (result: Result<WorkspaceOperationEvent, FsError>)
        requires
            existing@.len() < usize::MAX,
        ensures
            match result {
                Ok(event) => appended(
                    run_id,
                    base_checkpoint@,
                    op@,
                    compacted,
                    operation_event_views(existing@),
                    ts as nat,
                ) == Ok::<OperationEventView, FsErrorView>(event@),
                Err(e) => appended(
                    run_id,
                    base_checkpoint@,
                    op@,
                    compacted,
                    operation_event_views(existing@),
                    ts as nat,
                ) == Err::<OperationEventView, FsErrorView>(e@),
            },
    {
        append_event(run_id, base_checkpoint, op, compacted, existing, ts)
    }

    /// The event to append for a write of some bytes; the bytes belong in the
    /// object that the event names.
    pub fn append_write_operation(
        &self,
        run_id: RunId,
        base_checkpoint: String,
        path: String,
        offset: u64,
        bytes: &[u8],
        compacted: bool,
        existing: &[WorkspaceOperationEvent],
        ts: u128,
    ) -> (result: Result<WorkspaceOperationEvent, FsError>)
        requires
            existing@.len() < usize::MAX,
        ensures
            ({
                let op = OperationView::Write {
                    path: path@,
                    offset: offset as nat,
                    object: content_id_of(bytes@),
                    len: bytes@.len(),
                };
                match result {
                    Ok(event) => appended(
                        run_id,
                        base_checkpoint@,
                        op,
                        compacted,
                        operation_event_views(existing@),
                        ts as nat,
                    ) == Ok::<OperationEventView, FsErrorView>(event@),
                    Err(e) => appended(
                        run_id,
                        base_checkpoint@,
                        op,
                        compacted,
                        operation_event_views(existing@),
                        ts as nat,
                    ) == Err::<OperationEventView, FsErrorView>(e@),
                }
            }),
    {
        append_event(run_id, base_checkpoint, write_operation(path, offset, bytes), compacted, existing, ts)
    }

    /// The checkpoint that an operation journal starts from.
    pub fn operation_journal_base(&self, run_id: &str, events: &[WorkspaceOperationEvent]) -> (base: Result<String, FsError>)
        ensures
            match base {
                Ok(b) => events@.len() > 0 && b@ == events@[0].base_checkpoint@,
                Err(e) => events@.len() == 0 && e@ == FsErrorView::EmptyOperationJournal(run_id@),
            },
    {
        if events.len() == 0 {
            Err(FsError::EmptyOperationJournal(run_id.to_string()))
        } else {
            Ok(events[0].base_checkpoint.clone())
        }
    }

    /// The steps that write the base checkpoint into an empty directory and
    /// redo the operations within the limits there, and the report of them.
    /// `objects` holds the content objects that the writes name. Where an
    /// operation cannot be redone, the steps end before it.
    pub fn replay_operation_journal(
        &self,
        run_id: &str,
        events: &[WorkspaceOperationEvent],
        base: &WorkspaceCheckpoint,
        objects: &StringMap<Vec<u8>>,
        until_seq: Option<usize>,
        until_ts: Option<u128>,
        destination: String,
    ) -> (plan: Planned<WorkspaceOperationReplayReport>)
        requires
            base.wf(),
            objects.wf(),
            events@.len() > 0 ==> base.checkpoint_id@ == events@[0].base_checkpoint@,
        ensures
            events@.len() == 0 ==> plan.actions@.len() == 0 && (plan.outcome matches Err(e)
                && e@ == FsErrorView::EmptyOperationJournal(run_id@)),
            events@.len() > 0 ==> {
                let (steps, end) = replayed_operations(
                    operation_event_views(events@),
                    objects@,
                    until_seq,
                    until_ts,
                    events@.len() as int,
                );
                exists|first: Seq<FsActionView>, made: nat, restored: nat|
                    {
                        &&& #[trigger] is_writing(first, base.manifest(), made, restored)
                        &&& action_views(plan.actions@) == first + steps
                        &&& match end {
                            Ok(applied) => plan.outcome matches Ok(report) && {
                                &&& report.run_id@ == run_id@
                                &&& report.base_checkpoint@ == events@[0].base_checkpoint@
                                &&& report.until_seq == until_seq
                                &&& report.until_ts == until_ts
                                &&& report.applied_events == applied
                                &&& report.destination@ == destination@
                                &&& report.restored_dirs == made
                                &&& report.restored_files == restored
                            },
                            Err(error) => plan.outcome matches Err(e) && e@ == error,
                        }
                    }
            },
    {
        let mut actions: Vec<FsAction> = Vec::new();
        let base_checkpoint = match self.operation_journal_base(run_id, events) {
            Ok(b) => b,
            Err(e) => {
                return Planned { actions, outcome: Err(e) };
            },
        };
        assert(action_views(actions@) =~= Seq::empty());
        let (restored_files, restored_dirs) = write_checkpoint_to_root(&mut actions, &base.entries);
        let ghost first = choose|steps: Seq<FsActionView>|
            #[trigger] is_writing(steps, base.manifest(), restored_dirs as nat, restored_files as nat) && action_views(actions@) == Seq::<FsActionView>::empty()
                + steps;
        assert(action_views(actions@) =~= first);
        let end = replay_operations(&mut actions, events, objects, until_seq, until_ts);
        assert(is_writing(first, base.manifest(), restored_dirs as nat, restored_files as nat));
        match end {
            Ok(applied_events) => Planned {
                actions,
                outcome: Ok(
                    WorkspaceOperationReplayReport {
                        run_id: run_id.to_string(),
                        base_checkpoint,
                        until_seq,
                        until_ts,
                        applied_events,
                        destination,
                        restored_files,
                        restored_dirs,
                    },
                ),
            },
            Err(e) => Planned { actions, outcome: Err(e) },
        }
    }

    /// The steps that clear the workspace before a restored state is copied in.
    pub fn restore_removals(&self, current: &StringMap<WorkspaceEntry>) -> (actions: Vec<FsAction>)
        requires
            current.wf(),
        ensures
            exists|removals: Seq<Seq<char>>|
                #[trigger] is_removal_list(removals, manifest(current@), Map::empty()) && action_views(actions@) == remove_steps(
                    removals,
                ),
    {
        let nothing: StringMap<WorkspaceEntry> = StringMap::new();
        assert(manifest(nothing@) =~= Map::empty());
        let removable = removable_paths(current, &nothing);
        let mut actions: Vec<FsAction> = Vec::new();
        push_removals(&mut actions, &removable);
        assert(action_views(actions@) =~= remove_steps(views(removable@)));
        actions
    }

    /// The restore of a replayed tree: the steps that clear the workspace, those
    /// that copy what was found in the replayed tree into it, and the report,
    /// which is that of the replay with the workspace as its destination.
    pub fn restore_operation_journal(
        &self,
        replay: WorkspaceOperationReplayReport,
        current: &StringMap<WorkspaceEntry>,
        found: Vec<FoundPath>,
    ) -> (plan: RestorePlan)
        requires
            current.wf(),
        ensures
            exists|removals: Seq<Seq<char>>|
                #[trigger] is_removal_list(removals, manifest(current@), Map::empty()) && action_views(plan.removals@) == remove_steps(
                    removals,
                ),
            copy_views(plan.copies@) == copies_of(found_views(found@)),
            plan.report.destination@ == self.root@,
            plan.report.run_id == replay.run_id,
            plan.report.base_checkpoint == replay.base_checkpoint,
            plan.report.until_seq == replay.until_seq,
            plan.report.until_ts == replay.until_ts,
            plan.report.applied_events == replay.applied_events,
            plan.report.restored_files == replay.restored_files,
            plan.report.restored_dirs == replay.restored_dirs,
    {
        let mut report = replay;
        report.destination = self.root.clone();
        RestorePlan { removals: self.restore_removals(current), copies: copy_steps(found), report }
    }
}

} // verus!
