use shadox::run_id::{checkpoint_id_from, RunId};
use shadox::string_map::StringMap;
use shadox::versioned_fs::entry::WorkspaceEntry;
use shadox::versioned_fs::journal::FS_JOURNAL_SCHEMA_VERSION;
use shadox::versioned_fs::object::content_id;
use shadox::versioned_fs::operation::FS_OPERATION_JOURNAL_SCHEMA_VERSION;
use shadox::versioned_fs::plan::FsAction;
use shadox::versioned_fs::restore::{CopyAction, FoundPath};
use shadox::versioned_fs::session::{OperationJournal, RunEnd, RunFinish};
use shadox::versioned_fs::snapshot::{visit, Found};
use shadox::versioned_fs::store::{JournalFiles, StoreAction};
use shadox::versioned_fs::{
    WorkspaceChangeKind, WorkspaceCheckpoint, WorkspaceJournalEvent, WorkspaceJournalOp,
    WorkspaceOperation, WorkspaceOperationEvent, WorkspaceOperationRecorder, WorkspaceStore,
    WorkspaceTransaction,
};
use std::collections::BTreeMap;

#[derive(Clone, Debug, PartialEq)]
enum Node {
    File { bytes: Vec<u8>, readonly: bool },
    Directory,
}

/// A directory tree held in memory, with the content objects of a store.
#[derive(Clone, Debug, PartialEq)]
struct Disk {
    nodes: BTreeMap<String, Node>,
    objects: BTreeMap<String, Vec<u8>>,
}

impl Disk {
    fn new() -> Disk {
        Disk { nodes: BTreeMap::new(), objects: BTreeMap::new() }
    }

    fn make_dirs(&mut self, path: &str) {
        let mut whole = String::new();
        for piece in path.split('/') {
            if !whole.is_empty() {
                whole.push('/');
            }
            whole.push_str(piece);
            let node = self.nodes.entry(whole.clone()).or_insert(Node::Directory);
            assert_eq!(*node, Node::Directory, "{whole} is a file");
        }
    }

    fn make_parent(&mut self, path: &str) {
        if let Some(at) = path.rfind('/') {
            self.make_dirs(&path[..at]);
        }
    }

    fn write(&mut self, path: &str, text: &str) {
        self.nodes.insert(path.to_string(), Node::File { bytes: text.as_bytes().to_vec(), readonly: false });
    }

    fn read(&self, path: &str) -> Option<String> {
        match self.nodes.get(path) {
            Some(Node::File { bytes, .. }) => Some(String::from_utf8(bytes.clone()).unwrap()),
            _ => None,
        }
    }

    fn remove(&mut self, path: &str) {
        let below = format!("{path}/");
        self.nodes.retain(|key, _| key != path && !key.starts_with(&below));
    }

    fn rename(&mut self, from: &str, to: &str) {
        let node = self.nodes.remove(from).unwrap();
        self.nodes.insert(to.to_string(), node);
    }

    fn bytes_mut(&mut self, path: &str) -> &mut Vec<u8> {
        let node = self
            .nodes
            .entry(path.to_string())
            .or_insert(Node::File { bytes: Vec::new(), readonly: false });
        match node {
            Node::File { bytes, .. } => bytes,
            Node::Directory => panic!("{path} is a directory"),
        }
    }

    fn perform(&mut self, actions: &[FsAction]) {
        for action in actions {
            match action {
                FsAction::Remove(path) => self.remove(path),
                FsAction::MakeDirs(path) => self.make_dirs(path),
                FsAction::MakeParent(path) => self.make_parent(path),
                FsAction::RestoreFile { path, object, readonly } => {
                    self.make_parent(path);
                    if let Some(there) = self.nodes.get(path) {
                        assert!(matches!(there, Node::File { readonly: false, .. }), "{path} cannot be written");
                    }
                    let bytes = self.objects[object].clone();
                    self.nodes.insert(path.clone(), Node::File { bytes, readonly: *readonly });
                }
                FsAction::CreateFile(path) => self.bytes_mut(path).clear(),
                FsAction::WriteAt { path, offset, bytes } => {
                    let end = offset + bytes.len();
                    let target = self.bytes_mut(path);
                    if target.len() < end {
                        target.resize(end, 0);
                    }
                    target[*offset..end].copy_from_slice(bytes);
                }
                FsAction::SetLength { path, len } => self.bytes_mut(path).resize(*len as usize, 0),
                FsAction::Rename { source, path } => self.rename(source, path),
                FsAction::SetReadonly { path, readonly } => {
                    if let Some(Node::File { readonly: flag, .. }) = self.nodes.get_mut(path) {
                        *flag = *readonly;
                    }
                }
                FsAction::Sync(_) => {}
            }
        }
    }

    fn found(&self) -> Vec<FoundPath> {
        self.nodes
            .iter()
            .map(|(path, node)| FoundPath { path: path.clone(), directory: *node == Node::Directory })
            .collect()
    }

    fn copy(&mut self, source: &Disk, actions: &[CopyAction]) {
        for action in actions {
            match action {
                CopyAction::MakeDirs(path) => self.make_dirs(path),
                CopyAction::CopyFile(path) => {
                    self.make_parent(path);
                    self.nodes.insert(path.clone(), source.nodes[path].clone());
                }
            }
        }
    }

    fn snapshot(&mut self) -> StringMap<WorkspaceEntry> {
        let mut entries: StringMap<WorkspaceEntry> = StringMap::new();
        let mut closed: Vec<String> = Vec::new();
        for (path, node) in &self.nodes {
            if closed.iter().any(|dir| path.starts_with(&format!("{dir}/"))) {
                continue;
            }
            match node {
                Node::Directory => {
                    if !visit(&mut entries, path.clone(), Found::Directory, &[]) {
                        closed.push(path.clone());
                    }
                }
                Node::File { bytes, readonly } => {
                    let found = Found::File { size: bytes.len() as u64, readonly: *readonly };
                    assert!(!visit(&mut entries, path.clone(), found, bytes));
                    self.objects.insert(content_id(bytes), bytes.clone());
                }
            }
        }
        entries
    }

    fn objects(&self) -> StringMap<Vec<u8>> {
        let mut map: StringMap<Vec<u8>> = StringMap::new();
        for (id, bytes) in &self.objects {
            map.insert(id.clone(), bytes.clone());
        }
        map
    }

    fn view(&self) -> Disk {
        Disk { nodes: BTreeMap::new(), objects: self.objects.clone() }
    }
}

fn run() -> RunId {
    RunId { value: 0x0123_4567_89ab_4def_8123_4567_89ab_cdef }
}

fn store() -> WorkspaceStore {
    WorkspaceStore::open("/workspace".to_string())
}

fn checkpoint(disk: &mut Disk, id: u128, message: Option<&str>) -> WorkspaceCheckpoint {
    let entries = disk.snapshot();
    store().create_checkpoint(checkpoint_id_from(id), None, id, message.map(str::to_string), None, entries)
}

const NONE: JournalFiles = JournalFiles { active: false, compacted: false };
const ACTIVE: JournalFiles = JournalFiles { active: true, compacted: false };

fn finish(disk: &mut Disk, before: WorkspaceCheckpoint, ok: bool, rollback: bool, commit: bool) -> RunEnd {
    let store = store();
    let session = store.begin_run(&before);
    let entries = disk.snapshot();
    let after = store.create_checkpoint(
        checkpoint_id_from(99),
        Some(before.checkpoint_id.clone()),
        99,
        None,
        Some(run()),
        entries,
    );
    let changes = store.diff_checkpoints(&before, &after).changes.len();
    let end = RunFinish {
        run_id: run(),
        command_succeeded: ok,
        rollback_on_failure: rollback,
        commit_on_success: commit,
        before,
        after,
        current: disk.snapshot(),
        stamps: vec![7; changes],
        compacted_journal: false,
        operations: NONE,
    };
    let result = store.finish_run(session, &end);
    disk.perform(&result.actions);
    result
}

#[test]
fn checkpoint_diff_and_rollback_restore_workspace() {
    let mut disk = Disk::new();
    disk.write("a.txt", "one");
    disk.make_dirs("src");
    disk.write("src/lib.rs", "old");
    let store = store();
    let before = checkpoint(&mut disk, 1, Some("before"));

    disk.write("a.txt", "two");
    disk.write("new.txt", "new");
    disk.remove("src/lib.rs");
    let after = checkpoint(&mut disk, 2, Some("after"));
    let diff = store.diff_checkpoints(&before, &after);

    assert_eq!(diff.changes.len(), 3);
    assert!(diff.changes.iter().any(|change| change.kind == WorkspaceChangeKind::Modified));

    let current = disk.snapshot();
    let (actions, rollback) = store.rollback(&before, &current);
    disk.perform(&actions);
    assert_eq!(rollback.restored_files, 2);
    assert_eq!(rollback.restored_dirs, 1);
    assert_eq!(rollback.removed_paths, 1);
    assert_eq!(disk.read("a.txt").as_deref(), Some("one"));
    assert_eq!(disk.read("src/lib.rs").as_deref(), Some("old"));
    assert!(!disk.nodes.contains_key("new.txt"));
    assert_eq!(disk.snapshot(), before.entries);
}

#[test]
fn diff_detects_file_rename() {
    let mut disk = Disk::new();
    disk.write("old.txt", "same");
    let before = checkpoint(&mut disk, 1, None);
    disk.rename("old.txt", "new.txt");
    let after = checkpoint(&mut disk, 2, None);
    let diff = store().diff_checkpoints(&before, &after);

    assert_eq!(diff.changes.len(), 1);
    assert_eq!(diff.changes[0].kind, WorkspaceChangeKind::Renamed);
    assert_eq!(diff.changes[0].source_path.as_deref(), Some("old.txt"));
    assert_eq!(diff.changes[0].path, "new.txt");
}

#[test]
fn verify_and_gc_report_store_health() {
    let mut disk = Disk::new();
    disk.write("keep.txt", "keep");
    let store = store();
    let kept = checkpoint(&mut disk, 1, None);
    let stray = content_id(b"stray");
    disk.objects.insert(stray.clone(), b"stray".to_vec());

    let checkpoints = vec![kept];
    let mut found: StringMap<String> = StringMap::new();
    found.insert(content_id(b"keep"), content_id(b"keep"));
    let verify = store.verify(&checkpoints, &found, 2);
    assert!(verify.ok);
    assert_eq!(verify.checkpoint_count, 1);
    assert_eq!(verify.object_count, 2);

    let files: Vec<(String, u64)> =
        disk.objects.iter().map(|(id, bytes)| (id.clone(), bytes.len() as u64)).collect();
    let (removed, gc) = store.gc(&checkpoints, &files);
    assert_eq!(gc.removed_objects, 1);
    assert_eq!(gc.removed_bytes, 5);
    assert_eq!(gc.referenced_objects, 1);
    assert_eq!(removed, vec![stray]);

    let left: Vec<(String, u64)> = files.into_iter().filter(|file| !removed.contains(&file.0)).collect();
    let (removed, gc) = store.gc(&checkpoints, &left);
    assert!(removed.is_empty());
    assert_eq!(gc.removed_objects, 0);
    assert_eq!(gc.removed_bytes, 0);
    assert_eq!(gc.referenced_objects, 1);
}

#[test]
fn verify_tells_missing_objects_from_corrupt_ones() {
    let mut disk = Disk::new();
    disk.write("a.txt", "one");
    disk.write("b.txt", "two");
    let checkpoints = vec![checkpoint(&mut disk, 1, None)];
    let mut found: StringMap<String> = StringMap::new();
    found.insert(content_id(b"one"), content_id(b"changed"));
    let report = store().verify(&checkpoints, &found, 1);
    assert!(!report.ok);
    assert_eq!(report.missing_objects, vec![content_id(b"two")]);
    assert_eq!(report.corrupt_objects, vec![content_id(b"one")]);
}

#[test]
fn materialize_writes_checkpoint_to_separate_directory() {
    let mut disk = Disk::new();
    disk.write("a.txt", "one");
    let store = store();
    let saved = checkpoint(&mut disk, 1, None);
    disk.write("a.txt", "two");

    let mut view = disk.view();
    let (actions, report) = store.materialize(&saved, "/view".to_string());
    view.perform(&actions);

    assert_eq!(report.restored_files, 1);
    assert_eq!(report.destination, "/view");
    assert_eq!(view.read("a.txt").as_deref(), Some("one"));
    assert_eq!(disk.read("a.txt").as_deref(), Some("two"));
}

#[test]
fn status_reports_changes_since_head() {
    let mut disk = Disk::new();
    disk.write("a.txt", "one");
    let store = store();
    let head = checkpoint(&mut disk, 1, None);
    let entries = disk.snapshot();
    let id = head.checkpoint_id.clone();
    let clean = store.status(Some((id.clone(), head)), &entries);
    assert!(!clean.dirty);
    assert_eq!(clean.head.as_deref(), Some(id.as_str()));

    let mut again = Disk::new();
    again.write("a.txt", "one");
    let head = checkpoint(&mut again, 1, None);
    disk.write("a.txt", "two");
    disk.write("b.txt", "new");
    let entries = disk.snapshot();
    let dirty = store.status(Some((id, head)), &entries);
    assert!(dirty.dirty);
    assert_eq!(dirty.changes.len(), 2);
    assert!(dirty.changes.iter().any(|change| change.kind == WorkspaceChangeKind::Modified));
    assert!(dirty.changes.iter().any(|change| change.kind == WorkspaceChangeKind::Added));
}

#[test]
fn status_without_a_head_is_clean() {
    let mut disk = Disk::new();
    disk.write("a.txt", "one");
    let entries = disk.snapshot();
    let report = store().status(None, &entries);
    assert_eq!(report.head, None);
    assert!(!report.dirty);
    assert!(report.changes.is_empty());
}

#[test]
fn replay_journal_prefix_materializes_intermediate_state() {
    let mut disk = Disk::new();
    disk.write("a.txt", "one");
    let store = store();
    let base = checkpoint(&mut disk, 1, None);
    let before = checkpoint(&mut disk, 1, None);
    disk.write("a.txt", "two");
    disk.write("b.txt", "new");
    let end = finish(&mut disk, before, true, false, false);
    assert_eq!(end.outcome.changes.len(), 2);

    let run_text = run().text();
    let (actions, report) = store
        .replay_journal(&run_text, &end.journal, &base, Some(1), None, "/view".to_string())
        .unwrap();
    let mut view = disk.view();
    view.perform(&actions);
    assert_eq!(report.applied_events, 1);
    assert_eq!(view.read("a.txt").as_deref(), Some("two"));
    assert!(!view.nodes.contains_key("b.txt"));

    let (actions, report) = store
        .replay_journal(&run_text, &end.journal, &base, None, None, "/view".to_string())
        .unwrap();
    let mut view = disk.view();
    view.perform(&actions);
    assert_eq!(report.applied_events, 2);
    assert_eq!(view.nodes, disk.nodes);
}

fn operations(disk: &mut Disk, store: &WorkspaceStore, base: &WorkspaceCheckpoint) -> Vec<WorkspaceOperationEvent> {
    let mut events: Vec<WorkspaceOperationEvent> = Vec::new();
    let write = store
        .append_write_operation(run(), base.checkpoint_id.clone(), "a.txt".to_string(), 6, b"rust", false, &events, 10)
        .unwrap();
    assert_eq!(write.seq, 1);
    disk.objects.insert(content_id(b"rust"), b"rust".to_vec());
    events.push(write);
    let truncate = WorkspaceOperation::Truncate { path: "a.txt".to_string(), len: 10 };
    let event = store
        .append_operation_event(run(), base.checkpoint_id.clone(), truncate, false, &events, 11)
        .unwrap();
    events.push(event);
    events
}

#[test]
fn operation_journal_replays_prefix_and_full_history() {
    let mut disk = Disk::new();
    disk.write("a.txt", "hello world");
    let store = store();
    let base = checkpoint(&mut disk, 1, Some("base"));
    let mut events = operations(&mut disk, &store, &base);
    let rename = WorkspaceOperation::RenamePath { source_path: "a.txt".to_string(), path: "b.txt".to_string() };
    let event = store
        .append_operation_event(run(), base.checkpoint_id.clone(), rename, false, &events, 12)
        .unwrap();
    events.push(event);
    let objects = disk.objects();

    let plan = store.replay_operation_journal(&run().text(), &events, &base, &objects, Some(1), None, "/prefix".to_string());
    let mut prefix = disk.view();
    prefix.perform(&plan.actions);
    assert_eq!(plan.outcome.unwrap().applied_events, 1);
    assert_eq!(prefix.read("a.txt").as_deref(), Some("hello rustd"));

    let plan = store.replay_operation_journal(&run().text(), &events, &base, &objects, None, None, "/full".to_string());
    let mut full = disk.view();
    full.perform(&plan.actions);
    assert_eq!(events.len(), 3);
    assert_eq!(plan.outcome.unwrap().applied_events, 3);
    assert!(!full.nodes.contains_key("a.txt"));
    assert_eq!(full.read("b.txt").as_deref(), Some("hello rust"));
    assert_eq!(events[0].schema_version, FS_OPERATION_JOURNAL_SCHEMA_VERSION);
    assert!(matches!(events[0].op, WorkspaceOperation::Write { .. }));
}

#[test]
fn operation_journal_replays_until_timestamp() {
    let mut disk = Disk::new();
    disk.write("a.txt", "hello world");
    let store = store();
    let base = checkpoint(&mut disk, 1, None);
    let events = operations(&mut disk, &store, &base);
    let first_ts = events[0].ts;
    let objects = disk.objects();
    let plan =
        store.replay_operation_journal(&run().text(), &events, &base, &objects, None, Some(first_ts), "/view".to_string());
    let mut view = disk.view();
    view.perform(&plan.actions);
    let report = plan.outcome.unwrap();
    assert_eq!(report.until_ts, Some(first_ts));
    assert_eq!(report.applied_events, 1);
    assert_eq!(view.read("a.txt").as_deref(), Some("hello rustd"));
}

#[test]
fn operation_journal_restores_workspace_until_timestamp() {
    let mut disk = Disk::new();
    disk.write("a.txt", "hello world");
    let store = store();
    let base = checkpoint(&mut disk, 1, None);
    let events = operations(&mut disk, &store, &base);
    let first_ts = events[0].ts;
    disk.write("a.txt", "current");
    disk.write("extra.txt", "remove me");

    let objects = disk.objects();
    let temp = store.restore_path("1");
    assert_eq!(temp, "/workspace/.shadox/fs/restores/restore_1");
    let plan = store.replay_operation_journal(&run().text(), &events, &base, &objects, None, Some(first_ts), temp);
    let mut view = disk.view();
    view.perform(&plan.actions);
    let current = disk.snapshot();
    let restore = store.restore_operation_journal(plan.outcome.unwrap(), &current, view.found());
    disk.perform(&restore.removals);
    disk.copy(&view, &restore.copies);
    let report = restore.report;

    assert_eq!(report.destination, store.root());
    assert_eq!(report.applied_events, 1);
    assert_eq!(disk.read("a.txt").as_deref(), Some("hello rustd"));
    assert!(!disk.nodes.contains_key("extra.txt"));
}

#[test]
fn operation_recorder_wraps_adapter_lifecycle() {
    let mut disk = Disk::new();
    disk.write("a.txt", "hello world");
    let base = checkpoint(&mut disk, 1, None);
    let recorder = WorkspaceOperationRecorder::begin(store(), run(), &base);
    assert_eq!(recorder.run_id(), run());
    assert_eq!(recorder.base_checkpoint(), base.checkpoint_id);
    assert_eq!(recorder.workspace(), "/workspace");

    let mut journal = OperationJournal { compacted: false, events: Vec::new() };
    recorder.record_write(&mut journal, "a.txt".to_string(), 6, b"rust", 1).unwrap();
    recorder.record_truncate(&mut journal, "a.txt".to_string(), 10, 2).unwrap();
    recorder.record_rename_path(&mut journal, "a.txt".to_string(), "b.txt".to_string(), 3).unwrap();
    disk.objects.insert(content_id(b"rust"), b"rust".to_vec());

    assert_eq!(journal.events.len(), 3);
    assert_eq!(journal.events[0].seq, 1);
    assert_eq!(journal.events[2].seq, 3);
    assert_eq!(journal.events[0].base_checkpoint, base.checkpoint_id);

    disk.rename("a.txt", "b.txt");
    disk.write("b.txt", "hello rust");
    let entries = disk.snapshot();
    let after = store().create_checkpoint(checkpoint_id_from(2), None, 2, None, Some(run()), entries);
    let (actions, outcome) = recorder.finish(&after, &journal.events, true, NONE, ACTIVE);
    assert_eq!(outcome.operation_count, 3);
    assert_eq!(outcome.base_checkpoint, base.checkpoint_id);
    assert!(outcome.committed);

    let store = store();
    let head = actions.iter().find_map(|action| match action {
        StoreAction::WriteText { path, text } if *path == store.head_path() => Some(text.clone()),
        _ => None,
    });
    assert_eq!(store.head(head.as_deref()), Some(outcome.checkpoint_after));
    let from = store.operation_journal_path(&run().text());
    let to = store.compacted_operation_journal_path(&run().text());
    assert!(actions.contains(&StoreAction::RenameFile { from, to: to.clone() }));
    assert_eq!(outcome.journal_path, to);

    let objects = disk.objects();
    let plan = store.replay_operation_journal(&run().text(), &journal.events, &base, &objects, Some(2), None, "/view".to_string());
    let mut view = disk.view();
    view.perform(&plan.actions);
    assert_eq!(plan.outcome.unwrap().applied_events, 2);
    assert_eq!(view.read("a.txt").as_deref(), Some("hello rust"));
}

#[test]
fn operation_journal_rejects_paths_outside_workspace() {
    let mut disk = Disk::new();
    let base = checkpoint(&mut disk, 1, None);
    let op = WorkspaceOperation::CreateFile { path: "../escape.txt".to_string() };
    let error = store()
        .append_operation_event(run(), base.checkpoint_id, op, false, &[], 1)
        .unwrap_err();
    assert!(error.message().contains("stay inside the workspace"), "{error:?}");
}

#[test]
fn operation_journal_rejects_mixed_base_checkpoints() {
    let mut disk = Disk::new();
    disk.write("a.txt", "one");
    let store = store();
    let first = checkpoint(&mut disk, 1, Some("first"));
    let fsync = WorkspaceOperation::Fsync { path: "a.txt".to_string() };
    let event = store
        .append_operation_event(run(), first.checkpoint_id, fsync, false, &[], 1)
        .unwrap();
    disk.write("a.txt", "two");
    let second = checkpoint(&mut disk, 2, Some("second"));
    let fsync = WorkspaceOperation::Fsync { path: "a.txt".to_string() };
    let error = store
        .append_operation_event(run(), second.checkpoint_id, fsync, false, &[event], 2)
        .unwrap_err();
    assert!(error.message().contains("already uses base checkpoint"), "{error:?}");
}

#[test]
fn operation_journal_rejects_append_after_compaction() {
    let mut disk = Disk::new();
    disk.write("a.txt", "one");
    let base = checkpoint(&mut disk, 1, None);
    let recorder = WorkspaceOperationRecorder::begin(store(), run(), &base);
    let mut journal = OperationJournal { compacted: false, events: Vec::new() };
    recorder.record_write(&mut journal, "a.txt".to_string(), 0, b"two", 1).unwrap();
    disk.write("a.txt", "two");
    let entries = disk.snapshot();
    let after = store().create_checkpoint(checkpoint_id_from(2), None, 2, None, Some(run()), entries);
    let (actions, outcome) = recorder.finish(&after, &journal.events, true, NONE, ACTIVE);
    let closed = store().compacted_operation_journal_path(&run().text());
    assert_eq!(outcome.journal_path, closed);
    let compacted =
        actions.iter().any(|action| matches!(action, StoreAction::RenameFile { to, .. } if *to == closed));
    let error = store()
        .append_write_operation(run(), base.checkpoint_id, "a.txt".to_string(), 0, b"bad", compacted, &journal.events, 2)
        .unwrap_err();
    assert!(error.message().contains("compacted and cannot be appended"), "{error:?}");
}

#[test]
fn journal_events_expose_stable_redo_schema() {
    let mut disk = Disk::new();
    disk.write("a.txt", "one");
    let before = checkpoint(&mut disk, 1, None);
    disk.write("a.txt", "two");
    let end = finish(&mut disk, before, true, false, false);
    assert_eq!(end.outcome.changes.len(), 1);

    let events: Vec<WorkspaceJournalEvent> = end.journal;
    assert_eq!(events.len(), 1);
    assert_eq!(events[0].schema_version, FS_JOURNAL_SCHEMA_VERSION);
    assert_eq!(events[0].seq, 1);
    assert_eq!(events[0].op, WorkspaceJournalOp::WriteFile);
    assert_eq!(events[0].path, "a.txt");
    assert_eq!(events[0].base_checkpoint, end.outcome.checkpoint_before);
    assert_eq!(events[0].target_checkpoint, end.outcome.checkpoint_after);
}

#[test]
fn transaction_helper_finishes_and_commits_workspace_run() {
    let mut disk = Disk::new();
    disk.write("a.txt", "one");
    let store = store();
    let before = checkpoint(&mut disk, 1, None);
    let before_id = before.checkpoint_id.clone();
    let transaction = WorkspaceTransaction::begin(WorkspaceStore::open("/workspace".to_string()), run(), &before);
    assert_eq!(transaction.checkpoint_before(), Some(before_id.as_str()));
    assert_eq!(transaction.workspace(), "/workspace");

    disk.write("a.txt", "two");
    let entries = disk.snapshot();
    let after = store.create_checkpoint(checkpoint_id_from(2), None, 2, None, Some(run()), entries);
    let end = RunFinish {
        run_id: run(),
        command_succeeded: true,
        rollback_on_failure: false,
        commit_on_success: true,
        before,
        after,
        current: disk.snapshot(),
        stamps: vec![5],
        compacted_journal: false,
        operations: NONE,
    };
    let result = transaction.finish(&end).unwrap();
    let outcome = result.outcome;
    let head = result.store_actions.iter().find_map(|action| match action {
        StoreAction::WriteText { path, text } if *path == store.head_path() => Some(text.clone()),
        _ => None,
    });
    assert_eq!(store.head(head.as_deref()), Some(outcome.checkpoint_after.clone()));
    assert_eq!(outcome.checkpoint_before, before_id);
    assert!(outcome.committed);
    let from = store.journal_path(&run().text());
    let to = store.compacted_journal_path(&run().text());
    assert!(result.store_actions.contains(&StoreAction::RenameFile { from, to: to.clone() }));
    assert_eq!(outcome.journal_path, to);
    assert_eq!(result.journal.len(), 1);
}

#[test]
fn versioned_workspace_commits_successful_run() {
    let mut disk = Disk::new();
    disk.write("a.txt", "one");
    let before = checkpoint(&mut disk, 1, None);
    disk.write("a.txt", "two");
    let end = finish(&mut disk, before, true, true, true);
    assert!(end.outcome.committed);
    assert!(!end.outcome.rolled_back);
    assert_eq!(end.outcome.changed_files, 1);
    assert!(end.actions.is_empty());
    assert_eq!(disk.read("a.txt").as_deref(), Some("two"));
}

#[test]
fn versioned_workspace_rolls_back_failed_run() {
    let mut disk = Disk::new();
    disk.write("a.txt", "one");
    let start = disk.nodes.clone();
    let before = checkpoint(&mut disk, 1, None);
    disk.write("a.txt", "bad");
    disk.write("left.txt", "over");
    let end = finish(&mut disk, before, false, true, true);
    assert!(!end.outcome.committed);
    assert!(end.outcome.rolled_back);
    assert_eq!(end.outcome.changed_files, 2);
    assert_eq!(end.outcome.rollback.unwrap().removed_paths, 1);
    assert_eq!(disk.nodes, start);
}

#[test]
fn a_failed_run_without_rollback_keeps_its_changes() {
    let mut disk = Disk::new();
    disk.write("a.txt", "one");
    let before = checkpoint(&mut disk, 1, None);
    disk.write("a.txt", "bad");
    let end = finish(&mut disk, before, false, false, true);
    assert!(!end.outcome.committed);
    assert!(!end.outcome.rolled_back);
    assert_eq!(end.outcome.rollback, None);
    assert_eq!(disk.read("a.txt").as_deref(), Some("bad"));
}

#[test]
fn rollback_restores_paths_that_changed_kind() {
    let mut disk = Disk::new();
    disk.write("was_file", "one");
    disk.make_dirs("was_dir/below");
    disk.write("was_dir/below/x", "two");
    let start = disk.nodes.clone();
    let before = checkpoint(&mut disk, 1, None);
    disk.remove("was_file");
    disk.make_dirs("was_file/new");
    disk.write("was_file/new/y", "three");
    disk.remove("was_dir");
    disk.write("was_dir", "four");
    let current = disk.snapshot();
    let (actions, report) = store().rollback(&before, &current);
    disk.perform(&actions);
    assert_eq!(disk.nodes, start);
    assert_eq!(report.removed_paths, 4);
    assert_eq!(report.restored_files, 2);
    assert_eq!(report.restored_dirs, 2);
    let current = disk.snapshot();
    let (_, again) = store().rollback(&before, &current);
    assert_eq!(again.removed_paths, 0);
}

#[test]
fn rollback_restores_readonly_files() {
    let mut disk = Disk::new();
    disk.nodes.insert("keep".to_string(), Node::File { bytes: b"one".to_vec(), readonly: true });
    disk.write("locked", "two");
    let start = disk.nodes.clone();
    let before = checkpoint(&mut disk, 1, None);
    disk.nodes.insert("locked".to_string(), Node::File { bytes: b"changed".to_vec(), readonly: true });
    let current = disk.snapshot();
    let (actions, report) = store().rollback(&before, &current);
    assert_eq!(actions[0], FsAction::SetReadonly { path: "keep".to_string(), readonly: false });
    assert_eq!(actions[1], FsAction::SetReadonly { path: "locked".to_string(), readonly: false });
    disk.perform(&actions);
    assert_eq!(disk.nodes, start);
    assert_eq!(report.removed_paths, 0);
}

#[test]
fn a_deleted_directory_is_no_changed_file() {
    let mut disk = Disk::new();
    disk.make_dirs("d");
    let before = checkpoint(&mut disk, 1, None);
    disk.remove("d");
    let end = finish(&mut disk, before, true, false, false);
    assert_eq!(end.outcome.changes.len(), 1);
    assert_eq!(end.outcome.changes[0].kind, WorkspaceChangeKind::Deleted);
    assert_eq!(end.outcome.changes[0].path, "d");
    assert_eq!(end.outcome.changes[0].before, Some(WorkspaceEntry::Directory));
    assert_eq!(end.outcome.changed_files, 0);
}

#[test]
fn a_file_that_becomes_a_directory_is_a_changed_file() {
    let mut disk = Disk::new();
    disk.write("p", "one");
    let before = checkpoint(&mut disk, 1, None);
    disk.remove("p");
    disk.make_dirs("p");
    let end = finish(&mut disk, before, true, false, false);
    assert_eq!(end.outcome.changes[0].kind, WorkspaceChangeKind::TypeChanged);
    assert_eq!(end.outcome.changed_files, 1);
}

#[test]
fn a_recording_of_nothing_finishes() {
    let mut disk = Disk::new();
    let base = checkpoint(&mut disk, 1, None);
    let recorder = WorkspaceOperationRecorder::begin(store(), run(), &base);
    let entries = disk.snapshot();
    let after = store().create_checkpoint(checkpoint_id_from(2), None, 2, None, Some(run()), entries);
    let (actions, outcome) = recorder.finish(&after, &[], false, NONE, NONE);
    assert!(actions.is_empty());
    assert_eq!(outcome.operation_count, 0);
    assert_eq!(outcome.journal_path, store().operation_journal_path(&run().text()));
}

fn perform_on_texts(texts: &mut BTreeMap<String, String>, actions: &[StoreAction]) {
    for action in actions {
        match action {
            StoreAction::MakeDirs(_) => {}
            StoreAction::RemoveFile(path) => assert!(texts.remove(path).is_some()),
            StoreAction::RenameFile { from, to } => {
                let text = texts.remove(from).unwrap();
                texts.insert(to.clone(), text);
            }
            StoreAction::WriteText { path, text } => {
                texts.insert(path.clone(), text.clone());
            }
        }
    }
}

#[test]
fn compacting_keeps_what_the_journals_hold() {
    let store = store();
    let text = run().text();
    let mut texts: BTreeMap<String, String> = BTreeMap::new();
    texts.insert(store.journal_path(&text), "new".to_string());
    texts.insert(store.compacted_journal_path(&text), "old".to_string());
    texts.insert(store.operation_journal_path(&text), "ops".to_string());
    texts.insert(store.head_path(), "head".to_string());
    assert_eq!(texts.len(), 4);

    let both = JournalFiles { active: true, compacted: true };
    let (actions, report) = store.compact_run_journals(run(), both, ACTIVE);
    perform_on_texts(&mut texts, &actions);
    assert_eq!(report.compacted_journals, 2);
    assert!(!texts.contains_key(&store.journal_path(&text)));
    assert!(!texts.contains_key(&store.operation_journal_path(&text)));
    assert_eq!(texts[&store.compacted_journal_path(&text)], "new");
    assert_eq!(texts[&store.compacted_operation_journal_path(&text)], "ops");
    assert_eq!(texts[&store.head_path()], "head");

    let closed = JournalFiles { active: false, compacted: true };
    let (actions, report) = store.compact_run_journals(run(), closed, closed);
    assert!(actions.is_empty());
    assert_eq!(report.compacted_journals, 2);
}
