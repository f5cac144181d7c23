use shadox::run_id::{checkpoint_id_from, new_checkpoint_id, RunId};
use shadox::string_map::StringMap;
use shadox::versioned_fs::diff::{detect_renames, diff_entries, WorkspaceChange};
use shadox::versioned_fs::entry::WorkspaceEntry;
use shadox::versioned_fs::journal::{apply_journal_event, journal_lines, within_limit};
use shadox::versioned_fs::lines::{journal_text, operation_line};
use shadox::versioned_fs::object::{content_id, validate_content_id};
use shadox::versioned_fs::operation::{apply_operation_event, splice, validate_operation};
use shadox::versioned_fs::paths::{
    checked_relative_path, join_path, path_depth, relative_path, relative_string, should_ignore,
};
use shadox::versioned_fs::plan::{locked_paths, removable_paths, FsAction};
use shadox::versioned_fs::session::{
    after_run_message, before_run_message, operation_after_message, operation_base_message,
};
use shadox::versioned_fs::snapshot::{visit, Found};
use shadox::versioned_fs::store::{
    prepare_destination, DestinationState, JournalFiles, StoreAction, WorkspaceCheckpointSummary,
};
use shadox::versioned_fs::{
    FsError, WorkspaceChangeKind, WorkspaceJournalEvent, WorkspaceJournalOp, WorkspaceOperation,
    WorkspaceOperationEvent, WorkspaceStore, WorkspaceTransaction,
};

const ABC: &str = "ba7816bf8f01cfea414140de5dae2223b00361a396177a9cb410ff61f20015ad";

fn file(text: &str) -> WorkspaceEntry {
    WorkspaceEntry::File {
        size: text.len() as u64,
        hash: content_id(text.as_bytes()),
        object: content_id(text.as_bytes()),
        readonly: false,
    }
}

fn manifest(list: &[(&str, WorkspaceEntry)]) -> StringMap<WorkspaceEntry> {
    let mut map: StringMap<WorkspaceEntry> = StringMap::new();
    for (path, entry) in list {
        map.insert(path.to_string(), entry.clone());
    }
    map
}

fn nil() -> RunId {
    RunId { value: 0 }
}

fn event(op: WorkspaceOperation) -> WorkspaceOperationEvent {
    WorkspaceOperationEvent { schema_version: 1, seq: 4, ts: 9, run_id: nil(), base_checkpoint: "c".to_string(), op }
}

#[test]
fn content_ids_are_sha256_in_hexadecimal() {
    assert_eq!(content_id(b"abc"), ABC);
    assert_eq!(content_id(b""), "e3b0c44298fc1c149afbf4c8996fb92427ae41e4649b934ca495991b7852b855");
}

#[test]
fn content_ids_are_checked() {
    assert!(validate_content_id(ABC).is_ok());
    assert!(validate_content_id(&ABC.to_uppercase()).is_ok());
    assert_eq!(validate_content_id("abc"), Err(FsError::InvalidContentId("abc".to_string())));
    let slash = format!("/{}", &ABC[1..]);
    assert_eq!(validate_content_id(&slash), Err(FsError::InvalidContentId(slash.clone())));
    assert_eq!(
        FsError::InvalidContentId("abc".to_string()).message(),
        "invalid content object id: abc"
    );
}

#[test]
fn paths_are_kept_inside() {
    assert_eq!(checked_relative_path("a/./b//c"), Ok("a/b/c".to_string()));
    assert_eq!(checked_relative_path("./a"), Ok("a".to_string()));
    assert_eq!(checked_relative_path(""), Err(FsError::EmptyPath));
    assert_eq!(checked_relative_path("."), Err(FsError::EmptyPath));
    assert_eq!(checked_relative_path("/etc"), Err(FsError::OutsidePath("/etc".to_string())));
    assert_eq!(checked_relative_path("a/../b"), Err(FsError::OutsidePath("a/../b".to_string())));
    assert_eq!(FsError::EmptyPath.message(), "operation path must not be empty");
}

#[test]
fn paths_are_joined_as_paths() {
    assert_eq!(join_path("a", "b"), "a/b");
    assert_eq!(join_path("a/", "b"), "a/b");
    assert_eq!(join_path("", "b"), "b");
    assert_eq!(join_path("a", "/b"), "/b");
    assert_eq!(join_path("a", ""), "a/");
    assert_eq!(relative_path("a/b/c"), "a/b/c");
    assert_eq!(path_depth("a/b/c"), 3);
    assert_eq!(path_depth("a"), 1);
}

#[test]
fn generated_directories_are_ignored() {
    assert!(should_ignore(".git/config"));
    assert!(should_ignore(".shadox"));
    assert!(should_ignore("target/debug"));
    assert!(should_ignore("node_modules/x/y"));
    assert!(!should_ignore("src/target"));
    assert!(!should_ignore("targets"));
}

#[test]
fn keys_are_relative_to_the_root() {
    assert_eq!(relative_string("/w", "/w/a/b").as_deref(), Some("a/b"));
    assert_eq!(relative_string("/w", "/x/a"), None);
}

#[test]
fn snapshots_skip_links_and_ignored_paths() {
    let mut entries: StringMap<WorkspaceEntry> = StringMap::new();
    assert!(!visit(&mut entries, ".git".to_string(), Found::Directory, &[]));
    assert!(visit(&mut entries, "src".to_string(), Found::Directory, &[]));
    assert!(!visit(&mut entries, "link".to_string(), Found::Symlink, &[]));
    assert!(!visit(&mut entries, "pipe".to_string(), Found::Other, &[]));
    assert!(!visit(&mut entries, "src/a".to_string(), Found::File { size: 3, readonly: false }, b"abc"));
    assert_eq!(entries, manifest(&[("src", WorkspaceEntry::Directory), ("src/a", file("abc"))]));
    match entries.get("src/a") {
        Some(WorkspaceEntry::File { hash, object, .. }) => {
            assert_eq!(hash, ABC);
            assert_eq!(object, ABC);
        }
        _ => panic!("a file"),
    }
}

#[test]
fn diffs_name_every_kind_of_change() {
    let from = manifest(&[
        ("changed", file("1")),
        ("gone", file("2")),
        ("kept", file("3")),
        ("turned", file("4")),
    ]);
    let to = manifest(&[
        ("changed", file("5")),
        ("kept", file("3")),
        ("new", file("6")),
        ("turned", WorkspaceEntry::Directory),
    ]);
    let list: Vec<(WorkspaceChangeKind, String)> =
        diff_entries(&from, &to).into_iter().map(|change| (change.kind, change.path)).collect();
    assert_eq!(
        list,
        vec![
            (WorkspaceChangeKind::Modified, "changed".to_string()),
            (WorkspaceChangeKind::Deleted, "gone".to_string()),
            (WorkspaceChangeKind::Added, "new".to_string()),
            (WorkspaceChangeKind::TypeChanged, "turned".to_string()),
        ]
    );
    assert!(diff_entries(&from, &from).is_empty());
}

#[test]
fn two_equal_files_are_renamed_one_for_one() {
    let from = manifest(&[("a", file("same")), ("b", file("same"))]);
    let to = manifest(&[("x", file("same")), ("y", file("same"))]);
    let list: Vec<(Option<String>, String)> =
        diff_entries(&from, &to).into_iter().map(|change| (change.source_path, change.path)).collect();
    assert_eq!(
        list,
        vec![(Some("a".to_string()), "x".to_string()), (Some("b".to_string()), "y".to_string())]
    );
}

fn change(kind: WorkspaceChangeKind, path: &str, text: &str) -> WorkspaceChange {
    let deleted = kind == WorkspaceChangeKind::Deleted;
    WorkspaceChange {
        kind,
        path: path.to_string(),
        source_path: None,
        before: if deleted { Some(file(text)) } else { None },
        after: if deleted { None } else { Some(file(text)) },
    }
}

#[test]
fn renames_are_found_in_lists_of_any_order() {
    let list = detect_renames(vec![
        change(WorkspaceChangeKind::Added, "z", "other"),
        change(WorkspaceChangeKind::Deleted, "b", "same"),
        change(WorkspaceChangeKind::Added, "y", "same"),
        change(WorkspaceChangeKind::Added, "x", "same"),
        change(WorkspaceChangeKind::Deleted, "a", "gone"),
    ]);
    let shown: Vec<(WorkspaceChangeKind, &str, Option<&str>)> =
        list.iter().map(|c| (c.kind, c.path.as_str(), c.source_path.as_deref())).collect();
    assert_eq!(
        shown,
        vec![
            (WorkspaceChangeKind::Deleted, "a", None),
            (WorkspaceChangeKind::Added, "x", None),
            (WorkspaceChangeKind::Renamed, "y", Some("b")),
            (WorkspaceChangeKind::Added, "z", None),
        ]
    );
    let swapped = detect_renames(vec![
        change(WorkspaceChangeKind::Added, "b", "one"),
        change(WorkspaceChangeKind::Added, "a", "two"),
    ]);
    assert_eq!(swapped[0].path, "a");
    assert_eq!(swapped[1].path, "b");
}

#[test]
fn a_diff_turns_round_with_its_sides() {
    let from = manifest(&[("a", file("one")), ("b", file("two")), ("c", file("three"))]);
    let to = manifest(&[("b", file("changed")), ("d", file("one")), ("e", file("new"))]);
    let there = diff_entries(&from, &to);
    let back = diff_entries(&to, &from);
    assert_eq!(there.len(), 4);
    assert_eq!(back.len(), 4);
    for c in &there {
        let kind = match c.kind {
            WorkspaceChangeKind::Added => WorkspaceChangeKind::Deleted,
            WorkspaceChangeKind::Deleted => WorkspaceChangeKind::Added,
            other => other,
        };
        let turned = WorkspaceChange {
            kind,
            path: c.source_path.clone().unwrap_or(c.path.clone()),
            source_path: c.source_path.as_ref().map(|_| c.path.clone()),
            before: c.after.clone(),
            after: c.before.clone(),
        };
        assert!(back.contains(&turned), "{turned:?}");
    }
}

#[test]
fn changes_are_redone_in_any_order() {
    let from = manifest(&[("a", file("one")), ("b", file("two")), ("c", file("three"))]);
    let to = manifest(&[("b", file("changed")), ("d", file("one")), ("e", file("new"))]);
    let changes = diff_entries(&from, &to);
    for start in 0..changes.len() {
        let mut entries = manifest(&[("a", file("one")), ("b", file("two")), ("c", file("three"))]);
        for i in 0..changes.len() {
            let c = &changes[changes.len() - 1 - (start + i) % changes.len()];
            let event = WorkspaceJournalEvent {
                schema_version: 1,
                seq: i + 1,
                ts: 1,
                run_id: nil(),
                op: WorkspaceJournalOp::from(&c.kind),
                path: c.path.clone(),
                source_path: c.source_path.clone(),
                base_checkpoint: "c".to_string(),
                target_checkpoint: "d".to_string(),
                before: c.before.clone(),
                after: c.after.clone(),
            };
            apply_journal_event(&mut entries, &event).unwrap();
        }
        assert_eq!(entries, to);
    }
}

#[test]
fn paths_of_another_kind_are_removed() {
    let current = manifest(&[("d", file("x")), ("f", WorkspaceEntry::Directory), ("f/y", file("y")), ("k", file("k"))]);
    let target = manifest(&[("d", WorkspaceEntry::Directory), ("f", file("z")), ("k", file("other"))]);
    assert_eq!(removable_paths(&current, &target), vec!["f/y", "d", "f"]);
    assert!(locked_paths(&current, &target).is_empty());
}

#[test]
fn appended_lines_extend_an_operation_journal() {
    let mut text = String::new();
    let mut written = Vec::new();
    for path in ["a", "b\n\"c\\"] {
        let line = operation_line(&event(WorkspaceOperation::Fsync { path: path.to_string() }));
        text.push_str(&line);
        written.push(line.trim_end().to_string());
        assert_eq!(journal_lines(&text), written);
    }
    assert_ne!(written[0], written[1]);
}

#[test]
fn deep_paths_are_removed_first() {
    let current = manifest(&[
        ("d", WorkspaceEntry::Directory),
        ("d/e", WorkspaceEntry::Directory),
        ("d/e/f", file("x")),
        ("keep", file("y")),
    ]);
    let target = manifest(&[("keep", file("y"))]);
    assert_eq!(removable_paths(&current, &target), vec!["d/e/f", "d/e", "d"]);
}

#[test]
fn replay_limits_take_the_earlier_bound() {
    assert!(within_limit(3, 10, None, None));
    assert!(within_limit(3, 10, Some(3), Some(10)));
    assert!(!within_limit(4, 10, Some(3), None));
    assert!(!within_limit(3, 11, Some(3), Some(10)));
}

#[test]
fn a_rename_event_needs_its_source() {
    let mut entries = manifest(&[("a", file("1"))]);
    let event = WorkspaceJournalEvent {
        schema_version: 1,
        seq: 2,
        ts: 0,
        run_id: nil(),
        op: WorkspaceJournalOp::RenamePath,
        path: "b".to_string(),
        source_path: None,
        base_checkpoint: "x".to_string(),
        target_checkpoint: "y".to_string(),
        before: Some(file("1")),
        after: Some(file("1")),
    };
    assert_eq!(apply_journal_event(&mut entries, &event), Err(FsError::MissingRenameSource(2)));
    assert_eq!(
        FsError::MissingRenameSource(2).message(),
        "renamed journal event is missing source_path at seq 2"
    );
}

#[test]
fn journal_operations_follow_the_change() {
    assert_eq!(WorkspaceJournalOp::from(&WorkspaceChangeKind::Added), WorkspaceJournalOp::CreateFile);
    assert_eq!(WorkspaceJournalOp::from(&WorkspaceChangeKind::Modified), WorkspaceJournalOp::WriteFile);
    assert_eq!(WorkspaceJournalOp::from(&WorkspaceChangeKind::Deleted), WorkspaceJournalOp::DeletePath);
    assert_eq!(WorkspaceJournalOp::from(&WorkspaceChangeKind::Renamed), WorkspaceJournalOp::RenamePath);
    assert_eq!(WorkspaceJournalOp::from(&WorkspaceChangeKind::TypeChanged), WorkspaceJournalOp::TypeChange);
}

#[test]
fn blank_journal_lines_are_skipped() {
    assert_eq!(journal_lines("{1}\n\n  \n{2}\n"), vec!["{1}", "{2}"]);
    assert!(journal_lines("").is_empty());
}

#[test]
fn writes_splice_bytes_into_a_file() {
    assert_eq!(splice(b"hello world", 6, b"rust"), b"hello rustd".to_vec());
    assert_eq!(splice(b"ab", 4, b"x"), vec![b'a', b'b', 0, 0, b'x']);
    assert_eq!(splice(b"", 0, b""), Vec::<u8>::new());
}

#[test]
fn operations_are_validated() {
    let write = WorkspaceOperation::Write { path: "a".to_string(), offset: 0, object: "zz".to_string(), len: 1 };
    assert_eq!(validate_operation(&write), Err(FsError::InvalidContentId("zz".to_string())));
    let rename = WorkspaceOperation::RenamePath { source_path: "/a".to_string(), path: "b".to_string() };
    assert_eq!(validate_operation(&rename), Err(FsError::OutsidePath("/a".to_string())));
    assert!(validate_operation(&WorkspaceOperation::Fsync { path: "a".to_string() }).is_ok());
}

#[test]
fn a_payload_must_have_the_recorded_length() {
    let write = |offset: u64, len: u64| {
        event(WorkspaceOperation::Write { path: "d/a".to_string(), offset, object: ABC.to_string(), len })
    };
    let payload = b"abc".to_vec();
    let mut actions: Vec<FsAction> = Vec::new();
    assert!(apply_operation_event(&mut actions, &write(2, 3), Some(&payload)).is_ok());
    assert_eq!(
        actions.last(),
        Some(&FsAction::WriteAt { path: "d/a".to_string(), offset: 2, bytes: b"abc".to_vec() })
    );

    let mut actions: Vec<FsAction> = Vec::new();
    let error = apply_operation_event(&mut actions, &write(0, 5), Some(&payload)).unwrap_err();
    assert_eq!(error, FsError::PayloadLength { seq: 4, expected: 5, found: 3 });
    assert_eq!(error.message(), "write event seq 4 expected object length 5, found 3");

    let mut actions: Vec<FsAction> = Vec::new();
    let error = apply_operation_event(&mut actions, &write(0, 3), None).unwrap_err();
    assert_eq!(error, FsError::MissingObject(ABC.to_string()));

    let mut actions: Vec<FsAction> = Vec::new();
    let error = apply_operation_event(&mut actions, &write(u64::MAX, 3), Some(&payload)).unwrap_err();
    assert_eq!(error, FsError::RangeOverflow(4));
    assert_eq!(error.message(), "write range overflow at seq 4");
    assert_eq!(FsError::OffsetTooLarge(4).message(), "write offset is too large at seq 4");
}

#[test]
fn empty_and_missing_journals_are_refused() {
    let store = WorkspaceStore::open("/w".to_string());
    assert_eq!(store.journal_base("r", &[]), Err(FsError::EmptyJournal("r".to_string())));
    assert_eq!(
        store.operation_journal_base("r", &[]),
        Err(FsError::EmptyOperationJournal("r".to_string()))
    );
    let none = JournalFiles { active: false, compacted: false };
    let error = store.existing_journal_path("r", none).unwrap_err();
    assert_eq!(error, FsError::NoJournal("r".to_string()));
    assert_eq!(error.message(), "failed to read journal r: journal r does not exist");
    let error = store.existing_operation_journal_path("r", none).unwrap_err();
    assert_eq!(error, FsError::NoOperationJournal("r".to_string()));
    assert_eq!(FsError::EmptyJournal("r".to_string()).message(), "journal r has no change events to replay");
    assert_eq!(
        FsError::EmptyOperationJournal("r".to_string()).message(),
        "operation journal r has no events to replay"
    );
}

#[test]
fn an_active_journal_is_preferred_to_a_compacted_one() {
    let store = WorkspaceStore::open("/w".to_string());
    let both = JournalFiles { active: true, compacted: true };
    let compacted = JournalFiles { active: false, compacted: true };
    assert_eq!(store.existing_journal_path("r", both), Ok("/w/.shadox/fs/journals/r.jsonl".to_string()));
    assert_eq!(
        store.existing_journal_path("r", compacted),
        Ok("/w/.shadox/fs/journals/compacted/r.jsonl".to_string())
    );
    assert_eq!(
        store.existing_operation_journal_path("r", compacted),
        Ok("/w/.shadox/fs/operation-journals/compacted/r.jsonl".to_string())
    );
}

#[test]
fn a_journal_belongs_to_one_run() {
    let store = WorkspaceStore::open("/w".to_string());
    let other = event(WorkspaceOperation::Fsync { path: "a".to_string() });
    let error = store
        .append_operation_event(
            RunId { value: 1 },
            "c".to_string(),
            WorkspaceOperation::Fsync { path: "a".to_string() },
            false,
            &[other],
            1,
        )
        .unwrap_err();
    assert_eq!(error, FsError::ForeignRunId);
    assert_eq!(error.message(), "operation journal file name and event run_id do not match");
}

#[test]
fn a_full_destination_needs_force() {
    assert_eq!(prepare_destination(DestinationState::Occupied, false), Err(FsError::DestinationNotEmpty));
    assert_eq!(prepare_destination(DestinationState::Missing, false), Ok(false));
    assert!(prepare_destination(DestinationState::Empty, false).is_ok());
    assert_eq!(prepare_destination(DestinationState::Occupied, true), Ok(true));
    assert_eq!(
        FsError::DestinationNotEmpty.message(),
        "destination is not empty; pass --force to replace it"
    );
}

#[test]
fn committing_an_unknown_checkpoint_fails() {
    let store = WorkspaceStore::open("/w".to_string());
    let none = JournalFiles { active: false, compacted: false };
    let error = store.commit("ckpt_x", None, none, none).unwrap_err();
    assert_eq!(error, FsError::UnknownCheckpoint("ckpt_x".to_string()));
    assert_eq!(error.message(), "unknown checkpoint: ckpt_x");
}

#[test]
fn committing_moves_the_run_journals() {
    let store = WorkspaceStore::open("/w".to_string());
    let saved = store.create_checkpoint("ckpt_x".to_string(), None, 1, None, Some(nil()), StringMap::new());
    let active = JournalFiles { active: true, compacted: true };
    let none = JournalFiles { active: false, compacted: false };
    let (actions, report) = store.commit_with_report("ckpt_x", Some(&saved), active, none).unwrap();
    let run = nil().text();
    assert_eq!(
        actions,
        vec![
            StoreAction::WriteText { path: "/w/.shadox/fs/refs/head".to_string(), text: "ckpt_x\n".to_string() },
            StoreAction::MakeDirs("/w/.shadox/fs/journals/compacted".to_string()),
            StoreAction::RemoveFile(store.compacted_journal_path(&run)),
            StoreAction::RenameFile { from: store.journal_path(&run), to: store.compacted_journal_path(&run) },
        ]
    );
    assert_eq!(report.compacted_journals, 1);
    assert_eq!(report.journal_path, Some(store.compacted_journal_path(&run)));
    assert_eq!(report.operation_journal_path, None);
    assert_eq!(report.source_run_id, Some(nil()));
}

#[test]
fn the_head_is_read_without_its_line_end() {
    let store = WorkspaceStore::open("/w".to_string());
    assert_eq!(store.head(Some("ckpt_x\n")), Some("ckpt_x".to_string()));
    assert_eq!(store.head(Some(" \n")), None);
    assert_eq!(store.head(None), None);
    assert_eq!(store.object_path("o"), "/w/.shadox/fs/objects/o");
    assert_eq!(store.checkpoint_path("c"), "/w/.shadox/fs/checkpoints/c.json");
    assert_eq!(store.layout().len(), 8);
}

#[test]
fn checkpoints_are_listed_by_age() {
    let summary = |id: &str, created_at: u128| WorkspaceCheckpointSummary {
        checkpoint_id: id.to_string(),
        parent: None,
        created_at,
        message: None,
        source_run_id: None,
        entry_count: 0,
    };
    let store = WorkspaceStore::open("/w".to_string());
    let list = store.list_checkpoints(vec![summary("c", 3), summary("a", 1), summary("b", 1)]);
    let ids: Vec<&str> = list.iter().map(|s| s.checkpoint_id.as_str()).collect();
    assert_eq!(ids, vec!["a", "b", "c"]);
}

#[test]
fn a_finished_transaction_has_no_parts() {
    let transaction = WorkspaceTransaction {
        store: WorkspaceStore::open("/w".to_string()),
        session: None,
        run_id: nil(),
    };
    assert_eq!(transaction.checkpoint_before(), None);
    let error = transaction.into_parts().unwrap_err();
    assert_eq!(error, FsError::AlreadyFinished);
    assert_eq!(error.message(), "workspace transaction was already finished");
}

#[test]
fn run_messages_name_the_run() {
    let run = "00000000-0000-0000-0000-000000000000";
    assert_eq!(before_run_message(nil()), format!("before run {run}"));
    assert_eq!(after_run_message(nil()), format!("after run {run}"));
    assert_eq!(operation_base_message(nil()), format!("operation base {run}"));
    assert_eq!(operation_after_message(nil()), format!("operation after {run}"));
}

#[test]
fn identifiers_are_written_as_uuids() {
    let id = RunId { value: 0x0123_4567_89ab_4def_8123_4567_89ab_cdef };
    assert_eq!(id.text(), "01234567-89ab-4def-8123-456789abcdef");
    assert_eq!(checkpoint_id_from(id.value), "ckpt_0123456789ab4def8123456789abcdef");
    let random = RunId::random();
    assert_eq!(random.text().len(), 36);
    assert_eq!(&random.text()[14..15], "4");
    let fresh = new_checkpoint_id();
    assert_eq!(fresh.len(), 37);
    assert!(fresh.starts_with("ckpt_"));
}

#[test]
fn journals_are_written_as_lines() {
    let event = |seq: usize, path: &str| WorkspaceJournalEvent {
        schema_version: 1,
        seq,
        ts: 5,
        run_id: nil(),
        op: WorkspaceJournalOp::CreateFile,
        path: path.to_string(),
        source_path: None,
        base_checkpoint: "b".to_string(),
        target_checkpoint: "t".to_string(),
        before: None,
        after: Some(WorkspaceEntry::Directory),
    };
    let text = journal_text(&[event(1, "a"), event(2, "line\nbreak")]);
    let lines = journal_lines(&text);
    assert_eq!(lines.len(), 2);
    assert_eq!(
        lines[0],
        "{\"after\":{\"type\":\"directory\"},\"base_checkpoint\":\"b\",\"before\":null,\
         \"op\":\"create_file\",\"path\":\"a\",\"run_id\":\"00000000-0000-0000-0000-000000000000\",\
         \"schema_version\":1,\"seq\":1,\"source_path\":null,\"target_checkpoint\":\"t\",\"ts\":5}"
    );
    assert!(lines[1].contains("line\\nbreak"));
    assert_eq!(journal_text(&[]), "");
}

#[test]
fn operations_are_appended_as_lines() {
    let line = operation_line(&event(WorkspaceOperation::Write {
        path: "a".to_string(),
        offset: 6,
        object: ABC.to_string(),
        len: 3,
    }));
    let expected = format!(
        "{{\"schema_version\":1,\"seq\":4,\"ts\":9,\"run_id\":\"00000000-0000-0000-0000-000000000000\",\
         \"base_checkpoint\":\"c\",\"op\":\"write\",\"path\":\"a\",\"offset\":6,\"object\":\"{ABC}\",\"len\":3}}\n"
    );
    assert_eq!(line, expected);
    let second = operation_line(&event(WorkspaceOperation::RenamePath {
        source_path: "a".to_string(),
        path: "b".to_string(),
    }));
    assert_eq!(journal_lines(&format!("{line}{second}")).len(), 2);
    assert!(second.contains("\"op\":\"rename_path\",\"source_path\":\"a\",\"path\":\"b\""));
}
