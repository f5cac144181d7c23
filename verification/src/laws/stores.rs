//! The store of a workspace: where things are kept, and what a rollback, a replay, a commit and a collection do.

use crate::laws::changes::at;
use crate::laws::lists::lemma_in_either;
use crate::laws::texts::trimming_takes_white_space_from_the_ends;
use crate::number::decimal;
use crate::run_id::RunId;
use crate::string_map::StringMap;
use crate::text::{before, is_space, views};
use crate::versioned_fs::diff::{change_views, diff_entries, WorkspaceChange};
use crate::versioned_fs::entry::{manifest, text_view, EntryView, WorkspaceEntry};
use crate::versioned_fs::error::FsError;
use crate::versioned_fs::journal::{replay_events, WorkspaceJournalEvent};
use crate::versioned_fs::operation::{replay_operations, Planned, WorkspaceOperationEvent};
use crate::versioned_fs::paths::{depth, pushed};
use crate::versioned_fs::plan::{
    action_views, is_rollback, is_writing, make_steps, remove_steps, restore_steps, rolls_back, unlock_steps, writes_out, FsAction,
    FsActionView,
};
use crate::versioned_fs::restore::{copy_views, found_views, CopyAction, FoundPath};
use crate::versioned_fs::store::{
    prepare_destination, DestinationState, JournalFiles, RestorePlan, StoreAction, StoreActionView,
    WorkspaceCheckpoint, WorkspaceCheckpointSummary, WorkspaceMaterializeReport, WorkspaceOperationReplayReport,
    WorkspaceReplayReport, WorkspaceRollbackReport, WorkspaceStatusReport, WorkspaceStore,
};
use vstd::prelude::*;

verus! {

/// A name that stands below a directory: not empty, and not from the root.
pub open spec fn plain(name: Seq<char>) -> bool {
    name.len() > 0 && name[0] != '/'
}

proof fn lemma_under(dir: Seq<char>, name: Seq<char>)
    requires
        dir.len() > 0,
        dir.last() != '/',
        plain(name),
    ensures
        pushed(dir, name) == dir + "/"@ + name,
        pushed(dir, name).len() > 0,
        pushed(dir, name).last() == name.last(),
{
    reveal_strlit("/");
    assert(dir.push('/') =~= dir + "/"@);
}

/// What a step on the store stands for.
pub proof fn store_steps_stand_for_themselves(a: StoreAction)
    ensures
        a matches StoreAction::MakeDirs(p) ==> a@ == StoreActionView::MakeDirs(p@),
        a matches StoreAction::RemoveFile(p) ==> a@ == StoreActionView::RemoveFile(p@),
        a matches StoreAction::RenameFile { from, to } ==> a@ == (StoreActionView::RenameFile { from: from@, to: to@ }),
        a matches StoreAction::WriteText { path, text } ==> a@ == (StoreActionView::WriteText { path: path@, text: text@ }),
{
}

/// Where a store is, and where it keeps checkpoints, contents, the head and what is restored.
pub proof fn checkpoints_are_kept_in_their_place(
    root: String,
    s: WorkspaceStore,
    id: &str,
    checkpoint: String,
    object: String,
    head: String,
    restore: String,
)
    requires
        root@.len() > 0,
        root@.last() != '/',
        plain(id@),
        call_ensures(WorkspaceStore::open, (root,), s),
        call_ensures(WorkspaceStore::checkpoint_path, (&s, id), checkpoint),
        call_ensures(WorkspaceStore::object_path, (&s, id), object),
        call_ensures(WorkspaceStore::head_path, (&s,), head),
        call_ensures(WorkspaceStore::restore_path, (&s, id), restore),
    ensures
        s.root@ == root@,
        s.store@ == root@ + "/.shadox/fs"@,
        checkpoint@ == root@ + "/.shadox/fs/checkpoints/"@ + id@ + ".json"@,
        object@ == root@ + "/.shadox/fs/objects/"@ + id@,
        head@ == root@ + "/.shadox/fs/refs/head"@,
        restore@ == root@ + "/.shadox/fs/restores/restore_"@ + id@,
{
    lemma_place_names();
    lemma_store(root@);
    let store = s.store@;
    lemma_text_shadox_fs_checkpoints_dir();
    lemma_text_shadox_fs_objects_dir();
    lemma_text_shadox_fs_refs_head();
    lemma_text_shadox_fs_restores_restore();
    lemma_under(store, "checkpoints"@);
    lemma_under(store, "objects"@);
    lemma_under(store, "refs"@);
    lemma_under(store, "restores"@);
    lemma_under(pushed(store, "checkpoints"@), id@ + ".json"@);
    lemma_under(pushed(store, "objects"@), id@);
    lemma_under(pushed(store, "refs"@), "head"@);
    lemma_under(pushed(store, "restores"@), "restore_"@ + id@);
    assert(checkpoint@ =~= root@ + "/.shadox/fs/checkpoints/"@ + id@ + ".json"@);
    assert(object@ =~= root@ + "/.shadox/fs/objects/"@ + id@);
    assert(head@ =~= root@ + "/.shadox/fs/refs/head"@);
    assert(restore@ =~= root@ + "/.shadox/fs/restores/restore_"@ + id@);
}

/// Where a store keeps the journals of runs, open and compacted.
pub proof fn journals_are_kept_in_their_place(
    root: String,
    s: WorkspaceStore,
    run: &str,
    journal: String,
    compacted: String,
    operations: String,
    compacted_operations: String,
)
    requires
        root@.len() > 0,
        root@.last() != '/',
        plain(run@),
        call_ensures(WorkspaceStore::open, (root,), s),
        call_ensures(WorkspaceStore::journal_path, (&s, run), journal),
        call_ensures(WorkspaceStore::compacted_journal_path, (&s, run), compacted),
        call_ensures(WorkspaceStore::operation_journal_path, (&s, run), operations),
        call_ensures(WorkspaceStore::compacted_operation_journal_path, (&s, run), compacted_operations),
    ensures
        journal@ == root@ + "/.shadox/fs/journals/"@ + run@ + ".jsonl"@,
        compacted@ == root@ + "/.shadox/fs/journals/compacted/"@ + run@ + ".jsonl"@,
        operations@ == root@ + "/.shadox/fs/operation-journals/"@ + run@ + ".jsonl"@,
        compacted_operations@ == root@ + "/.shadox/fs/operation-journals/compacted/"@ + run@ + ".jsonl"@,
{
    lemma_place_names();
    lemma_store(root@);
    let store = s.store@;
    lemma_text_shadox_fs_journals_dir();
    lemma_text_shadox_fs_journals_compacted_dir();
    lemma_text_shadox_fs_operation_journals_dir();
    lemma_text_shadox_fs_operation_journals_compacted_dir();
    lemma_under(store, "journals"@);
    lemma_under(store, "operation-journals"@);
    lemma_under(pushed(store, "journals"@), run@ + ".jsonl"@);
    lemma_under(pushed(store, "operation-journals"@), run@ + ".jsonl"@);
    lemma_under(pushed(store, "journals"@), "compacted"@);
    lemma_under(pushed(store, "operation-journals"@), "compacted"@);
    lemma_under(pushed(pushed(store, "journals"@), "compacted"@), run@ + ".jsonl"@);
    lemma_under(pushed(pushed(store, "operation-journals"@), "compacted"@), run@ + ".jsonl"@);
    assert(journal@ =~= root@ + "/.shadox/fs/journals/"@ + run@ + ".jsonl"@);
    assert(compacted@ =~= root@ + "/.shadox/fs/journals/compacted/"@ + run@ + ".jsonl"@);
    assert(operations@ =~= root@ + "/.shadox/fs/operation-journals/"@ + run@ + ".jsonl"@);
    assert(compacted_operations@ =~= root@ + "/.shadox/fs/operation-journals/compacted/"@ + run@ + ".jsonl"@);
}

proof fn lemma_store(root: Seq<char>)
    requires
        root.len() > 0,
        root.last() != '/',
    ensures
        pushed(root, ".shadox/fs"@) == root + "/.shadox/fs"@,
        pushed(root, ".shadox/fs"@).len() > 0,
        pushed(root, ".shadox/fs"@).last() != '/',
{
    lemma_place_names();
    lemma_text_shadox_fs();
    lemma_under(root, ".shadox/fs"@);
    assert(pushed(root, ".shadox/fs"@) =~= root + "/.shadox/fs"@);
}

/// The names of the places stand below a directory and name one.
proof fn lemma_place_names()
    ensures
        plain(".shadox/fs"@) && ".shadox/fs"@.last() != '/',
        plain("checkpoints"@) && "checkpoints"@.last() != '/',
        plain("objects"@) && "objects"@.last() != '/',
        plain("refs"@) && "refs"@.last() != '/',
        plain("head"@) && "head"@.last() != '/',
        plain("restores"@) && "restores"@.last() != '/',
        plain("restore_"@) && "restore_"@.last() != '/',
        plain("journals"@) && "journals"@.last() != '/',
        plain("operation-journals"@) && "operation-journals"@.last() != '/',
        plain("compacted"@) && "compacted"@.last() != '/',
{
    reveal_strlit(".shadox/fs");
    reveal_strlit("checkpoints");
    reveal_strlit("objects");
    reveal_strlit("refs");
    reveal_strlit("head");
    reveal_strlit("restores");
    reveal_strlit("restore_");
    reveal_strlit("journals");
    reveal_strlit("operation-journals");
    reveal_strlit("compacted");
    assert(".shadox/fs"@.len() == 10 && ".shadox/fs"@[0] == '.' && ".shadox/fs"@[9] == 's');
    assert("checkpoints"@.len() == 11 && "checkpoints"@[0] == 'c' && "checkpoints"@[10] == 's');
    assert("objects"@.len() == 7 && "objects"@[0] == 'o' && "objects"@[6] == 's');
    assert("refs"@.len() == 4 && "refs"@[0] == 'r' && "refs"@[3] == 's');
    assert("head"@.len() == 4 && "head"@[0] == 'h' && "head"@[3] == 'd');
    assert("restores"@.len() == 8 && "restores"@[0] == 'r' && "restores"@[7] == 's');
    assert("restore_"@.len() == 8 && "restore_"@[0] == 'r' && "restore_"@[7] == '_');
    assert("journals"@.len() == 8 && "journals"@[0] == 'j' && "journals"@[7] == 's');
    assert("operation-journals"@.len() == 18 && "operation-journals"@[0] == 'o' && "operation-journals"@[17] == 's');
    assert("compacted"@.len() == 9 && "compacted"@[0] == 'c' && "compacted"@[8] == 'd');
}

proof fn lemma_text_shadox_fs()
    ensures
        "/.shadox/fs"@ == "/"@ + ".shadox/fs"@,
{
    reveal_strlit("/.shadox/fs");
    reveal_strlit(".shadox/fs");
    reveal_strlit("/");
    assert("/.shadox/fs"@ =~= "/"@ + ".shadox/fs"@);
}

proof fn lemma_text_shadox_fs_checkpoints_dir()
    ensures
        "/.shadox/fs/checkpoints/"@ == "/.shadox/fs"@ + "/"@ + "checkpoints"@ + "/"@,
{
    reveal_strlit("/.shadox/fs/checkpoints/");
    reveal_strlit("/");
    reveal_strlit("/.shadox/fs");
    reveal_strlit("checkpoints");
    assert("/.shadox/fs/checkpoints/"@ =~= "/.shadox/fs"@ + "/"@ + "checkpoints"@ + "/"@);
}

proof fn lemma_text_shadox_fs_objects_dir()
    ensures
        "/.shadox/fs/objects/"@ == "/.shadox/fs"@ + "/"@ + "objects"@ + "/"@,
{
    reveal_strlit("/.shadox/fs/objects/");
    reveal_strlit("/");
    reveal_strlit("/.shadox/fs");
    reveal_strlit("objects");
    assert("/.shadox/fs/objects/"@ =~= "/.shadox/fs"@ + "/"@ + "objects"@ + "/"@);
}

proof fn lemma_text_shadox_fs_refs_head()
    ensures
        "/.shadox/fs/refs/head"@ == "/.shadox/fs"@ + "/"@ + "refs"@ + "/"@ + "head"@,
{
    reveal_strlit("/.shadox/fs/refs/head");
    reveal_strlit("/");
    reveal_strlit("/.shadox/fs");
    reveal_strlit("head");
    reveal_strlit("refs");
    assert("/.shadox/fs/refs/head"@ =~= "/.shadox/fs"@ + "/"@ + "refs"@ + "/"@ + "head"@);
}

proof fn lemma_text_shadox_fs_restores_restore()
    ensures
        "/.shadox/fs/restores/restore_"@ == "/.shadox/fs"@ + "/"@ + "restores"@ + "/"@ + "restore_"@,
{
    reveal_strlit("/.shadox/fs/restores/restore_");
    reveal_strlit("/");
    reveal_strlit("/.shadox/fs");
    reveal_strlit("restore_");
    reveal_strlit("restores");
    assert("/.shadox/fs/restores/restore_"@ =~= "/.shadox/fs"@ + "/"@ + "restores"@ + "/"@ + "restore_"@);
}

proof fn lemma_text_shadox_fs_journals_dir()
    ensures
        "/.shadox/fs/journals/"@ == "/.shadox/fs"@ + "/"@ + "journals"@ + "/"@,
{
    reveal_strlit("/.shadox/fs/journals/");
    reveal_strlit("/");
    reveal_strlit("/.shadox/fs");
    reveal_strlit("journals");
    assert("/.shadox/fs/journals/"@ =~= "/.shadox/fs"@ + "/"@ + "journals"@ + "/"@);
}

proof fn lemma_text_shadox_fs_journals_compacted_dir()
    ensures
        "/.shadox/fs/journals/compacted/"@ == "/.shadox/fs"@ + "/"@ + "journals"@ + "/"@ + "compacted"@ + "/"@,
{
    reveal_strlit("/.shadox/fs/journals/compacted/");
    reveal_strlit("/");
    reveal_strlit("/.shadox/fs");
    reveal_strlit("compacted");
    reveal_strlit("journals");
    assert("/.shadox/fs/journals/compacted/"@ =~= "/.shadox/fs"@ + "/"@ + "journals"@ + "/"@ + "compacted"@ + "/"@);
}

proof fn lemma_text_shadox_fs_operation_journals_dir()
    ensures
        "/.shadox/fs/operation-journals/"@ == "/.shadox/fs"@ + "/"@ + "operation-journals"@ + "/"@,
{
    reveal_strlit("/.shadox/fs/operation-journals/");
    reveal_strlit("/");
    reveal_strlit("/.shadox/fs");
    reveal_strlit("operation-journals");
    assert("/.shadox/fs/operation-journals/"@ =~= "/.shadox/fs"@ + "/"@ + "operation-journals"@ + "/"@);
}

proof fn lemma_text_shadox_fs_operation_journals_compacted_dir()
    ensures
        "/.shadox/fs/operation-journals/compacted/"@ == "/.shadox/fs"@ + "/"@ + "operation-journals"@ + "/"@ + "compacted"@ + "/"@,
{
    reveal_strlit("/.shadox/fs/operation-journals/compacted/");
    reveal_strlit("/");
    reveal_strlit("/.shadox/fs");
    reveal_strlit("compacted");
    reveal_strlit("operation-journals");
    assert("/.shadox/fs/operation-journals/compacted/"@ =~= "/.shadox/fs"@ + "/"@ + "operation-journals"@ + "/"@ + "compacted"@ + "/"@);
}

proof fn lemma_text_objects()
    ensures
        "/objects"@ == "/"@ + "objects"@,
{
    reveal_strlit("/objects");
    reveal_strlit("/");
    reveal_strlit("objects");
    assert("/objects"@ =~= "/"@ + "objects"@);
}

proof fn lemma_text_checkpoints()
    ensures
        "/checkpoints"@ == "/"@ + "checkpoints"@,
{
    reveal_strlit("/checkpoints");
    reveal_strlit("/");
    reveal_strlit("checkpoints");
    assert("/checkpoints"@ =~= "/"@ + "checkpoints"@);
}

proof fn lemma_text_journals()
    ensures
        "/journals"@ == "/"@ + "journals"@,
{
    reveal_strlit("/journals");
    reveal_strlit("/");
    reveal_strlit("journals");
    assert("/journals"@ =~= "/"@ + "journals"@);
}

proof fn lemma_text_journals_compacted()
    ensures
        "/journals/compacted"@ == "/"@ + "journals"@ + "/"@ + "compacted"@,
{
    reveal_strlit("/journals/compacted");
    reveal_strlit("/");
    reveal_strlit("compacted");
    reveal_strlit("journals");
    assert("/journals/compacted"@ =~= "/"@ + "journals"@ + "/"@ + "compacted"@);
}

proof fn lemma_text_operation_journals()
    ensures
        "/operation-journals"@ == "/"@ + "operation-journals"@,
{
    reveal_strlit("/operation-journals");
    reveal_strlit("/");
    reveal_strlit("operation-journals");
    assert("/operation-journals"@ =~= "/"@ + "operation-journals"@);
}

proof fn lemma_text_operation_journals_compacted()
    ensures
        "/operation-journals/compacted"@ == "/"@ + "operation-journals"@ + "/"@ + "compacted"@,
{
    reveal_strlit("/operation-journals/compacted");
    reveal_strlit("/");
    reveal_strlit("compacted");
    reveal_strlit("operation-journals");
    assert("/operation-journals/compacted"@ =~= "/"@ + "operation-journals"@ + "/"@ + "compacted"@);
}

proof fn lemma_text_restores()
    ensures
        "/restores"@ == "/"@ + "restores"@,
{
    reveal_strlit("/restores");
    reveal_strlit("/");
    reveal_strlit("restores");
    assert("/restores"@ =~= "/"@ + "restores"@);
}

proof fn lemma_text_refs()
    ensures
        "/refs"@ == "/"@ + "refs"@,
{
    reveal_strlit("/refs");
    reveal_strlit("/");
    reveal_strlit("refs");
    assert("/refs"@ =~= "/"@ + "refs"@);
}

/// The directories of a store hold everything that is kept in it.
pub proof fn a_store_has_a_place_for_everything(s: WorkspaceStore, dirs: Vec<String>)
    requires
        s.store@.len() > 0,
        s.store@.last() != '/',
        call_ensures(WorkspaceStore::layout, (&s,), dirs),
    ensures
        dirs@.len() == 8,
        dirs@[0]@ == s.store@ + "/objects"@,
        dirs@[1]@ == s.store@ + "/checkpoints"@,
        dirs@[2]@ == s.store@ + "/journals"@,
        dirs@[3]@ == s.store@ + "/journals/compacted"@,
        dirs@[4]@ == s.store@ + "/operation-journals"@,
        dirs@[5]@ == s.store@ + "/operation-journals/compacted"@,
        dirs@[6]@ == s.store@ + "/restores"@,
        dirs@[7]@ == s.store@ + "/refs"@,
{
    lemma_place_names();
    let store = s.store@;
    lemma_text_objects();
    lemma_text_checkpoints();
    lemma_text_journals();
    lemma_text_journals_compacted();
    lemma_text_operation_journals();
    lemma_text_operation_journals_compacted();
    lemma_text_restores();
    lemma_text_refs();
    lemma_under(store, "checkpoints"@);
    lemma_under(store, "objects"@);
    lemma_under(store, "refs"@);
    lemma_under(store, "restores"@);
    lemma_under(store, "journals"@);
    lemma_under(store, "operation-journals"@);
    lemma_under(pushed(store, "journals"@), "compacted"@);
    lemma_under(pushed(store, "operation-journals"@), "compacted"@);
    let l = views(dirs@);
    assert(l.len() == dirs@.len());
    assert(l[0] == dirs@[0]@ && l[1] == dirs@[1]@ && l[2] == dirs@[2]@ && l[3] == dirs@[3]@);
    assert(l[4] == dirs@[4]@ && l[5] == dirs@[5]@ && l[6] == dirs@[6]@ && l[7] == dirs@[7]@);
    assert(l[0] =~= store + "/objects"@);
    assert(l[1] =~= store + "/checkpoints"@);
    assert(l[2] =~= store + "/journals"@);
    assert(l[3] =~= store + "/journals/compacted"@);
    assert(l[4] =~= store + "/operation-journals"@);
    assert(l[5] =~= store + "/operation-journals/compacted"@);
    assert(l[6] =~= store + "/restores"@);
    assert(l[7] =~= store + "/refs"@);
}

/// A journal is read where it is open, else where it is compacted; where it is neither, there is none.
pub proof fn a_journal_is_read_where_it_is(
    s: WorkspaceStore,
    run: &str,
    files: JournalFiles,
    open: String,
    compacted: String,
    open_operations: String,
    compacted_operations: String,
    found: Result<String, FsError>,
    found_operations: Result<String, FsError>,
)
    requires
        call_ensures(WorkspaceStore::journal_path, (&s, run), open),
        call_ensures(WorkspaceStore::compacted_journal_path, (&s, run), compacted),
        call_ensures(WorkspaceStore::operation_journal_path, (&s, run), open_operations),
        call_ensures(WorkspaceStore::compacted_operation_journal_path, (&s, run), compacted_operations),
        call_ensures(WorkspaceStore::existing_journal_path, (&s, run, files), found),
        call_ensures(WorkspaceStore::existing_operation_journal_path, (&s, run, files), found_operations),
    ensures
        files.active ==> (found matches Ok(p) && p@ == open@) && (found_operations matches Ok(p) && p@ == open_operations@),
        !files.active && files.compacted ==> (found matches Ok(p) && p@ == compacted@) && (found_operations matches Ok(p) && p@
            == compacted_operations@),
        !files.active && !files.compacted ==> (found matches Err(FsError::NoJournal(r)) && r@ == run@) && (found_operations matches Err(
            FsError::NoOperationJournal(r),
        ) && r@ == run@),
{
}

/// The head is what its file names, without the white space around it; a blank file names none.
pub proof fn the_head_is_what_its_file_names(
    s: WorkspaceStore,
    left: Seq<char>,
    id: Seq<char>,
    right: Seq<char>,
    text: &str,
    head: Option<String>,
    none: Option<String>,
)
    requires
        forall|i: int| 0 <= i < left.len() ==> is_space(#[trigger] left[i]),
        forall|i: int| 0 <= i < right.len() ==> is_space(#[trigger] right[i]),
        id.len() > 0 ==> !is_space(id[0]) && !is_space(id.last()),
        text@ == left + id + right,
        call_ensures(WorkspaceStore::head, (&s, Some(text)), head),
        call_ensures(WorkspaceStore::head, (&s, None), none),
    ensures
        id.len() > 0 ==> (head matches Some(h) && h@ == id),
        id.len() == 0 ==> head is None,
        none is None,
{
    trimming_takes_white_space_from_the_ends(left, id, right);
}

/// A destination is refused exactly where it holds something and nothing was
/// forced; it is cleared exactly where it is there and that was forced.
pub proof fn a_destination_is_not_overwritten_unasked(state: DestinationState, force: bool, clear: Result<bool, FsError>)
    requires
        call_ensures(prepare_destination, (state, force), clear),
    ensures
        clear is Err <==> state == DestinationState::Occupied && !force,
        clear matches Err(e) ==> e is DestinationNotEmpty,
        clear matches Ok(c) ==> (c <==> force && state != DestinationState::Missing),
{
}

/// A checkpoint keeps what it was made of, and its summary tells it.
pub proof fn a_checkpoint_keeps_what_it_was_made_of(
    s: WorkspaceStore,
    id: String,
    parent: Option<String>,
    created_at: u128,
    message: Option<String>,
    source: Option<RunId>,
    entries: StringMap<WorkspaceEntry>,
    c: WorkspaceCheckpoint,
    summary: WorkspaceCheckpointSummary,
)
    requires
        call_ensures(WorkspaceStore::create_checkpoint, (&s, id, parent, created_at, message, source, entries), c),
        call_ensures(WorkspaceCheckpoint::summary, (&c,), summary),
    ensures
        c.checkpoint_id@ == id@ && c.parent == parent && c.created_at == created_at && c.message == message,
        c.source_run_id == source && c.root@ == s.root@ && c.entries == entries,
        summary.checkpoint_id@ == id@ && text_view(summary.parent) == text_view(parent) && summary.created_at == created_at,
        text_view(summary.message) == text_view(message) && summary.source_run_id == source,
        summary.entry_count == entries.items@.len(),
{
}

proof fn lemma_make_steps(list: Seq<Seq<char>>, x: FsActionView)
    ensures
        make_steps(list).len() == list.len(),
        make_steps(list).contains(x) <==> x is MakeDirs && list.contains(x->MakeDirs_0),
{
    let l = make_steps(list);
    if x is MakeDirs && list.contains(x->MakeDirs_0) {
        let i = choose|i: int| 0 <= i < list.len() && list[i] == x->MakeDirs_0;
        assert(l[i] == x);
    }
    if l.contains(x) {
        let i = choose|i: int| 0 <= i < l.len() && l[i] == x;
        assert(list[i] == x->MakeDirs_0);
    }
}

pub proof fn lemma_remove_steps(list: Seq<Seq<char>>, x: FsActionView)
    ensures
        remove_steps(list).len() == list.len(),
        remove_steps(list).contains(x) <==> x is Remove && list.contains(x->Remove_0),
{
    let l = remove_steps(list);
    if x is Remove && list.contains(x->Remove_0) {
        let i = choose|i: int| 0 <= i < list.len() && list[i] == x->Remove_0;
        assert(l[i] == x);
    }
    if l.contains(x) {
        let i = choose|i: int| 0 <= i < l.len() && l[i] == x;
        assert(list[i] == x->Remove_0);
    }
}

proof fn lemma_unlock_steps(list: Seq<Seq<char>>, x: FsActionView)
    ensures
        unlock_steps(list).len() == list.len(),
        unlock_steps(list).contains(x) <==> (x matches FsActionView::SetReadonly { path, readonly } && !readonly && list.contains(path)),
{
    let l = unlock_steps(list);
    if let FsActionView::SetReadonly { path, readonly } = x {
        if !readonly && list.contains(path) {
            let i = choose|i: int| 0 <= i < list.len() && list[i] == path;
            assert(l[i] == x);
        }
    }
    if l.contains(x) {
        let i = choose|i: int| 0 <= i < l.len() && l[i] == x;
        assert(list[i] == x->SetReadonly_path);
    }
}

proof fn lemma_restore_steps(list: Seq<Seq<char>>, target: Map<Seq<char>, EntryView>, x: FsActionView)
    ensures
        restore_steps(list, target).len() == list.len(),
        restore_steps(list, target).contains(x) <==> (x matches FsActionView::RestoreFile { path, object, readonly } && list.contains(path)
            && object == target[path]->object && readonly == target[path]->readonly),
{
    let l = restore_steps(list, target);
    if let FsActionView::RestoreFile { path, object, readonly } = x {
        if list.contains(path) && object == target[path]->object && readonly == target[path]->readonly {
            let i = choose|i: int| 0 <= i < list.len() && list[i] == path;
            assert(l[i] == x);
        }
    }
    if l.contains(x) {
        let i = choose|i: int| 0 <= i < l.len() && l[i] == x;
        assert(list[i] == x->RestoreFile_path);
    }
}

/// The steps of writing out, by what they do to which path.
proof fn lemma_writing(steps: Seq<FsActionView>, target: Map<Seq<char>, EntryView>, made: nat, restored: nat, x: FsActionView)
    requires
        is_writing(steps, target, made, restored),
    ensures
        steps.len() == made + restored,
        forall|i: int| 0 <= i < made ==> (#[trigger] steps[i]) is MakeDirs,
        forall|i: int| made <= i < steps.len() ==> (#[trigger] steps[i]) is RestoreFile,
        steps.contains(x) <==> written_out(target, x),
        forall|i: int, j: int|
            0 <= i < j < made ==> depth((#[trigger] steps[i])->MakeDirs_0) <= depth((#[trigger] steps[j])->MakeDirs_0),
        forall|i: int, j: int|
            made <= i < j < steps.len() ==> before((#[trigger] steps[i])->RestoreFile_path, (#[trigger] steps[j])->RestoreFile_path),
{
    let (dirs, files) = choose|dirs: Seq<Seq<char>>, files: Seq<Seq<char>>|
        #[trigger] writes_out(steps, target, dirs, files) && made == dirs.len() && restored == files.len();
    lemma_make_steps(dirs, x);
    lemma_restore_steps(files, target, x);
    lemma_in_either(make_steps(dirs), restore_steps(files, target), x);
    assert forall|i: int, j: int| 0 <= i < j < made implies depth((#[trigger] steps[i])->MakeDirs_0) <= depth(
        (#[trigger] steps[j])->MakeDirs_0,
    ) by {
        assert(steps[i]->MakeDirs_0 == dirs[i]);
        assert(steps[j]->MakeDirs_0 == dirs[j]);
    }
    assert forall|i: int, j: int| made <= i < j < steps.len() implies before(
        (#[trigger] steps[i])->RestoreFile_path,
        (#[trigger] steps[j])->RestoreFile_path,
    ) by {
        assert(steps[i]->RestoreFile_path == files[i - made]);
        assert(steps[j]->RestoreFile_path == files[j - made]);
    }
}

/// A step of writing out: a directory is made, a file is restored with its content and its permission.
pub open spec fn written_out(target: Map<Seq<char>, EntryView>, x: FsActionView) -> bool {
    match x {
        FsActionView::MakeDirs(path) => target.contains_key(path) && target[path] is Directory,
        FsActionView::RestoreFile { path, object, readonly } => target.contains_key(path) && (match target[path] {
            EntryView::File { object: o, readonly: r, .. } => object == o && readonly == r,
            EntryView::Directory => false,
        }),
        _ => false,
    }
}

/// A checkpoint is written out by making its directories, those above before
/// those below, and then restoring its files by their paths, each with its content and its
/// permission; the report counts both.
pub proof fn a_checkpoint_is_written_out(
    s: WorkspaceStore,
    c: WorkspaceCheckpoint,
    destination: String,
    plan: (Vec<FsAction>, WorkspaceMaterializeReport),
    x: FsActionView,
)
    requires
        call_ensures(WorkspaceStore::materialize, (&s, &c, destination), plan),
    ensures
        ({
            let steps = action_views(plan.0@);
            let made = plan.1.restored_dirs as int;
            &&& plan.1.checkpoint_id@ == c.checkpoint_id@ && plan.1.destination@ == destination@
            &&& steps.len() == made + plan.1.restored_files
            &&& forall|i: int| 0 <= i < made ==> (#[trigger] steps[i]) is MakeDirs
            &&& forall|i: int| made <= i < steps.len() ==> (#[trigger] steps[i]) is RestoreFile
            &&& steps.contains(x) <==> written_out(manifest(c.entries@), x)
            &&& forall|i: int, j: int|
                0 <= i < j < made ==> depth((#[trigger] steps[i])->MakeDirs_0) <= depth((#[trigger] steps[j])->MakeDirs_0)
            &&& forall|i: int, j: int|
                made <= i < j < steps.len() ==> before((#[trigger] steps[i])->RestoreFile_path, (#[trigger] steps[j])->RestoreFile_path)
        }),
{
    lemma_writing(
        action_views(plan.0@),
        manifest(c.entries@),
        plan.1.restored_dirs as nat,
        plan.1.restored_files as nat,
        x,
    );
}

/// A step of going back: what is not there any more, or is of another kind, is
/// removed; a file that is to be overwritten is made writable; the rest is written out.
pub open spec fn rolled_back(current: StringMap<WorkspaceEntry>, target: StringMap<WorkspaceEntry>, x: FsActionView) -> bool {
    match x {
        FsActionView::Remove(path) => match (at(current, path), at(target, path)) {
            (None, _) => false,
            (Some(_), None) => true,
            (Some(a), Some(b)) => !(a is Directory <==> b is Directory),
        },
        FsActionView::SetReadonly { path, readonly } => !readonly && match (at(current, path), at(target, path)) {
            (Some(EntryView::File { readonly: r, .. }), Some(EntryView::File { .. })) => r,
            _ => false,
        },
        _ => written_out(manifest(target@), x),
    }
}

/// The steps of going back, by what they do to which path.
pub proof fn lemma_rollback(
    steps: Seq<FsActionView>,
    current: StringMap<WorkspaceEntry>,
    end: StringMap<WorkspaceEntry>,
    removed: nat,
    made: nat,
    restored: nat,
    x: FsActionView,
)
    requires
        is_rollback(steps, manifest(current@), manifest(end@), removed, made, restored),
    ensures
        ({
            let files = steps.len() - restored;
            let dirs = files - made;
            &&& removed <= dirs
            &&& forall|i: int| 0 <= i < removed ==> (#[trigger] steps[i]) is Remove
            &&& forall|i: int| removed <= i < dirs ==> (#[trigger] steps[i]) is SetReadonly
            &&& forall|i: int| dirs <= i < files ==> (#[trigger] steps[i]) is MakeDirs
            &&& forall|i: int| files <= i < steps.len() ==> (#[trigger] steps[i]) is RestoreFile
            &&& forall|i: int, j: int|
                0 <= i < j < removed ==> depth((#[trigger] steps[i])->Remove_0) >= depth((#[trigger] steps[j])->Remove_0)
            &&& forall|i: int, j: int|
                dirs <= i < j < files ==> depth((#[trigger] steps[i])->MakeDirs_0) <= depth((#[trigger] steps[j])->MakeDirs_0)
            &&& steps.contains(x) <==> rolled_back(current, end, x)
        }),
{
    let now = manifest(current@);
    let target = manifest(end@);
    let (removals, locked, dirs, files) = choose|removals: Seq<Seq<char>>, locked: Seq<Seq<char>>, dirs: Seq<Seq<char>>, files: Seq<Seq<char>>|
        #[trigger] rolls_back(steps, now, target, removals, locked, dirs, files) && removed == removals.len() && made == dirs.len()
            && restored == files.len();
    lemma_remove_steps(removals, x);
    lemma_unlock_steps(locked, x);
    lemma_make_steps(dirs, x);
    lemma_restore_steps(files, target, x);
    let a = remove_steps(removals);
    let b = unlock_steps(locked);
    let d = make_steps(dirs);
    let f = restore_steps(files, target);
    lemma_in_either(d, f, x);
    lemma_in_either(b, d + f, x);
    lemma_in_either(a, b + (d + f), x);
    let first = a.len() + b.len();
    assert forall|i: int, j: int| 0 <= i < j < removals.len() implies depth((#[trigger] steps[i])->Remove_0) >= depth(
        (#[trigger] steps[j])->Remove_0,
    ) by {
        assert(steps[i]->Remove_0 == removals[i]);
        assert(steps[j]->Remove_0 == removals[j]);
    }
    assert forall|i: int, j: int| first <= i < j < first + made implies depth((#[trigger] steps[i])->MakeDirs_0) <= depth(
        (#[trigger] steps[j])->MakeDirs_0,
    ) by {
        assert(steps[i]->MakeDirs_0 == dirs[i - first]);
        assert(steps[j]->MakeDirs_0 == dirs[j - first]);
    }
    if let FsActionView::Remove(path) = x {
        assert(at(current, path) == crate::versioned_fs::entry::lookup(now, path));
        assert(at(end, path) == crate::versioned_fs::entry::lookup(target, path));
    }
    if let FsActionView::SetReadonly { path, .. } = x {
        assert(at(current, path) == crate::versioned_fs::entry::lookup(now, path));
        assert(at(end, path) == crate::versioned_fs::entry::lookup(target, path));
    }
}

/// A rollback removes what the checkpoint does not have, or has as another kind,
/// those below before those above; makes files that it is to overwrite
/// writable; and writes the checkpoint out. The report counts each.
pub proof fn a_rollback_goes_back_to_the_checkpoint(
    s: WorkspaceStore,
    c: WorkspaceCheckpoint,
    current: StringMap<WorkspaceEntry>,
    plan: (Vec<FsAction>, WorkspaceRollbackReport),
    x: FsActionView,
)
    requires
        call_ensures(WorkspaceStore::rollback, (&s, &c, &current), plan),
    ensures
        ({
            let steps = action_views(plan.0@);
            let removed = plan.1.removed_paths as int;
            let files = steps.len() - plan.1.restored_files;
            let dirs = files - plan.1.restored_dirs;
            &&& plan.1.checkpoint_id@ == c.checkpoint_id@
            &&& 0 <= removed <= dirs <= files <= steps.len()
            &&& forall|i: int| 0 <= i < removed ==> (#[trigger] steps[i]) is Remove
            &&& forall|i: int| removed <= i < dirs ==> (#[trigger] steps[i]) is SetReadonly
            &&& forall|i: int| dirs <= i < files ==> (#[trigger] steps[i]) is MakeDirs
            &&& forall|i: int| files <= i < steps.len() ==> (#[trigger] steps[i]) is RestoreFile
            &&& forall|i: int, j: int|
                0 <= i < j < removed ==> depth((#[trigger] steps[i])->Remove_0) >= depth((#[trigger] steps[j])->Remove_0)
            &&& forall|i: int, j: int|
                dirs <= i < j < files ==> depth((#[trigger] steps[i])->MakeDirs_0) <= depth((#[trigger] steps[j])->MakeDirs_0)
            &&& steps.contains(x) <==> rolled_back(current, c.entries, x)
        }),
{
    lemma_rollback(
        action_views(plan.0@),
        current,
        c.entries,
        plan.1.removed_paths as nat,
        plan.1.restored_dirs as nat,
        plan.1.restored_files as nat,
        x,
    );
}

/// A workspace is clean exactly where it does not differ from its head; without
/// a head there is nothing to differ from.
pub proof fn a_workspace_is_clean_where_it_is_as_its_head(
    s: WorkspaceStore,
    id: String,
    c: WorkspaceCheckpoint,
    current: StringMap<WorkspaceEntry>,
    report: WorkspaceStatusReport,
    none: WorkspaceStatusReport,
    changes: Vec<WorkspaceChange>,
)
    requires
        c.wf(),
        current.wf(),
        call_ensures(WorkspaceStore::status, (&s, Some((id, c)), &current), report),
        call_ensures(WorkspaceStore::status, (&s, None, &current), none),
        call_ensures(diff_entries, (&c.entries, &current), changes),
    ensures
        report.head matches Some(h) && h@ == id@,
        change_views(report.changes@) == change_views(changes@),
        report.dirty <==> changes@.len() > 0,
        none.head is None && !none.dirty && none.changes@.len() == 0,
{
    assert(change_views(report.changes@).len() == report.changes@.len());
    assert(change_views(changes@).len() == changes@.len());
}

/// A replay of a journal writes out what redoing its events gives, under a name
/// that says from which checkpoint and how far.
pub proof fn a_replay_writes_out_what_redoing_gives(
    s: WorkspaceStore,
    run: &str,
    events: &[WorkspaceJournalEvent],
    base: WorkspaceCheckpoint,
    until_seq: Option<usize>,
    until_ts: Option<u128>,
    destination: String,
    redone: Result<(StringMap<WorkspaceEntry>, usize), FsError>,
    plan: Result<(Vec<FsAction>, WorkspaceReplayReport), FsError>,
    x: FsActionView,
)
    requires
        base.wf(),
        call_ensures(replay_events, (&base.entries, events, until_seq, until_ts), redone),
        call_ensures(WorkspaceStore::replay_journal, (&s, run, events, &base, until_seq, until_ts, destination), plan),
    ensures
        events@.len() == 0 ==> (plan matches Err(FsError::EmptyJournal(r)) && r@ == run@),
        events@.len() > 0 ==> match redone {
            Err(a) => plan matches Err(b) && a@ == b@,
            Ok(end) => plan matches Ok((actions, report)) && {
                &&& report.run_id@ == run@ && report.until_seq == until_seq && report.until_ts == until_ts
                &&& report.applied_events == end.1 && report.destination@ == destination@
                &&& until_seq matches Some(n) ==> report.checkpoint_id@ == base.checkpoint_id@ + "_replay_"@ + decimal(n as nat)
                &&& until_seq is None ==> report.checkpoint_id@ == base.checkpoint_id@ + "_replay_"@ + "all"@
                &&& actions@.len() == report.restored_dirs + report.restored_files
                &&& action_views(actions@).contains(x) <==> written_out(manifest(end.0@), x)
            },
        },
{
    if let Ok((actions, report)) = plan {
        if let Ok(end) = redone {
            assert(action_views(actions@).len() == actions@.len());
            lemma_writing(action_views(actions@), manifest(end.0@), report.restored_dirs as nat, report.restored_files as nat, x);
        }
    }
}

/// A replay of operations first writes the checkpoint out that they started
/// from, and then redoes them.
pub proof fn operations_are_redone_on_their_checkpoint(
    s: WorkspaceStore,
    run: &str,
    events: &[WorkspaceOperationEvent],
    base: WorkspaceCheckpoint,
    objects: StringMap<Vec<u8>>,
    until_seq: Option<usize>,
    until_ts: Option<u128>,
    destination: String,
    actions: &mut Vec<FsAction>,
    redone: Result<usize, FsError>,
    plan: Planned<WorkspaceOperationReplayReport>,
    x: FsActionView,
) -> (n: int)
    requires
        events@.len() > 0,
        old(actions)@.len() == 0,
        call_ensures(replay_operations, (actions, events, &objects, until_seq, until_ts), redone),
        call_ensures(
            WorkspaceStore::replay_operation_journal,
            (&s, run, events, &base, &objects, until_seq, until_ts, destination),
            plan,
        ),
    ensures
        ({
            let steps = action_views(plan.actions@);
            &&& 0 <= n <= steps.len()
            &&& steps.take(n).contains(x) <==> written_out(manifest(base.entries@), x)
            &&& steps.skip(n) == action_views(final(actions)@)
            &&& match redone {
                Err(a) => plan.outcome matches Err(b) && a@ == b@,
                Ok(count) => plan.outcome matches Ok(report) && {
                    &&& report.applied_events == count && report.run_id@ == run@ && report.destination@ == destination@
                    &&& report.base_checkpoint@ == events@[0].base_checkpoint@
                    &&& report.until_seq == until_seq && report.until_ts == until_ts
                    &&& n == report.restored_dirs + report.restored_files
                },
            }
        }),
{
    let steps = action_views(plan.actions@);
    let rest = crate::versioned_fs::operation::replayed_operations(
        crate::versioned_fs::operation::operation_event_views(events@),
        objects@,
        until_seq,
        until_ts,
        events@.len() as int,
    );
    assert(action_views(old(actions)@) =~= Seq::<FsActionView>::empty());
    assert(action_views(final(actions)@) =~= rest.0);
    let (first, made, restored) = choose|first: Seq<FsActionView>, made: nat, restored: nat|
        {
            &&& #[trigger] is_writing(first, base.manifest(), made, restored)
            &&& steps == first + rest.0
            &&& match rest.1 {
                Ok(applied) => plan.outcome matches Ok(report) && {
                    &&& report.run_id@ == run@
                    &&& report.base_checkpoint@ == events@[0].base_checkpoint@
                    &&& report.until_seq == until_seq
                    &&& report.until_ts == until_ts
                    &&& report.applied_events == applied
                    &&& report.destination@ == destination@
                    &&& report.restored_dirs == made
                    &&& report.restored_files == restored
                },
                Err(error) => plan.outcome matches Err(e) && e@ == error,
            }
        };
    lemma_writing(first, base.manifest(), made, restored, x);
    assert(steps.take(first.len() as int) =~= first);
    assert(steps.skip(first.len() as int) =~= rest.0);
    first.len() as int
}

/// A restore removes everything that is there, and then copies what was found:
/// directories are made, all else is copied as a file.
pub proof fn a_restore_puts_there_what_was_found(
    s: WorkspaceStore,
    replay: WorkspaceOperationReplayReport,
    current: StringMap<WorkspaceEntry>,
    found: Vec<FoundPath>,
    plan: RestorePlan,
    x: FsActionView,
    i: int,
)
    requires
        call_ensures(WorkspaceStore::restore_operation_journal, (&s, replay, &current, found), plan),
    ensures
        action_views(plan.removals@).contains(x) <==> (x matches FsActionView::Remove(path) && current@.contains_key(path)),
        plan.copies@.len() == found@.len(),
        0 <= i < found@.len() ==> match plan.copies@[i] {
            CopyAction::MakeDirs(path) => found@[i].directory && path@ == found@[i].path@,
            CopyAction::CopyFile(path) => !found@[i].directory && path@ == found@[i].path@,
        },
        plan.report.destination@ == s.root@,
        plan.report.applied_events == replay.applied_events && plan.report.run_id == replay.run_id,
{
    let removals = choose|removals: Seq<Seq<char>>|
        #[trigger] crate::versioned_fs::plan::is_removal_list(removals, manifest(current@), Map::empty()) && action_views(plan.removals@)
            == remove_steps(removals);
    lemma_remove_steps(removals, x);
    assert(copy_views(plan.copies@).len() == plan.copies@.len());
    assert(found_views(found@).len() == found@.len());
    if 0 <= i < found@.len() {
        assert(copy_views(plan.copies@)[i] == plan.copies@[i]@);
        assert(found_views(found@)[i] == found@[i]@);
    }
}

} // verus!
