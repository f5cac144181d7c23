//! Keeping a store: commits, compaction, lists of checkpoints, verification and collection.

use crate::laws::changes::at;
use crate::laws::lists::{lemma_in_either, lemma_in_one};
use crate::run_id::{hyphenated, RunId};
use crate::string_map::StringMap;
use crate::text::{before, views};
use crate::versioned_fs::entry::{manifest, text_view, EntryView};
use crate::versioned_fs::error::FsError;
use crate::versioned_fs::maintenance::{compaction, is_referenced, is_time_order, names_of_files, refers, unreferenced};
use crate::versioned_fs::store::{
    store_action_views, JournalFiles, StoreAction, StoreActionView, WorkspaceCheckpoint, WorkspaceCheckpointSummary,
    WorkspaceCommitReport, WorkspaceGcReport, WorkspaceStore, WorkspaceVerifyReport,
};
use vstd::prelude::*;

verus! {

/// A commit of an unknown checkpoint is refused. A commit first writes the name
/// of the checkpoint, on a line of its own, to the file of the head; it then
/// compacts the journals of the run that the checkpoint came from, and does
/// nothing else.
pub proof fn a_commit_moves_the_head(
    s: WorkspaceStore,
    id: &str,
    c: WorkspaceCheckpoint,
    journal: JournalFiles,
    operations: JournalFiles,
    head: String,
    plan: Result<(Vec<StoreAction>, WorkspaceCommitReport), FsError>,
    unknown: Result<(Vec<StoreAction>, WorkspaceCommitReport), FsError>,
    plain: Result<Vec<StoreAction>, FsError>,
)
    requires
        call_ensures(WorkspaceStore::head_path, (&s,), head),
        call_ensures(WorkspaceStore::commit_with_report, (&s, id, Some(&c), journal, operations), plan),
        call_ensures(WorkspaceStore::commit_with_report, (&s, id, None, journal, operations), unknown),
        call_ensures(WorkspaceStore::commit, (&s, id, Some(&c), journal, operations), plain),
    ensures
        unknown matches Err(FsError::UnknownCheckpoint(told)) && told@ == id@,
        plan matches Ok((actions, report)) && {
            &&& actions@.len() > 0
            &&& actions@[0]@ == (StoreActionView::WriteText { path: head@, text: id@ + "\n"@ })
            &&& c.source_run_id is None ==> actions@.len() == 1 && report.compacted_journals == 0 && report.journal_path is None
                && report.operation_journal_path is None
            &&& report.checkpoint_id@ == id@ && report.source_run_id == c.source_run_id
            &&& plain matches Ok(list) && store_action_views(list@) == store_action_views(actions@)
        },
{
    if let Ok((actions, report)) = plan {
        assert(store_action_views(actions@).len() == actions@.len());
        assert(store_action_views(actions@)[0] == actions@[0]@);
    }
}

/// Compaction moves each open journal of a run to its place among the
/// compacted ones, in place of one that is there already; a journal that is not
/// open stays where it is. The report says where the compacted journals are, and how many.
pub proof fn compaction_moves_open_journals(
    s: WorkspaceStore,
    run_id: RunId,
    run: &str,
    journal: JournalFiles,
    operations: JournalFiles,
    open: String,
    compacted: String,
    open_operations: String,
    compacted_operations: String,
    dirs: Vec<String>,
    plan: (Vec<StoreAction>, WorkspaceCommitReport),
    x: StoreActionView,
)
    requires
        run@ == hyphenated(run_id.value),
        call_ensures(WorkspaceStore::journal_path, (&s, run), open),
        call_ensures(WorkspaceStore::compacted_journal_path, (&s, run), compacted),
        call_ensures(WorkspaceStore::operation_journal_path, (&s, run), open_operations),
        call_ensures(WorkspaceStore::compacted_operation_journal_path, (&s, run), compacted_operations),
        call_ensures(WorkspaceStore::layout, (&s,), dirs),
        call_ensures(WorkspaceStore::compact_run_journals, (&s, run_id, journal, operations), plan),
    ensures
        ({
            let did = store_action_views(plan.0@).contains(x);
            &&& x matches StoreActionView::RenameFile { from, to } ==> (did <==> (journal.active && from == open@ && to == compacted@) || (
            operations.active && from == open_operations@ && to == compacted_operations@))
            &&& x matches StoreActionView::RemoveFile(path) ==> (did <==> (journal.active && journal.compacted && path == compacted@) || (
            operations.active && operations.compacted && path == compacted_operations@))
            &&& x is WriteText ==> !did
            &&& x matches StoreActionView::MakeDirs(path) ==> (did <==> (journal.active && path == dirs@[3]@) || (operations.active && path
                == dirs@[5]@))
            &&& plan.1.journal_path is Some <==> journal.active || journal.compacted
            &&& plan.1.journal_path matches Some(p) ==> p@ == compacted@
            &&& plan.1.operation_journal_path is Some <==> operations.active || operations.compacted
            &&& plan.1.operation_journal_path matches Some(p) ==> p@ == compacted_operations@
            &&& plan.1.compacted_journals == (if plan.1.journal_path is Some {
                1int
            } else {
                0int
            }) + (if plan.1.operation_journal_path is Some {
                1int
            } else {
                0int
            })
            &&& plan.1.source_run_id == Some(run_id)
        }),
{
    assert(views(dirs@).len() == dirs@.len());
    assert(views(dirs@)[3] == dirs@[3]@ && views(dirs@)[5] == dirs@[5]@);
    let dir = crate::versioned_fs::paths::pushed(crate::versioned_fs::paths::pushed(s.store@, "journals"@), "compacted"@);
    let other = crate::versioned_fs::paths::pushed(crate::versioned_fs::paths::pushed(s.store@, "operation-journals"@), "compacted"@);
    let a = compaction(journal, open@, dir, compacted@);
    let b = compaction(operations, open_operations@, other, compacted_operations@);
    assert(store_action_views(plan.0@) == a + b);
    lemma_in_either(a, b, x);
    lemma_compaction(journal, open@, dir, compacted@, x);
    lemma_compaction(operations, open_operations@, other, compacted_operations@, x);
}

proof fn lemma_compaction(files: JournalFiles, active: Seq<char>, dir: Seq<char>, compacted: Seq<char>, x: StoreActionView)
    ensures
        compaction(files, active, dir, compacted).contains(x) <==> files.active && {
            ||| x == StoreActionView::MakeDirs(dir)
            ||| files.compacted && x == StoreActionView::RemoveFile(compacted)
            ||| x == (StoreActionView::RenameFile { from: active, to: compacted })
        },
{
    let m = StoreActionView::MakeDirs(dir);
    let d = StoreActionView::RemoveFile(compacted);
    let n = StoreActionView::RenameFile { from: active, to: compacted };
    let l = compaction(files, active, dir, compacted);
    lemma_in_one(m, x);
    lemma_in_one(d, x);
    lemma_in_one(n, x);
    if files.active && files.compacted {
        assert(l =~= seq![m] + (seq![d] + seq![n]));
        lemma_in_either(seq![d], seq![n], x);
        lemma_in_either(seq![m], seq![d] + seq![n], x);
    } else if files.active {
        assert(l =~= seq![m] + seq![n]);
        lemma_in_either(seq![m], seq![n], x);
    }
}

/// The order of compaction: the directory is made first, what is in the way is
/// removed, and then the journal is moved.
pub proof fn compaction_makes_room_first(
    actions: &mut Vec<StoreAction>,
    files: JournalFiles,
    active: String,
    dir: String,
    compacted: String,
    path: Option<String>,
)
    requires
        call_ensures(crate::versioned_fs::maintenance::compact_journal_file, (actions, files, active, dir, compacted), path),
    ensures
        ({
            let n = old(actions)@.len() as int;
            let m = final(actions)@.len() as int;
            &&& !files.active ==> m == n
            &&& files.active ==> {
                &&& m == n + (if files.compacted {
                    3int
                } else {
                    2int
                })
                &&& final(actions)@[n]@ == StoreActionView::MakeDirs(dir@)
                &&& files.compacted ==> final(actions)@[n + 1]@ == StoreActionView::RemoveFile(compacted@)
                &&& final(actions)@[m - 1]@ == (StoreActionView::RenameFile { from: active@, to: compacted@ })
            }
            &&& path is Some <==> files.active || files.compacted
            &&& path matches Some(p) ==> p@ == compacted@
        }),
{
    let a = store_action_views(old(actions)@);
    let b = store_action_views(final(actions)@);
    assert(a.len() == old(actions)@.len() && b.len() == final(actions)@.len());
    let n = a.len() as int;
    let m = b.len() as int;
    if files.active {
        assert(b[n] == final(actions)@[n]@);
        assert(b[n + 1] == final(actions)@[n + 1]@);
        assert(b[m - 1] == final(actions)@[m - 1]@);
    }
}

/// A commit compacts the journals of the run as a compaction of them does.
pub proof fn a_commit_compacts_the_run(
    s: WorkspaceStore,
    id: &str,
    c: WorkspaceCheckpoint,
    run_id: RunId,
    journal: JournalFiles,
    operations: JournalFiles,
    plan: Result<(Vec<StoreAction>, WorkspaceCommitReport), FsError>,
    alone: (Vec<StoreAction>, WorkspaceCommitReport),
)
    requires
        c.source_run_id == Some(run_id),
        call_ensures(WorkspaceStore::commit_with_report, (&s, id, Some(&c), journal, operations), plan),
        call_ensures(WorkspaceStore::compact_run_journals, (&s, run_id, journal, operations), alone),
    ensures
        plan matches Ok((actions, report)) && {
            &&& store_action_views(actions@).skip(1) == store_action_views(alone.0@)
            &&& text_view(report.journal_path) == text_view(alone.1.journal_path)
            &&& text_view(report.operation_journal_path) == text_view(alone.1.operation_journal_path)
            &&& report.compacted_journals == alone.1.compacted_journals
        },
{
    if let Ok((actions, report)) = plan {
        assert(store_action_views(actions@).skip(1) =~= store_action_views(alone.0@));
    }
}

/// Checkpoints are listed from the oldest to the newest, each as often as it
/// was found; those of one time keep their order.
pub proof fn checkpoints_are_listed_by_their_times(
    s: WorkspaceStore,
    found: Vec<WorkspaceCheckpointSummary>,
    list: Vec<WorkspaceCheckpointSummary>,
) -> (order: Seq<int>)
    requires
        call_ensures(WorkspaceStore::list_checkpoints, (&s, found), list),
    ensures
        list@.len() == found@.len() && order.len() == found@.len(),
        order.no_duplicates(),
        forall|i: int| 0 <= i < list@.len() ==> 0 <= #[trigger] order[i] < found@.len() && list@[i] == found@[order[i]],
        forall|i: int, j: int|
            0 <= i < j < list@.len() ==> (#[trigger] list@[i]).created_at <= (#[trigger] list@[j]).created_at,
        forall|i: int, j: int|
            0 <= i < j < list@.len() && list@[i].created_at == list@[j].created_at ==> (#[trigger] order[i]) < (#[trigger] order[j]),
{
    let order = choose|order: Seq<int>|
        #[trigger] is_time_order(order, found@) && list@ == order.map_values(|i: int| found@[i]);
    assert forall|i: int, j: int| 0 <= i < j < list@.len() implies (#[trigger] list@[i]).created_at <= (#[trigger] list@[j]).created_at by {
        assert(crate::versioned_fs::maintenance::earlier(found@, order[i], order[j]));
    }
    assert forall|i: int, j: int|
        0 <= i < j < list@.len() && list@[i].created_at == list@[j].created_at implies (#[trigger] order[i]) < (#[trigger] order[j]) by {
        assert(crate::versioned_fs::maintenance::earlier(found@, order[i], order[j]));
    }
    assert forall|i: int, j: int| 0 <= i < order.len() && 0 <= j < order.len() && i != j implies order[i] != order[j] by {
        if i < j {
            assert(crate::versioned_fs::maintenance::earlier(found@, order[i], order[j]));
        } else {
            assert(crate::versioned_fs::maintenance::earlier(found@, order[j], order[i]));
        }
    }
    order
}

/// Some checkpoint has a file whose content is the object.
pub open spec fn used(checkpoints: Seq<WorkspaceCheckpoint>, object: Seq<char>) -> bool {
    exists|i: int, path: Seq<char>| 0 <= i < checkpoints.len() && #[trigger] holds(checkpoints[i], path, object)
}

/// The checkpoint has a file at the path whose content is the object.
pub open spec fn holds(c: WorkspaceCheckpoint, path: Seq<char>, object: Seq<char>) -> bool {
    match at(c.entries, path) {
        Some(EntryView::File { object: o, .. }) => o == object,
        _ => false,
    }
}

proof fn lemma_used(checkpoints: Seq<WorkspaceCheckpoint>, object: Seq<char>)
    ensures
        is_referenced(checkpoints, object) <==> used(checkpoints, object),
{
    if is_referenced(checkpoints, object) {
        let (i, path) = choose|i: int, path: Seq<char>| 0 <= i < checkpoints.len() && #[trigger] refers(checkpoints[i].manifest(), path, object);
        assert(holds(checkpoints[i], path, object));
    }
    if used(checkpoints, object) {
        let (i, path) = choose|i: int, path: Seq<char>| 0 <= i < checkpoints.len() && #[trigger] holds(checkpoints[i], path, object);
        assert(refers(checkpoints[i].manifest(), path, object));
    }
}

/// Verification reports, in order, exactly the contents that checkpoints use
/// and that are not there, and those that are there and are not what their name
/// says; all is well exactly where there are none.
pub proof fn verification_finds_what_is_missing_or_corrupt(
    s: WorkspaceStore,
    checkpoints: &[WorkspaceCheckpoint],
    found: StringMap<String>,
    objects: usize,
    report: WorkspaceVerifyReport,
    object: Seq<char>,
)
    requires
        call_ensures(WorkspaceStore::verify, (&s, checkpoints, &found, objects), report),
    ensures
        views(report.missing_objects@).contains(object) <==> used(checkpoints@, object) && !found@.contains_key(object),
        views(report.corrupt_objects@).contains(object) <==> used(checkpoints@, object) && found@.contains_key(object) && found@[object]@
            != object,
        report.ok <==> report.missing_objects@.len() == 0 && report.corrupt_objects@.len() == 0,
        report.checkpoint_count == checkpoints@.len() && report.object_count == objects,
        forall|i: int, j: int|
            0 <= i < j < report.missing_objects@.len() ==> before(
                #[trigger] views(report.missing_objects@)[i],
                #[trigger] views(report.missing_objects@)[j],
            ),
{
    lemma_used(checkpoints@, object);
    assert(views(report.missing_objects@).len() == report.missing_objects@.len());
}

/// Collection goes through the files one by one: one that a checkpoint uses
/// stays; any other goes, and its bytes are counted.
pub proof fn collection_removes_what_is_not_used(
    s: WorkspaceStore,
    checkpoints: &[WorkspaceCheckpoint],
    fewer: &[(String, u64)],
    file: (String, u64),
    files: &[(String, u64)],
    first: (Vec<String>, WorkspaceGcReport),
    plan: (Vec<String>, WorkspaceGcReport),
)
    requires
        files@ == fewer@.push(file),
        call_ensures(WorkspaceStore::gc, (&s, checkpoints, fewer), first),
        call_ensures(WorkspaceStore::gc, (&s, checkpoints, files), plan),
    ensures
        fewer@.len() == 0 ==> first.0@.len() == 0 && first.1.removed_bytes == 0,
        used(checkpoints@, file.0@) ==> views(plan.0@) == views(first.0@) && plan.1.removed_bytes == first.1.removed_bytes,
        !used(checkpoints@, file.0@) ==> {
            &&& views(plan.0@) == views(first.0@).push(file.0@)
            &&& plan.1.removed_bytes == first.1.removed_bytes + file.1
        },
        plan.1.removed_objects == plan.0@.len(),
{
    let n = fewer@.len() as int;
    lemma_used(checkpoints@, file.0@);
    lemma_same_unreferenced(checkpoints@, fewer@, files@, n);
    assert(views(first.0@).len() == first.0@.len());
    let a = unreferenced(checkpoints@, fewer@, n);
    let b = unreferenced(checkpoints@, files@, n + 1);
    if !used(checkpoints@, file.0@) {
        assert(b == a.push(file));
        assert(b.drop_last() =~= a);
        assert(names_of_files(b) =~= names_of_files(a).push(file.0@));
    }
}

/// Collection reports how many contents the checkpoints use, each counted once.
pub proof fn collection_counts_what_is_used(
    s: WorkspaceStore,
    checkpoints: &[WorkspaceCheckpoint],
    files: &[(String, u64)],
    plan: (Vec<String>, WorkspaceGcReport),
    object: Seq<char>,
) -> (list: Seq<Seq<char>>)
    requires
        call_ensures(WorkspaceStore::gc, (&s, checkpoints, files), plan),
    ensures
        list.len() == plan.1.referenced_objects,
        list.no_duplicates(),
        list.contains(object) <==> used(checkpoints@, object),
{
    lemma_used(checkpoints@, object);
    let wanted = crate::versioned_fs::maintenance::referenced_set(checkpoints@);
    let list = choose|list: Seq<Seq<char>>|
        #[trigger] crate::versioned_fs::maintenance::lists_objects(list, wanted) && list.len() == plan.1.referenced_objects as nat;
    assert forall|i: int, j: int| 0 <= i < list.len() && 0 <= j < list.len() && i != j implies list[i] != list[j] by {
        if i < j {
            crate::text::lemma_before_asymmetric(list[i], list[j]);
        } else {
            crate::text::lemma_before_asymmetric(list[j], list[i]);
        }
    }
    list
}

proof fn lemma_same_unreferenced(checkpoints: Seq<WorkspaceCheckpoint>, a: Seq<(String, u64)>, b: Seq<(String, u64)>, n: int)
    requires
        n <= a.len(),
        n <= b.len(),
        forall|i: int| 0 <= i < n ==> #[trigger] a[i] == b[i],
    ensures
        unreferenced(checkpoints, a, n) == unreferenced(checkpoints, b, n),
    decreases n,
{
    if n > 0 {
        lemma_same_unreferenced(checkpoints, a, b, n - 1);
        assert(a[n - 1] == b[n - 1]);
    }
}

} // verus!
