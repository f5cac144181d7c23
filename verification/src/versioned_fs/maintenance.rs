//! Committing, compacting, listing, verifying and collecting.

use crate::run_id::{hyphenated, RunId};
use crate::string_map::{has_key, lemma_key_index, pair_keys, StringMap};
use crate::text::{before, concat2, is_space, lemma_before_transitive, same_text, trim, views};
use crate::versioned_fs::entry::{manifest, text_view, EntryView, WorkspaceEntry};
use crate::versioned_fs::error::{FsError, FsErrorView};
use crate::versioned_fs::paths::{join_path, pushed};
use crate::versioned_fs::store::{
    head_of, store_action_views, JournalFiles, StoreAction, StoreActionView, WorkspaceCheckpoint,
    WorkspaceCheckpointSummary, WorkspaceCommitReport, WorkspaceGcReport, WorkspaceStore,
    WorkspaceVerifyReport,
};
use vstd::prelude::*;

verus! {

/// The steps that compact a journal.
pub open spec fn compaction(
    files: JournalFiles,
    active: Seq<char>,
    dir: Seq<char>,
    compacted: Seq<char>,
) -> Seq<StoreActionView> {
    if !files.active {
        Seq::empty()
    } else if files.compacted {
        seq![
            StoreActionView::MakeDirs(dir),
            StoreActionView::RemoveFile(compacted),
            StoreActionView::RenameFile { from: active, to: compacted },
        ]
    } else {
        seq![
            StoreActionView::MakeDirs(dir),
            StoreActionView::RenameFile { from: active, to: compacted },
        ]
    }
}

/// Where the compacted journal is; nothing where there was none.
pub open spec fn compacted_at(files: JournalFiles, compacted: Seq<char>) -> Option<Seq<char>> {
    if files.active || files.compacted {
        Some(compacted)
    } else {
        None
    }
}

/// Appends the steps that compact a journal, and tells where it then is.
pub fn compact_journal_file(
    actions: &mut Vec<StoreAction>,
    files: JournalFiles,
    active: String,
    dir: String,
    compacted: String,
) -> (path: Option<String>)
    ensures
        store_action_views(final(actions)@) == store_action_views(old(actions)@) + compaction(
            files,
            active@,
            dir@,
            compacted@,
        ),
        text_view(path) == compacted_at(files, compacted@),
{
    let ghost start = store_action_views(actions@);
    if files.active {
        actions.push(StoreAction::MakeDirs(dir));
        if files.compacted {
            actions.push(StoreAction::RemoveFile(compacted.clone()));
        }
        actions.push(StoreAction::RenameFile { from: active, to: compacted.clone() });
        assert(store_action_views(actions@) =~= start + compaction(files, active@, dir@, compacted@));
        Some(compacted)
    } else {
        assert(store_action_views(actions@) =~= start + compaction(files, active@, dir@, compacted@));
        if files.compacted {
            Some(compacted)
        } else {
            None
        }
    }
}

/// The counts of two optional paths.
pub open spec fn how_many(a: Option<Seq<char>>, b: Option<Seq<char>>) -> nat {
    (if a is Some {
        1nat
    } else {
        0nat
    }) + (if b is Some {
        1nat
    } else {
        0nat
    })
}

impl WorkspaceStore {
    /// The steps that compact the journals of a run.
    pub open spec fn spec_compact_steps(&self, run: Seq<char>, journal: JournalFiles, operations: JournalFiles) -> Seq<StoreActionView> {
        compaction(
            journal,
            self.spec_journal_path(run),
            pushed(pushed(self.store@, "journals"@), "compacted"@),
            self.spec_compacted_journal_path(run),
        ) + compaction(
            operations,
            self.spec_operation_journal_path(run),
            pushed(pushed(self.store@, "operation-journals"@), "compacted"@),
            self.spec_compacted_operation_journal_path(run),
        )
    }

    /// The steps that move a run's open journals to the compacted area, and the report of them.
    pub fn compact_run_journals(&self, run_id: RunId, journal: JournalFiles, operations: JournalFiles) -> (plan: (Vec<StoreAction>, WorkspaceCommitReport))
        ensures
            ({
                let run = hyphenated(run_id.value);
                &&& store_action_views(plan.0@) == self.spec_compact_steps(run, journal, operations)
                &&& plan.1.checkpoint_id@.len() == 0
                &&& plan.1.source_run_id == Some(run_id)
                &&& text_view(plan.1.journal_path) == compacted_at(journal, self.spec_compacted_journal_path(run))
                &&& text_view(plan.1.operation_journal_path) == compacted_at(
                    operations,
                    self.spec_compacted_operation_journal_path(run),
                )
                &&& plan.1.compacted_journals == how_many(
                    text_view(plan.1.journal_path),
                    text_view(plan.1.operation_journal_path),
                )
            }),
    {
        let run = run_id.text();
        let mut actions: Vec<StoreAction> = Vec::new();
        assert(store_action_views(actions@) =~= Seq::empty());
        let journal_dir = join_path(join_path(self.store.as_str(), "journals").as_str(), "compacted");
        let operation_dir = join_path(join_path(self.store.as_str(), "operation-journals").as_str(), "compacted");
        let journal_path = compact_journal_file(
            &mut actions,
            journal,
            self.journal_path(run.as_str()),
            journal_dir,
            self.compacted_journal_path(run.as_str()),
        );
        let operation_journal_path = compact_journal_file(
            &mut actions,
            operations,
            self.operation_journal_path(run.as_str()),
            operation_dir,
            self.compacted_operation_journal_path(run.as_str()),
        );
        assert(store_action_views(actions@) =~= self.spec_compact_steps(run@, journal, operations));
        let first: usize = if journal_path.is_some() {
            1
        } else {
            0
        };
        let second: usize = if operation_journal_path.is_some() {
            1
        } else {
            0
        };
        let report = WorkspaceCommitReport {
            checkpoint_id: String::new(),
            source_run_id: Some(run_id),
            compacted_journals: first + second,
            journal_path,
            operation_journal_path,
        };
        (actions, report)
    }

    /// The steps of a commit: the head is written first, then the journals of
    /// the run that the checkpoint came from are compacted.
    pub open spec fn spec_commit_steps(
        &self,
        checkpoint_id: Seq<char>,
        source: Option<RunId>,
        journal: JournalFiles,
        operations: JournalFiles,
    ) -> Seq<StoreActionView> {
        seq![
            StoreActionView::WriteText {
                path: self.spec_head_path(),
                text: checkpoint_id + "\n"@,
            },
        ] + match source {
            Some(run_id) => self.spec_compact_steps(hyphenated(run_id.value), journal, operations),
            None => Seq::empty(),
        }
    }

    /// The steps that make a checkpoint the head, and the report of them; a
    /// checkpoint that is not in the store is refused. The two states are those
    /// of the journals of the run that the checkpoint came from.
    pub fn commit_with_report(
        &self,
        checkpoint_id: &str,
        checkpoint: Option<&WorkspaceCheckpoint>,
        journal: JournalFiles,
        operations: JournalFiles,
    ) -> (plan: Result<(Vec<StoreAction>, WorkspaceCommitReport), FsError>)
        ensures
            match checkpoint {
                None => plan matches Err(e) && e@ == FsErrorView::UnknownCheckpoint(checkpoint_id@),
                Some(c) => plan matches Ok((actions, report)) && {
                    &&& store_action_views(actions@) == self.spec_commit_steps(
                        checkpoint_id@,
                        c.source_run_id,
                        journal,
                        operations,
                    )
                    &&& report.checkpoint_id@ == checkpoint_id@
                    &&& report.source_run_id == c.source_run_id
                    &&& text_view(report.journal_path) == match c.source_run_id {
                        Some(run) => compacted_at(journal, self.spec_compacted_journal_path(hyphenated(run.value))),
                        None => None,
                    }
                    &&& text_view(report.operation_journal_path) == match c.source_run_id {
                        Some(run) => compacted_at(
                            operations,
                            self.spec_compacted_operation_journal_path(hyphenated(run.value)),
                        ),
                        None => None,
                    }
                    &&& report.compacted_journals == how_many(
                        text_view(report.journal_path),
                        text_view(report.operation_journal_path),
                    )
                },
            },
    {
        let known = match checkpoint {
            Some(c) => c,
            None => {
                return Err(FsError::UnknownCheckpoint(checkpoint_id.to_string()));
            },
        };
        let mut actions: Vec<StoreAction> = Vec::new();
        actions.push(
            StoreAction::WriteText { path: self.head_path(), text: concat2(checkpoint_id, "\n") },
        );
        let ghost first = store_action_views(actions@);
        assert(first =~= seq![
            StoreActionView::WriteText { path: self.spec_head_path(), text: checkpoint_id@ + "\n"@ },
        ]);
        match known.source_run_id {
            Some(run_id) => {
                let (mut more, compact) = self.compact_run_journals(run_id, journal, operations);
                let ghost rest = store_action_views(more@);
                let ghost earlier = actions@;
                actions.append(&mut more);
                assert(store_action_views(actions@) =~= first + rest);
                let report = WorkspaceCommitReport {
                    checkpoint_id: checkpoint_id.to_string(),
                    source_run_id: Some(run_id),
                    compacted_journals: compact.compacted_journals,
                    journal_path: compact.journal_path,
                    operation_journal_path: compact.operation_journal_path,
                };
                Ok((actions, report))
            },
            None => {
                assert(first + Seq::<StoreActionView>::empty() =~= first);
                let report = WorkspaceCommitReport {
                    checkpoint_id: checkpoint_id.to_string(),
                    source_run_id: None,
                    compacted_journals: 0,
                    journal_path: None,
                    operation_journal_path: None,
                };
                Ok((actions, report))
            },
        }
    }

    /// The steps that make a checkpoint the head.
    pub fn commit(
        &self,
        checkpoint_id: &str,
        checkpoint: Option<&WorkspaceCheckpoint>,
        journal: JournalFiles,
        operations: JournalFiles,
    ) -> (plan: Result<Vec<StoreAction>, FsError>)
        ensures
            match checkpoint {
                None => plan matches Err(e) && e@ == FsErrorView::UnknownCheckpoint(checkpoint_id@),
                Some(c) => plan matches Ok(actions) && store_action_views(actions@) == self.spec_commit_steps(
                    checkpoint_id@,
                    c.source_run_id,
                    journal,
                    operations,
                ),
            },
    {
        match self.commit_with_report(checkpoint_id, checkpoint, journal, operations) {
            Ok((actions, _)) => Ok(actions),
            Err(e) => Err(e),
        }
    }
}

/// Committing makes the checkpoint the head: what a commit writes to the ref
/// file is read back as the checkpoint's name.
pub proof fn a_committed_checkpoint_is_the_head(checkpoint_id: Seq<char>)
    requires
        checkpoint_id.len() > 0,
        trim(checkpoint_id) == checkpoint_id,
    ensures
        head_of(checkpoint_id + "\n"@) == Some(checkpoint_id),
{
    reveal_strlit("\n");
    let text = checkpoint_id + "\n"@;
    assert(!is_space(checkpoint_id[0])) by {
        if is_space(checkpoint_id[0]) {
            lemma_trim_shortens(checkpoint_id.drop_first());
        }
    }
    assert(text.last() == '\n');
    assert(text[0] == checkpoint_id[0]);
    assert(text.drop_last() =~= checkpoint_id);
}

/// Trimming does not lengthen a text.
proof fn lemma_trim_shortens(s: Seq<char>)
    ensures
        trim(s).len() <= s.len(),
    decreases s.len(),
{
    if s.len() > 0 && is_space(s[0]) {
        lemma_trim_shortens(s.drop_first());
    } else if s.len() > 0 && is_space(s.last()) {
        lemma_trim_shortens(s.drop_last());
    }
}

/// The positions of `list` in the order of their times; equal times keep their order.
pub open spec fn is_time_order(order: Seq<int>, list: Seq<WorkspaceCheckpointSummary>) -> bool {
    &&& order.len() == list.len()
    &&& forall|i: int| 0 <= i < order.len() ==> 0 <= #[trigger] order[i] < list.len()
    &&& forall|i: int, j: int|
        0 <= i < j < order.len() ==> earlier(list, #[trigger] order[i], #[trigger] order[j])
}

/// The summary at `a` comes before the one at `b`.
pub open spec fn earlier(list: Seq<WorkspaceCheckpointSummary>, a: int, b: int) -> bool {
    list[a].created_at < list[b].created_at || (list[a].created_at == list[b].created_at && a < b)
}

/// The output holds the elements of `list` in the order of their times.
pub open spec fn is_sorted_by_time(output: Seq<WorkspaceCheckpointSummary>, list: Seq<WorkspaceCheckpointSummary>) -> bool {
    exists|order: Seq<int>| #[trigger] is_time_order(order, list) && output == order.map_values(|i: int| list[i])
}

/// The summaries in the order of their times.
fn sort_by_time(found: Vec<WorkspaceCheckpointSummary>) -> (list: Vec<WorkspaceCheckpointSummary>)
    ensures
        is_sorted_by_time(list@, found@),
{
    let ghost input = found@;
    let mut rest = found;
    let ghost mut taken: int = 0;
    let mut list: Vec<WorkspaceCheckpointSummary> = Vec::new();
    let ghost mut order: Seq<int> = Seq::empty();
    let count = rest.len();
    // Elements are taken from the back, so each goes before those with the same time.
    assert(list@ =~= order.map_values(|i: int| input[i]));
    for step in 0..count
        invariant
            count == input.len(),
            rest@ == input.take(count - step),
            order.len() == step,
            list@ == order.map_values(|i: int| input[i]),
            forall|i: int| 0 <= i < order.len() ==> count - step <= #[trigger] order[i] < count,
            forall|i: int, j: int| 0 <= i < j < order.len() ==> earlier(input, #[trigger] order[i], #[trigger] order[j]),
    {
        let ghost from: int = count - step - 1;
        let item = match rest.pop() {
            Some(item) => item,
            None => {
                return list;
            },
        };
        assert(rest@ =~= input.take(from));
        assert(item == input[from]);
        let mut at: usize = 0;
        while at < list.len() && list[at].created_at < item.created_at
            invariant
                at <= list@.len(),
                list@.len() == order.len(),
                list@ == order.map_values(|i: int| input[i]),
                item == input[from],
                forall|i: int| 0 <= i < at ==> input[#[trigger] order[i]].created_at < item.created_at,
            decreases list@.len() - at,
        {
            assert(list@[at as int] == input[order[at as int]]);
            at = at + 1;
        }
        let ghost old_order = order;
        let ghost old_list = list@;
        proof {
            assert forall|i: int| at <= i < old_order.len() implies earlier(input, from, #[trigger] old_order[i]) by {
                assert(old_list[at as int] == input[old_order[at as int]]);
                if i > at {
                    assert(earlier(input, old_order[at as int], old_order[i]));
                }
            }
            assert forall|i: int| 0 <= i < at implies earlier(input, #[trigger] old_order[i], from) by {
            }
        }
        list.insert(at, item);
        proof {
            order = old_order.insert(at as int, from);
            assert(list@ =~= order.map_values(|i: int| input[i]));
            assert forall|i: int| 0 <= i < order.len() implies from <= #[trigger] order[i] < count by {
                let k = if i < at { i } else { i - 1 };
                if i != at {
                    assert(order[i] == old_order[k]);
                }
            }
            assert forall|i: int, j: int| 0 <= i < j < order.len() implies earlier(input, #[trigger] order[i], #[trigger] order[j]) by {
                let a = if i < at { i } else { i - 1 };
                let b = if j < at { j } else { j - 1 };
                if i != at {
                    assert(order[i] == old_order[a]);
                }
                if j != at {
                    assert(order[j] == old_order[b]);
                }
            }
        }
    }
    assert(is_time_order(order, input));
    list
}

/// Some checkpoint records a file with this object.
pub open spec fn is_referenced(checkpoints: Seq<WorkspaceCheckpoint>, object: Seq<char>) -> bool {
    exists|i: int, path: Seq<char>| 0 <= i < checkpoints.len() && #[trigger] refers(checkpoints[i].manifest(), path, object)
}

/// The manifest records a file with this object at the path.
pub open spec fn refers(m: Map<Seq<char>, EntryView>, path: Seq<char>, object: Seq<char>) -> bool {
    m.contains_key(path) && m[path] is File && m[path]->object == object
}

/// The objects that the checkpoints record, as the keys of a map.
pub fn referenced_objects(checkpoints: &[WorkspaceCheckpoint]) -> (objects: StringMap<()>)
    requires
        forall|i: int| 0 <= i < checkpoints@.len() ==> (#[trigger] checkpoints@[i]).wf(),
    ensures
        objects.wf(),
        forall|object: Seq<char>| #[trigger] objects@.contains_key(object) <==> is_referenced(checkpoints@, object),
{
    let mut objects: StringMap<()> = StringMap::new();
    for i in 0..checkpoints.len()
        invariant
            forall|i: int| 0 <= i < checkpoints@.len() ==> (#[trigger] checkpoints@[i]).wf(),
            objects.wf(),
            forall|object: Seq<char>| #[trigger] objects@.contains_key(object) <==> is_referenced(checkpoints@.take(i as int), object),
    {
        let entries = &checkpoints[i].entries;
        assert(checkpoints@[i as int].wf());
        for j in 0..entries.items.len()
            invariant
                0 <= i < checkpoints@.len(),
                entries == checkpoints@[i as int].entries,
                entries.wf(),
                objects.wf(),
                forall|object: Seq<char>|
                    #[trigger] objects@.contains_key(object) <==> is_referenced(checkpoints@.take(i as int), object) || names_object(
                        entries.items@,
                        j as int,
                        object,
                    ),
        {
            let ghost earlier_objects = objects@;
            proof {
                assert forall|object: Seq<char>| #[trigger] names_object(entries.items@, j + 1, object) <==> names_object(
                    entries.items@,
                    j as int,
                    object,
                ) || (entries.items@[j as int].1@ is File && entries.items@[j as int].1@->object == object) by {
                    lemma_names_object_step(entries.items@, j as int, object);
                }
            }
            if let WorkspaceEntry::File { object, .. } = &entries.items[j].1 {
                objects.insert(object.clone(), ());
            }
        }
        proof {
            assert forall|object: Seq<char>| #[trigger] objects@.contains_key(object) <==> is_referenced(checkpoints@.take(i + 1), object) by {
                lemma_referenced_step(checkpoints@, i as int, object);
            }
        }
    }
    assert(checkpoints@.take(checkpoints@.len() as int) =~= checkpoints@);
    objects
}

/// One of the first `n` pairs is a file with this object.
spec fn names_object(items: Seq<(String, WorkspaceEntry)>, n: int, object: Seq<char>) -> bool {
    exists|k: int| 0 <= k < n && (#[trigger] items[k]).1@ is File && items[k].1@->object == object
}

proof fn lemma_names_object_step(items: Seq<(String, WorkspaceEntry)>, n: int, object: Seq<char>)
    requires
        0 <= n < items.len(),
    ensures
        names_object(items, n + 1, object) <==> names_object(items, n, object) || (items[n].1@ is File && items[n].1@->object == object),
{
    if names_object(items, n + 1, object) {
        let k = choose|k: int| 0 <= k < n + 1 && (#[trigger] items[k]).1@ is File && items[k].1@->object == object;
        if k < n {
            assert(items[k].1@ is File);
        }
    }
    if names_object(items, n, object) {
        let k = choose|k: int| 0 <= k < n && (#[trigger] items[k]).1@ is File && items[k].1@->object == object;
        assert(items[k].1@ is File);
    }
}

/// One more checkpoint refers to the objects of its files.
proof fn lemma_referenced_step(checkpoints: Seq<WorkspaceCheckpoint>, i: int, object: Seq<char>)
    requires
        0 <= i < checkpoints.len(),
        checkpoints[i].wf(),
    ensures
        is_referenced(checkpoints.take(i + 1), object) <==> is_referenced(checkpoints.take(i), object) || names_object(
            checkpoints[i].entries.items@,
            checkpoints[i].entries.items@.len() as int,
            object,
        ),
{
    let short = checkpoints.take(i);
    let long = checkpoints.take(i + 1);
    let items = checkpoints[i].entries.items@;
    if is_referenced(short, object) {
        let (k, path) = choose|k: int, path: Seq<char>| 0 <= k < short.len() && #[trigger] refers(short[k].manifest(), path, object);
        assert(long[k] == short[k]);
        assert(refers(long[k].manifest(), path, object));
    }
    if names_object(items, items.len() as int, object) {
        let k = choose|k: int| 0 <= k < items.len() && (#[trigger] items[k]).1@ is File && items[k].1@->object == object;
        lemma_key_index(items, k);
        assert(refers(long[i].manifest(), items[k].0@, object));
    }
    if is_referenced(long, object) {
        let (k, path) = choose|k: int, path: Seq<char>| 0 <= k < long.len() && #[trigger] refers(long[k].manifest(), path, object);
        if k < i {
            assert(refers(short[k].manifest(), path, object));
        } else {
            assert(has_key(items, path));
            let n = crate::string_map::key_index(items, path);
            lemma_key_index(items, n);
            assert(items[n].1@ is File);
        }
    }
}

/// The list holds exactly the objects for which `wanted` holds, in ascending order.
pub open spec fn lists_objects(list: Seq<Seq<char>>, wanted: Set<Seq<char>>) -> bool {
    &&& forall|i: int, j: int| 0 <= i < j < list.len() ==> before(#[trigger] list[i], #[trigger] list[j])
    &&& forall|object: Seq<char>| #[trigger] list.contains(object) <==> wanted.contains(object)
}

/// The objects that are referenced but not there. `found` gives for each
/// object that is there the identifier of its content.
pub open spec fn missing(checkpoints: Seq<WorkspaceCheckpoint>, found: Map<Seq<char>, String>) -> Set<Seq<char>> {
    Set::new(|object: Seq<char>| is_referenced(checkpoints, object) && !found.contains_key(object))
}

/// The objects that are referenced and there, but do not hold their content.
pub open spec fn corrupt(checkpoints: Seq<WorkspaceCheckpoint>, found: Map<Seq<char>, String>) -> Set<Seq<char>> {
    Set::new(
        |object: Seq<char>|
            is_referenced(checkpoints, object) && found.contains_key(object) && found[object]@ != object,
    )
}

/// Appends the next key of a rising list of keys.
proof fn lemma_list_push(list: Seq<Seq<char>>, key: Seq<char>)
    ensures
        forall|k: Seq<char>| #[trigger] list.push(key).contains(k) <==> list.contains(k) || k == key,
{
    assert forall|k: Seq<char>| #[trigger] list.push(key).contains(k) <==> list.contains(k) || k == key by {
        if list.contains(k) {
            let i = choose|i: int| 0 <= i < list.len() && list[i] == k;
            assert(list.push(key)[i] == k);
        }
        if k == key {
            assert(list.push(key)[list.len() as int] == k);
        }
    }
}

impl WorkspaceStore {
    /// The summaries of the checkpoints, oldest first.
    pub fn list_checkpoints(&self, found: Vec<WorkspaceCheckpointSummary>) -> (list: Vec<WorkspaceCheckpointSummary>)
        ensures
            is_sorted_by_time(list@, found@),
    {
        sort_by_time(found)
    }

    /// The health of the store, given the identifier of the content of every
    /// referenced object that is there and the number of object files.
    pub fn verify(&self, checkpoints: &[WorkspaceCheckpoint], found: &StringMap<String>, object_count: usize) -> (report: WorkspaceVerifyReport)
        requires
            forall|i: int| 0 <= i < checkpoints@.len() ==> (#[trigger] checkpoints@[i]).wf(),
            found.wf(),
        ensures
            report.checkpoint_count == checkpoints@.len(),
            report.object_count == object_count,
            lists_objects(views(report.missing_objects@), missing(checkpoints@, found@)),
            lists_objects(views(report.corrupt_objects@), corrupt(checkpoints@, found@)),
            report.ok == (report.missing_objects@.len() == 0 && report.corrupt_objects@.len() == 0),
    {
        let referenced = referenced_objects(checkpoints);
        let mut missing_objects: Vec<String> = Vec::new();
        let mut corrupt_objects: Vec<String> = Vec::new();
        let ghost items = referenced.items@;
        for i in 0..referenced.items.len()
            invariant
                referenced.wf(),
                found.wf(),
                items == referenced.items@,
                forall|a: int, b: int| 0 <= a < b < missing_objects@.len() ==> before(#[trigger] views(missing_objects@)[a], #[trigger] views(missing_objects@)[b]),
                forall|a: int, b: int| 0 <= a < b < corrupt_objects@.len() ==> before(#[trigger] views(corrupt_objects@)[a], #[trigger] views(corrupt_objects@)[b]),
                forall|a: int| 0 <= a < missing_objects@.len() && i < items.len() ==> before(#[trigger] views(missing_objects@)[a], items[i as int].0@),
                forall|a: int| 0 <= a < corrupt_objects@.len() && i < items.len() ==> before(#[trigger] views(corrupt_objects@)[a], items[i as int].0@),
                forall|object: Seq<char>|
                    #[trigger] views(missing_objects@).contains(object) <==> has_key(items.take(i as int), object) && !found@.contains_key(object),
                forall|object: Seq<char>|
                    #[trigger] views(corrupt_objects@).contains(object) <==> has_key(items.take(i as int), object) && found@.contains_key(object)
                        && found@[object]@ != object,
        {
            let object = &referenced.items[i].0;
            let ghost earlier_missing = views(missing_objects@);
            let ghost earlier_corrupt = views(corrupt_objects@);
            proof {
                lemma_list_push(earlier_missing, object@);
                lemma_list_push(earlier_corrupt, object@);
                assert forall|key: Seq<char>| #[trigger] has_key(items.take(i + 1), key) <==> has_key(items.take(i as int), key) || key == object@ by {
                    lemma_has_key_step(items, i as int, key);
                }
            }
            match found.get(object.as_str()) {
                None => {
                    missing_objects.push(object.clone());
                    assert(views(missing_objects@) =~= earlier_missing.push(object@));
                },
                Some(actual) => {
                    if !same_text(actual.as_str(), object.as_str()) {
                        corrupt_objects.push(object.clone());
                        assert(views(corrupt_objects@) =~= earlier_corrupt.push(object@));
                    }
                },
            }
            proof {
                let now_missing = views(missing_objects@);
                let now_corrupt = views(corrupt_objects@);
                assert forall|a: int| 0 <= a < now_missing.len() && i + 1 < items.len() implies before(#[trigger] now_missing[a], items[i + 1].0@) by {
                    if a < earlier_missing.len() {
                        assert(now_missing[a] == earlier_missing[a]);
                        lemma_before_transitive(now_missing[a], object@, items[i + 1].0@);
                    }
                }
                assert forall|a: int| 0 <= a < now_corrupt.len() && i + 1 < items.len() implies before(#[trigger] now_corrupt[a], items[i + 1].0@) by {
                    if a < earlier_corrupt.len() {
                        assert(now_corrupt[a] == earlier_corrupt[a]);
                        lemma_before_transitive(now_corrupt[a], object@, items[i + 1].0@);
                    }
                }
                assert forall|a: int, b: int| 0 <= a < b < now_missing.len() implies before(#[trigger] now_missing[a], #[trigger] now_missing[b]) by {
                    assert(now_missing[a] == earlier_missing[a]);
                    if b < earlier_missing.len() {
                        assert(now_missing[b] == earlier_missing[b]);
                    }
                }
                assert forall|a: int, b: int| 0 <= a < b < now_corrupt.len() implies before(#[trigger] now_corrupt[a], #[trigger] now_corrupt[b]) by {
                    assert(now_corrupt[a] == earlier_corrupt[a]);
                    if b < earlier_corrupt.len() {
                        assert(now_corrupt[b] == earlier_corrupt[b]);
                    }
                }
            }
        }
        proof {
            assert(items.take(items.len() as int) =~= items);
            assert forall|object: Seq<char>| #[trigger] has_key(items, object) <==> is_referenced(checkpoints@, object) by {
                assert(referenced@.contains_key(object) <==> has_key(items, object));
            }
        }
        let ok = missing_objects.len() == 0 && corrupt_objects.len() == 0;
        WorkspaceVerifyReport {
            ok,
            checkpoint_count: checkpoints.len(),
            object_count,
            missing_objects,
            corrupt_objects,
        }
    }

    /// The object files to remove, in the order given, and the report of them.
    /// `files` gives the name and the size of every object file.
    pub fn gc(&self, checkpoints: &[WorkspaceCheckpoint], files: &[(String, u64)]) -> (plan: (Vec<String>, WorkspaceGcReport))
        requires
            forall|i: int| 0 <= i < checkpoints@.len() ==> (#[trigger] checkpoints@[i]).wf(),
            bytes_of(unreferenced(checkpoints@, files@, files@.len() as int)) <= u64::MAX,
        ensures
            views(plan.0@) == names_of_files(unreferenced(checkpoints@, files@, files@.len() as int)),
            counts_referenced(checkpoints@, plan.1.referenced_objects as nat),
            plan.1.removed_objects == plan.0@.len(),
            plan.1.removed_bytes == bytes_of(unreferenced(checkpoints@, files@, files@.len() as int)),
    {
        let referenced = referenced_objects(checkpoints);
        let mut removed: Vec<String> = Vec::new();
        let mut removed_bytes: u64 = 0;
        assert(views(removed@) =~= names_of_files(unreferenced(checkpoints@, files@, 0)));
        for i in 0..files.len()
            invariant
                referenced.wf(),
                forall|object: Seq<char>| #[trigger] referenced@.contains_key(object) <==> is_referenced(checkpoints@, object),
                bytes_of(unreferenced(checkpoints@, files@, files@.len() as int)) <= u64::MAX,
                views(removed@) == names_of_files(unreferenced(checkpoints@, files@, i as int)),
                removed_bytes == bytes_of(unreferenced(checkpoints@, files@, i as int)),
        {
            let ghost done = unreferenced(checkpoints@, files@, i as int);
            if !referenced.contains_key(files[i].0.as_str()) {
                let ghost earlier_removed = removed@;
                removed.push(files[i].0.clone());
                proof {
                    lemma_unreferenced_grows(checkpoints@, files@, i + 1, files@.len() as int);
                    assert(done.push(files@[i as int]).drop_last() =~= done);
                    assert(views(removed@) =~= views(earlier_removed).push(files@[i as int].0@));
                    assert(names_of_files(done.push(files@[i as int])) =~= names_of_files(done).push(files@[i as int].0@));
                }
                removed_bytes = removed_bytes + files[i].1;
            }
        }
        proof {
            lemma_counts_referenced(checkpoints@, &referenced);
            assert(names_of_files(unreferenced(checkpoints@, files@, files@.len() as int)).len() == removed@.len());
        }
        let report = WorkspaceGcReport {
            referenced_objects: referenced.len(),
            removed_objects: removed.len(),
            removed_bytes,
        };
        (removed, report)
    }
}

proof fn lemma_has_key_step(items: Seq<(String, ())>, n: int, key: Seq<char>)
    requires
        0 <= n < items.len(),
    ensures
        has_key(items.take(n + 1), key) <==> has_key(items.take(n), key) || key == items[n].0@,
{
    let short = items.take(n);
    let long = items.take(n + 1);
    if has_key(long, key) {
        let i = choose|i: int| 0 <= i < long.len() && #[trigger] long[i].0@ == key;
        if i < n {
            assert(short[i].0@ == key);
        }
    }
    if has_key(short, key) {
        let i = choose|i: int| 0 <= i < short.len() && #[trigger] short[i].0@ == key;
        assert(long[i].0@ == key);
    }
    if key == items[n].0@ {
        assert(long[n].0@ == key);
    }
}

/// Those of the first `n` files that no checkpoint refers to.
pub open spec fn unreferenced(checkpoints: Seq<WorkspaceCheckpoint>, files: Seq<(String, u64)>, n: int) -> Seq<(String, u64)>
    decreases n,
{
    if n <= 0 {
        Seq::empty()
    } else if is_referenced(checkpoints, files[n - 1].0@) {
        unreferenced(checkpoints, files, n - 1)
    } else {
        unreferenced(checkpoints, files, n - 1).push(files[n - 1])
    }
}

/// The sum of the sizes of some files.
pub open spec fn bytes_of(files: Seq<(String, u64)>) -> nat
    decreases files.len(),
{
    if files.len() == 0 {
        0
    } else {
        bytes_of(files.drop_last()) + files.last().1 as nat
    }
}

/// The names of some files.
pub open spec fn names_of_files(files: Seq<(String, u64)>) -> Seq<Seq<char>> {
    files.map_values(|f: (String, u64)| f.0@)
}

/// The objects that the checkpoints refer to.
pub open spec fn referenced_set(checkpoints: Seq<WorkspaceCheckpoint>) -> Set<Seq<char>> {
    Set::new(|object: Seq<char>| is_referenced(checkpoints, object))
}

/// As many objects are referenced.
pub open spec fn counts_referenced(checkpoints: Seq<WorkspaceCheckpoint>, n: nat) -> bool {
    exists|list: Seq<Seq<char>>|
        #[trigger] lists_objects(list, referenced_set(checkpoints)) && list.len() == n
}

proof fn lemma_counts_referenced(checkpoints: Seq<WorkspaceCheckpoint>, referenced: &StringMap<()>)
    requires
        referenced.wf(),
        forall|object: Seq<char>| #[trigger] referenced@.contains_key(object) <==> is_referenced(checkpoints, object),
    ensures
        counts_referenced(checkpoints, referenced.items@.len()),
{
    let list = pair_keys(referenced.items@);
    let wanted = referenced_set(checkpoints);
    assert forall|object: Seq<char>| #[trigger] list.contains(object) <==> wanted.contains(object) by {
        assert(referenced@.contains_key(object) <==> has_key(referenced.items@, object));
        if list.contains(object) {
            let i = choose|i: int| 0 <= i < list.len() && list[i] == object;
            assert(referenced.items@[i].0@ == object);
        }
        if has_key(referenced.items@, object) {
            let i = choose|i: int| 0 <= i < referenced.items@.len() && #[trigger] referenced.items@[i].0@ == object;
            assert(list[i] == object);
        }
    }
    assert forall|i: int, j: int| 0 <= i < j < list.len() implies before(#[trigger] list[i], #[trigger] list[j]) by {
        assert(before(referenced.items@[i].0@, referenced.items@[j].0@));
    }
    assert(lists_objects(list, wanted));
}

/// The sizes add up.
proof fn lemma_unreferenced_grows(checkpoints: Seq<WorkspaceCheckpoint>, files: Seq<(String, u64)>, i: int, n: int)
    requires
        0 <= i <= n <= files.len(),
    ensures
        bytes_of(unreferenced(checkpoints, files, i)) <= bytes_of(unreferenced(checkpoints, files, n)),
    decreases n - i,
{
    if i < n {
        lemma_unreferenced_grows(checkpoints, files, i, n - 1);
        let front = unreferenced(checkpoints, files, n - 1);
        assert(front.push(files[n - 1]).drop_last() =~= front);
    }
}

/// Collection removes exactly the object files that no checkpoint refers to.
pub proof fn collection_removes_exactly_the_unreferenced(checkpoints: Seq<WorkspaceCheckpoint>, files: Seq<(String, u64)>, name: Seq<char>)
    ensures
        names_of_files(unreferenced(checkpoints, files, files.len() as int)).contains(name) <==> (exists|i: int|
            0 <= i < files.len() && #[trigger] files[i].0@ == name) && !is_referenced(checkpoints, name),
{
    lemma_collected(checkpoints, files, name, files.len() as int);
}

proof fn lemma_collected(checkpoints: Seq<WorkspaceCheckpoint>, files: Seq<(String, u64)>, name: Seq<char>, n: int)
    requires
        0 <= n <= files.len(),
    ensures
        names_of_files(unreferenced(checkpoints, files, n)).contains(name) <==> (exists|i: int|
            0 <= i < n && #[trigger] files[i].0@ == name) && !is_referenced(checkpoints, name),
    decreases n,
{
    let whole = unreferenced(checkpoints, files, n);
    if n > 0 {
        lemma_collected(checkpoints, files, name, n - 1);
        let front = unreferenced(checkpoints, files, n - 1);
        if !is_referenced(checkpoints, files[n - 1].0@) {
            assert(names_of_files(whole) =~= names_of_files(front).push(files[n - 1].0@));
            lemma_list_push(names_of_files(front), files[n - 1].0@);
        }
        if exists|i: int| 0 <= i < n && #[trigger] files[i].0@ == name {
            let i = choose|i: int| 0 <= i < n && #[trigger] files[i].0@ == name;
            if i < n - 1 {
                assert(files[i].0@ == name);
            }
        }
    }
}

/// Collection never breaks a checkpoint: what is referenced stays as it was,
/// so no object becomes missing or corrupt.
pub proof fn collection_keeps_the_store_whole(
    checkpoints: Seq<WorkspaceCheckpoint>,
    files: Seq<(String, u64)>,
    found: Map<Seq<char>, String>,
)
    ensures
        ({
            let gone = names_of_files(unreferenced(checkpoints, files, files.len() as int)).to_set();
            let left = found.remove_keys(gone);
            &&& missing(checkpoints, left) == missing(checkpoints, found)
            &&& corrupt(checkpoints, left) == corrupt(checkpoints, found)
        }),
{
    let names = names_of_files(unreferenced(checkpoints, files, files.len() as int));
    let gone = names.to_set();
    let left = found.remove_keys(gone);
    assert forall|object: Seq<char>| is_referenced(checkpoints, object) implies #[trigger] left.contains_key(object) == found.contains_key(object) by {
        collection_removes_exactly_the_unreferenced(checkpoints, files, object);
        assert(gone.contains(object) <==> names.contains(object));
    }
    assert(missing(checkpoints, left) =~= missing(checkpoints, found));
    assert forall|object: Seq<char>| corrupt(checkpoints, left).contains(object) == #[trigger] corrupt(checkpoints, found).contains(object) by {
        if is_referenced(checkpoints, object) {
            assert(left.contains_key(object) == found.contains_key(object));
        }
    }
    assert(corrupt(checkpoints, left) =~= corrupt(checkpoints, found));
}

/// The object files are those that a collection leaves of `files`.
pub open spec fn left_by_collection(
    checkpoints: Seq<WorkspaceCheckpoint>,
    files: Seq<(String, u64)>,
    left: Seq<(String, u64)>,
) -> bool {
    let gone = names_of_files(unreferenced(checkpoints, files, files.len() as int));
    forall|file: (String, u64)| #[trigger] left.contains(file) <==> files.contains(file) && !gone.contains(file.0@)
}

/// Collection leaves exactly the object files that a checkpoint refers to.
pub proof fn collection_leaves_exactly_the_referenced(
    checkpoints: Seq<WorkspaceCheckpoint>,
    files: Seq<(String, u64)>,
    left: Seq<(String, u64)>,
    file: (String, u64),
)
    requires
        left_by_collection(checkpoints, files, left),
    ensures
        left.contains(file) <==> files.contains(file) && is_referenced(checkpoints, file.0@),
{
    collection_removes_exactly_the_unreferenced(checkpoints, files, file.0@);
    if files.contains(file) {
        let i = choose|i: int| 0 <= i < files.len() && files[i] == file;
        assert(files[i].0@ == file.0@);
    }
}

proof fn lemma_all_referenced(checkpoints: Seq<WorkspaceCheckpoint>, files: Seq<(String, u64)>, n: int)
    requires
        0 <= n <= files.len(),
        forall|i: int| 0 <= i < files.len() ==> is_referenced(checkpoints, (#[trigger] files[i]).0@),
    ensures
        unreferenced(checkpoints, files, n) == Seq::<(String, u64)>::empty(),
    decreases n,
{
    if n > 0 {
        lemma_all_referenced(checkpoints, files, n - 1);
        assert(is_referenced(checkpoints, files[n - 1].0@));
    }
}

/// A second collection finds nothing to remove.
pub proof fn a_second_collection_removes_nothing(
    checkpoints: Seq<WorkspaceCheckpoint>,
    files: Seq<(String, u64)>,
    left: Seq<(String, u64)>,
)
    requires
        left_by_collection(checkpoints, files, left),
    ensures
        names_of_files(unreferenced(checkpoints, left, left.len() as int)).len() == 0,
        bytes_of(unreferenced(checkpoints, left, left.len() as int)) == 0,
{
    assert forall|i: int| 0 <= i < left.len() implies is_referenced(checkpoints, (#[trigger] left[i]).0@) by {
        assert(left.contains(left[i]));
        collection_leaves_exactly_the_referenced(checkpoints, files, left, left[i]);
    }
    lemma_all_referenced(checkpoints, left, left.len() as int);
}

} // verus!
