//! The parts of reports that are lists and maps, and the small operations on stores and identifiers.

use crate::config::{FsSpec, ProcessSpec};
use crate::forms::{change_json, process_json};
use crate::json::{Json, JsonView};
use crate::laws::journal_reading::{named, named_from};
use crate::laws::operations::names_content;
use crate::laws::reports::{
    lemma_a_control_group_is_told_by_name, lemma_a_process_is_told_by_name, lemma_a_report_tells_the_run,
    lemma_a_workspace_is_told_as_it_was_left,
};
use crate::report::{
    cgroup_json, fs_report_json, hint_json, hint_views, rollback_json, CgroupStats, RunReport, VersionedFsReport,
};
use crate::run_id::{checkpoint_id_from, RunId};
use crate::runner::cgroup::{deltas_fit, memory_event_counts, read_key_value_u64};
use crate::runner::landlock::{landlock_plan, landlock_supported_mask, LandlockPlan};
use crate::string_map::StringMap;
use crate::trace::{finding_json, finding_views};
use crate::versioned_fs::diff::{change_views, detect_renames, diff_entries, WorkspaceChange, WorkspaceDiff};
use crate::versioned_fs::entry::WorkspaceEntry;
use crate::versioned_fs::error::FsError;
use crate::versioned_fs::journal::{journal_event_within_limit, within_limit, WorkspaceJournalEvent};
use crate::versioned_fs::object::validate_content_id;
use crate::versioned_fs::operation::{
    append_event, operation_event_within_limit, write_operation, WorkspaceOperation, WorkspaceOperationEvent,
};
use crate::versioned_fs::plan::{action_views, FsAction, FsActionView};
use crate::versioned_fs::restore::{copy_steps, copy_views, found_views, CopyAction, FoundPath};
use crate::versioned_fs::store::{diff_manifests, WorkspaceCheckpoint, WorkspaceStore};
use vstd::prelude::*;

verus! {

/// The variables of a process are told by their names, in their order.
pub proof fn variables_are_told_by_name(p: ProcessSpec, j: Json, i: int)
    requires
        call_ensures(process_json, (&p,), j),
        0 <= i < p.env.items@.len(),
    ensures
        named(j@, "env"@) matches Some(JsonView::Object(fields)) && fields.len() == p.env.items@.len() && fields[i] == (
            p.env.items@[i].0@,
            JsonView::Text(p.env.items@[i].1@),
        ),
{
    lemma_a_process_is_told_by_name();
    reveal_with_fuel(named_from, 6);
    let f = j@->Object_0;
    assert(f[0].0 == "args"@);
    assert(f[1].0 == "clear_env"@);
    assert(f[2].0 == "cmd"@);
    assert(f[3].0 == "cwd"@);
    assert(f[4].0 == "env"@);
}

/// The counts of a control group, and how they changed, are told by their names.
pub proof fn counts_are_told_by_name(c: CgroupStats, j: Json, i: int, k: int)
    requires
        call_ensures(cgroup_json, (&c,), j),
        0 <= i < c.memory_events.items@.len(),
        0 <= k < c.memory_events_delta.items@.len(),
    ensures
        named(j@, "memory_events"@) matches Some(JsonView::Object(fields)) && fields.len() == c.memory_events.items@.len() && fields[i] == (
            c.memory_events.items@[i].0@,
            JsonView::Number(c.memory_events.items@[i].1 as int),
        ),
        named(j@, "memory_events_delta"@) matches Some(JsonView::Object(fields)) && fields.len() == c.memory_events_delta.items@.len()
            && fields[k] == (c.memory_events_delta.items@[k].0@, JsonView::Number(c.memory_events_delta.items@[k].1 as int)),
{
    lemma_a_control_group_is_told_by_name();
    reveal_with_fuel(named_from, 10);
    let f = j@->Object_0;
    assert(f[0].0 == "cpu_system_usec"@);
    assert(f[1].0 == "cpu_usage_usec"@);
    assert(f[2].0 == "cpu_user_usec"@);
    assert(f[3].0 == "memory_current_bytes"@);
    assert(f[4].0 == "memory_events"@);
    assert(f[5].0 == "memory_events_delta"@);
}

/// A report tells every finding and every hint, in their order.
pub proof fn findings_and_hints_are_told_in_order(r: RunReport, j: Json, i: int, k: int, finding: Json, hint: Json)
    requires
        call_ensures(RunReport::to_json, (&r,), j),
        0 <= i < r.findings@.len(),
        0 <= k < r.hints@.len(),
        call_ensures(finding_json, (&r.findings@[i],), finding),
        call_ensures(hint_json, (&r.hints@[k],), hint),
    ensures
        named(j@, "findings"@) matches Some(JsonView::Array(items)) && items.len() == r.findings@.len() && items[i] == finding@,
        named(j@, "hints"@) matches Some(JsonView::Array(items)) && items.len() == r.hints@.len() && items[k] == hint@,
{
    lemma_a_report_tells_the_run();
    reveal_with_fuel(named_from, 9);
    let f = j@->Object_0;
    assert(f[0].0 == "command"@);
    assert(f[1].0 == "denials"@);
    assert(f[2].0 == "duration_ms"@);
    assert(f[3].0 == "exit_code"@);
    assert(f[4].0 == "failure"@);
    assert(f[5].0 == "findings"@);
    assert(f[6].0 == "fs"@);
    assert(f[7].0 == "hints"@);
    assert(finding_views(r.findings@)[i] == r.findings@[i]@);
    assert(hint_views(r.hints@)[k] == r.hints@[k]@);
}

/// A report on a workspace tells every change, in their order, and the rollback where there was one.
pub proof fn changes_are_told_in_order(r: VersionedFsReport, j: Json, i: int, change: Json, rollback: Json)
    requires
        call_ensures(fs_report_json, (&r,), j),
        0 <= i < r.changes@.len(),
        call_ensures(change_json, (&r.changes@[i],), change),
        r.rollback matches Some(report) ==> call_ensures(rollback_json, (&report,), rollback),
    ensures
        named(j@, "changes"@) matches Some(JsonView::Array(items)) && items.len() == r.changes@.len() && items[i] == change@,
        named(j@, "rollback"@) == Some(
            if r.rollback is Some {
                rollback@
            } else {
                JsonView::Null
            },
        ),
{
    lemma_a_workspace_is_told_as_it_was_left();
    reveal_with_fuel(named_from, 11);
    let f = j@->Object_0;
    assert(f[0].0 == "changed_files"@);
    assert(f[1].0 == "changes"@);
    assert(f[2].0 == "checkpoint_after"@);
    assert(f[3].0 == "checkpoint_before"@);
    assert(f[4].0 == "committed"@);
    assert(f[5].0 == "enabled"@);
    assert(f[6].0 == "journal_path"@);
    assert(f[7].0 == "rollback"@);
    assert(change_views(r.changes@)[i] == r.changes@[i]@);
}

/// The name of a checkpoint is its digits behind a sign of what it is.
pub proof fn checkpoints_are_named_by_their_digits(value: u128, id: String)
    requires
        call_ensures(checkpoint_id_from, (value,), id),
    ensures
        id@.len() == 37,
        id@.take(5) == "ckpt_"@,
        id@.skip(5) == crate::run_id::simple(value),
{
    reveal_strlit("ckpt_");
    assert(id@.take(5) =~= "ckpt_"@);
    assert(id@.skip(5) =~= crate::run_id::simple(value));
}

/// A text names content exactly where it is sixty-four hexadecimal digits.
pub proof fn content_names_are_digits(value: &str, result: Result<(), FsError>)
    requires
        call_ensures(validate_content_id, (value,), result),
    ensures
        result is Ok <==> names_content(value@),
        result matches Err(e) ==> (e matches FsError::InvalidContentId(id) && id@ == value@),
{
}

/// Differences of counts fit where every count is one that a signed number can hold.
pub proof fn differences_of_small_counts_fit(old_counts: StringMap<u64>, new_counts: StringMap<u64>, fit: bool)
    requires
        call_ensures(deltas_fit, (&old_counts, &new_counts), fit),
        forall|k: Seq<char>| #[trigger] new_counts@.contains_key(k) ==> new_counts@[k] <= i64::MAX,
        forall|k: Seq<char>| #[trigger] old_counts@.contains_key(k) ==> old_counts@[k] <= i64::MAX,
    ensures
        fit,
{
    assert forall|k: Seq<char>| #[trigger] new_counts@.contains_key(k) implies i64::MIN <= crate::runner::cgroup::delta(
        old_counts@,
        new_counts@,
        k,
    ) <= i64::MAX by {
        assert(old_counts@.contains_key(k) ==> old_counts@[k] <= i64::MAX);
    }
}

/// The counts of memory events are those of their file, none where there is none.
pub proof fn memory_events_are_counted(content: &str, text: String, read: StringMap<u64>, some: StringMap<u64>, none: StringMap<u64>)
    requires
        text@ == content@,
        call_ensures(read_key_value_u64, (content,), read),
        call_ensures(memory_event_counts, (&Some(text),), some),
        call_ensures(memory_event_counts, (&None,), none),
    ensures
        some@ == read@,
        none@ == Map::<Seq<char>, u64>::empty(),
{
}

/// What the filesystem restrictions handle is what is asked to be handled; with nothing to handle there are none.
pub proof fn restrictions_handle_what_is_supported(abi: i32, fs: FsSpec, mask: u64, plan: Result<LandlockPlan, String>)
    requires
        call_ensures(landlock_supported_mask, (abi, &fs), mask),
        call_ensures(landlock_plan, (abi, &fs), plan),
    ensures
        plan is Err <==> mask == 0,
        plan matches Ok(p) ==> p.handled == mask,
        plan matches Err(e) ==> e@ == "Landlock handled access mask is empty"@,
{
}

/// Events are within limits by their own number and time.
pub proof fn events_are_limited_by_their_number_and_time(
    a: WorkspaceJournalEvent,
    b: WorkspaceOperationEvent,
    until_seq: Option<usize>,
    until_ts: Option<u128>,
    first: bool,
    second: bool,
    first_plain: bool,
    second_plain: bool,
)
    requires
        call_ensures(journal_event_within_limit, (&a, until_seq, until_ts), first),
        call_ensures(operation_event_within_limit, (&b, until_seq, until_ts), second),
        call_ensures(within_limit, (a.seq, a.ts, until_seq, until_ts), first_plain),
        call_ensures(within_limit, (b.seq, b.ts, until_seq, until_ts), second_plain),
    ensures
        first == first_plain,
        second == second_plain,
{
    assert(a@.seq == a.seq && a@.ts == a.ts && b@.seq == b.seq && b@.ts == b.ts);
}

/// A diff of checkpoints is that of what they record, and names them.
pub proof fn checkpoints_differ_as_what_they_record(
    s: WorkspaceStore,
    from: WorkspaceCheckpoint,
    to: WorkspaceCheckpoint,
    diff: WorkspaceDiff,
    other: WorkspaceDiff,
    changes: Vec<WorkspaceChange>,
)
    requires
        call_ensures(diff_manifests, (&from, &to), diff),
        call_ensures(WorkspaceStore::diff_checkpoints, (&s, &from, &to), other),
        call_ensures(diff_entries, (&from.entries, &to.entries), changes),
    ensures
        diff.from@ == from.checkpoint_id@ && diff.to@ == to.checkpoint_id@,
        other.from@ == from.checkpoint_id@ && other.to@ == to.checkpoint_id@,
        change_views(diff.changes@) == change_views(changes@),
        change_views(other.changes@) == change_views(changes@),
{
}

/// Journals are replayed from the checkpoint that their first event names; an empty one has none.
pub proof fn journals_start_from_their_first_event(
    s: WorkspaceStore,
    run: &str,
    events: &[WorkspaceJournalEvent],
    operations: &[WorkspaceOperationEvent],
    base: Result<String, FsError>,
    operation_base: Result<String, FsError>,
)
    requires
        call_ensures(WorkspaceStore::journal_base, (&s, run, events), base),
        call_ensures(WorkspaceStore::operation_journal_base, (&s, run, operations), operation_base),
    ensures
        events@.len() > 0 ==> (base matches Ok(b) && b@ == events@[0].base_checkpoint@),
        events@.len() == 0 ==> (base matches Err(FsError::EmptyJournal(r)) && r@ == run@),
        operations@.len() > 0 ==> (operation_base matches Ok(b) && b@ == operations@[0].base_checkpoint@),
        operations@.len() == 0 ==> (operation_base matches Err(FsError::EmptyOperationJournal(r)) && r@ == run@),
{
}

/// A store takes operations into a journal as a journal takes them, a write by its content.
pub proof fn a_store_takes_operations_as_a_journal_does(
    s: WorkspaceStore,
    run_id: RunId,
    base: String,
    op: WorkspaceOperation,
    compacted: bool,
    existing: &[WorkspaceOperationEvent],
    ts: u128,
    path: String,
    offset: u64,
    bytes: &[u8],
    write: WorkspaceOperation,
    expected: Result<WorkspaceOperationEvent, FsError>,
    result: Result<WorkspaceOperationEvent, FsError>,
    expected_write: Result<WorkspaceOperationEvent, FsError>,
    result_write: Result<WorkspaceOperationEvent, FsError>,
)
    requires
        call_ensures(append_event, (run_id, base, op, compacted, existing, ts), expected),
        call_ensures(WorkspaceStore::append_operation_event, (&s, run_id, base, op, compacted, existing, ts), result),
        call_ensures(write_operation, (path, offset, bytes), write),
        call_ensures(append_event, (run_id, base, write, compacted, existing, ts), expected_write),
        call_ensures(WorkspaceStore::append_write_operation, (&s, run_id, base, path, offset, bytes, compacted, existing, ts), result_write),
    ensures
        match (expected, result) {
            (Ok(a), Ok(b)) => a@ == b@,
            (Err(a), Err(b)) => a@ == b@,
            _ => false,
        },
        match (expected_write, result_write) {
            (Ok(a), Ok(b)) => a@ == b@,
            (Err(a), Err(b)) => a@ == b@,
            _ => false,
        },
{
}

/// Clearing for a restore removes every path that is recorded; what is copied
/// is what was found, one by one.
pub proof fn a_restore_clears_everything(
    s: WorkspaceStore,
    current: StringMap<WorkspaceEntry>,
    actions: Vec<FsAction>,
    x: FsActionView,
    found: Vec<FoundPath>,
    copies: Vec<CopyAction>,
    i: int,
)
    requires
        call_ensures(WorkspaceStore::restore_removals, (&s, &current), actions),
        call_ensures(copy_steps, (found,), copies),
    ensures
        action_views(actions@).contains(x) <==> (x matches FsActionView::Remove(path) && current@.contains_key(path)),
        copies@.len() == found@.len(),
        0 <= i < found@.len() ==> match copies@[i] {
            CopyAction::MakeDirs(path) => found@[i].directory && path@ == found@[i].path@,
            CopyAction::CopyFile(path) => !found@[i].directory && path@ == found@[i].path@,
        },
{
    let removals = choose|removals: Seq<Seq<char>>|
        #[trigger] crate::versioned_fs::plan::is_removal_list(
            removals,
            crate::versioned_fs::entry::manifest(current@),
            Map::empty(),
        ) && action_views(actions@) == crate::versioned_fs::plan::remove_steps(removals);
    crate::laws::stores::lemma_remove_steps(removals, x);
    assert(copy_views(copies@).len() == copies@.len());
    assert(found_views(found@).len() == found@.len());
    if 0 <= i < found@.len() {
        assert(copy_views(copies@)[i] == copies@[i]@);
        assert(found_views(found@)[i] == found@[i]@);
    }
}

/// Changes with their renames told apart stand by path, and at one path those without a source first.
pub proof fn told_apart_changes_stand_by_path(changes: Vec<WorkspaceChange>, output: Vec<WorkspaceChange>, i: int, j: int)
    requires
        call_ensures(detect_renames, (changes,), output),
        0 <= i < j < output@.len(),
    ensures
        !crate::text::before(output@[j].path@, output@[i].path@),
        output@[j].path@ == output@[i].path@ && output@[j].source_path is None ==> output@[i].source_path is None,
{
    let v = change_views(output@);
    assert(v.len() == output@.len());
    assert(v[i] == output@[i]@ && v[j] == output@[j]@);
    assert(!crate::versioned_fs::change_order::change_before(v[j], v[i]));
}

/// A field of an object is found by its name; what is no object has none.
pub proof fn fields_are_found_by_name(j: Json, key: &str, value: Option<&Json>)
    requires
        call_ensures(Json::get, (&j, key), value),
    ensures
        match value {
            Some(v) => named(j@, key@) == Some(v@),
            None => named(j@, key@) is None,
        },
{
    if let JsonView::Object(fields) = j@ {
        lemma_member(fields, key@, 0);
    }
}

proof fn lemma_member(fields: Seq<(Seq<char>, JsonView)>, key: Seq<char>, i: int)
    requires
        0 <= i <= fields.len(),
    ensures
        crate::json::member_from(fields, key, i) == named_from(fields, key, i),
    decreases fields.len() - i,
{
    if i < fields.len() {
        lemma_member(fields, key, i + 1);
    }
}

} // verus!
