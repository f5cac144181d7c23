//! How operations agree with one another: a run with its parts, a rollback with its checkpoint, and renames with what they pair.

use crate::config::{EffectivePolicy, SandboxProfile};
use crate::diagnostics::diagnostic_hints;
use crate::laws::changes::{at, equal_files};
use crate::laws::operations::all_accepted;
use crate::laws::stores::{lemma_rollback, rolled_back};
use crate::report::{hint_views, CgroupStats, DiagnosticHint, ResourceUsage, RunReport, VersionedFsReport};
use crate::run_id::{hyphenated, RunId};
use crate::runner::driver::{attempt_view, closing, emits, launch, left_out, run_action_views, RunAction, RunActionView};
use crate::runner::events::{cgroup_detected, closing_events, draft_views, policy_events, workspace_events, EventDraft};
use crate::runner::landlock::PreparedSandbox;
use crate::runner::plan::{resource_usage, run_report, RunFacts};
use crate::runner::procfs::ProcSample;
use crate::runner::wait::CpuUsage;
use crate::text::views;
use crate::versioned_fs::diff::{
    change_views, detect_renames, is_rename_source, is_rename_target, lemma_paired_from, lemma_unpaired_from,
    rename_target, told_apart, unpaired, ChangeView, WorkspaceChange, WorkspaceChangeKind,
};
use crate::versioned_fs::diff_laws::{a_rename_pairs_equal_files, no_rename_is_left};
use crate::versioned_fs::entry::entry_view;
use crate::versioned_fs::error::{FsError, FsErrorView};
use crate::versioned_fs::operation::{
    apply_operation_event, validate_operation, WorkspaceOperation, WorkspaceOperationEvent,
};
use crate::versioned_fs::paths::checked;
use crate::versioned_fs::plan::{action_views, FsAction, FsActionView};
use crate::versioned_fs::session::{RunEnd, RunFinish, VersionedRunSession};
use crate::versioned_fs::store::WorkspaceStore;
use vstd::prelude::*;

verus! {

/// Before the command is started the events on its policy are written, with
/// what was left out of the restrictions, and then that on its control group where there is one.
pub proof fn what_is_told_before_the_command(
    policy: EffectivePolicy,
    attempt: Option<Result<i32, String>>,
    cgroup: Option<String>,
    path: &str,
    plan: Result<Vec<RunAction>, String>,
    prepared: Result<PreparedSandbox, String>,
    told: Vec<EventDraft>,
    group: EventDraft,
)
    requires
        call_ensures(launch, (&policy, attempt, &cgroup), plan),
        call_ensures(PreparedSandbox::prepare, (attempt, policy.security.allow_degraded), prepared),
        prepared matches Ok(p) ==> call_ensures(policy_events, (&policy, &p.degraded), told),
        cgroup matches Some(c) ==> path@ == c@,
        call_ensures(cgroup_detected, (path,), group),
    ensures
        plan is Ok <==> prepared is Ok,
        plan matches Ok(list) ==> prepared matches Ok(p) ==> {
            let steps = run_action_views(list@);
            let n = told@.len() as int;
            &&& steps.len() == n + 1 + (if cgroup is Some {
                1int
            } else {
                0int
            })
            &&& forall|i: int| 0 <= i < n ==> #[trigger] steps[i] == RunActionView::Emit(told@[i]@)
            &&& cgroup is Some ==> steps[n] == RunActionView::Emit(group@)
            &&& steps.last() == RunActionView::Spawn(p.landlock_ruleset_fd)
        },
{
    if let (Ok(list), Ok(p)) = (plan, prepared) {
        let steps = run_action_views(list@);
        let n = told@.len() as int;
        let a = attempt_view(attempt);
        assert(views(p.degraded@) =~= left_out(a));
        assert(draft_views(told@).len() == n);
        assert forall|i: int| 0 <= i < n implies #[trigger] steps[i] == RunActionView::Emit(told@[i]@) by {
            assert(steps[i] == emits(draft_views(told@))[i]);
            assert(draft_views(told@)[i] == told@[i]@);
        }
    }
}

/// A run closes with the events on its workspace, then those on its end, one by one.
pub proof fn what_is_told_at_the_end(
    r: RunReport,
    fs: VersionedFsReport,
    list: Vec<RunAction>,
    last: Vec<EventDraft>,
    workspace: Vec<EventDraft>,
    i: int,
)
    requires
        r.fs == Some(fs),
        call_ensures(closing, (&r,), list),
        call_ensures(closing_events, (&r,), last),
        call_ensures(workspace_events, (&fs,), workspace),
        0 <= i < workspace@.len(),
    ensures
        ({
            let steps = run_action_views(list@);
            let n = workspace@.len() as int;
            &&& steps.len() == n + 3
            &&& last@.len() == 2
            &&& steps[i] == RunActionView::Emit(workspace@[i]@)
            &&& steps[n] == RunActionView::Emit(last@[0]@)
            &&& steps[n + 1] == RunActionView::Emit(last@[1]@)
            &&& steps[n + 2] == RunActionView::WriteSummary(r.summary_path@)
        }),
{
    let steps = run_action_views(list@);
    assert(draft_views(last@).len() == last@.len());
    assert(draft_views(last@)[0] == last@[0]@ && draft_views(last@)[1] == last@[1]@);
    assert(draft_views(workspace@).len() == workspace@.len());
    assert(draft_views(workspace@)[i] == workspace@[i]@);
    assert(steps[i] == emits(draft_views(workspace@))[i]);
}

/// A report tells the profile by its name, and gives the hints on its failure and its output.
pub proof fn a_report_gives_its_hints(policy: EffectivePolicy, facts: RunFacts, r: RunReport, profile: String, hints: Vec<DiagnosticHint>)
    requires
        call_ensures(run_report, (&policy, facts), r),
        call_ensures(SandboxProfile::name, (&policy.profile,), profile),
        call_ensures(diagnostic_hints, (&facts.failure, &policy, &facts.output), hints),
    ensures
        r.profile@ == profile@,
        hint_views(r.hints@) == hint_views(hints@),
        forall|i: int| 0 <= i < facts.args@.len() ==> (#[trigger] r.command@[i + 1])@ == facts.args@[i]@,
{
    assert(views(r.command@).len() == r.command@.len() && views(facts.args@).len() == facts.args@.len());
    assert forall|i: int| 0 <= i < facts.args@.len() implies (#[trigger] r.command@[i + 1])@ == facts.args@[i]@ by {
        assert(views(r.command@)[i + 1] == r.command@[i + 1]@);
        assert(views(facts.args@)[i] == facts.args@[i]@);
    }
}

/// What was not measured is not reported.
pub proof fn nothing_is_reported_unmeasured(
    u: Option<CpuUsage>,
    s: Option<ProcSample>,
    cgroup: Option<CgroupStats>,
    r: ResourceUsage,
)
    requires
        call_ensures(resource_usage, (u, &s, cgroup), r),
    ensures
        u is None <==> r.user_cpu_ms is None,
        u is None <==> r.system_cpu_ms is None,
        u is None <==> r.max_rss_kb is None,
        s is None <==> r.read_bytes is None,
        s is None <==> r.write_bytes is None,
        r.cgroup == cgroup,
{
}

/// A run is told by the text of its identifier.
pub proof fn a_run_is_told_by_its_identifier(id: RunId, text: String)
    requires
        call_ensures(RunId::text, (&id,), text),
    ensures
        text@ == hyphenated(id.value),
        text@.len() == 36,
{
}

/// A run that is rolled back goes back to its checkpoint as a rollback does.
pub proof fn a_failed_run_is_rolled_back(s: WorkspaceStore, session: VersionedRunSession, end: RunFinish, result: RunEnd, x: FsActionView)
    requires
        end.wf(),
        !end.command_succeeded && end.rollback_on_failure,
        call_ensures(WorkspaceStore::finish_run, (&s, session, &end), result),
    ensures
        action_views(result.actions@).contains(x) <==> rolled_back(end.current, end.before.entries, x),
{
    let report = result.outcome.rollback->0;
    lemma_rollback(
        action_views(result.actions@),
        end.current,
        end.before.entries,
        report.removed_paths as nat,
        report.restored_dirs as nat,
        report.restored_files as nat,
        x,
    );
}

/// An operation with a path that is not accepted is refused as the path is, the source of a rename first.
pub proof fn bad_paths_are_refused_as_such(op: WorkspaceOperation, result: Result<(), FsError>)
    requires
        call_ensures(validate_operation, (&op,), result),
        !all_accepted(op),
    ensures
        result is Err,
        ({
            let e = result->Err_0@;
            match op {
                WorkspaceOperation::RenamePath { source_path, path } => match checked(source_path@) {
                    Err(a) => e == a,
                    Ok(_) => checked(path@) == Err::<Seq<char>, FsErrorView>(e),
                },
                WorkspaceOperation::CreateFile { path } => checked(path@) == Err::<Seq<char>, FsErrorView>(e),
                WorkspaceOperation::CreateDir { path } => checked(path@) == Err::<Seq<char>, FsErrorView>(e),
                WorkspaceOperation::Write { path, .. } => checked(path@) == Err::<Seq<char>, FsErrorView>(e),
                WorkspaceOperation::Truncate { path, .. } => checked(path@) == Err::<Seq<char>, FsErrorView>(e),
                WorkspaceOperation::DeletePath { path } => checked(path@) == Err::<Seq<char>, FsErrorView>(e),
                WorkspaceOperation::Chmod { path, .. } => checked(path@) == Err::<Seq<char>, FsErrorView>(e),
                WorkspaceOperation::Fsync { path } => checked(path@) == Err::<Seq<char>, FsErrorView>(e),
            }
        }),
{
    let named = crate::laws::operations::paths_named(op);
    let k = choose|k: int| 0 <= k < named.len() && !(checked(#[trigger] named[k]) is Ok);
    assert(checked(named[k]) is Err);
}

/// Redoing an operation other than a write is refused on its paths as recording it is, and then does nothing.
pub proof fn bad_paths_are_not_redone(
    actions: &mut Vec<FsAction>,
    event: WorkspaceOperationEvent,
    payload: Option<&Vec<u8>>,
    outcome: Result<(), FsError>,
    recorded: Result<(), FsError>,
)
    requires
        call_ensures(apply_operation_event, (actions, &event, payload), outcome),
        call_ensures(validate_operation, (&event.op,), recorded),
        !(event.op is Write),
    ensures
        outcome is Err <==> recorded is Err,
        outcome is Err ==> outcome->Err_0@ == recorded->Err_0@ && final(actions)@.len() == old(actions)@.len(),
{
    assert(event@.op == event.op@);
    assert(action_views(old(actions)@).len() == old(actions)@.len());
    assert(action_views(final(actions)@).len() == final(actions)@.len());
}

/// Telling renames apart leaves each change as it was, or makes one rename of a
/// deleted and an added file of one size and content.
pub proof fn renames_are_pairs_of_equal_files(changes: Vec<WorkspaceChange>, output: Vec<WorkspaceChange>, k: int)
    requires
        call_ensures(detect_renames, (changes,), output),
        0 <= k < output@.len(),
    ensures
        ({
            let c = output@[k]@;
            let list = change_views(changes@);
            list.contains(c) || exists|d: int, a: int| #[trigger] makes(list, d, a, c)
        }),
{
    let list = change_views(changes@);
    let n = list.len() as int;
    let c = output@[k]@;
    let sorted = change_views(output@);
    assert(sorted.len() == output@.len());
    assert(sorted[k] == c);
    assert(sorted.contains(c));
    sorted.to_multiset_ensures();
    told_apart(list).to_multiset_ensures();
    assert(sorted.to_multiset().count(c) > 0);
    assert(told_apart(list).to_multiset().count(c) > 0);
    assert(told_apart(list).contains(c));
    let at = choose|at: int| 0 <= at < told_apart(list).len() && told_apart(list)[at] == c;
    let u = unpaired(list, n);
    if at < u.len() {
        let i = lemma_unpaired_from(list, n, at);
        assert(list[i] == c);
    } else {
        let d = lemma_paired_from(list, n, at - u.len());
        let a = rename_target(list, d);
        a_rename_pairs_equal_files(list, d, a);
        assert(makes(list, d, a, c));
    }
}

/// A deletion and an addition of the list are of equal files and make the rename.
pub open spec fn makes(list: Seq<ChangeView>, d: int, a: int, c: ChangeView) -> bool {
    &&& 0 <= d < list.len()
    &&& 0 <= a < list.len()
    &&& list[d].kind == WorkspaceChangeKind::Deleted
    &&& list[a].kind == WorkspaceChangeKind::Added
    &&& equal_files(list[d].before, list[a].after)
    &&& c.kind == WorkspaceChangeKind::Renamed
    &&& c.path == list[a].path
    &&& c.source_path == Some(list[d].path)
    &&& c.before == list[d].before
    &&& c.after == list[a].after
}

/// No deletion and addition of equal files are left: among those told apart
/// from renames, a deleted and an added file differ in size or content.
pub proof fn no_pair_is_left_apart(changes: Vec<WorkspaceChange>, output: Vec<WorkspaceChange>, gone: int, new: int)
    requires
        call_ensures(detect_renames, (changes,), output),
        0 <= gone < output@.len(),
        0 <= new < output@.len(),
        output@[gone].kind == WorkspaceChangeKind::Deleted,
        output@[new].kind == WorkspaceChangeKind::Added,
    ensures
        !equal_files(entry_view(output@[gone].before), entry_view(output@[new].after)),
{
    let list = change_views(changes@);
    let d = lemma_alone(changes, output, gone);
    let a = lemma_alone(changes, output, new);
    if equal_files(list[d].before, list[a].after) {
        no_rename_is_left(list, d, a);
    }
}

proof fn lemma_alone(changes: Vec<WorkspaceChange>, output: Vec<WorkspaceChange>, k: int) -> (i: int)
    requires
        call_ensures(detect_renames, (changes,), output),
        0 <= k < output@.len(),
        output@[k].kind != WorkspaceChangeKind::Renamed,
    ensures
        0 <= i < changes@.len(),
        change_views(changes@)[i] == output@[k]@,
        !is_rename_source(change_views(changes@), i),
        !is_rename_target(change_views(changes@), i),
{
    let list = change_views(changes@);
    let n = list.len() as int;
    let c = output@[k]@;
    let sorted = change_views(output@);
    assert(sorted.len() == output@.len());
    assert(sorted[k] == c);
    assert(sorted.contains(c));
    sorted.to_multiset_ensures();
    told_apart(list).to_multiset_ensures();
    assert(sorted.to_multiset().count(c) > 0);
    assert(told_apart(list).contains(c));
    let at = choose|at: int| 0 <= at < told_apart(list).len() && told_apart(list)[at] == c;
    let u = unpaired(list, n);
    if at >= u.len() {
        let d = lemma_paired_from(list, n, at - u.len());
        assert(false);
    }
    lemma_unpaired_from(list, n, at)
}

} // verus!
