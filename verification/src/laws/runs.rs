//! The course of a run: what is done, in which order, and what is told of it.

use crate::config::EffectivePolicy;
use crate::json::JsonView;
use crate::laws::journal_reading::{named, named_from};
use crate::laws::lists::{lemma_in_either, lemma_in_one};
use crate::number::decimal;
use crate::report::{
    failure_form, run_report_form, FailureClassification, FailureKind, ResourceUsage, RunReport, VersionedFsReport,
};
use crate::run_id::{hyphenated, RunId};
use crate::runner::driver::{
    attempt_view, closing, closing_of, conclusion, conclusion_of, emits, launch, launch_of, left_out, only_if, opening,
    opening_of, run_action_views, RunAction, RunActionView,
};
use crate::runner::events::{
    cgroup_detected, draft_views, fs_checkpoint, policy_drafts, proc_sample_event, process_spawn, timeout_denied,
    workspace_drafts, workspace_events, DraftView, EventDraft,
};
use crate::runner::plan::{
    command_list, command_succeeded, default_run_dir, fs_report, resource_usage, run_paths, run_report,
    sample_interval_ms, summary_goes_to_stderr, RunFacts, RunPaths,
};
use crate::runner::procfs::ProcSample;
use crate::runner::wait::CpuUsage;
use crate::text::views;
use crate::versioned_fs::entry::text_view;
use crate::versioned_fs::session::VersionedRunOutcome;
use vstd::prelude::*;

verus! {

/// The things to do stand for themselves.
pub proof fn things_to_do_stand_for_themselves(a: RunAction)
    ensures
        a matches RunAction::MakeParent(p) ==> a@ == RunActionView::MakeParent(p@),
        a matches RunAction::LoadObserver(p) ==> a@ == RunActionView::LoadObserver(p@),
        a matches RunAction::OpenTrace(p) ==> a@ == RunActionView::OpenTrace(p@),
        a matches RunAction::Emit(d) ==> (a@ matches RunActionView::Emit(v) && v.kind == d.kind@ && v.level == d.level@ && v.data
            == d.data@),
        a matches RunAction::BeginWorkspace(p) ==> a@ == RunActionView::BeginWorkspace(p@),
        a is PrepareLandlock ==> a@ is PrepareLandlock,
        a matches RunAction::Spawn(fd) ==> a@ == RunActionView::Spawn(fd),
        a matches RunAction::FinishWorkspace { succeeded, rollback_on_failure, commit_on_success } ==> a@
            == (RunActionView::FinishWorkspace { succeeded, rollback_on_failure, commit_on_success }),
        a matches RunAction::WriteSummary(p) ==> a@ == RunActionView::WriteSummary(p@),
{
}

/// Before the command: the trace is opened at its path and its first event is
/// written, the observer is loaded where a script is named, the workspace is
/// recorded where one is named, and the filesystem restrictions are tried
/// exactly where the policy asks for them. Nothing is started yet.
pub proof fn what_is_done_before_the_command(policy: EffectivePolicy, cmd: &str, args: Vec<String>, paths: RunPaths, list: Vec<RunAction>, x: RunActionView)
    requires
        call_ensures(opening, (&policy, cmd, &args, &paths), list),
    ensures
        ({
            let did = run_action_views(list@).contains(x);
            &&& x matches RunActionView::MakeParent(p) ==> (did <==> p == paths.summary@ || (p == paths.trace@ && p != "-"@))
            &&& x matches RunActionView::LoadObserver(p) ==> (did <==> text_view(policy.observe.rhai_script) == Some(p))
            &&& x matches RunActionView::OpenTrace(p) ==> (did <==> p == paths.trace@)
            &&& x matches RunActionView::Emit(d) ==> did ==> d.kind == "run.start"@ && d.level == "info"@
            &&& x matches RunActionView::BeginWorkspace(p) ==> (did <==> text_view(policy.versioned_workspace.workspace) == Some(p))
            &&& x is PrepareLandlock ==> (did <==> policy.security.landlock)
            &&& x is Spawn || x is FinishWorkspace || x is WriteSummary ==> !did
        }),
{
    let l = run_action_views(list@);
    assert(l == opening_of(policy, cmd@, views(args@), paths.trace@, paths.summary@));
    lemma_opening(policy, cmd@, views(args@), paths.trace@, paths.summary@, x);
}

/// The first event of a run.
spec fn first_event(policy: EffectivePolicy, cmd: Seq<char>, args: Seq<Seq<char>>, trace: Seq<char>, summary: Seq<char>) -> DraftView {
    DraftView {
        kind: "run.start"@,
        level: "info"@,
        data: crate::runner::events::run_start_form(policy, cmd, args, trace, summary),
    }
}

proof fn lemma_opening(policy: EffectivePolicy, cmd: Seq<char>, args: Seq<Seq<char>>, trace: Seq<char>, summary: Seq<char>, x: RunActionView)
    ensures
        opening_of(policy, cmd, args, trace, summary).contains(x) <==> {
            ||| trace != "-"@ && x == RunActionView::MakeParent(trace)
            ||| x == RunActionView::MakeParent(summary)
            ||| text_view(policy.observe.rhai_script) matches Some(s) && x == RunActionView::LoadObserver(s)
            ||| x == RunActionView::OpenTrace(trace)
            ||| x == RunActionView::Emit(first_event(policy, cmd, args, trace, summary))
            ||| text_view(policy.versioned_workspace.workspace) matches Some(w) && x == RunActionView::BeginWorkspace(w)
            ||| policy.security.landlock && x == RunActionView::PrepareLandlock
        },
{
    let a = only_if(trace != "-"@, RunActionView::MakeParent(trace));
    let b = seq![RunActionView::MakeParent(summary)];
    let c = match text_view(policy.observe.rhai_script) {
        Some(script) => seq![RunActionView::LoadObserver(script)],
        None => Seq::empty(),
    };
    let o = RunActionView::OpenTrace(trace);
    let e = RunActionView::Emit(first_event(policy, cmd, args, trace, summary));
    let d = seq![o, e];
    let w = match text_view(policy.versioned_workspace.workspace) {
        Some(workspace) => seq![RunActionView::BeginWorkspace(workspace)],
        None => Seq::empty(),
    };
    let p = only_if(policy.security.landlock, RunActionView::PrepareLandlock);
    assert(opening_of(policy, cmd, args, trace, summary) == a + b + c + d + w + p);
    assert(d =~= seq![o] + seq![e]);
    lemma_in_either(seq![o], seq![e], x);
    lemma_in_either(a, b, x);
    lemma_in_either(a + b, c, x);
    lemma_in_either(a + b + c, d, x);
    lemma_in_either(a + b + c + d, w, x);
    lemma_in_either(a + b + c + d + w, p, x);
    lemma_in_one(RunActionView::MakeParent(trace), x);
    lemma_in_one(RunActionView::MakeParent(summary), x);
    lemma_in_one(o, x);
    lemma_in_one(e, x);
    lemma_in_one(RunActionView::PrepareLandlock, x);
    if let Some(s) = text_view(policy.observe.rhai_script) {
        lemma_in_one(RunActionView::LoadObserver(s), x);
    }
    if let Some(s) = text_view(policy.versioned_workspace.workspace) {
        lemma_in_one(RunActionView::BeginWorkspace(s), x);
    }
}

/// The order before the command: directories and the observer come before the
/// trace is opened, the first event right behind it, then the workspace, and the
/// filesystem restrictions last.
pub proof fn the_order_before_the_command(policy: EffectivePolicy, cmd: &str, args: Vec<String>, paths: RunPaths, list: Vec<RunAction>, i: int, j: int)
    requires
        call_ensures(opening, (&policy, cmd, &args, &paths), list),
        0 <= i < list@.len(),
        0 <= j < list@.len(),
    ensures
        ({
            let a = run_action_views(list@)[i];
            let b = run_action_views(list@)[j];
            &&& (a is MakeParent || a is LoadObserver) && b is OpenTrace ==> i < j
            &&& a is OpenTrace && b is Emit ==> j == i + 1
            &&& a is Emit && b is BeginWorkspace ==> i < j
            &&& b is PrepareLandlock ==> j == list@.len() - 1
        }),
{
    let l = run_action_views(list@);
    assert(l.len() == list@.len());
    assert(l == opening_of(policy, cmd@, views(args@), paths.trace@, paths.summary@));
}

/// The first event tells what is run under which profile, and where the files of the run are.
pub proof fn the_first_event_tells_the_run(policy: EffectivePolicy, cmd: &str, args: Vec<String>, trace: &str, summary: &str, d: EventDraft)
    requires
        call_ensures(crate::runner::events::run_start, (&policy, cmd, &args, trace, summary), d),
    ensures
        d.kind@ == "run.start"@ && d.level@ == "info"@,
        named(d.data@, "args"@) == Some(crate::laws::reports::list_of(args@)),
        named(d.data@, "command"@) == Some(JsonView::Text(cmd@)),
        named(d.data@, "summary_path"@) == Some(JsonView::Text(summary@)),
        named(d.data@, "trace_path"@) == Some(JsonView::Text(trace@)),
        named(d.data@, "schema_version"@) == Some(JsonView::Number(1)),
        named(d.data@, "shadox_version"@) == Some(JsonView::Text("0.1.0"@)),
{
    lemma_start_names();
    crate::laws::reports::lemma_list_of(args@);
    reveal_with_fuel(named_from, 10);
    let f = d.data@->Object_0;
    assert(d.data@ == d@.data);
    assert(f[0].0 == "args"@);
    assert(f[1].0 == "command"@);
    assert(f[2].0 == "observe"@);
    assert(f[3].0 == "profile"@);
    assert(f[4].0 == "profile_version"@);
    assert(f[5].0 == "schema_version"@);
    assert(f[6].0 == "shadox_version"@);
    assert(f[7].0 == "summary_path"@);
    assert(f[8].0 == "trace_path"@);
}

/// The names differ.
proof fn lemma_start_names()
    ensures
        "args"@ != "command"@,
        "args"@ != "observe"@,
        "command"@ != "observe"@,
        "args"@ != "profile"@,
        "command"@ != "profile"@,
        "observe"@ != "profile"@,
        "args"@ != "profile_version"@,
        "command"@ != "profile_version"@,
        "observe"@ != "profile_version"@,
        "profile"@ != "profile_version"@,
        "args"@ != "schema_version"@,
        "command"@ != "schema_version"@,
        "observe"@ != "schema_version"@,
        "profile"@ != "schema_version"@,
        "profile_version"@ != "schema_version"@,
        "args"@ != "shadox_version"@,
        "command"@ != "shadox_version"@,
        "observe"@ != "shadox_version"@,
        "profile"@ != "shadox_version"@,
        "profile_version"@ != "shadox_version"@,
        "schema_version"@ != "shadox_version"@,
        "args"@ != "summary_path"@,
        "command"@ != "summary_path"@,
        "observe"@ != "summary_path"@,
        "profile"@ != "summary_path"@,
        "profile_version"@ != "summary_path"@,
        "schema_version"@ != "summary_path"@,
        "shadox_version"@ != "summary_path"@,
        "args"@ != "trace_path"@,
        "command"@ != "trace_path"@,
        "observe"@ != "trace_path"@,
        "profile"@ != "trace_path"@,
        "profile_version"@ != "trace_path"@,
        "schema_version"@ != "trace_path"@,
        "shadox_version"@ != "trace_path"@,
        "summary_path"@ != "trace_path"@,
{
    reveal_strlit("args");
    reveal_strlit("command");
    reveal_strlit("observe");
    reveal_strlit("profile");
    reveal_strlit("profile_version");
    reveal_strlit("schema_version");
    reveal_strlit("shadox_version");
    reveal_strlit("summary_path");
    reveal_strlit("trace_path");
    assert("args"@.len() == 4);
    assert("command"@.len() == 7);
    assert("observe"@.len() == 7);
    assert("profile"@.len() == 7);
    assert("profile_version"@.len() == 15);
    assert("schema_version"@.len() == 14);
    assert("shadox_version"@.len() == 14);
    assert("summary_path"@.len() == 12);
    assert("trace_path"@.len() == 10);
    assert("command"@[0] != "observe"@[0]);
    assert("command"@[0] != "profile"@[0]);
    assert("observe"@[0] != "profile"@[0]);
    assert("schema_version"@[1] != "shadox_version"@[1]);
}

/// The command is started once, last, within the restrictions that the try gave;
/// a try that failed starts nothing unless the run may go on without.
pub proof fn the_command_is_started_last(policy: EffectivePolicy, attempt: Option<Result<i32, String>>, cgroup: Option<String>, plan: Result<Vec<RunAction>, String>)
    requires
        call_ensures(launch, (&policy, attempt, &cgroup), plan),
    ensures
        plan is Err <==> (attempt matches Some(Err(e)) && !policy.security.allow_degraded),
        plan matches Err(told) ==> (attempt matches Some(Err(e)) && told@ == e@),
        plan matches Ok(list) ==> {
            &&& list@.len() > 0
            &&& run_action_views(list@).last() == RunActionView::Spawn(
                match attempt {
                    Some(Ok(fd)) => Some(fd),
                    _ => None,
                },
            )
            &&& forall|i: int| 0 <= i < list@.len() - 1 ==> (#[trigger] run_action_views(list@)[i]) is Emit
        },
{
    if let Ok(list) = plan {
        let l = run_action_views(list@);
        assert(l.len() == list@.len());
        assert(l == launch_of(policy, attempt_view(attempt), text_view(cgroup))->Ok_0);
        let drafts = policy_drafts(policy, left_out(attempt_view(attempt)));
        assert forall|i: int| 0 <= i < l.len() - 1 implies (#[trigger] l[i]) is Emit by {
            if i < drafts.len() {
                assert(l[i] == emits(drafts)[i]);
            }
        }
    }
}

/// Before the command is started its policy is told, and where system calls were
/// to be traced it is told that they are not.
pub proof fn the_policy_is_told(policy: EffectivePolicy, degraded: Vec<String>, list: Vec<EventDraft>)
    requires
        call_ensures(crate::runner::events::policy_events, (&policy, &degraded), list),
    ensures
        list@.len() == degraded@.len() + (if policy.observe.trace_syscalls {
            2int
        } else {
            1int
        }),
        list@.last().kind@ == "sandbox.policy"@ && list@.last().level@ == "info"@,
        forall|i: int|
            0 <= i < list@.len() - 1 ==> (#[trigger] list@[i]).kind@ == "sandbox.degraded"@ && list@[i].level@ == "warn"@,
        forall|i: int|
            0 <= i < degraded@.len() ==> named((#[trigger] list@[i]).data@, "reason"@) == Some(JsonView::Text(degraded@[i]@)),
        policy.observe.trace_syscalls ==> named(list@[degraded@.len() as int].data@, "reason"@) == Some(
            JsonView::Text("trace_syscalls was requested, but lightweight v1 does not enable ptrace syscall timelines"@),
        ),
{
    reveal_with_fuel(named_from, 2);
    let l = draft_views(list@);
    let n = degraded@.len() as int;
    assert(l.len() == list@.len());
    assert(views(degraded@).len() == n);
    assert forall|i: int| 0 <= i < list@.len() implies (#[trigger] list@[i])@ == l[i] by {
    }
    assert forall|i: int| 0 <= i < n implies named((#[trigger] list@[i]).data@, "reason"@) == Some(JsonView::Text(degraded@[i]@)) by {
        assert(list@[i]@ == l[i]);
        assert(l[i] == crate::runner::events::degraded_draft(views(degraded@)[i]));
    }
    assert forall|i: int| 0 <= i < list@.len() - 1 implies (#[trigger] list@[i]).kind@ == "sandbox.degraded"@ && list@[i].level@ == "warn"@ by {
        assert(list@[i]@ == l[i]);
        if i < n {
            assert(l[i] == crate::runner::events::degraded_draft(views(degraded@)[i]));
        }
    }
    assert(list@.last()@ == l.last());
    if policy.observe.trace_syscalls {
        assert(list@[n]@ == l[n]);
    }
}

/// After the command: a denial is told exactly where the sandbox stepped in, and
/// the workspace is finished exactly where there is one, with what was asked for
/// and whether the command succeeded.
pub proof fn what_is_done_after_the_command(policy: EffectivePolicy, failure: FailureClassification, list: Vec<RunAction>, x: RunActionView)
    requires
        call_ensures(conclusion, (&policy, &failure), list),
    ensures
        ({
            let did = run_action_views(list@).contains(x);
            &&& did ==> x is Emit || x is FinishWorkspace
            &&& x is Emit ==> (did <==> {
                &&& failure.kind == FailureKind::Timeout || failure.kind == FailureKind::SeccompDenied || failure.kind
                    == FailureKind::LandlockDenied || failure.kind == FailureKind::OomLike
                &&& x->Emit_0.kind == "sandbox.denied"@
                &&& x->Emit_0.level == "error"@
                &&& x->Emit_0.data == failure_form(failure@)
            })
            &&& x matches RunActionView::FinishWorkspace { succeeded, rollback_on_failure, commit_on_success } ==> (did <==> {
                &&& policy.versioned_workspace.workspace is Some
                &&& succeeded <==> failure.kind == FailureKind::Success
                &&& rollback_on_failure == policy.versioned_workspace.rollback_on_failure
                &&& commit_on_success == policy.versioned_workspace.commit_on_success
            })
        }),
{
    let l = run_action_views(list@);
    assert(l == conclusion_of(policy, failure));
    let told = RunActionView::Emit(DraftView { kind: "sandbox.denied"@, level: "error"@, data: failure_form(failure@) });
    let finish = RunActionView::FinishWorkspace {
        succeeded: failure.kind == FailureKind::Success,
        rollback_on_failure: policy.versioned_workspace.rollback_on_failure,
        commit_on_success: policy.versioned_workspace.commit_on_success,
    };
    let a = only_if(crate::runner::classify::is_denial(failure.kind), told);
    let b = only_if(policy.versioned_workspace.workspace is Some, finish);
    assert(l == a + b);
    lemma_in_either(a, b, x);
    lemma_in_one(told, x);
    lemma_in_one(finish, x);
}

/// A run closes with the end of its process, its whole report as an event, and
/// the report as a file; the events on the workspace come before.
pub proof fn a_run_closes_with_its_report(r: RunReport, list: Vec<RunAction>)
    requires
        call_ensures(closing, (&r,), list),
    ensures
        ({
            let l = run_action_views(list@);
            let n = l.len() as int;
            &&& n >= 3
            &&& r.fs is None ==> n == 3
            &&& l[n - 3] matches RunActionView::Emit(d) && d.kind == "process.exit"@ && d.level == "info"@
            &&& l[n - 2] matches RunActionView::Emit(d) && d.kind == "run.summary"@ && d.level == "info"@ && d.data == run_report_form(r)
            &&& l[n - 1] == RunActionView::WriteSummary(r.summary_path@)
            &&& r.fs matches Some(fs) ==> l.take(n - 3) == emits(workspace_drafts(fs))
        }),
{
    let l = run_action_views(list@);
    assert(l == closing_of(r));
    if let Some(fs) = r.fs {
        assert(l.take(l.len() - 3) =~= emits(workspace_drafts(fs)));
    }
}

/// Of a workspace it is told what changed; that it was committed exactly where
/// it was; and that it was rolled back exactly where it was.
pub proof fn a_workspace_tells_what_became_of_it(r: VersionedFsReport, list: Vec<EventDraft>)
    requires
        call_ensures(workspace_events, (&r,), list),
    ensures
        ({
            let committed = if r.committed {
                1int
            } else {
                0int
            };
            &&& list@.len() == 1 + committed + (if r.rollback is Some {
                1int
            } else {
                0int
            })
            &&& list@[0].kind@ == "fs.diff"@ && list@[0].level@ == "info"@
            &&& r.committed ==> list@[1].kind@ == "fs.commit"@ && list@[1].level@ == "info"@ && named(
                list@[1].data@,
                "checkpoint_after"@,
            ) == Some(JsonView::Text(r.checkpoint_after@))
            &&& r.rollback is Some ==> list@[1 + committed].kind@ == "fs.rollback"@ && list@[1 + committed].level@ == "warn"@
        }),
{
    reveal_with_fuel(named_from, 2);
    let l = draft_views(list@);
    assert(l.len() == list@.len());
    assert forall|i: int| 0 <= i < list@.len() implies (#[trigger] list@[i])@ == l[i] by {
    }
    assert(list@[0]@ == l[0]);
    if r.committed {
        assert(list@[1]@ == l[1]);
    }
    if r.rollback is Some {
        let k = if r.committed {
            2int
        } else {
            1int
        };
        assert(list@[k]@ == l[k]);
    }
}

/// The single events of a run, with their kinds, how serious they are, and what they tell.
pub proof fn single_events_tell_what_happened(
    path: &str,
    pid: u32,
    timeout: Option<u64>,
    workspace: &str,
    checkpoint: &str,
    group: EventDraft,
    spawn: EventDraft,
    denied: EventDraft,
    recorded: EventDraft,
)
    requires
        call_ensures(cgroup_detected, (path,), group),
        call_ensures(process_spawn, (pid,), spawn),
        call_ensures(timeout_denied, (timeout,), denied),
        call_ensures(fs_checkpoint, (workspace, checkpoint), recorded),
    ensures
        group.kind@ == "cgroup.detected"@ && group.level@ == "debug"@ && named(group.data@, "path"@) == Some(JsonView::Text(path@)),
        spawn.kind@ == "process.spawn"@ && spawn.level@ == "info"@ && named(spawn.data@, "pid"@) == Some(JsonView::Number(pid as int)),
        denied.kind@ == "sandbox.denied"@ && denied.level@ == "error"@ && named(denied.data@, "reason"@) == Some(JsonView::Text("timeout"@)),
        named(denied.data@, "timeout_ms"@) == Some(crate::laws::reports::number_or_null(timeout)),
        recorded.kind@ == "fs.checkpoint"@ && recorded.level@ == "info"@,
        named(recorded.data@, "checkpoint_before"@) == Some(JsonView::Text(checkpoint@)),
        named(recorded.data@, "workspace"@) == Some(JsonView::Text(workspace@)),
{
    reveal_with_fuel(named_from, 3);
    reveal_strlit("reason");
    reveal_strlit("timeout_ms");
    reveal_strlit("checkpoint_before");
    reveal_strlit("workspace");
    assert("reason"@.len() == 6 && "timeout_ms"@.len() == 10 && "checkpoint_before"@.len() == 17 && "workspace"@.len() == 9);
    assert(group@.data == group.data@ && spawn@.data == spawn.data@ && denied@.data == denied.data@ && recorded@.data == recorded.data@);
}

/// A sample of the processes tells how many there are, what they use together, and which they are.
pub proof fn a_sample_is_told_in_numbers(s: ProcSample, d: EventDraft)
    requires
        call_ensures(proc_sample_event, (&s, &None), d),
    ensures
        d.kind@ == "proc.sample"@ && d.level@ == "debug"@,
        named(d.data@, "process_count"@) == Some(JsonView::Number(s.pids@.len() as int)),
        named(d.data@, "read_bytes"@) == Some(JsonView::Number(s.read_bytes as int)),
        named(d.data@, "rss_kb"@) == Some(JsonView::Number(s.rss_kb as int)),
        named(d.data@, "write_bytes"@) == Some(JsonView::Number(s.write_bytes as int)),
        named(d.data@, "pids"@) == Some(JsonView::Array(Seq::new(s.pids@.len(), |i: int| JsonView::Number(s.pids@[i] as int)))),
{
    lemma_sample_names();
    reveal_with_fuel(named_from, 6);
    assert(d@.data == d.data@);
    let f = d.data@->Object_0;
    assert(f[0].0 == "pids"@);
    assert(f[1].0 == "process_count"@);
    assert(f[2].0 == "read_bytes"@);
    assert(f[3].0 == "rss_kb"@);
    assert(f[4].0 == "write_bytes"@);
    assert(f[0].1->Array_0 =~= Seq::new(s.pids@.len(), |i: int| JsonView::Number(s.pids@[i] as int)));
}

/// The names differ.
proof fn lemma_sample_names()
    ensures
        "pids"@ != "process_count"@,
        "pids"@ != "read_bytes"@,
        "process_count"@ != "read_bytes"@,
        "pids"@ != "rss_kb"@,
        "process_count"@ != "rss_kb"@,
        "read_bytes"@ != "rss_kb"@,
        "pids"@ != "write_bytes"@,
        "process_count"@ != "write_bytes"@,
        "read_bytes"@ != "write_bytes"@,
        "rss_kb"@ != "write_bytes"@,
{
    reveal_strlit("pids");
    reveal_strlit("process_count");
    reveal_strlit("read_bytes");
    reveal_strlit("rss_kb");
    reveal_strlit("write_bytes");
    assert("pids"@.len() == 4);
    assert("process_count"@.len() == 13);
    assert("read_bytes"@.len() == 10);
    assert("rss_kb"@.len() == 6);
    assert("write_bytes"@.len() == 11);
}

/// Where a run writes: as the policy says, else in its own directory, which is
/// named by the second of its start and its identifier.
pub proof fn a_run_has_its_own_directory(policy: EffectivePolicy, run_id: RunId, seconds: u64, dir: String, paths: RunPaths)
    requires
        call_ensures(default_run_dir, (run_id, seconds), dir),
        call_ensures(run_paths, (&policy, run_id, seconds), paths),
    ensures
        dir@ == ".shadox/runs/"@ + decimal(seconds as nat) + "-"@ + hyphenated(run_id.value),
        paths.trace@ == (match policy.observe.trace {
            Some(t) => t@,
            None => dir@ + "/trace.jsonl"@,
        }),
        paths.summary@ == (match policy.observe.summary {
            Some(s) => s@,
            None => dir@ + "/summary.json"@,
        }),
{
    reveal_strlit(".shadox");
    reveal_strlit("runs");
    reveal_strlit(".shadox/runs/");
    reveal_strlit("-");
    reveal_strlit("trace.jsonl");
    reveal_strlit("/trace.jsonl");
    reveal_strlit("summary.json");
    reveal_strlit("/summary.json");
    crate::laws::numbers::a_decimal_text_tells_its_number(seconds as nat);
    crate::laws::numbers::an_identifier_is_written_in_five_groups(run_id.value);
    crate::laws::snapshots::lemma_identifier_has_no_slash(run_id.value);
    let digits = decimal(seconds as nat);
    let name = digits + "-"@ + hyphenated(run_id.value);
    assert(48 <= digits[0] as int <= 57);
    assert(name[0] == digits[0]);
    assert(dir@ =~= ".shadox/runs/"@ + digits + "-"@ + hyphenated(run_id.value));
    assert(dir@.last() == hyphenated(run_id.value).last());
    assert(policy@.observe == policy.observe@);
    if policy.observe.trace is None {
        assert(paths.trace@ =~= dir@ + "/trace.jsonl"@);
    }
    if policy.observe.summary is None {
        assert(paths.summary@ =~= dir@ + "/summary.json"@);
    }
}

/// The printed report makes way for a trace on the output stream; samples are
/// taken as often as asked, but no more often than every ten milliseconds; the
/// command is told with its arguments; and only success is success.
pub proof fn small_decisions_of_a_run(
    path: &str,
    to_stderr: bool,
    asked: u64,
    interval: u64,
    cmd: &str,
    args: Vec<String>,
    list: Vec<String>,
    failure: FailureClassification,
    succeeded: bool,
)
    requires
        call_ensures(summary_goes_to_stderr, (path,), to_stderr),
        call_ensures(sample_interval_ms, (asked,), interval),
        call_ensures(command_list, (cmd, &args), list),
        call_ensures(command_succeeded, (&failure,), succeeded),
    ensures
        to_stderr <==> path@ == "-"@,
        interval >= 10 && interval >= asked && (interval == 10 || interval == asked),
        list@.len() == 1 + args@.len() && list@[0]@ == cmd@,
        forall|i: int| 0 <= i < args@.len() ==> (#[trigger] list@[i + 1])@ == args@[i]@,
        succeeded <==> failure.kind == FailureKind::Success,
{
    let l = views(list@);
    assert(l.len() == list@.len() && views(args@).len() == args@.len());
    assert(l[0] == list@[0]@);
    assert forall|i: int| 0 <= i < args@.len() implies (#[trigger] list@[i + 1])@ == args@[i]@ by {
        assert(l[i + 1] == list@[i + 1]@);
        assert(views(args@)[i] == args@[i]@);
    }
}

/// What a run used comes from where it was measured: times and memory from the
/// end of the process, bytes from the last sample, the rest from the control group.
pub proof fn resources_come_from_their_measures(
    u: CpuUsage,
    s: ProcSample,
    cgroup: Option<crate::report::CgroupStats>,
    r: ResourceUsage,
)
    requires
        call_ensures(resource_usage, (Some(u), &Some(s), cgroup), r),
    ensures
        r.user_cpu_ms matches Some(ms) && ms == u.user_sec * 1000 + u.user_usec as int / 1000,
        r.system_cpu_ms matches Some(ms) && ms == u.system_sec * 1000 + u.system_usec as int / 1000,
        r.max_rss_kb == Some(u.max_rss_kb),
        r.read_bytes == Some(s.read_bytes),
        r.write_bytes == Some(s.write_bytes),
        r.cgroup == cgroup,
{
}

/// The report of a run holds what was found of it.
pub proof fn a_report_holds_the_facts(policy: EffectivePolicy, facts: RunFacts, r: RunReport)
    requires
        call_ensures(run_report, (&policy, facts), r),
    ensures
        r.schema_version == 1 && r.shadox_version@ == "0.1.0"@ && r.profile_version == policy.profile_version,
        r.run_id == facts.run_id,
        r.command@.len() == 1 + facts.args@.len() && r.command@[0]@ == facts.cmd@,
        r.exit_code == facts.wait.exit_code && r.signal == facts.wait.signal && r.timed_out == facts.wait.timed_out,
        r.duration_ms == facts.duration_ms,
        r.trace_path@ == facts.paths.trace@ && r.summary_path@ == facts.paths.summary@,
        r.resources == facts.resources && r.output == facts.output && r.failure == facts.failure,
        r.findings == facts.findings && r.fs == facts.fs,
        facts.wait.timed_out ==> r.denials@.len() == 1 && r.denials@[0]@ == "timeout"@,
        !facts.wait.timed_out ==> r.denials@.len() == 0,
{
    assert(views(r.command@).len() == r.command@.len() && views(facts.args@).len() == facts.args@.len());
    assert(views(r.command@)[0] == r.command@[0]@);
    assert(views(r.denials@).len() == r.denials@.len());
    if facts.wait.timed_out {
        assert(views(r.denials@)[0] == r.denials@[0]@);
    }
}

/// The workspace part of a report is what the run ended with.
pub proof fn a_workspace_report_is_the_outcome(outcome: VersionedRunOutcome, r: VersionedFsReport)
    requires
        call_ensures(fs_report, (outcome,), r),
    ensures
        r.enabled,
        r.workspace@ == outcome.workspace@ && r.journal_path@ == outcome.journal_path@,
        r.checkpoint_before@ == outcome.checkpoint_before@ && r.checkpoint_after@ == outcome.checkpoint_after@,
        r.changed_files == outcome.changed_files && r.changes == outcome.changes,
        r.committed == outcome.committed && r.rolled_back == outcome.rolled_back && r.rollback == outcome.rollback,
{
}

} // verus!
