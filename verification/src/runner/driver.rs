//! The course of a run: what is done before, around and after the command.

use crate::config::EffectivePolicy;
use crate::report::{
    failure_form, run_report_form, FailureClassification, FailureKind, RunReport,
};
use crate::runner::classify::{is_denial, reports_denial};
use crate::runner::events::{
    cgroup_detected, closing_events, degraded_draft, draft_views, exit_form, failure_denied,
    one_text, policy_drafts, policy_events, run_start, run_start_form, workspace_drafts,
    workspace_events, DraftView, EventDraft,
};
use crate::runner::landlock::PreparedSandbox;
use crate::runner::plan::{command_succeeded, RunPaths};
use crate::text::{same_text, views};
use crate::versioned_fs::entry::text_view;
use vstd::prelude::*;

verus! {

/// One thing to do in the course of a run.
#[derive(Debug, PartialEq, Eq)]
pub enum RunAction {
    /// Create the directories above a file.
    MakeParent(String),
    /// Load the observer script.
    LoadObserver(String),
    /// Open the trace.
    OpenTrace(String),
    /// Write an event to the trace.
    Emit(EventDraft),
    /// Record the workspace before the command.
    BeginWorkspace(String),
    /// Try to set up the filesystem restrictions.
    PrepareLandlock,
    /// Start the command, within the filesystem restrictions if there are any.
    Spawn(Option<i32>),
    /// Record the workspace after the command, and keep or undo what it did.
    FinishWorkspace { succeeded: bool, rollback_on_failure: bool, commit_on_success: bool },
    /// Write the report.
    WriteSummary(String),
}

/// The mathematical value of a thing to do.
pub enum RunActionView {
    MakeParent(Seq<char>),
    LoadObserver(Seq<char>),
    OpenTrace(Seq<char>),
    Emit(DraftView),
    BeginWorkspace(Seq<char>),
    PrepareLandlock,
    Spawn(Option<i32>),
    FinishWorkspace { succeeded: bool, rollback_on_failure: bool, commit_on_success: bool },
    WriteSummary(Seq<char>),
}

impl View for RunAction {
    type V = RunActionView;

    open spec fn view(&self) -> RunActionView {
        match *self {
            RunAction::MakeParent(path) => RunActionView::MakeParent(path@),
            RunAction::LoadObserver(path) => RunActionView::LoadObserver(path@),
            RunAction::OpenTrace(path) => RunActionView::OpenTrace(path@),
            RunAction::Emit(draft) => RunActionView::Emit(draft@),
            RunAction::BeginWorkspace(path) => RunActionView::BeginWorkspace(path@),
            RunAction::PrepareLandlock => RunActionView::PrepareLandlock,
            RunAction::Spawn(fd) => RunActionView::Spawn(fd),
            RunAction::FinishWorkspace { succeeded, rollback_on_failure, commit_on_success } =>
                RunActionView::FinishWorkspace { succeeded, rollback_on_failure, commit_on_success },
            RunAction::WriteSummary(path) => RunActionView::WriteSummary(path@),
        }
    }
}

/// The values of a list of things to do.
pub open spec fn run_action_views(list: Seq<RunAction>) -> Seq<RunActionView> {
    list.map_values(|a: RunAction| a@)
}

/// One thing, if a condition holds.
pub open spec fn only_if(condition: bool, action: RunActionView) -> Seq<RunActionView> {
    if condition {
        seq![action]
    } else {
        Seq::empty()
    }
}

/// The events of a list, each to be written.
pub open spec fn emits(list: Seq<DraftView>) -> Seq<RunActionView> {
    list.map_values(|d: DraftView| RunActionView::Emit(d))
}

/// Adds one thing to do.
fn put(list: &mut Vec<RunAction>, action: RunAction)
    ensures
        run_action_views(final(list)@) == run_action_views(old(list)@).push(action@),
{
    let ghost start = run_action_views(list@);
    list.push(action);
    assert(run_action_views(list@) =~= start.push(action@));
}

/// Adds events to be written.
fn put_events(list: &mut Vec<RunAction>, events: Vec<EventDraft>)
    ensures
        run_action_views(final(list)@) == run_action_views(old(list)@) + emits(draft_views(events@)),
{
    let ghost start = run_action_views(list@);
    let ghost all = emits(draft_views(events@));
    let mut events = events;
    let mut later: Vec<EventDraft> = Vec::new();
    let ghost given = events@;
    while events.len() > 0
        invariant
            events@.len() + later@.len() == given.len(),
            forall|k: int| 0 <= k < events@.len() ==> #[trigger] events@[k] == given[k],
            forall|k: int| 0 <= k < later@.len() ==> #[trigger] later@[k] == given[given.len() - 1 - k],
        decreases events@.len(),
    {
        let event = events.pop().unwrap();
        later.push(event);
    }
    assert(run_action_views(list@) =~= start + all.take(0));
    while later.len() > 0
        invariant
            all == emits(draft_views(given)),
            later@.len() <= given.len(),
            forall|k: int| 0 <= k < later@.len() ==> #[trigger] later@[k] == given[given.len() - 1 - k],
            run_action_views(list@) == start + all.take(given.len() - later@.len()),
        decreases later@.len(),
    {
        let ghost at = given.len() - later@.len();
        let event = later.pop().unwrap();
        assert(event == given[at]);
        put(list, RunAction::Emit(event));
        assert(all[at] == RunActionView::Emit(event@));
        assert(run_action_views(list@) =~= start + all.take(at + 1));
    }
    assert(all.take(given.len() as int) =~= all);
}

/// What is done before the sandbox is ready: the directories for the trace and
/// the report, the observer, the trace with its first event, the record of the
/// workspace, and the try at the filesystem restrictions.
pub open spec fn opening_of(
    policy: EffectivePolicy,
    cmd: Seq<char>,
    args: Seq<Seq<char>>,
    trace: Seq<char>,
    summary: Seq<char>,
) -> Seq<RunActionView> {
    only_if(trace != "-"@, RunActionView::MakeParent(trace)) + seq![RunActionView::MakeParent(summary)] + (
    match text_view(policy.observe.rhai_script) {
        Some(script) => seq![RunActionView::LoadObserver(script)],
        None => Seq::empty(),
    }) + seq![
        RunActionView::OpenTrace(trace),
        RunActionView::Emit(
            DraftView {
                kind: "run.start"@,
                level: "info"@,
                data: run_start_form(policy, cmd, args, trace, summary),
            },
        ),
    ] + (match text_view(policy.versioned_workspace.workspace) {
        Some(workspace) => seq![RunActionView::BeginWorkspace(workspace)],
        None => Seq::empty(),
    }) + only_if(policy.security.landlock, RunActionView::PrepareLandlock)
}

/// What is done before the sandbox is ready.
pub fn opening(policy: &EffectivePolicy, cmd: &str, args: &Vec<String>, paths: &RunPaths) -> (list: Vec<RunAction>)
    ensures
        run_action_views(list@) == opening_of(*policy, cmd@, views(args@), paths.trace@, paths.summary@),
{
    let mut list: Vec<RunAction> = Vec::new();
    assert(run_action_views(list@) =~= Seq::empty());
    if !same_text(paths.trace.as_str(), "-") {
        put(&mut list, RunAction::MakeParent(paths.trace.clone()));
    }
    put(&mut list, RunAction::MakeParent(paths.summary.clone()));
    if let Some(script) = &policy.observe.rhai_script {
        put(&mut list, RunAction::LoadObserver(script.clone()));
    }
    put(&mut list, RunAction::OpenTrace(paths.trace.clone()));
    put(&mut list, RunAction::Emit(run_start(policy, cmd, args, paths.trace.as_str(), paths.summary.as_str())));
    if let Some(workspace) = &policy.versioned_workspace.workspace {
        put(&mut list, RunAction::BeginWorkspace(workspace.clone()));
    }
    if policy.security.landlock {
        put(&mut list, RunAction::PrepareLandlock);
    }
    assert(run_action_views(list@) =~= opening_of(*policy, cmd@, views(args@), paths.trace@, paths.summary@));
    list
}

/// What is left out of a sandbox, after the try at the filesystem restrictions.
pub open spec fn left_out(attempt: Option<Result<i32, Seq<char>>>) -> Seq<Seq<char>> {
    match attempt {
        Some(Err(e)) => seq!["landlock disabled: "@ + e],
        _ => Seq::empty(),
    }
}

/// The restrictions that the try gave.
pub open spec fn restrictions(attempt: Option<Result<i32, Seq<char>>>) -> Option<i32> {
    match attempt {
        Some(Ok(fd)) => Some(fd),
        _ => None,
    }
}

/// The value of a try at the filesystem restrictions.
pub open spec fn attempt_view(attempt: Option<Result<i32, String>>) -> Option<Result<i32, Seq<char>>> {
    match attempt {
        Some(Ok(fd)) => Some(Ok(fd)),
        Some(Err(e)) => Some(Err(e@)),
        None => None,
    }
}

/// What is done to start the command, once the try at the filesystem
/// restrictions is over: a try that failed ends the run, unless the request
/// allows to go on without.
pub open spec fn launch_of(
    policy: EffectivePolicy,
    attempt: Option<Result<i32, Seq<char>>>,
    cgroup: Option<Seq<char>>,
) -> Result<Seq<RunActionView>, Seq<char>> {
    match attempt {
        Some(Err(e)) if !policy.security.allow_degraded => Err(e),
        _ => Ok(
            emits(policy_drafts(policy, left_out(attempt))) + (match cgroup {
                Some(path) => seq![
                    RunActionView::Emit(
                        DraftView { kind: "cgroup.detected"@, level: "debug"@, data: one_text("path"@, path) },
                    ),
                ],
                None => Seq::empty(),
            }) + seq![RunActionView::Spawn(restrictions(attempt))],
        ),
    }
}

/// What is done to start the command.
pub fn launch(policy: &EffectivePolicy, attempt: Option<Result<i32, String>>, cgroup: &Option<String>) -> (plan: Result<Vec<RunAction>, String>)
    ensures
        match launch_of(*policy, attempt_view(attempt), text_view(*cgroup)) {
            Ok(steps) => plan matches Ok(list) && run_action_views(list@) == steps,
            Err(e) => plan matches Err(error) && error@ == e,
        },
{
    let ghost tried = attempt_view(attempt);
    let prepared = match PreparedSandbox::prepare(attempt, policy.security.allow_degraded) {
        Ok(prepared) => prepared,
        Err(e) => {
            return Err(e);
        },
    };
    assert(views(prepared.degraded@) =~= left_out(tried));
    assert(prepared.landlock_ruleset_fd == restrictions(tried));
    let mut list: Vec<RunAction> = Vec::new();
    assert(run_action_views(list@) =~= Seq::empty());
    put_events(&mut list, policy_events(policy, &prepared.degraded));
    if let Some(path) = cgroup {
        put(&mut list, RunAction::Emit(cgroup_detected(path.as_str())));
    }
    put(&mut list, RunAction::Spawn(prepared.landlock_ruleset_fd));
    assert(run_action_views(list@) =~= launch_of(*policy, tried, text_view(*cgroup))->Ok_0);
    Ok(list)
}

/// What is done once the command has ended: a denial is reported, and the
/// workspace is kept or brought back.
pub open spec fn conclusion_of(policy: EffectivePolicy, failure: FailureClassification) -> Seq<RunActionView> {
    only_if(
        is_denial(failure.kind),
        RunActionView::Emit(
            DraftView { kind: "sandbox.denied"@, level: "error"@, data: failure_form(failure@) },
        ),
    ) + only_if(
        policy.versioned_workspace.workspace is Some,
        RunActionView::FinishWorkspace {
            succeeded: failure.kind == FailureKind::Success,
            rollback_on_failure: policy.versioned_workspace.rollback_on_failure,
            commit_on_success: policy.versioned_workspace.commit_on_success,
        },
    )
}

/// What is done once the command has ended.
pub fn conclusion(policy: &EffectivePolicy, failure: &FailureClassification) -> (list: Vec<RunAction>)
    ensures
        run_action_views(list@) == conclusion_of(*policy, *failure),
{
    let mut list: Vec<RunAction> = Vec::new();
    assert(run_action_views(list@) =~= Seq::empty());
    if reports_denial(failure.kind) {
        put(&mut list, RunAction::Emit(failure_denied(failure)));
    }
    if let Some(_) = &policy.versioned_workspace.workspace {
        put(
            &mut list,
            RunAction::FinishWorkspace {
                succeeded: command_succeeded(failure),
                rollback_on_failure: policy.versioned_workspace.rollback_on_failure,
                commit_on_success: policy.versioned_workspace.commit_on_success,
            },
        );
    }
    assert(run_action_views(list@) =~= conclusion_of(*policy, *failure));
    list
}

/// What closes a run: the events on the workspace, the end of the process, the
/// whole report as an event, and the report as a file.
pub open spec fn closing_of(r: RunReport) -> Seq<RunActionView> {
    (match r.fs {
        Some(fs) => emits(workspace_drafts(fs)),
        None => Seq::empty(),
    }) + seq![
        RunActionView::Emit(DraftView { kind: "process.exit"@, level: "info"@, data: exit_form(r) }),
        RunActionView::Emit(DraftView { kind: "run.summary"@, level: "info"@, data: run_report_form(r) }),
        RunActionView::WriteSummary(r.summary_path@),
    ]
}

/// What closes a run.
pub fn closing(r: &RunReport) -> (list: Vec<RunAction>)
    ensures
        run_action_views(list@) == closing_of(*r),
{
    let mut list: Vec<RunAction> = Vec::new();
    assert(run_action_views(list@) =~= Seq::empty());
    if let Some(fs) = &r.fs {
        put_events(&mut list, workspace_events(fs));
    }
    put_events(&mut list, closing_events(r));
    put(&mut list, RunAction::WriteSummary(r.summary_path.clone()));
    assert(run_action_views(list@) =~= closing_of(*r));
    list
}

/// A run fails closed: unless the request allows to go on without them, a
/// command is started only within the filesystem restrictions that its policy
/// asks for.
pub proof fn a_run_fails_closed(
    policy: EffectivePolicy,
    attempt: Option<Result<i32, Seq<char>>>,
    cgroup: Option<Seq<char>>,
    steps: Seq<RunActionView>,
    restrict: Option<i32>,
)
    requires
        policy.security.landlock == (attempt is Some),
        !policy.security.allow_degraded,
        launch_of(policy, attempt, cgroup) == Ok::<Seq<RunActionView>, Seq<char>>(steps),
        steps.contains(RunActionView::Spawn(restrict)),
    ensures
        policy.security.landlock <==> restrict is Some,
        restrict == restrictions(attempt),
{
    let i = choose|i: int| 0 <= i < steps.len() && steps[i] == RunActionView::Spawn(restrict);
    assert(steps[i] is Spawn);
    assert(i == steps.len() - 1);
}

/// A run that goes on without the restrictions says so in its trace, before the
/// command is started.
pub proof fn a_degraded_run_says_so(
    policy: EffectivePolicy,
    error: Seq<char>,
    cgroup: Option<Seq<char>>,
    steps: Seq<RunActionView>,
)
    requires
        launch_of(policy, Some(Err(error)), cgroup) == Ok::<Seq<RunActionView>, Seq<char>>(steps),
    ensures
        steps.len() > 1,
        steps[0] == RunActionView::Emit(degraded_draft("landlock disabled: "@ + error)),
        steps.last() == RunActionView::Spawn(None),
{
    let drafts = policy_drafts(policy, left_out(Some(Err(error))));
    assert(drafts[0] == degraded_draft("landlock disabled: "@ + error));
    assert(emits(drafts)[0] == RunActionView::Emit(drafts[0]));
}

} // verus!
