//! A run from its request to its report.

use crate::config::{clone_texts, effective, profile_name, EffectivePolicy, SandboxSpec};
use crate::diagnostics::{diagnostic_hints, hints_for};
use crate::forms::{policy_form, policy_json};
use crate::json::{
    field, field_views, object, optional_text, optional_text_json, text_json, texts, texts_json,
    Json, JsonView,
};
use crate::metadata::{shadox_version, spec_shadox_version, SCHEMA_VERSION};
use crate::number::{decimal, decimal_text};
use crate::report::{
    hint_views, CgroupStats, EnvReport, FailureClassification, FailureKind, OutputReport,
    ResourceUsage, RunReport, VersionedFsReport,
};
use crate::run_id::{hyphenated, RunId};
use crate::runner::procfs::ProcSample;
use crate::runner::seccomp::{blocked_names, blocked_syscall_names};
use crate::runner::wait::{millis, system_cpu_ms, user_cpu_ms, CpuUsage, WaitResult};
use crate::config::SeccompProfile;
use crate::text::{concat3, same_text, views};
use crate::trace::Finding;
use crate::versioned_fs::entry::text_view;
use crate::versioned_fs::paths::{join_path, pushed};
use crate::versioned_fs::session::VersionedRunOutcome;
use vstd::prelude::*;

verus! {

/// The directory of a run that started at a time: by the second and the run's identifier.
pub open spec fn run_dir(run_id: RunId, seconds: u64) -> Seq<char> {
    pushed(
        pushed(".shadox"@, "runs"@),
        decimal(seconds as nat) + "-"@ + hyphenated(run_id.value),
    )
}

/// The directory of a run that started at a time.
pub fn default_run_dir(run_id: RunId, seconds: u64) -> (dir: String)
    ensures
        dir@ == run_dir(run_id, seconds),
{
    let name = concat3(decimal_text(seconds as u128).as_str(), "-", run_id.text().as_str());
    join_path(join_path(".shadox", "runs").as_str(), name.as_str())
}

/// Where a run writes its trace and its report.
#[derive(Debug, PartialEq, Eq)]
pub struct RunPaths {
    pub trace: String,
    pub summary: String,
}

/// Where a run writes: where the policy says so, else in the run's own directory.
pub fn run_paths(policy: &EffectivePolicy, run_id: RunId, seconds: u64) -> (paths: RunPaths)
    ensures
        paths.trace@ == match policy@.observe.trace {
            Some(t) => t,
            None => pushed(run_dir(run_id, seconds), "trace.jsonl"@),
        },
        paths.summary@ == match policy@.observe.summary {
            Some(s) => s,
            None => pushed(run_dir(run_id, seconds), "summary.json"@),
        },
{
    let dir = default_run_dir(run_id, seconds);
    let trace = match &policy.observe.trace {
        Some(t) => t.clone(),
        None => join_path(dir.as_str(), "trace.jsonl"),
    };
    let summary = match &policy.observe.summary {
        Some(s) => s.clone(),
        None => join_path(dir.as_str(), "summary.json"),
    };
    RunPaths { trace, summary }
}

/// Whether the printed report goes to the error stream: it does where the
/// trace has the output stream to itself.
pub fn summary_goes_to_stderr(trace_path: &str) -> (r: bool)
    ensures
        r == (trace_path@ == "-"@),
{
    same_text(trace_path, "-")
}

/// How long to wait between samples: as asked for, but ten milliseconds at least.
pub fn sample_interval_ms(asked: u64) -> (ms: u64)
    ensures
        ms == (if asked < 10 {
            10
        } else {
            asked
        }),
{
    if asked < 10 {
        10
    } else {
        asked
    }
}

/// The processor times can be given in milliseconds.
pub open spec fn times_fit(usage: Option<CpuUsage>) -> bool {
    usage matches Some(u) ==> {
        &&& 0 <= u.user_sec
        &&& 0 <= u.user_usec
        &&& 0 <= u.system_sec
        &&& 0 <= u.system_usec
        &&& millis(u.user_sec as int, u.user_usec as int) <= u64::MAX
        &&& millis(u.system_sec as int, u.system_usec as int) <= u64::MAX
    }
}

/// What a process used, from what the kernel told at its end, the last sample
/// and its control group.
pub fn resource_usage(usage: Option<CpuUsage>, sample: &Option<ProcSample>, cgroup: Option<CgroupStats>) -> (r: ResourceUsage)
    requires
        times_fit(usage),
    ensures
        match usage {
            Some(u) => (r.user_cpu_ms matches Some(ms) && ms == millis(u.user_sec as int, u.user_usec as int))
                && (r.system_cpu_ms matches Some(ms) && ms == millis(u.system_sec as int, u.system_usec as int))
                && r.max_rss_kb == Some(u.max_rss_kb),
            None => r.user_cpu_ms is None && r.system_cpu_ms is None && r.max_rss_kb is None,
        },
        match *sample {
            Some(s) => r.read_bytes == Some(s.read_bytes) && r.write_bytes == Some(s.write_bytes),
            None => r.read_bytes is None && r.write_bytes is None,
        },
        r.cgroup == cgroup,
{
    let (user, system, rss) = match &usage {
        Some(u) => (Some(user_cpu_ms(u)), Some(system_cpu_ms(u)), Some(u.max_rss_kb)),
        None => (None, None, None),
    };
    let (read_bytes, write_bytes) = match sample {
        Some(s) => (Some(s.read_bytes), Some(s.write_bytes)),
        None => (None, None),
    };
    ResourceUsage {
        user_cpu_ms: user,
        system_cpu_ms: system,
        max_rss_kb: rss,
        read_bytes,
        write_bytes,
        cgroup,
    }
}

/// The command with its arguments behind it.
pub fn command_list(cmd: &str, args: &Vec<String>) -> (list: Vec<String>)
    ensures
        views(list@) == seq![cmd@] + views(args@),
{
    let mut list: Vec<String> = Vec::new();
    list.push(cmd.to_string());
    let mut rest = clone_texts(args);
    list.append(&mut rest);
    assert(views(list@) =~= seq![cmd@] + views(args@));
    list
}

/// What is known of a run when its report is made.
pub struct RunFacts {
    pub run_id: RunId,
    pub cmd: String,
    pub args: Vec<String>,
    pub wait: WaitResult,
    pub duration_ms: u128,
    pub paths: RunPaths,
    pub resources: ResourceUsage,
    pub output: OutputReport,
    pub failure: FailureClassification,
    pub findings: Vec<Finding>,
    pub fs: Option<VersionedFsReport>,
}

/// The report of a run under a policy.
pub fn run_report(policy: &EffectivePolicy, facts: RunFacts) -> (r: RunReport)
    ensures
        r.schema_version == SCHEMA_VERSION,
        r.shadox_version@ == spec_shadox_version(),
        r.profile@ == profile_name(policy.profile),
        r.profile_version == policy.profile_version,
        r.run_id == facts.run_id,
        views(r.command@) == seq![facts.cmd@] + views(facts.args@),
        r.exit_code == facts.wait.exit_code,
        r.signal == facts.wait.signal,
        r.timed_out == facts.wait.timed_out,
        r.duration_ms == facts.duration_ms,
        r.trace_path == facts.paths.trace,
        r.summary_path == facts.paths.summary,
        r.resources == facts.resources,
        r.output == facts.output,
        r.failure == facts.failure,
        views(r.denials@) == (if facts.wait.timed_out {
            seq!["timeout"@]
        } else {
            Seq::empty()
        }),
        r.findings == facts.findings,
        hint_views(r.hints@) == hints_for(
            facts.failure.kind,
            policy.profile,
            facts.output.stdout_truncated || facts.output.stderr_truncated,
        ),
        r.fs == facts.fs,
{
    let mut denials: Vec<String> = Vec::new();
    if facts.wait.timed_out {
        denials.push("timeout".to_string());
    }
    assert(views(denials@) =~= (if facts.wait.timed_out {
        seq!["timeout"@]
    } else {
        Seq::empty()
    }));
    let hints = diagnostic_hints(&facts.failure, policy, &facts.output);
    RunReport {
        schema_version: SCHEMA_VERSION,
        shadox_version: shadox_version(),
        profile: policy.profile.name(),
        profile_version: policy.profile_version,
        run_id: facts.run_id,
        command: command_list(facts.cmd.as_str(), &facts.args),
        exit_code: facts.wait.exit_code,
        signal: facts.wait.signal,
        timed_out: facts.wait.timed_out,
        duration_ms: facts.duration_ms,
        trace_path: facts.paths.trace,
        summary_path: facts.paths.summary,
        resources: facts.resources,
        output: facts.output,
        failure: facts.failure,
        denials,
        findings: facts.findings,
        hints,
        fs: facts.fs,
    }
}

/// Whether a run counts as a success for its workspace.
pub fn command_succeeded(failure: &FailureClassification) -> (r: bool)
    ensures
        r == (failure.kind == FailureKind::Success),
{
    failure.kind == FailureKind::Success
}

/// The report of what a run did to its workspace.
pub fn fs_report(outcome: VersionedRunOutcome) -> (r: VersionedFsReport)
    ensures
        r.enabled,
        r.workspace == outcome.workspace,
        r.checkpoint_before == outcome.checkpoint_before,
        r.checkpoint_after == outcome.checkpoint_after,
        r.journal_path == outcome.journal_path,
        r.changed_files == outcome.changed_files,
        r.changes == outcome.changes,
        r.committed == outcome.committed,
        r.rolled_back == outcome.rolled_back,
        r.rollback == outcome.rollback,
{
    VersionedFsReport {
        enabled: true,
        workspace: outcome.workspace,
        checkpoint_before: outcome.checkpoint_before,
        checkpoint_after: outcome.checkpoint_after,
        journal_path: outcome.journal_path,
        changed_files: outcome.changed_files,
        changes: outcome.changes,
        committed: outcome.committed,
        rolled_back: outcome.rolled_back,
        rollback: outcome.rollback,
    }
}

/// What is told of a seccomp profile.
pub open spec fn seccomp_form(profile: SeccompProfile) -> JsonView {
    match profile {
        SeccompProfile::Off => JsonView::Object(
            seq![
                ("blocked_syscalls"@, texts(Seq::empty())),
                ("description"@, JsonView::Text("No seccomp filter is installed."@)),
                ("seccomp_profile"@, JsonView::Text("off"@)),
            ],
        ),
        SeccompProfile::Basic => JsonView::Object(
            seq![
                ("blocked_syscalls"@, texts(blocked_names())),
                (
                    "description"@,
                    JsonView::Text(
                        "Block obvious privileged or introspection syscalls while keeping ordinary CLI programs usable."@,
                    ),
                ),
                ("seccomp_profile"@, JsonView::Text("basic"@)),
            ],
        ),
    }
}

/// What is told of a seccomp profile.
fn seccomp_json(profile: SeccompProfile) -> (j: Json)
    ensures
        j@ == seccomp_form(profile),
{
    let mut fields: Vec<(String, Json)> = Vec::new();
    assert(field_views(fields@) =~= Seq::empty());
    match profile {
        SeccompProfile::Off => {
            let nothing: Vec<String> = Vec::new();
            assert(views(nothing@) =~= Seq::empty());
            field(&mut fields, "blocked_syscalls", texts_json(&nothing));
            field(&mut fields, "description", text_json("No seccomp filter is installed."));
            field(&mut fields, "seccomp_profile", text_json("off"));
        },
        SeccompProfile::Basic => {
            field(&mut fields, "blocked_syscalls", texts_json(&blocked_syscall_names()));
            field(
                &mut fields,
                "description",
                text_json("Block obvious privileged or introspection syscalls while keeping ordinary CLI programs usable."),
            );
            field(&mut fields, "seccomp_profile", text_json("basic"));
        },
    }
    assert(field_views(fields@) =~= seccomp_form(profile)->Object_0);
    object(fields)
}

/// What is told of a request before it is run.
pub open spec fn explanation_form(policy: EffectivePolicy) -> JsonView {
    JsonView::Object(
        seq![
            ("effective_policy"@, policy_form(policy)),
            ("profile"@, JsonView::Text(profile_name(policy.profile))),
            ("seccomp"@, seccomp_form(policy.security.seccomp_profile)),
        ],
    )
}

/// Runs requests and explains them.
#[derive(Debug, Clone, Copy, PartialEq, Eq)]
pub struct Runner;

impl Runner {
    /// The policy that follows from a request, and what it means.
    pub fn explain(spec: &SandboxSpec) -> (j: Json)
        requires
            spec.wf(),
        ensures
            exists|policy: EffectivePolicy|
                policy.wf() && policy@ == effective(spec@) && j@ == #[trigger] explanation_form(policy),
    {
        let policy = spec.effective_policy();
        let mut fields: Vec<(String, Json)> = Vec::new();
        assert(field_views(fields@) =~= Seq::empty());
        field(&mut fields, "effective_policy", policy_json(&policy));
        field(&mut fields, "profile", Json::Text(policy.profile.name()));
        field(&mut fields, "seccomp", seccomp_json(policy.security.seccomp_profile));
        assert(field_views(fields@) =~= explanation_form(policy)->Object_0);
        object(fields)
    }

    /// The report of the machine, from what was found on it.
    pub fn check_env(facts: &EnvFacts) -> (r: EnvReport)
        ensures
            r.platform@ == "linux"@,
            r.supported,
            field_views(r.details@) == env_details(*facts),
    {
        let mut details: Vec<(String, Json)> = Vec::new();
        assert(field_views(details@) =~= Seq::empty());
        field(&mut details, "cgroup_path", optional_text_json(&facts.cgroup_path));
        field(&mut details, "cgroup_v2", Json::Bool(facts.cgroup_v2));
        field(&mut details, "kernel", text_json(facts.kernel.as_str()));
        field(
            &mut details,
            "landlock_abi",
            crate::json::optional_signed_json(facts.landlock_abi),
        );
        field(&mut details, "max_user_namespaces", optional_text_json(&facts.max_user_namespaces));
        field(&mut details, "seccomp", Json::Bool(true));
        field(&mut details, "unprivileged_userns_clone", optional_text_json(&facts.unprivileged_userns_clone));
        assert(field_views(details@) =~= env_details(*facts));
        EnvReport { platform: "linux".to_string(), supported: true, details }
    }

    /// The refusal to run a command on a machine without the sandbox primitives.
    pub fn run_unsupported(_spec: &SandboxSpec) -> (result: Result<RunReport, String>)
        ensures
            result matches Err(message)
                && message@ == "shadox run is Linux-only; use WSL2 or a Linux host for sandbox execution"@,
    {
        Err("shadox run is Linux-only; use WSL2 or a Linux host for sandbox execution".to_string())
    }

    /// The report of a machine on which nothing can be run.
    pub fn check_env_unsupported(platform: String) -> (r: EnvReport)
        ensures
            r.platform == platform,
            !r.supported,
            field_views(r.details@) == seq![
                (
                    "reason"@,
                    JsonView::Text(
                        "sandbox primitives require Linux procfs, prctl, rlimit, Landlock, and seccomp"@,
                    ),
                ),
            ],
    {
        let mut details: Vec<(String, Json)> = Vec::new();
        assert(field_views(details@) =~= Seq::empty());
        field(
            &mut details,
            "reason",
            text_json("sandbox primitives require Linux procfs, prctl, rlimit, Landlock, and seccomp"),
        );
        assert(field_views(details@) =~= seq![
            (
                "reason"@,
                JsonView::Text("sandbox primitives require Linux procfs, prctl, rlimit, Landlock, and seccomp"@),
            ),
        ]);
        EnvReport { platform, supported: false, details }
    }
}

/// What was found on the machine.
pub struct EnvFacts {
    pub kernel: String,
    pub landlock_abi: Option<i32>,
    pub max_user_namespaces: Option<String>,
    pub unprivileged_userns_clone: Option<String>,
    pub cgroup_v2: bool,
    pub cgroup_path: Option<String>,
}

/// The details of a report of the machine.
pub open spec fn env_details(facts: EnvFacts) -> Seq<(Seq<char>, JsonView)> {
    seq![
        ("cgroup_path"@, optional_text(text_view(facts.cgroup_path))),
        ("cgroup_v2"@, JsonView::Bool(facts.cgroup_v2)),
        ("kernel"@, JsonView::Text(facts.kernel@)),
        ("landlock_abi"@, crate::json::optional_signed(facts.landlock_abi)),
        ("max_user_namespaces"@, optional_text(text_view(facts.max_user_namespaces))),
        ("seccomp"@, JsonView::Bool(true)),
        ("unprivileged_userns_clone"@, optional_text(text_view(facts.unprivileged_userns_clone))),
    ]
}

} // verus!
