//! Hints on what to do about how a run ended.

use crate::config::{EffectivePolicy, SandboxProfile};
use crate::report::{
    hint_views, DiagnosticHint, FailureClassification, FailureKind, HintView, OutputReport,
};
use crate::text::views;
use vstd::prelude::*;

verus! {

/// The hint on a kind of failure; success needs none.
pub open spec fn failure_hint(kind: FailureKind) -> Option<HintView> {
    match kind {
        FailureKind::Success => None,
        FailureKind::Timeout => Some(
            HintView {
                code: "timeout_budget_exhausted"@,
                severity: "warn"@,
                message: "The process exceeded the configured wall-clock timeout."@,
                action: "Increase limits.timeout_ms for trusted workloads, or split the agent task into smaller steps."@,
                tags: seq!["timeout"@, "budget"@],
            },
        ),
        FailureKind::LandlockDenied => Some(
            HintView {
                code: "landlock_fs_allowlist"@,
                severity: "warn"@,
                message: "Filesystem access was likely denied by the effective Landlock allowlist."@,
                action: "Add the required path to fs.read or fs.write, or pass --allow-read/--allow-write for this run."@,
                tags: seq!["landlock"@, "filesystem"@, "policy"@],
            },
        ),
        FailureKind::SeccompDenied => Some(
            HintView {
                code: "seccomp_profile_blocked_syscall"@,
                severity: "warn"@,
                message: "The basic seccomp profile likely blocked a syscall used by the command."@,
                action: "Use seccomp_profile=\"off\" only for trusted diagnostics, then decide whether the workload needs a narrower custom profile."@,
                tags: seq!["seccomp"@, "syscall"@, "policy"@],
            },
        ),
        FailureKind::OomLike => Some(
            HintView {
                code: "oom_like_termination"@,
                severity: "warn"@,
                message: "The process was killed and memory telemetry suggests an OOM-like event."@,
                action: "Reduce the workload memory footprint or run with a larger external memory budget."@,
                tags: seq!["memory"@, "budget"@],
            },
        ),
        FailureKind::Signal => Some(
            HintView {
                code: "signal_termination"@,
                severity: "info"@,
                message: "The process was terminated by a signal."@,
                action: "Inspect failure.evidence and stderr_tail to distinguish isolation policy from application behavior."@,
                tags: seq!["signal"@, "diagnostics"@],
            },
        ),
        FailureKind::ExitNonZero => Some(
            HintView {
                code: "non_zero_exit"@,
                severity: "info"@,
                message: "The process exited with a non-zero status."@,
                action: "Inspect output.stderr_tail and observer findings before changing isolation policy."@,
                tags: seq!["process"@, "diagnostics"@],
            },
        ),
    }
}

/// The hint that output was cut.
pub open spec fn truncation_hint() -> HintView {
    HintView {
        code: "output_tail_truncated"@,
        severity: "info"@,
        message: "The summary retained only bounded output tails."@,
        action: "Use trace.jsonl for full chunk-level output, or let the agent stream --trace - for live consumption."@,
        tags: seq!["output"@, "trace"@],
    }
}

/// The hint that the profile does not restrict the filesystem.
pub open spec fn permissive_hint() -> HintView {
    HintView {
        code: "permissive_observe_profile"@,
        severity: "info"@,
        message: "The permissive-observe profile prioritizes telemetry over filesystem restriction."@,
        action: "Use agent-default, read-only, or workspace-write when policy enforcement matters."@,
        tags: seq!["profile"@, "observe"@],
    }
}

/// The hints on a run, in order.
pub open spec fn hints_for(kind: FailureKind, profile: SandboxProfile, truncated: bool) -> Seq<HintView> {
    (match failure_hint(kind) {
        Some(h) => seq![h],
        None => Seq::empty(),
    }) + (if truncated {
        seq![truncation_hint()]
    } else {
        Seq::empty()
    }) + (if profile == SandboxProfile::PermissiveObserve {
        seq![permissive_hint()]
    } else {
        Seq::empty()
    })
}

/// A hint from its parts.
fn hint(code: &str, severity: &str, message: &str, action: &str, tags: Vec<String>) -> (h: DiagnosticHint)
    ensures
        h@ == (HintView {
            code: code@,
            severity: severity@,
            message: message@,
            action: action@,
            tags: views(tags@),
        }),
{
    DiagnosticHint {
        code: code.to_string(),
        severity: severity.to_string(),
        message: message.to_string(),
        action: action.to_string(),
        tags,
    }
}

/// A list of two tags.
fn two_tags(a: &str, b: &str) -> (tags: Vec<String>)
    ensures
        views(tags@) == seq![a@, b@],
{
    let mut tags: Vec<String> = Vec::new();
    tags.push(a.to_string());
    tags.push(b.to_string());
    assert(views(tags@) =~= seq![a@, b@]);
    tags
}

/// A list of three tags.
fn three_tags(a: &str, b: &str, c: &str) -> (tags: Vec<String>)
    ensures
        views(tags@) == seq![a@, b@, c@],
{
    let mut tags: Vec<String> = Vec::new();
    tags.push(a.to_string());
    tags.push(b.to_string());
    tags.push(c.to_string());
    assert(views(tags@) =~= seq![a@, b@, c@]);
    tags
}

/// The value of an optional hint.
pub open spec fn optional_hint(h: Option<DiagnosticHint>) -> Option<HintView> {
    match h {
        Some(h) => Some(h@),
        None => None,
    }
}

/// The hint on a kind of failure.
fn hint_for_failure(kind: FailureKind) -> (h: Option<DiagnosticHint>)
    ensures
        optional_hint(h) == failure_hint(kind),
{
    match kind {
        FailureKind::Success => None,
        FailureKind::Timeout => Some(
            hint(
                "timeout_budget_exhausted",
                "warn",
                "The process exceeded the configured wall-clock timeout.",
                "Increase limits.timeout_ms for trusted workloads, or split the agent task into smaller steps.",
                two_tags("timeout", "budget"),
            ),
        ),
        FailureKind::LandlockDenied => Some(
            hint(
                "landlock_fs_allowlist",
                "warn",
                "Filesystem access was likely denied by the effective Landlock allowlist.",
                "Add the required path to fs.read or fs.write, or pass --allow-read/--allow-write for this run.",
                three_tags("landlock", "filesystem", "policy"),
            ),
        ),
        FailureKind::SeccompDenied => Some(
            hint(
                "seccomp_profile_blocked_syscall",
                "warn",
                "The basic seccomp profile likely blocked a syscall used by the command.",
                "Use seccomp_profile=\"off\" only for trusted diagnostics, then decide whether the workload needs a narrower custom profile.",
                three_tags("seccomp", "syscall", "policy"),
            ),
        ),
        FailureKind::OomLike => Some(
            hint(
                "oom_like_termination",
                "warn",
                "The process was killed and memory telemetry suggests an OOM-like event.",
                "Reduce the workload memory footprint or run with a larger external memory budget.",
                two_tags("memory", "budget"),
            ),
        ),
        FailureKind::Signal => Some(
            hint(
                "signal_termination",
                "info",
                "The process was terminated by a signal.",
                "Inspect failure.evidence and stderr_tail to distinguish isolation policy from application behavior.",
                two_tags("signal", "diagnostics"),
            ),
        ),
        FailureKind::ExitNonZero => Some(
            hint(
                "non_zero_exit",
                "info",
                "The process exited with a non-zero status.",
                "Inspect output.stderr_tail and observer findings before changing isolation policy.",
                two_tags("process", "diagnostics"),
            ),
        ),
    }
}

/// The hints on a run.
pub fn diagnostic_hints(failure: &FailureClassification, policy: &EffectivePolicy, output: &OutputReport) -> (hints: Vec<DiagnosticHint>)
    ensures
        hint_views(hints@) == hints_for(
            failure.kind,
            policy.profile,
            output.stdout_truncated || output.stderr_truncated,
        ),
{
    let mut hints: Vec<DiagnosticHint> = Vec::new();
    if let Some(h) = hint_for_failure(failure.kind) {
        hints.push(h);
    }
    if output.stdout_truncated || output.stderr_truncated {
        hints.push(
            hint(
                "output_tail_truncated",
                "info",
                "The summary retained only bounded output tails.",
                "Use trace.jsonl for full chunk-level output, or let the agent stream --trace - for live consumption.",
                two_tags("output", "trace"),
            ),
        );
    }
    if policy.profile == SandboxProfile::PermissiveObserve {
        hints.push(
            hint(
                "permissive_observe_profile",
                "info",
                "The permissive-observe profile prioritizes telemetry over filesystem restriction.",
                "Use agent-default, read-only, or workspace-write when policy enforcement matters.",
                two_tags("profile", "observe"),
            ),
        );
    }
    assert(hint_views(hints@) =~= hints_for(
        failure.kind,
        policy.profile,
        output.stdout_truncated || output.stderr_truncated,
    ));
    hints
}

} // verus!
