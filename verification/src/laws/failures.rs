//! Which failure is told of a run, and on what grounds.

use crate::config::{EffectivePolicy, SandboxProfile, SeccompProfile};
use crate::diagnostics::diagnostic_hints;
use crate::number::decimal_int;
use crate::report::{
    hint_views, CgroupStats, Confidence, DiagnosticHint, FailureClassification, FailureKind, OutputReport,
};
use crate::runner::classify::{
    classified, classify_failure, classify_with, linux_signals, reports_denial, SignalNumbers,
};
use crate::runner::wait::WaitResult;
use crate::text::{ascii_lower, occurs, views};
use vstd::prelude::*;

verus! {

/// The error output speaks of a refused permission, in whatever case.
pub open spec fn speaks_of_permission(tail: Seq<char>) -> bool {
    occurs(ascii_lower(tail), "permission denied"@) || occurs(ascii_lower(tail), "operation not permitted"@)
}

/// The control group counted a kill for want of memory.
pub open spec fn counted_a_kill(cgroup: Option<&CgroupStats>) -> bool {
    cgroup matches Some(stats) && stats.memory_events_delta@.contains_key("oom_kill"@) && stats.memory_events_delta@["oom_kill"@] > 0
}

/// The process ended without a word from the clock, the kernel's traps or the memory events.
pub open spec fn ended_by_itself(wait: WaitResult, cgroup: Option<&CgroupStats>, signals: SignalNumbers) -> bool {
    &&& !wait.timed_out
    &&& !(wait.exit_code == Some(0i32) && wait.signal is None)
    &&& wait.signal != Some(signals.sigsys)
    &&& !(wait.signal == Some(signals.sigkill) && counted_a_kill(cgroup))
}

/// Each kind of failure is told exactly on its own grounds: a timeout where the
/// clock killed the process; success where it exited with zero; a blocked call
/// for sure where it was trapped; want of memory where it was killed and a kill
/// was counted; the filesystem restrictions where they were on and the error
/// output speaks of a refused permission; a blocked call perhaps where they were
/// off, the filter was on and an operation was not permitted; else the signal or
/// the exit code.
pub proof fn failures_are_told_on_their_grounds(
    wait: WaitResult,
    policy: EffectivePolicy,
    output: OutputReport,
    cgroup: Option<&CgroupStats>,
    signals: SignalNumbers,
    f: FailureClassification,
)
    requires
        call_ensures(classify_with, (&wait, &policy, &output, cgroup, signals), f),
    ensures
        ({
            let itself = ended_by_itself(wait, cgroup, signals);
            let permission = speaks_of_permission(output.stderr_tail@);
            let not_permitted = occurs(ascii_lower(output.stderr_tail@), "operation not permitted"@);
            let landlock = itself && policy.security.landlock && permission;
            let perhaps = itself && !policy.security.landlock && policy.security.seccomp_profile == SeccompProfile::Basic
                && not_permitted;
            &&& f.kind == FailureKind::Timeout <==> wait.timed_out
            &&& f.kind == FailureKind::Success <==> !wait.timed_out && wait.exit_code == Some(0i32) && wait.signal is None
            &&& (f.kind == FailureKind::SeccompDenied && f.confidence == Confidence::High) <==> !wait.timed_out && wait.signal
                == Some(signals.sigsys)
            &&& f.kind == FailureKind::OomLike <==> !wait.timed_out && wait.signal != Some(signals.sigsys) && wait.signal
                == Some(signals.sigkill) && counted_a_kill(cgroup)
            &&& f.kind == FailureKind::LandlockDenied <==> landlock
            &&& (f.kind == FailureKind::SeccompDenied && f.confidence == Confidence::Low) <==> perhaps
            &&& f.kind == FailureKind::Signal <==> itself && !landlock && !perhaps && wait.signal is Some
            &&& f.kind == FailureKind::ExitNonZero <==> itself && !landlock && !perhaps && wait.signal is None
            &&& f.confidence == Confidence::Medium <==> f.kind == FailureKind::OomLike || f.kind == FailureKind::LandlockDenied
            &&& f.confidence == Confidence::Low ==> f.kind == FailureKind::SeccompDenied
        }),
{
    assert(f@ == classified(wait, policy@, output.stderr_tail@, cgroup, signals));
}

/// Each kind of failure is told with the evidence for it.
pub proof fn failures_come_with_their_evidence(
    wait: WaitResult,
    policy: EffectivePolicy,
    output: OutputReport,
    cgroup: Option<&CgroupStats>,
    signals: SignalNumbers,
    f: FailureClassification,
)
    requires
        call_ensures(classify_with, (&wait, &policy, &output, cgroup, signals), f),
    ensures
        f.kind == FailureKind::Timeout ==> views(f.evidence@) == seq!["timed_out=true"@],
        f.kind == FailureKind::Success ==> views(f.evidence@) == seq!["exit_code=0"@],
        f.kind == FailureKind::SeccompDenied && f.confidence == Confidence::High ==> views(f.evidence@) == seq!["signal=SIGSYS"@],
        f.kind == FailureKind::SeccompDenied && f.confidence == Confidence::Low ==> views(f.evidence@) == seq![
            "seccomp_profile=basic"@,
            "stderr_eperm=true"@,
        ],
        f.kind == FailureKind::LandlockDenied ==> views(f.evidence@) == seq!["landlock=true"@, "stderr_permission_denial=true"@],
        f.kind == FailureKind::OomLike ==> f.evidence@.len() > 0 && f.evidence@[0]@ == "signal="@ + decimal_int(
            signals.sigkill as int,
        ),
        f.kind == FailureKind::Signal ==> views(f.evidence@) == seq!["signal="@ + decimal_int(wait.signal->0 as int)]
            && f.reason@ == "process terminated by signal "@ + decimal_int(wait.signal->0 as int),
        f.kind == FailureKind::ExitNonZero && wait.exit_code is Some ==> views(f.evidence@) == seq![
            "exit_code="@ + decimal_int(wait.exit_code->0 as int),
        ] && f.reason@ == "process exited with non-zero status "@ + decimal_int(wait.exit_code->0 as int),
        f.kind == FailureKind::ExitNonZero && wait.exit_code is None ==> views(f.evidence@) == seq!["exit_code="@ + decimal_int(0)]
            && f.reason@ == "process exited with non-zero status "@ + decimal_int(0),
        f.kind == FailureKind::Timeout ==> f.reason@ == "process exceeded configured timeout and was killed"@,
        f.kind == FailureKind::Success ==> f.reason@ == "process exited successfully"@,
        f.kind == FailureKind::LandlockDenied ==> f.reason@ == "stderr contains a permission denial while Landlock was enabled"@,
        f.kind == FailureKind::OomLike ==> f.reason@
            == "process was killed and cgroup memory events suggest an OOM-like termination"@,
        f.kind == FailureKind::SeccompDenied && f.confidence == Confidence::High ==> f.reason@
            == "process received SIGSYS, which usually indicates a seccomp trap"@,
        f.kind == FailureKind::SeccompDenied && f.confidence == Confidence::Low ==> f.reason@
            == "stderr contains EPERM while the basic seccomp profile was enabled"@,
{
    assert(f@ == classified(wait, policy@, output.stderr_tail@, cgroup, signals));
    if f.kind == FailureKind::OomLike {
        let told = views(f.evidence@);
        assert(told == crate::runner::classify::oom_evidence_of(wait, cgroup));
        assert(told.len() > 0 && told.len() == f.evidence@.len());
        assert(told[0] == f.evidence@[0]@);
        assert(told[0] == "signal="@ + decimal_int(signals.sigkill as int));
    }
}

/// Every memory event that changed is evidence of a kill for want of memory,
/// with how much it changed; one that did not change is not mentioned.
pub proof fn changed_memory_events_are_evidence(
    wait: WaitResult,
    policy: EffectivePolicy,
    output: OutputReport,
    stats: CgroupStats,
    signals: SignalNumbers,
    f: FailureClassification,
    i: int,
)
    requires
        call_ensures(classify_with, (&wait, &policy, &output, Some(&stats), signals), f),
        f.kind == FailureKind::OomLike,
        0 <= i < stats.memory_events_delta.items@.len(),
        stats.memory_events_delta.items@[i].1 != 0,
    ensures
        views(f.evidence@).contains(
            "memory.events.delta."@ + stats.memory_events_delta.items@[i].0@ + "="@ + decimal_int(
                stats.memory_events_delta.items@[i].1 as int,
            ),
        ),
{
    assert(f@ == classified(wait, policy@, output.stderr_tail@, Some(&stats), signals));
    let items = stats.memory_events_delta.items@;
    let n = items.len() as int;
    let k = lemma_evidence(items, n, i);
    let list = crate::runner::classify::delta_evidence(items, n);
    let signal = seq!["signal="@ + decimal_int(signals.sigkill as int)];
    assert(views(f.evidence@) == signal + list);
    assert((signal + list)[1 + k] == list[k]);
}

proof fn lemma_evidence(items: Seq<(String, i64)>, n: int, i: int) -> (k: int)
    requires
        0 <= i < n <= items.len(),
        items[i].1 != 0,
    ensures
        0 <= k < crate::runner::classify::delta_evidence(items, n).len(),
        crate::runner::classify::delta_evidence(items, n)[k] == "memory.events.delta."@ + items[i].0@ + "="@ + decimal_int(
            items[i].1 as int,
        ),
    decreases n,
{
    if i == n - 1 {
        crate::runner::classify::delta_evidence(items, n).len() - 1
    } else {
        lemma_evidence(items, n - 1, i)
    }
}

/// On any machine that Linux runs on: a run that the clock killed is a timeout,
/// a clean exit a success, a trapped process one whose call was blocked, and a
/// process killed by the ninth signal while a kill was counted one that wanted
/// memory.
pub proof fn failures_are_told_on_every_machine(
    wait: WaitResult,
    policy: EffectivePolicy,
    output: OutputReport,
    cgroup: Option<&CgroupStats>,
    f: FailureClassification,
)
    requires
        call_ensures(classify_failure, (&wait, &policy, &output, cgroup), f),
    ensures
        f.kind == FailureKind::Timeout <==> wait.timed_out,
        f.kind == FailureKind::Success <==> !wait.timed_out && wait.exit_code == Some(0i32) && wait.signal is None,
        f.kind == FailureKind::OomLike <==> !wait.timed_out && wait.signal == Some(9i32) && counted_a_kill(cgroup),
        f.kind == FailureKind::SeccompDenied && f.confidence == Confidence::High ==> wait.signal == Some(31i32) || wait.signal
            == Some(12i32),
        wait.signal is None ==> (f.kind == FailureKind::LandlockDenied <==> !wait.timed_out && wait.exit_code != Some(0i32)
            && policy.security.landlock && speaks_of_permission(output.stderr_tail@)),
        wait.signal is None && f.kind == FailureKind::SeccompDenied ==> !policy.security.landlock,
{
    let signals = choose|signals: SignalNumbers|
        linux_signals(signals) && f@ == #[trigger] classified(wait, policy@, output.stderr_tail@, cgroup, signals);
    assert(f.kind == f@.kind && f.confidence == f@.confidence);
}

/// A denial is told of timeouts, blocked calls, refused paths and want of
/// memory, and of nothing else.
pub proof fn denials_are_what_the_sandbox_did(kind: FailureKind, r: bool)
    requires
        call_ensures(reports_denial, (kind,), r),
    ensures
        r <==> kind != FailureKind::Success && kind != FailureKind::ExitNonZero && kind != FailureKind::Signal,
{
}

/// The code of the hint on a kind of failure.
pub open spec fn hint_code(kind: FailureKind) -> Option<Seq<char>> {
    if kind == FailureKind::Timeout {
        Some("timeout_budget_exhausted"@)
    } else if kind == FailureKind::LandlockDenied {
        Some("landlock_fs_allowlist"@)
    } else if kind == FailureKind::SeccompDenied {
        Some("seccomp_profile_blocked_syscall"@)
    } else if kind == FailureKind::OomLike {
        Some("oom_like_termination"@)
    } else if kind == FailureKind::Signal {
        Some("signal_termination"@)
    } else if kind == FailureKind::ExitNonZero {
        Some("non_zero_exit"@)
    } else {
        None
    }
}

/// The hints on a run: one on its failure, by the kind of it; one where output
/// was cut; one where the profile only observes. Their codes, in this order, are
/// fixed, and each hint warns exactly where the sandbox stepped in.
pub proof fn hints_follow_from_the_failure(
    failure: FailureClassification,
    policy: EffectivePolicy,
    output: OutputReport,
    hints: Vec<DiagnosticHint>,
)
    requires
        call_ensures(diagnostic_hints, (&failure, &policy, &output), hints),
    ensures
        ({
            let cut = output.stdout_truncated || output.stderr_truncated;
            let observes = policy.profile == SandboxProfile::PermissiveObserve;
            let first = if hint_code(failure.kind) is Some {
                1int
            } else {
                0int
            };
            let second = if cut {
                first + 1
            } else {
                first
            };
            &&& hints@.len() == second + (if observes {
                1int
            } else {
                0int
            })
            &&& failure.kind == FailureKind::Success <==> first == 0
            &&& first == 1 ==> hints@[0].code@ == hint_code(failure.kind)->0
            &&& first == 1 ==> (hints@[0].severity@ == "warn"@ <==> failure.kind == FailureKind::Timeout || failure.kind
                == FailureKind::LandlockDenied || failure.kind == FailureKind::SeccompDenied || failure.kind == FailureKind::OomLike)
            &&& cut ==> hints@[first].code@ == "output_tail_truncated"@ && hints@[first].severity@ == "info"@
            &&& observes ==> hints@[second].code@ == "permissive_observe_profile"@ && hints@[second].severity@ == "info"@
        }),
{
    reveal_strlit("warn");
    reveal_strlit("info");
    assert("warn"@[0] != "info"@[0]);
    let list = hint_views(hints@);
    assert(list.len() == hints@.len());
    assert forall|i: int| 0 <= i < hints@.len() implies (#[trigger] hints@[i]).code@ == list[i].code && hints@[i].severity@ == list[i].severity by {
        assert(list[i] == hints@[i]@);
    }
}

/// What each hint on a failure says, and what it advises to do.
pub proof fn hints_advise_on_the_failure(
    failure: FailureClassification,
    policy: EffectivePolicy,
    output: OutputReport,
    hints: Vec<DiagnosticHint>,
)
    requires
        call_ensures(diagnostic_hints, (&failure, &policy, &output), hints),
    ensures
        failure.kind != FailureKind::Success ==> hints@.len() > 0,
        failure.kind == FailureKind::Timeout ==> {
            &&& hints@[0].severity@ == "warn"@
            &&& hints@[0].message@ == "The process exceeded the configured wall-clock timeout."@
            &&& hints@[0].action@ == "Increase limits.timeout_ms for trusted workloads, or split the agent task into smaller steps."@
            &&& views(hints@[0].tags@) == seq!["timeout"@, "budget"@]
        },
        failure.kind == FailureKind::LandlockDenied ==> {
            &&& hints@[0].severity@ == "warn"@
            &&& hints@[0].message@ == "Filesystem access was likely denied by the effective Landlock allowlist."@
            &&& hints@[0].action@ == "Add the required path to fs.read or fs.write, or pass --allow-read/--allow-write for this run."@
            &&& views(hints@[0].tags@) == seq!["landlock"@, "filesystem"@, "policy"@]
        },
        failure.kind == FailureKind::SeccompDenied ==> {
            &&& hints@[0].severity@ == "warn"@
            &&& hints@[0].message@ == "The basic seccomp profile likely blocked a syscall used by the command."@
            &&& hints@[0].action@ == "Use seccomp_profile=\"off\" only for trusted diagnostics, then decide whether the workload needs a narrower custom profile."@
            &&& views(hints@[0].tags@) == seq!["seccomp"@, "syscall"@, "policy"@]
        },
        failure.kind == FailureKind::OomLike ==> {
            &&& hints@[0].severity@ == "warn"@
            &&& hints@[0].message@ == "The process was killed and memory telemetry suggests an OOM-like event."@
            &&& hints@[0].action@ == "Reduce the workload memory footprint or run with a larger external memory budget."@
            &&& views(hints@[0].tags@) == seq!["memory"@, "budget"@]
        },
        failure.kind == FailureKind::Signal ==> {
            &&& hints@[0].severity@ == "info"@
            &&& hints@[0].message@ == "The process was terminated by a signal."@
            &&& hints@[0].action@ == "Inspect failure.evidence and stderr_tail to distinguish isolation policy from application behavior."@
            &&& views(hints@[0].tags@) == seq!["signal"@, "diagnostics"@]
        },
        failure.kind == FailureKind::ExitNonZero ==> {
            &&& hints@[0].severity@ == "info"@
            &&& hints@[0].message@ == "The process exited with a non-zero status."@
            &&& hints@[0].action@ == "Inspect output.stderr_tail and observer findings before changing isolation policy."@
            &&& views(hints@[0].tags@) == seq!["process"@, "diagnostics"@]
        },
{
    let list = hint_views(hints@);
    assert(list.len() == hints@.len());
    if failure.kind != FailureKind::Success {
        assert(list[0] == hints@[0]@);
    }
}

/// What is said of cut output, and of a profile that only observes.
pub proof fn hints_advise_on_the_run(
    failure: FailureClassification,
    policy: EffectivePolicy,
    output: OutputReport,
    hints: Vec<DiagnosticHint>,
)
    requires
        call_ensures(diagnostic_hints, (&failure, &policy, &output), hints),
    ensures
        policy.profile == SandboxProfile::PermissiveObserve ==> {
            &&& hints@.len() > 0
            &&& hints@.last().severity@ == "info"@
            &&& hints@.last().message@ == "The permissive-observe profile prioritizes telemetry over filesystem restriction."@
            &&& hints@.last().action@ == "Use agent-default, read-only, or workspace-write when policy enforcement matters."@
            &&& views(hints@.last().tags@) == seq!["profile"@, "observe"@]
        },
        (output.stdout_truncated || output.stderr_truncated) && policy.profile != SandboxProfile::PermissiveObserve ==> {
            &&& hints@.len() > 0
            &&& hints@.last().severity@ == "info"@
            &&& hints@.last().message@ == "The summary retained only bounded output tails."@
            &&& hints@.last().action@ == "Use trace.jsonl for full chunk-level output, or let the agent stream --trace - for live consumption."@
            &&& views(hints@.last().tags@) == seq!["output"@, "trace"@]
        },
        (output.stdout_truncated || output.stderr_truncated) && policy.profile == SandboxProfile::PermissiveObserve ==> {
            &&& hints@.len() > 1
            &&& hints@[hints@.len() - 2].severity@ == "info"@
            &&& hints@[hints@.len() - 2].message@ == "The summary retained only bounded output tails."@
            &&& hints@[hints@.len() - 2].action@ == "Use trace.jsonl for full chunk-level output, or let the agent stream --trace - for live consumption."@
            &&& views(hints@[hints@.len() - 2].tags@) == seq!["output"@, "trace"@]
        },
{
    let list = hint_views(hints@);
    let n = hints@.len() as int;
    assert(list.len() == n);
    if n > 0 {
        assert(list[n - 1] == hints@[n - 1]@);
    }
    if n > 1 {
        assert(list[n - 2] == hints@[n - 2]@);
    }
}

} // verus!
