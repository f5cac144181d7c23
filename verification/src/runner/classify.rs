//! Why a process ended as it did.

use crate::config::{EffectivePolicy, PolicyView, SeccompProfile};
use crate::number::{decimal_int, decimal_int_text};
use crate::report::{
    success_view, CgroupStats, Confidence, FailureClassification, FailureKind, FailureView,
    OutputReport,
};
use crate::runner::wait::WaitResult;
use crate::text::{
    ascii_lower, ascii_lowered, chars_of, concat2, concat3, contains_text, occurs, views,
};
use vstd::prelude::*;

verus! {

/// The numbers of the signals that a classification looks for.
#[derive(Debug, Clone, Copy, PartialEq, Eq, Structural)]
pub struct SignalNumbers {
    pub sigsys: i32,
    pub sigkill: i32,
}

/// The signals as Linux numbers them: the one for a trapped system call is 31 on
/// most machines and 12 on the others.
pub open spec fn linux_signals(signals: SignalNumbers) -> bool {
    (signals.sigsys == 31 || signals.sigsys == 12) && signals.sigkill == 9
}

/// `libc::SIGSYS`: 31 or 12, depending on the machine.
#[verifier::external_body]
fn sigsys() -> (n: i32)
    ensures
        n == 31 || n == 12,
{
    libc::SIGSYS
}

/// `libc::SIGKILL`: 9 on every machine that Linux runs on.
#[verifier::external_body]
fn sigkill() -> (n: i32)
    ensures
        n == 9,
{
    libc::SIGKILL
}

/// The change of a memory event, where the control group tells one.
pub open spec fn memory_delta(cgroup: Option<&CgroupStats>, event: Seq<char>) -> int {
    match cgroup {
        Some(stats) => if stats.memory_events_delta@.contains_key(event) {
            stats.memory_events_delta@[event] as int
        } else {
            0
        },
        None => 0,
    }
}

/// The process was killed while the control group counted a kill for want of memory.
pub open spec fn oom_like(wait: WaitResult, cgroup: Option<&CgroupStats>, signals: SignalNumbers) -> bool {
    wait.signal == Some(signals.sigkill) && memory_delta(cgroup, "oom_kill"@) > 0
}

/// The evidence of the memory events that changed, from the first `n` of their pairs.
pub open spec fn delta_evidence(items: Seq<(String, i64)>, n: int) -> Seq<Seq<char>>
    decreases n,
{
    if n <= 0 {
        Seq::empty()
    } else if items[n - 1].1 != 0 {
        delta_evidence(items, n - 1).push(
            "memory.events.delta."@ + items[n - 1].0@ + "="@ + decimal_int(items[n - 1].1 as int),
        )
    } else {
        delta_evidence(items, n - 1)
    }
}

/// The evidence of a kill for want of memory.
pub open spec fn oom_evidence_of(wait: WaitResult, cgroup: Option<&CgroupStats>) -> Seq<Seq<char>> {
    (match wait.signal {
        Some(signal) => seq!["signal="@ + decimal_int(signal as int)],
        None => Seq::empty(),
    }) + (match cgroup {
        Some(stats) => delta_evidence(
            stats.memory_events_delta.items@,
            stats.memory_events_delta.items@.len() as int,
        ),
        None => Seq::empty(),
    })
}

/// The exit code, zero where there is none.
pub open spec fn code_or_zero(code: Option<i32>) -> int {
    match code {
        Some(c) => c as int,
        None => 0,
    }
}

/// Why a process ended as it did. What the kernel tells directly comes first,
/// then what can be guessed, with the confidence that it deserves.
pub open spec fn classified(
    wait: WaitResult,
    policy: PolicyView,
    stderr_tail: Seq<char>,
    cgroup: Option<&CgroupStats>,
    signals: SignalNumbers,
) -> FailureView {
    let stderr = ascii_lower(stderr_tail);
    let refused = occurs(stderr, "permission denied"@) || occurs(stderr, "operation not permitted"@);
    if wait.timed_out {
        FailureView {
            kind: FailureKind::Timeout,
            confidence: Confidence::High,
            reason: "process exceeded configured timeout and was killed"@,
            evidence: seq!["timed_out=true"@],
        }
    } else if wait.exit_code == Some(0i32) && wait.signal is None {
        success_view()
    } else if wait.signal == Some(signals.sigsys) {
        FailureView {
            kind: FailureKind::SeccompDenied,
            confidence: Confidence::High,
            reason: "process received SIGSYS, which usually indicates a seccomp trap"@,
            evidence: seq!["signal=SIGSYS"@],
        }
    } else if oom_like(wait, cgroup, signals) {
        FailureView {
            kind: FailureKind::OomLike,
            confidence: Confidence::Medium,
            reason: "process was killed and cgroup memory events suggest an OOM-like termination"@,
            evidence: oom_evidence_of(wait, cgroup),
        }
    } else if policy.security.landlock && refused {
        FailureView {
            kind: FailureKind::LandlockDenied,
            confidence: Confidence::Medium,
            reason: "stderr contains a permission denial while Landlock was enabled"@,
            evidence: seq!["landlock=true"@, "stderr_permission_denial=true"@],
        }
    } else if policy.security.seccomp_profile == SeccompProfile::Basic && occurs(stderr, "operation not permitted"@) {
        FailureView {
            kind: FailureKind::SeccompDenied,
            confidence: Confidence::Low,
            reason: "stderr contains EPERM while the basic seccomp profile was enabled"@,
            evidence: seq!["seccomp_profile=basic"@, "stderr_eperm=true"@],
        }
    } else {
        match wait.signal {
            Some(signal) => FailureView {
                kind: FailureKind::Signal,
                confidence: Confidence::High,
                reason: "process terminated by signal "@ + decimal_int(signal as int),
                evidence: seq!["signal="@ + decimal_int(signal as int)],
            },
            None => FailureView {
                kind: FailureKind::ExitNonZero,
                confidence: Confidence::High,
                reason: "process exited with non-zero status "@ + decimal_int(code_or_zero(wait.exit_code)),
                evidence: seq!["exit_code="@ + decimal_int(code_or_zero(wait.exit_code))],
            },
        }
    }
}

/// A classification from its parts.
fn classification(kind: FailureKind, confidence: Confidence, reason: String, evidence: Vec<String>) -> (f: FailureClassification)
    ensures
        f@ == (FailureView { kind, confidence, reason: reason@, evidence: views(evidence@) }),
{
    FailureClassification { kind, confidence, reason, evidence }
}

/// A list of one text.
fn one(a: String) -> (list: Vec<String>)
    ensures
        views(list@) == seq![a@],
{
    let mut list: Vec<String> = Vec::new();
    list.push(a);
    assert(views(list@) =~= seq![a@]);
    list
}

/// A list of two texts.
fn both(a: &str, b: &str) -> (list: Vec<String>)
    ensures
        views(list@) == seq![a@, b@],
{
    let mut list: Vec<String> = Vec::new();
    list.push(a.to_string());
    list.push(b.to_string());
    assert(views(list@) =~= seq![a@, b@]);
    list
}

/// Whether a text holds another.
fn holds(text: &Vec<char>, part: &str) -> (r: bool)
    ensures
        r == occurs(text@, part@),
{
    let chars = chars_of(part);
    contains_text(text.as_slice(), chars.as_slice())
}

/// Whether the process was killed for want of memory, as far as that shows.
pub fn looks_oom_like(wait: &WaitResult, cgroup: Option<&CgroupStats>, signals: SignalNumbers) -> (r: bool)
    requires
        cgroup matches Some(stats) ==> stats.memory_events_delta.wf(),
    ensures
        r == oom_like(*wait, cgroup, signals),
{
    let killed = match wait.signal {
        Some(signal) => signal == signals.sigkill,
        None => false,
    };
    let delta: i64 = match cgroup {
        Some(stats) => match stats.memory_events_delta.get("oom_kill") {
            Some(n) => *n,
            None => 0,
        },
        None => 0,
    };
    killed && delta > 0
}

/// The evidence of a kill for want of memory.
pub fn oom_evidence(wait: &WaitResult, cgroup: Option<&CgroupStats>) -> (evidence: Vec<String>)
    ensures
        views(evidence@) == oom_evidence_of(*wait, cgroup),
{
    let mut evidence: Vec<String> = Vec::new();
    if let Some(signal) = wait.signal {
        evidence.push(concat2("signal=", decimal_int_text(signal as i64).as_str()));
    }
    let ghost start = views(evidence@);
    assert(start =~= match wait.signal {
        Some(signal) => seq!["signal="@ + decimal_int(signal as int)],
        None => Seq::empty(),
    });
    if let Some(stats) = cgroup {
        let items = &stats.memory_events_delta.items;
        assert(views(evidence@) =~= start + delta_evidence(items@, 0));
        for i in 0..items.len()
            invariant
                views(evidence@) == start + delta_evidence(items@, i as int),
        {
            let value: i64 = items[i].1;
            if value != 0 {
                let ghost earlier = evidence@;
                let mut text = concat3("memory.events.delta.", items[i].0.as_str(), "=");
                text.append(decimal_int_text(value).as_str());
                evidence.push(text);
                assert(views(evidence@) =~= views(earlier).push(text@));
                assert(views(evidence@) =~= start + delta_evidence(items@, i + 1));
            }
        }
    } else {
        assert(views(evidence@) =~= oom_evidence_of(*wait, cgroup));
    }
    evidence
}

/// Why a process ended as it did, on a machine with these signal numbers.
pub fn classify_with(
    wait: &WaitResult,
    policy: &EffectivePolicy,
    output: &OutputReport,
    cgroup: Option<&CgroupStats>,
    signals: SignalNumbers,
) -> (f: FailureClassification)
    requires
        cgroup matches Some(stats) ==> stats.memory_events_delta.wf(),
    ensures
        f@ == classified(*wait, policy@, output.stderr_tail@, cgroup, signals),
{
    if wait.timed_out {
        return classification(
            FailureKind::Timeout,
            Confidence::High,
            "process exceeded configured timeout and was killed".to_string(),
            one("timed_out=true".to_string()),
        );
    }
    let exited_zero = match wait.exit_code {
        Some(code) => code == 0,
        None => false,
    };
    if exited_zero && wait.signal.is_none() {
        return FailureClassification::success();
    }
    let trapped = match wait.signal {
        Some(signal) => signal == signals.sigsys,
        None => false,
    };
    if trapped {
        return classification(
            FailureKind::SeccompDenied,
            Confidence::High,
            "process received SIGSYS, which usually indicates a seccomp trap".to_string(),
            one("signal=SIGSYS".to_string()),
        );
    }
    if looks_oom_like(wait, cgroup, signals) {
        return classification(
            FailureKind::OomLike,
            Confidence::Medium,
            "process was killed and cgroup memory events suggest an OOM-like termination".to_string(),
            oom_evidence(wait, cgroup),
        );
    }
    let tail = chars_of(output.stderr_tail.as_str());
    let stderr = ascii_lowered(tail.as_slice());
    let eperm = holds(&stderr, "operation not permitted");
    if policy.security.landlock && (holds(&stderr, "permission denied") || eperm) {
        return classification(
            FailureKind::LandlockDenied,
            Confidence::Medium,
            "stderr contains a permission denial while Landlock was enabled".to_string(),
            both("landlock=true", "stderr_permission_denial=true"),
        );
    }
    if policy.security.seccomp_profile == SeccompProfile::Basic && eperm {
        return classification(
            FailureKind::SeccompDenied,
            Confidence::Low,
            "stderr contains EPERM while the basic seccomp profile was enabled".to_string(),
            both("seccomp_profile=basic", "stderr_eperm=true"),
        );
    }
    match wait.signal {
        Some(signal) => {
            let number = decimal_int_text(signal as i64);
            classification(
                FailureKind::Signal,
                Confidence::High,
                concat2("process terminated by signal ", number.as_str()),
                one(concat2("signal=", number.as_str())),
            )
        },
        None => {
            let code: i32 = match wait.exit_code {
                Some(code) => code,
                None => 0,
            };
            let number = decimal_int_text(code as i64);
            classification(
                FailureKind::ExitNonZero,
                Confidence::High,
                concat2("process exited with non-zero status ", number.as_str()),
                one(concat2("exit_code=", number.as_str())),
            )
        },
    }
}

/// Why a process ended as it did, on this machine.
pub fn classify_failure(wait: &WaitResult, policy: &EffectivePolicy, output: &OutputReport, cgroup: Option<&CgroupStats>) -> (f: FailureClassification)
    requires
        cgroup matches Some(stats) ==> stats.memory_events_delta.wf(),
    ensures
        exists|signals: SignalNumbers|
            linux_signals(signals) && f@ == #[trigger] classified(*wait, policy@, output.stderr_tail@, cgroup, signals),
{
    let signals = SignalNumbers { sigsys: sigsys(), sigkill: sigkill() };
    classify_with(wait, policy, output, cgroup, signals)
}

/// Whether the sandbox is to be told to have denied something.
pub open spec fn is_denial(kind: FailureKind) -> bool {
    kind == FailureKind::Timeout || kind == FailureKind::SeccompDenied || kind == FailureKind::LandlockDenied
        || kind == FailureKind::OomLike
}

/// Whether the sandbox is to be told to have denied something.
pub fn reports_denial(kind: FailureKind) -> (r: bool)
    ensures
        r == is_denial(kind),
{
    match kind {
        FailureKind::Timeout | FailureKind::SeccompDenied | FailureKind::LandlockDenied | FailureKind::OomLike => true,
        _ => false,
    }
}

/// A run counts as a success exactly when it exited with zero, without a
/// signal and within its time.
pub proof fn success_means_a_clean_exit(
    wait: WaitResult,
    policy: PolicyView,
    stderr_tail: Seq<char>,
    cgroup: Option<&CgroupStats>,
    signals: SignalNumbers,
)
    ensures
        classified(wait, policy, stderr_tail, cgroup, signals).kind == FailureKind::Success <==> !wait.timed_out
            && wait.exit_code == Some(0i32) && wait.signal is None,
{
}

} // verus!
