use shadox::config::{SandboxProfile, SandboxSpec};
use shadox::diagnostics::diagnostic_hints;
use shadox::report::{Confidence, FailureClassification, FailureKind, OutputReport};

fn failure(kind: FailureKind) -> FailureClassification {
    FailureClassification {
        kind,
        confidence: Confidence::Medium,
        reason: String::new(),
        evidence: Vec::new(),
    }
}

#[test]
fn hints_explain_likely_landlock_denial() {
    let policy = SandboxSpec::default().effective_policy();
    let failure = FailureClassification {
        kind: FailureKind::LandlockDenied,
        confidence: Confidence::Medium,
        reason: "permission denied".to_string(),
        evidence: vec!["landlock=true".to_string()],
    };

    let hints = diagnostic_hints(&failure, &policy, &OutputReport::default());

    assert!(hints.iter().any(|hint| hint.code == "landlock_fs_allowlist"));
}

#[test]
fn hints_call_out_permissive_observe_profile() {
    let spec = SandboxSpec { profile: SandboxProfile::PermissiveObserve, ..SandboxSpec::default() };
    let policy = spec.effective_policy();

    let hints =
        diagnostic_hints(&FailureClassification::success(), &policy, &OutputReport::default());

    assert!(hints.iter().any(|hint| hint.code == "permissive_observe_profile"));
}

#[test]
fn a_clean_run_gives_no_hint() {
    let policy = SandboxSpec::default().effective_policy();
    let hints =
        diagnostic_hints(&FailureClassification::success(), &policy, &OutputReport::default());
    assert!(hints.is_empty());
}

#[test]
fn every_failure_gives_its_hint() {
    let policy = SandboxSpec::default().effective_policy();
    for (kind, code) in [
        (FailureKind::Timeout, "timeout_budget_exhausted"),
        (FailureKind::SeccompDenied, "seccomp_profile_blocked_syscall"),
        (FailureKind::LandlockDenied, "landlock_fs_allowlist"),
        (FailureKind::OomLike, "oom_like_termination"),
        (FailureKind::ExitNonZero, "non_zero_exit"),
        (FailureKind::Signal, "signal_termination"),
    ] {
        let hints = diagnostic_hints(&failure(kind), &policy, &OutputReport::default());
        assert_eq!(hints.len(), 1);
        assert_eq!(hints[0].code, code);
    }
}

#[test]
fn cut_output_is_pointed_out() {
    let policy = SandboxSpec::default().effective_policy();
    let output = OutputReport { stdout_truncated: true, ..OutputReport::default() };
    let hints = diagnostic_hints(&FailureClassification::success(), &policy, &output);
    assert_eq!(hints.len(), 1);
    assert_eq!(hints[0].code, "output_tail_truncated");
    assert_eq!(hints[0].tags, vec!["output".to_string(), "trace".to_string()]);
}
