use shadox::config::{LimitsSpec, SandboxProfile, SandboxSpec, SeccompProfile};
use shadox::json::Json;
use shadox::report::{CgroupStats, Confidence, FailureClassification, FailureKind, OutputReport, RunReport};
use shadox::run_id::RunId;
use shadox::runner::cgroup::{
    deltas_fit, diff_u64_maps, discover_cgroup_path, memory_event_counts, read_cgroup_stats,
    read_key_value_u64, read_single_u64, CgroupTexts,
};
use shadox::runner::child::{apply_rlimits, child_steps, ChildStep, LimitedResource};
use shadox::runner::classify::{classify_failure, reports_denial};
use shadox::runner::driver::{closing, conclusion, launch, opening, RunAction};
use shadox::runner::events::{
    closing_events, failure_denied, fs_checkpoint, policy_events, proc_sample_event, process_spawn,
    run_start, timeout_denied,
};
use shadox::runner::landlock::{
    landlock_plan, landlock_supported_mask, write_access_mask, PreparedSandbox, ACCESS_EXECUTE,
    ACCESS_READ_DIR, ACCESS_READ_FILE, ACCESS_REFER, ACCESS_TRUNCATE, ACCESS_WRITE_FILE,
};
use shadox::runner::output::{append_tail, OutputAccumulator, TraceBudget, TAIL_LIMIT_CHARS};
use shadox::runner::plan::{
    command_list, command_succeeded, default_run_dir, resource_usage, run_paths, run_report,
    sample_interval_ms, summary_goes_to_stderr, EnvFacts, RunFacts, RunPaths, Runner,
};
use shadox::runner::procfs::{
    proc_sample, process_tree, read_io_bytes, read_ppid, read_status_rss_kb, ProcFacts,
};
use shadox::runner::seccomp::{
    basic_filter, blocked_syscall_names, blocked_syscall_numbers, filter_program, ALLOW, TRAP,
};
use shadox::runner::wait::{timeval_ms, wait_result, wait_step, CpuUsage, Poll, WaitResult, WaitStep};
use shadox::string_map::StringMap;

fn usage() -> CpuUsage {
    CpuUsage { user_sec: 1, user_usec: 2500, system_sec: 0, system_usec: 999, max_rss_kb: 77 }
}

fn wait(exit_code: Option<i32>, signal: Option<i32>, timed_out: bool) -> WaitResult {
    WaitResult { exit_code, signal, timed_out, usage: None }
}

fn cgroup(delta: &[(&str, i64)]) -> CgroupStats {
    let mut memory_events_delta: StringMap<i64> = StringMap::new();
    for (key, value) in delta {
        memory_events_delta.insert(key.to_string(), *value);
    }
    CgroupStats {
        path: None,
        cpu_usage_usec: None,
        cpu_user_usec: None,
        cpu_system_usec: None,
        memory_current_bytes: None,
        memory_peak_bytes: None,
        memory_events: StringMap::new(),
        memory_events_delta,
        pids_current: None,
    }
}

#[test]
fn wait_statuses_are_taken_apart() {
    let exited = wait_result(7 << 8, false, usage());
    assert_eq!(exited.exit_code, Some(7));
    assert_eq!(exited.signal, None);
    let killed = wait_result(9, true, usage());
    assert_eq!(killed.exit_code, None);
    assert_eq!(killed.signal, Some(9));
    assert!(killed.timed_out);
    let dumped = wait_result(31 | 0x80, false, usage());
    assert_eq!(dumped.signal, Some(31));
}

#[test]
fn a_process_is_killed_when_its_time_is_up() {
    assert!(matches!(wait_step(Poll::Running, false, false), WaitStep::Again));
    assert!(matches!(wait_step(Poll::Running, false, true), WaitStep::Kill));
    assert!(matches!(wait_step(Poll::Running, true, true), WaitStep::Again));
    assert!(matches!(wait_step(Poll::Failed, false, true), WaitStep::Fail));
    match wait_step(Poll::Ended { status: 0, usage: usage() }, true, true) {
        WaitStep::Done(result) => {
            assert_eq!(result.exit_code, Some(0));
            assert!(result.timed_out);
        }
        _ => panic!("it has ended"),
    }
}

#[test]
fn processor_time_is_given_in_milliseconds() {
    assert_eq!(timeval_ms(1, 2500), 1002);
    assert_eq!(timeval_ms(0, 999), 0);
    let used = resource_usage(Some(usage()), &None, None);
    assert_eq!(used.user_cpu_ms, Some(1002));
    assert_eq!(used.system_cpu_ms, Some(0));
    assert_eq!(used.max_rss_kb, Some(77));
    assert_eq!(used.read_bytes, None);
}

#[test]
fn failures_are_classified() {
    let policy = SandboxSpec::default().effective_policy();
    let quiet = OutputReport::default();
    let kind = |w: &WaitResult, o: &OutputReport, c: Option<&CgroupStats>| classify_failure(w, &policy, o, c).kind;

    assert_eq!(kind(&wait(Some(0), None, false), &quiet, None), FailureKind::Success);
    assert_eq!(kind(&wait(Some(1), None, false), &quiet, None), FailureKind::ExitNonZero);
    assert_eq!(kind(&wait(None, Some(9), true), &quiet, None), FailureKind::Timeout);
    assert_eq!(kind(&wait(None, Some(15), false), &quiet, None), FailureKind::Signal);
    assert_eq!(kind(&wait(None, Some(31), false), &quiet, None), FailureKind::SeccompDenied);
    let oom = cgroup(&[("oom_kill", 1)]);
    assert_eq!(kind(&wait(None, Some(9), false), &quiet, Some(&oom)), FailureKind::OomLike);
    let denied = OutputReport {
        stderr_tail: "cat: /etc/shadow: Permission Denied\n".to_string(),
        ..OutputReport::default()
    };
    assert_eq!(kind(&wait(Some(1), None, false), &denied, None), FailureKind::LandlockDenied);
    assert_eq!(kind(&wait(Some(0), None, false), &denied, None), FailureKind::Success);

    let seccomp = classify_failure(&wait(None, Some(31), false), &policy, &quiet, None);
    assert_eq!(seccomp.confidence, Confidence::High);
    let mut open = SandboxSpec::default();
    open.security.landlock = false;
    let open = open.effective_policy();
    assert_eq!(
        classify_failure(&wait(Some(1), None, false), &open, &denied, None).kind,
        FailureKind::ExitNonZero
    );
}

#[test]
fn denials_are_reported() {
    assert!(reports_denial(FailureKind::SeccompDenied));
    assert!(reports_denial(FailureKind::LandlockDenied));
    assert!(reports_denial(FailureKind::Timeout));
    assert!(reports_denial(FailureKind::OomLike));
    assert!(!reports_denial(FailureKind::ExitNonZero));
    assert!(!reports_denial(FailureKind::Success));
}

#[test]
fn landlock_masks_follow_the_kernel() {
    assert_eq!(write_access_mask(1) & ACCESS_REFER, 0);
    assert_ne!(write_access_mask(2) & ACCESS_REFER, 0);
    assert_eq!(write_access_mask(2) & ACCESS_TRUNCATE, 0);
    assert_ne!(write_access_mask(3) & ACCESS_TRUNCATE, 0);

    let mut spec = SandboxSpec::default();
    spec.fs.write.push("/w".to_string());
    assert_eq!(landlock_supported_mask(1, &spec.fs) & ACCESS_READ_FILE, 0);
    spec.fs.read.push("/r".to_string());
    let plan = landlock_plan(1, &spec.fs).unwrap();
    assert_ne!(plan.handled & ACCESS_READ_FILE, 0);
    let read = plan.rules.iter().find(|rule| rule.path == "/r").unwrap();
    assert_eq!(read.access, ACCESS_EXECUTE | ACCESS_READ_FILE | ACCESS_READ_DIR);
    let write = plan.rules.iter().find(|rule| rule.path == "/w").unwrap();
    assert_ne!(write.access & ACCESS_WRITE_FILE, 0);
    assert_eq!(write.access & !plan.handled, 0);
    assert_eq!(plan.rules.len(), 2);
}

#[test]
fn a_missing_primitive_fails_the_run_unless_allowed() {
    let ready = PreparedSandbox::prepare(Some(Ok(5)), false).unwrap();
    assert_eq!(ready.landlock_ruleset_fd, Some(5));
    assert!(ready.degraded.is_empty());
    assert!(PreparedSandbox::prepare(Some(Err("no".to_string())), false).is_err());
    let degraded = PreparedSandbox::prepare(Some(Err("no".to_string())), true).unwrap();
    assert_eq!(degraded.landlock_ruleset_fd, None);
    assert_eq!(degraded.degraded.len(), 1);
    assert!(PreparedSandbox::prepare(None, false).unwrap().degraded.is_empty());
}

/// Runs a filter on a system call number.
fn verdict(program: &[shadox::runner::seccomp::FilterOp], number: u32) -> u32 {
    let mut at: usize = 0;
    let mut word: u32 = 0;
    loop {
        let op = &program[at];
        at += 1;
        match op.code {
            0x20 => word = if op.k == 0 { number } else { 0 },
            0x15 => at += if word == op.k { op.jt as usize } else { op.jf as usize },
            0x06 => return op.k,
            _ => panic!("unknown operation"),
        }
    }
}

#[test]
fn the_filter_traps_the_listed_calls() {
    let program = filter_program(&[101, 321]);
    assert_eq!(verdict(&program, 101), TRAP);
    assert_eq!(verdict(&program, 321), TRAP);
    assert_eq!(verdict(&program, 1), ALLOW);
    assert_eq!(verdict(&filter_program(&[]), 1), ALLOW);

    let basic = basic_filter();
    assert_eq!(verdict(&basic, libc::SYS_ptrace as u32), TRAP);
    assert_eq!(verdict(&basic, libc::SYS_kexec_load as u32), TRAP);
    assert_eq!(verdict(&basic, libc::SYS_bpf as u32), TRAP);
    assert_eq!(verdict(&basic, libc::SYS_perf_event_open as u32), TRAP);
    assert_eq!(verdict(&basic, libc::SYS_mount as u32), TRAP);
    assert_eq!(verdict(&basic, libc::SYS_umount2 as u32), TRAP);
    assert_eq!(verdict(&basic, libc::SYS_reboot as u32), TRAP);
    assert_eq!(verdict(&basic, libc::SYS_init_module as u32), TRAP);
    assert_eq!(verdict(&basic, libc::SYS_finit_module as u32), TRAP);
    assert_eq!(verdict(&basic, libc::SYS_delete_module as u32), TRAP);
    assert_eq!(verdict(&basic, libc::SYS_read as u32), ALLOW);
    assert_eq!(blocked_syscall_names().len(), 10);
    let numbers = blocked_syscall_numbers();
    assert_eq!(numbers.len(), 10);
    assert_eq!(numbers[0], libc::SYS_ptrace as i64);
    assert_eq!(numbers[4], libc::SYS_mount as i64);
    assert_eq!(numbers[9], libc::SYS_delete_module as i64);
}

#[test]
fn the_child_takes_its_steps_in_order() {
    let mut spec = SandboxSpec::default();
    spec.limits = LimitsSpec {
        timeout_ms: None,
        cpu_time_secs: Some(3),
        address_space_bytes: None,
        open_files: Some(64),
        file_size_bytes: None,
        max_processes: None,
    };
    assert_eq!(
        apply_rlimits(&spec.limits),
        vec![
            ChildStep::Limit(LimitedResource::CpuTime, 3),
            ChildStep::Limit(LimitedResource::OpenFiles, 64),
        ]
    );
    let steps = child_steps(&spec.limits, &spec.security, true);
    assert_eq!(
        steps,
        vec![
            ChildStep::NewProcessGroup,
            ChildStep::Limit(LimitedResource::CpuTime, 3),
            ChildStep::Limit(LimitedResource::OpenFiles, 64),
            ChildStep::NoNewPrivileges,
            ChildStep::RestrictFilesystem,
            ChildStep::FilterSystemCalls,
        ]
    );
    spec.security.no_new_privs = false;
    spec.security.seccomp_profile = SeccompProfile::Off;
    assert_eq!(child_steps(&spec.limits, &spec.security, false).len(), 3);
}

#[test]
fn proc_files_are_read() {
    assert_eq!(read_ppid("42 (a) b) S 7 42 42"), Some(7));
    assert_eq!(read_ppid("nothing"), None);
    assert_eq!(read_status_rss_kb("Name:\tx\nVmRSS:\t  123 kB\n"), Some(123));
    assert_eq!(read_status_rss_kb("Name:\tx\n"), Some(0));
    assert_eq!(read_status_rss_kb("VmRSS: many kB\n"), None);
    assert_eq!(read_io_bytes("rchar: 1\nread_bytes: 20\nwrite_bytes: 30\n"), Some((20, 30)));
}

#[test]
fn a_process_tree_holds_every_descendant() {
    let pairs = vec![(2, 1), (3, 2), (4, 3), (9, 8), (5, 1)];
    let mut tree = process_tree(1, &pairs);
    tree.sort();
    assert_eq!(tree, vec![1, 2, 3, 4, 5]);
    assert_eq!(process_tree(7, &pairs), vec![7]);
    assert_eq!(process_tree(1, &[(1, 1)]), vec![1]);
}

#[test]
fn samples_add_up_over_the_tree() {
    let facts = vec![
        ProcFacts { rss_kb: Some(10), io_bytes: Some((1, 2)) },
        ProcFacts { rss_kb: None, io_bytes: None },
        ProcFacts { rss_kb: Some(5), io_bytes: Some((3, 4)) },
    ];
    let sample = proc_sample(vec![1, 2, 3], &facts);
    assert_eq!(sample.rss_kb, 15);
    assert_eq!(sample.read_bytes, 4);
    assert_eq!(sample.write_bytes, 6);
    let event = proc_sample_event(&sample, &None);
    assert_eq!(event.kind, "proc.sample");
    assert_eq!(event.data.get("rss_kb"), Some(&Json::UInt(15)));
}

#[test]
fn cgroup_files_are_read() {
    assert_eq!(discover_cgroup_path("1:cpu:/x\n0::/user.slice\n").as_deref(), Some("/sys/fs/cgroup/user.slice"));
    assert_eq!(discover_cgroup_path("1:cpu:/x\n"), None);
    assert_eq!(read_single_u64(" 17\n"), Some(17));
    assert_eq!(read_single_u64("max\n"), None);
    let values = read_key_value_u64("usage_usec 5\nbroken\nuser_usec x\nsystem_usec 7\n");
    assert_eq!(values.get("usage_usec"), Some(&5));
    assert_eq!(values.get("system_usec"), Some(&7));
    assert_eq!(values.len(), 2);

    let before = memory_event_counts(&Some("oom_kill 1\nlow 4\n".to_string()));
    let texts = CgroupTexts {
        memory_events: Some("oom_kill 3\nlow 2\n".to_string()),
        cpu_stat: Some("usage_usec 5\nuser_usec 3\nsystem_usec 2\n".to_string()),
        memory_current: Some("100\n".to_string()),
        memory_peak: None,
        pids_current: Some("4\n".to_string()),
    };
    let after = memory_event_counts(&texts.memory_events);
    assert!(deltas_fit(&before, &after));
    let delta = diff_u64_maps(&before, &after);
    assert_eq!(delta.get("oom_kill"), Some(&2));
    assert_eq!(delta.get("low"), Some(&-2));
    let stats = read_cgroup_stats("/sys/fs/cgroup/x", &texts, Some(&before));
    assert_eq!(stats.path.as_deref(), Some("/sys/fs/cgroup/x"));
    assert_eq!(stats.cpu_user_usec, Some(3));
    assert_eq!(stats.memory_current_bytes, Some(100));
    assert_eq!(stats.memory_peak_bytes, None);
    assert_eq!(stats.memory_events_delta.get("oom_kill"), Some(&2));
}

#[test]
fn tails_keep_the_last_characters() {
    let mut tail = String::new();
    let mut cut = false;
    append_tail(&mut tail, &mut cut, "hello\n");
    assert_eq!(tail, "hello\n");
    assert!(!cut);
    let long = "x".repeat(TAIL_LIMIT_CHARS);
    append_tail(&mut tail, &mut cut, &long);
    assert_eq!(tail, long);
    assert!(cut);
}

#[test]
fn output_is_counted_in_bytes_and_kept_as_text() {
    let mut output = OutputAccumulator::default();
    output.push("stdout.chunk", b"ab\xffc");
    output.push("stderr.chunk", b"e");
    let report = output.report();
    assert_eq!(report.stdout_bytes, 4);
    assert_eq!(report.stderr_bytes, 1);
    assert_eq!(report.stdout_tail, "ab\u{fffd}c");
    assert_eq!(report.stderr_tail, "e");
    assert!(!report.stdout_truncated);
}

#[test]
fn trace_text_is_budgeted() {
    let mut budget = TraceBudget { remaining: Some(5) };
    let first = budget.chunk_data(b"abc");
    assert_eq!(first.get("text"), Some(&Json::Text("abc".to_string())));
    assert_eq!(first.get("bytes"), Some(&Json::UInt(3)));
    let second = budget.chunk_data(b"defg");
    assert_eq!(second.get("text"), Some(&Json::Text("de".to_string())));
    assert_eq!(second.get("bytes"), Some(&Json::UInt(4)));
    assert_eq!(second.get("truncated"), Some(&Json::Bool(true)));
    assert_eq!(second.get("omitted_bytes"), Some(&Json::UInt(2)));
    assert_eq!(budget.remaining, Some(0));
    let mut unlimited = TraceBudget { remaining: None };
    assert_eq!(unlimited.chunk_data(b"xyz").get("text"), Some(&Json::Text("xyz".to_string())));
}

#[test]
fn runs_have_their_own_directory() {
    let run = RunId { value: 0x0123_4567_89ab_4def_8123_4567_89ab_cdef };
    let dir = default_run_dir(run, 1790000000);
    assert_eq!(dir, ".shadox/runs/1790000000-01234567-89ab-4def-8123-456789abcdef");
    assert_eq!(
        default_run_dir(RunId { value: 0 }, 1790000000),
        ".shadox/runs/1790000000-00000000-0000-0000-0000-000000000000"
    );
    let policy = SandboxSpec::default().effective_policy();
    let paths = run_paths(&policy, run, 1790000000);
    assert_eq!(paths.trace, format!("{dir}/trace.jsonl"));
    assert_eq!(paths.summary, format!("{dir}/summary.json"));
    let mut spec = SandboxSpec::default();
    spec.observe.trace = Some("-".to_string());
    let paths = run_paths(&spec.effective_policy(), run, 0);
    assert_eq!(paths.trace, "-");
    assert!(summary_goes_to_stderr(&paths.trace));
    assert!(!summary_goes_to_stderr(&paths.summary));
}

#[test]
fn samples_are_not_taken_too_often() {
    assert_eq!(sample_interval_ms(0), 10);
    assert_eq!(sample_interval_ms(10), 10);
    assert_eq!(sample_interval_ms(250), 250);
}

fn finished() -> RunReport {
    let policy = SandboxSpec::default().effective_policy();
    run_report(
        &policy,
        RunFacts {
            run_id: RunId { value: 0 },
            cmd: "/bin/echo".to_string(),
            args: vec!["hi".to_string()],
            wait: wait(Some(0), None, false),
            duration_ms: 12,
            paths: RunPaths { trace: "t".to_string(), summary: "s".to_string() },
            resources: resource_usage(None, &None, None),
            output: OutputReport::default(),
            failure: FailureClassification::success(),
            findings: Vec::new(),
            fs: None,
        },
    )
}

#[test]
fn reports_hold_the_facts_of_the_run() {
    let report = finished();
    assert_eq!(report.command, vec!["/bin/echo".to_string(), "hi".to_string()]);
    assert_eq!(report.profile, "agent-default");
    assert_eq!(report.schema_version, 1);
    assert_eq!(report.shadox_version, "0.1.0");
    assert_eq!(report.duration_ms, 12);
    assert_eq!(report.trace_path, "t");
    assert_eq!(report.exit_code, Some(0));
    assert!(report.hints.is_empty());
    assert_eq!(command_list("a", &vec!["b".to_string()]), vec!["a", "b"]);
}

#[test]
fn a_run_ends_with_its_summary() {
    let report = finished();
    let list = closing_events(&report);
    let kinds: Vec<&str> = list.iter().map(|draft| draft.kind.as_str()).collect();
    assert_eq!(kinds.last(), Some(&"run.summary"));
    assert!(kinds.contains(&"process.exit"));
}

#[test]
fn events_tell_the_run() {
    let mut spec = SandboxSpec { profile: SandboxProfile::WorkspaceWrite, ..SandboxSpec::default() };
    spec.observe.trace_syscalls = true;
    let policy = spec.effective_policy();
    let start = run_start(&policy, "/bin/ls", &Vec::new(), "t", "s");
    assert_eq!(start.kind, "run.start");
    let kinds: Vec<String> = policy_events(&policy, &vec!["no landlock".to_string()])
        .into_iter()
        .map(|draft| draft.kind)
        .collect();
    assert_eq!(kinds.iter().filter(|kind| *kind == "sandbox.degraded").count(), 2);
    assert!(kinds.contains(&"sandbox.policy".to_string()));
    assert_eq!(process_spawn(7).kind, "process.spawn");
    assert_eq!(timeout_denied(Some(5)).kind, "sandbox.denied");
    assert_eq!(failure_denied(&FailureClassification::success()).kind, "sandbox.denied");
    assert_eq!(fs_checkpoint("/w", "c").kind, "fs.checkpoint");
}

#[test]
fn only_success_counts_as_success() {
    assert!(command_succeeded(&FailureClassification::success()));
    let policy = SandboxSpec::default().effective_policy();
    let failed = classify_failure(&wait(Some(2), None, false), &policy, &OutputReport::default(), None);
    assert!(!command_succeeded(&failed));
}

#[test]
fn the_environment_is_reported() {
    let report = Runner::check_env(&EnvFacts {
        kernel: "6.1".to_string(),
        landlock_abi: Some(3),
        max_user_namespaces: None,
        unprivileged_userns_clone: Some("1".to_string()),
        cgroup_v2: true,
        cgroup_path: None,
    });
    assert_eq!(report.platform, "linux");
    assert!(report.supported);
    assert!(report.details.iter().any(|pair| pair.0 == "landlock_abi"));
}

fn names(actions: &[RunAction]) -> Vec<String> {
    actions
        .iter()
        .map(|action| match action {
            RunAction::MakeParent(path) => format!("parent {path}"),
            RunAction::LoadObserver(path) => format!("observer {path}"),
            RunAction::OpenTrace(path) => format!("trace {path}"),
            RunAction::Emit(draft) => draft.kind.clone(),
            RunAction::BeginWorkspace(path) => format!("begin {path}"),
            RunAction::PrepareLandlock => "landlock".to_string(),
            RunAction::Spawn(fd) => format!("spawn {fd:?}"),
            RunAction::FinishWorkspace { succeeded, rollback_on_failure, commit_on_success } => {
                format!("finish {succeeded} {rollback_on_failure} {commit_on_success}")
            }
            RunAction::WriteSummary(path) => format!("summary {path}"),
        })
        .collect()
}

#[test]
fn a_run_takes_its_course() {
    let mut spec = SandboxSpec::default();
    spec.observe.rhai_script = Some("o.rhai".to_string());
    spec.versioned_workspace.workspace = Some("w".to_string());
    spec.versioned_workspace.rollback_on_failure = true;
    let policy = spec.effective_policy();
    let paths = RunPaths { trace: "t".to_string(), summary: "s".to_string() };
    assert_eq!(
        names(&opening(&policy, "ls", &Vec::new(), &paths)),
        vec!["parent t", "parent s", "observer o.rhai", "trace t", "run.start", "begin w", "landlock"]
    );
    let streamed = RunPaths { trace: "-".to_string(), summary: "s".to_string() };
    assert_eq!(names(&opening(&policy, "ls", &Vec::new(), &streamed))[0], "parent s");

    let launched = launch(&policy, Some(Ok(7)), &Some("/sys/fs/cgroup".to_string())).unwrap();
    assert_eq!(names(&launched), vec!["sandbox.policy", "cgroup.detected", "spawn Some(7)"]);

    let failed = classify_failure(&wait(Some(1), None, false), &policy, &OutputReport::default(), None);
    assert_eq!(names(&conclusion(&policy, &failed)), vec!["finish false true false"]);
    let killed = classify_failure(&wait(None, Some(9), true), &policy, &OutputReport::default(), None);
    assert_eq!(names(&conclusion(&policy, &killed)), vec!["sandbox.denied", "finish false true false"]);

    assert_eq!(names(&closing(&finished())), vec!["process.exit", "run.summary", "summary s"]);
}

#[test]
fn a_run_fails_closed() {
    let mut spec = SandboxSpec::default();
    let strict = spec.effective_policy();
    let error = launch(&strict, Some(Err("no landlock".to_string())), &None).unwrap_err();
    assert_eq!(error, "no landlock");

    spec.security.allow_degraded = true;
    let lenient = spec.effective_policy();
    let launched = launch(&lenient, Some(Err("no landlock".to_string())), &None).unwrap();
    assert_eq!(names(&launched), vec!["sandbox.degraded", "sandbox.policy", "spawn None"]);
    match &launched[0] {
        RunAction::Emit(draft) => assert_eq!(
            draft.data.get("reason"),
            Some(&Json::Text("landlock disabled: no landlock".to_string()))
        ),
        _ => panic!("an event"),
    }
}
