use shadox::agent::{agent_guide_json, agent_guide_markdown, capabilities_json};
use shadox::cli::{apply_policy_overrides, build_explain_spec, build_spec, PolicyArgs, RunArgs};
use shadox::config::{ConfigError, SandboxProfile, SandboxSpec, SeccompProfile};
use shadox::fuse_adapter::{
    mode_is_readonly, permission_bits, relative_to_string, FileKind, InodeTable, ROOT_INO,
};

fn policy_args() -> PolicyArgs {
    PolicyArgs {
        profile: None,
        timeout_ms: None,
        allow_read: Vec::new(),
        allow_write: Vec::new(),
        allow_degraded: false,
        no_landlock: false,
        seccomp_profile: None,
    }
}

fn run_args(command: &[&str]) -> RunArgs {
    RunArgs {
        trace: None,
        summary: None,
        observe_script: None,
        trace_syscalls: false,
        max_trace_output_bytes: None,
        versioned_workspace: None,
        rollback_on_failure: false,
        commit_on_success: false,
        command: command.iter().map(|word| word.to_string()).collect(),
    }
}

#[test]
fn flags_override_the_request() {
    let mut spec = SandboxSpec::default();
    spec.fs.read.push("/usr".to_string());
    spec.limits.timeout_ms = Some(1);
    let args = PolicyArgs {
        profile: Some(SandboxProfile::ReadOnly),
        timeout_ms: Some(5000),
        allow_read: vec!["/etc".to_string()],
        allow_write: vec![".".to_string()],
        allow_degraded: true,
        no_landlock: true,
        seccomp_profile: Some(SeccompProfile::Off),
    };
    apply_policy_overrides(&mut spec, args);
    assert_eq!(spec.profile, SandboxProfile::ReadOnly);
    assert_eq!(spec.limits.timeout_ms, Some(5000));
    assert_eq!(spec.fs.read, vec!["/usr".to_string(), "/etc".to_string()]);
    assert_eq!(spec.fs.write, vec![".".to_string()]);
    assert!(spec.security.allow_degraded);
    assert!(!spec.security.landlock);
    assert_eq!(spec.security.seccomp_profile, SeccompProfile::Off);

    let mut untouched = SandboxSpec::default();
    apply_policy_overrides(&mut untouched, policy_args());
    assert_eq!(untouched, SandboxSpec::default());
}

#[test]
fn a_run_needs_a_command() {
    let error = build_spec(SandboxSpec::default(), policy_args(), run_args(&[])).unwrap_err();
    assert_eq!(error, ConfigError::MissingCommand);

    let mut base = SandboxSpec::default();
    base.process.cmd = Some("/bin/ls".to_string());
    let spec = build_spec(base, policy_args(), run_args(&[])).unwrap();
    assert_eq!(spec.process.cmd.as_deref(), Some("/bin/ls"));
}

#[test]
fn run_flags_reach_the_request() {
    let mut args = run_args(&["/bin/echo", "a", "b"]);
    args.trace = Some("-".to_string());
    args.summary = Some("s.json".to_string());
    args.observe_script = Some("o.rhai".to_string());
    args.trace_syscalls = true;
    args.max_trace_output_bytes = Some(9);
    args.versioned_workspace = Some("w".to_string());
    args.rollback_on_failure = true;
    args.commit_on_success = true;
    let spec = build_spec(SandboxSpec::default(), policy_args(), args).unwrap();
    assert_eq!(spec.process.cmd.as_deref(), Some("/bin/echo"));
    assert_eq!(spec.process.args, vec!["a".to_string(), "b".to_string()]);
    assert_eq!(spec.observe.trace.as_deref(), Some("-"));
    assert_eq!(spec.observe.summary.as_deref(), Some("s.json"));
    assert_eq!(spec.observe.rhai_script.as_deref(), Some("o.rhai"));
    assert!(spec.observe.trace_syscalls);
    assert_eq!(spec.observe.max_trace_output_bytes, Some(9));
    assert_eq!(spec.versioned_workspace.workspace.as_deref(), Some("w"));
    assert!(spec.versioned_workspace.rollback_on_failure);
    assert!(spec.versioned_workspace.commit_on_success);
}

#[test]
fn an_explanation_needs_no_command() {
    let spec = build_explain_spec(SandboxSpec::default(), policy_args(), Vec::new());
    assert_eq!(spec, SandboxSpec::default());
    let spec = build_explain_spec(SandboxSpec::default(), policy_args(), vec!["ls".to_string()]);
    assert_eq!(spec.process.cmd.as_deref(), Some("ls"));
    assert!(spec.process.args.is_empty());
}

#[test]
fn agent_guide_prints_embedded_markdown_from_any_cwd() {
    let text = agent_guide_markdown();
    assert!(text.contains("# Agent Contract"));
    assert!(text.contains("shadox agent-guide --format markdown"));
    assert!(text.contains("shadox run"));
}

#[test]
fn agent_guide_json_wraps_the_markdown_source() {
    let value: serde_json::Value = serde_json::from_str(&agent_guide_json().text()).unwrap();
    assert_eq!(value["schema_version"], 1);
    assert_eq!(value["kind"], "shadox.agent_guide");
    assert_eq!(value["source"], "docs/agent-contract.md");
    assert!(value["content"].as_str().unwrap().contains("# Agent Contract"));
    assert_eq!(value["content"].as_str().unwrap(), agent_guide_markdown());
}

#[test]
fn capabilities_prints_machine_readable_contract() {
    let value: serde_json::Value = serde_json::from_str(&capabilities_json().text()).unwrap();
    assert_eq!(value["schema_version"], 1);
    assert_eq!(value["kind"], "shadox.agent_capabilities");
    assert_eq!(value["guide"]["command"], "shadox agent-guide --format markdown");
    assert!(value["commands"].as_array().unwrap().iter().any(|command| {
        command["name"] == "run" && command["purpose"].as_str().unwrap().contains("workspace")
    }));
}

#[test]
fn inode_numbers_follow_their_paths() {
    let mut table = InodeTable::new();
    assert_eq!(table.relative_for_ino(ROOT_INO).as_deref(), Some(""));
    let a = table.remember_path("a".to_string());
    assert_eq!(a, 2);
    let b = table.remember_path("b".to_string());
    assert_ne!(a, b);
    assert_eq!(table.remember_path("a".to_string()), a);
    assert_eq!(table.path_for_ino("/back", a).as_deref(), Some("/back/a"));
    assert_eq!(table.child_relative(ROOT_INO, "x").as_deref(), Some("x"));
    assert_eq!(table.child_relative(a, "x").as_deref(), Some("a/x"));
    assert_eq!(
        table.child_path("/back", a, "x"),
        Some(("/back/a/x".to_string(), "a/x".to_string()))
    );
    assert_eq!(table.child_path("/back", 99, "x"), None);

    table.move_path("a", "c".to_string());
    assert_eq!(table.relative_for_ino(a).as_deref(), Some("c"));
    assert_eq!(table.remember_path("c".to_string()), a);
    table.forget_path("c");
    assert_eq!(table.relative_for_ino(a), None);
    assert_eq!(table.relative_for_ino(b).as_deref(), Some("b"));
    table.forget_path("missing");
    let again = table.remember_path("c".to_string());
    assert_eq!(again, 4);
}

#[test]
fn directories_are_listed_with_their_dots() {
    let mut table = InodeTable::new();
    let children = vec![("d".to_string(), FileKind::Directory), ("f".to_string(), FileKind::RegularFile)];
    let list = table.list_directory(ROOT_INO, children).unwrap();
    let shown: Vec<(u64, FileKind, &str)> =
        list.iter().map(|entry| (entry.ino, entry.kind, entry.name.as_str())).collect();
    assert_eq!(
        shown,
        vec![
            (ROOT_INO, FileKind::Directory, "."),
            (2, FileKind::Directory, "d"),
            (3, FileKind::RegularFile, "f"),
        ]
    );
    let below = table.list_directory(2, vec![("x".to_string(), FileKind::Symlink)]).unwrap();
    assert_eq!(below[1].name, "..");
    assert_eq!(below[1].ino, ROOT_INO);
    assert_eq!(table.relative_for_ino(below[2].ino).as_deref(), Some("d/x"));
    assert!(table.list_directory(77, Vec::new()).is_none());

    table.forget_path("f");
    let children = vec![("f".to_string(), FileKind::RegularFile), ("d".to_string(), FileKind::Directory)];
    let list = table.list_directory(ROOT_INO, children).unwrap();
    assert_eq!(list[1].ino, 5);
    assert_eq!(list[2].ino, 2);
    assert_eq!(table.next_ino, 6);
    assert_eq!(table.relative_for_ino(3), None);
}

#[test]
fn modes_are_read() {
    assert!(mode_is_readonly(0o100444));
    assert!(!mode_is_readonly(0o100644));
    assert!(!mode_is_readonly(0o002));
    assert_eq!(permission_bits(0o100755), 0o755);
    assert_eq!(relative_to_string("./a//b/../c"), "a/b/c");
    assert_eq!(relative_to_string(""), "");
}
