use shadox::config::{ConfigError, SandboxProfile, SandboxSpec, SeccompProfile};
use shadox::json::{object, text_json, Json};
use shadox::observer::{EventValue, Observer, ObserverError, ScriptValue};
use shadox::report::{
    Confidence, FailureClassification, FailureKind, OutputReport, ResourceUsage, RunReport,
};
use shadox::run_id::RunId;
use shadox::runner::Runner;
use shadox::trace::{trace_sink, Finding, TraceContext, TraceEvent, TraceLogger, TraceSink};

fn nil() -> RunId {
    RunId { value: 0 }
}

/// Calls the hook of a script and takes what comes of it.
fn ask(observer: &Observer, event: &TraceEvent) -> Result<Vec<Finding>, ObserverError> {
    let call = observer.hook_call(event);
    let mut table = rhai::Map::new();
    for (name, value) in call.table {
        let value = match value {
            EventValue::Unit => rhai::Dynamic::UNIT,
            EventValue::Text(text) => rhai::Dynamic::from(text),
            EventValue::Int(number) => rhai::Dynamic::from(number),
        };
        table.insert(name.into(), value);
    }
    let engine = &observer.engine.engine;
    let mut scope = rhai::Scope::new();
    let result = engine.call_fn::<rhai::Dynamic>(&mut scope, &observer.script.ast, &call.name, (table,));
    Observer::on_event(result.map(value_of).map_err(|error| error.to_string()))
}

fn value_of(value: rhai::Dynamic) -> ScriptValue {
    if value.is_unit() {
        ScriptValue::Unit
    } else if let Some(text) = value.clone().try_cast::<String>() {
        ScriptValue::Text(text)
    } else if let Some(table) = value.clone().try_cast::<rhai::Map>() {
        ScriptValue::Table(table.into_iter().map(|(name, v)| (name.to_string(), value_of(v))).collect())
    } else if let Some(items) = value.try_cast::<rhai::Array>() {
        ScriptValue::Array(items.into_iter().map(value_of).collect())
    } else {
        ScriptValue::Other
    }
}

#[test]
fn effective_profiles_are_agent_native_and_narrow() {
    let spec = SandboxSpec::default();
    let policy = spec.effective_policy();
    assert_eq!(policy.profile, SandboxProfile::AgentDefault);
    assert_eq!(policy.fs.write, vec![".".to_string()]);

    let mut read_only = SandboxSpec { profile: SandboxProfile::ReadOnly, ..SandboxSpec::default() };
    read_only.fs.read.push("/usr/bin".to_string());
    let policy = read_only.effective_policy();
    assert!(policy.fs.write.is_empty());
    assert_eq!(policy.fs.read, vec!["/usr/bin".to_string()]);

    let permissive =
        SandboxSpec { profile: SandboxProfile::PermissiveObserve, ..SandboxSpec::default() };
    assert!(!permissive.effective_policy().security.landlock);
}

#[test]
fn the_working_directory_is_written_by_default() {
    let mut spec = SandboxSpec::default();
    spec.process.cwd = Some("/srv/job".to_string());
    assert_eq!(spec.effective_policy().fs.write, vec!["/srv/job".to_string()]);
    spec.fs.write.push("/tmp".to_string());
    assert_eq!(spec.effective_policy().fs.write, vec!["/tmp".to_string()]);
}

#[test]
fn the_default_request_restricts_and_observes() {
    let spec = SandboxSpec::default();
    assert!(spec.security.no_new_privs);
    assert!(spec.security.landlock);
    assert!(!spec.security.allow_degraded);
    assert_eq!(spec.security.seccomp_profile, SeccompProfile::Basic);
    assert!(spec.observe.capture_stdout);
    assert!(spec.observe.capture_stderr);
    assert!(spec.observe.collect_cgroup);
    assert_eq!(spec.observe.max_trace_output_bytes, Some(1024 * 1024));
    assert_eq!(spec.profile, SandboxProfile::AgentDefault);
}

#[test]
fn a_request_without_a_command_is_refused() {
    let mut spec = SandboxSpec::default();
    assert_eq!(spec.command_line().unwrap_err(), ConfigError::MissingCommand);
    assert_eq!(spec.effective_policy().command_line().unwrap_err(), ConfigError::MissingCommand);
    spec.process.cmd = Some("echo".to_string());
    spec.process.args.push("hi".to_string());
    assert!(spec.command_line().is_ok());
}

#[test]
fn profile_names_are_parsed() {
    assert_eq!(SandboxProfile::parse("read-only"), Ok(SandboxProfile::ReadOnly));
    assert_eq!(SandboxProfile::WorkspaceWrite.name(), "workspace-write");
    assert_eq!("permissive-observe".parse::<SandboxProfile>(), Ok(SandboxProfile::PermissiveObserve));
    assert_eq!(SandboxProfile::parse("x"), Err(ConfigError::UnknownProfile("x".to_string())));
    assert_eq!(SeccompProfile::parse("off"), Ok(SeccompProfile::Off));
    assert_eq!(SeccompProfile::Basic.name(), "basic");
    assert_eq!(SeccompProfile::parse("y"), Err(ConfigError::UnknownSeccompProfile("y".to_string())));
}

#[test]
fn trace_logger_writes_jsonl_and_observer_finding() {
    let observer = Observer::from_source(
        r#"
            fn on_event(event) {
                if event.kind == "stderr.chunk" {
                    return #{ message: "stderr seen", severity: "warn", tags: ["stderr"] };
                }
            }
        "#,
    )
    .unwrap();
    let mut logger = TraceLogger::new(nil());
    let data = object(vec![("text".to_string(), text_json("oops"))]);
    let event = logger.emit("stderr.chunk".to_string(), Some(7), "info".to_string(), data, 1);
    let findings = ask(&observer, &event).unwrap();
    let mut text = event.json().text();
    for noted in logger.note_findings(findings, Some(7), &[2]) {
        text.push('\n');
        text.push_str(&noted.json().text());
    }

    assert!(text.contains("\"schema_version\":1"));
    assert!(text.contains("\"profile\":\"agent-default\""));
    assert!(text.contains("\"kind\":\"stderr.chunk\""));
    assert!(text.contains("\"kind\":\"observer.finding\""));
    assert_eq!(logger.findings()[0].message, "stderr seen");
    assert_eq!(logger.findings()[0].severity, "warn");
    assert_eq!(logger.findings()[0].tags, vec!["stderr".to_string()]);
    assert_eq!(logger.seq, 2);
}

#[test]
fn trace_lines_keep_the_envelope_order() {
    let context = TraceContext::new("read-only".to_string(), 3);
    let event = TraceEvent::with_context(
        &context,
        4,
        nil(),
        "run.start".to_string(),
        None,
        "info".to_string(),
        Json::Object(Vec::new()),
        1790000000000,
    );
    assert_eq!(
        event.json().text(),
        "{\"schema_version\":1,\"shadox_version\":\"0.1.0\",\"profile\":\"read-only\",\"profile_version\":3,\
         \"ts\":1790000000000,\"seq\":4,\"run_id\":\"00000000-0000-0000-0000-000000000000\",\
         \"kind\":\"run.start\",\"pid\":null,\"level\":\"info\",\"data\":{}}"
    );
}

#[test]
fn a_dash_means_standard_output() {
    assert_eq!(trace_sink("-"), TraceSink::Stdout);
    assert_eq!(trace_sink("t.jsonl"), TraceSink::File("t.jsonl".to_string()));
}

#[test]
fn explain_basic_profile_is_stable() {
    let value = Runner::explain(&SandboxSpec::default());
    let seccomp = value.get("seccomp").unwrap();
    let blocked = match seccomp.get("blocked_syscalls") {
        Some(Json::Array(items)) => items,
        _ => panic!("an array"),
    };
    assert!(blocked.iter().any(|item| *item == Json::Text("ptrace".to_string())));
    assert_eq!(value.get("profile"), Some(&Json::Text("agent-default".to_string())));
    assert_eq!(seccomp.get("seccomp_profile"), Some(&Json::Text("basic".to_string())));
    let policy = value.get("effective_policy").unwrap();
    assert_eq!(policy.get("profile"), Some(&Json::Text("agent-default".to_string())));
}

#[test]
fn explain_without_a_filter_blocks_nothing() {
    let mut spec = SandboxSpec::default();
    spec.security.seccomp_profile = SeccompProfile::Off;
    let value = Runner::explain(&spec);
    let seccomp = value.get("seccomp").unwrap();
    assert_eq!(seccomp.get("blocked_syscalls"), Some(&Json::Array(Vec::new())));
    assert_eq!(
        seccomp.get("description"),
        Some(&Json::Text("No seccomp filter is installed.".to_string()))
    );
}

fn report() -> RunReport {
    RunReport {
        schema_version: 1,
        shadox_version: "0.1.0".to_string(),
        profile: "agent-default".to_string(),
        profile_version: 1,
        run_id: nil(),
        command: vec!["echo".to_string(), "hello".to_string()],
        exit_code: Some(0),
        signal: None,
        timed_out: false,
        duration_ms: 7,
        trace_path: "-".to_string(),
        summary_path: "summary.json".to_string(),
        resources: ResourceUsage::default(),
        output: OutputReport {
            stdout_bytes: 6,
            stdout_tail: "hello\n".to_string(),
            ..OutputReport::default()
        },
        failure: FailureClassification {
            kind: FailureKind::Success,
            confidence: Confidence::High,
            reason: "ok".to_string(),
            evidence: Vec::new(),
        },
        denials: Vec::new(),
        findings: Vec::new(),
        hints: Vec::new(),
        fs: None,
    }
}

#[test]
fn run_report_schema_contains_observability_plus_fields() {
    let value: serde_json::Value = serde_json::from_str(&report().to_json().text()).unwrap();
    assert_eq!(value["schema_version"], 1);
    assert_eq!(value["profile"], "agent-default");
    assert_eq!(value["failure"]["kind"], "success");
    assert_eq!(value["output"]["stdout_bytes"], 6);
    assert!(value["resources"].get("cgroup").is_some());
    assert!(value["hints"].is_array());
}

#[test]
fn json_text_is_what_serde_json_writes() {
    let mut value = report();
    value.findings.push(Finding {
        message: "quote \" slash \\ tab \t line \n bell \u{7} snow \u{2603}".to_string(),
        severity: "warn".to_string(),
        tags: vec!["a".to_string(), "b".to_string()],
    });
    value.exit_code = Some(-3);
    let text = value.to_json().text();
    let parsed: serde_json::Value = serde_json::from_str(&text).unwrap();
    assert_eq!(serde_json::to_string(&parsed).unwrap(), text);
    assert_eq!(parsed["findings"][0]["message"], value.findings[0].message.as_str());
    assert_eq!(parsed["exit_code"], -3);
}

#[test]
fn run_is_explicitly_unsupported_off_linux() {
    let mut spec = SandboxSpec::default();
    spec.process.cmd = Some("echo".to_string());
    let err = Runner::run_unsupported(&spec).unwrap_err();
    assert!(err.contains("Linux-only"));
    assert_eq!(err, "shadox run is Linux-only; use WSL2 or a Linux host for sandbox execution");
}

#[test]
fn other_machines_are_reported_as_unsupported() {
    let report = Runner::check_env_unsupported("macos".to_string());
    assert_eq!(report.platform, "macos");
    assert!(!report.supported);
    assert_eq!(report.details.len(), 1);
    assert_eq!(report.details[0].0, "reason");
}

#[test]
fn findings_are_numbered_after_their_event() {
    let observer = Observer::from_source(
        r#"
            fn on_event(event) {
                return [
                    #{ message: "one", severity: "warn", tags: [] },
                    #{ message: "two", severity: "info", tags: ["t"] },
                ];
            }
        "#,
    )
    .unwrap();
    let mut logger = TraceLogger::new(nil());
    let first = logger.emit("a".to_string(), None, "info".to_string(), Json::Null, 1);
    assert_eq!(first.seq, 1);
    let found = ask(&observer, &first).unwrap();
    let noted = logger.note_findings(found, None, &[5, 6]);
    let seen: Vec<(u64, u128, String, String)> =
        noted.into_iter().map(|e| (e.seq, e.ts, e.kind, e.level)).collect();
    assert_eq!(
        seen,
        vec![
            (2, 5, "observer.finding".to_string(), "warn".to_string()),
            (3, 6, "observer.finding".to_string(), "info".to_string()),
        ]
    );
    let next = logger.emit("b".to_string(), None, "info".to_string(), Json::Null, 7);
    assert_eq!(next.seq, 4);
    assert_eq!(logger.findings().len(), 2);
}
