use shadox::json::Json;
use shadox::observer::{
    event_to_map, findings_from_value, is_missing_on_event, EventValue, Observer,
    ObserverError, ScriptValue,
};
use shadox::run_id::RunId;
use shadox::trace::{Finding, TraceEvent};

fn event(kind: &str, pid: Option<u32>) -> TraceEvent {
    TraceEvent::new(
        1,
        RunId { value: 0 },
        kind.to_string(),
        pid,
        "info".to_string(),
        Json::Object(Vec::new()),
        1790000000000,
    )
}

/// Calls the hook of a script and takes what comes of it.
fn ask(observer: &Observer, event: &TraceEvent) -> Result<Vec<Finding>, ObserverError> {
    let call = observer.hook_call(event);
    let mut table = rhai::Map::new();
    for (name, value) in call.table {
        let value = match value {
            EventValue::Unit => rhai::Dynamic::UNIT,
            EventValue::Text(text) => rhai::Dynamic::from(text),
            EventValue::Int(number) => rhai::Dynamic::from(number),
        };
        table.insert(name.into(), value);
    }
    let engine = &observer.engine.engine;
    let mut scope = rhai::Scope::new();
    let result = engine.call_fn::<rhai::Dynamic>(&mut scope, &observer.script.ast, &call.name, (table,));
    Observer::on_event(result.map(value_of).map_err(|error| error.to_string()))
}

fn value_of(value: rhai::Dynamic) -> ScriptValue {
    if value.is_unit() {
        ScriptValue::Unit
    } else if let Some(text) = value.clone().try_cast::<String>() {
        ScriptValue::Text(text)
    } else if let Some(table) = value.clone().try_cast::<rhai::Map>() {
        ScriptValue::Table(table.into_iter().map(|(name, v)| (name.to_string(), value_of(v))).collect())
    } else if let Some(items) = value.try_cast::<rhai::Array>() {
        ScriptValue::Array(items.into_iter().map(value_of).collect())
    } else {
        ScriptValue::Other
    }
}

#[test]
fn observer_can_emit_finding_from_string() {
    let observer = Observer::from_source(
        "fn on_event(event) { if event.kind == \"stderr.chunk\" { return \"stderr seen\"; } }",
    )
    .unwrap();
    let findings = ask(&observer, &event("stderr.chunk", Some(42))).unwrap();
    assert_eq!(findings[0].message, "stderr seen");
    assert!(ask(&observer, &event("stdout.chunk", Some(42))).unwrap().is_empty());
}

#[test]
fn observer_accepts_string_findings() {
    let observer =
        Observer::from_source(r#"fn on_event(event) { return "hello"; }"#).unwrap();
    let findings = ask(&observer, &event("run.start", None)).unwrap();
    assert_eq!(findings[0].message, "hello");
}

#[test]
fn the_script_sees_every_field() {
    let observer = Observer::from_source(
        r#"fn on_event(event) {
            let pid = if event.pid == () { "none" } else { `${event.pid}` };
            [`${event.schema_version} ${event.shadox_version} ${event.profile} ${event.profile_version}`,
             `${event.ts} ${event.seq} ${event.run_id} ${event.kind} ${pid} ${event.level} ${event.data_json}`]
        }"#,
    )
    .unwrap();
    let findings = ask(&observer, &event("run.start", Some(9))).unwrap();
    assert_eq!(findings.len(), 2);
    assert_eq!(findings[0].message, "1 0.1.0 agent-default 1");
    assert_eq!(
        findings[1].message,
        "1790000000000 1 00000000-0000-0000-0000-000000000000 run.start 9 info {}"
    );
    let findings = ask(&observer, &event("run.start", None)).unwrap();
    assert!(findings[1].message.contains("run.start none info"));
}

#[test]
fn a_script_without_the_hook_finds_nothing() {
    let observer = Observer::from_source("fn other(x) { x }").unwrap();
    assert!(ask(&observer, &event("run.start", None)).unwrap().is_empty());
}

#[test]
fn a_script_that_fails_is_reported() {
    let observer = Observer::from_source(r#"fn on_event(event) { throw "boom"; }"#).unwrap();
    let error = ask(&observer, &event("run.start", None)).unwrap_err();
    assert!(matches!(error, ObserverError::Failed(_)));
    assert!(error.message().starts_with("observer script failed: "));
    assert!(error.message().contains("boom"));
}

#[test]
fn a_script_that_does_not_end_is_stopped() {
    let observer = Observer::from_source("fn on_event(event) { loop { } }").unwrap();
    assert!(ask(&observer, &event("run.start", None)).is_err());
    let deep = Observer::from_source("fn down(n) { down(n + 1) } fn on_event(event) { down(0) }").unwrap();
    assert!(ask(&deep, &event("run.start", None)).is_err());
}

#[test]
fn a_script_that_does_not_parse_is_refused() {
    match Observer::from_source("fn on_event(event) {") {
        Err(error) => {
            assert!(matches!(error, ObserverError::Compile(_)));
            assert!(!error.message().is_empty());
        }
        Ok(_) => panic!("the script is cut off"),
    }
}

#[test]
fn events_are_handed_over_by_name() {
    let list = event_to_map(&event("run.start", None));
    let pid = list.iter().find(|pair| pair.0 == "pid").unwrap();
    assert!(matches!(pid.1, EventValue::Unit));
    let seq = list.iter().find(|pair| pair.0 == "seq").unwrap();
    assert!(matches!(seq.1, EventValue::Int(1)));
    assert_eq!(list.len(), 11);
}

fn text(s: &str) -> ScriptValue {
    ScriptValue::Text(s.to_string())
}

#[test]
fn findings_come_from_texts_tables_and_arrays() {
    assert!(findings_from_value(&ScriptValue::Unit).is_empty());
    assert!(findings_from_value(&ScriptValue::Other).is_empty());
    assert!(findings_from_value(&text("  \n")).is_empty());

    let table = ScriptValue::Table(vec![
        ("message".to_string(), text("m")),
        ("tags".to_string(), ScriptValue::Array(vec![text("a"), ScriptValue::Other, text("b")])),
    ]);
    let nested = ScriptValue::Array(vec![text("t"), ScriptValue::Array(vec![table, ScriptValue::Unit])]);
    let found = findings_from_value(&nested);
    assert_eq!(found.len(), 2);
    assert_eq!(found[0].message, "t");
    assert_eq!(found[0].severity, "info");
    assert!(found[0].tags.is_empty());
    assert_eq!(found[1].message, "m");
    assert_eq!(found[1].severity, "info");
    assert_eq!(found[1].tags, vec!["a".to_string(), "b".to_string()]);

    let nameless = ScriptValue::Table(vec![("severity".to_string(), text("warn"))]);
    assert!(findings_from_value(&nameless).is_empty());
}

#[test]
fn a_missing_hook_is_told_by_the_error_text() {
    assert!(is_missing_on_event("Function not found: on_event (map)"));
    assert!(!is_missing_on_event("Function not found: other (map)"));
    assert!(!is_missing_on_event("on_event failed"));
    assert!(Observer::on_event(Err("Function not found: on_event".to_string())).unwrap().is_empty());
    let error = Observer::on_event(Err("stop".to_string())).unwrap_err();
    assert_eq!(error.message(), "observer script failed: stop");
}

#[test]
fn an_event_asks_for_one_call_of_the_hook() {
    let observer = Observer::from_source("fn on_event(event) { }").unwrap();
    let call = observer.hook_call(&event("run.start", Some(3)));
    assert_eq!(call.name, "on_event");
    assert_eq!(call.table, event_to_map(&event("run.start", Some(3))));
    assert_eq!(observer.script.source, "fn on_event(event) { }");
    assert_eq!(observer.engine.engine.max_operations(), 100_000);
    assert_eq!(observer.engine.engine.max_call_levels(), 32);
}
