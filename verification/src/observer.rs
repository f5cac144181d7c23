//! Observation scripts: a script looks at each event and returns findings.

use crate::json::json_text;
use crate::number::{decimal, decimal_text};
use crate::run_id::hyphenated;
use crate::text::{
    chars_of, concat2, contains_text, occurs, same_text, trim, trimmed, views,
};
use crate::trace::{finding_views, Finding, FindingView, TraceEvent, TraceEventView};
use vstd::prelude::*;

verus! {

/// `rhai::Engine`.
#[verifier::external_type_specification]
#[verifier::external_body]
pub struct ExEngine(rhai::Engine);

/// `rhai::AST`.
#[verifier::external_type_specification]
#[verifier::external_body]
pub struct ExAst(rhai::AST);

/// `rhai::ParseError`.
#[verifier::external_type_specification]
#[verifier::external_body]
pub struct ExParseError(rhai::ParseError);

/// What a script returns, as far as findings depend on it.
#[derive(Debug, PartialEq, Eq)]
pub enum ScriptValue {
    Unit,
    Text(String),
    Table(Vec<(String, ScriptValue)>),
    Array(Vec<ScriptValue>),
    Other,
}

/// The mathematical value of what a script returns.
pub enum ScriptView {
    Unit,
    Text(Seq<char>),
    Table(Seq<(Seq<char>, ScriptView)>),
    Array(Seq<ScriptView>),
    Other,
}

/// The mathematical value of what a script returns.
pub open spec fn script_view(v: ScriptValue) -> ScriptView
    decreases v,
{
    match v {
        ScriptValue::Unit => ScriptView::Unit,
        ScriptValue::Text(s) => ScriptView::Text(s@),
        ScriptValue::Table(pairs) => ScriptView::Table(
            Seq::new(
                pairs@.len(),
                |i: int|
                    if 0 <= i < pairs@.len() {
                        (pairs@[i].0@, script_view(pairs@[i].1))
                    } else {
                        (Seq::empty(), ScriptView::Unit)
                    },
            ),
        ),
        ScriptValue::Array(items) => ScriptView::Array(
            Seq::new(
                items@.len(),
                |i: int|
                    if 0 <= i < items@.len() {
                        script_view(items@[i])
                    } else {
                        ScriptView::Unit
                    },
            ),
        ),
        ScriptValue::Other => ScriptView::Other,
    }
}

impl View for ScriptValue {
    type V = ScriptView;

    open spec fn view(&self) -> ScriptView {
        script_view(*self)
    }
}

/// One value of the event that a script is handed.
#[derive(Debug, PartialEq, Eq)]
pub enum EventValue {
    Unit,
    Text(String),
    Int(i64),
}

/// The mathematical value of an event's value.
pub enum EventValueView {
    Unit,
    Text(Seq<char>),
    Int(i64),
}

impl View for EventValue {
    type V = EventValueView;

    open spec fn view(&self) -> EventValueView {
        match *self {
            EventValue::Unit => EventValueView::Unit,
            EventValue::Text(s) => EventValueView::Text(s@),
            EventValue::Int(n) => EventValueView::Int(n),
        }
    }
}

/// The values of a list of named values.
pub open spec fn event_value_views(list: Seq<(String, EventValue)>) -> Seq<(Seq<char>, EventValueView)> {
    list.map_values(|p: (String, EventValue)| (p.0@, p.1@))
}

/// What a script is handed of an event.
pub open spec fn handed(e: TraceEventView) -> Seq<(Seq<char>, EventValueView)> {
    seq![
        ("schema_version"@, EventValueView::Int(e.context.schema_version as i64)),
        ("shadox_version"@, EventValueView::Text(e.context.shadox_version)),
        ("profile"@, EventValueView::Text(e.context.profile)),
        ("profile_version"@, EventValueView::Int(e.context.profile_version as i64)),
        ("ts"@, EventValueView::Text(decimal(e.ts))),
        ("seq"@, EventValueView::Int(e.seq as i64)),
        ("run_id"@, EventValueView::Text(hyphenated(e.run_id.value))),
        ("kind"@, EventValueView::Text(e.kind)),
        ("level"@, EventValueView::Text(e.level)),
        (
            "pid"@,
            match e.pid {
                Some(pid) => EventValueView::Int(pid as i64),
                None => EventValueView::Unit,
            },
        ),
        ("data_json"@, EventValueView::Text(json_text(e.data))),
    ]
}

/// Appends a named value.
fn named(list: &mut Vec<(String, EventValue)>, name: &str, value: EventValue)
    ensures
        event_value_views(final(list)@) == event_value_views(old(list)@).push((name@, value@)),
{
    let ghost start = list@;
    list.push((name.to_string(), value));
    assert(event_value_views(list@) =~= event_value_views(start).push((name@, value@)));
}

/// What a script is handed of an event.
pub fn event_to_map(event: &TraceEvent) -> (list: Vec<(String, EventValue)>)
    ensures
        event_value_views(list@) == handed(event@),
{
    let mut list: Vec<(String, EventValue)> = Vec::new();
    assert(event_value_views(list@) =~= Seq::empty());
    named(&mut list, "schema_version", EventValue::Int(event.schema_version as i64));
    named(&mut list, "shadox_version", EventValue::Text(event.shadox_version.clone()));
    named(&mut list, "profile", EventValue::Text(event.profile.clone()));
    named(&mut list, "profile_version", EventValue::Int(event.profile_version as i64));
    named(&mut list, "ts", EventValue::Text(decimal_text(event.ts)));
    named(&mut list, "seq", EventValue::Int(event.seq as i64));
    named(&mut list, "run_id", EventValue::Text(event.run_id.text()));
    named(&mut list, "kind", EventValue::Text(event.kind.clone()));
    named(&mut list, "level", EventValue::Text(event.level.clone()));
    named(
        &mut list,
        "pid",
        match event.pid {
            Some(pid) => EventValue::Int(pid as i64),
            None => EventValue::Unit,
        },
    );
    named(&mut list, "data_json", EventValue::Text(event.data.text()));
    assert(event_value_views(list@) =~= handed(event@));
    list
}

/// The value of a name in a map: that of the first pair with it, from `i` on.
pub open spec fn pair_value(pairs: Seq<(Seq<char>, ScriptView)>, name: Seq<char>, i: int) -> Option<ScriptView>
    decreases pairs.len() - i,
{
    if i >= pairs.len() {
        None
    } else if pairs[i].0 == name {
        Some(pairs[i].1)
    } else {
        pair_value(pairs, name, i + 1)
    }
}

/// The texts among the first `n` items.
pub open spec fn texts_among(items: Seq<ScriptView>, n: int) -> Seq<Seq<char>>
    decreases n,
{
    if n <= 0 {
        Seq::empty()
    } else {
        match items[n - 1] {
            ScriptView::Text(s) => texts_among(items, n - 1).push(s),
            _ => texts_among(items, n - 1),
        }
    }
}

/// The finding that a map describes: it needs a text `message`; the severity
/// is `info` unless a text says otherwise; the tags are the texts of an array.
pub open spec fn map_finding(pairs: Seq<(Seq<char>, ScriptView)>) -> Option<FindingView> {
    match pair_value(pairs, "message"@, 0) {
        Some(ScriptView::Text(message)) => Some(
            FindingView {
                message,
                severity: match pair_value(pairs, "severity"@, 0) {
                    Some(ScriptView::Text(s)) => s,
                    _ => "info"@,
                },
                tags: match pair_value(pairs, "tags"@, 0) {
                    Some(ScriptView::Array(items)) => texts_among(items, items.len() as int),
                    _ => Seq::empty(),
                },
            },
        ),
        _ => None,
    }
}

/// The findings in what a script returned: a text that is not blank is one, a
/// map with a message is one, an array holds those of its items.
pub open spec fn findings_in(v: ScriptView) -> Seq<FindingView>
    decreases v, 0int,
{
    match v {
        ScriptView::Unit => Seq::empty(),
        ScriptView::Text(s) => if trim(s).len() == 0 {
            Seq::empty()
        } else {
            seq![FindingView { message: s, severity: "info"@, tags: Seq::empty() }]
        },
        ScriptView::Table(pairs) => match map_finding(pairs) {
            Some(f) => seq![f],
            None => Seq::empty(),
        },
        ScriptView::Array(items) => findings_among(items, items.len() as int),
        ScriptView::Other => Seq::empty(),
    }
}

/// The findings in the first `n` items.
pub open spec fn findings_among(items: Seq<ScriptView>, n: int) -> Seq<FindingView>
    decreases items, n,
{
    if n <= 0 || n > items.len() {
        Seq::empty()
    } else {
        findings_among(items, n - 1) + findings_in(items[n - 1])
    }
}

/// The value of a name in a map.
fn find_pair<'a>(pairs: &'a Vec<(String, ScriptValue)>, name: &str) -> (value: Option<&'a ScriptValue>)
    ensures
        match value {
            Some(v) => pair_value(script_view(ScriptValue::Table(*pairs))->Table_0, name@, 0) == Some(v@),
            None => pair_value(script_view(ScriptValue::Table(*pairs))->Table_0, name@, 0) is None,
        },
{
    let ghost list = script_view(ScriptValue::Table(*pairs))->Table_0;
    for i in 0..pairs.len()
        invariant
            list == script_view(ScriptValue::Table(*pairs))->Table_0,
            list.len() == pairs@.len(),
            forall|k: int| 0 <= k < pairs@.len() ==> #[trigger] list[k] == (pairs@[k].0@, pairs@[k].1@),
            pair_value(list, name@, 0) == pair_value(list, name@, i as int),
    {
        assert(list[i as int] == (pairs@[i as int].0@, pairs@[i as int].1@));
        if same_text(pairs[i].0.as_str(), name) {
            return Some(&pairs[i].1);
        }
    }
    None
}

/// The optional value of a finding.
pub open spec fn optional_finding(f: Option<Finding>) -> Option<FindingView> {
    match f {
        Some(f) => Some(f@),
        None => None,
    }
}

/// The finding that a map describes.
fn finding_from_map(pairs: &Vec<(String, ScriptValue)>) -> (finding: Option<Finding>)
    ensures
        optional_finding(finding) == map_finding(script_view(ScriptValue::Table(*pairs))->Table_0),
{
    let message = match find_pair(pairs, "message") {
        Some(ScriptValue::Text(s)) => s.clone(),
        _ => {
            return None;
        },
    };
    let severity = match find_pair(pairs, "severity") {
        Some(ScriptValue::Text(s)) => s.clone(),
        _ => "info".to_string(),
    };
    let mut tags: Vec<String> = Vec::new();
    assert(views(tags@) =~= Seq::empty());
    if let Some(ScriptValue::Array(items)) = find_pair(pairs, "tags") {
        let ghost list = script_view(ScriptValue::Array(*items))->Array_0;
        for i in 0..items.len()
            invariant
                list.len() == items@.len(),
                forall|k: int| 0 <= k < items@.len() ==> #[trigger] list[k] == items@[k]@,
                views(tags@) == texts_among(list, i as int),
        {
            assert(list[i as int] == items@[i as int]@);
            if let ScriptValue::Text(s) = &items[i] {
                let ghost start = tags@;
                tags.push(s.clone());
                assert(views(tags@) =~= views(start).push(s@));
            }
        }
    }
    Some(Finding { message, severity, tags })
}

/// Appends the findings in what a script returned.
fn push_findings(found: &mut Vec<Finding>, value: &ScriptValue)
    ensures
        finding_views(final(found)@) == finding_views(old(found)@) + findings_in(value@),
    decreases value,
{
    let ghost start = finding_views(found@);
    match value {
        ScriptValue::Unit => {
            assert(start + findings_in(value@) =~= start);
        },
        ScriptValue::Text(s) => {
            let chars = chars_of(s.as_str());
            if trimmed(chars.as_slice()).len() == 0 {
                assert(start + findings_in(value@) =~= start);
            } else {
                let finding = Finding {
                    message: s.clone(),
                    severity: "info".to_string(),
                    tags: Vec::new(),
                };
                assert(views(finding.tags@) =~= Seq::empty());
                found.push(finding);
                assert(finding_views(found@) =~= start + findings_in(value@));
            }
        },
        ScriptValue::Table(pairs) => {
            match finding_from_map(pairs) {
                Some(finding) => {
                    found.push(finding);
                    assert(finding_views(found@) =~= start + findings_in(value@));
                },
                None => {
                    assert(start + findings_in(value@) =~= start);
                },
            }
        },
        ScriptValue::Array(items) => {
            let ghost list = value@->Array_0;
            assert(start + findings_among(list, 0) =~= start);
            for i in 0..items.len()
                invariant
                    list.len() == items@.len(),
                    forall|k: int| 0 <= k < items@.len() ==> #[trigger] list[k] == items@[k]@,
                    finding_views(found@) == start + findings_among(list, i as int),
                    *value == ScriptValue::Array(*items),
            {
                let item = &items[i];
                assert(list[i as int] == items@[i as int]@);
                assert(decreases_to!(*value => value->Array_0));
                assert(decreases_to!(*items => items@));
                assert(decreases_to!(items@ => items@[i as int]));
                push_findings(found, item);
                assert(start + findings_among(list, i as int) + findings_in(list[i as int]) =~= start + (findings_among(
                    list,
                    i as int,
                ) + findings_in(list[i as int])));
            }
        },
        ScriptValue::Other => {
            assert(start + findings_in(value@) =~= start);
        },
    }
}

/// The findings in what a script returned.
pub fn findings_from_value(value: &ScriptValue) -> (found: Vec<Finding>)
    ensures
        finding_views(found@) == findings_in(value@),
{
    let mut found: Vec<Finding> = Vec::new();
    push_findings(&mut found, value);
    assert(finding_views(found@) =~= findings_in(value@));
    found
}

/// Why a script gives no findings.
#[derive(Debug, PartialEq, Eq)]
pub enum ObserverError {
    /// The script does not parse.
    Compile(String),
    /// The script failed on an event.
    Failed(String),
}

/// The text that reports an error.
pub open spec fn observer_error_message(e: ObserverError) -> Seq<char> {
    match e {
        ObserverError::Compile(text) => text@,
        ObserverError::Failed(text) => "observer script failed: "@ + text@,
    }
}

impl ObserverError {
    /// The text that reports the error.
    pub fn message(&self) -> (s: String)
        ensures
            s@ == observer_error_message(*self),
    {
        match self {
            ObserverError::Compile(text) => text.clone(),
            ObserverError::Failed(text) => concat2("observer script failed: ", text.as_str()),
        }
    }
}

/// The error text says that the script has no `on_event` function.
pub open spec fn says_missing_hook(text: Seq<char>) -> bool {
    occurs(text, "Function not found"@) && occurs(text, "on_event"@)
}

/// Whether the error text says that the script has no `on_event` function.
pub fn is_missing_on_event(text: &str) -> (r: bool)
    ensures
        r == says_missing_hook(text@),
{
    let chars = chars_of(text);
    let first = chars_of("Function not found");
    let second = chars_of("on_event");
    contains_text(chars.as_slice(), first.as_slice()) && contains_text(chars.as_slice(), second.as_slice())
}

/// `Engine::new`: an engine with the standard packages.
pub assume_specification[ rhai::Engine::new ]() -> (engine: rhai::Engine)
;

/// How many operations a script may take on an event.
pub const MAX_OPERATIONS: u64 = 100_000;

/// How deeply a script may nest calls.
pub const MAX_CALL_LEVELS: usize = 32;

/// An engine, with the limits that it was given.
pub struct ScriptEngine {
    pub engine: rhai::Engine,
    pub operations: Option<u64>,
    pub call_levels: Option<usize>,
}

impl ScriptEngine {
    /// The engine was given the limits on operations and on nested calls.
    pub open spec fn limited(&self) -> bool {
        self.operations == Some(MAX_OPERATIONS) && self.call_levels == Some(MAX_CALL_LEVELS)
    }
}

/// A parsed script, with the text that it was parsed from.
pub struct Script {
    pub ast: rhai::AST,
    pub source: String,
}

/// `Engine::set_max_operations`: gives the engine the number of operations
/// that a script may take. The engine is opaque; the field beside it says what
/// it was given.
#[verifier::external_body]
fn limit_operations(engine: &mut ScriptEngine, operations: u64)
    ensures
        final(engine).operations == Some(operations),
        final(engine).call_levels == old(engine).call_levels,
{
    engine.engine.set_max_operations(operations);
    engine.operations = Some(operations);
}

/// `Engine::set_max_call_levels`: gives the engine the depth to which a script
/// may nest calls. The engine is opaque; the field beside it says what it was given.
#[verifier::external_body]
fn limit_call_levels(engine: &mut ScriptEngine, levels: usize)
    ensures
        final(engine).call_levels == Some(levels),
        final(engine).operations == old(engine).operations,
{
    engine.engine.set_max_call_levels(levels);
    engine.call_levels = Some(levels);
}

/// `Engine::compile`: the script that a text holds, or why it holds none. The
/// parsed form is opaque; the field beside it says what it was parsed from. How
/// deeply expressions may nest depends on how the engine was built, so nothing
/// is said of which texts parse.
#[verifier::external_body]
fn compile_script(engine: &ScriptEngine, source: &str) -> (script: Result<Script, rhai::ParseError>)
    ensures
        script matches Ok(s) ==> s.source@ == source@,
{
    engine.engine.compile(source).map(|ast| Script { ast, source: source.to_string() })
}

/// The `Display` text of a `rhai::ParseError`; the error is opaque, so nothing is said of the text.
#[verifier::external_body]
fn parse_error_text(error: &rhai::ParseError) -> (text: String) {
    error.to_string()
}

/// A call of a function of a script: its name, and the table that it is handed.
#[derive(Debug, PartialEq, Eq)]
pub struct HookCall {
    pub name: String,
    pub table: Vec<(String, EventValue)>,
}

/// A script and the engine that runs it.
pub struct Observer {
    pub engine: ScriptEngine,
    pub script: Script,
}

impl Observer {
    /// The engine has its limits.
    pub open spec fn wf(&self) -> bool {
        self.engine.limited()
    }

    /// Parses a script. Whether the text parses is up to the engine; where it
    /// does not, the error is that of the parser.
    pub fn from_source(source: &str) -> (observer: Result<Observer, ObserverError>)
        ensures
            match observer {
                Ok(o) => o.wf() && o.script.source@ == source@,
                Err(e) => e is Compile,
            },
    {
        let mut engine = ScriptEngine { engine: rhai::Engine::new(), operations: None, call_levels: None };
        limit_operations(&mut engine, MAX_OPERATIONS);
        limit_call_levels(&mut engine, MAX_CALL_LEVELS);
        match compile_script(&engine, source) {
            Ok(script) => Ok(Observer { engine, script }),
            Err(error) => Err(ObserverError::Compile(parse_error_text(&error))),
        }
    }

    /// The call of the script's hook that an event asks for.
    pub fn hook_call(&self, event: &TraceEvent) -> (call: HookCall)
        ensures
            call.name@ == "on_event"@,
            event_value_views(call.table@) == handed(event@),
    {
        HookCall { name: "on_event".to_string(), table: event_to_map(event) }
    }

    /// What comes of an event, from what the call of the hook gave: the findings
    /// in the value that it returned; none where the script has no hook; an error
    /// where the script failed otherwise.
    pub fn on_event(reply: Result<ScriptValue, String>) -> (outcome: Result<Vec<Finding>, ObserverError>)
        ensures
            match reply {
                Ok(value) => outcome matches Ok(found) && finding_views(found@) == findings_in(value@),
                Err(text) => if says_missing_hook(text@) {
                    outcome matches Ok(found) && found@.len() == 0
                } else {
                    outcome matches Err(ObserverError::Failed(t)) && t@ == text@
                },
            },
    {
        match reply {
            Ok(value) => Ok(findings_from_value(&value)),
            Err(text) => if is_missing_on_event(text.as_str()) {
                Ok(Vec::new())
            } else {
                Err(ObserverError::Failed(text))
            },
        }
    }
}

} // verus!
