//! The trace and the observer: what is noted of an event, and what a script may say of it.

use crate::json::Json;
use crate::number::decimal;
use crate::observer::{
    event_to_map, event_value_views, findings_among, findings_from_value, is_missing_on_event, pair_value, texts_among,
    EventValue, HookCall, Observer, ObserverError, ScriptValue, ScriptView,
};
use crate::run_id::{hyphenated, RunId};
use crate::text::{is_space, occurs, trim, views};
use crate::trace::{event_views, finding_views, trace_sink, Finding, TraceContext, TraceEvent, TraceLogger, TraceSink};
use vstd::prelude::*;

verus! {

/// What a script finds under a name: that of the first pair with it, from `i` on.
pub open spec fn found_under(list: Seq<(String, EventValue)>, name: Seq<char>, i: int) -> Option<EventValue>
    decreases list.len() - i,
{
    if i >= list.len() {
        None
    } else if list[i].0@ == name {
        Some(list[i].1)
    } else {
        found_under(list, name, i + 1)
    }
}

/// A value is a text.
pub open spec fn is_text(v: Option<EventValue>, text: Seq<char>) -> bool {
    v matches Some(EventValue::Text(s)) && s@ == text
}

/// The names that a script is handed differ.
proof fn lemma_handed_names()
    ensures
        "schema_version"@ != "shadox_version"@,
        "schema_version"@ != "profile"@,
        "shadox_version"@ != "profile"@,
        "schema_version"@ != "profile_version"@,
        "shadox_version"@ != "profile_version"@,
        "profile"@ != "profile_version"@,
        "schema_version"@ != "ts"@,
        "shadox_version"@ != "ts"@,
        "profile"@ != "ts"@,
        "profile_version"@ != "ts"@,
        "schema_version"@ != "seq"@,
        "shadox_version"@ != "seq"@,
        "profile"@ != "seq"@,
        "profile_version"@ != "seq"@,
        "ts"@ != "seq"@,
        "schema_version"@ != "run_id"@,
        "shadox_version"@ != "run_id"@,
        "profile"@ != "run_id"@,
        "profile_version"@ != "run_id"@,
        "ts"@ != "run_id"@,
        "seq"@ != "run_id"@,
        "schema_version"@ != "kind"@,
        "shadox_version"@ != "kind"@,
        "profile"@ != "kind"@,
        "profile_version"@ != "kind"@,
        "ts"@ != "kind"@,
        "seq"@ != "kind"@,
        "run_id"@ != "kind"@,
        "schema_version"@ != "level"@,
        "shadox_version"@ != "level"@,
        "profile"@ != "level"@,
        "profile_version"@ != "level"@,
        "ts"@ != "level"@,
        "seq"@ != "level"@,
        "run_id"@ != "level"@,
        "kind"@ != "level"@,
        "schema_version"@ != "pid"@,
        "shadox_version"@ != "pid"@,
        "profile"@ != "pid"@,
        "profile_version"@ != "pid"@,
        "ts"@ != "pid"@,
        "seq"@ != "pid"@,
        "run_id"@ != "pid"@,
        "kind"@ != "pid"@,
        "level"@ != "pid"@,
        "schema_version"@ != "data_json"@,
        "shadox_version"@ != "data_json"@,
        "profile"@ != "data_json"@,
        "profile_version"@ != "data_json"@,
        "ts"@ != "data_json"@,
        "seq"@ != "data_json"@,
        "run_id"@ != "data_json"@,
        "kind"@ != "data_json"@,
        "level"@ != "data_json"@,
        "pid"@ != "data_json"@,
{
    reveal_strlit("schema_version");
    reveal_strlit("shadox_version");
    reveal_strlit("profile");
    reveal_strlit("profile_version");
    reveal_strlit("ts");
    reveal_strlit("seq");
    reveal_strlit("run_id");
    reveal_strlit("kind");
    reveal_strlit("level");
    reveal_strlit("pid");
    reveal_strlit("data_json");
    assert("schema_version"@.len() == 14);
    assert("shadox_version"@.len() == 14);
    assert("profile"@.len() == 7);
    assert("profile_version"@.len() == 15);
    assert("ts"@.len() == 2);
    assert("seq"@.len() == 3);
    assert("run_id"@.len() == 6);
    assert("kind"@.len() == 4);
    assert("level"@.len() == 5);
    assert("pid"@.len() == 3);
    assert("data_json"@.len() == 9);
    assert("schema_version"@[1] != "shadox_version"@[1]);
    assert("seq"@[0] != "pid"@[0]);
}

/// A script finds each thing that is known of an event under its name.
pub proof fn a_script_is_handed_the_event(e: TraceEvent, list: Vec<(String, EventValue)>)
    requires
        call_ensures(event_to_map, (&e,), list),
    ensures
        found_under(list@, "schema_version"@, 0) == Some(EventValue::Int(e.schema_version as i64)),
        is_text(found_under(list@, "shadox_version"@, 0), e.shadox_version@),
        is_text(found_under(list@, "profile"@, 0), e.profile@),
        found_under(list@, "profile_version"@, 0) == Some(EventValue::Int(e.profile_version as i64)),
        is_text(found_under(list@, "ts"@, 0), decimal(e.ts as nat)),
        e.seq <= i64::MAX ==> found_under(list@, "seq"@, 0) == Some(EventValue::Int(e.seq as i64)),
        is_text(found_under(list@, "run_id"@, 0), hyphenated(e.run_id.value)),
        is_text(found_under(list@, "kind"@, 0), e.kind@),
        is_text(found_under(list@, "level"@, 0), e.level@),
        e.pid matches Some(pid) ==> found_under(list@, "pid"@, 0) == Some(EventValue::Int(pid as i64)),
        e.pid is None ==> found_under(list@, "pid"@, 0) == Some(EventValue::Unit),
        found_under(list@, "data_json"@, 0) matches Some(EventValue::Text(s)) && crate::laws::json_reading::value_of_text(s@)
            == Some(e.data@),
        list@.len() == 11,
{
    lemma_handed_names();
    reveal_with_fuel(found_under, 12);
    let l = event_value_views(list@);
    assert(l.len() == list@.len());
    assert forall|i: int| 0 <= i < list@.len() implies (#[trigger] list@[i]).0@ == l[i].0 && list@[i].1@ == l[i].1 by {
    }
    assert(list@[0].1@ == l[0].1 && list@[1].1@ == l[1].1 && list@[2].1@ == l[2].1 && list@[3].1@ == l[3].1);
    assert(list@[4].1@ == l[4].1 && list@[5].1@ == l[5].1 && list@[6].1@ == l[6].1 && list@[7].1@ == l[7].1);
    assert(list@[8].1@ == l[8].1 && list@[9].1@ == l[9].1 && list@[10].1@ == l[10].1);
    crate::laws::json_reading::a_written_value_is_read_back(e.data@);
}

/// A hook is called by its name, with all that is known of the event.
pub proof fn the_hook_is_called_on_the_event(o: Observer, e: TraceEvent, call: HookCall, list: Vec<(String, EventValue)>)
    requires
        call_ensures(Observer::hook_call, (&o, &e), call),
        call_ensures(event_to_map, (&e,), list),
    ensures
        call.name@ == "on_event"@,
        event_value_views(call.table@) == event_value_views(list@),
{
}

/// A text that is blank, the unit, and a value of no known kind are no finding;
/// any other text is one, for information and without tags.
pub proof fn a_text_is_a_finding_unless_blank(v: ScriptValue, found: Vec<Finding>)
    requires
        call_ensures(findings_from_value, (&v,), found),
    ensures
        v is Unit || v is Other ==> found@.len() == 0,
        v matches ScriptValue::Text(s) ==> {
            &&& (forall|i: int| 0 <= i < s@.len() ==> is_space(#[trigger] s@[i])) ==> found@.len() == 0
            &&& (exists|i: int| 0 <= i < s@.len() && !is_space(#[trigger] s@[i])) ==> {
                &&& found@.len() == 1
                &&& found@[0].message@ == s@
                &&& found@[0].severity@ == "info"@
                &&& found@[0].tags@.len() == 0
            }
        },
{
    assert(finding_views(found@).len() == found@.len());
    if let ScriptValue::Text(s) = v {
        lemma_blank(s@);
        if trim(s@).len() != 0 {
            assert(finding_views(found@)[0] == found@[0]@);
            assert(views(found@[0].tags@).len() == found@[0].tags@.len());
        }
    }
}

/// Trimming leaves nothing exactly of what is white space throughout.
pub proof fn lemma_blank(s: Seq<char>)
    ensures
        trim(s).len() == 0 <==> (forall|i: int| 0 <= i < s.len() ==> is_space(#[trigger] s[i])),
    decreases s.len(),
{
    if s.len() > 0 {
        if is_space(s[0]) {
            lemma_blank(s.drop_first());
            if trim(s).len() == 0 {
                assert forall|i: int| 0 <= i < s.len() implies is_space(#[trigger] s[i]) by {
                    if i > 0 {
                        assert(s[i] == s.drop_first()[i - 1]);
                    }
                }
            } else {
                let k = choose|k: int| 0 <= k < s.drop_first().len() && !is_space(#[trigger] s.drop_first()[k]);
                assert(!is_space(s[k + 1]));
            }
        } else if is_space(s.last()) {
            lemma_blank(s.drop_last());
            assert(s.drop_last()[0] == s[0]);
        }
    }
}

/// Before the place `at` no pair has the name, and that at it has.
pub open spec fn first_named(pairs: Seq<(String, ScriptValue)>, name: Seq<char>, at: int) -> bool {
    &&& 0 <= at < pairs.len()
    &&& pairs[at].0@ == name
    &&& forall|i: int| 0 <= i < at ==> (#[trigger] pairs[i]).0@ != name
}

/// No pair has the name.
pub open spec fn none_named(pairs: Seq<(String, ScriptValue)>, name: Seq<char>) -> bool {
    forall|i: int| 0 <= i < pairs.len() ==> (#[trigger] pairs[i]).0@ != name
}

/// A map with a text for its message is a finding with that message; without
/// one it is none.
pub proof fn a_map_is_a_finding_by_its_message(pairs: Vec<(String, ScriptValue)>, at: int, found: Vec<Finding>)
    requires
        call_ensures(findings_from_value, (&ScriptValue::Table(pairs),), found),
    ensures
        none_named(pairs@, "message"@) ==> found@.len() == 0,
        first_named(pairs@, "message"@, at) ==> {
            &&& pairs@[at].1 matches ScriptValue::Text(s) ==> found@.len() == 1 && found@[0].message@ == s@
            &&& !(pairs@[at].1 is Text) ==> found@.len() == 0
        },
{
    lemma_named(pairs, "message"@, at);
    assert(finding_views(found@).len() == found@.len());
    if found@.len() > 0 {
        assert(finding_views(found@)[0] == found@[0]@);
    }
}

/// The severity of a map's finding is the text that it gives, else `info`.
pub proof fn a_map_gives_its_severity(pairs: Vec<(String, ScriptValue)>, at: int, found: Vec<Finding>)
    requires
        call_ensures(findings_from_value, (&ScriptValue::Table(pairs),), found),
        found@.len() > 0,
    ensures
        none_named(pairs@, "severity"@) ==> found@[0].severity@ == "info"@,
        first_named(pairs@, "severity"@, at) ==> {
            &&& pairs@[at].1 matches ScriptValue::Text(s) ==> found@[0].severity@ == s@
            &&& !(pairs@[at].1 is Text) ==> found@[0].severity@ == "info"@
        },
{
    lemma_named(pairs, "severity"@, at);
    assert(finding_views(found@).len() == found@.len());
    assert(finding_views(found@)[0] == found@[0]@);
}

/// The tags of a map's finding are the texts of the array that it gives, in
/// their order: a text as the last item is a further tag, anything else is none.
pub proof fn a_map_gives_its_tags(
    pairs: Vec<(String, ScriptValue)>,
    shorter: Vec<(String, ScriptValue)>,
    at: int,
    other: int,
    found: Vec<Finding>,
    before: Vec<Finding>,
)
    requires
        call_ensures(findings_from_value, (&ScriptValue::Table(pairs),), found),
        call_ensures(findings_from_value, (&ScriptValue::Table(shorter),), before),
        found@.len() > 0,
        before@.len() > 0,
    ensures
        none_named(pairs@, "tags"@) ==> found@[0].tags@.len() == 0,
        first_named(pairs@, "tags"@, at) && !(pairs@[at].1 is Array) ==> found@[0].tags@.len() == 0,
        first_named(pairs@, "tags"@, at) && first_named(shorter@, "tags"@, other) ==> {
            pairs@[at].1 matches ScriptValue::Array(items) ==> shorter@[other].1 matches ScriptValue::Array(fewer) ==> {
                &&& items@.len() == 0 ==> found@[0].tags@.len() == 0
                &&& items@.len() > 0 && fewer@ == items@.drop_last() ==> {
                    views(found@[0].tags@) == (match items@.last() {
                        ScriptValue::Text(s) => views(before@[0].tags@).push(s@),
                        _ => views(before@[0].tags@),
                    })
                }
            }
        },
{
    lemma_named(pairs, "tags"@, at);
    lemma_named(shorter, "tags"@, other);
    assert(finding_views(found@).len() == found@.len());
    assert(finding_views(before@).len() == before@.len());
    assert(finding_views(found@)[0] == found@[0]@);
    assert(finding_views(before@)[0] == before@[0]@);
    assert(views(found@[0].tags@).len() == found@[0].tags@.len());
    if first_named(pairs@, "tags"@, at) && first_named(shorter@, "tags"@, other) {
        if let (ScriptValue::Array(items), ScriptValue::Array(fewer)) = (pairs@[at].1, shorter@[other].1) {
            if items@.len() > 0 && fewer@ == items@.drop_last() {
                let a = pairs@[at].1@->Array_0;
                let b = shorter@[other].1@->Array_0;
                assert(a.len() == items@.len() && b.len() == fewer@.len());
                assert forall|i: int| 0 <= i < b.len() implies #[trigger] b[i] == a[i] by {
                    assert(fewer@[i] == items@[i]);
                }
                lemma_same_texts(a, b, b.len() as int);
                assert(a.last() == items@.last()@);
            }
        }
    }
}

/// Lists that agree on their first `n` items have the same texts among them.
proof fn lemma_same_texts(a: Seq<ScriptView>, b: Seq<ScriptView>, n: int)
    requires
        n <= a.len(),
        n <= b.len(),
        forall|i: int| 0 <= i < n ==> #[trigger] b[i] == a[i],
    ensures
        texts_among(a, n) == texts_among(b, n),
    decreases n,
{
    if n > 0 {
        assert(b[n - 1] == a[n - 1]);
        lemma_same_texts(a, b, n - 1);
    }
}

/// What is found under a name is what the first pair with it holds.
proof fn lemma_named(pairs: Vec<(String, ScriptValue)>, name: Seq<char>, at: int)
    ensures
        ({
            let v = ScriptValue::Table(pairs)@->Table_0;
            &&& none_named(pairs@, name) ==> pair_value(v, name, 0) is None
            &&& first_named(pairs@, name, at) ==> pair_value(v, name, 0) == Some(pairs@[at].1@)
        }),
{
    let v = ScriptValue::Table(pairs)@->Table_0;
    assert(v.len() == pairs@.len());
    assert forall|i: int| 0 <= i < v.len() implies (#[trigger] v[i]).0 == pairs@[i].0@ && v[i].1 == pairs@[i].1@ by {
    }
    if none_named(pairs@, name) {
        lemma_none_from(v, name, 0);
    }
    if first_named(pairs@, name, at) {
        lemma_first_from(v, name, 0, at);
    }
}

proof fn lemma_none_from(v: Seq<(Seq<char>, ScriptView)>, name: Seq<char>, i: int)
    requires
        0 <= i <= v.len(),
        forall|k: int| 0 <= k < v.len() ==> (#[trigger] v[k]).0 != name,
    ensures
        pair_value(v, name, i) is None,
    decreases v.len() - i,
{
    if i < v.len() {
        lemma_none_from(v, name, i + 1);
    }
}

proof fn lemma_first_from(v: Seq<(Seq<char>, ScriptView)>, name: Seq<char>, i: int, at: int)
    requires
        0 <= i <= at < v.len(),
        v[at].0 == name,
        forall|k: int| 0 <= k < at ==> (#[trigger] v[k]).0 != name,
    ensures
        pair_value(v, name, i) == Some(v[at].1),
    decreases at - i,
{
    if i < at {
        lemma_first_from(v, name, i + 1, at);
    }
}

/// The findings of an array are those of its items, one after the other.
pub proof fn an_array_holds_the_findings_of_its_items(
    items: Vec<ScriptValue>,
    fewer: Vec<ScriptValue>,
    last: ScriptValue,
    found: Vec<Finding>,
    before: Vec<Finding>,
    further: Vec<Finding>,
)
    requires
        call_ensures(findings_from_value, (&ScriptValue::Array(items),), found),
        call_ensures(findings_from_value, (&ScriptValue::Array(fewer),), before),
        call_ensures(findings_from_value, (&last,), further),
    ensures
        items@.len() == 0 ==> found@.len() == 0,
        items@ == fewer@.push(last) ==> finding_views(found@) == finding_views(before@) + finding_views(further@),
{
    let a = ScriptValue::Array(items)@->Array_0;
    let b = ScriptValue::Array(fewer)@->Array_0;
    assert(a.len() == items@.len() && b.len() == fewer@.len());
    assert(finding_views(found@).len() == found@.len());
    if items@ == fewer@.push(last) {
        assert forall|i: int| 0 <= i < b.len() implies #[trigger] b[i] == a[i] by {
            assert(items@[i] == fewer@[i]);
        }
        assert(a.last() == last@);
        lemma_same_findings(a, b, b.len() as int);
    }
}

/// Lists that agree on their first `n` items have the same findings among them.
proof fn lemma_same_findings(a: Seq<ScriptView>, b: Seq<ScriptView>, n: int)
    requires
        n <= a.len(),
        n <= b.len(),
        forall|i: int| 0 <= i < n ==> #[trigger] b[i] == a[i],
    ensures
        findings_among(a, n) == findings_among(b, n),
    decreases n,
{
    if n > 0 {
        assert(b[n - 1] == a[n - 1]);
        lemma_same_findings(a, b, n - 1);
    }
}

/// What comes of a call of the hook: the findings of what it returned; nothing
/// where the script has no hook; else the error, told with what the engine said.
pub proof fn a_call_gives_findings_or_an_error(
    reply: Result<ScriptValue, String>,
    outcome: Result<Vec<Finding>, ObserverError>,
    found: Vec<Finding>,
    message: String,
)
    requires
        call_ensures(Observer::on_event, (reply,), outcome),
        reply matches Ok(v) ==> call_ensures(findings_from_value, (&v,), found),
        outcome matches Err(e) ==> call_ensures(ObserverError::message, (&e,), message),
    ensures
        reply is Ok ==> (outcome matches Ok(list) && finding_views(list@) == finding_views(found@)),
        reply matches Err(text) ==> {
            let missing = occurs(text@, "Function not found"@) && occurs(text@, "on_event"@);
            &&& missing ==> (outcome matches Ok(list) && list@.len() == 0)
            &&& !missing ==> outcome is Err && message@ == "observer script failed: "@ + text@
        },
{
}

/// The hook is missing exactly where the engine says so of it.
pub proof fn a_missing_hook_is_told_by_the_text(text: &str, missing: bool)
    requires
        call_ensures(is_missing_on_event, (text,), missing),
    ensures
        missing <==> occurs(text@, "Function not found"@) && occurs(text@, "on_event"@),
{
}

/// A script that does not parse is told as the parser told it.
pub proof fn a_parse_error_is_told_as_it_is(text: String, message: String)
    requires
        call_ensures(ObserverError::message, (&ObserverError::Compile(text),), message),
    ensures
        message@ == text@,
{
}

/// A script that was loaded runs within limits: a hundred thousand operations
/// and thirty-two nested calls.
pub proof fn a_script_runs_within_limits(source: &str, loaded: Result<Observer, ObserverError>)
    requires
        call_ensures(Observer::from_source, (source,), loaded),
    ensures
        loaded matches Ok(o) ==> {
            &&& o.engine.operations == Some(100000u64)
            &&& o.engine.call_levels == Some(32usize)
            &&& o.script.source@ == source@
        },
        loaded matches Err(e) ==> e is Compile,
{
}

/// A trace goes to the output stream exactly where its path is a hyphen.
pub proof fn a_hyphen_is_the_output_stream(trace: &str, sink: TraceSink)
    requires
        call_ensures(trace_sink, (trace,), sink),
    ensures
        sink is Stdout <==> trace@ == "-"@,
        sink matches TraceSink::File(path) ==> path@ == trace@,
{
}

/// The context of a run is the versions of the format and of the program, and the profile.
pub proof fn a_context_is_the_versions_and_the_profile(profile: String, version: u32, c: TraceContext, plain: TraceContext)
    requires
        call_ensures(TraceContext::new, (profile, version), c),
        call_ensures(TraceContext::default, (), plain),
    ensures
        c.schema_version == 1 && c.shadox_version@ == "0.1.0"@ && c.profile@ == profile@ && c.profile_version == version,
        plain.schema_version == 1 && plain.shadox_version@ == "0.1.0"@,
        plain.profile@ == "agent-default"@ && plain.profile_version == 1,
{
    assert(c@.shadox_version == c.shadox_version@ && c@.profile == c.profile@);
    assert(c@.schema_version == c.schema_version && c@.profile_version == c.profile_version);
    assert(plain@.shadox_version == plain.shadox_version@ && plain@.profile == plain.profile@);
    assert(plain@.schema_version == plain.schema_version && plain@.profile_version == plain.profile_version);
}

/// An event holds what it was made of.
pub proof fn an_event_holds_what_it_was_made_of(
    context: TraceContext,
    seq: u64,
    run_id: RunId,
    kind: String,
    pid: Option<u32>,
    level: String,
    data: Json,
    ts: u128,
    e: TraceEvent,
    plain: TraceEvent,
)
    requires
        call_ensures(TraceEvent::with_context, (&context, seq, run_id, kind, pid, level, data, ts), e),
        call_ensures(TraceEvent::new, (seq, run_id, kind, pid, level, data, ts), plain),
    ensures
        e.schema_version == context.schema_version && e.shadox_version@ == context.shadox_version@,
        e.profile@ == context.profile@ && e.profile_version == context.profile_version,
        e.seq == seq && e.ts == ts && e.run_id == run_id && e.pid == pid,
        e.kind@ == kind@ && e.level@ == level@ && e.data@ == data@,
        plain.schema_version == 1 && plain.shadox_version@ == "0.1.0"@,
        plain.profile@ == "agent-default"@ && plain.profile_version == 1,
        plain.seq == seq && plain.ts == ts && plain.run_id == run_id && plain.pid == pid,
        plain.kind@ == kind@ && plain.level@ == level@ && plain.data@ == data@,
{
    assert(e@.context == context@);
    assert(e@.kind == e.kind@ && e@.level == e.level@ && e@.data == e.data@ && e@.ts == e.ts && e@.seq == e.seq);
    assert(plain@.kind == plain.kind@ && plain@.level == plain.level@ && plain@.data == plain.data@ && plain@.ts == plain.ts);
    assert(plain@.seq == plain.seq && plain@.context.profile == plain.profile@);
}

/// Each event carries the number after the one before it, and says under which run and context it came.
pub proof fn events_are_numbered_as_they_come(
    logger: &mut TraceLogger,
    kind: String,
    pid: Option<u32>,
    level: String,
    data: Json,
    ts: u128,
    e: TraceEvent,
)
    requires
        call_ensures(TraceLogger::emit, (logger, kind, pid, level, data, ts), e),
    ensures
        final(logger).seq == old(logger).seq + 1,
        e.seq == final(logger).seq && e.run_id == old(logger).run_id && e.ts == ts && e.pid == pid,
        e.profile@ == old(logger).context.profile@ && e.profile_version == old(logger).context.profile_version,
        e.kind@ == kind@ && e.level@ == level@ && e.data@ == data@,
        final(logger).findings@ == old(logger).findings@,
{
    assert(e@.kind == e.kind@ && e@.level == e.level@ && e@.data == e.data@ && e@.ts == e.ts && e@.seq == e.seq);
    assert(e@.context.profile == e.profile@ && e@.context.profile_version == e.profile_version);
}

/// A finding is kept, and told by an event as serious as the finding is.
pub proof fn a_finding_is_kept_and_told(logger: &mut TraceLogger, finding: Finding, pid: Option<u32>, ts: u128, e: TraceEvent)
    requires
        call_ensures(TraceLogger::note_finding, (logger, finding, pid, ts), e),
    ensures
        final(logger).seq == old(logger).seq + 1,
        e.seq == final(logger).seq && e.run_id == old(logger).run_id && e.ts == ts && e.pid == pid,
        e.kind@ == "observer.finding"@ && e.level@ == finding.severity@,
        e.data@ == crate::trace::finding_form(finding@),
        final(logger).findings@.len() == old(logger).findings@.len() + 1,
        final(logger).findings@.last()@ == finding@,
{
    assert(e@.kind == e.kind@ && e@.level == e.level@ && e@.data == e.data@ && e@.ts == e.ts && e@.seq == e.seq);
    let a = finding_views(old(logger).findings@);
    let b = finding_views(final(logger).findings@);
    assert(a.len() == old(logger).findings@.len() && b.len() == final(logger).findings@.len());
    assert(b.last() == final(logger).findings@.last()@);
}

/// Each of several findings is told by an event of its own, in their order.
pub proof fn findings_are_told_one_by_one(
    logger: &mut TraceLogger,
    found: Vec<Finding>,
    pid: Option<u32>,
    stamps: &[u128],
    events: Vec<TraceEvent>,
    i: int,
)
    requires
        call_ensures(TraceLogger::note_findings, (logger, found, pid, stamps), events),
        0 <= i < found@.len(),
    ensures
        events@.len() == found@.len(),
        events@[i].kind@ == "observer.finding"@ && events@[i].level@ == found@[i].severity@,
        events@[i].data@ == crate::trace::finding_form(found@[i]@),
        events@[i].seq == old(logger).seq + 1 + i && events@[i].ts == stamps@[i] && events@[i].pid == pid,
        events@[i].run_id == old(logger).run_id,
        final(logger).seq == old(logger).seq + found@.len(),
{
    assert(event_views(events@).len() == events@.len() && finding_views(found@).len() == found@.len());
    let e = events@[i];
    assert(event_views(events@)[i] == e@);
    assert(finding_views(found@)[i] == found@[i]@);
    assert(e@.kind == e.kind@ && e@.level == e.level@ && e@.data == e.data@ && e@.ts == e.ts && e@.seq == e.seq);
}

/// A trace starts without events and findings, in its context.
pub proof fn a_trace_starts_empty(run_id: RunId, context: TraceContext, a: TraceLogger, b: TraceLogger)
    requires
        call_ensures(TraceLogger::new_with_context, (run_id, context), a),
        call_ensures(TraceLogger::new, (run_id,), b),
    ensures
        a.seq == 0 && a.findings@.len() == 0 && a.run_id == run_id && a.context == context,
        b.seq == 0 && b.findings@.len() == 0 && b.run_id == run_id,
        b.context.profile@ == "agent-default"@ && b.context.profile_version == 1 && b.context.schema_version == 1,
{
    assert(b.context@.profile == b.context.profile@);
}

} // verus!
