//! The trace of a run: numbered events, and the findings made on them.

use crate::config::clone_texts;
use crate::json::{field, field_views, object, text_json, texts, texts_json, Json, JsonView};
use crate::metadata::{shadox_version, spec_shadox_version, PROFILE_VERSION, SCHEMA_VERSION};
use crate::run_id::{hyphenated, RunId};
use crate::text::views;
use vstd::prelude::*;

verus! {

/// Something an observer found worth telling.
#[derive(Debug, PartialEq, Eq)]
pub struct Finding {
    pub message: String,
    pub severity: String,
    pub tags: Vec<String>,
}

/// The mathematical value of a finding.
#[verifier::ext_equal]
pub struct FindingView {
    pub message: Seq<char>,
    pub severity: Seq<char>,
    pub tags: Seq<Seq<char>>,
}

impl View for Finding {
    type V = FindingView;

    open spec fn view(&self) -> FindingView {
        FindingView { message: self.message@, severity: self.severity@, tags: views(self.tags@) }
    }
}

impl Clone for Finding {
    fn clone(&self) -> (copy: Self)
        ensures
            copy@ == self@,
    {
        Finding {
            message: self.message.clone(),
            severity: self.severity.clone(),
            tags: clone_texts(&self.tags),
        }
    }
}

/// The values of a list of findings.
pub open spec fn finding_views(list: Seq<Finding>) -> Seq<FindingView> {
    list.map_values(|f: Finding| f@)
}

/// A copy of a list of findings.
pub fn clone_findings(list: &Vec<Finding>) -> (copy: Vec<Finding>)
    ensures
        finding_views(copy@) == finding_views(list@),
{
    let mut copy: Vec<Finding> = Vec::new();
    for i in 0..list.len()
        invariant
            copy@.len() == i,
            forall|k: int| 0 <= k < i ==> (#[trigger] copy@[k])@ == list@[k]@,
    {
        copy.push(list[i].clone());
    }
    assert(finding_views(copy@) =~= finding_views(list@));
    copy
}

/// What every event of a run says about the run.
#[derive(Debug, PartialEq, Eq)]
pub struct TraceContext {
    pub schema_version: u32,
    pub shadox_version: String,
    pub profile: String,
    pub profile_version: u32,
}

/// The mathematical value of a context.
pub struct TraceContextView {
    pub schema_version: u32,
    pub shadox_version: Seq<char>,
    pub profile: Seq<char>,
    pub profile_version: u32,
}

impl View for TraceContext {
    type V = TraceContextView;

    open spec fn view(&self) -> TraceContextView {
        TraceContextView {
            schema_version: self.schema_version,
            shadox_version: self.shadox_version@,
            profile: self.profile@,
            profile_version: self.profile_version,
        }
    }
}

/// The context of a run under a profile.
pub open spec fn context_of(profile: Seq<char>, profile_version: u32) -> TraceContextView {
    TraceContextView {
        schema_version: SCHEMA_VERSION,
        shadox_version: spec_shadox_version(),
        profile,
        profile_version,
    }
}

impl TraceContext {
    /// The context of a run under a profile.
    pub fn new(profile: String, profile_version: u32) -> (c: Self)
        ensures
            c@ == context_of(profile@, profile_version),
    {
        TraceContext {
            schema_version: SCHEMA_VERSION,
            shadox_version: shadox_version(),
            profile,
            profile_version,
        }
    }
}

impl Default for TraceContext {
    fn default() -> (c: Self)
        ensures
            c@ == context_of("agent-default"@, PROFILE_VERSION),
    {
        TraceContext::new("agent-default".to_string(), PROFILE_VERSION)
    }
}

/// One event of a trace.
#[derive(Debug, PartialEq, Eq)]
pub struct TraceEvent {
    pub schema_version: u32,
    pub shadox_version: String,
    pub profile: String,
    pub profile_version: u32,
    pub ts: u128,
    pub seq: u64,
    pub run_id: RunId,
    pub kind: String,
    pub pid: Option<u32>,
    pub level: String,
    pub data: Json,
}

/// The mathematical value of an event.
pub struct TraceEventView {
    pub context: TraceContextView,
    pub ts: nat,
    pub seq: nat,
    pub run_id: RunId,
    pub kind: Seq<char>,
    pub pid: Option<u32>,
    pub level: Seq<char>,
    pub data: JsonView,
}

impl View for TraceEvent {
    type V = TraceEventView;

    open spec fn view(&self) -> TraceEventView {
        TraceEventView {
            context: TraceContextView {
                schema_version: self.schema_version,
                shadox_version: self.shadox_version@,
                profile: self.profile@,
                profile_version: self.profile_version,
            },
            ts: self.ts as nat,
            seq: self.seq as nat,
            run_id: self.run_id,
            kind: self.kind@,
            pid: self.pid,
            level: self.level@,
            data: self.data@,
        }
    }
}

/// The JSON form of an optional process number.
pub open spec fn pid_form(pid: Option<u32>) -> JsonView {
    match pid {
        Some(n) => JsonView::Number(n as int),
        None => JsonView::Null,
    }
}

/// The JSON form of an event, its fields in the order of the trace format.
pub open spec fn event_form(e: TraceEventView) -> JsonView {
    JsonView::Object(
        seq![
            ("schema_version"@, JsonView::Number(e.context.schema_version as int)),
            ("shadox_version"@, JsonView::Text(e.context.shadox_version)),
            ("profile"@, JsonView::Text(e.context.profile)),
            ("profile_version"@, JsonView::Number(e.context.profile_version as int)),
            ("ts"@, JsonView::Number(e.ts as int)),
            ("seq"@, JsonView::Number(e.seq as int)),
            ("run_id"@, JsonView::Text(hyphenated(e.run_id.value))),
            ("kind"@, JsonView::Text(e.kind)),
            ("pid"@, pid_form(e.pid)),
            ("level"@, JsonView::Text(e.level)),
            ("data"@, e.data),
        ],
    )
}

/// The JSON form of an optional process number.
pub fn pid_json(pid: Option<u32>) -> (j: Json)
    ensures
        j@ == pid_form(pid),
{
    match pid {
        Some(n) => Json::UInt(n as u128),
        None => Json::Null,
    }
}

impl TraceEvent {
    /// An event in the default context.
    pub fn new(seq: u64, run_id: RunId, kind: String, pid: Option<u32>, level: String, data: Json, ts: u128) -> (e: Self)
        ensures
            e@ == (TraceEventView {
                context: context_of("agent-default"@, PROFILE_VERSION),
                ts: ts as nat,
                seq: seq as nat,
                run_id,
                kind: kind@,
                pid,
                level: level@,
                data: data@,
            }),
    {
        let context = TraceContext::default();
        TraceEvent::with_context(&context, seq, run_id, kind, pid, level, data, ts)
    }

    /// An event in a context.
    pub fn with_context(
        context: &TraceContext,
        seq: u64,
        run_id: RunId,
        kind: String,
        pid: Option<u32>,
        level: String,
        data: Json,
        ts: u128,
    ) -> (e: Self)
        ensures
            e@ == (TraceEventView {
                context: context@,
                ts: ts as nat,
                seq: seq as nat,
                run_id,
                kind: kind@,
                pid,
                level: level@,
                data: data@,
            }),
    {
        TraceEvent {
            schema_version: context.schema_version,
            shadox_version: context.shadox_version.clone(),
            profile: context.profile.clone(),
            profile_version: context.profile_version,
            ts,
            seq,
            run_id,
            kind,
            pid,
            level,
            data,
        }
    }

    /// The event as a JSON value.
    pub fn json(&self) -> (j: Json)
        ensures
            j@ == event_form(self@),
    {
        let mut fields: Vec<(String, Json)> = Vec::new();
        assert(field_views(fields@) =~= Seq::empty());
        field(&mut fields, "schema_version", Json::UInt(self.schema_version as u128));
        field(&mut fields, "shadox_version", text_json(self.shadox_version.as_str()));
        field(&mut fields, "profile", text_json(self.profile.as_str()));
        field(&mut fields, "profile_version", Json::UInt(self.profile_version as u128));
        field(&mut fields, "ts", Json::UInt(self.ts));
        field(&mut fields, "seq", Json::UInt(self.seq as u128));
        field(&mut fields, "run_id", Json::Text(self.run_id.text()));
        field(&mut fields, "kind", text_json(self.kind.as_str()));
        field(&mut fields, "pid", pid_json(self.pid));
        field(&mut fields, "level", text_json(self.level.as_str()));
        field(&mut fields, "data", self.data.copy());
        assert(field_views(fields@) =~= event_form(self@)->Object_0);
        object(fields)
    }
}

/// The data of the event that reports a finding.
pub open spec fn finding_form(f: FindingView) -> JsonView {
    JsonView::Object(
        seq![
            ("message"@, JsonView::Text(f.message)),
            ("severity"@, JsonView::Text(f.severity)),
            ("tags"@, texts(f.tags)),
        ],
    )
}

/// The data of the event that reports a finding.
pub fn finding_json(f: &Finding) -> (j: Json)
    ensures
        j@ == finding_form(f@),
{
    let mut fields: Vec<(String, Json)> = Vec::new();
    assert(field_views(fields@) =~= Seq::empty());
    field(&mut fields, "message", text_json(f.message.as_str()));
    field(&mut fields, "severity", text_json(f.severity.as_str()));
    field(&mut fields, "tags", texts_json(&f.tags));
    assert(field_views(fields@) =~= finding_form(f@)->Object_0);
    object(fields)
}

/// The event that reports a finding.
pub open spec fn finding_event(
    context: TraceContextView,
    run_id: RunId,
    seq: nat,
    finding: FindingView,
    pid: Option<u32>,
    ts: nat,
) -> TraceEventView {
    TraceEventView {
        context,
        ts,
        seq,
        run_id,
        kind: "observer.finding"@,
        pid,
        level: finding.severity,
        data: finding_form(finding),
    }
}

/// The events that report findings, numbered from the one after `seq` on.
pub open spec fn noted(
    context: TraceContextView,
    run_id: RunId,
    seq: nat,
    found: Seq<FindingView>,
    pid: Option<u32>,
    stamps: Seq<u128>,
) -> Seq<TraceEventView> {
    Seq::new(
        found.len(),
        |i: int| finding_event(context, run_id, (seq + 1 + i) as nat, found[i], pid, stamps[i] as nat),
    )
}

/// The values of a list of events.
pub open spec fn event_views(events: Seq<TraceEvent>) -> Seq<TraceEventView> {
    events.map_values(|e: TraceEvent| e@)
}

/// Numbering: an emitted event and the reports of the findings made on it carry
/// consecutive numbers, one for the event and one for each finding.
pub proof fn an_emit_numbers_its_events_without_a_gap(
    before: nat,
    event: TraceEventView,
    found: Seq<FindingView>,
    stamps: Seq<u128>,
)
    requires
        event.seq == before + 1,
    ensures
        ({
            let written = seq![event] + noted(event.context, event.run_id, event.seq, found, event.pid, stamps);
            &&& written.len() == 1 + found.len()
            &&& forall|i: int| 0 <= i < written.len() ==> (#[trigger] written[i]).seq == before + 1 + i
            &&& forall|i: int| 0 < i < written.len() ==> (#[trigger] written[i]).kind == "observer.finding"@
        }),
{
}

/// Where a trace goes: standard output, or a file.
#[derive(Debug, PartialEq, Eq)]
pub enum TraceSink {
    Stdout,
    File(String),
}

/// Where a trace goes.
pub fn trace_sink(trace: &str) -> (sink: TraceSink)
    ensures
        match sink {
            TraceSink::Stdout => trace@ == "-"@,
            TraceSink::File(path) => trace@ != "-"@ && path@ == trace@,
        },
{
    if crate::text::same_text(trace, "-") {
        TraceSink::Stdout
    } else {
        TraceSink::File(trace.to_string())
    }
}

/// Numbers the events of a run and keeps the findings made on them.
pub struct TraceLogger {
    pub context: TraceContext,
    pub run_id: RunId,
    pub seq: u64,
    pub findings: Vec<Finding>,
}

impl TraceLogger {
    /// A logger in the default context.
    pub fn new(run_id: RunId) -> (l: Self)
        ensures
            l.context@ == context_of("agent-default"@, PROFILE_VERSION),
            l.run_id == run_id,
            l.seq == 0,
            l.findings@.len() == 0,
    {
        TraceLogger::new_with_context(run_id, TraceContext::default())
    }

    /// A logger in a context.
    pub fn new_with_context(run_id: RunId, context: TraceContext) -> (l: Self)
        ensures
            l.context == context,
            l.run_id == run_id,
            l.seq == 0,
            l.findings@.len() == 0,
    {
        TraceLogger { context, run_id, seq: 0, findings: Vec::new() }
    }

    /// The next event.
    pub fn emit(&mut self, kind: String, pid: Option<u32>, level: String, data: Json, ts: u128) -> (e: TraceEvent)
        requires
            old(self).seq < u64::MAX,
        ensures
            final(self).seq == old(self).seq + 1,
            final(self).context == old(self).context,
            final(self).run_id == old(self).run_id,
            final(self).findings == old(self).findings,
            e@ == (TraceEventView {
                context: old(self).context@,
                ts: ts as nat,
                seq: (old(self).seq + 1) as nat,
                run_id: old(self).run_id,
                kind: kind@,
                pid,
                level: level@,
                data: data@,
            }),
    {
        self.seq = self.seq + 1;
        TraceEvent::with_context(&self.context, self.seq, self.run_id, kind, pid, level, data, ts)
    }

    /// Keeps a finding, and gives the event that reports it.
    pub fn note_finding(&mut self, finding: Finding, pid: Option<u32>, ts: u128) -> (e: TraceEvent)
        requires
            old(self).seq < u64::MAX,
        ensures
            final(self).seq == old(self).seq + 1,
            final(self).context == old(self).context,
            final(self).run_id == old(self).run_id,
            finding_views(final(self).findings@) == finding_views(old(self).findings@).push(finding@),
            e@ == finding_event(
                old(self).context@,
                old(self).run_id,
                (old(self).seq + 1) as nat,
                finding@,
                pid,
                ts as nat,
            ),
    {
        let level = finding.severity.clone();
        let data = finding_json(&finding);
        let ghost start = self.findings@;
        self.findings.push(finding);
        assert(finding_views(self.findings@) =~= finding_views(start).push(finding@));
        self.emit("observer.finding".to_string(), pid, level, data, ts)
    }

    /// Keeps the findings made on an event, and gives the events that report
    /// them. The observer is not asked about those.
    pub fn note_findings(&mut self, found: Vec<Finding>, pid: Option<u32>, stamps: &[u128]) -> (events: Vec<TraceEvent>)
        requires
            old(self).seq + found@.len() <= u64::MAX,
            stamps@.len() == found@.len(),
        ensures
            final(self).seq == old(self).seq + found@.len(),
            final(self).context == old(self).context,
            final(self).run_id == old(self).run_id,
            finding_views(final(self).findings@) == finding_views(old(self).findings@) + finding_views(found@),
            event_views(events@) == noted(
                old(self).context@,
                old(self).run_id,
                old(self).seq as nat,
                finding_views(found@),
                pid,
                stamps@,
            ),
    {
        let ghost start = *self;
        let ghost list = finding_views(found@);
        let mut events: Vec<TraceEvent> = Vec::new();
        assert(finding_views(self.findings@) =~= finding_views(start.findings@) + list.take(0));
        for i in 0..found.len()
            invariant
                list == finding_views(found@),
                stamps@.len() == found@.len(),
                start.seq + found@.len() <= u64::MAX,
                self.seq == start.seq + i,
                self.context == start.context,
                self.run_id == start.run_id,
                finding_views(self.findings@) == finding_views(start.findings@) + list.take(i as int),
                events@.len() == i,
                forall|k: int|
                    0 <= k < i ==> (#[trigger] events@[k])@ == finding_event(
                        start.context@,
                        start.run_id,
                        (start.seq + 1 + k) as nat,
                        list[k],
                        pid,
                        stamps@[k] as nat,
                    ),
        {
            let finding = found[i].clone();
            assert(list[i as int] == finding@);
            events.push(self.note_finding(finding, pid, stamps[i]));
            assert(list.take(i + 1) =~= list.take(i as int).push(finding@));
            assert(finding_views(self.findings@) =~= finding_views(start.findings@) + list.take(i + 1));
        }
        assert(list.take(list.len() as int) =~= list);
        assert(event_views(events@) =~= noted(start.context@, start.run_id, start.seq as nat, list, pid, stamps@));
        events
    }

    /// The findings so far.
    pub fn findings(&self) -> (list: Vec<Finding>)
        ensures
            finding_views(list@) == finding_views(self.findings@),
    {
        clone_findings(&self.findings)
    }
}

} // verus!
