//! The data of the events that a run emits.
//!
//! Fields stand in ascending order of their keys.

use crate::config::{profile_name, seccomp_name, EffectivePolicy};
use crate::forms::{changes_form, changes_json, fs_form, fs_json, limits_form, limits_json};
use crate::json::{
    array, field, field_views, json_views, object, optional_number, optional_number_json,
    optional_signed, optional_signed_json, text_json, texts, texts_json, Json, JsonView,
};
use crate::metadata::{shadox_version, spec_shadox_version, SCHEMA_VERSION};
use crate::report::{
    cgroup_form, cgroup_json, failure_form, failure_json, rollback_form, rollback_json,
    run_report_form, CgroupStats, FailureClassification, RunReport, VersionedFsReport,
};
use crate::runner::procfs::ProcSample;
use crate::text::views;
use crate::versioned_fs::diff::change_views;
use vstd::prelude::*;

verus! {

/// An event before it is numbered.
#[derive(Debug, PartialEq, Eq)]
pub struct EventDraft {
    pub kind: String,
    pub level: String,
    pub data: Json,
}

/// The mathematical value of a draft.
pub struct DraftView {
    pub kind: Seq<char>,
    pub level: Seq<char>,
    pub data: JsonView,
}

impl View for EventDraft {
    type V = DraftView;

    open spec fn view(&self) -> DraftView {
        DraftView { kind: self.kind@, level: self.level@, data: self.data@ }
    }
}

/// The values of a list of drafts.
pub open spec fn draft_views(list: Seq<EventDraft>) -> Seq<DraftView> {
    list.map_values(|d: EventDraft| d@)
}

/// A draft from its parts.
fn draft(kind: &str, level: &str, data: Json) -> (d: EventDraft)
    ensures
        d@ == (DraftView { kind: kind@, level: level@, data: data@ }),
{
    EventDraft { kind: kind.to_string(), level: level.to_string(), data }
}

/// What is observed, as the first event tells it.
pub open spec fn observe_summary_form(p: EffectivePolicy) -> JsonView {
    JsonView::Object(
        seq![
            ("collect_cgroup"@, JsonView::Bool(p.observe.collect_cgroup)),
            ("proc_sample_interval_ms"@, JsonView::Number(p.observe.proc_sample_interval_ms as int)),
            ("trace_syscalls"@, JsonView::Bool(p.observe.trace_syscalls)),
        ],
    )
}

/// The data of the first event.
pub open spec fn run_start_form(
    p: EffectivePolicy,
    cmd: Seq<char>,
    args: Seq<Seq<char>>,
    trace_path: Seq<char>,
    summary_path: Seq<char>,
) -> JsonView {
    JsonView::Object(
        seq![
            ("args"@, texts(args)),
            ("command"@, JsonView::Text(cmd)),
            ("observe"@, observe_summary_form(p)),
            ("profile"@, JsonView::Text(profile_name(p.profile))),
            ("profile_version"@, JsonView::Number(p.profile_version as int)),
            ("schema_version"@, JsonView::Number(SCHEMA_VERSION as int)),
            ("shadox_version"@, JsonView::Text(spec_shadox_version())),
            ("summary_path"@, JsonView::Text(summary_path)),
            ("trace_path"@, JsonView::Text(trace_path)),
        ],
    )
}

/// The first event of a run.
pub fn run_start(p: &EffectivePolicy, cmd: &str, args: &Vec<String>, trace_path: &str, summary_path: &str) -> (d: EventDraft)
    ensures
        d@ == (DraftView {
            kind: "run.start"@,
            level: "info"@,
            data: run_start_form(*p, cmd@, views(args@), trace_path@, summary_path@),
        }),
{
    let mut observe: Vec<(String, Json)> = Vec::new();
    assert(field_views(observe@) =~= Seq::empty());
    field(&mut observe, "collect_cgroup", Json::Bool(p.observe.collect_cgroup));
    field(&mut observe, "proc_sample_interval_ms", Json::UInt(p.observe.proc_sample_interval_ms as u128));
    field(&mut observe, "trace_syscalls", Json::Bool(p.observe.trace_syscalls));
    assert(field_views(observe@) =~= observe_summary_form(*p)->Object_0);
    let mut fields: Vec<(String, Json)> = Vec::new();
    assert(field_views(fields@) =~= Seq::empty());
    field(&mut fields, "args", texts_json(args));
    field(&mut fields, "command", text_json(cmd));
    field(&mut fields, "observe", object(observe));
    field(&mut fields, "profile", Json::Text(p.profile.name()));
    field(&mut fields, "profile_version", Json::UInt(p.profile_version as u128));
    field(&mut fields, "schema_version", Json::UInt(SCHEMA_VERSION as u128));
    field(&mut fields, "shadox_version", Json::Text(shadox_version()));
    field(&mut fields, "summary_path", text_json(summary_path));
    field(&mut fields, "trace_path", text_json(trace_path));
    assert(field_views(fields@) =~= run_start_form(*p, cmd@, views(args@), trace_path@, summary_path@)->Object_0);
    draft("run.start", "info", object(fields))
}

/// An object with one text.
pub open spec fn one_text(key: Seq<char>, text: Seq<char>) -> JsonView {
    JsonView::Object(seq![(key, JsonView::Text(text))])
}

/// An object with one text.
fn one_text_json(key: &str, text: &str) -> (j: Json)
    ensures
        j@ == one_text(key@, text@),
{
    let mut fields: Vec<(String, Json)> = Vec::new();
    assert(field_views(fields@) =~= Seq::empty());
    field(&mut fields, key, text_json(text));
    assert(field_views(fields@) =~= one_text(key@, text@)->Object_0);
    object(fields)
}

/// The event that something was left out.
pub open spec fn degraded_draft(reason: Seq<char>) -> DraftView {
    DraftView { kind: "sandbox.degraded"@, level: "warn"@, data: one_text("reason"@, reason) }
}

/// What is said where a timeline of system calls was asked for.
pub open spec fn no_syscall_timeline() -> Seq<char> {
    "trace_syscalls was requested, but lightweight v1 does not enable ptrace syscall timelines"@
}

/// The data of the event that tells the policy.
pub open spec fn policy_event_form(p: EffectivePolicy) -> JsonView {
    JsonView::Object(
        seq![
            ("allow_degraded"@, JsonView::Bool(p.security.allow_degraded)),
            ("fs"@, fs_form(p.fs@)),
            ("landlock"@, JsonView::Bool(p.security.landlock)),
            ("limits"@, limits_form(p.limits)),
            ("no_new_privs"@, JsonView::Bool(p.security.no_new_privs)),
            ("profile"@, JsonView::Text(profile_name(p.profile))),
            ("profile_notes"@, texts(views(p.notes@))),
            ("profile_version"@, JsonView::Number(p.profile_version as int)),
            ("seccomp_profile"@, JsonView::Text(seccomp_name(p.security.seccomp_profile))),
        ],
    )
}

/// The events once the sandbox is prepared: one for everything that was left
/// out, then the policy.
pub open spec fn policy_drafts(p: EffectivePolicy, degraded: Seq<Seq<char>>) -> Seq<DraftView> {
    degraded.map_values(|reason: Seq<char>| degraded_draft(reason)) + (if p.observe.trace_syscalls {
        seq![degraded_draft(no_syscall_timeline())]
    } else {
        Seq::empty()
    }) + seq![DraftView { kind: "sandbox.policy"@, level: "info"@, data: policy_event_form(p) }]
}

/// The events once the sandbox is prepared.
pub fn policy_events(p: &EffectivePolicy, degraded: &Vec<String>) -> (list: Vec<EventDraft>)
    ensures
        draft_views(list@) == policy_drafts(*p, views(degraded@)),
{
    let mut list: Vec<EventDraft> = Vec::new();
    for i in 0..degraded.len()
        invariant
            list@.len() == i,
            forall|k: int| 0 <= k < i ==> (#[trigger] list@[k])@ == degraded_draft(degraded@[k]@),
    {
        list.push(draft("sandbox.degraded", "warn", one_text_json("reason", degraded[i].as_str())));
    }
    if p.observe.trace_syscalls {
        list.push(
            draft(
                "sandbox.degraded",
                "warn",
                one_text_json(
                    "reason",
                    "trace_syscalls was requested, but lightweight v1 does not enable ptrace syscall timelines",
                ),
            ),
        );
    }
    let mut fields: Vec<(String, Json)> = Vec::new();
    assert(field_views(fields@) =~= Seq::empty());
    field(&mut fields, "allow_degraded", Json::Bool(p.security.allow_degraded));
    field(&mut fields, "fs", fs_json(&p.fs));
    field(&mut fields, "landlock", Json::Bool(p.security.landlock));
    field(&mut fields, "limits", limits_json(&p.limits));
    field(&mut fields, "no_new_privs", Json::Bool(p.security.no_new_privs));
    field(&mut fields, "profile", Json::Text(p.profile.name()));
    field(&mut fields, "profile_notes", texts_json(&p.notes));
    field(&mut fields, "profile_version", Json::UInt(p.profile_version as u128));
    field(&mut fields, "seccomp_profile", Json::Text(p.security.seccomp_profile.name()));
    assert(field_views(fields@) =~= policy_event_form(*p)->Object_0);
    list.push(draft("sandbox.policy", "info", object(fields)));
    assert(draft_views(list@) =~= policy_drafts(*p, views(degraded@)));
    list
}

/// The event that a control group was found.
pub fn cgroup_detected(path: &str) -> (d: EventDraft)
    ensures
        d@ == (DraftView { kind: "cgroup.detected"@, level: "debug"@, data: one_text("path"@, path@) }),
{
    draft("cgroup.detected", "debug", one_text_json("path", path))
}

/// The event that the process was started.
pub fn process_spawn(pid: u32) -> (d: EventDraft)
    ensures
        d@ == (DraftView {
            kind: "process.spawn"@,
            level: "info"@,
            data: JsonView::Object(seq![("pid"@, JsonView::Number(pid as int))]),
        }),
{
    let mut fields: Vec<(String, Json)> = Vec::new();
    assert(field_views(fields@) =~= Seq::empty());
    field(&mut fields, "pid", Json::UInt(pid as u128));
    assert(field_views(fields@) =~= seq![("pid"@, JsonView::Number(pid as int))]);
    draft("process.spawn", "info", object(fields))
}

/// The event that the time is up.
pub fn timeout_denied(timeout_ms: Option<u64>) -> (d: EventDraft)
    ensures
        d@ == (DraftView {
            kind: "sandbox.denied"@,
            level: "error"@,
            data: JsonView::Object(
                seq![("reason"@, JsonView::Text("timeout"@)), ("timeout_ms"@, optional_number(timeout_ms))],
            ),
        }),
{
    let mut fields: Vec<(String, Json)> = Vec::new();
    assert(field_views(fields@) =~= Seq::empty());
    field(&mut fields, "reason", text_json("timeout"));
    field(&mut fields, "timeout_ms", optional_number_json(timeout_ms));
    assert(field_views(fields@) =~= seq![
        ("reason"@, JsonView::Text("timeout"@)),
        ("timeout_ms"@, optional_number(timeout_ms)),
    ]);
    draft("sandbox.denied", "error", object(fields))
}

/// The form of a list of process numbers.
pub open spec fn pids_form(pids: Seq<u32>) -> JsonView {
    JsonView::Array(pids.map_values(|p: u32| JsonView::Number(p as int)))
}

/// The form of a list of process numbers.
fn pids_json(pids: &Vec<u32>) -> (j: Json)
    ensures
        j@ == pids_form(pids@),
{
    let mut items: Vec<Json> = Vec::new();
    for i in 0..pids.len()
        invariant
            items@.len() == i,
            forall|k: int| 0 <= k < i ==> (#[trigger] items@[k])@ == JsonView::Number(pids@[k] as int),
    {
        items.push(Json::UInt(pids[i] as u128));
    }
    assert(json_views(items@) =~= pids@.map_values(|p: u32| JsonView::Number(p as int)));
    array(items)
}

/// The data of the event for a sample of the processes.
pub open spec fn sample_form(s: ProcSample, cgroup: Option<CgroupStats>) -> JsonView {
    let rest = seq![
        ("pids"@, pids_form(s.pids@)),
        ("process_count"@, JsonView::Number(s.pids@.len() as int)),
        ("read_bytes"@, JsonView::Number(s.read_bytes as int)),
        ("rss_kb"@, JsonView::Number(s.rss_kb as int)),
        ("write_bytes"@, JsonView::Number(s.write_bytes as int)),
    ];
    JsonView::Object(
        match cgroup {
            Some(c) => seq![("cgroup"@, cgroup_form(c))] + rest,
            None => rest,
        },
    )
}

/// The event for a sample of the processes.
pub fn proc_sample_event(s: &ProcSample, cgroup: &Option<CgroupStats>) -> (d: EventDraft)
    ensures
        d@ == (DraftView { kind: "proc.sample"@, level: "debug"@, data: sample_form(*s, *cgroup) }),
{
    let mut fields: Vec<(String, Json)> = Vec::new();
    assert(field_views(fields@) =~= Seq::empty());
    if let Some(c) = cgroup {
        field(&mut fields, "cgroup", cgroup_json(c));
    }
    field(&mut fields, "pids", pids_json(&s.pids));
    field(&mut fields, "process_count", Json::UInt(s.pids.len() as u128));
    field(&mut fields, "read_bytes", Json::UInt(s.read_bytes as u128));
    field(&mut fields, "rss_kb", Json::UInt(s.rss_kb as u128));
    field(&mut fields, "write_bytes", Json::UInt(s.write_bytes as u128));
    assert(field_views(fields@) =~= sample_form(*s, *cgroup)->Object_0);
    draft("proc.sample", "debug", object(fields))
}

/// The event that the sandbox denied something.
pub fn failure_denied(f: &FailureClassification) -> (d: EventDraft)
    ensures
        d@ == (DraftView { kind: "sandbox.denied"@, level: "error"@, data: failure_form(f@) }),
{
    draft("sandbox.denied", "error", failure_json(f))
}

/// The data of the event that the process ended.
pub open spec fn exit_form(r: RunReport) -> JsonView {
    JsonView::Object(
        seq![
            ("exit_code"@, optional_signed(r.exit_code)),
            ("failure"@, failure_form(r.failure@)),
            ("signal"@, optional_signed(r.signal)),
            ("timed_out"@, JsonView::Bool(r.timed_out)),
        ],
    )
}

/// The events that close a run: the end of the process, then the whole report.
pub fn closing_events(r: &RunReport) -> (list: Vec<EventDraft>)
    ensures
        draft_views(list@) == seq![
            DraftView { kind: "process.exit"@, level: "info"@, data: exit_form(*r) },
            DraftView { kind: "run.summary"@, level: "info"@, data: run_report_form(*r) },
        ],
{
    let mut fields: Vec<(String, Json)> = Vec::new();
    assert(field_views(fields@) =~= Seq::empty());
    field(&mut fields, "exit_code", optional_signed_json(r.exit_code));
    field(&mut fields, "failure", failure_json(&r.failure));
    field(&mut fields, "signal", optional_signed_json(r.signal));
    field(&mut fields, "timed_out", Json::Bool(r.timed_out));
    assert(field_views(fields@) =~= exit_form(*r)->Object_0);
    let mut list: Vec<EventDraft> = Vec::new();
    list.push(draft("process.exit", "info", object(fields)));
    list.push(draft("run.summary", "info", r.to_json()));
    assert(draft_views(list@) =~= seq![
        DraftView { kind: "process.exit"@, level: "info"@, data: exit_form(*r) },
        DraftView { kind: "run.summary"@, level: "info"@, data: run_report_form(*r) },
    ]);
    list
}

/// The data of the event that the workspace was recorded before the command.
pub open spec fn checkpoint_form(workspace: Seq<char>, checkpoint: Seq<char>) -> JsonView {
    JsonView::Object(
        seq![("checkpoint_before"@, JsonView::Text(checkpoint)), ("workspace"@, JsonView::Text(workspace))],
    )
}

/// The event that the workspace was recorded before the command.
pub fn fs_checkpoint(workspace: &str, checkpoint: &str) -> (d: EventDraft)
    ensures
        d@ == (DraftView {
            kind: "fs.checkpoint"@,
            level: "info"@,
            data: checkpoint_form(workspace@, checkpoint@),
        }),
{
    let mut fields: Vec<(String, Json)> = Vec::new();
    assert(field_views(fields@) =~= Seq::empty());
    field(&mut fields, "checkpoint_before", text_json(checkpoint));
    field(&mut fields, "workspace", text_json(workspace));
    assert(field_views(fields@) =~= checkpoint_form(workspace@, checkpoint@)->Object_0);
    draft("fs.checkpoint", "info", object(fields))
}

/// The data of the event that tells what the command changed.
pub open spec fn diff_form(r: VersionedFsReport) -> JsonView {
    JsonView::Object(
        seq![
            ("changed_files"@, JsonView::Number(r.changed_files as int)),
            ("changes"@, changes_form(change_views(r.changes@))),
            ("checkpoint_after"@, JsonView::Text(r.checkpoint_after@)),
            ("checkpoint_before"@, JsonView::Text(r.checkpoint_before@)),
            ("journal_path"@, JsonView::Text(r.journal_path@)),
        ],
    )
}

/// The events on the workspace after the command: what it changed, then
/// whether that was committed or rolled back.
pub open spec fn workspace_drafts(r: VersionedFsReport) -> Seq<DraftView> {
    seq![DraftView { kind: "fs.diff"@, level: "info"@, data: diff_form(r) }] + (if r.committed {
        seq![
            DraftView {
                kind: "fs.commit"@,
                level: "info"@,
                data: one_text("checkpoint_after"@, r.checkpoint_after@),
            },
        ]
    } else {
        Seq::empty()
    }) + (match r.rollback {
        Some(report) => seq![DraftView { kind: "fs.rollback"@, level: "warn"@, data: rollback_form(report) }],
        None => Seq::empty(),
    })
}

/// The events on the workspace after the command.
pub fn workspace_events(r: &VersionedFsReport) -> (list: Vec<EventDraft>)
    ensures
        draft_views(list@) == workspace_drafts(*r),
{
    let mut fields: Vec<(String, Json)> = Vec::new();
    assert(field_views(fields@) =~= Seq::empty());
    field(&mut fields, "changed_files", Json::UInt(r.changed_files as u128));
    field(&mut fields, "changes", changes_json(&r.changes));
    field(&mut fields, "checkpoint_after", text_json(r.checkpoint_after.as_str()));
    field(&mut fields, "checkpoint_before", text_json(r.checkpoint_before.as_str()));
    field(&mut fields, "journal_path", text_json(r.journal_path.as_str()));
    assert(field_views(fields@) =~= diff_form(*r)->Object_0);
    let mut list: Vec<EventDraft> = Vec::new();
    list.push(draft("fs.diff", "info", object(fields)));
    if r.committed {
        list.push(draft("fs.commit", "info", one_text_json("checkpoint_after", r.checkpoint_after.as_str())));
    }
    if let Some(report) = &r.rollback {
        list.push(draft("fs.rollback", "warn", rollback_json(report)));
    }
    assert(draft_views(list@) =~= workspace_drafts(*r));
    list
}

} // verus!
