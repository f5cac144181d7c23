//! What is reported about a run and about the machine.

use crate::forms::{changes_form, changes_json};
use crate::json::{
    array, field, field_views, json_views, object, optional_number, optional_number_json,
    optional_signed, optional_signed_json, optional_text, optional_text_json, text_json, texts,
    texts_json, Json, JsonView,
};
use crate::run_id::{hyphenated, RunId};
use crate::string_map::StringMap;
use crate::text::views;
use crate::trace::{finding_form, finding_json, finding_views, Finding, FindingView};
use crate::versioned_fs::diff::{change_views, WorkspaceChange};
use crate::versioned_fs::entry::text_view;
use crate::versioned_fs::store::WorkspaceRollbackReport;
use vstd::prelude::*;

verus! {

/// How a run ended.
#[derive(Debug, Clone, Copy, PartialEq, Eq, Structural)]
pub enum FailureKind {
    Success,
    ExitNonZero,
    Timeout,
    Signal,
    SeccompDenied,
    LandlockDenied,
    OomLike,
}

/// How sure a classification is.
#[derive(Debug, Clone, Copy, PartialEq, Eq, Structural)]
pub enum Confidence {
    High,
    Medium,
    Low,
}

/// The name of a kind of failure.
pub open spec fn failure_kind_name(kind: FailureKind) -> Seq<char> {
    match kind {
        FailureKind::Success => "success"@,
        FailureKind::ExitNonZero => "exit_non_zero"@,
        FailureKind::Timeout => "timeout"@,
        FailureKind::Signal => "signal"@,
        FailureKind::SeccompDenied => "seccomp_denied"@,
        FailureKind::LandlockDenied => "landlock_denied"@,
        FailureKind::OomLike => "oom_like"@,
    }
}

/// The name of a degree of confidence.
pub open spec fn confidence_name(confidence: Confidence) -> Seq<char> {
    match confidence {
        Confidence::High => "high"@,
        Confidence::Medium => "medium"@,
        Confidence::Low => "low"@,
    }
}

impl FailureKind {
    /// The name of the kind.
    pub fn name(&self) -> (s: String)
        ensures
            s@ == failure_kind_name(*self),
    {
        match self {
            FailureKind::Success => "success".to_string(),
            FailureKind::ExitNonZero => "exit_non_zero".to_string(),
            FailureKind::Timeout => "timeout".to_string(),
            FailureKind::Signal => "signal".to_string(),
            FailureKind::SeccompDenied => "seccomp_denied".to_string(),
            FailureKind::LandlockDenied => "landlock_denied".to_string(),
            FailureKind::OomLike => "oom_like".to_string(),
        }
    }
}

impl Confidence {
    /// The name of the degree.
    pub fn name(&self) -> (s: String)
        ensures
            s@ == confidence_name(*self),
    {
        match self {
            Confidence::High => "high".to_string(),
            Confidence::Medium => "medium".to_string(),
            Confidence::Low => "low".to_string(),
        }
    }
}

/// How a run ended, how sure that is, and why.
#[derive(Debug, PartialEq, Eq)]
pub struct FailureClassification {
    pub kind: FailureKind,
    pub confidence: Confidence,
    pub reason: String,
    pub evidence: Vec<String>,
}

/// The mathematical value of a classification.
#[verifier::ext_equal]
pub struct FailureView {
    pub kind: FailureKind,
    pub confidence: Confidence,
    pub reason: Seq<char>,
    pub evidence: Seq<Seq<char>>,
}

impl View for FailureClassification {
    type V = FailureView;

    open spec fn view(&self) -> FailureView {
        FailureView {
            kind: self.kind,
            confidence: self.confidence,
            reason: self.reason@,
            evidence: views(self.evidence@),
        }
    }
}

/// The classification of a run that succeeded.
pub open spec fn success_view() -> FailureView {
    FailureView {
        kind: FailureKind::Success,
        confidence: Confidence::High,
        reason: "process exited successfully"@,
        evidence: seq!["exit_code=0"@],
    }
}

impl FailureClassification {
    /// The classification of a run that succeeded.
    pub fn success() -> (f: Self)
        ensures
            f@ == success_view(),
    {
        let mut evidence: Vec<String> = Vec::new();
        evidence.push("exit_code=0".to_string());
        assert(views(evidence@) =~= seq!["exit_code=0"@]);
        FailureClassification {
            kind: FailureKind::Success,
            confidence: Confidence::High,
            reason: "process exited successfully".to_string(),
            evidence,
        }
    }
}

/// How much a process wrote, and the end of it.
#[derive(Debug, PartialEq, Eq)]
pub struct OutputReport {
    pub stdout_bytes: u64,
    pub stderr_bytes: u64,
    pub stdout_truncated: bool,
    pub stderr_truncated: bool,
    pub stdout_tail: String,
    pub stderr_tail: String,
}

impl Default for OutputReport {
    fn default() -> (o: Self)
        ensures
            o.stdout_bytes == 0,
            o.stderr_bytes == 0,
            !o.stdout_truncated,
            !o.stderr_truncated,
            o.stdout_tail@.len() == 0,
            o.stderr_tail@.len() == 0,
    {
        OutputReport {
            stdout_bytes: 0,
            stderr_bytes: 0,
            stdout_truncated: false,
            stderr_truncated: false,
            stdout_tail: String::new(),
            stderr_tail: String::new(),
        }
    }
}

/// What a control group tells of its processes.
#[derive(Debug, PartialEq, Eq)]
pub struct CgroupStats {
    pub path: Option<String>,
    pub cpu_usage_usec: Option<u64>,
    pub cpu_user_usec: Option<u64>,
    pub cpu_system_usec: Option<u64>,
    pub memory_current_bytes: Option<u64>,
    pub memory_peak_bytes: Option<u64>,
    pub memory_events: StringMap<u64>,
    pub memory_events_delta: StringMap<i64>,
    pub pids_current: Option<u64>,
}

/// What a process used.
#[derive(Debug, PartialEq, Eq)]
pub struct ResourceUsage {
    pub user_cpu_ms: Option<u64>,
    pub system_cpu_ms: Option<u64>,
    pub max_rss_kb: Option<i64>,
    pub read_bytes: Option<u64>,
    pub write_bytes: Option<u64>,
    pub cgroup: Option<CgroupStats>,
}

impl Default for ResourceUsage {
    fn default() -> (r: Self)
        ensures
            r.user_cpu_ms is None,
            r.system_cpu_ms is None,
            r.max_rss_kb is None,
            r.read_bytes is None,
            r.write_bytes is None,
            r.cgroup is None,
    {
        ResourceUsage {
            user_cpu_ms: None,
            system_cpu_ms: None,
            max_rss_kb: None,
            read_bytes: None,
            write_bytes: None,
            cgroup: None,
        }
    }
}

/// What to look at or to change next.
#[derive(Debug, PartialEq, Eq)]
pub struct DiagnosticHint {
    pub code: String,
    pub severity: String,
    pub message: String,
    pub action: String,
    pub tags: Vec<String>,
}

/// The mathematical value of a hint.
#[verifier::ext_equal]
pub struct HintView {
    pub code: Seq<char>,
    pub severity: Seq<char>,
    pub message: Seq<char>,
    pub action: Seq<char>,
    pub tags: Seq<Seq<char>>,
}

impl View for DiagnosticHint {
    type V = HintView;

    open spec fn view(&self) -> HintView {
        HintView {
            code: self.code@,
            severity: self.severity@,
            message: self.message@,
            action: self.action@,
            tags: views(self.tags@),
        }
    }
}

/// The values of a list of hints.
pub open spec fn hint_views(list: Seq<DiagnosticHint>) -> Seq<HintView> {
    list.map_values(|h: DiagnosticHint| h@)
}

/// What a run did to its workspace.
#[derive(Debug, PartialEq, Eq)]
pub struct VersionedFsReport {
    pub enabled: bool,
    pub workspace: String,
    pub checkpoint_before: String,
    pub checkpoint_after: String,
    pub journal_path: String,
    pub changed_files: usize,
    pub changes: Vec<WorkspaceChange>,
    pub committed: bool,
    pub rolled_back: bool,
    pub rollback: Option<WorkspaceRollbackReport>,
}

/// The report of a run.
#[derive(Debug, PartialEq, Eq)]
pub struct RunReport {
    pub schema_version: u32,
    pub shadox_version: String,
    pub profile: String,
    pub profile_version: u32,
    pub run_id: RunId,
    pub command: Vec<String>,
    pub exit_code: Option<i32>,
    pub signal: Option<i32>,
    pub timed_out: bool,
    pub duration_ms: u128,
    pub trace_path: String,
    pub summary_path: String,
    pub resources: ResourceUsage,
    pub output: OutputReport,
    pub failure: FailureClassification,
    pub denials: Vec<String>,
    pub findings: Vec<Finding>,
    pub hints: Vec<DiagnosticHint>,
    pub fs: Option<VersionedFsReport>,
}

/// What the machine offers.
#[derive(Debug, PartialEq, Eq)]
pub struct EnvReport {
    pub platform: String,
    pub supported: bool,
    pub details: Vec<(String, Json)>,
}

/// The form of a classification.
pub open spec fn failure_form(f: FailureView) -> JsonView {
    JsonView::Object(
        seq![
            ("confidence"@, JsonView::Text(confidence_name(f.confidence))),
            ("evidence"@, texts(f.evidence)),
            ("kind"@, JsonView::Text(failure_kind_name(f.kind))),
            ("reason"@, JsonView::Text(f.reason)),
        ],
    )
}

/// The form of a classification.
pub fn failure_json(f: &FailureClassification) -> (j: Json)
    ensures
        j@ == failure_form(f@),
{
    let mut fields: Vec<(String, Json)> = Vec::new();
    assert(field_views(fields@) =~= Seq::empty());
    field(&mut fields, "confidence", Json::Text(f.confidence.name()));
    field(&mut fields, "evidence", texts_json(&f.evidence));
    field(&mut fields, "kind", Json::Text(f.kind.name()));
    field(&mut fields, "reason", text_json(f.reason.as_str()));
    assert(field_views(fields@) =~= failure_form(f@)->Object_0);
    object(fields)
}

/// The form of an output report.
pub open spec fn output_form(o: OutputReport) -> JsonView {
    JsonView::Object(
        seq![
            ("stderr_bytes"@, JsonView::Number(o.stderr_bytes as int)),
            ("stderr_tail"@, JsonView::Text(o.stderr_tail@)),
            ("stderr_truncated"@, JsonView::Bool(o.stderr_truncated)),
            ("stdout_bytes"@, JsonView::Number(o.stdout_bytes as int)),
            ("stdout_tail"@, JsonView::Text(o.stdout_tail@)),
            ("stdout_truncated"@, JsonView::Bool(o.stdout_truncated)),
        ],
    )
}

/// The form of an output report.
pub fn output_json(o: &OutputReport) -> (j: Json)
    ensures
        j@ == output_form(*o),
{
    let mut fields: Vec<(String, Json)> = Vec::new();
    assert(field_views(fields@) =~= Seq::empty());
    field(&mut fields, "stderr_bytes", Json::UInt(o.stderr_bytes as u128));
    field(&mut fields, "stderr_tail", text_json(o.stderr_tail.as_str()));
    field(&mut fields, "stderr_truncated", Json::Bool(o.stderr_truncated));
    field(&mut fields, "stdout_bytes", Json::UInt(o.stdout_bytes as u128));
    field(&mut fields, "stdout_tail", text_json(o.stdout_tail.as_str()));
    field(&mut fields, "stdout_truncated", Json::Bool(o.stdout_truncated));
    assert(field_views(fields@) =~= output_form(*o)->Object_0);
    object(fields)
}

/// The form of a map of counts, given by its pairs.
pub open spec fn counts_form(items: Seq<(String, u64)>) -> JsonView {
    JsonView::Object(items.map_values(|item: (String, u64)| (item.0@, JsonView::Number(item.1 as int))))
}

/// The form of a map of counts.
fn counts_json(map: &StringMap<u64>) -> (j: Json)
    ensures
        j@ == counts_form(map.items@),
{
    let mut fields: Vec<(String, Json)> = Vec::new();
    assert(field_views(fields@) =~= Seq::empty());
    for i in 0..map.items.len()
        invariant
            field_views(fields@).len() == i,
            forall|k: int| 0 <= k < i ==> #[trigger] field_views(fields@)[k] == (map.items@[k].0@, JsonView::Number(map.items@[k].1 as int)),
    {
        field(&mut fields, map.items[i].0.as_str(), Json::UInt(map.items[i].1 as u128));
    }
    assert(field_views(fields@) =~= map.items@.map_values(|item: (String, u64)| (item.0@, JsonView::Number(item.1 as int))));
    object(fields)
}

/// The form of a map of differences, given by its pairs.
pub open spec fn deltas_form(items: Seq<(String, i64)>) -> JsonView {
    JsonView::Object(items.map_values(|item: (String, i64)| (item.0@, JsonView::Number(item.1 as int))))
}

/// The form of a map of differences.
fn deltas_json(map: &StringMap<i64>) -> (j: Json)
    ensures
        j@ == deltas_form(map.items@),
{
    let mut fields: Vec<(String, Json)> = Vec::new();
    assert(field_views(fields@) =~= Seq::empty());
    for i in 0..map.items.len()
        invariant
            field_views(fields@).len() == i,
            forall|k: int| 0 <= k < i ==> #[trigger] field_views(fields@)[k] == (map.items@[k].0@, JsonView::Number(map.items@[k].1 as int)),
    {
        field(&mut fields, map.items[i].0.as_str(), Json::Int(map.items[i].1));
    }
    assert(field_views(fields@) =~= map.items@.map_values(|item: (String, i64)| (item.0@, JsonView::Number(item.1 as int))));
    object(fields)
}

/// The form of what a control group tells.
pub open spec fn cgroup_form(c: CgroupStats) -> JsonView {
    JsonView::Object(
        seq![
            ("cpu_system_usec"@, optional_number(c.cpu_system_usec)),
            ("cpu_usage_usec"@, optional_number(c.cpu_usage_usec)),
            ("cpu_user_usec"@, optional_number(c.cpu_user_usec)),
            ("memory_current_bytes"@, optional_number(c.memory_current_bytes)),
            ("memory_events"@, counts_form(c.memory_events.items@)),
            ("memory_events_delta"@, deltas_form(c.memory_events_delta.items@)),
            ("memory_peak_bytes"@, optional_number(c.memory_peak_bytes)),
            ("path"@, optional_text(text_view(c.path))),
            ("pids_current"@, optional_number(c.pids_current)),
        ],
    )
}

/// The form of what a control group tells.
pub fn cgroup_json(c: &CgroupStats) -> (j: Json)
    ensures
        j@ == cgroup_form(*c),
{
    let mut fields: Vec<(String, Json)> = Vec::new();
    assert(field_views(fields@) =~= Seq::empty());
    field(&mut fields, "cpu_system_usec", optional_number_json(c.cpu_system_usec));
    field(&mut fields, "cpu_usage_usec", optional_number_json(c.cpu_usage_usec));
    field(&mut fields, "cpu_user_usec", optional_number_json(c.cpu_user_usec));
    field(&mut fields, "memory_current_bytes", optional_number_json(c.memory_current_bytes));
    field(&mut fields, "memory_events", counts_json(&c.memory_events));
    field(&mut fields, "memory_events_delta", deltas_json(&c.memory_events_delta));
    field(&mut fields, "memory_peak_bytes", optional_number_json(c.memory_peak_bytes));
    field(&mut fields, "path", optional_text_json(&c.path));
    field(&mut fields, "pids_current", optional_number_json(c.pids_current));
    assert(field_views(fields@) =~= cgroup_form(*c)->Object_0);
    object(fields)
}

/// The form of what a process used.
pub open spec fn resources_form(r: ResourceUsage) -> JsonView {
    JsonView::Object(
        seq![
            (
                "cgroup"@,
                match r.cgroup {
                    Some(c) => cgroup_form(c),
                    None => JsonView::Null,
                },
            ),
            (
                "max_rss_kb"@,
                match r.max_rss_kb {
                    Some(n) => JsonView::Number(n as int),
                    None => JsonView::Null,
                },
            ),
            ("read_bytes"@, optional_number(r.read_bytes)),
            ("system_cpu_ms"@, optional_number(r.system_cpu_ms)),
            ("user_cpu_ms"@, optional_number(r.user_cpu_ms)),
            ("write_bytes"@, optional_number(r.write_bytes)),
        ],
    )
}

/// The form of what a process used.
pub fn resources_json(r: &ResourceUsage) -> (j: Json)
    ensures
        j@ == resources_form(*r),
{
    let mut fields: Vec<(String, Json)> = Vec::new();
    assert(field_views(fields@) =~= Seq::empty());
    let cgroup = match &r.cgroup {
        Some(c) => cgroup_json(c),
        None => Json::Null,
    };
    field(&mut fields, "cgroup", cgroup);
    let max_rss = match r.max_rss_kb {
        Some(n) => Json::Int(n),
        None => Json::Null,
    };
    field(&mut fields, "max_rss_kb", max_rss);
    field(&mut fields, "read_bytes", optional_number_json(r.read_bytes));
    field(&mut fields, "system_cpu_ms", optional_number_json(r.system_cpu_ms));
    field(&mut fields, "user_cpu_ms", optional_number_json(r.user_cpu_ms));
    field(&mut fields, "write_bytes", optional_number_json(r.write_bytes));
    assert(field_views(fields@) =~= resources_form(*r)->Object_0);
    object(fields)
}

/// The form of a hint.
pub open spec fn hint_form(h: HintView) -> JsonView {
    JsonView::Object(
        seq![
            ("action"@, JsonView::Text(h.action)),
            ("code"@, JsonView::Text(h.code)),
            ("message"@, JsonView::Text(h.message)),
            ("severity"@, JsonView::Text(h.severity)),
            ("tags"@, texts(h.tags)),
        ],
    )
}

/// The form of a hint.
pub fn hint_json(h: &DiagnosticHint) -> (j: Json)
    ensures
        j@ == hint_form(h@),
{
    let mut fields: Vec<(String, Json)> = Vec::new();
    assert(field_views(fields@) =~= Seq::empty());
    field(&mut fields, "action", text_json(h.action.as_str()));
    field(&mut fields, "code", text_json(h.code.as_str()));
    field(&mut fields, "message", text_json(h.message.as_str()));
    field(&mut fields, "severity", text_json(h.severity.as_str()));
    field(&mut fields, "tags", texts_json(&h.tags));
    assert(field_views(fields@) =~= hint_form(h@)->Object_0);
    object(fields)
}

/// The form of a rollback report.
pub open spec fn rollback_form(r: WorkspaceRollbackReport) -> JsonView {
    JsonView::Object(
        seq![
            ("checkpoint_id"@, JsonView::Text(r.checkpoint_id@)),
            ("removed_paths"@, JsonView::Number(r.removed_paths as int)),
            ("restored_dirs"@, JsonView::Number(r.restored_dirs as int)),
            ("restored_files"@, JsonView::Number(r.restored_files as int)),
        ],
    )
}

/// The form of a rollback report.
pub fn rollback_json(r: &WorkspaceRollbackReport) -> (j: Json)
    ensures
        j@ == rollback_form(*r),
{
    let mut fields: Vec<(String, Json)> = Vec::new();
    assert(field_views(fields@) =~= Seq::empty());
    field(&mut fields, "checkpoint_id", text_json(r.checkpoint_id.as_str()));
    field(&mut fields, "removed_paths", Json::UInt(r.removed_paths as u128));
    field(&mut fields, "restored_dirs", Json::UInt(r.restored_dirs as u128));
    field(&mut fields, "restored_files", Json::UInt(r.restored_files as u128));
    assert(field_views(fields@) =~= rollback_form(*r)->Object_0);
    object(fields)
}

/// The form of what a run did to its workspace.
pub open spec fn fs_report_form(r: VersionedFsReport) -> JsonView {
    JsonView::Object(
        seq![
            ("changed_files"@, JsonView::Number(r.changed_files as int)),
            ("changes"@, changes_form(change_views(r.changes@))),
            ("checkpoint_after"@, JsonView::Text(r.checkpoint_after@)),
            ("checkpoint_before"@, JsonView::Text(r.checkpoint_before@)),
            ("committed"@, JsonView::Bool(r.committed)),
            ("enabled"@, JsonView::Bool(r.enabled)),
            ("journal_path"@, JsonView::Text(r.journal_path@)),
            (
                "rollback"@,
                match r.rollback {
                    Some(report) => rollback_form(report),
                    None => JsonView::Null,
                },
            ),
            ("rolled_back"@, JsonView::Bool(r.rolled_back)),
            ("workspace"@, JsonView::Text(r.workspace@)),
        ],
    )
}

/// The form of what a run did to its workspace.
pub fn fs_report_json(r: &VersionedFsReport) -> (j: Json)
    ensures
        j@ == fs_report_form(*r),
{
    let mut fields: Vec<(String, Json)> = Vec::new();
    assert(field_views(fields@) =~= Seq::empty());
    field(&mut fields, "changed_files", Json::UInt(r.changed_files as u128));
    field(&mut fields, "changes", changes_json(&r.changes));
    field(&mut fields, "checkpoint_after", text_json(r.checkpoint_after.as_str()));
    field(&mut fields, "checkpoint_before", text_json(r.checkpoint_before.as_str()));
    field(&mut fields, "committed", Json::Bool(r.committed));
    field(&mut fields, "enabled", Json::Bool(r.enabled));
    field(&mut fields, "journal_path", text_json(r.journal_path.as_str()));
    let rollback = match &r.rollback {
        Some(report) => rollback_json(report),
        None => Json::Null,
    };
    field(&mut fields, "rollback", rollback);
    field(&mut fields, "rolled_back", Json::Bool(r.rolled_back));
    field(&mut fields, "workspace", text_json(r.workspace.as_str()));
    assert(field_views(fields@) =~= fs_report_form(*r)->Object_0);
    object(fields)
}

/// The form of a list of findings.
pub open spec fn findings_form(list: Seq<FindingView>) -> JsonView {
    JsonView::Array(list.map_values(|f: FindingView| finding_form(f)))
}

/// The form of a list of findings.
pub fn findings_json(list: &Vec<Finding>) -> (j: Json)
    ensures
        j@ == findings_form(finding_views(list@)),
{
    let mut items: Vec<Json> = Vec::new();
    for i in 0..list.len()
        invariant
            items@.len() == i,
            forall|k: int| 0 <= k < i ==> (#[trigger] items@[k])@ == finding_form(list@[k]@),
    {
        items.push(finding_json(&list[i]));
    }
    assert(json_views(items@) =~= finding_views(list@).map_values(|f: FindingView| finding_form(f)));
    array(items)
}

/// The form of a list of hints.
pub open spec fn hints_form(list: Seq<HintView>) -> JsonView {
    JsonView::Array(list.map_values(|h: HintView| hint_form(h)))
}

/// The form of a list of hints.
pub fn hints_json(list: &Vec<DiagnosticHint>) -> (j: Json)
    ensures
        j@ == hints_form(hint_views(list@)),
{
    let mut items: Vec<Json> = Vec::new();
    for i in 0..list.len()
        invariant
            items@.len() == i,
            forall|k: int| 0 <= k < i ==> (#[trigger] items@[k])@ == hint_form(list@[k]@),
    {
        items.push(hint_json(&list[i]));
    }
    assert(json_views(items@) =~= hint_views(list@).map_values(|h: HintView| hint_form(h)));
    array(items)
}

/// The form of a run report.
pub open spec fn run_report_form(r: RunReport) -> JsonView {
    JsonView::Object(
        seq![
            ("command"@, texts(views(r.command@))),
            ("denials"@, texts(views(r.denials@))),
            ("duration_ms"@, JsonView::Number(r.duration_ms as int)),
            ("exit_code"@, optional_signed(r.exit_code)),
            ("failure"@, failure_form(r.failure@)),
            ("findings"@, findings_form(finding_views(r.findings@))),
            (
                "fs"@,
                match r.fs {
                    Some(fs) => fs_report_form(fs),
                    None => JsonView::Null,
                },
            ),
            ("hints"@, hints_form(hint_views(r.hints@))),
            ("output"@, output_form(r.output)),
            ("profile"@, JsonView::Text(r.profile@)),
            ("profile_version"@, JsonView::Number(r.profile_version as int)),
            ("resources"@, resources_form(r.resources)),
            ("run_id"@, JsonView::Text(hyphenated(r.run_id.value))),
            ("schema_version"@, JsonView::Number(r.schema_version as int)),
            ("shadox_version"@, JsonView::Text(r.shadox_version@)),
            ("signal"@, optional_signed(r.signal)),
            ("summary_path"@, JsonView::Text(r.summary_path@)),
            ("timed_out"@, JsonView::Bool(r.timed_out)),
            ("trace_path"@, JsonView::Text(r.trace_path@)),
        ],
    )
}

impl RunReport {
    /// The report as a JSON value.
    pub fn to_json(&self) -> (j: Json)
        ensures
            j@ == run_report_form(*self),
    {
        let mut fields: Vec<(String, Json)> = Vec::new();
        assert(field_views(fields@) =~= Seq::empty());
        field(&mut fields, "command", texts_json(&self.command));
        field(&mut fields, "denials", texts_json(&self.denials));
        field(&mut fields, "duration_ms", Json::UInt(self.duration_ms));
        field(&mut fields, "exit_code", optional_signed_json(self.exit_code));
        field(&mut fields, "failure", failure_json(&self.failure));
        field(&mut fields, "findings", findings_json(&self.findings));
        let fs = match &self.fs {
            Some(fs) => fs_report_json(fs),
            None => Json::Null,
        };
        field(&mut fields, "fs", fs);
        field(&mut fields, "hints", hints_json(&self.hints));
        field(&mut fields, "output", output_json(&self.output));
        field(&mut fields, "profile", text_json(self.profile.as_str()));
        field(&mut fields, "profile_version", Json::UInt(self.profile_version as u128));
        field(&mut fields, "resources", resources_json(&self.resources));
        field(&mut fields, "run_id", Json::Text(self.run_id.text()));
        field(&mut fields, "schema_version", Json::UInt(self.schema_version as u128));
        field(&mut fields, "shadox_version", text_json(self.shadox_version.as_str()));
        field(&mut fields, "signal", optional_signed_json(self.signal));
        field(&mut fields, "summary_path", text_json(self.summary_path.as_str()));
        field(&mut fields, "timed_out", Json::Bool(self.timed_out));
        field(&mut fields, "trace_path", text_json(self.trace_path.as_str()));
        assert(field_views(fields@) =~= run_report_form(*self)->Object_0);
        object(fields)
    }
}

} // verus!
