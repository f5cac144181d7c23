//! What reports, policies and events tell, under which names.

use crate::config::{
    EffectivePolicy, FsSpec, LimitsSpec, ObserveSpec, ProcessSpec, SandboxProfile, SeccompProfile, SecuritySpec,
    VersionedWorkspaceSpec,
};
use crate::forms::{
    change_json, fs_form, fs_json, limits_form, limits_json, observe_form, observe_json, optional_entry_form,
    policy_json, process_form, process_json, security_form, security_json, versioned_workspace_form,
    versioned_workspace_json,
};
use crate::json::{texts, Json, JsonView};
use crate::laws::journal_reading::{named, named_from};
use crate::report::{
    cgroup_json, failure_form, failure_json, fs_report_form, fs_report_json, hint_json, output_form, output_json,
    resources_form, resources_json, rollback_json, CgroupStats, Confidence, DiagnosticHint, FailureClassification,
    FailureKind, OutputReport, ResourceUsage, RunReport, VersionedFsReport,
};
use crate::run_id::hyphenated;
use crate::text::views;
use crate::trace::{finding_json, Finding, TraceEvent};
use crate::versioned_fs::diff::{WorkspaceChange, WorkspaceChangeKind};
use crate::versioned_fs::entry::entry_view;
use crate::versioned_fs::store::WorkspaceRollbackReport;
use vstd::prelude::*;

verus! {

/// A number, or null.
pub open spec fn number_or_null(n: Option<u64>) -> JsonView {
    match n {
        Some(n) => JsonView::Number(n as int),
        None => JsonView::Null,
    }
}

/// A signed number, or null.
pub open spec fn signed_or_null(n: Option<i32>) -> JsonView {
    match n {
        Some(n) => JsonView::Number(n as int),
        None => JsonView::Null,
    }
}

/// A text, or null.
pub open spec fn text_or_null(text: Option<String>) -> JsonView {
    match text {
        Some(s) => JsonView::Text(s@),
        None => JsonView::Null,
    }
}

/// The array of some texts.
pub open spec fn list_of(list: Seq<String>) -> JsonView {
    JsonView::Array(Seq::new(list.len(), |i: int| JsonView::Text(list[i]@)))
}

pub proof fn lemma_list_of(list: Seq<String>)
    ensures
        texts(views(list)) == list_of(list),
{
    assert(texts(views(list))->Array_0 =~= list_of(list)->Array_0);
}

/// The names differ.
proof fn lemma_a_failure_is_told_in_words()
    ensures
        "confidence"@ != "evidence"@,
        "confidence"@ != "kind"@,
        "evidence"@ != "kind"@,
        "confidence"@ != "reason"@,
        "evidence"@ != "reason"@,
        "kind"@ != "reason"@,
{
    reveal_strlit("confidence");
    reveal_strlit("evidence");
    reveal_strlit("kind");
    reveal_strlit("reason");
    assert("confidence"@.len() == 10);
    assert("evidence"@.len() == 8);
    assert("kind"@.len() == 4);
    assert("reason"@.len() == 6);
}

/// A classification tells its kind and its confidence in words, and its reason
/// and evidence.
pub proof fn a_failure_is_told_in_words(x: FailureClassification, j: Json)
    requires
        call_ensures(failure_json, (&x,), j),
    ensures
        named(j@, "confidence"@) == Some(JsonView::Text(
            match x.confidence {
                Confidence::High => "high"@,
                Confidence::Medium => "medium"@,
                Confidence::Low => "low"@,
            },
        )),
        named(j@, "evidence"@) == Some(list_of(x.evidence@)),
        named(j@, "kind"@) == Some(JsonView::Text(
            match x.kind {
                FailureKind::Success => "success"@,
                FailureKind::ExitNonZero => "exit_non_zero"@,
                FailureKind::Timeout => "timeout"@,
                FailureKind::Signal => "signal"@,
                FailureKind::SeccompDenied => "seccomp_denied"@,
                FailureKind::LandlockDenied => "landlock_denied"@,
                FailureKind::OomLike => "oom_like"@,
            },
        )),
        named(j@, "reason"@) == Some(JsonView::Text(x.reason@)),
{
    lemma_a_failure_is_told_in_words();
    lemma_list_of(x.evidence@);
    reveal_with_fuel(named_from, 5);
    let f = j@->Object_0;
    assert(f[0].0 == "confidence"@);
    assert(f[1].0 == "evidence"@);
    assert(f[2].0 == "kind"@);
    assert(f[3].0 == "reason"@);
}

/// The names differ.
proof fn lemma_output_is_told_by_stream()
    ensures
        "stderr_bytes"@ != "stderr_tail"@,
        "stderr_bytes"@ != "stderr_truncated"@,
        "stderr_tail"@ != "stderr_truncated"@,
        "stderr_bytes"@ != "stdout_bytes"@,
        "stderr_tail"@ != "stdout_bytes"@,
        "stderr_truncated"@ != "stdout_bytes"@,
        "stderr_bytes"@ != "stdout_tail"@,
        "stderr_tail"@ != "stdout_tail"@,
        "stderr_truncated"@ != "stdout_tail"@,
        "stdout_bytes"@ != "stdout_tail"@,
        "stderr_bytes"@ != "stdout_truncated"@,
        "stderr_tail"@ != "stdout_truncated"@,
        "stderr_truncated"@ != "stdout_truncated"@,
        "stdout_bytes"@ != "stdout_truncated"@,
        "stdout_tail"@ != "stdout_truncated"@,
{
    reveal_strlit("stderr_bytes");
    reveal_strlit("stderr_tail");
    reveal_strlit("stderr_truncated");
    reveal_strlit("stdout_bytes");
    reveal_strlit("stdout_tail");
    reveal_strlit("stdout_truncated");
    assert("stderr_bytes"@.len() == 12);
    assert("stderr_tail"@.len() == 11);
    assert("stderr_truncated"@.len() == 16);
    assert("stdout_bytes"@.len() == 12);
    assert("stdout_tail"@.len() == 11);
    assert("stdout_truncated"@.len() == 16);
    assert("stderr_bytes"@[3] != "stdout_bytes"@[3]);
    assert("stderr_tail"@[3] != "stdout_tail"@[3]);
    assert("stderr_truncated"@[3] != "stdout_truncated"@[3]);
}

/// The report of the output tells of each stream its bytes, its tail and
/// whether that was cut.
pub proof fn output_is_told_by_stream(x: OutputReport, j: Json)
    requires
        call_ensures(output_json, (&x,), j),
    ensures
        named(j@, "stderr_bytes"@) == Some(JsonView::Number(x.stderr_bytes as int)),
        named(j@, "stderr_tail"@) == Some(JsonView::Text(x.stderr_tail@)),
        named(j@, "stderr_truncated"@) == Some(JsonView::Bool(x.stderr_truncated)),
        named(j@, "stdout_bytes"@) == Some(JsonView::Number(x.stdout_bytes as int)),
        named(j@, "stdout_tail"@) == Some(JsonView::Text(x.stdout_tail@)),
        named(j@, "stdout_truncated"@) == Some(JsonView::Bool(x.stdout_truncated)),
{
    lemma_output_is_told_by_stream();
    reveal_with_fuel(named_from, 7);
    let f = j@->Object_0;
    assert(f[0].0 == "stderr_bytes"@);
    assert(f[1].0 == "stderr_tail"@);
    assert(f[2].0 == "stderr_truncated"@);
    assert(f[3].0 == "stdout_bytes"@);
    assert(f[4].0 == "stdout_tail"@);
    assert(f[5].0 == "stdout_truncated"@);
}

/// The names differ.
pub proof fn lemma_a_control_group_is_told_by_name()
    ensures
        "cpu_system_usec"@ != "cpu_usage_usec"@,
        "cpu_system_usec"@ != "cpu_user_usec"@,
        "cpu_usage_usec"@ != "cpu_user_usec"@,
        "cpu_system_usec"@ != "memory_current_bytes"@,
        "cpu_usage_usec"@ != "memory_current_bytes"@,
        "cpu_user_usec"@ != "memory_current_bytes"@,
        "cpu_system_usec"@ != "memory_events"@,
        "cpu_usage_usec"@ != "memory_events"@,
        "cpu_user_usec"@ != "memory_events"@,
        "memory_current_bytes"@ != "memory_events"@,
        "cpu_system_usec"@ != "memory_events_delta"@,
        "cpu_usage_usec"@ != "memory_events_delta"@,
        "cpu_user_usec"@ != "memory_events_delta"@,
        "memory_current_bytes"@ != "memory_events_delta"@,
        "memory_events"@ != "memory_events_delta"@,
        "cpu_system_usec"@ != "memory_peak_bytes"@,
        "cpu_usage_usec"@ != "memory_peak_bytes"@,
        "cpu_user_usec"@ != "memory_peak_bytes"@,
        "memory_current_bytes"@ != "memory_peak_bytes"@,
        "memory_events"@ != "memory_peak_bytes"@,
        "memory_events_delta"@ != "memory_peak_bytes"@,
        "cpu_system_usec"@ != "path"@,
        "cpu_usage_usec"@ != "path"@,
        "cpu_user_usec"@ != "path"@,
        "memory_current_bytes"@ != "path"@,
        "memory_events"@ != "path"@,
        "memory_events_delta"@ != "path"@,
        "memory_peak_bytes"@ != "path"@,
        "cpu_system_usec"@ != "pids_current"@,
        "cpu_usage_usec"@ != "pids_current"@,
        "cpu_user_usec"@ != "pids_current"@,
        "memory_current_bytes"@ != "pids_current"@,
        "memory_events"@ != "pids_current"@,
        "memory_events_delta"@ != "pids_current"@,
        "memory_peak_bytes"@ != "pids_current"@,
        "path"@ != "pids_current"@,
{
    reveal_strlit("cpu_system_usec");
    reveal_strlit("cpu_usage_usec");
    reveal_strlit("cpu_user_usec");
    reveal_strlit("memory_current_bytes");
    reveal_strlit("memory_events");
    reveal_strlit("memory_events_delta");
    reveal_strlit("memory_peak_bytes");
    reveal_strlit("path");
    reveal_strlit("pids_current");
    assert("cpu_system_usec"@.len() == 15);
    assert("cpu_usage_usec"@.len() == 14);
    assert("cpu_user_usec"@.len() == 13);
    assert("memory_current_bytes"@.len() == 20);
    assert("memory_events"@.len() == 13);
    assert("memory_events_delta"@.len() == 19);
    assert("memory_peak_bytes"@.len() == 17);
    assert("path"@.len() == 4);
    assert("pids_current"@.len() == 12);
    assert("cpu_user_usec"@[0] != "memory_events"@[0]);
}

/// A control group tells each of its numbers under the number's name.
pub proof fn a_control_group_is_told_by_name(x: CgroupStats, j: Json)
    requires
        call_ensures(cgroup_json, (&x,), j),
    ensures
        named(j@, "cpu_system_usec"@) == Some(number_or_null(x.cpu_system_usec)),
        named(j@, "cpu_usage_usec"@) == Some(number_or_null(x.cpu_usage_usec)),
        named(j@, "cpu_user_usec"@) == Some(number_or_null(x.cpu_user_usec)),
        named(j@, "memory_current_bytes"@) == Some(number_or_null(x.memory_current_bytes)),
        named(j@, "memory_peak_bytes"@) == Some(number_or_null(x.memory_peak_bytes)),
        named(j@, "path"@) == Some(text_or_null(x.path)),
        named(j@, "pids_current"@) == Some(number_or_null(x.pids_current)),
{
    lemma_a_control_group_is_told_by_name();
    reveal_with_fuel(named_from, 10);
    let f = j@->Object_0;
    assert(f[0].0 == "cpu_system_usec"@);
    assert(f[1].0 == "cpu_usage_usec"@);
    assert(f[2].0 == "cpu_user_usec"@);
    assert(f[3].0 == "memory_current_bytes"@);
    assert(f[4].0 == "memory_events"@);
    assert(f[5].0 == "memory_events_delta"@);
    assert(f[6].0 == "memory_peak_bytes"@);
    assert(f[7].0 == "path"@);
    assert(f[8].0 == "pids_current"@);
}

/// The names differ.
proof fn lemma_resources_are_told_by_name()
    ensures
        "cgroup"@ != "max_rss_kb"@,
        "cgroup"@ != "read_bytes"@,
        "max_rss_kb"@ != "read_bytes"@,
        "cgroup"@ != "system_cpu_ms"@,
        "max_rss_kb"@ != "system_cpu_ms"@,
        "read_bytes"@ != "system_cpu_ms"@,
        "cgroup"@ != "user_cpu_ms"@,
        "max_rss_kb"@ != "user_cpu_ms"@,
        "read_bytes"@ != "user_cpu_ms"@,
        "system_cpu_ms"@ != "user_cpu_ms"@,
        "cgroup"@ != "write_bytes"@,
        "max_rss_kb"@ != "write_bytes"@,
        "read_bytes"@ != "write_bytes"@,
        "system_cpu_ms"@ != "write_bytes"@,
        "user_cpu_ms"@ != "write_bytes"@,
{
    reveal_strlit("cgroup");
    reveal_strlit("max_rss_kb");
    reveal_strlit("read_bytes");
    reveal_strlit("system_cpu_ms");
    reveal_strlit("user_cpu_ms");
    reveal_strlit("write_bytes");
    assert("cgroup"@.len() == 6);
    assert("max_rss_kb"@.len() == 10);
    assert("read_bytes"@.len() == 10);
    assert("system_cpu_ms"@.len() == 13);
    assert("user_cpu_ms"@.len() == 11);
    assert("write_bytes"@.len() == 11);
    assert("max_rss_kb"@[0] != "read_bytes"@[0]);
    assert("user_cpu_ms"@[0] != "write_bytes"@[0]);
}

/// What a process used is told under the name of each resource.
pub proof fn resources_are_told_by_name(x: ResourceUsage, j: Json)
    requires
        call_ensures(resources_json, (&x,), j),
    ensures
        named(j@, "max_rss_kb"@) == Some(match x.max_rss_kb {
            Some(n) => JsonView::Number(n as int),
            None => JsonView::Null,
        }),
        named(j@, "read_bytes"@) == Some(number_or_null(x.read_bytes)),
        named(j@, "system_cpu_ms"@) == Some(number_or_null(x.system_cpu_ms)),
        named(j@, "user_cpu_ms"@) == Some(number_or_null(x.user_cpu_ms)),
        named(j@, "write_bytes"@) == Some(number_or_null(x.write_bytes)),
{
    lemma_resources_are_told_by_name();
    reveal_with_fuel(named_from, 7);
    let f = j@->Object_0;
    assert(f[0].0 == "cgroup"@);
    assert(f[1].0 == "max_rss_kb"@);
    assert(f[2].0 == "read_bytes"@);
    assert(f[3].0 == "system_cpu_ms"@);
    assert(f[4].0 == "user_cpu_ms"@);
    assert(f[5].0 == "write_bytes"@);
}

/// The names differ.
proof fn lemma_a_hint_is_told_by_part()
    ensures
        "action"@ != "code"@,
        "action"@ != "message"@,
        "code"@ != "message"@,
        "action"@ != "severity"@,
        "code"@ != "severity"@,
        "message"@ != "severity"@,
        "action"@ != "tags"@,
        "code"@ != "tags"@,
        "message"@ != "tags"@,
        "severity"@ != "tags"@,
{
    reveal_strlit("action");
    reveal_strlit("code");
    reveal_strlit("message");
    reveal_strlit("severity");
    reveal_strlit("tags");
    assert("action"@.len() == 6);
    assert("code"@.len() == 4);
    assert("message"@.len() == 7);
    assert("severity"@.len() == 8);
    assert("tags"@.len() == 4);
    assert("code"@[0] != "tags"@[0]);
}

/// A hint tells its code, how serious it is, what it says and what to do.
pub proof fn a_hint_is_told_by_part(x: DiagnosticHint, j: Json)
    requires
        call_ensures(hint_json, (&x,), j),
    ensures
        named(j@, "action"@) == Some(JsonView::Text(x.action@)),
        named(j@, "code"@) == Some(JsonView::Text(x.code@)),
        named(j@, "message"@) == Some(JsonView::Text(x.message@)),
        named(j@, "severity"@) == Some(JsonView::Text(x.severity@)),
        named(j@, "tags"@) == Some(list_of(x.tags@)),
{
    lemma_a_hint_is_told_by_part();
    lemma_list_of(x.tags@);
    reveal_with_fuel(named_from, 6);
    let f = j@->Object_0;
    assert(f[0].0 == "action"@);
    assert(f[1].0 == "code"@);
    assert(f[2].0 == "message"@);
    assert(f[3].0 == "severity"@);
    assert(f[4].0 == "tags"@);
}

/// The names differ.
proof fn lemma_a_rollback_is_told_in_numbers()
    ensures
        "checkpoint_id"@ != "removed_paths"@,
        "checkpoint_id"@ != "restored_dirs"@,
        "removed_paths"@ != "restored_dirs"@,
        "checkpoint_id"@ != "restored_files"@,
        "removed_paths"@ != "restored_files"@,
        "restored_dirs"@ != "restored_files"@,
{
    reveal_strlit("checkpoint_id");
    reveal_strlit("removed_paths");
    reveal_strlit("restored_dirs");
    reveal_strlit("restored_files");
    assert("checkpoint_id"@.len() == 13);
    assert("removed_paths"@.len() == 13);
    assert("restored_dirs"@.len() == 13);
    assert("restored_files"@.len() == 14);
    assert("checkpoint_id"@[0] != "removed_paths"@[0]);
    assert("checkpoint_id"@[0] != "restored_dirs"@[0]);
    assert("removed_paths"@[2] != "restored_dirs"@[2]);
}

/// A rollback tells its checkpoint and how much it removed and restored.
pub proof fn a_rollback_is_told_in_numbers(x: WorkspaceRollbackReport, j: Json)
    requires
        call_ensures(rollback_json, (&x,), j),
    ensures
        named(j@, "checkpoint_id"@) == Some(JsonView::Text(x.checkpoint_id@)),
        named(j@, "removed_paths"@) == Some(JsonView::Number(x.removed_paths as int)),
        named(j@, "restored_dirs"@) == Some(JsonView::Number(x.restored_dirs as int)),
        named(j@, "restored_files"@) == Some(JsonView::Number(x.restored_files as int)),
{
    lemma_a_rollback_is_told_in_numbers();
    reveal_with_fuel(named_from, 5);
    let f = j@->Object_0;
    assert(f[0].0 == "checkpoint_id"@);
    assert(f[1].0 == "removed_paths"@);
    assert(f[2].0 == "restored_dirs"@);
    assert(f[3].0 == "restored_files"@);
}

/// The names differ.
pub proof fn lemma_a_workspace_is_told_as_it_was_left()
    ensures
        "changed_files"@ != "changes"@,
        "changed_files"@ != "checkpoint_after"@,
        "changes"@ != "checkpoint_after"@,
        "changed_files"@ != "checkpoint_before"@,
        "changes"@ != "checkpoint_before"@,
        "checkpoint_after"@ != "checkpoint_before"@,
        "changed_files"@ != "committed"@,
        "changes"@ != "committed"@,
        "checkpoint_after"@ != "committed"@,
        "checkpoint_before"@ != "committed"@,
        "changed_files"@ != "enabled"@,
        "changes"@ != "enabled"@,
        "checkpoint_after"@ != "enabled"@,
        "checkpoint_before"@ != "enabled"@,
        "committed"@ != "enabled"@,
        "changed_files"@ != "journal_path"@,
        "changes"@ != "journal_path"@,
        "checkpoint_after"@ != "journal_path"@,
        "checkpoint_before"@ != "journal_path"@,
        "committed"@ != "journal_path"@,
        "enabled"@ != "journal_path"@,
        "changed_files"@ != "rollback"@,
        "changes"@ != "rollback"@,
        "checkpoint_after"@ != "rollback"@,
        "checkpoint_before"@ != "rollback"@,
        "committed"@ != "rollback"@,
        "enabled"@ != "rollback"@,
        "journal_path"@ != "rollback"@,
        "changed_files"@ != "rolled_back"@,
        "changes"@ != "rolled_back"@,
        "checkpoint_after"@ != "rolled_back"@,
        "checkpoint_before"@ != "rolled_back"@,
        "committed"@ != "rolled_back"@,
        "enabled"@ != "rolled_back"@,
        "journal_path"@ != "rolled_back"@,
        "rollback"@ != "rolled_back"@,
        "changed_files"@ != "workspace"@,
        "changes"@ != "workspace"@,
        "checkpoint_after"@ != "workspace"@,
        "checkpoint_before"@ != "workspace"@,
        "committed"@ != "workspace"@,
        "enabled"@ != "workspace"@,
        "journal_path"@ != "workspace"@,
        "rollback"@ != "workspace"@,
        "rolled_back"@ != "workspace"@,
{
    reveal_strlit("changed_files");
    reveal_strlit("changes");
    reveal_strlit("checkpoint_after");
    reveal_strlit("checkpoint_before");
    reveal_strlit("committed");
    reveal_strlit("enabled");
    reveal_strlit("journal_path");
    reveal_strlit("rollback");
    reveal_strlit("rolled_back");
    reveal_strlit("workspace");
    assert("changed_files"@.len() == 13);
    assert("changes"@.len() == 7);
    assert("checkpoint_after"@.len() == 16);
    assert("checkpoint_before"@.len() == 17);
    assert("committed"@.len() == 9);
    assert("enabled"@.len() == 7);
    assert("journal_path"@.len() == 12);
    assert("rollback"@.len() == 8);
    assert("rolled_back"@.len() == 11);
    assert("workspace"@.len() == 9);
    assert("changes"@[0] != "enabled"@[0]);
    assert("committed"@[0] != "workspace"@[0]);
}

/// The record of a run's workspace tells its checkpoints, its journal, how many
/// files changed, and what became of the changes.
pub proof fn a_workspace_is_told_as_it_was_left(x: VersionedFsReport, j: Json)
    requires
        call_ensures(fs_report_json, (&x,), j),
    ensures
        named(j@, "changed_files"@) == Some(JsonView::Number(x.changed_files as int)),
        named(j@, "checkpoint_after"@) == Some(JsonView::Text(x.checkpoint_after@)),
        named(j@, "checkpoint_before"@) == Some(JsonView::Text(x.checkpoint_before@)),
        named(j@, "committed"@) == Some(JsonView::Bool(x.committed)),
        named(j@, "enabled"@) == Some(JsonView::Bool(x.enabled)),
        named(j@, "journal_path"@) == Some(JsonView::Text(x.journal_path@)),
        named(j@, "rolled_back"@) == Some(JsonView::Bool(x.rolled_back)),
        named(j@, "workspace"@) == Some(JsonView::Text(x.workspace@)),
{
    lemma_a_workspace_is_told_as_it_was_left();
    reveal_with_fuel(named_from, 11);
    let f = j@->Object_0;
    assert(f[0].0 == "changed_files"@);
    assert(f[1].0 == "changes"@);
    assert(f[2].0 == "checkpoint_after"@);
    assert(f[3].0 == "checkpoint_before"@);
    assert(f[4].0 == "committed"@);
    assert(f[5].0 == "enabled"@);
    assert(f[6].0 == "journal_path"@);
    assert(f[7].0 == "rollback"@);
    assert(f[8].0 == "rolled_back"@);
    assert(f[9].0 == "workspace"@);
}

/// The names differ.
pub proof fn lemma_a_report_tells_the_run()
    ensures
        "command"@ != "denials"@,
        "command"@ != "duration_ms"@,
        "denials"@ != "duration_ms"@,
        "command"@ != "exit_code"@,
        "denials"@ != "exit_code"@,
        "duration_ms"@ != "exit_code"@,
        "command"@ != "failure"@,
        "denials"@ != "failure"@,
        "duration_ms"@ != "failure"@,
        "exit_code"@ != "failure"@,
        "command"@ != "findings"@,
        "denials"@ != "findings"@,
        "duration_ms"@ != "findings"@,
        "exit_code"@ != "findings"@,
        "failure"@ != "findings"@,
        "command"@ != "fs"@,
        "denials"@ != "fs"@,
        "duration_ms"@ != "fs"@,
        "exit_code"@ != "fs"@,
        "failure"@ != "fs"@,
        "findings"@ != "fs"@,
        "command"@ != "hints"@,
        "denials"@ != "hints"@,
        "duration_ms"@ != "hints"@,
        "exit_code"@ != "hints"@,
        "failure"@ != "hints"@,
        "findings"@ != "hints"@,
        "fs"@ != "hints"@,
        "command"@ != "output"@,
        "denials"@ != "output"@,
        "duration_ms"@ != "output"@,
        "exit_code"@ != "output"@,
        "failure"@ != "output"@,
        "findings"@ != "output"@,
        "fs"@ != "output"@,
        "hints"@ != "output"@,
        "command"@ != "profile"@,
        "denials"@ != "profile"@,
        "duration_ms"@ != "profile"@,
        "exit_code"@ != "profile"@,
        "failure"@ != "profile"@,
        "findings"@ != "profile"@,
        "fs"@ != "profile"@,
        "hints"@ != "profile"@,
        "output"@ != "profile"@,
        "command"@ != "profile_version"@,
        "denials"@ != "profile_version"@,
        "duration_ms"@ != "profile_version"@,
        "exit_code"@ != "profile_version"@,
        "failure"@ != "profile_version"@,
        "findings"@ != "profile_version"@,
        "fs"@ != "profile_version"@,
        "hints"@ != "profile_version"@,
        "output"@ != "profile_version"@,
        "profile"@ != "profile_version"@,
        "command"@ != "resources"@,
        "denials"@ != "resources"@,
        "duration_ms"@ != "resources"@,
        "exit_code"@ != "resources"@,
        "failure"@ != "resources"@,
        "findings"@ != "resources"@,
        "fs"@ != "resources"@,
        "hints"@ != "resources"@,
        "output"@ != "resources"@,
        "profile"@ != "resources"@,
        "profile_version"@ != "resources"@,
        "command"@ != "run_id"@,
        "denials"@ != "run_id"@,
        "duration_ms"@ != "run_id"@,
        "exit_code"@ != "run_id"@,
        "failure"@ != "run_id"@,
        "findings"@ != "run_id"@,
        "fs"@ != "run_id"@,
        "hints"@ != "run_id"@,
        "output"@ != "run_id"@,
        "profile"@ != "run_id"@,
        "profile_version"@ != "run_id"@,
        "resources"@ != "run_id"@,
        "command"@ != "schema_version"@,
        "denials"@ != "schema_version"@,
        "duration_ms"@ != "schema_version"@,
        "exit_code"@ != "schema_version"@,
        "failure"@ != "schema_version"@,
        "findings"@ != "schema_version"@,
        "fs"@ != "schema_version"@,
        "hints"@ != "schema_version"@,
        "output"@ != "schema_version"@,
        "profile"@ != "schema_version"@,
        "profile_version"@ != "schema_version"@,
        "resources"@ != "schema_version"@,
        "run_id"@ != "schema_version"@,
        "command"@ != "shadox_version"@,
        "denials"@ != "shadox_version"@,
        "duration_ms"@ != "shadox_version"@,
        "exit_code"@ != "shadox_version"@,
        "failure"@ != "shadox_version"@,
        "findings"@ != "shadox_version"@,
        "fs"@ != "shadox_version"@,
        "hints"@ != "shadox_version"@,
        "output"@ != "shadox_version"@,
        "profile"@ != "shadox_version"@,
        "profile_version"@ != "shadox_version"@,
        "resources"@ != "shadox_version"@,
        "run_id"@ != "shadox_version"@,
        "schema_version"@ != "shadox_version"@,
        "command"@ != "signal"@,
        "denials"@ != "signal"@,
        "duration_ms"@ != "signal"@,
        "exit_code"@ != "signal"@,
        "failure"@ != "signal"@,
        "findings"@ != "signal"@,
        "fs"@ != "signal"@,
        "hints"@ != "signal"@,
        "output"@ != "signal"@,
        "profile"@ != "signal"@,
        "profile_version"@ != "signal"@,
        "resources"@ != "signal"@,
        "run_id"@ != "signal"@,
        "schema_version"@ != "signal"@,
        "shadox_version"@ != "signal"@,
        "command"@ != "summary_path"@,
        "denials"@ != "summary_path"@,
        "duration_ms"@ != "summary_path"@,
        "exit_code"@ != "summary_path"@,
        "failure"@ != "summary_path"@,
        "findings"@ != "summary_path"@,
        "fs"@ != "summary_path"@,
        "hints"@ != "summary_path"@,
        "output"@ != "summary_path"@,
        "profile"@ != "summary_path"@,
        "profile_version"@ != "summary_path"@,
        "resources"@ != "summary_path"@,
        "run_id"@ != "summary_path"@,
        "schema_version"@ != "summary_path"@,
        "shadox_version"@ != "summary_path"@,
        "signal"@ != "summary_path"@,
        "command"@ != "timed_out"@,
        "denials"@ != "timed_out"@,
        "duration_ms"@ != "timed_out"@,
        "exit_code"@ != "timed_out"@,
        "failure"@ != "timed_out"@,
        "findings"@ != "timed_out"@,
        "fs"@ != "timed_out"@,
        "hints"@ != "timed_out"@,
        "output"@ != "timed_out"@,
        "profile"@ != "timed_out"@,
        "profile_version"@ != "timed_out"@,
        "resources"@ != "timed_out"@,
        "run_id"@ != "timed_out"@,
        "schema_version"@ != "timed_out"@,
        "shadox_version"@ != "timed_out"@,
        "signal"@ != "timed_out"@,
        "summary_path"@ != "timed_out"@,
        "command"@ != "trace_path"@,
        "denials"@ != "trace_path"@,
        "duration_ms"@ != "trace_path"@,
        "exit_code"@ != "trace_path"@,
        "failure"@ != "trace_path"@,
        "findings"@ != "trace_path"@,
        "fs"@ != "trace_path"@,
        "hints"@ != "trace_path"@,
        "output"@ != "trace_path"@,
        "profile"@ != "trace_path"@,
        "profile_version"@ != "trace_path"@,
        "resources"@ != "trace_path"@,
        "run_id"@ != "trace_path"@,
        "schema_version"@ != "trace_path"@,
        "shadox_version"@ != "trace_path"@,
        "signal"@ != "trace_path"@,
        "summary_path"@ != "trace_path"@,
        "timed_out"@ != "trace_path"@,
{
    reveal_strlit("command");
    reveal_strlit("denials");
    reveal_strlit("duration_ms");
    reveal_strlit("exit_code");
    reveal_strlit("failure");
    reveal_strlit("findings");
    reveal_strlit("fs");
    reveal_strlit("hints");
    reveal_strlit("output");
    reveal_strlit("profile");
    reveal_strlit("profile_version");
    reveal_strlit("resources");
    reveal_strlit("run_id");
    reveal_strlit("schema_version");
    reveal_strlit("shadox_version");
    reveal_strlit("signal");
    reveal_strlit("summary_path");
    reveal_strlit("timed_out");
    reveal_strlit("trace_path");
    assert("command"@.len() == 7);
    assert("denials"@.len() == 7);
    assert("duration_ms"@.len() == 11);
    assert("exit_code"@.len() == 9);
    assert("failure"@.len() == 7);
    assert("findings"@.len() == 8);
    assert("fs"@.len() == 2);
    assert("hints"@.len() == 5);
    assert("output"@.len() == 6);
    assert("profile"@.len() == 7);
    assert("profile_version"@.len() == 15);
    assert("resources"@.len() == 9);
    assert("run_id"@.len() == 6);
    assert("schema_version"@.len() == 14);
    assert("shadox_version"@.len() == 14);
    assert("signal"@.len() == 6);
    assert("summary_path"@.len() == 12);
    assert("timed_out"@.len() == 9);
    assert("trace_path"@.len() == 10);
    assert("command"@[0] != "denials"@[0]);
    assert("command"@[0] != "failure"@[0]);
    assert("denials"@[0] != "failure"@[0]);
    assert("command"@[0] != "profile"@[0]);
    assert("denials"@[0] != "profile"@[0]);
    assert("failure"@[0] != "profile"@[0]);
    assert("exit_code"@[0] != "resources"@[0]);
    assert("output"@[0] != "run_id"@[0]);
    assert("schema_version"@[1] != "shadox_version"@[1]);
    assert("output"@[0] != "signal"@[0]);
    assert("run_id"@[0] != "signal"@[0]);
    assert("exit_code"@[0] != "timed_out"@[0]);
    assert("resources"@[0] != "timed_out"@[0]);
}

/// The report of a run tells the run, its command, how it ended and where its
/// files are, each under its name.
pub proof fn a_report_tells_the_run(x: RunReport, j: Json)
    requires
        call_ensures(RunReport::to_json, (&x,), j),
    ensures
        named(j@, "command"@) == Some(list_of(x.command@)),
        named(j@, "denials"@) == Some(list_of(x.denials@)),
        named(j@, "duration_ms"@) == Some(JsonView::Number(x.duration_ms as int)),
        named(j@, "exit_code"@) == Some(signed_or_null(x.exit_code)),
        named(j@, "failure"@) == Some(failure_form(x.failure@)),
        named(j@, "fs"@) == Some(match x.fs {
            Some(fs) => fs_report_form(fs),
            None => JsonView::Null,
        }),
        named(j@, "output"@) == Some(output_form(x.output)),
        named(j@, "profile"@) == Some(JsonView::Text(x.profile@)),
{
    lemma_a_report_tells_the_run();
    lemma_list_of(x.command@);
    lemma_list_of(x.denials@);
    reveal_with_fuel(named_from, 20);
    let f = j@->Object_0;
    assert(f[0].0 == "command"@);
    assert(f[1].0 == "denials"@);
    assert(f[2].0 == "duration_ms"@);
    assert(f[3].0 == "exit_code"@);
    assert(f[4].0 == "failure"@);
    assert(f[5].0 == "findings"@);
    assert(f[6].0 == "fs"@);
    assert(f[7].0 == "hints"@);
    assert(f[8].0 == "output"@);
    assert(f[9].0 == "profile"@);
    assert(f[10].0 == "profile_version"@);
    assert(f[11].0 == "resources"@);
    assert(f[12].0 == "run_id"@);
    assert(f[13].0 == "schema_version"@);
    assert(f[14].0 == "shadox_version"@);
    assert(f[15].0 == "signal"@);
    assert(f[16].0 == "summary_path"@);
    assert(f[17].0 == "timed_out"@);
    assert(f[18].0 == "trace_path"@);
}

/// The report of a run tells the run, its command, how it ended and where its
/// files are, each under its name.
pub proof fn a_report_tells_the_run_further(x: RunReport, j: Json)
    requires
        call_ensures(RunReport::to_json, (&x,), j),
    ensures
        named(j@, "profile_version"@) == Some(JsonView::Number(x.profile_version as int)),
        named(j@, "resources"@) == Some(resources_form(x.resources)),
        named(j@, "run_id"@) == Some(JsonView::Text(hyphenated(x.run_id.value))),
        named(j@, "schema_version"@) == Some(JsonView::Number(x.schema_version as int)),
        named(j@, "shadox_version"@) == Some(JsonView::Text(x.shadox_version@)),
        named(j@, "signal"@) == Some(signed_or_null(x.signal)),
        named(j@, "summary_path"@) == Some(JsonView::Text(x.summary_path@)),
        named(j@, "timed_out"@) == Some(JsonView::Bool(x.timed_out)),
        named(j@, "trace_path"@) == Some(JsonView::Text(x.trace_path@)),
{
    lemma_a_report_tells_the_run();
    lemma_list_of(x.command@);
    lemma_list_of(x.denials@);
    reveal_with_fuel(named_from, 20);
    let f = j@->Object_0;
    assert(f[0].0 == "command"@);
    assert(f[1].0 == "denials"@);
    assert(f[2].0 == "duration_ms"@);
    assert(f[3].0 == "exit_code"@);
    assert(f[4].0 == "failure"@);
    assert(f[5].0 == "findings"@);
    assert(f[6].0 == "fs"@);
    assert(f[7].0 == "hints"@);
    assert(f[8].0 == "output"@);
    assert(f[9].0 == "profile"@);
    assert(f[10].0 == "profile_version"@);
    assert(f[11].0 == "resources"@);
    assert(f[12].0 == "run_id"@);
    assert(f[13].0 == "schema_version"@);
    assert(f[14].0 == "shadox_version"@);
    assert(f[15].0 == "signal"@);
    assert(f[16].0 == "summary_path"@);
    assert(f[17].0 == "timed_out"@);
    assert(f[18].0 == "trace_path"@);
}

/// The names differ.
proof fn lemma_limits_are_told_by_name()
    ensures
        "address_space_bytes"@ != "cpu_time_secs"@,
        "address_space_bytes"@ != "file_size_bytes"@,
        "cpu_time_secs"@ != "file_size_bytes"@,
        "address_space_bytes"@ != "max_processes"@,
        "cpu_time_secs"@ != "max_processes"@,
        "file_size_bytes"@ != "max_processes"@,
        "address_space_bytes"@ != "open_files"@,
        "cpu_time_secs"@ != "open_files"@,
        "file_size_bytes"@ != "open_files"@,
        "max_processes"@ != "open_files"@,
        "address_space_bytes"@ != "timeout_ms"@,
        "cpu_time_secs"@ != "timeout_ms"@,
        "file_size_bytes"@ != "timeout_ms"@,
        "max_processes"@ != "timeout_ms"@,
        "open_files"@ != "timeout_ms"@,
{
    reveal_strlit("address_space_bytes");
    reveal_strlit("cpu_time_secs");
    reveal_strlit("file_size_bytes");
    reveal_strlit("max_processes");
    reveal_strlit("open_files");
    reveal_strlit("timeout_ms");
    assert("address_space_bytes"@.len() == 19);
    assert("cpu_time_secs"@.len() == 13);
    assert("file_size_bytes"@.len() == 15);
    assert("max_processes"@.len() == 13);
    assert("open_files"@.len() == 10);
    assert("timeout_ms"@.len() == 10);
    assert("cpu_time_secs"@[0] != "max_processes"@[0]);
    assert("open_files"@[0] != "timeout_ms"@[0]);
}

/// Limits are told under the names of what they limit.
pub proof fn limits_are_told_by_name(x: LimitsSpec, j: Json)
    requires
        call_ensures(limits_json, (&x,), j),
    ensures
        named(j@, "address_space_bytes"@) == Some(number_or_null(x.address_space_bytes)),
        named(j@, "cpu_time_secs"@) == Some(number_or_null(x.cpu_time_secs)),
        named(j@, "file_size_bytes"@) == Some(number_or_null(x.file_size_bytes)),
        named(j@, "max_processes"@) == Some(number_or_null(x.max_processes)),
        named(j@, "open_files"@) == Some(number_or_null(x.open_files)),
        named(j@, "timeout_ms"@) == Some(number_or_null(x.timeout_ms)),
{
    lemma_limits_are_told_by_name();
    reveal_with_fuel(named_from, 7);
    let f = j@->Object_0;
    assert(f[0].0 == "address_space_bytes"@);
    assert(f[1].0 == "cpu_time_secs"@);
    assert(f[2].0 == "file_size_bytes"@);
    assert(f[3].0 == "max_processes"@);
    assert(f[4].0 == "open_files"@);
    assert(f[5].0 == "timeout_ms"@);
}

/// The names differ.
proof fn lemma_path_lists_are_told_by_name()
    ensures
        "read"@ != "write"@,
{
    reveal_strlit("read");
    reveal_strlit("write");
    assert("read"@.len() == 4);
    assert("write"@.len() == 5);
}

/// The paths to read and the paths to write are told apart.
pub proof fn path_lists_are_told_by_name(x: FsSpec, j: Json)
    requires
        call_ensures(fs_json, (&x,), j),
    ensures
        named(j@, "read"@) == Some(list_of(x.read@)),
        named(j@, "write"@) == Some(list_of(x.write@)),
{
    lemma_path_lists_are_told_by_name();
    lemma_list_of(x.read@);
    lemma_list_of(x.write@);
    reveal_with_fuel(named_from, 3);
    let f = j@->Object_0;
    assert(f[0].0 == "read"@);
    assert(f[1].0 == "write"@);
}

/// The names differ.
proof fn lemma_restrictions_are_told_by_name()
    ensures
        "allow_degraded"@ != "landlock"@,
        "allow_degraded"@ != "no_new_privs"@,
        "landlock"@ != "no_new_privs"@,
        "allow_degraded"@ != "seccomp_profile"@,
        "landlock"@ != "seccomp_profile"@,
        "no_new_privs"@ != "seccomp_profile"@,
{
    reveal_strlit("allow_degraded");
    reveal_strlit("landlock");
    reveal_strlit("no_new_privs");
    reveal_strlit("seccomp_profile");
    assert("allow_degraded"@.len() == 14);
    assert("landlock"@.len() == 8);
    assert("no_new_privs"@.len() == 12);
    assert("seccomp_profile"@.len() == 15);
}

/// The restrictions are told under their names.
pub proof fn restrictions_are_told_by_name(x: SecuritySpec, j: Json)
    requires
        call_ensures(security_json, (&x,), j),
    ensures
        named(j@, "allow_degraded"@) == Some(JsonView::Bool(x.allow_degraded)),
        named(j@, "landlock"@) == Some(JsonView::Bool(x.landlock)),
        named(j@, "no_new_privs"@) == Some(JsonView::Bool(x.no_new_privs)),
        named(j@, "seccomp_profile"@) == Some(JsonView::Text(
            match x.seccomp_profile {
                SeccompProfile::Off => "off"@,
                SeccompProfile::Basic => "basic"@,
            },
        )),
{
    lemma_restrictions_are_told_by_name();
    reveal_with_fuel(named_from, 5);
    let f = j@->Object_0;
    assert(f[0].0 == "allow_degraded"@);
    assert(f[1].0 == "landlock"@);
    assert(f[2].0 == "no_new_privs"@);
    assert(f[3].0 == "seccomp_profile"@);
}

/// The names differ.
proof fn lemma_what_is_observed_is_told_by_name()
    ensures
        "capture_stderr"@ != "capture_stdout"@,
        "capture_stderr"@ != "collect_cgroup"@,
        "capture_stdout"@ != "collect_cgroup"@,
        "capture_stderr"@ != "max_trace_output_bytes"@,
        "capture_stdout"@ != "max_trace_output_bytes"@,
        "collect_cgroup"@ != "max_trace_output_bytes"@,
        "capture_stderr"@ != "proc_sample_interval_ms"@,
        "capture_stdout"@ != "proc_sample_interval_ms"@,
        "collect_cgroup"@ != "proc_sample_interval_ms"@,
        "max_trace_output_bytes"@ != "proc_sample_interval_ms"@,
        "capture_stderr"@ != "rhai_script"@,
        "capture_stdout"@ != "rhai_script"@,
        "collect_cgroup"@ != "rhai_script"@,
        "max_trace_output_bytes"@ != "rhai_script"@,
        "proc_sample_interval_ms"@ != "rhai_script"@,
        "capture_stderr"@ != "summary"@,
        "capture_stdout"@ != "summary"@,
        "collect_cgroup"@ != "summary"@,
        "max_trace_output_bytes"@ != "summary"@,
        "proc_sample_interval_ms"@ != "summary"@,
        "rhai_script"@ != "summary"@,
        "capture_stderr"@ != "trace"@,
        "capture_stdout"@ != "trace"@,
        "collect_cgroup"@ != "trace"@,
        "max_trace_output_bytes"@ != "trace"@,
        "proc_sample_interval_ms"@ != "trace"@,
        "rhai_script"@ != "trace"@,
        "summary"@ != "trace"@,
        "capture_stderr"@ != "trace_syscalls"@,
        "capture_stdout"@ != "trace_syscalls"@,
        "collect_cgroup"@ != "trace_syscalls"@,
        "max_trace_output_bytes"@ != "trace_syscalls"@,
        "proc_sample_interval_ms"@ != "trace_syscalls"@,
        "rhai_script"@ != "trace_syscalls"@,
        "summary"@ != "trace_syscalls"@,
        "trace"@ != "trace_syscalls"@,
{
    reveal_strlit("capture_stderr");
    reveal_strlit("capture_stdout");
    reveal_strlit("collect_cgroup");
    reveal_strlit("max_trace_output_bytes");
    reveal_strlit("proc_sample_interval_ms");
    reveal_strlit("rhai_script");
    reveal_strlit("summary");
    reveal_strlit("trace");
    reveal_strlit("trace_syscalls");
    assert("capture_stderr"@.len() == 14);
    assert("capture_stdout"@.len() == 14);
    assert("collect_cgroup"@.len() == 14);
    assert("max_trace_output_bytes"@.len() == 22);
    assert("proc_sample_interval_ms"@.len() == 23);
    assert("rhai_script"@.len() == 11);
    assert("summary"@.len() == 7);
    assert("trace"@.len() == 5);
    assert("trace_syscalls"@.len() == 14);
    assert("capture_stderr"@[11] != "capture_stdout"@[11]);
    assert("capture_stderr"@[1] != "collect_cgroup"@[1]);
    assert("capture_stdout"@[1] != "collect_cgroup"@[1]);
    assert("capture_stderr"@[0] != "trace_syscalls"@[0]);
    assert("capture_stdout"@[0] != "trace_syscalls"@[0]);
    assert("collect_cgroup"@[0] != "trace_syscalls"@[0]);
}

/// What is observed is told under its names.
pub proof fn what_is_observed_is_told_by_name(x: ObserveSpec, j: Json)
    requires
        call_ensures(observe_json, (&x,), j),
    ensures
        named(j@, "capture_stderr"@) == Some(JsonView::Bool(x.capture_stderr)),
        named(j@, "capture_stdout"@) == Some(JsonView::Bool(x.capture_stdout)),
        named(j@, "collect_cgroup"@) == Some(JsonView::Bool(x.collect_cgroup)),
        named(j@, "max_trace_output_bytes"@) == Some(number_or_null(x.max_trace_output_bytes)),
        named(j@, "proc_sample_interval_ms"@) == Some(JsonView::Number(x.proc_sample_interval_ms as int)),
        named(j@, "rhai_script"@) == Some(text_or_null(x.rhai_script)),
        named(j@, "summary"@) == Some(text_or_null(x.summary)),
        named(j@, "trace"@) == Some(text_or_null(x.trace)),
        named(j@, "trace_syscalls"@) == Some(JsonView::Bool(x.trace_syscalls)),
{
    lemma_what_is_observed_is_told_by_name();
    reveal_with_fuel(named_from, 10);
    let f = j@->Object_0;
    assert(f[0].0 == "capture_stderr"@);
    assert(f[1].0 == "capture_stdout"@);
    assert(f[2].0 == "collect_cgroup"@);
    assert(f[3].0 == "max_trace_output_bytes"@);
    assert(f[4].0 == "proc_sample_interval_ms"@);
    assert(f[5].0 == "rhai_script"@);
    assert(f[6].0 == "summary"@);
    assert(f[7].0 == "trace"@);
    assert(f[8].0 == "trace_syscalls"@);
}

/// The names differ.
proof fn lemma_a_workspace_request_is_told_by_name()
    ensures
        "commit_on_success"@ != "rollback_on_failure"@,
        "commit_on_success"@ != "workspace"@,
        "rollback_on_failure"@ != "workspace"@,
{
    reveal_strlit("commit_on_success");
    reveal_strlit("rollback_on_failure");
    reveal_strlit("workspace");
    assert("commit_on_success"@.len() == 17);
    assert("rollback_on_failure"@.len() == 19);
    assert("workspace"@.len() == 9);
}

/// What is asked of a workspace is told under its names.
pub proof fn a_workspace_request_is_told_by_name(x: VersionedWorkspaceSpec, j: Json)
    requires
        call_ensures(versioned_workspace_json, (&x,), j),
    ensures
        named(j@, "commit_on_success"@) == Some(JsonView::Bool(x.commit_on_success)),
        named(j@, "rollback_on_failure"@) == Some(JsonView::Bool(x.rollback_on_failure)),
        named(j@, "workspace"@) == Some(text_or_null(x.workspace)),
{
    lemma_a_workspace_request_is_told_by_name();
    reveal_with_fuel(named_from, 4);
    let f = j@->Object_0;
    assert(f[0].0 == "commit_on_success"@);
    assert(f[1].0 == "rollback_on_failure"@);
    assert(f[2].0 == "workspace"@);
}

/// The names differ.
pub proof fn lemma_a_process_is_told_by_name()
    ensures
        "args"@ != "clear_env"@,
        "args"@ != "cmd"@,
        "clear_env"@ != "cmd"@,
        "args"@ != "cwd"@,
        "clear_env"@ != "cwd"@,
        "cmd"@ != "cwd"@,
        "args"@ != "env"@,
        "clear_env"@ != "env"@,
        "cmd"@ != "env"@,
        "cwd"@ != "env"@,
{
    reveal_strlit("args");
    reveal_strlit("clear_env");
    reveal_strlit("cmd");
    reveal_strlit("cwd");
    reveal_strlit("env");
    assert("args"@.len() == 4);
    assert("clear_env"@.len() == 9);
    assert("cmd"@.len() == 3);
    assert("cwd"@.len() == 3);
    assert("env"@.len() == 3);
    assert("cmd"@[1] != "cwd"@[1]);
    assert("cmd"@[0] != "env"@[0]);
    assert("cwd"@[0] != "env"@[0]);
}

/// What is to be run is told under its names.
pub proof fn a_process_is_told_by_name(x: ProcessSpec, j: Json)
    requires
        call_ensures(process_json, (&x,), j),
    ensures
        named(j@, "args"@) == Some(list_of(x.args@)),
        named(j@, "clear_env"@) == Some(JsonView::Bool(x.clear_env)),
        named(j@, "cmd"@) == Some(text_or_null(x.cmd)),
        named(j@, "cwd"@) == Some(text_or_null(x.cwd)),
{
    lemma_a_process_is_told_by_name();
    lemma_list_of(x.args@);
    reveal_with_fuel(named_from, 6);
    let f = j@->Object_0;
    assert(f[0].0 == "args"@);
    assert(f[1].0 == "clear_env"@);
    assert(f[2].0 == "cmd"@);
    assert(f[3].0 == "cwd"@);
    assert(f[4].0 == "env"@);
}

/// The names differ.
proof fn lemma_a_policy_is_told_by_part()
    ensures
        "fs"@ != "limits"@,
        "fs"@ != "notes"@,
        "limits"@ != "notes"@,
        "fs"@ != "observe"@,
        "limits"@ != "observe"@,
        "notes"@ != "observe"@,
        "fs"@ != "process"@,
        "limits"@ != "process"@,
        "notes"@ != "process"@,
        "observe"@ != "process"@,
        "fs"@ != "profile"@,
        "limits"@ != "profile"@,
        "notes"@ != "profile"@,
        "observe"@ != "profile"@,
        "process"@ != "profile"@,
        "fs"@ != "profile_version"@,
        "limits"@ != "profile_version"@,
        "notes"@ != "profile_version"@,
        "observe"@ != "profile_version"@,
        "process"@ != "profile_version"@,
        "profile"@ != "profile_version"@,
        "fs"@ != "security"@,
        "limits"@ != "security"@,
        "notes"@ != "security"@,
        "observe"@ != "security"@,
        "process"@ != "security"@,
        "profile"@ != "security"@,
        "profile_version"@ != "security"@,
        "fs"@ != "versioned_workspace"@,
        "limits"@ != "versioned_workspace"@,
        "notes"@ != "versioned_workspace"@,
        "observe"@ != "versioned_workspace"@,
        "process"@ != "versioned_workspace"@,
        "profile"@ != "versioned_workspace"@,
        "profile_version"@ != "versioned_workspace"@,
        "security"@ != "versioned_workspace"@,
{
    reveal_strlit("fs");
    reveal_strlit("limits");
    reveal_strlit("notes");
    reveal_strlit("observe");
    reveal_strlit("process");
    reveal_strlit("profile");
    reveal_strlit("profile_version");
    reveal_strlit("security");
    reveal_strlit("versioned_workspace");
    assert("fs"@.len() == 2);
    assert("limits"@.len() == 6);
    assert("notes"@.len() == 5);
    assert("observe"@.len() == 7);
    assert("process"@.len() == 7);
    assert("profile"@.len() == 7);
    assert("profile_version"@.len() == 15);
    assert("security"@.len() == 8);
    assert("versioned_workspace"@.len() == 19);
    assert("observe"@[0] != "process"@[0]);
    assert("observe"@[0] != "profile"@[0]);
    assert("process"@[3] != "profile"@[3]);
}

/// A policy tells its parts under their names.
pub proof fn a_policy_is_told_by_part(x: EffectivePolicy, j: Json)
    requires
        call_ensures(policy_json, (&x,), j),
    ensures
        named(j@, "fs"@) == Some(fs_form(x.fs@)),
        named(j@, "limits"@) == Some(limits_form(x.limits)),
        named(j@, "notes"@) == Some(list_of(x.notes@)),
        named(j@, "observe"@) == Some(observe_form(x.observe@)),
        named(j@, "process"@) == Some(process_form(x.process)),
        named(j@, "profile"@) == Some(JsonView::Text(
            match x.profile {
                SandboxProfile::AgentDefault => "agent-default"@,
                SandboxProfile::ReadOnly => "read-only"@,
                SandboxProfile::WorkspaceWrite => "workspace-write"@,
                SandboxProfile::PermissiveObserve => "permissive-observe"@,
            },
        )),
        named(j@, "profile_version"@) == Some(JsonView::Number(x.profile_version as int)),
        named(j@, "security"@) == Some(security_form(x.security)),
        named(j@, "versioned_workspace"@) == Some(versioned_workspace_form(x.versioned_workspace@)),
{
    lemma_a_policy_is_told_by_part();
    lemma_list_of(x.notes@);
    reveal_with_fuel(named_from, 10);
    let f = j@->Object_0;
    assert(f[0].0 == "fs"@);
    assert(f[1].0 == "limits"@);
    assert(f[2].0 == "notes"@);
    assert(f[3].0 == "observe"@);
    assert(f[4].0 == "process"@);
    assert(f[5].0 == "profile"@);
    assert(f[6].0 == "profile_version"@);
    assert(f[7].0 == "security"@);
    assert(f[8].0 == "versioned_workspace"@);
}

/// The names differ.
proof fn lemma_a_finding_is_told_by_part()
    ensures
        "message"@ != "severity"@,
        "message"@ != "tags"@,
        "severity"@ != "tags"@,
{
    reveal_strlit("message");
    reveal_strlit("severity");
    reveal_strlit("tags");
    assert("message"@.len() == 7);
    assert("severity"@.len() == 8);
    assert("tags"@.len() == 4);
}

/// A finding tells what was found, how serious it is, and its tags.
pub proof fn a_finding_is_told_by_part(x: Finding, j: Json)
    requires
        call_ensures(finding_json, (&x,), j),
    ensures
        named(j@, "message"@) == Some(JsonView::Text(x.message@)),
        named(j@, "severity"@) == Some(JsonView::Text(x.severity@)),
        named(j@, "tags"@) == Some(list_of(x.tags@)),
{
    lemma_a_finding_is_told_by_part();
    lemma_list_of(x.tags@);
    reveal_with_fuel(named_from, 4);
    let f = j@->Object_0;
    assert(f[0].0 == "message"@);
    assert(f[1].0 == "severity"@);
    assert(f[2].0 == "tags"@);
}

/// The names differ.
proof fn lemma_an_event_is_told_by_part()
    ensures
        "schema_version"@ != "shadox_version"@,
        "schema_version"@ != "profile"@,
        "shadox_version"@ != "profile"@,
        "schema_version"@ != "profile_version"@,
        "shadox_version"@ != "profile_version"@,
        "profile"@ != "profile_version"@,
        "schema_version"@ != "ts"@,
        "shadox_version"@ != "ts"@,
        "profile"@ != "ts"@,
        "profile_version"@ != "ts"@,
        "schema_version"@ != "seq"@,
        "shadox_version"@ != "seq"@,
        "profile"@ != "seq"@,
        "profile_version"@ != "seq"@,
        "ts"@ != "seq"@,
        "schema_version"@ != "run_id"@,
        "shadox_version"@ != "run_id"@,
        "profile"@ != "run_id"@,
        "profile_version"@ != "run_id"@,
        "ts"@ != "run_id"@,
        "seq"@ != "run_id"@,
        "schema_version"@ != "kind"@,
        "shadox_version"@ != "kind"@,
        "profile"@ != "kind"@,
        "profile_version"@ != "kind"@,
        "ts"@ != "kind"@,
        "seq"@ != "kind"@,
        "run_id"@ != "kind"@,
        "schema_version"@ != "pid"@,
        "shadox_version"@ != "pid"@,
        "profile"@ != "pid"@,
        "profile_version"@ != "pid"@,
        "ts"@ != "pid"@,
        "seq"@ != "pid"@,
        "run_id"@ != "pid"@,
        "kind"@ != "pid"@,
        "schema_version"@ != "level"@,
        "shadox_version"@ != "level"@,
        "profile"@ != "level"@,
        "profile_version"@ != "level"@,
        "ts"@ != "level"@,
        "seq"@ != "level"@,
        "run_id"@ != "level"@,
        "kind"@ != "level"@,
        "pid"@ != "level"@,
        "schema_version"@ != "data"@,
        "shadox_version"@ != "data"@,
        "profile"@ != "data"@,
        "profile_version"@ != "data"@,
        "ts"@ != "data"@,
        "seq"@ != "data"@,
        "run_id"@ != "data"@,
        "kind"@ != "data"@,
        "pid"@ != "data"@,
        "level"@ != "data"@,
{
    reveal_strlit("schema_version");
    reveal_strlit("shadox_version");
    reveal_strlit("profile");
    reveal_strlit("profile_version");
    reveal_strlit("ts");
    reveal_strlit("seq");
    reveal_strlit("run_id");
    reveal_strlit("kind");
    reveal_strlit("pid");
    reveal_strlit("level");
    reveal_strlit("data");
    assert("schema_version"@.len() == 14);
    assert("shadox_version"@.len() == 14);
    assert("profile"@.len() == 7);
    assert("profile_version"@.len() == 15);
    assert("ts"@.len() == 2);
    assert("seq"@.len() == 3);
    assert("run_id"@.len() == 6);
    assert("kind"@.len() == 4);
    assert("pid"@.len() == 3);
    assert("level"@.len() == 5);
    assert("data"@.len() == 4);
    assert("schema_version"@[1] != "shadox_version"@[1]);
    assert("seq"@[0] != "pid"@[0]);
    assert("kind"@[0] != "data"@[0]);
}

/// An event of the trace tells what it is, when, of which run and process, and
/// its data, under the names of the format.
pub proof fn an_event_is_told_by_part(x: TraceEvent, j: Json)
    requires
        call_ensures(TraceEvent::json, (&x,), j),
    ensures
        named(j@, "schema_version"@) == Some(JsonView::Number(x.schema_version as int)),
        named(j@, "shadox_version"@) == Some(JsonView::Text(x.shadox_version@)),
        named(j@, "profile"@) == Some(JsonView::Text(x.profile@)),
        named(j@, "profile_version"@) == Some(JsonView::Number(x.profile_version as int)),
        named(j@, "ts"@) == Some(JsonView::Number(x.ts as int)),
        named(j@, "seq"@) == Some(JsonView::Number(x.seq as int)),
        named(j@, "run_id"@) == Some(JsonView::Text(hyphenated(x.run_id.value))),
        named(j@, "kind"@) == Some(JsonView::Text(x.kind@)),
        named(j@, "pid"@) == Some(match x.pid {
            Some(n) => JsonView::Number(n as int),
            None => JsonView::Null,
        }),
        named(j@, "level"@) == Some(JsonView::Text(x.level@)),
        named(j@, "data"@) == Some(x.data@),
{
    lemma_an_event_is_told_by_part();
    reveal_with_fuel(named_from, 12);
    let f = j@->Object_0;
    assert(f[0].0 == "schema_version"@);
    assert(f[1].0 == "shadox_version"@);
    assert(f[2].0 == "profile"@);
    assert(f[3].0 == "profile_version"@);
    assert(f[4].0 == "ts"@);
    assert(f[5].0 == "seq"@);
    assert(f[6].0 == "run_id"@);
    assert(f[7].0 == "kind"@);
    assert(f[8].0 == "pid"@);
    assert(f[9].0 == "level"@);
    assert(f[10].0 == "data"@);
}

/// The names differ.
proof fn lemma_a_change_is_told_by_part()
    ensures
        "after"@ != "before"@,
        "after"@ != "kind"@,
        "before"@ != "kind"@,
        "after"@ != "path"@,
        "before"@ != "path"@,
        "kind"@ != "path"@,
{
    reveal_strlit("after");
    reveal_strlit("before");
    reveal_strlit("kind");
    reveal_strlit("path");
    assert("after"@.len() == 5);
    assert("before"@.len() == 6);
    assert("kind"@.len() == 4);
    assert("path"@.len() == 4);
    assert("kind"@[0] != "path"@[0]);
}

/// A change tells what happened to which path, and what was recorded before and
/// after.
pub proof fn a_change_is_told_by_part(x: WorkspaceChange, j: Json)
    requires
        call_ensures(change_json, (&x,), j),
    ensures
        named(j@, "after"@) == Some(optional_entry_form(entry_view(x.after))),
        named(j@, "before"@) == Some(optional_entry_form(entry_view(x.before))),
        named(j@, "kind"@) == Some(JsonView::Text(
            match x.kind {
                WorkspaceChangeKind::Added => "added"@,
                WorkspaceChangeKind::Modified => "modified"@,
                WorkspaceChangeKind::Deleted => "deleted"@,
                WorkspaceChangeKind::Renamed => "renamed"@,
                WorkspaceChangeKind::TypeChanged => "type_changed"@,
            },
        )),
        named(j@, "path"@) == Some(JsonView::Text(x.path@)),
{
    lemma_a_change_is_told_by_part();
    reveal_with_fuel(named_from, 5);
    let f = j@->Object_0;
    assert(f[0].0 == "after"@);
    assert(f[1].0 == "before"@);
    assert(f[2].0 == "kind"@);
    assert(f[3].0 == "path"@);
}

} // verus!
