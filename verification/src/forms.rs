//! The JSON forms of requests, policies and workspace changes.
//!
//! Fields stand in ascending order of their keys.

use crate::config::{
    profile_name, seccomp_name, EffectivePolicy, FsSpec, FsView, LimitsSpec, ObserveSpec,
    ObserveView, ProcessSpec, SecuritySpec, VersionedWorkspaceSpec, VersionedWorkspaceView,
};
use crate::json::{
    array, field, field_views, json_views, object, optional_number, optional_number_json,
    optional_text, optional_text_json, text_json, texts, texts_json, Json, JsonView,
};
use crate::string_map::StringMap;
use crate::text::views;
use crate::versioned_fs::diff::{
    change_views, ChangeView, WorkspaceChange, WorkspaceChangeKind,
};
use crate::versioned_fs::entry::{entry_view, EntryView, WorkspaceEntry};
use vstd::prelude::*;

verus! {

/// The form of a map of strings, given by its pairs.
pub open spec fn text_pairs_form(items: Seq<(String, String)>) -> JsonView {
    JsonView::Object(items.map_values(|item: (String, String)| (item.0@, JsonView::Text(item.1@))))
}

/// The form of a map of strings.
pub fn text_map_json(map: &StringMap<String>) -> (j: Json)
    ensures
        j@ == text_pairs_form(map.items@),
{
    let mut fields: Vec<(String, Json)> = Vec::new();
    assert(field_views(fields@) =~= Seq::empty());
    for i in 0..map.items.len()
        invariant
            field_views(fields@).len() == i,
            forall|k: int| 0 <= k < i ==> #[trigger] field_views(fields@)[k] == (map.items@[k].0@, JsonView::Text(map.items@[k].1@)),
    {
        field(&mut fields, map.items[i].0.as_str(), text_json(map.items[i].1.as_str()));
    }
    assert(field_views(fields@) =~= map.items@.map_values(|item: (String, String)| (item.0@, JsonView::Text(item.1@))));
    object(fields)
}

/// The form of a process description.
pub open spec fn process_form(p: ProcessSpec) -> JsonView {
    JsonView::Object(
        seq![
            ("args"@, texts(p@.args)),
            ("clear_env"@, JsonView::Bool(p.clear_env)),
            ("cmd"@, optional_text(p@.cmd)),
            ("cwd"@, optional_text(p@.cwd)),
            ("env"@, text_pairs_form(p.env.items@)),
        ],
    )
}

/// The form of a process description.
pub fn process_json(p: &ProcessSpec) -> (j: Json)
    ensures
        j@ == process_form(*p),
{
    let mut fields: Vec<(String, Json)> = Vec::new();
    assert(field_views(fields@) =~= Seq::empty());
    field(&mut fields, "args", texts_json(&p.args));
    field(&mut fields, "clear_env", Json::Bool(p.clear_env));
    field(&mut fields, "cmd", optional_text_json(&p.cmd));
    field(&mut fields, "cwd", optional_text_json(&p.cwd));
    field(&mut fields, "env", text_map_json(&p.env));
    assert(field_views(fields@) =~= process_form(*p)->Object_0);
    object(fields)
}

/// The form of resource limits.
pub open spec fn limits_form(l: LimitsSpec) -> JsonView {
    JsonView::Object(
        seq![
            ("address_space_bytes"@, optional_number(l.address_space_bytes)),
            ("cpu_time_secs"@, optional_number(l.cpu_time_secs)),
            ("file_size_bytes"@, optional_number(l.file_size_bytes)),
            ("max_processes"@, optional_number(l.max_processes)),
            ("open_files"@, optional_number(l.open_files)),
            ("timeout_ms"@, optional_number(l.timeout_ms)),
        ],
    )
}

/// The form of resource limits.
pub fn limits_json(l: &LimitsSpec) -> (j: Json)
    ensures
        j@ == limits_form(*l),
{
    let mut fields: Vec<(String, Json)> = Vec::new();
    assert(field_views(fields@) =~= Seq::empty());
    field(&mut fields, "address_space_bytes", optional_number_json(l.address_space_bytes));
    field(&mut fields, "cpu_time_secs", optional_number_json(l.cpu_time_secs));
    field(&mut fields, "file_size_bytes", optional_number_json(l.file_size_bytes));
    field(&mut fields, "max_processes", optional_number_json(l.max_processes));
    field(&mut fields, "open_files", optional_number_json(l.open_files));
    field(&mut fields, "timeout_ms", optional_number_json(l.timeout_ms));
    assert(field_views(fields@) =~= limits_form(*l)->Object_0);
    object(fields)
}

/// The form of the path lists.
pub open spec fn fs_form(f: FsView) -> JsonView {
    JsonView::Object(seq![("read"@, texts(f.read)), ("write"@, texts(f.write))])
}

/// The form of the path lists.
pub fn fs_json(f: &FsSpec) -> (j: Json)
    ensures
        j@ == fs_form(f@),
{
    let mut fields: Vec<(String, Json)> = Vec::new();
    assert(field_views(fields@) =~= Seq::empty());
    field(&mut fields, "read", texts_json(&f.read));
    field(&mut fields, "write", texts_json(&f.write));
    assert(field_views(fields@) =~= fs_form(f@)->Object_0);
    object(fields)
}

/// The form of the restrictions.
pub open spec fn security_form(s: SecuritySpec) -> JsonView {
    JsonView::Object(
        seq![
            ("allow_degraded"@, JsonView::Bool(s.allow_degraded)),
            ("landlock"@, JsonView::Bool(s.landlock)),
            ("no_new_privs"@, JsonView::Bool(s.no_new_privs)),
            ("seccomp_profile"@, JsonView::Text(seccomp_name(s.seccomp_profile))),
        ],
    )
}

/// The form of the restrictions.
pub fn security_json(s: &SecuritySpec) -> (j: Json)
    ensures
        j@ == security_form(*s),
{
    let mut fields: Vec<(String, Json)> = Vec::new();
    assert(field_views(fields@) =~= Seq::empty());
    field(&mut fields, "allow_degraded", Json::Bool(s.allow_degraded));
    field(&mut fields, "landlock", Json::Bool(s.landlock));
    field(&mut fields, "no_new_privs", Json::Bool(s.no_new_privs));
    field(&mut fields, "seccomp_profile", Json::Text(s.seccomp_profile.name()));
    assert(field_views(fields@) =~= security_form(*s)->Object_0);
    object(fields)
}

/// The form of what is observed.
pub open spec fn observe_form(o: ObserveView) -> JsonView {
    JsonView::Object(
        seq![
            ("capture_stderr"@, JsonView::Bool(o.capture_stderr)),
            ("capture_stdout"@, JsonView::Bool(o.capture_stdout)),
            ("collect_cgroup"@, JsonView::Bool(o.collect_cgroup)),
            ("max_trace_output_bytes"@, optional_number(o.max_trace_output_bytes)),
            ("proc_sample_interval_ms"@, JsonView::Number(o.proc_sample_interval_ms as int)),
            ("rhai_script"@, optional_text(o.rhai_script)),
            ("summary"@, optional_text(o.summary)),
            ("trace"@, optional_text(o.trace)),
            ("trace_syscalls"@, JsonView::Bool(o.trace_syscalls)),
        ],
    )
}

/// The form of what is observed.
pub fn observe_json(o: &ObserveSpec) -> (j: Json)
    ensures
        j@ == observe_form(o@),
{
    let mut fields: Vec<(String, Json)> = Vec::new();
    assert(field_views(fields@) =~= Seq::empty());
    field(&mut fields, "capture_stderr", Json::Bool(o.capture_stderr));
    field(&mut fields, "capture_stdout", Json::Bool(o.capture_stdout));
    field(&mut fields, "collect_cgroup", Json::Bool(o.collect_cgroup));
    field(&mut fields, "max_trace_output_bytes", optional_number_json(o.max_trace_output_bytes));
    field(&mut fields, "proc_sample_interval_ms", Json::UInt(o.proc_sample_interval_ms as u128));
    field(&mut fields, "rhai_script", optional_text_json(&o.rhai_script));
    field(&mut fields, "summary", optional_text_json(&o.summary));
    field(&mut fields, "trace", optional_text_json(&o.trace));
    field(&mut fields, "trace_syscalls", Json::Bool(o.trace_syscalls));
    assert(field_views(fields@) =~= observe_form(o@)->Object_0);
    object(fields)
}

/// The form of a workspace request.
pub open spec fn versioned_workspace_form(v: VersionedWorkspaceView) -> JsonView {
    JsonView::Object(
        seq![
            ("commit_on_success"@, JsonView::Bool(v.commit_on_success)),
            ("rollback_on_failure"@, JsonView::Bool(v.rollback_on_failure)),
            ("workspace"@, optional_text(v.workspace)),
        ],
    )
}

/// The form of a workspace request.
pub fn versioned_workspace_json(v: &VersionedWorkspaceSpec) -> (j: Json)
    ensures
        j@ == versioned_workspace_form(v@),
{
    let mut fields: Vec<(String, Json)> = Vec::new();
    assert(field_views(fields@) =~= Seq::empty());
    field(&mut fields, "commit_on_success", Json::Bool(v.commit_on_success));
    field(&mut fields, "rollback_on_failure", Json::Bool(v.rollback_on_failure));
    field(&mut fields, "workspace", optional_text_json(&v.workspace));
    assert(field_views(fields@) =~= versioned_workspace_form(v@)->Object_0);
    object(fields)
}

/// The form of a policy.
pub open spec fn policy_form(p: EffectivePolicy) -> JsonView {
    JsonView::Object(
        seq![
            ("fs"@, fs_form(p.fs@)),
            ("limits"@, limits_form(p.limits)),
            ("notes"@, texts(views(p.notes@))),
            ("observe"@, observe_form(p.observe@)),
            ("process"@, process_form(p.process)),
            ("profile"@, JsonView::Text(profile_name(p.profile))),
            ("profile_version"@, JsonView::Number(p.profile_version as int)),
            ("security"@, security_form(p.security)),
            ("versioned_workspace"@, versioned_workspace_form(p.versioned_workspace@)),
        ],
    )
}

/// The form of a policy.
pub fn policy_json(p: &EffectivePolicy) -> (j: Json)
    ensures
        j@ == policy_form(*p),
{
    let mut fields: Vec<(String, Json)> = Vec::new();
    assert(field_views(fields@) =~= Seq::empty());
    field(&mut fields, "fs", fs_json(&p.fs));
    field(&mut fields, "limits", limits_json(&p.limits));
    field(&mut fields, "notes", texts_json(&p.notes));
    field(&mut fields, "observe", observe_json(&p.observe));
    field(&mut fields, "process", process_json(&p.process));
    field(&mut fields, "profile", Json::Text(p.profile.name()));
    field(&mut fields, "profile_version", Json::UInt(p.profile_version as u128));
    field(&mut fields, "security", security_json(&p.security));
    field(&mut fields, "versioned_workspace", versioned_workspace_json(&p.versioned_workspace));
    assert(field_views(fields@) =~= policy_form(*p)->Object_0);
    object(fields)
}

/// The name of a kind of change.
pub open spec fn change_kind_name(kind: WorkspaceChangeKind) -> Seq<char> {
    match kind {
        WorkspaceChangeKind::Added => "added"@,
        WorkspaceChangeKind::Modified => "modified"@,
        WorkspaceChangeKind::Deleted => "deleted"@,
        WorkspaceChangeKind::Renamed => "renamed"@,
        WorkspaceChangeKind::TypeChanged => "type_changed"@,
    }
}

/// The name of a kind of change.
pub fn change_kind_text(kind: WorkspaceChangeKind) -> (s: String)
    ensures
        s@ == change_kind_name(kind),
{
    match kind {
        WorkspaceChangeKind::Added => "added".to_string(),
        WorkspaceChangeKind::Modified => "modified".to_string(),
        WorkspaceChangeKind::Deleted => "deleted".to_string(),
        WorkspaceChangeKind::Renamed => "renamed".to_string(),
        WorkspaceChangeKind::TypeChanged => "type_changed".to_string(),
    }
}

/// The form of an entry.
pub open spec fn entry_form(e: EntryView) -> JsonView {
    match e {
        EntryView::File { size, hash, object, readonly } => JsonView::Object(
            seq![
                ("hash"@, JsonView::Text(hash)),
                ("object"@, JsonView::Text(object)),
                ("readonly"@, JsonView::Bool(readonly)),
                ("size"@, JsonView::Number(size as int)),
                ("type"@, JsonView::Text("file"@)),
            ],
        ),
        EntryView::Directory => JsonView::Object(seq![("type"@, JsonView::Text("directory"@))]),
    }
}

/// The form of an optional entry.
pub open spec fn optional_entry_form(e: Option<EntryView>) -> JsonView {
    match e {
        Some(e) => entry_form(e),
        None => JsonView::Null,
    }
}

/// The form of an entry.
pub fn entry_json(e: &WorkspaceEntry) -> (j: Json)
    ensures
        j@ == entry_form(e@),
{
    let mut fields: Vec<(String, Json)> = Vec::new();
    assert(field_views(fields@) =~= Seq::empty());
    match e {
        WorkspaceEntry::File { size, hash, object: id, readonly } => {
            field(&mut fields, "hash", text_json(hash.as_str()));
            field(&mut fields, "object", text_json(id.as_str()));
            field(&mut fields, "readonly", Json::Bool(*readonly));
            field(&mut fields, "size", Json::UInt(*size as u128));
            field(&mut fields, "type", text_json("file"));
        },
        WorkspaceEntry::Directory => {
            field(&mut fields, "type", text_json("directory"));
        },
    }
    assert(field_views(fields@) =~= entry_form(e@)->Object_0);
    object(fields)
}

/// The form of an optional entry.
pub fn optional_entry_json(e: &Option<WorkspaceEntry>) -> (j: Json)
    ensures
        j@ == optional_entry_form(entry_view(*e)),
{
    match e {
        Some(e) => entry_json(e),
        None => Json::Null,
    }
}

/// The form of a change; a change without a source does not mention one.
pub open spec fn change_form(c: ChangeView) -> JsonView {
    let head = seq![
        ("after"@, optional_entry_form(c.after)),
        ("before"@, optional_entry_form(c.before)),
        ("kind"@, JsonView::Text(change_kind_name(c.kind))),
        ("path"@, JsonView::Text(c.path)),
    ];
    JsonView::Object(
        match c.source_path {
            Some(source) => head.push(("source_path"@, JsonView::Text(source))),
            None => head,
        },
    )
}

/// The form of a change.
pub fn change_json(c: &WorkspaceChange) -> (j: Json)
    ensures
        j@ == change_form(c@),
{
    let mut fields: Vec<(String, Json)> = Vec::new();
    assert(field_views(fields@) =~= Seq::empty());
    field(&mut fields, "after", optional_entry_json(&c.after));
    field(&mut fields, "before", optional_entry_json(&c.before));
    field(&mut fields, "kind", Json::Text(change_kind_text(c.kind)));
    field(&mut fields, "path", text_json(c.path.as_str()));
    if let Some(source) = &c.source_path {
        field(&mut fields, "source_path", text_json(source.as_str()));
    }
    assert(field_views(fields@) =~= change_form(c@)->Object_0);
    object(fields)
}

/// The form of a list of changes.
pub open spec fn changes_form(list: Seq<ChangeView>) -> JsonView {
    JsonView::Array(list.map_values(|c: ChangeView| change_form(c)))
}

/// The form of a list of changes.
pub fn changes_json(list: &Vec<WorkspaceChange>) -> (j: Json)
    ensures
        j@ == changes_form(change_views(list@)),
{
    let mut items: Vec<Json> = Vec::new();
    for i in 0..list.len()
        invariant
            items@.len() == i,
            forall|k: int| 0 <= k < i ==> (#[trigger] items@[k])@ == change_form(list@[k]@),
    {
        items.push(change_json(&list[i]));
    }
    assert(json_views(items@) =~= change_views(list@).map_values(|c: ChangeView| change_form(c)));
    array(items)
}

} // verus!
