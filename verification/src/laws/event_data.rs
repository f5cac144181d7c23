//! What the events and the answers of the program tell, name by name.

use crate::agent::{agent_guide_json, agent_guide_markdown, capabilities_json};
use crate::config::{EffectivePolicy, SandboxProfile, SandboxSpec, SeccompProfile};
use crate::forms::{change_json, fs_json, limits_json, policy_json};
use crate::json::{field_views, Json, JsonView};
use crate::laws::journal_reading::{named, named_from};
use crate::laws::reports::{lemma_list_of, list_of, signed_or_null, text_or_null};
use crate::report::{cgroup_json, failure_json, CgroupStats, EnvReport, RunReport, VersionedFsReport};
use crate::runner::events::{
    closing_events, draft_views, policy_events, proc_sample_event, run_start, workspace_events, EventDraft,
};
use crate::runner::plan::{EnvFacts, Runner};
use crate::runner::procfs::ProcSample;
use crate::runner::seccomp::blocked_syscall_names;
use crate::versioned_fs::diff::change_views;
use vstd::prelude::*;

verus! {

/// The names differ.
proof fn lemma_the_first_event_tells_what_is_observed()
    ensures
        "args"@ != "command"@,
        "args"@ != "observe"@,
        "command"@ != "observe"@,
        "args"@ != "profile"@,
        "command"@ != "profile"@,
        "observe"@ != "profile"@,
        "args"@ != "profile_version"@,
        "command"@ != "profile_version"@,
        "observe"@ != "profile_version"@,
        "profile"@ != "profile_version"@,
        "args"@ != "schema_version"@,
        "command"@ != "schema_version"@,
        "observe"@ != "schema_version"@,
        "profile"@ != "schema_version"@,
        "profile_version"@ != "schema_version"@,
        "args"@ != "shadox_version"@,
        "command"@ != "shadox_version"@,
        "observe"@ != "shadox_version"@,
        "profile"@ != "shadox_version"@,
        "profile_version"@ != "shadox_version"@,
        "schema_version"@ != "shadox_version"@,
        "args"@ != "summary_path"@,
        "command"@ != "summary_path"@,
        "observe"@ != "summary_path"@,
        "profile"@ != "summary_path"@,
        "profile_version"@ != "summary_path"@,
        "schema_version"@ != "summary_path"@,
        "shadox_version"@ != "summary_path"@,
        "args"@ != "trace_path"@,
        "command"@ != "trace_path"@,
        "observe"@ != "trace_path"@,
        "profile"@ != "trace_path"@,
        "profile_version"@ != "trace_path"@,
        "schema_version"@ != "trace_path"@,
        "shadox_version"@ != "trace_path"@,
        "summary_path"@ != "trace_path"@,
{
    reveal_strlit("args");
    reveal_strlit("command");
    reveal_strlit("observe");
    reveal_strlit("profile");
    reveal_strlit("profile_version");
    reveal_strlit("schema_version");
    reveal_strlit("shadox_version");
    reveal_strlit("summary_path");
    reveal_strlit("trace_path");
    assert("args"@.len() == 4);
    assert("command"@.len() == 7);
    assert("observe"@.len() == 7);
    assert("profile"@.len() == 7);
    assert("profile_version"@.len() == 15);
    assert("schema_version"@.len() == 14);
    assert("shadox_version"@.len() == 14);
    assert("summary_path"@.len() == 12);
    assert("trace_path"@.len() == 10);
    assert("command"@[0] != "observe"@[0]);
    assert("command"@[0] != "profile"@[0]);
    assert("observe"@[0] != "profile"@[0]);
    assert("schema_version"@[1] != "shadox_version"@[1]);
}

/// The first event tells the profile of the run and what is observed of it.
pub proof fn the_first_event_tells_what_is_observed(p: EffectivePolicy, cmd: &str, args: Vec<String>, trace: &str, summary: &str, d: EventDraft, profile: String)
    requires
        call_ensures(run_start, (&p, cmd, &args, trace, summary), d),
        call_ensures(SandboxProfile::name, (&p.profile,), profile),
    ensures
        named(d.data@, "profile"@) == Some(JsonView::Text(profile@)),
        named(d.data@, "profile_version"@) == Some(JsonView::Number(p.profile_version as int)),
{
    lemma_the_first_event_tells_what_is_observed();
    assert(d@.data == d.data@);
    reveal_with_fuel(named_from, 10);
    let f = d.data@->Object_0;
    assert(f[0].0 == "args"@);
    assert(f[1].0 == "command"@);
    assert(f[2].0 == "observe"@);
    assert(f[3].0 == "profile"@);
    assert(f[4].0 == "profile_version"@);
    assert(f[5].0 == "schema_version"@);
    assert(f[6].0 == "shadox_version"@);
    assert(f[7].0 == "summary_path"@);
    assert(f[8].0 == "trace_path"@);
}

/// The names differ.
proof fn lemma_the_first_event_tells_the_observation()
    ensures
        "collect_cgroup"@ != "proc_sample_interval_ms"@,
        "collect_cgroup"@ != "trace_syscalls"@,
        "proc_sample_interval_ms"@ != "trace_syscalls"@,
{
    reveal_strlit("collect_cgroup");
    reveal_strlit("proc_sample_interval_ms");
    reveal_strlit("trace_syscalls");
    assert("collect_cgroup"@.len() == 14);
    assert("proc_sample_interval_ms"@.len() == 23);
    assert("trace_syscalls"@.len() == 14);
    assert("collect_cgroup"@[0] != "trace_syscalls"@[0]);
}

/// Of what is observed it tells whether control groups and system calls are, and how often processes are sampled.
pub proof fn the_first_event_tells_the_observation(p: EffectivePolicy, cmd: &str, args: Vec<String>, trace: &str, summary: &str, d: EventDraft)
    requires
        call_ensures(run_start, (&p, cmd, &args, trace, summary), d),
    ensures
        d.data@->Object_0[2].0 == "observe"@,
        named(d.data@->Object_0[2].1, "collect_cgroup"@) == Some(JsonView::Bool(p.observe.collect_cgroup)),
        named(d.data@->Object_0[2].1, "proc_sample_interval_ms"@) == Some(JsonView::Number(p.observe.proc_sample_interval_ms as int)),
        named(d.data@->Object_0[2].1, "trace_syscalls"@) == Some(JsonView::Bool(p.observe.trace_syscalls)),
{
    lemma_the_first_event_tells_the_observation();
    assert(d@.data == d.data@);
    reveal_with_fuel(named_from, 4);
    let f = d.data@->Object_0[2].1->Object_0;
    assert(f[0].0 == "collect_cgroup"@);
    assert(f[1].0 == "proc_sample_interval_ms"@);
    assert(f[2].0 == "trace_syscalls"@);
}

/// The names differ.
proof fn lemma_the_policy_event_tells_the_policy()
    ensures
        "allow_degraded"@ != "fs"@,
        "allow_degraded"@ != "landlock"@,
        "fs"@ != "landlock"@,
        "allow_degraded"@ != "limits"@,
        "fs"@ != "limits"@,
        "landlock"@ != "limits"@,
        "allow_degraded"@ != "no_new_privs"@,
        "fs"@ != "no_new_privs"@,
        "landlock"@ != "no_new_privs"@,
        "limits"@ != "no_new_privs"@,
        "allow_degraded"@ != "profile"@,
        "fs"@ != "profile"@,
        "landlock"@ != "profile"@,
        "limits"@ != "profile"@,
        "no_new_privs"@ != "profile"@,
        "allow_degraded"@ != "profile_notes"@,
        "fs"@ != "profile_notes"@,
        "landlock"@ != "profile_notes"@,
        "limits"@ != "profile_notes"@,
        "no_new_privs"@ != "profile_notes"@,
        "profile"@ != "profile_notes"@,
        "allow_degraded"@ != "profile_version"@,
        "fs"@ != "profile_version"@,
        "landlock"@ != "profile_version"@,
        "limits"@ != "profile_version"@,
        "no_new_privs"@ != "profile_version"@,
        "profile"@ != "profile_version"@,
        "profile_notes"@ != "profile_version"@,
        "allow_degraded"@ != "seccomp_profile"@,
        "fs"@ != "seccomp_profile"@,
        "landlock"@ != "seccomp_profile"@,
        "limits"@ != "seccomp_profile"@,
        "no_new_privs"@ != "seccomp_profile"@,
        "profile"@ != "seccomp_profile"@,
        "profile_notes"@ != "seccomp_profile"@,
        "profile_version"@ != "seccomp_profile"@,
{
    reveal_strlit("allow_degraded");
    reveal_strlit("fs");
    reveal_strlit("landlock");
    reveal_strlit("limits");
    reveal_strlit("no_new_privs");
    reveal_strlit("profile");
    reveal_strlit("profile_notes");
    reveal_strlit("profile_version");
    reveal_strlit("seccomp_profile");
    assert("allow_degraded"@.len() == 14);
    assert("fs"@.len() == 2);
    assert("landlock"@.len() == 8);
    assert("limits"@.len() == 6);
    assert("no_new_privs"@.len() == 12);
    assert("profile"@.len() == 7);
    assert("profile_notes"@.len() == 13);
    assert("profile_version"@.len() == 15);
    assert("seccomp_profile"@.len() == 15);
    assert("profile_version"@[0] != "seccomp_profile"@[0]);
}

/// The event on the policy tells each part of it.
pub proof fn the_policy_event_tells_the_policy(p: EffectivePolicy, degraded: Vec<String>, list: Vec<EventDraft>, fs: Json, limits: Json, profile: String, seccomp: String)
    requires
        call_ensures(policy_events, (&p, &degraded), list),
        call_ensures(fs_json, (&p.fs,), fs),
        call_ensures(limits_json, (&p.limits,), limits),
        call_ensures(SandboxProfile::name, (&p.profile,), profile),
        call_ensures(SeccompProfile::name, (&p.security.seccomp_profile,), seccomp),
    ensures
        named(list@.last().data@, "allow_degraded"@) == Some(JsonView::Bool(p.security.allow_degraded)),
        named(list@.last().data@, "fs"@) == Some(fs@),
        named(list@.last().data@, "landlock"@) == Some(JsonView::Bool(p.security.landlock)),
        named(list@.last().data@, "limits"@) == Some(limits@),
        named(list@.last().data@, "no_new_privs"@) == Some(JsonView::Bool(p.security.no_new_privs)),
        named(list@.last().data@, "profile"@) == Some(JsonView::Text(profile@)),
        named(list@.last().data@, "profile_notes"@) == Some(list_of(p.notes@)),
        named(list@.last().data@, "profile_version"@) == Some(JsonView::Number(p.profile_version as int)),
        named(list@.last().data@, "seccomp_profile"@) == Some(JsonView::Text(seccomp@)),
{
    lemma_the_policy_event_tells_the_policy();
    lemma_list_of(p.notes@);
    assert(draft_views(list@).len() == list@.len());
    assert(draft_views(list@).last() == list@.last()@);
    assert(list@.last()@.data == list@.last().data@);
    reveal_with_fuel(named_from, 10);
    let f = list@.last().data@->Object_0;
    assert(f[0].0 == "allow_degraded"@);
    assert(f[1].0 == "fs"@);
    assert(f[2].0 == "landlock"@);
    assert(f[3].0 == "limits"@);
    assert(f[4].0 == "no_new_privs"@);
    assert(f[5].0 == "profile"@);
    assert(f[6].0 == "profile_notes"@);
    assert(f[7].0 == "profile_version"@);
    assert(f[8].0 == "seccomp_profile"@);
}

/// The names differ.
proof fn lemma_the_end_of_the_process_is_told()
    ensures
        "exit_code"@ != "failure"@,
        "exit_code"@ != "signal"@,
        "failure"@ != "signal"@,
        "exit_code"@ != "timed_out"@,
        "failure"@ != "timed_out"@,
        "signal"@ != "timed_out"@,
{
    reveal_strlit("exit_code");
    reveal_strlit("failure");
    reveal_strlit("signal");
    reveal_strlit("timed_out");
    assert("exit_code"@.len() == 9);
    assert("failure"@.len() == 7);
    assert("signal"@.len() == 6);
    assert("timed_out"@.len() == 9);
    assert("exit_code"@[0] != "timed_out"@[0]);
}

/// The event on the end of the process tells how it ended.
pub proof fn the_end_of_the_process_is_told(r: RunReport, list: Vec<EventDraft>, failure: Json)
    requires
        call_ensures(closing_events, (&r,), list),
        call_ensures(failure_json, (&r.failure,), failure),
    ensures
        list@[0].kind@ == "process.exit"@,
        named(list@[0].data@, "exit_code"@) == Some(signed_or_null(r.exit_code)),
        named(list@[0].data@, "failure"@) == Some(failure@),
        named(list@[0].data@, "signal"@) == Some(signed_or_null(r.signal)),
        named(list@[0].data@, "timed_out"@) == Some(JsonView::Bool(r.timed_out)),
{
    lemma_the_end_of_the_process_is_told();
    assert(draft_views(list@).len() == list@.len());
    assert(draft_views(list@)[0] == list@[0]@);
    assert(list@[0]@.data == list@[0].data@);
    reveal_with_fuel(named_from, 5);
    let f = list@[0].data@->Object_0;
    assert(f[0].0 == "exit_code"@);
    assert(f[1].0 == "failure"@);
    assert(f[2].0 == "signal"@);
    assert(f[3].0 == "timed_out"@);
}

/// The names differ.
proof fn lemma_what_the_command_changed_is_told()
    ensures
        "changed_files"@ != "changes"@,
        "changed_files"@ != "checkpoint_after"@,
        "changes"@ != "checkpoint_after"@,
        "changed_files"@ != "checkpoint_before"@,
        "changes"@ != "checkpoint_before"@,
        "checkpoint_after"@ != "checkpoint_before"@,
        "changed_files"@ != "journal_path"@,
        "changes"@ != "journal_path"@,
        "checkpoint_after"@ != "journal_path"@,
        "checkpoint_before"@ != "journal_path"@,
{
    reveal_strlit("changed_files");
    reveal_strlit("changes");
    reveal_strlit("checkpoint_after");
    reveal_strlit("checkpoint_before");
    reveal_strlit("journal_path");
    assert("changed_files"@.len() == 13);
    assert("changes"@.len() == 7);
    assert("checkpoint_after"@.len() == 16);
    assert("checkpoint_before"@.len() == 17);
    assert("journal_path"@.len() == 12);
}

/// The event on the changes tells them, between which checkpoints they lie, and where they are journaled.
pub proof fn what_the_command_changed_is_told(r: VersionedFsReport, list: Vec<EventDraft>, i: int, change: Json)
    requires
        call_ensures(workspace_events, (&r,), list),
        0 <= i < r.changes@.len(),
        call_ensures(change_json, (&r.changes@[i],), change),
    ensures
        named(list@[0].data@, "changes"@) matches Some(JsonView::Array(items)) && items.len() == r.changes@.len() && items[i] == change@,
        named(list@[0].data@, "changed_files"@) == Some(JsonView::Number(r.changed_files as int)),
        named(list@[0].data@, "checkpoint_after"@) == Some(JsonView::Text(r.checkpoint_after@)),
        named(list@[0].data@, "checkpoint_before"@) == Some(JsonView::Text(r.checkpoint_before@)),
        named(list@[0].data@, "journal_path"@) == Some(JsonView::Text(r.journal_path@)),
{
    lemma_what_the_command_changed_is_told();
    assert(draft_views(list@).len() == list@.len());
    assert(draft_views(list@)[0] == list@[0]@);
    assert(list@[0]@.data == list@[0].data@);
    assert(change_views(r.changes@).len() == r.changes@.len());
    assert(change_views(r.changes@)[i] == r.changes@[i]@);
    reveal_with_fuel(named_from, 6);
    let f = list@[0].data@->Object_0;
    assert(f[0].0 == "changed_files"@);
    assert(f[1].0 == "changes"@);
    assert(f[2].0 == "checkpoint_after"@);
    assert(f[3].0 == "checkpoint_before"@);
    assert(f[4].0 == "journal_path"@);
}

/// The names differ.
proof fn lemma_a_sample_tells_its_control_group()
    ensures
        "cgroup"@ != "pids"@,
        "cgroup"@ != "process_count"@,
        "pids"@ != "process_count"@,
        "cgroup"@ != "read_bytes"@,
        "pids"@ != "read_bytes"@,
        "process_count"@ != "read_bytes"@,
        "cgroup"@ != "rss_kb"@,
        "pids"@ != "rss_kb"@,
        "process_count"@ != "rss_kb"@,
        "read_bytes"@ != "rss_kb"@,
        "cgroup"@ != "write_bytes"@,
        "pids"@ != "write_bytes"@,
        "process_count"@ != "write_bytes"@,
        "read_bytes"@ != "write_bytes"@,
        "rss_kb"@ != "write_bytes"@,
{
    reveal_strlit("cgroup");
    reveal_strlit("pids");
    reveal_strlit("process_count");
    reveal_strlit("read_bytes");
    reveal_strlit("rss_kb");
    reveal_strlit("write_bytes");
    assert("cgroup"@.len() == 6);
    assert("pids"@.len() == 4);
    assert("process_count"@.len() == 13);
    assert("read_bytes"@.len() == 10);
    assert("rss_kb"@.len() == 6);
    assert("write_bytes"@.len() == 11);
    assert("cgroup"@[0] != "rss_kb"@[0]);
}

/// A sample tells the control group where there is one, beside what it tells anyway.
pub proof fn a_sample_tells_its_control_group(s: ProcSample, c: CgroupStats, d: EventDraft, group: Json)
    requires
        call_ensures(proc_sample_event, (&s, &Some(c)), d),
        call_ensures(cgroup_json, (&c,), group),
    ensures
        named(d.data@, "cgroup"@) == Some(group@),
        named(d.data@, "process_count"@) == Some(JsonView::Number(s.pids@.len() as int)),
        named(d.data@, "read_bytes"@) == Some(JsonView::Number(s.read_bytes as int)),
        named(d.data@, "rss_kb"@) == Some(JsonView::Number(s.rss_kb as int)),
        named(d.data@, "write_bytes"@) == Some(JsonView::Number(s.write_bytes as int)),
{
    lemma_a_sample_tells_its_control_group();
    assert(d@.data == d.data@);
    reveal_with_fuel(named_from, 7);
    let f = d.data@->Object_0;
    assert(f[0].0 == "cgroup"@);
    assert(f[1].0 == "pids"@);
    assert(f[2].0 == "process_count"@);
    assert(f[3].0 == "read_bytes"@);
    assert(f[4].0 == "rss_kb"@);
    assert(f[5].0 == "write_bytes"@);
}

/// The names differ.
proof fn lemma_explanation()
    ensures
        "effective_policy"@ != "profile"@,
        "effective_policy"@ != "seccomp"@,
        "profile"@ != "seccomp"@,
{
    reveal_strlit("effective_policy");
    reveal_strlit("profile");
    reveal_strlit("seccomp");
    assert("effective_policy"@.len() == 16);
    assert("profile"@.len() == 7);
    assert("seccomp"@.len() == 7);
    assert("profile"@[0] != "seccomp"@[0]);
}

/// The names differ.
proof fn lemma_seccomp()
    ensures
        "blocked_syscalls"@ != "description"@,
        "blocked_syscalls"@ != "seccomp_profile"@,
        "description"@ != "seccomp_profile"@,
{
    reveal_strlit("blocked_syscalls");
    reveal_strlit("description");
    reveal_strlit("seccomp_profile");
    assert("blocked_syscalls"@.len() == 16);
    assert("description"@.len() == 11);
    assert("seccomp_profile"@.len() == 15);
}

/// An explanation tells the policy that a run would have, and what its filter blocks.
pub proof fn an_explanation_tells_the_policy(spec: SandboxSpec, j: Json, blocked: Vec<String>) -> (p: EffectivePolicy)
    requires
        spec.wf(),
        call_ensures(Runner::explain, (&spec,), j),
        call_ensures(blocked_syscall_names, (), blocked),
    ensures
        forall|q: EffectivePolicy| #[trigger] call_ensures(SandboxSpec::effective_policy, (&spec,), q) ==> q@ == p@,
        forall|shown: Json| call_ensures(policy_json, (&p,), shown) ==> named(j@, "effective_policy"@) == Some(#[trigger] shown@),
        forall|name: String| call_ensures(SandboxProfile::name, (&p.profile,), name) ==> named(j@, "profile"@) == Some(JsonView::Text(#[trigger] name@)),
        named(j@, "seccomp"@) matches Some(filter) && match p.security.seccomp_profile {
            SeccompProfile::Off => named(filter, "seccomp_profile"@) == Some(JsonView::Text("off"@)) && named(filter, "description"@) == Some(
                JsonView::Text("No seccomp filter is installed."@),
            ) && named(filter, "blocked_syscalls"@) == Some(JsonView::Array(Seq::empty())),
            SeccompProfile::Basic => named(filter, "seccomp_profile"@) == Some(JsonView::Text("basic"@)) && named(filter, "description"@) == Some(
                JsonView::Text(
                    "Block obvious privileged or introspection syscalls while keeping ordinary CLI programs usable."@,
                ),
            ) && named(filter, "blocked_syscalls"@) == Some(list_of(blocked@)),
        },
{
    lemma_explanation();
    lemma_seccomp();
    lemma_list_of(blocked@);
    reveal_with_fuel(named_from, 4);
    let p = choose|policy: EffectivePolicy|
        policy.wf() && policy@ == crate::config::effective(spec@) && j@ == #[trigger] crate::runner::plan::explanation_form(policy);
    let f = j@->Object_0;
    assert(f[0].0 == "effective_policy"@);
    assert(f[1].0 == "profile"@);
    assert(f[2].0 == "seccomp"@);
    let g = f[2].1->Object_0;
    assert(g[0].0 == "blocked_syscalls"@);
    assert(g[1].0 == "description"@);
    assert(g[2].0 == "seccomp_profile"@);
    assert(crate::json::texts(Seq::empty())->Array_0 =~= Seq::<JsonView>::empty());
    p
}

/// The names differ.
proof fn lemma_the_machine_is_told_by_name()
    ensures
        "cgroup_path"@ != "cgroup_v2"@,
        "cgroup_path"@ != "kernel"@,
        "cgroup_v2"@ != "kernel"@,
        "cgroup_path"@ != "landlock_abi"@,
        "cgroup_v2"@ != "landlock_abi"@,
        "kernel"@ != "landlock_abi"@,
        "cgroup_path"@ != "max_user_namespaces"@,
        "cgroup_v2"@ != "max_user_namespaces"@,
        "kernel"@ != "max_user_namespaces"@,
        "landlock_abi"@ != "max_user_namespaces"@,
        "cgroup_path"@ != "seccomp"@,
        "cgroup_v2"@ != "seccomp"@,
        "kernel"@ != "seccomp"@,
        "landlock_abi"@ != "seccomp"@,
        "max_user_namespaces"@ != "seccomp"@,
        "cgroup_path"@ != "unprivileged_userns_clone"@,
        "cgroup_v2"@ != "unprivileged_userns_clone"@,
        "kernel"@ != "unprivileged_userns_clone"@,
        "landlock_abi"@ != "unprivileged_userns_clone"@,
        "max_user_namespaces"@ != "unprivileged_userns_clone"@,
        "seccomp"@ != "unprivileged_userns_clone"@,
{
    reveal_strlit("cgroup_path");
    reveal_strlit("cgroup_v2");
    reveal_strlit("kernel");
    reveal_strlit("landlock_abi");
    reveal_strlit("max_user_namespaces");
    reveal_strlit("seccomp");
    reveal_strlit("unprivileged_userns_clone");
    assert("cgroup_path"@.len() == 11);
    assert("cgroup_v2"@.len() == 9);
    assert("kernel"@.len() == 6);
    assert("landlock_abi"@.len() == 12);
    assert("max_user_namespaces"@.len() == 19);
    assert("seccomp"@.len() == 7);
    assert("unprivileged_userns_clone"@.len() == 25);
}

/// What is known of the machine is told by name; the program runs on it.
pub proof fn the_machine_is_told_by_name(facts: EnvFacts, r: EnvReport)
    requires
        call_ensures(Runner::check_env, (&facts,), r),
    ensures
        r.platform@ == "linux"@ && r.supported,
        named(JsonView::Object(field_views(r.details@)), "cgroup_path"@) == Some(text_or_null(facts.cgroup_path)),
        named(JsonView::Object(field_views(r.details@)), "cgroup_v2"@) == Some(JsonView::Bool(facts.cgroup_v2)),
        named(JsonView::Object(field_views(r.details@)), "kernel"@) == Some(JsonView::Text(facts.kernel@)),
        named(JsonView::Object(field_views(r.details@)), "landlock_abi"@) == Some(signed_or_null(facts.landlock_abi)),
        named(JsonView::Object(field_views(r.details@)), "max_user_namespaces"@) == Some(text_or_null(facts.max_user_namespaces)),
        named(JsonView::Object(field_views(r.details@)), "seccomp"@) == Some(JsonView::Bool(true)),
        named(JsonView::Object(field_views(r.details@)), "unprivileged_userns_clone"@) == Some(text_or_null(facts.unprivileged_userns_clone)),
{
    lemma_the_machine_is_told_by_name();
    reveal_with_fuel(named_from, 8);
    let f = JsonView::Object(field_views(r.details@))->Object_0;
    assert(f[0].0 == "cgroup_path"@);
    assert(f[1].0 == "cgroup_v2"@);
    assert(f[2].0 == "kernel"@);
    assert(f[3].0 == "landlock_abi"@);
    assert(f[4].0 == "max_user_namespaces"@);
    assert(f[5].0 == "seccomp"@);
    assert(f[6].0 == "unprivileged_userns_clone"@);
}

/// On another machine nothing is run, and it is said why.
pub proof fn other_machines_are_refused(spec: SandboxSpec, run: Result<RunReport, String>, platform: String, r: EnvReport)
    requires
        call_ensures(Runner::run_unsupported, (&spec,), run),
        call_ensures(Runner::check_env_unsupported, (platform,), r),
    ensures
        run matches Err(message) && message@ == "shadox run is Linux-only; use WSL2 or a Linux host for sandbox execution"@,
        !r.supported && r.platform@ == platform@,
        named(JsonView::Object(field_views(r.details@)), "reason"@) == Some(
            JsonView::Text("sandbox primitives require Linux procfs, prctl, rlimit, Landlock, and seccomp"@),
        ),
{
    reveal_with_fuel(named_from, 2);
}

/// The names differ.
proof fn lemma_the_guide_is_told_with_its_kind()
    ensures
        "content"@ != "kind"@,
        "content"@ != "schema_version"@,
        "kind"@ != "schema_version"@,
        "content"@ != "source"@,
        "kind"@ != "source"@,
        "schema_version"@ != "source"@,
{
    reveal_strlit("content");
    reveal_strlit("kind");
    reveal_strlit("schema_version");
    reveal_strlit("source");
    assert("content"@.len() == 7);
    assert("kind"@.len() == 4);
    assert("schema_version"@.len() == 14);
    assert("source"@.len() == 6);
}

/// The guide is told as it is printed, with what it is and where it comes from.
pub proof fn the_guide_is_told_with_its_kind(text: String, j: Json)
    requires
        call_ensures(agent_guide_markdown, (), text),
        call_ensures(agent_guide_json, (), j),
    ensures
        named(j@, "content"@) == Some(JsonView::Text(text@)),
        named(j@, "kind"@) == Some(JsonView::Text("shadox.agent_guide"@)),
        named(j@, "schema_version"@) == Some(JsonView::Number(1)),
        named(j@, "source"@) == Some(JsonView::Text("docs/agent-contract.md"@)),
{
    lemma_the_guide_is_told_with_its_kind();
    reveal_with_fuel(named_from, 5);
    let f = j@->Object_0;
    assert(f[0].0 == "content"@);
    assert(f[1].0 == "kind"@);
    assert(f[2].0 == "schema_version"@);
    assert(f[3].0 == "source"@);
}

/// The names differ.
proof fn lemma_the_commands_are_told_by_name()
    ensures
        "commands"@ != "guide"@,
        "commands"@ != "kind"@,
        "guide"@ != "kind"@,
        "commands"@ != "schema_version"@,
        "guide"@ != "schema_version"@,
        "kind"@ != "schema_version"@,
{
    reveal_strlit("commands");
    reveal_strlit("guide");
    reveal_strlit("kind");
    reveal_strlit("schema_version");
    assert("commands"@.len() == 8);
    assert("guide"@.len() == 5);
    assert("kind"@.len() == 4);
    assert("schema_version"@.len() == 14);
}

/// What the program can do is told by its commands, in their order, with what each is for, and how the guide is had.
pub proof fn the_commands_are_told_by_name(j: Json)
    requires
        call_ensures(capabilities_json, (), j),
    ensures
        named(j@, "guide"@) matches Some(g) && named(g, "command"@) == Some(JsonView::Text("shadox agent-guide --format markdown"@)),
        named(j@, "commands"@) matches Some(JsonView::Array(c)) && {
            &&& c.len() == 6
            &&& named(c[0], "name"@) == Some(JsonView::Text("agent-guide"@)) && named(c[0], "purpose"@) == Some(
                JsonView::Text("Print the contract that an agent follows when it wraps commands."@),
            )
            &&& named(c[1], "name"@) == Some(JsonView::Text("capabilities"@)) && named(c[1], "purpose"@) == Some(
                JsonView::Text("List the commands in a machine-readable form."@),
            )
            &&& named(c[2], "name"@) == Some(JsonView::Text("check-env"@)) && named(c[2], "purpose"@) == Some(
                JsonView::Text("Report which sandbox primitives this host offers."@),
            )
            &&& named(c[3], "name"@) == Some(JsonView::Text("explain"@)) && named(c[3], "purpose"@) == Some(
                JsonView::Text("Show the effective policy of a run without running it."@),
            )
            &&& named(c[4], "name"@) == Some(JsonView::Text("fs"@)) && named(c[4], "purpose"@) == Some(
                JsonView::Text("Checkpoint, diff, roll back, commit and replay a versioned workspace."@),
            )
            &&& named(c[5], "name"@) == Some(JsonView::Text("run"@)) && named(c[5], "purpose"@) == Some(
                JsonView::Text("Run a command that can change the workspace under a supervised, observable sandbox."@),
            )
        },
        named(j@, "kind"@) == Some(JsonView::Text("shadox.agent_capabilities"@)),
        named(j@, "schema_version"@) == Some(JsonView::Number(1)),
{
    lemma_the_commands_are_told_by_name();
    reveal_strlit("name");
    reveal_strlit("purpose");
    assert("name"@.len() == 4 && "purpose"@.len() == 7);
    reveal_with_fuel(named_from, 5);
    let f = j@->Object_0;
    assert(f[0].0 == "commands"@);
    assert(f[1].0 == "guide"@);
    assert(f[2].0 == "kind"@);
    assert(f[3].0 == "schema_version"@);
}

} // verus!
