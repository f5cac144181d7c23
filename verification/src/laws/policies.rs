//! What a request asks for and what follows from it.

use crate::cli::{build_explain_spec, build_spec, PolicyArgs, RunArgs};
use crate::config::{
    text_map, ConfigError, EffectivePolicy, SandboxProfile, SandboxSpec, SeccompProfile,
};
use crate::text::views;
use crate::versioned_fs::entry::text_view;
use vstd::prelude::*;

verus! {

/// Each profile has one name, and answers to it and to its shorter ones; no
/// other name is a profile.
pub proof fn profiles_answer_to_their_names(value: &str, result: Result<SandboxProfile, ConfigError>)
    requires
        call_ensures(SandboxProfile::parse, (value,), result),
    ensures
        result == Ok::<SandboxProfile, ConfigError>(SandboxProfile::AgentDefault) <==> value@ == "agent-default"@ || value@ == "agent"@
            || value@ == "default"@,
        result == Ok::<SandboxProfile, ConfigError>(SandboxProfile::ReadOnly) <==> value@ == "read-only"@ || value@ == "readonly"@,
        result == Ok::<SandboxProfile, ConfigError>(SandboxProfile::WorkspaceWrite) <==> value@ == "workspace-write"@ || value@
            == "workspace"@,
        result == Ok::<SandboxProfile, ConfigError>(SandboxProfile::PermissiveObserve) <==> value@ == "permissive-observe"@ || value@
            == "observe"@ || value@ == "permissive"@,
        result matches Err(e) ==> (e matches ConfigError::UnknownProfile(name) && name@ == value@),
{
    lemma_profile_names();
}

proof fn lemma_profile_names()
    ensures
        "agent-default"@ != "read-only"@,
        "agent-default"@ != "readonly"@,
        "agent"@ != "read-only"@,
        "agent"@ != "readonly"@,
        "default"@ != "read-only"@,
        "default"@ != "readonly"@,
        "agent-default"@ != "workspace-write"@,
        "agent-default"@ != "workspace"@,
        "agent"@ != "workspace-write"@,
        "agent"@ != "workspace"@,
        "default"@ != "workspace-write"@,
        "default"@ != "workspace"@,
        "read-only"@ != "workspace-write"@,
        "read-only"@ != "workspace"@,
        "readonly"@ != "workspace-write"@,
        "readonly"@ != "workspace"@,
        "agent-default"@ != "permissive-observe"@,
        "agent-default"@ != "observe"@,
        "agent-default"@ != "permissive"@,
        "agent"@ != "permissive-observe"@,
        "agent"@ != "observe"@,
        "agent"@ != "permissive"@,
        "default"@ != "permissive-observe"@,
        "default"@ != "observe"@,
        "default"@ != "permissive"@,
        "read-only"@ != "permissive-observe"@,
        "read-only"@ != "observe"@,
        "read-only"@ != "permissive"@,
        "readonly"@ != "permissive-observe"@,
        "readonly"@ != "observe"@,
        "readonly"@ != "permissive"@,
        "workspace-write"@ != "permissive-observe"@,
        "workspace-write"@ != "observe"@,
        "workspace-write"@ != "permissive"@,
        "workspace"@ != "permissive-observe"@,
        "workspace"@ != "observe"@,
        "workspace"@ != "permissive"@,
{
    reveal_strlit("agent-default");
    reveal_strlit("agent");
    reveal_strlit("default");
    reveal_strlit("read-only");
    reveal_strlit("readonly");
    reveal_strlit("workspace-write");
    reveal_strlit("workspace");
    reveal_strlit("permissive-observe");
    reveal_strlit("observe");
    reveal_strlit("permissive");
    assert("agent-default"@.len() == 13);
    assert("agent"@.len() == 5);
    assert("default"@.len() == 7);
    assert("read-only"@.len() == 9);
    assert("readonly"@.len() == 8);
    assert("workspace-write"@.len() == 15);
    assert("workspace"@.len() == 9);
    assert("permissive-observe"@.len() == 18);
    assert("observe"@.len() == 7);
    assert("permissive"@.len() == 10);
    assert("read-only"@[0] != "workspace"@[0]);
    assert("default"@[0] != "observe"@[0]);
}

/// The name of a profile, as it is told.
pub proof fn profiles_have_their_names(profile: SandboxProfile, name: String)
    requires
        call_ensures(SandboxProfile::name, (&profile,), name),
    ensures
        name@ == match profile {
            SandboxProfile::AgentDefault => "agent-default"@,
            SandboxProfile::ReadOnly => "read-only"@,
            SandboxProfile::WorkspaceWrite => "workspace-write"@,
            SandboxProfile::PermissiveObserve => "permissive-observe"@,
        },
{
}

/// The seccomp profiles answer to their names.
pub proof fn seccomp_profiles_answer_to_their_names(value: &str, result: Result<SeccompProfile, ConfigError>)
    requires
        call_ensures(SeccompProfile::parse, (value,), result),
    ensures
        result == Ok::<SeccompProfile, ConfigError>(SeccompProfile::Off) <==> value@ == "off"@ || value@ == "none"@,
        result == Ok::<SeccompProfile, ConfigError>(SeccompProfile::Basic) <==> value@ == "basic"@,
        result matches Err(e) ==> (e matches ConfigError::UnknownSeccompProfile(name) && name@ == value@),
{
    reveal_strlit("off");
    reveal_strlit("none");
    reveal_strlit("basic");
    assert("off"@.len() == 3 && "none"@.len() == 4 && "basic"@.len() == 5);
}

/// The name of a seccomp profile, as it is told.
pub proof fn seccomp_profiles_have_their_names(profile: SeccompProfile, name: String)
    requires
        call_ensures(SeccompProfile::name, (&profile,), name),
    ensures
        name@ == match profile {
            SeccompProfile::Off => "off"@,
            SeccompProfile::Basic => "basic"@,
        },
{
}

/// What is said of a request that cannot be met.
pub proof fn bad_requests_are_explained(e: ConfigError, message: String)
    requires
        call_ensures(ConfigError::message, (&e,), message),
    ensures
        e is MissingCommand ==> message@ == "missing process command; pass a command after -- or set process.cmd"@,
        e matches ConfigError::UnknownProfile(name) ==> message@ == "unknown sandbox profile: "@ + name@,
        e matches ConfigError::UnknownSeccompProfile(name) ==> message@ == "unknown seccomp profile: "@ + name@,
{
}

/// A policy allows to write the paths that are named; where none is named, the
/// profiles for agents and for workspaces allow the working directory, and no
/// other profile allows anything.
pub proof fn what_a_policy_allows_to_write(spec: SandboxSpec, p: EffectivePolicy)
    requires
        call_ensures(SandboxSpec::effective_policy, (&spec,), p),
    ensures
        views(p.fs.read@) == views(spec.fs.read@),
        spec.fs.write@.len() > 0 ==> views(p.fs.write@) == views(spec.fs.write@),
        spec.fs.write@.len() == 0 && (spec.profile == SandboxProfile::AgentDefault || spec.profile == SandboxProfile::WorkspaceWrite)
            ==> views(p.fs.write@) == seq![
            match spec.process.cwd {
                Some(cwd) => cwd@,
                None => "."@,
            },
        ],
        spec.fs.write@.len() == 0 && (spec.profile == SandboxProfile::ReadOnly || spec.profile == SandboxProfile::PermissiveObserve)
            ==> p.fs.write@.len() == 0,
{
    assert(p.fs@ == p@.fs && spec.fs@ == spec@.fs);
    assert(views(spec.fs.write@).len() == spec.fs.write@.len());
    assert(views(p.fs.write@).len() == p.fs.write@.len());
}

/// A policy restricts what the request restricts, but for the profile that only
/// observes, which lifts the filesystem restrictions; and it keeps the rest of
/// the request as it is.
pub proof fn what_a_policy_keeps_of_a_request(spec: SandboxSpec, p: EffectivePolicy)
    requires
        call_ensures(SandboxSpec::effective_policy, (&spec,), p),
    ensures
        p.profile == spec.profile,
        p.profile_version == 1,
        p.security.landlock <==> spec.security.landlock && spec.profile != SandboxProfile::PermissiveObserve,
        p.security.no_new_privs == spec.security.no_new_privs,
        p.security.seccomp_profile == spec.security.seccomp_profile,
        p.security.allow_degraded == spec.security.allow_degraded,
        p.limits == spec.limits,
        text_view(p.process.cmd) == text_view(spec.process.cmd),
        views(p.process.args@) == views(spec.process.args@),
        text_view(p.process.cwd) == text_view(spec.process.cwd),
        p.process.clear_env == spec.process.clear_env,
        text_map(p.process.env@) == text_map(spec.process.env@),
        text_view(p.observe.trace) == text_view(spec.observe.trace),
        text_view(p.observe.summary) == text_view(spec.observe.summary),
        text_view(p.observe.rhai_script) == text_view(spec.observe.rhai_script),
        p.observe.capture_stdout == spec.observe.capture_stdout,
        p.observe.capture_stderr == spec.observe.capture_stderr,
        p.observe.collect_cgroup == spec.observe.collect_cgroup,
        p.observe.proc_sample_interval_ms == spec.observe.proc_sample_interval_ms,
        p.observe.trace_syscalls == spec.observe.trace_syscalls,
        p.observe.max_trace_output_bytes == spec.observe.max_trace_output_bytes,
        text_view(p.versioned_workspace.workspace) == text_view(spec.versioned_workspace.workspace),
        p.versioned_workspace.rollback_on_failure == spec.versioned_workspace.rollback_on_failure,
        p.versioned_workspace.commit_on_success == spec.versioned_workspace.commit_on_success,
{
    assert(p.process@ == p@.process && spec.process@ == spec@.process);
    assert(p.observe@ == p@.observe && spec.observe@ == spec@.observe);
    assert(p.versioned_workspace@ == p@.versioned_workspace && spec.versioned_workspace@ == spec@.versioned_workspace);
}

/// A policy notes what it made of the request.
pub proof fn what_a_policy_notes(spec: SandboxSpec, p: EffectivePolicy)
    requires
        call_ensures(SandboxSpec::effective_policy, (&spec,), p),
    ensures
        ({
            let granted = spec.fs.write@.len() == 0 && (spec.profile == SandboxProfile::AgentDefault || spec.profile
                == SandboxProfile::WorkspaceWrite);
            let broadened = spec.fs.write@.len() > 0 && spec.profile == SandboxProfile::ReadOnly;
            let lifted = spec.security.landlock && spec.profile == SandboxProfile::PermissiveObserve;
            &&& granted ==> views(p.notes@) == seq!["profile grants write access to the process working directory"@]
            &&& broadened ==> views(p.notes@) == seq!["read-only profile was broadened by explicit write allowlist"@]
            &&& lifted ==> views(p.notes@) == seq!["permissive-observe disables Landlock filesystem restrictions"@]
            &&& !granted && !broadened && !lifted ==> p.notes@.len() == 0
        }),
{
    assert(spec.fs@ == spec@.fs);
    assert(views(spec.fs.write@).len() == spec.fs.write@.len());
    assert(views(p.notes@).len() == p.notes@.len());
}

/// The command of a policy is the one that was asked for; without one the run is refused.
pub proof fn a_run_needs_a_command(p: EffectivePolicy, line: Result<(String, Vec<String>), ConfigError>)
    requires
        call_ensures(EffectivePolicy::command_line, (&p,), line),
    ensures
        match p.process.cmd {
            Some(cmd) => line matches Ok(l) && l.0@ == cmd@ && views(l.1@) == views(p.process.args@),
            None => line == Err::<(String, Vec<String>), ConfigError>(ConfigError::MissingCommand),
        },
{
    assert(p.process@ == p@.process);
}

/// A request of which nothing is said: every restriction is on, nothing is
/// limited, everything is observed but single system calls, at most a mebibyte
/// of output goes into the trace, and the workspace is left alone.
pub proof fn what_is_asked_for_by_default(spec: SandboxSpec)
    requires
        call_ensures(SandboxSpec::default, (), spec),
    ensures
        spec.profile == SandboxProfile::AgentDefault,
        spec.security.no_new_privs && spec.security.landlock && !spec.security.allow_degraded,
        spec.security.seccomp_profile == SeccompProfile::Basic,
        spec.limits.timeout_ms is None && spec.limits.cpu_time_secs is None && spec.limits.address_space_bytes is None,
        spec.limits.open_files is None && spec.limits.file_size_bytes is None && spec.limits.max_processes is None,
        spec.fs.read@.len() == 0 && spec.fs.write@.len() == 0,
        spec.process.cmd is None && spec.process.args@.len() == 0 && spec.process.cwd is None && !spec.process.clear_env,
        spec.process.env@.dom() == Set::<Seq<char>>::empty(),
        spec.observe.capture_stdout && spec.observe.capture_stderr && spec.observe.collect_cgroup && !spec.observe.trace_syscalls,
        spec.observe.proc_sample_interval_ms == 100,
        spec.observe.max_trace_output_bytes == Some(1048576u64),
        spec.observe.trace is None && spec.observe.summary is None && spec.observe.rhai_script is None,
        spec.versioned_workspace.workspace is None && !spec.versioned_workspace.rollback_on_failure
            && !spec.versioned_workspace.commit_on_success,
{
    assert(spec.fs@ == spec@.fs);
    assert(views(spec.fs.read@).len() == spec.fs.read@.len());
    assert(views(spec.fs.write@).len() == spec.fs.write@.len());
    assert(spec.process@ == spec@.process);
    assert(views(spec.process.args@).len() == spec.process.args@.len());
    assert(spec.observe@ == spec@.observe);
    assert(spec.versioned_workspace@ == spec@.versioned_workspace);
    assert(text_map(spec.process.env@).dom() =~= spec.process.env@.dom());
    assert(spec.process.env@.dom() =~= Set::<Seq<char>>::empty());
}

/// Flags: what is given on the command line takes the place of what the request
/// says; paths are added; switches only turn their own thing on or off.
pub proof fn flags_take_the_place_of_the_request(base: SandboxSpec, policy: PolicyArgs, run: RunArgs, spec: SandboxSpec)
    requires
        call_ensures(build_spec, (base, policy, run), Ok::<SandboxSpec, ConfigError>(spec)),
    ensures
        spec.profile == (match policy.profile {
            Some(p) => p,
            None => base.profile,
        }),
        spec.limits.timeout_ms == (match policy.timeout_ms {
            Some(t) => Some(t),
            None => base.limits.timeout_ms,
        }),
        spec.limits.cpu_time_secs == base.limits.cpu_time_secs,
        spec.limits.address_space_bytes == base.limits.address_space_bytes,
        spec.limits.open_files == base.limits.open_files,
        spec.limits.file_size_bytes == base.limits.file_size_bytes,
        spec.limits.max_processes == base.limits.max_processes,
        views(spec.fs.read@) == views(base.fs.read@) + views(policy.allow_read@),
        views(spec.fs.write@) == views(base.fs.write@) + views(policy.allow_write@),
        spec.security.no_new_privs == base.security.no_new_privs,
        spec.security.landlock == (base.security.landlock && !policy.no_landlock),
        spec.security.allow_degraded == (base.security.allow_degraded || policy.allow_degraded),
        spec.security.seccomp_profile == (match policy.seccomp_profile {
            Some(p) => p,
            None => base.security.seccomp_profile,
        }),
        text_view(spec.observe.trace) == (if run.trace is Some {
            text_view(run.trace)
        } else {
            text_view(base.observe.trace)
        }),
        text_view(spec.observe.summary) == (if run.summary is Some {
            text_view(run.summary)
        } else {
            text_view(base.observe.summary)
        }),
        text_view(spec.observe.rhai_script) == (if run.observe_script is Some {
            text_view(run.observe_script)
        } else {
            text_view(base.observe.rhai_script)
        }),
        spec.observe.max_trace_output_bytes == (if run.max_trace_output_bytes is Some {
            run.max_trace_output_bytes
        } else {
            base.observe.max_trace_output_bytes
        }),
        spec.observe.trace_syscalls == (base.observe.trace_syscalls || run.trace_syscalls),
        spec.observe.capture_stdout == base.observe.capture_stdout,
        spec.observe.capture_stderr == base.observe.capture_stderr,
        spec.observe.collect_cgroup == base.observe.collect_cgroup,
        spec.observe.proc_sample_interval_ms == base.observe.proc_sample_interval_ms,
        text_view(spec.versioned_workspace.workspace) == (if run.versioned_workspace is Some {
            text_view(run.versioned_workspace)
        } else {
            text_view(base.versioned_workspace.workspace)
        }),
        spec.versioned_workspace.rollback_on_failure == (base.versioned_workspace.rollback_on_failure || run.rollback_on_failure),
        spec.versioned_workspace.commit_on_success == (base.versioned_workspace.commit_on_success || run.commit_on_success),
{
    assert(spec.fs@ == spec@.fs && base.fs@ == base@.fs);
    assert(spec.observe@ == spec@.observe && base.observe@ == base@.observe);
    assert(spec.versioned_workspace@ == spec@.versioned_workspace && base.versioned_workspace@ == base@.versioned_workspace);
}

/// The command on the command line takes the place of that of the request: its
/// first word is what is run, the others are its arguments. Without any the run
/// is refused.
pub proof fn the_command_line_names_the_command(
    base: SandboxSpec,
    policy: PolicyArgs,
    run: RunArgs,
    result: Result<SandboxSpec, ConfigError>,
)
    requires
        call_ensures(build_spec, (base, policy, run), result),
    ensures
        run.command@.len() > 0 ==> (result matches Ok(spec) && text_view(spec.process.cmd) == Some(run.command@[0]@) && views(
            spec.process.args@,
        ) == views(run.command@).skip(1)),
        run.command@.len() == 0 && base.process.cmd is Some ==> (result matches Ok(spec) && text_view(spec.process.cmd) == text_view(
            base.process.cmd,
        ) && views(spec.process.args@) == views(base.process.args@)),
        run.command@.len() == 0 && base.process.cmd is None ==> result == Err::<SandboxSpec, ConfigError>(ConfigError::MissingCommand),
        result matches Ok(spec) ==> text_view(spec.process.cwd) == text_view(base.process.cwd) && spec.process.clear_env
            == base.process.clear_env && text_map(spec.process.env@) == text_map(base.process.env@),
{
    assert(views(run.command@).len() == run.command@.len());
    assert(base.process@ == base@.process);
    if run.command@.len() > 0 {
        assert(views(run.command@)[0] == run.command@[0]@);
    }
    if let Ok(spec) = result {
        assert(spec.process@ == spec@.process);
    }
}

/// Explaining applies the same flags and the same command as running.
pub proof fn explaining_applies_the_same_flags(
    base: SandboxSpec,
    policy: PolicyArgs,
    run: RunArgs,
    ran: SandboxSpec,
    command: Vec<String>,
    explained: SandboxSpec,
)
    requires
        call_ensures(build_spec, (base, policy, run), Ok::<SandboxSpec, ConfigError>(ran)),
        views(command@) == views(run.command@),
        call_ensures(build_explain_spec, (base, policy, command), explained),
    ensures
        explained.profile == ran.profile,
        explained.limits == ran.limits,
        explained.security == ran.security,
        views(explained.fs.read@) == views(ran.fs.read@),
        views(explained.fs.write@) == views(ran.fs.write@),
        text_view(explained.process.cmd) == text_view(ran.process.cmd),
        views(explained.process.args@) == views(ran.process.args@),
{
    assert(explained.fs@ == explained@.fs && ran.fs@ == ran@.fs);
    assert(explained.process@ == explained@.process && ran.process@ == ran@.process);
}

} // verus!
