//! What the command line makes of a request.

use crate::config::{
    ConfigError, ConfigErrorView, FsView, LimitsSpec, ObserveSpec, ObserveView, ProcessView,
    SandboxProfile, SandboxSpec, SandboxView, SeccompProfile, SecuritySpec, VersionedWorkspaceSpec,
    VersionedWorkspaceView,
};
use crate::text::views;
use crate::versioned_fs::entry::text_view;
use vstd::prelude::*;

verus! {

/// The flags that change the policy.
pub struct PolicyArgs {
    pub profile: Option<SandboxProfile>,
    pub timeout_ms: Option<u64>,
    pub allow_read: Vec<String>,
    pub allow_write: Vec<String>,
    pub allow_degraded: bool,
    pub no_landlock: bool,
    pub seccomp_profile: Option<SeccompProfile>,
}

/// The flags of a run, and the command behind them.
pub struct RunArgs {
    pub trace: Option<String>,
    pub summary: Option<String>,
    pub observe_script: Option<String>,
    pub trace_syscalls: bool,
    pub max_trace_output_bytes: Option<u64>,
    pub versioned_workspace: Option<String>,
    pub rollback_on_failure: bool,
    pub commit_on_success: bool,
    pub command: Vec<String>,
}

/// The first that is there.
pub open spec fn or_else<T>(a: Option<T>, b: Option<T>) -> Option<T> {
    match a {
        Some(_) => a,
        None => b,
    }
}

/// A request with the policy flags applied: a flag takes the place of what the
/// request says, and named paths are added to those that it names.
pub open spec fn with_policy(spec: SandboxView, args: PolicyArgs) -> SandboxView {
    SandboxView {
        profile: match args.profile {
            Some(p) => p,
            None => spec.profile,
        },
        process: spec.process,
        limits: LimitsSpec {
            timeout_ms: or_else(args.timeout_ms, spec.limits.timeout_ms),
            cpu_time_secs: spec.limits.cpu_time_secs,
            address_space_bytes: spec.limits.address_space_bytes,
            open_files: spec.limits.open_files,
            file_size_bytes: spec.limits.file_size_bytes,
            max_processes: spec.limits.max_processes,
        },
        fs: FsView {
            read: spec.fs.read + views(args.allow_read@),
            write: spec.fs.write + views(args.allow_write@),
        },
        security: SecuritySpec {
            no_new_privs: spec.security.no_new_privs,
            landlock: spec.security.landlock && !args.no_landlock,
            seccomp_profile: match args.seccomp_profile {
                Some(p) => p,
                None => spec.security.seccomp_profile,
            },
            allow_degraded: spec.security.allow_degraded || args.allow_degraded,
        },
        observe: spec.observe,
        versioned_workspace: spec.versioned_workspace,
    }
}

/// A request with a command in the place of its own, where one is given.
pub open spec fn with_command(spec: SandboxView, command: Seq<Seq<char>>) -> SandboxView {
    if command.len() == 0 {
        spec
    } else {
        SandboxView {
            process: ProcessView {
                cmd: Some(command[0]),
                args: command.skip(1),
                cwd: spec.process.cwd,
                env: spec.process.env,
                clear_env: spec.process.clear_env,
            },
            ..spec
        }
    }
}

/// A request with the flags of a run applied.
pub open spec fn with_run(spec: SandboxView, args: RunArgs) -> SandboxView {
    SandboxView {
        observe: ObserveView {
            trace: or_else(text_view(args.trace), spec.observe.trace),
            summary: or_else(text_view(args.summary), spec.observe.summary),
            capture_stdout: spec.observe.capture_stdout,
            capture_stderr: spec.observe.capture_stderr,
            collect_cgroup: spec.observe.collect_cgroup,
            proc_sample_interval_ms: spec.observe.proc_sample_interval_ms,
            trace_syscalls: spec.observe.trace_syscalls || args.trace_syscalls,
            max_trace_output_bytes: or_else(args.max_trace_output_bytes, spec.observe.max_trace_output_bytes),
            rhai_script: or_else(text_view(args.observe_script), spec.observe.rhai_script),
        },
        versioned_workspace: VersionedWorkspaceView {
            workspace: or_else(text_view(args.versioned_workspace), spec.versioned_workspace.workspace),
            rollback_on_failure: spec.versioned_workspace.rollback_on_failure || args.rollback_on_failure,
            commit_on_success: spec.versioned_workspace.commit_on_success || args.commit_on_success,
        },
        ..spec
    }
}

/// Applies the policy flags.
pub fn apply_policy_overrides(spec: &mut SandboxSpec, args: PolicyArgs)
    requires
        old(spec).wf(),
    ensures
        final(spec).wf(),
        final(spec)@ == with_policy(old(spec)@, args),
{
    let ghost start = spec@;
    if let Some(profile) = args.profile {
        spec.profile = profile;
    }
    if let Some(timeout_ms) = args.timeout_ms {
        spec.limits.timeout_ms = Some(timeout_ms);
    }
    if args.allow_degraded {
        spec.security.allow_degraded = true;
    }
    if args.no_landlock {
        spec.security.landlock = false;
    }
    if let Some(seccomp_profile) = args.seccomp_profile {
        spec.security.seccomp_profile = seccomp_profile;
    }
    let ghost read = args.allow_read@;
    let ghost write = args.allow_write@;
    let mut more_read = args.allow_read;
    let mut more_write = args.allow_write;
    let ghost old_read = spec.fs.read@;
    let ghost old_write = spec.fs.write@;
    spec.fs.read.append(&mut more_read);
    spec.fs.write.append(&mut more_write);
    assert(views(spec.fs.read@) =~= views(old_read) + views(read));
    assert(views(spec.fs.write@) =~= views(old_write) + views(write));
}

/// Puts a command in the place of the request's own, where one is given.
fn apply_command(spec: &mut SandboxSpec, command: Vec<String>)
    requires
        old(spec).wf(),
    ensures
        final(spec).wf(),
        final(spec)@ == with_command(old(spec)@, views(command@)),
{
    assert(views(command@).len() == command@.len());
    if command.len() > 0 {
        let ghost list = command@;
        let mut rest = command;
        let cmd = rest.remove(0);
        spec.process.cmd = Some(cmd);
        spec.process.args = rest;
        assert(views(rest@) =~= views(list).skip(1));
    }
}

/// The first that is there.
fn first_of<T>(a: Option<T>, b: Option<T>) -> (r: Option<T>)
    ensures
        r == or_else(a, b),
{
    match a {
        Some(value) => Some(value),
        None => b,
    }
}

/// Applies the flags of a run.
fn apply_run(spec: SandboxSpec, run: RunArgs) -> (whole: SandboxSpec)
    requires
        spec.wf(),
    ensures
        whole.wf(),
        whole@ == with_run(spec@, run),
{
    let observe = ObserveSpec {
        trace: first_of(run.trace, spec.observe.trace),
        summary: first_of(run.summary, spec.observe.summary),
        capture_stdout: spec.observe.capture_stdout,
        capture_stderr: spec.observe.capture_stderr,
        collect_cgroup: spec.observe.collect_cgroup,
        proc_sample_interval_ms: spec.observe.proc_sample_interval_ms,
        trace_syscalls: spec.observe.trace_syscalls || run.trace_syscalls,
        max_trace_output_bytes: first_of(run.max_trace_output_bytes, spec.observe.max_trace_output_bytes),
        rhai_script: first_of(run.observe_script, spec.observe.rhai_script),
    };
    let versioned_workspace = VersionedWorkspaceSpec {
        workspace: first_of(run.versioned_workspace, spec.versioned_workspace.workspace),
        rollback_on_failure: spec.versioned_workspace.rollback_on_failure || run.rollback_on_failure,
        commit_on_success: spec.versioned_workspace.commit_on_success || run.commit_on_success,
    };
    SandboxSpec {
        profile: spec.profile,
        process: spec.process,
        limits: spec.limits,
        fs: spec.fs,
        security: spec.security,
        observe,
        versioned_workspace,
    }
}

/// The request of a run: the base with all the flags applied; it must name a command.
pub fn build_spec(base: SandboxSpec, policy: PolicyArgs, run: RunArgs) -> (result: Result<SandboxSpec, ConfigError>)
    requires
        base.wf(),
    ensures
        ({
            let whole = with_run(with_command(with_policy(base@, policy), views(run.command@)), run);
            match result {
                Ok(spec) => spec.wf() && spec@ == whole && whole.process.cmd is Some,
                Err(e) => whole.process.cmd is None && e@ == ConfigErrorView::MissingCommand,
            }
        }),
{
    let mut spec = base;
    apply_policy_overrides(&mut spec, policy);
    let mut run = run;
    let mut command: Vec<String> = Vec::new();
    std::mem::swap(&mut command, &mut run.command);
    apply_command(&mut spec, command);
    let spec = apply_run(spec, run);
    match spec.command_line() {
        Ok(_) => Ok(spec),
        Err(e) => Err(e),
    }
}

/// The request to explain: the base with the policy flags and the command applied.
pub fn build_explain_spec(base: SandboxSpec, policy: PolicyArgs, command: Vec<String>) -> (spec: SandboxSpec)
    requires
        base.wf(),
    ensures
        spec.wf(),
        spec@ == with_command(with_policy(base@, policy), views(command@)),
{
    let mut spec = base;
    apply_policy_overrides(&mut spec, policy);
    apply_command(&mut spec, command);
    spec
}

} // verus!
