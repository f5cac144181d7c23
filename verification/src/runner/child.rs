//! What the child process does before it starts the command.

use crate::config::{LimitsSpec, SeccompProfile, SecuritySpec};
use vstd::prelude::*;

verus! {

/// A resource that can be limited.
#[derive(Debug, Clone, Copy, PartialEq, Eq, Structural)]
pub enum LimitedResource {
    CpuTime,
    AddressSpace,
    OpenFiles,
    FileSize,
    Processes,
}

/// One step of the child.
#[derive(Debug, Clone, Copy, PartialEq, Eq, Structural)]
pub enum ChildStep {
    /// Lead a process group of its own.
    NewProcessGroup,
    /// Limit a resource, both softly and firmly.
    Limit(LimitedResource, u64),
    /// Give up the gaining of privileges.
    NoNewPrivileges,
    /// Enter the filesystem restrictions.
    RestrictFilesystem,
    /// Install the system call filter.
    FilterSystemCalls,
}

/// The step that limits a resource, where a limit is set.
pub open spec fn limit_step(resource: LimitedResource, value: Option<u64>) -> Seq<ChildStep> {
    match value {
        Some(v) => seq![ChildStep::Limit(resource, v)],
        None => Seq::empty(),
    }
}

/// The steps that set the limits.
pub open spec fn limit_steps(l: LimitsSpec) -> Seq<ChildStep> {
    limit_step(LimitedResource::CpuTime, l.cpu_time_secs) + limit_step(
        LimitedResource::AddressSpace,
        l.address_space_bytes,
    ) + limit_step(LimitedResource::OpenFiles, l.open_files) + limit_step(
        LimitedResource::FileSize,
        l.file_size_bytes,
    ) + limit_step(LimitedResource::Processes, l.max_processes)
}

/// The steps of the child, in order: the restrictions that need privileges to
/// be given up come after giving them up, and the filter comes last.
pub open spec fn child_steps_of(l: LimitsSpec, s: SecuritySpec, restrict: bool) -> Seq<ChildStep> {
    seq![ChildStep::NewProcessGroup] + limit_steps(l) + (if s.no_new_privs {
        seq![ChildStep::NoNewPrivileges]
    } else {
        Seq::empty()
    }) + (if restrict {
        seq![ChildStep::RestrictFilesystem]
    } else {
        Seq::empty()
    }) + (if s.seccomp_profile == SeccompProfile::Basic {
        seq![ChildStep::FilterSystemCalls]
    } else {
        Seq::empty()
    })
}

/// Appends the step that limits a resource.
fn push_limit(steps: &mut Vec<ChildStep>, resource: LimitedResource, value: Option<u64>)
    ensures
        final(steps)@ == old(steps)@ + limit_step(resource, value),
{
    if let Some(v) = value {
        steps.push(ChildStep::Limit(resource, v));
    }
    assert(steps@ =~= old(steps)@ + limit_step(resource, value));
}

/// The steps that set the limits.
pub fn apply_rlimits(limits: &LimitsSpec) -> (steps: Vec<ChildStep>)
    ensures
        steps@ == limit_steps(*limits),
{
    let mut steps: Vec<ChildStep> = Vec::new();
    push_limit(&mut steps, LimitedResource::CpuTime, limits.cpu_time_secs);
    push_limit(&mut steps, LimitedResource::AddressSpace, limits.address_space_bytes);
    push_limit(&mut steps, LimitedResource::OpenFiles, limits.open_files);
    push_limit(&mut steps, LimitedResource::FileSize, limits.file_size_bytes);
    push_limit(&mut steps, LimitedResource::Processes, limits.max_processes);
    assert(steps@ =~= limit_steps(*limits));
    steps
}

/// The steps of the child; `restrict` tells whether a ruleset was prepared.
pub fn child_steps(limits: &LimitsSpec, security: &SecuritySpec, restrict: bool) -> (steps: Vec<ChildStep>)
    ensures
        steps@ == child_steps_of(*limits, *security, restrict),
{
    let mut steps: Vec<ChildStep> = Vec::new();
    steps.push(ChildStep::NewProcessGroup);
    let mut limit = apply_rlimits(limits);
    steps.append(&mut limit);
    if security.no_new_privs {
        steps.push(ChildStep::NoNewPrivileges);
    }
    if restrict {
        steps.push(ChildStep::RestrictFilesystem);
    }
    if security.seccomp_profile == SeccompProfile::Basic {
        steps.push(ChildStep::FilterSystemCalls);
    }
    assert(steps@ =~= child_steps_of(*limits, *security, restrict));
    steps
}

} // verus!
