//! What the child process is held to before it starts the command.

use crate::config::{LimitsSpec, SeccompProfile, SecuritySpec};
use crate::laws::lists::{lemma_in_either, lemma_in_one};
use crate::runner::child::{
    apply_rlimits, child_steps, child_steps_of, limit_steps, ChildStep, LimitedResource,
};
use vstd::prelude::*;

verus! {

/// Every resource is limited to what the request says of that resource, and one
/// of which it says nothing is not limited; nothing else is done.
pub proof fn each_resource_is_limited_as_asked(l: LimitsSpec, steps: Vec<ChildStep>, v: u64)
    requires
        call_ensures(apply_rlimits, (&l,), steps),
    ensures
        steps@.contains(ChildStep::Limit(LimitedResource::CpuTime, v)) <==> l.cpu_time_secs == Some(v),
        steps@.contains(ChildStep::Limit(LimitedResource::AddressSpace, v)) <==> l.address_space_bytes == Some(v),
        steps@.contains(ChildStep::Limit(LimitedResource::OpenFiles, v)) <==> l.open_files == Some(v),
        steps@.contains(ChildStep::Limit(LimitedResource::FileSize, v)) <==> l.file_size_bytes == Some(v),
        steps@.contains(ChildStep::Limit(LimitedResource::Processes, v)) <==> l.max_processes == Some(v),
        forall|i: int| 0 <= i < steps@.len() ==> (#[trigger] steps@[i]) is Limit,
{
    assert(steps@ == limit_steps(l));
    lemma_limits_told(l, v);
}

/// The child is limited as asked, gives up the gaining of privileges where that
/// is asked for, enters the filesystem restrictions where a ruleset was prepared,
/// and installs the filter where the profile is the basic one.
pub proof fn the_child_is_held_to_what_was_asked(l: LimitsSpec, s: SecuritySpec, restrict: bool, steps: Vec<ChildStep>, v: u64)
    requires
        call_ensures(child_steps, (&l, &s, restrict), steps),
    ensures
        steps@.contains(ChildStep::Limit(LimitedResource::CpuTime, v)) <==> l.cpu_time_secs == Some(v),
        steps@.contains(ChildStep::Limit(LimitedResource::AddressSpace, v)) <==> l.address_space_bytes == Some(v),
        steps@.contains(ChildStep::Limit(LimitedResource::OpenFiles, v)) <==> l.open_files == Some(v),
        steps@.contains(ChildStep::Limit(LimitedResource::FileSize, v)) <==> l.file_size_bytes == Some(v),
        steps@.contains(ChildStep::Limit(LimitedResource::Processes, v)) <==> l.max_processes == Some(v),
        steps@.contains(ChildStep::NoNewPrivileges) <==> s.no_new_privs,
        steps@.contains(ChildStep::RestrictFilesystem) <==> restrict,
        steps@.contains(ChildStep::FilterSystemCalls) <==> s.seccomp_profile == SeccompProfile::Basic,
        steps@.len() > 0 && steps@[0] == ChildStep::NewProcessGroup,
{
    assert(steps@ == child_steps_of(l, s, restrict));
    lemma_limits_told(l, v);
    lemma_child_step(l, s, restrict, ChildStep::Limit(LimitedResource::CpuTime, v));
    lemma_child_step(l, s, restrict, ChildStep::Limit(LimitedResource::AddressSpace, v));
    lemma_child_step(l, s, restrict, ChildStep::Limit(LimitedResource::OpenFiles, v));
    lemma_child_step(l, s, restrict, ChildStep::Limit(LimitedResource::FileSize, v));
    lemma_child_step(l, s, restrict, ChildStep::Limit(LimitedResource::Processes, v));
    lemma_child_step(l, s, restrict, ChildStep::NoNewPrivileges);
    lemma_child_step(l, s, restrict, ChildStep::RestrictFilesystem);
    lemma_child_step(l, s, restrict, ChildStep::FilterSystemCalls);
}

proof fn lemma_limits_told(l: LimitsSpec, v: u64)
    ensures
        limit_steps(l).contains(ChildStep::Limit(LimitedResource::CpuTime, v)) <==> l.cpu_time_secs == Some(v),
        limit_steps(l).contains(ChildStep::Limit(LimitedResource::AddressSpace, v)) <==> l.address_space_bytes == Some(v),
        limit_steps(l).contains(ChildStep::Limit(LimitedResource::OpenFiles, v)) <==> l.open_files == Some(v),
        limit_steps(l).contains(ChildStep::Limit(LimitedResource::FileSize, v)) <==> l.file_size_bytes == Some(v),
        limit_steps(l).contains(ChildStep::Limit(LimitedResource::Processes, v)) <==> l.max_processes == Some(v),
        forall|i: int| 0 <= i < limit_steps(l).len() ==> (#[trigger] limit_steps(l)[i]) is Limit,
{
    broadcast use vstd::seq_lib::group_seq_properties;

}

proof fn lemma_child_step(l: LimitsSpec, s: SecuritySpec, restrict: bool, x: ChildStep)
    ensures
        child_steps_of(l, s, restrict).contains(x) <==> {
            ||| x == ChildStep::NewProcessGroup
            ||| limit_steps(l).contains(x)
            ||| s.no_new_privs && x == ChildStep::NoNewPrivileges
            ||| restrict && x == ChildStep::RestrictFilesystem
            ||| s.seccomp_profile == SeccompProfile::Basic && x == ChildStep::FilterSystemCalls
        },
{
    let none = Seq::<ChildStep>::empty();
    let a = seq![ChildStep::NewProcessGroup];
    let b = if s.no_new_privs { seq![ChildStep::NoNewPrivileges] } else { none };
    let c = if restrict { seq![ChildStep::RestrictFilesystem] } else { none };
    let d = if s.seccomp_profile == SeccompProfile::Basic { seq![ChildStep::FilterSystemCalls] } else { none };
    assert(child_steps_of(l, s, restrict) == a + limit_steps(l) + b + c + d);
    lemma_in_either(a, limit_steps(l), x);
    lemma_in_either(a + limit_steps(l), b, x);
    lemma_in_either(a + limit_steps(l) + b, c, x);
    lemma_in_either(a + limit_steps(l) + b + c, d, x);
    lemma_in_one(ChildStep::NewProcessGroup, x);
    lemma_in_one(ChildStep::NoNewPrivileges, x);
    lemma_in_one(ChildStep::RestrictFilesystem, x);
    lemma_in_one(ChildStep::FilterSystemCalls, x);
}

/// The order: privileges are given up before the filesystem restrictions are
/// entered and before the filter is installed, and nothing follows the filter.
pub proof fn privileges_are_given_up_first(l: LimitsSpec, s: SecuritySpec, restrict: bool, steps: Vec<ChildStep>, i: int, j: int)
    requires
        call_ensures(child_steps, (&l, &s, restrict), steps),
        0 <= i < steps@.len(),
        0 <= j < steps@.len(),
        steps@[i] == ChildStep::NoNewPrivileges,
        steps@[j] == ChildStep::RestrictFilesystem || steps@[j] == ChildStep::FilterSystemCalls,
    ensures
        i < j,
        steps@[j] == ChildStep::FilterSystemCalls ==> j == steps@.len() - 1,
{
    assert(steps@ == child_steps_of(l, s, restrict));
    let n = 1 + limit_steps(l).len() as int;
    assert forall|k: int| 0 <= k < n implies (#[trigger] steps@[k]) is NewProcessGroup || steps@[k] is Limit by {
        lemma_limits_told(l, 0);
        if k > 0 {
            assert(steps@[k] == limit_steps(l)[k - 1]);
        }
    }
}

} // verus!
