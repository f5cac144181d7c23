//! What the filesystem restrictions and the system call filter come to.

use crate::config::FsSpec;
use crate::runner::landlock::{
    landlock_plan, rule_views, rules_of, write_access_mask, LandlockPlan, PreparedSandbox,
};
use crate::runner::seccomp::{
    basic_filter, blocked_names, blocked_syscall_names, filter_of, filter_op, number_of, numbers_of, run_filter,
    the_filter_stops_exactly_the_listed_calls, FilterOp,
};
use crate::text::views;
use vstd::prelude::*;

verus! {

/// The kinds of access that change something, as the kernel numbers them: writing
/// and removing files, removing directories and making anything; moving between
/// directories from the second version on, cutting files from the third.
pub open spec fn changing(abi: i32) -> u64 {
    if abi >= 3 {
        0x7ff2
    } else if abi == 2 {
        0x3ff2
    } else {
        0x1ff2
    }
}

/// The changing kinds of access in each version of the interface.
pub proof fn changing_access_grows_with_the_interface(abi: i32, mask: u64)
    requires
        call_ensures(write_access_mask, (abi,), mask),
    ensures
        mask == changing(abi),
{
    lemma_masks();
}

proof fn lemma_masks()
    ensures
        0x2u64 | 0x10 | 0x20 | 0x40 | 0x80 | 0x100 | 0x200 | 0x400 | 0x800 | 0x1000 == 0x1ff2,
        0x1ff2u64 | 0x2000 == 0x3ff2,
        0x1ff2u64 | 0x2000 | 0x4000 == 0x7ff2,
        0x4u64 | 0x8 | 0x1 == 0xd,
{
    assert(0x2u64 | 0x10 | 0x20 | 0x40 | 0x80 | 0x100 | 0x200 | 0x400 | 0x800 | 0x1000 == 0x1ff2) by (bit_vector);
    assert(0x1ff2u64 | 0x2000 == 0x3ff2) by (bit_vector);
    assert(0x1ff2u64 | 0x2000 | 0x4000 == 0x7ff2) by (bit_vector);
    assert(0x4u64 | 0x8 | 0x1 == 0xd) by (bit_vector);
}

proof fn lemma_combined()
    ensures
        0x1ff2u64 | 0xd == 0x1fff,
        0x3ff2u64 | 0xd == 0x3fff,
        0x7ff2u64 | 0xd == 0x7fff,
        0xdu64 & 0x1fff == 0xd && 0xdu64 & 0x3fff == 0xd && 0xdu64 & 0x7fff == 0xd,
        0x1ff2u64 & 0x1fff == 0x1ff2 && 0x3ff2u64 & 0x3fff == 0x3ff2 && 0x7ff2u64 & 0x7fff == 0x7ff2,
        0x1ff2u64 & 0x1ff2 == 0x1ff2 && 0x3ff2u64 & 0x3ff2 == 0x3ff2 && 0x7ff2u64 & 0x7ff2 == 0x7ff2,
        0xdu64 & 0x1ff2 == 0 && 0xdu64 & 0x3ff2 == 0 && 0xdu64 & 0x7ff2 == 0,
{
    assert(0x1ff2u64 | 0xd == 0x1fff && 0x3ff2u64 | 0xd == 0x3fff && 0x7ff2u64 | 0xd == 0x7fff) by (bit_vector);
    assert(0xdu64 & 0x1fff == 0xd && 0xdu64 & 0x3fff == 0xd && 0xdu64 & 0x7fff == 0xd) by (bit_vector);
    assert(0x1ff2u64 & 0x1fff == 0x1ff2 && 0x3ff2u64 & 0x3fff == 0x3ff2 && 0x7ff2u64 & 0x7fff == 0x7ff2) by (bit_vector);
    assert(0x1ff2u64 & 0x1ff2 == 0x1ff2 && 0x3ff2u64 & 0x3ff2 == 0x3ff2 && 0x7ff2u64 & 0x7ff2 == 0x7ff2) by (bit_vector);
    assert(0xdu64 & 0x1ff2 == 0 && 0xdu64 & 0x3ff2 == 0 && 0xdu64 & 0x7ff2 == 0) by (bit_vector);
}

/// Changing anything is always restricted, reading and executing only where
/// paths to read are named. A path to read then allows exactly those; a path to
/// write allows every change, and reading where that is restricted. There is one
/// rule for each named path, and no other.
pub proof fn paths_are_allowed_what_is_named(abi: i32, fs: FsSpec, plan: Result<LandlockPlan, String>)
    requires
        call_ensures(landlock_plan, (abi, &fs), plan),
    ensures
        plan matches Ok(p) && {
            let reading = fs.read@.len() > 0;
            let all = if reading {
                (changing(abi) + 0xd) as u64
            } else {
                changing(abi)
            };
            &&& p.handled == all
            &&& p.rules@.len() == fs.read@.len() + fs.write@.len()
            &&& forall|i: int|
                0 <= i < fs.read@.len() ==> (#[trigger] p.rules@[i]).path@ == fs.read@[i]@ && p.rules@[i].access == 0xd
            &&& forall|i: int|
                0 <= i < fs.write@.len() ==> (#[trigger] p.rules@[fs.read@.len() + i]).path@ == fs.write@[i]@
                    && p.rules@[fs.read@.len() + i].access == all
        },
{
    lemma_masks();
    lemma_combined();
    let n = fs.read@.len() as int;
    assert(views(fs.read@).len() == n && views(fs.write@).len() == fs.write@.len());
    let list = rules_of(abi, fs@);
    if let Ok(p) = plan {
        assert(rule_views(p.rules@).len() == p.rules@.len());
        assert forall|i: int| 0 <= i < n implies (#[trigger] p.rules@[i]).path@ == fs.read@[i]@ && p.rules@[i].access == 0xd by {
            assert(rule_views(p.rules@)[i] == list[i]);
            assert(list[i].0 == views(fs.read@)[i]);
        }
        assert forall|i: int| 0 <= i < fs.write@.len() implies (#[trigger] p.rules@[n + i]).path@ == fs.write@[i]@ && p.rules@[n + i].access
            == p.handled by {
            assert(rule_views(p.rules@)[n + i] == list[n + i]);
            assert(list[n + i].0 == views(fs.write@)[i]);
        }
    }
}

/// A try at the restrictions that failed ends the run, unless it is allowed to
/// go on without; then the run says what it goes without.
pub proof fn restrictions_are_not_given_up_silently(
    attempt: Option<Result<i32, String>>,
    allow_degraded: bool,
    prepared: Result<PreparedSandbox, String>,
)
    requires
        call_ensures(PreparedSandbox::prepare, (attempt, allow_degraded), prepared),
    ensures
        attempt is None ==> (prepared matches Ok(p) && p.landlock_ruleset_fd is None && p.degraded@.len() == 0),
        attempt matches Some(Ok(fd)) ==> (prepared matches Ok(p) && p.landlock_ruleset_fd == Some(fd) && p.degraded@.len() == 0),
        attempt matches Some(Err(e)) ==> allow_degraded ==> (prepared matches Ok(p) && p.landlock_ruleset_fd is None && p.degraded@.len()
            == 1 && p.degraded@[0]@ == "landlock disabled: "@ + e@),
        attempt matches Some(Err(e)) ==> !allow_degraded ==> (prepared matches Err(error) && error@ == e@),
{
    if let Some(Err(e)) = attempt {
        if allow_degraded {
            let p = prepared->Ok_0;
            assert(views(p.degraded@).len() == p.degraded@.len());
            assert(views(p.degraded@)[0] == p.degraded@[0]@);
        }
    }
}

/// The calls that the basic profile blocks, by name.
pub proof fn ten_calls_are_blocked(names: Vec<String>)
    requires
        call_ensures(blocked_syscall_names, (), names),
    ensures
        names@.len() == 10,
        names@[0]@ == "ptrace"@ && names@[1]@ == "kexec_load"@ && names@[2]@ == "bpf"@ && names@[3]@ == "perf_event_open"@,
        names@[4]@ == "mount"@ && names@[5]@ == "umount2"@ && names@[6]@ == "reboot"@,
        names@[7]@ == "init_module"@ && names@[8]@ == "finit_module"@ && names@[9]@ == "delete_module"@,
{
    let list = views(names@);
    assert(list.len() == names@.len());
    assert forall|i: int| 0 <= i < 10 implies (#[trigger] names@[i])@ == blocked_names()[i] by {
        assert(list[i] == names@[i]@);
    }
}

/// The filter of the basic profile, instruction by instruction as the kernel
/// takes them: the number of the call is loaded, compared with that of each
/// blocked call, and a match traps; what matches none is allowed.
pub proof fn the_basic_filter_blocks_ten_calls(program: Vec<FilterOp>)
    requires
        call_ensures(basic_filter, (), program),
    ensures
        exists|n: Seq<i64>| #[trigger]
            n.len() == 10 && {
                &&& number_of("ptrace"@, n[0]) && number_of("kexec_load"@, n[1]) && number_of("bpf"@, n[2])
                &&& number_of("perf_event_open"@, n[3]) && number_of("mount"@, n[4]) && number_of("umount2"@, n[5])
                &&& number_of("reboot"@, n[6]) && number_of("init_module"@, n[7]) && number_of("finit_module"@, n[8])
                &&& number_of("delete_module"@, n[9])
                &&& program@.len() == 22
                &&& program@[0] == (FilterOp { code: 0x20, jt: 0, jf: 0, k: 0 })
                &&& program@[21] == (FilterOp { code: 0x06, jt: 0, jf: 0, k: 0x7fff0000 })
                &&& forall|i: int|
                    0 <= i < 10 ==> (#[trigger] program@[2 * i + 1]) == (FilterOp { code: 0x15, jt: 0, jf: 1, k: n[i] as u32 })
                &&& forall|i: int| 0 <= i < 10 ==> (#[trigger] program@[2 * i + 2]) == (FilterOp { code: 0x06, jt: 0, jf: 0, k: 0x00030000 })
                &&& forall|number: u32, word: u32|
                    #[trigger] run_filter(program@, number, word, 0) == Some(
                        if exists|i: int| 0 <= i < 10 && #[trigger] n[i] as u32 == number {
                            0x00030000u32
                        } else {
                            0x7fff0000u32
                        },
                    )
            },
{
    let n = choose|numbers: Seq<i64>| program@ == #[trigger] filter_of(numbers) && numbers_of(blocked_names(), numbers);
    let names = blocked_names();
    assert(number_of(names[0], n[0]) && number_of(names[1], n[1]) && number_of(names[2], n[2]) && number_of(names[3], n[3]));
    assert(number_of(names[4], n[4]) && number_of(names[5], n[5]) && number_of(names[6], n[6]) && number_of(names[7], n[7]));
    assert(number_of(names[8], n[8]) && number_of(names[9], n[9]));
    assert forall|i: int| 0 <= i < 10 implies (#[trigger] program@[2 * i + 1]) == (FilterOp { code: 0x15, jt: 0, jf: 1, k: n[i] as u32 }) by {
        assert(program@[2 * i + 1] == filter_op(n, 2 * i + 1));
        assert((2 * i + 1) % 2 == 1 && (2 * i + 1 - 1) / 2 == i);
    }
    assert forall|i: int| 0 <= i < 10 implies (#[trigger] program@[2 * i + 2]) == (FilterOp { code: 0x06, jt: 0, jf: 0, k: 0x00030000 }) by {
        assert(program@[2 * i + 2] == filter_op(n, 2 * i + 2));
        assert((2 * i + 2) % 2 == 0);
    }
    assert(program@[21] == filter_op(n, 21));
    assert forall|number: u32, word: u32|
        #[trigger] run_filter(program@, number, word, 0) == Some(
            if exists|i: int| 0 <= i < 10 && #[trigger] n[i] as u32 == number {
                0x00030000u32
            } else {
                0x7fff0000u32
            },
        ) by {
        the_filter_stops_exactly_the_listed_calls(n, number, word);
    }
    assert(n.len() == 10);
}

} // verus!
