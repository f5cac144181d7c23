//! The system call filter.

use vstd::prelude::*;

verus! {

/// Load a word at an absolute offset.
pub const LOAD_WORD: u16 = 0x20;

/// Jump where the loaded word equals the constant.
pub const JUMP_EQUAL: u16 = 0x15;

/// Return the constant.
pub const RETURN: u16 = 0x06;

/// Let the call pass.
pub const ALLOW: u32 = 0x7fff0000;

/// Stop the process with a signal.
pub const TRAP: u32 = 0x00030000;

/// One instruction of a filter program.
#[derive(Debug, Clone, Copy, PartialEq, Eq, Structural)]
pub struct FilterOp {
    pub code: u16,
    pub jt: u8,
    pub jf: u8,
    pub k: u32,
}

/// What a filter program returns for a system call number, from the
/// instruction at `at` on, with `word` loaded; nothing where it runs off its
/// end or meets an instruction that filters do not use. The number of the call
/// is the word at offset zero.
pub open spec fn run_filter(program: Seq<FilterOp>, number: u32, word: u32, at: int) -> Option<u32>
    decreases
            if at < program.len() {
                program.len() - at
            } else {
                0
            },
{
    if at < 0 || at >= program.len() {
        None
    } else {
        let op = program[at];
        if op.code == LOAD_WORD && op.k == 0 {
            run_filter(program, number, number, at + 1)
        } else if op.code == JUMP_EQUAL {
            if word == op.k {
                run_filter(program, number, word, at + 1 + op.jt)
            } else {
                run_filter(program, number, word, at + 1 + op.jf)
            }
        } else if op.code == RETURN {
            Some(op.k)
        } else {
            None
        }
    }
}

/// The instruction at `i` of the filter that stops the calls with these numbers.
pub open spec fn filter_op(blocked: Seq<i64>, i: int) -> FilterOp {
    if i == 0 {
        FilterOp { code: LOAD_WORD, jt: 0, jf: 0, k: 0 }
    } else if i == 2 * blocked.len() + 1 {
        FilterOp { code: RETURN, jt: 0, jf: 0, k: ALLOW }
    } else if i % 2 == 1 {
        FilterOp { code: JUMP_EQUAL, jt: 0, jf: 1, k: blocked[(i - 1) / 2] as u32 }
    } else {
        FilterOp { code: RETURN, jt: 0, jf: 0, k: TRAP }
    }
}

/// The filter that stops the calls with these numbers.
pub open spec fn filter_of(blocked: Seq<i64>) -> Seq<FilterOp> {
    Seq::new(2 * blocked.len() + 2, |i: int| filter_op(blocked, i))
}

/// The filter that stops the calls with these numbers.
pub fn filter_program(blocked: &[i64]) -> (program: Vec<FilterOp>)
    ensures
        program@ == filter_of(blocked@),
{
    let mut program: Vec<FilterOp> = Vec::new();
    program.push(FilterOp { code: LOAD_WORD, jt: 0, jf: 0, k: 0 });
    for i in 0..blocked.len()
        invariant
            program@.len() == 2 * i + 1,
            forall|k: int| 0 <= k < 2 * i + 1 ==> #[trigger] program@[k] == filter_op(blocked@, k),
    {
        let number: i64 = blocked[i];
        program.push(FilterOp { code: JUMP_EQUAL, jt: 0, jf: 1, k: number as u32 });
        program.push(FilterOp { code: RETURN, jt: 0, jf: 0, k: TRAP });
        assert((2 * i + 1) % 2 == 1 && (2 * i + 1 - 1) / 2 == i);
        assert((2 * i + 2) % 2 == 0);
        assert(program@[2 * i + 1] == filter_op(blocked@, 2 * i + 1));
        assert(program@[2 * i + 2] == filter_op(blocked@, 2 * i + 2));
    }
    program.push(FilterOp { code: RETURN, jt: 0, jf: 0, k: ALLOW });
    assert(program@ =~= filter_of(blocked@));
    program
}

/// The number is one of those from `i` on.
pub open spec fn is_blocked(blocked: Seq<i64>, number: u32, i: int) -> bool {
    exists|k: int| i <= k < blocked.len() && #[trigger] blocked[k] as u32 == number
}

/// From the test of the number at `i` on.
proof fn lemma_run_from(blocked: Seq<i64>, number: u32, i: int)
    requires
        0 <= i <= blocked.len(),
    ensures
        run_filter(filter_of(blocked), number, number, 2 * i + 1) == Some(
            if is_blocked(blocked, number, i) {
                TRAP
            } else {
                ALLOW
            },
        ),
    decreases blocked.len() - i,
{
    let program = filter_of(blocked);
    let at = 2 * i + 1;
    assert(program[at] == filter_op(blocked, at));
    if i == blocked.len() {
        assert(!is_blocked(blocked, number, i));
    } else {
        assert(at % 2 == 1 && (at - 1) / 2 == i);
        assert(program[at + 1] == filter_op(blocked, at + 1));
        assert((at + 1) % 2 == 0);
        if blocked[i] as u32 == number {
            assert(is_blocked(blocked, number, i));
            assert(run_filter(program, number, number, at + 1) == Some(TRAP));
        } else {
            lemma_run_from(blocked, number, i + 1);
            if is_blocked(blocked, number, i) {
                let k = choose|k: int| i <= k < blocked.len() && #[trigger] blocked[k] as u32 == number;
                assert(is_blocked(blocked, number, i + 1));
            }
            if is_blocked(blocked, number, i + 1) {
                let k = choose|k: int| i + 1 <= k < blocked.len() && #[trigger] blocked[k] as u32 == number;
                assert(blocked[k] as u32 == number);
            }
        }
    }
}

/// The filter stops exactly the calls whose numbers are listed, and lets every other call pass.
pub proof fn the_filter_stops_exactly_the_listed_calls(blocked: Seq<i64>, number: u32, word: u32)
    ensures
        run_filter(filter_of(blocked), number, word, 0) == Some(
            if is_blocked(blocked, number, 0) {
                TRAP
            } else {
                ALLOW
            },
        ),
{
    let program = filter_of(blocked);
    assert(program[0] == filter_op(blocked, 0));
    lemma_run_from(blocked, number, 0);
}

/// The names of the calls that the basic profile stops.
pub open spec fn blocked_names() -> Seq<Seq<char>> {
    seq![
        "ptrace"@,
        "kexec_load"@,
        "bpf"@,
        "perf_event_open"@,
        "mount"@,
        "umount2"@,
        "reboot"@,
        "init_module"@,
        "finit_module"@,
        "delete_module"@,
    ]
}

/// The names of the calls that the basic profile stops.
pub fn blocked_syscall_names() -> (names: Vec<String>)
    ensures
        crate::text::views(names@) == blocked_names(),
{
    let mut names: Vec<String> = Vec::new();
    names.push("ptrace".to_string());
    names.push("kexec_load".to_string());
    names.push("bpf".to_string());
    names.push("perf_event_open".to_string());
    names.push("mount".to_string());
    names.push("umount2".to_string());
    names.push("reboot".to_string());
    names.push("init_module".to_string());
    names.push("finit_module".to_string());
    names.push("delete_module".to_string());
    assert(crate::text::views(names@) =~= blocked_names());
    names
}

/// The bit that sets the call numbers of the x32 interface apart.
pub const X32_BIT: i64 = 0x40000000;

/// The number is that of the named call on one of the machines that Linux runs on.
pub open spec fn number_of(name: Seq<char>, number: i64) -> bool {
    if name == "ptrace"@ {
        number == 26 || number == 101 || number == 117 || number == 4026 || number == 5099 || number == X32_BIT + 521
    } else if name == "kexec_load"@ {
        number == 104 || number == 246 || number == 268 || number == 277 || number == 283 || number == 306 || number == 313 || number == 347 || number == 4311 || number == 5270 || number == X32_BIT + 528
    } else if name == "bpf"@ {
        number == 280 || number == 321 || number == 349 || number == 351 || number == 354 || number == 357 || number == 361 || number == 386 || number == 4355 || number == 5315 || number == X32_BIT + 321
    } else if name == "perf_event_open"@ {
        number == 241 || number == 298 || number == 319 || number == 327 || number == 331 || number == 332 || number == 336 || number == 364 || number == 4333 || number == 5292 || number == X32_BIT + 298
    } else if name == "mount"@ {
        number == 21 || number == 40 || number == 165 || number == 167 || number == 4021 || number == 5160 || number == X32_BIT + 165
    } else if name == "umount2"@ {
        number == 39 || number == 45 || number == 52 || number == 166 || number == 4052 || number == 5161 || number == X32_BIT + 166
    } else if name == "reboot"@ {
        number == 55 || number == 88 || number == 142 || number == 169 || number == 4088 || number == 5164 || number == X32_BIT + 169
    } else if name == "init_module"@ {
        number == 105 || number == 128 || number == 175 || number == 190 || number == 4128 || number == 5168 || number == X32_BIT + 175
    } else if name == "finit_module"@ {
        number == 273 || number == 313 || number == 342 || number == 344 || number == 348 || number == 350 || number == 353 || number == 379 || number == 4348 || number == 5307 || number == X32_BIT + 313
    } else if name == "delete_module"@ {
        number == 106 || number == 129 || number == 176 || number == 222 || number == 4129 || number == 5169 || number == X32_BIT + 176
    } else {
        false
    }
}

/// The constant `libc::SYS_ptrace`: one of the values that it has on the Linux targets.
#[verifier::external_body]
fn ptrace_number() -> (number: i64)
    ensures
        number_of("ptrace"@, number),
{
    libc::SYS_ptrace as i64
}

/// The constant `libc::SYS_kexec_load`: one of the values that it has on the Linux targets.
#[verifier::external_body]
fn kexec_load_number() -> (number: i64)
    ensures
        number_of("kexec_load"@, number),
{
    libc::SYS_kexec_load as i64
}

/// The constant `libc::SYS_bpf`: one of the values that it has on the Linux targets.
#[verifier::external_body]
fn bpf_number() -> (number: i64)
    ensures
        number_of("bpf"@, number),
{
    libc::SYS_bpf as i64
}

/// The constant `libc::SYS_perf_event_open`: one of the values that it has on the Linux targets.
#[verifier::external_body]
fn perf_event_open_number() -> (number: i64)
    ensures
        number_of("perf_event_open"@, number),
{
    libc::SYS_perf_event_open as i64
}

/// The constant `libc::SYS_mount`: one of the values that it has on the Linux targets.
#[verifier::external_body]
fn mount_number() -> (number: i64)
    ensures
        number_of("mount"@, number),
{
    libc::SYS_mount as i64
}

/// The constant `libc::SYS_umount2`: one of the values that it has on the Linux targets.
#[verifier::external_body]
fn umount2_number() -> (number: i64)
    ensures
        number_of("umount2"@, number),
{
    libc::SYS_umount2 as i64
}

/// The constant `libc::SYS_reboot`: one of the values that it has on the Linux targets.
#[verifier::external_body]
fn reboot_number() -> (number: i64)
    ensures
        number_of("reboot"@, number),
{
    libc::SYS_reboot as i64
}

/// The constant `libc::SYS_init_module`: one of the values that it has on the Linux targets.
#[verifier::external_body]
fn init_module_number() -> (number: i64)
    ensures
        number_of("init_module"@, number),
{
    libc::SYS_init_module as i64
}

/// The constant `libc::SYS_finit_module`: one of the values that it has on the Linux targets.
#[verifier::external_body]
fn finit_module_number() -> (number: i64)
    ensures
        number_of("finit_module"@, number),
{
    libc::SYS_finit_module as i64
}

/// The constant `libc::SYS_delete_module`: one of the values that it has on the Linux targets.
#[verifier::external_body]
fn delete_module_number() -> (number: i64)
    ensures
        number_of("delete_module"@, number),
{
    libc::SYS_delete_module as i64
}

/// No name stands twice in the list, so that each call is known by numbers of its own.
pub proof fn blocked_names_differ()
    ensures
        blocked_names().no_duplicates(),
{
    reveal_strlit("ptrace");
    reveal_strlit("kexec_load");
    reveal_strlit("bpf");
    reveal_strlit("perf_event_open");
    reveal_strlit("mount");
    reveal_strlit("umount2");
    reveal_strlit("reboot");
    reveal_strlit("init_module");
    reveal_strlit("finit_module");
    reveal_strlit("delete_module");
    let names = blocked_names();
    assert forall|i: int, j: int| 0 <= i < names.len() && 0 <= j < names.len() && i != j implies names[i] != names[j] by {
        assert(names[i].len() != names[j].len() || names[i][0] != names[j][0] || names[i][1] != names[j][1]);
    }
}

/// The numbers are those of the named calls, one for each, in this order.
pub open spec fn numbers_of(names: Seq<Seq<char>>, numbers: Seq<i64>) -> bool {
    &&& numbers.len() == names.len()
    &&& forall|i: int| 0 <= i < names.len() ==> number_of(#[trigger] names[i], numbers[i])
}

/// The numbers on this machine of the calls that the basic profile stops.
pub fn blocked_syscall_numbers() -> (numbers: Vec<i64>)
    ensures
        numbers_of(blocked_names(), numbers@),
{
    let mut numbers: Vec<i64> = Vec::new();
    numbers.push(ptrace_number());
    numbers.push(kexec_load_number());
    numbers.push(bpf_number());
    numbers.push(perf_event_open_number());
    numbers.push(mount_number());
    numbers.push(umount2_number());
    numbers.push(reboot_number());
    numbers.push(init_module_number());
    numbers.push(finit_module_number());
    numbers.push(delete_module_number());
    numbers
}

/// The filter of the basic profile on this machine: that of the blocked calls' numbers.
pub fn basic_filter() -> (program: Vec<FilterOp>)
    ensures
        exists|numbers: Seq<i64>| program@ == #[trigger] filter_of(numbers) && numbers_of(blocked_names(), numbers),
{
    let numbers = blocked_syscall_numbers();
    filter_program(numbers.as_slice())
}

/// The filter of the basic profile stops a call exactly where its number is that
/// of one of the blocked calls, and lets every other call pass.
pub proof fn the_basic_filter_stops_exactly_the_blocked_calls(numbers: Seq<i64>, number: u32, word: u32)
    requires
        numbers_of(blocked_names(), numbers),
    ensures
        run_filter(filter_of(numbers), number, word, 0) == Some(
            if exists|i: int| 0 <= i < blocked_names().len() && number_of(#[trigger] blocked_names()[i], numbers[i]) && numbers[i] as u32 == number {
                TRAP
            } else {
                ALLOW
            },
        ),
{
    the_filter_stops_exactly_the_listed_calls(numbers, number, word);
    if is_blocked(numbers, number, 0) {
        let k = choose|k: int| 0 <= k < numbers.len() && #[trigger] numbers[k] as u32 == number;
        assert(number_of(blocked_names()[k], numbers[k]));
    }
    if exists|i: int| 0 <= i < blocked_names().len() && number_of(#[trigger] blocked_names()[i], numbers[i]) && numbers[i] as u32 == number {
        let i = choose|i: int| 0 <= i < blocked_names().len() && number_of(#[trigger] blocked_names()[i], numbers[i]) && numbers[i] as u32 == number;
        assert(numbers[i] as u32 == number);
    }
}

} // verus!
