//! Waiting for a process: how it ended, and when it is killed.

use vstd::prelude::*;

verus! {

/// The process ended by itself.
pub open spec fn exited(status: i32) -> bool {
    (status & 0x7f) == 0
}

/// The process was ended by a signal.
pub open spec fn signaled(status: i32) -> bool {
    1 <= (status & 0x7f) <= 126
}

/// `WIFEXITED`: the low seven bits of a wait status are zero.
pub assume_specification[ libc::WIFEXITED ](status: libc::c_int) -> (r: bool)
    ensures
        r == exited(status),
;

/// `WEXITSTATUS`: the second byte of a wait status.
pub assume_specification[ libc::WEXITSTATUS ](status: libc::c_int) -> (r: libc::c_int)
    ensures
        r == (status >> 8) & 0xff,
;

/// `WIFSIGNALED`: the low seven bits of a wait status are neither all zero nor all one.
pub assume_specification[ libc::WIFSIGNALED ](status: libc::c_int) -> (r: bool)
    ensures
        r == signaled(status),
;

/// `WTERMSIG`: the low seven bits of a wait status.
pub assume_specification[ libc::WTERMSIG ](status: libc::c_int) -> (r: libc::c_int)
    ensures
        r == status & 0x7f,
;

/// The processor time and memory of a process that ended.
#[derive(Debug, Clone, Copy, PartialEq, Eq, Structural)]
pub struct CpuUsage {
    pub user_sec: i64,
    pub user_usec: i64,
    pub system_sec: i64,
    pub system_usec: i64,
    pub max_rss_kb: i64,
}

/// How a process ended.
#[derive(Debug, Clone, Copy, PartialEq, Eq)]
pub struct WaitResult {
    pub exit_code: Option<i32>,
    pub signal: Option<i32>,
    pub timed_out: bool,
    pub usage: Option<CpuUsage>,
}

/// How a process ended, by its wait status.
pub open spec fn ended(status: i32, timed_out: bool, usage: CpuUsage) -> WaitResult {
    WaitResult {
        exit_code: if exited(status) {
            Some((status >> 8) & 0xff)
        } else {
            None
        },
        signal: if signaled(status) {
            Some(status & 0x7f)
        } else {
            None
        },
        timed_out,
        usage: Some(usage),
    }
}

/// How a process ended, by its wait status.
pub fn wait_result(status: i32, timed_out: bool, usage: CpuUsage) -> (r: WaitResult)
    ensures
        r == ended(status, timed_out, usage),
{
    let exit_code = if libc::WIFEXITED(status) {
        Some(libc::WEXITSTATUS(status))
    } else {
        None
    };
    let signal = if libc::WIFSIGNALED(status) {
        Some(libc::WTERMSIG(status))
    } else {
        None
    };
    WaitResult { exit_code, signal, timed_out, usage: Some(usage) }
}

/// A status is not both an exit and a signal, and an exit code is a byte.
pub proof fn a_process_ends_in_one_way(status: i32, timed_out: bool, usage: CpuUsage)
    ensures
        !(ended(status, timed_out, usage).exit_code is Some && ended(status, timed_out, usage).signal is Some),
        ended(status, timed_out, usage).exit_code matches Some(code) ==> 0 <= code <= 255,
        ended(status, timed_out, usage).signal matches Some(signal) ==> 1 <= signal <= 126,
{
    assert(0 <= ((status >> 8) & 0xff) <= 255) by (bit_vector);
}

/// What a look at the process shows.
#[derive(Debug, Clone, Copy, PartialEq, Eq, Structural)]
pub enum Poll {
    /// It ended with this status.
    Ended { status: i32, usage: CpuUsage },
    /// The look failed.
    Failed,
    /// It is still running.
    Running,
}

/// What to do after a look at the process.
#[derive(Debug, Clone, Copy, PartialEq, Eq)]
pub enum WaitStep {
    /// The wait is over.
    Done(WaitResult),
    /// The wait has failed.
    Fail,
    /// The time is up: report it, kill the process and all below it, and look again.
    Kill,
    /// Look again later.
    Again,
}

/// What to do after a look at the process. `timed_out` tells whether it was
/// killed for its time before, `expired` whether a deadline is set and has passed.
pub open spec fn wait_decision(poll: Poll, timed_out: bool, expired: bool) -> WaitStep {
    match poll {
        Poll::Ended { status, usage } => WaitStep::Done(ended(status, timed_out, usage)),
        Poll::Failed => WaitStep::Fail,
        Poll::Running => if expired && !timed_out {
            WaitStep::Kill
        } else {
            WaitStep::Again
        },
    }
}

/// What to do after a look at the process.
pub fn wait_step(poll: Poll, timed_out: bool, expired: bool) -> (step: WaitStep)
    ensures
        step == wait_decision(poll, timed_out, expired),
{
    match poll {
        Poll::Ended { status, usage } => WaitStep::Done(wait_result(status, timed_out, usage)),
        Poll::Failed => WaitStep::Fail,
        Poll::Running => if expired && !timed_out {
            WaitStep::Kill
        } else {
            WaitStep::Again
        },
    }
}

/// A process whose time is up is killed once: having been killed, it is waited
/// for, and its result says that it timed out.
pub proof fn a_process_is_killed_once(poll: Poll, expired: bool)
    ensures
        wait_decision(poll, true, expired) != WaitStep::Kill,
        wait_decision(poll, true, expired) matches WaitStep::Done(r) ==> r.timed_out,
        wait_decision(poll, false, false) != WaitStep::Kill,
        wait_decision(Poll::Running, false, true) == WaitStep::Kill,
{
}

/// The milliseconds in seconds and microseconds.
pub open spec fn millis(sec: int, usec: int) -> int {
    sec * 1000 + usec / 1000
}

/// The milliseconds in seconds and microseconds.
pub fn timeval_ms(sec: i64, usec: i64) -> (ms: u64)
    requires
        0 <= sec,
        0 <= usec,
        millis(sec as int, usec as int) <= u64::MAX,
    ensures
        ms == millis(sec as int, usec as int),
{
    (sec as u64) * 1000 + (usec as u64) / 1000
}

/// The user time in milliseconds.
pub fn user_cpu_ms(usage: &CpuUsage) -> (ms: u64)
    requires
        0 <= usage.user_sec,
        0 <= usage.user_usec,
        millis(usage.user_sec as int, usage.user_usec as int) <= u64::MAX,
    ensures
        ms == millis(usage.user_sec as int, usage.user_usec as int),
{
    timeval_ms(usage.user_sec, usage.user_usec)
}

/// The system time in milliseconds.
pub fn system_cpu_ms(usage: &CpuUsage) -> (ms: u64)
    requires
        0 <= usage.system_sec,
        0 <= usage.system_usec,
        millis(usage.system_sec as int, usage.system_usec as int) <= u64::MAX,
    ensures
        ms == millis(usage.system_sec as int, usage.system_usec as int),
{
    timeval_ms(usage.system_sec, usage.system_usec)
}

} // verus!
