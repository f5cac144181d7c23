//! What is told of processes: how they ended, what they wrote and used.

use crate::json::JsonView;
use crate::laws::journal_reading::{named, named_from};
use crate::report::OutputReport;
use crate::runner::output::{lossy, tail_of, OutputAccumulator, TraceBudget};
use crate::runner::wait::{
    ended, system_cpu_ms, timeval_ms, user_cpu_ms, wait_result, wait_step, CpuUsage, Poll, WaitResult, WaitStep,
};
use vstd::prelude::*;

verus! {

/// A process that exited with a code is told to have exited with that code; one
/// that a signal ended, with or without a dump, to have been ended by that
/// signal; the clock's word and the usage are passed on.
pub proof fn ends_are_told_as_they_were(status: i32, timed_out: bool, usage: CpuUsage, r: WaitResult, code: i32, signal: i32, dumped: bool)
    requires
        call_ensures(wait_result, (status, timed_out, usage), r),
        0 <= code <= 255,
        1 <= signal <= 126,
    ensures
        status == code * 256 ==> r.exit_code == Some(code) && r.signal is None,
        status == (if dumped {
            signal + 128
        } else {
            signal as int
        }) ==> r.signal == Some(signal) && r.exit_code is None,
        r.timed_out == timed_out,
        r.usage == Some(usage),
{
    assert(r == ended(status, timed_out, usage));
    if status == code * 256 {
        assert(0 <= code <= 255 && status == code * 256 ==> (status & 0x7f) == 0 && ((status >> 8) & 0xff) == code) by (bit_vector);
    }
    if dumped && status == signal + 128 {
        assert(1 <= signal <= 126 && status == signal + 128 ==> (status & 0x7f) == signal) by (bit_vector);
    }
    if !dumped && status == signal {
        assert(1 <= signal <= 126 ==> (signal & 0x7f) == signal) by (bit_vector);
    }
}

/// A look at a process: one that ended is done with, a look that failed fails,
/// one whose time is up is killed unless it was before, any other is looked at again.
pub proof fn waiting_goes_on_until_the_end(poll: Poll, timed_out: bool, expired: bool, step: WaitStep)
    requires
        call_ensures(wait_step, (poll, timed_out, expired), step),
    ensures
        poll matches Poll::Ended { status, usage } ==> (step matches WaitStep::Done(r) && r.timed_out == timed_out && r.usage == Some(usage)
            && ((status & 0x7f) == 0 ==> r.exit_code == Some((status >> 8) & 0xff) && r.signal is None)),
        poll is Failed ==> step is Fail,
        poll is Running && expired && !timed_out ==> step is Kill,
        poll is Running && !(expired && !timed_out) ==> step is Again,
{
}

/// Times are told in milliseconds: a thousand for each second, and one for each
/// thousand microseconds; those of the program and those of the system apart.
pub proof fn times_are_told_in_milliseconds(usage: CpuUsage, sec: i64, usec: i64, ms: u64, user: u64, system: u64)
    requires
        call_ensures(timeval_ms, (sec, usec), ms),
        call_ensures(user_cpu_ms, (&usage,), user),
        call_ensures(system_cpu_ms, (&usage,), system),
    ensures
        ms == sec * 1000 + usec / 1000,
        user == usage.user_sec * 1000 + usage.user_usec / 1000,
        system == usage.system_sec * 1000 + usage.system_usec / 1000,
{
}

/// A tail is the end of a text, at most 4096 characters long, and all of a
/// text that is no longer.
pub proof fn a_tail_is_the_end_of_a_text(text: Seq<char>)
    ensures
        tail_of(text, 4096).len() == (if text.len() > 4096 {
            4096
        } else {
            text.len()
        }),
        text == text.take(text.len() - tail_of(text, 4096).len()) + tail_of(text, 4096),
{
    assert(text =~= text.take(text.len() - tail_of(text, 4096).len()) + tail_of(text, 4096));
}

/// Output is taken in by the stream it came from: its bytes are counted, its text
/// goes behind what was kept, of which the last 4096 characters stay, and
/// whether any were lost is remembered. The other stream is not touched.
pub proof fn output_is_kept_by_its_stream(acc: &mut OutputAccumulator, kind: &str, bytes: &[u8], done: ())
    requires
        call_ensures(OutputAccumulator::push, (acc, kind, bytes), done),
        kind@ == "stdout.chunk"@ || kind@ == "stderr.chunk"@,
    ensures
        ({
            let text = lossy(bytes@);
            let size = bytes@.len();
            if kind@ == "stderr.chunk"@ {
                &&& final(acc).stderr_bytes == old(acc).stderr_bytes + size
                &&& final(acc).stderr_tail@ == tail_of(old(acc).stderr_tail@ + text, 4096)
                &&& final(acc).stderr_truncated <==> old(acc).stderr_truncated || old(acc).stderr_tail@.len() + text.len() > 4096
                &&& final(acc).stdout_bytes == old(acc).stdout_bytes
                &&& final(acc).stdout_tail@ == old(acc).stdout_tail@
                &&& final(acc).stdout_truncated == old(acc).stdout_truncated
            } else {
                &&& final(acc).stdout_bytes == old(acc).stdout_bytes + size
                &&& final(acc).stdout_tail@ == tail_of(old(acc).stdout_tail@ + text, 4096)
                &&& final(acc).stdout_truncated <==> old(acc).stdout_truncated || old(acc).stdout_tail@.len() + text.len() > 4096
                &&& final(acc).stderr_bytes == old(acc).stderr_bytes
                &&& final(acc).stderr_tail@ == old(acc).stderr_tail@
                &&& final(acc).stderr_truncated == old(acc).stderr_truncated
            }
        }),
{
}

/// The report of the output tells each stream as it was kept.
pub proof fn output_is_reported_by_its_stream(acc: OutputAccumulator, r: OutputReport)
    requires
        call_ensures(OutputAccumulator::report, (&acc,), r),
    ensures
        r.stdout_bytes == acc.stdout_bytes && r.stderr_bytes == acc.stderr_bytes,
        r.stdout_tail@ == acc.stdout_tail@ && r.stderr_tail@ == acc.stderr_tail@,
        r.stdout_truncated == acc.stdout_truncated && r.stderr_truncated == acc.stderr_truncated,
{
}

/// A piece of output goes into the trace as far as the budget reaches, from its
/// start on: the event tells the true size, the text that was kept, and whether
/// and how many bytes were left out; the budget shrinks by what was kept.
pub proof fn a_budget_bounds_what_is_traced(budget: &mut TraceBudget, bytes: &[u8], data: crate::json::Json)
    requires
        call_ensures(TraceBudget::chunk_data, (budget, bytes), data),
    ensures
        ({
            let size = bytes@.len() as int;
            let kept = match old(budget).remaining {
                Some(left) => if size <= left {
                    size
                } else {
                    left as int
                },
                None => size,
            };
            &&& named(data@, "bytes"@) == Some(JsonView::Number(size))
            &&& named(data@, "text"@) == Some(JsonView::Text(lossy(bytes@.take(kept))))
            &&& named(data@, "truncated"@) == Some(JsonView::Bool(kept < size))
            &&& kept < size ==> named(data@, "omitted_bytes"@) == Some(JsonView::Number(size - kept))
            &&& kept == size ==> named(data@, "omitted_bytes"@) is None
            &&& match old(budget).remaining {
                Some(left) => final(budget).remaining == Some((left - kept) as u64),
                None => final(budget).remaining is None,
            }
        }),
{
    reveal_strlit("bytes");
    reveal_strlit("text");
    reveal_strlit("truncated");
    reveal_strlit("omitted_bytes");
    assert("bytes"@.len() == 5 && "text"@.len() == 4 && "truncated"@.len() == 9 && "omitted_bytes"@.len() == 13);
    reveal_with_fuel(named_from, 5);
}

} // verus!
