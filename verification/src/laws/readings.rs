//! What is read of texts that do not tell what is looked for, and line by line of those that do.

use crate::laws::numbers::{a_number_is_read_as_its_digits_tell, all_digits, told};
use crate::laws::telemetry::{labelled, lemma_after};
use crate::laws::texts::lacks;
use crate::number::parse_unsigned;
use crate::runner::cgroup::{
    cgroup_from, counts_in, discover_cgroup_path, next_position, read_key_value_u64, read_single_u64,
    without_leading_slashes,
};
use crate::runner::procfs::{io_bytes, last_position, read_io_bytes, read_ppid, read_status_rss_kb};
use crate::runner::wait::{wait_result, wait_step, CpuUsage, Poll, WaitResult, WaitStep};
use crate::string_map::StringMap;
use crate::text::{lines, trim, words};
use crate::versioned_fs::entry::text_view;
use vstd::prelude::*;

verus! {

/// The number that a text tells: digits, perhaps behind a plus sign, up to a greatest number.
pub open spec fn number_told(s: Seq<char>, max: int) -> Option<int> {
    let digits = if s.len() > 0 && s[0] == '+' {
        s.drop_first()
    } else {
        s
    };
    if digits.len() > 0 && all_digits(digits) && told(digits) <= max {
        Some(told(digits))
    } else {
        None
    }
}

proof fn lemma_told(s: Seq<char>, max: nat)
    ensures
        match number_told(s, max as int) {
            Some(n) => parse_unsigned(s, max) == Some(n as nat) && 0 <= n <= max,
            None => parse_unsigned(s, max) is None,
        },
{
    a_number_is_read_as_its_digits_tell(s, max);
    let digits = if s.len() > 0 && s[0] == '+' {
        s.drop_first()
    } else {
        s
    };
    if all_digits(digits) {
        lemma_not_negative(digits);
    }
}

proof fn lemma_not_negative(s: Seq<char>)
    requires
        all_digits(s),
    ensures
        told(s) >= 0,
    decreases s.len(),
{
    if s.len() > 0 {
        assert(48 <= s[s.len() - 1] as int);
        assert forall|i: int| 0 <= i < s.drop_last().len() implies 48 <= #[trigger] s.drop_last()[i] as int <= 57 by {
            assert(48 <= s[i] as int <= 57);
        }
        lemma_not_negative(s.drop_last());
    }
}

/// A process without a closing bracket, or without a number as the second word
/// behind the last one, has no known parent.
pub proof fn a_parent_is_a_number_behind_the_name(stat: &str, name: Seq<char>, rest: Seq<char>, ppid: Option<u32>)
    requires
        call_ensures(read_ppid, (stat,), ppid),
    ensures
        lacks(stat@, ')') ==> ppid is None,
        stat@ == name.push(')') + rest && lacks(rest, ')') ==> {
            let found = if words(rest).len() > 1 {
                number_told(words(rest)[1], 4294967295)
            } else {
                None
            };
            match found {
                Some(n) => ppid matches Some(p) && p == n,
                None => ppid is None,
            }
        },
{
    if lacks(stat@, ')') {
        lemma_none(stat@, ')', stat@.len() as int);
    }
    if stat@ == name.push(')') + rest && lacks(rest, ')') {
        let at = name.len() as int;
        assert(stat@[at] == ')');
        assert forall|i: int| at < i < stat@.len() implies #[trigger] stat@[i] != ')' by {
            assert(stat@[i] == rest[i - at - 1]);
        }
        crate::laws::telemetry::lemma_last(stat@, ')', at, stat@.len() as int);
        assert(stat@.skip(at + 1) =~= rest);
        if words(rest).len() > 1 {
            lemma_told(words(rest)[1], u32::MAX as nat);
        }
    }
}

proof fn lemma_none(s: Seq<char>, c: char, n: int)
    requires
        0 <= n <= s.len(),
        lacks(s, c),
    ensures
        last_position(s, c, n) == -1,
    decreases n,
{
    if n > 0 {
        assert(s[n - 1] != c);
        lemma_none(s, c, n - 1);
    }
}

/// The first line on the resident size decides: where its first word is no
/// number, the size is not known.
pub proof fn a_resident_size_is_a_number(status: &str, i: int, rss: Option<u64>)
    requires
        call_ensures(read_status_rss_kb, (status,), rss),
        0 <= i < lines(status@).len(),
        labelled(lines(status@)[i], "VmRSS:"@),
        forall|k: int| 0 <= k < i ==> !labelled(#[trigger] lines(status@)[k], "VmRSS:"@),
    ensures
        ({
            let rest = words(lines(status@)[i].skip(6));
            let found = if rest.len() > 0 {
                number_told(rest[0], 18446744073709551615)
            } else {
                None
            };
            match found {
                Some(n) => rss matches Some(r) && r == n,
                None => rss is None,
            }
        }),
{
    reveal_strlit("VmRSS:");
    assert("VmRSS:"@.len() == 6);
    crate::laws::telemetry::lemma_rss(lines(status@), 0, i);
    lemma_after(lines(status@)[i], "VmRSS:"@);
    let rest = words(lines(status@)[i].skip(6));
    if rest.len() > 0 {
        lemma_told(rest[0], u64::MAX as nat);
    }
}

/// The bytes are told line by line: the last line of each kind counts, other
/// lines are passed over, nothing is read or written where no line says so, and
/// a line of either kind without a number spoils the whole.
pub proof fn bytes_are_told_line_by_line(
    fewer: &str,
    line: Seq<char>,
    io: &str,
    first: Option<(u64, u64)>,
    bytes: Option<(u64, u64)>,
)
    requires
        call_ensures(read_io_bytes, (fewer,), first),
        call_ensures(read_io_bytes, (io,), bytes),
        lines(io@) == lines(fewer@).push(line),
    ensures
        lines(fewer@).len() == 0 ==> first == Some((0u64, 0u64)),
        first is None ==> bytes is None,
        first matches Some(was) ==> {
            &&& labelled(line, "read_bytes:"@) ==> match number_told(trim(line.skip(11)), 18446744073709551615) {
                Some(n) => bytes matches Some(now) && now.0 == n && now.1 == was.1,
                None => bytes is None,
            }
            &&& labelled(line, "write_bytes:"@) ==> match number_told(trim(line.skip(12)), 18446744073709551615) {
                Some(n) => bytes matches Some(now) && now.0 == was.0 && now.1 == n,
                None => bytes is None,
            }
            &&& !labelled(line, "read_bytes:"@) && !labelled(line, "write_bytes:"@) ==> bytes == first
        },
{
    reveal_strlit("read_bytes:");
    reveal_strlit("write_bytes:");
    assert("read_bytes:"@.len() == 11 && "write_bytes:"@.len() == 12);
    let a = lines(fewer@);
    let b = lines(io@);
    lemma_same_bytes(a, b, a.len() as int);
    assert(b.last() == line);
    lemma_after(line, "read_bytes:"@);
    lemma_after(line, "write_bytes:"@);
    if labelled(line, "write_bytes:"@) && labelled(line, "read_bytes:"@) {
        assert(line.take(12)[0] == line[0] && line.take(11)[0] == line[0]);
        assert("read_bytes:"@[0] != "write_bytes:"@[0]);
    }
    lemma_told(trim(line.skip(11)), u64::MAX as nat);
    lemma_told(trim(line.skip(12)), u64::MAX as nat);
}

proof fn lemma_same_bytes(a: Seq<Seq<char>>, b: Seq<Seq<char>>, n: int)
    requires
        n <= a.len(),
        n <= b.len(),
        forall|i: int| 0 <= i < n ==> #[trigger] a[i] == b[i],
    ensures
        io_bytes(a, n) == io_bytes(b, n),
    decreases n,
{
    if n > 0 {
        lemma_same_bytes(a, b, n - 1);
        assert(a[n - 1] == b[n - 1]);
    }
}

/// Counts are told line by line: a line of a key and a number counts, in place
/// of an earlier one with its key; any other is passed over.
pub proof fn counts_are_told_line_by_line(
    fewer: &str,
    line: Seq<char>,
    content: &str,
    first: StringMap<u64>,
    values: StringMap<u64>,
)
    requires
        call_ensures(read_key_value_u64, (fewer,), first),
        call_ensures(read_key_value_u64, (content,), values),
        lines(content@) == lines(fewer@).push(line),
    ensures
        lines(fewer@).len() == 0 ==> first@ == Map::<Seq<char>, u64>::empty(),
        words(line).len() < 2 ==> values@ == first@,
        words(line).len() >= 2 ==> match number_told(words(line)[1], 18446744073709551615) {
            Some(n) => values@ == first@.insert(words(line)[0], n as u64),
            None => values@ == first@,
        },
{
    let a = lines(fewer@);
    let b = lines(content@);
    lemma_same_counts(a, b, a.len() as int);
    assert(b.last() == line);
    if words(line).len() >= 2 {
        lemma_told(words(line)[1], u64::MAX as nat);
    }
}

proof fn lemma_same_counts(a: Seq<Seq<char>>, b: Seq<Seq<char>>, n: int)
    requires
        n <= a.len(),
        n <= b.len(),
        forall|i: int| 0 <= i < n ==> #[trigger] a[i] == b[i],
    ensures
        counts_in(a, n) == counts_in(b, n),
    decreases n,
{
    if n > 0 {
        lemma_same_counts(a, b, n - 1);
        assert(a[n - 1] == b[n - 1]);
    }
}

/// A file with one number is read as the number that its text tells between
/// white space, and as nothing where it tells none.
pub proof fn a_single_number_is_read_or_nothing(content: &str, n: Option<u64>)
    requires
        call_ensures(read_single_u64, (content,), n),
    ensures
        match number_told(trim(content@), 18446744073709551615) {
            Some(v) => n matches Some(m) && m == v,
            None => n is None,
        },
{
    lemma_told(trim(content@), u64::MAX as nat);
}

/// The control group is sought line by line: a line with controllers is passed
/// over, one without two colons ends the search, and where no line is left there is none.
pub proof fn the_control_group_is_sought_line_by_line(
    content: &str,
    rest: &str,
    number: Seq<char>,
    controllers: Seq<char>,
    group: Seq<char>,
    path: Option<String>,
    further: Option<String>,
)
    requires
        call_ensures(discover_cgroup_path, (content,), path),
        call_ensures(discover_cgroup_path, (rest,), further),
    ensures
        lines(content@).len() == 0 ==> path is None,
        lines(content@).len() > 0 && lacks(lines(content@)[0], ':') ==> path is None,
        lines(content@).len() > 0 && lacks(number, ':') && lacks(controllers, ':') && lines(content@)[0] == number.push(':') + controllers
            ==> path is None,
        lacks(number, ':') && lacks(controllers, ':') && controllers.len() > 0 && lines(content@) == seq![
            number.push(':') + controllers.push(':') + group,
        ] + lines(rest@) ==> text_view(path) == text_view(further),
        lacks(number, ':') && lines(content@).len() > 0 && lines(content@)[0] == number.push(':').push(':').push('/') ==> text_view(path) == Some(
            "/sys/fs/cgroup"@,
        ),
{
    let l = lines(content@);
    if l.len() > 0 && lacks(l[0], ':') {
        lemma_no_next(l[0], ':', 0);
    }
    if l.len() > 0 && lacks(number, ':') && lacks(controllers, ':') && l[0] == number.push(':') + controllers {
        let n = number.len() as int;
        assert(l[0][n] == ':');
        lemma_first(l[0], ':', 0, n);
        assert forall|i: int| n + 1 <= i < l[0].len() implies #[trigger] l[0][i] != ':' by {
            assert(l[0][i] == controllers[i - n - 1]);
        }
        lemma_no_next(l[0], ':', n + 1);
    }
    if lacks(number, ':') && lacks(controllers, ':') && controllers.len() > 0 && l == seq![number.push(':') + controllers.push(':') + group]
        + lines(rest@) {
        let line = number.push(':') + controllers.push(':') + group;
        let n = number.len() as int;
        let m = n + 1 + controllers.len();
        assert(l[0] == line);
        assert(line[n] == ':' && line[m] == ':');
        lemma_first(line, ':', 0, n);
        assert forall|i: int| n + 1 <= i < m implies #[trigger] line[i] != ':' by {
            assert(line[i] == controllers[i - n - 1]);
        }
        lemma_first(line, ':', n + 1, m);
        lemma_shifted(l, lines(rest@), 0);
    }
    if lacks(number, ':') && l.len() > 0 && l[0] == number.push(':').push(':').push('/') {
        let n = number.len() as int;
        assert(l[0][n] == ':' && l[0][n + 1] == ':' && l[0][n + 2] == '/');
        lemma_first(l[0], ':', 0, n);
        lemma_first(l[0], ':', n + 1, n + 1);
        assert(l[0].skip(n + 2) =~= seq!['/']);
        reveal_with_fuel(without_leading_slashes, 3);
        assert(seq!['/'].drop_first().len() == 0);
    }
}

proof fn lemma_no_next(s: Seq<char>, c: char, i: int)
    requires
        0 <= i <= s.len(),
        forall|k: int| i <= k < s.len() ==> #[trigger] s[k] != c,
    ensures
        next_position(s, c, i) == s.len(),
    decreases s.len() - i,
{
    if i < s.len() {
        assert(s[i] != c);
        lemma_no_next(s, c, i + 1);
    }
}

proof fn lemma_first(s: Seq<char>, c: char, i: int, at: int)
    requires
        0 <= i <= at < s.len(),
        s[at] == c,
        forall|k: int| i <= k < at ==> #[trigger] s[k] != c,
    ensures
        next_position(s, c, i) == at,
    decreases at - i,
{
    if i < at {
        assert(s[i] != c);
        lemma_first(s, c, i + 1, at);
    }
}

proof fn lemma_shifted(a: Seq<Seq<char>>, b: Seq<Seq<char>>, i: int)
    requires
        0 <= i <= b.len(),
        a.len() == b.len() + 1,
        forall|k: int| 0 <= k < b.len() ==> a[k + 1] == #[trigger] b[k],
    ensures
        cgroup_from(a, i + 1) == cgroup_from(b, i),
    decreases b.len() - i,
{
    if i < b.len() {
        assert(a[i + 1] == b[i]);
        lemma_shifted(a, b, i + 1);
    }
}

/// A look at a process that ended tells the same as its status does.
pub proof fn a_look_tells_what_the_status_does(
    status: i32,
    usage: CpuUsage,
    timed_out: bool,
    expired: bool,
    step: WaitStep,
    r: WaitResult,
)
    requires
        call_ensures(wait_step, (Poll::Ended { status, usage }, timed_out, expired), step),
        call_ensures(wait_result, (status, timed_out, usage), r),
    ensures
        step == WaitStep::Done(r),
        status & 0x7f == 0x7f ==> r.exit_code is None && r.signal is None,
        !(r.exit_code is Some && r.signal is Some),
        r.exit_code matches Some(code) ==> 0 <= code <= 255,
{
    crate::runner::wait::a_process_ends_in_one_way(status, timed_out, usage);
}

} // verus!
