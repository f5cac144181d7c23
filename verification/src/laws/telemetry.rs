//! What is read from the process table and the control groups.

use crate::laws::numbers::{all_digits, a_number_is_read_as_its_digits_tell, told};
use crate::laws::texts::lacks;
use crate::number::parse_unsigned;
use crate::report::CgroupStats;
use crate::runner::cgroup::{
    cgroup_dir, counts_in, diff_u64_maps, discover_cgroup_path, next_position, read_cgroup_stats, read_key_value_u64,
    read_single_u64, without_leading_slashes, CgroupTexts,
};
use crate::runner::procfs::{
    after_prefix, in_tree, io_bytes, last_position, proc_sample, process_tree, reached, read_io_bytes, read_ppid,
    read_status_rss_kb, rss_from, total_read, total_rss, total_written, ProcFacts, ProcSample,
};
use crate::string_map::StringMap;
use crate::text::{lines, occurs_at, trim, words};
use crate::versioned_fs::entry::text_view;
use vstd::prelude::*;

verus! {

/// The text is digits that tell the number.
pub open spec fn is_number(s: Seq<char>, n: u64) -> bool {
    s.len() > 0 && all_digits(s) && told(s) == n
}

proof fn lemma_number(s: Seq<char>, n: u64)
    requires
        is_number(s, n),
    ensures
        parse_unsigned(s, u64::MAX as nat) == Some(n as nat),
{
    assert(48 <= s[0] as int <= 57);
    a_number_is_read_as_its_digits_tell(s, u64::MAX as nat);
}

/// The line starts with a label.
pub open spec fn labelled(line: Seq<char>, label: Seq<char>) -> bool {
    line.len() >= label.len() && line.take(label.len() as int) == label
}

pub proof fn lemma_after(line: Seq<char>, label: Seq<char>)
    ensures
        labelled(line, label) ==> after_prefix(line, label) == Some(line.skip(label.len() as int)),
        !labelled(line, label) ==> after_prefix(line, label) is None,
{
    if line.len() >= label.len() {
        assert(line.take(label.len() as int) =~= line.subrange(0, label.len() as int));
    }
    assert(occurs_at(line, label, 0) <==> labelled(line, label));
}

/// The parent of a process is the second word behind the bracket that closes
/// its name, be there other brackets in the name or not.
pub proof fn the_parent_follows_the_name(stat: &str, name: Seq<char>, rest: Seq<char>, n: u64, ppid: Option<u32>)
    requires
        call_ensures(read_ppid, (stat,), ppid),
        stat@ == name.push(')') + rest,
        lacks(rest, ')'),
        words(rest).len() > 1,
        is_number(words(rest)[1], n),
        n <= u32::MAX,
    ensures
        ppid == Some(n as u32),
{
    lemma_last(stat@, ')', name.len() as int, stat@.len() as int);
    assert(stat@.skip(name.len() as int + 1) =~= rest);
    let digits = words(rest)[1];
    assert(48 <= digits[0] as int <= 57);
    a_number_is_read_as_its_digits_tell(digits, u32::MAX as nat);
}

pub proof fn lemma_last(s: Seq<char>, c: char, at: int, n: int)
    requires
        0 <= at < n <= s.len(),
        s[at] == c,
        forall|i: int| at < i < n ==> #[trigger] s[i] != c,
    ensures
        last_position(s, c, n) == at,
    decreases n,
{
    if at < n - 1 {
        assert(s[n - 1] != c);
        lemma_last(s, c, at, n - 1);
    }
}

/// The memory of a process is the first word behind the label of the resident
/// size, on the first line that has it.
pub proof fn the_resident_size_is_told_by_its_line(status: &str, i: int, n: u64, rss: Option<u64>)
    requires
        call_ensures(read_status_rss_kb, (status,), rss),
        0 <= i < lines(status@).len(),
        labelled(lines(status@)[i], "VmRSS:"@),
        forall|k: int| 0 <= k < i ==> !labelled(#[trigger] lines(status@)[k], "VmRSS:"@),
        words(lines(status@)[i].skip(6)).len() > 0,
        is_number(words(lines(status@)[i].skip(6))[0], n),
    ensures
        rss == Some(n),
{
    reveal_strlit("VmRSS:");
    assert("VmRSS:"@.len() == 6);
    lemma_rss(lines(status@), 0, i);
    lemma_after(lines(status@)[i], "VmRSS:"@);
    lemma_number(words(lines(status@)[i].skip(6))[0], n);
}

pub proof fn lemma_rss(list: Seq<Seq<char>>, k: int, i: int)
    requires
        0 <= k <= i < list.len(),
        forall|j: int| 0 <= j < i ==> !labelled(#[trigger] list[j], "VmRSS:"@),
    ensures
        rss_from(list, k) == rss_from(list, i),
    decreases i - k,
{
    if k < i {
        assert(!labelled(list[k], "VmRSS:"@));
        lemma_after(list[k], "VmRSS:"@);
        lemma_rss(list, k + 1, i);
    }
}

/// A process without a line on its resident size has none.
pub proof fn a_process_without_the_line_uses_no_memory(status: &str, rss: Option<u64>)
    requires
        call_ensures(read_status_rss_kb, (status,), rss),
        forall|k: int| 0 <= k < lines(status@).len() ==> !labelled(#[trigger] lines(status@)[k], "VmRSS:"@),
    ensures
        rss == Some(0u64),
{
    lemma_no_rss(lines(status@), 0);
}

proof fn lemma_no_rss(list: Seq<Seq<char>>, k: int)
    requires
        0 <= k <= list.len(),
        forall|j: int| 0 <= j < list.len() ==> !labelled(#[trigger] list[j], "VmRSS:"@),
    ensures
        rss_from(list, k) == Some(0nat),
    decreases list.len() - k,
{
    if k < list.len() {
        assert(!labelled(list[k], "VmRSS:"@));
        lemma_after(list[k], "VmRSS:"@);
        lemma_no_rss(list, k + 1);
    }
}

/// The bytes that a process read and those that it wrote are told by their own lines.
pub proof fn bytes_are_told_by_their_lines(io: &str, r: int, w: int, read: u64, written: u64, bytes: Option<(u64, u64)>)
    requires
        call_ensures(read_io_bytes, (io,), bytes),
        0 <= r < lines(io@).len(),
        0 <= w < lines(io@).len(),
        forall|k: int| 0 <= k < lines(io@).len() ==> (labelled(#[trigger] lines(io@)[k], "read_bytes:"@) <==> k == r),
        forall|k: int| 0 <= k < lines(io@).len() ==> (labelled(#[trigger] lines(io@)[k], "write_bytes:"@) <==> k == w),
        is_number(trim(lines(io@)[r].skip(11)), read),
        is_number(trim(lines(io@)[w].skip(12)), written),
    ensures
        bytes == Some((read, written)),
{
    reveal_strlit("read_bytes:");
    reveal_strlit("write_bytes:");
    assert("read_bytes:"@.len() == 11 && "write_bytes:"@.len() == 12);
    lemma_number(trim(lines(io@)[r].skip(11)), read);
    lemma_number(trim(lines(io@)[w].skip(12)), written);
    lemma_io(lines(io@), r, w, read, written, lines(io@).len() as int);
}

proof fn lemma_io(list: Seq<Seq<char>>, r: int, w: int, read: u64, written: u64, n: int)
    requires
        0 <= n <= list.len(),
        0 <= r < list.len(),
        0 <= w < list.len(),
        "read_bytes:"@.len() == 11,
        "write_bytes:"@.len() == 12,
        forall|k: int| 0 <= k < list.len() ==> (labelled(#[trigger] list[k], "read_bytes:"@) <==> k == r),
        forall|k: int| 0 <= k < list.len() ==> (labelled(#[trigger] list[k], "write_bytes:"@) <==> k == w),
        parse_unsigned(trim(list[r].skip(11)), u64::MAX as nat) == Some(read as nat),
        parse_unsigned(trim(list[w].skip(12)), u64::MAX as nat) == Some(written as nat),
    ensures
        io_bytes(list, n) == Some(
            (
                if r < n {
                    read as nat
                } else {
                    0
                },
                if w < n {
                    written as nat
                } else {
                    0
                },
            ),
        ),
    decreases n,
{
    if n > 0 {
        lemma_io(list, r, w, read, written, n - 1);
        assert(labelled(list[n - 1], "read_bytes:"@) <==> n - 1 == r);
        assert(labelled(list[n - 1], "write_bytes:"@) <==> n - 1 == w);
        lemma_after(list[n - 1], "read_bytes:"@);
        lemma_after(list[n - 1], "write_bytes:"@);
        if n - 1 == r && n - 1 == w {
            reveal_strlit("read_bytes:");
            reveal_strlit("write_bytes:");
            assert(list[r].take(11)[0] == list[r][0] && list[r].take(12)[0] == list[r][0]);
            assert("read_bytes:"@[0] == 'r' && "write_bytes:"@[0] == 'w');
        }
    }
}

/// A tree of processes: the root, each child of a process in the tree, and no
/// process that has no way up to the root; none twice, and the root first.
pub proof fn a_process_tree_is_closed_under_children(root: u32, pairs: &[(u32, u32)], pids: Vec<u32>)
    requires
        call_ensures(process_tree, (root, pairs), pids),
    ensures
        pids@.len() > 0 && pids@[0] == root,
        pids@.no_duplicates(),
        forall|k: int| 0 <= k < pairs@.len() && pids@.contains((#[trigger] pairs@[k]).1) ==> pids@.contains(pairs@[k].0),
        forall|pid: u32|
            #[trigger] pids@.contains(pid) && pid != root ==> exists|k: int|
                0 <= k < pairs@.len() && (#[trigger] pairs@[k]).0 == pid && pids@.contains(pairs@[k].1),
{
    assert forall|k: int| 0 <= k < pairs@.len() && pids@.contains((#[trigger] pairs@[k]).1) implies pids@.contains(pairs@[k].0) by {
        assert(in_tree(pairs@, root, pairs@[k].1));
        let n = choose|n: nat| reached(pairs@, root, pairs@[k].1, n);
        assert(reached(pairs@, root, pairs@[k].0, n + 1));
        assert(in_tree(pairs@, root, pairs@[k].0));
    }
    assert forall|pid: u32| #[trigger] pids@.contains(pid) && pid != root implies exists|k: int|
        0 <= k < pairs@.len() && (#[trigger] pairs@[k]).0 == pid && pids@.contains(pairs@[k].1) by {
        assert(in_tree(pairs@, root, pid));
        let n = choose|n: nat| reached(pairs@, root, pid, n);
        let k = choose|k: int|
            0 <= k < pairs@.len() && (#[trigger] pairs@[k]).0 == pid && reached(pairs@, root, pairs@[k].1, (n - 1) as nat);
        assert(in_tree(pairs@, root, pairs@[k].1));
    }
}

/// What one process adds to a sample.
pub open spec fn memory_of(f: ProcFacts) -> int {
    match f.rss_kb {
        Some(v) => v as int,
        None => 0,
    }
}

/// The sum of numbers.
pub open spec fn sum(list: Seq<int>) -> int
    decreases list.len(),
{
    if list.len() == 0 {
        0
    } else {
        sum(list.drop_last()) + list.last()
    }
}

/// A sample adds up what the processes use: memory, bytes read and bytes
/// written, each by itself; what is not known of a process counts nothing.
pub proof fn a_sample_adds_up_the_processes(pids: Vec<u32>, facts: &[ProcFacts], sample: ProcSample)
    requires
        call_ensures(proc_sample, (pids, facts), sample),
    ensures
        sample.pids@ == pids@,
        sample.rss_kb == sum(facts@.map_values(|f: ProcFacts| memory_of(f))),
        sample.read_bytes == sum(
            facts@.map_values(
                |f: ProcFacts|
                    match f.io_bytes {
                        Some(pair) => pair.0 as int,
                        None => 0int,
                    },
            ),
        ),
        sample.write_bytes == sum(
            facts@.map_values(
                |f: ProcFacts|
                    match f.io_bytes {
                        Some(pair) => pair.1 as int,
                        None => 0int,
                    },
            ),
        ),
{
    lemma_totals(facts@, facts@.len() as int);
    assert(facts@.take(facts@.len() as int) =~= facts@);
}

proof fn lemma_totals(facts: Seq<ProcFacts>, n: int)
    requires
        0 <= n <= facts.len(),
    ensures
        total_rss(facts, n) == sum(facts.take(n).map_values(|f: ProcFacts| memory_of(f))),
        total_read(facts, n) == sum(
            facts.take(n).map_values(
                |f: ProcFacts|
                    match f.io_bytes {
                        Some(pair) => pair.0 as int,
                        None => 0int,
                    },
            ),
        ),
        total_written(facts, n) == sum(
            facts.take(n).map_values(
                |f: ProcFacts|
                    match f.io_bytes {
                        Some(pair) => pair.1 as int,
                        None => 0int,
                    },
            ),
        ),
    decreases n,
{
    let rss = |f: ProcFacts| memory_of(f);
    let read = |f: ProcFacts|
        match f.io_bytes {
            Some(pair) => pair.0 as int,
            None => 0int,
        };
    let written = |f: ProcFacts|
        match f.io_bytes {
            Some(pair) => pair.1 as int,
            None => 0int,
        };
    if n > 0 {
        lemma_totals(facts, n - 1);
        assert(facts.take(n).map_values(rss).drop_last() =~= facts.take(n - 1).map_values(rss));
        assert(facts.take(n).map_values(read).drop_last() =~= facts.take(n - 1).map_values(read));
        assert(facts.take(n).map_values(written).drop_last() =~= facts.take(n - 1).map_values(written));
    }
}

/// The control group of a process is named by the line without controllers:
/// behind the number and two colons stands its path below the root of the groups.
pub proof fn the_control_group_is_named_by_its_line(content: &str, number: Seq<char>, group: Seq<char>, path: Option<String>)
    requires
        call_ensures(discover_cgroup_path, (content,), path),
        lines(content@).len() > 0,
        lines(content@)[0] == number + "::/"@ + group,
        lacks(number, ':'),
        group.len() > 0 && group[0] != '/',
    ensures
        text_view(path) == Some("/sys/fs/cgroup/"@ + group),
{
    reveal_strlit("::/");
    reveal_strlit("/sys/fs/cgroup");
    reveal_strlit("/sys/fs/cgroup/");
    let line = lines(content@)[0];
    let n = number.len() as int;
    assert(line[n] == ':' && line[n + 1] == ':' && line[n + 2] == '/');
    lemma_next(line, ':', 0, n);
    lemma_next(line, ':', n + 1, n + 1);
    let rest = line.skip(n + 2);
    assert(rest =~= seq!['/'] + group);
    assert(rest.drop_first() =~= group);
    reveal_with_fuel(without_leading_slashes, 3);
    assert(without_leading_slashes(rest) == group);
    assert(cgroup_dir(rest) =~= "/sys/fs/cgroup/"@ + group);
}

proof fn lemma_next(s: Seq<char>, c: char, i: int, at: int)
    requires
        0 <= i <= at < s.len(),
        s[at] == c,
        forall|k: int| i <= k < at ==> #[trigger] s[k] != c,
    ensures
        next_position(s, c, i) == at,
    decreases at - i,
{
    if i < at {
        assert(s[i] != c);
        lemma_next(s, c, i + 1, at);
    }
}

/// The line names a count.
pub open spec fn names_count(line: Seq<char>, key: Seq<char>, n: u64) -> bool {
    words(line).len() >= 2 && words(line)[0] == key && is_number(words(line)[1], n)
}

/// A count is that of the last line that names it.
pub proof fn a_count_is_told_by_its_line(content: &str, i: int, key: Seq<char>, n: u64, values: StringMap<u64>)
    requires
        call_ensures(read_key_value_u64, (content,), values),
        0 <= i < lines(content@).len(),
        names_count(lines(content@)[i], key, n),
        forall|k: int|
            i < k < lines(content@).len() ==> words(#[trigger] lines(content@)[k]).len() < 2 || words(lines(content@)[k])[0] != key,
    ensures
        values@.contains_key(key),
        values@[key] == n,
{
    lemma_counts(lines(content@), i, key, n, lines(content@).len() as int);
}

proof fn lemma_counts(list: Seq<Seq<char>>, i: int, key: Seq<char>, n: u64, m: int)
    requires
        0 <= i < m <= list.len(),
        names_count(list[i], key, n),
        forall|k: int| i < k < list.len() ==> words(#[trigger] list[k]).len() < 2 || words(list[k])[0] != key,
    ensures
        counts_in(list, m).contains_key(key),
        counts_in(list, m)[key] == n,
    decreases m,
{
    if i == m - 1 {
        lemma_number(words(list[i])[1], n);
    } else {
        assert(words(list[m - 1]).len() < 2 || words(list[m - 1])[0] != key);
        lemma_counts(list, i, key, n, m - 1);
    }
}

/// A key that no line names has no count.
pub proof fn nothing_else_is_counted(content: &str, key: Seq<char>, values: StringMap<u64>)
    requires
        call_ensures(read_key_value_u64, (content,), values),
        forall|k: int|
            0 <= k < lines(content@).len() ==> words(#[trigger] lines(content@)[k]).len() < 2 || words(lines(content@)[k])[0] != key,
    ensures
        !values@.contains_key(key),
{
    lemma_uncounted(lines(content@), key, lines(content@).len() as int);
}

proof fn lemma_uncounted(list: Seq<Seq<char>>, key: Seq<char>, m: int)
    requires
        0 <= m <= list.len(),
        forall|k: int| 0 <= k < list.len() ==> words(#[trigger] list[k]).len() < 2 || words(list[k])[0] != key,
    ensures
        !counts_in(list, m).contains_key(key),
    decreases m,
{
    if m > 0 {
        assert(words(list[m - 1]).len() < 2 || words(list[m - 1])[0] != key);
        lemma_uncounted(list, key, m - 1);
    }
}

/// A file with one number tells that number.
pub proof fn one_number_is_read_whole(content: &str, n: u64, read: Option<u64>)
    requires
        call_ensures(read_single_u64, (content,), read),
        is_number(trim(content@), n),
    ensures
        read == Some(n),
{
    lemma_number(trim(content@), n);
}

/// Changes are what is counted after less what was counted before, for every
/// count there is after; one that was not there before counts from nothing.
pub proof fn changes_are_after_less_before(before: StringMap<u64>, after: StringMap<u64>, changes: StringMap<i64>, key: Seq<char>)
    requires
        call_ensures(diff_u64_maps, (&before, &after), changes),
        after@.contains_key(key) ==> after@[key] <= i64::MAX,
        before@.contains_key(key) ==> before@[key] <= i64::MAX,
    ensures
        changes@.contains_key(key) <==> after@.contains_key(key),
        after@.contains_key(key) && before@.contains_key(key) ==> changes@[key] == after@[key] - before@[key],
        after@.contains_key(key) && !before@.contains_key(key) ==> changes@[key] == after@[key],
{
}

/// The numbers of a control group come each from its own file and its own line.
pub proof fn a_control_group_tells_its_numbers(
    path: &str,
    cpu: String,
    events: String,
    current: String,
    peak: String,
    pids: String,
    key_lines: (int, int, int, int),
    n: (u64, u64, u64, u64),
    single: (u64, u64, u64),
    stats: CgroupStats,
)
    requires
        call_ensures(
            read_cgroup_stats,
            (
                path,
                &(CgroupTexts {
                    memory_events: Some(events),
                    cpu_stat: Some(cpu),
                    memory_current: Some(current),
                    memory_peak: Some(peak),
                    pids_current: Some(pids),
                }),
                None,
            ),
            stats,
        ),
        ({
            let list = lines(cpu@);
            let (a, b, c, d) = key_lines;
            &&& 0 <= a < list.len() && 0 <= b < list.len() && 0 <= c < list.len() && 0 <= d < lines(events@).len()
            &&& names_count(list[a], "usage_usec"@, n.0) && names_count(list[b], "user_usec"@, n.1) && names_count(
                list[c],
                "system_usec"@,
                n.2,
            ) && names_count(lines(events@)[d], "oom_kill"@, n.3)
            &&& forall|k: int| a < k < list.len() ==> words(#[trigger] list[k]).len() < 2 || words(list[k])[0] != "usage_usec"@
            &&& forall|k: int| b < k < list.len() ==> words(#[trigger] list[k]).len() < 2 || words(list[k])[0] != "user_usec"@
            &&& forall|k: int| c < k < list.len() ==> words(#[trigger] list[k]).len() < 2 || words(list[k])[0] != "system_usec"@
            &&& forall|k: int|
                d < k < lines(events@).len() ==> words(#[trigger] lines(events@)[k]).len() < 2 || words(lines(events@)[k])[0] != "oom_kill"@
        }),
        is_number(trim(current@), single.0),
        is_number(trim(peak@), single.1),
        is_number(trim(pids@), single.2),
    ensures
        text_view(stats.path) == Some(path@),
        stats.cpu_usage_usec == Some(n.0),
        stats.cpu_user_usec == Some(n.1),
        stats.cpu_system_usec == Some(n.2),
        stats.memory_events@.contains_key("oom_kill"@) && stats.memory_events@["oom_kill"@] == n.3,
        stats.memory_current_bytes == Some(single.0),
        stats.memory_peak_bytes == Some(single.1),
        stats.pids_current == Some(single.2),
{
    let list = lines(cpu@);
    lemma_counts(list, key_lines.0, "usage_usec"@, n.0, list.len() as int);
    lemma_counts(list, key_lines.1, "user_usec"@, n.1, list.len() as int);
    lemma_counts(list, key_lines.2, "system_usec"@, n.2, list.len() as int);
    lemma_counts(lines(events@), key_lines.3, "oom_kill"@, n.3, lines(events@).len() as int);
    lemma_number(trim(current@), single.0);
    lemma_number(trim(peak@), single.1);
    lemma_number(trim(pids@), single.2);
}

} // verus!
