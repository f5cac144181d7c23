//! What control groups tell.

use crate::number::{parse_number, parse_unsigned};
use crate::report::CgroupStats;
use crate::runner::procfs::count_view;
use crate::string_map::{lemma_key_index, StringMap};
use crate::text::{
    char_views, chars_of, lines, lines_of, slice_of, string_of, trim, trimmed, words, words_of,
};
use crate::versioned_fs::entry::text_view;
use crate::versioned_fs::paths::{join_path, pushed};
use vstd::prelude::*;

verus! {

/// The first position of a character from `i` on; the length where there is none.
pub open spec fn next_position(s: Seq<char>, c: char, i: int) -> int
    decreases s.len() - i,
{
    if i >= s.len() || s[i] == c {
        i
    } else {
        next_position(s, c, i + 1)
    }
}

proof fn lemma_next_position(s: Seq<char>, c: char, i: int)
    requires
        0 <= i <= s.len(),
    ensures
        i <= next_position(s, c, i) <= s.len(),
    decreases s.len() - i,
{
    if i < s.len() && s[i] != c {
        lemma_next_position(s, c, i + 1);
    }
}

/// The first position of a character from `i` on.
fn position_of(s: &[char], c: char, i: usize) -> (at: usize)
    requires
        i <= s@.len(),
    ensures
        at == next_position(s@, c, i as int),
        i <= at <= s@.len(),
{
    let mut at: usize = i;
    while at < s.len() && s[at] != c
        invariant
            i <= at <= s@.len(),
            next_position(s@, c, i as int) == next_position(s@, c, at as int),
        decreases s@.len() - at,
    {
        at = at + 1;
    }
    at
}

/// The text without the slashes that it starts with.
pub open spec fn without_leading_slashes(s: Seq<char>) -> Seq<char>
    decreases s.len(),
{
    if s.len() > 0 && s[0] == '/' {
        without_leading_slashes(s.drop_first())
    } else {
        s
    }
}

/// The directory of a control group.
pub open spec fn cgroup_dir(path: Seq<char>) -> Seq<char> {
    let relative = without_leading_slashes(path);
    if relative.len() == 0 {
        "/sys/fs/cgroup"@
    } else {
        pushed("/sys/fs/cgroup"@, relative)
    }
}

/// The control group that the lines of a `cgroup` text name, from line `i` on:
/// that of the first line with an empty second part. A line has three parts
/// with colons between them; the search ends at one that has fewer.
pub open spec fn cgroup_from(list: Seq<Seq<char>>, i: int) -> Option<Seq<char>>
    decreases list.len() - i,
{
    if i >= list.len() {
        None
    } else {
        let line = list[i];
        let first = next_position(line, ':', 0);
        let second = next_position(line, ':', first + 1);
        if first >= line.len() || second >= line.len() {
            None
        } else if second == first + 1 {
            Some(cgroup_dir(line.skip(second + 1)))
        } else {
            cgroup_from(list, i + 1)
        }
    }
}

/// The directory of the control group that a process's `cgroup` text names.
pub fn discover_cgroup_path(content: &str) -> (path: Option<String>)
    ensures
        text_view(path) == cgroup_from(lines(content@), 0),
{
    let chars = chars_of(content);
    let found = lines_of(chars.as_slice());
    let ghost list = lines(content@);
    for i in 0..found.len()
        invariant
            list == char_views(found@),
            list == lines(content@),
            cgroup_from(list, 0) == cgroup_from(list, i as int),
    {
        let line = found[i].as_slice();
        assert(list[i as int] == line@);
        let first = position_of(line, ':', 0);
        if first >= line.len() {
            return None;
        }
        let second = position_of(line, ':', first + 1);
        if second >= line.len() {
            return None;
        }
        if second == first + 1 {
            let mut start: usize = second + 1;
            let ghost rest = line@.skip(second + 1);
            assert(line@.skip(start as int) =~= rest);
            while start < line.len() && line[start] == '/'
                invariant
                    second + 1 <= start <= line@.len(),
                    rest == line@.skip(second + 1),
                    without_leading_slashes(rest) == without_leading_slashes(line@.skip(start as int)),
                decreases line@.len() - start,
            {
                assert(line@.skip(start as int).drop_first() =~= line@.skip(start + 1));
                start = start + 1;
            }
            let relative = slice_of(line, start, line.len());
            assert(relative@ =~= line@.skip(start as int));
            if relative.len() == 0 {
                return Some("/sys/fs/cgroup".to_string());
            }
            let text = string_of(relative.as_slice());
            return Some(join_path("/sys/fs/cgroup", text.as_str()));
        }
    }
    None
}

/// The counts that the first `n` lines of a text tell: each line names a key
/// and its count; lines without a count are passed over, and a later line
/// takes the place of an earlier one with its key.
pub open spec fn counts_in(list: Seq<Seq<char>>, n: int) -> Map<Seq<char>, u64>
    decreases n,
{
    if n <= 0 {
        Map::empty()
    } else {
        let so_far = counts_in(list, n - 1);
        let parts = words(list[n - 1]);
        if parts.len() < 2 {
            so_far
        } else {
            match parse_unsigned(parts[1], u64::MAX as nat) {
                Some(v) => so_far.insert(parts[0], v as u64),
                None => so_far,
            }
        }
    }
}

/// The counts that a text tells.
pub fn read_key_value_u64(content: &str) -> (values: StringMap<u64>)
    ensures
        values.wf(),
        values@ == counts_in(lines(content@), lines(content@).len() as int),
{
    let chars = chars_of(content);
    let found = lines_of(chars.as_slice());
    let ghost list = lines(content@);
    let mut values: StringMap<u64> = StringMap::new();
    assert(list.len() == found@.len());
    for i in 0..found.len()
        invariant
            list == char_views(found@),
            values.wf(),
            values@ == counts_in(list, i as int),
    {
        assert(list[i as int] == found@[i as int]@);
        let parts = words_of(found[i].as_slice());
        assert(char_views(parts@).len() == parts@.len());
        if parts.len() >= 2 {
            assert(char_views(parts@)[0] == parts@[0]@);
            assert(char_views(parts@)[1] == parts@[1]@);
            if let Some(v) = parse_number(parts[1].as_slice(), u64::MAX) {
                values.insert(string_of(parts[0].as_slice()), v);
            }
        }
    }
    values
}

/// The one number that a text holds.
pub fn read_single_u64(content: &str) -> (n: Option<u64>)
    ensures
        count_view(n) == parse_unsigned(trim(content@), u64::MAX as nat),
{
    let chars = chars_of(content);
    let number = trimmed(chars.as_slice());
    parse_number(number.as_slice(), u64::MAX)
}

/// The count of a key, zero where it is absent.
pub open spec fn count_of(m: Map<Seq<char>, u64>, key: Seq<char>) -> u64 {
    if m.contains_key(key) {
        m[key]
    } else {
        0
    }
}

/// The change of a count, as signed numbers.
pub open spec fn delta(before: Map<Seq<char>, u64>, after: Map<Seq<char>, u64>, key: Seq<char>) -> int {
    (count_of(after, key) as i64) - (count_of(before, key) as i64)
}

/// The change of every count can be written as a signed number.
pub open spec fn deltas_in_range(before: Map<Seq<char>, u64>, after: Map<Seq<char>, u64>) -> bool {
    forall|key: Seq<char>| #[trigger] after.contains_key(key) ==> i64::MIN <= delta(before, after, key) <= i64::MAX
}

/// The change of every count that there is after.
pub open spec fn deltas(before: Map<Seq<char>, u64>, after: Map<Seq<char>, u64>) -> Map<Seq<char>, i64> {
    Map::new(|key: Seq<char>| after.contains_key(key), |key: Seq<char>| delta(before, after, key) as i64)
}

/// The count of a key, zero where it is absent.
fn count(m: &StringMap<u64>, key: &str) -> (n: u64)
    requires
        m.wf(),
    ensures
        n == count_of(m@, key@),
{
    match m.get(key) {
        Some(n) => *n,
        None => 0,
    }
}

/// Whether the change of every count can be written as a signed number.
pub fn deltas_fit(before: &StringMap<u64>, after: &StringMap<u64>) -> (fit: bool)
    requires
        before.wf(),
        after.wf(),
    ensures
        fit == deltas_in_range(before@, after@),
{
    for i in 0..after.items.len()
        invariant
            before.wf(),
            after.wf(),
            forall|k: int| 0 <= k < i ==> i64::MIN <= delta(before@, after@, (#[trigger] after.items@[k]).0@) <= i64::MAX,
    {
        proof {
            lemma_key_index(after.items@, i as int);
        }
        let now: i64 = after.items[i].1 as i64;
        let earlier: i64 = count(before, after.items[i].0.as_str()) as i64;
        let wide: i128 = now as i128 - earlier as i128;
        if wide < i64::MIN as i128 || wide > i64::MAX as i128 {
            assert(after@.contains_key(after.items@[i as int].0@));
            return false;
        }
    }
    assert forall|key: Seq<char>| #[trigger] after@.contains_key(key) implies i64::MIN <= delta(before@, after@, key) <= i64::MAX by {
        let k = crate::string_map::key_index(after.items@, key);
        assert(after.items@[k].0@ == key);
    }
    true
}

/// The change of every count that there is after.
pub fn diff_u64_maps(before: &StringMap<u64>, after: &StringMap<u64>) -> (changes: StringMap<i64>)
    requires
        before.wf(),
        after.wf(),
        deltas_in_range(before@, after@),
    ensures
        changes.wf(),
        changes@ == deltas(before@, after@),
{
    let mut changes: StringMap<i64> = StringMap::new();
    for i in 0..after.items.len()
        invariant
            before.wf(),
            after.wf(),
            deltas_in_range(before@, after@),
            changes.wf(),
            changes.items@.len() == i,
            forall|k: int| 0 <= k < i ==> (#[trigger] changes.items@[k]).0@ == after.items@[k].0@,
            forall|k: int| 0 <= k < i ==> (#[trigger] changes.items@[k]).1 == delta(before@, after@, after.items@[k].0@),
    {
        proof {
            lemma_key_index(after.items@, i as int);
            assert(after@.contains_key(after.items@[i as int].0@));
            if i > 0 {
                assert(changes.items@[i - 1].0@ == after.items@[i - 1].0@);
            }
        }
        let now: i64 = after.items[i].1 as i64;
        let earlier: i64 = count(before, after.items[i].0.as_str()) as i64;
        changes.push_last(after.items[i].0.clone(), now - earlier);
    }
    proof {
        let goal = deltas(before@, after@);
        assert forall|key: Seq<char>| #[trigger] changes@.contains_key(key) == goal.contains_key(key) by {
            if changes@.contains_key(key) {
                let k = crate::string_map::key_index(changes.items@, key);
                assert(changes.items@[k].0@ == key);
                assert(after.items@[k].0@ == key);
            }
            if after@.contains_key(key) {
                let k = crate::string_map::key_index(after.items@, key);
                assert(after.items@[k].0@ == key);
                assert(changes.items@[k].0@ == key);
            }
        }
        assert forall|key: Seq<char>| #[trigger] changes@.contains_key(key) implies changes@[key] == goal[key] by {
            let k = crate::string_map::key_index(changes.items@, key);
            assert(changes.items@[k].0@ == key);
            lemma_key_index(changes.items@, k);
        }
        assert(changes@ =~= goal);
    }
    changes
}

/// The texts of a control group's files, as far as they could be read.
pub struct CgroupTexts {
    pub memory_events: Option<String>,
    pub cpu_stat: Option<String>,
    pub memory_current: Option<String>,
    pub memory_peak: Option<String>,
    pub pids_current: Option<String>,
}

/// The counts that an optional text tells.
pub open spec fn optional_counts(text: Option<String>) -> Map<Seq<char>, u64> {
    match text {
        Some(t) => counts_in(lines(t@), lines(t@).len() as int),
        None => Map::empty(),
    }
}

/// The one number that an optional text holds.
pub open spec fn optional_single(text: Option<String>) -> Option<nat> {
    match text {
        Some(t) => parse_unsigned(trim(t@), u64::MAX as nat),
        None => None,
    }
}

/// The count of a key, where there is one.
pub open spec fn known_count(m: Map<Seq<char>, u64>, key: Seq<char>) -> Option<u64> {
    if m.contains_key(key) {
        Some(m[key])
    } else {
        None
    }
}

/// The counts that an optional text tells.
pub fn memory_event_counts(text: &Option<String>) -> (values: StringMap<u64>)
    ensures
        values.wf(),
        values@ == optional_counts(*text),
{
    match text {
        Some(t) => read_key_value_u64(t.as_str()),
        None => StringMap::new(),
    }
}

/// The one number that an optional text holds.
fn single(text: &Option<String>) -> (n: Option<u64>)
    ensures
        count_view(n) == optional_single(*text),
{
    match text {
        Some(t) => read_single_u64(t.as_str()),
        None => None,
    }
}

/// The count of a key, where there is one.
fn known(m: &StringMap<u64>, key: &str) -> (n: Option<u64>)
    requires
        m.wf(),
    ensures
        n == known_count(m@, key@),
{
    match m.get(key) {
        Some(n) => Some(*n),
        None => None,
    }
}

/// What a control group tells; `before` gives the memory events to compare with.
pub fn read_cgroup_stats(path: &str, texts: &CgroupTexts, before: Option<&StringMap<u64>>) -> (stats: CgroupStats)
    requires
        before matches Some(b) ==> b.wf() && deltas_in_range(b@, optional_counts(texts.memory_events)),
    ensures
        text_view(stats.path) == Some(path@),
        stats.cpu_usage_usec == known_count(optional_counts(texts.cpu_stat), "usage_usec"@),
        stats.cpu_user_usec == known_count(optional_counts(texts.cpu_stat), "user_usec"@),
        stats.cpu_system_usec == known_count(optional_counts(texts.cpu_stat), "system_usec"@),
        count_view(stats.memory_current_bytes) == optional_single(texts.memory_current),
        count_view(stats.memory_peak_bytes) == optional_single(texts.memory_peak),
        count_view(stats.pids_current) == optional_single(texts.pids_current),
        stats.memory_events.wf(),
        stats.memory_events@ == optional_counts(texts.memory_events),
        stats.memory_events_delta.wf(),
        stats.memory_events_delta@ == match before {
            Some(b) => deltas(b@, optional_counts(texts.memory_events)),
            None => Map::empty(),
        },
{
    let memory_events = memory_event_counts(&texts.memory_events);
    let memory_events_delta = match before {
        Some(b) => diff_u64_maps(b, &memory_events),
        None => StringMap::new(),
    };
    let cpu = memory_event_counts(&texts.cpu_stat);
    CgroupStats {
        path: Some(path.to_string()),
        cpu_usage_usec: known(&cpu, "usage_usec"),
        cpu_user_usec: known(&cpu, "user_usec"),
        cpu_system_usec: known(&cpu, "system_usec"),
        memory_current_bytes: single(&texts.memory_current),
        memory_peak_bytes: single(&texts.memory_peak),
        memory_events,
        memory_events_delta,
        pids_current: single(&texts.pids_current),
    }
}

} // verus!
