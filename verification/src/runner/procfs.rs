//! What `/proc` tells of processes.

use crate::number::{parse_number, parse_unsigned};
use crate::text::{
    char_views, chars_of, lines, lines_of, matches_at, occurs_at, slice_of, trim, trimmed, words,
    words_of,
};
use vstd::prelude::*;

verus! {

/// The last position of a character among the first `n`, or minus one.
pub open spec fn last_position(s: Seq<char>, c: char, n: int) -> int
    decreases n,
{
    if n <= 0 {
        -1
    } else if s[n - 1] == c {
        n - 1
    } else {
        last_position(s, c, n - 1)
    }
}

/// The parent that a process's `stat` text names: the second word after the
/// last closing bracket, which ends the command's name.
pub open spec fn parent_in(stat: Seq<char>) -> Option<nat> {
    let end = last_position(stat, ')', stat.len() as int);
    if end < 0 {
        None
    } else {
        let fields = words(stat.skip(end + 1));
        if fields.len() > 1 {
            parse_unsigned(fields[1], u32::MAX as nat)
        } else {
            None
        }
    }
}

/// The value of an optional number.
pub open spec fn count_view(n: Option<u64>) -> Option<nat> {
    match n {
        Some(n) => Some(n as nat),
        None => None,
    }
}

/// The value of an optional process number.
pub open spec fn pid_view(n: Option<u32>) -> Option<nat> {
    match n {
        Some(n) => Some(n as nat),
        None => None,
    }
}

/// The parent that a process's `stat` text names.
pub fn read_ppid(stat: &str) -> (ppid: Option<u32>)
    ensures
        pid_view(ppid) == parent_in(stat@),
{
    let chars = chars_of(stat);
    let mut at: usize = chars.len();
    while at > 0 && chars[at - 1] != ')'
        invariant
            chars@ == stat@,
            at <= chars@.len(),
            last_position(stat@, ')', chars@.len() as int) == last_position(stat@, ')', at as int),
        decreases at,
    {
        at = at - 1;
    }
    if at == 0 {
        return None;
    }
    let tail = slice_of(chars.as_slice(), at, chars.len());
    assert(tail@ =~= stat@.skip(at as int));
    let fields = words_of(tail.as_slice());
    assert(char_views(fields@).len() == fields@.len());
    if fields.len() > 1 {
        assert(char_views(fields@)[1] == fields@[1]@);
        match parse_number(fields[1].as_slice(), u32::MAX as u64) {
            Some(n) => Some(n as u32),
            None => None,
        }
    } else {
        None
    }
}

/// What follows a prefix; nothing where the text does not start with it.
pub open spec fn after_prefix(s: Seq<char>, prefix: Seq<char>) -> Option<Seq<char>> {
    if occurs_at(s, prefix, 0) {
        Some(s.skip(prefix.len() as int))
    } else {
        None
    }
}

/// The value of an optional list of characters.
pub open spec fn chars_view(s: Option<Vec<char>>) -> Option<Seq<char>> {
    match s {
        Some(s) => Some(s@),
        None => None,
    }
}

/// What follows a prefix.
fn strip_prefix(s: &[char], prefix: &str) -> (rest: Option<Vec<char>>)
    ensures
        chars_view(rest) == after_prefix(s@, prefix@),
{
    let start = chars_of(prefix);
    if matches_at(s, start.as_slice(), 0) {
        let rest = slice_of(s, start.len(), s.len());
        assert(rest@ =~= s@.skip(prefix@.len() as int));
        Some(rest)
    } else {
        None
    }
}

/// The resident memory that the lines of a `status` text tell, from line `i`
/// on: the first word of the first `VmRSS:` line; zero where there is none.
pub open spec fn rss_from(list: Seq<Seq<char>>, i: int) -> Option<nat>
    decreases list.len() - i,
{
    if i >= list.len() {
        Some(0)
    } else {
        match after_prefix(list[i], "VmRSS:"@) {
            Some(value) => if words(value).len() > 0 {
                parse_unsigned(words(value)[0], u64::MAX as nat)
            } else {
                None
            },
            None => rss_from(list, i + 1),
        }
    }
}

/// The resident memory that a `status` text tells, in kilobytes.
pub fn read_status_rss_kb(status: &str) -> (rss: Option<u64>)
    ensures
        count_view(rss) == rss_from(lines(status@), 0),
{
    let chars = chars_of(status);
    let found = lines_of(chars.as_slice());
    let ghost list = lines(status@);
    for i in 0..found.len()
        invariant
            list == char_views(found@),
            list == lines(status@),
            rss_from(list, 0) == rss_from(list, i as int),
    {
        assert(list[i as int] == found@[i as int]@);
        if let Some(value) = strip_prefix(found[i].as_slice(), "VmRSS:") {
            let parts = words_of(value.as_slice());
            assert(char_views(parts@).len() == parts@.len());
            if parts.len() > 0 {
                assert(char_views(parts@)[0] == parts@[0]@);
                return parse_number(parts[0].as_slice(), u64::MAX);
            }
            return None;
        }
    }
    Some(0)
}

/// The bytes read and written that the first `n` lines of an `io` text tell;
/// nothing once a line holds no number.
pub open spec fn io_bytes(list: Seq<Seq<char>>, n: int) -> Option<(nat, nat)>
    decreases n,
{
    if n <= 0 {
        Some((0, 0))
    } else {
        match io_bytes(list, n - 1) {
            None => None,
            Some((read, written)) => match after_prefix(list[n - 1], "read_bytes:"@) {
                Some(value) => match parse_unsigned(trim(value), u64::MAX as nat) {
                    Some(v) => Some((v, written)),
                    None => None,
                },
                None => match after_prefix(list[n - 1], "write_bytes:"@) {
                    Some(value) => match parse_unsigned(trim(value), u64::MAX as nat) {
                        Some(v) => Some((read, v)),
                        None => None,
                    },
                    None => Some((read, written)),
                },
            },
        }
    }
}

proof fn lemma_io_stays_none(list: Seq<Seq<char>>, i: int, n: int)
    requires
        0 <= i <= n,
        io_bytes(list, i) is None,
    ensures
        io_bytes(list, n) is None,
    decreases n - i,
{
    if i < n {
        lemma_io_stays_none(list, i, n - 1);
    }
}

/// The value of an optional pair of numbers.
pub open spec fn pair_view(p: Option<(u64, u64)>) -> Option<(nat, nat)> {
    match p {
        Some((a, b)) => Some((a as nat, b as nat)),
        None => None,
    }
}

/// The bytes read and written that an `io` text tells.
pub fn read_io_bytes(io: &str) -> (bytes: Option<(u64, u64)>)
    ensures
        pair_view(bytes) == io_bytes(lines(io@), lines(io@).len() as int),
{
    let chars = chars_of(io);
    let found = lines_of(chars.as_slice());
    let ghost list = lines(io@);
    let mut read: u64 = 0;
    let mut written: u64 = 0;
    assert(list.len() == found@.len());
    for i in 0..found.len()
        invariant
            list == char_views(found@),
            list == lines(io@),
            io_bytes(list, i as int) == Some((read as nat, written as nat)),
    {
        assert(list[i as int] == found@[i as int]@);
        if let Some(value) = strip_prefix(found[i].as_slice(), "read_bytes:") {
            let number = trimmed(value.as_slice());
            match parse_number(number.as_slice(), u64::MAX) {
                Some(v) => {
                    read = v;
                },
                None => {
                    proof {
                        lemma_io_stays_none(list, i + 1, list.len() as int);
                    }
                    return None;
                },
            }
        } else if let Some(value) = strip_prefix(found[i].as_slice(), "write_bytes:") {
            let number = trimmed(value.as_slice());
            match parse_number(number.as_slice(), u64::MAX) {
                Some(v) => {
                    written = v;
                },
                None => {
                    proof {
                        lemma_io_stays_none(list, i + 1, list.len() as int);
                    }
                    return None;
                },
            }
        }
    }
    Some((read, written))
}

/// The process is reached from the root by at most `n` steps from parent to
/// child. Each pair names a process and its parent.
pub open spec fn reached(pairs: Seq<(u32, u32)>, root: u32, pid: u32, n: nat) -> bool
    decreases n,
{
    pid == root || (n > 0 && exists|k: int|
        0 <= k < pairs.len() && (#[trigger] pairs[k]).0 == pid && reached(pairs, root, pairs[k].1, (n - 1) as nat))
}

/// The process is the root or one of its descendants.
pub open spec fn in_tree(pairs: Seq<(u32, u32)>, root: u32, pid: u32) -> bool {
    exists|n: nat| reached(pairs, root, pid, n)
}

/// Distinct processes of the tree are no more than the pairs and the root.
proof fn lemma_tree_size(pairs: Seq<(u32, u32)>, root: u32, pids: Seq<u32>)
    requires
        pids.no_duplicates(),
        forall|i: int| 0 <= i < pids.len() ==> (#[trigger] pids[i]) == root || exists|k: int| 0 <= k < pairs.len() && (#[trigger] pairs[k]).0 == pids[i],
    ensures
        pids.len() <= pairs.len() + 1,
{
    let names = pairs.map_values(|p: (u32, u32)| p.0).push(root);
    pids.unique_seq_to_set();
    names.lemma_cardinality_of_set();
    assert(pids.to_set().subset_of(names.to_set())) by {
        assert forall|p: u32| pids.to_set().contains(p) implies names.to_set().contains(p) by {
            let i = choose|i: int| 0 <= i < pids.len() && pids[i] == p;
            assert(pids[i] == p);
            if p == root {
                assert(names[pairs.len() as int] == p);
            } else {
                let k = choose|k: int| 0 <= k < pairs.len() && (#[trigger] pairs[k]).0 == p;
                assert(names[k] == p);
            }
        }
    }
    vstd::seq_lib::seq_to_set_is_finite(names);
    vstd::set_lib::lemma_len_subset(pids.to_set(), names.to_set());
}

/// A set of processes that holds the root and the children of its members holds the whole tree.
proof fn lemma_closed(pairs: Seq<(u32, u32)>, root: u32, pids: Seq<u32>, pid: u32, n: nat)
    requires
        pids.contains(root),
        forall|k: int| 0 <= k < pairs.len() && pids.contains((#[trigger] pairs[k]).1) ==> pids.contains(pairs[k].0),
        reached(pairs, root, pid, n),
    ensures
        pids.contains(pid),
    decreases n,
{
    if pid != root {
        let k = choose|k: int|
            0 <= k < pairs.len() && (#[trigger] pairs[k]).0 == pid && reached(pairs, root, pairs[k].1, (n - 1) as nat);
        lemma_closed(pairs, root, pids, pairs[k].1, (n - 1) as nat);
    }
}

/// Whether a list holds a number.
fn holds_pid(pids: &Vec<u32>, pid: u32) -> (r: bool)
    ensures
        r == pids@.contains(pid),
{
    for i in 0..pids.len()
        invariant
            forall|k: int| 0 <= k < i ==> pids@[k] != pid,
    {
        if pids[i] == pid {
            assert(pids@[i as int] == pid);
            return true;
        }
    }
    false
}

/// The root and all its descendants, each once, the root first. Each pair
/// names a process and its parent.
pub fn process_tree(root: u32, pairs: &[(u32, u32)]) -> (pids: Vec<u32>)
    ensures
        pids@.len() > 0,
        pids@[0] == root,
        pids@.no_duplicates(),
        forall|pid: u32| #[trigger] pids@.contains(pid) <==> in_tree(pairs@, root, pid),
{
    let mut pids: Vec<u32> = Vec::new();
    pids.push(root);
    let mut head: usize = 0;
    assert(pids@[0] == root);
    assert(reached(pairs@, root, root, 0));
    proof {
        lemma_tree_size(pairs@, root, pids@);
    }
    while head < pids.len()
        invariant
            head <= pids@.len(),
            pids@.len() > 0,
            pids@[0] == root,
            pids@.no_duplicates(),
            pids@.len() <= pairs@.len() + 1,
            forall|i: int| 0 <= i < pids@.len() ==> in_tree(pairs@, root, #[trigger] pids@[i]),
            forall|i: int| 0 <= i < pids@.len() ==> (#[trigger] pids@[i]) == root || exists|k: int| 0 <= k < pairs@.len() && (#[trigger] pairs@[k]).0 == pids@[i],
            forall|i: int, k: int|
                0 <= i < head && 0 <= k < pairs@.len() && (#[trigger] pairs@[k]).1 == (#[trigger] pids@[i]) ==> pids@.contains(pairs@[k].0),
        decreases pairs@.len() + 1 - head,
    {
        let parent: u32 = pids[head];
        let ghost n = choose|n: nat| reached(pairs@, root, parent, n);
        assert(in_tree(pairs@, root, pids@[head as int]));
        for j in 0..pairs.len()
            invariant
                head < pids@.len(),
                pids@[0] == root,
                pids@[head as int] == parent,
                reached(pairs@, root, parent, n),
                pids@.no_duplicates(),
                pids@.len() <= pairs@.len() + 1,
                forall|i: int| 0 <= i < pids@.len() ==> in_tree(pairs@, root, #[trigger] pids@[i]),
                forall|i: int| 0 <= i < pids@.len() ==> (#[trigger] pids@[i]) == root || exists|k: int| 0 <= k < pairs@.len() && (#[trigger] pairs@[k]).0 == pids@[i],
                forall|i: int, k: int|
                    0 <= i < head && 0 <= k < pairs@.len() && (#[trigger] pairs@[k]).1 == (#[trigger] pids@[i]) ==> pids@.contains(pairs@[k].0),
                forall|k: int| 0 <= k < j && (#[trigger] pairs@[k]).1 == parent ==> pids@.contains(pairs@[k].0),
        {
            let child: u32 = pairs[j].0;
            if pairs[j].1 == parent && !holds_pid(&pids, child) {
                let ghost earlier = pids@;
                pids.push(child);
                proof {
                    assert(pids@ == earlier.push(child));
                    assert(reached(pairs@, root, child, (n + 1) as nat)) by {
                        assert(pairs@[j as int].0 == child);
                    }
                    assert(in_tree(pairs@, root, child));
                    assert forall|p: u32| earlier.contains(p) implies #[trigger] pids@.contains(p) by {
                        let i = choose|i: int| 0 <= i < earlier.len() && earlier[i] == p;
                        assert(pids@[i] == p);
                    }
                    assert(pids@[earlier.len() as int] == child);
                    assert(pids@.contains(child));
                    assert forall|i: int| 0 <= i < pids@.len() implies (#[trigger] pids@[i]) == root || exists|k: int| 0 <= k < pairs@.len() && (#[trigger] pairs@[k]).0 == pids@[i] by {
                        if i < earlier.len() {
                            assert(pids@[i] == earlier[i]);
                        } else {
                            assert(pairs@[j as int].0 == pids@[i]);
                        }
                    }
                    assert forall|i: int| 0 <= i < pids@.len() implies in_tree(pairs@, root, #[trigger] pids@[i]) by {
                        if i < earlier.len() {
                            assert(pids@[i] == earlier[i]);
                        }
                    }
                    assert forall|i: int, k: int| 0 <= i < head && 0 <= k < pairs@.len() && (#[trigger] pairs@[k]).1 == (#[trigger] pids@[i]) implies pids@.contains(pairs@[k].0) by {
                        assert(pids@[i] == earlier[i]);
                    }
                    lemma_tree_size(pairs@, root, pids@);
                }
            }
        }
        head = head + 1;
    }
    proof {
        assert(pids@.contains(root)) by {
            assert(pids@[0] == root);
        }
        assert forall|k: int| 0 <= k < pairs@.len() && pids@.contains((#[trigger] pairs@[k]).1) implies pids@.contains(pairs@[k].0) by {
            let i = choose|i: int| 0 <= i < pids@.len() && pids@[i] == pairs@[k].1;
            assert(pids@[i] == pairs@[k].1);
        }
        assert forall|pid: u32| #[trigger] pids@.contains(pid) <==> in_tree(pairs@, root, pid) by {
            if pids@.contains(pid) {
                let i = choose|i: int| 0 <= i < pids@.len() && pids@[i] == pid;
                assert(in_tree(pairs@, root, pids@[i]));
            }
            if in_tree(pairs@, root, pid) {
                let n = choose|n: nat| reached(pairs@, root, pid, n);
                lemma_closed(pairs@, root, pids@, pid, n);
            }
        }
    }
    pids
}

/// What `/proc` told of one process, as far as it could be read.
#[derive(Debug, Clone, Copy, PartialEq, Eq)]
pub struct ProcFacts {
    pub rss_kb: Option<u64>,
    pub io_bytes: Option<(u64, u64)>,
}

/// What a tree of processes uses together.
#[derive(Debug, PartialEq, Eq)]
pub struct ProcSample {
    pub pids: Vec<u32>,
    pub rss_kb: u64,
    pub read_bytes: u64,
    pub write_bytes: u64,
}

/// The memory of the first `n` processes together.
pub open spec fn total_rss(facts: Seq<ProcFacts>, n: int) -> nat
    decreases n,
{
    if n <= 0 {
        0
    } else {
        total_rss(facts, n - 1) + match facts[n - 1].rss_kb {
            Some(v) => v as nat,
            None => 0,
        }
    }
}

/// The bytes read by the first `n` processes together.
pub open spec fn total_read(facts: Seq<ProcFacts>, n: int) -> nat
    decreases n,
{
    if n <= 0 {
        0
    } else {
        total_read(facts, n - 1) + match facts[n - 1].io_bytes {
            Some((v, _)) => v as nat,
            None => 0,
        }
    }
}

/// The bytes written by the first `n` processes together.
pub open spec fn total_written(facts: Seq<ProcFacts>, n: int) -> nat
    decreases n,
{
    if n <= 0 {
        0
    } else {
        total_written(facts, n - 1) + match facts[n - 1].io_bytes {
            Some((_, v)) => v as nat,
            None => 0,
        }
    }
}

/// The totals fit their counters.
pub open spec fn totals_fit(facts: Seq<ProcFacts>) -> bool {
    &&& total_rss(facts, facts.len() as int) <= u64::MAX
    &&& total_read(facts, facts.len() as int) <= u64::MAX
    &&& total_written(facts, facts.len() as int) <= u64::MAX
}

proof fn lemma_totals_grow(facts: Seq<ProcFacts>, i: int, n: int)
    requires
        0 <= i <= n <= facts.len(),
    ensures
        total_rss(facts, i) <= total_rss(facts, n),
        total_read(facts, i) <= total_read(facts, n),
        total_written(facts, i) <= total_written(facts, n),
    decreases n - i,
{
    if i < n {
        lemma_totals_grow(facts, i, n - 1);
    }
}

/// What a tree of processes uses together.
pub fn proc_sample(pids: Vec<u32>, facts: &[ProcFacts]) -> (sample: ProcSample)
    requires
        totals_fit(facts@),
    ensures
        sample.pids == pids,
        sample.rss_kb == total_rss(facts@, facts@.len() as int),
        sample.read_bytes == total_read(facts@, facts@.len() as int),
        sample.write_bytes == total_written(facts@, facts@.len() as int),
{
    let mut rss_kb: u64 = 0;
    let mut read_bytes: u64 = 0;
    let mut write_bytes: u64 = 0;
    for i in 0..facts.len()
        invariant
            totals_fit(facts@),
            rss_kb == total_rss(facts@, i as int),
            read_bytes == total_read(facts@, i as int),
            write_bytes == total_written(facts@, i as int),
    {
        proof {
            lemma_totals_grow(facts@, i + 1, facts@.len() as int);
        }
        if let Some(v) = facts[i].rss_kb {
            rss_kb = rss_kb + v;
        }
        if let Some((r, w)) = facts[i].io_bytes {
            read_bytes = read_bytes + r;
            write_bytes = write_bytes + w;
        }
    }
    ProcSample { pids, rss_kb, read_bytes, write_bytes }
}

} // verus!
