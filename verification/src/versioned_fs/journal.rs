//! The redo journal of a run, and its replay.

use crate::run_id::RunId;
use crate::string_map::StringMap;
use crate::text::{chars_of, lines, lines_of, string_of, trim, trimmed, views};
use crate::versioned_fs::diff::{
    change_views, ChangeView, WorkspaceChange, WorkspaceChangeKind, WorkspaceDiff,
};
use crate::versioned_fs::entry::{
    clone_entries, clone_entry, clone_text, entry_view, manifest, text_view, EntryView,
    WorkspaceEntry,
};
use crate::versioned_fs::error::{FsError, FsErrorView};
use vstd::prelude::*;

verus! {

/// The version of the journal's event format.
pub const FS_JOURNAL_SCHEMA_VERSION: u32 = 1;

/// What a journal event does to its path.
#[derive(Debug, Clone, Copy, PartialEq, Eq, Structural)]
pub enum WorkspaceJournalOp {
    CreateFile,
    WriteFile,
    DeletePath,
    RenamePath,
    TypeChange,
}

/// The operation that redoes a change of this kind.
pub open spec fn journal_op(kind: WorkspaceChangeKind) -> WorkspaceJournalOp {
    match kind {
        WorkspaceChangeKind::Added => WorkspaceJournalOp::CreateFile,
        WorkspaceChangeKind::Modified => WorkspaceJournalOp::WriteFile,
        WorkspaceChangeKind::Deleted => WorkspaceJournalOp::DeletePath,
        WorkspaceChangeKind::Renamed => WorkspaceJournalOp::RenamePath,
        WorkspaceChangeKind::TypeChanged => WorkspaceJournalOp::TypeChange,
    }
}

impl From<&WorkspaceChangeKind> for WorkspaceJournalOp {
    fn from(kind: &WorkspaceChangeKind) -> (op: Self) {
        match kind {
            WorkspaceChangeKind::Added => WorkspaceJournalOp::CreateFile,
            WorkspaceChangeKind::Modified => WorkspaceJournalOp::WriteFile,
            WorkspaceChangeKind::Deleted => WorkspaceJournalOp::DeletePath,
            WorkspaceChangeKind::Renamed => WorkspaceJournalOp::RenamePath,
            WorkspaceChangeKind::TypeChanged => WorkspaceJournalOp::TypeChange,
        }
    }
}

impl vstd::std_specs::convert::FromSpecImpl<&WorkspaceChangeKind> for WorkspaceJournalOp {
    open spec fn obeys_from_spec() -> bool {
        true
    }

    open spec fn from_spec(kind: &WorkspaceChangeKind) -> Self {
        journal_op(*kind)
    }
}

/// One event of a run's journal.
#[derive(Debug, PartialEq, Eq)]
pub struct WorkspaceJournalEvent {
    pub schema_version: u32,
    pub seq: usize,
    pub ts: u128,
    pub run_id: RunId,
    pub op: WorkspaceJournalOp,
    pub path: String,
    pub source_path: Option<String>,
    pub base_checkpoint: String,
    pub target_checkpoint: String,
    pub before: Option<WorkspaceEntry>,
    pub after: Option<WorkspaceEntry>,
}

/// The mathematical value of an event.
pub struct JournalEventView {
    pub schema_version: u32,
    pub seq: nat,
    pub ts: nat,
    pub run_id: RunId,
    pub op: WorkspaceJournalOp,
    pub path: Seq<char>,
    pub source_path: Option<Seq<char>>,
    pub base_checkpoint: Seq<char>,
    pub target_checkpoint: Seq<char>,
    pub before: Option<EntryView>,
    pub after: Option<EntryView>,
}

impl View for WorkspaceJournalEvent {
    type V = JournalEventView;

    open spec fn view(&self) -> JournalEventView {
        JournalEventView {
            schema_version: self.schema_version,
            seq: self.seq as nat,
            ts: self.ts as nat,
            run_id: self.run_id,
            op: self.op,
            path: self.path@,
            source_path: text_view(self.source_path),
            base_checkpoint: self.base_checkpoint@,
            target_checkpoint: self.target_checkpoint@,
            before: entry_view(self.before),
            after: entry_view(self.after),
        }
    }
}

/// The values of a list of events.
pub open spec fn event_views(events: Seq<WorkspaceJournalEvent>) -> Seq<JournalEventView> {
    events.map_values(|e: WorkspaceJournalEvent| e@)
}

/// The event that records the change at `index` of a diff, written at time `ts`.
pub open spec fn event_of(
    run_id: RunId,
    from: Seq<char>,
    to: Seq<char>,
    change: ChangeView,
    index: int,
    ts: nat,
) -> JournalEventView {
    JournalEventView {
        schema_version: FS_JOURNAL_SCHEMA_VERSION,
        seq: (index + 1) as nat,
        ts,
        run_id,
        op: journal_op(change.kind),
        path: change.path,
        source_path: change.source_path,
        base_checkpoint: from,
        target_checkpoint: to,
        before: change.before,
        after: change.after,
    }
}

/// The journal of a list of changes: one event for each, numbered from one.
pub open spec fn journal_of(
    run_id: RunId,
    from: Seq<char>,
    to: Seq<char>,
    changes: Seq<ChangeView>,
    stamps: Seq<u128>,
) -> Seq<JournalEventView> {
    Seq::new(
        changes.len(),
        |i: int| event_of(run_id, from, to, changes[i], i, stamps[i] as nat),
    )
}

/// The event for the change at `index`, written at time `ts`.
pub fn journal_event(run_id: RunId, diff: &WorkspaceDiff, index: usize, ts: u128) -> (event: WorkspaceJournalEvent)
    requires
        index < diff.changes@.len(),
    ensures
        event@ == event_of(
            run_id,
            diff.from@,
            diff.to@,
            diff.changes@[index as int]@,
            index as int,
            ts as nat,
        ),
{
    let change: &WorkspaceChange = &diff.changes[index];
    assert(diff.changes.len() <= usize::MAX);
    WorkspaceJournalEvent {
        schema_version: FS_JOURNAL_SCHEMA_VERSION,
        seq: index + 1,
        ts,
        run_id,
        op: WorkspaceJournalOp::from(&change.kind),
        path: change.path.clone(),
        source_path: clone_text(&change.source_path),
        base_checkpoint: diff.from.clone(),
        target_checkpoint: diff.to.clone(),
        before: clone_entry(&change.before),
        after: clone_entry(&change.after),
    }
}

/// The journal of a diff; `stamps` gives the time at which each event is written.
pub fn journal_events(run_id: RunId, diff: &WorkspaceDiff, stamps: &[u128]) -> (events: Vec<WorkspaceJournalEvent>)
    requires
        stamps@.len() == diff.changes@.len(),
    ensures
        event_views(events@) == journal_of(
            run_id,
            diff.from@,
            diff.to@,
            change_views(diff.changes@),
            stamps@,
        ),
{
    let mut events: Vec<WorkspaceJournalEvent> = Vec::new();
    for i in 0..diff.changes.len()
        invariant
            stamps@.len() == diff.changes@.len(),
            events@.len() == i,
            forall|k: int|
                0 <= k < i ==> (#[trigger] events@[k])@ == event_of(
                    run_id,
                    diff.from@,
                    diff.to@,
                    diff.changes@[k]@,
                    k,
                    stamps@[k] as nat,
                ),
    {
        events.push(journal_event(run_id, diff, i, stamps[i]));
    }
    assert(event_views(events@) =~= journal_of(
        run_id,
        diff.from@,
        diff.to@,
        change_views(diff.changes@),
        stamps@,
    ));
    events
}

/// The manifest after an event; nothing where a rename names no source.
pub open spec fn redo(m: Map<Seq<char>, EntryView>, e: JournalEventView) -> Option<Map<Seq<char>, EntryView>> {
    match e.op {
        WorkspaceJournalOp::CreateFile
        | WorkspaceJournalOp::WriteFile
        | WorkspaceJournalOp::TypeChange => Some(bound(m, e.path, e.after)),
        WorkspaceJournalOp::DeletePath => Some(m.remove(e.path)),
        WorkspaceJournalOp::RenamePath => match e.source_path {
            None => None,
            Some(source) => Some(
                match e.after {
                    Some(after) => m.remove(source).insert(e.path, after),
                    None => m.remove(source),
                },
            ),
        },
    }
}

/// The manifest in which a path has the given entry, or is absent.
pub open spec fn bound(
    m: Map<Seq<char>, EntryView>,
    path: Seq<char>,
    entry: Option<EntryView>,
) -> Map<Seq<char>, EntryView> {
    match entry {
        Some(e) => m.insert(path, e),
        None => m.remove(path),
    }
}

/// Inserting an entry inserts its value in the manifest.
proof fn lemma_manifest_insert(entries: Map<Seq<char>, WorkspaceEntry>, path: Seq<char>, entry: WorkspaceEntry)
    ensures
        manifest(entries.insert(path, entry)) == manifest(entries).insert(path, entry@),
        manifest(entries.remove(path)) == manifest(entries).remove(path),
{
    assert(manifest(entries.insert(path, entry)) =~= manifest(entries).insert(path, entry@));
    assert(manifest(entries.remove(path)) =~= manifest(entries).remove(path));
}

/// Removing an entry removes its value from the manifest.
proof fn lemma_manifest_remove(entries: Map<Seq<char>, WorkspaceEntry>, path: Seq<char>)
    ensures
        manifest(entries.remove(path)) == manifest(entries).remove(path),
{
    assert(manifest(entries.remove(path)) =~= manifest(entries).remove(path));
}

/// Redoes one event on a manifest.
pub fn apply_journal_event(entries: &mut StringMap<WorkspaceEntry>, event: &WorkspaceJournalEvent) -> (result: Result<(), FsError>)
    requires
        old(entries).wf(),
    ensures
        final(entries).wf(),
        match redo(manifest(old(entries)@), event@) {
            Some(m) => result is Ok && manifest(final(entries)@) == m,
            None => result matches Err(e) && e@ == FsErrorView::MissingRenameSource(event@.seq)
                && final(entries)@ == old(entries)@,
        },
{
    match event.op {
        WorkspaceJournalOp::CreateFile
        | WorkspaceJournalOp::WriteFile
        | WorkspaceJournalOp::TypeChange => {
            match &event.after {
                Some(after) => {
                    proof {
                        lemma_manifest_insert(entries@, event.path@, *after);
                    }
                    entries.insert(event.path.clone(), after.clone());
                },
                None => {
                    proof {
                        lemma_manifest_remove(entries@, event.path@);
                    }
                    entries.remove(event.path.as_str());
                },
            }
            Ok(())
        },
        WorkspaceJournalOp::DeletePath => {
            proof {
                lemma_manifest_remove(entries@, event.path@);
            }
            entries.remove(event.path.as_str());
            Ok(())
        },
        WorkspaceJournalOp::RenamePath => match &event.source_path {
            None => Err(FsError::MissingRenameSource(event.seq)),
            Some(source) => {
                proof {
                    lemma_manifest_remove(entries@, source@);
                }
                entries.remove(source.as_str());
                if let Some(after) = &event.after {
                    proof {
                        lemma_manifest_insert(entries@, event.path@, *after);
                    }
                    entries.insert(event.path.clone(), after.clone());
                }
                Ok(())
            },
        },
    }
}

/// The number and the time are within the limits, where there are any.
pub open spec fn within(seq: nat, ts: nat, until_seq: Option<usize>, until_ts: Option<u128>) -> bool {
    &&& until_seq matches Some(limit) ==> seq <= limit
    &&& until_ts matches Some(limit) ==> ts <= limit
}

/// Whether a number and a time are within the limits.
pub fn within_limit(seq: usize, ts: u128, until_seq: Option<usize>, until_ts: Option<u128>) -> (r: bool)
    ensures
        r == within(seq as nat, ts as nat, until_seq, until_ts),
{
    (match until_seq {
        Some(limit) => seq <= limit,
        None => true,
    }) && (match until_ts {
        Some(limit) => ts <= limit,
        None => true,
    })
}

/// Whether an event is to be replayed under the limits.
pub fn journal_event_within_limit(event: &WorkspaceJournalEvent, until_seq: Option<usize>, until_ts: Option<u128>) -> (r: bool)
    ensures
        r == within(event@.seq, event@.ts, until_seq, until_ts),
{
    within_limit(event.seq, event.ts, until_seq, until_ts)
}

/// The manifest and the number of applied events after those of the first `n`
/// events that are within the limits; the number of the event that cannot be
/// redone, where there is one.
pub open spec fn replayed(
    base: Map<Seq<char>, EntryView>,
    events: Seq<JournalEventView>,
    until_seq: Option<usize>,
    until_ts: Option<u128>,
    n: int,
) -> Result<(Map<Seq<char>, EntryView>, nat), nat>
    decreases n,
{
    if n <= 0 {
        Ok((base, 0))
    } else {
        let e = events[n - 1];
        match replayed(base, events, until_seq, until_ts, n - 1) {
            Err(seq) => Err(seq),
            Ok((m, applied)) => if within(e.seq, e.ts, until_seq, until_ts) {
                match redo(m, e) {
                    Some(next) => Ok((next, applied + 1)),
                    None => Err(e.seq),
                }
            } else {
                Ok((m, applied))
            },
        }
    }
}

/// A replay that fails has failed at its first bad event.
proof fn lemma_replay_stays_failed(
    base: Map<Seq<char>, EntryView>,
    events: Seq<JournalEventView>,
    until_seq: Option<usize>,
    until_ts: Option<u128>,
    i: int,
    n: int,
)
    requires
        0 <= i <= n,
        replayed(base, events, until_seq, until_ts, i) is Err,
    ensures
        replayed(base, events, until_seq, until_ts, n) == replayed(base, events, until_seq, until_ts, i),
    decreases n - i,
{
    if i < n {
        lemma_replay_stays_failed(base, events, until_seq, until_ts, i, n - 1);
    }
}

/// Replays the events that are within the limits on a copy of the base manifest.
pub fn replay_events(
    base: &StringMap<WorkspaceEntry>,
    events: &[WorkspaceJournalEvent],
    until_seq: Option<usize>,
    until_ts: Option<u128>,
) -> (result: Result<(StringMap<WorkspaceEntry>, usize), FsError>)
    requires
        base.wf(),
    ensures
        match replayed(manifest(base@), event_views(events@), until_seq, until_ts, events@.len() as int) {
            Ok((m, applied)) => result matches Ok(r) && r.0.wf() && manifest(r.0@) == m && r.1 == applied,
            Err(seq) => result matches Err(e) && e@ == FsErrorView::MissingRenameSource(seq),
        },
{
    let mut entries = clone_entries(base);
    let mut applied: usize = 0;
    let ghost list = event_views(events@);
    for i in 0..events.len()
        invariant
            base.wf(),
            entries.wf(),
            list == event_views(events@),
            applied <= i,
            replayed(manifest(base@), list, until_seq, until_ts, i as int) == Ok::<
                (Map<Seq<char>, EntryView>, nat),
                nat,
            >((manifest(entries@), applied as nat)),
    {
        let event = &events[i];
        assert(list[i as int] == event@);
        if journal_event_within_limit(event, until_seq, until_ts) {
            match apply_journal_event(&mut entries, event) {
                Ok(_) => {
                    applied = applied + 1;
                },
                Err(e) => {
                    proof {
                        lemma_replay_stays_failed(manifest(base@), list, until_seq, until_ts, i + 1, events@.len() as int);
                    }
                    return Err(e);
                },
            }
        }
    }
    Ok((entries, applied))
}

/// The lines of a journal file that hold an event: those that are not blank.
pub open spec fn event_lines(text: Seq<char>) -> Seq<Seq<char>> {
    lines(text).filter(|line: Seq<char>| trim(line).len() > 0)
}

/// The lines of a journal file that hold an event.
pub fn journal_lines(text: &str) -> (found: Vec<String>)
    ensures
        views(found@) == event_lines(text@),
{
    let chars = chars_of(text);
    let all = lines_of(chars.as_slice());
    let ghost whole = lines(text@);
    let ghost keep = |line: Seq<char>| trim(line).len() > 0;
    let mut found: Vec<String> = Vec::new();
    assert(whole.take(0).filter(keep) =~= views(found@));
    for i in 0..all.len()
        invariant
            whole == lines(text@),
            whole.len() == all@.len(),
            forall|k: int| 0 <= k < all@.len() ==> (#[trigger] all@[k])@ == whole[k],
            keep == (|line: Seq<char>| trim(line).len() > 0),
            views(found@) == whole.take(i as int).filter(keep),
    {
        let line = trimmed(all[i].as_slice());
        proof {
            assert(whole.take(i + 1).drop_last() =~= whole.take(i as int));
            reveal(Seq::filter);
        }
        if line.len() > 0 {
            let ghost start = found@;
            found.push(string_of(all[i].as_slice()));
            assert(views(found@) =~= views(start).push(whole[i as int]));
        }
    }
    assert(whole.take(whole.len() as int) =~= whole);
    found
}

/// The event redoes the change.
pub open spec fn redoes(e: JournalEventView, c: ChangeView) -> bool {
    &&& e.op == journal_op(c.kind)
    &&& e.path == c.path
    &&& e.source_path == c.source_path
    &&& e.after == c.after
}

/// Prefix: replaying a journal up to number `limit` replays its first `limit` events.
pub proof fn replaying_until_a_number_replays_a_prefix(
    base: Map<Seq<char>, EntryView>,
    events: Seq<JournalEventView>,
    limit: usize,
)
    requires
        forall|i: int| 0 <= i < events.len() ==> (#[trigger] events[i]).seq == i + 1,
        limit <= events.len(),
    ensures
        replayed(base, events, Some(limit), None, events.len() as int) == replayed(
            base,
            events.take(limit as int),
            None,
            None,
            limit as int,
        ),
{
    lemma_prefix(base, events, Some(limit), None, limit as int, events.len() as int);
}

/// Prefix: where no event is older than the one before it, replaying up to a
/// time replays the events up to that time, which come first.
pub proof fn replaying_until_a_time_replays_a_prefix(
    base: Map<Seq<char>, EntryView>,
    events: Seq<JournalEventView>,
    limit: u128,
    count: int,
)
    requires
        forall|i: int, j: int| 0 <= i < j < events.len() ==> (#[trigger] events[i]).ts <= (#[trigger] events[j]).ts,
        0 <= count <= events.len(),
        count > 0 ==> events[count - 1].ts <= limit,
        count < events.len() ==> events[count].ts > limit,
    ensures
        replayed(base, events, None, Some(limit), events.len() as int) == replayed(
            base,
            events.take(count),
            None,
            None,
            count,
        ),
{
    assert forall|i: int| 0 <= i < events.len() implies ((#[trigger] events[i]).ts <= limit) == (i < count) by {
        if i < count - 1 {
            assert(events[i].ts <= events[count - 1].ts);
        } else if i > count {
            assert(events[count].ts <= events[i].ts);
        }
    }
    lemma_prefix(base, events, None, Some(limit), count, events.len() as int);
}

/// Limits that admit the first `count` events replay those.
proof fn lemma_prefix(
    base: Map<Seq<char>, EntryView>,
    events: Seq<JournalEventView>,
    until_seq: Option<usize>,
    until_ts: Option<u128>,
    count: int,
    n: int,
)
    requires
        0 <= n <= events.len(),
        0 <= count <= events.len(),
        forall|i: int|
            0 <= i < events.len() ==> within((#[trigger] events[i]).seq, events[i].ts, until_seq, until_ts) == (i < count),
    ensures
        replayed(base, events, until_seq, until_ts, n) == replayed(
            base,
            events.take(count),
            None,
            None,
            if n <= count {
                n
            } else {
                count
            },
        ),
    decreases n,
{
    if n > 0 {
        lemma_prefix(base, events, until_seq, until_ts, count, n - 1);
        assert(within(events[n - 1].seq, events[n - 1].ts, until_seq, until_ts) == (n - 1 < count));
        if n <= count {
            assert(events.take(count)[n - 1] == events[n - 1]);
        }
    }
}

} // verus!
