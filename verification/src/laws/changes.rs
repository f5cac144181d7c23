//! Differences, journals of changes, and what redoing them gives.

use crate::laws::texts::{lacks, line_feeds_end_lines};
use crate::number::decimal;
use crate::run_id::RunId;
use crate::string_map::{maps_are_finite, StringMap};
use crate::text::{before, is_space, lines, trim, views};
use crate::versioned_fs::diff::{
    change_views, count_added, count_deleted, diff_changes, diff_entries, entry_fingerprint, fingerprint,
    is_rename_source, is_rename_target, lemma_recognised_from, listing, path_changes, rename_source, renames,
    ChangeView, WorkspaceChange, WorkspaceChangeKind, WorkspaceDiff,
};
use crate::versioned_fs::diff_laws::{
    a_change_tells_the_second_manifest, a_rename_moves_equal_contents, every_changed_path_is_named, lemma_listed,
};
use crate::versioned_fs::entry::{entry_view, manifest, text_view, EntryView, WorkspaceEntry};
use crate::versioned_fs::error::FsError;
use crate::versioned_fs::journal::{
    apply_journal_event, event_lines, event_views, journal_event, journal_events, journal_lines, replay_events,
    replayed, within_limit, JournalEventView, WorkspaceJournalEvent, WorkspaceJournalOp,
};
use vstd::prelude::*;

verus! {

/// What a map records of a path.
pub open spec fn at(entries: StringMap<WorkspaceEntry>, path: Seq<char>) -> Option<EntryView> {
    if entries@.contains_key(path) {
        Some(entries@[path]@)
    } else {
        None
    }
}

proof fn lemma_at(entries: StringMap<WorkspaceEntry>, path: Seq<char>)
    ensures
        at(entries, path) == crate::versioned_fs::entry::lookup(manifest(entries@), path),
{
}

/// An entry tells whether it is a file, and of a file its size, its content and whether it may be written.
pub proof fn entries_stand_for_themselves(e: WorkspaceEntry)
    ensures
        e is Directory <==> e@ is Directory,
        e matches WorkspaceEntry::File { size, hash, object, readonly } ==> (e@ matches EntryView::File { size: s, hash: h, object: o, readonly: r }
            && s == size && h == hash@ && o == object@ && r == readonly),
{
}

/// Each change is of the kind that says what became of its path: added where it
/// was not there before, deleted where it is gone, of another type where a
/// directory and a file changed places, modified where it is there with other
/// contents, renamed where a file of the same size and content is gone from its source.
pub proof fn changes_are_what_their_kinds_say(
    from: StringMap<WorkspaceEntry>,
    to: StringMap<WorkspaceEntry>,
    changes: Vec<WorkspaceChange>,
    k: int,
)
    requires
        from.wf(),
        to.wf(),
        call_ensures(diff_entries, (&from, &to), changes),
        0 <= k < changes@.len(),
    ensures
        ({
            let c = changes@[k];
            let old_entry = at(from, c.path@);
            let new_entry = at(to, c.path@);
            &&& entry_view(c.after) == new_entry
            &&& match c.kind {
                WorkspaceChangeKind::Added => old_entry is None && new_entry is Some && c.before is None && c.source_path is None,
                WorkspaceChangeKind::Deleted => old_entry is Some && new_entry is None && entry_view(c.before) == old_entry
                    && c.source_path is None,
                WorkspaceChangeKind::Modified => old_entry is Some && new_entry is Some && old_entry != new_entry && (old_entry->0
                    is Directory <==> new_entry->0 is Directory) && entry_view(c.before) == old_entry && c.source_path is None,
                WorkspaceChangeKind::TypeChanged => old_entry is Some && new_entry is Some && !(old_entry->0 is Directory
                    <==> new_entry->0 is Directory) && entry_view(c.before) == old_entry && c.source_path is None,
                WorkspaceChangeKind::Renamed => {
                    &&& old_entry is None
                    &&& c.source_path is Some
                    &&& at(to, c.source_path->0@) is None
                    &&& equal_files(at(from, c.source_path->0@), new_entry)
                    &&& entry_view(c.before) == at(from, c.source_path->0@)
                },
            }
        }),
{
    let f = manifest(from@);
    let t = manifest(to@);
    maps_are_finite(from);
    maps_are_finite(to);
    assert(f.dom() =~= from@.dom());
    assert(t.dom() =~= to@.dom());
    let list = listing(path_changes(f, t));
    let d = diff_changes(f, t);
    assert(change_views(changes@).len() == changes@.len());
    assert(d[k] == changes@[k]@);
    lemma_listed(f, t);
    a_change_tells_the_second_manifest(f, t, k);
    let i = lemma_recognised_from(list, list.len() as int, k);
    assert(path_changes(f, t).contains_key(list[i].path));
    if d[k].kind == WorkspaceChangeKind::Renamed {
        a_rename_moves_equal_contents(f, t, k);
    } else {
        if is_rename_target(list, i) {
            assert(d[k].kind == WorkspaceChangeKind::Renamed);
        }
        assert(d[k] == list[i]);
    }
}

/// Where two maps record a path differently, a change names it, as its path or
/// as the source of a rename.
pub proof fn every_difference_is_told(
    from: StringMap<WorkspaceEntry>,
    to: StringMap<WorkspaceEntry>,
    changes: Vec<WorkspaceChange>,
    path: Seq<char>,
) -> (k: int)
    requires
        from.wf(),
        to.wf(),
        call_ensures(diff_entries, (&from, &to), changes),
        at(from, path) != at(to, path),
    ensures
        0 <= k < changes@.len(),
        changes@[k].path@ == path || (changes@[k].source_path matches Some(source) && source@ == path),
{
    let f = manifest(from@);
    let t = manifest(to@);
    maps_are_finite(from);
    maps_are_finite(to);
    assert(f.dom() =~= from@.dom());
    assert(t.dom() =~= to@.dom());
    let k = every_changed_path_is_named(f, t, path);
    assert(change_views(changes@).len() == changes@.len());
    assert(diff_changes(f, t)[k] == changes@[k]@);
    k
}

/// The changes of a diff rise by their paths. Of several renames of equal
/// files, the first source goes with the first target, and so on; and a file
/// that is only deleted, or only added, comes behind them.
pub proof fn equal_files_are_paired_in_order(
    from: StringMap<WorkspaceEntry>,
    to: StringMap<WorkspaceEntry>,
    changes: Vec<WorkspaceChange>,
    i: int,
    j: int,
)
    requires
        from.wf(),
        to.wf(),
        call_ensures(diff_entries, (&from, &to), changes),
        0 <= i < changes@.len(),
        0 <= j < changes@.len(),
    ensures
        i < j ==> before(changes@[i].path@, changes@[j].path@),
        i < j && changes@[i].kind == WorkspaceChangeKind::Renamed && changes@[j].kind == WorkspaceChangeKind::Renamed && equal_files(
            entry_view(changes@[i].after),
            entry_view(changes@[j].after),
        ) ==> before(changes@[i].source_path->0@, changes@[j].source_path->0@),
        changes@[i].kind == WorkspaceChangeKind::Renamed && changes@[j].kind == WorkspaceChangeKind::Added && equal_files(
            entry_view(changes@[i].after),
            entry_view(changes@[j].after),
        ) ==> before(changes@[i].path@, changes@[j].path@),
        changes@[i].kind == WorkspaceChangeKind::Renamed && changes@[j].kind == WorkspaceChangeKind::Deleted && equal_files(
            entry_view(changes@[i].after),
            entry_view(changes@[j].before),
        ) ==> before(changes@[i].source_path->0@, changes@[j].path@),
{
    let f = manifest(from@);
    let t = manifest(to@);
    maps_are_finite(from);
    maps_are_finite(to);
    assert(f.dom() =~= from@.dom());
    assert(t.dom() =~= to@.dom());
    let m = path_changes(f, t);
    let list = listing(m);
    let n = list.len() as int;
    let d = diff_changes(f, t);
    assert(change_views(changes@).len() == changes@.len());
    assert(d[i] == changes@[i]@);
    assert(d[j] == changes@[j]@);
    lemma_listed(f, t);
    let a = lemma_recognised_from(list, n, i);
    let b = lemma_recognised_from(list, n, j);
    assert(m.contains_key(list[a].path));
    assert(m.contains_key(list[b].path));
    if d[i].kind == WorkspaceChangeKind::Renamed {
        a_rename_moves_equal_contents(f, t, i);
        assert(is_rename_target(list, a));
        let s = rename_source(list, a);
        assert(renames(list, s, a));
        let print = fingerprint(list[a].after->0)->0;
        if d[j].kind == WorkspaceChangeKind::Renamed {
            a_rename_moves_equal_contents(f, t, j);
            assert(is_rename_target(list, b));
            let r = rename_source(list, b);
            assert(renames(list, r, b));
            if i < j && equal_files(d[i].after, d[j].after) {
                assert(before(change_views(changes@)[i].path, change_views(changes@)[j].path));
                crate::text::lemma_before_asymmetric(list[a].path, list[b].path);
                assert(a < b);
                lemma_added_strict(list, print, a, b);
                if r < s {
                    lemma_deleted_mono(list, print, r, s);
                }
                assert(s < r);
            }
        }
        if d[j].kind == WorkspaceChangeKind::Added && equal_files(d[i].after, d[j].after) {
            assert(list[b] == d[j]);
            if b < a {
                lemma_added_strict(list, print, b, a);
                let other = crate::versioned_fs::diff_laws::lemma_deleted_rank(list, print, count_added(list, print, b), s);
                assert(renames(list, other, b));
                assert(is_rename_target(list, b));
            }
            assert(a < b);
        }
        if d[j].kind == WorkspaceChangeKind::Deleted && equal_files(d[i].after, d[j].before) {
            assert(list[b] == d[j]);
            if b < s {
                lemma_deleted_strict(list, print, b, s);
                crate::versioned_fs::diff_laws::lemma_added_count_grows(list, print, a, n);
                let other = crate::versioned_fs::diff_laws::lemma_added_rank(list, print, count_deleted(list, print, b), n);
                assert(renames(list, b, other));
                assert(is_rename_source(list, b));
            }
            if b == s {
                assert(is_rename_source(list, b));
            }
            assert(s < b);
        }
    }
}

/// Both are files, of one size and one content.
pub open spec fn equal_files(a: Option<EntryView>, b: Option<EntryView>) -> bool {
    match (a, b) {
        (Some(EntryView::File { size, hash, .. }), Some(EntryView::File { size: s, hash: h, .. })) => size == s && hash == h,
        _ => false,
    }
}

proof fn lemma_added_mono(list: Seq<ChangeView>, print: Seq<char>, a: int, b: int)
    requires
        0 <= a <= b,
    ensures
        count_added(list, print, a) <= count_added(list, print, b),
    decreases b - a,
{
    if a < b {
        lemma_added_mono(list, print, a, b - 1);
    }
}

proof fn lemma_deleted_mono(list: Seq<ChangeView>, print: Seq<char>, a: int, b: int)
    requires
        0 <= a <= b,
    ensures
        count_deleted(list, print, a) <= count_deleted(list, print, b),
    decreases b - a,
{
    if a < b {
        lemma_deleted_mono(list, print, a, b - 1);
    }
}

proof fn lemma_added_strict(list: Seq<ChangeView>, print: Seq<char>, a: int, b: int)
    requires
        0 <= a < b <= list.len(),
        crate::versioned_fs::diff::added_print(list[a]) == Some(print),
    ensures
        count_added(list, print, a) < count_added(list, print, b),
{
    lemma_added_mono(list, print, a + 1, b);
}

proof fn lemma_deleted_strict(list: Seq<ChangeView>, print: Seq<char>, a: int, b: int)
    requires
        0 <= a < b <= list.len(),
        crate::versioned_fs::diff::deleted_print(list[a]) == Some(print),
    ensures
        count_deleted(list, print, a) < count_deleted(list, print, b),
{
    lemma_deleted_mono(list, print, a + 1, b);
}

/// A file is recognised by its size and its content, a directory by nothing.
pub proof fn files_are_recognised_by_size_and_content(e: WorkspaceEntry, print: Option<String>)
    requires
        call_ensures(entry_fingerprint, (&e,), print),
    ensures
        e is Directory ==> print is None,
        e matches WorkspaceEntry::File { size, hash, .. } ==> (print matches Some(text) && text@ == "file:"@ + decimal(size as nat) + ":"@ + hash@),
{
}

/// The event that records a change says what was done, to which path, at which
/// place in the diff, and between which checkpoints.
pub proof fn a_change_is_recorded_as_it_was(run_id: RunId, diff: WorkspaceDiff, index: usize, ts: u128, e: WorkspaceJournalEvent)
    requires
        index < diff.changes@.len(),
        call_ensures(journal_event, (run_id, &diff, index, ts), e),
    ensures
        ({
            let c = diff.changes@[index as int];
            &&& e.op == (match c.kind {
                WorkspaceChangeKind::Added => WorkspaceJournalOp::CreateFile,
                WorkspaceChangeKind::Modified => WorkspaceJournalOp::WriteFile,
                WorkspaceChangeKind::Deleted => WorkspaceJournalOp::DeletePath,
                WorkspaceChangeKind::Renamed => WorkspaceJournalOp::RenamePath,
                WorkspaceChangeKind::TypeChanged => WorkspaceJournalOp::TypeChange,
            })
            &&& e.schema_version == 1
            &&& e.seq == index + 1
            &&& e.ts == ts
            &&& e.run_id == run_id
            &&& e.path@ == c.path@
            &&& text_view(e.source_path) == text_view(c.source_path)
            &&& entry_view(e.before) == entry_view(c.before)
            &&& entry_view(e.after) == entry_view(c.after)
            &&& e.base_checkpoint@ == diff.from@
            &&& e.target_checkpoint@ == diff.to@
        }),
{
    let v = e@;
    assert(v.seq == e.seq && v.ts == e.ts && v.path == e.path@ && v.base_checkpoint == e.base_checkpoint@);
    assert(v.target_checkpoint == e.target_checkpoint@);
}

/// A journal records every change of the diff, in its order.
pub proof fn every_change_is_recorded(
    run_id: RunId,
    diff: WorkspaceDiff,
    stamps: &[u128],
    index: usize,
    events: Vec<WorkspaceJournalEvent>,
    e: WorkspaceJournalEvent,
)
    requires
        index < diff.changes@.len(),
        stamps@.len() == diff.changes@.len(),
        call_ensures(journal_events, (run_id, &diff, stamps), events),
        call_ensures(journal_event, (run_id, &diff, index, stamps@[index as int]), e),
    ensures
        events@.len() == diff.changes@.len(),
        events@[index as int]@ == e@,
{
    assert(event_views(events@).len() == events@.len());
    assert(change_views(diff.changes@)[index as int] == diff.changes@[index as int]@);
    assert(event_views(events@)[index as int] == events@[index as int]@);
}

/// Redoing an event changes the paths that it names and no other: what was
/// created, written or changed its type is as the event says it was left; what
/// was deleted is gone; what was renamed is gone from its source. Only a rename
/// without a source cannot be redone, and then nothing changes.
pub proof fn redoing_changes_what_the_event_names(
    entries: &mut StringMap<WorkspaceEntry>,
    e: WorkspaceJournalEvent,
    result: Result<(), FsError>,
    path: Seq<char>,
)
    requires
        call_ensures(apply_journal_event, (entries, &e), result),
    ensures
        ({
            let now = at(*final(entries), path);
            let was = at(*old(entries), path);
            let lost = e.op == WorkspaceJournalOp::RenamePath && e.source_path is None;
            &&& result is Err <==> lost
            &&& lost ==> now == was && (result matches Err(FsError::MissingRenameSource(seq)) && seq == e.seq)
            &&& !lost ==> match e.op {
                WorkspaceJournalOp::CreateFile
                | WorkspaceJournalOp::WriteFile
                | WorkspaceJournalOp::TypeChange => if path == e.path@ {
                    now == entry_view(e.after)
                } else {
                    now == was
                },
                WorkspaceJournalOp::DeletePath => if path == e.path@ {
                    now is None
                } else {
                    now == was
                },
                WorkspaceJournalOp::RenamePath => if path == e.path@ && e.after is Some {
                    now == entry_view(e.after)
                } else if path == e.source_path->0@ {
                    now is None
                } else {
                    now == was
                },
            }
        }),
{
    lemma_at(*final(entries), path);
    lemma_at(*old(entries), path);
    assert(e@.path == e.path@ && e@.op == e.op && e@.source_path == text_view(e.source_path) && e@.after == entry_view(e.after));
}

/// An event is replayed where its number and its time are no later than asked.
pub proof fn limits_are_by_number_and_time(seq: usize, ts: u128, until_seq: Option<usize>, until_ts: Option<u128>, r: bool)
    requires
        call_ensures(within_limit, (seq, ts, until_seq, until_ts), r),
    ensures
        until_seq is None && until_ts is None ==> r,
        until_seq matches Some(limit) ==> seq > limit ==> !r,
        until_ts matches Some(limit) ==> ts > limit ==> !r,
        until_seq matches Some(limit) ==> seq <= limit ==> until_ts is None ==> r,
        until_ts matches Some(limit) ==> ts <= limit ==> until_seq is None ==> r,
        until_seq matches Some(a) ==> until_ts matches Some(b) ==> seq <= a && ts <= b ==> r,
{
}

/// Replaying nothing leaves what was there.
pub proof fn replaying_nothing_changes_nothing(
    base: StringMap<WorkspaceEntry>,
    events: &[WorkspaceJournalEvent],
    until_seq: Option<usize>,
    until_ts: Option<u128>,
    result: Result<(StringMap<WorkspaceEntry>, usize), FsError>,
    path: Seq<char>,
)
    requires
        base.wf(),
        events@.len() == 0,
        call_ensures(replay_events, (&base, events, until_seq, until_ts), result),
    ensures
        result matches Ok(r) && r.1 == 0 && at(r.0, path) == at(base, path),
{
    assert(replayed(manifest(base@), event_views(events@), until_seq, until_ts, 0) == Ok::<_, nat>((manifest(base@), 0nat)));
    assert(result is Ok);
    lemma_at(base, path);
    lemma_at(result->Ok_0.0, path);
}

/// Replaying one event more redoes it where it is within the limits, and counts it.
pub proof fn replaying_redoes_one_event_after_the_other(
    base: StringMap<WorkspaceEntry>,
    fewer: &[WorkspaceJournalEvent],
    e: WorkspaceJournalEvent,
    events: &[WorkspaceJournalEvent],
    until_seq: Option<usize>,
    until_ts: Option<u128>,
    first: Result<(StringMap<WorkspaceEntry>, usize), FsError>,
    result: Result<(StringMap<WorkspaceEntry>, usize), FsError>,
    within: bool,
    entries: &mut StringMap<WorkspaceEntry>,
    redone: Result<(), FsError>,
)
    requires
        base.wf(),
        events@ == fewer@.push(e),
        call_ensures(replay_events, (&base, fewer, until_seq, until_ts), first),
        call_ensures(replay_events, (&base, events, until_seq, until_ts), result),
        call_ensures(within_limit, (e.seq, e.ts, until_seq, until_ts), within),
        call_ensures(apply_journal_event, (entries, &e), redone),
        first matches Ok(r) ==> manifest(old(entries)@) == manifest(r.0@),
    ensures
        first matches Err(a) ==> (result matches Err(b) && a@ == b@),
        first matches Ok(r) ==> {
            &&& !within ==> (result matches Ok(s) && s.1 == r.1 && manifest(s.0@) == manifest(r.0@))
            &&& within ==> match redone {
                Ok(_) => result matches Ok(s) && s.1 == r.1 + 1 && manifest(s.0@) == manifest(final(entries)@),
                Err(a) => result matches Err(b) && a@ == b@,
            }
        },
{
    let n = fewer@.len() as int;
    let a = event_views(fewer@);
    let b = event_views(events@);
    assert(b.len() == n + 1 && a.len() == n);
    assert forall|i: int| 0 <= i < n implies #[trigger] a[i] == b[i] by {
        assert(events@[i] == fewer@[i]);
    }
    assert(b[n] == e@);
    lemma_same_replay(manifest(base@), a, b, until_seq, until_ts, n);
    assert(e@.seq == e.seq && e@.ts == e.ts);
}

proof fn lemma_same_replay(
    base: Map<Seq<char>, EntryView>,
    a: Seq<JournalEventView>,
    b: Seq<JournalEventView>,
    until_seq: Option<usize>,
    until_ts: Option<u128>,
    n: int,
)
    requires
        n <= a.len(),
        n <= b.len(),
        forall|i: int| 0 <= i < n ==> #[trigger] a[i] == b[i],
    ensures
        replayed(base, a, until_seq, until_ts, n) == replayed(base, b, until_seq, until_ts, n),
    decreases n,
{
    if n > 0 {
        lemma_same_replay(base, a, b, until_seq, until_ts, n - 1);
        assert(a[n - 1] == b[n - 1]);
    }
}

/// The lines of a journal are those of its text that are not blank, in their order.
pub proof fn journal_lines_are_those_that_say_something(
    line: Seq<char>,
    rest: &str,
    text: &str,
    others: Vec<String>,
    found: Vec<String>,
)
    requires
        lacks(line, '\n'),
        lacks(line, '\r'),
        text@ == line.push('\n') + rest@,
        call_ensures(journal_lines, (rest,), others),
        call_ensures(journal_lines, (text,), found),
    ensures
        (forall|i: int| 0 <= i < line.len() ==> is_space(#[trigger] line[i])) ==> views(found@) == views(others@),
        (exists|i: int| 0 <= i < line.len() && !is_space(#[trigger] line[i])) ==> views(found@) == seq![line] + views(others@),
        rest@.len() == 0 ==> others@.len() == 0,
{
    line_feeds_end_lines(line, rest@);
    crate::laws::observing::lemma_blank(line);
    let p = |l: Seq<char>| trim(l).len() > 0;
    if line.len() > 0 {
        assert(line.last() != '\r');
    }
    assert(lines(text@) == seq![line] + lines(rest@));
    Seq::filter_distributes_over_add(seq![line], lines(rest@), p);
    reveal(Seq::filter);
    reveal_with_fuel(Seq::filter, 2);
    assert(seq![line].drop_last() =~= Seq::<Seq<char>>::empty());
    assert(seq![line].filter(p) =~= if p(line) {
        seq![line]
    } else {
        Seq::empty()
    });
    assert(Seq::<Seq<char>>::empty() + views(others@) =~= views(others@));
    if rest@.len() == 0 {
        assert(rest@ =~= Seq::<char>::empty());
        assert(lines(rest@).len() == 0);
        assert(event_lines(rest@).len() == 0);
        assert(views(others@).len() == others@.len());
    }
}

} // verus!
