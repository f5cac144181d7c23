//! Recorded operations: when they are taken, what redoing them does, and what is said where it cannot be done.

use crate::number::decimal;
use crate::run_id::{hyphenated, RunId};
use crate::string_map::StringMap;
use crate::versioned_fs::error::{FsError, FsErrorView};
use crate::versioned_fs::object::content_id;
use crate::versioned_fs::operation::{
    append_event, apply_operation_event, operation_event_views, replay_operations, replayed_operations, splice,
    validate_operation, write_operation, OperationEventView, OperationView, WorkspaceOperation,
    WorkspaceOperationEvent,
};
use crate::versioned_fs::paths::checked;
use crate::versioned_fs::plan::{action_views, FsAction, FsActionView};
use vstd::prelude::*;

verus! {

/// An operation tells which it is, and its parts.
pub proof fn operations_stand_for_themselves(op: WorkspaceOperation)
    ensures
        op matches WorkspaceOperation::CreateFile { path } ==> op@ == (OperationView::CreateFile { path: path@ }),
        op matches WorkspaceOperation::CreateDir { path } ==> op@ == (OperationView::CreateDir { path: path@ }),
        op matches WorkspaceOperation::Write { path, offset, object, len } ==> op@ == (OperationView::Write {
            path: path@,
            offset: offset as nat,
            object: object@,
            len: len as nat,
        }),
        op matches WorkspaceOperation::Truncate { path, len } ==> op@ == (OperationView::Truncate { path: path@, len: len as nat }),
        op matches WorkspaceOperation::DeletePath { path } ==> op@ == (OperationView::DeletePath { path: path@ }),
        op matches WorkspaceOperation::RenamePath { source_path, path } ==> op@ == (OperationView::RenamePath {
            source_path: source_path@,
            path: path@,
        }),
        op matches WorkspaceOperation::Chmod { path, readonly } ==> op@ == (OperationView::Chmod { path: path@, readonly }),
        op matches WorkspaceOperation::Fsync { path } ==> op@ == (OperationView::Fsync { path: path@ }),
{
}

/// A step tells which it is, and its parts.
pub proof fn steps_stand_for_themselves(a: FsAction)
    ensures
        a matches FsAction::Remove(p) ==> a@ == FsActionView::Remove(p@),
        a matches FsAction::MakeDirs(p) ==> a@ == FsActionView::MakeDirs(p@),
        a matches FsAction::MakeParent(p) ==> a@ == FsActionView::MakeParent(p@),
        a matches FsAction::RestoreFile { path, object, readonly } ==> a@ == (FsActionView::RestoreFile {
            path: path@,
            object: object@,
            readonly,
        }),
        a matches FsAction::CreateFile(p) ==> a@ == FsActionView::CreateFile(p@),
        a matches FsAction::WriteAt { path, offset, bytes } ==> a@ == (FsActionView::WriteAt {
            path: path@,
            offset: offset as nat,
            bytes: bytes@,
        }),
        a matches FsAction::SetLength { path, len } ==> a@ == (FsActionView::SetLength { path: path@, len: len as nat }),
        a matches FsAction::Rename { source, path } ==> a@ == (FsActionView::Rename { source: source@, path: path@ }),
        a matches FsAction::SetReadonly { path, readonly } ==> a@ == (FsActionView::SetReadonly { path: path@, readonly }),
        a matches FsAction::Sync(p) ==> a@ == FsActionView::Sync(p@),
{
}

/// The paths that an operation names: that which it is on, and behind it the source of a rename.
pub open spec fn paths_named(op: WorkspaceOperation) -> Seq<Seq<char>> {
    match op {
        WorkspaceOperation::CreateFile { path } => seq![path@],
        WorkspaceOperation::CreateDir { path } => seq![path@],
        WorkspaceOperation::Write { path, .. } => seq![path@],
        WorkspaceOperation::Truncate { path, .. } => seq![path@],
        WorkspaceOperation::DeletePath { path } => seq![path@],
        WorkspaceOperation::RenamePath { source_path, path } => seq![path@, source_path@],
        WorkspaceOperation::Chmod { path, .. } => seq![path@],
        WorkspaceOperation::Fsync { path } => seq![path@],
    }
}

/// Every path that an operation names is accepted.
pub open spec fn all_accepted(op: WorkspaceOperation) -> bool {
    forall|i: int| 0 <= i < paths_named(op).len() ==> checked(#[trigger] paths_named(op)[i]) is Ok
}

/// A text that can name content: sixty-four hexadecimal digits.
pub open spec fn names_content(text: Seq<char>) -> bool {
    text.len() == 64 && forall|i: int|
        0 <= i < text.len() ==> {
            let c = #[trigger] text[i];
            ('0' <= c && c <= '9') || ('a' <= c && c <= 'f') || ('A' <= c && c <= 'F')
        }
}

/// An operation is valid exactly where its paths are accepted and a write names content.
pub proof fn valid_operations_are_those_inside(op: WorkspaceOperation, result: Result<(), FsError>)
    requires
        call_ensures(validate_operation, (&op,), result),
    ensures
        result is Ok <==> all_accepted(op) && (op matches WorkspaceOperation::Write { object, .. } ==> names_content(object@)),
        result matches Err(FsError::InvalidContentId(id)) ==> (op matches WorkspaceOperation::Write { object, .. } && id@ == object@
            && !names_content(object@) && all_accepted(op)),
{
    let named = paths_named(op);
    assert(checked(named[0]) is Ok <==> !(checked(named[0]) is Err));
    if op is RenamePath {
        assert(checked(named[1]) is Ok <==> !(checked(named[1]) is Err));
    }
}

/// When an operation is taken into a journal: where it is valid, the journal is
/// still open, and the journal is that of the same run from the same checkpoint.
/// The event then carries the next number.
pub proof fn operations_are_taken_into_their_journal(
    run_id: RunId,
    base: String,
    op: WorkspaceOperation,
    compacted: bool,
    existing: &[WorkspaceOperationEvent],
    ts: u128,
    valid: Result<(), FsError>,
    result: Result<WorkspaceOperationEvent, FsError>,
)
    requires
        existing@.len() < usize::MAX,
        call_ensures(validate_operation, (&op,), valid),
        call_ensures(append_event, (run_id, base, op, compacted, existing, ts), result),
    ensures
        ({
            let mine = existing@.len() == 0 || existing@[0].run_id == run_id;
            let same = existing@.len() == 0 || existing@[0].base_checkpoint@ == base@;
            &&& valid matches Err(a) ==> (result matches Err(b) && a@ == b@)
            &&& valid is Ok && compacted ==> (result matches Err(FsError::CompactedJournal(run)) && run == run_id)
            &&& valid is Ok && !compacted && !mine ==> (result matches Err(e) && e is ForeignRunId)
            &&& valid is Ok && !compacted && mine && !same ==> (result matches Err(FsError::OtherBase(run, other)) && run == run_id && other@
                == existing@[0].base_checkpoint@)
            &&& valid is Ok && !compacted && mine && same ==> (result matches Ok(e) && {
                &&& e.schema_version == 1
                &&& e.seq == existing@.len() + 1
                &&& e.ts == ts
                &&& e.run_id == run_id
                &&& e.base_checkpoint@ == base@
                &&& e.op@ == op@
            })
        }),
{
    let l = operation_event_views(existing@);
    assert(l.len() == existing@.len());
    if existing@.len() > 0 {
        assert(l[0] == existing@[0]@);
        assert(existing@[0]@.run_id == existing@[0].run_id && existing@[0]@.base_checkpoint == existing@[0].base_checkpoint@);
    }
    if let Ok(e) = result {
        assert(e@.seq == e.seq && e@.ts == e.ts && e@.base_checkpoint == e.base_checkpoint@ && e@.op == e.op@);
    }
}

/// A write is recorded with where it was, how long it was and what identifies its bytes.
pub proof fn a_write_is_recorded_by_its_content(path: String, offset: u64, bytes: &[u8], id: String, op: WorkspaceOperation)
    requires
        call_ensures(content_id, (bytes,), id),
        call_ensures(write_operation, (path, offset, bytes), op),
    ensures
        op matches WorkspaceOperation::Write { path: p, offset: o, object, len } && p@ == path@ && o == offset && object@ == id@ && len
            == bytes@.len(),
{
}

/// What redoing an event that can be redone does: the parents of the path come
/// first where there is something to put there, and then the very operation.
pub proof fn redoing_does_the_operation(
    actions: &mut Vec<FsAction>,
    event: WorkspaceOperationEvent,
    payload: Option<&Vec<u8>>,
    outcome: Result<(), FsError>,
    place: Seq<char>,
    source: Seq<char>,
)
    requires
        call_ensures(apply_operation_event, (actions, &event, payload), outcome),
        checked(paths_named(event.op)[0]) == Ok::<Seq<char>, FsErrorView>(place),
        event.op is RenamePath ==> checked(paths_named(event.op)[1]) == Ok::<Seq<char>, FsErrorView>(source),
        event.op matches WorkspaceOperation::Write { offset, object, len, .. } ==> names_content(object@) && (payload matches Some(bytes)
            && bytes@.len() == len && offset + len <= usize::MAX),
    ensures
        outcome is Ok,
        action_views(old(actions)@).is_prefix_of(action_views(final(actions)@)),
        ({
            let n = old(actions)@.len() as int;
            let m = final(actions)@.len() as int;
            &&& n < m <= n + 2
            &&& m == n + 2 <==> event.op is CreateFile || event.op is Write || event.op is Truncate || event.op is RenamePath
            &&& m == n + 2 ==> final(actions)@[n]@ == FsActionView::MakeParent(place)
            &&& final(actions)@[m - 1]@ == (match event.op {
                WorkspaceOperation::CreateFile { .. } => FsActionView::CreateFile(place),
                WorkspaceOperation::CreateDir { .. } => FsActionView::MakeDirs(place),
                WorkspaceOperation::Write { offset, .. } => FsActionView::WriteAt {
                    path: place,
                    offset: offset as nat,
                    bytes: payload->0@,
                },
                WorkspaceOperation::Truncate { len, .. } => FsActionView::SetLength { path: place, len: len as nat },
                WorkspaceOperation::DeletePath { .. } => FsActionView::Remove(place),
                WorkspaceOperation::RenamePath { .. } => FsActionView::Rename { source, path: place },
                WorkspaceOperation::Chmod { readonly, .. } => FsActionView::SetReadonly { path: place, readonly },
                WorkspaceOperation::Fsync { .. } => FsActionView::Sync(place),
            })
        }),
{
    let a = action_views(old(actions)@);
    let b = action_views(final(actions)@);
    assert(a.len() == old(actions)@.len() && b.len() == final(actions)@.len());
    assert(event@.op == event.op@);
    let n = a.len() as int;
    let m = b.len() as int;
    assert(b[n] == final(actions)@[n]@);
    assert(b[m - 1] == final(actions)@[m - 1]@);
}

/// When redoing an event fails, and with what: a path that is not accepted, a
/// write whose content has no name, is missing or has another length, or a
/// write that reaches too far.
pub proof fn redoing_fails_on_its_grounds(
    actions: &mut Vec<FsAction>,
    event: WorkspaceOperationEvent,
    payload: Option<&Vec<u8>>,
    outcome: Result<(), FsError>,
)
    requires
        call_ensures(apply_operation_event, (actions, &event, payload), outcome),
    ensures
        !(event.op is Write) ==> (outcome is Ok <==> all_accepted(event.op)),
        event.op matches WorkspaceOperation::Write { path, offset, object, len } ==> {
            let found = match payload {
                Some(bytes) => bytes@.len() as int,
                None => -1int,
            };
            &&& !names_content(object@) ==> (outcome matches Err(FsError::InvalidContentId(id)) && id@ == object@)
            &&& names_content(object@) && payload is None ==> (outcome matches Err(FsError::MissingObject(id)) && id@ == object@)
            &&& names_content(object@) && payload is Some && found != len ==> (outcome matches Err(
                FsError::PayloadLength { seq, expected, found: f },
            ) && seq == event.seq && expected == len && f == found)
            &&& names_content(object@) && found == len ==> {
                &&& checked(path@) is Err ==> outcome is Err
                &&& checked(path@) is Ok && offset > usize::MAX ==> (outcome matches Err(FsError::OffsetTooLarge(seq)) && seq == event.seq)
                &&& checked(path@) is Ok && offset <= usize::MAX && offset + len > usize::MAX ==> (outcome matches Err(
                    FsError::RangeOverflow(seq),
                ) && seq == event.seq)
            }
        },
        outcome is Err ==> final(actions)@.len() <= old(actions)@.len() + 1,
{
    let a = action_views(old(actions)@);
    let b = action_views(final(actions)@);
    assert(a.len() == old(actions)@.len() && b.len() == final(actions)@.len());
    assert(event@.op == event.op@ && event@.seq == event.seq);
    let named = paths_named(event.op);
    assert(checked(named[0]) is Ok <==> !(checked(named[0]) is Err));
    if event.op is RenamePath {
        assert(checked(named[1]) is Ok <==> !(checked(named[1]) is Err));
    }
}

/// A write puts its bytes at its place, keeps all others, and fills a gap with zeros.
pub proof fn a_write_changes_its_range(contents: &[u8], offset: usize, bytes: &[u8], out: Vec<u8>, i: int)
    requires
        call_ensures(splice, (contents, offset, bytes), out),
    ensures
        out@.len() >= contents@.len(),
        out@.len() >= offset + bytes@.len(),
        out@.len() == contents@.len() || out@.len() == offset + bytes@.len(),
        0 <= i < bytes@.len() ==> out@[offset + i] == bytes@[i],
        0 <= i < contents@.len() && (i < offset || i >= offset + bytes@.len()) ==> out@[i] == contents@[i],
        contents@.len() <= i < offset ==> out@[i] == 0,
{
}

/// Redoing a journal redoes one event after the other: one more is redone where
/// it is within the limits, and counted; one that fails ends it.
pub proof fn a_journal_is_redone_event_by_event(
    actions: &mut Vec<FsAction>,
    further: &mut Vec<FsAction>,
    single: &mut Vec<FsAction>,
    fewer: &[WorkspaceOperationEvent],
    e: WorkspaceOperationEvent,
    events: &[WorkspaceOperationEvent],
    objects: StringMap<Vec<u8>>,
    payload: Option<&Vec<u8>>,
    until_seq: Option<usize>,
    until_ts: Option<u128>,
    first: Result<usize, FsError>,
    result: Result<usize, FsError>,
    redone: Result<(), FsError>,
    within: bool,
)
    requires
        objects.wf(),
        events@ == fewer@.push(e),
        call_ensures(replay_operations, (actions, fewer, &objects, until_seq, until_ts), first),
        call_ensures(replay_operations, (further, events, &objects, until_seq, until_ts), result),
        old(further)@ == old(actions)@,
        call_ensures(crate::versioned_fs::journal::within_limit, (e.seq, e.ts, until_seq, until_ts), within),
        call_ensures(apply_operation_event, (single, &e, payload), redone),
        action_views(old(single)@) == action_views(final(actions)@),
        e.op matches WorkspaceOperation::Write { object, .. } ==> match payload {
            Some(bytes) => objects@.contains_key(object@) && objects@[object@]@ == bytes@,
            None => !objects@.contains_key(object@),
        },
    ensures
        first matches Err(a) ==> (result matches Err(b) && a@ == b@) && action_views(final(further)@) == action_views(final(actions)@),
        first matches Ok(count) ==> {
            &&& !within ==> (result matches Ok(c) && c == count) && action_views(final(further)@) == action_views(final(actions)@)
            &&& within ==> {
                &&& action_views(final(further)@) == action_views(final(single)@)
                &&& match redone {
                    Ok(_) => result matches Ok(c) && c == count + 1,
                    Err(a) => result matches Err(b) && a@ == b@,
                }
            }
        },
{
    let n = fewer@.len() as int;
    let a = operation_event_views(fewer@);
    let b = operation_event_views(events@);
    assert(b.len() == n + 1 && a.len() == n);
    assert forall|i: int| 0 <= i < n implies #[trigger] a[i] == b[i] by {
        assert(events@[i] == fewer@[i]);
    }
    assert(b[n] == e@);
    lemma_same_replay(a, b, objects@, until_seq, until_ts, n);
    assert(e@.seq == e.seq && e@.ts == e.ts && e@.op == e.op@);
    let base = action_views(old(actions)@);
    let so_far = replayed_operations(b, objects@, until_seq, until_ts, n);
    let step = crate::versioned_fs::operation::redone(e@, crate::versioned_fs::operation::payload_view(payload));
    assert(crate::versioned_fs::operation::redone(e@, crate::versioned_fs::operation::object_bytes(objects@, e@.op)) == step);
    assert((base + so_far.0) + step.0 =~= base + (so_far.0 + step.0));
}

proof fn lemma_same_replay(
    a: Seq<OperationEventView>,
    b: Seq<OperationEventView>,
    objects: Map<Seq<char>, Vec<u8>>,
    until_seq: Option<usize>,
    until_ts: Option<u128>,
    n: int,
)
    requires
        n <= a.len(),
        n <= b.len(),
        forall|i: int| 0 <= i < n ==> #[trigger] a[i] == b[i],
    ensures
        replayed_operations(a, objects, until_seq, until_ts, n) == replayed_operations(b, objects, until_seq, until_ts, n),
    decreases n,
{
    if n > 0 {
        lemma_same_replay(a, b, objects, until_seq, until_ts, n - 1);
        assert(a[n - 1] == b[n - 1]);
    }
}

/// What is said of each error.
pub proof fn errors_are_explained(e: FsError, s: String)
    requires
        call_ensures(FsError::message, (&e,), s),
    ensures
        e is EmptyPath ==> s@ == "operation path must not be empty"@,
        e matches FsError::OutsidePath(path) ==> s@ == "operation path must be relative and stay inside the workspace: "@ + path@,
        e matches FsError::InvalidContentId(id) ==> s@ == "invalid content object id: "@ + id@,
        e matches FsError::MissingRenameSource(seq) ==> s@ == "renamed journal event is missing source_path at seq "@ + decimal(seq as nat),
        e matches FsError::EmptyJournal(run) ==> s@ == "journal "@ + run@ + " has no change events to replay"@,
        e matches FsError::EmptyOperationJournal(run) ==> s@ == "operation journal "@ + run@ + " has no events to replay"@,
        e matches FsError::CompactedJournal(run) ==> s@ == "operation journal "@ + hyphenated(run.value)
            + " is compacted and cannot be appended"@,
        e is ForeignRunId ==> s@ == "operation journal file name and event run_id do not match"@,
        e matches FsError::OtherBase(run, base) ==> s@ == "operation journal "@ + hyphenated(run.value)
            + " already uses base checkpoint "@ + base@,
        e matches FsError::MissingObject(id) ==> s@ == "missing content object: "@ + id@,
        e matches FsError::PayloadLength { seq, expected, found } ==> s@ == "write event seq "@ + decimal(seq as nat)
            + " expected object length "@ + decimal(expected as nat) + ", found "@ + decimal(found as nat),
        e matches FsError::OffsetTooLarge(seq) ==> s@ == "write offset is too large at seq "@ + decimal(seq as nat),
        e matches FsError::RangeOverflow(seq) ==> s@ == "write range overflow at seq "@ + decimal(seq as nat),
        e is DestinationNotEmpty ==> s@ == "destination is not empty; pass --force to replace it"@,
        e matches FsError::UnknownCheckpoint(id) ==> s@ == "unknown checkpoint: "@ + id@,
        e matches FsError::NoJournal(run) ==> s@ == "failed to read journal "@ + run@ + ": journal "@ + run@ + " does not exist"@,
        e matches FsError::NoOperationJournal(run) ==> s@ == "failed to read operation journal "@ + run@ + ": operation journal "@ + run@
            + " does not exist"@,
        e is AlreadyFinished ==> s@ == "workspace transaction was already finished"@,
{
}

} // verus!
