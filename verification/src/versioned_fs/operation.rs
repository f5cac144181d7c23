//! The operation journal: single file operations, recorded and replayed.

use crate::run_id::RunId;
use crate::string_map::StringMap;
use crate::versioned_fs::error::{FsError, FsErrorView};
use crate::versioned_fs::journal::{within, within_limit};
use crate::versioned_fs::object::{content_id, content_id_of, is_content_id, validate_content_id};
use crate::versioned_fs::paths::{
    accepted_paths_stay_inside, checked, checked_relative_path, is_absolute, is_name,
};
use crate::versioned_fs::plan::{action_views, FsAction, FsActionView};
use crate::text::{same_text, split};
use vstd::prelude::*;

verus! {

/// The version of the operation journal's event format.
pub const FS_OPERATION_JOURNAL_SCHEMA_VERSION: u32 = 1;

/// One operation on a workspace file.
#[derive(Debug, PartialEq, Eq)]
pub enum WorkspaceOperation {
    CreateFile { path: String },
    CreateDir { path: String },
    Write { path: String, offset: u64, object: String, len: u64 },
    Truncate { path: String, len: u64 },
    DeletePath { path: String },
    RenamePath { source_path: String, path: String },
    Chmod { path: String, readonly: bool },
    Fsync { path: String },
}

/// The mathematical value of an operation.
pub enum OperationView {
    CreateFile { path: Seq<char> },
    CreateDir { path: Seq<char> },
    Write { path: Seq<char>, offset: nat, object: Seq<char>, len: nat },
    Truncate { path: Seq<char>, len: nat },
    DeletePath { path: Seq<char> },
    RenamePath { source_path: Seq<char>, path: Seq<char> },
    Chmod { path: Seq<char>, readonly: bool },
    Fsync { path: Seq<char> },
}

impl View for WorkspaceOperation {
    type V = OperationView;

    open spec fn view(&self) -> OperationView {
        match *self {
            WorkspaceOperation::CreateFile { path } => OperationView::CreateFile { path: path@ },
            WorkspaceOperation::CreateDir { path } => OperationView::CreateDir { path: path@ },
            WorkspaceOperation::Write { path, offset, object, len } => OperationView::Write {
                path: path@,
                offset: offset as nat,
                object: object@,
                len: len as nat,
            },
            WorkspaceOperation::Truncate { path, len } => OperationView::Truncate {
                path: path@,
                len: len as nat,
            },
            WorkspaceOperation::DeletePath { path } => OperationView::DeletePath { path: path@ },
            WorkspaceOperation::RenamePath { source_path, path } => OperationView::RenamePath {
                source_path: source_path@,
                path: path@,
            },
            WorkspaceOperation::Chmod { path, readonly } => OperationView::Chmod {
                path: path@,
                readonly,
            },
            WorkspaceOperation::Fsync { path } => OperationView::Fsync { path: path@ },
        }
    }
}

impl Clone for WorkspaceOperation {
    fn clone(&self) -> (copy: Self)
        ensures
            copy == *self,
    {
        match self {
            WorkspaceOperation::CreateFile { path } => WorkspaceOperation::CreateFile { path: path.clone() },
            WorkspaceOperation::CreateDir { path } => WorkspaceOperation::CreateDir { path: path.clone() },
            WorkspaceOperation::Write { path, offset, object, len } => WorkspaceOperation::Write {
                path: path.clone(),
                offset: *offset,
                object: object.clone(),
                len: *len,
            },
            WorkspaceOperation::Truncate { path, len } => WorkspaceOperation::Truncate {
                path: path.clone(),
                len: *len,
            },
            WorkspaceOperation::DeletePath { path } => WorkspaceOperation::DeletePath { path: path.clone() },
            WorkspaceOperation::RenamePath { source_path, path } => WorkspaceOperation::RenamePath {
                source_path: source_path.clone(),
                path: path.clone(),
            },
            WorkspaceOperation::Chmod { path, readonly } => WorkspaceOperation::Chmod {
                path: path.clone(),
                readonly: *readonly,
            },
            WorkspaceOperation::Fsync { path } => WorkspaceOperation::Fsync { path: path.clone() },
        }
    }
}

/// One event of an operation journal.
#[derive(Debug, PartialEq, Eq)]
pub struct WorkspaceOperationEvent {
    pub schema_version: u32,
    pub seq: usize,
    pub ts: u128,
    pub run_id: RunId,
    pub base_checkpoint: String,
    pub op: WorkspaceOperation,
}

/// The mathematical value of an event.
pub struct OperationEventView {
    pub schema_version: u32,
    pub seq: nat,
    pub ts: nat,
    pub run_id: RunId,
    pub base_checkpoint: Seq<char>,
    pub op: OperationView,
}

impl View for WorkspaceOperationEvent {
    type V = OperationEventView;

    open spec fn view(&self) -> OperationEventView {
        OperationEventView {
            schema_version: self.schema_version,
            seq: self.seq as nat,
            ts: self.ts as nat,
            run_id: self.run_id,
            base_checkpoint: self.base_checkpoint@,
            op: self.op@,
        }
    }
}

/// The values of a list of events.
pub open spec fn operation_event_views(events: Seq<WorkspaceOperationEvent>) -> Seq<OperationEventView> {
    events.map_values(|e: WorkspaceOperationEvent| e@)
}

/// Why an operation cannot be recorded; nothing where it can.
pub open spec fn objection(op: OperationView) -> Option<FsErrorView> {
    match op {
        OperationView::CreateFile { path }
        | OperationView::CreateDir { path }
        | OperationView::Truncate { path, .. }
        | OperationView::DeletePath { path }
        | OperationView::Chmod { path, .. }
        | OperationView::Fsync { path } => path_objection(path),
        OperationView::Write { path, object, .. } => match path_objection(path) {
            Some(e) => Some(e),
            None => if is_content_id(object) {
                None
            } else {
                Some(FsErrorView::InvalidContentId(object))
            },
        },
        OperationView::RenamePath { source_path, path } => match path_objection(source_path) {
            Some(e) => Some(e),
            None => path_objection(path),
        },
    }
}

/// Why a path is refused; nothing where it is accepted.
pub open spec fn path_objection(path: Seq<char>) -> Option<FsErrorView> {
    match checked(path) {
        Ok(_) => None,
        Err(e) => Some(e),
    }
}

/// Accepts the operations that can be recorded.
pub fn validate_operation(op: &WorkspaceOperation) -> (result: Result<(), FsError>)
    ensures
        match result {
            Ok(_) => objection(op@) is None,
            Err(e) => objection(op@) == Some(e@),
        },
{
    match op {
        WorkspaceOperation::CreateFile { path }
        | WorkspaceOperation::CreateDir { path }
        | WorkspaceOperation::Truncate { path, .. }
        | WorkspaceOperation::DeletePath { path }
        | WorkspaceOperation::Chmod { path, .. }
        | WorkspaceOperation::Fsync { path } => match checked_relative_path(path.as_str()) {
            Ok(_) => Ok(()),
            Err(e) => Err(e),
        },
        WorkspaceOperation::Write { path, object, .. } => match checked_relative_path(path.as_str()) {
            Ok(_) => validate_content_id(object.as_str()),
            Err(e) => Err(e),
        },
        WorkspaceOperation::RenamePath { source_path, path } => match checked_relative_path(source_path.as_str()) {
            Ok(_) => match checked_relative_path(path.as_str()) {
                Ok(_) => Ok(()),
                Err(e) => Err(e),
            },
            Err(e) => Err(e),
        },
    }
}

/// What is appended to a journal for an operation, or why it is refused. A
/// journal belongs to one run and starts from one checkpoint; once compacted
/// it is closed.
pub open spec fn appended(
    run_id: RunId,
    base_checkpoint: Seq<char>,
    op: OperationView,
    compacted: bool,
    existing: Seq<OperationEventView>,
    ts: nat,
) -> Result<OperationEventView, FsErrorView> {
    if objection(op) is Some {
        Err(objection(op)->0)
    } else if compacted {
        Err(FsErrorView::CompactedJournal(run_id))
    } else if existing.len() > 0 && existing[0].run_id != run_id {
        Err(FsErrorView::ForeignRunId)
    } else if existing.len() > 0 && existing[0].base_checkpoint != base_checkpoint {
        Err(FsErrorView::OtherBase(run_id, existing[0].base_checkpoint))
    } else {
        Ok(
            OperationEventView {
                schema_version: FS_OPERATION_JOURNAL_SCHEMA_VERSION,
                seq: existing.len() + 1,
                ts,
                run_id,
                base_checkpoint,
                op,
            },
        )
    }
}

/// The event to append to a journal for an operation.
pub fn append_event(
    run_id: RunId,
    base_checkpoint: String,
    op: WorkspaceOperation,
    compacted: bool,
    existing: &[WorkspaceOperationEvent],
    ts: u128,
) -> (result: Result<WorkspaceOperationEvent, FsError>)
    requires
        existing@.len() < usize::MAX,
    ensures
        match result {
            Ok(event) => appended(
                run_id,
                base_checkpoint@,
                op@,
                compacted,
                operation_event_views(existing@),
                ts as nat,
            ) == Ok::<OperationEventView, FsErrorView>(event@),
            Err(e) => appended(
                run_id,
                base_checkpoint@,
                op@,
                compacted,
                operation_event_views(existing@),
                ts as nat,
            ) == Err::<OperationEventView, FsErrorView>(e@),
        },
{
    match validate_operation(&op) {
        Ok(_) => {},
        Err(e) => {
            return Err(e);
        },
    }
    if compacted {
        return Err(FsError::CompactedJournal(run_id));
    }
    if existing.len() > 0 {
        let first = &existing[0];
        assert(operation_event_views(existing@)[0] == first@);
        if first.run_id.value != run_id.value {
            return Err(FsError::ForeignRunId);
        }
        if !same_text(first.base_checkpoint.as_str(), base_checkpoint.as_str()) {
            return Err(FsError::OtherBase(run_id, first.base_checkpoint.clone()));
        }
    }
    Ok(
        WorkspaceOperationEvent {
            schema_version: FS_OPERATION_JOURNAL_SCHEMA_VERSION,
            seq: existing.len() + 1,
            ts,
            run_id,
            base_checkpoint,
            op,
        },
    )
}

/// The journal is one that appending builds: one run, one base checkpoint,
/// numbered from one, every operation acceptable.
pub open spec fn is_operation_journal(events: Seq<OperationEventView>) -> bool {
    forall|i: int|
        0 <= i < events.len() ==> {
            &&& (#[trigger] events[i]).seq == i + 1
            &&& events[i].run_id == events[0].run_id
            &&& events[i].base_checkpoint == events[0].base_checkpoint
            &&& objection(events[i].op) is None
        }
}

/// Appending keeps a journal in order.
pub proof fn appending_keeps_a_journal(
    run_id: RunId,
    base_checkpoint: Seq<char>,
    op: OperationView,
    compacted: bool,
    existing: Seq<OperationEventView>,
    ts: nat,
)
    requires
        is_operation_journal(existing),
        appended(run_id, base_checkpoint, op, compacted, existing, ts) is Ok,
    ensures
        is_operation_journal(existing.push(appended(run_id, base_checkpoint, op, compacted, existing, ts)->Ok_0)),
{
}

/// A compacted journal takes no further event.
pub proof fn a_compacted_journal_is_closed(
    run_id: RunId,
    base_checkpoint: Seq<char>,
    op: OperationView,
    existing: Seq<OperationEventView>,
    ts: nat,
)
    ensures
        appended(run_id, base_checkpoint, op, true, existing, ts) is Err,
{
}

/// The operation that records a write of some bytes.
pub fn write_operation(path: String, offset: u64, bytes: &[u8]) -> (op: WorkspaceOperation)
    ensures
        op@ == (OperationView::Write {
            path: path@,
            offset: offset as nat,
            object: content_id_of(bytes@),
            len: bytes@.len(),
        }),
        is_content_id(content_id_of(bytes@)),
{
    let object = content_id(bytes);
    WorkspaceOperation::Write { path, offset, object, len: bytes.len() as u64 }
}

/// Whether an event is to be replayed under the limits.
pub fn operation_event_within_limit(event: &WorkspaceOperationEvent, until_seq: Option<usize>, until_ts: Option<u128>) -> (r: bool)
    ensures
        r == within(event@.seq, event@.ts, until_seq, until_ts),
{
    within_limit(event.seq, event.ts, until_seq, until_ts)
}

/// The contents with `bytes` written at `offset`, and zeros in any gap before it.
pub open spec fn spliced(contents: Seq<u8>, offset: nat, bytes: Seq<u8>) -> Seq<u8> {
    let end = offset + bytes.len();
    Seq::new(
        if contents.len() < end {
            end
        } else {
            contents.len()
        },
        |i: int|
            if offset <= i < end {
                bytes[i - offset]
            } else if i < contents.len() {
                contents[i]
            } else {
                0
            },
    )
}

/// The contents cut to a length, or filled up to it with zeros.
pub open spec fn resized(contents: Seq<u8>, len: nat) -> Seq<u8> {
    Seq::new(
        len,
        |i: int|
            if i < contents.len() {
                contents[i]
            } else {
                0
            },
    )
}

/// The contents with `bytes` written at `offset`.
pub fn splice(contents: &[u8], offset: usize, bytes: &[u8]) -> (out: Vec<u8>)
    requires
        offset + bytes@.len() <= usize::MAX,
    ensures
        out@ == spliced(contents@, offset as nat, bytes@),
{
    let end: usize = offset + bytes.len();
    let total: usize = if contents.len() < end {
        end
    } else {
        contents.len()
    };
    let mut out: Vec<u8> = Vec::new();
    for i in 0..total
        invariant
            end == offset + bytes@.len(),
            end <= usize::MAX,
            out@.len() == i,
            forall|k: int|
                0 <= k < i ==> #[trigger] out@[k] == (if offset <= k < end {
                    bytes@[k - offset]
                } else if k < contents@.len() {
                    contents@[k]
                } else {
                    0
                }),
    {
        if offset <= i && i < end {
            out.push(bytes[i - offset]);
        } else if i < contents.len() {
            out.push(contents[i]);
        } else {
            out.push(0);
        }
    }
    assert(out@ =~= spliced(contents@, offset as nat, bytes@));
    out
}

/// Read back: a write leaves its bytes at its offset, keeps every byte
/// outside, and fills a gap with zeros.
pub proof fn a_write_can_be_read_back(contents: Seq<u8>, offset: nat, bytes: Seq<u8>)
    ensures
        spliced(contents, offset, bytes).len() >= offset + bytes.len(),
        spliced(contents, offset, bytes).subrange(offset as int, (offset + bytes.len()) as int) == bytes,
        forall|i: int|
            0 <= i < contents.len() && !(offset <= i < offset + bytes.len()) ==> #[trigger] spliced(contents, offset, bytes)[i] == contents[i],
        forall|i: int| contents.len() <= i < offset ==> #[trigger] spliced(contents, offset, bytes)[i] == 0,
{
    assert(spliced(contents, offset, bytes).subrange(offset as int, (offset + bytes.len()) as int) =~= bytes);
}

/// Steps to take, and what comes of them once they are taken.
pub struct Planned<T> {
    pub actions: Vec<FsAction>,
    pub outcome: Result<T, FsError>,
}

/// The value of an outcome that carries nothing.
pub open spec fn outcome_view(outcome: Result<(), FsError>) -> Result<(), FsErrorView> {
    match outcome {
        Ok(_) => Ok(()),
        Err(e) => Err(e@),
    }
}

/// The steps that redo an event, and how it ends. `payload` is the content of
/// the object that a write names; it is missing where the store has none.
pub open spec fn redone(event: OperationEventView, payload: Option<Seq<u8>>) -> (Seq<FsActionView>, Result<(), FsErrorView>) {
    match event.op {
        OperationView::CreateFile { path } => match checked(path) {
            Ok(p) => (seq![FsActionView::MakeParent(p), FsActionView::CreateFile(p)], Ok(())),
            Err(e) => (Seq::empty(), Err(e)),
        },
        OperationView::CreateDir { path } => match checked(path) {
            Ok(p) => (seq![FsActionView::MakeDirs(p)], Ok(())),
            Err(e) => (Seq::empty(), Err(e)),
        },
        OperationView::Write { path, offset, object, len } => if !is_content_id(object) {
            (Seq::empty(), Err(FsErrorView::InvalidContentId(object)))
        } else {
            match payload {
                None => (Seq::empty(), Err(FsErrorView::MissingObject(object))),
                Some(bytes) => if bytes.len() != len {
                    (
                        Seq::empty(),
                        Err(FsErrorView::PayloadLength { seq: event.seq, expected: len, found: bytes.len() }),
                    )
                } else {
                    match checked(path) {
                        Ok(p) => if offset > usize::MAX {
                            (seq![FsActionView::MakeParent(p)], Err(FsErrorView::OffsetTooLarge(event.seq)))
                        } else if offset + bytes.len() > usize::MAX {
                            (seq![FsActionView::MakeParent(p)], Err(FsErrorView::RangeOverflow(event.seq)))
                        } else {
                            (
                                seq![
                                    FsActionView::MakeParent(p),
                                    FsActionView::WriteAt { path: p, offset, bytes },
                                ],
                                Ok(()),
                            )
                        },
                        Err(e) => (Seq::empty(), Err(e)),
                    }
                },
            }
        },
        OperationView::Truncate { path, len } => match checked(path) {
            Ok(p) => (seq![FsActionView::MakeParent(p), FsActionView::SetLength { path: p, len }], Ok(())),
            Err(e) => (Seq::empty(), Err(e)),
        },
        OperationView::DeletePath { path } => match checked(path) {
            Ok(p) => (seq![FsActionView::Remove(p)], Ok(())),
            Err(e) => (Seq::empty(), Err(e)),
        },
        OperationView::RenamePath { source_path, path } => match checked(source_path) {
            Ok(source) => match checked(path) {
                Ok(p) => (
                    seq![FsActionView::MakeParent(p), FsActionView::Rename { source, path: p }],
                    Ok(()),
                ),
                Err(e) => (Seq::empty(), Err(e)),
            },
            Err(e) => (Seq::empty(), Err(e)),
        },
        OperationView::Chmod { path, readonly } => match checked(path) {
            Ok(p) => (seq![FsActionView::SetReadonly { path: p, readonly }], Ok(())),
            Err(e) => (Seq::empty(), Err(e)),
        },
        OperationView::Fsync { path } => match checked(path) {
            Ok(p) => (seq![FsActionView::Sync(p)], Ok(())),
            Err(e) => (Seq::empty(), Err(e)),
        },
    }
}

/// A copy of some bytes.
fn copy_bytes(bytes: &[u8]) -> (copy: Vec<u8>)
    ensures
        copy@ == bytes@,
{
    let mut copy: Vec<u8> = Vec::new();
    for i in 0..bytes.len()
        invariant
            copy@ == bytes@.take(i as int),
    {
        copy.push(bytes[i]);
        assert(bytes@.take(i + 1) =~= bytes@.take(i as int).push(bytes@[i as int]));
    }
    assert(bytes@.take(bytes@.len() as int) =~= bytes@);
    copy
}

/// The value of an optional byte vector.
pub open spec fn payload_view(payload: Option<&Vec<u8>>) -> Option<Seq<u8>> {
    match payload {
        Some(bytes) => Some(bytes@),
        None => None,
    }
}

/// Appends the steps that redo an event, and tells how it ends.
pub fn apply_operation_event(actions: &mut Vec<FsAction>, event: &WorkspaceOperationEvent, payload: Option<&Vec<u8>>) -> (outcome: Result<(), FsError>)
    ensures
        action_views(final(actions)@) == action_views(old(actions)@) + redone(event@, payload_view(payload)).0,
        outcome_view(outcome) == redone(event@, payload_view(payload)).1,
{
    let ghost start = action_views(actions@);
    match &event.op {
        WorkspaceOperation::CreateFile { path } => match checked_relative_path(path.as_str()) {
            Ok(p) => {
                actions.push(FsAction::MakeParent(p.clone()));
                actions.push(FsAction::CreateFile(p));
                assert(action_views(actions@) =~= start + redone(event@, payload_view(payload)).0);
                Ok(())
            },
            Err(e) => {
                assert(action_views(actions@) =~= start + redone(event@, payload_view(payload)).0);
                Err(e)
            },
        },
        WorkspaceOperation::CreateDir { path } => match checked_relative_path(path.as_str()) {
            Ok(p) => {
                actions.push(FsAction::MakeDirs(p));
                assert(action_views(actions@) =~= start + redone(event@, payload_view(payload)).0);
                Ok(())
            },
            Err(e) => {
                assert(action_views(actions@) =~= start + redone(event@, payload_view(payload)).0);
                Err(e)
            },
        },
        WorkspaceOperation::Write { path, offset, object, len } => {
            assert(start + Seq::<FsActionView>::empty() =~= start);
            match validate_content_id(object.as_str()) {
                Ok(_) => {},
                Err(e) => {
                    return Err(e);
                },
            }
            let bytes: &Vec<u8> = match payload {
                Some(bytes) => bytes,
                None => {
                    return Err(FsError::MissingObject(object.clone()));
                },
            };
            if bytes.len() as u64 != *len {
                return Err(
                    FsError::PayloadLength { seq: event.seq, expected: *len, found: bytes.len() },
                );
            }
            match checked_relative_path(path.as_str()) {
                Ok(p) => {
                    actions.push(FsAction::MakeParent(p.clone()));
                    assert(action_views(actions@) =~= start + seq![FsActionView::MakeParent(p@)]);
                    if *offset > usize::MAX as u64 {
                        return Err(FsError::OffsetTooLarge(event.seq));
                    }
                    let at: usize = *offset as usize;
                    if at > usize::MAX - bytes.len() {
                        return Err(FsError::RangeOverflow(event.seq));
                    }
                    actions.push(
                        FsAction::WriteAt { path: p, offset: at, bytes: copy_bytes(bytes.as_slice()) },
                    );
                    assert(action_views(actions@) =~= start + redone(event@, payload_view(payload)).0);
                    Ok(())
                },
                Err(e) => Err(e),
            }
        },
        WorkspaceOperation::Truncate { path, len } => match checked_relative_path(path.as_str()) {
            Ok(p) => {
                actions.push(FsAction::MakeParent(p.clone()));
                actions.push(FsAction::SetLength { path: p, len: *len });
                assert(action_views(actions@) =~= start + redone(event@, payload_view(payload)).0);
                Ok(())
            },
            Err(e) => {
                assert(action_views(actions@) =~= start + redone(event@, payload_view(payload)).0);
                Err(e)
            },
        },
        WorkspaceOperation::DeletePath { path } => match checked_relative_path(path.as_str()) {
            Ok(p) => {
                actions.push(FsAction::Remove(p));
                assert(action_views(actions@) =~= start + redone(event@, payload_view(payload)).0);
                Ok(())
            },
            Err(e) => {
                assert(action_views(actions@) =~= start + redone(event@, payload_view(payload)).0);
                Err(e)
            },
        },
        WorkspaceOperation::RenamePath { source_path, path } => {
            assert(start + Seq::<FsActionView>::empty() =~= start);
            let source = match checked_relative_path(source_path.as_str()) {
                Ok(p) => p,
                Err(e) => {
                    return Err(e);
                },
            };
            match checked_relative_path(path.as_str()) {
                Ok(p) => {
                    actions.push(FsAction::MakeParent(p.clone()));
                    actions.push(FsAction::Rename { source, path: p });
                    assert(action_views(actions@) =~= start + redone(event@, payload_view(payload)).0);
                    Ok(())
                },
                Err(e) => Err(e),
            }
        },
        WorkspaceOperation::Chmod { path, readonly } => match checked_relative_path(path.as_str()) {
            Ok(p) => {
                actions.push(FsAction::SetReadonly { path: p, readonly: *readonly });
                assert(action_views(actions@) =~= start + redone(event@, payload_view(payload)).0);
                Ok(())
            },
            Err(e) => {
                assert(action_views(actions@) =~= start + redone(event@, payload_view(payload)).0);
                Err(e)
            },
        },
        WorkspaceOperation::Fsync { path } => match checked_relative_path(path.as_str()) {
            Ok(p) => {
                actions.push(FsAction::Sync(p));
                assert(action_views(actions@) =~= start + redone(event@, payload_view(payload)).0);
                Ok(())
            },
            Err(e) => {
                assert(action_views(actions@) =~= start + redone(event@, payload_view(payload)).0);
                Err(e)
            },
        },
    }
}

/// The path is relative and made of names alone.
pub open spec fn is_inside(path: Seq<char>) -> bool {
    &&& path.len() > 0
    &&& !is_absolute(path)
    &&& forall|i: int| 0 <= i < split(path, '/').len() ==> is_name(#[trigger] split(path, '/')[i])
}

/// Every path that a step touches is inside.
pub open spec fn acts_inside(action: FsActionView) -> bool {
    match action {
        FsActionView::Remove(path)
        | FsActionView::MakeDirs(path)
        | FsActionView::MakeParent(path)
        | FsActionView::CreateFile(path)
        | FsActionView::Sync(path)
        | FsActionView::RestoreFile { path, .. }
        | FsActionView::WriteAt { path, .. }
        | FsActionView::SetLength { path, .. }
        | FsActionView::SetReadonly { path, .. } => is_inside(path),
        FsActionView::Rename { source, path } => is_inside(source) && is_inside(path),
    }
}

/// Containment: whatever an event says, the steps that redo it stay inside
/// the directory that they are taken in.
pub proof fn redoing_stays_inside(event: OperationEventView, payload: Option<Seq<u8>>, i: int)
    requires
        0 <= i < redone(event, payload).0.len(),
    ensures
        acts_inside(redone(event, payload).0[i]),
{
    let path = match event.op {
        OperationView::CreateFile { path } => path,
        OperationView::CreateDir { path } => path,
        OperationView::Write { path, .. } => path,
        OperationView::Truncate { path, .. } => path,
        OperationView::DeletePath { path } => path,
        OperationView::RenamePath { path, .. } => path,
        OperationView::Chmod { path, .. } => path,
        OperationView::Fsync { path } => path,
    };
    accepted_paths_stay_inside(path);
    if let OperationView::RenamePath { source_path, .. } = event.op {
        accepted_paths_stay_inside(source_path);
    }
}

/// The value of the bytes that a map holds under an identifier.
pub open spec fn object_bytes(objects: Map<Seq<char>, Vec<u8>>, op: OperationView) -> Option<Seq<u8>> {
    match op {
        OperationView::Write { object, .. } => if objects.contains_key(object) {
            Some(objects[object]@)
        } else {
            None
        },
        _ => None,
    }
}

/// The steps that redo those of the first `n` events that are within the
/// limits, up to the first that ends in an error, and the number redone.
pub open spec fn replayed_operations(
    events: Seq<OperationEventView>,
    objects: Map<Seq<char>, Vec<u8>>,
    until_seq: Option<usize>,
    until_ts: Option<u128>,
    n: int,
) -> (Seq<FsActionView>, Result<nat, FsErrorView>)
    decreases n,
{
    if n <= 0 {
        (Seq::empty(), Ok(0))
    } else {
        let e = events[n - 1];
        let so_far = replayed_operations(events, objects, until_seq, until_ts, n - 1);
        match so_far.1 {
            Err(error) => so_far,
            Ok(applied) => if within(e.seq, e.ts, until_seq, until_ts) {
                let (steps, end) = redone(e, object_bytes(objects, e.op));
                (
                    so_far.0 + steps,
                    match end {
                        Ok(_) => Ok((applied + 1) as nat),
                        Err(error) => Err(error),
                    },
                )
            } else {
                so_far
            },
        }
    }
}

proof fn lemma_replayed_operations_stay_failed(
    events: Seq<OperationEventView>,
    objects: Map<Seq<char>, Vec<u8>>,
    until_seq: Option<usize>,
    until_ts: Option<u128>,
    i: int,
    n: int,
)
    requires
        0 <= i <= n,
        replayed_operations(events, objects, until_seq, until_ts, i).1 is Err,
    ensures
        replayed_operations(events, objects, until_seq, until_ts, n) == replayed_operations(events, objects, until_seq, until_ts, i),
    decreases n - i,
{
    if i < n {
        lemma_replayed_operations_stay_failed(events, objects, until_seq, until_ts, i, n - 1);
    }
}

/// The value of an outcome that carries a count.
pub open spec fn count_view(outcome: Result<usize, FsError>) -> Result<nat, FsErrorView> {
    match outcome {
        Ok(n) => Ok(n as nat),
        Err(e) => Err(e@),
    }
}

/// Appends the steps that redo the events within the limits.
pub fn replay_operations(
    actions: &mut Vec<FsAction>,
    events: &[WorkspaceOperationEvent],
    objects: &StringMap<Vec<u8>>,
    until_seq: Option<usize>,
    until_ts: Option<u128>,
) -> (outcome: Result<usize, FsError>)
    requires
        objects.wf(),
    ensures
        action_views(final(actions)@) == action_views(old(actions)@) + replayed_operations(
            operation_event_views(events@),
            objects@,
            until_seq,
            until_ts,
            events@.len() as int,
        ).0,
        count_view(outcome) == replayed_operations(
            operation_event_views(events@),
            objects@,
            until_seq,
            until_ts,
            events@.len() as int,
        ).1,
{
    let ghost start = action_views(actions@);
    let ghost list = operation_event_views(events@);
    let mut applied: usize = 0;
    assert(start =~= start + replayed_operations(list, objects@, until_seq, until_ts, 0).0);
    for i in 0..events.len()
        invariant
            objects.wf(),
            start == action_views(old(actions)@),
            list == operation_event_views(events@),
            applied <= i,
            action_views(actions@) == start + replayed_operations(list, objects@, until_seq, until_ts, i as int).0,
            replayed_operations(list, objects@, until_seq, until_ts, i as int).1 == Ok::<nat, FsErrorView>(applied as nat),
    {
        let event = &events[i];
        assert(list[i as int] == event@);
        if operation_event_within_limit(event, until_seq, until_ts) {
            let payload: Option<&Vec<u8>> = match &event.op {
                WorkspaceOperation::Write { object, .. } => objects.get(object.as_str()),
                _ => None,
            };
            assert(payload_view(payload) == object_bytes(objects@, event@.op));
            let ghost so_far = replayed_operations(list, objects@, until_seq, until_ts, i as int).0;
            let ghost steps = redone(event@, payload_view(payload)).0;
            let end = apply_operation_event(actions, event, payload);
            assert(action_views(actions@) =~= start + (so_far + steps));
            match end {
                Ok(_) => {
                    applied = applied + 1;
                },
                Err(e) => {
                    proof {
                        lemma_replayed_operations_stay_failed(list, objects@, until_seq, until_ts, i + 1, events@.len() as int);
                    }
                    return Err(e);
                },
            }
        }
    }
    Ok(applied)
}

} // verus!
