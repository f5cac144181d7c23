//! Reading journals, stated apart from how they are written.

use crate::forms::{entry_form, optional_entry_form};
use crate::json::{json_text, JsonView};
use crate::laws::json_reading::{a_written_value_is_read_back, value_of_text};
use crate::laws::numbers::{
    an_identifier_is_written_in_five_groups, hex_number, the_digits_of_an_identifier_tell_its_value,
};
use crate::run_id::{hyphenated, RunId};
use crate::versioned_fs::diff::{diff_changes, ChangeView, WorkspaceChangeKind};
use crate::versioned_fs::entry::EntryView;
use crate::versioned_fs::journal::{
    event_lines, event_of, event_views, journal_of, replayed, JournalEventView, WorkspaceJournalEvent,
    WorkspaceJournalOp,
};
use crate::versioned_fs::lines::{
    journal_event_form, journal_event_texts, journal_text, operation_event_form, operation_fields,
    operation_line,
};
use crate::versioned_fs::operation::{OperationEventView, OperationView, WorkspaceOperationEvent};
use crate::versioned_fs::redo_laws::replaying_the_journal_reaches_the_target;
use vstd::prelude::*;

verus! {

/// The value of a name among the fields from `i` on.
pub open spec fn named_from(fields: Seq<(Seq<char>, JsonView)>, name: Seq<char>, i: int) -> Option<JsonView>
    decreases fields.len() - i,
{
    if i < 0 || i >= fields.len() {
        None
    } else if fields[i].0 == name {
        Some(fields[i].1)
    } else {
        named_from(fields, name, i + 1)
    }
}

/// The value of a name in an object.
pub open spec fn named(v: JsonView, name: Seq<char>) -> Option<JsonView> {
    match v {
        JsonView::Object(fields) => named_from(fields, name, 0),
        _ => None,
    }
}

/// The text of a name in an object.
pub open spec fn text_named(v: JsonView, name: Seq<char>) -> Option<Seq<char>> {
    match named(v, name) {
        Some(JsonView::Text(text)) => Some(text),
        _ => None,
    }
}

/// The number of a name in an object.
pub open spec fn number_named(v: JsonView, name: Seq<char>) -> Option<int> {
    match named(v, name) {
        Some(JsonView::Number(n)) => Some(n),
        _ => None,
    }
}

/// The run that a text of five groups of digits names.
pub open spec fn run_named(t: Seq<char>) -> RunId {
    RunId {
        value: hex_number(
            t.subrange(0, 8) + t.subrange(9, 13) + t.subrange(14, 18) + t.subrange(19, 23) + t.subrange(24, 36),
        ) as u128,
    }
}

/// Reads an operation from the fields of an object: the text `op` tells which it is.
pub open spec fn read_operation(v: JsonView) -> Option<OperationView> {
    match (text_named(v, "op"@), text_named(v, "path"@)) {
        (Some(op), Some(path)) => if op == "create_file"@ {
            Some(OperationView::CreateFile { path })
        } else if op == "create_dir"@ {
            Some(OperationView::CreateDir { path })
        } else if op == "write"@ {
            match (number_named(v, "offset"@), text_named(v, "object"@), number_named(v, "len"@)) {
                (Some(offset), Some(object), Some(len)) => Some(
                    OperationView::Write { path, offset: offset as nat, object, len: len as nat },
                ),
                _ => None,
            }
        } else if op == "truncate"@ {
            match number_named(v, "len"@) {
                Some(len) => Some(OperationView::Truncate { path, len: len as nat }),
                None => None,
            }
        } else if op == "delete_path"@ {
            Some(OperationView::DeletePath { path })
        } else if op == "rename_path"@ {
            match text_named(v, "source_path"@) {
                Some(source_path) => Some(OperationView::RenamePath { source_path, path }),
                None => None,
            }
        } else if op == "chmod"@ {
            match named(v, "readonly"@) {
                Some(JsonView::Bool(readonly)) => Some(OperationView::Chmod { path, readonly }),
                _ => None,
            }
        } else if op == "fsync"@ {
            Some(OperationView::Fsync { path })
        } else {
            None
        },
        _ => None,
    }
}

/// Reads an event of an operation journal.
pub open spec fn read_operation_event(v: JsonView) -> Option<OperationEventView> {
    match (
        number_named(v, "schema_version"@),
        number_named(v, "seq"@),
        number_named(v, "ts"@),
        text_named(v, "run_id"@),
        text_named(v, "base_checkpoint"@),
        read_operation(v),
    ) {
        (Some(version), Some(seq), Some(ts), Some(run), Some(base_checkpoint), Some(op)) => Some(
            OperationEventView {
                schema_version: version as u32,
                seq: seq as nat,
                ts: ts as nat,
                run_id: run_named(run),
                base_checkpoint,
                op,
            },
        ),
        _ => None,
    }
}

/// Reads what a manifest records of a path: the text `type` tells the kind.
pub open spec fn read_entry(v: JsonView) -> Option<EntryView> {
    if text_named(v, "type"@) == Some("directory"@) {
        Some(EntryView::Directory)
    } else if text_named(v, "type"@) == Some("file"@) {
        match (
            number_named(v, "size"@),
            text_named(v, "hash"@),
            text_named(v, "object"@),
            named(v, "readonly"@),
        ) {
            (Some(size), Some(hash), Some(object), Some(JsonView::Bool(readonly))) => Some(
                EntryView::File { size: size as u64, hash, object, readonly },
            ),
            _ => None,
        }
    } else {
        None
    }
}

/// Reads what a manifest records of a path, or that it records nothing.
pub open spec fn read_optional_entry(v: Option<JsonView>) -> Option<Option<EntryView>> {
    match v {
        Some(JsonView::Null) => Some(None),
        Some(v) => match read_entry(v) {
            Some(e) => Some(Some(e)),
            None => None,
        },
        None => None,
    }
}

/// What a journal event does, by the text `op`.
pub open spec fn read_journal_op(op: Seq<char>) -> Option<WorkspaceJournalOp> {
    if op == "create_file"@ {
        Some(WorkspaceJournalOp::CreateFile)
    } else if op == "write_file"@ {
        Some(WorkspaceJournalOp::WriteFile)
    } else if op == "delete_path"@ {
        Some(WorkspaceJournalOp::DeletePath)
    } else if op == "rename_path"@ {
        Some(WorkspaceJournalOp::RenamePath)
    } else if op == "type_change"@ {
        Some(WorkspaceJournalOp::TypeChange)
    } else {
        None
    }
}

/// Reads an event of a run's journal.
pub open spec fn read_journal_event(v: JsonView) -> Option<JournalEventView> {
    match (
        (number_named(v, "schema_version"@), number_named(v, "seq"@), number_named(v, "ts"@)),
        (text_named(v, "run_id"@), text_named(v, "op"@), text_named(v, "path"@), named(v, "source_path"@)),
        (text_named(v, "base_checkpoint"@), text_named(v, "target_checkpoint"@)),
        (read_optional_entry(named(v, "before"@)), read_optional_entry(named(v, "after"@))),
    ) {
        (
            (Some(version), Some(seq), Some(ts)),
            (Some(run), Some(op), Some(path), Some(source)),
            (Some(base_checkpoint), Some(target_checkpoint)),
            (Some(before), Some(after)),
        ) => match read_journal_op(op) {
            Some(op) => Some(
                JournalEventView {
                    schema_version: version as u32,
                    seq: seq as nat,
                    ts: ts as nat,
                    run_id: run_named(run),
                    op,
                    path,
                    source_path: match source {
                        JsonView::Text(text) => Some(text),
                        _ => None,
                    },
                    base_checkpoint,
                    target_checkpoint,
                    before,
                    after,
                },
            ),
            None => None,
        },
        _ => None,
    }
}

/// The event that a line of a run's journal holds.
#[verifier::opaque]
pub open spec fn read_journal_line(line: Seq<char>) -> Option<JournalEventView> {
    match value_of_text(line) {
        Some(v) => read_journal_event(v),
        None => None,
    }
}

/// The event that a line of an operation journal holds.
#[verifier::opaque]
pub open spec fn read_operation_line(line: Seq<char>) -> Option<OperationEventView> {
    match value_of_text(line) {
        Some(v) => read_operation_event(v),
        None => None,
    }
}

/// The events that a run's journal holds: one on each line that is not blank.
pub open spec fn read_journal(text: Seq<char>) -> Seq<Option<JournalEventView>> {
    event_lines(text).map_values(|line: Seq<char>| read_journal_line(line))
}

/// The events that an operation journal holds: one on each line that is not blank.
pub open spec fn read_operations(text: Seq<char>) -> Seq<Option<OperationEventView>> {
    event_lines(text).map_values(|line: Seq<char>| read_operation_line(line))
}

/// The names of the fields of a journal event differ.
proof fn lemma_journal_names()
    ensures
        "after"@ != "base_checkpoint"@,
        "after"@ != "before"@,
        "base_checkpoint"@ != "before"@,
        "after"@ != "op"@,
        "base_checkpoint"@ != "op"@,
        "before"@ != "op"@,
        "after"@ != "path"@,
        "base_checkpoint"@ != "path"@,
        "before"@ != "path"@,
        "op"@ != "path"@,
        "after"@ != "run_id"@,
        "base_checkpoint"@ != "run_id"@,
        "before"@ != "run_id"@,
        "op"@ != "run_id"@,
        "path"@ != "run_id"@,
        "after"@ != "schema_version"@,
        "base_checkpoint"@ != "schema_version"@,
        "before"@ != "schema_version"@,
        "op"@ != "schema_version"@,
        "path"@ != "schema_version"@,
        "run_id"@ != "schema_version"@,
        "after"@ != "seq"@,
        "base_checkpoint"@ != "seq"@,
        "before"@ != "seq"@,
        "op"@ != "seq"@,
        "path"@ != "seq"@,
        "run_id"@ != "seq"@,
        "schema_version"@ != "seq"@,
        "after"@ != "source_path"@,
        "base_checkpoint"@ != "source_path"@,
        "before"@ != "source_path"@,
        "op"@ != "source_path"@,
        "path"@ != "source_path"@,
        "run_id"@ != "source_path"@,
        "schema_version"@ != "source_path"@,
        "seq"@ != "source_path"@,
        "after"@ != "target_checkpoint"@,
        "base_checkpoint"@ != "target_checkpoint"@,
        "before"@ != "target_checkpoint"@,
        "op"@ != "target_checkpoint"@,
        "path"@ != "target_checkpoint"@,
        "run_id"@ != "target_checkpoint"@,
        "schema_version"@ != "target_checkpoint"@,
        "seq"@ != "target_checkpoint"@,
        "source_path"@ != "target_checkpoint"@,
        "after"@ != "ts"@,
        "base_checkpoint"@ != "ts"@,
        "before"@ != "ts"@,
        "op"@ != "ts"@,
        "path"@ != "ts"@,
        "run_id"@ != "ts"@,
        "schema_version"@ != "ts"@,
        "seq"@ != "ts"@,
        "source_path"@ != "ts"@,
        "target_checkpoint"@ != "ts"@,
{
    reveal_strlit("after");
    reveal_strlit("base_checkpoint");
    reveal_strlit("before");
    reveal_strlit("op");
    reveal_strlit("path");
    reveal_strlit("run_id");
    reveal_strlit("schema_version");
    reveal_strlit("seq");
    reveal_strlit("source_path");
    reveal_strlit("target_checkpoint");
    reveal_strlit("ts");
    assert("after"@.len() == 5);
    assert("base_checkpoint"@.len() == 15);
    assert("before"@.len() == 6);
    assert("op"@.len() == 2);
    assert("path"@.len() == 4);
    assert("run_id"@.len() == 6);
    assert("schema_version"@.len() == 14);
    assert("seq"@.len() == 3);
    assert("source_path"@.len() == 11);
    assert("target_checkpoint"@.len() == 17);
    assert("ts"@.len() == 2);
    assert("before"@[0] != "run_id"@[0]);
    assert("op"@[0] != "ts"@[0]);
}

/// The names of the fields of an operation event differ.
proof fn lemma_operation_names()
    ensures
        "schema_version"@ != "seq"@,
        "schema_version"@ != "ts"@,
        "seq"@ != "ts"@,
        "schema_version"@ != "run_id"@,
        "seq"@ != "run_id"@,
        "ts"@ != "run_id"@,
        "schema_version"@ != "base_checkpoint"@,
        "seq"@ != "base_checkpoint"@,
        "ts"@ != "base_checkpoint"@,
        "run_id"@ != "base_checkpoint"@,
        "schema_version"@ != "op"@,
        "seq"@ != "op"@,
        "ts"@ != "op"@,
        "run_id"@ != "op"@,
        "base_checkpoint"@ != "op"@,
        "schema_version"@ != "path"@,
        "seq"@ != "path"@,
        "ts"@ != "path"@,
        "run_id"@ != "path"@,
        "base_checkpoint"@ != "path"@,
        "op"@ != "path"@,
        "schema_version"@ != "source_path"@,
        "seq"@ != "source_path"@,
        "ts"@ != "source_path"@,
        "run_id"@ != "source_path"@,
        "base_checkpoint"@ != "source_path"@,
        "op"@ != "source_path"@,
        "path"@ != "source_path"@,
        "schema_version"@ != "offset"@,
        "seq"@ != "offset"@,
        "ts"@ != "offset"@,
        "run_id"@ != "offset"@,
        "base_checkpoint"@ != "offset"@,
        "op"@ != "offset"@,
        "path"@ != "offset"@,
        "source_path"@ != "offset"@,
        "schema_version"@ != "object"@,
        "seq"@ != "object"@,
        "ts"@ != "object"@,
        "run_id"@ != "object"@,
        "base_checkpoint"@ != "object"@,
        "op"@ != "object"@,
        "path"@ != "object"@,
        "source_path"@ != "object"@,
        "offset"@ != "object"@,
        "schema_version"@ != "len"@,
        "seq"@ != "len"@,
        "ts"@ != "len"@,
        "run_id"@ != "len"@,
        "base_checkpoint"@ != "len"@,
        "op"@ != "len"@,
        "path"@ != "len"@,
        "source_path"@ != "len"@,
        "offset"@ != "len"@,
        "object"@ != "len"@,
        "schema_version"@ != "readonly"@,
        "seq"@ != "readonly"@,
        "ts"@ != "readonly"@,
        "run_id"@ != "readonly"@,
        "base_checkpoint"@ != "readonly"@,
        "op"@ != "readonly"@,
        "path"@ != "readonly"@,
        "source_path"@ != "readonly"@,
        "offset"@ != "readonly"@,
        "object"@ != "readonly"@,
        "len"@ != "readonly"@,
{
    reveal_strlit("schema_version");
    reveal_strlit("seq");
    reveal_strlit("ts");
    reveal_strlit("run_id");
    reveal_strlit("base_checkpoint");
    reveal_strlit("op");
    reveal_strlit("path");
    reveal_strlit("source_path");
    reveal_strlit("offset");
    reveal_strlit("object");
    reveal_strlit("len");
    reveal_strlit("readonly");
    assert("schema_version"@.len() == 14);
    assert("seq"@.len() == 3);
    assert("ts"@.len() == 2);
    assert("run_id"@.len() == 6);
    assert("base_checkpoint"@.len() == 15);
    assert("op"@.len() == 2);
    assert("path"@.len() == 4);
    assert("source_path"@.len() == 11);
    assert("offset"@.len() == 6);
    assert("object"@.len() == 6);
    assert("len"@.len() == 3);
    assert("readonly"@.len() == 8);
    assert("ts"@[0] != "op"@[0]);
    assert("run_id"@[0] != "offset"@[0]);
    assert("run_id"@[0] != "object"@[0]);
    assert("offset"@[1] != "object"@[1]);
    assert("seq"@[0] != "len"@[0]);
}

/// The names of the fields of an entry differ.
proof fn lemma_entry_names()
    ensures
        "hash"@ != "object"@,
        "hash"@ != "readonly"@,
        "object"@ != "readonly"@,
        "hash"@ != "size"@,
        "object"@ != "size"@,
        "readonly"@ != "size"@,
        "hash"@ != "type"@,
        "object"@ != "type"@,
        "readonly"@ != "type"@,
        "size"@ != "type"@,
{
    reveal_strlit("hash");
    reveal_strlit("object");
    reveal_strlit("readonly");
    reveal_strlit("size");
    reveal_strlit("type");
    assert("hash"@.len() == 4);
    assert("object"@.len() == 6);
    assert("readonly"@.len() == 8);
    assert("size"@.len() == 4);
    assert("type"@.len() == 4);
    assert("hash"@[0] != "size"@[0]);
    assert("hash"@[0] != "type"@[0]);
    assert("size"@[0] != "type"@[0]);
}

/// The names of the operations differ.
proof fn lemma_operations_differ()
    ensures
        "create_file"@ != "create_dir"@,
        "create_file"@ != "write"@,
        "create_dir"@ != "write"@,
        "create_file"@ != "truncate"@,
        "create_dir"@ != "truncate"@,
        "write"@ != "truncate"@,
        "create_file"@ != "delete_path"@,
        "create_dir"@ != "delete_path"@,
        "write"@ != "delete_path"@,
        "truncate"@ != "delete_path"@,
        "create_file"@ != "rename_path"@,
        "create_dir"@ != "rename_path"@,
        "write"@ != "rename_path"@,
        "truncate"@ != "rename_path"@,
        "delete_path"@ != "rename_path"@,
        "create_file"@ != "chmod"@,
        "create_dir"@ != "chmod"@,
        "write"@ != "chmod"@,
        "truncate"@ != "chmod"@,
        "delete_path"@ != "chmod"@,
        "rename_path"@ != "chmod"@,
        "create_file"@ != "fsync"@,
        "create_dir"@ != "fsync"@,
        "write"@ != "fsync"@,
        "truncate"@ != "fsync"@,
        "delete_path"@ != "fsync"@,
        "rename_path"@ != "fsync"@,
        "chmod"@ != "fsync"@,
{
    reveal_strlit("create_file");
    reveal_strlit("create_dir");
    reveal_strlit("write");
    reveal_strlit("truncate");
    reveal_strlit("delete_path");
    reveal_strlit("rename_path");
    reveal_strlit("chmod");
    reveal_strlit("fsync");
    assert("create_file"@.len() == 11);
    assert("create_dir"@.len() == 10);
    assert("write"@.len() == 5);
    assert("truncate"@.len() == 8);
    assert("delete_path"@.len() == 11);
    assert("rename_path"@.len() == 11);
    assert("chmod"@.len() == 5);
    assert("fsync"@.len() == 5);
    assert("create_file"@[0] != "delete_path"@[0]);
    assert("create_file"@[0] != "rename_path"@[0]);
    assert("delete_path"@[0] != "rename_path"@[0]);
    assert("write"@[0] != "chmod"@[0]);
    assert("write"@[0] != "fsync"@[0]);
    assert("chmod"@[0] != "fsync"@[0]);
}

/// The names of the journal operations differ.
proof fn lemma_journal_ops_differ()
    ensures
        "create_file"@ != "write_file"@,
        "create_file"@ != "delete_path"@,
        "write_file"@ != "delete_path"@,
        "create_file"@ != "rename_path"@,
        "write_file"@ != "rename_path"@,
        "delete_path"@ != "rename_path"@,
        "create_file"@ != "type_change"@,
        "write_file"@ != "type_change"@,
        "delete_path"@ != "type_change"@,
        "rename_path"@ != "type_change"@,
{
    reveal_strlit("create_file");
    reveal_strlit("write_file");
    reveal_strlit("delete_path");
    reveal_strlit("rename_path");
    reveal_strlit("type_change");
    assert("create_file"@.len() == 11);
    assert("write_file"@.len() == 10);
    assert("delete_path"@.len() == 11);
    assert("rename_path"@.len() == 11);
    assert("type_change"@.len() == 11);
    assert("create_file"@[0] != "delete_path"@[0]);
    assert("create_file"@[0] != "rename_path"@[0]);
    assert("delete_path"@[0] != "rename_path"@[0]);
    assert("create_file"@[0] != "type_change"@[0]);
    assert("delete_path"@[0] != "type_change"@[0]);
    assert("rename_path"@[0] != "type_change"@[0]);
}

/// The text of a run's identifier names the run.
pub proof fn a_run_is_known_by_its_text(run_id: RunId)
    ensures
        run_named(hyphenated(run_id.value)) == run_id,
{
    an_identifier_is_written_in_five_groups(run_id.value);
    the_digits_of_an_identifier_tell_its_value(run_id.value);
}

/// The form of an operation event is read as the event.
proof fn lemma_operation_read(e: OperationEventView)
    ensures
        read_operation_event(operation_event_form(e)) == Some(e),
{
    lemma_operation_names();
    lemma_operations_differ();
    a_run_is_known_by_its_text(e.run_id);
    reveal_with_fuel(named_from, 11);
    let v = operation_event_form(e);
    let fields = v->Object_0;
    let own = operation_fields(e.op);
    assert(fields.len() == 5 + own.len());
    assert(fields[0] == ("schema_version"@, JsonView::Number(e.schema_version as int)));
    assert(fields[1] == ("seq"@, JsonView::Number(e.seq as int)));
    assert(fields[2] == ("ts"@, JsonView::Number(e.ts as int)));
    assert(fields[3] == ("run_id"@, JsonView::Text(hyphenated(e.run_id.value))));
    assert(fields[4] == ("base_checkpoint"@, JsonView::Text(e.base_checkpoint)));
    assert(fields[5] == own[0]);
    assert(fields[6] == own[1]);
    if own.len() > 2 {
        assert(fields[7] == own[2]);
    }
    if own.len() > 3 {
        assert(fields[8] == own[3]);
        assert(fields[9] == own[4]);
    }
    assert(number_named(v, "schema_version"@) == Some(e.schema_version as int));
    assert(number_named(v, "seq"@) == Some(e.seq as int));
    assert(number_named(v, "ts"@) == Some(e.ts as int));
    assert(text_named(v, "run_id"@) == Some(hyphenated(e.run_id.value)));
    assert(text_named(v, "base_checkpoint"@) == Some(e.base_checkpoint));
    assert(read_operation(v) == Some(e.op));
}

/// The line of an operation event tells the operation by its literal name.
pub proof fn each_operation_is_told_by_its_name(event: WorkspaceOperationEvent, line: String)
    requires
        call_ensures(operation_line, (&event,), line),
    ensures
        line@.len() > 0 && line@.last() == '\n',
        ({
            let v = value_of_text(line@.drop_last());
            &&& v is Some
            &&& read_operation_event(v->0) == Some(event@)
            &&& text_named(v->0, "op"@) == Some(
                match event@.op {
                    OperationView::CreateFile { .. } => "create_file"@,
                    OperationView::CreateDir { .. } => "create_dir"@,
                    OperationView::Write { .. } => "write"@,
                    OperationView::Truncate { .. } => "truncate"@,
                    OperationView::DeletePath { .. } => "delete_path"@,
                    OperationView::RenamePath { .. } => "rename_path"@,
                    OperationView::Chmod { .. } => "chmod"@,
                    OperationView::Fsync { .. } => "fsync"@,
                },
            )
        }),
{
    let v = operation_event_form(event@);
    assert(line@ == json_text(v).push('\n'));
    assert(line@.drop_last() =~= json_text(v));
    a_written_value_is_read_back(v);
    lemma_operation_read(event@);
    lemma_operations_differ();
}

/// What is appended to an operation journal is read from it: the journal's text
/// with the line of an event is read as the events before it and the event.
pub proof fn an_operation_journal_is_read_back(text: Seq<char>, event: WorkspaceOperationEvent, line: String)
    requires
        call_ensures(operation_line, (&event,), line),
        text.len() == 0 || text.last() == '\n',
    ensures
        read_operations(text + line@) == read_operations(text).push(Some(event@)),
{
    let body = lemma_operation_line(text, event, line);
    lemma_map_push(event_lines(text), body, |line: Seq<char>| read_operation_line(line));
}

proof fn lemma_operation_line(text: Seq<char>, event: WorkspaceOperationEvent, line: String) -> (body: Seq<char>)
    requires
        call_ensures(operation_line, (&event,), line),
        text.len() == 0 || text.last() == '\n',
    ensures
        event_lines(text + line@) == event_lines(text).push(body),
        read_operation_line(body) == Some(event@),
{
    let v = operation_event_form(event@);
    reveal(read_operation_line);
    a_written_value_is_read_back(v);
    lemma_operation_read(event@);
    assert(crate::versioned_fs::lines::ended(text));
    json_text(v)
}

proof fn lemma_map_push<A, B>(list: Seq<A>, x: A, f: spec_fn(A) -> B)
    ensures
        list.push(x).map_values(f) == list.map_values(f).push(f(x)),
{
    assert(list.push(x).map_values(f) =~= list.map_values(f).push(f(x)));
}

/// The form of an entry is read as the entry.
proof fn lemma_entry_read(e: Option<EntryView>)
    ensures
        read_optional_entry(Some(optional_entry_form(e))) == Some(e),
{
    lemma_entry_names();
    reveal_strlit("file");
    reveal_strlit("directory");
    assert("file"@.len() == 4 && "directory"@.len() == 9);
    reveal_with_fuel(named_from, 6);
    match e {
        None => {},
        Some(EntryView::Directory) => {
            let v = entry_form(EntryView::Directory);
            assert(v->Object_0[0] == ("type"@, JsonView::Text("directory"@)));
            assert(text_named(v, "type"@) == Some("directory"@));
        },
        Some(EntryView::File { size, hash, object, readonly }) => {
            let v = entry_form(e->0);
            let fields = v->Object_0;
            assert(fields.len() == 5);
            assert(fields[0] == ("hash"@, JsonView::Text(hash)));
            assert(fields[1] == ("object"@, JsonView::Text(object)));
            assert(fields[2] == ("readonly"@, JsonView::Bool(readonly)));
            assert(fields[3] == ("size"@, JsonView::Number(size as int)));
            assert(fields[4] == ("type"@, JsonView::Text("file"@)));
            assert(text_named(v, "type"@) == Some("file"@));
            assert("file"@ != "directory"@);
            assert(text_named(v, "hash"@) == Some(hash));
            assert(text_named(v, "object"@) == Some(object));
            assert(named(v, "readonly"@) == Some(JsonView::Bool(readonly)));
            assert(number_named(v, "size"@) == Some(size as int));
        },
    }
}

/// The form of a journal event is read as the event.
proof fn lemma_journal_read(e: JournalEventView)
    ensures
        read_journal_event(journal_event_form(e)) == Some(e),
        text_named(journal_event_form(e), "op"@) == Some(
            match e.op {
                WorkspaceJournalOp::CreateFile => "create_file"@,
                WorkspaceJournalOp::WriteFile => "write_file"@,
                WorkspaceJournalOp::DeletePath => "delete_path"@,
                WorkspaceJournalOp::RenamePath => "rename_path"@,
                WorkspaceJournalOp::TypeChange => "type_change"@,
            },
        ),
        text_named(journal_event_form(e), "path"@) == Some(e.path),
{
    lemma_journal_names();
    lemma_journal_ops_differ();
    a_run_is_known_by_its_text(e.run_id);
    lemma_entry_read(e.before);
    lemma_entry_read(e.after);
    reveal_with_fuel(named_from, 12);
    let v = journal_event_form(e);
    let f = v->Object_0;
    assert(f.len() == 11);
    assert(f[0] == ("after"@, optional_entry_form(e.after)));
    assert(f[1] == ("base_checkpoint"@, JsonView::Text(e.base_checkpoint)));
    assert(f[2] == ("before"@, optional_entry_form(e.before)));
    assert(f[3].0 == "op"@);
    assert(f[4] == ("path"@, JsonView::Text(e.path)));
    assert(f[5] == ("run_id"@, JsonView::Text(hyphenated(e.run_id.value))));
    assert(f[6] == ("schema_version"@, JsonView::Number(e.schema_version as int)));
    assert(f[7] == ("seq"@, JsonView::Number(e.seq as int)));
    assert(f[8].0 == "source_path"@);
    assert(f[9] == ("target_checkpoint"@, JsonView::Text(e.target_checkpoint)));
    assert(f[10] == ("ts"@, JsonView::Number(e.ts as int)));
    assert(named(v, "after"@) == Some(optional_entry_form(e.after)));
    assert(named(v, "before"@) == Some(optional_entry_form(e.before)));
    assert(text_named(v, "base_checkpoint"@) == Some(e.base_checkpoint));
    assert(text_named(v, "target_checkpoint"@) == Some(e.target_checkpoint));
    assert(named(v, "op"@) == Some(f[3].1));
    assert(text_named(v, "path"@) == Some(e.path));
    assert(text_named(v, "run_id"@) == Some(hyphenated(e.run_id.value)));
    assert(number_named(v, "schema_version"@) == Some(e.schema_version as int));
    assert(number_named(v, "seq"@) == Some(e.seq as int));
    assert(named(v, "source_path"@) == Some(f[8].1));
    assert(number_named(v, "ts"@) == Some(e.ts as int));
}

/// The line of a change tells by a literal name what was done to the path: it
/// was created, written, deleted, renamed, or became something of another kind.
pub proof fn each_change_is_told_by_its_name(
    run_id: RunId,
    from: Seq<char>,
    to: Seq<char>,
    change: ChangeView,
    index: int,
    ts: nat,
)
    ensures
        ({
            let v = value_of_text(json_text(journal_event_form(event_of(run_id, from, to, change, index, ts))));
            &&& v is Some
            &&& text_named(v->0, "path"@) == Some(change.path)
            &&& text_named(v->0, "op"@) == Some(
                match change.kind {
                    WorkspaceChangeKind::Added => "create_file"@,
                    WorkspaceChangeKind::Modified => "write_file"@,
                    WorkspaceChangeKind::Deleted => "delete_path"@,
                    WorkspaceChangeKind::Renamed => "rename_path"@,
                    WorkspaceChangeKind::TypeChanged => "type_change"@,
                },
            )
        }),
{
    let e = event_of(run_id, from, to, change, index, ts);
    a_written_value_is_read_back(journal_event_form(e));
    lemma_journal_read(e);
}

/// The name of what a journal event does.
pub proof fn journal_operations_have_their_names(op: WorkspaceJournalOp, name: String)
    requires
        call_ensures(WorkspaceJournalOp::name, (&op,), name),
    ensures
        read_journal_op(name@) == Some(op),
{
    lemma_journal_ops_differ();
}

/// The text of a run's journal is read as its events, all of them, in order.
pub proof fn a_journal_is_read_back(events: &[WorkspaceJournalEvent], text: String)
    requires
        call_ensures(journal_text, (events,), text),
    ensures
        read_journal(text@).len() == events@.len(),
        forall|i: int| 0 <= i < events@.len() ==> #[trigger] read_journal(text@)[i] == Some(events@[i]@),
{
    let list = event_views(events@);
    assert(event_lines(text@) == journal_event_texts(list));
    assert forall|i: int| 0 <= i < events@.len() implies #[trigger] read_journal(text@)[i] == Some(events@[i]@) by {
        assert(list[i] == events@[i]@);
        assert(event_lines(text@)[i] == json_text(journal_event_form(list[i])));
        reveal(read_journal_line);
        a_written_value_is_read_back(journal_event_form(list[i]));
        lemma_journal_read(list[i]);
    }
}

/// Redo from the file: the journal of the changes from one manifest to another,
/// read from its text and replayed on the first, gives the second.
pub proof fn a_read_journal_redoes_the_run(
    from: Map<Seq<char>, EntryView>,
    to: Map<Seq<char>, EntryView>,
    run_id: RunId,
    from_id: Seq<char>,
    to_id: Seq<char>,
    stamps: Seq<u128>,
    events: &[WorkspaceJournalEvent],
    text: String,
)
    requires
        from.dom().finite(),
        to.dom().finite(),
        event_views(events@) == journal_of(run_id, from_id, to_id, diff_changes(from, to), stamps),
        call_ensures(journal_text, (events,), text),
    ensures
        ({
            let read = read_journal(text@).map_values(|e: Option<JournalEventView>| e->0);
            &&& forall|i: int| 0 <= i < read_journal(text@).len() ==> (#[trigger] read_journal(text@)[i]) is Some
            &&& replayed(from, read, None, None, read.len() as int) == Ok::<(Map<Seq<char>, EntryView>, nat), nat>(
                (to, read.len()),
            )
        }),
{
    a_journal_is_read_back(events, text);
    let read = read_journal(text@).map_values(|e: Option<JournalEventView>| e->0);
    let list = event_views(events@);
    assert(read =~= list) by {
        assert forall|i: int| 0 <= i < list.len() implies read[i] == list[i] by {
            assert(read_journal(text@)[i] == Some(events@[i]@));
        }
    }
    replaying_the_journal_reaches_the_target(from, to, run_id, from_id, to_id, stamps);
}

} // verus!
