//! The lines that the journals are written as.

use crate::forms::{optional_entry_form, optional_entry_json};
use crate::json::{
    field, field_views, fields_text, json_is_written_on_one_line, json_text, object, one_line,
    optional_text, optional_text_json, text_json, Json, JsonView,
};
use crate::json_laws::a_json_text_stands_for_one_value;
use crate::run_id::{hyphenated, run_ids_are_told_apart, RunId};
use crate::text::{is_space, lemma_split_nonempty, lines, split, strip_return, trim};
use crate::versioned_fs::journal::{
    event_lines, event_views, JournalEventView, WorkspaceJournalEvent, WorkspaceJournalOp,
};
use crate::versioned_fs::error::FsErrorView;
use crate::versioned_fs::operation::{
    appended, is_operation_journal, OperationEventView, OperationView, WorkspaceOperation,
    WorkspaceOperationEvent, FS_OPERATION_JOURNAL_SCHEMA_VERSION,
};
use vstd::prelude::*;

verus! {

/// The name of a journal operation.
pub open spec fn journal_op_name(op: WorkspaceJournalOp) -> Seq<char> {
    match op {
        WorkspaceJournalOp::CreateFile => "create_file"@,
        WorkspaceJournalOp::WriteFile => "write_file"@,
        WorkspaceJournalOp::DeletePath => "delete_path"@,
        WorkspaceJournalOp::RenamePath => "rename_path"@,
        WorkspaceJournalOp::TypeChange => "type_change"@,
    }
}

impl WorkspaceJournalOp {
    /// The name of the operation.
    pub fn name(&self) -> (s: String)
        ensures
            s@ == journal_op_name(*self),
    {
        match self {
            WorkspaceJournalOp::CreateFile => "create_file".to_string(),
            WorkspaceJournalOp::WriteFile => "write_file".to_string(),
            WorkspaceJournalOp::DeletePath => "delete_path".to_string(),
            WorkspaceJournalOp::RenamePath => "rename_path".to_string(),
            WorkspaceJournalOp::TypeChange => "type_change".to_string(),
        }
    }
}

/// The form of a journal event; fields stand in ascending order of their keys.
pub open spec fn journal_event_form(e: JournalEventView) -> JsonView {
    JsonView::Object(
        seq![
            ("after"@, optional_entry_form(e.after)),
            ("base_checkpoint"@, JsonView::Text(e.base_checkpoint)),
            ("before"@, optional_entry_form(e.before)),
            ("op"@, JsonView::Text(journal_op_name(e.op))),
            ("path"@, JsonView::Text(e.path)),
            ("run_id"@, JsonView::Text(hyphenated(e.run_id.value))),
            ("schema_version"@, JsonView::Number(e.schema_version as int)),
            ("seq"@, JsonView::Number(e.seq as int)),
            ("source_path"@, optional_text(e.source_path)),
            ("target_checkpoint"@, JsonView::Text(e.target_checkpoint)),
            ("ts"@, JsonView::Number(e.ts as int)),
        ],
    )
}

/// The form of a journal event.
pub fn journal_event_json(e: &WorkspaceJournalEvent) -> (j: Json)
    ensures
        j@ == journal_event_form(e@),
{
    let mut fields: Vec<(String, Json)> = Vec::new();
    assert(field_views(fields@) =~= Seq::empty());
    field(&mut fields, "after", optional_entry_json(&e.after));
    field(&mut fields, "base_checkpoint", text_json(e.base_checkpoint.as_str()));
    field(&mut fields, "before", optional_entry_json(&e.before));
    field(&mut fields, "op", Json::Text(e.op.name()));
    field(&mut fields, "path", text_json(e.path.as_str()));
    field(&mut fields, "run_id", Json::Text(e.run_id.text()));
    field(&mut fields, "schema_version", Json::UInt(e.schema_version as u128));
    field(&mut fields, "seq", Json::UInt(e.seq as u128));
    field(&mut fields, "source_path", optional_text_json(&e.source_path));
    field(&mut fields, "target_checkpoint", text_json(e.target_checkpoint.as_str()));
    field(&mut fields, "ts", Json::UInt(e.ts));
    assert(field_views(fields@) =~= journal_event_form(e@)->Object_0);
    object(fields)
}

/// The fields of an operation: its name, then what it says.
pub open spec fn operation_fields(op: OperationView) -> Seq<(Seq<char>, JsonView)> {
    match op {
        OperationView::CreateFile { path } => seq![
            ("op"@, JsonView::Text("create_file"@)),
            ("path"@, JsonView::Text(path)),
        ],
        OperationView::CreateDir { path } => seq![
            ("op"@, JsonView::Text("create_dir"@)),
            ("path"@, JsonView::Text(path)),
        ],
        OperationView::Write { path, offset, object, len } => seq![
            ("op"@, JsonView::Text("write"@)),
            ("path"@, JsonView::Text(path)),
            ("offset"@, JsonView::Number(offset as int)),
            ("object"@, JsonView::Text(object)),
            ("len"@, JsonView::Number(len as int)),
        ],
        OperationView::Truncate { path, len } => seq![
            ("op"@, JsonView::Text("truncate"@)),
            ("path"@, JsonView::Text(path)),
            ("len"@, JsonView::Number(len as int)),
        ],
        OperationView::DeletePath { path } => seq![
            ("op"@, JsonView::Text("delete_path"@)),
            ("path"@, JsonView::Text(path)),
        ],
        OperationView::RenamePath { source_path, path } => seq![
            ("op"@, JsonView::Text("rename_path"@)),
            ("source_path"@, JsonView::Text(source_path)),
            ("path"@, JsonView::Text(path)),
        ],
        OperationView::Chmod { path, readonly } => seq![
            ("op"@, JsonView::Text("chmod"@)),
            ("path"@, JsonView::Text(path)),
            ("readonly"@, JsonView::Bool(readonly)),
        ],
        OperationView::Fsync { path } => seq![
            ("op"@, JsonView::Text("fsync"@)),
            ("path"@, JsonView::Text(path)),
        ],
    }
}

/// Adds the fields of an operation.
fn push_operation(fields: &mut Vec<(String, Json)>, op: &WorkspaceOperation)
    ensures
        field_views(final(fields)@) == field_views(old(fields)@) + operation_fields(op@),
{
    let ghost start = field_views(fields@);
    match op {
        WorkspaceOperation::CreateFile { path } => {
            field(fields, "op", text_json("create_file"));
            field(fields, "path", text_json(path.as_str()));
        },
        WorkspaceOperation::CreateDir { path } => {
            field(fields, "op", text_json("create_dir"));
            field(fields, "path", text_json(path.as_str()));
        },
        WorkspaceOperation::Write { path, offset, object: id, len } => {
            field(fields, "op", text_json("write"));
            field(fields, "path", text_json(path.as_str()));
            field(fields, "offset", Json::UInt(*offset as u128));
            field(fields, "object", text_json(id.as_str()));
            field(fields, "len", Json::UInt(*len as u128));
        },
        WorkspaceOperation::Truncate { path, len } => {
            field(fields, "op", text_json("truncate"));
            field(fields, "path", text_json(path.as_str()));
            field(fields, "len", Json::UInt(*len as u128));
        },
        WorkspaceOperation::DeletePath { path } => {
            field(fields, "op", text_json("delete_path"));
            field(fields, "path", text_json(path.as_str()));
        },
        WorkspaceOperation::RenamePath { source_path, path } => {
            field(fields, "op", text_json("rename_path"));
            field(fields, "source_path", text_json(source_path.as_str()));
            field(fields, "path", text_json(path.as_str()));
        },
        WorkspaceOperation::Chmod { path, readonly } => {
            field(fields, "op", text_json("chmod"));
            field(fields, "path", text_json(path.as_str()));
            field(fields, "readonly", Json::Bool(*readonly));
        },
        WorkspaceOperation::Fsync { path } => {
            field(fields, "op", text_json("fsync"));
            field(fields, "path", text_json(path.as_str()));
        },
    }
    assert(field_views(fields@) =~= start + operation_fields(op@));
}

/// The form of an operation event: the event's own fields, then the operation's.
pub open spec fn operation_event_form(e: OperationEventView) -> JsonView {
    JsonView::Object(
        seq![
            ("schema_version"@, JsonView::Number(e.schema_version as int)),
            ("seq"@, JsonView::Number(e.seq as int)),
            ("ts"@, JsonView::Number(e.ts as int)),
            ("run_id"@, JsonView::Text(hyphenated(e.run_id.value))),
            ("base_checkpoint"@, JsonView::Text(e.base_checkpoint)),
        ] + operation_fields(e.op),
    )
}

/// The form of an operation event.
pub fn operation_event_json(e: &WorkspaceOperationEvent) -> (j: Json)
    ensures
        j@ == operation_event_form(e@),
{
    let mut fields: Vec<(String, Json)> = Vec::new();
    assert(field_views(fields@) =~= Seq::empty());
    field(&mut fields, "schema_version", Json::UInt(e.schema_version as u128));
    field(&mut fields, "seq", Json::UInt(e.seq as u128));
    field(&mut fields, "ts", Json::UInt(e.ts));
    field(&mut fields, "run_id", Json::Text(e.run_id.text()));
    field(&mut fields, "base_checkpoint", text_json(e.base_checkpoint.as_str()));
    push_operation(&mut fields, &e.op);
    assert(field_views(fields@) =~= operation_event_form(e@)->Object_0);
    object(fields)
}

/// A text in which every line has ended.
pub open spec fn ended(text: Seq<char>) -> bool {
    text.len() == 0 || text.last() == '\n'
}

/// The text of a file with these lines.
pub open spec fn file_text(list: Seq<Seq<char>>) -> Seq<char>
    decreases list.len(),
{
    if list.len() == 0 {
        Seq::empty()
    } else {
        file_text(list.drop_last()) + list.last().push('\n')
    }
}

/// A line that starts inside a text with only ended lines is its last piece.
proof fn lemma_split_open_line(text: Seq<char>, line: Seq<char>)
    requires
        ended(text),
        one_line(line),
    ensures
        split(text + line, '\n') == split(text, '\n').drop_last().push(line),
    decreases line.len(),
{
    lemma_split_nonempty(text, '\n');
    if line.len() == 0 {
        assert(text + line =~= text);
        assert(line =~= Seq::<char>::empty());
        assert(split(text, '\n').last() =~= line);
        assert(split(text, '\n') =~= split(text, '\n').drop_last().push(split(text, '\n').last()));
    } else {
        lemma_split_open_line(text, line.drop_last());
        assert((text + line).drop_last() =~= text + line.drop_last());
        let pieces = split(text + line.drop_last(), '\n');
        assert(pieces.drop_last() =~= split(text, '\n').drop_last());
        assert(pieces.last().push(line.last()) =~= line);
    }
}

/// A text that does not end in a blank does not vanish when it is trimmed.
proof fn lemma_trim_keeps(s: Seq<char>)
    requires
        s.len() > 0,
        !is_space(s.last()),
    ensures
        trim(s).len() > 0,
    decreases s.len(),
{
    if is_space(s[0]) {
        assert(s.len() > 1);
        assert(s.drop_first().last() == s.last());
        lemma_trim_keeps(s.drop_first());
    }
}

/// What is appended to a journal as a line is read back as its last event line,
/// and the lines before it are read as they were.
pub proof fn an_appended_line_is_read_back(text: Seq<char>, line: Seq<char>)
    requires
        ended(text),
        one_line(line),
        line.len() > 0,
        !is_space(line.last()),
    ensures
        ended(text + line.push('\n')),
        event_lines(text + line.push('\n')) == event_lines(text).push(line),
{
    let whole = text + line.push('\n');
    let keep = |l: Seq<char>| trim(l).len() > 0;
    let strip = |p: Seq<char>| strip_return(p);
    lemma_split_nonempty(text, '\n');
    lemma_split_open_line(text, line);
    assert(whole.drop_last() =~= text + line);
    let pieces = split(text, '\n');
    assert(split(whole, '\n') == pieces.drop_last().push(line).push(Seq::empty()));
    assert(pieces.last() =~= Seq::<char>::empty());
    assert(lines(text) == pieces.drop_last().map_values(strip));
    assert(split(whole, '\n').drop_last() =~= pieces.drop_last().push(line));
    assert(lines(whole) =~= lines(text).push(strip_return(line)));
    assert(lines(whole) =~= lines(text).push(line));
    lemma_trim_keeps(line);
    assert(lines(whole).drop_last() =~= lines(text));
    reveal(Seq::filter);
    assert(keep(line));
    assert(lines(whole).filter(keep) == lines(text).filter(keep).push(line));
}

/// The text of an object starts with a brace and ends with one.
proof fn lemma_object_line(fields: Seq<(Seq<char>, JsonView)>)
    ensures
        json_text(JsonView::Object(fields)).len() > 0,
        !is_space(json_text(JsonView::Object(fields)).last()),
        one_line(json_text(JsonView::Object(fields))),
{
    reveal_strlit("{");
    reveal_strlit("}");
    json_is_written_on_one_line(JsonView::Object(fields));
    assert(json_text(JsonView::Object(fields)) == "{"@ + fields_text(fields, fields.len() as int) + "}"@);
}

/// The lines of a list of journal events.
pub open spec fn journal_event_texts(list: Seq<JournalEventView>) -> Seq<Seq<char>> {
    list.map_values(|e: JournalEventView| json_text(journal_event_form(e)))
}

/// The text of a journal: one line for each event, which are the event lines
/// that are read from it.
pub fn journal_text(events: &[WorkspaceJournalEvent]) -> (text: String)
    ensures
        text@ == file_text(journal_event_texts(event_views(events@))),
        event_lines(text@) == journal_event_texts(event_views(events@)),
{
    let ghost list = journal_event_texts(event_views(events@));
    let mut text = String::new();
    assert(list.take(0) =~= Seq::<Seq<char>>::empty());
    proof {
        assert(split(Seq::<char>::empty(), '\n') =~= seq![Seq::<char>::empty()]);
        assert(lines(Seq::<char>::empty()) =~= Seq::<Seq<char>>::empty());
        reveal(Seq::filter);
        assert(event_lines(text@) =~= list.take(0));
    }
    for i in 0..events.len()
        invariant
            list == journal_event_texts(event_views(events@)),
            ended(text@),
            text@ == file_text(list.take(i as int)),
            event_lines(text@) == list.take(i as int),
    {
        let event = journal_event_json(&events[i]);
        let line = event.text();
        let ghost start = text@;
        proof {
            assert(event_views(events@)[i as int] == events@[i as int]@);
            assert(line@ == list[i as int]);
            lemma_object_line(journal_event_form(events@[i as int]@)->Object_0);
            an_appended_line_is_read_back(start, line@);
            assert(list.take(i + 1).drop_last() =~= list.take(i as int));
            assert(list.take(i + 1) =~= list.take(i as int).push(line@));
        }
        text.append(line.as_str());
        text.push('\n');
        assert(text@ =~= start + line@.push('\n'));
    }
    assert(list.take(list.len() as int) =~= list);
    text
}

/// The line that is appended to an operation journal for an event: appended to
/// a journal, it is read back as the last event line.
pub fn operation_line(event: &WorkspaceOperationEvent) -> (line: String)
    ensures
        line@ == json_text(operation_event_form(event@)).push('\n'),
        forall|text: Seq<char>| #[trigger] ended(text) ==> {
            &&& ended(text + line@)
            &&& event_lines(text + line@) == event_lines(text).push(json_text(operation_event_form(event@)))
        },
{
    let mut line = operation_event_json(event).text();
    let ghost body = line@;
    line.push('\n');
    proof {
        lemma_object_line(operation_event_form(event@)->Object_0);
        assert forall|text: Seq<char>| #[trigger] ended(text) implies ended(text + line@) && event_lines(text + line@) == event_lines(text).push(body) by {
            an_appended_line_is_read_back(text, body);
        }
    }
    line
}

/// The lines of a list of operation events.
pub open spec fn operation_texts(list: Seq<OperationEventView>) -> Seq<Seq<char>> {
    list.map_values(|e: OperationEventView| json_text(operation_event_form(e)))
}

/// The text is that of an operation journal with these events: every line has
/// ended, and the event lines are those of the events.
pub open spec fn holds_events(text: Seq<char>, events: Seq<OperationEventView>) -> bool {
    &&& ended(text)
    &&& event_lines(text) == operation_texts(events)
}

/// An empty file is the journal without events.
pub proof fn an_empty_file_holds_no_events()
    ensures
        holds_events(Seq::empty(), Seq::empty()),
        is_operation_journal(Seq::empty()),
{
    assert(split(Seq::<char>::empty(), '\n') =~= seq![Seq::<char>::empty()]);
    assert(lines(Seq::<char>::empty()) =~= Seq::<Seq<char>>::empty());
    reveal(Seq::filter);
    assert(event_lines(Seq::empty()) =~= operation_texts(Seq::empty()));
}

/// Appending: once the line of a recorded operation is appended to a journal,
/// the journal holds the events that it held, followed by that of the
/// operation. The event carries the next number, the run, the base checkpoint
/// and the operation, so that the numbers of a journal have no gap and all its
/// events are of one run and one base.
pub proof fn appending_extends_the_journal(
    text: Seq<char>,
    existing: Seq<OperationEventView>,
    run_id: RunId,
    base_checkpoint: Seq<char>,
    op: OperationView,
    compacted: bool,
    ts: nat,
    event: OperationEventView,
)
    requires
        holds_events(text, existing),
        appended(run_id, base_checkpoint, op, compacted, existing, ts) == Ok::<OperationEventView, FsErrorView>(event),
    ensures
        holds_events(text + json_text(operation_event_form(event)).push('\n'), existing.push(event)),
        is_operation_journal(existing) ==> is_operation_journal(existing.push(event)),
        event.seq == existing.len() + 1,
        event.run_id == run_id,
        event.base_checkpoint == base_checkpoint,
        event.op == op,
        event.schema_version == FS_OPERATION_JOURNAL_SCHEMA_VERSION,
{
    let line = json_text(operation_event_form(event));
    lemma_object_line(operation_event_form(event)->Object_0);
    an_appended_line_is_read_back(text, line);
    assert(operation_texts(existing.push(event)) =~= operation_texts(existing).push(line));
}

/// The length and the first letter of an operation's name.
spec fn mark(op: OperationView) -> (nat, char) {
    match op {
        OperationView::CreateFile { .. } => (11, 'c'),
        OperationView::CreateDir { .. } => (10, 'c'),
        OperationView::Write { .. } => (5, 'w'),
        OperationView::Truncate { .. } => (8, 't'),
        OperationView::DeletePath { .. } => (11, 'd'),
        OperationView::RenamePath { .. } => (11, 'r'),
        OperationView::Chmod { .. } => (5, 'c'),
        OperationView::Fsync { .. } => (5, 'f'),
    }
}

proof fn lemma_mark(op: OperationView)
    ensures
        operation_fields(op).len() >= 2,
        operation_fields(op)[0].1 is Text,
        operation_fields(op)[0].1->Text_0.len() == mark(op).0,
        operation_fields(op)[0].1->Text_0[0] == mark(op).1,
{
    reveal_strlit("create_file");
    reveal_strlit("create_dir");
    reveal_strlit("write");
    reveal_strlit("truncate");
    reveal_strlit("delete_path");
    reveal_strlit("rename_path");
    reveal_strlit("chmod");
    reveal_strlit("fsync");
}

/// The fields of an operation tell the operation.
proof fn lemma_operation_told(a: OperationView, b: OperationView)
    requires
        operation_fields(a) == operation_fields(b),
    ensures
        a == b,
{
    lemma_mark(a);
    lemma_mark(b);
    let x = operation_fields(a);
    let y = operation_fields(b);
    assert(x[0] == y[0]);
    assert(mark(a) == mark(b));
    assert(x[1] == y[1]);
    match (a, b) {
        (OperationView::CreateFile { .. }, OperationView::CreateFile { .. }) => {},
        (OperationView::CreateDir { .. }, OperationView::CreateDir { .. }) => {},
        (OperationView::Write { .. }, OperationView::Write { .. }) => {
            assert(x[2] == y[2]);
            assert(x[3] == y[3]);
            assert(x[4] == y[4]);
        },
        (OperationView::Truncate { .. }, OperationView::Truncate { .. }) => {
            assert(x[2] == y[2]);
        },
        (OperationView::DeletePath { .. }, OperationView::DeletePath { .. }) => {},
        (OperationView::RenamePath { .. }, OperationView::RenamePath { .. }) => {
            assert(x[2] == y[2]);
        },
        (OperationView::Chmod { .. }, OperationView::Chmod { .. }) => {
            assert(x[2] == y[2]);
        },
        (OperationView::Fsync { .. }, OperationView::Fsync { .. }) => {},
        _ => {
            assert(false);
        },
    }
}

/// The line of an operation event is that of no other event.
pub proof fn a_line_tells_its_event(a: OperationEventView, b: OperationEventView)
    requires
        json_text(operation_event_form(a)) == json_text(operation_event_form(b)),
    ensures
        a == b,
{
    a_json_text_stands_for_one_value(operation_event_form(a), operation_event_form(b));
    let x = operation_event_form(a)->Object_0;
    let y = operation_event_form(b)->Object_0;
    assert(x == y);
    assert(x[0] == y[0]);
    assert(x[1] == y[1]);
    assert(x[2] == y[2]);
    assert(x[3] == y[3]);
    assert(x[4] == y[4]);
    run_ids_are_told_apart(a.run_id, b.run_id);
    assert(x.skip(5) =~= operation_fields(a.op));
    assert(y.skip(5) =~= operation_fields(b.op));
    lemma_operation_told(a.op, b.op);
}

/// A text is the journal of one list of events only, so that reading it gives
/// back what was appended.
pub proof fn a_journal_tells_its_events(text: Seq<char>, a: Seq<OperationEventView>, b: Seq<OperationEventView>)
    requires
        holds_events(text, a),
        holds_events(text, b),
    ensures
        a == b,
{
    let x = operation_texts(a);
    let y = operation_texts(b);
    assert(x.len() == a.len() && y.len() == b.len());
    assert forall|i: int| 0 <= i < a.len() implies a[i] == b[i] by {
        assert(x[i] == y[i]);
        a_line_tells_its_event(a[i], b[i]);
    }
    assert(a =~= b);
}

} // verus!
