//! JSON values without fractions, and their text.

use crate::number::{decimal_int, decimal_int_text, decimal_text, hex_digit, lemma_decimal_value};
use crate::text::{same_text, views};
use crate::versioned_fs::entry::text_view;
use vstd::prelude::*;

verus! {

/// A JSON value; the fields of an object keep the order in which they are given.
#[derive(Debug, PartialEq, Eq)]
pub enum Json {
    Null,
    Bool(bool),
    Int(i64),
    UInt(u128),
    Text(String),
    Array(Vec<Json>),
    Object(Vec<(String, Json)>),
}

/// The mathematical value of a JSON value.
pub enum JsonView {
    Null,
    Bool(bool),
    Number(int),
    Text(Seq<char>),
    Array(Seq<JsonView>),
    Object(Seq<(Seq<char>, JsonView)>),
}

/// The mathematical value of a JSON value.
pub open spec fn json_value(j: Json) -> JsonView
    decreases j,
{
    match j {
        Json::Null => JsonView::Null,
        Json::Bool(b) => JsonView::Bool(b),
        Json::Int(n) => JsonView::Number(n as int),
        Json::UInt(n) => JsonView::Number(n as int),
        Json::Text(s) => JsonView::Text(s@),
        Json::Array(items) => JsonView::Array(
            Seq::new(
                items@.len(),
                |i: int|
                    if 0 <= i < items@.len() {
                        json_value(items@[i])
                    } else {
                        JsonView::Null
                    },
            ),
        ),
        Json::Object(fields) => JsonView::Object(
            Seq::new(
                fields@.len(),
                |i: int|
                    if 0 <= i < fields@.len() {
                        (fields@[i].0@, json_value(fields@[i].1))
                    } else {
                        (Seq::empty(), JsonView::Null)
                    },
            ),
        ),
    }
}

impl View for Json {
    type V = JsonView;

    open spec fn view(&self) -> JsonView {
        json_value(*self)
    }
}

/// The values of a list of JSON values.
pub open spec fn json_views(items: Seq<Json>) -> Seq<JsonView> {
    items.map_values(|j: Json| j@)
}

/// How a character is written inside a JSON string: quotes, backslashes and the
/// control characters below the blank are escaped, all others stand for themselves.
pub open spec fn escaped(c: char) -> Seq<char> {
    if c == '"' {
        seq!['\\', '"']
    } else if c == '\\' {
        seq!['\\', '\\']
    } else if c == '\u{8}' {
        seq!['\\', 'b']
    } else if c == '\t' {
        seq!['\\', 't']
    } else if c == '\n' {
        seq!['\\', 'n']
    } else if c == '\u{c}' {
        seq!['\\', 'f']
    } else if c == '\r' {
        seq!['\\', 'r']
    } else if (c as int) < 0x20 {
        seq!['\\', 'u', '0', '0', hex_digit(c as int / 16), hex_digit(c as int % 16)]
    } else {
        seq![c]
    }
}

/// A text with each character escaped.
pub open spec fn escaped_text(text: Seq<char>) -> Seq<char>
    decreases text.len(),
{
    if text.len() == 0 {
        Seq::empty()
    } else {
        escaped_text(text.drop_last()) + escaped(text.last())
    }
}

/// The JSON text of a string: escaped, with quotes around it.
pub open spec fn quoted(text: Seq<char>) -> Seq<char> {
    seq!['"'] + escaped_text(text) + seq!['"']
}

/// `serde_json::to_string` of a string: quotes around it, with a short escape
/// for each of `"`, `\`, backspace, tab, line feed, form feed and carriage
/// return, and `\u00` with two lower-case digits for the other control
/// characters below the blank.
#[verifier::external_body]
fn quoted_text(text: &str) -> (s: String)
    ensures
        s@ == quoted(text@),
{
    serde_json::to_string(text).expect("a string is always written")
}

/// A text without a line feed.
pub open spec fn one_line(text: Seq<char>) -> bool {
    forall|i: int| 0 <= i < text.len() ==> #[trigger] text[i] != '\n'
}

proof fn lemma_escape_on_one_line(c: char)
    ensures
        one_line(escaped(c)),
{
    let high = c as int / 16;
    let low = c as int % 16;
    if (c as int) < 0x20 {
        assert(0 <= high < 16 && 0 <= low < 16);
        assert(hex_digit(high) as int >= 48 && hex_digit(low) as int >= 48);
        assert(hex_digit(high) != '\n' && hex_digit(low) != '\n');
    }
    assert forall|i: int| 0 <= i < escaped(c).len() implies #[trigger] escaped(c)[i] != '\n' by {
        assert(i == 0 || i == 1 || i == 2 || i == 3 || i == 4 || i == 5);
    }
}

proof fn lemma_escaped_on_one_line(text: Seq<char>)
    ensures
        one_line(escaped_text(text)),
    decreases text.len(),
{
    if text.len() > 0 {
        let front = escaped_text(text.drop_last());
        let c = text.last();
        lemma_escaped_on_one_line(text.drop_last());
        lemma_escape_on_one_line(c);
        assert(escaped_text(text) == front + escaped(c));
    }
}

proof fn lemma_quoted_on_one_line(text: Seq<char>)
    ensures
        one_line(quoted(text)),
{
    lemma_escaped_on_one_line(text);
}

/// The compact text of a JSON value.
pub open spec fn json_text(v: JsonView) -> Seq<char>
    decreases v, 0int,
{
    match v {
        JsonView::Null => "null"@,
        JsonView::Bool(b) => if b {
            "true"@
        } else {
            "false"@
        },
        JsonView::Number(n) => decimal_int(n),
        JsonView::Text(s) => quoted(s),
        JsonView::Array(items) => "["@ + items_text(items, items.len() as int) + "]"@,
        JsonView::Object(fields) => "{"@ + fields_text(fields, fields.len() as int) + "}"@,
    }
}

/// The texts of the first `n` items with commas between them.
pub open spec fn items_text(items: Seq<JsonView>, n: int) -> Seq<char>
    decreases items, n,
{
    if n <= 0 || n > items.len() {
        Seq::empty()
    } else if n == 1 {
        json_text(items[0])
    } else {
        items_text(items, n - 1) + ","@ + json_text(items[n - 1])
    }
}

/// The texts of the first `n` fields with commas between them.
pub open spec fn fields_text(fields: Seq<(Seq<char>, JsonView)>, n: int) -> Seq<char>
    decreases fields, n,
{
    if n <= 0 || n > fields.len() {
        Seq::empty()
    } else if n == 1 {
        quoted(fields[0].0) + ":"@ + json_text(fields[0].1)
    } else {
        fields_text(fields, n - 1) + ","@ + (quoted(fields[n - 1].0) + ":"@ + json_text(fields[n - 1].1))
    }
}

/// A JSON value is written on one line.
pub proof fn json_is_written_on_one_line(v: JsonView)
    ensures
        one_line(json_text(v)),
    decreases v, 0int,
{
    reveal_strlit("null");
    reveal_strlit("true");
    reveal_strlit("false");
    reveal_strlit("[");
    reveal_strlit("]");
    reveal_strlit("{");
    reveal_strlit("}");
    match v {
        JsonView::Null | JsonView::Bool(_) => {},
        JsonView::Number(n) => {
            lemma_decimal_value(
                (if n < 0 {
                    -n
                } else {
                    n
                }) as nat,
            );
        },
        JsonView::Text(s) => {
            lemma_quoted_on_one_line(s);
        },
        JsonView::Array(items) => {
            lemma_items_on_one_line(items, items.len() as int);
        },
        JsonView::Object(fields) => {
            lemma_fields_on_one_line(fields, fields.len() as int);
        },
    }
}

proof fn lemma_items_on_one_line(items: Seq<JsonView>, n: int)
    ensures
        one_line(items_text(items, n)),
    decreases items, n,
{
    reveal_strlit(",");
    if n <= 0 || n > items.len() {
    } else if n == 1 {
        json_is_written_on_one_line(items[0]);
    } else {
        lemma_items_on_one_line(items, n - 1);
        json_is_written_on_one_line(items[n - 1]);
    }
}

proof fn lemma_fields_on_one_line(fields: Seq<(Seq<char>, JsonView)>, n: int)
    ensures
        one_line(fields_text(fields, n)),
    decreases fields, n,
{
    reveal_strlit(",");
    reveal_strlit(":");
    if 0 < n <= fields.len() {
        lemma_quoted_on_one_line(fields[n - 1].0);
        json_is_written_on_one_line(fields[n - 1].1);
        if n > 1 {
            lemma_fields_on_one_line(fields, n - 1);
        }
    }
}

impl Json {
    /// A copy of the value.
    pub fn copy(&self) -> (j: Json)
        ensures
            j@ == self@,
        decreases self,
    {
        match self {
            Json::Null => Json::Null,
            Json::Bool(b) => Json::Bool(*b),
            Json::Int(n) => Json::Int(*n),
            Json::UInt(n) => Json::UInt(*n),
            Json::Text(text) => Json::Text(text.clone()),
            Json::Array(items) => {
                let mut list: Vec<Json> = Vec::new();
                for i in 0..items.len()
                    invariant
                        list@.len() == i,
                        forall|k: int| 0 <= k < i ==> (#[trigger] list@[k])@ == items@[k]@,
                        *self == Json::Array(*items),
                {
                    let item = &items[i];
                    assert(decreases_to!(*self => self->Array_0));
                    assert(decreases_to!(*items => items@));
                    assert(decreases_to!(items@ => items@[i as int]));
                    list.push(item.copy());
                }
                let j = Json::Array(list);
                assert(j@->Array_0 =~= self@->Array_0);
                j
            },
            Json::Object(fields) => {
                let mut list: Vec<(String, Json)> = Vec::new();
                for i in 0..fields.len()
                    invariant
                        list@.len() == i,
                        forall|k: int| 0 <= k < i ==> (#[trigger] list@[k]).0@ == fields@[k].0@ && list@[k].1@ == fields@[k].1@,
                        *self == Json::Object(*fields),
                {
                    let value = &fields[i].1;
                    assert(decreases_to!(*self => self->Object_0));
                    assert(decreases_to!(*fields => fields@));
                    assert(decreases_to!(fields@ => fields@[i as int]));
                    assert(decreases_to!(fields@[i as int] => fields@[i as int].1));
                    list.push((fields[i].0.clone(), value.copy()));
                }
                let j = Json::Object(list);
                assert(j@->Object_0 =~= self@->Object_0);
                j
            },
        }
    }

    /// The compact text of the value.
    pub fn text(&self) -> (s: String)
        ensures
            s@ == json_text(self@),
        decreases self,
    {
        match self {
            Json::Null => "null".to_string(),
            Json::Bool(b) => if *b {
                "true".to_string()
            } else {
                "false".to_string()
            },
            Json::Int(n) => decimal_int_text(*n),
            Json::UInt(n) => decimal_text(*n),
            Json::Text(text) => quoted_text(text.as_str()),
            Json::Array(items) => {
                let ghost list = self@->Array_0;
                let mut body = String::new();
                assert(body@ =~= items_text(list, 0));
                for i in 0..items.len()
                    invariant
                        list.len() == items@.len(),
                        forall|k: int| 0 <= k < items@.len() ==> #[trigger] list[k] == items@[k]@,
                        body@ == items_text(list, i as int),
                        *self == Json::Array(*items),
                {
                    if i > 0 {
                        body.append(",");
                    }
                    let item = &items[i];
                    assert(decreases_to!(*self => self->Array_0));
                    assert(decreases_to!(*items => items@));
                    assert(decreases_to!(items@ => items@[i as int]));
                    let text = item.text();
                    let ghost start = body@;
                    body.append(text.as_str());
                    assert(list[i as int] == items@[i as int]@);
                    if i == 0 {
                        assert(body@ =~= json_text(list[0]));
                    }
                }
                let mut s = "[".to_string();
                s.append(body.as_str());
                s.append("]");
                s
            },
            Json::Object(fields) => {
                let ghost list = self@->Object_0;
                let mut body = String::new();
                assert(body@ =~= fields_text(list, 0));
                for i in 0..fields.len()
                    invariant
                        list.len() == fields@.len(),
                        forall|k: int| 0 <= k < fields@.len() ==> #[trigger] list[k] == (fields@[k].0@, fields@[k].1@),
                        body@ == fields_text(list, i as int),
                        *self == Json::Object(*fields),
                {
                    if i > 0 {
                        body.append(",");
                    }
                    let ghost start = body@;
                    let value = &fields[i].1;
                    assert(decreases_to!(*self => self->Object_0));
                    assert(decreases_to!(*fields => fields@));
                    assert(decreases_to!(fields@ => fields@[i as int]));
                    assert(decreases_to!(fields@[i as int] => fields@[i as int].1));
                    let key = quoted_text(fields[i].0.as_str());
                    let text = value.text();
                    let mut pair = key;
                    pair.append(":");
                    pair.append(text.as_str());
                    body.append(pair.as_str());
                    assert(list[i as int] == (fields@[i as int].0@, fields@[i as int].1@));
                    if i == 0 {
                        assert(body@ =~= fields_text(list, 1));
                    } else {
                        assert(body@ =~= fields_text(list, i + 1));
                    }
                }
                let mut s = "{".to_string();
                s.append(body.as_str());
                s.append("}");
                s
            },
        }
    }
}

/// The values of a list of fields.
pub open spec fn field_views(fields: Seq<(String, Json)>) -> Seq<(Seq<char>, JsonView)> {
    fields.map_values(|f: (String, Json)| (f.0@, f.1@))
}

/// Appends a field.
pub fn field(fields: &mut Vec<(String, Json)>, key: &str, value: Json)
    ensures
        field_views(final(fields)@) == field_views(old(fields)@).push((key@, value@)),
{
    let ghost start = fields@;
    fields.push((key.to_string(), value));
    assert(field_views(fields@) =~= field_views(start).push((key@, value@)));
}

/// The object with these fields.
pub fn object(fields: Vec<(String, Json)>) -> (j: Json)
    ensures
        j@ == JsonView::Object(field_views(fields@)),
{
    let j = Json::Object(fields);
    assert(j@->Object_0 =~= field_views(fields@));
    j
}

/// The array of these values.
pub fn array(items: Vec<Json>) -> (j: Json)
    ensures
        j@ == JsonView::Array(json_views(items@)),
{
    let j = Json::Array(items);
    assert(j@->Array_0 =~= json_views(items@));
    j
}

/// The JSON value of a string.
pub fn text_json(text: &str) -> (j: Json)
    ensures
        j@ == JsonView::Text(text@),
{
    Json::Text(text.to_string())
}

/// The JSON value of an optional string.
pub open spec fn optional_text(text: Option<Seq<char>>) -> JsonView {
    match text {
        Some(s) => JsonView::Text(s),
        None => JsonView::Null,
    }
}

/// The JSON value of an optional string.
pub fn optional_text_json(text: &Option<String>) -> (j: Json)
    ensures
        j@ == optional_text(text_view(*text)),
{
    match text {
        Some(s) => text_json(s.as_str()),
        None => Json::Null,
    }
}

/// The JSON value of an optional number.
pub open spec fn optional_number(n: Option<u64>) -> JsonView {
    match n {
        Some(n) => JsonView::Number(n as int),
        None => JsonView::Null,
    }
}

/// The JSON value of an optional number.
pub fn optional_number_json(n: Option<u64>) -> (j: Json)
    ensures
        j@ == optional_number(n),
{
    match n {
        Some(n) => Json::UInt(n as u128),
        None => Json::Null,
    }
}

/// The JSON value of an optional signed number.
pub open spec fn optional_signed(n: Option<i32>) -> JsonView {
    match n {
        Some(n) => JsonView::Number(n as int),
        None => JsonView::Null,
    }
}

/// The JSON value of an optional signed number.
pub fn optional_signed_json(n: Option<i32>) -> (j: Json)
    ensures
        j@ == optional_signed(n),
{
    match n {
        Some(n) => Json::Int(n as i64),
        None => Json::Null,
    }
}

/// The array of some strings.
pub open spec fn texts(list: Seq<Seq<char>>) -> JsonView {
    JsonView::Array(list.map_values(|s: Seq<char>| JsonView::Text(s)))
}

/// The array of some strings.
pub fn texts_json(list: &Vec<String>) -> (j: Json)
    ensures
        j@ == texts(views(list@)),
{
    let mut items: Vec<Json> = Vec::new();
    for i in 0..list.len()
        invariant
            items@.len() == i,
            forall|k: int| 0 <= k < i ==> (#[trigger] items@[k])@ == JsonView::Text(list@[k]@),
    {
        items.push(text_json(list[i].as_str()));
    }
    assert(json_views(items@) =~= views(list@).map_values(|s: Seq<char>| JsonView::Text(s)));
    array(items)
}

/// The value of a key of an object.
pub open spec fn member(v: JsonView, key: Seq<char>) -> Option<JsonView> {
    match v {
        JsonView::Object(fields) => member_from(fields, key, 0),
        _ => None,
    }
}

/// The value of the first field, from `i` on, with this key.
pub open spec fn member_from(fields: Seq<(Seq<char>, JsonView)>, key: Seq<char>, i: int) -> Option<JsonView>
    decreases fields.len() - i,
{
    if i >= fields.len() {
        None
    } else if fields[i].0 == key {
        Some(fields[i].1)
    } else {
        member_from(fields, key, i + 1)
    }
}

impl Json {
    /// The value of a key, where this is an object that has it.
    pub fn get(&self, key: &str) -> (value: Option<&Json>)
        ensures
            match value {
                Some(v) => member(self@, key@) == Some(v@),
                None => member(self@, key@) is None,
            },
    {
        match self {
            Json::Object(fields) => {
                let ghost list = self@->Object_0;
                for i in 0..fields.len()
                    invariant
                        list.len() == fields@.len(),
                        self@ == JsonView::Object(list),
                        forall|k: int| 0 <= k < fields@.len() ==> #[trigger] list[k] == (fields@[k].0@, fields@[k].1@),
                        member_from(list, key@, 0) == member_from(list, key@, i as int),
                {
                    assert(list[i as int] == (fields@[i as int].0@, fields@[i as int].1@));
                    if same_text(fields[i].0.as_str(), key) {
                        return Some(&fields[i].1);
                    }
                }
                None
            },
            _ => None,
        }
    }
}

} // verus!
