//! Reading JSON texts, stated apart from how they are written.

use crate::json::{
    escaped, escaped_text, fields_text, items_text, json_text, quoted, Json, JsonView,
};
use crate::json_laws::{
    closes, field_text, lemma_begins, lemma_escaped_front, lemma_fields_close, lemma_items_close,
    lemma_more_fields, lemma_more_items, more_fields, more_items,
};
use crate::laws::numbers::{
    a_decimal_text_tells_its_number, a_hexadecimal_digit_tells_its_number, all_digits, hex_told, told,
};
use crate::number::{decimal, decimal_int};
use vstd::prelude::*;

verus! {

/// The text starts with another.
pub open spec fn starts(s: Seq<char>, with: Seq<char>) -> bool {
    s.len() >= with.len() && s.take(with.len() as int) == with
}

/// How many digits the text starts with.
pub open spec fn digit_run(s: Seq<char>) -> int
    decreases s.len(),
{
    if s.len() > 0 && 48 <= s[0] as int <= 57 {
        1 + digit_run(s.drop_first())
    } else {
        0
    }
}

/// Reads a number: perhaps a minus sign, then digits.
pub open spec fn read_number(s: Seq<char>) -> Option<(JsonView, Seq<char>)> {
    let negative = s.len() > 0 && s[0] == '-';
    let t = if negative {
        s.drop_first()
    } else {
        s
    };
    let n = digit_run(t);
    if n == 0 {
        None
    } else {
        let size = told(t.take(n));
        Some(
            (
                JsonView::Number(
                    if negative {
                        -size
                    } else {
                        size
                    },
                ),
                t.skip(n),
            ),
        )
    }
}

/// The character that a letter behind a backslash stands for.
pub open spec fn short_escape(c: char) -> Option<char> {
    if c == '"' || c == '\\' || c == '/' {
        Some(c)
    } else if c == 'b' {
        Some('\u{8}')
    } else if c == 'f' {
        Some('\u{c}')
    } else if c == 'n' {
        Some('\n')
    } else if c == 'r' {
        Some('\r')
    } else if c == 't' {
        Some('\t')
    } else {
        None
    }
}

/// Reads a string up to the quote that closes it.
pub open spec fn read_string(s: Seq<char>) -> Option<(Seq<char>, Seq<char>)>
    decreases s.len(),
{
    if s.len() == 0 {
        None
    } else if s[0] == '"' {
        Some((Seq::empty(), s.skip(1)))
    } else if s[0] != '\\' {
        match read_string(s.skip(1)) {
            Some((more, rest)) => Some((seq![s[0]] + more, rest)),
            None => None,
        }
    } else if s.len() >= 2 && short_escape(s[1]) is Some {
        match read_string(s.skip(2)) {
            Some((more, rest)) => Some((seq![short_escape(s[1])->0] + more, rest)),
            None => None,
        }
    } else if s.len() >= 6 && s[1] == 'u' {
        let code = 4096 * hex_told(s[2]) + 256 * hex_told(s[3]) + 16 * hex_told(s[4]) + hex_told(s[5]);
        match read_string(s.skip(6)) {
            Some((more, rest)) => Some((seq![code as char] + more, rest)),
            None => None,
        }
    } else {
        None
    }
}

/// Reads a value, and gives what follows it.
pub open spec fn read_value(s: Seq<char>) -> Option<(JsonView, Seq<char>)>
    decreases s.len(), 0int,
{
    if starts(s, "null"@) {
        Some((JsonView::Null, s.skip(4)))
    } else if starts(s, "true"@) {
        Some((JsonView::Bool(true), s.skip(4)))
    } else if starts(s, "false"@) {
        Some((JsonView::Bool(false), s.skip(5)))
    } else if s.len() == 0 {
        None
    } else if s[0] == '"' {
        match read_string(s.skip(1)) {
            Some((text, rest)) => Some((JsonView::Text(text), rest)),
            None => None,
        }
    } else if s[0] == '[' {
        if s.len() > 1 && s[1] == ']' {
            Some((JsonView::Array(Seq::empty()), s.skip(2)))
        } else {
            match read_items(s.skip(1)) {
                Some((items, rest)) => Some((JsonView::Array(items), rest)),
                None => None,
            }
        }
    } else if s[0] == '{' {
        if s.len() > 1 && s[1] == '}' {
            Some((JsonView::Object(Seq::empty()), s.skip(2)))
        } else {
            match read_fields(s.skip(1)) {
                Some((fields, rest)) => Some((JsonView::Object(fields), rest)),
                None => None,
            }
        }
    } else {
        read_number(s)
    }
}

/// Reads values with commas between them, up to the closing bracket.
pub open spec fn read_items(s: Seq<char>) -> Option<(Seq<JsonView>, Seq<char>)>
    decreases s.len(), 1int,
{
    match read_value(s) {
        Some((value, rest)) => if rest.len() == 0 || rest.len() >= s.len() {
            None
        } else if rest[0] == ']' {
            Some((seq![value], rest.skip(1)))
        } else if rest[0] == ',' {
            match read_items(rest.skip(1)) {
                Some((more, end)) => Some((seq![value] + more, end)),
                None => None,
            }
        } else {
            None
        },
        None => None,
    }
}

/// Reads names with their values, with commas between them, up to the closing brace.
pub open spec fn read_fields(s: Seq<char>) -> Option<(Seq<(Seq<char>, JsonView)>, Seq<char>)>
    decreases s.len(), 1int,
{
    if s.len() == 0 || s[0] != '"' {
        None
    } else {
        match read_string(s.skip(1)) {
            Some((name, colon)) => if colon.len() == 0 || colon.len() >= s.len() || colon[0] != ':' {
                None
            } else {
                match read_value(colon.skip(1)) {
                    Some((value, rest)) => if rest.len() == 0 || rest.len() >= s.len() {
                        None
                    } else if rest[0] == '}' {
                        Some((seq![(name, value)], rest.skip(1)))
                    } else if rest[0] == ',' {
                        match read_fields(rest.skip(1)) {
                            Some((more, end)) => Some((seq![(name, value)] + more, end)),
                            None => None,
                        }
                    } else {
                        None
                    },
                    None => None,
                }
            },
            None => None,
        }
    }
}

/// The value that a whole text is.
pub open spec fn value_of_text(s: Seq<char>) -> Option<JsonView> {
    match read_value(s) {
        Some((value, rest)) => if rest.len() == 0 {
            Some(value)
        } else {
            None
        },
        None => None,
    }
}

proof fn lemma_digit_run(digits: Seq<char>, rest: Seq<char>)
    requires
        all_digits(digits),
        rest.len() == 0 || !(48 <= rest[0] as int <= 57),
    ensures
        digit_run(digits + rest) == digits.len(),
    decreases digits.len(),
{
    if digits.len() == 0 {
        assert(digits + rest =~= rest);
    } else {
        assert((digits + rest).drop_first() =~= digits.drop_first() + rest);
        assert((digits + rest)[0] == digits[0]);
        assert forall|i: int| 0 <= i < digits.drop_first().len() implies 48 <= #[trigger] digits.drop_first()[i] as int <= 57 by {
            assert(48 <= digits[i + 1] as int <= 57);
        }
        lemma_digit_run(digits.drop_first(), rest);
    }
}

proof fn lemma_read_number(n: int, rest: Seq<char>)
    requires
        closes(rest),
    ensures
        read_number(decimal_int(n) + rest) == Some((JsonView::Number(n), rest)),
        (decimal_int(n) + rest).len() > 0,
        (decimal_int(n) + rest)[0] == '-' || 48 <= (decimal_int(n) + rest)[0] as int <= 57,
{
    let size = (if n < 0 {
        -n
    } else {
        n
    }) as nat;
    let digits = decimal(size);
    a_decimal_text_tells_its_number(size);
    lemma_digit_run(digits, rest);
    assert((digits + rest).take(digits.len() as int) =~= digits);
    assert((digits + rest).skip(digits.len() as int) =~= rest);
    let s = decimal_int(n) + rest;
    if n < 0 {
        assert(s.drop_first() =~= digits + rest);
    } else {
        assert(s =~= digits + rest);
        assert(s[0] == digits[0]);
        assert(48 <= digits[0] as int <= 57);
    }
}

proof fn lemma_read_escape(c: char, tail: Seq<char>, more: Seq<char>, rest: Seq<char>)
    requires
        read_string(tail) == Some((more, rest)),
    ensures
        read_string(escaped(c) + tail) == Some((seq![c] + more, rest)),
{
    let e = escaped(c);
    let s = e + tail;
    assert(s[0] == e[0]);
    if e.len() == 1 {
        assert(s.skip(1) =~= tail);
    } else if e.len() == 2 {
        assert(s[1] == e[1]);
        assert(s.skip(2) =~= tail);
    } else {
        assert(s[1] == e[1] && s[2] == e[2] && s[3] == e[3] && s[4] == e[4] && s[5] == e[5]);
        assert(s.skip(6) =~= tail);
        let n = c as int;
        a_hexadecimal_digit_tells_its_number(n / 16);
        a_hexadecimal_digit_tells_its_number(n % 16);
        let code = 4096 * hex_told(s[2]) + 256 * hex_told(s[3]) + 16 * hex_told(s[4]) + hex_told(s[5]);
        assert(code == n);
        assert(code as char == c);
    }
}

proof fn lemma_read_string(text: Seq<char>, rest: Seq<char>)
    ensures
        read_string(escaped_text(text) + (seq!['"'] + rest)) == Some((text, rest)),
    decreases text.len(),
{
    let end = seq!['"'] + rest;
    if text.len() == 0 {
        assert(escaped_text(text) + end =~= end);
        assert(end.skip(1) =~= rest);
        assert(text =~= Seq::<char>::empty());
    } else {
        lemma_escaped_front(text);
        let tail = escaped_text(text.drop_first()) + end;
        lemma_read_string(text.drop_first(), rest);
        assert(escaped_text(text) + end =~= escaped(text[0]) + tail);
        lemma_read_escape(text[0], tail, text.drop_first(), rest);
        assert(seq![text[0]] + text.drop_first() =~= text);
    }
}

/// A quoted text, whatever follows, is read as the text.
proof fn lemma_read_quoted(text: Seq<char>, rest: Seq<char>)
    ensures
        (quoted(text) + rest).len() > 0,
        (quoted(text) + rest)[0] == '"',
        read_string((quoted(text) + rest).skip(1)) == Some((text, rest)),
{
    lemma_read_string(text, rest);
    assert((quoted(text) + rest).skip(1) =~= escaped_text(text) + (seq!['"'] + rest));
}

/// A text that starts with another character starts with no such word.
proof fn lemma_no_word(s: Seq<char>)
    requires
        s.len() > 0,
        s[0] != 'n' && s[0] != 't' && s[0] != 'f',
    ensures
        !starts(s, "null"@),
        !starts(s, "true"@),
        !starts(s, "false"@),
{
    reveal_strlit("null");
    reveal_strlit("true");
    reveal_strlit("false");
    if starts(s, "null"@) {
        assert(s.take(4)[0] == s[0]);
    }
    if starts(s, "true"@) {
        assert(s.take(4)[0] == s[0]);
    }
    if starts(s, "false"@) {
        assert(s.take(5)[0] == s[0]);
    }
}

/// A written value, followed by something that closes it, is read as the value.
proof fn lemma_read_value(v: JsonView, rest: Seq<char>)
    requires
        closes(rest),
    ensures
        read_value(json_text(v) + rest) == Some((v, rest)),
        json_text(v).len() > 0,
    decreases v, 0int,
{
    lemma_begins(v);
    match v {
        JsonView::Array(items) => {
            lemma_read_array(items, rest);
        },
        JsonView::Object(fields) => {
            lemma_read_object(fields, rest);
        },
        _ => {
            lemma_read_plain(v, rest);
        },
    }
}

proof fn lemma_read_plain(v: JsonView, rest: Seq<char>)
    requires
        closes(rest),
        !(v is Array),
        !(v is Object),
    ensures
        read_value(json_text(v) + rest) == Some((v, rest)),
{
    reveal_strlit("null");
    reveal_strlit("true");
    reveal_strlit("false");
    lemma_begins(v);
    let text = json_text(v);
    let s = text + rest;
    assert(s[0] == text[0]);
    match v {
        JsonView::Null => {
            assert(s.take(4) =~= "null"@);
            assert(s.skip(4) =~= rest);
        },
        JsonView::Bool(b) => {
            if b {
                assert(s.take(4) =~= "true"@);
                assert(s.skip(4) =~= rest);
                if starts(s, "null"@) {
                    assert(s.take(4)[0] == s[0]);
                }
            } else {
                assert(s.take(5) =~= "false"@);
                assert(s.skip(5) =~= rest);
                if starts(s, "null"@) || starts(s, "true"@) {
                    assert(s.take(4)[0] == s[0]);
                }
            }
        },
        JsonView::Number(n) => {
            lemma_read_number(n, rest);
            lemma_no_word(s);
        },
        JsonView::Text(t) => {
            lemma_read_quoted(t, rest);
            lemma_no_word(s);
        },
        _ => {},
    }
}

proof fn lemma_read_array(items: Seq<JsonView>, rest: Seq<char>)
    ensures
        read_value(json_text(JsonView::Array(items)) + rest) == Some((JsonView::Array(items), rest)),
    decreases items, items.len() + 1,
{
    reveal_strlit("[");
    reveal_strlit("]");
    let v = JsonView::Array(items);
    let n = items.len() as int;
    let s = json_text(v) + rest;
    assert(json_text(v) == "["@ + items_text(items, n) + "]"@);
    assert(s[0] == '[');
    lemma_no_word(s);
    if n == 0 {
        assert(s =~= seq!['[', ']'] + rest);
        assert(s.skip(2) =~= rest);
        assert(items =~= Seq::<JsonView>::empty());
    } else {
        lemma_more_items(items, 1);
        lemma_begins(items[0]);
        assert(items_text(items, 1) == json_text(items[0]));
        let end = more_items(items, 1) + (seq![']'] + rest);
        assert(s.skip(1) =~= json_text(items[0]) + end);
        assert(s[1] == json_text(items[0])[0]);
        assert(s[1] != ']');
        lemma_read_items(items, 0, rest);
        assert(items.skip(0) =~= items);
    }
}

proof fn lemma_read_object(fields: Seq<(Seq<char>, JsonView)>, rest: Seq<char>)
    ensures
        read_value(json_text(JsonView::Object(fields)) + rest) == Some((JsonView::Object(fields), rest)),
    decreases fields, fields.len() + 1,
{
    reveal_strlit("{");
    reveal_strlit("}");
    reveal_strlit(":");
    let v = JsonView::Object(fields);
    let n = fields.len() as int;
    let s = json_text(v) + rest;
    assert(json_text(v) == "{"@ + fields_text(fields, n) + "}"@);
    assert(s[0] == '{');
    lemma_no_word(s);
    if n == 0 {
        assert(s =~= seq!['{', '}'] + rest);
        assert(s.skip(2) =~= rest);
        assert(fields =~= Seq::<(Seq<char>, JsonView)>::empty());
    } else {
        assert(":"@ =~= seq![':']);
        lemma_more_fields(fields, 1);
        let end = more_fields(fields, 1) + (seq!['}'] + rest);
        assert(fields_text(fields, 1) =~= field_text(fields[0]));
        assert(s.skip(1) =~= field_text(fields[0]) + end);
        assert(field_text(fields[0])[0] == '"');
        assert(s[1] == '"');
        lemma_read_fields(fields, 0, rest);
        assert(fields.skip(0) =~= fields);
    }
}

proof fn lemma_read_items(items: Seq<JsonView>, i: int, rest: Seq<char>)
    requires
        0 <= i < items.len(),
    ensures
        read_items(json_text(items[i]) + (more_items(items, i + 1) + (seq![']'] + rest))) == Some((items.skip(i), rest)),
    decreases items, items.len() - i,
{
    let end = more_items(items, i + 1) + (seq![']'] + rest);
    let s = json_text(items[i]) + end;
    lemma_items_close(items, i + 1, rest);
    lemma_read_value(items[i], end);
    assert(end.len() < s.len());
    if i + 1 == items.len() {
        assert(end =~= seq![']'] + rest);
        assert(end.skip(1) =~= rest);
        assert(items.skip(i) =~= seq![items[i]]);
    } else {
        lemma_read_items(items, i + 1, rest);
        assert(end.skip(1) =~= json_text(items[i + 1]) + (more_items(items, i + 2) + (seq![']'] + rest)));
        assert(items.skip(i) =~= seq![items[i]] + items.skip(i + 1));
    }
}

proof fn lemma_read_fields(fields: Seq<(Seq<char>, JsonView)>, i: int, rest: Seq<char>)
    requires
        0 <= i < fields.len(),
    ensures
        read_fields(field_text(fields[i]) + (more_fields(fields, i + 1) + (seq!['}'] + rest))) == Some((fields.skip(i), rest)),
    decreases fields, fields.len() - i,
{
    let end = more_fields(fields, i + 1) + (seq!['}'] + rest);
    let s = field_text(fields[i]) + end;
    let value_on = json_text(fields[i].1) + end;
    let colon_on = seq![':'] + value_on;
    lemma_fields_close(fields, i + 1, rest);
    assert(s =~= quoted(fields[i].0) + colon_on);
    lemma_read_quoted(fields[i].0, colon_on);
    assert(colon_on.skip(1) =~= value_on);
    assert(decreases_to!(fields => fields[i]));
    assert(decreases_to!(fields[i] => fields[i].1));
    lemma_read_value(fields[i].1, end);
    assert(end.len() < s.len());
    if i + 1 == fields.len() {
        assert(end =~= seq!['}'] + rest);
        assert(end.skip(1) =~= rest);
        assert(fields.skip(i) =~= seq![fields[i]]);
    } else {
        lemma_read_fields(fields, i + 1, rest);
        assert(end.skip(1) =~= field_text(fields[i + 1]) + (more_fields(fields, i + 2) + (seq!['}'] + rest)));
        assert(fields.skip(i) =~= seq![fields[i]] + fields.skip(i + 1));
    }
}

/// What is written of a value is read as that value.
pub proof fn a_written_value_is_read_back(v: JsonView)
    ensures
        value_of_text(json_text(v)) == Some(v),
{
    let nothing = Seq::<char>::empty();
    lemma_read_value(v, nothing);
    assert(json_text(v) + nothing =~= json_text(v));
}

/// The text of a JSON value is read as that value.
pub proof fn the_text_of_a_value_is_read_as_it(j: Json, text: String)
    requires
        call_ensures(Json::text, (&j,), text),
    ensures
        value_of_text(text@) == Some(j@),
{
    a_written_value_is_read_back(j@);
}

} // verus!
