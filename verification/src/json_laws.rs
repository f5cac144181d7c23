//! A JSON text stands for one value only.

use crate::json::{
    escaped, escaped_text, fields_text, items_text, json_text, quoted, JsonView,
};
use crate::number::{decimal, decimal_int, digits_value, hex_digit, is_digit, lemma_decimal_value};
use vstd::prelude::*;

verus! {

/// What may follow a value: the end of the text, a comma or a closing bracket.
pub open spec fn closes(rest: Seq<char>) -> bool {
    rest.len() == 0 || rest[0] == ',' || rest[0] == ']' || rest[0] == '}'
}

/// Texts with equal beginnings of one length have equal ends.
proof fn lemma_same_split(a: Seq<char>, s: Seq<char>, b: Seq<char>, t: Seq<char>)
    requires
        a + s == b + t,
        a.len() == b.len(),
    ensures
        a == b,
        s == t,
{
    assert(a =~= (a + s).take(a.len() as int));
    assert(b =~= (b + t).take(a.len() as int));
    assert(s =~= (a + s).skip(a.len() as int));
    assert(t =~= (b + t).skip(a.len() as int));
}

/// Decimal digits before something that is no digit stand for one number.
proof fn lemma_decimal_unique(m: nat, n: nat, s: Seq<char>, t: Seq<char>)
    requires
        decimal(m) + s == decimal(n) + t,
        closes(s),
        closes(t),
    ensures
        m == n,
        s == t,
{
    let a = decimal(m);
    let b = decimal(n);
    lemma_decimal_value(m);
    lemma_decimal_value(n);
    if a.len() < b.len() {
        assert((b + t)[a.len() as int] == b[a.len() as int]);
        assert(is_digit(b[a.len() as int]));
        assert((a + s)[a.len() as int] == s[0]);
    } else if b.len() < a.len() {
        assert((a + s)[b.len() as int] == a[b.len() as int]);
        assert(is_digit(a[b.len() as int]));
        assert((b + t)[b.len() as int] == t[0]);
    }
    lemma_same_split(a, s, b, t);
    assert(digits_value(a) == digits_value(b));
}

/// A number before something that is no digit is one number.
proof fn lemma_number_unique(m: int, n: int, s: Seq<char>, t: Seq<char>)
    requires
        decimal_int(m) + s == decimal_int(n) + t,
        closes(s),
        closes(t),
    ensures
        m == n,
        s == t,
{
    lemma_number_starts(m);
    lemma_number_starts(n);
    assert((decimal_int(m) + s)[0] == decimal_int(m)[0]);
    assert((decimal_int(n) + t)[0] == decimal_int(n)[0]);
    if m < 0 {
        let a = decimal((-m) as nat);
        let b = decimal((-n) as nat);
        assert((decimal_int(m) + s).skip(1) =~= a + s);
        assert((decimal_int(n) + t).skip(1) =~= b + t);
        lemma_decimal_unique((-m) as nat, (-n) as nat, s, t);
    } else {
        lemma_decimal_unique(m as nat, n as nat, s, t);
    }
}

/// A number starts with a digit, or with a minus sign where it is negative.
proof fn lemma_number_starts(n: int)
    ensures
        decimal_int(n).len() > 0,
        n < 0 ==> decimal_int(n)[0] == '-',
        n >= 0 ==> is_digit(decimal_int(n)[0]),
{
    if n >= 0 {
        lemma_decimal_value(n as nat);
    }
}

/// The escapes of a text from its front.
pub proof fn lemma_escaped_front(text: Seq<char>)
    requires
        text.len() > 0,
    ensures
        escaped_text(text) == escaped(text[0]) + escaped_text(text.drop_first()),
    decreases text.len(),
{
    if text.len() == 1 {
        assert(text.drop_last() =~= Seq::<char>::empty());
        assert(text.drop_first() =~= Seq::<char>::empty());
        assert(escaped_text(text) =~= escaped(text[0]) + escaped_text(text.drop_first()));
    } else {
        lemma_escaped_front(text.drop_last());
        assert(text.drop_last().drop_first() =~= text.drop_first().drop_last());
        assert(text.drop_first().last() == text.last());
        assert(escaped_text(text) =~= escaped(text[0]) + escaped_text(text.drop_first()));
    }
}

/// No escape is the beginning of another.
proof fn lemma_escape_unique(c: char, d: char, s: Seq<char>, t: Seq<char>)
    requires
        escaped(c) + s == escaped(d) + t,
    ensures
        c == d,
        s == t,
{
    let a = escaped(c);
    let b = escaped(d);
    assert((a + s)[0] == a[0]);
    assert((b + t)[0] == b[0]);
    if a.len() > 1 {
        assert((a + s)[1] == a[1]);
    }
    if b.len() > 1 {
        assert((b + t)[1] == b[1]);
    }
    if a.len() == 6 && b.len() == 6 {
        assert((a + s)[4] == a[4] && (a + s)[5] == a[5]);
        assert((b + t)[4] == b[4] && (b + t)[5] == b[5]);
        let x = c as int;
        let y = d as int;
        assert(hex_digit(x / 16) == hex_digit(y / 16));
        assert(hex_digit(x % 16) == hex_digit(y % 16));
        assert(x / 16 < 2 && y / 16 < 2);
        assert(x / 16 == y / 16);
        assert(x % 16 == y % 16);
        assert(x == y);
    }
    assert(c == d);
    lemma_same_split(a, s, b, t);
}

/// An escaped text before a quote is that of one text.
proof fn lemma_escaped_unique(a: Seq<char>, b: Seq<char>, s: Seq<char>, t: Seq<char>)
    requires
        escaped_text(a) + (seq!['"'] + s) == escaped_text(b) + (seq!['"'] + t),
    ensures
        a == b,
        s == t,
    decreases a.len() + b.len(),
{
    let left = seq!['"'] + s;
    let right = seq!['"'] + t;
    assert(left[0] == '"' && right[0] == '"');
    if a.len() == 0 && b.len() == 0 {
        assert(escaped_text(a) + left =~= left);
        assert(escaped_text(b) + right =~= right);
        assert(s =~= left.skip(1));
        assert(t =~= right.skip(1));
        assert(a =~= b);
    } else if a.len() == 0 {
        assert(escaped_text(a) + left =~= left);
        lemma_escaped_front(b);
        assert((escaped_text(b) + right)[0] == escaped(b[0])[0]);
        assert(escaped(b[0])[0] != '"');
    } else if b.len() == 0 {
        assert(escaped_text(b) + right =~= right);
        lemma_escaped_front(a);
        assert((escaped_text(a) + left)[0] == escaped(a[0])[0]);
        assert(escaped(a[0])[0] != '"');
    } else {
        lemma_escaped_front(a);
        lemma_escaped_front(b);
        let x = escaped_text(a.drop_first()) + left;
        let y = escaped_text(b.drop_first()) + right;
        assert(escaped_text(a) + left =~= escaped(a[0]) + x);
        assert(escaped_text(b) + right =~= escaped(b[0]) + y);
        lemma_escape_unique(a[0], b[0], x, y);
        lemma_escaped_unique(a.drop_first(), b.drop_first(), s, t);
        assert(a =~= seq![a[0]] + a.drop_first());
        assert(b =~= seq![b[0]] + b.drop_first());
    }
}

/// A quoted text is that of one text, whatever follows.
proof fn lemma_quoted_unique(a: Seq<char>, b: Seq<char>, s: Seq<char>, t: Seq<char>)
    requires
        quoted(a) + s == quoted(b) + t,
    ensures
        a == b,
        s == t,
{
    let x = escaped_text(a) + (seq!['"'] + s);
    let y = escaped_text(b) + (seq!['"'] + t);
    assert((quoted(a) + s).skip(1) =~= x);
    assert((quoted(b) + t).skip(1) =~= y);
    lemma_escaped_unique(a, b, s, t);
}

/// The texts of the items from `i` on, with a comma before each.
pub open spec fn more_items(items: Seq<JsonView>, i: int) -> Seq<char>
    decreases items.len() - i,
{
    if i < 0 || i >= items.len() {
        Seq::empty()
    } else {
        seq![','] + json_text(items[i]) + more_items(items, i + 1)
    }
}

pub proof fn lemma_more_items(items: Seq<JsonView>, i: int)
    requires
        1 <= i <= items.len(),
    ensures
        items_text(items, items.len() as int) == items_text(items, i) + more_items(items, i),
    decreases items.len() - i,
{
    reveal_strlit(",");
    if i == items.len() {
        assert(items_text(items, i) + more_items(items, i) =~= items_text(items, i));
    } else {
        lemma_more_items(items, i + 1);
        assert(","@ =~= seq![',']);
        assert(items_text(items, i + 1) == items_text(items, i) + ","@ + json_text(items[i]));
        assert(items_text(items, i + 1) + more_items(items, i + 1) =~= items_text(items, i) + more_items(items, i));
    }
}

/// The texts of the fields from `i` on, with a comma before each.
pub open spec fn more_fields(fields: Seq<(Seq<char>, JsonView)>, i: int) -> Seq<char>
    decreases fields.len() - i,
{
    if i < 0 || i >= fields.len() {
        Seq::empty()
    } else {
        seq![','] + field_text(fields[i]) + more_fields(fields, i + 1)
    }
}

/// The text of one field.
pub open spec fn field_text(field: (Seq<char>, JsonView)) -> Seq<char> {
    quoted(field.0) + seq![':'] + json_text(field.1)
}

pub proof fn lemma_more_fields(fields: Seq<(Seq<char>, JsonView)>, i: int)
    requires
        1 <= i <= fields.len(),
    ensures
        fields_text(fields, fields.len() as int) == fields_text(fields, i) + more_fields(fields, i),
    decreases fields.len() - i,
{
    reveal_strlit(",");
    reveal_strlit(":");
    if i == fields.len() {
        assert(fields_text(fields, i) + more_fields(fields, i) =~= fields_text(fields, i));
    } else {
        lemma_more_fields(fields, i + 1);
        assert(","@ =~= seq![',']);
        assert(":"@ =~= seq![':']);
        assert(fields_text(fields, i + 1) == fields_text(fields, i) + ","@ + (quoted(fields[i].0) + ":"@ + json_text(fields[i].1)));
        assert(fields_text(fields, i + 1) + more_fields(fields, i + 1) =~= fields_text(fields, i) + more_fields(fields, i));
    }
}

/// What kind of value a first character begins.
pub open spec fn begins(v: JsonView, c: char) -> bool {
    match v {
        JsonView::Null => c == 'n',
        JsonView::Bool(b) => if b {
            c == 't'
        } else {
            c == 'f'
        },
        JsonView::Number(_) => c == '-' || is_digit(c),
        JsonView::Text(_) => c == '"',
        JsonView::Array(_) => c == '[',
        JsonView::Object(_) => c == '{',
    }
}

pub proof fn lemma_begins(v: JsonView)
    ensures
        json_text(v).len() > 0,
        begins(v, json_text(v)[0]),
{
    reveal_strlit("null");
    reveal_strlit("true");
    reveal_strlit("false");
    reveal_strlit("[");
    reveal_strlit("]");
    reveal_strlit("{");
    reveal_strlit("}");
    match v {
        JsonView::Number(n) => {
            lemma_number_starts(n);
        },
        _ => {},
    }
}

/// Two values whose texts, each followed by something that closes it, are one
/// text are equal, and so is what follows.
proof fn lemma_text_unique(u: JsonView, v: JsonView, s: Seq<char>, t: Seq<char>)
    requires
        json_text(u) + s == json_text(v) + t,
        closes(s),
        closes(t),
    ensures
        u == v,
        s == t,
    decreases u, 0int,
{
    lemma_begins(u);
    lemma_begins(v);
    assert((json_text(u) + s)[0] == json_text(u)[0]);
    assert((json_text(v) + t)[0] == json_text(v)[0]);
    reveal_strlit("[");
    reveal_strlit("]");
    reveal_strlit("{");
    reveal_strlit("}");
    match (u, v) {
        (JsonView::Null, JsonView::Null) => {
            lemma_same_split(json_text(u), s, json_text(v), t);
        },
        (JsonView::Bool(a), JsonView::Bool(b)) => {
            assert(a == b);
            lemma_same_split(json_text(u), s, json_text(v), t);
        },
        (JsonView::Number(m), JsonView::Number(n)) => {
            lemma_number_unique(m, n, s, t);
        },
        (JsonView::Text(a), JsonView::Text(b)) => {
            lemma_quoted_unique(a, b, s, t);
        },
        (JsonView::Array(a), JsonView::Array(b)) => {
            let x = items_text(a, a.len() as int) + (seq![']'] + s);
            let y = items_text(b, b.len() as int) + (seq![']'] + t);
            assert((json_text(u) + s).skip(1) =~= x);
            assert((json_text(v) + t).skip(1) =~= y);
            lemma_items_unique(a, b, s, t);
        },
        (JsonView::Object(a), JsonView::Object(b)) => {
            let x = fields_text(a, a.len() as int) + (seq!['}'] + s);
            let y = fields_text(b, b.len() as int) + (seq!['}'] + t);
            assert((json_text(u) + s).skip(1) =~= x);
            assert((json_text(v) + t).skip(1) =~= y);
            lemma_fields_unique(a, b, s, t);
        },
        _ => {
            assert(false);
        },
    }
}

proof fn lemma_items_unique(a: Seq<JsonView>, b: Seq<JsonView>, s: Seq<char>, t: Seq<char>)
    requires
        items_text(a, a.len() as int) + (seq![']'] + s) == items_text(b, b.len() as int) + (seq![']'] + t),
    ensures
        a == b,
        s == t,
    decreases a, a.len() + 1,
{
    let left = seq![']'] + s;
    let right = seq![']'] + t;
    if a.len() == 0 || b.len() == 0 {
        if a.len() == 0 {
            assert(items_text(a, 0) + left =~= left);
        }
        if b.len() == 0 {
            assert(items_text(b, 0) + right =~= right);
        }
        if a.len() > 0 {
            lemma_more_items(a, 1);
            lemma_begins(a[0]);
            assert((items_text(a, a.len() as int) + left)[0] == json_text(a[0])[0]);
            assert(right[0] == ']');
        }
        if b.len() > 0 {
            lemma_more_items(b, 1);
            lemma_begins(b[0]);
            assert((items_text(b, b.len() as int) + right)[0] == json_text(b[0])[0]);
            assert(left[0] == ']');
        }
        assert(s =~= left.skip(1));
        assert(t =~= right.skip(1));
        assert(a =~= b);
    } else {
        lemma_more_items(a, 1);
        lemma_more_items(b, 1);
        let x = more_items(a, 1) + left;
        let y = more_items(b, 1) + right;
        assert(items_text(a, a.len() as int) + left =~= json_text(a[0]) + x);
        assert(items_text(b, b.len() as int) + right =~= json_text(b[0]) + y);
        lemma_items_close(a, 1, s);
        lemma_items_close(b, 1, t);
        lemma_text_unique(a[0], b[0], x, y);
        lemma_more_items_unique(a, b, 1, s, t);
        assert(a =~= b);
    }
}

pub proof fn lemma_items_close(items: Seq<JsonView>, i: int, s: Seq<char>)
    requires
        0 <= i <= items.len(),
    ensures
        closes(more_items(items, i) + (seq![']'] + s)),
        (more_items(items, i) + (seq![']'] + s))[0] == if i < items.len() {
            ','
        } else {
            ']'
        },
{
    let end = seq![']'] + s;
    if i == items.len() {
        assert(more_items(items, i) + end =~= end);
    } else {
        assert((more_items(items, i) + end)[0] == ',');
    }
}

proof fn lemma_more_items_unique(a: Seq<JsonView>, b: Seq<JsonView>, i: int, s: Seq<char>, t: Seq<char>)
    requires
        0 <= i <= a.len(),
        i <= b.len(),
        more_items(a, i) + (seq![']'] + s) == more_items(b, i) + (seq![']'] + t),
    ensures
        a.len() == b.len(),
        forall|k: int| i <= k < a.len() ==> #[trigger] a[k] == b[k],
        s == t,
    decreases a, a.len() - i,
{
    let left = seq![']'] + s;
    let right = seq![']'] + t;
    lemma_items_close(a, i, s);
    lemma_items_close(b, i, t);
    if i == a.len() {
        assert(more_items(a, i) + left =~= left);
        assert(more_items(b, i) + right =~= right);
        assert(s =~= left.skip(1));
        assert(t =~= right.skip(1));
    } else {
        let x = more_items(a, i + 1) + left;
        let y = more_items(b, i + 1) + right;
        assert((more_items(a, i) + left).skip(1) =~= json_text(a[i]) + x);
        assert((more_items(b, i) + right).skip(1) =~= json_text(b[i]) + y);
        lemma_items_close(a, i + 1, s);
        lemma_items_close(b, i + 1, t);
        lemma_text_unique(a[i], b[i], x, y);
        lemma_more_items_unique(a, b, i + 1, s, t);
    }
}

proof fn lemma_fields_unique(a: Seq<(Seq<char>, JsonView)>, b: Seq<(Seq<char>, JsonView)>, s: Seq<char>, t: Seq<char>)
    requires
        fields_text(a, a.len() as int) + (seq!['}'] + s) == fields_text(b, b.len() as int) + (seq!['}'] + t),
    ensures
        a == b,
        s == t,
    decreases a, a.len() + 1,
{
    let left = seq!['}'] + s;
    let right = seq!['}'] + t;
    reveal_strlit(":");
    assert(":"@ =~= seq![':']);
    if a.len() == 0 || b.len() == 0 {
        if a.len() == 0 {
            assert(fields_text(a, 0) + left =~= left);
        }
        if b.len() == 0 {
            assert(fields_text(b, 0) + right =~= right);
        }
        if a.len() > 0 {
            lemma_more_fields(a, 1);
            assert((fields_text(a, a.len() as int) + left)[0] == '"');
            assert(right[0] == '}');
        }
        if b.len() > 0 {
            lemma_more_fields(b, 1);
            assert((fields_text(b, b.len() as int) + right)[0] == '"');
            assert(left[0] == '}');
        }
        assert(s =~= left.skip(1));
        assert(t =~= right.skip(1));
        assert(a =~= b);
    } else {
        lemma_more_fields(a, 1);
        lemma_more_fields(b, 1);
        let x = more_fields(a, 1) + left;
        let y = more_fields(b, 1) + right;
        assert(fields_text(a, a.len() as int) + left =~= quoted(a[0].0) + (seq![':'] + (json_text(a[0].1) + x)));
        assert(fields_text(b, b.len() as int) + right =~= quoted(b[0].0) + (seq![':'] + (json_text(b[0].1) + y)));
        lemma_quoted_unique(a[0].0, b[0].0, seq![':'] + (json_text(a[0].1) + x), seq![':'] + (json_text(b[0].1) + y));
        assert((seq![':'] + (json_text(a[0].1) + x)).skip(1) =~= json_text(a[0].1) + x);
        assert((seq![':'] + (json_text(b[0].1) + y)).skip(1) =~= json_text(b[0].1) + y);
        lemma_fields_close(a, 1, s);
        lemma_fields_close(b, 1, t);
        lemma_text_unique(a[0].1, b[0].1, x, y);
        lemma_more_fields_unique(a, b, 1, s, t);
        assert(a =~= b);
    }
}

pub proof fn lemma_fields_close(fields: Seq<(Seq<char>, JsonView)>, i: int, s: Seq<char>)
    requires
        0 <= i <= fields.len(),
    ensures
        closes(more_fields(fields, i) + (seq!['}'] + s)),
        (more_fields(fields, i) + (seq!['}'] + s))[0] == if i < fields.len() {
            ','
        } else {
            '}'
        },
{
    let end = seq!['}'] + s;
    if i == fields.len() {
        assert(more_fields(fields, i) + end =~= end);
    } else {
        assert((more_fields(fields, i) + end)[0] == ',');
    }
}

proof fn lemma_more_fields_unique(
    a: Seq<(Seq<char>, JsonView)>,
    b: Seq<(Seq<char>, JsonView)>,
    i: int,
    s: Seq<char>,
    t: Seq<char>,
)
    requires
        0 <= i <= a.len(),
        i <= b.len(),
        more_fields(a, i) + (seq!['}'] + s) == more_fields(b, i) + (seq!['}'] + t),
    ensures
        a.len() == b.len(),
        forall|k: int| i <= k < a.len() ==> #[trigger] a[k] == b[k],
        s == t,
    decreases a, a.len() - i,
{
    let left = seq!['}'] + s;
    let right = seq!['}'] + t;
    lemma_fields_close(a, i, s);
    lemma_fields_close(b, i, t);
    if i == a.len() {
        assert(more_fields(a, i) + left =~= left);
        assert(more_fields(b, i) + right =~= right);
        assert(s =~= left.skip(1));
        assert(t =~= right.skip(1));
    } else {
        let x = more_fields(a, i + 1) + left;
        let y = more_fields(b, i + 1) + right;
        let p = seq![':'] + (json_text(a[i].1) + x);
        let q = seq![':'] + (json_text(b[i].1) + y);
        assert((more_fields(a, i) + left).skip(1) =~= quoted(a[i].0) + p);
        assert((more_fields(b, i) + right).skip(1) =~= quoted(b[i].0) + q);
        lemma_quoted_unique(a[i].0, b[i].0, p, q);
        assert(p.skip(1) =~= json_text(a[i].1) + x);
        assert(q.skip(1) =~= json_text(b[i].1) + y);
        lemma_fields_close(a, i + 1, s);
        lemma_fields_close(b, i + 1, t);
        lemma_text_unique(a[i].1, b[i].1, x, y);
        assert(a[i] == b[i]);
        lemma_more_fields_unique(a, b, i + 1, s, t);
    }
}

/// The text of a JSON value is that of no other value.
pub proof fn a_json_text_stands_for_one_value(u: JsonView, v: JsonView)
    requires
        json_text(u) == json_text(v),
    ensures
        u == v,
{
    let nothing = Seq::<char>::empty();
    assert(json_text(u) + nothing =~= json_text(u));
    assert(json_text(v) + nothing =~= json_text(v));
    lemma_text_unique(u, v, nothing, nothing);
}

} // verus!
