//! Text primitives: ordering, splitting, trimming, searching and decimal numbers.
//!
//! Every function states its result over `Seq<char>`, the view of a string.

use vstd::prelude::*;

verus! {

/// `String::push` appends one character.
pub assume_specification[ String::push ](s: &mut String, c: char)
    ensures
        final(s)@ == old(s)@.push(c),
;

/// The characters of a string, in order.
pub fn chars_of(s: &str) -> (chars: Vec<char>)
    ensures
        chars@ == s@,
{
    let mut chars: Vec<char> = Vec::new();
    for c in it: s.chars()
        invariant
            chars@ == it.seq().take(it.index() as int),
            it.seq() == s@,
    {
        chars.push(c);
        assert(it.seq().take(it.index() + 1) =~= it.seq().take(it.index() as int).push(c));
    }
    assert(s@.take(s@.len() as int) =~= s@);
    chars
}

/// The string made of the given characters.
pub fn string_of(chars: &[char]) -> (s: String)
    ensures
        s@ == chars@,
{
    let mut s = String::new();
    for i in 0..chars.len()
        invariant
            s@ == chars@.take(i as int),
    {
        s.push(chars[i]);
        assert(chars@.take(i + 1) =~= chars@.take(i as int).push(chars@[i as int]));
    }
    assert(chars@.take(chars@.len() as int) =~= chars@);
    s
}


/// Whether two strings hold the same characters.
pub fn same_text(a: &str, b: &str) -> (same: bool)
    ensures
        same == (a@ == b@),
{
    a.to_owned() == b.to_owned()
}

/// Strict lexicographic order by code point, the order of Rust strings.
pub open spec fn before(a: Seq<char>, b: Seq<char>) -> bool
    decreases a.len(),
{
    if b.len() == 0 {
        false
    } else if a.len() == 0 {
        true
    } else if a[0] != b[0] {
        (a[0] as int) < (b[0] as int)
    } else {
        before(a.drop_first(), b.drop_first())
    }
}

/// The order is irreflexive.
pub proof fn lemma_before_irreflexive(a: Seq<char>)
    ensures
        !before(a, a),
    decreases a.len(),
{
    if a.len() > 0 {
        lemma_before_irreflexive(a.drop_first());
    }
}

/// The order is transitive.
pub proof fn lemma_before_transitive(a: Seq<char>, b: Seq<char>, c: Seq<char>)
    requires
        before(a, b),
        before(b, c),
    ensures
        before(a, c),
    decreases a.len(),
{
    if a.len() > 0 && a[0] == b[0] && b[0] == c[0] {
        lemma_before_transitive(a.drop_first(), b.drop_first(), c.drop_first());
    }
}

/// Of two different strings one comes before the other.
pub proof fn lemma_before_total(a: Seq<char>, b: Seq<char>)
    ensures
        a == b || before(a, b) || before(b, a),
    decreases a.len(),
{
    if a.len() > 0 && b.len() > 0 {
        if a[0] == b[0] {
            lemma_before_total(a.drop_first(), b.drop_first());
            if a.drop_first() == b.drop_first() {
                assert(a =~= seq![a[0]] + a.drop_first());
                assert(b =~= seq![b[0]] + b.drop_first());
            }
        } else {
            assert((a[0] as int) != (b[0] as int));
        }
    } else if a.len() == 0 && b.len() == 0 {
        assert(a =~= b);
    }
}

/// No two strings come before each other.
pub proof fn lemma_before_asymmetric(a: Seq<char>, b: Seq<char>)
    requires
        before(a, b),
    ensures
        !before(b, a),
        a != b,
{
    if before(b, a) {
        lemma_before_transitive(a, b, a);
    }
    lemma_before_irreflexive(a);
}

/// Whether `a` comes strictly before `b`.
pub fn comes_before(a: &str, b: &str) -> (r: bool)
    ensures
        r == before(a@, b@),
{
    let left = chars_of(a);
    let right = chars_of(b);
    let mut i: usize = 0;
    assert(left@.skip(0) =~= left@);
    assert(right@.skip(0) =~= right@);
    while i < left.len() && i < right.len() && left[i] == right[i]
        invariant
            left@ == a@,
            right@ == b@,
            i <= left.len(),
            i <= right.len(),
            before(a@, b@) == before(left@.skip(i as int), right@.skip(i as int)),
        decreases left.len() - i,
    {
        assert(left@.skip(i as int).drop_first() =~= left@.skip(i + 1));
        assert(right@.skip(i as int).drop_first() =~= right@.skip(i + 1));
        i = i + 1;
    }
    if i >= right.len() {
        false
    } else if i >= left.len() {
        true
    } else {
        let l: char = left[i];
        let r: char = right[i];
        l < r
    }
}

/// The pieces between the separators: a separator opens a new piece, any other
/// character extends the last one. There is always at least one piece.
pub open spec fn split(s: Seq<char>, sep: char) -> Seq<Seq<char>>
    decreases s.len(),
{
    if s.len() == 0 {
        seq![Seq::empty()]
    } else {
        let pieces = split(s.drop_last(), sep);
        if s.last() == sep {
            pieces.push(Seq::empty())
        } else {
            pieces.drop_last().push(pieces.last().push(s.last()))
        }
    }
}

/// The views of a list of strings.
pub open spec fn views(list: Seq<String>) -> Seq<Seq<char>> {
    list.map_values(|s: String| s@)
}

/// The views of a list of character vectors.
pub open spec fn char_views(list: Seq<Vec<char>>) -> Seq<Seq<char>> {
    list.map_values(|s: Vec<char>| s@)
}

/// There is always at least one piece.
pub proof fn lemma_split_nonempty(s: Seq<char>, sep: char)
    ensures
        split(s, sep).len() >= 1,
    decreases s.len(),
{
    if s.len() > 0 {
        lemma_split_nonempty(s.drop_last(), sep);
    }
}

/// Splits at every separator.
pub fn split_at_each(s: &[char], sep: char) -> (pieces: Vec<Vec<char>>)
    ensures
        char_views(pieces@) == split(s@, sep),
        pieces.len() >= 1,
{
    let mut pieces: Vec<Vec<char>> = Vec::new();
    let mut current: Vec<char> = Vec::new();
    assert(s@.take(0) =~= Seq::<char>::empty());
    assert(char_views(pieces@).push(current@) =~= split(s@.take(0), sep));
    for i in 0..s.len()
        invariant
            char_views(pieces@).push(current@) == split(s@.take(i as int), sep),
    {
        let c = s[i];
        let ghost whole = char_views(pieces@).push(current@);
        assert(s@.take(i + 1).drop_last() =~= s@.take(i as int));
        assert(whole.drop_last() =~= char_views(pieces@));
        if c == sep {
            let ghost old_pieces = pieces@;
            pieces.push(current);
            current = Vec::new();
            assert(char_views(pieces@) =~= whole);
            assert(current@ =~= Seq::<char>::empty());
        } else {
            current.push(c);
        }
    }
    let ghost whole = char_views(pieces@).push(current@);
    pieces.push(current);
    assert(char_views(pieces@) =~= whole);
    assert(s@.take(s@.len() as int) =~= s@);
    pieces
}


/// The pieces with the separator put back between them.
pub open spec fn join(pieces: Seq<Seq<char>>, sep: char) -> Seq<char>
    decreases pieces.len(),
{
    if pieces.len() == 0 {
        Seq::empty()
    } else if pieces.len() == 1 {
        pieces[0]
    } else {
        join(pieces.drop_last(), sep).push(sep) + pieces.last()
    }
}

/// Joining undoes splitting.
pub proof fn lemma_join_split(s: Seq<char>, sep: char)
    ensures
        join(split(s, sep), sep) == s,
    decreases s.len(),
{
    if s.len() == 0 {
        assert(s =~= Seq::empty());
    } else {
        let front = split(s.drop_last(), sep);
        lemma_join_split(s.drop_last(), sep);
        lemma_split_nonempty(s.drop_last(), sep);
        assert(s =~= s.drop_last().push(s.last()));
        if s.last() == sep {
            let pieces = front.push(Seq::empty());
            assert(pieces.drop_last() =~= front);
            assert(join(pieces, sep) =~= s);
        } else {
            let pieces = front.drop_last().push(front.last().push(s.last()));
            assert(pieces.drop_last() =~= front.drop_last());
            if front.len() == 1 {
                assert(join(pieces, sep) =~= s);
            } else {
                assert(join(pieces, sep) =~= s);
            }
        }
    }
}

/// No piece holds the separator.
pub proof fn lemma_split_pieces_hold_no_separator(s: Seq<char>, sep: char)
    ensures
        forall|i: int, j: int|
            0 <= i < split(s, sep).len() && 0 <= j < split(s, sep)[i].len() ==> #[trigger] split(
                s,
                sep,
            )[i][j] != sep,
    decreases s.len(),
{
    if s.len() > 0 {
        lemma_split_pieces_hold_no_separator(s.drop_last(), sep);
        lemma_split_nonempty(s.drop_last(), sep);
    }
}

/// Splitting undoes joining, when no piece holds the separator.
pub proof fn lemma_split_join(pieces: Seq<Seq<char>>, sep: char)
    requires
        pieces.len() >= 1,
        forall|i: int, j: int| 0 <= i < pieces.len() && 0 <= j < pieces[i].len() ==> #[trigger] pieces[i][j] != sep,
    ensures
        split(join(pieces, sep), sep) == pieces,
    decreases pieces.len(), pieces.last().len(),
{
    let last = pieces.last();
    if last.len() == 0 {
        if pieces.len() == 1 {
            assert(pieces =~= seq![Seq::<char>::empty()]) by {
                assert(pieces[0] =~= Seq::empty());
            }
        } else {
            let front = pieces.drop_last();
            assert(forall|i: int, j: int| 0 <= i < front.len() && 0 <= j < front[i].len() ==> #[trigger] front[i][j] == pieces[i][j]);
            lemma_split_join(front, sep);
            let s = join(front, sep).push(sep);
            assert(join(pieces, sep) =~= s);
            assert(s.drop_last() =~= join(front, sep));
            assert(last =~= Seq::empty());
            assert(front.push(Seq::empty()) =~= pieces);
        }
    } else {
        let shorter = pieces.drop_last().push(last.drop_last());
        assert(shorter.drop_last() =~= pieces.drop_last());
        assert(forall|i: int, j: int| 0 <= i < shorter.len() && 0 <= j < shorter[i].len() ==> #[trigger] shorter[i][j] == pieces[i][j]);
        lemma_split_join(shorter, sep);
        assert(pieces[pieces.len() - 1][last.len() - 1] != sep);
        let s = join(pieces, sep);
        assert(s.drop_last() =~= join(shorter, sep));
        assert(s.last() == last.last());
        assert(shorter.last().push(last.last()) =~= last);
        assert(shorter.drop_last().push(shorter.last().push(s.last())) =~= pieces);
    }
}

/// Joins the pieces with the separator between them.
pub fn join_pieces(pieces: &[Vec<char>], sep: char) -> (s: String)
    ensures
        s@ == join(char_views(pieces@), sep),
{
    let mut out: Vec<char> = Vec::new();
    for i in 0..pieces.len()
        invariant
            out@ == join(char_views(pieces@.take(i as int)), sep),
    {
        let ghost done = char_views(pieces@.take(i as int));
        let ghost next = char_views(pieces@.take(i + 1));
        assert(next.drop_last() =~= done);
        assert(next.last() == pieces@[i as int]@);
        if i > 0 {
            out.push(sep);
        } else {
            assert(out@ + pieces@[0]@ =~= pieces@[0]@);
        }
        push_all(&mut out, pieces[i].as_slice());
    }
    assert(pieces@.take(pieces@.len() as int) =~= pieces@);
    string_of(out.as_slice())
}

/// Appends all the characters.
pub fn push_all(out: &mut Vec<char>, more: &[char])
    ensures
        final(out)@ == old(out)@ + more@,
{
    let ghost start = out@;
    for i in 0..more.len()
        invariant
            out@ == start + more@.take(i as int),
    {
        out.push(more[i]);
        assert(start + more@.take(i + 1) =~= (start + more@.take(i as int)).push(more@[i as int]));
    }
    assert(more@.take(more@.len() as int) =~= more@);
}

/// Unicode `White_Space`.
pub open spec fn is_space(c: char) -> bool {
    let n = c as int;
    ||| 0x9 <= n <= 0xd
    ||| n == 0x20
    ||| n == 0x85
    ||| n == 0xa0
    ||| n == 0x1680
    ||| 0x2000 <= n <= 0x200a
    ||| n == 0x2028
    ||| n == 0x2029
    ||| n == 0x202f
    ||| n == 0x205f
    ||| n == 0x3000
}

/// Whether the character is white space.
pub fn space(c: char) -> (r: bool)
    ensures
        r == is_space(c),
{
    let n: u32 = c as u32;
    (0x9 <= n && n <= 0xd) || n == 0x20 || n == 0x85 || n == 0xa0 || n == 0x1680 || (0x2000 <= n
        && n <= 0x200a) || n == 0x2028 || n == 0x2029 || n == 0x202f || n == 0x205f || n == 0x3000
}

/// The text without the white space at its two ends.
pub open spec fn trim(s: Seq<char>) -> Seq<char>
    decreases s.len(),
{
    if s.len() > 0 && is_space(s[0]) {
        trim(s.drop_first())
    } else if s.len() > 0 && is_space(s.last()) {
        trim(s.drop_last())
    } else {
        s
    }
}

/// Removes the white space at the two ends.
pub fn trimmed(s: &[char]) -> (t: Vec<char>)
    ensures
        t@ == trim(s@),
{
    let mut start: usize = 0;
    let mut end: usize = s.len();
    assert(s@.subrange(0, s@.len() as int) =~= s@);
    while start < end && space(s[start])
        invariant
            start <= end,
            end == s.len(),
            trim(s@) == trim(s@.subrange(start as int, end as int)),
        decreases end - start,
    {
        assert(s@.subrange(start as int, end as int).drop_first() =~= s@.subrange(start + 1, end as int));
        start = start + 1;
    }
    while start < end && space(s[end - 1])
        invariant
            start <= end <= s.len(),
            start < end ==> !is_space(s@[start as int]),
            trim(s@) == trim(s@.subrange(start as int, end as int)),
        decreases end - start,
    {
        assert(s@.subrange(start as int, end as int).drop_last() =~= s@.subrange(start as int, end - 1));
        end = end - 1;
    }
    slice_of(s, start, end)
}

/// A copy of the characters from `start` up to `end`.
pub fn slice_of(s: &[char], start: usize, end: usize) -> (t: Vec<char>)
    requires
        start <= end <= s.len(),
    ensures
        t@ == s@.subrange(start as int, end as int),
{
    let mut out: Vec<char> = Vec::new();
    for i in start..end
        invariant
            start <= i <= end <= s.len(),
            out@ == s@.subrange(start as int, i as int),
    {
        out.push(s[i]);
        assert(s@.subrange(start as int, i + 1) =~= s@.subrange(start as int, i as int).push(s@[i as int]));
    }
    out
}

/// The maximal runs of characters that are not white space.
pub open spec fn words(s: Seq<char>) -> Seq<Seq<char>>
    decreases s.len(),
{
    if s.len() == 0 {
        Seq::empty()
    } else {
        let front = words(s.drop_last());
        if is_space(s.last()) {
            front
        } else if s.len() == 1 || is_space(s[s.len() - 2]) {
            front.push(seq![s.last()])
        } else {
            front.drop_last().push(front.last().push(s.last()))
        }
    }
}

/// Splits into words at white space.
pub fn words_of(s: &[char]) -> (found: Vec<Vec<char>>)
    ensures
        char_views(found@) == words(s@),
{
    let mut found: Vec<Vec<char>> = Vec::new();
    let mut current: Vec<char> = Vec::new();
    let mut open: bool = false;
    assert(s@.take(0) =~= Seq::<char>::empty());
    assert(char_views(found@) =~= words(s@.take(0)));
    for i in 0..s.len()
        invariant
            open == (i > 0 && !is_space(s@[i - 1])),
            !open ==> char_views(found@) == words(s@.take(i as int)) && current@.len() == 0,
            open ==> char_views(found@).push(current@) == words(s@.take(i as int)),
    {
        let c = s[i];
        let ghost part = s@.take(i + 1);
        assert(part.drop_last() =~= s@.take(i as int));
        assert(part.last() == c);
        if space(c) {
            if open {
                let ghost whole = char_views(found@).push(current@);
                found.push(current);
                current = Vec::new();
                assert(char_views(found@) =~= whole);
            }
            open = false;
        } else {
            let ghost before_push = char_views(found@).push(current@);
            if !open {
                assert(current@.push(c) =~= seq![c]);
            }
            current.push(c);
            assert(before_push.drop_last() =~= char_views(found@));
            open = true;
        }
    }
    assert(s@.take(s@.len() as int) =~= s@);
    if open {
        let ghost whole = char_views(found@).push(current@);
        found.push(current);
        assert(char_views(found@) =~= whole);
    }
    found
}

/// A line without the carriage return that closes it.
pub open spec fn strip_return(s: Seq<char>) -> Seq<char> {
    if s.len() > 0 && s.last() == '\r' {
        s.drop_last()
    } else {
        s
    }
}

/// The lines of a text: every line feed ends one, a carriage return before it
/// belongs to the line end, and text after the last line feed is a line too.
pub open spec fn lines(s: Seq<char>) -> Seq<Seq<char>> {
    let pieces = split(s, '\n');
    let ended = pieces.drop_last().map_values(|p: Seq<char>| strip_return(p));
    if pieces.last().len() == 0 {
        ended
    } else {
        ended.push(pieces.last())
    }
}

/// Splits a text into its lines.
pub fn lines_of(s: &[char]) -> (found: Vec<Vec<char>>)
    ensures
        char_views(found@) == lines(s@),
{
    let mut pieces = split_at_each(s, '\n');
    let ghost all = char_views(pieces@);
    let ghost strip = |p: Seq<char>| strip_return(p);
    let mut found: Vec<Vec<char>> = Vec::new();
    let mut i: usize = 0;
    let last: usize = pieces.len() - 1;
    while i < last
        invariant
            i <= last,
            last == pieces.len() - 1,
            all == char_views(pieces@),
            char_views(found@) == all.take(i as int).map_values(strip),
            strip == (|p: Seq<char>| strip_return(p)),
        decreases last - i,
    {
        let n: usize = pieces[i].len();
        assert(all[i as int] == pieces@[i as int]@);
        let line = if n > 0 && pieces[i][n - 1] == '\r' {
            let short = slice_of(pieces[i].as_slice(), 0, n - 1);
            assert(short@ =~= strip_return(all[i as int]));
            short
        } else {
            let whole = slice_of(pieces[i].as_slice(), 0, n);
            assert(whole@ =~= strip_return(all[i as int]));
            whole
        };
        let ghost old_found = char_views(found@);
        found.push(line);
        assert(char_views(found@) =~= old_found.push(line@));
        assert(all.take(i + 1).map_values(strip) =~= all.take(i as int).map_values(strip).push(strip(all[i as int])));
        i = i + 1;
    }
    assert(all.take(last as int) =~= all.drop_last());
    assert(all.last() == pieces@[last as int]@);
    if pieces[last].len() > 0 {
        let tail = slice_of(pieces[last].as_slice(), 0, pieces[last].len());
        assert(tail@ =~= all.last());
        let ghost old_found = char_views(found@);
        found.push(tail);
        assert(char_views(found@) =~= old_found.push(tail@));
    }
    found
}

/// Whether `part` occurs in `whole` at position `at`.
pub open spec fn occurs_at(whole: Seq<char>, part: Seq<char>, at: int) -> bool {
    &&& 0 <= at
    &&& at + part.len() <= whole.len()
    &&& whole.subrange(at, at + part.len()) == part
}

/// Whether `part` occurs somewhere in `whole`.
pub open spec fn occurs(whole: Seq<char>, part: Seq<char>) -> bool {
    exists|at: int| occurs_at(whole, part, at)
}

/// Whether `part` occurs in `whole` at position `at`.
pub fn matches_at(whole: &[char], part: &[char], at: usize) -> (r: bool)
    ensures
        r == occurs_at(whole@, part@, at as int),
{
    if at > whole.len() || part.len() > whole.len() - at {
        return false;
    }
    let mut i: usize = 0;
    while i < part.len()
        invariant
            i <= part.len(),
            at + part.len() <= whole.len(),
            forall|j: int| 0 <= j < i ==> whole@[at + j] == part@[j],
        decreases part.len() - i,
    {
        if whole[at + i] != part[i] {
            assert(whole@.subrange(at as int, at + part.len())[i as int] != part@[i as int]);
            return false;
        }
        i = i + 1;
    }
    assert(whole@.subrange(at as int, at + part.len()) =~= part@);
    true
}

/// Whether `part` occurs in `whole`.
pub fn contains_text(whole: &[char], part: &[char]) -> (r: bool)
    ensures
        r == occurs(whole@, part@),
{
    let mut at: usize = 0;
    while at < whole.len()
        invariant
            at <= whole.len(),
            forall|k: int| 0 <= k < at ==> !occurs_at(whole@, part@, k),
        decreases whole.len() - at,
    {
        if matches_at(whole, part, at) {
            return true;
        }
        at = at + 1;
    }
    if matches_at(whole, part, at) {
        return true;
    }
    assert forall|k: int| !occurs_at(whole@, part@, k) by {
        if k > whole.len() {
        }
    }
    false
}

/// The lower-case form of an ASCII letter; any other character itself.
pub open spec fn ascii_lower_char(c: char) -> char {
    if 'A' <= c <= 'Z' {
        (c as int + 32) as char
    } else {
        c
    }
}

/// The text with its ASCII letters in lower case.
pub open spec fn ascii_lower(s: Seq<char>) -> Seq<char> {
    s.map_values(|c: char| ascii_lower_char(c))
}

/// Lower-cases the ASCII letters.
pub fn ascii_lowered(s: &[char]) -> (t: Vec<char>)
    ensures
        t@ == ascii_lower(s@),
{
    let mut out: Vec<char> = Vec::new();
    for i in 0..s.len()
        invariant
            out@ == ascii_lower(s@.take(i as int)),
    {
        let c: char = s[i];
        let lowered: char = if 'A' <= c && c <= 'Z' {
            ((c as u8) + 32u8) as char
        } else {
            c
        };
        out.push(lowered);
        assert(ascii_lower(s@.take(i + 1)) =~= ascii_lower(s@.take(i as int)).push(ascii_lower_char(c)));
    }
    assert(s@.take(s@.len() as int) =~= s@);
    out
}

/// `first` followed by `second`.
pub fn concat2(first: &str, second: &str) -> (s: String)
    ensures
        s@ == first@ + second@,
{
    let mut s = first.to_string();
    s.append(second);
    s
}

/// `first`, `second` and `third` in a row.
pub fn concat3(first: &str, second: &str, third: &str) -> (s: String)
    ensures
        s@ == first@ + second@ + third@,
{
    let mut s = concat2(first, second);
    s.append(third);
    s
}

} // verus!
