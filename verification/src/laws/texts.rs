//! What taking texts apart, comparing and changing them comes to.

use crate::text::{
    ascii_lower, before, is_space, join, lemma_split_nonempty, lines, occurs, occurs_at, split,
    strip_return, trim, words,
};
use vstd::prelude::*;

verus! {

/// The text holds no such character.
pub open spec fn lacks(s: Seq<char>, c: char) -> bool {
    forall|i: int| 0 <= i < s.len() ==> #[trigger] s[i] != c
}

/// A text without separators is one piece.
pub proof fn a_text_without_separators_is_one_piece(s: Seq<char>, sep: char)
    requires
        lacks(s, sep),
    ensures
        split(s, sep) == seq![s],
    decreases s.len(),
{
    if s.len() == 0 {
        assert(s =~= Seq::<char>::empty());
    } else {
        let front = s.drop_last();
        assert forall|i: int| 0 <= i < front.len() implies #[trigger] front[i] != sep by {
            assert(s[i] != sep);
        }
        a_text_without_separators_is_one_piece(front, sep);
        assert(s.last() != sep);
        assert(front.push(s.last()) =~= s);
        assert(split(s, sep) =~= seq![s]);
    }
}

/// A separator ends the pieces before it and begins those after it.
pub proof fn a_separator_parts_the_pieces(a: Seq<char>, b: Seq<char>, sep: char)
    ensures
        split(a.push(sep) + b, sep) == split(a, sep) + split(b, sep),
    decreases b.len(),
{
    let whole = a.push(sep) + b;
    if b.len() == 0 {
        assert(whole.drop_last() =~= a);
        assert(b =~= Seq::<char>::empty());
        assert(split(whole, sep) =~= split(a, sep) + split(b, sep));
    } else {
        a_separator_parts_the_pieces(a, b.drop_last(), sep);
        lemma_split_nonempty(b.drop_last(), sep);
        assert(whole.drop_last() =~= a.push(sep) + b.drop_last());
        assert(whole.last() == b.last());
        assert(split(whole, sep) =~= split(a, sep) + split(b, sep));
    }
}

/// The first piece of a text is what stands before its first separator.
pub proof fn the_first_piece_ends_at_the_first_separator(name: Seq<char>, rest: Seq<char>, sep: char)
    requires
        lacks(name, sep),
    ensures
        split(name, sep)[0] == name,
        split(name.push(sep) + rest, sep)[0] == name,
{
    a_text_without_separators_is_one_piece(name, sep);
    a_separator_parts_the_pieces(name, rest, sep);
}

/// Joining puts each further piece behind a separator.
pub proof fn joining_puts_separators_between(pieces: Seq<Seq<char>>, piece: Seq<char>, sep: char)
    ensures
        join(Seq::empty(), sep) == Seq::<char>::empty(),
        join(seq![piece], sep) == piece,
        pieces.len() > 0 ==> join(pieces.push(piece), sep) == join(pieces, sep).push(sep) + piece,
{
    assert(pieces.push(piece).drop_last() =~= pieces);
}

/// The order of texts: the one that is a beginning of the other comes first;
/// else the one with the lesser character where they first differ.
pub proof fn texts_are_ordered_by_their_first_difference(common: Seq<char>, a: Seq<char>, b: Seq<char>)
    requires
        a.len() == 0 || b.len() == 0 || a[0] != b[0],
    ensures
        before(common + a, common + b) <==> b.len() > 0 && (a.len() == 0 || (a[0] as int) < (b[0] as int)),
    decreases common.len(),
{
    if common.len() == 0 {
        assert(common + a =~= a);
        assert(common + b =~= b);
    } else {
        assert((common + a).drop_first() =~= common.drop_first() + a);
        assert((common + b).drop_first() =~= common.drop_first() + b);
        texts_are_ordered_by_their_first_difference(common.drop_first(), a, b);
    }
}

/// One text occurs in another exactly where the other is something before it, it, and something after it.
pub proof fn a_text_occurs_between_two_others(left: Seq<char>, part: Seq<char>, right: Seq<char>)
    ensures
        occurs(left + part + right, part),
{
    let whole = left + part + right;
    assert(whole.subrange(left.len() as int, (left.len() + part.len()) as int) =~= part);
    assert(occurs_at(whole, part, left.len() as int));
}

/// Where a text occurs, the other is something before it, it, and something after it.
pub proof fn what_occurs_stands_between_two_others(whole: Seq<char>, part: Seq<char>) -> (ends: (Seq<char>, Seq<char>))
    requires
        occurs(whole, part),
    ensures
        whole == ends.0 + part + ends.1,
{
    let at = choose|at: int| occurs_at(whole, part, at);
    let left = whole.take(at);
    let right = whole.skip(at + part.len());
    assert(whole =~= left + part + right);
    (left, right)
}

/// Lowering replaces each capital letter of the Latin alphabet by its small
/// letter, and leaves every other character.
pub proof fn lowering_replaces_capital_letters(s: Seq<char>, i: int)
    requires
        0 <= i < s.len(),
    ensures
        ascii_lower(s).len() == s.len(),
        !(65 <= s[i] as int <= 90) ==> ascii_lower(s)[i] == s[i],
        65 <= s[i] as int <= 90 ==> ascii_lower(s)[i] as int - 97 == s[i] as int - 65,
{
}

/// White space: the blank, what ends lines and moves the carriage, and the
/// wider spaces of other scripts; no letter, digit or sign.
pub proof fn white_space_is_what_sets_words_apart(c: char)
    ensures
        c == ' ' || c == '\t' || c == '\n' || c == '\r' ==> is_space(c),
        c as int <= 0x7f ==> (is_space(c) <==> c == ' ' || 9 <= c as int <= 13),
        is_space(c) ==> c as int <= 0x3000,
{
}

/// Trimming takes white space from the ends and nothing else.
pub proof fn trimming_takes_white_space_from_the_ends(left: Seq<char>, s: Seq<char>, right: Seq<char>)
    requires
        forall|i: int| 0 <= i < left.len() ==> is_space(#[trigger] left[i]),
        forall|i: int| 0 <= i < right.len() ==> is_space(#[trigger] right[i]),
        s.len() > 0 ==> !is_space(s[0]) && !is_space(s.last()),
    ensures
        trim(left + s + right) == s,
    decreases left.len() + right.len(),
{
    let whole = left + s + right;
    if left.len() > 0 {
        assert(whole[0] == left[0]);
        assert(whole.drop_first() =~= left.drop_first() + s + right);
        assert forall|i: int| 0 <= i < left.drop_first().len() implies is_space(#[trigger] left.drop_first()[i]) by {
            assert(is_space(left[i + 1]));
        }
        trimming_takes_white_space_from_the_ends(left.drop_first(), s, right);
    } else if right.len() > 0 {
        if s.len() > 0 {
            assert(whole[0] == s[0]);
            assert(whole.last() == right.last());
            assert(whole.drop_last() =~= left + s + right.drop_last());
            assert forall|i: int| 0 <= i < right.drop_last().len() implies is_space(#[trigger] right.drop_last()[i]) by {
                assert(is_space(right[i]));
            }
            trimming_takes_white_space_from_the_ends(left, s, right.drop_last());
        } else {
            assert(whole[0] == right[0]);
            assert(whole.drop_first() =~= left + s + right.drop_first());
            assert forall|i: int| 0 <= i < right.drop_first().len() implies is_space(#[trigger] right.drop_first()[i]) by {
                assert(is_space(right[i + 1]));
            }
            trimming_takes_white_space_from_the_ends(left, s, right.drop_first());
        }
    } else {
        assert(whole =~= s);
    }
}

/// A run of characters without white space is one word.
pub proof fn a_run_without_white_space_is_one_word(s: Seq<char>)
    requires
        s.len() > 0,
        forall|i: int| 0 <= i < s.len() ==> !is_space(#[trigger] s[i]),
    ensures
        words(s) == seq![s],
    decreases s.len(),
{
    if s.len() == 1 {
        assert(s =~= seq![s[0]]);
        assert(words(s.drop_last()) =~= Seq::<Seq<char>>::empty());
        assert(words(s) =~= seq![s]);
    } else {
        let front = s.drop_last();
        assert forall|i: int| 0 <= i < front.len() implies !is_space(#[trigger] front[i]) by {
            assert(!is_space(s[i]));
        }
        a_run_without_white_space_is_one_word(front);
        assert(!is_space(s[s.len() - 2]));
        assert(front.push(s.last()) =~= s);
        assert(words(s) =~= seq![s]);
    }
}

/// White space parts the words before it from those after it.
pub proof fn white_space_parts_the_words(a: Seq<char>, space: char, b: Seq<char>)
    requires
        is_space(space),
    ensures
        words(a.push(space) + b) == words(a) + words(b),
        words(Seq::empty()) == Seq::<Seq<char>>::empty(),
    decreases b.len(),
{
    let whole = a.push(space) + b;
    if b.len() == 0 {
        assert(whole.drop_last() =~= a);
        assert(words(whole) =~= words(a) + words(b));
    } else {
        let front = b.drop_last();
        white_space_parts_the_words(a, space, front);
        assert(whole.drop_last() =~= a.push(space) + front);
        assert(whole.last() == b.last());
        if b.len() > 1 {
            assert(whole[whole.len() - 2] == b[b.len() - 2]);
            if !is_space(b.last()) && !is_space(b[b.len() - 2]) {
                lemma_words_open(front);
            }
        } else {
            assert(whole[whole.len() - 2] == space);
            assert(words(front) =~= Seq::<Seq<char>>::empty());
        }
        assert(words(whole) =~= words(a) + words(b));
    }
}

/// A text that does not end in white space has a last word.
proof fn lemma_words_open(s: Seq<char>)
    requires
        s.len() > 0,
        !is_space(s.last()),
    ensures
        words(s).len() > 0,
{
}

/// Every line feed ends a line; a carriage return before it is not part of the
/// line; what follows the last line feed is a line where it is not empty.
pub proof fn line_feeds_end_lines(line: Seq<char>, rest: Seq<char>)
    requires
        lacks(line, '\n'),
    ensures
        lines(line.push('\n') + rest) == seq![
            if line.len() > 0 && line.last() == '\r' {
                line.drop_last()
            } else {
                line
            },
        ] + lines(rest),
        line.len() > 0 ==> lines(line) == seq![line],
        lines(Seq::empty()) == Seq::<Seq<char>>::empty(),
{
    a_text_without_separators_is_one_piece(line, '\n');
    a_separator_parts_the_pieces(line, rest, '\n');
    lemma_split_nonempty(rest, '\n');
    let whole = line.push('\n') + rest;
    let strip = |p: Seq<char>| strip_return(p);
    assert(split(whole, '\n').drop_last() =~= seq![line] + split(rest, '\n').drop_last());
    assert(split(whole, '\n').drop_last().map_values(strip) =~= seq![strip_return(line)] + split(rest, '\n').drop_last().map_values(strip));
    assert(split(whole, '\n').last() == split(rest, '\n').last());
    assert(lines(whole) =~= seq![strip_return(line)] + lines(rest));
    assert(split(line, '\n').drop_last().map_values(strip) =~= Seq::<Seq<char>>::empty());
    assert(lines(line) =~= if line.len() > 0 { seq![line] } else { Seq::<Seq<char>>::empty() });
    assert(split(Seq::<char>::empty(), '\n') =~= seq![Seq::<char>::empty()]);
    assert(split(Seq::<char>::empty(), '\n').drop_last().map_values(strip) =~= Seq::<Seq<char>>::empty());
}

} // verus!
