//! Paths: what they are made of, how they are put together, and which are accepted.

use crate::laws::texts::{a_separator_parts_the_pieces, a_text_without_separators_is_one_piece, lacks};
use crate::text::{join, split};
use crate::versioned_fs::error::FsError;
use crate::versioned_fs::paths::{
    checked_relative_path, components, is_absolute, is_name, join_path, lemma_components_of_names, names, names_of,
    outside_paths_are_refused, part_of, part_views, parts_of, path_components, path_depth, pushed_pieces,
    relative_path, relative_string, PathPart, PathPartView,
};
use vstd::prelude::*;

verus! {

/// What one piece behind a separator adds to a path: nothing where it is empty
/// or a dot, a step up for two dots, else its name.
pub open spec fn added_by(piece: Seq<char>) -> Seq<PathPartView> {
    if piece == ""@ || piece == "."@ {
        Seq::empty()
    } else if piece == ".."@ {
        seq![PathPartView::Parent]
    } else {
        seq![PathPartView::Name(piece)]
    }
}

/// A component is the root, where one is, a step up or a name.
pub proof fn components_stand_for_themselves(part: PathPart)
    ensures
        part is Root <==> part@ is Root,
        part is Current <==> part@ is Current,
        part is Parent <==> part@ is Parent,
        part matches PathPart::Name(name) ==> part@ == PathPartView::Name(name@),
{
}

/// A text without a separator is one component: none where it is empty, the
/// place itself for a dot, a step up for two, else its name.
pub proof fn a_single_piece_is_one_component(path: &[char], parts: Vec<PathPart>)
    requires
        lacks(path@, '/'),
        call_ensures(path_components, (path,), parts),
    ensures
        path@ == ""@ ==> parts@.len() == 0,
        path@ == "."@ ==> part_views(parts@) == seq![PathPartView::Current],
        path@ != ""@ && path@ != "."@ ==> part_views(parts@) == added_by(path@),
{
    lemma_dots();
    a_text_without_separators_is_one_piece(path@, '/');
    let pieces = split(path@, '/');
    assert(part_views(parts@).len() == parts@.len());
    assert(parts_of(pieces, 0) =~= Seq::<PathPartView>::empty());
    assert(parts_of(pieces, 1) =~= match part_of(path@, 0) {
        Some(part) => seq![part],
        None => Seq::empty(),
    });
    assert(path@.len() == 0 <==> path@ =~= ""@);
}

/// A further piece adds what it stands for; a separator at the front stands for the root.
pub proof fn a_further_piece_adds_to_a_path(
    front: &[char],
    piece: Seq<char>,
    path: &[char],
    first: Vec<PathPart>,
    parts: Vec<PathPart>,
)
    requires
        lacks(piece, '/'),
        path@ == front@.push('/') + piece,
        call_ensures(path_components, (front,), first),
        call_ensures(path_components, (path,), parts),
    ensures
        front@.len() > 0 ==> part_views(parts@) == part_views(first@) + added_by(piece),
        front@.len() == 0 ==> part_views(parts@) == seq![PathPartView::Root] + added_by(piece),
{
    lemma_dots();
    a_text_without_separators_is_one_piece(piece, '/');
    a_separator_parts_the_pieces(front@, piece, '/');
    let pieces = split(path@, '/');
    let fewer = split(front@, '/');
    let n = fewer.len() as int;
    assert(pieces =~= fewer.push(piece));
    lemma_same_parts(fewer, pieces, n);
    crate::text::lemma_split_nonempty(front@, '/');
    assert(part_of(piece, n) == part_of(piece, 1));
    assert(piece.len() == 0 <==> piece =~= ""@);
    assert(parts_of(pieces, n + 1) =~= parts_of(fewer, n) + added_by(piece));
    if front@.len() > 0 {
        assert(path@[0] == front@[0]);
        assert(seq![PathPartView::Root] + (parts_of(fewer, n) + added_by(piece)) =~= (seq![PathPartView::Root] + parts_of(fewer, n))
            + added_by(piece));
    } else {
        assert(path@[0] == '/');
        assert(front@ =~= Seq::<char>::empty());
        assert(lacks(front@, '/'));
        a_text_without_separators_is_one_piece(front@, '/');
        assert(parts_of(fewer, 0) =~= Seq::<PathPartView>::empty());
        assert(parts_of(fewer, 1) =~= Seq::<PathPartView>::empty());
        assert(Seq::<PathPartView>::empty() + added_by(piece) =~= added_by(piece));
    }
}

proof fn lemma_dots()
    ensures
        "."@ == seq!['.'],
        ".."@ == seq!['.', '.'],
        ""@ == Seq::<char>::empty(),
        "."@ != ".."@,
{
    reveal_strlit(".");
    reveal_strlit("..");
    reveal_strlit("");
    assert("."@ =~= seq!['.']);
    assert(".."@ =~= seq!['.', '.']);
    assert(""@ =~= Seq::<char>::empty());
    assert("."@.len() == 1 && ".."@.len() == 2);
}

proof fn lemma_same_parts(a: Seq<Seq<char>>, b: Seq<Seq<char>>, n: int)
    requires
        n <= a.len(),
        n <= b.len(),
        forall|i: int| 0 <= i < n ==> #[trigger] a[i] == b[i],
    ensures
        parts_of(a, n) == parts_of(b, n),
    decreases n,
{
    if n > 0 {
        lemma_same_parts(a, b, n - 1);
        assert(a[n - 1] == b[n - 1]);
    }
}

/// Which paths an operation may name: none that starts at the root or steps up,
/// and none without a name. Of an accepted one its names are kept, in their
/// order, and nothing else.
pub proof fn operations_name_paths_inside(relative: &str, result: Result<String, FsError>)
    requires
        call_ensures(checked_relative_path, (relative,), result),
    ensures
        ({
            let pieces = split(relative@, '/');
            let outside = (relative@.len() > 0 && relative@[0] == '/') || exists|i: int|
                0 <= i < pieces.len() && #[trigger] pieces[i] == ".."@;
            let kept = pieces.filter(|piece: Seq<char>| piece != ""@ && piece != "."@);
            &&& outside ==> (result matches Err(FsError::OutsidePath(told)) && told@ == relative@)
            &&& !outside && kept.len() == 0 ==> (result matches Err(e) && e is EmptyPath)
            &&& !outside && kept.len() > 0 ==> (result matches Ok(path) && split(path@, '/') == kept && path@ == join(kept, '/'))
        }),
{
    lemma_dots();
    let pieces = split(relative@, '/');
    let n = pieces.len() as int;
    let keep = |piece: Seq<char>| piece != ""@ && piece != "."@;
    let outside = is_absolute(relative@) || exists|i: int| 0 <= i < pieces.len() && #[trigger] pieces[i] == ".."@;
    if outside {
        outside_paths_are_refused(relative@);
    } else {
        lemma_kept(pieces, n, keep);
        assert(pieces.take(n) =~= pieces);
        let parts = components(relative@);
        assert(parts == parts_of(pieces, n));
        assert(names(parts) == pieces.filter(keep));
        if relative@.len() == 0 {
            assert(relative@ =~= Seq::<char>::empty());
            assert(lacks(relative@, '/'));
            a_text_without_separators_is_one_piece(relative@, '/');
            assert(pieces.filter(keep).len() == 0) by {
                reveal_with_fuel(Seq::filter, 2);
                assert(pieces.drop_last() =~= Seq::<Seq<char>>::empty());
                assert(!keep(pieces.last())) by {
                    assert(pieces.last() =~= ""@);
                }
            }
        } else if names(parts).len() > 0 {
            let list = names(parts);
            assert forall|k: int| 0 <= k < list.len() implies is_name(#[trigger] list[k]) by {
                assert(list.contains(list[k]));
                lemma_filtered(pieces, keep, list[k]);
                let i = choose|i: int| 0 <= i < pieces.len() && pieces[i] == list[k];
                crate::text::lemma_split_pieces_hold_no_separator(relative@, '/');
                assert(list[k].len() > 0) by {
                    if list[k].len() == 0 {
                        assert(list[k] =~= ""@);
                    }
                }
            }
            lemma_components_of_names(list);
        }
    }
}

proof fn lemma_filtered(pieces: Seq<Seq<char>>, keep: spec_fn(Seq<char>) -> bool, x: Seq<char>)
    requires
        pieces.filter(keep).contains(x),
    ensures
        pieces.contains(x),
        keep(x),
    decreases pieces.len(),
{
    reveal(Seq::filter);
    if pieces.len() > 0 {
        let front = pieces.drop_last().filter(keep);
        if front.contains(x) {
            lemma_filtered(pieces.drop_last(), keep, x);
            let i = choose|i: int| 0 <= i < pieces.drop_last().len() && pieces.drop_last()[i] == x;
            assert(pieces[i] == x);
        } else {
            let f = pieces.filter(keep);
            let k = choose|k: int| 0 <= k < f.len() && f[k] == x;
            if k < front.len() {
                assert(front[k] == x);
            }
            assert(pieces[pieces.len() - 1] == x);
        }
    }
}

proof fn lemma_kept(pieces: Seq<Seq<char>>, n: int, keep: spec_fn(Seq<char>) -> bool)
    requires
        0 <= n <= pieces.len(),
        keep == (|piece: Seq<char>| piece != ""@ && piece != "."@),
        forall|i: int| 0 <= i < pieces.len() ==> #[trigger] pieces[i] != ".."@,
    ensures
        forall|k: int| 0 <= k < parts_of(pieces, n).len() ==> !crate::versioned_fs::paths::leads_out(#[trigger] parts_of(pieces, n)[k]),
        names(parts_of(pieces, n)) == pieces.take(n).filter(keep),
    decreases n,
{
    lemma_dots();
    reveal(Seq::filter);
    if n > 0 {
        lemma_kept(pieces, n - 1, keep);
        let piece = pieces[n - 1];
        let front = parts_of(pieces, n - 1);
        let whole = pieces.take(n);
        assert(whole.drop_last() =~= pieces.take(n - 1));
        assert(whole.last() == piece);
        assert(piece.len() == 0 <==> piece =~= ""@);
        assert(piece != ".."@);
        match part_of(piece, n - 1) {
            Some(part) => {
                lemma_names_of_same(front, front.push(part), front.len() as int);
                assert(parts_of(pieces, n) == front.push(part));
            },
            None => {},
        }
    } else {
        assert(pieces.take(0) =~= Seq::<Seq<char>>::empty());
    }
}

proof fn lemma_names_of_same(a: Seq<PathPartView>, b: Seq<PathPartView>, n: int)
    requires
        n <= a.len(),
        n <= b.len(),
        forall|i: int| 0 <= i < n ==> #[trigger] a[i] == b[i],
    ensures
        names_of(a, n) == names_of(b, n),
    decreases n,
{
    if n > 0 {
        lemma_names_of_same(a, b, n - 1);
        assert(a[n - 1] == b[n - 1]);
    }
}

/// A path put behind another stands behind one separator; one that starts at
/// the root takes the other's place.
pub proof fn paths_are_joined_by_one_separator(path: &str, piece: &str, whole: String)
    requires
        call_ensures(join_path, (path, piece), whole),
    ensures
        path@.len() == 0 ==> whole@ == piece@,
        piece@.len() > 0 && piece@[0] == '/' ==> whole@ == piece@,
        path@.len() > 0 && (piece@.len() == 0 || piece@[0] != '/') ==> {
            &&& path@.last() == '/' ==> whole@ == path@ + piece@
            &&& path@.last() != '/' ==> whole@ == path@ + "/"@ + piece@
        },
{
    reveal_strlit("/");
    assert(path@.push('/') =~= path@ + "/"@);
}

/// A key that is made of names is its own path, and as deep as it has names.
pub proof fn keys_are_their_own_paths(list: Seq<Seq<char>>, key: &str, path: String, depth: usize)
    requires
        list.len() > 0,
        forall|k: int| 0 <= k < list.len() ==> is_name(#[trigger] list[k]),
        key@ == join(list, '/'),
        call_ensures(relative_path, (key,), path),
        call_ensures(path_depth, (key,), depth),
    ensures
        path@ == key@,
        depth == list.len(),
{
    lemma_components_of_names(list);
    lemma_pushed_names(list, list.len() as int);
    assert(list.take(list.len() as int) =~= list);
}

proof fn lemma_pushed_names(list: Seq<Seq<char>>, n: int)
    requires
        0 <= n <= list.len(),
        forall|k: int| 0 <= k < list.len() ==> is_name(#[trigger] list[k]),
    ensures
        pushed_pieces(list, n) == join(list.take(n), '/'),
        n > 0 ==> pushed_pieces(list, n).len() > 0 && pushed_pieces(list, n).last() != '/',
    decreases n,
{
    if n > 0 {
        lemma_pushed_names(list, n - 1);
        let piece = list[n - 1];
        assert(is_name(piece));
        assert(piece[0] != '/');
        assert(list.take(n).drop_last() =~= list.take(n - 1));
        assert(list.take(n).last() == piece);
        if n == 1 {
            assert(list.take(1) =~= seq![piece]);
            crate::laws::texts::joining_puts_separators_between(Seq::empty(), piece, '/');
            assert(pushed_pieces(list, 0) =~= Seq::<char>::empty());
        } else {
            crate::laws::texts::joining_puts_separators_between(list.take(n - 1), piece, '/');
            assert(list.take(n) =~= list.take(n - 1).push(piece));
        }
        assert(pushed_pieces(list, n).last() == piece.last());
    } else {
        assert(list.take(0) =~= Seq::<Seq<char>>::empty());
    }
}

/// The key of a path is found exactly where the path begins with the components
/// of the root, and is made of the names behind them.
pub proof fn a_key_is_what_stands_behind_the_root(
    root: &str,
    path: &str,
    base: Vec<PathPart>,
    parts: Vec<PathPart>,
    root_chars: &[char],
    path_chars: &[char],
    list: Seq<Seq<char>>,
    key: Option<String>,
)
    requires
        root_chars@ == root@,
        path_chars@ == path@,
        call_ensures(path_components, (root_chars,), base),
        call_ensures(path_components, (path_chars,), parts),
        call_ensures(relative_string, (root, path), key),
    ensures
        key is Some <==> base@.len() <= parts@.len() && part_views(parts@).take(base@.len() as int) == part_views(base@),
        part_views(parts@) == part_views(base@) + Seq::new(list.len(), |k: int| PathPartView::Name(list[k])) ==> (key matches Some(k) && k@
            == join(list, '/')),
{
    let b = part_views(base@);
    let p = part_views(parts@);
    assert(b.len() == base@.len() && p.len() == parts@.len());
    let tail = Seq::new(list.len(), |k: int| PathPartView::Name(list[k]));
    if p == b + tail {
        assert(p.take(b.len() as int) =~= b);
        assert(p.skip(b.len() as int) =~= tail);
        lemma_names_back(list, tail, list.len() as int);
        assert(list.take(list.len() as int) =~= list);
    }
}

proof fn lemma_names_back(list: Seq<Seq<char>>, parts: Seq<PathPartView>, n: int)
    requires
        0 <= n <= list.len(),
        parts == Seq::new(list.len(), |k: int| PathPartView::Name(list[k])),
    ensures
        names_of(parts, n) == list.take(n),
    decreases n,
{
    if n > 0 {
        lemma_names_back(list, parts, n - 1);
        assert(list.take(n) =~= list.take(n - 1).push(list[n - 1]));
    } else {
        assert(list.take(0) =~= Seq::<Seq<char>>::empty());
    }
}

} // verus!
