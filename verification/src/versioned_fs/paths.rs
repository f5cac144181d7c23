//! Workspace paths: Unix path text, taken apart at `/`.

use crate::text::{
    char_views, chars_of, join, join_pieces, lemma_split_join, lemma_split_pieces_hold_no_separator,
    push_all, same_text, slice_of, split, split_at_each, string_of,
};
use crate::versioned_fs::error::{FsError, FsErrorView};
use vstd::prelude::*;

verus! {

/// One component of a path.
pub enum PathPart {
    Root,
    Current,
    Parent,
    Name(Vec<char>),
}

/// The mathematical value of a component.
pub enum PathPartView {
    Root,
    Current,
    Parent,
    Name(Seq<char>),
}

impl View for PathPart {
    type V = PathPartView;

    open spec fn view(&self) -> PathPartView {
        match *self {
            PathPart::Root => PathPartView::Root,
            PathPart::Current => PathPartView::Current,
            PathPart::Parent => PathPartView::Parent,
            PathPart::Name(name) => PathPartView::Name(name@),
        }
    }
}

/// The component that the piece at `i` stands for: empty pieces stand for
/// none, and neither does a `.` except at the very start.
pub open spec fn part_of(piece: Seq<char>, i: int) -> Option<PathPartView> {
    if piece.len() == 0 {
        None
    } else if piece == seq!['.'] {
        if i == 0 {
            Some(PathPartView::Current)
        } else {
            None
        }
    } else if piece == seq!['.', '.'] {
        Some(PathPartView::Parent)
    } else {
        Some(PathPartView::Name(piece))
    }
}

/// The components that the first `n` pieces stand for.
pub open spec fn parts_of(pieces: Seq<Seq<char>>, n: int) -> Seq<PathPartView>
    decreases n,
{
    if n <= 0 {
        Seq::empty()
    } else {
        match part_of(pieces[n - 1], n - 1) {
            Some(part) => parts_of(pieces, n - 1).push(part),
            None => parts_of(pieces, n - 1),
        }
    }
}

/// The path starts at the root.
pub open spec fn is_absolute(path: Seq<char>) -> bool {
    path.len() > 0 && path[0] == '/'
}

/// The components of a path.
pub open spec fn components(path: Seq<char>) -> Seq<PathPartView> {
    let pieces = split(path, '/');
    let parts = parts_of(pieces, pieces.len() as int);
    if is_absolute(path) {
        seq![PathPartView::Root] + parts
    } else {
        parts
    }
}

/// The values of a list of components.
pub open spec fn part_views(parts: Seq<PathPart>) -> Seq<PathPartView> {
    parts.map_values(|p: PathPart| p@)
}

/// The names among the first `n` components.
pub open spec fn names_of(parts: Seq<PathPartView>, n: int) -> Seq<Seq<char>>
    decreases n,
{
    if n <= 0 {
        Seq::empty()
    } else {
        match parts[n - 1] {
            PathPartView::Name(name) => names_of(parts, n - 1).push(name),
            _ => names_of(parts, n - 1),
        }
    }
}

/// The names among the components.
pub open spec fn names(parts: Seq<PathPartView>) -> Seq<Seq<char>> {
    names_of(parts, parts.len() as int)
}

/// A component that leads out of a directory.
pub open spec fn leads_out(part: PathPartView) -> bool {
    part is Root || part is Parent
}

/// Takes a path apart.
pub fn path_components(path: &[char]) -> (parts: Vec<PathPart>)
    ensures
        part_views(parts@) == components(path@),
{
    let pieces = split_at_each(path, '/');
    let mut parts: Vec<PathPart> = Vec::new();
    let ghost list = split(path@, '/');
    let ghost head: Seq<PathPartView> = if is_absolute(path@) {
        seq![PathPartView::Root]
    } else {
        Seq::empty()
    };
    if path.len() > 0 && path[0] == '/' {
        parts.push(PathPart::Root);
    }
    assert(part_views(parts@) =~= head + parts_of(list, 0));
    for i in 0..pieces.len()
        invariant
            list == char_views(pieces@),
            part_views(parts@) == head + parts_of(list, i as int),
    {
        let piece = pieces[i].as_slice();
        let ghost start = parts@;
        assert(list[i as int] == piece@);
        if piece.len() == 0 {
        } else if piece.len() == 1 && piece[0] == '.' {
            assert(piece@ =~= seq!['.']);
            if i == 0 {
                parts.push(PathPart::Current);
                assert(part_views(parts@) =~= part_views(start).push(PathPartView::Current));
            }
        } else if piece.len() == 2 && piece[0] == '.' && piece[1] == '.' {
            assert(piece@ =~= seq!['.', '.']);
            parts.push(PathPart::Parent);
            assert(part_views(parts@) =~= part_views(start).push(PathPartView::Parent));
        } else {
            let name = slice_of(piece, 0, piece.len());
            assert(name@ =~= piece@);
            parts.push(PathPart::Name(name));
            assert(part_views(parts@) =~= part_views(start).push(PathPartView::Name(piece@)));
        }
        assert(part_views(parts@) =~= head + parts_of(list, i + 1));
    }
    assert(part_views(parts@) =~= components(path@));
    parts
}

/// The path inside a workspace that an operation's path names, or why it is refused.
pub open spec fn checked(relative: Seq<char>) -> Result<Seq<char>, FsErrorView> {
    let parts = components(relative);
    if relative.len() == 0 {
        Err(FsErrorView::EmptyPath)
    } else if exists|i: int| 0 <= i < parts.len() && leads_out(#[trigger] parts[i]) {
        Err(FsErrorView::OutsidePath(relative))
    } else if names(parts).len() == 0 {
        Err(FsErrorView::EmptyPath)
    } else {
        Ok(join(names(parts), '/'))
    }
}

/// The path inside a workspace that an operation's path names.
pub fn checked_relative_path(relative: &str) -> (result: Result<String, FsError>)
    ensures
        match result {
            Ok(path) => checked(relative@) == Ok::<Seq<char>, FsErrorView>(path@),
            Err(e) => checked(relative@) == Err::<Seq<char>, FsErrorView>(e@),
        },
{
    let chars = chars_of(relative);
    if chars.len() == 0 {
        return Err(FsError::EmptyPath);
    }
    let parts = path_components(chars.as_slice());
    let ghost list = components(relative@);
    let mut found: Vec<Vec<char>> = Vec::new();
    assert(char_views(found@) =~= names_of(list, 0));
    for i in 0..parts.len()
        invariant
            list == components(relative@),
            list == part_views(parts@),
            relative@.len() > 0,
            forall|j: int| 0 <= j < i ==> !leads_out(#[trigger] list[j]),
            char_views(found@) == names_of(list, i as int),
    {
        assert(list[i as int] == parts@[i as int]@);
        match &parts[i] {
            PathPart::Name(name) => {
                let ghost start = found@;
                let copy = slice_of(name.as_slice(), 0, name.len());
                assert(copy@ =~= name@);
                found.push(copy);
                assert(char_views(found@) =~= char_views(start).push(name@));
            },
            PathPart::Current => {},
            _ => {
                assert(leads_out(list[i as int]));
                return Err(FsError::OutsidePath(relative.to_string()));
            },
        }
    }
    if found.len() == 0 {
        return Err(FsError::EmptyPath);
    }
    Ok(join_pieces(found.as_slice(), '/'))
}

/// The text of a path after `push` of one more piece: an absolute piece
/// replaces the path, any other is put behind a separator.
pub open spec fn pushed(path: Seq<char>, piece: Seq<char>) -> Seq<char> {
    if is_absolute(piece) || path.len() == 0 {
        piece
    } else if path.last() == '/' {
        path + piece
    } else {
        path.push('/') + piece
    }
}

/// The path with one more piece pushed.
pub fn join_path(path: &str, piece: &str) -> (whole: String)
    ensures
        whole@ == pushed(path@, piece@),
{
    let mut chars = chars_of(path);
    let more = chars_of(piece);
    if chars.len() == 0 || (more.len() > 0 && more[0] == '/') {
        return piece.to_string();
    }
    if chars[chars.len() - 1] != '/' {
        chars.push('/');
    }
    push_all(&mut chars, more.as_slice());
    string_of(chars.as_slice())
}

/// The first `n` pieces pushed one after another onto the empty path.
pub open spec fn pushed_pieces(pieces: Seq<Seq<char>>, n: int) -> Seq<char>
    decreases n,
{
    if n <= 0 {
        Seq::empty()
    } else {
        pushed(pushed_pieces(pieces, n - 1), pieces[n - 1])
    }
}

/// The path that a manifest key names.
pub open spec fn key_path(relative: Seq<char>) -> Seq<char> {
    let pieces = split(relative, '/');
    pushed_pieces(pieces, pieces.len() as int)
}

/// The path that a manifest key names.
pub fn relative_path(relative: &str) -> (path: String)
    ensures
        path@ == key_path(relative@),
{
    let chars = chars_of(relative);
    let pieces = split_at_each(chars.as_slice(), '/');
    let ghost list = split(relative@, '/');
    let mut path = String::new();
    assert(path@ =~= pushed_pieces(list, 0));
    for i in 0..pieces.len()
        invariant
            list == char_views(pieces@),
            path@ == pushed_pieces(list, i as int),
    {
        assert(list[i as int] == pieces@[i as int]@);
        let piece = string_of(pieces[i].as_slice());
        path = join_path(path.as_str(), piece.as_str());
    }
    path
}

/// How many pieces a manifest key has.
pub open spec fn depth(relative: Seq<char>) -> nat {
    split(relative, '/').len()
}

/// How many pieces a manifest key has.
pub fn path_depth(relative: &str) -> (n: usize)
    ensures
        n == depth(relative@),
{
    let chars = chars_of(relative);
    let pieces = split_at_each(chars.as_slice(), '/');
    assert(char_views(pieces@).len() == pieces@.len());
    pieces.len()
}

/// The names that a snapshot skips at the top of a workspace.
pub open spec fn is_ignored_name(name: Seq<char>) -> bool {
    name == ".git"@ || name == ".shadox"@ || name == "target"@ || name == "node_modules"@
}

/// The manifest key lies below a name that a snapshot skips.
pub open spec fn is_ignored(relative: Seq<char>) -> bool {
    is_ignored_name(split(relative, '/')[0])
}

/// Whether a snapshot skips the path.
pub fn should_ignore(relative: &str) -> (r: bool)
    ensures
        r == is_ignored(relative@),
{
    let chars = chars_of(relative);
    let pieces = split_at_each(chars.as_slice(), '/');
    assert(char_views(pieces@)[0] == pieces@[0]@);
    let first = string_of(pieces[0].as_slice());
    let name = first.as_str();
    same_text(name, ".git") || same_text(name, ".shadox") || same_text(name, "target") || same_text(name, "node_modules")
}

/// The manifest key of a path below `root`.
pub open spec fn key_of(root: Seq<char>, path: Seq<char>) -> Option<Seq<char>> {
    let base = components(root);
    let parts = components(path);
    if base.len() <= parts.len() && parts.take(base.len() as int) == base {
        Some(join(names(parts.skip(base.len() as int)), '/'))
    } else {
        None
    }
}

/// Whether two components are the same.
fn same_part(a: &PathPart, b: &PathPart) -> (r: bool)
    ensures
        r == (a@ == b@),
{
    match (a, b) {
        (PathPart::Root, PathPart::Root) => true,
        (PathPart::Current, PathPart::Current) => true,
        (PathPart::Parent, PathPart::Parent) => true,
        (PathPart::Name(x), PathPart::Name(y)) => {
            let left = string_of(x.as_slice());
            let right = string_of(y.as_slice());
            same_text(left.as_str(), right.as_str())
        },
        _ => false,
    }
}

/// The manifest key of a path below `root`; nothing for a path elsewhere.
pub fn relative_string(root: &str, path: &str) -> (key: Option<String>)
    ensures
        match key {
            Some(k) => key_of(root@, path@) == Some(k@),
            None => key_of(root@, path@) is None,
        },
{
    let root_chars = chars_of(root);
    let path_chars = chars_of(path);
    let base = path_components(root_chars.as_slice());
    let parts = path_components(path_chars.as_slice());
    let ghost base_list = components(root@);
    let ghost list = components(path@);
    if base.len() > parts.len() {
        assert(part_views(base@).len() == base@.len());
        assert(part_views(parts@).len() == parts@.len());
        return None;
    }
    for i in 0..base.len()
        invariant
            base@.len() <= parts@.len(),
            base_list == part_views(base@),
            list == part_views(parts@),
            base_list == components(root@),
            list == components(path@),
            forall|j: int| 0 <= j < i ==> #[trigger] base_list[j] == list[j],
    {
        if !same_part(&base[i], &parts[i]) {
            assert(base_list[i as int] == base@[i as int]@);
            assert(list.take(base_list.len() as int)[i as int] == parts@[i as int]@);
            return None;
        }
    }
    assert(list.take(base_list.len() as int) =~= base_list);
    let ghost rest = list.skip(base_list.len() as int);
    let mut found: Vec<Vec<char>> = Vec::new();
    assert(char_views(found@) =~= names_of(rest, 0));
    for i in base.len()..parts.len()
        invariant
            base@.len() <= parts@.len(),
            base_list.len() == base@.len(),
            list == part_views(parts@),
            rest == list.skip(base_list.len() as int),
            char_views(found@) == names_of(rest, i - base@.len()),
    {
        assert(rest[i - base@.len()] == parts@[i as int]@);
        if let PathPart::Name(name) = &parts[i] {
            let ghost start = found@;
            let copy = slice_of(name.as_slice(), 0, name.len());
            assert(copy@ =~= name@);
            found.push(copy);
            assert(char_views(found@) =~= char_views(start).push(name@));
        }
    }
    Some(join_pieces(found.as_slice(), '/'))
}

/// A usable name: not empty, without a separator, and neither `.` nor `..`.
pub open spec fn is_name(name: Seq<char>) -> bool {
    &&& name.len() > 0
    &&& name != seq!['.']
    &&& name != seq!['.', '.']
    &&& forall|i: int| 0 <= i < name.len() ==> #[trigger] name[i] != '/'
}

/// Every component that is a name is a usable name.
proof fn lemma_parts_are_names(pieces: Seq<Seq<char>>, n: int)
    requires
        0 <= n <= pieces.len(),
        forall|i: int, j: int| 0 <= i < pieces.len() && 0 <= j < pieces[i].len() ==> #[trigger] pieces[i][j] != '/',
    ensures
        forall|k: int| 0 <= k < parts_of(pieces, n).len() && (#[trigger] parts_of(pieces, n)[k]) is Name ==> is_name(parts_of(pieces, n)[k]->0),
    decreases n,
{
    if n > 0 {
        lemma_parts_are_names(pieces, n - 1);
        let front = parts_of(pieces, n - 1);
        let whole = parts_of(pieces, n);
        assert forall|k: int| 0 <= k < whole.len() && (#[trigger] whole[k]) is Name implies is_name(whole[k]->0) by {
            if k < front.len() {
                assert(whole[k] == front[k]);
            } else {
                let piece = pieces[n - 1];
                assert forall|i: int| 0 <= i < piece.len() implies #[trigger] piece[i] != '/' by {
                    assert(pieces[n - 1][i] != '/');
                }
            }
        }
    }
}

/// The names of a path are usable names.
proof fn lemma_names_are_names(parts: Seq<PathPartView>, n: int)
    requires
        0 <= n <= parts.len(),
        forall|k: int| 0 <= k < parts.len() && (#[trigger] parts[k]) is Name ==> is_name(parts[k]->0),
    ensures
        forall|k: int| 0 <= k < names_of(parts, n).len() ==> is_name(#[trigger] names_of(parts, n)[k]),
    decreases n,
{
    if n > 0 {
        lemma_names_are_names(parts, n - 1);
        let front = names_of(parts, n - 1);
        let whole = names_of(parts, n);
        assert forall|k: int| 0 <= k < whole.len() implies is_name(#[trigger] whole[k]) by {
            if k < front.len() {
                assert(whole[k] == front[k]);
            } else {
                assert(parts[n - 1] is Name);
            }
        }
    }
}

/// Usable names are the components of the path that they make.
pub proof fn lemma_components_of_names(list: Seq<Seq<char>>)
    requires
        list.len() > 0,
        forall|k: int| 0 <= k < list.len() ==> is_name(#[trigger] list[k]),
    ensures
        components(join(list, '/')) == Seq::new(list.len(), |k: int| PathPartView::Name(list[k])),
        names(components(join(list, '/'))) == list,
        split(join(list, '/'), '/') == list,
        !is_absolute(join(list, '/')),
        join(list, '/').len() > 0,
{
    assert forall|i: int, j: int| 0 <= i < list.len() && 0 <= j < list[i].len() implies #[trigger] list[i][j] != '/' by {
        assert(is_name(list[i]));
    }
    let path = join(list, '/');
    lemma_split_join(list, '/');
    lemma_join_starts(list);
    lemma_parts_of_names(list, list.len() as int);
    let parts = Seq::new(list.len(), |k: int| PathPartView::Name(list[k]));
    assert(components(path) =~= parts);
    lemma_names_of_names(list, parts, list.len() as int);
}

/// A joined path starts as its first piece does.
proof fn lemma_join_starts(list: Seq<Seq<char>>)
    requires
        list.len() > 0,
        list[0].len() > 0,
    ensures
        join(list, '/').len() > 0,
        join(list, '/')[0] == list[0][0],
    decreases list.len(),
{
    if list.len() > 1 {
        lemma_join_starts(list.drop_last());
    }
}

/// Usable names stand for themselves.
proof fn lemma_parts_of_names(list: Seq<Seq<char>>, n: int)
    requires
        0 <= n <= list.len(),
        forall|k: int| 0 <= k < list.len() ==> is_name(#[trigger] list[k]),
    ensures
        parts_of(list, n) == Seq::new(n as nat, |k: int| PathPartView::Name(list[k])),
    decreases n,
{
    if n > 0 {
        lemma_parts_of_names(list, n - 1);
        assert(is_name(list[n - 1]));
    }
    assert(parts_of(list, n) =~= Seq::new(n as nat, |k: int| PathPartView::Name(list[k])));
}

/// The names of components that are all names.
proof fn lemma_names_of_names(list: Seq<Seq<char>>, parts: Seq<PathPartView>, n: int)
    requires
        0 <= n <= list.len(),
        parts == Seq::new(list.len(), |k: int| PathPartView::Name(list[k])),
    ensures
        names_of(parts, n) == list.take(n),
    decreases n,
{
    if n > 0 {
        lemma_names_of_names(list, parts, n - 1);
        assert(list.take(n) =~= list.take(n - 1).push(list[n - 1]));
    } else {
        assert(list.take(0) =~= Seq::empty());
    }
    assert(list.take(list.len() as int) =~= list);
}

/// Containment: an accepted path is relative, not empty and made of names
/// alone, so it leads to a place below the directory it is joined to; and it
/// is accepted again, unchanged.
pub proof fn accepted_paths_stay_inside(relative: Seq<char>)
    requires
        checked(relative) is Ok,
    ensures
        ({
            let path = checked(relative)->Ok_0;
            &&& path.len() > 0
            &&& !is_absolute(path)
            &&& forall|i: int| 0 <= i < components(path).len() ==> (#[trigger] components(path)[i]) is Name
            &&& forall|i: int| 0 <= i < split(path, '/').len() ==> is_name(#[trigger] split(path, '/')[i])
            &&& checked(path) == Ok::<Seq<char>, FsErrorView>(path)
        }),
{
    let pieces = split(relative, '/');
    lemma_split_pieces_hold_no_separator(relative, '/');
    lemma_parts_are_names(pieces, pieces.len() as int);
    let parts = components(relative);
    assert forall|k: int| 0 <= k < parts.len() && (#[trigger] parts[k]) is Name implies is_name(parts[k]->0) by {
        if is_absolute(relative) {
            assert(leads_out(parts[0]));
        }
    }
    lemma_names_are_names(parts, parts.len() as int);
    lemma_components_of_names(names(parts));
}

/// A path that climbs or starts at the root is refused as leading outside.
pub proof fn outside_paths_are_refused(relative: Seq<char>)
    requires
        is_absolute(relative) || exists|i: int| 0 <= i < split(relative, '/').len() && #[trigger] split(relative, '/')[i] == seq!['.', '.'],
    ensures
        checked(relative) == Err::<Seq<char>, FsErrorView>(FsErrorView::OutsidePath(relative)),
{
    let pieces = split(relative, '/');
    let parts = components(relative);
    if is_absolute(relative) {
        assert(leads_out(parts[0]));
    } else {
        let i = choose|i: int| 0 <= i < pieces.len() && #[trigger] pieces[i] == seq!['.', '.'];
        let k = lemma_part_present(pieces, pieces.len() as int, i);
        assert(leads_out(parts[k]));
        if relative.len() == 0 {
            assert(pieces =~= seq![Seq::<char>::empty()]);
            assert(pieces[i].len() == 2);
        }
    }
}

/// A piece that climbs shows among the components.
proof fn lemma_part_present(pieces: Seq<Seq<char>>, n: int, i: int) -> (k: int)
    requires
        0 <= i < n <= pieces.len(),
        pieces[i] == seq!['.', '.'],
    ensures
        0 <= k < parts_of(pieces, n).len(),
        parts_of(pieces, n)[k] is Parent,
    decreases n,
{
    if i == n - 1 {
        assert(pieces[i].len() == 2);
        assert(pieces[i] != seq!['.']) by {
            assert(seq!['.'].len() == 1);
        }
        parts_of(pieces, n).len() - 1
    } else {
        lemma_part_present(pieces, n - 1, i)
    }
}

} // verus!
