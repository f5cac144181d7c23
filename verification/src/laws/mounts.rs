//! The mounted workspace: permissions, the numbers of paths, and what a directory shows.

use crate::fuse_adapter::{
    child_entries, dot_entries, entry_views, mode_is_readonly, permission_bits, relative_to_string, DirectoryEntry,
    FileKind, InodeTable,
};
use crate::text::join;
use crate::versioned_fs::entry::text_view;
use crate::versioned_fs::paths::{is_name, lemma_components_of_names, pushed};
use vstd::prelude::*;

verus! {

/// A file may not be written exactly where neither its owner nor its group nor
/// anyone else may; of its mode the last twelve bits are its permissions.
pub proof fn permissions_are_in_the_mode(mode: u32, readonly: bool, bits: u16)
    requires
        call_ensures(mode_is_readonly, (mode,), readonly),
        call_ensures(permission_bits, (mode,), bits),
    ensures
        readonly <==> mode & 128 == 0 && mode & 16 == 0 && mode & 2 == 0,
        bits as int == mode as int % 4096,
{
    assert(mode & 0o222 == 0 <==> mode & 128 == 0 && mode & 16 == 0 && mode & 2 == 0) by (bit_vector);
    assert(mode & 0o7777 == mode % 4096) by (bit_vector);
}

/// A path that is made of names is told by those names.
pub proof fn paths_are_told_by_their_names(list: Seq<Seq<char>>, path: &str, text: String)
    requires
        list.len() > 0,
        forall|k: int| 0 <= k < list.len() ==> is_name(#[trigger] list[k]),
        path@ == join(list, '/'),
        call_ensures(relative_to_string, (path,), text),
    ensures
        text@ == path@,
{
    lemma_components_of_names(list);
}

/// A new table knows the root alone, which is the workspace itself and has the first number.
pub proof fn a_table_starts_with_the_root(t: InodeTable, path: Option<String>, other: Option<String>, ino: u64)
    requires
        call_ensures(InodeTable::new, (), t),
        call_ensures(InodeTable::relative_for_ino, (&t, 1u64), path),
        call_ensures(InodeTable::relative_for_ino, (&t, ino), other),
    ensures
        path matches Some(p) && p@.len() == 0,
        ino >= 2 ==> other is None,
        t.next_ino == 2,
{
    if ino >= 2 && t.by_ino@.contains_key(ino) {
        assert(ino < t.next_ino);
    }
}

/// What is remembered can be found by its number, again with the same number,
/// and takes no number from another.
pub proof fn remembered_paths_are_found(
    t: &mut InodeTable,
    relative: String,
    ino: u64,
    found: Option<String>,
    other: u64,
    was: Option<String>,
    is: Option<String>,
)
    requires
        old(t).wf(),
        old(t).next_ino < u64::MAX,
        call_ensures(InodeTable::remember_path, (t, relative), ino),
        call_ensures(InodeTable::relative_for_ino, (final(t), ino), found),
        call_ensures(InodeTable::relative_for_ino, (old(t), other), was),
        call_ensures(InodeTable::relative_for_ino, (final(t), other), is),
    ensures
        found matches Some(p) && p@ == relative@,
        other != ino ==> text_view(was) == text_view(is),
        was is Some ==> text_view(was) == text_view(is),
        ino < final(t).next_ino,
{
    if was is Some && other == ino {
        assert(old(t).by_ino@.contains_key(other));
        assert(other < old(t).next_ino);
    }
    assert(final(t).by_ino@.contains_key(ino));
}

/// What is forgotten is not found under its number any more; every other path is.
pub proof fn forgotten_paths_are_gone(t: &mut InodeTable, relative: &str, unit: (), path: Seq<char>)
    requires
        old(t).wf(),
        call_ensures(InodeTable::forget_path, (t, relative), unit),
    ensures
        !final(t).by_path@.contains_key(relative@),
        path != relative@ ==> (final(t).by_path@.contains_key(path) <==> old(t).by_path@.contains_key(path)),
        path != relative@ && old(t).by_path@.contains_key(path) ==> final(t).by_path@[path] == old(t).by_path@[path] && final(t).spec_path(
            old(t).by_path@[path],
        ) == Some(path),
        old(t).by_path@.contains_key(relative@) ==> final(t).spec_path(old(t).by_path@[relative@]) is None,
{
    if path != relative@ && old(t).by_path@.contains_key(path) {
        if old(t).by_path@.contains_key(relative@) {
            crate::fuse_adapter::two_paths_never_share_a_number(*old(t), path, relative@);
        }
    }
}

/// A path that is moved takes its number along.
pub proof fn moved_paths_keep_their_number(t: &mut InodeTable, source: &str, target: String, unit: ())
    requires
        old(t).wf(),
        old(t).by_path@.contains_key(source@),
        call_ensures(InodeTable::move_path, (t, source, target), unit),
    ensures
        final(t).by_path@.contains_key(target@) && final(t).by_path@[target@] == old(t).by_path@[source@],
        final(t).spec_path(old(t).by_path@[source@]) == Some(target@),
        source@ != target@ ==> !final(t).by_path@.contains_key(source@),
{
}

/// A child is below its parent, there and in what is mounted.
pub proof fn children_are_below_their_parents(
    t: InodeTable,
    backing: &str,
    parent: u64,
    name: &str,
    above: Option<String>,
    child: Option<String>,
    paths: Option<(String, String)>,
    whole: Option<String>,
)
    requires
        call_ensures(InodeTable::relative_for_ino, (&t, parent), above),
        call_ensures(InodeTable::child_relative, (&t, parent, name), child),
        call_ensures(InodeTable::child_path, (&t, backing, parent, name), paths),
        call_ensures(InodeTable::path_for_ino, (&t, backing, parent), whole),
    ensures
        above is None ==> child is None && paths is None && whole is None,
        above matches Some(p) ==> {
            &&& child matches Some(c) && c@ == pushed(p@, name@)
            &&& paths matches Some(pair) && pair.1@ == pushed(p@, name@) && pair.0@ == pushed(backing@, pushed(p@, name@))
            &&& whole matches Some(w) && w@ == pushed(backing@, p@)
        },
{
}

/// A directory shows itself, what is above it unless it is the root, and then
/// its children, each with its kind and the number of its path.
pub proof fn a_directory_shows_its_children(
    t: &mut InodeTable,
    ino: u64,
    children: Vec<(String, FileKind)>,
    entries: Option<Vec<DirectoryEntry>>,
    above: Option<String>,
    i: int,
)
    requires
        old(t).wf(),
        old(t).next_ino + children@.len() <= u64::MAX,
        call_ensures(InodeTable::relative_for_ino, (old(t), ino), above),
        call_ensures(InodeTable::list_directory, (t, ino, children), entries),
        0 <= i < children@.len(),
    ensures
        entries is Some <==> above is Some,
        entries matches Some(list) ==> {
            let first = if ino == 1 {
                1int
            } else {
                2int
            };
            let e = list@[first + i];
            &&& list@.len() == first + children@.len()
            &&& list@[0].name@ == "."@ && list@[0].ino == ino && list@[0].kind == FileKind::Directory
            &&& ino != 1 ==> list@[1].name@ == ".."@ && list@[1].ino == 1 && list@[1].kind == FileKind::Directory
            &&& e.name@ == children@[i].0@ && e.kind == children@[i].1
            &&& e.ino == final(t).by_path@[pushed(above->0@, children@[i].0@)]
        },
{
    if let Some(list) = entries {
        let first = if ino == 1 {
            1int
        } else {
            2int
        };
        let v = entry_views(list@);
        assert(v.len() == list@.len());
        assert(dot_entries(ino).len() == first);
        assert(v[0] == list@[0]@);
        if ino != 1 {
            assert(v[1] == list@[1]@);
        }
        assert(v[first + i] == list@[first + i]@);
        assert(v[first + i] == child_entries(above->0@, children@, final(t).by_path@)[i]);
    }
}

} // verus!
