//! Building the manifest of a directory tree, one visited path at a time.

use crate::string_map::StringMap;
use crate::versioned_fs::entry::{manifest, EntryView, WorkspaceEntry};
use crate::versioned_fs::object::{content_id, content_id_of};
use crate::versioned_fs::paths::{is_ignored, should_ignore};
use crate::versioned_fs::tree::{entry_of, snapshot, Node};
use vstd::prelude::*;

verus! {

/// What a visit finds at a path.
#[derive(Debug, Clone, Copy, PartialEq, Eq, Structural)]
pub enum Found {
    Symlink,
    Directory,
    File { size: u64, readonly: bool },
    Other,
}

/// What a manifest records of a visited path; nothing for what is ignored and
/// for anything but files and directories.
pub open spec fn recorded_as(relative: Seq<char>, found: Found, bytes: Seq<u8>) -> Option<EntryView> {
    if is_ignored(relative) {
        None
    } else {
        match found {
            Found::Directory => Some(EntryView::Directory),
            Found::File { size, readonly } => Some(
                EntryView::File {
                    size,
                    hash: content_id_of(bytes),
                    object: content_id_of(bytes),
                    readonly,
                },
            ),
            _ => None,
        }
    }
}

/// Records a visited path, and tells whether to visit what is below it.
/// `bytes` is the content of a file.
pub fn visit(entries: &mut StringMap<WorkspaceEntry>, relative: String, found: Found, bytes: &[u8]) -> (descend: bool)
    requires
        old(entries).wf(),
    ensures
        final(entries).wf(),
        manifest(final(entries)@) == match recorded_as(relative@, found, bytes@) {
            Some(entry) => manifest(old(entries)@).insert(relative@, entry),
            None => manifest(old(entries)@),
        },
        descend == (found is Directory && !is_ignored(relative@)),
{
    if should_ignore(relative.as_str()) {
        return false;
    }
    let ghost start = entries@;
    match found {
        Found::Directory => {
            let ghost path = relative@;
            entries.insert(relative, WorkspaceEntry::Directory);
            assert(manifest(entries@) =~= manifest(start).insert(path, EntryView::Directory));
            true
        },
        Found::File { size, readonly } => {
            let object = content_id(bytes);
            let entry = WorkspaceEntry::File { size, hash: object.clone(), object, readonly };
            let ghost path = relative@;
            let ghost value = entry@;
            entries.insert(relative, entry);
            assert(manifest(entries@) =~= manifest(start).insert(path, value));
            false
        },
        _ => false,
    }
}

/// What a visit finds at a node.
pub open spec fn found_of(node: Node) -> Found {
    match node {
        Node::File { bytes, readonly } => Found::File { size: bytes.len() as u64, readonly },
        Node::Directory => Found::Directory,
    }
}

/// The content of a node.
pub open spec fn bytes_of_node(node: Node) -> Seq<u8> {
    match node {
        Node::File { bytes, .. } => bytes,
        Node::Directory => Seq::empty(),
    }
}

/// The manifest after visits to the first `n` of some paths of a tree.
pub open spec fn visited(tree: Map<Seq<char>, Node>, paths: Seq<Seq<char>>, n: int) -> Map<Seq<char>, EntryView>
    decreases n,
{
    if n <= 0 {
        Map::empty()
    } else {
        let path = paths[n - 1];
        let so_far = visited(tree, paths, n - 1);
        match recorded_as(path, found_of(tree[path]), bytes_of_node(tree[path])) {
            Some(entry) => so_far.insert(path, entry),
            None => so_far,
        }
    }
}

/// Whatever the order of the visits, visiting every path of a tree that is not
/// ignored gives the snapshot of the tree.
pub proof fn visiting_every_path_gives_the_snapshot(tree: Map<Seq<char>, Node>, paths: Seq<Seq<char>>)
    requires
        forall|i: int| 0 <= i < paths.len() ==> tree.contains_key(#[trigger] paths[i]),
        forall|path: Seq<char>| #[trigger] tree.contains_key(path) && !is_ignored(path) ==> paths.contains(path),
    ensures
        visited(tree, paths, paths.len() as int) == snapshot(tree),
{
    let n = paths.len() as int;
    lemma_visited(tree, paths, n);
    let m = visited(tree, paths, n);
    let goal = snapshot(tree);
    assert forall|path: Seq<char>| #[trigger] m.contains_key(path) == goal.contains_key(path) by {
        if goal.contains_key(path) {
            assert(paths.contains(path));
            let i = choose|i: int| 0 <= i < paths.len() && paths[i] == path;
            assert(seen(paths, n, path)) by {
                assert(paths[i] == path);
            }
        }
    }
    assert(m =~= goal);
}

spec fn seen(paths: Seq<Seq<char>>, n: int, path: Seq<char>) -> bool {
    exists|i: int| 0 <= i < n && #[trigger] paths[i] == path
}

proof fn lemma_visited(tree: Map<Seq<char>, Node>, paths: Seq<Seq<char>>, n: int)
    requires
        0 <= n <= paths.len(),
        forall|i: int| 0 <= i < paths.len() ==> tree.contains_key(#[trigger] paths[i]),
    ensures
        forall|path: Seq<char>| #[trigger] visited(tree, paths, n).contains_key(path) <==> seen(paths, n, path) && !is_ignored(path),
        forall|path: Seq<char>|
            #[trigger] visited(tree, paths, n).contains_key(path) ==> tree.contains_key(path) && visited(tree, paths, n)[path] == entry_of(
                tree[path],
            ),
    decreases n,
{
    if n > 0 {
        lemma_visited(tree, paths, n - 1);
        let last = paths[n - 1];
        assert forall|path: Seq<char>| #[trigger] visited(tree, paths, n).contains_key(path) <==> seen(paths, n, path) && !is_ignored(path) by {
            if seen(paths, n, path) {
                let i = choose|i: int| 0 <= i < n && #[trigger] paths[i] == path;
                if i < n - 1 {
                    assert(seen(paths, n - 1, path));
                }
            }
            if seen(paths, n - 1, path) {
                let i = choose|i: int| 0 <= i < n - 1 && #[trigger] paths[i] == path;
                assert(paths[i] == path);
            }
            if path == last {
                assert(paths[n - 1] == path);
            }
        }
    }
}

} // verus!
