//! A model of a directory tree, and what the planned steps do to it.
//!
//! The model holds regular files and directories, each under its path below
//! the root. A step on the model fails where the file system would refuse it:
//! a file stands where a directory is needed, a directory where a file is
//! needed, or a file that is opened for writing is read-only.

use crate::text::{lemma_split_nonempty, split};
use crate::versioned_fs::entry::EntryView;
use crate::versioned_fs::object::content_id_of;
use crate::versioned_fs::operation::{resized, spliced};
use crate::versioned_fs::paths::is_ignored;
use crate::versioned_fs::plan::{
    is_dir_list, is_file_list, is_locked, is_removal_list, is_rollback, keeps_kind, make_steps,
    remove_steps, restore_steps, rolls_back, unlock_steps, writes_out, FsActionView,
};
use vstd::prelude::*;

verus! {

/// What stands at a path.
pub enum Node {
    File { bytes: Seq<u8>, readonly: bool },
    Directory,
}

/// The path lies below the directory.
pub open spec fn below(dir: Seq<char>, path: Seq<char>) -> bool {
    &&& 0 < dir.len() < path.len()
    &&& path.take(dir.len() as int) == dir
    &&& path[dir.len() as int] == '/'
}

/// Whatever has something below it is a directory of the tree.
pub open spec fn sound_tree(tree: Map<Seq<char>, Node>) -> bool {
    forall|dir: Seq<char>, path: Seq<char>|
        tree.contains_key(path) && #[trigger] below(dir, path) ==> tree.contains_key(dir) && tree[dir] is Directory
}

/// What a manifest records of a node.
pub open spec fn entry_of(node: Node) -> EntryView {
    match node {
        Node::File { bytes, readonly } => EntryView::File {
            size: bytes.len() as u64,
            hash: content_id_of(bytes),
            object: content_id_of(bytes),
            readonly,
        },
        Node::Directory => EntryView::Directory,
    }
}

/// The manifest of a tree: every path that is not ignored.
pub open spec fn snapshot(tree: Map<Seq<char>, Node>) -> Map<Seq<char>, EntryView> {
    Map::new(
        |path: Seq<char>| tree.contains_key(path) && !is_ignored(path),
        |path: Seq<char>| entry_of(tree[path]),
    )
}

/// Whatever has something below it is a directory of the manifest, and no path is ignored.
pub open spec fn sound_manifest(m: Map<Seq<char>, EntryView>) -> bool {
    &&& forall|dir: Seq<char>, path: Seq<char>|
        m.contains_key(path) && #[trigger] below(dir, path) ==> m.contains_key(dir) && m[dir] is Directory
    &&& forall|path: Seq<char>| #[trigger] m.contains_key(path) ==> !is_ignored(path)
}

/// The store holds the content of every file of the manifest, under its identifier.
pub open spec fn recorded(m: Map<Seq<char>, EntryView>, objects: Map<Seq<char>, Seq<u8>>) -> bool {
    forall|path: Seq<char>|
        #[trigger] m.contains_key(path) && m[path] is File ==> {
            &&& objects.contains_key(m[path]->object)
            &&& m[path]->hash == m[path]->object
            &&& m[path]->object == content_id_of(objects[m[path]->object])
            &&& m[path]->size == objects[m[path]->object].len()
        }
}

/// The path is one that must be a directory for `path` to exist, or `path` itself where `whole` says so.
pub open spec fn leads_to(dir: Seq<char>, path: Seq<char>, whole: bool) -> bool {
    below(dir, path) || (whole && dir == path)
}

/// The tree with the missing directories that lead to a path.
pub open spec fn with_dirs(tree: Map<Seq<char>, Node>, path: Seq<char>, whole: bool) -> Map<Seq<char>, Node> {
    Map::new(
        |dir: Seq<char>| tree.contains_key(dir) || leads_to(dir, path, whole),
        |dir: Seq<char>| if tree.contains_key(dir) {
            tree[dir]
        } else {
            Node::Directory
        },
    )
}

/// No file stands where a directory that leads to the path is needed.
pub open spec fn can_lead(tree: Map<Seq<char>, Node>, path: Seq<char>, whole: bool) -> bool {
    forall|dir: Seq<char>| #[trigger] leads_to(dir, path, whole) && tree.contains_key(dir) ==> tree[dir] is Directory
}

/// A file can be opened for writing at the path.
pub open spec fn can_write(tree: Map<Seq<char>, Node>, path: Seq<char>) -> bool {
    &&& forall|dir: Seq<char>| #[trigger] below(dir, path) ==> tree.contains_key(dir) && tree[dir] is Directory
    &&& tree.contains_key(path) ==> tree[path] is File && !tree[path]->readonly
}

/// The bytes of the file at a path; none where there is no file.
pub open spec fn contents(tree: Map<Seq<char>, Node>, path: Seq<char>) -> Seq<u8> {
    if tree.contains_key(path) && tree[path] is File {
        tree[path]->bytes
    } else {
        Seq::empty()
    }
}

/// The path that `path` below `target` had below `source`.
pub open spec fn moved_from(source: Seq<char>, target: Seq<char>, path: Seq<char>) -> Seq<char> {
    source + path.skip(target.len() as int)
}

/// The tree after one step; nothing where the file system refuses it.
pub open spec fn step(
    tree: Map<Seq<char>, Node>,
    objects: Map<Seq<char>, Seq<u8>>,
    action: FsActionView,
) -> Option<Map<Seq<char>, Node>> {
    match action {
        FsActionView::Remove(path) => Some(
            if tree.contains_key(path) {
                tree.restrict(
                    Set::new(
                        |other: Seq<char>|
                            other != path && !(tree[path] is Directory && below(path, other)),
                    ),
                )
            } else {
                tree
            },
        ),
        FsActionView::MakeDirs(path) => if can_lead(tree, path, true) {
            Some(with_dirs(tree, path, true))
        } else {
            None
        },
        FsActionView::MakeParent(path) => if can_lead(tree, path, false) {
            Some(with_dirs(tree, path, false))
        } else {
            None
        },
        FsActionView::RestoreFile { path, object, readonly } => {
            let made = with_dirs(tree, path, false);
            if can_lead(tree, path, false) && can_write(made, path) && objects.contains_key(object) {
                Some(made.insert(path, Node::File { bytes: objects[object], readonly }))
            } else {
                None
            }
        },
        FsActionView::CreateFile(path) => if can_write(tree, path) {
            Some(tree.insert(path, Node::File { bytes: Seq::empty(), readonly: false }))
        } else {
            None
        },
        FsActionView::WriteAt { path, offset, bytes } => if can_write(tree, path) {
            Some(
                tree.insert(
                    path,
                    Node::File { bytes: spliced(contents(tree, path), offset, bytes), readonly: false },
                ),
            )
        } else {
            None
        },
        FsActionView::SetLength { path, len } => if can_write(tree, path) {
            Some(
                tree.insert(
                    path,
                    Node::File { bytes: resized(contents(tree, path), len), readonly: false },
                ),
            )
        } else {
            None
        },
        FsActionView::Rename { source, path } => if !tree.contains_key(source) || below(source, path) {
            None
        } else if source == path {
            Some(tree)
        } else if tree.contains_key(path) && (tree[path] is Directory) != (tree[source] is Directory) {
            None
        } else if exists|other: Seq<char>| tree.contains_key(other) && #[trigger] below(path, other) {
            None
        } else {
            Some(
                Map::new(
                    |other: Seq<char>|
                        if other == path || below(path, other) {
                            tree.contains_key(moved_from(source, path, other))
                        } else {
                            tree.contains_key(other) && other != source && !below(source, other)
                        },
                    |other: Seq<char>|
                        if other == path || below(path, other) {
                            tree[moved_from(source, path, other)]
                        } else {
                            tree[other]
                        },
                ),
            )
        },
        FsActionView::SetReadonly { path, readonly } => if !tree.contains_key(path) {
            None
        } else {
            match tree[path] {
                Node::File { bytes, .. } => Some(tree.insert(path, Node::File { bytes, readonly })),
                Node::Directory => Some(tree),
            }
        },
        FsActionView::Sync(path) => Some(tree),
    }
}

/// The tree after the first `n` steps.
pub open spec fn run_steps(
    tree: Map<Seq<char>, Node>,
    objects: Map<Seq<char>, Seq<u8>>,
    steps: Seq<FsActionView>,
    n: int,
) -> Option<Map<Seq<char>, Node>>
    decreases n,
{
    if n <= 0 {
        Some(tree)
    } else {
        match run_steps(tree, objects, steps, n - 1) {
            Some(t) => step(t, objects, steps[n - 1]),
            None => None,
        }
    }
}

/// The tree after all the steps.
pub open spec fn run_all(
    tree: Map<Seq<char>, Node>,
    objects: Map<Seq<char>, Seq<u8>>,
    steps: Seq<FsActionView>,
) -> Option<Map<Seq<char>, Node>> {
    run_steps(tree, objects, steps, steps.len() as int)
}

/// Running two lists of steps runs one after the other.
pub proof fn lemma_run_concat(
    tree: Map<Seq<char>, Node>,
    objects: Map<Seq<char>, Seq<u8>>,
    first: Seq<FsActionView>,
    second: Seq<FsActionView>,
    n: int,
)
    requires
        run_all(tree, objects, first) is Some,
        0 <= n <= second.len(),
    ensures
        run_steps(tree, objects, first + second, first.len() + n) == run_steps(
            run_all(tree, objects, first)->0,
            objects,
            second,
            n,
        ),
    decreases n,
{
    if n == 0 {
        lemma_run_prefix(tree, objects, first, second, first.len() as int);
    } else {
        lemma_run_concat(tree, objects, first, second, n - 1);
        assert((first + second)[first.len() + n - 1] == second[n - 1]);
    }
}

/// The first steps of a longer list.
pub proof fn lemma_run_prefix(
    tree: Map<Seq<char>, Node>,
    objects: Map<Seq<char>, Seq<u8>>,
    first: Seq<FsActionView>,
    second: Seq<FsActionView>,
    n: int,
)
    requires
        0 <= n <= first.len(),
    ensures
        run_steps(tree, objects, first + second, n) == run_steps(tree, objects, first, n),
    decreases n,
{
    if n > 0 {
        lemma_run_prefix(tree, objects, first, second, n - 1);
        assert((first + second)[n - 1] == first[n - 1]);
    }
}

/// A path below a directory starts with the same piece as the directory.
proof fn lemma_below_first_piece(dir: Seq<char>, path: Seq<char>)
    requires
        below(dir, path),
    ensures
        split(path, '/')[0] == split(dir, '/')[0],
        split(path, '/').len() >= 2,
    decreases path.len(),
{
    lemma_split_nonempty(dir, '/');
    if path.len() == dir.len() + 1 {
        assert(path.drop_last() =~= dir) by {
            assert(path.take(dir.len() as int) =~= path.drop_last());
        }
    } else {
        let shorter = path.drop_last();
        assert(shorter.take(dir.len() as int) =~= path.take(dir.len() as int));
        lemma_below_first_piece(dir, shorter);
    }
}

/// A path below a directory is ignored exactly when the directory is.
proof fn lemma_below_ignored(dir: Seq<char>, path: Seq<char>)
    requires
        below(dir, path),
    ensures
        is_ignored(path) == is_ignored(dir),
{
    lemma_below_first_piece(dir, path);
}

/// A snapshot of a sound tree is a sound manifest.
pub proof fn snapshots_are_sound(tree: Map<Seq<char>, Node>)
    requires
        sound_tree(tree),
    ensures
        sound_manifest(snapshot(tree)),
{
    let m = snapshot(tree);
    assert forall|dir: Seq<char>, path: Seq<char>|
        m.contains_key(path) && #[trigger] below(dir, path) implies m.contains_key(dir) && m[dir] is Directory by {
        lemma_below_ignored(dir, path);
    }
}

/// What stands where `target` is written over `base`.
pub open spec fn overlay(
    base: Map<Seq<char>, Node>,
    target: Map<Seq<char>, EntryView>,
    objects: Map<Seq<char>, Seq<u8>>,
) -> Map<Seq<char>, Node> {
    Map::new(
        |path: Seq<char>| base.contains_key(path) || target.contains_key(path),
        |path: Seq<char>| if target.contains_key(path) {
            restored(target[path], objects)
        } else {
            base[path]
        },
    )
}

/// The node that an entry records.
pub open spec fn restored(entry: EntryView, objects: Map<Seq<char>, Seq<u8>>) -> Node {
    match entry {
        EntryView::File { object, readonly, .. } => Node::File { bytes: objects[object], readonly },
        EntryView::Directory => Node::Directory,
    }
}

/// No path is a file on one side and a directory on the other, and no file
/// that is to be written over is read-only.
pub open spec fn compatible(base: Map<Seq<char>, Node>, target: Map<Seq<char>, EntryView>) -> bool {
    forall|path: Seq<char>|
        base.contains_key(path) && #[trigger] target.contains_key(path) ==> {
            &&& (base[path] is Directory) == (target[path] is Directory)
            &&& base[path] is File ==> !base[path]->readonly
        }
}

/// The first `n` directories have been made over `base`.
spec fn dirs_made(
    base: Map<Seq<char>, Node>,
    target: Map<Seq<char>, EntryView>,
    dirs: Seq<Seq<char>>,
    n: int,
    tree: Map<Seq<char>, Node>,
) -> bool {
    &&& forall|path: Seq<char>| #[trigger] base.contains_key(path) ==> tree.contains_key(path) && tree[path] == base[path]
    &&& forall|path: Seq<char>|
        #[trigger] tree.contains_key(path) && !base.contains_key(path) ==> tree[path] is Directory && target.contains_key(path)
            && target[path] is Directory
    &&& forall|i: int| 0 <= i < n ==> tree.contains_key(#[trigger] dirs[i])
}

/// Making the directories of a manifest succeeds.
proof fn lemma_make_dirs(
    base: Map<Seq<char>, Node>,
    target: Map<Seq<char>, EntryView>,
    objects: Map<Seq<char>, Seq<u8>>,
    dirs: Seq<Seq<char>>,
    n: int,
) -> (tree: Map<Seq<char>, Node>)
    requires
        sound_manifest(target),
        compatible(base, target),
        is_dir_list(dirs, target),
        0 <= n <= dirs.len(),
    ensures
        run_steps(base, objects, make_steps(dirs), n) == Some(tree),
        dirs_made(base, target, dirs, n, tree),
    decreases n,
{
    if n == 0 {
        base
    } else {
        let t = lemma_make_dirs(base, target, objects, dirs, n - 1);
        let path = dirs[n - 1];
        assert(dirs.contains(path));
        assert(make_steps(dirs)[n - 1] == FsActionView::MakeDirs(path));
        assert forall|dir: Seq<char>| #[trigger] leads_to(dir, path, true) implies target.contains_key(dir) && target[dir] is Directory by {
        }
        assert forall|dir: Seq<char>| #[trigger] leads_to(dir, path, true) && t.contains_key(dir) implies t[dir] is Directory by {
            assert(target.contains_key(dir));
            if base.contains_key(dir) {
                assert(t[dir] == base[dir]);
            }
        }
        let next = with_dirs(t, path, true);
        assert(leads_to(path, path, true));
        next
    }
}

/// The first `n` files have been restored over `middle`.
spec fn files_made(
    middle: Map<Seq<char>, Node>,
    target: Map<Seq<char>, EntryView>,
    objects: Map<Seq<char>, Seq<u8>>,
    files: Seq<Seq<char>>,
    n: int,
    tree: Map<Seq<char>, Node>,
) -> bool {
    &&& forall|path: Seq<char>|
        #[trigger] tree.contains_key(path) <==> middle.contains_key(path) || files.take(n).contains(path)
    &&& forall|path: Seq<char>|
        #[trigger] tree.contains_key(path) ==> tree[path] == if files.take(n).contains(path) {
            restored(target[path], objects)
        } else {
            middle[path]
        }
}

/// Restoring the files of a manifest succeeds once its directories are there.
proof fn lemma_make_files(
    middle: Map<Seq<char>, Node>,
    target: Map<Seq<char>, EntryView>,
    objects: Map<Seq<char>, Seq<u8>>,
    files: Seq<Seq<char>>,
    n: int,
) -> (tree: Map<Seq<char>, Node>)
    requires
        sound_manifest(target),
        recorded(target, objects),
        compatible(middle, target),
        is_file_list(files, target),
        forall|path: Seq<char>| #[trigger] target.contains_key(path) && target[path] is Directory ==> middle.contains_key(path),
        0 <= n <= files.len(),
    ensures
        run_steps(middle, objects, restore_steps(files, target), n) == Some(tree),
        files_made(middle, target, objects, files, n, tree),
    decreases n,
{
    if n == 0 {
        assert(files.take(0) =~= Seq::empty());
        middle
    } else {
        let t = lemma_make_files(middle, target, objects, files, n - 1);
        let path = files[n - 1];
        let front = files.take(n - 1);
        let whole = files.take(n);
        assert(files.contains(path));
        assert(target.contains_key(path));
        assert(!front.contains(path)) by {
            if front.contains(path) {
                let k = choose|k: int| 0 <= k < n - 1 && front[k] == path;
                assert(crate::text::before(files[k], files[n - 1]));
                crate::text::lemma_before_irreflexive(path);
            }
        }
        assert forall|dir: Seq<char>| #[trigger] below(dir, path) implies t.contains_key(dir) && t[dir] is Directory by {
            assert(target.contains_key(dir) && target[dir] is Directory);
            assert(middle.contains_key(dir));
            if front.contains(dir) {
                let k = choose|k: int| 0 <= k < n - 1 && front[k] == dir;
                assert(files.contains(files[k]));
            }
        }
        let made = with_dirs(t, path, false);
        assert(made =~= t);
        let next = made.insert(path, restored(target[path], objects));
        assert(whole =~= front.push(path));
        assert forall|other: Seq<char>| #[trigger] whole.contains(other) <==> front.contains(other) || other == path by {
            if front.contains(other) {
                let k = choose|k: int| 0 <= k < n - 1 && front[k] == other;
                assert(whole[k] == other);
            }
            if other == path {
                assert(whole[n - 1] == path);
            }
        }
        next
    }
}

/// Writing a manifest out over a compatible tree puts it there and leaves the rest alone.
pub proof fn writing_out_overlays(
    base: Map<Seq<char>, Node>,
    objects: Map<Seq<char>, Seq<u8>>,
    target: Map<Seq<char>, EntryView>,
    dirs: Seq<Seq<char>>,
    files: Seq<Seq<char>>,
    steps: Seq<FsActionView>,
)
    requires
        sound_manifest(target),
        recorded(target, objects),
        compatible(base, target),
        writes_out(steps, target, dirs, files),
    ensures
        run_all(base, objects, steps) == Some(overlay(base, target, objects)),
{
    let middle = lemma_make_dirs(base, target, objects, dirs, dirs.len() as int);
    assert(make_steps(dirs).len() == dirs.len());
    assert(restore_steps(files, target).len() == files.len());
    assert forall|path: Seq<char>| #[trigger] target.contains_key(path) && target[path] is Directory implies middle.contains_key(path) by {
        assert(dirs.contains(path));
        let i = choose|i: int| 0 <= i < dirs.len() && dirs[i] == path;
        assert(middle.contains_key(dirs[i]));
    }
    assert(compatible(middle, target)) by {
        assert forall|path: Seq<char>| middle.contains_key(path) && #[trigger] target.contains_key(path) implies {
            &&& (middle[path] is Directory) == (target[path] is Directory)
            &&& middle[path] is File ==> !middle[path]->readonly
        } by {
            if base.contains_key(path) {
                assert(middle[path] == base[path]);
            }
        }
    }
    let tree = lemma_make_files(middle, target, objects, files, files.len() as int);
    lemma_run_concat(base, objects, make_steps(dirs), restore_steps(files, target), files.len() as int);
    assert(files.take(files.len() as int) =~= files);
    let goal = overlay(base, target, objects);
    assert forall|path: Seq<char>| #[trigger] tree.contains_key(path) == goal.contains_key(path) by {
        if target.contains_key(path) && target[path] is File {
            assert(files.contains(path));
        }
        if files.contains(path) {
            assert(target.contains_key(path));
        }
        if base.contains_key(path) {
            assert(middle.contains_key(path));
        }
    }
    assert forall|path: Seq<char>| #[trigger] tree.contains_key(path) implies tree[path] == goal[path] by {
        if target.contains_key(path) {
            if target[path] is File {
                assert(files.contains(path));
            } else {
                assert(!files.contains(path));
                assert(middle.contains_key(path));
                if base.contains_key(path) {
                    assert(middle[path] == base[path]);
                }
            }
        } else {
            assert(!files.contains(path));
            assert(middle.contains_key(path));
            assert(base.contains_key(path));
        }
    }
    assert(tree =~= goal);
}

/// The keys that are in none of the first `n` removals, nor below one.
spec fn spared(removals: Seq<Seq<char>>, n: int, path: Seq<char>) -> bool {
    forall|i: int| 0 <= i < n ==> path != #[trigger] removals[i] && !below(removals[i], path)
}

/// The first `n` removals leave exactly what they spare.
proof fn lemma_removals(
    tree: Map<Seq<char>, Node>,
    objects: Map<Seq<char>, Seq<u8>>,
    removals: Seq<Seq<char>>,
    n: int,
) -> (t: Map<Seq<char>, Node>)
    requires
        sound_tree(tree),
        0 <= n <= removals.len(),
        forall|i: int| 0 <= i < removals.len() ==> tree.contains_key(#[trigger] removals[i]),
    ensures
        run_steps(tree, objects, remove_steps(removals), n) == Some(t),
        forall|path: Seq<char>| #[trigger] t.contains_key(path) <==> tree.contains_key(path) && spared(removals, n, path),
        forall|path: Seq<char>| #[trigger] t.contains_key(path) ==> t[path] == tree[path],
    decreases n,
{
    if n == 0 {
        tree
    } else {
        let t = lemma_removals(tree, objects, removals, n - 1);
        let gone = removals[n - 1];
        assert(remove_steps(removals)[n - 1] == FsActionView::Remove(gone));
        let next = step(t, objects, FsActionView::Remove(gone))->0;
        assert forall|path: Seq<char>| #[trigger] next.contains_key(path) <==> tree.contains_key(path) && spared(removals, n, path) by {
            if tree.contains_key(path) && spared(removals, n, path) {
                assert(spared(removals, n - 1, path));
                assert(path != removals[n - 1] && !below(removals[n - 1], path));
            }
            if next.contains_key(path) {
                assert(t.contains_key(path));
                assert(spared(removals, n - 1, path));
                assert forall|i: int| 0 <= i < n implies path != #[trigger] removals[i] && !below(removals[i], path) by {
                    if i == n - 1 && (path == gone || below(gone, path)) {
                        if below(gone, path) {
                            assert(tree.contains_key(gone) && tree[gone] is Directory);
                        }
                        if t.contains_key(gone) {
                            assert(t[gone] == tree[gone]);
                        } else {
                            let j = choose|j: int| 0 <= j < n - 1 && (gone == #[trigger] removals[j] || below(removals[j], gone));
                            if below(removals[j], gone) && below(gone, path) {
                                lemma_below_transitive(removals[j], gone, path);
                            }
                            assert(!spared(removals, n - 1, path));
                        }
                    }
                }
            }
        }
        next
    }
}

/// What is below something below a directory is below the directory.
proof fn lemma_below_transitive(a: Seq<char>, b: Seq<char>, c: Seq<char>)
    requires
        below(a, b),
        below(b, c),
    ensures
        below(a, c),
{
    assert(c.take(a.len() as int) =~= b.take(a.len() as int)) by {
        assert(c.take(b.len() as int).take(a.len() as int) =~= c.take(a.len() as int));
    }
    assert(c.take(b.len() as int)[a.len() as int] == c[a.len() as int]);
}

/// Removing what a manifest lacks, or has as another kind, leaves the
/// manifest's other paths and the ignored ones, unchanged.
proof fn lemma_removed_extras(
    tree: Map<Seq<char>, Node>,
    objects: Map<Seq<char>, Seq<u8>>,
    target: Map<Seq<char>, EntryView>,
    removals: Seq<Seq<char>>,
) -> (t: Map<Seq<char>, Node>)
    requires
        sound_tree(tree),
        sound_manifest(target),
        is_removal_list(removals, snapshot(tree), target),
    ensures
        run_all(tree, objects, remove_steps(removals)) == Some(t),
        forall|path: Seq<char>|
            #[trigger] t.contains_key(path) <==> tree.contains_key(path) && (is_ignored(path) || keeps_kind(snapshot(tree), target, path)),
        forall|path: Seq<char>| #[trigger] t.contains_key(path) ==> t[path] == tree[path],
{
    let n = removals.len() as int;
    assert(remove_steps(removals).len() == n);
    assert forall|i: int| 0 <= i < removals.len() implies tree.contains_key(#[trigger] removals[i]) by {
        assert(removals.contains(removals[i]));
    }
    let t = lemma_removals(tree, objects, removals, n);
    assert forall|path: Seq<char>|
        #[trigger] t.contains_key(path) <==> tree.contains_key(path) && (is_ignored(path) || keeps_kind(snapshot(tree), target, path)) by {
        if tree.contains_key(path) {
            if is_ignored(path) || keeps_kind(snapshot(tree), target, path) {
                assert forall|i: int| 0 <= i < n implies path != #[trigger] removals[i] && !below(removals[i], path) by {
                    assert(removals.contains(removals[i]));
                    if below(removals[i], path) {
                        lemma_below_ignored(removals[i], path);
                        assert(tree.contains_key(removals[i]) && tree[removals[i]] is Directory);
                        if target.contains_key(path) {
                            assert(target.contains_key(removals[i]) && target[removals[i]] is Directory);
                        }
                    }
                }
                assert(spared(removals, n, path));
            } else {
                assert(snapshot(tree).contains_key(path));
                assert(removals.contains(path));
                let i = choose|i: int| 0 <= i < removals.len() && removals[i] == path;
                assert(!spared(removals, n, path)) by {
                    assert(path == removals[i]);
                }
            }
        }
    }
    t
}

/// The tree with some of its files made writable.
spec fn unlocked(tree: Map<Seq<char>, Node>, paths: Seq<Seq<char>>, n: int) -> Map<Seq<char>, Node> {
    Map::new(
        |path: Seq<char>| tree.contains_key(path),
        |path: Seq<char>| if paths.take(n).contains(path) {
            Node::File { bytes: tree[path]->bytes, readonly: false }
        } else {
            tree[path]
        },
    )
}

/// The first `n` files are made writable, and nothing else changes.
proof fn lemma_unlocks(tree: Map<Seq<char>, Node>, objects: Map<Seq<char>, Seq<u8>>, paths: Seq<Seq<char>>, n: int)
    requires
        0 <= n <= paths.len(),
        forall|i: int| 0 <= i < paths.len() ==> tree.contains_key(#[trigger] paths[i]) && tree[paths[i]] is File,
    ensures
        run_steps(tree, objects, unlock_steps(paths), n) == Some(unlocked(tree, paths, n)),
    decreases n,
{
    if n == 0 {
        assert(paths.take(0) =~= Seq::empty());
        assert(unlocked(tree, paths, 0) =~= tree);
    } else {
        lemma_unlocks(tree, objects, paths, n - 1);
        let t = unlocked(tree, paths, n - 1);
        let path = paths[n - 1];
        let front = paths.take(n - 1);
        let whole = paths.take(n);
        assert(unlock_steps(paths)[n - 1] == FsActionView::SetReadonly { path, readonly: false });
        assert(whole =~= front.push(path));
        assert forall|other: Seq<char>| #[trigger] whole.contains(other) <==> front.contains(other) || other == path by {
            if front.contains(other) {
                let k = choose|k: int| 0 <= k < n - 1 && front[k] == other;
                assert(whole[k] == other);
            }
            if other == path {
                assert(whole[n - 1] == path);
            }
        }
        assert(t[path] is File && t[path]->bytes == tree[path]->bytes);
        assert(step(t, objects, FsActionView::SetReadonly { path, readonly: false })->0 =~= unlocked(tree, paths, n));
    }
}

/// Carrying out a rollback: the manifest is written over what it has in common
/// with the tree and over what snapshots ignore.
proof fn lemma_rolled_back(
    tree: Map<Seq<char>, Node>,
    objects: Map<Seq<char>, Seq<u8>>,
    target: Map<Seq<char>, EntryView>,
    removals: Seq<Seq<char>>,
    locked: Seq<Seq<char>>,
    dirs: Seq<Seq<char>>,
    files: Seq<Seq<char>>,
    steps: Seq<FsActionView>,
) -> (base: Map<Seq<char>, Node>)
    requires
        sound_tree(tree),
        sound_manifest(target),
        recorded(target, objects),
        rolls_back(steps, snapshot(tree), target, removals, locked, dirs, files),
    ensures
        run_all(tree, objects, steps) == Some(overlay(base, target, objects)),
        forall|path: Seq<char>| #[trigger] base.contains_key(path) ==> is_ignored(path) || target.contains_key(path),
        forall|path: Seq<char>| is_ignored(path) ==> #[trigger] base.contains_key(path) == tree.contains_key(path),
        forall|path: Seq<char>| is_ignored(path) && #[trigger] base.contains_key(path) ==> base[path] == tree[path],
{
    let seen = snapshot(tree);
    let kept = lemma_removed_extras(tree, objects, target, removals);
    assert forall|i: int| 0 <= i < locked.len() implies kept.contains_key(#[trigger] locked[i]) && kept[locked[i]] is File by {
        assert(locked.contains(locked[i]));
        assert(is_locked(seen, target, locked[i]));
        assert(seen.contains_key(locked[i]) && seen[locked[i]] == entry_of(tree[locked[i]]));
        assert(kept.contains_key(locked[i]));
        assert(tree[locked[i]] is File);
    }
    lemma_unlocks(kept, objects, locked, locked.len() as int);
    assert(locked.take(locked.len() as int) =~= locked);
    let base = unlocked(kept, locked, locked.len() as int);
    assert(compatible(base, target)) by {
        assert forall|path: Seq<char>| base.contains_key(path) && #[trigger] target.contains_key(path) implies {
            &&& (base[path] is Directory) == (target[path] is Directory)
            &&& base[path] is File ==> !base[path]->readonly
        } by {
            assert(kept.contains_key(path));
            assert(keeps_kind(seen, target, path));
            if tree[path] is File && tree[path]->readonly {
                assert(is_locked(seen, target, path));
                assert(locked.contains(path));
            }
        }
    }
    let written = make_steps(dirs) + restore_steps(files, target);
    writing_out_overlays(base, objects, target, dirs, files, written);
    let rest = unlock_steps(locked) + written;
    lemma_run_concat(kept, objects, unlock_steps(locked), written, written.len() as int);
    lemma_run_concat(tree, objects, remove_steps(removals), rest, rest.len() as int);
    assert forall|path: Seq<char>| is_ignored(path) && #[trigger] base.contains_key(path) implies base[path] == tree[path] by {
        assert(kept.contains_key(path));
        assert(!is_locked(seen, target, path));
    }
    base
}

/// Rollback: whatever stands in a workspace, bringing it back to a checkpoint
/// leaves it with exactly the checkpoint's manifest, and does not touch what
/// snapshots ignore.
pub proof fn rollback_restores_the_checkpoint(
    tree: Map<Seq<char>, Node>,
    objects: Map<Seq<char>, Seq<u8>>,
    target: Map<Seq<char>, EntryView>,
    removals: Seq<Seq<char>>,
    locked: Seq<Seq<char>>,
    dirs: Seq<Seq<char>>,
    files: Seq<Seq<char>>,
    steps: Seq<FsActionView>,
)
    requires
        sound_tree(tree),
        sound_manifest(target),
        recorded(target, objects),
        rolls_back(steps, snapshot(tree), target, removals, locked, dirs, files),
    ensures
        run_all(tree, objects, steps) is Some,
        snapshot(run_all(tree, objects, steps)->0) == target,
        forall|path: Seq<char>|
            is_ignored(path) ==> #[trigger] run_all(tree, objects, steps)->0.contains_key(path) == tree.contains_key(path),
        forall|path: Seq<char>|
            is_ignored(path) && tree.contains_key(path) ==> #[trigger] run_all(tree, objects, steps)->0[path] == tree[path],
{
    let base = lemma_rolled_back(tree, objects, target, removals, locked, dirs, files, steps);
    let result = overlay(base, target, objects);
    let seen = snapshot(result);
    assert forall|path: Seq<char>| #[trigger] seen.contains_key(path) == target.contains_key(path) by {
        if seen.contains_key(path) && !target.contains_key(path) {
            assert(base.contains_key(path));
        }
    }
    assert forall|path: Seq<char>| #[trigger] seen.contains_key(path) implies seen[path] == target[path] by {
        assert(target.contains_key(path));
    }
    assert(seen =~= target);
    assert forall|path: Seq<char>| is_ignored(path) && tree.contains_key(path) implies #[trigger] result[path] == tree[path] by {
        assert(base.contains_key(path));
    }
}

/// A second rollback to the same checkpoint finds nothing to remove.
pub proof fn a_second_rollback_removes_nothing(
    tree: Map<Seq<char>, Node>,
    objects: Map<Seq<char>, Seq<u8>>,
    target: Map<Seq<char>, EntryView>,
    removals: Seq<Seq<char>>,
    locked: Seq<Seq<char>>,
    dirs: Seq<Seq<char>>,
    files: Seq<Seq<char>>,
    steps: Seq<FsActionView>,
    again: Seq<FsActionView>,
    removed: nat,
    made: nat,
    restored: nat,
)
    requires
        sound_tree(tree),
        sound_manifest(target),
        recorded(target, objects),
        rolls_back(steps, snapshot(tree), target, removals, locked, dirs, files),
        is_rollback(again, snapshot(run_all(tree, objects, steps)->0), target, removed, made, restored),
    ensures
        removed == 0,
{
    rollback_restores_the_checkpoint(tree, objects, target, removals, locked, dirs, files, steps);
    let (gone, opened, d, f) = choose|gone: Seq<Seq<char>>, opened: Seq<Seq<char>>, d: Seq<Seq<char>>, f: Seq<Seq<char>>|
        #[trigger] rolls_back(again, target, target, gone, opened, d, f) && removed == gone.len() && made == d.len()
            && restored == f.len();
    if gone.len() > 0 {
        assert(gone.contains(gone[0]));
        assert(keeps_kind(target, target, gone[0]));
    }
}

/// Every file that a snapshot of the tree sees has its content in the store.
pub open spec fn stored(tree: Map<Seq<char>, Node>, objects: Map<Seq<char>, Seq<u8>>) -> bool {
    forall|path: Seq<char>|
        #[trigger] tree.contains_key(path) && !is_ignored(path) && tree[path] is File ==> {
            &&& objects.contains_key(content_id_of(tree[path]->bytes))
            &&& objects[content_id_of(tree[path]->bytes)] == tree[path]->bytes
            &&& tree[path]->bytes.len() <= u64::MAX
        }
}

/// Recovery: whatever a command did to a workspace, rolling back to the
/// checkpoint that was taken before gives every path that snapshots see its
/// earlier content back, and leaves no new path.
pub proof fn rollback_undoes_a_command(
    earlier: Map<Seq<char>, Node>,
    later: Map<Seq<char>, Node>,
    objects: Map<Seq<char>, Seq<u8>>,
    removals: Seq<Seq<char>>,
    locked: Seq<Seq<char>>,
    dirs: Seq<Seq<char>>,
    files: Seq<Seq<char>>,
    steps: Seq<FsActionView>,
)
    requires
        sound_tree(earlier),
        sound_tree(later),
        stored(earlier, objects),
        rolls_back(steps, snapshot(later), snapshot(earlier), removals, locked, dirs, files),
    ensures
        run_all(later, objects, steps) is Some,
        forall|path: Seq<char>|
            !is_ignored(path) ==> #[trigger] run_all(later, objects, steps)->0.contains_key(path) == earlier.contains_key(path),
        forall|path: Seq<char>|
            !is_ignored(path) && earlier.contains_key(path) ==> #[trigger] run_all(later, objects, steps)->0[path] == earlier[path],
{
    let target = snapshot(earlier);
    snapshots_are_sound(earlier);
    assert(recorded(target, objects)) by {
        assert forall|path: Seq<char>| #[trigger] target.contains_key(path) && target[path] is File implies {
            &&& objects.contains_key(target[path]->object)
            &&& target[path]->hash == target[path]->object
            &&& target[path]->object == content_id_of(objects[target[path]->object])
            &&& target[path]->size == objects[target[path]->object].len()
        } by {
            assert(earlier.contains_key(path));
        }
    }
    let base = lemma_rolled_back(later, objects, target, removals, locked, dirs, files, steps);
    let result = overlay(base, target, objects);
    assert(run_all(later, objects, steps) == Some(result));
    assert forall|path: Seq<char>| !is_ignored(path) implies #[trigger] result.contains_key(path) == earlier.contains_key(path) by {
        if result.contains_key(path) && !target.contains_key(path) {
            assert(base.contains_key(path));
        }
        if earlier.contains_key(path) {
            assert(target.contains_key(path));
        }
    }
    assert forall|path: Seq<char>| !is_ignored(path) && earlier.contains_key(path) implies #[trigger] result[path] == earlier[path] by {
        assert(target.contains_key(path));
        match earlier[path] {
            Node::File { bytes, readonly } => {
                assert(objects[content_id_of(bytes)] == bytes);
            },
            Node::Directory => {},
        }
    }
}

/// Materialising: a checkpoint written into an empty directory gives a tree
/// with the checkpoint's manifest and nothing else.
pub proof fn materialising_gives_the_checkpoint(
    objects: Map<Seq<char>, Seq<u8>>,
    target: Map<Seq<char>, EntryView>,
    dirs: Seq<Seq<char>>,
    files: Seq<Seq<char>>,
    steps: Seq<FsActionView>,
)
    requires
        sound_manifest(target),
        recorded(target, objects),
        writes_out(steps, target, dirs, files),
    ensures
        run_all(Map::empty(), objects, steps) is Some,
        snapshot(run_all(Map::empty(), objects, steps)->0) == target,
        run_all(Map::empty(), objects, steps)->0.dom() == target.dom(),
{
    let base: Map<Seq<char>, Node> = Map::empty();
    writing_out_overlays(base, objects, target, dirs, files, steps);
    let result = overlay(base, target, objects);
    let seen = snapshot(result);
    assert forall|path: Seq<char>| #[trigger] seen.contains_key(path) implies seen[path] == target[path] by {
        assert(target.contains_key(path));
    }
    assert(seen =~= target);
    assert(result.dom() =~= target.dom());
}

/// Clearing: removing every path that a snapshot sees leaves exactly the ignored ones, unchanged.
pub proof fn clearing_leaves_the_ignored_paths(
    tree: Map<Seq<char>, Node>,
    objects: Map<Seq<char>, Seq<u8>>,
    removals: Seq<Seq<char>>,
)
    requires
        sound_tree(tree),
        is_removal_list(removals, snapshot(tree), Map::empty()),
    ensures
        run_all(tree, objects, remove_steps(removals)) is Some,
        forall|path: Seq<char>|
            #[trigger] run_all(tree, objects, remove_steps(removals))->0.contains_key(path) <==> tree.contains_key(path) && is_ignored(path),
        forall|path: Seq<char>|
            is_ignored(path) && tree.contains_key(path) ==> #[trigger] run_all(tree, objects, remove_steps(removals))->0[path] == tree[path],
{
    let t = lemma_removed_extras(tree, objects, Map::empty(), removals);
    assert forall|path: Seq<char>| is_ignored(path) && tree.contains_key(path) implies #[trigger] t[path] == tree[path] by {
        assert(t.contains_key(path));
    }
}

} // verus!
