//! Copying a replayed tree back over a workspace.

use crate::versioned_fs::object::content_id_of;
use crate::versioned_fs::operation::{replayed_operations, OperationEventView};
use crate::versioned_fs::paths::is_ignored;
use crate::versioned_fs::plan::{is_removal_list, remove_steps, writes_out, FsActionView};
use crate::versioned_fs::replay_laws::{a_replay_reaches_every_event, lemma_replay_repeats, went_through};
use crate::versioned_fs::tree::{
    below, can_lead, can_write, clearing_leaves_the_ignored_paths, leads_to, run_all, snapshot,
    sound_tree, step, with_dirs, Node,
};
use vstd::prelude::*;

verus! {

/// A path that was found in a tree, and whether a directory stands there.
#[derive(Debug, PartialEq, Eq)]
pub struct FoundPath {
    pub path: String,
    pub directory: bool,
}

/// The mathematical value of a found path.
pub struct FoundView {
    pub path: Seq<char>,
    pub directory: bool,
}

impl View for FoundPath {
    type V = FoundView;

    open spec fn view(&self) -> FoundView {
        FoundView { path: self.path@, directory: self.directory }
    }
}

/// The values of a list of found paths.
pub open spec fn found_views(found: Seq<FoundPath>) -> Seq<FoundView> {
    found.map_values(|f: FoundPath| f@)
}

/// One step of copying a tree; paths are those below both roots.
#[derive(Debug, PartialEq, Eq)]
pub enum CopyAction {
    /// Create the directory and its missing ancestors.
    MakeDirs(String),
    /// Create the missing ancestors, copy the file and its permission.
    CopyFile(String),
}

/// The mathematical value of a step of copying.
pub enum CopyActionView {
    MakeDirs(Seq<char>),
    CopyFile(Seq<char>),
}

impl View for CopyAction {
    type V = CopyActionView;

    open spec fn view(&self) -> CopyActionView {
        match *self {
            CopyAction::MakeDirs(path) => CopyActionView::MakeDirs(path@),
            CopyAction::CopyFile(path) => CopyActionView::CopyFile(path@),
        }
    }
}

/// The values of a list of steps of copying.
pub open spec fn copy_views(actions: Seq<CopyAction>) -> Seq<CopyActionView> {
    actions.map_values(|a: CopyAction| a@)
}

/// The step that copies what was found at a path.
pub open spec fn copy_of(found: FoundView) -> CopyActionView {
    if found.directory {
        CopyActionView::MakeDirs(found.path)
    } else {
        CopyActionView::CopyFile(found.path)
    }
}

/// The steps that copy what was found.
pub open spec fn copies_of(found: Seq<FoundView>) -> Seq<CopyActionView> {
    found.map_values(|f: FoundView| copy_of(f))
}

/// The steps that copy what was found, in the order given.
pub fn copy_steps(found: Vec<FoundPath>) -> (actions: Vec<CopyAction>)
    ensures
        copy_views(actions@) == copies_of(found_views(found@)),
{
    let mut actions: Vec<CopyAction> = Vec::new();
    for i in 0..found.len()
        invariant
            actions@.len() == i,
            forall|k: int| 0 <= k < i ==> (#[trigger] actions@[k])@ == copy_of(found@[k]@),
    {
        let path = found[i].path.clone();
        actions.push(if found[i].directory {
            CopyAction::MakeDirs(path)
        } else {
            CopyAction::CopyFile(path)
        });
    }
    assert(copy_views(actions@) =~= copies_of(found_views(found@)));
    actions
}

/// The tree after one step of copying from `source`; nothing where the file
/// system refuses it.
pub open spec fn copy_step(
    tree: Map<Seq<char>, Node>,
    source: Map<Seq<char>, Node>,
    action: CopyActionView,
) -> Option<Map<Seq<char>, Node>> {
    match action {
        CopyActionView::MakeDirs(path) => step(tree, Map::empty(), FsActionView::MakeDirs(path)),
        CopyActionView::CopyFile(path) => {
            let made = with_dirs(tree, path, false);
            if can_lead(tree, path, false) && can_write(made, path) && source.contains_key(path) && source[path] is File {
                Some(made.insert(path, source[path]))
            } else {
                None
            }
        },
    }
}

/// The tree after the first `n` steps of copying.
pub open spec fn run_copies(
    tree: Map<Seq<char>, Node>,
    source: Map<Seq<char>, Node>,
    steps: Seq<CopyActionView>,
    n: int,
) -> Option<Map<Seq<char>, Node>>
    decreases n,
{
    if n <= 0 {
        Some(tree)
    } else {
        match run_copies(tree, source, steps, n - 1) {
            Some(t) => copy_step(t, source, steps[n - 1]),
            None => None,
        }
    }
}

/// The list names every path of the tree once, each with its kind.
pub open spec fn names_tree(found: Seq<FoundView>, tree: Map<Seq<char>, Node>) -> bool {
    &&& forall|i: int, j: int| 0 <= i < j < found.len() ==> (#[trigger] found[i]).path != (#[trigger] found[j]).path
    &&& forall|i: int|
        0 <= i < found.len() ==> tree.contains_key((#[trigger] found[i]).path) && (tree[found[i].path] is Directory) == found[i].directory
    &&& forall|path: Seq<char>| #[trigger] tree.contains_key(path) ==> exists|i: int| 0 <= i < found.len() && found[i].path == path
}

/// Where both trees have a path, it is of one kind, and the file that would be
/// written over can be written.
pub open spec fn can_take(tree: Map<Seq<char>, Node>, source: Map<Seq<char>, Node>) -> bool {
    forall|path: Seq<char>|
        tree.contains_key(path) && #[trigger] source.contains_key(path) ==> {
            &&& (tree[path] is Directory) == (source[path] is Directory)
            &&& tree[path] is File ==> !tree[path]->readonly
        }
}

/// The path is among the first `n` found ones, or leads to one of them.
spec fn reached(found: Seq<FoundView>, n: int, path: Seq<char>) -> bool {
    exists|i: int| 0 <= i < n && ((#[trigger] found[i]).path == path || below(path, found[i].path))
}

/// The tree once the first `n` found paths have been copied.
spec fn partly_copied(
    tree: Map<Seq<char>, Node>,
    source: Map<Seq<char>, Node>,
    found: Seq<FoundView>,
    n: int,
) -> Map<Seq<char>, Node> {
    Map::new(
        |path: Seq<char>| tree.contains_key(path) || reached(found, n, path),
        |path: Seq<char>| if reached(found, n, path) {
            source[path]
        } else {
            tree[path]
        },
    )
}

proof fn lemma_reached_step(found: Seq<FoundView>, n: int, path: Seq<char>)
    requires
        0 < n <= found.len(),
    ensures
        reached(found, n, path) <==> reached(found, n - 1, path) || leads_to(path, found[n - 1].path, true),
{
    if reached(found, n, path) {
        let i = choose|i: int| 0 <= i < n && ((#[trigger] found[i]).path == path || below(path, found[i].path));
        if i < n - 1 {
            assert(found[i].path == path || below(path, found[i].path));
        }
    }
    if reached(found, n - 1, path) {
        let i = choose|i: int| 0 <= i < n - 1 && ((#[trigger] found[i]).path == path || below(path, found[i].path));
        assert(found[i].path == path || below(path, found[i].path));
    }
    if leads_to(path, found[n - 1].path, true) {
        assert(found[n - 1].path == path || below(path, found[n - 1].path));
    }
}

/// Whatever is reached stands in the tree that is copied.
proof fn lemma_reached_is_there(source: Map<Seq<char>, Node>, found: Seq<FoundView>, n: int, path: Seq<char>)
    requires
        sound_tree(source),
        names_tree(found, source),
        0 <= n <= found.len(),
        reached(found, n, path),
    ensures
        source.contains_key(path),
{
    let i = choose|i: int| 0 <= i < n && ((#[trigger] found[i]).path == path || below(path, found[i].path));
    assert(source.contains_key(found[i].path));
}

/// Copying the first `n` found paths succeeds and puts them there.
proof fn lemma_copies(tree: Map<Seq<char>, Node>, source: Map<Seq<char>, Node>, found: Seq<FoundView>, n: int)
    requires
        sound_tree(source),
        can_take(tree, source),
        names_tree(found, source),
        0 <= n <= found.len(),
    ensures
        run_copies(tree, source, copies_of(found), n) == Some(partly_copied(tree, source, found, n)),
    decreases n,
{
    if n == 0 {
        assert(partly_copied(tree, source, found, 0) =~= tree);
    } else {
        lemma_copies(tree, source, found, n - 1);
        let t = partly_copied(tree, source, found, n - 1);
        let next = partly_copied(tree, source, found, n);
        let f = found[n - 1];
        let path = f.path;
        assert(copies_of(found)[n - 1] == copy_of(f));
        assert(source.contains_key(path) && (source[path] is Directory) == f.directory);
        assert forall|dir: Seq<char>| #[trigger] reached(found, n, dir) <==> reached(found, n - 1, dir) || leads_to(dir, path, true) by {
            lemma_reached_step(found, n, dir);
        }
        assert forall|dir: Seq<char>| #[trigger] below(dir, path) && t.contains_key(dir) implies t[dir] is Directory && t[dir] == source[dir] by {
            assert(source.contains_key(dir) && source[dir] is Directory);
        }
        assert forall|dir: Seq<char>| #[trigger] leads_to(dir, path, false) && t.contains_key(dir) implies t[dir] is Directory by {
            assert(below(dir, path));
        }
        assert(can_lead(t, path, false));
        if f.directory {
            assert forall|dir: Seq<char>| #[trigger] leads_to(dir, path, true) && t.contains_key(dir) implies t[dir] is Directory by {
                if dir == path {
                    assert(source[path] is Directory);
                } else {
                    assert(below(dir, path));
                }
            }
            let made = with_dirs(t, path, true);
            assert forall|dir: Seq<char>| #[trigger] made.contains_key(dir) implies made[dir] == next[dir] by {
                if leads_to(dir, path, true) {
                    assert(source.contains_key(dir) && source[dir] is Directory);
                }
            }
            assert(made =~= next);
        } else {
            let made = with_dirs(t, path, false);
            assert forall|dir: Seq<char>| #[trigger] below(dir, path) implies made.contains_key(dir) && made[dir] is Directory by {
                assert(leads_to(dir, path, false));
            }
            assert(!reached(found, n - 1, path)) by {
                if reached(found, n - 1, path) {
                    let i = choose|i: int| 0 <= i < n - 1 && ((#[trigger] found[i]).path == path || below(path, found[i].path));
                    assert(found[i].path != found[n - 1].path);
                    assert(source.contains_key(found[i].path));
                }
            }
            assert(!below(path, path));
            assert(can_write(made, path));
            let put = made.insert(path, source[path]);
            assert forall|dir: Seq<char>| #[trigger] put.contains_key(dir) == next.contains_key(dir) by {
                assert(leads_to(dir, path, true) == (leads_to(dir, path, false) || dir == path));
            }
            assert forall|dir: Seq<char>| #[trigger] put.contains_key(dir) implies put[dir] == next[dir] by {
                assert(leads_to(dir, path, true) == (leads_to(dir, path, false) || dir == path));
                if dir != path && leads_to(dir, path, false) {
                    assert(below(dir, path));
                    assert(source.contains_key(dir) && source[dir] is Directory);
                }
            }
            assert(put =~= next);
        }
    }
}

/// Copying a tree over one that can take it puts it there and leaves the rest alone.
pub proof fn copying_puts_the_tree_there(tree: Map<Seq<char>, Node>, source: Map<Seq<char>, Node>, found: Seq<FoundView>)
    requires
        sound_tree(source),
        can_take(tree, source),
        names_tree(found, source),
    ensures
        run_copies(tree, source, copies_of(found), found.len() as int) == Some(tree.union_prefer_right(source)),
{
    let n = found.len() as int;
    lemma_copies(tree, source, found, n);
    let end = partly_copied(tree, source, found, n);
    assert forall|path: Seq<char>| #[trigger] reached(found, n, path) == source.contains_key(path) by {
        if reached(found, n, path) {
            lemma_reached_is_there(source, found, n, path);
        }
        if source.contains_key(path) {
            let i = choose|i: int| 0 <= i < found.len() && found[i].path == path;
            assert(found[i].path == path);
        }
    }
    assert(end =~= tree.union_prefer_right(source));
}

/// The ignored paths that both trees have are of one kind, and those that would
/// be written over can be written.
pub open spec fn ignored_agree(live: Map<Seq<char>, Node>, staged: Map<Seq<char>, Node>) -> bool {
    forall|path: Seq<char>|
        is_ignored(path) && live.contains_key(path) && #[trigger] staged.contains_key(path) ==> {
            &&& (live[path] is Directory) == (staged[path] is Directory)
            &&& live[path] is File ==> !live[path]->readonly
        }
}

/// Restore: once a workspace has been cleared and a replayed tree copied into
/// it, every path that snapshots see is as in the replayed tree, and no other
/// such path is left; what snapshots ignore and the tree lacks is untouched.
pub proof fn a_restore_gives_the_replayed_tree(
    live: Map<Seq<char>, Node>,
    objects: Map<Seq<char>, Seq<u8>>,
    staged: Map<Seq<char>, Node>,
    removals: Seq<Seq<char>>,
    found: Seq<FoundView>,
)
    requires
        sound_tree(live),
        sound_tree(staged),
        ignored_agree(live, staged),
        is_removal_list(removals, snapshot(live), Map::empty()),
        names_tree(found, staged),
    ensures
        run_all(live, objects, remove_steps(removals)) is Some,
        ({
            let cleared = run_all(live, objects, remove_steps(removals))->0;
            let end = run_copies(cleared, staged, copies_of(found), found.len() as int);
            &&& end is Some
            &&& forall|path: Seq<char>|
                !is_ignored(path) ==> #[trigger] end->0.contains_key(path) == staged.contains_key(path)
            &&& forall|path: Seq<char>| staged.contains_key(path) ==> #[trigger] end->0[path] == staged[path]
            &&& forall|path: Seq<char>|
                is_ignored(path) && !staged.contains_key(path) ==> #[trigger] end->0.contains_key(path) == live.contains_key(path)
            &&& forall|path: Seq<char>|
                is_ignored(path) && !staged.contains_key(path) && live.contains_key(path) ==> #[trigger] end->0[path] == live[path]
        }),
{
    clearing_leaves_the_ignored_paths(live, objects, removals);
    let cleared = run_all(live, objects, remove_steps(removals))->0;
    assert(can_take(cleared, staged)) by {
        assert forall|path: Seq<char>| cleared.contains_key(path) && #[trigger] staged.contains_key(path) implies {
            &&& (cleared[path] is Directory) == (staged[path] is Directory)
            &&& cleared[path] is File ==> !cleared[path]->readonly
        } by {
            assert(live.contains_key(path) && is_ignored(path));
            assert(cleared[path] == live[path]);
        }
    }
    copying_puts_the_tree_there(cleared, staged, found);
}

/// Going back: a restore from an operation journal up to number `limit` gives
/// the workspace, as snapshots see it, the tree as it was after the first
/// `limit` operations.
pub proof fn a_restore_goes_back_to_any_event(
    trees: Seq<Map<Seq<char>, Node>>,
    events: Seq<OperationEventView>,
    objects: Map<Seq<char>, Vec<u8>>,
    contents: Map<Seq<char>, Seq<u8>>,
    dirs: Seq<Seq<char>>,
    files: Seq<Seq<char>>,
    writing: Seq<FsActionView>,
    limit: usize,
    live: Map<Seq<char>, Node>,
    removals: Seq<Seq<char>>,
    found: Seq<FoundView>,
)
    requires
        sound_tree(trees[0]),
        went_through(trees, events, objects),
        limit <= events.len(),
        forall|path: Seq<char>| #[trigger] trees[0].contains_key(path) ==> !is_ignored(path),
        forall|path: Seq<char>|
            #[trigger] trees[0].contains_key(path) && trees[0][path] is File ==> {
                let bytes = trees[0][path]->bytes;
                bytes.len() <= u64::MAX && contents.contains_key(content_id_of(bytes)) && contents[content_id_of(bytes)] == bytes
            },
        writes_out(writing, snapshot(trees[0]), dirs, files),
        sound_tree(live),
        ignored_agree(live, trees[limit as int]),
        is_removal_list(removals, snapshot(live), Map::empty()),
        names_tree(found, trees[limit as int]),
    ensures
        ({
            let redo = replayed_operations(events, objects, Some(limit), None, events.len() as int).0;
            let staged = run_all(Map::empty(), contents, writing + redo);
            let cleared = run_all(live, contents, remove_steps(removals));
            let end = run_copies(cleared->0, staged->0, copies_of(found), found.len() as int);
            &&& staged == Some(trees[limit as int])
            &&& cleared is Some
            &&& end is Some
            &&& snapshot(end->0) == snapshot(trees[limit as int])
        }),
{
    let staged = trees[limit as int];
    a_replay_reaches_every_event(trees, events, objects, contents, dirs, files, writing, limit);
    lemma_replay_repeats(trees, events, objects, contents, limit, limit as int);
    a_restore_gives_the_replayed_tree(live, contents, staged, removals, found);
    let cleared = run_all(live, contents, remove_steps(removals))->0;
    let end = run_copies(cleared, staged, copies_of(found), found.len() as int)->0;
    assert(snapshot(end) =~= snapshot(staged)) by {
        assert forall|path: Seq<char>| #[trigger] snapshot(end).contains_key(path) == snapshot(staged).contains_key(path) by {
            if !is_ignored(path) {
                assert(end.contains_key(path) == staged.contains_key(path));
            }
        }
        assert forall|path: Seq<char>| #[trigger] snapshot(end).contains_key(path) implies snapshot(end)[path] == snapshot(staged)[path] by {
            assert(end.contains_key(path) == staged.contains_key(path));
            assert(end[path] == staged[path]);
        }
    }
}

} // verus!
