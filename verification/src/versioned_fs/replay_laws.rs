//! Laws of the operation journal: redoing what was recorded repeats it.

use crate::versioned_fs::error::FsErrorView;
use crate::versioned_fs::journal::within;
use crate::versioned_fs::object::{content_id_of, is_content_id};
use crate::versioned_fs::operation::{
    object_bytes, redone, replayed_operations, resized, spliced, OperationEventView, OperationView,
};
use crate::versioned_fs::paths::{checked, is_ignored};
use crate::versioned_fs::plan::{writes_out, FsActionView};
use crate::versioned_fs::tree::{
    below, can_lead, contents, leads_to, lemma_run_concat, moved_from, overlay, recorded,
    restored, run_all, run_steps, snapshot, snapshots_are_sound, sound_tree, step, with_dirs,
    writing_out_overlays, Node,
};
use vstd::prelude::*;

verus! {

/// The tree without a path and what is below it.
pub open spec fn without(tree: Map<Seq<char>, Node>, path: Seq<char>) -> Map<Seq<char>, Node> {
    tree.restrict(Set::new(|other: Seq<char>| other != path && !below(path, other)))
}

/// A file that can be written stands at the path.
pub open spec fn writable(tree: Map<Seq<char>, Node>, path: Seq<char>) -> bool {
    tree.contains_key(path) && tree[path] is File && !tree[path]->readonly
}

/// The tree once an operation has been performed on it; nothing where it
/// cannot be. `payload` holds the bytes that a write writes.
pub open spec fn performed(
    tree: Map<Seq<char>, Node>,
    op: OperationView,
    payload: Option<Seq<u8>>,
) -> Option<Map<Seq<char>, Node>> {
    match op {
        OperationView::CreateFile { path } => {
            let made = with_dirs(tree, path, false);
            if can_lead(tree, path, false) && (tree.contains_key(path) ==> writable(tree, path)) {
                Some(made.insert(path, Node::File { bytes: Seq::empty(), readonly: false }))
            } else {
                None
            }
        },
        OperationView::CreateDir { path } => if can_lead(tree, path, true) {
            Some(with_dirs(tree, path, true))
        } else {
            None
        },
        OperationView::Write { path, offset, .. } => match payload {
            Some(bytes) => if writable(tree, path) {
                Some(
                    tree.insert(
                        path,
                        Node::File { bytes: spliced(tree[path]->bytes, offset, bytes), readonly: false },
                    ),
                )
            } else {
                None
            },
            None => None,
        },
        OperationView::Truncate { path, len } => if writable(tree, path) {
            Some(tree.insert(path, Node::File { bytes: resized(tree[path]->bytes, len), readonly: false }))
        } else {
            None
        },
        OperationView::DeletePath { path } => if tree.contains_key(path) {
            Some(without(tree, path))
        } else {
            None
        },
        OperationView::RenamePath { source_path, path } => if can_lead(tree, path, false) {
            step(
                with_dirs(tree, path, false),
                Map::empty(),
                FsActionView::Rename { source: source_path, path },
            )
        } else {
            None
        },
        OperationView::Chmod { path, readonly } => if !tree.contains_key(path) {
            None
        } else {
            match tree[path] {
                Node::File { bytes, .. } => Some(tree.insert(path, Node::File { bytes, readonly })),
                Node::Directory => Some(tree),
            }
        },
        OperationView::Fsync { path } => Some(tree),
    }
}

/// The path is recorded as it is redone.
pub open spec fn is_plain(path: Seq<char>) -> bool {
    checked(path) == Ok::<Seq<char>, FsErrorView>(path)
}

/// The event records an operation truly: its paths are plain, and a write names
/// the bytes that it wrote.
pub open spec fn records_truly(op: OperationView, payload: Option<Seq<u8>>) -> bool {
    match op {
        OperationView::CreateFile { path }
        | OperationView::CreateDir { path }
        | OperationView::Truncate { path, .. }
        | OperationView::DeletePath { path }
        | OperationView::Chmod { path, .. }
        | OperationView::Fsync { path } => is_plain(path),
        OperationView::RenamePath { source_path, path } => is_plain(source_path) && is_plain(path),
        OperationView::Write { path, offset, object, len } => {
            &&& is_plain(path)
            &&& is_content_id(object)
            &&& payload matches Some(bytes) && bytes.len() == len && offset + len <= usize::MAX
        },
    }
}

proof fn lemma_below_transitive(a: Seq<char>, b: Seq<char>, c: Seq<char>)
    requires
        below(a, b),
        below(b, c),
    ensures
        below(a, c),
{
    assert(c.take(a.len() as int) =~= b.take(a.len() as int)) by {
        assert(c.take(b.len() as int) == b);
    }
    assert(c[a.len() as int] == c.take(b.len() as int)[a.len() as int]);
}

/// Two directories above one path lie above each other.
proof fn lemma_below_comparable(a: Seq<char>, b: Seq<char>, c: Seq<char>)
    requires
        below(a, c),
        below(b, c),
    ensures
        a == b || below(a, b) || below(b, a),
{
    if a.len() == b.len() {
        assert(a =~= b);
    } else if a.len() < b.len() {
        assert(b.take(a.len() as int) =~= a) by {
            assert(c.take(b.len() as int) == b);
            assert(c.take(a.len() as int) == a);
        }
        assert(b[a.len() as int] == c.take(b.len() as int)[a.len() as int]);
    } else {
        assert(a.take(b.len() as int) =~= b) by {
            assert(c.take(a.len() as int) == a);
            assert(c.take(b.len() as int) == b);
        }
        assert(a[b.len() as int] == c.take(a.len() as int)[b.len() as int]);
    }
}

/// Missing directories are there already where something stands at the path.
proof fn lemma_dirs_there(tree: Map<Seq<char>, Node>, path: Seq<char>)
    requires
        sound_tree(tree),
        tree.contains_key(path),
    ensures
        can_lead(tree, path, false),
        with_dirs(tree, path, false) == tree,
{
    assert(with_dirs(tree, path, false) =~= tree);
}

proof fn lemma_with_dirs_sound(tree: Map<Seq<char>, Node>, path: Seq<char>, whole: bool)
    requires
        sound_tree(tree),
        can_lead(tree, path, whole),
    ensures
        sound_tree(with_dirs(tree, path, whole)),
        forall|dir: Seq<char>|
            #[trigger] leads_to(dir, path, whole) ==> with_dirs(tree, path, whole).contains_key(dir) && with_dirs(tree, path, whole)[dir] is Directory,
{
    let made = with_dirs(tree, path, whole);
    assert forall|dir: Seq<char>, other: Seq<char>|
        made.contains_key(other) && #[trigger] below(dir, other) implies made.contains_key(dir) && made[dir] is Directory by {
        if !tree.contains_key(other) {
            assert(leads_to(other, path, whole));
            if other != path {
                lemma_below_transitive(dir, other, path);
            }
            assert(leads_to(dir, path, whole));
        }
    }
}

/// A file put where the directories that lead to it are, and nothing or a file was.
proof fn lemma_file_put_sound(tree: Map<Seq<char>, Node>, path: Seq<char>, node: Node)
    requires
        sound_tree(tree),
        forall|dir: Seq<char>| #[trigger] below(dir, path) ==> tree.contains_key(dir) && tree[dir] is Directory,
        tree.contains_key(path) ==> tree[path] is File,
    ensures
        sound_tree(tree.insert(path, node)),
{
    let t = tree.insert(path, node);
    assert forall|dir: Seq<char>, other: Seq<char>|
        t.contains_key(other) && #[trigger] below(dir, other) implies t.contains_key(dir) && t[dir] is Directory by {
        if other != path {
            assert(tree.contains_key(dir) && tree[dir] is Directory);
        }
    }
}

proof fn lemma_without_sound(tree: Map<Seq<char>, Node>, path: Seq<char>)
    requires
        sound_tree(tree),
    ensures
        sound_tree(without(tree, path)),
{
    let t = without(tree, path);
    assert forall|dir: Seq<char>, other: Seq<char>|
        t.contains_key(other) && #[trigger] below(dir, other) implies t.contains_key(dir) && t[dir] is Directory by {
        if below(path, dir) {
            lemma_below_transitive(path, dir, other);
        }
    }
}

/// What is below a moved directory was below it before.
proof fn lemma_moved_below(source: Seq<char>, target: Seq<char>, dir: Seq<char>, path: Seq<char>)
    requires
        source.len() > 0,
        target.len() > 0,
        dir == target || below(target, dir),
        below(dir, path),
    ensures
        below(moved_from(source, target, dir), moved_from(source, target, path)),
        moved_from(source, target, target) == source,
{
    let n = target.len() as int;
    let d = moved_from(source, target, dir);
    let p = moved_from(source, target, path);
    assert(target.skip(n) =~= Seq::<char>::empty());
    assert(moved_from(source, target, target) =~= source);
    assert(p.take(d.len() as int) =~= d) by {
        assert(path.take(dir.len() as int) == dir);
        assert forall|i: int| 0 <= i < d.len() implies p[i] == d[i] by {
            if i >= source.len() {
                let k = i - source.len() + n;
                assert(p[i] == path[k]);
                assert(d[i] == dir[k]);
                assert(path.take(dir.len() as int)[k] == dir[k]);
            }
        }
    }
    assert(p[d.len() as int] == path[dir.len() as int]);
}

proof fn lemma_rename_sound(tree: Map<Seq<char>, Node>, source: Seq<char>, path: Seq<char>)
    requires
        sound_tree(tree),
        source.len() > 0,
        path.len() > 0,
        forall|dir: Seq<char>| #[trigger] below(dir, path) ==> tree.contains_key(dir) && tree[dir] is Directory,
        step(tree, Map::empty(), FsActionView::Rename { source, path }) is Some,
    ensures
        sound_tree(step(tree, Map::empty(), FsActionView::Rename { source, path })->0),
{
    let t = step(tree, Map::empty(), FsActionView::Rename { source, path })->0;
    if source != path {
        assert forall|dir: Seq<char>, other: Seq<char>|
            t.contains_key(other) && #[trigger] below(dir, other) implies t.contains_key(dir) && t[dir] is Directory by {
            if other == path || below(path, other) {
                let was = moved_from(source, path, other);
                assert(tree.contains_key(was));
                if other == path {
                    assert(below(dir, path));
                } else {
                    lemma_below_comparable(dir, path, other);
                }
                if dir == path || below(path, dir) {
                    lemma_moved_below(source, path, dir, other);
                    assert(below(moved_from(source, path, dir), was));
                } else {
                    assert(below(dir, path));
                    if below(source, dir) {
                        lemma_below_transitive(source, dir, path);
                    }
                }
            } else {
                assert(tree.contains_key(dir) && tree[dir] is Directory);
                if below(path, dir) {
                    lemma_below_transitive(path, dir, other);
                }
                if below(source, dir) {
                    lemma_below_transitive(source, dir, other);
                }
            }
        }
    }
}

/// Running one or two steps.
proof fn lemma_run_few(tree: Map<Seq<char>, Node>, objects: Map<Seq<char>, Seq<u8>>, steps: Seq<FsActionView>)
    ensures
        steps.len() == 1 ==> run_all(tree, objects, steps) == step(tree, objects, steps[0]),
        steps.len() == 2 ==> run_all(tree, objects, steps) == match step(tree, objects, steps[0]) {
            Some(t) => step(t, objects, steps[1]),
            None => None,
        },
{
    reveal_with_fuel(run_steps, 3);
}

/// Redoing an event performs the operation that it records, and leaves a sound tree.
pub proof fn redoing_an_event_repeats_it(
    tree: Map<Seq<char>, Node>,
    event: OperationEventView,
    payload: Option<Seq<u8>>,
    objects: Map<Seq<char>, Seq<u8>>,
)
    requires
        sound_tree(tree),
        records_truly(event.op, payload),
        performed(tree, event.op, payload) is Some,
    ensures
        redone(event, payload).1 is Ok,
        run_all(tree, objects, redone(event, payload).0) == performed(tree, event.op, payload),
        sound_tree(performed(tree, event.op, payload)->0),
{
    let steps = redone(event, payload).0;
    lemma_run_few(tree, objects, steps);
    match event.op {
        OperationView::CreateFile { path } => {
            let made = with_dirs(tree, path, false);
            lemma_with_dirs_sound(tree, path, false);
            assert forall|dir: Seq<char>| #[trigger] below(dir, path) implies made.contains_key(dir) && made[dir] is Directory by {
                assert(leads_to(dir, path, false));
            }
            assert(made.contains_key(path) ==> tree.contains_key(path));
            lemma_file_put_sound(made, path, Node::File { bytes: Seq::empty(), readonly: false });
        },
        OperationView::CreateDir { path } => {
            lemma_with_dirs_sound(tree, path, true);
        },
        OperationView::Write { path, offset, .. } => {
            lemma_dirs_there(tree, path);
            assert(contents(tree, path) == tree[path]->bytes);
            lemma_file_put_sound(
                tree,
                path,
                Node::File { bytes: spliced(tree[path]->bytes, offset, payload->0), readonly: false },
            );
        },
        OperationView::Truncate { path, len } => {
            lemma_dirs_there(tree, path);
            assert(contents(tree, path) == tree[path]->bytes);
            lemma_file_put_sound(
                tree,
                path,
                Node::File { bytes: resized(tree[path]->bytes, len), readonly: false },
            );
        },
        OperationView::DeletePath { path } => {
            lemma_without_sound(tree, path);
            assert(step(tree, objects, FsActionView::Remove(path))->0 =~= without(tree, path));
        },
        OperationView::RenamePath { source_path, path } => {
            let made = with_dirs(tree, path, false);
            lemma_with_dirs_sound(tree, path, false);
            assert forall|dir: Seq<char>| #[trigger] below(dir, path) implies made.contains_key(dir) && made[dir] is Directory by {
                assert(leads_to(dir, path, false));
            }
            lemma_rename_sound(made, source_path, path);
        },
        OperationView::Chmod { path, readonly } => {
            if tree[path] is File {
                lemma_file_put_sound(tree, path, Node::File { bytes: tree[path]->bytes, readonly });
            }
        },
        OperationView::Fsync { path } => {},
    }
}

/// The trees are those that a base tree went through as the operations of a
/// journal were performed on it, one after the other.
pub open spec fn went_through(
    trees: Seq<Map<Seq<char>, Node>>,
    events: Seq<OperationEventView>,
    objects: Map<Seq<char>, Vec<u8>>,
) -> bool {
    &&& trees.len() == events.len() + 1
    &&& forall|i: int|
        0 <= i < events.len() ==> {
            &&& (#[trigger] events[i]).seq == i + 1
            &&& records_truly(events[i].op, object_bytes(objects, events[i].op))
            &&& performed(trees[i], events[i].op, object_bytes(objects, events[i].op)) == Some(trees[i + 1])
        }
}

/// Replaying the first `n` events under a limit.
pub proof fn lemma_replay_repeats(
    trees: Seq<Map<Seq<char>, Node>>,
    events: Seq<OperationEventView>,
    objects: Map<Seq<char>, Vec<u8>>,
    contents: Map<Seq<char>, Seq<u8>>,
    limit: usize,
    n: int,
)
    requires
        sound_tree(trees[0]),
        went_through(trees, events, objects),
        limit <= events.len(),
        0 <= n <= events.len(),
    ensures
        ({
            let reached = if n <= limit {
                n
            } else {
                limit as int
            };
            let (steps, end) = replayed_operations(events, objects, Some(limit), None, n);
            &&& end == Ok::<nat, FsErrorView>(reached as nat)
            &&& run_all(trees[0], contents, steps) == Some(trees[reached])
            &&& sound_tree(trees[reached])
        }),
    decreases n,
{
    if n > 0 {
        lemma_replay_repeats(trees, events, objects, contents, limit, n - 1);
        let e = events[n - 1];
        assert(e.seq == n);
        assert(within(e.seq, e.ts, Some(limit), None) == (n <= limit));
        if n <= limit {
            let so_far = replayed_operations(events, objects, Some(limit), None, n - 1).0;
            let payload = object_bytes(objects, e.op);
            let more = redone(e, payload).0;
            redoing_an_event_repeats_it(trees[n - 1], e, payload, contents);
            lemma_run_concat(trees[0], contents, so_far, more, more.len() as int);
            assert((so_far + more).len() == so_far.len() + more.len());
        }
    }
}

/// Time travel: replaying a journal up to number `limit` on the tree that it
/// starts from gives the tree as it was after the first `limit` operations.
pub proof fn replaying_operations_repeats_them(
    trees: Seq<Map<Seq<char>, Node>>,
    events: Seq<OperationEventView>,
    objects: Map<Seq<char>, Vec<u8>>,
    contents: Map<Seq<char>, Seq<u8>>,
    limit: usize,
)
    requires
        sound_tree(trees[0]),
        went_through(trees, events, objects),
        limit <= events.len(),
    ensures
        replayed_operations(events, objects, Some(limit), None, events.len() as int).1 == Ok::<nat, FsErrorView>(limit as nat),
        run_all(
            trees[0],
            contents,
            replayed_operations(events, objects, Some(limit), None, events.len() as int).0,
        ) == Some(trees[limit as int]),
{
    lemma_replay_repeats(trees, events, objects, contents, limit, events.len() as int);
}

/// Time travel from a checkpoint: writing the checkpoint out into an empty
/// directory and replaying its journal up to number `limit` gives the tree as
/// it was after the first `limit` operations.
pub proof fn a_replay_reaches_every_event(
    trees: Seq<Map<Seq<char>, Node>>,
    events: Seq<OperationEventView>,
    objects: Map<Seq<char>, Vec<u8>>,
    contents: Map<Seq<char>, Seq<u8>>,
    dirs: Seq<Seq<char>>,
    files: Seq<Seq<char>>,
    writing: Seq<FsActionView>,
    limit: usize,
)
    requires
        sound_tree(trees[0]),
        went_through(trees, events, objects),
        limit <= events.len(),
        forall|path: Seq<char>| #[trigger] trees[0].contains_key(path) ==> !is_ignored(path),
        forall|path: Seq<char>|
            #[trigger] trees[0].contains_key(path) && trees[0][path] is File ==> {
                let bytes = trees[0][path]->bytes;
                bytes.len() <= u64::MAX && contents.contains_key(content_id_of(bytes)) && contents[content_id_of(bytes)] == bytes
            },
        writes_out(writing, snapshot(trees[0]), dirs, files),
    ensures
        ({
            let redo = replayed_operations(events, objects, Some(limit), None, events.len() as int).0;
            run_all(Map::empty(), contents, writing + redo) == Some(trees[limit as int])
        }),
{
    let base: Map<Seq<char>, Node> = Map::empty();
    let target = snapshot(trees[0]);
    snapshots_are_sound(trees[0]);
    assert(recorded(target, contents)) by {
        assert forall|path: Seq<char>| #[trigger] target.contains_key(path) && target[path] is File implies {
            &&& contents.contains_key(target[path]->object)
            &&& target[path]->hash == target[path]->object
            &&& target[path]->object == content_id_of(contents[target[path]->object])
            &&& target[path]->size == contents[target[path]->object].len()
        } by {
            assert(trees[0].contains_key(path));
        }
    }
    writing_out_overlays(base, contents, target, dirs, files, writing);
    assert(overlay(base, target, contents) =~= trees[0]) by {
        assert forall|path: Seq<char>| #[trigger] trees[0].contains_key(path) implies overlay(base, target, contents)[path] == trees[0][path] by {
            assert(target.contains_key(path));
            assert(restored(target[path], contents) == trees[0][path]);
        }
    }
    let redo = replayed_operations(events, objects, Some(limit), None, events.len() as int).0;
    replaying_operations_repeats_them(trees, events, objects, contents, limit);
    lemma_run_concat(base, contents, writing, redo, redo.len() as int);
    assert((writing + redo).len() == writing.len() + redo.len());
}

/// Limits that admit the same events replay the same.
proof fn lemma_same_limits(
    events: Seq<OperationEventView>,
    objects: Map<Seq<char>, Vec<u8>>,
    limit: u128,
    count: usize,
    n: int,
)
    requires
        0 <= n <= events.len(),
        forall|i: int|
            0 <= i < events.len() ==> within((#[trigger] events[i]).seq, events[i].ts, None, Some(limit)) == within(
                events[i].seq,
                events[i].ts,
                Some(count),
                None,
            ),
    ensures
        replayed_operations(events, objects, None, Some(limit), n) == replayed_operations(events, objects, Some(count), None, n),
    decreases n,
{
    if n > 0 {
        lemma_same_limits(events, objects, limit, count, n - 1);
        let e = events[n - 1];
        assert(within(e.seq, e.ts, None, Some(limit)) == within(e.seq, e.ts, Some(count), None));
    }
}

/// Where no event is older than the one before it, replaying up to a time
/// replays up to the number of the last event of that time.
pub proof fn replaying_operations_until_a_time_replays_a_prefix(
    events: Seq<OperationEventView>,
    objects: Map<Seq<char>, Vec<u8>>,
    limit: u128,
    count: usize,
)
    requires
        forall|i: int| 0 <= i < events.len() ==> (#[trigger] events[i]).seq == i + 1,
        forall|i: int, j: int| 0 <= i < j < events.len() ==> (#[trigger] events[i]).ts <= (#[trigger] events[j]).ts,
        count <= events.len(),
        count > 0 ==> events[count - 1].ts <= limit,
        count < events.len() ==> events[count as int].ts > limit,
    ensures
        replayed_operations(events, objects, None, Some(limit), events.len() as int) == replayed_operations(
            events,
            objects,
            Some(count),
            None,
            events.len() as int,
        ),
{
    assert forall|i: int| 0 <= i < events.len() implies within((#[trigger] events[i]).seq, events[i].ts, None, Some(limit)) == within(
        events[i].seq,
        events[i].ts,
        Some(count),
        None,
    ) by {
        if i < count - 1 {
            assert(events[i].ts <= events[count - 1].ts);
        } else if i > count {
            assert(events[count as int].ts <= events[i].ts);
        }
    }
    lemma_same_limits(events, objects, limit, count, events.len() as int);
}

} // verus!
