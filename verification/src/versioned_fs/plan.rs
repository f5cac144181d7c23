//! The steps that bring a directory to a recorded state.

use crate::string_map::{lemma_before_distinct, lemma_key_index, StringMap};
use crate::text::{
    before, comes_before, lemma_before_irreflexive, lemma_before_total, lemma_before_transitive,
    views,
};
use crate::versioned_fs::entry::{manifest, EntryView, WorkspaceEntry};
use crate::versioned_fs::paths::{depth, path_depth};
use vstd::prelude::*;

verus! {

/// One step on the file system; paths are manifest keys below a root.
#[derive(Debug, PartialEq, Eq)]
pub enum FsAction {
    /// Remove the directory with all that is below it, or the file, if there is one.
    Remove(String),
    /// Create the directory and its missing ancestors.
    MakeDirs(String),
    /// Create the missing ancestors of the path.
    MakeParent(String),
    /// Create the missing ancestors, copy the content object and set the permission.
    RestoreFile { path: String, object: String, readonly: bool },
    /// Create an empty file, or empty the one that is there.
    CreateFile(String),
    /// Write the bytes at the offset, with zeros in any gap before it.
    WriteAt { path: String, offset: usize, bytes: Vec<u8> },
    /// Give the file this length, creating it if it is missing.
    SetLength { path: String, len: u64 },
    /// Move a path.
    Rename { source: String, path: String },
    /// Set or clear the permission to write.
    SetReadonly { path: String, readonly: bool },
    /// Flush the file, if it is one.
    Sync(String),
}

/// The mathematical value of a step.
pub enum FsActionView {
    Remove(Seq<char>),
    MakeDirs(Seq<char>),
    MakeParent(Seq<char>),
    RestoreFile { path: Seq<char>, object: Seq<char>, readonly: bool },
    CreateFile(Seq<char>),
    WriteAt { path: Seq<char>, offset: nat, bytes: Seq<u8> },
    SetLength { path: Seq<char>, len: nat },
    Rename { source: Seq<char>, path: Seq<char> },
    SetReadonly { path: Seq<char>, readonly: bool },
    Sync(Seq<char>),
}

impl View for FsAction {
    type V = FsActionView;

    open spec fn view(&self) -> FsActionView {
        match *self {
            FsAction::Remove(path) => FsActionView::Remove(path@),
            FsAction::MakeDirs(path) => FsActionView::MakeDirs(path@),
            FsAction::MakeParent(path) => FsActionView::MakeParent(path@),
            FsAction::RestoreFile { path, object, readonly } => FsActionView::RestoreFile {
                path: path@,
                object: object@,
                readonly,
            },
            FsAction::CreateFile(path) => FsActionView::CreateFile(path@),
            FsAction::WriteAt { path, offset, bytes } => FsActionView::WriteAt {
                path: path@,
                offset: offset as nat,
                bytes: bytes@,
            },
            FsAction::SetLength { path, len } => FsActionView::SetLength {
                path: path@,
                len: len as nat,
            },
            FsAction::Rename { source, path } => FsActionView::Rename {
                source: source@,
                path: path@,
            },
            FsAction::SetReadonly { path, readonly } => FsActionView::SetReadonly {
                path: path@,
                readonly,
            },
            FsAction::Sync(path) => FsActionView::Sync(path@),
        }
    }
}

/// The values of a list of steps.
pub open spec fn action_views(actions: Seq<FsAction>) -> Seq<FsActionView> {
    actions.map_values(|a: FsAction| a@)
}

/// `a` comes before `b`: by depth, deeper or shallower first, then by the keys.
pub open spec fn ranks(deep: bool, a: Seq<char>, b: Seq<char>) -> bool {
    if depth(a) == depth(b) {
        before(a, b)
    } else {
        deep == (depth(a) > depth(b))
    }
}

/// The keys are in rank order, none twice.
pub open spec fn ranked(deep: bool, list: Seq<Seq<char>>) -> bool {
    forall|i: int, j: int| 0 <= i < j < list.len() ==> ranks(deep, #[trigger] list[i], #[trigger] list[j])
}

proof fn lemma_ranks_transitive(deep: bool, a: Seq<char>, b: Seq<char>, c: Seq<char>)
    requires
        ranks(deep, a, b),
        ranks(deep, b, c),
    ensures
        ranks(deep, a, c),
{
    if depth(a) == depth(b) && depth(b) == depth(c) {
        lemma_before_transitive(a, b, c);
    }
}

proof fn lemma_ranks_total(deep: bool, a: Seq<char>, b: Seq<char>)
    ensures
        a == b || ranks(deep, a, b) || ranks(deep, b, a),
        !ranks(deep, a, a),
{
    lemma_before_total(a, b);
    lemma_before_irreflexive(a);
}

/// Whether `a` comes before `b` in rank order.
fn comes_first(deep: bool, a: &str, b: &str) -> (r: bool)
    ensures
        r == ranks(deep, a@, b@),
{
    let left = path_depth(a);
    let right = path_depth(b);
    if left == right {
        comes_before(a, b)
    } else {
        deep == (left > right)
    }
}

/// Puts a key at its place in rank order.
fn insert_ranked(deep: bool, list: &mut Vec<String>, key: String)
    requires
        ranked(deep, views(old(list)@)),
        !views(old(list)@).contains(key@),
    ensures
        ranked(deep, views(final(list)@)),
        final(list)@.len() == old(list)@.len() + 1,
        forall|k: Seq<char>| #[trigger] views(final(list)@).contains(k) <==> views(old(list)@).contains(k) || k == key@,
{
    let ghost start = views(list@);
    let mut at: usize = 0;
    while at < list.len() && comes_first(deep, list[at].as_str(), key.as_str())
        invariant
            at <= list@.len(),
            start == views(list@),
            forall|i: int| 0 <= i < at ==> ranks(deep, #[trigger] start[i], key@),
        decreases list@.len() - at,
    {
        assert(start[at as int] == list@[at as int]@);
        at = at + 1;
    }
    proof {
        assert forall|i: int| at <= i < start.len() implies ranks(deep, key@, #[trigger] start[i]) by {
            assert(start[at as int] == list@[at as int]@);
            assert(start.contains(start[at as int]));
            lemma_ranks_total(deep, key@, start[at as int]);
            if i > at {
                lemma_ranks_transitive(deep, key@, start[at as int], start[i]);
            }
        }
    }
    list.insert(at, key);
    proof {
        let now = views(list@);
        assert(now =~= start.insert(at as int, key@));
        assert forall|i: int, j: int| 0 <= i < j < now.len() implies ranks(deep, #[trigger] now[i], #[trigger] now[j]) by {
            let a = if i < at { i } else { i - 1 };
            let b = if j < at { j } else { j - 1 };
            if i != at {
                assert(now[i] == start[a]);
            }
            if j != at {
                assert(now[j] == start[b]);
            }
        }
        assert forall|k: Seq<char>| #[trigger] now.contains(k) implies start.contains(k) || k == key@ by {
            let i = choose|i: int| 0 <= i < now.len() && now[i] == k;
            let a = if i < at { i } else { i - 1 };
            if i != at {
                assert(start[a] == k);
            }
        }
        assert forall|k: Seq<char>| start.contains(k) || k == key@ implies #[trigger] now.contains(k) by {
            if k == key@ {
                assert(now[at as int] == k);
            } else {
                let a = choose|a: int| 0 <= a < start.len() && start[a] == k;
                let i = if a < at { a } else { a + 1 };
                assert(now[i] == k);
            }
        }
    }
}

/// A file, or a directory, stands at the path on both sides.
pub open spec fn keeps_kind(
    current: Map<Seq<char>, EntryView>,
    target: Map<Seq<char>, EntryView>,
    path: Seq<char>,
) -> bool {
    &&& current.contains_key(path)
    &&& target.contains_key(path)
    &&& (current[path] is Directory) == (target[path] is Directory)
}

/// A read-only file stands at the path where a file is to be restored.
pub open spec fn is_locked(
    current: Map<Seq<char>, EntryView>,
    target: Map<Seq<char>, EntryView>,
    path: Seq<char>,
) -> bool {
    &&& keeps_kind(current, target, path)
    &&& current[path] is File
    &&& current[path]->readonly
}

/// The list holds the keys of `current` that `target` lacks or has as another
/// kind, deeper ones first.
pub open spec fn is_removal_list(
    list: Seq<Seq<char>>,
    current: Map<Seq<char>, EntryView>,
    target: Map<Seq<char>, EntryView>,
) -> bool {
    &&& ranked(true, list)
    &&& forall|path: Seq<char>| #[trigger] list.contains(path) <==> current.contains_key(path) && !keeps_kind(
        current,
        target,
        path,
    )
}

/// The list holds the read-only files of `current` that `target` has as files, shallower ones first.
pub open spec fn is_locked_list(
    list: Seq<Seq<char>>,
    current: Map<Seq<char>, EntryView>,
    target: Map<Seq<char>, EntryView>,
) -> bool {
    &&& ranked(false, list)
    &&& forall|path: Seq<char>| #[trigger] list.contains(path) <==> is_locked(current, target, path)
}

/// The list holds the directories of the manifest, shallower ones first.
pub open spec fn is_dir_list(list: Seq<Seq<char>>, target: Map<Seq<char>, EntryView>) -> bool {
    &&& ranked(false, list)
    &&& forall|path: Seq<char>| #[trigger] list.contains(path) <==> target.contains_key(path) && target[path] is Directory
}

/// The list holds the files of the manifest in key order.
pub open spec fn is_file_list(list: Seq<Seq<char>>, target: Map<Seq<char>, EntryView>) -> bool {
    &&& forall|i: int, j: int| 0 <= i < j < list.len() ==> before(#[trigger] list[i], #[trigger] list[j])
    &&& forall|path: Seq<char>| #[trigger] list.contains(path) <==> target.contains_key(path) && target[path] is File
}

/// The keys among the first `n` of a map, seen as a manifest.
spec fn among(items: Seq<(String, WorkspaceEntry)>, n: int, path: Seq<char>) -> bool {
    exists|i: int| 0 <= i < n && #[trigger] items[i].0@ == path
}

/// One more key is among them.
proof fn lemma_among_step(items: Seq<(String, WorkspaceEntry)>, n: int, path: Seq<char>)
    requires
        0 <= n < items.len(),
    ensures
        among(items, n + 1, path) <==> among(items, n, path) || items[n].0@ == path,
{
    if among(items, n + 1, path) {
        let i = choose|i: int| 0 <= i < n + 1 && #[trigger] items[i].0@ == path;
        if i < n {
            assert(items[i].0@ == path);
        }
    }
    if among(items, n, path) {
        let i = choose|i: int| 0 <= i < n && #[trigger] items[i].0@ == path;
        assert(items[i].0@ == path);
    }
    if items[n].0@ == path {
        assert(items[n].0@ == path);
    }
}

/// The keys of a map are those that its manifest holds, with their entries' values.
proof fn lemma_manifest_key(m: &StringMap<WorkspaceEntry>, i: int)
    requires
        m.wf(),
        0 <= i < m.items@.len(),
    ensures
        manifest(m@).contains_key(m.items@[i].0@),
        manifest(m@)[m.items@[i].0@] == m.items@[i].1@,
        forall|path: Seq<char>| #[trigger] manifest(m@).contains_key(path) <==> among(m.items@, m.items@.len() as int, path),
        !among(m.items@, i, m.items@[i].0@),
{
    lemma_key_index(m.items@, i);
    assert forall|path: Seq<char>| #[trigger] manifest(m@).contains_key(path) <==> among(m.items@, m.items@.len() as int, path) by {
    }
    if among(m.items@, i, m.items@[i].0@) {
        let k = choose|k: int| 0 <= k < i && #[trigger] m.items@[k].0@ == m.items@[i].0@;
        lemma_before_distinct(m.items@, k, i);
    }
}

/// The keys of a manifest are exactly those of its list of pairs.
proof fn lemma_manifest_domain(m: &StringMap<WorkspaceEntry>)
    ensures
        forall|path: Seq<char>| #[trigger] manifest(m@).contains_key(path) <==> among(m.items@, m.items@.len() as int, path),
{
}

/// Whether `target` has an entry of the same kind under a key.
fn has_same_kind(target: &StringMap<WorkspaceEntry>, key: &String, entry: &WorkspaceEntry) -> (r: bool)
    requires
        target.wf(),
    ensures
        r == (manifest(target@).contains_key(key@) && (entry@ is Directory) == (manifest(target@)[key@] is Directory)),
{
    match target.get(key.as_str()) {
        Some(other) => entry.is_directory() == other.is_directory(),
        None => false,
    }
}

/// The keys of `current` that `target` lacks or has as another kind, deeper ones first.
pub fn removable_paths(current: &StringMap<WorkspaceEntry>, target: &StringMap<WorkspaceEntry>) -> (list: Vec<String>)
    requires
        current.wf(),
        target.wf(),
    ensures
        is_removal_list(views(list@), manifest(current@), manifest(target@)),
{
    let mut list: Vec<String> = Vec::new();
    let ghost goal = manifest(target@);
    let ghost start = manifest(current@);
    for i in 0..current.items.len()
        invariant
            current.wf(),
            target.wf(),
            goal == manifest(target@),
            start == manifest(current@),
            ranked(true, views(list@)),
            forall|path: Seq<char>| #[trigger] views(list@).contains(path) <==> among(current.items@, i as int, path) && !keeps_kind(start, goal, path),
    {
        let key = &current.items[i].0;
        proof {
            lemma_manifest_key(current, i as int);
            assert forall|path: Seq<char>| #[trigger] among(current.items@, i + 1, path) <==> among(current.items@, i as int, path) || key@ == path by {
                lemma_among_step(current.items@, i as int, path);
            }
        }
        if !has_same_kind(target, key, &current.items[i].1) {
            insert_ranked(true, &mut list, key.clone());
        }
    }
    proof {
        lemma_manifest_domain(current);
    }
    list
}

/// Whether an entry is a read-only file.
fn is_readonly_file(entry: &WorkspaceEntry) -> (r: bool)
    ensures
        r == (entry@ is File && entry@->readonly),
{
    match entry {
        WorkspaceEntry::File { readonly, .. } => *readonly,
        WorkspaceEntry::Directory => false,
    }
}

/// The read-only files of `current` that `target` has as files, shallower ones first.
pub fn locked_paths(current: &StringMap<WorkspaceEntry>, target: &StringMap<WorkspaceEntry>) -> (list: Vec<String>)
    requires
        current.wf(),
        target.wf(),
    ensures
        is_locked_list(views(list@), manifest(current@), manifest(target@)),
{
    let mut list: Vec<String> = Vec::new();
    let ghost goal = manifest(target@);
    let ghost start = manifest(current@);
    for i in 0..current.items.len()
        invariant
            current.wf(),
            target.wf(),
            goal == manifest(target@),
            start == manifest(current@),
            ranked(false, views(list@)),
            forall|path: Seq<char>| #[trigger] views(list@).contains(path) <==> among(current.items@, i as int, path) && is_locked(start, goal, path),
    {
        let key = &current.items[i].0;
        proof {
            lemma_manifest_key(current, i as int);
            assert forall|path: Seq<char>| #[trigger] among(current.items@, i + 1, path) <==> among(current.items@, i as int, path) || key@ == path by {
                lemma_among_step(current.items@, i as int, path);
            }
        }
        if is_readonly_file(&current.items[i].1) && has_same_kind(target, key, &current.items[i].1) {
            insert_ranked(false, &mut list, key.clone());
        }
    }
    proof {
        lemma_manifest_domain(current);
    }
    list
}

/// The directories of a manifest, shallower ones first.
pub fn directory_paths(target: &StringMap<WorkspaceEntry>) -> (list: Vec<String>)
    requires
        target.wf(),
    ensures
        is_dir_list(views(list@), manifest(target@)),
{
    let mut list: Vec<String> = Vec::new();
    let ghost goal = manifest(target@);
    for i in 0..target.items.len()
        invariant
            target.wf(),
            goal == manifest(target@),
            ranked(false, views(list@)),
            forall|path: Seq<char>| #[trigger] views(list@).contains(path) <==> among(target.items@, i as int, path) && goal[path] is Directory,
    {
        let key = &target.items[i].0;
        proof {
            lemma_manifest_key(target, i as int);
            assert forall|path: Seq<char>| #[trigger] among(target.items@, i + 1, path) <==> among(target.items@, i as int, path) || key@ == path by {
                lemma_among_step(target.items@, i as int, path);
            }
        }
        if target.items[i].1.is_directory() {
            insert_ranked(false, &mut list, key.clone());
        }
    }
    proof {
        lemma_manifest_domain(target);
    }
    list
}

/// The steps that restore files.
pub open spec fn restore_steps(list: Seq<Seq<char>>, target: Map<Seq<char>, EntryView>) -> Seq<FsActionView> {
    list.map_values(
        |path: Seq<char>|
            FsActionView::RestoreFile {
                path,
                object: target[path]->object,
                readonly: target[path]->readonly,
            },
    )
}

/// The steps that remove paths.
pub open spec fn remove_steps(list: Seq<Seq<char>>) -> Seq<FsActionView> {
    list.map_values(|path: Seq<char>| FsActionView::Remove(path))
}

/// The steps that make files writable.
pub open spec fn unlock_steps(list: Seq<Seq<char>>) -> Seq<FsActionView> {
    list.map_values(|path: Seq<char>| FsActionView::SetReadonly { path, readonly: false })
}

/// The steps that create directories.
pub open spec fn make_steps(list: Seq<Seq<char>>) -> Seq<FsActionView> {
    list.map_values(|path: Seq<char>| FsActionView::MakeDirs(path))
}

/// The steps are those that write the manifest out: first the directories,
/// shallower ones first, then the files in key order.
pub open spec fn writes_out(
    steps: Seq<FsActionView>,
    target: Map<Seq<char>, EntryView>,
    dirs: Seq<Seq<char>>,
    files: Seq<Seq<char>>,
) -> bool {
    &&& is_dir_list(dirs, target)
    &&& is_file_list(files, target)
    &&& steps == make_steps(dirs) + restore_steps(files, target)
}

/// The steps write `target` out, and the counts tell how many directories are
/// made and files restored.
pub open spec fn is_writing(
    steps: Seq<FsActionView>,
    target: Map<Seq<char>, EntryView>,
    made: nat,
    restored: nat,
) -> bool {
    exists|dirs: Seq<Seq<char>>, files: Seq<Seq<char>>|
        #[trigger] writes_out(steps, target, dirs, files) && made == dirs.len() && restored == files.len()
}

/// `after` is `before` followed by the steps that write `target` out.
pub open spec fn appends_writing(
    before: Seq<FsActionView>,
    after: Seq<FsActionView>,
    target: Map<Seq<char>, EntryView>,
    made: nat,
    restored: nat,
) -> bool {
    exists|steps: Seq<FsActionView>| #[trigger] is_writing(steps, target, made, restored) && after == before + steps
}

/// Appends the steps that write a manifest out, and counts files and directories.
pub fn write_checkpoint_to_root(actions: &mut Vec<FsAction>, target: &StringMap<WorkspaceEntry>) -> (counts: (usize, usize))
    requires
        target.wf(),
    ensures
        appends_writing(
            action_views(old(actions)@),
            action_views(final(actions)@),
            manifest(target@),
            counts.1 as nat,
            counts.0 as nat,
        ),
{
    let ghost goal = manifest(target@);
    let ghost start = action_views(actions@);
    let dirs = directory_paths(target);
    let ghost dir_list = views(dirs@);
    for i in 0..dirs.len()
        invariant
            dir_list == views(dirs@),
            action_views(actions@) == start + make_steps(dir_list.take(i as int)),
    {
        let ghost done = actions@;
        actions.push(FsAction::MakeDirs(dirs[i].clone()));
        assert(action_views(actions@) =~= action_views(done).push(FsActionView::MakeDirs(dir_list[i as int])));
        assert(dir_list.take(i + 1) =~= dir_list.take(i as int).push(dir_list[i as int]));
        assert(action_views(actions@) =~= start + make_steps(dir_list.take(i + 1)));
    }
    assert(dir_list.take(dirs@.len() as int) =~= dir_list);
    let ghost middle = start + make_steps(dir_list);
    let ghost mut files: Seq<Seq<char>> = Seq::empty();
    let mut restored: usize = 0;
    assert(action_views(actions@) =~= middle + restore_steps(files, goal));
    for i in 0..target.items.len()
        invariant
            target.wf(),
            goal == manifest(target@),
            restored == files.len(),
            restored <= i,
            forall|a: int, b: int| 0 <= a < b < files.len() ==> before(#[trigger] files[a], #[trigger] files[b]),
            forall|path: Seq<char>| #[trigger] files.contains(path) <==> among(target.items@, i as int, path) && goal[path] is File,
            forall|a: int| 0 <= a < files.len() && i < target.items@.len() ==> before(#[trigger] files[a], target.items@[i as int].0@),
            action_views(actions@) == middle + restore_steps(files, goal),
    {
        let key = &target.items[i].0;
        proof {
            lemma_manifest_key(target, i as int);
            assert forall|path: Seq<char>| #[trigger] among(target.items@, i + 1, path) <==> among(target.items@, i as int, path) || key@ == path by {
                lemma_among_step(target.items@, i as int, path);
            }
        }
        let ghost earlier = files;
        if let WorkspaceEntry::File { object, readonly, .. } = &target.items[i].1 {
            let ghost done = actions@;
            actions.push(
                FsAction::RestoreFile {
                    path: key.clone(),
                    object: object.clone(),
                    readonly: *readonly,
                },
            );
            restored = restored + 1;
            proof {
                files = files.push(key@);
                assert forall|path: Seq<char>| #[trigger] files.contains(path) <==> earlier.contains(path) || path == key@ by {
                    if earlier.contains(path) {
                        let k = choose|k: int| 0 <= k < earlier.len() && earlier[k] == path;
                        assert(files[k] == path);
                    }
                    if path == key@ {
                        assert(files[earlier.len() as int] == path);
                    }
                }
                assert(action_views(actions@) =~= action_views(done).push(actions@.last()@));
                assert(restore_steps(files, goal) =~= restore_steps(earlier, goal).push(actions@.last()@));
                assert(action_views(actions@) =~= middle + restore_steps(files, goal));
            }
        }
        proof {
            assert forall|a: int| 0 <= a < files.len() && i + 1 < target.items@.len() implies before(#[trigger] files[a], target.items@[i + 1].0@) by {
                if a < earlier.len() {
                    assert(files[a] == earlier[a]);
                    lemma_before_transitive(files[a], key@, target.items@[i + 1].0@);
                }
            }
        }
    }
    proof {
        lemma_manifest_domain(target);
        let steps = make_steps(dir_list) + restore_steps(files, goal);
        assert(writes_out(steps, goal, dir_list, files));
        assert(is_writing(steps, goal, dir_list.len(), files.len()));
        assert(action_views(actions@) =~= start + steps);
        assert(appends_writing(start, action_views(actions@), goal, dir_list.len(), files.len()));
    }
    (restored, dirs.len())
}

/// The steps are those that bring `current` to `target`: what does not belong
/// there goes, read-only files that are to be restored are made writable, and
/// the target is written out.
pub open spec fn rolls_back(
    steps: Seq<FsActionView>,
    current: Map<Seq<char>, EntryView>,
    target: Map<Seq<char>, EntryView>,
    removals: Seq<Seq<char>>,
    locked: Seq<Seq<char>>,
    dirs: Seq<Seq<char>>,
    files: Seq<Seq<char>>,
) -> bool {
    &&& is_removal_list(removals, current, target)
    &&& is_locked_list(locked, current, target)
    &&& is_dir_list(dirs, target)
    &&& is_file_list(files, target)
    &&& steps == remove_steps(removals) + (unlock_steps(locked) + (make_steps(dirs) + restore_steps(files, target)))
}

/// The steps bring `current` to `target`, and the counts tell how many paths
/// are removed, directories made and files restored.
pub open spec fn is_rollback(
    steps: Seq<FsActionView>,
    current: Map<Seq<char>, EntryView>,
    target: Map<Seq<char>, EntryView>,
    removed: nat,
    made: nat,
    restored: nat,
) -> bool {
    exists|removals: Seq<Seq<char>>, locked: Seq<Seq<char>>, dirs: Seq<Seq<char>>, files: Seq<Seq<char>>|
        #[trigger] rolls_back(steps, current, target, removals, locked, dirs, files) && removed == removals.len() && made == dirs.len()
            && restored == files.len()
}

/// Appends the steps that remove paths.
pub fn push_removals(actions: &mut Vec<FsAction>, list: &Vec<String>)
    ensures
        action_views(final(actions)@) == action_views(old(actions)@) + remove_steps(views(list@)),
{
    let ghost start = action_views(actions@);
    let ghost keys = views(list@);
    assert(action_views(actions@) =~= start + remove_steps(keys.take(0)));
    for i in 0..list.len()
        invariant
            keys == views(list@),
            action_views(actions@) == start + remove_steps(keys.take(i as int)),
    {
        let ghost done = actions@;
        actions.push(FsAction::Remove(list[i].clone()));
        assert(action_views(actions@) =~= action_views(done).push(FsActionView::Remove(keys[i as int])));
        assert(keys.take(i + 1) =~= keys.take(i as int).push(keys[i as int]));
        assert(action_views(actions@) =~= start + remove_steps(keys.take(i + 1)));
    }
    assert(keys.take(list@.len() as int) =~= keys);
}

/// Appends the steps that make files writable.
pub fn push_unlocks(actions: &mut Vec<FsAction>, list: &Vec<String>)
    ensures
        action_views(final(actions)@) == action_views(old(actions)@) + unlock_steps(views(list@)),
{
    let ghost start = action_views(actions@);
    let ghost keys = views(list@);
    assert(action_views(actions@) =~= start + unlock_steps(keys.take(0)));
    for i in 0..list.len()
        invariant
            keys == views(list@),
            action_views(actions@) == start + unlock_steps(keys.take(i as int)),
    {
        let ghost done = actions@;
        actions.push(FsAction::SetReadonly { path: list[i].clone(), readonly: false });
        assert(action_views(actions@) =~= action_views(done).push(
            FsActionView::SetReadonly { path: keys[i as int], readonly: false },
        ));
        assert(keys.take(i + 1) =~= keys.take(i as int).push(keys[i as int]));
        assert(action_views(actions@) =~= start + unlock_steps(keys.take(i + 1)));
    }
    assert(keys.take(list@.len() as int) =~= keys);
}

} // verus!
