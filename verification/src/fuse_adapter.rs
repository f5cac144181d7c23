//! The decisions of the recording mount: inode numbers, names and what is recorded.

use crate::run_id::RunId;
use crate::string_map::StringMap;
use crate::text::{char_views, chars_of, join, join_pieces, slice_of};
use crate::versioned_fs::entry::text_view;
use crate::versioned_fs::paths::{
    components, join_path, names, names_of, part_views, path_components, pushed, PathPart,
};
use std::collections::BTreeMap;
use vstd::prelude::*;

verus! {

/// What to mount where, and for which run.
pub struct FuseMountSpec {
    pub backing: String,
    pub mountpoint: String,
    pub workspace: String,
    pub run_id: RunId,
    pub commit_on_unmount: bool,
}

/// The number of the root.
pub const ROOT_INO: u64 = 1;

/// What kind of file a directory entry is.
#[derive(Clone, Copy, Debug, PartialEq, Eq, Structural)]
pub enum FileKind {
    NamedPipe,
    CharDevice,
    BlockDevice,
    Directory,
    RegularFile,
    Symlink,
    Socket,
}

/// One entry of a directory listing.
pub struct DirectoryEntry {
    pub ino: u64,
    pub kind: FileKind,
    pub name: String,
}

/// The mathematical value of a directory entry.
pub struct DirectoryEntryView {
    pub ino: u64,
    pub kind: FileKind,
    pub name: Seq<char>,
}

impl View for DirectoryEntry {
    type V = DirectoryEntryView;

    open spec fn view(&self) -> DirectoryEntryView {
        DirectoryEntryView { ino: self.ino, kind: self.kind, name: self.name@ }
    }
}

/// The values of a listing.
pub open spec fn entry_views(entries: Seq<DirectoryEntry>) -> Seq<DirectoryEntryView> {
    entries.map_values(|e: DirectoryEntry| e@)
}

/// The entries of a directory itself and of what is above it: the root is
/// shown as what is above every directory but itself.
pub open spec fn dot_entries(ino: u64) -> Seq<DirectoryEntryView> {
    let own = seq![DirectoryEntryView { ino, kind: FileKind::Directory, name: "."@ }];
    if ino == ROOT_INO {
        own
    } else {
        own.push(DirectoryEntryView { ino: ROOT_INO, kind: FileKind::Directory, name: ".."@ })
    }
}

/// The entries of the children of a directory, with the numbers of a table.
pub open spec fn child_entries(relative: Seq<char>, children: Seq<(String, FileKind)>, numbers: Map<Seq<char>, u64>) -> Seq<DirectoryEntryView> {
    Seq::new(
        children.len(),
        |i: int| DirectoryEntryView {
            ino: numbers[pushed(relative, children[i].0@)],
            kind: children[i].1,
            name: children[i].0@,
        },
    )
}

/// A mode that lets nobody write.
pub fn mode_is_readonly(mode: u32) -> (readonly: bool)
    ensures
        readonly == (mode & 0o222 == 0),
{
    mode & 0o222 == 0
}

/// The permission bits of a mode.
pub fn permission_bits(mode: u32) -> (bits: u16)
    ensures
        bits == mode & 0o7777,
{
    assert(mode & 0o7777 <= 0o7777) by (bit_vector);
    (mode & 0o7777) as u16
}

/// The text under which a path is recorded: its names, joined by slashes.
pub fn relative_to_string(path: &str) -> (text: String)
    ensures
        text@ == join(names(components(path@)), '/'),
{
    let chars = chars_of(path);
    let parts = path_components(chars.as_slice());
    let ghost list = components(path@);
    let mut found: Vec<Vec<char>> = Vec::new();
    assert(char_views(found@) =~= names_of(list, 0));
    for i in 0..parts.len()
        invariant
            list == part_views(parts@),
            char_views(found@) == names_of(list, i as int),
    {
        assert(list[i as int] == parts@[i as int]@);
        match &parts[i] {
            PathPart::Name(name) => {
                let ghost start = found@;
                let copy = slice_of(name.as_slice(), 0, name.len());
                assert(copy@ =~= name@);
                found.push(copy);
                assert(char_views(found@) =~= char_views(start).push(name@));
            },
            _ => {},
        }
    }
    join_pieces(found.as_slice(), '/')
}

/// Which path each number stands for, and which number each path has.
pub struct InodeTable {
    pub by_ino: BTreeMap<u64, String>,
    pub by_path: StringMap<u64>,
    pub next_ino: u64,
}

impl InodeTable {
    /// The path of a number.
    pub open spec fn spec_path(&self, ino: u64) -> Option<Seq<char>> {
        if self.by_ino@.contains_key(ino) {
            Some(self.by_ino@[ino]@)
        } else {
            None
        }
    }

    /// Every path's number stands for the path; all numbers in use are below the next.
    pub open spec fn wf(&self) -> bool {
        &&& self.by_path.wf()
        &&& forall|ino: u64| #[trigger] self.by_ino@.contains_key(ino) ==> ino < self.next_ino
        &&& forall|path: Seq<char>|
            #[trigger] self.by_path@.contains_key(path) ==> self.spec_path(self.by_path@[path]) == Some(path)
    }
}

/// The numbers of paths and the next new number, once the first `n` of some
/// paths have one: a path keeps its number, and a new path gets the next.
pub open spec fn given_numbers(numbers: Map<Seq<char>, u64>, next: nat, paths: Seq<Seq<char>>, n: int) -> (Map<Seq<char>, u64>, nat)
    decreases n,
{
    if n <= 0 {
        (numbers, next)
    } else {
        let (so_far, number) = given_numbers(numbers, next, paths, n - 1);
        if so_far.contains_key(paths[n - 1]) {
            (so_far, number)
        } else {
            (so_far.insert(paths[n - 1], number as u64), number + 1)
        }
    }
}

/// The paths of the children of a directory.
pub open spec fn child_paths(relative: Seq<char>, children: Seq<(String, FileKind)>) -> Seq<Seq<char>> {
    children.map_values(|child: (String, FileKind)| pushed(relative, child.0@))
}

impl InodeTable {
    /// The table of a new mount: the root has the empty path.
    pub fn new() -> (t: Self)
        ensures
            t.wf(),
            t.next_ino == 2,
            t.spec_path(ROOT_INO) == Some(Seq::<char>::empty()),
            t.by_path@ == Map::<Seq<char>, u64>::empty().insert(Seq::empty(), ROOT_INO),
    {
        broadcast use vstd::std_specs::btree::group_btree_axioms;

        let mut by_ino: BTreeMap<u64, String> = BTreeMap::new();
        let _ = by_ino.insert(ROOT_INO, String::new());
        let mut by_path: StringMap<u64> = StringMap::new();
        by_path.insert(String::new(), ROOT_INO);
        let t = InodeTable { by_ino, by_path, next_ino: 2 };
        assert(t.by_ino@[ROOT_INO]@ =~= Seq::<char>::empty());
        t
    }

    /// The path of a number, where it is in use.
    pub fn relative_for_ino(&self, ino: u64) -> (path: Option<String>)
        ensures
            text_view(path) == self.spec_path(ino),
    {
        broadcast use vstd::std_specs::btree::group_btree_axioms;

        match self.by_ino.get(&ino) {
            Some(path) => Some(path.clone()),
            None => None,
        }
    }

    /// The path of a number below the backing directory.
    pub fn path_for_ino(&self, backing: &str, ino: u64) -> (path: Option<String>)
        ensures
            text_view(path) == match self.spec_path(ino) {
                Some(relative) => Some(pushed(backing@, relative)),
                None => None,
            },
    {
        match self.relative_for_ino(ino) {
            Some(relative) => Some(join_path(backing, relative.as_str())),
            None => None,
        }
    }

    /// The path of a child of a directory.
    pub fn child_relative(&self, parent: u64, name: &str) -> (path: Option<String>)
        ensures
            text_view(path) == match self.spec_path(parent) {
                Some(relative) => Some(pushed(relative, name@)),
                None => None,
            },
    {
        match self.relative_for_ino(parent) {
            Some(relative) => Some(join_path(relative.as_str(), name)),
            None => None,
        }
    }

    /// The path of a child below the backing directory, and the child's own.
    pub fn child_path(&self, backing: &str, parent: u64, name: &str) -> (paths: Option<(String, String)>)
        ensures
            match (paths, self.spec_path(parent)) {
                (Some(pair), Some(relative)) => {
                    &&& pair.1@ == pushed(relative, name@)
                    &&& pair.0@ == pushed(backing@, pushed(relative, name@))
                },
                (None, None) => true,
                _ => false,
            },
    {
        match self.child_relative(parent, name) {
            Some(relative) => Some((join_path(backing, relative.as_str()), relative)),
            None => None,
        }
    }

    /// The number of a path: the one that it has, else a new one.
    pub fn remember_path(&mut self, relative: String) -> (ino: u64)
        requires
            old(self).wf(),
            old(self).next_ino < u64::MAX,
        ensures
            final(self).wf(),
            old(self).by_path@.contains_key(relative@) ==> ino == old(self).by_path@[relative@] && *final(self) == *old(self),
            !old(self).by_path@.contains_key(relative@) ==> {
                &&& ino == old(self).next_ino
                &&& final(self).next_ino == old(self).next_ino + 1
                &&& final(self).by_path@ == old(self).by_path@.insert(relative@, ino)
                &&& forall|other: u64| other != ino ==> #[trigger] final(self).spec_path(other) == old(self).spec_path(other)
            },
            final(self).spec_path(ino) == Some(relative@),
    {
        broadcast use vstd::std_specs::btree::group_btree_axioms;

        if let Some(ino) = self.by_path.get(relative.as_str()) {
            return *ino;
        }
        let ino: u64 = self.next_ino;
        self.next_ino = ino + 1;
        self.by_path.insert(relative.clone(), ino);
        let _ = self.by_ino.insert(ino, relative);
        proof {
            assert forall|path: Seq<char>| #[trigger] self.by_path@.contains_key(path) implies self.spec_path(self.by_path@[path]) == Some(path) by {
                if path != relative@ {
                    assert(old(self).by_path@.contains_key(path));
                    assert(old(self).by_ino@.contains_key(old(self).by_path@[path]));
                }
            }
        }
        ino
    }

    /// Forgets a path and its number.
    pub fn forget_path(&mut self, relative: &str)
        requires
            old(self).wf(),
        ensures
            final(self).wf(),
            final(self).next_ino == old(self).next_ino,
            final(self).by_path@ == old(self).by_path@.remove(relative@),
            old(self).by_path@.contains_key(relative@) ==> {
                let ino = old(self).by_path@[relative@];
                &&& final(self).spec_path(ino) is None
                &&& forall|other: u64| other != ino ==> #[trigger] final(self).spec_path(other) == old(self).spec_path(other)
            },
            !old(self).by_path@.contains_key(relative@) ==> *final(self) == *old(self),
    {
        broadcast use vstd::std_specs::btree::group_btree_axioms;

        let number: u64 = match self.by_path.get(relative) {
            Some(ino) => *ino,
            None => {
                assert(self.by_path@.remove(relative@) =~= self.by_path@);
                return;
            },
        };
        self.by_path.remove(relative);
        let _ = self.by_ino.remove(&number);
        proof {
            assert forall|path: Seq<char>| #[trigger] self.by_path@.contains_key(path) implies self.spec_path(self.by_path@[path]) == Some(path) by {
                assert(old(self).by_path@.contains_key(path));
                assert(old(self).spec_path(number) == Some(relative@));
                assert(old(self).spec_path(old(self).by_path@[path]) == Some(path));
            }
        }
    }

    /// Gives a path's number to another path.
    pub fn move_path(&mut self, source: &str, target: String)
        requires
            old(self).wf(),
        ensures
            final(self).wf(),
            final(self).next_ino == old(self).next_ino,
            old(self).by_path@.contains_key(source@) ==> {
                let ino = old(self).by_path@[source@];
                &&& final(self).by_path@ == old(self).by_path@.remove(source@).insert(target@, ino)
                &&& final(self).spec_path(ino) == Some(target@)
                &&& forall|other: u64| other != ino ==> #[trigger] final(self).spec_path(other) == old(self).spec_path(other)
            },
            !old(self).by_path@.contains_key(source@) ==> *final(self) == *old(self),
    {
        broadcast use vstd::std_specs::btree::group_btree_axioms;

        let number: u64 = match self.by_path.get(source) {
            Some(ino) => *ino,
            None => {
                return;
            },
        };
        self.by_path.remove(source);
        self.by_path.insert(target.clone(), number);
        let _ = self.by_ino.insert(number, target);
        proof {
            assert(old(self).by_ino@.contains_key(number));
            assert forall|path: Seq<char>| #[trigger] self.by_path@.contains_key(path) implies self.spec_path(self.by_path@[path]) == Some(path) by {
                if path != target@ {
                    assert(old(self).by_path@.contains_key(path));
                    assert(old(self).spec_path(number) == Some(source@));
                    assert(old(self).spec_path(old(self).by_path@[path]) == Some(path));
                }
            }
        }
    }

    /// Lists a directory: itself, the root where it is not the root, and its
    /// children in the order given; children without a number get a new one.
    pub fn list_directory(&mut self, ino: u64, children: Vec<(String, FileKind)>) -> (entries: Option<Vec<DirectoryEntry>>)
        requires
            old(self).wf(),
            old(self).next_ino + children@.len() <= u64::MAX,
        ensures
            final(self).wf(),
            final(self).next_ino >= old(self).next_ino,
            forall|path: Seq<char>|
                #[trigger] final(self).by_path@.contains_key(path) && !old(self).by_path@.contains_key(path) ==> final(self).by_path@[path]
                    >= old(self).next_ino,
            match (entries, old(self).spec_path(ino)) {
                (Some(list), Some(relative)) => {
                    &&& entry_views(list@) == dot_entries(ino) + child_entries(relative, children@, final(self).by_path@)
                    &&& (final(self).by_path@, final(self).next_ino as nat) == given_numbers(
                        old(self).by_path@,
                        old(self).next_ino as nat,
                        child_paths(relative, children@),
                        children@.len() as int,
                    )
                    &&& forall|path: Seq<char>| #[trigger] old(self).by_path@.contains_key(path) ==> final(self).by_path@[path] == old(self).by_path@[path]
                    &&& forall|number: u64| #[trigger] old(self).spec_path(number) is Some ==> final(self).spec_path(number) == old(self).spec_path(number)
                },
                (None, None) => *final(self) == *old(self),
                _ => false,
            },
    {
        let relative = match self.relative_for_ino(ino) {
            Some(relative) => relative,
            None => {
                return None;
            },
        };
        let mut list: Vec<DirectoryEntry> = Vec::new();
        list.push(DirectoryEntry { ino, kind: FileKind::Directory, name: ".".to_string() });
        assert(entry_views(list@) =~= seq![DirectoryEntryView { ino, kind: FileKind::Directory, name: "."@ }]);
        if ino != ROOT_INO {
            let ghost start = entry_views(list@);
            list.push(DirectoryEntry { ino: ROOT_INO, kind: FileKind::Directory, name: "..".to_string() });
            assert(entry_views(list@) =~= start.push(DirectoryEntryView { ino: ROOT_INO, kind: FileKind::Directory, name: ".."@ }));
        }
        let ghost head = dot_entries(ino);
        let ghost paths = child_paths(relative@, children@);
        assert(entry_views(list@) =~= head + child_entries(relative@, children@.take(0), self.by_path@));
        for i in 0..children.len()
            invariant
                self.wf(),
                old(self).wf(),
                head == dot_entries(ino),
                paths == child_paths(relative@, children@),
                self.next_ino + (children@.len() - i) <= u64::MAX,
                self.next_ino >= old(self).next_ino,
                entry_views(list@) == head + child_entries(relative@, children@.take(i as int), self.by_path@),
                (self.by_path@, self.next_ino as nat) == given_numbers(
                    old(self).by_path@,
                    old(self).next_ino as nat,
                    paths,
                    i as int,
                ),
                forall|j: int| 0 <= j < i ==> self.by_path@.contains_key(#[trigger] paths[j]),
                forall|path: Seq<char>|
                    #[trigger] self.by_path@.contains_key(path) && !old(self).by_path@.contains_key(path) ==> self.by_path@[path] >= old(self).next_ino,
                forall|path: Seq<char>|
                    #[trigger] old(self).by_path@.contains_key(path) ==> self.by_path@.contains_key(path) && self.by_path@[path] == old(self).by_path@[path],
                forall|number: u64| #[trigger] old(self).spec_path(number) is Some ==> self.spec_path(number) == old(self).spec_path(number),
        {
            let ghost before = *self;
            let ghost listed = entry_views(list@);
            let key = join_path(relative.as_str(), children[i].0.as_str());
            assert(paths[i as int] == key@);
            let number: u64 = self.remember_path(key);
            list.push(DirectoryEntry { ino: number, kind: children[i].1, name: children[i].0.clone() });
            proof {
                let front = children@.take(i as int);
                let more = children@.take(i + 1);
                assert(more =~= front.push(children@[i as int]));
                let entry = DirectoryEntryView { ino: number, kind: children@[i as int].1, name: children@[i as int].0@ };
                assert(entry_views(list@) =~= listed.push(entry));
                assert forall|j: int| 0 <= j < i implies before.by_path@.contains_key(pushed(relative@, (#[trigger] front[j]).0@)) by {
                    assert(before.by_path@.contains_key(paths[j]));
                }
                assert(child_entries(relative@, more, self.by_path@) =~= child_entries(relative@, front, before.by_path@).push(entry));
                assert(entry_views(list@) =~= head + child_entries(relative@, more, self.by_path@));
                assert forall|number: u64| #[trigger] old(self).spec_path(number) is Some implies self.spec_path(number) == old(self).spec_path(number) by {
                    assert(before.spec_path(number) == old(self).spec_path(number));
                    assert(before.by_ino@.contains_key(number));
                }
            }
        }
        assert(children@.take(children@.len() as int) =~= children@);
        Some(list)
    }
}

/// Two paths never have one number.
pub proof fn two_paths_never_share_a_number(table: InodeTable, a: Seq<char>, b: Seq<char>)
    requires
        table.wf(),
        table.by_path@.contains_key(a),
        table.by_path@.contains_key(b),
        a != b,
    ensures
        table.by_path@[a] != table.by_path@[b],
{
}

} // verus!
