//! The entries of a checkpoint manifest.

use crate::string_map::StringMap;
use vstd::prelude::*;

verus! {

/// What a manifest records of one path.
#[derive(Debug, PartialEq, Eq)]
pub enum WorkspaceEntry {
    File { size: u64, hash: String, object: String, readonly: bool },
    Directory,
}

/// The mathematical value of an entry.
pub enum EntryView {
    File { size: u64, hash: Seq<char>, object: Seq<char>, readonly: bool },
    Directory,
}

impl View for WorkspaceEntry {
    type V = EntryView;

    open spec fn view(&self) -> EntryView {
        match *self {
            WorkspaceEntry::File { size, hash, object, readonly } => EntryView::File {
                size,
                hash: hash@,
                object: object@,
                readonly,
            },
            WorkspaceEntry::Directory => EntryView::Directory,
        }
    }
}

impl Clone for WorkspaceEntry {
    fn clone(&self) -> (copy: Self)
        ensures
            copy == *self,
    {
        match self {
            WorkspaceEntry::File { size, hash, object, readonly } => WorkspaceEntry::File {
                size: *size,
                hash: hash.clone(),
                object: object.clone(),
                readonly: *readonly,
            },
            WorkspaceEntry::Directory => WorkspaceEntry::Directory,
        }
    }
}

impl WorkspaceEntry {
    /// Whether two entries record the same.
    pub fn same(&self, other: &WorkspaceEntry) -> (r: bool)
        ensures
            r == (self@ == other@),
    {
        match (self, other) {
            (
                WorkspaceEntry::File { size: s1, hash: h1, object: o1, readonly: r1 },
                WorkspaceEntry::File { size: s2, hash: h2, object: o2, readonly: r2 },
            ) => *s1 == *s2 && *h1 == *h2 && *o1 == *o2 && *r1 == *r2,
            (WorkspaceEntry::Directory, WorkspaceEntry::Directory) => true,
            _ => false,
        }
    }

    /// Whether the entry is a directory.
    pub fn is_directory(&self) -> (r: bool)
        ensures
            r == (self@ is Directory),
    {
        matches!(self, WorkspaceEntry::Directory)
    }
}

/// The value of an optional entry.
pub open spec fn entry_view(entry: Option<WorkspaceEntry>) -> Option<EntryView> {
    match entry {
        Some(e) => Some(e@),
        None => None,
    }
}

/// The value of an optional string.
pub open spec fn text_view(text: Option<String>) -> Option<Seq<char>> {
    match text {
        Some(s) => Some(s@),
        None => None,
    }
}

/// The manifest that a map of entries stands for.
pub open spec fn manifest(entries: Map<Seq<char>, WorkspaceEntry>) -> Map<Seq<char>, EntryView> {
    entries.map_values(|e: WorkspaceEntry| e@)
}

/// What a manifest records of a path.
pub open spec fn lookup(m: Map<Seq<char>, EntryView>, path: Seq<char>) -> Option<EntryView> {
    if m.contains_key(path) {
        Some(m[path])
    } else {
        None
    }
}

/// Copies an optional entry.
pub fn clone_entry(entry: &Option<WorkspaceEntry>) -> (copy: Option<WorkspaceEntry>)
    ensures
        copy == *entry,
{
    match entry {
        Some(e) => Some(e.clone()),
        None => None,
    }
}

/// Copies an optional string.
pub fn clone_text(text: &Option<String>) -> (copy: Option<String>)
    ensures
        copy == *text,
{
    match text {
        Some(s) => Some(s.clone()),
        None => None,
    }
}

/// Copies a map of entries.
pub fn clone_entries(entries: &StringMap<WorkspaceEntry>) -> (copy: StringMap<WorkspaceEntry>)
    requires
        entries.wf(),
    ensures
        copy.wf(),
        copy.items@ == entries.items@,
        copy@ == entries@,
{
    let mut copy: StringMap<WorkspaceEntry> = StringMap::new();
    assert(entries.items@.take(0) =~= copy.items@);
    for i in 0..entries.items.len()
        invariant
            entries.wf(),
            copy.wf(),
            copy.items@ == entries.items@.take(i as int),
    {
        let key = entries.items[i].0.clone();
        let value = entries.items[i].1.clone();
        assert(entries.items@.take(i + 1) =~= entries.items@.take(i as int).push(entries.items@[i as int]));
        copy.push_last(key, value);
    }
    assert(entries.items@.take(entries.items@.len() as int) =~= entries.items@);
    copy
}

} // verus!
