//! Differences between two manifests, with renames recognised.

use crate::number::{decimal, decimal_text};
use crate::string_map::{has_key, key_index, lemma_key_index, pairs_map, rising, StringMap};
use crate::text::{
    before, comes_before, lemma_before_asymmetric, lemma_before_total, lemma_before_transitive,
};
use crate::versioned_fs::change_order::{insert_change, sorts};
use crate::versioned_fs::entry::{
    clone_entry, clone_text, entry_view, lookup, manifest, text_view, EntryView, WorkspaceEntry,
};
use vstd::prelude::*;

verus! {

/// How a path changed between two manifests.
#[derive(Debug, Clone, Copy, PartialEq, Eq, Structural)]
pub enum WorkspaceChangeKind {
    Added,
    Modified,
    Deleted,
    Renamed,
    TypeChanged,
}

/// One changed path.
#[derive(Debug, PartialEq, Eq)]
pub struct WorkspaceChange {
    pub kind: WorkspaceChangeKind,
    pub path: String,
    pub source_path: Option<String>,
    pub before: Option<WorkspaceEntry>,
    pub after: Option<WorkspaceEntry>,
}

/// The changes that lead from one checkpoint to another.
#[derive(Debug, PartialEq, Eq)]
pub struct WorkspaceDiff {
    pub from: String,
    pub to: String,
    pub changes: Vec<WorkspaceChange>,
}

/// The mathematical value of a change.
pub struct ChangeView {
    pub kind: WorkspaceChangeKind,
    pub path: Seq<char>,
    pub source_path: Option<Seq<char>>,
    pub before: Option<EntryView>,
    pub after: Option<EntryView>,
}

impl View for WorkspaceChange {
    type V = ChangeView;

    open spec fn view(&self) -> ChangeView {
        ChangeView {
            kind: self.kind,
            path: self.path@,
            source_path: text_view(self.source_path),
            before: entry_view(self.before),
            after: entry_view(self.after),
        }
    }
}

impl Clone for WorkspaceChange {
    fn clone(&self) -> (copy: Self)
        ensures
            copy == *self,
    {
        WorkspaceChange {
            kind: self.kind,
            path: self.path.clone(),
            source_path: clone_text(&self.source_path),
            before: clone_entry(&self.before),
            after: clone_entry(&self.after),
        }
    }
}

/// The value of an optional change.
pub open spec fn change_view(change: Option<WorkspaceChange>) -> Option<ChangeView> {
    match change {
        Some(c) => Some(c@),
        None => None,
    }
}

/// The values of a list of changes.
pub open spec fn change_views(changes: Seq<WorkspaceChange>) -> Seq<ChangeView> {
    changes.map_values(|c: WorkspaceChange| c@)
}

/// How a path changed, given what the two manifests record of it.
pub open spec fn change_kind(
    before: Option<EntryView>,
    after: Option<EntryView>,
) -> Option<WorkspaceChangeKind> {
    match (before, after) {
        (None, None) => None,
        (None, Some(_)) => Some(WorkspaceChangeKind::Added),
        (Some(_), None) => Some(WorkspaceChangeKind::Deleted),
        (Some(b), Some(a)) => if (b is Directory) != (a is Directory) {
            Some(WorkspaceChangeKind::TypeChanged)
        } else if b != a {
            Some(WorkspaceChangeKind::Modified)
        } else {
            None
        },
    }
}

/// The change of every path that the two manifests record differently.
pub open spec fn path_changes(
    from: Map<Seq<char>, EntryView>,
    to: Map<Seq<char>, EntryView>,
) -> Map<Seq<char>, ChangeView> {
    Map::new(
        |path: Seq<char>| change_kind(lookup(from, path), lookup(to, path)) is Some,
        |path: Seq<char>|
            ChangeView {
                kind: change_kind(lookup(from, path), lookup(to, path))->0,
                path,
                source_path: None,
                before: lookup(from, path),
                after: lookup(to, path),
            },
    )
}

/// The paths of a list of changes rise strictly.
pub open spec fn paths_rise(list: Seq<ChangeView>) -> bool {
    forall|i: int, j: int| 0 <= i < j < list.len() ==> before(#[trigger] list[i].path, #[trigger] list[j].path)
}

/// The list holds the values of the map, in the order of their paths.
pub open spec fn lists(list: Seq<ChangeView>, m: Map<Seq<char>, ChangeView>) -> bool {
    &&& paths_rise(list)
    &&& forall|i: int| 0 <= i < list.len() ==> m.contains_key(#[trigger] list[i].path) && m[list[i].path] == list[i]
    &&& forall|path: Seq<char>| #[trigger] m.contains_key(path) ==> exists|i: int| 0 <= i < list.len() && list[i].path == path
}

/// The values of the map in the order of their paths.
pub open spec fn listing(m: Map<Seq<char>, ChangeView>) -> Seq<ChangeView> {
    choose|list: Seq<ChangeView>| lists(list, m)
}

/// A map is listed in one way only.
pub proof fn lemma_listing_unique(a: Seq<ChangeView>, b: Seq<ChangeView>, m: Map<Seq<char>, ChangeView>)
    requires
        lists(a, m),
        lists(b, m),
    ensures
        a == b,
    decreases a.len(),
{
    if a.len() == 0 {
        if b.len() > 0 {
            assert(m.contains_key(b[0].path));
        }
        assert(a =~= b);
    } else {
        assert(m.contains_key(a[0].path));
        if b.len() == 0 {
            assert(false);
        }
        let la = a.last();
        let lb = b.last();
        assert(m.contains_key(a[a.len() - 1].path));
        assert(m.contains_key(b[b.len() - 1].path));
        let i = choose|i: int| 0 <= i < b.len() && b[i].path == la.path;
        let j = choose|j: int| 0 <= j < a.len() && a[j].path == lb.path;
        if i != b.len() - 1 {
            assert(before(b[i].path, b[b.len() - 1].path));
            if j != a.len() - 1 {
                assert(before(a[j].path, a[a.len() - 1].path));
                lemma_before_asymmetric(la.path, lb.path);
            } else {
                lemma_before_asymmetric(la.path, lb.path);
            }
        }
        assert(la == lb);
        let rest = m.remove(la.path);
        lemma_listing_drop_last(a, m);
        lemma_listing_drop_last(b, m);
        lemma_listing_unique(a.drop_last(), b.drop_last(), rest);
        assert(a =~= a.drop_last().push(la));
        assert(b =~= b.drop_last().push(lb));
    }
}

/// Without its last element a listing lists the map without that path.
proof fn lemma_listing_drop_last(list: Seq<ChangeView>, m: Map<Seq<char>, ChangeView>)
    requires
        lists(list, m),
        list.len() > 0,
    ensures
        lists(list.drop_last(), m.remove(list.last().path)),
{
    let short = list.drop_last();
    let last = list.len() - 1;
    let rest = m.remove(list.last().path);
    assert forall|i: int| 0 <= i < short.len() implies rest.contains_key(#[trigger] short[i].path) && rest[short[i].path] == short[i] by {
        assert(short[i] == list[i]);
        assert(before(list[i].path, list[last].path));
        lemma_before_asymmetric(list[i].path, list[last].path);
    }
    assert forall|path: Seq<char>| #[trigger] rest.contains_key(path) implies exists|i: int| 0 <= i < short.len() && short[i].path == path by {
        assert(m.contains_key(path));
        let i = choose|i: int| 0 <= i < list.len() && list[i].path == path;
        assert(short[i].path == path);
    }
}

/// A list that lists the map is its listing.
pub proof fn lemma_listing(list: Seq<ChangeView>, m: Map<Seq<char>, ChangeView>)
    requires
        lists(list, m),
    ensures
        listing(m) == list,
        lists(listing(m), m),
{
    lemma_listing_unique(listing(m), list, m);
}

/// A map with finitely many paths can be listed.
pub proof fn lemma_listing_exists(m: Map<Seq<char>, ChangeView>)
    requires
        m.dom().finite(),
        forall|path: Seq<char>| #[trigger] m.contains_key(path) ==> m[path].path == path,
    ensures
        lists(listing(m), m),
    decreases m.dom().len(),
{
    if m.dom().len() == 0 {
        assert(m.dom() =~= Set::empty());
        assert(lists(Seq::empty(), m));
    } else {
        let path = m.dom().choose();
        let rest = m.remove(path);
        assert(rest.dom() =~= m.dom().remove(path));
        lemma_listing_exists(rest);
        let list = listing(rest);
        let at = lemma_listing_position(list, path, list.len() as int);
        let grown = list.insert(at, m[path]);
        assert forall|i: int, j: int| 0 <= i < j < grown.len() implies before(#[trigger] grown[i].path, #[trigger] grown[j].path) by {
            let a = if i < at { i } else { i - 1 };
            let b = if j < at { j } else { j - 1 };
            if i != at {
                assert(grown[i] == list[a]);
                assert(rest.contains_key(list[a].path));
            }
            if j != at {
                assert(grown[j] == list[b]);
                assert(rest.contains_key(list[b].path));
            }
            if i == at {
                lemma_before_total(path, list[b].path);
            }
        }
        assert forall|i: int| 0 <= i < grown.len() implies m.contains_key(#[trigger] grown[i].path) && m[grown[i].path] == grown[i] by {
            let a = if i < at { i } else { i - 1 };
            if i != at {
                assert(grown[i] == list[a]);
                assert(rest.contains_key(list[a].path));
            }
        }
        assert forall|p: Seq<char>| #[trigger] m.contains_key(p) implies exists|i: int| 0 <= i < grown.len() && grown[i].path == p by {
            if p == path {
                assert(grown[at].path == p);
            } else {
                assert(rest.contains_key(p));
                let i = choose|i: int| 0 <= i < list.len() && list[i].path == p;
                let k = if i < at { i } else { i + 1 };
                assert(grown[k].path == p);
            }
        }
        assert(lists(grown, m));
    }
}

/// Where a path stands among rising paths.
proof fn lemma_listing_position(list: Seq<ChangeView>, path: Seq<char>, n: int) -> (at: int)
    requires
        paths_rise(list),
        0 <= n <= list.len(),
    ensures
        0 <= at <= n,
        forall|i: int| 0 <= i < at ==> before(#[trigger] list[i].path, path),
        forall|i: int| at <= i < n ==> !before(#[trigger] list[i].path, path),
    decreases n,
{
    if n == 0 {
        0
    } else if before(list[n - 1].path, path) {
        assert forall|i: int| 0 <= i < n implies before(#[trigger] list[i].path, path) by {
            if i < n - 1 {
                lemma_before_transitive(list[i].path, list[n - 1].path, path);
            }
        }
        n
    } else {
        lemma_listing_position(list, path, n - 1)
    }
}

/// The text by which equal files are recognised; directories have none.
pub open spec fn fingerprint(entry: EntryView) -> Option<Seq<char>> {
    match entry {
        EntryView::File { size, hash, .. } => Some("file:"@ + decimal(size as nat) + ":"@ + hash),
        EntryView::Directory => None,
    }
}

/// The fingerprint of an added file.
pub open spec fn added_print(c: ChangeView) -> Option<Seq<char>> {
    match c.after {
        Some(entry) => if c.kind == WorkspaceChangeKind::Added {
            fingerprint(entry)
        } else {
            None
        },
        None => None,
    }
}

/// The fingerprint of a deleted file.
pub open spec fn deleted_print(c: ChangeView) -> Option<Seq<char>> {
    match c.before {
        Some(entry) => if c.kind == WorkspaceChangeKind::Deleted {
            fingerprint(entry)
        } else {
            None
        },
        None => None,
    }
}

/// How many of the first `n` changes add a file with this fingerprint.
pub open spec fn count_added(list: Seq<ChangeView>, print: Seq<char>, n: int) -> nat
    decreases n,
{
    if n <= 0 {
        0
    } else {
        count_added(list, print, n - 1) + (if added_print(list[n - 1]) == Some(print) {
            1nat
        } else {
            0nat
        })
    }
}

/// How many of the first `n` changes delete a file with this fingerprint.
pub open spec fn count_deleted(list: Seq<ChangeView>, print: Seq<char>, n: int) -> nat
    decreases n,
{
    if n <= 0 {
        0
    } else {
        count_deleted(list, print, n - 1) + (if deleted_print(list[n - 1]) == Some(print) {
            1nat
        } else {
            0nat
        })
    }
}

/// The deletion at `d` and the addition at `a` are one rename: among the changes
/// with their fingerprint, both are the first, or both the second, and so on.
pub open spec fn renames(list: Seq<ChangeView>, d: int, a: int) -> bool {
    &&& 0 <= d < list.len()
    &&& 0 <= a < list.len()
    &&& deleted_print(list[d]) is Some
    &&& added_print(list[a]) == deleted_print(list[d])
    &&& count_deleted(list, deleted_print(list[d])->0, d) == count_added(list, added_print(list[a])->0, a)
}

/// The addition at `a` is the target of a rename.
pub open spec fn is_rename_target(list: Seq<ChangeView>, a: int) -> bool {
    exists|d: int| #[trigger] renames(list, d, a)
}

/// The deletion at `d` is the source of a rename.
pub open spec fn is_rename_source(list: Seq<ChangeView>, d: int) -> bool {
    exists|a: int| #[trigger] renames(list, d, a)
}

/// The deletion that an addition is paired with.
pub open spec fn rename_source(list: Seq<ChangeView>, a: int) -> int {
    choose|d: int| #[trigger] renames(list, d, a)
}

/// The one change that a paired deletion and addition make.
pub open spec fn renamed(deleted: ChangeView, added: ChangeView) -> ChangeView {
    ChangeView {
        kind: WorkspaceChangeKind::Renamed,
        path: added.path,
        source_path: Some(deleted.path),
        before: deleted.before,
        after: added.after,
    }
}

/// What stands for the change at `i` once renames are recognised: the source of
/// a rename goes, its target becomes the rename, any other change stays.
pub open spec fn recognised(list: Seq<ChangeView>, i: int) -> Option<ChangeView> {
    if is_rename_source(list, i) {
        None
    } else if is_rename_target(list, i) {
        Some(renamed(list[rename_source(list, i)], list[i]))
    } else {
        Some(list[i])
    }
}

/// The first `n` changes with renames recognised.
pub open spec fn with_renames(list: Seq<ChangeView>, n: int) -> Seq<ChangeView>
    decreases n,
{
    if n <= 0 {
        Seq::empty()
    } else {
        match recognised(list, n - 1) {
            Some(c) => with_renames(list, n - 1).push(c),
            None => with_renames(list, n - 1),
        }
    }
}

/// The changes from one manifest to another, in path order, renames recognised.
pub open spec fn diff_changes(
    from: Map<Seq<char>, EntryView>,
    to: Map<Seq<char>, EntryView>,
) -> Seq<ChangeView> {
    let list = listing(path_changes(from, to));
    with_renames(list, list.len() as int)
}

/// Counting never goes down, and goes up past a match.
proof fn lemma_counts_grow(list: Seq<ChangeView>, print: Seq<char>, i: int, j: int)
    requires
        0 <= i <= j <= list.len(),
    ensures
        count_added(list, print, i) <= count_added(list, print, j),
        count_deleted(list, print, i) <= count_deleted(list, print, j),
        i < j && added_print(list[i]) == Some(print) ==> count_added(list, print, i) < count_added(list, print, j),
        i < j && deleted_print(list[i]) == Some(print) ==> count_deleted(list, print, i) < count_deleted(list, print, j),
    decreases j - i,
{
    if i < j {
        lemma_counts_grow(list, print, i, j - 1);
    }
}

/// A deletion is paired with one addition only, and an addition with one deletion.
pub proof fn lemma_renames_unique(list: Seq<ChangeView>, d1: int, a1: int, d2: int, a2: int)
    requires
        renames(list, d1, a1),
        renames(list, d2, a2),
        d1 == d2 || a1 == a2,
    ensures
        d1 == d2,
        a1 == a2,
{
    let print = deleted_print(list[d1])->0;
    if d1 == d2 {
        if a1 < a2 {
            lemma_counts_grow(list, print, a1, a2);
        } else if a2 < a1 {
            lemma_counts_grow(list, print, a2, a1);
        }
    } else {
        if d1 < d2 {
            lemma_counts_grow(list, print, d1, d2);
        } else {
            lemma_counts_grow(list, print, d2, d1);
        }
    }
}

/// Recognising renames keeps the changes in path order, and takes every path from the list.
pub proof fn lemma_with_renames_rise(list: Seq<ChangeView>, n: int)
    requires
        paths_rise(list),
        0 <= n <= list.len(),
    ensures
        paths_rise(with_renames(list, n)),
        forall|k: int| 0 <= k < with_renames(list, n).len() ==> exists|i: int| 0 <= i < n && (#[trigger] with_renames(list, n)[k]).path == list[i].path,
    decreases n,
{
    if n > 0 {
        lemma_with_renames_rise(list, n - 1);
        let front = with_renames(list, n - 1);
        let whole = with_renames(list, n);
        match recognised(list, n - 1) {
            Some(c) => {
                assert(c.path == list[n - 1].path);
                assert forall|i: int, j: int| 0 <= i < j < whole.len() implies before(#[trigger] whole[i].path, #[trigger] whole[j].path) by {
                    if j == front.len() {
                        let k = choose|k: int| 0 <= k < n - 1 && front[i].path == list[k].path;
                        assert(before(list[k].path, list[n - 1].path));
                    } else {
                        assert(whole[i] == front[i] && whole[j] == front[j]);
                    }
                }
                assert forall|k: int| 0 <= k < whole.len() implies exists|i: int| 0 <= i < n && (#[trigger] whole[k]).path == list[i].path by {
                    if k < front.len() {
                        assert(whole[k] == front[k]);
                    } else {
                        assert(whole[k].path == list[n - 1].path);
                    }
                }
            },
            None => {},
        }
    }
}

/// The fingerprint of an entry: `file:<size>:<hash>`, or none for a directory.
pub fn entry_fingerprint(entry: &WorkspaceEntry) -> (print: Option<String>)
    ensures
        text_view(print) == fingerprint(entry@),
{
    match entry {
        WorkspaceEntry::File { size, hash, .. } => {
            let mut print = "file:".to_string();
            print.append(decimal_text(*size as u128).as_str());
            print.append(":");
            print.append(hash.as_str());
            Some(print)
        },
        WorkspaceEntry::Directory => None,
    }
}

/// The fingerprint of an added file.
fn added_fingerprint(c: &WorkspaceChange) -> (print: Option<String>)
    ensures
        text_view(print) == added_print(c@),
{
    match &c.after {
        Some(entry) => if c.kind == WorkspaceChangeKind::Added {
            entry_fingerprint(entry)
        } else {
            None
        },
        None => None,
    }
}

/// The fingerprint of a deleted file.
fn deleted_fingerprint(c: &WorkspaceChange) -> (print: Option<String>)
    ensures
        text_view(print) == deleted_print(c@),
{
    match &c.before {
        Some(entry) => if c.kind == WorkspaceChangeKind::Deleted {
            entry_fingerprint(entry)
        } else {
            None
        },
        None => None,
    }
}

/// Whether an optional text is there and equals `print`.
fn is_print(text: &Option<String>, print: &String) -> (r: bool)
    ensures
        r == (text_view(*text) == Some(print@)),
{
    match text {
        Some(t) => *t == *print,
        None => false,
    }
}

/// What is known of the partner of position `i` once the first `d` deletions are paired.
pub open spec fn paired_up_to(list: Seq<ChangeView>, partner: Option<usize>, i: int, d: int) -> bool {
    match partner {
        Some(k) => renames(list, i, k as int) || renames(list, k as int, i),
        None => {
            &&& i < d ==> !is_rename_source(list, i)
            &&& forall|k: int| 0 <= k < d ==> !#[trigger] renames(list, k, i)
        },
    }
}

/// Pairs every deletion with the addition it was renamed to.
///
/// The result holds, for each position, the position of its partner.
fn pair_renames(changes: &Vec<WorkspaceChange>) -> (partners: Vec<Option<usize>>)
    ensures
        partners.len() == changes.len(),
        forall|i: int| 0 <= i < changes.len() ==> match #[trigger] partners[i] {
            Some(k) => renames(change_views(changes@), i, k as int) || renames(change_views(changes@), k as int, i),
            None => !is_rename_source(change_views(changes@), i) && !is_rename_target(change_views(changes@), i),
        },
{
    let ghost list = change_views(changes@);
    let mut added: Vec<Option<String>> = Vec::new();
    let mut deleted: Vec<Option<String>> = Vec::new();
    let mut partners: Vec<Option<usize>> = Vec::new();
    for i in 0..changes.len()
        invariant
            list == change_views(changes@),
            added.len() == i,
            deleted.len() == i,
            partners.len() == i,
            forall|k: int| 0 <= k < i ==> text_view(#[trigger] added@[k]) == added_print(list[k]),
            forall|k: int| 0 <= k < i ==> text_view(#[trigger] deleted@[k]) == deleted_print(list[k]),
            forall|k: int| 0 <= k < i ==> (#[trigger] partners@[k]) is None,
    {
        added.push(added_fingerprint(&changes[i]));
        deleted.push(deleted_fingerprint(&changes[i]));
        partners.push(None);
    }
    let mut d: usize = 0;
    while d < changes.len()
        invariant
            list == change_views(changes@),
            d <= changes.len(),
            added.len() == changes.len(),
            deleted.len() == changes.len(),
            partners.len() == changes.len(),
            forall|k: int| 0 <= k < changes.len() ==> text_view(#[trigger] added@[k]) == added_print(list[k]),
            forall|k: int| 0 <= k < changes.len() ==> text_view(#[trigger] deleted@[k]) == deleted_print(list[k]),
            forall|i: int| 0 <= i < changes.len() ==> paired_up_to(list, #[trigger] partners@[i], i, d as int),
        decreases changes.len() - d,
    {
        match &deleted[d] {
            Some(print) => {
                assert(deleted_print(list[d as int]) == Some(print@));
                let rank = count_prints(&deleted, print, d);
                proof {
                    lemma_count_deleted(deleted@, list, print@, d as int);
                }
                match find_print(&added, print, rank) {
                    Some(a) => {
                        proof {
                            lemma_count_added(added@, list, print@, a as int);
                            assert(renames(list, d as int, a as int));
                            assert(text_view(added@[a as int]) == added_print(list[a as int]));
                            assert(text_view(deleted@[d as int]) == deleted_print(list[d as int]));
                        }
                        let ghost earlier = partners@;
                        partners.set(d, Some(a));
                        partners.set(a, Some(d));
                        proof {
                            assert forall|i: int| 0 <= i < changes.len() implies paired_up_to(list, #[trigger] partners@[i], i, d + 1) by {
                                if i != d && i != a {
                                    assert(partners@[i] == earlier[i]);
                                    if renames(list, d as int, i) {
                                        lemma_renames_unique(list, d as int, a as int, d as int, i);
                                    }
                                }
                            }
                        }
                    },
                    None => {
                        proof {
                            assert forall|a: int| !renames(list, d as int, a) by {
                                if renames(list, d as int, a) {
                                    lemma_count_added(added@, list, print@, a);
                                    assert(text_view(added@[a]) == Some(print@));
                                }
                            }
                            assert(!is_rename_source(list, d as int));
                        }
                    },
                }
            },
            None => {
                assert(deleted_print(list[d as int]) is None);
                assert(!is_rename_source(list, d as int));
            },
        }
        d = d + 1;
    }
    proof {
        assert forall|i: int| 0 <= i < changes.len() implies match #[trigger] partners@[i] {
            Some(k) => renames(list, i, k as int) || renames(list, k as int, i),
            None => !is_rename_source(list, i) && !is_rename_target(list, i),
        } by {
            if partners@[i] is None && is_rename_target(list, i) {
                let s = rename_source(list, i);
                assert(renames(list, s, i));
            }
        }
    }
    partners
}

/// How many of the first `n` texts are `print`.
pub open spec fn count_texts(prints: Seq<Option<String>>, print: Seq<char>, n: int) -> nat
    decreases n,
{
    if n <= 0 {
        0
    } else {
        count_texts(prints, print, n - 1) + (if text_view(prints[n - 1]) == Some(print) {
            1nat
        } else {
            0nat
        })
    }
}

proof fn lemma_count_deleted(prints: Seq<Option<String>>, list: Seq<ChangeView>, print: Seq<char>, n: int)
    requires
        0 <= n <= list.len(),
        prints.len() == list.len(),
        forall|k: int| 0 <= k < list.len() ==> text_view(#[trigger] prints[k]) == deleted_print(list[k]),
    ensures
        count_texts(prints, print, n) == count_deleted(list, print, n),
    decreases n,
{
    if n > 0 {
        lemma_count_deleted(prints, list, print, n - 1);
    }
}

proof fn lemma_count_added(prints: Seq<Option<String>>, list: Seq<ChangeView>, print: Seq<char>, n: int)
    requires
        0 <= n <= list.len(),
        prints.len() == list.len(),
        forall|k: int| 0 <= k < list.len() ==> text_view(#[trigger] prints[k]) == added_print(list[k]),
    ensures
        count_texts(prints, print, n) == count_added(list, print, n),
    decreases n,
{
    if n > 0 {
        lemma_count_added(prints, list, print, n - 1);
    }
}

/// Counts how many of the first `n` texts are `print`.
fn count_prints(prints: &Vec<Option<String>>, print: &String, n: usize) -> (count: usize)
    requires
        n <= prints.len(),
    ensures
        count == count_texts(prints@, print@, n as int),
{
    let mut count: usize = 0;
    for i in 0..n
        invariant
            n <= prints.len(),
            count == count_texts(prints@, print@, i as int),
            count <= i,
    {
        if is_print(&prints[i], print) {
            count = count + 1;
        }
    }
    count
}

/// The position of the text `print` that has `rank` others before it.
fn find_print(prints: &Vec<Option<String>>, print: &String, rank: usize) -> (at: Option<usize>)
    ensures
        match at {
            Some(k) => k < prints.len() && text_view(prints@[k as int]) == Some(print@) && count_texts(prints@, print@, k as int) == rank,
            None => forall|k: int| 0 <= k < prints.len() && text_view(#[trigger] prints@[k]) == Some(print@) ==> count_texts(prints@, print@, k) != rank,
        },
{
    let mut count: usize = 0;
    let mut i: usize = 0;
    while i < prints.len()
        invariant
            i <= prints.len(),
            count <= i,
            count == count_texts(prints@, print@, i as int),
            forall|k: int| 0 <= k < i && text_view(#[trigger] prints@[k]) == Some(print@) ==> count_texts(prints@, print@, k) != rank,
        decreases prints.len() - i,
    {
        if is_print(&prints[i], print) {
            if count == rank {
                return Some(i);
            }
            count = count + 1;
        }
        i = i + 1;
    }
    None
}

/// The addition that a deletion is paired with.
pub open spec fn rename_target(list: Seq<ChangeView>, d: int) -> int {
    choose|a: int| #[trigger] renames(list, d, a)
}

/// Those of the first `n` changes that are part of no rename.
pub open spec fn unpaired(list: Seq<ChangeView>, n: int) -> Seq<ChangeView>
    decreases n,
{
    if n <= 0 {
        Seq::empty()
    } else if is_rename_source(list, n - 1) || is_rename_target(list, n - 1) {
        unpaired(list, n - 1)
    } else {
        unpaired(list, n - 1).push(list[n - 1])
    }
}

/// The renames whose sources are among the first `n` changes.
pub open spec fn paired(list: Seq<ChangeView>, n: int) -> Seq<ChangeView>
    decreases n,
{
    if n <= 0 {
        Seq::empty()
    } else if is_rename_source(list, n - 1) {
        paired(list, n - 1).push(renamed(list[n - 1], list[rename_target(list, n - 1)]))
    } else {
        paired(list, n - 1)
    }
}

/// The changes that are part of no rename, and then the renames, each in list order.
pub open spec fn told_apart(list: Seq<ChangeView>) -> Seq<ChangeView> {
    unpaired(list, list.len() as int) + paired(list, list.len() as int)
}

/// Turns each paired deletion and addition into one rename, and puts the
/// changes in the order of their paths, and then of their source paths.
pub fn detect_renames(changes: Vec<WorkspaceChange>) -> (output: Vec<WorkspaceChange>)
    ensures
        sorts(change_views(output@), told_apart(change_views(changes@))),
{
    let ghost list = change_views(changes@);
    let partners = pair_renames(&changes);
    let mut output: Vec<WorkspaceChange> = Vec::new();
    assert(change_views(output@) =~= Seq::empty());
    for i in 0..changes.len()
        invariant
            list == change_views(changes@),
            partners.len() == changes.len(),
            forall|k: int| 0 <= k < changes.len() ==> match #[trigger] partners[k] {
                Some(j) => renames(list, k, j as int) || renames(list, j as int, k),
                None => !is_rename_source(list, k) && !is_rename_target(list, k),
            },
            sorts(change_views(output@), unpaired(list, i as int)),
    {
        match partners[i] {
            Some(k) => {
                assert(is_rename_source(list, i as int) || is_rename_target(list, i as int));
            },
            None => {
                let kept = changes[i].clone();
                assert(list[i as int] == kept@);
                insert_change(&mut output, kept);
            },
        }
    }
    let ghost first = unpaired(list, list.len() as int);
    assert(first + paired(list, 0) =~= first);
    for i in 0..changes.len()
        invariant
            list == change_views(changes@),
            partners.len() == changes.len(),
            forall|k: int| 0 <= k < changes.len() ==> match #[trigger] partners[k] {
                Some(j) => renames(list, k, j as int) || renames(list, j as int, k),
                None => !is_rename_source(list, k) && !is_rename_target(list, k),
            },
            sorts(change_views(output@), first + paired(list, i as int)),
    {
        proof {
            assert(list[i as int] == changes@[i as int]@);
            if is_rename_source(list, i as int) {
                assert(renames(list, i as int, rename_target(list, i as int)));
                assert(changes@[i as int].kind == WorkspaceChangeKind::Deleted);
            }
        }
        if let Some(k) = partners[i] {
            if changes[i].kind == WorkspaceChangeKind::Deleted {
                proof {
                    assert(!renames(list, k as int, i as int));
                    assert(renames(list, i as int, k as int));
                    assert(is_rename_source(list, i as int));
                    lemma_renames_unique(list, i as int, rename_target(list, i as int), i as int, k as int);
                    assert(list[k as int] == changes@[k as int]@);
                }
                let rename = WorkspaceChange {
                    kind: WorkspaceChangeKind::Renamed,
                    path: changes[k].path.clone(),
                    source_path: Some(changes[i].path.clone()),
                    before: clone_entry(&changes[i].before),
                    after: clone_entry(&changes[k].after),
                };
                assert(rename@ == renamed(list[i as int], list[k as int]));
                let ghost so_far = first + paired(list, i as int);
                insert_change(&mut output, rename);
                assert(so_far.push(rename@) =~= first + paired(list, i + 1));
            }
        }
    }
    output
}

/// Every change with renames recognised stands for a listed one.
pub proof fn lemma_recognised_from(list: Seq<ChangeView>, n: int, k: int) -> (i: int)
    requires
        0 <= n <= list.len(),
        0 <= k < with_renames(list, n).len(),
    ensures
        0 <= i < n,
        recognised(list, i) == Some(with_renames(list, n)[k]),
    decreases n,
{
    let front = with_renames(list, n - 1);
    if k < front.len() {
        lemma_recognised_from(list, n - 1, k)
    } else {
        n - 1
    }
}

/// Every change that stands after recognition is in the result.
pub proof fn lemma_recognised_into(list: Seq<ChangeView>, n: int, i: int) -> (k: int)
    requires
        0 <= i < n <= list.len(),
        recognised(list, i) is Some,
    ensures
        0 <= k < with_renames(list, n).len(),
        with_renames(list, n)[k] == recognised(list, i)->0,
    decreases n,
{
    if i == n - 1 {
        with_renames(list, n).len() - 1
    } else {
        lemma_recognised_into(list, n - 1, i)
    }
}

/// No change is both the source and the target of a rename.
pub proof fn lemma_rename_ends_differ(list: Seq<ChangeView>)
    ensures
        forall|i: int| !(#[trigger] is_rename_source(list, i) && is_rename_target(list, i)),
{
    assert forall|i: int| !(#[trigger] is_rename_source(list, i) && is_rename_target(list, i)) by {
        if is_rename_source(list, i) && is_rename_target(list, i) {
            let a = choose|a: int| #[trigger] renames(list, i, a);
            let d = choose|d: int| #[trigger] renames(list, d, i);
            assert(list[i].kind == WorkspaceChangeKind::Deleted);
            assert(list[i].kind == WorkspaceChangeKind::Added);
        }
    }
}

/// A change that is part of no rename stands among the unpaired ones.
pub proof fn lemma_unpaired_into(list: Seq<ChangeView>, n: int, i: int) -> (k: int)
    requires
        0 <= i < n <= list.len(),
        !is_rename_source(list, i),
        !is_rename_target(list, i),
    ensures
        0 <= k < unpaired(list, n).len(),
        unpaired(list, n)[k] == list[i],
    decreases n,
{
    if i == n - 1 {
        unpaired(list, n).len() - 1
    } else {
        lemma_unpaired_into(list, n - 1, i)
    }
}

/// An unpaired change is one of the list that is part of no rename.
pub proof fn lemma_unpaired_from(list: Seq<ChangeView>, n: int, k: int) -> (i: int)
    requires
        0 <= n <= list.len(),
        0 <= k < unpaired(list, n).len(),
    ensures
        0 <= i < n,
        unpaired(list, n)[k] == list[i],
        !is_rename_source(list, i),
        !is_rename_target(list, i),
    decreases n,
{
    if k < unpaired(list, n - 1).len() {
        lemma_unpaired_from(list, n - 1, k)
    } else {
        n - 1
    }
}

/// A rename stands among the paired ones.
pub proof fn lemma_paired_into(list: Seq<ChangeView>, n: int, d: int, a: int) -> (k: int)
    requires
        0 <= d < n <= list.len(),
        renames(list, d, a),
    ensures
        0 <= k < paired(list, n).len(),
        paired(list, n)[k] == renamed(list[d], list[a]),
    decreases n,
{
    if d == n - 1 {
        assert(is_rename_source(list, d));
        lemma_renames_unique(list, d, rename_target(list, d), d, a);
        paired(list, n).len() - 1
    } else {
        lemma_paired_into(list, n - 1, d, a)
    }
}

/// A paired change is a rename of the list.
pub proof fn lemma_paired_from(list: Seq<ChangeView>, n: int, k: int) -> (d: int)
    requires
        0 <= n <= list.len(),
        0 <= k < paired(list, n).len(),
    ensures
        0 <= d < n,
        is_rename_source(list, d),
        renames(list, d, rename_target(list, d)),
        paired(list, n)[k] == renamed(list[d], list[rename_target(list, d)]),
    decreases n,
{
    if k < paired(list, n - 1).len() {
        lemma_paired_from(list, n - 1, k)
    } else {
        n - 1
    }
}

/// Changes of different paths stay different when renames are told apart.
proof fn lemma_told_apart_differ(list: Seq<ChangeView>, n: int)
    requires
        paths_rise(list),
        0 <= n <= list.len(),
    ensures
        unpaired(list, n).no_duplicates(),
        paired(list, n).no_duplicates(),
        (unpaired(list, n) + paired(list, n)).no_duplicates(),
    decreases n,
{
    if n > 0 {
        lemma_told_apart_differ(list, n - 1);
        lemma_rename_ends_differ(list);
        let left = unpaired(list, n);
        let right = paired(list, n);
        let last = n - 1;
        assert forall|k: int| 0 <= k < unpaired(list, last).len() implies #[trigger] unpaired(list, last)[k] != list[last] by {
            let i = lemma_unpaired_from(list, last, k);
            assert(before(list[i].path, list[last].path));
            lemma_before_asymmetric(list[i].path, list[last].path);
        }
        if is_rename_source(list, last) {
            let new = right.last();
            assert forall|k: int| 0 <= k < paired(list, last).len() implies #[trigger] paired(list, last)[k] != new by {
                let d = lemma_paired_from(list, last, k);
                assert(before(list[d].path, list[last].path));
                lemma_before_asymmetric(list[d].path, list[last].path);
            }
        }
        assert forall|i: int, j: int| 0 <= i < left.len() && 0 <= j < right.len() implies left[i] != right[j] by {
            let a = lemma_unpaired_from(list, n, i);
            let d = lemma_paired_from(list, n, j);
            let t = rename_target(list, d);
            assert(is_rename_target(list, t));
            if a < t {
                assert(before(list[a].path, list[t].path));
                lemma_before_asymmetric(list[a].path, list[t].path);
            } else {
                assert(before(list[t].path, list[a].path));
                lemma_before_asymmetric(list[t].path, list[a].path);
            }
        }
        vstd::seq_lib::lemma_no_dup_in_concat(left, right);
    }
}

/// The changes with renames told apart are those with renames recognised.
pub proof fn lemma_told_apart_members(list: Seq<ChangeView>, c: ChangeView)
    ensures
        told_apart(list).contains(c) <==> with_renames(list, list.len() as int).contains(c),
{
    let n = list.len() as int;
    let left = unpaired(list, n);
    let right = paired(list, n);
    let whole = with_renames(list, n);
    lemma_rename_ends_differ(list);
    if whole.contains(c) {
        let k = choose|k: int| 0 <= k < whole.len() && whole[k] == c;
        let i = lemma_recognised_from(list, n, k);
        if is_rename_target(list, i) {
            let d = rename_source(list, i);
            assert(renames(list, d, i));
            let at = lemma_paired_into(list, n, d, i);
            assert((left + right)[left.len() + at] == c);
        } else {
            let at = lemma_unpaired_into(list, n, i);
            assert((left + right)[at] == c);
        }
    }
    if told_apart(list).contains(c) {
        let k = choose|k: int| 0 <= k < told_apart(list).len() && told_apart(list)[k] == c;
        if k < left.len() {
            let i = lemma_unpaired_from(list, n, k);
            let at = lemma_recognised_into(list, n, i);
            assert(whole[at] == c);
        } else {
            let d = lemma_paired_from(list, n, k - left.len());
            let a = rename_target(list, d);
            assert(is_rename_target(list, a));
            assert(renames(list, rename_source(list, a), a));
            lemma_renames_unique(list, d, a, rename_source(list, a), a);
            let at = lemma_recognised_into(list, n, a);
            assert(whole[at] == c);
        }
    }
}

/// Changes in path order keep it when their renames are recognised, so that
/// sorting them moves none.
proof fn lemma_rising_renames(list: Seq<ChangeView>, sorted: Seq<ChangeView>)
    requires
        paths_rise(list),
        sorts(sorted, told_apart(list)),
    ensures
        sorted == with_renames(list, list.len() as int),
{
    let n = list.len() as int;
    let whole = with_renames(list, n);
    let apart = told_apart(list);
    lemma_with_renames_rise(list, n);
    lemma_told_apart_differ(list, n);
    apart.lemma_multiset_has_no_duplicates();
    sorted.lemma_multiset_has_no_duplicates_conv();
    assert forall|c: ChangeView| #[trigger] sorted.contains(c) <==> whole.contains(c) by {
        vstd::seq_lib::to_multiset_contains(sorted, c);
        vstd::seq_lib::to_multiset_contains(apart, c);
        lemma_told_apart_members(list, c);
    }
    assert forall|i: int, j: int| 0 <= i < j < sorted.len() implies before(#[trigger] sorted[i].path, #[trigger] sorted[j].path) by {
        assert(sorted.contains(sorted[i]));
        assert(sorted.contains(sorted[j]));
        let a = choose|a: int| 0 <= a < whole.len() && whole[a] == sorted[i];
        let b = choose|b: int| 0 <= b < whole.len() && whole[b] == sorted[j];
        assert(a != b);
        if b < a {
            assert(before(whole[b].path, whole[a].path));
            assert(crate::versioned_fs::change_order::change_before(sorted[j], sorted[i]));
        }
    }
    let m = Map::new(
        |path: Seq<char>| exists|k: int| 0 <= k < whole.len() && whole[k].path == path,
        |path: Seq<char>| whole[choose|k: int| 0 <= k < whole.len() && whole[k].path == path],
    );
    assert forall|k: int| 0 <= k < whole.len() implies m.contains_key(#[trigger] whole[k].path) && m[whole[k].path] == whole[k] by {
        let j = choose|j: int| 0 <= j < whole.len() && whole[j].path == whole[k].path;
        if j < k {
            assert(before(whole[j].path, whole[k].path));
            lemma_before_asymmetric(whole[j].path, whole[k].path);
        } else if k < j {
            assert(before(whole[k].path, whole[j].path));
            lemma_before_asymmetric(whole[k].path, whole[j].path);
        }
    }
    assert(lists(whole, m));
    assert forall|i: int| 0 <= i < sorted.len() implies m.contains_key(#[trigger] sorted[i].path) && m[sorted[i].path] == sorted[i] by {
        assert(sorted.contains(sorted[i]));
        let a = choose|a: int| 0 <= a < whole.len() && whole[a] == sorted[i];
        assert(m.contains_key(whole[a].path));
    }
    assert forall|path: Seq<char>| #[trigger] m.contains_key(path) implies exists|i: int| 0 <= i < sorted.len() && sorted[i].path == path by {
        let k = choose|k: int| 0 <= k < whole.len() && whole[k].path == path;
        assert(whole.contains(whole[k]));
        assert(sorted.contains(whole[k]));
        let i = choose|i: int| 0 <= i < sorted.len() && sorted[i] == whole[k];
        assert(sorted[i].path == path);
    }
    assert(lists(sorted, m));
    lemma_listing_unique(sorted, whole, m);
}

/// The change of one path, given its entries in the two manifests.
fn change_at(path: &String, before: Option<&WorkspaceEntry>, after: Option<&WorkspaceEntry>) -> (change: Option<WorkspaceChange>)
    ensures
        ({
            let b = match before {
                Some(e) => Some(e@),
                None => None,
            };
            let a = match after {
                Some(e) => Some(e@),
                None => None,
            };
            match change {
                Some(c) => change_kind(b, a) == Some(c.kind) && c@ == (ChangeView {
                    kind: c.kind,
                    path: path@,
                    source_path: None,
                    before: b,
                    after: a,
                }),
                None => change_kind(b, a) is None,
            }
        }),
{
    let kind = match (before, after) {
        (None, None) => {
            return None;
        },
        (None, Some(_)) => WorkspaceChangeKind::Added,
        (Some(_), None) => WorkspaceChangeKind::Deleted,
        (Some(b), Some(a)) => if b.is_directory() != a.is_directory() {
            WorkspaceChangeKind::TypeChanged
        } else if !b.same(a) {
            WorkspaceChangeKind::Modified
        } else {
            return None;
        },
    };
    let before_copy = match before {
        Some(e) => Some(e.clone()),
        None => None,
    };
    let after_copy = match after {
        Some(e) => Some(e.clone()),
        None => None,
    };
    Some(
        WorkspaceChange {
            kind,
            path: path.clone(),
            source_path: None,
            before: before_copy,
            after: after_copy,
        },
    )
}

/// Progress of the merge: every path met so far is handled, and lies before all the others.
spec fn merged_up_to(
    from: Seq<(String, WorkspaceEntry)>,
    to: Seq<(String, WorkspaceEntry)>,
    i: int,
    j: int,
    list: Seq<ChangeView>,
) -> bool {
    let m = path_changes(manifest(pairs_map(from)), manifest(pairs_map(to)));
    &&& 0 <= i <= from.len()
    &&& 0 <= j <= to.len()
    &&& forall|a: int, b: int| 0 <= a < i && j <= b < to.len() ==> before(#[trigger] from[a].0@, #[trigger] to[b].0@)
    &&& forall|a: int, b: int| i <= a < from.len() && 0 <= b < j ==> before(#[trigger] to[b].0@, #[trigger] from[a].0@)
    &&& paths_rise(list)
    &&& forall|k: int| 0 <= k < list.len() ==> m.contains_key(#[trigger] list[k].path) && m[list[k].path] == list[k]
    &&& forall|k: int| 0 <= k < list.len() ==> met(from, to, i, j, #[trigger] list[k].path)
    &&& forall|path: Seq<char>| #[trigger] m.contains_key(path) && met(from, to, i, j, path) ==> exists|k: int| 0 <= k < list.len() && list[k].path == path
}

/// The path is among the first `i` of one list or the first `j` of the other.
spec fn met(
    from: Seq<(String, WorkspaceEntry)>,
    to: Seq<(String, WorkspaceEntry)>,
    i: int,
    j: int,
    path: Seq<char>,
) -> bool {
    ||| exists|a: int| 0 <= a < i && #[trigger] from[a].0@ == path
    ||| exists|b: int| 0 <= b < j && #[trigger] to[b].0@ == path
}

/// One step of the merge, at the least path not met yet.
proof fn lemma_merge_step(
    from: Seq<(String, WorkspaceEntry)>,
    to: Seq<(String, WorkspaceEntry)>,
    i: int,
    j: int,
    list: Seq<ChangeView>,
    path: Seq<char>,
    in_from: bool,
    in_to: bool,
    change: Option<ChangeView>,
)
    requires
        rising(from),
        rising(to),
        merged_up_to(from, to, i, j, list),
        in_from || in_to,
        in_from ==> i < from.len() && from[i].0@ == path,
        in_to ==> j < to.len() && to[j].0@ == path,
        !in_from && i < from.len() ==> before(path, from[i].0@),
        !in_to && j < to.len() ==> before(path, to[j].0@),
        ({
            let b = if in_from { Some(from[i].1@) } else { None };
            let a = if in_to { Some(to[j].1@) } else { None };
            match change {
                Some(c) => change_kind(b, a) == Some(c.kind) && c == (ChangeView {
                    kind: c.kind,
                    path,
                    source_path: None,
                    before: b,
                    after: a,
                }),
                None => change_kind(b, a) is None,
            }
        }),
    ensures
        merged_up_to(
            from,
            to,
            if in_from { i + 1 } else { i },
            if in_to { j + 1 } else { j },
            match change {
                Some(c) => list.push(c),
                None => list,
            },
        ),
{
    let fm = manifest(pairs_map(from));
    let tm = manifest(pairs_map(to));
    let m = path_changes(fm, tm);
    let i2 = if in_from { i + 1 } else { i };
    let j2 = if in_to { j + 1 } else { j };
    assert(lookup(fm, path) == (if in_from { Some(from[i].1@) } else { None })) by {
        if in_from {
            lemma_key_index(from, i);
        } else if has_key(from, path) {
            let a = key_index(from, path);
            if a < i {
                assert(before(from[a].0@, to[j].0@));
                lemma_before_asymmetric(from[a].0@, path);
            } else {
                if a > i {
                    lemma_before_transitive(path, from[i].0@, from[a].0@);
                }
                lemma_before_asymmetric(path, from[a].0@);
            }
        }
    }
    assert(lookup(tm, path) == (if in_to { Some(to[j].1@) } else { None })) by {
        if in_to {
            lemma_key_index(to, j);
        } else if has_key(to, path) {
            let b = key_index(to, path);
            if b < j {
                assert(before(to[b].0@, from[i].0@));
                lemma_before_asymmetric(to[b].0@, path);
            } else {
                if b > j {
                    lemma_before_transitive(path, to[j].0@, to[b].0@);
                }
                lemma_before_asymmetric(path, to[b].0@);
            }
        }
    }
    assert forall|a: int, b: int| 0 <= a < i2 && j2 <= b < to.len() implies before(#[trigger] from[a].0@, #[trigger] to[b].0@) by {
        if a == i {
            if !in_to && b > j {
                lemma_before_transitive(path, to[j].0@, to[b].0@);
            }
        }
    }
    assert forall|a: int, b: int| i2 <= a < from.len() && 0 <= b < j2 implies before(#[trigger] to[b].0@, #[trigger] from[a].0@) by {
        if b == j {
            if !in_from && a > i {
                lemma_before_transitive(path, from[i].0@, from[a].0@);
            }
        }
    }
    assert forall|k: int| 0 <= k < list.len() implies before(#[trigger] list[k].path, path) by {
        assert(met(from, to, i, j, list[k].path));
    }
    let next = match change {
        Some(c) => list.push(c),
        None => list,
    };
    assert(met(from, to, i2, j2, path)) by {
        if in_from {
            assert(from[i].0@ == path);
        } else {
            assert(to[j].0@ == path);
        }
    }
    assert forall|q: Seq<char>| met(from, to, i, j, q) implies met(from, to, i2, j2, q) by {
        if exists|a: int| 0 <= a < i && #[trigger] from[a].0@ == q {
            let a = choose|a: int| 0 <= a < i && #[trigger] from[a].0@ == q;
            assert(from[a].0@ == q && a < i2);
        } else {
            let b = choose|b: int| 0 <= b < j && #[trigger] to[b].0@ == q;
            assert(to[b].0@ == q && b < j2);
        }
    }
    assert forall|q: Seq<char>| met(from, to, i2, j2, q) && q != path implies met(from, to, i, j, q) by {
        if exists|a: int| 0 <= a < i2 && #[trigger] from[a].0@ == q {
            let a = choose|a: int| 0 <= a < i2 && #[trigger] from[a].0@ == q;
            assert(from[a].0@ == q && a < i);
        } else {
            let b = choose|b: int| 0 <= b < j2 && #[trigger] to[b].0@ == q;
            assert(to[b].0@ == q && b < j);
        }
    }
    assert(paths_rise(next));
    assert forall|k: int| 0 <= k < next.len() implies m.contains_key(#[trigger] next[k].path) && m[next[k].path] == next[k] by {
        if k < list.len() {
            assert(next[k] == list[k]);
        }
    }
    assert forall|k: int| 0 <= k < next.len() implies met(from, to, i2, j2, #[trigger] next[k].path) by {
        if k < list.len() {
            assert(next[k] == list[k]);
        }
    }
    assert forall|q: Seq<char>| #[trigger] m.contains_key(q) && met(from, to, i2, j2, q) implies exists|k: int| 0 <= k < next.len() && next[k].path == q by {
        if q == path {
            assert(next[list.len() as int].path == path);
        } else {
            let k = choose|k: int| 0 <= k < list.len() && list[k].path == q;
            assert(next[k].path == q);
        }
    }
}

/// The changes of all the paths that two maps of entries record differently, in path order.
fn changed_paths(from: &StringMap<WorkspaceEntry>, to: &StringMap<WorkspaceEntry>) -> (changes: Vec<WorkspaceChange>)
    requires
        from.wf(),
        to.wf(),
    ensures
        lists(change_views(changes@), path_changes(manifest(from@), manifest(to@))),
{
    let mut changes: Vec<WorkspaceChange> = Vec::new();
    let mut i: usize = 0;
    let mut j: usize = 0;
    assert(change_views(changes@) =~= Seq::empty());
    while i < from.items.len() || j < to.items.len()
        invariant
            from.wf(),
            to.wf(),
            i <= from.items.len(),
            j <= to.items.len(),
            merged_up_to(from.items@, to.items@, i as int, j as int, change_views(changes@)),
        decreases from.items.len() - i + to.items.len() - j,
    {
        let in_from: bool = i < from.items.len() && (j >= to.items.len() || !comes_before(
            to.items[j].0.as_str(),
            from.items[i].0.as_str(),
        ));
        let in_to: bool = j < to.items.len() && (i >= from.items.len() || !comes_before(
            from.items[i].0.as_str(),
            to.items[j].0.as_str(),
        ));
        proof {
            if i < from.items.len() && j < to.items.len() {
                lemma_before_total(from.items@[i as int].0@, to.items@[j as int].0@);
                if before(from.items@[i as int].0@, to.items@[j as int].0@) {
                    lemma_before_asymmetric(from.items@[i as int].0@, to.items@[j as int].0@);
                }
            }
        }
        let change = if in_from && in_to {
            change_at(&from.items[i].0, Some(&from.items[i].1), Some(&to.items[j].1))
        } else if in_from {
            change_at(&from.items[i].0, Some(&from.items[i].1), None)
        } else {
            change_at(&to.items[j].0, None, Some(&to.items[j].1))
        };
        let ghost list = change_views(changes@);
        proof {
            let path = if in_from { from.items@[i as int].0@ } else { to.items@[j as int].0@ };
            lemma_merge_step(from.items@, to.items@, i as int, j as int, list, path, in_from, in_to, change_view(change));
        }
        if let Some(c) = change {
            changes.push(c);
            assert(change_views(changes@) =~= list.push(c@));
        }
        if in_from {
            i = i + 1;
        }
        if in_to {
            j = j + 1;
        }
    }
    proof {
        let m = path_changes(manifest(from@), manifest(to@));
        let list = change_views(changes@);
        assert forall|path: Seq<char>| #[trigger] m.contains_key(path) implies exists|k: int| 0 <= k < list.len() && list[k].path == path by {
            assert(has_key(from.items@, path) || has_key(to.items@, path));
            if has_key(from.items@, path) {
                assert(from.items@[key_index(from.items@, path)].0@ == path);
            } else {
                assert(to.items@[key_index(to.items@, path)].0@ == path);
            }
            assert(met(from.items@, to.items@, i as int, j as int, path));
        }
    }
    changes
}

/// The changes that lead from one map of entries to another.
pub fn diff_entries(from: &StringMap<WorkspaceEntry>, to: &StringMap<WorkspaceEntry>) -> (changes: Vec<WorkspaceChange>)
    requires
        from.wf(),
        to.wf(),
    ensures
        change_views(changes@) == diff_changes(manifest(from@), manifest(to@)),
        paths_rise(change_views(changes@)),
{
    let changes = changed_paths(from, to);
    proof {
        lemma_listing(change_views(changes@), path_changes(manifest(from@), manifest(to@)));
        lemma_with_renames_rise(change_views(changes@), changes@.len() as int);
    }
    let ghost list = change_views(changes@);
    let output = detect_renames(changes);
    proof {
        lemma_rising_renames(list, change_views(output@));
    }
    output
}

} // verus!
