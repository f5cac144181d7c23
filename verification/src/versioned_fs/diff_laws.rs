//! What a diff says of the two manifests it compares.

use crate::number::{decimal, digits_value, is_digit, lemma_decimal_value};
use crate::versioned_fs::diff::{
    added_print, count_added, count_deleted, deleted_print, diff_changes, fingerprint,
    is_rename_source, is_rename_target, lemma_listing_exists, lemma_listing_unique,
    lemma_recognised_from, lemma_recognised_into, lemma_rename_ends_differ, lemma_renames_unique,
    lemma_with_renames_rise, listing, lists, paired, path_changes, recognised, rename_source,
    rename_target, renames, told_apart, unpaired, with_renames, ChangeView, WorkspaceChangeKind,
};
use crate::versioned_fs::entry::{lookup, EntryView};
use vstd::prelude::*;

verus! {

/// Files with one fingerprint have one size and one hash.
pub proof fn equal_fingerprints_mean_equal_contents(a: EntryView, b: EntryView)
    requires
        fingerprint(a) is Some,
        fingerprint(a) == fingerprint(b),
    ensures
        a->size == b->size,
        a->hash == b->hash,
{
    let left = decimal(a->size as nat);
    let right = decimal(b->size as nat);
    let colon = ":"@;
    let head = "file:"@;
    reveal_strlit(":");
    reveal_strlit("file:");
    lemma_decimal_value(a->size as nat);
    lemma_decimal_value(b->size as nat);
    let text = head + left + colon + a->hash;
    let other = head + right + colon + b->hash;
    assert(text == other);
    assert(text[5 + left.len() as int] == ':');
    assert(other[5 + right.len() as int] == ':');
    assert(forall|i: int| 0 <= i < left.len() ==> text[5 + i] == left[i]);
    assert(forall|i: int| 0 <= i < right.len() ==> other[5 + i] == right[i]);
    if left.len() < right.len() {
        assert(is_digit(right[left.len() as int]));
        assert(other[5 + left.len() as int] == right[left.len() as int]);
    } else if right.len() < left.len() {
        assert(is_digit(left[right.len() as int]));
        assert(text[5 + right.len() as int] == left[right.len() as int]);
    }
    assert forall|i: int| 0 <= i < left.len() implies left[i] == right[i] by {
        assert(text[5 + i] == left[i]);
        assert(other[5 + i] == right[i]);
    }
    assert(left =~= right);
    assert(digits_value(left) == digits_value(right));
    let start = 6 + left.len() as int;
    assert(text.subrange(start, text.len() as int) =~= a->hash);
    assert(other.subrange(start, other.len() as int) =~= b->hash);
}

/// The listed changes of two finite manifests.
pub proof fn lemma_listed(from: Map<Seq<char>, EntryView>, to: Map<Seq<char>, EntryView>)
    requires
        from.dom().finite(),
        to.dom().finite(),
    ensures
        lists(listing(path_changes(from, to)), path_changes(from, to)),
{
    let changes = path_changes(from, to);
    assert(changes.dom().subset_of(from.dom().union(to.dom())));
    vstd::set_lib::lemma_set_subset_finite(from.dom().union(to.dom()), changes.dom());
    lemma_listing_exists(changes);
}

/// A rename in a diff: the source was a file that is gone, the target is a file
/// that is new, and both have one size and one hash.
pub proof fn a_rename_moves_equal_contents(
    from: Map<Seq<char>, EntryView>,
    to: Map<Seq<char>, EntryView>,
    k: int,
)
    requires
        from.dom().finite(),
        to.dom().finite(),
        0 <= k < diff_changes(from, to).len(),
        diff_changes(from, to)[k].kind == WorkspaceChangeKind::Renamed,
    ensures
        ({
            let c = diff_changes(from, to)[k];
            &&& c.source_path is Some
            &&& from.contains_key(c.source_path->0) && !to.contains_key(c.source_path->0)
            &&& to.contains_key(c.path) && !from.contains_key(c.path)
            &&& from[c.source_path->0] is File && to[c.path] is File
            &&& from[c.source_path->0]->size == to[c.path]->size
            &&& from[c.source_path->0]->hash == to[c.path]->hash
            &&& c.before == Some(from[c.source_path->0])
            &&& c.after == Some(to[c.path])
        }),
{
    let changes = path_changes(from, to);
    let list = listing(changes);
    lemma_listed(from, to);
    let i = lemma_recognised_from(list, list.len() as int, k);
    assert(changes.contains_key(list[i].path));
    let d = rename_source(list, i);
    assert(renames(list, d, i));
    assert(changes.contains_key(list[d].path));
    equal_fingerprints_mean_equal_contents(list[d].before->0, list[i].after->0);
}

/// Among the changes with a fingerprint, every rank below their number is taken.
pub proof fn lemma_added_rank(list: Seq<ChangeView>, print: Seq<char>, rank: nat, n: int) -> (a: int)
    requires
        0 <= n <= list.len(),
        rank < count_added(list, print, n),
    ensures
        0 <= a < n,
        added_print(list[a]) == Some(print),
        count_added(list, print, a) == rank,
    decreases n,
{
    if rank < count_added(list, print, n - 1) {
        lemma_added_rank(list, print, rank, n - 1)
    } else {
        n - 1
    }
}

/// Among the deletions with a fingerprint, every rank below their number is taken.
pub proof fn lemma_deleted_rank(list: Seq<ChangeView>, print: Seq<char>, rank: nat, n: int) -> (d: int)
    requires
        0 <= n <= list.len(),
        rank < count_deleted(list, print, n),
    ensures
        0 <= d < n,
        deleted_print(list[d]) == Some(print),
        count_deleted(list, print, d) == rank,
    decreases n,
{
    if rank < count_deleted(list, print, n - 1) {
        lemma_deleted_rank(list, print, rank, n - 1)
    } else {
        n - 1
    }
}

/// Counts do not fall.
pub proof fn lemma_added_count_grows(list: Seq<ChangeView>, print: Seq<char>, i: int, n: int)
    requires
        0 <= i <= n <= list.len(),
    ensures
        count_added(list, print, i) <= count_added(list, print, n),
        i < n && added_print(list[i]) == Some(print) ==> count_added(list, print, i) < count_added(list, print, n),
    decreases n - i,
{
    if i < n {
        lemma_added_count_grows(list, print, i, n - 1);
    }
}

/// No rename is missed: where a file disappears and a file with the same size
/// and hash appears, a diff does not report one as deleted and the other as added.
pub proof fn no_rename_is_missed(
    from: Map<Seq<char>, EntryView>,
    to: Map<Seq<char>, EntryView>,
    gone: int,
    new: int,
)
    requires
        from.dom().finite(),
        to.dom().finite(),
        0 <= gone < diff_changes(from, to).len(),
        0 <= new < diff_changes(from, to).len(),
        diff_changes(from, to)[gone].kind == WorkspaceChangeKind::Deleted,
        diff_changes(from, to)[new].kind == WorkspaceChangeKind::Added,
        diff_changes(from, to)[gone].before->0 is File,
        diff_changes(from, to)[new].after->0 is File,
    ensures
        diff_changes(from, to)[gone].before->0->size != diff_changes(from, to)[new].after->0->size
            || diff_changes(from, to)[gone].before->0->hash != diff_changes(from, to)[new].after->0->hash,
{
    let list = listing(path_changes(from, to));
    let n = list.len() as int;
    lemma_listed(from, to);
    let d = lemma_recognised_from(list, n, gone);
    let a = lemma_recognised_from(list, n, new);
    assert(path_changes(from, to).contains_key(list[d].path));
    assert(path_changes(from, to).contains_key(list[a].path));
    assert(list[d] == diff_changes(from, to)[gone]);
    assert(list[a] == diff_changes(from, to)[new]);
    no_rename_is_left(list, d, a);
}

/// A diff is empty exactly when the manifests are equal.
pub proof fn a_diff_is_empty_iff_nothing_changed(from: Map<Seq<char>, EntryView>, to: Map<Seq<char>, EntryView>)
    requires
        from.dom().finite(),
        to.dom().finite(),
    ensures
        diff_changes(from, to).len() == 0 <==> from == to,
{
    let changes = path_changes(from, to);
    let list = listing(changes);
    let n = list.len() as int;
    lemma_listed(from, to);
    if from == to {
        if n > 0 {
            assert(changes.contains_key(list[0].path));
        }
    }
    if diff_changes(from, to).len() == 0 {
        if n > 0 {
            if is_rename_source(list, 0) {
                let a = choose|a: int| #[trigger] renames(list, 0, a);
                assert(is_rename_target(list, a));
                if is_rename_source(list, a) {
                    let b = choose|b: int| #[trigger] renames(list, a, b);
                    assert(list[a].kind == WorkspaceChangeKind::Deleted);
                    assert(list[a].kind == WorkspaceChangeKind::Added);
                }
                let k = lemma_recognised_into(list, n, a);
            } else {
                let k = lemma_recognised_into(list, n, 0);
            }
        }
        assert forall|path: Seq<char>| #[trigger] from.contains_key(path) == to.contains_key(path) by {
            if from.contains_key(path) != to.contains_key(path) {
                assert(changes.contains_key(path));
            }
        }
        assert forall|path: Seq<char>| #[trigger] from.contains_key(path) implies from[path] == to[path] by {
            if from[path] != to[path] {
                assert(changes.contains_key(path));
            }
        }
        assert(from =~= to);
    }
}

/// A rename pairs a deleted file with an added one of the same size and hash.
pub proof fn a_rename_pairs_equal_files(list: Seq<ChangeView>, d: int, a: int)
    requires
        renames(list, d, a),
    ensures
        list[d].kind == WorkspaceChangeKind::Deleted,
        list[a].kind == WorkspaceChangeKind::Added,
        list[d].before matches Some(gone) && list[a].after matches Some(new) && {
            &&& gone is File
            &&& new is File
            &&& gone->size == new->size
            &&& gone->hash == new->hash
        },
{
    equal_fingerprints_mean_equal_contents(list[d].before->0, list[a].after->0);
}

/// Every deletion and addition of equal files that could be a rename is part of
/// one: where neither is, their sizes or their hashes differ.
pub proof fn no_rename_is_left(list: Seq<ChangeView>, d: int, a: int)
    requires
        0 <= d < list.len(),
        0 <= a < list.len(),
        list[d].kind == WorkspaceChangeKind::Deleted,
        list[a].kind == WorkspaceChangeKind::Added,
        list[d].before matches Some(gone) && gone is File,
        list[a].after matches Some(new) && new is File,
        !is_rename_source(list, d),
        !is_rename_target(list, a),
    ensures
        list[d].before->0->size != list[a].after->0->size || list[d].before->0->hash != list[a].after->0->hash,
{
    let n = list.len() as int;
    if fingerprint(list[d].before->0) == fingerprint(list[a].after->0) {
        let print = fingerprint(list[d].before->0)->0;
        let rank = count_deleted(list, print, d);
        if rank < count_added(list, print, n) {
            let other = lemma_added_rank(list, print, rank, n);
            assert(renames(list, d, other));
        } else {
            lemma_added_count_grows(list, print, a, n);
            let other = lemma_deleted_rank(list, print, count_added(list, print, a), d);
            assert(renames(list, other, a));
        }
        assert(false);
    }
}

/// The sources of renames among the first `n` changes.
spec fn sources(list: Seq<ChangeView>, n: int) -> Set<int> {
    Set::new(|d: int| 0 <= d < n && is_rename_source(list, d))
}

/// The targets of renames among the first `n` changes.
spec fn targets(list: Seq<ChangeView>, n: int) -> Set<int> {
    Set::new(|a: int| 0 <= a < n && is_rename_target(list, a))
}

/// How the lists of told-apart and recognised changes grow.
proof fn lemma_lengths(list: Seq<ChangeView>, n: int)
    requires
        0 <= n <= list.len(),
    ensures
        sources(list, n).finite(),
        targets(list, n).finite(),
        paired(list, n).len() == sources(list, n).len(),
        unpaired(list, n).len() + sources(list, n).len() + targets(list, n).len() == n,
        with_renames(list, n).len() + sources(list, n).len() == n,
    decreases n,
{
    lemma_rename_ends_differ(list);
    if n <= 0 {
        assert(sources(list, n) =~= Set::empty());
        assert(targets(list, n) =~= Set::empty());
    } else {
        lemma_lengths(list, n - 1);
        if is_rename_source(list, n - 1) {
            assert(sources(list, n) =~= sources(list, n - 1).insert(n - 1));
        } else {
            assert(sources(list, n) =~= sources(list, n - 1));
        }
        if is_rename_target(list, n - 1) {
            assert(targets(list, n) =~= targets(list, n - 1).insert(n - 1));
        } else {
            assert(targets(list, n) =~= targets(list, n - 1));
        }
    }
}

/// As many changes are sources of renames as are targets.
proof fn lemma_as_many_sources_as_targets(list: Seq<ChangeView>)
    ensures
        sources(list, list.len() as int).len() == targets(list, list.len() as int).len(),
{
    let n = list.len() as int;
    let from = sources(list, n);
    let to = targets(list, n);
    let f = |d: int| rename_target(list, d);
    lemma_lengths(list, n);
    assert(vstd::relations::injective_on(f, from)) by {
        assert forall|x: int, y: int| from.contains(x) && from.contains(y) && #[trigger] f(x) == #[trigger] f(y) implies x == y by {
            assert(renames(list, x, f(x)));
            assert(renames(list, y, f(y)));
            lemma_renames_unique(list, x, f(x), y, f(y));
        }
    }
    assert(from.map(f) =~= to) by {
        assert forall|a: int| to.contains(a) implies #[trigger] from.map(f).contains(a) by {
            let d = rename_source(list, a);
            assert(renames(list, d, a));
            assert(is_rename_source(list, d));
            assert(renames(list, d, f(d)));
            lemma_renames_unique(list, d, a, d, f(d));
            assert(from.contains(d) && f(d) == a);
        }
        assert forall|a: int| #[trigger] from.map(f).contains(a) implies to.contains(a) by {
            let d = choose|d: int| from.contains(d) && f(d) == a;
            assert(renames(list, d, f(d)));
        }
    }
    vstd::set_lib::lemma_map_size(from, to, f);
}

/// A rename stands for two changes, and every other change for itself.
pub proof fn every_change_is_accounted_for(list: Seq<ChangeView>)
    ensures
        unpaired(list, list.len() as int).len() + 2 * paired(list, list.len() as int).len() == list.len(),
        told_apart(list).len() + paired(list, list.len() as int).len() == list.len(),
{
    lemma_lengths(list, list.len() as int);
    lemma_as_many_sources_as_targets(list);
}

/// A kind of change seen from the other side.
pub open spec fn opposite(kind: WorkspaceChangeKind) -> WorkspaceChangeKind {
    match kind {
        WorkspaceChangeKind::Added => WorkspaceChangeKind::Deleted,
        WorkspaceChangeKind::Deleted => WorkspaceChangeKind::Added,
        _ => kind,
    }
}

/// A change seen from the other side.
pub open spec fn reversed(c: ChangeView) -> ChangeView {
    ChangeView {
        kind: opposite(c.kind),
        path: match c.source_path {
            Some(source) => source,
            None => c.path,
        },
        source_path: match c.source_path {
            Some(_) => Some(c.path),
            None => None,
        },
        before: c.after,
        after: c.before,
    }
}

/// The changes of the swapped manifests are the reversed ones.
proof fn lemma_reversed_listing(from: Map<Seq<char>, EntryView>, to: Map<Seq<char>, EntryView>)
    requires
        from.dom().finite(),
        to.dom().finite(),
    ensures
        listing(path_changes(to, from)) == listing(path_changes(from, to)).map_values(|c: ChangeView| reversed(c)),
        forall|i: int| 0 <= i < listing(path_changes(from, to)).len() ==> {
            let c = #[trigger] listing(path_changes(from, to))[i];
            &&& c.source_path is None
            &&& c.kind == WorkspaceChangeKind::Added <==> c.before is None
            &&& c.kind == WorkspaceChangeKind::Deleted <==> c.after is None
        },
{
    let m = path_changes(from, to);
    let n = path_changes(to, from);
    let list = listing(m);
    lemma_listed(from, to);
    lemma_listed(to, from);
    let other = list.map_values(|c: ChangeView| reversed(c));
    assert forall|i: int| 0 <= i < list.len() implies n.contains_key(#[trigger] other[i].path) && n[other[i].path] == other[i] by {
        assert(m.contains_key(list[i].path));
    }
    assert forall|path: Seq<char>| #[trigger] n.contains_key(path) implies exists|i: int| 0 <= i < other.len() && other[i].path == path by {
        assert(m.contains_key(path));
        let i = choose|i: int| 0 <= i < list.len() && list[i].path == path;
        assert(m.contains_key(list[i].path));
        assert(other[i].path == path);
    }
    assert forall|i: int, j: int| 0 <= i < j < other.len() implies crate::text::before(#[trigger] other[i].path, #[trigger] other[j].path) by {
        assert(m.contains_key(list[i].path));
        assert(m.contains_key(list[j].path));
        assert(crate::text::before(list[i].path, list[j].path));
    }
    assert(lists(other, n));
    lemma_listing_unique(listing(n), other, n);
    assert forall|i: int| 0 <= i < list.len() implies {
        let c = #[trigger] list[i];
        &&& c.source_path is None
        &&& c.kind == WorkspaceChangeKind::Added <==> c.before is None
        &&& c.kind == WorkspaceChangeKind::Deleted <==> c.after is None
    } by {
        assert(m.contains_key(list[i].path));
    }
}

/// Among the reversed changes, additions are counted as deletions were.
proof fn lemma_reversed_counts(list: Seq<ChangeView>, other: Seq<ChangeView>, print: Seq<char>, n: int)
    requires
        0 <= n <= list.len(),
        other == list.map_values(|c: ChangeView| reversed(c)),
    ensures
        count_added(other, print, n) == count_deleted(list, print, n),
        count_deleted(other, print, n) == count_added(list, print, n),
    decreases n,
{
    if n > 0 {
        lemma_reversed_counts(list, other, print, n - 1);
        assert(other[n - 1] == reversed(list[n - 1]));
    }
}

/// Among the reversed changes, renames lead the other way.
proof fn lemma_reversed_renames(list: Seq<ChangeView>, other: Seq<ChangeView>, d: int, a: int)
    requires
        other == list.map_values(|c: ChangeView| reversed(c)),
    ensures
        renames(other, a, d) == renames(list, d, a),
{
    if 0 <= d < list.len() && 0 <= a < list.len() {
        assert(other[d] == reversed(list[d]));
        assert(other[a] == reversed(list[a]));
        if deleted_print(list[d]) is Some {
            lemma_reversed_counts(list, other, deleted_print(list[d])->0, d);
            lemma_reversed_counts(list, other, deleted_print(list[d])->0, a);
        }
    }
}

/// Among the reversed changes, sources and targets trade places.
proof fn lemma_reversed_ends(list: Seq<ChangeView>, other: Seq<ChangeView>, i: int)
    requires
        other == list.map_values(|c: ChangeView| reversed(c)),
    ensures
        is_rename_source(other, i) == is_rename_target(list, i),
        is_rename_target(other, i) == is_rename_source(list, i),
{
    assert forall|k: int| #[trigger] renames(other, i, k) == renames(list, k, i) by {
        lemma_reversed_renames(list, other, k, i);
    }
    assert forall|k: int| #[trigger] renames(other, k, i) == renames(list, i, k) by {
        lemma_reversed_renames(list, other, i, k);
    }
    if is_rename_target(list, i) {
        let d = choose|d: int| #[trigger] renames(list, d, i);
        assert(renames(other, i, d));
    }
    if is_rename_source(list, i) {
        let a = choose|a: int| #[trigger] renames(list, i, a);
        assert(renames(other, a, i));
    }
    if is_rename_source(other, i) {
        let a = choose|a: int| #[trigger] renames(other, i, a);
        assert(renames(list, a, i));
    }
    if is_rename_target(other, i) {
        let d = choose|d: int| #[trigger] renames(other, d, i);
        assert(renames(list, i, d));
    }
}

/// What is told of a change is told of it from the other side.
proof fn lemma_reversed_member(from: Map<Seq<char>, EntryView>, to: Map<Seq<char>, EntryView>, c: ChangeView)
    requires
        from.dom().finite(),
        to.dom().finite(),
        diff_changes(from, to).contains(c),
    ensures
        diff_changes(to, from).contains(reversed(c)),
        reversed(reversed(c)) == c,
{
    let list = listing(path_changes(from, to));
    let other = listing(path_changes(to, from));
    let n = list.len() as int;
    lemma_reversed_listing(from, to);
    lemma_rename_ends_differ(list);
    let k = choose|k: int| 0 <= k < diff_changes(from, to).len() && diff_changes(from, to)[k] == c;
    let i = lemma_recognised_from(list, n, k);
    lemma_reversed_ends(list, other, i);
    assert(other[i] == reversed(list[i]));
    if is_rename_target(list, i) {
        let d = rename_source(list, i);
        assert(renames(list, d, i));
        assert(is_rename_source(list, d));
        lemma_reversed_ends(list, other, d);
        lemma_reversed_renames(list, other, d, i);
        assert(other[d] == reversed(list[d]));
        let s = rename_source(other, d);
        assert(renames(other, s, d));
        lemma_renames_unique(other, s, d, i, d);
        let at = lemma_recognised_into(other, n, d);
        assert(diff_changes(to, from)[at] == reversed(c));
    } else {
        let at = lemma_recognised_into(other, n, i);
        assert(diff_changes(to, from)[at] == reversed(c));
    }
}

/// Swapping the two sides of a diff turns every change round: additions become
/// deletions, renames lead back, and nothing else is told.
pub proof fn swapping_the_sides_reverses_a_diff(from: Map<Seq<char>, EntryView>, to: Map<Seq<char>, EntryView>)
    requires
        from.dom().finite(),
        to.dom().finite(),
    ensures
        forall|c: ChangeView| #[trigger] diff_changes(from, to).contains(c) ==> diff_changes(to, from).contains(reversed(c)),
        forall|c: ChangeView| #[trigger] diff_changes(to, from).contains(c) ==> diff_changes(from, to).contains(reversed(c)),
        forall|c: ChangeView| #[trigger] diff_changes(from, to).contains(c) ==> reversed(reversed(c)) == c,
        diff_changes(to, from).len() == diff_changes(from, to).len(),
{
    assert forall|c: ChangeView| #[trigger] diff_changes(from, to).contains(c) implies diff_changes(to, from).contains(reversed(c))
        && reversed(reversed(c)) == c by {
        lemma_reversed_member(from, to, c);
    }
    assert forall|c: ChangeView| #[trigger] diff_changes(to, from).contains(c) implies diff_changes(from, to).contains(reversed(c)) by {
        lemma_reversed_member(to, from, c);
    }
    let list = listing(path_changes(from, to));
    let other = listing(path_changes(to, from));
    let n = list.len() as int;
    lemma_reversed_listing(from, to);
    lemma_lengths(list, n);
    lemma_lengths(other, n);
    lemma_as_many_sources_as_targets(list);
    assert forall|i: int| #[trigger] sources(other, n).contains(i) == targets(list, n).contains(i) by {
        lemma_reversed_ends(list, other, i);
    }
    assert(sources(other, n) =~= targets(list, n));
}

/// The change concerns the path: as its own, or as the one it moved from.
pub open spec fn names(c: ChangeView, path: Seq<char>) -> bool {
    c.path == path || c.source_path == Some(path)
}

/// The place in the list of a path that a recognised change names.
proof fn lemma_named_index(list: Seq<ChangeView>, i: int, path: Seq<char>) -> (at: int)
    requires
        0 <= i < list.len(),
        recognised(list, i) is Some,
        names(recognised(list, i)->0, path),
        forall|k: int| 0 <= k < list.len() ==> (#[trigger] list[k]).source_path is None,
    ensures
        0 <= at < list.len(),
        list[at].path == path,
        at == i || renames(list, at, i),
{
    if list[i].path == path {
        i
    } else {
        assert(renames(list, rename_source(list, i), i));
        rename_source(list, i)
    }
}

/// No path is named by two changes of a diff, be it as the path or as the source.
pub proof fn no_path_changes_twice(
    from: Map<Seq<char>, EntryView>,
    to: Map<Seq<char>, EntryView>,
    i: int,
    j: int,
    path: Seq<char>,
)
    requires
        from.dom().finite(),
        to.dom().finite(),
        0 <= i < diff_changes(from, to).len(),
        0 <= j < diff_changes(from, to).len(),
        names(diff_changes(from, to)[i], path),
        names(diff_changes(from, to)[j], path),
    ensures
        i == j,
{
    let list = listing(path_changes(from, to));
    let n = list.len() as int;
    lemma_listed(from, to);
    lemma_reversed_listing(from, to);
    lemma_rename_ends_differ(list);
    lemma_with_renames_rise(list, n);
    let a = lemma_recognised_from(list, n, i);
    let b = lemma_recognised_from(list, n, j);
    let x = lemma_named_index(list, a, path);
    let y = lemma_named_index(list, b, path);
    if x < y {
        assert(crate::text::before(list[x].path, list[y].path));
        crate::text::lemma_before_irreflexive(path);
    } else if y < x {
        assert(crate::text::before(list[y].path, list[x].path));
        crate::text::lemma_before_irreflexive(path);
    }
    assert(x == y);
    if x == a && y != b {
        assert(is_rename_source(list, a));
    }
    if y == b && x != a {
        assert(is_rename_source(list, b));
    }
    if x != a && y != b {
        lemma_renames_unique(list, x, a, x, b);
    }
    assert(a == b);
    let changes = diff_changes(from, to);
    if i < j {
        assert(crate::text::before(changes[i].path, changes[j].path));
        crate::text::lemma_before_irreflexive(changes[i].path);
    } else if j < i {
        assert(crate::text::before(changes[j].path, changes[i].path));
        crate::text::lemma_before_irreflexive(changes[i].path);
    }
}

/// A path that changes is named by a change of the diff.
pub proof fn every_changed_path_is_named(from: Map<Seq<char>, EntryView>, to: Map<Seq<char>, EntryView>, path: Seq<char>) -> (k: int)
    requires
        from.dom().finite(),
        to.dom().finite(),
        lookup(from, path) != lookup(to, path),
    ensures
        0 <= k < diff_changes(from, to).len(),
        names(diff_changes(from, to)[k], path),
{
    let m = path_changes(from, to);
    let list = listing(m);
    let n = list.len() as int;
    lemma_listed(from, to);
    lemma_rename_ends_differ(list);
    assert(m.contains_key(path));
    let i = choose|i: int| 0 <= i < list.len() && list[i].path == path;
    if is_rename_source(list, i) {
        let a = choose|a: int| #[trigger] renames(list, i, a);
        assert(is_rename_target(list, a));
        let s = rename_source(list, a);
        assert(renames(list, s, a));
        lemma_renames_unique(list, i, a, s, a);
        lemma_recognised_into(list, n, a)
    } else {
        lemma_recognised_into(list, n, i)
    }
}

/// What a change says of the second manifest is so.
pub proof fn a_change_tells_the_second_manifest(from: Map<Seq<char>, EntryView>, to: Map<Seq<char>, EntryView>, k: int)
    requires
        from.dom().finite(),
        to.dom().finite(),
        0 <= k < diff_changes(from, to).len(),
    ensures
        ({
            let c = diff_changes(from, to)[k];
            &&& c.after == lookup(to, c.path)
            &&& c.kind == WorkspaceChangeKind::Deleted <==> c.after is None
            &&& c.kind == WorkspaceChangeKind::Renamed <==> c.source_path is Some
            &&& c.source_path matches Some(source) ==> !to.contains_key(source) && source != c.path
        }),
{
    let m = path_changes(from, to);
    let list = listing(m);
    lemma_listed(from, to);
    let i = lemma_recognised_from(list, list.len() as int, k);
    assert(m.contains_key(list[i].path));
    if is_rename_target(list, i) {
        let d = rename_source(list, i);
        assert(renames(list, d, i));
        assert(m.contains_key(list[d].path));
        assert(list[d].after is None && list[i].after is Some);
    }
}

} // verus!
