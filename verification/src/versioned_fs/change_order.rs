//! The order in which changes are listed.

use crate::text::{
    before, comes_before, lemma_before_asymmetric, lemma_before_irreflexive, lemma_before_total,
    lemma_before_transitive, same_text,
};
use crate::versioned_fs::diff::{change_views, ChangeView, WorkspaceChange};
use vstd::prelude::*;

verus! {

/// One source path comes before another; none comes first.
pub open spec fn source_before(a: Option<Seq<char>>, b: Option<Seq<char>>) -> bool {
    match (a, b) {
        (None, Some(_)) => true,
        (Some(x), Some(y)) => before(x, y),
        _ => false,
    }
}

/// One change comes before another: by path, then by source path.
pub open spec fn change_before(a: ChangeView, b: ChangeView) -> bool {
    before(a.path, b.path) || (a.path == b.path && source_before(a.source_path, b.source_path))
}

/// The changes at one place of the order.
pub open spec fn at_place(path: Seq<char>, source_path: Option<Seq<char>>) -> spec_fn(ChangeView) -> bool {
    |c: ChangeView| c.path == path && c.source_path == source_path
}

/// No change comes before an earlier one.
pub open spec fn ordered(list: Seq<ChangeView>) -> bool {
    forall|i: int, j: int| 0 <= i < j < list.len() ==> !change_before(#[trigger] list[j], #[trigger] list[i])
}

/// `sorted` holds the changes of `list` in order, and those at one place as they
/// stand in `list`.
pub open spec fn sorts(sorted: Seq<ChangeView>, list: Seq<ChangeView>) -> bool {
    &&& ordered(sorted)
    &&& sorted.to_multiset() == list.to_multiset()
    &&& forall|path: Seq<char>, source_path: Option<Seq<char>>|
        sorted.filter(#[trigger] at_place(path, source_path)) == list.filter(at_place(path, source_path))
}

/// The order is total and strict.
proof fn lemma_change_order(a: ChangeView, b: ChangeView)
    ensures
        change_before(a, b) || change_before(b, a) || (a.path == b.path && a.source_path == b.source_path),
        change_before(a, b) ==> !(a.path == b.path && a.source_path == b.source_path),
        change_before(a, b) ==> !change_before(b, a),
{
    lemma_before_total(a.path, b.path);
    lemma_before_irreflexive(a.path);
    if before(a.path, b.path) {
        lemma_before_asymmetric(a.path, b.path);
    }
    if a.path == b.path && a.source_path is Some && b.source_path is Some {
        lemma_before_total(a.source_path->0, b.source_path->0);
        lemma_before_irreflexive(a.source_path->0);
        if before(a.source_path->0, b.source_path->0) {
            lemma_before_asymmetric(a.source_path->0, b.source_path->0);
        }
    }
}

/// What comes before a change comes before all that do not come before that change.
proof fn lemma_change_before_chain(a: ChangeView, b: ChangeView, c: ChangeView)
    requires
        change_before(a, b),
        !change_before(c, b),
    ensures
        change_before(a, c),
{
    lemma_change_order(b, c);
    if change_before(b, c) {
        if before(a.path, b.path) && before(b.path, c.path) {
            lemma_before_transitive(a.path, b.path, c.path);
        }
        if a.source_path is Some && b.source_path is Some && c.source_path is Some {
            if before(a.source_path->0, b.source_path->0) && before(b.source_path->0, c.source_path->0) {
                lemma_before_transitive(a.source_path->0, b.source_path->0, c.source_path->0);
            }
        }
    }
}

/// Whether one change comes before another.
fn is_change_before(a: &WorkspaceChange, b: &WorkspaceChange) -> (r: bool)
    ensures
        r == change_before(a@, b@),
{
    proof {
        lemma_before_irreflexive(a.path@);
    }
    if same_text(a.path.as_str(), b.path.as_str()) {
        match (&a.source_path, &b.source_path) {
            (None, Some(_)) => true,
            (Some(x), Some(y)) => comes_before(x.as_str(), y.as_str()),
            _ => false,
        }
    } else {
        comes_before(a.path.as_str(), b.path.as_str())
    }
}

/// A change put behind those that do not come after it, and before the others,
/// is in its place.
proof fn lemma_inserted_change(sorted: Seq<ChangeView>, list: Seq<ChangeView>, c: ChangeView, at: int)
    requires
        sorts(sorted, list),
        0 <= at <= sorted.len(),
        forall|i: int| 0 <= i < at ==> !change_before(c, #[trigger] sorted[i]),
        forall|i: int| at <= i < sorted.len() ==> change_before(c, #[trigger] sorted[i]),
    ensures
        sorts(sorted.insert(at, c), list.push(c)),
{
    let now = sorted.insert(at, c);
    let front = sorted.take(at);
    let back = sorted.skip(at);
    assert(sorted =~= front + back);
    assert(now =~= front.push(c) + back);
    assert forall|i: int, j: int| 0 <= i < j < now.len() implies !change_before(#[trigger] now[j], #[trigger] now[i]) by {
        let a = if i < at { i } else { i - 1 };
        let b = if j < at { j } else { j - 1 };
        if i != at {
            assert(now[i] == sorted[a]);
        }
        if j != at {
            assert(now[j] == sorted[b]);
        }
        if i == at {
            lemma_change_order(c, sorted[b]);
        }
    }
    vstd::seq_lib::to_multiset_insert(sorted, at, c);
    vstd::seq_lib::to_multiset_build(list, c);
    assert forall|path: Seq<char>, source_path: Option<Seq<char>>|
        now.filter(#[trigger] at_place(path, source_path)) == list.push(c).filter(at_place(path, source_path)) by {
        let p = at_place(path, source_path);
        Seq::filter_distributes_over_add(front, back, p);
        Seq::filter_distributes_over_add(front.push(c), back, p);
        front.lemma_filter_push(c, p);
        list.lemma_filter_push(c, p);
        assert(sorted.filter(p) == list.filter(p));
        if p(c) {
            assert(back.filter(p).len() == 0) by {
                if back.filter(p).len() > 0 {
                    back.lemma_filter_pred(p, 0);
                    let x = back.filter(p)[0];
                    back.lemma_filter_contains_rev(p, x);
                    let k = choose|k: int| 0 <= k < back.len() && back[k] == x;
                    assert(back[k] == sorted[at + k]);
                    lemma_change_order(c, x);
                }
            }
            assert(now.filter(p) =~= list.push(c).filter(p));
        }
    }
}

/// Puts a change at its place, behind those at the same place.
pub fn insert_change(sorted: &mut Vec<WorkspaceChange>, change: WorkspaceChange)
    requires
        ordered(change_views(old(sorted)@)),
    ensures
        forall|list: Seq<ChangeView>| #[trigger]
            sorts(change_views(old(sorted)@), list) ==> sorts(change_views(final(sorted)@), list.push(change@)),
        ordered(change_views(final(sorted)@)),
{
    let ghost start = change_views(sorted@);
    let mut at: usize = 0;
    while at < sorted.len() && !is_change_before(&change, &sorted[at])
        invariant
            at <= sorted@.len(),
            start == change_views(sorted@),
            forall|i: int| 0 <= i < at ==> !change_before(change@, #[trigger] start[i]),
        decreases sorted@.len() - at,
    {
        assert(start[at as int] == sorted@[at as int]@);
        at = at + 1;
    }
    proof {
        assert forall|i: int| at <= i < start.len() implies change_before(change@, #[trigger] start[i]) by {
            assert(start[at as int] == sorted@[at as int]@);
            if i > at {
                lemma_change_before_chain(change@, start[at as int], start[i]);
            }
        }
    }
    sorted.insert(at, change);
    proof {
        let now = change_views(sorted@);
        assert(now =~= start.insert(at as int, change@));
        assert forall|list: Seq<ChangeView>| #[trigger] sorts(start, list) implies sorts(now, list.push(change@)) by {
            lemma_inserted_change(start, list, change@, at as int);
        }
        assert(sorts(start, start));
    }
}

} // verus!
