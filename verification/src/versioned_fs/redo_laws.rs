//! Laws of the redo journal: the changes of a diff can be redone in any order.

use crate::run_id::RunId;
use crate::versioned_fs::diff::{diff_changes, ChangeView};
use crate::versioned_fs::diff_laws::{
    a_change_tells_the_second_manifest, every_changed_path_is_named, names,
};
use crate::versioned_fs::entry::{lookup, EntryView};
use crate::versioned_fs::journal::{journal_of, redo, redoes, replayed, JournalEventView};
use vstd::prelude::*;

verus! {

/// One of the first `n` changes names the path.
spec fn named(order: Seq<ChangeView>, n: int, path: Seq<char>) -> bool {
    exists|i: int| 0 <= i < n && #[trigger] names(order[i], path)
}

/// Redoing a change gives the paths that it names what the second manifest
/// records of them, and leaves every other path alone.
proof fn lemma_redo_one(
    from: Map<Seq<char>, EntryView>,
    to: Map<Seq<char>, EntryView>,
    c: ChangeView,
    e: JournalEventView,
    m: Map<Seq<char>, EntryView>,
)
    requires
        from.dom().finite(),
        to.dom().finite(),
        diff_changes(from, to).contains(c),
        redoes(e, c),
    ensures
        redo(m, e) is Some,
        forall|path: Seq<char>|
            #[trigger] lookup(redo(m, e)->0, path) == (if names(c, path) {
                lookup(to, path)
            } else {
                lookup(m, path)
            }),
{
    let k = choose|k: int| 0 <= k < diff_changes(from, to).len() && diff_changes(from, to)[k] == c;
    a_change_tells_the_second_manifest(from, to, k);
}

/// Once the first `n` changes have been redone, the paths that they name are as
/// in the second manifest, and the others as in the first.
proof fn lemma_redo_in_order(
    from: Map<Seq<char>, EntryView>,
    to: Map<Seq<char>, EntryView>,
    order: Seq<ChangeView>,
    events: Seq<JournalEventView>,
    n: int,
) -> (m: Map<Seq<char>, EntryView>)
    requires
        from.dom().finite(),
        to.dom().finite(),
        forall|i: int| 0 <= i < order.len() ==> diff_changes(from, to).contains(#[trigger] order[i]),
        events.len() == order.len(),
        forall|i: int| 0 <= i < order.len() ==> redoes(#[trigger] events[i], order[i]),
        0 <= n <= order.len(),
    ensures
        replayed(from, events, None, None, n) == Ok::<(Map<Seq<char>, EntryView>, nat), nat>((m, n as nat)),
        forall|path: Seq<char>|
            #[trigger] lookup(m, path) == (if named(order, n, path) {
                lookup(to, path)
            } else {
                lookup(from, path)
            }),
    decreases n,
{
    if n == 0 {
        from
    } else {
        let so_far = lemma_redo_in_order(from, to, order, events, n - 1);
        let e = events[n - 1];
        let c = order[n - 1];
        assert(redoes(e, c));
        lemma_redo_one(from, to, c, e, so_far);
        let next = redo(so_far, e)->0;
        assert forall|path: Seq<char>|
            #[trigger] lookup(next, path) == (if named(order, n, path) {
                lookup(to, path)
            } else {
                lookup(from, path)
            }) by {
            assert(lookup(so_far, path) == (if named(order, n - 1, path) {
                lookup(to, path)
            } else {
                lookup(from, path)
            }));
            if named(order, n - 1, path) {
                let i = choose|i: int| 0 <= i < n - 1 && #[trigger] names(order[i], path);
                assert(names(order[i], path));
            }
            if names(c, path) {
                assert(names(order[n - 1], path));
            } else if named(order, n, path) {
                let i = choose|i: int| 0 <= i < n && #[trigger] names(order[i], path);
                assert(i < n - 1);
            }
        }
        next
    }
}

/// Redo in any order: whatever the order in which the changes of a diff are
/// redone on the first manifest, the second comes out, and every event applies.
pub proof fn redoing_in_any_order_reaches_the_target(
    from: Map<Seq<char>, EntryView>,
    to: Map<Seq<char>, EntryView>,
    order: Seq<ChangeView>,
    events: Seq<JournalEventView>,
)
    requires
        from.dom().finite(),
        to.dom().finite(),
        order.to_multiset() == diff_changes(from, to).to_multiset(),
        events.len() == order.len(),
        forall|i: int| 0 <= i < order.len() ==> redoes(#[trigger] events[i], order[i]),
    ensures
        replayed(from, events, None, None, events.len() as int) == Ok::<(Map<Seq<char>, EntryView>, nat), nat>(
            (to, events.len()),
        ),
{
    let changes = diff_changes(from, to);
    assert forall|c: ChangeView| #[trigger] order.contains(c) <==> changes.contains(c) by {
        vstd::seq_lib::to_multiset_contains(order, c);
        vstd::seq_lib::to_multiset_contains(changes, c);
    }
    assert forall|i: int| 0 <= i < order.len() implies changes.contains(#[trigger] order[i]) by {
        assert(order.contains(order[i]));
    }
    let n = order.len() as int;
    let m = lemma_redo_in_order(from, to, order, events, n);
    assert forall|path: Seq<char>| #[trigger] lookup(m, path) == lookup(to, path) by {
        if lookup(from, path) != lookup(to, path) {
            let k = every_changed_path_is_named(from, to, path);
            assert(changes.contains(changes[k]));
            assert(order.contains(changes[k]));
            let i = choose|i: int| 0 <= i < order.len() && order[i] == changes[k];
            assert(names(order[i], path));
            assert(named(order, n, path));
        }
    }
    assert forall|path: Seq<char>| m.contains_key(path) == #[trigger] to.contains_key(path) by {
        assert(lookup(m, path) == lookup(to, path));
    }
    assert forall|path: Seq<char>| m.contains_key(path) implies m[path] == #[trigger] to[path] by {
        assert(lookup(m, path) == lookup(to, path));
    }
    assert(m =~= to);
}

/// Redo: replaying the whole journal of the changes from one manifest to
/// another, on the first, gives the second, and applies every event.
pub proof fn replaying_the_journal_reaches_the_target(
    from: Map<Seq<char>, EntryView>,
    to: Map<Seq<char>, EntryView>,
    run_id: RunId,
    from_id: Seq<char>,
    to_id: Seq<char>,
    stamps: Seq<u128>,
)
    requires
        from.dom().finite(),
        to.dom().finite(),
    ensures
        ({
            let events = journal_of(run_id, from_id, to_id, diff_changes(from, to), stamps);
            replayed(from, events, None, None, events.len() as int) == Ok::<
                (Map<Seq<char>, EntryView>, nat),
                nat,
            >((to, events.len()))
        }),
{
    let changes = diff_changes(from, to);
    let events = journal_of(run_id, from_id, to_id, changes, stamps);
    redoing_in_any_order_reaches_the_target(from, to, changes, events);
}

} // verus!
