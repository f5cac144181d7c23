//! A map from strings to values, kept in ascending key order.

use crate::text::{
    before, comes_before, lemma_before_asymmetric, lemma_before_total, lemma_before_transitive,
    same_text,
};
use vstd::prelude::*;

verus! {

/// The keys of a list of pairs rise strictly.
pub open spec fn rising<V>(items: Seq<(String, V)>) -> bool {
    forall|i: int, j: int| 0 <= i < j < items.len() ==> before(#[trigger] items[i].0@, #[trigger] items[j].0@)
}

/// The list holds a pair with this key.
pub open spec fn has_key<V>(items: Seq<(String, V)>, key: Seq<char>) -> bool {
    exists|i: int| 0 <= i < items.len() && #[trigger] items[i].0@ == key
}

/// The position of a key.
pub open spec fn key_index<V>(items: Seq<(String, V)>, key: Seq<char>) -> int {
    choose|i: int| 0 <= i < items.len() && #[trigger] items[i].0@ == key
}

/// The map that a list of pairs stands for.
pub open spec fn pairs_map<V>(items: Seq<(String, V)>) -> Map<Seq<char>, V> {
    Map::new(|key: Seq<char>| has_key(items, key), |key: Seq<char>| items[key_index(items, key)].1)
}

/// The keys of a list of pairs.
pub open spec fn pair_keys<V>(items: Seq<(String, V)>) -> Seq<Seq<char>> {
    items.map_values(|item: (String, V)| item.0@)
}

/// In a rising list a key stands at one position only.
pub proof fn lemma_key_index<V>(items: Seq<(String, V)>, i: int)
    requires
        rising(items),
        0 <= i < items.len(),
    ensures
        has_key(items, items[i].0@),
        key_index(items, items[i].0@) == i,
        pairs_map(items).contains_key(items[i].0@),
        pairs_map(items)[items[i].0@] == items[i].1,
{
    let k = key_index(items, items[i].0@);
    assert(0 <= k < items.len() && items[k].0@ == items[i].0@);
    if k < i {
        lemma_before_asymmetric(items[k].0@, items[i].0@);
    } else if i < k {
        lemma_before_asymmetric(items[i].0@, items[k].0@);
    }
}

/// A map from strings to values.
#[derive(Debug, PartialEq, Eq)]
pub struct StringMap<V> {
    pub items: Vec<(String, V)>,
}

impl<V> View for StringMap<V> {
    type V = Map<Seq<char>, V>;

    open spec fn view(&self) -> Map<Seq<char>, V> {
        pairs_map(self.items@)
    }
}

impl<V> StringMap<V> {
    /// The keys rise strictly, so none occurs twice.
    pub open spec fn wf(&self) -> bool {
        rising(self.items@)
    }

    /// The keys in ascending order.
    pub open spec fn keys(&self) -> Seq<Seq<char>> {
        pair_keys(self.items@)
    }

    /// The empty map.
    pub fn new() -> (m: Self)
        ensures
            m.wf(),
            m@ == Map::<Seq<char>, V>::empty(),
            m.items@.len() == 0,
    {
        let m = StringMap { items: Vec::new() };
        assert(m@ =~= Map::<Seq<char>, V>::empty());
        m
    }

    /// How many keys the map holds.
    pub fn len(&self) -> (n: usize)
        ensures
            n == self.items@.len(),
    {
        self.items.len()
    }

    /// The first position whose key does not come before `key`.
    fn position(&self, key: &str) -> (at: usize)
        requires
            self.wf(),
        ensures
            at <= self.items@.len(),
            forall|i: int| 0 <= i < at ==> before(#[trigger] self.items@[i].0@, key@),
            forall|i: int| at <= i < self.items@.len() ==> !before(#[trigger] self.items@[i].0@, key@),
    {
        let mut at: usize = 0;
        while at < self.items.len() && comes_before(self.items[at].0.as_str(), key)
            invariant
                self.wf(),
                at <= self.items@.len(),
                forall|i: int| 0 <= i < at ==> before(#[trigger] self.items@[i].0@, key@),
            decreases self.items.len() - at,
        {
            at = at + 1;
        }
        proof {
            assert forall|i: int| at <= i < self.items@.len() implies !before(#[trigger] self.items@[i].0@, key@) by {
                if at < i && before(self.items@[i].0@, key@) {
                    lemma_before_transitive(self.items@[at as int].0@, self.items@[i].0@, key@);
                }
            }
        }
        at
    }

    /// The value of a key.
    pub fn get(&self, key: &str) -> (value: Option<&V>)
        requires
            self.wf(),
        ensures
            match value {
                Some(v) => self@.contains_key(key@) && *v == self@[key@],
                None => !self@.contains_key(key@),
            },
    {
        let at = self.position(key);
        if at < self.items.len() && same_text(self.items[at].0.as_str(), key) {
            proof {
                lemma_key_index(self.items@, at as int);
            }
            Some(&self.items[at].1)
        } else {
            proof {
                self.lemma_absent(key@, at as int);
            }
            None
        }
    }

    /// A key that is not at the position where it would stand is absent.
    proof fn lemma_absent(&self, key: Seq<char>, at: int)
        requires
            self.wf(),
            0 <= at <= self.items@.len(),
            forall|i: int| 0 <= i < at ==> before(#[trigger] self.items@[i].0@, key),
            forall|i: int| at <= i < self.items@.len() ==> !before(#[trigger] self.items@[i].0@, key),
            at < self.items@.len() ==> self.items@[at].0@ != key,
        ensures
            !has_key(self.items@, key),
            forall|i: int| at <= i < self.items@.len() ==> before(key, #[trigger] self.items@[i].0@),
    {
        assert forall|i: int| at <= i < self.items@.len() implies before(key, #[trigger] self.items@[i].0@) by {
            lemma_before_total(key, self.items@[at].0@);
            if i > at {
                lemma_before_transitive(key, self.items@[at].0@, self.items@[i].0@);
            }
        }
        assert forall|i: int| 0 <= i < self.items@.len() implies #[trigger] self.items@[i].0@ != key by {
            if i < at {
                lemma_before_asymmetric(self.items@[i].0@, key);
            } else {
                lemma_before_asymmetric(key, self.items@[i].0@);
            }
        }
    }

    /// Whether the key is there.
    pub fn contains_key(&self, key: &str) -> (found: bool)
        requires
            self.wf(),
        ensures
            found == self@.contains_key(key@),
    {
        self.get(key).is_some()
    }

    /// Binds a key to a value, in place of any earlier value.
    pub fn insert(&mut self, key: String, value: V)
        requires
            old(self).wf(),
        ensures
            final(self).wf(),
            final(self)@ == old(self)@.insert(key@, value),
    {
        let at = self.position(key.as_str());
        let ghost start = self.items@;
        if at < self.items.len() && same_text(self.items[at].0.as_str(), key.as_str()) {
            self.items.set(at, (key, value));
            proof {
                let now = self.items@;
                assert(forall|i: int| 0 <= i < now.len() ==> #[trigger] now[i].0@ == start[i].0@);
                assert(rising(now));
                lemma_same_bindings(start, now, key@, value, at as int);
            }
        } else {
            proof {
                self.lemma_absent(key@, at as int);
            }
            self.items.insert(at, (key, value));
            proof {
                let now = self.items@;
                assert(now == start.insert(at as int, (key, value)));
                assert(rising(now)) by {
                    assert forall|i: int, j: int| 0 <= i < j < now.len() implies before(#[trigger] now[i].0@, #[trigger] now[j].0@) by {
                        let a = if i < at { i } else { i - 1 };
                        let b = if j < at { j } else { j - 1 };
                        if i != at && j != at {
                            assert(now[i] == start[a] && now[j] == start[b]);
                        } else if i == at {
                            assert(now[j] == start[b]);
                        } else {
                            assert(now[i] == start[a]);
                        }
                    }
                }
                lemma_inserted(start, now, key@, value, at as int);
            }
        }
    }

    /// Removes a key, if it is there.
    pub fn remove(&mut self, key: &str)
        requires
            old(self).wf(),
        ensures
            final(self).wf(),
            final(self)@ == old(self)@.remove(key@),
    {
        let at = self.position(key);
        let ghost start = self.items@;
        if at < self.items.len() && same_text(self.items[at].0.as_str(), key) {
            let _ = self.items.remove(at);
            proof {
                let now = self.items@;
                assert(now == start.remove(at as int));
                assert(rising(now)) by {
                    assert forall|i: int, j: int| 0 <= i < j < now.len() implies before(#[trigger] now[i].0@, #[trigger] now[j].0@) by {
                        let a = if i < at { i } else { i + 1 };
                        let b = if j < at { j } else { j + 1 };
                        assert(now[i] == start[a] && now[j] == start[b]);
                    }
                }
                lemma_removed(start, now, key@, at as int);
            }
        } else {
            proof {
                self.lemma_absent(key@, at as int);
            }
            assert(self@ =~= old(self)@.remove(key@));
        }
    }

    /// Appends a key that comes after all the others.
    pub fn push_last(&mut self, key: String, value: V)
        requires
            old(self).wf(),
            old(self).items@.len() > 0 ==> before(old(self).items@.last().0@, key@),
        ensures
            final(self).wf(),
            final(self)@ == old(self)@.insert(key@, value),
            final(self).items@ == old(self).items@.push((key, value)),
    {
        let ghost start = self.items@;
        self.items.push((key, value));
        proof {
            let now = self.items@;
            assert(rising(now)) by {
                assert forall|i: int, j: int| 0 <= i < j < now.len() implies before(#[trigger] now[i].0@, #[trigger] now[j].0@) by {
                    if j == start.len() && i < start.len() - 1 {
                        lemma_before_transitive(start[i].0@, start.last().0@, key@);
                    }
                }
            }
            assert forall|i: int| 0 <= i < start.len() implies #[trigger] start[i].0@ != key@ by {
                assert(before(now[i].0@, now[start.len() as int].0@));
                lemma_before_asymmetric(start[i].0@, key@);
            }
            assert(now =~= start.insert(start.len() as int, (key, value)));
            lemma_inserted(start, now, key@, value, start.len() as int);
        }
    }
}

/// Overwriting a value binds its key anew.
proof fn lemma_same_bindings<V>(start: Seq<(String, V)>, now: Seq<(String, V)>, key: Seq<char>, value: V, at: int)
    requires
        rising(start),
        rising(now),
        0 <= at < start.len(),
        start[at].0@ == key,
        now[at].0@ == key,
        now[at].1 == value,
        now.len() == start.len(),
        forall|i: int| 0 <= i < start.len() && i != at ==> #[trigger] now[i] == start[i],
    ensures
        pairs_map(now) == pairs_map(start).insert(key, value),
{
    let result = pairs_map(start).insert(key, value);
    assert forall|k: Seq<char>| pairs_map(now).contains_key(k) == #[trigger] result.contains_key(k) by {
        if has_key(now, k) {
            let i = key_index(now, k);
            if i != at {
                assert(start[i].0@ == k);
            }
        }
        if has_key(start, k) {
            let i = key_index(start, k);
            assert(now[i].0@ == k);
        }
        if k == key {
            assert(now[at].0@ == k);
        }
    }
    assert forall|k: Seq<char>| pairs_map(now).contains_key(k) implies pairs_map(now)[k] == #[trigger] result[k] by {
        let i = key_index(now, k);
        lemma_key_index(now, i);
        if i != at {
            lemma_key_index(start, i);
            lemma_before_distinct(now, i, at);
        }
    }
    assert(pairs_map(now) =~= result);
}

/// Different positions hold different keys.
pub proof fn lemma_before_distinct<V>(items: Seq<(String, V)>, i: int, j: int)
    requires
        rising(items),
        0 <= i < items.len(),
        0 <= j < items.len(),
        i != j,
    ensures
        items[i].0@ != items[j].0@,
{
    if i < j {
        lemma_before_asymmetric(items[i].0@, items[j].0@);
    } else {
        lemma_before_asymmetric(items[j].0@, items[i].0@);
    }
}

/// Inserting a pair with a new key binds the key.
proof fn lemma_inserted<V>(start: Seq<(String, V)>, now: Seq<(String, V)>, key: Seq<char>, value: V, at: int)
    requires
        rising(start),
        rising(now),
        0 <= at <= start.len(),
        now.len() == start.len() + 1,
        now[at].0@ == key,
        now[at].1 == value,
        forall|i: int| 0 <= i < at ==> #[trigger] now[i] == start[i],
        forall|i: int| at <= i < start.len() ==> now[i + 1] == #[trigger] start[i],
    ensures
        pairs_map(now) == pairs_map(start).insert(key, value),
{
    let result = pairs_map(start).insert(key, value);
    assert forall|k: Seq<char>| pairs_map(now).contains_key(k) == #[trigger] result.contains_key(k) by {
        if has_key(now, k) {
            let i = key_index(now, k);
            if i < at {
                assert(start[i].0@ == k);
            } else if i > at {
                assert(start[i - 1].0@ == k);
            }
        }
        if has_key(start, k) {
            let i = key_index(start, k);
            if i < at {
                assert(now[i].0@ == k);
            } else {
                assert(now[i + 1].0@ == k);
            }
        }
        if k == key {
            assert(now[at].0@ == k);
        }
    }
    assert forall|k: Seq<char>| pairs_map(now).contains_key(k) implies pairs_map(now)[k] == #[trigger] result[k] by {
        let i = key_index(now, k);
        lemma_key_index(now, i);
        if i < at {
            lemma_key_index(start, i);
            lemma_before_distinct(now, i, at);
        } else if i > at {
            assert(now[i] == start[i - 1]);
            lemma_key_index(start, i - 1);
            lemma_before_distinct(now, i, at);
        }
    }
    assert(pairs_map(now) =~= result);
}

/// Removing a pair unbinds its key.
proof fn lemma_removed<V>(start: Seq<(String, V)>, now: Seq<(String, V)>, key: Seq<char>, at: int)
    requires
        rising(start),
        rising(now),
        0 <= at < start.len(),
        now.len() == start.len() - 1,
        start[at].0@ == key,
        forall|i: int| 0 <= i < at ==> now[i] == #[trigger] start[i],
        forall|i: int| at < i < start.len() ==> now[i - 1] == #[trigger] start[i],
    ensures
        pairs_map(now) == pairs_map(start).remove(key),
{
    let result = pairs_map(start).remove(key);
    assert forall|k: Seq<char>| pairs_map(now).contains_key(k) == #[trigger] result.contains_key(k) by {
        if has_key(now, k) {
            let i = key_index(now, k);
            if i < at {
                assert(start[i].0@ == k);
                lemma_before_distinct(start, i, at);
            } else {
                assert(start[i + 1].0@ == k);
                lemma_before_distinct(start, i + 1, at);
            }
        }
        if has_key(start, k) && k != key {
            let i = key_index(start, k);
            if i < at {
                assert(now[i].0@ == k);
            } else {
                assert(now[i - 1].0@ == k);
            }
        }
    }
    assert forall|k: Seq<char>| pairs_map(now).contains_key(k) implies pairs_map(now)[k] == #[trigger] result[k] by {
        let i = key_index(now, k);
        lemma_key_index(now, i);
        if i < at {
            lemma_key_index(start, i);
            lemma_before_distinct(start, i, at);
        } else {
            assert(now[i] == start[i + 1]);
            lemma_key_index(start, i + 1);
            lemma_before_distinct(start, i + 1, at);
        }
    }
    assert(pairs_map(now) =~= result);
}

/// A map holds finitely many keys.
pub proof fn maps_are_finite<V>(map: StringMap<V>)
    ensures
        map@.dom().finite(),
{
    let keys = pair_keys(map.items@);
    assert(map@.dom() =~= keys.to_set()) by {
        assert forall|key: Seq<char>| #[trigger] map@.dom().contains(key) == keys.to_set().contains(key) by {
            if has_key(map.items@, key) {
                let i = key_index(map.items@, key);
                assert(keys[i] == key);
            }
            if keys.contains(key) {
                let i = choose|i: int| 0 <= i < keys.len() && keys[i] == key;
                assert(map.items@[i].0@ == key);
            }
        }
    }
    vstd::seq_lib::seq_to_set_is_finite(keys);
}

} // verus!
