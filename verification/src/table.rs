//! Ordered tables from texts to values.

use vstd::prelude::*;

use crate::dup::Dup;
use crate::text;
use crate::text::{precedes, same};

verus! {

/// A table from texts to values, in the order of its keys.
pub struct Table<V> {
    pub entries: Vec<(String, V)>,
}

impl<V: DeepView> DeepView for Table<V> {
    type V = Seq<(Seq<char>, V::V)>;

    open spec fn deep_view(&self) -> Seq<(Seq<char>, V::V)> {
        self.entries.deep_view()
    }
}

/// The first place at or after `from` that holds `key`.
pub open spec fn place_from<V>(t: Seq<(Seq<char>, V)>, key: Seq<char>, from: int) -> Option<int>
    decreases t.len() - from,
{
    if from < 0 || from >= t.len() {
        None
    } else if t[from].0 == key {
        Some(from)
    } else {
        place_from(t, key, from + 1)
    }
}

/// The value that the table holds under `key`.
pub open spec fn lookup<V>(t: Seq<(Seq<char>, V)>, key: Seq<char>) -> Option<V> {
    match place_from(t, key, 0) {
        Some(i) => Some(t[i].1),
        None => None,
    }
}

/// The table holds `key`.
pub open spec fn has_key<V>(t: Seq<(Seq<char>, V)>, key: Seq<char>) -> bool {
    place_from(t, key, 0) is Some
}

/// The place at or after `from` at which `key` stands or belongs: the first
/// whose key does not come before `key`.
pub open spec fn slot_from<V>(t: Seq<(Seq<char>, V)>, key: Seq<char>, from: int) -> int
    decreases t.len() - from,
{
    if from < 0 || from >= t.len() {
        t.len() as int
    } else if text::before(t[from].0, key) {
        slot_from(t, key, from + 1)
    } else {
        from
    }
}

/// The table with `value` under `key`, and all else as it was.
pub open spec fn put<V>(t: Seq<(Seq<char>, V)>, key: Seq<char>, value: V) -> Seq<(Seq<char>, V)> {
    let i = slot_from(t, key, 0);
    if i < t.len() && t[i].0 == key {
        t.update(i, (key, value))
    } else {
        t.insert(i, (key, value))
    }
}

/// The table without `key`, and all else as it was.
pub open spec fn without<V>(t: Seq<(Seq<char>, V)>, key: Seq<char>) -> Seq<(Seq<char>, V)> {
    match place_from(t, key, 0) {
        Some(i) => t.remove(i),
        None => t,
    }
}

/// The table with `value` in place of what it holds under `key`; the table as it
/// is where it does not hold `key`.
pub open spec fn amended<V>(t: Seq<(Seq<char>, V)>, key: Seq<char>, value: V) -> Seq<(Seq<char>, V)> {
    match place_from(t, key, 0) {
        Some(i) => t.update(i, (key, value)),
        None => t,
    }
}

/// The keys stand in strictly increasing order, so each occurs once.
pub open spec fn sorted<V>(t: Seq<(Seq<char>, V)>) -> bool {
    forall|i: int, j: int| 0 <= i < j < t.len() ==> text::before(#[trigger] t[i].0, #[trigger] t[j].0)
}

/// The keys, in order.
pub open spec fn keys_of<V>(t: Seq<(Seq<char>, V)>) -> Seq<Seq<char>> {
    t.map_values(|e: (Seq<char>, V)| e.0)
}

pub proof fn place_from_facts<V>(t: Seq<(Seq<char>, V)>, key: Seq<char>, from: int)
    requires
        0 <= from,
    ensures
        place_from(t, key, from) matches Some(i) ==> from <= i < t.len() && t[i].0 == key && (forall|j: int|
            from <= j < i ==> (#[trigger] t[j]).0 != key),
        place_from(t, key, from) is None ==> forall|j: int| from <= j < t.len() ==> (#[trigger] t[j]).0 != key,
    decreases t.len() - from,
{
    if from < t.len() && t[from].0 != key {
        place_from_facts(t, key, from + 1);
    }
}

/// A place that holds the key, with none before it, is the place found.
pub proof fn place_from_is<V>(t: Seq<(Seq<char>, V)>, key: Seq<char>, from: int, i: int)
    requires
        0 <= from <= i < t.len(),
        t[i].0 == key,
        forall|j: int| from <= j < i ==> (#[trigger] t[j]).0 != key,
    ensures
        place_from(t, key, from) == Some(i),
    decreases i - from,
{
    if from < i {
        place_from_is(t, key, from + 1, i);
    }
}

pub proof fn place_from_none<V>(t: Seq<(Seq<char>, V)>, key: Seq<char>, from: int)
    requires
        0 <= from,
        forall|j: int| from <= j < t.len() ==> (#[trigger] t[j]).0 != key,
    ensures
        place_from(t, key, from) is None,
    decreases t.len() - from,
{
    if from < t.len() {
        place_from_none(t, key, from + 1);
    }
}

pub proof fn slot_from_facts<V>(t: Seq<(Seq<char>, V)>, key: Seq<char>, from: int)
    requires
        0 <= from <= t.len(),
    ensures
        from <= slot_from(t, key, from) <= t.len(),
        forall|j: int| from <= j < slot_from(t, key, from) ==> text::before((#[trigger] t[j]).0, key),
        slot_from(t, key, from) < t.len() ==> !text::before(t[slot_from(t, key, from)].0, key),
    decreases t.len() - from,
{
    if from < t.len() && text::before(t[from].0, key) {
        slot_from_facts(t, key, from + 1);
    }
}

/// Storing under a key keeps the order of the keys.
pub proof fn put_keeps_order<V>(t: Seq<(Seq<char>, V)>, key: Seq<char>, value: V)
    requires
        sorted(t),
    ensures
        sorted(put(t, key, value)),
{
    slot_from_facts(t, key, 0);
    let i = slot_from(t, key, 0);
    let u = put(t, key, value);
    if i < t.len() && t[i].0 == key {
        assert forall|a: int, b: int| 0 <= a < b < u.len() implies text::before(#[trigger] u[a].0, #[trigger] u[b].0) by {
            assert(text::before(t[a].0, t[b].0));
        }
    } else {
        assert forall|a: int, b: int| 0 <= a < b < u.len() implies text::before(#[trigger] u[a].0, #[trigger] u[b].0) by {
            let ta = if a < i { a } else { a - 1 };
            let tb = if b < i { b } else { b - 1 };
            if a != i && b != i {
                assert(text::before(t[ta].0, t[tb].0));
            } else if a == i {
                // the new key stands before everything from its slot on
                text::before_is_total(key, t[i].0);
                if b - 1 > i {
                    assert(text::before(t[i].0, t[b - 1].0));
                    text::before_is_transitive(key, t[i].0, t[b - 1].0);
                }
            }
        }
    }
}

/// A value stored under a key is found under it, and storing it changes what is
/// found under no other key.
pub proof fn put_then_lookup<V>(t: Seq<(Seq<char>, V)>, key: Seq<char>, value: V, other: Seq<char>)
    ensures
        lookup(put(t, key, value), key) == Some(value),
        other != key ==> lookup(put(t, key, value), other) == lookup(t, other),
{
    slot_from_facts(t, key, 0);
    let i = slot_from(t, key, 0);
    let u = put(t, key, value);
    assert forall|j: int| 0 <= j < i implies (#[trigger] u[j]).0 != key by {
        text::before_is_total(key, t[j].0);
    }
    place_from_is(u, key, 0, i);
    if other != key {
        place_from_facts(t, other, 0);
        let inserted = !(i < t.len() && t[i].0 == key);
        match place_from(t, other, 0) {
            Some(p) => {
                let q = if inserted && p >= i { p + 1 } else { p };
                assert forall|j: int| 0 <= j < q implies (#[trigger] u[j]).0 != other by {
                    if inserted && j > i {
                        assert(u[j] == t[j - 1]);
                    } else if j < i {
                        assert(u[j] == t[j]);
                    }
                }
                assert(u[q] == t[p]);
                place_from_is(u, other, 0, q);
            },
            None => {
                assert forall|j: int| 0 <= j < u.len() implies (#[trigger] u[j]).0 != other by {
                    if inserted && j > i {
                        assert(u[j] == t[j - 1]);
                    } else if j < i {
                        assert(u[j] == t[j]);
                    }
                }
                place_from_none(u, other, 0);
            },
        }
    }
}

/// In an ordered table a key that is there keeps its place when it is stored
/// anew.
pub proof fn put_existing<V>(t: Seq<(Seq<char>, V)>, key: Seq<char>, value: V)
    requires
        sorted(t),
        has_key(t, key),
    ensures
        put(t, key, value).len() == t.len(),
        forall|k: Seq<char>| #[trigger] has_key(put(t, key, value), k) <==> has_key(t, k),
{
    place_from_facts(t, key, 0);
    slot_from_facts(t, key, 0);
    let p = place_from(t, key, 0)->0;
    let i = slot_from(t, key, 0);
    text::before_is_total(key, key);
    if i < p {
        assert(text::before(t[i].0, t[p].0));
    }
    assert(i == p);
    let u = put(t, key, value);
    assert forall|k: Seq<char>| #[trigger] has_key(u, k) <==> has_key(t, k) by {
        put_then_lookup(t, key, value, k);
    }
}

/// Storing under a key adds that key and no other.
pub proof fn put_adds_key<V>(t: Seq<(Seq<char>, V)>, key: Seq<char>, value: V, other: Seq<char>)
    ensures
        has_key(put(t, key, value), other) <==> other == key || has_key(t, other),
{
    put_then_lookup(t, key, value, other);
}

/// In an ordered table a removed key is gone, every other key is found as
/// before, and the order is kept.
pub proof fn without_then_lookup<V>(t: Seq<(Seq<char>, V)>, key: Seq<char>, other: Seq<char>)
    requires
        sorted(t),
    ensures
        sorted(without(t, key)),
        lookup(without(t, key), key) is None,
        other != key ==> lookup(without(t, key), other) == lookup(t, other),
{
    place_from_facts(t, key, 0);
    place_from_facts(t, other, 0);
    match place_from(t, key, 0) {
        Some(i) => {
            let u = without(t, key);
            assert forall|a: int, b: int| 0 <= a < b < u.len() implies text::before(#[trigger] u[a].0, #[trigger] u[b].0) by {
                let ta = if a < i { a } else { a + 1 };
                let tb = if b < i { b } else { b + 1 };
                assert(text::before(t[ta].0, t[tb].0));
            }
            assert forall|j: int| 0 <= j < u.len() implies (#[trigger] u[j]).0 != key by {
                text::before_is_total(key, key);
                if j >= i {
                    assert(text::before(t[i].0, t[j + 1].0));
                }
            }
            place_from_none(u, key, 0);
            if other != key {
                match place_from(t, other, 0) {
                    Some(p) => {
                        let q = if p > i { p - 1 } else { p };
                        assert forall|j: int| 0 <= j < q implies (#[trigger] u[j]).0 != other by {
                            if j >= i {
                                assert(u[j] == t[j + 1]);
                            }
                        }
                        place_from_is(u, other, 0, q);
                    },
                    None => {
                        assert forall|j: int| 0 <= j < u.len() implies (#[trigger] u[j]).0 != other by {
                            if j >= i {
                                assert(u[j] == t[j + 1]);
                            }
                        }
                        place_from_none(u, other, 0);
                    },
                }
            }
        },
        None => {
            place_from_none(t, key, 0);
        },
    }
}

/// Amending a key changes what is found under it and under no other key, and
/// keeps the keys in their places.
pub proof fn amended_then_lookup<V>(t: Seq<(Seq<char>, V)>, key: Seq<char>, value: V, other: Seq<char>)
    ensures
        has_key(t, key) ==> lookup(amended(t, key, value), key) == Some(value),
        other != key ==> lookup(amended(t, key, value), other) == lookup(t, other),
        keys_of(amended(t, key, value)) == keys_of(t),
        sorted(t) ==> sorted(amended(t, key, value)),
{
    let u = amended(t, key, value);
    place_from_facts(t, key, 0);
    place_from_facts(t, other, 0);
    assert(keys_of(u) =~= keys_of(t));
    assert forall|i: int| 0 <= i < u.len() implies (#[trigger] u[i]).0 == t[i].0 by {
        assert(keys_of(u)[i] == keys_of(t)[i]);
    }
    if let Some(i) = place_from(t, key, 0) {
        place_from_is(u, key, 0, i);
    }
    match place_from(t, other, 0) {
        Some(i) => place_from_is(u, other, 0, i),
        None => place_from_none(u, other, 0),
    }
}

impl<V: DeepView> Table<V> {
    /// A table that holds nothing.
    pub fn new() -> (t: Self)
        ensures
            t.deep_view() == Seq::<(Seq<char>, V::V)>::empty(),
            sorted(t.deep_view()),
    {
        let t = Table { entries: Vec::new() };
        proof {
            assert(t.deep_view() =~= Seq::<(Seq<char>, V::V)>::empty());
        }
        t
    }

    /// How many keys the table holds.
    pub fn len(&self) -> (n: usize)
        ensures
            n == self.deep_view().len(),
    {
        self.entries.len()
    }

    /// The place of `key`.
    pub fn position(&self, key: &str) -> (r: Option<usize>)
        ensures
            match r {
                Some(i) => place_from(self.deep_view(), key@, 0) == Some(i as int) && i < self.entries@.len(),
                None => place_from(self.deep_view(), key@, 0) is None,
            },
    {
        let mut i: usize = 0;
        while i < self.entries.len()
            invariant
                i <= self.entries@.len(),
                place_from(self.deep_view(), key@, 0) == place_from(self.deep_view(), key@, i as int),
            decreases self.entries@.len() - i,
        {
            proof {
                assert(self.deep_view()[i as int].0 == self.entries@[i as int].0@);
            }
            if same(self.entries[i].0.as_str(), key) {
                return Some(i);
            }
            i = i + 1;
        }
        None
    }

    /// The value under `key`.
    pub fn get(&self, key: &str) -> (r: Option<&V>)
        ensures
            match r {
                Some(v) => lookup(self.deep_view(), key@) == Some(v.deep_view()),
                None => lookup(self.deep_view(), key@) is None,
            },
    {
        match self.position(key) {
            Some(i) => Some(&self.entries[i].1),
            None => None,
        }
    }

    /// Whether the table holds `key`.
    pub fn contains_key(&self, key: &str) -> (b: bool)
        ensures
            b == has_key(self.deep_view(), key@),
    {
        self.position(key).is_some()
    }

    /// Stores `value` under `key`, in place of what was there.
    pub fn insert(&mut self, key: String, value: V)
        ensures
            final(self).deep_view() == put(old(self).deep_view(), key@, value.deep_view()),
            sorted(old(self).deep_view()) ==> sorted(final(self).deep_view()),
    {
        let ghost t = self.deep_view();
        let mut i: usize = 0;
        while i < self.entries.len() && precedes(self.entries[i].0.as_str(), key.as_str())
            invariant
                i <= self.entries@.len(),
                self.deep_view() == t,
                slot_from(t, key@, 0) == slot_from(t, key@, i as int),
            decreases self.entries@.len() - i,
        {
            proof {
                assert(t[i as int].0 == self.entries@[i as int].0@);
            }
            i = i + 1;
        }
        proof {
            if i < self.entries@.len() {
                assert(t[i as int].0 == self.entries@[i as int].0@);
            }
            if sorted(t) {
                put_keeps_order(t, key@, value.deep_view());
            }
        }
        let ghost k = key@;
        let ghost v = value.deep_view();
        let ghost before = self.entries@;
        if i < self.entries.len() && same(self.entries[i].0.as_str(), key.as_str()) {
            self.entries.set(i, (key, value));
            proof {
                assert(self.deep_view() =~= t.update(i as int, (k, v)));
            }
        } else {
            self.entries.insert(i, (key, value));
            proof {
                assert forall|j: int| 0 <= j < self.entries@.len() implies self.deep_view()[j] == t.insert(
                    i as int,
                    (k, v),
                )[j] by {
                    if j < i {
                        assert(self.entries@[j] == before[j]);
                    } else if j > i {
                        assert(self.entries@[j] == before[j - 1]);
                    }
                }
                assert(self.deep_view() =~= t.insert(i as int, (k, v)));
            }
        }
    }

    /// Stores `value` in place of what is under `key`; says whether anything was.
    pub fn amend(&mut self, key: &str, value: V) -> (was: bool)
        ensures
            was == has_key(old(self).deep_view(), key@),
            final(self).deep_view() == amended(old(self).deep_view(), key@, value.deep_view()),
            final(self).entries.len() == old(self).entries.len(),
            sorted(old(self).deep_view()) ==> sorted(final(self).deep_view()),
    {
        let ghost t = self.deep_view();
        let ghost v = value.deep_view();
        proof {
            amended_then_lookup(t, key@, v, key@);
            place_from_facts(t, key@, 0);
        }
        match self.position(key) {
            Some(i) => {
                let name = self.entries[i].0.clone();
                proof {
                    assert(t[i as int].0 == self.entries@[i as int].0@);
                }
                self.entries.set(i, (name, value));
                proof {
                    assert(self.deep_view() =~= t.update(i as int, (key@, v)));
                }
                true
            },
            None => false,
        }
    }

    /// Takes `key` out; says whether it was there.
    pub fn remove(&mut self, key: &str) -> (was: bool)
        ensures
            was == has_key(old(self).deep_view(), key@),
            final(self).deep_view() == without(old(self).deep_view(), key@),
            sorted(old(self).deep_view()) ==> sorted(final(self).deep_view()),
    {
        let ghost t = self.deep_view();
        match self.position(key) {
            Some(i) => {
                let ghost before = self.entries@;
                self.entries.remove(i);
                proof {
                    assert forall|j: int| 0 <= j < self.entries@.len() implies self.deep_view()[j] == t.remove(
                        i as int,
                    )[j] by {
                        if j < i {
                            assert(self.entries@[j] == before[j]);
                        } else {
                            assert(self.entries@[j] == before[j + 1]);
                        }
                    }
                    assert(self.deep_view() =~= t.remove(i as int));
                    if sorted(t) {
                        without_then_lookup(t, key@, key@);
                    }
                }
                true
            },
            None => false,
        }
    }
}

impl<V: Dup> Dup for Table<V> {
    fn dup(&self) -> (r: Self) {
        Table { entries: self.entries.dup() }
    }
}

/// A key is looked up where it first stands, and is there exactly where it
/// stands somewhere.
pub proof fn keys_are_found_where_they_stand<V>(t: Seq<(Seq<char>, V)>, key: Seq<char>, i: int)
    ensures
        has_key(t, key) <==> exists|j: int| 0 <= j < t.len() && (#[trigger] t[j]).0 == key,
        has_key(t, key) <==> lookup(t, key) is Some,
        has_key(t, key) <==> keys_of(t).contains(key),
        0 <= i < t.len() && t[i].0 == key && (forall|j: int| 0 <= j < i ==> (#[trigger] t[j]).0 != key) ==> lookup(t, key)
            == Some(t[i].1),
        0 <= i < t.len() && sorted(t) ==> lookup(t, t[i].0) == Some(t[i].1),
{
    place_from_facts(t, key, 0);
    if 0 <= i < t.len() && t[i].0 == key && (forall|j: int| 0 <= j < i ==> (#[trigger] t[j]).0 != key) {
        place_from_is(t, key, 0, i);
    }
    if 0 <= i < t.len() && sorted(t) {
        assert forall|j: int| 0 <= j < i implies (#[trigger] t[j]).0 != t[i].0 by {
            text::before_is_total(t[i].0, t[i].0);
            assert(text::before(t[j].0, t[i].0));
        }
        place_from_is(t, t[i].0, 0, i);
    }
    if has_key(t, key) {
        let p = place_from(t, key, 0)->0;
        assert(t[p].0 == key);
        assert(keys_of(t)[p] == key);
    }
    if keys_of(t).contains(key) {
        let p = choose|p: int| 0 <= p < t.len() && keys_of(t)[p] == key;
        assert(t[p].0 == key);
    }
}

/// Storing under a new key makes the table one longer, and taking a key out of
/// an ordered table undoes storing it there.
pub proof fn taking_out_undoes_storing<V>(t: Seq<(Seq<char>, V)>, key: Seq<char>, value: V)
    requires
        sorted(t),
        !has_key(t, key),
    ensures
        put(t, key, value).len() == t.len() + 1,
        without(put(t, key, value), key) == t,
{
    slot_from_facts(t, key, 0);
    place_from_facts(t, key, 0);
    let i = slot_from(t, key, 0);
    let u = put(t, key, value);
    assert(!(i < t.len() && t[i].0 == key));
    assert(u == t.insert(i, (key, value)));
    assert forall|j: int| 0 <= j < i implies (#[trigger] u[j]).0 != key by {
        assert(u[j] == t[j]);
    }
    place_from_is(u, key, 0, i);
    assert(u.remove(i) =~= t);
}

} // verus!
