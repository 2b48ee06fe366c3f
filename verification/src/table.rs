//! Small tables from identifiers to values, walked in the order the keys came in.

use vstd::prelude::*;
use crate::ids::Ident;

verus! {

/// A table. Keys keep the order in which they were first put in.
pub struct Table<K, V> {
    pub items: Vec<(K, V)>,
}

/// The place of `key` in `s`, if it has one.
pub open spec fn place<K, W>(s: Seq<(K, W)>, key: K) -> Option<int>
    decreases s.len(),
{
    if s.len() == 0 {
        None
    } else if s.last().0 == key {
        Some(s.len() - 1)
    } else {
        place(s.drop_last(), key)
    }
}

/// What `s` holds under `key`.
pub open spec fn lookup<K, W>(s: Seq<(K, W)>, key: K) -> Option<W> {
    match place(s, key) {
        Some(i) => Some(s[i].1),
        None => None,
    }
}

/// `s` with `value` under `key`.
pub open spec fn put<K, W>(s: Seq<(K, W)>, key: K, value: W) -> Seq<(K, W)> {
    match place(s, key) {
        Some(i) => s.update(i, (key, value)),
        None => s.push((key, value)),
    }
}

/// `s` with nothing under `key`.
pub open spec fn drop_key<K, W>(s: Seq<(K, W)>, key: K) -> Seq<(K, W)> {
    match place(s, key) {
        Some(i) => s.remove(i),
        None => s,
    }
}

/// Whether no key occurs twice.
pub open spec fn keyed<K, W>(s: Seq<(K, W)>) -> bool {
    forall|i: int, j: int| 0 <= i < j < s.len() ==> #[trigger] s[i].0 != #[trigger] s[j].0
}

/// Where a key is found, it stands; where it is not found, it stands nowhere.
pub proof fn place_is_where<K, W>(s: Seq<(K, W)>, key: K)
    ensures
        place(s, key) matches Some(i) ==> 0 <= i < s.len() && s[i].0 == key,
        place(s, key) is None ==> forall|i: int| 0 <= i < s.len() ==> (#[trigger] s[i]).0 != key,
    decreases s.len(),
{
    if s.len() > 0 && s.last().0 != key {
        place_is_where(s.drop_last(), key);
        if place(s, key) is None {
            assert forall|i: int| 0 <= i < s.len() implies (#[trigger] s[i]).0 != key by {
                if i < s.len() - 1 {
                    assert(s.drop_last()[i].0 != key);
                }
            }
        }
    }
}

/// A key that stands at `i` is found there, where keys are all different.
pub proof fn place_is_only<K, W>(s: Seq<(K, W)>, i: int)
    requires
        keyed(s),
        0 <= i < s.len(),
    ensures
        place(s, s[i].0) == Some(i),
{
    place_is_where(s, s[i].0);
    let j = place(s, s[i].0);
    if j is None {
        assert(s[i].0 != s[i].0);
    } else if j->0 < i {
        assert(s[j->0].0 != s[i].0);
    } else if j->0 > i {
        assert(s[i].0 != s[j->0].0);
    }
}

/// What is put under a key is found there, nothing else changes, and keys stay all different.
pub proof fn put_then_lookup<K, W>(s: Seq<(K, W)>, key: K, value: W, other: K)
    requires
        keyed(s),
    ensures
        keyed(put(s, key, value)),
        lookup(put(s, key, value), key) == Some(value),
        other != key ==> lookup(put(s, key, value), other) == lookup(s, other),
{
    let t = put(s, key, value);
    place_is_where(s, key);
    place_is_where(s, other);
    place_is_where(t, other);
    match place(s, key) {
        Some(i) => {
            assert forall|a: int, b: int| 0 <= a < b < t.len() implies #[trigger] t[a].0
                != #[trigger] t[b].0 by {
                assert(s[a].0 != s[b].0);
            }
            assert(t[i] == (key, value));
            place_is_only(t, i);
            if other != key {
                match place(s, other) {
                    Some(j) => {
                        assert(t[j] == s[j]);
                        place_is_only(t, j);
                    },
                    None => {
                        if let Some(j) = place(t, other) {
                            assert(s[j].0 == other);
                        }
                    },
                }
            }
        },
        None => {
            assert forall|a: int, b: int| 0 <= a < b < t.len() implies #[trigger] t[a].0
                != #[trigger] t[b].0 by {
                if b < s.len() {
                    assert(s[a].0 != s[b].0);
                } else {
                    assert(s[a].0 != key);
                }
            }
            assert(t[s.len() as int] == (key, value));
            place_is_only(t, s.len() as int);
            if other != key {
                match place(s, other) {
                    Some(j) => {
                        assert(t[j] == s[j]);
                        place_is_only(t, j);
                    },
                    None => {
                        if let Some(j) = place(t, other) {
                            assert(j < s.len());
                            assert(s[j].0 == other);
                        }
                    },
                }
            }
        },
    }
}

/// A key that is dropped is gone, nothing else changes, and keys stay all different.
pub proof fn drop_then_lookup<K, W>(s: Seq<(K, W)>, key: K, other: K)
    requires
        keyed(s),
    ensures
        keyed(drop_key(s, key)),
        lookup(drop_key(s, key), key) is None,
        other != key ==> lookup(drop_key(s, key), other) == lookup(s, other),
{
    let t = drop_key(s, key);
    place_is_where(s, key);
    place_is_where(s, other);
    place_is_where(t, key);
    place_is_where(t, other);
    if let Some(i) = place(s, key) {
        assert forall|a: int, b: int| 0 <= a < b < t.len() implies #[trigger] t[a].0
            != #[trigger] t[b].0 by {
            let a2 = if a < i {
                a
            } else {
                a + 1
            };
            let b2 = if b < i {
                b
            } else {
                b + 1
            };
            assert(s[a2].0 != s[b2].0);
        }
        if let Some(j) = place(t, key) {
            let j2 = if j < i {
                j
            } else {
                j + 1
            };
            assert(t[j] == s[j2]);
            if j2 < i {
                assert(s[j2].0 != s[i].0);
            } else {
                assert(s[i].0 != s[j2].0);
            }
        }
        if other != key {
            match place(s, other) {
                Some(j) => {
                    let j2 = if j < i {
                        j
                    } else {
                        j - 1
                    };
                    assert(t[j2] == s[j]);
                    place_is_only(t, j2);
                },
                None => {
                    if let Some(j) = place(t, other) {
                        let j2 = if j < i {
                            j
                        } else {
                            j + 1
                        };
                        assert(s[j2].0 == other);
                    }
                },
            }
        }
    }
}

impl<K, V: View> View for Table<K, V> {
    type V = Seq<(K, V::V)>;

    open spec fn view(&self) -> Seq<(K, V::V)> {
        Seq::new(self.items@.len(), |i: int| (self.items@[i].0, self.items@[i].1@))
    }
}

impl<K: Ident, V: View> Table<K, V> {
    /// A table with nothing in it.
    pub fn new() -> (t: Self)
        ensures
            t@ == Seq::<(K, V::V)>::empty(),
    {
        let t = Table { items: Vec::new() };
        assert(t@ =~= Seq::<(K, V::V)>::empty());
        t
    }

    /// The number of keys.
    pub fn len(&self) -> (n: usize)
        ensures
            n == self@.len(),
    {
        self.items.len()
    }

    /// The place of `key`, if it has one.
    pub fn find(&self, key: K) -> (at: Option<usize>)
        ensures
            match (at, place(self@, key)) {
                (Some(i), Some(j)) => i as int == j,
                (None, None) => true,
                _ => false,
            },
            at is Some ==> at->0 < self.items@.len(),
    {
        let mut i: usize = self.items.len();
        assert(self@.take(i as int) =~= self@);
        while i > 0
            invariant
                i <= self.items@.len(),
                place(self@, key) == place(self@.take(i as int), key),
            decreases i,
        {
            assert(self@.take(i as int).drop_last() =~= self@.take(i - 1));
            if self.items[i - 1].0.same(key) {
                return Some(i - 1);
            }
            i = i - 1;
        }
        None
    }

    /// Whether `key` is in the table.
    pub fn has(&self, key: K) -> (b: bool)
        ensures
            b == (lookup(self@, key) is Some),
    {
        self.find(key).is_some()
    }

    /// What stands under `key`.
    pub fn get(&self, key: K) -> (out: Option<&V>)
        ensures
            out is Some == lookup(self@, key) is Some,
            out is Some ==> Some(out->0@) == lookup(self@, key),
    {
        match self.find(key) {
            Some(i) => Some(&self.items[i].1),
            None => None,
        }
    }

    /// Put `value` under `key`.
    pub fn set(&mut self, key: K, value: V)
        ensures
            final(self)@ == put(old(self)@, key, value@),
    {
        let ghost before = self@;
        match self.find(key) {
            Some(i) => {
                self.items.set(i, (key, value));
                assert(self@ =~= before.update(i as int, (key, value@)));
            },
            None => {
                self.items.push((key, value));
                assert(self@ =~= before.push((key, value@)));
            },
        }
    }

    /// Take out what stands under `key`.
    pub fn take(&mut self, key: K) -> (out: Option<V>)
        ensures
            final(self)@ == drop_key(old(self)@, key),
            out is Some == lookup(old(self)@, key) is Some,
            out is Some ==> Some(out->0@) == lookup(old(self)@, key),
    {
        let ghost before = self@;
        match self.find(key) {
            Some(i) => {
                let (_, v) = self.items.remove(i);
                assert(self@ =~= before.remove(i as int));
                Some(v)
            },
            None => None,
        }
    }
}

} // verus!
