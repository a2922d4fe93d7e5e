//! Small maps whose keys are text.

use vstd::prelude::*;
use crate::addr::InternetAddr;

verus! {

/// A key that is known by its view.
pub trait TextKey: View + Sized {
    /// Whether the two keys are the same.
    fn same(&self, other: &Self) -> (r: bool)
        ensures
            r == (self@ == other@),
    ;
}

impl TextKey for String {
    fn same(&self, other: &Self) -> (r: bool) {
        *self == *other
    }
}

impl TextKey for InternetAddr {
    fn same(&self, other: &Self) -> (r: bool) {
        InternetAddr::same(self, other)
    }
}

/// A map, as a list of entries with distinct keys.
#[derive(Debug)]
pub struct KeyMap<K, V> {
    pub entries: Vec<(K, V)>,
}

/// Whether the `i`th entry has the key.
pub open spec fn key_at<K: View, V>(entries: Seq<(K, V)>, key: K::V, i: int) -> bool {
    0 <= i < entries.len() && entries[i].0@ == key
}

impl<K: TextKey, V> View for KeyMap<K, V> {
    type V = Map<K::V, V>;

    open spec fn view(&self) -> Map<K::V, V> {
        Map::new(
            |key: K::V| exists|i: int| key_at(self.entries@, key, i),
            |key: K::V| self.entries@[choose|i: int| key_at(self.entries@, key, i)].1,
        )
    }
}

impl<K: TextKey, V> KeyMap<K, V> {
    /// No key occurs twice.
    pub open spec fn wf(self) -> bool {
        forall|i: int, j: int|
            0 <= i < j < self.entries@.len() ==> (#[trigger] self.entries@[i]).0@ != (
            #[trigger] self.entries@[j]).0@
    }

    proof fn lemma_key_at(self, key: K::V, i: int)
        requires
            self.wf(),
            key_at(self.entries@, key, i),
        ensures
            self@.dom().contains(key),
            self@[key] == self.entries@[i].1,
            forall|j: int| #[trigger] key_at(self.entries@, key, j) ==> j == i,
    {
        assert forall|j: int| #[trigger] key_at(self.entries@, key, j) implies j == i by {
            if j < i {
                assert(self.entries@[j].0@ != self.entries@[i].0@);
            } else if i < j {
                assert(self.entries@[i].0@ != self.entries@[j].0@);
            }
        }
    }

    pub fn new() -> (r: Self)
        ensures
            r.wf(),
            r@ == Map::<K::V, V>::empty(),
    {
        let r = KeyMap { entries: Vec::new() };
        assert(r@ =~= Map::<K::V, V>::empty());
        r
    }

    fn find(&self, key: &K) -> (r: Option<usize>)
        requires
            self.wf(),
        ensures
            match r {
                Some(i) => key_at(self.entries@, key@, i as int),
                None => !self@.dom().contains(key@),
            },
    {
        let mut i: usize = 0;
        while i < self.entries.len()
            invariant
                i <= self.entries@.len(),
                forall|j: int| 0 <= j < i ==> (#[trigger] self.entries@[j]).0@ != key@,
            decreases self.entries@.len() - i,
        {
            if self.entries[i].0.same(key) {
                return Some(i);
            }
            i += 1;
        }
        None
    }

    pub fn get(&self, key: &K) -> (r: Option<&V>)
        requires
            self.wf(),
        ensures
            match r {
                Some(value) => self@.dom().contains(key@) && *value == self@[key@],
                None => !self@.dom().contains(key@),
            },
    {
        match self.find(key) {
            Some(i) => {
                proof {
                    self.lemma_key_at(key@, i as int);
                }
                Some(&self.entries[i].1)
            },
            None => None,
        }
    }

    /// Sets the value of a key, whether it had one or not.
    pub fn insert(&mut self, key: K, value: V)
        requires
            old(self).wf(),
        ensures
            final(self).wf(),
            final(self)@ == old(self)@.insert(key@, value),
    {
        let _ = self.remove(&key);
        let ghost before = *self;
        self.entries.push((key, value));
        proof {
            assert(self.wf()) by {
                assert forall|i: int, j: int| 0 <= i < j < self.entries@.len() implies (
                #[trigger] self.entries@[i]).0@ != (#[trigger] self.entries@[j]).0@ by {
                    if j == before.entries@.len() {
                        assert(self.entries@[i] == before.entries@[i]);
                        if self.entries@[i].0@ == key@ {
                            assert(key_at(before.entries@, key@, i));
                            before.lemma_key_at(key@, i);
                        }
                    } else {
                        assert(self.entries@[i] == before.entries@[i]);
                        assert(self.entries@[j] == before.entries@[j]);
                    }
                }
            }
            let n = before.entries@.len() as int;
            assert(key_at(self.entries@, key@, n));
            self.lemma_key_at(key@, n);
            assert forall|k: K::V| k != key@ implies (#[trigger] self@.dom().contains(k)
                <==> before@.dom().contains(k)) && (self@.dom().contains(k) ==> self@[k]
                == before@[k]) by {
                if before@.dom().contains(k) {
                    let i = choose|i: int| key_at(before.entries@, k, i);
                    assert(key_at(self.entries@, k, i));
                    before.lemma_key_at(k, i);
                    self.lemma_key_at(k, i);
                }
                if self@.dom().contains(k) {
                    let i = choose|i: int| key_at(self.entries@, k, i);
                    assert(i != n);
                    assert(key_at(before.entries@, k, i));
                }
            }
            assert(self@ =~= before@.insert(key@, value));
        }
    }

    /// Removes a key and hands back its value.
    pub fn remove(&mut self, key: &K) -> (r: Option<V>)
        requires
            old(self).wf(),
        ensures
            final(self).wf(),
            final(self)@ == old(self)@.remove(key@),
            match r {
                Some(value) => old(self)@.dom().contains(key@) && value == old(self)@[key@],
                None => !old(self)@.dom().contains(key@),
            },
    {
        match self.find(key) {
            None => {
                assert(self@ =~= old(self)@.remove(key@));
                None
            },
            Some(at) => {
                let ghost before = *self;
                proof {
                    before.lemma_key_at(key@, at as int);
                }
                let (_, value) = self.entries.remove(at);
                proof {
                    let after = self.entries@;
                    assert(forall|i: int| 0 <= i < at ==> after[i] == before.entries@[i]);
                    assert(forall|i: int|
                        at <= i < after.len() ==> after[i] == before.entries@[i + 1]);
                    assert(self.wf());
                    assert forall|k: K::V| k != key@ implies (#[trigger] self@.dom().contains(k)
                        <==> before@.dom().contains(k)) && (self@.dom().contains(k) ==> self@[k]
                        == before@[k]) by {
                        if before@.dom().contains(k) {
                            let i = choose|i: int| key_at(before.entries@, k, i);
                            let j = if i < at {
                                i
                            } else {
                                i - 1
                            };
                            assert(i != at);
                            assert(key_at(after, k, j));
                            before.lemma_key_at(k, i);
                            self.lemma_key_at(k, j);
                        }
                        if self@.dom().contains(k) {
                            let j = choose|j: int| key_at(after, k, j);
                            let i = if j < at {
                                j
                            } else {
                                j + 1
                            };
                            assert(key_at(before.entries@, k, i));
                        }
                    }
                    assert(!self@.dom().contains(key@)) by {
                        if self@.dom().contains(key@) {
                            let j = choose|j: int| key_at(after, key@, j);
                            let i = if j < at {
                                j
                            } else {
                                j + 1
                            };
                            assert(key_at(before.entries@, key@, i));
                        }
                    }
                    assert(self@ =~= before@.remove(key@));
                }
                Some(value)
            },
        }
    }
}

/// A map holds its entries and nothing else: each key of an entry has that
/// entry's value, and every key is that of an entry.
pub proof fn a_map_holds_its_entries<K: TextKey, V>(map: KeyMap<K, V>, i: int, key: K::V)
    requires
        map.wf(),
    ensures
        0 <= i < map.entries@.len() ==> map@.contains_key(map.entries@[i].0@)
            && map@[map.entries@[i].0@] == map.entries@[i].1,
        map@.contains_key(key) ==> exists|j: int|
            0 <= j < map.entries@.len() && (#[trigger] map.entries@[j]).0@ == key
                && map.entries@[j].1 == map@[key],
{
    if 0 <= i < map.entries@.len() {
        assert(key_at(map.entries@, map.entries@[i].0@, i));
        map.lemma_key_at(map.entries@[i].0@, i);
    }
    if map@.contains_key(key) {
        let j = choose|j: int| key_at(map.entries@, key, j);
        map.lemma_key_at(key, j);
        assert(map.entries@[j].0@ == key);
    }
}

} // verus!
