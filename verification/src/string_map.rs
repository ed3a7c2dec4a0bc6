//! A map keyed by text that remembers the order in which its keys arrived.
use vstd::prelude::*;

verus! {

/// The key texts of `entries`, in order.
pub open spec fn keys_of<V>(entries: Seq<(String, V)>) -> Seq<Seq<char>> {
    entries.map_values(|e: (String, V)| e.0@)
}

/// An association list in which no key occurs twice.
///
/// The view is the mathematical map from the key texts to the views of the
/// values; [`StringMap::order`] is the order in which the keys were first
/// inserted.
#[derive(Debug)]
pub struct StringMap<V> {
    entries: Vec<(String, V)>,
}

impl<V: View> View for StringMap<V> {
    type V = Map<Seq<char>, V::V>;

    closed spec fn view(&self) -> Map<Seq<char>, V::V> {
        Map::new(
            |k: Seq<char>| keys_of(self.entries@).contains(k),
            |k: Seq<char>| self.entries@[keys_of(self.entries@).index_of(k)].1@,
        )
    }
}

/// A key of a duplicate-free sequence stands at one position only.
proof fn lemma_index_of(keys: Seq<Seq<char>>, at: int)
    requires
        keys.no_duplicates(),
        0 <= at < keys.len(),
    ensures
        keys.contains(keys[at]),
        keys.index_of(keys[at]) == at,
{
}

impl<V> StringMap<V> {
    /// No key occurs twice.
    #[verifier::type_invariant]
    spec fn distinct_keys(self) -> bool {
        keys_of(self.entries@).no_duplicates()
    }

    /// The keys in the order in which they were first inserted.
    pub closed spec fn order(&self) -> Seq<Seq<char>> {
        keys_of(self.entries@)
    }
}

/// Whether `order` lists the keys of `map`, each of them once.
pub open spec fn lists_keys<T>(order: Seq<Seq<char>>, map: Map<Seq<char>, T>) -> bool {
    &&& order.no_duplicates()
    &&& forall|k: Seq<char>| order.contains(k) <==> #[trigger] map.dom().contains(k)
}

impl<V: View> StringMap<V> {
    /// The empty map.
    pub fn new() -> (map: Self)
        ensures
            map@ == Map::<Seq<char>, V::V>::empty(),
            map.order() == Seq::<Seq<char>>::empty(),
            lists_keys(map.order(), map@),
    {
        let map = StringMap { entries: Vec::new() };
        assert(map@ =~= Map::<Seq<char>, V::V>::empty());
        assert(map.order() =~= Seq::<Seq<char>>::empty());
        map
    }

    /// The number of keys.
    pub fn len(&self) -> (len: usize)
        ensures
            len == self.order().len(),
            lists_keys(self.order(), self@),
    {
        proof {
            use_type_invariant(self);
        }
        self.entries.len()
    }

    /// The position of `key`, or the number of entries if it is absent.
    fn position(&self, key: &str) -> (at: usize)
        ensures
            at <= self.entries@.len(),
            at < self.entries@.len() ==> keys_of(self.entries@)[at as int] == key@,
            at < self.entries@.len() ==> keys_of(self.entries@).index_of(key@) == at,
            at < self.entries@.len() <==> self@.dom().contains(key@),
    {
        proof {
            use_type_invariant(self);
        }
        let wanted = key.to_owned();
        let mut at: usize = 0;
        while at < self.entries.len()
            invariant
                at <= self.entries@.len(),
                wanted@ == key@,
                forall|i: int| 0 <= i < at ==> (#[trigger] self.entries@[i]).0@ != key@,
                keys_of(self.entries@).no_duplicates(),
            decreases self.entries@.len() - at,
        {
            if self.entries[at].0 == wanted {
                proof {
                    lemma_index_of(keys_of(self.entries@), at as int);
                }
                return at;
            }
            at += 1;
        }
        at
    }

    /// The value under `key`.
    pub fn get(&self, key: &str) -> (found: Option<&V>)
        ensures
            match found {
                Some(value) => self@.dom().contains(key@) && value@ == self@[key@],
                None => !self@.dom().contains(key@),
            },
    {
        let at = self.position(key);
        if at < self.entries.len() {
            Some(&self.entries[at].1)
        } else {
            None
        }
    }

    /// The key and the value at position `at` of the order.
    pub fn entry(&self, at: usize) -> (entry: (&str, &V))
        requires
            at < self.order().len(),
        ensures
            entry.0@ == self.order()[at as int],
            self@.dom().contains(entry.0@),
            entry.1@ == self@[entry.0@],
    {
        proof {
            use_type_invariant(self);
            lemma_index_of(keys_of(self.entries@), at as int);
        }
        (self.entries[at].0.as_str(), &self.entries[at].1)
    }

    /// Puts `value` under `key`, in place of what was there.
    pub fn insert(&mut self, key: String, value: V)
        ensures
            final(self)@ == old(self)@.insert(key@, value@),
            final(self).order() == if old(self)@.dom().contains(key@) {
                old(self).order()
            } else {
                old(self).order().push(key@)
            },
            lists_keys(final(self).order(), final(self)@),
    {
        let at = self.position(key.as_str());
        proof {
            use_type_invariant(&*self);
        }
        let ghost before = self.entries@;
        let ghost text = key@;
        let ghost stored = value@;
        let mut entries: Vec<(String, V)> = Vec::new();
        std::mem::swap(&mut entries, &mut self.entries);
        if at < entries.len() {
            entries.set(at, (key, value));
            assert(keys_of(entries@) =~= keys_of(before));
        } else {
            entries.push((key, value));
            assert(keys_of(entries@) =~= keys_of(before).push(text));
            assert(keys_of(entries@).no_duplicates());
        }
        self.entries = entries;
        proof {
            let keys = keys_of(self.entries@);
            assert forall|k: Seq<char>| keys_of(before).contains(k) && k != text implies
                #[trigger] self@.dom().contains(k) && self@[k] == old(self)@[k] by {
                let i = keys_of(before).index_of(k);
                lemma_index_of(keys_of(before), i);
                assert(keys[i] == k);
                lemma_index_of(keys, i);
            }
            assert(keys[at as int] == text);
            lemma_index_of(keys, at as int);
            assert forall|k: Seq<char>| #[trigger] self@.dom().contains(k) implies k == text
                || keys_of(before).contains(k) by {
                let i = keys.index_of(k);
                assert(keys[i] == k);
                if i < before.len() {
                    assert(i != at ==> keys_of(before)[i] == k);
                }
            }
            assert(self@ =~= old(self)@.insert(text, stored));
        }
    }

    /// Takes the value under `key` out of the map.
    pub fn remove(&mut self, key: &str) -> (taken: Option<V>)
        ensures
            final(self)@ == old(self)@.remove(key@),
            final(self).order() == if old(self)@.dom().contains(key@) {
                old(self).order().remove(old(self).order().index_of(key@))
            } else {
                old(self).order()
            },
            lists_keys(final(self).order(), final(self)@),
            match taken {
                Some(value) => old(self)@.dom().contains(key@) && value@ == old(self)@[key@],
                None => !old(self)@.dom().contains(key@),
            },
    {
        let at = self.position(key);
        proof {
            use_type_invariant(&*self);
        }
        let ghost before = self.entries@;
        if at < self.entries.len() {
            let mut entries: Vec<(String, V)> = Vec::new();
            std::mem::swap(&mut entries, &mut self.entries);
            let taken = entries.remove(at);
            assert(keys_of(entries@) =~= keys_of(before).remove(at as int));
            assert(keys_of(entries@).no_duplicates());
            self.entries = entries;
            proof {
                let keys = keys_of(self.entries@);
                assert forall|k: Seq<char>| keys_of(before).contains(k) && k != key@ implies
                    #[trigger] self@.dom().contains(k) && self@[k] == old(self)@[k] by {
                    let i = keys_of(before).index_of(k);
                    lemma_index_of(keys_of(before), i);
                    let j = if i < at { i } else { i - 1 };
                    assert(keys[j] == k);
                    lemma_index_of(keys, j);
                }
                assert forall|k: Seq<char>| #[trigger] self@.dom().contains(k) implies k != key@
                    && keys_of(before).contains(k) by {
                    let i = keys.index_of(k);
                    assert(keys[i] == k);
                    let j = if i < at { i } else { i + 1 };
                    assert(keys_of(before)[j] == k);
                }
                assert(self@ =~= old(self)@.remove(key@));
            }
            Some(taken.1)
        } else {
            assert(self@ =~= old(self)@.remove(key@));
            None
        }
    }
}

impl<V: View + Clone> Clone for StringMap<V> {
    fn clone(&self) -> (copy: Self)
        ensures
            copy.order() == self.order(),
            lists_keys(copy.order(), copy@),
            copy@.dom() == self@.dom(),
            (forall|a: V, b: V| #[trigger] cloned(a, b) ==> a@ == b@) ==> copy@ == self@,
    {
        proof {
            use_type_invariant(self);
        }
        let mut entries: Vec<(String, V)> = Vec::new();
        let mut at: usize = 0;
        while at < self.entries.len()
            invariant
                at <= self.entries@.len(),
                entries@.len() == at,
                forall|i: int| 0 <= i < at ==> (#[trigger] entries@[i]).0@ == self.entries@[i].0@,
                forall|i: int| 0 <= i < at ==> cloned(self.entries@[i].1, (#[trigger] entries@[i]).1),
            decreases self.entries@.len() - at,
        {
            entries.push((self.entries[at].0.clone(), self.entries[at].1.clone()));
            at += 1;
        }
        assert(keys_of(entries@) =~= keys_of(self.entries@));
        let copy = StringMap { entries };
        proof {
            assert(copy@.dom() =~= self@.dom());
            if forall|a: V, b: V| #[trigger] cloned(a, b) ==> a@ == b@ {
                assert forall|k: Seq<char>| #[trigger] self@.dom().contains(k) implies copy@[k]
                    == self@[k] by {
                    let i = keys_of(self.entries@).index_of(k);
                    lemma_index_of(keys_of(self.entries@), i);
                    assert(copy.entries@[i].1@ == self.entries@[i].1@);
                }
                assert(copy@ =~= self@);
            }
        }
        copy
    }
}

} // verus!
