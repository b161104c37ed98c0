//! A small map from strings to values.
//!
//! The pipeline keys airports by their identifier and captures by their
//! version key. Both maps are small and are filled once, so the map here is a
//! list of entries in which no key occurs twice. What it holds is a
//! mathematical map from texts to values.

use crate::text::same_text;
use vstd::prelude::*;

verus! {

/// A finite map from strings to values of type `V`.
#[derive(Debug)]
pub struct TextMap<V> {
    entries: Vec<(String, V)>,
}

impl<V> View for TextMap<V> {
    type V = Map<Seq<char>, V>;

    closed spec fn view(&self) -> Map<Seq<char>, V> {
        Map::new(
            |key: Seq<char>| self.position_of(key) is Some,
            |key: Seq<char>| self.entries@[self.position_of(key).unwrap()].1,
        )
    }
}

impl<V> TextMap<V> {
    /// No key occurs twice among the entries.
    #[verifier::type_invariant]
    spec fn distinct_keys(self) -> bool {
        forall|i: int, j: int|
            0 <= i < j < self.entries@.len() ==> self.entries@[i].0@ != self.entries@[j].0@
    }

    /// Where `key` stands among the entries, if it does.
    spec fn position_of(self, key: Seq<char>) -> Option<int> {
        if exists|i: int| 0 <= i < self.entries@.len() && self.entries@[i].0@ == key {
            Some(choose|i: int| 0 <= i < self.entries@.len() && self.entries@[i].0@ == key)
        } else {
            None
        }
    }

    /// The keys of the first `n` entries.
    spec fn keys_upto(self, n: int) -> Set<Seq<char>> {
        Set::new(|key: Seq<char>| exists|i: int| 0 <= i < n && self.entries@[i].0@ == key)
    }

    /// The first `n` entries hold `n` keys.
    proof fn lemma_keys_upto(self, n: int)
        requires
            self.distinct_keys(),
            0 <= n <= self.entries@.len(),
        ensures
            self.keys_upto(n).finite(),
            self.keys_upto(n).len() == n,
        decreases n,
    {
        if n == 0 {
            assert(self.keys_upto(0) =~= Set::<Seq<char>>::empty());
        } else {
            self.lemma_keys_upto(n - 1);
            let last = self.entries@[n - 1].0@;
            assert(self.keys_upto(n) =~= self.keys_upto(n - 1).insert(last));
            assert(!self.keys_upto(n - 1).contains(last));
        }
    }

    /// The empty map.
    pub fn new() -> (map: TextMap<V>)
        ensures
            map@ == Map::<Seq<char>, V>::empty(),
    {
        let map = TextMap { entries: Vec::new() };
        assert(map@ =~= Map::<Seq<char>, V>::empty());
        map
    }

    /// The index of the entry with this key.
    fn find(&self, key: &str) -> (found: Option<usize>)
        ensures
            found is Some <==> self.position_of(key@) is Some,
            found matches Some(i) ==> self.position_of(key@) == Some(i as int) && i
                < self.entries@.len() && self.entries@[i as int].0@ == key@,
    {
        proof {
            use_type_invariant(self);
        }
        let mut i: usize = 0;
        while i < self.entries.len()
            invariant
                self.distinct_keys(),
                i <= self.entries@.len(),
                forall|j: int| 0 <= j < i ==> self.entries@[j].0@ != key@,
            decreases self.entries@.len() - i,
        {
            if same_text(self.entries[i].0.as_str(), key) {
                proof {
                    let at = self.position_of(key@).unwrap();
                    assert(self.entries@[i as int].0@ == key@);
                    assert(at == i) by {
                        if at < i {
                            assert(self.entries@[at].0@ != self.entries@[i as int].0@);
                        } else if at > i {
                            assert(self.entries@[i as int].0@ != self.entries@[at].0@);
                        }
                    }
                }
                return Some(i);
            }
            i += 1;
        }
        None
    }

    /// The value stored under `key`, if there is one.
    pub fn get(&self, key: &str) -> (value: Option<&V>)
        ensures
            match value {
                Some(v) => self@.contains_key(key@) && self@[key@] == *v,
                None => !self@.contains_key(key@),
            },
    {
        match self.find(key) {
            Some(i) => Some(&self.entries[i].1),
            None => None,
        }
    }

    /// Whether a value is stored under `key`.
    pub fn contains_key(&self, key: &str) -> (present: bool)
        ensures
            present == self@.contains_key(key@),
    {
        self.find(key).is_some()
    }

    /// The values stored under `keys`, in the order of the keys; or, where a
    /// key has no value, the index of the first such key.
    pub fn lookup_all<'a>(&'a self, keys: &[String]) -> (found: Result<Vec<&'a V>, usize>)
        ensures
            match found {
                Ok(values) => {
                    &&& values@.len() == keys@.len()
                    &&& forall|i: int|
                        0 <= i < keys@.len() ==> self@.contains_key(#[trigger] keys@[i]@)
                            && *values@[i] == self@[keys@[i]@]
                },
                Err(missing) => {
                    &&& missing < keys@.len()
                    &&& !self@.contains_key(keys@[missing as int]@)
                    &&& forall|i: int| 0 <= i < missing ==> self@.contains_key(#[trigger] keys@[i]@)
                },
            },
    {
        let mut values: Vec<&'a V> = Vec::new();
        let mut i: usize = 0;
        while i < keys.len()
            invariant
                i <= keys@.len(),
                values@.len() == i,
                forall|j: int|
                    0 <= j < i ==> self@.contains_key(#[trigger] keys@[j]@) && *values@[j]
                        == self@[keys@[j]@],
            decreases keys@.len() - i,
        {
            match self.get(keys[i].as_str()) {
                Some(value) => {
                    values.push(value);
                },
                None => {
                    return Err(i);
                },
            }
            i += 1;
        }
        Ok(values)
    }

    /// Stores `value` under `key`, in place of what was stored there before.
    pub fn insert(&mut self, key: String, value: V)
        ensures
            final(self)@ == old(self)@.insert(key@, value),
    {
        proof {
            use_type_invariant(&*self);
        }
        let ghost before = *self;
        let found = self.find(key.as_str());
        let mut taken = TextMap { entries: Vec::new() };
        core::mem::swap(self, &mut taken);
        let mut entries = taken.entries;
        match found {
            Some(i) => {
                entries[i] = (key, value);
            },
            None => {
                entries.push((key, value));
            },
        }
        *self = TextMap { entries };
        proof {
            assert forall|k: Seq<char>| #[trigger]
                self.position_of(k) is Some <==> (k == key@ || before.position_of(
                    k,
                ) is Some) by {
                if before.position_of(k) is Some {
                    let i = before.position_of(k).unwrap();
                    assert(self.entries@[i].0@ == k);
                }
                if k == key@ {
                    let i = if before.position_of(k) is Some {
                        before.position_of(k).unwrap()
                    } else {
                        before.entries@.len() as int
                    };
                    assert(self.entries@[i].0@ == k);
                }
            }
            assert(self@ =~= before@.insert(key@, value));
        }
    }

    /// The number of keys in the map.
    pub fn len(&self) -> (n: usize)
        ensures
            self@.dom().finite(),
            n == self@.dom().len(),
    {
        proof {
            use_type_invariant(self);
            self.lemma_keys_upto(self.entries@.len() as int);
            assert(self@.dom() =~= self.keys_upto(self.entries@.len() as int));
        }
        self.entries.len()
    }

    /// The entries of the map: one pair for each key, in the order in which
    /// the keys first came in.
    pub fn entries(&self) -> (entries: &Vec<(String, V)>)
        ensures
            forall|i: int|
                0 <= i < entries@.len() ==> self@.contains_key((#[trigger] entries@[i]).0@)
                    && self@[entries@[i].0@] == entries@[i].1,
            forall|key: Seq<char>| #[trigger]
                self@.contains_key(key) ==> exists|i: int|
                    0 <= i < entries@.len() && entries@[i].0@ == key,
            forall|i: int, j: int|
                0 <= i < j < entries@.len() ==> entries@[i].0@ != entries@[j].0@,
    {
        proof {
            use_type_invariant(self);
        }
        &self.entries
    }

    /// Gives up the map for its entries: one pair for each key, in the order
    /// in which the keys first came in.
    pub fn into_entries(self) -> (entries: Vec<(String, V)>)
        ensures
            forall|i: int|
                0 <= i < entries@.len() ==> self@.contains_key((#[trigger] entries@[i]).0@)
                    && self@[entries@[i].0@] == entries@[i].1,
            forall|key: Seq<char>| #[trigger]
                self@.contains_key(key) ==> exists|i: int|
                    0 <= i < entries@.len() && entries@[i].0@ == key,
            forall|i: int, j: int|
                0 <= i < j < entries@.len() ==> entries@[i].0@ != entries@[j].0@,
    {
        proof {
            use_type_invariant(&self);
        }
        self.entries
    }
}

} // verus!
