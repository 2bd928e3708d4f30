//! Maps keyed by strings, as annotations, labels and object data are kept.
use vstd::prelude::*;

verus! {

/// What a [`StringMap`] may hold: a value that can be copied without a change to its view.
pub trait Value: View + Sized {
    /// A copy of the value.
    fn copied(&self) -> (result: Self)
        ensures
            result@ == self@,
    ;
}

impl Value for String {
    fn copied(&self) -> (result: Self) {
        self.clone()
    }
}

impl Value for Vec<u8> {
    fn copied(&self) -> (result: Self) {
        let result = self.clone();
        assert(result@ =~= self@);
        result
    }
}

/// Whether an entry of `entries` has the key `key`.
spec fn has_key<V>(entries: Seq<(String, V)>, key: Seq<char>) -> bool {
    exists|i: int| 0 <= i < entries.len() && (#[trigger] entries[i]).0@ == key
}

/// Where the entry with the key `key` stands in `entries`.
spec fn index_of_key<V>(entries: Seq<(String, V)>, key: Seq<char>) -> int {
    choose|i: int| 0 <= i < entries.len() && (#[trigger] entries[i]).0@ == key
}

/// No key stands in `entries` twice.
spec fn distinct_keys<V>(entries: Seq<(String, V)>) -> bool {
    forall|i: int, j: int|
        0 <= i < j < entries.len() ==> (#[trigger] entries[i]).0@ != (#[trigger] entries[j]).0@
}

/// What `entries` maps each key to.
spec fn map_of<V: View>(entries: Seq<(String, V)>) -> Map<Seq<char>, V::V> {
    Map::new(
        |key: Seq<char>| has_key(entries, key),
        |key: Seq<char>| entries[index_of_key(entries, key)].1@,
    )
}

/// A map from strings to values.
#[derive(Debug)]
pub struct StringMap<V: Value> {
    entries: Vec<(String, V)>,
}

impl<V: Value> View for StringMap<V> {
    type V = Map<Seq<char>, V::V>;

    closed spec fn view(&self) -> Map<Seq<char>, V::V> {
        map_of(self.entries@)
    }
}

impl<V: Value> StringMap<V> {
    #[verifier::type_invariant]
    spec fn well_formed(self) -> bool {
        distinct_keys(self.entries@)
    }

    /// A map without entries.
    pub fn new() -> (result: Self)
        ensures
            result@ == Map::<Seq<char>, V::V>::empty(),
    {
        let result = StringMap { entries: Vec::new() };
        assert(result@ =~= Map::<Seq<char>, V::V>::empty());
        result
    }

    /// Where the entry with the key `key` stands.
    fn find(&self, key: &str) -> (result: Option<usize>)
        ensures
            match result {
                Some(i) => i < self.entries@.len() && self.entries@[i as int].0@ == key@,
                None => !has_key(self.entries@, key@),
            },
    {
        let wanted = key.to_owned();
        let mut i: usize = 0;
        while i < self.entries.len()
            invariant
                i <= self.entries@.len(),
                wanted@ == key@,
                forall|j: int| 0 <= j < i ==> (#[trigger] self.entries@[j]).0@ != key@,
            decreases self.entries@.len() - i,
        {
            if self.entries[i].0 == wanted {
                return Some(i);
            }
            i = i + 1;
        }
        None
    }

    /// What the map holds for `key`.
    pub fn get(&self, key: &str) -> (result: Option<&V>)
        ensures
            match result {
                Some(value) => self@.contains_key(key@) && value@ == self@[key@],
                None => !self@.contains_key(key@),
            },
    {
        proof {
            use_type_invariant(self);
        }
        match self.find(key) {
            Some(i) => {
                assert(has_key(self.entries@, key@));
                Some(&self.entries[i].1)
            },
            None => None,
        }
    }

    /// Whether the map has an entry for `key`.
    pub fn contains_key(&self, key: &str) -> (result: bool)
        ensures
            result == self@.contains_key(key@),
    {
        match self.find(key) {
            Some(i) => {
                assert(has_key(self.entries@, key@));
                true
            },
            None => false,
        }
    }

    /// Lets the map hold `value` for `key`, in place of what it held for it before.
    pub fn insert(&mut self, key: String, value: V)
        ensures
            final(self)@ == old(self)@.insert(key@, value@),
    {
        proof {
            use_type_invariant(&*self);
        }
        let ghost key_view = key@;
        let ghost before = self.entries@;
        let position = self.find(key.as_str());
        let mut entries: Vec<(String, V)> = Vec::new();
        std::mem::swap(&mut entries, &mut self.entries);
        match position {
            Some(i) => {
                entries.set(i, (key, value));
                proof {
                    lemma_replace(before, entries@, i as int, key_view);
                }
            },
            None => {
                entries.push((key, value));
                proof {
                    lemma_append(before, entries@, key_view);
                }
            },
        }
        self.entries = entries;
    }

    /// Takes the entry for `key` out of the map, if there is one.
    pub fn remove(&mut self, key: &str)
        ensures
            final(self)@ == old(self)@.remove(key@),
    {
        proof {
            use_type_invariant(&*self);
        }
        let ghost before = self.entries@;
        match self.find(key) {
            Some(i) => {
                let mut entries: Vec<(String, V)> = Vec::new();
                std::mem::swap(&mut entries, &mut self.entries);
                let removed = entries.remove(i);
                proof {
                    lemma_cut(before, entries@, i as int, key@);
                }
                self.entries = entries;
            },
            None => {
                assert(self@ =~= self@.remove(key@));
            },
        }
    }
}

impl<V: Value> StringMap<V> {
    /// Takes the entries for all of `keys` out of the map.
    pub fn remove_all(&mut self, keys: &Vec<String>)
        ensures
            final(self)@ == old(self)@.remove_keys(keys.deep_view().to_set()),
    {
        let ghost before = self@;
        let ghost names = keys.deep_view();
        let mut i: usize = 0;
        assert(self@ =~= before.remove_keys(names.take(0).to_set()));
        while i < keys.len()
            invariant
                i <= keys@.len(),
                names == keys.deep_view(),
                names.len() == keys@.len(),
                self@ == before.remove_keys(names.take(i as int).to_set()),
            decreases keys@.len() - i,
        {
            self.remove(keys[i].as_str());
            proof {
                let removed = names.take(i as int);
                let name = names[i as int];
                assert(name == keys@[i as int]@);
                assert(names.take(i + 1) =~= removed.push(name));
                assert forall|k: Seq<char>| removed.push(name).contains(k) == (removed.contains(k)
                    || k == name) by {
                    assert(removed.push(name)[removed.len() as int] == name);
                    if removed.contains(k) {
                        let j = removed.index_of(k);
                        assert(removed.push(name)[j] == k);
                    }
                }
                assert(self@ =~= before.remove_keys(names.take(i + 1).to_set()));
            }
            i = i + 1;
        }
        assert(names.take(names.len() as int) =~= names);
    }

    /// The entries of the map, each key once.
    pub fn into_entries(self) -> (result: Vec<(String, V)>)
        ensures
            forall|i: int, j: int|
                0 <= i < j < result@.len() ==> (#[trigger] result@[i]).0@ != (
                #[trigger] result@[j]).0@,
            forall|i: int|
                0 <= i < result@.len() ==> self@.contains_key((#[trigger] result@[i]).0@)
                    && self@[result@[i].0@] == result@[i].1@,
            forall|key: Seq<char>| #[trigger]
                self@.contains_key(key) ==> exists|i: int|
                    0 <= i < result@.len() && (#[trigger] result@[i]).0@ == key,
    {
        proof {
            use_type_invariant(&self);
        }
        assert forall|i: int| 0 <= i < self.entries@.len() implies self@.contains_key(
            (#[trigger] self.entries@[i]).0@,
        ) && self@[self.entries@[i].0@] == self.entries@[i].1@ by {
            assert(has_key(self.entries@, self.entries@[i].0@));
        }
        self.entries
    }
}

impl<V: Value> Clone for StringMap<V> {
    fn clone(&self) -> (result: Self)
        ensures
            result@ == self@,
    {
        proof {
            use_type_invariant(self);
        }
        let mut entries: Vec<(String, V)> = Vec::new();
        let mut i: usize = 0;
        while i < self.entries.len()
            invariant
                i <= self.entries@.len(),
                entries@.len() == i,
                forall|j: int|
                    0 <= j < i ==> (#[trigger] entries@[j]).0@ == self.entries@[j].0@
                        && entries@[j].1@ == self.entries@[j].1@,
            decreases self.entries@.len() - i,
        {
            entries.push((self.entries[i].0.clone(), self.entries[i].1.copied()));
            i = i + 1;
        }
        proof {
            lemma_same_views(self.entries@, entries@);
        }
        StringMap { entries }
    }
}

/// Entries with the same views make the same map.
proof fn lemma_same_views<V: View>(a: Seq<(String, V)>, b: Seq<(String, V)>)
    requires
        distinct_keys(a),
        a.len() == b.len(),
        forall|i: int|
            0 <= i < b.len() ==> (#[trigger] b[i]).0@ == a[i].0@ && b[i].1@ == a[i].1@,
    ensures
        distinct_keys(b),
        map_of(b) == map_of(a),
{
    assert forall|k: Seq<char>| has_key(b, k) == has_key(a, k) by {
        if has_key(a, k) {
            assert(b[index_of_key(a, k)].0@ == k);
        }
        if has_key(b, k) {
            assert(a[index_of_key(b, k)].0@ == k);
        }
    }
    assert(map_of(b) =~= map_of(a)) by {
        assert forall|k: Seq<char>| has_key(b, k) implies map_of(b)[k] == map_of(a)[k] by {
            let i = index_of_key(b, k);
            assert(a[i].0@ == k);
            assert(has_key(a, k));
            assert(i == index_of_key(a, k));
        }
    }
}

/// Replacing the entry for `key` replaces what the map holds for it.
proof fn lemma_replace<V: View>(
    before: Seq<(String, V)>,
    after: Seq<(String, V)>,
    at: int,
    key: Seq<char>,
)
    requires
        distinct_keys(before),
        0 <= at < before.len(),
        before[at].0@ == key,
        after == before.update(at, after[at]),
        after[at].0@ == key,
    ensures
        distinct_keys(after),
        map_of(after) == map_of(before).insert(key, after[at].1@),
{
    assert(forall|i: int|
        0 <= i < before.len() ==> (#[trigger] after[i]).0@ == (#[trigger] before[i]).0@);
    assert forall|k: Seq<char>| has_key(after, k) == has_key(before, k) by {
        if has_key(before, k) {
            let i = index_of_key(before, k);
            assert(after[i].0@ == k);
        }
        if has_key(after, k) {
            let i = index_of_key(after, k);
            assert(before[i].0@ == k);
        }
    }
    assert(has_key(before, key));
    assert(map_of(after) =~= map_of(before).insert(key, after[at].1@)) by {
        assert forall|k: Seq<char>| has_key(after, k) implies map_of(after)[k] == map_of(
            before,
        ).insert(key, after[at].1@)[k] by {
            let i = index_of_key(after, k);
            assert(has_key(before, k));
            let j = index_of_key(before, k);
            assert(before[i].0@ == k);
            assert(i == j);
        }
    }
}

/// Appending an entry with a new key adds it to the map.
proof fn lemma_append<V: View>(
    before: Seq<(String, V)>,
    after: Seq<(String, V)>,
    key: Seq<char>,
)
    requires
        distinct_keys(before),
        !has_key(before, key),
        after.len() == before.len() + 1,
        after == before.push(after.last()),
        after.last().0@ == key,
    ensures
        distinct_keys(after),
        map_of(after) == map_of(before).insert(key, after.last().1@),
{
    assert(forall|i: int| 0 <= i < before.len() ==> #[trigger] after[i] == #[trigger] before[i]);
    assert(after[before.len() as int].0@ == key);
    assert forall|k: Seq<char>| has_key(after, k) == (has_key(before, k) || k == key) by {
        if has_key(before, k) {
            let i = index_of_key(before, k);
            assert(after[i].0@ == k);
        }
        if has_key(after, k) && k != key {
            let i = index_of_key(after, k);
            assert(before[i].0@ == k);
        }
    }
    assert(map_of(after) =~= map_of(before).insert(key, after.last().1@)) by {
        assert forall|k: Seq<char>| has_key(after, k) implies map_of(after)[k] == map_of(
            before,
        ).insert(key, after.last().1@)[k] by {
            let i = index_of_key(after, k);
            if k != key {
                assert(before[i].0@ == k);
                let j = index_of_key(before, k);
                assert(i == j);
            }
        }
    }
}

/// Cutting out the entry for `key` removes it from the map.
proof fn lemma_cut<V: View>(
    before: Seq<(String, V)>,
    after: Seq<(String, V)>,
    at: int,
    key: Seq<char>,
)
    requires
        distinct_keys(before),
        0 <= at < before.len(),
        before[at].0@ == key,
        after == before.remove(at),
    ensures
        distinct_keys(after),
        map_of(after) == map_of(before).remove(key),
{
    assert(forall|i: int| 0 <= i < at ==> #[trigger] after[i] == before[i]);
    assert(forall|i: int| at <= i < after.len() ==> #[trigger] after[i] == before[i + 1]);
    assert forall|k: Seq<char>| has_key(after, k) == (has_key(before, k) && k != key) by {
        if has_key(before, k) && k != key {
            let i = index_of_key(before, k);
            if i < at {
                assert(after[i].0@ == k);
            } else {
                assert(after[i - 1].0@ == k);
            }
        }
        if has_key(after, k) {
            let i = index_of_key(after, k);
            if i < at {
                assert(before[i].0@ == k);
            } else {
                assert(before[i + 1].0@ == k);
            }
        }
    }
    assert(map_of(after) =~= map_of(before).remove(key)) by {
        assert forall|k: Seq<char>| has_key(after, k) implies map_of(after)[k] == map_of(
            before,
        ).remove(key)[k] by {
            let i = index_of_key(after, k);
            let source = if i < at {
                i
            } else {
                i + 1
            };
            assert(before[source].0@ == k);
            assert(has_key(before, k));
            let j = index_of_key(before, k);
            assert(source == j);
        }
    }
}

} // verus!
