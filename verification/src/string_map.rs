//! A finite map from strings to values, stored as a list of distinct keys.

use vstd::prelude::*;

verus! {

broadcast use vstd::seq_lib::seq_to_set_is_finite;

/// A map from strings to values of type `V`.
///
/// Each key occurs at most once; inserting a key that is present replaces its value.
#[derive(Debug)]
pub struct StringMap<V> {
    entries: Vec<(String, V)>,
}

/// The character sequences of a list of strings.
pub open spec fn string_views(s: Seq<String>) -> Seq<Seq<char>> {
    s.map_values(|k: String| k@)
}

/// The key of an entry, as a sequence of characters.
pub open spec fn entry_key<V>(e: (String, V)) -> Seq<char> {
    e.0@
}

/// Whether some entry of `s` has the key `k`.
pub open spec fn has_key<V>(s: Seq<(String, V)>, k: Seq<char>) -> bool {
    exists|i: int| 0 <= i < s.len() && #[trigger] s[i].0@ == k
}

/// The position of an entry of `s` with the key `k`, where there is one.
pub open spec fn key_position<V>(s: Seq<(String, V)>, k: Seq<char>) -> int {
    choose|i: int| 0 <= i < s.len() && #[trigger] s[i].0@ == k
}

/// The map that a list of entries stands for.
pub open spec fn entries_map<V>(s: Seq<(String, V)>) -> Map<Seq<char>, V> {
    Map::new(|k: Seq<char>| has_key(s, k), |k: Seq<char>| s[key_position(s, k)].1)
}

/// The keys of a list of entries, in order.
pub open spec fn entry_keys<V>(s: Seq<(String, V)>) -> Seq<Seq<char>> {
    s.map_values(|e: (String, V)| e.0@)
}

/// No two entries have the same key.
pub open spec fn distinct_keys<V>(s: Seq<(String, V)>) -> bool {
    forall|i: int, j: int|
        0 <= i < s.len() && 0 <= j < s.len() && i != j ==> #[trigger] s[i].0@ != #[trigger] s[j].0@
}

/// In a list with distinct keys, the entry at `i` gives the value of its key.
pub proof fn lemma_entry_value<V>(s: Seq<(String, V)>, i: int)
    requires
        distinct_keys(s),
        0 <= i < s.len(),
    ensures
        entries_map(s).dom().contains(s[i].0@),
        entries_map(s)[s[i].0@] == s[i].1,
{
    assert(has_key(s, s[i].0@));
    let j = key_position(s, s[i].0@);
    assert(s[j].0@ == s[i].0@);
}

/// The domain of the map is the set of keys of the list.
pub proof fn lemma_entries_dom<V>(s: Seq<(String, V)>)
    ensures
        entries_map(s).dom() == entry_keys(s).to_set(),
        entries_map(s).dom().finite(),
{
    assert forall|k: Seq<char>| entries_map(s).dom().contains(k) implies entry_keys(s).to_set().contains(k) by {
        let i = key_position(s, k);
        assert(entry_keys(s)[i] == k);
    }
    assert forall|k: Seq<char>| entry_keys(s).to_set().contains(k) implies entries_map(s).dom().contains(k) by {
        let i = choose|i: int| 0 <= i < entry_keys(s).len() && entry_keys(s)[i] == k;
        assert(s[i].0@ == k);
    }
    assert(entries_map(s).dom() =~= entry_keys(s).to_set());
}

/// With distinct keys, the map has as many keys as the list has entries.
pub proof fn lemma_entries_len<V>(s: Seq<(String, V)>)
    requires
        distinct_keys(s),
    ensures
        entries_map(s).len() == s.len(),
        entry_keys(s).no_duplicates(),
{
    lemma_entries_dom(s);
    assert forall|i: int, j: int|
        0 <= i < entry_keys(s).len() && 0 <= j < entry_keys(s).len() && i != j implies entry_keys(s)[i]
        != entry_keys(s)[j] by {
        assert(s[i].0@ != s[j].0@);
    }
    entry_keys(s).unique_seq_to_set();
}

/// Replacing the value of an entry updates the map at that entry's key.
pub proof fn lemma_entries_update<V>(s: Seq<(String, V)>, i: int, key: String, v: V)
    requires
        distinct_keys(s),
        0 <= i < s.len(),
        s[i].0@ == key@,
    ensures
        distinct_keys(s.update(i, (key, v))),
        entries_map(s.update(i, (key, v))) == entries_map(s).insert(key@, v),
{
    let t = s.update(i, (key, v));
    assert forall|a: int, b: int|
        0 <= a < t.len() && 0 <= b < t.len() && a != b implies #[trigger] t[a].0@ != #[trigger] t[b].0@ by {
        assert(t[a].0@ == s[a].0@);
        assert(t[b].0@ == s[b].0@);
    }
    assert forall|k: Seq<char>| #[trigger] has_key(t, k) == has_key(s, k) by {
        if has_key(t, k) {
            let j = key_position(t, k);
            assert(s[j].0@ == k);
        }
        if has_key(s, k) {
            let j = key_position(s, k);
            assert(t[j].0@ == k);
        }
    }
    assert forall|k: Seq<char>| has_key(t, k) && k != key@ implies entries_map(t)[k] == entries_map(s)[k] by {
        let j = key_position(t, k);
        let j2 = key_position(s, k);
        assert(t[j].0@ == k);
        assert(s[j2].0@ == k);
        assert(j != i);
        assert(s[j].0@ == k);
        assert(j == j2);
    }
    lemma_entry_value(t, i);
    assert(entries_map(t) =~= entries_map(s).insert(key@, v));
}

/// Appending an entry with a fresh key adds that key to the map.
pub proof fn lemma_entries_push<V>(s: Seq<(String, V)>, key: String, v: V)
    requires
        distinct_keys(s),
        !has_key(s, key@),
    ensures
        distinct_keys(s.push((key, v))),
        entries_map(s.push((key, v))) == entries_map(s).insert(key@, v),
{
    let t = s.push((key, v));
    assert forall|a: int, b: int|
        0 <= a < t.len() && 0 <= b < t.len() && a != b implies #[trigger] t[a].0@ != #[trigger] t[b].0@ by {
        if a == s.len() {
            assert(s[b].0@ == t[b].0@);
        } else if b == s.len() {
            assert(s[a].0@ == t[a].0@);
        } else {
            assert(t[a].0@ == s[a].0@);
            assert(t[b].0@ == s[b].0@);
        }
    }
    assert forall|k: Seq<char>| #[trigger] has_key(t, k) == (has_key(s, k) || k == key@) by {
        if has_key(t, k) && k != key@ {
            let j = key_position(t, k);
            assert(j < s.len());
            assert(s[j].0@ == k);
        }
        if has_key(s, k) {
            let j = key_position(s, k);
            assert(t[j].0@ == k);
        }
        if k == key@ {
            assert(t[s.len() as int].0@ == k);
        }
    }
    assert forall|k: Seq<char>| has_key(t, k) && k != key@ implies entries_map(t)[k] == entries_map(s)[k] by {
        let j = key_position(t, k);
        let j2 = key_position(s, k);
        assert(t[j].0@ == k);
        assert(j < s.len());
        assert(s[j].0@ == k);
        assert(s[j2].0@ == k);
        assert(j == j2);
    }
    lemma_entry_value(t, s.len() as int);
    assert(entries_map(t) =~= entries_map(s).insert(key@, v));
}

impl<V> StringMap<V> {
    #[verifier::type_invariant]
    closed spec fn keys_are_distinct(&self) -> bool {
        distinct_keys(self.entries@)
    }

    /// The keys in storage order.
    pub closed spec fn key_order(&self) -> Seq<Seq<char>> {
        entry_keys(self.entries@)
    }
}

impl<V> View for StringMap<V> {
    type V = Map<Seq<char>, V>;

    closed spec fn view(&self) -> Map<Seq<char>, V> {
        entries_map(self.entries@)
    }
}

impl<V> StringMap<V> {
    /// The map's domain is the set of its stored keys, so it is finite.
    pub proof fn lemma_dom_finite(&self)
        ensures
            self.key_order().to_set() == self@.dom(),
            self@.dom().finite(),
    {
        lemma_entries_dom(self.entries@);
    }

    /// An empty map.
    pub fn new() -> (m: Self)
        ensures
            m@ == Map::<Seq<char>, V>::empty(),
    {
        let m = StringMap { entries: Vec::new() };
        assert(m@ =~= Map::<Seq<char>, V>::empty());
        m
    }

    /// The position of the entry with key `key`, if there is one.
    fn find(&self, key: &str) -> (res: Option<usize>)
        ensures
            match res {
                Some(i) => i < self.entries@.len() && self.entries@[i as int].0@ == key@,
                None => !has_key(self.entries@, key@),
            },
    {
        let wanted = key.to_owned();
        let mut i: usize = 0;
        while i < self.entries.len()
            invariant
                i <= self.entries@.len(),
                wanted@ == key@,
                forall|j: int| 0 <= j < i ==> #[trigger] self.entries@[j].0@ != key@,
            decreases self.entries@.len() - i,
        {
            if self.entries[i].0 == wanted {
                return Some(i);
            }
            i = i + 1;
        }
        None
    }

    /// The number of keys.
    pub fn len(&self) -> (n: usize)
        ensures
            n == self@.len(),
    {
        proof {
            use_type_invariant(self);
            lemma_entries_len(self.entries@);
        }
        self.entries.len()
    }

    /// Whether the map has no keys.
    pub fn is_empty(&self) -> (b: bool)
        ensures
            b == (self@.len() == 0),
    {
        self.len() == 0
    }

    /// Whether `key` has a value.
    pub fn contains_key(&self, key: &str) -> (b: bool)
        ensures
            b == self@.dom().contains(key@),
    {
        self.find(key).is_some()
    }

    /// The value of `key`, if it has one.
    pub fn get(&self, key: &str) -> (res: Option<&V>)
        ensures
            match res {
                Some(v) => self@.dom().contains(key@) && *v == self@[key@],
                None => !self@.dom().contains(key@),
            },
    {
        proof {
            use_type_invariant(self);
        }
        match self.find(key) {
            Some(i) => {
                proof {
                    lemma_entry_value(self.entries@, i as int);
                }
                Some(&self.entries[i].1)
            },
            None => None,
        }
    }

    /// The keys, each once, in storage order.
    pub fn keys(&self) -> (res: Vec<String>)
        ensures
            string_views(res@) == self.key_order(),
            self.key_order().no_duplicates(),
            res.len() == self@.len(),
            forall|i: int| 0 <= i < res.len() ==> self@.dom().contains(#[trigger] res@[i]@),
            forall|k: Seq<char>| #[trigger] self@.dom().contains(k) ==> exists|i: int| 0 <= i < res.len() && res@[i]@ == k,
    {
        proof {
            use_type_invariant(self);
            lemma_entries_len(self.entries@);
            lemma_entries_dom(self.entries@);
        }
        let mut res: Vec<String> = Vec::new();
        let mut i: usize = 0;
        while i < self.entries.len()
            invariant
                i <= self.entries@.len(),
                string_views(res@) == entry_keys(self.entries@).take(i as int),
            decreases self.entries@.len() - i,
        {
            let ghost before = res@;
            assert(string_views(before).len() == i);
            let k = self.entries[i].0.clone();
            res.push(k);
            assert(res@ == before.push(k));
            assert(string_views(res@)[i as int] == entry_keys(self.entries@).take(i + 1)[i as int]);
            assert forall|j: int| 0 <= j < i + 1 implies #[trigger] string_views(res@)[j]
                == entry_keys(self.entries@).take(i + 1)[j] by {
                if j < i {
                    assert(string_views(before)[j] == entry_keys(self.entries@).take(i as int)[j]);
                    assert(res@[j] == before[j]);
                }
            }
            assert(string_views(res@) =~= entry_keys(self.entries@).take(i + 1));
            i = i + 1;
        }
        assert(entry_keys(self.entries@).take(i as int) =~= entry_keys(self.entries@));
        proof {
            assert forall|j: int| 0 <= j < res.len() implies self@.dom().contains(#[trigger] res@[j]@) by {
                assert(string_views(res@)[j] == res@[j]@);
                lemma_entry_value(self.entries@, j);
            }
            assert forall|k: Seq<char>| #[trigger] self@.dom().contains(k) implies exists|j: int|
                0 <= j < res.len() && res@[j]@ == k by {
                let j = key_position(self.entries@, k);
                assert(string_views(res@)[j] == res@[j]@);
            }
        }
        res
    }

    /// References to the values, in the order of [`StringMap::keys`].
    pub fn values(&self) -> (res: Vec<&V>)
        ensures
            res.len() == self.key_order().len(),
            res.len() == self@.len(),
            self.key_order().no_duplicates(),
            self.key_order().to_set() == self@.dom(),
            forall|i: int| 0 <= i < res.len() ==> *(#[trigger] res@[i]) == self@[self.key_order()[i]],
    {
        proof {
            use_type_invariant(self);
            lemma_entries_len(self.entries@);
        }
        proof {
            lemma_entries_dom(self.entries@);
        }
        let mut res: Vec<&V> = Vec::new();
        let mut i: usize = 0;
        while i < self.entries.len()
            invariant
                i <= self.entries@.len(),
                res.len() == i,
                distinct_keys(self.entries@),
                forall|j: int| 0 <= j < i ==> *(#[trigger] res@[j]) == self.entries@[j].1,
            decreases self.entries@.len() - i,
        {
            res.push(&self.entries[i].1);
            i = i + 1;
        }
        proof {
            assert forall|j: int| 0 <= j < res.len() implies *(#[trigger] res@[j]) == self@[self.key_order()[j]] by {
                lemma_entry_value(self.entries@, j);
            }
        }
        res
    }

    /// Gives `key` the value `value`, replacing and returning the value it had.
    pub fn insert(&mut self, key: String, value: V) -> (previous: Option<V>)
        ensures
            final(self)@ == old(self)@.insert(key@, value),
            match previous {
                Some(v) => old(self)@.dom().contains(key@) && v == old(self)@[key@],
                None => !old(self)@.dom().contains(key@),
            },
    {
        proof {
            use_type_invariant(&*self);
        }
        let found = self.find(key.as_str());
        let mut entries: Vec<(String, V)> = Vec::new();
        std::mem::swap(&mut entries, &mut self.entries);
        match found {
            Some(i) => {
                proof {
                    lemma_entry_value(entries@, i as int);
                    lemma_entries_update(entries@, i as int, key, value);
                }
                let mut entry = (key, value);
                std::mem::swap(&mut entries[i], &mut entry);
                self.entries = entries;
                Some(entry.1)
            },
            None => {
                proof {
                    lemma_entries_push(entries@, key, value);
                }
                entries.push((key, value));
                self.entries = entries;
                None
            },
        }
    }
}

impl<V: Clone> Clone for StringMap<V> {
    /// A copy with the same keys, in the same order, each holding a clone of the value
    /// the original holds under that key.
    fn clone(&self) -> (res: Self)
        ensures
            res.key_order() == self.key_order(),
            res@.dom() == self@.dom(),
            forall|k: Seq<char>| #[trigger] res@.dom().contains(k) ==> cloned::<V>(self@[k], res@[k]),
    {
        proof {
            use_type_invariant(self);
        }
        let mut entries: Vec<(String, V)> = Vec::new();
        let mut i: usize = 0;
        while i < self.entries.len()
            invariant
                i <= self.entries@.len(),
                entries@.len() == i,
                distinct_keys(self.entries@),
                forall|j: int| 0 <= j < i ==> #[trigger] entries@[j].0@ == self.entries@[j].0@,
                forall|j: int| 0 <= j < i ==> cloned::<V>(self.entries@[j].1, #[trigger] entries@[j].1),
            decreases self.entries@.len() - i,
        {
            let key = self.entries[i].0.clone();
            let value = self.entries[i].1.clone();
            entries.push((key, value));
            i = i + 1;
        }
        proof {
            assert forall|a: int, b: int|
                0 <= a < entries@.len() && 0 <= b < entries@.len() && a != b implies #[trigger] entries@[a].0@
                != #[trigger] entries@[b].0@ by {
                assert(self.entries@[a].0@ != self.entries@[b].0@);
            }
            assert(entry_keys(entries@) =~= entry_keys(self.entries@));
            lemma_entries_dom(entries@);
            lemma_entries_dom(self.entries@);
            assert forall|k: Seq<char>| #[trigger] entries_map(entries@).dom().contains(k) implies cloned::<V>(
                entries_map(self.entries@)[k],
                entries_map(entries@)[k],
            ) by {
                let j = key_position(entries@, k);
                assert(entries@[j].0@ == k);
                lemma_entry_value(entries@, j);
                lemma_entry_value(self.entries@, j);
            }
        }
        StringMap { entries }
    }
}

} // verus!
