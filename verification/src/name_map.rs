//! A small map from names to values.
//!
//! The keys are texts and are told apart by their characters. The entries are
//! kept in a vector in the order in which their keys first came; a lookup takes
//! the first entry whose key matches. The contracts speak of the map that the
//! entries make up.

use vstd::prelude::*;

verus! {

/// One entry: a key and what it maps to.
struct Named<V> {
    key: String,
    value: V,
}

/// A finite map keyed by text.
pub struct NameMap<V> {
    entries: Vec<Named<V>>,
}

/// Entry `i` is the first of `entries` whose key is `key`.
spec fn is_first<V>(entries: Seq<Named<V>>, key: Seq<char>, i: int) -> bool {
    &&& 0 <= i < entries.len()
    &&& entries[i].key@ == key
    &&& forall|j: int| 0 <= j < i ==> entries[j].key@ != key
}

/// Some entry of `entries` has the key `key`.
spec fn holds<V>(entries: Seq<Named<V>>, key: Seq<char>) -> bool {
    exists|i: int| is_first(entries, key, i)
}

/// The place of the first entry whose key is `key`.
spec fn first_of<V>(entries: Seq<Named<V>>, key: Seq<char>) -> int {
    choose|i: int| is_first(entries, key, i)
}

/// The map that `entries` make up.
spec fn map_of<V>(entries: Seq<Named<V>>) -> Map<Seq<char>, V> {
    Map::new(
        |key: Seq<char>| holds(entries, key),
        |key: Seq<char>| entries[first_of(entries, key)].value,
    )
}

/// The entries `after` are the entries `before` but for the value of entry
/// `i`.
spec fn same_keys_and_rest<V>(before: Seq<Named<V>>, after: Seq<Named<V>>, i: int) -> bool {
    &&& after.len() == before.len()
    &&& forall|j: int| 0 <= j < before.len() ==> after[j].key == before[j].key
    &&& forall|j: int| 0 <= j < before.len() && j != i ==> after[j].value == before[j].value
}

/// A new value in the first entry of a key changes what that key maps to and
/// nothing else.
proof fn lemma_set_value<V>(before: Seq<Named<V>>, after: Seq<Named<V>>, i: int)
    requires
        is_first(before, before[i].key@, i),
        same_keys_and_rest(before, after, i),
    ensures
        map_of(after) == map_of(before).insert(before[i].key@, after[i].value),
{
    let key = before[i].key@;
    assert forall|k: Seq<char>| holds(before, k) <==> holds(after, k) by {
        if holds(before, k) {
            assert(is_first(after, k, first_of(before, k)));
        }
        if holds(after, k) {
            assert(is_first(before, k, first_of(after, k)));
        }
    }
    assert forall|k: Seq<char>| holds(before, k) implies first_of(after, k) == first_of(
        before,
        k,
    ) by {
        assert(is_first(after, k, first_of(before, k)));
    }
    assert(is_first(after, key, i));
    assert(map_of(after) =~= map_of(before).insert(key, after[i].value));
}

/// An entry added at the end under a key that no entry has maps that key and
/// changes nothing else.
proof fn lemma_push<V>(before: Seq<Named<V>>, entry: Named<V>)
    requires
        !holds(before, entry.key@),
    ensures
        map_of(before.push(entry)) == map_of(before).insert(entry.key@, entry.value),
{
    let after = before.push(entry);
    let last = before.len() as int;
    assert forall|j: int| 0 <= j < last implies before[j].key@ != entry.key@ by {
        if before[j].key@ == entry.key@ {
            lemma_has_first(before, entry.key@, j);
        }
    }
    assert(is_first(after, entry.key@, last));
    assert forall|k: Seq<char>| holds(before, k) implies holds(after, k) && first_of(after, k)
        == first_of(before, k) by {
        assert(is_first(after, k, first_of(before, k)));
    }
    assert forall|k: Seq<char>| holds(after, k) && k != entry.key@ implies holds(before, k) by {
        let f = first_of(after, k);
        assert(is_first(after, k, f));
        assert(after[last].key@ == entry.key@);
        assert(f != last);
        assert(forall|j: int| 0 <= j < f ==> before[j] == after[j]);
        assert(is_first(before, k, f));
    }
    assert(map_of(after) =~= map_of(before).insert(entry.key@, entry.value));
}

/// Where some entry has the key, one of them is the first.
proof fn lemma_has_first<V>(entries: Seq<Named<V>>, key: Seq<char>, i: int)
    requires
        0 <= i < entries.len(),
        entries[i].key@ == key,
    ensures
        holds(entries, key),
    decreases i,
{
    if exists|j: int| 0 <= j < i && entries[j].key@ == key {
        let j = choose|j: int| 0 <= j < i && entries[j].key@ == key;
        lemma_has_first(entries, key, j);
    } else {
        assert(is_first(entries, key, i));
    }
}

impl<V> View for NameMap<V> {
    type V = Map<Seq<char>, V>;

    closed spec fn view(&self) -> Map<Seq<char>, V> {
        map_of(self.entries@)
    }
}

impl<V> NameMap<V> {
    /// The map without entries.
    pub fn new() -> (map: NameMap<V>)
        ensures
            map@ == Map::<Seq<char>, V>::empty(),
    {
        let map = NameMap { entries: Vec::new() };
        assert(map@ =~= Map::<Seq<char>, V>::empty());
        map
    }

    /// The place of the first entry whose key is `key`, if there is one.
    fn position(&self, key: &String) -> (found: Option<usize>)
        ensures
            match found {
                Some(i) => is_first(self.entries@, key@, i as int) && first_of(
                    self.entries@,
                    key@,
                ) == i,
                None => !holds(self.entries@, key@),
            },
    {
        let mut i: usize = 0;
        while i < self.entries.len()
            invariant
                i <= self.entries.len(),
                forall|j: int| 0 <= j < i ==> self.entries[j].key@ != key@,
            decreases self.entries.len() - i,
        {
            if self.entries[i].key == *key {
                assert(is_first(self.entries@, key@, i as int));
                return Some(i);
            }
            i += 1;
        }
        None
    }

    /// Whether `key` has an entry.
    pub fn contains_key(&self, key: &str) -> (found: bool)
        ensures
            found == self@.contains_key(key@),
    {
        let owned = key.to_owned();
        self.position(&owned).is_some()
    }

    /// The value that `key` maps to, if it has an entry.
    pub fn get(&self, key: &str) -> (found: Option<&V>)
        ensures
            match found {
                Some(value) => self@.contains_key(key@) && *value == self@[key@],
                None => !self@.contains_key(key@),
            },
    {
        let owned = key.to_owned();
        match self.position(&owned) {
            Some(i) => Some(&self.entries[i].value),
            None => None,
        }
    }

    /// The value that `key` maps to, to be changed in place. Whatever is
    /// written through the reference is what `key` maps to afterwards; the
    /// other entries stay.
    pub fn get_mut(&mut self, key: &str) -> (found: Option<&mut V>)
        ensures
            match found {
                Some(value) => {
                    &&& old(self)@.contains_key(key@)
                    &&& *value == old(self)@[key@]
                    &&& final(self)@ == old(self)@.insert(key@, *final(value))
                },
                None => !old(self)@.contains_key(key@) && final(self)@ == old(self)@,
            },
    {
        let owned = key.to_owned();
        match self.position(&owned) {
            Some(i) => {
                proof {
                    let before = self.entries@;
                    assert forall|after: Seq<Named<V>>| same_keys_and_rest(before, after, i as int)
                        implies #[trigger] map_of(after) == map_of(before).insert(
                        key@,
                        after[i as int].value,
                    ) by {
                        lemma_set_value(before, after, i as int);
                    }
                }
                Some(&mut self.entries[i].value)
            },
            None => None,
        }
    }

    /// Maps `key` to `value` and hands back the value it mapped to before, if
    /// any. The other entries stay.
    pub fn insert(&mut self, key: String, value: V) -> (previous: Option<V>)
        ensures
            final(self)@ == old(self)@.insert(key@, value),
            match previous {
                Some(before) => old(self)@.contains_key(key@) && before == old(self)@[key@],
                None => !old(self)@.contains_key(key@),
            },
    {
        match self.position(&key) {
            Some(i) => {
                let mut value = value;
                core::mem::swap(&mut self.entries[i].value, &mut value);
                proof {
                    lemma_set_value(old(self).entries@, self.entries@, i as int);
                }
                Some(value)
            },
            None => {
                let entry = Named { key, value };
                proof {
                    lemma_push(self.entries@, entry);
                }
                self.entries.push(entry);
                None
            },
        }
    }
}

} // verus!
