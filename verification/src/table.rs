//! A keyed store: at most one value under each textual key.

use vstd::prelude::*;

verus! {

/// One stored value with the key it is stored under.
struct Entry<V> {
    key: String,
    value: V,
}

/// Whether some entry of `entries` is stored under `key`.
spec fn has_key<V>(entries: Seq<Entry<V>>, key: Seq<char>) -> bool {
    exists|i: int| 0 <= i < entries.len() && (#[trigger] entries[i]).key@ == key
}

/// The position of an entry stored under `key`.
spec fn position_of<V>(entries: Seq<Entry<V>>, key: Seq<char>) -> int {
    choose|i: int| 0 <= i < entries.len() && (#[trigger] entries[i]).key@ == key
}

/// Whether no two entries share a key.
spec fn distinct_keys<V>(entries: Seq<Entry<V>>) -> bool {
    forall|i: int, j: int|
        0 <= i < entries.len() && 0 <= j < entries.len() && i != j ==> (#[trigger] entries[i]).key@
            != (#[trigger] entries[j]).key@
}

/// The mapping from keys to values that `entries` stands for.
spec fn mapping_of<V>(entries: Seq<Entry<V>>) -> Map<Seq<char>, V> {
    Map::new(|key: Seq<char>| has_key(entries, key), |key: Seq<char>| entries[position_of(entries, key)].value)
}

/// With distinct keys, the entry at a position is the one its key maps to.
proof fn lemma_mapping_at<V>(entries: Seq<Entry<V>>, i: int)
    requires
        distinct_keys(entries),
        0 <= i < entries.len(),
    ensures
        has_key(entries, entries[i].key@),
        position_of(entries, entries[i].key@) == i,
        mapping_of(entries).contains_key(entries[i].key@),
        mapping_of(entries)[entries[i].key@] == entries[i].value,
{
    let key = entries[i].key@;
    assert(0 <= i < entries.len() && entries[i].key@ == key);
    let p = position_of(entries, key);
    assert(0 <= p < entries.len() && entries[p].key@ == key);
}

/// Appending an entry under a fresh key adds exactly that pair.
proof fn lemma_mapping_push<V>(entries: Seq<Entry<V>>, entry: Entry<V>)
    requires
        distinct_keys(entries),
        !has_key(entries, entry.key@),
    ensures
        distinct_keys(entries.push(entry)),
        mapping_of(entries.push(entry)) == mapping_of(entries).insert(entry.key@, entry.value),
{
    let after = entries.push(entry);
    assert forall|i: int, j: int|
        0 <= i < after.len() && 0 <= j < after.len() && i != j implies (#[trigger] after[i]).key@
        != (#[trigger] after[j]).key@ by {
        if i < entries.len() {
            assert(after[i] == entries[i]);
        }
        if j < entries.len() {
            assert(after[j] == entries[j]);
        }
    }
    let want = mapping_of(entries).insert(entry.key@, entry.value);
    assert forall|key: Seq<char>| mapping_of(after).contains_key(key) <==> want.contains_key(
        key,
    ) by {
        if has_key(after, key) {
            let p = position_of(after, key);
            if p < entries.len() {
                assert(entries[p] == after[p]);
            }
        }
        if has_key(entries, key) {
            let p = position_of(entries, key);
            assert(after[p] == entries[p]);
        }
        if key == entry.key@ {
            assert(after[entries.len() as int] == entry);
        }
    }
    assert forall|key: Seq<char>| mapping_of(after).contains_key(key) implies mapping_of(
        after,
    )[key] == want[key] by {
        let p = position_of(after, key);
        lemma_mapping_at(after, p);
        if p < entries.len() {
            assert(entries[p] == after[p]);
            lemma_mapping_at(entries, p);
        } else {
            assert(after[p] == entry);
        }
    }
    assert(mapping_of(after) =~= want);
}

/// Replacing the value at a position rewrites exactly that key's value.
proof fn lemma_mapping_update<V>(entries: Seq<Entry<V>>, i: int, entry: Entry<V>)
    requires
        distinct_keys(entries),
        0 <= i < entries.len(),
        entry.key@ == entries[i].key@,
    ensures
        distinct_keys(entries.update(i, entry)),
        mapping_of(entries.update(i, entry)) == mapping_of(entries).insert(
            entry.key@,
            entry.value,
        ),
{
    let after = entries.update(i, entry);
    assert forall|a: int, b: int|
        0 <= a < after.len() && 0 <= b < after.len() && a != b implies (#[trigger] after[a]).key@
        != (#[trigger] after[b]).key@ by {
        assert(after[a].key@ == entries[a].key@);
        assert(after[b].key@ == entries[b].key@);
    }
    let want = mapping_of(entries).insert(entry.key@, entry.value);
    assert forall|key: Seq<char>| mapping_of(after).contains_key(key) <==> want.contains_key(
        key,
    ) by {
        if has_key(after, key) {
            let p = position_of(after, key);
            assert(entries[p].key@ == after[p].key@);
        }
        if has_key(entries, key) {
            let p = position_of(entries, key);
            assert(after[p].key@ == entries[p].key@);
        }
        if key == entry.key@ {
            assert(after[i] == entry);
        }
    }
    assert forall|key: Seq<char>| mapping_of(after).contains_key(key) implies mapping_of(
        after,
    )[key] == want[key] by {
        let p = position_of(after, key);
        lemma_mapping_at(after, p);
        if p == i {
            assert(after[p] == entry);
        } else {
            assert(after[p] == entries[p]);
            lemma_mapping_at(entries, p);
        }
    }
    assert(mapping_of(after) =~= want);
}

/// Taking out the entry at a position removes exactly its key.
proof fn lemma_mapping_remove<V>(entries: Seq<Entry<V>>, i: int)
    requires
        distinct_keys(entries),
        0 <= i < entries.len(),
    ensures
        distinct_keys(entries.remove(i)),
        mapping_of(entries.remove(i)) == mapping_of(entries).remove(entries[i].key@),
{
    let after = entries.remove(i);
    let gone = entries[i].key@;
    assert forall|a: int| 0 <= a < after.len() implies #[trigger] after[a] == entries[if a < i {
        a
    } else {
        a + 1
    }] by {}
    assert forall|a: int, b: int|
        0 <= a < after.len() && 0 <= b < after.len() && a != b implies (#[trigger] after[a]).key@
        != (#[trigger] after[b]).key@ by {
        let a0 = if a < i {
            a
        } else {
            a + 1
        };
        let b0 = if b < i {
            b
        } else {
            b + 1
        };
        assert(after[a] == entries[a0]);
        assert(after[b] == entries[b0]);
    }
    let want = mapping_of(entries).remove(gone);
    assert forall|key: Seq<char>| mapping_of(after).contains_key(key) <==> want.contains_key(
        key,
    ) by {
        if has_key(after, key) {
            let p = position_of(after, key);
            let p0 = if p < i {
                p
            } else {
                p + 1
            };
            assert(after[p] == entries[p0]);
            assert(entries[p0].key@ == key);
            assert(p0 != i);
        }
        if has_key(entries, key) && key != gone {
            let p = position_of(entries, key);
            let q = if p < i {
                p
            } else {
                p - 1
            };
            assert(after[q] == entries[p]);
        }
    }
    assert forall|key: Seq<char>| mapping_of(after).contains_key(key) implies mapping_of(
        after,
    )[key] == want[key] by {
        let p = position_of(after, key);
        lemma_mapping_at(after, p);
        let p0 = if p < i {
            p
        } else {
            p + 1
        };
        assert(after[p] == entries[p0]);
        lemma_mapping_at(entries, p0);
    }
    assert(mapping_of(after) =~= want);
}

/// Whether `map` holds exactly the values of `values`, each under the key at
/// the same position of `keys`, and no key twice.
pub open spec fn holds_exactly<W>(map: Map<Seq<char>, W>, keys: Seq<Seq<char>>, values: Seq<W>) -> bool {
    &&& keys.len() == values.len()
    &&& keys.no_duplicates()
    &&& forall|i: int|
        0 <= i < keys.len() ==> map.contains_key(#[trigger] keys[i]) && map[keys[i]] == values[i]
    &&& forall|key: Seq<char>| #[trigger] map.contains_key(key) ==> keys.contains(key)
}

/// The keys of a list of strings, each as plain text.
pub open spec fn texts(keys: Seq<String>) -> Seq<Seq<char>> {
    keys.map_values(|key: String| key@)
}

/// A store that keeps at most one value under each textual key.
pub struct Table<V> {
    entries: Vec<Entry<V>>,
}

impl<V> View for Table<V> {
    type V = Map<Seq<char>, V>;

    closed spec fn view(&self) -> Map<Seq<char>, V> {
        mapping_of(self.entries@)
    }
}

impl<V> Table<V> {
    #[verifier::type_invariant]
    spec fn keys_are_distinct(self) -> bool {
        distinct_keys(self.entries@)
    }

    /// The empty store.
    pub fn new() -> (table: Table<V>)
        ensures
            table@ == Map::<Seq<char>, V>::empty(),
    {
        let table = Table { entries: Vec::new() };
        assert(table@ =~= Map::<Seq<char>, V>::empty());
        table
    }

    fn find(&self, key: &String) -> (found: Option<usize>)
        ensures
            match found {
                Some(i) => i < self.entries@.len() && self.entries@[i as int].key@ == key@,
                None => !has_key(self.entries@, key@),
            },
    {
        let mut i: usize = 0;
        while i < self.entries.len()
            invariant
                i <= self.entries@.len(),
                forall|j: int| 0 <= j < i ==> (#[trigger] self.entries@[j]).key@ != key@,
            decreases self.entries@.len() - i,
        {
            if self.entries[i].key == *key {
                return Some(i);
            }
            i += 1;
        }
        None
    }

    /// Whether a value is stored under `key`.
    pub fn contains_key(&self, key: &String) -> (present: bool)
        ensures
            present == self@.contains_key(key@),
    {
        match self.find(key) {
            Some(i) => {
                proof {
                    use_type_invariant(self);
                    lemma_mapping_at(self.entries@, i as int);
                }
                true
            },
            None => false,
        }
    }

    /// The value stored under `key`, if there is one.
    pub fn get(&self, key: &String) -> (value: Option<&V>)
        ensures
            match value {
                Some(v) => self@.contains_key(key@) && *v == self@[key@],
                None => !self@.contains_key(key@),
            },
    {
        match self.find(key) {
            Some(i) => {
                proof {
                    use_type_invariant(self);
                    lemma_mapping_at(self.entries@, i as int);
                }
                Some(&self.entries[i].value)
            },
            None => None,
        }
    }

    /// Stores `value` under `key`, in place of any value stored there before.
    pub fn set(&mut self, key: String, value: V)
        ensures
            final(self)@ == old(self)@.insert(key@, value),
    {
        proof {
            use_type_invariant(&*self);
        }
        let found = self.find(&key);
        let mut entries: Vec<Entry<V>> = Vec::new();
        std::mem::swap(&mut entries, &mut self.entries);
        let entry = Entry { key, value };
        match found {
            Some(i) => {
                proof {
                    lemma_mapping_update(entries@, i as int, entry);
                }
                entries.set(i, entry);
            },
            None => {
                proof {
                    lemma_mapping_push(entries@, entry);
                }
                entries.push(entry);
            },
        }
        self.entries = entries;
    }

    /// Takes out the value stored under `key`, if there is one.
    pub fn remove(&mut self, key: &String) -> (value: Option<V>)
        ensures
            final(self)@ == old(self)@.remove(key@),
            match value {
                Some(v) => old(self)@.contains_key(key@) && v == old(self)@[key@],
                None => !old(self)@.contains_key(key@),
            },
    {
        proof {
            use_type_invariant(&*self);
        }
        match self.find(key) {
            Some(i) => {
                let mut entries: Vec<Entry<V>> = Vec::new();
                std::mem::swap(&mut entries, &mut self.entries);
                proof {
                    lemma_mapping_at(entries@, i as int);
                    lemma_mapping_remove(entries@, i as int);
                }
                let entry = entries.remove(i);
                self.entries = entries;
                Some(entry.value)
            },
            None => {
                assert(self@.remove(key@) =~= self@);
                None
            },
        }
    }
}

impl<V> Table<V> {
    /// The store that holds each of `values` under the key at the same
    /// position of `keys`. There is none where the two lists differ in
    /// length or a key occurs twice.
    pub fn from_lists(keys: Vec<String>, values: Vec<V>) -> (made: Option<Table<V>>)
        ensures
            made is Some <==> keys@.len() == values@.len() && texts(keys@).no_duplicates(),
            made is Some ==> holds_exactly(made->Some_0@, texts(keys@), values@),
    {
        if keys.len() != values.len() {
            return None;
        }
        let ghost all_keys = texts(keys@);
        let ghost all_values = values@;
        let mut rest_keys = keys;
        let mut rest_values = values;
        let mut table: Table<V> = Table::new();
        while rest_keys.len() > 0
            invariant
                all_keys == texts(keys@),
                all_values == values@,
                all_keys.len() == all_values.len(),
                rest_keys@.len() == rest_values@.len(),
                rest_keys@.len() <= all_keys.len(),
                texts(rest_keys@) == all_keys.take(rest_keys@.len() as int),
                rest_values@ == all_values.take(rest_keys@.len() as int),
                holds_exactly(
                    table@,
                    all_keys.skip(rest_keys@.len() as int),
                    all_values.skip(rest_keys@.len() as int),
                ),
            decreases rest_keys@.len(),
        {
            let ghost before = rest_keys@.len() as int;
            let ghost done_keys = all_keys.skip(before);
            let ghost done_values = all_values.skip(before);
            let ghost held = table@;
            let key = rest_keys.pop().unwrap();
            let value = rest_values.pop().unwrap();
            proof {
                assert(key@ == all_keys[before - 1]) by {
                    assert(all_keys.take(before)[before - 1] == all_keys[before - 1]);
                }
                assert(value == all_values[before - 1]) by {
                    assert(all_values.take(before)[before - 1] == all_values[before - 1]);
                }
                assert(texts(rest_keys@) =~= all_keys.take(before - 1));
                assert(rest_values@ =~= all_values.take(before - 1));
            }
            if table.contains_key(&key) {
                proof {
                    let at = choose|i: int| 0 <= i < done_keys.len() && done_keys[i] == key@;
                    assert(done_keys.contains(key@));
                    assert(all_keys[before + at] == key@);
                    assert(all_keys[before - 1] == all_keys[before + at]);
                }
                return None;
            }
            table.set(key, value);
            proof {
                let now_keys = all_keys.skip(before - 1);
                let now_values = all_values.skip(before - 1);
                assert(now_keys[0] == key@);
                assert forall|i: int| 0 < i < now_keys.len() implies now_keys[i] == done_keys[i
                    - 1] by {}
                assert forall|i: int| 0 < i < now_values.len() implies now_values[i]
                    == done_values[i - 1] by {}
                assert forall|i: int, j: int|
                    0 <= i < now_keys.len() && 0 <= j < now_keys.len() && i != j implies now_keys[i]
                    != now_keys[j] by {
                    if i > 0 && j > 0 {
                        assert(done_keys[i - 1] != done_keys[j - 1]);
                    } else if i == 0 {
                        assert(held.contains_key(done_keys[j - 1]));
                    } else {
                        assert(held.contains_key(done_keys[i - 1]));
                    }
                }
                assert forall|i: int| 0 <= i < now_keys.len() implies table@.contains_key(
                    #[trigger] now_keys[i],
                ) && table@[now_keys[i]] == now_values[i] by {
                    if i > 0 {
                        assert(held.contains_key(done_keys[i - 1]));
                        assert(done_keys[i - 1] != key@);
                    }
                }
                assert forall|k: Seq<char>| #[trigger] table@.contains_key(k) implies now_keys.contains(
                    k,
                ) by {
                    if k == key@ {
                        assert(now_keys[0] == k);
                    } else {
                        assert(held.contains_key(k));
                        let at = choose|i: int| 0 <= i < done_keys.len() && done_keys[i] == k;
                        assert(now_keys[at + 1] == k);
                    }
                }
            }
        }
        proof {
            assert(all_keys.skip(0) =~= all_keys);
            assert(all_values.skip(0) =~= all_values);
        }
        Some(table)
    }

    /// Takes the store apart into its keys and, at the same positions, its
    /// values.
    pub fn into_lists(self) -> (lists: (Vec<String>, Vec<V>))
        ensures
            holds_exactly(self@, texts(lists.0@), lists.1@),
    {
        proof {
            use_type_invariant(&self);
        }
        let ghost all = self.entries@;
        let mut entries = self.entries;
        let mut keys: Vec<String> = Vec::new();
        let mut values: Vec<V> = Vec::new();
        while entries.len() > 0
            invariant
                distinct_keys(all),
                entries@ == all.take(entries@.len() as int),
                entries@.len() <= all.len(),
                keys@.len() == values@.len(),
                keys@.len() == all.len() - entries@.len(),
                forall|j: int|
                    0 <= j < keys@.len() ==> (#[trigger] keys@[j])@ == all[all.len() - 1 - j].key@,
                forall|j: int|
                    0 <= j < values@.len() ==> (#[trigger] values@[j]) == all[all.len() - 1
                        - j].value,
            decreases entries@.len(),
        {
            let ghost before = entries@.len() as int;
            let entry = entries.pop().unwrap();
            proof {
                assert(entry == all.take(before)[before - 1]);
                assert(entries@ =~= all.take(before - 1));
            }
            keys.push(entry.key);
            values.push(entry.value);
        }
        proof {
            let listed = texts(keys@);
            let n = all.len() as int;
            assert forall|i: int, j: int|
                0 <= i < listed.len() && 0 <= j < listed.len() && i != j implies listed[i]
                != listed[j] by {
                assert(listed[i] == keys@[i]@);
                assert(listed[j] == keys@[j]@);
                assert(all[n - 1 - i].key@ != all[n - 1 - j].key@);
            }
            assert forall|i: int| 0 <= i < listed.len() implies mapping_of(all).contains_key(
                #[trigger] listed[i],
            ) && mapping_of(all)[listed[i]] == values@[i] by {
                assert(listed[i] == keys@[i]@);
                lemma_mapping_at(all, n - 1 - i);
            }
            assert forall|k: Seq<char>| #[trigger] mapping_of(all).contains_key(k) implies listed.contains(
                k,
            ) by {
                let p = position_of(all, k);
                assert(listed[n - 1 - p] == keys@[n - 1 - p]@);
            }
        }
        (keys, values)
    }
}

} // verus!
