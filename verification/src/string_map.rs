//! A map from strings to values, kept in the byte order of its keys.

use vstd::prelude::*;
use vstd::utf8::encode_utf8;

verus! {

/// Where one key stands relative to another in the order of a [`StringMap`].
#[derive(Debug, Clone, Copy, PartialEq, Eq)]
pub enum KeyOrder {
    Before,
    Same,
    After,
}

/// Lexicographic order on byte strings: `a` comes strictly before `b`.
pub open spec fn bytes_before(a: Seq<u8>, b: Seq<u8>) -> bool
    decreases a.len(),
{
    if b.len() == 0 {
        false
    } else if a.len() == 0 {
        true
    } else if a[0] != b[0] {
        a[0] < b[0]
    } else {
        bytes_before(a.drop_first(), b.drop_first())
    }
}

/// The order of keys: that of their UTF-8 bytes.
pub open spec fn key_before(a: Seq<char>, b: Seq<char>) -> bool {
    bytes_before(encode_utf8(a), encode_utf8(b))
}

/// Each key comes strictly before the next ones, so none occurs twice.
pub open spec fn ascending(keys: Seq<Seq<char>>) -> bool {
    forall|i: int, j: int| 0 <= i < j < keys.len() ==> key_before(#[trigger] keys[i], #[trigger] keys[j])
}

proof fn lemma_bytes_before_irreflexive(a: Seq<u8>)
    ensures
        !bytes_before(a, a),
    decreases a.len(),
{
    if a.len() > 0 {
        lemma_bytes_before_irreflexive(a.drop_first());
    }
}

proof fn lemma_bytes_before_transitive(a: Seq<u8>, b: Seq<u8>, c: Seq<u8>)
    requires
        bytes_before(a, b),
        bytes_before(b, c),
    ensures
        bytes_before(a, c),
    decreases a.len(),
{
    if a.len() > 0 && a[0] == b[0] && b[0] == c[0] {
        lemma_bytes_before_transitive(a.drop_first(), b.drop_first(), c.drop_first());
    }
}

/// Skipping a common prefix does not change how two byte strings compare.
proof fn lemma_bytes_before_skip(a: Seq<u8>, b: Seq<u8>, n: int)
    requires
        0 <= n <= a.len(),
        n <= b.len(),
        forall|i: int| 0 <= i < n ==> a[i] == b[i],
    ensures
        bytes_before(a, b) == bytes_before(a.skip(n), b.skip(n)),
    decreases n,
{
    if n == 0 {
        assert(a.skip(0) =~= a);
        assert(b.skip(0) =~= b);
    } else {
        lemma_bytes_before_skip(a.drop_first(), b.drop_first(), n - 1);
        assert(a.drop_first().skip(n - 1) =~= a.skip(n));
        assert(b.drop_first().skip(n - 1) =~= b.skip(n));
    }
}

/// Compares two keys by their UTF-8 bytes.
pub fn key_order(a: &str, b: &str) -> (order: KeyOrder)
    ensures
        order is Before <==> key_before(a@, b@),
        order is Same <==> a@ == b@,
        order is After <==> key_before(b@, a@),
{
    let x = a.as_bytes();
    let y = b.as_bytes();
    proof {
        lemma_bytes_before_irreflexive(x@);
        if bytes_before(x@, y@) && bytes_before(y@, x@) {
            lemma_bytes_before_transitive(x@, y@, x@);
        }
        vstd::utf8::encode_utf8_decode_utf8(a@);
        vstd::utf8::encode_utf8_decode_utf8(b@);
    }
    let mut i: usize = 0;
    while i < x.len() && i < y.len()
        invariant
            i <= x@.len(),
            i <= y@.len(),
            x@ == encode_utf8(a@),
            y@ == encode_utf8(b@),
            forall|j: int| 0 <= j < i ==> x@[j] == y@[j],
            !(bytes_before(x@, y@) && bytes_before(y@, x@)),
            a@ == b@ ==> x@ == y@ && !bytes_before(x@, y@),
        decreases x@.len() - i,
    {
        if x[i] != y[i] {
            proof {
                lemma_bytes_before_skip(x@, y@, i as int);
                lemma_bytes_before_skip(y@, x@, i as int);
            }
            return if x[i] < y[i] {
                KeyOrder::Before
            } else {
                KeyOrder::After
            };
        }
        i = i + 1;
    }
    proof {
        lemma_bytes_before_skip(x@, y@, i as int);
        lemma_bytes_before_skip(y@, x@, i as int);
    }
    if i < y.len() {
        KeyOrder::Before
    } else if i < x.len() {
        KeyOrder::After
    } else {
        assert(x@ =~= y@);
        KeyOrder::Same
    }
}

/// Whether two strings hold the same text.
pub fn same_text(a: &str, b: &str) -> (same: bool)
    ensures
        same <==> a@ == b@,
{
    matches!(key_order(a, b), KeyOrder::Same)
}

/// A map with string keys. Walking it meets the keys in ascending byte order.
#[derive(Debug, PartialEq)]
pub struct StringMap<V> {
    entries: Vec<(String, V)>,
}

impl<V> StringMap<V> {
    /// The keys, in the order in which they are held.
    pub closed spec fn keys(self) -> Seq<Seq<char>> {
        Seq::new(self.entries@.len(), |i: int| self.entries@[i].0@)
    }

    /// The values, each at the place of its key.
    pub closed spec fn values(self) -> Seq<V> {
        Seq::new(self.entries@.len(), |i: int| self.entries@[i].1)
    }

    #[verifier::type_invariant]
    spec fn in_order(self) -> bool {
        ascending(self.keys())
    }
}

/// The map that a sequence of keys and the values beside them stand for.
pub open spec fn zip_to_map<K, V>(keys: Seq<K>, values: Seq<V>) -> Map<K, V> {
    Map::new(|k: K| keys.contains(k), |k: K| values[keys.index_of(k)])
}

/// The map that results from inserting the given entries one by one.
pub open spec fn insert_all<V>(entries: Seq<(String, V)>) -> Map<Seq<char>, V>
    decreases entries.len(),
{
    if entries.len() == 0 {
        Map::empty()
    } else {
        insert_all(entries.drop_last()).insert(entries.last().0@, entries.last().1)
    }
}

impl<V> View for StringMap<V> {
    type V = Map<Seq<char>, V>;

    open spec fn view(&self) -> Map<Seq<char>, V> {
        zip_to_map(self.keys(), self.values())
    }
}

/// A map is structurally larger than each of its values.
pub broadcast proof fn lemma_value_decreases<V>(map: StringMap<V>, i: int)
    requires
        0 <= i < map.values().len(),
    ensures
        #[trigger] (decreases_to!(map => map.values()[i])),
{
    assert(decreases_to!(map => map.entries));
    assert(decreases_to!(map.entries => map.entries@));
    assert(decreases_to!(map.entries@ => map.entries@[i]));
    assert(decreases_to!(map.entries@[i] => map.entries@[i].1));
}

/// There is one value for each key.
pub proof fn lemma_values_len<V>(map: StringMap<V>)
    ensures
        map.values().len() == map.keys().len(),
{
}

proof fn lemma_key_before_irreflexive(a: Seq<char>)
    ensures
        !key_before(a, a),
{
    lemma_bytes_before_irreflexive(encode_utf8(a));
}

proof fn lemma_key_before_transitive(a: Seq<char>, b: Seq<char>, c: Seq<char>)
    requires
        key_before(a, b),
        key_before(b, c),
    ensures
        key_before(a, c),
{
    lemma_bytes_before_transitive(encode_utf8(a), encode_utf8(b), encode_utf8(c));
}

/// In ascending keys, a key stands at one place only.
pub proof fn lemma_key_stands_once(keys: Seq<Seq<char>>, i: int)
    requires
        ascending(keys),
        0 <= i < keys.len(),
    ensures
        keys.contains(keys[i]),
        keys.index_of(keys[i]) == i,
{
    let j = keys.index_of(keys[i]);
    assert(keys[j] == keys[i]);
    lemma_key_before_irreflexive(keys[i]);
    assert(!(i < j) && !(j < i));
}

/// Every map that ascending keys stand for is finite and has as many entries as there are keys.
proof fn lemma_zip_len<V>(keys: Seq<Seq<char>>, values: Seq<V>)
    requires
        ascending(keys),
    ensures
        zip_to_map(keys, values).dom() == keys.to_set(),
        zip_to_map(keys, values).dom().finite(),
        zip_to_map(keys, values).len() == keys.len(),
{
    assert(zip_to_map(keys, values).dom() =~= keys.to_set());
    assert forall|i: int, j: int| 0 <= i < j < keys.len() implies keys[i] != keys[j] by {
        lemma_key_before_irreflexive(keys[i]);
    }
    assert(keys.no_duplicates());
    keys.unique_seq_to_set();
}

/// Putting a new key where the order wants it inserts it into the map.
proof fn lemma_zip_insert<V>(keys: Seq<Seq<char>>, values: Seq<V>, i: int, key: Seq<char>, value: V)
    requires
        ascending(keys),
        values.len() == keys.len(),
        0 <= i <= keys.len(),
        forall|j: int| 0 <= j < i ==> key_before(#[trigger] keys[j], key),
        forall|j: int| i <= j < keys.len() ==> key_before(key, #[trigger] keys[j]),
    ensures
        ascending(keys.insert(i, key)),
        zip_to_map(keys.insert(i, key), values.insert(i, value)) == zip_to_map(
            keys,
            values,
        ).insert(key, value),
        !zip_to_map(keys, values).contains_key(key),
{
    let keys2 = keys.insert(i, key);
    let values2 = values.insert(i, value);
    let before = zip_to_map(keys, values);
    let after = zip_to_map(keys2, values2);
    assert(ascending(keys2));
    assert forall|j: int| 0 <= j < keys.len() implies keys[j] != key by {
        lemma_key_before_irreflexive(key);
    }
    lemma_key_stands_once(keys2, i);
    assert forall|k: Seq<char>| before.contains_key(k) implies #[trigger] after.contains_key(k)
        && after[k] == before[k] by {
        let j = keys.index_of(k);
        let j2 = if j < i { j } else { j + 1 };
        assert(keys2[j2] == k);
        lemma_key_stands_once(keys2, j2);
    }
    assert forall|k: Seq<char>| #[trigger] after.contains_key(k) implies before.contains_key(k) || k == key by {
        let j2 = keys2.index_of(k);
        assert(keys2[j2] == k);
        if j2 < i {
            assert(keys[j2] == k);
        } else if j2 > i {
            assert(keys[j2 - 1] == k);
        }
    }
    assert(after =~= before.insert(key, value));
}

/// Adding a new key and its value at the end inserts it into the map.
pub proof fn lemma_zip_push<K, V>(keys: Seq<K>, values: Seq<V>, key: K, value: V)
    requires
        keys.no_duplicates(),
        keys.len() == values.len(),
        !keys.contains(key),
    ensures
        zip_to_map(keys.push(key), values.push(value)) == zip_to_map(keys, values).insert(key, value),
{
    let longer = keys.push(key);
    assert forall|k: K| longer.contains(k) implies (k == key || keys.contains(k)) && (keys.contains(k)
        ==> #[trigger] longer.index_of(k) == keys.index_of(k)) by {
        let i = longer.index_of(k);
        assert(longer[i] == k);
        if i < keys.len() {
            assert(keys[i] == k);
        }
        if keys.contains(k) {
            let j = keys.index_of(k);
            assert(longer[j] == k);
            if i < keys.len() {
                assert(keys[i] == keys[j]);
            }
        }
    }
    assert(longer[keys.len() as int] == key);
    assert(longer.index_of(key) == keys.len()) by {
        let i = longer.index_of(key);
        assert(longer[i] == key);
        if i < keys.len() {
            assert(keys[i] == key);
        }
    }
    assert forall|k: K| keys.contains(k) implies longer.contains(k) by {
        assert(longer[keys.index_of(k)] == k);
    }
    assert(zip_to_map(longer, values.push(value)) =~= zip_to_map(keys, values).insert(key, value));
}

/// Keys in ascending order are distinct.
pub proof fn lemma_ascending_distinct(keys: Seq<Seq<char>>)
    requires
        ascending(keys),
    ensures
        keys.no_duplicates(),
{
    assert forall|i: int, j: int| 0 <= i < j < keys.len() implies keys[i] != keys[j] by {
        lemma_key_before_irreflexive(keys[i]);
    }
}

/// Inserting entries with distinct keys one by one gives the map of the keys and the values beside
/// them.
pub proof fn lemma_insert_distinct<V>(entries: Seq<(String, V)>)
    requires
        entries.map_values(|e: (String, V)| e.0@).no_duplicates(),
    ensures
        insert_all(entries) == zip_to_map(
            entries.map_values(|e: (String, V)| e.0@),
            entries.map_values(|e: (String, V)| e.1),
        ),
    decreases entries.len(),
{
    let keys = entries.map_values(|e: (String, V)| e.0@);
    let values = entries.map_values(|e: (String, V)| e.1);
    if entries.len() == 0 {
        assert(insert_all(entries) =~= zip_to_map(keys, values));
    } else {
        let earlier = entries.drop_last();
        let earlier_keys = earlier.map_values(|e: (String, V)| e.0@);
        let earlier_values = earlier.map_values(|e: (String, V)| e.1);
        assert forall|i: int| 0 <= i < earlier_keys.len() implies earlier_keys[i] == keys[i] by {}
        assert(earlier_keys.no_duplicates());
        lemma_insert_distinct(earlier);
        assert(keys =~= earlier_keys.push(keys.last()));
        assert(values =~= earlier_values.push(values.last()));
        assert(!earlier_keys.contains(keys.last())) by {
            if earlier_keys.contains(keys.last()) {
                let i = earlier_keys.index_of(keys.last());
                assert(keys[i] == keys[keys.len() - 1]);
            }
        }
        lemma_zip_push(earlier_keys, earlier_values, keys.last(), values.last());
    }
}

/// Putting a value in the place of the one at a key replaces it in the map.
proof fn lemma_zip_update<V>(keys: Seq<Seq<char>>, values: Seq<V>, i: int, value: V)
    requires
        ascending(keys),
        values.len() == keys.len(),
        0 <= i < keys.len(),
    ensures
        zip_to_map(keys, values.update(i, value)) == zip_to_map(keys, values).insert(keys[i], value),
        zip_to_map(keys, values).contains_key(keys[i]),
        zip_to_map(keys, values)[keys[i]] == values[i],
{
    lemma_key_stands_once(keys, i);
    let before = zip_to_map(keys, values);
    let after = zip_to_map(keys, values.update(i, value));
    assert forall|k: Seq<char>| before.contains_key(k) && k != keys[i] implies #[trigger] after[k]
        == before[k] by {
        assert(keys[keys.index_of(k)] == k);
    }
    assert(after =~= before.insert(keys[i], value));
}

/// Taking out a key and its value removes it from the map.
proof fn lemma_zip_remove<V>(keys: Seq<Seq<char>>, values: Seq<V>, i: int)
    requires
        ascending(keys),
        values.len() == keys.len(),
        0 <= i < keys.len(),
    ensures
        ascending(keys.remove(i)),
        zip_to_map(keys.remove(i), values.remove(i)) == zip_to_map(keys, values).remove(keys[i]),
{
    let keys2 = keys.remove(i);
    let before = zip_to_map(keys, values);
    let after = zip_to_map(keys2, values.remove(i));
    assert forall|j: int, k: int| 0 <= j < k < keys2.len() implies key_before(
        #[trigger] keys2[j],
        #[trigger] keys2[k],
    ) by {
        let j0 = if j < i { j } else { j + 1 };
        let k0 = if k < i { k } else { k + 1 };
        assert(key_before(keys[j0], keys[k0]));
    }
    lemma_key_stands_once(keys, i);
    assert forall|k: Seq<char>| before.contains_key(k) && k != keys[i] implies #[trigger] after.contains_key(k)
        && after[k] == before[k] by {
        let j = keys.index_of(k);
        let j2 = if j < i { j } else { j - 1 };
        assert(keys2[j2] == k);
        lemma_key_stands_once(keys2, j2);
    }
    assert forall|k: Seq<char>| #[trigger] after.contains_key(k) implies before.contains_key(k) && k != keys[i] by {
        let j2 = keys2.index_of(k);
        assert(keys2[j2] == k);
        let j = if j2 < i { j2 } else { j2 + 1 };
        assert(keys[j] == k);
        lemma_key_stands_once(keys, j);
    }
    assert(after =~= before.remove(keys[i]));
}

impl<V> StringMap<V> {
    /// The empty map.
    pub fn new() -> (map: StringMap<V>)
        ensures
            map@ == Map::<Seq<char>, V>::empty(),
    {
        let map = StringMap { entries: Vec::new() };
        proof {
            assert(map@ =~= Map::<Seq<char>, V>::empty());
        }
        map
    }

    /// The first place whose key does not come before `key`.
    fn place(&self, key: &str) -> (place: (usize, bool))
        ensures
            place.0 <= self.keys().len(),
            forall|j: int| 0 <= j < place.0 ==> key_before(#[trigger] self.keys()[j], key@),
            place.1 ==> place.0 < self.keys().len() && self.keys()[place.0 as int] == key@,
            !place.1 ==> forall|j: int|
                place.0 <= j < self.keys().len() ==> key_before(key@, #[trigger] self.keys()[j]),
    {
        proof {
            use_type_invariant(self);
        }
        let mut i: usize = 0;
        while i < self.entries.len()
            invariant
                i <= self.entries@.len(),
                ascending(self.keys()),
                forall|j: int| 0 <= j < i ==> key_before(#[trigger] self.keys()[j], key@),
            decreases self.entries@.len() - i,
        {
            assert(self.keys()[i as int] == self.entries@[i as int].0@);
            match key_order(self.entries[i].0.as_str(), key) {
                KeyOrder::Before => {
                    i = i + 1;
                },
                KeyOrder::Same => {
                    return (i, true);
                },
                KeyOrder::After => {
                    proof {
                        assert forall|j: int| i <= j < self.keys().len() implies key_before(
                            key@,
                            #[trigger] self.keys()[j],
                        ) by {
                            if i < j {
                                lemma_key_before_transitive(
                                    key@,
                                    self.keys()[i as int],
                                    self.keys()[j],
                                );
                            }
                        }
                    }
                    return (i, false);
                },
            }
        }
        (i, false)
    }

    /// The value at `key`.
    pub fn get(&self, key: &str) -> (value: Option<&V>)
        ensures
            value is Some <==> self@.contains_key(key@),
            value matches Some(v) ==> *v == self@[key@],
    {
        proof {
            use_type_invariant(self);
        }
        let (i, found) = self.place(key);
        if found {
            proof {
                lemma_key_stands_once(self.keys(), i as int);
            }
            Some(&self.entries[i].1)
        } else {
            proof {
                lemma_zip_insert(self.keys(), self.values(), i as int, key@, arbitrary());
            }
            None
        }
    }

    /// Whether there is a value at `key`.
    pub fn contains_key(&self, key: &str) -> (found: bool)
        ensures
            found == self@.contains_key(key@),
    {
        self.get(key).is_some()
    }

    /// The number of keys.
    pub fn len(&self) -> (len: usize)
        ensures
            len == self@.len(),
            self@.dom().finite(),
    {
        proof {
            use_type_invariant(self);
            lemma_zip_len(self.keys(), self.values());
        }
        self.entries.len()
    }

    /// Whether the map has no key.
    pub fn is_empty(&self) -> (empty: bool)
        ensures
            empty <==> self@ == Map::<Seq<char>, V>::empty(),
    {
        proof {
            use_type_invariant(self);
            if self.keys().len() == 0 {
                assert(self@ =~= Map::<Seq<char>, V>::empty());
            } else {
                lemma_key_stands_once(self.keys(), 0);
                assert(self@.contains_key(self.keys()[0]));
            }
        }
        self.entries.len() == 0
    }

    /// Sets the value at `key`, and returns the one that was there.
    pub fn insert(&mut self, key: String, value: V) -> (replaced: Option<V>)
        ensures
            final(self)@ == old(self)@.insert(key@, value),
            replaced == old(self)@.get(key@),
    {
        proof {
            use_type_invariant(&*self);
        }
        let ghost keys = self.keys();
        let ghost values = self.values();
        let (i, found) = self.place(key.as_str());
        let mut entries: Vec<(String, V)> = Vec::new();
        std::mem::swap(&mut entries, &mut self.entries);
        let replaced = if found {
            proof {
                lemma_zip_update(keys, values, i as int, value);
            }
            let (key0, value0) = entries.remove(i);
            entries.insert(i, (key0, value));
            Some(value0)
        } else {
            proof {
                lemma_zip_insert(keys, values, i as int, key@, value);
            }
            entries.insert(i, (key, value));
            None
        };
        let ghost keys2 = Seq::new(entries@.len(), |j: int| entries@[j].0@);
        let ghost values2 = Seq::new(entries@.len(), |j: int| entries@[j].1);
        proof {
            if found {
                assert(keys2 =~= keys);
                assert(values2 =~= values.update(i as int, value));
            } else {
                assert(keys2 =~= keys.insert(i as int, key@));
                assert(values2 =~= values.insert(i as int, value));
            }
        }
        self.entries = entries;
        proof {
            assert(self.keys() =~= keys2);
            assert(self.values() =~= values2);
        }
        replaced
    }

    /// Takes out the value at `key`.
    pub fn remove(&mut self, key: &str) -> (removed: Option<V>)
        ensures
            final(self)@ == old(self)@.remove(key@),
            removed == old(self)@.get(key@),
    {
        proof {
            use_type_invariant(&*self);
        }
        let ghost keys = self.keys();
        let ghost values = self.values();
        let (i, found) = self.place(key);
        if !found {
            proof {
                lemma_zip_insert(keys, values, i as int, key@, arbitrary());
                assert(self@.remove(key@) =~= self@);
            }
            return None;
        }
        proof {
            lemma_zip_remove(keys, values, i as int);
            lemma_key_stands_once(keys, i as int);
        }
        let mut entries: Vec<(String, V)> = Vec::new();
        std::mem::swap(&mut entries, &mut self.entries);
        let (_, value) = entries.remove(i);
        let ghost keys2 = Seq::new(entries@.len(), |j: int| entries@[j].0@);
        let ghost values2 = Seq::new(entries@.len(), |j: int| entries@[j].1);
        proof {
            assert(keys2 =~= keys.remove(i as int));
            assert(values2 =~= values.remove(i as int));
        }
        self.entries = entries;
        proof {
            assert(self.keys() =~= keys2);
            assert(self.values() =~= values2);
        }
        Some(value)
    }

    /// The map of the given entries. Where a key occurs more than once, its last value stays.
    pub fn from_entries(entries: Vec<(String, V)>) -> (map: StringMap<V>)
        ensures
            map@ == insert_all(entries@),
    {
        let mut map = StringMap::new();
        let ghost all = entries@;
        for entry in iter: entries
            invariant
                iter.seq() == all,
                map@ == insert_all(all.take(iter.index() as int)),
        {
            proof {
                assert(all.take(iter.index() + 1).drop_last() =~= all.take(iter.index() as int));
            }
            map.insert(entry.0, entry.1);
        }
        proof {
            assert(all.take(all.len() as int) =~= all);
        }
        map
    }

    /// The map of entries that already stand in ascending order of their keys.
    pub fn from_ascending(entries: Vec<(String, V)>) -> (map: StringMap<V>)
        requires
            ascending(entries@.map_values(|e: (String, V)| e.0@)),
        ensures
            map.keys() == entries@.map_values(|e: (String, V)| e.0@),
            map.values() == entries@.map_values(|e: (String, V)| e.1),
    {
        proof {
            assert(Seq::new(entries@.len(), |i: int| entries@[i].0@) =~= entries@.map_values(
                |e: (String, V)| e.0@,
            ));
            assert(Seq::new(entries@.len(), |i: int| entries@[i].1) =~= entries@.map_values(
                |e: (String, V)| e.1,
            ));
        }
        StringMap { entries }
    }

    /// The keys and their values, in ascending order of the keys.
    pub fn entries(&self) -> (entries: &Vec<(String, V)>)
        ensures
            self.keys() == entries@.map_values(|e: (String, V)| e.0@),
            self.values() == entries@.map_values(|e: (String, V)| e.1),
            ascending(self.keys()),
    {
        proof {
            use_type_invariant(self);
            assert(self.keys() =~= self.entries@.map_values(|e: (String, V)| e.0@));
            assert(self.values() =~= self.entries@.map_values(|e: (String, V)| e.1));
        }
        &self.entries
    }
}

impl<V> Default for StringMap<V> {
    fn default() -> (map: StringMap<V>)
        ensures
            map@ == Map::<Seq<char>, V>::empty(),
    {
        StringMap::new()
    }
}

impl<V: Clone> Clone for StringMap<V> {
    fn clone(&self) -> (copy: StringMap<V>)
        ensures
            copy.keys() == self.keys(),
            copy.values().len() == self.values().len(),
            forall|i: int|
                0 <= i < self.values().len() ==> cloned(self.values()[i], #[trigger] copy.values()[i]),
    {
        proof {
            use_type_invariant(self);
        }
        let mut entries: Vec<(String, V)> = Vec::new();
        let mut i: usize = 0;
        while i < self.entries.len()
            invariant
                i <= self.entries@.len(),
                entries@.len() == i,
                forall|j: int| 0 <= j < i ==> (#[trigger] entries@[j]).0@ == self.entries@[j].0@,
                forall|j: int| 0 <= j < i ==> cloned(self.entries@[j].1, (#[trigger] entries@[j]).1),
            decreases self.entries@.len() - i,
        {
            let entry = &self.entries[i];
            entries.push((entry.0.clone(), entry.1.clone()));
            i = i + 1;
        }
        proof {
            assert(Seq::new(entries@.len(), |i: int| entries@[i].0@) =~= self.keys());
        }
        let copy = StringMap { entries };
        proof {
            assert(copy.keys() =~= self.keys());
        }
        copy
    }
}

} // verus!
