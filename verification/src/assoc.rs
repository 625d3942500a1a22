//! A small map that finds its values by comparing keys.
use vstd::prelude::*;

verus! {

/// Something that values are found by.
pub trait MapKey: View + Sized {
    /// Whether two keys are the same.
    fn same_key(&self, other: &Self) -> (same: bool)
        ensures
            same == (self@ == other@),
    ;

    /// The same key once more.
    fn copy_key(&self) -> (copy: Self)
        ensures
            copy@ == self@,
    ;
}

impl MapKey for String {
    fn same_key(&self, other: &Self) -> (same: bool) {
        *self == *other
    }

    fn copy_key(&self) -> (copy: Self) {
        self.clone()
    }
}

/// Whether `key` occurs among the entries.
pub open spec fn has_key<K: View, V: View>(entries: Seq<(K, V)>, key: K::V) -> bool {
    exists|i: int| 0 <= i < entries.len() && (#[trigger] entries[i]).0@ == key
}

/// Where `key` occurs among the entries.
pub open spec fn place_of<K: View, V: View>(entries: Seq<(K, V)>, key: K::V) -> int {
    choose|i: int| 0 <= i < entries.len() && (#[trigger] entries[i]).0@ == key
}

/// The map that the entries make up.
pub open spec fn map_of<K: View, V: View>(entries: Seq<(K, V)>) -> Map<K::V, V::V> {
    Map::new(
        |key: K::V| has_key(entries, key),
        |key: K::V| entries[place_of(entries, key)].1@,
    )
}

/// Whether no key occurs twice.
pub open spec fn unique_keys<K: View, V: View>(entries: Seq<(K, V)>) -> bool {
    forall|i: int, j: int|
        0 <= i < j < entries.len() ==> (#[trigger] entries[i]).0@ != (#[trigger] entries[j]).0@
}

/// A map. No key occurs twice among its entries.
#[verifier::reject_recursive_types(K)]
#[verifier::reject_recursive_types(V)]
#[derive(Debug)]
pub struct AssocMap<K: MapKey, V: View> {
    entries: Vec<(K, V)>,
}

impl<K: MapKey, V: View> View for AssocMap<K, V> {
    type V = Map<K::V, V::V>;

    closed spec fn view(&self) -> Map<K::V, V::V> {
        map_of(self.entries@)
    }
}

impl<K: MapKey, V: View> AssocMap<K, V> {
    #[verifier::type_invariant]
    spec fn keys_are_unique(self) -> bool {
        unique_keys(self.entries@)
    }

    /// The map without entries.
    pub fn new() -> (map: Self)
        ensures
            map@ == Map::<K::V, V::V>::empty(),
    {
        let map = AssocMap { entries: Vec::new() };
        assert(map@ =~= Map::<K::V, V::V>::empty());
        map
    }

    /// Where the key occurs.
    fn find(&self, key: &K) -> (place: Option<usize>)
        ensures
            match place {
                Some(i) => i < self.entries@.len() && self.entries@[i as int].0@ == key@,
                None => !has_key(self.entries@, key@),
            },
    {
        let mut i: usize = 0;
        while i < self.entries.len()
            invariant
                i <= self.entries@.len(),
                forall|j: int| 0 <= j < i ==> (#[trigger] self.entries@[j]).0@ != key@,
            decreases self.entries@.len() - i,
        {
            if self.entries[i].0.same_key(key) {
                return Some(i);
            }
            i += 1;
        }
        None
    }

    /// The value for a key.
    pub fn get(&self, key: &K) -> (value: Option<&V>)
        ensures
            match value {
                Some(v) => self@.contains_key(key@) && self@[key@] == v@,
                None => !self@.contains_key(key@),
            },
    {
        proof {
            use_type_invariant(self);
        }
        match self.find(key) {
            Some(i) => Some(&self.entries[i].1),
            None => None,
        }
    }

    /// Whether the key has a value.
    pub fn contains_key(&self, key: &K) -> (yes: bool)
        ensures
            yes == self@.contains_key(key@),
    {
        self.find(key).is_some()
    }

    /// Gives the key a value, and hands back the one that it had.
    pub fn insert(&mut self, key: K, value: V) -> (previous: Option<V>)
        ensures
            final(self)@ == old(self)@.insert(key@, value@),
            match previous {
                Some(v) => old(self)@.contains_key(key@) && old(self)@[key@] == v@,
                None => !old(self)@.contains_key(key@),
            },
    {
        proof {
            use_type_invariant(&*self);
        }
        let place = self.find(&key);
        let ghost before = self.entries@;
        let mut entries: Vec<(K, V)> = Vec::new();
        std::mem::swap(&mut entries, &mut self.entries);
        match place {
            Some(i) => {
                entries.push((key, value));
                let (_, previous) = entries.swap_remove(i);
                proof {
                    assert(entries@ =~= before.update(i as int, (key, value)));
                    lemma_map_replaced(before, entries@, i as int, (key, value));
                }
                self.entries = entries;
                Some(previous)
            },
            None => {
                entries.push((key, value));
                proof {
                    lemma_map_pushed(before, (key, value));
                }
                self.entries = entries;
                None
            },
        }
    }

    /// The keys, each once.
    pub fn keys(&self) -> (keys: Vec<K>)
        ensures
            forall|i: int| 0 <= i < keys@.len() ==> self@.contains_key(#[trigger] keys@[i]@),
            forall|key: K::V| self@.contains_key(key) ==> exists|i: int|
                0 <= i < keys@.len() && #[trigger] keys@[i]@ == key,
            forall|i: int, j: int| 0 <= i < j < keys@.len() ==> keys@[i]@ != keys@[j]@,
    {
        proof {
            use_type_invariant(self);
        }
        let mut keys: Vec<K> = Vec::new();
        let mut i: usize = 0;
        while i < self.entries.len()
            invariant
                i <= self.entries@.len(),
                keys@.len() == i,
                forall|j: int| 0 <= j < i ==> (#[trigger] keys@[j])@ == self.entries@[j].0@,
            decreases self.entries@.len() - i,
        {
            keys.push(self.entries[i].0.copy_key());
            i += 1;
        }
        assert forall|key: K::V| self@.contains_key(key) implies exists|i: int|
            0 <= i < keys@.len() && #[trigger] keys@[i]@ == key by {
            let i = place_of(self.entries@, key);
            assert(keys@[i]@ == key);
        }
        assert forall|i: int| 0 <= i < keys@.len() implies self@.contains_key(
            #[trigger] keys@[i]@,
        ) by {
            assert(self.entries@[i].0@ == keys@[i]@);
        }
        keys
    }

    /// Takes in the entries of another map, which win over its own.
    pub fn extend(&mut self, other: AssocMap<K, V>)
        ensures
            final(self)@ == old(self)@.union_prefer_right(other@),
    {
        proof {
            use_type_invariant(&other);
        }
        let ghost start = self@;
        let ghost all = other.entries@;
        let mut rest = other.entries;
        assert(all.skip(all.len() as int) == Seq::<(K, V)>::empty());
        assert(self@ =~= start.union_prefer_right(map_of(all.skip(rest@.len() as int))));
        while rest.len() > 0
            invariant
                rest@ == all.take(rest@.len() as int),
                rest@.len() <= all.len(),
                unique_keys(all),
                self@ == start.union_prefer_right(map_of(all.skip(rest@.len() as int))),
            decreases rest@.len(),
        {
            let ghost n = rest@.len() as int;
            let ghost before = self@;
            match rest.pop() {
                Some((key, value)) => {
                    assert((key, value) == all[n - 1]);
                    self.insert(key, value);
                    proof {
                        lemma_map_prepended(all, n - 1);
                        assert(self@ =~= start.union_prefer_right(map_of(all.skip(n - 1))));
                    }
                },
                None => {},
            }
        }
        assert(all.skip(0) == all);
    }
}

impl<K: MapKey> AssocMap<K, String> {
    /// The same map once more.
    pub fn copy(&self) -> (copy: Self)
        ensures
            copy@ == self@,
    {
        proof {
            use_type_invariant(self);
        }
        let mut entries: Vec<(K, String)> = Vec::new();
        let mut i: usize = 0;
        while i < self.entries.len()
            invariant
                i <= self.entries@.len(),
                entries@.len() == i,
                forall|j: int|
                    0 <= j < i ==> (#[trigger] entries@[j]).0@ == self.entries@[j].0@
                        && entries@[j].1@ == self.entries@[j].1@,
            decreases self.entries@.len() - i,
        {
            entries.push((self.entries[i].0.copy_key(), self.entries[i].1.clone()));
            i += 1;
        }
        proof {
            lemma_map_copied(self.entries@, entries@);
        }
        AssocMap { entries }
    }
}

/// Entries with the same keys and values make up the same map.
proof fn lemma_map_copied<K: View, V: View>(entries: Seq<(K, V)>, copy: Seq<(K, V)>)
    requires
        unique_keys(entries),
        entries.len() == copy.len(),
        forall|i: int|
            0 <= i < copy.len() ==> (#[trigger] copy[i]).0@ == entries[i].0@ && copy[i].1@
                == entries[i].1@,
    ensures
        unique_keys(copy),
        map_of(copy) == map_of(entries),
{
    assert forall|i: int, j: int| 0 <= i < j < copy.len() implies (#[trigger] copy[i]).0@ != (
    #[trigger] copy[j]).0@ by {
        assert(entries[i].0@ != entries[j].0@);
    }
    assert forall|key: K::V| has_key(copy, key) <==> has_key(entries, key) by {
        if has_key(copy, key) {
            assert(entries[place_of(copy, key)].0@ == key);
        }
        if has_key(entries, key) {
            assert(copy[place_of(entries, key)].0@ == key);
        }
    }
    assert forall|key: K::V| has_key(copy, key) implies map_of(copy)[key] == map_of(
        entries,
    )[key] by {
        let i = place_of(copy, key);
        lemma_entry_found(copy, i);
        lemma_entry_found(entries, i);
    }
    assert(map_of(copy) =~= map_of(entries));
}

/// An entry is found by its key.
proof fn lemma_entry_found<K: View, V: View>(entries: Seq<(K, V)>, i: int)
    requires
        unique_keys(entries),
        0 <= i < entries.len(),
    ensures
        map_of(entries).contains_key(entries[i].0@),
        map_of(entries)[entries[i].0@] == entries[i].1@,
{
    assert(has_key(entries, entries[i].0@));
    let j = place_of(entries, entries[i].0@);
    assert(entries[j].0@ == entries[i].0@);
    assert(i == j);
}

/// What a new entry makes of the map.
proof fn lemma_map_pushed<K: View, V: View>(entries: Seq<(K, V)>, entry: (K, V))
    requires
        unique_keys(entries),
        !has_key(entries, entry.0@),
    ensures
        unique_keys(entries.push(entry)),
        map_of(entries.push(entry)) == map_of(entries).insert(entry.0@, entry.1@),
{
    let after = entries.push(entry);
    assert(unique_keys(after));
    assert forall|key: K::V| has_key(after, key) <==> has_key(entries, key) || key == entry.0@ by {
        if has_key(entries, key) {
            assert(after[place_of(entries, key)].0@ == key);
        }
        assert(after[entries.len() as int] == entry);
        if has_key(after, key) {
            let i = place_of(after, key);
            assert(i < entries.len() ==> entries[i].0@ == key);
        }
    }
    assert forall|key: K::V| has_key(after, key) implies map_of(after)[key] == map_of(
        entries,
    ).insert(entry.0@, entry.1@)[key] by {
        let i = place_of(after, key);
        lemma_entry_found(after, i);
        if i < entries.len() {
            lemma_entry_found(entries, i);
        }
    }
    assert(map_of(after) =~= map_of(entries).insert(entry.0@, entry.1@));
}

/// What an entry makes of the map when it takes the place of one with its key.
proof fn lemma_map_replaced<K: View, V: View>(
    before: Seq<(K, V)>,
    after: Seq<(K, V)>,
    i: int,
    entry: (K, V),
)
    requires
        unique_keys(before),
        0 <= i < before.len(),
        before[i].0@ == entry.0@,
        after == before.update(i, entry),
    ensures
        unique_keys(after),
        map_of(after) == map_of(before).insert(entry.0@, entry.1@),
        map_of(before).contains_key(entry.0@),
        map_of(before)[entry.0@] == before[i].1@,
{
    lemma_entry_found(before, i);
    assert forall|j: int, k: int| 0 <= j < k < after.len() implies (#[trigger] after[j]).0@ != (
    #[trigger] after[k]).0@ by {
        assert(before[j].0@ != before[k].0@);
    }
    assert forall|key: K::V| has_key(after, key) <==> has_key(before, key) by {
        if has_key(before, key) {
            let j = place_of(before, key);
            assert(after[j].0@ == key);
        }
        if has_key(after, key) {
            let j = place_of(after, key);
            assert(before[j].0@ == key);
        }
    }
    assert forall|key: K::V| has_key(after, key) implies map_of(after)[key] == map_of(
        before,
    ).insert(entry.0@, entry.1@)[key] by {
        let j = place_of(after, key);
        lemma_entry_found(after, j);
        lemma_entry_found(before, j);
        assert(j != i ==> key != entry.0@);
    }
    assert(map_of(after) =~= map_of(before).insert(entry.0@, entry.1@));
}

/// What one more entry at the front makes of the map of the last entries.
proof fn lemma_map_prepended<K: View, V: View>(entries: Seq<(K, V)>, n: int)
    requires
        unique_keys(entries),
        0 <= n < entries.len(),
    ensures
        map_of(entries.skip(n)) == map_of(entries.skip(n + 1)).insert(
            entries[n].0@,
            entries[n].1@,
        ),
        !map_of(entries.skip(n + 1)).contains_key(entries[n].0@),
{
    let long = entries.skip(n);
    let short = entries.skip(n + 1);
    assert(unique_keys(long));
    assert(unique_keys(short));
    assert(long[0] == entries[n]);
    if has_key(short, entries[n].0@) {
        let i = place_of(short, entries[n].0@);
        assert(short[i] == entries[n + 1 + i]);
    }
    assert forall|key: K::V| has_key(long, key) <==> has_key(short, key) || key
        == entries[n].0@ by {
        if has_key(short, key) {
            let i = place_of(short, key);
            assert(long[i + 1] == short[i]);
        }
        if has_key(long, key) {
            let i = place_of(long, key);
            assert(i > 0 ==> short[i - 1] == long[i]);
        }
    }
    assert forall|key: K::V| has_key(long, key) implies map_of(long)[key] == map_of(short).insert(
        entries[n].0@,
        entries[n].1@,
    )[key] by {
        let i = place_of(long, key);
        lemma_entry_found(long, i);
        if i > 0 {
            assert(short[i - 1] == long[i]);
            lemma_entry_found(short, i - 1);
        }
    }
    assert(map_of(long) =~= map_of(short).insert(entries[n].0@, entries[n].1@));
}

/// What was inserted is found, and what was there before under any other key still is.
/// What was there under the same key is handed back.
pub proof fn what_was_inserted_is_found<K: MapKey, V: View>(
    map: &mut AssocMap<K, V>,
    key: K,
    value: V,
    previous: Option<V>,
    after: &AssocMap<K, V>,
    other: &K,
    found: Option<&V>,
    present: bool,
)
    requires
        call_ensures(AssocMap::<K, V>::insert, (map, key, value), previous),
        after@ == final(map)@,
        call_ensures(AssocMap::<K, V>::get, (after, other), found),
        call_ensures(AssocMap::<K, V>::contains_key, (after, other), present),
    ensures
        present <==> found is Some,
        other@ == key@ ==> (found matches Some(found) && found@ == value@),
        other@ != key@ ==> (present <==> old(map)@.contains_key(other@)),
        other@ != key@ ==> (found matches Some(found) ==> found@ == old(map)@[other@]),
        previous is Some <==> old(map)@.contains_key(key@),
        previous matches Some(previous) ==> previous@ == old(map)@[key@],
{
}

/// A new map finds nothing.
pub proof fn a_new_map_is_empty<K: MapKey, V: View>(
    map: AssocMap<K, V>,
    same: &AssocMap<K, V>,
    key: &K,
    found: Option<&V>,
)
    requires
        call_ensures(AssocMap::<K, V>::new, (), map),
        same@ == map@,
        call_ensures(AssocMap::<K, V>::get, (same, key), found),
    ensures
        found is None,
{
}

/// A map that takes in another has the values of the other where it has one, and its own
/// where it has not.
pub proof fn a_map_takes_in_another<K: MapKey, V: View>(
    map: &mut AssocMap<K, V>,
    other: AssocMap<K, V>,
    key: K::V,
)
    requires
        call_ensures(AssocMap::<K, V>::extend, (map, other), ()),
    ensures
        final(map)@.contains_key(key) <==> old(map)@.contains_key(key) || other@.contains_key(key),
        other@.contains_key(key) ==> final(map)@[key] == other@[key],
        old(map)@.contains_key(key) && !other@.contains_key(key) ==> final(map)@[key]
            == old(map)@[key],
{
}

/// A copy has the same values under the same keys.
pub proof fn a_copy_has_the_same_values<K: MapKey>(
    map: &AssocMap<K, String>,
    copy: AssocMap<K, String>,
    key: K::V,
)
    requires
        call_ensures(AssocMap::<K, String>::copy, (map,), copy),
    ensures
        copy@.contains_key(key) <==> map@.contains_key(key),
        map@.contains_key(key) ==> copy@[key] == map@[key],
{
}

} // verus!
