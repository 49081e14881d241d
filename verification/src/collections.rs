//! Small keyed collections with a fixed iteration order: entries are kept in
//! the order in which their keys first arrived. Beside them, what a walk
//! over a hash map on byte codes yields, whatever its order.

use std::collections::HashMap;
use vstd::prelude::*;
use vstd::std_specs::iter::IteratorSpec;

verus! {

/// Whether `key` is the key of some entry.
pub open spec fn has_key<K, V>(entries: Seq<(K, V)>, key: K) -> bool {
    exists|i: int| 0 <= i < entries.len() && (#[trigger] entries[i]).0 == key
}

/// The position of the first entry under `key`, or the length where there
/// is none.
pub open spec fn position_of<K, V>(entries: Seq<(K, V)>, key: K) -> int
    decreases entries.len(),
{
    if entries.len() == 0 {
        0
    } else if entries[0].0 == key {
        0
    } else {
        1 + position_of(entries.drop_first(), key)
    }
}

/// The value of the first entry under `key`.
pub open spec fn value_under<K, V>(entries: Seq<(K, V)>, key: K) -> Option<V> {
    if has_key(entries, key) {
        Some(entries[position_of(entries, key)].1)
    } else {
        None
    }
}

/// No key occurs twice.
pub open spec fn distinct_keys<K, V>(entries: Seq<(K, V)>) -> bool {
    forall|i: int, j: int|
        0 <= i < j < entries.len() ==> (#[trigger] entries[i]).0 != (#[trigger] entries[j]).0
}

/// The entries after `key` was given `value`: the first entry under `key`
/// takes the value and keeps its place, or a new entry goes to the end.
pub open spec fn with_entry<K, V>(entries: Seq<(K, V)>, key: K, value: V) -> Seq<(K, V)> {
    if has_key(entries, key) {
        entries.update(position_of(entries, key), (key, value))
    } else {
        entries.push((key, value))
    }
}

/// The entries without the first one under `key`.
pub open spec fn without_key<K, V>(entries: Seq<(K, V)>, key: K) -> Seq<(K, V)> {
    if has_key(entries, key) {
        entries.remove(position_of(entries, key))
    } else {
        entries
    }
}

/// `position_of` finds the first entry under the key, and only that.
pub proof fn lemma_position_of<K, V>(entries: Seq<(K, V)>, key: K)
    ensures
        0 <= position_of(entries, key) <= entries.len(),
        has_key(entries, key) <==> position_of(entries, key) < entries.len(),
        has_key(entries, key) ==> entries[position_of(entries, key)].0 == key,
        forall|i: int| 0 <= i < position_of(entries, key) ==> (#[trigger] entries[i]).0 != key,
    decreases entries.len(),
{
    if entries.len() == 0 {
    } else if entries[0].0 == key {
    } else {
        let rest = entries.drop_first();
        lemma_position_of(rest, key);
        let p = position_of(rest, key);
        assert forall|i: int| 0 <= i < 1 + p implies (#[trigger] entries[i]).0 != key by {
            if i > 0 {
                assert(rest[i - 1] == entries[i]);
            }
        }
        if has_key(entries, key) {
            let w = choose|i: int| 0 <= i < entries.len() && (#[trigger] entries[i]).0 == key;
            assert(rest[w - 1] == entries[w]);
            assert(entries[1 + p] == rest[p]);
        }
        if p < rest.len() {
            assert(entries[1 + p] == rest[p]);
        }
    }
}

/// The first position at which a key stands is its `position_of`.
pub proof fn lemma_first_position<K, V>(entries: Seq<(K, V)>, key: K, at: int)
    requires
        0 <= at < entries.len(),
        entries[at].0 == key,
        forall|i: int| 0 <= i < at ==> (#[trigger] entries[i]).0 != key,
    ensures
        position_of(entries, key) == at,
        has_key(entries, key),
{
    lemma_position_of(entries, key);
}

/// A key that stands nowhere is not a key of the entries.
pub proof fn lemma_no_position<K, V>(entries: Seq<(K, V)>, key: K)
    requires
        forall|i: int| 0 <= i < entries.len() ==> (#[trigger] entries[i]).0 != key,
    ensures
        !has_key(entries, key),
        position_of(entries, key) == entries.len(),
{
    lemma_position_of(entries, key);
}

/// Giving a key a value keeps keys distinct, makes the key present with
/// that value and leaves every other key as it was.
pub proof fn lemma_with_entry<K, V>(entries: Seq<(K, V)>, key: K, value: V, other: K)
    requires
        distinct_keys(entries),
    ensures
        distinct_keys(with_entry(entries, key, value)),
        value_under(with_entry(entries, key, value), key) == Some(value),
        other != key ==> value_under(with_entry(entries, key, value), other) == value_under(
            entries,
            other,
        ),
        with_entry(entries, key, value).len() == if has_key(entries, key) {
            entries.len()
        } else {
            entries.len() + 1
        },
{
    let after = with_entry(entries, key, value);
    lemma_position_of(entries, key);
    lemma_position_of(entries, other);
    lemma_position_of(after, key);
    lemma_position_of(after, other);
    let p = position_of(entries, key);
    if has_key(entries, key) {
        assert(after[p].0 == key);
        assert forall|i: int| 0 <= i < p implies (#[trigger] after[i]).0 != key by {
            assert(after[i] == entries[i]);
        }
        lemma_first_position(after, key, p);
    } else {
        assert(after[entries.len() as int].0 == key);
        assert forall|i: int| 0 <= i < entries.len() implies (#[trigger] after[i]).0 != key by {
            assert(after[i] == entries[i]);
        }
        lemma_first_position(after, key, entries.len() as int);
    }
    if other != key {
        let q = position_of(entries, other);
        if has_key(entries, other) {
            assert(after[q].0 == other);
            assert forall|i: int| 0 <= i < q implies (#[trigger] after[i]).0 != other by {
                if i != p {
                    assert(after[i] == entries[i]);
                }
            }
            lemma_first_position(after, other, q);
        } else {
            assert forall|i: int| 0 <= i < after.len() implies (#[trigger] after[i]).0
                != other by {
                if i < entries.len() && i != p {
                    assert(after[i] == entries[i]);
                }
            }
            lemma_no_position(after, other);
        }
    }
    assert forall|i: int, j: int| 0 <= i < j < after.len() implies (#[trigger] after[i]).0 != (
    #[trigger] after[j]).0 by {
        if has_key(entries, key) {
            assert(after[i].0 == entries[i].0);
            assert(after[j].0 == entries[j].0);
        } else {
            if j < entries.len() {
                assert(after[i] == entries[i]);
                assert(after[j] == entries[j]);
            } else {
                assert(after[i] == entries[i]);
            }
        }
    }
}

/// A key that was given a value has that value, whatever stood there.
pub proof fn lemma_with_entry_value<K, V>(entries: Seq<(K, V)>, key: K, value: V)
    ensures
        has_key(with_entry(entries, key, value), key),
        value_under(with_entry(entries, key, value), key) == Some(value),
{
    let after = with_entry(entries, key, value);
    lemma_position_of(entries, key);
    let p = position_of(entries, key);
    assert(after[p].0 == key);
    assert forall|i: int| 0 <= i < p implies (#[trigger] after[i]).0 != key by {
        assert(after[i] == entries[i]);
    }
    lemma_first_position(after, key, p);
}

/// Giving a key the value that it has changes nothing.
pub proof fn lemma_with_entry_same<K, V>(entries: Seq<(K, V)>, key: K, value: V)
    requires
        value_under(entries, key) == Some(value),
    ensures
        with_entry(entries, key, value) == entries,
{
    lemma_position_of(entries, key);
    assert(with_entry(entries, key, value) =~= entries);
}

/// Of two values given to one key in turn, the second stands.
pub proof fn lemma_with_entry_twice<K, V>(entries: Seq<(K, V)>, key: K, first: V, second: V)
    ensures
        with_entry(with_entry(entries, key, first), key, second) == with_entry(
            entries,
            key,
            second,
        ),
{
    let filed = with_entry(entries, key, first);
    lemma_with_entry_value(entries, key, first);
    lemma_position_of(entries, key);
    lemma_position_of(filed, key);
    let p = position_of(entries, key);
    assert(filed[p].0 == key);
    assert forall|i: int| 0 <= i < p implies (#[trigger] filed[i]).0 != key by {
        assert(filed[i] == entries[i]);
    }
    lemma_first_position(filed, key, p);
    assert(with_entry(filed, key, second) =~= with_entry(entries, key, second));
}

/// Removing a key keeps keys distinct, makes the key absent and leaves
/// every other key as it was.
pub proof fn lemma_without_key<K, V>(entries: Seq<(K, V)>, key: K, other: K)
    requires
        distinct_keys(entries),
    ensures
        distinct_keys(without_key(entries, key)),
        !has_key(without_key(entries, key), key),
        other != key ==> value_under(without_key(entries, key), other) == value_under(
            entries,
            other,
        ),
{
    let after = without_key(entries, key);
    lemma_position_of(entries, key);
    lemma_position_of(entries, other);
    lemma_position_of(after, other);
    let p = position_of(entries, key);
    if has_key(entries, key) {
        assert forall|i: int| 0 <= i < after.len() implies (#[trigger] after[i]).0 != key by {
            if i < p {
                assert(after[i] == entries[i]);
            } else {
                assert(after[i] == entries[i + 1]);
            }
        }
        lemma_no_position(after, key);
        assert forall|i: int, j: int| 0 <= i < j < after.len() implies (#[trigger] after[i]).0
            != (#[trigger] after[j]).0 by {
            let oi = if i < p {
                i
            } else {
                i + 1
            };
            let oj = if j < p {
                j
            } else {
                j + 1
            };
            assert(after[i] == entries[oi]);
            assert(after[j] == entries[oj]);
        }
        if other != key {
            let q = position_of(entries, other);
            if has_key(entries, other) {
                let nq = if q < p {
                    q
                } else {
                    q - 1
                };
                assert(after[nq] == entries[q]);
                assert forall|i: int| 0 <= i < nq implies (#[trigger] after[i]).0 != other by {
                    if i < p {
                        assert(after[i] == entries[i]);
                    } else {
                        assert(after[i] == entries[i + 1]);
                    }
                }
                lemma_first_position(after, other, nq);
            } else {
                assert forall|i: int| 0 <= i < after.len() implies (#[trigger] after[i]).0
                    != other by {
                    if i < p {
                        assert(after[i] == entries[i]);
                    } else {
                        assert(after[i] == entries[i + 1]);
                    }
                }
                lemma_no_position(after, other);
            }
        }
    } else {
        lemma_no_position(entries, key);
    }
}

/// What a sequence of references points to.
pub open spec fn targets<T>(refs: Seq<&T>) -> Seq<T> {
    refs.map_values(|r: &T| *r)
}

/// The step of a selection loop: looking at one more element adds it to the
/// selection where the predicate holds of it, and adds nothing where not.
pub proof fn lemma_select_step<T>(items: Seq<T>, count: int, keep: spec_fn(T) -> bool)
    requires
        0 <= count < items.len(),
    ensures
        items.take(count + 1).filter(keep) == if keep(items[count]) {
            items.take(count).filter(keep).push(items[count])
        } else {
            items.take(count).filter(keep)
        },
{
    assert(items.take(count + 1) =~= items.take(count).push(items[count]));
    items.take(count).lemma_filter_push(items[count], keep);
}

/// The ends of a selection loop: nothing is selected before the first
/// element was looked at, and after the last one the whole sequence was.
pub proof fn lemma_select_ends<T>(items: Seq<T>, keep: spec_fn(T) -> bool)
    ensures
        items.take(0).filter(keep) == Seq::<T>::empty(),
        items.take(items.len() as int) == items,
{
    items.take(0).lemma_filter_len(keep);
    assert(items.take(0).filter(keep) =~= Seq::<T>::empty());
    assert(items.take(items.len() as int) =~= items);
}

/// The entries with every value replaced by what `f` makes of it.
pub open spec fn mapped_values<K, V, W>(entries: Seq<(K, V)>, f: spec_fn(V) -> W) -> Seq<(K, W)> {
    entries.map_values(|e: (K, V)| (e.0, f(e.1)))
}

/// Replacing the values does not touch the keys: lookups, insertions and
/// removals commute with it.
pub proof fn lemma_mapped_values<K, V, W>(entries: Seq<(K, V)>, f: spec_fn(V) -> W, key: K)
    ensures
        mapped_values(entries, f).len() == entries.len(),
        has_key(mapped_values(entries, f), key) == has_key(entries, key),
        position_of(mapped_values(entries, f), key) == position_of(entries, key),
        value_under(mapped_values(entries, f), key) == match value_under(entries, key) {
            Some(v) => Some(f(v)),
            None => None,
        },
        distinct_keys(mapped_values(entries, f)) == distinct_keys(entries),
        without_key(mapped_values(entries, f), key) == mapped_values(without_key(entries, key), f),
    decreases entries.len(),
{
    let mapped = mapped_values(entries, f);
    if has_key(entries, key) {
        let w = choose|i: int| 0 <= i < entries.len() && (#[trigger] entries[i]).0 == key;
        assert(mapped[w].0 == key);
    }
    if has_key(mapped, key) {
        let w = choose|i: int| 0 <= i < mapped.len() && (#[trigger] mapped[i]).0 == key;
        assert(entries[w].0 == key);
    }
    if entries.len() > 0 {
        assert(mapped.drop_first() =~= mapped_values(entries.drop_first(), f));
        lemma_mapped_values(entries.drop_first(), f, key);
    }
    lemma_position_of(entries, key);
    if distinct_keys(entries) {
        assert forall|i: int, j: int| 0 <= i < j < mapped.len() implies (#[trigger] mapped[i]).0
            != (#[trigger] mapped[j]).0 by {
            assert(entries[i].0 != entries[j].0);
        }
    }
    if distinct_keys(mapped) {
        assert forall|i: int, j: int| 0 <= i < j < entries.len() implies (
        #[trigger] entries[i]).0 != (#[trigger] entries[j]).0 by {
            assert(mapped[i].0 != mapped[j].0);
        }
    }
    assert(without_key(mapped, key) =~= mapped_values(without_key(entries, key), f));
}

/// Giving a key a value commutes with replacing the values.
pub proof fn lemma_mapped_with_entry<K, V, W>(
    entries: Seq<(K, V)>,
    f: spec_fn(V) -> W,
    key: K,
    value: V,
)
    ensures
        with_entry(mapped_values(entries, f), key, f(value)) == mapped_values(
            with_entry(entries, key, value),
            f,
        ),
{
    lemma_mapped_values(entries, f, key);
    lemma_position_of(entries, key);
    assert(with_entry(mapped_values(entries, f), key, f(value)) =~= mapped_values(
        with_entry(entries, key, value),
        f,
    ));
}

/// The keys and values of text-keyed entries as mathematical values.
pub open spec fn text_entries<V>(entries: Seq<(String, V)>) -> Seq<(Seq<char>, V)> {
    entries.map_values(|e: (String, V)| (e.0@, e.1))
}

/// A map from text to values that remembers the order in which keys were
/// first inserted.
#[derive(Debug, Clone, PartialEq, Eq)]
pub struct TextMap<V> {
    entries: Vec<(String, V)>,
}

impl<V> View for TextMap<V> {
    type V = Seq<(Seq<char>, V)>;

    closed spec fn view(&self) -> Seq<(Seq<char>, V)> {
        text_entries(self.entries@)
    }
}

impl<V> TextMap<V> {
    /// No key occurs twice. Every map that was built through this interface
    /// is well-formed.
    pub open spec fn wf(&self) -> bool {
        distinct_keys(self@)
    }

    /// Whether the map has an entry under `key`.
    pub open spec fn has(&self, key: Seq<char>) -> bool {
        has_key(self@, key)
    }

    /// The value under `key`, if there is one.
    pub open spec fn value(&self, key: Seq<char>) -> Option<V> {
        value_under(self@, key)
    }

    pub fn new() -> (map: Self)
        ensures
            map@ == Seq::<(Seq<char>, V)>::empty(),
            map.wf(),
    {
        let map = Self { entries: Vec::new() };
        assert(map@ =~= Seq::<(Seq<char>, V)>::empty());
        map
    }

    pub fn len(&self) -> (count: usize)
        ensures
            count == self@.len(),
    {
        self.entries.len()
    }

    pub fn is_empty(&self) -> (empty: bool)
        ensures
            empty == (self@.len() == 0),
    {
        self.entries.len() == 0
    }

    /// The position of the first entry under `key`, or the length.
    fn find(&self, key: &str) -> (at: usize)
        ensures
            at == position_of(self@, key@),
            at <= self@.len(),
            has_key(self@, key@) <==> at < self@.len(),
            self@.len() == self.entries@.len(),
    {
        let mut i: usize = 0;
        while i < self.entries.len()
            invariant
                i <= self.entries@.len(),
                self@.len() == self.entries@.len(),
                forall|j: int| 0 <= j < i ==> (#[trigger] self@[j]).0 != key@,
            decreases self.entries@.len() - i,
        {
            if crate::text::same_text(self.entries[i].0.as_str(), key) {
                proof {
                    lemma_first_position(self@, key@, i as int);
                    lemma_position_of(self@, key@);
                }
                return i;
            }
            i += 1;
        }
        proof {
            lemma_no_position(self@, key@);
        }
        i
    }

    pub fn contains_key(&self, key: &str) -> (found: bool)
        ensures
            found == self.has(key@),
    {
        self.find(key) < self.entries.len()
    }

    /// The value under `key`, if there is one.
    pub fn get(&self, key: &str) -> (found: Option<&V>)
        ensures
            match found {
                Some(value) => self.value(key@) == Some(*value),
                None => self.value(key@).is_none(),
            },
    {
        let at = self.find(key);
        if at < self.entries.len() {
            Some(&self.entries[at].1)
        } else {
            None
        }
    }

    /// The value under `key`, for changing it in place.
    pub fn get_mut(&mut self, key: &str) -> (found: Option<&mut V>)
        ensures
            match found {
                Some(value) => old(self).value(key@) == Some(*value) && final(self)@
                    == with_entry(old(self)@, key@, *final(value)),
                None => old(self).value(key@).is_none() && final(self)@ == old(self)@,
            },
    {
        let at = self.find(key);
        proof {
            lemma_position_of(self@, key@);
        }
        if at < self.entries.len() {
            let ghost before = self.entries@;
            let entry = &mut self.entries[at];
            let value = &mut entry.1;
            proof {
                assert(text_entries(before.update(at as int, (before[at as int].0, *final(value))))
                    =~= text_entries(before).update(at as int, (key@, *final(value))));
            }
            Some(value)
        } else {
            None
        }
    }

    /// Puts `value` under `key`. A key that is already there keeps its place
    /// and gives its old value back; a new key goes to the end.
    pub fn insert(&mut self, key: String, value: V) -> (previous: Option<V>)
        ensures
            final(self)@ == with_entry(old(self)@, key@, value),
            previous == old(self).value(key@),
            old(self).wf() ==> final(self).wf(),
    {
        let at = self.find(key.as_str());
        let ghost before = self@;
        proof {
            lemma_position_of(before, key@);
            if distinct_keys(before) {
                lemma_with_entry(before, key@, value, key@);
            }
        }
        if at < self.entries.len() {
            let mut entry = (key, value);
            let ghost stored = self.entries@[at as int];
            core::mem::swap(&mut self.entries[at], &mut entry);
            assert(self@ =~= with_entry(before, key@, value));
            Some(entry.1)
        } else {
            self.entries.push((key, value));
            assert(self@ =~= with_entry(before, key@, value));
            None
        }
    }

    /// Takes the entry under `key` out, if there is one.
    pub fn remove(&mut self, key: &str) -> (removed: Option<V>)
        ensures
            final(self)@ == without_key(old(self)@, key@),
            removed == old(self).value(key@),
            old(self).wf() ==> final(self).wf() && !final(self).has(key@),
    {
        let at = self.find(key);
        let ghost before = self@;
        proof {
            lemma_position_of(before, key@);
            if distinct_keys(before) {
                lemma_without_key(before, key@, key@);
            }
        }
        if at < self.entries.len() {
            let entry = self.entries.remove(at);
            assert(self@ =~= without_key(before, key@));
            Some(entry.1)
        } else {
            None
        }
    }

    /// The key of the entry at `index`, in insertion order.
    pub fn key_at(&self, index: usize) -> (key: &String)
        requires
            index < self@.len(),
        ensures
            key@ == self@[index as int].0,
    {
        &self.entries[index].0
    }

    /// The value of the entry at `index`, in insertion order.
    pub fn value_at(&self, index: usize) -> (value: &V)
        requires
            index < self@.len(),
        ensures
            *value == self@[index as int].1,
    {
        &self.entries[index].1
    }
}

/// The names of the values, by key.
pub open spec fn named<K>(entries: Seq<(K, String)>) -> Seq<(K, Seq<char>)> {
    mapped_values(entries, |name: String| name@)
}

/// The names that a table files under codes, as texts.
pub open spec fn code_names(table: Map<u8, String>) -> Map<u8, Seq<char>> {
    table.map_values(|name: String| name@)
}

/// Whether `entries` is one walk over `table`: every entry of the table,
/// each once, in some order.
pub open spec fn walk_of<V>(table: Map<u8, V>, entries: Seq<(u8, V)>) -> bool {
    &&& distinct_keys(entries)
    &&& entries.len() == table.dom().len()
    &&& forall|i: int|
        0 <= i < entries.len() ==> table.contains_key((#[trigger] entries[i]).0)
            && table[entries[i].0] == entries[i].1
    &&& forall|code: u8| #[trigger] table.contains_key(code) ==> has_key(entries, code)
}

/// A walk finds under a code what the table has under it.
pub proof fn lemma_walk_lookup<V>(table: Map<u8, V>, entries: Seq<(u8, V)>, code: u8)
    requires
        walk_of(table, entries),
    ensures
        has_key(entries, code) == table.contains_key(code),
        table.contains_key(code) ==> value_under(entries, code) == Some(table[code]),
{
    lemma_position_of(entries, code);
}

/// The entries of a hash map in the order in which the map hands them out,
/// which is not specified: what is known of the result is that it is a walk
/// over the map.
pub fn entries_of(table: &HashMap<u8, String>) -> (entries: Vec<(u8, String)>)
    ensures
        walk_of(code_names(table@), named(entries@)),
        forall|i: int|
            0 <= i < entries@.len() ==> table@.contains_key((#[trigger] entries@[i]).0),
{
    broadcast use vstd::std_specs::hash::group_hash_axioms;

    let mut entries: Vec<(u8, String)> = Vec::new();
    for entry in walk: table.iter()
        invariant
            walk.seq() == vstd::std_specs::hash::spec_hash_map_iter(table).remaining(),
            walk.seq().no_duplicates(),
            entries@.len() == walk.index(),
            forall|j: int|
                0 <= j < entries@.len() ==> (#[trigger] entries@[j]).0 == *walk.seq()[j].0
                    && entries@[j].1@ == (*walk.seq()[j].1)@,
    {
        let (code, name) = entry;
        entries.push((*code, name.clone()));
    }
    proof {
        let walked = vstd::std_specs::hash::spec_hash_map_iter(table).remaining();
        let listed = named(entries@);
        let names = code_names(table@);
        vstd::std_specs::hash::axiom_spec_hash_map_iter(table);
        assert forall|i: int| 0 <= i < entries@.len() implies table@.contains_key(
            (#[trigger] entries@[i]).0,
        ) && table@[entries@[i].0]@ == entries@[i].1@ by {
            assert(table@.contains_key(*walked[i].0));
        }
        assert forall|i: int, j: int| 0 <= i < j < listed.len() implies (#[trigger] listed[i]).0 != (
        #[trigger] listed[j]).0 by {
            if entries@[i].0 == entries@[j].0 {
                assert(table@.contains_key(*walked[i].0));
                assert(table@.contains_key(*walked[j].0));
                assert(walked[i] == walked[j]);
            }
        }
        assert forall|i: int| 0 <= i < listed.len() implies names.contains_key(
            (#[trigger] listed[i]).0,
        ) && names[listed[i].0] == listed[i].1 by {
            assert(table@.contains_key(entries@[i].0));
        }
        assert forall|code: u8| #[trigger] names.contains_key(code) implies has_key(
            listed,
            code,
        ) by {
            assert(table@.contains_key(code));
            let found = (&code, &table@[code]);
            assert(walked.contains(found));
            let at = choose|at: int| 0 <= at < walked.len() && walked[at] == found;
            assert(listed[at].0 == code);
        }
        assert(names.dom() =~= table@.dom());
    }
    entries
}

/// The value that the first entry under `code` has, if there is one.
pub fn find_code<V>(entries: &[(u8, V)], code: u8) -> (found: Option<&V>)
    ensures
        match found {
            Some(value) => value_under(entries@, code) == Some(*value),
            None => value_under(entries@, code).is_none(),
        },
{
    let mut i: usize = 0;
    while i < entries.len()
        invariant
            i <= entries@.len(),
            forall|j: int| 0 <= j < i ==> (#[trigger] entries@[j]).0 != code,
        decreases entries@.len() - i,
    {
        if entries[i].0 == code {
            proof {
                lemma_first_position(entries@, code, i as int);
            }
            return Some(&entries[i].1);
        }
        i += 1;
    }
    proof {
        lemma_no_position(entries@, code);
    }
    None
}

/// A set of texts that remembers the order in which its members arrived.
#[derive(Debug, Clone, PartialEq, Eq)]
pub struct TextSet {
    items: Vec<String>,
}

impl View for TextSet {
    type V = Seq<Seq<char>>;

    closed spec fn view(&self) -> Seq<Seq<char>> {
        crate::text::texts(self.items@)
    }
}

impl TextSet {
    /// No member occurs twice. Every set that was built through this
    /// interface is well-formed.
    pub open spec fn wf(&self) -> bool {
        self@.no_duplicates()
    }

    pub fn new() -> (set: Self)
        ensures
            set@ == Seq::<Seq<char>>::empty(),
            set.wf(),
    {
        let set = Self { items: Vec::new() };
        assert(set@ =~= Seq::<Seq<char>>::empty());
        set
    }

    pub fn len(&self) -> (count: usize)
        ensures
            count == self@.len(),
    {
        self.items.len()
    }

    pub fn is_empty(&self) -> (empty: bool)
        ensures
            empty == (self@.len() == 0),
    {
        self.items.len() == 0
    }

    pub fn contains(&self, item: &str) -> (found: bool)
        ensures
            found == self@.contains(item@),
    {
        crate::text::strings_contain(self.items.as_slice(), item)
    }

    /// Adds a member at the end. A text that is a member already is not
    /// added again. Says whether the text was new.
    pub fn insert(&mut self, item: String) -> (added: bool)
        ensures
            added == !old(self)@.contains(item@),
            final(self)@ == if added {
                old(self)@.push(item@)
            } else {
                old(self)@
            },
            old(self).wf() ==> final(self).wf(),
    {
        if self.contains(item.as_str()) {
            false
        } else {
            let ghost before = self@;
            self.items.push(item);
            proof {
                assert(self@ =~= before.push(item@));
                if before.no_duplicates() {
                    assert forall|i: int, j: int|
                        0 <= i < self@.len() && 0 <= j < self@.len() && i != j implies self@[i]
                        != self@[j] by {
                        if i < before.len() {
                            assert(before[i] == self@[i]);
                            assert(before.contains(before[i]));
                        }
                        if j < before.len() {
                            assert(before[j] == self@[j]);
                            assert(before.contains(before[j]));
                        }
                    }
                }
            }
            true
        }
    }

    /// The member at `index`, in the order of arrival.
    pub fn item_at(&self, index: usize) -> (item: &String)
        requires
            index < self@.len(),
        ensures
            item@ == self@[index as int],
    {
        &self.items[index]
    }
}

} // verus!
