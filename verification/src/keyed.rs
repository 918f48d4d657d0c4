//! A small map from text keys to values, kept as a list without duplicate
//! keys.

use vstd::prelude::*;

use crate::text::str_eq;

verus! {

/// A list of values keyed by text, each key occurring once; keys keep the
/// order in which they were first inserted.
#[derive(Debug)]
pub struct KeyedList<V> {
    entries: Vec<(String, V)>,
}

/// Whether some entry has the key `k`.
pub open spec fn has_key<V>(es: Seq<(String, V)>, k: Seq<char>) -> bool {
    exists|i: int| 0 <= i < es.len() && (#[trigger] es[i]).0@ == k
}

/// The map that a list of entries with distinct keys stands for.
pub open spec fn entries_map<V: View>(es: Seq<(String, V)>) -> Map<Seq<char>, V::V> {
    Map::new(
        |k: Seq<char>| has_key(es, k),
        |k: Seq<char>| es[choose|i: int| 0 <= i < es.len() && (#[trigger] es[i]).0@ == k].1@,
    )
}

/// No two entries share a key.
pub open spec fn distinct_keys<V>(es: Seq<(String, V)>) -> bool {
    forall|i: int, j: int|
        0 <= i < es.len() && 0 <= j < es.len() && i != j ==> (#[trigger] es[i]).0@ != (
        #[trigger] es[j]).0@
}

/// The entry at `i` is what the map holds for its key.
proof fn lemma_entries_map_at<V: View>(es: Seq<(String, V)>, i: int)
    requires
        distinct_keys(es),
        0 <= i < es.len(),
    ensures
        entries_map(es).contains_key(es[i].0@),
        entries_map(es)[es[i].0@] == es[i].1@,
{
    let k = es[i].0@;
    assert(has_key(es, k));
    let j = choose|j: int| 0 <= j < es.len() && (#[trigger] es[j]).0@ == k;
    assert(j == i);
}

impl<V: View> View for KeyedList<V> {
    type V = Map<Seq<char>, V::V>;

    closed spec fn view(&self) -> Map<Seq<char>, V::V> {
        entries_map(self.entries@)
    }
}

impl<V> KeyedList<V> {
    #[verifier::type_invariant]
    spec fn keys_distinct(self) -> bool {
        distinct_keys(self.entries@)
    }
}

impl<V: View> KeyedList<V> {
    /// The empty map.
    pub fn new() -> (m: KeyedList<V>)
        ensures
            m@ == Map::<Seq<char>, V::V>::empty(),
    {
        let m = KeyedList { entries: Vec::new() };
        proof {
            assert(m@ =~= Map::<Seq<char>, V::V>::empty());
        }
        m
    }

    /// Sets `key` to `value`, replacing an earlier value of the same key.
    pub fn insert(&mut self, key: String, value: V)
        ensures
            final(self)@ == old(self)@.insert(key@, value@),
    {
        proof {
            use_type_invariant(&*self);
        }
        let ghost old_es = self.entries@;
        let n = self.entries.len();
        let mut i: usize = 0;
        while i < n
            invariant
                n == old_es.len(),
                self.entries@ == old_es,
                i <= n,
                forall|j: int| 0 <= j < i ==> (#[trigger] old_es[j]).0@ != key@,
            ensures
                i <= n,
                i < n ==> old_es[i as int].0@ == key@,
                forall|j: int| 0 <= j < i ==> (#[trigger] old_es[j]).0@ != key@,
            decreases n - i,
        {
            if str_eq(self.entries[i].0.as_str(), key.as_str()) {
                break;
            }
            i = i + 1;
        }
        let mut entries = Vec::new();
        std::mem::swap(&mut entries, &mut self.entries);
        assert(entries@ == old_es);
        if i < n {
            entries.set(i, (key, value));
            proof {
                let es = entries@;
                assert(es == old_es.update(i as int, es[i as int]));
                assert(es[i as int].0@ == key@);
                assert(distinct_keys(es));
                assert forall|k: Seq<char>| #[trigger]
                    entries_map(es).contains_key(k) == entries_map(old_es).insert(
                        key@,
                        value@,
                    ).contains_key(k) by {
                    if has_key(old_es, k) {
                        let j = choose|j: int| 0 <= j < old_es.len() && (#[trigger] old_es[j]).0@ == k;
                        assert(es[j].0@ == k);
                    }
                    if has_key(es, k) {
                        let j = choose|j: int| 0 <= j < es.len() && (#[trigger] es[j]).0@ == k;
                        if j != i {
                            assert(old_es[j].0@ == k);
                        }
                    }
                }
                assert forall|k: Seq<char>| #[trigger]
                    entries_map(es).contains_key(k) implies entries_map(es)[k] == entries_map(
                    old_es,
                ).insert(key@, value@)[k] by {
                    let j = choose|j: int| 0 <= j < es.len() && (#[trigger] es[j]).0@ == k;
                    lemma_entries_map_at(es, j);
                    if j != i {
                        lemma_entries_map_at(old_es, j);
                    }
                }
                assert(entries_map(es) =~= entries_map(old_es).insert(key@, value@));
            }
        } else {
            entries.push((key, value));
            proof {
                let es = entries@;
                assert(distinct_keys(es));
                assert forall|k: Seq<char>| #[trigger]
                    entries_map(es).contains_key(k) == entries_map(old_es).insert(
                        key@,
                        value@,
                    ).contains_key(k) by {
                    if has_key(old_es, k) {
                        let j = choose|j: int| 0 <= j < old_es.len() && (#[trigger] old_es[j]).0@ == k;
                        assert(es[j].0@ == k);
                    }
                    if has_key(es, k) {
                        let j = choose|j: int| 0 <= j < es.len() && (#[trigger] es[j]).0@ == k;
                        if j != n {
                            assert(old_es[j].0@ == k);
                        }
                    }
                    if k == key@ {
                        assert(es[n as int].0@ == k);
                    }
                }
                assert forall|k: Seq<char>| #[trigger]
                    entries_map(es).contains_key(k) implies entries_map(es)[k] == entries_map(
                    old_es,
                ).insert(key@, value@)[k] by {
                    let j = choose|j: int| 0 <= j < es.len() && (#[trigger] es[j]).0@ == k;
                    lemma_entries_map_at(es, j);
                    if j != n {
                        lemma_entries_map_at(old_es, j);
                    }
                }
                assert(entries_map(es) =~= entries_map(old_es).insert(key@, value@));
            }
        }
        self.entries = entries;
    }

    /// The value of `key`, if it is set.
    pub fn get(&self, key: &str) -> (r: Option<&V>)
        ensures
            match r {
                Some(v) => self@.contains_key(key@) && v@ == self@[key@],
                None => !self@.contains_key(key@),
            },
    {
        proof {
            use_type_invariant(self);
        }
        let n = self.entries.len();
        let mut i: usize = 0;
        while i < n
            invariant
                n == self.entries@.len(),
                distinct_keys(self.entries@),
                i <= n,
                forall|j: int| 0 <= j < i ==> (#[trigger] self.entries@[j]).0@ != key@,
            decreases n - i,
        {
            if str_eq(self.entries[i].0.as_str(), key) {
                proof {
                    lemma_entries_map_at(self.entries@, i as int);
                }
                return Some(&self.entries[i].1);
            }
            i = i + 1;
        }
        None
    }
}

impl KeyedList<usize> {
    /// Some key holds the value `v`.
    pub open spec fn holds_value(&self, v: usize) -> bool {
        exists|k: Seq<char>| #[trigger] self@.contains_key(k) && self@[k] == v
    }

    /// No two keys hold the same value.
    pub open spec fn values_distinct(&self) -> bool {
        forall|k1: Seq<char>, k2: Seq<char>|
            #![trigger self@[k1], self@[k2]]
            self@.contains_key(k1) && self@.contains_key(k2) && k1 != k2 ==> self@[k1] != self@[k2]
    }

    /// The values, one per key.
    pub fn values(&self) -> (r: Vec<usize>)
        ensures
            r@.len() == self@.dom().len(),
            self.values_distinct() ==> r@.no_duplicates(),
            forall|i: int| 0 <= i < r@.len() ==> self.holds_value(#[trigger] r@[i]),
            forall|k: Seq<char>| #[trigger] self@.contains_key(k) ==> r@.contains(self@[k]),
    {
        proof {
            use_type_invariant(self);
        }
        let n = self.entries.len();
        let mut out: Vec<usize> = Vec::new();
        let mut i: usize = 0;
        while i < n
            invariant
                n == self.entries@.len(),
                distinct_keys(self.entries@),
                i <= n,
                out@.len() == i,
                forall|j: int| 0 <= j < i ==> out@[j] == (#[trigger] self.entries@[j]).1,
            decreases n - i,
        {
            out.push(self.entries[i].1);
            i = i + 1;
        }
        proof {
            assert forall|j: int| 0 <= j < out@.len() implies self.holds_value(#[trigger] out@[j]) by {
                lemma_entries_map_at(self.entries@, j);
                let k = self.entries@[j].0@;
                assert(self@.contains_key(k) && self@[k] == out@[j]);
            }
            let es = self.entries@;
            let keys = es.map_values(|e: (String, usize)| e.0@);
            assert(keys.no_duplicates()) by {
                assert forall|a: int, b: int| 0 <= a < keys.len() && 0 <= b < keys.len() && a != b
                    implies keys[a] != keys[b] by {
                    assert(es[a].0@ != es[b].0@);
                }
            }
            keys.unique_seq_to_set();
            assert forall|k: Seq<char>| #[trigger] self@.dom().contains(k) == keys.to_set().contains(k) by {
                if self@.dom().contains(k) {
                    let j = choose|j: int| 0 <= j < es.len() && (#[trigger] es[j]).0@ == k;
                    assert(keys[j] == k);
                }
                if keys.to_set().contains(k) {
                    let j = choose|j: int| 0 <= j < keys.len() && keys[j] == k;
                    assert(es[j].0@ == k);
                    assert(has_key(es, k));
                }
            }
            assert(self@.dom() =~= keys.to_set());
            if self.values_distinct() {
                assert forall|a: int, b: int| 0 <= a < out@.len() && 0 <= b < out@.len() && a != b
                    implies out@[a] != out@[b] by {
                    lemma_entries_map_at(es, a);
                    lemma_entries_map_at(es, b);
                    assert(es[a].0@ != es[b].0@);
                    assert(self@[es[a].0@] == out@[a]);
                    assert(self@[es[b].0@] == out@[b]);
                }
            }
            assert forall|k: Seq<char>| #[trigger] self@.contains_key(k) implies out@.contains(
                self@[k],
            ) by {
                let j = choose|j: int| 0 <= j < self.entries@.len() && (#[trigger] self.entries@[j]).0@ == k;
                lemma_entries_map_at(self.entries@, j);
                assert(out@[j] == self@[k]);
            }
        }
        out
    }
}

} // verus!
