//! A table from text keys to values.

use vstd::prelude::*;

use crate::text::chars::same_text;

verus! {

/// The map that results from storing `vals[i]` under `keys[i]`, in order: a
/// later value takes the place of an earlier one under the same key.
pub open spec fn pair_map<V>(keys: Seq<Seq<char>>, vals: Seq<V>) -> Map<Seq<char>, V>
    decreases keys.len(),
{
    if keys.len() == 0 || vals.len() != keys.len() {
        Map::empty()
    } else {
        pair_map(keys.drop_last(), vals.drop_last()).insert(keys.last(), vals.last())
    }
}

/// The keys of a list of entries.
pub open spec fn entry_keys<V>(e: Seq<(String, V)>) -> Seq<Seq<char>> {
    Seq::new(e.len(), |i: int| e[i].0@)
}

/// The values of a list of entries.
pub open spec fn entry_vals<V>(e: Seq<(String, V)>) -> Seq<V> {
    Seq::new(e.len(), |i: int| e[i].1)
}

/// A key is in the map where it occurs in the list, and stands for the value
/// at its last occurrence.
pub proof fn lemma_pair_map<V>(keys: Seq<Seq<char>>, vals: Seq<V>, k: Seq<char>)
    requires
        keys.len() == vals.len(),
    ensures
        pair_map(keys, vals).contains_key(k) <==> keys.contains(k),
        forall|i: int|
            #![trigger keys[i]]
            0 <= i < keys.len() && keys[i] == k && (forall|j: int|
                i < j < keys.len() ==> keys[j] != k) ==> pair_map(keys, vals)[k] == vals[i],
    decreases keys.len(),
{
    if keys.len() > 0 {
        let n = keys.len() - 1;
        let (ks, vs) = (keys.drop_last(), vals.drop_last());
        lemma_pair_map(ks, vs, k);
        if keys[n] != k {
            if keys.contains(k) {
                let i = choose|i: int| 0 <= i < keys.len() && keys[i] == k;
                assert(ks[i] == k);
            }
            if ks.contains(k) {
                let i = choose|i: int| 0 <= i < ks.len() && ks[i] == k;
                assert(keys[i] == k);
            }
            assert forall|i: int|
                #![trigger keys[i]]
                0 <= i < keys.len() && keys[i] == k && (forall|j: int|
                    i < j < keys.len() ==> keys[j] != k) implies pair_map(keys, vals)[k]
                == vals[i] by {
                assert(ks[i] == k);
                assert(forall|j: int| i < j < ks.len() ==> ks[j] == keys[j]);
            }
        }
    }
}

/// Storing a value at the last occurrence of a key stores it in the map.
proof fn lemma_pair_map_update<V>(keys: Seq<Seq<char>>, vals: Seq<V>, i: int, v: V)
    requires
        keys.len() == vals.len(),
        0 <= i < keys.len(),
        forall|j: int| i < j < keys.len() ==> keys[j] != keys[i],
    ensures
        pair_map(keys, vals.update(i, v)) == pair_map(keys, vals).insert(keys[i], v),
    decreases keys.len(),
{
    let n = keys.len() - 1;
    let (ks, vs) = (keys.drop_last(), vals.drop_last());
    if i == n {
        assert(vals.update(i, v).drop_last() =~= vs);
        assert(pair_map(keys, vals.update(i, v)) =~= pair_map(keys, vals).insert(keys[i], v));
    } else {
        assert(vals.update(i, v).drop_last() =~= vs.update(i, v));
        assert(forall|j: int| i < j < ks.len() ==> ks[j] == keys[j]);
        lemma_pair_map_update(ks, vs, i, v);
        assert(pair_map(keys, vals.update(i, v)) =~= pair_map(keys, vals).insert(keys[i], v));
    }
}

/// A table from text keys to values. Where a key occurs more than once in
/// `entries`, the last entry counts.
#[derive(Debug, Clone)]
pub struct Table<V> {
    pub entries: Vec<(String, V)>,
}

impl<V> View for Table<V> {
    type V = Map<Seq<char>, V>;

    open spec fn view(&self) -> Map<Seq<char>, V> {
        pair_map(entry_keys(self.entries@), entry_vals(self.entries@))
    }
}

impl<V> Table<V> {
    /// A table without entries.
    pub fn new() -> (r: Self)
        ensures
            r@ == Map::<Seq<char>, V>::empty(),
    {
        Table { entries: Vec::new() }
    }

    /// The place of the last entry under `key`.
    fn place(&self, key: &str) -> (r: Option<usize>)
        ensures
            match r {
                Some(i) => i < self.entries@.len() && self.entries@[i as int].0@ == key@
                    && forall|j: int|
                    i < j < self.entries@.len() ==> self.entries@[j].0@ != key@,
                None => forall|j: int|
                    0 <= j < self.entries@.len() ==> self.entries@[j].0@ != key@,
            },
    {
        let mut n: usize = self.entries.len();
        while n > 0
            invariant
                n <= self.entries@.len(),
                forall|j: int| n <= j < self.entries@.len() ==> self.entries@[j].0@ != key@,
            decreases n,
        {
            if same_text(self.entries[n - 1].0.as_str(), key) {
                return Some(n - 1);
            }
            n -= 1;
        }
        None
    }

    /// The value under `key`.
    pub fn get(&self, key: &str) -> (r: Option<&V>)
        ensures
            match r {
                Some(v) => self@.contains_key(key@) && self@[key@] == *v,
                None => !self@.contains_key(key@),
            },
    {
        proof {
            let e = self.entries@;
            lemma_pair_map(entry_keys(e), entry_vals(e), key@);
            assert(forall|j: int| 0 <= j < e.len() ==> entry_keys(e)[j] == #[trigger] e[j].0@);
        }
        match self.place(key) {
            Some(i) => {
                assert(entry_keys(self.entries@)[i as int] == key@);
                Some(&self.entries[i].1)
            },
            None => None,
        }
    }

    /// Stores `value` under `key`, in the place of what stood there.
    pub fn insert(&mut self, key: &str, value: V)
        ensures
            final(self)@ == old(self)@.insert(key@, value),
    {
        let ghost e = self.entries@;
        match self.place(key) {
            Some(i) => {
                proof {
                    assert(forall|j: int|
                        0 <= j < e.len() ==> entry_keys(e)[j] == #[trigger] e[j].0@);
                    lemma_pair_map_update(entry_keys(e), entry_vals(e), i as int, value);
                }
                self.entries.set(i, (key.to_owned(), value));
                assert(entry_keys(self.entries@) =~= entry_keys(e));
                assert(entry_vals(self.entries@) =~= entry_vals(e).update(i as int, value));
            },
            None => {
                self.entries.push((key.to_owned(), value));
                assert(entry_keys(self.entries@).drop_last() =~= entry_keys(e));
                assert(entry_vals(self.entries@).drop_last() =~= entry_vals(e));
            },
        }
    }

    /// Whether there is an entry under `key`.
    pub fn contains_key(&self, key: &str) -> (r: bool)
        ensures
            r == self@.contains_key(key@),
    {
        self.get(key).is_some()
    }

    /// Removes every entry.
    pub fn clear(&mut self)
        ensures
            final(self)@ == Map::<Seq<char>, V>::empty(),
    {
        self.entries.clear();
    }
}

} // verus!
