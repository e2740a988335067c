//! A small insertion-ordered map for keys that are compared by their view.
//!
//! The map keeps its keys and values in two parallel vectors and never holds
//! a key twice. Its model is a `Map` from key views to values; the order of
//! first insertion is kept and can be observed through `spec_keys`.
use vstd::prelude::*;

verus! {

/// A key that can be compared in executable code, with equality meaning
/// equality of views.
pub trait Key: View + Sized {
    /// Whether two keys have the same view.
    fn same(&self, other: &Self) -> (b: bool)
        ensures
            b == (self@ == other@),
    ;
}

impl Key for String {
    fn same(&self, other: &Self) -> (b: bool) {
        *self == *other
    }
}

/// Whether two byte strings are equal.
pub fn bytes_equal(a: &[u8], b: &[u8]) -> (r: bool)
    ensures
        r == (a@ == b@),
{
    if a.len() != b.len() {
        return false;
    }
    let mut i: usize = 0;
    while i < a.len()
        invariant
            a.len() == b.len(),
            i <= a.len(),
            forall|j: int| 0 <= j < i ==> a@[j] == b@[j],
        decreases a.len() - i,
    {
        if a[i] != b[i] {
            return false;
        }
        i += 1;
    }
    assert(a@ =~= b@);
    true
}

/// An owned copy of a byte string.
pub fn bytes_to_vec(a: &[u8]) -> (r: Vec<u8>)
    ensures
        r@ == a@,
{
    let mut out: Vec<u8> = Vec::new();
    let mut i: usize = 0;
    while i < a.len()
        invariant
            i <= a.len(),
            out@ == a@.subrange(0, i as int),
        decreases a.len() - i,
    {
        out.push(a[i]);
        assert(a@.subrange(0, i + 1) =~= a@.subrange(0, i as int).push(a@[i as int]));
        i += 1;
    }
    assert(a@.subrange(0, a.len() as int) =~= a@);
    out
}

impl Key for Vec<u8> {
    fn same(&self, other: &Self) -> (b: bool) {
        bytes_equal(self.as_slice(), other.as_slice())
    }
}

/// The map that a duplicate-free key sequence and a value sequence of the
/// same length stand for.
pub open spec fn assoc_map<K, V>(keys: Seq<K>, vals: Seq<V>) -> Map<K, V> {
    Map::new(|k: K| keys.contains(k), |k: K| vals[keys.index_of(k)])
}

/// In a duplicate-free sequence every element is found at its own index.
pub proof fn lemma_index_of_unique<K>(keys: Seq<K>, i: int)
    requires
        keys.no_duplicates(),
        0 <= i < keys.len(),
    ensures
        keys.contains(keys[i]),
        keys.index_of(keys[i]) == i,
{
    assert(keys.contains(keys[i]));
    let j = keys.index_of(keys[i]);
    assert(0 <= j < keys.len() && keys[j] == keys[i]);
}

/// Replacing the value at the index of a key is inserting under that key.
pub proof fn lemma_assoc_update<K, V>(keys: Seq<K>, vals: Seq<V>, i: int, v: V)
    requires
        keys.no_duplicates(),
        keys.len() == vals.len(),
        0 <= i < keys.len(),
    ensures
        assoc_map(keys, vals.update(i, v)) == assoc_map(keys, vals).insert(keys[i], v),
{
    let after = assoc_map(keys, vals.update(i, v));
    let want = assoc_map(keys, vals).insert(keys[i], v);
    lemma_index_of_unique(keys, i);
    assert forall|k: K| after.contains_key(k) == want.contains_key(k) by {}
    assert forall|k: K| after.contains_key(k) implies after[k] == want[k] by {
        let j = keys.index_of(k);
        assert(0 <= j < keys.len() && keys[j] == k);
        if j == i {
        } else {
            assert(keys[j] != keys[i]);
        }
    }
    assert(after =~= want);
}

/// Appending a key that is not yet held is inserting under that key.
pub proof fn lemma_assoc_push<K, V>(keys: Seq<K>, vals: Seq<V>, k: K, v: V)
    requires
        keys.no_duplicates(),
        keys.len() == vals.len(),
        !keys.contains(k),
    ensures
        keys.push(k).no_duplicates(),
        assoc_map(keys.push(k), vals.push(v)) == assoc_map(keys, vals).insert(k, v),
{
    let keys2 = keys.push(k);
    let vals2 = vals.push(v);
    assert forall|i: int, j: int|
        0 <= i < keys2.len() && 0 <= j < keys2.len() && i != j implies keys2[i] != keys2[j] by {
        if i < keys.len() && j < keys.len() {
        } else if i < keys.len() {
            assert(keys[i] == keys2[i]);
        } else {
            assert(keys[j] == keys2[j]);
        }
    }
    let after = assoc_map(keys2, vals2);
    let want = assoc_map(keys, vals).insert(k, v);
    assert forall|x: K| after.contains_key(x) == want.contains_key(x) by {
        if keys2.contains(x) {
            let j = keys2.index_of(x);
            assert(0 <= j < keys2.len() && keys2[j] == x);
            if j < keys.len() {
                assert(keys[j] == x);
            }
        }
        if keys.contains(x) {
            let j = keys.index_of(x);
            assert(keys2[j] == x);
        }
        if x == k {
            assert(keys2[keys.len() as int] == k);
        }
    }
    assert forall|x: K| after.contains_key(x) implies after[x] == want[x] by {
        let j = keys2.index_of(x);
        assert(0 <= j < keys2.len() && keys2[j] == x);
        if j < keys.len() {
            assert(keys[j] == x);
            lemma_index_of_unique(keys, j);
        } else {
            assert(x == k);
        }
    }
    assert(after =~= want);
}

/// Dropping the entry at the index of a key is removing that key.
pub proof fn lemma_assoc_remove<K, V>(keys: Seq<K>, vals: Seq<V>, i: int)
    requires
        keys.no_duplicates(),
        keys.len() == vals.len(),
        0 <= i < keys.len(),
    ensures
        keys.remove(i).no_duplicates(),
        keys.remove(i).len() == vals.remove(i).len(),
        !keys.remove(i).contains(keys[i]),
        assoc_map(keys.remove(i), vals.remove(i)) == assoc_map(keys, vals).remove(keys[i]),
{
    let keys2 = keys.remove(i);
    let vals2 = vals.remove(i);
    assert forall|a: int| 0 <= a < keys2.len() implies keys2[a] == keys[if a < i {
        a
    } else {
        a + 1
    }] && vals2[a] == vals[if a < i {
        a
    } else {
        a + 1
    }] by {}
    assert forall|a: int, b: int|
        0 <= a < keys2.len() && 0 <= b < keys2.len() && a != b implies keys2[a] != keys2[b] by {}
    if keys2.contains(keys[i]) {
        let j = keys2.index_of(keys[i]);
        assert(0 <= j < keys2.len() && keys2[j] == keys[i]);
        assert(false);
    }
    let after = assoc_map(keys2, vals2);
    let want = assoc_map(keys, vals).remove(keys[i]);
    assert forall|x: K| after.contains_key(x) == want.contains_key(x) by {
        if keys2.contains(x) {
            let j = keys2.index_of(x);
            assert(0 <= j < keys2.len() && keys2[j] == x);
            let src = if j < i {
                j
            } else {
                j + 1
            };
            assert(keys[src] == x);
        }
        if keys.contains(x) && x != keys[i] {
            let j = keys.index_of(x);
            assert(0 <= j < keys.len() && keys[j] == x);
            let dst = if j < i {
                j
            } else {
                j - 1
            };
            assert(keys2[dst] == x);
        }
    }
    assert forall|x: K| after.contains_key(x) implies after[x] == want[x] by {
        let j = keys2.index_of(x);
        assert(0 <= j < keys2.len() && keys2[j] == x);
        let src = if j < i {
            j
        } else {
            j + 1
        };
        assert(keys[src] == x);
        lemma_index_of_unique(keys, src);
    }
    assert(after =~= want);
}

/// An insertion-ordered map from keys to values.
pub struct AssocVec<K, V> {
    keys: Vec<K>,
    vals: Vec<V>,
}

impl<K: Key, V> AssocVec<K, V> {
    /// The views of the keys, in order of first insertion.
    pub closed spec fn spec_keys(&self) -> Seq<K::V> {
        self.keys@.map_values(|k: K| k@)
    }

    /// The values, in the order of their keys.
    pub closed spec fn spec_vals(&self) -> Seq<V> {
        self.vals@
    }

    /// Well-formedness: one value per key, and no key twice.
    pub closed spec fn wf(&self) -> bool {
        &&& self.keys.len() == self.vals.len()
        &&& self.spec_keys().no_duplicates()
    }

    /// The map this container stands for.
    pub open spec fn view(&self) -> Map<K::V, V> {
        assoc_map(self.spec_keys(), self.spec_vals())
    }

    /// In a well-formed map both sequences have the same length and the key
    /// sequence is free of duplicates.
    pub proof fn lemma_wf(&self)
        requires
            self.wf(),
        ensures
            self.spec_keys().len() == self.spec_vals().len(),
            self.spec_keys().no_duplicates(),
    {
    }

    /// The number of keys of the map is the number of entries.
    pub proof fn lemma_len_is_domain_size(&self)
        requires
            self.wf(),
        ensures
            self@.dom().finite(),
            self@.dom().len() == self.spec_keys().len(),
    {
        let keys = self.spec_keys();
        assert(self@.dom() =~= keys.to_set());
        keys.unique_seq_to_set();
    }

    /// An empty map.
    pub fn new() -> (r: Self)
        ensures
            r.wf(),
            r.spec_keys() == Seq::<K::V>::empty(),
            r.spec_vals() == Seq::<V>::empty(),
            r@ == Map::<K::V, V>::empty(),
    {
        let r = AssocVec { keys: Vec::new(), vals: Vec::new() };
        assert(r.spec_keys() =~= Seq::<K::V>::empty());
        assert(r@ =~= Map::<K::V, V>::empty());
        r
    }

    /// Number of entries.
    pub fn len(&self) -> (n: usize)
        requires
            self.wf(),
        ensures
            n == self.spec_keys().len(),
            n == self.spec_vals().len(),
    {
        self.keys.len()
    }

    /// Index of the entry for `key`, if there is one.
    pub fn position(&self, key: &K) -> (r: Option<usize>)
        requires
            self.wf(),
        ensures
            match r {
                Some(i) => i < self.spec_keys().len() && self.spec_keys()[i as int] == key@,
                None => !self.spec_keys().contains(key@),
            },
            r.is_some() == self@.contains_key(key@),
            r matches Some(i) ==> self@[key@] == self.spec_vals()[i as int],
    {
        let mut i: usize = 0;
        while i < self.keys.len()
            invariant
                self.wf(),
                i <= self.keys.len(),
                forall|j: int| 0 <= j < i ==> self.spec_keys()[j] != key@,
            decreases self.keys.len() - i,
        {
            if self.keys[i].same(key) {
                proof {
                    lemma_index_of_unique(self.spec_keys(), i as int);
                }
                return Some(i);
            }
            i += 1;
        }
        None
    }

    /// The value stored under `key`, if any.
    pub fn get(&self, key: &K) -> (r: Option<&V>)
        requires
            self.wf(),
        ensures
            match r {
                Some(v) => self@.contains_key(key@) && *v == self@[key@],
                None => !self@.contains_key(key@),
            },
    {
        match self.position(key) {
            Some(i) => Some(&self.vals[i]),
            None => None,
        }
    }

    /// The key of the entry at index `i`.
    pub fn key_at(&self, i: usize) -> (k: &K)
        requires
            self.wf(),
            i < self.spec_keys().len(),
        ensures
            k@ == self.spec_keys()[i as int],
    {
        &self.keys[i]
    }

    /// The value of the entry at index `i`.
    pub fn value_at(&self, i: usize) -> (v: &V)
        requires
            self.wf(),
            i < self.spec_vals().len(),
        ensures
            *v == self.spec_vals()[i as int],
    {
        &self.vals[i]
    }

    /// Mutable access to the value of the entry at index `i`. The keys stay
    /// as they are; the value is whatever the borrower leaves there.
    pub fn value_mut(&mut self, i: usize) -> (v: &mut V)
        requires
            old(self).wf(),
            i < old(self).spec_vals().len(),
        ensures
            *v == old(self).spec_vals()[i as int],
            final(self).wf(),
            final(self).spec_keys() == old(self).spec_keys(),
            final(self).spec_vals() == old(self).spec_vals().update(i as int, *final(v)),
            final(self)@ == old(self)@.insert(old(self).spec_keys()[i as int], *final(v)),
    {
        proof {
            let ghost keys = self.spec_keys();
            let ghost vals = self.spec_vals();
            assert forall|x: V| #[trigger]
                assoc_map(keys, vals.update(i as int, x)) == assoc_map(keys, vals).insert(
                    keys[i as int],
                    x,
                ) by {
                lemma_assoc_update(keys, vals, i as int, x);
            }
        }
        &mut self.vals[i]
    }

    /// Replaces the value of the entry at index `i`.
    pub fn set_value_at(&mut self, i: usize, value: V)
        requires
            old(self).wf(),
            i < old(self).spec_vals().len(),
        ensures
            final(self).wf(),
            final(self).spec_keys() == old(self).spec_keys(),
            final(self).spec_vals() == old(self).spec_vals().update(i as int, value),
            final(self)@ == old(self)@.insert(old(self).spec_keys()[i as int], value),
    {
        proof {
            lemma_assoc_update(self.spec_keys(), self.spec_vals(), i as int, value);
        }
        self.vals[i] = value;
    }

    /// Stores `value` under `key`, replacing what was stored there before.
    pub fn insert(&mut self, key: K, value: V)
        requires
            old(self).wf(),
        ensures
            final(self).wf(),
            final(self)@ == old(self)@.insert(key@, value),
            old(self)@.contains_key(key@) ==> final(self).spec_keys() == old(self).spec_keys(),
            !old(self)@.contains_key(key@) ==> {
                &&& final(self).spec_keys() == old(self).spec_keys().push(key@)
                &&& final(self).spec_vals() == old(self).spec_vals().push(value)
            },
    {
        match self.position(&key) {
            Some(i) => {
                self.set_value_at(i, value);
            },
            None => {
                proof {
                    lemma_assoc_push(self.spec_keys(), self.spec_vals(), key@, value);
                }
                let ghost before = self.spec_keys();
                self.keys.push(key);
                self.vals.push(value);
                assert(self.spec_keys() =~= before.push(key@));
            },
        }
    }

    /// Removes the entry at index `i` and returns its value; the entries
    /// behind it move up by one.
    pub fn remove_at(&mut self, i: usize) -> (v: V)
        requires
            old(self).wf(),
            i < old(self).spec_keys().len(),
        ensures
            final(self).wf(),
            v == old(self).spec_vals()[i as int],
            final(self).spec_keys() == old(self).spec_keys().remove(i as int),
            final(self).spec_vals() == old(self).spec_vals().remove(i as int),
            final(self)@ == old(self)@.remove(old(self).spec_keys()[i as int]),
    {
        proof {
            lemma_assoc_remove(self.spec_keys(), self.spec_vals(), i as int);
        }
        let ghost before = self.spec_keys();
        self.keys.remove(i);
        let v = self.vals.remove(i);
        assert(self.spec_keys() =~= before.remove(i as int));
        v
    }

    /// Removes the entry for `key` and returns its value, if there was one.
    pub fn remove(&mut self, key: &K) -> (r: Option<V>)
        requires
            old(self).wf(),
        ensures
            final(self).wf(),
            final(self)@ == old(self)@.remove(key@),
            match r {
                Some(v) => old(self)@.contains_key(key@) && v == old(self)@[key@],
                None => {
                    &&& !old(self)@.contains_key(key@)
                    &&& final(self).spec_keys() == old(self).spec_keys()
                    &&& final(self).spec_vals() == old(self).spec_vals()
                },
            },
    {
        match self.position(key) {
            Some(i) => Some(self.remove_at(i)),
            None => {
                assert(self@.remove(key@) =~= self@);
                None
            },
        }
    }

    /// Removes every entry.
    pub fn clear(&mut self)
        ensures
            final(self).wf(),
            final(self).spec_keys() == Seq::<K::V>::empty(),
            final(self).spec_vals() == Seq::<V>::empty(),
            final(self)@ == Map::<K::V, V>::empty(),
    {
        self.keys.clear();
        self.vals.clear();
        assert(self.spec_keys() =~= Seq::<K::V>::empty());
        assert(self@ =~= Map::<K::V, V>::empty());
    }
}

} // verus!
