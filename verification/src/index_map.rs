//! A map from share indices to values, walked in the order of the indices.
//!
//! Where several contributions are summed, the order in which they are
//! taken is part of what a contract states; this map fixes it to ascending
//! share index.

use vstd::prelude::*;

verus! {

/// Whether a sequence of indices is strictly increasing.
pub open spec fn strictly_increasing(keys: Seq<u32>) -> bool {
    forall|i: int, j: int| 0 <= i < j < keys.len() ==> keys[i] < keys[j]
}

/// The number of indices in `keys` that are below `key`.
pub open spec fn rank(keys: Seq<u32>, key: u32) -> nat
    decreases keys.len(),
{
    if keys.len() == 0 {
        0
    } else if keys.last() < key {
        keys.len()
    } else {
        rank(keys.drop_last(), key)
    }
}

/// The position of `key` in `keys`, where it occurs.
pub open spec fn position_of(keys: Seq<u32>, key: u32) -> int {
    choose|i: int| 0 <= i < keys.len() && keys[i] == key
}

/// In a strictly increasing sequence an index occurs at one position only.
pub proof fn lemma_position_unique(keys: Seq<u32>, key: u32, at: int)
    requires
        strictly_increasing(keys),
        0 <= at < keys.len(),
        keys[at] == key,
    ensures
        position_of(keys, key) == at,
        keys.contains(key),
{
    let p = position_of(keys, key);
    if p < at {
        assert(keys[p] < keys[at]);
    } else if at < p {
        assert(keys[at] < keys[p]);
    }
}

/// A map from share indices to values, held in ascending order of index.
#[derive(Debug, PartialEq, Eq)]
pub struct IndexMap<V> {
    keys: Vec<u32>,
    values: Vec<V>,
}

impl<V> IndexMap<V> {
    #[verifier::type_invariant]
    spec fn well_formed(self) -> bool {
        &&& self.keys@.len() == self.values@.len()
        &&& strictly_increasing(self.keys@)
    }

    /// The indices, ascending.
    pub closed spec fn spec_keys(&self) -> Seq<u32> {
        self.keys@
    }

    /// The values, in the order of their indices.
    pub closed spec fn spec_values(&self) -> Seq<V> {
        self.values@
    }

    /// What holds of every map: as many values as indices, and the indices
    /// strictly increasing.
    pub open spec fn ordered(&self) -> bool {
        &&& self.spec_keys().len() == self.spec_values().len()
        &&& strictly_increasing(self.spec_keys())
    }

    /// Whether the map holds `key`.
    pub open spec fn has(&self, key: u32) -> bool {
        self.spec_keys().contains(key)
    }

    /// The value of `key`, where the map holds it.
    pub open spec fn value_of(&self, key: u32) -> V {
        self.spec_values()[position_of(self.spec_keys(), key)]
    }

    /// The empty map.
    pub fn new() -> (out: Self)
        ensures
            out.spec_keys().len() == 0,
            out.spec_values().len() == 0,
    {
        IndexMap { keys: Vec::new(), values: Vec::new() }
    }

    /// What holds of every map.
    pub fn check_ordered(&self)
        ensures
            self.ordered(),
    {
        proof {
            use_type_invariant(self);
        }
    }

    /// The number of entries.
    pub fn len(&self) -> (out: usize)
        ensures
            out == self.spec_keys().len(),
            self.ordered(),
    {
        proof {
            use_type_invariant(self);
        }
        self.keys.len()
    }

    /// The `i`-th index in ascending order.
    pub fn key_at(&self, i: usize) -> (out: u32)
        requires
            i < self.spec_keys().len(),
        ensures
            out == self.spec_keys()[i as int],
    {
        self.keys[i]
    }

    /// The value of the `i`-th index in ascending order.
    pub fn value_at(&self, i: usize) -> (out: &V)
        requires
            i < self.spec_keys().len(),
        ensures
            *out == self.spec_values()[i as int],
            self.ordered(),
    {
        proof {
            use_type_invariant(self);
        }
        &self.values[i]
    }

    /// The position of `key` among the indices, if the map holds it.
    pub fn position(&self, key: u32) -> (out: Option<usize>)
        ensures
            self.ordered(),
            match out {
                Some(i) => i < self.spec_keys().len() && self.spec_keys()[i as int] == key
                    && self.has(key) && i == position_of(self.spec_keys(), key),
                None => !self.has(key),
            },
    {
        proof {
            use_type_invariant(self);
        }
        let mut i: usize = 0;
        while i < self.keys.len()
            invariant
                i <= self.keys@.len(),
                self.ordered(),
                forall|k: int| 0 <= k < i ==> self.keys@[k] != key,
            decreases self.keys@.len() - i,
        {
            if self.keys[i] == key {
                proof {
                    lemma_position_unique(self.keys@, key, i as int);
                }
                return Some(i);
            }
            i += 1;
        }
        None
    }

    /// The value of `key`, if the map holds it.
    pub fn get(&self, key: u32) -> (out: Option<&V>)
        ensures
            self.ordered(),
            match out {
                Some(v) => self.has(key) && *v == self.value_of(key),
                None => !self.has(key),
            },
    {
        match self.position(key) {
            Some(i) => {
                proof {
                    use_type_invariant(self);
                }
                Some(&self.values[i])
            },
            None => None,
        }
    }

    /// The map with one more entry, whose index is above all that it holds.
    pub fn push_back(self, key: u32, value: V) -> (out: Self)
        requires
            forall|i: int| 0 <= i < self.spec_keys().len() ==> self.spec_keys()[i] < key,
        ensures
            out.ordered(),
            out.spec_keys() == self.spec_keys().push(key),
            out.spec_values() == self.spec_values().push(value),
    {
        proof {
            use_type_invariant(&self);
        }
        let ghost old_keys = self.keys@;
        let mut keys = self.keys;
        let mut values = self.values;
        keys.push(key);
        values.push(value);
        assert(strictly_increasing(keys@)) by {
            assert forall|a: int, b: int| 0 <= a < b < keys@.len() implies keys@[a] < keys@[b] by {
                if b < old_keys.len() {
                    assert(old_keys[a] < old_keys[b]);
                } else {
                    assert(self.spec_keys()[a] < key);
                }
            }
        }
        IndexMap { keys, values }
    }

    /// The map with the value of `key` set. A new index goes to its place in
    /// the order; the value of an index that the map holds is replaced.
    pub fn insert(self, key: u32, value: V) -> (out: Self)
        ensures
            out.ordered(),
            self.has(key) ==> exists|i: int|
                {
                    &&& 0 <= i < self.spec_keys().len()
                    &&& self.spec_keys()[i] == key
                    &&& out.spec_keys() == self.spec_keys()
                    &&& out.spec_values() == self.spec_values().update(i, value)
                },
            !self.has(key) ==> {
                let at = rank(self.spec_keys(), key) as int;
                &&& out.spec_keys() == self.spec_keys().insert(at, key)
                &&& out.spec_values() == self.spec_values().insert(at, value)
            },
            forall|x: u32| #[trigger] out.has(x) <==> (self.has(x) || x == key),
            out.value_of(key) == value,
            forall|x: u32| x != key && self.has(x) ==> #[trigger] out.value_of(x) == self.value_of(x),
    {
        proof {
            use_type_invariant(&self);
        }
        let ghost old_keys = self.keys@;
        let mut keys = self.keys;
        let mut values = self.values;
        let mut i: usize = 0;
        while i < keys.len() && keys[i] < key
            invariant
                i <= keys@.len(),
                forall|k: int| 0 <= k < i ==> keys@[k] < key,
            decreases keys@.len() - i,
        {
            i += 1;
        }
        if i < keys.len() && keys[i] == key {
            let ghost old_values = values@;
            values.set(i, value);
            proof {
                lemma_position_unique(keys@, key, i as int);
                assert forall|x: u32| x != key && old_keys.contains(x) implies values@[position_of(
                    keys@,
                    x,
                )] == old_values[position_of(old_keys, x)] by {
                    let p = position_of(old_keys, x);
                    assert(p != i);
                }
            }
        } else {
            proof {
                lemma_rank_is_position(keys@, key, i as int);
                assert(!self.has(key)) by {
                    if self.has(key) {
                        let k = choose|k: int| 0 <= k < keys@.len() && keys@[k] == key;
                        if k < i {
                        } else if k > i {
                            assert(keys@[i as int] < keys@[k]);
                        }
                    }
                }
            }
            keys.insert(i, key);
            values.insert(i, value);
            assert(strictly_increasing(keys@)) by {
                assert forall|a: int, b: int| 0 <= a < b < keys@.len() implies keys@[a] < keys@[b] by {
                    if b < i {
                    } else if a > i {
                        assert(keys@[a] == old_keys[a - 1]);
                        assert(keys@[b] == old_keys[b - 1]);
                    } else if a == i {
                        assert(keys@[b] == old_keys[b - 1]);
                        assert(old_keys[i as int] <= old_keys[b - 1]);
                    } else if b == i {
                    } else {
                        assert(keys@[b] == old_keys[b - 1]);
                        assert(self.spec_keys()[a] < key);
                        assert(old_keys[i as int] <= old_keys[b - 1]);
                    }
                }
            }
            proof {
                let old_values = self.values@;
                lemma_position_unique(keys@, key, i as int);
                assert forall|x: u32| keys@.contains(x) <==> (old_keys.contains(x) || x == key) by {
                    if keys@.contains(x) {
                        let q = choose|q: int| 0 <= q < keys@.len() && keys@[q] == x;
                        if q < i {
                            assert(old_keys[q] == x);
                        } else if q > i {
                            assert(old_keys[q - 1] == x);
                        }
                    }
                    if old_keys.contains(x) {
                        let q = choose|q: int| 0 <= q < old_keys.len() && old_keys[q] == x;
                        if q < i {
                            assert(keys@[q] == x);
                        } else {
                            assert(keys@[q + 1] == x);
                        }
                    }
                    if x == key {
                        assert(keys@[i as int] == x);
                    }
                }
                assert forall|x: u32| x != key && old_keys.contains(x) implies values@[position_of(
                    keys@,
                    x,
                )] == old_values[position_of(old_keys, x)] by {
                    let q = position_of(old_keys, x);
                    if q < i {
                        lemma_position_unique(keys@, x, q);
                    } else {
                        lemma_position_unique(keys@, x, q + 1);
                    }
                }
            }
        }
        IndexMap { keys, values }
    }
}

/// In a strictly increasing sequence, the position before which all indices
/// are below `key` and from which none is, is the rank of `key`.
pub proof fn lemma_rank_is_position(keys: Seq<u32>, key: u32, at: int)
    requires
        strictly_increasing(keys),
        0 <= at <= keys.len(),
        forall|k: int| 0 <= k < at ==> keys[k] < key,
        at < keys.len() ==> keys[at] >= key,
    ensures
        rank(keys, key) == at,
    decreases keys.len(),
{
    if keys.len() == 0 {
    } else if keys.last() < key {
        if at < keys.len() {
            assert(keys[at] <= keys.last());
        }
    } else {
        assert(at < keys.len());
        lemma_rank_is_position(keys.drop_last(), key, at);
    }
}

} // verus!
