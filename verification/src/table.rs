use std::collections::HashMap;

use vstd::prelude::*;

verus! {

broadcast use vstd::std_specs::hash::group_hash_axioms;

/// A map from `u64` keys that remembers the order in which its keys came.
#[derive(Debug)]
pub struct Table<V> {
    map: HashMap<u64, V>,
    order: Vec<u64>,
}

impl<V> View for Table<V> {
    type V = Map<u64, V>;

    closed spec fn view(&self) -> Map<u64, V> {
        self.map@
    }
}

/// Dropping the entry at `i` of a sequence without duplicates leaves one
/// without duplicates, holding every other element and not that one.
proof fn lemma_remove_unique(s: Seq<u64>, i: int)
    requires
        s.no_duplicates(),
        0 <= i < s.len(),
    ensures
        s.remove(i).no_duplicates(),
        !s.remove(i).contains(s[i]),
        forall|x: u64| x != s[i] ==> (#[trigger] s.remove(i).contains(x) <==> s.contains(x)),
{
    let r = s.remove(i);
    assert forall|a: int, b: int| 0 <= a < r.len() && 0 <= b < r.len() && a != b implies r[a] != r[b] by {
        let a2 = if a < i { a } else { a + 1 };
        let b2 = if b < i { b } else { b + 1 };
        assert(r[a] == s[a2]);
        assert(r[b] == s[b2]);
    }
    if r.contains(s[i]) {
        let j = choose|j: int| 0 <= j < r.len() && r[j] == s[i];
        let j2 = if j < i { j } else { j + 1 };
        assert(s[j2] == s[i]);
    }
    assert forall|x: u64| x != s[i] implies (#[trigger] r.contains(x) <==> s.contains(x)) by {
        if s.contains(x) {
            let j = choose|j: int| 0 <= j < s.len() && s[j] == x;
            if j < i {
                assert(r[j] == x);
            } else {
                assert(j != i);
                assert(r[j - 1] == x);
            }
        }
        if r.contains(x) {
            let j = choose|j: int| 0 <= j < r.len() && r[j] == x;
            let j2 = if j < i { j } else { j + 1 };
            assert(s[j2] == x);
        }
    }
}

impl<V> Table<V> {
    #[verifier::type_invariant]
    spec fn inv(self) -> bool {
        &&& self.order@.no_duplicates()
        &&& forall|k: u64| #[trigger] self.map@.contains_key(k) <==> self.order@.contains(k)
    }

    /// The keys in insertion order.
    pub closed spec fn key_order(&self) -> Seq<u64> {
        self.order@
    }

    pub fn new() -> (r: Table<V>)
        ensures
            r@ == Map::<u64, V>::empty(),
    {
        Table { map: HashMap::new(), order: Vec::new() }
    }

    pub fn contains_key(&self, k: u64) -> (r: bool)
        ensures
            r == self@.contains_key(k),
    {
        self.map.contains_key(&k)
    }

    pub fn get(&self, k: u64) -> (r: Option<&V>)
        ensures
            match r {
                Some(v) => self@.contains_key(k) && *v == self@[k],
                None => !self@.contains_key(k),
            },
    {
        self.map.get(&k)
    }

    /// The number of entries.
    pub fn len(&self) -> (r: usize)
        ensures
            r == self@.dom().len(),
    {
        self.map.len()
    }

    /// The keys, each once, in insertion order.
    pub fn keys(&self) -> (r: Vec<u64>)
        ensures
            r@ == self.key_order(),
            r@.no_duplicates(),
            forall|k: u64| #[trigger] r@.contains(k) <==> self@.contains_key(k),
            r@.len() == self@.dom().len(),
    {
        proof {
            use_type_invariant(self);
        }
        let mut r: Vec<u64> = Vec::new();
        let mut i: usize = 0;
        while i < self.order.len()
            invariant
                i <= self.order@.len(),
                r@ == self.order@.subrange(0, i as int),
            decreases self.order@.len() - i,
        {
            r.push(self.order[i]);
            i = i + 1;
            assert(r@ =~= self.order@.subrange(0, i as int));
        }
        proof {
            assert(r@ =~= self.order@);
            assert(self.map@.dom() =~= self.order@.to_set());
            self.order@.unique_seq_to_set();
        }
        r
    }

    /// Sets the value of `k`; returns the value it replaced. A new key comes
    /// last in the order; a known one keeps its place.
    pub fn insert(&mut self, k: u64, v: V) -> (r: Option<V>)
        ensures
            final(self)@ == old(self)@.insert(k, v),
            match r {
                Some(old_v) => old(self)@.contains_key(k) && old_v == old(self)@[k],
                None => !old(self)@.contains_key(k),
            },
    {
        proof {
            use_type_invariant(&*self);
        }
        let mut t: Table<V> = Table::new();
        std::mem::swap(&mut t, self);
        let Table { mut map, mut order } = t;
        if !map.contains_key(&k) {
            order.push(k);
        }
        let r = map.insert(k, v);
        proof {
            assert forall|x: u64| #[trigger] map@.contains_key(x) <==> order@.contains(x) by {
                if x != k && old(self).order@.contains(x) {
                    let j = choose|j: int| 0 <= j < old(self).order@.len() && old(self).order@[j] == x;
                    assert(order@[j] == x);
                }
                if x == k && !old(self).map@.contains_key(k) {
                    assert(order@[order@.len() - 1] == k);
                }
            }
        }
        *self = Table { map, order };
        r
    }

    /// Removes `k`; returns its value. The other keys keep their order.
    pub fn remove(&mut self, k: u64) -> (r: Option<V>)
        ensures
            final(self)@ == old(self)@.remove(k),
            match r {
                Some(v) => old(self)@.contains_key(k) && v == old(self)@[k],
                None => !old(self)@.contains_key(k),
            },
    {
        proof {
            use_type_invariant(&*self);
        }
        let mut t: Table<V> = Table::new();
        std::mem::swap(&mut t, self);
        let Table { mut map, mut order } = t;
        let r = map.remove(&k);
        if r.is_some() {
            let mut i: usize = 0;
            while i < order.len() && order[i] != k
                invariant
                    i <= order@.len(),
                    order@ == old(self).order@,
                    order@.contains(k),
                    forall|j: int| 0 <= j < i ==> order@[j] != k,
                decreases order@.len() - i,
            {
                i = i + 1;
            }
            proof {
                if i == order@.len() {
                    let j = choose|j: int| 0 <= j < order@.len() && order@[j] == k;
                    assert(order@[j] != k);
                }
                lemma_remove_unique(order@, i as int);
            }
            order.remove(i);
        } else {
            proof {
                assert(map@ =~= old(self).map@);
            }
        }
        *self = Table { map, order };
        r
    }
}

} // verus!
