//! Small verified key-value stores.
//!
//! The archive keeps several lookup tables: endpoint key to resume
//! position, media URL to local artifact, account id to profile, post id
//! to reply thread. Each is a list of pairs with pairwise-distinct keys,
//! seen in contracts as a `Map` from key to value.

use vstd::prelude::*;

verus! {

/// A table keyed by strings. The view is a `Map<Seq<char>, V>`.
#[derive(Debug)]
pub struct StrKeyMap<V> {
    pairs: Vec<(String, V)>,
}

impl<T> View for StrKeyMap<T> {
    type V = Map<Seq<char>, T>;

    open spec fn view(&self) -> Map<Seq<char>, T> {
        self.as_map()
    }
}

impl<V> StrKeyMap<V> {
    /// The underlying pairs, oldest insertion first.
    pub closed spec fn spec_pairs(self) -> Seq<(String, V)> {
        self.pairs@
    }

    /// Keys are pairwise distinct.
    pub closed spec fn wf(self) -> bool {
        forall|i: int, j: int|
            0 <= i < j < self.pairs@.len() ==> (#[trigger] self.pairs@[i]).0@ != (
            #[trigger] self.pairs@[j]).0@
    }

    /// Some pair carries the key `k`.
    pub closed spec fn spec_has(self, k: Seq<char>) -> bool {
        exists|i: int| 0 <= i < self.pairs@.len() && (#[trigger] self.pairs@[i]).0@ == k
    }

    /// The pairs as a map from key to value.
    pub closed spec fn as_map(self) -> Map<Seq<char>, V> {
        Map::new(
            |k: Seq<char>| self.spec_has(k),
            |k: Seq<char>|
                {
                    let i = choose|i: int|
                        0 <= i < self.pairs@.len() && (#[trigger] self.pairs@[i]).0@ == k;
                    self.pairs@[i].1
                },
        )
    }

    /// A pair's position determines its standing in the map.
    proof fn lemma_pair_determines(self, k: Seq<char>, i: int)
        requires
            self.wf(),
            0 <= i < self.spec_pairs().len(),
            self.spec_pairs()[i].0@ == k,
        ensures
            self@.contains_key(k),
            self@[k] == self.spec_pairs()[i].1,
    {
        assert(self.spec_has(k));
        let j = choose|j: int| 0 <= j < self.pairs@.len() && (#[trigger] self.pairs@[j]).0@ == k;
        if i < j {
            assert(self.pairs@[i].0@ != self.pairs@[j].0@);
        } else if j < i {
            assert(self.pairs@[j].0@ != self.pairs@[i].0@);
        }
        assert(j == i);
    }

    /// An empty table.
    pub fn new() -> (r: Self)
        ensures
            r.wf(),
            r@ == Map::<Seq<char>, V>::empty(),
            r.spec_pairs().len() == 0,
    {
        let r = StrKeyMap { pairs: Vec::new() };
        proof {
            assert(r.as_map() =~= Map::<Seq<char>, V>::empty());
        }
        r
    }

    /// How many keys the table holds.
    pub fn len(&self) -> (r: usize)
        ensures
            r == self.spec_pairs().len(),
    {
        self.pairs.len()
    }

    /// The key of the pair at position `i`.
    pub fn key_at(&self, i: usize) -> (r: &String)
        requires
            i < self.spec_pairs().len(),
        ensures
            *r == self.spec_pairs()[i as int].0,
    {
        &self.pairs[i].0
    }

    /// The value of the pair at position `i`.
    pub fn value_at(&self, i: usize) -> (r: &V)
        requires
            i < self.spec_pairs().len(),
        ensures
            *r == self.spec_pairs()[i as int].1,
    {
        &self.pairs[i].1
    }

    /// Look a key up.
    pub fn get(&self, key: &str) -> (r: Option<&V>)
        requires
            self.wf(),
        ensures
            match r {
                Some(v) => self@.contains_key(key@) && *v == self@[key@],
                None => !self@.contains_key(key@),
            },
    {
        let k: String = key.to_owned();
        let n = self.pairs.len();
        let mut i: usize = 0;
        while i < n
            invariant
                n == self.pairs@.len(),
                i <= n,
                k@ == key@,
                self.wf(),
                forall|j: int| 0 <= j < i ==> (#[trigger] self.pairs@[j]).0@ != key@,
            decreases n - i,
        {
            if self.pairs[i].0 == k {
                proof {
                    self.lemma_pair_determines(key@, i as int);
                }
                return Some(&self.pairs[i].1);
            }
            i += 1;
        }
        proof {
            assert(!self.spec_has(key@));
        }
        None
    }

    /// Whether the table holds the key.
    pub fn contains(&self, key: &str) -> (r: bool)
        requires
            self.wf(),
        ensures
            r == self@.contains_key(key@),
    {
        match self.get(key) {
            Some(_) => true,
            None => false,
        }
    }

    /// Bind `key` to `value`, replacing any earlier binding.
    pub fn insert(&mut self, key: String, value: V)
        requires
            old(self).wf(),
        ensures
            final(self).wf(),
            final(self)@ == old(self)@.insert(key@, value),
    {
        let n = self.pairs.len();
        let mut i: usize = 0;
        while i < n
            invariant
                *self == *old(self),
                n == self.pairs@.len(),
                i <= n,
                self.wf(),
                forall|j: int| 0 <= j < i ==> (#[trigger] self.pairs@[j]).0@ != key@,
            decreases n - i,
        {
            if self.pairs[i].0 == key {
                let ghost before = *self;
                self.pairs[i] = (key, value);
                proof {
                    assert forall|a: int| 0 <= a < self.pairs@.len() implies (
                    #[trigger] self.pairs@[a]).0@ == before.pairs@[a].0@ by {}
                    assert(self.wf());
                    self.lemma_pair_determines(self.pairs@[i as int].0@, i as int);
                    lemma_same_keys_insert(before, *self, i as int, value);
                    assert(self@ == old(self)@.insert(key@, value));
                }
                return ;
            }
            i += 1;
        }
        self.pairs.push((key, value));
        proof {
            let p_old = old(self).pairs@;
            let p_new = self.pairs@;
            let k = p_new[p_new.len() - 1].0@;
            assert(self.wf());
            assert forall|k2: Seq<char>|
                self@.contains_key(k2) <==> old(self)@.insert(k, value).contains_key(k2) by {
                if self.spec_has(k2) {
                    let w = choose|w: int| 0 <= w < p_new.len() && (#[trigger] p_new[w]).0@ == k2;
                    if w < p_new.len() - 1 {
                        assert(old(self).spec_has(k2));
                    }
                }
                if old(self).spec_has(k2) {
                    let w = choose|w: int| 0 <= w < p_old.len() && (#[trigger] p_old[w]).0@ == k2;
                    assert(p_new[w].0@ == k2);
                }
                if k2 == k {
                    assert(p_new[p_new.len() - 1].0@ == k2);
                }
            }
            assert forall|k2: Seq<char>| self@.contains_key(k2) implies self@[k2] == old(
                self,
            )@.insert(k, value)[k2] by {
                let w = choose|w: int| 0 <= w < p_new.len() && (#[trigger] p_new[w]).0@ == k2;
                self.lemma_pair_determines(k2, w);
                if k2 == k {
                    if w < p_new.len() - 1 {
                        assert(p_new[w].0@ != p_new[p_new.len() - 1].0@);
                    }
                } else {
                    assert(w < p_new.len() - 1);
                    assert(p_old[w].0@ == k2);
                    old(self).lemma_pair_determines(k2, w);
                }
            }
            assert(self@ =~= old(self)@.insert(k, value));
        }
    }

    /// Drop the binding for `key`, if any.
    pub fn remove(&mut self, key: &str)
        requires
            old(self).wf(),
        ensures
            final(self).wf(),
            final(self)@ == old(self)@.remove(key@),
    {
        let k: String = key.to_owned();
        let n = self.pairs.len();
        let mut i: usize = 0;
        while i < n
            invariant
                *self == *old(self),
                n == self.pairs@.len(),
                i <= n,
                k@ == key@,
                self.wf(),
                forall|j: int| 0 <= j < i ==> (#[trigger] self.pairs@[j]).0@ != key@,
            decreases n - i,
        {
            if self.pairs[i].0 == k {
                let ghost before = *self;
                self.pairs.remove(i);
                proof {
                    lemma_removed_key(before, *self, i as int, key@);
                }
                return ;
            }
            i += 1;
        }
        proof {
            assert(!old(self).spec_has(key@));
            assert(self@ =~= old(self)@.remove(key@));
        }
    }
}

/// Replacing the value at an existing key leaves every key in place and
/// turns the map into the old one with that key rebound.
proof fn lemma_same_keys_insert<V>(m0: StrKeyMap<V>, m1: StrKeyMap<V>, i: int, value: V)
    requires
        m0.wf(),
        m1.wf(),
        m0.spec_pairs().len() == m1.spec_pairs().len(),
        0 <= i < m1.spec_pairs().len(),
        forall|a: int|
            0 <= a < m1.spec_pairs().len() ==> (#[trigger] m1.spec_pairs()[a]).0@
                == m0.spec_pairs()[a].0@,
        forall|a: int|
            0 <= a < m1.spec_pairs().len() && a != i ==> (#[trigger] m1.spec_pairs()[a])
                == m0.spec_pairs()[a],
        m1.spec_pairs()[i].1 == value,
    ensures
        m1.as_map() == m0.as_map().insert(m1.spec_pairs()[i].0@, value),
{
    let k = m1.spec_pairs()[i].0@;
    let p0 = m0.spec_pairs();
    let p1 = m1.spec_pairs();
    assert forall|k2: Seq<char>|
        m1.as_map().contains_key(k2) <==> m0.as_map().insert(k, value).contains_key(k2) by {
        if m1.spec_has(k2) {
            let w = choose|w: int| 0 <= w < p1.len() && (#[trigger] p1[w]).0@ == k2;
            assert(p0[w].0@ == k2);
            assert(m0.spec_has(k2));
        }
        if m0.spec_has(k2) {
            let w = choose|w: int| 0 <= w < p0.len() && (#[trigger] p0[w]).0@ == k2;
            assert(p1[w].0@ == k2);
            assert(m1.spec_has(k2));
        }
    }
    assert forall|k2: Seq<char>| m1.as_map().contains_key(k2) implies m1.as_map()[k2]
        == m0.as_map().insert(k, value)[k2] by {
        let w = choose|w: int| 0 <= w < p1.len() && (#[trigger] p1[w]).0@ == k2;
        m1.lemma_pair_determines(k2, w);
        if k2 == k {
            if w != i {
                if w < i {
                    assert(p1[w].0@ != p1[i].0@);
                } else {
                    assert(p1[i].0@ != p1[w].0@);
                }
            }
            assert(m1.as_map()[k2] == value);
        } else {
            assert(w != i);
            m0.lemma_pair_determines(k2, w);
        }
    }
    assert(m1.as_map() =~= m0.as_map().insert(k, value));
}

/// Removing the pair that carries a key removes exactly that key from the map.
proof fn lemma_removed_key<V>(m0: StrKeyMap<V>, m1: StrKeyMap<V>, i: int, k: Seq<char>)
    requires
        m0.wf(),
        0 <= i < m0.spec_pairs().len(),
        m0.spec_pairs()[i].0@ == k,
        m1.spec_pairs() == m0.spec_pairs().remove(i),
    ensures
        m1.wf(),
        m1.as_map() == m0.as_map().remove(k),
{
    let p0 = m0.spec_pairs();
    let p1 = m1.spec_pairs();
    assert forall|a: int, b: int| 0 <= a < b < p1.len() implies (#[trigger] p1[a]).0@ != (
    #[trigger] p1[b]).0@ by {
        let a0 = if a < i {
            a
        } else {
            a + 1
        };
        let b0 = if b < i {
            b
        } else {
            b + 1
        };
        assert(p1[a] == p0[a0]);
        assert(p1[b] == p0[b0]);
    }
    assert(m1.wf());
    assert forall|k2: Seq<char>|
        m1.as_map().contains_key(k2) <==> m0.as_map().remove(k).contains_key(k2) by {
        if m1.spec_has(k2) {
            let w = choose|w: int| 0 <= w < p1.len() && (#[trigger] p1[w]).0@ == k2;
            let w0 = if w < i {
                w
            } else {
                w + 1
            };
            assert(p1[w] == p0[w0]);
            assert(m0.spec_has(k2));
            if k2 == k {
                if w0 < i {
                    assert(p0[w0].0@ != p0[i].0@);
                } else {
                    assert(p0[i].0@ != p0[w0].0@);
                }
            }
        }
        if m0.spec_has(k2) && k2 != k {
            let w = choose|w: int| 0 <= w < p0.len() && (#[trigger] p0[w]).0@ == k2;
            assert(w != i);
            let w1 = if w < i {
                w
            } else {
                w - 1
            };
            assert(p1[w1] == p0[w]);
            assert(m1.spec_has(k2));
        }
    }
    assert forall|k2: Seq<char>| m1.as_map().contains_key(k2) implies m1.as_map()[k2]
        == m0.as_map().remove(k)[k2] by {
        let w = choose|w: int| 0 <= w < p1.len() && (#[trigger] p1[w]).0@ == k2;
        m1.lemma_pair_determines(k2, w);
        let w0 = if w < i {
            w
        } else {
            w + 1
        };
        assert(p1[w] == p0[w0]);
        m0.lemma_pair_determines(k2, w0);
    }
    assert(m1.as_map() =~= m0.as_map().remove(k));
}

/// A table keyed by 64-bit identifiers. The view is a `Map<u64, V>`.
#[derive(Debug)]
pub struct IdKeyMap<V> {
    pairs: Vec<(u64, V)>,
}

impl<T> View for IdKeyMap<T> {
    type V = Map<u64, T>;

    open spec fn view(&self) -> Map<u64, T> {
        self.as_map()
    }
}

impl<V> IdKeyMap<V> {
    /// The underlying pairs, oldest insertion first.
    pub closed spec fn spec_pairs(self) -> Seq<(u64, V)> {
        self.pairs@
    }

    /// Keys are pairwise distinct.
    pub closed spec fn wf(self) -> bool {
        forall|i: int, j: int|
            0 <= i < j < self.pairs@.len() ==> (#[trigger] self.pairs@[i]).0 != (
            #[trigger] self.pairs@[j]).0
    }

    /// Some pair carries the key `k`.
    pub closed spec fn spec_has(self, k: u64) -> bool {
        exists|i: int| 0 <= i < self.pairs@.len() && (#[trigger] self.pairs@[i]).0 == k
    }

    /// The pairs as a map from key to value.
    pub closed spec fn as_map(self) -> Map<u64, V> {
        Map::new(
            |k: u64| self.spec_has(k),
            |k: u64|
                {
                    let i = choose|i: int|
                        0 <= i < self.pairs@.len() && (#[trigger] self.pairs@[i]).0 == k;
                    self.pairs@[i].1
                },
        )
    }

    /// A pair's position determines its standing in the map.
    proof fn lemma_pair_determines(self, k: u64, i: int)
        requires
            self.wf(),
            0 <= i < self.spec_pairs().len(),
            self.spec_pairs()[i].0 == k,
        ensures
            self@.contains_key(k),
            self@[k] == self.spec_pairs()[i].1,
    {
        assert(self.spec_has(k));
        let j = choose|j: int| 0 <= j < self.pairs@.len() && (#[trigger] self.pairs@[j]).0 == k;
        if i < j {
            assert(self.pairs@[i].0 != self.pairs@[j].0);
        } else if j < i {
            assert(self.pairs@[j].0 != self.pairs@[i].0);
        }
        assert(j == i);
    }

    /// An empty table.
    pub fn new() -> (r: Self)
        ensures
            r.wf(),
            r@ == Map::<u64, V>::empty(),
            r.spec_pairs().len() == 0,
    {
        let r = IdKeyMap { pairs: Vec::new() };
        proof {
            assert(r.as_map() =~= Map::<u64, V>::empty());
        }
        r
    }

    /// How many keys the table holds.
    pub fn len(&self) -> (r: usize)
        ensures
            r == self.spec_pairs().len(),
    {
        self.pairs.len()
    }

    /// The key of the pair at position `i`.
    pub fn key_at(&self, i: usize) -> (r: u64)
        requires
            i < self.spec_pairs().len(),
        ensures
            r == self.spec_pairs()[i as int].0,
    {
        self.pairs[i].0
    }

    /// The value of the pair at position `i`.
    pub fn value_at(&self, i: usize) -> (r: &V)
        requires
            i < self.spec_pairs().len(),
        ensures
            *r == self.spec_pairs()[i as int].1,
    {
        &self.pairs[i].1
    }

    /// Look a key up.
    pub fn get(&self, key: u64) -> (r: Option<&V>)
        requires
            self.wf(),
        ensures
            match r {
                Some(v) => self@.contains_key(key) && *v == self@[key],
                None => !self@.contains_key(key),
            },
    {
        let n = self.pairs.len();
        let mut i: usize = 0;
        while i < n
            invariant
                n == self.pairs@.len(),
                i <= n,
                self.wf(),
                forall|j: int| 0 <= j < i ==> (#[trigger] self.pairs@[j]).0 != key,
            decreases n - i,
        {
            if self.pairs[i].0 == key {
                proof {
                    self.lemma_pair_determines(key, i as int);
                }
                return Some(&self.pairs[i].1);
            }
            i += 1;
        }
        proof {
            assert(!self.spec_has(key));
        }
        None
    }

    /// Whether the table holds the key.
    pub fn contains(&self, key: u64) -> (r: bool)
        requires
            self.wf(),
        ensures
            r == self@.contains_key(key),
    {
        match self.get(key) {
            Some(_) => true,
            None => false,
        }
    }

    /// Bind `key` to `value`, replacing any earlier binding.
    pub fn insert(&mut self, key: u64, value: V)
        requires
            old(self).wf(),
        ensures
            final(self).wf(),
            final(self)@ == old(self)@.insert(key, value),
    {
        let n = self.pairs.len();
        let mut i: usize = 0;
        while i < n
            invariant
                *self == *old(self),
                n == self.pairs@.len(),
                i <= n,
                self.wf(),
                forall|j: int| 0 <= j < i ==> (#[trigger] self.pairs@[j]).0 != key,
            decreases n - i,
        {
            if self.pairs[i].0 == key {
                let ghost before = *self;
                self.pairs[i] = (key, value);
                proof {
                    assert forall|a: int| 0 <= a < self.pairs@.len() implies (
                    #[trigger] self.pairs@[a]).0 == before.pairs@[a].0 by {}
                    assert(self.wf());
                    self.lemma_pair_determines(self.pairs@[i as int].0, i as int);
                    lemma_same_keys_insert_id(before, *self, i as int, value);
                    assert(self@ == old(self)@.insert(key, value));
                }
                return ;
            }
            i += 1;
        }
        self.pairs.push((key, value));
        proof {
            let p_old = old(self).pairs@;
            let p_new = self.pairs@;
            let k = p_new[p_new.len() - 1].0;
            assert(self.wf());
            assert forall|k2: u64|
                self@.contains_key(k2) <==> old(self)@.insert(k, value).contains_key(k2) by {
                if self.spec_has(k2) {
                    let w = choose|w: int| 0 <= w < p_new.len() && (#[trigger] p_new[w]).0 == k2;
                    if w < p_new.len() - 1 {
                        assert(old(self).spec_has(k2));
                    }
                }
                if old(self).spec_has(k2) {
                    let w = choose|w: int| 0 <= w < p_old.len() && (#[trigger] p_old[w]).0 == k2;
                    assert(p_new[w].0 == k2);
                }
                if k2 == k {
                    assert(p_new[p_new.len() - 1].0 == k2);
                }
            }
            assert forall|k2: u64| self@.contains_key(k2) implies self@[k2] == old(
                self,
            )@.insert(k, value)[k2] by {
                let w = choose|w: int| 0 <= w < p_new.len() && (#[trigger] p_new[w]).0 == k2;
                self.lemma_pair_determines(k2, w);
                if k2 == k {
                    if w < p_new.len() - 1 {
                        assert(p_new[w].0 != p_new[p_new.len() - 1].0);
                    }
                } else {
                    assert(w < p_new.len() - 1);
                    assert(p_old[w].0 == k2);
                    old(self).lemma_pair_determines(k2, w);
                }
            }
            assert(self@ =~= old(self)@.insert(k, value));
        }
    }
}

/// Replacing the value at an existing key leaves every key in place and
/// turns the map into the old one with that key rebound.
proof fn lemma_same_keys_insert_id<V>(m0: IdKeyMap<V>, m1: IdKeyMap<V>, i: int, value: V)
    requires
        m0.wf(),
        m1.wf(),
        m0.spec_pairs().len() == m1.spec_pairs().len(),
        0 <= i < m1.spec_pairs().len(),
        forall|a: int|
            0 <= a < m1.spec_pairs().len() ==> (#[trigger] m1.spec_pairs()[a]).0
                == m0.spec_pairs()[a].0,
        forall|a: int|
            0 <= a < m1.spec_pairs().len() && a != i ==> (#[trigger] m1.spec_pairs()[a])
                == m0.spec_pairs()[a],
        m1.spec_pairs()[i].1 == value,
    ensures
        m1.as_map() == m0.as_map().insert(m1.spec_pairs()[i].0, value),
{
    let k = m1.spec_pairs()[i].0;
    let p0 = m0.spec_pairs();
    let p1 = m1.spec_pairs();
    assert forall|k2: u64|
        m1.as_map().contains_key(k2) <==> m0.as_map().insert(k, value).contains_key(k2) by {
        if m1.spec_has(k2) {
            let w = choose|w: int| 0 <= w < p1.len() && (#[trigger] p1[w]).0 == k2;
            assert(p0[w].0 == k2);
            assert(m0.spec_has(k2));
        }
        if m0.spec_has(k2) {
            let w = choose|w: int| 0 <= w < p0.len() && (#[trigger] p0[w]).0 == k2;
            assert(p1[w].0 == k2);
            assert(m1.spec_has(k2));
        }
    }
    assert forall|k2: u64| m1.as_map().contains_key(k2) implies m1.as_map()[k2]
        == m0.as_map().insert(k, value)[k2] by {
        let w = choose|w: int| 0 <= w < p1.len() && (#[trigger] p1[w]).0 == k2;
        m1.lemma_pair_determines(k2, w);
        if k2 == k {
            if w != i {
                if w < i {
                    assert(p1[w].0 != p1[i].0);
                } else {
                    assert(p1[i].0 != p1[w].0);
                }
            }
            assert(m1.as_map()[k2] == value);
        } else {
            assert(w != i);
            m0.lemma_pair_determines(k2, w);
        }
    }
    assert(m1.as_map() =~= m0.as_map().insert(k, value));
}

} // verus!
