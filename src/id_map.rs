use vstd::prelude::*;

verus! {

/// The entry for `k` in a map, if any.
pub open spec fn map_lookup<X>(m: Map<u32, X>, k: u32) -> Option<X> {
    if m.contains_key(k) {
        Some(m[k])
    } else {
        None
    }
}

/// Values keyed by integer handles, kept in insertion order.
pub struct IdMap<X> {
    keys: Vec<u32>,
    vals: Vec<X>,
}

proof fn lemma_unique_index(s: Seq<u32>, k: u32, i: int)
    requires
        s.no_duplicates(),
        0 <= i < s.len(),
        s[i] == k,
    ensures
        s.contains(k),
        s.index_of(k) == i,
{
    assert(s.contains(k));
}

impl<X> IdMap<X> {
    /// The handles, in insertion order.
    pub closed spec fn key_seq(&self) -> Seq<u32> {
        self.keys@
    }

    pub closed spec fn view(&self) -> Map<u32, X> {
        Map::new(|k: u32| self.keys@.contains(k), |k: u32| self.vals@[self.keys@.index_of(k)])
    }

    pub closed spec fn wf(&self) -> bool {
        self.keys.len() == self.vals.len() && self.keys@.no_duplicates()
    }

    /// The handles in `key_seq` are exactly the keys of the map, each once.
    pub proof fn lemma_keys(&self)
        requires
            self.wf(),
        ensures
            self.key_seq().no_duplicates(),
            forall|k: u32| #[trigger] self@.contains_key(k) <==> self.key_seq().contains(k),
    {
    }

    pub fn new() -> (r: Self)
        ensures
            r.wf(),
            r@ == Map::<u32, X>::empty(),
            r.key_seq() == Seq::<u32>::empty(),
    {
        let r = IdMap { keys: Vec::new(), vals: Vec::new() };
        assert(r@ =~= Map::<u32, X>::empty());
        r
    }

    fn find(&self, k: u32) -> (r: Option<usize>)
        requires
            self.wf(),
        ensures
            match r {
                Some(i) => i < self.keys.len() && self.keys@[i as int] == k && self.keys@.index_of(k) == i,
                None => !self.keys@.contains(k),
            },
    {
        let mut i: usize = 0;
        while i < self.keys.len()
            invariant
                self.wf(),
                i <= self.keys.len(),
                forall|j: int| 0 <= j < i ==> self.keys@[j] != k,
            decreases self.keys.len() - i,
        {
            if self.keys[i] == k {
                proof {
                    lemma_unique_index(self.keys@, k, i as int);
                }
                return Some(i);
            }
            i = i + 1;
        }
        None
    }

    pub fn contains(&self, k: u32) -> (r: bool)
        requires
            self.wf(),
        ensures
            r == self@.contains_key(k),
    {
        self.find(k).is_some()
    }

    /// Adds an entry under a handle that is not in use.
    pub fn insert_new(&mut self, k: u32, v: X)
        requires
            old(self).wf(),
            !old(self)@.contains_key(k),
        ensures
            final(self).wf(),
            final(self)@ == old(self)@.insert(k, v),
            final(self).key_seq() == old(self).key_seq().push(k),
    {
        let ghost ok = self.keys@;
        self.keys.push(k);
        self.vals.push(v);
        proof {
            let n = ok.len() as int;
            assert forall|i: int, j: int| 0 <= i < self.keys.len() && 0 <= j < self.keys.len() && i != j
                implies self.keys@[i] != self.keys@[j] by {
                if i == n {
                    assert(ok[j] == self.keys@[j]);
                } else if j == n {
                    assert(ok[i] == self.keys@[i]);
                }
            }
            lemma_unique_index(self.keys@, k, n);
            assert forall|q: u32| #[trigger] self@.contains_key(q) == old(self)@.insert(k, v).contains_key(q) by {
                if ok.contains(q) {
                    let j = choose|j: int| 0 <= j < ok.len() && ok[j] == q;
                    assert(self.keys@[j] == q);
                }
                if self.keys@.contains(q) && q != k {
                    let j = choose|j: int| 0 <= j < self.keys.len() && self.keys@[j] == q;
                    assert(ok[j] == q);
                }
            }
            assert forall|q: u32| #[trigger] self@.contains_key(q) implies self@[q] == old(self)@.insert(k, v)[q] by {
                if q != k {
                    let j = ok.index_of(q);
                    lemma_unique_index(self.keys@, q, j);
                }
            }
            assert(self@ =~= old(self)@.insert(k, v));
        }
    }

    pub fn get(&self, k: u32) -> (r: Option<&X>)
        requires
            self.wf(),
        ensures
            match r {
                Some(x) => map_lookup(self@, k) == Some(*x),
                None => map_lookup(self@, k) == None::<X>,
            },
    {
        match self.find(k) {
            Some(i) => Some(&self.vals[i]),
            None => None,
        }
    }

    pub fn get_mut(&mut self, k: u32) -> (r: Option<&mut X>)
        requires
            old(self).wf(),
        ensures
            match r {
                Some(x) => {
                    &&& map_lookup(old(self)@, k) == Some(*x)
                    &&& final(self).wf()
                    &&& final(self)@ == old(self)@.insert(k, *final(x))
                    &&& final(self).key_seq() == old(self).key_seq()
                },
                None => {
                    &&& map_lookup(old(self)@, k) == None::<X>
                    &&& *final(self) == *old(self)
                },
            },
    {
        match self.find(k) {
            Some(i) => {
                Some(&mut self.vals[i])
            },
            None => None,
        }
    }

    /// Removes the entry for `k`; the remaining entries keep their order.
    pub fn remove(&mut self, k: u32) -> (r: Option<X>)
        requires
            old(self).wf(),
        ensures
            final(self).wf(),
            r == map_lookup(old(self)@, k),
            final(self)@ == old(self)@.remove(k),
            old(self)@.contains_key(k) ==> final(self).key_seq() == old(self).key_seq().remove(
                old(self).key_seq().index_of(k),
            ),
            !old(self)@.contains_key(k) ==> final(self).key_seq() == old(self).key_seq(),
    {
        match self.find(k) {
            Some(i) => {
                let ghost ok = self.keys@;
                let ghost ov = self.vals@;
                self.keys.remove(i);
                let v = self.vals.remove(i);
                proof {
                    assert forall|a: int, b: int| 0 <= a < self.keys.len() && 0 <= b < self.keys.len() && a != b
                        implies self.keys@[a] != self.keys@[b] by {
                        let oa = if a < i { a } else { a + 1 };
                        let ob = if b < i { b } else { b + 1 };
                        assert(self.keys@[a] == ok[oa]);
                        assert(self.keys@[b] == ok[ob]);
                    }
                    assert forall|q: u32| #[trigger] self@.contains_key(q) == old(self)@.remove(k).contains_key(q) by {
                        if self.keys@.contains(q) {
                            let j = choose|j: int| 0 <= j < self.keys.len() && self.keys@[j] == q;
                            let oj = if j < i { j } else { j + 1 };
                            assert(ok[oj] == q);
                            assert(oj != i);
                        }
                        if ok.contains(q) && q != k {
                            let j = choose|j: int| 0 <= j < ok.len() && ok[j] == q;
                            assert(j != i);
                            let nj = if j < i { j } else { j - 1 };
                            assert(self.keys@[nj] == q);
                        }
                    }
                    assert forall|q: u32| #[trigger] self@.contains_key(q) implies self@[q] == old(self)@.remove(k)[q] by {
                        let j = self.keys@.index_of(q);
                        let oj = if j < i { j } else { j + 1 };
                        assert(ok[oj] == q);
                        lemma_unique_index(ok, q, oj);
                    }
                    assert(self@ =~= old(self)@.remove(k));
                }
                Some(v)
            },
            None => {
                proof {
                    assert(self@ =~= old(self)@.remove(k));
                }
                None
            },
        }
    }

    /// The handle and value in slot `i` of insertion order.
    pub fn entry_at(&self, i: usize) -> (r: (u32, &X))
        requires
            self.wf(),
            i < self.key_seq().len(),
        ensures
            r.0 == self.key_seq()[i as int],
            self@.contains_key(r.0),
            *r.1 == self@[r.0],
    {
        proof {
            lemma_unique_index(self.keys@, self.keys@[i as int], i as int);
        }
        (self.keys[i], &self.vals[i])
    }

    pub fn len(&self) -> (r: usize)
        requires
            self.wf(),
        ensures
            r == self.key_seq().len(),
    {
        self.keys.len()
    }
}

} // verus!
