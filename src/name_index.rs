use vstd::prelude::*;

verus! {

/// A lookup table from names to integer handles. A name maps to at most one
/// handle; registering a name again replaces the handle it maps to.
pub struct NameIndex {
    entries: Vec<(String, u32)>,
}

impl NameIndex {
    pub closed spec fn wf(&self) -> bool {
        forall|i: int, j: int|
            0 <= i < self.entries.len() && 0 <= j < self.entries.len() && i != j
                ==> (#[trigger] self.entries@[i]).0@ != (#[trigger] self.entries@[j]).0@
    }

    pub closed spec fn view(&self) -> Map<Seq<char>, u32> {
        Map::new(
            |k: Seq<char>| exists|i: int| 0 <= i < self.entries.len() && #[trigger] self.entries@[i].0@ == k,
            |k: Seq<char>|
                self.entries@[choose|i: int| 0 <= i < self.entries.len() && #[trigger] self.entries@[i].0@ == k].1,
        )
    }

    proof fn lemma_at(&self, i: int)
        requires
            self.wf(),
            0 <= i < self.entries.len(),
        ensures
            self@.contains_key(self.entries@[i].0@),
            self@[self.entries@[i].0@] == self.entries@[i].1,
    {
        let k = self.entries@[i].0@;
        assert(exists|j: int| 0 <= j < self.entries.len() && #[trigger] self.entries@[j].0@ == k);
        let j = choose|j: int| 0 <= j < self.entries.len() && #[trigger] self.entries@[j].0@ == k;
        if i != j {
            assert(self.entries@[i].0@ != self.entries@[j].0@);
        }
    }

    pub fn new() -> (r: NameIndex)
        ensures
            r.wf(),
            r@ == Map::<Seq<char>, u32>::empty(),
    {
        let r = NameIndex { entries: Vec::new() };
        assert(r@ =~= Map::<Seq<char>, u32>::empty());
        r
    }

    fn find(&self, name: &str) -> (r: Option<usize>)
        requires
            self.wf(),
        ensures
            match r {
                Some(i) => i < self.entries.len() && self.entries@[i as int].0@ == name@,
                None => !self@.contains_key(name@),
            },
    {
        let key = name.to_owned();
        let mut i: usize = 0;
        while i < self.entries.len()
            invariant
                self.wf(),
                key@ == name@,
                i <= self.entries.len(),
                forall|j: int| 0 <= j < i ==> (#[trigger] self.entries@[j]).0@ != name@,
            decreases self.entries.len() - i,
        {
            if self.entries[i].0 == key {
                return Some(i);
            }
            i = i + 1;
        }
        None
    }

    /// The handle registered under `name`, if any.
    pub fn get(&self, name: &str) -> (r: Option<u32>)
        requires
            self.wf(),
        ensures
            match r {
                Some(id) => self@.contains_key(name@) && self@[name@] == id,
                None => !self@.contains_key(name@),
            },
    {
        match self.find(name) {
            Some(i) => {
                proof {
                    self.lemma_at(i as int);
                }
                Some(self.entries[i].1)
            },
            None => None,
        }
    }

    /// Registers `id` under `name`, replacing any earlier registration of `name`.
    pub fn insert(&mut self, name: String, id: u32)
        requires
            old(self).wf(),
        ensures
            final(self).wf(),
            final(self)@ == old(self)@.insert(name@, id),
    {
        match self.find(name.as_str()) {
            Some(i) => {
                self.entries.set(i, (name, id));
                proof {
                    assert forall|k: Seq<char>| #[trigger] self@.contains_key(k) == old(self)@.insert(name@, id).contains_key(k) by {
                        if old(self)@.contains_key(k) {
                            let j = choose|j: int| 0 <= j < old(self).entries.len() && #[trigger] old(self).entries@[j].0@ == k;
                            assert(self.entries@[j].0@ == k);
                        }
                        if self@.contains_key(k) {
                            let j = choose|j: int| 0 <= j < self.entries.len() && #[trigger] self.entries@[j].0@ == k;
                            if j != i {
                                assert(old(self).entries@[j].0@ == k);
                            }
                        }
                    }
                    assert forall|k: Seq<char>| #[trigger] self@.contains_key(k) implies self@[k] == old(self)@.insert(name@, id)[k] by {
                        let j = choose|j: int| 0 <= j < self.entries.len() && #[trigger] self.entries@[j].0@ == k;
                        self.lemma_at(j);
                        if j != i {
                            old(self).lemma_at(j);
                        }
                    }
                    assert(self@ =~= old(self)@.insert(name@, id));
                }
            },
            None => {
                let ghost n = name@;
                self.entries.push((name, id));
                proof {
                    let last = self.entries.len() - 1;
                    assert forall|i: int, j: int|
                        0 <= i < self.entries.len() && 0 <= j < self.entries.len() && i != j
                            implies (#[trigger] self.entries@[i]).0@ != (#[trigger] self.entries@[j]).0@ by {
                        if i == last {
                            assert(old(self).entries@[j] == self.entries@[j]);
                        } else if j == last {
                            assert(old(self).entries@[i] == self.entries@[i]);
                        } else {
                            assert(old(self).entries@[i] == self.entries@[i]);
                            assert(old(self).entries@[j] == self.entries@[j]);
                        }
                    }
                    assert forall|k: Seq<char>| #[trigger] self@.contains_key(k) == old(self)@.insert(n, id).contains_key(k) by {
                        if old(self)@.contains_key(k) {
                            let j = choose|j: int| 0 <= j < old(self).entries.len() && #[trigger] old(self).entries@[j].0@ == k;
                            assert(self.entries@[j].0@ == k);
                        }
                        if k == n {
                            assert(self.entries@[last].0@ == k);
                        }
                        if self@.contains_key(k) {
                            let j = choose|j: int| 0 <= j < self.entries.len() && #[trigger] self.entries@[j].0@ == k;
                            if j != last {
                                assert(old(self).entries@[j].0@ == k);
                            }
                        }
                    }
                    assert forall|k: Seq<char>| #[trigger] self@.contains_key(k) implies self@[k] == old(self)@.insert(n, id)[k] by {
                        let j = choose|j: int| 0 <= j < self.entries.len() && #[trigger] self.entries@[j].0@ == k;
                        self.lemma_at(j);
                        if j != last {
                            assert(old(self).entries@[j] == self.entries@[j]);
                            old(self).lemma_at(j);
                        }
                    }
                    assert(self@ =~= old(self)@.insert(n, id));
                }
            },
        }
    }

    /// Drops `name`, returning the handle it was registered for.
    pub fn remove_name(&mut self, name: &str) -> (r: Option<u32>)
        requires
            old(self).wf(),
        ensures
            final(self).wf(),
            final(self)@ == old(self)@.remove(name@),
            match r {
                Some(id) => old(self)@.contains_key(name@) && old(self)@[name@] == id,
                None => !old(self)@.contains_key(name@),
            },
    {
        match self.find(name) {
            Some(i) => {
                proof {
                    self.lemma_at(i as int);
                }
                let ghost oe = self.entries@;
                let removed = self.entries.remove(i);
                proof {
                    assert forall|a: int, b: int|
                        0 <= a < self.entries.len() && 0 <= b < self.entries.len() && a != b
                            implies (#[trigger] self.entries@[a]).0@ != (#[trigger] self.entries@[b]).0@ by {
                        let oa = if a < i { a } else { a + 1 };
                        let ob = if b < i { b } else { b + 1 };
                        assert(self.entries@[a] == oe[oa]);
                        assert(self.entries@[b] == oe[ob]);
                    }
                    assert forall|k: Seq<char>| #[trigger] self@.contains_key(k) == old(self)@.remove(name@).contains_key(k) by {
                        if self@.contains_key(k) {
                            let j = choose|j: int| 0 <= j < self.entries.len() && #[trigger] self.entries@[j].0@ == k;
                            let oj = if j < i { j } else { j + 1 };
                            assert(oe[oj].0@ == k);
                            assert(oj != i);
                        }
                        if old(self)@.contains_key(k) && k != name@ {
                            let j = choose|j: int| 0 <= j < oe.len() && #[trigger] oe[j].0@ == k;
                            let nj = if j < i { j } else { j - 1 };
                            assert(self.entries@[nj].0@ == k);
                        }
                    }
                    assert forall|k: Seq<char>| #[trigger] self@.contains_key(k) implies self@[k] == old(self)@.remove(name@)[k] by {
                        let j = choose|j: int| 0 <= j < self.entries.len() && #[trigger] self.entries@[j].0@ == k;
                        self.lemma_at(j);
                        let oj = if j < i { j } else { j + 1 };
                        assert(oe[oj] == self.entries@[j]);
                        old(self).lemma_at(oj);
                    }
                    assert(self@ =~= old(self)@.remove(name@));
                }
                Some(removed.1)
            },
            None => {
                proof {
                    assert(self@ =~= old(self)@.remove(name@));
                }
                None
            },
        }
    }

    /// Every registered name, each once, in registration order.
    pub fn names(&self) -> (r: Vec<&String>)
        requires
            self.wf(),
        ensures
            r.len() == self@.dom().len(),
            forall|i: int| 0 <= i < r.len() ==> self@.contains_key((#[trigger] r@[i])@),
            forall|i: int, j: int| 0 <= i < r.len() && 0 <= j < r.len() && i != j ==> (#[trigger] r@[i])@ != (#[trigger] r@[j])@,
    {
        let mut out: Vec<&String> = Vec::new();
        let mut i: usize = 0;
        while i < self.entries.len()
            invariant
                self.wf(),
                i <= self.entries.len(),
                out.len() == i,
                forall|j: int| 0 <= j < i ==> (#[trigger] out@[j])@ == self.entries@[j].0@,
            decreases self.entries.len() - i,
        {
            out.push(&self.entries[i].0);
            i = i + 1;
        }
        proof {
            let ks = self.entries@.map_values(|e: (String, u32)| e.0@);
            assert forall|a: int, b: int| 0 <= a < ks.len() && 0 <= b < ks.len() && a != b implies ks[a] != ks[b] by {
                assert(self.entries@[a].0@ != self.entries@[b].0@);
            }
            assert(ks.to_set() =~= self@.dom()) by {
                assert forall|k: Seq<char>| ks.to_set().contains(k) implies self@.dom().contains(k) by {
                    let j = choose|j: int| 0 <= j < ks.len() && ks[j] == k;
                    assert(self.entries@[j].0@ == k);
                }
                assert forall|k: Seq<char>| self@.dom().contains(k) implies ks.to_set().contains(k) by {
                    let j = choose|j: int| 0 <= j < self.entries.len() && #[trigger] self.entries@[j].0@ == k;
                    assert(ks[j] == k);
                }
            }
            ks.unique_seq_to_set();
            assert forall|a: int| 0 <= a < out.len() implies self@.contains_key((#[trigger] out@[a])@) by {
                self.lemma_at(a);
            }
            assert forall|a: int, b: int| 0 <= a < out.len() && 0 <= b < out.len() && a != b
                implies (#[trigger] out@[a])@ != (#[trigger] out@[b])@ by {
                assert(self.entries@[a].0@ != self.entries@[b].0@);
            }
        }
        out
    }

    /// Drops every name registered for `id`.
    pub fn remove_id(&mut self, id: u32)
        requires
            old(self).wf(),
        ensures
            final(self).wf(),
            final(self)@ == old(self)@.restrict(
                old(self)@.dom().filter(|k: Seq<char>| old(self)@[k] != id),
            ),
    {
        let ghost old_self = *old(self);
        let mut kept: Vec<(String, u32)> = Vec::new();
        let mut i: usize = 0;
        let ghost mut src: Seq<int> = Seq::empty();
        while i < self.entries.len()
            invariant
                old_self.wf(),
                self.entries@ == old_self.entries@,
                i <= self.entries.len(),
                src.len() == kept.len(),
                forall|j: int| 0 <= j < src.len() ==> 0 <= #[trigger] src[j] < i && self.entries@[src[j]] == kept@[j],
                forall|a: int, b: int| 0 <= a < b < src.len() ==> #[trigger] src[a] < #[trigger] src[b],
                forall|j: int| 0 <= j < kept.len() ==> (#[trigger] kept@[j]).1 != id,
                forall|j: int| 0 <= j < i && (#[trigger] self.entries@[j]).1 != id ==> exists|t: int| 0 <= t < src.len() && src[t] == j,
            decreases self.entries.len() - i,
        {
            let ghost prev = src;
            if self.entries[i].1 != id {
                let e = (self.entries[i].0.clone(), self.entries[i].1);
                proof {
                    src = src.push(i as int);
                }
                kept.push(e);
            }
            proof {
                assert forall|j: int| 0 <= j < i + 1 && (#[trigger] self.entries@[j]).1 != id implies exists|t: int| 0 <= t < src.len() && src[t] == j by {
                    if j == i {
                        assert(src[src.len() - 1] == j);
                    } else {
                        let t = choose|t: int| 0 <= t < prev.len() && prev[t] == j;
                        assert(src[t] == j);
                    }
                }
            }
            i = i + 1;
        }
        self.entries = kept;
        proof {
            assert forall|a: int, b: int|
                0 <= a < self.entries.len() && 0 <= b < self.entries.len() && a != b
                    implies (#[trigger] self.entries@[a]).0@ != (#[trigger] self.entries@[b]).0@ by {
                if a < b {
                    assert(src[a] < src[b]);
                } else {
                    assert(src[b] < src[a]);
                }
            }
            let target = old_self@.restrict(old_self@.dom().filter(|k: Seq<char>| old_self@[k] != id));
            assert forall|k: Seq<char>| #[trigger] self@.contains_key(k) == target.contains_key(k) by {
                if self@.contains_key(k) {
                    let j = choose|j: int| 0 <= j < self.entries.len() && #[trigger] self.entries@[j].0@ == k;
                    old_self.lemma_at(src[j]);
                }
                if target.contains_key(k) {
                    let j = choose|j: int| 0 <= j < old_self.entries.len() && #[trigger] old_self.entries@[j].0@ == k;
                    old_self.lemma_at(j);
                    let t = choose|t: int| 0 <= t < src.len() && src[t] == j;
                    assert(self.entries@[t].0@ == k);
                }
            }
            assert forall|k: Seq<char>| #[trigger] self@.contains_key(k) implies self@[k] == target[k] by {
                let j = choose|j: int| 0 <= j < self.entries.len() && #[trigger] self.entries@[j].0@ == k;
                self.lemma_at(j);
                old_self.lemma_at(src[j]);
            }
            assert(self@ =~= target);
        }
    }
}

} // verus!
