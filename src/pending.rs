use vstd::prelude::*;

use crate::content::ContentId;

verus! {

/// The table of block queries that callers wait on: for each content
/// identifier, the waiters in the order in which they registered.
pub struct PendingQueries<W> {
    entries: Vec<(ContentId, Vec<W>)>,
    model: Ghost<Map<Seq<u8>, Seq<W>>>,
}

/// The table after `w` registered for `k`: appended to the waiters of `k`,
/// or as the first one.
pub open spec fn registered<W>(m: Map<Seq<u8>, Seq<W>>, k: Seq<u8>, w: W) -> Map<Seq<u8>, Seq<W>> {
    if m.contains_key(k) {
        m.insert(k, m[k].push(w))
    } else {
        m.insert(k, seq![w])
    }
}

/// The number of waiters on `k`.
pub open spec fn waiting_on<W>(m: Map<Seq<u8>, Seq<W>>, k: Seq<u8>) -> nat {
    if m.contains_key(k) {
        m[k].len()
    } else {
        0
    }
}

impl<W> View for PendingQueries<W> {
    type V = Map<Seq<u8>, Seq<W>>;

    closed spec fn view(&self) -> Map<Seq<u8>, Seq<W>> {
        self.model@
    }
}

impl<W> PendingQueries<W> {
    /// The entries hold each identifier once, with at least one waiter, and
    /// agree with the model.
    pub closed spec fn wf(&self) -> bool {
        &&& forall|i: int, j: int|
            0 <= i < j < self.entries@.len() ==> #[trigger] self.entries@[i].0@
                != #[trigger] self.entries@[j].0@
        &&& forall|i: int|
            0 <= i < self.entries@.len() ==> self.model@.contains_key(#[trigger] self.entries@[i].0@)
                && self.model@[self.entries@[i].0@] == self.entries@[i].1@
        &&& forall|k: Seq<u8>|
            #[trigger] self.model@.contains_key(k) ==> exists|i: int|
                0 <= i < self.entries@.len() && #[trigger] self.entries@[i].0@ == k
        &&& forall|k: Seq<u8>| #[trigger] self.model@.contains_key(k) ==> self.model@[k].len() > 0
    }

    /// Every identifier in the table has at least one waiter.
    pub proof fn lemma_waiters_nonempty(&self, k: Seq<u8>)
        requires
            self.wf(),
            self@.contains_key(k),
        ensures
            self@[k].len() > 0,
    {
    }

    /// An empty table.
    pub fn new() -> (r: Self)
        ensures
            r.wf(),
            r@ == Map::<Seq<u8>, Seq<W>>::empty(),
    {
        PendingQueries { entries: Vec::new(), model: Ghost(Map::empty()) }
    }

    /// The number of identifiers that have waiters.
    pub fn len(&self) -> (r: usize)
        requires
            self.wf(),
        ensures
            r == self@.dom().len(),
    {
        proof {
            self.lemma_dom_len();
        }
        self.entries.len()
    }

    proof fn lemma_dom_len(&self)
        requires
            self.wf(),
        ensures
            self@.dom().finite(),
            self@.dom().len() == self.entries@.len(),
    {
        let keys = self.entries@.map_values(|e: (ContentId, Vec<W>)| e.0@);
        assert(self@.dom() =~= keys.to_set()) by {
            assert forall|k: Seq<u8>| self@.dom().contains(k) implies keys.to_set().contains(k) by {
                let i = choose|i: int| 0 <= i < self.entries@.len() && self.entries@[i].0@ == k;
                assert(keys[i] == k);
            }
            assert forall|k: Seq<u8>| keys.to_set().contains(k) implies self@.dom().contains(k) by {
                let i = choose|i: int| 0 <= i < keys.len() && keys[i] == k;
                assert(self.entries@[i].0@ == k);
            }
        }
        assert(keys.no_duplicates()) by {
            assert forall|i: int, j: int| 0 <= i < keys.len() && 0 <= j < keys.len() && i != j
                implies keys[i] != keys[j] by {
                if i < j {
                    assert(self.entries@[i].0@ != self.entries@[j].0@);
                } else {
                    assert(self.entries@[j].0@ != self.entries@[i].0@);
                }
            }
        }
        keys.unique_seq_to_set();
    }

    /// The position of the entry for `cid`, if there is one.
    fn find(&self, cid: &ContentId) -> (r: Option<usize>)
        requires
            self.wf(),
        ensures
            r is Some <==> self@.contains_key(cid@),
            r is Some ==> r->0 < self.entries@.len() && self.entries@[r->0 as int].0@ == cid@,
    {
        let mut i: usize = 0;
        while i < self.entries.len()
            invariant
                self.wf(),
                0 <= i <= self.entries@.len(),
                forall|j: int| 0 <= j < i ==> self.entries@[j].0@ != cid@,
            decreases self.entries@.len() - i,
        {
            if self.entries[i].0.same_as(cid) {
                return Some(i);
            }
            i = i + 1;
        }
        proof {
            if self@.contains_key(cid@) {
                let j = choose|j: int| 0 <= j < self.entries@.len() && self.entries@[j].0@ == cid@;
                assert(self.entries@[j].0@ == cid@);
            }
        }
        None
    }

    /// Whether `cid` has waiters.
    pub fn contains(&self, cid: &ContentId) -> (r: bool)
        requires
            self.wf(),
        ensures
            r == self@.contains_key(cid@),
    {
        self.find(cid).is_some()
    }

    /// The number of waiters on `cid`.
    pub fn waiter_count(&self, cid: &ContentId) -> (r: usize)
        requires
            self.wf(),
        ensures
            r == waiting_on(self@, cid@),
    {
        match self.find(cid) {
            Some(i) => self.entries[i].1.len(),
            None => 0,
        }
    }

    /// Appends `waiter` to the waiters on `cid`, making a new entry where `cid`
    /// had none.
    pub fn register(&mut self, cid: ContentId, waiter: W)
        requires
            old(self).wf(),
        ensures
            final(self).wf(),
            final(self)@ == registered(old(self)@, cid@, waiter),
    {
        let ghost k = cid@;
        let ghost m0 = self.model@;
        match self.find(&cid) {
            Some(i) => {
                let ghost e0 = self.entries@;
                let (c, mut list) = self.entries.remove(i);
                list.push(waiter);
                self.entries.push((c, list));
                self.model = Ghost(m0.insert(k, m0[k].push(waiter)));
                proof {
                    let e = self.entries@;
                    let n = e.len() - 1;
                    assert(e0[i as int].0@ == k);
                    assert(m0.contains_key(k));
                    assert(e[n].0@ == k);
                    assert(e[n].1@ == m0[k].push(waiter));
                    assert forall|j: int| 0 <= j < n implies e[j] == e0[if j < i { j } else { j + 1 }] by {
                    }
                    assert forall|a: int, b: int|
                        0 <= a < b < e.len() implies #[trigger] e[a].0@ != #[trigger] e[b].0@ by {
                        let a0 = if a < i { a } else { a + 1 };
                        let b0 = if b < i { b } else { b + 1 };
                        assert(e[a] == e0[a0]);
                        if b < n {
                            assert(e[b] == e0[b0]);
                            assert(e0[a0].0@ != e0[b0].0@);
                        } else {
                            assert(a0 != i);
                            if a0 < i {
                                assert(e0[a0].0@ != e0[i as int].0@);
                            } else {
                                assert(e0[i as int].0@ != e0[a0].0@);
                            }
                        }
                    }
                    assert forall|j: int| 0 <= j < e.len() implies self.model@.contains_key(
                        #[trigger] e[j].0@,
                    ) && self.model@[e[j].0@] == e[j].1@ by {
                        if j < n {
                            let j0 = if j < i { j } else { j + 1 };
                            assert(e[j] == e0[j0]);
                            if j0 < i {
                                assert(e0[j0].0@ != e0[i as int].0@);
                            } else {
                                assert(e0[i as int].0@ != e0[j0].0@);
                            }
                            assert(m0.contains_key(e0[j0].0@));
                        }
                    }
                    assert forall|k2: Seq<u8>| #[trigger] self.model@.contains_key(k2) implies exists|
                        j: int,
                    | 0 <= j < e.len() && #[trigger] e[j].0@ == k2 by {
                        if k2 == k {
                            assert(e[n].0@ == k2);
                        } else {
                            assert(m0.contains_key(k2));
                            let j0 = choose|j0: int| 0 <= j0 < e0.len() && #[trigger] e0[j0].0@ == k2;
                            assert(j0 != i);
                            let j = if j0 < i { j0 } else { j0 - 1 };
                            assert(e[j] == e0[j0]);
                        }
                    }
                    assert forall|k2: Seq<u8>| #[trigger] self.model@.contains_key(k2) implies self.model@[k2].len() > 0 by {
                        if k2 != k {
                            assert(m0.contains_key(k2));
                        }
                    }
                }
            },
            None => {
                let ghost e0 = self.entries@;
                let mut list: Vec<W> = Vec::new();
                list.push(waiter);
                self.entries.push((cid, list));
                self.model = Ghost(m0.insert(k, seq![waiter]));
                proof {
                    let n = self.entries@.len() - 1;
                    assert forall|i: int, j: int|
                        0 <= i < j < self.entries@.len() implies #[trigger] self.entries@[i].0@
                        != #[trigger] self.entries@[j].0@ by {
                        if j < n {
                            assert(e0[i] == self.entries@[i] && e0[j] == self.entries@[j]);
                        } else {
                            assert(e0[i] == self.entries@[i]);
                            assert(m0.contains_key(e0[i].0@));
                        }
                    }
                    assert forall|i: int| 0 <= i < self.entries@.len() implies self.model@.contains_key(
                        #[trigger] self.entries@[i].0@,
                    ) && self.model@[self.entries@[i].0@] == self.entries@[i].1@ by {
                        if i < n {
                            assert(e0[i] == self.entries@[i]);
                            assert(m0.contains_key(e0[i].0@));
                        }
                    }
                    assert forall|k2: Seq<u8>| #[trigger] self.model@.contains_key(k2) implies exists|
                        i: int,
                    | 0 <= i < self.entries@.len() && #[trigger] self.entries@[i].0@ == k2 by {
                        if k2 == k {
                            assert(self.entries@[n].0@ == k2);
                        } else {
                            let i = choose|i: int| 0 <= i < e0.len() && #[trigger] e0[i].0@ == k2;
                            assert(self.entries@[i] == e0[i]);
                        }
                    }
                }
            },
        }
    }

    /// Removes the entry for `cid` and hands out its waiters, in the order in
    /// which they registered; `None` where `cid` had none.
    pub fn take(&mut self, cid: &ContentId) -> (r: Option<Vec<W>>)
        requires
            old(self).wf(),
        ensures
            final(self).wf(),
            r is Some <==> old(self)@.contains_key(cid@),
            r is Some ==> r->0@ == old(self)@[cid@] && r->0@.len() > 0,
            final(self)@ == old(self)@.remove(cid@),
    {
        let ghost m0 = self.model@;
        let ghost e0 = self.entries@;
        match self.find(cid) {
            Some(i) => {
                let (_c, list) = self.entries.remove(i);
                self.model = Ghost(m0.remove(cid@));
                proof {
                    let e = self.entries@;
                    assert(e == e0.remove(i as int));
                    assert forall|a: int, b: int|
                        0 <= a < b < e.len() implies #[trigger] e[a].0@ != #[trigger] e[b].0@ by {
                        let a0 = if a < i { a } else { a + 1 };
                        let b0 = if b < i { b } else { b + 1 };
                        assert(e[a] == e0[a0] && e[b] == e0[b0]);
                        assert(e0[a0].0@ != e0[b0].0@);
                    }
                    assert forall|j: int| 0 <= j < e.len() implies self.model@.contains_key(
                        #[trigger] e[j].0@,
                    ) && self.model@[e[j].0@] == e[j].1@ by {
                        let j0 = if j < i { j } else { j + 1 };
                        assert(e[j] == e0[j0]);
                        assert(e0[j0].0@ != e0[i as int].0@);
                        assert(m0.contains_key(e0[j0].0@));
                    }
                    assert forall|k2: Seq<u8>| #[trigger] self.model@.contains_key(k2) implies exists|
                        j: int,
                    | 0 <= j < e.len() && #[trigger] e[j].0@ == k2 by {
                        assert(m0.contains_key(k2));
                        let j0 = choose|j0: int| 0 <= j0 < e0.len() && #[trigger] e0[j0].0@ == k2;
                        assert(j0 != i);
                        let j = if j0 < i { j0 } else { j0 - 1 };
                        assert(e[j] == e0[j0]);
                    }
                    assert(m0.contains_key(e0[i as int].0@));
                }
                Some(list)
            },
            None => {
                assert(m0.remove(cid@) =~= m0);
                None
            },
        }
    }
}

} // verus!
