use vstd::prelude::*;

verus! {

/// A map from strings to values, held as a list of entries with pairwise distinct keys.
pub struct StrMap<V> {
    entries: Vec<(String, V)>,
    contents: Ghost<Map<Seq<char>, V>>,
}

impl<V> View for StrMap<V> {
    type V = Map<Seq<char>, V>;

    closed spec fn view(&self) -> Map<Seq<char>, V> {
        self.contents@
    }
}

impl<V> StrMap<V> {
    /// Keys in the order the entries are held.
    pub closed spec fn key_seq(&self) -> Seq<Seq<char>> {
        self.entries@.map_values(|e: (String, V)| e.0@)
    }

    pub closed spec fn wf(&self) -> bool {
        &&& forall|i: int|
            0 <= i < self.entries@.len() ==> #[trigger] self.contents@.contains_key(
                self.entries@[i].0@,
            ) && self.contents@[self.entries@[i].0@] == self.entries@[i].1
        &&& forall|k: Seq<char>|
            #[trigger] self.contents@.contains_key(k) ==> exists|i: int|
                0 <= i < self.entries@.len() && self.entries@[i].0@ == k
        &&& forall|i: int, j: int|
            0 <= i < self.entries@.len() && 0 <= j < self.entries@.len() && i != j
                ==> self.entries@[i].0@ != self.entries@[j].0@
    }

    pub proof fn lemma_keys(&self)
        requires
            self.wf(),
        ensures
            self.key_seq().len() == self.view().dom().len(),
            self.key_seq().no_duplicates(),
            self.key_seq().to_set() == self.view().dom(),
            self.view().dom().finite(),
    {
        broadcast use vstd::seq_lib::seq_to_set_is_finite;

        let ks = self.key_seq();
        assert forall|k: Seq<char>| ks.to_set().contains(k) <==> self.view().dom().contains(k) by {
            if self.view().dom().contains(k) {
                assert(self.contents@.contains_key(k));
                let i = choose|i: int| 0 <= i < self.entries@.len() && self.entries@[i].0@ == k;
                assert(ks[i] == k);
            }
            if ks.to_set().contains(k) {
                let i = choose|i: int| 0 <= i < ks.len() && ks[i] == k;
                assert(self.contents@.contains_key(self.entries@[i].0@));
            }
        }
        assert(ks.to_set() =~= self.view().dom());
        assert(ks.no_duplicates()) by {
            assert forall|i: int, j: int|
                0 <= i < ks.len() && 0 <= j < ks.len() && i != j implies ks[i] != ks[j] by {
                assert(ks[i] == self.entries@[i].0@);
                assert(ks[j] == self.entries@[j].0@);
            }
        }
        ks.unique_seq_to_set();
    }

    pub fn new() -> (r: Self)
        ensures
            r.wf(),
            r@ == Map::<Seq<char>, V>::empty(),
    {
        StrMap { entries: Vec::new(), contents: Ghost(Map::empty()) }
    }

    pub fn len(&self) -> (r: usize)
        requires
            self.wf(),
        ensures
            r == self@.len(),
            r == self.key_seq().len(),
    {
        proof {
            self.lemma_keys();
        }
        self.entries.len()
    }

    fn index_of(&self, k: &String) -> (r: Option<usize>)
        requires
            self.wf(),
        ensures
            match r {
                Some(i) => i < self.entries@.len() && self.entries@[i as int].0@ == k@,
                None => !self@.contains_key(k@),
            },
    {
        let mut i: usize = 0;
        while i < self.entries.len()
            invariant
                self.wf(),
                i <= self.entries@.len(),
                forall|j: int| 0 <= j < i ==> self.entries@[j].0@ != k@,
            decreases self.entries@.len() - i,
        {
            if self.entries[i].0 == *k {
                return Some(i);
            }
            i = i + 1;
        }
        proof {
            if self.contents@.contains_key(k@) {
                let j = choose|j: int| 0 <= j < self.entries@.len() && self.entries@[j].0@ == k@;
            }
        }
        None
    }

    pub fn contains_key(&self, k: &String) -> (r: bool)
        requires
            self.wf(),
        ensures
            r == self@.contains_key(k@),
    {
        match self.index_of(k) {
            Some(i) => {
                proof {
                    assert(self.contents@.contains_key(self.entries@[i as int].0@));
                }
                true
            },
            None => false,
        }
    }

    pub fn get(&self, k: &String) -> (r: Option<&V>)
        requires
            self.wf(),
        ensures
            match r {
                Some(v) => self@.contains_key(k@) && *v == self@[k@],
                None => !self@.contains_key(k@),
            },
    {
        match self.index_of(k) {
            Some(i) => {
                proof {
                    assert(self.contents@.contains_key(self.entries@[i as int].0@));
                }
                Some(&self.entries[i].1)
            },
            None => None,
        }
    }

    /// Key of the entry at position `i` (positions follow `key_seq`).
    pub fn key_at(&self, i: usize) -> (r: &String)
        requires
            self.wf(),
            i < self.key_seq().len(),
        ensures
            r@ == self.key_seq()[i as int],
            self@.contains_key(r@),
    {
        proof {
            assert(self.contents@.contains_key(self.entries@[i as int].0@));
        }
        &self.entries[i].0
    }

    /// Value of the entry at position `i`.
    pub fn value_at(&self, i: usize) -> (r: &V)
        requires
            self.wf(),
            i < self.key_seq().len(),
        ensures
            self@.contains_key(self.key_seq()[i as int]),
            *r == self@[self.key_seq()[i as int]],
    {
        proof {
            assert(self.contents@.contains_key(self.entries@[i as int].0@));
        }
        &self.entries[i].1
    }

    pub fn insert(&mut self, k: String, v: V)
        requires
            old(self).wf(),
        ensures
            final(self).wf(),
            final(self)@ == old(self)@.insert(k@, v),
            old(self)@.contains_key(k@) ==> final(self).key_seq() == old(self).key_seq(),
            !old(self)@.contains_key(k@) ==> final(self).key_seq() == old(self).key_seq().push(
                k@,
            ),
    {
        let ghost kv = k@;
        let ghost vv = v;
        match self.index_of(&k) {
            Some(i) => {
                self.entries.set(i, (k, v));
                proof {
                    self.contents@ = self.contents@.insert(kv, vv);
                    let o = old(self).entries@;
                    let n = self.entries@;
                    assert forall|j: int| 0 <= j < n.len() implies #[trigger] self.contents@.contains_key(
                        n[j].0@,
                    ) && self.contents@[n[j].0@] == n[j].1 by {
                        if j != i {
                            assert(old(self).contents@.contains_key(o[j].0@));
                        }
                    }
                    assert forall|q: Seq<char>| #[trigger]
                        self.contents@.contains_key(q) implies exists|j: int|
                        0 <= j < n.len() && n[j].0@ == q by {
                        if q != kv {
                            assert(old(self).contents@.contains_key(q));
                            let j = choose|j: int| 0 <= j < o.len() && o[j].0@ == q;
                            assert(n[j].0@ == q);
                        } else {
                            assert(n[i as int].0@ == q);
                        }
                    }
                    assert(self.key_seq() =~= old(self).key_seq());
                }
            },
            None => {
                self.entries.push((k, v));
                proof {
                    self.contents@ = self.contents@.insert(kv, vv);
                    let o = old(self).entries@;
                    let n = self.entries@;
                    assert forall|j: int| 0 <= j < n.len() implies #[trigger] self.contents@.contains_key(
                        n[j].0@,
                    ) && self.contents@[n[j].0@] == n[j].1 by {
                        if j < o.len() {
                            assert(n[j] == o[j]);
                            assert(old(self).contents@.contains_key(o[j].0@));
                        }
                    }
                    assert forall|q: Seq<char>| #[trigger]
                        self.contents@.contains_key(q) implies exists|j: int|
                        0 <= j < n.len() && n[j].0@ == q by {
                        if q != kv {
                            assert(old(self).contents@.contains_key(q));
                            let j = choose|j: int| 0 <= j < o.len() && o[j].0@ == q;
                            assert(n[j] == o[j]);
                        } else {
                            assert(n[o.len() as int].0@ == q);
                        }
                    }
                    assert forall|a: int, b: int|
                        0 <= a < n.len() && 0 <= b < n.len() && a != b implies n[a].0@ != n[b].0@ by {
                        if a < o.len() && b < o.len() {
                            assert(n[a] == o[a] && n[b] == o[b]);
                        } else if a < o.len() {
                            assert(n[a] == o[a]);
                            assert(old(self).contents@.contains_key(o[a].0@));
                        } else {
                            assert(n[b] == o[b]);
                            assert(old(self).contents@.contains_key(o[b].0@));
                        }
                    }
                    assert(self.key_seq() =~= old(self).key_seq().push(kv));
                }
            },
        }
    }

    /// Removes the entry of `k` and hands its value back.
    pub fn take(&mut self, k: &String) -> (r: Option<V>)
        requires
            old(self).wf(),
        ensures
            final(self).wf(),
            final(self)@ == old(self)@.remove(k@),
            match r {
                Some(v) => old(self)@.contains_key(k@) && v == old(self)@[k@],
                None => !old(self)@.contains_key(k@),
            },
    {
        match self.index_of(k) {
            Some(i) => {
                let e = self.entries.remove(i);
                proof {
                    let o = old(self).entries@;
                    let n = self.entries@;
                    assert(old(self).contents@.contains_key(o[i as int].0@));
                    self.contents@ = self.contents@.remove(k@);
                    assert forall|j: int| 0 <= j < n.len() implies #[trigger] self.contents@.contains_key(
                        n[j].0@,
                    ) && self.contents@[n[j].0@] == n[j].1 by {
                        let j2 = if j < i { j } else { j + 1 };
                        assert(n[j] == o[j2]);
                        assert(o[j2].0@ != o[i as int].0@);
                        assert(old(self).contents@.contains_key(o[j2].0@));
                    }
                    assert forall|q: Seq<char>| #[trigger]
                        self.contents@.contains_key(q) implies exists|j: int|
                        0 <= j < n.len() && n[j].0@ == q by {
                        assert(old(self).contents@.contains_key(q));
                        let j = choose|j: int| 0 <= j < o.len() && o[j].0@ == q;
                        assert(q != k@);
                        assert(j != i);
                        let w = if j < i { j } else { j - 1 };
                        assert(n[w] == o[j]);
                        assert(0 <= w < n.len() && n[w].0@ == q);
                    }
                    assert(forall|q: Seq<char>| #[trigger] self.contents@.contains_key(q) ==> exists|i: int|
                    0 <= i < n.len() && n[i].0@ == q);
                    assert(n == self.entries@);
                    assert forall|a: int, b: int|
                        0 <= a < n.len() && 0 <= b < n.len() && a != b implies n[a].0@ != n[b].0@ by {
                        let a2 = if a < i { a } else { a + 1 };
                        let b2 = if b < i { b } else { b + 1 };
                        assert(n[a] == o[a2] && n[b] == o[b2]);
                    }
                }
                Some(e.1)
            },
            None => {
                proof {
                    assert(self.contents@.remove(k@) =~= self.contents@);
                }
                None
            },
        }
    }

    /// Removes the entry of `k`, if there is one.
    pub fn remove(&mut self, k: &String)
        requires
            old(self).wf(),
        ensures
            final(self).wf(),
            final(self)@ == old(self)@.remove(k@),
    {
        let _ = self.take(k);
    }
}

/// A map from packet identifiers to values, held as a list of entries with pairwise
/// distinct keys.
pub struct PkidMap<V> {
    entries: Vec<(u16, V)>,
    contents: Ghost<Map<u16, V>>,
}

impl<V> View for PkidMap<V> {
    type V = Map<u16, V>;

    closed spec fn view(&self) -> Map<u16, V> {
        self.contents@
    }
}

impl<V> PkidMap<V> {
    /// Keys in the order the entries are held.
    pub closed spec fn key_seq(&self) -> Seq<u16> {
        self.entries@.map_values(|e: (u16, V)| e.0)
    }

    pub closed spec fn wf(&self) -> bool {
        &&& forall|i: int|
            0 <= i < self.entries@.len() ==> #[trigger] self.contents@.contains_key(
                self.entries@[i].0,
            ) && self.contents@[self.entries@[i].0] == self.entries@[i].1
        &&& forall|k: u16|
            #[trigger] self.contents@.contains_key(k) ==> exists|i: int|
                0 <= i < self.entries@.len() && self.entries@[i].0 == k
        &&& forall|i: int, j: int|
            0 <= i < self.entries@.len() && 0 <= j < self.entries@.len() && i != j
                ==> self.entries@[i].0 != self.entries@[j].0
    }

    pub proof fn lemma_keys(&self)
        requires
            self.wf(),
        ensures
            self.key_seq().len() == self.view().dom().len(),
            self.key_seq().no_duplicates(),
            self.key_seq().to_set() == self.view().dom(),
            self.view().dom().finite(),
    {
        broadcast use vstd::seq_lib::seq_to_set_is_finite;

        let ks = self.key_seq();
        assert forall|k: u16| ks.to_set().contains(k) <==> self.view().dom().contains(k) by {
            if self.view().dom().contains(k) {
                assert(self.contents@.contains_key(k));
                let i = choose|i: int| 0 <= i < self.entries@.len() && self.entries@[i].0 == k;
                assert(ks[i] == k);
            }
            if ks.to_set().contains(k) {
                let i = choose|i: int| 0 <= i < ks.len() && ks[i] == k;
                assert(self.contents@.contains_key(self.entries@[i].0));
            }
        }
        assert(ks.to_set() =~= self.view().dom());
        assert(ks.no_duplicates()) by {
            assert forall|i: int, j: int|
                0 <= i < ks.len() && 0 <= j < ks.len() && i != j implies ks[i] != ks[j] by {
                assert(ks[i] == self.entries@[i].0);
                assert(ks[j] == self.entries@[j].0);
            }
        }
        ks.unique_seq_to_set();
    }

    pub fn new() -> (r: Self)
        ensures
            r.wf(),
            r@ == Map::<u16, V>::empty(),
    {
        PkidMap { entries: Vec::new(), contents: Ghost(Map::empty()) }
    }

    pub fn len(&self) -> (r: usize)
        requires
            self.wf(),
        ensures
            r == self@.len(),
            r == self.key_seq().len(),
    {
        proof {
            self.lemma_keys();
        }
        self.entries.len()
    }

    fn index_of(&self, k: u16) -> (r: Option<usize>)
        requires
            self.wf(),
        ensures
            match r {
                Some(i) => i < self.entries@.len() && self.entries@[i as int].0 == k,
                None => !self@.contains_key(k),
            },
    {
        let mut i: usize = 0;
        while i < self.entries.len()
            invariant
                self.wf(),
                i <= self.entries@.len(),
                forall|j: int| 0 <= j < i ==> self.entries@[j].0 != k,
            decreases self.entries@.len() - i,
        {
            if self.entries[i].0 == k {
                return Some(i);
            }
            i = i + 1;
        }
        proof {
            if self.contents@.contains_key(k) {
                let j = choose|j: int| 0 <= j < self.entries@.len() && self.entries@[j].0 == k;
            }
        }
        None
    }

    pub fn contains_key(&self, k: u16) -> (r: bool)
        requires
            self.wf(),
        ensures
            r == self@.contains_key(k),
    {
        match self.index_of(k) {
            Some(i) => {
                proof {
                    assert(self.contents@.contains_key(self.entries@[i as int].0));
                }
                true
            },
            None => false,
        }
    }

    pub fn get(&self, k: u16) -> (r: Option<&V>)
        requires
            self.wf(),
        ensures
            match r {
                Some(v) => self@.contains_key(k) && *v == self@[k],
                None => !self@.contains_key(k),
            },
    {
        match self.index_of(k) {
            Some(i) => {
                proof {
                    assert(self.contents@.contains_key(self.entries@[i as int].0));
                }
                Some(&self.entries[i].1)
            },
            None => None,
        }
    }

    /// Key of the entry at position `i` (positions follow `key_seq`).
    pub fn key_at(&self, i: usize) -> (r: u16)
        requires
            self.wf(),
            i < self.key_seq().len(),
        ensures
            r == self.key_seq()[i as int],
            self@.contains_key(r),
    {
        proof {
            assert(self.contents@.contains_key(self.entries@[i as int].0));
        }
        self.entries[i].0
    }

    /// Value of the entry at position `i`.
    pub fn value_at(&self, i: usize) -> (r: &V)
        requires
            self.wf(),
            i < self.key_seq().len(),
        ensures
            self@.contains_key(self.key_seq()[i as int]),
            *r == self@[self.key_seq()[i as int]],
    {
        proof {
            assert(self.contents@.contains_key(self.entries@[i as int].0));
        }
        &self.entries[i].1
    }

    pub fn insert(&mut self, k: u16, v: V)
        requires
            old(self).wf(),
        ensures
            final(self).wf(),
            final(self)@ == old(self)@.insert(k, v),
            old(self)@.contains_key(k) ==> final(self).key_seq() == old(self).key_seq(),
            !old(self)@.contains_key(k) ==> final(self).key_seq() == old(self).key_seq().push(
                k,
            ),
    {
        let ghost kv = k;
        let ghost vv = v;
        match self.index_of(k) {
            Some(i) => {
                self.entries.set(i, (k, v));
                proof {
                    self.contents@ = self.contents@.insert(kv, vv);
                    let o = old(self).entries@;
                    let n = self.entries@;
                    assert forall|j: int| 0 <= j < n.len() implies #[trigger] self.contents@.contains_key(
                        n[j].0,
                    ) && self.contents@[n[j].0] == n[j].1 by {
                        if j != i {
                            assert(old(self).contents@.contains_key(o[j].0));
                        }
                    }
                    assert forall|q: u16| #[trigger]
                        self.contents@.contains_key(q) implies exists|j: int|
                        0 <= j < n.len() && n[j].0 == q by {
                        if q != kv {
                            assert(old(self).contents@.contains_key(q));
                            let j = choose|j: int| 0 <= j < o.len() && o[j].0 == q;
                            assert(n[j].0 == q);
                        } else {
                            assert(n[i as int].0 == q);
                        }
                    }
                    assert(self.key_seq() =~= old(self).key_seq());
                }
            },
            None => {
                self.entries.push((k, v));
                proof {
                    self.contents@ = self.contents@.insert(kv, vv);
                    let o = old(self).entries@;
                    let n = self.entries@;
                    assert forall|j: int| 0 <= j < n.len() implies #[trigger] self.contents@.contains_key(
                        n[j].0,
                    ) && self.contents@[n[j].0] == n[j].1 by {
                        if j < o.len() {
                            assert(n[j] == o[j]);
                            assert(old(self).contents@.contains_key(o[j].0));
                        }
                    }
                    assert forall|q: u16| #[trigger]
                        self.contents@.contains_key(q) implies exists|j: int|
                        0 <= j < n.len() && n[j].0 == q by {
                        if q != kv {
                            assert(old(self).contents@.contains_key(q));
                            let j = choose|j: int| 0 <= j < o.len() && o[j].0 == q;
                            assert(n[j] == o[j]);
                        } else {
                            assert(n[o.len() as int].0 == q);
                        }
                    }
                    assert forall|a: int, b: int|
                        0 <= a < n.len() && 0 <= b < n.len() && a != b implies n[a].0 != n[b].0 by {
                        if a < o.len() && b < o.len() {
                            assert(n[a] == o[a] && n[b] == o[b]);
                        } else if a < o.len() {
                            assert(n[a] == o[a]);
                            assert(old(self).contents@.contains_key(o[a].0));
                        } else {
                            assert(n[b] == o[b]);
                            assert(old(self).contents@.contains_key(o[b].0));
                        }
                    }
                    assert(self.key_seq() =~= old(self).key_seq().push(kv));
                }
            },
        }
    }

    /// Removes the entry of `k` and hands its value back.
    pub fn take(&mut self, k: u16) -> (r: Option<V>)
        requires
            old(self).wf(),
        ensures
            final(self).wf(),
            final(self)@ == old(self)@.remove(k),
            match r {
                Some(v) => old(self)@.contains_key(k) && v == old(self)@[k],
                None => !old(self)@.contains_key(k),
            },
    {
        match self.index_of(k) {
            Some(i) => {
                let e = self.entries.remove(i);
                proof {
                    let o = old(self).entries@;
                    let n = self.entries@;
                    assert(old(self).contents@.contains_key(o[i as int].0));
                    self.contents@ = self.contents@.remove(k);
                    assert forall|j: int| 0 <= j < n.len() implies #[trigger] self.contents@.contains_key(
                        n[j].0,
                    ) && self.contents@[n[j].0] == n[j].1 by {
                        let j2 = if j < i { j } else { j + 1 };
                        assert(n[j] == o[j2]);
                        assert(o[j2].0 != o[i as int].0);
                        assert(old(self).contents@.contains_key(o[j2].0));
                    }
                    assert forall|q: u16| #[trigger]
                        self.contents@.contains_key(q) implies exists|j: int|
                        0 <= j < n.len() && n[j].0 == q by {
                        assert(old(self).contents@.contains_key(q));
                        let j = choose|j: int| 0 <= j < o.len() && o[j].0 == q;
                        assert(q != k);
                        assert(j != i);
                        let w = if j < i { j } else { j - 1 };
                        assert(n[w] == o[j]);
                        assert(0 <= w < n.len() && n[w].0 == q);
                    }
                    assert(forall|q: u16| #[trigger] self.contents@.contains_key(q) ==> exists|i: int|
                    0 <= i < n.len() && n[i].0 == q);
                    assert(n == self.entries@);
                    assert forall|a: int, b: int|
                        0 <= a < n.len() && 0 <= b < n.len() && a != b implies n[a].0 != n[b].0 by {
                        let a2 = if a < i { a } else { a + 1 };
                        let b2 = if b < i { b } else { b + 1 };
                        assert(n[a] == o[a2] && n[b] == o[b2]);
                    }
                }
                Some(e.1)
            },
            None => {
                proof {
                    assert(self.contents@.remove(k) =~= self.contents@);
                }
                None
            },
        }
    }

    /// Removes the entry of `k`, if there is one.
    pub fn remove(&mut self, k: u16)
        requires
            old(self).wf(),
        ensures
            final(self).wf(),
            final(self)@ == old(self)@.remove(k),
    {
        let _ = self.take(k);
    }
}

} // verus!
