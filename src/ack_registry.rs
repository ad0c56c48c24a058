use vstd::prelude::*;
use crate::keyed::{PkidMap, StrMap};

verus! {

/// Kind of acknowledgement a sender waits for.
#[derive(Clone, Copy, Debug, PartialEq, Eq, Structural)]
pub enum AckKind {
    PubAck,
    PubRec,
    PubComp,
}

/// An awaited acknowledgement: what is expected and when the wait began (ms).
#[derive(Clone, Copy, Debug, PartialEq, Eq, Structural)]
pub struct AckEntry {
    pub expected: AckKind,
    pub created_at: u64,
}

#[derive(Clone, Copy, Debug, PartialEq, Eq, Structural)]
pub enum AckError {
    /// The client already waits for an acknowledgement under this identifier.
    DuplicatePkid,
}

/// Where an inbound acknowledgement goes.
#[derive(Clone, Copy, Debug, PartialEq, Eq, Structural)]
pub enum AckRouting {
    /// To the waiter of this entry; the entry is gone, so a duplicate finds nobody.
    Routed(AckEntry),
    /// A waiter exists but expects another kind; it keeps waiting.
    WrongKind(AckEntry),
    /// Nobody waits (the wait timed out or the ack is a duplicate); it is dropped.
    Unexpected,
}

/// Whether an entry created at `created_at` has waited `timeout` ms or more at `now`.
pub open spec fn is_expired(e: AckEntry, now: u64, timeout: u64) -> bool {
    e.created_at <= now && now - e.created_at >= timeout
}

/// Rendezvous between the ingress path that decodes acknowledgements and the
/// workers that wait for them, keyed by (client id, pkid).
pub struct AckRegistry {
    clients: StrMap<PkidMap<AckEntry>>,
}

impl AckRegistry {
    pub closed spec fn wf(&self) -> bool {
        &&& self.clients.wf()
        &&& forall|c: Seq<char>| #[trigger] self.clients@.contains_key(c) ==> self.clients@[c].wf()
    }

    /// The entry awaited from client `c` under `pkid`, if any.
    pub closed spec fn entry(&self, c: Seq<char>, pkid: u16) -> Option<AckEntry> {
        if self.clients@.contains_key(c) && self.clients@[c]@.contains_key(pkid) {
            Some(self.clients@[c]@[pkid])
        } else {
            None
        }
    }

    pub fn new() -> (r: Self)
        ensures
            r.wf(),
            forall|c: Seq<char>, p: u16| r.entry(c, p) is None,
    {
        AckRegistry { clients: StrMap::new() }
    }

    pub fn get(&self, client_id: &String, pkid: u16) -> (r: Option<AckEntry>)
        requires
            self.wf(),
        ensures
            r == self.entry(client_id@, pkid),
    {
        match self.clients.get(client_id) {
            Some(m) => match m.get(pkid) {
                Some(e) => Some(*e),
                None => None,
            },
            None => None,
        }
    }

    /// Sets the entry of (`client_id`, `pkid`), whatever was there.
    fn put(&mut self, client_id: &String, pkid: u16, e: AckEntry)
        requires
            old(self).wf(),
        ensures
            final(self).wf(),
            final(self).entry(client_id@, pkid) == Some(e),
            forall|c: Seq<char>, p: u16|
                !(c == client_id@ && p == pkid) ==> final(self).entry(c, p) == old(self).entry(c, p),
    {
        let mut m = match self.clients.take(client_id) {
            Some(m) => m,
            None => PkidMap::new(),
        };
        m.insert(pkid, e);
        self.clients.insert(client_id.clone(), m);
        proof {
            assert forall|c: Seq<char>| #[trigger] self.clients@.contains_key(c) implies self.clients@[c].wf() by {
                if c != client_id@ {
                    assert(old(self).clients@.contains_key(c));
                }
            }
            assert forall|c: Seq<char>, p: u16|
                !(c == client_id@ && p == pkid) implies self.entry(c, p) == old(self).entry(c, p) by {
                if c != client_id@ {
                    assert(self.clients@[c] == old(self).clients@[c]);
                }
            }
        }
    }

    /// Removes the entry of (`client_id`, `pkid`); removing an absent one changes nothing.
    pub fn remove(&mut self, client_id: &String, pkid: u16)
        requires
            old(self).wf(),
        ensures
            final(self).wf(),
            final(self).entry(client_id@, pkid) is None,
            forall|c: Seq<char>, p: u16|
                !(c == client_id@ && p == pkid) ==> final(self).entry(c, p) == old(self).entry(c, p),
    {
        match self.clients.take(client_id) {
            Some(mut m) => {
                m.remove(pkid);
                self.clients.insert(client_id.clone(), m);
                proof {
                    assert forall|c: Seq<char>| #[trigger] self.clients@.contains_key(c) implies self.clients@[c].wf() by {
                        if c != client_id@ {
                            assert(old(self).clients@.contains_key(c));
                        }
                    }
                    assert forall|c: Seq<char>, p: u16|
                        !(c == client_id@ && p == pkid) implies self.entry(c, p) == old(self).entry(
                        c,
                        p,
                    ) by {
                        if c != client_id@ {
                            assert(self.clients@[c] == old(self).clients@[c]);
                        }
                    }
                }
            },
            None => {
                proof {
                    assert forall|c: Seq<char>| #[trigger] self.clients@.contains_key(c) implies self.clients@[c].wf() by {
                        assert(old(self).clients@.contains_key(c));
                    }
                    assert forall|c: Seq<char>, p: u16|
                        !(c == client_id@ && p == pkid) implies self.entry(c, p) == old(self).entry(
                        c,
                        p,
                    ) by {
                        if c != client_id@ {
                            assert(self.clients@[c] == old(self).clients@[c]);
                        }
                    }
                }
            },
        }
    }

    /// Starts waiting for `expected` from `client_id` under `pkid`; fails, changing
    /// nothing, where a wait under that identifier is already registered.
    pub fn register(&mut self, client_id: &String, pkid: u16, expected: AckKind, now: u64) -> (r:
        Result<(), AckError>)
        requires
            old(self).wf(),
        ensures
            final(self).wf(),
            old(self).entry(client_id@, pkid) is Some ==> r == Err::<(), AckError>(
                AckError::DuplicatePkid,
            ) && final(self).entry(client_id@, pkid) == old(self).entry(client_id@, pkid),
            old(self).entry(client_id@, pkid) is None ==> r is Ok && final(self).entry(client_id@, pkid)
                == Some(AckEntry { expected, created_at: now }),
            forall|c: Seq<char>, p: u16|
                !(c == client_id@ && p == pkid) ==> final(self).entry(c, p) == old(self).entry(c, p),
    {
        match self.get(client_id, pkid) {
            Some(_) => Err(AckError::DuplicatePkid),
            None => {
                self.put(client_id, pkid, AckEntry { expected, created_at: now });
                Ok(())
            },
        }
    }

    /// Moves an exchange to its next awaited kind (a QoS 2 sender that got PubRec
    /// now waits for PubComp), restarting its clock.
    pub fn rearm(&mut self, client_id: &String, pkid: u16, expected: AckKind, now: u64)
        requires
            old(self).wf(),
        ensures
            final(self).wf(),
            final(self).entry(client_id@, pkid) == Some(AckEntry { expected, created_at: now }),
            forall|c: Seq<char>, p: u16|
                !(c == client_id@ && p == pkid) ==> final(self).entry(c, p) == old(self).entry(c, p),
    {
        self.put(client_id, pkid, AckEntry { expected, created_at: now });
    }

    /// Routes an inbound acknowledgement of `kind` from `client_id` under `pkid`.
    /// Each wait is answered once: the entry it matches is taken out.
    pub fn deliver(&mut self, client_id: &String, pkid: u16, kind: AckKind) -> (r: AckRouting)
        requires
            old(self).wf(),
        ensures
            final(self).wf(),
            old(self).entry(client_id@, pkid) is None ==> r == AckRouting::Unexpected,
            old(self).entry(client_id@, pkid) matches Some(e) ==> if e.expected == kind {
                r == AckRouting::Routed(e) && final(self).entry(client_id@, pkid) is None
            } else {
                r == AckRouting::WrongKind(e) && final(self).entry(client_id@, pkid) == Some(e)
            },
            old(self).entry(client_id@, pkid) is None ==> final(self).entry(client_id@, pkid) is None,
            forall|c: Seq<char>, p: u16|
                !(c == client_id@ && p == pkid) ==> final(self).entry(c, p) == old(self).entry(c, p),
    {
        match self.get(client_id, pkid) {
            Some(e) => {
                if e.expected == kind {
                    self.remove(client_id, pkid);
                    AckRouting::Routed(e)
                } else {
                    AckRouting::WrongKind(e)
                }
            },
            None => AckRouting::Unexpected,
        }
    }

    /// The (client, pkid) keys whose wait has lasted `timeout` ms or more at `now`.
    pub fn expired(&self, now: u64, timeout: u64) -> (r: Vec<(String, u16)>)
        requires
            self.wf(),
        ensures
            forall|k: int|
                0 <= k < r@.len() ==> #[trigger] self.entry(r@[k].0@, r@[k].1) is Some && is_expired(
                    self.entry(r@[k].0@, r@[k].1)->Some_0,
                    now,
                    timeout,
                ),
            forall|c: Seq<char>, p: u16|
                #![trigger self.entry(c, p)]
                self.entry(c, p) is Some && is_expired(self.entry(c, p)->Some_0, now, timeout)
                    ==> exists|k: int| 0 <= k < r@.len() && r@[k].0@ == c && r@[k].1 == p,
    {
        let mut out: Vec<(String, u16)> = Vec::new();
        let n = self.clients.len();
        let mut i: usize = 0;
        while i < n
            invariant
                self.wf(),
                n == self.clients.key_seq().len(),
                i <= n,
                forall|k: int|
                    0 <= k < out@.len() ==> #[trigger] self.entry(out@[k].0@, out@[k].1) is Some
                        && is_expired(self.entry(out@[k].0@, out@[k].1)->Some_0, now, timeout),
                forall|ci: int, p: u16|
                    #![trigger self.entry(self.clients.key_seq()[ci], p)]
                    0 <= ci < i && self.entry(self.clients.key_seq()[ci], p) is Some && is_expired(
                        self.entry(self.clients.key_seq()[ci], p)->Some_0,
                        now,
                        timeout,
                    ) ==> exists|k: int|
                        0 <= k < out@.len() && out@[k].0@ == self.clients.key_seq()[ci] && out@[k].1
                            == p,
            decreases n - i,
        {
            let client = self.clients.key_at(i);
            let m = self.clients.value_at(i);
            let mn = m.len();
            let mut j: usize = 0;
            while j < mn
                invariant
                    self.wf(),
                    n == self.clients.key_seq().len(),
                    i < n,
                    client@ == self.clients.key_seq()[i as int],
                    self.clients@.contains_key(client@),
                    *m == self.clients@[client@],
                    m.wf(),
                    mn == m.key_seq().len(),
                    j <= mn,
                    forall|k: int|
                        0 <= k < out@.len() ==> #[trigger] self.entry(out@[k].0@, out@[k].1) is Some
                            && is_expired(self.entry(out@[k].0@, out@[k].1)->Some_0, now, timeout),
                    forall|ci: int, p: u16|
                        #![trigger self.entry(self.clients.key_seq()[ci], p)]
                        0 <= ci < i && self.entry(self.clients.key_seq()[ci], p) is Some
                            && is_expired(self.entry(self.clients.key_seq()[ci], p)->Some_0, now, timeout)
                            ==> exists|k: int|
                            0 <= k < out@.len() && out@[k].0@ == self.clients.key_seq()[ci]
                                && out@[k].1 == p,
                    forall|pj: int|
                        #![trigger m.key_seq()[pj]]
                        0 <= pj < j && is_expired(m@[m.key_seq()[pj]], now, timeout) ==> exists|k: int|
                            0 <= k < out@.len() && out@[k].0@ == client@ && out@[k].1
                                == m.key_seq()[pj],
                decreases mn - j,
            {
                let p = m.key_at(j);
                let e = m.value_at(j);
                if e.created_at <= now && now - e.created_at >= timeout {
                    let ghost old_out = out@;
                    out.push((client.clone(), p));
                    proof {
                        assert(out@[old_out.len() as int].0@ == client@);
                        assert(self.entry(client@, p) == Some(*e));
                        assert forall|k: int|
                            0 <= k < out@.len() implies #[trigger] self.entry(out@[k].0@, out@[k].1)
                            is Some && is_expired(
                            self.entry(out@[k].0@, out@[k].1)->Some_0,
                            now,
                            timeout,
                        ) by {
                            if k < old_out.len() {
                                assert(out@[k] == old_out[k]);
                            }
                        }
                        assert forall|ci: int, q: u16|
                            #![trigger self.entry(self.clients.key_seq()[ci], q)]
                            0 <= ci < i && self.entry(self.clients.key_seq()[ci], q) is Some
                                && is_expired(
                                self.entry(self.clients.key_seq()[ci], q)->Some_0,
                                now,
                                timeout,
                            ) implies exists|k: int|
                            0 <= k < out@.len() && out@[k].0@ == self.clients.key_seq()[ci]
                                && out@[k].1 == q by {
                            let k = choose|k: int|
                                0 <= k < old_out.len() && old_out[k].0@
                                    == self.clients.key_seq()[ci] && old_out[k].1 == q;
                            assert(out@[k] == old_out[k]);
                        }
                        assert forall|pj: int|
                            #![trigger m.key_seq()[pj]]
                            0 <= pj < j + 1 && is_expired(
                                m@[m.key_seq()[pj]],
                                now,
                                timeout,
                            ) implies exists|k: int|
                            0 <= k < out@.len() && out@[k].0@ == client@ && out@[k].1
                                == m.key_seq()[pj] by {
                            if pj < j {
                                let k = choose|k: int|
                                    0 <= k < old_out.len() && old_out[k].0@ == client@
                                        && old_out[k].1 == m.key_seq()[pj];
                                assert(out@[k] == old_out[k]);
                            } else {
                                assert(out@[old_out.len() as int].1 == m.key_seq()[pj]);
                            }
                        }
                    }
                }
                j = j + 1;
            }
            proof {
                m.lemma_keys();
                assert forall|ci: int, q: u16|
                    #![trigger self.entry(self.clients.key_seq()[ci], q)]
                    0 <= ci < i + 1 && self.entry(self.clients.key_seq()[ci], q) is Some && is_expired(
                        self.entry(self.clients.key_seq()[ci], q)->Some_0,
                        now,
                        timeout,
                    ) implies exists|k: int|
                    0 <= k < out@.len() && out@[k].0@ == self.clients.key_seq()[ci] && out@[k].1
                        == q by {
                    if ci == i {
                        assert(m@.contains_key(q));
                        assert(m.key_seq().to_set().contains(q));
                        let pj = choose|pj: int| 0 <= pj < m.key_seq().len() && m.key_seq()[pj] == q;
                        assert(m.key_seq()[pj] == q);
                    }
                }
            }
            i = i + 1;
        }
        proof {
            self.clients.lemma_keys();
            assert forall|c: Seq<char>, p: u16|
                #![trigger self.entry(c, p)]
                self.entry(c, p) is Some && is_expired(
                    self.entry(c, p)->Some_0,
                    now,
                    timeout,
                ) implies exists|k: int| 0 <= k < out@.len() && out@[k].0@ == c && out@[k].1 == p by {
                assert(self.clients.key_seq().to_set().contains(c));
                let ci = choose|ci: int|
                    0 <= ci < self.clients.key_seq().len() && self.clients.key_seq()[ci] == c;
                assert(self.entry(self.clients.key_seq()[ci], p) is Some);
            }
        }
        out
    }

    /// Removes every wait that has lasted `timeout` ms or more at `now` and returns
    /// their keys, so that each waiter can be told of its timeout.
    pub fn sweep(&mut self, now: u64, timeout: u64) -> (r: Vec<(String, u16)>)
        requires
            old(self).wf(),
        ensures
            final(self).wf(),
            forall|k: int|
                0 <= k < r@.len() ==> #[trigger] old(self).entry(r@[k].0@, r@[k].1) is Some
                    && is_expired(old(self).entry(r@[k].0@, r@[k].1)->Some_0, now, timeout),
            forall|c: Seq<char>, p: u16|
                #![trigger final(self).entry(c, p)]
                final(self).entry(c, p) == if old(self).entry(c, p) is Some && is_expired(
                    old(self).entry(c, p)->Some_0,
                    now,
                    timeout,
                ) {
                    None
                } else {
                    old(self).entry(c, p)
                },
    {
        let keys = self.expired(now, timeout);
        let mut k: usize = 0;
        while k < keys.len()
            invariant
                self.wf(),
                k <= keys@.len(),
                forall|c: Seq<char>, p: u16|
                    #![trigger self.entry(c, p)]
                    self.entry(c, p) == if exists|x: int|
                        0 <= x < k && keys@[x].0@ == c && keys@[x].1 == p {
                        None
                    } else {
                        old(self).entry(c, p)
                    },
            decreases keys@.len() - k,
        {
            self.remove(&keys[k].0, keys[k].1);
            proof {
                assert forall|c: Seq<char>, p: u16|
                    #![trigger self.entry(c, p)]
                    self.entry(c, p) == if exists|x: int|
                        0 <= x < k + 1 && keys@[x].0@ == c && keys@[x].1 == p {
                        None
                    } else {
                        old(self).entry(c, p)
                    } by {
                    if c == keys@[k as int].0@ && p == keys@[k as int].1 {
                        assert(0 <= k < k + 1 && keys@[k as int].0@ == c && keys@[k as int].1 == p);
                    } else {
                        if exists|x: int| 0 <= x < k + 1 && keys@[x].0@ == c && keys@[x].1 == p {
                            let x = choose|x: int|
                                0 <= x < k + 1 && keys@[x].0@ == c && keys@[x].1 == p;
                            assert(x < k);
                        }
                    }
                }
            }
            k = k + 1;
        }
        proof {
            assert forall|c: Seq<char>, p: u16|
                #![trigger self.entry(c, p)]
                self.entry(c, p) == if old(self).entry(c, p) is Some && is_expired(
                    old(self).entry(c, p)->Some_0,
                    now,
                    timeout,
                ) {
                    None
                } else {
                    old(self).entry(c, p)
                } by {
                if exists|x: int| 0 <= x < keys@.len() && keys@[x].0@ == c && keys@[x].1 == p {
                    let x = choose|x: int| 0 <= x < keys@.len() && keys@[x].0@ == c && keys@[x].1 == p;
                    assert(old(self).entry(keys@[x].0@, keys@[x].1) is Some);
                }
            }
        }
        keys
    }
}

} // verus!
