use vstd::prelude::*;
use vstd::set_lib::{lemma_int_range, lemma_len_subset, set_int_range};
use crate::keyed::StrMap;

verus! {

/// Largest packet identifier; identifiers run from 1 to this value and then wrap.
pub const PKID_MAX: u16 = 65535;

#[derive(Clone, Copy, Debug, PartialEq, Eq, Structural)]
pub enum PkidError {
    /// Every identifier the client may hold at once is outstanding.
    PkidExhausted,
    /// The client has no pkid state (it never connected).
    UnknownClient,
}

/// The identifier tried `k` steps after `next` (1 ..= 65535, wrapping back to 1).
pub open spec fn candidate(next: u16, k: int) -> int {
    if next + k <= PKID_MAX {
        next + k
    } else {
        next + k - PKID_MAX
    }
}

/// The identifier that follows `p` in allocation order.
pub open spec fn successor(p: u16) -> u16 {
    if p == PKID_MAX {
        1
    } else {
        (p + 1) as u16
    }
}

/// Packet identifiers of one client: the next to try, the outstanding ones, and
/// how many may be outstanding at once (`receive_max`, negotiated at CONNECT).
#[derive(Clone, Debug)]
pub struct ClientPkids {
    pub next_pkid: u16,
    pub in_flight: Vec<u16>,
    pub receive_max: u16,
}

impl ClientPkids {
    pub open spec fn wf(&self) -> bool {
        &&& 1 <= self.next_pkid
        &&& self.in_flight@.no_duplicates()
        &&& !self.in_flight@.contains(0u16)
    }

    pub fn new(receive_max: u16) -> (r: Self)
        ensures
            r.wf(),
            r.next_pkid == 1,
            r.in_flight@ == Seq::<u16>::empty(),
            r.receive_max == receive_max,
    {
        ClientPkids { next_pkid: 1, in_flight: Vec::new(), receive_max }
    }

    pub fn is_in_flight(&self, pkid: u16) -> (r: bool)
        ensures
            r == self.in_flight@.contains(pkid),
    {
        let mut i: usize = 0;
        while i < self.in_flight.len()
            invariant
                i <= self.in_flight@.len(),
                forall|j: int| 0 <= j < i ==> self.in_flight@[j] != pkid,
            decreases self.in_flight@.len() - i,
        {
            if self.in_flight[i] == pkid {
                return true;
            }
            i = i + 1;
        }
        false
    }

    /// Hands out the first identifier, from `next_pkid` on (wrapping, skipping 0),
    /// that is not outstanding; fails when `receive_max` identifiers are outstanding.
    pub fn allocate(&mut self) -> (r: Result<u16, PkidError>)
        requires
            old(self).wf(),
        ensures
            final(self).wf(),
            final(self).receive_max == old(self).receive_max,
            old(self).in_flight@.len() >= old(self).receive_max <==> r == Err::<u16, PkidError>(
                PkidError::PkidExhausted,
            ),
            r is Ok <==> old(self).in_flight@.len() < old(self).receive_max,
            r.is_err() ==> *final(self) == *old(self),
            r is Ok ==> {
                let p = r->Ok_0;
                &&& p != 0
                &&& !old(self).in_flight@.contains(p)
                &&& final(self).in_flight@ == old(self).in_flight@.push(p)
                &&& final(self).next_pkid == successor(p)
                &&& exists|k: int|
                    0 <= k < PKID_MAX && p == candidate(old(self).next_pkid, k) && (forall|j: int|
                        0 <= j < k ==> old(self).in_flight@.contains(
                            candidate(old(self).next_pkid, j) as u16,
                        ))
            },
    {
        if self.in_flight.len() >= self.receive_max as usize {
            return Err(PkidError::PkidExhausted);
        }
        let next = self.next_pkid;
        let mut k: u32 = 0;
        while k < PKID_MAX as u32
            invariant
                *self == *old(self),
                self.wf(),
                self.next_pkid == next,
                self.in_flight@.len() < self.receive_max,
                k <= PKID_MAX,
                forall|j: int| 0 <= j < k ==> self.in_flight@.contains(candidate(next, j) as u16),
            decreases PKID_MAX - k,
        {
            let c: u16 = if next as u32 + k <= PKID_MAX as u32 {
                (next as u32 + k) as u16
            } else {
                (next as u32 + k - PKID_MAX as u32) as u16
            };
            assert(c == candidate(next, k as int));
            if !self.is_in_flight(c) {
                self.in_flight.push(c);
                self.next_pkid = if c == PKID_MAX {
                    1
                } else {
                    c + 1
                };
                proof {
                    assert(self.in_flight@.drop_last() == old(self).in_flight@);
                    assert forall|i: int, j: int|
                        0 <= i < self.in_flight@.len() && 0 <= j < self.in_flight@.len() && i
                            != j implies self.in_flight@[i] != self.in_flight@[j] by {
                        if i < old(self).in_flight@.len() && j < old(self).in_flight@.len() {
                        } else if i < old(self).in_flight@.len() {
                            assert(old(self).in_flight@.contains(self.in_flight@[i]));
                        } else {
                            assert(old(self).in_flight@.contains(self.in_flight@[j]));
                        }
                    }
                    assert(!self.in_flight@.contains(0u16)) by {
                        if self.in_flight@.contains(0u16) {
                            let i = choose|i: int|
                                0 <= i < self.in_flight@.len() && self.in_flight@[i] == 0u16;
                            if i < old(self).in_flight@.len() {
                                assert(old(self).in_flight@.contains(0u16));
                            }
                        }
                    }
                }
                return Ok(c);
            }
            k = k + 1;
        }
        proof {
            lemma_every_pkid_taken(self.in_flight@, next);
        }
        Err(PkidError::PkidExhausted)
    }

    /// Returns `pkid` to the pool; releasing one that is not outstanding changes nothing.
    pub fn release(&mut self, pkid: u16)
        requires
            old(self).wf(),
        ensures
            final(self).wf(),
            final(self).next_pkid == old(self).next_pkid,
            final(self).receive_max == old(self).receive_max,
            final(self).in_flight@.to_set() == old(self).in_flight@.to_set().remove(pkid),
            !final(self).in_flight@.contains(pkid),
            !old(self).in_flight@.contains(pkid) ==> *final(self) == *old(self),
    {
        let mut i: usize = 0;
        while i < self.in_flight.len()
            invariant
                *self == *old(self),
                self.wf(),
                i <= self.in_flight@.len(),
                forall|j: int| 0 <= j < i ==> self.in_flight@[j] != pkid,
            decreases self.in_flight@.len() - i,
        {
            if self.in_flight[i] == pkid {
                self.in_flight.remove(i);
                proof {
                    let o = old(self).in_flight@;
                    let n = self.in_flight@;
                    assert(n == o.remove(i as int));
                    assert forall|a: int, b: int|
                        0 <= a < n.len() && 0 <= b < n.len() && a != b implies n[a] != n[b] by {
                        let a2 = if a < i { a } else { a + 1 };
                        let b2 = if b < i { b } else { b + 1 };
                        assert(n[a] == o[a2] && n[b] == o[b2]);
                    }
                    assert(!n.contains(pkid)) by {
                        if n.contains(pkid) {
                            let a = choose|a: int| 0 <= a < n.len() && n[a] == pkid;
                            let a2 = if a < i { a } else { a + 1 };
                            assert(o[a2] == pkid);
                        }
                    }
                    assert(!n.contains(0u16)) by {
                        if n.contains(0u16) {
                            let a = choose|a: int| 0 <= a < n.len() && n[a] == 0u16;
                            let a2 = if a < i { a } else { a + 1 };
                            assert(o[a2] == 0u16);
                        }
                    }
                    assert forall|v: u16| n.to_set().contains(v) <==> o.to_set().remove(
                        pkid,
                    ).contains(v) by {
                        if n.contains(v) {
                            let a = choose|a: int| 0 <= a < n.len() && n[a] == v;
                            let a2 = if a < i { a } else { a + 1 };
                            assert(o[a2] == v);
                        }
                        if o.contains(v) && v != pkid {
                            let a = choose|a: int| 0 <= a < o.len() && o[a] == v;
                            if a < i {
                                assert(n[a] == v);
                            } else {
                                assert(a != i);
                                assert(n[a - 1] == v);
                            }
                        }
                    }
                    assert(n.to_set() =~= o.to_set().remove(pkid));
                }
                return;
            }
            i = i + 1;
        }
        proof {
            assert(!self.in_flight@.contains(pkid));
            assert(self.in_flight@.to_set() =~= self.in_flight@.to_set().remove(pkid));
        }
    }
}

/// Outstanding identifiers of a well-formed client state are pairwise distinct and
/// never 0.
pub proof fn lemma_outstanding_pkids_unique(c: ClientPkids)
    requires
        c.wf(),
    ensures
        forall|i: int, j: int|
            0 <= i < c.in_flight@.len() && 0 <= j < c.in_flight@.len() && i != j
                ==> c.in_flight@[i] != c.in_flight@[j],
        forall|i: int| 0 <= i < c.in_flight@.len() ==> c.in_flight@[i] != 0,
{
    assert forall|i: int| 0 <= i < c.in_flight@.len() implies c.in_flight@[i] != 0 by {
        if c.in_flight@[i] == 0 {
            assert(c.in_flight@.contains(0u16));
        }
    }
}

/// A sequence that holds every identifier from 1 to 65535 has at least 65535 items.
proof fn lemma_every_pkid_taken(s: Seq<u16>, next: u16)
    requires
        1 <= next,
        forall|j: int| 0 <= j < PKID_MAX ==> s.contains(candidate(next, j) as u16),
    ensures
        s.len() >= PKID_MAX,
{
    broadcast use vstd::seq_lib::seq_to_set_is_finite;

    let ints = s.map_values(|v: u16| v as int);
    let range = set_int_range(1, PKID_MAX + 1);
    assert forall|v: int| range.contains(v) implies ints.to_set().contains(v) by {
        let j = if v >= next {
            v - next
        } else {
            v + PKID_MAX - next
        };
        assert(candidate(next, j) == v);
        assert(s.contains(v as u16));
        let a = choose|a: int| 0 <= a < s.len() && s[a] == v as u16;
        assert(ints[a] == v);
    }
    lemma_int_range(1, PKID_MAX + 1);
    lemma_len_subset(range, ints.to_set());
    ints.lemma_cardinality_of_set();
}

} // verus!

verus! {

/// Packet-identifier state of every connected client, keyed by client id.
pub struct PkidAllocator {
    clients: StrMap<ClientPkids>,
}

impl PkidAllocator {
    pub closed spec fn wf(&self) -> bool {
        &&& self.clients.wf()
        &&& forall|c: Seq<char>| #[trigger] self.clients@.contains_key(c) ==> self.clients@[c].wf()
    }

    /// Identifier state of client `c`, if it has one.
    pub closed spec fn client(&self, c: Seq<char>) -> Option<ClientPkids> {
        if self.clients@.contains_key(c) {
            Some(self.clients@[c])
        } else {
            None
        }
    }

    pub fn new() -> (r: Self)
        ensures
            r.wf(),
            forall|c: Seq<char>| r.client(c) is None,
    {
        PkidAllocator { clients: StrMap::new() }
    }

    /// Sets the client's `receive_max` (negotiated at CONNECT); outstanding identifiers
    /// of an earlier connection are kept so that their exchanges can complete.
    pub fn connect(&mut self, client_id: &String, receive_max: u16)
        requires
            old(self).wf(),
        ensures
            final(self).wf(),
            final(self).client(client_id@) is Some,
            final(self).client(client_id@)->Some_0.receive_max == receive_max,
            old(self).client(client_id@) is Some ==> final(self).client(client_id@)->Some_0.in_flight@
                == old(self).client(client_id@)->Some_0.in_flight@ && final(self).client(
                client_id@,
            )->Some_0.next_pkid == old(self).client(client_id@)->Some_0.next_pkid,
            old(self).client(client_id@) is None ==> final(self).client(client_id@)->Some_0.in_flight@.len()
                == 0 && final(self).client(client_id@)->Some_0.next_pkid == 1,
            forall|c: Seq<char>| c != client_id@ ==> final(self).client(c) == old(self).client(c),
    {
        let state = match self.clients.take(client_id) {
            Some(mut p) => {
                p.receive_max = receive_max;
                p
            },
            None => ClientPkids::new(receive_max),
        };
        self.clients.insert(client_id.clone(), state);
        proof {
            assert forall|c: Seq<char>| #[trigger] self.clients@.contains_key(c) implies self.clients@[c].wf() by {
                if c != client_id@ {
                    assert(old(self).clients@.contains_key(c));
                }
            }
            assert forall|c: Seq<char>| c != client_id@ implies self.client(c) == old(self).client(c) by {
            }
        }
    }

    /// Allocates the next free identifier of `client_id` (see `ClientPkids::allocate`).
    pub fn allocate(&mut self, client_id: &String) -> (r: Result<u16, PkidError>)
        requires
            old(self).wf(),
        ensures
            final(self).wf(),
            old(self).client(client_id@) is None ==> r == Err::<u16, PkidError>(
                PkidError::UnknownClient,
            ) && final(self).client(client_id@) is None,
            old(self).client(client_id@) is Some ==> {
                let o = old(self).client(client_id@)->Some_0;
                let p = final(self).client(client_id@)->Some_0;
                &&& final(self).client(client_id@) is Some
                &&& p.receive_max == o.receive_max
                &&& (o.in_flight@.len() >= o.receive_max <==> r == Err::<u16, PkidError>(
                    PkidError::PkidExhausted,
                ))
                &&& (r is Ok <==> o.in_flight@.len() < o.receive_max)
                &&& r.is_err() ==> p == o
                &&& r matches Ok(k) ==> k != 0 && !o.in_flight@.contains(k) && p.in_flight@
                    == o.in_flight@.push(k) && p.next_pkid == successor(k)
            },
            forall|c: Seq<char>| c != client_id@ ==> final(self).client(c) == old(self).client(c),
    {
        match self.clients.take(client_id) {
            Some(mut p) => {
                let r = p.allocate();
                self.clients.insert(client_id.clone(), p);
                proof {
                    assert forall|c: Seq<char>| #[trigger] self.clients@.contains_key(c) implies self.clients@[c].wf() by {
                        if c != client_id@ {
                            assert(old(self).clients@.contains_key(c));
                        }
                    }
                    assert forall|c: Seq<char>| c != client_id@ implies self.client(c) == old(self).client(c) by {
                    }
                }
                r
            },
            None => Err(PkidError::UnknownClient),
        }
    }

    /// Returns `pkid` of `client_id` to the pool; idempotent.
    pub fn release(&mut self, client_id: &String, pkid: u16)
        requires
            old(self).wf(),
        ensures
            final(self).wf(),
            old(self).client(client_id@) is None ==> final(self).client(client_id@) is None,
            old(self).client(client_id@) is Some ==> {
                let o = old(self).client(client_id@)->Some_0;
                let p = final(self).client(client_id@)->Some_0;
                &&& final(self).client(client_id@) is Some
                &&& p.in_flight@.to_set() == o.in_flight@.to_set().remove(pkid)
                &&& !p.in_flight@.contains(pkid)
                &&& p.next_pkid == o.next_pkid
                &&& p.receive_max == o.receive_max
            },
            forall|c: Seq<char>| c != client_id@ ==> final(self).client(c) == old(self).client(c),
    {
        match self.clients.take(client_id) {
            Some(mut p) => {
                p.release(pkid);
                self.clients.insert(client_id.clone(), p);
                proof {
                    assert forall|c: Seq<char>| #[trigger] self.clients@.contains_key(c) implies self.clients@[c].wf() by {
                        if c != client_id@ {
                            assert(old(self).clients@.contains_key(c));
                        }
                    }
                    assert forall|c: Seq<char>| c != client_id@ implies self.client(c) == old(self).client(c) by {
                    }
                }
            },
            None => {},
        }
    }

    /// Whether `pkid` is outstanding for `client_id`.
    pub fn is_in_flight(&self, client_id: &String, pkid: u16) -> (r: bool)
        requires
            self.wf(),
        ensures
            r == (self.client(client_id@) is Some && self.client(client_id@)->Some_0.in_flight@.contains(
                pkid,
            )),
    {
        match self.clients.get(client_id) {
            Some(p) => p.is_in_flight(pkid),
            None => false,
        }
    }
}

/// In every well-formed allocator, each client's outstanding identifiers are pairwise
/// distinct and never 0.
pub proof fn lemma_allocator_pkids_unique(a: PkidAllocator, c: Seq<char>)
    requires
        a.wf(),
        a.client(c) is Some,
    ensures
        a.client(c)->Some_0.in_flight@.no_duplicates(),
        !a.client(c)->Some_0.in_flight@.contains(0u16),
{
}

} // verus!
