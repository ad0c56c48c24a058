use vstd::prelude::*;
use crate::envelope::Subscription;
use crate::keyed::StrMap;
use crate::supervisor::{sub_key, subscription_keys};

verus! {

/// Exclusive subscriptions by client, then by topic id; a client's newer subscription
/// to a topic replaces the older one.
pub struct SubscriptionTable {
    exclusive: StrMap<StrMap<Subscription>>,
}

impl SubscriptionTable {
    pub closed spec fn wf(&self) -> bool {
        &&& self.exclusive.wf()
        &&& forall|c: Seq<char>| #[trigger]
            self.exclusive@.contains_key(c) ==> self.exclusive@[c].wf() && forall|t: Seq<char>|
                #[trigger] self.exclusive@[c]@.contains_key(t) ==> sub_key(
                    self.exclusive@[c]@[t],
                ) == (c, t)
    }

    /// The subscription of client `c` to topic `t`, if any.
    pub closed spec fn get(&self, c: Seq<char>, t: Seq<char>) -> Option<Subscription> {
        if self.exclusive@.contains_key(c) && self.exclusive@[c]@.contains_key(t) {
            Some(self.exclusive@[c]@[t])
        } else {
            None
        }
    }

    /// The (client, topic) pairs that have a subscription.
    pub open spec fn keys(&self) -> Set<(Seq<char>, Seq<char>)> {
        Set::new(|k: (Seq<char>, Seq<char>)| self.get(k.0, k.1) is Some)
    }

    pub fn new() -> (r: Self)
        ensures
            r.wf(),
            forall|c: Seq<char>, t: Seq<char>| r.get(c, t) is None,
    {
        SubscriptionTable { exclusive: StrMap::new() }
    }

    /// Adds `sub`, replacing the client's earlier subscription to the same topic.
    pub fn add(&mut self, sub: Subscription)
        requires
            old(self).wf(),
        ensures
            final(self).wf(),
            final(self).get(sub.client_id@, sub.topic_id@) == Some(sub),
            forall|c: Seq<char>, t: Seq<char>|
                !(c == sub.client_id@ && t == sub.topic_id@) ==> final(self).get(c, t) == old(
                    self,
                ).get(c, t),
    {
        let ghost s0 = sub;
        let client = sub.client_id.clone();
        let topic = sub.topic_id.clone();
        let mut topics = match self.exclusive.take(&client) {
            Some(t) => t,
            None => StrMap::new(),
        };
        topics.insert(topic, sub);
        self.exclusive.insert(client, topics);
        proof {
            assert forall|c: Seq<char>| #[trigger] self.exclusive@.contains_key(c) implies self.exclusive@[c].wf()
                && forall|t: Seq<char>| #[trigger]
                self.exclusive@[c]@.contains_key(t) ==> sub_key(self.exclusive@[c]@[t]) == (c, t) by {
                if c != s0.client_id@ {
                    assert(old(self).exclusive@.contains_key(c));
                }
            }
            assert forall|c: Seq<char>, t: Seq<char>|
                !(c == s0.client_id@ && t == s0.topic_id@) implies self.get(c, t) == old(self).get(
                c,
                t,
            ) by {
                if c != s0.client_id@ {
                    assert(self.exclusive@[c] == old(self).exclusive@[c]);
                }
            }
        }
    }

    /// Removes the subscription of `client_id` to `topic_id`, if there is one.
    pub fn remove(&mut self, client_id: &String, topic_id: &String)
        requires
            old(self).wf(),
        ensures
            final(self).wf(),
            final(self).get(client_id@, topic_id@) is None,
            forall|c: Seq<char>, t: Seq<char>|
                !(c == client_id@ && t == topic_id@) ==> final(self).get(c, t) == old(self).get(c, t),
    {
        match self.exclusive.take(client_id) {
            Some(mut topics) => {
                topics.remove(topic_id);
                self.exclusive.insert(client_id.clone(), topics);
            },
            None => {},
        }
        proof {
            assert forall|c: Seq<char>| #[trigger] self.exclusive@.contains_key(c) implies self.exclusive@[c].wf()
                && forall|t: Seq<char>| #[trigger]
                self.exclusive@[c]@.contains_key(t) ==> sub_key(self.exclusive@[c]@[t]) == (c, t) by {
                if c != client_id@ {
                    assert(old(self).exclusive@.contains_key(c));
                }
            }
            assert forall|c: Seq<char>, t: Seq<char>|
                !(c == client_id@ && t == topic_id@) implies self.get(c, t) == old(self).get(c, t) by {
                if c != client_id@ {
                    assert(self.exclusive@[c] == old(self).exclusive@[c]);
                }
            }
        }
    }

    /// Removes every subscription of `client_id` (its session ended).
    pub fn remove_client(&mut self, client_id: &String)
        requires
            old(self).wf(),
        ensures
            final(self).wf(),
            forall|t: Seq<char>| final(self).get(client_id@, t) is None,
            forall|c: Seq<char>, t: Seq<char>|
                c != client_id@ ==> final(self).get(c, t) == old(self).get(c, t),
    {
        self.exclusive.remove(client_id);
        proof {
            assert forall|c: Seq<char>| #[trigger] self.exclusive@.contains_key(c) implies self.exclusive@[c].wf()
                && forall|t: Seq<char>| #[trigger]
                self.exclusive@[c]@.contains_key(t) ==> sub_key(self.exclusive@[c]@[t]) == (c, t) by {
                assert(old(self).exclusive@.contains_key(c));
            }
        }
    }

    /// Subscriptions of `client_id`, one per topic.
    pub fn list_by_client(&self, client_id: &String) -> (r: Vec<Subscription>)
        requires
            self.wf(),
        ensures
            forall|i: int|
                0 <= i < r@.len() ==> #[trigger] self.get(r@[i].client_id@, r@[i].topic_id@) == Some(
                    r@[i],
                ) && r@[i].client_id@ == client_id@,
            forall|t: Seq<char>|
                self.get(client_id@, t) is Some ==> exists|i: int|
                    0 <= i < r@.len() && r@[i].topic_id@ == t,
    {
        let mut out: Vec<Subscription> = Vec::new();
        match self.exclusive.get(client_id) {
            Some(topics) => {
                let n = topics.len();
                let mut i: usize = 0;
                while i < n
                    invariant
                        self.wf(),
                        self.exclusive@.contains_key(client_id@),
                        *topics == self.exclusive@[client_id@],
                        topics.wf(),
                        n == topics.key_seq().len(),
                        i <= n,
                        forall|k: int|
                            0 <= k < out@.len() ==> #[trigger] self.get(
                                out@[k].client_id@,
                                out@[k].topic_id@,
                            ) == Some(out@[k]) && out@[k].client_id@ == client_id@,
                        forall|j: int|
                            0 <= j < i ==> exists|k: int|
                                0 <= k < out@.len() && out@[k].topic_id@ == #[trigger] topics.key_seq()[j],
                    decreases n - i,
                {
                    let t = topics.key_at(i);
                    let s = topics.value_at(i);
                    let ghost before = out@;
                    out.push(s.duplicate());
                    proof {
                        assert(sub_key(*s) == (client_id@, t@));
                        assert(out@[before.len() as int] == *s);
                        assert forall|k: int|
                            0 <= k < out@.len() implies #[trigger] self.get(
                            out@[k].client_id@,
                            out@[k].topic_id@,
                        ) == Some(out@[k]) && out@[k].client_id@ == client_id@ by {
                            if k < before.len() {
                                assert(out@[k] == before[k]);
                            }
                        }
                        assert forall|j: int| 0 <= j < i + 1 implies exists|k: int|
                            0 <= k < out@.len() && out@[k].topic_id@ == #[trigger] topics.key_seq()[j] by {
                            if j < i {
                                let k = choose|k: int|
                                    0 <= k < before.len() && before[k].topic_id@ == topics.key_seq()[j];
                                assert(out@[k] == before[k]);
                            } else {
                                assert(out@[before.len() as int].topic_id@ == topics.key_seq()[j]);
                            }
                        }
                    }
                    i = i + 1;
                }
                proof {
                    topics.lemma_keys();
                    assert forall|t: Seq<char>| self.get(client_id@, t) is Some implies exists|i: int|
                        0 <= i < out@.len() && out@[i].topic_id@ == t by {
                        assert(topics.key_seq().to_set().contains(t));
                        let j = choose|j: int| 0 <= j < topics.key_seq().len() && topics.key_seq()[j] == t;
                        assert(topics.key_seq()[j] == t);
                    }
                }
            },
            None => {},
        }
        out
    }

    /// Every exclusive subscription, one per (client, topic).
    pub fn list_all_exclusive(&self) -> (r: Vec<Subscription>)
        requires
            self.wf(),
        ensures
            forall|i: int|
                0 <= i < r@.len() ==> #[trigger] self.get(r@[i].client_id@, r@[i].topic_id@) == Some(
                    r@[i],
                ),
            subscription_keys(r@) == self.keys(),
    {
        let mut out: Vec<Subscription> = Vec::new();
        let n = self.exclusive.len();
        let mut i: usize = 0;
        while i < n
            invariant
                self.wf(),
                n == self.exclusive.key_seq().len(),
                i <= n,
                forall|k: int|
                    0 <= k < out@.len() ==> #[trigger] self.get(out@[k].client_id@, out@[k].topic_id@)
                        == Some(out@[k]),
                forall|j: int, t: Seq<char>|
                    0 <= j < i && #[trigger] self.get(self.exclusive.key_seq()[j], t) is Some
                        ==> exists|k: int|
                        0 <= k < out@.len() && sub_key(out@[k]) == (self.exclusive.key_seq()[j], t),
            decreases n - i,
        {
            let c = self.exclusive.key_at(i);
            let part = self.list_by_client(c);
            let ghost before = out@;
            let mut k: usize = 0;
            while k < part.len()
                invariant
                    self.wf(),
                    n == self.exclusive.key_seq().len(),
                    i < n,
                    c@ == self.exclusive.key_seq()[i as int],
                    k <= part@.len(),
                    forall|x: int|
                        0 <= x < part@.len() ==> #[trigger] self.get(
                            part@[x].client_id@,
                            part@[x].topic_id@,
                        ) == Some(part@[x]) && part@[x].client_id@ == c@,
                    forall|t: Seq<char>|
                        self.get(c@, t) is Some ==> exists|x: int|
                            0 <= x < part@.len() && part@[x].topic_id@ == t,
                    out@.len() == before.len() + k,
                    forall|x: int| 0 <= x < before.len() ==> out@[x] == before[x],
                    forall|x: int| 0 <= x < k ==> out@[before.len() + x] == part@[x],
                    forall|x: int|
                        0 <= x < out@.len() ==> #[trigger] self.get(
                            out@[x].client_id@,
                            out@[x].topic_id@,
                        ) == Some(out@[x]),
                decreases part@.len() - k,
            {
                out.push(part[k].duplicate());
                k = k + 1;
                proof {
                    assert forall|x: int|
                        0 <= x < out@.len() implies #[trigger] self.get(
                        out@[x].client_id@,
                        out@[x].topic_id@,
                    ) == Some(out@[x]) by {
                        if x == out@.len() - 1 {
                            assert(out@[x] == part@[k - 1]);
                        }
                    }
                }
            }
            proof {
                assert forall|j: int, t: Seq<char>|
                    0 <= j < i + 1 && #[trigger] self.get(self.exclusive.key_seq()[j], t) is Some
                        implies exists|x: int|
                        0 <= x < out@.len() && sub_key(out@[x]) == (self.exclusive.key_seq()[j], t) by {
                    if j < i {
                        let x = choose|x: int|
                            0 <= x < before.len() && sub_key(before[x]) == (
                                self.exclusive.key_seq()[j],
                                t,
                            );
                        assert(out@[x] == before[x]);
                    } else {
                        let y = choose|y: int| 0 <= y < part@.len() && part@[y].topic_id@ == t;
                        assert(out@[before.len() + y] == part@[y]);
                        assert(self.get(part@[y].client_id@, part@[y].topic_id@) == Some(part@[y]));
                    }
                }
            }
            i = i + 1;
        }
        proof {
            self.exclusive.lemma_keys();
            assert forall|key: (Seq<char>, Seq<char>)|
                subscription_keys(out@).contains(key) <==> self.keys().contains(key) by {
                if subscription_keys(out@).contains(key) {
                    let x = choose|x: int| 0 <= x < out@.len() && sub_key(out@[x]) == key;
                    assert(self.get(out@[x].client_id@, out@[x].topic_id@) == Some(out@[x]));
                }
                if self.keys().contains(key) {
                    assert(self.get(key.0, key.1) is Some);
                    assert(self.exclusive.key_seq().to_set().contains(key.0));
                    let j = choose|j: int|
                        0 <= j < self.exclusive.key_seq().len() && self.exclusive.key_seq()[j] == key.0;
                    assert(self.get(self.exclusive.key_seq()[j], key.1) is Some);
                    let x = choose|x: int|
                        0 <= x < out@.len() && sub_key(out@[x]) == (self.exclusive.key_seq()[j], key.1);
                    assert(sub_key(out@[x]) == key);
                }
            }
            assert(subscription_keys(out@) =~= self.keys());
        }
        out
    }
}

} // verus!
