use vstd::prelude::*;
use crate::envelope::Subscription;

verus! {

/// Identity of a push worker: one per (client, topic).
#[derive(Clone, Debug)]
pub struct WorkerKey {
    pub client_id: String,
    pub topic_id: String,
}

pub open spec fn key_of(k: WorkerKey) -> (Seq<char>, Seq<char>) {
    (k.client_id@, k.topic_id@)
}

pub open spec fn sub_key(s: Subscription) -> (Seq<char>, Seq<char>) {
    (s.client_id@, s.topic_id@)
}

/// The (client, topic) pairs of a list of workers.
pub open spec fn worker_keys(ws: Seq<WorkerKey>) -> Set<(Seq<char>, Seq<char>)> {
    Set::new(|k: (Seq<char>, Seq<char>)| exists|i: int| 0 <= i < ws.len() && key_of(ws[i]) == k)
}

/// The (client, topic) pairs of a list of subscriptions.
pub open spec fn subscription_keys(subs: Seq<Subscription>) -> Set<(Seq<char>, Seq<char>)> {
    Set::new(|k: (Seq<char>, Seq<char>)| exists|i: int| 0 <= i < subs.len() && sub_key(subs[i]) == k)
}

/// Whether no two workers of `ws` share a (client, topic) pair.
pub open spec fn distinct_keys(ws: Seq<WorkerKey>) -> bool {
    forall|i: int, j: int| 0 <= i < j < ws.len() ==> key_of(ws[i]) != key_of(ws[j])
}

/// Workers to start and to stop after one reconciliation.
pub struct Reconcile {
    pub spawn: Vec<WorkerKey>,
    pub stop: Vec<WorkerKey>,
}

/// The set of live push workers, owned by the one component that starts and stops them.
pub struct Supervisor {
    workers: Vec<WorkerKey>,
}

fn copy_key(k: &WorkerKey) -> (r: WorkerKey)
    ensures
        key_of(r) == key_of(*k),
{
    WorkerKey { client_id: k.client_id.clone(), topic_id: k.topic_id.clone() }
}

fn has_worker(ws: &Vec<WorkerKey>, client_id: &String, topic_id: &String) -> (r: bool)
    ensures
        r == worker_keys(ws@).contains((client_id@, topic_id@)),
{
    let mut i: usize = 0;
    while i < ws.len()
        invariant
            i <= ws@.len(),
            forall|j: int| 0 <= j < i ==> key_of(ws@[j]) != (client_id@, topic_id@),
        decreases ws@.len() - i,
    {
        if ws[i].client_id == *client_id && ws[i].topic_id == *topic_id {
            proof {
                assert(key_of(ws@[i as int]) == (client_id@, topic_id@));
            }
            return true;
        }
        i = i + 1;
    }
    false
}

fn has_subscription(subs: &Vec<Subscription>, client_id: &String, topic_id: &String) -> (r: bool)
    ensures
        r == subscription_keys(subs@).contains((client_id@, topic_id@)),
{
    let mut i: usize = 0;
    while i < subs.len()
        invariant
            i <= subs@.len(),
            forall|j: int| 0 <= j < i ==> sub_key(subs@[j]) != (client_id@, topic_id@),
        decreases subs@.len() - i,
    {
        if subs[i].client_id == *client_id && subs[i].topic_id == *topic_id {
            proof {
                assert(sub_key(subs@[i as int]) == (client_id@, topic_id@));
            }
            return true;
        }
        i = i + 1;
    }
    false
}

impl Supervisor {
    /// The (client, topic) pairs that have a live worker.
    pub closed spec fn live(&self) -> Set<(Seq<char>, Seq<char>)> {
        worker_keys(self.workers@)
    }

    pub fn new() -> (r: Self)
        ensures
            r.live() == Set::<(Seq<char>, Seq<char>)>::empty(),
    {
        let r = Supervisor { workers: Vec::new() };
        proof {
            assert(r.live() =~= Set::<(Seq<char>, Seq<char>)>::empty());
        }
        r
    }

    pub fn is_live(&self, client_id: &String, topic_id: &String) -> (r: bool)
        ensures
            r == self.live().contains((client_id@, topic_id@)),
    {
        has_worker(&self.workers, client_id, topic_id)
    }

    /// Brings the live workers in line with the current exclusive subscriptions: a
    /// worker starts for each subscription without one and stops where its
    /// subscription is gone. Afterwards the live set is the subscriptions' set.
    pub fn reconcile(&mut self, subs: &Vec<Subscription>) -> (r: Reconcile)
        ensures
            final(self).live() == subscription_keys(subs@),
            worker_keys(r.spawn@) == subscription_keys(subs@).difference(old(self).live()),
            distinct_keys(r.spawn@),
            worker_keys(r.stop@) == old(self).live().difference(subscription_keys(subs@)),
    {
        let mut stop: Vec<WorkerKey> = Vec::new();
        let mut i: usize = 0;
        while i < self.workers.len()
            invariant
                *self == *old(self),
                i <= self.workers@.len(),
                forall|k: (Seq<char>, Seq<char>)|
                    worker_keys(stop@).contains(k) <==> (exists|j: int|
                        0 <= j < i && key_of(self.workers@[j]) == k) && !subscription_keys(
                        subs@,
                    ).contains(k),
            decreases self.workers@.len() - i,
        {
            let w = &self.workers[i];
            if !has_subscription(subs, &w.client_id, &w.topic_id) {
                let ghost before = stop@;
                stop.push(copy_key(w));
                proof {
                    assert forall|k: (Seq<char>, Seq<char>)|
                        worker_keys(stop@).contains(k) <==> (exists|j: int|
                            0 <= j < i + 1 && key_of(self.workers@[j]) == k)
                            && !subscription_keys(subs@).contains(k) by {
                        if worker_keys(stop@).contains(k) {
                            let x = choose|x: int| 0 <= x < stop@.len() && key_of(stop@[x]) == k;
                            if x < before.len() {
                                assert(key_of(before[x]) == k);
                                assert(worker_keys(before).contains(k));
                            } else {
                                assert(key_of(self.workers@[i as int]) == k);
                            }
                        }
                        if (exists|j: int| 0 <= j < i + 1 && key_of(self.workers@[j]) == k)
                            && !subscription_keys(subs@).contains(k) {
                            let j = choose|j: int| 0 <= j < i + 1 && key_of(self.workers@[j]) == k;
                            if j < i {
                                assert(worker_keys(before).contains(k));
                                let x = choose|x: int|
                                    0 <= x < before.len() && key_of(before[x]) == k;
                                assert(stop@[x] == before[x]);
                            } else {
                                assert(key_of(stop@[before.len() as int]) == k);
                            }
                        }
                    }
                }
            } else {
                proof {
                    assert forall|k: (Seq<char>, Seq<char>)|
                        worker_keys(stop@).contains(k) <==> (exists|j: int|
                            0 <= j < i + 1 && key_of(self.workers@[j]) == k)
                            && !subscription_keys(subs@).contains(k) by {
                        if (exists|j: int| 0 <= j < i + 1 && key_of(self.workers@[j]) == k)
                            && !subscription_keys(subs@).contains(k) {
                            let j = choose|j: int| 0 <= j < i + 1 && key_of(self.workers@[j]) == k;
                            assert(j != i);
                        }
                    }
                }
            }
            i = i + 1;
        }
        let mut next: Vec<WorkerKey> = Vec::new();
        let mut spawn: Vec<WorkerKey> = Vec::new();
        let mut s: usize = 0;
        while s < subs.len()
            invariant
                *self == *old(self),
                s <= subs@.len(),
                forall|k: (Seq<char>, Seq<char>)|
                    worker_keys(next@).contains(k) <==> exists|j: int|
                        0 <= j < s && sub_key(subs@[j]) == k,
                forall|k: (Seq<char>, Seq<char>)|
                    worker_keys(spawn@).contains(k) <==> (exists|j: int|
                        0 <= j < s && sub_key(subs@[j]) == k) && !self.live().contains(k),
                distinct_keys(spawn@),
            decreases subs@.len() - s,
        {
            let sub = &subs[s];
            let ghost k0 = sub_key(subs@[s as int]);
            if !has_worker(&next, &sub.client_id, &sub.topic_id) {
                let ghost before = next@;
                let ghost spawn_before = spawn@;
                next.push(WorkerKey { client_id: sub.client_id.clone(), topic_id: sub.topic_id.clone() });
                let fresh = !has_worker(&self.workers, &sub.client_id, &sub.topic_id);
                if fresh {
                    spawn.push(WorkerKey { client_id: sub.client_id.clone(), topic_id: sub.topic_id.clone() });
                }
                proof {
                    assert(key_of(next@[before.len() as int]) == k0);
                    assert forall|k: (Seq<char>, Seq<char>)|
                        worker_keys(next@).contains(k) <==> exists|j: int|
                            0 <= j < s + 1 && sub_key(subs@[j]) == k by {
                        if worker_keys(next@).contains(k) {
                            let x = choose|x: int| 0 <= x < next@.len() && key_of(next@[x]) == k;
                            if x < before.len() {
                                assert(key_of(before[x]) == k);
                                assert(worker_keys(before).contains(k));
                            }
                        }
                        if exists|j: int| 0 <= j < s + 1 && sub_key(subs@[j]) == k {
                            let j = choose|j: int| 0 <= j < s + 1 && sub_key(subs@[j]) == k;
                            if j < s {
                                assert(worker_keys(before).contains(k));
                                let x = choose|x: int|
                                    0 <= x < before.len() && key_of(before[x]) == k;
                                assert(next@[x] == before[x]);
                            }
                        }
                    }
                    if fresh {
                        assert(key_of(spawn@[spawn_before.len() as int]) == k0);
                        assert(!worker_keys(spawn_before).contains(k0));
                        assert forall|i: int, j: int|
                            0 <= i < j < spawn@.len() implies key_of(spawn@[i]) != key_of(spawn@[j]) by {
                            if j == spawn_before.len() {
                                assert(spawn@[i] == spawn_before[i]);
                                if key_of(spawn@[i]) == k0 {
                                    assert(worker_keys(spawn_before).contains(k0));
                                }
                            } else {
                                assert(spawn@[i] == spawn_before[i] && spawn@[j] == spawn_before[j]);
                            }
                        }
                    }
                    assert forall|k: (Seq<char>, Seq<char>)|
                        worker_keys(spawn@).contains(k) <==> (exists|j: int|
                            0 <= j < s + 1 && sub_key(subs@[j]) == k) && !self.live().contains(k) by {
                        if worker_keys(spawn@).contains(k) {
                            let x = choose|x: int| 0 <= x < spawn@.len() && key_of(spawn@[x]) == k;
                            if x < spawn_before.len() {
                                assert(key_of(spawn_before[x]) == k);
                                assert(worker_keys(spawn_before).contains(k));
                            }
                        }
                        if (exists|j: int| 0 <= j < s + 1 && sub_key(subs@[j]) == k)
                            && !self.live().contains(k) {
                            let j = choose|j: int| 0 <= j < s + 1 && sub_key(subs@[j]) == k;
                            if j < s {
                                assert(worker_keys(spawn_before).contains(k));
                                let x = choose|x: int|
                                    0 <= x < spawn_before.len() && key_of(spawn_before[x]) == k;
                                assert(spawn@[x] == spawn_before[x]);
                            } else {
                                assert(key_of(spawn@[spawn_before.len() as int]) == k);
                            }
                        }
                    }
                }
            } else {
                proof {
                    assert(worker_keys(next@).contains(k0));
                    assert forall|k: (Seq<char>, Seq<char>)|
                        worker_keys(next@).contains(k) <==> exists|j: int|
                            0 <= j < s + 1 && sub_key(subs@[j]) == k by {
                        if exists|j: int| 0 <= j < s + 1 && sub_key(subs@[j]) == k {
                            let j = choose|j: int| 0 <= j < s + 1 && sub_key(subs@[j]) == k;
                            if j == s {
                                assert(worker_keys(next@).contains(k0));
                            }
                        }
                    }
                    let j0 = choose|j: int| 0 <= j < s && sub_key(subs@[j]) == k0;
                    assert forall|k: (Seq<char>, Seq<char>)|
                        worker_keys(spawn@).contains(k) <==> (exists|j: int|
                            0 <= j < s + 1 && sub_key(subs@[j]) == k) && !self.live().contains(k) by {
                        if (exists|j: int| 0 <= j < s + 1 && sub_key(subs@[j]) == k)
                            && !self.live().contains(k) {
                            let j = choose|j: int| 0 <= j < s + 1 && sub_key(subs@[j]) == k;
                            if j == s {
                                assert(sub_key(subs@[j0]) == k);
                            }
                        }
                    }
                }
            }
            s = s + 1;
        }
        self.workers = next;
        proof {
            assert(self.live() =~= subscription_keys(subs@));
            assert(worker_keys(spawn@) =~= subscription_keys(subs@).difference(old(self).live()));
            assert(worker_keys(stop@) =~= old(self).live().difference(subscription_keys(subs@)));
        }
        Reconcile { spawn, stop }
    }
}

/// Window in which a worker's crashes are counted, in ms.
pub const CRASH_WINDOW_MS: u64 = 60000;

/// Crashes within the window that a subscription's worker may have and still restart.
pub const MAX_CRASHES: usize = 5;

/// Pause before a crashed worker starts again, in ms.
pub const RESPAWN_COOLDOWN_MS: u64 = 1000;

/// What the supervisor does when a worker has exited.
#[derive(Clone, Copy, Debug, PartialEq, Eq, Structural)]
pub enum RestartDecision {
    /// Start the worker again after this many ms.
    RespawnAfter(u64),
    /// Too many recent crashes: keep it stopped until the client subscribes again.
    Halt,
    /// Its subscription is gone: nothing to restart.
    Forget,
}

/// Whether a crash at `t` lies within the window ending at `now`.
pub open spec fn is_recent(t: u64, now: u64) -> bool {
    t <= now && now - t < CRASH_WINDOW_MS
}

/// How many of `times` lie within the window ending at `now`.
pub open spec fn recent_crashes(times: Seq<u64>, now: u64) -> nat
    decreases times.len(),
{
    if times.len() == 0 {
        0
    } else {
        recent_crashes(times.drop_last(), now) + if is_recent(times.last(), now) {
            1nat
        } else {
            0nat
        }
    }
}

/// Decides on a worker that exited at `now`, given the times of its crashes
/// (this one included): forget it where its subscription is gone, halt it after more
/// than `MAX_CRASHES` crashes within `CRASH_WINDOW_MS`, else restart it after the
/// cool-down.
pub fn restart_decision(crash_times: &Vec<u64>, now: u64, subscribed: bool) -> (r: RestartDecision)
    ensures
        !subscribed ==> r == RestartDecision::Forget,
        subscribed && recent_crashes(crash_times@, now) > MAX_CRASHES ==> r == RestartDecision::Halt,
        subscribed && recent_crashes(crash_times@, now) <= MAX_CRASHES ==> r
            == RestartDecision::RespawnAfter(RESPAWN_COOLDOWN_MS),
{
    if !subscribed {
        return RestartDecision::Forget;
    }
    let mut count: usize = 0;
    let mut i: usize = 0;
    while i < crash_times.len()
        invariant
            i <= crash_times@.len(),
            count == recent_crashes(crash_times@.subrange(0, i as int), now),
            count <= i,
        decreases crash_times@.len() - i,
    {
        let t = crash_times[i];
        proof {
            assert(crash_times@.subrange(0, i + 1).drop_last() =~= crash_times@.subrange(0, i as int));
        }
        if t <= now && now - t < CRASH_WINDOW_MS {
            count = count + 1;
        }
        i = i + 1;
    }
    proof {
        assert(crash_times@.subrange(0, i as int) =~= crash_times@);
    }
    if count > MAX_CRASHES {
        RestartDecision::Halt
    } else {
        RestartDecision::RespawnAfter(RESPAWN_COOLDOWN_MS)
    }
}

} // verus!
