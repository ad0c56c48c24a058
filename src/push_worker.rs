use vstd::prelude::*;
use vstd::string::StringExecFns;
use crate::ack_registry::{AckEntry, AckKind, AckRegistry};
use crate::envelope::{
    EnvelopeError, Message, Subscription, build_publish, dropped_by_nolocal, is_delivery_of,
};
use crate::group_offset::{GroupOffsets, after_commit};
use crate::packet::{
    Packet, Publish, REASON_SUCCESS, ResponsePackage, ResponseQueue, queue_for,
    same_but_dup, spec_queue_for,
};
use crate::pkid::PkidAllocator;
use crate::qos::{QoS, spec_min_qos};
use crate::qos_protocol::{
    AbandonReason, Exchange, SendAction, SendEvent, Stage, expected_ack, spec_start, spec_step,
    stage_expects, start_exchange, step_exchange,
};

verus! {

/// Records read from the log per iteration.
pub const READ_BATCH_SIZE: usize = 5;

/// Pause after an empty read or while the client is away, in ms.
pub const POLL_EMPTY_MS: u64 = 100;

/// Resends of one packet before a delivery is abandoned.
pub const MAX_RETRIES: u32 = 3;

/// Wait for an acknowledgement before a resend, in ms.
pub const ACK_TIMEOUT_MS: u64 = 5000;

pub open spec fn group_id_of(client_id: Seq<char>, topic_id: Seq<char>) -> Seq<char> {
    "system_sub_"@ + client_id + "_"@ + topic_id
}

/// Consumer group under which the worker of (`client_id`, `topic_id`) commits offsets.
pub fn subscriber_group_id(client_id: &String, topic_id: &String) -> (r: String)
    ensures
        r@ == group_id_of(client_id@, topic_id@),
{
    let mut g = String::from_str("system_sub_");
    g.append(client_id.as_str());
    g.append("_");
    g.append(topic_id.as_str());
    g
}

/// The delivery a worker waits on: the record's offset, the identifier it holds,
/// the connection it went to, the packet, and the exchange's state.
pub struct Pending {
    pub offset: u64,
    pub connection_id: u64,
    pub publish: Publish,
    pub exchange: Exchange,
}

/// What the loop around a worker does with one record.
pub enum RecordOutcome {
    /// Enqueue this first send on the given queue, then feed the exchange's events.
    Send(ResponsePackage, ResponseQueue),
    /// Skipped and committed: undecodable, or dropped by the subscription's policy.
    Skipped,
    /// The client is not connected (or has no identifier state): nothing committed;
    /// sleep and offer the record again.
    WaitForClient,
    /// Every identifier of the client is in flight: offer the record again after an ack.
    Stalled,
    /// At or below the worker's position: already handled.
    AlreadyDone,
}

/// What the loop does after one event of the pending exchange.
pub enum EventOutcome {
    Idle,
    /// Enqueue this packet (a resend, or the PubRel of QoS 2).
    Send(ResponsePackage, ResponseQueue),
    /// Delivered; the offset is committed and the identifier released.
    Completed(u64),
    /// Given up; the offset is committed and the identifier released, and a
    /// warning names the client, topic, pkid, offset and reason.
    Abandoned { offset: u64, pkid: u16, reason: AbandonReason },
}

/// One worker per (client, topic): reads the topic's records in offset order, delivers
/// each at the effective QoS and commits its offset only once delivery has ended.
pub struct PushWorker {
    sub: Subscription,
    group_id: String,
    position: Option<u64>,
    pending: Option<Pending>,
    delivered: Ghost<Seq<u64>>,
}

/// Whether `s` is strictly increasing.
pub open spec fn strictly_increasing(s: Seq<u64>) -> bool {
    forall|i: int, j: int| 0 <= i < j < s.len() ==> s[i] < s[j]
}

impl PushWorker {
    pub closed spec fn subscription(&self) -> Subscription {
        self.sub
    }

    pub closed spec fn group(&self) -> Seq<char> {
        self.group_id@
    }

    /// Offset of the last record the worker handled (delivered, skipped or pending).
    pub closed spec fn position(&self) -> Option<u64> {
        self.position
    }

    pub closed spec fn pending(&self) -> Option<Pending> {
        self.pending
    }

    /// Offsets whose first send this worker made, in order.
    pub closed spec fn delivered(&self) -> Seq<u64> {
        self.delivered@
    }

    pub closed spec fn wf(&self) -> bool {
        &&& strictly_increasing(self.delivered@)
        &&& self.group_id@ == group_id_of(self.sub.client_id@, self.sub.topic_id@)
        &&& forall|i: int|
            0 <= i < self.delivered@.len() ==> self.position is Some && self.delivered@[i]
                <= self.position->Some_0
        &&& self.pending is Some ==> self.position == Some(self.pending->Some_0.offset)
    }

    pub fn new(sub: Subscription) -> (r: Self)
        ensures
            r.wf(),
            r.subscription() == sub,
            r.position() is None,
            r.pending() is None,
            r.delivered() == Seq::<u64>::empty(),
    {
        let group_id = subscriber_group_id(&sub.client_id, &sub.topic_id);
        PushWorker { sub, group_id, position: None, pending: None, delivered: Ghost(Seq::empty()) }
    }

    pub fn group_id(&self) -> (r: &String)
        ensures
            r@ == self.group(),
    {
        &self.group_id
    }

    pub fn client_id(&self) -> (r: &String)
        ensures
            r@ == self.subscription().client_id@,
    {
        &self.sub.client_id
    }

    pub fn topic_id(&self) -> (r: &String)
        ensures
            r@ == self.subscription().topic_id@,
    {
        &self.sub.topic_id
    }

    pub fn is_waiting(&self) -> (r: bool)
        ensures
            r == self.pending() is Some,
    {
        self.pending.is_some()
    }

    /// Resends made so far by the pending exchange (0 where none is pending).
    pub fn pending_retries(&self) -> (r: u32)
        ensures
            r == match self.pending() {
                Some(p) => match p.exchange {
                    Exchange::Waiting { retries, .. } => retries,
                    _ => 0,
                },
                None => 0,
            },
    {
        match &self.pending {
            Some(p) => match p.exchange {
                Exchange::Waiting { retries, .. } => retries,
                _ => 0,
            },
            None => 0,
        }
    }

    /// Handles the record at `offset`: `decoded` is the decoded message (None where it
    /// did not decode) and `connect_id` the subscriber's current connection, if any.
    /// Undecodable records and those the no-local policy drops are committed unsent;
    /// while the client is away nothing is committed; otherwise the first send is
    /// built and, for QoS 1 and 2, its acknowledgement is registered.
    pub fn handle_record(
        &mut self,
        offset: u64,
        decoded: Option<Message>,
        connect_id: Option<u64>,
        pkids: &mut PkidAllocator,
        offsets: &mut GroupOffsets,
        acks: &mut AckRegistry,
        now: u64,
    ) -> (r: RecordOutcome)
        requires
            old(self).wf(),
            old(self).pending() is None,
            old(pkids).wf(),
            old(offsets).wf(),
            old(acks).wf(),
        ensures
            final(self).wf(),
            final(pkids).wf(),
            final(offsets).wf(),
            final(acks).wf(),
            final(self).subscription() == old(self).subscription(),
            final(self).group() == old(self).group(),
            forall|t: Seq<char>, g: Seq<char>|
                !(t == old(self).subscription().topic_id@ && g == old(self).group())
                    ==> final(offsets).committed(t, g) == old(offsets).committed(t, g),
            old(self).position() is Some && offset <= old(self).position()->Some_0 ==> r is AlreadyDone
                && *final(self) == *old(self) && *final(offsets) == *old(offsets),
            !(old(self).position() is Some && offset <= old(self).position()->Some_0) ==> {
                let sub = old(self).subscription();
                let g = old(self).group();
                let t = sub.topic_id@;
                &&& decoded is None ==> r is Skipped
                &&& decoded is Some && dropped_by_nolocal(sub, decoded->Some_0) ==> r is Skipped
                &&& r is Skipped ==> final(offsets).committed(t, g) == Some(
                    after_commit(old(offsets).committed(t, g), offset),
                ) && final(self).position() == Some(offset) && final(self).pending() is None
                    && final(self).delivered() == old(self).delivered()
                    && *final(pkids) == *old(pkids) && *final(acks) == *old(acks)
                &&& decoded is Some && !dropped_by_nolocal(sub, decoded->Some_0) && connect_id is None
                    ==> r is WaitForClient
                &&& decoded is Some && !dropped_by_nolocal(sub, decoded->Some_0) && connect_id is Some
                    ==> {
                    let qos = spec_min_qos(decoded->Some_0.qos, sub.qos);
                    let known = old(pkids).client(sub.client_id@);
                    &&& qos == QoS::AtMostOnce ==> r is Send
                    &&& qos != QoS::AtMostOnce && known is None ==> r is WaitForClient
                    &&& qos != QoS::AtMostOnce && known is Some ==> (r is Stalled
                        <==> known->Some_0.in_flight@.len() >= known->Some_0.receive_max)
                    &&& qos != QoS::AtMostOnce && known is Some && known->Some_0.in_flight@.len()
                        < known->Some_0.receive_max ==> r is Send
                }
                &&& (r is WaitForClient || r is Stalled) ==> *final(self) == *old(self)
                    && *final(offsets) == *old(offsets) && *final(acks) == *old(acks)
                &&& r is Send ==> {
                    let pkg = r->Send_0;
                    let q = r->Send_1;
                    let pp = pkg.packet->Publish_0;
                    &&& decoded is Some && !dropped_by_nolocal(sub, decoded->Some_0)
                    &&& connect_id == Some(pkg.connection_id)
                    &&& q == spec_queue_for(sub.protocol)
                    &&& pkg.packet is Publish
                    &&& is_delivery_of(pp, sub, decoded->Some_0, pp.pkid)
                &&& final(self).position() == Some(offset)
                    &&& final(self).delivered() == old(self).delivered().push(offset)
                    &&& forall|c: Seq<char>|
                        c != sub.client_id@ ==> final(pkids).client(c) == old(pkids).client(c)
                    &&& spec_min_qos(decoded->Some_0.qos, sub.qos) == QoS::AtMostOnce ==> {
                        &&& pp.pkid == 0
                        &&& final(self).pending() is None
                        &&& final(offsets).committed(t, g) == Some(
                            after_commit(old(offsets).committed(t, g), offset),
                        )
                        &&& *final(pkids) == *old(pkids)
                        &&& *final(acks) == *old(acks)
                    }
                    &&& spec_min_qos(decoded->Some_0.qos, sub.qos) != QoS::AtMostOnce ==> {
                        let qos = spec_min_qos(decoded->Some_0.qos, sub.qos);
                        let c = sub.client_id@;
                        let pend = final(self).pending()->Some_0;
                        let o = old(pkids).client(c)->Some_0;
                        let n = final(pkids).client(c)->Some_0;
                        &&& final(self).pending() is Some
                        &&& pend.exchange == spec_start(qos).0
                        &&& pend.offset == offset
                        &&& pend.connection_id == pkg.connection_id
                        &&& same_but_dup(pend.publish, pp)
                        &&& !pend.publish.dup
                        &&& pp.pkid != 0
                        &&& old(pkids).client(c) is Some
                        &&& final(pkids).client(c) is Some
                        &&& !o.in_flight@.contains(pp.pkid)
                        &&& n.in_flight@ == o.in_flight@.push(pp.pkid)
                        &&& final(acks).entry(c, pp.pkid) == Some(
                            AckEntry {
                                expected: stage_expects(spec_start(qos).0->Waiting_stage),
                                created_at: now,
                            },
                        )
                        &&& forall|c2: Seq<char>, p2: u16|
                            !(c2 == c && p2 == pp.pkid) ==> final(acks).entry(c2, p2) == old(
                                acks,
                            ).entry(c2, p2)
                        &&& *final(offsets) == *old(offsets)
                    }
                }
                &&& !(r is AlreadyDone)
            },
    {
        if let Some(p) = self.position {
            if offset <= p {
                return RecordOutcome::AlreadyDone;
            }
        }
        let msg = match decoded {
            Some(m) => m,
            None => {
                offsets.commit(&self.sub.topic_id, &self.group_id, offset);
                self.position = Some(offset);
                return RecordOutcome::Skipped;
            },
        };
        if self.sub.nolocal && self.sub.client_id == msg.client_id {
            offsets.commit(&self.sub.topic_id, &self.group_id, offset);
            self.position = Some(offset);
            return RecordOutcome::Skipped;
        }
        let connection_id = match connect_id {
            Some(c) => c,
            None => {
                return RecordOutcome::WaitForClient;
            },
        };
        let publish = match build_publish(&self.sub, &msg, pkids) {
            Ok(p) => p,
            Err(EnvelopeError::PkidExhausted) => {
                return RecordOutcome::Stalled;
            },
            Err(EnvelopeError::UnknownClient) => {
                return RecordOutcome::WaitForClient;
            },
            Err(EnvelopeError::DropBySubscriptionPolicy) => {
                offsets.commit(&self.sub.topic_id, &self.group_id, offset);
                self.position = Some(offset);
                return RecordOutcome::Skipped;
            },
        };
        let (exchange, _first) = start_exchange(publish.qos);
        let queue = queue_for(self.sub.protocol);
        let first = publish.with_dup(false);
        self.position = Some(offset);
        proof {
            self.delivered@ = self.delivered@.push(offset);
            assert forall|i: int, j: int|
                0 <= i < j < self.delivered@.len() implies self.delivered@[i] < self.delivered@[j] by {
                if j == self.delivered@.len() - 1 {
                    assert(old(self).delivered@[i] <= old(self).position->Some_0);
                }
            }
        }
        match exchange {
            Exchange::Waiting { stage, .. } => {
                acks.rearm(&self.sub.client_id, publish.pkid, expected_ack(stage), now);
                self.pending = Some(Pending { offset, connection_id, publish, exchange });
            },
            _ => {
                offsets.commit(&self.sub.topic_id, &self.group_id, offset);
            },
        }
        RecordOutcome::Send(
            ResponsePackage { connection_id, packet: Packet::Publish(first) },
            queue,
        )
    }

    /// Feeds one event to the pending exchange (an acknowledgement the registry routed
    /// here, a timeout, the client leaving or coming back) and carries out the step:
    /// resends keep the identifier, PubRel is registered as awaiting PubComp, and a
    /// finished delivery releases its identifier and commits its offset.
    pub fn handle_event(
        &mut self,
        ev: SendEvent,
        pkids: &mut PkidAllocator,
        offsets: &mut GroupOffsets,
        acks: &mut AckRegistry,
        now: u64,
    ) -> (r: EventOutcome)
        requires
            old(self).wf(),
            old(self).pending() is Some,
            old(pkids).wf(),
            old(offsets).wf(),
            old(acks).wf(),
        ensures
            final(self).wf(),
            final(pkids).wf(),
            final(offsets).wf(),
            final(acks).wf(),
            final(self).subscription() == old(self).subscription(),
            final(self).group() == old(self).group(),
            final(self).position() == old(self).position(),
            final(self).delivered() == old(self).delivered(),
            ({
                let p = old(self).pending()->Some_0;
                let sub = old(self).subscription();
                let (x, a) = spec_step(p.exchange, ev, MAX_RETRIES);
                let t = sub.topic_id@;
                let g = old(self).group();
                let c = sub.client_id@;
                let conn = if ev is Reconnected {
                    ev->Reconnected_connection_id
                } else {
                    p.connection_id
                };
                &&& forall|t2: Seq<char>, g2: Seq<char>|
                    !(t2 == t && g2 == g) ==> final(offsets).committed(t2, g2) == old(
                        offsets,
                    ).committed(t2, g2)
                &&& a == SendAction::Complete ==> r == EventOutcome::Completed(p.offset)
                &&& a is Abandon ==> r == (EventOutcome::Abandoned {
                    offset: p.offset,
                    pkid: p.publish.pkid,
                    reason: a->Abandon_reason,
                })
                &&& (a == SendAction::Complete || a is Abandon) ==> {
                    &&& final(self).pending() is None
                    &&& final(offsets).committed(t, g) == Some(
                        after_commit(old(offsets).committed(t, g), p.offset),
                    )
                    &&& final(acks).entry(sub.client_id@, p.publish.pkid) is None
                    &&& final(pkids).client(sub.client_id@) is Some ==> !final(pkids).client(
                        sub.client_id@,
                    )->Some_0.in_flight@.contains(p.publish.pkid)
                }
                &&& !(a == SendAction::Complete || a is Abandon) ==> {
                    &&& *final(offsets) == *old(offsets)
                    &&& *final(pkids) == *old(pkids)
                    &&& a != SendAction::SendPubRel ==> *final(acks) == *old(acks)
                    &&& final(self).pending() is Some
                    &&& final(self).pending()->Some_0.connection_id == conn
                    &&& final(self).pending()->Some_0.exchange == x
                    &&& final(self).pending()->Some_0.offset == p.offset
                    &&& final(self).pending()->Some_0.publish == p.publish
                }
                &&& a == SendAction::Nothing ==> r is Idle
                &&& a is SendPublish ==> {
                    let pkg = r->Send_0;
                    let pp = pkg.packet->Publish_0;
                    &&& r is Send
                    &&& pkg.connection_id == conn
                    &&& r->Send_1 == spec_queue_for(sub.protocol)
                    &&& pkg.packet is Publish
                    &&& pp.dup == a->SendPublish_dup
                    &&& same_but_dup(pp, p.publish)
                }
                &&& a == SendAction::SendPubRel ==> {
                    let pkg = r->Send_0;
                    &&& r is Send
                    &&& pkg.connection_id == conn
                    &&& r->Send_1 == spec_queue_for(sub.protocol)
                    &&& pkg.packet == (Packet::PubRel { pkid: p.publish.pkid, reason: 0, properties: None })
                    &&& final(acks).entry(c, p.publish.pkid) == Some(
                        AckEntry { expected: AckKind::PubComp, created_at: now },
                    )
                    &&& forall|c2: Seq<char>, p2: u16|
                        !(c2 == c && p2 == p.publish.pkid) ==> final(acks).entry(c2, p2) == old(
                            acks,
                        ).entry(c2, p2)
                }
            }),
    {
        let p = self.pending.take().unwrap();
        let (x, a) = step_exchange(p.exchange, ev, MAX_RETRIES);
        let queue = queue_for(self.sub.protocol);
        let conn = match ev {
            SendEvent::Reconnected { connection_id } => connection_id,
            _ => p.connection_id,
        };
        match a {
            SendAction::Complete => {
                pkids.release(&self.sub.client_id, p.publish.pkid);
                acks.remove(&self.sub.client_id, p.publish.pkid);
                offsets.commit(&self.sub.topic_id, &self.group_id, p.offset);
                EventOutcome::Completed(p.offset)
            },
            SendAction::Abandon { reason } => {
                pkids.release(&self.sub.client_id, p.publish.pkid);
                acks.remove(&self.sub.client_id, p.publish.pkid);
                offsets.commit(&self.sub.topic_id, &self.group_id, p.offset);
                EventOutcome::Abandoned { offset: p.offset, pkid: p.publish.pkid, reason }
            },
            SendAction::SendPublish { dup } => {
                let again = p.publish.with_dup(dup);
                self.pending = Some(Pending { exchange: x, connection_id: conn, ..p });
                EventOutcome::Send(
                    ResponsePackage { connection_id: conn, packet: Packet::Publish(again) },
                    queue,
                )
            },
            SendAction::SendPubRel => {
                let pkid = p.publish.pkid;
                acks.rearm(&self.sub.client_id, pkid, expected_ack(Stage::AwaitPubComp), now);
                self.pending = Some(Pending { exchange: x, connection_id: conn, ..p });
                EventOutcome::Send(
                    ResponsePackage {
                        connection_id: conn,
                        packet: Packet::PubRel { pkid, reason: REASON_SUCCESS, properties: None },
                    },
                    queue,
                )
            },
            SendAction::Nothing => {
                self.pending = Some(Pending { exchange: x, connection_id: conn, ..p });
                EventOutcome::Idle
            },
        }
    }
}

/// Offsets a worker delivers come in strictly increasing order.
pub proof fn lemma_delivery_fifo(w: PushWorker)
    requires
        w.wf(),
    ensures
        strictly_increasing(w.delivered()),
{
}

} // verus!
