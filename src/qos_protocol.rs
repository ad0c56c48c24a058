use vstd::prelude::*;
use crate::ack_registry::AckKind;
use crate::keyed::PkidMap;
use crate::packet::{Packet, REASON_SUCCESS, is_failure_reason, reason_is_failure};
use crate::qos::QoS;

verus! {

/// Longest pause between two retries, in ms.
pub const MAX_BACKOFF_MS: u64 = 30000;

/// First pause between retries, in ms.
pub const BASE_BACKOFF_MS: u64 = 1000;

/// `base` doubled `n` times.
pub open spec fn doubled(base: nat, n: nat) -> nat
    decreases n,
{
    if n == 0 {
        base
    } else {
        2 * doubled(base, (n - 1) as nat)
    }
}

/// Pause before retry number `retry` (counting from 0): 1 s, 2 s, 4 s, ... capped at `cap`.
pub open spec fn spec_backoff(retry: nat, cap: nat) -> nat {
    if doubled(BASE_BACKOFF_MS as nat, retry) < cap {
        doubled(BASE_BACKOFF_MS as nat, retry)
    } else {
        cap
    }
}

proof fn lemma_doubled_grows(base: nat, n: nat, m: nat)
    requires
        n <= m,
    ensures
        doubled(base, n) <= doubled(base, m),
    decreases m,
{
    if n < m {
        lemma_doubled_grows(base, n, (m - 1) as nat);
    }
}

/// Exponential backoff before retry number `retry`, capped at `cap` ms.
pub fn backoff_ms(retry: u32, cap: u64) -> (r: u64)
    ensures
        r == spec_backoff(retry as nat, cap as nat),
        r <= cap,
{
    let cap_wide = cap as u128;
    let mut d: u128 = BASE_BACKOFF_MS as u128;
    let mut i: u32 = 0;
    while i < retry && d < cap_wide
        invariant
            cap_wide == cap,
            i <= retry,
            d == doubled(BASE_BACKOFF_MS as nat, i as nat),
        decreases retry - i,
    {
        proof {
            assert(d < cap_wide);
        }
        d = d * 2;
        i = i + 1;
    }
    proof {
        if i < retry {
            lemma_doubled_grows(BASE_BACKOFF_MS as nat, i as nat, retry as nat);
        }
    }
    if d < cap_wide {
        d as u64
    } else {
        cap
    }
}

/// What a sender waits for next.
#[derive(Clone, Copy, Debug, PartialEq, Eq, Structural)]
pub enum Stage {
    /// QoS 1: the Publish was sent, PubAck is due.
    AwaitPubAck,
    /// QoS 2: the Publish was sent, PubRec is due.
    AwaitPubRec,
    /// QoS 2: PubRel was sent, PubComp is due.
    AwaitPubComp,
}

pub open spec fn stage_expects(s: Stage) -> AckKind {
    match s {
        Stage::AwaitPubAck => AckKind::PubAck,
        Stage::AwaitPubRec => AckKind::PubRec,
        Stage::AwaitPubComp => AckKind::PubComp,
    }
}

/// Acknowledgement kind a sender in stage `s` waits for.
pub fn expected_ack(s: Stage) -> (r: AckKind)
    ensures
        r == stage_expects(s),
{
    match s {
        Stage::AwaitPubAck => AckKind::PubAck,
        Stage::AwaitPubRec => AckKind::PubRec,
        Stage::AwaitPubComp => AckKind::PubComp,
    }
}

/// State of one outbound delivery under one packet identifier.
#[derive(Clone, Copy, Debug, PartialEq, Eq, Structural)]
pub enum Exchange {
    /// Waiting for an acknowledgement; `retries` resends so far; while the client is
    /// not `connected` nothing is resent.
    Waiting { stage: Stage, retries: u32, connected: bool },
    /// Delivered and acknowledged (or, for QoS 0, handed to the response queue).
    Done,
    /// Given up: a failure reason code from the peer, or retries exhausted.
    Abandoned,
}

/// What the worker does after a step of an exchange.
#[derive(Clone, Copy, Debug, PartialEq, Eq, Structural)]
pub enum SendAction {
    Nothing,
    /// Enqueue the Publish; `dup` marks a retransmission.
    SendPublish { dup: bool },
    /// Enqueue PubRel under the same identifier.
    SendPubRel,
    /// Release the identifier and commit the offset: delivery complete.
    Complete,
    /// Release the identifier, commit the offset and report the message as abandoned.
    Abandon { reason: AbandonReason },
}

/// Why a delivery was given up.
#[derive(Clone, Copy, Debug, PartialEq, Eq, Structural)]
pub enum AbandonReason {
    /// The client answered with this failure reason code.
    Rejected(u8),
    /// No acknowledgement came after the last allowed resend.
    RetriesExhausted,
}

/// Events that drive an exchange.
#[derive(Clone, Copy, Debug, PartialEq, Eq, Structural)]
pub enum SendEvent {
    Ack { kind: AckKind, reason: u8 },
    Timeout,
    Disconnected,
    /// The client is back, on connection `connection_id`.
    Reconnected { connection_id: u64 },
}

pub open spec fn spec_start(qos: QoS) -> (Exchange, SendAction) {
    match qos {
        QoS::AtMostOnce => (Exchange::Done, SendAction::SendPublish { dup: false }),
        QoS::AtLeastOnce => (
            Exchange::Waiting { stage: Stage::AwaitPubAck, retries: 0, connected: true },
            SendAction::SendPublish { dup: false },
        ),
        QoS::ExactlyOnce => (
            Exchange::Waiting { stage: Stage::AwaitPubRec, retries: 0, connected: true },
            SendAction::SendPublish { dup: false },
        ),
    }
}

/// The packet a sender in stage `s` (re)sends.
pub open spec fn resend_action(s: Stage) -> SendAction {
    match s {
        Stage::AwaitPubComp => SendAction::SendPubRel,
        _ => SendAction::SendPublish { dup: true },
    }
}

pub open spec fn spec_step(x: Exchange, ev: SendEvent, max_retries: u32) -> (Exchange, SendAction) {
    match x {
        Exchange::Waiting { stage, retries, connected } => match ev {
            SendEvent::Ack { kind, reason } => if kind != stage_expects(stage) {
                (x, SendAction::Nothing)
            } else if stage == Stage::AwaitPubComp {
                (Exchange::Done, SendAction::Complete)
            } else if is_failure_reason(reason) {
                (Exchange::Abandoned, SendAction::Abandon { reason: AbandonReason::Rejected(reason) })
            } else if stage == Stage::AwaitPubAck {
                (Exchange::Done, SendAction::Complete)
            } else {
                (
                    Exchange::Waiting { stage: Stage::AwaitPubComp, retries: 0, connected },
                    SendAction::SendPubRel,
                )
            },
            SendEvent::Timeout => if !connected {
                (x, SendAction::Nothing)
            } else if retries >= max_retries {
                (Exchange::Abandoned, SendAction::Abandon { reason: AbandonReason::RetriesExhausted })
            } else {
                (
                    Exchange::Waiting { stage, retries: (retries + 1) as u32, connected },
                    resend_action(stage),
                )
            },
            SendEvent::Disconnected => (
                Exchange::Waiting { stage, retries, connected: false },
                SendAction::Nothing,
            ),
            SendEvent::Reconnected { .. } => if connected {
                (x, SendAction::Nothing)
            } else {
                (Exchange::Waiting { stage, retries, connected: true }, resend_action(stage))
            },
        },
        _ => (x, SendAction::Nothing),
    }
}

/// First step of a delivery at effective QoS `qos`: the Publish goes out without DUP.
pub fn start_exchange(qos: QoS) -> (r: (Exchange, SendAction))
    ensures
        r == spec_start(qos),
        r.1 == (SendAction::SendPublish { dup: false }),
{
    match qos {
        QoS::AtMostOnce => (Exchange::Done, SendAction::SendPublish { dup: false }),
        QoS::AtLeastOnce => (
            Exchange::Waiting { stage: Stage::AwaitPubAck, retries: 0, connected: true },
            SendAction::SendPublish { dup: false },
        ),
        QoS::ExactlyOnce => (
            Exchange::Waiting { stage: Stage::AwaitPubRec, retries: 0, connected: true },
            SendAction::SendPublish { dup: false },
        ),
    }
}

fn resend(stage: Stage) -> (r: SendAction)
    ensures
        r == resend_action(stage),
{
    match stage {
        Stage::AwaitPubComp => SendAction::SendPubRel,
        _ => SendAction::SendPublish { dup: true },
    }
}

/// Advances an exchange by one event. A matching PubAck (or PubComp) completes it;
/// a matching PubRec moves QoS 2 on to PubRel; a failure reason code abandons it;
/// a timeout resends (Publish with DUP, or PubRel) until `max_retries` resends were
/// made, then abandons; while the client is away nothing is resent, and on its
/// return the pending packet goes out again.
pub fn step_exchange(x: Exchange, ev: SendEvent, max_retries: u32) -> (r: (Exchange, SendAction))
    ensures
        r == spec_step(x, ev, max_retries),
{
    match x {
        Exchange::Waiting { stage, retries, connected } => match ev {
            SendEvent::Ack { kind, reason } => {
                if kind != expected_ack(stage) {
                    (x, SendAction::Nothing)
                } else if stage == Stage::AwaitPubComp {
                    (Exchange::Done, SendAction::Complete)
                } else if reason_is_failure(reason) {
                    (Exchange::Abandoned, SendAction::Abandon { reason: AbandonReason::Rejected(reason) })
                } else if stage == Stage::AwaitPubAck {
                    (Exchange::Done, SendAction::Complete)
                } else {
                    (
                        Exchange::Waiting { stage: Stage::AwaitPubComp, retries: 0, connected },
                        SendAction::SendPubRel,
                    )
                }
            },
            SendEvent::Timeout => {
                if !connected {
                    (x, SendAction::Nothing)
                } else if retries >= max_retries {
                    (
                        Exchange::Abandoned,
                        SendAction::Abandon { reason: AbandonReason::RetriesExhausted },
                    )
                } else {
                    (Exchange::Waiting { stage, retries: retries + 1, connected }, resend(stage))
                }
            },
            SendEvent::Disconnected => (
                Exchange::Waiting { stage, retries, connected: false },
                SendAction::Nothing,
            ),
            SendEvent::Reconnected { .. } => {
                if connected {
                    (x, SendAction::Nothing)
                } else {
                    (Exchange::Waiting { stage, retries, connected: true }, resend(stage))
                }
            },
        },
        _ => (x, SendAction::Nothing),
    }
}

/// With the client connected and every acknowledgement a success, a QoS 1 delivery
/// sends its Publish once, without DUP, and completes on the PubAck.
pub proof fn lemma_qos1_acked_delivers_once(max_retries: u32, reason: u8)
    requires
        !is_failure_reason(reason),
    ensures
        spec_start(QoS::AtLeastOnce).1 == (SendAction::SendPublish { dup: false }),
        spec_step(
            spec_start(QoS::AtLeastOnce).0,
            SendEvent::Ack { kind: AckKind::PubAck, reason },
            max_retries,
        ) == (Exchange::Done, SendAction::Complete),
{
}

/// With every acknowledgement a success, a QoS 2 delivery sends its Publish once,
/// then one PubRel, and completes on the PubComp.
pub proof fn lemma_qos2_acked_delivers_once(max_retries: u32, rec: u8, comp: u8)
    requires
        !is_failure_reason(rec),
    ensures
        ({
            let (x1, a1) = spec_start(QoS::ExactlyOnce);
            let (x2, a2) = spec_step(x1, SendEvent::Ack { kind: AckKind::PubRec, reason: rec }, max_retries);
            let (x3, a3) = spec_step(x2, SendEvent::Ack { kind: AckKind::PubComp, reason: comp }, max_retries);
            &&& a1 == (SendAction::SendPublish { dup: false })
            &&& a2 == SendAction::SendPubRel
            &&& x3 == Exchange::Done
            &&& a3 == SendAction::Complete
        }),
{
}

/// A client that drops before acknowledging gets the pending packet again on its
/// return: the Publish with DUP set, or the PubRel once PubRec was seen.
pub proof fn lemma_redelivered_on_reconnect(
    stage: Stage,
    retries: u32,
    max_retries: u32,
    connection_id: u64,
)
    ensures
        ({
            let (x1, a1) = spec_step(
                Exchange::Waiting { stage, retries, connected: true },
                SendEvent::Disconnected,
                max_retries,
            );
            let (x2, a2) = spec_step(x1, SendEvent::Reconnected { connection_id }, max_retries);
            &&& a1 == SendAction::Nothing
            &&& x2 == Exchange::Waiting { stage, retries, connected: true }
            &&& a2 == resend_action(stage)
            &&& stage != Stage::AwaitPubComp ==> a2 == (SendAction::SendPublish { dup: true })
        }),
{
}

/// With no acknowledgement at all, a QoS 1 Publish is sent once, resent three times
/// with DUP set, and then abandoned.
pub proof fn lemma_qos1_unacked_abandoned()
    ensures
        ({
            let (x0, a0) = spec_start(QoS::AtLeastOnce);
            let (x1, a1) = spec_step(x0, SendEvent::Timeout, 3);
            let (x2, a2) = spec_step(x1, SendEvent::Timeout, 3);
            let (x3, a3) = spec_step(x2, SendEvent::Timeout, 3);
            let (x4, a4) = spec_step(x3, SendEvent::Timeout, 3);
            &&& a0 == (SendAction::SendPublish { dup: false })
            &&& a1 == (SendAction::SendPublish { dup: true })
            &&& a2 == (SendAction::SendPublish { dup: true })
            &&& a3 == (SendAction::SendPublish { dup: true })
            &&& x4 == Exchange::Abandoned
            &&& a4 == (SendAction::Abandon { reason: AbandonReason::RetriesExhausted })
        }),
{
}

/// Identifiers of QoS 2 publications received from one client whose PubRel has not
/// come yet, each with the time (ms) its Publish arrived.
pub struct InboundQos2 {
    pending: PkidMap<u64>,
}

impl InboundQos2 {
    pub closed spec fn wf(&self) -> bool {
        self.pending.wf()
    }

    /// The identifiers waiting for PubRel, with their arrival times.
    pub closed spec fn pending(&self) -> Map<u16, u64> {
        self.pending@
    }

    pub fn new() -> (r: Self)
        ensures
            r.wf(),
            r.pending() == Map::<u16, u64>::empty(),
    {
        InboundQos2 { pending: PkidMap::new() }
    }

    /// A QoS 2 Publish arrived under `pkid`: answer PubRec and wait for PubRel.
    pub fn on_publish(&mut self, pkid: u16, now: u64) -> (r: Packet)
        requires
            old(self).wf(),
        ensures
            final(self).wf(),
            final(self).pending() == old(self).pending().insert(pkid, now),
            r == (Packet::PubRec { pkid, reason: REASON_SUCCESS, properties: None }),
    {
        self.pending.insert(pkid, now);
        Packet::PubRec { pkid, reason: REASON_SUCCESS, properties: None }
    }

    /// A PubRel arrived under `pkid`: answer PubComp and forget the identifier. A
    /// repeated PubRel is answered the same way.
    pub fn on_pubrel(&mut self, pkid: u16) -> (r: Packet)
        requires
            old(self).wf(),
        ensures
            final(self).wf(),
            final(self).pending() == old(self).pending().remove(pkid),
            r == (Packet::PubComp { pkid, reason: REASON_SUCCESS, properties: None }),
    {
        self.pending.remove(pkid);
        Packet::PubComp { pkid, reason: REASON_SUCCESS, properties: None }
    }
}

/// A second PubRel for the same identifier gets a PubComp too and leaves the pending
/// set as the first one left it.
pub proof fn lemma_pubrel_idempotent(pending: Map<u16, u64>, pkid: u16)
    ensures
        pending.remove(pkid).remove(pkid) == pending.remove(pkid),
{
    assert(pending.remove(pkid).remove(pkid) =~= pending.remove(pkid));
}

} // verus!
