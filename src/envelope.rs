use vstd::prelude::*;
use crate::packet::{ProtocolVersion, Publish, copy_vec};
use crate::pkid::{PkidAllocator, PkidError, successor};
use crate::qos::{QoS, min_qos, spec_min_qos};

verus! {

/// One SUBSCRIBE of one client to one topic.
#[derive(Clone, Debug)]
pub struct Subscription {
    pub client_id: String,
    pub topic_id: String,
    pub topic_name: String,
    pub qos: QoS,
    pub nolocal: bool,
    pub preserve_retain: bool,
    pub subscription_identifier: Option<u32>,
    pub protocol: ProtocolVersion,
}

/// A message as stored in a topic's log.
#[derive(Clone, Debug)]
pub struct Message {
    pub offset: u64,
    pub client_id: String,
    pub topic_id: String,
    pub qos: QoS,
    pub retain: bool,
    pub payload: Vec<u8>,
    pub timestamp: u64,
}

#[derive(Clone, Copy, Debug, PartialEq, Eq, Structural)]
pub enum EnvelopeError {
    /// The subscription's policy skips this message (no-local); it is committed unsent.
    DropBySubscriptionPolicy,
    /// The client holds all the identifiers it may; the worker waits for an ack.
    PkidExhausted,
    /// The client has no identifier state.
    UnknownClient,
}

impl Subscription {
    /// A field-by-field copy.
    pub fn duplicate(&self) -> (r: Subscription)
        ensures
            r == *self,
    {
        Subscription {
            client_id: self.client_id.clone(),
            topic_id: self.topic_id.clone(),
            topic_name: self.topic_name.clone(),
            qos: self.qos,
            nolocal: self.nolocal,
            preserve_retain: self.preserve_retain,
            subscription_identifier: self.subscription_identifier,
            protocol: self.protocol,
        }
    }
}

/// No-local: a subscriber that asked for it never gets its own publications.
pub open spec fn dropped_by_nolocal(sub: Subscription, msg: Message) -> bool {
    sub.nolocal && sub.client_id@ == msg.client_id@
}

/// Retain flag of a delivery: kept only where the subscription preserves it.
pub open spec fn effective_retain(sub: Subscription, msg: Message) -> bool {
    sub.preserve_retain && msg.retain
}

/// Subscription identifiers a delivery carries.
pub open spec fn sub_ids(sub: Subscription) -> Seq<u32> {
    match sub.subscription_identifier {
        Some(i) => seq![i],
        None => Seq::empty(),
    }
}

/// Whether `p` is the first send of `msg` to `sub` under identifier `pkid`.
pub open spec fn is_delivery_of(p: Publish, sub: Subscription, msg: Message, pkid: u16) -> bool {
    &&& !p.dup
    &&& p.qos == spec_min_qos(msg.qos, sub.qos)
    &&& p.pkid == pkid
    &&& p.retain == effective_retain(sub, msg)
    &&& p.topic@ == sub.topic_name@
    &&& p.payload@ == msg.payload@
    &&& p.subscription_identifiers@ == sub_ids(sub)
}

/// Builds the PUBLISH that delivers `msg` to `sub`: the lower of the two QoS levels,
/// the retain flag only where the subscription preserves it, the subscription
/// identifier if any, and a fresh identifier of the subscriber for QoS 1 and 2
/// (0 for QoS 0). A no-local subscription skips its own client's messages.
pub fn build_publish(sub: &Subscription, msg: &Message, pkids: &mut PkidAllocator) -> (r: Result<
    Publish,
    EnvelopeError,
>)
    requires
        old(pkids).wf(),
    ensures
        final(pkids).wf(),
        dropped_by_nolocal(*sub, *msg) ==> r == Err::<Publish, EnvelopeError>(
            EnvelopeError::DropBySubscriptionPolicy,
        ) && *final(pkids) == *old(pkids),
        !dropped_by_nolocal(*sub, *msg) && spec_min_qos(msg.qos, sub.qos) == QoS::AtMostOnce ==> (
        r matches Ok(p) && is_delivery_of(p, *sub, *msg, 0)) && *final(pkids) == *old(pkids),
        !dropped_by_nolocal(*sub, *msg) && spec_min_qos(msg.qos, sub.qos) != QoS::AtMostOnce ==> {
            let c = sub.client_id@;
            &&& old(pkids).client(c) is None ==> r == Err::<Publish, EnvelopeError>(
                EnvelopeError::UnknownClient,
            ) && final(pkids).client(c) is None
            &&& old(pkids).client(c) is Some ==> {
                let o = old(pkids).client(c)->Some_0;
                let n = final(pkids).client(c)->Some_0;
                &&& final(pkids).client(c) is Some
                &&& (o.in_flight@.len() >= o.receive_max <==> r == Err::<Publish, EnvelopeError>(
                    EnvelopeError::PkidExhausted,
                ))
                &&& (r is Ok <==> o.in_flight@.len() < o.receive_max)
                &&& r.is_err() ==> n == o
                &&& r is Ok ==> {
                    let p = r->Ok_0;
                    &&& is_delivery_of(p, *sub, *msg, p.pkid)
                    &&& p.pkid != 0
                    &&& !o.in_flight@.contains(p.pkid)
                    &&& n.in_flight@ == o.in_flight@.push(p.pkid)
                    &&& n.next_pkid == successor(p.pkid)
                }
            }
        },
        forall|c: Seq<char>| c != sub.client_id@ ==> final(pkids).client(c) == old(pkids).client(c),
{
    if sub.nolocal && sub.client_id == msg.client_id {
        return Err(EnvelopeError::DropBySubscriptionPolicy);
    }
    let qos = min_qos(msg.qos, sub.qos);
    let pkid: u16 = if qos == QoS::AtMostOnce {
        0
    } else {
        match pkids.allocate(&sub.client_id) {
            Ok(p) => p,
            Err(PkidError::PkidExhausted) => {
                return Err(EnvelopeError::PkidExhausted);
            },
            Err(PkidError::UnknownClient) => {
                return Err(EnvelopeError::UnknownClient);
            },
        }
    };
    let retain = sub.preserve_retain && msg.retain;
    let mut ids: Vec<u32> = Vec::new();
    match sub.subscription_identifier {
        Some(id) => ids.push(id),
        None => {},
    }
    proof {
        assert(ids@ =~= sub_ids(*sub));
    }
    Ok(
        Publish {
            dup: false,
            qos,
            pkid,
            retain,
            topic: sub.topic_name.clone(),
            payload: copy_vec(&msg.payload),
            subscription_identifiers: ids,
        },
    )
}

} // verus!
