use vstd::prelude::*;
use crate::qos::QoS;

verus! {

/// MQTT protocol version a client connected with.
#[derive(Clone, Copy, Debug, PartialEq, Eq, Structural)]
pub enum ProtocolVersion {
    Mqtt3,
    Mqtt4,
    Mqtt5,
}

/// The two outbound response queues: one for MQTT 3 and 3.1.1 clients, one for MQTT 5.
#[derive(Clone, Copy, Debug, PartialEq, Eq, Structural)]
pub enum ResponseQueue {
    V34,
    V5,
}

pub open spec fn spec_queue_for(protocol: ProtocolVersion) -> ResponseQueue {
    match protocol {
        ProtocolVersion::Mqtt5 => ResponseQueue::V5,
        _ => ResponseQueue::V34,
    }
}

/// Response queue that carries packets for a client of `protocol`.
pub fn queue_for(protocol: ProtocolVersion) -> (r: ResponseQueue)
    ensures
        r == spec_queue_for(protocol),
{
    match protocol {
        ProtocolVersion::Mqtt5 => ResponseQueue::V5,
        _ => ResponseQueue::V34,
    }
}

/// An outbound PUBLISH.
#[derive(Clone, Debug)]
pub struct Publish {
    pub dup: bool,
    pub qos: QoS,
    pub pkid: u16,
    pub retain: bool,
    pub topic: String,
    pub payload: Vec<u8>,
    pub subscription_identifiers: Vec<u32>,
}

/// Whether `a` and `b` are the same PUBLISH but for the DUP flag.
pub open spec fn same_but_dup(a: Publish, b: Publish) -> bool {
    &&& a.qos == b.qos
    &&& a.pkid == b.pkid
    &&& a.retain == b.retain
    &&& a.topic@ == b.topic@
    &&& a.payload@ == b.payload@
    &&& a.subscription_identifiers@ == b.subscription_identifiers@
}

pub fn copy_vec<T: Copy>(v: &Vec<T>) -> (r: Vec<T>)
    ensures
        r@ == v@,
{
    let mut out: Vec<T> = Vec::new();
    let mut i: usize = 0;
    while i < v.len()
        invariant
            i <= v@.len(),
            out@ == v@.subrange(0, i as int),
        decreases v@.len() - i,
    {
        out.push(v[i]);
        i = i + 1;
        proof {
            assert(out@ =~= v@.subrange(0, i as int));
        }
    }
    proof {
        assert(out@ =~= v@);
    }
    out
}

impl Publish {
    /// The same PUBLISH with the DUP flag set to `dup`.
    pub fn with_dup(&self, dup: bool) -> (r: Publish)
        ensures
            r.dup == dup,
            same_but_dup(r, *self),
    {
        Publish {
            dup,
            qos: self.qos,
            pkid: self.pkid,
            retain: self.retain,
            topic: self.topic.clone(),
            payload: copy_vec(&self.payload),
            subscription_identifiers: copy_vec(&self.subscription_identifiers),
        }
    }
}

/// Reason code byte of MQTT 5; values of 0x80 and above report a failure.
pub open spec fn is_failure_reason(reason: u8) -> bool {
    reason >= 0x80
}

/// Whether an acknowledgement's reason code reports a failure.
pub fn reason_is_failure(reason: u8) -> (r: bool)
    ensures
        r == is_failure_reason(reason),
{
    reason >= 0x80
}

/// Reason string and user properties an acknowledgement may carry (MQTT 5).
#[derive(Clone, Debug)]
pub struct AckProperties {
    pub reason_string: Option<String>,
    pub user_properties: Vec<(String, String)>,
}

/// Properties of a CONNACK (MQTT 5).
#[derive(Clone, Debug)]
pub struct ConnAckProperties {
    pub session_expiry_interval: Option<u32>,
    pub receive_max: Option<u16>,
    pub max_qos: Option<u8>,
    pub retain_available: Option<bool>,
    pub max_packet_size: Option<u32>,
    pub assigned_client_identifier: Option<String>,
    pub topic_alias_max: Option<u16>,
    pub reason_string: Option<String>,
    pub wildcard_subscription_available: Option<bool>,
    pub subscription_identifiers_available: Option<bool>,
    pub shared_subscription_available: Option<bool>,
    pub server_keep_alive: Option<u16>,
    pub response_information: Option<String>,
}

/// Packets the broker hands to a connection's writer.
#[derive(Clone, Debug)]
pub enum Packet {
    ConnAck { session_present: bool, code: u8, properties: Option<ConnAckProperties> },
    Publish(Publish),
    PubAck { pkid: u16, reason: u8, properties: Option<AckProperties> },
    PubRec { pkid: u16, reason: u8, properties: Option<AckProperties> },
    PubRel { pkid: u16, reason: u8, properties: Option<AckProperties> },
    PubComp { pkid: u16, reason: u8, properties: Option<AckProperties> },
    SubAck { pkid: u16, return_codes: Vec<u8>, properties: Option<AckProperties> },
    UnsubAck { pkid: u16, reasons: Vec<u8>, properties: Option<AckProperties> },
    PingResp,
    Disconnect { reason_code: u8 },
}

/// A packet bound for one connection.
#[derive(Clone, Debug)]
pub struct ResponsePackage {
    pub connection_id: u64,
    pub packet: Packet,
}

/// Reason code of a successful acknowledgement.
pub const REASON_SUCCESS: u8 = 0;

} // verus!
