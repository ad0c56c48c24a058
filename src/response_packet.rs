use vstd::prelude::*;
use crate::packet::{AckProperties, ConnAckProperties, Packet, REASON_SUCCESS};

verus! {

/// Reason code of a successful CONNACK.
pub const CONNECT_SUCCESS: u8 = 0;

/// Capabilities the cluster advertises to connecting clients.
#[derive(Clone, Copy, Debug, PartialEq, Eq, Structural)]
pub struct MQTTCluster {
    pub receive_max: u16,
    pub max_qos: u8,
    pub retain_available: bool,
    pub max_packet_size: u32,
    pub topic_alias_max: u16,
    pub wildcard_subscription_available: bool,
    pub subscription_identifiers_available: bool,
    pub shared_subscription_available: bool,
    pub server_keep_alive: u16,
}

/// The CONNECT properties the responses depend on (MQTT 5).
#[derive(Clone, Copy, Debug, PartialEq, Eq, Structural)]
pub struct ConnectProperties {
    pub request_problem_info: Option<u8>,
    pub request_response_info: Option<u8>,
}

/// What the broker knows of a live connection that the responses depend on.
#[derive(Clone, Debug)]
pub struct Connection {
    pub connect_id: u64,
    pub client_id: String,
    pub request_problem_info: Option<u8>,
}

/// Whether the client asked for reason strings in failure responses.
pub open spec fn spec_request_problem_info(p: Option<ConnectProperties>) -> bool {
    p is Some && p->Some_0.request_problem_info == Some(1u8)
}

pub fn is_request_problem_info(connect_properties: &Option<ConnectProperties>) -> (r: bool)
    ensures
        r == spec_request_problem_info(*connect_properties),
{
    match connect_properties {
        Some(p) => match p.request_problem_info {
            Some(v) => v == 1,
            None => false,
        },
        None => false,
    }
}

impl Connection {
    pub open spec fn spec_problem_info(&self) -> bool {
        self.request_problem_info == Some(1u8)
    }

    /// Whether failure responses on this connection carry a reason string.
    pub fn is_response_proplem_info(&self) -> (r: bool)
        ensures
            r == self.spec_problem_info(),
    {
        match self.request_problem_info {
            Some(v) => v == 1,
            None => false,
        }
    }
}

/// Properties of an acknowledgement: `reason` where the connection asked for reason
/// strings, no user properties.
pub open spec fn problem_properties(
    asked: bool,
    reason_string: Option<String>,
    p: AckProperties,
) -> bool {
    &&& p.user_properties@.len() == 0
    &&& p.reason_string == if asked {
        reason_string
    } else {
        None
    }
}

fn ack_properties(asked: bool, reason_string: Option<String>) -> (r: AckProperties)
    ensures
        problem_properties(asked, reason_string, r),
{
    AckProperties {
        reason_string: if asked {
            reason_string
        } else {
            None
        },
        user_properties: Vec::new(),
    }
}

/// The CONNACK accepting a connection, advertising the cluster's capabilities; an
/// assigned client identifier is returned where the broker chose it.
pub fn response_packet_matt5_connect_success(
    cluster: &MQTTCluster,
    client_id: String,
    auto_client_id: bool,
    session_expiry_interval: u32,
    session_present: bool,
    connect_properties: &Option<ConnectProperties>,
) -> (r: Packet)
    ensures
        r is ConnAck,
        r->ConnAck_session_present == session_present,
        r->ConnAck_code == CONNECT_SUCCESS,
        r->ConnAck_properties is Some,
        ({
            let p = r->ConnAck_properties->Some_0;
            &&& p.session_expiry_interval == Some(session_expiry_interval)
            &&& p.receive_max == Some(cluster.receive_max)
            &&& p.max_qos == Some(cluster.max_qos)
            &&& p.retain_available == Some(cluster.retain_available)
            &&& p.max_packet_size == Some(cluster.max_packet_size)
            &&& p.assigned_client_identifier == if auto_client_id {
                Some(client_id)
            } else {
                None
            }
            &&& p.topic_alias_max == Some(cluster.topic_alias_max)
            &&& p.reason_string is None
            &&& p.wildcard_subscription_available == Some(cluster.wildcard_subscription_available)
            &&& p.subscription_identifiers_available == Some(
                cluster.subscription_identifiers_available,
            )
            &&& p.shared_subscription_available == Some(cluster.shared_subscription_available)
            &&& p.server_keep_alive == Some(cluster.server_keep_alive)
            &&& p.response_information is None
        }),
{
    let assigned_client_identifier = if auto_client_id {
        Some(client_id)
    } else {
        None
    };
    let properties = ConnAckProperties {
        session_expiry_interval: Some(session_expiry_interval),
        receive_max: Some(cluster.receive_max),
        max_qos: Some(cluster.max_qos),
        retain_available: Some(cluster.retain_available),
        max_packet_size: Some(cluster.max_packet_size),
        assigned_client_identifier,
        topic_alias_max: Some(cluster.topic_alias_max),
        reason_string: None,
        wildcard_subscription_available: Some(cluster.wildcard_subscription_available),
        subscription_identifiers_available: Some(cluster.subscription_identifiers_available),
        shared_subscription_available: Some(cluster.shared_subscription_available),
        server_keep_alive: Some(cluster.server_keep_alive),
        response_information: None,
    };
    Packet::ConnAck { session_present, code: CONNECT_SUCCESS, properties: Some(properties) }
}

/// Properties with every field absent.
pub open spec fn empty_connack_properties(p: ConnAckProperties) -> bool {
    &&& p.session_expiry_interval is None
    &&& p.receive_max is None
    &&& p.max_qos is None
    &&& p.retain_available is None
    &&& p.max_packet_size is None
    &&& p.assigned_client_identifier is None
    &&& p.topic_alias_max is None
    &&& p.wildcard_subscription_available is None
    &&& p.subscription_identifiers_available is None
    &&& p.shared_subscription_available is None
    &&& p.server_keep_alive is None
    &&& p.response_information is None
}

/// The CONNACK refusing a connection with `code`; it carries `error` as its reason
/// string where the client asked for problem information.
pub fn response_packet_matt5_connect_fail(
    code: u8,
    connect_properties: &Option<ConnectProperties>,
    error: Option<String>,
) -> (r: Packet)
    ensures
        r is ConnAck,
        !r->ConnAck_session_present,
        r->ConnAck_code == code,
        r->ConnAck_properties is Some,
        empty_connack_properties(r->ConnAck_properties->Some_0),
        r->ConnAck_properties->Some_0.reason_string == if spec_request_problem_info(
            *connect_properties,
        ) {
            error
        } else {
            None
        },
{
    let asked = is_request_problem_info(connect_properties);
    let properties = ConnAckProperties {
        session_expiry_interval: None,
        receive_max: None,
        max_qos: None,
        retain_available: None,
        max_packet_size: None,
        assigned_client_identifier: None,
        topic_alias_max: None,
        reason_string: if asked {
            error
        } else {
            None
        },
        wildcard_subscription_available: None,
        subscription_identifiers_available: None,
        shared_subscription_available: None,
        server_keep_alive: None,
        response_information: None,
    };
    Packet::ConnAck { session_present: false, code, properties: Some(properties) }
}

/// The CONNACK refusing a connection with `code`, without properties.
pub fn response_packet_matt5_connect_fail_by_code(code: u8) -> (r: Packet)
    ensures
        r is ConnAck,
        !r->ConnAck_session_present,
        r->ConnAck_code == code,
        r->ConnAck_properties is None,
{
    Packet::ConnAck { session_present: false, code, properties: None }
}

/// DISCONNECT with `code` for an MQTT 5 connection; no properties are sent.
pub fn response_packet_matt5_distinct(
    code: u8,
    connection: &Connection,
    reason_string: Option<String>,
) -> (r: Packet)
    ensures
        r == (Packet::Disconnect { reason_code: code }),
{
    Packet::Disconnect { reason_code: code }
}

/// DISCONNECT with `code`; no properties are sent.
pub fn response_packet_matt_distinct(code: u8, reason_string: Option<String>) -> (r: Packet)
    ensures
        r == (Packet::Disconnect { reason_code: code }),
{
    Packet::Disconnect { reason_code: code }
}

/// PUBACK for `pkid` with `reason` and the given user properties.
pub fn response_packet_matt5_puback_success(
    reason: u8,
    pkid: u16,
    user_properties: Vec<(String, String)>,
) -> (r: Packet)
    ensures
        r == (Packet::PubAck {
            pkid,
            reason,
            properties: Some(AckProperties { reason_string: None, user_properties }),
        }),
{
    Packet::PubAck {
        pkid,
        reason,
        properties: Some(AckProperties { reason_string: None, user_properties }),
    }
}

/// PUBACK reporting failure `reason`; its packet identifier field is 0.
pub fn response_packet_matt5_puback_fail(
    connection: &Connection,
    pkid: u16,
    reason: u8,
    reason_string: Option<String>,
) -> (r: Packet)
    ensures
        r is PubAck,
        r->PubAck_pkid == 0,
        r->PubAck_reason == reason,
        r->PubAck_properties is Some,
        problem_properties(
            connection.spec_problem_info(),
            reason_string,
            r->PubAck_properties->Some_0,
        ),
{
    let props = ack_properties(connection.is_response_proplem_info(), reason_string);
    Packet::PubAck { pkid: 0, reason, properties: Some(props) }
}

/// PUBREC for `pkid` with `reason` and the given user properties.
pub fn response_packet_matt5_pubrec_success(
    reason: u8,
    pkid: u16,
    user_properties: Vec<(String, String)>,
) -> (r: Packet)
    ensures
        r == (Packet::PubRec {
            pkid,
            reason,
            properties: Some(AckProperties { reason_string: None, user_properties }),
        }),
{
    Packet::PubRec {
        pkid,
        reason,
        properties: Some(AckProperties { reason_string: None, user_properties }),
    }
}

/// PUBREC for `pkid` reporting failure `reason`.
pub fn response_packet_matt5_pubrec_fail(
    connection: &Connection,
    pkid: u16,
    reason: u8,
    reason_string: Option<String>,
) -> (r: Packet)
    ensures
        r is PubRec,
        r->PubRec_pkid == pkid,
        r->PubRec_reason == reason,
        r->PubRec_properties is Some,
        problem_properties(
            connection.spec_problem_info(),
            reason_string,
            r->PubRec_properties->Some_0,
        ),
{
    let props = ack_properties(connection.is_response_proplem_info(), reason_string);
    Packet::PubRec { pkid, reason, properties: Some(props) }
}

/// PUBREL for `pkid` with `reason` and empty properties.
pub fn response_packet_matt5_pubrel_success(pkid: u16, reason: u8) -> (r: Packet)
    ensures
        r is PubRel,
        r->PubRel_pkid == pkid,
        r->PubRel_reason == reason,
        r->PubRel_properties is Some,
        problem_properties(false, None, r->PubRel_properties->Some_0),
{
    Packet::PubRel { pkid, reason, properties: Some(ack_properties(false, None)) }
}

/// PUBCOMP for `pkid` with success and empty properties.
pub fn response_packet_matt5_pubcomp_success(pkid: u16) -> (r: Packet)
    ensures
        r is PubComp,
        r->PubComp_pkid == pkid,
        r->PubComp_reason == REASON_SUCCESS,
        r->PubComp_properties is Some,
        problem_properties(false, None, r->PubComp_properties->Some_0),
{
    Packet::PubComp { pkid, reason: REASON_SUCCESS, properties: Some(ack_properties(false, None)) }
}

/// PUBCOMP for `pkid` reporting failure `reason`.
pub fn response_packet_matt5_pubcomp_fail(
    connection: &Connection,
    pkid: u16,
    reason: u8,
    reason_string: Option<String>,
) -> (r: Packet)
    ensures
        r is PubComp,
        r->PubComp_pkid == pkid,
        r->PubComp_reason == reason,
        r->PubComp_properties is Some,
        problem_properties(
            connection.spec_problem_info(),
            reason_string,
            r->PubComp_properties->Some_0,
        ),
{
    let props = ack_properties(connection.is_response_proplem_info(), reason_string);
    Packet::PubComp { pkid, reason, properties: Some(props) }
}

/// SUBACK for `pkid` with one reason code per requested filter.
pub fn response_packet_matt5_suback(
    connection: &Connection,
    pkid: u16,
    return_codes: Vec<u8>,
    reason_string: Option<String>,
) -> (r: Packet)
    ensures
        r is SubAck,
        r->SubAck_pkid == pkid,
        r->SubAck_return_codes == return_codes,
        r->SubAck_properties is Some,
        problem_properties(
            connection.spec_problem_info(),
            reason_string,
            r->SubAck_properties->Some_0,
        ),
{
    let props = ack_properties(connection.is_response_proplem_info(), reason_string);
    Packet::SubAck { pkid, return_codes, properties: Some(props) }
}

pub fn response_packet_ping_resp() -> (r: Packet)
    ensures
        r == Packet::PingResp,
{
    Packet::PingResp
}

/// UNSUBACK for `pkid` with one reason code per filter; no properties are sent.
pub fn response_packet_matt5_unsuback(
    connection: &Connection,
    pkid: u16,
    reasons: Vec<u8>,
    reason_string: Option<String>,
) -> (r: Packet)
    ensures
        r == (Packet::UnsubAck { pkid, reasons, properties: None }),
{
    Packet::UnsubAck { pkid, reasons, properties: None }
}

} // verus!
