use mqtt_broker::packet::Packet;
use mqtt_broker::response_packet::{
    is_request_problem_info, response_packet_matt5_connect_fail,
    response_packet_matt5_connect_fail_by_code, response_packet_matt5_connect_success,
    response_packet_matt5_distinct, response_packet_matt5_puback_fail,
    response_packet_matt5_puback_success, response_packet_matt5_pubcomp_fail,
    response_packet_matt5_pubcomp_success, response_packet_matt5_pubrec_fail,
    response_packet_matt5_pubrec_success, response_packet_matt5_pubrel_success,
    response_packet_matt5_suback, response_packet_matt5_unsuback, response_packet_matt_distinct,
    response_packet_ping_resp, ConnectProperties, Connection, MQTTCluster,
};

fn cluster() -> MQTTCluster {
    MQTTCluster {
        receive_max: 65535,
        max_qos: 2,
        retain_available: true,
        max_packet_size: 1024,
        topic_alias_max: 10,
        wildcard_subscription_available: true,
        subscription_identifiers_available: true,
        shared_subscription_available: false,
        server_keep_alive: 60,
    }
}

fn conn(asked: bool) -> Connection {
    Connection { connect_id: 1, client_id: "c".to_string(), request_problem_info: Some(if asked { 1 } else { 0 }) }
}

#[test]
fn connack_success_advertises_cluster() {
    let p = response_packet_matt5_connect_success(&cluster(), "auto-1".to_string(), true, 30, false, &None);
    match p {
        Packet::ConnAck { session_present, code, properties: Some(props) } => {
            assert!(!session_present);
            assert_eq!(code, 0);
            assert_eq!(props.receive_max, Some(65535));
            assert_eq!(props.max_qos, Some(2));
            assert_eq!(props.session_expiry_interval, Some(30));
            assert_eq!(props.assigned_client_identifier, Some("auto-1".to_string()));
            assert_eq!(props.server_keep_alive, Some(60));
        }
        _ => panic!("expected connack"),
    }
    let p = response_packet_matt5_connect_success(&cluster(), "c".to_string(), false, 30, true, &None);
    match p {
        Packet::ConnAck { session_present, properties: Some(props), .. } => {
            assert!(session_present);
            assert_eq!(props.assigned_client_identifier, None);
        }
        _ => panic!("expected connack"),
    }
}

#[test]
fn connack_fail_carries_reason_only_when_asked() {
    let asked = Some(ConnectProperties { request_problem_info: Some(1), request_response_info: None });
    assert!(is_request_problem_info(&asked));
    assert!(!is_request_problem_info(&None));
    match response_packet_matt5_connect_fail(0x87, &asked, Some("denied".to_string())) {
        Packet::ConnAck { code, properties: Some(p), .. } => {
            assert_eq!(code, 0x87);
            assert_eq!(p.reason_string, Some("denied".to_string()));
        }
        _ => panic!("expected connack"),
    }
    match response_packet_matt5_connect_fail(0x87, &None, Some("denied".to_string())) {
        Packet::ConnAck { properties: Some(p), .. } => assert_eq!(p.reason_string, None),
        _ => panic!("expected connack"),
    }
    assert!(matches!(
        response_packet_matt5_connect_fail_by_code(0x80),
        Packet::ConnAck { session_present: false, code: 0x80, properties: None }
    ));
}

#[test]
fn acknowledgement_packets() {
    match response_packet_matt5_puback_success(0, 7, vec![("k".to_string(), "v".to_string())]) {
        Packet::PubAck { pkid: 7, reason: 0, properties: Some(p) } => assert_eq!(p.user_properties.len(), 1),
        _ => panic!("expected puback"),
    }
    match response_packet_matt5_puback_fail(&conn(true), 7, 0x80, Some("no".to_string())) {
        Packet::PubAck { pkid: 0, reason: 0x80, properties: Some(p) } => assert_eq!(p.reason_string, Some("no".to_string())),
        _ => panic!("expected puback"),
    }
    match response_packet_matt5_pubrec_fail(&conn(false), 7, 0x80, Some("no".to_string())) {
        Packet::PubRec { pkid: 7, reason: 0x80, properties: Some(p) } => assert_eq!(p.reason_string, None),
        _ => panic!("expected pubrec"),
    }
    assert!(matches!(response_packet_matt5_pubrec_success(0, 3, Vec::new()), Packet::PubRec { pkid: 3, reason: 0, .. }));
    assert!(matches!(response_packet_matt5_pubrel_success(4, 0), Packet::PubRel { pkid: 4, reason: 0, properties: Some(_) }));
    assert!(matches!(response_packet_matt5_pubcomp_success(5), Packet::PubComp { pkid: 5, reason: 0, properties: Some(_) }));
    match response_packet_matt5_pubcomp_fail(&conn(true), 5, 0x92, Some("gone".to_string())) {
        Packet::PubComp { pkid: 5, reason: 0x92, properties: Some(p) } => assert_eq!(p.reason_string, Some("gone".to_string())),
        _ => panic!("expected pubcomp"),
    }
}

#[test]
fn subscription_and_session_packets() {
    match response_packet_matt5_suback(&conn(true), 9, vec![0, 1, 0x80], Some("partial".to_string())) {
        Packet::SubAck { pkid: 9, return_codes, properties: Some(p) } => {
            assert_eq!(return_codes, vec![0, 1, 0x80]);
            assert_eq!(p.reason_string, Some("partial".to_string()));
        }
        _ => panic!("expected suback"),
    }
    assert!(matches!(
        response_packet_matt5_unsuback(&conn(true), 9, vec![0], Some("x".to_string())),
        Packet::UnsubAck { pkid: 9, properties: None, .. }
    ));
    assert!(matches!(response_packet_ping_resp(), Packet::PingResp));
    assert!(matches!(response_packet_matt5_distinct(0x8E, &conn(true), None), Packet::Disconnect { reason_code: 0x8E }));
    assert!(matches!(response_packet_matt_distinct(0x00, None), Packet::Disconnect { reason_code: 0 }));
}
