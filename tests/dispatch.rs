use mqtt_broker::ack_registry::{AckError, AckKind, AckRegistry, AckRouting};
use mqtt_broker::envelope::{build_publish, EnvelopeError, Message, Subscription};
use mqtt_broker::group_offset::GroupOffsets;
use mqtt_broker::message_log::{read_topic_message, TopicLog};
use mqtt_broker::packet::{Packet, ProtocolVersion, ResponseQueue};
use mqtt_broker::pkid::{ClientPkids, PkidAllocator, PkidError};
use mqtt_broker::push_worker::{subscriber_group_id, EventOutcome, PushWorker, RecordOutcome};
use mqtt_broker::qos::{min_qos, QoS};
use mqtt_broker::qos_protocol::{
    backoff_ms, start_exchange, AbandonReason, step_exchange, Exchange, InboundQos2, SendAction, SendEvent,
    Stage, MAX_BACKOFF_MS,
};
use mqtt_broker::subscription_table::SubscriptionTable;
use mqtt_broker::supervisor::{restart_decision, RestartDecision, Supervisor};

fn sub(client: &str, topic: &str, qos: QoS) -> Subscription {
    Subscription {
        client_id: client.to_string(),
        topic_id: topic.to_string(),
        topic_name: format!("/{}", topic),
        qos,
        nolocal: false,
        preserve_retain: false,
        subscription_identifier: None,
        protocol: ProtocolVersion::Mqtt4,
    }
}

fn msg(offset: u64, client: &str, topic: &str, qos: QoS) -> Message {
    Message {
        offset,
        client_id: client.to_string(),
        topic_id: topic.to_string(),
        qos,
        retain: false,
        payload: format!("mqtt {} message", offset).into_bytes(),
        timestamp: 0,
    }
}

struct World {
    pkids: PkidAllocator,
    offsets: GroupOffsets,
    acks: AckRegistry,
}

fn world(client: &str, receive_max: u16) -> World {
    let mut pkids = PkidAllocator::new();
    pkids.connect(&client.to_string(), receive_max);
    World { pkids, offsets: GroupOffsets::new(), acks: AckRegistry::new() }
}

fn first_send(w: &mut World, worker: &mut PushWorker, m: Message) -> (u16, bool, QoS) {
    let offset = m.offset;
    match worker.handle_record(offset, Some(m), Some(7), &mut w.pkids, &mut w.offsets, &mut w.acks, 0) {
        RecordOutcome::Send(pkg, _) => {
            assert_eq!(pkg.connection_id, 7);
            match pkg.packet {
                Packet::Publish(p) => (p.pkid, p.dup, p.qos),
                _ => panic!("expected a publish"),
            }
        }
        _ => panic!("expected a send"),
    }
}

fn event(w: &mut World, worker: &mut PushWorker, ev: SendEvent) -> EventOutcome {
    worker.handle_event(ev, &mut w.pkids, &mut w.offsets, &mut w.acks, 0)
}

#[test]
fn min_qos_is_the_lower_level() {
    assert_eq!(min_qos(QoS::ExactlyOnce, QoS::AtLeastOnce), QoS::AtLeastOnce);
    assert_eq!(min_qos(QoS::AtMostOnce, QoS::ExactlyOnce), QoS::AtMostOnce);
    assert_eq!(min_qos(QoS::ExactlyOnce, QoS::ExactlyOnce), QoS::ExactlyOnce);
    assert_eq!(QoS::ExactlyOnce.as_u8(), 2);
}

#[test]
fn pkids_start_at_one_and_are_unique() {
    let mut c = ClientPkids::new(3);
    assert_eq!(c.allocate(), Ok(1));
    assert_eq!(c.allocate(), Ok(2));
    assert_eq!(c.allocate(), Ok(3));
    assert_eq!(c.allocate(), Err(PkidError::PkidExhausted));
    c.release(2);
    assert!(!c.is_in_flight(2));
    assert_eq!(c.allocate(), Ok(4));
    assert_eq!(c.in_flight, vec![1, 3, 4]);
}

#[test]
fn pkids_wrap_and_skip_zero_and_in_flight() {
    let mut c = ClientPkids::new(10);
    c.next_pkid = 65535;
    assert_eq!(c.allocate(), Ok(65535));
    assert_eq!(c.next_pkid, 1);
    assert_eq!(c.allocate(), Ok(1));
    c.next_pkid = 65535;
    assert_eq!(c.allocate(), Ok(2));
    assert!(!c.in_flight.contains(&0));
}

#[test]
fn pkid_release_is_idempotent() {
    let mut c = ClientPkids::new(2);
    assert_eq!(c.allocate(), Ok(1));
    c.release(1);
    c.release(1);
    assert!(c.in_flight.is_empty());
    let mut a = PkidAllocator::new();
    assert_eq!(a.allocate(&"x".to_string()), Err(PkidError::UnknownClient));
    a.connect(&"x".to_string(), 0);
    assert_eq!(a.allocate(&"x".to_string()), Err(PkidError::PkidExhausted));
}

#[test]
fn group_offset_commits_only_move_forward() {
    let mut g = GroupOffsets::new();
    let t = "t".to_string();
    let grp = "g".to_string();
    assert_eq!(g.resume_offset(&t, &grp), 0);
    g.commit(&t, &grp, 5);
    assert_eq!(g.get(&t, &grp), Some(5));
    g.commit(&t, &grp, 3);
    assert_eq!(g.get(&t, &grp), Some(5));
    g.commit(&t, &grp, 5);
    assert_eq!(g.get(&t, &grp), Some(5));
    g.commit(&t, &grp, 9);
    assert_eq!(g.get(&t, &grp), Some(9));
    assert_eq!(g.resume_offset(&t, &grp), 10);
    assert_eq!(g.get(&t, &"other".to_string()), None);
}

#[test]
fn group_id_names_client_and_topic() {
    let g = subscriber_group_id(&"c1".to_string(), &"t9".to_string());
    assert_eq!(g, "system_sub_c1_t9");
}

#[test]
fn envelope_nolocal_drops_own_messages() {
    let mut a = PkidAllocator::new();
    a.connect(&"c".to_string(), 5);
    let mut s = sub("c", "t", QoS::AtLeastOnce);
    s.nolocal = true;
    let r = build_publish(&s, &msg(0, "c", "t", QoS::AtLeastOnce), &mut a);
    assert!(matches!(r, Err(EnvelopeError::DropBySubscriptionPolicy)));
    let r = build_publish(&s, &msg(1, "d", "t", QoS::AtLeastOnce), &mut a);
    assert!(r.is_ok());
}

#[test]
fn envelope_sets_qos_pkid_retain_and_ids() {
    let mut a = PkidAllocator::new();
    a.connect(&"c".to_string(), 1);
    let mut s = sub("c", "t", QoS::AtLeastOnce);
    s.subscription_identifier = Some(42);
    let mut m = msg(0, "d", "t", QoS::ExactlyOnce);
    m.retain = true;
    let p = build_publish(&s, &m, &mut a).unwrap();
    assert_eq!(p.qos, QoS::AtLeastOnce);
    assert_eq!(p.pkid, 1);
    assert!(!p.retain);
    assert!(!p.dup);
    assert_eq!(p.topic, "/t");
    assert_eq!(p.payload, b"mqtt 0 message".to_vec());
    assert_eq!(p.subscription_identifiers, vec![42]);
    let r = build_publish(&s, &m, &mut a);
    assert!(matches!(r, Err(EnvelopeError::PkidExhausted)));
    let q0 = build_publish(&sub("c", "t", QoS::AtMostOnce), &m, &mut a).unwrap();
    assert_eq!(q0.pkid, 0);
    let mut b = PkidAllocator::new();
    let r = build_publish(&s, &m, &mut b);
    assert!(matches!(r, Err(EnvelopeError::UnknownClient)));
}

#[test]
fn ack_registry_routes_each_ack_once() {
    let mut r = AckRegistry::new();
    let c = "c".to_string();
    assert_eq!(r.register(&c, 1, AckKind::PubAck, 100), Ok(()));
    assert_eq!(r.register(&c, 1, AckKind::PubAck, 200), Err(AckError::DuplicatePkid));
    assert!(matches!(r.deliver(&c, 1, AckKind::PubRec), AckRouting::WrongKind(_)));
    match r.deliver(&c, 1, AckKind::PubAck) {
        AckRouting::Routed(e) => assert_eq!(e.created_at, 100),
        _ => panic!("expected routing"),
    }
    assert_eq!(r.deliver(&c, 1, AckKind::PubAck), AckRouting::Unexpected);
    r.remove(&c, 1);
    assert_eq!(r.get(&c, 1), None);
}

#[test]
fn ack_registry_sweep_removes_expired() {
    let mut r = AckRegistry::new();
    let c = "c".to_string();
    let d = "d".to_string();
    r.register(&c, 1, AckKind::PubAck, 0).unwrap();
    r.register(&c, 2, AckKind::PubRec, 4000).unwrap();
    r.register(&d, 1, AckKind::PubComp, 1000).unwrap();
    let gone = r.sweep(6000, 5000);
    assert_eq!(gone.len(), 2);
    assert!(gone.contains(&(c.clone(), 1)));
    assert!(gone.contains(&(d.clone(), 1)));
    assert_eq!(r.get(&c, 1), None);
    assert!(r.get(&c, 2).is_some());
}

#[test]
fn backoff_doubles_up_to_the_cap() {
    assert_eq!(backoff_ms(0, MAX_BACKOFF_MS), 1000);
    assert_eq!(backoff_ms(1, MAX_BACKOFF_MS), 2000);
    assert_eq!(backoff_ms(4, MAX_BACKOFF_MS), 16000);
    assert_eq!(backoff_ms(5, MAX_BACKOFF_MS), 30000);
    assert_eq!(backoff_ms(40, MAX_BACKOFF_MS), 30000);
    assert_eq!(backoff_ms(3, 500), 500);
}

#[test]
fn qos_state_machine_transitions() {
    let (x, a) = start_exchange(QoS::AtLeastOnce);
    assert_eq!(a, SendAction::SendPublish { dup: false });
    let (y, a) = step_exchange(x, SendEvent::Ack { kind: AckKind::PubAck, reason: 0x80 }, 3);
    assert_eq!((y, a), (Exchange::Abandoned, SendAction::Abandon { reason: AbandonReason::Rejected(0x80) }));
    let (x, _) = start_exchange(QoS::ExactlyOnce);
    let (y, a) = step_exchange(x, SendEvent::Ack { kind: AckKind::PubRec, reason: 0x10 }, 3);
    assert_eq!(a, SendAction::SendPubRel);
    assert_eq!(y, Exchange::Waiting { stage: Stage::AwaitPubComp, retries: 0, connected: true });
    let (y, a) = step_exchange(y, SendEvent::Timeout, 3);
    assert_eq!(a, SendAction::SendPubRel);
    let (_, a) = step_exchange(y, SendEvent::Ack { kind: AckKind::PubComp, reason: 0 }, 3);
    assert_eq!(a, SendAction::Complete);
    let (x, a) = start_exchange(QoS::AtMostOnce);
    assert_eq!((x, a), (Exchange::Done, SendAction::SendPublish { dup: false }));
}

#[test]
fn second_pubrel_gets_pubcomp_and_changes_nothing() {
    let mut r = InboundQos2::new();
    assert!(matches!(r.on_publish(9, 0), Packet::PubRec { pkid: 9, reason: 0, .. }));
    assert!(matches!(r.on_pubrel(9), Packet::PubComp { pkid: 9, reason: 0, .. }));
    assert!(matches!(r.on_pubrel(9), Packet::PubComp { pkid: 9, reason: 0, .. }));
}

#[test]
fn supervisor_converges_to_subscriptions() {
    let mut table = SubscriptionTable::new();
    table.add(sub("a", "t1", QoS::AtLeastOnce));
    table.add(sub("a", "t2", QoS::AtLeastOnce));
    table.add(sub("b", "t1", QoS::AtMostOnce));
    table.add(sub("a", "t1", QoS::ExactlyOnce));
    let all = table.list_all_exclusive();
    assert_eq!(all.len(), 3);
    assert_eq!(table.list_by_client(&"a".to_string()).len(), 2);
    let mut s = Supervisor::new();
    let r = s.reconcile(&all);
    assert_eq!(r.spawn.len(), 3);
    assert_eq!(r.stop.len(), 0);
    let r = s.reconcile(&all);
    assert_eq!(r.spawn.len(), 0);
    assert_eq!(r.stop.len(), 0);
    table.remove(&"a".to_string(), &"t2".to_string());
    let r = s.reconcile(&table.list_all_exclusive());
    assert_eq!(r.spawn.len(), 0);
    assert_eq!(r.stop.len(), 1);
    assert_eq!(r.stop[0].topic_id, "t2");
    assert!(!s.is_live(&"a".to_string(), &"t2".to_string()));
    assert!(s.is_live(&"a".to_string(), &"t1".to_string()));
}

#[test]
fn qos0_delivers_without_in_flight_state() {
    let mut w = world("c", 10);
    let mut worker = PushWorker::new(sub("c", "t", QoS::AtMostOnce));
    for i in 0..10u64 {
        let (pkid, dup, qos) = first_send(&mut w, &mut worker, msg(i, "p", "t", QoS::AtMostOnce));
        assert_eq!((pkid, dup, qos), (0, false, QoS::AtMostOnce));
        assert!(!worker.is_waiting());
    }
    assert!(w.acks.get(&"c".to_string(), 0).is_none());
    assert!(!w.pkids.is_in_flight(&"c".to_string(), 1));
}

#[test]
fn qos1_exact_delivery_and_commits() {
    let mut w = world("c", 10);
    let mut worker = PushWorker::new(sub("c", "t", QoS::AtLeastOnce));
    let group = worker.group_id().clone();
    let topic = "t".to_string();
    let mut sends = 0;
    for i in 0..10u64 {
        let (pkid, dup, qos) = first_send(&mut w, &mut worker, msg(i, "p", "t", QoS::AtLeastOnce));
        assert!(!dup);
        assert_eq!(qos, QoS::AtLeastOnce);
        sends += 1;
        assert_eq!(w.offsets.get(&topic, &group), if i == 0 { None } else { Some(i - 1) });
        let out = event(&mut w, &mut worker, SendEvent::Ack { kind: AckKind::PubAck, reason: 0 });
        assert!(matches!(out, EventOutcome::Completed(o) if o == i));
        assert!(!w.pkids.is_in_flight(&"c".to_string(), pkid));
        assert_eq!(w.offsets.get(&topic, &group), Some(i));
    }
    assert_eq!(sends, 10);
    let again = worker.handle_record(3, Some(msg(3, "p", "t", QoS::AtLeastOnce)), Some(7), &mut w.pkids, &mut w.offsets, &mut w.acks, 0);
    assert!(matches!(again, RecordOutcome::AlreadyDone));
}

#[test]
fn qos2_completes_after_reconnect() {
    let mut w = world("c", 10);
    let mut worker = PushWorker::new(sub("c", "t", QoS::ExactlyOnce));
    let (p1, _, _) = first_send(&mut w, &mut worker, msg(0, "p", "t", QoS::ExactlyOnce));
    assert!(matches!(event(&mut w, &mut worker, SendEvent::Ack { kind: AckKind::PubRec, reason: 0 }), EventOutcome::Send(_, _)));
    assert!(matches!(event(&mut w, &mut worker, SendEvent::Ack { kind: AckKind::PubComp, reason: 0 }), EventOutcome::Completed(0)));
    let (p2, _, _) = first_send(&mut w, &mut worker, msg(1, "p", "t", QoS::ExactlyOnce));
    assert_eq!(p1, 1);
    assert_eq!(p2, 2);
    match event(&mut w, &mut worker, SendEvent::Ack { kind: AckKind::PubRec, reason: 0 }) {
        EventOutcome::Send(pkg, _) => assert!(matches!(pkg.packet, Packet::PubRel { pkid: 2, .. })),
        _ => panic!("expected PubRel"),
    }
    assert!(matches!(event(&mut w, &mut worker, SendEvent::Disconnected), EventOutcome::Idle));
    assert!(matches!(event(&mut w, &mut worker, SendEvent::Timeout), EventOutcome::Idle));
    match event(&mut w, &mut worker, SendEvent::Reconnected { connection_id: 8 }) {
        EventOutcome::Send(pkg, _) => {
            assert_eq!(pkg.connection_id, 8);
            assert!(matches!(pkg.packet, Packet::PubRel { pkid: 2, .. }));
        }
        _ => panic!("expected PubRel again"),
    }
    assert!(w.pkids.is_in_flight(&"c".to_string(), 2));
    assert!(matches!(event(&mut w, &mut worker, SendEvent::Ack { kind: AckKind::PubComp, reason: 0 }), EventOutcome::Completed(1)));
    let (_, dup, _) = first_send(&mut w, &mut worker, msg(2, "p", "t", QoS::ExactlyOnce));
    assert!(!dup);
}

#[test]
fn nolocal_subscriber_skips_own_messages() {
    let mut w = world("c", 10);
    w.pkids.connect(&"d".to_string(), 10);
    let mut own = sub("c", "t", QoS::AtMostOnce);
    own.nolocal = true;
    let mut c_worker = PushWorker::new(own);
    let mut d_worker = PushWorker::new(sub("d", "t", QoS::AtMostOnce));
    let mut c_got = 0;
    let mut d_got = 0;
    for i in 0..5u64 {
        let r = c_worker.handle_record(i, Some(msg(i, "c", "t", QoS::AtMostOnce)), Some(1), &mut w.pkids, &mut w.offsets, &mut w.acks, 0);
        match r {
            RecordOutcome::Send(_, _) => c_got += 1,
            RecordOutcome::Skipped => {}
            _ => panic!("unexpected outcome"),
        }
        let r = d_worker.handle_record(i, Some(msg(i, "c", "t", QoS::AtMostOnce)), Some(2), &mut w.pkids, &mut w.offsets, &mut w.acks, 0);
        if let RecordOutcome::Send(_, _) = r {
            d_got += 1;
        }
    }
    assert_eq!(c_got, 0);
    assert_eq!(d_got, 5);
    assert_eq!(w.offsets.get(&"t".to_string(), c_worker.group_id()), Some(4));
}

#[test]
fn retries_exhaust_then_abandon() {
    let mut w = world("c", 10);
    let mut worker = PushWorker::new(sub("c", "t", QoS::AtLeastOnce));
    let (pkid, _, _) = first_send(&mut w, &mut worker, msg(0, "p", "t", QoS::AtLeastOnce));
    for _ in 0..3 {
        match event(&mut w, &mut worker, SendEvent::Timeout) {
            EventOutcome::Send(pkg, _) => match pkg.packet {
                Packet::Publish(p) => {
                    assert!(p.dup);
                    assert_eq!(p.pkid, pkid);
                }
                _ => panic!("expected a publish"),
            },
            _ => panic!("expected a resend"),
        }
    }
    match event(&mut w, &mut worker, SendEvent::Timeout) {
        EventOutcome::Abandoned { offset, pkid: p, reason } => {
            assert_eq!(reason, AbandonReason::RetriesExhausted);
            assert_eq!(offset, 0);
            assert_eq!(p, pkid);
        }
        _ => panic!("expected abandonment"),
    }
    assert_eq!(w.offsets.get(&"t".to_string(), worker.group_id()), Some(0));
    let (_, dup, _) = first_send(&mut w, &mut worker, msg(1, "p", "t", QoS::AtLeastOnce));
    assert!(!dup);
}

#[test]
fn preserve_retain_controls_retain_flag() {
    let mut a = PkidAllocator::new();
    let mut m = msg(0, "p", "t", QoS::AtMostOnce);
    m.retain = true;
    let off = sub("c", "t", QoS::AtMostOnce);
    let mut on = sub("d", "t", QoS::AtMostOnce);
    on.preserve_retain = true;
    assert!(!build_publish(&off, &m, &mut a).unwrap().retain);
    assert!(build_publish(&on, &m, &mut a).unwrap().retain);
}

#[test]
fn worker_waits_for_disconnected_client_without_commit() {
    let mut w = world("c", 1);
    let mut worker = PushWorker::new(sub("c", "t", QoS::AtLeastOnce));
    let r = worker.handle_record(0, Some(msg(0, "p", "t", QoS::AtLeastOnce)), None, &mut w.pkids, &mut w.offsets, &mut w.acks, 0);
    assert!(matches!(r, RecordOutcome::WaitForClient));
    assert_eq!(w.offsets.get(&"t".to_string(), worker.group_id()), None);
    let r = worker.handle_record(0, None, Some(1), &mut w.pkids, &mut w.offsets, &mut w.acks, 0);
    assert!(matches!(r, RecordOutcome::Skipped));
    assert_eq!(w.offsets.get(&"t".to_string(), worker.group_id()), Some(0));
}

#[test]
fn worker_stalls_when_pkids_are_exhausted() {
    let mut w = world("c", 1);
    w.pkids.allocate(&"c".to_string()).unwrap();
    let mut worker = PushWorker::new(sub("c", "t", QoS::AtLeastOnce));
    let r = worker.handle_record(0, Some(msg(0, "p", "t", QoS::AtLeastOnce)), Some(1), &mut w.pkids, &mut w.offsets, &mut w.acks, 0);
    assert!(matches!(r, RecordOutcome::Stalled));
}

#[test]
fn mqtt5_clients_use_the_v5_queue() {
    let mut w = world("c", 1);
    let mut s = sub("c", "t", QoS::AtMostOnce);
    s.protocol = ProtocolVersion::Mqtt5;
    let mut worker = PushWorker::new(s);
    let r = worker.handle_record(0, Some(msg(0, "p", "t", QoS::AtMostOnce)), Some(1), &mut w.pkids, &mut w.offsets, &mut w.acks, 0);
    assert!(matches!(r, RecordOutcome::Send(_, ResponseQueue::V5)));
}

#[test]
fn crashed_workers_restart_until_too_many_recent_crashes() {
    let five = vec![100_000u64, 110_000, 120_000, 130_000, 140_000];
    assert_eq!(restart_decision(&five, 150_000, true), RestartDecision::RespawnAfter(1000));
    let mut six = five.clone();
    six.push(150_000);
    assert_eq!(restart_decision(&six, 150_000, true), RestartDecision::Halt);
    assert_eq!(restart_decision(&six, 200_000, true), RestartDecision::RespawnAfter(1000));
    assert_eq!(restart_decision(&six, 150_000, false), RestartDecision::Forget);
}

#[test]
fn log_reads_resume_after_committed_offset() {
    let mut log = TopicLog::new();
    for i in 0..7u8 {
        assert_eq!(log.append(vec![i]), i as u64);
    }
    assert_eq!(log.len(), 7);
    let mut offsets = GroupOffsets::new();
    let t = "t".to_string();
    let g = "g".to_string();
    let batch = read_topic_message(&log, &offsets, &t, &g, 5);
    assert_eq!(batch.iter().map(|r| r.offset).collect::<Vec<_>>(), vec![0, 1, 2, 3, 4]);
    assert_eq!(batch[3].data, vec![3]);
    offsets.commit(&t, &g, 4);
    let batch = read_topic_message(&log, &offsets, &t, &g, 5);
    assert_eq!(batch.iter().map(|r| r.offset).collect::<Vec<_>>(), vec![5, 6]);
    offsets.commit(&t, &g, 6);
    assert!(read_topic_message(&log, &offsets, &t, &g, 5).is_empty());
    assert!(log.read(100, 5).is_empty());
    assert!(log.read(2, 0).is_empty());
}

#[test]
fn qos1_resend_after_reconnect_goes_to_new_connection() {
    let mut w = world("c", 10);
    let mut worker = PushWorker::new(sub("c", "t", QoS::AtLeastOnce));
    let (pkid, _, _) = first_send(&mut w, &mut worker, msg(0, "p", "t", QoS::AtLeastOnce));
    assert!(w.pkids.is_in_flight(&"c".to_string(), pkid));
    assert!(w.acks.get(&"c".to_string(), pkid).is_some());
    assert!(matches!(event(&mut w, &mut worker, SendEvent::Disconnected), EventOutcome::Idle));
    match event(&mut w, &mut worker, SendEvent::Reconnected { connection_id: 11 }) {
        EventOutcome::Send(pkg, _) => {
            assert_eq!(pkg.connection_id, 11);
            match pkg.packet {
                Packet::Publish(p) => {
                    assert!(p.dup);
                    assert_eq!(p.pkid, pkid);
                }
                _ => panic!("expected a publish"),
            }
        }
        _ => panic!("expected a resend"),
    }
    assert!(w.pkids.is_in_flight(&"c".to_string(), pkid));
    match event(&mut w, &mut worker, SendEvent::Timeout) {
        EventOutcome::Send(pkg, _) => assert_eq!(pkg.connection_id, 11),
        _ => panic!("expected a resend"),
    }
    let out = event(&mut w, &mut worker, SendEvent::Ack { kind: AckKind::PubAck, reason: 0x87 });
    assert!(matches!(out, EventOutcome::Abandoned { reason: AbandonReason::Rejected(0x87), .. }));
    assert!(!w.pkids.is_in_flight(&"c".to_string(), pkid));
    assert!(w.acks.get(&"c".to_string(), pkid).is_none());
}
