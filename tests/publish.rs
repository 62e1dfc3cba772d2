use databench_rs::hierarchy::{Area, PowerplantElement, ProductionLine, Site, Tag, Type, Unit, WorkCell};
use databench_rs::identity::identity_hash;
use databench_rs::pipeline::Generator;
use databench_rs::receiver::{KafkaReceiver, MQTT3Receiver, ReceiveLoop};
use databench_rs::reconcile::reconcile;
use databench_rs::sender::{
    BackoffConfig, DeliveryLedger, KafkaSender, RunState, SendDecision, SendLoop, SendOutcome, SetupError,
};

fn s(text: &str) -> String {
    text.to_string()
}

fn plant() -> PowerplantElement {
    let tags = vec![
        Tag::new(s("temperature"), Unit::DegreeC, Type::Float),
        Tag::new(s("pressure"), Unit::Pascal, Type::Int),
        Tag::new(s("scram"), Unit::NoUnit, Type::Boolean),
        Tag::new(s("radiation"), Unit::SievertPerHour, Type::Float),
    ];
    let cells = vec![
        WorkCell::new(s("reactorcore"), s("sensors"), tags),
        WorkCell::new(s("turbine"), s("drive"), vec![Tag::new(s("power"), Unit::Watt, Type::Int)]),
    ];
    let lines = vec![ProductionLine::new(s("unit4"), cells)];
    let areas = vec![Area::new(s("reactorhall"), lines)];
    PowerplantElement::new(s("chernobylnuclearpowerplant"), vec![Site::new(s("pripyat"), areas)])
}

/// Sends every message through the loop, answering each send with the next
/// outcome of `broker`, and hands batches over to the sender.
fn run_sender(sender: &mut KafkaSender, looped: &mut SendLoop, g: &Generator, broker: &mut dyn FnMut() -> SendOutcome) -> Vec<(String, String, Vec<u8>)> {
    let mut on_wire = Vec::new();
    for m in g.get_message() {
        let hash = identity_hash(&m.topic, &m.key, &m.value);
        loop {
            let outcome = broker();
            if outcome == SendOutcome::Delivered {
                on_wire.push((m.topic.clone(), m.key.clone(), m.value.clone()));
            }
            match looped.on_send_result(hash.clone(), outcome) {
                SendDecision::Next => {
                    if looped.batch_due() {
                        sender.absorb(looped.take_pending());
                    }
                    break;
                }
                SendDecision::RetryAfterFlush(_) => continue,
                SendDecision::Drop => break,
            }
        }
    }
    sender.absorb(looped.take_pending());
    on_wire
}

#[test]
fn end_to_end_counts_add_up() {
    let g = Generator::new(&plant(), 1000, 3, 10_000).unwrap();
    let mut sender = KafkaSender::new(vec![s("localhost:9092")]).unwrap();
    assert!(sender.begin());
    let config = BackoffConfig::new(1, 10, 1000, 10).unwrap();
    let mut looped = SendLoop::new(config);
    let mut n = 0u64;
    let mut broker = || {
        n += 1;
        if n % 97 == 0 { SendOutcome::Rejected } else { SendOutcome::Delivered }
    };
    let on_wire = run_sender(&mut sender, &mut looped, &g, &mut broker);
    sender.end();
    let sent = sender.get_sent_message_hashes();
    assert_eq!(sender.get_sent_messages(), sent.len() as u64);
    assert_eq!(sender.get_sent_messages(), looped.sent);
    assert_eq!(looped.sent + looped.dropped, 10_000);
    assert_eq!(on_wire.len() as u64, looped.sent);

    let mut receiver = KafkaReceiver::new(vec![s("localhost:9092")], s("umh.v1.chernobylnuclearpowerplant")).unwrap();
    assert!(receiver.begin());
    let mut rx = ReceiveLoop::new(1000);
    for (topic, key, payload) in on_wire.iter().skip(5) {
        rx.on_keyed_message(topic, key.as_bytes(), payload);
        if rx.batch_due() {
            receiver.ledger.absorb(rx.take_pending());
        }
    }
    receiver.ledger.absorb(rx.take_pending());
    receiver.end();
    let received = receiver.get_received_messages_hashes();
    assert_eq!(receiver.get_received_messages(), received.len() as u64);

    let report = reconcile(&sent, &received);
    assert_eq!((report.delivered_count() + report.lost_count()) as u64, sender.get_sent_messages());
    assert_eq!(report.lost_count(), 5);
    assert_eq!(report.stray_count(), 0);
}

#[test]
fn transient_capacity_errors_never_drop() {
    let g = Generator::new(&plant(), 50, 3, 2000).unwrap();
    let mut sender = KafkaSender::new(vec![s("b:1")]).unwrap();
    sender.begin();
    let mut looped = SendLoop::new(BackoffConfig::default_config());
    let mut n = 0u64;
    let mut broker = || {
        n += 1;
        if n % 3 == 0 { SendOutcome::QueueFull } else { SendOutcome::Delivered }
    };
    run_sender(&mut sender, &mut looped, &g, &mut broker);
    assert_eq!(sender.get_sent_messages(), 2000);
    assert_eq!(looped.dropped, 0);
}

#[test]
fn capacity_retries_grow_then_give_up() {
    let mut looped = SendLoop::new(BackoffConfig::new(1000, 2, 10, 10_000).unwrap());
    let h = s("h");
    assert_eq!(looped.on_send_result(h.clone(), SendOutcome::QueueFull), SendDecision::RetryAfterFlush(1000));
    assert_eq!(looped.on_send_result(h.clone(), SendOutcome::QueueFull), SendDecision::RetryAfterFlush(2000));
    assert_eq!(looped.on_send_result(h.clone(), SendOutcome::QueueFull), SendDecision::RetryAfterFlush(3000));
    assert_eq!(looped.on_send_result(h.clone(), SendOutcome::QueueFull), SendDecision::Drop);
    assert_eq!(looped.dropped, 1);
    assert_eq!(looped.on_send_result(h.clone(), SendOutcome::QueueFull), SendDecision::RetryAfterFlush(1000));
    assert_eq!(looped.on_send_result(h.clone(), SendOutcome::Delivered), SendDecision::Next);
    assert_eq!(looped.on_send_result(h.clone(), SendOutcome::Rejected), SendDecision::Drop);
    assert_eq!(looped.sent, 1);
    assert_eq!(looped.take_pending(), vec![h]);
    assert!(looped.take_pending().is_empty());
}

#[test]
fn backoff_config_bounds() {
    assert!(BackoffConfig::new(1000, 10, 0, 1).is_none());
    assert!(BackoffConfig::new(u64::MAX, 1, 1, 1).is_none());
    assert!(BackoffConfig::new(1000, u32::MAX, 1, 1).is_none());
    let d = BackoffConfig::default_config();
    assert_eq!((d.base_timeout_ms, d.max_depth, d.batch_size, d.final_flush_ms), (1000, 10, 10_000, 10_000));
    let mut looped = SendLoop::new(BackoffConfig::new(1, 1, 2, 1).unwrap());
    looped.on_send_result(s("a"), SendOutcome::Delivered);
    assert!(!looped.batch_due());
    looped.on_send_result(s("b"), SendOutcome::Delivered);
    assert!(looped.batch_due());
}

#[test]
fn begin_twice_starts_once() {
    let mut sender = KafkaSender::new(vec![s("b:1")]).unwrap();
    assert!(sender.begin());
    assert!(!sender.begin());
    assert!(sender.is_sending());
    sender.end();
    assert!(!sender.is_sending());
    assert!(!sender.begin());
    let mut ledger = DeliveryLedger::new();
    assert!(ledger.begin());
    assert!(!ledger.begin());
    ledger.end();
    assert_eq!(ledger.state, RunState::Stopped);
    let mut receiver = MQTT3Receiver::new(vec![s("broker:1883")], s("umh/v1/#")).unwrap();
    assert!(receiver.begin());
    assert!(!receiver.begin());
}

#[test]
fn setup_errors() {
    let sender = KafkaSender::new(vec![]).unwrap();
    assert_eq!(sender.get_sent_messages(), 0);
    assert!(sender.get_sent_message_hashes().is_empty());
    assert!(!sender.is_sending());
    let receiver = KafkaReceiver::new(vec![], s("t")).unwrap();
    assert_eq!(receiver.get_received_messages(), 0);
    assert_eq!(MQTT3Receiver::new(vec![], s("t")).err(), Some(SetupError::NoBroker));
    assert_eq!(MQTT3Receiver::new(vec![s("a:1"), s("b:2")], s("t")).err(), Some(SetupError::TooManyBrokers));
    assert_eq!(MQTT3Receiver::new(vec![s("nocolon")], s("t")).err(), Some(SetupError::MalformedAddress));
    assert_eq!(MQTT3Receiver::new(vec![s("host:70000")], s("t")).err(), Some(SetupError::MalformedAddress));
    assert_eq!(MQTT3Receiver::new(vec![s("host:")], s("t")).err(), Some(SetupError::MalformedAddress));
    let m = MQTT3Receiver::new(vec![s("10.99.112.33:1883")], s("umh/v1/#")).unwrap();
    assert_eq!(m.broker, "10.99.112.33");
    assert_eq!(m.port, 1883);
    let m = MQTT3Receiver::new(vec![s("h:+80")], s("t")).unwrap();
    assert_eq!((m.broker.as_str(), m.port), ("h", 80));
}

#[test]
fn receive_loop_batches() {
    let mut rx = ReceiveLoop::new(2);
    rx.on_path_message("umh/v1/x", b"p");
    assert!(!rx.batch_due());
    rx.on_keyed_message("umh.v1", b"x", b"p");
    assert!(rx.batch_due());
    let batch = rx.take_pending();
    assert_eq!(batch.len(), 2);
    assert_eq!(batch[0], batch[1]);
    assert_eq!(rx.received, 2);
}
