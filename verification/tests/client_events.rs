use srad::client::{topic_and_payload_to_event, Event, MessageError, MessageKind, StatePayload};
use srad::types::{DeviceMessageType, DeviceTopic, NodeMessageType, NodeTopic, Payload, StateTopic};

fn empty_payload() -> Payload {
    Payload { timestamp: Some(5), metrics: vec![], seq: Some(0), uuid: None, body: None }
}

fn read(topic: &str, decoded: Result<Payload, String>) -> Event {
    topic_and_payload_to_event(topic.as_bytes().to_vec(), vec![9, 9], decoded)
}

#[test]
fn node_birth_topic_is_a_node_message() {
    match read("spBv1.0/group/NBIRTH/node", Ok(empty_payload())) {
        Event::Node(m) => {
            assert_eq!(m.group_id, "group");
            assert_eq!(m.node_id, "node");
            assert!(matches!(m.message.kind, MessageKind::Birth));
            assert_eq!(m.message.payload.timestamp, Some(5));
        }
        other => panic!("unexpected event {:?}", other),
    }
}

#[test]
fn device_data_topic_is_a_device_message() {
    match read("spBv1.0/group/DDATA/node/dev", Ok(empty_payload())) {
        Event::Device(m) => {
            assert_eq!(m.group_id, "group");
            assert_eq!(m.node_id, "node");
            assert_eq!(m.device_id, "dev");
            assert!(matches!(m.message.kind, MessageKind::Data));
        }
        other => panic!("unexpected event {:?}", other),
    }
}

#[test]
fn verbs_are_read() {
    for (topic, expect) in [
        ("spBv1.0/g/NDEATH/n", "death"),
        ("spBv1.0/g/NCMD/n", "cmd"),
        ("spBv1.0/g/NFOO/n", "other"),
    ] {
        match read(topic, Ok(empty_payload())) {
            Event::Node(m) => match (m.message.kind, expect) {
                (MessageKind::Death, "death") => {}
                (MessageKind::Cmd, "cmd") => {}
                (MessageKind::Other(s), "other") => assert_eq!(s, "FOO"),
                (k, e) => panic!("kind {:?} for {}", k, e),
            },
            other => panic!("unexpected event {:?}", other),
        }
    }
}

#[test]
fn state_topic_is_a_state_message() {
    match read("spBv1.0/STATE/host", Err("not protobuf".to_string())) {
        Event::State { host_id, payload } => {
            assert_eq!(host_id, "host");
            match payload {
                StatePayload::Other(b) => assert_eq!(b, vec![9, 9]),
                p => panic!("unexpected payload {:?}", p),
            }
        }
        other => panic!("unexpected event {:?}", other),
    }
}

#[test]
fn malformed_topics_are_refused() {
    for topic in ["spBv1.0", "spBv1.0/g", "spBv1.0/g/XDATA/n", "spBv1.0/g/N", "spBv1.0/g/NDATA", "spBv1.0/g/NDATA/n/extra", "spBv1.0/g/DDATA/n", "spBv1.0/g/DDATA/n/d/extra", "spBv1.0/STATE"] {
        match read(topic, Ok(empty_payload())) {
            Event::InvalidPublish { reason, topic: t, payload } => {
                assert!(matches!(reason, MessageError::InvalidSparkplugTopic), "topic {}", topic);
                assert_eq!(t, topic.as_bytes().to_vec());
                assert_eq!(payload, vec![9, 9]);
            }
            other => panic!("unexpected event {:?} for {}", other, topic),
        }
    }
}

#[test]
fn undecodable_payload_is_refused() {
    match read("spBv1.0/g/NDATA/n", Err("bad".to_string())) {
        Event::InvalidPublish { reason: MessageError::DecodePayloadError(e), .. } => {
            assert_eq!(e, "bad")
        }
        other => panic!("unexpected event {:?}", other),
    }
}

#[test]
fn non_utf8_topic_part_is_refused() {
    let topic = vec![b's', b'p', b'/', 0xff, b'/', b'N', b'D', b'A', b'T', b'A', b'/', b'n'];
    match topic_and_payload_to_event(topic, vec![], Ok(empty_payload())) {
        Event::InvalidPublish { reason, .. } => assert!(matches!(reason, MessageError::TopicUtf8Error)),
        other => panic!("unexpected event {:?}", other),
    }
}

#[test]
fn published_topics_are_read_back() {
    let t = NodeTopic::new("plant", NodeMessageType::NData, "edge-1");
    match topic_and_payload_to_event(t.topic.into_bytes(), vec![], Ok(empty_payload())) {
        Event::Node(m) => {
            assert_eq!(m.group_id, "plant");
            assert_eq!(m.node_id, "edge-1");
            assert!(matches!(m.message.kind, MessageKind::Data));
        }
        other => panic!("unexpected event {:?}", other),
    }
    let d = DeviceTopic::new("plant", DeviceMessageType::DCmd, "edge-1", "pump");
    match topic_and_payload_to_event(d.topic.into_bytes(), vec![], Ok(empty_payload())) {
        Event::Device(m) => {
            assert_eq!(m.device_id, "pump");
            assert!(matches!(m.message.kind, MessageKind::Cmd));
        }
        other => panic!("unexpected event {:?}", other),
    }
    let s = StateTopic::new_host("scada");
    match topic_and_payload_to_event(s.topic.into_bytes(), vec![1], Err("x".to_string())) {
        Event::State { host_id, .. } => assert_eq!(host_id, "scada"),
        other => panic!("unexpected event {:?}", other),
    }
}

#[test]
fn group_named_state_is_read_as_state() {
    match read("spBv1.0/STATE/NDATA/n", Ok(empty_payload())) {
        Event::State { host_id, .. } => assert_eq!(host_id, "NDATA"),
        other => panic!("unexpected event {:?}", other),
    }
}
