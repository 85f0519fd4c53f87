use srad::app::config::{AppSubscriptionConfig, NamespaceSubConfig};
use srad::client::{LastWill, StatePayload};
use srad::types::{
    validate_name, DataType, DeviceMessageType, DeviceTopic, NodeMessageType, NodeTopic, QoS,
    StateTopic, Topic, TopicFilter,
};

#[test]
fn node_topics_follow_the_namespace() {
    let t = NodeTopic::new("group", NodeMessageType::NBirth, "node");
    assert_eq!(t.topic, "spBv1.0/group/NBIRTH/node");
    assert_eq!(NodeTopic::new("g", NodeMessageType::NDeath, "n").topic, "spBv1.0/g/NDEATH/n");
    assert_eq!(NodeTopic::new("g", NodeMessageType::NData, "n").topic, "spBv1.0/g/NDATA/n");
    assert_eq!(NodeTopic::new("g", NodeMessageType::NCmd, "n").topic, "spBv1.0/g/NCMD/n");
}

#[test]
fn device_topics_follow_the_namespace() {
    let t = DeviceTopic::new("group", DeviceMessageType::DData, "node", "dev");
    assert_eq!(t.topic, "spBv1.0/group/DDATA/node/dev");
    assert_eq!(
        DeviceTopic::new("g", DeviceMessageType::DBirth, "n", "d").topic,
        "spBv1.0/g/DBIRTH/n/d"
    );
    assert_eq!(
        DeviceTopic::new("g", DeviceMessageType::DDeath, "n", "d").topic,
        "spBv1.0/g/DDEATH/n/d"
    );
    assert_eq!(DeviceTopic::new("g", DeviceMessageType::DCmd, "n", "d").topic, "spBv1.0/g/DCMD/n/d");
}

#[test]
fn publish_quality_of_node_and_device_topics() {
    assert!(matches!(
        NodeTopic::new("g", NodeMessageType::NDeath, "n").get_publish_quality_retain(),
        (QoS::AtLeastOnce, false)
    ));
    assert!(matches!(
        NodeTopic::new("g", NodeMessageType::NData, "n").get_publish_quality_retain(),
        (QoS::AtMostOnce, false)
    ));
    assert!(matches!(
        DeviceTopic::new("g", DeviceMessageType::DBirth, "n", "d").get_publish_quality_retain(),
        (QoS::AtMostOnce, false)
    ));
}

#[test]
fn state_topics() {
    assert_eq!(StateTopic::new_host("host").topic, "spBv1.0/STATE/host");
    assert_eq!(StateTopic::new().topic, "spBv1.0/STATE/+");
}

#[test]
fn topic_filters() {
    assert_eq!(TopicFilter::new_with_qos(Topic::Namespace, QoS::AtMostOnce).topic, "spBv1.0/#");
    assert_eq!(
        TopicFilter::new_with_qos(Topic::Group { id: "g".to_string() }, QoS::AtMostOnce).topic,
        "spBv1.0/g/#"
    );
    let f = TopicFilter::new_with_qos(
        Topic::Node { group_id: "g".to_string(), node_id: "n".to_string() },
        QoS::AtLeastOnce,
    );
    assert_eq!(f.topic, "spBv1.0/g/+/n/#");
    assert_eq!(f.qos, QoS::AtLeastOnce);
}

#[test]
fn subscription_configs_into_filters() {
    let all = AppSubscriptionConfig::AllGroups.into_topic_filters();
    assert_eq!(all.len(), 1);
    assert_eq!(all[0].topic, "spBv1.0/#");
    let single =
        AppSubscriptionConfig::SingleGroup { group_id: "plant".to_string() }.into_topic_filters();
    assert_eq!(single[0].topic, "spBv1.0/plant/#");
    let custom = AppSubscriptionConfig::Custom(vec![
        NamespaceSubConfig::Group { group_id: "a".to_string() },
        NamespaceSubConfig::Node { group_id: "b".to_string(), node_id: "c".to_string() },
    ])
    .into_topic_filters();
    assert_eq!(custom.len(), 2);
    assert_eq!(custom[0].topic, "spBv1.0/a/#");
    assert_eq!(custom[1].topic, "spBv1.0/b/+/c/#");
    assert_eq!(custom[1].qos, QoS::AtMostOnce);
}

#[test]
fn names_are_validated() {
    assert!(validate_name("node1").is_ok());
    assert!(validate_name("").is_err());
    assert!(validate_name("a+b").is_err());
    assert!(validate_name("a/b").is_err());
    assert!(validate_name("a#b").is_err());
}

#[test]
fn state_payload_bytes_are_json() {
    let online = StatePayload::Online { timestamp: 1234 }.into_bytes();
    assert_eq!(String::from_utf8(online).unwrap(), "{\"online\" : true, \"timestamp\" : 1234}");
    let offline = StatePayload::Offline { timestamp: 0 }.into_bytes();
    assert_eq!(String::from_utf8(offline).unwrap(), "{\"online\" : false, \"timestamp\" : 0}");
    assert!(matches!(
        StatePayload::Online { timestamp: 1 }.get_publish_quality_retain(),
        (QoS::AtLeastOnce, true)
    ));
}

#[test]
fn last_wills() {
    let w = LastWill::new_node("g", "n", vec![1, 2, 3]);
    assert_eq!(w.topic, "spBv1.0/g/NDEATH/n");
    assert_eq!(w.qos, QoS::AtLeastOnce);
    assert!(!w.retain);
    assert_eq!(w.payload, vec![1, 2, 3]);
    let a = LastWill::new_app("host", 42);
    assert_eq!(a.topic, "spBv1.0/STATE/host");
    assert!(a.retain);
    assert_eq!(String::from_utf8(a.payload).unwrap(), "{\"online\" : false, \"timestamp\" : 42}");
}

#[test]
fn datatype_codes_round_trip() {
    for code in 0u32..35 {
        let d = DataType::from_code(code).unwrap();
        assert_eq!(d.code(), code);
    }
    assert!(DataType::from_code(35).is_none());
    assert_eq!(DataType::Int64.code(), 4);
    assert_eq!(DataType::Boolean.code(), 11);
}

#[test]
fn state_payload_timestamps_are_written_in_full() {
    let a = StatePayload::Online { timestamp: u64::MAX }.into_bytes();
    assert_eq!(String::from_utf8(a).unwrap(), "{\"online\" : true, \"timestamp\" : 18446744073709551615}");
    let b = StatePayload::Offline { timestamp: 1000 }.into_bytes();
    assert_eq!(String::from_utf8(b).unwrap(), "{\"online\" : false, \"timestamp\" : 1000}");
}
