use srad::app::events::{
    AppDeviceEvent, AppNodeEvent, DDeath, DeviceEvent, MessageTryFromError, NBirth, NData, NDeath,
    NodeEvent, PayloadError,
};
use srad::app::eventloop::PublishTopic;
use srad::app::metrics::{
    bdseq_from_payload_metrics, get_metric_birth_details_from_birth_metrics,
    get_metric_id_and_details_from_payload_metrics, MetricBirthDetails, PublishMetric,
};
use srad::client::{DeviceMessage, Event, Message, MessageKind, NodeMessage};
use srad::types::{DataType, Metric, MetricId, MetricValue, Payload};

fn metric(name: &str, datatype: Option<u32>, value: Option<MetricValue>) -> Metric {
    let mut m = Metric::new();
    m.name = Some(name.to_string());
    m.datatype = datatype;
    m.timestamp = Some(10);
    m.value = value;
    m
}

fn bdseq_metric(v: u64) -> Metric {
    metric("bdSeq", Some(DataType::Int64.code()), Some(MetricValue::LongValue(v)))
}

fn payload(seq: Option<u64>, timestamp: Option<u64>, metrics: Vec<Metric>) -> Payload {
    Payload { timestamp, metrics, seq, uuid: None, body: None }
}

#[test]
fn nbirth_reads_bdseq_and_metrics() {
    let p = payload(
        Some(0),
        Some(100),
        vec![bdseq_metric(3), metric("temp", Some(DataType::Int32.code()), Some(MetricValue::IntValue(7)))],
    );
    let b = NBirth::try_from(p).unwrap();
    assert_eq!(b.bdseq, 3);
    assert_eq!(b.timestamp, 100);
    assert_eq!(b.metrics_details.len(), 2);
    assert_eq!(b.metrics_details[1].0.name, "temp");
    assert_eq!(b.metrics_details[1].0.datatype, DataType::Int32);
    assert_eq!(b.metrics_details[1].1.timestamp, 10);
}

#[test]
fn nbirth_errors() {
    assert!(matches!(
        NBirth::try_from(payload(None, Some(1), vec![bdseq_metric(0)])),
        Err(PayloadError::MissingSeq)
    ));
    assert!(matches!(
        NBirth::try_from(payload(Some(1), Some(1), vec![bdseq_metric(0)])),
        Err(PayloadError::InvalidSeq)
    ));
    assert!(matches!(
        NBirth::try_from(payload(Some(0), None, vec![bdseq_metric(0)])),
        Err(PayloadError::MissingTimestamp)
    ));
    assert!(matches!(
        NBirth::try_from(payload(Some(0), Some(1), vec![])),
        Err(PayloadError::InvalidBdseq)
    ));
    assert!(matches!(
        NBirth::try_from(payload(Some(0), Some(1), vec![bdseq_metric(256)])),
        Err(PayloadError::InvalidBdseq)
    ));
    assert!(matches!(
        NBirth::try_from(payload(Some(0), Some(1), vec![bdseq_metric(0), metric("x", None, Some(MetricValue::IntValue(1)))])),
        Err(PayloadError::MetricError(_))
    ));
}

#[test]
fn ndeath_reads_bdseq() {
    assert_eq!(NDeath::try_from(payload(None, None, vec![bdseq_metric(7)])).unwrap().bdseq, 7);
    assert!(matches!(
        NDeath::try_from(payload(None, None, vec![metric("bdSeq", None, Some(MetricValue::IntValue(1)))])),
        Err(PayloadError::InvalidBdseq)
    ));
}

#[test]
fn sequenced_payload_errors() {
    assert!(matches!(NData::try_from(payload(None, Some(1), vec![])), Err(PayloadError::MissingSeq)));
    assert!(matches!(
        NData::try_from(payload(Some(1), None, vec![])),
        Err(PayloadError::MissingTimestamp)
    ));
    let mut no_value = metric("x", None, None);
    no_value.is_null = Some(false);
    assert!(matches!(
        NData::try_from(payload(Some(1), Some(1), vec![no_value])),
        Err(PayloadError::MetricError(_))
    ));
    let d = DDeath::try_from(payload(Some(300), Some(9), vec![])).unwrap();
    assert_eq!(d.seq, 44);
    assert_eq!(d.timestamp, 9);
}

#[test]
fn ndata_reads_ids_and_details() {
    let mut aliased = metric("ignored", None, Some(MetricValue::BooleanValue(true)));
    aliased.alias = Some(12);
    let mut null = metric("n", None, None);
    null.is_null = Some(true);
    let d = NData::try_from(payload(Some(5), Some(50), vec![aliased, null])).unwrap();
    assert_eq!(d.seq, 5);
    assert_eq!(d.timestamp, 50);
    assert!(matches!(d.metrics_details[0].0, MetricId::Alias(12)));
    match &d.metrics_details[1].0 {
        MetricId::Name(n) => assert_eq!(n, "n"),
        _ => panic!("expected a name"),
    }
    assert!(d.metrics_details[1].1.value.is_none());
    assert!(!d.metrics_details[1].1.is_historical);
}

#[test]
fn node_message_events() {
    let msg = NodeMessage {
        group_id: "g".to_string(),
        node_id: "n".to_string(),
        message: Message { payload: payload(Some(0), Some(1), vec![bdseq_metric(2)]), kind: MessageKind::Birth },
    };
    match AppNodeEvent::try_from(msg) {
        Ok(ev) => {
            assert_eq!(ev.id.group, "g");
            assert_eq!(ev.id.node, "n");
            assert!(matches!(ev.event, NodeEvent::Birth(b) if b.bdseq == 2));
        }
        Err(_) => panic!("birth refused"),
    }
    let cmd = NodeMessage {
        group_id: "g".to_string(),
        node_id: "n".to_string(),
        message: Message { payload: payload(None, None, vec![]), kind: MessageKind::Cmd },
    };
    assert!(matches!(AppNodeEvent::try_from(cmd), Err(MessageTryFromError::UnsupportedVerb)));
    let bad = NodeMessage {
        group_id: "g".to_string(),
        node_id: "n".to_string(),
        message: Message { payload: payload(None, None, vec![]), kind: MessageKind::Death },
    };
    match AppNodeEvent::try_from(bad) {
        Err(MessageTryFromError::PayloadError(d)) => {
            assert!(matches!(d.error, PayloadError::InvalidBdseq));
            assert!(d.device.is_none());
        }
        _ => panic!("expected a payload error"),
    }
}

#[test]
fn device_message_events() {
    let msg = DeviceMessage {
        group_id: "g".to_string(),
        node_id: "n".to_string(),
        device_id: "d".to_string(),
        message: Message { payload: payload(Some(4), Some(8), vec![]), kind: MessageKind::Death },
    };
    match AppDeviceEvent::try_from(msg) {
        Ok(ev) => {
            assert_eq!(ev.name, "d");
            assert!(matches!(ev.event, DeviceEvent::Death(d) if d.seq == 4 && d.timestamp == 8));
        }
        Err(_) => panic!("death refused"),
    }
    let bad = DeviceMessage {
        group_id: "g".to_string(),
        node_id: "n".to_string(),
        device_id: "d".to_string(),
        message: Message { payload: payload(Some(4), None, vec![]), kind: MessageKind::Data },
    };
    match AppDeviceEvent::try_from(bad) {
        Err(MessageTryFromError::PayloadError(d)) => {
            assert!(matches!(d.error, PayloadError::MissingTimestamp));
            assert_eq!(d.device, Some("d".to_string()));
        }
        _ => panic!("expected a payload error"),
    }
    let other = DeviceMessage {
        group_id: "g".to_string(),
        node_id: "n".to_string(),
        device_id: "d".to_string(),
        message: Message { payload: payload(None, None, vec![]), kind: MessageKind::Other("X".to_string()) },
    };
    assert!(matches!(AppDeviceEvent::try_from(other), Err(MessageTryFromError::UnsupportedVerb)));
}

#[test]
fn bdseq_is_the_first_bdseq_metric() {
    let ms = vec![metric("a", None, Some(MetricValue::IntValue(1))), bdseq_metric(9), bdseq_metric(4)];
    assert_eq!(bdseq_from_payload_metrics(&ms).unwrap(), 9);
    assert!(bdseq_from_payload_metrics(&vec![]).is_err());
    let neg = metric("bdSeq", None, Some(MetricValue::LongValue(u64::MAX)));
    assert!(bdseq_from_payload_metrics(&vec![neg]).is_err());
}

#[test]
fn metric_detail_readers() {
    let ok = vec![metric("a", Some(DataType::Boolean.code()), Some(MetricValue::BooleanValue(false)))];
    assert_eq!(get_metric_birth_details_from_birth_metrics(ok).unwrap().len(), 1);
    let unknown_type = vec![metric("a", Some(99), Some(MetricValue::BooleanValue(false)))];
    assert!(get_metric_birth_details_from_birth_metrics(unknown_type).is_err());
    let no_timestamp = {
        let mut m = metric("a", None, Some(MetricValue::IntValue(1)));
        m.timestamp = None;
        vec![m]
    };
    assert!(get_metric_id_and_details_from_payload_metrics(no_timestamp).is_err());
}

#[test]
fn app_publish_metric_into_metric() {
    let m = PublishMetric::new(MetricId::Alias(3), MetricValue::IntValue(5)).timestamp(77).into_metric();
    assert_eq!(m.alias, Some(3));
    assert!(m.name.is_none());
    assert_eq!(m.timestamp, Some(77));
    assert!(matches!(m.value, Some(MetricValue::IntValue(5))));
}

#[test]
fn metric_ids_commands_and_offline_events() {
    let named = MetricBirthDetails { name: "temp".to_string(), alias: None, datatype: DataType::Float };
    assert!(matches!(named.get_metric_id(), MetricId::Name(ref n) if n == "temp"));
    let aliased = MetricBirthDetails { name: "temp".to_string(), alias: Some(9), datatype: DataType::Float };
    assert!(matches!(aliased.get_metric_id(), MetricId::Alias(9)));
    match PublishTopic::new_device_cmd("g", "n", "d") {
        PublishTopic::Device(t) => assert_eq!(t.topic, "spBv1.0/g/DCMD/n/d"),
        _ => panic!("device topic expected"),
    }
    match PublishTopic::new_node_cmd("g", "n") {
        PublishTopic::Node(t) => assert_eq!(t.topic, "spBv1.0/g/NCMD/n"),
        _ => panic!("node topic expected"),
    }
    assert!(Event::Offline.is_offline());
    assert!(!Event::Online.is_offline());
}

#[test]
fn birth_metric_names_and_aliases_must_be_unique() {
    let a = metric("a", Some(DataType::Int32.code()), Some(MetricValue::IntValue(1)));
    let b = metric("b", Some(DataType::Int32.code()), Some(MetricValue::IntValue(2)));
    assert!(get_metric_birth_details_from_birth_metrics(vec![a.clone(), b.clone()]).is_ok());
    let same_name = metric("a", Some(DataType::Int32.code()), Some(MetricValue::IntValue(3)));
    assert!(get_metric_birth_details_from_birth_metrics(vec![a.clone(), same_name]).is_err());
    let mut a1 = a.clone();
    a1.alias = Some(7);
    let mut b1 = b.clone();
    b1.alias = Some(7);
    assert!(get_metric_birth_details_from_birth_metrics(vec![a1.clone(), b1]).is_err());
    let mut b2 = b;
    b2.alias = Some(8);
    assert!(get_metric_birth_details_from_birth_metrics(vec![a1, b2]).is_ok());
    assert!(matches!(
        NBirth::try_from(payload(Some(0), Some(1), vec![bdseq_metric(0), bdseq_metric(0)])),
        Err(PayloadError::MetricError(_))
    ));
}
