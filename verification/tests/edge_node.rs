use srad::app::events::NBirth;
use srad::app::resequencer::{DrainResult, ProcessResult, Resequencer};
use srad::eon::birth::{BirthInitializer, BirthMetricDetails, BirthMetricError, BirthObjectType};
use srad::eon::device::{BirthType, Device, DeviceAction, DeviceInput};
use srad::eon::manager::{MetricManager, NoMetricManager};
use srad::eon::metric::{sort_by_timestamp, MessageMetric, MessageMetrics, PublishError, PublishMetric};
use srad::eon::node::{generate_birth_payload, ncmd_rebirth_requested, EoNState, NodeCommandHandler};
use srad::eon::registry::{DeviceRegistrationError, Registry};
use srad::eon::simple::{HeldValue, SimpleMetricManager};
use srad::eon::value::MetricValueType;
use srad::types::{DataType, MetaData, Metric, MetricId, MetricValue, Payload, PropertySet, QoS};

fn state() -> EoNState {
    EoNState::new(Some("group".to_string()), Some("node".to_string())).unwrap()
}

fn online_birthed_state() -> EoNState {
    let mut s = state();
    assert!(s.set_online());
    let mut m = NoMetricManager::new();
    s.node_birth(&mut m, 1);
    s.birth_published();
    s
}

fn value_metric(id: MetricId, ts: u64) -> PublishMetric {
    PublishMetric::new(id, Some(MetricValue::IntValue(1)), None, ts)
}

#[test]
fn eon_state_requires_ids() {
    assert_eq!(EoNState::new(None, Some("n".to_string())).err().unwrap(), "group id must be provided");
    assert_eq!(EoNState::new(Some("g".to_string()), None).err().unwrap(), "node id must be provided");
    assert!(EoNState::new(Some("g/x".to_string()), Some("n".to_string())).is_err());
    assert!(EoNState::new(Some("g".to_string()), Some("".to_string())).is_err());
    assert_eq!(
        EoNState::new(Some("g/x".to_string()), Some("n".to_string())).err().unwrap(),
        "name must not contain the reserved characters '+', '/' or '#'"
    );
    assert_eq!(EoNState::new(Some("g".to_string()), Some("".to_string())).err().unwrap(), "name must not be empty");
    let s = state();
    assert_eq!(s.group_id(), "group");
    assert_eq!(s.edge_node_id(), "node");
    assert!(!s.is_online());
    assert!(!s.birthed());
}

#[test]
fn sequence_numbers_wrap_after_255() {
    let mut s = state();
    for i in 0..=255u64 {
        assert_eq!(s.get_seq(), i);
    }
    assert_eq!(s.get_seq(), 0);
}

#[test]
fn node_birth_has_seq_zero_and_control_metrics() {
    let mut s = state();
    s.set_online();
    let mut m = NoMetricManager::new();
    let (topic, p) = s.node_birth(&mut m, 77);
    assert_eq!(topic.topic, "spBv1.0/group/NBIRTH/node");
    assert_eq!(p.seq, Some(0));
    assert_eq!(p.timestamp, Some(77));
    assert_eq!(p.metrics.len(), 2);
    assert_eq!(p.metrics[0].name.as_deref(), Some("bdSeq"));
    assert!(matches!(p.metrics[0].value, Some(MetricValue::LongValue(0))));
    assert_eq!(p.metrics[0].datatype, Some(DataType::Int64.code()));
    assert_eq!(p.metrics[1].name.as_deref(), Some("Node Control/Rebirth"));
    assert!(matches!(p.metrics[1].value, Some(MetricValue::BooleanValue(false))));
    assert!(p.metrics[1].alias.is_none());
    assert!(!s.birthed());
    s.birth_published();
    assert!(s.birthed());
    assert_eq!(s.get_seq(), 1);
}

#[test]
fn application_reads_the_node_birth() {
    let mut m = NoMetricManager::new();
    let p = generate_birth_payload(&mut m, 9, 1234);
    let b = NBirth::try_from(p).unwrap();
    assert_eq!(b.bdseq, 9);
    assert_eq!(b.timestamp, 1234);
    assert_eq!(b.metrics_details.len(), 2);
}

#[test]
fn offline_ends_the_session_and_gives_the_next_will() {
    let mut s = online_birthed_state();
    let will = s.set_offline().unwrap();
    assert!(!s.birthed());
    assert!(!s.is_online());
    assert!(matches!(will.metrics[0].value, Some(MetricValue::LongValue(1))));
    assert!(will.seq.is_none());
    assert!(s.set_offline().is_none());
    // the next birth carries the bdSeq the will announced
    s.set_online();
    let mut m = NoMetricManager::new();
    let (_, birth) = s.node_birth(&mut m, 5);
    assert!(matches!(birth.metrics[0].value, Some(MetricValue::LongValue(1))));
}

#[test]
fn bdseq_wraps_after_255() {
    let mut s = state();
    for _ in 0..256 {
        s.death();
    }
    let p = s.generate_death_payload();
    assert!(matches!(p.metrics[0].value, Some(MetricValue::LongValue(0))));
    assert_eq!(p.metrics[0].name.as_deref(), Some("bdSeq"));
}

#[test]
fn node_data_requires_metrics_and_a_birthed_online_node() {
    let mut s = state();
    assert!(matches!(s.prepare_node_data(vec![], 1), Err(PublishError::NoMetrics)));
    assert!(matches!(
        s.prepare_node_data(vec![value_metric(MetricId::Alias(1), 1)], 1),
        Err(PublishError::Offline)
    ));
    s.set_online();
    assert!(matches!(
        s.prepare_node_data(vec![value_metric(MetricId::Alias(1), 1)], 1),
        Err(PublishError::UnBirthed)
    ));
    let mut s = online_birthed_state();
    let p = s.prepare_node_data(vec![value_metric(MetricId::Alias(1), 3)], 9).unwrap();
    assert_eq!(p.seq, Some(1));
    assert_eq!(p.timestamp, Some(9));
    assert_eq!(p.metrics[0].alias, Some(1));
    let p = s.prepare_node_data(vec![value_metric(MetricId::Alias(1), 3)], 9).unwrap();
    assert_eq!(p.seq, Some(2));
    assert_eq!(s.ndata_topic().topic, "spBv1.0/group/NDATA/node");
}

#[test]
fn node_subscriptions() {
    let s = state();
    let subs = s.sub_topics();
    let names: Vec<String> = subs.iter().map(|f| f.topic.clone()).collect();
    assert_eq!(
        names,
        vec![
            "spBv1.0/group/NCMD/node".to_string(),
            "spBv1.0/group/DCMD/node/+".to_string(),
            "spBv1.0/STATE/+".to_string()
        ]
    );
    assert!(subs.iter().all(|f| f.qos == QoS::AtLeastOnce));
    assert_eq!(s.death_topic().topic, "spBv1.0/group/NDEATH/node");
}

fn rebirth_metric(value: Option<MetricValue>, alias: Option<u64>) -> Metric {
    let mut m = Metric::new();
    m.name = Some("Node Control/Rebirth".to_string());
    m.value = value;
    m.alias = alias;
    m
}

#[test]
fn rebirth_requests_are_read_from_commands() {
    assert!(ncmd_rebirth_requested(&vec![rebirth_metric(Some(MetricValue::BooleanValue(true)), None)]));
    assert!(!ncmd_rebirth_requested(&vec![rebirth_metric(Some(MetricValue::BooleanValue(false)), None)]));
    assert!(!ncmd_rebirth_requested(&vec![rebirth_metric(Some(MetricValue::IntValue(1)), None)]));
    assert!(!ncmd_rebirth_requested(&vec![rebirth_metric(Some(MetricValue::BooleanValue(true)), Some(4))]));
    // the last request decides
    assert!(!ncmd_rebirth_requested(&vec![
        rebirth_metric(Some(MetricValue::BooleanValue(true)), None),
        rebirth_metric(Some(MetricValue::BooleanValue(false)), None)
    ]));
    assert!(!ncmd_rebirth_requested(&vec![]));
}

#[test]
fn rebirths_are_spaced_by_the_cooldown() {
    let mut h = NodeCommandHandler::new(1000);
    let cmd = |ts: Option<u64>| Payload {
        timestamp: ts,
        metrics: vec![rebirth_metric(Some(MetricValue::BooleanValue(true)), None)],
        seq: None,
        uuid: None,
        body: None,
    };
    assert!(h.on_ncmd(cmd(None), 5000).is_none());
    assert!(h.on_ncmd(cmd(Some(1)), 5000).unwrap().rebirth);
    assert!(!h.on_ncmd(cmd(Some(1)), 5500).unwrap().rebirth);
    assert!(h.on_ncmd(cmd(Some(1)), 6000).unwrap().rebirth);
}

#[test]
fn device_lifecycle() {
    let mut node = online_birthed_state();
    let mut d = Device::new(7, "dev".to_string());
    assert_eq!(d.name(), "dev");
    assert_eq!(d.id(), 7);
    // a disabled device is not birthed
    assert_eq!(d.step(DeviceInput::NodeBirth(BirthType::Birth), true), DeviceAction::Nothing);
    assert_eq!(d.step(DeviceInput::Enable, true), DeviceAction::PublishBirth(BirthType::Birth));
    let mut m = NoMetricManager::new();
    let (topic, p) = d.birth_payload(&mut m, &mut node, 11);
    assert_eq!(topic.topic, "spBv1.0/group/DBIRTH/node/dev");
    assert_eq!(p.seq, Some(1));
    d.birth_published();
    assert!(d.birthed());
    // a plain birth is not repeated, a rebirth is
    assert_eq!(d.step(DeviceInput::NodeBirth(BirthType::Birth), true), DeviceAction::Nothing);
    assert_eq!(d.step(DeviceInput::Rebirth, true), DeviceAction::PublishBirth(BirthType::Rebirth));
    // node death ends the session without a message
    assert_eq!(d.step(DeviceInput::NodeDeath, true), DeviceAction::Nothing);
    assert!(!d.birthed());
    assert_eq!(d.step(DeviceInput::Disable, true), DeviceAction::Nothing);
    assert_eq!(d.step(DeviceInput::Enable, false), DeviceAction::Nothing);
}

#[test]
fn device_death_and_data() {
    let mut node = online_birthed_state();
    let mut d = Device::new(7, "dev".to_string());
    d.step(DeviceInput::Enable, true);
    assert!(matches!(
        d.prepare_device_data(vec![value_metric(MetricId::Alias(2), 1)], &mut node, 1),
        Err(PublishError::UnBirthed)
    ));
    let mut m = NoMetricManager::new();
    d.birth_payload(&mut m, &mut node, 11);
    d.birth_published();
    let p = d.prepare_device_data(vec![value_metric(MetricId::Alias(2), 1)], &mut node, 12).unwrap();
    assert_eq!(p.seq, Some(2));
    assert_eq!(d.step(DeviceInput::Removed, true), DeviceAction::PublishDeath);
    let (topic, death) = d.death_payload(&mut node, 13);
    assert_eq!(topic.topic, "spBv1.0/group/DDEATH/node/dev");
    assert_eq!(death.seq, Some(3));
    assert!(death.metrics.is_empty());
}

#[test]
fn registry_gives_distinct_ids() {
    let mut r = Registry::new();
    let a = r.add_device("a".to_string()).unwrap();
    let b = r.add_device("b".to_string()).unwrap();
    assert_ne!(a, b);
    assert_ne!(a, 0);
    assert!(matches!(r.add_device("a".to_string()), Err(DeviceRegistrationError::DuplicateDevice)));
    assert!(matches!(r.add_device("x/y".to_string()), Err(DeviceRegistrationError::InvalidName(_))));
    match r.add_device(String::new()) {
        Err(DeviceRegistrationError::InvalidName(e)) => assert_eq!(e, "name must not be empty"),
        _ => panic!("invalid name expected"),
    }
    assert_eq!(r.find("b"), Some(1));
    assert_eq!(r.remove_device("a"), Some(a));
    assert_eq!(r.remove_device("a"), None);
    assert_eq!(r.find("b"), Some(0));
}

#[test]
fn birth_initializer_names_and_aliases() {
    let mut bi = BirthInitializer::new(BirthObjectType::Device(5));
    let t1 = bi.register_metric(BirthMetricDetails::new_with_initial_value("m1".to_string(), 3i32, 1)).unwrap();
    let t2 = bi.register_metric(BirthMetricDetails::new_with_initial_value("m2".to_string(), 3i32, 1)).unwrap();
    match (&t1.id, &t2.id) {
        (MetricId::Alias(a), MetricId::Alias(b)) => {
            assert_ne!(a, b);
            assert_eq!(a >> 32, 5);
            assert_eq!(b >> 32, 5);
        }
        _ => panic!("aliases expected"),
    }
    assert!(matches!(
        bi.register_metric(BirthMetricDetails::new_with_initial_value("m1".to_string(), 1u8, 1)),
        Err(BirthMetricError::DuplicateMetric)
    ));
    let named = bi
        .register_metric(BirthMetricDetails::new_with_initial_value("m3".to_string(), true, 1).use_alias(false))
        .unwrap();
    assert!(matches!(named.id, MetricId::Name(ref n) if n == "m3"));
    assert!(matches!(
        BirthMetricDetails::<i32>::new_with_initial_value_explicit_type("x".to_string(), 1, DataType::String, 1),
        Err(BirthMetricError::MetricValueDatatypeMismatch)
    ));
    assert!(matches!(
        bi.register_metric(BirthMetricDetails::<HeldValue>::new_without_initial_value("t".to_string(), DataType::Template, 1).unwrap()),
        Err(_)
    ));
    let metrics = bi.finish();
    assert_eq!(metrics.len(), 3);
    assert_eq!(metrics[0].datatype, Some(DataType::Int32.code()));
    assert!(matches!(metrics[2].value, Some(MetricValue::BooleanValue(true))));
}

#[test]
fn metric_values_round_trip() {
    assert_eq!(i8::from_metric_value((-5i8).into_metric_value()), Some(-5i8));
    assert_eq!(i16::from_metric_value((-300i16).into_metric_value()), Some(-300i16));
    assert_eq!(i32::from_metric_value(i32::MIN.into_metric_value()), Some(i32::MIN));
    assert_eq!(i64::from_metric_value((-1i64).into_metric_value()), Some(-1i64));
    assert_eq!(u8::from_metric_value(200u8.into_metric_value()), Some(200u8));
    assert_eq!(u16::from_metric_value(MetricValue::IntValue(70000)), None);
    assert_eq!(u64::from_metric_value(u64::MAX.into_metric_value()), Some(u64::MAX));
    assert_eq!(bool::from_metric_value(true.into_metric_value()), Some(true));
    assert_eq!(String::from_metric_value("s".to_string().into_metric_value()), Some("s".to_string()));
    assert_eq!(bool::from_metric_value(MetricValue::IntValue(1)), None);
    assert!(matches!((-1i8).into_metric_value(), MetricValue::IntValue(0xffff_ffff)));
    assert_eq!(i8::default_datatype(), DataType::Int8);
    assert!(String::supports_datatype(DataType::Text));
}

#[test]
fn metrics_sort_by_timestamp_stably() {
    let ms = vec![
        value_metric(MetricId::Alias(1), 30),
        value_metric(MetricId::Alias(2), 10),
        value_metric(MetricId::Alias(3), 30),
        value_metric(MetricId::Alias(4), 20),
    ];
    let sorted = sort_by_timestamp(ms);
    let ids: Vec<u64> = sorted
        .iter()
        .map(|m| match m.metric_identifier {
            MetricId::Alias(a) => a,
            _ => 0,
        })
        .collect();
    assert_eq!(ids, vec![2, 4, 1, 3]);
}

#[test]
fn message_metrics_skip_badly_formed_metrics() {
    let mut good = Metric::new();
    good.alias = Some(3);
    good.value = Some(MetricValue::BooleanValue(true));
    let mut null = Metric::new();
    null.name = Some("n".to_string());
    null.is_null = Some(true);
    let mut bad = Metric::new();
    bad.name = Some("b".to_string());
    let p = Payload { timestamp: Some(4), metrics: vec![good, bad, null], seq: None, uuid: None, body: None };
    let mm = MessageMetrics::try_from(p).unwrap();
    assert_eq!(mm.len(), 3);
    assert!(!mm.is_empty());
    let ms = mm.into_message_metrics();
    assert_eq!(ms.len(), 2);
    assert!(matches!(ms[0].id, MetricId::Alias(3)));
    assert!(ms[1].value.is_none());
    assert!(MessageMetrics::try_from(Payload { timestamp: None, metrics: vec![], seq: None, uuid: None, body: None }).is_none());
    let mut nameless = Metric::new();
    nameless.value = Some(MetricValue::IntValue(1));
    assert!(MessageMetric::try_from(nameless).is_none());
}

#[test]
fn publish_metric_builder() {
    let m = value_metric(MetricId::Name("x".to_string()), 5).transient(true).historical(false).into_metric();
    assert_eq!(m.name.as_deref(), Some("x"));
    assert_eq!(m.timestamp, Some(5));
    assert_eq!(m.is_transient, Some(true));
    assert_eq!(m.is_historical, Some(false));
}

#[test]
fn simple_manager_births_and_routes_commands() {
    let mut mgr = SimpleMetricManager::new();
    let counter = mgr.register_metric("counter".to_string(), 0i32).unwrap();
    let switch = mgr.register_metric_with_cmd_handler("switch".to_string(), false).unwrap();
    assert!(mgr.register_metric("counter".to_string(), 1i32).is_none());
    assert!(mgr.accepts::<i32>(counter));
    assert!(!mgr.accepts::<bool>(counter));
    assert!(mgr.accepts::<bool>(switch));
    // not birthed yet: nothing to publish
    assert!(mgr.update(counter, 5i32, 1).0.is_none());
    assert!(matches!(mgr.metrics_to_publish(vec![]), Err(PublishError::UnBirthed)));
    mgr.init();
    let mut bi = BirthInitializer::new(BirthObjectType::Node);
    mgr.initialise_birth(&mut bi, 100);
    let metrics = bi.finish();
    assert_eq!(metrics.len(), 2);
    assert_eq!(metrics[0].name.as_deref(), Some("counter"));
    assert!(matches!(metrics[0].value, Some(MetricValue::IntValue(5))));
    assert_eq!(metrics[0].timestamp, Some(100));
    let switch_alias = metrics[1].alias.unwrap();
    let update = mgr.update(counter, 6i32, 200);
    let published = mgr.metrics_to_publish(vec![update]).unwrap();
    assert_eq!(published.len(), 1);
    assert_eq!(published[0].timestamp, 200);
    assert!(matches!(published[0].metric_identifier, MetricId::Alias(a) if a == metrics[0].alias.unwrap()));
    // a command for the switch reaches it, one for the counter does not
    let mut cmd_switch = Metric::new();
    cmd_switch.alias = Some(switch_alias);
    cmd_switch.value = Some(MetricValue::BooleanValue(true));
    let mut cmd_counter = Metric::new();
    cmd_counter.alias = metrics[0].alias;
    cmd_counter.value = Some(MetricValue::IntValue(1));
    let p = Payload { timestamp: Some(1), metrics: vec![cmd_counter, cmd_switch], seq: None, uuid: None, body: None };
    let targets = mgr.cmd_targets(MessageMetrics::try_from(p).unwrap());
    assert_eq!(targets.len(), 1);
    assert_eq!(targets[0].0, switch);
    assert_eq!(bool::from_metric_value(targets[0].1.value.clone().unwrap()), Some(true));
}

#[test]
fn birth_metric_builders_set_their_fields() {
    let mut bi = BirthInitializer::new(BirthObjectType::Node);
    let meta = MetaData {
        is_multi_part: None,
        content_type: Some("text/plain".to_string()),
        size: None,
        seq: None,
        file_name: None,
        file_type: None,
        md5: None,
        description: Some("a level".to_string()),
    };
    let props = PropertySet { keys: vec![], values: vec![] };
    let details = BirthMetricDetails::new_with_initial_value("level".to_string(), 7u32, 1)
        .with_timestamp(42)
        .with_metadata(meta)
        .with_properties(props);
    bi.register_metric(details).unwrap();
    let metrics = bi.finish();
    assert_eq!(metrics.len(), 1);
    assert_eq!(metrics[0].timestamp, Some(42));
    assert_eq!(metrics[0].name, Some("level".to_string()));
    let m = metrics[0].metadata.as_ref().unwrap();
    assert_eq!(m.description, Some("a level".to_string()));
    assert_eq!(m.content_type, Some("text/plain".to_string()));
    assert!(metrics[0].properties.is_some());
    assert!(matches!(metrics[0].value, Some(MetricValue::IntValue(7))));
}

#[test]
fn node_sequence_numbers_are_those_the_application_expects() {
    let mut s = online_birthed_state();
    let mut re: Resequencer<u64> = Resequencer::new();
    re.set_next_sequence(1);
    for _ in 0..600 {
        let seq = s.get_seq();
        assert_eq!(re.next_sequence() as u64, seq);
        assert!(matches!(re.process(seq as u8, seq), ProcessResult::MessageNextInSequence(v) if v == seq));
        assert!(matches!(re.drain(), DrainResult::Empty));
    }
}

#[test]
fn tokens_create_metrics_to_publish() {
    let mut bi = BirthInitializer::new(BirthObjectType::Node);
    let token = bi
        .register_metric(BirthMetricDetails::new_with_initial_value("flow".to_string(), 1u32, 1).use_alias(false))
        .unwrap();
    let m = token.create_publish_metric(Some(5u32), 10).into_metric();
    assert_eq!(m.name, Some("flow".to_string()));
    assert_eq!(m.timestamp, Some(10));
    assert!(matches!(m.value, Some(MetricValue::IntValue(5))));
    assert!(m.metadata.is_none());
    let empty = token.create_publish_metric::<u32>(None, 11).into_metric();
    assert!(empty.value.is_none());
    assert_eq!(empty.timestamp, Some(11));
}

#[test]
fn aliases_follow_the_name_hash() {
    let mut a = BirthInitializer::new(BirthObjectType::Device(9));
    let mut b = BirthInitializer::new(BirthObjectType::Device(9));
    let ta = a.register_metric(BirthMetricDetails::new_with_initial_value("temp".to_string(), 1i32, 1)).unwrap();
    b.register_metric(BirthMetricDetails::new_with_initial_value("other".to_string(), 1i32, 1)).unwrap();
    let tb = b.register_metric(BirthMetricDetails::new_with_initial_value("temp".to_string(), 2i32, 1)).unwrap();
    match (ta.id, tb.id) {
        (MetricId::Alias(x), MetricId::Alias(y)) => {
            assert_eq!(x >> 32, 9);
            // the same name gives the same alias unless that alias is taken
            if (x & 0xffff_ffff) != 0xffff_ffff {
                assert!(y == x || y == x + 1);
            }
        }
        _ => panic!("aliases expected"),
    }
}

#[test]
fn node_birth_without_manager_metrics_has_only_control_metrics() {
    let mut m = NoMetricManager::new();
    let p = generate_birth_payload(&mut m, 3, 50);
    assert_eq!(p.metrics.len(), 2);
    assert_eq!(p.metrics[0].name.as_deref(), Some("bdSeq"));
    assert_eq!(p.metrics[1].name.as_deref(), Some("Node Control/Rebirth"));
}
