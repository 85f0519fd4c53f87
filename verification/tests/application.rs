use srad::app::application::{Application, ApplicationStep, NodeCreated, Notice};
use srad::app::config::AppSubscriptionConfig;
use srad::app::eventloop::{AppEvent, AppEventLoopState, LoopAction};
use srad::app::events::{
    DBirth, AppDeviceEvent, AppNodeEvent, DData, DeviceEvent, NBirth, NData, NDeath, NodeEvent,
    NodeIdentifier, PayloadError, PayloadErrorDetails,
};
use srad::app::generic_app::{
    Device, DeviceCreated, MetricStore, Node, RebirthConfig, RebirthReason, RebirthReasonDetails,
    ResequenceableEvent, StateUpdateError,
};
use srad::app::metrics::{MetricBirthDetails, MetricDetails};
use srad::client::{Event, StatePayload};
use srad::types::MetricId;

struct NoStore;

impl MetricStore for NoStore {
    fn set_stale(&mut self) {}
    fn update_from_birth(
        &mut self,
        _details: Vec<(MetricBirthDetails, MetricDetails)>,
    ) -> Result<(), StateUpdateError> {
        Ok(())
    }
    fn update_from_data(&mut self, _details: Vec<(MetricId, MetricDetails)>) -> Result<(), StateUpdateError> {
        Ok(())
    }
}

struct RefusingStore;

impl MetricStore for RefusingStore {
    fn set_stale(&mut self) {}
    fn update_from_birth(
        &mut self,
        _details: Vec<(MetricBirthDetails, MetricDetails)>,
    ) -> Result<(), StateUpdateError> {
        Err(StateUpdateError::InvalidValue)
    }
    fn update_from_data(&mut self, _details: Vec<(MetricId, MetricDetails)>) -> Result<(), StateUpdateError> {
        Err(StateUpdateError::UnknownMetric)
    }
}

struct NoDeviceCb;

impl<S: MetricStore> DeviceCreated<S> for NoDeviceCb {
    fn on_device_created(&self, _device: &mut Device<S>) {}
}

struct NoNodeCb;

impl<S: MetricStore> NodeCreated<S, NoDeviceCb> for NoNodeCb {
    fn on_node_created(&self, _node: &mut Node<S, NoDeviceCb>) {}
}

fn id(group: &str, node: &str) -> NodeIdentifier {
    NodeIdentifier { group: group.to_string(), node: node.to_string() }
}

fn birth(bdseq: u8, timestamp: u64) -> NBirth {
    NBirth { bdseq, timestamp, metrics_details: vec![] }
}

fn ndata(seq: u8, timestamp: u64) -> NData {
    NData { seq, timestamp, metrics_details: vec![] }
}

fn config_without_cooldown() -> RebirthConfig {
    let mut c = RebirthConfig::default();
    c.rebirth_cooldown = 0;
    c
}

fn node_event(app: &mut Application<NoStore, NoDeviceCb, NoNodeCb>, group: &str, node: &str, event: NodeEvent, now: u64) -> ApplicationStep {
    app.handle_event(AppEvent::Node(AppNodeEvent { id: id(group, node), event }), now)
}

#[test]
fn rebirth_config_defaults() {
    let c = RebirthConfig::default();
    assert!(!c.invalid_payload);
    assert!(c.unknown_node && c.unknown_device && c.unknown_metric);
    assert_eq!(c.reorder_timeout, Some(3000));
    assert_eq!(c.rebirth_cooldown, 5000);
    assert!(c.evaluate_rebirth_reason(&RebirthReason::ReorderTimeout));
    assert!(!c.evaluate_rebirth_reason(&RebirthReason::InvalidPayload));
}

#[test]
fn rebirth_reason_details() {
    let d = RebirthReasonDetails::new(id("g", "n"), RebirthReason::UnknownDevice).with_device("d".to_string());
    assert_eq!(d.node_id.node, "n");
    assert_eq!(d.device, Some("d".to_string()));
    assert_eq!(d.reason, RebirthReason::UnknownDevice);
}

#[test]
fn node_birth_then_data_in_order() {
    let mut node: Node<NoStore, NoDeviceCb> = Node::new(id("g", "n"), RebirthConfig::default());
    let acts = node.handle_birth(birth(0, 100), 1000);
    assert!(acts.rebirth.is_none());
    for seq in 1u8..=3 {
        let acts = node.handle_resequenceable_message(
            seq,
            100 + seq as u64,
            srad::app::generic_app::ResequenceableEvent::NData(ndata(seq, 100 + seq as u64)),
            1000,
        );
        assert!(acts.rebirth.is_none());
        assert!(acts.start_reorder_timeout.is_none());
    }
}

#[test]
fn out_of_order_data_starts_the_reorder_timer() {
    let mut node: Node<NoStore, NoDeviceCb> = Node::new(id("g", "n"), RebirthConfig::default());
    node.handle_birth(birth(0, 100), 1000);
    let acts = node.handle_resequenceable_message(
        2,
        102,
        srad::app::generic_app::ResequenceableEvent::NData(ndata(2, 102)),
        1000,
    );
    assert_eq!(acts.start_reorder_timeout, Some(3000));
    let acts = node.handle_resequenceable_message(
        1,
        101,
        srad::app::generic_app::ResequenceableEvent::NData(ndata(1, 101)),
        1000,
    );
    assert!(acts.cancel_reorder_timeout);
    assert!(acts.rebirth.is_none());
}

#[test]
fn data_on_a_stale_node_asks_for_a_rebirth() {
    let mut node: Node<NoStore, NoDeviceCb> = Node::new(id("g", "n"), RebirthConfig::default());
    let acts = node.handle_resequenceable_message(
        1,
        101,
        srad::app::generic_app::ResequenceableEvent::NData(ndata(1, 101)),
        10_000,
    );
    assert_eq!(acts.rebirth, Some(RebirthReason::RecordedStateStale));
    // within the cooldown no second request is made
    let acts = node.handle_resequenceable_message(
        2,
        102,
        srad::app::generic_app::ResequenceableEvent::NData(ndata(2, 102)),
        10_001,
    );
    assert!(acts.rebirth.is_none());
}

#[test]
fn death_with_other_bdseq_is_out_of_sync() {
    let mut node: Node<NoStore, NoDeviceCb> = Node::new(id("g", "n"), RebirthConfig::default());
    node.handle_birth(birth(4, 100), 10_000);
    let acts = node.handle_death(5, 200, 10_000);
    assert_eq!(acts.rebirth, Some(RebirthReason::OutOfSyncBdSeq));
    let mut node2: Node<NoStore, NoDeviceCb> = Node::new(id("g", "n"), RebirthConfig::default());
    node2.handle_birth(birth(4, 100), 10_000);
    let acts = node2.handle_death(4, 200, 10_000);
    assert!(acts.rebirth.is_none());
}

#[test]
fn refused_birth_asks_for_a_rebirth() {
    let mut node: Node<RefusingStore, NoDeviceCb> = Node::new(id("g", "n"), config_without_cooldown());
    node.register_metric_store(RefusingStore);
    let mut c = config_without_cooldown();
    c.invalid_payload = true;
    let mut node2: Node<RefusingStore, NoDeviceCb> = Node::new(id("g", "n"), c);
    node2.register_metric_store(RefusingStore);
    let acts = node2.handle_birth(birth(0, 100), 10);
    assert_eq!(acts.rebirth, Some(RebirthReason::InvalidPayload));
    let acts = node.handle_birth(birth(0, 100), 10);
    assert!(acts.rebirth.is_none());
}

#[test]
fn unknown_device_data_asks_for_a_rebirth() {
    let mut node: Node<NoStore, NoDeviceCb> = Node::new(id("g", "n"), config_without_cooldown());
    node.handle_birth(birth(0, 100), 10);
    let acts = node.handle_resequenceable_message(
        1,
        101,
        srad::app::generic_app::ResequenceableEvent::DData(
            "dev".to_string(),
            DData { seq: 1, timestamp: 101, metrics_details: vec![] },
        ),
        10,
    );
    assert_eq!(acts.rebirth, Some(RebirthReason::UnknownDevice));
}

#[test]
fn application_learns_of_nodes_from_births() {
    let mut app: Application<NoStore, NoDeviceCb, NoNodeCb> = Application::new();
    let step = node_event(&mut app, "g", "n", NodeEvent::Birth(birth(0, 100)), 1);
    assert!(step.running);
    assert_eq!(step.node_actions.len(), 1);
    assert_eq!(step.node_actions[0].0, 0);
    assert_eq!(app.node_count(), 1);
    assert_eq!(app.node(0).id().node, "n");
    // a second birth goes to the same node
    node_event(&mut app, "g", "n", NodeEvent::Birth(birth(1, 200)), 2);
    assert_eq!(app.node_count(), 1);
    assert_eq!(app.find_node(&id("g", "n")), Some(0));
    assert_eq!(app.find_node(&id("g", "x")), None);
}

#[test]
fn data_from_an_unknown_node_asks_for_a_rebirth() {
    let mut app: Application<NoStore, NoDeviceCb, NoNodeCb> = Application::new();
    let step = node_event(&mut app, "g", "n", NodeEvent::Data(ndata(1, 5)), 10_000);
    assert_eq!(app.node_count(), 1);
    assert_eq!(step.node_actions[0].1.rebirth, Some(RebirthReason::UnknownNode));
}

#[test]
fn death_of_an_unknown_node_is_dropped() {
    let mut app: Application<NoStore, NoDeviceCb, NoNodeCb> = Application::new();
    let step = node_event(&mut app, "g", "n", NodeEvent::Death(NDeath { bdseq: 0 }), 1);
    assert_eq!(app.node_count(), 0);
    assert!(step.node_actions.is_empty());
}

#[test]
fn device_message_from_unknown_node_asks_for_a_rebirth() {
    let mut app: Application<NoStore, NoDeviceCb, NoNodeCb> = Application::new();
    let step = app.handle_event(
        AppEvent::Device(AppDeviceEvent {
            id: id("g", "n"),
            name: "d".to_string(),
            event: DeviceEvent::Data(DData { seq: 1, timestamp: 1, metrics_details: vec![] }),
        }),
        10_000,
    );
    assert_eq!(step.node_actions[0].1.rebirth, Some(RebirthReason::UnknownNode));
}

#[test]
fn invalid_payloads_follow_the_configuration() {
    let mut app: Application<NoStore, NoDeviceCb, NoNodeCb> = Application::new();
    let details = PayloadErrorDetails { node_id: id("g", "n"), device: None, error: PayloadError::MissingSeq };
    let step = app.handle_event(AppEvent::InvalidPayload(details), 10_000);
    assert!(step.node_actions.is_empty());
    let mut c = RebirthConfig::default();
    c.invalid_payload = true;
    app.with_rebirth_config(c);
    let details = PayloadErrorDetails { node_id: id("g", "n"), device: None, error: PayloadError::MissingSeq };
    let step = app.handle_event(AppEvent::InvalidPayload(details), 10_000);
    assert_eq!(step.node_actions[0].1.rebirth, Some(RebirthReason::InvalidPayload));
}

#[test]
fn application_online_offline_and_cancel() {
    let mut app: Application<NoStore, NoDeviceCb, NoNodeCb> = Application::new();
    node_event(&mut app, "g", "a", NodeEvent::Birth(birth(0, 100)), 1);
    node_event(&mut app, "g", "b", NodeEvent::Birth(birth(0, 100)), 1);
    let step = app.handle_event(AppEvent::Online, 2);
    assert_eq!(step.notice, Some(Notice::Online));
    let step = app.handle_event(AppEvent::Offline, 3);
    assert_eq!(step.notice, Some(Notice::Offline));
    assert_eq!(step.node_actions.len(), 2);
    let step = app.handle_event(AppEvent::Cancelled, 4);
    assert!(!step.running);
}

#[test]
fn reorder_timeout_asks_for_a_rebirth() {
    let mut app: Application<NoStore, NoDeviceCb, NoNodeCb> = Application::new();
    node_event(&mut app, "g", "a", NodeEvent::Birth(birth(0, 100)), 1);
    let acts = app.reorder_timeout_expired(0, 10_000);
    assert_eq!(acts.rebirth, Some(RebirthReason::ReorderTimeout));
}

#[test]
fn event_loop_online_offline_and_state() {
    let (mut el, will) = AppEventLoopState::new("app".to_string(), AppSubscriptionConfig::SingleGroup { group_id: "g".to_string() }, 5);
    assert_eq!(will.topic, "spBv1.0/STATE/app");
    let step = el.handle_event(Event::Online, 6);
    assert!(matches!(step.event, Some(AppEvent::Online)));
    match step.action {
        LoopAction::SubscribeAndPublishOnline { topics, state_topic, payload } => {
            let names: Vec<String> = topics.into_iter().map(|t| t.topic).collect();
            assert_eq!(names, vec!["spBv1.0/g/#".to_string(), "spBv1.0/STATE/app".to_string()]);
            assert_eq!(state_topic.topic, "spBv1.0/STATE/app");
            assert!(matches!(payload, StatePayload::Online { timestamp: 5 }));
        }
        _ => panic!("expected subscriptions"),
    }
    // a second online is ignored
    assert!(el.handle_event(Event::Online, 7).event.is_none());
    el.set_published_online_state();
    let step = el.handle_event(
        Event::State { host_id: "app".to_string(), payload: StatePayload::Offline { timestamp: 1 } },
        8,
    );
    assert!(matches!(step.action, LoopAction::RepublishOnline { payload: StatePayload::Online { timestamp: 5 }, .. }));
    let step = el.handle_event(Event::Offline, 9);
    assert!(matches!(step.event, Some(AppEvent::Offline)));
    match step.action {
        LoopAction::SetLastWill(w) => {
            assert_eq!(String::from_utf8(w.payload).unwrap(), "{\"online\" : false, \"timestamp\" : 9}")
        }
        _ => panic!("expected a new will"),
    }
}

#[test]
fn event_loop_all_groups_needs_no_state_subscription() {
    let (mut el, _) = AppEventLoopState::new("app".to_string(), AppSubscriptionConfig::AllGroups, 5);
    match el.handle_online().action {
        LoopAction::SubscribeAndPublishOnline { topics, .. } => {
            assert_eq!(topics.len(), 1);
            assert_eq!(topics[0].topic, "spBv1.0/#");
        }
        _ => panic!("expected subscriptions"),
    }
}

#[test]
fn held_back_message_refused_when_handed_on_asks_for_a_rebirth() {
    let mut node: Node<NoStore, NoDeviceCb> = Node::new(id("g", "n"), config_without_cooldown());
    node.handle_birth(birth(0, 100), 1000);
    let acts = node.handle_resequenceable_message(
        2,
        102,
        ResequenceableEvent::DData("pump".to_string(), DData { seq: 2, timestamp: 102, metrics_details: vec![] }),
        1000,
    );
    assert_eq!(acts.start_reorder_timeout, Some(3000));
    assert!(acts.rebirth.is_none());
    let acts = node.handle_resequenceable_message(1, 101, ResequenceableEvent::NData(ndata(1, 101)), 1000);
    assert_eq!(acts.rebirth, Some(RebirthReason::UnknownDevice));
    assert!(acts.cancel_reorder_timeout);
}

struct RefusingDeviceStores;

impl DeviceCreated<RefusingStore> for RefusingDeviceStores {
    fn on_device_created(&self, device: &mut Device<RefusingStore>) {
        device.register_metric_store(RefusingStore);
    }
}

struct RefusingNodeStores;

impl NodeCreated<RefusingStore, NoDeviceCb> for RefusingNodeStores {
    fn on_node_created(&self, node: &mut Node<RefusingStore, NoDeviceCb>) {
        node.register_metric_store(RefusingStore);
    }
}

fn dbirth(seq: u8, timestamp: u64) -> DBirth {
    DBirth { seq, timestamp, metrics_details: vec![] }
}

#[test]
fn device_birth_without_a_store_is_applied() {
    let mut node: Node<RefusingStore, NoDeviceCb> = Node::new(id("g", "n"), config_without_cooldown());
    node.handle_birth(birth(0, 100), 10);
    let acts = node.handle_resequenceable_message(
        1,
        101,
        ResequenceableEvent::DBirth("pump".to_string(), dbirth(1, 101)),
        10,
    );
    assert!(acts.rebirth.is_none());
}

#[test]
fn device_callback_runs_for_a_new_device() {
    let mut c = config_without_cooldown();
    c.invalid_payload = true;
    let mut node: Node<RefusingStore, RefusingDeviceStores> = Node::new(id("g", "n"), c);
    node.on_device_created(RefusingDeviceStores);
    node.handle_birth(birth(0, 100), 10);
    // the callback gives the new device a store, which refuses its birth
    let acts = node.handle_resequenceable_message(
        1,
        101,
        ResequenceableEvent::DBirth("pump".to_string(), dbirth(1, 101)),
        10,
    );
    assert_eq!(acts.rebirth, Some(RebirthReason::InvalidPayload));
}

#[test]
fn node_callback_runs_for_a_new_node() {
    let mut c = config_without_cooldown();
    c.invalid_payload = true;
    let mut app: Application<RefusingStore, NoDeviceCb, RefusingNodeStores> = Application::new();
    app.with_rebirth_config(c);
    app.on_node_created(RefusingNodeStores);
    let step = app.handle_event(AppEvent::Node(AppNodeEvent { id: id("g", "n"), event: NodeEvent::Birth(birth(0, 100)) }), 1);
    // the callback gave the node a store, which refuses the birth
    assert_eq!(step.node_actions[0].1.rebirth, Some(RebirthReason::InvalidPayload));
}

#[test]
fn marking_a_node_stale_twice_changes_nothing_more() {
    let mut node: Node<NoStore, NoDeviceCb> = Node::new(id("g", "n"), RebirthConfig::default());
    node.handle_birth(birth(0, 100), 10);
    node.handle_resequenceable_message(3, 103, ResequenceableEvent::NData(ndata(3, 103)), 10);
    let first = node.handle_offline(200);
    assert!(first.cancel_reorder_timeout);
    let second = node.handle_offline(200);
    assert!(!second.cancel_reorder_timeout);
    assert!(second.rebirth.is_none() && second.start_reorder_timeout.is_none());
}

#[test]
fn online_subscriptions_are_at_most_once() {
    let (mut el, _) = AppEventLoopState::new("foo".to_string(), AppSubscriptionConfig::SingleGroup { group_id: "test".to_string() }, 5);
    match el.handle_online().action {
        LoopAction::SubscribeAndPublishOnline { topics, .. } => {
            assert_eq!(topics.len(), 2);
            for t in topics {
                assert_eq!(t.qos, srad::types::QoS::AtMostOnce);
            }
        }
        _ => panic!("expected subscriptions"),
    }
}

#[derive(Default)]
struct Calls {
    births: std::cell::Cell<u32>,
    data: std::cell::Cell<u32>,
    stale: std::cell::Cell<u32>,
}

struct CountingStore {
    calls: std::rc::Rc<Calls>,
    refuse_data: bool,
}

impl MetricStore for CountingStore {
    fn set_stale(&mut self) {
        self.calls.stale.set(self.calls.stale.get() + 1);
    }
    fn update_from_birth(
        &mut self,
        _details: Vec<(MetricBirthDetails, MetricDetails)>,
    ) -> Result<(), StateUpdateError> {
        self.calls.births.set(self.calls.births.get() + 1);
        Ok(())
    }
    fn update_from_data(&mut self, _details: Vec<(MetricId, MetricDetails)>) -> Result<(), StateUpdateError> {
        self.calls.data.set(self.calls.data.get() + 1);
        if self.refuse_data {
            Err(StateUpdateError::InvalidValue)
        } else {
            Ok(())
        }
    }
}

struct CountingDeviceStores {
    calls: std::rc::Rc<Calls>,
}

impl DeviceCreated<CountingStore> for CountingDeviceStores {
    fn on_device_created(&self, device: &mut Device<CountingStore>) {
        device.set_metric_store(CountingStore { calls: self.calls.clone(), refuse_data: false });
    }
}

fn counting_node(refuse_data: bool, c: RebirthConfig) -> (Node<CountingStore, CountingDeviceStores>, std::rc::Rc<Calls>, std::rc::Rc<Calls>) {
    let node_calls = std::rc::Rc::new(Calls::default());
    let device_calls = std::rc::Rc::new(Calls::default());
    let mut node: Node<CountingStore, CountingDeviceStores> = Node::new(id("g", "n"), c);
    node.set_metric_store(CountingStore { calls: node_calls.clone(), refuse_data });
    node.on_device_created(CountingDeviceStores { calls: device_calls.clone() });
    (node, node_calls, device_calls)
}

#[test]
fn node_data_is_handed_to_the_node_store() {
    let (mut node, node_calls, _) = counting_node(false, config_without_cooldown());
    node.handle_birth(birth(0, 100), 10);
    assert_eq!(node_calls.births.get(), 1);
    let acts = node.handle_resequenceable_message(1, 101, ResequenceableEvent::NData(ndata(1, 101)), 10);
    assert!(acts.rebirth.is_none());
    assert_eq!(node_calls.data.get(), 1);
}

#[test]
fn node_data_refused_by_the_store_is_an_invalid_payload() {
    let mut c = config_without_cooldown();
    c.invalid_payload = true;
    let (mut node, node_calls, _) = counting_node(true, c);
    node.handle_birth(birth(0, 100), 10);
    let acts = node.handle_resequenceable_message(1, 101, ResequenceableEvent::NData(ndata(1, 101)), 10);
    assert_eq!(node_calls.data.get(), 1);
    assert_eq!(acts.rebirth, Some(RebirthReason::InvalidPayload));
}

#[test]
fn device_data_and_birth_are_handed_to_the_device_store() {
    let (mut node, _, device_calls) = counting_node(false, config_without_cooldown());
    node.handle_birth(birth(0, 100), 10);
    node.handle_resequenceable_message(1, 101, ResequenceableEvent::DBirth("pump".to_string(), dbirth(1, 101)), 10);
    assert_eq!(device_calls.births.get(), 1);
    let acts = node.handle_resequenceable_message(
        2,
        102,
        ResequenceableEvent::DData("pump".to_string(), DData { seq: 2, timestamp: 102, metrics_details: vec![] }),
        10,
    );
    assert!(acts.rebirth.is_none());
    assert_eq!(device_calls.data.get(), 1);
}

#[test]
fn going_offline_marks_every_store_stale_once() {
    let (mut node, node_calls, device_calls) = counting_node(false, config_without_cooldown());
    node.handle_birth(birth(0, 100), 10);
    node.handle_resequenceable_message(1, 101, ResequenceableEvent::DBirth("pump".to_string(), dbirth(1, 101)), 10);
    node.handle_offline(200);
    assert_eq!(node_calls.stale.get(), 1);
    assert_eq!(device_calls.stale.get(), 1);
    // the node is stale already: nothing more is told to the stores
    node.handle_offline(300);
    assert_eq!(node_calls.stale.get(), 1);
    assert_eq!(device_calls.stale.get(), 1);
}

#[test]
fn device_death_marks_its_store_stale() {
    let (mut node, _, device_calls) = counting_node(false, config_without_cooldown());
    node.handle_birth(birth(0, 100), 10);
    node.handle_resequenceable_message(1, 101, ResequenceableEvent::DBirth("pump".to_string(), dbirth(1, 101)), 10);
    node.handle_resequenceable_message(2, 102, ResequenceableEvent::DDeath("pump".to_string()), 10);
    assert_eq!(device_calls.stale.get(), 1);
}
