//! The decisions of an application's event loop: its online state, its
//! subscriptions and last will, and the events it hands to the application.

use crate::app::config::{subscription_topics, AppSubscriptionConfig};
use crate::app::events::{
    device_event_read, device_event_refused, node_event_read, node_event_refused, supported_kind,
    AppDeviceEvent, AppNodeEvent, MessageTryFromError, PayloadErrorDetails,
};
use crate::client::{state_json, Event, LastWill, StatePayload};
use crate::strings::str_eq;
use crate::app::metrics::PublishMetric;
use crate::eon::node::rebirth_requested;
use crate::types::{
    device_topic_string, node_topic_string, state_topic_string, topic_filter_string, valid_name,
    DeviceMessageType, DeviceTopic, Metric, MetricId, MetricValue, NodeMessageType, NodeTopic,
    Payload, QoS, StateTopic, Topic, TopicFilter, NODE_CONTROL_REBIRTH,
};
use vstd::prelude::*;
use vstd::utf8::encode_utf8;

verus! {

/// An event produced by the application event loop.
#[derive(Debug)]
pub enum AppEvent {
    /// Application is online and connected to the broker
    Online,
    /// Application is offline and has disconnected from the broker
    Offline,
    Device(AppDeviceEvent),
    Node(AppNodeEvent),
    /// Application has received an invalid payload where it may wish to issue a Rebirth request
    InvalidPayload(PayloadErrorDetails),
    Cancelled,
}

/// Work the event loop leaves to its runtime.
#[derive(Debug)]
pub enum LoopAction {
    Nothing,
    /// Subscribe to `topics`, then publish `payload` on `state_topic` and
    /// record that the online state was published.
    SubscribeAndPublishOnline { topics: Vec<TopicFilter>, state_topic: StateTopic, payload: StatePayload },
    /// Hand the client a new last will.
    SetLastWill(LastWill),
    /// Publish `payload` on `topic` again.
    RepublishOnline { topic: StateTopic, payload: StatePayload },
}

/// An event for the application, if any, and the work left to the runtime.
#[derive(Debug)]
pub struct LoopStep {
    pub event: Option<AppEvent>,
    pub action: LoopAction,
}

/// The state of an application event loop.
pub struct AppEventLoopState {
    host_id: String,
    online: bool,
    published_online_state: bool,
    will_timestamp: u64,
    subscription_filters: Vec<TopicFilter>,
    all_groups: bool,
}

/// The topic filter strings of a subscription.
pub open spec fn subscription_filter_strings(c: AppSubscriptionConfig) -> Seq<Seq<char>> {
    subscription_topics(c).map_values(|t: Topic| topic_filter_string(t))
}

/// The topics an application subscribes to when it comes online: those of
/// its subscription, and its own STATE topic unless it subscribes to every
/// group, which already covers it.
pub open spec fn online_topics(c: AppSubscriptionConfig, host: Seq<char>) -> Seq<Seq<char>> {
    match c {
        AppSubscriptionConfig::AllGroups => subscription_filter_strings(c),
        _ => subscription_filter_strings(c).push(state_topic_string(host)),
    }
}

fn clone_filters(v: &Vec<TopicFilter>) -> (r: Vec<TopicFilter>)
    ensures
        r@.len() == v@.len(),
        forall|i: int| 0 <= i < r@.len() ==> (#[trigger] r@[i]).topic@ == v@[i].topic@ && r@[i].qos == v@[i].qos,
{
    let mut out: Vec<TopicFilter> = Vec::new();
    let mut i: usize = 0;
    while i < v.len()
        invariant
            i <= v@.len(),
            out@.len() == i,
            forall|j: int| 0 <= j < i ==> (#[trigger] out@[j]).topic@ == v@[j].topic@ && out@[j].qos == v@[j].qos,
        decreases v@.len() - i,
    {
        out.push(TopicFilter { topic: v[i].topic.clone(), qos: v[i].qos });
        i = i + 1;
    }
    out
}

/// The event loop's state `s` becoming `t`, with result `r`, when the
/// client reports it is online: the first report after being offline tells
/// the application it is online and asks to subscribe and to publish the
/// online STATE message.
pub open spec fn online_step(s: AppEventLoopState, t: AppEventLoopState, r: LoopStep) -> bool {
    &&& t.spec_host_id() == s.spec_host_id()
    &&& t.spec_will_timestamp() == s.spec_will_timestamp()
    &&& t.spec_online_topics() == s.spec_online_topics()
    &&& t.spec_published_online() == s.spec_published_online()
    &&& t.spec_online()
    &&& s.spec_online() ==> r.event is None && r.action is Nothing
    &&& !s.spec_online() ==> (r.event matches Some(AppEvent::Online)) && match r.action {
            LoopAction::SubscribeAndPublishOnline { topics, state_topic, payload } => {
                &&& topics@.map_values(|f: TopicFilter| f.topic@) == s.spec_online_topics()
                &&& forall|i: int| 0 <= i < topics@.len() ==> (#[trigger] topics@[i]).qos
                    == QoS::AtMostOnce
                &&& state_topic.topic@ == state_topic_string(s.spec_host_id())
                &&& payload == (StatePayload::Online { timestamp: s.spec_will_timestamp() })
            },
            _ => false,
        }
}

/// The event loop's state `s` becoming `t`, with result `r`, when the
/// client reports at `now` that it is offline: the first report after being
/// online tells the application it is offline and hands the client a new last
/// will, the offline STATE message stamped `now`.
pub open spec fn offline_step(s: AppEventLoopState, t: AppEventLoopState, now: u64, r: LoopStep) -> bool {
    &&& t.spec_host_id() == s.spec_host_id()
    &&& t.spec_online_topics() == s.spec_online_topics()
    &&& !t.spec_online()
    &&& !s.spec_online() ==> r.event is None && r.action is Nothing
            && t.spec_published_online() == s.spec_published_online()
            && t.spec_will_timestamp() == s.spec_will_timestamp()
    &&& s.spec_online() ==> (r.event matches Some(AppEvent::Offline))
            && !t.spec_published_online() && t.spec_will_timestamp() == now
            && match r.action {
            LoopAction::SetLastWill(w) => {
                &&& w.topic@ == state_topic_string(s.spec_host_id())
                &&& w.payload@ == encode_utf8(state_json(false, now))
                &&& w.retain && w.qos == QoS::AtLeastOnce
            },
            _ => false,
        }
}

impl AppEventLoopState {
    /// Every subscription is made at most once.
    #[verifier::type_invariant]
    spec fn filters_at_most_once(&self) -> bool {
        forall|i: int|
            0 <= i < self.subscription_filters@.len() ==> (#[trigger] self.subscription_filters@[i]).qos
                == QoS::AtMostOnce
    }

    /// The application's host id.
    pub closed spec fn spec_host_id(&self) -> Seq<char> {
        self.host_id@
    }

    /// The application is connected.
    pub closed spec fn spec_online(&self) -> bool {
        self.online
    }

    /// The online STATE message has been published since the application came online.
    pub closed spec fn spec_published_online(&self) -> bool {
        self.published_online_state
    }

    /// The timestamp of the current last will.
    pub closed spec fn spec_will_timestamp(&self) -> u64 {
        self.will_timestamp
    }

    /// The topics the application subscribes to when it comes online.
    pub closed spec fn spec_online_topics(&self) -> Seq<Seq<char>> {
        let base = self.subscription_filters@.map_values(|f: TopicFilter| f.topic@);
        if self.all_groups {
            base
        } else {
            base.push(state_topic_string(self.host_id@))
        }
    }

    /// An offline event loop for application `host_id`, and the last will it
    /// hands its client: the offline STATE message stamped `now`.
    pub fn new(host_id: String, subscription_config: AppSubscriptionConfig, now: u64) -> (r: (
        Self,
        LastWill,
    ))
        requires
            valid_name(host_id@),
        ensures
            r.0.spec_host_id() == host_id@,
            !r.0.spec_online(),
            !r.0.spec_published_online(),
            r.0.spec_will_timestamp() == now,
            r.0.spec_online_topics() =~= online_topics(subscription_config, host_id@),
            r.1.topic@ == state_topic_string(host_id@),
            r.1.payload@ == encode_utf8(state_json(false, now)),
            r.1.retain && r.1.qos == QoS::AtLeastOnce,
    {
        let will = LastWill::new_app(host_id.as_str(), now);
        let all_groups = match &subscription_config {
            AppSubscriptionConfig::AllGroups => true,
            _ => false,
        };
        let ghost c = subscription_config;
        let subscription_filters = subscription_config.into_topic_filters();
        let r = Self {
            host_id,
            online: false,
            published_online_state: false,
            will_timestamp: now,
            subscription_filters,
            all_groups,
        };
        assert(r.subscription_filters@.map_values(|f: TopicFilter| f.topic@) =~= subscription_filter_strings(c));
        (r, will)
    }

    /// Records that the online STATE message was published.
    pub fn set_published_online_state(&mut self)
        ensures
            final(self).spec_published_online(),
            final(self).spec_online() == old(self).spec_online(),
            final(self).spec_host_id() == old(self).spec_host_id(),
            final(self).spec_will_timestamp() == old(self).spec_will_timestamp(),
            final(self).spec_online_topics() == old(self).spec_online_topics(),
    {
        proof {
            use_type_invariant(&*self);
        }
        self.published_online_state = true;
    }

    /// The application connected: unless it already was online it goes
    /// online, subscribes and publishes its online STATE message stamped
    /// with the timestamp of its last will.
    pub fn handle_online(&mut self) -> (r: LoopStep)
        ensures
            online_step(*old(self), *final(self), r),
    {
        proof {
            use_type_invariant(&*self);
        }
        if self.online {
            return LoopStep { event: None, action: LoopAction::Nothing };
        }
        self.online = true;
        let state_topic = StateTopic::new_host(self.host_id.as_str());
        let mut topics = clone_filters(&self.subscription_filters);
        if !self.all_groups {
            topics.push(
                TopicFilter::new_with_qos(Topic::State(StateTopic::new_host(self.host_id.as_str())), QoS::AtMostOnce),
            );
        }
        assert(topics@.map_values(|f: TopicFilter| f.topic@) =~= self.spec_online_topics());
        LoopStep {
            event: Some(AppEvent::Online),
            action: LoopAction::SubscribeAndPublishOnline {
                topics,
                state_topic,
                payload: StatePayload::Online { timestamp: self.will_timestamp },
            },
        }
    }

    /// The application disconnected at `now`: unless it already was
    /// offline it goes offline and hands its client a new last will stamped `now`.
    pub fn handle_offline(&mut self, now: u64) -> (r: LoopStep)
        ensures
            offline_step(*old(self), *final(self), now, r),
    {
        proof {
            use_type_invariant(&*self);
        }
        if !self.online {
            return LoopStep { event: None, action: LoopAction::Nothing };
        }
        self.online = false;
        self.published_online_state = false;
        self.will_timestamp = now;
        let will = LastWill::new_app(self.host_id.as_str(), now);
        LoopStep { event: Some(AppEvent::Offline), action: LoopAction::SetLastWill(will) }
    }

    /// Reads an event of the client into an application event: node and
    /// device messages are read from their payloads (commands and other verbs
    /// are dropped, unreadable payloads reported); an offline STATE message
    /// for this application, once its online state was published, is
    /// answered by publishing the online state again.
    pub fn handle_event(&mut self, event: Event, now: u64) -> (r: LoopStep)
        ensures
            final(self).spec_host_id() == old(self).spec_host_id(),
            final(self).spec_online_topics() == old(self).spec_online_topics(),
            match event {
                Event::Online => true,
                Event::Offline => true,
                Event::Node(m) => final(self).spec_online() == old(self).spec_online()
                    && final(self).spec_published_online() == old(self).spec_published_online()
                    && final(self).spec_will_timestamp() == old(self).spec_will_timestamp()
                    && r.action is Nothing && match r.event {
                    Some(AppEvent::Node(ev)) => supported_kind(m.message.kind) && node_event_read(
                        m,
                        ev,
                    ),
                    Some(AppEvent::InvalidPayload(d)) => supported_kind(m.message.kind)
                        && node_event_refused(m, d),
                    None => !supported_kind(m.message.kind),
                    _ => false,
                },
                Event::Device(m) => final(self).spec_online() == old(self).spec_online()
                    && final(self).spec_published_online() == old(self).spec_published_online()
                    && final(self).spec_will_timestamp() == old(self).spec_will_timestamp()
                    && r.action is Nothing && match r.event {
                    Some(AppEvent::Device(ev)) => supported_kind(m.message.kind)
                        && device_event_read(m, ev),
                    Some(AppEvent::InvalidPayload(d)) => supported_kind(m.message.kind)
                        && device_event_refused(m, d),
                    None => !supported_kind(m.message.kind),
                    _ => false,
                },
                Event::State { host_id, payload } => {
                    &&& final(self).spec_online() == old(self).spec_online()
                    &&& final(self).spec_published_online() == old(self).spec_published_online()
                    &&& final(self).spec_will_timestamp() == old(self).spec_will_timestamp()
                    &&& r.event is None
                    &&& if old(self).spec_published_online() && host_id@ == old(self).spec_host_id()
                        && payload is Offline {
                        match r.action {
                            LoopAction::RepublishOnline { topic, payload: p } => topic.topic@
                                == state_topic_string(old(self).spec_host_id()) && p
                                == (StatePayload::Online {
                                timestamp: old(self).spec_will_timestamp(),
                            }),
                            _ => false,
                        }
                    } else {
                        r.action is Nothing
                    }
                },
                Event::InvalidPublish { .. } => final(self).spec_online() == old(self).spec_online()
                    && final(self).spec_published_online() == old(self).spec_published_online()
                    && final(self).spec_will_timestamp() == old(self).spec_will_timestamp()
                    && r.event is None && r.action is Nothing,
            },
            event is Online ==> online_step(*old(self), *final(self), r),
            event is Offline ==> offline_step(*old(self), *final(self), now, r),
    {
        match event {
            Event::Offline => self.handle_offline(now),
            Event::Online => self.handle_online(),
            Event::Node(message) => {
                let ev = match AppNodeEvent::try_from(message) {
                    Ok(v) => Some(AppEvent::Node(v)),
                    Err(MessageTryFromError::PayloadError(e)) => Some(AppEvent::InvalidPayload(e)),
                    Err(MessageTryFromError::UnsupportedVerb) => None,
                };
                LoopStep { event: ev, action: LoopAction::Nothing }
            },
            Event::Device(message) => {
                let ev = match AppDeviceEvent::try_from(message) {
                    Ok(v) => Some(AppEvent::Device(v)),
                    Err(MessageTryFromError::PayloadError(e)) => Some(AppEvent::InvalidPayload(e)),
                    Err(MessageTryFromError::UnsupportedVerb) => None,
                };
                LoopStep { event: ev, action: LoopAction::Nothing }
            },
            Event::State { host_id, payload } => {
                if self.published_online_state && str_eq(host_id.as_str(), self.host_id.as_str()) {
                    if let StatePayload::Offline { timestamp: _ } = payload {
                        let topic = StateTopic::new_host(self.host_id.as_str());
                        return LoopStep {
                            event: None,
                            action: LoopAction::RepublishOnline {
                                topic,
                                payload: StatePayload::Online { timestamp: self.will_timestamp },
                            },
                        };
                    }
                }
                LoopStep { event: None, action: LoopAction::Nothing }
            },
            _ => LoopStep { event: None, action: LoopAction::Nothing },
        }
    }
}

/// The CMD topic an application publishes metrics on.
#[derive(Debug)]
pub enum PublishTopic {
    Node(NodeTopic),
    Device(DeviceTopic),
}

impl PublishTopic {
    /// Create a new `PublishTopic` which will publish on a specified device's CMD topic
    pub fn new_device_cmd(group_id: &str, node_id: &str, device_id: &str) -> (r: Self)
        ensures
            r matches PublishTopic::Device(t) && t.topic@ == device_topic_string(
                group_id@,
                DeviceMessageType::DCmd,
                node_id@,
                device_id@,
            ) && t.message_type == DeviceMessageType::DCmd,
    {
        PublishTopic::Device(DeviceTopic::new(group_id, DeviceMessageType::DCmd, node_id, device_id))
    }

    /// Create a new `PublishTopic` which will publish on a specified node's CMD topic
    pub fn new_node_cmd(group_id: &str, node_id: &str) -> (r: Self)
        ensures
            r matches PublishTopic::Node(t) && t.topic@ == node_topic_string(
                group_id@,
                NodeMessageType::NCmd,
                node_id@,
            ) && t.message_type == NodeMessageType::NCmd,
    {
        PublishTopic::Node(NodeTopic::new(group_id, NodeMessageType::NCmd, node_id))
    }
}

/// The payload metrics carrying `metrics`, in order.
pub open spec fn command_metrics(metrics: Seq<PublishMetric>) -> Seq<Metric> {
    metrics.map_values(|m: PublishMetric| m.spec_metric())
}

/// The payload of a command carrying `metrics`, stamped `timestamp`;
/// commands carry no sequence number.
pub fn metrics_to_payload(metrics: Vec<PublishMetric>, timestamp: u64) -> (r: Payload)
    ensures
        r.timestamp == Some(timestamp),
        r.seq is None,
        r.uuid is None,
        r.body is None,
        r.metrics@ == command_metrics(metrics@),
{
    let ghost all = metrics@;
    let mut out: Vec<Metric> = Vec::new();
    for m in it: metrics.into_iter()
        invariant
            it.seq() == all,
            out@ == command_metrics(all.take(it.index() as int)),
    {
        let ghost k = it.index();
        assert(m == all[k]);
        assert(command_metrics(all.take(k + 1)) =~= command_metrics(all.take(k as int)).push(
            m.spec_metric(),
        ));
        out.push(m.into_metric());
    }
    assert(all.take(all.len() as int) =~= all);
    Payload { timestamp: Some(timestamp), metrics: out, seq: None, uuid: None, body: None }
}

/// The command asking node `node_id` of `group_id` to rebirth, stamped
/// `timestamp`: the metric "Node Control/Rebirth" set to true on the node's
/// CMD topic.
pub fn node_rebirth_request(group_id: &str, node_id: &str, timestamp: u64) -> (r: (
    PublishTopic,
    Payload,
))
    ensures
        r.0 matches PublishTopic::Node(t) && t.topic@ == node_topic_string(
            group_id@,
            NodeMessageType::NCmd,
            node_id@,
        ),
        r.1.timestamp == Some(timestamp),
        r.1.seq is None,
        r.1.metrics@.len() == 1,
        r.1.metrics@[0].name matches Some(n) && n@ == NODE_CONTROL_REBIRTH@,
        r.1.metrics@[0].alias is None,
        r.1.metrics@[0].value == Some(MetricValue::BooleanValue(true)),
{
    let topic = PublishTopic::new_node_cmd(group_id, node_id);
    let cmd = PublishMetric::new(
        MetricId::Name(String::from_str(NODE_CONTROL_REBIRTH)),
        MetricValue::BooleanValue(true),
    );
    let mut metrics: Vec<PublishMetric> = Vec::new();
    metrics.push(cmd);
    let payload = metrics_to_payload(metrics, timestamp);
    (topic, payload)
}

/// A rebirth request an application publishes is read by the node as one:
/// the command is well formed and asks for a rebirth.
pub proof fn lemma_node_reads_rebirth_request(p: Payload)
    requires
        p.timestamp is Some,
        p.metrics@.len() == 1,
        p.metrics@[0].name matches Some(n) && n@ == NODE_CONTROL_REBIRTH@,
        p.metrics@[0].alias is None,
        p.metrics@[0].value == Some(MetricValue::BooleanValue(true)),
    ensures
        rebirth_requested(p.metrics@),
{
    assert(p.metrics@.drop_last() =~= Seq::<Metric>::empty());
}

} // verus!
