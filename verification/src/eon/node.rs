//! The session state of an edge node: its birth/death and message sequence
//! numbers, whether it is online and birthed, and the messages its
//! lifecycle publishes.

use crate::eon::birth::{BirthInitializer, BirthMetricDetails, BirthObjectType};
use crate::eon::manager::MetricManager;
use crate::eon::metric::{MessageMetrics, PublishError, PublishMetric};
use crate::strings::str_eq;
use crate::app::events::nbirth_error;
use crate::app::resequencer::{spec_process, ProcessResult, ResequencerView};
use crate::app::metrics::{birth_metrics_valid, metric_name, spec_birth_details, spec_bdseq, spec_metric_details};
use crate::types::{
    lemma_datatype_code_round_trip, name_error, valid_name, validate_name, DataType, DeviceMessageType, DeviceTopic, Metric, MetricValue,
    NodeMessageType, NodeTopic, Payload, QoS, StateTopic, Topic, TopicFilter, BDSEQ,
    NODE_CONTROL_REBIRTH, node_topic_string, device_topic_string, state_topic_string,
};
use vstd::prelude::*;

verus! {

/// `m` is a control metric of a node birth: named `name`, without an alias,
/// of `datatype`, carrying `value`, stamped `timestamp`, and nothing else.
pub open spec fn is_control_metric(
    m: Metric,
    name: Seq<char>,
    datatype: DataType,
    value: MetricValue,
    timestamp: u64,
) -> bool {
    &&& m.name matches Some(n) && n@ == name
    &&& m.alias is None
    &&& m.timestamp == Some(timestamp)
    &&& m.datatype == Some(datatype.spec_code())
    &&& m.is_historical is None
    &&& m.is_transient is None
    &&& m.is_null is None
    &&& m.metadata is None
    &&& m.properties is None
    &&& m.value == Some(value)
}

/// `p` is a birth payload of a node with birth/death sequence number
/// `bdseq`, stamped `timestamp`: sequence number 0, the bdSeq metric, the
/// rebirth control metric set to false, then the node's own metrics.
pub open spec fn is_node_birth_payload(p: Payload, bdseq: u8, timestamp: u64) -> bool {
    &&& p.seq == Some(0u64)
    &&& p.timestamp == Some(timestamp)
    &&& p.uuid is None
    &&& p.body is None
    &&& p.metrics@.len() >= 2
    &&& is_control_metric(
        p.metrics@[0],
        BDSEQ@,
        DataType::Int64,
        MetricValue::LongValue(bdseq as u64),
        timestamp,
    )
    &&& is_control_metric(
        p.metrics@[1],
        NODE_CONTROL_REBIRTH@,
        DataType::Boolean,
        MetricValue::BooleanValue(false),
        timestamp,
    )
}

/// `p` is the death certificate of a node with birth/death sequence number
/// `bdseq`: a single bdSeq metric, and no sequence number or timestamp.
pub open spec fn is_node_death_payload(p: Payload, bdseq: u8) -> bool {
    &&& p.seq is None
    &&& p.timestamp is None
    &&& p.uuid is None
    &&& p.body is None
    &&& p.metrics@.len() == 1
    &&& p.metrics@[0] == (Metric {
        value: Some(MetricValue::LongValue(bdseq as u64)),
        ..p.metrics@[0]
    })
    &&& p.metrics@[0].name matches Some(n) && n@ == BDSEQ@
    &&& p.metrics@[0].alias is None
    &&& p.metrics@[0].timestamp is None
    &&& p.metrics@[0].datatype is None
    &&& p.metrics@[0].is_historical is None
    &&& p.metrics@[0].is_transient is None
    &&& p.metrics@[0].is_null is None
    &&& p.metrics@[0].metadata is None
    &&& p.metrics@[0].properties is None
}

/// The session state of an edge node, shared by the node and its devices.
pub struct EoNState {
    bdseq: u8,
    seq: u8,
    online: bool,
    birthed: bool,
    group_id: String,
    edge_node_id: String,
}

impl EoNState {
    pub closed spec fn spec_bdseq(&self) -> u8 {
        self.bdseq
    }

    pub closed spec fn spec_seq(&self) -> u8 {
        self.seq
    }

    pub closed spec fn spec_online(&self) -> bool {
        self.online
    }

    pub closed spec fn spec_birthed(&self) -> bool {
        self.birthed
    }

    pub closed spec fn spec_group_id(&self) -> Seq<char> {
        self.group_id@
    }

    pub closed spec fn spec_node_id(&self) -> Seq<char> {
        self.edge_node_id@
    }

    /// Both ids are valid names.
    pub open spec fn wf(&self) -> bool {
        &&& valid_name(self.spec_group_id())
        &&& valid_name(self.spec_node_id())
    }

    /// The state of node `node_id` of group `group_id`, before it has ever
    /// been online. Both ids must be provided and be valid names.
    pub fn new(group_id: Option<String>, node_id: Option<String>) -> (r: Result<Self, String>)
        ensures
            r is Ok <==> (group_id is Some && node_id is Some && valid_name(group_id->0@)
                && valid_name(node_id->0@)),
            group_id is None ==> (r matches Err(e) && e@ == "group id must be provided"@),
            group_id is Some && node_id is None ==> (r matches Err(e) && e@
                == "node id must be provided"@),
            group_id is Some && node_id is Some && !valid_name(group_id->0@) ==> (r matches Err(e)
                && e@ == name_error(group_id->0@)),
            group_id is Some && node_id is Some && valid_name(group_id->0@) && !valid_name(
                node_id->0@,
            ) ==> (r matches Err(e) && e@ == name_error(node_id->0@)),
            r matches Ok(s) ==> {
                &&& s.wf()
                &&& s.spec_group_id() == group_id->0@
                &&& s.spec_node_id() == node_id->0@
                &&& s.spec_bdseq() == 0
                &&& s.spec_seq() == 0
                &&& !s.spec_online()
                &&& !s.spec_birthed()
            },
    {
        let group_id = match group_id {
            Some(g) => g,
            None => return Err(String::from_str("group id must be provided")),
        };
        let node_id = match node_id {
            Some(n) => n,
            None => return Err(String::from_str("node id must be provided")),
        };
        validate_name(group_id.as_str())?;
        validate_name(node_id.as_str())?;
        Ok(EoNState {
            bdseq: 0,
            seq: 0,
            online: false,
            birthed: false,
            group_id,
            edge_node_id: node_id,
        })
    }

    /// The group the node belongs to.
    pub fn group_id(&self) -> (r: &str)
        ensures
            r@ == self.spec_group_id(),
    {
        self.group_id.as_str()
    }

    /// The node's id within its group.
    pub fn edge_node_id(&self) -> (r: &str)
        ensures
            r@ == self.spec_node_id(),
    {
        self.edge_node_id.as_str()
    }

    /// Hands out the next message sequence number; they run from 0 to 255
    /// and then start again at 0.
    pub fn get_seq(&mut self) -> (r: u64)
        ensures
            r == old(self).spec_seq(),
            final(self).spec_seq() == (old(self).spec_seq() + 1) % 256,
            final(self).spec_bdseq() == old(self).spec_bdseq(),
            final(self).spec_online() == old(self).spec_online(),
            final(self).spec_birthed() == old(self).spec_birthed(),
            final(self).spec_group_id() == old(self).spec_group_id(),
            final(self).spec_node_id() == old(self).spec_node_id(),
    {
        let r = self.seq;
        self.seq = if self.seq == 255 { 0 } else { self.seq + 1 };
        r as u64
    }

    /// Whether the node is connected.
    pub fn is_online(&self) -> (r: bool)
        ensures
            r == self.spec_online(),
    {
        self.online
    }

    /// Whether the node's birth has been published in the current session.
    pub fn birthed(&self) -> (r: bool)
        ensures
            r == self.spec_birthed(),
    {
        self.birthed
    }

    /// The node's birth topic.
    pub fn birth_topic(&self) -> (r: NodeTopic)
        ensures
            r.topic@ == node_topic_string(
                self.spec_group_id(),
                NodeMessageType::NBirth,
                self.spec_node_id(),
            ),
            r.message_type == NodeMessageType::NBirth,
    {
        NodeTopic::new(self.group_id.as_str(), NodeMessageType::NBirth, self.edge_node_id.as_str())
    }

    /// The node's death topic.
    pub fn death_topic(&self) -> (r: NodeTopic)
        ensures
            r.topic@ == node_topic_string(
                self.spec_group_id(),
                NodeMessageType::NDeath,
                self.spec_node_id(),
            ),
            r.message_type == NodeMessageType::NDeath,
    {
        NodeTopic::new(self.group_id.as_str(), NodeMessageType::NDeath, self.edge_node_id.as_str())
    }

    /// The node's data topic.
    pub fn ndata_topic(&self) -> (r: NodeTopic)
        ensures
            r.topic@ == node_topic_string(
                self.spec_group_id(),
                NodeMessageType::NData,
                self.spec_node_id(),
            ),
            r.message_type == NodeMessageType::NData,
    {
        NodeTopic::new(self.group_id.as_str(), NodeMessageType::NData, self.edge_node_id.as_str())
    }

    /// The node's death certificate, carrying its current birth/death
    /// sequence number.
    pub fn generate_death_payload(&self) -> (r: Payload)
        ensures
            is_node_death_payload(r, self.spec_bdseq()),
    {
        let mut metric = Metric::new();
        metric.name = Some(String::from_str(BDSEQ));
        metric.value = Some(MetricValue::LongValue(self.bdseq as u64));
        let mut metrics: Vec<Metric> = Vec::new();
        metrics.push(metric);
        Payload { seq: None, metrics, uuid: None, timestamp: None, body: None }
    }

    /// The topics a node subscribes to: its own commands, the commands of
    /// all its devices, and the STATE of every application, all at QoS 1.
    pub fn sub_topics(&self) -> (r: Vec<TopicFilter>)
        ensures
            r@.len() == 3,
            r@[0].topic@ == node_topic_string(
                self.spec_group_id(),
                NodeMessageType::NCmd,
                self.spec_node_id(),
            ),
            r@[1].topic@ == device_topic_string(
                self.spec_group_id(),
                DeviceMessageType::DCmd,
                self.spec_node_id(),
                seq!['+'],
            ),
            r@[2].topic@ == state_topic_string(seq!['+']),
            forall|i: int| 0 <= i < 3 ==> (#[trigger] r@[i]).qos == QoS::AtLeastOnce,
    {
        proof {
            reveal_strlit("+");
        }
        let mut r: Vec<TopicFilter> = Vec::new();
        r.push(
            TopicFilter::new_with_qos(
                Topic::NodeTopic(
                    NodeTopic::new(
                        self.group_id.as_str(),
                        NodeMessageType::NCmd,
                        self.edge_node_id.as_str(),
                    ),
                ),
                QoS::AtLeastOnce,
            ),
        );
        r.push(
            TopicFilter::new_with_qos(
                Topic::DeviceTopic(
                    DeviceTopic::new(
                        self.group_id.as_str(),
                        DeviceMessageType::DCmd,
                        self.edge_node_id.as_str(),
                        "+",
                    ),
                ),
                QoS::AtLeastOnce,
            ),
        );
        r.push(TopicFilter::new_with_qos(Topic::State(StateTopic::new()), QoS::AtLeastOnce));
        r
    }
}

/// Whether a command's metrics ask the node to rebirth: the last metric
/// named "Node Control/Rebirth" that carries no alias decides, and asks for
/// a rebirth only if its value is the boolean true.
pub open spec fn rebirth_requested(ms: Seq<Metric>) -> bool
    decreases ms.len(),
{
    if ms.len() == 0 {
        false
    } else if ms.last().alias is None && (ms.last().name matches Some(n) && n@
        == NODE_CONTROL_REBIRTH@) {
        ms.last().value matches Some(MetricValue::BooleanValue(b)) && b
    } else {
        rebirth_requested(ms.drop_last())
    }
}

/// The payload metrics carrying `metrics`, in order.
pub open spec fn publish_metrics(metrics: Seq<PublishMetric>) -> Seq<Metric> {
    metrics.map_values(|m: PublishMetric| m.spec_metric())
}

/// Converts metrics to publish into payload metrics, keeping their order.
pub fn into_payload_metrics(metrics: Vec<PublishMetric>) -> (r: Vec<Metric>)
    ensures
        r@ == publish_metrics(metrics@),
{
    let ghost all = metrics@;
    let mut rest = metrics;
    let mut out: Vec<Metric> = Vec::new();
    while rest.len() > 0
        invariant
            out@.len() + rest@.len() == all.len(),
            forall|i: int| 0 <= i < out@.len() ==> out@[i] == (#[trigger] all[i]).spec_metric(),
            rest@ == all.subrange(out@.len() as int, all.len() as int),
        decreases rest@.len(),
    {
        let m = rest.remove(0);
        out.push(m.into_metric());
    }
    assert(out@ =~= publish_metrics(all));
    out
}

impl EoNState {
    /// Marks the node connected; answers whether it was offline before, that
    /// is whether a new session starts.
    pub fn set_online(&mut self) -> (r: bool)
        ensures
            r == !old(self).spec_online(),
            final(self).spec_online(),
            final(self).spec_bdseq() == old(self).spec_bdseq(),
            final(self).spec_seq() == old(self).spec_seq(),
            final(self).spec_birthed() == old(self).spec_birthed(),
            final(self).spec_group_id() == old(self).spec_group_id(),
            final(self).spec_node_id() == old(self).spec_node_id(),
    {
        let was_online = self.online;
        self.online = true;
        !was_online
    }

    /// Ends the node's session: it is no longer birthed, and its next
    /// session uses the next birth/death sequence number (after 255 comes 0).
    pub fn death(&mut self)
        ensures
            !final(self).spec_birthed(),
            final(self).spec_bdseq() == (old(self).spec_bdseq() + 1) % 256,
            final(self).spec_seq() == old(self).spec_seq(),
            final(self).spec_online() == old(self).spec_online(),
            final(self).spec_group_id() == old(self).spec_group_id(),
            final(self).spec_node_id() == old(self).spec_node_id(),
    {
        self.birthed = false;
        self.bdseq = if self.bdseq == 255 { 0 } else { self.bdseq + 1 };
    }

    /// Marks the node disconnected. If it was online its session ends, and
    /// the death certificate of the next session, to be registered as the
    /// connection's last will, is handed back.
    pub fn set_offline(&mut self) -> (r: Option<Payload>)
        ensures
            !final(self).spec_online(),
            final(self).spec_seq() == old(self).spec_seq(),
            final(self).spec_group_id() == old(self).spec_group_id(),
            final(self).spec_node_id() == old(self).spec_node_id(),
            !old(self).spec_online() ==> r is None && final(self).spec_bdseq() == old(
                self,
            ).spec_bdseq() && final(self).spec_birthed() == old(self).spec_birthed(),
            old(self).spec_online() ==> {
                &&& !final(self).spec_birthed()
                &&& final(self).spec_bdseq() == (old(self).spec_bdseq() + 1) % 256
                &&& r matches Some(p) && is_node_death_payload(p, final(self).spec_bdseq())
            },
    {
        if !self.online {
            return None;
        }
        self.online = false;
        self.death();
        Some(self.generate_death_payload())
    }

    /// Starts a birth or rebirth of the node with `manager`'s metrics,
    /// stamped `timestamp`: the node counts as unbirthed until the birth is
    /// published, the birth carries sequence number 0 and the next message
    /// gets 1.
    pub fn node_birth<M: MetricManager>(&mut self, manager: &mut M, timestamp: u64) -> (r: (
        NodeTopic,
        Payload,
    ))
        ensures
            !final(self).spec_birthed(),
            final(self).spec_seq() == 1,
            final(self).spec_bdseq() == old(self).spec_bdseq(),
            final(self).spec_online() == old(self).spec_online(),
            final(self).spec_group_id() == old(self).spec_group_id(),
            final(self).spec_node_id() == old(self).spec_node_id(),
            r.0.topic@ == node_topic_string(
                old(self).spec_group_id(),
                NodeMessageType::NBirth,
                old(self).spec_node_id(),
            ),
            r.0.message_type == NodeMessageType::NBirth,
            is_node_birth_payload(r.1, old(self).spec_bdseq(), timestamp),
            old(manager).spec_births(r.1.metrics@.take(2), r.1.metrics@),
    {
        self.birthed = false;
        self.seq = 0;
        let payload = generate_birth_payload(manager, self.bdseq, timestamp);
        self.seq = 1;
        (self.birth_topic(), payload)
    }

    /// The birth has been published: the node is birthed.
    pub fn birth_published(&mut self)
        ensures
            final(self).spec_birthed(),
            final(self).spec_online() == old(self).spec_online(),
            final(self).spec_bdseq() == old(self).spec_bdseq(),
            final(self).spec_seq() == old(self).spec_seq(),
            final(self).spec_group_id() == old(self).spec_group_id(),
            final(self).spec_node_id() == old(self).spec_node_id(),
    {
        self.birthed = true;
    }

    /// Whether the node may publish data: it must be online and birthed.
    pub fn check_publish_state(&self) -> (r: Result<(), PublishError>)
        ensures
            !self.spec_online() ==> r == Err::<(), PublishError>(PublishError::Offline),
            self.spec_online() && !self.spec_birthed() ==> r == Err::<(), PublishError>(
                PublishError::UnBirthed,
            ),
            self.spec_online() && self.spec_birthed() ==> r is Ok,
    {
        if !self.online {
            return Err(PublishError::Offline);
        }
        if !self.birthed {
            return Err(PublishError::UnBirthed);
        }
        Ok(())
    }

    /// A data payload carrying `metrics`, stamped `timestamp`, with the next
    /// sequence number.
    pub fn publish_metrics_to_payload(&mut self, metrics: Vec<PublishMetric>, timestamp: u64) -> (r:
        Payload)
        ensures
            r.seq == Some(old(self).spec_seq() as u64),
            r.timestamp == Some(timestamp),
            r.metrics@ == publish_metrics(metrics@),
            r.uuid is None,
            r.body is None,
            final(self).spec_seq() == (old(self).spec_seq() + 1) % 256,
            final(self).spec_bdseq() == old(self).spec_bdseq(),
            final(self).spec_online() == old(self).spec_online(),
            final(self).spec_birthed() == old(self).spec_birthed(),
            final(self).spec_group_id() == old(self).spec_group_id(),
            final(self).spec_node_id() == old(self).spec_node_id(),
    {
        let payload_metrics = into_payload_metrics(metrics);
        let seq = self.get_seq();
        Payload {
            timestamp: Some(timestamp),
            metrics: payload_metrics,
            seq: Some(seq),
            uuid: None,
            body: None,
        }
    }

    /// The node data payload for publishing `metrics` at `timestamp`: there
    /// must be metrics, and the node must be online and birthed. Only a
    /// payload that is handed back uses up a sequence number.
    pub fn prepare_node_data(&mut self, metrics: Vec<PublishMetric>, timestamp: u64) -> (r: Result<
        Payload,
        PublishError,
    >)
        ensures
            metrics@.len() == 0 ==> r == Err::<Payload, PublishError>(PublishError::NoMetrics),
            metrics@.len() > 0 && !old(self).spec_online() ==> r == Err::<Payload, PublishError>(
                PublishError::Offline,
            ),
            metrics@.len() > 0 && old(self).spec_online() && !old(self).spec_birthed() ==> r
                == Err::<Payload, PublishError>(PublishError::UnBirthed),
            r is Err ==> *final(self) == *old(self),
            r matches Ok(p) ==> {
                &&& metrics@.len() > 0 && old(self).spec_online() && old(self).spec_birthed()
                &&& p.seq == Some(old(self).spec_seq() as u64)
                &&& p.timestamp == Some(timestamp)
                &&& p.metrics@ == publish_metrics(metrics@)
                &&& final(self).spec_seq() == (old(self).spec_seq() + 1) % 256
                &&& final(self).spec_bdseq() == old(self).spec_bdseq()
                &&& final(self).spec_online() == old(self).spec_online()
                &&& final(self).spec_birthed() == old(self).spec_birthed()
                &&& final(self).spec_group_id() == old(self).spec_group_id()
                &&& final(self).spec_node_id() == old(self).spec_node_id()
            },
    {
        if metrics.len() == 0 {
            return Err(PublishError::NoMetrics);
        }
        self.check_publish_state()?;
        Ok(self.publish_metrics_to_payload(metrics, timestamp))
    }
}

/// The birth payload of a node with birth/death sequence number `bdseq`,
/// stamped `timestamp`, holding the bdSeq and rebirth control metrics and
/// then `manager`'s metrics.
pub fn generate_birth_payload<M: MetricManager>(manager: &mut M, bdseq: u8, timestamp: u64) -> (r:
    Payload)
    ensures
        is_node_birth_payload(r, bdseq, timestamp),
        old(manager).spec_births(r.metrics@.take(2), r.metrics@),
{
    proof {
        reveal_strlit("bdSeq");
        reveal_strlit("Node Control/Rebirth");
    }
    let mut birth_initializer = BirthInitializer::new(BirthObjectType::Node);
    let bdseq_details = BirthMetricDetails::new_with_initial_value(
        String::from_str(BDSEQ),
        bdseq as i64,
        timestamp,
    ).use_alias(false);
    let first = birth_initializer.register_metric(bdseq_details);
    assert(first is Ok);
    let rebirth_details = BirthMetricDetails::new_with_initial_value(
        String::from_str(NODE_CONTROL_REBIRTH),
        false,
        timestamp,
    ).use_alias(false);
    assert(birth_initializer.spec_names() == seq![BDSEQ@]);
    assert(rebirth_details.spec_name() == NODE_CONTROL_REBIRTH@);
    assert(NODE_CONTROL_REBIRTH@.len() == 20);
    assert(!birth_initializer.spec_names().contains(rebirth_details.spec_name()));
    let second = birth_initializer.register_metric(rebirth_details);
    assert(second is Ok);
    let ghost before = birth_initializer.spec_metrics();
    manager.initialise_birth(&mut birth_initializer, timestamp);
    assert(birth_initializer.spec_metrics()[0] == before[0]);
    assert(birth_initializer.spec_metrics()[1] == before[1]);
    assert(birth_initializer.spec_metrics().take(2) =~= before);
    let metrics = birth_initializer.finish();
    Payload { seq: Some(0), timestamp: Some(timestamp), metrics, uuid: None, body: None }
}

/// Reads whether a command's metrics ask the node to rebirth.
pub fn ncmd_rebirth_requested(metrics: &Vec<Metric>) -> (r: bool)
    ensures
        r == rebirth_requested(metrics@),
{
    proof {
        reveal_strlit("Node Control/Rebirth");
    }
    let mut rebirth = false;
    let mut i: usize = 0;
    while i < metrics.len()
        invariant
            i <= metrics@.len(),
            rebirth == rebirth_requested(metrics@.take(i as int)),
        decreases metrics@.len() - i,
    {
        let x = &metrics[i];
        assert(metrics@.take(i + 1).drop_last() =~= metrics@.take(i as int));
        assert(metrics@.take(i + 1).last() == x);
        if x.alias.is_none() {
            match &x.name {
                Some(name) => {
                    if str_eq(name.as_str(), NODE_CONTROL_REBIRTH) {
                        rebirth = match &x.value {
                            Some(MetricValue::BooleanValue(val)) => *val,
                            _ => false,
                        };
                    }
                },
                None => {},
            }
        }
        i = i + 1;
    }
    assert(metrics@.take(metrics@.len() as int) =~= metrics@);
    rebirth
}

/// A command for the node, read from an NCMD payload.
pub struct NodeCommand {
    /// The command's metrics, for the node's metric manager.
    pub metrics: MessageMetrics,
    /// Whether the node is to rebirth.
    pub rebirth: bool,
}

/// Reads the node's commands, and spaces the rebirths they ask for by a
/// cooldown (in milliseconds).
pub struct NodeCommandHandler {
    node_rebirth_request_cooldown: u64,
    last_node_rebirth_request: u64,
}

impl NodeCommandHandler {
    pub closed spec fn spec_cooldown(&self) -> u64 {
        self.node_rebirth_request_cooldown
    }

    pub closed spec fn spec_last_rebirth_request(&self) -> u64 {
        self.last_node_rebirth_request
    }

    /// A handler whose rebirths are at least `cooldown` milliseconds apart;
    /// no rebirth has been granted yet (the last one counts as at time 0).
    pub fn new(cooldown: u64) -> (r: Self)
        ensures
            r.spec_cooldown() == cooldown,
            r.spec_last_rebirth_request() == 0,
    {
        Self { node_rebirth_request_cooldown: cooldown, last_node_rebirth_request: 0 }
    }

    /// Reads an NCMD `payload` received at time `now` (milliseconds). A
    /// payload without a timestamp is ignored. A rebirth that it asks for is
    /// granted when at least the cooldown has passed since the last granted
    /// one, which is then `now`. The time must not run backwards past the
    /// last granted rebirth when a rebirth is asked for.
    pub fn on_ncmd(&mut self, payload: Payload, now: u64) -> (r: Option<NodeCommand>)
        requires
            payload.timestamp is Some && rebirth_requested(payload.metrics@) ==> old(
                self,
            ).spec_last_rebirth_request() <= now,
        ensures
            final(self).spec_cooldown() == old(self).spec_cooldown(),
            r is Some <==> payload.timestamp is Some,
            r matches Some(c) ==> {
                &&& c.metrics.spec_timestamp() == payload.timestamp->0
                &&& c.metrics.spec_metrics() == payload.metrics@
                &&& c.rebirth == (rebirth_requested(payload.metrics@) && now - old(
                    self,
                ).spec_last_rebirth_request() >= old(self).spec_cooldown())
            },
            r matches Some(c) && c.rebirth ==> final(self).spec_last_rebirth_request() == now,
            !(r matches Some(c) && c.rebirth) ==> final(self).spec_last_rebirth_request() == old(
                self,
            ).spec_last_rebirth_request(),
    {
        let requested = ncmd_rebirth_requested(&payload.metrics);
        let metrics = match MessageMetrics::try_from(payload) {
            Some(m) => m,
            None => return None,
        };
        let mut rebirth = false;
        if requested {
            let time_since_last = now - self.last_node_rebirth_request;
            if time_since_last >= self.node_rebirth_request_cooldown {
                rebirth = true;
                self.last_node_rebirth_request = now;
            }
        }
        Some(NodeCommand { metrics, rebirth })
    }
}

/// The bdSeq an application reads from a node's birth is the node's
/// birth/death sequence number.
pub proof fn lemma_birth_carries_bdseq(p: Payload, bdseq: u8, timestamp: u64)
    requires
        is_node_birth_payload(p, bdseq, timestamp),
    ensures
        spec_bdseq(p.metrics@) == Some(bdseq),
{
}

/// The bdSeq an application reads from a node's death certificate is the
/// node's birth/death sequence number.
pub proof fn lemma_death_carries_bdseq(p: Payload, bdseq: u8)
    requires
        is_node_death_payload(p, bdseq),
    ensures
        spec_bdseq(p.metrics@) == Some(bdseq),
{
}

/// The death certificate a node registers as its last will when it goes
/// offline announces the same bdSeq as the birth that opens its next
/// session: going online and publishing data leave the birth/death sequence
/// number alone, so a will and a birth made from states with the same number
/// carry the same bdSeq.
pub proof fn lemma_will_matches_next_birth(
    offline: EoNState,
    will: Payload,
    birthing: EoNState,
    birth: Payload,
    timestamp: u64,
)
    requires
        is_node_death_payload(will, offline.spec_bdseq()),
        birthing.spec_bdseq() == offline.spec_bdseq(),
        is_node_birth_payload(birth, birthing.spec_bdseq(), timestamp),
    ensures
        spec_bdseq(will.metrics@) == spec_bdseq(birth.metrics@),
        spec_bdseq(will.metrics@) == Some(offline.spec_bdseq()),
{
    lemma_birth_carries_bdseq(birth, birthing.spec_bdseq(), timestamp);
    lemma_death_carries_bdseq(will, offline.spec_bdseq());
}

/// What a node births, an application reads: a node birth payload whose own
/// metrics (those after the two control metrics) are well formed birth
/// metrics, named otherwise than the control metrics, is accepted as a
/// birth, with the node's bdSeq and the payload's timestamp.
pub proof fn lemma_application_reads_node_birth(p: Payload, bdseq: u8, timestamp: u64)
    requires
        is_node_birth_payload(p, bdseq, timestamp),
        birth_metrics_valid(p.metrics@.skip(2)),
        forall|i: int|
            2 <= i < p.metrics@.len() ==> metric_name(#[trigger] p.metrics@[i]) != BDSEQ@
                && metric_name(p.metrics@[i]) != NODE_CONTROL_REBIRTH@,
    ensures
        nbirth_error(p) is None,
        spec_bdseq(p.metrics@) == Some(bdseq),
        p.timestamp == Some(timestamp),
{
    lemma_datatype_code_round_trip(DataType::Int64, DataType::Int64);
    lemma_datatype_code_round_trip(DataType::Boolean, DataType::Boolean);
    lemma_birth_carries_bdseq(p, bdseq, timestamp);
    let ms = p.metrics@;
    assert forall|i: int| 0 <= i < ms.len() implies #[trigger] spec_birth_details(ms[i]) is Some
        && spec_metric_details(ms[i]) is Some by {
        if i >= 2 {
            assert(ms.skip(2)[i - 2] == ms[i]);
        }
    }
    reveal_strlit("bdSeq");
    reveal_strlit("Node Control/Rebirth");
    assert(BDSEQ@ != NODE_CONTROL_REBIRTH@) by {
        assert(BDSEQ@.len() != NODE_CONTROL_REBIRTH@.len());
    }
    assert forall|i: int, j: int|
        0 <= i < j < ms.len() implies metric_name(#[trigger] ms[i]) != metric_name(#[trigger] ms[j])
        && (ms[i].alias is Some ==> ms[i].alias != ms[j].alias) by {
        if i >= 2 {
            assert(ms.skip(2)[i - 2] == ms[i]);
            assert(ms.skip(2)[j - 2] == ms[j]);
        }
    }
}

/// A node numbers its messages the way an application expects them: a
/// message that carries the node's current sequence number, reaching an
/// application that expects that number and holds nothing back, is handed
/// on at once, and afterwards the application expects the number the node
/// gives its next message, wrapping after 255.
pub proof fn lemma_node_sequence_in_step<T>(node: EoNState, r: ResequencerView<T>, m: T)
    requires
        r.wf(),
        r.offset is None,
        r.next_seq == node.spec_seq(),
    ensures
        spec_process(r, node.spec_seq(), m).1 == ProcessResult::MessageNextInSequence(m),
        spec_process(r, node.spec_seq(), m).0.wf(),
        spec_process(r, node.spec_seq(), m).0.offset is None,
        spec_process(r, node.spec_seq(), m).0.next_seq == (node.spec_seq() + 1) % 256,
{
}

} // verus!
