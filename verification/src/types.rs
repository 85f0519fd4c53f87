//! The Sparkplug B data model the library works on: payloads, metrics,
//! metric values, data types and topics, held as plain values.

use vstd::prelude::*;
use vstd::string::*;
use crate::strings::str_eq;

verus! {

/// Name of the birth/death sequence metric.
pub const BDSEQ: &'static str = "bdSeq";

/// Name of the node rebirth request metric.
pub const NODE_CONTROL_REBIRTH: &'static str = "Node Control/Rebirth";

/// The group name that marks an application STATE topic.
pub const STATE: &'static str = "STATE";

/// The Sparkplug B topic namespace.
pub const SPARKPLUG_NAMESPACE: &'static str = "spBv1.0";

/// MQTT quality of service levels used by Sparkplug.
#[derive(PartialEq, Eq, Structural, Clone, Copy, Debug)]
pub enum QoS {
    AtMostOnce,
    AtLeastOnce,
}

/// Identifies a metric either by its name or by its alias.
#[derive(Clone, Debug)]
pub enum MetricId {
    Name(String),
    Alias(u64),
}

/// Two identifiers are the same: the same name or the same alias.
pub open spec fn same_id(a: MetricId, b: MetricId) -> bool {
    match (a, b) {
        (MetricId::Name(x), MetricId::Name(y)) => x@ == y@,
        (MetricId::Alias(x), MetricId::Alias(y)) => x == y,
        _ => false,
    }
}

impl MetricId {
    /// A copy of the identifier.
    pub fn copied(&self) -> (r: MetricId)
        ensures
            r == *self,
    {
        match self {
            MetricId::Name(n) => MetricId::Name(n.clone()),
            MetricId::Alias(a) => MetricId::Alias(*a),
        }
    }

    /// Whether two identifiers are the same: the same name or the same alias.
    pub fn same_as(&self, other: &MetricId) -> (r: bool)
        ensures
            r == same_id(*self, *other),
    {
        match (self, other) {
            (MetricId::Name(a), MetricId::Name(b)) => str_eq(a.as_str(), b.as_str()),
            (MetricId::Alias(a), MetricId::Alias(b)) => *a == *b,
            _ => false,
        }
    }
}

/// The value carried by a payload metric or property. Floating point values
/// are held by their IEEE 754 bit patterns; data sets, templates,
/// extensions and the property sets a property can hold by their encoded
/// bytes.
#[derive(Clone, Debug)]
pub enum MetricValue {
    IntValue(u32),
    LongValue(u64),
    FloatBits(u32),
    DoubleBits(u64),
    BooleanValue(bool),
    StringValue(String),
    BytesValue(Vec<u8>),
    DatasetValue(Vec<u8>),
    TemplateValue(Vec<u8>),
    ExtensionValue(Vec<u8>),
    PropertySetValue(Vec<u8>),
    PropertySetListValue(Vec<u8>),
}

/// Two metric values are the same: the same variant with the same contents.
pub open spec fn same_value(a: MetricValue, b: MetricValue) -> bool {
    match (a, b) {
        (MetricValue::IntValue(x), MetricValue::IntValue(y)) => x == y,
        (MetricValue::LongValue(x), MetricValue::LongValue(y)) => x == y,
        (MetricValue::FloatBits(x), MetricValue::FloatBits(y)) => x == y,
        (MetricValue::DoubleBits(x), MetricValue::DoubleBits(y)) => x == y,
        (MetricValue::BooleanValue(x), MetricValue::BooleanValue(y)) => x == y,
        (MetricValue::StringValue(x), MetricValue::StringValue(y)) => x@ == y@,
        (MetricValue::BytesValue(x), MetricValue::BytesValue(y)) => x@ == y@,
        (MetricValue::DatasetValue(x), MetricValue::DatasetValue(y)) => x@ == y@,
        (MetricValue::TemplateValue(x), MetricValue::TemplateValue(y)) => x@ == y@,
        (MetricValue::ExtensionValue(x), MetricValue::ExtensionValue(y)) => x@ == y@,
        (MetricValue::PropertySetValue(x), MetricValue::PropertySetValue(y)) => x@ == y@,
        (MetricValue::PropertySetListValue(x), MetricValue::PropertySetListValue(y)) => x@ == y@,
        _ => false,
    }
}

fn copy_bytes(v: &Vec<u8>) -> (r: Vec<u8>)
    ensures
        r@ == v@,
{
    let r = v.clone();
    assert(r@ =~= v@);
    r
}

impl MetricValue {
    /// A copy of the value.
    pub fn copied(&self) -> (r: MetricValue)
        ensures
            same_value(r, *self),
    {
        match self {
            MetricValue::IntValue(x) => MetricValue::IntValue(*x),
            MetricValue::LongValue(x) => MetricValue::LongValue(*x),
            MetricValue::FloatBits(x) => MetricValue::FloatBits(*x),
            MetricValue::DoubleBits(x) => MetricValue::DoubleBits(*x),
            MetricValue::BooleanValue(x) => MetricValue::BooleanValue(*x),
            MetricValue::StringValue(x) => MetricValue::StringValue(x.clone()),
            MetricValue::BytesValue(x) => MetricValue::BytesValue(copy_bytes(x)),
            MetricValue::DatasetValue(x) => MetricValue::DatasetValue(copy_bytes(x)),
            MetricValue::TemplateValue(x) => MetricValue::TemplateValue(copy_bytes(x)),
            MetricValue::ExtensionValue(x) => MetricValue::ExtensionValue(copy_bytes(x)),
            MetricValue::PropertySetValue(x) => MetricValue::PropertySetValue(copy_bytes(x)),
            MetricValue::PropertySetListValue(x) => MetricValue::PropertySetListValue(copy_bytes(x)),
        }
    }
}

/// The Sparkplug B metric data types, in the order of their codes.
#[derive(PartialEq, Eq, Structural, Clone, Copy, Debug)]
pub enum DataType {
    Unknown,
    Int8,
    Int16,
    Int32,
    Int64,
    UInt8,
    UInt16,
    UInt32,
    UInt64,
    Float,
    Double,
    Boolean,
    String,
    DateTime,
    Text,
    Uuid,
    DataSet,
    Bytes,
    File,
    Template,
    PropertySet,
    PropertySetList,
    Int8Array,
    Int16Array,
    Int32Array,
    Int64Array,
    UInt8Array,
    UInt16Array,
    UInt32Array,
    UInt64Array,
    FloatArray,
    DoubleArray,
    BooleanArray,
    StringArray,
    DateTimeArray,
}

/// The number of Sparkplug B data type codes.
pub const DATATYPE_CODES: u32 = 35;

impl DataType {
    /// The wire code of a data type.
    pub open spec fn spec_code(self) -> u32 {
        match self {
            DataType::Unknown => 0,
            DataType::Int8 => 1,
            DataType::Int16 => 2,
            DataType::Int32 => 3,
            DataType::Int64 => 4,
            DataType::UInt8 => 5,
            DataType::UInt16 => 6,
            DataType::UInt32 => 7,
            DataType::UInt64 => 8,
            DataType::Float => 9,
            DataType::Double => 10,
            DataType::Boolean => 11,
            DataType::String => 12,
            DataType::DateTime => 13,
            DataType::Text => 14,
            DataType::Uuid => 15,
            DataType::DataSet => 16,
            DataType::Bytes => 17,
            DataType::File => 18,
            DataType::Template => 19,
            DataType::PropertySet => 20,
            DataType::PropertySetList => 21,
            DataType::Int8Array => 22,
            DataType::Int16Array => 23,
            DataType::Int32Array => 24,
            DataType::Int64Array => 25,
            DataType::UInt8Array => 26,
            DataType::UInt16Array => 27,
            DataType::UInt32Array => 28,
            DataType::UInt64Array => 29,
            DataType::FloatArray => 30,
            DataType::DoubleArray => 31,
            DataType::BooleanArray => 32,
            DataType::StringArray => 33,
            DataType::DateTimeArray => 34,
        }
    }

    /// The wire code of the data type.
    pub fn code(&self) -> (r: u32)
        ensures
            r == self.spec_code(),
            r < DATATYPE_CODES,
    {
        match self {
            DataType::Unknown => 0,
            DataType::Int8 => 1,
            DataType::Int16 => 2,
            DataType::Int32 => 3,
            DataType::Int64 => 4,
            DataType::UInt8 => 5,
            DataType::UInt16 => 6,
            DataType::UInt32 => 7,
            DataType::UInt64 => 8,
            DataType::Float => 9,
            DataType::Double => 10,
            DataType::Boolean => 11,
            DataType::String => 12,
            DataType::DateTime => 13,
            DataType::Text => 14,
            DataType::Uuid => 15,
            DataType::DataSet => 16,
            DataType::Bytes => 17,
            DataType::File => 18,
            DataType::Template => 19,
            DataType::PropertySet => 20,
            DataType::PropertySetList => 21,
            DataType::Int8Array => 22,
            DataType::Int16Array => 23,
            DataType::Int32Array => 24,
            DataType::Int64Array => 25,
            DataType::UInt8Array => 26,
            DataType::UInt16Array => 27,
            DataType::UInt32Array => 28,
            DataType::UInt64Array => 29,
            DataType::FloatArray => 30,
            DataType::DoubleArray => 31,
            DataType::BooleanArray => 32,
            DataType::StringArray => 33,
            DataType::DateTimeArray => 34,
        }
    }

    /// The data type with wire code `code`, if there is one.
    pub fn from_code(code: u32) -> (r: Option<DataType>)
        ensures
            r is None <==> code >= DATATYPE_CODES,
            r matches Some(d) ==> d.spec_code() == code,
    {
        match code {
            0 => Some(DataType::Unknown),
            1 => Some(DataType::Int8),
            2 => Some(DataType::Int16),
            3 => Some(DataType::Int32),
            4 => Some(DataType::Int64),
            5 => Some(DataType::UInt8),
            6 => Some(DataType::UInt16),
            7 => Some(DataType::UInt32),
            8 => Some(DataType::UInt64),
            9 => Some(DataType::Float),
            10 => Some(DataType::Double),
            11 => Some(DataType::Boolean),
            12 => Some(DataType::String),
            13 => Some(DataType::DateTime),
            14 => Some(DataType::Text),
            15 => Some(DataType::Uuid),
            16 => Some(DataType::DataSet),
            17 => Some(DataType::Bytes),
            18 => Some(DataType::File),
            19 => Some(DataType::Template),
            20 => Some(DataType::PropertySet),
            21 => Some(DataType::PropertySetList),
            22 => Some(DataType::Int8Array),
            23 => Some(DataType::Int16Array),
            24 => Some(DataType::Int32Array),
            25 => Some(DataType::Int64Array),
            26 => Some(DataType::UInt8Array),
            27 => Some(DataType::UInt16Array),
            28 => Some(DataType::UInt32Array),
            29 => Some(DataType::UInt64Array),
            30 => Some(DataType::FloatArray),
            31 => Some(DataType::DoubleArray),
            32 => Some(DataType::BooleanArray),
            33 => Some(DataType::StringArray),
            34 => Some(DataType::DateTimeArray),
            _ => None,
        }
    }
}

/// Law: each data type has its Sparkplug B wire code: Unknown 0, Int8 1,
/// Int16 2, Int32 3, Int64 4, UInt8 5, UInt16 6, UInt32 7, UInt64 8, Float 9,
/// Double 10, Boolean 11, String 12, DateTime 13, Text 14, UUID 15,
/// DataSet 16, Bytes 17, File 18, Template 19, PropertySet 20,
/// PropertySetList 21, then the arrays Int8Array 22 to DateTimeArray 34.
pub proof fn lemma_datatype_wire_codes()
    ensures
        DataType::Unknown.spec_code() == 0,
        DataType::Int8.spec_code() == 1,
        DataType::Int16.spec_code() == 2,
        DataType::Int32.spec_code() == 3,
        DataType::Int64.spec_code() == 4,
        DataType::UInt8.spec_code() == 5,
        DataType::UInt16.spec_code() == 6,
        DataType::UInt32.spec_code() == 7,
        DataType::UInt64.spec_code() == 8,
        DataType::Float.spec_code() == 9,
        DataType::Double.spec_code() == 10,
        DataType::Boolean.spec_code() == 11,
        DataType::String.spec_code() == 12,
        DataType::DateTime.spec_code() == 13,
        DataType::Text.spec_code() == 14,
        DataType::Uuid.spec_code() == 15,
        DataType::DataSet.spec_code() == 16,
        DataType::Bytes.spec_code() == 17,
        DataType::File.spec_code() == 18,
        DataType::Template.spec_code() == 19,
        DataType::PropertySet.spec_code() == 20,
        DataType::PropertySetList.spec_code() == 21,
        DataType::Int8Array.spec_code() == 22,
        DataType::Int16Array.spec_code() == 23,
        DataType::Int32Array.spec_code() == 24,
        DataType::Int64Array.spec_code() == 25,
        DataType::UInt8Array.spec_code() == 26,
        DataType::UInt16Array.spec_code() == 27,
        DataType::UInt32Array.spec_code() == 28,
        DataType::UInt64Array.spec_code() == 29,
        DataType::FloatArray.spec_code() == 30,
        DataType::DoubleArray.spec_code() == 31,
        DataType::BooleanArray.spec_code() == 32,
        DataType::StringArray.spec_code() == 33,
        DataType::DateTimeArray.spec_code() == 34,
{
}

/// Law: every code below [DATATYPE_CODES] is the wire code of a data type.
pub proof fn lemma_datatype_code_exists(code: u32)
    requires
        code < DATATYPE_CODES,
    ensures
        exists|d: DataType| d.spec_code() == code,
{
    let d = match code {
        0 => DataType::Unknown,
        1 => DataType::Int8,
        2 => DataType::Int16,
        3 => DataType::Int32,
        4 => DataType::Int64,
        5 => DataType::UInt8,
        6 => DataType::UInt16,
        7 => DataType::UInt32,
        8 => DataType::UInt64,
        9 => DataType::Float,
        10 => DataType::Double,
        11 => DataType::Boolean,
        12 => DataType::String,
        13 => DataType::DateTime,
        14 => DataType::Text,
        15 => DataType::Uuid,
        16 => DataType::DataSet,
        17 => DataType::Bytes,
        18 => DataType::File,
        19 => DataType::Template,
        20 => DataType::PropertySet,
        21 => DataType::PropertySetList,
        22 => DataType::Int8Array,
        23 => DataType::Int16Array,
        24 => DataType::Int32Array,
        25 => DataType::Int64Array,
        26 => DataType::UInt8Array,
        27 => DataType::UInt16Array,
        28 => DataType::UInt32Array,
        29 => DataType::UInt64Array,
        30 => DataType::FloatArray,
        31 => DataType::DoubleArray,
        32 => DataType::BooleanArray,
        33 => DataType::StringArray,
        _ => DataType::DateTimeArray,
    };
    assert(d.spec_code() == code);
}

/// Law: a data type is recovered from its wire code.
pub proof fn lemma_datatype_code_round_trip(d: DataType, e: DataType)
    ensures
        d.spec_code() == e.spec_code() ==> d == e,
        d.spec_code() < DATATYPE_CODES,
{
}

/// Metric metadata, as carried in a payload.
#[derive(Clone, Debug)]
pub struct MetaData {
    pub is_multi_part: Option<bool>,
    pub content_type: Option<String>,
    pub size: Option<u64>,
    pub seq: Option<u64>,
    pub file_name: Option<String>,
    pub file_type: Option<String>,
    pub md5: Option<String>,
    pub description: Option<String>,
}

/// A property value, as carried in a payload.
#[derive(Clone, Debug)]
pub struct PropertyValue {
    pub datatype: Option<u32>,
    pub is_null: Option<bool>,
    pub value: Option<MetricValue>,
}

/// A property set, as carried in a payload: keys and values side by side.
#[derive(Clone, Debug)]
pub struct PropertySet {
    pub keys: Vec<String>,
    pub values: Vec<PropertyValue>,
}

/// A metric, as carried in a payload.
#[derive(Clone, Debug)]
pub struct Metric {
    pub name: Option<String>,
    pub alias: Option<u64>,
    pub timestamp: Option<u64>,
    pub datatype: Option<u32>,
    pub is_historical: Option<bool>,
    pub is_transient: Option<bool>,
    pub is_null: Option<bool>,
    pub metadata: Option<MetaData>,
    pub properties: Option<PropertySet>,
    pub value: Option<MetricValue>,
}

impl Metric {
    /// A metric with every field absent.
    pub open spec fn spec_empty() -> Metric {
        Metric {
            name: None,
            alias: None,
            timestamp: None,
            datatype: None,
            is_historical: None,
            is_transient: None,
            is_null: None,
            metadata: None,
            properties: None,
            value: None,
        }
    }

    /// Creates a metric with every field absent.
    pub fn new() -> (r: Metric)
        ensures
            r == Metric::spec_empty(),
    {
        Metric {
            name: None,
            alias: None,
            timestamp: None,
            datatype: None,
            is_historical: None,
            is_transient: None,
            is_null: None,
            metadata: None,
            properties: None,
            value: None,
        }
    }
}

/// A Sparkplug B payload.
#[derive(Clone, Debug)]
pub struct Payload {
    pub timestamp: Option<u64>,
    pub metrics: Vec<Metric>,
    pub seq: Option<u64>,
    pub uuid: Option<String>,
    pub body: Option<Vec<u8>>,
}

} // verus!

verus! {

/// The kinds of message a node publishes or receives.
#[derive(PartialEq, Eq, Structural, Clone, Copy, Debug)]
pub enum NodeMessageType {
    NBirth,
    NDeath,
    NData,
    NCmd,
}

/// The kinds of message a device publishes or receives.
#[derive(PartialEq, Eq, Structural, Clone, Copy, Debug)]
pub enum DeviceMessageType {
    DBirth,
    DDeath,
    DData,
    DCmd,
}

/// The topic verb of a node message type.
pub open spec fn node_verb(t: NodeMessageType) -> Seq<char> {
    match t {
        NodeMessageType::NBirth => seq!['N', 'B', 'I', 'R', 'T', 'H'],
        NodeMessageType::NDeath => seq!['N', 'D', 'E', 'A', 'T', 'H'],
        NodeMessageType::NData => seq!['N', 'D', 'A', 'T', 'A'],
        NodeMessageType::NCmd => seq!['N', 'C', 'M', 'D'],
    }
}

/// The topic verb of a device message type.
pub open spec fn device_verb(t: DeviceMessageType) -> Seq<char> {
    match t {
        DeviceMessageType::DBirth => seq!['D', 'B', 'I', 'R', 'T', 'H'],
        DeviceMessageType::DDeath => seq!['D', 'D', 'E', 'A', 'T', 'H'],
        DeviceMessageType::DData => seq!['D', 'D', 'A', 'T', 'A'],
        DeviceMessageType::DCmd => seq!['D', 'C', 'M', 'D'],
    }
}

/// `spBv1.0/`
pub open spec fn namespace_prefix() -> Seq<char> {
    seq!['s', 'p', 'B', 'v', '1', '.', '0', '/']
}

/// The Sparkplug topic `spBv1.0/{group}/{verb}/{node}`.
pub open spec fn node_topic_string(group: Seq<char>, t: NodeMessageType, node: Seq<char>) -> Seq<
    char,
> {
    namespace_prefix() + group + seq!['/'] + node_verb(t) + seq!['/'] + node
}

/// The Sparkplug topic `spBv1.0/{group}/{verb}/{node}/{device}`.
pub open spec fn device_topic_string(
    group: Seq<char>,
    t: DeviceMessageType,
    node: Seq<char>,
    device: Seq<char>,
) -> Seq<char> {
    namespace_prefix() + group + seq!['/'] + device_verb(t) + seq!['/'] + node + seq!['/'] + device
}

/// The application STATE topic `spBv1.0/STATE/{host}`.
pub open spec fn state_topic_string(host: Seq<char>) -> Seq<char> {
    namespace_prefix() + seq!['S', 'T', 'A', 'T', 'E', '/'] + host
}

fn verb_node(t: NodeMessageType) -> (r: &'static str)
    ensures
        r@ == node_verb(t),
{
    match t {
        NodeMessageType::NBirth => {
            proof {
                reveal_strlit("NBIRTH");
            }
            "NBIRTH"
        },
        NodeMessageType::NDeath => {
            proof {
                reveal_strlit("NDEATH");
            }
            "NDEATH"
        },
        NodeMessageType::NData => {
            proof {
                reveal_strlit("NDATA");
            }
            "NDATA"
        },
        NodeMessageType::NCmd => {
            proof {
                reveal_strlit("NCMD");
            }
            "NCMD"
        },
    }
}

fn verb_device(t: DeviceMessageType) -> (r: &'static str)
    ensures
        r@ == device_verb(t),
{
    match t {
        DeviceMessageType::DBirth => {
            proof {
                reveal_strlit("DBIRTH");
            }
            "DBIRTH"
        },
        DeviceMessageType::DDeath => {
            proof {
                reveal_strlit("DDEATH");
            }
            "DDEATH"
        },
        DeviceMessageType::DData => {
            proof {
                reveal_strlit("DDATA");
            }
            "DDATA"
        },
        DeviceMessageType::DCmd => {
            proof {
                reveal_strlit("DCMD");
            }
            "DCMD"
        },
    }
}

fn namespace_string() -> (r: String)
    ensures
        r@ == namespace_prefix(),
{
    proof {
        reveal_strlit("spBv1.0/");
    }
    String::from_str("spBv1.0/")
}

fn slash() -> (r: &'static str)
    ensures
        r@ == seq!['/'],
{
    proof {
        reveal_strlit("/");
    }
    "/"
}

/// A topic a node message is published on.
#[derive(Clone, Debug)]
pub struct NodeTopic {
    pub topic: String,
    pub message_type: NodeMessageType,
}

impl NodeTopic {
    /// The topic for a `message_type` message of node `node_id` in `group`.
    pub fn new(group: &str, message_type: NodeMessageType, node_id: &str) -> (r: Self)
        ensures
            r.topic@ == node_topic_string(group@, message_type, node_id@),
            r.message_type == message_type,
    {
        let mut topic = namespace_string();
        topic.append(group);
        topic.append(slash());
        topic.append(verb_node(message_type));
        topic.append(slash());
        topic.append(node_id);
        NodeTopic { topic, message_type }
    }

    /// The QoS and retain flag a message on this topic is published with:
    /// a death certificate with QoS 1, everything else with QoS 0, and
    /// nothing retained.
    pub fn get_publish_quality_retain(&self) -> (r: (QoS, bool))
        ensures
            r == (if self.message_type == NodeMessageType::NDeath {
                (QoS::AtLeastOnce, false)
            } else {
                (QoS::AtMostOnce, false)
            }),
    {
        match self.message_type {
            NodeMessageType::NDeath => (QoS::AtLeastOnce, false),
            _ => (QoS::AtMostOnce, false),
        }
    }
}

/// A topic a device message is published on.
#[derive(Clone, Debug)]
pub struct DeviceTopic {
    pub topic: String,
    pub message_type: DeviceMessageType,
}

impl DeviceTopic {
    /// The topic for a `message_type` message of device `device_id` of node `node_id` in `group`.
    pub fn new(group: &str, message_type: DeviceMessageType, node_id: &str, device_id: &str) -> (r:
        Self)
        ensures
            r.topic@ == device_topic_string(group@, message_type, node_id@, device_id@),
            r.message_type == message_type,
    {
        let mut topic = namespace_string();
        topic.append(group);
        topic.append(slash());
        topic.append(verb_device(message_type));
        topic.append(slash());
        topic.append(node_id);
        topic.append(slash());
        topic.append(device_id);
        DeviceTopic { topic, message_type }
    }

    /// The QoS and retain flag a message on this topic is published with:
    /// QoS 0 and not retained.
    pub fn get_publish_quality_retain(&self) -> (r: (QoS, bool))
        ensures
            r == (QoS::AtMostOnce, false),
    {
        (QoS::AtMostOnce, false)
    }
}

/// An application STATE topic.
#[derive(Clone, Debug)]
pub struct StateTopic {
    pub topic: String,
}

impl StateTopic {
    /// The STATE topic of application `host_id`.
    pub fn new_host(host_id: &str) -> (r: Self)
        ensures
            r.topic@ == state_topic_string(host_id@),
    {
        let mut topic = namespace_string();
        proof {
            reveal_strlit("STATE/");
        }
        topic.append("STATE/");
        topic.append(host_id);
        StateTopic { topic }
    }

    /// The filter for the STATE topics of all applications.
    pub fn new() -> (r: Self)
        ensures
            r.topic@ == state_topic_string(seq!['+']),
    {
        proof {
            reveal_strlit("+");
        }
        Self::new_host("+")
    }
}

/// A topic or set of topics to subscribe to.
#[derive(Clone, Debug)]
pub enum Topic {
    /// Every topic of the Sparkplug namespace.
    Namespace,
    /// Every topic of a group.
    Group { id: String },
    /// Every topic of a node and its devices.
    Node { group_id: String, node_id: String },
    NodeTopic(NodeTopic),
    DeviceTopic(DeviceTopic),
    State(StateTopic),
}

/// The MQTT topic filter string of a topic.
pub open spec fn topic_filter_string(t: Topic) -> Seq<char> {
    match t {
        Topic::Namespace => namespace_prefix() + seq!['#'],
        Topic::Group { id } => namespace_prefix() + id@ + seq!['/', '#'],
        Topic::Node { group_id, node_id } => namespace_prefix() + group_id@ + seq!['/', '+', '/']
            + node_id@ + seq!['/', '#'],
        Topic::NodeTopic(t) => t.topic@,
        Topic::DeviceTopic(t) => t.topic@,
        Topic::State(t) => t.topic@,
    }
}

/// A topic filter to subscribe with, and the QoS to subscribe at.
#[derive(Clone, Debug)]
pub struct TopicFilter {
    pub topic: String,
    pub qos: QoS,
}

impl TopicFilter {
    /// The filter for `topic` at QoS `qos`.
    pub fn new_with_qos(topic: Topic, qos: QoS) -> (r: Self)
        ensures
            r.topic@ == topic_filter_string(topic),
            r.qos == qos,
    {
        let s = match topic {
            Topic::Namespace => {
                let mut s = namespace_string();
                proof {
                    reveal_strlit("#");
                }
                s.append("#");
                s
            },
            Topic::Group { id } => {
                let mut s = namespace_string();
                s.append(id.as_str());
                proof {
                    reveal_strlit("/#");
                }
                s.append("/#");
                s
            },
            Topic::Node { group_id, node_id } => {
                let mut s = namespace_string();
                s.append(group_id.as_str());
                proof {
                    reveal_strlit("/+/");
                    reveal_strlit("/#");
                }
                s.append("/+/");
                s.append(node_id.as_str());
                s.append("/#");
                s
            },
            Topic::NodeTopic(t) => t.topic,
            Topic::DeviceTopic(t) => t.topic,
            Topic::State(t) => t.topic,
        };
        TopicFilter { topic: s, qos }
    }
}

} // verus!

verus! {

/// A valid Sparkplug group, node, device or host name: not empty and free
/// of the reserved characters `+`, `/` and `#`.
pub open spec fn valid_name(s: Seq<char>) -> bool {
    s.len() > 0 && !s.contains('+') && !s.contains('/') && !s.contains('#')
}

/// Why `name`, when it is not a valid name, is refused.
pub open spec fn name_error(name: Seq<char>) -> Seq<char> {
    if name.len() == 0 {
        "name must not be empty"@
    } else {
        "name must not contain the reserved characters '+', '/' or '#'"@
    }
}

/// Checks that `name` can stand as a group, node, device or host name.
pub fn validate_name(name: &str) -> (r: Result<(), String>)
    ensures
        r is Ok <==> valid_name(name@),
        r matches Err(e) ==> e@ == name_error(name@),
{
    proof {
        reveal_strlit("name must not be empty");
        reveal_strlit("name must not contain the reserved characters '+', '/' or '#'");
    }
    if name.unicode_len() == 0 {
        return Err(String::from_str("name must not be empty"));
    }
    let n = name.unicode_len();
    let mut i: usize = 0;
    while i < n
        invariant
            n == name@.len(),
            i <= n,
            forall|j: int| 0 <= j < i ==> name@[j] != '+' && name@[j] != '/' && name@[j] != '#',
        decreases n - i,
    {
        let c = name.get_char(i);
        if c == '+' || c == '/' || c == '#' {
            assert(name@[i as int] == c);
            return Err(String::from_str("name must not contain the reserved characters '+', '/' or '#'"));
        }
        i = i + 1;
    }
    Ok(())
}

} // verus!
