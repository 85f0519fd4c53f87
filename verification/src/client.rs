//! Types shared between a Sparkplug client and the node and application
//! implementations, and the reading of a received publish into an event.

use crate::strings::{
    bytes_equal, decimal, lemma_encode_concat, lemma_encode_without_slash, lemma_split_concat,
    lemma_split_without_sep, split_bytes, split_on, string_from_utf8, string_into_bytes,
    u64_to_decimal,
};
use crate::types::{
    device_topic_string, device_verb, namespace_prefix, node_topic_string, node_verb,
    state_topic_string, valid_name, DeviceMessageType, NodeMessageType, NodeTopic, Payload, QoS,
    StateTopic,
};
use vstd::prelude::*;
use vstd::string::*;
use vstd::utf8::{
    decode_utf8, encode_utf8, encode_utf8_decode_utf8, encode_utf8_valid_utf8, is_ascii_chars,
    is_ascii_chars_encode_utf8, valid_utf8,
};

verus! {

/// Error types for message processing operations.
#[derive(Debug)]
pub enum MessageError {
    /// The payload was not a Sparkplug B protobuf message.
    DecodePayloadError(String),
    /// The topic was not a Sparkplug topic.
    InvalidSparkplugTopic,
    /// A topic part was not valid UTF-8.
    TopicUtf8Error,
    /// A STATE message payload could not be read.
    StatePayloadJsonDecodeError(String),
}

/// An enum representing the different type of message.
#[derive(Debug)]
pub enum MessageKind {
    Birth,
    Death,
    Cmd,
    Data,
    Other(String),
}

impl MessageKind {
    /// Whether this is a CMD message.
    pub fn is_cmd(&self) -> (r: bool)
        ensures
            r == (self is Cmd),
    {
        match self {
            MessageKind::Cmd => true,
            _ => false,
        }
    }
}

/// A Message structure containing payload and the type of topic it was received on
#[derive(Debug)]
pub struct Message {
    pub payload: Payload,
    pub kind: MessageKind,
}

/// An enum representing the different type message published on a STATE topic.
#[derive(Debug)]
pub enum StatePayload {
    Online { timestamp: u64 },
    Offline { timestamp: u64 },
    /// A payload received on a STATE topic, as it was received.
    Other(Vec<u8>),
}

/// The JSON text of an application STATE message.
pub open spec fn state_json(online: bool, timestamp: u64) -> Seq<char> {
    seq!['{', '"', 'o', 'n', 'l', 'i', 'n', 'e', '"', ' ', ':', ' '] + (if online {
        seq!['t', 'r', 'u', 'e']
    } else {
        seq!['f', 'a', 'l', 's', 'e']
    }) + seq![',', ' ', '"', 't', 'i', 'm', 'e', 's', 't', 'a', 'm', 'p', '"', ' ', ':', ' ']
        + decimal(timestamp as nat) + seq!['}']
}

/// The bytes a STATE payload is published as.
pub open spec fn spec_state_payload_bytes(p: StatePayload) -> Seq<u8> {
    match p {
        StatePayload::Online { timestamp } => encode_utf8(state_json(true, timestamp)),
        StatePayload::Offline { timestamp } => encode_utf8(state_json(false, timestamp)),
        StatePayload::Other(b) => b@,
    }
}

impl StatePayload {
    /// Get the [QoS] and retain settings that the State message should be published with
    pub fn get_publish_quality_retain(&self) -> (r: (QoS, bool))
        ensures
            r == (QoS::AtLeastOnce, true),
    {
        (QoS::AtLeastOnce, true)
    }

    /// The bytes the STATE message is published as: the JSON object
    /// `{"online" : <bool>, "timestamp" : <timestamp>}`.
    pub fn into_bytes(self) -> (r: Vec<u8>)
        ensures
            r@ == spec_state_payload_bytes(self),
    {
        let (online, timestamp) = match self {
            StatePayload::Online { timestamp } => (true, timestamp),
            StatePayload::Offline { timestamp } => (false, timestamp),
            StatePayload::Other(b) => return b,
        };
        proof {
            reveal_strlit("{\"online\" : ");
            reveal_strlit("true");
            reveal_strlit("false");
            reveal_strlit(", \"timestamp\" : ");
            reveal_strlit("}");
        }
        let mut s = String::from_str("{\"online\" : ");
        if online {
            s.append("true");
        } else {
            s.append("false");
        }
        s.append(", \"timestamp\" : ");
        let digits = u64_to_decimal(timestamp);
        s.append(digits.as_str());
        s.append("}");
        assert(s@ =~= state_json(online, timestamp));
        string_into_bytes(s)
    }
}

/// Represents a message from a Node.
#[derive(Debug)]
pub struct NodeMessage {
    /// The group the node belongs to.
    pub group_id: String,
    /// The nodes unique identifier.
    pub node_id: String,
    /// The message.
    pub message: Message,
}

/// Represents a message from a Device.
#[derive(Debug)]
pub struct DeviceMessage {
    /// The group the node belongs to.
    pub group_id: String,
    /// The nodes unique identifier.
    pub node_id: String,
    /// The devices unique identifier.
    pub device_id: String,
    /// The message.
    pub message: Message,
}

/// The different types of events an event loop implementation can produce.
#[derive(Debug)]
pub enum Event {
    Offline,
    Online,
    Node(NodeMessage),
    Device(DeviceMessage),
    State { host_id: String, payload: StatePayload },
    InvalidPublish { reason: MessageError, topic: Vec<u8>, payload: Vec<u8> },
}

impl Event {
    /// Whether this is the offline event.
    pub fn is_offline(&self) -> (r: bool)
        ensures
            r == (self is Offline),
    {
        match self {
            Event::Offline => true,
            _ => false,
        }
    }
}

/// Structure representing the last will of a Node or Application
#[derive(Debug)]
pub struct LastWill {
    pub topic: String,
    pub retain: bool,
    pub qos: QoS,
    pub payload: Vec<u8>,
}

impl LastWill {
    /// The last will of node `node_id` in `group`: its death certificate on
    /// its NDEATH topic, with the QoS and retain flag of that topic.
    /// `payload` is the encoded death certificate.
    pub fn new_node(group: &str, node_id: &str, payload: Vec<u8>) -> (r: Self)
        ensures
            r.topic@ == node_topic_string(group@, NodeMessageType::NDeath, node_id@),
            r.qos == QoS::AtLeastOnce,
            r.retain == false,
            r.payload@ == payload@,
    {
        let topic = NodeTopic::new(group, NodeMessageType::NDeath, node_id);
        let (qos, retain) = topic.get_publish_quality_retain();
        Self { retain, qos, payload, topic: topic.topic }
    }

    /// The last will of application `host_id`: its offline STATE message
    /// with `timestamp`, retained, at QoS 1.
    pub fn new_app(host_id: &str, timestamp: u64) -> (r: Self)
        ensures
            r.topic@ == state_topic_string(host_id@),
            r.qos == QoS::AtLeastOnce,
            r.retain == true,
            r.payload@ == encode_utf8(state_json(false, timestamp)),
    {
        Self {
            topic: StateTopic::new_host(host_id).topic,
            retain: true,
            qos: QoS::AtLeastOnce,
            payload: StatePayload::Offline { timestamp }.into_bytes(),
        }
    }
}

/// The reason a publish is refused, as the topic reader decides it.
pub enum TopicRefusal {
    Topic,
    Utf8,
    Decode,
}

/// What the topic of a publish makes of it.
pub enum TopicOutcome {
    Refused(TopicRefusal),
    State { host: Seq<u8> },
    Node { group: Seq<u8>, verb: Seq<u8>, node: Seq<u8> },
    Device { group: Seq<u8>, verb: Seq<u8>, node: Seq<u8>, device: Seq<u8> },
}

/// `STATE` as bytes.
pub open spec fn state_bytes() -> Seq<u8> {
    seq![83u8, 84u8, 65u8, 84u8, 69u8]
}

/// The verbs after the producer letter that name a known message kind.
pub open spec fn known_verb(v: Seq<u8>) -> bool {
    v == seq![66u8, 73u8, 82u8, 84u8, 72u8]  // BIRTH
     || v == seq![68u8, 69u8, 65u8, 84u8, 72u8]  // DEATH
     || v == seq![68u8, 65u8, 84u8, 65u8]  // DATA
     || v == seq![67u8, 77u8, 68u8]  // CMD

}

/// The message kind a verb names.
pub open spec fn kind_named(k: MessageKind, v: Seq<u8>) -> bool {
    if v == seq![66u8, 73u8, 82u8, 84u8, 72u8] {
        k is Birth
    } else if v == seq![68u8, 69u8, 65u8, 84u8, 72u8] {
        k is Death
    } else if v == seq![68u8, 65u8, 84u8, 65u8] {
        k is Data
    } else if v == seq![67u8, 77u8, 68u8] {
        k is Cmd
    } else {
        k matches MessageKind::Other(s) && s@ == decode_utf8(v)
    }
}

/// How the topic segments of a publish are read, given whether its payload
/// decoded: `spBv1.0/STATE/<host>` is a STATE message; otherwise
/// `<namespace>/<group>/<N|D><verb>/<node>[/<device>]` is a node or device
/// message, each part checked in that order.
pub open spec fn spec_topic_outcome(segs: Seq<Seq<u8>>, decoded: bool) -> TopicOutcome {
    if segs.len() < 2 {
        TopicOutcome::Refused(TopicRefusal::Topic)
    } else if segs[1] == state_bytes() {
        if segs.len() < 3 {
            TopicOutcome::Refused(TopicRefusal::Topic)
        } else if !valid_utf8(segs[2]) {
            TopicOutcome::Refused(TopicRefusal::Utf8)
        } else {
            TopicOutcome::State { host: segs[2] }
        }
    } else if !valid_utf8(segs[1]) {
        TopicOutcome::Refused(TopicRefusal::Utf8)
    } else if segs.len() < 3 {
        TopicOutcome::Refused(TopicRefusal::Topic)
    } else if segs[2].len() < 2 || (segs[2][0] != 78u8 && segs[2][0] != 68u8) {
        TopicOutcome::Refused(TopicRefusal::Topic)
    } else if !decoded {
        TopicOutcome::Refused(TopicRefusal::Decode)
    } else if !known_verb(segs[2].drop_first()) && !valid_utf8(segs[2].drop_first()) {
        TopicOutcome::Refused(TopicRefusal::Utf8)
    } else if segs.len() < 4 {
        TopicOutcome::Refused(TopicRefusal::Topic)
    } else if !valid_utf8(segs[3]) {
        TopicOutcome::Refused(TopicRefusal::Utf8)
    } else if segs[2][0] == 78u8 {
        if segs.len() > 4 {
            TopicOutcome::Refused(TopicRefusal::Topic)
        } else {
            TopicOutcome::Node { group: segs[1], verb: segs[2].drop_first(), node: segs[3] }
        }
    } else if segs.len() < 5 {
        TopicOutcome::Refused(TopicRefusal::Topic)
    } else if !valid_utf8(segs[4]) {
        TopicOutcome::Refused(TopicRefusal::Utf8)
    } else if segs.len() > 5 {
        TopicOutcome::Refused(TopicRefusal::Topic)
    } else {
        TopicOutcome::Device {
            group: segs[1],
            verb: segs[2].drop_first(),
            node: segs[3],
            device: segs[4],
        }
    }
}

/// The event a publish on `topic` with `payload` is read as, where
/// `decoded` is the payload decoded as a Sparkplug B protobuf message.
pub open spec fn spec_topic_event(
    topic: Seq<u8>,
    payload: Seq<u8>,
    decoded: Result<Payload, String>,
    e: Event,
) -> bool {
    match spec_topic_outcome(split_on(topic, 47u8), decoded is Ok) {
        TopicOutcome::Refused(why) => match e {
            Event::InvalidPublish { reason, topic: t, payload: p } => {
                &&& t@ == topic
                &&& p@ == payload
                &&& match why {
                    TopicRefusal::Topic => reason is InvalidSparkplugTopic,
                    TopicRefusal::Utf8 => reason is TopicUtf8Error,
                    TopicRefusal::Decode => reason == MessageError::DecodePayloadError(
                        decoded->Err_0,
                    ),
                }
            },
            _ => false,
        },
        TopicOutcome::State { host } => match e {
            Event::State { host_id, payload: sp } => {
                &&& host_id@ == decode_utf8(host)
                &&& (match sp {
                    StatePayload::Other(b) => b@ == payload,
                    _ => false,
                })
            },
            _ => false,
        },
        TopicOutcome::Node { group, verb, node } => match e {
            Event::Node(m) => {
                &&& m.group_id@ == decode_utf8(group)
                &&& m.node_id@ == decode_utf8(node)
                &&& kind_named(m.message.kind, verb)
                &&& m.message.payload == decoded->Ok_0
            },
            _ => false,
        },
        TopicOutcome::Device { group, verb, node, device } => match e {
            Event::Device(m) => {
                &&& m.group_id@ == decode_utf8(group)
                &&& m.node_id@ == decode_utf8(node)
                &&& m.device_id@ == decode_utf8(device)
                &&& kind_named(m.message.kind, verb)
                &&& m.message.payload == decoded->Ok_0
            },
            _ => false,
        },
    }
}

fn utf8_segment(segs: &Vec<Vec<u8>>, i: usize) -> (r: Option<String>)
    requires
        i < segs@.len(),
    ensures
        r is Some <==> valid_utf8(segs@[i as int]@),
        r matches Some(s) ==> s@ == decode_utf8(segs@[i as int]@),
{
    let seg = segs[i].clone();
    assert(seg@ =~= segs@[i as int]@);
    string_from_utf8(seg)
}

fn message_kind(verb: Vec<u8>) -> (r: Option<MessageKind>)
    ensures
        r is Some <==> (known_verb(verb@) || valid_utf8(verb@)),
        r matches Some(k) ==> kind_named(k, verb@),
{
    if bytes_equal(verb.as_slice(), &[66u8, 73u8, 82u8, 84u8, 72u8]) {
        assert(verb@ == seq![66u8, 73u8, 82u8, 84u8, 72u8]);
        Some(MessageKind::Birth)
    } else if bytes_equal(verb.as_slice(), &[68u8, 69u8, 65u8, 84u8, 72u8]) {
        assert(verb@ == seq![68u8, 69u8, 65u8, 84u8, 72u8]);
        Some(MessageKind::Death)
    } else if bytes_equal(verb.as_slice(), &[68u8, 65u8, 84u8, 65u8]) {
        assert(verb@ == seq![68u8, 65u8, 84u8, 65u8]);
        Some(MessageKind::Data)
    } else if bytes_equal(verb.as_slice(), &[67u8, 77u8, 68u8]) {
        assert(verb@ == seq![67u8, 77u8, 68u8]);
        Some(MessageKind::Cmd)
    } else {
        assert(!known_verb(verb@));
        match string_from_utf8(verb) {
            Some(s) => Some(MessageKind::Other(s)),
            None => None,
        }
    }
}

fn invalid(reason: MessageError, topic: Vec<u8>, payload: Vec<u8>) -> (e: Event)
    ensures
        e == (Event::InvalidPublish { reason, topic, payload }),
{
    Event::InvalidPublish { reason, topic, payload }
}

/// Reads a publish received on `topic` with `payload` as an [Event].
/// `decoded` is `payload` decoded as a Sparkplug B protobuf message, or the
/// decoder's error.
pub fn topic_and_payload_to_event(
    topic: Vec<u8>,
    payload: Vec<u8>,
    decoded: Result<Payload, String>,
) -> (e: Event)
    ensures
        spec_topic_event(topic@, payload@, decoded, e),
{
    let segs = split_bytes(&topic, 47u8);
    let ghost s = split_on(topic@, 47u8);
    assert(segs@.len() == s.len());
    if segs.len() < 2 {
        return invalid(MessageError::InvalidSparkplugTopic, topic, payload);
    }
    assert(segs@[1]@ == s[1]);
    if bytes_equal(segs[1].as_slice(), &[83u8, 84u8, 65u8, 84u8, 69u8]) {
        assert(s[1] == state_bytes());
        if segs.len() < 3 {
            return invalid(MessageError::InvalidSparkplugTopic, topic, payload);
        }
        assert(segs@[2]@ == s[2]);
        let host_id = match utf8_segment(&segs, 2) {
            Some(h) => h,
            None => return invalid(MessageError::TopicUtf8Error, topic, payload),
        };
        return Event::State { host_id, payload: StatePayload::Other(payload) };
    }
    assert(s[1] != state_bytes());
    let group_id = match utf8_segment(&segs, 1) {
        Some(g) => g,
        None => return invalid(MessageError::TopicUtf8Error, topic, payload),
    };
    if segs.len() < 3 {
        return invalid(MessageError::InvalidSparkplugTopic, topic, payload);
    }
    assert(segs@[2]@ == s[2]);
    let part = &segs[2];
    if part.len() < 2 {
        return invalid(MessageError::InvalidSparkplugTopic, topic, payload);
    }
    let is_node = if part[0] == 78u8 {
        true
    } else if part[0] == 68u8 {
        false
    } else {
        return invalid(MessageError::InvalidSparkplugTopic, topic, payload);
    };
    let decoded_payload = match decoded {
        Ok(p) => p,
        Err(e) => return invalid(MessageError::DecodePayloadError(e), topic, payload),
    };
    let mut verb = part.clone();
    verb.remove(0);
    assert(verb@ =~= s[2].drop_first());
    let kind = match message_kind(verb) {
        Some(k) => k,
        None => return invalid(MessageError::TopicUtf8Error, topic, payload),
    };
    if segs.len() < 4 {
        return invalid(MessageError::InvalidSparkplugTopic, topic, payload);
    }
    assert(segs@[3]@ == s[3]);
    let node_id = match utf8_segment(&segs, 3) {
        Some(n) => n,
        None => return invalid(MessageError::TopicUtf8Error, topic, payload),
    };
    let message = Message { payload: decoded_payload, kind };
    if is_node {
        if segs.len() > 4 {
            return invalid(MessageError::InvalidSparkplugTopic, topic, payload);
        }
        Event::Node(NodeMessage { group_id, node_id, message })
    } else {
        if segs.len() < 5 {
            return invalid(MessageError::InvalidSparkplugTopic, topic, payload);
        }
        assert(segs@[4]@ == s[4]);
        let device_id = match utf8_segment(&segs, 4) {
            Some(d) => d,
            None => return invalid(MessageError::TopicUtf8Error, topic, payload),
        };
        if segs.len() > 5 {
            return invalid(MessageError::InvalidSparkplugTopic, topic, payload);
        }
        Event::Device(DeviceMessage { group_id, node_id, device_id, message })
    }
}

/// ASCII text encodes as the bytes of its characters.
proof fn lemma_ascii_bytes(s: Seq<char>, b: Seq<u8>)
    requires
        s.len() == b.len(),
        is_ascii_chars(s),
        forall|i: int| 0 <= i < s.len() ==> #[trigger] s[i] as u8 == b[i],
    ensures
        encode_utf8(s) == b,
{
    is_ascii_chars_encode_utf8(s);
    assert(encode_utf8(s) =~= b);
}

/// `/` encodes as its byte.
proof fn lemma_encode_slash()
    ensures
        encode_utf8(seq!['/']) == seq![47u8],
{
    lemma_ascii_bytes(seq!['/'], seq![47u8]);
}

/// The encoding of `a/b` splits into `a` and the parts of `b`, when `a`
/// holds no `/`.
proof fn lemma_split_joined(a: Seq<char>, b: Seq<char>)
    requires
        !a.contains('/'),
    ensures
        split_on(encode_utf8(a + seq!['/'] + b), 47u8) == seq![encode_utf8(a)] + split_on(
            encode_utf8(b),
            47u8,
        ),
{
    lemma_encode_concat(a + seq!['/'], b);
    lemma_encode_concat(a, seq!['/']);
    lemma_encode_slash();
    lemma_split_concat(encode_utf8(a), encode_utf8(b), 47u8);
    lemma_encode_without_slash(a);
    lemma_split_without_sep(encode_utf8(a), 47u8);
}

/// The encoding of text without `/` is a single part.
proof fn lemma_split_single(a: Seq<char>)
    requires
        !a.contains('/'),
    ensures
        split_on(encode_utf8(a), 47u8) == seq![encode_utf8(a)],
{
    lemma_encode_without_slash(a);
    lemma_split_without_sep(encode_utf8(a), 47u8);
}

/// The bytes of the STATE group.
proof fn lemma_state_bytes()
    ensures
        encode_utf8(seq!['S', 'T', 'A', 'T', 'E']) == state_bytes(),
{
    lemma_ascii_bytes(seq!['S', 'T', 'A', 'T', 'E'], state_bytes());
}

/// The message kind of a node message type.
pub open spec fn node_kind_is(k: MessageKind, t: NodeMessageType) -> bool {
    match t {
        NodeMessageType::NBirth => k is Birth,
        NodeMessageType::NDeath => k is Death,
        NodeMessageType::NData => k is Data,
        NodeMessageType::NCmd => k is Cmd,
    }
}

/// The message kind of a device message type.
pub open spec fn device_kind_is(k: MessageKind, t: DeviceMessageType) -> bool {
    match t {
        DeviceMessageType::DBirth => k is Birth,
        DeviceMessageType::DDeath => k is Death,
        DeviceMessageType::DData => k is Data,
        DeviceMessageType::DCmd => k is Cmd,
    }
}

/// The verb of a message type, after its producer letter, as bytes, and
/// the kind it names.
proof fn lemma_node_verb_bytes(t: NodeMessageType)
    ensures
        encode_utf8(node_verb(t)).len() >= 2,
        encode_utf8(node_verb(t))[0] == 78u8,
        known_verb(encode_utf8(node_verb(t)).drop_first()),
        forall|k: MessageKind| kind_named(k, encode_utf8(node_verb(t)).drop_first()) ==> node_kind_is(k, t),
        !node_verb(t).contains('/'),
{
    match t {
        NodeMessageType::NBirth => {
            lemma_ascii_bytes(node_verb(t), seq![78u8, 66u8, 73u8, 82u8, 84u8, 72u8]);
            assert(encode_utf8(node_verb(t)).drop_first() =~= seq![66u8, 73u8, 82u8, 84u8, 72u8]);
        },
        NodeMessageType::NDeath => {
            lemma_ascii_bytes(node_verb(t), seq![78u8, 68u8, 69u8, 65u8, 84u8, 72u8]);
            assert(encode_utf8(node_verb(t)).drop_first() =~= seq![68u8, 69u8, 65u8, 84u8, 72u8]);
        },
        NodeMessageType::NData => {
            lemma_ascii_bytes(node_verb(t), seq![78u8, 68u8, 65u8, 84u8, 65u8]);
            assert(encode_utf8(node_verb(t)).drop_first() =~= seq![68u8, 65u8, 84u8, 65u8]);
        },
        NodeMessageType::NCmd => {
            lemma_ascii_bytes(node_verb(t), seq![78u8, 67u8, 77u8, 68u8]);
            assert(encode_utf8(node_verb(t)).drop_first() =~= seq![67u8, 77u8, 68u8]);
        },
    }
    assert(!node_verb(t).contains('/')) by {
        if node_verb(t).contains('/') {
            let k = choose|k: int| 0 <= k < node_verb(t).len() && node_verb(t)[k] == '/';
        }
    }
}

/// The device verbs, as the node verbs are.
proof fn lemma_device_verb_bytes(t: DeviceMessageType)
    ensures
        encode_utf8(device_verb(t)).len() >= 2,
        encode_utf8(device_verb(t))[0] == 68u8,
        known_verb(encode_utf8(device_verb(t)).drop_first()),
        forall|k: MessageKind| kind_named(k, encode_utf8(device_verb(t)).drop_first()) ==> device_kind_is(k, t),
        !device_verb(t).contains('/'),
{
    match t {
        DeviceMessageType::DBirth => {
            lemma_ascii_bytes(device_verb(t), seq![68u8, 66u8, 73u8, 82u8, 84u8, 72u8]);
            assert(encode_utf8(device_verb(t)).drop_first() =~= seq![66u8, 73u8, 82u8, 84u8, 72u8]);
        },
        DeviceMessageType::DDeath => {
            lemma_ascii_bytes(device_verb(t), seq![68u8, 68u8, 69u8, 65u8, 84u8, 72u8]);
            assert(encode_utf8(device_verb(t)).drop_first() =~= seq![68u8, 69u8, 65u8, 84u8, 72u8]);
        },
        DeviceMessageType::DData => {
            lemma_ascii_bytes(device_verb(t), seq![68u8, 68u8, 65u8, 84u8, 65u8]);
            assert(encode_utf8(device_verb(t)).drop_first() =~= seq![68u8, 65u8, 84u8, 65u8]);
        },
        DeviceMessageType::DCmd => {
            lemma_ascii_bytes(device_verb(t), seq![68u8, 67u8, 77u8, 68u8]);
            assert(encode_utf8(device_verb(t)).drop_first() =~= seq![67u8, 77u8, 68u8]);
        },
    }
    assert(!device_verb(t).contains('/')) by {
        if device_verb(t).contains('/') {
            let k = choose|k: int| 0 <= k < device_verb(t).len() && device_verb(t)[k] == '/';
        }
    }
}

/// The namespace part of every topic holds no `/`.
proof fn lemma_namespace_part()
    ensures
        namespace_prefix() == seq!['s', 'p', 'B', 'v', '1', '.', '0'] + seq!['/'],
        !seq!['s', 'p', 'B', 'v', '1', '.', '0'].contains('/'),
{
    assert(namespace_prefix() =~= seq!['s', 'p', 'B', 'v', '1', '.', '0'] + seq!['/']);
    let p = seq!['s', 'p', 'B', 'v', '1', '.', '0'];
    assert(!p.contains('/')) by {
        if p.contains('/') {
            let k = choose|k: int| 0 <= k < p.len() && p[k] == '/';
        }
    }
}

/// A group named like the STATE topics is the STATE group.
proof fn lemma_not_state(group: Seq<char>)
    requires
        group != seq!['S', 'T', 'A', 'T', 'E'],
    ensures
        encode_utf8(group) != state_bytes(),
{
    lemma_state_bytes();
    encode_utf8_decode_utf8(group);
    encode_utf8_decode_utf8(seq!['S', 'T', 'A', 'T', 'E']);
}

/// What a node publishes on its topic, a client reads back: a publish on the
/// topic of a `t` message of node `node` in group `group` (valid names, the
/// group not `STATE`, which names the STATE topics) whose payload decodes
/// is read as a message of that node, of the kind `t` names, carrying the
/// decoded payload.
pub proof fn lemma_node_topic_read_back(
    group: Seq<char>,
    t: NodeMessageType,
    node: Seq<char>,
    payload: Seq<u8>,
    decoded: Payload,
    e: Event,
)
    requires
        valid_name(group),
        valid_name(node),
        group != seq!['S', 'T', 'A', 'T', 'E'],
        spec_topic_event(encode_utf8(node_topic_string(group, t, node)), payload, Ok(decoded), e),
    ensures
        e matches Event::Node(m) && m.group_id@ == group && m.node_id@ == node && node_kind_is(
            m.message.kind,
            t,
        ) && m.message.payload == decoded,
{
    let p = seq!['s', 'p', 'B', 'v', '1', '.', '0'];
    let sl = seq!['/'];
    let v = node_verb(t);
    lemma_namespace_part();
    lemma_node_verb_bytes(t);
    assert(node_topic_string(group, t, node) =~= p + sl + (group + sl + (v + sl + node)));
    lemma_split_joined(p, group + sl + (v + sl + node));
    lemma_split_joined(group, v + sl + node);
    lemma_split_joined(v, node);
    lemma_split_single(node);
    let segs = split_on(encode_utf8(node_topic_string(group, t, node)), 47u8);
    assert(segs =~= seq![encode_utf8(p), encode_utf8(group), encode_utf8(v), encode_utf8(node)]);
    lemma_not_state(group);
    encode_utf8_valid_utf8(group);
    encode_utf8_valid_utf8(node);
    encode_utf8_decode_utf8(group);
    encode_utf8_decode_utf8(node);
}

/// What a device publishes on its topic, a client reads back: a publish on
/// the topic of a `t` message of device `device` of node `node` in group
/// `group` (valid names, the group not `STATE`) whose payload decodes is
/// read as a message of that device, of the kind `t` names, carrying the
/// decoded payload.
pub proof fn lemma_device_topic_read_back(
    group: Seq<char>,
    t: DeviceMessageType,
    node: Seq<char>,
    device: Seq<char>,
    payload: Seq<u8>,
    decoded: Payload,
    e: Event,
)
    requires
        valid_name(group),
        valid_name(node),
        valid_name(device),
        group != seq!['S', 'T', 'A', 'T', 'E'],
        spec_topic_event(
            encode_utf8(device_topic_string(group, t, node, device)),
            payload,
            Ok(decoded),
            e,
        ),
    ensures
        e matches Event::Device(m) && m.group_id@ == group && m.node_id@ == node && m.device_id@
            == device && device_kind_is(m.message.kind, t) && m.message.payload == decoded,
{
    let p = seq!['s', 'p', 'B', 'v', '1', '.', '0'];
    let sl = seq!['/'];
    let v = device_verb(t);
    lemma_namespace_part();
    lemma_device_verb_bytes(t);
    assert(device_topic_string(group, t, node, device) =~= p + sl + (group + sl + (v + sl + (node
        + sl + device))));
    lemma_split_joined(p, group + sl + (v + sl + (node + sl + device)));
    lemma_split_joined(group, v + sl + (node + sl + device));
    lemma_split_joined(v, node + sl + device);
    lemma_split_joined(node, device);
    lemma_split_single(device);
    let segs = split_on(encode_utf8(device_topic_string(group, t, node, device)), 47u8);
    assert(segs =~= seq![
        encode_utf8(p),
        encode_utf8(group),
        encode_utf8(v),
        encode_utf8(node),
        encode_utf8(device),
    ]);
    lemma_not_state(group);
    encode_utf8_valid_utf8(group);
    encode_utf8_valid_utf8(node);
    encode_utf8_valid_utf8(device);
    encode_utf8_decode_utf8(group);
    encode_utf8_decode_utf8(node);
    encode_utf8_decode_utf8(device);
}

/// What an application publishes on its STATE topic, a client reads back
/// as a STATE message of that application (a valid name), with the payload
/// as it was sent.
pub proof fn lemma_state_topic_read_back(
    host: Seq<char>,
    payload: Seq<u8>,
    decoded: Result<Payload, String>,
    e: Event,
)
    requires
        valid_name(host),
        spec_topic_event(encode_utf8(state_topic_string(host)), payload, decoded, e),
    ensures
        e matches Event::State { host_id, payload: StatePayload::Other(b) } && host_id@ == host
            && b@ == payload,
{
    let p = seq!['s', 'p', 'B', 'v', '1', '.', '0'];
    let sl = seq!['/'];
    let st = seq!['S', 'T', 'A', 'T', 'E'];
    lemma_namespace_part();
    assert(state_topic_string(host) =~= p + sl + (st + sl + host));
    assert(!st.contains('/')) by {
        if st.contains('/') {
            let k = choose|k: int| 0 <= k < st.len() && st[k] == '/';
        }
    }
    lemma_split_joined(p, st + sl + host);
    lemma_split_joined(st, host);
    lemma_split_single(host);
    let segs = split_on(encode_utf8(state_topic_string(host)), 47u8);
    assert(segs =~= seq![encode_utf8(p), encode_utf8(st), encode_utf8(host)]);
    lemma_state_bytes();
    encode_utf8_valid_utf8(host);
    encode_utf8_decode_utf8(host);
}

} // verus!
