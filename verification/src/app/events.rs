//! Node and device messages read into application events.

use crate::app::metrics::{
    bdseq_from_payload_metrics, birth_metrics_valid, data_metrics_valid,
    get_metric_birth_details_from_birth_metrics, get_metric_id_and_details_from_payload_metrics,
    spec_bdseq, spec_birth_details, spec_metric_details, spec_metric_id, MetricBirthDetails,
    MetricDetails, PayloadMetricError,
};
use crate::client::{DeviceMessage, MessageKind, NodeMessage};
use crate::types::{MetricId, Payload};
use vstd::prelude::*;

verus! {

/// Struct used to uniquely identify a node within a Sparkplug namespace
#[derive(Debug, Clone)]
pub struct NodeIdentifier {
    pub group: String,
    pub node: String,
}

/// Why a payload could not be read.
#[derive(Debug)]
pub enum PayloadError {
    MissingSeq,
    InvalidSeq,
    InvalidBdseq,
    MissingTimestamp,
    MetricError(PayloadMetricError),
}

/// A payload that could not be read, and where it came from.
#[derive(Debug)]
pub struct PayloadErrorDetails {
    pub node_id: NodeIdentifier,
    pub device: Option<String>,
    pub error: PayloadError,
}

impl PayloadErrorDetails {
    fn new(node_id: NodeIdentifier, error: PayloadError) -> (r: Self)
        ensures
            r == (PayloadErrorDetails { node_id, device: None, error }),
    {
        Self { node_id, device: None, error }
    }

    fn with_device(self, device: String) -> (r: Self)
        ensures
            r == (PayloadErrorDetails { device: Some(device), ..self }),
    {
        PayloadErrorDetails { device: Some(device), ..self }
    }
}

/// Why a message could not be read into an event.
pub enum MessageTryFromError {
    PayloadError(PayloadErrorDetails),
    UnsupportedVerb,
}

/// A node birth.
#[derive(Debug)]
pub struct NBirth {
    pub bdseq: u8,
    pub timestamp: u64,
    pub metrics_details: Vec<(MetricBirthDetails, MetricDetails)>,
}

/// A node death.
#[derive(Debug)]
pub struct NDeath {
    pub bdseq: u8,
}

/// Node data.
#[derive(Debug)]
pub struct NData {
    pub seq: u8,
    pub timestamp: u64,
    pub metrics_details: Vec<(MetricId, MetricDetails)>,
}

/// A device birth.
#[derive(Debug)]
pub struct DBirth {
    pub seq: u8,
    pub timestamp: u64,
    pub metrics_details: Vec<(MetricBirthDetails, MetricDetails)>,
}

/// A device death.
#[derive(Debug)]
pub struct DDeath {
    pub seq: u8,
    pub timestamp: u64,
}

/// Device data.
#[derive(Debug)]
pub struct DData {
    pub seq: u8,
    pub timestamp: u64,
    pub metrics_details: Vec<(MetricId, MetricDetails)>,
}

/// The birth details read from the metrics of a birth message.
pub open spec fn birth_details_of(
    ms: Seq<crate::types::Metric>,
    v: Seq<(MetricBirthDetails, MetricDetails)>,
) -> bool {
    &&& v.len() == ms.len()
    &&& forall|i: int|
        0 <= i < v.len() ==> Some(#[trigger] v[i].0) == spec_birth_details(ms[i]) && Some(v[i].1)
            == spec_metric_details(ms[i])
}

/// The identifiers and details read from the metrics of a data message.
pub open spec fn data_details_of(
    ms: Seq<crate::types::Metric>,
    v: Seq<(MetricId, MetricDetails)>,
) -> bool {
    &&& v.len() == ms.len()
    &&& forall|i: int|
        0 <= i < v.len() ==> Some(#[trigger] v[i].0) == spec_metric_id(ms[i]) && Some(v[i].1)
            == spec_metric_details(ms[i])
}

/// The error a node birth payload is refused with, checked in order: a
/// missing or non-zero seq, a missing timestamp, a missing or invalid bdSeq,
/// an invalid metric.
pub open spec fn nbirth_error(p: Payload) -> Option<PayloadError> {
    match p.seq {
        None => Some(PayloadError::MissingSeq),
        Some(s) => if s != 0 {
            Some(PayloadError::InvalidSeq)
        } else if p.timestamp is None {
            Some(PayloadError::MissingTimestamp)
        } else if spec_bdseq(p.metrics@) is None {
            Some(PayloadError::InvalidBdseq)
        } else if !birth_metrics_valid(p.metrics@) {
            Some(PayloadError::MetricError(PayloadMetricError))
        } else {
            None
        },
    }
}

/// The error a payload carrying a sequence number and timestamp is refused
/// with, if it lacks one of them.
pub open spec fn sequenced_error(p: Payload) -> Option<PayloadError> {
    if p.seq is None {
        Some(PayloadError::MissingSeq)
    } else if p.timestamp is None {
        Some(PayloadError::MissingTimestamp)
    } else {
        None
    }
}

impl NBirth {
    /// Reads a node birth payload: seq 0, a timestamp, a bdSeq metric and
    /// well formed metrics.
    pub fn try_from(payload: Payload) -> (r: Result<Self, PayloadError>)
        ensures
            r is Err <==> nbirth_error(payload) is Some,
            r matches Err(e) ==> Some(e) == nbirth_error(payload),
            r matches Ok(b) ==> b.timestamp == payload.timestamp->0 && Some(b.bdseq) == spec_bdseq(
                payload.metrics@,
            ) && birth_details_of(payload.metrics@, b.metrics_details@),
    {
        match payload.seq {
            Some(seq) => {
                if seq != 0 {
                    return Err(PayloadError::InvalidSeq);
                }
            },
            None => return Err(PayloadError::MissingSeq),
        }
        let timestamp = match payload.timestamp {
            Some(ts) => ts,
            None => return Err(PayloadError::MissingTimestamp),
        };
        let bdseq = match bdseq_from_payload_metrics(&payload.metrics) {
            Ok(bdseq) => bdseq,
            Err(_) => return Err(PayloadError::InvalidBdseq),
        };
        let metrics_details = match get_metric_birth_details_from_birth_metrics(payload.metrics) {
            Ok(details) => details,
            Err(e) => return Err(PayloadError::MetricError(e)),
        };
        Ok(NBirth { bdseq, timestamp, metrics_details })
    }
}

impl NDeath {
    /// Reads a node death payload: it must carry a bdSeq metric.
    pub fn try_from(payload: Payload) -> (r: Result<Self, PayloadError>)
        ensures
            r is Ok <==> spec_bdseq(payload.metrics@) is Some,
            r matches Ok(d) ==> Some(d.bdseq) == spec_bdseq(payload.metrics@),
            r matches Err(e) ==> e is InvalidBdseq,
    {
        let bdseq = match bdseq_from_payload_metrics(&payload.metrics) {
            Ok(bdseq) => bdseq,
            Err(_) => return Err(PayloadError::InvalidBdseq),
        };
        Ok(NDeath { bdseq })
    }
}

impl NData {
    /// Reads a node data payload: a seq, a timestamp and well formed metrics.
    #[verifier::spinoff_prover]
    pub fn try_from(payload: Payload) -> (r: Result<Self, PayloadError>)
        ensures
            r is Err <==> (sequenced_error(payload) is Some || !data_metrics_valid(
                payload.metrics@,
            )),
            r matches Err(e) ==> e == (match sequenced_error(payload) {
                Some(e) => e,
                None => PayloadError::MetricError(PayloadMetricError),
            }),
            r matches Ok(d) ==> d.seq == payload.seq->0 as u8 && d.timestamp
                == payload.timestamp->0 && data_details_of(payload.metrics@, d.metrics_details@),
    {
        let seq = match payload.seq {
            Some(seq) => #[verifier::truncate] (seq as u8),
            None => return Err(PayloadError::MissingSeq),
        };
        let timestamp = match payload.timestamp {
            Some(ts) => ts,
            None => return Err(PayloadError::MissingTimestamp),
        };
        let metrics_details = match get_metric_id_and_details_from_payload_metrics(
            payload.metrics,
        ) {
            Ok(details) => details,
            Err(e) => return Err(PayloadError::MetricError(e)),
        };
        Ok(NData { seq, timestamp, metrics_details })
    }
}

impl DBirth {
    /// Reads a device birth payload: a seq, a timestamp and well formed birth metrics.
    #[verifier::spinoff_prover]
    pub fn try_from(payload: Payload) -> (r: Result<Self, PayloadError>)
        ensures
            r is Err <==> (sequenced_error(payload) is Some || !birth_metrics_valid(
                payload.metrics@,
            )),
            r matches Err(e) ==> e == (match sequenced_error(payload) {
                Some(e) => e,
                None => PayloadError::MetricError(PayloadMetricError),
            }),
            r matches Ok(d) ==> d.seq == payload.seq->0 as u8 && d.timestamp
                == payload.timestamp->0 && birth_details_of(payload.metrics@, d.metrics_details@),
    {
        let seq = match payload.seq {
            Some(seq) => #[verifier::truncate] (seq as u8),
            None => return Err(PayloadError::MissingSeq),
        };
        let timestamp = match payload.timestamp {
            Some(ts) => ts,
            None => return Err(PayloadError::MissingTimestamp),
        };
        let metrics_details = match get_metric_birth_details_from_birth_metrics(payload.metrics) {
            Ok(details) => details,
            Err(e) => return Err(PayloadError::MetricError(e)),
        };
        Ok(DBirth { seq, timestamp, metrics_details })
    }
}

impl DDeath {
    /// Reads a device death payload: a seq and a timestamp.
    pub fn try_from(payload: Payload) -> (r: Result<Self, PayloadError>)
        ensures
            r is Err <==> sequenced_error(payload) is Some,
            r matches Err(e) ==> Some(e) == sequenced_error(payload),
            r matches Ok(d) ==> d.seq == payload.seq->0 as u8 && d.timestamp
                == payload.timestamp->0,
    {
        let seq = match payload.seq {
            Some(seq) => #[verifier::truncate] (seq as u8),
            None => return Err(PayloadError::MissingSeq),
        };
        let timestamp = match payload.timestamp {
            Some(ts) => ts,
            None => return Err(PayloadError::MissingTimestamp),
        };
        Ok(DDeath { seq, timestamp })
    }
}

impl DData {
    /// Reads a device data payload: a seq, a timestamp and well formed metrics.
    #[verifier::spinoff_prover]
    pub fn try_from(payload: Payload) -> (r: Result<Self, PayloadError>)
        ensures
            r is Err <==> (sequenced_error(payload) is Some || !data_metrics_valid(
                payload.metrics@,
            )),
            r matches Err(e) ==> e == (match sequenced_error(payload) {
                Some(e) => e,
                None => PayloadError::MetricError(PayloadMetricError),
            }),
            r matches Ok(d) ==> d.seq == payload.seq->0 as u8 && d.timestamp
                == payload.timestamp->0 && data_details_of(payload.metrics@, d.metrics_details@),
    {
        let seq = match payload.seq {
            Some(seq) => #[verifier::truncate] (seq as u8),
            None => return Err(PayloadError::MissingSeq),
        };
        let timestamp = match payload.timestamp {
            Some(ts) => ts,
            None => return Err(PayloadError::MissingTimestamp),
        };
        let metrics_details = match get_metric_id_and_details_from_payload_metrics(
            payload.metrics,
        ) {
            Ok(details) => details,
            Err(e) => return Err(PayloadError::MetricError(e)),
        };
        Ok(DData { seq, timestamp, metrics_details })
    }
}

/// An event of a node.
#[derive(Debug)]
pub enum NodeEvent {
    Birth(NBirth),
    Death(NDeath),
    Data(NData),
}

/// An event of a node, and the node it came from.
#[derive(Debug)]
pub struct AppNodeEvent {
    pub id: NodeIdentifier,
    pub event: NodeEvent,
}

/// An event of a device.
#[derive(Debug)]
pub enum DeviceEvent {
    Birth(DBirth),
    Death(DDeath),
    Data(DData),
}

/// An event of a device, and the node and device it came from.
#[derive(Debug)]
pub struct AppDeviceEvent {
    pub id: NodeIdentifier,
    pub name: String,
    pub event: DeviceEvent,
}

/// The kinds of message an application reads into events.
pub open spec fn supported_kind(k: MessageKind) -> bool {
    k is Birth || k is Death || k is Data
}

/// `ev` is what the node message `value`, of a kind an application reads,
/// is read as.
pub open spec fn node_event_read(value: NodeMessage, ev: AppNodeEvent) -> bool {
    &&& ev.id.group == value.group_id
    &&& ev.id.node == value.node_id
    &&& match value.message.kind {
        MessageKind::Birth => ev.event matches NodeEvent::Birth(b)
            && nbirth_error(value.message.payload) is None && b.timestamp
            == value.message.payload.timestamp->0 && Some(b.bdseq) == spec_bdseq(
            value.message.payload.metrics@,
        ) && birth_details_of(value.message.payload.metrics@, b.metrics_details@),
        MessageKind::Death => ev.event matches NodeEvent::Death(d) && Some(d.bdseq)
            == spec_bdseq(value.message.payload.metrics@),
        _ => ev.event matches NodeEvent::Data(d) && sequenced_error(
            value.message.payload,
        ) is None && data_metrics_valid(value.message.payload.metrics@) && d.seq
            == value.message.payload.seq->0 as u8 && d.timestamp
            == value.message.payload.timestamp->0 && data_details_of(
            value.message.payload.metrics@,
            d.metrics_details@,
        ),
    }
}

/// `d` is what the node message `value`, of a kind an application reads, is
/// refused for.
pub open spec fn node_event_refused(value: NodeMessage, d: PayloadErrorDetails) -> bool {
    &&& d.node_id.group == value.group_id
    &&& d.node_id.node == value.node_id
    &&& d.device is None
    &&& match value.message.kind {
        MessageKind::Birth => Some(d.error) == nbirth_error(value.message.payload),
        MessageKind::Death => d.error is InvalidBdseq && spec_bdseq(
            value.message.payload.metrics@,
        ) is None,
        _ => (sequenced_error(value.message.payload) is Some || !data_metrics_valid(
            value.message.payload.metrics@,
        )) && d.error == (match sequenced_error(value.message.payload) {
            Some(e) => e,
            None => PayloadError::MetricError(PayloadMetricError),
        }),
    }
}

/// `ev` is what the device message `value`, of a kind an application
/// reads, is read as.
pub open spec fn device_event_read(value: DeviceMessage, ev: AppDeviceEvent) -> bool {
    &&& ev.id.group == value.group_id
    &&& ev.id.node == value.node_id
    &&& ev.name == value.device_id
    &&& match value.message.kind {
        MessageKind::Birth => ev.event matches DeviceEvent::Birth(b)
            && sequenced_error(value.message.payload) is None
            && birth_metrics_valid(value.message.payload.metrics@) && b.seq
            == value.message.payload.seq->0 as u8 && b.timestamp
            == value.message.payload.timestamp->0 && birth_details_of(
            value.message.payload.metrics@,
            b.metrics_details@,
        ),
        MessageKind::Death => ev.event matches DeviceEvent::Death(d)
            && sequenced_error(value.message.payload) is None && d.seq
            == value.message.payload.seq->0 as u8 && d.timestamp
            == value.message.payload.timestamp->0,
        _ => ev.event matches DeviceEvent::Data(d) && sequenced_error(
            value.message.payload,
        ) is None && data_metrics_valid(value.message.payload.metrics@) && d.seq
            == value.message.payload.seq->0 as u8 && d.timestamp
            == value.message.payload.timestamp->0 && data_details_of(
            value.message.payload.metrics@,
            d.metrics_details@,
        ),
    }
}

/// `d` is what the device message `value`, of a kind an application reads,
/// is refused for.
pub open spec fn device_event_refused(value: DeviceMessage, d: PayloadErrorDetails) -> bool {
    &&& d.node_id.group == value.group_id
    &&& d.node_id.node == value.node_id
    &&& d.device == Some(value.device_id)
    &&& match value.message.kind {
        MessageKind::Birth => (sequenced_error(value.message.payload) is Some
            || !birth_metrics_valid(value.message.payload.metrics@)) && d.error
            == (match sequenced_error(value.message.payload) {
            Some(e) => e,
            None => PayloadError::MetricError(PayloadMetricError),
        }),
        MessageKind::Death => Some(d.error) == sequenced_error(
            value.message.payload,
        ),
        _ => (sequenced_error(value.message.payload) is Some || !data_metrics_valid(
            value.message.payload.metrics@,
        )) && d.error == (match sequenced_error(value.message.payload) {
            Some(e) => e,
            None => PayloadError::MetricError(PayloadMetricError),
        }),
    }
}

impl AppNodeEvent {
    /// Reads a node message: births, deaths and data are read from their
    /// payloads; commands and other verbs are not application events.
    pub fn try_from(value: NodeMessage) -> (r: Result<Self, MessageTryFromError>)
        ensures
            !supported_kind(value.message.kind) ==> r is Err && r->Err_0 is UnsupportedVerb,
            supported_kind(value.message.kind) ==> match r {
                Ok(ev) => node_event_read(value, ev),
                Err(MessageTryFromError::PayloadError(d)) => node_event_refused(value, d),
                Err(MessageTryFromError::UnsupportedVerb) => false,
            },
    {
        let id = NodeIdentifier { group: value.group_id, node: value.node_id };
        let event = match value.message.kind {
            MessageKind::Birth => match NBirth::try_from(value.message.payload) {
                Ok(v) => NodeEvent::Birth(v),
                Err(e) => {
                    return Err(MessageTryFromError::PayloadError(PayloadErrorDetails::new(id, e)));
                },
            },
            MessageKind::Death => match NDeath::try_from(value.message.payload) {
                Ok(v) => NodeEvent::Death(v),
                Err(e) => {
                    return Err(MessageTryFromError::PayloadError(PayloadErrorDetails::new(id, e)));
                },
            },
            MessageKind::Cmd => return Err(MessageTryFromError::UnsupportedVerb),
            MessageKind::Data => match NData::try_from(value.message.payload) {
                Ok(v) => NodeEvent::Data(v),
                Err(e) => {
                    return Err(MessageTryFromError::PayloadError(PayloadErrorDetails::new(id, e)));
                },
            },
            MessageKind::Other(_) => return Err(MessageTryFromError::UnsupportedVerb),
        };
        Ok(AppNodeEvent { id, event })
    }
}

impl AppDeviceEvent {
    /// Reads a device message: births, deaths and data are read from their
    /// payloads; commands and other verbs are not application events.
    pub fn try_from(value: DeviceMessage) -> (r: Result<Self, MessageTryFromError>)
        ensures
            !supported_kind(value.message.kind) ==> r is Err && r->Err_0 is UnsupportedVerb,
            supported_kind(value.message.kind) ==> match r {
                Ok(ev) => device_event_read(value, ev),
                Err(MessageTryFromError::PayloadError(d)) => device_event_refused(value, d),
                Err(MessageTryFromError::UnsupportedVerb) => false,
            },
    {
        let id = NodeIdentifier { group: value.group_id, node: value.node_id };
        let name = value.device_id;
        let event = match value.message.kind {
            MessageKind::Birth => match DBirth::try_from(value.message.payload) {
                Ok(v) => DeviceEvent::Birth(v),
                Err(e) => {
                    return Err(
                        MessageTryFromError::PayloadError(
                            PayloadErrorDetails::new(id, e).with_device(name),
                        ),
                    );
                },
            },
            MessageKind::Death => match DDeath::try_from(value.message.payload) {
                Ok(v) => DeviceEvent::Death(v),
                Err(e) => {
                    return Err(
                        MessageTryFromError::PayloadError(
                            PayloadErrorDetails::new(id, e).with_device(name),
                        ),
                    );
                },
            },
            MessageKind::Cmd => return Err(MessageTryFromError::UnsupportedVerb),
            MessageKind::Data => match DData::try_from(value.message.payload) {
                Ok(v) => DeviceEvent::Data(v),
                Err(e) => {
                    return Err(
                        MessageTryFromError::PayloadError(
                            PayloadErrorDetails::new(id, e).with_device(name),
                        ),
                    );
                },
            },
            MessageKind::Other(_) => return Err(MessageTryFromError::UnsupportedVerb),
        };
        Ok(AppDeviceEvent { id, name, event })
    }
}

} // verus!
