//! Metrics an edge node publishes and metrics it receives in CMD messages.

use crate::eon::value::MetricValueType;
use crate::types::{MetaData, Metric, MetricId, MetricValue, Payload, PropertySet};
use vstd::prelude::*;

verus! {

/// Why metrics could not be published.
#[derive(Debug, PartialEq, Eq, Structural, Clone, Copy)]
pub enum PublishError {
    /// No metrics provided.
    NoMetrics,
    /// The node is offline.
    Offline,
    /// The node or device has not been birthed.
    UnBirthed,
}

/// A metric to be published, with its optional fields.
#[derive(Debug)]
pub struct PublishMetric {
    pub metric_identifier: MetricId,
    pub value: Option<MetricValue>,
    pub is_transient: Option<bool>,
    pub is_historical: Option<bool>,
    pub timestamp: u64,
    pub metadata: Option<MetaData>,
    pub properties: Option<PropertySet>,
}

impl PublishMetric {
    /// A metric for `metric_identifier` with `value`, stamped `timestamp`,
    /// carrying `metadata` (the value's publish metadata).
    pub fn new(
        metric_identifier: MetricId,
        value: Option<MetricValue>,
        metadata: Option<MetaData>,
        timestamp: u64,
    ) -> (r: Self)
        ensures
            r == (PublishMetric {
                metric_identifier,
                value,
                is_transient: None,
                is_historical: None,
                timestamp,
                metadata,
                properties: None,
            }),
    {
        Self {
            metric_identifier,
            metadata,
            value,
            is_transient: None,
            is_historical: None,
            properties: None,
            timestamp,
        }
    }

    /// Sets a custom timestamp for the metric.
    pub fn timestamp(self, timestamp: u64) -> (r: Self)
        ensures
            r == (PublishMetric { timestamp, ..self }),
    {
        PublishMetric { timestamp, ..self }
    }

    /// Marks the metric as transient or persistent.
    pub fn transient(self, is_transient: bool) -> (r: Self)
        ensures
            r == (PublishMetric { is_transient: Some(is_transient), ..self }),
    {
        PublishMetric { is_transient: Some(is_transient), ..self }
    }

    /// Marks the metric as a historical metric that does not represent a current value.
    pub fn historical(self, is_historical: bool) -> (r: Self)
        ensures
            r == (PublishMetric { is_historical: Some(is_historical), ..self }),
    {
        PublishMetric { is_historical: Some(is_historical), ..self }
    }

    /// Sets custom metadata for the metric.
    pub fn metadata(self, metadata: MetaData) -> (r: Self)
        ensures
            r == (PublishMetric { metadata: Some(metadata), ..self }),
    {
        PublishMetric { metadata: Some(metadata), ..self }
    }

    /// Sets custom properties for the metric.
    pub fn properties(self, properties: PropertySet) -> (r: Self)
        ensures
            r == (PublishMetric { properties: Some(properties), ..self }),
    {
        PublishMetric { properties: Some(properties), ..self }
    }

    /// The payload metric carrying this metric.
    pub open spec fn spec_metric(self) -> Metric {
        Metric {
            name: match self.metric_identifier {
                MetricId::Name(n) => Some(n),
                MetricId::Alias(_) => None,
            },
            alias: match self.metric_identifier {
                MetricId::Name(_) => None,
                MetricId::Alias(a) => Some(a),
            },
            timestamp: Some(self.timestamp),
            datatype: None,
            is_historical: self.is_historical,
            is_transient: self.is_transient,
            is_null: None,
            metadata: self.metadata,
            properties: self.properties,
            value: self.value,
        }
    }

    /// Converts into the payload metric carrying it.
    pub fn into_metric(self) -> (r: Metric)
        ensures
            r == self.spec_metric(),
            r.value == self.value,
            r.timestamp == Some(self.timestamp),
            r.metadata == self.metadata,
            r.properties == self.properties,
            self.metric_identifier matches MetricId::Alias(a) ==> r.alias == Some(a) && r.name is None,
            self.metric_identifier matches MetricId::Name(n) ==> r.name == Some(n) && r.alias is None,
    {
        let mut metric = Metric::new();
        match self.metric_identifier {
            MetricId::Name(name) => metric.name = Some(name),
            MetricId::Alias(alias) => metric.alias = Some(alias),
        }
        metric.metadata = self.metadata;
        metric.value = self.value;
        metric.timestamp = Some(self.timestamp);
        metric.properties = self.properties;
        metric.is_historical = self.is_historical;
        metric.is_transient = self.is_transient;
        metric
    }
}

/// The metrics are in order of their timestamps.
pub open spec fn sorted_by_timestamp(s: Seq<PublishMetric>) -> bool {
    forall|i: int, j: int| 0 <= i < j < s.len() ==> #[trigger] s[i].timestamp <= #[trigger] s[j].timestamp
}

/// Whether a metric has timestamp `t`.
pub open spec fn has_timestamp(t: u64) -> spec_fn(PublishMetric) -> bool {
    |m: PublishMetric| m.timestamp == t
}

/// The metrics of `s` with timestamp `t`, in their order in `s`.
pub open spec fn with_timestamp(s: Seq<PublishMetric>, t: u64) -> Seq<PublishMetric> {
    s.filter(has_timestamp(t))
}

/// Inserting `m` at `pos`, before metrics that all have later timestamps,
/// appends it to the metrics with its timestamp and leaves the others.
proof fn lemma_insert_before_later(b: Seq<PublishMetric>, pos: int, m: PublishMetric, t: u64)
    requires
        0 <= pos <= b.len(),
        forall|j: int| pos <= j < b.len() ==> #[trigger] b[j].timestamp > m.timestamp,
    ensures
        with_timestamp(b.take(pos).push(m) + b.skip(pos), t) == if m.timestamp == t {
            with_timestamp(b, t).push(m)
        } else {
            with_timestamp(b, t)
        },
{
    let p = has_timestamp(t);
    let front = b.take(pos);
    let back = b.skip(pos);
    assert(b =~= front + back);
    Seq::filter_distributes_over_add(front, back, p);
    Seq::filter_distributes_over_add(front.push(m), back, p);
    front.lemma_filter_push(m, p);
    if m.timestamp == t {
        assert(back.all(|x: PublishMetric| !p(x)));
        back.lemma_all_neg_filter_empty(p);
        assert(back.filter(p) =~= Seq::<PublishMetric>::empty());
        assert(front.filter(p).push(m) + back.filter(p) =~= front.filter(p).push(m));
        assert(front.filter(p) + back.filter(p) =~= front.filter(p));
    }
}

/// Sorts metrics by timestamp, keeping the order of metrics with equal
/// timestamps.
pub fn sort_by_timestamp(metrics: Vec<PublishMetric>) -> (r: Vec<PublishMetric>)
    ensures
        r@.to_multiset() == metrics@.to_multiset(),
        sorted_by_timestamp(r@),
        forall|t: u64| #[trigger] with_timestamp(r@, t) == with_timestamp(metrics@, t),
{
    let mut out: Vec<PublishMetric> = Vec::new();
    let ghost ms = metrics@;
    proof {
        ms.to_multiset_ensures();
        assert(out@ =~= ms.take(0));
    }
    for m in it: metrics.into_iter()
        invariant
            it.seq() == ms,
            out@.to_multiset() == ms.take(it.index() as int).to_multiset(),
            sorted_by_timestamp(out@),
            forall|t: u64| #[trigger] with_timestamp(out@, t) == with_timestamp(
                ms.take(it.index() as int),
                t,
            ),
    {
        let ghost k = it.index();
        assert(m == ms[k]);
        let mut pos = out.len();
        while pos > 0 && out[pos - 1].timestamp > m.timestamp
            invariant
                pos <= out@.len(),
                forall|j: int| pos <= j < out@.len() ==> #[trigger] out@[j].timestamp > m.timestamp,
            decreases pos,
        {
            pos = pos - 1;
        }
        let ghost before = out@;
        out.insert(pos, m);
        proof {
            assert(out@ =~= before.take(pos as int).push(m) + before.skip(pos as int));
            assert forall|t: u64| #[trigger] with_timestamp(out@, t) == with_timestamp(
                ms.take(k + 1),
                t,
            ) by {
                lemma_insert_before_later(before, pos as int, m, t);
                assert(ms.take(k + 1) =~= ms.take(k as int).push(m));
                ms.take(k as int).lemma_filter_push(m, has_timestamp(t));
            }
            assert(ms.take(k + 1) =~= ms.take(k as int).push(m));
            ms.take(k as int).to_multiset_ensures();
            ms.take(k + 1).to_multiset_ensures();
            vstd::seq_lib::lemma_multiset_commutative(before.take(pos as int).push(m), before.skip(pos as int));
            vstd::seq_lib::lemma_multiset_commutative(before.take(pos as int), before.skip(pos as int));
            assert(before =~= before.take(pos as int) + before.skip(pos as int));
            before.take(pos as int).to_multiset_ensures();
            assert forall|i: int, j: int| 0 <= i < j < out@.len() implies #[trigger] out@[i].timestamp <= #[trigger] out@[j].timestamp by {
                if j < pos {
                } else if j == pos {
                    if i < pos - 1 {
                        assert(before[i].timestamp <= before[pos - 1].timestamp);
                    }
                } else if i < pos {
                    assert(before[j - 1].timestamp > m.timestamp);
                } else if i == pos {
                    assert(before[j - 1].timestamp > m.timestamp);
                } else {
                    assert(before[i - 1].timestamp <= before[j - 1].timestamp);
                }
            }
        }
    }
    proof {
        assert(ms.take(ms.len() as int) =~= ms);
    }
    out
}

/// A token representing a birthed metric
///
/// Used to create a [PublishMetric] for publishing and match a [MessageMetric] identifier
#[derive(Debug)]
pub struct MetricToken {
    /// The unique identifier of the metric
    pub id: MetricId,
}

impl MetricToken {
    pub(crate) fn new(id: MetricId) -> (r: Self)
        ensures
            r == (MetricToken { id }),
    {
        Self { id }
    }

    /// A metric to publish for this token: `value`, with the metadata the
    /// value is published with, stamped `timestamp`.
    pub fn create_publish_metric<T: MetricValueType>(&self, value: Option<T>, timestamp: u64) -> (r:
        PublishMetric)
        ensures
            r == (PublishMetric {
                metric_identifier: self.id,
                value: match value {
                    Some(v) => Some(v.spec_value()),
                    None => None,
                },
                metadata: match value {
                    Some(v) => v.spec_publish_metadata(),
                    None => None,
                },
                is_transient: None,
                is_historical: None,
                timestamp,
                properties: None,
            }),
    {
        let (v, metadata) = match value {
            Some(v) => {
                let metadata = v.publish_metadata();
                (Some(v.into_metric_value()), metadata)
            },
            None => (None, None),
        };
        PublishMetric::new(self.id.copied(), v, metadata, timestamp)
    }
}

/// A metric from a message
#[derive(Debug)]
pub struct MessageMetric {
    /// The unique identifier of the metric
    pub id: MetricId,
    pub timestamp: Option<u64>,
    pub value: Option<MetricValue>,
    pub properties: Option<PropertySet>,
}

/// The metric a payload metric of a CMD message is read as, if it is well
/// formed: it carries an alias or a name, and a value or a true null marker
/// (then its value is absent).
pub open spec fn spec_message_metric(m: Metric) -> Option<MessageMetric> {
    let id = match m.alias {
        Some(a) => Some(MetricId::Alias(a)),
        None => match m.name {
            Some(n) => Some(MetricId::Name(n)),
            None => None,
        },
    };
    if id is None {
        None
    } else if m.value is None && m.is_null != Some(true) {
        None
    } else {
        Some(MessageMetric { id: id->0, timestamp: m.timestamp, value: m.value, properties: None })
    }
}

/// Law: the payload metric of a published metric carries its value,
/// timestamp, metadata and properties whatever identifies it, and is
/// identified by the metric's alias or name alone.
pub proof fn lemma_published_metric_carries_value(m: PublishMetric)
    ensures
        m.spec_metric().value == m.value,
        m.spec_metric().timestamp == Some(m.timestamp),
        m.spec_metric().metadata == m.metadata,
        m.spec_metric().properties == m.properties,
        m.metric_identifier matches MetricId::Alias(a) ==> m.spec_metric().alias == Some(a)
            && m.spec_metric().name is None,
        m.metric_identifier matches MetricId::Name(n) ==> m.spec_metric().name == Some(n)
            && m.spec_metric().alias is None,
{
}

/// Law: a command metric is read when it has an alias or a name and a
/// value or a true null marker; it is then read with its own value and
/// timestamp, whatever identifies it, by alias when it has one, else by name.
pub proof fn lemma_command_metric_keeps_value(m: Metric)
    ensures
        spec_message_metric(m) is Some <==> (m.alias is Some || m.name is Some) && (m.value is Some
            || m.is_null == Some(true)),
        spec_message_metric(m) matches Some(mm) ==> mm.value == m.value && mm.timestamp
            == m.timestamp,
        spec_message_metric(m) matches Some(mm) ==> (m.alias matches Some(a) ==> mm.id
            == MetricId::Alias(a)),
        spec_message_metric(m) matches Some(mm) ==> (m.alias is None ==> mm.id == MetricId::Name(
            m.name->0,
        )),
{
}

impl MessageMetric {
    /// Reads a payload metric of a CMD message.
    pub fn try_from(value: Metric) -> (r: Option<Self>)
        ensures
            r == spec_message_metric(value),
            r is Some <==> (value.alias is Some || value.name is Some) && (value.value is Some
                || value.is_null == Some(true)),
            r matches Some(mm) ==> mm.value == value.value && mm.timestamp == value.timestamp,
            r matches Some(mm) ==> (value.alias matches Some(a) ==> mm.id == MetricId::Alias(a)),
            r matches Some(mm) ==> (value.alias is None ==> mm.id == MetricId::Name(value.name->0)),
    {
        let id = if let Some(alias) = value.alias {
            MetricId::Alias(alias)
        } else if let Some(name) = value.name {
            MetricId::Name(name)
        } else {
            return None;
        };
        let metric_value = if value.value.is_some() {
            value.value
        } else if let Some(is_null) = value.is_null {
            if !is_null {
                return None;
            }
            None
        } else {
            return None;
        };
        Some(MessageMetric { id, timestamp: value.timestamp, value: metric_value, properties: None })
    }
}

/// A collection of metrics from a message
#[derive(Debug)]
pub struct MessageMetrics {
    /// The timestamp of the payload
    pub timestamp: u64,
    metrics: Vec<Metric>,
}

/// The well formed metrics among `ms`, in order.
pub open spec fn well_formed_metrics(ms: Seq<Metric>) -> Seq<MessageMetric>
    decreases ms.len(),
{
    if ms.len() == 0 {
        Seq::empty()
    } else {
        let rest = well_formed_metrics(ms.drop_last());
        match spec_message_metric(ms.last()) {
            Some(m) => rest.push(m),
            None => rest,
        }
    }
}

impl MessageMetrics {
    /// The timestamp of the payload.
    pub closed spec fn spec_timestamp(&self) -> u64 {
        self.timestamp
    }

    /// The payload metrics.
    pub closed spec fn spec_metrics(&self) -> Seq<Metric> {
        self.metrics@
    }

    /// Reads a CMD payload: it must carry a timestamp.
    pub fn try_from(value: Payload) -> (r: Option<Self>)
        ensures
            r is Some <==> value.timestamp is Some,
            r matches Some(m) ==> m.spec_timestamp() == value.timestamp->0 && m.spec_metrics()
                == value.metrics@,
    {
        let timestamp = match value.timestamp {
            Some(timestamp) => timestamp,
            None => return None,
        };
        Some(MessageMetrics { timestamp, metrics: value.metrics })
    }

    /// The number of metrics in the message.
    pub fn len(&self) -> (r: usize)
        ensures
            r == self.spec_metrics().len(),
    {
        self.metrics.len()
    }

    /// Whether the message carries no metrics.
    pub fn is_empty(&self) -> (r: bool)
        ensures
            r == (self.spec_metrics().len() == 0),
    {
        self.metrics.len() == 0
    }

    /// The well formed metrics of the message, in order; badly formed ones
    /// are skipped.
    pub fn into_message_metrics(self) -> (r: Vec<MessageMetric>)
        ensures
            r@ == well_formed_metrics(self.spec_metrics()),
    {
        let metrics = self.metrics;
        let ghost ms = metrics@;
        let mut out: Vec<MessageMetric> = Vec::new();
        for m in it: metrics.into_iter()
            invariant
                it.seq() == ms,
                out@ == well_formed_metrics(ms.take(it.index() as int)),
        {
            let ghost k = it.index();
            assert(m == ms[k]);
            assert(ms.take(k + 1).drop_last() =~= ms.take(k as int));
            match MessageMetric::try_from(m) {
                Some(mm) => out.push(mm),
                None => {},
            }
        }
        assert(ms.take(ms.len() as int) =~= ms);
        out
    }
}

} // verus!
