//! Metrics as an application sees them: details read from birth and data
//! payloads, and metrics it publishes in CMD messages.

use crate::strings::str_eq;
use crate::types::{
    lemma_datatype_code_round_trip, DataType, MetaData, Metric, MetricId, MetricValue, PropertySet,
    BDSEQ, DATATYPE_CODES,
};
use vstd::prelude::*;

verus! {

/// Represents a metric value to be published
pub struct PublishMetric {
    pub metric_identifier: MetricId,
    pub value: MetricValue,
    pub timestamp: Option<u64>,
}

impl PublishMetric {
    /// Creates a new metric for publishing with the specified identifier and value.
    pub fn new(metric_identifier: MetricId, value: MetricValue) -> (r: Self)
        ensures
            r == (PublishMetric { metric_identifier, value, timestamp: None }),
    {
        Self { metric_identifier, value, timestamp: None }
    }

    /// Sets a timestamp for the published metric
    pub fn timestamp(self, timestamp: u64) -> (r: Self)
        ensures
            r == (PublishMetric { timestamp: Some(timestamp), ..self }),
    {
        PublishMetric { timestamp: Some(timestamp), ..self }
    }

    /// The payload metric for this metric: its identifier, value and timestamp.
    pub open spec fn spec_metric(self) -> Metric {
        Metric {
            name: match self.metric_identifier {
                MetricId::Name(n) => Some(n),
                MetricId::Alias(_) => None,
            },
            alias: match self.metric_identifier {
                MetricId::Name(_) => None,
                MetricId::Alias(a) => Some(a),
            },
            value: Some(self.value),
            timestamp: self.timestamp,
            ..Metric::spec_empty()
        }
    }

    /// Converts into the payload metric that carries it.
    pub fn into_metric(self) -> (r: Metric)
        ensures
            r == self.spec_metric(),
    {
        let mut metric = Metric::new();
        match self.metric_identifier {
            MetricId::Name(name) => metric.name = Some(name),
            MetricId::Alias(alias) => metric.alias = Some(alias),
        }
        metric.value = Some(self.value);
        metric.timestamp = self.timestamp;
        metric
    }
}

/// Information about a metric provided from a birth message
#[derive(Debug)]
pub struct MetricBirthDetails {
    /// The name of the metric
    pub name: String,
    /// An optional alias. If set, all future CMD publishes should use this value when referring to the metric.
    pub alias: Option<u64>,
    /// The datatype of the metric.
    pub datatype: DataType,
}

impl MetricBirthDetails {
    fn new(name: String, alias: Option<u64>, datatype: DataType) -> (r: Self)
        ensures
            r == (MetricBirthDetails { name, alias, datatype }),
    {
        Self { name, alias, datatype }
    }

    /// The identifier data messages use for this metric: its alias if it has one, else its name.
    pub fn get_metric_id(&self) -> (r: MetricId)
        ensures
            r == (match self.alias {
                Some(a) => MetricId::Alias(a),
                None => MetricId::Name(self.name),
            }),
    {
        match self.alias {
            Some(a) => MetricId::Alias(a),
            None => MetricId::Name(self.name.clone()),
        }
    }
}

/// Information about a metric from a message
#[derive(Debug)]
pub struct MetricDetails {
    /// The value of the metric
    pub value: Option<MetricValue>,
    pub properties: Option<PropertySet>,
    pub metadata: Option<MetaData>,
    /// The timestamp associated with the value of the metric
    pub timestamp: u64,
    /// Is the metric a historical metric
    pub is_historical: bool,
    /// Should the metric be persisted
    pub is_transient: bool,
}

/// A metric of a payload could not be read.
#[derive(Debug, PartialEq, Eq, Structural)]
pub struct PayloadMetricError;

/// A property set whose keys and values pair up.
pub open spec fn properties_valid(p: Option<PropertySet>) -> bool {
    p matches Some(ps) ==> ps.keys@.len() == ps.values@.len()
}

/// The details a metric of a message carries, if it is well formed: it has a
/// timestamp, a value or a null marker, and properties that pair up.
pub open spec fn spec_metric_details(m: Metric) -> Option<MetricDetails> {
    if m.timestamp is None {
        None
    } else if m.value is None && m.is_null != Some(true) {
        None
    } else if !properties_valid(m.properties) {
        None
    } else {
        Some(
            MetricDetails {
                value: m.value,
                properties: m.properties,
                metadata: m.metadata,
                timestamp: m.timestamp->0,
                is_historical: m.is_historical.unwrap_or(false),
                is_transient: m.is_transient.unwrap_or(false),
            },
        )
    }
}

/// Law: a metric is read when it has a timestamp, a value or a true null
/// marker, and valid properties; it is then read with its own value (absent
/// only for a null marker), timestamp, properties and metadata, and as
/// historical or transient exactly when it says so.
pub proof fn lemma_metric_details_keep_value(m: Metric)
    ensures
        spec_metric_details(m) is Some <==> m.timestamp is Some && (m.value is Some || m.is_null
            == Some(true)) && properties_valid(m.properties),
        spec_metric_details(m) matches Some(d) ==> d.value == m.value && d.timestamp
            == m.timestamp->0 && d.properties == m.properties && d.metadata == m.metadata,
        spec_metric_details(m) matches Some(d) ==> (d.is_historical <==> m.is_historical == Some(
            true)) && (d.is_transient <==> m.is_transient == Some(true)),
{
}

/// How a data message identifies a metric: by alias when it has one, else by name.
pub open spec fn spec_metric_id(m: Metric) -> Option<MetricId> {
    match m.alias {
        Some(a) => Some(MetricId::Alias(a)),
        None => match m.name {
            Some(n) => Some(MetricId::Name(n)),
            None => None,
        },
    }
}

/// What a birth message says of a metric, if it has a known data type and a name.
pub open spec fn spec_birth_details(m: Metric) -> Option<MetricBirthDetails> {
    match (m.datatype, m.name) {
        (Some(code), Some(name)) => if code < DATATYPE_CODES {
            Some(
                MetricBirthDetails {
                    name,
                    alias: m.alias,
                    datatype: choose|d: DataType| d.spec_code() == code,
                },
            )
        } else {
            None
        },
        _ => None,
    }
}

/// Law: a birth metric is read when it has a name and a known data type
/// code; it is then read with its own name and alias, and with the data type
/// whose wire code it carries.
pub proof fn lemma_birth_details_keep_fields(m: Metric)
    ensures
        spec_birth_details(m) is Some <==> m.name is Some && m.datatype is Some && m.datatype->0
            < DATATYPE_CODES,
        spec_birth_details(m) matches Some(b) ==> b.name == m.name->0 && b.alias == m.alias
            && b.datatype.spec_code() == m.datatype->0,
        spec_metric_id(m) matches Some(id) ==> (m.alias matches Some(a) ==> id == MetricId::Alias(a))
            && (m.alias is None ==> id == MetricId::Name(m.name->0)),
        spec_metric_id(m) is None <==> m.alias is None && m.name is None,
{
    if let (Some(code), Some(_)) = (m.datatype, m.name) {
        if code < DATATYPE_CODES {
            crate::types::lemma_datatype_code_exists(code);
        }
    }
}

/// Every metric of a data message carries an identifier and well formed details.
pub open spec fn data_metrics_valid(ms: Seq<Metric>) -> bool {
    forall|i: int|
        0 <= i < ms.len() ==> #[trigger] spec_metric_id(ms[i]) is Some && spec_metric_details(
            ms[i],
        ) is Some
}

/// The name a metric carries, or the empty name.
pub open spec fn metric_name(m: Metric) -> Seq<char> {
    match m.name {
        Some(n) => n@,
        None => Seq::empty(),
    }
}

/// No two metrics share a name, and no two share an alias.
pub open spec fn birth_names_unique(ms: Seq<Metric>) -> bool {
    forall|i: int, j: int|
        0 <= i < j < ms.len() ==> metric_name(#[trigger] ms[i]) != metric_name(#[trigger] ms[j])
            && (ms[i].alias is Some ==> ms[i].alias != ms[j].alias)
}

/// Every metric of a birth message carries birth details and well formed
/// details, and the metrics' names and aliases are unique.
pub open spec fn birth_metrics_valid(ms: Seq<Metric>) -> bool {
    &&& forall|i: int|
        0 <= i < ms.len() ==> #[trigger] spec_birth_details(ms[i]) is Some && spec_metric_details(
            ms[i],
        ) is Some
    &&& birth_names_unique(ms)
}

/// Whether a metric read earlier (in `out`) has `name`, or has `alias`.
fn clashes(out: &Vec<(MetricBirthDetails, MetricDetails)>, name: &String, alias: Option<u64>) -> (r:
    bool)
    ensures
        r == exists|i: int|
            0 <= i < out@.len() && ((#[trigger] out@[i]).0.name@ == name@ || (alias is Some
                && out@[i].0.alias == alias)),
{
    let mut i: usize = 0;
    while i < out.len()
        invariant
            i <= out@.len(),
            forall|j: int|
                0 <= j < i ==> !((#[trigger] out@[j]).0.name@ == name@ || (alias is Some
                    && out@[j].0.alias == alias)),
        decreases out@.len() - i,
    {
        if str_eq(out[i].0.name.as_str(), name.as_str()) {
            return true;
        }
        if alias.is_some() && out[i].0.alias == alias {
            return true;
        }
        i = i + 1;
    }
    false
}

/// Reads the details of a metric of a message.
pub(crate) fn metric_details_from_payload_metric(m: Metric) -> (r: Result<
    MetricDetails,
    PayloadMetricError,
>)
    ensures
        r is Ok <==> spec_metric_details(m) is Some,
        r matches Ok(d) ==> spec_metric_details(m) == Some(d),
        r matches Ok(d) ==> d.value == m.value && d.timestamp == m.timestamp->0 && d.properties
            == m.properties && d.metadata == m.metadata,
{
    let timestamp = match m.timestamp {
        Some(ts) => ts,
        None => return Err(PayloadMetricError),
    };
    let value = if m.value.is_some() {
        m.value
    } else if let Some(is_null) = m.is_null {
        if is_null {
            None
        } else {
            return Err(PayloadMetricError);
        }
    } else {
        return Err(PayloadMetricError);
    };
    let properties = match m.properties {
        Some(ps) => {
            if ps.keys.len() != ps.values.len() {
                return Err(PayloadMetricError);
            }
            Some(ps)
        },
        None => None,
    };
    let is_historical = match m.is_historical {
        Some(b) => b,
        None => false,
    };
    let is_transient = match m.is_transient {
        Some(b) => b,
        None => false,
    };
    Ok(MetricDetails { value, properties, metadata: m.metadata, timestamp, is_historical, is_transient })
}

/// Reads the identifier and details of each metric of a data message.
pub fn get_metric_id_and_details_from_payload_metrics(metrics: Vec<Metric>) -> (r: Result<
    Vec<(MetricId, MetricDetails)>,
    PayloadMetricError,
>)
    ensures
        r is Ok <==> data_metrics_valid(metrics@),
        r matches Ok(v) ==> v@.len() == metrics@.len() && forall|i: int|
            0 <= i < v@.len() ==> Some(#[trigger] v@[i].0) == spec_metric_id(metrics@[i])
                && Some(v@[i].1) == spec_metric_details(metrics@[i]),
{
    let mut out: Vec<(MetricId, MetricDetails)> = Vec::new();
    let ghost ms = metrics@;
    for x in it: metrics.into_iter()
        invariant
            it.seq() == ms,
            out@.len() == it.index(),
            forall|i: int| 0 <= i < it.index() ==> #[trigger] spec_metric_id(ms[i]) is Some
                && spec_metric_details(ms[i]) is Some,
            forall|i: int|
                0 <= i < out@.len() ==> Some(#[trigger] out@[i].0) == spec_metric_id(ms[i])
                    && Some(out@[i].1) == spec_metric_details(ms[i]),
    {
        let ghost k = it.index();
        assert(x == ms[k]);
        let id = if let Some(alias) = x.alias {
            MetricId::Alias(alias)
        } else if let Some(name) = &x.name {
            MetricId::Name(name.clone())
        } else {
            assert(spec_metric_id(ms[k]) is None);
            return Err(PayloadMetricError);
        };
        let details = match metric_details_from_payload_metric(x) {
            Ok(d) => d,
            Err(e) => {
                assert(spec_metric_details(ms[k]) is None);
                assert(!(spec_metric_id(ms[k]) is Some && spec_metric_details(ms[k]) is Some));
                return Err(e);
            },
        };
        out.push((id, details));
    }
    Ok(out)
}

/// Reads the birth details and details of each metric of a birth message.
pub fn get_metric_birth_details_from_birth_metrics(metrics: Vec<Metric>) -> (r: Result<
    Vec<(MetricBirthDetails, MetricDetails)>,
    PayloadMetricError,
>)
    ensures
        r is Ok <==> birth_metrics_valid(metrics@),
        r matches Ok(v) ==> v@.len() == metrics@.len() && forall|i: int|
            0 <= i < v@.len() ==> Some(#[trigger] v@[i].0) == spec_birth_details(metrics@[i])
                && Some(v@[i].1) == spec_metric_details(metrics@[i]),
{
    let mut out: Vec<(MetricBirthDetails, MetricDetails)> = Vec::new();
    let ghost ms = metrics@;
    for x in it: metrics.into_iter()
        invariant
            it.seq() == ms,
            out@.len() == it.index(),
            forall|i: int| 0 <= i < it.index() ==> #[trigger] spec_birth_details(ms[i]) is Some
                && spec_metric_details(ms[i]) is Some,
            forall|i: int|
                0 <= i < out@.len() ==> Some(#[trigger] out@[i].0) == spec_birth_details(ms[i])
                    && Some(out@[i].1) == spec_metric_details(ms[i]),
            birth_names_unique(ms.take(it.index() as int)),
    {
        let ghost k = it.index();
        assert(x == ms[k]);
        let datatype = match x.datatype {
            Some(code) => match DataType::from_code(code) {
                Some(d) => d,
                None => {
                    assert(spec_birth_details(ms[k]) is None);
                    return Err(PayloadMetricError);
                },
            },
            None => {
                assert(spec_birth_details(ms[k]) is None);
                return Err(PayloadMetricError);
            },
        };
        let name = match &x.name {
            Some(n) => n.clone(),
            None => {
                assert(spec_birth_details(ms[k]) is None);
                return Err(PayloadMetricError);
            },
        };
        proof {
            lemma_datatype_code_round_trip(datatype, choose|d: DataType| d.spec_code() == x.datatype->0);
        }
        if clashes(&out, &name, x.alias) {
            proof {
                let i = choose|i: int|
                    0 <= i < out@.len() && ((#[trigger] out@[i]).0.name@ == name@ || (x.alias is Some
                        && out@[i].0.alias == x.alias));
                assert(Some(out@[i].0) == spec_birth_details(ms[i]));
                assert(metric_name(ms[i]) == out@[i].0.name@);
                assert(metric_name(ms[k as int]) == name@);
                assert(!birth_names_unique(ms));
            }
            return Err(PayloadMetricError);
        }
        proof {
            assert forall|i: int, j: int|
                0 <= i < j < ms.take(k + 1).len() implies metric_name(
                #[trigger] ms.take(k + 1)[i],
            ) != metric_name(#[trigger] ms.take(k + 1)[j]) && (ms.take(k + 1)[i].alias is Some
                ==> ms.take(k + 1)[i].alias != ms.take(k + 1)[j].alias) by {
                if j == k {
                    assert(Some(out@[i].0) == spec_birth_details(ms[i]));
                    assert(!((out@[i]).0.name@ == name@ || (x.alias is Some && out@[i].0.alias
                        == x.alias)));
                } else {
                    assert(ms.take(k as int)[i] == ms.take(k + 1)[i]);
                    assert(ms.take(k as int)[j] == ms.take(k + 1)[j]);
                }
            }
        }
        let birth_details = MetricBirthDetails::new(name, x.alias, datatype);
        let details = match metric_details_from_payload_metric(x) {
            Ok(d) => d,
            Err(e) => {
                assert(spec_metric_details(ms[k]) is None);
                assert(!(spec_birth_details(ms[k]) is Some && spec_metric_details(ms[k]) is Some));
                return Err(e);
            },
        };
        out.push((birth_details, details));
    }
    proof {
        assert(ms.take(ms.len() as int) =~= ms);
    }
    Ok(out)
}

/// The value of the birth/death sequence metric, read as a signed 64 bit
/// integer: bdSeq is an Int64 metric and travels as a long value.
pub open spec fn spec_value_as_i64(v: MetricValue) -> Option<i64> {
    match v {
        MetricValue::LongValue(u) => Some(u as i64),
        _ => None,
    }
}

/// The value of the first metric named bdSeq, if that metric carries a long
/// value between 0 and 255.
pub open spec fn spec_bdseq(ms: Seq<Metric>) -> Option<u8>
    decreases ms.len(),
{
    if ms.len() == 0 {
        None
    } else if ms[0].name matches Some(n) && n@ == BDSEQ@ {
        match ms[0].value {
            Some(v) => match spec_value_as_i64(v) {
                Some(x) => if 0 <= x <= 255 {
                    Some(x as u8)
                } else {
                    None
                },
                None => None,
            },
            None => None,
        }
    } else {
        spec_bdseq(ms.drop_first())
    }
}

/// The metric is named bdSeq.
pub open spec fn names_bdseq(m: Metric) -> bool {
    m.name matches Some(n) && n@ == BDSEQ@
}

/// Law: the bdSeq of a birth or death is read from the first metric named
/// bdSeq: it is that metric's long value when the value is at most 255, and
/// there is none when that metric carries anything else, or when no metric
/// is named bdSeq.
pub proof fn lemma_bdseq_from_first_bdseq_metric(ms: Seq<Metric>, i: int)
    requires
        0 <= i < ms.len(),
        names_bdseq(ms[i]),
        forall|j: int| 0 <= j < i ==> !names_bdseq(#[trigger] ms[j]),
    ensures
        spec_bdseq(ms) == (match ms[i].value {
            Some(MetricValue::LongValue(u)) => if u <= 255 {
                Some(u as u8)
            } else {
                None::<u8>
            },
            _ => None::<u8>,
        }),
    decreases i,
{
    if i == 0 {
        if let Some(MetricValue::LongValue(u)) = ms[0].value {
            assert((u as i64) >= 0 && (u as i64) <= 255 ==> u <= 255) by (bit_vector);
            assert(u <= 255 ==> (u as i64) == u) by (bit_vector);
            assert(u <= 255 ==> ((u as i64) as u8) == (u as u8)) by (bit_vector);
        }
    } else {
        assert(!names_bdseq(ms[0]));
        let rest = ms.drop_first();
        assert forall|j: int| 0 <= j < i - 1 implies !names_bdseq(#[trigger] rest[j]) by {
            assert(rest[j] == ms[j + 1]);
        }
        lemma_bdseq_from_first_bdseq_metric(rest, i - 1);
    }
}

/// Law: metrics none of which is named bdSeq carry no bdSeq.
pub proof fn lemma_no_bdseq_metric(ms: Seq<Metric>)
    requires
        forall|j: int| 0 <= j < ms.len() ==> !names_bdseq(#[trigger] ms[j]),
    ensures
        spec_bdseq(ms) is None,
    decreases ms.len(),
{
    if ms.len() > 0 {
        assert(!names_bdseq(ms[0]));
        let rest = ms.drop_first();
        assert forall|j: int| 0 <= j < rest.len() implies !names_bdseq(#[trigger] rest[j]) by {
            assert(rest[j] == ms[j + 1]);
        }
        lemma_no_bdseq_metric(rest);
    }
}

/// Reads the birth/death sequence number from the metrics of a birth or
/// death payload.
pub fn bdseq_from_payload_metrics(metrics: &Vec<Metric>) -> (r: Result<u8, PayloadMetricError>)
    ensures
        r is Ok <==> spec_bdseq(metrics@) is Some,
        r matches Ok(b) ==> spec_bdseq(metrics@) == Some(b),
{
    let mut i: usize = 0;
    assert(metrics@.subrange(0, metrics@.len() as int) =~= metrics@);
    while i < metrics.len()
        invariant
            i <= metrics@.len(),
            spec_bdseq(metrics@) == spec_bdseq(metrics@.subrange(i as int, metrics@.len() as int)),
        decreases metrics@.len() - i,
    {
        let x = &metrics[i];
        let rest = Ghost(metrics@.subrange(i as int, metrics@.len() as int));
        assert(rest@[0] == x);
        let is_bdseq = match &x.name {
            Some(name) => str_eq(name.as_str(), BDSEQ),
            None => false,
        };
        if is_bdseq {
            return match &x.value {
                Some(MetricValue::LongValue(u)) => {
                    let v = #[verifier::truncate] (*u as i64);
                    if v > 255 || v < 0 {
                        Err(PayloadMetricError)
                    } else {
                        Ok(v as u8)
                    }
                },
                _ => Err(PayloadMetricError),
            };
        }
        assert(rest@.drop_first() =~= metrics@.subrange(i + 1, metrics@.len() as int));
        i = i + 1;
    }
    Err(PayloadMetricError)
}

} // verus!
