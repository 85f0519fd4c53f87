//! The metrics of a node's or device's birth message, and the aliases they
//! are given.

use crate::eon::metric::MetricToken;
use crate::eon::value::MetricValueType;
use crate::strings::str_eq;
use crate::types::{DataType, MetaData, Metric, MetricId, PropertySet};
use std::collections::hash_map::DefaultHasher;
use vstd::std_specs::hash::DefaultHasherAdditionalSpecFns;
use std::hash::{Hash, Hasher};
use vstd::prelude::*;

verus! {

/// Why a metric could not be registered for a birth message.
#[derive(Debug, PartialEq, Eq, Structural, Clone, Copy)]
pub enum BirthMetricError {
    /// A metric with that name is already registered.
    DuplicateMetric,
    /// The value type does not support that datatype.
    MetricValueDatatypeMismatch,
    /// The datatype is unsupported.
    UnsupportedDatatype,
    /// A value was expected but not provided.
    ValueNotProvided,
    /// Every alias at or above the one the metric's name hashes to is taken.
    AliasesExhausted,
}

/// Details about a metric to be included in a birth message
pub struct BirthMetricDetails<T> {
    name: String,
    use_alias: bool,
    datatype: DataType,
    initial_value: Option<T>,
    metadata: Option<MetaData>,
    properties: Option<PropertySet>,
    timestamp: u64,
}

impl<T: MetricValueType> BirthMetricDetails<T> {
    pub open spec fn spec_name(&self) -> Seq<char> {
        self.spec_name_string()@
    }

    pub closed spec fn spec_use_alias(&self) -> bool {
        self.use_alias
    }

    pub closed spec fn spec_datatype(&self) -> DataType {
        self.datatype
    }

    pub closed spec fn spec_initial_value(&self) -> Option<T> {
        self.initial_value
    }

    pub closed spec fn spec_metadata(&self) -> Option<MetaData> {
        self.metadata
    }

    pub closed spec fn spec_properties(&self) -> Option<PropertySet> {
        self.properties
    }

    pub closed spec fn spec_timestamp(&self) -> u64 {
        self.timestamp
    }

    fn new(name: String, initial_value: Option<T>, datatype: DataType, timestamp: u64) -> (r: Self)
        ensures
            r.spec_name() == name@,
            r.spec_use_alias(),
            r.spec_datatype() == datatype,
            r.spec_initial_value() == initial_value,
            r.spec_metadata() is None,
            r.spec_properties() is None,
            r.spec_timestamp() == timestamp,
    {
        Self {
            name,
            use_alias: true,
            datatype,
            initial_value,
            metadata: None,
            properties: None,
            timestamp,
        }
    }

    /// A metric named `name` with `initial_value`, of the value's default
    /// datatype, stamped `timestamp`, that will be given an alias.
    pub fn new_with_initial_value(name: String, initial_value: T, timestamp: u64) -> (r: Self)
        ensures
            r.spec_name() == name@,
            r.spec_use_alias(),
            r.spec_datatype() == T::spec_default_datatype(),
            r.spec_initial_value() == Some(initial_value),
            r.spec_metadata() is None,
            r.spec_properties() is None,
            r.spec_timestamp() == timestamp,
    {
        Self::new(name, Some(initial_value), T::default_datatype(), timestamp)
    }

    fn new_with_explicit_datatype(
        name: String,
        datatype: DataType,
        initial_value: Option<T>,
        timestamp: u64,
    ) -> (r: Result<Self, BirthMetricError>)
        ensures
            r is Err <==> !T::spec_supports(datatype),
            r matches Err(e) ==> e == BirthMetricError::MetricValueDatatypeMismatch,
            r matches Ok(d) ==> d.spec_name() == name@ && d.spec_use_alias() && d.spec_datatype()
                == datatype && d.spec_initial_value() == initial_value && d.spec_metadata() is None
                && d.spec_properties() is None && d.spec_timestamp() == timestamp,
    {
        if !T::supports_datatype(datatype) {
            return Err(BirthMetricError::MetricValueDatatypeMismatch);
        }
        Ok(Self::new(name, initial_value, datatype, timestamp))
    }

    /// A metric named `name` with `initial_value` published as `datatype`,
    /// which the value type must support.
    pub fn new_with_initial_value_explicit_type(
        name: String,
        initial_value: T,
        datatype: DataType,
        timestamp: u64,
    ) -> (r: Result<Self, BirthMetricError>)
        ensures
            r is Err <==> !T::spec_supports(datatype),
            r matches Err(e) ==> e == BirthMetricError::MetricValueDatatypeMismatch,
            r matches Ok(d) ==> d.spec_name() == name@ && d.spec_use_alias() && d.spec_datatype()
                == datatype && d.spec_initial_value() == Some(initial_value) && d.spec_metadata() is None
                && d.spec_properties() is None && d.spec_timestamp() == timestamp,
    {
        Self::new_with_explicit_datatype(name, datatype, Some(initial_value), timestamp)
    }

    /// A metric named `name` without a value, published as `datatype`,
    /// which the value type must support.
    pub fn new_without_initial_value(name: String, datatype: DataType, timestamp: u64) -> (r:
        Result<Self, BirthMetricError>)
        ensures
            r is Err <==> !T::spec_supports(datatype),
            r matches Err(e) ==> e == BirthMetricError::MetricValueDatatypeMismatch,
            r matches Ok(d) ==> d.spec_name() == name@ && d.spec_use_alias() && d.spec_datatype()
                == datatype && d.spec_initial_value() is None && d.spec_metadata() is None
                && d.spec_properties() is None && d.spec_timestamp() == timestamp,
    {
        Self::new_with_explicit_datatype(name, datatype, None, timestamp)
    }

    /// Whether the metric is given an alias.
    pub fn use_alias(self, use_alias: bool) -> (r: Self)
        ensures
            r.spec_name() == self.spec_name(),
            r.spec_use_alias() == use_alias,
            r.spec_datatype() == self.spec_datatype(),
            r.spec_initial_value() == self.spec_initial_value(),
            r.spec_metadata() == self.spec_metadata(),
            r.spec_properties() == self.spec_properties(),
            r.spec_timestamp() == self.spec_timestamp(),
    {
        BirthMetricDetails { use_alias, ..self }
    }

    /// Sets the timestamp of the metric.
    pub fn with_timestamp(self, timestamp: u64) -> (r: Self)
        ensures
            r.spec_name() == self.spec_name(),
            r.spec_use_alias() == self.spec_use_alias(),
            r.spec_datatype() == self.spec_datatype(),
            r.spec_initial_value() == self.spec_initial_value(),
            r.spec_metadata() == self.spec_metadata(),
            r.spec_properties() == self.spec_properties(),
            r.spec_timestamp() == timestamp,
    {
        BirthMetricDetails { timestamp, ..self }
    }

    /// Sets the metadata of the metric.
    pub fn with_metadata(self, metadata: MetaData) -> (r: Self)
        ensures
            r.spec_name() == self.spec_name(),
            r.spec_use_alias() == self.spec_use_alias(),
            r.spec_datatype() == self.spec_datatype(),
            r.spec_initial_value() == self.spec_initial_value(),
            r.spec_metadata() == Some(metadata),
            r.spec_properties() == self.spec_properties(),
            r.spec_timestamp() == self.spec_timestamp(),
    {
        BirthMetricDetails { metadata: Some(metadata), ..self }
    }

    /// Sets the properties of the metric.
    pub fn with_properties(self, properties: PropertySet) -> (r: Self)
        ensures
            r.spec_name() == self.spec_name(),
            r.spec_use_alias() == self.spec_use_alias(),
            r.spec_datatype() == self.spec_datatype(),
            r.spec_initial_value() == self.spec_initial_value(),
            r.spec_metadata() == self.spec_metadata(),
            r.spec_properties() == Some(properties),
            r.spec_timestamp() == self.spec_timestamp(),
    {
        BirthMetricDetails { properties: Some(properties), ..self }
    }
}

/// Which birth message an initializer builds.
#[derive(Debug, PartialEq, Eq, Structural, Clone, Copy)]
pub enum BirthObjectType {
    Node,
    Device(u32),
}

/// The high 32 bits of the aliases of an object's metrics: 0 for the node,
/// the device id for a device.
pub open spec fn alias_id_part(t: BirthObjectType) -> u32 {
    match t {
        BirthObjectType::Node => 0,
        BirthObjectType::Device(id) => id,
    }
}

/// The first alias tried for a metric: the object's id part above the low
/// 32 bits of the name's hash.
pub open spec fn alias_base(id_part: u32, hash: u64) -> u64 {
    ((id_part as u64) * 0x1_0000_0000 + hash % 0x1_0000_0000) as u64
}

/// `a` is the smallest alias at or above `base` not in `taken`.
pub open spec fn first_free_alias(taken: Seq<u64>, base: u64, a: u64) -> bool {
    &&& base <= a
    &&& !taken.contains(a)
    &&& forall|v: u64| base <= v < a ==> taken.contains(v)
}

/// Every alias at or above `base` is taken.
pub open spec fn aliases_exhausted(taken: Seq<u64>, base: u64) -> bool {
    forall|v: u64| base <= v ==> taken.contains(v)
}

/// What feeding a name to a hasher writes into it. `Hash for String` (std)
/// writes the name's bytes and a terminator, so the writes depend on the name
/// alone.
pub uninterp spec fn hash_writes(name: Seq<char>) -> Seq<Seq<u8>>;

/// `Hash for String` (std): feeds `name` to `hasher`, which records the
/// writes `hash_writes` names.
#[verifier::external_body]
fn hash_name_into(name: &String, hasher: &mut DefaultHasher)
    ensures
        final(hasher)@ == old(hasher)@ + hash_writes(name@),
{
    name.hash(hasher)
}

/// The hash std's `DefaultHasher` gives the name `name`. `DefaultHasher::new`
/// is not seeded, so the hash depends on the name alone (for a given Rust
/// release).
pub open spec fn name_hash(name: Seq<char>) -> u64 {
    DefaultHasher::spec_finish(hash_writes(name))
}

/// The hash of a metric or device name, by std's `DefaultHasher`.
pub(crate) fn default_hash(name: &String) -> (r: u64)
    ensures
        r == name_hash(name@),
{
    let mut hasher = DefaultHasher::new();
    hash_name_into(name, &mut hasher);
    assert(hasher@ =~= hash_writes(name@));
    hasher.finish()
}

/// Collects the metrics of a birth message, giving them distinct names and
/// aliases.
pub struct BirthInitializer {
    birth_metrics: Vec<Metric>,
    metric_names: Vec<String>,
    metric_aliases: Vec<u64>,
    inserter_type: BirthObjectType,
}

/// The payload metric a registered metric is born with.
pub open spec fn birth_metric<T: MetricValueType>(d: BirthMetricDetails<T>, alias: Option<u64>) -> Metric {
    Metric {
        name: Some(d.spec_name_string()),
        alias,
        timestamp: Some(d.spec_timestamp()),
        datatype: Some(d.spec_datatype().spec_code()),
        is_historical: None,
        is_transient: None,
        is_null: None,
        metadata: d.spec_metadata(),
        properties: d.spec_properties(),
        value: match d.spec_initial_value() {
            Some(v) => Some(v.spec_value()),
            None => None,
        },
    }
}

/// Law: a registered metric is born under its name and the alias it was
/// given, stamped with its timestamp, with the wire code of its data type,
/// its metadata and properties, and with its initial value when it has one
/// (whether or not it has an alias), absent otherwise.
pub proof fn lemma_birth_metric_carries_details<T: MetricValueType>(
    d: BirthMetricDetails<T>,
    alias: Option<u64>,
)
    ensures
        birth_metric(d, alias).name == Some(d.spec_name_string()),
        birth_metric(d, alias).alias == alias,
        birth_metric(d, alias).timestamp == Some(d.spec_timestamp()),
        birth_metric(d, alias).datatype == Some(d.spec_datatype().spec_code()),
        birth_metric(d, alias).metadata == d.spec_metadata(),
        birth_metric(d, alias).properties == d.spec_properties(),
        birth_metric(d, alias).value is Some <==> d.spec_initial_value() is Some,
        d.spec_initial_value() matches Some(v) ==> birth_metric(d, alias).value == Some(
            v.spec_value(),
        ),
{
}

impl<T: MetricValueType> BirthMetricDetails<T> {
    pub closed spec fn spec_name_string(&self) -> String {
        self.name
    }
}

impl BirthInitializer {
    pub closed spec fn spec_metrics(&self) -> Seq<Metric> {
        self.birth_metrics@
    }

    pub closed spec fn spec_names(&self) -> Seq<Seq<char>> {
        self.metric_names@.map_values(|s: String| s@)
    }

    pub closed spec fn spec_aliases(&self) -> Seq<u64> {
        self.metric_aliases@
    }

    pub closed spec fn spec_type(&self) -> BirthObjectType {
        self.inserter_type
    }

    /// An initializer for the birth message of `inserter_type`, with no metrics yet.
    pub fn new(inserter_type: BirthObjectType) -> (r: Self)
        ensures
            r.spec_metrics() == Seq::<Metric>::empty(),
            r.spec_names() == Seq::<Seq<char>>::empty(),
            r.spec_aliases() == Seq::<u64>::empty(),
            r.spec_type() == inserter_type,
    {
        let r = Self {
            birth_metrics: Vec::new(),
            metric_names: Vec::new(),
            metric_aliases: Vec::new(),
            inserter_type,
        };
        assert(r.spec_names() =~= Seq::<Seq<char>>::empty());
        r
    }

    fn alias_taken(&self, alias: u64) -> (r: bool)
        ensures
            r == self.spec_aliases().contains(alias),
    {
        let mut i: usize = 0;
        while i < self.metric_aliases.len()
            invariant
                i <= self.metric_aliases@.len(),
                forall|j: int| 0 <= j < i ==> self.metric_aliases@[j] != alias,
            decreases self.metric_aliases@.len() - i,
        {
            if self.metric_aliases[i] == alias {
                return true;
            }
            i = i + 1;
        }
        false
    }

    fn name_taken(&self, name: &String) -> (r: bool)
        ensures
            r == self.spec_names().contains(name@),
    {
        let mut i: usize = 0;
        while i < self.metric_names.len()
            invariant
                i <= self.metric_names@.len(),
                forall|j: int| 0 <= j < i ==> self.metric_names@[j]@ != name@,
            decreases self.metric_names@.len() - i,
        {
            if str_eq(self.metric_names[i].as_str(), name.as_str()) {
                assert(self.spec_names()[i as int] == name@);
                return true;
            }
            i = i + 1;
        }
        proof {
            if self.spec_names().contains(name@) {
                let k = choose|k: int| 0 <= k < self.spec_names().len() && self.spec_names()[k] == name@;
                assert(self.metric_names@[k]@ == name@);
            }
        }
        false
    }

    /// Gives an alias to a metric whose name hashes to `hash`: the smallest
    /// alias at or above the object's id part over the hash's low 32 bits
    /// that is not yet taken, if there is one.
    fn generate_alias(&mut self, hash: u64) -> (r: Option<u64>)
        ensures
            final(self).spec_metrics() == old(self).spec_metrics(),
            final(self).spec_names() == old(self).spec_names(),
            final(self).spec_type() == old(self).spec_type(),
            r matches Some(a) ==> first_free_alias(
                old(self).spec_aliases(),
                alias_base(alias_id_part(old(self).spec_type()), hash),
                a,
            ) && final(self).spec_aliases() == old(self).spec_aliases().push(a),
            r is None ==> aliases_exhausted(
                old(self).spec_aliases(),
                alias_base(alias_id_part(old(self).spec_type()), hash),
            ) && final(self).spec_aliases() == old(self).spec_aliases(),
    {
        let id_part: u32 = match self.inserter_type {
            BirthObjectType::Node => 0,
            BirthObjectType::Device(id) => id,
        };
        let low: u32 = #[verifier::truncate] (hash as u32);
        let base: u64 = ((id_part as u64) << 32u64) | (low as u64);
        assert(base == alias_base(id_part, hash)) by (bit_vector)
            requires
                low == hash as u32,
                base == ((id_part as u64) << 32u64) | (low as u64),
        ;
        let mut alias = base;
        loop
            invariant
                base <= alias,
                forall|v: u64| base <= v < alias ==> self.spec_aliases().contains(v),
                self.spec_aliases() == old(self).spec_aliases(),
                self.spec_metrics() == old(self).spec_metrics(),
                self.spec_names() == old(self).spec_names(),
                self.spec_type() == old(self).spec_type(),
                base == alias_base(alias_id_part(old(self).spec_type()), hash),
            decreases u64::MAX - alias,
        {
            if !self.alias_taken(alias) {
                self.metric_aliases.push(alias);
                return Some(alias);
            }
            if alias == u64::MAX {
                return None;
            }
            alias = alias + 1;
        }
    }

    /// Registers a metric for the birth message. Template metrics are
    /// refused, as is a name already registered; a metric that uses an alias
    /// gets the first free alias at or above its object's id part over the
    /// low 32 bits of its name's hash.
    pub fn register_metric<T: MetricValueType>(&mut self, details: BirthMetricDetails<T>) -> (r:
        Result<MetricToken, BirthMetricError>)
        ensures
            final(self).spec_type() == old(self).spec_type(),
            details.spec_datatype() == DataType::Template ==> r == Err::<MetricToken, BirthMetricError>(
                BirthMetricError::UnsupportedDatatype,
            ),
            details.spec_datatype() != DataType::Template && old(self).spec_names().contains(
                details.spec_name(),
            ) ==> r == Err::<MetricToken, BirthMetricError>(BirthMetricError::DuplicateMetric),
            r is Err ==> final(self).spec_metrics() == old(self).spec_metrics()
                && final(self).spec_names() == old(self).spec_names() && final(self).spec_aliases()
                == old(self).spec_aliases(),
            r matches Err(e) ==> (e == BirthMetricError::UnsupportedDatatype
                && details.spec_datatype() == DataType::Template) || (e
                == BirthMetricError::DuplicateMetric && old(self).spec_names().contains(
                details.spec_name(),
            )) || (e == BirthMetricError::AliasesExhausted && details.spec_use_alias()),
            r == Err::<MetricToken, BirthMetricError>(BirthMetricError::AliasesExhausted) ==> {
                &&& details.spec_datatype() != DataType::Template
                &&& !old(self).spec_names().contains(details.spec_name())
                &&& details.spec_use_alias()
                &&& aliases_exhausted(
                    old(self).spec_aliases(),
                    alias_base(alias_id_part(old(self).spec_type()), name_hash(details.spec_name())),
                )
            },
            r matches Ok(tok) ==> {
                &&& details.spec_datatype() != DataType::Template
                &&& !old(self).spec_names().contains(details.spec_name())
                &&& final(self).spec_names() == old(self).spec_names().push(details.spec_name())
                &&& if details.spec_use_alias() {
                    &&& tok.id matches MetricId::Alias(a)
                    &&& first_free_alias(
                        old(self).spec_aliases(),
                        alias_base(alias_id_part(old(self).spec_type()), name_hash(details.spec_name())),
                        a,
                    )
                    &&& final(self).spec_aliases() == old(self).spec_aliases().push(a)
                    &&& final(self).spec_metrics() == old(self).spec_metrics().push(
                        birth_metric(details, Some(a)),
                    )
                } else {
                    &&& tok.id matches MetricId::Name(n) && n@ == details.spec_name()
                    &&& final(self).spec_aliases() == old(self).spec_aliases()
                    &&& final(self).spec_metrics() == old(self).spec_metrics().push(
                        birth_metric(details, None),
                    )
                }
            },
    {
        if details.datatype == DataType::Template {
            return Err(BirthMetricError::UnsupportedDatatype);
        }
        if self.name_taken(&details.name) {
            return Err(BirthMetricError::DuplicateMetric);
        }
        let ghost d = details;
        let id = if details.use_alias {
            let hash = default_hash(&details.name);
            match self.generate_alias(hash) {
                Some(a) => MetricId::Alias(a),
                None => return Err(BirthMetricError::AliasesExhausted),
            }
        } else {
            MetricId::Name(details.name.clone())
        };
        let alias = match id {
            MetricId::Alias(a) => Some(a),
            MetricId::Name(_) => None,
        };
        let ghost names_before = self.spec_names();
        self.metric_names.push(details.name.clone());
        assert(self.spec_names() =~= names_before.push(d.spec_name()));
        let value = match details.initial_value {
            Some(v) => Some(v.into_metric_value()),
            None => None,
        };
        let metric = Metric {
            name: Some(details.name),
            alias,
            timestamp: Some(details.timestamp),
            datatype: Some(details.datatype.code()),
            is_historical: None,
            is_transient: None,
            is_null: None,
            metadata: details.metadata,
            properties: details.properties,
            value,
        };
        self.birth_metrics.push(metric);
        Ok(MetricToken::new(id))
    }

    /// The metrics collected for the birth message.
    pub fn finish(self) -> (r: Vec<Metric>)
        ensures
            r@ == self.spec_metrics(),
    {
        self.birth_metrics
    }
}

} // verus!
