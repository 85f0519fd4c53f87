//! A metric manager that keeps a value for each metric registered by name,
//! births them all with aliases, and routes the metrics of command messages
//! to the metrics registered to handle commands.

use crate::eon::birth::{BirthInitializer, BirthMetricDetails};
use crate::eon::manager::MetricManager;
use crate::eon::metric::{
    well_formed_metrics, MessageMetric, MessageMetrics, PublishError, PublishMetric,
};
use crate::eon::value::MetricValueType;
use crate::strings::str_eq;
use crate::types::{same_id, same_value, DataType, MetaData, Metric, MetricId, MetricValue};
use vstd::prelude::*;

verus! {

/// A value already converted to the metric value it is published as; it
/// can be published as any data type.
pub struct HeldValue {
    pub value: MetricValue,
}

impl MetricValueType for HeldValue {
    open spec fn spec_default_datatype() -> DataType {
        DataType::Unknown
    }

    open spec fn spec_supports(d: DataType) -> bool {
        true
    }

    open spec fn spec_value(self) -> MetricValue {
        self.value
    }

    fn default_datatype() -> (r: DataType) {
        DataType::Unknown
    }

    fn supports_datatype(d: DataType) -> (r: bool) {
        true
    }

    fn into_metric_value(self) -> (r: MetricValue) {
        self.value
    }

    open spec fn spec_from_value(v: MetricValue) -> Option<Self> {
        Some(HeldValue { value: v })
    }

    fn from_metric_value(v: MetricValue) -> (r: Option<Self>) {
        Some(HeldValue { value: v })
    }

    open spec fn spec_publish_metadata(&self) -> Option<MetaData> {
        None
    }

    fn publish_metadata(&self) -> (r: Option<MetaData>) {
        None
    }

    proof fn lemma_round_trip(x: Self) {
    }
}

/// What a manager holds of a registered metric.
pub struct SimpleEntryView {
    pub name: Seq<char>,
    pub datatype: DataType,
    pub value: MetricValue,
    pub has_callback: bool,
    /// The identifier the metric was given in the latest birth, if it was birthed.
    pub id: Option<MetricId>,
}

struct SimpleEntry {
    name: String,
    datatype: DataType,
    value: MetricValue,
    has_callback: bool,
    id: Option<MetricId>,
}

spec fn entry_view(e: SimpleEntry) -> SimpleEntryView {
    SimpleEntryView {
        name: e.name@,
        datatype: e.datatype,
        value: e.value,
        has_callback: e.has_callback,
        id: e.id,
    }
}

/// A metric registered with a [SimpleMetricManager].
#[derive(Debug, Clone, Copy, PartialEq, Eq, Structural)]
pub struct SimpleManagerMetric {
    index: usize,
}

impl SimpleManagerMetric {
    /// The metric's place among the manager's metrics.
    pub closed spec fn spec_index(self) -> usize {
        self.index
    }
}

/// The metric to publish after an update, if the metric has been birthed.
#[derive(Debug)]
pub struct SimpleManagerPublishMetric(pub Option<PublishMetric>);

/// The identifiers of the metrics that handle commands, with their places,
/// in the order of the metrics.
pub open spec fn cmd_lookup_of(es: Seq<SimpleEntryView>) -> Seq<(MetricId, usize)>
    decreases es.len(),
{
    if es.len() == 0 {
        Seq::empty()
    } else {
        let rest = cmd_lookup_of(es.drop_last());
        let e = es.last();
        if e.has_callback && e.id is Some {
            rest.push((e.id->0, (es.len() - 1) as usize))
        } else {
            rest
        }
    }
}

/// The places of the metrics that were birthed, in order.
pub open spec fn birthed_indices(es: Seq<SimpleEntryView>) -> Seq<int>
    decreases es.len(),
{
    if es.len() == 0 {
        Seq::empty()
    } else {
        let rest = birthed_indices(es.drop_last());
        if es.last().id is Some {
            rest.push(es.len() - 1)
        } else {
            rest
        }
    }
}

/// No two birthed metrics share an identifier.
pub open spec fn distinct_ids(es: Seq<SimpleEntryView>) -> bool {
    forall|j: int, k: int|
        0 <= j < k < es.len() && (#[trigger] es[j]).id is Some && (#[trigger] es[k]).id is Some
            ==> !same_id(es[j].id->0, es[k].id->0)
}

/// `m` is the birth metric of `e` under alias `a`, stamped `timestamp`.
pub open spec fn is_simple_birth_metric(m: Metric, e: SimpleEntryView, a: u64, timestamp: u64) -> bool {
    &&& m.name matches Some(n) && n@ == e.name
    &&& m.alias == Some(a)
    &&& m.timestamp == Some(timestamp)
    &&& m.datatype == Some(e.datatype.spec_code())
    &&& m.is_historical is None
    &&& m.is_transient is None
    &&& m.is_null is None
    &&& m.metadata is None
    &&& m.properties is None
    &&& m.value matches Some(v) && same_value(v, e.value)
}

/// The place of the first metric handling commands for `id`, if any.
pub open spec fn lookup_index(lookup: Seq<(MetricId, usize)>, id: MetricId) -> Option<usize>
    decreases lookup.len(),
{
    if lookup.len() == 0 {
        None
    } else if same_id(lookup[0].0, id) {
        Some(lookup[0].1)
    } else {
        lookup_index(lookup.drop_first(), id)
    }
}

/// The command metrics among `ms` that a metric handles, each with the
/// place of that metric, in order; the others are dropped.
pub open spec fn cmd_targets_of(lookup: Seq<(MetricId, usize)>, ms: Seq<MessageMetric>) -> Seq<
    (usize, MessageMetric),
>
    decreases ms.len(),
{
    if ms.len() == 0 {
        Seq::empty()
    } else {
        let rest = cmd_targets_of(lookup, ms.drop_last());
        match lookup_index(lookup, ms.last().id) {
            Some(i) => rest.push((i, ms.last())),
            None => rest,
        }
    }
}

/// The metrics to publish among `ms`, in order: those that carry one.
pub open spec fn publishable(ms: Seq<SimpleManagerPublishMetric>) -> Seq<PublishMetric>
    decreases ms.len(),
{
    if ms.len() == 0 {
        Seq::empty()
    } else {
        let rest = publishable(ms.drop_last());
        match ms.last().0 {
            Some(p) => rest.push(p),
            None => rest,
        }
    }
}

/// A [MetricManager] that keeps a value for each metric registered by
/// name, births every metric with an alias, and hands the metrics of a
/// command to the metrics registered to handle commands.
pub struct SimpleMetricManager {
    entries: Vec<SimpleEntry>,
    cmd_lookup: Vec<(MetricId, usize)>,
    has_handle: bool,
}

impl SimpleMetricManager {
    /// The registered metrics, in order of registration.
    pub closed spec fn spec_entries(&self) -> Seq<SimpleEntryView> {
        self.entries@.map_values(|e: SimpleEntry| entry_view(e))
    }

    /// The metrics handling commands, by their identifiers in the latest birth.
    pub closed spec fn spec_cmd_lookup(&self) -> Seq<(MetricId, usize)> {
        self.cmd_lookup@
    }

    /// Whether the manager has been given the handle it publishes through.
    pub closed spec fn spec_has_handle(&self) -> bool {
        self.has_handle
    }

    /// No name is registered twice.
    pub open spec fn wf(&self) -> bool {
        forall|i: int, j: int|
            0 <= i < j < self.spec_entries().len() ==> #[trigger] self.spec_entries()[i].name
                != #[trigger] self.spec_entries()[j].name
    }

    /// Creates a new empty `SimpleMetricManager`.
    pub fn new() -> (r: Self)
        ensures
            r.wf(),
            r.spec_entries() == Seq::<SimpleEntryView>::empty(),
            r.spec_cmd_lookup() == Seq::<(MetricId, usize)>::empty(),
            !r.spec_has_handle(),
    {
        let r = Self { entries: Vec::new(), cmd_lookup: Vec::new(), has_handle: false };
        assert(r.spec_entries() =~= Seq::<SimpleEntryView>::empty());
        r
    }

    /// The manager is given the handle of its node or device, through which
    /// it publishes.
    pub fn init(&mut self)
        ensures
            final(self).spec_has_handle(),
            final(self).spec_entries() == old(self).spec_entries(),
            final(self).spec_cmd_lookup() == old(self).spec_cmd_lookup(),
    {
        self.has_handle = true;
    }

    fn name_registered(&self, name: &String) -> (r: bool)
        ensures
            r == exists|i: int| 0 <= i < self.spec_entries().len() && #[trigger] self.spec_entries()[i].name == name@,
    {
        let mut i: usize = 0;
        while i < self.entries.len()
            invariant
                i <= self.entries@.len(),
                forall|j: int| 0 <= j < i ==> (#[trigger] self.spec_entries()[j]).name != name@,
            decreases self.entries@.len() - i,
        {
            if str_eq(self.entries[i].name.as_str(), name.as_str()) {
                assert(self.spec_entries()[i as int].name == name@);
                return true;
            }
            i = i + 1;
        }
        false
    }

    fn register<T: MetricValueType>(&mut self, name: String, value: T, has_callback: bool) -> (r:
        Option<SimpleManagerMetric>)
        requires
            old(self).wf(),
        ensures
            final(self).wf(),
            final(self).spec_has_handle() == old(self).spec_has_handle(),
            final(self).spec_cmd_lookup() == old(self).spec_cmd_lookup(),
            (exists|i: int|
                0 <= i < old(self).spec_entries().len() && #[trigger] old(self).spec_entries()[i].name == name@) ==> r is None && final(self).spec_entries()
                == old(self).spec_entries(),
            !(exists|i: int|
                0 <= i < old(self).spec_entries().len() && #[trigger] old(self).spec_entries()[i].name == name@) ==> {
                &&& r matches Some(m) && m.spec_index() == old(self).spec_entries().len()
                &&& final(self).spec_entries() == old(self).spec_entries().push(
                    SimpleEntryView {
                        name: name@,
                        datatype: T::spec_default_datatype(),
                        value: value.spec_value(),
                        has_callback,
                        id: None,
                    },
                )
            },
    {
        if self.name_registered(&name) {
            return None;
        }
        let ghost before = self.spec_entries();
        let entry = SimpleEntry {
            name,
            datatype: T::default_datatype(),
            value: value.into_metric_value(),
            has_callback,
            id: None,
        };
        let ghost ev = entry_view(entry);
        self.entries.push(entry);
        assert(self.spec_entries() =~= before.push(ev));
        Some(SimpleManagerMetric { index: self.entries.len() - 1 })
    }

    /// Whether `metric` is one of this manager's metrics and holds values
    /// of type `T`, so that [SimpleMetricManager::update] takes it.
    pub fn accepts<T: MetricValueType>(&self, metric: SimpleManagerMetric) -> (r: bool)
        ensures
            r == (metric.spec_index() < self.spec_entries().len() && self.spec_entries()[metric.spec_index() as int].datatype
                == T::spec_default_datatype()),
    {
        metric.index < self.entries.len() && self.entries[metric.index].datatype == T::default_datatype()
    }

    /// Registers a new metric with the given name and initial value.
    ///
    /// Returns `None` if a metric with the same name already exists, otherwise
    /// returns the newly created metric.
    pub fn register_metric<T: MetricValueType>(&mut self, name: String, value: T) -> (r: Option<
        SimpleManagerMetric,
    >)
        requires
            old(self).wf(),
        ensures
            final(self).wf(),
            final(self).spec_has_handle() == old(self).spec_has_handle(),
            final(self).spec_cmd_lookup() == old(self).spec_cmd_lookup(),
            (exists|i: int|
                0 <= i < old(self).spec_entries().len() && #[trigger] old(self).spec_entries()[i].name == name@) ==> r is None && final(self).spec_entries()
                == old(self).spec_entries(),
            !(exists|i: int|
                0 <= i < old(self).spec_entries().len() && #[trigger] old(self).spec_entries()[i].name == name@) ==> {
                &&& r matches Some(m) && m.spec_index() == old(self).spec_entries().len()
                &&& final(self).spec_entries() == old(self).spec_entries().push(
                    SimpleEntryView {
                        name: name@,
                        datatype: T::spec_default_datatype(),
                        value: value.spec_value(),
                        has_callback: false,
                        id: None,
                    },
                )
            },
    {
        self.register(name, value, false)
    }

    /// Registers a new metric whose command handler is to be called when a
    /// command for it is received; the handler itself is kept by the caller,
    /// by the metric's place.
    ///
    /// Returns `None` if a metric with the same name already exists, otherwise
    /// returns the newly created metric.
    pub fn register_metric_with_cmd_handler<T: MetricValueType>(
        &mut self,
        name: String,
        value: T,
    ) -> (r: Option<SimpleManagerMetric>)
        requires
            old(self).wf(),
        ensures
            final(self).wf(),
            final(self).spec_has_handle() == old(self).spec_has_handle(),
            final(self).spec_cmd_lookup() == old(self).spec_cmd_lookup(),
            (exists|i: int|
                0 <= i < old(self).spec_entries().len() && #[trigger] old(self).spec_entries()[i].name == name@) ==> r is None && final(self).spec_entries()
                == old(self).spec_entries(),
            !(exists|i: int|
                0 <= i < old(self).spec_entries().len() && #[trigger] old(self).spec_entries()[i].name == name@) ==> {
                &&& r matches Some(m) && m.spec_index() == old(self).spec_entries().len()
                &&& final(self).spec_entries() == old(self).spec_entries().push(
                    SimpleEntryView {
                        name: name@,
                        datatype: T::spec_default_datatype(),
                        value: value.spec_value(),
                        has_callback: true,
                        id: None,
                    },
                )
            },
    {
        self.register(name, value, true)
    }

    /// Sets the value of `metric`, a metric of the value's type, and gives
    /// the metric to publish for it, stamped `timestamp`, if the metric has
    /// been birthed.
    pub fn update<T: MetricValueType>(
        &mut self,
        metric: SimpleManagerMetric,
        value: T,
        timestamp: u64,
    ) -> (r: SimpleManagerPublishMetric)
        requires
            metric.spec_index() < old(self).spec_entries().len(),
            old(self).spec_entries()[metric.spec_index() as int].datatype
                == T::spec_default_datatype(),
        ensures
            final(self).spec_entries() == old(self).spec_entries().update(
                metric.spec_index() as int,
                SimpleEntryView {
                    value: value.spec_value(),
                    ..old(self).spec_entries()[metric.spec_index() as int]
                },
            ),
            final(self).spec_cmd_lookup() == old(self).spec_cmd_lookup(),
            final(self).spec_has_handle() == old(self).spec_has_handle(),
            r.0 is Some <==> old(self).spec_entries()[metric.spec_index() as int].id is Some,
            r.0 matches Some(p) ==> {
                &&& p.metric_identifier == old(self).spec_entries()[metric.spec_index() as int].id->0
                &&& p.value matches Some(pv) && same_value(pv, value.spec_value())
                &&& p.timestamp == timestamp
                &&& p.metadata == value.spec_publish_metadata()
                &&& p.is_transient is None
                &&& p.is_historical is None
                &&& p.properties is None
            },
    {
        let ghost before = self.spec_entries();
        let i = metric.index;
        let mut entry = self.entries.remove(i);
        let metadata = value.publish_metadata();
        let v = value.into_metric_value();
        let publish = match &entry.id {
            Some(id) => Some(PublishMetric::new(id.copied(), Some(v.copied()), metadata, timestamp)),
            None => None,
        };
        entry.value = v;
        let ghost ev = entry_view(entry);
        self.entries.insert(i, entry);
        assert(self.spec_entries() =~= before.update(i as int, ev));
        SimpleManagerPublishMetric(publish)
    }
}

impl SimpleMetricManager {
    fn lookup(&self, id: &MetricId) -> (r: Option<usize>)
        ensures
            r == lookup_index(self.spec_cmd_lookup(), *id),
    {
        let mut i: usize = 0;
        assert(self.spec_cmd_lookup().subrange(0, self.spec_cmd_lookup().len() as int) =~= self.spec_cmd_lookup());
        while i < self.cmd_lookup.len()
            invariant
                i <= self.cmd_lookup@.len(),
                lookup_index(self.spec_cmd_lookup(), *id) == lookup_index(
                    self.spec_cmd_lookup().subrange(i as int, self.spec_cmd_lookup().len() as int),
                    *id,
                ),
            decreases self.cmd_lookup@.len() - i,
        {
            let ghost rest = self.spec_cmd_lookup().subrange(i as int, self.spec_cmd_lookup().len() as int);
            assert(rest.drop_first() =~= self.spec_cmd_lookup().subrange(i + 1, self.spec_cmd_lookup().len() as int));
            if self.cmd_lookup[i].0.same_as(id) {
                return Some(self.cmd_lookup[i].1);
            }
            i = i + 1;
        }
        None
    }

    /// The metrics of a command that registered metrics handle, each with the
    /// metric handling it, in order; badly formed metrics and metrics no
    /// registered metric handles are dropped.
    pub fn cmd_targets(&self, metrics: MessageMetrics) -> (r: Vec<(SimpleManagerMetric, MessageMetric)>)
        ensures
            r@.len() == cmd_targets_of(
                self.spec_cmd_lookup(),
                well_formed_metrics(metrics.spec_metrics()),
            ).len(),
            forall|k: int|
                0 <= k < r@.len() ==> (#[trigger] r@[k]).0.spec_index() == cmd_targets_of(
                    self.spec_cmd_lookup(),
                    well_formed_metrics(metrics.spec_metrics()),
                )[k].0 && r@[k].1 == cmd_targets_of(
                    self.spec_cmd_lookup(),
                    well_formed_metrics(metrics.spec_metrics()),
                )[k].1,
    {
        let ms = metrics.into_message_metrics();
        let ghost all = ms@;
        let total = ms.len();
        let mut out: Vec<(SimpleManagerMetric, MessageMetric)> = Vec::new();
        let mut rest = ms;
        let mut k: usize = 0;
        while rest.len() > 0
            invariant
                k + rest@.len() == all.len(),
                all.len() == total,
                rest@ == all.subrange(k as int, all.len() as int),
                out@.len() == cmd_targets_of(self.spec_cmd_lookup(), all.take(k as int)).len(),
                forall|j: int|
                    0 <= j < out@.len() ==> (#[trigger] out@[j]).0.spec_index() == cmd_targets_of(
                        self.spec_cmd_lookup(),
                        all.take(k as int),
                    )[j].0 && out@[j].1 == cmd_targets_of(
                        self.spec_cmd_lookup(),
                        all.take(k as int),
                    )[j].1,
            decreases rest@.len(),
        {
            let m = rest.remove(0);
            assert(all.take(k + 1).drop_last() =~= all.take(k as int));
            assert(all.take(k + 1).last() == m);
            match self.lookup(&m.id) {
                Some(i) => out.push((SimpleManagerMetric { index: i }, m)),
                None => {},
            }
            k = k + 1;
        }
        assert(all.take(all.len() as int) =~= all);
        out
    }

    /// The metrics to publish from `metrics`: those of birthed metrics, in
    /// order. Nothing can be published before the manager has its handle.
    pub fn metrics_to_publish(&self, metrics: Vec<SimpleManagerPublishMetric>) -> (r: Result<
        Vec<PublishMetric>,
        PublishError,
    >)
        ensures
            !self.spec_has_handle() ==> r == Err::<Vec<PublishMetric>, PublishError>(
                PublishError::UnBirthed,
            ),
            self.spec_has_handle() ==> (r matches Ok(v) && v@ == publishable(metrics@)),
    {
        if !self.has_handle {
            return Err(PublishError::UnBirthed);
        }
        let ghost all = metrics@;
        let total = metrics.len();
        let mut out: Vec<PublishMetric> = Vec::new();
        let mut rest = metrics;
        let mut k: usize = 0;
        while rest.len() > 0
            invariant
                k + rest@.len() == all.len(),
                all.len() == total,
                rest@ == all.subrange(k as int, all.len() as int),
                out@ == publishable(all.take(k as int)),
            decreases rest@.len(),
        {
            let m = rest.remove(0);
            assert(all.take(k + 1).drop_last() =~= all.take(k as int));
            assert(all.take(k + 1).last() == m);
            match m.0 {
                Some(p) => out.push(p),
                None => {},
            }
            k = k + 1;
        }
        assert(all.take(all.len() as int) =~= all);
        Ok(out)
    }
}

impl SimpleMetricManager {
    /// Registers the metric at `i` for a birth stamped `timestamp`, under an
    /// alias; the metric keeps the identifier it is given, or none if the
    /// initializer refuses it.
    fn birth_entry(&mut self, i: usize, bi: &mut BirthInitializer, timestamp: u64)
        requires
            i < old(self).spec_entries().len(),
        ensures
            final(self).spec_entries().len() == old(self).spec_entries().len(),
            forall|j: int|
                0 <= j < old(self).spec_entries().len() && j != i ==> final(self).spec_entries()[j]
                    == old(self).spec_entries()[j],
            final(self).spec_entries()[i as int] == (SimpleEntryView {
                id: final(self).spec_entries()[i as int].id,
                ..old(self).spec_entries()[i as int]
            }),
            final(self).spec_cmd_lookup() == old(self).spec_cmd_lookup(),
            final(self).spec_has_handle() == old(self).spec_has_handle(),
            final(bi).spec_type() == old(bi).spec_type(),
            final(self).spec_entries()[i as int].id matches Some(id) ==> {
                &&& id matches MetricId::Alias(a)
                &&& is_simple_birth_metric(
                    final(bi).spec_metrics().last(),
                    final(self).spec_entries()[i as int],
                    a,
                    timestamp,
                )
                &&& final(bi).spec_metrics().drop_last() == old(bi).spec_metrics()
                &&& final(bi).spec_metrics().len() == old(bi).spec_metrics().len() + 1
            },
            final(self).spec_entries()[i as int].id is None ==> final(bi).spec_metrics() == old(bi).spec_metrics()
                && final(bi).spec_aliases() == old(bi).spec_aliases(),
            final(self).spec_entries()[i as int].id matches Some(MetricId::Alias(a)) ==> !old(
                bi,
            ).spec_aliases().contains(a) && final(bi).spec_aliases() == old(bi).spec_aliases().push(a),
    {
        let ghost before = self.spec_entries();
        let mut entry = self.entries.remove(i);
        let held = HeldValue { value: entry.value.copied() };
        let details = match BirthMetricDetails::new_with_initial_value_explicit_type(
            entry.name.clone(),
            held,
            entry.datatype,
            timestamp,
        ) {
            Ok(d) => d,
            Err(_) => {
                proof {
                    assert(false);
                }
                self.entries.insert(i, entry);
                assert(self.spec_entries() =~= before);
                return ;
            },
        };
        let details = details.use_alias(true);
        let ghost d = details;
        let ghost metrics_before = bi.spec_metrics();
        entry.id = match bi.register_metric(details) {
            Ok(tok) => {
                proof {
                    assert(bi.spec_metrics().drop_last() =~= metrics_before);
                }
                Some(tok.id)
            },
            Err(_) => None,
        };
        let ghost ev = entry_view(entry);
        self.entries.insert(i, entry);
        assert(self.spec_entries() =~= before.update(i as int, ev));
    }
}

impl MetricManager for SimpleMetricManager {
    /// Births every registered metric, in order of registration, under an
    /// alias, and records the identifiers the metrics handling commands are
    /// given; a metric the initializer refuses is left out of the birth.
    fn initialise_birth(&mut self, bi: &mut BirthInitializer, timestamp: u64)
        ensures
            final(self).spec_entries().len() == old(self).spec_entries().len(),
            forall|i: int|
                0 <= i < old(self).spec_entries().len() ==> (#[trigger] final(self).spec_entries()[i]) == (SimpleEntryView {
                    id: final(self).spec_entries()[i].id,
                    ..old(self).spec_entries()[i]
                }),
            forall|i: int|
                0 <= i < final(self).spec_entries().len() ==> ((#[trigger] final(self).spec_entries()[i]).id matches Some(id) ==> id is Alias),
            final(self).spec_cmd_lookup() == cmd_lookup_of(final(self).spec_entries()),
            distinct_ids(final(self).spec_entries()),
            final(self).spec_has_handle() == old(self).spec_has_handle(),
            final(bi).spec_metrics().len() == old(bi).spec_metrics().len() + birthed_indices(
                final(self).spec_entries(),
            ).len(),
            forall|k: int|
                0 <= k < birthed_indices(final(self).spec_entries()).len() ==> {
                    let e = final(self).spec_entries()[birthed_indices(
                        final(self).spec_entries(),
                    )[k]];
                    is_simple_birth_metric(
                        #[trigger] final(bi).spec_metrics()[old(bi).spec_metrics().len() + k],
                        e,
                        e.id->0->Alias_0,
                        timestamp,
                    )
                },
    {
        let ghost es0 = self.spec_entries();
        let ghost ms0 = bi.spec_metrics();
        let mut lookup: Vec<(MetricId, usize)> = Vec::new();
        let n = self.entries.len();
        let mut i: usize = 0;
        assert(self.spec_entries().take(0) =~= Seq::<SimpleEntryView>::empty());
        assert(bi.spec_metrics().take(ms0.len() as int) =~= ms0);
        while i < n
            invariant
                n == es0.len(),
                i <= n,
                self.spec_entries().len() == n,
                forall|j: int|
                    0 <= j < n ==> (#[trigger] self.spec_entries()[j]) == (SimpleEntryView {
                        id: self.spec_entries()[j].id,
                        ..es0[j]
                    }),
                forall|j: int|
                    0 <= j < i ==> ((#[trigger] self.spec_entries()[j]).id matches Some(id)
                        ==> id is Alias),
                lookup@ == cmd_lookup_of(self.spec_entries().take(i as int)),
                forall|j: int|
                    0 <= j < i ==> ((#[trigger] self.spec_entries()[j]).id matches Some(
                        MetricId::Alias(a),
                    ) ==> bi.spec_aliases().contains(a)),
                forall|j: int, k: int|
                    0 <= j < k < i && (#[trigger] self.spec_entries()[j]).id is Some && (
                    #[trigger] self.spec_entries()[k]).id is Some ==> !same_id(
                        self.spec_entries()[j].id->0,
                        self.spec_entries()[k].id->0,
                    ),
                self.spec_cmd_lookup() == old(self).spec_cmd_lookup(),
                self.spec_has_handle() == old(self).spec_has_handle(),
                bi.spec_type() == old(bi).spec_type(),
                bi.spec_metrics().len() == ms0.len() + birthed_indices(
                    self.spec_entries().take(i as int),
                ).len(),
                bi.spec_metrics().take(ms0.len() as int) == ms0,
                forall|k: int|
                    0 <= k < birthed_indices(self.spec_entries().take(i as int)).len() ==> {
                        let e = self.spec_entries()[birthed_indices(
                            self.spec_entries().take(i as int),
                        )[k]];
                        is_simple_birth_metric(
                            #[trigger] bi.spec_metrics()[ms0.len() + k],
                            e,
                            e.id->0->Alias_0,
                            timestamp,
                        )
                    },
                forall|k: int|
                    0 <= k < birthed_indices(self.spec_entries().take(i as int)).len() ==> 0
                        <= #[trigger] birthed_indices(self.spec_entries().take(i as int))[k] < i,
            decreases n - i,
        {
            let ghost es_before = self.spec_entries();
            let ghost ms_before = bi.spec_metrics();
            let ghost al_before = bi.spec_aliases();
            self.birth_entry(i, bi, timestamp);
            let ghost es = self.spec_entries();
            proof {
                assert(es.take(i as int) =~= es_before.take(i as int));
                assert(es.take(i + 1).drop_last() =~= es.take(i as int));
                assert(es.take(i + 1).last() == es[i as int]);
                lemma_birthed_indices_bounded(es.take(i as int));
            }
            if self.entries[i].has_callback {
                match &self.entries[i].id {
                    Some(id) => {
                        lookup.push((id.copied(), i));
                    },
                    None => {},
                }
            }
            proof {
                assert forall|j: int| 0 <= j < i + 1 implies ((#[trigger] es[j]).id matches Some(
                    MetricId::Alias(a),
                ) ==> bi.spec_aliases().contains(a)) by {
                    if j < i {
                        assert(es[j] == es_before[j]);
                        if let Some(MetricId::Alias(a)) = es[j].id {
                            assert(al_before.contains(a));
                            if es[i as int].id is Some {
                                assert(bi.spec_aliases()[al_before.index_of(a)] == a);
                            }
                        }
                    } else if let Some(MetricId::Alias(a)) = es[j].id {
                        assert(bi.spec_aliases().last() == a);
                    }
                }
                assert forall|j: int, k: int|
                    0 <= j < k < i + 1 && (#[trigger] es[j]).id is Some && (#[trigger] es[k]).id is Some
                        implies !same_id(es[j].id->0, es[k].id->0) by {
                    assert(es[j] == es_before[j]);
                    if k == i {
                        assert(es[j].id matches Some(MetricId::Alias(_)));
                        assert(es[k].id matches Some(MetricId::Alias(_)));
                    } else {
                        assert(es[k] == es_before[k]);
                    }
                }
                let b_old = birthed_indices(es.take(i as int));
                let b_new = birthed_indices(es.take(i + 1));
                assert(bi.spec_metrics().take(ms0.len() as int) =~= ms0) by {
                    if es[i as int].id is Some {
                        assert(bi.spec_metrics().drop_last() == ms_before);
                        assert forall|j: int| 0 <= j < ms0.len() implies bi.spec_metrics()[j] == ms0[j] by {
                            assert(bi.spec_metrics().drop_last()[j] == ms_before[j]);
                            assert(ms_before.take(ms0.len() as int)[j] == ms0[j]);
                        }
                    }
                }
                assert forall|k: int| 0 <= k < b_new.len() implies {
                    let e = es[b_new[k]];
                    is_simple_birth_metric(
                        #[trigger] bi.spec_metrics()[ms0.len() + k],
                        e,
                        e.id->0->Alias_0,
                        timestamp,
                    )
                } by {
                    if k < b_old.len() {
                        assert(b_new[k] == b_old[k]);
                        assert(es[b_old[k]] == es_before[b_old[k]]);
                        if es[i as int].id is Some {
                            assert(bi.spec_metrics()[ms0.len() + k] == ms_before[ms0.len() + k]) by {
                                assert(bi.spec_metrics().drop_last() == ms_before);
                            }
                        }
                    }
                }
            }
            i = i + 1;
        }
        assert(self.spec_entries().take(n as int) =~= self.spec_entries());
        self.cmd_lookup = lookup;
    }
}

/// The places of the birthed metrics are places of the metrics.
proof fn lemma_birthed_indices_bounded(es: Seq<SimpleEntryView>)
    ensures
        forall|k: int|
            0 <= k < birthed_indices(es).len() ==> 0 <= #[trigger] birthed_indices(es)[k]
                < es.len(),
    decreases es.len(),
{
    if es.len() > 0 {
        lemma_birthed_indices_bounded(es.drop_last());
        let rest = birthed_indices(es.drop_last());
        let b = birthed_indices(es);
        assert forall|k: int| 0 <= k < b.len() implies 0 <= #[trigger] b[k] < es.len() by {
            if k < rest.len() {
                assert(b[k] == rest[k]);
            }
        }
    }
}

proof fn lemma_lookup_push(l: Seq<(MetricId, usize)>, x: (MetricId, usize), id: MetricId)
    ensures
        lookup_index(l.push(x), id) == match lookup_index(l, id) {
            Some(i) => Some(i),
            None => if same_id(x.0, id) {
                Some(x.1)
            } else {
                None
            },
        },
    decreases l.len(),
{
    if l.len() > 0 {
        assert(l.push(x)[0] == l[0]);
        assert(l.push(x).drop_first() =~= l.drop_first().push(x));
        lemma_lookup_push(l.drop_first(), x, id);
    } else {
        assert(l.push(x)[0] == x);
        assert(l.push(x).drop_first() =~= Seq::<(MetricId, usize)>::empty());
        assert(lookup_index(Seq::<(MetricId, usize)>::empty(), id) is None);
    }
}

proof fn lemma_lookup_none(l: Seq<(MetricId, usize)>, id: MetricId)
    requires
        forall|k: int| 0 <= k < l.len() ==> !same_id(#[trigger] l[k].0, id),
    ensures
        lookup_index(l, id) is None,
    decreases l.len(),
{
    if l.len() > 0 {
        assert(!same_id(l[0].0, id));
        assert forall|k: int| 0 <= k < l.drop_first().len() implies !same_id(
            #[trigger] l.drop_first()[k].0,
            id,
        ) by {
            assert(l.drop_first()[k] == l[k + 1]);
        }
        lemma_lookup_none(l.drop_first(), id);
    }
}

proof fn lemma_cmd_lookup_entries(es: Seq<SimpleEntryView>)
    requires
        es.len() <= usize::MAX,
    ensures
        forall|k: int|
            0 <= k < cmd_lookup_of(es).len() ==> (#[trigger] cmd_lookup_of(es)[k]).1 < es.len()
                && es[cmd_lookup_of(es)[k].1 as int].id == Some(cmd_lookup_of(es)[k].0),
    decreases es.len(),
{
    if es.len() > 0 {
        let e = es.drop_last();
        lemma_cmd_lookup_entries(e);
        let l = cmd_lookup_of(e);
        assert forall|k: int| 0 <= k < cmd_lookup_of(es).len() implies (#[trigger] cmd_lookup_of(
            es,
        )[k]).1 < es.len() && es[cmd_lookup_of(es)[k].1 as int].id == Some(
            cmd_lookup_of(es)[k].0,
        ) by {
            if k < l.len() {
                assert(cmd_lookup_of(es)[k] == l[k]);
                assert(es[l[k].1 as int] == e[l[k].1 as int]);
            }
        }
    }
}

/// A command for a birthed metric that handles commands reaches that
/// metric: its identifier leads to it, birthed metrics having distinct
/// identifiers.
pub proof fn lemma_cmd_reaches_handler(es: Seq<SimpleEntryView>, i: int)
    requires
        0 <= i < es.len(),
        es.len() <= usize::MAX,
        es[i].has_callback,
        es[i].id is Some,
        distinct_ids(es),
    ensures
        lookup_index(cmd_lookup_of(es), es[i].id->0) == Some(i as usize),
    decreases es.len(),
{
    let n = es.len() - 1;
    let e = es.drop_last();
    let id = es[i].id->0;
    let l = cmd_lookup_of(e);
    assert(distinct_ids(e)) by {
        assert forall|j: int, k: int|
            0 <= j < k < e.len() && (#[trigger] e[j]).id is Some && (#[trigger] e[k]).id is Some
                implies !same_id(e[j].id->0, e[k].id->0) by {
            assert(e[j] == es[j] && e[k] == es[k]);
        }
    }
    if es.last().has_callback && es.last().id is Some {
        lemma_lookup_push(l, (es.last().id->0, n as usize), id);
    }
    if i < n {
        assert(e[i] == es[i]);
        lemma_cmd_reaches_handler(e, i);
    } else {
        lemma_cmd_lookup_entries(e);
        assert forall|k: int| 0 <= k < l.len() implies !same_id(#[trigger] l[k].0, id) by {
            let j = l[k].1 as int;
            assert(e[j] == es[j]);
            assert(es[j].id == Some(l[k].0));
            assert(j < n);
        }
        lemma_lookup_none(l, id);
        assert(same_id(id, id));
    }
}

} // verus!
