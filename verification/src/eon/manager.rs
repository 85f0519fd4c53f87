//! The interface through which a node or device declares its metrics.

use crate::eon::birth::BirthInitializer;
use crate::types::Metric;
use vstd::prelude::*;

verus! {

/// A trait for implementing a type that defines a collection of metrics.
///
/// This trait acts as an interface the library uses to query a type about
/// what metrics it has so that birth messages can be created. A
/// [BirthInitializer] can only gain metrics, so an implementation keeps
/// those registered before it.
pub trait MetricManager {
    /// Whether the manager, registering its metrics on a birth initializer
    /// that holds the metrics `before`, may leave it holding `after`. An
    /// implementation that says nothing allows any metrics added after those.
    open spec fn spec_births(&self, before: Seq<Metric>, after: Seq<Metric>) -> bool {
        true
    }

    /// Initialises the set of metrics to be included in a birth or rebirth
    /// message generated at `timestamp`.
    fn initialise_birth(&mut self, bi: &mut BirthInitializer, timestamp: u64)
        ensures
            old(self).spec_births(old(bi).spec_metrics(), final(bi).spec_metrics()),
            final(bi).spec_type() == old(bi).spec_type(),
            final(bi).spec_metrics().len() >= old(bi).spec_metrics().len(),
            final(bi).spec_metrics().take(old(bi).spec_metrics().len() as int) == old(
                bi,
            ).spec_metrics(),
    ;
}

/// A no-op implementation [MetricManager] which will provide no metrics on Birth
/// and will do nothing when a CMD message is received.
#[derive(Debug, Default)]
pub struct NoMetricManager {}

impl NoMetricManager {
    /// Creates a new instance of `NoMetricManager`.
    pub fn new() -> (r: Self)
        ensures
            r == (NoMetricManager {}),
    {
        Self {}
    }
}

impl MetricManager for NoMetricManager {
    /// No metric is added.
    open spec fn spec_births(&self, before: Seq<Metric>, after: Seq<Metric>) -> bool {
        after == before
    }

    /// Registers no metric: the birth initializer is left as it was.
    fn initialise_birth(&mut self, bi: &mut BirthInitializer, timestamp: u64)
        ensures
            final(bi).spec_metrics() == old(bi).spec_metrics(),
            final(bi).spec_names() == old(bi).spec_names(),
            final(bi).spec_aliases() == old(bi).spec_aliases(),
    {
        assert(bi.spec_metrics().take(bi.spec_metrics().len() as int) =~= bi.spec_metrics());
    }
}

} // verus!
