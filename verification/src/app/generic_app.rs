//! The generic application: per node state, message reordering and the
//! decisions on when to ask a node for a rebirth.

use crate::app::events::{DBirth, DData, NBirth, NData, NodeIdentifier};
use crate::app::metrics::{MetricBirthDetails, MetricDetails};
use crate::app::resequencer::{
    lemma_process_preserves_wf, lemma_drain_preserves_wf, spec_drain, spec_process, wadd,
    DrainResult, ProcessResult, Resequencer, ResequencerView,
};
use crate::strings::str_eq;
use crate::types::MetricId;
use vstd::prelude::*;

verus! {

/// An error type that can be returned by [MetricStore] to indicate an error when updating it's internal state
#[derive(Debug)]
pub enum StateUpdateError {
    /// The value provided was invalid
    InvalidValue,
    /// The metric provided was unknown
    UnknownMetric,
}

/// A trait the application uses to interface with custom implementations
///
/// `MetricStore` provides an interface for managing metrics for a device or node, creating new metrics from a birth message and updating existing metrics with new data
pub trait MetricStore {
    /// Whether the store's metrics are marked stale. An implementation that
    /// says nothing leaves it open.
    open spec fn spec_is_stale(&self) -> bool {
        true
    }

    /// Mark metrics in the store to be stale.
    fn set_stale(&mut self)
        ensures
            final(self).spec_is_stale(),
    ;

    /// Whether the store, told of a birth with `details`, may accept it
    /// (when `accepted`) or refuse it. An implementation that says nothing
    /// allows both.
    open spec fn spec_birth_result(
        &self,
        details: Seq<(MetricBirthDetails, MetricDetails)>,
        accepted: bool,
    ) -> bool {
        true
    }

    /// Called on the occurrence of a new BIRTH message to initialise or reset the known metrics for the Node/Devices lifetime
    fn update_from_birth(
        &mut self,
        details: Vec<(MetricBirthDetails, MetricDetails)>,
    ) -> (r: Result<(), StateUpdateError>)
        ensures
            old(self).spec_birth_result(details@, r is Ok),
    ;

    /// Whether the store, told of data with `details`, may answer `result`.
    /// An implementation that says nothing allows every answer.
    open spec fn spec_data_result(
        &self,
        details: Seq<(MetricId, MetricDetails)>,
        result: Result<(), StateUpdateError>,
    ) -> bool {
        true
    }

    /// Called on the occurrence of a new DATA message to indicate there is a new value for one or more metrics
    fn update_from_data(&mut self, details: Vec<(MetricId, MetricDetails)>) -> (r: Result<
        (),
        StateUpdateError,
    >)
        ensures
            old(self).spec_data_result(details@, r),
    ;
}

/// Why the application would ask a node for a rebirth.
#[derive(Debug, PartialEq, Eq, Structural, Clone, Copy)]
pub enum RebirthReason {
    InvalidPayload,
    OutOfSyncBdSeq,
    UnknownNode,
    UnknownDevice,
    UnknownMetric,
    ReorderTimeout,
    ReorderFail,
    RecordedStateStale,
}

/// Details surrounding a situation where the application has identified a [RebirthReason].
#[derive(Debug)]
pub struct RebirthReasonDetails {
    pub node_id: NodeIdentifier,
    pub device: Option<String>,
    pub reason: RebirthReason,
}

impl RebirthReasonDetails {
    /// The details of a rebirth request for node `node_id`.
    pub fn new(node_id: NodeIdentifier, reason: RebirthReason) -> (r: Self)
        ensures
            r == (RebirthReasonDetails { node_id, device: None, reason }),
    {
        Self { node_id, device: None, reason }
    }

    /// The same details, naming `device` as the device concerned.
    pub fn with_device(self, device: String) -> (r: Self)
        ensures
            r == (RebirthReasonDetails { device: Some(device), ..self }),
    {
        RebirthReasonDetails { device: Some(device), ..self }
    }
}

/// A configuration struct used to determine how the Application will handle various situations that might require the issuing of a Node Rebirth CMD.
/// Durations are in milliseconds.
#[derive(Debug, Clone, Copy, PartialEq, Eq, Structural)]
pub struct RebirthConfig {
    /// Cooldown time between rebirth requests for a node
    pub rebirth_cooldown: u64,
    /// Issue rebirths if we encounter an invalid payload
    pub invalid_payload: bool,
    /// Issue rebirths if an unexpected bdseq value in a NDEATH message, indicating our state is not correctly synced
    pub out_of_sync_bdseq: bool,
    /// Issue rebirth if a message is received from a node not seen before
    pub unknown_node: bool,
    /// Issue rebirth if a message is received from a device not seen before
    pub unknown_device: bool,
    /// Issue rebirth if metric is received that has not been seen in a birth/death message
    pub unknown_metric: bool,
    /// Issue rebirth if we were unable to reorder an out of sequence message
    pub reorder_failure: bool,
    /// Issue rebirth if we have the state for the node as stale but we receive an unexpected message
    pub recorded_state_stale: bool,
    /// Issue rebirth if out of sequence messages could not be reordered in the specified timeout
    pub reorder_timeout: Option<u64>,
}

impl RebirthConfig {
    /// Whether the configuration asks for a rebirth for `reason`.
    pub open spec fn allows(self, reason: RebirthReason) -> bool {
        match reason {
            RebirthReason::InvalidPayload => self.invalid_payload,
            RebirthReason::OutOfSyncBdSeq => self.out_of_sync_bdseq,
            RebirthReason::UnknownNode => self.unknown_node,
            RebirthReason::UnknownDevice => self.unknown_device,
            RebirthReason::UnknownMetric => self.unknown_metric,
            RebirthReason::ReorderTimeout => self.reorder_timeout is Some,
            RebirthReason::ReorderFail => self.reorder_failure,
            RebirthReason::RecordedStateStale => self.recorded_state_stale,
        }
    }

    /// Whether the configuration asks for a rebirth for `reason`.
    pub fn evaluate_rebirth_reason(&self, reason: &RebirthReason) -> (r: bool)
        ensures
            r == self.allows(*reason),
            *reason == RebirthReason::InvalidPayload ==> r == self.invalid_payload,
            *reason == RebirthReason::OutOfSyncBdSeq ==> r == self.out_of_sync_bdseq,
            *reason == RebirthReason::UnknownNode ==> r == self.unknown_node,
            *reason == RebirthReason::UnknownDevice ==> r == self.unknown_device,
            *reason == RebirthReason::UnknownMetric ==> r == self.unknown_metric,
            *reason == RebirthReason::ReorderTimeout ==> r == (self.reorder_timeout is Some),
            *reason == RebirthReason::ReorderFail ==> r == self.reorder_failure,
            *reason == RebirthReason::RecordedStateStale ==> r == self.recorded_state_stale,
    {
        match reason {
            RebirthReason::InvalidPayload => self.invalid_payload,
            RebirthReason::OutOfSyncBdSeq => self.out_of_sync_bdseq,
            RebirthReason::UnknownNode => self.unknown_node,
            RebirthReason::UnknownDevice => self.unknown_device,
            RebirthReason::UnknownMetric => self.unknown_metric,
            RebirthReason::ReorderTimeout => self.reorder_timeout.is_some(),
            RebirthReason::ReorderFail => self.reorder_failure,
            RebirthReason::RecordedStateStale => self.recorded_state_stale,
        }
    }

    /// The default configuration: no rebirth for invalid payloads, a
    /// rebirth for every other reason, a 3 s reorder timeout and a 5 s
    /// cooldown between rebirth requests.
    pub open spec fn spec_default() -> RebirthConfig {
        RebirthConfig {
            invalid_payload: false,
            out_of_sync_bdseq: true,
            unknown_node: true,
            unknown_device: true,
            unknown_metric: true,
            reorder_timeout: Some(3000),
            reorder_failure: true,
            rebirth_cooldown: 5000,
            recorded_state_stale: true,
        }
    }

    /// The default configuration.
    pub fn default() -> (r: Self)
        ensures
            r == RebirthConfig::spec_default(),
    {
        Self {
            invalid_payload: false,
            out_of_sync_bdseq: true,
            unknown_node: true,
            unknown_device: true,
            unknown_metric: true,
            reorder_timeout: Some(3000),
            reorder_failure: true,
            rebirth_cooldown: 5000,
            recorded_state_stale: true,
        }
    }
}

/// Whether the state recorded for a node or device reflects its latest birth.
#[derive(Debug, PartialEq, Eq, Structural, Clone, Copy)]
pub enum LifecycleState {
    Birthed,
    Stale,
}

/// A device of a node, as the application records it.
pub struct Device<S> {
    name: String,
    lifecycle_state: LifecycleState,
    store: Option<S>,
}

impl<S: MetricStore> Device<S> {
    /// The device's name.
    pub closed spec fn spec_name(&self) -> Seq<char> {
        self.name@
    }

    /// Whether the device's recorded state reflects its latest birth.
    pub closed spec fn spec_birthed(&self) -> bool {
        self.lifecycle_state == LifecycleState::Birthed
    }

    /// Whether a store is registered with the device.
    pub closed spec fn has_store(&self) -> bool {
        self.store is Some
    }

    /// The store registered with the device, if any.
    pub closed spec fn spec_store(&self) -> Option<S> {
        self.store
    }

    fn new(name: String) -> (r: Self)
        ensures
            r.spec_name() == name@,
            !r.spec_birthed(),
            !r.has_store(),
    {
        Self { name, lifecycle_state: LifecycleState::Stale, store: None }
    }

    fn set_stale(&mut self)
        ensures
            final(self).spec_name() == old(self).spec_name(),
            !final(self).spec_birthed(),
            final(self).has_store() == old(self).has_store(),
            final(self).spec_store() matches Some(st) ==> st.spec_is_stale(),
    {
        self.lifecycle_state = LifecycleState::Stale;
        if let Some(x) = &mut self.store {
            x.set_stale()
        }
    }

    fn handle_birth(&mut self, details: Vec<(MetricBirthDetails, MetricDetails)>) -> (r: Result<
        (),
        RebirthReason,
    >)
        ensures
            final(self).spec_name() == old(self).spec_name(),
            final(self).has_store() == old(self).has_store(),
            r is Ok ==> final(self).spec_birthed(),
            r is Err ==> r == Err::<(), RebirthReason>(RebirthReason::InvalidPayload)
                && old(self).has_store() && final(self).spec_birthed() == old(self).spec_birthed(),
            !old(self).has_store() ==> r is Ok,
            old(self).spec_store() matches Some(st) ==> st.spec_birth_result(details@, r is Ok),
    {
        if let Some(x) = &mut self.store {
            if x.update_from_birth(details).is_err() {
                return Err(RebirthReason::InvalidPayload);
            }
        }
        self.lifecycle_state = LifecycleState::Birthed;
        Ok(())
    }

    fn handle_data(&mut self, details: DData) -> (r: Result<(), RebirthReason>)
        ensures
            final(self).spec_name() == old(self).spec_name(),
            final(self).spec_birthed() == old(self).spec_birthed(),
            final(self).has_store() == old(self).has_store(),
            !old(self).spec_birthed() ==> r == Err::<(), RebirthReason>(
                RebirthReason::RecordedStateStale,
            ),
            old(self).spec_birthed() && !old(self).has_store() ==> r is Ok,
            old(self).spec_birthed() ==> (r matches Err(e) ==> e == RebirthReason::InvalidPayload
                || e == RebirthReason::UnknownMetric),
            old(self).spec_birthed() ==> (old(self).spec_store() matches Some(st)
                ==> st.spec_data_result(details.metrics_details@, store_data_outcome(r))),
    {
        if self.lifecycle_state == LifecycleState::Stale {
            return Err(RebirthReason::RecordedStateStale);
        }
        let ghost st0 = self.store;
        let ghost dd = details.metrics_details@;
        if let Some(x) = &mut self.store {
            let res = x.update_from_data(details.metrics_details);
            assert(st0->0.spec_data_result(dd, res));
            match res {
                Ok(u) => {
                    assert(u == ());
                    assert(res == Ok::<(), StateUpdateError>(()));
                },
                Err(StateUpdateError::InvalidValue) => return Err(RebirthReason::InvalidPayload),
                Err(StateUpdateError::UnknownMetric) => return Err(RebirthReason::UnknownMetric),
            }
        }
        assert(old(self).spec_store() == st0);
        Ok(())
    }

    /// Register a [MetricStore] implementation with the device
    pub fn register_metric_store(&mut self, store: S)
        ensures
            final(self).spec_name() == old(self).spec_name(),
            final(self).spec_birthed() == old(self).spec_birthed(),
            final(self).has_store(),
            final(self).spec_store() == Some(store),
    {
        self.store = Some(store)
    }

    /// Set the [MetricStore] of the device; the same as
    /// [Device::register_metric_store].
    pub fn set_metric_store(&mut self, store: S)
        ensures
            final(self).spec_name() == old(self).spec_name(),
            final(self).spec_birthed() == old(self).spec_birthed(),
            final(self).has_store(),
            final(self).spec_store() == Some(store),
    {
        self.register_metric_store(store)
    }

    /// Get the name of the device
    pub fn name(&self) -> (r: &str)
        ensures
            r@ == self.spec_name(),
    {
        self.name.as_str()
    }
}

/// Called when a node first learns of one of its devices, before the
/// device's birth is recorded; typically registers a [MetricStore] with it.
/// A device's name and lifecycle cannot be changed from outside this
/// module, so an implementation keeps them.
pub trait DeviceCreated<S: MetricStore> {
    /// Whether the callback, run on a new device named `name` that has no
    /// store, may leave it with a store exactly when `has_store`. An
    /// implementation that says nothing allows both.
    open spec fn spec_registers(&self, name: Seq<char>, has_store: bool) -> bool {
        true
    }

    fn on_device_created(&self, device: &mut Device<S>)
        ensures
            final(device).spec_name() == old(device).spec_name(),
            final(device).spec_birthed() == old(device).spec_birthed(),
            !old(device).has_store() ==> self.spec_registers(
                old(device).spec_name(),
                final(device).has_store(),
            ),
    ;
}

} // verus!

verus! {

/// A message the application hands on in its node's sequence order.
#[derive(Debug)]
pub enum ResequenceableEvent {
    NData(NData),
    DBirth(String, DBirth),
    DDeath(String),
    DData(String, DData),
}

/// The work a node's state change leaves for the application to do:
/// cancel or start the reorder timer, and ask the node for a rebirth.
#[derive(Debug, PartialEq, Eq, Structural, Clone, Copy)]
pub struct NodeActions {
    /// Stop the running reorder timer.
    pub cancel_reorder_timeout: bool,
    /// Start a reorder timer that fires after this many milliseconds.
    pub start_reorder_timeout: Option<u64>,
    /// Publish a rebirth request to the node, for this reason.
    pub rebirth: Option<RebirthReason>,
}

impl NodeActions {
    /// Nothing to do.
    pub open spec fn spec_none() -> NodeActions {
        NodeActions { cancel_reorder_timeout: false, start_reorder_timeout: None, rebirth: None }
    }

    /// Nothing to do.
    pub fn none() -> (r: NodeActions)
        ensures
            r == NodeActions::spec_none(),
    {
        NodeActions { cancel_reorder_timeout: false, start_reorder_timeout: None, rebirth: None }
    }
}

/// The store answer a device's data outcome `r` comes from: a refusal for
/// an unknown metric stays one, any other refusal is an invalid value.
pub open spec fn store_data_outcome(r: Result<(), RebirthReason>) -> Result<(), StateUpdateError> {
    match r {
        Ok(_) => Ok(()),
        Err(RebirthReason::UnknownMetric) => Err(StateUpdateError::UnknownMetric),
        Err(_) => Err(StateUpdateError::InvalidValue),
    }
}

/// What some store of type `S` may answer to a birth: `(details, accepted)`.
pub open spec fn store_births_of<S: MetricStore>() -> spec_fn(
    Seq<(MetricBirthDetails, MetricDetails)>,
    bool,
) -> bool {
    |d: Seq<(MetricBirthDetails, MetricDetails)>, ok: bool|
        exists|st: S| #[trigger] st.spec_birth_result(d, ok)
}

/// What some store of type `S` may answer to data: `(details, result)`.
pub open spec fn store_data_of<S: MetricStore>() -> spec_fn(
    Seq<(MetricId, MetricDetails)>,
    Result<(), StateUpdateError>,
) -> bool {
    |d: Seq<(MetricId, MetricDetails)>, sr: Result<(), StateUpdateError>|
        exists|st: S| #[trigger] st.spec_data_result(d, sr)
}

/// What the application records of a device.
pub struct DeviceView {
    pub name: Seq<char>,
    pub birthed: bool,
    /// A metric store is registered with the device.
    pub has_store: bool,
}

/// What the application records of a node.
#[verifier::ext_equal]
pub struct NodeView {
    /// The recorded state reflects the node's latest birth.
    pub birthed: bool,
    /// The timestamp of the latest birth applied.
    pub birth_timestamp: u64,
    /// The bdSeq of the latest birth applied.
    pub bdseq: u8,
    /// When a rebirth was last requested, in milliseconds since the epoch.
    pub last_rebirth: u64,
    /// A reorder timer is running.
    pub timer_running: bool,
    /// The node's message reordering.
    pub reseq: ResequencerView<ResequenceableEvent>,
    /// The node's devices.
    pub devices: Seq<DeviceView>,
    pub config: RebirthConfig,
    /// What the node's device callback may leave of the store of a device
    /// it is told of: `device_registers(name, has_store)` holds when a new
    /// device named `name` may end up with a store exactly when `has_store`.
    pub device_registers: spec_fn(Seq<char>, bool) -> bool,
    /// What the node's and devices' stores may answer to a birth.
    pub store_births: spec_fn(Seq<(MetricBirthDetails, MetricDetails)>, bool) -> bool,
    /// What the node's and devices' stores may answer to data.
    pub store_data: spec_fn(Seq<(MetricId, MetricDetails)>, Result<(), StateUpdateError>) -> bool,
}

impl NodeView {
    /// The resequencer is well formed and device names are distinct.
    pub open spec fn wf(self) -> bool {
        &&& self.reseq.wf()
        &&& forall|i: int, j: int|
            0 <= i < j < self.devices.len() ==> #[trigger] self.devices[i].name
                != #[trigger] self.devices[j].name
    }

    /// Every device marked stale, names kept.
    pub open spec fn devices_stale(self) -> Seq<DeviceView> {
        self.devices.map_values(|d: DeviceView| DeviceView { birthed: false, ..d })
    }

    /// Stops the reorder timer if it runs.
    pub open spec fn cancel_timer(self, a: NodeActions) -> (NodeView, NodeActions) {
        if self.timer_running {
            (
                NodeView { timer_running: false, ..self },
                NodeActions { cancel_reorder_timeout: true, ..a },
            )
        } else {
            (self, a)
        }
    }

    /// Marks the node and its devices stale, unless it already is or `timestamp`
    /// is older than its latest birth: held back messages are dropped and the
    /// reorder timer stopped.
    pub open spec fn set_stale(self, a: NodeActions, timestamp: u64) -> (NodeView, NodeActions) {
        if !self.birthed || timestamp < self.birth_timestamp {
            (self, a)
        } else {
            let v1 = NodeView {
                reseq: ResequencerView {
                    next_seq: self.reseq.next_seq,
                    offset: None,
                    buffer: Map::empty(),
                },
                ..self
            };
            let (v2, a2) = v1.cancel_timer(a);
            (NodeView { birthed: false, devices: self.devices_stale(), ..v2 }, a2)
        }
    }

    /// Whether a rebirth for `reason` at time `now` goes ahead: the
    /// configuration asks for it and the cooldown since the last one has passed.
    pub open spec fn rebirth_allowed(self, reason: RebirthReason, now: u64) -> bool {
        self.config.allows(reason) && now - self.last_rebirth >= self.config.rebirth_cooldown
    }

    /// Asks for a rebirth for `reason` at time `now` if it is allowed: the
    /// request time is recorded and the node is marked stale.
    pub open spec fn issue_rebirth(self, a: NodeActions, reason: RebirthReason, now: u64) -> (
        NodeView,
        NodeActions,
    ) {
        if !self.rebirth_allowed(reason, now) {
            (self, a)
        } else {
            let (v, a2) = NodeView { last_rebirth: now, ..self }.set_stale(a, now);
            (v, NodeActions { rebirth: Some(reason), ..a2 })
        }
    }

    /// Applies a birth with `timestamp` and `bdseq`: the node is birthed,
    /// expects sequence number 1 next and holds nothing back.
    pub open spec fn apply_birth(self, a: NodeActions, timestamp: u64, bdseq: u8) -> (
        NodeView,
        NodeActions,
    ) {
        let (v, a2) = self.cancel_timer(a);
        (
            NodeView {
                birth_timestamp: timestamp,
                birthed: true,
                bdseq,
                reseq: ResequencerView { next_seq: 1, offset: None, buffer: Map::empty() },
                ..v
            },
            a2,
        )
    }

    /// The index of the device named `name`, if there is one.
    pub open spec fn device_index(self, name: Seq<char>) -> Option<int> {
        if exists|i: int| 0 <= i < self.devices.len() && self.devices[i].name == name {
            Some(choose|i: int| 0 <= i < self.devices.len() && self.devices[i].name == name)
        } else {
            None
        }
    }
}

/// The outcome `(w, r)` of a node birth with `timestamp` and `bdseq`,
/// received at `now`, on a node recorded as `v` that has a store if
/// `has_store`. A birth no newer than the latest one applied is ignored. A
/// birth that repeats the current lifecycle, or reaches a node without a
/// store, is applied; otherwise the store may refuse it, and then the node is
/// asked for a rebirth for an invalid payload instead.
pub open spec fn birth_outcome(
    v: NodeView,
    has_store: bool,
    timestamp: u64,
    bdseq: u8,
    now: u64,
    w: NodeView,
    r: NodeActions,
) -> bool {
    &&& timestamp <= v.birth_timestamp ==> w == v && r == NodeActions::spec_none()
    &&& timestamp > v.birth_timestamp ==> {
        ||| (w, r) == v.apply_birth(NodeActions::spec_none(), timestamp, bdseq)
        ||| {
            &&& has_store
            &&& !(v.birthed && v.bdseq == bdseq)
            &&& (w, r) == v.issue_rebirth(
                NodeActions::spec_none(),
                RebirthReason::InvalidPayload,
                now,
            )
        }
    }
    &&& timestamp > v.birth_timestamp && (!has_store || (v.birthed && v.bdseq == bdseq)) ==> (
        w,
        r,
    ) == v.apply_birth(NodeActions::spec_none(), timestamp, bdseq)
}

/// The outcome of a node death with `bdseq` that arrived at `timestamp`, on
/// a node recorded as `v`, at time `now`: the reorder timer is stopped and
/// the node marked stale, and if the bdSeq is not that of the latest birth
/// the node is asked for a rebirth, its state being out of sync.
pub open spec fn death_outcome(v: NodeView, bdseq: u8, timestamp: u64, now: u64) -> (
    NodeView,
    NodeActions,
) {
    let (v1, a1) = v.cancel_timer(NodeActions::spec_none());
    let (v2, a2) = v1.set_stale(a1, timestamp);
    if bdseq != v.bdseq {
        v2.issue_rebirth(a2, RebirthReason::OutOfSyncBdSeq, now)
    } else {
        (v2, a2)
    }
}

/// The outcome `(w, r)` of a sequenced `message` with `seq` and `timestamp`,
/// received at `now`, on a node recorded as `v` that has a store if `has_store`. Messages older than the
/// latest birth are ignored; on a stale node, or for a repeated sequence
/// number, the node is asked for a rebirth; a message ahead of the expected
/// sequence number is held back and the reorder timer started if it is not
/// running; the expected message is handed on, then the held back messages
/// that follow it, as [next_in_sequence_steps] says for some results of the
/// metric stores, and a refusal asks the node for a rebirth.
pub open spec fn resequenced_outcome(
    v: NodeView,
    has_store: bool,
    seq: u8,
    timestamp: u64,
    message: ResequenceableEvent,
    now: u64,
    w: NodeView,
    r: NodeActions,
) -> bool {
    &&& w.wf()
    &&& w.birth_timestamp == v.birth_timestamp
    &&& w.bdseq == v.bdseq
    &&& w.config == v.config
    &&& w.last_rebirth == v.last_rebirth || w.last_rebirth == now
    &&& timestamp < v.birth_timestamp ==> w == v && r == NodeActions::spec_none()
    &&& timestamp >= v.birth_timestamp && !v.birthed ==> (w, r) == v.issue_rebirth(
        NodeActions::spec_none(),
        RebirthReason::RecordedStateStale,
        now,
    )
    &&& timestamp >= v.birth_timestamp && v.birthed ==> {
        let (p, pr) = spec_process(v.reseq, seq, message);
        &&& pr is DuplicateMessageSequence ==> (w, r) == v.issue_rebirth(
            NodeActions::spec_none(),
            RebirthReason::ReorderFail,
            now,
        )
        &&& pr is OutOfSequenceMessageInserted ==> {
            &&& w == (NodeView {
                reseq: p,
                timer_running: v.timer_running || v.config.reorder_timeout is Some,
                ..v
            })
            &&& r == (if !v.timer_running {
                NodeActions {
                    start_reorder_timeout: v.config.reorder_timeout,
                    ..NodeActions::spec_none()
                }
            } else {
                NodeActions::spec_none()
            })
        }
        &&& pr is MessageNextInSequence ==> exists|rs: Seq<(Result<(), RebirthReason>, bool)>|
            settled(
                #[trigger] next_in_sequence_steps(
                    v,
                    has_store,
                    seq,
                    message,
                    NodeActions::spec_none(),
                    rs,
                ),
                now,
            ) == Some((w, r))
    }
}

/// The node's record and the work to do once the outcome `o` of handing
/// messages on is known: a refusal asks the node for a rebirth, for the
/// refusal's reason, at time `now`.
pub open spec fn settled(
    o: Option<(NodeView, NodeActions, Result<(), RebirthReason>)>,
    now: u64,
) -> Option<(NodeView, NodeActions)> {
    match o {
        None => None,
        Some((w, a, res)) => Some(
            match res {
                Ok(_) => (w, a),
                Err(e) => w.issue_rebirth(a, e, now),
            },
        ),
    }
}

/// The application's record of one node: its lifecycle, its devices and the
/// reordering of its sequenced messages.
pub struct Node<S, C> {
    id: NodeIdentifier,
    rebirth_config: RebirthConfig,
    resequencer: Resequencer<ResequenceableEvent>,
    devices: Vec<Device<S>>,
    store: Option<S>,
    device_created_cb: Option<C>,
    reorder_timeout_running: bool,
    lifecycle_state: LifecycleState,
    birth_timestamp: u64,
    bdseq: u8,
    last_rebirth: u64,
}

/// The record of a device.
pub open spec fn device_view<S: MetricStore>(d: Device<S>) -> DeviceView {
    DeviceView { name: d.spec_name(), birthed: d.spec_birthed(), has_store: d.has_store() }
}

/// What the device callback `cb` may leave of a new device's store: with
/// no callback the device has none.
pub open spec fn registers_of<S: MetricStore, C: DeviceCreated<S>>(cb: Option<C>) -> spec_fn(
    Seq<char>,
    bool,
) -> bool {
    |name: Seq<char>, has_store: bool|
        match cb {
            Some(c) => c.spec_registers(name, has_store),
            None => !has_store,
        }
}

impl<S: MetricStore, C: DeviceCreated<S>> View for Node<S, C> {
    type V = NodeView;

    closed spec fn view(&self) -> NodeView {
        NodeView {
            birthed: self.lifecycle_state == LifecycleState::Birthed,
            birth_timestamp: self.birth_timestamp,
            bdseq: self.bdseq,
            last_rebirth: self.last_rebirth,
            timer_running: self.reorder_timeout_running,
            reseq: self.resequencer@,
            devices: self.devices@.map_values(|d: Device<S>| device_view(d)),
            config: self.rebirth_config,
            device_registers: registers_of::<S, C>(self.device_created_cb),
            store_births: store_births_of::<S>(),
            store_data: store_data_of::<S>(),
        }
    }
}

impl<S: MetricStore, C: DeviceCreated<S>> Node<S, C> {
    /// Whether a metric store is registered with the node.
    pub closed spec fn has_store(&self) -> bool {
        self.store is Some
    }

    /// The callback told of each device the node learns of, if one is
    /// registered.
    pub closed spec fn spec_device_created(&self) -> Option<C> {
        self.device_created_cb
    }

    /// The metric store registered with the node, if any.
    pub closed spec fn spec_store(&self) -> Option<S> {
        self.store
    }

    /// The store registered with the device at `i`, if any.
    pub closed spec fn spec_device_store(&self, i: int) -> Option<S> {
        self.devices@[i].spec_store()
    }

    /// Every store registered with the node or with one of its devices is
    /// marked stale.
    pub open spec fn stores_stale(&self) -> bool {
        &&& (self.spec_store() matches Some(st) ==> st.spec_is_stale())
        &&& forall|i: int|
            0 <= i < self@.devices.len() ==> (#[trigger] self.spec_device_store(i) matches Some(st)
                ==> st.spec_is_stale())
    }

    /// The node's identifier.
    pub closed spec fn spec_id(&self) -> NodeIdentifier {
        self.id
    }

    /// A node the application has just learnt of: stale, with no devices
    /// and nothing held back.
    pub fn new(id: NodeIdentifier, rebirth_config: RebirthConfig) -> (r: Self)
        ensures
            r@ == (NodeView {
                birthed: false,
                birth_timestamp: 0,
                bdseq: 0,
                last_rebirth: 0,
                timer_running: false,
                reseq: ResequencerView { next_seq: 0, offset: None, buffer: Map::empty() },
                devices: Seq::empty(),
                config: rebirth_config,
                device_registers: registers_of::<S, C>(None),
                store_births: store_births_of::<S>(),
                store_data: store_data_of::<S>(),
            }),
            r@.wf(),
            r.spec_id() == id,
            !r.has_store(),
    {
        let r = Self {
            id,
            rebirth_config,
            resequencer: Resequencer::new(),
            devices: Vec::new(),
            store: None,
            device_created_cb: None,
            reorder_timeout_running: false,
            lifecycle_state: LifecycleState::Stale,
            birth_timestamp: 0,
            bdseq: 0,
            last_rebirth: 0,
        };
        assert(r@.devices =~= Seq::<DeviceView>::empty());
        r
    }

    /// Register a [MetricStore] implementation with the node
    pub fn register_metric_store(&mut self, store: S)
        ensures
            final(self)@ == old(self)@,
            final(self).has_store(),
            final(self).spec_store() == Some(store),
            final(self).spec_id() == old(self).spec_id(),
    {
        self.store = Some(store)
    }

    /// Set the [MetricStore] of the node; the same as
    /// [Node::register_metric_store].
    pub fn set_metric_store(&mut self, store: S)
        ensures
            final(self)@ == old(self)@,
            final(self).has_store(),
            final(self).spec_store() == Some(store),
            final(self).spec_id() == old(self).spec_id(),
    {
        self.register_metric_store(store)
    }

    /// Register a callback to be notified when a new device for this node is created.
    pub fn on_device_created(&mut self, cb: C)
        ensures
            final(self)@ == (NodeView { device_registers: registers_of::<S, C>(Some(cb)), ..old(self)@ }),
            final(self).has_store() == old(self).has_store(),
            final(self).spec_id() == old(self).spec_id(),
            final(self).spec_device_created() == Some(cb),
    {
        self.device_created_cb = Some(cb);
    }

    /// Get the NodeIdentifier of the Node
    pub fn id(&self) -> (r: &NodeIdentifier)
        ensures
            *r == self.spec_id(),
    {
        &self.id
    }

    fn cancel_reorder_timeout(&mut self, acts: &mut NodeActions)
        ensures
            (final(self)@, *final(acts)) == old(self)@.cancel_timer(*old(acts)),
            final(self).store == old(self).store,
            final(self).devices == old(self).devices,
            final(self).spec_store() == old(self).spec_store(),
            final(self).has_store() == old(self).has_store(),
            final(self).spec_id() == old(self).spec_id(),
    {
        if self.reorder_timeout_running {
            self.reorder_timeout_running = false;
            acts.cancel_reorder_timeout = true;
        }
    }

    fn start_reorder_timeout(&mut self, acts: &mut NodeActions)
        ensures
            final(self)@ == (NodeView {
                timer_running: old(self)@.timer_running || old(self)@.config.reorder_timeout is Some,
                ..old(self)@
            }),
            *final(acts) == (match old(self)@.config.reorder_timeout {
                Some(d) => NodeActions { start_reorder_timeout: Some(d), ..*old(acts) },
                None => *old(acts),
            }),
            final(self).has_store() == old(self).has_store(),
            final(self).spec_id() == old(self).spec_id(),
    {
        match self.rebirth_config.reorder_timeout {
            Some(duration) => {
                self.reorder_timeout_running = true;
                acts.start_reorder_timeout = Some(duration);
            },
            None => {},
        }
    }
}


impl<S: MetricStore, C: DeviceCreated<S>> Node<S, C> {
    fn set_devices_stale(&mut self)
        ensures
            final(self)@ == (NodeView { devices: old(self)@.devices_stale(), ..old(self)@ }),
            final(self).has_store() == old(self).has_store(),
            final(self).spec_store() == old(self).spec_store(),
            final(self).spec_id() == old(self).spec_id(),
            forall|i: int|
                0 <= i < final(self)@.devices.len() ==> (#[trigger] final(self).spec_device_store(i) matches Some(st)
                    ==> st.spec_is_stale()),
    {
        let ghost old_view = self@;
        let mut i: usize = 0;
        while i < self.devices.len()
            invariant
                i <= self.devices@.len(),
                self.devices@.len() == old_view.devices.len(),
                forall|j: int|
                    0 <= j < self.devices@.len() ==> (#[trigger] self.devices@[j]).spec_name()
                        == old_view.devices[j].name && self.devices@[j].has_store()
                        == old_view.devices[j].has_store,
                forall|j: int| 0 <= j < i ==> !(#[trigger] self.devices@[j]).spec_birthed(),
                forall|j: int|
                    0 <= j < i ==> ((#[trigger] self.devices@[j]).spec_store() matches Some(st)
                        ==> st.spec_is_stale()),
                forall|j: int|
                    i <= j < self.devices@.len() ==> (#[trigger] self.devices@[j]).spec_birthed()
                        == old_view.devices[j].birthed,
                self@ == (NodeView { devices: self@.devices, ..old_view }),
                self.has_store() == old(self).has_store(),
                self.spec_store() == old(self).spec_store(),
                self.spec_id() == old(self).spec_id(),
            decreases self.devices@.len() - i,
        {
            let mut d = self.devices.remove(i);
            d.set_stale();
            self.devices.insert(i, d);
            i = i + 1;
        }
        assert(self@.devices =~= old_view.devices_stale());
        assert forall|j: int| 0 <= j < self@.devices.len() implies (#[trigger] self.spec_device_store(j) matches Some(st)
            ==> st.spec_is_stale()) by {
            assert(self.devices@[j].spec_store() == self.spec_device_store(j));
        }
    }

    fn set_stale(&mut self, timestamp: u64, acts: &mut NodeActions)
        ensures
            (final(self)@, *final(acts)) == old(self)@.set_stale(*old(acts), timestamp),
            final(self).has_store() == old(self).has_store(),
            final(self).spec_id() == old(self).spec_id(),
            old(self)@.birthed && timestamp >= old(self)@.birth_timestamp ==> final(self).stores_stale(),
            !(old(self)@.birthed && timestamp >= old(self)@.birth_timestamp) ==> *final(self) == *old(self),
            old(self)@.birthed && !final(self)@.birthed ==> final(self).stores_stale(),
    {
        if self.lifecycle_state == LifecycleState::Stale {
            return;
        }
        if timestamp < self.birth_timestamp {
            return;
        }
        self.resequencer.reset();
        self.cancel_reorder_timeout(acts);
        self.lifecycle_state = LifecycleState::Stale;
        if let Some(store) = &mut self.store {
            store.set_stale()
        }
        self.set_devices_stale();
    }

    proof fn lemma_stores_stale_same(a: &Self, b: &Self)
        requires
            a.store == b.store,
            a.devices == b.devices,
        ensures
            a.stores_stale() == b.stores_stale(),
    {
        assert(a@.devices.len() == b@.devices.len());
        assert forall|i: int| 0 <= i < a@.devices.len() implies a.spec_device_store(i) == b.spec_device_store(i) by {}
    }

    fn eval_rebirth(&mut self, reason: &RebirthReason, now: u64) -> (r: bool)
        requires
            old(self)@.last_rebirth <= now,
        ensures
            r == old(self)@.rebirth_allowed(*reason, now),
            final(self)@ == (if r {
                NodeView { last_rebirth: now, ..old(self)@ }
            } else {
                old(self)@
            }),
            final(self).store == old(self).store,
            final(self).devices == old(self).devices,
            final(self).has_store() == old(self).has_store(),
            final(self).spec_id() == old(self).spec_id(),
    {
        if !self.rebirth_config.evaluate_rebirth_reason(reason) {
            return false;
        }
        if now - self.last_rebirth < self.rebirth_config.rebirth_cooldown {
            return false;
        }
        self.last_rebirth = now;
        true
    }

    fn issue_rebirth_into(&mut self, reason: RebirthReason, now: u64, acts: &mut NodeActions)
        requires
            old(self)@.last_rebirth <= now,
        ensures
            (final(self)@, *final(acts)) == old(self)@.issue_rebirth(*old(acts), reason, now),
            final(self).has_store() == old(self).has_store(),
            final(self).spec_id() == old(self).spec_id(),
            old(self).stores_stale() ==> final(self).stores_stale(),
            old(self)@.rebirth_allowed(reason, now) && old(self)@.birthed && now
                >= old(self)@.birth_timestamp ==> final(self).stores_stale(),
            old(self)@.birthed && !final(self)@.birthed ==> final(self).stores_stale(),
    {
        let ghost s0 = *self;
        if !self.eval_rebirth(&reason, now) {
            proof { Self::lemma_stores_stale_same(&s0, self); }
            return;
        }
        proof { Self::lemma_stores_stale_same(&s0, self); }
        self.set_stale(now, acts);
        acts.rebirth = Some(reason);
    }

    /// Asks the node for a rebirth for `reason` at time `now` (milliseconds
    /// since the epoch), if the configuration asks for one and the cooldown
    /// since the last request has passed; the node is then marked stale.
    pub fn issue_rebirth(&mut self, reason: RebirthReason, now: u64) -> (r: NodeActions)
        requires
            old(self)@.last_rebirth <= now,
        ensures
            (final(self)@, r) == old(self)@.issue_rebirth(NodeActions::spec_none(), reason, now),
            final(self).has_store() == old(self).has_store(),
            final(self).spec_id() == old(self).spec_id(),
            old(self)@.rebirth_allowed(reason, now) && old(self)@.birthed && now
                >= old(self)@.birth_timestamp ==> final(self).stores_stale(),
            old(self)@.birthed && !final(self)@.birthed ==> final(self).stores_stale(),
    {
        let mut acts = NodeActions::none();
        self.issue_rebirth_into(reason, now, &mut acts);
        acts
    }

    /// Records that the application went offline at `timestamp`: the node
    /// and its devices are marked stale.
    pub fn handle_offline(&mut self, timestamp: u64) -> (r: NodeActions)
        ensures
            (final(self)@, r) == old(self)@.set_stale(NodeActions::spec_none(), timestamp),
            final(self).has_store() == old(self).has_store(),
            final(self).spec_id() == old(self).spec_id(),
            old(self)@.birthed && timestamp >= old(self)@.birth_timestamp ==> final(self).stores_stale(),
            !(old(self)@.birthed && timestamp >= old(self)@.birth_timestamp) ==> *final(self) == *old(self),
            old(self)@.birthed && !final(self)@.birthed ==> final(self).stores_stale(),
    {
        let mut acts = NodeActions::none();
        self.set_stale(timestamp, &mut acts);
        acts
    }

    /// Applies a node birth received at `now`. A birth no newer than the
    /// latest one applied is ignored. A birth repeating the current lifecycle
    /// (the node is birthed with the same bdSeq) is applied without telling
    /// the store; otherwise the store is told, and if it refuses the birth
    /// the node is asked for a rebirth for an invalid payload instead.
    pub fn handle_birth(&mut self, birth: NBirth, now: u64) -> (r: NodeActions)
        requires
            old(self)@.last_rebirth <= now,
        ensures
            birth_outcome(
                old(self)@,
                old(self).has_store(),
                birth.timestamp,
                birth.bdseq,
                now,
                final(self)@,
                r,
            ),
            birth.timestamp <= old(self)@.birth_timestamp || (old(self)@.birthed && old(self)@.bdseq
                == birth.bdseq) ==> final(self).spec_store() == old(self).spec_store(),
            birth.timestamp > old(self)@.birth_timestamp && !(old(self)@.birthed && old(self)@.bdseq
                == birth.bdseq) ==> (old(self).spec_store() matches Some(st) ==> st.spec_birth_result(
                birth.metrics_details@,
                final(self)@.birth_timestamp == birth.timestamp,
            )),
            final(self).has_store() == old(self).has_store(),
            final(self).spec_id() == old(self).spec_id(),
            old(self)@.birthed && !final(self)@.birthed ==> final(self).stores_stale(),
    {
        let mut acts = NodeActions::none();
        if birth.timestamp <= self.birth_timestamp {
            return acts;
        }
        if !(self.lifecycle_state == LifecycleState::Birthed && self.bdseq == birth.bdseq) {
            let refused = match &mut self.store {
                Some(store) => store.update_from_birth(birth.metrics_details).is_err(),
                None => false,
            };
            if refused {
                self.issue_rebirth_into(RebirthReason::InvalidPayload, now, &mut acts);
                return acts;
            }
        }
        self.cancel_reorder_timeout(&mut acts);
        self.birth_timestamp = birth.timestamp;
        self.lifecycle_state = LifecycleState::Birthed;
        self.bdseq = birth.bdseq;
        self.resequencer.reset();
        self.resequencer.set_next_sequence(1);
        assert(self@ =~= old(self)@.apply_birth(NodeActions::spec_none(), birth.timestamp, birth.bdseq).0);
        acts
    }

    /// Applies a node death with `bdseq` that arrived at `timestamp`: the
    /// node is marked stale, and if the bdSeq is not that of the latest birth
    /// the node is asked for a rebirth, its state being out of sync.
    pub fn handle_death(&mut self, bdseq: u8, timestamp: u64, now: u64) -> (r: NodeActions)
        requires
            old(self)@.last_rebirth <= now,
        ensures
            (final(self)@, r) == death_outcome(old(self)@, bdseq, timestamp, now),
            final(self).has_store() == old(self).has_store(),
            final(self).spec_id() == old(self).spec_id(),
            old(self)@.birthed && timestamp >= old(self)@.birth_timestamp ==> final(self).stores_stale(),
            old(self)@.birthed && !final(self)@.birthed ==> final(self).stores_stale(),
    {
        let mut acts = NodeActions::none();
        self.cancel_reorder_timeout(&mut acts);
        self.set_stale(timestamp, &mut acts);
        if bdseq != self.bdseq {
            self.issue_rebirth_into(RebirthReason::OutOfSyncBdSeq, now, &mut acts);
        }
        acts
    }
}


/// The device records after `f` applies to the device at `i`.
pub open spec fn devices_with(ds: Seq<DeviceView>, i: int, birthed: bool) -> Seq<DeviceView> {
    ds.update(i, DeviceView { birthed, ..ds[i] })
}

/// The device records after the in sequence `m` is handed on, on a node
/// recorded as `v` that has a store if `has_store`, when that gave
/// `step.0`; `step.1` is whether a device the message makes known is left
/// with a store by the node's device callback. `None` where `m` cannot give
/// `step`. Node data, a device birth or device data is handed to the node's
/// or device's metric store, which decides whether it is accepted: with a
/// store the result is one the store's answer allows (`v.store_births`,
/// `v.store_data`), and a refusal is an invalid payload (for device data,
/// an unknown metric where the store says so); without a store it is
/// accepted.
pub open spec fn message_step(
    v: NodeView,
    has_store: bool,
    m: ResequenceableEvent,
    step: (Result<(), RebirthReason>, bool),
) -> Option<Seq<DeviceView>> {
    let res = step.0;
    let invalid = Err::<(), RebirthReason>(RebirthReason::InvalidPayload);
    let unknown = Err::<(), RebirthReason>(RebirthReason::UnknownDevice);
    match m {
        ResequenceableEvent::NData(d) => if (!has_store && res is Ok) || (has_store && (res is Ok
            || res == invalid) && exists|sr: Result<(), StateUpdateError>|
            #[trigger] (v.store_data)(d.metrics_details@, sr) && (sr is Ok <==> res is Ok)) {
            Some(v.devices)
        } else {
            None
        },
        ResequenceableEvent::DBirth(name, d) => {
            let (i, ds, allowed) = match v.device_index(name@) {
                Some(i) => (i, v.devices, true),
                None => (
                    v.devices.len() as int,
                    v.devices.push(DeviceView { name: name@, birthed: false, has_store: step.1 }),
                    (v.device_registers)(name@, step.1),
                ),
            };
            if !allowed {
                None
            } else if ds[i].has_store && !(v.store_births)(d.metrics_details@, res is Ok) {
                None
            } else if res is Ok {
                Some(devices_with(ds, i, true))
            } else if res == invalid && ds[i].has_store {
                Some(ds)
            } else {
                None
            }
        },
        ResequenceableEvent::DDeath(name) => match v.device_index(name@) {
            None => if res == unknown {
                Some(v.devices)
            } else {
                None
            },
            Some(i) => if res is Ok {
                Some(devices_with(v.devices, i, false))
            } else {
                None
            },
        },
        ResequenceableEvent::DData(name, d) => match v.device_index(name@) {
            None => if res == unknown {
                Some(v.devices)
            } else {
                None
            },
            Some(i) => if !v.devices[i].birthed {
                if res == Err::<(), RebirthReason>(RebirthReason::RecordedStateStale) {
                    Some(v.devices)
                } else {
                    None
                }
            } else if v.devices[i].has_store && !(v.store_data)(
                d.metrics_details@,
                store_data_outcome(res),
            ) {
                None
            } else if res is Ok || (v.devices[i].has_store && (res == invalid || res == Err::<
                (),
                RebirthReason,
            >(RebirthReason::UnknownMetric))) {
                Some(v.devices)
            } else {
                None
            },
        },
    }
}

/// Whether the device that `w` records beyond those `v` records, if any,
/// has a store.
pub open spec fn new_device_store(v: NodeView, w: NodeView) -> bool {
    w.devices.len() > v.devices.len() && w.devices.last().has_store
}

/// Hands on the held back messages of a node recorded as `v`, with pending
/// work `a`, while they are next in sequence, when they gave the results
/// `rs` in turn: the first refused message ends it. At the end the node's
/// record, the work to do and the outcome; `None` where `rs` cannot be the
/// results. When nothing is held back any more the reorder timer is stopped.
pub open spec fn drain_steps(
    v: NodeView,
    has_store: bool,
    a: NodeActions,
    rs: Seq<(Result<(), RebirthReason>, bool)>,
) -> Option<(NodeView, NodeActions, Result<(), RebirthReason>)>
    decreases rs.len(),
{
    let (p, d) = spec_drain(v.reseq);
    match d {
        DrainResult::Message(m) => if rs.len() == 0 {
            None
        } else {
            match message_step(NodeView { reseq: p, ..v }, has_store, m, rs[0]) {
                None => None,
                Some(ds) => {
                    let v1 = NodeView { reseq: p, devices: ds, ..v };
                    if rs[0].0 is Err {
                        if rs.len() == 1 {
                            Some((v1, a, rs[0].0))
                        } else {
                            None
                        }
                    } else {
                        drain_steps(v1, has_store, a, rs.drop_first())
                    }
                },
            }
        },
        DrainResult::Empty => if rs.len() == 0 {
            let (v1, a1) = NodeView { reseq: p, ..v }.cancel_timer(a);
            Some((v1, a1, Ok(())))
        } else {
            None
        },
        DrainResult::SequenceMissing => if rs.len() == 0 {
            Some((NodeView { reseq: p, ..v }, a, Ok(())))
        } else {
            None
        },
    }
}

/// [in_sequence_steps] for `m` with sequence number `seq`, which the
/// reordering of a node recorded as `v` hands on at once.
pub open spec fn next_in_sequence_steps(
    v: NodeView,
    has_store: bool,
    seq: u8,
    m: ResequenceableEvent,
    a: NodeActions,
    rs: Seq<(Result<(), RebirthReason>, bool)>,
) -> Option<(NodeView, NodeActions, Result<(), RebirthReason>)> {
    in_sequence_steps(
        NodeView { reseq: spec_process(v.reseq, seq, m).0, ..v },
        has_store,
        m,
        a,
        rs,
    )
}

/// Hands on the in sequence `m` and then the held back messages that follow
/// it, on a node recorded as `v` with pending work `a`, when they gave the
/// results `rs` in turn; as [drain_steps].
pub open spec fn in_sequence_steps(
    v: NodeView,
    has_store: bool,
    m: ResequenceableEvent,
    a: NodeActions,
    rs: Seq<(Result<(), RebirthReason>, bool)>,
) -> Option<(NodeView, NodeActions, Result<(), RebirthReason>)> {
    if rs.len() == 0 {
        None
    } else {
        match message_step(v, has_store, m, rs[0]) {
            None => None,
            Some(ds) => {
                let v1 = NodeView { devices: ds, ..v };
                if rs[0].0 is Err {
                    if rs.len() == 1 {
                        Some((v1, a, rs[0].0))
                    } else {
                        None
                    }
                } else {
                    drain_steps(v1, has_store, a, rs.drop_first())
                }
            },
        }
    }
}

impl<S: MetricStore, C: DeviceCreated<S>> Node<S, C> {
    fn find_device(&self, name: &String) -> (r: Option<usize>)
        ensures
            r is None <==> self@.device_index(name@) is None,
            r matches Some(i) ==> i < self@.devices.len() && self@.devices[i as int].name == name@
                && (self@.wf() ==> self@.device_index(name@) == Some(i as int)),
    {
        let mut i: usize = 0;
        while i < self.devices.len()
            invariant
                i <= self.devices@.len(),
                forall|j: int| 0 <= j < i ==> (#[trigger] self@.devices[j]).name != name@,
            decreases self.devices@.len() - i,
        {
            if str_eq(self.devices[i].name(), name.as_str()) {
                proof {
                    assert(self@.devices[i as int] == device_view(self.devices@[i as int]));
                    assert(self@.devices[i as int].name == name@);
                    if self@.wf() {
                        let c = choose|k: int| 0 <= k < self@.devices.len() && self@.devices[k].name == name@;
                        if c != i as int {
                            if c < i {
                                assert(self@.devices[c].name != name@);
                            } else {
                                assert(self@.devices[i as int].name != self@.devices[c].name);
                            }
                        }
                    }
                }
                return Some(i);
            }
            i = i + 1;
        }
        None
    }

    /// Hands node data to the node's store, if it has one.
    fn process_ndata(&mut self, ndata: NData) -> (r: Result<(), RebirthReason>)
        requires
            old(self)@.wf(),
        ensures
            *final(self) == *old(self) || (final(self)@ == old(self)@ && final(self).has_store()
                && final(self).spec_id() == old(self).spec_id()),
            final(self).has_store() == old(self).has_store(),
            message_step(
                old(self)@,
                old(self).has_store(),
                ResequenceableEvent::NData(ndata),
                (r, false),
            ) == Some(old(self)@.devices),
            old(self).spec_store() matches Some(st) ==> exists|sr: Result<(), StateUpdateError>|
                #[trigger] st.spec_data_result(ndata.metrics_details@, sr) && (sr is Ok <==> r is Ok),
    {
        let ghost details = ndata.metrics_details@;
        let ghost v = self@;
        let ghost hs = self.has_store();
        let ghost m = ResequenceableEvent::NData(ndata);
        if let Some(store) = &mut self.store {
            let ghost st = *store;
            let res = store.update_from_data(ndata.metrics_details);
            let r = match res {
                Ok(_) => Ok(()),
                Err(_) => Err(RebirthReason::InvalidPayload),
            };
            proof {
                assert(st.spec_data_result(details, res));
                assert((store_data_of::<S>())(details, res));
                assert(v.store_data == store_data_of::<S>());
                assert((v.store_data)(details, res) && (res is Ok <==> r is Ok));
                assert(m matches ResequenceableEvent::NData(d) && d.metrics_details@ == details);
                assert(message_step(v, hs, m, (r, false)) == Some(v.devices));
            }
            return r;
        }
        Ok(())
    }

    /// Hands an in sequence message to the node's or device's record and store.
    fn process_in_sequence_message(&mut self, message: ResequenceableEvent) -> (r: Result<
        (),
        RebirthReason,
    >)
        requires
            old(self)@.wf(),
        ensures
            final(self)@.wf(),
            final(self).has_store() == old(self).has_store(),
            final(self).spec_id() == old(self).spec_id(),
            final(self)@ == (NodeView { devices: final(self)@.devices, ..old(self)@ }),
            message_step(
                old(self)@,
                old(self).has_store(),
                message,
                (r, new_device_store(old(self)@, final(self)@)),
            ) == Some(final(self)@.devices),
            match message {
                ResequenceableEvent::NData(d) => (old(self).spec_store() matches Some(st) ==> exists|
                    sr: Result<(), StateUpdateError>,
                | #[trigger] st.spec_data_result(d.metrics_details@, sr) && (sr is Ok <==> r is Ok)),
                ResequenceableEvent::DBirth(name, d) => (old(self)@.device_index(name@) matches Some(i)
                    ==> (old(self).spec_device_store(i) matches Some(st) ==> st.spec_birth_result(
                    d.metrics_details@,
                    r is Ok,
                ))),
                ResequenceableEvent::DData(name, d) => (old(self)@.device_index(name@) matches Some(i)
                    ==> (old(self)@.devices[i].birthed ==> (old(self).spec_device_store(i) matches Some(
                    st,
                ) ==> st.spec_data_result(d.metrics_details@, store_data_outcome(r))))),
                ResequenceableEvent::DDeath(name) => (old(self)@.device_index(name@) matches Some(i)
                    ==> (final(self).spec_device_store(i) matches Some(st) ==> st.spec_is_stale())),
            },
    {
        match message {
            ResequenceableEvent::NData(ndata) => {
                self.process_ndata(ndata)
            },
            ResequenceableEvent::DBirth(device_name, dbirth) => {
                let ghost name = device_name@;
                let ghost details = dbirth.metrics_details@;
                let ghost m = ResequenceableEvent::DBirth(device_name, dbirth);
                let i = match self.find_device(&device_name) {
                    Some(i) => i,
                    None => {
                        let mut dev = Device::new(device_name);
                        if let Some(cb) = &self.device_created_cb {
                            cb.on_device_created(&mut dev);
                        }
                        let ghost before = self@.devices;
                        self.devices.push(dev);
                        assert(self@.devices =~= before.push(DeviceView { name, birthed: false, has_store: device_view(dev).has_store }));
                        self.devices.len() - 1
                    },
                };
                let ghost ds = self@.devices;
                let mut d = self.devices.remove(i);
                let ghost dst = d.spec_store();
                let r = d.handle_birth(dbirth.metrics_details);
                self.devices.insert(i, d);
                proof {
                    if let Some(st) = dst {
                        assert(st.spec_birth_result(details, r is Ok));
                        assert((self@.store_births)(details, r is Ok));
                    }
                    if r is Ok {
                        assert(self@.devices =~= devices_with(ds, i as int, true));
                    } else {
                        assert(self@.devices =~= ds);
                    }
                }
                r
            },
            ResequenceableEvent::DDeath(device_name) => {
                let i = match self.find_device(&device_name) {
                    Some(i) => i,
                    None => return Err(RebirthReason::UnknownDevice),
                };
                let mut d = self.devices.remove(i);
                d.set_stale();
                self.devices.insert(i, d);
                assert(self@.devices =~= devices_with(old(self)@.devices, i as int, false));
                Ok(())
            },
            ResequenceableEvent::DData(device_name, ddata) => {
                let ghost details = ddata.metrics_details@;
                let i = match self.find_device(&device_name) {
                    Some(i) => i,
                    None => return Err(RebirthReason::UnknownDevice),
                };
                let mut d = self.devices.remove(i);
                let ghost dst = d.spec_store();
                let ghost birthed = d.spec_birthed();
                let r = d.handle_data(ddata);
                self.devices.insert(i, d);
                proof {
                    if let (true, Some(st)) = (birthed, dst) {
                        assert(st.spec_data_result(details, store_data_outcome(r)));
                        assert((self@.store_data)(details, store_data_outcome(r)));
                    }
                }
                assert(self@.devices =~= old(self)@.devices);
                r
            },
        }
    }
}


impl<S: MetricStore, C: DeviceCreated<S>> Node<S, C> {
    /// Hands on held back messages while they are next in sequence.
    fn drain_resequence_buffer(&mut self, acts: &mut NodeActions) -> (r: Result<(), RebirthReason>)
        requires
            old(self)@.wf(),
        ensures
            final(self)@.wf(),
            final(self).has_store() == old(self).has_store(),
            final(self).spec_id() == old(self).spec_id(),
            final(self)@.birthed == old(self)@.birthed,
            final(self)@.birth_timestamp == old(self)@.birth_timestamp,
            final(self)@.bdseq == old(self)@.bdseq,
            final(self)@.last_rebirth == old(self)@.last_rebirth,
            final(self)@.config == old(self)@.config,
            final(self)@.timer_running ==> old(self)@.timer_running,
            *final(acts) == *old(acts) || *final(acts) == (NodeActions {
                cancel_reorder_timeout: true,
                ..*old(acts)
            }),
            r is Ok ==> !(spec_drain(final(self)@.reseq).1 is Message),
            r is Ok && final(self)@.reseq.offset is None ==> !final(self)@.timer_running,
            exists|rs: Seq<(Result<(), RebirthReason>, bool)>|
                #[trigger] drain_steps(old(self)@, old(self).has_store(), *old(acts), rs)
                    == Some((final(self)@, *final(acts), r)),
    {
        let ghost hs = self.has_store();
        let ghost mut done: Seq<(Result<(), RebirthReason>, bool)> = Seq::empty();
        proof {
            assert forall|rs2: Seq<(Result<(), RebirthReason>, bool)>|
                #[trigger] drain_steps(self@, hs, *acts, rs2) == drain_steps(
                    old(self)@,
                    hs,
                    *old(acts),
                    done + rs2,
                ) by {
                assert(done + rs2 =~= rs2);
            }
        }
        loop
            invariant
                hs == old(self).has_store(),
                forall|rs2: Seq<(Result<(), RebirthReason>, bool)>|
                    #[trigger] drain_steps(self@, hs, *acts, rs2) == drain_steps(
                        old(self)@,
                        hs,
                        *old(acts),
                        done + rs2,
                    ),
                self@.wf(),
                self.has_store() == old(self).has_store(),
                self.spec_id() == old(self).spec_id(),
                self@.birthed == old(self)@.birthed,
                self@.birth_timestamp == old(self)@.birth_timestamp,
                self@.bdseq == old(self)@.bdseq,
                self@.last_rebirth == old(self)@.last_rebirth,
                self@.config == old(self)@.config,
                self@.timer_running == old(self)@.timer_running,
                *acts == *old(acts),
            decreases self@.reseq.buffer.dom().len(),
        {
            proof {
                self.resequencer.lemma_buffer_finite();
                lemma_drain_preserves_wf(self@.reseq);
            }
            let ghost before = self@.reseq;
            let ghost before_node = self@;
            match self.resequencer.drain() {
                DrainResult::Message(message) => {
                    proof {
                        assert(before.buffer.contains_key(crate::app::resequencer::min_key(before.buffer))) by {
                            crate::app::resequencer::lemma_min_key_exists(before.buffer);
                        }
                        assert(self@.devices == before_node.devices);
                        assert(self@ == NodeView { reseq: spec_drain(before).0, ..before_node });
                    }
                    let ghost mid = self@;
                    let res = self.process_in_sequence_message(message);
                    let ghost step = (res, new_device_store(mid, self@));
                    proof {
                        let one = seq![step];
                        assert(drain_steps(before_node, hs, *acts, one) == drain_steps(
                            old(self)@,
                            hs,
                            *old(acts),
                            done + one,
                        ));
                        if res is Ok {
                            assert forall|rs2: Seq<(Result<(), RebirthReason>, bool)>|
                                #[trigger] drain_steps(self@, hs, *acts, rs2) == drain_steps(
                                    old(self)@,
                                    hs,
                                    *old(acts),
                                    done.push(step) + rs2,
                                ) by {
                                let longer = seq![step] + rs2;
                                assert(longer.drop_first() =~= rs2);
                                assert(done.push(step) + rs2 =~= done + longer);
                                assert(drain_steps(before_node, hs, *acts, longer) == drain_steps(
                                    old(self)@,
                                    hs,
                                    *old(acts),
                                    done + longer,
                                ));
                            }
                            done = done.push(step);
                        } else {
                            assert(drain_steps(old(self)@, hs, *old(acts), done + one) == Some(
                                (self@, *acts, res),
                            ));
                        }
                    }
                    match res {
                        Ok(()) => {},
                        Err(e) => return Err(e),
                    }
                },
                DrainResult::Empty => {
                    self.cancel_reorder_timeout(acts);
                    proof {
                        let none = Seq::<(Result<(), RebirthReason>, bool)>::empty();
                        assert(drain_steps(before_node, hs, *old(acts), none) == drain_steps(
                            old(self)@,
                            hs,
                            *old(acts),
                            done + none,
                        ));
                    }
                    return Ok(());
                },
                DrainResult::SequenceMissing => {
                    proof {
                        let none = Seq::<(Result<(), RebirthReason>, bool)>::empty();
                        assert(drain_steps(before_node, hs, *acts, none) == drain_steps(
                            old(self)@,
                            hs,
                            *old(acts),
                            done + none,
                        ));
                    }
                    return Ok(());
                },
            }
        }
    }

    fn handle_resequencable_message(
        &mut self,
        seq: u8,
        timestamp: u64,
        message: ResequenceableEvent,
        acts: &mut NodeActions,
    ) -> (r: Result<(), RebirthReason>)
        requires
            old(self)@.wf(),
            *old(acts) == NodeActions::spec_none(),
        ensures
            final(self)@.wf(),
            final(self).has_store() == old(self).has_store(),
            final(self).spec_id() == old(self).spec_id(),
            final(self)@.birth_timestamp == old(self)@.birth_timestamp,
            final(self)@.bdseq == old(self)@.bdseq,
            final(self)@.last_rebirth == old(self)@.last_rebirth,
            final(self)@.config == old(self)@.config,
            final(self)@.birthed == old(self)@.birthed,
            final(acts).rebirth is None,
            timestamp < old(self)@.birth_timestamp ==> r is Ok && final(self)@ == old(self)@
                && *final(acts) == *old(acts),
            timestamp >= old(self)@.birth_timestamp && !old(self)@.birthed ==> r == Err::<
                (),
                RebirthReason,
            >(RebirthReason::RecordedStateStale) && final(self)@ == old(self)@ && *final(acts)
                == *old(acts),
            timestamp >= old(self)@.birth_timestamp && old(self)@.birthed ==> {
                let (p, pr) = spec_process(old(self)@.reseq, seq, message);
                &&& pr is DuplicateMessageSequence ==> r == Err::<(), RebirthReason>(
                    RebirthReason::ReorderFail,
                ) && final(self)@ == old(self)@ && *final(acts) == *old(acts)
                &&& pr is OutOfSequenceMessageInserted ==> {
                    &&& r is Ok
                    &&& final(self)@ == (NodeView {
                        reseq: p,
                        timer_running: old(self)@.timer_running
                            || old(self)@.config.reorder_timeout is Some,
                        ..old(self)@
                    })
                    &&& *final(acts) == (if !old(self)@.timer_running {
                        NodeActions {
                            start_reorder_timeout: old(self)@.config.reorder_timeout,
                            ..*old(acts)
                        }
                    } else {
                        *old(acts)
                    })
                }
                &&& pr is MessageNextInSequence ==> exists|rs: Seq<(Result<(), RebirthReason>, bool)>|
                    #[trigger] next_in_sequence_steps(
                        old(self)@,
                        old(self).has_store(),
                        seq,
                        message,
                        *old(acts),
                        rs,
                    ) == Some((final(self)@, *final(acts), r))
            },
    {
        if timestamp < self.birth_timestamp {
            return Ok(());
        }
        if self.lifecycle_state != LifecycleState::Birthed {
            return Err(RebirthReason::RecordedStateStale);
        }
        proof {
            lemma_process_preserves_wf(self@.reseq, seq, message);
            if self@.reseq.offset is None {
                assert(!self@.reseq.buffer.contains_key(crate::app::resequencer::wsub(seq, self@.reseq.next_seq)));
            }
        }
        let message = match self.resequencer.process(seq, message) {
            ProcessResult::MessageNextInSequence(message) => message,
            ProcessResult::OutOfSequenceMessageInserted => {
                if !self.reorder_timeout_running {
                    self.start_reorder_timeout(acts);
                }
                return Ok(());
            },
            ProcessResult::DuplicateMessageSequence => {
                assert(self@ =~= old(self)@);
                return Err(RebirthReason::ReorderFail);
            },
        };
        let ghost hs = self.has_store();
        let ghost v1 = self@;
        let ghost m = message;
        let res = self.process_in_sequence_message(message);
        let ghost step = (res, new_device_store(v1, self@));
        match res {
            Ok(()) => {},
            Err(e) => {
                assert(in_sequence_steps(v1, hs, m, *acts, seq![step]) == Some((self@, *acts, res)));
                assert(next_in_sequence_steps(old(self)@, hs, seq, m, *acts, seq![step]) == Some((self@, *acts, res)));
                return Err(e);
            },
        }
        let ghost v2 = self@;
        let ghost a2 = *acts;
        let r = self.drain_resequence_buffer(acts);
        proof {
            let rs = choose|rs: Seq<(Result<(), RebirthReason>, bool)>|
                #[trigger] drain_steps(v2, hs, a2, rs) == Some((self@, *acts, r));
            let all = seq![step] + rs;
            assert(all.drop_first() =~= rs);
            assert(in_sequence_steps(v1, hs, m, a2, all) == Some((self@, *acts, r)));
            assert(next_in_sequence_steps(old(self)@, hs, seq, m, a2, all) == Some((self@, *acts, r)));
        }
        r
    }

    /// Handles a sequenced message (node data, or a device's birth, death or
    /// data) with `seq` and `timestamp`, received at `now`. Messages older
    /// than the latest birth are ignored; on a stale node, a repeated
    /// sequence number or a message the node or device record refuses, the
    /// node is asked for a rebirth; a message ahead of the expected sequence
    /// number is held back and the reorder timer started.
    pub fn handle_resequenceable_message(
        &mut self,
        seq: u8,
        timestamp: u64,
        message: ResequenceableEvent,
        now: u64,
    ) -> (r: NodeActions)
        requires
            old(self)@.wf(),
            old(self)@.last_rebirth <= now,
        ensures
            final(self).has_store() == old(self).has_store(),
            final(self).spec_id() == old(self).spec_id(),
            resequenced_outcome(
                old(self)@,
                old(self).has_store(),
                seq,
                timestamp,
                message,
                now,
                final(self)@,
                r,
            ),
            old(self)@.birthed && !final(self)@.birthed ==> final(self).stores_stale(),
    {
        let ghost hs = self.has_store();
        let mut acts = NodeActions::none();
        let res = self.handle_resequencable_message(seq, timestamp, message, &mut acts);
        let ghost mid = self@;
        let ghost mid_acts = acts;
        match res {
            Ok(()) => {},
            Err(reason) => {
                self.issue_rebirth_into(reason, now, &mut acts);
            },
        }
        proof {
            let (p, pr) = spec_process(old(self)@.reseq, seq, message);
            if timestamp >= old(self)@.birth_timestamp && old(self)@.birthed
                && pr is MessageNextInSequence {
                let rs = choose|rs: Seq<(Result<(), RebirthReason>, bool)>|
                    #[trigger] next_in_sequence_steps(
                        old(self)@,
                        hs,
                        seq,
                        message,
                        NodeActions::spec_none(),
                        rs,
                    ) == Some((mid, mid_acts, res));
                assert(settled(
                    next_in_sequence_steps(
                        old(self)@,
                        hs,
                        seq,
                        message,
                        NodeActions::spec_none(),
                        rs,
                    ),
                    now,
                ) == Some((self@, acts)));
            }
        }
        acts
    }
}

/// Law: a rebirth for a reason is asked for exactly when the configuration
/// flag named for that reason is set (for a reorder timeout, when a timeout
/// is configured).
pub proof fn lemma_rebirth_reason_reads_its_flag(c: RebirthConfig)
    ensures
        c.allows(RebirthReason::InvalidPayload) == c.invalid_payload,
        c.allows(RebirthReason::OutOfSyncBdSeq) == c.out_of_sync_bdseq,
        c.allows(RebirthReason::UnknownNode) == c.unknown_node,
        c.allows(RebirthReason::UnknownDevice) == c.unknown_device,
        c.allows(RebirthReason::UnknownMetric) == c.unknown_metric,
        c.allows(RebirthReason::ReorderTimeout) == (c.reorder_timeout is Some),
        c.allows(RebirthReason::ReorderFail) == c.reorder_failure,
        c.allows(RebirthReason::RecordedStateStale) == c.recorded_state_stale,
{
}

/// Law: a birthed node that gets a message, no older than its latest birth,
/// with a sequence number it already holds back asks for a rebirth for a
/// reorder failure when its configuration asks for one on reorder failures
/// and the cooldown since the last request has passed.
pub proof fn lemma_duplicate_sequence_asks_rebirth(
    v: NodeView,
    has_store: bool,
    seq: u8,
    timestamp: u64,
    message: ResequenceableEvent,
    now: u64,
    w: NodeView,
    r: NodeActions,
)
    requires
        v.birthed,
        timestamp >= v.birth_timestamp,
        spec_process(v.reseq, seq, message).1 is DuplicateMessageSequence,
        v.config.reorder_failure,
        now - v.last_rebirth >= v.config.rebirth_cooldown,
        resequenced_outcome(v, has_store, seq, timestamp, message, now, w, r),
    ensures
        r.rebirth == Some(RebirthReason::ReorderFail),
        w.last_rebirth == now,
{
}

/// Stopping the reorder timer, marking a node stale, asking it for a
/// rebirth and applying a birth keep its record well formed; none of them
/// moves the time of the last rebirth request, except a rebirth request
/// that goes ahead, which records the time it was made.
pub proof fn lemma_node_transitions_keep_wf(
    v: NodeView,
    a: NodeActions,
    reason: RebirthReason,
    now: u64,
    timestamp: u64,
    bdseq: u8,
)
    requires
        v.wf(),
    ensures
        v.cancel_timer(a).0.wf(),
        v.cancel_timer(a).0.last_rebirth == v.last_rebirth,
        v.set_stale(a, timestamp).0.wf(),
        v.set_stale(a, timestamp).0.last_rebirth == v.last_rebirth,
        v.issue_rebirth(a, reason, now).0.wf(),
        v.issue_rebirth(a, reason, now).0.last_rebirth == v.last_rebirth
            || v.issue_rebirth(a, reason, now).0.last_rebirth == now,
        v.apply_birth(a, timestamp, bdseq).0.wf(),
        v.apply_birth(a, timestamp, bdseq).0.last_rebirth == v.last_rebirth,
{
    let ds = v.devices_stale();
    assert forall|i: int, j: int| 0 <= i < j < ds.len() implies #[trigger] ds[i].name
        != #[trigger] ds[j].name by {
        assert(ds[i].name == v.devices[i].name);
        assert(ds[j].name == v.devices[j].name);
    }
    let w = NodeView { last_rebirth: now, ..v };
    assert(w.wf());
    assert(w.devices_stale() == ds);
}

/// Marking a node stale is idempotent: marking it stale again at the same
/// time changes nothing and leaves no further work.
pub proof fn lemma_set_stale_idempotent(v: NodeView, a: NodeActions, b: NodeActions, ts: u64)
    ensures
        v.set_stale(a, ts).0.set_stale(b, ts) == (v.set_stale(a, ts).0, b),
{
}

} // verus!
