//! The generic application: which node record each event of the event loop
//! goes to, when the application learns of a node, and when an unknown node
//! is asked for a rebirth.

use crate::app::eventloop::AppEvent;
use crate::app::events::{DeviceEvent, NodeEvent, NodeIdentifier};
use crate::app::generic_app::{
    birth_outcome, death_outcome, lemma_node_transitions_keep_wf, resequenced_outcome,
    DeviceCreated, MetricStore, Node, NodeActions, NodeView, RebirthConfig, RebirthReason,
    ResequenceableEvent,
};
use crate::app::resequencer::ResequencerView;
use crate::strings::str_eq;
use vstd::prelude::*;

verus! {

/// Called when the application first learns of a node, before any of the
/// node's messages is applied; typically registers a [MetricStore] and a
/// [DeviceCreated] callback with it. Neither changes the node's record.
pub trait NodeCreated<S: MetricStore, C: DeviceCreated<S>> {
    /// Whether the callback, run on a newly created node with identifier
    /// `id` and no store, may leave it with a store exactly when
    /// `has_store`. An implementation that says nothing allows both.
    open spec fn spec_registers(&self, id: (Seq<char>, Seq<char>), has_store: bool) -> bool {
        true
    }

    fn on_node_created(&self, node: &mut Node<S, C>)
        ensures
            final(node)@ == (NodeView { device_registers: final(node)@.device_registers, ..old(node)@ }),
            final(node).spec_id() == old(node).spec_id(),
            !old(node).has_store() ==> self.spec_registers(
                id_view(old(node).spec_id()),
                final(node).has_store(),
            ),
    ;
}

/// Which of the application's own callbacks an event calls.
#[derive(Debug, PartialEq, Eq, Structural, Clone, Copy)]
pub enum Notice {
    Online,
    Offline,
}

/// What the application's runtime does after an event.
#[derive(Debug)]
pub struct ApplicationStep {
    /// False once the event loop has been cancelled.
    pub running: bool,
    /// The application callback to call.
    pub notice: Option<Notice>,
    /// The work left by each node record the event changed: the node's
    /// index, and its actions.
    pub node_actions: Vec<(usize, NodeActions)>,
}

/// The record of a node the application has just learnt of, once the node
/// created callback has run; the callback and store relations are those of
/// `like`.
pub open spec fn fresh_node(config: RebirthConfig, like: NodeView) -> NodeView {
    NodeView {
        birthed: false,
        birth_timestamp: 0,
        bdseq: 0,
        last_rebirth: 0,
        timer_running: false,
        reseq: ResequencerView { next_seq: 0, offset: None, buffer: Map::empty() },
        devices: Seq::empty(),
        config,
        device_registers: like.device_registers,
        store_births: like.store_births,
        store_data: like.store_data,
    }
}

/// What the node created callback `cb` may leave of the store of a new
/// node `id`: with no callback the node has none.
pub open spec fn node_registers<S: MetricStore, C: DeviceCreated<S>, N: NodeCreated<S, C>>(
    cb: Option<N>,
    id: (Seq<char>, Seq<char>),
    has_store: bool,
) -> bool {
    match cb {
        Some(c) => c.spec_registers(id, has_store),
        None => !has_store,
    }
}

/// The index of the node with group `group` and id `node` among `ids`, if
/// the application knows it.
pub open spec fn node_index(ids: Seq<(Seq<char>, Seq<char>)>, group: Seq<char>, node: Seq<char>) -> Option<int> {
    if exists|i: int| 0 <= i < ids.len() && ids[i] == (group, node) {
        Some(choose|i: int| 0 <= i < ids.len() && ids[i] == (group, node))
    } else {
        None
    }
}

/// The index an event of node (`group`, `node`) goes to: the node's own,
/// or the next free one for a node the application learns of.
pub open spec fn routed_index(ids: Seq<(Seq<char>, Seq<char>)>, group: Seq<char>, node: Seq<char>) -> int {
    match node_index(ids, group, node) {
        Some(i) => i,
        None => ids.len() as int,
    }
}

/// The identifier of a node, as plain text.
pub open spec fn id_view(id: NodeIdentifier) -> (Seq<char>, Seq<char>) {
    (id.group@, id.node@)
}

/// The sequenced message a device event is handed on as, with its sequence
/// number and timestamp.
pub open spec fn device_message(name: String, e: DeviceEvent) -> (u8, u64, ResequenceableEvent) {
    match e {
        DeviceEvent::Birth(b) => (b.seq, b.timestamp, ResequenceableEvent::DBirth(name, b)),
        DeviceEvent::Death(d) => (d.seq, d.timestamp, ResequenceableEvent::DDeath(name)),
        DeviceEvent::Data(d) => (d.seq, d.timestamp, ResequenceableEvent::DData(name, d)),
    }
}

/// The nodes an application knows of, and the rebirth configuration it
/// gives the nodes it learns of.
pub struct Application<S, C, N> {
    nodes: Vec<Node<S, C>>,
    rebirth_config: RebirthConfig,
    node_created_cb: Option<N>,
    clock: u64,
}

impl<S: MetricStore, C: DeviceCreated<S>, N: NodeCreated<S, C>> Application<S, C, N> {
    /// The callback told of each node the application learns of, if one is
    /// registered.
    pub closed spec fn spec_node_created(&self) -> Option<N> {
        self.node_created_cb
    }

    /// The records of the known nodes.
    pub closed spec fn spec_nodes(&self) -> Seq<NodeView> {
        self.nodes@.map_values(|n: Node<S, C>| n@)
    }

    /// The identifiers of the known nodes, index for index.
    pub closed spec fn spec_ids(&self) -> Seq<(Seq<char>, Seq<char>)> {
        self.nodes@.map_values(|n: Node<S, C>| id_view(n.spec_id()))
    }

    /// Which known nodes have a metric store, index for index.
    pub closed spec fn spec_stores(&self) -> Seq<bool> {
        self.nodes@.map_values(|n: Node<S, C>| n.has_store())
    }

    /// The rebirth configuration new nodes get.
    pub closed spec fn spec_config(&self) -> RebirthConfig {
        self.rebirth_config
    }

    /// The latest time handed in, in milliseconds since the epoch.
    pub closed spec fn spec_clock(&self) -> u64 {
        self.clock
    }

    /// Every store registered with the node at index `i` or with one of its
    /// devices is marked stale.
    pub closed spec fn node_stores_stale(&self, i: int) -> bool {
        self.nodes@[i].stores_stale()
    }

    /// Every node that `before` records as birthed and this application
    /// records as stale has had all its stores marked stale.
    pub open spec fn told_stores_stale(&self, before: Seq<NodeView>) -> bool {
        forall|i: int|
            0 <= i < before.len() && before[i].birthed && !self.spec_nodes()[i].birthed
                ==> #[trigger] self.node_stores_stale(i)
    }

    /// Every node record is well formed, no rebirth was requested after the
    /// latest time handed in, and no node is known twice.
    pub open spec fn wf(&self) -> bool {
        &&& self.spec_ids().len() == self.spec_nodes().len()
        &&& self.spec_stores().len() == self.spec_nodes().len()
        &&& forall|i: int|
            0 <= i < self.spec_nodes().len() ==> (#[trigger] self.spec_nodes()[i]).wf()
                && self.spec_nodes()[i].last_rebirth <= self.spec_clock()
        &&& forall|i: int, j: int|
            0 <= i < j < self.spec_ids().len() ==> #[trigger] self.spec_ids()[i]
                != #[trigger] self.spec_ids()[j]
    }

    /// An application that knows no node yet, whose nodes get the default
    /// rebirth configuration.
    pub fn new() -> (r: Self)
        ensures
            r.wf(),
            r.spec_nodes() == Seq::<NodeView>::empty(),
            r.spec_config() == RebirthConfig::spec_default(),
            r.spec_clock() == 0,
    {
        let r = Self {
            nodes: Vec::new(),
            rebirth_config: RebirthConfig::default(),
            node_created_cb: None,
            clock: 0,
        };
        assert(r.spec_nodes() =~= Seq::<NodeView>::empty());
        assert(r.spec_ids() =~= Seq::<(Seq<char>, Seq<char>)>::empty());
        assert(r.spec_stores() =~= Seq::<bool>::empty());
        r
    }

    /// Register a callback to be notified when a new node is created.
    pub fn on_node_created(&mut self, cb: N)
        ensures
            final(self).spec_nodes() == old(self).spec_nodes(),
            final(self).spec_ids() == old(self).spec_ids(),
            final(self).spec_stores() == old(self).spec_stores(),
            final(self).spec_config() == old(self).spec_config(),
            final(self).spec_clock() == old(self).spec_clock(),
            final(self).spec_node_created() == Some(cb),
    {
        self.node_created_cb = Some(cb);
    }

    /// Provide the configuration for how nodes the application learns of
    /// from now on handle the conditions that may call for a rebirth.
    pub fn with_rebirth_config(&mut self, config: RebirthConfig)
        ensures
            final(self).spec_nodes() == old(self).spec_nodes(),
            final(self).spec_ids() == old(self).spec_ids(),
            final(self).spec_stores() == old(self).spec_stores(),
            final(self).spec_config() == config,
            final(self).spec_clock() == old(self).spec_clock(),
            final(self).spec_node_created() == old(self).spec_node_created(),
    {
        self.rebirth_config = config;
    }

    /// The number of known nodes.
    pub fn node_count(&self) -> (r: usize)
        ensures
            r == self.spec_nodes().len(),
    {
        proof {
            assert(self.spec_nodes().len() == self.nodes@.len());
        }
        self.nodes.len()
    }

    /// The known node at index `i`.
    pub fn node(&self, i: usize) -> (r: &Node<S, C>)
        requires
            i < self.spec_nodes().len(),
        ensures
            r@ == self.spec_nodes()[i as int],
            id_view(r.spec_id()) == self.spec_ids()[i as int],
    {
        &self.nodes[i]
    }

    /// The index of the known node `id`, if there is one.
    pub fn find_node(&self, id: &NodeIdentifier) -> (r: Option<usize>)
        requires
            self.wf(),
        ensures
            r is None <==> node_index(self.spec_ids(), id.group@, id.node@) is None,
            r matches Some(i) ==> node_index(self.spec_ids(), id.group@, id.node@) == Some(
                i as int,
            ),
    {
        let ghost ids = self.spec_ids();
        let mut i: usize = 0;
        while i < self.nodes.len()
            invariant
                i <= self.nodes@.len(),
                ids == self.spec_ids(),
                ids.len() == self.nodes@.len(),
                self.wf(),
                forall|j: int| 0 <= j < i ==> ids[j] != (id.group@, id.node@),
            decreases self.nodes@.len() - i,
        {
            let nid = self.nodes[i].id();
            assert(ids[i as int] == id_view(self.nodes@[i as int].spec_id()));
            if str_eq(nid.group.as_str(), id.group.as_str()) && str_eq(
                nid.node.as_str(),
                id.node.as_str(),
            ) {
                proof {
                    assert(ids[i as int] == (id.group@, id.node@));
                    let c = choose|k: int| 0 <= k < ids.len() && ids[k] == (id.group@, id.node@);
                    if c != i as int {
                        if c < i {
                        } else {
                            assert(ids[i as int] != ids[c]);
                        }
                    }
                }
                return Some(i);
            }
            i = i + 1;
        }
        None
    }

    /// Learns of node `id`: its record is created, handed to the node
    /// created callback, and appended.
    fn create_node(&mut self, id: NodeIdentifier) -> (r: usize)
        requires
            old(self).wf(),
            node_index(old(self).spec_ids(), id.group@, id.node@) is None,
        ensures
            final(self).wf(),
            r == old(self).spec_nodes().len(),
            final(self).spec_nodes() == old(self).spec_nodes().push(
                fresh_node(old(self).spec_config(), final(self).spec_nodes().last()),
            ),
            final(self).spec_ids() == old(self).spec_ids().push(id_view(id)),
            node_registers::<S, C, N>(
                old(self).spec_node_created(),
                id_view(id),
                final(self).spec_stores().last(),
            ),
            final(self).spec_stores().len() == old(self).spec_stores().len() + 1,
            final(self).spec_stores().take(old(self).spec_stores().len() as int) == old(
                self,
            ).spec_stores(),
            final(self).spec_config() == old(self).spec_config(),
            final(self).spec_clock() == old(self).spec_clock(),
            final(self).spec_node_created() == old(self).spec_node_created(),
    {
        let ghost ids = self.spec_ids();
        let ghost views = self.spec_nodes();
        let ghost stores = self.spec_stores();
        let mut node: Node<S, C> = Node::new(id, self.rebirth_config);
        if let Some(cb) = &self.node_created_cb {
            cb.on_node_created(&mut node);
        }
        let ghost nv = node@;
        let ghost ni = id_view(node.spec_id());
        let ghost ns = node.has_store();
        self.nodes.push(node);
        assert(self.spec_nodes() =~= views.push(nv));
        assert(self.spec_ids() =~= ids.push(ni));
        assert(self.spec_stores() =~= stores.push(ns));
        assert(self.spec_stores().take(stores.len() as int) =~= stores);
        proof {
            assert forall|i: int, j: int|
                0 <= i < j < self.spec_ids().len() implies #[trigger] self.spec_ids()[i]
                != #[trigger] self.spec_ids()[j] by {
                if j == ids.len() {
                    if ids[i] == ni {
                        assert(0 <= i < ids.len() && ids[i] == (ni.0, ni.1));
                    }
                }
            }
        }
        self.nodes.len() - 1
    }

    /// The index of node `id`, learning of it first if it is unknown.
    fn get_or_create_node(&mut self, id: NodeIdentifier) -> (r: usize)
        requires
            old(self).wf(),
        ensures
            final(self).wf(),
            r == routed_index(old(self).spec_ids(), id.group@, id.node@),
            node_index(old(self).spec_ids(), id.group@, id.node@) is Some ==> {
                &&& final(self).spec_nodes() == old(self).spec_nodes()
                &&& final(self).spec_ids() == old(self).spec_ids()
                &&& final(self).spec_stores() == old(self).spec_stores()
            },
            node_index(old(self).spec_ids(), id.group@, id.node@) is None ==> {
                &&& final(self).spec_nodes() == old(self).spec_nodes().push(
                    fresh_node(old(self).spec_config(), final(self).spec_nodes().last()),
                )
                &&& final(self).spec_ids() == old(self).spec_ids().push(id_view(id))
                &&& node_registers::<S, C, N>(
                    old(self).spec_node_created(),
                    id_view(id),
                    final(self).spec_stores().last(),
                )
                &&& final(self).spec_stores().len() == old(self).spec_stores().len() + 1
                &&& final(self).spec_stores().take(old(self).spec_stores().len() as int) == old(
                    self,
                ).spec_stores()
            },
            final(self).spec_config() == old(self).spec_config(),
            final(self).spec_clock() == old(self).spec_clock(),
            final(self).spec_node_created() == old(self).spec_node_created(),
    {
        match self.find_node(&id) {
            Some(i) => i,
            None => self.create_node(id),
        }
    }

    /// Takes the record at `i` out, to be put back by [Self::restore_node].
    fn take_node(&mut self, i: usize) -> (r: Node<S, C>)
        requires
            i < old(self).spec_nodes().len(),
            old(self).wf(),
        ensures
            r@ == old(self).spec_nodes()[i as int],
            r == old(self).nodes@[i as int],
            final(self).nodes@ == old(self).nodes@.remove(i as int),
            id_view(r.spec_id()) == old(self).spec_ids()[i as int],
            r.has_store() == old(self).spec_stores()[i as int],
            final(self).spec_nodes() == old(self).spec_nodes().remove(i as int),
            final(self).spec_ids() == old(self).spec_ids().remove(i as int),
            final(self).spec_stores() == old(self).spec_stores().remove(i as int),
            final(self).spec_config() == old(self).spec_config(),
            final(self).spec_clock() == old(self).spec_clock(),
            final(self).spec_node_created() == old(self).spec_node_created(),
    {
        let ghost views = self.spec_nodes();
        let ghost ids = self.spec_ids();
        let ghost stores = self.spec_stores();
        let n = self.nodes.remove(i);
        assert(self.spec_nodes() =~= views.remove(i as int));
        assert(self.spec_ids() =~= ids.remove(i as int));
        assert(self.spec_stores() =~= stores.remove(i as int));
        n
    }

    /// Puts a record taken out at `i` back, changed.
    fn restore_node(&mut self, i: usize, node: Node<S, C>)
        requires
            i <= old(self).spec_nodes().len(),
            old(self).spec_ids().len() == old(self).spec_nodes().len(),
            old(self).spec_stores().len() == old(self).spec_nodes().len(),
        ensures
            final(self).spec_nodes() == old(self).spec_nodes().insert(i as int, node@),
            final(self).nodes@ == old(self).nodes@.insert(i as int, node),
            final(self).spec_ids() == old(self).spec_ids().insert(i as int, id_view(node.spec_id())),
            final(self).spec_stores() == old(self).spec_stores().insert(i as int, node.has_store()),
            final(self).spec_config() == old(self).spec_config(),
            final(self).spec_clock() == old(self).spec_clock(),
            final(self).spec_node_created() == old(self).spec_node_created(),
    {
        let ghost views = self.spec_nodes();
        let ghost ids = self.spec_ids();
        let ghost stores = self.spec_stores();
        let ghost nv = node@;
        let ghost ni = id_view(node.spec_id());
        let ghost ns = node.has_store();
        self.nodes.insert(i, node);
        assert(self.spec_nodes() =~= views.insert(i as int, nv));
        assert(self.spec_ids() =~= ids.insert(i as int, ni));
        assert(self.spec_stores() =~= stores.insert(i as int, ns));
    }
}

impl<S: MetricStore, C: DeviceCreated<S>, N: NodeCreated<S, C>> Application<S, C, N> {
    /// Puts back record `node`, taken out at `k`, changed to `w` with its
    /// identifier and store kept; the application stays well formed when
    /// `w` is well formed and requested no rebirth after the latest time.
    proof fn lemma_restored(
        before: Self,
        after: Self,
        k: int,
        w: NodeView,
    )
        requires
            before.wf(),
            0 <= k < before.spec_nodes().len(),
            after.spec_nodes() == before.spec_nodes().update(k, w),
            after.spec_ids() == before.spec_ids(),
            after.spec_stores() == before.spec_stores(),
            after.spec_clock() == before.spec_clock(),
            w.wf(),
            w.last_rebirth <= before.spec_clock(),
        ensures
            after.wf(),
    {
        assert forall|i: int| 0 <= i < after.spec_nodes().len() implies (#[trigger] after.spec_nodes()[i]).wf()
            && after.spec_nodes()[i].last_rebirth <= after.spec_clock() by {
            if i != k {
                assert(after.spec_nodes()[i] == before.spec_nodes()[i]);
            }
        }
    }

    /// Putting back at `k` a record whose stores were all marked stale if it
    /// went from birthed to stale tells every such node's stores.
    proof fn lemma_told_one(before: Self, after: Self, k: int)
        requires
            0 <= k < before.nodes@.len(),
            after.nodes@ == before.nodes@.update(k, after.nodes@[k]),
            before.nodes@[k]@.birthed && !after.nodes@[k]@.birthed ==> after.nodes@[k].stores_stale(),
        ensures
            after.told_stores_stale(before.spec_nodes()),
    {
        assert forall|i: int|
            0 <= i < before.spec_nodes().len() && before.spec_nodes()[i].birthed
                && !after.spec_nodes()[i].birthed implies #[trigger] after.node_stores_stale(i) by {
            assert(before.spec_nodes()[i] == before.nodes@[i]@);
            assert(after.spec_nodes()[i] == after.nodes@[i]@);
        }
    }

    /// What holds of the first `before.len()` records holds of `before`.
    proof fn lemma_told_prefix(app: Self, before: Seq<NodeView>, mid: Seq<NodeView>)
        requires
            app.told_stores_stale(mid),
            before.len() <= mid.len(),
            forall|i: int| 0 <= i < before.len() ==> mid[i] == before[i],
        ensures
            app.told_stores_stale(before),
    {
        assert forall|i: int|
            0 <= i < before.len() && before[i].birthed && !app.spec_nodes()[i].birthed
                implies #[trigger] app.node_stores_stale(i) by {
            assert(mid[i] == before[i]);
        }
    }

    fn birth_at(&mut self, k: usize, birth: crate::app::events::NBirth) -> (r: NodeActions)
        requires
            old(self).wf(),
            k < old(self).spec_nodes().len(),
        ensures
            final(self).wf(),
            final(self).nodes@ == old(self).nodes@.update(k as int, final(self).nodes@[k as int]),
            final(self).told_stores_stale(old(self).spec_nodes()),
            final(self).spec_ids() == old(self).spec_ids(),
            final(self).spec_stores() == old(self).spec_stores(),
            final(self).spec_config() == old(self).spec_config(),
            final(self).spec_clock() == old(self).spec_clock(),
            final(self).spec_node_created() == old(self).spec_node_created(),
            final(self).spec_nodes() == old(self).spec_nodes().update(
                k as int,
                final(self).spec_nodes()[k as int],
            ),
            birth_outcome(
                old(self).spec_nodes()[k as int],
                old(self).spec_stores()[k as int],
                birth.timestamp,
                birth.bdseq,
                old(self).spec_clock(),
                final(self).spec_nodes()[k as int],
                r,
            ),
    {
        let ghost before = *self;
        let now = self.clock;
        let mut node = self.take_node(k);
        let ghost v = node@;
        let acts = node.handle_birth(birth, now);
        proof {
            lemma_node_transitions_keep_wf(v, NodeActions::spec_none(), RebirthReason::InvalidPayload, now, birth.timestamp, birth.bdseq);
        }
        let ghost w = node@;
        self.restore_node(k, node);
        proof {
            assert(self.spec_nodes() =~= before.spec_nodes().update(k as int, w));
            assert(self.spec_ids() =~= before.spec_ids());
            assert(self.spec_stores() =~= before.spec_stores());
            Self::lemma_restored(before, *self, k as int, w);
            assert(self.nodes@ =~= before.nodes@.update(k as int, self.nodes@[k as int]));
            Self::lemma_told_one(before, *self, k as int);
        }
        acts
    }

    fn death_at(&mut self, k: usize, bdseq: u8) -> (r: NodeActions)
        requires
            old(self).wf(),
            k < old(self).spec_nodes().len(),
        ensures
            final(self).wf(),
            final(self).nodes@ == old(self).nodes@.update(k as int, final(self).nodes@[k as int]),
            final(self).told_stores_stale(old(self).spec_nodes()),
            final(self).spec_ids() == old(self).spec_ids(),
            final(self).spec_stores() == old(self).spec_stores(),
            final(self).spec_config() == old(self).spec_config(),
            final(self).spec_clock() == old(self).spec_clock(),
            final(self).spec_node_created() == old(self).spec_node_created(),
            ({
                let (w, a) = death_outcome(
                    old(self).spec_nodes()[k as int],
                    bdseq,
                    old(self).spec_clock(),
                    old(self).spec_clock(),
                );
                &&& final(self).spec_nodes() == old(self).spec_nodes().update(k as int, w)
                &&& r == a
            }),
    {
        let ghost before = *self;
        let now = self.clock;
        let mut node = self.take_node(k);
        let ghost v = node@;
        let acts = node.handle_death(bdseq, now, now);
        proof {
            let (v1, a1) = v.cancel_timer(NodeActions::spec_none());
            lemma_node_transitions_keep_wf(v, NodeActions::spec_none(), RebirthReason::OutOfSyncBdSeq, now, now, bdseq);
            let (v2, a2) = v1.set_stale(a1, now);
            lemma_node_transitions_keep_wf(v1, a1, RebirthReason::OutOfSyncBdSeq, now, now, bdseq);
            lemma_node_transitions_keep_wf(v2, a2, RebirthReason::OutOfSyncBdSeq, now, now, bdseq);
        }
        let ghost w = node@;
        self.restore_node(k, node);
        proof {
            assert(self.spec_nodes() =~= before.spec_nodes().update(k as int, w));
            assert(self.spec_ids() =~= before.spec_ids());
            assert(self.spec_stores() =~= before.spec_stores());
            Self::lemma_restored(before, *self, k as int, w);
            assert(self.nodes@ =~= before.nodes@.update(k as int, self.nodes@[k as int]));
            Self::lemma_told_one(before, *self, k as int);
        }
        acts
    }

    fn sequenced_at(&mut self, k: usize, seq: u8, timestamp: u64, message: ResequenceableEvent) -> (r:
        NodeActions)
        requires
            old(self).wf(),
            k < old(self).spec_nodes().len(),
        ensures
            final(self).wf(),
            final(self).nodes@ == old(self).nodes@.update(k as int, final(self).nodes@[k as int]),
            final(self).told_stores_stale(old(self).spec_nodes()),
            final(self).spec_ids() == old(self).spec_ids(),
            final(self).spec_stores() == old(self).spec_stores(),
            final(self).spec_config() == old(self).spec_config(),
            final(self).spec_clock() == old(self).spec_clock(),
            final(self).spec_node_created() == old(self).spec_node_created(),
            final(self).spec_nodes() == old(self).spec_nodes().update(
                k as int,
                final(self).spec_nodes()[k as int],
            ),
            resequenced_outcome(
                old(self).spec_nodes()[k as int],
                old(self).spec_stores()[k as int],
                seq,
                timestamp,
                message,
                old(self).spec_clock(),
                final(self).spec_nodes()[k as int],
                r,
            ),
    {
        let ghost before = *self;
        let now = self.clock;
        let mut node = self.take_node(k);
        let acts = node.handle_resequenceable_message(seq, timestamp, message, now);
        let ghost w = node@;
        self.restore_node(k, node);
        proof {
            assert(self.spec_nodes() =~= before.spec_nodes().update(k as int, w));
            assert(self.spec_ids() =~= before.spec_ids());
            assert(self.spec_stores() =~= before.spec_stores());
            Self::lemma_restored(before, *self, k as int, w);
            assert(self.nodes@ =~= before.nodes@.update(k as int, self.nodes@[k as int]));
            Self::lemma_told_one(before, *self, k as int);
        }
        acts
    }

    fn rebirth_at(&mut self, k: usize, reason: RebirthReason) -> (r: NodeActions)
        requires
            old(self).wf(),
            k < old(self).spec_nodes().len(),
        ensures
            final(self).wf(),
            final(self).nodes@ == old(self).nodes@.update(k as int, final(self).nodes@[k as int]),
            final(self).told_stores_stale(old(self).spec_nodes()),
            final(self).spec_ids() == old(self).spec_ids(),
            final(self).spec_stores() == old(self).spec_stores(),
            final(self).spec_config() == old(self).spec_config(),
            final(self).spec_clock() == old(self).spec_clock(),
            final(self).spec_node_created() == old(self).spec_node_created(),
            ({
                let (w, a) = old(self).spec_nodes()[k as int].issue_rebirth(
                    NodeActions::spec_none(),
                    reason,
                    old(self).spec_clock(),
                );
                &&& final(self).spec_nodes() == old(self).spec_nodes().update(k as int, w)
                &&& r == a
            }),
    {
        let ghost before = *self;
        let now = self.clock;
        let mut node = self.take_node(k);
        let ghost v = node@;
        let acts = node.issue_rebirth(reason, now);
        proof {
            lemma_node_transitions_keep_wf(v, NodeActions::spec_none(), reason, now, now, 0);
        }
        let ghost w = node@;
        self.restore_node(k, node);
        proof {
            assert(self.spec_nodes() =~= before.spec_nodes().update(k as int, w));
            assert(self.spec_ids() =~= before.spec_ids());
            assert(self.spec_stores() =~= before.spec_stores());
            Self::lemma_restored(before, *self, k as int, w);
            assert(self.nodes@ =~= before.nodes@.update(k as int, self.nodes@[k as int]));
            Self::lemma_told_one(before, *self, k as int);
        }
        acts
    }

    fn offline_at(&mut self, k: usize) -> (r: NodeActions)
        requires
            old(self).wf(),
            k < old(self).spec_nodes().len(),
        ensures
            final(self).wf(),
            final(self).nodes@ == old(self).nodes@.update(k as int, final(self).nodes@[k as int]),
            final(self).told_stores_stale(old(self).spec_nodes()),
            final(self).spec_ids() == old(self).spec_ids(),
            final(self).spec_stores() == old(self).spec_stores(),
            final(self).spec_config() == old(self).spec_config(),
            final(self).spec_clock() == old(self).spec_clock(),
            final(self).spec_node_created() == old(self).spec_node_created(),
            ({
                let (w, a) = old(self).spec_nodes()[k as int].set_stale(
                    NodeActions::spec_none(),
                    old(self).spec_clock(),
                );
                &&& final(self).spec_nodes() == old(self).spec_nodes().update(k as int, w)
                &&& r == a
            }),
    {
        let ghost before = *self;
        let now = self.clock;
        let mut node = self.take_node(k);
        let ghost v = node@;
        let acts = node.handle_offline(now);
        proof {
            lemma_node_transitions_keep_wf(v, NodeActions::spec_none(), RebirthReason::InvalidPayload, now, now, 0);
        }
        let ghost w = node@;
        self.restore_node(k, node);
        proof {
            assert(self.spec_nodes() =~= before.spec_nodes().update(k as int, w));
            assert(self.spec_ids() =~= before.spec_ids());
            assert(self.spec_stores() =~= before.spec_stores());
            Self::lemma_restored(before, *self, k as int, w);
            assert(self.nodes@ =~= before.nodes@.update(k as int, self.nodes@[k as int]));
            Self::lemma_told_one(before, *self, k as int);
        }
        acts
    }
}

/// The records `nvs`, identifiers `nids` and stores `nstores` after an event
/// of node `id` went to index `routed_index(ids, id)`: a known node keeps its
/// place, an unknown one is appended; no other record changes.
pub open spec fn routed_to(
    vs: Seq<NodeView>,
    ids: Seq<(Seq<char>, Seq<char>)>,
    stores: Seq<bool>,
    id: (Seq<char>, Seq<char>),
    nvs: Seq<NodeView>,
    nids: Seq<(Seq<char>, Seq<char>)>,
    nstores: Seq<bool>,
) -> bool {
    let k = routed_index(ids, id.0, id.1);
    &&& nids == if k < ids.len() {
        ids
    } else {
        ids.push(id)
    }
    &&& nvs.len() == nids.len()
    &&& nstores.len() == nids.len()
    &&& forall|j: int| 0 <= j < vs.len() && j != k ==> nvs[j] == vs[j] && nstores[j] == stores[j]
    &&& k < ids.len() ==> nstores[k] == stores[k]
}

/// The record an event of node `id` starts from: the known node's, or that
/// of a node just learnt of.
pub open spec fn routed_base(
    vs: Seq<NodeView>,
    ids: Seq<(Seq<char>, Seq<char>)>,
    config: RebirthConfig,
    id: (Seq<char>, Seq<char>),
    like: NodeView,
) -> NodeView {
    let k = routed_index(ids, id.0, id.1);
    if k < ids.len() {
        vs[k]
    } else {
        fresh_node(config, like)
    }
}

/// The outcome of `event` at time `now` on an application whose nodes are
/// recorded as `vs`, identified by `ids`, with stores `stores`, and which
/// gives new nodes `config`: the records, identifiers and stores after it,
/// and the work left by each record it changed.
///
/// - Going offline marks every node stale.
/// - A node birth goes to its node, which the application learns of if it
///   is unknown.
/// - A node death of an unknown node is dropped.
/// - Node data and device messages go to their node; from an unknown node
///   they are dropped, and the application learns of the node and asks it
///   for a rebirth.
/// - An invalid payload asks its node for a rebirth if the configuration
///   says so, learning of the node if it is unknown.
pub open spec fn event_outcome(
    vs: Seq<NodeView>,
    ids: Seq<(Seq<char>, Seq<char>)>,
    stores: Seq<bool>,
    config: RebirthConfig,
    event: AppEvent,
    now: u64,
    nvs: Seq<NodeView>,
    nids: Seq<(Seq<char>, Seq<char>)>,
    nstores: Seq<bool>,
    acts: Seq<(usize, NodeActions)>,
) -> bool {
    let unchanged = nvs == vs && nids == ids && nstores == stores && acts.len() == 0;
    match event {
        AppEvent::Online => unchanged,
        AppEvent::Cancelled => unchanged,
        AppEvent::Offline => {
            &&& nids == ids
            &&& nstores == stores
            &&& nvs.len() == vs.len()
            &&& acts.len() == vs.len()
            &&& forall|i: int|
                0 <= i < vs.len() ==> (#[trigger] acts[i]).0 == i && (nvs[i], acts[i].1)
                    == vs[i].set_stale(NodeActions::spec_none(), now)
        },
        AppEvent::Node(e) => {
            let id = id_view(e.id);
            let k = routed_index(ids, id.0, id.1);
            match e.event {
                NodeEvent::Death(d) => if k < ids.len() {
                    let (w, a) = death_outcome(vs[k], d.bdseq, now, now);
                    &&& nvs == vs.update(k, w)
                    &&& nids == ids
                    &&& nstores == stores
                    &&& acts == seq![(k as usize, a)]
                } else {
                    unchanged
                },
                NodeEvent::Birth(b) => {
                    &&& routed_to(vs, ids, stores, id, nvs, nids, nstores)
                    &&& acts.len() == 1
                    &&& acts[0].0 == k
                    &&& birth_outcome(
                        routed_base(vs, ids, config, id, nvs[k]),
                        nstores[k],
                        b.timestamp,
                        b.bdseq,
                        now,
                        nvs[k],
                        acts[0].1,
                    )
                },
                NodeEvent::Data(d) => {
                    &&& routed_to(vs, ids, stores, id, nvs, nids, nstores)
                    &&& acts.len() == 1
                    &&& acts[0].0 == k
                    &&& if k < ids.len() {
                        resequenced_outcome(
                            vs[k],
                            stores[k],
                            d.seq,
                            d.timestamp,
                            ResequenceableEvent::NData(d),
                            now,
                            nvs[k],
                            acts[0].1,
                        )
                    } else {
                        (nvs[k], acts[0].1) == fresh_node(config, nvs[k]).issue_rebirth(
                            NodeActions::spec_none(),
                            RebirthReason::UnknownNode,
                            now,
                        )
                    }
                },
            }
        },
        AppEvent::Device(e) => {
            let id = id_view(e.id);
            let k = routed_index(ids, id.0, id.1);
            let (seq, timestamp, message) = device_message(e.name, e.event);
            &&& routed_to(vs, ids, stores, id, nvs, nids, nstores)
            &&& acts.len() == 1
            &&& acts[0].0 == k
            &&& if k < ids.len() {
                resequenced_outcome(
                    vs[k],
                    stores[k],
                    seq,
                    timestamp,
                    message,
                    now,
                    nvs[k],
                    acts[0].1,
                )
            } else {
                (nvs[k], acts[0].1) == fresh_node(config, nvs[k]).issue_rebirth(
                    NodeActions::spec_none(),
                    RebirthReason::UnknownNode,
                    now,
                )
            }
        },
        AppEvent::InvalidPayload(d) => if config.invalid_payload {
            let id = id_view(d.node_id);
            let k = routed_index(ids, id.0, id.1);
            &&& routed_to(vs, ids, stores, id, nvs, nids, nstores)
            &&& acts.len() == 1
            &&& acts[0].0 == k
            &&& (nvs[k], acts[0].1) == routed_base(vs, ids, config, id, nvs[k]).issue_rebirth(
                NodeActions::spec_none(),
                RebirthReason::InvalidPayload,
                now,
            )
        } else {
            unchanged
        },
    }
}

impl<S: MetricStore, C: DeviceCreated<S>, N: NodeCreated<S, C>> Application<S, C, N> {
    /// Moves the application's clock to `now`.
    fn advance_clock(&mut self, now: u64)
        requires
            old(self).wf(),
            old(self).spec_clock() <= now,
        ensures
            final(self).wf(),
            final(self).spec_clock() == now,
            final(self).nodes == old(self).nodes,
            final(self).spec_node_created() == old(self).spec_node_created(),
            final(self).spec_nodes() == old(self).spec_nodes(),
            final(self).spec_ids() == old(self).spec_ids(),
            final(self).spec_stores() == old(self).spec_stores(),
            final(self).spec_config() == old(self).spec_config(),
    {
        self.clock = now;
    }

    /// Takes `event` of the application's event loop at time `now`
    /// (milliseconds since the epoch, never before a time handed in
    /// earlier), updating the node records and saying what is left to do;
    /// see [event_outcome]. A node learnt of is first handed to the node
    /// created callback.
    pub fn handle_event(&mut self, event: AppEvent, now: u64) -> (r: ApplicationStep)
        requires
            old(self).wf(),
            old(self).spec_clock() <= now,
        ensures
            final(self).wf(),
            final(self).spec_clock() == now,
            final(self).spec_node_created() == old(self).spec_node_created(),
            final(self).spec_config() == old(self).spec_config(),
            final(self).spec_ids().len() > old(self).spec_ids().len() ==> node_registers::<S, C, N>(
                old(self).spec_node_created(),
                final(self).spec_ids().last(),
                final(self).spec_stores().last(),
            ),
            r.running == !(event is Cancelled),
            r.notice == match event {
                AppEvent::Online => Some(Notice::Online),
                AppEvent::Offline => Some(Notice::Offline),
                _ => None,
            },
            event_outcome(
                old(self).spec_nodes(),
                old(self).spec_ids(),
                old(self).spec_stores(),
                old(self).spec_config(),
                event,
                now,
                final(self).spec_nodes(),
                final(self).spec_ids(),
                final(self).spec_stores(),
                r.node_actions@,
            ),
            final(self).told_stores_stale(old(self).spec_nodes()),
    {
        self.advance_clock(now);
        let ghost vs = self.spec_nodes();
        let ghost ids = self.spec_ids();
        let ghost stores = self.spec_stores();
        let mut node_actions: Vec<(usize, NodeActions)> = Vec::new();
        match event {
            AppEvent::Online => {
                assert(self.told_stores_stale(vs));
                ApplicationStep { running: true, notice: Some(Notice::Online), node_actions }
            },
            AppEvent::Cancelled => {
                assert(self.told_stores_stale(vs));
                ApplicationStep { running: false, notice: None, node_actions }
            },
            AppEvent::Offline => {
                let n = self.nodes.len();
                let mut i: usize = 0;
                while i < n
                    invariant
                        self.wf(),
                        self.spec_clock() == now,
                        self.spec_config() == old(self).spec_config(),
                        self.spec_node_created() == old(self).spec_node_created(),
                        n == vs.len(),
                        i <= n,
                        self.spec_ids() == ids,
                        self.spec_stores() == stores,
                        self.spec_nodes().len() == vs.len(),
                        node_actions@.len() == i,
                        forall|j: int| i <= j < n ==> self.spec_nodes()[j] == vs[j],
                        forall|j: int|
                            0 <= j < i ==> (#[trigger] node_actions@[j]).0 == j && (
                                self.spec_nodes()[j],
                                node_actions@[j].1,
                            ) == vs[j].set_stale(NodeActions::spec_none(), now),
                        forall|j: int|
                            0 <= j < i ==> (vs[j].birthed && !self.spec_nodes()[j].birthed
                                ==> #[trigger] self.node_stores_stale(j)),
                    decreases n - i,
                {
                    let ghost before = *self;
                    let acts = self.offline_at(i);
                    proof {
                        assert forall|j: int|
                            0 <= j < i + 1 implies (vs[j].birthed && !self.spec_nodes()[j].birthed
                                ==> #[trigger] self.node_stores_stale(j)) by {
                            if j < i {
                                assert(self.nodes@[j] == before.nodes@[j]);
                                assert(before.node_stores_stale(j) == self.node_stores_stale(j));
                                assert(before.spec_nodes()[j] == self.spec_nodes()[j]);
                            } else {
                                assert(before.spec_nodes()[j] == vs[j]);
                            }
                        }
                    }
                    node_actions.push((i, acts));
                    i = i + 1;
                }
                ApplicationStep { running: true, notice: Some(Notice::Offline), node_actions }
            },
            AppEvent::Node(e) => {
                match e.event {
                    NodeEvent::Death(d) => {
                        match self.find_node(&e.id) {
                            Some(k) => {
                                let acts = self.death_at(k, d.bdseq);
                                node_actions.push((k, acts));
                            },
                            None => {
                                assert(self.told_stores_stale(vs));
                            },
                        }
                    },
                    NodeEvent::Birth(b) => {
                        let k = self.get_or_create_node(e.id);
                        let ghost mid = self.spec_nodes();
                        let acts = self.birth_at(k, b);
                        proof {
                            Self::lemma_told_prefix(*self, vs, mid);
                        }
                        node_actions.push((k, acts));
                    },
                    NodeEvent::Data(d) => {
                        match self.find_node(&e.id) {
                            Some(k) => {
                                let acts = self.sequenced_at(
                                    k,
                                    d.seq,
                                    d.timestamp,
                                    ResequenceableEvent::NData(d),
                                );
                                node_actions.push((k, acts));
                            },
                            None => {
                                let k = self.create_node(e.id);
                                let ghost mid = self.spec_nodes();
                                let acts = self.rebirth_at(k, RebirthReason::UnknownNode);
                                proof {
                                    Self::lemma_told_prefix(*self, vs, mid);
                                }
                                node_actions.push((k, acts));
                            },
                        }
                    },
                }
                ApplicationStep { running: true, notice: None, node_actions }
            },
            AppEvent::Device(e) => {
                match self.find_node(&e.id) {
                    Some(k) => {
                        let (seq, timestamp, message) = match e.event {
                            DeviceEvent::Birth(b) => (
                                b.seq,
                                b.timestamp,
                                ResequenceableEvent::DBirth(e.name, b),
                            ),
                            DeviceEvent::Death(d) => (
                                d.seq,
                                d.timestamp,
                                ResequenceableEvent::DDeath(e.name),
                            ),
                            DeviceEvent::Data(d) => (
                                d.seq,
                                d.timestamp,
                                ResequenceableEvent::DData(e.name, d),
                            ),
                        };
                        let acts = self.sequenced_at(k, seq, timestamp, message);
                        node_actions.push((k, acts));
                    },
                    None => {
                        let k = self.create_node(e.id);
                        let ghost mid = self.spec_nodes();
                        let acts = self.rebirth_at(k, RebirthReason::UnknownNode);
                        proof {
                            Self::lemma_told_prefix(*self, vs, mid);
                        }
                        node_actions.push((k, acts));
                    },
                }
                ApplicationStep { running: true, notice: None, node_actions }
            },
            AppEvent::InvalidPayload(details) => {
                if self.rebirth_config.invalid_payload {
                    let k = self.get_or_create_node(details.node_id);
                    let ghost mid = self.spec_nodes();
                    let acts = self.rebirth_at(k, RebirthReason::InvalidPayload);
                    proof {
                        Self::lemma_told_prefix(*self, vs, mid);
                    }
                    node_actions.push((k, acts));
                } else {
                    assert(self.told_stores_stale(vs));
                }
                ApplicationStep { running: true, notice: None, node_actions }
            },
        }
    }

    /// The reorder timer of the node at index `k` ran out at time `now`
    /// (never before a time handed in earlier): the node is asked for a
    /// rebirth if its configuration and cooldown allow.
    pub fn reorder_timeout_expired(&mut self, k: usize, now: u64) -> (r: NodeActions)
        requires
            old(self).wf(),
            old(self).spec_clock() <= now,
            k < old(self).spec_nodes().len(),
        ensures
            final(self).wf(),
            final(self).spec_clock() == now,
            final(self).spec_node_created() == old(self).spec_node_created(),
            final(self).spec_config() == old(self).spec_config(),
            final(self).spec_ids() == old(self).spec_ids(),
            final(self).spec_stores() == old(self).spec_stores(),
            ({
                let (w, a) = old(self).spec_nodes()[k as int].issue_rebirth(
                    NodeActions::spec_none(),
                    RebirthReason::ReorderTimeout,
                    now,
                );
                &&& final(self).spec_nodes() == old(self).spec_nodes().update(k as int, w)
                &&& r == a
            }),
            final(self).told_stores_stale(old(self).spec_nodes()),
    {
        self.advance_clock(now);
        self.rebirth_at(k, RebirthReason::ReorderTimeout)
    }
}

} // verus!
