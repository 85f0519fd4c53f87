//! A resequencer for reordering out of order messages that carry an 8 bit
//! wrapping sequence number.

use std::collections::BTreeMap;
use vstd::prelude::*;

verus! {

/// `x + y` wrapping at 256.
pub open spec fn wadd(x: u8, y: u8) -> u8 {
    vstd::wrapping::u8_specs::wrapping_add(x, y)
}

/// `x - y` wrapping at 256.
pub open spec fn wsub(x: u8, y: u8) -> u8 {
    vstd::wrapping::u8_specs::wrapping_sub(x, y)
}

/// Result from `Resequencer::drain`
pub enum DrainResult<T> {
    /// The next in order message
    Message(T),
    /// No more messages
    Empty,
    /// The `Resequencer` can not provide any more in order messages
    SequenceMissing,
}

/// Result from `Resequencer::process`
pub enum ProcessResult<T> {
    /// The message provided was the next expected message in the sequence
    MessageNextInSequence(T),
    /// The message provided was out of order
    OutOfSequenceMessageInserted,
    /// The resequencer already has a message with that sequence value
    DuplicateMessageSequence,
}

enum State {
    Good,
    ReSequencing(u8),
}

/// The abstract state of a [`Resequencer`]: the sequence number it expects
/// next, the sequence number it expected when it first saw an out of order
/// message (`offset`, absent while messages arrive in order), and the held
/// back messages keyed by their sequence number relative to `offset`.
#[verifier::ext_equal]
pub struct ResequencerView<T> {
    pub next_seq: u8,
    pub offset: Option<u8>,
    pub buffer: Map<u8, T>,
}

impl<T> ResequencerView<T> {
    /// The resequencer holds messages back exactly while it is reordering.
    pub open spec fn wf(self) -> bool {
        self.offset is None <==> self.buffer.dom() =~= Set::<u8>::empty()
    }

    /// The state with `next_seq` advanced by one.
    pub open spec fn advanced(self) -> ResequencerView<T> {
        ResequencerView { next_seq: wadd(self.next_seq, 1), ..self }
    }
}

/// `k` is the smallest key of `m`.
pub open spec fn is_min_key<T>(m: Map<u8, T>, k: u8) -> bool {
    m.contains_key(k) && forall|j: u8| #[trigger] m.contains_key(j) ==> k <= j
}

/// The smallest key of `m` (meaningful when `m` is not empty).
pub open spec fn min_key<T>(m: Map<u8, T>) -> u8 {
    choose|k: u8| is_min_key(m, k)
}

/// What `process(seq, message)` does to a resequencer in state `v`: the new
/// state and the result.
pub open spec fn spec_process<T>(v: ResequencerView<T>, seq: u8, message: T) -> (
    ResequencerView<T>,
    ProcessResult<T>,
) {
    if seq == v.next_seq {
        if v.offset is Some && v.buffer.contains_key(wsub(seq, v.offset->0)) {
            (v, ProcessResult::DuplicateMessageSequence)
        } else {
            (v.advanced(), ProcessResult::MessageNextInSequence(message))
        }
    } else {
        let o = match v.offset {
            Some(o) => o,
            None => v.next_seq,
        };
        let k = wsub(seq, o);
        if v.buffer.contains_key(k) {
            (ResequencerView { offset: Some(o), ..v }, ProcessResult::DuplicateMessageSequence)
        } else {
            (
                ResequencerView { offset: Some(o), buffer: v.buffer.insert(k, message), ..v },
                ProcessResult::OutOfSequenceMessageInserted,
            )
        }
    }
}

/// What `drain()` does to a resequencer in state `v`: the new state and the
/// result.
pub open spec fn spec_drain<T>(v: ResequencerView<T>) -> (ResequencerView<T>, DrainResult<T>) {
    match v.offset {
        None => (v, DrainResult::Empty),
        Some(o) => {
            if v.buffer.dom() =~= Set::<u8>::empty() {
                (v, DrainResult::Empty)
            } else {
                let k = min_key(v.buffer);
                if wadd(k, o) != v.next_seq {
                    (v, DrainResult::SequenceMissing)
                } else {
                    let rest = v.buffer.remove(k);
                    let offset = if rest.dom() =~= Set::<u8>::empty() {
                        None
                    } else {
                        Some(o)
                    };
                    (
                        ResequencerView { next_seq: wadd(v.next_seq, 1), offset, buffer: rest },
                        DrainResult::Message(v.buffer[k]),
                    )
                }
            }
        },
    }
}

/// Law: every operation keeps the resequencer well formed, that is it holds
/// messages back exactly while it is reordering.
pub proof fn lemma_process_preserves_wf<T>(v: ResequencerView<T>, seq: u8, message: T)
    requires
        v.wf(),
    ensures
        spec_process(v, seq, message).0.wf(),
{
    if v.offset is None {
        assert(!v.buffer.contains_key(wsub(seq, v.next_seq)));
    }
    let r = spec_process(v, seq, message).0;
    if seq != v.next_seq && !v.buffer.contains_key(wsub(seq, v.offset.unwrap_or(v.next_seq))) {
        assert(r.buffer.contains_key(wsub(seq, v.offset.unwrap_or(v.next_seq))));
    }
}

/// Law: draining keeps the resequencer well formed.
pub proof fn lemma_drain_preserves_wf<T>(v: ResequencerView<T>)
    requires
        v.wf(),
    ensures
        spec_drain(v).0.wf(),
{
}

/// Law: a message leaves the resequencer only in sequence order. `process`
/// hands back the message it was given exactly when its sequence number is
/// the expected one and not already held back; `drain` hands back a held
/// back message only when its sequence number is the expected one. Either
/// way the expected sequence number then advances by one, and it stays put
/// whenever no message is handed back.
pub proof fn lemma_delivery_in_sequence_order<T>(v: ResequencerView<T>, seq: u8, message: T)
    ensures
        ({
            let (p, r) = spec_process(v, seq, message);
            &&& r is MessageNextInSequence <==> (seq == v.next_seq && !(v.offset is Some
                && v.buffer.contains_key(wsub(seq, v.offset->0))))
            &&& r is MessageNextInSequence ==> r == ProcessResult::MessageNextInSequence(message)
                && p.next_seq == wadd(v.next_seq, 1)
            &&& !(r is MessageNextInSequence) ==> p.next_seq == v.next_seq
        }),
        ({
            let (d, r) = spec_drain(v);
            &&& r matches DrainResult::Message(m) ==> exists|k: u8|
                #![trigger v.buffer[k]]
                v.buffer.contains_key(k) && v.buffer[k] == m && v.offset is Some && wadd(
                    k,
                    v.offset->0,
                ) == v.next_seq
            &&& r is Message ==> d.next_seq == wadd(v.next_seq, 1)
            &&& !(r is Message) ==> d == v
        }),
{
    let (d, r) = spec_drain(v);
    if r is Message {
        lemma_min_key_exists(v.buffer);
        let k = min_key(v.buffer);
        assert(v.buffer.contains_key(k) && v.buffer[k] == v.buffer[k]);
    }
}

/// Law: a message that arrives one ahead of the expected sequence number is
/// held back, the expected message is handed back at once, and draining then
/// yields the held back message and leaves the resequencer in order, two
/// ahead of where it started.
pub proof fn lemma_reorders_swapped_pair<T>(v: ResequencerView<T>, a: T, b: T)
    requires
        v.wf(),
        v.offset is None,
    ensures
        ({
            let n = v.next_seq;
            let (s1, r1) = spec_process(v, wadd(n, 1), a);
            let (s2, r2) = spec_process(s1, n, b);
            let (s3, r3) = spec_drain(s2);
            let (s4, r4) = spec_drain(s3);
            &&& r1 is OutOfSequenceMessageInserted
            &&& r2 == ProcessResult::MessageNextInSequence(b)
            &&& r3 == DrainResult::Message(a)
            &&& r4 is Empty
            &&& s4 == (ResequencerView::<T> {
                next_seq: wadd(n, 2),
                offset: None,
                buffer: Map::empty(),
            })
        }),
{
    let n = v.next_seq;
    assert(v.buffer.dom() =~= Set::<u8>::empty());
    assert(!v.buffer.contains_key(1));
    assert(wsub(wadd(n, 1), n) == 1);
    let (s1, r1) = spec_process(v, wadd(n, 1), a);
    assert(s1.buffer =~= Map::<u8, T>::empty().insert(1, a));
    let (s2, r2) = spec_process(s1, n, b);
    assert(!s1.buffer.contains_key(wsub(n, n)));
    assert(is_min_key(s2.buffer, 1));
    lemma_min_key_unique(s2.buffer, 1);
    assert(wadd(1, n) == s2.next_seq);
    let (s3, r3) = spec_drain(s2);
    assert(s2.buffer.remove(1).dom() =~= Set::<u8>::empty());
    assert(s3.buffer =~= Map::<u8, T>::empty());
}

/// An operation on a resequencer: `process` with a sequence number and a
/// message, or `drain`.
pub enum ReseqOp<T> {
    Process(u8, T),
    Drain,
}

/// One operation from state `v`: the new state and the messages it hands
/// back (none or one).
pub open spec fn reseq_step<T>(v: ResequencerView<T>, op: ReseqOp<T>) -> (
    ResequencerView<T>,
    Seq<T>,
) {
    match op {
        ReseqOp::Process(seq, m) => {
            let (p, r) = spec_process(v, seq, m);
            (
                p,
                match r {
                    ProcessResult::MessageNextInSequence(x) => seq![x],
                    _ => Seq::empty(),
                },
            )
        },
        ReseqOp::Drain => {
            let (p, d) = spec_drain(v);
            (
                p,
                match d {
                    DrainResult::Message(x) => seq![x],
                    _ => Seq::empty(),
                },
            )
        },
    }
}

/// The operations `ops` in turn from state `v`: the final state and the
/// messages handed back, in order.
pub open spec fn reseq_run<T>(v: ResequencerView<T>, ops: Seq<ReseqOp<T>>) -> (
    ResequencerView<T>,
    Seq<T>,
)
    decreases ops.len(),
{
    if ops.len() == 0 {
        (v, Seq::empty())
    } else {
        let (v1, o1) = reseq_step(v, ops[0]);
        let (v2, o2) = reseq_run(v1, ops.drop_first());
        (v2, o1 + o2)
    }
}

/// Every message of `ops` is tagged with the sequence number it is
/// processed with.
spec fn tagged_ops<X>(ops: Seq<ReseqOp<(u8, X)>>) -> bool {
    forall|j: int| 0 <= j < ops.len() ==> (#[trigger] ops[j] matches ReseqOp::Process(s, m) ==> m.0 == s)
}

/// The tagged message `x` is processed by one of `ops`.
spec fn passed<X>(ops: Seq<ReseqOp<(u8, X)>>, x: (u8, X)) -> bool {
    exists|j: int| 0 <= j < ops.len() && #[trigger] ops[j] == ReseqOp::Process(x.0, x)
}

/// Every held back message is tagged with its sequence number.
spec fn buffer_tagged<X>(v: ResequencerView<(u8, X)>) -> bool {
    forall|k: u8| #[trigger] v.buffer.contains_key(k) ==> v.buffer[k].0 == wadd(k, v.offset->0)
}

proof fn lemma_wadd_wsub(a: u8, b: u8)
    ensures
        wadd(wsub(a, b), b) == a,
        wadd(a, 1) == (a + 1) % 256,
{
}

proof fn lemma_step_tagged<X>(v: ResequencerView<(u8, X)>, op: ReseqOp<(u8, X)>, src: spec_fn((u8, X)) -> bool)
    requires
        v.wf(),
        buffer_tagged(v),
        op matches ReseqOp::Process(s, m) ==> m.0 == s,
        forall|k: u8| #[trigger] v.buffer.contains_key(k) ==> src(v.buffer[k]),
    ensures
        ({
            let (w, o) = reseq_step(v, op);
            &&& w.wf()
            &&& buffer_tagged(w)
            &&& o.len() <= 1
            &&& o.len() == 1 ==> o[0].0 == v.next_seq && (src(o[0]) || op == ReseqOp::Process(o[0].0, o[0]))
            &&& w.next_seq == (v.next_seq + o.len()) % 256
            &&& forall|k: u8| #[trigger] w.buffer.contains_key(k) ==> src(w.buffer[k]) || op
                == ReseqOp::Process(w.buffer[k].0, w.buffer[k])
        }),
{
    lemma_wadd_wsub(v.next_seq, v.next_seq);
    match op {
        ReseqOp::Process(seq, m) => {
            lemma_process_preserves_wf(v, seq, m);
            lemma_wadd_wsub(seq, v.offset.unwrap_or(v.next_seq));
            if v.offset is None {
                assert(v.buffer.dom() =~= Set::<u8>::empty());
                assert(!v.buffer.contains_key(wsub(seq, v.next_seq)));
            }
        },
        ReseqOp::Drain => {
            lemma_drain_preserves_wf(v);
            if v.offset is Some && !(v.buffer.dom() =~= Set::<u8>::empty()) {
                lemma_min_key_exists(v.buffer);
            }
        },
    }
}

proof fn lemma_run_tagged<X>(v: ResequencerView<(u8, X)>, ops: Seq<ReseqOp<(u8, X)>>, src: spec_fn((u8, X)) -> bool)
    requires
        v.wf(),
        buffer_tagged(v),
        tagged_ops(ops),
        forall|k: u8| #[trigger] v.buffer.contains_key(k) ==> src(v.buffer[k]),
    ensures
        ({
            let (w, out) = reseq_run(v, ops);
            &&& w.wf()
            &&& buffer_tagged(w)
            &&& w.next_seq == (v.next_seq + out.len()) % 256
            &&& forall|i: int| 0 <= i < out.len() ==> (#[trigger] out[i]).0 == (v.next_seq + i) % 256
            &&& forall|i: int| 0 <= i < out.len() ==> src(#[trigger] out[i]) || passed(ops, out[i])
            &&& forall|k: u8| #[trigger] w.buffer.contains_key(k) ==> src(w.buffer[k]) || passed(
                ops,
                w.buffer[k],
            )
        }),
    decreases ops.len(),
{
    if ops.len() > 0 {
        assert(ops[0] matches ReseqOp::Process(s, m) ==> m.0 == s);
        lemma_step_tagged(v, ops[0], src);
        let (v1, o1) = reseq_step(v, ops[0]);
        let rest = ops.drop_first();
        assert forall|j: int| 0 <= j < rest.len() implies (#[trigger] rest[j] matches ReseqOp::Process(s, m) ==> m.0 == s) by {
            assert(rest[j] == ops[j + 1]);
        }
        let src1 = |x: (u8, X)| src(x) || passed(ops, x);
        assert forall|k: u8| #[trigger] v1.buffer.contains_key(k) implies src1(v1.buffer[k]) by {
            if !src(v1.buffer[k]) {
                assert(ops[0] == ReseqOp::Process(v1.buffer[k].0, v1.buffer[k]));
            }
        }
        lemma_run_tagged(v1, rest, src1);
        let (v2, o2) = reseq_run(v1, rest);
        let out = o1 + o2;
        assert(reseq_run(v, ops) == (v2, out));
        assert forall|x: (u8, X)| passed(rest, x) implies passed(ops, x) by {
            let j = choose|j: int| 0 <= j < rest.len() && #[trigger] rest[j] == ReseqOp::Process(x.0, x);
            assert(ops[j + 1] == ReseqOp::Process(x.0, x));
        }
        assert forall|i: int| 0 <= i < out.len() implies (#[trigger] out[i]).0 == (v.next_seq + i) % 256
            && (src(out[i]) || passed(ops, out[i])) by {
            if i < o1.len() {
                assert(out[i] == o1[0]);
                if !src(o1[0]) {
                    assert(ops[0] == ReseqOp::Process(o1[0].0, o1[0]));
                }
            } else {
                assert(out[i] == o2[i - o1.len()]);
                assert(((v.next_seq + o1.len()) % 256 + (i - o1.len())) % 256 == (v.next_seq + i)
                    % 256) by (nonlinear_arith)
                    requires
                        0 <= o1.len() <= 1, o1.len() <= i, 0 <= v.next_seq < 256;
            }
        }
        assert((((v.next_seq + o1.len()) % 256) + o2.len()) % 256 == (v.next_seq + out.len()) % 256)
            by (nonlinear_arith)
            requires
                0 <= o1.len() <= 1, out.len() == o1.len() + o2.len(), 0 <= v.next_seq < 256;
    }
}

/// The state `v` with every held back message replaced by its image under `f`.
pub open spec fn view_map<T, U>(v: ResequencerView<T>, f: spec_fn(T) -> U) -> ResequencerView<U> {
    ResequencerView { next_seq: v.next_seq, offset: v.offset, buffer: v.buffer.map_values(f) }
}

/// The operation `op` with its message, if any, replaced by its image under `f`.
pub open spec fn op_map<T, U>(op: ReseqOp<T>, f: spec_fn(T) -> U) -> ReseqOp<U> {
    match op {
        ReseqOp::Process(s, m) => ReseqOp::Process(s, f(m)),
        ReseqOp::Drain => ReseqOp::Drain,
    }
}

proof fn lemma_step_map<T, U>(v: ResequencerView<T>, op: ReseqOp<T>, f: spec_fn(T) -> U)
    ensures
        ({
            let (w, o) = reseq_step(v, op);
            reseq_step(view_map(v, f), op_map(op, f)) == (view_map(w, f), o.map_values(f))
        }),
{
    let vm = view_map(v, f);
    assert(vm.buffer.dom() =~= v.buffer.dom());
    let (w, o) = reseq_step(v, op);
    match op {
        ReseqOp::Process(seq, m) => {
            let o2 = match v.offset {
                Some(o) => o,
                None => v.next_seq,
            };
            let k = wsub(seq, o2);
            assert(v.buffer.insert(k, m).map_values(f) =~= vm.buffer.insert(k, f(m)));
            assert(o.map_values(f) =~= reseq_step(vm, op_map(op, f)).1);
        },
        ReseqOp::Drain => {
            if v.offset is Some && !(v.buffer.dom() =~= Set::<u8>::empty()) {
                lemma_min_key_exists(v.buffer);
                let k = min_key(v.buffer);
                assert(is_min_key(vm.buffer, k));
                lemma_min_key_unique(vm.buffer, k);
                assert(v.buffer.remove(k).map_values(f) =~= vm.buffer.remove(k));
                assert(v.buffer.remove(k).dom() =~= vm.buffer.remove(k).dom());
            }
            assert(o.map_values(f) =~= reseq_step(vm, op_map(op, f)).1);
        },
    }
}

proof fn lemma_run_map<T, U>(v: ResequencerView<T>, ops: Seq<ReseqOp<T>>, f: spec_fn(T) -> U)
    ensures
        ({
            let (w, o) = reseq_run(v, ops);
            reseq_run(view_map(v, f), ops.map_values(|op: ReseqOp<T>| op_map(op, f))) == (
                view_map(w, f),
                o.map_values(f),
            )
        }),
    decreases ops.len(),
{
    let g = |op: ReseqOp<T>| op_map(op, f);
    let mops = ops.map_values(g);
    if ops.len() > 0 {
        lemma_step_map(v, ops[0], f);
        let (v1, o1) = reseq_step(v, ops[0]);
        lemma_run_map(v1, ops.drop_first(), f);
        let (v2, o2) = reseq_run(v1, ops.drop_first());
        assert(mops.drop_first() =~= ops.drop_first().map_values(g));
        assert(mops[0] == op_map(ops[0], f));
        assert((o1 + o2).map_values(f) =~= o1.map_values(f) + o2.map_values(f));
    } else {
        assert(mops.len() == 0);
        assert(Seq::<T>::empty().map_values(f) =~= Seq::<U>::empty());
    }
}

/// A message carrying, besides its sequence number, the index of the
/// operation that processed it.
type Indexed<X> = (u8, (int, X));

/// Some held back message of `v` carries operation index `i`.
spec fn holds_index<X>(v: ResequencerView<Indexed<X>>, i: int) -> bool {
    exists|k: u8| #[trigger] v.buffer.contains_key(k) && v.buffer[k].1.0 == i
}

/// No two held back messages of `v` carry the same operation index, and each
/// carries one below `b`.
spec fn indices_fresh<X>(v: ResequencerView<Indexed<X>>, b: int) -> bool {
    &&& forall|k: u8| #[trigger] v.buffer.contains_key(k) ==> v.buffer[k].1.0 < b
    &&& forall|k1: u8, k2: u8|
        #[trigger] v.buffer.contains_key(k1) && #[trigger] v.buffer.contains_key(k2) && k1 != k2
            ==> v.buffer[k1].1.0 != v.buffer[k2].1.0
}

/// The message of `ops[j]`, if it processes one, carries index `b + j`.
spec fn ops_indexed<X>(ops: Seq<ReseqOp<Indexed<X>>>, b: int) -> bool {
    forall|j: int| 0 <= j < ops.len() ==> (#[trigger] ops[j] matches ReseqOp::Process(_, m) ==> m.1.0 == b + j)
}

proof fn lemma_step_once<X>(v: ResequencerView<Indexed<X>>, op: ReseqOp<Indexed<X>>, b: int)
    requires
        indices_fresh(v, b),
        op matches ReseqOp::Process(_, m) ==> m.1.0 == b,
    ensures
        ({
            let (w, o) = reseq_step(v, op);
            &&& o.len() <= 1
            &&& indices_fresh(w, b + 1)
            &&& forall|k: u8| #[trigger] w.buffer.contains_key(k) ==> holds_index(v, w.buffer[k].1.0)
                || w.buffer[k].1.0 == b
            &&& o.len() == 1 ==> !holds_index(w, o[0].1.0) && (holds_index(v, o[0].1.0) || o[0].1.0 == b)
        }),
{
    let (w, o) = reseq_step(v, op);
    match op {
        ReseqOp::Process(seq, m) => {
            let o2 = match v.offset {
                Some(o) => o,
                None => v.next_seq,
            };
            let key = wsub(seq, o2);
            assert forall|k: u8| #[trigger] w.buffer.contains_key(k) implies holds_index(v, w.buffer[k].1.0)
                || w.buffer[k].1.0 == b by {
                if v.buffer.contains_key(k) && w.buffer[k] == v.buffer[k] {
                    assert(v.buffer.contains_key(k) && v.buffer[k].1.0 == w.buffer[k].1.0);
                }
            }
            if o.len() == 1 {
                assert(w.buffer == v.buffer);
                if holds_index(w, o[0].1.0) {
                    let k = choose|k: u8| #[trigger] w.buffer.contains_key(k) && w.buffer[k].1.0 == o[0].1.0;
                    assert(false);
                }
            }
        },
        ReseqOp::Drain => {
            assert forall|k: u8| #[trigger] w.buffer.contains_key(k) implies holds_index(v, w.buffer[k].1.0)
                || w.buffer[k].1.0 == b by {
                assert(v.buffer.contains_key(k) && v.buffer[k].1.0 == w.buffer[k].1.0);
            }
            if o.len() == 1 {
                lemma_min_key_exists(v.buffer);
                let kd = min_key(v.buffer);
                assert(o[0] == v.buffer[kd]);
                assert(v.buffer.contains_key(kd) && v.buffer[kd].1.0 == o[0].1.0);
                if holds_index(w, o[0].1.0) {
                    let k = choose|k: u8| #[trigger] w.buffer.contains_key(k) && w.buffer[k].1.0 == o[0].1.0;
                    assert(v.buffer.contains_key(k) && v.buffer.contains_key(kd) && k != kd);
                    assert(false);
                }
            }
        },
    }
}

proof fn lemma_run_once<X>(v: ResequencerView<Indexed<X>>, ops: Seq<ReseqOp<Indexed<X>>>, b: int)
    requires
        indices_fresh(v, b),
        ops_indexed(ops, b),
    ensures
        ({
            let (w, out) = reseq_run(v, ops);
            &&& indices_fresh(w, b + ops.len())
            &&& forall|k: u8| #[trigger] w.buffer.contains_key(k) ==> holds_index(v, w.buffer[k].1.0)
                || b <= w.buffer[k].1.0 < b + ops.len()
            &&& forall|i: int| 0 <= i < out.len() ==> holds_index(v, (#[trigger] out[i]).1.0)
                || b <= out[i].1.0 < b + ops.len()
            &&& forall|i: int| 0 <= i < out.len() ==> !holds_index(w, (#[trigger] out[i]).1.0)
            &&& forall|i: int, l: int| 0 <= i < l < out.len() ==> (#[trigger] out[i]).1.0 != (#[trigger] out[l]).1.0
        }),
    decreases ops.len(),
{
    let (w, out) = reseq_run(v, ops);
    if ops.len() == 0 {
        assert(out.len() == 0);
    } else {
        assert(ops[0] matches ReseqOp::Process(_, m) ==> m.1.0 == b);
        lemma_step_once(v, ops[0], b);
        let (v1, o1) = reseq_step(v, ops[0]);
        let rest = ops.drop_first();
        assert forall|j: int| 0 <= j < rest.len() implies (#[trigger] rest[j] matches ReseqOp::Process(_, m) ==> m.1.0 == b + 1 + j) by {
            assert(rest[j] == ops[j + 1]);
        }
        lemma_run_once(v1, rest, b + 1);
        let (v2, o2) = reseq_run(v1, rest);
        assert(out == o1 + o2);
        assert forall|i: int| #[trigger] holds_index(v1, i) implies holds_index(v, i) || i == b by {
            let k = choose|k: u8| #[trigger] v1.buffer.contains_key(k) && v1.buffer[k].1.0 == i;
            assert(holds_index(v, v1.buffer[k].1.0) || v1.buffer[k].1.0 == b);
        }
        assert forall|i: int| 0 <= i < out.len() implies holds_index(v, (#[trigger] out[i]).1.0)
            || b <= out[i].1.0 < b + ops.len() by {
            if i >= o1.len() {
                assert(out[i] == o2[i - o1.len()]);
            }
        }
        assert forall|i: int| 0 <= i < out.len() implies !holds_index(v2, (#[trigger] out[i]).1.0) by {
            if i < o1.len() {
                assert(out[i] == o1[0]);
                if holds_index(v2, o1[0].1.0) {
                    let k = choose|k: u8| #[trigger] v2.buffer.contains_key(k) && v2.buffer[k].1.0 == o1[0].1.0;
                    assert(holds_index(v1, v2.buffer[k].1.0) || b + 1 <= v2.buffer[k].1.0);
                    assert(holds_index(v, o1[0].1.0) || o1[0].1.0 == b);
                    if holds_index(v, o1[0].1.0) {
                        let k0 = choose|k0: u8| #[trigger] v.buffer.contains_key(k0) && v.buffer[k0].1.0 == o1[0].1.0;
                        assert(v.buffer[k0].1.0 < b);
                    }
                }
            } else {
                assert(out[i] == o2[i - o1.len()]);
            }
        }
        assert forall|i: int, l: int| 0 <= i < l < out.len() implies (#[trigger] out[i]).1.0 != (#[trigger] out[l]).1.0 by {
            if i < o1.len() {
                assert(out[i] == o1[0]);
                assert(out[l] == o2[l - o1.len()]);
                let x = o2[l - o1.len()].1.0;
                assert(holds_index(v1, x) || b + 1 <= x);
                if holds_index(v, o1[0].1.0) {
                    let k0 = choose|k0: u8| #[trigger] v.buffer.contains_key(k0) && v.buffer[k0].1.0 == o1[0].1.0;
                    assert(v.buffer[k0].1.0 < b);
                }
            } else {
                assert(out[i] == o2[i - o1.len()]);
                assert(out[l] == o2[l - o1.len()]);
            }
        }
    }
}

/// `ops` with each processed message tagged with its sequence number and
/// the index of its operation.
spec fn index_ops<T>(ops: Seq<ReseqOp<T>>) -> Seq<ReseqOp<Indexed<T>>> {
    Seq::new(
        ops.len(),
        |j: int|
            match ops[j] {
                ReseqOp::Process(s, m) => ReseqOp::Process(s, (s, (j, m))),
                ReseqOp::Drain => ReseqOp::Drain,
            },
    )
}

/// Law: over any run of operations on a new resequencer, each message
/// handed back comes from its own operation: for the k-th message handed
/// back (from 0) there is an operation `src[k]` that processed exactly that
/// message with sequence number k wrapping at 256, and no two messages
/// handed back come from the same operation, so none is handed back twice.
/// The resequencer then expects the number of messages handed back,
/// wrapping at 256.
pub proof fn lemma_run_hands_back_each_once<T>(ops: Seq<ReseqOp<T>>)
    ensures
        ({
            let (w, out) = reseq_run(
                ResequencerView { next_seq: 0, offset: None, buffer: Map::empty() },
                ops,
            );
            &&& w.next_seq == out.len() % 256
            &&& exists|src: Seq<int>|
                {
                    &&& src.len() == out.len()
                    &&& forall|k: int|
                        0 <= k < out.len() ==> 0 <= #[trigger] src[k] < ops.len() && ops[src[k]]
                            == ReseqOp::Process((k % 256) as u8, out[k])
                    &&& forall|k: int, l: int|
                        0 <= k < l < out.len() ==> #[trigger] src[k] != #[trigger] src[l]
                }
        }),
{
    let v0 = ResequencerView::<T> { next_seq: 0, offset: None, buffer: Map::empty() };
    let vt = ResequencerView::<Indexed<T>> { next_seq: 0, offset: None, buffer: Map::empty() };
    let ops_t = index_ops(ops);
    let f = |x: Indexed<T>| x.1.1;
    assert(vt.buffer.dom() =~= Set::<u8>::empty());
    assert(ops_t.map_values(|op: ReseqOp<Indexed<T>>| op_map(op, f)) =~= ops);
    assert(view_map(vt, f) =~= v0);
    lemma_run_map(vt, ops_t, f);
    lemma_run_tagged(vt, ops_t, |x: Indexed<T>| false);
    lemma_run_once(vt, ops_t, 0);
    let (wt, out_t) = reseq_run(vt, ops_t);
    let (w, out) = reseq_run(v0, ops);
    assert(out == out_t.map_values(f));
    let src = out_t.map_values(|x: Indexed<T>| x.1.0);
    assert forall|k: int| 0 <= k < out.len() implies 0 <= #[trigger] src[k] < ops.len() && ops[src[k]]
        == ReseqOp::Process((k % 256) as u8, out[k]) by {
        assert(passed(ops_t, out_t[k]));
        let j = choose|j: int| 0 <= j < ops_t.len() && #[trigger] ops_t[j] == ReseqOp::Process(out_t[k].0, out_t[k]);
        assert(ops_t[j] == ReseqOp::Process(out_t[k].0, out_t[k]));
        assert(src[k] == j);
    }
    assert forall|k: int, l: int| 0 <= k < l < out.len() implies #[trigger] src[k] != #[trigger] src[l] by {
        assert(out_t[k].1.0 != out_t[l].1.0);
    }
    assert(w.next_seq == wt.next_seq && out.len() == out_t.len());
    assert(src.len() == out.len());
}

/// Law: a sequence number that is already held back is refused, and the
/// refusal changes nothing.
pub proof fn lemma_duplicate_refused<T>(v: ResequencerView<T>, seq: u8, m1: T, m2: T)
    requires
        spec_process(v, seq, m1).1 is OutOfSequenceMessageInserted,
    ensures
        ({
            let s1 = spec_process(v, seq, m1).0;
            &&& spec_process(s1, seq, m2).1 is DuplicateMessageSequence
            &&& spec_process(s1, seq, m2).0 == s1
        }),
{
    let s1 = spec_process(v, seq, m1).0;
    let o = match v.offset {
        Some(o) => o,
        None => v.next_seq,
    };
    assert(s1.buffer.contains_key(wsub(seq, o)));
}

/// Reorders messages tagged with an 8 bit wrapping sequence number.
pub struct Resequencer<T> {
    buffer: BTreeMap<u8, T>,
    next_seq: u8,
    state: State,
}

impl<T> View for Resequencer<T> {
    type V = ResequencerView<T>;

    closed spec fn view(&self) -> ResequencerView<T> {
        ResequencerView {
            next_seq: self.next_seq,
            offset: match self.state {
                State::Good => None,
                State::ReSequencing(o) => Some(o),
            },
            buffer: self.buffer@,
        }
    }
}

proof fn lemma_min_key_unique<T>(m: Map<u8, T>, k: u8)
    requires
        is_min_key(m, k),
    ensures
        min_key(m) == k,
{
    let c = min_key(m);
    assert(is_min_key(m, c));
    assert(c <= k && k <= c);
}

proof fn lemma_min_key_from<T>(m: Map<u8, T>, i: u8, w: u8)
    requires
        forall|j: u8| j < i ==> !m.contains_key(j),
        m.contains_key(w),
        i <= w,
    ensures
        is_min_key(m, min_key(m)),
    decreases 255 - i,
{
    if m.contains_key(i) {
        assert(is_min_key(m, i));
    } else {
        lemma_min_key_from(m, (i + 1) as u8, w);
    }
}

/// A map keyed by `u8` that is not empty has a smallest key.
pub proof fn lemma_min_key_exists<T>(m: Map<u8, T>)
    requires
        !(m.dom() =~= Set::<u8>::empty()),
    ensures
        is_min_key(m, min_key(m)),
{
    let w = choose|w: u8| m.dom().contains(w);
    lemma_min_key_from(m, 0, w);
}

impl<T> Resequencer<T> {
    /// Creates a resequencer expecting sequence number 0 next.
    pub fn new() -> (r: Self)
        ensures
            r@ == (ResequencerView::<T> { next_seq: 0, offset: None, buffer: Map::empty() }),
            r@.wf(),
    {
        Self { buffer: BTreeMap::new(), next_seq: 0, state: State::Good }
    }

    /// The held back messages of a resequencer are finitely many.
    pub proof fn lemma_buffer_finite(&self)
        ensures
            self@.buffer.dom().finite(),
    {
    }

    /// The sequence number expected next.
    pub fn next_sequence(&self) -> (r: u8)
        ensures
            r == self@.next_seq,
    {
        self.next_seq
    }

    fn increment_next_seq(&mut self)
        ensures
            final(self)@ == old(self)@.advanced(),
    {
        self.next_seq = self.next_seq.wrapping_add(1);
    }

    /// Drops all held back messages and returns to the in order state,
    /// keeping the expected sequence number.
    pub fn reset(&mut self)
        ensures
            final(self)@ == (ResequencerView::<T> {
                next_seq: old(self)@.next_seq,
                offset: None,
                buffer: Map::empty(),
            }),
            final(self)@.wf(),
    {
        self.buffer.clear();
        self.state = State::Good;
    }

    /// Sets the sequence number expected next.
    pub fn set_next_sequence(&mut self, seq: u8)
        ensures
            final(self)@ == (ResequencerView::<T> { next_seq: seq, ..old(self)@ }),
    {
        self.next_seq = seq;
    }

    /// Hands back a message that is the next in sequence, or holds it back
    /// until the messages before it have arrived.
    pub fn process(&mut self, seq: u8, message: T) -> (r: ProcessResult<T>)
        ensures
            (final(self)@, r) == spec_process(old(self)@, seq, message),
    {
        if self.next_seq == seq {
            // Prevent processing a state we already have in our buffer
            if let State::ReSequencing(offset) = self.state {
                if self.buffer.contains_key(&seq.wrapping_sub(offset)) {
                    return ProcessResult::DuplicateMessageSequence;
                }
            }
            self.increment_next_seq();
            return ProcessResult::MessageNextInSequence(message);
        }
        let offset = match self.state {
            State::ReSequencing(offset) => offset,
            State::Good => {
                self.state = State::ReSequencing(self.next_seq);
                self.next_seq
            },
        };
        let key = seq.wrapping_sub(offset);
        if self.buffer.contains_key(&key) {
            ProcessResult::DuplicateMessageSequence
        } else {
            self.buffer.insert(key, message);
            ProcessResult::OutOfSequenceMessageInserted
        }
    }

    fn first_key(&self) -> (r: Option<u8>)
        ensures
            r is None <==> self.buffer@.dom() =~= Set::<u8>::empty(),
            r matches Some(k) ==> is_min_key(self.buffer@, k),
    {
        let mut i: u8 = 0;
        loop
            invariant
                forall|j: u8| j < i ==> !self.buffer@.contains_key(j),
            decreases 255 - i,
        {
            if self.buffer.contains_key(&i) {
                return Some(i);
            }
            if i == 255 {
                assert(self.buffer@.dom() =~= Set::<u8>::empty());
                return None;
            }
            i = i + 1;
        }
    }

    /// Hands back the next held back message if it is the next in sequence.
    pub fn drain(&mut self) -> (r: DrainResult<T>)
        ensures
            (final(self)@, r) == spec_drain(old(self)@),
    {
        let offset = match self.state {
            State::Good => {
                return DrainResult::Empty;
            },
            State::ReSequencing(offset) => offset,
        };
        let key = match self.first_key() {
            Some(k) => k,
            None => {
                return DrainResult::Empty;
            },
        };
        proof {
            lemma_min_key_unique(self.buffer@, key);
        }
        if key.wrapping_add(offset) != self.next_seq {
            return DrainResult::SequenceMissing;
        }
        let message = self.buffer.remove(&key).unwrap();
        self.increment_next_seq();
        if self.buffer.is_empty() {
            self.state = State::Good;
        }
        DrainResult::Message(message)
    }
}

} // verus!
