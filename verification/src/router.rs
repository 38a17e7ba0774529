//! The demultiplexer: where each incoming operation goes.

use vstd::prelude::*;
use crate::command::{Frame, Op};
use crate::registry::Registry;

verus! {

/// Where an incoming operation goes.
#[derive(Debug, Clone, Copy, PartialEq, Eq, Structural)]
pub enum Route {
    /// To the delivery sink of a subscription.
    Sink { sink: u64 },
    /// To the control sink.
    Control,
    /// Nowhere: a message for a subscription id that has no entry.
    Dropped,
}

/// The routing rule: a message goes to the sink under its subscription id, or nowhere
/// where that id has no entry; every other operation goes to the control sink.
pub open spec fn route_spec(subs: Map<Seq<u8>, u64>, f: Frame) -> Route {
    match f {
        Frame::Msg { sid, .. } => if subs.dom().contains(sid) {
            Route::Sink { sink: subs[sid] }
        } else {
            Route::Dropped
        },
        _ => Route::Control,
    }
}

/// What the sink `sink` has received, in order, once `frames` were routed one after another.
pub open spec fn delivered(subs: Map<Seq<u8>, u64>, frames: Seq<Frame>, sink: u64) -> Seq<Frame>
    decreases frames.len(),
{
    if frames.len() == 0 {
        Seq::empty()
    } else {
        let before = delivered(subs, frames.drop_last(), sink);
        if route_spec(subs, frames.last()) == (Route::Sink { sink }) {
            before.push(frames.last())
        } else {
            before
        }
    }
}

/// What the control sink has received, in order, once `frames` were routed.
pub open spec fn forwarded(frames: Seq<Frame>) -> Seq<Frame>
    decreases frames.len(),
{
    if frames.len() == 0 {
        Seq::empty()
    } else if frames.last() is Msg {
        forwarded(frames.drop_last())
    } else {
        forwarded(frames.drop_last()).push(frames.last())
    }
}

/// The views of a vector of operations.
pub open spec fn frames_of(ops: Seq<Op>) -> Seq<Frame> {
    Seq::new(ops.len(), |i: int| ops[i]@)
}

/// Routes incoming operations by subscription id.
pub struct NatsClientMultiplexer {
    pub subs: Registry,
}

impl NatsClientMultiplexer {
    /// The registry is well formed.
    pub open spec fn wf(&self) -> bool {
        self.subs.wf()
    }

    /// The sink of each subscription id that has an entry.
    pub open spec fn subscriptions(&self) -> Map<Seq<u8>, u64> {
        self.subs@
    }

    /// A demultiplexer without subscriptions.
    pub fn new() -> (r: Self)
        ensures
            r.wf(),
            r.subscriptions() == Map::<Seq<u8>, u64>::empty(),
    {
        NatsClientMultiplexer { subs: Registry::new() }
    }

    /// Messages for `sid` go to `sink` from now on.
    pub fn for_sid(&mut self, sid: Vec<u8>, sink: u64)
        requires
            old(self).wf(),
        ensures
            final(self).wf(),
            final(self).subscriptions() == old(self).subscriptions().insert(sid@, sink),
    {
        self.subs.register(sid, sink);
    }

    /// Messages for `sid` are dropped from now on.
    pub fn remove_sid(&mut self, sid: Vec<u8>)
        requires
            old(self).wf(),
        ensures
            final(self).wf(),
            final(self).subscriptions() == old(self).subscriptions().remove(sid@),
    {
        self.subs.remove(sid.as_slice());
    }

    /// Where `op` goes.
    pub fn route(&self, op: &Op) -> (r: Route)
        requires
            self.wf(),
        ensures
            r == route_spec(self.subscriptions(), op@),
    {
        match op {
            Op::MSG(msg) => match self.subs.lookup(msg.sid.as_slice()) {
                Some(sink) => Route::Sink { sink },
                None => Route::Dropped,
            },
            _ => Route::Control,
        }
    }

    /// Where each of `ops` goes, in the order in which they came.
    pub fn route_all(&self, ops: &Vec<Op>) -> (r: Vec<Route>)
        requires
            self.wf(),
        ensures
            r@.len() == ops@.len(),
            forall|i: int|
                0 <= i < ops@.len() ==> #[trigger] r@[i] == route_spec(
                    self.subscriptions(),
                    ops@[i]@,
                ),
    {
        let mut out: Vec<Route> = Vec::new();
        let mut i: usize = 0;
        while i < ops.len()
            invariant
                self.wf(),
                i <= ops@.len(),
                out@.len() == i,
                forall|j: int|
                    0 <= j < i ==> #[trigger] out@[j] == route_spec(
                        self.subscriptions(),
                        ops@[j]@,
                    ),
            decreases ops@.len() - i,
        {
            let r = self.route(&ops[i]);
            out.push(r);
            i += 1;
        }
        out
    }
}

/// A message goes to the sink of its own subscription id and to no other sink, whatever
/// subjects the subscriptions share.
pub proof fn lemma_dispatch_by_sid(
    subs: Map<Seq<u8>, u64>,
    frames: Seq<Frame>,
    msg: Frame,
    other: u64,
)
    requires
        msg is Msg,
        subs.dom().contains(msg->Msg_sid),
        other != subs[msg->Msg_sid],
    ensures
        route_spec(subs, msg) == (Route::Sink { sink: subs[msg->Msg_sid] }),
        delivered(subs, frames.push(msg), subs[msg->Msg_sid]) == delivered(
            subs,
            frames,
            subs[msg->Msg_sid],
        ).push(msg),
        delivered(subs, frames.push(msg), other) == delivered(subs, frames, other),
{
    assert(frames.push(msg).drop_last() =~= frames);
}

/// A message for a subscription id without entry reaches no sink.
pub proof fn lemma_unknown_sid_dropped(
    subs: Map<Seq<u8>, u64>,
    frames: Seq<Frame>,
    msg: Frame,
    sink: u64,
)
    requires
        msg is Msg,
        !subs.dom().contains(msg->Msg_sid),
    ensures
        route_spec(subs, msg) == Route::Dropped,
        delivered(subs, frames.push(msg), sink) == delivered(subs, frames, sink),
        forwarded(frames.push(msg)) == forwarded(frames),
{
    assert(frames.push(msg).drop_last() =~= frames);
}

/// What a sink has received after the first `n` frames is the start of what it has
/// received after all of them.
pub proof fn lemma_delivered_prefix(subs: Map<Seq<u8>, u64>, frames: Seq<Frame>, n: int, sink: u64)
    requires
        0 <= n <= frames.len(),
    ensures
        delivered(subs, frames.take(n), sink).len() <= delivered(subs, frames, sink).len(),
        forall|a: int|
            0 <= a < delivered(subs, frames.take(n), sink).len() ==> delivered(
                subs,
                frames.take(n),
                sink,
            )[a] == #[trigger] delivered(subs, frames, sink)[a],
    decreases frames.len(),
{
    if n == frames.len() {
        assert(frames.take(n) =~= frames);
    } else {
        assert(frames.drop_last().take(n) =~= frames.take(n));
        lemma_delivered_prefix(subs, frames.drop_last(), n, sink);
    }
}

/// Order per subscription: of two frames that go to one sink, the one that came first
/// stands first in what the sink receives.
pub proof fn lemma_order_preserved(
    subs: Map<Seq<u8>, u64>,
    frames: Seq<Frame>,
    i: int,
    j: int,
    sink: u64,
)
    requires
        0 <= i < j < frames.len(),
        route_spec(subs, frames[i]) == (Route::Sink { sink }),
        route_spec(subs, frames[j]) == (Route::Sink { sink }),
    ensures
        ({
            let got = delivered(subs, frames, sink);
            let a = delivered(subs, frames.take(i), sink).len() as int;
            let b = delivered(subs, frames.take(j), sink).len() as int;
            0 <= a < b < got.len() && got[a] == frames[i] && got[b] == frames[j]
        }),
{
    let fi = frames.take(i + 1);
    let fj = frames.take(j + 1);
    assert(fi.drop_last() =~= frames.take(i));
    assert(fj.drop_last() =~= frames.take(j));
    assert(fi.last() == frames[i]);
    assert(fj.last() == frames[j]);
    let a = delivered(subs, frames.take(i), sink).len() as int;
    let b = delivered(subs, frames.take(j), sink).len() as int;
    assert(delivered(subs, fi, sink) == delivered(subs, frames.take(i), sink).push(frames[i]));
    assert(delivered(subs, fj, sink) == delivered(subs, frames.take(j), sink).push(frames[j]));
    assert(frames.take(j).take(i + 1) =~= fi);
    lemma_delivered_prefix(subs, frames.take(j), i + 1, sink);
    lemma_delivered_prefix(subs, frames, i + 1, sink);
    lemma_delivered_prefix(subs, frames, j + 1, sink);
    assert(delivered(subs, fi, sink)[a] == frames[i]);
    assert(delivered(subs, fj, sink)[b] == frames[j]);
}

} // verus!
