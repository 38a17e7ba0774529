//! The outbound queue: operations wait here, in the order of submission, for the one writer.

use vstd::prelude::*;
use crate::codec::encode_spec;
use crate::command::{Frame, Op};
use crate::encoder::encode;
use crate::error::NatsError;
use crate::router::frames_of;
use crate::text::push_all;

verus! {

/// The wire bytes of frames written one after another.
pub open spec fn wire(frames: Seq<Frame>) -> Seq<u8>
    decreases frames.len(),
{
    if frames.len() == 0 {
        Seq::empty()
    } else {
        wire(frames.drop_last()) + encode_spec(frames.last())
    }
}

/// The queue in front of the writer.
pub struct NatsClientSender {
    pub queue: Vec<Op>,
    pub closed: bool,
    pub verbose: bool,
}

impl NatsClientSender {
    /// The operations that wait to be written, oldest first.
    pub open spec fn pending(&self) -> Seq<Frame> {
        frames_of(self.queue@)
    }

    /// An open, empty queue.
    pub fn new() -> (r: Self)
        ensures
            !r.closed,
            !r.verbose,
            r.pending() == Seq::<Frame>::empty(),
    {
        let r = NatsClientSender { queue: Vec::new(), closed: false, verbose: false };
        assert(r.pending() =~= Seq::<Frame>::empty());
        r
    }

    /// Sets the verbose flag; the queue stays as it is.
    pub fn set_verbose(&mut self, verbose: bool)
        ensures
            final(self).verbose == verbose,
            final(self).closed == old(self).closed,
            final(self).queue == old(self).queue,
    {
        self.verbose = verbose;
    }

    /// Accepts `op` behind all that wait. A closed queue accepts nothing.
    pub fn send(&mut self, op: Op) -> (r: Result<(), NatsError>)
        ensures
            final(self).closed == old(self).closed,
            final(self).verbose == old(self).verbose,
            old(self).closed ==> r == Err::<(), NatsError>(NatsError::InnerBrokenChain)
                && final(self).pending() == old(self).pending(),
            !old(self).closed ==> r is Ok && final(self).pending() == old(self).pending().push(op@),
    {
        if self.closed {
            return Err(NatsError::InnerBrokenChain);
        }
        self.queue.push(op);
        assert(self.pending() =~= old(self).pending().push(op@));
        Ok(())
    }

    /// The wire bytes of all that waits, in the order of submission; nothing waits afterwards.
    pub fn drain(&mut self) -> (r: Vec<u8>)
        ensures
            r@ == wire(old(self).pending()),
            final(self).pending() == Seq::<Frame>::empty(),
            final(self).closed == old(self).closed,
            final(self).verbose == old(self).verbose,
    {
        let mut out: Vec<u8> = Vec::new();
        let mut i: usize = 0;
        let ghost all = self.pending();
        assert(all.take(0) =~= Seq::<Frame>::empty());
        while i < self.queue.len()
            invariant
                i <= self.queue@.len(),
                all == self.pending(),
                *self == *old(self),
                out@ == wire(all.take(i as int)),
            decreases self.queue@.len() - i,
        {
            let bytes = encode(&self.queue[i]);
            push_all(&mut out, bytes.as_slice());
            proof {
                assert(all.take(i + 1).drop_last() =~= all.take(i as int));
                assert(all.take(i + 1).last() == self.queue@[i as int]@);
            }
            i += 1;
        }
        assert(all.take(i as int) =~= all);
        self.queue.clear();
        assert(self.pending() =~= Seq::<Frame>::empty());
        out
    }

    /// The writer has failed: what waits is lost, and nothing more is accepted.
    pub fn close(&mut self)
        ensures
            final(self).closed,
            final(self).pending() == Seq::<Frame>::empty(),
            final(self).verbose == old(self).verbose,
    {
        self.closed = true;
        self.queue.clear();
        assert(self.pending() =~= Seq::<Frame>::empty());
    }
}

/// Order on the wire: what is submitted later is written later.
pub proof fn lemma_wire_push(frames: Seq<Frame>, f: Frame)
    ensures
        wire(frames.push(f)) == wire(frames) + encode_spec(f),
{
    assert(frames.push(f).drop_last() =~= frames);
}

} // verus!
