//! The request flow: three operations out, one message back.

use vstd::prelude::*;
use bytes::Bytes;
use crate::builder::lemma_token_is_field;
use crate::command::{Frame, Message, Op, PubCommand, SubCommand, UnsubCommand};
use crate::error::NatsError;
use crate::decoder::copy_of;
use crate::payload::contents;
use crate::random::{is_token, sample_alphanumeric};
use crate::router::{delivered, frames_of, lemma_delivered_prefix, route_spec, Route};
use crate::text::{bytes_eq, is_field};

verus! {

/// Length of a generated subscription id.
pub const SID_LEN: usize = 8;

/// A fresh subscription id: eight random ASCII letters and digits.
pub fn generate_sid() -> (r: Vec<u8>)
    ensures
        is_token(r@, 8),
        is_field(r@),
{
    let r = sample_alphanumeric(SID_LEN);
    proof {
        lemma_token_is_field(r@, 8);
    }
    r
}

/// The operations of a request, in the order in which they are sent: interest in the
/// inbox, its end after one message, and the message itself with the inbox to reply to.
pub open spec fn request_frames(
    subject: Seq<u8>,
    payload: Seq<u8>,
    inbox: Seq<u8>,
    sid: Seq<u8>,
) -> Seq<Frame> {
    seq![
        Frame::Sub { subject: inbox, queue_group: None, sid },
        Frame::Unsub { sid, max_msgs: Some(1usize) },
        Frame::Pub { subject, reply_to: Some(inbox), payload },
    ]
}

/// The operations of a request for the given inbox and subscription id.
pub fn plan_request(subject: Vec<u8>, payload: Bytes, inbox: &[u8], sid: &[u8]) -> (r: Vec<Op>)
    ensures
        r@.len() == 3,
        frames_of(r@) == request_frames(subject@, contents(payload), inbox@, sid@),
{
    let sub = SubCommand { subject: copy_of(inbox), queue_group: None, sid: copy_of(sid) };
    let unsub = UnsubCommand { sid: copy_of(sid), max_msgs: Some(1) };
    let publish = PubCommand { subject, reply_to: Some(copy_of(inbox)), payload };
    let mut ops: Vec<Op> = Vec::new();
    ops.push(Op::SUB(sub));
    ops.push(Op::UNSUB(unsub));
    ops.push(Op::PUB(publish));
    assert(frames_of(ops@) =~= request_frames(subject@, contents(payload), inbox@, sid@));
    ops
}

/// A reply to the request with subscription id `sid`: a message that bears this id.
pub open spec fn is_reply_spec(f: Frame, sid: Seq<u8>) -> bool {
    f is Msg && f->Msg_sid == sid
}

/// Whether `op` is a reply to the request with subscription id `sid`.
pub fn is_reply(op: &Op, sid: &[u8]) -> (r: bool)
    ensures
        r == is_reply_spec(op@, sid@),
{
    match op {
        Op::MSG(msg) => bytes_eq(msg.sid.as_slice(), sid),
        _ => false,
    }
}

/// The place of the first reply among `ops`: the message that resolves the request.
/// What stands before it is other traffic.
pub fn first_reply(ops: &Vec<Op>, sid: &[u8]) -> (r: Option<usize>)
    ensures
        match r {
            Some(i) => {
                &&& i < ops@.len()
                &&& is_reply_spec(ops@[i as int]@, sid@)
                &&& forall|j: int| 0 <= j < i ==> !is_reply_spec((#[trigger] ops@[j])@, sid@)
            },
            None => forall|j: int| 0 <= j < ops@.len() ==> !is_reply_spec((#[trigger] ops@[j])@, sid@),
        },
{
    let mut i: usize = 0;
    while i < ops.len()
        invariant
            i <= ops@.len(),
            forall|j: int| 0 <= j < i ==> !is_reply_spec((#[trigger] ops@[j])@, sid@),
        decreases ops@.len() - i,
    {
        if is_reply(&ops[i], sid) {
            return Some(i);
        }
        i += 1;
    }
    None
}

/// The outcome of the wait for the reply: the first message that the sink of the request
/// gave, or `InnerBrokenChain` where the sink was closed before any came.
pub fn reply_or_broken(first: Option<Message>) -> (r: Result<Message, NatsError>)
    ensures
        first is Some ==> r == Ok::<Message, NatsError>(first->Some_0),
        first is None ==> r == Err::<Message, NatsError>(NatsError::InnerBrokenChain),
{
    match first {
        Some(msg) => Ok(msg),
        None => Err(NatsError::InnerBrokenChain),
    }
}

/// A sink receives nothing where no frame is routed to it.
pub proof fn lemma_none_delivered(subs: Map<Seq<u8>, u64>, frames: Seq<Frame>, sink: u64)
    requires
        forall|k: int|
            0 <= k < frames.len() ==> route_spec(subs, #[trigger] frames[k]) != (Route::Sink {
                sink,
            }),
    ensures
        delivered(subs, frames, sink) == Seq::<Frame>::empty(),
    decreases frames.len(),
{
    if frames.len() > 0 {
        let f = frames.drop_last();
        assert forall|k: int| 0 <= k < f.len() implies route_spec(subs, #[trigger] f[k]) != (
        Route::Sink { sink }) by {
            assert(f[k] == frames[k]);
        }
        lemma_none_delivered(subs, f, sink);
        assert(frames.last() == frames[frames.len() - 1]);
    }
}

/// Correlation of a request: where the sink of the request stands under its subscription
/// id alone, the first thing it receives is the first message with that id, whatever
/// other traffic comes before or after.
pub proof fn lemma_request_correlation(
    subs: Map<Seq<u8>, u64>,
    frames: Seq<Frame>,
    sid: Seq<u8>,
    i: int,
)
    requires
        subs.dom().contains(sid),
        forall|t: Seq<u8>| #[trigger] subs.dom().contains(t) && t != sid ==> subs[t] != subs[sid],
        0 <= i < frames.len(),
        is_reply_spec(frames[i], sid),
        forall|j: int| 0 <= j < i ==> !is_reply_spec(#[trigger] frames[j], sid),
    ensures
        delivered(subs, frames, subs[sid]).len() > 0,
        delivered(subs, frames, subs[sid])[0] == frames[i],
{
    let sink = subs[sid];
    let before = frames.take(i);
    assert forall|k: int| 0 <= k < before.len() implies route_spec(subs, #[trigger] before[k]) != (
    Route::Sink { sink }) by {
        assert(before[k] == frames[k]);
        assert(!is_reply_spec(frames[k], sid));
    }
    lemma_none_delivered(subs, before, sink);
    let upto = frames.take(i + 1);
    assert(upto.drop_last() =~= before);
    assert(upto.last() == frames[i]);
    assert(delivered(subs, upto, sink) == delivered(subs, before, sink).push(frames[i]));
    lemma_delivered_prefix(subs, frames, i + 1, sink);
    assert(delivered(subs, upto, sink)[0] == frames[i]);
}

} // verus!
