//! Encoding of operations to wire bytes.

use vstd::prelude::*;
use bytes::Bytes;
use crate::codec::{encode_spec, header_fields, join, lemma_join_push, verb_text, with_optional, Verb};
use crate::command::{field_view, Message, Op, PubCommand, SubCommand, UnsubCommand};
use crate::error::CommandError;
use crate::payload::{bytes_as_slice, bytes_from_vec, bytes_len, contents};
use crate::text::{decimal_digits, push_all, push_decimal, CR, LF, TAB};

verus! {

/// The wire text of a verb.
pub fn verb_bytes(v: Verb) -> (r: Vec<u8>)
    ensures
        r@ == verb_text(v),
{
    let r = match v {
        Verb::Connect => vec![67u8, 79u8, 78u8, 78u8, 69u8, 67u8, 84u8],
        Verb::Pub => vec![80u8, 85u8, 66u8],
        Verb::Sub => vec![83u8, 85u8, 66u8],
        Verb::Unsub => vec![85u8, 78u8, 83u8, 85u8, 66u8],
        Verb::Msg => vec![77u8, 83u8, 71u8],
        Verb::Ping => vec![80u8, 73u8, 78u8, 71u8],
        Verb::Pong => vec![80u8, 79u8, 78u8, 71u8],
        Verb::Info => vec![73u8, 78u8, 70u8, 79u8],
        Verb::Ack => vec![43u8, 79u8, 75u8],
        Verb::Failure => vec![45u8, 69u8, 82u8, 82u8],
    };
    assert(r@ =~= verb_text(v));
    r
}

fn push_field(out: &mut Vec<u8>, field: &[u8], Ghost(prev): Ghost<Seq<Seq<u8>>>)
    requires
        prev.len() > 0,
        old(out)@ == join(prev),
    ensures
        final(out)@ == join(prev.push(field@)),
{
    out.push(TAB);
    push_all(out, field);
    proof {
        lemma_join_push(prev, field@);
        assert(out@ =~= join(prev) + seq![9u8] + field@);
    }
}

fn push_optional(out: &mut Vec<u8>, field: &Option<Vec<u8>>, Ghost(prev): Ghost<Seq<Seq<u8>>>)
    requires
        prev.len() > 0,
        old(out)@ == join(prev),
    ensures
        final(out)@ == join(with_optional(prev, field_view(*field))),
{
    match field {
        Some(f) => {
            push_field(out, f.as_slice(), Ghost(prev));
        },
        None => {},
    }
}

fn push_count(out: &mut Vec<u8>, n: usize, Ghost(prev): Ghost<Seq<Seq<u8>>>)
    requires
        prev.len() > 0,
        old(out)@ == join(prev),
    ensures
        final(out)@ == join(prev.push(decimal_digits(n as nat))),
{
    let mut digits: Vec<u8> = Vec::new();
    push_decimal(&mut digits, n);
    assert(digits@ =~= decimal_digits(n as nat));
    push_field(out, digits.as_slice(), Ghost(prev));
}

fn push_line_end(out: &mut Vec<u8>)
    ensures
        final(out)@ == old(out)@ + seq![13u8, 10u8],
{
    out.push(CR);
    out.push(LF);
    assert(out@ =~= old(out)@ + seq![13u8, 10u8]);
}

fn encode_text(v: Verb, text: &Vec<u8>) -> (r: Vec<u8>)
    ensures
        r@ == join(seq![verb_text(v), text@]) + seq![13u8, 10u8],
{
    let mut out = verb_bytes(v);
    let ghost f0 = seq![verb_text(v)];
    assert(join(f0) == verb_text(v));
    push_field(&mut out, text.as_slice(), Ghost(f0));
    assert(f0.push(text@) =~= seq![verb_text(v), text@]);
    push_line_end(&mut out);
    out
}

fn encode_bare(v: Verb) -> (r: Vec<u8>)
    ensures
        r@ == join(seq![verb_text(v)]) + seq![13u8, 10u8],
{
    let mut out = verb_bytes(v);
    assert(join(seq![verb_text(v)]) == verb_text(v));
    push_line_end(&mut out);
    out
}

/// The wire bytes of a PUB frame.
pub fn encode_pub(cmd: &PubCommand) -> (r: Vec<u8>)
    ensures
        r@ == encode_spec(cmd@),
{
    let mut out = verb_bytes(Verb::Pub);
    let ghost f0 = seq![verb_text(Verb::Pub)];
    assert(join(f0) == verb_text(Verb::Pub));
    push_field(&mut out, cmd.subject.as_slice(), Ghost(f0));
    let ghost f1 = f0.push(cmd.subject@);
    assert(f1 =~= seq![verb_text(Verb::Pub), cmd.subject@]);
    push_optional(&mut out, &cmd.reply_to, Ghost(f1));
    let ghost f2 = with_optional(f1, field_view(cmd.reply_to));
    let n = bytes_len(&cmd.payload);
    push_count(&mut out, n, Ghost(f2));
    push_line_end(&mut out);
    push_all(&mut out, bytes_as_slice(&cmd.payload));
    push_line_end(&mut out);
    assert(out@ =~= encode_spec(cmd@));
    out
}

/// The wire bytes of a MSG frame.
pub fn encode_msg(msg: &Message) -> (r: Vec<u8>)
    ensures
        r@ == encode_spec(msg@),
{
    let mut out = verb_bytes(Verb::Msg);
    let ghost f0 = seq![verb_text(Verb::Msg)];
    assert(join(f0) == verb_text(Verb::Msg));
    push_field(&mut out, msg.subject.as_slice(), Ghost(f0));
    let ghost f1 = f0.push(msg.subject@);
    push_field(&mut out, msg.sid.as_slice(), Ghost(f1));
    let ghost f2 = f1.push(msg.sid@);
    assert(f2 =~= seq![verb_text(Verb::Msg), msg.subject@, msg.sid@]);
    push_optional(&mut out, &msg.reply_to, Ghost(f2));
    let ghost f3 = with_optional(f2, field_view(msg.reply_to));
    let n = bytes_len(&msg.payload);
    push_count(&mut out, n, Ghost(f3));
    push_line_end(&mut out);
    push_all(&mut out, bytes_as_slice(&msg.payload));
    push_line_end(&mut out);
    assert(out@ =~= encode_spec(msg@));
    out
}

/// The wire bytes of a SUB frame.
pub fn encode_sub(cmd: &SubCommand) -> (r: Vec<u8>)
    ensures
        r@ == encode_spec(cmd@),
{
    let mut out = verb_bytes(Verb::Sub);
    let ghost f0 = seq![verb_text(Verb::Sub)];
    assert(join(f0) == verb_text(Verb::Sub));
    push_field(&mut out, cmd.subject.as_slice(), Ghost(f0));
    let ghost f1 = f0.push(cmd.subject@);
    assert(f1 =~= seq![verb_text(Verb::Sub), cmd.subject@]);
    push_optional(&mut out, &cmd.queue_group, Ghost(f1));
    let ghost f2 = with_optional(f1, field_view(cmd.queue_group));
    push_field(&mut out, cmd.sid.as_slice(), Ghost(f2));
    push_line_end(&mut out);
    assert(out@ =~= encode_spec(cmd@));
    out
}

/// The wire bytes of an UNSUB frame.
pub fn encode_unsub(cmd: &UnsubCommand) -> (r: Vec<u8>)
    ensures
        r@ == encode_spec(cmd@),
{
    let mut out = verb_bytes(Verb::Unsub);
    let ghost f0 = seq![verb_text(Verb::Unsub)];
    assert(join(f0) == verb_text(Verb::Unsub));
    push_field(&mut out, cmd.sid.as_slice(), Ghost(f0));
    let ghost f1 = f0.push(cmd.sid@);
    assert(f1 =~= seq![verb_text(Verb::Unsub), cmd.sid@]);
    match cmd.max_msgs {
        Some(n) => {
            push_count(&mut out, n, Ghost(f1));
            assert(f1.push(decimal_digits(n as nat)) =~= header_fields(cmd@));
        },
        None => {},
    }
    push_line_end(&mut out);
    assert(out@ =~= encode_spec(cmd@));
    out
}

/// The wire bytes of an operation: the header's fields with single tabs between them,
/// a line end, and for PUB and MSG the payload and a second line end.
pub fn encode(op: &Op) -> (r: Vec<u8>)
    ensures
        r@ == encode_spec(op@),
{
    let out = match op {
        Op::CONNECT(options) => encode_text(Verb::Connect, options),
        Op::PUB(cmd) => encode_pub(cmd),
        Op::SUB(cmd) => encode_sub(cmd),
        Op::UNSUB(cmd) => encode_unsub(cmd),
        Op::MSG(msg) => encode_msg(msg),
        Op::PING => encode_bare(Verb::Ping),
        Op::PONG => encode_bare(Verb::Pong),
        Op::INFO(info) => encode_text(Verb::Info, info),
        Op::OK => encode_bare(Verb::Ack),
        Op::ERR(text) => encode_text(Verb::Failure, text),
    };
    assert(out@ =~= encode_spec(op@));
    out
}

impl PubCommand {
    /// The wire bytes of this command, in one buffer.
    pub fn into_vec(self) -> (r: Result<Bytes, CommandError>)
        ensures
            r is Ok,
            contents(r->Ok_0) == encode_spec(self@),
    {
        let out = encode_pub(&self);
        Ok(bytes_from_vec(out))
    }
}

} // verus!
