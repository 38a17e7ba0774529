//! The frame codec: operations to wire bytes and back.

use vstd::prelude::*;
use crate::command::{is_optional_field, Frame};
use crate::error::CommandError;
use crate::text::{
    after_first_token, crlf_at, decimal_digits, first_crlf, first_crlf_from, is_field,
    is_line_text, lemma_after_first_token_text, lemma_tokens_are_fields, no_line_end,
    lemma_after_first_token, lemma_decimal_digits, lemma_first_crlf, lemma_tokens_cons,
    parse_decimal_spec, tokens,
};

verus! {

/// The verbs of the protocol.
#[derive(Debug, Clone, Copy, PartialEq, Eq, Structural)]
pub enum Verb {
    Connect,
    Pub,
    Sub,
    Unsub,
    Msg,
    Ping,
    Pong,
    Info,
    Ack,
    Failure,
}

/// How a verb is written on the wire.
pub open spec fn verb_text(v: Verb) -> Seq<u8> {
    match v {
        Verb::Connect => seq![67u8, 79u8, 78u8, 78u8, 69u8, 67u8, 84u8],
        Verb::Pub => seq![80u8, 85u8, 66u8],
        Verb::Sub => seq![83u8, 85u8, 66u8],
        Verb::Unsub => seq![85u8, 78u8, 83u8, 85u8, 66u8],
        Verb::Msg => seq![77u8, 83u8, 71u8],
        Verb::Ping => seq![80u8, 73u8, 78u8, 71u8],
        Verb::Pong => seq![80u8, 79u8, 78u8, 71u8],
        Verb::Info => seq![73u8, 78u8, 70u8, 79u8],
        Verb::Ack => seq![43u8, 79u8, 75u8],
        Verb::Failure => seq![45u8, 69u8, 82u8, 82u8],
    }
}

/// The verb that a token denotes, if any.
pub open spec fn verb_of(s: Seq<u8>) -> Option<Verb> {
    if s == verb_text(Verb::Connect) {
        Some(Verb::Connect)
    } else if s == verb_text(Verb::Pub) {
        Some(Verb::Pub)
    } else if s == verb_text(Verb::Sub) {
        Some(Verb::Sub)
    } else if s == verb_text(Verb::Unsub) {
        Some(Verb::Unsub)
    } else if s == verb_text(Verb::Msg) {
        Some(Verb::Msg)
    } else if s == verb_text(Verb::Ping) {
        Some(Verb::Ping)
    } else if s == verb_text(Verb::Pong) {
        Some(Verb::Pong)
    } else if s == verb_text(Verb::Info) {
        Some(Verb::Info)
    } else if s == verb_text(Verb::Ack) {
        Some(Verb::Ack)
    } else if s == verb_text(Verb::Failure) {
        Some(Verb::Failure)
    } else {
        None
    }
}

/// The verb of a frame.
pub open spec fn frame_verb(f: Frame) -> Verb {
    match f {
        Frame::Connect { .. } => Verb::Connect,
        Frame::Pub { .. } => Verb::Pub,
        Frame::Sub { .. } => Verb::Sub,
        Frame::Unsub { .. } => Verb::Unsub,
        Frame::Msg { .. } => Verb::Msg,
        Frame::Ping => Verb::Ping,
        Frame::Pong => Verb::Pong,
        Frame::Info { .. } => Verb::Info,
        Frame::Ack => Verb::Ack,
        Frame::Failure { .. } => Verb::Failure,
    }
}

/// The fields with single tabs between them.
pub open spec fn join(f: Seq<Seq<u8>>) -> Seq<u8>
    decreases f.len(),
{
    if f.len() == 0 {
        Seq::empty()
    } else if f.len() == 1 {
        f[0]
    } else {
        f[0] + seq![9u8] + join(f.skip(1))
    }
}

/// `f`, and after it the optional field where it is present.
pub open spec fn with_optional(f: Seq<Seq<u8>>, o: Option<Seq<u8>>) -> Seq<Seq<u8>> {
    match o {
        Some(x) => f.push(x),
        None => f,
    }
}

/// The fields of a frame's header, the verb first.
pub open spec fn header_fields(f: Frame) -> Seq<Seq<u8>> {
    let verb = verb_text(frame_verb(f));
    match f {
        Frame::Connect { options } => seq![verb, options],
        Frame::Pub { subject, reply_to, payload } => with_optional(
            seq![verb, subject],
            reply_to,
        ).push(decimal_digits(payload.len())),
        Frame::Sub { subject, queue_group, sid } => with_optional(
            seq![verb, subject],
            queue_group,
        ).push(sid),
        Frame::Unsub { sid, max_msgs } => match max_msgs {
            Some(n) => seq![verb, sid, decimal_digits(n as nat)],
            None => seq![verb, sid],
        },
        Frame::Msg { subject, sid, reply_to, payload } => with_optional(
            seq![verb, subject, sid],
            reply_to,
        ).push(decimal_digits(payload.len())),
        Frame::Ping => seq![verb],
        Frame::Pong => seq![verb],
        Frame::Info { info } => seq![verb, info],
        Frame::Ack => seq![verb],
        Frame::Failure { text } => seq![verb, text],
    }
}

/// What follows the header's line end: the payload and its own line end, or nothing.
pub open spec fn body_of(f: Frame) -> Seq<u8> {
    match f {
        Frame::Pub { payload, .. } => payload + seq![13u8, 10u8],
        Frame::Msg { payload, .. } => payload + seq![13u8, 10u8],
        _ => Seq::empty(),
    }
}

/// The wire form of a frame.
pub open spec fn encode_spec(f: Frame) -> Seq<u8> {
    join(header_fields(f)) + seq![13u8, 10u8] + body_of(f)
}

/// What a header says: it is refused, it is a whole frame, or a payload of `len` bytes follows.
pub enum Header {
    Bad { error: CommandError },
    Plain { frame: Frame },
    WithBody { frame: Frame, len: usize },
}

/// Reading of a header line, without its line end. A header that holds a CR or an LF
/// is refused, so every field and text that is read is free of them. A frame that
/// awaits its payload is given with an empty one.
pub open spec fn parse_header(head: Seq<u8>) -> Header {
    let t = tokens(head);
    if !no_line_end(head) || t.len() == 0 {
        Header::Bad { error: CommandError::CommandMalformed }
    } else {
        match verb_of(t[0]) {
            None => Header::Bad { error: CommandError::CommandMalformed },
            Some(Verb::Connect) => Header::Plain {
                frame: Frame::Connect { options: after_first_token(head) },
            },
            Some(Verb::Info) => Header::Plain { frame: Frame::Info { info: after_first_token(head) } },
            Some(Verb::Failure) => Header::Plain {
                frame: Frame::Failure { text: after_first_token(head) },
            },
            Some(Verb::Ping) => if t.len() == 1 {
                Header::Plain { frame: Frame::Ping }
            } else {
                Header::Bad { error: CommandError::CommandMalformed }
            },
            Some(Verb::Pong) => if t.len() == 1 {
                Header::Plain { frame: Frame::Pong }
            } else {
                Header::Bad { error: CommandError::CommandMalformed }
            },
            Some(Verb::Ack) => if t.len() == 1 {
                Header::Plain { frame: Frame::Ack }
            } else {
                Header::Bad { error: CommandError::CommandMalformed }
            },
            Some(Verb::Sub) => if t.len() == 3 {
                Header::Plain { frame: Frame::Sub { subject: t[1], queue_group: None, sid: t[2] } }
            } else if t.len() == 4 {
                Header::Plain {
                    frame: Frame::Sub { subject: t[1], queue_group: Some(t[2]), sid: t[3] },
                }
            } else {
                Header::Bad { error: CommandError::CommandMalformed }
            },
            Some(Verb::Unsub) => if t.len() == 2 {
                Header::Plain { frame: Frame::Unsub { sid: t[1], max_msgs: None } }
            } else if t.len() == 3 {
                match parse_decimal_spec(t[2]) {
                    Some(n) => Header::Plain { frame: Frame::Unsub { sid: t[1], max_msgs: Some(n) } },
                    None => Header::Bad { error: CommandError::InvalidLength },
                }
            } else {
                Header::Bad { error: CommandError::CommandMalformed }
            },
            Some(Verb::Pub) => if t.len() == 3 || t.len() == 4 {
                match parse_decimal_spec(t.last()) {
                    Some(n) => Header::WithBody {
                        frame: Frame::Pub {
                            subject: t[1],
                            reply_to: if t.len() == 4 {
                                Some(t[2])
                            } else {
                                None
                            },
                            payload: Seq::empty(),
                        },
                        len: n,
                    },
                    None => Header::Bad { error: CommandError::InvalidLength },
                }
            } else {
                Header::Bad { error: CommandError::CommandMalformed }
            },
            Some(Verb::Msg) => if t.len() == 4 || t.len() == 5 {
                match parse_decimal_spec(t.last()) {
                    Some(n) => Header::WithBody {
                        frame: Frame::Msg {
                            subject: t[1],
                            sid: t[2],
                            reply_to: if t.len() == 5 {
                                Some(t[3])
                            } else {
                                None
                            },
                            payload: Seq::empty(),
                        },
                        len: n,
                    },
                    None => Header::Bad { error: CommandError::InvalidLength },
                }
            } else {
                Header::Bad { error: CommandError::CommandMalformed }
            },
        }
    }
}

/// The frame with another payload; a frame without payload stays as it is.
pub open spec fn with_payload(f: Frame, p: Seq<u8>) -> Frame {
    match f {
        Frame::Pub { subject, reply_to, payload } => Frame::Pub { subject, reply_to, payload: p },
        Frame::Msg { subject, sid, reply_to, payload } => Frame::Msg {
            subject,
            sid,
            reply_to,
            payload: p,
        },
        _ => f,
    }
}

/// What one call of the decoder finds at the start of a buffer.
pub enum Decoded {
    /// More bytes are needed; nothing is consumed.
    Incomplete,
    /// One whole frame, and the number of bytes it takes.
    Complete { frame: Frame, consumed: int },
    /// The buffer does not begin with a frame.
    Failed { error: CommandError },
}

/// Reading of a payload of `len` bytes at `start` and of the line end after it.
/// The bytes of the payload are taken as they are: no line end is looked for among them.
pub open spec fn decode_body(buf: Seq<u8>, start: int, len: int, partial: Frame) -> Decoded {
    if buf.len() < start + len + 2 {
        Decoded::Incomplete
    } else if !crlf_at(buf, start + len) {
        Decoded::Failed { error: CommandError::BodyTerminatorMissing }
    } else {
        Decoded::Complete {
            frame: with_payload(partial, buf.subrange(start, start + len)),
            consumed: start + len + 2,
        }
    }
}

/// The first frame of a buffer: the header runs to the first line end, and the payload
/// has the length that the header declares.
pub open spec fn decode_spec(buf: Seq<u8>) -> Decoded {
    match first_crlf(buf) {
        None => Decoded::Incomplete,
        Some(h) => match parse_header(buf.take(h)) {
            Header::Bad { error } => Decoded::Failed { error },
            Header::Plain { frame } => Decoded::Complete { frame, consumed: h + 2 },
            Header::WithBody { frame, len } => decode_body(buf, h + 2, len as int, frame),
        },
    }
}

/// One more field at the end is one more tab and that field on the wire.
pub proof fn lemma_join_push(f: Seq<Seq<u8>>, t: Seq<u8>)
    requires
        f.len() > 0,
    ensures
        join(f.push(t)) == join(f) + seq![9u8] + t,
    decreases f.len(),
{
    let g = f.push(t);
    assert(g.skip(1) =~= f.skip(1).push(t));
    assert(g[0] == f[0]);
    if f.len() == 1 {
        assert(g.skip(1) =~= seq![t]);
        assert(join(g.skip(1)) == t);
        assert(join(f) == f[0]);
    } else {
        lemma_join_push(f.skip(1), t);
        assert(join(g) =~= join(f) + seq![9u8] + t);
    }
}

/// Fields without CR and LF are joined without CR and LF.
pub proof fn lemma_join_no_line_end(f: Seq<Seq<u8>>)
    requires
        forall|i: int| 0 <= i < f.len() ==> no_line_end(#[trigger] f[i]),
    ensures
        no_line_end(join(f)),
    decreases f.len(),
{
    if f.len() > 1 {
        let r = f.skip(1);
        assert forall|i: int| 0 <= i < r.len() implies no_line_end(#[trigger] r[i]) by {
            assert(r[i] == f[i + 1]);
        }
        lemma_join_no_line_end(r);
        assert(no_line_end(f[0]));
    } else if f.len() == 1 {
        assert(no_line_end(f[0]));
    }
}

/// Joined fields split into these fields again.
pub proof fn lemma_join_tokens(f: Seq<Seq<u8>>)
    requires
        f.len() > 0,
        forall|i: int| 0 <= i < f.len() ==> is_field(#[trigger] f[i]),
    ensures
        tokens(join(f)) == f,
    decreases f.len(),
{
    assert(is_field(f[0]));
    if f.len() == 1 {
        lemma_tokens_cons(f[0], Seq::empty());
        assert(tokens(join(f)) =~= f);
    } else {
        let r = f.skip(1);
        assert forall|i: int| 0 <= i < r.len() implies is_field(#[trigger] r[i]) by {
            assert(r[i] == f[i + 1]);
        }
        lemma_join_tokens(r);
        lemma_tokens_cons(f[0], join(r));
        assert(seq![f[0]] + r =~= f);
    }
}

/// Each verb is a field, and is told apart from every other.
pub proof fn lemma_verb(v: Verb)
    ensures
        is_field(verb_text(v)),
        verb_of(verb_text(v)) == Some(v),
{
    let c = verb_text(Verb::Connect);
    let p = verb_text(Verb::Pub);
    let s = verb_text(Verb::Sub);
    let u = verb_text(Verb::Unsub);
    let m = verb_text(Verb::Msg);
    let pi = verb_text(Verb::Ping);
    let po = verb_text(Verb::Pong);
    let i = verb_text(Verb::Info);
    let a = verb_text(Verb::Ack);
    let f = verb_text(Verb::Failure);
    assert(c.len() == 7 && c[0] == 67);
    assert(p.len() == 3 && p[0] == 80);
    assert(s.len() == 3 && s[0] == 83);
    assert(u.len() == 5 && u[0] == 85);
    assert(m.len() == 3 && m[0] == 77);
    assert(pi.len() == 4 && pi[0] == 80 && pi[1] == 73);
    assert(po.len() == 4 && po[0] == 80 && po[1] == 79);
    assert(i.len() == 4 && i[0] == 73);
    assert(a.len() == 3 && a[0] == 43);
    assert(f.len() == 4 && f[0] == 45);
}

/// What the header of a well-formed frame is read as.
pub open spec fn expected_header(f: Frame) -> Header {
    match f {
        Frame::Pub { payload, .. } => Header::WithBody {
            frame: with_payload(f, Seq::empty()),
            len: payload.len() as usize,
        },
        Frame::Msg { payload, .. } => Header::WithBody {
            frame: with_payload(f, Seq::empty()),
            len: payload.len() as usize,
        },
        _ => Header::Plain { frame: f },
    }
}

proof fn lemma_text_header(v: Verb, text: Seq<u8>)
    requires
        is_line_text(text),
    ensures
        tokens(join(seq![verb_text(v), text])).len() > 0,
        tokens(join(seq![verb_text(v), text]))[0] == verb_text(v),
        after_first_token(join(seq![verb_text(v), text])) == text,
        no_line_end(join(seq![verb_text(v), text])),
{
    let verb = verb_text(v);
    let f = seq![verb, text];
    lemma_verb(v);
    assert(f.skip(1) =~= seq![text]);
    assert(join(f.skip(1)) == text);
    assert(join(f) == verb + seq![9u8] + text);
    lemma_tokens_cons(verb, text);
    lemma_after_first_token(verb, text);
    assert(no_line_end(verb));
    assert(no_line_end(text));
    assert forall|i: int| 0 <= i < f.len() implies no_line_end(#[trigger] f[i]) by {
        if i == 0 {
        } else {
            assert(f[i] == text);
        }
    }
    lemma_join_no_line_end(f);
}

/// The header that the encoder writes for a well-formed frame holds no CR and no LF, and the
/// decoder reads it as that frame.
pub proof fn lemma_header_round_trip(f: Frame)
    requires
        f.well_formed(),
    ensures
        no_line_end(join(header_fields(f))),
        parse_header(join(header_fields(f))) == expected_header(f),
{
    let v = frame_verb(f);
    let verb = verb_text(v);
    let fields = header_fields(f);
    let head = join(fields);
    lemma_verb(v);
    match f {
        Frame::Connect { options } => {
            lemma_text_header(v, options);
        },
        Frame::Info { info } => {
            lemma_text_header(v, info);
        },
        Frame::Failure { text } => {
            lemma_text_header(v, text);
        },
        _ => {
            match f {
                Frame::Pub { payload, .. } => {
                    lemma_decimal_digits(payload.len());
                },
                Frame::Msg { payload, .. } => {
                    lemma_decimal_digits(payload.len());
                },
                Frame::Unsub { max_msgs: Some(n), .. } => {
                    lemma_decimal_digits(n as nat);
                },
                _ => {},
            }
            assert(fields.len() > 0);
            assert(fields[0] == verb);
            assert forall|i: int| 0 <= i < fields.len() implies is_field(#[trigger] fields[i]) by {}
            assert forall|i: int| 0 <= i < fields.len() implies no_line_end(#[trigger] fields[i]) by {
                assert(is_field(fields[i]));
            }
            lemma_join_tokens(fields);
            lemma_join_no_line_end(fields);
            assert(tokens(head) == fields);
            assert(parse_header(head) == expected_header(f));
        },
    }
}

/// Round trip of the codec: the wire form of a well-formed frame, whatever follows it in
/// the buffer, decodes to that frame and to the length of its wire form.
pub proof fn lemma_decode_encode(f: Frame, rest: Seq<u8>)
    requires
        f.well_formed(),
    ensures
        decode_spec(encode_spec(f) + rest) == (Decoded::Complete {
            frame: f,
            consumed: encode_spec(f).len() as int,
        }),
{
    let head = join(header_fields(f));
    let buf = encode_spec(f) + rest;
    let h = head.len() as int;
    lemma_header_round_trip(f);
    assert(buf =~= head + seq![13u8, 10u8] + (body_of(f) + rest));
    lemma_first_crlf(head, body_of(f) + rest, 0);
    assert(buf.take(h) =~= head);
    match f {
        Frame::Pub { subject, reply_to, payload } => {
            let n = payload.len() as int;
            assert(buf.subrange(h + 2, h + 2 + n) =~= payload);
            assert(buf[h + 2 + n] == 13u8);
            assert(buf[h + 2 + n + 1] == 10u8);
        },
        Frame::Msg { subject, sid, reply_to, payload } => {
            let n = payload.len() as int;
            assert(buf.subrange(h + 2, h + 2 + n) =~= payload);
            assert(buf[h + 2 + n] == 13u8);
            assert(buf[h + 2 + n + 1] == 10u8);
        },
        _ => {},
    }
}

/// Payload transparency: whatever bytes a PUB carries, line ends among them or none at
/// all, the decoder gives back a PUB with exactly these bytes.
pub proof fn lemma_payload_transparent(
    subject: Seq<u8>,
    reply_to: Option<Seq<u8>>,
    payload: Seq<u8>,
    rest: Seq<u8>,
)
    requires
        is_field(subject),
        is_optional_field(reply_to),
        payload.len() <= usize::MAX,
    ensures
        decode_spec(encode_spec(Frame::Pub { subject, reply_to, payload }) + rest) is Complete,
        decode_spec(
            encode_spec(Frame::Pub { subject, reply_to, payload }) + rest,
        )->frame == (Frame::Pub { subject, reply_to, payload }),
{
    lemma_decode_encode(Frame::Pub { subject, reply_to, payload }, rest);
}

proof fn lemma_first_crlf_stable(buf: Seq<u8>, more: Seq<u8>, from: int)
    requires
        0 <= from,
        first_crlf_from(buf, from) is Some,
    ensures
        first_crlf_from(buf + more, from) == first_crlf_from(buf, from),
    decreases buf.len() - from,
{
    let all = buf + more;
    assert(from + 1 < buf.len());
    assert(all[from] == buf[from]);
    assert(all[from + 1] == buf[from + 1]);
    if !crlf_at(buf, from) {
        lemma_first_crlf_stable(buf, more, from + 1);
    }
}

/// Incremental decoding: once the buffer begins with a whole frame, or is refused,
/// bytes that arrive later change nothing of the answer.
pub proof fn lemma_decode_stable(buf: Seq<u8>, more: Seq<u8>)
    requires
        !(decode_spec(buf) is Incomplete),
    ensures
        decode_spec(buf + more) == decode_spec(buf),
{
    let all = buf + more;
    let h = first_crlf(buf)->Some_0;
    lemma_first_crlf_stable(buf, more, 0);
    lemma_first_crlf_bound(buf, 0);
    assert(all.take(h) =~= buf.take(h));
    match parse_header(buf.take(h)) {
        Header::WithBody { frame, len } => {
            let start = h + 2;
            assert(buf.len() >= start + len + 2);
            assert(all[start + len] == buf[start + len]);
            assert(all[start + len + 1] == buf[start + len + 1]);
            assert(all.subrange(start, start + len) =~= buf.subrange(start, start + len));
        },
        _ => {},
    }
}

proof fn lemma_first_crlf_bound(buf: Seq<u8>, from: int)
    requires
        0 <= from,
        first_crlf_from(buf, from) is Some,
    ensures
        from <= first_crlf_from(buf, from)->Some_0,
        first_crlf_from(buf, from)->Some_0 + 1 < buf.len(),
        crlf_at(buf, first_crlf_from(buf, from)->Some_0),
    decreases buf.len() - from,
{
    if !crlf_at(buf, from) {
        lemma_first_crlf_bound(buf, from + 1);
    }
}

/// What is read from a header is well formed: its fields are fields and its text is
/// line text. A frame that awaits its payload is well formed with every payload whose
/// length fits the machine word.
pub proof fn lemma_parsed_well_formed(head: Seq<u8>, payload: Seq<u8>)
    requires
        payload.len() <= usize::MAX,
    ensures
        match parse_header(head) {
            Header::Bad { .. } => true,
            Header::Plain { frame } => frame.well_formed(),
            Header::WithBody { frame, .. } => with_payload(frame, payload).well_formed(),
        },
{
    if no_line_end(head) {
        lemma_tokens_are_fields(head);
        lemma_after_first_token_text(head);
        let t = tokens(head);
        if t.len() > 0 {
            assert(forall|i: int| 0 <= i < t.len() ==> is_field(#[trigger] t[i]));
        }
    }
}

/// Every frame that the decoder gives is well formed: no field of it is empty or holds
/// a blank, a CR or an LF.
pub proof fn lemma_decoded_well_formed(buf: Seq<u8>)
    requires
        decode_spec(buf) is Complete,
    ensures
        decode_spec(buf)->frame.well_formed(),
{
    let h = first_crlf(buf)->Some_0;
    lemma_first_crlf_bound(buf, 0);
    match parse_header(buf.take(h)) {
        Header::WithBody { frame, len } => {
            let p = buf.subrange(h + 2, h + 2 + len);
            assert(p.len() == len);
            lemma_parsed_well_formed(buf.take(h), p);
        },
        _ => {
            lemma_parsed_well_formed(buf.take(h), Seq::empty());
        },
    }
}

/// The shape of a buffer that is one PUB frame: a header without CR and LF, a line end,
/// the payload, a line end. The header's first token is the verb, its second the
/// subject, its last the payload's length, and a token between these two, where there
/// is one, the reply subject.
pub proof fn lemma_pub_shape(buf: Seq<u8>)
    requires
        decode_spec(buf) is Complete,
        decode_spec(buf)->frame is Pub,
        decode_spec(buf)->consumed == buf.len(),
    ensures
        ({
            let head = buf.take(first_crlf(buf)->Some_0);
            let t = tokens(head);
            let f = decode_spec(buf)->frame;
            &&& first_crlf(buf) is Some
            &&& no_line_end(head)
            &&& buf == head + seq![13u8, 10u8] + f->Pub_payload + seq![13u8, 10u8]
            &&& t.len() == 3 || t.len() == 4
            &&& t[0] == verb_text(Verb::Pub)
            &&& t[1] == f->Pub_subject
            &&& parse_decimal_spec(t.last()) == Some(f->Pub_payload.len() as usize)
            &&& f->Pub_reply_to == (if t.len() == 4 {
                Some(t[2])
            } else {
                None
            })
        }),
{
    let h = first_crlf(buf)->Some_0;
    let head = buf.take(h);
    lemma_first_crlf_bound(buf, 0);
    let f = decode_spec(buf)->frame;
    match parse_header(head) {
        Header::WithBody { frame, len } => {
            let p = buf.subrange(h + 2, h + 2 + len);
            assert(p.len() == len);
            assert(f == with_payload(frame, p));
            assert(buf =~= head + seq![13u8, 10u8] + p + seq![13u8, 10u8]);
        },
        _ => {},
    }
}

} // verus!
