//! Incremental decoding of wire bytes into operations.

use vstd::prelude::*;
use crate::codec::{
    decode_spec, lemma_decoded_well_formed, parse_header, verb_of, verb_text, Decoded, Header,
    Verb,
};
use crate::command::{Message, Op, PubCommand, SubCommand, UnsubCommand};
use crate::encoder::verb_bytes;
use crate::error::CommandError;
use crate::payload::{bytes_from_slice, bytes_from_vec};
use crate::text::{
    after_first_token, bytes_eq, drop_blanks, find_crlf, has_line_end, is_blank_byte,
    parse_decimal, push_all, split_tokens, token_len, tokens,
};

verus! {

/// A copy of `src`.
pub fn copy_of(src: &[u8]) -> (r: Vec<u8>)
    ensures
        r@ == src@,
{
    let mut out: Vec<u8> = Vec::new();
    push_all(&mut out, src);
    assert(out@ =~= src@);
    out
}

fn is_verb(tok: &[u8], v: Verb) -> (r: bool)
    ensures
        r == (tok@ == verb_text(v)),
{
    let text = verb_bytes(v);
    bytes_eq(tok, text.as_slice())
}

/// The verb that a token denotes, if any.
pub fn classify(tok: &[u8]) -> (r: Option<Verb>)
    ensures
        r == verb_of(tok@),
{
    if is_verb(tok, Verb::Connect) {
        Some(Verb::Connect)
    } else if is_verb(tok, Verb::Pub) {
        Some(Verb::Pub)
    } else if is_verb(tok, Verb::Sub) {
        Some(Verb::Sub)
    } else if is_verb(tok, Verb::Unsub) {
        Some(Verb::Unsub)
    } else if is_verb(tok, Verb::Msg) {
        Some(Verb::Msg)
    } else if is_verb(tok, Verb::Ping) {
        Some(Verb::Ping)
    } else if is_verb(tok, Verb::Pong) {
        Some(Verb::Pong)
    } else if is_verb(tok, Verb::Info) {
        Some(Verb::Info)
    } else if is_verb(tok, Verb::Ack) {
        Some(Verb::Ack)
    } else if is_verb(tok, Verb::Failure) {
        Some(Verb::Failure)
    } else {
        None
    }
}

fn skip_blanks(line: &[u8], from: usize, end: usize) -> (r: usize)
    requires
        from <= end <= line@.len(),
    ensures
        from <= r <= end,
        drop_blanks(line@.take(end as int).skip(from as int)) == line@.take(end as int).skip(
            r as int,
        ),
{
    let ghost s = line@.take(end as int);
    let mut i: usize = from;
    while i < end && is_blank_byte(line[i])
        invariant
            from <= i <= end,
            end <= line@.len(),
            s == line@.take(end as int),
            drop_blanks(s.skip(from as int)) == drop_blanks(s.skip(i as int)),
        decreases end - i,
    {
        assert(s.skip(i as int).skip(1) =~= s.skip(i + 1));
        i += 1;
    }
    i
}

fn skip_token(line: &[u8], from: usize, end: usize) -> (r: usize)
    requires
        from <= end <= line@.len(),
    ensures
        from <= r <= end,
        r - from == token_len(line@.take(end as int).skip(from as int)),
{
    let ghost s = line@.take(end as int);
    let mut i: usize = from;
    while i < end && !is_blank_byte(line[i])
        invariant
            from <= i <= end,
            end <= line@.len(),
            s == line@.take(end as int),
            token_len(s.skip(from as int)) == (i - from) + token_len(s.skip(i as int)),
        decreases end - i,
    {
        assert(s.skip(i as int).skip(1) =~= s.skip(i + 1));
        i += 1;
    }
    i
}

/// What follows the first token of the first `end` bytes of `line`, and the blanks after it.
pub fn rest_of_line(line: &[u8], end: usize) -> (r: Vec<u8>)
    requires
        end <= line@.len(),
    ensures
        r@ == after_first_token(line@.take(end as int)),
{
    let ghost s = line@.take(end as int);
    assert(s.skip(0) =~= s);
    let a = skip_blanks(line, 0, end);
    let b = skip_token(line, a, end);
    let c = skip_blanks(line, b, end);
    assert(s.skip(a as int).skip((b - a) as int) =~= s.skip(b as int));
    let mut out: Vec<u8> = Vec::new();
    let mut i: usize = c;
    while i < end
        invariant
            c <= i <= end,
            end <= line@.len(),
            s == line@.take(end as int),
            out@ == s.subrange(c as int, i as int),
        decreases end - i,
    {
        out.push(line[i]);
        assert(out@ =~= s.subrange(c as int, i + 1));
        i += 1;
    }
    assert(out@ =~= s.skip(c as int));
    out
}

/// What the exec reading of a header stands for.
pub open spec fn header_view(r: Result<(Op, Option<usize>), CommandError>) -> Header {
    match r {
        Err(e) => Header::Bad { error: e },
        Ok((op, None)) => Header::Plain { frame: op@ },
        Ok((op, Some(n))) => Header::WithBody { frame: op@, len: n },
    }
}

fn malformed() -> (r: Result<(Op, Option<usize>), CommandError>)
    ensures
        r == Err::<(Op, Option<usize>), CommandError>(CommandError::CommandMalformed),
{
    Err(CommandError::CommandMalformed)
}

/// Reads the first `end` bytes of `buf` as a header line. For PUB and MSG the operation
/// comes with an empty payload and the declared length beside it.
pub fn read_header(buf: &[u8], end: usize) -> (r: Result<(Op, Option<usize>), CommandError>)
    requires
        end <= buf@.len(),
    ensures
        header_view(r) == parse_header(buf@.take(end as int)),
{
    if has_line_end(buf, end) {
        return malformed();
    }
    let toks = split_tokens(buf, end);
    let ghost t = tokens(buf@.take(end as int));
    let n = toks.len();
    assert(t.len() == n);
    assert(forall|i: int| 0 <= i < n ==> t[i] == (#[trigger] toks@[i])@);
    if n == 0 {
        return malformed();
    }
    match classify(toks[0].as_slice()) {
        None => malformed(),
        Some(Verb::Connect) => Ok((Op::CONNECT(rest_of_line(buf, end)), None)),
        Some(Verb::Info) => Ok((Op::INFO(rest_of_line(buf, end)), None)),
        Some(Verb::Failure) => Ok((Op::ERR(rest_of_line(buf, end)), None)),
        Some(Verb::Ping) => if n == 1 {
            Ok((Op::PING, None))
        } else {
            malformed()
        },
        Some(Verb::Pong) => if n == 1 {
            Ok((Op::PONG, None))
        } else {
            malformed()
        },
        Some(Verb::Ack) => if n == 1 {
            Ok((Op::OK, None))
        } else {
            malformed()
        },
        Some(Verb::Sub) => if n == 3 {
            let cmd = SubCommand {
                subject: copy_of(toks[1].as_slice()),
                queue_group: None,
                sid: copy_of(toks[2].as_slice()),
            };
            Ok((Op::SUB(cmd), None))
        } else if n == 4 {
            let cmd = SubCommand {
                subject: copy_of(toks[1].as_slice()),
                queue_group: Some(copy_of(toks[2].as_slice())),
                sid: copy_of(toks[3].as_slice()),
            };
            Ok((Op::SUB(cmd), None))
        } else {
            malformed()
        },
        Some(Verb::Unsub) => if n == 2 {
            let cmd = UnsubCommand { sid: copy_of(toks[1].as_slice()), max_msgs: None };
            Ok((Op::UNSUB(cmd), None))
        } else if n == 3 {
            match parse_decimal(toks[2].as_slice()) {
                Some(k) => {
                    let cmd = UnsubCommand { sid: copy_of(toks[1].as_slice()), max_msgs: Some(k) };
                    Ok((Op::UNSUB(cmd), None))
                },
                None => Err(CommandError::InvalidLength),
            }
        } else {
            malformed()
        },
        Some(Verb::Pub) => if n == 3 || n == 4 {
            match parse_decimal(toks[n - 1].as_slice()) {
                Some(k) => {
                    let reply_to = if n == 4 {
                        Some(copy_of(toks[2].as_slice()))
                    } else {
                        None
                    };
                    let cmd = PubCommand {
                        subject: copy_of(toks[1].as_slice()),
                        reply_to,
                        payload: bytes_from_vec(Vec::new()),
                    };
                    Ok((Op::PUB(cmd), Some(k)))
                },
                None => Err(CommandError::InvalidLength),
            }
        } else {
            malformed()
        },
        Some(Verb::Msg) => if n == 4 || n == 5 {
            match parse_decimal(toks[n - 1].as_slice()) {
                Some(k) => {
                    let reply_to = if n == 5 {
                        Some(copy_of(toks[3].as_slice()))
                    } else {
                        None
                    };
                    let msg = Message {
                        subject: copy_of(toks[1].as_slice()),
                        sid: copy_of(toks[2].as_slice()),
                        reply_to,
                        payload: bytes_from_vec(Vec::new()),
                    };
                    Ok((Op::MSG(msg), Some(k)))
                },
                None => Err(CommandError::InvalidLength),
            }
        } else {
            malformed()
        },
    }
}

/// What a call of the decoder stands for.
pub open spec fn decoded_view(r: Result<Option<(Op, usize)>, CommandError>) -> Decoded {
    match r {
        Ok(None) => Decoded::Incomplete,
        Ok(Some((op, n))) => Decoded::Complete { frame: op@, consumed: n as int },
        Err(e) => Decoded::Failed { error: e },
    }
}

/// Decodes the first frame of `buf`. `Ok(None)` asks for more bytes and consumes none;
/// `Ok(Some((op, n)))` gives one operation and the number of bytes it took; an error
/// says why the buffer does not begin with a frame. An operation that comes out is
/// well formed.
pub fn decode(buf: &[u8]) -> (r: Result<Option<(Op, usize)>, CommandError>)
    ensures
        decoded_view(r) == decode_spec(buf@),
        r is Ok && r->Ok_0 is Some ==> r->Ok_0->Some_0.0@.well_formed(),
{
    proof {
        if decode_spec(buf@) is Complete {
            lemma_decoded_well_formed(buf@);
        }
    }
    let total: usize = buf.len();
    let h = match find_crlf(buf) {
        None => {
            return Ok(None);
        },
        Some(h) => h,
    };
    let (op, declared) = match read_header(buf, h) {
        Err(e) => {
            return Err(e);
        },
        Ok(pair) => pair,
    };
    let len = match declared {
        None => {
            return Ok(Some((op, h + 2)));
        },
        Some(len) => len,
    };
    let start: usize = h + 2;
    let room: usize = total - start;
    if room < len || room - len < 2 {
        return Ok(None);
    }
    let stop: usize = start + len;
    if buf[stop] != 13 || buf[stop + 1] != 10 {
        return Err(CommandError::BodyTerminatorMissing);
    }
    let payload = bytes_from_slice(vstd::slice::slice_subrange(buf, start, stop));
    let full = match op {
        Op::PUB(cmd) => Op::PUB(
            PubCommand { subject: cmd.subject, reply_to: cmd.reply_to, payload },
        ),
        Op::MSG(msg) => Op::MSG(
            Message { subject: msg.subject, sid: msg.sid, reply_to: msg.reply_to, payload },
        ),
        other => other,
    };
    Ok(Some((full, stop + 2)))
}

impl PubCommand {
    /// Reads `buf` as one PUB frame and nothing else. The command that comes out is
    /// well formed: its header held no CR and no LF.
    pub fn try_parse(buf: &[u8]) -> (r: Result<PubCommand, CommandError>)
        ensures
            match r {
                Ok(cmd) => decode_spec(buf@) == (Decoded::Complete {
                    frame: cmd@,
                    consumed: buf@.len() as int,
                }) && cmd@ is Pub && cmd@.well_formed(),
                Err(e) => match decode_spec(buf@) {
                    Decoded::Incomplete => e == CommandError::IncompleteCommandError,
                    Decoded::Failed { error } => e == error,
                    Decoded::Complete { frame, consumed } => e == CommandError::CommandMalformed
                        && !(frame is Pub && consumed == buf@.len()),
                },
            },
    {
        match decode(buf) {
            Err(e) => Err(e),
            Ok(None) => Err(CommandError::IncompleteCommandError),
            Ok(Some((op, n))) => {
                if n != buf.len() {
                    return Err(CommandError::CommandMalformed);
                }
                match op {
                    Op::PUB(cmd) => Ok(cmd),
                    _ => Err(CommandError::CommandMalformed),
                }
            },
        }
    }
}

} // verus!
