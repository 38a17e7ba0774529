//! The operations of the protocol and their mathematical model.

use vstd::prelude::*;
use bytes::Bytes;
use crate::payload::contents;
use crate::text::{is_field, is_line_text};

verus! {

/// An application message to emit.
#[derive(Debug)]
pub struct PubCommand {
    pub subject: Vec<u8>,
    pub reply_to: Option<Vec<u8>>,
    pub payload: Bytes,
}

/// Interest in a subject, under a subscription id.
#[derive(Debug)]
pub struct SubCommand {
    pub subject: Vec<u8>,
    pub queue_group: Option<Vec<u8>>,
    pub sid: Vec<u8>,
}

/// End of an interest, at once or after `max_msgs` more messages.
#[derive(Debug)]
pub struct UnsubCommand {
    pub sid: Vec<u8>,
    pub max_msgs: Option<usize>,
}

/// A message that the broker delivers for a subscription.
#[derive(Debug)]
pub struct Message {
    pub subject: Vec<u8>,
    pub sid: Vec<u8>,
    pub reply_to: Option<Vec<u8>>,
    pub payload: Bytes,
}

/// Every frame of the protocol.
#[derive(Debug)]
pub enum Op {
    /// Handshake of the client; it carries the options as JSON text.
    CONNECT(Vec<u8>),
    PUB(PubCommand),
    SUB(SubCommand),
    UNSUB(UnsubCommand),
    MSG(Message),
    PING,
    PONG,
    /// Announcement of the server, as JSON text.
    INFO(Vec<u8>),
    OK,
    /// Error report of the server, with its text.
    ERR(Vec<u8>),
}

/// Model of a frame: what it holds, as sequences of bytes.
pub enum Frame {
    Connect { options: Seq<u8> },
    Pub { subject: Seq<u8>, reply_to: Option<Seq<u8>>, payload: Seq<u8> },
    Sub { subject: Seq<u8>, queue_group: Option<Seq<u8>>, sid: Seq<u8> },
    Unsub { sid: Seq<u8>, max_msgs: Option<usize> },
    Msg { subject: Seq<u8>, sid: Seq<u8>, reply_to: Option<Seq<u8>>, payload: Seq<u8> },
    Ping,
    Pong,
    Info { info: Seq<u8> },
    Ack,
    Failure { text: Seq<u8> },
}

/// Model of an optional field.
pub open spec fn field_view(f: Option<Vec<u8>>) -> Option<Seq<u8>> {
    match f {
        Some(v) => Some(v@),
        None => None,
    }
}

impl View for PubCommand {
    type V = Frame;

    open spec fn view(&self) -> Frame {
        Frame::Pub {
            subject: self.subject@,
            reply_to: field_view(self.reply_to),
            payload: contents(self.payload),
        }
    }
}

impl View for SubCommand {
    type V = Frame;

    open spec fn view(&self) -> Frame {
        Frame::Sub {
            subject: self.subject@,
            queue_group: field_view(self.queue_group),
            sid: self.sid@,
        }
    }
}

impl View for UnsubCommand {
    type V = Frame;

    open spec fn view(&self) -> Frame {
        Frame::Unsub { sid: self.sid@, max_msgs: self.max_msgs }
    }
}

impl View for Message {
    type V = Frame;

    open spec fn view(&self) -> Frame {
        Frame::Msg {
            subject: self.subject@,
            sid: self.sid@,
            reply_to: field_view(self.reply_to),
            payload: contents(self.payload),
        }
    }
}

impl View for Op {
    type V = Frame;

    open spec fn view(&self) -> Frame {
        match *self {
            Op::CONNECT(options) => Frame::Connect { options: options@ },
            Op::PUB(c) => c@,
            Op::SUB(c) => c@,
            Op::UNSUB(c) => c@,
            Op::MSG(m) => m@,
            Op::PING => Frame::Ping,
            Op::PONG => Frame::Pong,
            Op::INFO(info) => Frame::Info { info: info@ },
            Op::OK => Frame::Ack,
            Op::ERR(text) => Frame::Failure { text: text@ },
        }
    }
}

/// An optional field is absent or a field.
pub open spec fn is_optional_field(f: Option<Seq<u8>>) -> bool {
    match f {
        Some(s) => is_field(s),
        None => true,
    }
}

impl Frame {
    /// A frame that the wire can carry: each field is a field, each text is line text,
    /// and the payload's length fits the machine word.
    pub open spec fn well_formed(self) -> bool {
        match self {
            Frame::Connect { options } => is_line_text(options),
            Frame::Pub { subject, reply_to, payload } => {
                is_field(subject) && is_optional_field(reply_to) && payload.len() <= usize::MAX
            },
            Frame::Sub { subject, queue_group, sid } => {
                is_field(subject) && is_optional_field(queue_group) && is_field(sid)
            },
            Frame::Unsub { sid, max_msgs } => is_field(sid),
            Frame::Msg { subject, sid, reply_to, payload } => {
                is_field(subject) && is_field(sid) && is_optional_field(reply_to) && payload.len()
                    <= usize::MAX
            },
            Frame::Ping => true,
            Frame::Pong => true,
            Frame::Info { info } => is_line_text(info),
            Frame::Ack => true,
            Frame::Failure { text } => is_line_text(text),
        }
    }
}

impl Op {
    /// The text of an error report of the broker; nothing for any other operation.
    pub fn error_text(&self) -> (r: Option<&Vec<u8>>)
        ensures
            match r {
                Some(text) => self@ == (Frame::Failure { text: text@ }),
                None => !(self@ is Failure),
            },
    {
        match self {
            Op::ERR(text) => Some(text),
            _ => None,
        }
    }
}

} // verus!
