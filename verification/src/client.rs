//! The client: the outbound queue and the demultiplexer behind the four primitives.
//! It performs no input or output itself: what it queues is written by its owner, and
//! what its owner reads is routed here.

use vstd::prelude::*;
use bytes::Bytes;
use crate::builder::{check_field, PubCommandBuilder};
use crate::command::{field_view, is_optional_field, Frame, Op, PubCommand, SubCommand, UnsubCommand};
use crate::codec::{decode_spec, Decoded};
use crate::decoder::{copy_of, decode};
use crate::error::NatsError;
use crate::payload::contents;
use crate::random::is_token;
use crate::request::{generate_sid, plan_request, request_frames};
use crate::router::{route_spec, NatsClientMultiplexer, Route};
use crate::sender::NatsClientSender;
use crate::text::is_field;
use crate::transport::{plan_connection, transport_spec, transport_view, url_host_of, Transport};

verus! {

/// The options that the handshake carries.
pub struct ConnectCommand {
    /// Whether the connection must be secured.
    pub tls_required: bool,
    /// The options as JSON text, as the CONNECT frame carries them.
    pub options: Vec<u8>,
}

/// What a client is made from.
pub struct NatsClientOptions {
    pub connect_command: ConnectCommand,
    pub cluster_uri: String,
}

/// Where a connection stands in its life.
#[derive(Debug, Clone, Copy, PartialEq, Eq, Structural)]
pub enum ConnectionState {
    Disconnected,
    Connecting,
    AwaitingInfo,
    Connected,
    Closing,
    Closed,
}

/// What moves a connection on.
#[derive(Debug, Clone, Copy, PartialEq, Eq, Structural)]
pub enum ConnectionEvent {
    /// A client is asked for.
    Open,
    /// The transport is up.
    TransportUp,
    /// The handshake was queued.
    HandshakeQueued,
    /// The connection is closed on purpose, or the stream has failed.
    Close,
    /// All tasks have ended and all sinks are closed.
    Ended,
}

/// The life of a connection: from each state one event leads on, and no other does.
pub open spec fn next_state_spec(s: ConnectionState, e: ConnectionEvent) -> Option<ConnectionState> {
    match (s, e) {
        (ConnectionState::Disconnected, ConnectionEvent::Open) => Some(ConnectionState::Connecting),
        (ConnectionState::Connecting, ConnectionEvent::TransportUp) => Some(
            ConnectionState::AwaitingInfo,
        ),
        (ConnectionState::AwaitingInfo, ConnectionEvent::HandshakeQueued) => Some(
            ConnectionState::Connected,
        ),
        (ConnectionState::Connected, ConnectionEvent::Close) => Some(ConnectionState::Closing),
        (ConnectionState::Closing, ConnectionEvent::Ended) => Some(ConnectionState::Closed),
        _ => None,
    }
}

/// The state that follows `s` on `e`, where `e` leads on from `s`.
pub fn next_state(s: ConnectionState, e: ConnectionEvent) -> (r: Option<ConnectionState>)
    ensures
        r == next_state_spec(s, e),
{
    match (s, e) {
        (ConnectionState::Disconnected, ConnectionEvent::Open) => Some(ConnectionState::Connecting),
        (ConnectionState::Connecting, ConnectionEvent::TransportUp) => Some(
            ConnectionState::AwaitingInfo,
        ),
        (ConnectionState::AwaitingInfo, ConnectionEvent::HandshakeQueued) => Some(
            ConnectionState::Connected,
        ),
        (ConnectionState::Connected, ConnectionEvent::Close) => Some(ConnectionState::Closing),
        (ConnectionState::Closing, ConnectionEvent::Ended) => Some(ConnectionState::Closed),
        _ => None,
    }
}

/// The inbox and the subscription id that a request was given.
pub struct RequestTicket {
    pub inbox: Vec<u8>,
    pub sid: Vec<u8>,
}

/// A client of the broker.
pub struct NatsClient {
    pub opts: NatsClientOptions,
    pub tx: NatsClientSender,
    pub rx: NatsClientMultiplexer,
    pub state: ConnectionState,
}

/// What a PUB command is refused for, if anything: the subject is looked at first.
pub open spec fn publish_check(subject: Seq<u8>, reply_to: Option<Seq<u8>>) -> Option<NatsError> {
    if !is_field(subject) {
        Some(NatsError::InvalidSubject)
    } else if !is_optional_field(reply_to) {
        Some(NatsError::InvalidInbox)
    } else {
        None
    }
}

impl NatsClient {
    /// The registry behind the demultiplexer is well formed.
    pub open spec fn wf(&self) -> bool {
        self.rx.wf()
    }

    /// The operations that wait to be written, oldest first.
    pub open spec fn pending(&self) -> Seq<Frame> {
        self.tx.pending()
    }

    /// The sink of each subscription id that has an entry.
    pub open spec fn subscriptions(&self) -> Map<Seq<u8>, u64> {
        self.rx.subscriptions()
    }

    /// How to reach the cluster that `opts` names. `address_ok` says whether the address
    /// was accepted as `host:port`.
    pub fn transport_for(opts: &NatsClientOptions, address_ok: bool) -> (r: Result<
        Transport,
        NatsError,
    >)
        ensures
            transport_view(r) == transport_spec(
                opts.connect_command.tls_required,
                address_ok,
                url_host_of(opts.cluster_uri@),
            ),
    {
        plan_connection(opts.connect_command.tls_required, address_ok, opts.cluster_uri.as_str())
    }

    /// A client over a transport that was just opened: nothing waits, nothing is
    /// subscribed, and the handshake is still to be sent.
    pub fn from_options(opts: NatsClientOptions) -> (r: Self)
        ensures
            r.wf(),
            r.opts == opts,
            r.state == ConnectionState::AwaitingInfo,
            !r.tx.closed,
            !r.tx.verbose,
            r.pending() == Seq::<Frame>::empty(),
            r.subscriptions() == Map::<Seq<u8>, u64>::empty(),
    {
        NatsClient {
            opts,
            tx: NatsClientSender::new(),
            rx: NatsClientMultiplexer::new(),
            state: ConnectionState::AwaitingInfo,
        }
    }

    /// Queues the handshake. The client counts as connected once the frame is queued.
    pub fn connect(&mut self) -> (r: Result<(), NatsError>)
        requires
            old(self).wf(),
        ensures
            final(self).wf(),
            final(self).opts == old(self).opts,
            final(self).subscriptions() == old(self).subscriptions(),
            final(self).tx.closed == old(self).tx.closed,
            final(self).tx.verbose == old(self).tx.verbose,
            old(self).tx.closed ==> r == Err::<(), NatsError>(NatsError::InnerBrokenChain)
                && final(self).pending() == old(self).pending() && final(self).state == old(self).state,
            !old(self).tx.closed ==> r is Ok && final(self).state == ConnectionState::Connected
                && final(self).pending() == old(self).pending().push(
                Frame::Connect { options: old(self).opts.connect_command.options@ },
            ),
    {
        let options = copy_of(self.opts.connect_command.options.as_slice());
        match self.tx.send(Op::CONNECT(options)) {
            Ok(_) => {
                self.state = ConnectionState::Connected;
                Ok(())
            },
            Err(e) => Err(e),
        }
    }

    /// Queues a PUB. A subject or a reply subject that is no field is refused, and
    /// nothing is queued; so is every command once the queue is closed.
    pub fn publish(&mut self, cmd: PubCommand) -> (r: Result<(), NatsError>)
        requires
            old(self).wf(),
        ensures
            final(self).wf(),
            final(self).opts == old(self).opts,
            final(self).state == old(self).state,
            final(self).subscriptions() == old(self).subscriptions(),
            final(self).tx.closed == old(self).tx.closed,
            final(self).tx.verbose == old(self).tx.verbose,
            match publish_check(cmd.subject@, field_view(cmd.reply_to)) {
                Some(e) => {
                    &&& r == Err::<(), NatsError>(e)
                    &&& final(self).pending() == old(self).pending()
                },
                None => if old(self).tx.closed {
                    &&& r == Err::<(), NatsError>(NatsError::InnerBrokenChain)
                    &&& final(self).pending() == old(self).pending()
                } else {
                    &&& r is Ok
                    &&& final(self).pending() == old(self).pending().push(cmd@)
                },
            },
    {
        if !check_field(cmd.subject.as_slice()) {
            return Err(NatsError::InvalidSubject);
        }
        if let Some(reply_to) = &cmd.reply_to {
            if !check_field(reply_to.as_slice()) {
                return Err(NatsError::InvalidInbox);
            }
        }
        self.tx.send(Op::PUB(cmd))
    }

    /// Registers `sink` under the command's subscription id, then queues the SUB, so
    /// that no message can arrive for an id without entry. Once the queue is closed
    /// the command is refused and nothing changes.
    pub fn subscribe(&mut self, cmd: SubCommand, sink: u64) -> (r: Result<(), NatsError>)
        requires
            old(self).wf(),
        ensures
            final(self).wf(),
            final(self).opts == old(self).opts,
            final(self).state == old(self).state,
            final(self).tx.closed == old(self).tx.closed,
            final(self).tx.verbose == old(self).tx.verbose,
            old(self).tx.closed ==> r == Err::<(), NatsError>(NatsError::InnerBrokenChain)
                && final(self).pending() == old(self).pending() && final(self).subscriptions()
                == old(self).subscriptions(),
            !old(self).tx.closed ==> r is Ok && final(self).pending() == old(self).pending().push(
                cmd@,
            ) && final(self).subscriptions() == old(self).subscriptions().insert(cmd.sid@, sink),
    {
        if self.tx.closed {
            return Err(NatsError::InnerBrokenChain);
        }
        let sid = copy_of(cmd.sid.as_slice());
        self.rx.for_sid(sid, sink);
        self.tx.send(Op::SUB(cmd))
    }

    /// Takes the entry of the command's subscription id away at once, so that messages
    /// still on their way are dropped, and queues the UNSUB. Once the queue is closed
    /// nothing is queued and the call fails; the entry is gone all the same.
    pub fn unsubscribe(&mut self, cmd: UnsubCommand) -> (r: Result<(), NatsError>)
        requires
            old(self).wf(),
        ensures
            final(self).wf(),
            final(self).opts == old(self).opts,
            final(self).state == old(self).state,
            final(self).tx.closed == old(self).tx.closed,
            final(self).tx.verbose == old(self).tx.verbose,
            final(self).subscriptions() == old(self).subscriptions().remove(cmd.sid@),
            old(self).tx.closed ==> r == Err::<(), NatsError>(NatsError::InnerBrokenChain)
                && final(self).pending() == old(self).pending(),
            !old(self).tx.closed ==> r is Ok && final(self).pending() == old(self).pending().push(
                cmd@,
            ),
    {
        let sid = copy_of(cmd.sid.as_slice());
        self.rx.remove_sid(sid);
        self.tx.send(Op::UNSUB(cmd))
    }

    /// A request with a given inbox and subscription id: `sink` is registered under the
    /// id, then the three operations of the request are queued in their order. Once
    /// the queue is closed the request is refused and nothing changes.
    pub fn request_with(
        &mut self,
        subject: Vec<u8>,
        payload: Bytes,
        ticket: &RequestTicket,
        sink: u64,
    ) -> (r: Result<(), NatsError>)
        requires
            old(self).wf(),
        ensures
            final(self).wf(),
            final(self).opts == old(self).opts,
            final(self).state == old(self).state,
            final(self).tx.closed == old(self).tx.closed,
            final(self).tx.verbose == old(self).tx.verbose,
            old(self).tx.closed ==> {
                &&& r == Err::<(), NatsError>(NatsError::InnerBrokenChain)
                &&& final(self).pending() == old(self).pending()
                &&& final(self).subscriptions() == old(self).subscriptions()
            },
            !old(self).tx.closed ==> {
                &&& r is Ok
                &&& final(self).pending() == old(self).pending() + request_frames(
                    subject@,
                    contents(payload),
                    ticket.inbox@,
                    ticket.sid@,
                )
                &&& final(self).subscriptions() == old(self).subscriptions().insert(
                    ticket.sid@,
                    sink,
                )
            },
    {
        if self.tx.closed {
            return Err(NatsError::InnerBrokenChain);
        }
        self.rx.for_sid(copy_of(ticket.sid.as_slice()), sink);
        let mut ops = plan_request(subject, payload, ticket.inbox.as_slice(), ticket.sid.as_slice());
        let ghost frames = request_frames(subject@, contents(payload), ticket.inbox@, ticket.sid@);
        let ghost before = self.pending();
        let ghost planned = ops@;
        let publish = ops.pop().unwrap();
        let unsub = ops.pop().unwrap();
        let sub = ops.pop().unwrap();
        assert(sub@ == frames[0] && unsub@ == frames[1] && publish@ == frames[2]) by {
            let all = crate::router::frames_of(planned);
            assert(all[0] == planned[0]@);
            assert(all[1] == planned[1]@);
            assert(all[2] == planned[2]@);
        }
        let _ = self.tx.send(sub);
        let _ = self.tx.send(unsub);
        let _ = self.tx.send(publish);
        assert(self.pending() =~= before + frames);
        Ok(())
    }

    /// A request: a fresh inbox of sixteen and a fresh subscription id of eight random
    /// letters and digits are drawn, and the request is queued with them. The ticket
    /// says which were drawn.
    pub fn request(&mut self, subject: Vec<u8>, payload: Bytes, sink: u64) -> (r: Result<
        RequestTicket,
        NatsError,
    >)
        requires
            old(self).wf(),
        ensures
            final(self).wf(),
            final(self).opts == old(self).opts,
            final(self).state == old(self).state,
            final(self).tx.closed == old(self).tx.closed,
            final(self).tx.verbose == old(self).tx.verbose,
            old(self).tx.closed ==> r == Err::<RequestTicket, NatsError>(
                NatsError::InnerBrokenChain,
            ) && final(self).pending() == old(self).pending() && final(self).subscriptions()
                == old(self).subscriptions(),
            !old(self).tx.closed ==> r is Ok && is_token(r->Ok_0.inbox@, 16) && is_token(
                r->Ok_0.sid@,
                8,
            ) && final(self).pending() == old(self).pending() + request_frames(
                subject@,
                contents(payload),
                r->Ok_0.inbox@,
                r->Ok_0.sid@,
            ) && final(self).subscriptions() == old(self).subscriptions().insert(
                r->Ok_0.sid@,
                sink,
            ),
    {
        let ticket = RequestTicket {
            inbox: PubCommandBuilder::generate_reply_to(),
            sid: generate_sid(),
        };
        match self.request_with(subject, payload, &ticket, sink) {
            Ok(_) => Ok(ticket),
            Err(e) => Err(e),
        }
    }

    /// Takes the entry of `sid` away without a word to the broker: for a request that
    /// was answered or given up, and for a subscription whose consumer has gone.
    pub fn forget(&mut self, sid: &[u8])
        requires
            old(self).wf(),
        ensures
            final(self).wf(),
            final(self).subscriptions() == old(self).subscriptions().remove(sid@),
            final(self).pending() == old(self).pending(),
            final(self).tx.closed == old(self).tx.closed,
            final(self).tx.verbose == old(self).tx.verbose,
            final(self).state == old(self).state,
            final(self).opts == old(self).opts,
    {
        self.rx.remove_sid(copy_of(sid));
    }

    /// Where an operation that was read from the broker goes.
    pub fn route(&self, op: &Op) -> (r: Route)
        requires
            self.wf(),
        ensures
            r == route_spec(self.subscriptions(), op@),
    {
        self.rx.route(op)
    }

    /// The wire bytes of all that waits, in the order of submission.
    pub fn take_outbound(&mut self) -> (r: Vec<u8>)
        requires
            old(self).wf(),
        ensures
            final(self).wf(),
            r@ == crate::sender::wire(old(self).pending()),
            final(self).pending() == Seq::<Frame>::empty(),
            final(self).subscriptions() == old(self).subscriptions(),
            final(self).tx.closed == old(self).tx.closed,
            final(self).tx.verbose == old(self).tx.verbose,
            final(self).state == old(self).state,
            final(self).opts == old(self).opts,
    {
        self.tx.drain()
    }

    /// The reader has met the end of the stream or a frame it cannot read: the queue is
    /// closed, what waits is lost, no subscription keeps its sink, and the connection
    /// is closed.
    pub fn shutdown(&mut self)
        ensures
            final(self).wf(),
            final(self).tx.closed,
            final(self).tx.verbose == old(self).tx.verbose,
            final(self).state == ConnectionState::Closed,
            final(self).pending() == Seq::<Frame>::empty(),
            final(self).subscriptions() == Map::<Seq<u8>, u64>::empty(),
            final(self).opts == old(self).opts,
    {
        self.tx.close();
        self.rx = NatsClientMultiplexer::new();
        self.state = ConnectionState::Closed;
    }

    /// One step of the reader on the bytes read so far. `Ok(None)` asks for more bytes.
    /// `Ok(Some(..))` gives the first operation, the number of bytes it took and where it
    /// goes. A buffer that does not begin with a frame ends the connection as `shutdown`
    /// does, and the step fails with `CommandMalformed`.
    pub fn receive(&mut self, buf: &[u8]) -> (r: Result<Option<(Op, usize, Route)>, NatsError>)
        requires
            old(self).wf(),
        ensures
            final(self).wf(),
            final(self).opts == old(self).opts,
            final(self).tx.verbose == old(self).tx.verbose,
            match decode_spec(buf@) {
                Decoded::Incomplete => r == Ok::<Option<(Op, usize, Route)>, NatsError>(None)
                    && *final(self) == *old(self),
                Decoded::Complete { frame, consumed } => {
                    &&& *final(self) == *old(self)
                    &&& r is Ok
                    &&& r->Ok_0 is Some
                    &&& r->Ok_0->Some_0.0@ == frame
                    &&& frame.well_formed()
                    &&& r->Ok_0->Some_0.1 == consumed
                    &&& r->Ok_0->Some_0.2 == route_spec(old(self).subscriptions(), frame)
                },
                Decoded::Failed { error } => {
                    &&& r == Err::<Option<(Op, usize, Route)>, NatsError>(
                        NatsError::CommandMalformed,
                    )
                    &&& final(self).tx.closed
                    &&& final(self).state == ConnectionState::Closed
                    &&& final(self).pending() == Seq::<Frame>::empty()
                    &&& final(self).subscriptions() == Map::<Seq<u8>, u64>::empty()
                },
            },
    {
        match decode(buf) {
            Ok(None) => Ok(None),
            Ok(Some((op, n))) => {
                let route = self.rx.route(&op);
                Ok(Some((op, n, route)))
            },
            Err(_) => {
                self.shutdown();
                Err(NatsError::CommandMalformed)
            },
        }
    }
}

} // verus!
