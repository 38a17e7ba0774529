use bytes::Bytes;
use nitox::builder::{check_field, PubCommandBuilder};
use nitox::client::{
    next_state, ConnectCommand, ConnectionEvent, ConnectionState, NatsClient, NatsClientOptions,
    RequestTicket,
};
use nitox::command::{Message, Op, PubCommand, SubCommand, UnsubCommand};
use nitox::error::NatsError;
use nitox::registry::Registry;
use nitox::request::{first_reply, generate_sid, is_reply, plan_request, reply_or_broken};
use nitox::router::{NatsClientMultiplexer, Route};
use nitox::sender::NatsClientSender;
use nitox::server_error::ServerError;
use nitox::transport::{choose_transport, plan_connection, Transport};

fn options(uri: &str, tls_required: bool) -> NatsClientOptions {
    NatsClientOptions {
        connect_command: ConnectCommand { tls_required, options: b"{\"verbose\":false}".to_vec() },
        cluster_uri: uri.to_string(),
    }
}

fn message(subject: &str, sid: &str, payload: &[u8]) -> Op {
    Op::MSG(Message {
        subject: subject.as_bytes().to_vec(),
        sid: sid.as_bytes().to_vec(),
        reply_to: None,
        payload: Bytes::from(payload),
    })
}

#[test]
fn can_connect_raw() {
    let opts = options("127.0.0.1:4222", false);
    let transport = NatsClient::transport_for(&opts, true);
    assert!(transport.is_ok());
    assert!(matches!(transport, Ok(Transport::Plain)));
    let client = NatsClient::from_options(opts);
    assert_eq!(client.state, ConnectionState::AwaitingInfo);
}

#[test]
fn can_connect() {
    let mut client = NatsClient::from_options(options("127.0.0.1:4222", false));
    let connection_result = client.connect();
    assert!(connection_result.is_ok());
    assert_eq!(client.state, ConnectionState::Connected);
    assert_eq!(client.take_outbound(), b"CONNECT\t{\"verbose\":false}\r\n".to_vec());
}

#[test]
fn can_request() {
    let mut client = NatsClient::from_options(options("127.0.0.1:4222", false));
    assert!(client.connect().is_ok());
    let _ = client.take_outbound();
    let connection_result = client.request(b"foo2".to_vec(), Bytes::from("bar"), 1);
    assert!(connection_result.is_ok());
    let ticket = connection_result.unwrap();
    let mut expected = Vec::new();
    expected.extend_from_slice(b"SUB\t");
    expected.extend_from_slice(&ticket.inbox);
    expected.extend_from_slice(b"\t");
    expected.extend_from_slice(&ticket.sid);
    expected.extend_from_slice(b"\r\nUNSUB\t");
    expected.extend_from_slice(&ticket.sid);
    expected.extend_from_slice(b"\t1\r\nPUB\tfoo2\t");
    expected.extend_from_slice(&ticket.inbox);
    expected.extend_from_slice(b"\t3\r\nbar\r\n");
    assert_eq!(client.take_outbound(), expected);
    let mut reply = Vec::new();
    reply.extend_from_slice(b"MSG\t");
    reply.extend_from_slice(&ticket.inbox);
    reply.extend_from_slice(b"\t");
    reply.extend_from_slice(&ticket.sid);
    reply.extend_from_slice(b"\t3\r\nbar\r\n");
    match client.receive(&reply) {
        Ok(Some((Op::MSG(msg), n, route))) => {
            assert_eq!(n, reply.len());
            assert_eq!(route, Route::Sink { sink: 1 });
            assert_eq!(msg.payload, "bar");
        }
        other => panic!("unexpected {:?}", other),
    }
}

#[test]
fn request_emits_sub_unsub_pub_in_order() {
    let mut client = NatsClient::from_options(options("127.0.0.1:4222", false));
    let ticket = RequestTicket { inbox: b"INBOX".to_vec(), sid: b"42".to_vec() };
    assert!(client.request_with(b"svc".to_vec(), Bytes::from("ping"), &ticket, 5).is_ok());
    assert_eq!(
        client.take_outbound(),
        b"SUB\tINBOX\t42\r\nUNSUB\t42\t1\r\nPUB\tsvc\tINBOX\t4\r\nping\r\n".to_vec()
    );
    match client.receive(b"MSG\tINBOX\t42\t4\r\npong\r\n") {
        Ok(Some((Op::MSG(msg), _, route))) => {
            assert_eq!(route, Route::Sink { sink: 5 });
            assert_eq!(msg.payload, "pong");
        }
        other => panic!("unexpected {:?}", other),
    }
}

#[test]
fn plan_of_a_request() {
    let ops = plan_request(b"svc".to_vec(), Bytes::from("ping"), b"INBOX", b"42");
    assert_eq!(ops.len(), 3);
    assert!(matches!(&ops[0], Op::SUB(c) if c.subject == b"INBOX" && c.sid == b"42" && c.queue_group.is_none()));
    assert!(matches!(&ops[1], Op::UNSUB(c) if c.sid == b"42" && c.max_msgs == Some(1)));
    assert!(matches!(&ops[2], Op::PUB(c) if c.subject == b"svc" && c.reply_to == Some(b"INBOX".to_vec()) && c.payload == "ping"));
}

#[test]
fn subscribe_then_deliver() {
    let mut client = NatsClient::from_options(options("127.0.0.1:4222", false));
    let cmd = SubCommand { subject: b"a".to_vec(), queue_group: None, sid: b"1".to_vec() };
    assert!(client.subscribe(cmd, 7).is_ok());
    assert_eq!(client.take_outbound(), b"SUB\ta\t1\r\n".to_vec());
    match client.receive(b"MSG\ta\t1\t5\r\nhello\r\n") {
        Ok(Some((Op::MSG(msg), n, route))) => {
            assert_eq!(n, 18);
            assert_eq!(route, Route::Sink { sink: 7 });
            assert_eq!(msg.subject, b"a".to_vec());
            assert_eq!(msg.sid, b"1".to_vec());
            assert_eq!(msg.payload, "hello");
        }
        other => panic!("unexpected {:?}", other),
    }
}

#[test]
fn malformed_frame_ends_the_connection() {
    let mut client = NatsClient::from_options(options("127.0.0.1:4222", false));
    let cmd = SubCommand { subject: b"a".to_vec(), queue_group: None, sid: b"1".to_vec() };
    assert!(client.subscribe(cmd, 7).is_ok());
    assert!(matches!(
        client.receive(b"PUB\tfoo\tX\r\nbar\r\n"),
        Err(NatsError::CommandMalformed)
    ));
    assert_eq!(client.state, ConnectionState::Closed);
    assert!(client.tx.closed);
    assert_eq!(client.route(&message("a", "1", b"x")), Route::Dropped);
    assert!(matches!(
        client.publish(PubCommand { subject: b"a".to_vec(), reply_to: None, payload: Bytes::new() }),
        Err(NatsError::InnerBrokenChain)
    ));
    assert!(matches!(client.connect(), Err(NatsError::InnerBrokenChain)));
    assert!(matches!(
        client.request(b"a".to_vec(), Bytes::new(), 1),
        Err(NatsError::InnerBrokenChain)
    ));
    assert_eq!(client.take_outbound(), Vec::<u8>::new());
}

#[test]
fn incomplete_frame_changes_nothing() {
    let mut client = NatsClient::from_options(options("127.0.0.1:4222", false));
    assert!(matches!(client.receive(b"MSG\ta\t1\t5\r\nhel"), Ok(None)));
    assert_eq!(client.state, ConnectionState::AwaitingInfo);
    assert!(!client.tx.closed);
}

#[test]
fn unknown_sid_is_dropped() {
    let mut mux = NatsClientMultiplexer::new();
    mux.for_sid(b"1".to_vec(), 10);
    assert_eq!(mux.route(&message("a", "2", b"x")), Route::Dropped);
    assert_eq!(mux.route(&message("a", "1", b"x")), Route::Sink { sink: 10 });
    assert_eq!(mux.route(&Op::PING), Route::Control);
    assert_eq!(mux.route(&Op::ERR(b"bad".to_vec())), Route::Control);
}

#[test]
fn same_subject_is_told_apart_by_sid() {
    let mut mux = NatsClientMultiplexer::new();
    mux.for_sid(b"1".to_vec(), 10);
    mux.for_sid(b"2".to_vec(), 20);
    let ops = vec![
        message("a", "1", b"first"),
        Op::PING,
        message("a", "2", b"other"),
        message("a", "1", b"second"),
        message("a", "3", b"nobody"),
    ];
    assert_eq!(
        mux.route_all(&ops),
        vec![
            Route::Sink { sink: 10 },
            Route::Control,
            Route::Sink { sink: 20 },
            Route::Sink { sink: 10 },
            Route::Dropped,
        ]
    );
    mux.remove_sid(b"1".to_vec());
    assert_eq!(mux.route(&ops[0]), Route::Dropped);
    assert_eq!(mux.route(&ops[2]), Route::Sink { sink: 20 });
}

#[test]
fn first_reply_is_the_first_message_with_the_sid() {
    let ops = vec![
        Op::PING,
        message("x", "9", b"noise"),
        message("inbox", "42", b"pong"),
        message("inbox", "42", b"late"),
    ];
    assert_eq!(first_reply(&ops, b"42"), Some(2));
    assert_eq!(first_reply(&ops, b"9"), Some(1));
    assert_eq!(first_reply(&ops, b"7"), None);
    assert!(is_reply(&ops[2], b"42"));
    assert!(!is_reply(&ops[0], b"42"));
}

#[test]
fn registry_register_lookup_remove() {
    let mut reg = Registry::new();
    assert_eq!(reg.lookup(b"1"), None);
    reg.remove(b"1");
    assert_eq!(reg.lookup(b"1"), None);
    reg.register(b"1".to_vec(), 10);
    reg.register(b"2".to_vec(), 20);
    assert_eq!(reg.lookup(b"1"), Some(10));
    reg.register(b"1".to_vec(), 11);
    assert_eq!(reg.lookup(b"1"), Some(11));
    assert_eq!(reg.lookup(b"2"), Some(20));
    reg.remove(b"1");
    reg.remove(b"1");
    assert_eq!(reg.lookup(b"1"), None);
    assert_eq!(reg.lookup(b"2"), Some(20));
}

#[test]
fn sender_keeps_the_order_of_submission() {
    let mut tx = NatsClientSender::new();
    assert!(tx.send(Op::PING).is_ok());
    assert!(tx.send(Op::PUB(PubCommand {
        subject: b"foo".to_vec(),
        reply_to: None,
        payload: Bytes::from("bar"),
    })).is_ok());
    assert!(tx.send(Op::PONG).is_ok());
    assert_eq!(tx.drain(), b"PING\r\nPUB\tfoo\t3\r\nbar\r\nPONG\r\n".to_vec());
    assert_eq!(tx.drain(), Vec::<u8>::new());
    tx.set_verbose(true);
    assert!(tx.verbose);
    assert!(tx.send(Op::PING).is_ok());
    tx.close();
    assert!(matches!(tx.send(Op::PING), Err(NatsError::InnerBrokenChain)));
    assert_eq!(tx.drain(), Vec::<u8>::new());
}

#[test]
fn publish_validates_the_subject() {
    let mut client = NatsClient::from_options(options("127.0.0.1:4222", false));
    let bad = |subject: &[u8], reply: Option<&[u8]>| PubCommand {
        subject: subject.to_vec(),
        reply_to: reply.map(|r| r.to_vec()),
        payload: Bytes::new(),
    };
    assert!(matches!(client.publish(bad(b"", None)), Err(NatsError::InvalidSubject)));
    assert!(matches!(client.publish(bad(b"a b", None)), Err(NatsError::InvalidSubject)));
    assert!(matches!(client.publish(bad(b"a\tb", None)), Err(NatsError::InvalidSubject)));
    assert!(matches!(client.publish(bad(b"a\r\n", None)), Err(NatsError::InvalidSubject)));
    assert!(matches!(client.publish(bad(b"a", Some(b"in box"))), Err(NatsError::InvalidInbox)));
    assert!(matches!(client.publish(bad(b"a b", Some(b""))), Err(NatsError::InvalidSubject)));
    assert_eq!(client.take_outbound(), Vec::<u8>::new());
    assert!(client.publish(bad(b"a", Some(b"inbox"))).is_ok());
    assert_eq!(client.take_outbound(), b"PUB\ta\tinbox\t0\r\n\r\n".to_vec());
}

#[test]
fn unsubscribe_removes_the_entry_at_once() {
    let mut client = NatsClient::from_options(options("127.0.0.1:4222", false));
    let cmd = SubCommand { subject: b"a".to_vec(), queue_group: None, sid: b"1".to_vec() };
    assert!(client.subscribe(cmd, 7).is_ok());
    assert!(client.unsubscribe(UnsubCommand { sid: b"1".to_vec(), max_msgs: None }).is_ok());
    assert_eq!(client.route(&message("a", "1", b"x")), Route::Dropped);
    assert_eq!(client.take_outbound(), b"SUB\ta\t1\r\nUNSUB\t1\r\n".to_vec());
    client.shutdown();
    assert!(matches!(
        client.subscribe(
            SubCommand { subject: b"a".to_vec(), queue_group: None, sid: b"2".to_vec() },
            8
        ),
        Err(NatsError::InnerBrokenChain)
    ));
    assert_eq!(client.route(&message("a", "2", b"x")), Route::Dropped);
    assert!(matches!(
        client.unsubscribe(UnsubCommand { sid: b"2".to_vec(), max_msgs: None }),
        Err(NatsError::InnerBrokenChain)
    ));
}

#[test]
fn builder_validates_and_builds() {
    let mut b = PubCommandBuilder::new();
    assert!(b.validate().is_ok());
    assert!(matches!(b.build(), Err(NatsError::UninitializedField)));
    b.subject = Some(b"foo".to_vec());
    assert!(matches!(b.build(), Err(NatsError::UninitializedField)));
    b.payload = Some(Bytes::from("bar"));
    let cmd = b.build().unwrap();
    assert_eq!(cmd.subject, b"foo".to_vec());
    assert_eq!(cmd.reply_to, None);
    assert_eq!(cmd.payload, "bar");
    b.reply_to = Some(Some(b"in box".to_vec()));
    assert!(matches!(b.validate(), Err(NatsError::InvalidInbox)));
    assert!(matches!(b.build(), Err(NatsError::InvalidInbox)));
    b.subject = Some(b"".to_vec());
    assert!(matches!(b.validate(), Err(NatsError::InvalidSubject)));
    assert!(check_field(b"a.b.c"));
    assert!(!check_field(b""));
    assert!(!check_field(b"a\nb"));
}

#[test]
fn generated_tokens_are_alphanumeric() {
    let inbox = PubCommandBuilder::generate_reply_to();
    assert_eq!(inbox.len(), 16);
    assert!(inbox.iter().all(|b| b.is_ascii_alphanumeric()));
    let sid = generate_sid();
    assert_eq!(sid.len(), 8);
    assert!(sid.iter().all(|b| b.is_ascii_alphanumeric()));
    let mut b = PubCommandBuilder::new();
    b.subject = Some(b"foo".to_vec());
    b.payload = Some(Bytes::from("bar"));
    b.auto_reply_to();
    let reply = b.reply_to.clone().unwrap().unwrap();
    assert_eq!(reply.len(), 16);
    assert!(reply.iter().all(|b| b.is_ascii_alphanumeric()));
    assert_eq!(b.subject, Some(b"foo".to_vec()));
    let cmd = b.build().unwrap();
    assert_eq!(cmd.reply_to, Some(reply));
}

#[test]
fn transport_is_chosen_from_the_address() {
    assert!(matches!(plan_connection(false, false, "nowhere"), Err(NatsError::UriInvalid)));
    assert!(matches!(plan_connection(true, false, "nats://example.com:4222"), Err(NatsError::UriInvalid)));
    assert!(matches!(plan_connection(false, true, "127.0.0.1:4222"), Ok(Transport::Plain)));
    assert!(matches!(plan_connection(true, true, "127.0.0.1:4222"), Err(NatsError::UrlParseError)));
    assert!(matches!(
        plan_connection(true, true, "localhost:4222"),
        Err(NatsError::TlsHostMissingError)
    ));
    match plan_connection(true, true, "nats://example.com:4222") {
        Ok(Transport::Tls { host }) => assert_eq!(host, "example.com"),
        _ => panic!("a host was expected"),
    }
    assert!(matches!(
        choose_transport(true, true, Some(None)),
        Err(NatsError::TlsHostMissingError)
    ));
    assert!(matches!(choose_transport(true, true, None), Err(NatsError::UrlParseError)));
    match choose_transport(true, true, Some(Some("h".to_string()))) {
        Ok(Transport::Tls { host }) => assert_eq!(host, "h"),
        _ => panic!("a host was expected"),
    }
}

#[test]
fn server_error_text() {
    let e = ServerError::from("boom \"x\"".to_string());
    assert_eq!(e.text(), "boom \"x\"");
    assert_eq!(e.message(), "ServerError(\"boom \\\"x\\\"\")");
    assert!(e.same(&ServerError::from("boom \"x\"".to_string())));
    assert!(!e.same(&ServerError::from("other".to_string())));
}

#[test]
fn life_of_a_connection() {
    let mut s = ConnectionState::Disconnected;
    for e in [
        ConnectionEvent::Open,
        ConnectionEvent::TransportUp,
        ConnectionEvent::HandshakeQueued,
        ConnectionEvent::Close,
        ConnectionEvent::Ended,
    ] {
        s = next_state(s, e).unwrap();
    }
    assert_eq!(s, ConnectionState::Closed);
    assert_eq!(next_state(ConnectionState::Closed, ConnectionEvent::Open), None);
    assert_eq!(next_state(ConnectionState::Connected, ConnectionEvent::Ended), None);
    assert_eq!(
        next_state(ConnectionState::Connecting, ConnectionEvent::TransportUp),
        Some(ConnectionState::AwaitingInfo)
    );
}

#[test]
fn builder_setters_chain() {
    let mut b = PubCommandBuilder::new();
    b.subject(b"foo".to_vec()).payload(Bytes::from("bar")).reply_to(Some(b"r".to_vec()));
    let cmd = b.build().unwrap();
    assert_eq!(cmd.subject, b"foo".to_vec());
    assert_eq!(cmd.reply_to, Some(b"r".to_vec()));
    assert_eq!(cmd.payload, "bar");
    b.reply_to(None);
    assert_eq!(b.build().unwrap().reply_to, None);
}

#[test]
fn forget_removes_only_the_entry() {
    let mut client = NatsClient::from_options(options("127.0.0.1:4222", false));
    let ticket = RequestTicket { inbox: b"INBOX".to_vec(), sid: b"42".to_vec() };
    assert!(client.request_with(b"svc".to_vec(), Bytes::from("ping"), &ticket, 5).is_ok());
    let _ = client.take_outbound();
    client.forget(b"42");
    client.forget(b"42");
    assert_eq!(client.route(&message("INBOX", "42", b"pong")), Route::Dropped);
    assert_eq!(client.take_outbound(), Vec::<u8>::new());
}

#[test]
fn wait_for_the_reply_ends_with_a_message_or_a_broken_chain() {
    let msg = Message {
        subject: b"inbox".to_vec(),
        sid: b"42".to_vec(),
        reply_to: None,
        payload: Bytes::from("pong"),
    };
    match reply_or_broken(Some(msg)) {
        Ok(m) => {
            assert_eq!(m.sid, b"42".to_vec());
            assert_eq!(m.payload, "pong");
        }
        Err(e) => panic!("unexpected {:?}", e),
    }
    assert!(matches!(reply_or_broken(None), Err(NatsError::InnerBrokenChain)));
}

#[test]
fn verbose_flag_outlives_the_primitives() {
    let mut client = NatsClient::from_options(options("127.0.0.1:4222", false));
    assert!(!client.tx.verbose);
    client.tx.set_verbose(true);
    assert!(client.connect().is_ok());
    let _ = client.take_outbound();
    assert!(client.tx.verbose);
    assert!(client.receive(b"BOGUS\r\n").is_err());
    assert!(client.tx.verbose);
}
