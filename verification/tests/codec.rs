use bytes::Bytes;
use nitox::command::{Message, Op, PubCommand, SubCommand, UnsubCommand};
use nitox::decoder::{classify, decode, read_header, rest_of_line};
use nitox::encoder::{encode, encode_msg, encode_pub, encode_sub, encode_unsub, verb_bytes};
use nitox::codec::Verb;
use nitox::error::CommandError;
use nitox::text::{bytes_eq, find_crlf, has_line_end, parse_decimal, push_decimal, split_tokens};

fn pub_cmd(subject: &str, reply_to: Option<&str>, payload: &[u8]) -> PubCommand {
    PubCommand {
        subject: subject.as_bytes().to_vec(),
        reply_to: reply_to.map(|r| r.as_bytes().to_vec()),
        payload: Bytes::from(payload),
    }
}

#[test]
fn publish_encoding() {
    let bytes = encode(&Op::PUB(pub_cmd("foo", None, b"bar")));
    assert_eq!(bytes, b"PUB\tfoo\t3\r\nbar\r\n".to_vec());
}

#[test]
fn publish_with_reply_and_empty_payload() {
    let bytes = encode_pub(&pub_cmd("foo", Some("INBOX1"), b""));
    assert_eq!(bytes, b"PUB\tfoo\tINBOX1\t0\r\n\r\n".to_vec());
}

#[test]
fn into_vec_gives_the_wire_bytes() {
    let bytes = pub_cmd("foo", None, b"bar").into_vec().unwrap();
    assert_eq!(&bytes[..], &b"PUB\tfoo\t3\r\nbar\r\n"[..]);
}

#[test]
fn subscribe_encoding() {
    let plain = SubCommand { subject: b"a".to_vec(), queue_group: None, sid: b"1".to_vec() };
    assert_eq!(encode_sub(&plain), b"SUB\ta\t1\r\n".to_vec());
    let grouped = SubCommand {
        subject: b"a".to_vec(),
        queue_group: Some(b"workers".to_vec()),
        sid: b"1".to_vec(),
    };
    assert_eq!(encode_sub(&grouped), b"SUB\ta\tworkers\t1\r\n".to_vec());
}

#[test]
fn unsubscribe_encoding() {
    let now = UnsubCommand { sid: b"7".to_vec(), max_msgs: None };
    assert_eq!(encode_unsub(&now), b"UNSUB\t7\r\n".to_vec());
    let later = UnsubCommand { sid: b"7".to_vec(), max_msgs: Some(12) };
    assert_eq!(encode_unsub(&later), b"UNSUB\t7\t12\r\n".to_vec());
}

#[test]
fn message_encoding() {
    let msg = Message {
        subject: b"a".to_vec(),
        sid: b"1".to_vec(),
        reply_to: Some(b"r".to_vec()),
        payload: Bytes::from(&b"hello"[..]),
    };
    assert_eq!(encode_msg(&msg), b"MSG\ta\t1\tr\t5\r\nhello\r\n".to_vec());
}

#[test]
fn bare_and_text_frames_encoding() {
    assert_eq!(encode(&Op::PING), b"PING\r\n".to_vec());
    assert_eq!(encode(&Op::PONG), b"PONG\r\n".to_vec());
    assert_eq!(encode(&Op::OK), b"+OK\r\n".to_vec());
    assert_eq!(encode(&Op::ERR(b"'Unknown Protocol'".to_vec())), b"-ERR\t'Unknown Protocol'\r\n".to_vec());
    assert_eq!(encode(&Op::INFO(b"{\"port\":4222}".to_vec())), b"INFO\t{\"port\":4222}\r\n".to_vec());
    assert_eq!(encode(&Op::CONNECT(b"{}".to_vec())), b"CONNECT\t{}\r\n".to_vec());
}

#[test]
fn decodes_a_message() {
    let wire = b"MSG\ta\t1\t5\r\nhello\r\n";
    match decode(wire) {
        Ok(Some((Op::MSG(msg), n))) => {
            assert_eq!(n, wire.len());
            assert_eq!(msg.subject, b"a".to_vec());
            assert_eq!(msg.sid, b"1".to_vec());
            assert_eq!(msg.reply_to, None);
            assert_eq!(&msg.payload[..], &b"hello"[..]);
        }
        other => panic!("unexpected {:?}", other),
    }
}

#[test]
fn decodes_one_frame_per_call() {
    let wire = b"PING\r\nPONG\r\n";
    match decode(wire) {
        Ok(Some((Op::PING, n))) => assert_eq!(n, 6),
        other => panic!("unexpected {:?}", other),
    }
    match decode(&wire[6..]) {
        Ok(Some((Op::PONG, n))) => assert_eq!(n, 6),
        other => panic!("unexpected {:?}", other),
    }
}

#[test]
fn asks_for_more_bytes() {
    assert!(matches!(decode(b""), Ok(None)));
    assert!(matches!(decode(b"PUB\tfoo\t3"), Ok(None)));
    assert!(matches!(decode(b"PUB\tfoo\t3\r\nba"), Ok(None)));
    assert!(matches!(decode(b"PUB\tfoo\t3\r\nbar\r"), Ok(None)));
}

#[test]
fn payload_may_hold_line_ends() {
    let payload = b"a\r\nb\r\n\r\n";
    let wire = encode(&Op::PUB(pub_cmd("foo", None, payload)));
    match decode(&wire) {
        Ok(Some((Op::PUB(cmd), n))) => {
            assert_eq!(n, wire.len());
            assert_eq!(&cmd.payload[..], &payload[..]);
            assert_eq!(cmd.subject, b"foo".to_vec());
        }
        other => panic!("unexpected {:?}", other),
    }
}

#[test]
fn empty_payload_round_trip() {
    let wire = encode(&Op::PUB(pub_cmd("foo", Some("r"), b"")));
    match decode(&wire) {
        Ok(Some((Op::PUB(cmd), n))) => {
            assert_eq!(n, wire.len());
            assert_eq!(cmd.payload.len(), 0);
            assert_eq!(cmd.reply_to, Some(b"r".to_vec()));
        }
        other => panic!("unexpected {:?}", other),
    }
}

#[test]
fn round_trip_of_each_operation() {
    let ops = vec![
        Op::CONNECT(b"{\"verbose\":false}".to_vec()),
        Op::PUB(pub_cmd("foo", Some("bar"), b"payload")),
        Op::SUB(SubCommand { subject: b"s".to_vec(), queue_group: Some(b"q".to_vec()), sid: b"9".to_vec() }),
        Op::SUB(SubCommand { subject: b"s".to_vec(), queue_group: None, sid: b"9".to_vec() }),
        Op::UNSUB(UnsubCommand { sid: b"9".to_vec(), max_msgs: Some(1) }),
        Op::UNSUB(UnsubCommand { sid: b"9".to_vec(), max_msgs: None }),
        Op::MSG(Message {
            subject: b"s".to_vec(),
            sid: b"9".to_vec(),
            reply_to: None,
            payload: Bytes::from(&b"\r\n"[..]),
        }),
        Op::PING,
        Op::PONG,
        Op::INFO(b"{\"server_id\":\"x\"}".to_vec()),
        Op::OK,
        Op::ERR(b"'Authorization Violation'".to_vec()),
    ];
    for op in ops.iter() {
        let wire = encode(op);
        match decode(&wire) {
            Ok(Some((back, n))) => {
                assert_eq!(n, wire.len());
                assert_eq!(encode(&back), wire);
                assert_eq!(format!("{:?}", back), format!("{:?}", op));
            }
            other => panic!("unexpected {:?}", other),
        }
    }
}

#[test]
fn blanks_in_headers_are_collapsed() {
    match decode(b"PUB  foo \t 3\r\nbar\r\n") {
        Ok(Some((Op::PUB(cmd), n))) => {
            assert_eq!(n, 19);
            assert_eq!(cmd.subject, b"foo".to_vec());
            assert_eq!(cmd.reply_to, None);
            assert_eq!(&cmd.payload[..], &b"bar"[..]);
        }
        other => panic!("unexpected {:?}", other),
    }
    match decode(b"-ERR   some text here\r\n") {
        Ok(Some((Op::ERR(text), _))) => assert_eq!(text, b"some text here".to_vec()),
        other => panic!("unexpected {:?}", other),
    }
}

#[test]
fn non_numeric_length_is_refused() {
    assert!(matches!(decode(b"PUB\tfoo\tX\r\nbar\r\n"), Err(CommandError::InvalidLength)));
    assert!(matches!(decode(b"PUB\tfoo\t-1\r\nbar\r\n"), Err(CommandError::InvalidLength)));
    assert!(matches!(decode(b"UNSUB\t1\tmany\r\n"), Err(CommandError::InvalidLength)));
}

#[test]
fn unknown_verb_is_malformed() {
    assert!(matches!(decode(b"HELLO\tworld\r\n"), Err(CommandError::CommandMalformed)));
    assert!(matches!(decode(b"\r\n"), Err(CommandError::CommandMalformed)));
    assert!(matches!(decode(b"pub\tfoo\t0\r\n\r\n"), Err(CommandError::CommandMalformed)));
}

#[test]
fn wrong_field_count_is_malformed() {
    assert!(matches!(decode(b"PUB\t3\r\nbar\r\n"), Err(CommandError::CommandMalformed)));
    assert!(matches!(decode(b"SUB\ta\r\n"), Err(CommandError::CommandMalformed)));
    assert!(matches!(decode(b"PING\tx\r\n"), Err(CommandError::CommandMalformed)));
    assert!(matches!(decode(b"MSG\ta\t1\r\n"), Err(CommandError::CommandMalformed)));
}

#[test]
fn missing_body_terminator_is_refused() {
    assert!(matches!(
        decode(b"PUB\tfoo\t3\r\nbarXY"),
        Err(CommandError::BodyTerminatorMissing)
    ));
    assert!(matches!(
        decode(b"PUB\tfoo\t2\r\nbar\r\n"),
        Err(CommandError::BodyTerminatorMissing)
    ));
}

#[test]
fn try_parse_reads_exactly_one_pub() {
    let cmd = PubCommand::try_parse(b"PUB\tfoo\tr\t3\r\nbar\r\n").unwrap();
    assert_eq!(cmd.subject, b"foo".to_vec());
    assert_eq!(cmd.reply_to, Some(b"r".to_vec()));
    assert_eq!(&cmd.payload[..], &b"bar"[..]);
    assert!(matches!(
        PubCommand::try_parse(b"PUB\tfoo\t3\r\nba"),
        Err(CommandError::IncompleteCommandError)
    ));
    assert!(matches!(
        PubCommand::try_parse(b"PUB\tfoo\t3\r\nbar\r\nPING\r\n"),
        Err(CommandError::CommandMalformed)
    ));
    assert!(matches!(PubCommand::try_parse(b"PING\r\n"), Err(CommandError::CommandMalformed)));
    assert!(matches!(
        PubCommand::try_parse(b"PUB\tfoo\tX\r\nbar\r\n"),
        Err(CommandError::InvalidLength)
    ));
}

#[test]
fn decimal_numbers() {
    assert_eq!(parse_decimal(b"0"), Some(0));
    assert_eq!(parse_decimal(b"007"), Some(7));
    assert_eq!(parse_decimal(b"18446744073709551615"), Some(18446744073709551615));
    assert_eq!(parse_decimal(b"18446744073709551616"), None);
    assert_eq!(parse_decimal(b""), None);
    assert_eq!(parse_decimal(b"12a"), None);
    assert_eq!(parse_decimal(b"+3"), None);
    let mut out = b"n=".to_vec();
    push_decimal(&mut out, 0);
    push_decimal(&mut out, 4096);
    assert_eq!(out, b"n=04096".to_vec());
}

#[test]
fn tokens_and_line_ends() {
    let line = b" a\tbc  d \r\n";
    assert_eq!(find_crlf(line), Some(9));
    assert_eq!(find_crlf(b"\r\r\n"), Some(1));
    assert_eq!(find_crlf(b"abc\r"), None);
    let toks = split_tokens(line, 9);
    assert_eq!(toks, vec![b"a".to_vec(), b"bc".to_vec(), b"d".to_vec()]);
    assert_eq!(split_tokens(b"   ", 3), Vec::<Vec<u8>>::new());
    assert_eq!(rest_of_line(b"  INFO  {a b}  ", 15), b"{a b}  ".to_vec());
    assert_eq!(rest_of_line(b"INFO", 4), Vec::<u8>::new());
    assert!(bytes_eq(b"abc", b"abc"));
    assert!(!bytes_eq(b"abc", b"abd"));
    assert!(!bytes_eq(b"abc", b"ab"));
}

#[test]
fn verbs() {
    assert_eq!(verb_bytes(Verb::Unsub), b"UNSUB".to_vec());
    assert_eq!(classify(b"CONNECT"), Some(Verb::Connect));
    assert_eq!(classify(b"+OK"), Some(Verb::Ack));
    assert_eq!(classify(b"-ERR"), Some(Verb::Failure));
    assert_eq!(classify(b"PINGS"), None);
    match read_header(b"MSG a 1 r 5", 11) {
        Ok((Op::MSG(msg), Some(5))) => {
            assert_eq!(msg.reply_to, Some(b"r".to_vec()));
            assert_eq!(msg.payload.len(), 0);
        }
        other => panic!("unexpected {:?}", other),
    }
}

#[test]
fn error_text_of_an_operation() {
    assert_eq!(Op::ERR(b"'Stale Connection'".to_vec()).error_text(), Some(&b"'Stale Connection'".to_vec()));
    assert_eq!(Op::PING.error_text(), None);
    assert_eq!(Op::INFO(b"{}".to_vec()).error_text(), None);
}

#[test]
fn later_bytes_do_not_change_a_frame() {
    let first = decode(b"MSG\ta\t1\t2\r\nhi\r\n").unwrap().unwrap();
    let again = decode(b"MSG\ta\t1\t2\r\nhi\r\nPING\r\nMSG\ta").unwrap().unwrap();
    assert_eq!(first.1, 15);
    assert_eq!(again.1, 15);
    assert_eq!(format!("{:?}", first.0), format!("{:?}", again.0));
}

#[test]
fn line_ends_inside_a_header_are_refused() {
    assert!(matches!(decode(b"PUB\tfo\ro\t3\r\nbar\r\n"), Err(CommandError::CommandMalformed)));
    assert!(matches!(decode(b"PUB\tfo\no\t3\r\nbar\r\n"), Err(CommandError::CommandMalformed)));
    assert!(matches!(decode(b"\nPING\r\n"), Err(CommandError::CommandMalformed)));
    assert!(matches!(decode(b"-ERR\ta\rb\r\n"), Err(CommandError::CommandMalformed)));
    assert!(matches!(decode(b"SUB\ta\t1\r\r\n"), Err(CommandError::CommandMalformed)));
    assert!(matches!(
        PubCommand::try_parse(b"PUB\tfo\ro\t3\r\nbar\r\n"),
        Err(CommandError::CommandMalformed)
    ));
    assert!(has_line_end(b"ab\rc", 4));
    assert!(!has_line_end(b"ab\rc", 2));
    assert!(!has_line_end(b"", 0));
}
