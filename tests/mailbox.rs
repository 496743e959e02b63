use bytes::BytesMut;
use mailbox::codec::{RedisishCodec, RedisishProto, ServerResponse};
use mailbox::command::{parse, Command};
use mailbox::error::{ParseError, ServerError};
use mailbox::service::MailboxService;
use mailbox::store::SyncedMailbox;

fn buffer(text: &str) -> BytesMut {
    BytesMut::from(text.as_bytes())
}

fn encoded(responses: Vec<ServerResponse>) -> String {
    let mut codec = RedisishCodec;
    let mut out = BytesMut::new();
    for r in responses {
        codec.encode(r, &mut out).unwrap();
    }
    String::from_utf8(out.to_vec()).unwrap()
}

#[test]
fn publishes_come_back_in_order_then_empty() {
    let mut m: SyncedMailbox<String> = SyncedMailbox::new();
    for p in ["a", "b", "c"] {
        assert_eq!(m.add_message(p.to_string()), Ok(()));
    }
    assert_eq!(m.retrieve_message(), Ok(Some("a".to_string())));
    assert_eq!(m.retrieve_message(), Ok(Some("b".to_string())));
    assert_eq!(m.retrieve_message(), Ok(Some("c".to_string())));
    assert_eq!(m.retrieve_message(), Ok(None));
    assert_eq!(m.retrieve_message(), Ok(None));
}

#[test]
fn retrieve_on_empty_mailbox_is_empty() {
    let mut m: SyncedMailbox<String> = SyncedMailbox::new();
    assert_eq!(m.retrieve_message(), Ok(None));
    let mut s: MailboxService<String> = MailboxService::new();
    assert_eq!(s.call(Command::Retrieve), Ok(ServerResponse::Empty));
}

#[test]
fn many_publishes_are_all_kept() {
    let mut m: SyncedMailbox<u32> = SyncedMailbox::new();
    for i in 0..100u32 {
        m.add_message(i).unwrap();
    }
    assert_eq!(m.len(), 100);
    let mut seen = Vec::new();
    while let Ok(Some(v)) = m.retrieve_message() {
        seen.push(v);
    }
    assert_eq!(seen, (0..100u32).collect::<Vec<u32>>());
}

#[test]
fn each_payload_is_consumed_once() {
    let mut m: SyncedMailbox<String> = SyncedMailbox::new();
    for p in ["x", "y", "z"] {
        m.add_message(p.to_string()).unwrap();
    }
    let outcomes: Vec<Option<String>> = (0..10).map(|_| m.retrieve_message().unwrap()).collect();
    let got: Vec<String> = outcomes.iter().flatten().cloned().collect();
    assert_eq!(got, vec!["x".to_string(), "y".to_string(), "z".to_string()]);
    assert_eq!(outcomes.iter().filter(|o| o.is_none()).count(), 7);
}

#[test]
fn malformed_line_is_a_parse_error_and_touches_nothing() {
    let mut s: MailboxService<String> = MailboxService::new();
    let mut codec = RedisishCodec;
    let mut input = buffer("FETCH\nPUBLISH later\n");
    let (replies, outcome) = s.handle_input(&mut codec, &mut input);
    assert!(replies.is_empty());
    assert_eq!(outcome, Err(ServerError::ParseError(ParseError::UnknownVerb)));
    assert_eq!(s.len(), 0);
    assert_eq!(&input[..], b"PUBLISH later\n");
}

#[test]
fn end_to_end_session() {
    let mut s: MailboxService<String> = MailboxService::new();
    let mut codec = RedisishCodec;
    let mut input = buffer("PUBLISH hello\nPUBLISH world\nRETRIEVE\nRETRIEVE\nRETRIEVE\n");
    let (replies, outcome) = s.handle_input(&mut codec, &mut input);
    assert_eq!(outcome, Ok(()));
    assert_eq!(
        encoded(replies),
        "Stored message\nStored message\nhello\nworld\nNo message stored\n"
    );
    assert!(input.is_empty());
}

#[test]
fn fragmented_frame_is_reassembled() {
    let mut codec = RedisishCodec;
    let mut buf = buffer("PUB");
    assert_eq!(codec.decode(&mut buf), Ok(None));
    assert_eq!(&buf[..], b"PUB");
    buf.extend_from_slice(b"LISH foo\n");
    assert_eq!(codec.decode(&mut buf), Ok(Some(Command::Publish("foo".to_string()))));
    assert!(buf.is_empty());
}

#[test]
fn partial_frame_waits_in_buffer_across_calls() {
    let mut s: MailboxService<String> = MailboxService::new();
    let mut codec = RedisishCodec;
    let mut input = buffer("PUBLISH one\nRETR");
    let (replies, outcome) = s.handle_input(&mut codec, &mut input);
    assert_eq!(replies, vec![ServerResponse::Stored]);
    assert_eq!(outcome, Ok(()));
    assert_eq!(&input[..], b"RETR");
    input.extend_from_slice(b"IEVE\n");
    let (replies, outcome) = s.handle_input(&mut codec, &mut input);
    assert_eq!(replies, vec![ServerResponse::Value("one".to_string())]);
    assert_eq!(outcome, Ok(()));
}

#[test]
fn decode_takes_one_frame_at_a_time() {
    let mut codec = RedisishCodec;
    let mut buf = buffer("RETRIEVE\r\nPUBLISH a b\n");
    assert_eq!(codec.decode(&mut buf), Ok(Some(Command::Retrieve)));
    assert_eq!(&buf[..], b"PUBLISH a b\n");
    assert_eq!(codec.decode(&mut buf), Ok(Some(Command::Publish("a b".to_string()))));
    assert_eq!(codec.decode(&mut buf), Ok(None));
}

#[test]
fn invalid_utf8_is_an_encoding_error() {
    let mut codec = RedisishCodec;
    let mut buf = BytesMut::from(&[b'P', 0xff, 0xfe, b'\n', b'R'][..]);
    assert_eq!(codec.decode(&mut buf), Err(ServerError::EncodingError));
    assert_eq!(&buf[..], b"R");
}

#[test]
fn parse_accepts_the_two_commands() {
    assert_eq!(parse("RETRIEVE\n"), Ok(Command::Retrieve));
    assert_eq!(parse("RETRIEVE"), Ok(Command::Retrieve));
    assert_eq!(parse("PUBLISH héllo wörld\n"), Ok(Command::Publish("héllo wörld".to_string())));
    assert_eq!(parse("PUBLISH  x\r\n"), Ok(Command::Publish(" x".to_string())));
}

#[test]
fn parse_errors_each_variant() {
    assert_eq!(parse("\n"), Err(ParseError::EmptyLine));
    assert_eq!(parse("\r\n"), Err(ParseError::EmptyLine));
    assert_eq!(parse("PUBLISH\n"), Err(ParseError::MissingPayload));
    assert_eq!(parse("PUBLISH \n"), Err(ParseError::MissingPayload));
    assert_eq!(parse("RETRIEVE now\n"), Err(ParseError::UnexpectedPayload));
    assert_eq!(parse("retrieve\n"), Err(ParseError::UnknownVerb));
    assert_eq!(parse("PUBLISHx\n"), Err(ParseError::UnknownVerb));
    assert_eq!(parse("RETRIEVES\n"), Err(ParseError::UnknownVerb));
}

#[test]
fn encode_writes_each_response_as_a_line() {
    assert_eq!(encoded(vec![ServerResponse::Empty]), "No message stored\n");
    assert_eq!(encoded(vec![ServerResponse::Stored]), "Stored message\n");
    assert_eq!(encoded(vec![ServerResponse::Value("ünï".to_string())]), "ünï\n");
    let mut codec = RedisishCodec;
    let mut out = buffer("x");
    codec.encode(ServerResponse::Value("y".to_string()), &mut out).unwrap();
    assert_eq!(&out[..], b"xy\n");
}

#[test]
fn degraded_store_fails_every_operation() {
    let mut m: SyncedMailbox<String> = SyncedMailbox::new();
    m.add_message("kept".to_string()).unwrap();
    m.degrade();
    assert!(m.is_degraded());
    assert_eq!(m.add_message("lost".to_string()), Err(ServerError::LockError));
    assert_eq!(m.retrieve_message(), Err(ServerError::LockError));
    assert_eq!(m.len(), 1);
}

#[test]
fn degraded_service_answers_internal_failure() {
    let mut s: MailboxService<String> = MailboxService::new();
    s.call(Command::Publish("a".to_string())).unwrap();
    s.degrade();
    assert_eq!(s.call(Command::Retrieve), Err(ServerError::Internal));
    assert_eq!(s.call(Command::Publish("b".to_string())), Err(ServerError::Internal));
    let mut codec = RedisishCodec;
    let mut input = buffer("RETRIEVE\nRETRIEVE\n");
    let (replies, outcome) = s.handle_input(&mut codec, &mut input);
    assert!(replies.is_empty());
    assert_eq!(outcome, Err(ServerError::Internal));
    assert_eq!(&input[..], b"RETRIEVE\n");
}

#[test]
fn protocol_binds_a_codec() {
    let mut codec = RedisishProto.bind_transport();
    let mut buf = buffer("RETRIEVE\n");
    assert_eq!(codec.decode(&mut buf), Ok(Some(Command::Retrieve)));
}
