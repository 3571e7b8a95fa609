use bytes::Bytes;
use zeromq::command::{ZmqCommand, ZmqCommandName};
use zeromq::error::CodecError;
use zeromq::properties::Properties;
use zeromq::socket::SocketType;
use zeromq::wire::same_octets;

fn body(frame: &[u8]) -> Bytes {
    // The flag tells whether one or eight octets give the length.
    if frame[0] == 0x06 {
        Bytes::copy_from_slice(&frame[9..])
    } else {
        assert_eq!(frame[0], 0x04);
        assert_eq!(frame[1] as usize, frame.len() - 2);
        Bytes::copy_from_slice(&frame[2..])
    }
}

fn read(body: &[u8]) -> Result<ZmqCommand, CodecError> {
    let b = Bytes::copy_from_slice(body);
    assert!(ZmqCommand::is_framed(&b));
    ZmqCommand::try_from(b)
}

#[test]
fn command_names() {
    assert_eq!(ZmqCommandName::READY.as_str(), "READY");
    assert_eq!(ZmqCommandName::PING.as_str(), "PING");
    assert_eq!(ZmqCommandName::PONG.as_str(), "PONG");
}

#[test]
fn ready_names_the_socket_type() {
    let c = ZmqCommand::ready(SocketType::DEALER);
    assert_eq!(c.name, ZmqCommandName::READY);
    assert_eq!(c.properties.get("Socket-Type"), Some(&b"DEALER"[..]));
    assert_eq!(c.properties.len(), 1);
    assert_eq!(c.ttl, None);
    assert!(c.context.is_none());
}

#[test]
fn ready_frame_octets() {
    let frame = ZmqCommand::ready(SocketType::REP).encode();
    assert_eq!(&frame[..], b"\x04\x19\x05READY\x0bSocket-Type\0\0\0\x03REP");
}

#[test]
fn ping_frame_octets() {
    let ping = ZmqCommand::ping(Some(600), Some(Bytes::from_static(b"ctx")));
    assert_eq!(&ping.encode()[..], b"\x04\x0a\x04PING\x02\x58ctx");
    assert_eq!(&ZmqCommand::ping(None, None).encode()[..], b"\x04\x07\x04PING\0\0");
}

#[test]
fn pong_frame_octets() {
    let pong = ZmqCommand::pong(Some(Bytes::from_static(b"ctx")));
    assert_eq!(&pong.encode()[..], b"\x04\x08\x04PONGctx");
    assert_eq!(&ZmqCommand::pong(None).encode()[..], b"\x04\x05\x04PONG");
}

#[test]
fn long_frame_octets() {
    let mut c = ZmqCommand::ready(SocketType::SUB);
    c.add_prop("Identity".to_string(), Bytes::from(vec![7u8; 300]));
    let frame = c.encode();
    let len = frame.len() - 9;
    assert!(len > 255);
    assert_eq!(frame[0], 0x06);
    assert_eq!(&frame[1..9], &(len as u64).to_be_bytes()[..]);
    let back = read(&body(&frame)).unwrap();
    assert_eq!(back.properties.get("Identity"), Some(&vec![7u8; 300][..]));
    assert_eq!(back.properties.get("Socket-Type"), Some(&b"SUB"[..]));
}

#[test]
fn commands_read_back() {
    let ping = read(&body(&ZmqCommand::ping(Some(0x1234), None).encode())).unwrap();
    assert_eq!(ping.name, ZmqCommandName::PING);
    assert_eq!(ping.ttl, Some(0x1234));
    assert!(ping.context.is_none());
    let context = Bytes::from_static(b"0123456789abcdef");
    let pong = read(&body(&ZmqCommand::pong(Some(context.clone())).encode())).unwrap();
    assert_eq!(pong.name, ZmqCommandName::PONG);
    assert_eq!(pong.ttl, None);
    assert_eq!(pong.context, Some(context));
}

#[test]
fn unknown_commands_are_refused() {
    match read(b"\x05HELLO") {
        Err(CodecError::Command(text)) => assert_eq!(text, "Unknown command received"),
        other => panic!("{:?}", other),
    }
}

#[test]
fn short_pings_are_refused() {
    match read(b"\x04PING\x01") {
        Err(CodecError::Decode(text)) => {
            assert_eq!(text, "PING command requires at least 2 bytes for TTL")
        }
        other => panic!("{:?}", other),
    }
}

#[test]
fn long_contexts_are_refused() {
    match read(b"\x04PING\0\00123456789abcdefg") {
        Err(CodecError::Decode(text)) => assert_eq!(text, "PING context exceeds 16 bytes"),
        other => panic!("{:?}", other),
    }
    match read(b"\x04PONG0123456789abcdefg") {
        Err(CodecError::Decode(text)) => assert_eq!(text, "PONG context exceeds 16 bytes"),
        other => panic!("{:?}", other),
    }
    assert!(read(b"\x04PONG0123456789abcdef").is_ok());
}

#[test]
fn property_names_are_utf8() {
    match read(b"\x05READY\x02\xff\xfe") {
        Err(CodecError::Decode(text)) => assert_eq!(text, "Invalid property identifier"),
        other => panic!("{:?}", other),
    }
    let c = read(b"\x05READY\x02\xc3\xa9\0\0\0\x01x").unwrap();
    assert_eq!(c.properties.get("\u{e9}"), Some(&b"x"[..]));
}

#[test]
fn lengths_that_run_past_the_end_are_found() {
    for bad in [
        &b""[..],
        &b"\x05READ"[..],
        &b"\x05READY\x03ab"[..],
        &b"\x05READY\x01a\0\0"[..],
        &b"\x05READY\x01a\0\0\0\x02x"[..],
    ] {
        assert!(!ZmqCommand::is_framed(&Bytes::copy_from_slice(bad)));
    }
    assert!(ZmqCommand::is_framed(&Bytes::from_static(b"\x05READY")));
    assert!(ZmqCommand::is_framed(&Bytes::from_static(b"\0")));
}

#[test]
fn later_properties_win() {
    let c = read(b"\x05READY\x01a\0\0\0\x01x\x01b\0\0\0\0\x01a\0\0\0\x02yz").unwrap();
    assert_eq!(c.properties.len(), 2);
    assert_eq!(c.properties.get("a"), Some(&b"yz"[..]));
    assert_eq!(c.properties.get("b"), Some(&b""[..]));
    assert_eq!(c.properties.get("c"), None);
    assert_eq!(c.properties.name(0), "a");
    assert_eq!(c.properties.value(0), b"yz");
}

#[test]
fn properties_are_added_and_replaced() {
    let mut more = Properties::new();
    more.insert("Identity".to_string(), Bytes::from_static(b"me"));
    more.insert("Socket-Type".to_string(), Bytes::from_static(b"other"));
    let mut c = ZmqCommand::ready(SocketType::PUB);
    c.add_properties(more).add_prop("Resource".to_string(), Bytes::from_static(b"r"));
    assert_eq!(c.properties.len(), 3);
    assert_eq!(c.properties.get("Socket-Type"), Some(&b"other"[..]));
    assert_eq!(c.properties.get("Identity"), Some(&b"me"[..]));
    assert_eq!(c.properties.get("Resource"), Some(&b"r"[..]));
    let copy = c.clone();
    assert_eq!(copy.properties.get("Identity"), Some(&b"me"[..]));
}

#[test]
fn octets_compare() {
    assert!(same_octets(b"", b""));
    assert!(same_octets(b"abc", b"abc"));
    assert!(!same_octets(b"abc", b"abd"));
    assert!(!same_octets(b"abc", b"ab"));
}

#[test]
fn socket_type_names() {
    assert_eq!(SocketType::XPUB.as_str(), "XPUB");
    assert_eq!(SocketType::STREAM.as_str(), "STREAM");
}

#[test]
fn frames_are_written_where_they_fit() {
    let ping = ZmqCommand::ping(Some(1), None);
    assert!(ping.fits());
    assert_eq!(&ping.try_encode().unwrap()[..], b"\x04\x07\x04PING\0\x01");
    assert!(ZmqCommand::pong(None).fits());
    assert!(ZmqCommand::ready(SocketType::PAIR).fits());
}

#[test]
fn bodies_are_read_where_they_are_framed() {
    assert!(ZmqCommand::decode(Bytes::from_static(b"\x04PIN")).is_none());
    match ZmqCommand::decode(Bytes::from_static(b"\x04PONGab")) {
        Some(Ok(c)) => assert_eq!(c.context, Some(Bytes::from_static(b"ab"))),
        other => panic!("{:?}", other),
    }
    assert!(matches!(
        ZmqCommand::decode(Bytes::from_static(b"\x04NOPE")),
        Some(Err(CodecError::Command(_)))
    ));
}
