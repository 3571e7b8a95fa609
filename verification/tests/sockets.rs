use bytes::Bytes;
use std::time::Duration;
use zeromq::actions::{Action, Actions};
use zeromq::backend::GenericSocketBackend;
use zeromq::command::{ZmqCommand, ZmqCommandName};
use zeromq::error::{CodecError, IoErrorKind, ZmqError};
use zeromq::heartbeat::{HeartbeatAction, HeartbeatConfig, HeartbeatEvent};
use zeromq::message::{Message, ZmqMessage};
use zeromq::publisher::{PubSocket, SubscriptionEvent};
use zeromq::pull::PullSocket;
use zeromq::receive::{QueueEvent, Received, StreamEvent};
use zeromq::reconnect::ReconnectHandle;
use zeromq::rep::{envelope_end, RepSocket};
use zeromq::socket::{SocketEvent, SocketOptions, SocketType};
use zeromq::sub::{SubBackendMsgType, SubSocket, SubSocketBackend};
use zeromq::topics::topic_fits;
use zeromq::xpub::XPubSocket;

fn options(heartbeat: bool) -> SocketOptions {
    SocketOptions {
        heartbeat_enabled: heartbeat,
        heartbeat_config: Some(HeartbeatConfig {
            ping_interval: Duration::from_millis(100),
            timeout: Duration::from_millis(1000),
            ttl: Some(20),
            max_unanswered_pings: 2,
        }),
    }
}

fn message(frames: &[&[u8]]) -> ZmqMessage {
    ZmqMessage { frames: frames.iter().map(|f| Bytes::copy_from_slice(f)).collect() }
}

fn parts(m: &ZmqMessage) -> Vec<Vec<u8>> {
    m.frames.iter().map(|f| f.to_vec()).collect()
}

fn item(peer: u64, frames: &[&[u8]]) -> StreamEvent {
    StreamEvent::Item { peer, message: Message::Message(message(frames)) }
}

fn command(peer: u64, c: ZmqCommand) -> StreamEvent {
    StreamEvent::Item { peer, message: Message::Command(c) }
}

/// One word for each action, for comparison.
fn words(out: &Actions) -> Vec<String> {
    out.list
        .iter()
        .map(|a| match a {
            Action::Send { queue, message } => match message {
                Message::Greeting => format!("greet {}", queue),
                Message::Command(c) => format!("{} {}", c.name.as_str(), queue),
                Message::Message(m) => format!("send {} {:?}", queue, parts(m)),
            },
            Action::CloseSender { queue } => format!("close sender {}", queue),
            Action::OpenStream { peer, stream } => format!("open {} {}", peer, stream),
            Action::CloseStream { stream } => format!("close stream {}", stream),
            Action::StartSubscription { peer, stream, stop } => {
                format!("read {} {} {}", peer, stream, stop)
            }
            Action::StopSubscription { stop } => format!("stop reading {}", stop),
            Action::StartHeartbeat { peer, task } => format!("beat {} {}", peer, task),
            Action::StopHeartbeat { task } => format!("stop beating {}", task),
            Action::StopReconnect { task } => format!("stop reconnecting {}", task),
            Action::Emit { monitor, event } => match event {
                SocketEvent::Connected { endpoint, peer } => {
                    format!("tell {} connected {} {}", monitor, endpoint, peer)
                }
                SocketEvent::Disconnected { peer } => {
                    format!("tell {} disconnected {}", monitor, peer)
                }
            },
            Action::Notify { notifier, peer } => format!("notify {} {}", notifier, peer),
        })
        .collect()
}

fn take(out: &mut Actions) -> Vec<String> {
    let w = words(out);
    out.list.clear();
    w
}

#[test]
fn round_robin_deals_in_turn() {
    let mut b = GenericSocketBackend::with_options(false, SocketType::PUSH, options(false));
    let mut out = Actions::new();
    for peer in [1u64, 2, 3] {
        b.peer_connected(peer, 10 + peer, 20 + peer, 30 + peer, 0, &mut out);
    }
    assert_eq!(take(&mut out), ["close stream 21", "close stream 22", "close stream 23"]);
    let mut order = Vec::new();
    for n in 0u8..6 {
        let d = b.send_round_robin(Message::Message(message(&[&[n]]))).unwrap();
        assert_eq!(d.queue, 10 + d.peer);
        assert!(matches!(&d.message, Message::Message(m) if parts(m) == [[n]]));
        assert_eq!(b.round_robin_sent(d.peer, Ok(()), &mut out).unwrap(), d.peer);
        order.push(d.peer);
    }
    assert_eq!(order, [1, 2, 3, 1, 2, 3]);
    assert!(words(&out).is_empty());
}

#[test]
fn round_robin_passes_over_the_gone() {
    let mut b = GenericSocketBackend::with_options(false, SocketType::PUSH, options(false));
    let mut out = Actions::new();
    for peer in [1u64, 2, 3] {
        b.peer_connected(peer, 10 + peer, 20 + peer, 30 + peer, 0, &mut out);
    }
    take(&mut out);
    b.peer_disconnected(1, &mut out);
    assert_eq!(take(&mut out), ["close sender 11"]);
    let d = b.send_round_robin(Message::Greeting).unwrap();
    assert_eq!(d.peer, 2);
    match b.round_robin_sent(2, Err(CodecError::Io(IoErrorKind::BrokenPipe)), &mut out) {
        Err(ZmqError::Codec(CodecError::Io(IoErrorKind::BrokenPipe))) => {}
        other => panic!("{:?}", other),
    }
    assert_eq!(take(&mut out), ["close sender 12"]);
    assert_eq!(b.send_round_robin(Message::Greeting).unwrap().peer, 3);
}

#[test]
fn round_robin_refuses_without_peers() {
    let mut b = GenericSocketBackend::with_options(false, SocketType::PUSH, options(false));
    let mut out = Actions::new();
    b.peer_connected(1, 11, 21, 31, 0, &mut out);
    b.peer_disconnected(1, &mut out);
    match b.send_round_robin(Message::Message(message(&[b"a", b"b"]))) {
        Err(ZmqError::ReturnToSender { reason, message }) => {
            assert_eq!(reason, "Not connected to peers. Unable to send messages");
            assert_eq!(parts(&message), [b"a", b"b"]);
        }
        other => panic!("{:?}", other),
    }
    match b.send_round_robin(Message::Greeting) {
        Err(ZmqError::Socket(text)) => assert_eq!(text, "Sending greeting is not supported"),
        other => panic!("{:?}", other),
    }
    match b.send_round_robin(Message::Command(ZmqCommand::pong(None))) {
        Err(ZmqError::Socket(text)) => assert_eq!(text, "Sending commands is not supported"),
        other => panic!("{:?}", other),
    }
}

#[test]
fn generic_backend_keeps_peers() {
    let mut b = GenericSocketBackend::with_options(true, SocketType::PULL, options(true));
    assert_eq!(b.socket_type(), SocketType::PULL);
    assert!(b.socket_options().heartbeat_enabled);
    let mut out = Actions::new();
    assert_eq!(b.monitor(99), None);
    assert_eq!(b.monitor(98), Some(99));
    b.register_disconnect_notifier(1, 77);
    b.register_disconnect_notifier(2, 78);
    b.unregister_disconnect_notifier(2);
    b.peer_connected(1, 11, 21, 31, 0, &mut out);
    assert_eq!(take(&mut out), ["beat 1 31", "open 1 21"]);
    // The same key again: what it had is given up.
    b.peer_connected(1, 12, 22, 32, 0, &mut out);
    assert_eq!(
        take(&mut out),
        ["close sender 11", "beat 1 32", "stop beating 31", "close stream 21", "open 1 22"]
    );
    b.peer_disconnected(1, &mut out);
    assert_eq!(
        take(&mut out),
        [
            "tell 98 disconnected 1",
            "close sender 12",
            "stop beating 32",
            "close stream 22",
            "notify 77 1"
        ]
    );
    // A second time only the monitor hears of it.
    b.peer_disconnected(1, &mut out);
    assert_eq!(take(&mut out), ["tell 98 disconnected 1"]);
    b.peer_connected(2, 13, 23, 33, 0, &mut out);
    take(&mut out);
    b.shutdown(&mut out);
    assert_eq!(take(&mut out), ["close sender 13", "close stream 23"]);
    b.shutdown(&mut out);
    assert!(words(&out).is_empty());
}

#[test]
fn the_backend_decides_not_the_socket_type() {
    for socket_type in [SocketType::XPUB, SocketType::REP, SocketType::PUSH] {
        let mut b = GenericSocketBackend::with_options(true, socket_type, options(false));
        let mut out = Actions::new();
        assert_eq!(b.socket_type(), socket_type);
        b.monitor(9);
        b.register_disconnect_notifier(1, 7);
        b.peer_connected(1, 11, 21, 31, 0, &mut out);
        take(&mut out);
        // The default timeout, since PINGs are not sent.
        b.registry.check_timeouts_at(1001, &mut out);
        assert!(words(&out).is_empty());
        b.peer_disconnected(1, &mut out);
        assert_eq!(
            take(&mut out),
            ["tell 9 disconnected 1", "close sender 11", "close stream 21", "notify 7 1"]
        );
        let mut s = SubSocketBackend::with_options(true, socket_type, options(false));
        assert_eq!(s.socket_type(), socket_type);
        s.monitor(9);
        s.register_disconnect_notifier(1, 7);
        s.peer_disconnected(1, &mut out);
        assert_eq!(take(&mut out), ["tell 9 disconnected 1", "notify 7 1"]);
    }
}

#[test]
fn round_robin_goes_round_among_those_there() {
    let mut b = GenericSocketBackend::with_options(false, SocketType::PUSH, options(false));
    let mut out = Actions::new();
    for peer in [1u64, 2, 3, 4] {
        b.peer_connected(peer, 10 + peer, 20 + peer, 30 + peer, 0, &mut out);
    }
    b.peer_disconnected(2, &mut out);
    b.peer_disconnected(4, &mut out);
    let mut order = Vec::new();
    for _ in 0..4 {
        let d = b.send_round_robin(Message::Greeting).unwrap();
        b.round_robin_sent(d.peer, Ok(()), &mut out).unwrap();
        order.push(d.peer);
    }
    assert_eq!(order, [1, 3, 1, 3]);
}

#[test]
fn nothing_to_hand_over_lets_the_dead_go() {
    let mut out = Actions::new();
    let ping = |peer| QueueEvent::Yielded(command(peer, ZmqCommand::ping(None, None)));

    let mut s = PullSocket::with_options(options(true));
    s.backend.peer_connected(1, 11, 21, 31, 0, &mut out);
    s.backend.peer_connected(2, 12, 22, 32, 1000, &mut out);
    take(&mut out);
    let handed = QueueEvent::Yielded(item(2, &[b"a"]));
    assert!(matches!(s.recv_step_at(handed, 1500, 1500, 1500, &mut out), Received::Message(_)));
    assert!(words(&out).is_empty());
    assert!(matches!(s.recv_step_at(ping(2), 1500, 1500, 1500, &mut out), Received::Pending));
    assert_eq!(
        take(&mut out),
        ["PONG 12", "close sender 11", "stop beating 31", "close stream 21"]
    );
    let end = QueueEvent::Ended { peer: 2 };
    assert!(matches!(s.recv_step_at(end, 1500, 1500, 1500, &mut out), Received::Pending));
    assert_eq!(take(&mut out), ["close sender 12", "stop beating 32", "close stream 22"]);

    let mut s = RepSocket::with_options(options(true));
    s.backend.peer_connected(1, 11, 21, 31, 0, &mut out);
    s.backend.peer_connected(2, 12, 22, 32, 1000, &mut out);
    take(&mut out);
    assert!(matches!(s.recv_step_at(ping(2), 1500, 1500, &mut out), Received::Pending));
    assert_eq!(
        take(&mut out),
        ["PONG 12", "close sender 11", "close stream 21", "stop beating 31"]
    );
    let end = QueueEvent::Ended { peer: 2 };
    assert!(matches!(s.recv_step_at(end, 1500, 1500, &mut out), Received::Pending));
    assert_eq!(take(&mut out), ["close sender 12", "close stream 22", "stop beating 32"]);

    let mut s = SubSocket::with_options(options(true));
    let asked = s.backend.subs_requests();
    s.backend.peer_connected(1, 11, 21, &asked, 31, 0, &mut out);
    s.backend.peer_connected(2, 12, 22, &asked, 32, 1000, &mut out);
    take(&mut out);
    assert!(matches!(s.recv_step_at(ping(2), 1500, 1500, &mut out), Received::Pending));
    assert_eq!(
        take(&mut out),
        ["PONG 12", "close sender 11", "stop beating 31", "close stream 21"]
    );
    let end = QueueEvent::Ended { peer: 2 };
    assert!(matches!(s.recv_step_at(end, 1500, 1500, &mut out), Received::Pending));
    assert_eq!(words(&out).len(), 3);
    out.list.clear();

    let mut s = XPubSocket::with_options(options(true));
    s.backend.peer_connected(1, 11, 21, 31, 0, &mut out);
    s.backend.peer_connected(2, 12, 22, 32, 1000, &mut out);
    take(&mut out);
    assert!(matches!(s.recv_step_at(ping(2), 1500, 1500, &mut out), Received::Pending));
    assert_eq!(
        take(&mut out),
        ["PONG 12", "close sender 11", "stop beating 31", "close stream 21"]
    );
    let dry = QueueEvent::Yielded(StreamEvent::Drained);
    assert!(matches!(
        s.recv_step_at(dry, 9000, 9000, &mut out),
        Received::Error(ZmqError::NoMessage)
    ));
    assert!(words(&out).is_empty());
    let end = QueueEvent::Ended { peer: 2 };
    assert!(matches!(s.recv_step_at(end, 1500, 1500, &mut out), Received::Pending));
    assert_eq!(words(&out).len(), 3);
}

#[test]
fn heartbeats_run_through_the_registry() {
    let mut b = GenericSocketBackend::with_options(true, SocketType::PULL, options(true));
    let mut out = Actions::new();
    b.peer_connected(1, 11, 21, 31, 0, &mut out);
    take(&mut out);
    let r = &mut b.registry;
    assert!(matches!(
        r.heartbeat_step_at(1, 31, HeartbeatEvent::CheckDue, 100, 100),
        HeartbeatAction::SendPing { ttl: Some(20), .. }
    ));
    assert!(r.send_ping(1, Some(20), &mut out).is_ok());
    assert_eq!(take(&mut out), ["PING 11"]);
    assert!(matches!(
        r.heartbeat_step_at(1, 31, HeartbeatEvent::PingFinished { sent: true }, 100, 100),
        HeartbeatAction::Wait { .. }
    ));
    // Another task does not run this heartbeat.
    assert!(matches!(
        r.heartbeat_step_at(1, 32, HeartbeatEvent::CheckDue, 100, 100),
        HeartbeatAction::Stop
    ));
    assert!(matches!(
        r.heartbeat_step_at(1, 31, HeartbeatEvent::CheckDue, 1001, 1001),
        HeartbeatAction::ReportTimeout
    ));
    assert!(r.heartbeat_timeout(1, &mut out));
    assert_eq!(take(&mut out), ["close sender 11", "stop beating 31", "close stream 21"]);
    assert!(matches!(
        r.heartbeat_step_at(1, 31, HeartbeatEvent::TimeoutHandled { stop: true }, 1001, 1001),
        HeartbeatAction::Stop
    ));
    // A PING that failed is reported though the peer is gone.
    assert!(matches!(
        r.heartbeat_step_at(1, 31, HeartbeatEvent::PingFinished { sent: false }, 1001, 1001),
        HeartbeatAction::ReportFailure
    ));
    assert_eq!(r.send_ping(1, None, &mut out), Err(IoErrorKind::ConnectionAborted));
    assert!(words(&out).is_empty());
}

#[test]
fn timeouts_take_only_the_dead() {
    let mut s = PullSocket::with_options(options(true));
    let mut out = Actions::new();
    s.backend.peer_connected(1, 11, 21, 31, 0, &mut out);
    s.backend.peer_connected(2, 12, 22, 32, 500, &mut out);
    s.backend.peer_connected(3, 13, 23, 33, 0, &mut out);
    take(&mut out);
    s.backend.registry.check_timeouts_at(1000, &mut out);
    assert!(words(&out).is_empty());
    s.backend.registry.check_timeouts_at(1200, &mut out);
    let mut closed = take(&mut out);
    closed.retain(|w| w.starts_with("close sender"));
    closed.sort();
    assert_eq!(closed, ["close sender 11", "close sender 13"]);
    s.backend.registry.check_timeouts_at(1200, &mut out);
    assert!(words(&out).is_empty());
    assert!(s.backend.registry.peers.send_queue(2).is_some());
    assert!(s.backend.registry.peers.send_queue(1).is_none());
}

#[test]
fn pull_hands_messages_over() {
    let mut s = PullSocket::with_options(options(true));
    let mut out = Actions::new();
    s.backend.peer_connected(1, 11, 21, 31, 0, &mut out);
    take(&mut out);
    match s.recv_at(item(1, &[b"a", b""]), 900, 900, &mut out) {
        Received::Message(m) => assert_eq!(parts(&m), [&b"a"[..], &b""[..]]),
        other => panic!("{:?}", other),
    }
    assert!(words(&out).is_empty());
    // The message counted as activity.
    s.backend.registry.check_timeouts_at(1900, &mut out);
    assert!(words(&out).is_empty());
    // A clock that jumps between the two looks finds the peer dead all the same.
    match s.recv_at(item(1, &[b"b"]), 2000, 9000, &mut out) {
        Received::Message(m) => assert_eq!(parts(&m), [b"b"]),
        other => panic!("{:?}", other),
    }
    assert_eq!(take(&mut out), ["close sender 11", "stop beating 31", "close stream 21"]);
    assert_eq!(s.monitor(5), None);
}

#[test]
fn pull_answers_pings() {
    let mut s = PullSocket::with_options(options(true));
    let mut out = Actions::new();
    s.backend.peer_connected(1, 11, 21, 31, 0, &mut out);
    take(&mut out);
    let ping = ZmqCommand::ping(Some(3), Some(Bytes::from_static(b"xyz")));
    assert!(matches!(s.recv_at(command(1, ping), 10, 10, &mut out), Received::Pending));
    match &out.list[0] {
        Action::Send { queue: 11, message: Message::Command(c) } => {
            assert_eq!(c.name, ZmqCommandName::PONG);
            assert_eq!(c.context.as_ref().unwrap(), &Bytes::from_static(b"xyz"));
        }
        other => panic!("{:?}", other),
    }
    assert_eq!(take(&mut out), ["PONG 11"]);
    // The TTL of the PING shortened the timeout to 300 ms.
    s.backend.registry.check_timeouts_at(310, &mut out);
    assert!(words(&out).is_empty());
    assert!(matches!(
        s.recv_at(command(1, ZmqCommand::pong(None)), 300, 300, &mut out),
        Received::Pending
    ));
    assert!(matches!(
        s.recv_at(command(1, ZmqCommand::ready(SocketType::PUSH)), 310, 310, &mut out),
        Received::Pending
    ));
    assert!(matches!(
        s.recv_at(
            StreamEvent::Item { peer: 1, message: Message::Greeting },
            320,
            9000,
            &mut out
        ),
        Received::Pending
    ));
    assert!(words(&out).is_empty());
    s.backend.registry.check_timeouts_at(621, &mut out);
    assert_eq!(words(&out).len(), 3);
    // An unknown peer is not answered.
    out.list.clear();
    let ping = ZmqCommand::ping(None, None);
    assert!(matches!(s.recv_at(command(8, ping), 0, 0, &mut out), Received::Pending));
    assert!(words(&out).is_empty());
}

#[test]
fn pull_fails_and_drains() {
    let mut s = PullSocket::with_options(options(false));
    let mut out = Actions::new();
    for peer in [1u64, 2, 3] {
        s.backend.peer_connected(peer, 10 + peer, 20 + peer, 0, 0, &mut out);
    }
    take(&mut out);
    let failed = StreamEvent::Failed { peer: 2, error: CodecError::Decode("bad") };
    match s.recv_at(failed, 0, 0, &mut out) {
        Received::Error(ZmqError::Codec(CodecError::Decode(text))) => assert_eq!(text, "bad"),
        other => panic!("{:?}", other),
    }
    assert_eq!(take(&mut out), ["close sender 12", "close stream 22"]);
    assert!(matches!(s.recv_at(StreamEvent::Drained, 0, 0, &mut out), Received::Pending));
    let mut done = take(&mut out);
    done.sort();
    assert_eq!(done, ["close sender 11", "close sender 13", "close stream 21", "close stream 23"]);
    assert!(s.backend.registry.peers.ids().is_empty());
}

#[test]
fn disabled_heartbeats_use_the_default_timeout() {
    let mut s = PullSocket::with_options(options(false));
    let mut out = Actions::new();
    s.backend.peer_connected(1, 11, 21, 31, 0, &mut out);
    assert_eq!(take(&mut out), ["open 1 21"]);
    s.backend.registry.check_timeouts_at(60_000, &mut out);
    assert!(words(&out).is_empty());
    s.backend.registry.check_timeouts_at(60_001, &mut out);
    assert_eq!(take(&mut out), ["close sender 11", "close stream 21"]);
    // A REP socket goes by its options in any case.
    let mut r = RepSocket::with_options(options(false));
    r.backend.peer_connected(1, 11, 21, 31, 0, &mut out);
    assert_eq!(take(&mut out), ["open 1 21"]);
    r.backend.registry.check_timeouts_at(1001, &mut out);
    assert_eq!(take(&mut out), ["close sender 11", "close stream 21"]);
}

#[test]
fn envelopes_end_behind_the_delimiter() {
    assert_eq!(envelope_end(&message(&[b"id", b"", b"body"])), 2);
    assert_eq!(envelope_end(&message(&[b"", b"body", b""])), 1);
    assert_eq!(envelope_end(&message(&[b"a", b"b", b"", b""])), 3);
    assert_eq!(envelope_end(&message(&[b"a", b"b"])), 1);
    assert_eq!(envelope_end(&message(&[b"a"])), 1);
}

#[test]
fn rep_answers_once() {
    let mut s = RepSocket::with_options(options(false));
    let mut out = Actions::new();
    s.backend.peer_connected(1, 11, 21, 31, 0, &mut out);
    take(&mut out);
    match s.send(message(&[b"early"]), &mut out) {
        Err(ZmqError::ReturnToSender { reason, message }) => {
            assert_eq!(reason, "Unable to send reply. No request in progress");
            assert_eq!(parts(&message), [b"early"]);
        }
        other => panic!("{:?}", other),
    }
    match s.recv_at(item(1, &[b"id", b"", b"q1", b"q2"]), 0, &mut out) {
        Received::Message(m) => assert_eq!(parts(&m), [b"q1", b"q2"]),
        other => panic!("{:?}", other),
    }
    assert!(s.send(message(&[b"reply"]), &mut out).is_ok());
    assert_eq!(
        take(&mut out),
        [format!("send 11 {:?}", vec![b"id".to_vec(), b"".to_vec(), b"reply".to_vec()])]
    );
    assert!(s.send(message(&[b"again"]), &mut out).is_err());
    assert!(words(&out).is_empty());
}

#[test]
fn rep_hands_back_for_a_lost_client() {
    let mut s = RepSocket::with_options(options(false));
    let mut out = Actions::new();
    s.backend.peer_connected(1, 11, 21, 31, 0, &mut out);
    match s.recv_at(item(1, &[b"", b"q"]), 0, &mut out) {
        Received::Message(m) => assert_eq!(parts(&m), [b"q"]),
        other => panic!("{:?}", other),
    }
    take(&mut out);
    let failed = StreamEvent::Failed { peer: 1, error: CodecError::Io(IoErrorKind::Other) };
    assert!(matches!(
        s.recv_at(failed, 0, &mut out),
        Received::Error(ZmqError::Codec(CodecError::Io(IoErrorKind::Other)))
    ));
    assert_eq!(take(&mut out), ["close sender 11", "close stream 21"]);
    match s.send(message(&[b"reply"]), &mut out) {
        Err(ZmqError::ReturnToSender { reason, message }) => {
            assert_eq!(reason, "Client disconnected");
            assert_eq!(parts(&message), [b"reply"]);
        }
        other => panic!("{:?}", other),
    }
    match s.send(message(&[b"reply"]), &mut out) {
        Err(ZmqError::ReturnToSender { reason, .. }) => {
            assert_eq!(reason, "Unable to send reply. No request in progress")
        }
        other => panic!("{:?}", other),
    }
    assert!(words(&out).is_empty());
}

#[test]
fn rep_lets_peers_go_stream_first() {
    let mut s = RepSocket::with_options(options(true));
    let mut out = Actions::new();
    assert_eq!(s.backend.socket_type(), SocketType::REP);
    assert!(s.backend.socket_options().heartbeat_enabled);
    s.monitor(9);
    s.backend.register_disconnect_notifier(1, 7);
    s.backend.register_disconnect_notifier(2, 8);
    s.backend.unregister_disconnect_notifier(2);
    s.backend.peer_connected(1, 11, 21, 31, 0, &mut out);
    s.backend.peer_connected(2, 12, 22, 32, 0, &mut out);
    s.connected("tcp://host:1".to_string(), 1, ReconnectHandle { task: 51 }, &mut out);
    s.connected("tcp://host:2".to_string(), 2, ReconnectHandle { task: 52 }, &mut out);
    assert_eq!(
        take(&mut out),
        [
            "beat 1 31",
            "open 1 21",
            "beat 2 32",
            "open 2 22",
            "tell 9 connected tcp://host:1 1",
            "tell 9 connected tcp://host:2 2"
        ]
    );
    s.backend.peer_disconnected(1, &mut out);
    assert_eq!(
        take(&mut out),
        [
            "tell 9 disconnected 1",
            "close sender 11",
            "close stream 21",
            "stop beating 31",
            "notify 7 1"
        ]
    );
    assert!(matches!(s.recv_at(StreamEvent::Drained, 0, &mut out), Received::Pending));
    assert!(words(&out).is_empty());
    s.close(&mut out);
    assert_eq!(
        take(&mut out),
        ["stop reconnecting 51", "stop reconnecting 52", "close sender 12", "close stream 22"]
    );
}

#[test]
fn requests_for_topics() {
    let on = SubSocketBackend::create_subs_message("news", SubBackendMsgType::SUBSCRIBE);
    assert_eq!(parts(&on), [b"\x01news"]);
    let off = SubSocketBackend::create_subs_message("", SubBackendMsgType::UNSUBSCRIBE);
    assert_eq!(parts(&off), [b"\0"]);
    let text = SubSocketBackend::create_subs_message("\u{e9}", SubBackendMsgType::SUBSCRIBE);
    assert_eq!(parts(&text), [b"\x01\xc3\xa9"]);
}

#[test]
fn ordinary_topics_fit() {
    assert!(topic_fits(""));
    assert!(topic_fits("a topic of some length"));
}

#[test]
fn sub_asks_all_peers() {
    let mut s = SubSocket::with_options(options(false));
    let mut out = Actions::new();
    assert_eq!(s.backend.socket_type(), SocketType::SUB);
    assert!(!s.backend.socket_options().heartbeat_enabled);
    let asked = s.backend.subs_requests();
    s.backend.peer_connected(1, 11, 21, &asked, 31, 0, &mut out);
    let asked = s.backend.subs_requests();
    s.backend.peer_connected(2, 12, 22, &asked, 32, 0, &mut out);
    assert_eq!(take(&mut out), ["open 1 21", "open 2 22"]);
    let mut b = s.subscribe("a");
    let mut queues = Vec::new();
    while let Some((queue, m)) = b.next() {
        assert_eq!(parts(&m), [b"\x01a"]);
        queues.push(queue);
        assert!(b.note(Ok(())).is_none());
    }
    queues.sort();
    assert_eq!(queues, [11, 12]);
    let mut b = s.unsubscribe("a");
    let (_, m) = b.next().unwrap();
    assert_eq!(parts(&m), [b"\0a"]);
    match b.note(Err(CodecError::Io(IoErrorKind::TimedOut))) {
        Some(ZmqError::Codec(CodecError::Io(IoErrorKind::TimedOut))) => {}
        other => panic!("{:?}", other),
    }
}

#[test]
fn new_peers_are_asked_for_all_topics() {
    let mut s = SubSocket::with_options(options(false));
    let mut out = Actions::new();
    for topic in ["a", "b", "a", "c"] {
        assert!(s.subscribe(topic).next().is_none());
    }
    s.unsubscribe("b");
    s.unsubscribe("x");
    let mut requests = s.backend.subs_requests();
    let mut sent = Vec::new();
    assert!(!requests.is_complete());
    while let Some(m) = requests.next() {
        sent.push(parts(&m));
        requests.note(Ok(()));
    }
    assert!(requests.is_complete());
    assert_eq!(sent, [[b"\x01a".to_vec()], [b"\x01c".to_vec()]]);
    // After the first failure nothing more is sent, and the peer is dropped.
    let mut requests = s.backend.subs_requests();
    requests.note(Err(CodecError::Io(IoErrorKind::BrokenPipe)));
    assert!(requests.next().is_none());
    assert!(!requests.is_complete());
    s.backend.peer_connected(1, 11, 21, &requests, 31, 0, &mut out);
    assert_eq!(take(&mut out), ["close sender 11", "close stream 21"]);
    assert!(s.backend.generic.registry.peers.ids().is_empty());
    // What it is sent makes a publisher know the topics.
    let mut p = PubSocket::with_options(options(false));
    p.backend.peer_connected(5, 15, 25, 45, 35, 0, &mut out);
    for m in s.backend.subs_requests().messages {
        p.backend.message_received(5, &Message::Message(m));
    }
    assert!(p.send(message(&[b"abc"])).next().is_some());
    assert!(p.send(message(&[b"c"])).next().is_some());
    assert!(p.send(message(&[b"b"])).next().is_none());
}

#[test]
fn sub_receives() {
    let mut s = SubSocket::with_options(options(true));
    let mut out = Actions::new();
    s.monitor(9);
    let asked = s.backend.subs_requests();
    s.backend.peer_connected(1, 11, 21, &asked, 31, 0, &mut out);
    let asked = s.backend.subs_requests();
    s.backend.peer_connected(2, 12, 22, &asked, 32, 0, &mut out);
    s.backend.register_disconnect_notifier(1, 7);
    s.backend.unregister_disconnect_notifier(2);
    s.connected("ipc:///x".to_string(), 1, ReconnectHandle { task: 51 }, &mut out);
    assert_eq!(
        take(&mut out),
        ["beat 1 31", "open 1 21", "beat 2 32", "open 2 22", "tell 9 connected ipc:///x 1"]
    );
    match s.recv_at(item(1, &[b"a"]), 5, &mut out) {
        Received::Message(m) => assert_eq!(parts(&m), [b"a"]),
        other => panic!("{:?}", other),
    }
    assert!(matches!(
        s.recv_at(command(1, ZmqCommand::ping(None, None)), 5, &mut out),
        Received::Pending
    ));
    assert_eq!(take(&mut out), ["PONG 11"]);
    let failed = StreamEvent::Failed { peer: 1, error: CodecError::Command("no") };
    assert!(matches!(
        s.recv_at(failed, 5, &mut out),
        Received::Error(ZmqError::Codec(CodecError::Command("no")))
    ));
    assert_eq!(
        take(&mut out),
        [
            "tell 9 disconnected 1",
            "close sender 11",
            "stop beating 31",
            "close stream 21",
            "notify 7 1"
        ]
    );
    assert!(matches!(s.recv_at(StreamEvent::Drained, 5, &mut out), Received::Pending));
    assert_eq!(
        take(&mut out),
        ["tell 9 disconnected 2", "close sender 12", "stop beating 32", "close stream 22"]
    );
    s.close(&mut out);
    assert_eq!(take(&mut out), ["stop reconnecting 51"]);
}

fn publisher(topics: &[(u64, &[u8])]) -> PubSocket {
    let mut p = PubSocket::with_options(options(true));
    let mut out = Actions::new();
    for (peer, topic) in topics {
        p.backend.peer_connected(*peer, 10 + peer, 20 + peer, 40 + peer, 30 + peer, 0, &mut out);
        let mut request = vec![1u8];
        request.extend_from_slice(topic);
        p.backend.message_received(*peer, &Message::Message(message(&[&request])));
    }
    p
}

#[test]
fn publications_reach_whoever_asked() {
    let mut p = publisher(&[(1, b""), (2, b"ab"), (3, b"abcd"), (4, b"x")]);
    p.backend.message_received(2, &Message::Message(message(&[b"\x01a"])));
    let mut publication = p.send(message(&[b"abc", b"body"]));
    let mut queues = Vec::new();
    while let Some((queue, m)) = publication.next() {
        assert_eq!(parts(&m), [b"abc".to_vec(), b"body".to_vec()]);
        queues.push(queue);
        assert!(publication.note(Ok(())).is_none());
    }
    queues.sort();
    assert_eq!(queues, [11, 12]);
    let mut out = Actions::new();
    assert!(p.sent(publication, None, &mut out).is_ok());
    assert!(words(&out).is_empty());
    // No frame, no subscriber.
    assert!(p.send(message(&[])).next().is_none());
}

#[test]
fn unsubscribing_takes_the_first_match() {
    let mut p = publisher(&[(1, b"a")]);
    for request in [&b"\x01a"[..], b"\x01b"] {
        p.backend.message_received(1, &Message::Message(message(&[request])));
    }
    p.backend.message_received(1, &Message::Message(message(&[b"\0a"])));
    assert!(p.send(message(&[b"a"])).next().is_some());
    p.backend.message_received(1, &Message::Message(message(&[b"\0a"])));
    assert!(p.send(message(&[b"a"])).next().is_none());
    assert!(p.send(message(&[b"b"])).next().is_some());
    p.backend.message_received(1, &Message::Message(message(&[b"\0zz"])));
    assert!(p.send(message(&[b"b"])).next().is_some());
}

#[test]
fn other_messages_change_no_subscription() {
    let mut p = publisher(&[(1, b"a")]);
    for frames in [&[][..], &[&b""[..]], &[&b"\x02b"[..]], &[&b"\x01b"[..], b"x"]] {
        p.backend.message_received(1, &Message::Message(message(frames)));
    }
    p.backend.message_received(1, &Message::Greeting);
    p.backend.message_received(7, &Message::Message(message(&[b"\x01b"])));
    assert!(p.send(message(&[b"b"])).next().is_none());
    assert!(p.send(message(&[b"a"])).next().is_some());
}

#[test]
fn broken_pipes_let_peers_go() {
    let mut p = publisher(&[(1, b""), (2, b""), (3, b"")]);
    let mut out = Actions::new();
    let mut publication = p.send(message(&[b"x"]));
    while let Some((queue, _)) = publication.next() {
        let outcome = match queue {
            11 => Err(ZmqError::Codec(CodecError::Io(IoErrorKind::BrokenPipe))),
            12 => Err(ZmqError::BufferFull("full")),
            _ => Err(ZmqError::Codec(CodecError::Io(IoErrorKind::Other))),
        };
        assert!(publication.note(outcome).is_none());
    }
    assert!(p.sent(publication, None, &mut out).is_ok());
    assert_eq!(take(&mut out), ["close sender 11", "stop reading 41", "stop beating 31"]);
}

#[test]
fn other_errors_end_a_publication() {
    let mut p = publisher(&[(1, b""), (2, b"")]);
    let mut out = Actions::new();
    let mut publication = p.send(message(&[b"x"]));
    let broken = Err(ZmqError::Codec(CodecError::Io(IoErrorKind::BrokenPipe)));
    assert!(publication.note(broken).is_none());
    let failure = publication.note(Err(ZmqError::Codec(CodecError::Decode("odd"))));
    assert!(matches!(&failure, Some(ZmqError::Codec(CodecError::Decode("odd")))));
    assert!(matches!(
        p.sent(publication, failure, &mut out),
        Err(ZmqError::Codec(CodecError::Decode("odd")))
    ));
    assert!(words(&out).is_empty());
    let mut publication = p.send(message(&[b"x"]));
    assert!(matches!(
        publication.note(Err(ZmqError::NoMessage)),
        Some(ZmqError::NoMessage)
    ));
}

#[test]
fn pub_reads_subscriptions() {
    let mut p = PubSocket::with_options(options(true));
    let mut out = Actions::new();
    assert_eq!(p.backend.socket_type(), SocketType::PUB);
    assert!(p.backend.socket_options().heartbeat_enabled);
    p.monitor(9);
    p.backend.register_disconnect_notifier(1, 7);
    p.backend.unregister_disconnect_notifier(2);
    p.backend.peer_connected(1, 11, 21, 41, 31, 0, &mut out);
    assert_eq!(take(&mut out), ["beat 1 31", "read 1 21 41"]);
    let b = &mut p.backend;
    let request = SubscriptionEvent::Received(Message::Message(message(&[b"\x01t"])));
    assert!(b.subscription_step_at(1, 41, request, 900, 900, &mut out));
    let ping = ZmqCommand::ping(Some(2), Some(Bytes::from_static(b"c")));
    let ping = SubscriptionEvent::Received(Message::Command(ping));
    // After a PING nobody looks at the clock again.
    assert!(b.subscription_step_at(1, 41, ping, 900, 9000, &mut out));
    assert_eq!(take(&mut out), ["PONG 11"]);
    let pong = SubscriptionEvent::Received(Message::Command(ZmqCommand::pong(None)));
    assert!(b.subscription_step_at(1, 41, pong, 900, 9000, &mut out));
    let ready = SubscriptionEvent::Received(Message::Command(ZmqCommand::ready(SocketType::SUB)));
    assert!(b.subscription_step_at(1, 41, ready, 950, 1150, &mut out));
    // A task that reads for nobody stops.
    assert!(!b.subscription_step_at(1, 42, SubscriptionEvent::Lost, 0, 0, &mut out));
    assert!(!b.subscription_step_at(8, 41, SubscriptionEvent::Lost, 0, 0, &mut out));
    assert!(!b.subscription_step_at(1, 41, SubscriptionEvent::Stopped, 0, 0, &mut out));
    assert!(words(&out).is_empty());
    let late = SubscriptionEvent::Received(Message::Greeting);
    assert!(!b.subscription_step_at(1, 41, late, 1000, 1201, &mut out));
    assert_eq!(
        take(&mut out),
        [
            "tell 9 disconnected 1",
            "close sender 11",
            "stop reading 41",
            "stop beating 31",
            "notify 7 1"
        ]
    );
}

#[test]
fn pub_loses_peers() {
    for event in [SubscriptionEvent::Lost, SubscriptionEvent::PongFailed] {
        let mut p = publisher(&[(1, b"")]);
        let mut out = Actions::new();
        assert!(!p.backend.subscription_step_at(1, 41, event, 0, 0, &mut out));
        assert_eq!(take(&mut out), ["close sender 11", "stop reading 41", "stop beating 31"]);
        assert!(p.send(message(&[b"x"])).next().is_none());
    }
}

#[test]
fn pub_closes() {
    let mut p = publisher(&[(1, b"")]);
    let mut out = Actions::new();
    p.connected("tcp://h:1".to_string(), 1, ReconnectHandle { task: 51 }, &mut out);
    assert!(words(&out).is_empty());
    p.close(&mut out);
    assert_eq!(take(&mut out), ["stop reconnecting 51", "close sender 11", "stop reading 41"]);
    p.close(&mut out);
    assert!(words(&out).is_empty());
}

#[test]
fn xpub_takes_note_and_hands_over() {
    let mut s = XPubSocket::with_options(options(true));
    let mut out = Actions::new();
    assert_eq!(s.backend.socket_type(), SocketType::XPUB);
    assert!(s.backend.socket_options().heartbeat_enabled);
    s.monitor(9);
    s.backend.peer_connected(1, 11, 21, 31, 0, &mut out);
    assert_eq!(take(&mut out), ["beat 1 31", "open 1 21"]);
    match s.recv_at(item(1, &[b"\x01t"]), 5, &mut out) {
        Received::Message(m) => assert_eq!(parts(&m), [b"\x01t"]),
        other => panic!("{:?}", other),
    }
    let mut publication = s.send(message(&[b"topic"]));
    assert_eq!(publication.next().unwrap().0, 11);
    let broken = Err(ZmqError::Codec(CodecError::Io(IoErrorKind::BrokenPipe)));
    assert!(publication.note(broken).is_none());
    assert!(s.sent(publication, None, &mut out).is_ok());
    // Nobody is told.
    assert_eq!(take(&mut out), ["close sender 11", "stop beating 31", "close stream 21"]);
}

#[test]
fn xpub_runs_dry() {
    let mut s = XPubSocket::with_options(options(false));
    let mut out = Actions::new();
    assert!(matches!(
        s.recv_at(StreamEvent::Drained, 5, &mut out),
        Received::Error(ZmqError::NoMessage)
    ));
    s.backend.peer_connected(1, 11, 21, 31, 0, &mut out);
    s.backend.peer_connected(2, 12, 22, 32, 0, &mut out);
    take(&mut out);
    assert!(matches!(
        s.recv_at(command(1, ZmqCommand::ping(None, None)), 5, &mut out),
        Received::Pending
    ));
    assert_eq!(take(&mut out), ["PONG 11"]);
    let failed = StreamEvent::Failed { peer: 1, error: CodecError::Decode("bad") };
    assert!(matches!(
        s.recv_at(failed, 5, &mut out),
        Received::Error(ZmqError::Codec(CodecError::Decode("bad")))
    ));
    assert_eq!(take(&mut out), ["close sender 11", "close stream 21"]);
    s.backend.peer_disconnected(1, &mut out);
    assert!(words(&out).is_empty());
    s.close(&mut out);
    assert_eq!(take(&mut out), ["close sender 12"]);
}

#[test]
fn messages_split_and_join() {
    let mut m = message(&[b"a", b"b", b"c"]);
    let tail = m.split_off(1);
    assert_eq!(parts(&m), [b"a"]);
    assert_eq!(parts(&tail), [b"b", b"c"]);
    m.prepend(&tail);
    assert_eq!(parts(&m), [b"b", b"c", b"a"]);
    assert_eq!(m.len(), 3);
    assert_eq!(m.get(0), Some(&b"b"[..]));
    assert_eq!(m.get(3), None);
    assert_eq!(parts(&ZmqMessage::from_frame(Bytes::from_static(b"z")).clone()), [b"z"]);
}
