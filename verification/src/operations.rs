//! What calls on values amount to, stated of what goes in and what comes out.
//!
//! Each statement is about every call of a function: `args` are its arguments, `final` what
//! it leaves behind. They are proved from the functions' contracts alone.
use crate::clock;
use crate::command;
use crate::command::{ZmqCommand, ZmqCommandName};
use crate::error::CodecError;
use crate::heartbeat;
use crate::heartbeat::{
    ActivityTracker, HeartbeatAction, HeartbeatConfig, HeartbeatEvent, HeartbeatHandle,
};
use crate::heartbeats;
use crate::heartbeats::{Heartbeat, Heartbeats};
use crate::message::ZmqMessage;
use crate::octets;
use crate::properties;
use crate::properties::Properties;
use crate::round_robin::RoundRobin;
use crate::socket::SocketType;
use crate::sub::SubBackendMsgType;
use crate::topics;
use crate::topics::Topics;
use crate::wire;
use bytes::{Bytes, BytesMut};
use std::time::{Duration, SystemTimeError};
use vstd::prelude::*;
use vstd::utf8;

verus! {

/// A PING is due exactly when fewer are unanswered than may be, and the interval has passed
/// since the last activity and since the last PING, if there was one.
pub proof fn should_send_ping_at(t: ActivityTracker, now: u64, due: bool)
    requires
        call_ensures(ActivityTracker::should_send_ping_at, (&t, now), due),
    ensures
        ({
            let silent = if now >= t.last_activity_ms {
                (now - t.last_activity_ms) * 1_000_000
            } else {
                0
            };
            let waited = if now >= t.last_ping_ms {
                (now - t.last_ping_ms) * 1_000_000
            } else {
                0
            };
            due <==> {
                &&& t.unanswered_pings < t.config.max_unanswered_pings
                &&& silent >= clock::nanos(t.config.ping_interval)
                &&& t.last_ping_ms == 0 || waited >= clock::nanos(t.config.ping_interval)
            }
        }),
{
}

/// A peer is dead exactly when it was silent for longer than our timeout, or than its own
/// where it gave one, or when more PINGs are unanswered than may be.
pub proof fn is_dead_at(t: ActivityTracker, now: u64, dead: bool)
    requires
        call_ensures(ActivityTracker::is_dead_at, (&t, now), dead),
    ensures
        dead <==> {
            ||| now >= t.last_activity_ms && (now - t.last_activity_ms) * 1_000_000 > clock::nanos(
                t.config.timeout,
            )
            ||| now >= t.last_activity_ms && t.peer_timeout_ms > 0 && now - t.last_activity_ms
                > t.peer_timeout_ms
            ||| t.unanswered_pings > t.config.max_unanswered_pings
        },
{
}

/// The timeout is ours, or the peer's where it gave one that is shorter.
pub proof fn active_timeout(t: ActivityTracker, d: Duration)
    requires
        call_ensures(ActivityTracker::active_timeout, (&t,), d),
    ensures
        clock::nanos(d) <= clock::nanos(t.config.timeout),
        t.peer_timeout_ms > 0 ==> clock::nanos(d) <= t.peer_timeout_ms * 1_000_000,
        clock::nanos(d) == clock::nanos(t.config.timeout) || (t.peer_timeout_ms > 0 && clock::nanos(
            d,
        ) == t.peer_timeout_ms * 1_000_000),
{
}

/// The time left is what the timeout has more than the silence, and there is none for the
/// dead.
pub proof fn time_until_timeout_at(
    t: ActivityTracker,
    now: u64,
    left: Option<Duration>,
    dead: bool,
    timeout: Duration,
)
    requires
        call_ensures(ActivityTracker::time_until_timeout_at, (&t, now), left),
        call_ensures(ActivityTracker::is_dead_at, (&t, now), dead),
        call_ensures(ActivityTracker::active_timeout, (&t,), timeout),
    ensures
        left is None <==> dead,
        left matches Some(d) ==> clock::nanos(d) + (if now >= t.last_activity_ms {
            (now - t.last_activity_ms) * 1_000_000
        } else {
            0
        }) == clock::nanos(timeout),
{
}

/// A new tracker counts from the time at which it was made, with nothing sent and nothing
/// asked for by the peer.
pub proof fn new_at(config: HeartbeatConfig, now: u64, t: ActivityTracker)
    requires
        call_ensures(ActivityTracker::new_at, (config, now), t),
    ensures
        t.config == config,
        t.last_activity_ms == now,
        t.peer_timeout_ms == 0,
        t.unanswered_pings == 0,
        t.last_ping_ms == 0,
{
}

/// Activity is remembered, and nothing else changes.
pub proof fn record_activity_at(args: (&mut ActivityTracker, u64))
    requires
        call_ensures(ActivityTracker::record_activity_at, args, ()),
    ensures
        final(args.0).last_activity_ms == args.1,
        final(args.0).config == old(args.0).config,
        final(args.0).peer_timeout_ms == old(args.0).peer_timeout_ms,
        final(args.0).unanswered_pings == old(args.0).unanswered_pings,
        final(args.0).last_ping_ms == old(args.0).last_ping_ms,
{
}

/// A PING that went out is remembered and counted, and nothing else changes.
pub proof fn sent_ping_at(args: (&mut ActivityTracker, u64))
    requires
        call_ensures(ActivityTracker::sent_ping_at, args, ()),
    ensures
        final(args.0).last_ping_ms == args.1,
        old(args.0).unanswered_pings < u32::MAX
            ==> final(args.0).unanswered_pings == old(args.0).unanswered_pings + 1,
        old(args.0).unanswered_pings == u32::MAX ==> final(args.0).unanswered_pings == 0,
        final(args.0).config == old(args.0).config,
        final(args.0).peer_timeout_ms == old(args.0).peer_timeout_ms,
        final(args.0).last_activity_ms == old(args.0).last_activity_ms,
{
}

/// A PING that came in is activity, and its TTL, if it is more than zero, is the peer's
/// timeout in tenths of a second.
pub proof fn received_ping_at(args: (&mut ActivityTracker, Option<u16>, u64))
    requires
        call_ensures(ActivityTracker::received_ping_at, args, ()),
    ensures
        final(args.0).last_activity_ms == args.2,
        args.1 is None || args.1 == Some(0u16)
            ==> final(args.0).peer_timeout_ms == old(args.0).peer_timeout_ms,
        args.1 matches Some(ttl) ==> (ttl > 0 ==> final(args.0).peer_timeout_ms == ttl * 100),
        final(args.0).config == old(args.0).config,
        final(args.0).unanswered_pings == old(args.0).unanswered_pings,
        final(args.0).last_ping_ms == old(args.0).last_ping_ms,
{
}

/// A PONG is activity, and answers one PING if one is unanswered.
pub proof fn received_pong_at(args: (&mut ActivityTracker, u64))
    requires
        call_ensures(ActivityTracker::received_pong_at, args, ()),
    ensures
        final(args.0).last_activity_ms == args.1,
        old(args.0).unanswered_pings == 0 ==> final(args.0).unanswered_pings == 0,
        old(args.0).unanswered_pings > 0
            ==> final(args.0).unanswered_pings == old(args.0).unanswered_pings - 1,
        final(args.0).config == old(args.0).config,
        final(args.0).peer_timeout_ms == old(args.0).peer_timeout_ms,
        final(args.0).last_ping_ms == old(args.0).last_ping_ms,
{
}

/// A heartbeat task that wakes reports a dead peer; otherwise it sends a PING that is due, or
/// waits for half a second. A PING has the interval to go out and carries the TTL of the
/// configuration, and is counted when it went out; one that failed is reported. The task
/// stops when it is shut down or a report is answered by stopping.
pub proof fn heartbeat_step_at(
    args: (HeartbeatEvent, &mut ActivityTracker, u64, u64),
    action: HeartbeatAction,
)
    requires
        call_ensures(heartbeat::heartbeat_step_at, args, action),
    ensures
        ({
            let was = *old(args.1);
            let is = *final(args.1);
            &&& args.0 is Shutdown ==> action is Stop
            &&& args.0 is CheckDue ==> {
                &&& action is ReportTimeout <==> was.dead_at(args.2)
                &&& action is SendPing <==> !was.dead_at(args.2) && was.ping_due_at(args.3)
                &&& action is ReportTimeout || action is SendPing || action is Wait
            }
            &&& args.0 == (HeartbeatEvent::TimeoutHandled { stop: true }) || args.0 == (
            HeartbeatEvent::FailureHandled { stop: true }) ==> action is Stop
            &&& args.0 == (HeartbeatEvent::TimeoutHandled { stop: false }) ==> (action is SendPing
                <==> was.ping_due_at(args.2)) && (action is SendPing || action is Wait)
            &&& args.0 == (HeartbeatEvent::FailureHandled { stop: false }) ==> action is Wait
            &&& args.0 == (HeartbeatEvent::PingFinished { sent: false }) ==> action
                is ReportFailure
            &&& args.0 == (HeartbeatEvent::PingFinished { sent: true }) ==> action is Wait
                && is.last_ping_ms == args.2 && is.last_activity_ms == was.last_activity_ms
                && is.peer_timeout_ms == was.peer_timeout_ms && is.config == was.config && (
            was.unanswered_pings < u32::MAX
                ==> is.unanswered_pings == was.unanswered_pings + 1) && (
            was.unanswered_pings == u32::MAX ==> is.unanswered_pings == 0)
            &&& args.0 != (HeartbeatEvent::PingFinished { sent: true }) ==> is == was
            &&& action matches HeartbeatAction::Wait { interval } ==> clock::nanos(interval)
                == 500_000_000
            &&& action matches HeartbeatAction::SendPing { timeout, ttl } ==> timeout
                == was.config.ping_interval && ttl == was.config.ttl
        }),
{
}

/// A command that is encoded is a frame from which a reader gets the body back: behind the
/// flag 4 one octet gives its length, or behind the flag 6 eight octets do.
pub proof fn encode(c: ZmqCommand, bytes: BytesMut, more: Seq<u8>)
    requires
        call_ensures(ZmqCommand::encode, (c,), bytes),
        wire::frame_octets(c).len() <= octets::buffer_limit(),
    ensures
        ({
            let s = octets::of_mut(bytes) + more;
            let body = wire::body_octets(c);
            if body.len() < 256 {
                let n = s[1] as int;
                s[0] == 4 && n == body.len() && s.subrange(2, 2 + n) == body && s.skip(2 + n)
                    == more
            } else {
                let n = octets::be_value(s.subrange(1, 9)) as int;
                s[0] == 6 && n == body.len() && s.subrange(9, 9 + n) == body && s.skip(9 + n)
                    == more
            }
        }),
{
    wire::reader_finds_the_body(c, more);
    wire::header_gives_the_length(wire::body_octets(c).len());
    let s = octets::of_mut(bytes) + more;
    if wire::body_octets(c).len() >= 256 {
        assert(s.subrange(1, 9) =~= wire::frame_header(wire::body_octets(c).len()).skip(1));
    }
}

/// A PING that is encoded has its TTL and its context behind its name.
pub proof fn encode_ping(c: ZmqCommand, bytes: BytesMut)
    requires
        call_ensures(ZmqCommand::encode, (c,), bytes),
        c.name == ZmqCommandName::PING,
        c@.context matches Some(context) ==> context.len() <= 16,
    ensures
        ({
            let s = octets::of_mut(bytes);
            let ttl = match c.ttl {
                Some(ttl) => ttl as int,
                None => 0,
            };
            let context = match c@.context {
                Some(context) => context,
                None => Seq::empty(),
            };
            &&& s.take(7) == seq![4u8, (7 + context.len()) as u8, 4, 80, 73, 78, 71]
            &&& s[7] == ttl / 256
            &&& s[8] == ttl % 256
            &&& s.skip(9) == context
        }),
{
    let s = octets::of_mut(bytes);
    let body = wire::body_octets(c);
    wire::ping_body_layout(c);
    let context = match c@.context {
        Some(context) => context,
        None => Seq::empty(),
    };
    wire::names_are_spelled();
    reveal_with_fuel(octets::be_octets, 3);
    assert(body.len() == 7 + context.len());
    wire::header_gives_the_length(body.len());
    assert forall|i: int| 0 <= i < 5 implies s[2 + i] == body.take(5)[i] by {}
    assert(s.take(7) =~= seq![4u8, (7 + context.len()) as u8, 4, 80, 73, 78, 71]);
    assert(s.skip(9) =~= body.skip(7));
}

/// A PONG that is encoded has its context behind its name.
pub proof fn encode_pong(c: ZmqCommand, bytes: BytesMut)
    requires
        call_ensures(ZmqCommand::encode, (c,), bytes),
        c.name == ZmqCommandName::PONG,
        c@.context matches Some(context) ==> context.len() <= 16,
    ensures
        ({
            let s = octets::of_mut(bytes);
            let context = match c@.context {
                Some(context) => context,
                None => Seq::empty(),
            };
            &&& s.take(7) == seq![4u8, (5 + context.len()) as u8, 4, 80, 79, 78, 71]
            &&& s.skip(7) == context
        }),
{
    let s = octets::of_mut(bytes);
    let body = wire::body_octets(c);
    let context = match c@.context {
        Some(context) => context,
        None => Seq::empty(),
    };
    wire::pong_body_layout(c);
    wire::names_are_spelled();
    reveal_with_fuel(octets::be_octets, 2);
    assert(body.len() == 5 + context.len());
    wire::header_gives_the_length(body.len());
    assert forall|i: int| 0 <= i < 5 implies s[2 + i] == body.take(5)[i] by {}
    assert(s.take(7) =~= seq![4u8, (5 + context.len()) as u8, 4, 80, 79, 78, 71]);
    assert(s.skip(7) =~= body.skip(5));
}

/// Whoever encodes a command with room to spare gets what `encode` gives.
pub proof fn try_encode(c: ZmqCommand, tried: Option<BytesMut>, bytes: BytesMut)
    requires
        call_ensures(ZmqCommand::try_encode, (c,), tried),
        call_ensures(ZmqCommand::encode, (c,), bytes),
        octets::of_mut(bytes).len() <= octets::buffer_limit(),
    ensures
        tried matches Some(b) && octets::of_mut(b) == octets::of_mut(bytes),
{
}

/// A body that names PING is a PING if it has a TTL and at most sixteen octets of context.
pub proof fn decode_ping(buf: Bytes, rest: Seq<u8>, r: Option<Result<ZmqCommand, CodecError>>)
    requires
        call_ensures(ZmqCommand::decode, (buf,), r),
        octets::of(buf) == seq![4u8, 80, 73, 78, 71] + rest,
    ensures
        2 <= rest.len() <= 18 <==> r matches Some(Ok(_)),
        r matches Some(Ok(c)) ==> {
            &&& c.name == ZmqCommandName::PING
            &&& c.ttl == Some((rest[0] * 256 + rest[1]) as u16)
            &&& rest.len() == 2 ==> c.context is None
            &&& rest.len() > 2 ==> c.context is Some && octets::of(c.context->0) == rest.skip(2)
        },
        rest.len() < 2 ==> r == Some(
            Err::<ZmqCommand, CodecError>(
                CodecError::Decode("PING command requires at least 2 bytes for TTL"),
            ),
        ),
        rest.len() > 18 ==> r == Some(
            Err::<ZmqCommand, CodecError>(CodecError::Decode("PING context exceeds 16 bytes")),
        ),
{
    wire::pings_are_read(rest);
}

/// A body that names PONG is a PONG if it has at most sixteen octets of context.
pub proof fn decode_pong(buf: Bytes, rest: Seq<u8>, r: Option<Result<ZmqCommand, CodecError>>)
    requires
        call_ensures(ZmqCommand::decode, (buf,), r),
        octets::of(buf) == seq![4u8, 80, 79, 78, 71] + rest,
    ensures
        rest.len() <= 16 <==> r matches Some(Ok(_)),
        r matches Some(Ok(c)) ==> {
            &&& c.name == ZmqCommandName::PONG
            &&& c.ttl is None
            &&& rest.len() == 0 ==> c.context is None
            &&& rest.len() > 0 ==> c.context is Some && octets::of(c.context->0) == rest
        },
        rest.len() > 16 ==> r == Some(
            Err::<ZmqCommand, CodecError>(CodecError::Decode("PONG context exceeds 16 bytes")),
        ),
{
    wire::pongs_are_read(rest);
}

/// A body that names neither READY nor PING nor PONG is no command.
pub proof fn decode_other(
    buf: Bytes,
    name: Seq<u8>,
    more: Seq<u8>,
    r: Option<Result<ZmqCommand, CodecError>>,
)
    requires
        call_ensures(ZmqCommand::decode, (buf,), r),
        name.len() < 256,
        name != seq![82u8, 69, 65, 68, 89],
        name != seq![80u8, 73, 78, 71],
        name != seq![80u8, 79, 78, 71],
        octets::of(buf) == seq![name.len() as u8] + name + more,
    ensures
        r == Some(
            Err::<ZmqCommand, CodecError>(CodecError::Command("Unknown command received")),
        ),
{
    wire::other_names_are_refused(name, more);
}

/// A body too short for the name that it announces is not decoded.
pub proof fn decode_short(buf: Bytes, r: Option<Result<ZmqCommand, CodecError>>)
    requires
        call_ensures(ZmqCommand::decode, (buf,), r),
        octets::of(buf).len() == 0 || octets::of(buf)[0] >= octets::of(buf).len(),
    ensures
        r is None,
{
}

/// What is encoded is decoded to the same: the body behind the header gives the command
/// back.
pub proof fn encode_then_decode(
    c: ZmqCommand,
    bytes: BytesMut,
    buf: Bytes,
    r: Option<Result<ZmqCommand, CodecError>>,
)
    requires
        wire::carries_its_kind(c),
        call_ensures(ZmqCommand::encode, (c,), bytes),
        call_ensures(ZmqCommand::decode, (buf,), r),
        octets::of_mut(bytes).len() <= octets::buffer_limit(),
        octets::of(buf) == octets::of_mut(bytes).skip(
            if octets::of_mut(bytes)[0] == 4 {
                2
            } else {
                9
            },
        ),
    ensures
        r matches Some(Ok(d)) && d@ == c@,
{
    wire::frame_reads_back(c);
    wire::header_gives_the_length(wire::body_octets(c).len());
    assert(octets::of(buf) =~= wire::body_octets(c));
}

/// A PING and a PONG carry what they are given and no property.
pub proof fn pings_and_pongs(
    ttl: Option<u16>,
    context: Option<Bytes>,
    ping: ZmqCommand,
    pong: ZmqCommand,
)
    requires
        call_ensures(ZmqCommand::ping, (ttl, context), ping),
        call_ensures(ZmqCommand::pong, (context,), pong),
    ensures
        ping.name == ZmqCommandName::PING,
        ping.ttl == ttl,
        ping@.context == command::context_view(context),
        ping.properties@ == Map::<Seq<char>, Seq<u8>>::empty(),
        pong.name == ZmqCommandName::PONG,
        pong.ttl is None,
        pong@.context == command::context_view(context),
        pong.properties@ == Map::<Seq<char>, Seq<u8>>::empty(),
{
}

/// A READY names the kind of the socket and carries nothing else.
pub proof fn ready(socket: SocketType, c: ZmqCommand, kind: &str, name: &str, value: Option<&[u8]>)
    requires
        call_ensures(ZmqCommand::ready, (socket,), c),
        call_ensures(SocketType::as_str, (&socket,), kind),
        call_ensures(Properties::get, (&c.properties, name), value),
    ensures
        c.name == ZmqCommandName::READY,
        c.ttl is None,
        c.context is None,
        value is Some <==> name@ == "Socket-Type"@,
        value matches Some(v) ==> v@ == utf8::encode_utf8(kind@),
{
    if value is Some && name@ != "Socket-Type"@ {
        assert(Map::<Seq<char>, Seq<u8>>::empty().contains_key(name@));
    }
}

/// A property that is added is found under its name, the others as before, and nothing
/// else of the command changes.
pub proof fn add_prop(
    args: (&mut ZmqCommand, String, Bytes),
    given: (&mut ZmqCommand,),
    name: &str,
    before: Option<&[u8]>,
    after: Option<&[u8]>,
)
    requires
        call_ensures(ZmqCommand::add_prop, args, given.0),
        call_ensures(Properties::get, (&old(args.0).properties, name), before),
        call_ensures(Properties::get, (&old(given.0).properties, name), after),
    ensures
        old(given.0).name == old(args.0).name,
        old(given.0).ttl == old(args.0).ttl,
        old(given.0)@.context == old(args.0)@.context,
        *final(args.0) == *final(given.0),
        name@ == args.1@ ==> after is Some && after->0@ == octets::of(args.2),
        name@ != args.1@ ==> (after is Some <==> before is Some),
        name@ != args.1@ && before is Some ==> after->0@ == before->0@,
{
}

/// Properties that are added are found under their names, the others as before, and nothing
/// else of the command changes.
pub proof fn add_properties(
    args: (&mut ZmqCommand, Properties),
    given: (&mut ZmqCommand,),
    name: &str,
    before: Option<&[u8]>,
    added: Option<&[u8]>,
    after: Option<&[u8]>,
)
    requires
        call_ensures(ZmqCommand::add_properties, args, given.0),
        call_ensures(Properties::get, (&old(args.0).properties, name), before),
        call_ensures(Properties::get, (&args.1, name), added),
        call_ensures(Properties::get, (&old(given.0).properties, name), after),
    ensures
        old(given.0).name == old(args.0).name,
        old(given.0).ttl == old(args.0).ttl,
        old(given.0)@.context == old(args.0)@.context,
        *final(args.0) == *final(given.0),
        after is Some <==> before is Some || added is Some,
        added is Some ==> after->0@ == added->0@,
        added is None && before is Some ==> after->0@ == before->0@,
{
}

/// A property that is given is found under its name, and the others as before.
pub proof fn properties_insert(
    args: (&mut Properties, String, Bytes),
    name: &str,
    before: Option<&[u8]>,
    after: Option<&[u8]>,
)
    requires
        call_ensures(Properties::insert, args, ()),
        call_ensures(Properties::get, (old(args.0), name), before),
        call_ensures(Properties::get, (final(args.0), name), after),
    ensures
        name@ == args.1@ ==> after is Some && after->0@ == octets::of(args.2),
        name@ != args.1@ ==> (after is Some <==> before is Some),
        name@ != args.1@ && before is Some ==> after->0@ == before->0@,
{
}

/// What stands at a place is found under its name.
pub proof fn properties_by_place(
    p: Properties,
    n: usize,
    index: usize,
    name: &str,
    value: &[u8],
    found: Option<&[u8]>,
)
    requires
        call_ensures(Properties::len, (&p,), n),
        index < n,
        call_ensures(Properties::name, (&p, index), name),
        call_ensures(Properties::value, (&p, index), value),
        call_ensures(Properties::get, (&p, name), found),
    ensures
        found is Some,
        found->0@ == value@,
{
    properties::collected_row_maps_names(p.listing(), Map::empty(), name@);
    assert(properties::names_at(p.listing(), index as int, name@));
}

/// A topic that is asked for stands among the topics, once, and the others as before.
pub proof fn topics_insert(args: (&mut Topics, &str), other: Seq<char>)
    requires
        call_ensures(Topics::insert, args, ()),
        old(args.0)@.no_duplicates(),
    ensures
        final(args.0)@.no_duplicates(),
        final(args.0)@.contains(other) <==> old(args.0)@.contains(other) || other == args.1@,
        old(args.0)@.len() <= final(args.0)@.len(),
        final(args.0)@.take(old(args.0)@.len() as int) == old(args.0)@,
{
    topics::asking_adds_one(old(args.0)@, args.1@, other);
}

/// A topic that is given up stands among the topics no more, and the others as before.
pub proof fn topics_remove(args: (&mut Topics, &str), other: Seq<char>)
    requires
        call_ensures(Topics::remove, args, ()),
        old(args.0)@.no_duplicates(),
    ensures
        final(args.0)@.no_duplicates(),
        final(args.0)@.contains(other) <==> old(args.0)@.contains(other) && other != args.1@,
{
    topics::giving_up_takes_one(old(args.0)@, args.1@, other);
}

/// A topic fits if its octets and one more have room in a buffer.
pub proof fn topic_fits(topic: &str, r: bool)
    requires
        call_ensures(topics::topic_fits, (topic,), r),
    ensures
        r <==> utf8::encode_utf8(topic@).len() < isize::MAX / 2,
{
}

/// A message that is cut falls into two that make it up again.
pub proof fn split_off(args: (&mut ZmqMessage, usize), tail: ZmqMessage)
    requires
        call_ensures(ZmqMessage::split_off, args, tail),
        args.1 <= old(args.0)@.len(),
    ensures
        final(args.0)@.len() == args.1,
        final(args.0)@ + tail@ == old(args.0)@,
{
}

/// Frames that are put in front stand before the others.
pub proof fn prepend(args: (&mut ZmqMessage, &ZmqMessage))
    requires
        call_ensures(ZmqMessage::prepend, args, ()),
    ensures
        final(args.0)@.take(args.1@.len() as int) == args.1@,
        final(args.0)@.skip(args.1@.len() as int) == old(args.0)@,
{
}

/// Each frame of a message can be had, and of a message made of one frame that frame.
pub proof fn frames(m: ZmqMessage, n: usize, index: usize, got: Option<&[u8]>, frame: Bytes)
    requires
        call_ensures(ZmqMessage::len, (&m,), n),
        call_ensures(ZmqMessage::get, (&m, index), got),
    ensures
        n == m.frames@.len(),
        got is Some <==> index < n,
        got matches Some(s) ==> s@ == octets::of(m.frames@[index as int]),
        call_ensures(ZmqMessage::from_frame, (frame,), m) ==> n == 1 && (index == 0 ==> got is Some
            && got->0@ == octets::of(frame)),
{
}

/// Peers are dealt messages in the order in which they were put in.
pub proof fn turns(args: (&mut RoundRobin, u64), taken: (&mut RoundRobin,), peer: Option<u64>)
    requires
        call_ensures(RoundRobin::push, args, ()),
        call_ensures(RoundRobin::pop, taken, peer),
        *old(taken.0) == *final(args.0),
    ensures
        old(args.0)@.len() == 0 ==> peer == Some(args.1) && final(taken.0)@.len() == 0,
        old(args.0)@.len() > 0 ==> peer == Some(old(args.0)@[0])
            && final(taken.0)@ == old(args.0)@.skip(1).push(args.1),
{
    if old(args.0)@.len() > 0 {
        assert(old(args.0)@.push(args.1).skip(1) =~= old(args.0)@.skip(1).push(args.1));
    }
}

/// What is asked of the clock's reading is asked of a reading of the clock.
pub proof fn asked_of_the_clock(
    t: ActivityTracker,
    config: HeartbeatConfig,
    new: ActivityTracker,
    dead: bool,
    due: bool,
    left: Option<Duration>,
)
    requires
        call_ensures(ActivityTracker::new, (config,), new),
        call_ensures(ActivityTracker::is_dead, (&t,), dead),
        call_ensures(ActivityTracker::should_send_ping, (&t,), due),
        call_ensures(ActivityTracker::time_until_timeout, (&t,), left),
    ensures
        new.config == config,
        new.peer_timeout_ms == 0,
        new.unanswered_pings == 0,
        new.last_ping_ms == 0,
        t.unanswered_pings > t.config.max_unanswered_pings ==> dead && left is None,
        t.unanswered_pings >= t.config.max_unanswered_pings ==> !due,
        left matches Some(d) ==> clock::nanos(d) <= clock::nanos(t.config.timeout) && (
        t.peer_timeout_ms > 0 ==> clock::nanos(d) <= t.peer_timeout_ms * 1_000_000),
{
}

/// What is recorded by the clock changes what it is about, and nothing else.
pub proof fn recorded_by_the_clock(
    active: (&mut ActivityTracker,),
    sent: (&mut ActivityTracker,),
    pinged: (&mut ActivityTracker, Option<u16>),
    answered: (&mut ActivityTracker,),
)
    requires
        call_ensures(ActivityTracker::record_activity, active, ()),
        call_ensures(ActivityTracker::sent_ping, sent, ()),
        call_ensures(ActivityTracker::received_ping, pinged, ()),
        call_ensures(ActivityTracker::received_pong, answered, ()),
    ensures
        *final(active.0) == (ActivityTracker {
            last_activity_ms: final(active.0).last_activity_ms,
            ..*old(active.0)
        }),
        final(sent.0).last_activity_ms == old(sent.0).last_activity_ms,
        final(sent.0).peer_timeout_ms == old(sent.0).peer_timeout_ms,
        final(sent.0).config == old(sent.0).config,
        old(sent.0).unanswered_pings < u32::MAX
            ==> final(sent.0).unanswered_pings == old(sent.0).unanswered_pings + 1,
        final(pinged.0).unanswered_pings == old(pinged.0).unanswered_pings,
        final(pinged.0).last_ping_ms == old(pinged.0).last_ping_ms,
        final(pinged.0).config == old(pinged.0).config,
        pinged.1 matches Some(ttl) ==> (ttl > 0 ==> final(pinged.0).peer_timeout_ms == ttl * 100),
        pinged.1 is None || pinged.1 == Some(0u16)
            ==> final(pinged.0).peer_timeout_ms == old(pinged.0).peer_timeout_ms,
        final(answered.0).last_ping_ms == old(answered.0).last_ping_ms,
        final(answered.0).peer_timeout_ms == old(answered.0).peer_timeout_ms,
        final(answered.0).config == old(answered.0).config,
        old(answered.0).unanswered_pings > 0
            ==> final(answered.0).unanswered_pings == old(answered.0).unanswered_pings - 1,
        old(answered.0).unanswered_pings == 0 ==> final(answered.0).unanswered_pings == 0,
{
}

/// A heartbeat has fifteen seconds between PINGs, a minute to time out, a TTL of a minute and
/// three unanswered PINGs, unless it is told otherwise.
pub proof fn heartbeat_defaults(config: HeartbeatConfig, timeout: Duration)
    requires
        call_ensures(HeartbeatConfig::default, (), config),
        call_ensures(HeartbeatConfig::send_ping_timeout, (&config,), timeout),
    ensures
        clock::nanos(config.ping_interval) == 15 * 1_000_000_000,
        clock::nanos(config.timeout) == 60 * 1_000_000_000,
        config.ttl == Some(600u16),
        config.max_unanswered_pings == 3,
        timeout == config.ping_interval,
{
}

/// The count of unanswered PINGs and the task of a heartbeat are what is kept of them.
pub proof fn counts_and_tasks(t: ActivityTracker, n: u32, handle: HeartbeatHandle, task: u64)
    requires
        call_ensures(ActivityTracker::unanswered_ping_count, (&t,), n),
        call_ensures(HeartbeatHandle::shutdown, (handle,), task),
    ensures
        n == t.unanswered_pings,
        task == handle.task,
{
}

/// A time is counted in milliseconds that have passed whole; a clock before the epoch shows
/// none.
pub proof fn whole_ms(since: Result<Duration, SystemTimeError>, ms: u64)
    requires
        call_ensures(clock::whole_ms, (since,), ms),
    ensures
        since is Err ==> ms == 0,
        since matches Ok(d) ==> (clock::nanos(d) / 1_000_000 <= u64::MAX ==> ms * 1_000_000
            <= clock::nanos(d) && clock::nanos(d) < (ms + 1) * 1_000_000),
{
}

/// What is recorded of a peer reaches that peer's tracker, and no other heartbeat.
pub proof fn heartbeats_record(
    active: (&mut Heartbeats, u64, u64),
    pinged: (&mut Heartbeats, u64, Option<u16>, u64),
    answered: (&mut Heartbeats, u64, u64),
    other: u64,
)
    requires
        call_ensures(Heartbeats::record_activity_at, active, ()),
        call_ensures(Heartbeats::received_ping_at, pinged, ()),
        call_ensures(Heartbeats::received_pong_at, answered, ()),
    ensures
        ({
            let was = old(active.0)@;
            let is = final(active.0)@;
            &&& is.dom() == was.dom()
            &&& was.contains_key(active.1) ==> is[active.1].tracker.last_activity_ms == active.2
                && is[active.1].handle == was[active.1].handle
                && is[active.1].tracker.unanswered_pings == was[active.1].tracker.unanswered_pings
            &&& other != active.1 && was.contains_key(other) ==> is[other] == was[other]
        }),
        ({
            let was = old(pinged.0)@;
            let is = final(pinged.0)@;
            &&& is.dom() == was.dom()
            &&& was.contains_key(pinged.1) ==> is[pinged.1].tracker.last_activity_ms == pinged.3
                && is[pinged.1].handle == was[pinged.1].handle
            &&& was.contains_key(pinged.1) && pinged.2 is Some && pinged.2->0 > 0
                ==> is[pinged.1].tracker.peer_timeout_ms == pinged.2->0 * 100
            &&& other != pinged.1 && was.contains_key(other) ==> is[other] == was[other]
        }),
        ({
            let was = old(answered.0)@;
            let is = final(answered.0)@;
            &&& is.dom() == was.dom()
            &&& was.contains_key(answered.1) ==> is[answered.1].tracker.last_activity_ms
                == answered.2 && is[answered.1].handle == was[answered.1].handle
            &&& was.contains_key(answered.1) && was[answered.1].tracker.unanswered_pings > 0
                ==> is[answered.1].tracker.unanswered_pings
                == was[answered.1].tracker.unanswered_pings - 1
            &&& other != answered.1 && was.contains_key(other) ==> is[other] == was[other]
        }),
{
    heartbeats::hearing_reaches_one_tracker(old(active.0)@, active.1, None, active.2, other);
    heartbeats::hearing_reaches_one_tracker(
        old(pinged.0)@,
        pinged.1,
        pinged.2,
        pinged.3,
        other,
    );
    heartbeats::hearing_reaches_one_tracker(
        old(answered.0)@,
        answered.1,
        None,
        answered.2,
        other,
    );
}

/// The dead peers are listed, each once, and no one else.
pub proof fn heartbeats_dead_at(
    h: Heartbeats,
    now: u64,
    dead: Vec<u64>,
    peer: u64,
    one: bool,
)
    requires
        call_ensures(Heartbeats::dead_at, (&h, now), dead),
        call_ensures(Heartbeats::is_dead_at, (&h, peer, now), one),
    ensures
        one <==> h@.contains_key(peer) && h@[peer].tracker.dead_at(now),
        dead@.contains(peer) <==> one,
        forall|i: int, j: int| 0 <= i < j < dead@.len() ==> dead@[i] != dead@[j],
{
    heartbeats::the_dead_are_found(h@, peer, now);
    assert(dead@.to_set().contains(peer) <==> dead@.contains(peer));
}

/// A heartbeat that is taken in stands in place of the peer's earlier one, which is handed
/// back, and one that is taken out is handed back.
pub proof fn heartbeats_insert_remove(
    put: (&mut Heartbeats, u64, Heartbeat),
    replaced: Option<Heartbeat>,
    taken: (&mut Heartbeats, u64),
    removed: Option<Heartbeat>,
)
    requires
        call_ensures(Heartbeats::insert, put, replaced),
        call_ensures(Heartbeats::remove, taken, removed),
    ensures
        final(put.0)@ == old(put.0)@.insert(put.1, put.2),
        replaced == (if old(put.0)@.contains_key(put.1) {
            Some(old(put.0)@[put.1])
        } else {
            None
        }),
        final(taken.0)@ == old(taken.0)@.remove(taken.1),
        removed == (if old(taken.0)@.contains_key(taken.1) {
            Some(old(taken.0)@[taken.1])
        } else {
            None
        }),
{
}

/// A body is framed if it can be decoded, and what is decoded without a test is what is
/// decoded with one.
pub proof fn framed_bodies(
    buf: Bytes,
    framed: bool,
    r: Option<Result<ZmqCommand, CodecError>>,
    plain: Result<ZmqCommand, CodecError>,
)
    requires
        call_ensures(ZmqCommand::is_framed, (&buf,), framed),
        call_ensures(ZmqCommand::decode, (buf,), r),
        call_ensures(ZmqCommand::try_from, (buf,), plain),
    ensures
        framed <==> r is Some,
        r matches Some(Ok(c)) ==> plain is Ok && plain->Ok_0@ == c@,
        r matches Some(Err(e)) ==> plain == Err::<ZmqCommand, CodecError>(e),
{
    if let Some(Ok(c)) = r {
        wire::outcomes_are_seen_whole(c, CodecError::Decode(""));
    }
}

/// A command fits where it can be encoded.
pub proof fn command_fits(c: ZmqCommand, fits: bool, bytes: Option<BytesMut>)
    requires
        call_ensures(ZmqCommand::fits, (&c,), fits),
        call_ensures(ZmqCommand::try_encode, (c,), bytes),
    ensures
        fits <==> bytes is Some,
        fits ==> octets::of_mut(bytes->0).len() <= isize::MAX / 2,
{
}

/// Commands and the octets of requests go by their names.
pub proof fn names_and_codes(
    name: ZmqCommandName,
    text: &str,
    kind: SubBackendMsgType,
    code: u8,
)
    requires
        call_ensures(ZmqCommandName::as_str, (&name,), text),
        call_ensures(SubBackendMsgType::code, (kind,), code),
    ensures
        name == ZmqCommandName::READY ==> text@ == "READY"@,
        name == ZmqCommandName::PING ==> text@ == "PING"@,
        name == ZmqCommandName::PONG ==> text@ == "PONG"@,
        kind is SUBSCRIBE ==> code == 1,
        kind is UNSUBSCRIBE ==> code == 0,
{
}

/// A clone carries what was cloned.
pub proof fn clones(
    m: ZmqMessage,
    m2: ZmqMessage,
    c: ZmqCommand,
    c2: ZmqCommand,
    p: Properties,
    p2: Properties,
)
    requires
        call_ensures(ZmqMessage::clone, (&m,), m2),
        call_ensures(ZmqCommand::clone, (&c,), c2),
        call_ensures(Properties::clone, (&p,), p2),
    ensures
        m2@ == m@,
        c2.name == c.name,
        c2.ttl == c.ttl,
        c2@.context == c@.context,
        c2.properties@ == c.properties@,
        p2@ == p@,
        p2.listing() == p.listing(),
{
}

/// What a list of topics shows is what it holds, in order and each once.
pub proof fn topics_by_place(
    t: Topics,
    n: usize,
    i: usize,
    j: usize,
    a: &str,
    b: &str,
)
    requires
        call_ensures(Topics::len, (&t,), n),
        i < n,
        j < n,
        call_ensures(Topics::topic, (&t, i), a),
        call_ensures(Topics::topic, (&t, j), b),
    ensures
        t@.contains(a@),
        a@ == b@ ==> i == j,
        utf8::encode_utf8(a@).len() < isize::MAX / 2,
{
}


} // verus!
