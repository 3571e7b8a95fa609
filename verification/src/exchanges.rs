//! What calls on sockets amount to, stated of what goes in and what comes out.
//!
//! Each statement is about every call of a function: `args` are its arguments, `final` what
//! it leaves behind. They are proved from the functions' contracts alone.
use crate::actions::{Action, ActionView, Actions};
use crate::backend;
use crate::backend::{Dispatch, GenericSocketBackend};
use crate::command;
use crate::command::{ZmqCommand, ZmqCommandName};
use crate::error::{CodecError, IoErrorKind, ZmqError};
use crate::heartbeat::{HeartbeatAction, HeartbeatEvent};
use crate::heartbeats;
use crate::lifecycle;
use crate::message::{Message, MessageView, ZmqMessage};
use crate::peers;
use crate::peers::{Peer, PeerTable, PeerView};
use crate::publish;
use crate::publish::Publication;
use crate::publisher;
use crate::publisher::{PubSocket, PubSocketBackend, SubscriptionEvent};
use crate::policy::{PeerPolicy, Policy};
use crate::pull;
use crate::pull::PullSocket;
use crate::receive;
use crate::receive::{QueueEvent, Received, StreamEvent};
use crate::reconnect;
use crate::reconnect::ReconnectHandle;
use crate::registry;
use crate::registry::{Registry, RegistryView};
use crate::rep;
use crate::rep::{RepSocket, RepSocketBackend, RepView};
use crate::socket::{SocketEvent, SocketEventView, SocketOptions, SocketType};
use crate::sub;
use crate::sub::{Broadcast, Requests, SubBackendMsgType, SubSocket, SubSocketBackend};
use crate::topics;
use crate::xpub;
use crate::xpub::{XPubSocket, XPubSocketBackend};
use vstd::prelude::*;
use vstd::utf8;

verus! {

/// A peer's queue is given exactly for the frames that begin with a topic that the peer has
/// asked for.
pub proof fn queue_for(peer: Peer, frame: &[u8], queue: Option<u64>)
    requires
        call_ensures(Peer::queue_for, (&peer, frame), queue),
    ensures
        queue is Some <==> exists|topic: Seq<u8>, rest: Seq<u8>|
            #[trigger] peer@.subscriptions.contains(topic) && frame@ == #[trigger] (topic + rest),
        queue matches Some(q) ==> q == peer.send_queue,
{
    peers::wanted_frames_begin_with_a_topic(peer@, frame@);
}

/// A peer that asks for a topic gets the frames that begin with it, and those that it got.
pub proof fn peer_subscribe(
    args: (&mut Peer, Vec<u8>),
    frame: &[u8],
    before: Option<u64>,
    after: Option<u64>,
)
    requires
        call_ensures(Peer::subscribe, args, ()),
        call_ensures(Peer::queue_for, (old(args.0), frame), before),
        call_ensures(Peer::queue_for, (final(args.0), frame), after),
    ensures
        after is Some <==> before is Some || exists|rest: Seq<u8>|
            frame@ == #[trigger] (args.1@ + rest),
        final(args.0)@.send_queue == old(args.0)@.send_queue,
        final(args.0)@.coro_stop == old(args.0)@.coro_stop,
        final(args.0)@.subscriptions.len() == old(args.0)@.subscriptions.len() + 1,
        final(args.0)@.subscriptions.last() == args.1@,
        final(args.0)@.subscriptions.drop_last() == old(args.0)@.subscriptions,
{
    let was = old(args.0)@;
    let is = final(args.0)@;
    peers::topics_match_octet_by_octet(args.1@, frame@);
    if peers::wanted(was.subscriptions, frame@) {
        let i = choose|i: int|
            0 <= i < was.subscriptions.len() && peers::topic_matches(
                #[trigger] was.subscriptions[i],
                frame@,
            );
        assert(is.subscriptions[i] == was.subscriptions[i]);
    }
    if peers::topic_matches(args.1@, frame@) {
        assert(is.subscriptions[was.subscriptions.len() as int] == args.1@);
    }
    assert(is.subscriptions.drop_last() =~= was.subscriptions);
}

/// A peer that gives a topic up loses its first request for it, and no other.
pub proof fn peer_unsubscribe(
    args: (&mut Peer, &[u8]),
    before: Seq<Seq<u8>>,
    behind: Seq<Seq<u8>>,
)
    requires
        call_ensures(Peer::unsubscribe, args, ()),
        !before.contains(args.1@),
    ensures
        final(args.0)@.send_queue == old(args.0)@.send_queue,
        final(args.0)@.coro_stop == old(args.0)@.coro_stop,
        old(args.0)@.subscriptions == before ==> final(args.0)@.subscriptions == before,
        old(args.0)@.subscriptions == before + seq![args.1@] + behind
            ==> final(args.0)@.subscriptions == before + behind,
{
    peers::first_occurrence_goes(before, args.1@, behind);
}

/// Each known peer that has asked for a topic with which the message begins is a target, once
/// and with its queue; no one else is. Nobody was tried yet.
pub proof fn pub_send(s: PubSocket, message: ZmqMessage, p: Publication, peer: u64)
    requires
        call_ensures(PubSocket::send, (&s, message), p),
    ensures
        p.message@ == message@,
        p.tried == 0,
        p.dead@.len() == 0,
        (exists|i: int| 0 <= i < p.targets@.len() && (#[trigger] p.targets@[i]).peer == peer) <==> (
        message@.len() > 0 && s.backend.registry.peers@.contains_key(peer) && exists|
            topic: Seq<u8>,
            rest: Seq<u8>,
        | #[trigger]
            s.backend.registry.peers@[peer].subscriptions.contains(topic) && message@[0]
                == #[trigger] (topic + rest)),
        forall|i: int|
            0 <= i < p.targets@.len() ==> (#[trigger] p.targets@[i]).queue
                == s.backend.registry.peers@[p.targets@[i].peer].send_queue,
        forall|i: int, j: int|
            0 <= i < j < p.targets@.len() ==> (#[trigger] p.targets@[i]).peer != (
            #[trigger] p.targets@[j]).peer,
{
    publish::messages_reach_their_subscribers(
        s.backend.registry.peers@,
        message@,
        p.targets@,
        peer,
    );
}

/// Each known peer that has asked for a topic with which the message begins is a target, once
/// and with its queue; no one else is. Nobody was tried yet.
pub proof fn xpub_send(s: XPubSocket, message: ZmqMessage, p: Publication, peer: u64)
    requires
        call_ensures(XPubSocket::send, (&s, message), p),
    ensures
        p.message@ == message@,
        p.tried == 0,
        p.dead@.len() == 0,
        (exists|i: int| 0 <= i < p.targets@.len() && (#[trigger] p.targets@[i]).peer == peer) <==> (
        message@.len() > 0 && s.backend.registry.peers@.contains_key(peer) && exists|
            topic: Seq<u8>,
            rest: Seq<u8>,
        | #[trigger]
            s.backend.registry.peers@[peer].subscriptions.contains(topic) && message@[0]
                == #[trigger] (topic + rest)),
        forall|i: int|
            0 <= i < p.targets@.len() ==> (#[trigger] p.targets@[i]).queue
                == s.backend.registry.peers@[p.targets@[i].peer].send_queue,
        forall|i: int, j: int|
            0 <= i < j < p.targets@.len() ==> (#[trigger] p.targets@[i]).peer != (
            #[trigger] p.targets@[j]).peer,
{
    publish::messages_reach_their_subscribers(
        s.backend.registry.peers@,
        message@,
        p.targets@,
        peer,
    );
}

/// The target whose turn it is is offered the message with all its frames.
pub proof fn publication_next(p: Publication, next: Option<(u64, ZmqMessage)>)
    requires
        call_ensures(Publication::next, (&p,), next),
    ensures
        next is Some <==> p.tried < p.targets@.len(),
        next matches Some((queue, message)) ==> queue == p.targets@[p.tried as int].queue
            && message@ == p.message@,
{
}

/// After a target was tried it is the next one's turn, and a target whose pipe is broken is
/// remembered. A target that is full, or fails on its connection otherwise, is passed over.
/// Any other error ends the sending and is handed back.
pub proof fn publication_note(
    args: (&mut Publication, Result<(), ZmqError>),
    failure: Option<ZmqError>,
)
    requires
        call_ensures(Publication::note, args, failure),
        old(args.0).tried < old(args.0).targets.len(),
    ensures
        ({
            let was = *old(args.0);
            let is = *final(args.0);
            let broken = args.1 == Err::<(), ZmqError>(
                ZmqError::Codec(CodecError::Io(IoErrorKind::BrokenPipe)),
            );
            let passed = args.1 matches Err(e) && (e is BufferFull || (e is Codec && e->Codec_0
                is Io));
            &&& is.message == was.message
            &&& is.targets == was.targets
            &&& args.1 is Ok || passed ==> failure is None && is.tried == was.tried + 1
            &&& args.1 is Err && !passed ==> failure == Some(args.1->Err_0) && is == was
            &&& broken ==> is.dead@ == was.dead@.push(was.targets@[was.tried as int].peer)
            &&& !broken ==> is.dead@ == was.dead@
        }),
{
}

/// A publication that went through ends with those gone that were found dead, and no others.
/// One that failed returns its error and changes nothing.
pub proof fn pub_sent(
    args: (&mut PubSocket, Publication, Option<ZmqError>, &mut Actions),
    result: Result<(), ZmqError>,
    peer: u64,
)
    requires
        call_ensures(PubSocket::sent, args, result),
    ensures
        ({
            let was = old(args.0)@.registry;
            let is = final(args.0)@.registry;
            let dead = args.1.dead@;
            &&& final(args.0)@.reconnects == old(args.0)@.reconnects
            &&& args.2 is None ==> result is Ok
            &&& args.2 matches Some(e) ==> result == Err::<(), ZmqError>(e) && is == was
                && final(args.3)@ == old(args.3)@
            &&& args.2 is None && dead.contains(peer) ==> !(is.peers.contains_key(peer)) && !(
            is.heartbeats.contains_key(peer))
            &&& was.peers.contains_key(peer) && !dead.contains(peer) ==> is.peers.contains_key(peer)
                && is.peers[peer] == was.peers[peer]
        }),
{
    publish::publications_end_with_the_gone_let_go(
        old(args.0)@.registry,
        old(args.3)@,
        args.1,
        args.2,
        final(args.0)@.registry,
        final(args.3)@,
        result,
        peer,
    );
}

/// A publication that went through ends with those gone that were found dead, and no others.
/// One that failed returns its error and changes nothing.
pub proof fn xpub_sent(
    args: (&mut XPubSocket, Publication, Option<ZmqError>, &mut Actions),
    result: Result<(), ZmqError>,
    peer: u64,
)
    requires
        call_ensures(XPubSocket::sent, args, result),
    ensures
        ({
            let was = old(args.0).backend.registry@;
            let is = final(args.0).backend.registry@;
            let dead = args.1.dead@;
            &&& args.2 is None ==> result is Ok
            &&& args.2 matches Some(e) ==> result == Err::<(), ZmqError>(e) && is == was
                && final(args.3)@ == old(args.3)@
            &&& args.2 is None && dead.contains(peer) ==> !(is.peers.contains_key(peer)) && !(
            is.heartbeats.contains_key(peer))
            &&& was.peers.contains_key(peer) && !dead.contains(peer) ==> is.peers.contains_key(peer)
                && is.peers[peer] == was.peers[peer]
        }),
{
    publish::publications_end_with_the_gone_let_go(
        old(args.0).backend.registry@,
        old(args.3)@,
        args.1,
        args.2,
        final(args.0).backend.registry@,
        final(args.3)@,
        result,
        peer,
    );
}

/// A request for a topic that is read from a known peer is kept: from then on the peer also
/// wants the frames that begin with the topic. To give a topic up takes one request away.
pub proof fn pub_message_received(
    args: (&mut PubSocketBackend, u64, &Message),
    topic: Seq<u8>,
    other: u64,
)
    requires
        call_ensures(PubSocketBackend::message_received, args, ()),
        old(args.0).registry@.peers.contains_key(args.1),
    ensures
        ({
            let was = old(args.0).registry@;
            let is = final(args.0).registry@;
            let asked = args.2@ == MessageView::Message(seq![seq![1u8] + topic]);
            let given_up = args.2@ == MessageView::Message(seq![seq![0u8] + topic]);
            &&& is.peers.dom() == was.peers.dom()
            &&& asked ==> is.peers[args.1].subscriptions == was.peers[args.1].subscriptions + seq![
                topic,
            ]
            &&& given_up ==> is.peers[args.1].subscriptions == peers::without_first(
                was.peers[args.1].subscriptions,
                topic,
            )
            &&& is.peers[args.1].send_queue == was.peers[args.1].send_queue
            &&& other != args.1 && was.peers.contains_key(other) ==> is.peers[other]
                == was.peers[other]
            &&& args.2@ matches MessageView::Message(frames) ==> (frames.len() != 1
                || frames[0].len() == 0 || frames[0][0] > 1 ==> is == was)
            &&& !(args.2@ is Message) ==> is == was
            &&& is.heartbeats == was.heartbeats
            &&& is.streams == was.streams
            &&& is.notifiers == was.notifiers
            &&& is.monitor == was.monitor
        }),
{
    let known = old(args.0).registry@.peers;
    publish::requests_are_heard(known, args.1, topic, topic, other);
    publish::only_requests_change_subscriptions(known, args.1, args.2@, other);
}

/// A request for a topic that is read from a known peer is kept: from then on the peer also
/// wants the frames that begin with the topic. To give a topic up takes one request away.
pub proof fn xpub_message_received(
    args: (&mut XPubSocketBackend, u64, &Message),
    topic: Seq<u8>,
    other: u64,
)
    requires
        call_ensures(XPubSocketBackend::message_received, args, ()),
        old(args.0).registry@.peers.contains_key(args.1),
    ensures
        ({
            let was = old(args.0).registry@;
            let is = final(args.0).registry@;
            let asked = args.2@ == MessageView::Message(seq![seq![1u8] + topic]);
            let given_up = args.2@ == MessageView::Message(seq![seq![0u8] + topic]);
            &&& is.peers.dom() == was.peers.dom()
            &&& asked ==> is.peers[args.1].subscriptions == was.peers[args.1].subscriptions + seq![
                topic,
            ]
            &&& given_up ==> is.peers[args.1].subscriptions == peers::without_first(
                was.peers[args.1].subscriptions,
                topic,
            )
            &&& is.peers[args.1].send_queue == was.peers[args.1].send_queue
            &&& other != args.1 && was.peers.contains_key(other) ==> is.peers[other]
                == was.peers[other]
            &&& args.2@ matches MessageView::Message(frames) ==> (frames.len() != 1
                || frames[0].len() == 0 || frames[0][0] > 1 ==> is == was)
            &&& !(args.2@ is Message) ==> is == was
            &&& is.heartbeats == was.heartbeats
            &&& is.streams == was.streams
            &&& is.notifiers == was.notifiers
            &&& is.monitor == was.monitor
        }),
{
    let known = old(args.0).registry@.peers;
    publish::requests_are_heard(known, args.1, topic, topic, other);
    publish::only_requests_change_subscriptions(known, args.1, args.2@, other);
}

/// A subscription task that reads a request keeps it while the peer is alive, says nothing,
/// and leaves the others alone.
pub proof fn subscription_step_at_request(
    args: (&mut PubSocketBackend, u64, u64, SubscriptionEvent, u64, u64, &mut Actions),
    goes_on: bool,
    topic: Seq<u8>,
    other: u64,
)
    requires
        call_ensures(PubSocketBackend::subscription_step_at, args, goes_on),
        old(args.0).registry@.peers.contains_key(args.1),
        old(args.0).registry@.peers[args.1].coro_stop == Some(args.2),
        args.3 is Received,
        !old(args.0).registry@.heartbeats.contains_key(args.1)
            || !old(args.0).registry@.heartbeats[args.1].tracker.with_activity(args.4).dead_at(
            args.5,
        ),
    ensures
        ({
            let was = old(args.0).registry@;
            let is = final(args.0).registry@;
            let message = args.3->Received_0@;
            let asked = message == MessageView::Message(seq![seq![1u8] + topic]);
            let given_up = message == MessageView::Message(seq![seq![0u8] + topic]);
            &&& asked || given_up ==> goes_on && final(args.6)@ == old(args.6)@
                && is.peers[args.1].send_queue == was.peers[args.1].send_queue
                && is.peers[args.1].coro_stop == Some(args.2)
            &&& asked ==> is.peers[args.1].subscriptions == was.peers[args.1].subscriptions + seq![
                topic,
            ]
            &&& given_up ==> is.peers[args.1].subscriptions == peers::without_first(
                was.peers[args.1].subscriptions,
                topic,
            )
            &&& other != args.1 && was.peers.contains_key(other) ==> is.peers.contains_key(other)
                && is.peers[other] == was.peers[other]
        }),
{
    let was = old(args.0).registry@;
    let is = final(args.0).registry@;
    let message = args.3->Received_0@;
    let said = old(args.6)@;
    let out = final(args.6)@;
    publisher::lost_streams_lose_the_peer(
        was, said, args.1, args.2, args.3, args.4, args.5, is, out, goes_on, other,
    );
    if message == MessageView::Message(seq![seq![1u8] + topic]) || message == MessageView::Message(
        seq![seq![0u8] + topic],
    ) {
        publisher::task_goes_on_with_a_live_peer(
            was, said, args.1, args.2, args.3, args.4, args.5, is, out, goes_on,
        );
        publisher::subscriptions_are_kept(
            was, said, args.1, args.2, args.3, topic, args.4, args.5, is, out, goes_on, topic,
                other,
        );
    }
}

/// A subscription task answers a PING on the peer's queue with what it carried, and goes on.
pub proof fn subscription_step_at_ping(
    args: (&mut PubSocketBackend, u64, u64, SubscriptionEvent, u64, u64, &mut Actions),
    goes_on: bool,
)
    requires
        call_ensures(PubSocketBackend::subscription_step_at, args, goes_on),
        old(args.0).registry@.peers.contains_key(args.1),
        old(args.0).registry@.peers[args.1].coro_stop == Some(args.2),
        args.3 is Received,
        args.3->Received_0@ is Command,
    ensures
        ({
            let was = old(args.0).registry@;
            let is = final(args.0).registry@;
            let c = args.3->Received_0@->Command_0;
            &&& c.name == ZmqCommandName::PING ==> goes_on && is.peers == was.peers
                && final(args.6)@.len() == old(args.6)@.len() + 1
                && final(args.6)@.drop_last() == old(args.6)@
                && final(args.6)@.last() == (ActionView::Send {
                queue: was.peers[args.1].send_queue,
                message: MessageView::Command(command::pong_view(c.context)),
            })
            &&& c.name == ZmqCommandName::PONG ==> goes_on && is.peers == was.peers
                && final(args.6)@ == old(args.6)@
        }),
{
    let was = old(args.0).registry@;
    let is = final(args.0).registry@;
    let c = args.3->Received_0@->Command_0;
    let said = old(args.6)@;
    let out = final(args.6)@;
    if c.name == ZmqCommandName::PING || c.name == ZmqCommandName::PONG {
        publisher::pings_are_answered_in_passing(
            was, said, args.1, args.2, args.3, c, args.4, args.5, is, out, goes_on,
        );
        if c.name == ZmqCommandName::PING {
            assert(out.drop_last() =~= out.take(said.len() as int));
        }
    }
}

/// A subscription task that was stopped, or whose peer has gone or come back with another
/// task, ends and changes nothing. One whose stream or whose PONG was lost ends with its peer
/// gone, and the others stay.
pub proof fn subscription_step_at_end(
    args: (&mut PubSocketBackend, u64, u64, SubscriptionEvent, u64, u64, &mut Actions),
    goes_on: bool,
    other: u64,
)
    requires
        call_ensures(PubSocketBackend::subscription_step_at, args, goes_on),
    ensures
        ({
            let was = old(args.0).registry@;
            let is = final(args.0).registry@;
            let reads = was.peers.contains_key(args.1) && was.peers[args.1].coro_stop == Some(
                args.2,
            );
            &&& !reads || args.3 is Stopped ==> !goes_on && is == was
                && final(args.6)@ == old(args.6)@
            &&& reads && (args.3 is Lost || args.3 is PongFailed) ==> !goes_on && !(
            is.peers.contains_key(args.1)) && !(is.heartbeats.contains_key(args.1))
            &&& other != args.1 && was.peers.contains_key(other) ==> is.peers.contains_key(other)
                && is.peers[other] == was.peers[other]
        }),
{
    publisher::lost_streams_lose_the_peer(
        old(args.0).registry@,
        old(args.6)@,
        args.1,
        args.2,
        args.3,
        args.4,
        args.5,
        final(args.0).registry@,
        final(args.6)@,
        goes_on,
        other,
    );
}


/// A PING from a known peer is answered on its queue with what it carried, and nothing else
/// is asked for.
pub open spec fn answered(
    r: RegistryView,
    peer: u64,
    message: MessageView,
    said: Seq<ActionView>,
    out: Seq<ActionView>,
) -> bool {
    if r.peers.contains_key(peer) && message is Command && message->Command_0.name
        == ZmqCommandName::PING {
        &&& out.len() == said.len() + 1
        &&& out.drop_last() == said
        &&& out.last() matches ActionView::Send { queue, message: answer } && queue
            == r.peers[peer].send_queue && (answer matches MessageView::Command(pong) && pong.name
            == ZmqCommandName::PONG && pong.context == message->Command_0.context && pong.ttl
            is None)
    } else {
        out == said
    }
}

/// What a socket asks for when it hears a peer is the answer.
proof fn hearing_is_answered(
    r: RegistryView,
    peer: u64,
    message: MessageView,
    said: Seq<ActionView>,
    out: Seq<ActionView>,
)
    requires
        out == said + r.item_actions(peer, message),
    ensures
        answered(r, peer, message, said, out),
{
    lifecycle::pings_are_answered(r, peer, message);
    let asked = r.item_actions(peer, message);
    if asked.len() == 0 {
        assert(out =~= said);
    } else {
        assert(out.drop_last() =~= said);
        assert(out.last() == asked[0]);
    }
}

/// A peer is let go: it is kept nowhere, all that it had is asked to end and nothing else,
/// and another peer keeps what it has.
pub open spec fn let_go(
    was: RegistryView,
    said: Seq<ActionView>,
    peer: u64,
    is: RegistryView,
    out: Seq<ActionView>,
    other: u64,
    x: ActionView,
) -> bool {
    &&& !(is.peers.contains_key(peer))
    &&& !(is.heartbeats.contains_key(peer))
    &&& !(is.streams.contains_key(peer))
    &&& other != peer ==> lifecycle::same_at(was, is, other)
    &&& is.policy == was.policy
    &&& is.monitor == was.monitor
    &&& said.len() <= out.len()
    &&& out.take(said.len() as int) == said
    &&& out.skip(said.len() as int).contains(x) <==> lifecycle::goes_with(was, peer, x)
}

/// Who is disconnected is let go.
proof fn disconnecting_lets_go(
    was: RegistryView,
    said: Seq<ActionView>,
    peer: u64,
    is: RegistryView,
    out: Seq<ActionView>,
    other: u64,
    x: ActionView,
)
    requires
        is == was.disconnected(peer),
        out == said + was.disconnect_actions(peer),
    ensures
        let_go(was, said, peer, is, out, other, x),
{
    lifecycle::going_asks_for_what_goes(was, peer, x);
    if other != peer {
        lifecycle::gone_peer_is_kept_nowhere(was, peer, other);
    } else {
        lifecycle::going_keeps_the_rest(was, peer, other);
    }
    assert(out.take(said.len() as int) =~= said);
    assert(out.skip(said.len() as int) =~= was.disconnect_actions(peer));
}

/// A peer has come: it is kept with its queue and without topics, its heartbeat starts
/// afresh, and another peer keeps what it has.
pub open spec fn came(
    was: RegistryView,
    peer: u64,
    send_queue: u64,
    task: u64,
    now: u64,
    is: RegistryView,
    other: u64,
) -> bool {
    let p = is.peers[peer];
    let h = is.heartbeats[peer];
    let enabled = was.socket_options.heartbeat_enabled;
    &&& is.peers.contains_key(peer)
    &&& p.send_queue == send_queue
    &&& p.subscriptions.len() == 0
    &&& is.heartbeats.contains_key(peer)
    &&& h.handle is Some <==> enabled
    &&& h.handle matches Some(handle) ==> handle.task == task
    &&& h.tracker.last_activity_ms == now
    &&& h.tracker.last_ping_ms == 0
    &&& h.tracker.unanswered_pings == 0
    &&& h.tracker.peer_timeout_ms == 0
    &&& enabled && was.socket_options.heartbeat_config is Some ==> h.tracker.config
        == was.socket_options.heartbeat_config->0
    &&& other != peer ==> lifecycle::same_at(was, is, other)
    &&& is.notifiers == was.notifiers
    &&& is.monitor == was.monitor
    &&& is.policy == was.policy
    &&& is.socket_options == was.socket_options
}

/// What a peer had that comes again is asked to end, and its heartbeat to start where
/// heartbeats are enabled.
pub open spec fn replaces(r: RegistryView, peer: u64, task: u64, x: ActionView) -> bool {
    match x {
        ActionView::StartHeartbeat { peer: who, task: runner } =>
            r.socket_options.heartbeat_enabled && who == peer && runner == task,
        ActionView::CloseSender { queue } => r.peers.contains_key(peer)
            && r.peers[peer].send_queue == queue,
        ActionView::StopSubscription { stop } => r.peers.contains_key(peer)
            && r.peers[peer].coro_stop == Some(stop),
        ActionView::StopHeartbeat { task: earlier } => r.heartbeats.contains_key(peer)
            && r.heartbeats[peer].handle is Some && r.heartbeats[peer].handle->0.task == earlier,
        _ => false,
    }
}

/// One sequence behind another holds what either holds.
proof fn joined(a: Seq<ActionView>, b: Seq<ActionView>, x: ActionView)
    ensures
        (a + b).contains(x) <==> a.contains(x) || b.contains(x),
{
    if a.contains(x) {
        let i = choose|i: int| 0 <= i < a.len() && a[i] == x;
        assert((a + b)[i] == x);
    }
    if b.contains(x) {
        let i = choose|i: int| 0 <= i < b.len() && b[i] == x;
        assert((a + b)[a.len() + i] == x);
    }
}

/// A peer that comes to a backend is kept, gets a turn behind the others, and is read where
/// the socket reads; otherwise its stream is closed.
pub proof fn peer_connected(
    args: (&mut GenericSocketBackend, u64, u64, u64, u64, u64, &mut Actions),
    other: u64,
    x: ActionView,
)
    requires
        call_ensures(GenericSocketBackend::peer_connected, args, ()),
    ensures
        ({
            let was = old(args.0)@;
            let is = final(args.0)@;
            let said = old(args.6)@;
            let out = final(args.6)@;
            let stream = args.3;
            &&& came(was.registry, args.1, args.2, args.4, args.5, is.registry, other)
            &&& is.registry.peers[args.1].coro_stop is None
            &&& is.round_robin == was.round_robin + seq![args.1]
            &&& was.fair_queue ==> is.registry.streams.contains_key(args.1)
                && is.registry.streams[args.1] == stream
            &&& !was.fair_queue ==> is.registry.streams == was.registry.streams
            &&& is.fair_queue == was.fair_queue && is.socket_type == was.socket_type
            &&& said.len() <= out.len() && out.take(said.len() as int) == said
            &&& out.skip(said.len() as int).contains(x) <==> {
                ||| replaces(was.registry, args.1, args.4, x)
                ||| was.fair_queue && x == (ActionView::OpenStream { peer: args.1, stream })
                ||| was.fair_queue && was.registry.streams.contains_key(args.1) && x == (
                ActionView::CloseStream { stream: was.registry.streams[args.1] })
                ||| !was.fair_queue && x == (ActionView::CloseStream { stream })
            }
        }),
{
    let was = old(args.0)@;
    let is = final(args.0)@;
    let said = old(args.6)@;
    let out = final(args.6)@;
    let r = was.registry;
    let h = is.registry.heartbeats[args.1];
    let stream = args.3;
    lifecycle::heartbeats_start_afresh(r, h, args.4, args.5);
    lifecycle::coming_peer_is_kept(r, args.1, peers::plain(args.2), h, stream, other);
    lifecycle::coming_asks_for_what_is_new(r, args.1, args.4, stream, x);
    let rest = if was.fair_queue {
        r.open_actions(args.1, stream)
    } else {
        seq![ActionView::CloseStream { stream }]
    };
    joined(r.connect_actions(args.1, args.4), rest, x);
    if !was.fair_queue {
        assert(rest[0] == (ActionView::CloseStream { stream }));
        assert(rest.contains(x) <==> x == rest[0]);
    }
    assert(out.take(said.len() as int) =~= said);
    assert(out.skip(said.len() as int) =~= r.connect_actions(args.1, args.4) + rest);
    backend::coming_peer_gets_a_turn(was, args.1, peers::plain(args.2), h, stream, args.4);
}

/// A peer that leaves a backend is let go.
pub proof fn peer_disconnected(
    args: (&mut GenericSocketBackend, u64, &mut Actions),
    other: u64,
    x: ActionView,
)
    requires
        call_ensures(GenericSocketBackend::peer_disconnected, args, ()),
    ensures
        let_go(
            old(args.0)@.registry,
            old(args.2)@,
            args.1,
            final(args.0)@.registry,
            final(args.2)@,
            other,
            x,
        ),
        final(args.0)@.round_robin == old(args.0)@.round_robin,
        final(args.0)@.fair_queue == old(args.0)@.fair_queue,
        final(args.0)@.socket_type == old(args.0)@.socket_type,
{
    disconnecting_lets_go(
        old(args.0)@.registry,
        old(args.2)@,
        args.1,
        final(args.0)@.registry,
        final(args.2)@,
        other,
        x,
    );
}

/// A message is dealt to the first in the row who is there, and who stands before is dropped
/// from the row. Where nobody is there it is handed back; commands and greetings are refused.
pub proof fn send_round_robin(
    args: (&mut GenericSocketBackend, Message),
    r: Result<Dispatch, ZmqError>,
)
    requires
        call_ensures(GenericSocketBackend::send_round_robin, args, r),
    ensures
        ({
            let was = old(args.0)@;
            let is = final(args.0)@;
            let known = was.registry.peers;
            &&& r is Ok <==> exists|i: int|
                0 <= i < was.round_robin.len() && known.contains_key(#[trigger] was.round_robin[i])
            &&& r matches Ok(d) ==> known.contains_key(d.peer) && d.queue
                == known[d.peer].send_queue && d.message@ == args.1@ && exists|before: Seq<u64>|
                was.round_robin == #[trigger] (before + seq![d.peer] + is.round_robin) && forall|
                    i: int,
                | 0 <= i < before.len() ==> !known.contains_key(#[trigger] before[i])
            &&& r matches Err(e) ==> is.round_robin.len() == 0 && match args.1@ {
                MessageView::Message(m) => e matches ZmqError::ReturnToSender { reason, message }
                    && message@ == m && reason@
                    == "Not connected to peers. Unable to send messages"@,
                MessageView::Command(_) => e == ZmqError::Socket(
                    "Sending commands is not supported",
                ),
                MessageView::Greeting => e == ZmqError::Socket("Sending greeting is not supported"),
            }
            &&& is.registry == was.registry
        }),
{
    backend::messages_are_dealt_or_handed_back(old(args.0)@, args.1, final(args.0)@, r);
}

/// Who took a message goes to the end of the row; who failed is let go and the error is
/// returned.
pub proof fn round_robin_sent(
    args: (&mut GenericSocketBackend, u64, Result<(), CodecError>, &mut Actions),
    r: Result<u64, ZmqError>,
    other: u64,
    x: ActionView,
)
    requires
        call_ensures(GenericSocketBackend::round_robin_sent, args, r),
    ensures
        ({
            let was = old(args.0)@;
            let is = final(args.0)@;
            &&& args.2 is Ok ==> r == Ok::<u64, ZmqError>(args.1) && is.round_robin
                == was.round_robin + seq![args.1] && is.registry == was.registry && final(args.3)@
                == old(args.3)@
            &&& args.2 matches Err(e) ==> r == Err::<u64, ZmqError>(ZmqError::Codec(e))
                && is.round_robin == was.round_robin && let_go(
                was.registry,
                old(args.3)@,
                args.1,
                is.registry,
                final(args.3)@,
                other,
                x,
            )
        }),
{
    if args.2 is Err {
        disconnecting_lets_go(
            old(args.0)@.registry,
            old(args.3)@,
            args.1,
            final(args.0)@.registry,
            final(args.3)@,
            other,
            x,
        );
    } else {
        assert(final(args.0)@.round_robin =~= old(args.0)@.round_robin + seq![args.1]);
    }
}

/// What a SUB socket makes of what its streams bring: a message is handed over with all its
/// frames, a PING is answered, a failed stream is reported and its peer let go, and when no
/// stream is left nobody is.
pub proof fn sub_recv_at(
    args: (&mut SubSocket, StreamEvent, u64, &mut Actions),
    r: Received,
    other: u64,
    x: ActionView,
)
    requires
        call_ensures(SubSocket::recv_at, args, r),
    ensures
        ({
            let was = old(args.0).backend@.generic.registry;
            let is = final(args.0).backend@.generic.registry;
            let said = old(args.3)@;
            let out = final(args.3)@;
            &&& final(args.0).backend@.subs == old(args.0).backend@.subs
            &&& final(args.0).reconnect_handles == old(args.0).reconnect_handles
            &&& match args.1 {
                StreamEvent::Item { peer, message } => {
                    &&& message@ matches MessageView::Message(frames)
                        ==> (r matches Received::Message(
                        m,
                    ) && m@ == frames)
                    &&& !(message@ is Message) ==> r is Pending
                    &&& is.peers == was.peers && is.streams == was.streams
                    &&& was.heartbeats.contains_key(peer)
                        ==> is.heartbeats[peer].tracker.last_activity_ms == args.2
                    &&& other != peer ==> lifecycle::same_at(was, is, other)
                    &&& answered(was, peer, message@, said, out)
                },
                StreamEvent::Failed { peer, error } => r == Received::Error(ZmqError::Codec(error))
                    && let_go(was, said, peer, is, out, other, x),
                StreamEvent::Drained => r is Pending && is.peers == Map::<u64, PeerView>::empty(),
            }
        }),
{
    let was = old(args.0).backend@.generic.registry;
    let is = final(args.0).backend@.generic.registry;
    let said = old(args.3)@;
    let out = final(args.3)@;
    sub::messages_are_handed_over(args.1, was, said, args.2, is, out, r);
    match args.1 {
        StreamEvent::Item { peer, message } => {
            sub::hearing_keeps_the_peer(peer, message, was, said, args.2, is, out, r, other);
            hearing_is_answered(was, peer, message@, said, out);
        },
        StreamEvent::Failed { peer, error } => {
            disconnecting_lets_go(was, said, peer, is, out, other, x);
        },
        StreamEvent::Drained => {},
    }
}

/// What a PULL socket makes of what its streams bring: a message is handed over with all its
/// frames, whatever becomes of its peer; a failed stream is reported and its peer let go; and
/// when no stream is left nobody is.
pub proof fn pull_recv_at(
    args: (&mut PullSocket, StreamEvent, u64, u64, &mut Actions),
    r: Received,
    other: u64,
    x: ActionView,
)
    requires
        call_ensures(PullSocket::recv_at, args, r),
    ensures
        ({
            let was = old(args.0).backend@.registry;
            let is = final(args.0).backend@.registry;
            let said = old(args.4)@;
            let out = final(args.4)@;
            match args.1 {
                StreamEvent::Item { peer, message } => {
                    let heard = was.after_item(peer, message@, args.2);
                    let dead = was.heartbeats.contains_key(peer)
                        && heard.heartbeats[peer].tracker.dead_at(args.3) && !(message@
                        is Greeting);
                    &&& message@ matches MessageView::Message(frames)
                        ==> (r matches Received::Message(
                        m,
                    ) && m@ == frames)
                    &&& !(message@ is Message) ==> r is Pending
                    &&& !dead ==> is.peers == was.peers && is.streams == was.streams && answered(
                        was,
                        peer,
                        message@,
                        said,
                        out,
                    )
                    &&& !dead && was.heartbeats.contains_key(peer)
                        ==> is.heartbeats[peer].tracker.last_activity_ms == args.2
                    &&& dead ==> !(is.peers.contains_key(peer)) && !(is.heartbeats.contains_key(
                        peer,
                    )) && !(is.streams.contains_key(peer))
                    &&& other != peer ==> lifecycle::same_at(was, is, other)
                },
                StreamEvent::Failed { peer, error } => r == Received::Error(ZmqError::Codec(error))
                    && let_go(was, said, peer, is, out, other, x),
                StreamEvent::Drained => r is Pending && is.peers == Map::<u64, PeerView>::empty(),
            }
        }),
{
    let was = old(args.0).backend@.registry;
    let is = final(args.0).backend@.registry;
    let said = old(args.4)@;
    let out = final(args.4)@;
    pull::messages_are_handed_over(args.1, was, said, args.2, args.3, is, out, r);
    match args.1 {
        StreamEvent::Item { peer, message } => {
            pull::hearing_keeps_the_peer(
                peer, message, was, said, args.2, args.3, is, out, r, other,
            );
            lifecycle::hearing_touches_one_peer(was, peer, message@, args.2, other);
            lifecycle::hearing_is_activity(was, peer, message@, args.2);
            let heard = was.after_item(peer, message@, args.2);
            lifecycle::going_keeps_the_rest(heard, peer, other);
            if out == said + was.item_actions(peer, message@) {
                hearing_is_answered(was, peer, message@, said, out);
            }
        },
        StreamEvent::Failed { peer, error } => {
            disconnecting_lets_go(was, said, peer, is, out, other, x);
        },
        StreamEvent::Drained => {},
    }
}

/// What an XPUB socket makes of what its streams bring: a message is handed over with all its
/// frames and counts as a request if it is one, a failed stream is reported and its peer let
/// go, and when no stream is left there is no message.
pub proof fn xpub_recv_at(
    args: (&mut XPubSocket, StreamEvent, u64, &mut Actions),
    r: Received,
    topic: Seq<u8>,
    other: u64,
    x: ActionView,
)
    requires
        call_ensures(XPubSocket::recv_at, args, r),
    ensures
        ({
            let was = old(args.0).backend.registry@;
            let is = final(args.0).backend.registry@;
            let said = old(args.3)@;
            let out = final(args.3)@;
            match args.1 {
                StreamEvent::Item { peer, message } => {
                    &&& message@ matches MessageView::Message(frames)
                        ==> (r matches Received::Message(
                        m,
                    ) && m@ == frames)
                    &&& !(message@ is Message) ==> r is Pending
                    &&& is.peers.dom() == was.peers.dom() && is.streams == was.streams
                    &&& was.peers.contains_key(peer) && message@ == MessageView::Message(
                        seq![seq![1u8] + topic],
                    ) ==> is.peers[peer].subscriptions == was.peers[peer].subscriptions + seq![
                        topic,
                    ]
                    &&& was.peers.contains_key(peer) && message@ == MessageView::Message(
                        seq![seq![0u8] + topic],
                    ) ==> is.peers[peer].subscriptions == peers::without_first(
                        was.peers[peer].subscriptions,
                        topic,
                    )
                    &&& was.heartbeats.contains_key(peer)
                        ==> is.heartbeats[peer].tracker.last_activity_ms == args.2
                    &&& other != peer ==> lifecycle::same_at(was, is, other)
                    &&& answered(was, peer, message@, said, out)
                },
                StreamEvent::Failed { peer, error } => r == Received::Error(ZmqError::Codec(error))
                    && let_go(was, said, peer, is, out, other, x),
                StreamEvent::Drained => r == Received::Error(ZmqError::NoMessage) && is == was
                    && out == said,
            }
        }),
{
    let was = old(args.0).backend.registry@;
    let is = final(args.0).backend.registry@;
    let said = old(args.3)@;
    let out = final(args.3)@;
    xpub::messages_are_handed_over(args.1, was, said, args.2, is, out, r);
    match args.1 {
        StreamEvent::Item { peer, message } => {
            xpub::subscriptions_are_kept(
                peer, message, topic, was, said, args.2, is, out, r, topic, other,
            );
            hearing_is_answered(was, peer, message@, said, out);
        },
        StreamEvent::Failed { peer, error } => {
            disconnecting_lets_go(was, said, peer, is, out, other, x);
        },
        StreamEvent::Drained => {},
    }
}

/// A REP socket hands over what stands behind the first empty frame of a request, or behind
/// the first frame where none is empty, and keeps what stands before, and who asked.
pub proof fn rep_recv_at_request(
    args: (&mut RepSocket, StreamEvent, u64, &mut Actions),
    r: Received,
    peer: u64,
    m: ZmqMessage,
    ids: Seq<Seq<u8>>,
    body: Seq<Seq<u8>>,
)
    requires
        call_ensures(RepSocket::recv_at, args, r),
        args.1 == (StreamEvent::Item { peer, message: Message::Message(m) }),
        forall|i: int| 0 <= i < ids.len() ==> (#[trigger] ids[i]).len() > 0,
    ensures
        m@ == ids + seq![Seq::<u8>::empty()] + body ==> (r matches Received::Message(data) && data@
            == body) && final(args.0)@.envelope == Some(ids + seq![Seq::<u8>::empty()])
                && final(args.0)@.current_request == Some(peer),
        m@ == ids && ids.len() > 0 ==> (r matches Received::Message(data) && data@ == ids.skip(1))
            && final(args.0)@.envelope == Some(seq![ids[0]]) && final(args.0)@.current_request
            == Some(peer),
        final(args.0)@.registry.peers == old(args.0)@.registry.peers,
        final(args.0)@.registry.streams == old(args.0)@.registry.streams,
        final(args.3)@ == old(args.3)@,
{
    rep::requests_are_handed_over(
        peer,
        Message::Message(m),
        ids,
        body,
        old(args.0)@,
        old(args.3)@,
        args.2,
        final(args.0)@,
        final(args.3)@,
        r,
    );
}

/// What else comes to a REP socket leaves the request alone: a PING is answered, a failed
/// stream is reported and its peer let go.
pub proof fn rep_recv_at_other(
    args: (&mut RepSocket, StreamEvent, u64, &mut Actions),
    r: Received,
    other: u64,
    x: ActionView,
)
    requires
        call_ensures(RepSocket::recv_at, args, r),
        args.1 matches StreamEvent::Item { message, .. } ==> !(message is Message),
    ensures
        ({
            let was = old(args.0)@;
            let is = final(args.0)@;
            let said = old(args.3)@;
            let out = final(args.3)@;
            &&& is.envelope == was.envelope
            &&& is.current_request == was.current_request
            &&& match args.1 {
                StreamEvent::Item { peer, message } => r is Pending && is.registry.peers
                    == was.registry.peers && answered(was.registry, peer, message@, said, out),
                StreamEvent::Failed { peer, error } => r == Received::Error(ZmqError::Codec(error))
                    && let_go(was.registry, said, peer, is.registry, out, other, x),
                StreamEvent::Drained => r is Pending && is.registry == was.registry && out == said,
            }
        }),
{
    let was = old(args.0)@;
    let is = final(args.0)@;
    let said = old(args.3)@;
    let out = final(args.3)@;
    rep::other_events_keep_the_request(args.1, was, said, args.2, is, out, r, other);
    match args.1 {
        StreamEvent::Item { peer, message } => {
            lifecycle::hearing_touches_one_peer(was.registry, peer, message@, args.2, other);
            hearing_is_answered(was.registry, peer, message@, said, out);
        },
        StreamEvent::Failed { peer, error } => {
            disconnecting_lets_go(was.registry, said, peer, is.registry, out, other, x);
        },
        StreamEvent::Drained => {},
    }
}

/// A reply goes to who asked, behind the envelope of the request, and ends the request.
/// Where nobody asked, or who asked has gone, it is handed back.
pub proof fn rep_send(
    args: (&mut RepSocket, ZmqMessage, &mut Actions),
    r: Result<(), ZmqError>,
)
    requires
        call_ensures(RepSocket::send, args, r),
    ensures
        ({
            let was = old(args.0)@;
            let is = final(args.0)@;
            let said = old(args.2)@;
            let out = final(args.2)@;
            let envelope = match was.envelope {
                Some(envelope) => envelope,
                None => Seq::empty(),
            };
            &&& is.current_request is None
            &&& is.registry == was.registry
            &&& is.reconnects == was.reconnects
            &&& match was.current_request {
                Some(peer) if was.registry.peers.contains_key(peer) => {
                    &&& r is Ok
                    &&& is.envelope is None
                    &&& out == said + seq![
                        ActionView::Send {
                            queue: was.registry.peers[peer].send_queue,
                            message: MessageView::Message(envelope + args.1@),
                        },
                    ]
                },
                asked => {
                    &&& r matches Err(ZmqError::ReturnToSender { reason, message }) && message@
                        == args.1@ && reason@ == (if asked is Some {
                        "Client disconnected"@
                    } else {
                        "Unable to send reply. No request in progress"@
                    })
                    &&& out == said
                    &&& is.envelope == was.envelope
                },
            }
        }),
{
    let was = old(args.0)@;
    if was.envelope is None {
        assert(Seq::<Seq<u8>>::empty() + args.1@ =~= args.1@);
    }
}


/// A request is one frame: an octet that says which, and the topic's octets.
pub proof fn create_subs_message(
    topic: &str,
    asked: ZmqMessage,
    given_up: ZmqMessage,
)
    requires
        call_ensures(
            SubSocketBackend::create_subs_message,
            (topic, SubBackendMsgType::SUBSCRIBE),
            asked,
        ),
        call_ensures(
            SubSocketBackend::create_subs_message,
            (topic, SubBackendMsgType::UNSUBSCRIBE),
            given_up,
        ),
    ensures
        asked@ == seq![seq![1u8] + utf8::encode_utf8(topic@)],
        given_up@ == seq![seq![0u8] + utf8::encode_utf8(topic@)],
{
}

/// A topic that is subscribed to is kept, and every peer is to be asked for it, once each, on
/// its own queue.
pub proof fn subscribe(args: (&mut SubSocket, &str), b: Broadcast, other: Seq<char>, peer: u64)
    requires
        call_ensures(SubSocket::subscribe, args, b),
        old(args.0).backend@.subs.no_duplicates(),
    ensures
        ({
            let was = old(args.0).backend@;
            let is = final(args.0).backend@;
            &&& is.subs.contains(other) <==> was.subs.contains(other) || other == args.1@
            &&& is.subs.no_duplicates()
            &&& is.generic == was.generic
            &&& final(args.0).reconnect_handles == old(args.0).reconnect_handles
            &&& b.message@ == seq![seq![1u8] + utf8::encode_utf8(args.1@)]
            &&& b.sent == 0
            &&& b.queues@.len() == was.generic.registry.peers.dom().len()
            &&& was.generic.registry.peers.contains_key(peer) ==> b.queues@.contains(
                was.generic.registry.peers[peer].send_queue,
            )
        }),
{
    let was = old(args.0).backend@;
    topics::asking_adds_one(was.subs, args.1@, other);
    asking_reaches_all(b, was.generic.registry, args.1@, SubBackendMsgType::SUBSCRIBE, peer);
}

/// A topic that is unsubscribed from is kept no more, and every peer is to be told so, once
/// each, on its own queue.
pub proof fn unsubscribe(args: (&mut SubSocket, &str), b: Broadcast, other: Seq<char>, peer: u64)
    requires
        call_ensures(SubSocket::unsubscribe, args, b),
        old(args.0).backend@.subs.no_duplicates(),
    ensures
        ({
            let was = old(args.0).backend@;
            let is = final(args.0).backend@;
            &&& is.subs.contains(other) <==> was.subs.contains(other) && other != args.1@
            &&& is.subs.no_duplicates()
            &&& is.generic == was.generic
            &&& final(args.0).reconnect_handles == old(args.0).reconnect_handles
            &&& b.message@ == seq![seq![0u8] + utf8::encode_utf8(args.1@)]
            &&& b.sent == 0
            &&& b.queues@.len() == was.generic.registry.peers.dom().len()
            &&& was.generic.registry.peers.contains_key(peer) ==> b.queues@.contains(
                was.generic.registry.peers[peer].send_queue,
            )
        }),
{
    let was = old(args.0).backend@;
    topics::giving_up_takes_one(was.subs, args.1@, other);
    asking_reaches_all(b, was.generic.registry, args.1@, SubBackendMsgType::UNSUBSCRIBE, peer);
}

/// A broadcast has one queue for each peer.
proof fn asking_reaches_all(
    b: Broadcast,
    r: RegistryView,
    topic: Seq<char>,
    kind: SubBackendMsgType,
    peer: u64,
)
    requires
        sub::asks_all(b, r, topic, kind),
    ensures
        b.queues@.len() == r.peers.dom().len(),
        r.peers.contains_key(peer) ==> b.queues@.contains(r.peers[peer].send_queue),
{
    let ids = choose|ids: Seq<u64>| #[trigger]
        registry::enumerates(ids, r.peers.dom()) && b.queues@ == sub::queues_of(r, ids);
    ids.unique_seq_to_set();
    if r.peers.contains_key(peer) {
        assert(ids.to_set().contains(peer));
        let i = choose|i: int| 0 <= i < ids.len() && ids[i] == peer;
        assert(b.queues@[i] == r.peers[peer].send_queue);
    }
}

/// The queue whose turn it is is offered the request, as it is.
pub proof fn broadcast_next(b: Broadcast, next: Option<(u64, ZmqMessage)>)
    requires
        call_ensures(Broadcast::next, (&b,), next),
    ensures
        next is Some <==> b.sent < b.queues@.len(),
        next matches Some((queue, message)) ==> queue == b.queues@[b.sent as int] && message@
            == b.message@,
{
}

/// A request that went out is followed by the next queue's; one that failed is reported, and
/// the turn stays.
pub proof fn broadcast_note(
    args: (&mut Broadcast, Result<(), CodecError>),
    failure: Option<ZmqError>,
)
    requires
        call_ensures(Broadcast::note, args, failure),
        old(args.0).sent < old(args.0).queues.len(),
    ensures
        final(args.0).message == old(args.0).message,
        final(args.0).queues == old(args.0).queues,
        args.1 is Ok ==> failure is None && final(args.0).sent == old(args.0).sent + 1,
        args.1 matches Err(e) ==> failure == Some(ZmqError::Codec(e))
            && final(args.0).sent == old(args.0).sent,
{
}

/// A peer that comes is asked for each topic that is kept, in their order.
pub proof fn subs_requests(b: SubSocketBackend, q: Requests, i: int)
    requires
        call_ensures(SubSocketBackend::subs_requests, (&b,), q),
    ensures
        q.messages@.len() == b@.subs.len(),
        0 <= i < b@.subs.len() ==> q.messages@[i]@ == seq![
            seq![1u8] + utf8::encode_utf8(b@.subs[i]),
        ],
        q.sent == 0,
        !q.failed,
{
    let all = sub::messages_view(q.messages@);
    assert(all.len() == q.messages@.len());
    if 0 <= i < b@.subs.len() {
        assert(all[i] == q.messages@[i]@);
    }
}

/// Requests go out in their order until one fails; they are complete when all of them went
/// out.
pub proof fn requests_next(q: Requests, next: Option<ZmqMessage>, done: bool)
    requires
        call_ensures(Requests::next, (&q,), next),
        call_ensures(Requests::is_complete, (&q,), done),
    ensures
        next is Some <==> !q.failed && q.sent < q.messages@.len(),
        next matches Some(m) ==> m@ == q.messages@[q.sent as int]@,
        done <==> !q.failed && q.sent == q.messages@.len(),
{
}

/// A request that went out is counted, and one that did not ends the asking.
pub proof fn requests_note(args: (&mut Requests, Result<(), CodecError>))
    requires
        call_ensures(Requests::note, args, ()),
        old(args.0).sent < old(args.0).messages.len(),
        !old(args.0).failed,
    ensures
        final(args.0).messages == old(args.0).messages,
        final(args.0).failed <==> args.1 is Err,
        args.1 is Ok ==> final(args.0).sent == old(args.0).sent + 1,
        args.1 is Err ==> final(args.0).sent == old(args.0).sent,
{
}

/// A peer that took all requests comes to a SUB socket; one that did not is closed, and
/// nothing of it is kept.
pub proof fn sub_peer_connected(
    args: (&mut SubSocketBackend, u64, u64, u64, &Requests, u64, u64, &mut Actions),
    other: u64,
)
    requires
        call_ensures(SubSocketBackend::peer_connected, args, ()),
    ensures
        ({
            let was = old(args.0)@;
            let is = final(args.0)@;
            let said = old(args.7)@;
            let out = final(args.7)@;
            let asked = !args.4.failed && args.4.sent == args.4.messages@.len();
            &&& is.subs == was.subs
            &&& asked ==> came(
                was.generic.registry,
                args.1,
                args.2,
                args.5,
                args.6,
                is.generic.registry,
                other,
            )
            &&& asked ==> is.generic.round_robin == was.generic.round_robin + seq![args.1]
            &&& asked && was.generic.fair_queue ==> is.generic.registry.streams.contains_key(args.1)
                && is.generic.registry.streams[args.1] == args.3
            &&& asked && was.generic.fair_queue ==> out.last() == (ActionView::OpenStream {
                peer: args.1,
                stream: args.3,
            })
            &&& !asked ==> is == was && out == said + seq![
                ActionView::CloseSender { queue: args.2 },
                ActionView::CloseStream { stream: args.3 },
            ]
        }),
{
    let was = old(args.0)@.generic;
    let is = final(args.0)@.generic;
    let h = is.registry.heartbeats[args.1];
    if args.4.complete() {
        lifecycle::heartbeats_start_afresh(was.registry, h, args.5, args.6);
        lifecycle::coming_peer_is_kept(
            was.registry,
            args.1,
            peers::plain(args.2),
            h,
            args.3,
            other,
        );
        backend::coming_peer_gets_a_turn(was, args.1, peers::plain(args.2), h, args.3, args.5);
        let asked = was.connect_actions(args.1, args.3, args.5);
        assert(final(args.7)@.last() == asked.last());
    }
}

/// A peer that comes to a PUB socket is kept without topics, and a task is to read its
/// requests until it is told to stop.
pub proof fn pub_peer_connected(
    args: (&mut PubSocketBackend, u64, u64, u64, u64, u64, u64, &mut Actions),
    other: u64,
    x: ActionView,
)
    requires
        call_ensures(PubSocketBackend::peer_connected, args, ()),
    ensures
        ({
            let was = old(args.0).registry@;
            let is = final(args.0).registry@;
            let said = old(args.7)@;
            let out = final(args.7)@;
            let begun = ActionView::StartSubscription { peer: args.1, stream: args.3,
                stop: args.4 };
            &&& came(was, args.1, args.2, args.5, args.6, is, other)
            &&& is.peers[args.1].coro_stop == Some(args.4)
            &&& is.streams == was.streams
            &&& said.len() < out.len() && out.take(said.len() as int) == said
            &&& out.last() == begun
            &&& out.skip(said.len() as int).contains(x) <==> replaces(was, args.1, args.5, x) || x
                == begun
        }),
{
    let was = old(args.0).registry@;
    let is = final(args.0).registry@;
    let said = old(args.7)@;
    let out = final(args.7)@;
    let h = is.heartbeats[args.1];
    let begun = ActionView::StartSubscription { peer: args.1, stream: args.3, stop: args.4 };
    lifecycle::heartbeats_start_afresh(was, h, args.5, args.6);
    lifecycle::coming_peer_is_kept(
        was,
        args.1,
        publisher::subscriber(args.2, args.4),
        h,
        args.3,
        other,
    );
    lifecycle::coming_asks_for_what_is_new(was, args.1, args.5, args.3, x);
    let starts = was.start_actions(args.1, args.5);
    let senders = was.sender_actions(args.1);
    let stops = was.heartbeat_actions(args.1);
    let asked = starts + senders + stops + seq![begun];
    joined(senders + starts, stops, x);
    joined(senders, starts, x);
    joined(starts + senders + stops, seq![begun], x);
    joined(starts + senders, stops, x);
    joined(starts, senders, x);
    assert(seq![begun].contains(x) <==> x == begun) by {
        assert(seq![begun][0] == begun);
    }
    assert(out.take(said.len() as int) =~= said);
    assert(out.skip(said.len() as int) =~= asked);
    assert(out.last() == begun);
}

/// A peer that comes to a REP socket is kept and read.
pub proof fn rep_peer_connected(
    args: (&mut RepSocketBackend, u64, u64, u64, u64, u64, &mut Actions),
    other: u64,
    x: ActionView,
)
    requires
        call_ensures(RepSocketBackend::peer_connected, args, ()),
    ensures
        ({
            let was = old(args.0).registry@;
            let is = final(args.0).registry@;
            let said = old(args.6)@;
            let out = final(args.6)@;
            let opened = ActionView::OpenStream { peer: args.1, stream: args.3 };
            &&& came(was, args.1, args.2, args.4, args.5, is, other)
            &&& is.peers[args.1].coro_stop is None
            &&& is.streams.contains_key(args.1) && is.streams[args.1] == args.3
            &&& said.len() <= out.len() && out.take(said.len() as int) == said
            &&& out.skip(said.len() as int).contains(x) <==> {
                ||| replaces(was, args.1, args.4, x)
                ||| x == opened
                ||| was.streams.contains_key(args.1) && x == (ActionView::CloseStream {
                    stream: was.streams[args.1],
                })
            }
        }),
{
    let was = old(args.0).registry@;
    let is = final(args.0).registry@;
    let said = old(args.6)@;
    let out = final(args.6)@;
    let h = is.heartbeats[args.1];
    lifecycle::heartbeats_start_afresh(was, h, args.4, args.5);
    lifecycle::coming_peer_is_kept(was, args.1, peers::plain(args.2), h, args.3, other);
    lifecycle::coming_asks_for_what_is_new(was, args.1, args.4, args.3, x);
    let connects = was.connect_actions(args.1, args.4);
    let opens = was.open_actions(args.1, args.3);
    joined(connects, opens, x);
    assert(out.take(said.len() as int) =~= said);
    assert(out.skip(said.len() as int) =~= connects + opens);
}

/// A peer that comes to an XPUB socket is kept without topics and read.
pub proof fn xpub_peer_connected(
    args: (&mut XPubSocketBackend, u64, u64, u64, u64, u64, &mut Actions),
    other: u64,
    x: ActionView,
)
    requires
        call_ensures(XPubSocketBackend::peer_connected, args, ()),
    ensures
        ({
            let was = old(args.0).registry@;
            let is = final(args.0).registry@;
            let said = old(args.6)@;
            let out = final(args.6)@;
            let opened = ActionView::OpenStream { peer: args.1, stream: args.3 };
            &&& came(was, args.1, args.2, args.4, args.5, is, other)
            &&& is.peers[args.1].coro_stop is None
            &&& is.streams.contains_key(args.1) && is.streams[args.1] == args.3
            &&& said.len() <= out.len() && out.take(said.len() as int) == said
            &&& out.skip(said.len() as int).contains(x) <==> {
                ||| replaces(was, args.1, args.4, x)
                ||| x == opened
                ||| was.streams.contains_key(args.1) && x == (ActionView::CloseStream {
                    stream: was.streams[args.1],
                })
            }
        }),
{
    let was = old(args.0).registry@;
    let is = final(args.0).registry@;
    let said = old(args.6)@;
    let out = final(args.6)@;
    let h = is.heartbeats[args.1];
    lifecycle::heartbeats_start_afresh(was, h, args.4, args.5);
    lifecycle::coming_peer_is_kept(was, args.1, peers::plain(args.2), h, args.3, other);
    lifecycle::coming_asks_for_what_is_new(was, args.1, args.4, args.3, x);
    let connects = was.connect_actions(args.1, args.4);
    let opens = was.open_actions(args.1, args.3);
    joined(connects, opens, x);
    assert(out.take(said.len() as int) =~= said);
    assert(out.skip(said.len() as int) =~= connects + opens);
}

/// A peer that leaves a PUB socket is let go.
pub proof fn pub_peer_disconnected(
    args: (&mut PubSocketBackend, u64, &mut Actions),
    other: u64,
    x: ActionView,
)
    requires
        call_ensures(PubSocketBackend::peer_disconnected, args, ()),
    ensures
        let_go(
            old(args.0).registry@,
            old(args.2)@,
            args.1,
            final(args.0).registry@,
            final(args.2)@,
            other,
            x,
        ),
{
    disconnecting_lets_go(
        old(args.0).registry@,
        old(args.2)@,
        args.1,
        final(args.0).registry@,
        final(args.2)@,
        other,
        x,
    );
}

/// A peer that leaves a REP socket is let go.
pub proof fn rep_peer_disconnected(
    args: (&mut RepSocketBackend, u64, &mut Actions),
    other: u64,
    x: ActionView,
)
    requires
        call_ensures(RepSocketBackend::peer_disconnected, args, ()),
    ensures
        let_go(
            old(args.0).registry@,
            old(args.2)@,
            args.1,
            final(args.0).registry@,
            final(args.2)@,
            other,
            x,
        ),
{
    disconnecting_lets_go(
        old(args.0).registry@,
        old(args.2)@,
        args.1,
        final(args.0).registry@,
        final(args.2)@,
        other,
        x,
    );
}

/// A peer that leaves an XPUB socket is let go.
pub proof fn xpub_peer_disconnected(
    args: (&mut XPubSocketBackend, u64, &mut Actions),
    other: u64,
    x: ActionView,
)
    requires
        call_ensures(XPubSocketBackend::peer_disconnected, args, ()),
    ensures
        let_go(
            old(args.0).registry@,
            old(args.2)@,
            args.1,
            final(args.0).registry@,
            final(args.2)@,
            other,
            x,
        ),
{
    disconnecting_lets_go(
        old(args.0).registry@,
        old(args.2)@,
        args.1,
        final(args.0).registry@,
        final(args.2)@,
        other,
        x,
    );
}

/// A peer that leaves a SUB socket is let go, and the topics stay.
pub proof fn sub_peer_disconnected(
    args: (&mut SubSocketBackend, u64, &mut Actions),
    other: u64,
    x: ActionView,
)
    requires
        call_ensures(SubSocketBackend::peer_disconnected, args, ()),
    ensures
        let_go(
            old(args.0)@.generic.registry,
            old(args.2)@,
            args.1,
            final(args.0)@.generic.registry,
            final(args.2)@,
            other,
            x,
        ),
        final(args.0)@.subs == old(args.0)@.subs,
        final(args.0)@.generic.round_robin == old(args.0)@.generic.round_robin,
{
    disconnecting_lets_go(
        old(args.0)@.generic.registry,
        old(args.2)@,
        args.1,
        final(args.0)@.generic.registry,
        final(args.2)@,
        other,
        x,
    );
}


/// What a step of receiving on a SUB socket amounts to: as without it, and where nothing is
/// handed over the dead are let go.
pub proof fn sub_recv_step_at(
    args: (&mut SubSocket, QueueEvent, u64, u64, &mut Actions),
    r: Received,
    other: u64,
    x: ActionView,
)
    requires
        call_ensures(SubSocket::recv_step_at, args, r),
    ensures
        ({
            let was = old(args.0).backend@.generic.registry;
            let is = final(args.0).backend@.generic.registry;
            let said = old(args.4)@;
            let out = final(args.4)@;
            match args.1 {
                QueueEvent::Yielded(StreamEvent::Item { peer, message }) => {
                    &&& message@ matches MessageView::Message(frames)
                        ==> (r matches Received::Message(
                        m,
                    ) && m@ == frames)
                    &&& !(message@ is Message) ==> r is Pending
                    &&& other != peer && (!was.heartbeats.contains_key(other)
                        || !was.heartbeats[other].tracker.dead_at(args.3)) ==> lifecycle::same_at(
                        was,
                        is,
                        other,
                    )
                    &&& other != peer && r is Pending && was.heartbeats.contains_key(other)
                        && was.heartbeats[other].tracker.dead_at(args.3) ==> !(
                    is.peers.contains_key(other)) && !(is.heartbeats.contains_key(other)) && !(
                    is.streams.contains_key(other))
                    &&& other != peer && r is Message ==> lifecycle::same_at(was, is, other)
                },
                QueueEvent::Yielded(StreamEvent::Failed { peer, error }) => r == Received::Error(
                    ZmqError::Codec(error),
                ) && let_go(was, said, peer, is, out, other, x),
                QueueEvent::Yielded(StreamEvent::Drained) => r is Pending
                    && is.peers == Map::<u64, PeerView>::empty(),
                QueueEvent::Ended { peer } => r is Pending && let_go(
                    was,
                    said,
                    peer,
                    is,
                    out,
                    other,
                    x,
                ),
            }
        }),
{
    let was = old(args.0).backend@.generic.registry;
    let is = final(args.0).backend@.generic.registry;
    let said = old(args.4)@;
    let out = final(args.4)@;
    match args.1 {
        QueueEvent::Yielded(e) => {
            let (mid, told) = choose|mid: RegistryView, told: Seq<ActionView>| #[trigger]
                sub::received(e, was, said, args.2, mid, told, r) && receive::settled(
                    r,
                    mid,
                    told,
                    args.3,
                    is,
                    out,
                );
            sub::messages_are_handed_over(e, was, said, args.2, mid, told, r);
            receive::only_the_dead_follow(r, mid, told, args.3, is, out, other, x);
            match e {
                StreamEvent::Item { peer, message } => {
                    sub::hearing_keeps_the_peer(
                        peer, message, was, said, args.2, mid, told, r, other,
                    );
                },
                StreamEvent::Failed { peer, error } => {
                    disconnecting_lets_go(was, said, peer, is, out, other, x);
                },
                StreamEvent::Drained => {
                    if r is Pending {
                        assert forall|p: u64| !(is.peers.contains_key(p)) by {
                            receive::only_the_dead_follow(r, mid, told, args.3, is, out, p, x);
                        }
                        assert(is.peers =~= Map::<u64, PeerView>::empty());
                    }
                },
            }
        },
        QueueEvent::Ended { peer } => {
            disconnecting_lets_go(was, said, peer, is, out, other, x);
        },
    }
}

/// What a step of receiving on a PULL socket amounts to: as without it, and where nothing
/// is handed over the dead are let go.
pub proof fn pull_recv_step_at(
    args: (&mut PullSocket, QueueEvent, u64, u64, u64, &mut Actions),
    r: Received,
    other: u64,
    x: ActionView,
)
    requires
        call_ensures(PullSocket::recv_step_at, args, r),
    ensures
        ({
            let was = old(args.0).backend@.registry;
            let is = final(args.0).backend@.registry;
            let said = old(args.5)@;
            let out = final(args.5)@;
            match args.1 {
                QueueEvent::Yielded(StreamEvent::Item { peer, message }) => {
                    &&& message@ matches MessageView::Message(frames)
                        ==> (r matches Received::Message(
                        m,
                    ) && m@ == frames)
                    &&& !(message@ is Message) ==> r is Pending
                    &&& other != peer && (!was.heartbeats.contains_key(other)
                        || !was.heartbeats[other].tracker.dead_at(args.4)) ==> lifecycle::same_at(
                        was,
                        is,
                        other,
                    )
                    &&& other != peer && r is Pending && was.heartbeats.contains_key(other)
                        && was.heartbeats[other].tracker.dead_at(args.4) ==> !(
                    is.peers.contains_key(other)) && !(is.heartbeats.contains_key(other)) && !(
                    is.streams.contains_key(other))
                    &&& other != peer && r is Message ==> lifecycle::same_at(was, is, other)
                },
                QueueEvent::Yielded(StreamEvent::Failed { peer, error }) => r == Received::Error(
                    ZmqError::Codec(error),
                ) && let_go(was, said, peer, is, out, other, x),
                QueueEvent::Yielded(StreamEvent::Drained) => r is Pending
                    && is.peers == Map::<u64, PeerView>::empty(),
                QueueEvent::Ended { peer } => r is Pending && let_go(
                    was,
                    said,
                    peer,
                    is,
                    out,
                    other,
                    x,
                ),
            }
        }),
{
    let was = old(args.0).backend@.registry;
    let is = final(args.0).backend@.registry;
    let said = old(args.5)@;
    let out = final(args.5)@;
    match args.1 {
        QueueEvent::Yielded(e) => {
            let (mid, told) = choose|mid: RegistryView, told: Seq<ActionView>| #[trigger]
                pull::received(e, was, said, args.2, args.3, mid, told, r) && receive::settled(
                    r,
                    mid,
                    told,
                    args.4,
                    is,
                    out,
                );
            pull::messages_are_handed_over(e, was, said, args.2, args.3, mid, told, r);
            receive::only_the_dead_follow(r, mid, told, args.4, is, out, other, x);
            match e {
                StreamEvent::Item { peer, message } => {
                    pull::hearing_keeps_the_peer(
                        peer, message, was, said, args.2, args.3, mid, told, r, other,
                    );
                },
                StreamEvent::Failed { peer, error } => {
                    disconnecting_lets_go(was, said, peer, is, out, other, x);
                },
                StreamEvent::Drained => {
                    if r is Pending {
                        assert forall|p: u64| !(is.peers.contains_key(p)) by {
                            receive::only_the_dead_follow(r, mid, told, args.4, is, out, p, x);
                        }
                        assert(is.peers =~= Map::<u64, PeerView>::empty());
                    }
                },
            }
        },
        QueueEvent::Ended { peer } => {
            disconnecting_lets_go(was, said, peer, is, out, other, x);
        },
    }
}

/// What a step of receiving on an XPUB socket amounts to: as without it, and where nothing
/// is handed over the dead are let go.
pub proof fn xpub_recv_step_at(
    args: (&mut XPubSocket, QueueEvent, u64, u64, &mut Actions),
    r: Received,
    other: u64,
    x: ActionView,
)
    requires
        call_ensures(XPubSocket::recv_step_at, args, r),
    ensures
        ({
            let was = old(args.0).backend.registry@;
            let is = final(args.0).backend.registry@;
            let said = old(args.4)@;
            let out = final(args.4)@;
            match args.1 {
                QueueEvent::Yielded(StreamEvent::Item { peer, message }) => {
                    &&& message@ matches MessageView::Message(frames)
                        ==> (r matches Received::Message(
                        m,
                    ) && m@ == frames)
                    &&& !(message@ is Message) ==> r is Pending
                    &&& other != peer && (!was.heartbeats.contains_key(other)
                        || !was.heartbeats[other].tracker.dead_at(args.3)) ==> lifecycle::same_at(
                        was,
                        is,
                        other,
                    )
                    &&& other != peer && r is Pending && was.heartbeats.contains_key(other)
                        && was.heartbeats[other].tracker.dead_at(args.3) ==> !(
                    is.peers.contains_key(other)) && !(is.heartbeats.contains_key(other)) && !(
                    is.streams.contains_key(other))
                    &&& other != peer && r is Message ==> lifecycle::same_at(was, is, other)
                },
                QueueEvent::Yielded(StreamEvent::Failed { peer, error }) => r == Received::Error(
                    ZmqError::Codec(error),
                ) && let_go(was, said, peer, is, out, other, x),
                QueueEvent::Yielded(StreamEvent::Drained) => r
                    == Received::Error(ZmqError::NoMessage) && is == was && out == said,
                QueueEvent::Ended { peer } => r is Pending && let_go(
                    was,
                    said,
                    peer,
                    is,
                    out,
                    other,
                    x,
                ),
            }
        }),
{
    let was = old(args.0).backend.registry@;
    let is = final(args.0).backend.registry@;
    let said = old(args.4)@;
    let out = final(args.4)@;
    match args.1 {
        QueueEvent::Yielded(e) => {
            let (mid, told) = choose|mid: RegistryView, told: Seq<ActionView>| #[trigger]
                xpub::received(e, was, said, args.2, mid, told, r) && receive::settled(
                    r,
                    mid,
                    told,
                    args.3,
                    is,
                    out,
                );
            xpub::messages_are_handed_over(e, was, said, args.2, mid, told, r);
            receive::only_the_dead_follow(r, mid, told, args.3, is, out, other, x);
            match e {
                StreamEvent::Item { peer, message } => {
                    xpub::subscriptions_are_kept(
                        peer,
                        message,
                        Seq::empty(),
                        was,
                        said,
                        args.2,
                        mid,
                        told,
                        r,
                        Seq::empty(),
                        other,
                    );
                },
                StreamEvent::Failed { peer, error } => {
                    disconnecting_lets_go(was, said, peer, is, out, other, x);
                },
                StreamEvent::Drained => {
                    if r is Pending {
                        assert forall|p: u64| !(is.peers.contains_key(p)) by {
                            receive::only_the_dead_follow(r, mid, told, args.3, is, out, p, x);
                        }
                        assert(is.peers =~= Map::<u64, PeerView>::empty());
                    }
                },
            }
        },
        QueueEvent::Ended { peer } => {
            disconnecting_lets_go(was, said, peer, is, out, other, x);
        },
    }
}


/// What a step of receiving on a REP socket amounts to: a request is handed over as without
/// it, and where nothing is handed over the dead are let go.
pub proof fn rep_recv_step_at(
    args: (&mut RepSocket, QueueEvent, u64, u64, &mut Actions),
    r: Received,
    ids: Seq<Seq<u8>>,
    body: Seq<Seq<u8>>,
    other: u64,
    x: ActionView,
)
    requires
        call_ensures(RepSocket::recv_step_at, args, r),
        forall|i: int| 0 <= i < ids.len() ==> (#[trigger] ids[i]).len() > 0,
    ensures
        ({
            let was = old(args.0)@;
            let is = final(args.0)@;
            let said = old(args.4)@;
            let out = final(args.4)@;
            match args.1 {
                QueueEvent::Yielded(StreamEvent::Item { peer, message }) => {
                    &&& message@ == MessageView::Message(ids + seq![Seq::<u8>::empty()] + body)
                        ==> (r matches Received::Message(data) && data@ == body) && is.envelope
                        == Some(ids + seq![Seq::<u8>::empty()]) && is.current_request == Some(peer)
                    &&& message@ == MessageView::Message(ids) && ids.len() > 0 ==> (
                    r matches Received::Message(data) && data@ == ids.skip(1)) && is.envelope
                        == Some(seq![ids[0]]) && is.current_request == Some(peer)
                    &&& message@ is Message ==> is.registry.peers == was.registry.peers && out
                        == said
                    &&& !(message@ is Message) ==> r is Pending && is.envelope == was.envelope
                        && is.current_request == was.current_request
                },
                QueueEvent::Yielded(StreamEvent::Failed { peer, error }) => r == Received::Error(
                    ZmqError::Codec(error),
                ) && let_go(was.registry, said, peer, is.registry, out, other, x),
                QueueEvent::Yielded(StreamEvent::Drained) => r is Pending && is.envelope
                    == was.envelope && is.current_request == was.current_request && (
                !was.registry.heartbeats.contains_key(other)
                    || !was.registry.heartbeats[other].tracker.dead_at(args.3)
                    ==> lifecycle::same_at(was.registry, is.registry, other)),
                QueueEvent::Ended { peer } => r is Pending && let_go(
                    was.registry,
                    said,
                    peer,
                    is.registry,
                    out,
                    other,
                    x,
                ) && is.envelope == was.envelope && is.current_request == was.current_request,
            }
        }),
{
    let was = old(args.0)@;
    let is = final(args.0)@;
    let said = old(args.4)@;
    let out = final(args.4)@;
    match args.1 {
        QueueEvent::Yielded(e) => {
            let (mid, told) = choose|mid: RepView, told: Seq<ActionView>| #[trigger]
                rep::received(e, was, said, args.2, mid, told, r) && is == (RepView {
                    registry: is.registry,
                    ..mid
                }) && receive::settled(r, mid.registry, told, args.3, is.registry, out);
            receive::only_the_dead_follow(
                r,
                mid.registry,
                told,
                args.3,
                is.registry,
                out,
                other,
                x,
            );
            match e {
                StreamEvent::Item { peer, message } => {
                    if message is Message {
                        rep::requests_are_handed_over(
                            peer,
                            message,
                            ids,
                            body,
                            was,
                            said,
                            args.2,
                            mid,
                            told,
                            r,
                        );
                    }
                },
                StreamEvent::Failed { peer, error } => {
                    disconnecting_lets_go(was.registry, said, peer, is.registry, out, other, x);
                },
                StreamEvent::Drained => {},
            }
        },
        QueueEvent::Ended { peer } => {
            disconnecting_lets_go(was.registry, said, peer, is.registry, out, other, x);
        },
    }
}

/// All senders are closed: the action is one that closing asks for.
pub open spec fn closes_a_sender(r: RegistryView, x: ActionView) -> bool {
    match x {
        ActionView::CloseSender { queue } => exists|peer: u64| #[trigger]
            r.peers.contains_key(peer) && r.peers[peer].send_queue == queue,
        ActionView::StopSubscription { stop } => exists|peer: u64| #[trigger]
            r.peers.contains_key(peer) && r.peers[peer].coro_stop == Some(stop),
        _ => false,
    }
}

/// All streams are closed: the action is one that closing asks for.
pub open spec fn closes_a_stream(r: RegistryView, x: ActionView) -> bool {
    x matches ActionView::CloseStream { stream } && exists|peer: u64| #[trigger]
        r.streams.contains_key(peer) && r.streams[peer] == stream
}

/// Tasks are stopped by their handles.
proof fn stopping_tasks(handles: Seq<ReconnectHandle>, x: ActionView)
    ensures
        reconnect::stop_actions(handles).contains(x) <==> exists|i: int|
            0 <= i < handles.len() && x == (ActionView::StopReconnect {
                task: (#[trigger] handles[i]).task,
            }),
{
    let stops = reconnect::stop_actions(handles);
    if exists|i: int|
        0 <= i < handles.len() && x == (ActionView::StopReconnect {
            task: (#[trigger] handles[i]).task,
        }) {
        let i = choose|i: int|
            0 <= i < handles.len() && x == (ActionView::StopReconnect {
                task: (#[trigger] handles[i]).task,
            });
        assert(stops[i] == x);
    }
    if stops.contains(x) {
        let i = choose|i: int| 0 <= i < stops.len() && stops[i] == x;
        assert(x == (ActionView::StopReconnect { task: handles[i].task }));
    }
}

/// A PUB socket that is closed forgets its peers, and asks for all their queues to be
/// closed and its reconnection tasks to stop, and for nothing else.
pub proof fn pub_close(args: (&mut PubSocket, &mut Actions), x: ActionView)
    requires
        call_ensures(PubSocket::close, args, ()),
    ensures
        ({
            let was = old(args.0)@.registry;
            let is = final(args.0)@.registry;
            let said = old(args.1)@;
            let out = final(args.1)@;
            &&& is.peers == Map::<u64, PeerView>::empty()
            &&& is.heartbeats == was.heartbeats
            &&& is.notifiers == was.notifiers
            &&& is.monitor == was.monitor
            &&& said.len() <= out.len() && out.take(said.len() as int) == said
            &&& is.streams == was.streams
            &&& final(args.0)@.reconnects.len() == 0
            &&& out.skip(said.len() as int).contains(x) <==> {
                ||| closes_a_sender(was, x)
                ||| exists|i: int|
                    0 <= i < old(args.0)@.reconnects.len() && x == (ActionView::StopReconnect {
                        task: (#[trigger] old(args.0)@.reconnects[i]).task,
                    })
            }
        }),
{
    let was = old(args.0)@.registry;
    let said = old(args.1)@;
    let out = final(args.1)@;
    let handles = old(args.0)@.reconnects;
    let stops = reconnect::stop_actions(handles);
    let ids = choose|ids: Seq<u64>| #[trigger]
        registry::enumerates(ids, was.peers.dom())
            && out == said + stops + was.all_sender_actions(ids);
    lifecycle::senders_are_closed(was, ids, x);
    let closes = was.all_sender_actions(ids);
    assert(out.take(said.len() as int) =~= said);
    assert(out.skip(said.len() as int) =~= stops + closes);
    joined(stops, closes, x);
    stopping_tasks(handles, x);
}

/// A REP socket that is closed forgets its peers, and asks for all their queues and streams to be
/// closed and its reconnection tasks to stop, and for nothing else.
pub proof fn rep_close(args: (&mut RepSocket, &mut Actions), x: ActionView)
    requires
        call_ensures(RepSocket::close, args, ()),
    ensures
        ({
            let was = old(args.0)@.registry;
            let is = final(args.0)@.registry;
            let said = old(args.1)@;
            let out = final(args.1)@;
            &&& is.peers == Map::<u64, PeerView>::empty()
            &&& is.heartbeats == was.heartbeats
            &&& is.notifiers == was.notifiers
            &&& is.monitor == was.monitor
            &&& said.len() <= out.len() && out.take(said.len() as int) == said
            &&& is.streams == Map::<u64, u64>::empty()
            &&& final(args.0)@.reconnects.len() == 0
            &&& out.skip(said.len() as int).contains(x) <==> {
                ||| closes_a_sender(was, x)
                ||| closes_a_stream(was, x)
                ||| exists|i: int|
                    0 <= i < old(args.0)@.reconnects.len() && x == (ActionView::StopReconnect {
                        task: (#[trigger] old(args.0)@.reconnects[i]).task,
                    })
            }
        }),
{
    let was = old(args.0)@.registry;
    let said = old(args.1)@;
    let out = final(args.1)@;
    let handles = old(args.0)@.reconnects;
    let stops = reconnect::stop_actions(handles);
    let (ids, fed) = choose|ids: Seq<u64>, fed: Seq<u64>| #[trigger]
        registry::enumerates(ids, was.peers.dom()) && #[trigger] registry::enumerates(
            fed,
            was.streams.dom(),
        ) && out == said + stops + was.close_actions(ids, fed);
    lifecycle::closing_closes_all(was, ids, fed, x);
    let closes = was.close_actions(ids, fed);
    assert(out.take(said.len() as int) =~= said);
    assert(out.skip(said.len() as int) =~= stops + closes);
    joined(stops, closes, x);
    stopping_tasks(handles, x);
}

/// A SUB socket that is closed forgets its peers, and asks for all their queues and streams to be
/// closed and its reconnection tasks to stop, and for nothing else.
pub proof fn sub_close(args: (&mut SubSocket, &mut Actions), x: ActionView)
    requires
        call_ensures(SubSocket::close, args, ()),
    ensures
        ({
            let was = old(args.0).backend@.generic.registry;
            let is = final(args.0).backend@.generic.registry;
            let said = old(args.1)@;
            let out = final(args.1)@;
            &&& is.peers == Map::<u64, PeerView>::empty()
            &&& is.heartbeats == was.heartbeats
            &&& is.notifiers == was.notifiers
            &&& is.monitor == was.monitor
            &&& said.len() <= out.len() && out.take(said.len() as int) == said
            &&& is.streams == Map::<u64, u64>::empty()
            &&& final(args.0).reconnect_handles@.len() == 0
            &&& out.skip(said.len() as int).contains(x) <==> {
                ||| closes_a_sender(was, x)
                ||| closes_a_stream(was, x)
                ||| exists|i: int|
                    0 <= i < old(args.0).reconnect_handles@.len()
                        && x == (ActionView::StopReconnect {
                        task: (#[trigger] old(args.0).reconnect_handles@[i]).task,
                    })
            }
        }),
{
    let was = old(args.0).backend@.generic.registry;
    let said = old(args.1)@;
    let out = final(args.1)@;
    let handles = old(args.0).reconnect_handles@;
    let stops = reconnect::stop_actions(handles);
    let (ids, fed) = choose|ids: Seq<u64>, fed: Seq<u64>| #[trigger]
        registry::enumerates(ids, was.peers.dom()) && #[trigger] registry::enumerates(
            fed,
            was.streams.dom(),
        ) && out == said + stops + was.close_actions(ids, fed);
    lifecycle::closing_closes_all(was, ids, fed, x);
    let closes = was.close_actions(ids, fed);
    assert(out.take(said.len() as int) =~= said);
    assert(out.skip(said.len() as int) =~= stops + closes);
    joined(stops, closes, x);
    stopping_tasks(handles, x);
}

/// An XPUB socket that is closed forgets its peers, and asks for all their queues to be
/// closed, and for nothing else.
pub proof fn xpub_close(args: (&mut XPubSocket, &mut Actions), x: ActionView)
    requires
        call_ensures(XPubSocket::close, args, ()),
    ensures
        ({
            let was = old(args.0).backend.registry@;
            let is = final(args.0).backend.registry@;
            let said = old(args.1)@;
            let out = final(args.1)@;
            &&& is.peers == Map::<u64, PeerView>::empty()
            &&& is.heartbeats == was.heartbeats
            &&& is.notifiers == was.notifiers
            &&& is.monitor == was.monitor
            &&& said.len() <= out.len() && out.take(said.len() as int) == said
            &&& is.streams == was.streams
            &&& out.skip(said.len() as int).contains(x) <==> {
                ||| closes_a_sender(was, x)
            }
        }),
{
    let was = old(args.0).backend.registry@;
    let said = old(args.1)@;
    let out = final(args.1)@;
    let ids = choose|ids: Seq<u64>| #[trigger]
        registry::enumerates(ids, was.peers.dom()) && out == said + was.all_sender_actions(ids);
    lifecycle::senders_are_closed(was, ids, x);
    let closes = was.all_sender_actions(ids);
    assert(out.take(said.len() as int) =~= said);
    assert(out.skip(said.len() as int) =~= closes);
}

/// A backend that is shut down forgets its peers and streams, and asks for all queues and
/// streams to be closed, and for nothing else.
pub proof fn shutdown(args: (&mut GenericSocketBackend, &mut Actions), x: ActionView)
    requires
        call_ensures(GenericSocketBackend::shutdown, args, ()),
    ensures
        ({
            let was = old(args.0)@.registry;
            let is = final(args.0)@.registry;
            let said = old(args.1)@;
            let out = final(args.1)@;
            &&& is.peers == Map::<u64, PeerView>::empty()
            &&& is.heartbeats == was.heartbeats
            &&& is.notifiers == was.notifiers
            &&& is.monitor == was.monitor
            &&& said.len() <= out.len() && out.take(said.len() as int) == said
            &&& is.streams == Map::<u64, u64>::empty()
            &&& out.skip(said.len() as int).contains(x) <==> {
                ||| closes_a_sender(was, x)
                ||| closes_a_stream(was, x)
            }
        }),
{
    let was = old(args.0)@.registry;
    let said = old(args.1)@;
    let out = final(args.1)@;
    let (ids, fed) = choose|ids: Seq<u64>, fed: Seq<u64>| #[trigger]
        registry::enumerates(ids, was.peers.dom()) && #[trigger] registry::enumerates(
            fed,
            was.streams.dom(),
        ) && out == said + was.close_actions(ids, fed);
    lifecycle::closing_closes_all(was, ids, fed, x);
    let closes = was.close_actions(ids, fed);
    assert(out.take(said.len() as int) =~= said);
    assert(out.skip(said.len() as int) =~= closes);
}

/// A connection of a PUB socket is kept with the task that restores it, and whoever monitors
/// the socket is told.
pub proof fn pub_connected(args: (&mut PubSocket, String, u64, ReconnectHandle, &mut Actions))
    requires
        call_ensures(PubSocket::connected, args, ()),
    ensures
        ({
            let said = old(args.4)@;
            &&& final(args.0)@.reconnects == old(args.0)@.reconnects + seq![args.3]
            &&& final(args.0)@.registry == old(args.0)@.registry
            &&& final(args.4)@ == (match old(args.0)@.registry.monitor {
                Some(monitor) => said + seq![
                    ActionView::Emit {
                        monitor,
                        event: SocketEventView::Connected { endpoint: args.1@, peer: args.2 },
                    },
                ],
                None => said,
            })
        }),
{
    assert(final(args.0)@.reconnects =~= old(args.0)@.reconnects + seq![args.3]);
}

/// A connection of a REP socket is kept with the task that restores it, and whoever monitors
/// the socket is told.
pub proof fn rep_connected(args: (&mut RepSocket, String, u64, ReconnectHandle, &mut Actions))
    requires
        call_ensures(RepSocket::connected, args, ()),
    ensures
        ({
            let said = old(args.4)@;
            &&& final(args.0)@.reconnects == old(args.0)@.reconnects + seq![args.3]
            &&& final(args.0)@.registry == old(args.0)@.registry
            &&& final(args.4)@ == (match old(args.0)@.registry.monitor {
                Some(monitor) => said + seq![
                    ActionView::Emit {
                        monitor,
                        event: SocketEventView::Connected { endpoint: args.1@, peer: args.2 },
                    },
                ],
                None => said,
            })
        }),
{
    assert(final(args.0)@.reconnects =~= old(args.0)@.reconnects + seq![args.3]);
}

/// A connection of a SUB socket is kept with the task that restores it, and whoever monitors
/// the socket is told.
pub proof fn sub_connected(args: (&mut SubSocket, String, u64, ReconnectHandle, &mut Actions))
    requires
        call_ensures(SubSocket::connected, args, ()),
    ensures
        ({
            let said = old(args.4)@;
            &&& final(args.0).reconnect_handles@ == old(args.0).reconnect_handles@ + seq![args.3]
            &&& final(args.0).backend == old(args.0).backend
            &&& final(args.4)@ == (match old(args.0).backend@.generic.registry.monitor {
                Some(monitor) => said + seq![
                    ActionView::Emit {
                        monitor,
                        event: SocketEventView::Connected { endpoint: args.1@, peer: args.2 },
                    },
                ],
                None => said,
            })
        }),
{
    assert(final(args.0).reconnect_handles@ =~= old(args.0).reconnect_handles@ + seq![args.3]);
}

/// A PING goes to a known peer's queue with its TTL; to nobody else can one be sent.
pub proof fn send_ping<P: PeerPolicy>(
    args: (&Registry<P>, u64, Option<u16>, &mut Actions),
    r: Result<(), IoErrorKind>,
)
    requires
        call_ensures(Registry::<P>::send_ping, args, r),
    ensures
        ({
            let known = args.0@.peers;
            let said = old(args.3)@;
            let out = final(args.3)@;
            &&& known.contains_key(args.1) ==> r is Ok && out.len() == said.len() + 1
                && out.drop_last() == said
                    && (out.last() matches ActionView::Send { queue, message }
                && queue == known[args.1].send_queue && (message matches MessageView::Command(c)
                && c.name == ZmqCommandName::PING && c.ttl == args.2 && c.context is None))
            &&& !known.contains_key(args.1) ==> r == Err::<(), IoErrorKind>(
                IoErrorKind::ConnectionAborted,
            ) && out == said
        }),
{
    let said = old(args.3)@;
    let out = final(args.3)@;
    lifecycle::pings_go_to_the_peer(args.0@, args.1, args.2);
    if args.0@.peers.contains_key(args.1) {
        assert(out.drop_last() =~= said);
    } else {
        assert(out =~= said);
    }
}

/// A check for timeouts lets exactly the dead go.
pub proof fn check_timeouts_at<P: PeerPolicy>(
    args: (&mut Registry<P>, u64, &mut Actions),
    peer: u64,
    x: ActionView,
)
    requires
        call_ensures(Registry::<P>::check_timeouts_at, args, ()),
    ensures
        ({
            let was = old(args.0)@;
            let is = final(args.0)@;
            let said = old(args.2)@;
            let out = final(args.2)@;
            let dead = was.heartbeats.contains_key(peer) && was.heartbeats[peer].tracker.dead_at(
                args.1,
            );
            &&& dead ==> !(is.peers.contains_key(peer)) && !(is.heartbeats.contains_key(peer)) && !(
            is.streams.contains_key(peer))
            &&& !dead ==> lifecycle::same_at(was, is, peer)
            &&& said.len() <= out.len() && out.take(said.len() as int) == said
            &&& out.skip(said.len() as int).contains(x) <==> exists|p: u64|
                was.heartbeats.contains_key(p) && was.heartbeats[p].tracker.dead_at(args.1)
                    && #[trigger] lifecycle::goes_with(was, p, x)
        }),
{
    lifecycle::sweep_takes_exactly_the_dead(
        old(args.0)@,
        args.1,
        final(args.0)@,
        old(args.2)@,
        final(args.2)@,
        peer,
        x,
    );
}

/// A heartbeat that timed out ends, with its peer let go.
pub proof fn heartbeat_timeout<P: PeerPolicy>(
    args: (&mut Registry<P>, u64, &mut Actions),
    stop: bool,
    other: u64,
    x: ActionView,
)
    requires
        call_ensures(Registry::<P>::heartbeat_timeout, args, stop),
    ensures
        stop,
        let_go(old(args.0)@, old(args.2)@, args.1, final(args.0)@, final(args.2)@, other, x),
{
    disconnecting_lets_go(
        old(args.0)@,
        old(args.2)@,
        args.1,
        final(args.0)@,
        final(args.2)@,
        other,
        x,
    );
}

/// A notifier that is registered is kept for its peer, one that is taken back is kept no
/// more, and a monitor takes the place of the one before.
pub proof fn notifiers_and_monitors<P: PeerPolicy>(
    on: (&mut Registry<P>, u64, u64),
    off: (&mut Registry<P>, u64),
    seen: (&mut Registry<P>, u64),
    replaced: Option<u64>,
    other: u64,
)
    requires
        call_ensures(Registry::<P>::register_disconnect_notifier, on, ()),
        call_ensures(Registry::<P>::unregister_disconnect_notifier, off, ()),
        call_ensures(Registry::<P>::set_monitor, seen, replaced),
    ensures
        final(on.0)@.notifiers == old(on.0)@.notifiers.insert(on.1, on.2),
        final(on.0)@.peers == old(on.0)@.peers,
        final(on.0)@.heartbeats == old(on.0)@.heartbeats,
        final(on.0)@.streams == old(on.0)@.streams,
        final(off.0)@.notifiers == old(off.0)@.notifiers.remove(off.1),
        final(off.0)@.peers == old(off.0)@.peers,
        final(off.0)@.heartbeats == old(off.0)@.heartbeats,
        final(off.0)@.streams == old(off.0)@.streams,
        final(seen.0)@.monitor == Some(seen.1),
        replaced == old(seen.0)@.monitor,
        lifecycle::same_at(old(seen.0)@, final(seen.0)@, other),
{
}

/// A registry moves a heartbeat task on only while it runs the peer's heartbeat, and touches
/// no other tracker.
pub proof fn registry_heartbeat_step_at<P: PeerPolicy>(
    args: (&mut Registry<P>, u64, u64, HeartbeatEvent, u64, u64),
    action: HeartbeatAction,
    other: u64,
)
    requires
        call_ensures(Registry::<P>::heartbeat_step_at, args, action),
    ensures
        ({
            let was = old(args.0)@;
            let is = final(args.0)@;
            let t = was.heartbeats[args.1].tracker;
            let runs = was.heartbeats.contains_key(args.1) && was.heartbeats[args.1].handle is Some
                && was.heartbeats[args.1].handle->0.task == args.2;
            &&& is.peers == was.peers && is.streams == was.streams && is.notifiers
                == was.notifiers
            &&& other != args.1 && was.heartbeats.contains_key(other)
                ==> is.heartbeats.contains_key(other) && is.heartbeats[other]
                == was.heartbeats[other]
            &&& !runs ==> is == was && (action is ReportFailure <==> args.3 == (
            HeartbeatEvent::PingFinished { sent: false })) && (action is ReportFailure || action
                is Stop)
            &&& runs ==> is.heartbeats[args.1].handle == was.heartbeats[args.1].handle
            &&& runs && args.3 is CheckDue ==> (action is ReportTimeout <==> t.dead_at(args.4)) && (
            action is SendPing <==> !t.dead_at(args.4) && t.ping_due_at(args.5))
            &&& runs && args.3 == (HeartbeatEvent::PingFinished { sent: true })
                ==> is.heartbeats[args.1].tracker.last_ping_ms == args.4 && (t.unanswered_pings
                < u32::MAX ==> is.heartbeats[args.1].tracker.unanswered_pings
                == t.unanswered_pings + 1)
            &&& runs && args.3 != (HeartbeatEvent::PingFinished { sent: true })
                ==> is.heartbeats[args.1].tracker == t
        }),
{
    heartbeats::one_task_runs_a_heartbeat(
        old(args.0)@.heartbeats,
        args.1,
        args.2,
        args.2,
        args.3,
    );
}

/// Sockets are made with their kind's policy and without peers, topics, requests, monitors or
/// tasks.
pub proof fn made_with_options(
    options: SocketOptions,
    p: PubSocket,
    xp: XPubSocket,
    s: SubSocket,
    pl: PullSocket,
    rp: RepSocket,
    peer: u64,
)
    requires
        call_ensures(PubSocket::with_options, (options,), p),
        call_ensures(XPubSocket::with_options, (options,), xp),
        call_ensures(SubSocket::with_options, (options,), s),
        call_ensures(PullSocket::with_options, (options,), pl),
        call_ensures(RepSocket::with_options, (options,), rp),
    ensures
        made(p@.registry, Policy::Standard, options, peer),
        p@.reconnects.len() == 0,
        made(xp.backend.registry@, Policy::Silent, options, peer),
        made(s.backend@.generic.registry, Policy::Standard, options, peer),
        s.backend@.subs.len() == 0,
        s.backend@.generic.round_robin.len() == 0,
        s.backend@.generic.fair_queue,
        s.backend@.generic.socket_type == SocketType::SUB,
        s.reconnect_handles@.len() == 0,
        made(pl.backend@.registry, Policy::Standard, options, peer),
        pl.backend@.fair_queue,
        pl.backend@.socket_type == SocketType::PULL,
        made(rp@.registry, Policy::Reply, options, peer),
        rp@.envelope is None,
        rp@.current_request is None,
        rp@.reconnects.len() == 0,
{
}

/// Nobody is known, and what was chosen is kept.
pub open spec fn made(
    r: RegistryView,
    policy: Policy,
    options: SocketOptions,
    peer: u64,
) -> bool {
    &&& r.policy == policy
    &&& r.socket_options == options
    &&& r.monitor is None
    &&& !(r.peers.contains_key(peer))
    &&& !(r.heartbeats.contains_key(peer))
    &&& !(r.streams.contains_key(peer))
    &&& !(r.notifiers.contains_key(peer))
}


/// A table gives back what was put in, and of a peer its queue, its task, and its queue for
/// the frames that it wants.
pub proof fn peer_table_lookups(
    t: PeerTable,
    id: u64,
    frame: &[u8],
    queue: Option<u64>,
    stop: Option<u64>,
    wanted: Option<u64>,
    ids: Vec<u64>,
)
    requires
        call_ensures(PeerTable::send_queue, (&t, id), queue),
        call_ensures(PeerTable::coro_stop, (&t, id), stop),
        call_ensures(PeerTable::queue_for, (&t, id, frame), wanted),
        call_ensures(PeerTable::ids, (&t,), ids),
    ensures
        queue is Some <==> t@.contains_key(id),
        queue matches Some(q) ==> q == t@[id].send_queue,
        t@.contains_key(id) ==> stop == t@[id].coro_stop,
        !t@.contains_key(id) ==> stop is None,
        wanted is Some <==> t@.contains_key(id) && exists|topic: Seq<u8>, rest: Seq<u8>|
            #[trigger] t@[id].subscriptions.contains(topic) && frame@ == #[trigger] (topic + rest),
        wanted matches Some(q) ==> q == t@[id].send_queue,
        ids@.contains(id) <==> t@.contains_key(id),
        forall|i: int, j: int| 0 <= i < j < ids@.len() ==> ids@[i] != ids@[j],
{
    if t@.contains_key(id) {
        peers::wanted_frames_begin_with_a_topic(t@[id], frame@);
    }
    assert(ids@.to_set().contains(id) <==> ids@.contains(id));
}

/// A table keeps one entry for each peer, hands back what it replaces or removes, and is
/// empty when it is new or cleared.
pub proof fn peer_table_entries(
    put: (&mut PeerTable, u64, Peer),
    replaced: Option<Peer>,
    taken: (&mut PeerTable, u64),
    removed: Option<Peer>,
    cleared: (&mut PeerTable,),
    id: u64,
    new: PeerTable,
    send_queue: u64,
    p: Peer,
)
    requires
        call_ensures(PeerTable::insert, put, replaced),
        call_ensures(PeerTable::remove, taken, removed),
        call_ensures(PeerTable::clear, cleared, ()),
        call_ensures(PeerTable::new, (), new),
        call_ensures(Peer::new, (send_queue,), p),
    ensures
        final(put.0)@ == old(put.0)@.insert(put.1, put.2@),
        replaced is Some <==> old(put.0)@.contains_key(put.1),
        replaced matches Some(q) ==> q@ == old(put.0)@[put.1],
        final(taken.0)@ == old(taken.0)@.remove(taken.1),
        removed is Some <==> old(taken.0)@.contains_key(taken.1),
        removed matches Some(q) ==> q@ == old(taken.0)@[taken.1],
        !(final(cleared.0)@.contains_key(id)),
        !(new@.contains_key(id)),
        p@.send_queue == send_queue,
        p@.subscriptions.len() == 0,
        p@.coro_stop is None,
{
}

/// A request that a table is told of reaches the peer that made it, and no other.
pub proof fn peer_table_requests(
    on: (&mut PeerTable, u64, Vec<u8>),
    off: (&mut PeerTable, u64, &[u8]),
    other: u64,
)
    requires
        call_ensures(PeerTable::subscribe, on, ()),
        call_ensures(PeerTable::unsubscribe, off, ()),
    ensures
        final(on.0)@.dom() == old(on.0)@.dom(),
        old(on.0)@.contains_key(on.1)
            ==> final(on.0)@[on.1].subscriptions
            == old(on.0)@[on.1].subscriptions + seq![on.2@]
            && final(on.0)@[on.1].send_queue == old(on.0)@[on.1].send_queue,
        other != on.1 && old(on.0)@.contains_key(other)
            ==> final(on.0)@[other] == old(on.0)@[other],
        final(off.0)@.dom() == old(off.0)@.dom(),
        old(off.0)@.contains_key(off.1) ==> final(off.0)@[off.1].subscriptions
            == peers::without_first(old(off.0)@[off.1].subscriptions, off.2@)
                && final(off.0)@[off.1].send_queue == old(off.0)@[off.1].send_queue,
        other != off.1 && old(off.0)@.contains_key(other)
            ==> final(off.0)@[other] == old(off.0)@[other],
{
    peers::requests_reach_one_peer(old(on.0)@, on.1, on.2@, other);
    peers::requests_reach_one_peer(old(off.0)@, off.1, off.2@, other);
}

/// An envelope ends behind the first empty frame, or behind the first frame where none is
/// empty.
pub proof fn envelope_end(m: ZmqMessage, at: usize, ids: Seq<Seq<u8>>, body: Seq<Seq<u8>>)
    requires
        call_ensures(rep::envelope_end, (&m,), at),
        forall|i: int| 0 <= i < ids.len() ==> (#[trigger] ids[i]).len() > 0,
    ensures
        m@ == ids + seq![Seq::<u8>::empty()] + body ==> at == ids.len() + 1,
        m@ == ids ==> at == 1,
{
    if m@ == ids + seq![Seq::<u8>::empty()] + body {
        rep::envelope_reaches_the_first_empty_frame(ids, body, m@, at as int);
        assert(m@.take(at as int).len() == ids.len() + 1);
    }
}

/// Every peer is to be told of a request, once each, on its own queue.
pub proof fn process_subs(
    s: SubSocket,
    topic: &str,
    kind: SubBackendMsgType,
    b: Broadcast,
    peer: u64,
)
    requires
        call_ensures(SubSocket::process_subs, (&s, topic, kind), b),
    ensures
        b.message@ == seq![
            seq![
                if kind is SUBSCRIBE {
                    1u8
                } else {
                    0u8
                },
            ] + utf8::encode_utf8(topic@),
        ],
        b.sent == 0,
        b.queues@.len() == s.backend@.generic.registry.peers.dom().len(),
        s.backend@.generic.registry.peers.contains_key(peer) ==> b.queues@.contains(
            s.backend@.generic.registry.peers[peer].send_queue,
        ),
{
    asking_reaches_all(b, s.backend@.generic.registry, topic@, kind, peer);
}

/// Backends are of their kind.
pub proof fn kinds(
    g: GenericSocketBackend,
    s: SubSocketBackend,
    p: PubSocketBackend,
    xp: XPubSocketBackend,
    rp: RepSocketBackend,
    kinds: (SocketType, SocketType, SocketType, SocketType, SocketType),
)
    requires
        call_ensures(GenericSocketBackend::socket_type, (&g,), kinds.0),
        call_ensures(SubSocketBackend::socket_type, (&s,), kinds.1),
        call_ensures(PubSocketBackend::socket_type, (&p,), kinds.2),
        call_ensures(XPubSocketBackend::socket_type, (&xp,), kinds.3),
        call_ensures(RepSocketBackend::socket_type, (&rp,), kinds.4),
    ensures
        kinds.0 == g@.socket_type,
        kinds.1 == s@.generic.socket_type,
        kinds.2 == SocketType::PUB,
        kinds.3 == SocketType::XPUB,
        kinds.4 == SocketType::REP,
{
}

/// Backends keep the options that they were made with.
pub proof fn options_are_kept(
    g: GenericSocketBackend,
    s: SubSocketBackend,
    p: PubSocketBackend,
    xp: XPubSocketBackend,
    rp: RepSocketBackend,
    options: (&SocketOptions, &SocketOptions, &SocketOptions, &SocketOptions, &SocketOptions),
)
    requires
        call_ensures(GenericSocketBackend::socket_options, (&g,), options.0),
        call_ensures(SubSocketBackend::socket_options, (&s,), options.1),
        call_ensures(PubSocketBackend::socket_options, (&p,), options.2),
        call_ensures(XPubSocketBackend::socket_options, (&xp,), options.3),
        call_ensures(RepSocketBackend::socket_options, (&rp,), options.4),
    ensures
        *options.0 == g@.registry.socket_options,
        *options.1 == s@.generic.registry.socket_options,
        *options.2 == p.registry@.socket_options,
        *options.3 == xp.registry@.socket_options,
        *options.4 == rp.registry@.socket_options,
{
}

/// Backends are made with what they are given, and without peers.
pub proof fn backends_are_made(
    fair_queue: bool,
    kind: SocketType,
    options: SocketOptions,
    g: GenericSocketBackend,
    s: SubSocketBackend,
    p: PubSocketBackend,
    xp: XPubSocketBackend,
    rp: RepSocketBackend,
    peer: u64,
)
    requires
        call_ensures(GenericSocketBackend::with_options, (fair_queue, kind, options), g),
        call_ensures(SubSocketBackend::with_options, (fair_queue, kind, options), s),
        call_ensures(PubSocketBackend::with_options, (options,), p),
        call_ensures(XPubSocketBackend::with_options, (options,), xp),
        call_ensures(RepSocketBackend::with_options, (options,), rp),
    ensures
        made(g@.registry, Policy::Standard, options, peer),
        g@.socket_type == kind && g@.fair_queue == fair_queue && g@.round_robin.len() == 0,
        made(s@.generic.registry, Policy::Standard, options, peer),
        s@.generic.socket_type == kind && s@.generic.fair_queue == fair_queue,
        s@.generic.round_robin.len() == 0 && s@.subs.len() == 0,
        made(p.registry@, Policy::Standard, options, peer),
        made(xp.registry@, Policy::Silent, options, peer),
        made(rp.registry@, Policy::Reply, options, peer),
{
}

/// A monitor of a backend takes the place of the one before, which is handed back.
pub proof fn monitor(args: (&mut GenericSocketBackend, u64), replaced: Option<u64>, peer: u64)
    requires
        call_ensures(GenericSocketBackend::monitor, args, replaced),
    ensures
        final(args.0)@.registry.monitor == Some(args.1),
        replaced == old(args.0)@.registry.monitor,
        lifecycle::same_at(old(args.0)@.registry, final(args.0)@.registry, peer),
        final(args.0)@.registry.policy == old(args.0)@.registry.policy,
        final(args.0)@.registry.socket_options == old(args.0)@.registry.socket_options,
        final(args.0)@.round_robin == old(args.0)@.round_robin,
{
}

/// A monitor of a PUB socket takes the place of the one before, which is handed back.
pub proof fn pub_monitor(args: (&mut PubSocket, u64), replaced: Option<u64>, peer: u64)
    requires
        call_ensures(PubSocket::monitor, args, replaced),
    ensures
        final(args.0)@.registry.monitor == Some(args.1),
        replaced == old(args.0)@.registry.monitor,
        lifecycle::same_at(old(args.0)@.registry, final(args.0)@.registry, peer),
        final(args.0)@.registry.policy == old(args.0)@.registry.policy,
        final(args.0)@.registry.socket_options == old(args.0)@.registry.socket_options,
        final(args.0)@.reconnects == old(args.0)@.reconnects,
{
}

/// A monitor of an XPUB socket takes the place of the one before, which is handed back.
pub proof fn xpub_monitor(args: (&mut XPubSocket, u64), replaced: Option<u64>, peer: u64)
    requires
        call_ensures(XPubSocket::monitor, args, replaced),
    ensures
        final(args.0).backend.registry@.monitor == Some(args.1),
        replaced == old(args.0).backend.registry@.monitor,
        lifecycle::same_at(old(args.0).backend.registry@, final(args.0).backend.registry@, peer),
        final(args.0).backend.registry@.policy == old(args.0).backend.registry@.policy,
        final(args.0).backend.registry@.socket_options
            == old(args.0).backend.registry@.socket_options,
{
}

/// A monitor of a PULL socket takes the place of the one before, which is handed back.
pub proof fn pull_monitor(args: (&mut PullSocket, u64), replaced: Option<u64>, peer: u64)
    requires
        call_ensures(PullSocket::monitor, args, replaced),
    ensures
        final(args.0).backend@.registry.monitor == Some(args.1),
        replaced == old(args.0).backend@.registry.monitor,
        lifecycle::same_at(old(args.0).backend@.registry, final(args.0).backend@.registry, peer),
        final(args.0).backend@.registry.policy == old(args.0).backend@.registry.policy,
        final(args.0).backend@.registry.socket_options
            == old(args.0).backend@.registry.socket_options,
{
}

/// A monitor of a SUB socket takes the place of the one before, which is handed back.
pub proof fn sub_monitor(args: (&mut SubSocket, u64), replaced: Option<u64>, peer: u64)
    requires
        call_ensures(SubSocket::monitor, args, replaced),
    ensures
        final(args.0).backend@.generic.registry.monitor == Some(args.1),
        replaced == old(args.0).backend@.generic.registry.monitor,
        lifecycle::same_at(old(args.0).backend@.generic.registry,
            final(args.0).backend@.generic.registry, peer),
        final(args.0).backend@.generic.registry.policy
            == old(args.0).backend@.generic.registry.policy,
        final(args.0).backend@.generic.registry.socket_options
            == old(args.0).backend@.generic.registry.socket_options,
        final(args.0).backend@.subs == old(args.0).backend@.subs,
        final(args.0).reconnect_handles == old(args.0).reconnect_handles,
{
}

/// A monitor of a REP socket takes the place of the one before, which is handed back.
pub proof fn rep_monitor(args: (&mut RepSocket, u64), replaced: Option<u64>, peer: u64)
    requires
        call_ensures(RepSocket::monitor, args, replaced),
    ensures
        final(args.0)@.registry.monitor == Some(args.1),
        replaced == old(args.0)@.registry.monitor,
        lifecycle::same_at(old(args.0)@.registry, final(args.0)@.registry, peer),
        final(args.0)@.registry.policy == old(args.0)@.registry.policy,
        final(args.0)@.registry.socket_options == old(args.0)@.registry.socket_options,
        final(args.0)@.envelope == old(args.0)@.envelope,
        final(args.0)@.current_request == old(args.0)@.current_request,
        final(args.0)@.reconnects == old(args.0)@.reconnects,
{
}

/// Who is to be told when a peer leaves a backend is kept by the peer until it is taken back.
pub proof fn notifiers(on: (&mut GenericSocketBackend, u64, u64),
    off: (&mut GenericSocketBackend, u64))
    requires
        call_ensures(GenericSocketBackend::register_disconnect_notifier, on, ()),
        call_ensures(GenericSocketBackend::unregister_disconnect_notifier, off, ()),
    ensures
        final(on.0)@.registry.notifiers == old(on.0)@.registry.notifiers.insert(on.1, on.2),
        final(on.0)@.registry.peers == old(on.0)@.registry.peers,
        final(on.0)@.registry.heartbeats == old(on.0)@.registry.heartbeats,
        final(on.0)@.registry.streams == old(on.0)@.registry.streams,
        final(off.0)@.registry.notifiers == old(off.0)@.registry.notifiers.remove(off.1),
        final(off.0)@.registry.peers == old(off.0)@.registry.peers,
        final(off.0)@.registry.heartbeats == old(off.0)@.registry.heartbeats,
        final(off.0)@.registry.streams == old(off.0)@.registry.streams,
{
}

/// Who is to be told when a peer leaves a PUB socket is kept by the peer until it is taken back.
pub proof fn pub_notifiers(on: (&mut PubSocketBackend, u64, u64), off: (&mut PubSocketBackend, u64))
    requires
        call_ensures(PubSocketBackend::register_disconnect_notifier, on, ()),
        call_ensures(PubSocketBackend::unregister_disconnect_notifier, off, ()),
    ensures
        final(on.0).registry@.notifiers == old(on.0).registry@.notifiers.insert(on.1, on.2),
        final(on.0).registry@.peers == old(on.0).registry@.peers,
        final(on.0).registry@.heartbeats == old(on.0).registry@.heartbeats,
        final(on.0).registry@.streams == old(on.0).registry@.streams,
        final(off.0).registry@.notifiers == old(off.0).registry@.notifiers.remove(off.1),
        final(off.0).registry@.peers == old(off.0).registry@.peers,
        final(off.0).registry@.heartbeats == old(off.0).registry@.heartbeats,
        final(off.0).registry@.streams == old(off.0).registry@.streams,
{
}

/// Who is to be told when a peer leaves a REP socket is kept by the peer until it is taken back.
pub proof fn rep_notifiers(on: (&mut RepSocketBackend, u64, u64), off: (&mut RepSocketBackend, u64))
    requires
        call_ensures(RepSocketBackend::register_disconnect_notifier, on, ()),
        call_ensures(RepSocketBackend::unregister_disconnect_notifier, off, ()),
    ensures
        final(on.0).registry@.notifiers == old(on.0).registry@.notifiers.insert(on.1, on.2),
        final(on.0).registry@.peers == old(on.0).registry@.peers,
        final(on.0).registry@.heartbeats == old(on.0).registry@.heartbeats,
        final(on.0).registry@.streams == old(on.0).registry@.streams,
        final(off.0).registry@.notifiers == old(off.0).registry@.notifiers.remove(off.1),
        final(off.0).registry@.peers == old(off.0).registry@.peers,
        final(off.0).registry@.heartbeats == old(off.0).registry@.heartbeats,
        final(off.0).registry@.streams == old(off.0).registry@.streams,
{
}

/// Who is to be told when a peer leaves a SUB socket is kept by the peer until it is taken back.
pub proof fn sub_notifiers(on: (&mut SubSocketBackend, u64, u64), off: (&mut SubSocketBackend, u64))
    requires
        call_ensures(SubSocketBackend::register_disconnect_notifier, on, ()),
        call_ensures(SubSocketBackend::unregister_disconnect_notifier, off, ()),
    ensures
        final(on.0)@.generic.registry.notifiers
            == old(on.0)@.generic.registry.notifiers.insert(on.1, on.2),
        final(on.0)@.generic.registry.peers == old(on.0)@.generic.registry.peers,
        final(on.0)@.generic.registry.heartbeats == old(on.0)@.generic.registry.heartbeats,
        final(on.0)@.generic.registry.streams == old(on.0)@.generic.registry.streams,
        final(off.0)@.generic.registry.notifiers
            == old(off.0)@.generic.registry.notifiers.remove(off.1),
        final(off.0)@.generic.registry.peers == old(off.0)@.generic.registry.peers,
        final(off.0)@.generic.registry.heartbeats == old(off.0)@.generic.registry.heartbeats,
        final(off.0)@.generic.registry.streams == old(off.0)@.generic.registry.streams,
{
}

/// A PUB backend that is shut down forgets its peers, and asks for all their queues to be
/// closed, and for nothing else.
pub proof fn pub_shutdown(args: (&mut PubSocketBackend, &mut Actions), x: ActionView)
    requires
        call_ensures(PubSocketBackend::shutdown, args, ()),
    ensures
        ({
            let was = old(args.0).registry@;
            let is = final(args.0).registry@;
            let said = old(args.1)@;
            let out = final(args.1)@;
            &&& is.peers == Map::<u64, PeerView>::empty()
            &&& is.heartbeats == was.heartbeats
            &&& is.notifiers == was.notifiers
            &&& is.monitor == was.monitor
            &&& said.len() <= out.len() && out.take(said.len() as int) == said
            &&& is.streams == was.streams
            &&& out.skip(said.len() as int).contains(x) <==> {
                ||| closes_a_sender(was, x)
            }
        }),
{
    let was = old(args.0).registry@;
    let said = old(args.1)@;
    let out = final(args.1)@;
    let ids = choose|ids: Seq<u64>| #[trigger]
        registry::enumerates(ids, was.peers.dom()) && out == said + was.all_sender_actions(ids);
    lifecycle::senders_are_closed(was, ids, x);
    let closes = was.all_sender_actions(ids);
    assert(out.take(said.len() as int) =~= said);
    assert(out.skip(said.len() as int) =~= closes);
}

/// An XPUB backend that is shut down forgets its peers, and asks for all their queues to be
/// closed, and for nothing else.
pub proof fn xpub_shutdown(args: (&mut XPubSocketBackend, &mut Actions), x: ActionView)
    requires
        call_ensures(XPubSocketBackend::shutdown, args, ()),
    ensures
        ({
            let was = old(args.0).registry@;
            let is = final(args.0).registry@;
            let said = old(args.1)@;
            let out = final(args.1)@;
            &&& is.peers == Map::<u64, PeerView>::empty()
            &&& is.heartbeats == was.heartbeats
            &&& is.notifiers == was.notifiers
            &&& is.monitor == was.monitor
            &&& said.len() <= out.len() && out.take(said.len() as int) == said
            &&& is.streams == was.streams
            &&& out.skip(said.len() as int).contains(x) <==> {
                ||| closes_a_sender(was, x)
            }
        }),
{
    let was = old(args.0).registry@;
    let said = old(args.1)@;
    let out = final(args.1)@;
    let ids = choose|ids: Seq<u64>| #[trigger]
        registry::enumerates(ids, was.peers.dom()) && out == said + was.all_sender_actions(ids);
    lifecycle::senders_are_closed(was, ids, x);
    let closes = was.all_sender_actions(ids);
    assert(out.take(said.len() as int) =~= said);
    assert(out.skip(said.len() as int) =~= closes);
}

/// A REP backend that is shut down forgets its peers and streams, and asks for all queues and
/// streams to be closed, and for nothing else.
pub proof fn rep_shutdown(args: (&mut RepSocketBackend, &mut Actions), x: ActionView)
    requires
        call_ensures(RepSocketBackend::shutdown, args, ()),
    ensures
        ({
            let was = old(args.0).registry@;
            let is = final(args.0).registry@;
            let said = old(args.1)@;
            let out = final(args.1)@;
            &&& is.peers == Map::<u64, PeerView>::empty()
            &&& is.heartbeats == was.heartbeats
            &&& is.notifiers == was.notifiers
            &&& is.monitor == was.monitor
            &&& said.len() <= out.len() && out.take(said.len() as int) == said
            &&& is.streams == Map::<u64, u64>::empty()
            &&& out.skip(said.len() as int).contains(x) <==> {
                ||| closes_a_sender(was, x)
                ||| closes_a_stream(was, x)
            }
        }),
{
    let was = old(args.0).registry@;
    let said = old(args.1)@;
    let out = final(args.1)@;
    let (ids, fed) = choose|ids: Seq<u64>, fed: Seq<u64>| #[trigger]
        registry::enumerates(ids, was.peers.dom()) && #[trigger] registry::enumerates(
            fed,
            was.streams.dom(),
        ) && out == said + was.close_actions(ids, fed);
    lifecycle::closing_closes_all(was, ids, fed, x);
    let closes = was.close_actions(ids, fed);
    assert(out.take(said.len() as int) =~= said);
    assert(out.skip(said.len() as int) =~= closes);
}

/// A SUB backend that is shut down forgets its peers and streams, and asks for all queues and
/// streams to be closed, and for nothing else.
pub proof fn sub_shutdown(args: (&mut SubSocketBackend, &mut Actions), x: ActionView)
    requires
        call_ensures(SubSocketBackend::shutdown, args, ()),
    ensures
        ({
            let was = old(args.0)@.generic.registry;
            let is = final(args.0)@.generic.registry;
            let said = old(args.1)@;
            let out = final(args.1)@;
            &&& is.peers == Map::<u64, PeerView>::empty()
            &&& is.heartbeats == was.heartbeats
            &&& is.notifiers == was.notifiers
            &&& is.monitor == was.monitor
            &&& said.len() <= out.len() && out.take(said.len() as int) == said
            &&& is.streams == Map::<u64, u64>::empty()
            &&& out.skip(said.len() as int).contains(x) <==> {
                ||| closes_a_sender(was, x)
                ||| closes_a_stream(was, x)
            }
        }),
{
    let was = old(args.0)@.generic.registry;
    let said = old(args.1)@;
    let out = final(args.1)@;
    let (ids, fed) = choose|ids: Seq<u64>, fed: Seq<u64>| #[trigger]
        registry::enumerates(ids, was.peers.dom()) && #[trigger] registry::enumerates(
            fed,
            was.streams.dom(),
        ) && out == said + was.close_actions(ids, fed);
    lifecycle::closing_closes_all(was, ids, fed, x);
    let closes = was.close_actions(ids, fed);
    assert(out.take(said.len() as int) =~= said);
    assert(out.skip(said.len() as int) =~= closes);
}

/// What is heard of a peer is activity and is answered if it is a PING.
pub proof fn item_received<P: PeerPolicy>(
    args: (&mut Registry<P>, u64, &Message, u64, &mut Actions),
    other: u64,
)
    requires
        call_ensures(Registry::<P>::item_received, args, ()),
    ensures
        ({
            let was = old(args.0)@;
            let is = final(args.0)@;
            &&& answered(was, args.1, args.2@, old(args.4)@, final(args.4)@)
            &&& was.heartbeats.contains_key(args.1)
                ==> is.heartbeats[args.1].tracker.last_activity_ms == args.3
            &&& is.peers == was.peers && is.streams == was.streams && is.notifiers
                == was.notifiers
            &&& other != args.1 ==> lifecycle::same_at(was, is, other)
        }),
{
    lifecycle::hearing_touches_one_peer(old(args.0)@, args.1, args.2@, args.3, other);
    lifecycle::hearing_is_activity(old(args.0)@, args.1, args.2@, args.3);
    hearing_is_answered(old(args.0)@, args.1, args.2@, old(args.4)@, final(args.4)@);
}

/// A command of a peer is activity and is answered if it is a PING.
pub proof fn command_received<P: PeerPolicy>(
    args: (&mut Registry<P>, u64, &ZmqCommand, u64, &mut Actions),
    other: u64,
)
    requires
        call_ensures(Registry::<P>::command_received, args, ()),
    ensures
        ({
            let was = old(args.0)@;
            let is = final(args.0)@;
            &&& answered(
                was,
                args.1,
                MessageView::Command(args.2@),
                old(args.4)@,
                final(args.4)@,
            )
            &&& was.heartbeats.contains_key(args.1)
                ==> is.heartbeats[args.1].tracker.last_activity_ms == args.3
            &&& is.peers == was.peers && is.streams == was.streams && is.notifiers
                == was.notifiers
            &&& other != args.1 ==> lifecycle::same_at(was, is, other)
        }),
{
    let message = MessageView::Command(args.2@);
    lifecycle::hearing_touches_one_peer(old(args.0)@, args.1, message, args.3, other);
    lifecycle::hearing_is_activity(old(args.0)@, args.1, message, args.3);
    hearing_is_answered(old(args.0)@, args.1, message, old(args.4)@, final(args.4)@);
}

/// A look at a peer lets it go exactly if it is dead.
pub proof fn look_at<P: PeerPolicy>(
    args: (&mut Registry<P>, u64, u64, &mut Actions),
    dead: bool,
    other: u64,
    x: ActionView,
)
    requires
        call_ensures(Registry::<P>::look_at, args, dead),
    ensures
        ({
            let was = old(args.0)@;
            let is = final(args.0)@;
            &&& dead <==> was.heartbeats.contains_key(args.1)
                && was.heartbeats[args.1].tracker.dead_at(args.2)
            &&& dead ==> let_go(was, old(args.3)@, args.1, is, final(args.3)@, other, x)
            &&& !dead ==> is == was && final(args.3)@ == old(args.3)@
        }),
{
    let was = old(args.0)@;
    lifecycle::look_takes_only_the_dead(was, args.1, args.2, x);
    if dead {
        disconnecting_lets_go(
            was,
            old(args.3)@,
            args.1,
            final(args.0)@,
            final(args.3)@,
            other,
            x,
        );
    } else {
        assert(final(args.3)@ =~= old(args.3)@);
    }
}

/// Who leaves a registry is let go.
pub proof fn registry_peer_disconnected<P: PeerPolicy>(
    args: (&mut Registry<P>, u64, &mut Actions),
    other: u64,
    x: ActionView,
)
    requires
        call_ensures(Registry::<P>::peer_disconnected, args, ()),
    ensures
        let_go(old(args.0)@, old(args.2)@, args.1, final(args.0)@, final(args.2)@, other, x),
{
    disconnecting_lets_go(
        old(args.0)@,
        old(args.2)@,
        args.1,
        final(args.0)@,
        final(args.2)@,
        other,
        x,
    );
}

/// When all are disconnected nobody is left, what they had is asked to end and nothing else,
/// and whoever was no peer keeps what it has.
pub proof fn all_disconnected<P: PeerPolicy>(
    args: (&mut Registry<P>, &mut Actions),
    other: u64,
    x: ActionView,
)
    requires
        call_ensures(Registry::<P>::all_disconnected, args, ()),
    ensures
        ({
            let was = old(args.0)@;
            let is = final(args.0)@;
            let said = old(args.1)@;
            let out = final(args.1)@;
            &&& is.peers == Map::<u64, PeerView>::empty()
            &&& was.peers.contains_key(other) ==> !(is.heartbeats.contains_key(other)) && !(
            is.streams.contains_key(other))
            &&& !was.peers.contains_key(other) ==> lifecycle::same_at(was, is, other)
            &&& said.len() <= out.len() && out.take(said.len() as int) == said
            &&& out.skip(said.len() as int).contains(x) <==> exists|p: u64|
                was.peers.contains_key(p) && #[trigger] lifecycle::goes_with(was, p, x)
        }),
{
    let was = old(args.0)@;
    let is = final(args.0)@;
    let said = old(args.1)@;
    let out = final(args.1)@;
    let ids = choose|ids: Seq<u64>| #[trigger]
        registry::enumerates(ids, was.peers.dom()) && is == was.disconnected_all(ids) && out
            == said + was.disconnect_all_actions(ids);
    lifecycle::nobody_is_left(was, ids);
    lifecycle::going_in_turn_leaves_the_others(was, ids, other);
    lifecycle::going_in_turn_asks_for_what_goes(was, ids, x);
    registry::enumerations_are_exact(ids, was.peers.dom(), other);
    assert(out.take(said.len() as int) =~= said);
    assert(out.skip(said.len() as int) =~= was.disconnect_all_actions(ids));
    if exists|p: u64| was.peers.contains_key(p) && #[trigger] lifecycle::goes_with(was, p, x) {
        let p = choose|p: u64|
            was.peers.contains_key(p) && #[trigger] lifecycle::goes_with(was, p, x);
        registry::enumerations_are_exact(ids, was.peers.dom(), p);
        let i = choose|i: int| 0 <= i < ids.len() && ids[i] == p;
        assert(lifecycle::goes_with(was, ids[i], x));
    }
    if exists|i: int| 0 <= i < ids.len() && lifecycle::goes_with(was, #[trigger] ids[i], x) {
        let i = choose|i: int|
            0 <= i < ids.len() && lifecycle::goes_with(was, #[trigger] ids[i], x);
        assert(ids.contains(ids[i]));
        registry::enumerations_are_exact(ids, was.peers.dom(), ids[i]);
    }
}

/// Who comes to a registry is kept, and what it had before is asked to end.
pub proof fn registry_peer_connected<P: PeerPolicy>(
    args: (&mut Registry<P>, u64, u64, u64, u64, &mut Actions),
    other: u64,
    x: ActionView,
)
    requires
        call_ensures(Registry::<P>::peer_connected, args, ()),
    ensures
        ({
            let was = old(args.0)@;
            let is = final(args.0)@;
            let said = old(args.5)@;
            let out = final(args.5)@;
            &&& came(was, args.1, args.2, args.3, args.4, is, other)
            &&& is.streams == was.streams
            &&& said.len() <= out.len() && out.take(said.len() as int) == said
            &&& out.skip(said.len() as int).contains(x) <==> replaces(was, args.1, args.3, x)
        }),
{
    let was = old(args.0)@;
    let is = final(args.0)@;
    let said = old(args.5)@;
    let out = final(args.5)@;
    let h = is.heartbeats[args.1];
    lifecycle::heartbeats_start_afresh(was, h, args.3, args.4);
    lifecycle::coming_peer_is_kept(was, args.1, peers::plain(args.2), h, 0, other);
    lifecycle::coming_asks_for_what_is_new(was, args.1, args.3, 0, x);
    assert(out.take(said.len() as int) =~= said);
    assert(out.skip(said.len() as int) =~= was.connect_actions(args.1, args.3));
}

/// Whoever monitors is told of an event, and nobody else.
pub proof fn emit<P: PeerPolicy>(args: (&Registry<P>, SocketEvent, &mut Actions))
    requires
        call_ensures(Registry::<P>::emit, args, ()),
    ensures
        final(args.2)@ == (match args.0@.monitor {
            Some(monitor) => old(args.2)@ + seq![ActionView::Emit { monitor, event: args.1@ }],
            None => old(args.2)@,
        }),
{
}

/// What is asked for is asked for behind what was asked for before.
pub proof fn actions_push(args: (&mut Actions, Action))
    requires
        call_ensures(Actions::push, args, ()),
    ensures
        final(args.0)@ == old(args.0)@ + seq![args.1@],
{
}


/// What a peer that comes to a PUB socket is reason for is asked for in one order: its
/// heartbeat starts, what it had ends, and the task that reads its requests starts last.
pub proof fn pub_peer_connected_order(
    args: (&mut PubSocketBackend, u64, u64, u64, u64, u64, u64, &mut Actions),
    i: int,
    j: int,
)
    requires
        call_ensures(PubSocketBackend::peer_connected, args, ()),
        old(args.7)@.len() <= i < j < final(args.7)@.len(),
    ensures
        place_with_subscription(final(args.7)@[i]) < place_with_subscription(final(args.7)@[j]),
{
    let was = old(args.0).registry@;
    let asked = was.start_actions(args.1, args.5) + was.sender_actions(args.1)
        + was.heartbeat_actions(args.1) + seq![
        ActionView::StartSubscription { peer: args.1, stream: args.3, stop: args.4 },
    ];
    assert(final(args.7)@ =~= old(args.7)@ + asked);
    let n = old(args.7)@.len();
    assert(final(args.7)@[i] == asked[i - n]);
    assert(final(args.7)@[j] == asked[j - n]);
}

/// Where an action stands among those for which a peer that comes to a PUB socket is reason.
pub open spec fn place_with_subscription(x: ActionView) -> int {
    match x {
        ActionView::StartHeartbeat { .. } => 0,
        ActionView::CloseSender { .. } => 1,
        ActionView::StopSubscription { .. } => 2,
        ActionView::StopHeartbeat { .. } => 3,
        _ => 4,
    }
}

/// Sockets that are closed stop their reconnection tasks before all else, in the order in
/// which they were started.
pub proof fn reconnections_stop_first(
    p: (&mut PubSocket, &mut Actions),
    rp: (&mut RepSocket, &mut Actions),
    s: (&mut SubSocket, &mut Actions),
    i: int,
)
    requires
        call_ensures(PubSocket::close, p, ()),
        call_ensures(RepSocket::close, rp, ()),
        call_ensures(SubSocket::close, s, ()),
    ensures
        0 <= i < old(p.0).reconnect_handles@.len() ==> final(p.1)@[old(p.1)@.len() + i] == (
        ActionView::StopReconnect { task: old(p.0).reconnect_handles@[i].task }),
        0 <= i < old(rp.0).reconnect_handles@.len() ==> final(rp.1)@[old(rp.1)@.len() + i] == (
        ActionView::StopReconnect { task: old(rp.0).reconnect_handles@[i].task }),
        0 <= i < old(s.0).reconnect_handles@.len() ==> final(s.1)@[old(s.1)@.len() + i] == (
        ActionView::StopReconnect { task: old(s.0).reconnect_handles@[i].task }),
{
}

/// All tasks are stopped, in the order in which they were started, and none is kept.
pub proof fn stop_all(args: (&mut Vec<ReconnectHandle>, &mut Actions), i: int)
    requires
        call_ensures(reconnect::stop_all, args, ()),
    ensures
        final(args.0)@.len() == 0,
        final(args.1)@.len() == old(args.1)@.len() + old(args.0)@.len(),
        final(args.1)@.take(old(args.1)@.len() as int) == old(args.1)@,
        0 <= i < old(args.0)@.len() ==> final(args.1)@[old(args.1)@.len() + i] == (
        ActionView::StopReconnect { task: old(args.0)@[i].task }),
{
    assert(final(args.1)@.take(old(args.1)@.len() as int) =~= old(args.1)@);
}


/// A socket is seen with all that it keeps.
pub proof fn sockets_are_seen_whole(
    g: GenericSocketBackend,
    s: SubSocketBackend,
    p: PubSocket,
    rp: RepSocket,
)
    ensures
        g@.socket_type == g.socket_type,
        g@.registry == g.registry@,
        g@.round_robin == g.round_robin@,
        g@.fair_queue == g.fair_queue,
        s@.generic == s.generic@,
        s@.subs == s.subs@,
        p@.registry == p.backend.registry@,
        p@.reconnects == p.reconnect_handles@,
        rp@.registry == rp.backend.registry@,
        rp@.current_request == rp.current_request,
        rp@.reconnects == rp.reconnect_handles@,
        rp@.envelope is Some <==> rp.envelope is Some,
        rp.envelope matches Some(m) ==> rp@.envelope == Some(m@),
{
}


} // verus!
