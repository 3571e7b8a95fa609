//! The PUB socket: it publishes to its peers.
use crate::actions::{Action, ActionView, Actions};
use crate::command::{CommandView, ZmqCommandName};
use crate::error::ZmqError;
use crate::heartbeats;
use crate::message::{Message, MessageView, ZmqMessage};
use crate::peers;
use crate::peers::{Peer, PeerView};
use crate::publish;
use crate::publish::Publication;
use crate::reconnect;
use crate::reconnect::ReconnectHandle;
use crate::policy::{Policy, Standard};
use crate::registry;
use crate::registry::{Registry, RegistryView};
use crate::socket::{SocketEvent, SocketEventView, SocketOptions, SocketType};
use vstd::prelude::*;

verus! {

pub struct PubSocketBackend {
    pub registry: Registry<Standard>,
}

pub struct PubSocket {
    pub backend: PubSocketBackend,
    /// Handles to background reconnection tasks
    pub reconnect_handles: Vec<ReconnectHandle>,
}

/// A PUB socket as a value.
#[verifier::ext_equal]
pub struct PubView {
    pub registry: RegistryView,
    pub reconnects: Seq<ReconnectHandle>,
}

impl View for PubSocket {
    type V = PubView;

    open spec fn view(&self) -> PubView {
        PubView { registry: self.backend.registry@, reconnects: self.reconnect_handles@ }
    }
}

/// What can happen to the task that reads a peer's subscriptions.
#[derive(Debug)]
pub enum SubscriptionEvent {
    /// It was signalled to stop.
    Stopped,
    /// The peer's stream gave a message.
    Received(Message),
    /// The peer's stream failed, or ended.
    Lost,
    /// A PONG that the task had sent could not be delivered.
    PongFailed,
}

/// A peer as it comes: it has asked for nothing, and a task that `stop` stops reads what
/// it asks for.
pub open spec fn subscriber(send_queue: u64, stop: u64) -> PeerView {
    PeerView { send_queue, subscriptions: Seq::empty(), coro_stop: Some(stop) }
}

/// The task that `stop` stops still reads the peer's subscriptions.
pub open spec fn reads(r: RegistryView, peer: u64, stop: u64) -> bool {
    r.peers.contains_key(peer) && r.peers[peer].coro_stop == Some(stop)
}

/// PINGs and PONGs are dealt with by the heartbeat alone.
pub open spec fn is_heartbeat(message: MessageView) -> bool {
    message matches MessageView::Command(c) && (c.name == ZmqCommandName::PING || c.name
        == ZmqCommandName::PONG)
}

/// After a message from a peer came in at `now`.
pub open spec fn heard(r: RegistryView, peer: u64, message: MessageView, now: u64) -> RegistryView {
    RegistryView {
        peers: publish::after_message(r.peers, peer, message),
        ..r.after_item(peer, message, now)
    }
}

/// What comes of moving the task on that reads a peer's subscriptions.
pub open spec fn stepped(
    was: RegistryView,
    said: Seq<ActionView>,
    peer: u64,
    stop: u64,
    event: SubscriptionEvent,
    now: u64,
    later: u64,
    is: RegistryView,
    out: Seq<ActionView>,
    goes_on: bool,
) -> bool {
    if !reads(was, peer, stop) {
        !goes_on && is == was && out == said
    } else {
        match event {
            SubscriptionEvent::Stopped => !goes_on && is == was && out == said,
            SubscriptionEvent::Received(message) => {
                let after = heard(was, peer, message@, now);
                let answered = said + was.item_actions(peer, message@);
                if is_heartbeat(message@) {
                    goes_on && is == after && out == answered
                } else {
                    &&& goes_on == !heartbeats::is_dead(after.heartbeats, peer, later)
                    &&& is == after.after_look(peer, later)
                    &&& out == answered + after.look_actions(peer, later)
                }
            },
            SubscriptionEvent::Lost | SubscriptionEvent::PongFailed => {
                &&& !goes_on
                &&& is == was.disconnected(peer)
                &&& out == said + was.disconnect_actions(peer)
            },
        }
    }
}

impl PubSocketBackend {
    pub fn with_options(options: SocketOptions) -> (r: PubSocketBackend)
        ensures
            r.registry@ == RegistryView::fresh(Policy::Standard, options),
    {
        PubSocketBackend { registry: Registry::new(Standard, options) }
    }

    pub fn socket_type(&self) -> (r: SocketType)
        ensures
            r == SocketType::PUB,
    {
        SocketType::PUB
    }

    pub fn socket_options(&self) -> (r: &SocketOptions)
        ensures
            *r == self.registry@.socket_options,
    {
        &self.registry.socket_options
    }

    /// Register a notifier to be called when a peer disconnects.
    ///
    /// Used by reconnection tasks to be notified when they should attempt reconnection.
    pub fn register_disconnect_notifier(&mut self, peer: u64, notifier: u64)
        ensures
            final(self).registry@ == old(self).registry@.with_notifier(peer, notifier),
    {
        self.registry.register_disconnect_notifier(peer, notifier)
    }

    /// Unregister a disconnect notifier for a peer.
    pub fn unregister_disconnect_notifier(&mut self, peer: u64)
        ensures
            final(self).registry@ == old(self).registry@.without_notifier(peer),
    {
        self.registry.unregister_disconnect_notifier(peer)
    }

    /// Takes note of what a peer asks for or gives up.
    pub fn message_received(&mut self, peer: u64, message: &Message)
        ensures
            final(self).registry@ == (RegistryView {
                peers: publish::after_message(old(self).registry@.peers, peer, message@),
                ..old(self).registry@
            }),
    {
        publish::message_received(&mut self.registry, peer, message)
    }

    /// Takes a peer in, with a heartbeat made at `now`. A task that `stop` stops is to
    /// read from the peer's stream.
    pub fn peer_connected(
        &mut self,
        peer: u64,
        send_queue: u64,
        stream: u64,
        stop: u64,
        task: u64,
        now: u64,
        out: &mut Actions,
    )
        ensures
            ({
                let was = old(self).registry@;
                let h = final(self).registry@.heartbeats[peer];
                &&& was.starts(h, task, now)
                &&& final(self).registry@ == was.connected(peer, subscriber(send_queue, stop), h)
                &&& final(out)@ == old(out)@ + was.start_actions(peer, task) + was.sender_actions(
                    peer,
                ) + was.heartbeat_actions(peer) + seq![
                    ActionView::StartSubscription { peer, stream, stop },
                ]
            }),
    {
        let h = self.registry.start_heartbeat(peer, task, now, out);
        let sender = Peer { send_queue, subscriptions: Vec::new(), coro_stop: Some(stop) };
        assert(sender@.subscriptions =~= Seq::empty());
        self.registry.admit_sender(peer, sender, out);
        self.registry.admit_heartbeat(peer, h, out);
        out.push(Action::StartSubscription { peer, stream, stop });
    }

    /// Lets a peer go.
    pub fn peer_disconnected(&mut self, peer: u64, out: &mut Actions)
        ensures
            final(self).registry@ == old(self).registry@.disconnected(peer),
            final(out)@ == old(out)@ + old(self).registry@.disconnect_actions(peer),
    {
        self.registry.peer_disconnected(peer, out)
    }

    /// Gives up all senders, and the tasks that read from the peers.
    pub fn shutdown(&mut self, out: &mut Actions)
        ensures
            final(self).registry@ == (RegistryView { peers: Map::empty(), ..old(self).registry@ }),
            exists|ids: Seq<u64>| #[trigger]
                registry::enumerates(ids, old(self).registry@.peers.dom()) && final(out)@ == old(
                    out,
                )@ + old(self).registry@.all_sender_actions(ids),
    {
        self.registry.close_senders(out)
    }

    /// Moves the task on that reads a peer's subscriptions, where the clock shows `now`
    /// and then `later`. A task that does not read for the peer any more stops.
    ///
    /// PINGs and PONGs keep the heartbeat going. Other messages are taken note of, and
    /// the peer is let go if it is found dead all the same. A PONG that cannot be
    /// delivered, and the end of the stream, make the peer go. Where the peer goes, the
    /// task stops.
    pub fn subscription_step_at(
        &mut self,
        peer: u64,
        stop: u64,
        event: SubscriptionEvent,
        now: u64,
        later: u64,
        out: &mut Actions,
    ) -> (goes_on: bool)
        ensures
            stepped(
                old(self).registry@,
                old(out)@,
                peer,
                stop,
                event,
                now,
                later,
                final(self).registry@,
                final(out)@,
                goes_on,
            ),
    {
        let reads = match self.registry.peers.coro_stop(peer) {
            Some(s) => s == stop,
            None => false,
        };
        if !reads {
            return false;
        }
        match event {
            SubscriptionEvent::Stopped => false,
            SubscriptionEvent::Received(message) => {
                self.registry.item_received(peer, &message, now, out);
                let heartbeat = match &message {
                    Message::Command(c) => c.name == ZmqCommandName::PING || c.name
                        == ZmqCommandName::PONG,
                    _ => false,
                };
                if heartbeat {
                    return true;
                }
                self.message_received(peer, &message);
                !self.registry.look_at(peer, later, out)
            },
            SubscriptionEvent::Lost | SubscriptionEvent::PongFailed => {
                self.peer_disconnected(peer, out);
                false
            },
        }
    }
}

impl PubSocket {
    pub fn with_options(options: SocketOptions) -> (r: PubSocket)
        ensures
            r@ == (PubView {
                registry: RegistryView::fresh(Policy::Standard, options),
                reconnects: Seq::empty(),
            }),
    {
        PubSocket {
            backend: PubSocketBackend::with_options(options),
            reconnect_handles: Vec::new(),
        }
    }

    /// Lets a channel monitor the socket, in place of the one that did.
    pub fn monitor(&mut self, monitor: u64) -> (replaced: Option<u64>)
        ensures
            final(self)@ == (PubView {
                registry: RegistryView { monitor: Some(monitor), ..old(self)@.registry },
                ..old(self)@
            }),
            replaced == old(self)@.registry.monitor,
    {
        self.backend.registry.set_monitor(monitor)
    }

    /// Takes note of a connection that was made to an endpoint, and of the task that
    /// will make it again if it is lost.
    pub fn connected(
        &mut self,
        endpoint: String,
        peer: u64,
        reconnect: ReconnectHandle,
        out: &mut Actions,
    )
        ensures
            final(self)@ == (PubView {
                reconnects: old(self)@.reconnects.push(reconnect),
                ..old(self)@
            }),
            final(out)@ == old(out)@ + old(self)@.registry.monitor_actions(
                SocketEventView::Connected { endpoint: endpoint@, peer },
            ),
    {
        self.backend.registry.emit(SocketEvent::Connected { endpoint, peer }, out);
        self.reconnect_handles.push(reconnect);
    }

    /// Gives the socket up: its reconnection tasks first, then its senders.
    pub fn close(&mut self, out: &mut Actions)
        ensures
            final(self)@ == (PubView {
                registry: RegistryView { peers: Map::empty(), ..old(self)@.registry },
                reconnects: Seq::empty(),
            }),
            exists|ids: Seq<u64>| #[trigger]
                registry::enumerates(ids, old(self)@.registry.peers.dom()) && final(out)@ == old(
                    out,
                )@ + reconnect::stop_actions(old(self)@.reconnects) + old(
                    self,
                )@.registry.all_sender_actions(ids),
    {
        reconnect::stop_all(&mut self.reconnect_handles, out);
        self.backend.shutdown(out);
    }

    /// Begins to publish a message: it goes to each peer that has asked for it.
    pub fn send(&self, message: ZmqMessage) -> (p: Publication)
        ensures
            publish::begins(self@.registry.peers, message, p),
    {
        publish::publish(&self.backend.registry, message)
    }

    /// Ends a publication: the peers found to be gone are let go, unless it failed.
    pub fn sent(&mut self, p: Publication, failure: Option<ZmqError>, out: &mut Actions) -> (result:
        Result<(), ZmqError>)
        ensures
            publish::ended(
                old(self)@.registry,
                old(out)@,
                p,
                failure,
                final(self)@.registry,
                final(out)@,
                result,
            ),
            final(self)@.reconnects == old(self)@.reconnects,
    {
        publish::published(&mut self.backend.registry, p, failure, out)
    }
}

/// What a peer asks for through its stream counts: after a task that reads for the peer has
/// taken a message with the octet 1 and a topic, the peer's topics are the earlier ones and
/// this one; with the octet 0 the first occurrence of the topic is gone. Other peers' topics
/// stay. This holds whenever the peer is not found dead afterwards, and the task goes on.
pub proof fn subscriptions_are_kept(
    was: RegistryView,
    said: Seq<ActionView>,
    peer: u64,
    stop: u64,
    event: SubscriptionEvent,
    topic: Seq<u8>,
    now: u64,
    later: u64,
    is: RegistryView,
    out: Seq<ActionView>,
    goes_on: bool,
    frame: Seq<u8>,
    other: u64,
)
    requires
        was.peers.contains_key(peer),
        was.peers[peer].coro_stop == Some(stop),
        stepped(was, said, peer, stop, event, now, later, is, out, goes_on),
        goes_on,
        event is Received,
        event->Received_0@ == MessageView::Message(seq![seq![1u8] + topic])
            || event->Received_0@ == MessageView::Message(seq![seq![0u8] + topic]),
    ensures
        is.peers.dom() == was.peers.dom(),
        event->Received_0@ == MessageView::Message(seq![seq![1u8] + topic]) ==> is.peers[peer].subscriptions
            == was.peers[peer].subscriptions + seq![topic] && (publish::asks(is.peers, peer, frame)
            <==> publish::asks(was.peers, peer, frame) || exists|rest: Seq<u8>|
            frame == #[trigger] (topic + rest)),
        event->Received_0@ == MessageView::Message(seq![seq![0u8] + topic]) ==> is.peers[peer].subscriptions
            == peers::without_first(was.peers[peer].subscriptions, topic),
        is.peers[peer].send_queue == was.peers[peer].send_queue,
        is.peers[peer].coro_stop == Some(stop),
        other != peer && was.peers.contains_key(other) ==> is.peers[other] == was.peers[other],
        out == said,
{
    publish::requests_are_heard(was.peers, peer, topic, frame, other);
    peers::requests_reach_one_peer(was.peers, peer, topic, other);
    let on = seq![1u8] + topic;
    let off = seq![0u8] + topic;
    assert(on.skip(1) =~= topic);
    assert(off.skip(1) =~= topic);
    assert(on[0] == 1 && off[0] == 0);
    assert(out =~= said);
}

/// The state a live peer is left in by what it sent: topics as above, and its tracker shows
/// that it was active.
pub proof fn heard_requests_count(
    r: RegistryView,
    peer: u64,
    topic: Seq<u8>,
    now: u64,
    frame: Seq<u8>,
)
    requires
        r.peers.contains_key(peer),
    ensures
        publish::asks(
            heard(r, peer, MessageView::Message(seq![seq![1u8] + topic]), now).peers,
            peer,
            frame,
        ) <==> publish::asks(r.peers, peer, frame) || peers::topic_matches(topic, frame),
        r.heartbeats.contains_key(peer) ==> heard(
            r,
            peer,
            MessageView::Message(seq![seq![1u8] + topic]),
            now,
        ).heartbeats[peer].tracker.last_activity_ms == now,
{
    publish::requests_are_heard(r.peers, peer, topic, frame, peer);
    peers::topics_match_octet_by_octet(topic, frame);
}

/// A PING from a peer is answered by a PONG with the same context, on that peer's queue, and
/// the task goes on without looking for death; a PONG is taken note of, and the task goes on.
/// Neither changes what peers have asked for.
pub proof fn pings_are_answered_in_passing(
    was: RegistryView,
    said: Seq<ActionView>,
    peer: u64,
    stop: u64,
    event: SubscriptionEvent,
    c: CommandView,
    now: u64,
    later: u64,
    is: RegistryView,
    out: Seq<ActionView>,
    goes_on: bool,
)
    requires
        was.peers.contains_key(peer),
        was.peers[peer].coro_stop == Some(stop),
        stepped(was, said, peer, stop, event, now, later, is, out, goes_on),
        event is Received,
        event->Received_0@ == MessageView::Command(c),
        c.name == ZmqCommandName::PING || c.name == ZmqCommandName::PONG,
    ensures
        goes_on,
        is.peers == was.peers,
        c.name == ZmqCommandName::PONG ==> out == said,
        c.name == ZmqCommandName::PING ==> out.len() == said.len() + 1 && out.take(
            said.len() as int,
        ) == said && (out.last() matches ActionView::Send { queue, message } && queue
            == was.peers[peer].send_queue && (message matches MessageView::Command(d) && d.name
            == ZmqCommandName::PONG && d.context == c.context && d.ttl is None)),
        was.heartbeats.contains_key(peer) ==> is.heartbeats[peer].tracker.last_activity_ms == now,
{
    if c.name == ZmqCommandName::PONG {
        assert(out =~= said);
    } else {
        assert(out.take(said.len() as int) =~= said);
    }
}

/// The end of the stream, and a PONG that was not delivered, cost the peer its place and end
/// the task; a signal to stop ends the task alone. A task that reads for nobody ends and
/// changes nothing. Other peers keep what they have.
pub proof fn lost_streams_lose_the_peer(
    was: RegistryView,
    said: Seq<ActionView>,
    peer: u64,
    stop: u64,
    event: SubscriptionEvent,
    now: u64,
    later: u64,
    is: RegistryView,
    out: Seq<ActionView>,
    goes_on: bool,
    other: u64,
)
    requires
        stepped(was, said, peer, stop, event, now, later, is, out, goes_on),
    ensures
        ({
            let live = was.peers.contains_key(peer) && was.peers[peer].coro_stop == Some(stop);
            &&& !live || event is Stopped ==> !goes_on && is == was && out == said
            &&& live && (event is Lost || event is PongFailed) ==> !goes_on
                && !(is.peers.contains_key(peer)) && !(is.heartbeats.contains_key(peer))
            &&& !goes_on && live && event is Received ==> !(is.peers.contains_key(peer))
            &&& other != peer && was.peers.contains_key(other) ==> is.peers.contains_key(other)
                && is.peers[other] == was.peers[other]
        }),
{
    if event is Received {
        publish::only_requests_change_subscriptions(was.peers, peer, event->Received_0@, other);
    }
}

/// A peer comes with its queue, without topics, and with a task that reads for it.
pub proof fn subscribers_come_without_topics(send_queue: u64, stop: u64, frame: Seq<u8>)
    ensures
        subscriber(send_queue, stop).send_queue == send_queue,
        subscriber(send_queue, stop).coro_stop == Some(stop),
        peers::queue_for(subscriber(send_queue, stop), frame) is None,
{
}

/// A task that has taken a request, or anything but a PING or a PONG, goes on as long as the
/// peer is not dead, counting its silence from `now`; a dead peer loses its place.
pub proof fn task_goes_on_with_a_live_peer(
    was: RegistryView,
    said: Seq<ActionView>,
    peer: u64,
    stop: u64,
    event: SubscriptionEvent,
    now: u64,
    later: u64,
    is: RegistryView,
    out: Seq<ActionView>,
    goes_on: bool,
)
    requires
        was.peers.contains_key(peer),
        was.peers[peer].coro_stop == Some(stop),
        stepped(was, said, peer, stop, event, now, later, is, out, goes_on),
        event is Received,
        event->Received_0@ is Command ==> event->Received_0@->Command_0.name
            == ZmqCommandName::READY,
    ensures
        goes_on <==> !was.heartbeats.contains_key(peer)
            || !was.heartbeats[peer].tracker.with_activity(now).dead_at(later),
        goes_on <==> is.peers.contains_key(peer),
        goes_on && was.heartbeats.contains_key(peer) ==> is.heartbeats[peer].tracker
            == was.heartbeats[peer].tracker.with_activity(now),
{
}

} // verus!
