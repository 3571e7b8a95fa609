//! The SUB socket: it asks its peers for topics and receives what they publish.
use crate::actions::{Action, ActionView, Actions};
use crate::backend::{BackendView, GenericSocketBackend};
use crate::error::{CodecError, ZmqError};
use crate::lifecycle;
use crate::message::{Message, MessageView, ZmqMessage};
use crate::octets;
use crate::peers;
use crate::peers::PeerView;
use crate::publish;
use crate::receive;
use crate::receive::{QueueEvent, Received, StreamEvent};
use crate::reconnect;
use crate::reconnect::ReconnectHandle;
use crate::policy::Policy;
use crate::registry;
use crate::registry::RegistryView;
use crate::socket::{SocketEvent, SocketEventView, SocketOptions, SocketType};
use crate::topics;
use crate::topics::Topics;
use vstd::prelude::*;
use vstd::utf8;

verus! {

/// What a request does with its topic.
#[derive(Debug, Copy, Clone, PartialEq, Eq, Structural)]
pub enum SubBackendMsgType {
    UNSUBSCRIBE,
    SUBSCRIBE,
}

impl SubBackendMsgType {
    /// The first octet of the request.
    pub open spec fn octet(self) -> u8 {
        match self {
            SubBackendMsgType::UNSUBSCRIBE => publish::UNSUBSCRIBE,
            SubBackendMsgType::SUBSCRIBE => publish::SUBSCRIBE,
        }
    }

    /// The first octet of the request.
    pub fn code(self) -> (octet: u8)
        ensures
            octet == self.octet(),
    {
        match self {
            SubBackendMsgType::UNSUBSCRIBE => publish::UNSUBSCRIBE,
            SubBackendMsgType::SUBSCRIBE => publish::SUBSCRIBE,
        }
    }
}

/// The message of a request: one frame, the octet and the topic.
pub open spec fn request(topic: Seq<char>, kind: SubBackendMsgType) -> Seq<Seq<u8>> {
    seq![seq![kind.octet()] + utf8::encode_utf8(topic)]
}

/// The requests for topics, in their order.
pub open spec fn requests(subs: Seq<Seq<char>>) -> Seq<Seq<Seq<u8>>> {
    Seq::new(subs.len(), |i: int| request(subs[i], SubBackendMsgType::SUBSCRIBE))
}

/// The frames of each message.
pub open spec fn messages_view(messages: Seq<ZmqMessage>) -> Seq<Seq<Seq<u8>>> {
    Seq::new(messages.len(), |i: int| messages[i]@)
}

pub struct SubSocketBackend {
    pub generic: GenericSocketBackend,
    /// The topics that were asked for.
    pub subs: Topics,
}

/// A SUB backend as a value.
#[verifier::ext_equal]
pub struct SubView {
    pub generic: BackendView,
    pub subs: Seq<Seq<char>>,
}

impl View for SubSocketBackend {
    type V = SubView;

    open spec fn view(&self) -> SubView {
        SubView { generic: self.generic@, subs: self.subs@ }
    }
}

pub struct SubSocket {
    pub backend: SubSocketBackend,
    /// Handles to background reconnection tasks
    pub reconnect_handles: Vec<ReconnectHandle>,
}

/// A message that is being sent to every peer.
#[derive(Debug)]
pub struct Broadcast {
    pub message: ZmqMessage,
    /// The queues to send on.
    pub queues: Vec<u64>,
    /// How many of them are done with.
    pub sent: usize,
}

/// The requests that are being sent to a new peer.
#[derive(Debug)]
pub struct Requests {
    pub messages: Vec<ZmqMessage>,
    /// How many of them went out.
    pub sent: usize,
    /// One of them did not.
    pub failed: bool,
}

impl Requests {
    /// No more requests went out than there are.
    pub open spec fn wf(&self) -> bool {
        self.sent <= self.messages@.len()
    }

    /// Every request went out.
    pub open spec fn complete(&self) -> bool {
        !self.failed && self.sent == self.messages@.len()
    }

    /// The frames to send next.
    pub open spec fn offer(&self) -> Option<Seq<Seq<u8>>> {
        if !self.failed && self.sent < self.messages@.len() {
            Some(self.messages@[self.sent as int]@)
        } else {
            None
        }
    }

    /// The request to send next, while requests are left and none has failed.
    pub fn next(&self) -> (r: Option<ZmqMessage>)
        requires
            self.wf(),
        ensures
            r is Some <==> self.offer() is Some,
            r matches Some(message) ==> self.offer() == Some(message@),
    {
        if !self.failed && self.sent < self.messages.len() {
            Some(self.messages[self.sent].clone())
        } else {
            None
        }
    }

    /// Takes note of how sending went. After the first failure nothing more is sent.
    pub fn note(&mut self, outcome: Result<(), CodecError>)
        requires
            !old(self).failed,
            old(self).sent < old(self).messages@.len(),
        ensures
            *final(self) == (match outcome {
                Ok(()) => Requests { sent: (old(self).sent + 1) as usize, ..*old(self) },
                Err(_) => Requests { failed: true, ..*old(self) },
            }),
    {
        match outcome {
            Ok(()) => {
                assert(self.sent < self.messages.len());
                self.sent = self.sent + 1;
            },
            Err(_) => {
                self.failed = true;
            },
        }
    }

    /// Whether every request went out.
    pub fn is_complete(&self) -> (r: bool)
        ensures
            r == self.complete(),
    {
        !self.failed && self.sent == self.messages.len()
    }
}

/// The queues of peers.
pub open spec fn queues_of(r: RegistryView, ids: Seq<u64>) -> Seq<u64> {
    Seq::new(ids.len(), |i: int| r.peers[ids[i]].send_queue)
}

/// A request to all peers, in no particular order.
pub open spec fn asks_all(
    b: Broadcast,
    r: RegistryView,
    topic: Seq<char>,
    kind: SubBackendMsgType,
) -> bool {
    &&& b.wf()
    &&& b.message@ == request(topic, kind)
    &&& b.sent == 0
    &&& exists|ids: Seq<u64>| #[trigger]
        registry::enumerates(ids, r.peers.dom()) && b.queues@ == queues_of(r, ids)
}

impl Broadcast {
    /// No more queues are done with than there are.
    pub open spec fn wf(&self) -> bool {
        self.sent <= self.queues@.len()
    }

    /// The queue to send on next, and the frames to send.
    pub open spec fn offer(&self) -> Option<(u64, Seq<Seq<u8>>)> {
        if self.sent < self.queues@.len() {
            Some((self.queues@[self.sent as int], self.message@))
        } else {
            None
        }
    }

    /// The queue to send the message on next, while queues are left.
    pub fn next(&self) -> (r: Option<(u64, ZmqMessage)>)
        requires
            self.wf(),
        ensures
            r is Some <==> self.offer() is Some,
            r matches Some((queue, message)) ==> self.offer() == Some((queue, message@)),
    {
        if self.sent < self.queues.len() {
            Some((self.queues[self.sent], self.message.clone()))
        } else {
            None
        }
    }

    /// Takes note of how sending went. The first failure ends the broadcast.
    pub fn note(&mut self, outcome: Result<(), CodecError>) -> (failure: Option<ZmqError>)
        requires
            old(self).sent < old(self).queues@.len(),
        ensures
            match outcome {
                Ok(()) => failure is None && *final(self) == (Broadcast {
                    sent: (old(self).sent + 1) as usize,
                    ..*old(self)
                }),
                Err(e) => failure == Some(ZmqError::Codec(e)) && *final(self) == *old(self),
            },
    {
        match outcome {
            Ok(()) => {
                assert(self.sent < self.queues.len());
                self.sent = self.sent + 1;
                None
            },
            Err(e) => Some(ZmqError::Codec(e)),
        }
    }
}

impl SubSocketBackend {
    pub fn with_options(fair_queue: bool, socket_type: SocketType, options: SocketOptions) -> (r:
        SubSocketBackend)
        ensures
            r@ == (SubView {
                generic: BackendView {
                    socket_type,
                    registry: RegistryView::fresh(Policy::Standard, options),
                    round_robin: Seq::empty(),
                    fair_queue,
                },
                subs: Seq::empty(),
            }),
    {
        SubSocketBackend {
            generic: GenericSocketBackend::with_options(fair_queue, socket_type, options),
            subs: Topics::new(),
        }
    }

    /// The message that asks for a topic, or gives it up.
    pub fn create_subs_message(subscription: &str, msg_type: SubBackendMsgType) -> (r: ZmqMessage)
        requires
            topics::fits(subscription@),
        ensures
            r@ == request(subscription@, msg_type),
    {
        let topic = subscription.as_bytes();
        let mut buf = octets::buffer_with_capacity(topic.len() + 1);
        octets::put_u8(&mut buf, msg_type.code());
        octets::extend_from_slice(&mut buf, topic);
        let frame = octets::freeze(buf);
        assert(octets::of(frame) =~= seq![msg_type.octet()] + utf8::encode_utf8(subscription@));
        ZmqMessage::from_frame(frame)
    }

    pub fn socket_type(&self) -> (r: SocketType)
        ensures
            r == self@.generic.socket_type,
    {
        self.generic.socket_type()
    }

    pub fn socket_options(&self) -> (r: &SocketOptions)
        ensures
            *r == self@.generic.registry.socket_options,
    {
        self.generic.socket_options()
    }

    /// Lets a channel monitor the socket, in place of the one that did.
    pub fn monitor(&mut self, monitor: u64) -> (replaced: Option<u64>)
        ensures
            final(self)@ == (SubView {
                generic: BackendView {
                    registry: RegistryView {
                        monitor: Some(monitor),
                        ..old(self)@.generic.registry
                    },
                    ..old(self)@.generic
                },
                ..old(self)@
            }),
            replaced == old(self)@.generic.registry.monitor,
    {
        self.generic.monitor(monitor)
    }

    /// Register a notifier to be called when a peer disconnects.
    ///
    /// Used by reconnection tasks to be notified when they should attempt reconnection.
    pub fn register_disconnect_notifier(&mut self, peer: u64, notifier: u64)
        ensures
            final(self)@ == (SubView {
                generic: BackendView {
                    registry: old(self)@.generic.registry.with_notifier(peer, notifier),
                    ..old(self)@.generic
                },
                ..old(self)@
            }),
    {
        self.generic.register_disconnect_notifier(peer, notifier)
    }

    /// Unregister a disconnect notifier for a peer.
    pub fn unregister_disconnect_notifier(&mut self, peer: u64)
        ensures
            final(self)@ == (SubView {
                generic: BackendView {
                    registry: old(self)@.generic.registry.without_notifier(peer),
                    ..old(self)@.generic
                },
                ..old(self)@
            }),
    {
        self.generic.unregister_disconnect_notifier(peer)
    }

    /// What a new peer is sent before anything else: a request for each topic.
    pub fn subs_requests(&self) -> (r: Requests)
        ensures
            messages_view(r.messages@) == requests(self@.subs),
            r.sent == 0,
            !r.failed,
    {
        let mut messages: Vec<ZmqMessage> = Vec::new();
        let mut i: usize = 0;
        while i < self.subs.len()
            invariant
                i <= self.subs@.len(),
                messages_view(messages@) == requests(self.subs@).take(i as int),
            decreases self.subs@.len() - i,
        {
            let message = Self::create_subs_message(
                self.subs.topic(i),
                SubBackendMsgType::SUBSCRIBE,
            );
            let ghost before = messages@;
            messages.push(message);
            assert(messages_view(messages@) =~= messages_view(before).push(message@));
            assert(messages_view(messages@) =~= requests(self.subs@).take(i + 1));
            i = i + 1;
        }
        assert(requests(self.subs@).take(i as int) =~= requests(self.subs@));
        Requests { messages, sent: 0, failed: false }
    }

    /// Takes a peer in that was sent all the requests, with a heartbeat made at `now`. A peer
    /// that could not be sent them is not taken in: its connection is dropped.
    pub fn peer_connected(
        &mut self,
        peer: u64,
        send_queue: u64,
        stream: u64,
        requested: &Requests,
        task: u64,
        now: u64,
        out: &mut Actions,
    )
        ensures
            ({
                let was = old(self)@.generic;
                let is = final(self)@.generic;
                let h = is.registry.heartbeats[peer];
                &&& final(self)@.subs == old(self)@.subs
                &&& if requested.complete() {
                    &&& was.registry.starts(h, task, now)
                    &&& is == was.connected(peer, peers::plain(send_queue), h, stream)
                    &&& final(out)@ == old(out)@ + was.connect_actions(peer, stream, task)
                } else {
                    &&& is == was
                    &&& final(out)@ == old(out)@.push(
                        ActionView::CloseSender { queue: send_queue },
                    ).push(ActionView::CloseStream { stream })
                }
            }),
    {
        if requested.is_complete() {
            self.generic.peer_connected(peer, send_queue, stream, task, now, out);
        } else {
            out.push(Action::CloseSender { queue: send_queue });
            out.push(Action::CloseStream { stream });
        }
    }

    /// Lets a peer go.
    pub fn peer_disconnected(&mut self, peer: u64, out: &mut Actions)
        ensures
            final(self)@ == (SubView {
                generic: BackendView {
                    registry: old(self)@.generic.registry.disconnected(peer),
                    ..old(self)@.generic
                },
                ..old(self)@
            }),
            final(out)@ == old(out)@ + old(self)@.generic.registry.disconnect_actions(peer),
    {
        self.generic.peer_disconnected(peer, out)
    }

    /// Gives up all connections, the senders before the streams.
    pub fn shutdown(&mut self, out: &mut Actions)
        ensures
            final(self)@ == (SubView {
                generic: BackendView {
                    registry: old(self)@.generic.registry.closed(),
                    ..old(self)@.generic
                },
                ..old(self)@
            }),
            exists|ids: Seq<u64>, fed: Seq<u64>| #[trigger]
                registry::enumerates(ids, old(self)@.generic.registry.peers.dom()) && #[trigger]
                registry::enumerates(fed, old(self)@.generic.registry.streams.dom()) && final(out)@
                    == old(out)@ + old(self)@.generic.registry.close_actions(ids, fed),
    {
        self.generic.shutdown(out)
    }
}

/// What comes of what the fair queue yields, where the clock shows `now`.
///
/// Messages are handed over. Commands keep the heartbeat going. A stream's failure makes
/// receiving fail, and its peer go. Where no stream is left all peers go.
pub open spec fn received(
    event: StreamEvent,
    was: RegistryView,
    said: Seq<ActionView>,
    now: u64,
    is: RegistryView,
    out: Seq<ActionView>,
    r: Received,
) -> bool {
    match event {
        StreamEvent::Item { peer, message } => {
            &&& is == was.after_item(peer, message@, now)
            &&& out == said + was.item_actions(peer, message@)
            &&& match message {
                Message::Message(m) => r == Received::Message(m),
                _ => r is Pending,
            }
        },
        StreamEvent::Failed { peer, error } => {
            &&& is == was.disconnected(peer)
            &&& out == said + was.disconnect_actions(peer)
            &&& r == Received::Error(ZmqError::Codec(error))
        },
        StreamEvent::Drained => {
            &&& exists|ids: Seq<u64>| #[trigger]
                registry::enumerates(ids, was.peers.dom()) && is == was.disconnected_all(ids) && out
                    == said + was.disconnect_all_actions(ids)
            &&& r is Pending
        },
    }
}

impl SubSocket {
    pub fn with_options(options: SocketOptions) -> (r: SubSocket)
        ensures
            r.backend@ == (SubView {
                generic: BackendView {
                    socket_type: SocketType::SUB,
                    registry: RegistryView::fresh(Policy::Standard, options),
                    round_robin: Seq::empty(),
                    fair_queue: true,
                },
                subs: Seq::empty(),
            }),
            r.reconnect_handles@.len() == 0,
    {
        SubSocket {
            backend: SubSocketBackend::with_options(true, SocketType::SUB, options),
            reconnect_handles: Vec::new(),
        }
    }

    /// Lets a channel monitor the socket, in place of the one that did.
    pub fn monitor(&mut self, monitor: u64) -> (replaced: Option<u64>)
        ensures
            final(self).backend@ == (SubView {
                generic: BackendView {
                    registry: RegistryView {
                        monitor: Some(monitor),
                        ..old(self).backend@.generic.registry
                    },
                    ..old(self).backend@.generic
                },
                ..old(self).backend@
            }),
            final(self).reconnect_handles == old(self).reconnect_handles,
            replaced == old(self).backend@.generic.registry.monitor,
    {
        self.backend.monitor(monitor)
    }

    /// Takes note of a connection that was made to an endpoint, and of the task that
    /// will make it again if it is lost.
    pub fn connected(
        &mut self,
        endpoint: String,
        peer: u64,
        reconnect: ReconnectHandle,
        out: &mut Actions,
    )
        ensures
            final(self).backend == old(self).backend,
            final(self).reconnect_handles@ == old(self).reconnect_handles@.push(reconnect),
            final(out)@ == old(out)@ + old(self).backend@.generic.registry.monitor_actions(
                SocketEventView::Connected { endpoint: endpoint@, peer },
            ),
    {
        self.backend.generic.registry.emit(SocketEvent::Connected { endpoint, peer }, out);
        self.reconnect_handles.push(reconnect);
    }

    /// Gives the socket up: its reconnection tasks first, then its connections.
    pub fn close(&mut self, out: &mut Actions)
        ensures
            final(self).backend@ == (SubView {
                generic: BackendView {
                    registry: old(self).backend@.generic.registry.closed(),
                    ..old(self).backend@.generic
                },
                ..old(self).backend@
            }),
            final(self).reconnect_handles@.len() == 0,
            exists|ids: Seq<u64>, fed: Seq<u64>| #[trigger]
                registry::enumerates(ids, old(self).backend@.generic.registry.peers.dom())
                    && #[trigger] registry::enumerates(
                    fed,
                    old(self).backend@.generic.registry.streams.dom(),
                ) && final(out)@ == old(out)@ + reconnect::stop_actions(
                    old(self).reconnect_handles@,
                ) + old(self).backend@.generic.registry.close_actions(ids, fed),
    {
        reconnect::stop_all(&mut self.reconnect_handles, out);
        self.backend.shutdown(out);
    }

    /// Asks for a topic: it is kept for peers to come, and requested from those that are
    /// there.
    pub fn subscribe(&mut self, subscription: &str) -> (b: Broadcast)
        requires
            topics::fits(subscription@),
        ensures
            final(self).backend@ == (SubView {
                subs: topics::with_topic(old(self).backend@.subs, subscription@),
                ..old(self).backend@
            }),
            final(self).reconnect_handles == old(self).reconnect_handles,
            asks_all(
                b,
                old(self).backend@.generic.registry,
                subscription@,
                SubBackendMsgType::SUBSCRIBE,
            ),
    {
        self.backend.subs.insert(subscription);
        self.process_subs(subscription, SubBackendMsgType::SUBSCRIBE)
    }

    /// Gives a topic up.
    pub fn unsubscribe(&mut self, subscription: &str) -> (b: Broadcast)
        requires
            topics::fits(subscription@),
        ensures
            final(self).backend@ == (SubView {
                subs: topics::without_topic(old(self).backend@.subs, subscription@),
                ..old(self).backend@
            }),
            final(self).reconnect_handles == old(self).reconnect_handles,
            asks_all(
                b,
                old(self).backend@.generic.registry,
                subscription@,
                SubBackendMsgType::UNSUBSCRIBE,
            ),
    {
        self.backend.subs.remove(subscription);
        self.process_subs(subscription, SubBackendMsgType::UNSUBSCRIBE)
    }

    /// Begins to send a request to every peer.
    pub fn process_subs(&self, subscription: &str, msg_type: SubBackendMsgType) -> (b: Broadcast)
        requires
            topics::fits(subscription@),
        ensures
            asks_all(b, self.backend@.generic.registry, subscription@, msg_type),
    {
        let message = SubSocketBackend::create_subs_message(subscription, msg_type);
        let table = &self.backend.generic.registry.peers;
        let ids = table.ids();
        let ghost r = self.backend@.generic.registry;
        let mut queues: Vec<u64> = Vec::new();
        let mut i: usize = 0;
        while i < ids.len()
            invariant
                i <= ids@.len(),
                table@ == r.peers,
                ids@.to_set() == r.peers.dom(),
                queues@ == queues_of(r, ids@).take(i as int),
            decreases ids@.len() - i,
        {
            assert(ids@.to_set().contains(ids@[i as int]));
            match table.send_queue(ids[i]) {
                Some(queue) => {
                    queues.push(queue);
                },
                None => {},
            }
            assert(queues@ =~= queues_of(r, ids@).take(i + 1));
            i = i + 1;
        }
        assert(queues_of(r, ids@).take(i as int) =~= queues_of(r, ids@));
        assert(registry::enumerates(ids@, r.peers.dom()));
        Broadcast { message, queues, sent: 0 }
    }

    /// Takes what the fair queue yields, where the clock shows `now`.
    pub fn recv_at(&mut self, event: StreamEvent, now: u64, out: &mut Actions) -> (r: Received)
        ensures
            final(self).reconnect_handles == old(self).reconnect_handles,
            final(self).backend@ == (SubView {
                generic: BackendView {
                    registry: final(self).backend@.generic.registry,
                    ..old(self).backend@.generic
                },
                ..old(self).backend@
            }),
            received(
                event,
                old(self).backend@.generic.registry,
                old(out)@,
                now,
                final(self).backend@.generic.registry,
                final(out)@,
                r,
            ),
    {
        match event {
            StreamEvent::Item { peer, message } => {
                self.backend.generic.registry.item_received(peer, &message, now, out);
                match message {
                    Message::Message(m) => Received::Message(m),
                    _ => Received::Pending,
                }
            },
            StreamEvent::Failed { peer, error } => {
                self.backend.peer_disconnected(peer, out);
                Received::Error(ZmqError::Codec(error))
            },
            StreamEvent::Drained => {
                self.backend.generic.registry.all_disconnected(out);
                Received::Pending
            },
        }
    }

    /// Takes what happens on the fair queue, where the clock shows `now` and then `last`.
    /// Where what it yields leaves nothing to hand over, the dead peers go. The end of a
    /// peer's stream makes the peer go.
    pub fn recv_step_at(&mut self, event: QueueEvent, now: u64, last: u64, out: &mut Actions) -> (r:
        Received)
        ensures
            final(self).reconnect_handles == old(self).reconnect_handles,
            final(self).backend@ == (SubView {
                generic: BackendView {
                    registry: final(self).backend@.generic.registry,
                    ..old(self).backend@.generic
                },
                ..old(self).backend@
            }),
            ({
                let was = old(self).backend@.generic.registry;
                let is = final(self).backend@.generic.registry;
                match event {
                    QueueEvent::Yielded(e) => exists|mid: RegistryView, said: Seq<ActionView>|
                        #[trigger] received(e, was, old(out)@, now, mid, said, r)
                            && receive::settled(r, mid, said, last, is, final(out)@),
                    QueueEvent::Ended { peer } => {
                        &&& is == was.disconnected(peer)
                        &&& final(out)@ == old(out)@ + was.disconnect_actions(peer)
                        &&& r is Pending
                    },
                }
            }),
    {
        match event {
            QueueEvent::Yielded(e) => {
                let r = self.recv_at(e, now, out);
                if let Received::Pending = r {
                    self.backend.generic.registry.check_timeouts_at(last, out);
                }
                r
            },
            QueueEvent::Ended { peer } => {
                self.backend.peer_disconnected(peer, out);
                Received::Pending
            },
        }
    }
}

/// A message is handed over with all its frames as it came; commands and greetings are not
/// handed over. A failure is handed on, and its peer is gone. When no stream is left, no
/// peer is.
pub proof fn messages_are_handed_over(
    event: StreamEvent,
    was: RegistryView,
    said: Seq<ActionView>,
    now: u64,
    is: RegistryView,
    out: Seq<ActionView>,
    r: Received,
)
    requires
        received(event, was, said, now, is, out, r),
    ensures
        match event {
            StreamEvent::Item { peer, message } => match message@ {
                MessageView::Message(frames) => r matches Received::Message(m) && m@ == frames,
                _ => r is Pending,
            },
            StreamEvent::Failed { peer, error } => (r matches Received::Error(ZmqError::Codec(e))
                && e == error) && !(is.peers.contains_key(peer)) && !(is.heartbeats.contains_key(
                peer,
            )) && !(is.streams.contains_key(peer)),
            StreamEvent::Drained => r is Pending && is.peers == Map::<u64, PeerView>::empty(),
        },
{
    if event is Drained {
        let ids = choose|ids: Seq<u64>| #[trigger]
            registry::enumerates(ids, was.peers.dom()) && is == was.disconnected_all(ids) && out
                == said + was.disconnect_all_actions(ids);
        lifecycle::nobody_is_left(was, ids);
    }
}

/// What comes in from a peer is activity of that peer, and a PING is answered; no peer comes
/// or goes by it, and nobody else is concerned.
pub proof fn hearing_keeps_the_peer(
    peer: u64,
    message: Message,
    was: RegistryView,
    said: Seq<ActionView>,
    now: u64,
    is: RegistryView,
    out: Seq<ActionView>,
    r: Received,
    other: u64,
)
    requires
        received(StreamEvent::Item { peer, message }, was, said, now, is, out, r),
    ensures
        is.peers == was.peers,
        is.streams == was.streams,
        is.notifiers == was.notifiers,
        is.heartbeats.dom() == was.heartbeats.dom(),
        was.heartbeats.contains_key(peer) ==> is.heartbeats[peer].tracker.last_activity_ms == now,
        other != peer ==> lifecycle::same_at(was, is, other),
        out == said + was.item_actions(peer, message@),
{
    lifecycle::hearing_touches_one_peer(was, peer, message@, now, other);
    lifecycle::hearing_is_activity(was, peer, message@, now);
}

/// A request is one frame: the octet 1 and the topic in UTF-8, or the octet 0 where the topic
/// is given up.
pub proof fn requests_are_one_frame(topic: Seq<char>)
    ensures
        request(topic, SubBackendMsgType::SUBSCRIBE).len() == 1,
        request(topic, SubBackendMsgType::SUBSCRIBE)[0].len() == utf8::encode_utf8(topic).len() + 1,
        request(topic, SubBackendMsgType::SUBSCRIBE)[0][0] == 1,
        request(topic, SubBackendMsgType::SUBSCRIBE)[0].skip(1) == utf8::encode_utf8(topic),
        request(topic, SubBackendMsgType::UNSUBSCRIBE).len() == 1,
        request(topic, SubBackendMsgType::UNSUBSCRIBE)[0][0] == 0,
        request(topic, SubBackendMsgType::UNSUBSCRIBE)[0].skip(1) == utf8::encode_utf8(topic),
{
    assert(request(topic, SubBackendMsgType::SUBSCRIBE)[0].skip(1) =~= utf8::encode_utf8(topic));
    assert(request(topic, SubBackendMsgType::UNSUBSCRIBE)[0].skip(1) =~= utf8::encode_utf8(topic));
}

/// A new peer is asked for each topic, in turn.
pub proof fn each_topic_is_requested(subs: Seq<Seq<char>>, i: int)
    ensures
        requests(subs).len() == subs.len(),
        0 <= i < subs.len() ==> requests(subs)[i] == request(subs[i], SubBackendMsgType::SUBSCRIBE),
{
}

/// A request to all peers reaches each peer on its queue, once, and nobody else.
pub proof fn every_peer_is_asked(
    b: Broadcast,
    r: RegistryView,
    topic: Seq<char>,
    kind: SubBackendMsgType,
)
    requires
        asks_all(b, r, topic, kind),
    ensures
        b.message@ == request(topic, kind),
        b.sent == 0,
        exists|ids: Seq<u64>| #[trigger]
            ids.no_duplicates() && ids.len() == b.queues@.len() && (forall|peer: u64|
                r.peers.contains_key(peer) <==> #[trigger] ids.contains(peer)) && (forall|i: int|
                0 <= i < ids.len() ==> b.queues@[i] == r.peers[#[trigger] ids[i]].send_queue),
{
    let ids = choose|ids: Seq<u64>| #[trigger]
        registry::enumerates(ids, r.peers.dom()) && b.queues@ == queues_of(r, ids);
    assert forall|peer: u64| r.peers.contains_key(peer) <==> #[trigger] ids.contains(peer) by {
        assert(ids.to_set().contains(peer) == ids.contains(peer));
    }
    assert(ids.no_duplicates());
}

/// As long as queues are left, the next gets the whole request. A new peer gets every request
/// in turn, and no more once one has failed; it has got all of them when nothing failed and
/// none is left.
pub proof fn requests_go_out_in_turn(b: Broadcast, q: Requests)
    ensures
        b.sent >= b.queues@.len() ==> b.offer() is None,
        b.sent < b.queues@.len() ==> b.offer() == Some((b.queues@[b.sent as int], b.message@)),
        q.failed || q.sent >= q.messages@.len() ==> q.offer() is None,
        !q.failed && q.sent < q.messages@.len() ==> q.offer() == Some(
            q.messages@[q.sent as int]@,
        ),
        q.wf() ==> (q.complete() <==> !q.failed && q.offer() is None),
{
}

} // verus!
