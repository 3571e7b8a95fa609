//! The REP socket: it answers requests, one at a time.
use crate::actions::{Action, ActionView, Actions};
use crate::error::ZmqError;
use crate::lifecycle;
use crate::message::{Message, MessageView, ZmqMessage};
use crate::peers;
use crate::receive;
use crate::receive::{QueueEvent, Received, StreamEvent};
use crate::reconnect;
use crate::reconnect::ReconnectHandle;
use crate::policy::{Policy, Reply};
use crate::registry;
use crate::registry::{Registry, RegistryView};
use crate::socket::{SocketEvent, SocketEventView, SocketOptions, SocketType};
use vstd::prelude::*;

verus! {

pub struct RepSocketBackend {
    pub registry: Registry<Reply>,
}

pub struct RepSocket {
    pub backend: RepSocketBackend,
    /// The frames that lead the current request back to its sender.
    pub envelope: Option<ZmqMessage>,
    /// The peer that waits for a reply.
    pub current_request: Option<u64>,
    /// Handles to background reconnection tasks
    pub reconnect_handles: Vec<ReconnectHandle>,
}

/// A REP socket as a value.
#[verifier::ext_equal]
pub struct RepView {
    pub registry: RegistryView,
    pub envelope: Option<Seq<Seq<u8>>>,
    pub current_request: Option<u64>,
    pub reconnects: Seq<ReconnectHandle>,
}

/// The frames of a message, if there is one.
pub open spec fn frames(m: Option<ZmqMessage>) -> Option<Seq<Seq<u8>>> {
    match m {
        Some(m) => Some(m@),
        None => None,
    }
}

impl View for RepSocket {
    type V = RepView;

    open spec fn view(&self) -> RepView {
        RepView {
            registry: self.backend.registry@,
            envelope: frames(self.envelope),
            current_request: self.current_request,
            reconnects: self.reconnect_handles@,
        }
    }
}

/// Where the envelope ends: behind the first empty frame, or behind the first frame
/// where none is empty.
pub open spec fn is_envelope_end(m: Seq<Seq<u8>>, at: int) -> bool {
    ||| 1 <= at <= m.len() && m[at - 1].len() == 0 && forall|i: int|
        0 <= i < at - 1 ==> (#[trigger] m[i]).len() > 0
    ||| at == 1 && forall|i: int| 0 <= i < m.len() ==> (#[trigger] m[i]).len() > 0
}

impl RepView {
    /// After a request came in whose envelope ends at `at`.
    pub open spec fn with_request(self, peer: u64, m: Seq<Seq<u8>>, at: int, now: u64) -> RepView {
        RepView {
            registry: self.registry.after_activity(peer, now),
            envelope: Some(m.take(at)),
            current_request: Some(peer),
            ..self
        }
    }

    /// The queue that a reply goes to: that of the peer whose request is in progress,
    /// while it is there.
    pub open spec fn reply_queue(self) -> Option<u64> {
        match self.current_request {
            Some(peer) => if self.registry.peers.contains_key(peer) {
                Some(self.registry.peers[peer].send_queue)
            } else {
                None
            },
            None => None,
        }
    }

    /// A reply as it is sent: behind the envelope of the request.
    pub open spec fn reply(self, message: Seq<Seq<u8>>) -> Seq<Seq<u8>> {
        match self.envelope {
            Some(envelope) => envelope + message,
            None => message,
        }
    }

    /// After a reply was sent, or refused.
    pub open spec fn after_reply(self) -> RepView {
        RepView {
            current_request: None,
            envelope: if self.reply_queue() is Some {
                None
            } else {
                self.envelope
            },
            ..self
        }
    }
}

/// What comes of sending a reply.
pub open spec fn answered(
    was: RepView,
    said: Seq<ActionView>,
    message: ZmqMessage,
    is: RepView,
    out: Seq<ActionView>,
    r: Result<(), ZmqError>,
) -> bool {
    &&& is == was.after_reply()
    &&& match was.reply_queue() {
        Some(queue) => {
            &&& r is Ok
            &&& out == said.push(
                ActionView::Send { queue, message: MessageView::Message(was.reply(message@)) },
            )
        },
        None => {
            &&& r matches Err(ZmqError::ReturnToSender { reason, message: back }) && back == message
                && reason@ == if was.current_request is Some {
                "Client disconnected"@
            } else {
                "Unable to send reply. No request in progress"@
            }
            &&& out == said
        },
    }
}

/// A message that is yielded has a frame.
pub open spec fn has_frames(event: StreamEvent) -> bool {
    event matches StreamEvent::Item { message: Message::Message(m), .. } ==> m@.len() > 0
}

/// What comes of what the fair queue yields, where the clock shows `now`.
///
/// A message becomes the request in progress: its envelope is kept, and the frames behind
/// the envelope are handed over. Commands keep the heartbeat going. A stream's failure makes
/// receiving fail, and its peer go.
pub open spec fn received(
    event: StreamEvent,
    was: RepView,
    said: Seq<ActionView>,
    now: u64,
    is: RepView,
    out: Seq<ActionView>,
    r: Received,
) -> bool {
    match event {
        StreamEvent::Item { peer, message } => {
            &&& out == said + was.registry.item_actions(peer, message@)
            &&& match message {
                Message::Message(m) => exists|at: int| #[trigger]
                    is_envelope_end(m@, at) && is == was.with_request(peer, m@, at, now) && (
                    r matches Received::Message(data) && data@ == m@.skip(at)),
                _ => is == (RepView {
                    registry: was.registry.after_item(peer, message@, now),
                    ..was
                }) && r is Pending,
            }
        },
        StreamEvent::Failed { peer, error } => {
            &&& is == (RepView { registry: was.registry.disconnected(peer), ..was })
            &&& out == said + was.registry.disconnect_actions(peer)
            &&& r == Received::Error(ZmqError::Codec(error))
        },
        StreamEvent::Drained => {
            &&& is == was
            &&& out == said
            &&& r is Pending
        },
    }
}

/// Finds where the envelope ends.
pub fn envelope_end(m: &ZmqMessage) -> (at: usize)
    ensures
        is_envelope_end(m@, at as int),
{
    let mut index: usize = 0;
    while index < m.frames.len()
        invariant
            index <= m@.len(),
            forall|i: int| 0 <= i < index ==> (#[trigger] m@[i]).len() > 0,
        decreases m@.len() - index,
    {
        match m.get(index) {
            Some(frame) => {
                if frame.len() == 0 {
                    // Include delimiter in envelope.
                    return index + 1;
                }
            },
            None => {},
        }
        index = index + 1;
    }
    1
}

impl RepSocketBackend {
    pub fn with_options(options: SocketOptions) -> (r: RepSocketBackend)
        ensures
            r.registry@ == RegistryView::fresh(Policy::Reply, options),
    {
        RepSocketBackend { registry: Registry::new(Reply, options) }
    }

    pub fn socket_type(&self) -> (r: SocketType)
        ensures
            r == SocketType::REP,
    {
        SocketType::REP
    }

    pub fn socket_options(&self) -> (r: &SocketOptions)
        ensures
            *r == self.registry@.socket_options,
    {
        &self.registry.socket_options
    }

    /// Register a notifier to be called when a peer disconnects.
    ///
    /// Used by reconnection tasks to be notified when they should attempt reconnection.
    pub fn register_disconnect_notifier(&mut self, peer: u64, notifier: u64)
        ensures
            final(self).registry@ == old(self).registry@.with_notifier(peer, notifier),
    {
        self.registry.register_disconnect_notifier(peer, notifier)
    }

    /// Unregister a disconnect notifier for a peer.
    pub fn unregister_disconnect_notifier(&mut self, peer: u64)
        ensures
            final(self).registry@ == old(self).registry@.without_notifier(peer),
    {
        self.registry.unregister_disconnect_notifier(peer)
    }

    /// Takes a peer in, with a heartbeat made at `now`.
    pub fn peer_connected(
        &mut self,
        peer: u64,
        send_queue: u64,
        stream: u64,
        task: u64,
        now: u64,
        out: &mut Actions,
    )
        ensures
            old(self).registry@.starts(final(self).registry@.heartbeats[peer], task, now),
            final(self).registry@ == old(self).registry@.connected(
                peer,
                peers::plain(send_queue),
                final(self).registry@.heartbeats[peer],
            ).with_stream(peer, stream),
            final(out)@ == old(out)@ + old(self).registry@.connect_actions(peer, task) + old(
                self,
            ).registry@.open_actions(peer, stream),
    {
        self.registry.peer_connected(peer, send_queue, task, now, out);
        self.registry.admit_stream(peer, stream, out);
    }

    /// Lets a peer go.
    pub fn peer_disconnected(&mut self, peer: u64, out: &mut Actions)
        ensures
            final(self).registry@ == old(self).registry@.disconnected(peer),
            final(out)@ == old(out)@ + old(self).registry@.disconnect_actions(peer),
    {
        self.registry.peer_disconnected(peer, out)
    }

    /// Gives up all connections, the senders before the streams. Streams are cleared to
    /// ensure that connections are closed even when reconnection tasks still hold on to
    /// the backend.
    pub fn shutdown(&mut self, out: &mut Actions)
        ensures
            final(self).registry@ == old(self).registry@.closed(),
            exists|ids: Seq<u64>, fed: Seq<u64>| #[trigger]
                registry::enumerates(ids, old(self).registry@.peers.dom()) && #[trigger]
                registry::enumerates(fed, old(self).registry@.streams.dom()) && final(out)@ == old(
                    out,
                )@ + old(self).registry@.close_actions(ids, fed),
    {
        self.registry.shutdown(out)
    }
}

impl RepSocket {
    pub fn with_options(options: SocketOptions) -> (r: RepSocket)
        ensures
            r@ == (RepView {
                registry: RegistryView::fresh(Policy::Reply, options),
                envelope: None,
                current_request: None,
                reconnects: Seq::empty(),
            }),
    {
        RepSocket {
            backend: RepSocketBackend::with_options(options),
            envelope: None,
            current_request: None,
            reconnect_handles: Vec::new(),
        }
    }

    /// Lets a channel monitor the socket, in place of the one that did.
    pub fn monitor(&mut self, monitor: u64) -> (replaced: Option<u64>)
        ensures
            final(self)@ == (RepView {
                registry: RegistryView { monitor: Some(monitor), ..old(self)@.registry },
                ..old(self)@
            }),
            replaced == old(self)@.registry.monitor,
    {
        self.backend.registry.set_monitor(monitor)
    }

    /// Takes note of a connection that was made to an endpoint, and of the task that
    /// will make it again if it is lost.
    pub fn connected(
        &mut self,
        endpoint: String,
        peer: u64,
        reconnect: ReconnectHandle,
        out: &mut Actions,
    )
        ensures
            final(self)@ == (RepView {
                reconnects: old(self)@.reconnects.push(reconnect),
                ..old(self)@
            }),
            final(out)@ == old(out)@ + old(self)@.registry.monitor_actions(
                SocketEventView::Connected { endpoint: endpoint@, peer },
            ),
    {
        self.backend.registry.emit(SocketEvent::Connected { endpoint, peer }, out);
        self.reconnect_handles.push(reconnect);
    }

    /// Gives the socket up: its reconnection tasks first, then its connections.
    pub fn close(&mut self, out: &mut Actions)
        ensures
            final(self)@ == (RepView {
                registry: old(self)@.registry.closed(),
                reconnects: Seq::empty(),
                ..old(self)@
            }),
            exists|ids: Seq<u64>, fed: Seq<u64>| #[trigger]
                registry::enumerates(ids, old(self)@.registry.peers.dom()) && #[trigger]
                registry::enumerates(fed, old(self)@.registry.streams.dom()) && final(out)@ == old(
                    out,
                )@ + reconnect::stop_actions(old(self)@.reconnects) + old(
                    self,
                )@.registry.close_actions(ids, fed),
    {
        reconnect::stop_all(&mut self.reconnect_handles, out);
        self.backend.shutdown(out);
    }

    /// Sends a reply to the peer whose request is in progress, behind the envelope of
    /// that request.
    pub fn send(&mut self, message: ZmqMessage, out: &mut Actions) -> (r: Result<(), ZmqError>)
        ensures
            answered(old(self)@, old(out)@, message, final(self)@, final(out)@, r),
    {
        let mut message = message;
        match self.current_request.take() {
            Some(peer) => {
                match self.backend.registry.peers.send_queue(peer) {
                    Some(queue) => {
                        match self.envelope.take() {
                            Some(envelope) => {
                                message.prepend(&envelope);
                            },
                            None => {},
                        }
                        out.push(Action::Send { queue, message: Message::Message(message) });
                        Ok(())
                    },
                    None => Err(
                        ZmqError::ReturnToSender { reason: "Client disconnected", message },
                    ),
                }
            },
            None => Err(
                ZmqError::ReturnToSender {
                    reason: "Unable to send reply. No request in progress",
                    message,
                },
            ),
        }
    }

    /// Takes what the fair queue yields, where the clock shows `now`.
    pub fn recv_at(&mut self, event: StreamEvent, now: u64, out: &mut Actions) -> (r: Received)
        requires
            has_frames(event),
        ensures
            received(event, old(self)@, old(out)@, now, final(self)@, final(out)@, r),
    {
        match event {
            StreamEvent::Item { peer, message } => {
                self.backend.registry.item_received(peer, &message, now, out);
                match message {
                    Message::Message(mut m) => {
                        let at = envelope_end(&m);
                        let data = m.split_off(at);
                        self.envelope = Some(m);
                        self.current_request = Some(peer);
                        Received::Message(data)
                    },
                    _ => Received::Pending,
                }
            },
            StreamEvent::Failed { peer, error } => {
                self.backend.registry.peer_disconnected(peer, out);
                Received::Error(ZmqError::Codec(error))
            },
            StreamEvent::Drained => Received::Pending,
        }
    }

    /// Takes what happens on the fair queue, where the clock shows `now` and then `last`.
    /// Where what it yields leaves nothing to hand over, the dead peers go. The end of a
    /// peer's stream makes the peer go.
    pub fn recv_step_at(&mut self, event: QueueEvent, now: u64, last: u64, out: &mut Actions) -> (r:
        Received)
        requires
            event matches QueueEvent::Yielded(e) ==> has_frames(e),
        ensures
            match event {
                QueueEvent::Yielded(e) => exists|mid: RepView, said: Seq<ActionView>|
                    #[trigger] received(e, old(self)@, old(out)@, now, mid, said, r)
                        && final(self)@ == (RepView { registry: final(self)@.registry, ..mid })
                        && receive::settled(
                        r,
                        mid.registry,
                        said,
                        last,
                        final(self)@.registry,
                        final(out)@,
                    ),
                QueueEvent::Ended { peer } => {
                    &&& final(self)@ == (RepView {
                        registry: old(self)@.registry.disconnected(peer),
                        ..old(self)@
                    })
                    &&& final(out)@ == old(out)@ + old(self)@.registry.disconnect_actions(peer)
                    &&& r is Pending
                },
            },
    {
        match event {
            QueueEvent::Yielded(e) => {
                let r = self.recv_at(e, now, out);
                if let Received::Pending = r {
                    self.backend.registry.check_timeouts_at(last, out);
                }
                r
            },
            QueueEvent::Ended { peer } => {
                self.backend.peer_disconnected(peer, out);
                Received::Pending
            },
        }
    }
}

/// A message has one envelope only.
pub proof fn envelope_is_unique(m: Seq<Seq<u8>>, a: int, b: int)
    requires
        m.len() > 0,
        is_envelope_end(m, a),
        is_envelope_end(m, b),
    ensures
        a == b,
{
    assert(m[0].len() >= 0);
    if a < b {
        assert(m[a - 1].len() >= 0);
    }
    if b < a {
        assert(m[b - 1].len() >= 0);
    }
}

/// A request that came in is answered once. The reply goes back to its sender, if that
/// is still there, behind the frames that led the request; these and the frames handed
/// over make up the request. Until the next request every further reply is refused.
pub proof fn reply_answers_request(
    s: RepView,
    peer: u64,
    m: Seq<Seq<u8>>,
    at: int,
    now: u64,
    reply: Seq<Seq<u8>>,
)
    requires
        m.len() > 0,
        is_envelope_end(m, at),
    ensures
        ({
            let asked = s.with_request(peer, m, at, now);
            &&& asked.reply_queue() == (if s.registry.peers.contains_key(peer) {
                Some(s.registry.peers[peer].send_queue)
            } else {
                None
            })
            &&& asked.reply(reply) == m.take(at) + reply
            &&& m.take(at) + m.skip(at) == m
            &&& asked.after_reply().reply_queue() is None
            &&& asked.after_reply().current_request is None
        }),
{
    assert(m.take(at) + m.skip(at) =~= m);
}

/// The envelope of a message is everything up to its first empty frame, with that frame; where
/// no frame is empty it is the first frame.
pub proof fn envelope_reaches_the_first_empty_frame(
    ids: Seq<Seq<u8>>,
    body: Seq<Seq<u8>>,
    m: Seq<Seq<u8>>,
    at: int,
)
    requires
        forall|i: int| 0 <= i < ids.len() ==> (#[trigger] ids[i]).len() > 0,
        m.len() > 0,
    ensures
        m == ids + seq![Seq::<u8>::empty()] + body && is_envelope_end(m, at) ==> m.take(at) == ids
            + seq![Seq::<u8>::empty()] && m.skip(at) == body,
        m == ids && is_envelope_end(m, at) ==> m.take(at) == seq![m[0]] && m.skip(at) == m.skip(1),
{
    if m == ids + seq![Seq::<u8>::empty()] + body && is_envelope_end(m, at) {
        let n = ids.len() as int;
        assert(m[n].len() == 0);
        assert forall|i: int| 0 <= i < n implies (#[trigger] m[i]).len() > 0 by {
            assert(m[i] == ids[i]);
        }
        assert(is_envelope_end(m, n + 1));
        envelope_is_unique(m, at, n + 1);
        assert(m.take(n + 1) =~= ids + seq![Seq::<u8>::empty()]);
        assert(m.skip(n + 1) =~= body);
    }
    if m == ids && is_envelope_end(m, at) {
        assert(is_envelope_end(m, 1));
        envelope_is_unique(m, at, 1);
        assert(m.take(1) =~= seq![m[0]]);
    }
}

/// A request is handed over without its envelope: the frames behind the first empty one, or
/// behind the first where none is empty. Its sender and its envelope are kept for the reply,
/// and no peer comes or goes by it.
pub proof fn requests_are_handed_over(
    peer: u64,
    message: Message,
    ids: Seq<Seq<u8>>,
    body: Seq<Seq<u8>>,
    was: RepView,
    said: Seq<ActionView>,
    now: u64,
    is: RepView,
    out: Seq<ActionView>,
    r: Received,
)
    requires
        received(StreamEvent::Item { peer, message }, was, said, now, is, out, r),
        forall|i: int| 0 <= i < ids.len() ==> (#[trigger] ids[i]).len() > 0,
        message is Message,
    ensures
        message@ == MessageView::Message(ids + seq![Seq::<u8>::empty()] + body) ==> {
            &&& r matches Received::Message(data) && data@ == body
            &&& is.envelope == Some(ids + seq![Seq::<u8>::empty()])
            &&& is.current_request == Some(peer)
        },
        message@ == MessageView::Message(ids) && ids.len() > 0 ==> {
            &&& r matches Received::Message(data) && data@ == ids.skip(1)
            &&& is.envelope == Some(seq![ids[0]])
            &&& is.current_request == Some(peer)
        },
        is.registry.peers == was.registry.peers,
        is.registry.streams == was.registry.streams,
        is.reconnects == was.reconnects,
        out == said,
        was.registry.heartbeats.contains_key(peer)
            ==> is.registry.heartbeats[peer].tracker.last_activity_ms == now,
{
    let m = message->Message_0@;
    let at = choose|at: int| #[trigger]
        is_envelope_end(m, at) && is == was.with_request(peer, m, at, now) && (
        r matches Received::Message(data) && data@ == m.skip(at));
    if m.len() > 0 {
        envelope_reaches_the_first_empty_frame(ids, body, m, at);
    }
    if message@ == MessageView::Message(ids + seq![Seq::<u8>::empty()] + body) {
        assert((ids + seq![Seq::<u8>::empty()] + body).len() > 0);
    }
    assert(out =~= said);
}

/// Commands and greetings are not handed over and leave the request in progress alone. A
/// failure is handed on, and its peer is gone. The end of all streams changes nothing.
pub proof fn other_events_keep_the_request(
    event: StreamEvent,
    was: RepView,
    said: Seq<ActionView>,
    now: u64,
    is: RepView,
    out: Seq<ActionView>,
    r: Received,
    other: u64,
)
    requires
        received(event, was, said, now, is, out, r),
        event matches StreamEvent::Item { message, .. } ==> !(message is Message),
    ensures
        is.envelope == was.envelope,
        is.current_request == was.current_request,
        is.reconnects == was.reconnects,
        match event {
            StreamEvent::Item { peer, message } => r is Pending && is.registry
                == was.registry.after_item(peer, message@, now) && out == said
                + was.registry.item_actions(peer, message@),
            StreamEvent::Failed { peer, error } => (r matches Received::Error(ZmqError::Codec(e))
                && e == error) && !(is.registry.peers.contains_key(peer)) && (other != peer
                ==> lifecycle::same_at(was.registry, is.registry, other)),
            StreamEvent::Drained => r is Pending && is.registry == was.registry && out == said,
        },
{
}

/// A reply goes out exactly where a request is in progress and its sender is there: to the
/// sender's queue, behind the envelope, with all its frames. Otherwise it is handed back as it
/// was and nothing goes out. In either case no request is in progress afterwards, and peers
/// stay as they are.
pub proof fn replies_go_to_the_requester(
    was: RepView,
    said: Seq<ActionView>,
    message: ZmqMessage,
    is: RepView,
    out: Seq<ActionView>,
    r: Result<(), ZmqError>,
)
    requires
        answered(was, said, message, is, out, r),
    ensures
        r is Ok <==> was.current_request is Some && was.registry.peers.contains_key(
            was.current_request->0,
        ),
        r is Ok ==> out.len() == said.len() + 1 && out.take(said.len() as int) == said && (
        out.last() matches ActionView::Send { queue, message: sent } && queue
            == was.registry.peers[was.current_request->0].send_queue && (
        sent matches MessageView::Message(frames) && frames.skip(
            frames.len() - message@.len(),
        ) == message@ && frames.take(frames.len() - message@.len()) == (match was.envelope {
            Some(envelope) => envelope,
            None => Seq::empty(),
        }))),
        r is Err ==> out == said && (r->Err_0 matches ZmqError::ReturnToSender {
            message: back,
            ..
        } && back@ == message@),
        is.current_request is None,
        is.registry == was.registry,
        is.reconnects == was.reconnects,
        r is Ok ==> is.envelope is None,
{
    if r is Ok {
        assert(out.take(said.len() as int) =~= said);
        let frames = was.reply(message@);
        assert(frames.skip(frames.len() - message@.len()) =~= message@);
        match was.envelope {
            Some(envelope) => {
                assert(frames.take(frames.len() - message@.len()) =~= envelope);
            },
            None => {
                assert(frames.take(frames.len() - message@.len()) =~= Seq::empty());
            },
        }
    }
}

} // verus!
