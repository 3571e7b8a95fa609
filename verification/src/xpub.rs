//! The XPUB socket: it publishes, and hands over what its peers ask for.
use crate::actions::{ActionView, Actions};
use crate::error::ZmqError;
use crate::lifecycle;
use crate::message::{Message, MessageView, ZmqMessage};
use crate::peers;
use crate::publish;
use crate::publish::Publication;
use crate::receive;
use crate::receive::{QueueEvent, Received, StreamEvent};
use crate::policy::{Policy, Silent};
use crate::registry;
use crate::registry::{Registry, RegistryView};
use crate::socket::{SocketOptions, SocketType};
use vstd::prelude::*;

verus! {

pub struct XPubSocketBackend {
    pub registry: Registry<Silent>,
}

pub struct XPubSocket {
    pub backend: XPubSocketBackend,
}

impl XPubSocketBackend {
    pub fn with_options(options: SocketOptions) -> (r: XPubSocketBackend)
        ensures
            r.registry@ == RegistryView::fresh(Policy::Silent, options),
    {
        XPubSocketBackend { registry: Registry::new(Silent, options) }
    }

    pub fn socket_type(&self) -> (r: SocketType)
        ensures
            r == SocketType::XPUB,
    {
        SocketType::XPUB
    }

    pub fn socket_options(&self) -> (r: &SocketOptions)
        ensures
            *r == self.registry@.socket_options,
    {
        &self.registry.socket_options
    }

    /// Takes note of what a peer asks for or gives up.
    pub fn message_received(&mut self, peer: u64, message: &Message)
        ensures
            final(self).registry@ == (RegistryView {
                peers: publish::after_message(old(self).registry@.peers, peer, message@),
                ..old(self).registry@
            }),
    {
        publish::message_received(&mut self.registry, peer, message)
    }

    /// Takes a peer in, with a heartbeat made at `now`.
    pub fn peer_connected(
        &mut self,
        peer: u64,
        send_queue: u64,
        stream: u64,
        task: u64,
        now: u64,
        out: &mut Actions,
    )
        ensures
            old(self).registry@.starts(final(self).registry@.heartbeats[peer], task, now),
            final(self).registry@ == old(self).registry@.connected(
                peer,
                peers::plain(send_queue),
                final(self).registry@.heartbeats[peer],
            ).with_stream(peer, stream),
            final(out)@ == old(out)@ + old(self).registry@.connect_actions(peer, task) + old(
                self,
            ).registry@.open_actions(peer, stream),
    {
        self.registry.peer_connected(peer, send_queue, task, now, out);
        self.registry.admit_stream(peer, stream, out);
    }

    /// Lets a peer go.
    pub fn peer_disconnected(&mut self, peer: u64, out: &mut Actions)
        ensures
            final(self).registry@ == old(self).registry@.disconnected(peer),
            final(out)@ == old(out)@ + old(self).registry@.disconnect_actions(peer),
    {
        self.registry.peer_disconnected(peer, out)
    }

    /// Gives up all senders.
    pub fn shutdown(&mut self, out: &mut Actions)
        ensures
            final(self).registry@ == (RegistryView { peers: Map::empty(), ..old(self).registry@ }),
            exists|ids: Seq<u64>| #[trigger]
                registry::enumerates(ids, old(self).registry@.peers.dom()) && final(out)@ == old(
                    out,
                )@ + old(self).registry@.all_sender_actions(ids),
    {
        self.registry.close_senders(out)
    }
}

/// What comes of what the fair queue yields, where the clock shows `now`.
///
/// A message is taken note of and handed over as well. Commands keep the heartbeat going. A
/// stream's failure makes receiving fail, and its peer go. Where no stream is left there is
/// nothing to receive.
pub open spec fn received(
    event: StreamEvent,
    was: RegistryView,
    said: Seq<ActionView>,
    now: u64,
    is: RegistryView,
    out: Seq<ActionView>,
    r: Received,
) -> bool {
    match event {
        StreamEvent::Item { peer, message } => {
            &&& is == (RegistryView {
                peers: publish::after_message(was.peers, peer, message@),
                ..was.after_item(peer, message@, now)
            })
            &&& out == said + was.item_actions(peer, message@)
            &&& match message {
                Message::Message(m) => r == Received::Message(m),
                _ => r is Pending,
            }
        },
        StreamEvent::Failed { peer, error } => {
            &&& is == was.disconnected(peer)
            &&& out == said + was.disconnect_actions(peer)
            &&& r == Received::Error(ZmqError::Codec(error))
        },
        StreamEvent::Drained => {
            &&& is == was
            &&& out == said
            &&& r == Received::Error(ZmqError::NoMessage)
        },
    }
}

impl XPubSocket {
    pub fn with_options(options: SocketOptions) -> (r: XPubSocket)
        ensures
            r.backend.registry@ == RegistryView::fresh(Policy::Silent, options),
    {
        XPubSocket { backend: XPubSocketBackend::with_options(options) }
    }

    /// Lets a channel monitor the socket, in place of the one that did.
    pub fn monitor(&mut self, monitor: u64) -> (replaced: Option<u64>)
        ensures
            final(self).backend.registry@ == (RegistryView {
                monitor: Some(monitor),
                ..old(self).backend.registry@
            }),
            replaced == old(self).backend.registry@.monitor,
    {
        self.backend.registry.set_monitor(monitor)
    }

    /// Gives the socket up.
    pub fn close(&mut self, out: &mut Actions)
        ensures
            final(self).backend.registry@ == (RegistryView {
                peers: Map::empty(),
                ..old(self).backend.registry@
            }),
            exists|ids: Seq<u64>| #[trigger]
                registry::enumerates(ids, old(self).backend.registry@.peers.dom()) && final(out)@
                    == old(out)@ + old(self).backend.registry@.all_sender_actions(ids),
    {
        self.backend.shutdown(out)
    }

    /// Begins to publish a message: it goes to each peer that has asked for it.
    pub fn send(&self, message: ZmqMessage) -> (p: Publication)
        ensures
            publish::begins(self.backend.registry@.peers, message, p),
    {
        publish::publish(&self.backend.registry, message)
    }

    /// Ends a publication: the peers found to be gone are let go, unless it failed.
    pub fn sent(&mut self, p: Publication, failure: Option<ZmqError>, out: &mut Actions) -> (result:
        Result<(), ZmqError>)
        ensures
            publish::ended(
                old(self).backend.registry@,
                old(out)@,
                p,
                failure,
                final(self).backend.registry@,
                final(out)@,
                result,
            ),
    {
        publish::published(&mut self.backend.registry, p, failure, out)
    }

    /// Takes what the fair queue yields, where the clock shows `now`.
    pub fn recv_at(&mut self, event: StreamEvent, now: u64, out: &mut Actions) -> (r: Received)
        ensures
            received(
                event,
                old(self).backend.registry@,
                old(out)@,
                now,
                final(self).backend.registry@,
                final(out)@,
                r,
            ),
    {
        match event {
            StreamEvent::Item { peer, message } => {
                self.backend.registry.item_received(peer, &message, now, out);
                self.backend.message_received(peer, &message);
                match message {
                    Message::Message(m) => Received::Message(m),
                    _ => Received::Pending,
                }
            },
            StreamEvent::Failed { peer, error } => {
                self.backend.peer_disconnected(peer, out);
                Received::Error(ZmqError::Codec(error))
            },
            StreamEvent::Drained => Received::Error(ZmqError::NoMessage),
        }
    }

    /// Takes what happens on the fair queue, where the clock shows `now` and then `last`.
    /// Where what it yields leaves nothing to hand over, the dead peers go. The end of a
    /// peer's stream makes the peer go.
    pub fn recv_step_at(&mut self, event: QueueEvent, now: u64, last: u64, out: &mut Actions) -> (r:
        Received)
        ensures
            ({
                let was = old(self).backend.registry@;
                let is = final(self).backend.registry@;
                match event {
                    QueueEvent::Yielded(e) => exists|mid: RegistryView, said: Seq<ActionView>|
                        #[trigger] received(e, was, old(out)@, now, mid, said, r)
                            && receive::settled(r, mid, said, last, is, final(out)@),
                    QueueEvent::Ended { peer } => {
                        &&& is == was.disconnected(peer)
                        &&& final(out)@ == old(out)@ + was.disconnect_actions(peer)
                        &&& r is Pending
                    },
                }
            }),
    {
        match event {
            QueueEvent::Yielded(e) => {
                let r = self.recv_at(e, now, out);
                if let Received::Pending = r {
                    self.backend.registry.check_timeouts_at(last, out);
                }
                r
            },
            QueueEvent::Ended { peer } => {
                self.backend.peer_disconnected(peer, out);
                Received::Pending
            },
        }
    }
}

/// A message is handed over with all its frames as it came; commands and greetings are not
/// handed over. A failure is handed on, and its peer is gone. When no stream is left, there
/// is nothing to receive, and nothing changes.
pub proof fn messages_are_handed_over(
    event: StreamEvent,
    was: RegistryView,
    said: Seq<ActionView>,
    now: u64,
    is: RegistryView,
    out: Seq<ActionView>,
    r: Received,
)
    requires
        received(event, was, said, now, is, out, r),
    ensures
        match event {
            StreamEvent::Item { peer, message } => match message@ {
                MessageView::Message(frames) => r matches Received::Message(m) && m@ == frames,
                _ => r is Pending,
            },
            StreamEvent::Failed { peer, error } => (r matches Received::Error(ZmqError::Codec(e))
                && e == error) && !(is.peers.contains_key(peer)) && !(is.heartbeats.contains_key(
                peer,
            )) && !(is.streams.contains_key(peer)),
            StreamEvent::Drained => r == Received::Error(ZmqError::NoMessage) && is == was && out
                == said,
        },
{
}

/// What a peer asks for counts, and is activity of that peer: with the octet 1 the topic
/// stands behind its earlier ones, with the octet 0 its first occurrence is gone. No peer
/// comes or goes by what comes in, and nobody else is concerned.
pub proof fn subscriptions_are_kept(
    peer: u64,
    message: Message,
    topic: Seq<u8>,
    was: RegistryView,
    said: Seq<ActionView>,
    now: u64,
    is: RegistryView,
    out: Seq<ActionView>,
    r: Received,
    frame: Seq<u8>,
    other: u64,
)
    requires
        received(StreamEvent::Item { peer, message }, was, said, now, is, out, r),
    ensures
        is.peers.dom() == was.peers.dom(),
        is.streams == was.streams,
        was.heartbeats.contains_key(peer) ==> is.heartbeats[peer].tracker.last_activity_ms == now,
        other != peer ==> lifecycle::same_at(was, is, other),
        out == said + was.item_actions(peer, message@),
        message@ == MessageView::Message(seq![seq![1u8] + topic]) && was.peers.contains_key(peer)
            ==> is.peers[peer].subscriptions == was.peers[peer].subscriptions + seq![topic] && (
        publish::asks(is.peers, peer, frame) <==> publish::asks(was.peers, peer, frame) || exists|
            rest: Seq<u8>,
        | frame == #[trigger] (topic + rest)),
        message@ == MessageView::Message(seq![seq![0u8] + topic]) && was.peers.contains_key(peer)
            ==> is.peers[peer].subscriptions == peers::without_first(
            was.peers[peer].subscriptions,
            topic,
        ),
        was.peers.contains_key(peer) ==> is.peers[peer].send_queue == was.peers[peer].send_queue,
{
    lifecycle::hearing_touches_one_peer(was, peer, message@, now, other);
    lifecycle::hearing_is_activity(was, peer, message@, now);
    publish::only_requests_change_subscriptions(was.peers, peer, message@, other);
    if was.peers.contains_key(peer) {
        publish::requests_are_heard(was.peers, peer, topic, frame, other);
    }
}

} // verus!
