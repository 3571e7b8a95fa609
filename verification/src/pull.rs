//! The PULL socket: it receives from all its peers.
use crate::actions::{ActionView, Actions};
use crate::backend::{BackendView, GenericSocketBackend};
use crate::error::ZmqError;
use crate::lifecycle;
use crate::message::{Message, MessageView};
use crate::peers::PeerView;
use crate::receive;
use crate::receive::{QueueEvent, Received, StreamEvent};
use crate::policy::Policy;
use crate::registry;
use crate::registry::RegistryView;
use crate::socket::{SocketOptions, SocketType};
use vstd::prelude::*;

verus! {

pub struct PullSocket {
    pub backend: GenericSocketBackend,
}

/// After something came in from a peer: the peer is let go if it is found dead
/// all the same. A greeting is not followed by such a look.
pub open spec fn after_item(
    r: RegistryView,
    peer: u64,
    message: MessageView,
    now: u64,
    later: u64,
) -> RegistryView {
    let heard = r.after_item(peer, message, now);
    if message is Greeting {
        heard
    } else {
        heard.after_look(peer, later)
    }
}

/// What comes of what the fair queue yields, where the clock shows `now` and then `later`.
///
/// Messages are handed over. Commands keep the heartbeat going. A stream's failure makes
/// receiving fail, and its peer go. Where no stream is left all peers go.
pub open spec fn received(
    event: StreamEvent,
    was: RegistryView,
    said: Seq<ActionView>,
    now: u64,
    later: u64,
    is: RegistryView,
    out: Seq<ActionView>,
    r: Received,
) -> bool {
    match event {
        StreamEvent::Item { peer, message } => {
            let answered = said + was.item_actions(peer, message@);
            &&& is == after_item(was, peer, message@, now, later)
            &&& out == if message@ is Greeting {
                answered
            } else {
                answered + was.after_item(peer, message@, now).look_actions(peer, later)
            }
            &&& match message {
                Message::Message(m) => r == Received::Message(m),
                _ => r is Pending,
            }
        },
        StreamEvent::Failed { peer, error } => {
            &&& is == was.disconnected(peer)
            &&& out == said + was.disconnect_actions(peer)
            &&& r == Received::Error(ZmqError::Codec(error))
        },
        StreamEvent::Drained => {
            &&& exists|ids: Seq<u64>| #[trigger]
                registry::enumerates(ids, was.peers.dom()) && is == was.disconnected_all(ids) && out
                    == said + was.disconnect_all_actions(ids)
            &&& r is Pending
        },
    }
}

impl PullSocket {
    pub fn with_options(options: SocketOptions) -> (r: PullSocket)
        ensures
            r.backend@ == (BackendView {
                socket_type: SocketType::PULL,
                registry: RegistryView::fresh(Policy::Standard, options),
                round_robin: Seq::empty(),
                fair_queue: true,
            }),
    {
        PullSocket { backend: GenericSocketBackend::with_options(true, SocketType::PULL, options) }
    }

    /// Lets a channel monitor the socket, in place of the one that did.
    pub fn monitor(&mut self, monitor: u64) -> (replaced: Option<u64>)
        ensures
            final(self).backend@ == (BackendView {
                registry: RegistryView { monitor: Some(monitor), ..old(self).backend@.registry },
                ..old(self).backend@
            }),
            replaced == old(self).backend@.registry.monitor,
    {
        self.backend.monitor(monitor)
    }

    /// Takes what the fair queue yields, where the clock shows `now` and then `later`.
    pub fn recv_at(&mut self, event: StreamEvent, now: u64, later: u64, out: &mut Actions) -> (r:
        Received)
        ensures
            final(self).backend@ == (BackendView {
                registry: final(self).backend@.registry,
                ..old(self).backend@
            }),
            received(
                event,
                old(self).backend@.registry,
                old(out)@,
                now,
                later,
                final(self).backend@.registry,
                final(out)@,
                r,
            ),
    {
        match event {
            StreamEvent::Item { peer, message } => {
                self.backend.registry.item_received(peer, &message, now, out);
                match message {
                    Message::Message(m) => {
                        self.backend.registry.look_at(peer, later, out);
                        Received::Message(m)
                    },
                    Message::Command(_) => {
                        self.backend.registry.look_at(peer, later, out);
                        Received::Pending
                    },
                    Message::Greeting => Received::Pending,
                }
            },
            StreamEvent::Failed { peer, error } => {
                self.backend.registry.peer_disconnected(peer, out);
                Received::Error(ZmqError::Codec(error))
            },
            StreamEvent::Drained => {
                self.backend.registry.all_disconnected(out);
                Received::Pending
            },
        }
    }

    /// Takes what happens on the fair queue, where the clock shows `now`, `later` and then
    /// `last`. Where what it yields leaves nothing to hand over, the dead peers go. The end
    /// of a peer's stream makes the peer go.
    pub fn recv_step_at(
        &mut self,
        event: QueueEvent,
        now: u64,
        later: u64,
        last: u64,
        out: &mut Actions,
    ) -> (r: Received)
        ensures
            final(self).backend@ == (BackendView {
                registry: final(self).backend@.registry,
                ..old(self).backend@
            }),
            ({
                let was = old(self).backend@.registry;
                let is = final(self).backend@.registry;
                match event {
                    QueueEvent::Yielded(e) => exists|mid: RegistryView, said: Seq<ActionView>|
                        #[trigger] received(e, was, old(out)@, now, later, mid, said, r)
                            && receive::settled(r, mid, said, last, is, final(out)@),
                    QueueEvent::Ended { peer } => {
                        &&& is == was.disconnected(peer)
                        &&& final(out)@ == old(out)@ + was.disconnect_actions(peer)
                        &&& r is Pending
                    },
                }
            }),
    {
        match event {
            QueueEvent::Yielded(e) => {
                let r = self.recv_at(e, now, later, out);
                if let Received::Pending = r {
                    self.backend.registry.check_timeouts_at(last, out);
                }
                r
            },
            QueueEvent::Ended { peer } => {
                self.backend.peer_disconnected(peer, out);
                Received::Pending
            },
        }
    }
}

/// A message is handed over with all its frames as it came; commands and greetings are not
/// handed over. A failure is handed on, and its peer is gone. When no stream is left, no
/// peer is.
pub proof fn messages_are_handed_over(
    event: StreamEvent,
    was: RegistryView,
    said: Seq<ActionView>,
    now: u64,
    later: u64,
    is: RegistryView,
    out: Seq<ActionView>,
    r: Received,
)
    requires
        received(event, was, said, now, later, is, out, r),
    ensures
        match event {
            StreamEvent::Item { peer, message } => match message@ {
                MessageView::Message(frames) => r matches Received::Message(m) && m@ == frames,
                _ => r is Pending,
            },
            StreamEvent::Failed { peer, error } => (r matches Received::Error(ZmqError::Codec(e))
                && e == error) && !(is.peers.contains_key(peer)) && !(is.heartbeats.contains_key(
                peer,
            )) && !(is.streams.contains_key(peer)),
            StreamEvent::Drained => r is Pending && is.peers == Map::<u64, PeerView>::empty(),
        },
{
    if event is Drained {
        let ids = choose|ids: Seq<u64>| #[trigger]
            registry::enumerates(ids, was.peers.dom()) && is == was.disconnected_all(ids) && out
                == said + was.disconnect_all_actions(ids);
        lifecycle::nobody_is_left(was, ids);
    }
}

/// What comes in from a peer is activity of that peer, a PING is answered, and the peer keeps
/// its place unless it is dead at `later`, which is not looked for after a greeting. Nobody
/// else is concerned.
pub proof fn hearing_keeps_the_peer(
    peer: u64,
    message: Message,
    was: RegistryView,
    said: Seq<ActionView>,
    now: u64,
    later: u64,
    is: RegistryView,
    out: Seq<ActionView>,
    r: Received,
    other: u64,
)
    requires
        received(StreamEvent::Item { peer, message }, was, said, now, later, is, out, r),
    ensures
        ({
            let heard = was.after_item(peer, message@, now);
            let dead = heard.heartbeats.contains_key(peer)
                && heard.heartbeats[peer].tracker.dead_at(later) && !(message@ is Greeting);
            &&& dead ==> is == heard.disconnected(peer)
            &&& !dead ==> is == heard && out == said + was.item_actions(peer, message@)
            &&& other != peer ==> lifecycle::same_at(was, is, other)
            &&& said.len() <= out.len() && out.take(said.len() as int) == said
        }),
{
    let heard = was.after_item(peer, message@, now);
    assert(out.take(said.len() as int) =~= said);
    assert(said + was.item_actions(peer, message@) + Seq::empty() =~= said + was.item_actions(
        peer,
        message@,
    ));
    lifecycle::hearing_touches_one_peer(was, peer, message@, now, other);
}

} // verus!
