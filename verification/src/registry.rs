//! What every socket keeps of its peers, and how peers come and go.
use crate::actions::{Action, ActionView, Actions};
use crate::command;
use crate::command::{CommandView, ZmqCommand, ZmqCommandName};
use crate::error::IoErrorKind;
use crate::heartbeat;
use crate::heartbeat::{
    ActivityTracker, HeartbeatAction, HeartbeatConfig, HeartbeatEvent, HeartbeatHandle,
};
use crate::heartbeats;
use crate::heartbeats::{Heartbeat, Heartbeats};
use crate::message::{Message, MessageView};
use crate::peers;
use crate::peers::{Peer, PeerTable, PeerView};
use crate::policy::{PeerPolicy, Policy};
use crate::socket::{SocketEvent, SocketEventView, SocketOptions};
use std::collections::HashMap;
use vstd::prelude::*;

verus! {

broadcast use vstd::std_specs::hash::group_hash_axioms;

/// The peers of a socket with all that goes with them. Peers are known by keys,
/// connections, channels and tasks by handles.
pub struct Registry<P: PeerPolicy> {
    /// How peers are treated.
    pub policy: P,
    pub socket_options: SocketOptions,
    pub peers: PeerTable,
    pub heartbeats: Heartbeats,
    /// The streams in the fair queue, by peer.
    pub streams: HashMap<u64, u64>,
    /// The channel that monitors the socket.
    pub socket_monitor: Option<u64>,
    /// The channels of reconnection tasks, by peer.
    pub disconnect_notifiers: HashMap<u64, u64>,
}

/// A registry as a value.
#[verifier::ext_equal]
pub struct RegistryView {
    pub policy: Policy,
    pub socket_options: SocketOptions,
    pub peers: Map<u64, PeerView>,
    pub heartbeats: Map<u64, Heartbeat>,
    pub streams: Map<u64, u64>,
    pub monitor: Option<u64>,
    pub notifiers: Map<u64, u64>,
}

impl<P: PeerPolicy> View for Registry<P> {
    type V = RegistryView;

    open spec fn view(&self) -> RegistryView {
        RegistryView {
            policy: P::policy(),
            socket_options: self.socket_options,
            peers: self.peers@,
            heartbeats: self.heartbeats@,
            streams: self.streams@,
            monitor: self.socket_monitor,
            notifiers: self.disconnect_notifiers@,
        }
    }
}

/// What giving up a peer's sender asks for.
pub open spec fn sender_closed(peer: PeerView) -> Seq<ActionView> {
    let close = seq![ActionView::CloseSender { queue: peer.send_queue }];
    match peer.coro_stop {
        Some(stop) => close.push(ActionView::StopSubscription { stop }),
        None => close,
    }
}

/// A row that lists each member of a set once.
pub open spec fn enumerates(ids: Seq<u64>, set: Set<u64>) -> bool {
    ids.no_duplicates() && ids.to_set() == set
}

/// Actions may be put down one part at a time.
proof fn parts_join(
    said: Seq<ActionView>,
    a: Seq<ActionView>,
    b: Seq<ActionView>,
    c: Seq<ActionView>,
    d: Seq<ActionView>,
    e: Seq<ActionView>,
)
    ensures
        said + a + b + c == said + (a + b + c),
        said + a + b + c + d + e == said + (a + b + c + d + e),
{
    assert(said + a + b + c =~= said + (a + b + c));
    assert(said + a + b + c + d + e =~= said + (a + b + c + d + e));
}

/// What giving up streams asks for depends on the streams alone.
proof fn streams_alone_matter(a: RegistryView, b: RegistryView, ids: Seq<u64>)
    requires
        a.streams == b.streams,
    ensures
        a.all_stream_actions(ids) == b.all_stream_actions(ids),
    decreases ids.len(),
{
    if ids.len() > 0 {
        streams_alone_matter(a, b, ids.drop_last());
    }
}

impl RegistryView {
    /// A registry that knows no peer.
    pub open spec fn fresh(policy: Policy, socket_options: SocketOptions) -> RegistryView {
        RegistryView {
            policy,
            socket_options,
            peers: Map::empty(),
            heartbeats: Map::empty(),
            streams: Map::empty(),
            monitor: None,
            notifiers: Map::empty(),
        }
    }

    /// After a reconnection task asked to be told of a peer's going.
    pub open spec fn with_notifier(self, peer: u64, notifier: u64) -> RegistryView {
        RegistryView { notifiers: self.notifiers.insert(peer, notifier), ..self }
    }

    /// After nobody wants to be told of a peer's going.
    pub open spec fn without_notifier(self, peer: u64) -> RegistryView {
        RegistryView { notifiers: self.notifiers.remove(peer), ..self }
    }

    /// After all connections were given up.
    pub open spec fn closed(self) -> RegistryView {
        RegistryView { peers: Map::empty(), streams: Map::empty(), ..self }
    }

    /// What giving up all connections asks for: the senders of `ids`, then the streams
    /// of `fed`.
    pub open spec fn close_actions(self, ids: Seq<u64>, fed: Seq<u64>) -> Seq<ActionView> {
        self.all_sender_actions(ids) + self.all_stream_actions(fed)
    }

    /// What giving up a peer's sender asks for, if it has one.
    pub open spec fn sender_actions(self, peer: u64) -> Seq<ActionView> {
        match peers::entry(self.peers, peer) {
            Some(p) => sender_closed(p),
            None => Seq::empty(),
        }
    }

    /// What giving up a peer's heartbeat asks for, if a task runs it.
    pub open spec fn heartbeat_actions(self, peer: u64) -> Seq<ActionView> {
        if self.heartbeats.contains_key(peer) {
            match self.heartbeats[peer].handle {
                Some(handle) => seq![ActionView::StopHeartbeat { task: handle.task }],
                None => Seq::empty(),
            }
        } else {
            Seq::empty()
        }
    }

    /// What giving up a peer's stream asks for, if it has one.
    pub open spec fn stream_actions(self, peer: u64) -> Seq<ActionView> {
        if self.streams.contains_key(peer) {
            seq![ActionView::CloseStream { stream: self.streams[peer] }]
        } else {
            Seq::empty()
        }
    }

    /// What telling the monitor asks for, if there is one.
    pub open spec fn monitor_actions(self, event: SocketEventView) -> Seq<ActionView> {
        match self.monitor {
            Some(monitor) => seq![ActionView::Emit { monitor, event }],
            None => Seq::empty(),
        }
    }

    /// What telling a peer's reconnection task asks for, if there is one.
    pub open spec fn notifier_actions(self, peer: u64) -> Seq<ActionView> {
        if self.notifiers.contains_key(peer) {
            seq![ActionView::Notify { notifier: self.notifiers[peer], peer }]
        } else {
            Seq::empty()
        }
    }

    /// After a peer has gone.
    pub open spec fn disconnected(self, peer: u64) -> RegistryView {
        RegistryView {
            peers: self.peers.remove(peer),
            heartbeats: self.heartbeats.remove(peer),
            streams: self.streams.remove(peer),
            notifiers: if self.policy == Policy::Silent {
                self.notifiers
            } else {
                self.notifiers.remove(peer)
            },
            ..self
        }
    }

    /// What a peer's going asks for.
    pub open spec fn disconnect_actions(self, peer: u64) -> Seq<ActionView> {
        let gone = self.monitor_actions(SocketEventView::Disconnected { peer });
        if self.policy == Policy::Silent {
            self.sender_actions(peer) + self.heartbeat_actions(peer) + self.stream_actions(peer)
        } else if self.policy == Policy::Reply {
            gone + self.sender_actions(peer) + self.stream_actions(peer) + self.heartbeat_actions(
                peer,
            ) + self.notifier_actions(peer)
        } else {
            gone + self.sender_actions(peer) + self.heartbeat_actions(peer) + self.stream_actions(
                peer,
            ) + self.notifier_actions(peer)
        }
    }

    /// After peers have gone, one after the other.
    pub open spec fn disconnected_all(self, ids: Seq<u64>) -> RegistryView
        decreases ids.len(),
    {
        if ids.len() == 0 {
            self
        } else {
            self.disconnected_all(ids.drop_last()).disconnected(ids.last())
        }
    }

    /// What the going of peers asks for, one after the other.
    pub open spec fn disconnect_all_actions(self, ids: Seq<u64>) -> Seq<ActionView>
        decreases ids.len(),
    {
        if ids.len() == 0 {
            Seq::empty()
        } else {
            self.disconnect_all_actions(ids.drop_last()) + self.disconnected_all(
                ids.drop_last(),
            ).disconnect_actions(ids.last())
        }
    }

    /// What giving up the senders of peers asks for.
    pub open spec fn all_sender_actions(self, ids: Seq<u64>) -> Seq<ActionView>
        decreases ids.len(),
    {
        if ids.len() == 0 {
            Seq::empty()
        } else {
            self.all_sender_actions(ids.drop_last()) + self.sender_actions(ids.last())
        }
    }

    /// What giving up the streams of peers asks for.
    pub open spec fn all_stream_actions(self, ids: Seq<u64>) -> Seq<ActionView>
        decreases ids.len(),
    {
        if ids.len() == 0 {
            Seq::empty()
        } else {
            self.all_stream_actions(ids.drop_last()) + self.stream_actions(ids.last())
        }
    }

    /// A new peer's heartbeat, made at `now`. A task sends PINGs only where the options
    /// enable it. The configuration is that of the options where PINGs are enabled, and
    /// under the reply policy in any case; otherwise, and where the options have none, it is the
    /// default.
    pub open spec fn starts(self, h: Heartbeat, task: u64, now: u64) -> bool {
        let enabled = self.socket_options.heartbeat_enabled;
        &&& h.handle == if enabled {
            Some(HeartbeatHandle { task })
        } else {
            None
        }
        &&& h.tracker == ActivityTracker::fresh(h.tracker.config, now)
        &&& match self.socket_options.heartbeat_config {
            Some(config) => if enabled || self.policy == Policy::Reply {
                h.tracker.config == config
            } else {
                h.tracker.config.is_default()
            },
            None => h.tracker.config.is_default(),
        }
    }

    /// What a new heartbeat asks for.
    pub open spec fn start_actions(self, peer: u64, task: u64) -> Seq<ActionView> {
        if self.socket_options.heartbeat_enabled {
            seq![ActionView::StartHeartbeat { peer, task }]
        } else {
            Seq::empty()
        }
    }

    /// After a command came in from a peer.
    pub open spec fn after_command(self, peer: u64, c: CommandView, now: u64) -> RegistryView {
        RegistryView {
            heartbeats: match c.name {
                ZmqCommandName::PING => heartbeats::after_ping(self.heartbeats, peer, c.ttl, now),
                ZmqCommandName::PONG => heartbeats::after_pong(self.heartbeats, peer, now),
                ZmqCommandName::READY => heartbeats::after_activity(self.heartbeats, peer, now),
            },
            ..self
        }
    }

    /// What a command from a peer asks for: a PING is answered by a PONG with the same
    /// context.
    pub open spec fn command_actions(self, peer: u64, c: CommandView) -> Seq<ActionView> {
        if c.name == ZmqCommandName::PING && self.peers.contains_key(peer) {
            seq![
                ActionView::Send {
                    queue: self.peers[peer].send_queue,
                    message: MessageView::Command(command::pong_view(c.context)),
                },
            ]
        } else {
            Seq::empty()
        }
    }

    /// What the PING of a peer's heartbeat asks for, while the peer is there.
    pub open spec fn ping_actions(self, peer: u64, ttl: Option<u16>) -> Seq<ActionView> {
        if self.peers.contains_key(peer) {
            seq![
                ActionView::Send {
                    queue: self.peers[peer].send_queue,
                    message: MessageView::Command(command::ping_view(ttl, None)),
                },
            ]
        } else {
            Seq::empty()
        }
    }

    /// After something came in from a peer: a command, or else just some activity.
    pub open spec fn after_item(self, peer: u64, message: MessageView, now: u64) -> RegistryView {
        match message {
            MessageView::Command(c) => self.after_command(peer, c, now),
            _ => self.after_activity(peer, now),
        }
    }

    /// What something that came in from a peer asks for.
    pub open spec fn item_actions(self, peer: u64, message: MessageView) -> Seq<ActionView> {
        match message {
            MessageView::Command(c) => self.command_actions(peer, c),
            _ => Seq::empty(),
        }
    }

    /// After a look at one peer's silence.
    pub open spec fn after_look(self, peer: u64, now: u64) -> RegistryView {
        if heartbeats::is_dead(self.heartbeats, peer, now) {
            self.disconnected(peer)
        } else {
            self
        }
    }

    /// What a look at one peer's silence asks for.
    pub open spec fn look_actions(self, peer: u64, now: u64) -> Seq<ActionView> {
        if heartbeats::is_dead(self.heartbeats, peer, now) {
            self.disconnect_actions(peer)
        } else {
            Seq::empty()
        }
    }

    /// After the peers that are dead at `now` have gone, in no particular order. The actions
    /// `said` are followed by what their going asks for.
    pub open spec fn swept(
        self,
        now: u64,
        after: RegistryView,
        said: Seq<ActionView>,
        out: Seq<ActionView>,
    ) -> bool {
        exists|ids: Seq<u64>| #[trigger]
            enumerates(ids, heartbeats::dead_peers(self.heartbeats, now)) && after
                == self.disconnected_all(ids) && out == said + self.disconnect_all_actions(ids)
    }

    /// After a peer came, with its heartbeat.
    pub open spec fn connected(self, peer: u64, p: PeerView, h: Heartbeat) -> RegistryView {
        RegistryView {
            peers: self.peers.insert(peer, p),
            heartbeats: self.heartbeats.insert(peer, h),
            ..self
        }
    }

    /// After a peer's stream went into the fair queue.
    pub open spec fn with_stream(self, peer: u64, stream: u64) -> RegistryView {
        RegistryView { streams: self.streams.insert(peer, stream), ..self }
    }

    /// What a peer's coming asks for: whatever was kept of an earlier peer with the
    /// same key is given up.
    pub open spec fn connect_actions(self, peer: u64, task: u64) -> Seq<ActionView> {
        self.sender_actions(peer) + self.start_actions(peer, task) + self.heartbeat_actions(peer)
    }

    /// What a stream's going into the fair queue asks for.
    pub open spec fn open_actions(self, peer: u64, stream: u64) -> Seq<ActionView> {
        self.stream_actions(peer).push(ActionView::OpenStream { peer, stream })
    }

    /// After a peer was active.
    pub open spec fn after_activity(self, peer: u64, now: u64) -> RegistryView {
        RegistryView {
            heartbeats: heartbeats::after_activity(self.heartbeats, peer, now),
            ..self
        }
    }
}

impl<P: PeerPolicy> Registry<P> {
    pub fn new(policy: P, socket_options: SocketOptions) -> (r: Registry<P>)
        ensures
            r@ == RegistryView::fresh(P::policy(), socket_options),
    {
        Registry {
            policy,
            socket_options,
            peers: PeerTable::new(),
            heartbeats: Heartbeats::new(),
            streams: HashMap::new(),
            socket_monitor: None,
            disconnect_notifiers: HashMap::new(),
        }
    }

    /// Lets a channel monitor the socket, in place of the one that did.
    pub fn set_monitor(&mut self, monitor: u64) -> (replaced: Option<u64>)
        ensures
            final(self)@ == (RegistryView { monitor: Some(monitor), ..old(self)@ }),
            replaced == old(self)@.monitor,
    {
        let replaced = self.socket_monitor;
        self.socket_monitor = Some(monitor);
        replaced
    }

    /// Register a notifier to be called when a peer disconnects.
    ///
    /// Used by reconnection tasks to be notified when they should attempt reconnection.
    pub fn register_disconnect_notifier(&mut self, peer: u64, notifier: u64)
        ensures
            final(self)@ == old(self)@.with_notifier(peer, notifier),
    {
        self.disconnect_notifiers.insert(peer, notifier);
    }

    /// Unregister a disconnect notifier for a peer.
    pub fn unregister_disconnect_notifier(&mut self, peer: u64)
        ensures
            final(self)@ == old(self)@.without_notifier(peer),
    {
        self.disconnect_notifiers.remove(&peer);
    }

    /// Tells the monitor of an event.
    pub fn emit(&self, event: SocketEvent, out: &mut Actions)
        ensures
            final(out)@ == old(out)@ + self@.monitor_actions(event@),
    {
        match self.socket_monitor {
            Some(monitor) => {
                out.push(Action::Emit { monitor, event });
            },
            None => {},
        }
        assert(out@ =~= old(out)@ + self@.monitor_actions(event@));
    }

    /// Gives up what a taken-out peer holds.
    fn close_sender(taken: Option<Peer>, out: &mut Actions)
        ensures
            final(out)@ == old(out)@ + (match peers::found(taken) {
                Some(p) => sender_closed(p),
                None => Seq::empty(),
            }),
    {
        match taken {
            Some(peer) => {
                out.push(Action::CloseSender { queue: peer.send_queue });
                match peer.coro_stop {
                    Some(stop) => {
                        out.push(Action::StopSubscription { stop });
                    },
                    None => {},
                }
                assert(out@ =~= old(out)@ + sender_closed(peer@));
            },
            None => {
                assert(out@ =~= old(out)@ + Seq::empty());
            },
        }
    }

    /// Gives up a taken-out heartbeat.
    fn close_heartbeat(taken: Option<Heartbeat>, out: &mut Actions)
        ensures
            final(out)@ == old(out)@ + (match taken {
                Some(h) => match h.handle {
                    Some(handle) => seq![ActionView::StopHeartbeat { task: handle.task }],
                    None => Seq::empty(),
                },
                None => Seq::empty(),
            }),
    {
        match taken {
            Some(h) => match h.handle {
                Some(handle) => {
                    out.push(Action::StopHeartbeat { task: handle.shutdown() });
                    return;
                },
                None => {},
            },
            None => {},
        }
        assert(out@ =~= old(out)@ + Seq::empty());
    }

    fn drop_sender(&mut self, peer: u64, out: &mut Actions)
        ensures
            final(self)@ == (RegistryView { peers: old(self)@.peers.remove(peer), ..old(self)@ }),
            final(out)@ == old(out)@ + old(self)@.sender_actions(peer),
    {
        let taken = self.peers.remove(peer);
        Self::close_sender(taken, out);
    }

    fn drop_heartbeat(&mut self, peer: u64, out: &mut Actions)
        ensures
            final(self)@ == (RegistryView {
                heartbeats: old(self)@.heartbeats.remove(peer),
                ..old(self)@
            }),
            final(out)@ == old(out)@ + old(self)@.heartbeat_actions(peer),
    {
        let taken = self.heartbeats.remove(peer);
        Self::close_heartbeat(taken, out);
    }

    fn drop_stream(&mut self, peer: u64, out: &mut Actions)
        ensures
            final(self)@ == (RegistryView {
                streams: old(self)@.streams.remove(peer),
                ..old(self)@
            }),
            final(out)@ == old(out)@ + old(self)@.stream_actions(peer),
    {
        match self.streams.remove(&peer) {
            Some(stream) => {
                out.push(Action::CloseStream { stream });
            },
            None => {},
        }
        assert(out@ =~= old(out)@ + old(self)@.stream_actions(peer));
    }

    fn notify(&mut self, peer: u64, out: &mut Actions)
        ensures
            final(self)@ == (RegistryView {
                notifiers: old(self)@.notifiers.remove(peer),
                ..old(self)@
            }),
            final(out)@ == old(out)@ + old(self)@.notifier_actions(peer),
    {
        match self.disconnect_notifiers.remove(&peer) {
            Some(notifier) => {
                out.push(Action::Notify { notifier, peer });
            },
            None => {},
        }
        assert(out@ =~= old(out)@ + old(self)@.notifier_actions(peer));
    }

    /// Lets a peer go: everything that is kept of it is given up, and whoever should
    /// know is told.
    pub fn peer_disconnected(&mut self, peer: u64, out: &mut Actions)
        ensures
            final(self)@ == old(self)@.disconnected(peer),
            final(out)@ == old(out)@ + old(self)@.disconnect_actions(peer),
    {
        let ghost was = self@;
        let ghost gone = was.monitor_actions(SocketEventView::Disconnected { peer });
        let ghost sender = was.sender_actions(peer);
        let ghost heartbeat = was.heartbeat_actions(peer);
        let ghost stream = was.stream_actions(peer);
        let ghost notifier = was.notifier_actions(peer);
        proof {
            let none = Seq::empty();
            parts_join(out@, sender, heartbeat, stream, none, none);
            parts_join(out@, gone, sender, stream, heartbeat, notifier);
            parts_join(out@, gone, sender, heartbeat, stream, notifier);
        }
        let policy = self.policy.kind();
        if policy == Policy::Silent {
            self.drop_sender(peer, out);
            self.drop_heartbeat(peer, out);
            self.drop_stream(peer, out);
        } else if policy == Policy::Reply {
            self.emit(SocketEvent::Disconnected { peer }, out);
            self.drop_sender(peer, out);
            self.drop_stream(peer, out);
            self.drop_heartbeat(peer, out);
            self.notify(peer, out);
        } else {
            self.emit(SocketEvent::Disconnected { peer }, out);
            self.drop_sender(peer, out);
            self.drop_heartbeat(peer, out);
            self.drop_stream(peer, out);
            self.notify(peer, out);
        }
    }

    /// Lets peers go, one after the other.
    pub fn peers_disconnected(&mut self, ids: &Vec<u64>, out: &mut Actions)
        ensures
            final(self)@ == old(self)@.disconnected_all(ids@),
            final(out)@ == old(out)@ + old(self)@.disconnect_all_actions(ids@),
    {
        let ghost start = self@;
        let ghost said = out@;
        let mut i: usize = 0;
        assert(out@ =~= said + start.disconnect_all_actions(ids@.take(0)));
        while i < ids.len()
            invariant
                i <= ids@.len(),
                self@ == start.disconnected_all(ids@.take(i as int)),
                out@ == said + start.disconnect_all_actions(ids@.take(i as int)),
            decreases ids@.len() - i,
        {
            let ghost step = self@.disconnect_actions(ids@[i as int]);
            assert(ids@.take(i + 1).drop_last() =~= ids@.take(i as int));
            assert(said + start.disconnect_all_actions(ids@.take(i as int)) + step =~= said + (
            start.disconnect_all_actions(ids@.take(i as int)) + step));
            self.peer_disconnected(ids[i], out);
            i = i + 1;
        }
        assert(ids@.take(i as int) =~= ids@);
    }

    /// Takes a peer's sender in.
    pub fn admit_sender(&mut self, peer: u64, sender: Peer, out: &mut Actions)
        ensures
            final(self)@ == (RegistryView {
                peers: old(self)@.peers.insert(peer, sender@),
                ..old(self)@
            }),
            final(out)@ == old(out)@ + old(self)@.sender_actions(peer),
    {
        let taken = self.peers.insert(peer, sender);
        Self::close_sender(taken, out);
    }

    /// Makes a new peer's heartbeat. `task` is to run it, where PINGs are sent.
    pub fn start_heartbeat(&self, peer: u64, task: u64, now: u64, out: &mut Actions) -> (h:
        Heartbeat)
        ensures
            self@.starts(h, task, now),
            final(out)@ == old(out)@ + self@.start_actions(peer, task),
    {
        let enabled = self.socket_options.heartbeat_enabled;
        let config = if enabled || self.policy.kind() == Policy::Reply {
            match self.socket_options.heartbeat_config {
                Some(config) => config,
                None => HeartbeatConfig::default(),
            }
        } else {
            HeartbeatConfig::default()
        };
        let tracker = ActivityTracker::new_at(config, now);
        let handle = if enabled {
            out.push(Action::StartHeartbeat { peer, task });
            Some(HeartbeatHandle { task })
        } else {
            None
        };
        assert(out@ =~= old(out)@ + self@.start_actions(peer, task));
        Heartbeat { tracker, handle }
    }

    /// Takes a peer's heartbeat in.
    pub fn admit_heartbeat(&mut self, peer: u64, h: Heartbeat, out: &mut Actions)
        ensures
            final(self)@ == (RegistryView {
                heartbeats: old(self)@.heartbeats.insert(peer, h),
                ..old(self)@
            }),
            final(out)@ == old(out)@ + old(self)@.heartbeat_actions(peer),
    {
        let taken = self.heartbeats.insert(peer, h);
        Self::close_heartbeat(taken, out);
    }

    /// Puts a peer's stream into the fair queue.
    pub fn admit_stream(&mut self, peer: u64, stream: u64, out: &mut Actions)
        ensures
            final(self)@ == old(self)@.with_stream(peer, stream),
            final(out)@ == old(out)@ + old(self)@.open_actions(peer, stream),
    {
        self.drop_stream(peer, out);
        self.streams.insert(peer, stream);
        out.push(Action::OpenStream { peer, stream });
        assert(self@ =~= old(self)@.with_stream(peer, stream));
        assert(out@ =~= old(out)@ + old(self)@.open_actions(peer, stream));
    }

    /// Takes a peer in, with a heartbeat made at `now`.
    pub fn peer_connected(
        &mut self,
        peer: u64,
        send_queue: u64,
        task: u64,
        now: u64,
        out: &mut Actions,
    )
        ensures
            old(self)@.starts(final(self)@.heartbeats[peer], task, now),
            final(self)@ == old(self)@.connected(
                peer,
                peers::plain(send_queue),
                final(self)@.heartbeats[peer],
            ),
            final(out)@ == old(out)@ + old(self)@.connect_actions(peer, task),
    {
        let ghost was = self@;
        proof {
            parts_join(
                out@,
                was.sender_actions(peer),
                was.start_actions(peer, task),
                was.heartbeat_actions(peer),
                Seq::empty(),
                Seq::empty(),
            );
        }
        self.admit_sender(peer, Peer::new(send_queue), out);
        let h = self.start_heartbeat(peer, task, now, out);
        self.admit_heartbeat(peer, h, out);
    }

    /// Takes note of what came in from a peer. A PING is answered by a PONG.
    pub fn item_received(&mut self, peer: u64, message: &Message, now: u64, out: &mut Actions)
        ensures
            final(self)@ == old(self)@.after_item(peer, message@, now),
            final(out)@ == old(out)@ + old(self)@.item_actions(peer, message@),
    {
        match message {
            Message::Command(c) => self.command_received(peer, c, now, out),
            _ => {
                self.heartbeats.record_activity_at(peer, now);
                assert(out@ =~= old(out)@ + Seq::empty());
            },
        }
    }

    /// Takes note of a command from a peer. A PING is answered by a PONG.
    pub fn command_received(&mut self, peer: u64, c: &ZmqCommand, now: u64, out: &mut Actions)
        ensures
            final(self)@ == old(self)@.after_command(peer, c@, now),
            final(out)@ == old(out)@ + old(self)@.command_actions(peer, c@),
    {
        match c.name {
            ZmqCommandName::PING => {
                self.heartbeats.received_ping_at(peer, c.ttl, now);
                match self.peers.send_queue(peer) {
                    Some(queue) => {
                        let pong = ZmqCommand::pong(command::share_context(&c.context));
                        out.push(Action::Send { queue, message: Message::Command(pong) });
                    },
                    None => {},
                }
            },
            ZmqCommandName::PONG => {
                self.heartbeats.received_pong_at(peer, now);
            },
            ZmqCommandName::READY => {
                self.heartbeats.record_activity_at(peer, now);
            },
        }
        assert(out@ =~= old(out)@ + old(self)@.command_actions(peer, c@));
    }

    /// Lets a peer go if it is dead at `now`.
    pub fn look_at(&mut self, peer: u64, now: u64, out: &mut Actions) -> (dead: bool)
        ensures
            dead == heartbeats::is_dead(old(self)@.heartbeats, peer, now),
            final(self)@ == old(self)@.after_look(peer, now),
            final(out)@ == old(out)@ + old(self)@.look_actions(peer, now),
    {
        let dead = self.heartbeats.is_dead_at(peer, now);
        if dead {
            self.peer_disconnected(peer, out);
        }
        assert(out@ =~= old(out)@ + old(self)@.look_actions(peer, now));
        dead
    }

    /// Lets all peers go, in no particular order.
    pub fn all_disconnected(&mut self, out: &mut Actions)
        ensures
            exists|ids: Seq<u64>| #[trigger]
                enumerates(ids, old(self)@.peers.dom()) && final(self)@ == old(
                    self,
                )@.disconnected_all(ids) && final(out)@ == old(out)@ + old(
                    self,
                )@.disconnect_all_actions(ids),
    {
        let ids = self.peers.ids();
        assert(enumerates(ids@, self@.peers.dom()));
        self.peers_disconnected(&ids, out);
    }

    /// Lets the peers go that are dead at `now`, in no particular order.
    pub fn check_timeouts_at(&mut self, now: u64, out: &mut Actions)
        ensures
            old(self)@.swept(now, final(self)@, old(out)@, final(out)@),
    {
        let ids = self.heartbeats.dead_at(now);
        assert(enumerates(ids@, heartbeats::dead_peers(self@.heartbeats, now)));
        self.peers_disconnected(&ids, out);
    }

    /// Gives all senders up, in no particular order. What else is kept of the peers
    /// stays.
    pub fn close_senders(&mut self, out: &mut Actions)
        ensures
            final(self)@ == (RegistryView { peers: Map::empty(), ..old(self)@ }),
            exists|ids: Seq<u64>| #[trigger]
                enumerates(ids, old(self)@.peers.dom()) && final(out)@ == old(out)@ + old(
                    self,
                )@.all_sender_actions(ids),
    {
        let ids = self.peers.ids();
        assert(enumerates(ids@, self@.peers.dom()));
        let ghost said = out@;
        let mut i: usize = 0;
        assert(out@ =~= said + self@.all_sender_actions(ids@.take(0)));
        while i < ids.len()
            invariant
                i <= ids@.len(),
                *self == *old(self),
                out@ == said + self@.all_sender_actions(ids@.take(i as int)),
            decreases ids@.len() - i,
        {
            let id = ids[i];
            let ghost before = out@;
            match self.peers.send_queue(id) {
                Some(queue) => {
                    out.push(Action::CloseSender { queue });
                    match self.peers.coro_stop(id) {
                        Some(stop) => {
                            out.push(Action::StopSubscription { stop });
                        },
                        None => {},
                    }
                },
                None => {},
            }
            assert(out@ =~= before + self@.sender_actions(id));
            assert(ids@.take(i + 1).drop_last() =~= ids@.take(i as int));
            assert(out@ =~= said + self@.all_sender_actions(ids@.take(i + 1)));
            i = i + 1;
        }
        assert(ids@.take(i as int) =~= ids@);
        self.peers.clear();
    }

    /// Gives all streams up, in no particular order.
    pub fn close_streams(&mut self, out: &mut Actions)
        ensures
            final(self)@ == (RegistryView { streams: Map::empty(), ..old(self)@ }),
            exists|ids: Seq<u64>| #[trigger]
                enumerates(ids, old(self)@.streams.dom()) && final(out)@ == old(out)@ + old(
                    self,
                )@.all_stream_actions(ids),
    {
        let ghost said = out@;
        let ghost was = self@;
        let ghost mut listed: Seq<u64> = Seq::empty();
        assert(out@ =~= said + was.all_stream_actions(listed));
        for peer in it: self.streams.keys()
            invariant
                it.seq().unref().to_set() == self.streams@.dom(),
                it.seq().no_duplicates(),
                *self == *old(self),
                was == self@,
                listed == it.seq().unref().take(it.index()),
                listed.no_duplicates(),
                it.index() == it.seq().len() ==> listed == it.seq().unref(),
                out@ == said + was.all_stream_actions(listed),
        {
            let ghost keys = it.seq().unref();
            let ghost at = it.index();
            assert(keys[at] == *peer);
            assert(keys.to_set().contains(*peer));
            let ghost before = out@;
            match self.streams.get(peer) {
                Some(stream) => {
                    out.push(Action::CloseStream { stream: *stream });
                },
                None => {},
            }
            assert(out@ =~= before + was.stream_actions(*peer));
            proof {
                let longer = listed.push(*peer);
                assert(longer =~= keys.take(at + 1));
                assert(longer.no_duplicates()) by {
                    assert forall|i: int, j: int|
                        0 <= i < longer.len() && 0 <= j < longer.len() && i != j implies longer[i]
                        != longer[j] by {
                        assert(*it.seq()[i] == longer[i] && *it.seq()[j] == longer[j]);
                    }
                }
                assert(keys.take(keys.len() as int) =~= keys);
                assert(longer.drop_last() =~= listed);
                assert(out@ =~= said + was.all_stream_actions(longer));
                listed = longer;
            }
        }
        assert(enumerates(listed, was.streams.dom()));
        self.streams.clear();
    }

    /// Gives all connections up: the senders, then the streams.
    pub fn shutdown(&mut self, out: &mut Actions)
        ensures
            final(self)@ == old(self)@.closed(),
            exists|ids: Seq<u64>, fed: Seq<u64>| #[trigger]
                enumerates(ids, old(self)@.peers.dom()) && #[trigger] enumerates(
                    fed,
                    old(self)@.streams.dom(),
                ) && final(out)@ == old(out)@ + old(self)@.close_actions(ids, fed),
    {
        let ghost was = self@;
        let ghost said = out@;
        self.close_senders(out);
        let ghost mid = self@;
        let ghost ids = choose|ids: Seq<u64>| #[trigger]
            enumerates(ids, was.peers.dom()) && out@ == said + was.all_sender_actions(ids);
        let ghost halfway = out@;
        self.close_streams(out);
        proof {
            let fed = choose|fed: Seq<u64>| #[trigger]
                enumerates(fed, mid.streams.dom()) && out@ == halfway + mid.all_stream_actions(fed);
            streams_alone_matter(mid, was, fed);
            assert(enumerates(ids, was.peers.dom()) && enumerates(fed, was.streams.dom()));
            assert(out@ =~= said + was.close_actions(ids, fed));
        }
    }

    /// Moves a peer's heartbeat task on, where the clock shows `now` and then `later`.
    /// A task that does not run the peer's heartbeat any more stops, though not before it
    /// has reported a PING that failed.
    pub fn heartbeat_step_at(
        &mut self,
        peer: u64,
        task: u64,
        event: HeartbeatEvent,
        now: u64,
        later: u64,
    ) -> (action: HeartbeatAction)
        ensures
            heartbeats::runs(old(self)@.heartbeats, peer, task) ==> {
                let t = old(self)@.heartbeats[peer].tracker;
                &&& action.kind() == heartbeat::heartbeat_next(event, t, now, later)
                &&& action.fits(t.config)
                &&& final(self)@ == (RegistryView {
                    heartbeats: heartbeats::with_tracker(
                        old(self)@.heartbeats,
                        peer,
                        heartbeat::heartbeat_tracker(event, t, now),
                    ),
                    ..old(self)@
                })
            },
            !heartbeats::runs(old(self)@.heartbeats, peer, task) ==> action.kind()
                == heartbeats::last_action(event) && final(self)@ == old(self)@,
    {
        self.heartbeats.step_at(peer, task, event, now, later)
    }

    /// The PING of a peer's heartbeat. It fails where the peer is gone.
    pub fn send_ping(&self, peer: u64, ttl: Option<u16>, out: &mut Actions) -> (r: Result<
        (),
        IoErrorKind,
    >)
        ensures
            r == (if self@.peers.contains_key(peer) {
                Ok::<(), IoErrorKind>(())
            } else {
                Err(IoErrorKind::ConnectionAborted)
            }),
            final(out)@ == old(out)@ + self@.ping_actions(peer, ttl),
    {
        match self.peers.send_queue(peer) {
            Some(queue) => {
                let ping = ZmqCommand::ping(ttl, None);
                out.push(Action::Send { queue, message: Message::Command(ping) });
                assert(out@ =~= old(out)@ + self@.ping_actions(peer, ttl));
                Ok(())
            },
            None => {
                assert(out@ =~= old(out)@ + self@.ping_actions(peer, ttl));
                Err(IoErrorKind::ConnectionAborted)
            },
        }
    }

    /// What a heartbeat task does with a dead peer: the peer goes, and the task is told
    /// to stop.
    pub fn heartbeat_timeout(&mut self, peer: u64, out: &mut Actions) -> (stop: bool)
        ensures
            stop,
            final(self)@ == old(self)@.disconnected(peer),
            final(out)@ == old(out)@ + old(self)@.disconnect_actions(peer),
    {
        self.peer_disconnected(peer, out);
        true
    }
}

/// A registry is seen with all that it keeps, and a peer with its queue, its task and each of
/// its topics.
pub proof fn registries_are_seen_whole<P: PeerPolicy>(r: Registry<P>, p: Peer, i: int)
    ensures
        r@.policy == P::policy(),
        r@.socket_options == r.socket_options,
        r@.peers == r.peers@,
        r@.heartbeats == r.heartbeats@,
        r@.streams == r.streams@,
        r@.monitor == r.socket_monitor,
        r@.notifiers == r.disconnect_notifiers@,
        p@.send_queue == p.send_queue,
        p@.coro_stop == p.coro_stop,
        p@.subscriptions.len() == p.subscriptions@.len(),
        0 <= i < p.subscriptions@.len() ==> p@.subscriptions[i] == p.subscriptions@[i]@,
{
}

/// A row that enumerates a set holds each member once and nothing else.
pub proof fn enumerations_are_exact(ids: Seq<u64>, set: Set<u64>, peer: u64)
    requires
        enumerates(ids, set),
    ensures
        ids.contains(peer) <==> set.contains(peer),
        forall|i: int, j: int|
            0 <= i < ids.len() && 0 <= j < ids.len() && i != j ==> ids[i] != ids[j],
{
    assert(ids.to_set().contains(peer) == ids.contains(peer));
}

} // verus!
