//! The backend of sockets that treat all peers alike.
use crate::actions::{Action, ActionView, Actions};
use crate::error::{CodecError, ZmqError};
use crate::heartbeats::Heartbeat;
use crate::message::{Message, MessageView};
use crate::peers;
use crate::peers::PeerView;
use crate::policy::{Policy, Standard};
use crate::registry;
use crate::registry::{Registry, RegistryView};
use crate::round_robin::RoundRobin;
use crate::socket::{SocketOptions, SocketType};
use vstd::prelude::*;

verus! {

pub struct GenericSocketBackend {
    pub socket_type: SocketType,
    pub registry: Registry<Standard>,
    /// Peers in the order in which they are dealt messages.
    pub round_robin: RoundRobin,
    /// Whether the socket reads from its peers.
    pub fair_queue: bool,
}

/// A backend as a value.
#[verifier::ext_equal]
pub struct BackendView {
    pub socket_type: SocketType,
    pub registry: RegistryView,
    pub round_robin: Seq<u64>,
    pub fair_queue: bool,
}

impl View for GenericSocketBackend {
    type V = BackendView;

    open spec fn view(&self) -> BackendView {
        BackendView {
            socket_type: self.socket_type,
            registry: self.registry@,
            round_robin: self.round_robin@,
            fair_queue: self.fair_queue,
        }
    }
}

/// A message on its way to the peer whose turn it is.
#[derive(Debug)]
pub struct Dispatch {
    pub peer: u64,
    pub queue: u64,
    pub message: Message,
}

/// How many entries at the front of the row stand for peers that have gone.
pub open spec fn stale(row: Seq<u64>, present: Map<u64, PeerView>) -> nat
    decreases row.len(),
{
    if row.len() == 0 || present.contains_key(row[0]) {
        0
    } else {
        1 + stale(row.skip(1), present)
    }
}

/// Why a message was not sent where no peer is left.
pub open spec fn refusal(message: MessageView, error: ZmqError) -> bool {
    match message {
        MessageView::Greeting => error == ZmqError::Socket("Sending greeting is not supported"),
        MessageView::Command(_) => error == ZmqError::Socket("Sending commands is not supported"),
        MessageView::Message(m) => error matches ZmqError::ReturnToSender { reason, message: back }
            && reason@ == "Not connected to peers. Unable to send messages"@ && back@ == m,
    }
}

/// What comes of looking for the peer whose turn it is.
pub open spec fn dealt(
    was: BackendView,
    message: Message,
    is: BackendView,
    r: Result<Dispatch, ZmqError>,
) -> bool {
    let row = was.round_robin;
    let known = was.registry.peers;
    let gone = stale(row, known);
    &&& is == (BackendView { round_robin: is.round_robin, ..was })
    &&& if gone < row.len() {
        &&& r matches Ok(d) && d.peer == row[gone as int] && d.queue == known[d.peer].send_queue
            && d.message == message
        &&& is.round_robin == row.skip(gone as int + 1)
    } else {
        &&& r matches Err(e) && refusal(message@, e)
        &&& is.round_robin.len() == 0
    }
}

/// What comes of how a dispatch went.
pub open spec fn turn_ended(
    was: BackendView,
    said: Seq<ActionView>,
    peer: u64,
    outcome: Result<(), CodecError>,
    is: BackendView,
    out: Seq<ActionView>,
    r: Result<u64, ZmqError>,
) -> bool {
    match outcome {
        Ok(()) => {
            &&& r == Ok::<u64, ZmqError>(peer)
            &&& is == (BackendView { round_robin: was.round_robin.push(peer), ..was })
            &&& out == said
        },
        Err(e) => {
            &&& r == Err::<u64, ZmqError>(ZmqError::Codec(e))
            &&& is == (BackendView { registry: was.registry.disconnected(peer), ..was })
            &&& out == said + was.registry.disconnect_actions(peer)
        },
    }
}

impl BackendView {
    /// What a peer's coming asks for.
    pub open spec fn connect_actions(self, peer: u64, stream: u64, task: u64) -> Seq<ActionView> {
        self.registry.connect_actions(peer, task) + if self.fair_queue {
            self.registry.open_actions(peer, stream)
        } else {
            seq![ActionView::CloseStream { stream }]
        }
    }

    /// After a peer came, with its heartbeat.
    pub open spec fn connected(
        self,
        peer: u64,
        p: PeerView,
        h: Heartbeat,
        stream: u64,
    ) -> BackendView {
        let known = self.registry.connected(peer, p, h);
        BackendView {
            registry: if self.fair_queue {
                known.with_stream(peer, stream)
            } else {
                known
            },
            round_robin: self.round_robin.push(peer),
            ..self
        }
    }
}

impl GenericSocketBackend {
    pub fn with_options(fair_queue: bool, socket_type: SocketType, options: SocketOptions) -> (r:
        GenericSocketBackend)
        ensures
            r@ == (BackendView {
                socket_type,
                registry: RegistryView::fresh(Policy::Standard, options),
                round_robin: Seq::empty(),
                fair_queue,
            }),
    {
        GenericSocketBackend {
            socket_type,
            registry: Registry::new(Standard, options),
            round_robin: RoundRobin::new(),
            fair_queue,
        }
    }

    pub fn socket_type(&self) -> (r: SocketType)
        ensures
            r == self@.socket_type,
    {
        self.socket_type
    }

    pub fn socket_options(&self) -> (r: &SocketOptions)
        ensures
            *r == self@.registry.socket_options,
    {
        &self.registry.socket_options
    }

    /// Lets a channel monitor the socket, in place of the one that did.
    pub fn monitor(&mut self, monitor: u64) -> (replaced: Option<u64>)
        ensures
            final(self)@ == (BackendView {
                registry: RegistryView { monitor: Some(monitor), ..old(self)@.registry },
                ..old(self)@
            }),
            replaced == old(self)@.registry.monitor,
    {
        self.registry.set_monitor(monitor)
    }

    /// Register a notifier to be called when a peer disconnects.
    ///
    /// Used by reconnection tasks to be notified when they should attempt reconnection.
    pub fn register_disconnect_notifier(&mut self, peer: u64, notifier: u64)
        ensures
            final(self)@ == (BackendView {
                registry: old(self)@.registry.with_notifier(peer, notifier),
                ..old(self)@
            }),
    {
        self.registry.register_disconnect_notifier(peer, notifier)
    }

    /// Unregister a disconnect notifier for a peer.
    pub fn unregister_disconnect_notifier(&mut self, peer: u64)
        ensures
            final(self)@ == (BackendView {
                registry: old(self)@.registry.without_notifier(peer),
                ..old(self)@
            }),
    {
        self.registry.unregister_disconnect_notifier(peer)
    }

    /// Takes a peer in, with a heartbeat made at `now`. The peer is dealt messages after
    /// those that are there already.
    pub fn peer_connected(
        &mut self,
        peer: u64,
        send_queue: u64,
        stream: u64,
        task: u64,
        now: u64,
        out: &mut Actions,
    )
        ensures
            old(self)@.registry.starts(final(self)@.registry.heartbeats[peer], task, now),
            final(self)@ == old(self)@.connected(
                peer,
                peers::plain(send_queue),
                final(self)@.registry.heartbeats[peer],
                stream,
            ),
            final(out)@ == old(out)@ + old(self)@.connect_actions(peer, stream, task),
    {
        self.registry.peer_connected(peer, send_queue, task, now, out);
        self.round_robin.push(peer);
        if self.fair_queue {
            self.registry.admit_stream(peer, stream, out);
        } else {
            out.push(Action::CloseStream { stream });
        }
        assert(out@ =~= old(out)@ + old(self)@.connect_actions(peer, stream, task));
    }

    /// Lets a peer go. It may keep its turn, which is then passed over.
    pub fn peer_disconnected(&mut self, peer: u64, out: &mut Actions)
        ensures
            final(self)@ == (BackendView {
                registry: old(self)@.registry.disconnected(peer),
                ..old(self)@
            }),
            final(out)@ == old(out)@ + old(self)@.registry.disconnect_actions(peer),
    {
        self.registry.peer_disconnected(peer, out)
    }

    /// Gives up all connections, the senders before the streams. Streams are cleared to
    /// ensure that connections are closed even when reconnection tasks still hold on to
    /// the backend.
    pub fn shutdown(&mut self, out: &mut Actions)
        ensures
            final(self)@ == (BackendView { registry: old(self)@.registry.closed(), ..old(self)@ }),
            exists|ids: Seq<u64>, fed: Seq<u64>| #[trigger]
                registry::enumerates(ids, old(self)@.registry.peers.dom()) && #[trigger]
                registry::enumerates(fed, old(self)@.registry.streams.dom()) && final(out)@ == old(
                    out,
                )@ + old(self)@.registry.close_actions(ids, fed),
    {
        self.registry.shutdown(out)
    }

    /// Finds the peer that a message goes to: the first in turn that is still there.
    ///
    /// In normal scenario this looks at 1 entry only. A peer that has disconnected may
    /// still stand in the row; its entry is taken out and passed over.
    pub fn send_round_robin(&mut self, message: Message) -> (r: Result<Dispatch, ZmqError>)
        ensures
            dealt(old(self)@, message, final(self)@, r),
    {
        let ghost row = self@.round_robin;
        let ghost known = self@.registry.peers;
        let ghost mut passed: int = 0;
        assert(row.skip(0) =~= row);
        loop
            invariant
                0 <= passed <= row.len(),
                self@.registry == old(self)@.registry,
                self@.fair_queue == old(self)@.fair_queue,
                self@.socket_type == old(self)@.socket_type,
                known == self@.registry.peers,
                row == old(self)@.round_robin,
                self@.round_robin == row.skip(passed),
                stale(row, known) == passed + stale(row.skip(passed), known),
            decreases row.len() - passed,
        {
            let peer = match self.round_robin.pop() {
                Some(peer) => peer,
                None => {
                    return match message {
                        Message::Greeting => Err(
                            ZmqError::Socket("Sending greeting is not supported"),
                        ),
                        Message::Command(_) => Err(
                            ZmqError::Socket("Sending commands is not supported"),
                        ),
                        Message::Message(m) => Err(
                            ZmqError::ReturnToSender {
                                reason: "Not connected to peers. Unable to send messages",
                                message: m,
                            },
                        ),
                    };
                },
            };
            assert(row.skip(passed).skip(1) =~= row.skip(passed + 1));
            match self.registry.peers.send_queue(peer) {
                Some(queue) => {
                    return Ok(Dispatch { peer, queue, message });
                },
                None => {
                    proof {
                        passed = passed + 1;
                    }
                },
            }
        }
    }

    /// Takes note of how a dispatch went. A peer that took its message goes to the end of
    /// the row; one that did not is let go.
    pub fn round_robin_sent(
        &mut self,
        peer: u64,
        outcome: Result<(), CodecError>,
        out: &mut Actions,
    ) -> (r: Result<u64, ZmqError>)
        ensures
            turn_ended(old(self)@, old(out)@, peer, outcome, final(self)@, final(out)@, r),
    {
        match outcome {
            Ok(()) => {
                self.round_robin.push(peer);
                Ok(peer)
            },
            Err(e) => {
                self.peer_disconnected(peer, out);
                Err(ZmqError::Codec(e))
            },
        }
    }
}

/// A message is refused exactly where nobody in the row is there any more; otherwise it
/// goes to somebody who is, and everybody before that one has gone.
pub proof fn turn_goes_to_a_present_peer(row: Seq<u64>, present: Map<u64, PeerView>)
    ensures
        stale(row, present) <= row.len(),
        stale(row, present) == row.len() <==> forall|i: int|
            0 <= i < row.len() ==> !present.contains_key(#[trigger] row[i]),
        stale(row, present) < row.len() ==> present.contains_key(row[stale(row, present) as int]),
        forall|i: int|
            0 <= i < stale(row, present) ==> !present.contains_key(#[trigger] row[i]),
    decreases row.len(),
{
    if row.len() > 0 && !present.contains_key(row[0]) {
        let rest = row.skip(1);
        turn_goes_to_a_present_peer(rest, present);
        let n = stale(rest, present);
        assert forall|i: int| 0 <= i < 1 + n implies !present.contains_key(#[trigger] row[i]) by {
            if i > 0 {
                assert(rest[i - 1] == row[i]);
            }
        }
        if n < rest.len() {
            assert(rest[n as int] == row[n as int + 1]);
        }
    }
}

/// The row after `turns` messages were dealt out and all went well.
pub open spec fn after_turns(row: Seq<u64>, present: Map<u64, PeerView>, turns: nat) -> Seq<u64>
    decreases turns,
{
    if turns == 0 {
        row
    } else {
        let r = after_turns(row, present, (turns - 1) as nat);
        let gone = stale(r, present) as int;
        r.skip(gone + 1).push(r[gone])
    }
}

/// The row without the entries that stand for peers that have gone.
pub open spec fn there(row: Seq<u64>, present: Map<u64, PeerView>) -> Seq<u64>
    decreases row.len(),
{
    if row.len() == 0 {
        row
    } else if present.contains_key(row[0]) {
        seq![row[0]] + there(row.skip(1), present)
    } else {
        there(row.skip(1), present)
    }
}

/// A peer that is there stays there when it goes to the end of a row.
proof fn there_at_the_end(row: Seq<u64>, present: Map<u64, PeerView>, peer: u64)
    requires
        present.contains_key(peer),
    ensures
        there(row.push(peer), present) == there(row, present).push(peer),
    decreases row.len(),
{
    let longer = row.push(peer);
    if row.len() == 0 {
        assert(longer.skip(1) =~= row);
        assert(there(longer, present) =~= there(row, present).push(peer));
    } else {
        assert(longer.skip(1) =~= row.skip(1).push(peer));
        there_at_the_end(row.skip(1), present, peer);
        assert(there(longer, present) =~= there(row, present).push(peer));
    }
}

/// The next turn is that of the first peer that is there.
proof fn next_turn(row: Seq<u64>, present: Map<u64, PeerView>)
    requires
        there(row, present).len() > 0,
    ensures
        stale(row, present) < row.len(),
        row[stale(row, present) as int] == there(row, present)[0],
        there(row.skip(stale(row, present) as int + 1), present) == there(row, present).skip(1),
    decreases row.len(),
{
    if present.contains_key(row[0]) {
        assert(there(row, present).skip(1) =~= there(row.skip(1), present));
    } else {
        let rest = row.skip(1);
        next_turn(rest, present);
        let gone = stale(rest, present) as int;
        assert(rest[gone] == row[gone + 1]);
        assert(rest.skip(gone + 1) =~= row.skip(gone + 2));
    }
}

/// While nobody comes or goes, messages are dealt out in turn among the peers that are
/// there, whoever else still stands in the row: the first to the first of them, and so on,
/// and after one round they are in the order in which they were.
pub proof fn turns_go_round(row: Seq<u64>, present: Map<u64, PeerView>, turns: nat)
    requires
        turns <= there(row, present).len(),
    ensures
        ({
            let all = there(row, present);
            let r = after_turns(row, present, turns);
            &&& there(r, present) == all.skip(turns as int) + all.take(turns as int)
            &&& turns < all.len() ==> stale(r, present) < r.len() && r[stale(
                r,
                present,
            ) as int] == all[turns as int]
            &&& turns == all.len() ==> there(r, present) == all
        }),
    decreases turns,
{
    let all = there(row, present);
    let r = after_turns(row, present, turns);
    if turns > 0 {
        let before = (turns - 1) as nat;
        turns_go_round(row, present, before);
        let q = after_turns(row, present, before);
        next_turn(q, present);
        let gone = stale(q, present) as int;
        turn_goes_to_a_present_peer(q, present);
        there_at_the_end(q.skip(gone + 1), present, q[gone]);
        assert(there(r, present) =~= all.skip(turns as int) + all.take(turns as int));
    } else {
        assert(all.skip(0) + all.take(0) =~= all);
    }
    if turns < all.len() {
        next_turn(r, present);
    } else {
        assert(all.skip(turns as int) + all.take(turns as int) =~= all);
    }
}

/// A message goes, as it is, to the queue of a peer that is there, and everybody before that
/// peer in the row has gone; who is behind it keeps its place. Where nobody in the row is
/// there, a message is handed back as it was, and nothing else is touched.
pub proof fn messages_are_dealt_or_handed_back(
    was: BackendView,
    message: Message,
    is: BackendView,
    r: Result<Dispatch, ZmqError>,
)
    requires
        dealt(was, message, is, r),
    ensures
        r is Ok <==> exists|i: int|
            0 <= i < was.round_robin.len() && was.registry.peers.contains_key(
                #[trigger] was.round_robin[i],
            ),
        r matches Ok(d) ==> {
            &&& was.registry.peers.contains_key(d.peer)
            &&& d.queue == was.registry.peers[d.peer].send_queue
            &&& d.message@ == message@
            &&& exists|before: Seq<u64>| was.round_robin == #[trigger] (before + seq![d.peer]
                + is.round_robin) && forall|i: int|
                0 <= i < before.len() ==> !was.registry.peers.contains_key(#[trigger] before[i])
        },
        r matches Err(e) ==> {
            &&& is.round_robin.len() == 0
            &&& message@ matches MessageView::Message(m) ==> (e matches ZmqError::ReturnToSender {
                message: back,
                ..
            } && back@ == m)
            &&& message@ is Greeting || message@ is Command ==> e is Socket
        },
        is.registry == was.registry,
        is.socket_type == was.socket_type,
        is.fair_queue == was.fair_queue,
{
    let row = was.round_robin;
    let known = was.registry.peers;
    turn_goes_to_a_present_peer(row, known);
    let gone = stale(row, known) as int;
    if gone < row.len() {
        let before = row.take(gone);
        assert(row =~= before + seq![row[gone]] + row.skip(gone + 1));
        assert forall|i: int| 0 <= i < before.len() implies !known.contains_key(
            #[trigger] before[i],
        ) by {
            assert(before[i] == row[i]);
        }
        assert(was.round_robin == before + seq![row[gone]] + is.round_robin);
    }
}

/// A peer that took its message is the last to get another; one that did not is let go, and
/// what is kept of the others stays. The error is handed on.
pub proof fn peers_that_fail_go(
    was: BackendView,
    said: Seq<ActionView>,
    peer: u64,
    outcome: Result<(), CodecError>,
    is: BackendView,
    out: Seq<ActionView>,
    r: Result<u64, ZmqError>,
    other: u64,
)
    requires
        turn_ended(was, said, peer, outcome, is, out, r),
    ensures
        outcome is Ok ==> r == Ok::<u64, ZmqError>(peer) && is.round_robin == was.round_robin
            + seq![peer] && is.registry == was.registry && out == said,
        outcome matches Err(e) ==> r == Err::<u64, ZmqError>(ZmqError::Codec(e)) && is.round_robin
            == was.round_robin && !(is.registry.peers.contains_key(peer)),
        other != peer && was.registry.peers.contains_key(other) ==> is.registry.peers.contains_key(
            other,
        ) && is.registry.peers[other] == was.registry.peers[other],
        is.socket_type == was.socket_type,
        is.fair_queue == was.fair_queue,
{
    assert(was.round_robin.push(peer) =~= was.round_robin + seq![peer]);
}

/// A peer that comes gets its turn after all who are there. Its stream is read where the
/// socket reads, and closed where it does not.
pub proof fn coming_peer_gets_a_turn(
    b: BackendView,
    peer: u64,
    p: PeerView,
    h: Heartbeat,
    stream: u64,
    task: u64,
)
    ensures
        ({
            let came = b.connected(peer, p, h, stream);
            let asked = b.connect_actions(peer, stream, task);
            &&& came.round_robin == b.round_robin + seq![peer]
            &&& came.registry.peers.contains_key(peer) && came.registry.peers[peer] == p
            &&& came.registry.heartbeats.contains_key(peer) && came.registry.heartbeats[peer] == h
            &&& b.fair_queue ==> came.registry.streams.contains_key(peer)
                && came.registry.streams[peer] == stream
            &&& !b.fair_queue ==> came.registry.streams == b.registry.streams
            &&& asked.len() > 0
            &&& asked.last() == (if b.fair_queue {
                ActionView::OpenStream { peer, stream }
            } else {
                ActionView::CloseStream { stream }
            })
            &&& came.fair_queue == b.fair_queue && came.socket_type == b.socket_type
        }),
{
    assert(b.round_robin.push(peer) =~= b.round_robin + seq![peer]);
}

} // verus!
