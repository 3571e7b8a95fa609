//! What a socket's fair queue yields, and what a socket makes of it.
use crate::actions::ActionView;
use crate::error::{CodecError, ZmqError};
use crate::lifecycle;
use crate::message::{Message, ZmqMessage};
use crate::registry::RegistryView;
use vstd::prelude::*;

verus! {

/// What the fair queue over all streams yields.
#[derive(Debug)]
pub enum StreamEvent {
    /// A peer's stream gave a message.
    Item { peer: u64, message: Message },
    /// A peer's stream failed.
    Failed { peer: u64, error: CodecError },
    /// No stream is left.
    Drained,
}

/// What one event amounts to for whoever receives on a socket.
#[derive(Debug)]
pub enum Received {
    /// A message to hand over.
    Message(ZmqMessage),
    /// Receiving fails.
    Error(ZmqError),
    /// Nothing to hand over.
    Pending,
}

/// What can happen on the fair queue.
#[derive(Debug)]
pub enum QueueEvent {
    /// It yields something.
    Yielded(StreamEvent),
    /// A peer's stream has come to its end.
    Ended { peer: u64 },
}

/// What follows on what an event amounts to: where there is nothing to hand over, the peers
/// that are dead at `now` go.
pub open spec fn settled(
    r: Received,
    was: RegistryView,
    said: Seq<ActionView>,
    now: u64,
    is: RegistryView,
    out: Seq<ActionView>,
) -> bool {
    if r is Pending {
        was.swept(now, is, said, out)
    } else {
        is == was && out == said
    }
}

/// Where there was something to hand over, nothing follows. Otherwise the dead go, and only
/// they: whoever is alive at `now` keeps everything.
pub proof fn only_the_dead_follow(
    r: Received,
    was: RegistryView,
    said: Seq<ActionView>,
    now: u64,
    is: RegistryView,
    out: Seq<ActionView>,
    peer: u64,
    x: ActionView,
)
    requires
        settled(r, was, said, now, is, out),
    ensures
        !(r is Pending) ==> is == was && out == said,
        r is Pending && was.heartbeats.contains_key(peer) && was.heartbeats[peer].tracker.dead_at(
            now,
        ) ==> !(is.peers.contains_key(peer)) && !(is.heartbeats.contains_key(peer)) && !(
        is.streams.contains_key(peer)),
        !was.heartbeats.contains_key(peer) || !was.heartbeats[peer].tracker.dead_at(now)
            ==> lifecycle::same_at(was, is, peer),
        said.len() <= out.len() && out.take(said.len() as int) == said,
        r is Pending ==> (out.skip(said.len() as int).contains(x) <==> exists|p: u64|
            was.heartbeats.contains_key(p) && was.heartbeats[p].tracker.dead_at(now)
                && #[trigger] lifecycle::goes_with(was, p, x)),
{
    if r is Pending {
        lifecycle::sweep_takes_exactly_the_dead(was, now, is, said, out, peer, x);
    } else {
        assert(out.take(said.len() as int) =~= said);
    }
}

} // verus!
