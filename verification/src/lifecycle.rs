//! What holds of peers from their coming to their going.
use crate::actions::ActionView;
use crate::command::ZmqCommandName;
use crate::heartbeats;
use crate::heartbeats::Heartbeat;
use crate::message::MessageView;
use crate::peers::PeerView;
use crate::publish;
use crate::registry;
use crate::registry::RegistryView;
use crate::policy::Policy;
use crate::socket::{SocketEventView, SocketOptions};
use vstd::prelude::*;

verus! {

/// A peer that has gone is kept nowhere, and what is kept of other peers stays. Only the
/// silent policy, under which nobody is told, leaves the notifiers alone.
pub proof fn gone_peer_is_kept_nowhere(r: RegistryView, peer: u64, other: u64)
    requires
        other != peer,
    ensures
        ({
            let after = r.disconnected(peer);
            &&& !after.peers.contains_key(peer)
            &&& !after.heartbeats.contains_key(peer)
            &&& !after.streams.contains_key(peer)
            &&& r.policy != Policy::Silent ==> !after.notifiers.contains_key(peer)
            &&& same_at(r, after, other)
        }),
{
}

/// What is kept of a peer is the same in both.
pub open spec fn same_at(a: RegistryView, b: RegistryView, peer: u64) -> bool {
    &&& a.peers.contains_key(peer) == b.peers.contains_key(peer)
    &&& a.peers.contains_key(peer) ==> a.peers[peer] == b.peers[peer]
    &&& a.heartbeats.contains_key(peer) == b.heartbeats.contains_key(peer)
    &&& a.heartbeats.contains_key(peer) ==> a.heartbeats[peer] == b.heartbeats[peer]
    &&& a.streams.contains_key(peer) == b.streams.contains_key(peer)
    &&& a.streams.contains_key(peer) ==> a.streams[peer] == b.streams[peer]
    &&& a.notifiers.contains_key(peer) == b.notifiers.contains_key(peer)
    &&& a.notifiers.contains_key(peer) ==> a.notifiers[peer] == b.notifiers[peer]
}

/// A peer that goes a second time changes nothing, and nothing is given up or notified
/// twice: at most the monitor is told again.
pub proof fn going_twice_closes_once(r: RegistryView, peer: u64)
    requires
        r.policy != Policy::Silent,
    ensures
        r.disconnected(peer).disconnected(peer) == r.disconnected(peer),
        r.disconnected(peer).disconnect_actions(peer) == r.monitor_actions(
            SocketEventView::Disconnected { peer },
        ),
{
    let once = r.disconnected(peer);
    assert(once.disconnected(peer) =~= once);
    assert(once.disconnect_actions(peer) =~= r.monitor_actions(
        SocketEventView::Disconnected { peer },
    ));
}

/// Under the silent policy a peer that goes a second time asks for nothing at all.
pub proof fn going_twice_is_silent(r: RegistryView, peer: u64)
    requires
        r.policy == Policy::Silent,
    ensures
        r.disconnected(peer).disconnected(peer) == r.disconnected(peer),
        r.disconnected(peer).disconnect_actions(peer).len() == 0,
{
    assert(r.disconnected(peer).disconnected(peer) =~= r.disconnected(peer));
}

/// An action stands in one of the parts, so it stands in the whole.
proof fn part_of_whole(
    x: ActionView,
    a: Seq<ActionView>,
    b: Seq<ActionView>,
    c: Seq<ActionView>,
    d: Seq<ActionView>,
    e: Seq<ActionView>,
)
    requires
        a.contains(x) || b.contains(x) || c.contains(x) || d.contains(x) || e.contains(x),
    ensures
        (a + b + c + d + e).contains(x),
        b.contains(x) || c.contains(x) || d.contains(x) ==> (b + c + d).contains(x),
{
    let whole = a + b + c + d + e;
    let middle = b + c + d;
    if b.contains(x) || c.contains(x) || d.contains(x) {
        let at: int = if b.contains(x) {
            b.index_of(x)
        } else if c.contains(x) {
            b.len() + c.index_of(x)
        } else {
            b.len() + c.len() + d.index_of(x)
        };
        assert(middle[at] == x);
        assert(whole[a.len() + at] == x);
    } else if a.contains(x) {
        assert(whole[a.index_of(x)] == x);
    } else {
        assert(whole[a.len() + middle.len() + e.index_of(x)] == x);
    }
}

/// Unless the policy is silent, a peer's going is told: to the monitor, if there is one, and
/// to the reconnection task that asked for it.
pub proof fn going_is_told(r: RegistryView, peer: u64)
    requires
        r.policy != Policy::Silent,
    ensures
        r.monitor matches Some(monitor) ==> r.disconnect_actions(peer).contains(
            ActionView::Emit { monitor, event: SocketEventView::Disconnected { peer } },
        ),
        r.notifiers.contains_key(peer) ==> r.disconnect_actions(peer).contains(
            ActionView::Notify { notifier: r.notifiers[peer], peer },
        ),
        !r.disconnected(peer).notifiers.contains_key(peer),
{
    let gone = r.monitor_actions(SocketEventView::Disconnected { peer });
    let sender = r.sender_actions(peer);
    let beat = r.heartbeat_actions(peer);
    let feed = r.stream_actions(peer);
    let told = r.notifier_actions(peer);
    if let Some(monitor) = r.monitor {
        let x = ActionView::Emit { monitor, event: SocketEventView::Disconnected { peer } };
        assert(gone[0] == x);
        assert(gone.contains(x));
        part_of_whole(x, gone, sender, beat, feed, told);
        part_of_whole(x, gone, sender, feed, beat, told);
    }
    if r.notifiers.contains_key(peer) {
        let x = ActionView::Notify { notifier: r.notifiers[peer], peer };
        assert(told[0] == x);
        assert(told.contains(x));
        part_of_whole(x, gone, sender, beat, feed, told);
        part_of_whole(x, gone, sender, feed, beat, told);
    }
}

/// A peer that comes and goes leaves no trace: the registry is as it was, and the sender,
/// the stream and the tasks that came with the peer are given up.
pub proof fn coming_and_going_leaves_no_trace(
    r: RegistryView,
    peer: u64,
    p: PeerView,
    h: Heartbeat,
    stream: u64,
)
    requires
        !r.peers.contains_key(peer),
        !r.heartbeats.contains_key(peer),
        !r.streams.contains_key(peer),
        !r.notifiers.contains_key(peer),
    ensures
        ({
            let came = r.connected(peer, p, h).with_stream(peer, stream);
            let asked = came.disconnect_actions(peer);
            &&& came.disconnected(peer) == r
            &&& asked.contains(ActionView::CloseSender { queue: p.send_queue })
            &&& asked.contains(ActionView::CloseStream { stream })
            &&& p.coro_stop matches Some(stop) ==> asked.contains(
                ActionView::StopSubscription { stop },
            )
            &&& h.handle matches Some(handle) ==> asked.contains(
                ActionView::StopHeartbeat { task: handle.task },
            )
        }),
{
    let came = r.connected(peer, p, h).with_stream(peer, stream);
    assert(came.disconnected(peer) =~= r);
    let gone = came.monitor_actions(SocketEventView::Disconnected { peer });
    let sender = came.sender_actions(peer);
    let beat = came.heartbeat_actions(peer);
    let feed = came.stream_actions(peer);
    let told = came.notifier_actions(peer);
    let close_sender = ActionView::CloseSender { queue: p.send_queue };
    let close_stream = ActionView::CloseStream { stream };
    assert(sender[0] == close_sender);
    assert(sender.contains(close_sender));
    assert(feed[0] == close_stream);
    assert(feed.contains(close_stream));
    part_of_whole(close_sender, gone, sender, beat, feed, told);
    part_of_whole(close_sender, gone, sender, feed, beat, told);
    part_of_whole(close_stream, gone, sender, beat, feed, told);
    part_of_whole(close_stream, gone, sender, feed, beat, told);
    if let Some(stop) = p.coro_stop {
        let x = ActionView::StopSubscription { stop };
        assert(sender[1] == x);
        assert(sender.contains(x));
        part_of_whole(x, gone, sender, beat, feed, told);
        part_of_whole(x, gone, sender, feed, beat, told);
    }
    if let Some(handle) = h.handle {
        let x = ActionView::StopHeartbeat { task: handle.task };
        assert(beat[0] == x);
        assert(beat.contains(x));
        part_of_whole(x, gone, sender, beat, feed, told);
        part_of_whole(x, gone, sender, feed, beat, told);
    }
}

/// What is left when peers have gone one after the other: everything that is kept of the
/// others, whatever the order was.
pub proof fn going_in_turn_leaves_the_others(r: RegistryView, ids: Seq<u64>, peer: u64)
    ensures
        ({
            let after = r.disconnected_all(ids);
            &&& after.policy == r.policy
            &&& after.socket_options == r.socket_options
            &&& after.monitor == r.monitor
            &&& !ids.contains(peer) ==> same_at(r, after, peer)
            &&& ids.contains(peer) ==> !after.peers.contains_key(peer)
                && !after.heartbeats.contains_key(peer) && !after.streams.contains_key(peer)
            &&& ids.contains(peer) && r.policy != Policy::Silent
                ==> !after.notifiers.contains_key(peer)
            &&& r.policy == Policy::Silent ==> after.notifiers == r.notifiers
        }),
    decreases ids.len(),
{
    if ids.len() > 0 {
        let earlier = ids.drop_last();
        going_in_turn_leaves_the_others(r, earlier, peer);
        if ids.contains(peer) && ids.last() != peer {
            let i = ids.index_of(peer);
            assert(earlier[i] == peer);
        }
        if earlier.contains(peer) {
            let i = earlier.index_of(peer);
            assert(ids[i] == peer);
        }
        if ids.last() == peer {
            assert(ids[ids.len() - 1] == peer);
        }
    }
}

/// The order in which peers go does not matter to what is left.
pub proof fn order_of_going_does_not_matter(r: RegistryView, a: Seq<u64>, b: Seq<u64>)
    requires
        a.to_set() == b.to_set(),
    ensures
        r.disconnected_all(a) == r.disconnected_all(b),
{
    let x = r.disconnected_all(a);
    let y = r.disconnected_all(b);
    assert forall|peer: u64| #[trigger] same_at(x, y, peer) by {
        going_in_turn_leaves_the_others(r, a, peer);
        going_in_turn_leaves_the_others(r, b, peer);
        assert(a.contains(peer) == a.to_set().contains(peer));
        assert(b.contains(peer) == b.to_set().contains(peer));
    }
    going_in_turn_leaves_the_others(r, a, 0);
    going_in_turn_leaves_the_others(r, b, 0);
    assert forall|peer: u64| true implies x.peers.contains_key(peer) == y.peers.contains_key(peer)
        && x.heartbeats.contains_key(peer) == y.heartbeats.contains_key(peer)
        && x.streams.contains_key(peer) == y.streams.contains_key(peer)
        && x.notifiers.contains_key(peer) == y.notifiers.contains_key(peer) by {
        assert(same_at(x, y, peer));
    }
    assert forall|peer: u64| #[trigger] x.peers.contains_key(peer) implies x.peers[peer]
        == y.peers[peer] by {
        assert(same_at(x, y, peer));
    }
    assert forall|peer: u64| #[trigger] x.heartbeats.contains_key(peer) implies x.heartbeats[peer]
        == y.heartbeats[peer] by {
        assert(same_at(x, y, peer));
    }
    assert forall|peer: u64| #[trigger] x.streams.contains_key(peer) implies x.streams[peer]
        == y.streams[peer] by {
        assert(same_at(x, y, peer));
    }
    assert forall|peer: u64| #[trigger] x.notifiers.contains_key(peer) implies x.notifiers[peer]
        == y.notifiers[peer] by {
        assert(same_at(x, y, peer));
    }
    assert(x.peers =~= y.peers);
    assert(x.heartbeats =~= y.heartbeats);
    assert(x.streams =~= y.streams);
    assert(x.notifiers =~= y.notifiers);
}

/// When the peers that had timed out have gone, none is left that has, and whoever had
/// not is untouched.
pub proof fn timeouts_take_only_the_dead(r: RegistryView, ids: Seq<u64>, now: u64, peer: u64)
    requires
        registry::enumerates(ids, heartbeats::dead_peers(r.heartbeats, now)),
    ensures
        !heartbeats::is_dead(r.disconnected_all(ids).heartbeats, peer, now),
        !heartbeats::is_dead(r.heartbeats, peer, now) ==> same_at(
            r,
            r.disconnected_all(ids),
            peer,
        ),
{
    going_in_turn_leaves_the_others(r, ids, peer);
    assert(ids.contains(peer) == ids.to_set().contains(peer));
    assert(heartbeats::dead_peers(r.heartbeats, now).contains(peer) == heartbeats::is_dead(
        r.heartbeats,
        peer,
        now,
    ));
}

/// When all peers have gone, no peer is left.
pub proof fn nobody_is_left(r: RegistryView, ids: Seq<u64>)
    requires
        registry::enumerates(ids, r.peers.dom()),
    ensures
        r.disconnected_all(ids).peers == Map::<u64, PeerView>::empty(),
{
    let after = r.disconnected_all(ids);
    assert forall|peer: u64| !(#[trigger] after.peers.contains_key(peer)) by {
        going_in_turn_leaves_the_others(r, ids, peer);
        assert(ids.contains(peer) == ids.to_set().contains(peer));
    }
    assert(after.peers =~= Map::<u64, PeerView>::empty());
}

/// A peer that something came in from is not dead at that time, unless too many PINGs are
/// unanswered: on a clock that has not moved on, a look at it changes nothing.
pub proof fn heard_peer_is_alive(r: RegistryView, peer: u64, message: MessageView, now: u64)
    requires
        r.heartbeats.contains_key(peer) ==> r.heartbeats[peer].tracker.within_limit(),
    ensures
        !heartbeats::is_dead(r.after_item(peer, message, now).heartbeats, peer, now),
        r.after_item(peer, message, now).after_look(peer, now) == r.after_item(peer, message, now),
{
}

/// What comes in from one peer leaves what is kept of the others as it is, and no peer
/// comes or goes by it.
pub proof fn hearing_touches_one_peer(
    r: RegistryView,
    peer: u64,
    message: MessageView,
    now: u64,
    other: u64,
)
    ensures
        ({
            let after = r.after_item(peer, message, now);
            &&& other != peer ==> same_at(r, after, other)
            &&& after.peers == r.peers
            &&& after.heartbeats.dom() == r.heartbeats.dom()
            &&& after.streams == r.streams
            &&& after.notifiers == r.notifiers
        }),
{
    let after = r.after_item(peer, message, now);
    assert(after.heartbeats.dom() =~= r.heartbeats.dom());
}

/// No task runs the heartbeat of a peer that has gone, so such a task takes its last
/// action when it is moved on.
pub proof fn going_ends_the_heartbeat(r: RegistryView, peer: u64, task: u64)
    ensures
        !heartbeats::runs(r.disconnected(peer).heartbeats, peer, task),
{
}

/// Where the options do not ask for PINGs, no task is started for a peer that comes, and
/// none runs its heartbeat.
pub proof fn disabled_heartbeat_runs_no_task(
    r: RegistryView,
    peer: u64,
    p: PeerView,
    h: Heartbeat,
    task: u64,
    now: u64,
    other: u64,
)
    requires
        !r.socket_options.heartbeat_enabled,
        r.starts(h, task, now),
    ensures
        r.start_actions(peer, task).len() == 0,
        !heartbeats::runs(r.connected(peer, p, h).heartbeats, peer, other),
{
}

/// Every peer, and every stream, goes with a heartbeat.
pub open spec fn all_watched(r: RegistryView) -> bool {
    &&& r.peers.dom().subset_of(r.heartbeats.dom())
    &&& r.streams.dom().subset_of(r.heartbeats.dom())
}

/// A socket starts with every peer watched, and a peer that comes is watched.
pub proof fn peers_come_watched(
    policy: Policy,
    options: SocketOptions,
    r: RegistryView,
    peer: u64,
    p: PeerView,
    h: Heartbeat,
    stream: u64,
)
    requires
        all_watched(r),
    ensures
        all_watched(RegistryView::fresh(policy, options)),
        all_watched(r.connected(peer, p, h)),
        all_watched(r.connected(peer, p, h).with_stream(peer, stream)),
{
}

/// Whatever comes in, and whoever goes, the peers that stay are watched.
pub proof fn peers_stay_watched(
    r: RegistryView,
    peer: u64,
    message: MessageView,
    now: u64,
    ids: Seq<u64>,
)
    requires
        all_watched(r),
    ensures
        all_watched(r.after_item(peer, message, now)),
        all_watched(r.after_look(peer, now)),
        all_watched(r.disconnected(peer)),
        all_watched(r.disconnected_all(ids)),
        all_watched(r.closed()),
        all_watched(
            RegistryView { peers: publish::after_message(r.peers, peer, message), ..r },
        ),
{
    hearing_touches_one_peer(r, peer, message, now, peer);
    let gone = r.disconnected_all(ids);
    assert forall|other: u64| #[trigger] gone.peers.contains_key(other) implies gone.heartbeats
        .contains_key(other) by {
        going_in_turn_leaves_the_others(r, ids, other);
    }
    assert forall|other: u64| #[trigger] gone.streams.contains_key(other) implies gone.heartbeats
        .contains_key(other) by {
        going_in_turn_leaves_the_others(r, ids, other);
    }
    let told = publish::after_message(r.peers, peer, message);
    assert(told.dom() =~= r.peers.dom());
}

/// A row that is put together holds what its parts hold.
proof fn parts_hold(a: Seq<ActionView>, b: Seq<ActionView>, x: ActionView)
    ensures
        (a + b).contains(x) <==> a.contains(x) || b.contains(x),
{
    let whole = a + b;
    if a.contains(x) {
        assert(whole[a.index_of(x)] == x);
    }
    if b.contains(x) {
        assert(whole[a.len() + b.index_of(x)] == x);
    }
    if whole.contains(x) {
        let i = whole.index_of(x);
        if i < a.len() {
            assert(a[i] == x);
        } else {
            assert(b[i - a.len()] == x);
        }
    }
}

/// What the parts of a peer's going ask for.
proof fn parts_of_going(r: RegistryView, peer: u64, x: ActionView)
    ensures
        r.monitor_actions(SocketEventView::Disconnected { peer }).contains(x) <==> r.monitor is Some
            && x == (ActionView::Emit {
            monitor: r.monitor->0,
            event: SocketEventView::Disconnected { peer },
        }),
        r.sender_actions(peer).contains(x) <==> r.peers.contains_key(peer) && (x == (
        ActionView::CloseSender { queue: r.peers[peer].send_queue }) || (
        r.peers[peer].coro_stop is Some && x == (ActionView::StopSubscription {
            stop: r.peers[peer].coro_stop->0,
        }))),
        r.heartbeat_actions(peer).contains(x) <==> r.heartbeats.contains_key(peer)
            && r.heartbeats[peer].handle is Some && x == (ActionView::StopHeartbeat {
            task: r.heartbeats[peer].handle->0.task,
        }),
        r.stream_actions(peer).contains(x) <==> r.streams.contains_key(peer) && x == (
        ActionView::CloseStream { stream: r.streams[peer] }),
        r.notifier_actions(peer).contains(x) <==> r.notifiers.contains_key(peer) && x == (
        ActionView::Notify { notifier: r.notifiers[peer], peer }),
{
    let gone = r.monitor_actions(SocketEventView::Disconnected { peer });
    let sender = r.sender_actions(peer);
    let beat = r.heartbeat_actions(peer);
    let feed = r.stream_actions(peer);
    let told = r.notifier_actions(peer);
    if r.monitor is Some {
        assert(gone[0] == (ActionView::Emit {
            monitor: r.monitor->0,
            event: SocketEventView::Disconnected { peer },
        }));
    }
    if r.peers.contains_key(peer) {
        assert(sender[0] == (ActionView::CloseSender { queue: r.peers[peer].send_queue }));
        if r.peers[peer].coro_stop is Some {
            assert(sender[1] == (ActionView::StopSubscription {
                stop: r.peers[peer].coro_stop->0,
            }));
        }
    }
    if r.heartbeats.contains_key(peer) && r.heartbeats[peer].handle is Some {
        assert(beat[0] == (ActionView::StopHeartbeat {
            task: r.heartbeats[peer].handle->0.task,
        }));
    }
    if r.streams.contains_key(peer) {
        assert(feed[0] == (ActionView::CloseStream { stream: r.streams[peer] }));
    }
    if r.notifiers.contains_key(peer) {
        assert(told[0] == (ActionView::Notify { notifier: r.notifiers[peer], peer }));
    }
}

/// What is asked for when a peer goes: its sender is closed and its tasks are stopped, its
/// stream is closed, and, unless the policy is silent, the monitor and the reconnection task
/// are told. Each of these where it is there, and nothing else.
pub open spec fn goes_with(r: RegistryView, peer: u64, x: ActionView) -> bool {
    match x {
        ActionView::Emit { monitor, event } => r.policy != Policy::Silent && r.monitor == Some(
            monitor,
        ) && event == (SocketEventView::Disconnected { peer }),
        ActionView::CloseSender { queue } => r.peers.contains_key(peer)
            && r.peers[peer].send_queue == queue,
        ActionView::StopSubscription { stop } => r.peers.contains_key(peer)
            && r.peers[peer].coro_stop == Some(stop),
        ActionView::StopHeartbeat { task } => r.heartbeats.contains_key(peer)
            && r.heartbeats[peer].handle is Some && r.heartbeats[peer].handle->0.task == task,
        ActionView::CloseStream { stream } => r.streams.contains_key(peer) && r.streams[peer]
            == stream,
        ActionView::Notify { notifier, peer: gone } => r.policy != Policy::Silent
            && r.notifiers.contains_key(peer) && r.notifiers[peer] == notifier && gone == peer,
        _ => false,
    }
}

/// When a peer goes, exactly what goes with it is asked for.
pub proof fn going_asks_for_what_goes(r: RegistryView, peer: u64, x: ActionView)
    ensures
        r.disconnect_actions(peer).contains(x) <==> goes_with(r, peer, x),
        r.disconnect_actions(peer).contains(x) <==> {
            ||| r.policy != Policy::Silent && r.monitor is Some && x == (ActionView::Emit {
                monitor: r.monitor->0,
                event: SocketEventView::Disconnected { peer },
            })
            ||| r.peers.contains_key(peer) && x == (ActionView::CloseSender {
                queue: r.peers[peer].send_queue,
            })
            ||| r.peers.contains_key(peer) && r.peers[peer].coro_stop is Some && x == (
            ActionView::StopSubscription { stop: r.peers[peer].coro_stop->0 })
            ||| r.heartbeats.contains_key(peer) && r.heartbeats[peer].handle is Some && x == (
            ActionView::StopHeartbeat { task: r.heartbeats[peer].handle->0.task })
            ||| r.streams.contains_key(peer) && x == (ActionView::CloseStream {
                stream: r.streams[peer],
            })
            ||| r.policy != Policy::Silent && r.notifiers.contains_key(peer) && x == (
            ActionView::Notify { notifier: r.notifiers[peer], peer })
        },
{
    let gone = r.monitor_actions(SocketEventView::Disconnected { peer });
    let sender = r.sender_actions(peer);
    let beat = r.heartbeat_actions(peer);
    let feed = r.stream_actions(peer);
    let told = r.notifier_actions(peer);
    parts_of_going(r, peer, x);
    if r.policy == Policy::Silent {
        parts_hold(sender, beat, x);
        parts_hold(sender + beat, feed, x);
    } else if r.policy == Policy::Reply {
        parts_hold(gone, sender, x);
        parts_hold(gone + sender, feed, x);
        parts_hold(gone + sender + feed, beat, x);
        parts_hold(gone + sender + feed + beat, told, x);
    } else {
        parts_hold(gone, sender, x);
        parts_hold(gone + sender, beat, x);
        parts_hold(gone + sender + beat, feed, x);
        parts_hold(gone + sender + beat + feed, told, x);
    }
}

/// When a peer goes that had everything, the monitor is told first, then the sender is
/// closed, and the reconnection task is told last. The heartbeat is stopped before the
/// stream is closed; under the reply policy it is the other way round.
pub proof fn going_has_its_order(r: RegistryView, peer: u64)
    requires
        r.peers.contains_key(peer),
        r.peers[peer].coro_stop is None,
        r.heartbeats.contains_key(peer),
        r.heartbeats[peer].handle is Some,
        r.streams.contains_key(peer),
        r.policy != Policy::Silent ==> r.monitor is Some && r.notifiers.contains_key(peer),
    ensures
        ({
            let asked = r.disconnect_actions(peer);
            if r.policy == Policy::Silent {
                &&& asked.len() == 3
                &&& asked[0] is CloseSender
                &&& asked[1] is StopHeartbeat
                &&& asked[2] is CloseStream
            } else {
                &&& asked.len() == 5
                &&& asked[0] is Emit
                &&& asked[1] is CloseSender
                &&& r.policy == Policy::Standard ==> asked[2] is StopHeartbeat && asked[3]
                    is CloseStream
                &&& r.policy == Policy::Reply ==> asked[2] is CloseStream && asked[3]
                    is StopHeartbeat
                &&& asked[4] is Notify
            }
        }),
{
}

/// Nothing is asked for twice when a peer goes.
pub proof fn going_asks_once(r: RegistryView, peer: u64)
    ensures
        r.disconnect_actions(peer).no_duplicates(),
{
}

/// What goes with one peer is all that its going changes: the options, the policy, the
/// monitor and the other peers stay.
pub proof fn going_keeps_the_rest(r: RegistryView, peer: u64, other: u64)
    ensures
        other != peer && r.peers.contains_key(other) ==> r.disconnected(peer).peers.contains_key(
            other,
        ) && r.disconnected(peer).peers[other] == r.peers[other],
        other != peer && r.heartbeats.contains_key(other) ==> r.disconnected(
            peer,
        ).heartbeats.contains_key(other) && r.disconnected(peer).heartbeats[other]
            == r.heartbeats[other],
        other != peer && r.streams.contains_key(other) ==> r.disconnected(
            peer,
        ).streams.contains_key(other) && r.disconnected(peer).streams[other] == r.streams[other],
        other != peer && r.notifiers.contains_key(other) ==> r.disconnected(
            peer,
        ).notifiers.contains_key(other) && r.disconnected(peer).notifiers[other]
            == r.notifiers[other],
        r.disconnected(peer).policy == r.policy,
        r.disconnected(peer).socket_options == r.socket_options,
        r.disconnected(peer).monitor == r.monitor,
{
}

/// Peers that are the same in two registries go in the same way.
proof fn same_peers_go_alike(a: RegistryView, b: RegistryView, peer: u64)
    requires
        same_at(a, b, peer),
        a.policy == b.policy,
        a.monitor == b.monitor,
    ensures
        a.disconnect_actions(peer) == b.disconnect_actions(peer),
{
}

/// When several peers go, each once, exactly what goes with each of them is asked for.
pub proof fn going_in_turn_asks_for_what_goes(r: RegistryView, ids: Seq<u64>, x: ActionView)
    requires
        ids.no_duplicates(),
    ensures
        r.disconnect_all_actions(ids).contains(x) <==> exists|i: int|
            0 <= i < ids.len() && goes_with(r, #[trigger] ids[i], x),
    decreases ids.len(),
{
    if ids.len() > 0 {
        let earlier = ids.drop_last();
        let n = earlier.len() as int;
        let last = ids.last();
        let mid = r.disconnected_all(earlier);
        going_in_turn_asks_for_what_goes(r, earlier, x);
        assert(!earlier.contains(last)) by {
            if earlier.contains(last) {
                let i = earlier.index_of(last);
                assert(ids[i] == ids[n]);
            }
        }
        going_in_turn_leaves_the_others(r, earlier, last);
        same_peers_go_alike(r, mid, last);
        going_asks_for_what_goes(r, last, x);
        parts_hold(r.disconnect_all_actions(earlier), mid.disconnect_actions(last), x);
        if exists|i: int| 0 <= i < ids.len() && goes_with(r, #[trigger] ids[i], x) {
            let i = choose|i: int| 0 <= i < ids.len() && goes_with(r, #[trigger] ids[i], x);
            if i < n {
                assert(earlier[i] == ids[i]);
            }
        }
        if exists|i: int| 0 <= i < earlier.len() && goes_with(r, #[trigger] earlier[i], x) {
            let i = choose|i: int| 0 <= i < earlier.len() && goes_with(r, #[trigger] earlier[i], x);
            assert(ids[i] == earlier[i]);
        }
        assert(ids[n] == last);
    }
}

/// A sweep takes exactly the dead, and asks for what goes with each of them, behind what was
/// asked for before. Whoever is alive keeps everything.
pub proof fn sweep_takes_exactly_the_dead(
    r: RegistryView,
    now: u64,
    after: RegistryView,
    said: Seq<ActionView>,
    out: Seq<ActionView>,
    peer: u64,
    x: ActionView,
)
    requires
        r.swept(now, after, said, out),
    ensures
        ({
            let dead = r.heartbeats.contains_key(peer) && r.heartbeats[peer].tracker.dead_at(now);
            &&& dead ==> !after.peers.contains_key(peer) && !after.heartbeats.contains_key(peer)
                && !after.streams.contains_key(peer)
            &&& !dead ==> same_at(r, after, peer)
            &&& said.len() <= out.len() && out.take(said.len() as int) == said
            &&& out.skip(said.len() as int).contains(x) <==> exists|p: u64|
                r.heartbeats.contains_key(p) && r.heartbeats[p].tracker.dead_at(now)
                    && #[trigger] goes_with(r, p, x)
            &&& after.policy == r.policy && after.socket_options == r.socket_options
                && after.monitor == r.monitor
        }),
{
    let all = heartbeats::dead_peers(r.heartbeats, now);
    let ids = choose|ids: Seq<u64>| #[trigger]
        registry::enumerates(ids, all) && after == r.disconnected_all(ids) && out == said
            + r.disconnect_all_actions(ids);
    assert(ids.contains(peer) == ids.to_set().contains(peer));
    going_in_turn_leaves_the_others(r, ids, peer);
    going_in_turn_asks_for_what_goes(r, ids, x);
    assert(out.take(said.len() as int) =~= said);
    assert(out.skip(said.len() as int) =~= r.disconnect_all_actions(ids));
    if exists|i: int| 0 <= i < ids.len() && goes_with(r, #[trigger] ids[i], x) {
        let i = choose|i: int| 0 <= i < ids.len() && goes_with(r, #[trigger] ids[i], x);
        assert(ids.to_set().contains(ids[i]));
        assert(all.contains(ids[i]));
    }
    if exists|p: u64|
        r.heartbeats.contains_key(p) && r.heartbeats[p].tracker.dead_at(now)
            && #[trigger] goes_with(
            r,
            p,
            x,
        ) {
        let p = choose|p: u64|
            r.heartbeats.contains_key(p) && r.heartbeats[p].tracker.dead_at(now)
                && #[trigger] goes_with(r, p, x);
        assert(all.contains(p));
        assert(ids.to_set().contains(p));
        let i = ids.index_of(p);
        assert(goes_with(r, ids[i], x));
    }
}

/// A look at a peer lets it go exactly where it is dead.
pub proof fn look_takes_only_the_dead(r: RegistryView, peer: u64, now: u64, x: ActionView)
    ensures
        ({
            let dead = r.heartbeats.contains_key(peer) && r.heartbeats[peer].tracker.dead_at(now);
            &&& dead ==> r.after_look(peer, now) == r.disconnected(peer)
            &&& dead ==> (r.look_actions(peer, now).contains(x) <==> goes_with(r, peer, x))
            &&& !dead ==> r.after_look(peer, now) == r && r.look_actions(peer, now).len() == 0
        }),
{
    going_asks_for_what_goes(r, peer, x);
}

/// A PING from a known peer is answered, on that peer's queue, by a PONG with the same context
/// and nothing else. Nothing else that comes in is answered.
pub proof fn pings_are_answered(r: RegistryView, peer: u64, message: MessageView)
    ensures
        ({
            let asked = r.item_actions(peer, message);
            let ping = message is Command && message->Command_0.name == ZmqCommandName::PING;
            &&& ping && r.peers.contains_key(peer) ==> asked.len() == 1 && (
            asked[0] matches ActionView::Send { queue, message: answer } && queue
                == r.peers[peer].send_queue && (answer matches MessageView::Command(pong)
                && pong.name == ZmqCommandName::PONG && pong.context
                == message->Command_0.context && pong.ttl is None && pong.properties == Map::<
                Seq<char>,
                Seq<u8>,
            >::empty()))
            &&& !ping || !r.peers.contains_key(peer) ==> asked.len() == 0
        }),
{
}

/// Whatever comes in from a peer shows that it is active. A PING with a TTL sets the peer's
/// timeout, a PONG takes a PING off the count, and nothing else changes anything.
pub proof fn hearing_is_activity(r: RegistryView, peer: u64, message: MessageView, now: u64)
    ensures
        ({
            let after = r.after_item(peer, message, now);
            let was = r.heartbeats[peer];
            let is = after.heartbeats[peer];
            &&& !r.heartbeats.contains_key(peer) ==> after == r
            &&& r.heartbeats.contains_key(peer) ==> {
                &&& is.handle == was.handle
                &&& is.tracker.last_activity_ms == now
                &&& is.tracker.config == was.tracker.config
                &&& is.tracker.last_ping_ms == was.tracker.last_ping_ms
                &&& if message is Command && message->Command_0.name == ZmqCommandName::PING {
                    &&& is.tracker.unanswered_pings == was.tracker.unanswered_pings
                    &&& is.tracker.peer_timeout_ms == match message->Command_0.ttl {
                        Some(ttl) => if ttl > 0 {
                            ttl * 100
                        } else {
                            was.tracker.peer_timeout_ms as int
                        },
                        None => was.tracker.peer_timeout_ms as int,
                    }
                } else if message is Command && message->Command_0.name == ZmqCommandName::PONG {
                    &&& is.tracker.peer_timeout_ms == was.tracker.peer_timeout_ms
                    &&& was.tracker.unanswered_pings == 0 ==> is.tracker.unanswered_pings == 0
                    &&& was.tracker.unanswered_pings > 0 ==> is.tracker.unanswered_pings
                        == was.tracker.unanswered_pings - 1
                } else {
                    &&& is.tracker.unanswered_pings == was.tracker.unanswered_pings
                    &&& is.tracker.peer_timeout_ms == was.tracker.peer_timeout_ms
                }
            }
            &&& after.policy == r.policy && after.socket_options == r.socket_options
                && after.monitor == r.monitor
        }),
{
    let after = r.after_item(peer, message, now);
    if !r.heartbeats.contains_key(peer) {
        assert(after =~= r);
    }
}

/// A peer that comes is kept with its sender, its heartbeat and its stream, and what is kept
/// of the others stays.
pub proof fn coming_peer_is_kept(
    r: RegistryView,
    peer: u64,
    p: PeerView,
    h: Heartbeat,
    stream: u64,
    other: u64,
)
    ensures
        ({
            let came = r.connected(peer, p, h);
            let fed = came.with_stream(peer, stream);
            &&& came.peers.contains_key(peer) && came.peers[peer] == p
            &&& came.heartbeats.contains_key(peer) && came.heartbeats[peer] == h
            &&& came.streams == r.streams && came.notifiers == r.notifiers
            &&& fed.streams.contains_key(peer) && fed.streams[peer] == stream
            &&& fed.peers == came.peers && fed.heartbeats == came.heartbeats && fed.notifiers
                == came.notifiers
            &&& other != peer ==> same_at(r, fed, other)
            &&& fed.policy == r.policy && fed.socket_options == r.socket_options && fed.monitor
                == r.monitor
        }),
{
}

/// A peer that comes has its heartbeat run by the task where the options enable it, and is
/// otherwise given up nothing but what an earlier peer with its key had: that one's sender,
/// its tasks, and, when the stream comes, its stream.
pub proof fn coming_asks_for_what_is_new(
    r: RegistryView,
    peer: u64,
    task: u64,
    stream: u64,
    x: ActionView,
)
    ensures
        r.connect_actions(peer, task).contains(x) <==> match x {
            ActionView::StartHeartbeat { peer: who, task: runner } =>
                r.socket_options.heartbeat_enabled && who == peer && runner == task,
            ActionView::CloseSender { queue } => r.peers.contains_key(peer)
                && r.peers[peer].send_queue == queue,
            ActionView::StopSubscription { stop } => r.peers.contains_key(peer)
                && r.peers[peer].coro_stop == Some(stop),
            ActionView::StopHeartbeat { task: earlier } => r.heartbeats.contains_key(peer)
                && r.heartbeats[peer].handle is Some && r.heartbeats[peer].handle->0.task
                == earlier,
            _ => false,
        },
        r.open_actions(peer, stream).contains(x) <==> match x {
            ActionView::OpenStream { peer: who, stream: fed } => who == peer && fed == stream,
            ActionView::CloseStream { stream: earlier } => r.streams.contains_key(peer)
                && r.streams[peer] == earlier,
            _ => false,
        },
        r.start_actions(peer, task).contains(x) <==> r.socket_options.heartbeat_enabled && x == (
        ActionView::StartHeartbeat { peer, task }),
{
    let sender = r.sender_actions(peer);
    let start = r.start_actions(peer, task);
    let beat = r.heartbeat_actions(peer);
    let feed = r.stream_actions(peer);
    parts_of_going(r, peer, x);
    if start.len() > 0 {
        assert(start[0] == (ActionView::StartHeartbeat { peer, task }));
    }
    parts_hold(sender, start, x);
    parts_hold(sender + start, beat, x);
    let open = seq![ActionView::OpenStream { peer, stream }];
    assert(open[0] == (ActionView::OpenStream { peer, stream }));
    assert(r.open_actions(peer, stream) =~= feed + open);
    parts_hold(feed, open, x);
}

/// A heartbeat starts with nothing counted, at the time when the peer came; PINGs are sent
/// exactly where the options enable it. It goes by the configuration of the options where
/// PINGs are enabled or the policy is that of replies, and the options have one, and by the
/// default otherwise.
pub proof fn heartbeats_start_afresh(r: RegistryView, h: Heartbeat, task: u64, now: u64)
    requires
        r.starts(h, task, now),
    ensures
        h.handle is Some <==> r.socket_options.heartbeat_enabled,
        h.handle matches Some(handle) ==> handle.task == task,
        h.tracker.last_activity_ms == now,
        h.tracker.unanswered_pings == 0,
        h.tracker.last_ping_ms == 0,
        h.tracker.peer_timeout_ms == 0,
        (r.socket_options.heartbeat_enabled || r.policy == Policy::Reply)
            && r.socket_options.heartbeat_config is Some ==> h.tracker.config
            == r.socket_options.heartbeat_config->0,
        !(r.socket_options.heartbeat_enabled || r.policy == Policy::Reply)
            || r.socket_options.heartbeat_config is None ==> h.tracker.config.is_default(),
{
}

/// Giving up all connections closes every sender, stops the tasks that go with them, and
/// closes every stream; nothing else is asked for, and heartbeats, notifiers and the monitor
/// stay.
pub proof fn closing_closes_all(r: RegistryView, ids: Seq<u64>, fed: Seq<u64>, x: ActionView)
    requires
        registry::enumerates(ids, r.peers.dom()),
        registry::enumerates(fed, r.streams.dom()),
    ensures
        r.close_actions(ids, fed).contains(x) <==> match x {
            ActionView::CloseSender { queue } => exists|peer: u64| #[trigger]
                r.peers.contains_key(peer) && r.peers[peer].send_queue == queue,
            ActionView::StopSubscription { stop } => exists|peer: u64| #[trigger]
                r.peers.contains_key(peer) && r.peers[peer].coro_stop == Some(stop),
            ActionView::CloseStream { stream } => exists|peer: u64| #[trigger]
                r.streams.contains_key(peer) && r.streams[peer] == stream,
            _ => false,
        },
        r.all_sender_actions(ids).contains(x) <==> match x {
            ActionView::CloseSender { queue } => exists|peer: u64| #[trigger]
                r.peers.contains_key(peer) && r.peers[peer].send_queue == queue,
            ActionView::StopSubscription { stop } => exists|peer: u64| #[trigger]
                r.peers.contains_key(peer) && r.peers[peer].coro_stop == Some(stop),
            _ => false,
        },
        r.closed().peers == Map::<u64, PeerView>::empty(),
        r.closed().streams == Map::<u64, u64>::empty(),
        r.closed().heartbeats == r.heartbeats,
        r.closed().notifiers == r.notifiers,
        r.closed().monitor == r.monitor,
        r.closed().policy == r.policy,
        r.closed().socket_options == r.socket_options,
{
    senders_close(r, ids, x);
    streams_close(r, fed, x);
    parts_hold(r.all_sender_actions(ids), r.all_stream_actions(fed), x);
    if r.all_sender_actions(ids).contains(x) {
        let i = choose|i: int|
            0 <= i < ids.len() && r.sender_actions(#[trigger] ids[i]).contains(x);
        parts_of_going(r, ids[i], x);
        assert(ids.to_set().contains(ids[i]));
        assert(r.peers.contains_key(ids[i]));
    }
    if r.all_stream_actions(fed).contains(x) {
        let i = choose|i: int|
            0 <= i < fed.len() && r.stream_actions(#[trigger] fed[i]).contains(x);
        parts_of_going(r, fed[i], x);
        assert(fed.to_set().contains(fed[i]));
        assert(r.streams.contains_key(fed[i]));
    }
    assert forall|peer: u64| #[trigger] r.peers.contains_key(peer) && r.sender_actions(
        peer,
    ).contains(x) implies r.all_sender_actions(ids).contains(x) by {
        assert(ids.to_set().contains(peer));
        let i = ids.index_of(peer);
        assert(r.sender_actions(ids[i]).contains(x));
    }
    assert forall|peer: u64| #[trigger] r.peers.contains_key(peer) implies (r.sender_actions(
        peer,
    ).contains(x) <==> x == (ActionView::CloseSender { queue: r.peers[peer].send_queue }) || (
    r.peers[peer].coro_stop is Some && x == (ActionView::StopSubscription {
        stop: r.peers[peer].coro_stop->0,
    }))) by {
        parts_of_going(r, peer, x);
    }
    assert forall|peer: u64| #[trigger] r.streams.contains_key(peer) && x == (
    ActionView::CloseStream { stream: r.streams[peer] }) implies r.all_stream_actions(
        fed,
    ).contains(x) by {
        parts_of_going(r, peer, x);
        assert(fed.to_set().contains(peer));
        let i = fed.index_of(peer);
        assert(r.stream_actions(fed[i]).contains(x));
    }
}

proof fn senders_close(r: RegistryView, ids: Seq<u64>, x: ActionView)
    ensures
        r.all_sender_actions(ids).contains(x) <==> exists|i: int|
            0 <= i < ids.len() && r.sender_actions(#[trigger] ids[i]).contains(x),
    decreases ids.len(),
{
    if ids.len() > 0 {
        let earlier = ids.drop_last();
        senders_close(r, earlier, x);
        parts_hold(r.all_sender_actions(earlier), r.sender_actions(ids.last()), x);
        assert(ids[ids.len() - 1] == ids.last());
        assert forall|i: int| 0 <= i < earlier.len() implies #[trigger] ids[i] == earlier[i] by {}
        if exists|i: int| 0 <= i < earlier.len()
            && r.sender_actions(#[trigger] earlier[i]).contains(
            x,
        ) {
            let i = choose|i: int|
                0 <= i < earlier.len() && r.sender_actions(#[trigger] earlier[i]).contains(x);
            assert(r.sender_actions(ids[i]).contains(x));
        }
        if exists|i: int| 0 <= i < ids.len() && r.sender_actions(#[trigger] ids[i]).contains(x) {
            let i = choose|i: int|
                0 <= i < ids.len() && r.sender_actions(#[trigger] ids[i]).contains(x);
            if i < earlier.len() {
                assert(r.sender_actions(earlier[i]).contains(x));
            }
        }
    }
}

proof fn streams_close(r: RegistryView, ids: Seq<u64>, x: ActionView)
    ensures
        r.all_stream_actions(ids).contains(x) <==> exists|i: int|
            0 <= i < ids.len() && r.stream_actions(#[trigger] ids[i]).contains(x),
    decreases ids.len(),
{
    if ids.len() > 0 {
        let earlier = ids.drop_last();
        streams_close(r, earlier, x);
        parts_hold(r.all_stream_actions(earlier), r.stream_actions(ids.last()), x);
        assert(ids[ids.len() - 1] == ids.last());
        if exists|i: int| 0 <= i < earlier.len()
            && r.stream_actions(#[trigger] earlier[i]).contains(
            x,
        ) {
            let i = choose|i: int|
                0 <= i < earlier.len() && r.stream_actions(#[trigger] earlier[i]).contains(x);
            assert(r.stream_actions(ids[i]).contains(x));
        }
        if exists|i: int| 0 <= i < ids.len() && r.stream_actions(#[trigger] ids[i]).contains(x) {
            let i = choose|i: int|
                0 <= i < ids.len() && r.stream_actions(#[trigger] ids[i]).contains(x);
            if i < earlier.len() {
                assert(r.stream_actions(earlier[i]).contains(x));
            }
        }
    }
}

/// A socket starts without peers, without a monitor and without notifiers. A notifier that
/// was registered is that of its peer until it is unregistered; others are not touched.
pub proof fn notifiers_are_kept_by_peer(
    policy: Policy,
    options: SocketOptions,
    r: RegistryView,
    peer: u64,
    notifier: u64,
    other: u64,
)
    ensures
        ({
            let new = RegistryView::fresh(policy, options);
            &&& new.policy == policy && new.socket_options == options && new.monitor is None
            &&& !new.peers.contains_key(peer) && !new.heartbeats.contains_key(peer)
                && !new.streams.contains_key(peer) && !new.notifiers.contains_key(peer)
        }),
        ({
            let on = r.with_notifier(peer, notifier);
            let off = r.without_notifier(peer);
            &&& on.notifiers.contains_key(peer) && on.notifiers[peer] == notifier
            &&& !off.notifiers.contains_key(peer)
            &&& other != peer ==> same_at(r, on, other) && same_at(r, off, other)
            &&& on.peers == r.peers && on.heartbeats == r.heartbeats && on.streams == r.streams
            &&& off.peers == r.peers && off.heartbeats == r.heartbeats && off.streams == r.streams
        }),
{
}

/// The PING of a heartbeat goes to the peer's own queue, while the peer is there, with the
/// given TTL and without a context.
pub proof fn pings_go_to_the_peer(r: RegistryView, peer: u64, ttl: Option<u16>)
    ensures
        ({
            let asked = r.ping_actions(peer, ttl);
            &&& !r.peers.contains_key(peer) ==> asked.len() == 0
            &&& r.peers.contains_key(peer) ==> asked.len() == 1 && (
            asked[0] matches ActionView::Send { queue, message } && queue
                == r.peers[peer].send_queue && (message matches MessageView::Command(ping)
                && ping.name == ZmqCommandName::PING && ping.ttl == ttl && ping.context is None
                && ping.properties == Map::<Seq<char>, Seq<u8>>::empty()))
        }),
{
}

/// The monitor, if there is one, is told of an event as it is, and nobody else.
pub proof fn monitors_are_told(r: RegistryView, event: SocketEventView)
    ensures
        r.monitor is None ==> r.monitor_actions(event).len() == 0,
        r.monitor matches Some(monitor) ==> r.monitor_actions(event).len() == 1
            && r.monitor_actions(event)[0] == (ActionView::Emit { monitor, event }),
{
}

/// When all senders are closed, each known peer's queue is asked to be closed and each task
/// that reads a peer's requests to stop, and nothing else is asked for.
pub proof fn senders_are_closed(r: RegistryView, ids: Seq<u64>, x: ActionView)
    requires
        registry::enumerates(ids, r.peers.dom()),
    ensures
        r.all_sender_actions(ids).contains(x) <==> match x {
            ActionView::CloseSender { queue } => exists|peer: u64| #[trigger]
                r.peers.contains_key(peer) && r.peers[peer].send_queue == queue,
            ActionView::StopSubscription { stop } => exists|peer: u64| #[trigger]
                r.peers.contains_key(peer) && r.peers[peer].coro_stop == Some(stop),
            _ => false,
        },
{
    let none = RegistryView { streams: Map::empty(), ..r };
    assert(Seq::<u64>::empty().to_set() =~= none.streams.dom());
    assert(Seq::<u64>::empty().no_duplicates());
    closing_closes_all(none, ids, Seq::empty(), x);
    senders_do_not_look_at_streams(r, none, ids);
}

/// What closing senders asks for does not depend on the streams.
proof fn senders_do_not_look_at_streams(a: RegistryView, b: RegistryView, ids: Seq<u64>)
    requires
        a.peers == b.peers,
    ensures
        a.all_sender_actions(ids) == b.all_sender_actions(ids),
    decreases ids.len(),
{
    if ids.len() > 0 {
        senders_do_not_look_at_streams(a, b, ids.drop_last());
    }
}

/// Where an action stands among those for which a going peer is reason.
pub open spec fn place_in_going(policy: Policy, x: ActionView) -> int {
    match x {
        ActionView::Emit { .. } => 0,
        ActionView::CloseSender { .. } => 1,
        ActionView::StopSubscription { .. } => 2,
        ActionView::StopHeartbeat { .. } => if policy == Policy::Reply {
            4
        } else {
            3
        },
        ActionView::CloseStream { .. } => if policy == Policy::Reply {
            3
        } else {
            4
        },
        _ => 5,
    }
}

/// What a going peer is reason for is asked for in one order, whatever of it there is: the
/// monitor is told first, the sender is closed, then its subscription task stopped, and the
/// reconnection task is told last.
pub proof fn going_keeps_its_order(r: RegistryView, peer: u64)
    ensures
        forall|i: int, j: int|
            0 <= i < j < r.disconnect_actions(peer).len() ==> place_in_going(
                r.policy,
                #[trigger] r.disconnect_actions(peer)[i],
            ) < place_in_going(r.policy, #[trigger] r.disconnect_actions(peer)[j]),
{
}

/// Where an action stands among those for which a coming peer is reason.
pub open spec fn place_in_coming(x: ActionView) -> int {
    match x {
        ActionView::CloseSender { .. } => 0,
        ActionView::StopSubscription { .. } => 1,
        ActionView::StartHeartbeat { .. } => 2,
        ActionView::StopHeartbeat { .. } => 3,
        ActionView::CloseStream { .. } => 4,
        _ => 5,
    }
}

/// What a coming peer is reason for is asked for in one order, whatever of it there is.
pub proof fn coming_keeps_its_order(r: RegistryView, peer: u64, task: u64, stream: u64)
    ensures
        ({
            let asked = r.connect_actions(peer, task) + r.open_actions(peer, stream);
            forall|i: int, j: int|
                0 <= i < j < asked.len() ==> place_in_coming(#[trigger] asked[i])
                    < place_in_coming(#[trigger] asked[j])
        }),
{
}

/// Peers that go in turn go one behind the other: what is asked for of the later ones stands
/// behind what is asked for of the earlier.
pub proof fn going_in_turn_is_going_again(r: RegistryView, a: Seq<u64>, b: Seq<u64>)
    ensures
        r.disconnected_all(a + b) == r.disconnected_all(a).disconnected_all(b),
        r.disconnect_all_actions(a + b) == r.disconnect_all_actions(a) + r.disconnected_all(
            a,
        ).disconnect_all_actions(b),
    decreases b.len(),
{
    let mid = r.disconnected_all(a);
    if b.len() == 0 {
        assert(a + b =~= a);
        assert(mid.disconnect_all_actions(b) =~= Seq::<ActionView>::empty());
        assert(r.disconnect_all_actions(a) + Seq::<ActionView>::empty()
            =~= r.disconnect_all_actions(a));
    } else {
        let c = b.drop_last();
        going_in_turn_is_going_again(r, a, c);
        assert((a + b).drop_last() =~= a + c);
        assert((a + b).last() == b.last());
        let last = mid.disconnected_all(c).disconnect_actions(b.last());
        assert(mid.disconnect_all_actions(b) == mid.disconnect_all_actions(c) + last);
        assert(r.disconnect_all_actions(a + b) == r.disconnect_all_actions(a + c) + last);
        assert(r.disconnect_all_actions(a) + mid.disconnect_all_actions(c) + last
            =~= r.disconnect_all_actions(a) + (mid.disconnect_all_actions(c) + last));
    }
}

/// A peer that goes alone goes as it does in turn.
pub proof fn going_in_turn_alone(r: RegistryView, peer: u64)
    ensures
        r.disconnected_all(seq![peer]) == r.disconnected(peer),
        r.disconnect_all_actions(seq![peer]) == r.disconnect_actions(peer),
{
    let none = Seq::<u64>::empty();
    assert(seq![peer].drop_last() =~= none);
    assert(r.disconnected_all(none) == r);
    assert(r.disconnect_all_actions(none) =~= Seq::<ActionView>::empty());
    assert(r.disconnect_all_actions(seq![peer]) =~= r.disconnect_actions(peer));
}

/// Senders and streams that are closed in turn are closed one behind the other, and of each
/// sender its queue before its subscription task.
pub proof fn closing_goes_in_turn(r: RegistryView, a: Seq<u64>, b: Seq<u64>, peer: u64)
    ensures
        r.all_sender_actions(a + b) == r.all_sender_actions(a) + r.all_sender_actions(b),
        r.all_stream_actions(a + b) == r.all_stream_actions(a) + r.all_stream_actions(b),
        r.close_actions(a, b) == r.all_sender_actions(a) + r.all_stream_actions(b),
        r.all_sender_actions(seq![peer]) == (if !r.peers.contains_key(peer) {
            Seq::empty()
        } else {
            let close = seq![ActionView::CloseSender { queue: r.peers[peer].send_queue }];
            match r.peers[peer].coro_stop {
                Some(stop) => close + seq![ActionView::StopSubscription { stop }],
                None => close,
            }
        }),
        r.all_stream_actions(seq![peer]) == (if r.streams.contains_key(peer) {
            seq![ActionView::CloseStream { stream: r.streams[peer] }]
        } else {
            Seq::empty()
        }),
    decreases b.len(),
{
    reveal_with_fuel(RegistryView::all_sender_actions, 2);
    reveal_with_fuel(RegistryView::all_stream_actions, 2);
    assert(seq![peer].drop_last() =~= Seq::<u64>::empty());
    if b.len() == 0 {
        assert(a + b =~= a);
        assert(r.all_sender_actions(a) + Seq::<ActionView>::empty() =~= r.all_sender_actions(a));
        assert(r.all_stream_actions(a) + Seq::<ActionView>::empty() =~= r.all_stream_actions(a));
    } else {
        closing_goes_in_turn(r, a, b.drop_last(), peer);
        assert((a + b).drop_last() =~= a + b.drop_last());
        assert((a + b).last() == b.last());
        assert(r.all_sender_actions(a + b) =~= r.all_sender_actions(a) + r.all_sender_actions(b));
        assert(r.all_stream_actions(a + b) =~= r.all_stream_actions(a) + r.all_stream_actions(b));
    }
}

} // verus!
