//! The heartbeats of a socket's peers.
use crate::heartbeat;
use crate::heartbeat::{
    ActivityTracker, HeartbeatAction, HeartbeatActionKind, HeartbeatEvent, HeartbeatHandle,
};
use std::collections::HashMap;
use vstd::prelude::*;

verus! {

broadcast use vstd::std_specs::hash::group_hash_axioms;

/// What a socket keeps of a peer's heartbeat: the tracker, and the task that sends
/// PINGs, where there is one.
#[derive(Debug)]
pub struct Heartbeat {
    pub tracker: ActivityTracker,
    pub handle: Option<HeartbeatHandle>,
}

/// The heartbeats of all peers.
#[derive(Debug)]
pub struct Heartbeats {
    pub map: HashMap<u64, Heartbeat>,
}

impl View for Heartbeats {
    type V = Map<u64, Heartbeat>;

    open spec fn view(&self) -> Map<u64, Heartbeat> {
        self.map@
    }
}

/// Heartbeats where one peer's tracker was replaced.
pub open spec fn with_tracker(m: Map<u64, Heartbeat>, peer: u64, t: ActivityTracker) -> Map<
    u64,
    Heartbeat,
> {
    m.insert(peer, Heartbeat { tracker: t, ..m[peer] })
}

/// Heartbeats after a peer was active.
pub open spec fn after_activity(m: Map<u64, Heartbeat>, peer: u64, now: u64) -> Map<
    u64,
    Heartbeat,
> {
    if m.contains_key(peer) {
        with_tracker(m, peer, m[peer].tracker.with_activity(now))
    } else {
        m
    }
}

/// Heartbeats after a peer's PING came in.
pub open spec fn after_ping(
    m: Map<u64, Heartbeat>,
    peer: u64,
    ttl: Option<u16>,
    now: u64,
) -> Map<u64, Heartbeat> {
    if m.contains_key(peer) {
        with_tracker(m, peer, m[peer].tracker.with_received_ping(ttl, now))
    } else {
        m
    }
}

/// Heartbeats after a peer's PONG came in.
pub open spec fn after_pong(m: Map<u64, Heartbeat>, peer: u64, now: u64) -> Map<u64, Heartbeat> {
    if m.contains_key(peer) {
        with_tracker(m, peer, m[peer].tracker.with_received_pong(now))
    } else {
        m
    }
}

/// A peer that is dead: silent for too long, or with too many unanswered PINGs.
pub open spec fn is_dead(m: Map<u64, Heartbeat>, peer: u64, now: u64) -> bool {
    m.contains_key(peer) && m[peer].tracker.dead_at(now)
}

/// The peers that are dead.
pub open spec fn dead_peers(m: Map<u64, Heartbeat>, now: u64) -> Set<u64> {
    m.dom().filter(|peer: u64| m[peer].tracker.dead_at(now))
}

/// A task still runs a peer's heartbeat.
pub open spec fn runs(m: Map<u64, Heartbeat>, peer: u64, task: u64) -> bool {
    m.contains_key(peer) && m[peer].handle == Some(HeartbeatHandle { task })
}

/// What a task does that does not run a heartbeat any more: it stops, but a PING that
/// failed is still reported.
pub open spec fn last_action(event: HeartbeatEvent) -> HeartbeatActionKind {
    match event {
        HeartbeatEvent::PingFinished { sent: false } => HeartbeatActionKind::ReportFailure,
        _ => HeartbeatActionKind::Stop,
    }
}

impl Heartbeats {
    pub fn new() -> (r: Heartbeats)
        ensures
            r@ == Map::<u64, Heartbeat>::empty(),
    {
        Heartbeats { map: HashMap::new() }
    }

    /// Takes a heartbeat in, in place of the peer's earlier one.
    pub fn insert(&mut self, peer: u64, heartbeat: Heartbeat) -> (replaced: Option<Heartbeat>)
        ensures
            final(self)@ == old(self)@.insert(peer, heartbeat),
            replaced is Some <==> old(self)@.contains_key(peer),
            replaced matches Some(h) ==> h == old(self)@[peer],
    {
        self.map.insert(peer, heartbeat)
    }

    pub fn remove(&mut self, peer: u64) -> (removed: Option<Heartbeat>)
        ensures
            final(self)@ == old(self)@.remove(peer),
            removed is Some <==> old(self)@.contains_key(peer),
            removed matches Some(h) ==> h == old(self)@[peer],
    {
        self.map.remove(&peer)
    }

    /// Records that a peer was active at `now`.
    pub fn record_activity_at(&mut self, peer: u64, now: u64)
        ensures
            final(self)@ == after_activity(old(self)@, peer, now),
    {
        if let Some(mut h) = self.map.remove(&peer) {
            h.tracker.record_activity_at(now);
            self.map.insert(peer, h);
        }
        assert(self@ =~= after_activity(old(self)@, peer, now));
    }

    /// Records that a peer's PING came in at `now`.
    pub fn received_ping_at(&mut self, peer: u64, ttl: Option<u16>, now: u64)
        ensures
            final(self)@ == after_ping(old(self)@, peer, ttl, now),
    {
        if let Some(mut h) = self.map.remove(&peer) {
            h.tracker.received_ping_at(ttl, now);
            self.map.insert(peer, h);
        }
        assert(self@ =~= after_ping(old(self)@, peer, ttl, now));
    }

    /// Records that a peer's PONG came in at `now`.
    pub fn received_pong_at(&mut self, peer: u64, now: u64)
        ensures
            final(self)@ == after_pong(old(self)@, peer, now),
    {
        if let Some(mut h) = self.map.remove(&peer) {
            h.tracker.received_pong_at(now);
            self.map.insert(peer, h);
        }
        assert(self@ =~= after_pong(old(self)@, peer, now));
    }

    /// Whether a peer is dead at `now`. A peer without a heartbeat is not.
    pub fn is_dead_at(&self, peer: u64, now: u64) -> (dead: bool)
        ensures
            dead == is_dead(self@, peer, now),
    {
        match self.map.get(&peer) {
            Some(h) => h.tracker.is_dead_at(now),
            None => false,
        }
    }

    /// The peers that are dead at `now`, in no particular order.
    pub fn dead_at(&self, now: u64) -> (dead: Vec<u64>)
        ensures
            dead@.no_duplicates(),
            dead@.to_set() == dead_peers(self@, now),
    {
        let mut dead: Vec<u64> = Vec::new();
        for peer in it: self.map.keys()
            invariant
                it.seq().unref().to_set() == self@.dom(),
                it.seq().no_duplicates(),
                dead@.no_duplicates(),
                forall|p: u64| #[trigger]
                    dead@.contains(p) ==> is_dead(self@, p, now) && exists|j: int|
                        0 <= j < it.index() && *it.seq()[j] == p,
                forall|j: int|
                    0 <= j < it.index() && is_dead(self@, *#[trigger] it.seq()[j], now)
                        ==> dead@.contains(*it.seq()[j]),
        {
            let ghost keys = it.seq();
            let ghost at = it.index();
            let ghost before = dead@;
            assert(keys.unref()[at] == *peer);
            assert(keys.unref().to_set().contains(*peer));
            match self.map.get(peer) {
                Some(h) => {
                    if h.tracker.is_dead_at(now) {
                        dead.push(*peer);
                        assert(!before.contains(*peer));
                        assert(dead@[before.len() as int] == *peer);
                        assert forall|p: u64| #[trigger] dead@.contains(p) implies p == *peer
                            || before.contains(p) by {}
                        assert forall|p: u64| before.contains(p) implies #[trigger] dead@.contains(
                            p,
                        ) by {
                            let j = choose|j: int| 0 <= j < before.len() && before[j] == p;
                            assert(dead@[j] == p);
                        }
                    }
                },
                None => {},
            }
        }
        assert(dead@.to_set() =~= dead_peers(self@, now));
        dead
    }

    /// Moves a peer's heartbeat task on, where the clock shows `now` and then
    /// `later`. A task that does not run the peer's heartbeat any more stops, though not
    /// before it has reported a PING that failed.
    pub fn step_at(&mut self, peer: u64, task: u64, event: HeartbeatEvent, now: u64, later: u64) -> (
    action: HeartbeatAction)
        ensures
            runs(old(self)@, peer, task) ==> {
                let t = old(self)@[peer].tracker;
                &&& action.kind() == heartbeat::heartbeat_next(event, t, now, later)
                &&& action.fits(t.config)
                &&& final(self)@ == with_tracker(
                    old(self)@,
                    peer,
                    heartbeat::heartbeat_tracker(event, t, now),
                )
            },
            !runs(old(self)@, peer, task) ==> action.kind() == last_action(event) && final(self)@
                == old(self)@,
    {
        let runs = match self.map.get(&peer) {
            Some(h) => match &h.handle {
                Some(handle) => handle.task == task,
                None => false,
            },
            None => false,
        };
        if !runs {
            return match event {
                HeartbeatEvent::PingFinished { sent: false } => HeartbeatAction::ReportFailure,
                _ => HeartbeatAction::Stop,
            };
        }
        match self.map.remove(&peer) {
            Some(mut h) => {
                let action = heartbeat::heartbeat_step_at(event, &mut h.tracker, now, later);
                self.map.insert(peer, h);
                assert(self@ =~= with_tracker(
                    old(self)@,
                    peer,
                    heartbeat::heartbeat_tracker(event, old(self)@[peer].tracker, now),
                ));
                action
            },
            None => HeartbeatAction::Stop,
        }
    }
}

/// What is heard from a peer reaches that peer's tracker, if it has one, and nothing else:
/// no heartbeat comes or goes, no task changes hands, and the others stay as they are.
pub proof fn hearing_reaches_one_tracker(
    m: Map<u64, Heartbeat>,
    peer: u64,
    ttl: Option<u16>,
    now: u64,
    other: u64,
)
    ensures
        after_activity(m, peer, now).dom() == m.dom(),
        after_ping(m, peer, ttl, now).dom() == m.dom(),
        after_pong(m, peer, now).dom() == m.dom(),
        m.contains_key(peer) ==> after_activity(m, peer, now)[peer].tracker
            == m[peer].tracker.with_activity(now) && after_activity(m, peer, now)[peer].handle
            == m[peer].handle,
        m.contains_key(peer) ==> after_ping(m, peer, ttl, now)[peer].tracker
            == m[peer].tracker.with_received_ping(ttl, now) && after_ping(
            m,
            peer,
            ttl,
            now,
        )[peer].handle == m[peer].handle,
        m.contains_key(peer) ==> after_pong(m, peer, now)[peer].tracker
            == m[peer].tracker.with_received_pong(now) && after_pong(m, peer, now)[peer].handle
            == m[peer].handle,
        m.contains_key(other) && other != peer ==> after_activity(m, peer, now)[other] == m[other]
            && after_ping(m, peer, ttl, now)[other] == m[other] && after_pong(m, peer, now)[other]
            == m[other],
{
    assert(after_activity(m, peer, now).dom() =~= m.dom());
    assert(after_ping(m, peer, ttl, now).dom() =~= m.dom());
    assert(after_pong(m, peer, now).dom() =~= m.dom());
}

/// The dead are those whose tracker shows too long a silence or too many unanswered PINGs;
/// who has no tracker is not dead.
pub proof fn the_dead_are_found(m: Map<u64, Heartbeat>, peer: u64, now: u64)
    ensures
        is_dead(m, peer, now) <==> m.contains_key(peer) && m[peer].tracker.dead_at(now),
        dead_peers(m, now).contains(peer) <==> m.contains_key(peer) && m[peer].tracker.dead_at(now),
{
}

/// At most one task runs a peer's heartbeat: the one whose handle is kept. A task that does
/// not reports a PING that failed, and otherwise stops.
pub proof fn one_task_runs_a_heartbeat(
    m: Map<u64, Heartbeat>,
    peer: u64,
    a: u64,
    b: u64,
    event: HeartbeatEvent,
)
    ensures
        runs(m, peer, a) && runs(m, peer, b) ==> a == b,
        runs(m, peer, a) <==> m.contains_key(peer) && m[peer].handle is Some
            && m[peer].handle->0.task == a,
        event == (HeartbeatEvent::PingFinished { sent: false }) ==> last_action(event)
            == HeartbeatActionKind::ReportFailure,
        event != (HeartbeatEvent::PingFinished { sent: false }) ==> last_action(event)
            == HeartbeatActionKind::Stop,
{
}

/// A tracker that is replaced is that peer's, whose task stays; the other heartbeats stay.
pub proof fn trackers_are_replaced_in_place(
    m: Map<u64, Heartbeat>,
    peer: u64,
    t: ActivityTracker,
    other: u64,
)
    requires
        m.contains_key(peer),
    ensures
        with_tracker(m, peer, t)[peer].tracker == t,
        with_tracker(m, peer, t)[peer].handle == m[peer].handle,
        with_tracker(m, peer, t).dom() == m.dom(),
        other != peer && m.contains_key(other) ==> with_tracker(m, peer, t)[other] == m[other],
{
    assert(with_tracker(m, peer, t).dom() =~= m.dom());
}

} // verus!
