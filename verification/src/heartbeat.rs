//! Heartbeats for `ZeroMQ` connections, using PING/PONG commands.
//!
//! This module provides heartbeat capability as defined in ZMTP spec (RFC 37):
//! <https://rfc.zeromq.org/spec/37>
//!
//! Heartbeat is implemented in two parts:
//! 1. [`ActivityTracker`] tracks the state of one peer.
//! 2. [`heartbeat_step`] decides what the task that watches the peer does next.
//!
//! What depends on the time of day comes twice: a method that reads the clock, and
//! one with `_at` in its name that is given the reading.
use crate::clock;
use std::time::{Duration, SystemTime};
use vstd::prelude::*;

verus! {

/// How often a heartbeat task looks at its peer.
pub const CHECK_INTERVAL_MS: u64 = 500;

#[derive(Debug, Copy, Clone)]
pub struct HeartbeatConfig {
    /// Interval to send PING commands
    pub ping_interval: Duration,
    /// Maximum time to wait for activity (traffic or PONG) before considering connection dead
    pub timeout: Duration,
    /// TTL (time-to-live) to include in PING commands, in tenths of seconds
    /// If None, TTL will be 0 (no specific timeout hint)
    pub ttl: Option<u16>,
    /// Maximum number of unanswered PING commands before considering peer dead (PONG storm prevention)
    pub max_unanswered_pings: u32,
}

impl Default for HeartbeatConfig {
    fn default() -> (r: Self)
        ensures
            r.is_default(),
    {
        HeartbeatConfig {
            ping_interval: Duration::from_secs(15),
            timeout: Duration::from_secs(60),
            ttl: Some(600),
            max_unanswered_pings: 3,
        }
    }
}

impl HeartbeatConfig {
    /// PINGs every 15 seconds, death after 60, a TTL of a minute, and at most 3
    /// PINGs without an answer.
    pub open spec fn is_default(self) -> bool {
        &&& clock::nanos(self.ping_interval) == 15_000_000_000
        &&& clock::nanos(self.timeout) == 60_000_000_000
        &&& self.ttl == Some(600u16)
        &&& self.max_unanswered_pings == 3
    }

    pub fn send_ping_timeout(&self) -> (d: Duration)
        ensures
            d == self.ping_interval,
    {
        self.ping_interval
    }
}

/// Activity tracker for heartbeat monitoring
///
/// This struct tracks:
/// - Last activity time (any traffic)
/// - Unanswered PING count (to prevent PONG storms)
/// - Active timeout duration (from received PING TTL, if any)
///
/// **IMPORTANT**: Socket implementations MUST:
/// 1. Call `record_activity()` when ANY message is received
/// 2. Call `should_send_ping()` to check if PING should be sent
/// 3. If true, create PING and send it, then call `sent_ping()`
/// 4. Call `received_ping(ttl)` when PING is received, `received_pong()` when PONG is received
/// 5. Call `is_dead()` to detect heartbeat timeout and close connection
#[derive(Debug)]
pub struct ActivityTracker {
    pub config: HeartbeatConfig,
    /// The active timeout duration from the last received PING command's TTL (in milliseconds).
    pub peer_timeout_ms: u64,
    /// Number of PING commands sent without receiving PONG (PONG storm prevention)
    pub unanswered_pings: u32,
    /// Last time a PING was sent (in milliseconds). Used to enforce minimum interval between PINGs.
    pub last_ping_ms: u64,
    pub last_activity_ms: u64,
}

/// Nanoseconds from one clock reading to another; none where the clock went back.
pub open spec fn elapsed(since: u64, now: u64) -> nat {
    if now >= since {
        clock::nanos_of_ms((now - since) as nat)
    } else {
        0
    }
}

/// What one more PING makes of a count, which starts anew after its greatest value.
pub open spec fn count_up(n: u32) -> u32 {
    if n == u32::MAX {
        0
    } else {
        (n + 1) as u32
    }
}

/// What an answer makes of a count.
pub open spec fn count_down(n: u32) -> u32 {
    if n == 0 {
        0
    } else {
        (n - 1) as u32
    }
}

impl ActivityTracker {
    /// A tracker made at `now`.
    pub open spec fn fresh(config: HeartbeatConfig, now: u64) -> ActivityTracker {
        ActivityTracker {
            config,
            peer_timeout_ms: 0,
            unanswered_pings: 0,
            last_ping_ms: 0,
            last_activity_ms: now,
        }
    }

    /// The timeout that holds, in nanoseconds: the peer's where it gave one that is
    /// shorter than our own.
    pub open spec fn timeout_nanos(self) -> nat {
        let own = clock::nanos(self.config.timeout);
        let peer = clock::nanos_of_ms(self.peer_timeout_ms as nat);
        if self.peer_timeout_ms > 0 && peer < own {
            peer
        } else {
            own
        }
    }

    /// No more PINGs are unanswered than there may be.
    pub open spec fn within_limit(self) -> bool {
        self.unanswered_pings <= self.config.max_unanswered_pings
    }

    /// The peer has been silent for longer than the timeout, or too many PINGs are
    /// unanswered.
    pub open spec fn dead_at(self, now: u64) -> bool {
        elapsed(self.last_activity_ms, now) > self.timeout_nanos() || !self.within_limit()
    }

    /// A PING is due.
    pub open spec fn ping_due_at(self, now: u64) -> bool {
        let interval = clock::nanos(self.config.ping_interval);
        &&& self.unanswered_pings < self.config.max_unanswered_pings
        &&& self.last_ping_ms > 0 ==> elapsed(self.last_ping_ms, now) >= interval
        &&& elapsed(self.last_activity_ms, now) >= interval
    }

    /// After activity at `now`.
    pub open spec fn with_activity(self, now: u64) -> ActivityTracker {
        ActivityTracker { last_activity_ms: now, ..self }
    }

    /// After a PING was sent at `now`.
    pub open spec fn with_sent_ping(self, now: u64) -> ActivityTracker {
        ActivityTracker {
            unanswered_pings: count_up(self.unanswered_pings),
            last_ping_ms: now,
            ..self
        }
    }

    /// After a PING came in at `now`.
    pub open spec fn with_received_ping(self, ttl: Option<u16>, now: u64) -> ActivityTracker {
        let peer_timeout_ms = match ttl {
            Some(tenths) => if tenths > 0 {
                (tenths * 100) as u64
            } else {
                self.peer_timeout_ms
            },
            None => self.peer_timeout_ms,
        };
        ActivityTracker { peer_timeout_ms, ..self.with_activity(now) }
    }

    /// After a PONG came in at `now`.
    pub open spec fn with_received_pong(self, now: u64) -> ActivityTracker {
        ActivityTracker {
            unanswered_pings: count_down(self.unanswered_pings),
            ..self.with_activity(now)
        }
    }

    pub fn new(config: HeartbeatConfig) -> (r: ActivityTracker)
        ensures
            exists|t: SystemTime|
                r == ActivityTracker::fresh(config, #[trigger] clock::reading_ms(t)),
    {
        let now = clock::current_time_ms();
        Self::new_at(config, now)
    }

    /// A tracker of a peer that was active at `now`.
    pub fn new_at(config: HeartbeatConfig, now: u64) -> (r: ActivityTracker)
        ensures
            r == ActivityTracker::fresh(config, now),
    {
        ActivityTracker {
            config,
            peer_timeout_ms: 0,
            unanswered_pings: 0,
            last_ping_ms: 0,
            last_activity_ms: now,
        }
    }

    /// Get the active timeout duration
    ///
    /// Returns the minimum of config.timeout and any peer-specified timeout (from received PING TTL).
    pub fn active_timeout(&self) -> (d: Duration)
        ensures
            clock::nanos(d) == self.timeout_nanos(),
    {
        if self.peer_timeout_ms > 0 {
            let peer_dur = Duration::from_millis(self.peer_timeout_ms);
            if peer_dur.as_nanos() < self.config.timeout.as_nanos() {
                return peer_dur;
            }
        }
        self.config.timeout
    }

    /// Check if the connection should be considered dead due to timeout, or due to too many
    /// unanswered PINGs
    pub fn is_dead(&self) -> (dead: bool)
        ensures
            exists|t: SystemTime| dead == self.dead_at(#[trigger] clock::reading_ms(t)),
    {
        let now = clock::current_time_ms();
        self.is_dead_at(now)
    }

    /// Whether the connection should be considered dead at `now`.
    pub fn is_dead_at(&self, now: u64) -> (dead: bool)
        ensures
            dead == self.dead_at(now),
    {
        self.unanswered_pings > self.config.max_unanswered_pings || elapsed_since(
            self.last_activity_ms,
            now,
        ).as_nanos() > self.active_timeout().as_nanos()
    }

    /// Check if it's time to send a PING command
    ///
    /// Returns true if:
    /// 1. Time since last activity >= `ping_interval`, AND
    /// 2. Time since last PING send >= `ping_interval` (enforces minimum interval), AND
    /// 3. Unanswered PING count < `max_unanswered_pings` (PONG storm prevention)
    pub fn should_send_ping(&self) -> (due: bool)
        ensures
            exists|t: SystemTime| due == self.ping_due_at(#[trigger] clock::reading_ms(t)),
    {
        let now = clock::current_time_ms();
        self.should_send_ping_at(now)
    }

    /// Whether it is time to send a PING command at `now`.
    pub fn should_send_ping_at(&self, now: u64) -> (due: bool)
        ensures
            due == self.ping_due_at(now),
    {
        if self.unanswered_pings >= self.config.max_unanswered_pings {
            return false;  // Don't send more PINGs while waiting for replies
        }
        let interval = self.config.ping_interval.as_nanos();

        // Enforce minimum interval since last PING was sent
        if self.last_ping_ms > 0 {
            if elapsed_since(self.last_ping_ms, now).as_nanos() < interval {
                return false;
            }
        }

        // Check if time since last activity >= ping_interval
        elapsed_since(self.last_activity_ms, now).as_nanos() >= interval
    }

    /// Record that activity occurred on the connection.
    pub fn record_activity(&mut self)
        ensures
            exists|t: SystemTime|
                *final(self) == old(self).with_activity(#[trigger] clock::reading_ms(t)),
    {
        let now = clock::current_time_ms();
        self.record_activity_at(now);
    }

    /// Record that activity occurred on the connection at `now`.
    pub fn record_activity_at(&mut self, now: u64)
        ensures
            *final(self) == old(self).with_activity(now),
    {
        self.last_activity_ms = now;
    }

    /// Call this after successfully sending a PING command
    pub fn sent_ping(&mut self)
        ensures
            exists|t: SystemTime|
                *final(self) == old(self).with_sent_ping(#[trigger] clock::reading_ms(t)),
    {
        let now = clock::current_time_ms();
        self.sent_ping_at(now);
    }

    /// Call this after successfully sending a PING command at `now`.
    pub fn sent_ping_at(&mut self, now: u64)
        ensures
            *final(self) == old(self).with_sent_ping(now),
    {
        self.unanswered_pings = self.unanswered_pings.wrapping_add(1);
        self.last_ping_ms = now;
    }

    /// Call when a PING command is received
    /// If TTL is provided and non-zero, stores the peer-specified timeout duration
    pub fn received_ping(&mut self, ttl: Option<u16>)
        ensures
            exists|t: SystemTime|
                *final(self) == old(self).with_received_ping(
                    ttl,
                    #[trigger] clock::reading_ms(t),
                ),
    {
        let now = clock::current_time_ms();
        self.received_ping_at(ttl, now);
    }

    /// Call when a PING command is received at `now`.
    pub fn received_ping_at(&mut self, ttl: Option<u16>, now: u64)
        ensures
            *final(self) == old(self).with_received_ping(ttl, now),
    {
        self.record_activity_at(now);
        if let Some(ttl_tenths_of_secs) = ttl {
            if ttl_tenths_of_secs > 0 {
                // TTL is in tenths of seconds, convert to milliseconds
                self.peer_timeout_ms = (ttl_tenths_of_secs as u64) * 100;
            }
        }
    }

    /// Call this when PONG is received
    pub fn received_pong(&mut self)
        ensures
            exists|t: SystemTime|
                *final(self) == old(self).with_received_pong(#[trigger] clock::reading_ms(t)),
    {
        let now = clock::current_time_ms();
        self.received_pong_at(now);
    }

    /// Call this when PONG is received at `now`.
    pub fn received_pong_at(&mut self, now: u64)
        ensures
            *final(self) == old(self).with_received_pong(now),
    {
        if self.unanswered_pings > 0 {
            self.unanswered_pings = self.unanswered_pings - 1;
        }
        self.record_activity_at(now);
    }

    /// What is left before the timeout at `now`: nothing for a dead connection.
    pub open spec fn left_at(self, now: u64) -> Option<nat> {
        if self.dead_at(now) {
            None
        } else {
            Some((self.timeout_nanos() - elapsed(self.last_activity_ms, now)) as nat)
        }
    }

    /// Get the time remaining before timeout
    ///
    /// Returns None if the connection is already dead.
    pub fn time_until_timeout(&self) -> (left: Option<Duration>)
        ensures
            exists|t: SystemTime|
                duration_view(left) == self.left_at(#[trigger] clock::reading_ms(t)),
    {
        let now = clock::current_time_ms();
        self.time_until_timeout_at(now)
    }

    /// The time remaining before timeout at `now`.
    pub fn time_until_timeout_at(&self, now: u64) -> (left: Option<Duration>)
        ensures
            duration_view(left) == self.left_at(now),
    {
        let passed = elapsed_since(self.last_activity_ms, now);
        let timeout = self.active_timeout();
        if self.is_dead_at(now) {
            None
        } else {
            Some(timeout.saturating_sub(passed))
        }
    }

    /// Get number of unanswered PINGs
    pub fn unanswered_ping_count(&self) -> (n: u32)
        ensures
            n == self.unanswered_pings,
    {
        self.unanswered_pings
    }
}

/// The length of a duration, if there is one.
pub open spec fn duration_view(d: Option<Duration>) -> Option<nat> {
    match d {
        Some(d) => Some(clock::nanos(d)),
        None => None,
    }
}

/// The time from one clock reading to another; none where the clock went back.
fn elapsed_since(since: u64, now: u64) -> (d: Duration)
    ensures
        clock::nanos(d) == elapsed(since, now),
{
    Duration::from_millis(now.saturating_sub(since))
}

/// Activity at `now` leaves a peer alive at `now`, whatever its timeout, unless too many
/// PINGs are unanswered.
pub proof fn active_peer_is_alive(t: ActivityTracker, ttl: Option<u16>, now: u64)
    requires
        t.within_limit(),
    ensures
        !t.with_activity(now).dead_at(now),
        !t.with_received_ping(ttl, now).dead_at(now),
        !t.with_received_pong(now).dead_at(now),
{
}

/// A peer with too many unanswered PINGs is dead, however lately it was active, and has no
/// time left.
pub proof fn unanswered_peer_is_dead(t: ActivityTracker, now: u64)
    requires
        t.unanswered_pings > t.config.max_unanswered_pings,
    ensures
        t.dead_at(now),
        t.with_activity(now).dead_at(now),
        t.left_at(now) is None,
{
}

/// A peer that is dead stays dead until it is active again or answers. A further PING does
/// not revive it, unless the count of unanswered PINGs starts anew.
pub proof fn dead_peer_stays_dead(t: ActivityTracker, now: u64, later: u64)
    requires
        t.dead_at(now),
        now <= later,
    ensures
        t.dead_at(later),
        t.unanswered_pings < u32::MAX ==> t.with_sent_ping(later).dead_at(later),
{
}

/// The timeout that holds never exceeds our own, nor the peer's where it gave one.
pub proof fn timeout_is_the_shorter(t: ActivityTracker)
    ensures
        t.timeout_nanos() <= clock::nanos(t.config.timeout),
        t.peer_timeout_ms > 0 ==> t.timeout_nanos() <= clock::nanos_of_ms(t.peer_timeout_ms as nat),
        t.timeout_nanos() == clock::nanos(t.config.timeout) || (t.peer_timeout_ms > 0
            && t.timeout_nanos() == clock::nanos_of_ms(t.peer_timeout_ms as nat)),
{
}

/// A PING without a TTL, or with one of zero, leaves the timeout as it was; any other
/// TTL sets the peer's timeout, in tenths of a second.
pub proof fn ttl_sets_timeout(t: ActivityTracker, ttl: u16, now: u64)
    ensures
        t.with_received_ping(None, now).timeout_nanos() == t.timeout_nanos(),
        t.with_received_ping(Some(0), now).timeout_nanos() == t.timeout_nanos(),
        ttl > 0 ==> t.with_received_ping(Some(ttl), now).timeout_nanos() == (if ttl * 100_000_000
            < clock::nanos(t.config.timeout) {
            (ttl * 100_000_000) as nat
        } else {
            clock::nanos(t.config.timeout)
        }),
{
}

/// After a PING, and after activity, the next PING is not due before the interval
/// has passed.
pub proof fn pings_keep_their_interval(t: ActivityTracker, now: u64, later: u64)
    requires
        elapsed(now, later) < clock::nanos(t.config.ping_interval),
    ensures
        now > 0 ==> !t.with_sent_ping(now).ping_due_at(later),
        !t.with_activity(now).ping_due_at(later),
        !t.with_received_pong(now).ping_due_at(later),
{
}

/// A PING that was due never takes the count of unanswered PINGs past the maximum,
/// and at the maximum none is due.
pub proof fn unanswered_pings_are_bounded(t: ActivityTracker, now: u64, later: u64)
    ensures
        t.ping_due_at(now) ==> t.with_sent_ping(now).unanswered_pings
            <= t.config.max_unanswered_pings,
        t.unanswered_pings >= t.config.max_unanswered_pings ==> !t.ping_due_at(later),
        t.with_received_pong(now).unanswered_pings <= t.unanswered_pings,
{
}

/// As long as PINGs are sent only when they are due, no more are unanswered than there may
/// be.
pub proof fn pings_stay_within_the_limit(
    t: ActivityTracker,
    config: HeartbeatConfig,
    ttl: Option<u16>,
    now: u64,
)
    requires
        t.within_limit(),
    ensures
        ActivityTracker::fresh(config, now).within_limit(),
        t.with_activity(now).within_limit(),
        t.with_received_ping(ttl, now).within_limit(),
        t.with_received_pong(now).within_limit(),
        t.ping_due_at(now) ==> t.with_sent_ping(now).within_limit(),
{
}

/// The answer to a PING takes the PING off the count again.
pub proof fn pong_answers_ping(t: ActivityTracker, sent: u64, answered: u64)
    requires
        t.unanswered_pings < u32::MAX,
    ensures
        t.with_sent_ping(sent).with_received_pong(answered).unanswered_pings == t.unanswered_pings,
{
}

/// A connection is dead exactly when no time is left; while time is left, it stays
/// alive for as long as less than that passes.
pub proof fn alive_while_time_is_left(t: ActivityTracker, now: u64, later: u64)
    requires
        now <= later,
        t.last_activity_ms <= now,
    ensures
        t.left_at(now) is None <==> t.dead_at(now),
        t.left_at(now) matches Some(left) ==> (!t.dead_at(later) <==> elapsed(now, later) <= left),
{
}

/// Handle to a running heartbeat task
///
/// Whoever gives it up tells the task to shut down.
#[derive(Debug, PartialEq, Eq, Structural)]
pub struct HeartbeatHandle {
    pub task: u64,
}

impl HeartbeatHandle {
    /// Request graceful shutdown of the heartbeat task: returns the task to signal.
    pub fn shutdown(self) -> (task: u64)
        ensures
            task == self.task,
    {
        self.task
    }
}

/// What happened to a heartbeat task.
#[derive(Debug, Copy, Clone, PartialEq, Eq, Structural)]
pub enum HeartbeatEvent {
    /// The handle was given up.
    Shutdown,
    /// The check interval is over.
    CheckDue,
    /// The timeout was reported; `stop` is what the callback returned.
    TimeoutHandled { stop: bool },
    /// The PING went out, or it did not within its time.
    PingFinished { sent: bool },
    /// The failed PING was reported; `stop` is what the callback returned.
    FailureHandled { stop: bool },
}

/// What a heartbeat task does next.
#[derive(Debug, Copy, Clone)]
pub enum HeartbeatAction {
    /// Sleep for the check interval, or until shutdown.
    Wait { interval: Duration },
    /// Call the timeout callback: the peer is dead.
    ReportTimeout,
    /// Send a PING with this TTL, and give up after `timeout`.
    SendPing { timeout: Duration, ttl: Option<u16> },
    /// Call the timeout callback: the PING failed.
    ReportFailure,
    /// End the task.
    Stop,
}

/// A kind of action.
#[derive(Debug, Copy, Clone, PartialEq, Eq, Structural)]
pub enum HeartbeatActionKind {
    Wait,
    ReportTimeout,
    SendPing,
    ReportFailure,
    Stop,
}

impl HeartbeatAction {
    pub open spec fn kind(self) -> HeartbeatActionKind {
        match self {
            HeartbeatAction::Wait { .. } => HeartbeatActionKind::Wait,
            HeartbeatAction::ReportTimeout => HeartbeatActionKind::ReportTimeout,
            HeartbeatAction::SendPing { .. } => HeartbeatActionKind::SendPing,
            HeartbeatAction::ReportFailure => HeartbeatActionKind::ReportFailure,
            HeartbeatAction::Stop => HeartbeatActionKind::Stop,
        }
    }

    /// A wait lasts for the check interval, a PING gets the time and the TTL that the
    /// configuration gives it.
    pub open spec fn fits(self, config: HeartbeatConfig) -> bool {
        match self {
            HeartbeatAction::Wait { interval } => clock::nanos(interval) == clock::nanos_of_ms(
                CHECK_INTERVAL_MS as nat,
            ),
            HeartbeatAction::SendPing { timeout, ttl } => timeout == config.ping_interval && ttl
                == config.ttl,
            _ => true,
        }
    }
}

/// Send a PING if one is due, and wait otherwise.
pub open spec fn ping_or_wait(t: ActivityTracker, now: u64) -> HeartbeatActionKind {
    if t.ping_due_at(now) {
        HeartbeatActionKind::SendPing
    } else {
        HeartbeatActionKind::Wait
    }
}

/// What a heartbeat task does after an event, where the clock shows `now` and, when
/// it is looked at again, `later`.
pub open spec fn heartbeat_next(
    event: HeartbeatEvent,
    t: ActivityTracker,
    now: u64,
    later: u64,
) -> HeartbeatActionKind {
    match event {
        HeartbeatEvent::Shutdown => HeartbeatActionKind::Stop,
        HeartbeatEvent::CheckDue => if t.dead_at(now) {
            HeartbeatActionKind::ReportTimeout
        } else {
            ping_or_wait(t, later)
        },
        HeartbeatEvent::TimeoutHandled { stop } => if stop {
            HeartbeatActionKind::Stop
        } else {
            ping_or_wait(t, now)
        },
        HeartbeatEvent::PingFinished { sent } => if sent {
            HeartbeatActionKind::Wait
        } else {
            HeartbeatActionKind::ReportFailure
        },
        HeartbeatEvent::FailureHandled { stop } => if stop {
            HeartbeatActionKind::Stop
        } else {
            HeartbeatActionKind::Wait
        },
    }
}

/// What an event makes of the tracker: a PING that went out is counted.
pub open spec fn heartbeat_tracker(
    event: HeartbeatEvent,
    t: ActivityTracker,
    now: u64,
) -> ActivityTracker {
    match event {
        HeartbeatEvent::PingFinished { sent } => if sent {
            t.with_sent_ping(now)
        } else {
            t
        },
        _ => t,
    }
}

/// Moves a heartbeat task on.
///
/// The task:
/// - Wakes up every ~500ms to check if PING should be sent
/// - Sends a PING if one is due
/// - Reports the peer when `is_dead()` returns true, and when a PING fails
/// - Continues until shutdown is requested or a report is answered by stopping
pub fn heartbeat_step(event: HeartbeatEvent, tracker: &mut ActivityTracker) -> (action:
    HeartbeatAction)
    ensures
        exists|t: SystemTime, u: SystemTime|
            {
                let now = #[trigger] clock::reading_ms(t);
                let later = #[trigger] clock::reading_ms(u);
                action.kind() == heartbeat_next(event, *old(tracker), now, later) && *final(tracker)
                    == heartbeat_tracker(event, *old(tracker), now)
            },
        action.fits(old(tracker).config),
{
    let now = clock::current_time_ms();
    let later = clock::current_time_ms();
    heartbeat_step_at(event, tracker, now, later)
}

/// Moves a heartbeat task on, where the clock shows `now` and then `later`.
pub fn heartbeat_step_at(
    event: HeartbeatEvent,
    tracker: &mut ActivityTracker,
    now: u64,
    later: u64,
) -> (action: HeartbeatAction)
    ensures
        action.kind() == heartbeat_next(event, *old(tracker), now, later),
        action.fits(old(tracker).config),
        *final(tracker) == heartbeat_tracker(event, *old(tracker), now),
{
    let wait = HeartbeatAction::Wait { interval: Duration::from_millis(CHECK_INTERVAL_MS) };
    match event {
        HeartbeatEvent::Shutdown => HeartbeatAction::Stop,
        HeartbeatEvent::CheckDue => {
            if tracker.is_dead_at(now) {
                HeartbeatAction::ReportTimeout
            } else if tracker.should_send_ping_at(later) {
                HeartbeatAction::SendPing {
                    timeout: tracker.config.send_ping_timeout(),
                    ttl: tracker.config.ttl,
                }
            } else {
                wait
            }
        },
        HeartbeatEvent::TimeoutHandled { stop } => {
            if stop {
                HeartbeatAction::Stop
            } else if tracker.should_send_ping_at(now) {
                HeartbeatAction::SendPing {
                    timeout: tracker.config.send_ping_timeout(),
                    ttl: tracker.config.ttl,
                }
            } else {
                wait
            }
        },
        HeartbeatEvent::PingFinished { sent } => {
            if sent {
                tracker.sent_ping_at(now);
                wait
            } else {
                HeartbeatAction::ReportFailure
            }
        },
        HeartbeatEvent::FailureHandled { stop } => {
            if stop {
                HeartbeatAction::Stop
            } else {
                wait
            }
        },
    }
}

/// Time adds up: from one reading to a later one passes one million nanoseconds for every
/// millisecond, and a clock that went back shows no time.
pub proof fn time_adds_up(since: u64, now: u64, later: u64)
    ensures
        since <= now ==> elapsed(since, now) == (now - since) * 1_000_000,
        now <= since ==> elapsed(since, now) == 0,
        since <= now <= later ==> elapsed(since, now) + elapsed(now, later) == elapsed(
            since,
            later,
        ),
{
}

/// A peer that was last active at `last` is alive as long as no more milliseconds than the
/// timeout has have passed, and dead from then on. With too many unanswered PINGs it is
/// dead in any case.
pub proof fn silence_kills(t: ActivityTracker, n: u64)
    requires
        t.last_activity_ms + n <= u64::MAX,
    ensures
        ({
            let now = (t.last_activity_ms + n) as u64;
            let own = clock::nanos(t.config.timeout);
            let peer = t.peer_timeout_ms * 1_000_000;
            t.dead_at(now) <==> {
                ||| n * 1_000_000 > own
                ||| t.peer_timeout_ms > 0 && n * 1_000_000 > peer
                ||| t.unanswered_pings > t.config.max_unanswered_pings
            }
        }),
{
}

/// The time left and the time since the last activity make up the timeout.
pub proof fn time_left_and_passed_make_the_timeout(t: ActivityTracker, now: u64)
    ensures
        t.left_at(now) is None <==> t.dead_at(now),
        t.left_at(now) matches Some(left) ==> left + elapsed(t.last_activity_ms, now)
            == t.timeout_nanos(),
{
}

/// A PING becomes due, and stays due, exactly when fewer are unanswered than may be, and as
/// many nanoseconds as the interval has have passed since the last activity and since the
/// last PING, if there was one. What the peer asked for before has no part in it.
pub proof fn pings_become_due(t: ActivityTracker, now: u64)
    ensures
        t.unanswered_pings < t.config.max_unanswered_pings && t.last_activity_ms <= now && (now
            - t.last_activity_ms) * 1_000_000 >= clock::nanos(t.config.ping_interval) && (
        t.last_ping_ms == 0 || (t.last_ping_ms <= now && (now - t.last_ping_ms) * 1_000_000
            >= clock::nanos(t.config.ping_interval))) ==> t.ping_due_at(now),
        t.ping_due_at(now) ==> t.unanswered_pings < t.config.max_unanswered_pings,
        t.ping_due_at(now) && clock::nanos(t.config.ping_interval) > 0 ==> t.last_activity_ms <= now
            && (now - t.last_activity_ms) * 1_000_000 >= clock::nanos(t.config.ping_interval) && (
        t.last_ping_ms == 0 || (t.last_ping_ms <= now && (now - t.last_ping_ms) * 1_000_000
            >= clock::nanos(t.config.ping_interval))),
        forall|later: u64| now <= later && t.ping_due_at(now) ==> #[trigger] t.ping_due_at(later),
{
}

/// Whatever came in last, a PING is due as soon as the interval has passed since then, if
/// none was sent before and one may be unanswered.
pub proof fn ping_follows_silence(t: ActivityTracker, ttl: Option<u16>, now: u64, later: u64)
    requires
        t.unanswered_pings < t.config.max_unanswered_pings,
        t.last_ping_ms == 0,
    ensures
        ({
            let over = elapsed(now, later) >= clock::nanos(t.config.ping_interval);
            &&& t.with_activity(now).ping_due_at(later) <==> over
            &&& t.with_received_ping(ttl, now).ping_due_at(later) <==> over
            &&& t.with_received_pong(now).ping_due_at(later) <==> over
        }),
{
}

/// A PING that was answered leaves the next one due when the interval has passed since the
/// answer and since the PING.
pub proof fn ping_follows_answer(t: ActivityTracker, sent: u64, answered: u64, later: u64)
    requires
        t.unanswered_pings < t.config.max_unanswered_pings,
        0 < sent <= answered,
        elapsed(answered, later) >= clock::nanos(t.config.ping_interval),
    ensures
        t.with_sent_ping(sent).with_received_pong(answered).ping_due_at(later),
{
}

/// Whatever happens to a tracker changes what it is about and nothing else.
pub proof fn events_touch_their_own(
    t: ActivityTracker,
    config: HeartbeatConfig,
    ttl: Option<u16>,
    now: u64,
)
    ensures
        ({
            let new = ActivityTracker::fresh(config, now);
            &&& new.config == config
            &&& new.last_activity_ms == now
            &&& new.peer_timeout_ms == 0 && new.unanswered_pings == 0 && new.last_ping_ms == 0
        }),
        ({
            let active = t.with_activity(now);
            &&& active.last_activity_ms == now
            &&& active.config == t.config
            &&& active.peer_timeout_ms == t.peer_timeout_ms
            &&& active.unanswered_pings == t.unanswered_pings
            &&& active.last_ping_ms == t.last_ping_ms
        }),
        ({
            let sent = t.with_sent_ping(now);
            &&& sent.last_ping_ms == now
            &&& t.unanswered_pings < u32::MAX ==> sent.unanswered_pings == t.unanswered_pings + 1
            &&& sent.config == t.config
            &&& sent.peer_timeout_ms == t.peer_timeout_ms
            &&& sent.last_activity_ms == t.last_activity_ms
        }),
        ({
            let pinged = t.with_received_ping(ttl, now);
            &&& pinged.last_activity_ms == now
            &&& ttl is None || ttl == Some(0u16) ==> pinged.peer_timeout_ms == t.peer_timeout_ms
            &&& ttl matches Some(tenths) ==> (tenths > 0 ==> pinged.peer_timeout_ms == tenths
                * 100)
            &&& pinged.config == t.config
            &&& pinged.unanswered_pings == t.unanswered_pings
            &&& pinged.last_ping_ms == t.last_ping_ms
        }),
        ({
            let answered = t.with_received_pong(now);
            &&& answered.last_activity_ms == now
            &&& t.unanswered_pings > 0 ==> answered.unanswered_pings == t.unanswered_pings - 1
            &&& t.unanswered_pings == 0 ==> answered.unanswered_pings == 0
            &&& answered.config == t.config
            &&& answered.peer_timeout_ms == t.peer_timeout_ms
            &&& answered.last_ping_ms == t.last_ping_ms
        }),
{
}

/// A task sends a PING only when it has just woken, or was told to go on, and a PING is
/// due. It reports a peer exactly when it finds it dead on waking, and a failure exactly
/// when a PING has failed. It stops when it is shut down or a report is answered by
/// stopping, and at no other time; in between it waits.
pub proof fn task_does_its_duty(event: HeartbeatEvent, t: ActivityTracker, now: u64, later: u64)
    ensures
        ({
            let next = heartbeat_next(event, t, now, later);
            &&& event is Shutdown ==> next == HeartbeatActionKind::Stop
            &&& event is CheckDue && t.dead_at(now) ==> next == HeartbeatActionKind::ReportTimeout
            &&& event is CheckDue && !t.dead_at(now) && t.ping_due_at(later) ==> next
                == HeartbeatActionKind::SendPing
            &&& event is CheckDue && !t.dead_at(now) && !t.ping_due_at(later) ==> next
                == HeartbeatActionKind::Wait
            &&& event == (HeartbeatEvent::TimeoutHandled { stop: true }) ==> next
                == HeartbeatActionKind::Stop
            &&& event == (HeartbeatEvent::TimeoutHandled { stop: false }) && t.ping_due_at(now)
                ==> next == HeartbeatActionKind::SendPing
            &&& event == (HeartbeatEvent::TimeoutHandled { stop: false }) && !t.ping_due_at(now)
                ==> next == HeartbeatActionKind::Wait
            &&& event == (HeartbeatEvent::PingFinished { sent: true }) ==> next
                == HeartbeatActionKind::Wait
            &&& event == (HeartbeatEvent::PingFinished { sent: false }) ==> next
                == HeartbeatActionKind::ReportFailure
            &&& event == (HeartbeatEvent::FailureHandled { stop: true }) ==> next
                == HeartbeatActionKind::Stop
            &&& event == (HeartbeatEvent::FailureHandled { stop: false }) ==> next
                == HeartbeatActionKind::Wait
        }),
{
}

/// A task counts a PING exactly when it went out, and changes the tracker by nothing else.
pub proof fn task_counts_what_went_out(event: HeartbeatEvent, t: ActivityTracker, now: u64)
    ensures
        ({
            let after = heartbeat_tracker(event, t, now);
            if event == (HeartbeatEvent::PingFinished { sent: true }) {
                &&& after.last_ping_ms == now
                &&& t.unanswered_pings < u32::MAX ==> after.unanswered_pings == t.unanswered_pings
                    + 1
                &&& after.last_activity_ms == t.last_activity_ms
                &&& after.peer_timeout_ms == t.peer_timeout_ms
                &&& after.config == t.config
            } else {
                after == t
            }
        }),
{
}

/// A task that waits wakes after half a second, and a PING has the interval of the
/// configuration to go out and carries its TTL.
pub proof fn actions_fit_the_configuration(a: HeartbeatAction, config: HeartbeatConfig)
    requires
        a.fits(config),
    ensures
        a matches HeartbeatAction::Wait { interval } ==> clock::nanos(interval) == 500_000_000,
        a matches HeartbeatAction::SendPing { timeout, ttl } ==> timeout == config.ping_interval
            && ttl == config.ttl,
        a.kind() == HeartbeatActionKind::Wait <==> a is Wait,
        a.kind() == HeartbeatActionKind::SendPing <==> a is SendPing,
        a.kind() == HeartbeatActionKind::ReportTimeout <==> a is ReportTimeout,
        a.kind() == HeartbeatActionKind::ReportFailure <==> a is ReportFailure,
        a.kind() == HeartbeatActionKind::Stop <==> a is Stop,
{
}

/// By default a PING goes out after 15 seconds of silence, with a TTL of 60 seconds, a peer
/// is dead after 60 seconds, and three PINGs may be unanswered.
pub proof fn default_values(config: HeartbeatConfig)
    requires
        config.is_default(),
    ensures
        clock::nanos(config.ping_interval) == 15 * 1_000_000_000,
        clock::nanos(config.timeout) == 60 * 1_000_000_000,
        config.ttl == Some(600u16),
        config.max_unanswered_pings == 3,
{
}

} // verus!
