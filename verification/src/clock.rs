//! Durations and the wall clock.
use std::time::{Duration, SystemTime, SystemTimeError, UNIX_EPOCH};
use vstd::prelude::*;

verus! {

/// `std::time::SystemTime`: a reading of the wall clock.
#[verifier::external_type_specification]
#[verifier::external_body]
pub struct ExSystemTime(SystemTime);

/// `std::time::SystemTimeError`: the clock stood before the epoch.
#[verifier::external_type_specification]
#[verifier::external_body]
pub struct ExSystemTimeError(SystemTimeError);

/// The length of a `Duration` in nanoseconds: what `Duration::as_nanos` returns.
pub uninterp spec fn nanos(d: Duration) -> nat;

/// Nanoseconds in a millisecond.
pub open spec fn nanos_of_ms(ms: nat) -> nat {
    ms * 1_000_000
}

/// `Duration::as_nanos`: the whole length in nanoseconds.
pub assume_specification[ Duration::as_nanos ](d: &Duration) -> (n: u128)
    ensures
        n == nanos(*d),
;

/// `Duration::as_millis`: the length in whole milliseconds, rounded down.
pub assume_specification[ Duration::as_millis ](d: &Duration) -> (n: u128)
    ensures
        n == nanos(*d) / 1_000_000,
;

/// `Duration::from_millis`: exactly that many milliseconds.
pub assume_specification[ Duration::from_millis ](millis: u64) -> (d: Duration)
    ensures
        nanos(d) == nanos_of_ms(millis as nat),
;

/// `Duration::from_secs`: exactly that many seconds.
pub assume_specification[ Duration::from_secs ](secs: u64) -> (d: Duration)
    ensures
        nanos(d) == secs * 1_000_000_000,
;

/// `Duration::saturating_sub`: the difference, or zero where it would be negative.
pub assume_specification[ Duration::saturating_sub ](a: Duration, b: Duration) -> (d: Duration)
    ensures
        nanos(d) == if nanos(a) >= nanos(b) { nanos(a) - nanos(b) } else { 0 },
;

/// `SystemTime::now`: any reading.
pub assume_specification[ SystemTime::now ]() -> (t: SystemTime)
;

/// The nanoseconds from the Unix epoch to a reading; none for a reading before the epoch.
/// This is what `SystemTime::duration_since` with `UNIX_EPOCH` returns.
pub uninterp spec fn epoch_nanos(t: SystemTime) -> Option<nat>;

/// `SystemTime::duration_since` with `UNIX_EPOCH`: the time passed since the epoch,
/// or an error for a reading before it.
#[verifier::external_body]
fn since_epoch(t: &SystemTime) -> (r: Result<Duration, SystemTimeError>)
    ensures
        r is Ok <==> epoch_nanos(*t) is Some,
        r matches Ok(d) ==> epoch_nanos(*t) == Some(nanos(d)),
{
    t.duration_since(UNIX_EPOCH)
}

/// What a reading amounts to: its whole milliseconds since the epoch, their low 64 bits if
/// there are more, and 0 for a reading before the epoch.
pub open spec fn reading_ms(t: SystemTime) -> u64 {
    match epoch_nanos(t) {
        Some(n) => (n / 1_000_000) as u64,
        None => 0,
    }
}

/// The whole milliseconds of the time since the epoch, their low 64 bits if there are
/// more, and 0 for a time before it.
pub fn whole_ms(since_epoch: Result<Duration, SystemTimeError>) -> (ms: u64)
    ensures
        ms == (match since_epoch {
            Ok(d) => (nanos(d) / 1_000_000) as u64,
            Err(_) => 0,
        }),
{
    match since_epoch {
        Ok(d) => #[verifier::truncate] (d.as_millis() as u64),
        Err(_) => 0,
    }
}

/// Milliseconds since the Unix epoch, or 0 while the clock stands before it. Which reading
/// the clock gives is left open.
pub fn current_time_ms() -> (now: u64)
    ensures
        exists|t: SystemTime| now == #[trigger] reading_ms(t),
{
    let t = SystemTime::now();
    let now = whole_ms(since_epoch(&t));
    assert(now == reading_ms(t));
    now
}

/// A reading in milliseconds is the time since the epoch, rounded down: less than one
/// millisecond is lost. This holds of every reading that 64 bits can hold.
pub proof fn less_than_a_millisecond_is_lost(t: SystemTime, n: nat)
    requires
        epoch_nanos(t) == Some(n),
        n / 1_000_000 <= u64::MAX,
    ensures
        reading_ms(t) * 1_000_000 <= n,
        n < (reading_ms(t) + 1) * 1_000_000,
        nanos_of_ms(reading_ms(t) as nat) <= n,
{
}

} // verus!
