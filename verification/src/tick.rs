//! The rate limit of the tick scheduler.
use vstd::prelude::*;

verus! {

/// Ticks per second.
pub const TPS: u64 = 10;

/// Nanoseconds that must pass between two triggers.
pub const TICK_NANOS: u64 = 100_000_000;

/// The state of the rate limit: the time of the last trigger, if there was one.
#[derive(Clone, Copy, Debug, PartialEq, Eq, Structural)]
pub struct TickScheduler {
    pub last_trigger: Option<u64>,
}

/// The time that has passed at `now` since the last trigger; zero where
/// there was none, or where the clock has gone back.
pub open spec fn elapsed(last_trigger: Option<u64>, now: u64) -> int {
    match last_trigger {
        Some(t) => if now >= t {
            now - t
        } else {
            0
        },
        None => 0,
    }
}

impl TickScheduler {
    /// A scheduler that has not triggered yet.
    pub fn new() -> (r: TickScheduler)
        ensures
            r.last_trigger.is_none(),
    {
        TickScheduler { last_trigger: None }
    }
}

/// Whether the action is due at the time `now`, in nanoseconds: a full tick
/// has passed since the last trigger. A trigger is noted as the last one;
/// otherwise the scheduler stays as it is.
pub fn should_trigger(scheduler: &mut TickScheduler, now: u64) -> (r: bool)
    ensures
        r == (elapsed(old(scheduler).last_trigger, now) >= TICK_NANOS),
        r ==> final(scheduler).last_trigger == Some(now),
        !r ==> *final(scheduler) == *old(scheduler),
{
    let last: u64 = match scheduler.last_trigger {
        Some(t) => t,
        None => now,
    };
    let passed: u64 = if now >= last {
        now - last
    } else {
        0
    };
    if passed < TICK_NANOS {
        return false;
    }
    scheduler.last_trigger = Some(now);
    true
}

} // verus!
