//! The measuring loop of the station. At every tick it collects one
//! measurement per channel; when more than the averaging interval has passed
//! since the last calculation, it also averages the channels, writes the
//! history and publishes the values, and starts a new averaging interval. A
//! stop request ends the loop.

use vstd::prelude::*;

verus! {

/// The state of the measuring loop: when the current averaging interval
/// started, in seconds of a monotonic clock.
pub struct Collector {
    pub start: u64,
}

/// What happens to the measuring loop.
pub enum CollectEvent {
    /// A tick at `now`; the averaging interval is `average` seconds.
    Tick { now: u64, average: u64 },
    /// A stop request.
    Abort,
}

/// What the measuring loop does.
#[derive(Debug, PartialEq, Eq, Structural, Clone, Copy)]
pub enum CollectAction {
    /// Collect one measurement per channel.
    Collect,
    /// Collect one measurement per channel, then average, write the history
    /// and publish.
    CollectAndCalculate,
    /// Leave the loop.
    Stop,
}

/// The seconds from `start` to `now`, none where `now` is earlier.
pub open spec fn since(start: u64, now: u64) -> int {
    if now >= start {
        now - start
    } else {
        0
    }
}

/// The action of the loop at an event, in the state that started its
/// interval at `start`.
pub open spec fn action_of(start: u64, event: CollectEvent) -> CollectAction {
    match event {
        CollectEvent::Tick { now, average } => if since(start, now) > average {
            CollectAction::CollectAndCalculate
        } else {
            CollectAction::Collect
        },
        CollectEvent::Abort => CollectAction::Stop,
    }
}

impl Collector {
    /// The loop, started at `now`.
    pub fn new(now: u64) -> (c: Collector)
        ensures
            c.start == now,
    {
        Collector { start: now }
    }

    /// The action of the loop at `event`; a calculation starts a new
    /// averaging interval at the time of its tick.
    pub fn step(&mut self, event: CollectEvent) -> (a: CollectAction)
        ensures
            a == action_of(old(self).start, event),
            final(self).start == match event {
                CollectEvent::Tick { now, average } => if a == CollectAction::CollectAndCalculate {
                    now
                } else {
                    old(self).start
                },
                CollectEvent::Abort => old(self).start,
            },
    {
        match event {
            CollectEvent::Tick { now, average } => {
                if now >= self.start && now - self.start > average {
                    self.start = now;
                    CollectAction::CollectAndCalculate
                } else {
                    CollectAction::Collect
                }
            },
            CollectEvent::Abort => CollectAction::Stop,
        }
    }
}

/// After a calculation at `now`, the loop does not calculate again before
/// more than the averaging interval has passed.
pub proof fn lemma_no_early_calculation(now: u64, later: u64, average: u64)
    requires
        since(now, later) <= average,
    ensures
        action_of(now, CollectEvent::Tick { now: later, average }) == CollectAction::Collect,
{
}

/// A tick calculates exactly when more than the averaging interval has
/// passed since the current interval started, whatever that interval is;
/// otherwise it only collects. A stop request stops the loop.
pub proof fn lemma_calculates_after_interval(start: u64, now: u64, average: u64)
    ensures
        (action_of(start, CollectEvent::Tick { now, average }) == CollectAction::CollectAndCalculate)
            <==> (now >= start && now - start > average),
        (action_of(start, CollectEvent::Tick { now, average }) == CollectAction::Collect) <==> !(
        now >= start && now - start > average),
        action_of(start, CollectEvent::Abort) == CollectAction::Stop,
{
}

} // verus!
