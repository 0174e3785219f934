//! The decisions of the task that paces the purge of a reference cache.
//!
//! The task itself sleeps and wakes outside this library. Each time it
//! wakes, is cancelled or fails to set its timer, it reports the event to
//! [`PurgeDriver::step`], which purges the cache where that is due and says
//! what the task is to do next.

use vstd::prelude::*;
use crate::blockcfg::HeaderHash;
use crate::quarantine::ErrorKind;
use crate::reference_cache::{expiry, unexpired, Cached, RefCache};

verus! {

/// What happened to the purge task.
#[derive(Clone, Copy, Debug, PartialEq, Eq, Structural)]
pub enum PurgeEvent {
    /// The task woke at this time: its sleep ended, or an insertion
    /// signalled it.
    Woken(u64),
    /// The timer could not be set or failed while the task slept.
    TimerFailed,
    /// The task was asked to end.
    Cancelled,
}

/// What the purge task is to do next.
#[derive(Clone, Copy, Debug, PartialEq, Eq, Structural)]
pub enum PurgeAction {
    /// Sleep until this time, the earliest at which an entry expires, or
    /// until an insertion signals; then report `Woken`.
    SleepUntil(u64),
    /// The cache is empty: wait for an insertion to signal, then report
    /// `Woken`.
    AwaitInsertion,
    /// Pass the timer's failure on to whoever supervises the task. The
    /// failure is transient: the task may set its timer again and go on.
    ReportTimerFailure,
    /// Return: the task has ended.
    Stop,
}

impl PurgeAction {
    /// The error that this action passes on: the timer's, where the action
    /// reports its failure; none otherwise.
    pub fn failure(&self) -> (r: Option<ErrorKind>)
        ensures
            r == if *self == PurgeAction::ReportTimerFailure {
                Some(ErrorKind::Timer)
            } else {
                None::<ErrorKind>
            },
    {
        match self {
            PurgeAction::ReportTimerFailure => Some(ErrorKind::Timer),
            _ => None,
        }
    }
}

/// The earliest time at which an entry of `m` expires is `at`.
pub open spec fn is_next_expiry(m: Map<HeaderHash, Cached>, ttl: u64, at: u64) -> bool {
    &&& exists|k: HeaderHash| #[trigger] m.contains_key(k) && at == expiry(m[k].touched, ttl)
    &&& forall|k: HeaderHash| #[trigger] m.contains_key(k) ==> at <= expiry(m[k].touched, ttl)
}

/// What the task is to do after `event`, given whether it had been stopped
/// before and the contents of the cache once the event has been dealt with.
pub open spec fn next_action(
    stopped: bool,
    event: PurgeEvent,
    m: Map<HeaderHash, Cached>,
    ttl: u64,
) -> PurgeAction {
    if stopped {
        PurgeAction::Stop
    } else {
        match event {
            PurgeEvent::Cancelled => PurgeAction::Stop,
            PurgeEvent::TimerFailed => PurgeAction::ReportTimerFailure,
            PurgeEvent::Woken(_) => if m == Map::<HeaderHash, Cached>::empty() {
                PurgeAction::AwaitInsertion
            } else {
                PurgeAction::SleepUntil(choose|at: u64| is_next_expiry(m, ttl, at))
            },
        }
    }
}

/// The state of the purge task: running until it is cancelled.
pub struct PurgeDriver {
    stopped: bool,
}

impl PurgeDriver {
    /// Whether the task has been cancelled.
    pub closed spec fn is_stopped(&self) -> bool {
        self.stopped
    }

    /// The state of a task that has not been cancelled.
    pub fn new() -> (r: Self)
        ensures
            !r.is_stopped(),
    {
        PurgeDriver { stopped: false }
    }

    /// Whether the task has been cancelled.
    pub fn has_stopped(&self) -> (r: bool)
        ensures
            r == self.is_stopped(),
    {
        self.stopped
    }

    /// Deals with `event` and says what the task is to do next.
    ///
    /// Once cancelled, the driver stays stopped and leaves the cache alone.
    /// Waking at a time purges the cache at that time; the task then sleeps
    /// until the earliest expiry among the entries left, or awaits an
    /// insertion when none is left. A timer failure is reported and changes
    /// nothing. A purge runs to its end within the step in which it began,
    /// so a cancellation never cuts one short.
    pub fn step(&mut self, cache: &mut RefCache, event: PurgeEvent) -> (r: PurgeAction)
        ensures
            final(cache).ttl() == old(cache).ttl(),
            final(self).is_stopped() == (old(self).is_stopped() || event is Cancelled),
            final(cache)@ == match event {
                PurgeEvent::Woken(now) if !old(self).is_stopped() => unexpired(
                    old(cache)@,
                    old(cache).ttl(),
                    now,
                ),
                _ => old(cache)@,
            },
            r == next_action(old(self).is_stopped(), event, final(cache)@, final(cache).ttl()),
            r matches PurgeAction::SleepUntil(at) ==> is_next_expiry(
                final(cache)@,
                final(cache).ttl(),
                at,
            ),
    {
        if self.stopped {
            return PurgeAction::Stop;
        }
        match event {
            PurgeEvent::Cancelled => {
                self.stopped = true;
                PurgeAction::Stop
            },
            PurgeEvent::TimerFailed => PurgeAction::ReportTimerFailure,
            PurgeEvent::Woken(now) => {
                cache.purge(now);
                match cache.next_expiry() {
                    Some(at) => {
                        proof {
                            lemma_next_expiry_unique(cache@, cache.ttl(), at);
                        }
                        PurgeAction::SleepUntil(at)
                    },
                    None => PurgeAction::AwaitInsertion,
                }
            },
        }
    }
}

/// A cache that holds an entry has exactly one earliest expiry.
pub proof fn lemma_next_expiry_unique(m: Map<HeaderHash, Cached>, ttl: u64, at: u64)
    requires
        is_next_expiry(m, ttl, at),
    ensures
        m != Map::<HeaderHash, Cached>::empty(),
        (choose|other: u64| is_next_expiry(m, ttl, other)) == at,
{
    let other = choose|other: u64| is_next_expiry(m, ttl, other);
    assert(is_next_expiry(m, ttl, other));
    let k = choose|k: HeaderHash| #[trigger] m.contains_key(k) && at == expiry(m[k].touched, ttl);
    let j = choose|j: HeaderHash|
        #[trigger] m.contains_key(j) && other == expiry(m[j].touched, ttl);
    assert(m.contains_key(k));
    assert(m.contains_key(j));
}

} // verus!
