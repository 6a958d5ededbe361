//! Where elapsed time comes from.

use vstd::prelude::*;
use std::time::{Duration, Instant, SystemTime};
use crate::time::{duration_from_nanos, nanos_of, saturating_nanos_add, MAX_NANOS};

verus! {

/// `std::time::Instant`, a reading of the monotonic clock, carried through
/// without looking inside.
#[verifier::external_type_specification]
#[verifier::external_body]
pub struct ExInstant(Instant);

/// `std::time::SystemTime`, a reading of the wall clock, carried through
/// without looking inside.
#[verifier::external_type_specification]
#[verifier::external_body]
pub struct ExSystemTime(SystemTime);

/// The current reading of the monotonic clock.
///
/// Calls `Instant::now`; the reading depends on when it is taken, so nothing is
/// promised about it.
#[verifier::external_body]
pub(crate) fn instant_now() -> Instant {
    Instant::now()
}

/// The time that passed from the reading `earlier` to the reading `later`,
/// as `Instant::duration_since` computes it from the two readings alone.
pub uninterp spec fn elapsed_between(later: Instant, earlier: Instant) -> Duration;

/// The time that passed from `earlier` to `later`.
///
/// Calls `Instant::duration_since`, which depends on the two readings and
/// nothing else; the contract names its result and says nothing more of it.
#[verifier::external_body]
pub(crate) fn duration_between(later: Instant, earlier: Instant) -> (d: Duration)
    ensures
        d == elapsed_between(later, earlier),
{
    later.duration_since(earlier)
}

/// The current reading of the wall clock.
///
/// Calls `SystemTime::now`; nothing is promised about the reading.
#[verifier::external_body]
pub(crate) fn system_now() -> SystemTime {
    SystemTime::now()
}

/// The time from the Unix epoch to `t`, or [`None`] when `t` lies before it.
///
/// Calls `SystemTime::duration_since` with the epoch; the answer depends on the
/// clock reading, so nothing is promised about it.
#[verifier::external_body]
pub(crate) fn since_epoch(t: SystemTime) -> Option<Duration> {
    match t.duration_since(std::time::UNIX_EPOCH) {
        Ok(d) => Some(d),
        Err(_) => None,
    }
}

/// A source of elapsed time.
///
/// The engine measures gravity in durations, never by calling the system clock
/// itself, so a test can advance time by an exact amount.
pub trait Clock: Sized {
    /// Whether a tick may turn this clock into `after` and report `elapsed`.
    /// Each clock says what its ticks measure.
    open spec fn ticks_to(&self, after: Self, elapsed: Duration) -> bool {
        arbitrary()
    }

    /// The time elapsed since the previous call, zero on the first.
    fn tick(&mut self) -> (d: Duration)
        ensures
            old(self).ticks_to(*final(self), d),
    ;
}

/// A clock reading the operating system's monotonic timer.
#[derive(Debug)]
pub struct SystemClock {
    last: Instant,
}

impl SystemClock {
    /// The reading the next tick measures from.
    pub closed spec fn reading(self) -> Instant {
        self.last
    }

    /// Starts a clock measuring from now.
    pub fn new() -> SystemClock {
        SystemClock { last: instant_now() }
    }
}

impl Default for SystemClock {
    fn default() -> SystemClock {
        SystemClock::new()
    }
}

impl Clock for SystemClock {
    /// The time from the previous reading to the new one.
    open spec fn ticks_to(&self, after: SystemClock, elapsed: Duration) -> bool {
        elapsed == elapsed_between(after.reading(), self.reading())
    }

    /// Takes a fresh reading, keeps it for the next tick, and returns the time
    /// from the previous reading to it.
    fn tick(&mut self) -> (d: Duration)
        ensures
            d == elapsed_between(final(self).reading(), old(self).reading()),
    {
        let now = instant_now();
        let elapsed = duration_between(now, self.last);
        self.last = now;
        elapsed
    }
}

/// A clock that only moves when a test tells it to.
#[derive(Debug)]
pub struct ManualClock {
    pending: u128,
}

impl ManualClock {
    /// The time queued for the next tick, in nanoseconds.
    pub closed spec fn queued_nanos(self) -> int {
        self.pending as int
    }

    #[verifier::type_invariant]
    spec fn representable(self) -> bool {
        self.pending <= MAX_NANOS
    }

    /// Creates a clock sitting at zero.
    pub fn new() -> (c: ManualClock)
        ensures
            c.queued_nanos() == 0,
    {
        ManualClock { pending: 0 }
    }

    /// Queues `amount` to be reported by the next [`Clock::tick`].
    pub fn advance(&mut self, amount: Duration)
        ensures
            final(self).queued_nanos() == saturating_nanos_add(
                old(self).queued_nanos(),
                nanos_of(amount),
            ),
    {
        proof {
            use_type_invariant(&*self);
        }
        let more = crate::time::duration_nanos(amount);
        let total: u128 = if self.pending > MAX_NANOS - more { MAX_NANOS } else { self.pending + more };
        self.pending = total;
    }
}

impl Default for ManualClock {
    fn default() -> (c: ManualClock)
        ensures
            c.queued_nanos() == 0,
    {
        ManualClock::new()
    }
}

impl Clone for ManualClock {
    fn clone(&self) -> (c: ManualClock)
        ensures
            c.queued_nanos() == self.queued_nanos(),
    {
        proof {
            use_type_invariant(self);
        }
        ManualClock { pending: self.pending }
    }
}

impl Clock for ManualClock {
    /// All the queued time, which leaves the clock at zero.
    open spec fn ticks_to(&self, after: ManualClock, elapsed: Duration) -> bool {
        &&& nanos_of(elapsed) == self.queued_nanos()
        &&& after.queued_nanos() == 0
    }

    fn tick(&mut self) -> (d: Duration)
        ensures
            nanos_of(d) == old(self).queued_nanos(),
            final(self).queued_nanos() == 0,
    {
        proof {
            use_type_invariant(&*self);
        }
        let d = duration_from_nanos(self.pending);
        self.pending = 0;
        d
    }
}

/// The total length of `amounts`, in nanoseconds.
pub open spec fn total_nanos(amounts: Seq<Duration>) -> int
    decreases amounts.len(),
{
    if amounts.len() == 0 {
        0
    } else {
        total_nanos(amounts.drop_last()) + nanos_of(amounts.last())
    }
}

/// Whether each clock of `clocks` is the one before it after the matching
/// advance of `amounts`.
pub open spec fn advanced_in_turn(clocks: Seq<ManualClock>, amounts: Seq<Duration>) -> bool {
    &&& clocks.len() == amounts.len() + 1
    &&& forall|i: int|
        0 <= i < amounts.len() ==> #[trigger] clocks[i + 1].queued_nanos() == saturating_nanos_add(
            clocks[i].queued_nanos(),
            nanos_of(amounts[i]),
        )
}

/// After `i` advances the clock holds what it started with and the first `i`
/// amounts, capped at the largest duration.
proof fn lemma_advances_so_far(clocks: Seq<ManualClock>, amounts: Seq<Duration>, i: int)
    requires
        advanced_in_turn(clocks, amounts),
        clocks[0].queued_nanos() <= MAX_NANOS,
        forall|k: int| 0 <= k < amounts.len() ==> 0 <= #[trigger] nanos_of(amounts[k]) <= MAX_NANOS,
        0 <= i <= amounts.len(),
    ensures
        clocks[i].queued_nanos() == saturating_nanos_add(clocks[0].queued_nanos(), total_nanos(amounts.take(i))),
        total_nanos(amounts.take(i)) >= 0,
    decreases i,
{
    if i == 0 {
        assert(amounts.take(0).len() == 0);
    } else {
        lemma_advances_so_far(clocks, amounts, i - 1);
        let k = i - 1;
        assert(clocks[k + 1].queued_nanos() == saturating_nanos_add(clocks[k].queued_nanos(), nanos_of(amounts[k])));
        assert(amounts.take(i).drop_last() =~= amounts.take(k));
        assert(amounts.take(i).last() == amounts[k]);
        assert(nanos_of(amounts[k]) >= 0);
        assert(clocks[0].queued_nanos() >= 0);
    }
}

/// Time handed to a manual clock accumulates until it is read: any number of
/// advances and then a tick report their total, capped at the largest
/// duration, and leave the clock at zero.
pub proof fn law_advances_accumulate(clocks: Seq<ManualClock>, amounts: Seq<Duration>, read: Duration, after: ManualClock)
    requires
        advanced_in_turn(clocks, amounts),
        clocks[0].queued_nanos() <= MAX_NANOS,
        forall|k: int| 0 <= k < amounts.len() ==> 0 <= #[trigger] nanos_of(amounts[k]) <= MAX_NANOS,
        clocks.last().ticks_to(after, read),
    ensures
        nanos_of(read) == saturating_nanos_add(clocks[0].queued_nanos(), total_nanos(amounts)),
        after.queued_nanos() == 0,
{
    lemma_advances_so_far(clocks, amounts, amounts.len() as int);
    assert(amounts.take(amounts.len() as int) =~= amounts);
}

} // verus!
