//! Time measurement utilities.
//!
//! - A `Clock` trait abstracting the source of "now".
//! - `SystemClock`: reads the host's wall clock.
//! - `ManualClock`: a shared, manually advanced time cell for deterministic
//!   tests; clones observe the same cell, which sits behind a verified lock.
//! - `Stopwatch`: measures elapsed time against a `Clock`.
//! - `Timer`: a `Stopwatch` plus a fixed duration, with timeout detection.

use vstd::prelude::*;
use vstd::rwlock::RwLock;
use std::sync::Arc;

use crate::timestamp::{NanoDelta, NanoTimestamp};

verus! {

/// A provider of the current time.
///
/// An implementation may read a shared or external source, so no relation
/// between two calls is promised here.
pub trait Clock: Send + Sync {
    fn now(&self) -> NanoTimestamp;
}

/// A time provider that uses the system's clock.
#[derive(Clone, Debug)]
pub struct SystemClock;

/// Relies on chrono: `Utc::now` reads the system clock, and
/// `DateTime::timestamp_nanos_opt` gives its nanosecond count whenever the
/// instant fits in an i64 (`None` for dates past the year 2262, which the
/// caller handles). `Utc::now` itself still aborts on a host clock standing
/// before the Unix epoch; that path lies inside chrono.
#[verifier::external_body]
fn chrono_system_now_nanos() -> Option<i64> {
    chrono::Utc::now().timestamp_nanos_opt()
}

impl Clock for SystemClock {
    /// The current wall-clock time; an instant past the representable range
    /// reads as the range's end rather than failing.
    fn now(&self) -> NanoTimestamp {
        match chrono_system_now_nanos() {
            Some(n) => NanoTimestamp::from_nanos(n),
            None => NanoTimestamp::from_nanos(i64::MAX),
        }
    }
}

/// Relies on std's `Arc::clone`: the clone is another pointer to the same
/// allocation, so it carries the same value.
#[verifier::external_body]
fn share_time_cell(v: &Arc<RwLock<i64, spec_fn(i64) -> bool>>) -> (res: Arc<
    RwLock<i64, spec_fn(i64) -> bool>,
>)
    ensures
        res == *v,
{
    Arc::clone(v)
}

/// A time provider that can be advanced by hand.
///
/// Clones share one underlying cell, guarded by a lock, so every reader sees
/// each earlier write.
pub struct ManualClock {
    cell: Arc<RwLock<i64, spec_fn(i64) -> bool>>,
}

impl Clone for ManualClock {
    /// The clone shares this clock's cell.
    fn clone(&self) -> Self {
        proof {
            use_type_invariant(self);
        }
        ManualClock { cell: share_time_cell(&self.cell) }
    }
}

impl ManualClock {
    /// The cell accepts every value: the clock may be set to any time.
    #[verifier::type_invariant]
    spec fn wf(self) -> bool {
        forall|v: i64| self.cell.inv(v)
    }

    /// A fresh clock standing at the epoch.
    pub fn new() -> Self {
        ManualClock { cell: Arc::new(RwLock::new(0i64, Ghost(|v: i64| true))) }
    }

    /// Move time forward by a positive delta.
    ///
    /// The cell saturates at the end of the representable range instead of
    /// wrapping around.
    pub fn advance_by(&self, duration: NanoDelta)
        requires
            duration@ > 0,
    {
        proof {
            use_type_invariant(self);
        }
        let (v, handle) = self.cell.acquire_write();
        let next: i64 = match v.checked_add(duration.as_nanos()) {
            Some(n) => n,
            None => i64::MAX,
        };
        handle.release_write(next);
    }

    /// Set the time unconditionally; it may move backward.
    pub fn advance_to(&self, time: NanoTimestamp) {
        proof {
            use_type_invariant(self);
        }
        let (_v, handle) = self.cell.acquire_write();
        handle.release_write(time.as_nanos());
    }
}

impl Clock for ManualClock {
    fn now(&self) -> NanoTimestamp {
        let handle = self.cell.acquire_read();
        let v: i64 = *handle.borrow();
        handle.release_read();
        NanoTimestamp::from_nanos(v)
    }
}

/// The sum of a sequence of deltas.
pub open spec fn sum_of(ds: Seq<int>) -> int
    decreases ds.len(),
{
    if ds.len() == 0 {
        0
    } else {
        sum_of(ds.drop_last()) + ds.last()
    }
}

proof fn lemma_prefix_sum_nonneg(ds: Seq<int>, i: int)
    requires
        forall|k: int| 0 <= k < ds.len() ==> ds[k] > 0,
        0 <= i <= ds.len(),
    ensures
        0 <= sum_of(ds.take(i)),
    decreases i,
{
    if i == 0 {
        assert(ds.take(0) =~= Seq::<int>::empty());
    } else {
        lemma_prefix_sum_nonneg(ds, i - 1);
        assert(ds.take(i).drop_last() =~= ds.take(i - 1));
        assert(ds.take(i).last() == ds[i - 1]);
    }
}

/// For any sequence of positive deltas, the prefix sums are non-negative and
/// non-decreasing: a value built from zero by adding them one at a time never
/// moves backward.
pub proof fn lemma_manual_clock_reads(ds: Seq<int>, i: int, j: int)
    requires
        forall|k: int| 0 <= k < ds.len() ==> ds[k] > 0,
        0 <= i <= j <= ds.len(),
    ensures
        sum_of(ds.take(i)) <= sum_of(ds.take(j)),
        0 <= sum_of(ds.take(i)),
    decreases j - i,
{
    lemma_prefix_sum_nonneg(ds, i);
    if i < j {
        lemma_manual_clock_reads(ds, i, j - 1);
        assert(ds.take(j).drop_last() =~= ds.take(j - 1));
        assert(ds.take(j).last() == ds[j - 1]);
    }
}

/// Measure elapsed time against a clock.
pub struct Stopwatch<C: Clock> {
    pub clock: C,
    pub start_time: NanoTimestamp,
}

impl<C: Clock> Stopwatch<C> {
    /// Start measuring at the clock's current time.
    pub fn new(clock: C) -> (r: Self)
        ensures
            r.clock == clock,
    {
        Self { start_time: clock.now(), clock }
    }

    /// Elapsed time at a given observation of the clock.
    pub fn elapsed_at(&self, now: NanoTimestamp) -> (r: NanoDelta)
        requires
            i64::MIN <= now@ - self.start_time@ <= i64::MAX,
        ensures
            r@ == now@ - self.start_time@,
    {
        now.diff(self.start_time)
    }

    /// Elapsed time since the start, read from the clock.
    ///
    /// The clock's value is unconstrained here; the difference wraps around at
    /// the ends of the representable range.
    pub fn elapsed(&self) -> NanoDelta {
        let n = self.clock.now();
        NanoDelta::from_nanos(n.as_nanos().wrapping_sub(self.start_time.as_nanos()))
    }

    /// Restart the measurement at the clock's current time.
    pub fn reset(&mut self)
        ensures
            final (self).clock == old(self).clock,
    {
        self.start_time = self.clock.now();
    }
}

/// Measure elapsed time and detect that a fixed duration has passed.
pub struct Timer<C: Clock> {
    pub stopwatch: Stopwatch<C>,
    pub duration: NanoDelta,
}

impl<C: Clock> Timer<C> {
    /// Start a timer of the given duration at the clock's current time.
    pub fn new(clock: C, duration: NanoDelta) -> (r: Self)
        ensures
            r.duration == duration,
            r.stopwatch.clock == clock,
    {
        Self { duration, stopwatch: Stopwatch::new(clock) }
    }

    /// Whether a clock observation of `now` means the duration has fully
    /// elapsed; the boundary is inclusive.
    pub open spec fn timeout_at(&self, now: int) -> bool {
        now - self.stopwatch.start_time@ >= self.duration@
    }

    /// The exact timeout decision for a given observation of the clock.
    pub fn is_timeout_at(&self, now: NanoTimestamp) -> (r: bool)
        ensures
            r == self.timeout_at(now@),
    {
        let elapsed: i128 = (now.as_nanos() as i128) - (self.stopwatch.start_time.as_nanos()
            as i128);
        elapsed >= (self.duration.as_nanos() as i128)
    }

    /// Whether the duration has fully elapsed at the clock's current time.
    pub fn is_timeout(&self) -> bool {
        let n = self.stopwatch.clock.now();
        self.is_timeout_at(n)
    }

    /// Elapsed time since the start or the last reset.
    pub fn elapsed(&self) -> NanoDelta {
        self.stopwatch.elapsed()
    }

    /// Restart the measurement; the duration and the clock are kept.
    pub fn reset(&mut self)
        ensures
            final (self).duration == old(self).duration,
            final (self).stopwatch.clock == old(self).stopwatch.clock,
    {
        self.stopwatch.reset();
    }
}

/// The timeout decision against elapsed time: false strictly below the
/// duration, true exactly at it, and, once true, true for every later
/// observation; at zero elapsed it holds only for non-positive durations.
pub proof fn lemma_timer_timeout_boundary<C: Clock>(t: Timer<C>, now1: int, now2: int)
    ensures
        now1 - t.stopwatch.start_time@ < t.duration@ ==> !t.timeout_at(now1),
        now1 - t.stopwatch.start_time@ == t.duration@ ==> t.timeout_at(now1),
        now1 - t.stopwatch.start_time@ > t.duration@ ==> t.timeout_at(now1),
        now1 <= now2 && t.timeout_at(now1) ==> t.timeout_at(now2),
        t.timeout_at(t.stopwatch.start_time@) <==> t.duration@ <= 0,
{
}

} // verus!
