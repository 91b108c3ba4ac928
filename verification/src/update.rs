//! The fixed-step update scheduler: real elapsed time accumulates as lag,
//! whole ticks are drained from the lag at a configured interval, and the
//! remainder yields an interpolation fraction for rendering between ticks.
//!
//! All durations are whole nanoseconds. The interpolation fraction is given
//! in millionths: a return of `250_000` means a quarter of the current tick
//! interval has already elapsed.

use vstd::prelude::*;
use vstd::arithmetic::div_mod::{
    lemma_div_non_zero, lemma_fundamental_div_mod, lemma_mod_division_less_than_divisor,
    lemma_multiply_divide_lt, lemma_remainder_lower, lemma_div_pos_is_pos,
};

use crate::clock;

verus! {

/// Nanoseconds in one second.
pub const NANOS_PER_SECOND: u64 = 1_000_000_000;

/// How the fixed tick rate is configured.
#[derive(Debug, Clone, Copy, PartialEq, Eq, Hash, Structural)]
pub enum UpdateRate {
    /// A fixed tick interval, in nanoseconds.
    Interval(u64),
    /// So many ticks per second.
    PerSecond(u32),
    /// So many ticks per minute.
    PerMinute(u32),
}

impl UpdateRate {
    /// The canonical tick interval this rate stands for, in nanoseconds.
    pub open spec fn interval_ns(self) -> int {
        match self {
            UpdateRate::Interval(ns) => ns as int,
            UpdateRate::PerSecond(count) => 1_000_000_000int / (count as int),
            UpdateRate::PerMinute(count) => 60_000_000_000int / (count as int),
        }
    }

    /// A rate is valid when its canonical interval is at least one
    /// nanosecond; a zero rate, or one above a tick per nanosecond, would
    /// make the scheduler tick forever or never.
    pub open spec fn valid(self) -> bool {
        match self {
            UpdateRate::Interval(ns) => ns > 0,
            UpdateRate::PerSecond(count) => 0 < count <= 1_000_000_000,
            UpdateRate::PerMinute(count) => count > 0,
        }
    }

    /// Converts the rate to its canonical tick interval.
    pub fn to_interval(self) -> (r: u64)
        requires
            self.valid(),
        ensures
            r == self.interval_ns(),
            r > 0,
    {
        match self {
            UpdateRate::Interval(ns) => ns,
            UpdateRate::PerSecond(count) => {
                proof {
                    lemma_div_non_zero(1_000_000_000int, count as int);
                }
                NANOS_PER_SECOND / (count as u64)
            },
            UpdateRate::PerMinute(count) => {
                proof {
                    lemma_div_non_zero(60_000_000_000int, count as int);
                }
                (60 * NANOS_PER_SECOND) / (count as u64)
            },
        }
    }
}

impl Default for UpdateRate {
    /// Sixty ticks per second.
    fn default() -> (r: Self)
        ensures
            r == UpdateRate::PerSecond(60u32),
    {
        UpdateRate::PerSecond(60)
    }
}

/// Addition of durations, saturating at the largest representable duration.
pub open spec fn sat_add_ns(a: int, b: int) -> int {
    if a + b > u64::MAX {
        u64::MAX as int
    } else {
        a + b
    }
}

/// How many whole ticks come due once `elapsed` more nanoseconds have been
/// added to `lag`.
pub open spec fn due_ticks(lag: int, interval: int, elapsed: int) -> int
    recommends
        interval > 0,
{
    sat_add_ns(lag, elapsed) / interval
}

/// The lag left over once the due ticks are consumed.
pub open spec fn lag_after(lag: int, interval: int, elapsed: int) -> int
    recommends
        interval > 0,
{
    sat_add_ns(lag, elapsed) % interval
}

/// The interpolation fraction a lag stands for, in millionths of the
/// interval.
pub open spec fn delta_fraction(lag: int, interval: int) -> int
    recommends
        interval > 0,
{
    lag * 1_000_000 / interval
}

/// Saturating duration addition.
pub(crate) fn sat_add(a: u64, b: u64) -> (r: u64)
    ensures
        r == sat_add_ns(a as int, b as int),
{
    if u64::MAX - a < b {
        u64::MAX
    } else {
        a + b
    }
}

/// Accumulates lag against a fixed tick interval.
pub struct UpdateLoop {
    interval: u64,
    previous: instant::Instant,
    lag: u64,
}

/// A snapshot of how many whole ticks are due, taken without committing the
/// time accounting: the caller runs exactly that many ticks, then commits by
/// [`UpdateGuard::finish`].
pub struct UpdateGuard {
    previous: instant::Instant,
    elapsed: u64,
    count: u64,
}

impl UpdateLoop {
    /// The fixed tick interval, in nanoseconds.
    pub closed spec fn interval_spec(&self) -> u64 {
        self.interval
    }

    /// Accumulated real time not yet consumed by a tick, in nanoseconds.
    pub closed spec fn lag_spec(&self) -> u64 {
        self.lag
    }

    /// The invariant: a positive interval, and lag strictly below it — every
    /// accounting pass drains ticks until less than one interval is left.
    pub closed spec fn wf(&self) -> bool {
        &&& self.interval > 0
        &&& self.lag < self.interval
    }

    /// A scheduler at the given rate, starting now, with no accumulated lag.
    pub fn new(rate: UpdateRate) -> (r: Self)
        requires
            rate.valid(),
        ensures
            r.wf(),
            r.interval_spec() == rate.interval_ns(),
            r.lag_spec() == 0,
    {
        UpdateLoop { interval: rate.to_interval(), previous: clock::now(), lag: 0 }
    }

    /// The fixed tick interval, in nanoseconds.
    pub fn interval_ns(&self) -> (r: u64)
        ensures
            r == self.interval_spec(),
    {
        self.interval
    }

    /// The accumulated lag, in nanoseconds.
    pub fn lag_ns(&self) -> (r: u64)
        ensures
            r == self.lag_spec(),
    {
        self.lag
    }

    /// Reads the clock and commits one accounting pass: returns how many
    /// whole ticks came due for the real time elapsed since the previous
    /// pass, together with the interpolation fraction left over. The caller
    /// runs that many ticks. Equivalent to [`UpdateLoop::begin_updates`]
    /// followed immediately by [`UpdateGuard::finish`].
    pub fn update(&mut self) -> (r: (u64, u64))
        requires
            old(self).wf(),
        ensures
            ({
                let (count, delta) = r;
                &&& final(self).wf()
                &&& final(self).interval_spec() == old(self).interval_spec()
                &&& exists|elapsed: int|
                    {
                        &&& 0 <= elapsed <= u64::MAX
                        &&& count == due_ticks(
                            old(self).lag_spec() as int,
                            old(self).interval_spec() as int,
                            elapsed,
                        )
                        &&& final(self).lag_spec() as int == lag_after(
                            old(self).lag_spec() as int,
                            old(self).interval_spec() as int,
                            elapsed,
                        )
                    }
                &&& delta == delta_fraction(
                    final(self).lag_spec() as int,
                    final(self).interval_spec() as int,
                )
                &&& delta < 1_000_000
            }),
    {
        let updates = self.begin_updates();
        let count = updates.count();
        let ghost elapsed = updates.elapsed_spec() as int;
        let delta = updates.finish(self);
        proof {
            assert(0 <= elapsed <= u64::MAX);
        }
        (count, delta)
    }

    /// Takes the non-committing snapshot: how many whole ticks are due for
    /// the real time elapsed since the previous pass. Nothing is promised of
    /// the clock reading itself; the count and the reading agree by
    /// [`due_ticks`].
    pub fn begin_updates(&self) -> (g: UpdateGuard)
        requires
            self.wf(),
        ensures
            g.count_spec() == due_ticks(
                self.lag_spec() as int,
                self.interval_spec() as int,
                g.elapsed_spec() as int,
            ),
    {
        UpdateGuard::new(self)
    }

    /// The interpolation fraction the current lag stands for, in millionths
    /// of the tick interval: close to zero right after a tick, close to one
    /// million just before the next.
    pub fn delta(&self) -> (r: u64)
        requires
            self.wf(),
        ensures
            r == delta_fraction(self.lag_spec() as int, self.interval_spec() as int),
            r < 1_000_000,
    {
        proof {
            lemma_multiply_divide_lt(
                self.lag as int * 1_000_000,
                self.interval as int,
                1_000_000int,
            );
            if self.lag > 0 {
                lemma_div_pos_is_pos(self.lag as int * 1_000_000, self.interval as int);
            }
        }
        (((self.lag as u128) * 1_000_000) / (self.interval as u128)) as u64
    }

    /// Would at least one tick fire if `elapsed` more nanoseconds had
    /// passed?
    pub fn will_update_after(&self, elapsed: u64) -> (r: bool)
        requires
            self.wf(),
        ensures
            r == (due_ticks(self.lag_spec() as int, self.interval_spec() as int, elapsed as int)
                > 0),
    {
        let total = sat_add(self.lag, elapsed);
        proof {
            if total >= self.interval {
                lemma_div_non_zero(total as int, self.interval as int);
            } else {
                assert(total as int / self.interval as int == 0) by {
                    vstd::arithmetic::div_mod::lemma_basic_div(
                        total as int,
                        self.interval as int,
                    );
                }
            }
        }
        total >= self.interval
    }

    /// Reads the clock without committing: true if at least one tick would
    /// fire on the next [`UpdateLoop::update`]. Nothing is promised of the
    /// reading itself.
    pub fn will_update(&self) -> bool
        requires
            self.wf(),
    {
        self.will_update_after(clock::elapsed_ns(&self.previous))
    }
}

impl Default for UpdateLoop {
    /// A scheduler at sixty ticks per second, starting now.
    fn default() -> (r: Self)
        ensures
            r.wf(),
            r.interval_spec() == 16_666_666u64,
            r.lag_spec() == 0,
    {
        Self::new(UpdateRate::PerSecond(60))
    }
}

impl UpdateGuard {
    /// The clock reading the snapshot was taken against, in nanoseconds
    /// since the scheduler's previous accounting pass.
    pub closed spec fn elapsed_spec(&self) -> u64 {
        self.elapsed
    }

    /// The number of whole ticks due.
    pub closed spec fn count_spec(&self) -> u64 {
        self.count
    }

    /// Snapshot against the clock.
    fn new(l: &UpdateLoop) -> (g: UpdateGuard)
        requires
            l.wf(),
        ensures
            g.count_spec() == due_ticks(
                l.lag_spec() as int,
                l.interval_spec() as int,
                g.elapsed_spec() as int,
            ),
    {
        let elapsed = clock::elapsed_ns(&l.previous);
        let previous = clock::now();
        Self::with_elapsed(l, elapsed, previous)
    }

    /// Snapshot against an explicit elapsed reading: how many whole ticks
    /// come due when `elapsed` nanoseconds are added to the scheduler's lag.
    /// `previous` becomes the scheduler's new accounting instant on
    /// [`UpdateGuard::finish`].
    pub fn with_elapsed(l: &UpdateLoop, elapsed: u64, previous: instant::Instant) -> (g:
        UpdateGuard)
        requires
            l.wf(),
        ensures
            g.elapsed_spec() == elapsed,
            g.count_spec() == due_ticks(
                l.lag_spec() as int,
                l.interval_spec() as int,
                elapsed as int,
            ),
    {
        let total = sat_add(l.lag, elapsed);
        let count = total / l.interval;
        UpdateGuard { previous, elapsed, count }
    }

    /// The number of whole ticks the caller should run before finishing.
    pub fn count(&self) -> (r: u64)
        ensures
            r == self.count_spec(),
    {
        self.count
    }

    /// Commits the accounting: subtracts exactly the counted whole intervals
    /// from the accumulated lag, moves the accounting instant forward, and
    /// returns the interpolation fraction of the remaining lag. The guard
    /// must still agree with the scheduler it was taken from.
    pub fn finish(self, l: &mut UpdateLoop) -> (delta: u64)
        requires
            old(l).wf(),
            self.count_spec() == due_ticks(
                old(l).lag_spec() as int,
                old(l).interval_spec() as int,
                self.elapsed_spec() as int,
            ),
        ensures
            final(l).wf(),
            final(l).interval_spec() == old(l).interval_spec(),
            final(l).lag_spec() as int == lag_after(
                old(l).lag_spec() as int,
                old(l).interval_spec() as int,
                self.elapsed_spec() as int,
            ),
            final(l).lag_spec() as int == sat_add_ns(
                old(l).lag_spec() as int,
                self.elapsed_spec() as int,
            ) - self.count_spec() * old(l).interval_spec(),
            delta == delta_fraction(final(l).lag_spec() as int, final(l).interval_spec() as int),
            delta < 1_000_000,
    {
        l.previous = self.previous;
        let total = sat_add(l.lag, self.elapsed);
        proof {
            let ti = total as int;
            let di = l.interval as int;
            lemma_fundamental_div_mod(ti, di);
            lemma_mod_division_less_than_divisor(ti, di);
            lemma_remainder_lower(ti, di);
            assert(self.count_spec() as int == ti / di);
            assert(self.count_spec() as int * di == di * (ti / di)) by (nonlinear_arith)
                requires
                    self.count_spec() as int == ti / di,
            ;
            assert(self.count_spec() as int * di == ti - ti % di);
        }
        l.lag = total - self.count * l.interval;
        l.delta()
    }
}

/// The sum of a run of elapsed readings.
pub open spec fn total_elapsed(elapseds: Seq<int>) -> int
    decreases elapseds.len(),
{
    if elapseds.len() == 0 {
        0
    } else {
        elapseds.first() + total_elapsed(elapseds.drop_first())
    }
}

/// The lag left after a whole run of accounting passes.
pub open spec fn run_lag(lag: int, interval: int, elapseds: Seq<int>) -> int
    recommends
        interval > 0,
    decreases elapseds.len(),
{
    if elapseds.len() == 0 {
        lag
    } else {
        run_lag(lag_after(lag, interval, elapseds.first()), interval, elapseds.drop_first())
    }
}

/// The ticks fired over a whole run of accounting passes.
pub open spec fn run_ticks(lag: int, interval: int, elapseds: Seq<int>) -> int
    recommends
        interval > 0,
    decreases elapseds.len(),
{
    if elapseds.len() == 0 {
        0
    } else {
        due_ticks(lag, interval, elapseds.first()) + run_ticks(
            lag_after(lag, interval, elapseds.first()),
            interval,
            elapseds.drop_first(),
        )
    }
}

/// Tick conservation: over any run of accounting passes whose total elapsed
/// time stays representable, the ticks fired sum to exactly the whole ticks
/// in the total elapsed time (plus the starting lag), no tick lost and none
/// duplicated, and the final lag is the remainder: nonnegative and strictly
/// below one interval.
pub proof fn lemma_tick_conservation(lag: int, interval: int, elapseds: Seq<int>)
    requires
        interval > 0,
        0 <= lag < interval,
        forall|i: int| 0 <= i < elapseds.len() ==> elapseds[i] >= 0,
        lag + total_elapsed(elapseds) <= u64::MAX,
    ensures
        0 <= run_lag(lag, interval, elapseds) < interval,
        run_ticks(lag, interval, elapseds) * interval + run_lag(lag, interval, elapseds) == lag
            + total_elapsed(elapseds),
        run_ticks(lag, interval, elapseds) == (lag + total_elapsed(elapseds)) / interval,
    decreases elapseds.len(),
{
    if elapseds.len() == 0 {
        lemma_fundamental_div_mod(lag, interval);
        vstd::arithmetic::div_mod::lemma_basic_div(lag, interval);
        assert(lag / interval == 0);
        assert(run_ticks(lag, interval, elapseds) == 0);
        assert(run_lag(lag, interval, elapseds) == lag);
        assert(total_elapsed(elapseds) == 0);
        assert(run_ticks(lag, interval, elapseds) * interval == 0) by (nonlinear_arith)
            requires
                run_ticks(lag, interval, elapseds) == 0,
        ;
    } else {
        let e = elapseds.first();
        let rest = elapseds.drop_first();
        assert(total_elapsed(rest) >= 0) by {
            lemma_total_elapsed_nonneg(rest);
        }
        assert(e >= 0) by {
            assert(elapseds[0] == e);
        }
        assert(forall|i: int| 0 <= i < rest.len() ==> rest[i] == elapseds[i + 1] && rest[i] >= 0);
        assert(lag + e <= u64::MAX);
        let lag1 = lag_after(lag, interval, e);
        let due = due_ticks(lag, interval, e);
        lemma_fundamental_div_mod(lag + e, interval);
        lemma_mod_division_less_than_divisor(lag + e, interval);
        lemma_remainder_lower(lag + e, interval);
        assert(due * interval + lag1 == lag + e);
        assert(0 <= lag1 < interval);
        assert(lag1 + total_elapsed(rest) <= u64::MAX);
        lemma_tick_conservation(lag1, interval, rest);
        assert(run_ticks(lag, interval, elapseds) == due + run_ticks(lag1, interval, rest));
        assert(run_lag(lag, interval, elapseds) == run_lag(lag1, interval, rest));
        assert(run_ticks(lag, interval, elapseds) * interval + run_lag(lag, interval, elapseds)
            == lag + total_elapsed(elapseds)) by {
            assert((due + run_ticks(lag1, interval, rest)) * interval == due * interval
                + run_ticks(lag1, interval, rest) * interval) by {
                vstd::arithmetic::mul::lemma_mul_is_distributive_add_other_way(
                    interval,
                    due,
                    run_ticks(lag1, interval, rest),
                );
            }
        }
        vstd::arithmetic::div_mod::lemma_fundamental_div_mod_converse(
            lag + total_elapsed(elapseds),
            interval,
            run_ticks(lag, interval, elapseds),
            run_lag(lag, interval, elapseds),
        );
    }
}

/// The sum of nonnegative readings is nonnegative.
proof fn lemma_total_elapsed_nonneg(elapseds: Seq<int>)
    requires
        forall|i: int| 0 <= i < elapseds.len() ==> elapseds[i] >= 0,
    ensures
        total_elapsed(elapseds) >= 0,
    decreases elapseds.len(),
{
    if elapseds.len() > 0 {
        assert(elapseds[0] >= 0);
        let rest = elapseds.drop_first();
        assert(forall|i: int| 0 <= i < rest.len() ==> rest[i] == elapseds[i + 1] && rest[i] >= 0);
        lemma_total_elapsed_nonneg(rest);
    }
}

/// Guard/finish consistency: committing after a snapshot subtracts exactly
/// the counted whole intervals from the accumulated time, so running exactly
/// [`UpdateGuard::count`] ticks and finishing leaves the same state as the
/// combined [`UpdateLoop::update`] — both end with the lag [`lag_after`]
/// gives for the same elapsed reading.
pub proof fn lemma_finish_subtracts_counted_ticks(lag: int, interval: int, elapsed: int)
    requires
        interval > 0,
        0 <= lag,
        0 <= elapsed,
    ensures
        lag_after(lag, interval, elapsed) == sat_add_ns(lag, elapsed) - due_ticks(
            lag,
            interval,
            elapsed,
        ) * interval,
        0 <= lag_after(lag, interval, elapsed) < interval,
{
    let total = sat_add_ns(lag, elapsed);
    lemma_fundamental_div_mod(total, interval);
    lemma_mod_division_less_than_divisor(total, interval);
    lemma_remainder_lower(total, interval);
    assert((total / interval) * interval == interval * (total / interval)) by (nonlinear_arith);
}

} // verus!
