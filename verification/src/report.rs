//! The periodic performance reporter: wall-clock measurements of a repeated
//! operation, aggregated over a rolling report interval into an average time
//! per operation and an operations-per-second figure, and rendered as an
//! aligned multi-row summary.
//!
//! Durations are whole nanoseconds; the per-second figure is kept in
//! thousandths (an exact `10.0` operations per second is `10_000`).

use vstd::prelude::*;
use vstd::arithmetic::div_mod::lemma_multiply_divide_lt;
use vstd::string::{StrSliceExecFns, StringExecFns};

use crate::clock;
use crate::update::{sat_add, sat_add_ns};

verus! {

/// The average duration of one operation: absent when no operation completed
/// in the window, so that nothing is ever divided by zero.
pub open spec fn spec_average(count: u64, elapsed: u64) -> Option<u64> {
    if count == 0 {
        None
    } else {
        Some(((elapsed as int) / (count as int)) as u64)
    }
}

/// Operations per second over a window of `interval_ns` nanoseconds, in
/// thousandths, saturating at the largest representable figure; absent for a
/// degenerate zero-length window.
pub open spec fn spec_per_second_milli(count: u64, interval_ns: u64) -> Option<u64> {
    if interval_ns == 0 {
        None
    } else {
        let v = (count as int) * 1_000_000_000_000 / (interval_ns as int);
        Some(
            if v > u64::MAX {
                u64::MAX
            } else {
                v as u64
            },
        )
    }
}

/// Counts operations and their summed wall-clock duration over the current
/// report interval, and publishes the previous interval's two figures.
pub struct Reporter {
    count: u64,
    elapsed: u64,
    report_timer: instant::Instant,
    report_interval: u64,
    last_interval: Option<u64>,
    last_per_second: Option<u64>,
}

/// An in-flight measurement: an opaque clock reading taken by
/// [`Reporter::begin`], consumed exactly once by [`Reporter::end`].
pub struct Timer {
    begin: instant::Instant,
}

impl Reporter {
    /// Operations completed in the current interval.
    pub closed spec fn count_spec(&self) -> u64 {
        self.count
    }

    /// Summed duration of the operations of the current interval, in
    /// nanoseconds.
    pub closed spec fn elapsed_spec(&self) -> u64 {
        self.elapsed
    }

    /// The configured report interval, in nanoseconds.
    pub closed spec fn interval_spec(&self) -> u64 {
        self.report_interval
    }

    /// The previous interval's average duration per operation, in
    /// nanoseconds; `None` until the first reset, and after an interval that
    /// completed no operation.
    pub closed spec fn last_interval_spec(&self) -> Option<u64> {
        self.last_interval
    }

    /// The previous interval's operations per second, in thousandths; `None`
    /// until the first reset.
    pub closed spec fn last_per_second_spec(&self) -> Option<u64> {
        self.last_per_second
    }

    /// A reporter over the default three-second interval, starting now.
    pub fn new() -> (r: Self)
        ensures
            r.count_spec() == 0,
            r.elapsed_spec() == 0,
            r.interval_spec() == 3_000_000_000u64,
            r.last_interval_spec() is None,
            r.last_per_second_spec() is None,
    {
        Self::new_with_interval(3_000_000_000)
    }

    /// A reporter over the given interval (in nanoseconds), starting now.
    pub fn new_with_interval(report_interval: u64) -> (r: Self)
        ensures
            r.count_spec() == 0,
            r.elapsed_spec() == 0,
            r.interval_spec() == report_interval,
            r.last_interval_spec() is None,
            r.last_per_second_spec() is None,
    {
        Reporter {
            count: 0,
            elapsed: 0,
            report_timer: clock::now(),
            report_interval,
            last_interval: None,
            last_per_second: None,
        }
    }

    /// Starts one measured operation: an opaque reading of the clock.
    pub fn begin(&self) -> Timer {
        Timer { begin: clock::now() }
    }

    /// Ends one measured operation: reads how long it took and records it.
    /// The duration read off the clock is whatever the clock says; the
    /// accounting of it is exact, as stated by [`Reporter::record`].
    pub fn end(&mut self, timer: Timer)
        ensures
            final(self).count_spec() as int == sat_add_ns(old(self).count_spec() as int, 1),
            exists|duration: int|
                {
                    &&& 0 <= duration <= u64::MAX
                    &&& final(self).elapsed_spec() as int == sat_add_ns(
                        old(self).elapsed_spec() as int,
                        duration,
                    )
                },
            final(self).interval_spec() == old(self).interval_spec(),
            final(self).last_interval_spec() == old(self).last_interval_spec(),
            final(self).last_per_second_spec() == old(self).last_per_second_spec(),
    {
        let duration = clock::elapsed_ns(&timer.begin);
        self.record(duration);
        proof {
            assert(0 <= duration <= u64::MAX);
        }
    }

    /// Records one operation that took `duration` nanoseconds: the count
    /// goes up by one and the duration joins the sum, both saturating.
    pub fn record(&mut self, duration: u64)
        ensures
            final(self).count_spec() as int == sat_add_ns(old(self).count_spec() as int, 1),
            final(self).elapsed_spec() as int == sat_add_ns(
                old(self).elapsed_spec() as int,
                duration as int,
            ),
            final(self).interval_spec() == old(self).interval_spec(),
            final(self).last_interval_spec() == old(self).last_interval_spec(),
            final(self).last_per_second_spec() == old(self).last_per_second_spec(),
    {
        self.elapsed = sat_add(self.elapsed, duration);
        self.count = sat_add(self.count, 1);
    }

    /// Brackets one measured operation around a closure, so the end call
    /// cannot be forgotten, and hands the closure's result through.
    pub fn time<T, F: FnOnce() -> T>(&mut self, f: F) -> (r: T)
        requires
            call_requires(f, ()),
        ensures
            call_ensures(f, (), r),
            final(self).count_spec() as int == sat_add_ns(old(self).count_spec() as int, 1),
            final(self).interval_spec() == old(self).interval_spec(),
            final(self).last_interval_spec() == old(self).last_interval_spec(),
            final(self).last_per_second_spec() == old(self).last_per_second_spec(),
    {
        let timer = self.begin();
        let result = f();
        self.end(timer);
        result
    }

    /// Pure form of the report test: has `elapsed` reached the interval?
    pub fn should_report_after(&self, elapsed: u64) -> (r: bool)
        ensures
            r == (elapsed >= self.interval_spec()),
    {
        elapsed >= self.report_interval
    }

    /// Reads the clock: true once the configured interval has passed since
    /// the interval began. The reading is the clock's; what the answer means
    /// for any reading is stated by [`Reporter::should_report_after`].
    pub fn should_report(&self) -> bool {
        self.should_report_after(clock::elapsed_ns(&self.report_timer))
    }

    /// The configured report interval, in nanoseconds.
    pub fn report_interval(&self) -> (r: u64)
        ensures
            r == self.interval_spec(),
    {
        self.report_interval
    }

    /// Closes the current interval: publishes its average duration per
    /// operation (absent when nothing completed — never a division by zero)
    /// and its operations-per-second figure, zeroes the running counters,
    /// and restarts the interval clock.
    pub fn reset(&mut self)
        ensures
            final(self).count_spec() == 0,
            final(self).elapsed_spec() == 0,
            final(self).interval_spec() == old(self).interval_spec(),
            final(self).last_interval_spec() == spec_average(
                old(self).count_spec(),
                old(self).elapsed_spec(),
            ),
            final(self).last_per_second_spec() == spec_per_second_milli(
                old(self).count_spec(),
                old(self).interval_spec(),
            ),
    {
        let avg: Option<u64> = if self.count == 0 {
            None
        } else {
            Some(self.elapsed / self.count)
        };
        let fps: Option<u64> = if self.report_interval == 0 {
            None
        } else {
            let v = (self.count as u128) * 1_000_000_000_000u128 / (self.report_interval as u128);
            if v > (u64::MAX as u128) {
                Some(u64::MAX)
            } else {
                Some(v as u64)
            }
        };
        self.count = 0;
        self.elapsed = 0;
        self.report_timer = clock::now();
        self.last_interval = avg;
        self.last_per_second = fps;
    }

    /// The previous interval's figures: average nanoseconds per operation
    /// and thousandths of operations per second; `None` until both exist.
    pub fn last(&self) -> (r: Option<(u64, u64)>)
        ensures
            r == match (self.last_interval_spec(), self.last_per_second_spec()) {
                (Some(avg), Some(per_second)) => Some((avg, per_second)),
                _ => None::<(u64, u64)>,
            },
    {
        match (self.last_interval, self.last_per_second) {
            (Some(avg), Some(per_second)) => Some((avg, per_second)),
            _ => None,
        }
    }

    /// The previous interval's figures as text, at the default precisions:
    /// four fractional digits on the duration, one on the per-second figure.
    pub fn last_string(&self) -> (r: (String, String))
        ensures
            r.0@ == spec_opt_duration_str(self.last_interval_spec(), 4),
            r.1@ == spec_opt_per_second_str(self.last_per_second_spec(), 1),
    {
        self.last_string_prec(4, 1)
    }

    /// The previous interval's figures as text: the average duration in a
    /// readable unit with `int_prec` fractional digits, and the per-second
    /// figure with `per_sec_prec` fractional digits; `"..."` while a figure
    /// is absent. Fractional digits beyond the precision are truncated.
    pub fn last_string_prec(&self, int_prec: usize, per_sec_prec: usize) -> (r: (String, String))
        ensures
            r.0@ == spec_opt_duration_str(self.last_interval_spec(), int_prec as int),
            r.1@ == spec_opt_per_second_str(self.last_per_second_spec(), per_sec_prec as int),
    {
        let dur = match self.last_interval {
            Some(ns) => duration_str(ns, int_prec),
            None => ellipsis(),
        };
        let per = match self.last_per_second {
            Some(milli) => per_second_str(milli, per_sec_prec),
            None => ellipsis(),
        };
        (dur, per)
    }

    /// Closes the interval of every named reporter and renders one aligned
    /// summary: a header row with the session label, then one row per
    /// reporter, `label: per-second @ time-per-operation`, with the `@`
    /// columns lined up.
    pub fn report_all(label: &str, reporters: &mut Vec<(String, Reporter)>) -> (r: String)
        ensures
            final(reporters)@.len() == old(reporters)@.len(),
            forall|i: int|
                0 <= i < old(reporters)@.len() ==> {
                    &&& (#[trigger] final(reporters)@[i]).0 == old(reporters)@[i].0
                    &&& is_reset_of(final(reporters)@[i].1, old(reporters)@[i].1)
                },
            r@ == spec_report(label@, spec_rows(old(reporters)@)),
    {
        let ghost rows_spec = spec_rows(old(reporters)@);
        let mut rows: Vec<(String, String, String)> = Vec::new();
        let mut i: usize = 0;
        while i < reporters.len()
            invariant
                i <= reporters@.len(),
                reporters@.len() == old(reporters)@.len(),
                rows_spec == spec_rows(old(reporters)@),
                rows@.len() == i,
                forall|j: int|
                    i <= j < reporters@.len() ==> #[trigger] reporters@[j] == old(reporters)@[j],
                forall|j: int|
                    0 <= j < i ==> {
                        &&& (#[trigger] reporters@[j]).0 == old(reporters)@[j].0
                        &&& is_reset_of(reporters@[j].1, old(reporters)@[j].1)
                    },
                forall|j: int|
                    0 <= j < i ==> {
                        &&& (#[trigger] rows@[j]).0@ == rows_spec[j].0
                        &&& rows@[j].1@ == spec_opt_per_second_str(rows_spec[j].2, 1)
                        &&& rows@[j].2@ == spec_opt_duration_str(rows_spec[j].1, 4)
                    },
            decreases reporters@.len() - i,
        {
            let pair = reporters.remove(i);
            let lbl = pair.0;
            let mut rep = pair.1;
            rep.reset();
            let strings = rep.last_string();
            let lbl_copy = lbl.clone();
            reporters.insert(i, (lbl, rep));
            rows.push((lbl_copy, strings.1, strings.0));
            i = i + 1;
        }
        render_report(label, &rows, Ghost(rows_spec))
    }
}

impl Default for Reporter {
    /// Same as [`Reporter::new`]: the default three-second interval.
    fn default() -> (r: Self)
        ensures
            r.count_spec() == 0,
            r.elapsed_spec() == 0,
            r.interval_spec() == 3_000_000_000u64,
            r.last_interval_spec() is None,
            r.last_per_second_spec() is None,
    {
        Self::new()
    }
}

/// The state [`Reporter::reset`] leaves behind: counters zeroed, the window
/// just measured published as the last figures.
pub open spec fn is_reset_of(new: Reporter, prev: Reporter) -> bool {
    &&& new.count_spec() == 0
    &&& new.elapsed_spec() == 0
    &&& new.interval_spec() == prev.interval_spec()
    &&& new.last_interval_spec() == spec_average(prev.count_spec(), prev.elapsed_spec())
    &&& new.last_per_second_spec() == spec_per_second_milli(prev.count_spec(), prev.interval_spec())
}

/// What one reporter contributes to a report: its label and the two figures
/// its reset publishes.
pub open spec fn spec_rows(reps: Seq<(String, Reporter)>) -> Seq<(Seq<char>, Option<u64>, Option<
    u64,
>)> {
    reps.map_values(
        |p: (String, Reporter)|
            (
                p.0@,
                spec_average(p.1.count_spec(), p.1.elapsed_spec()),
                spec_per_second_milli(p.1.count_spec(), p.1.interval_spec()),
            ),
    )
}

// ---------------------------------------------------------------------------
// Decimal rendering, verified digit by digit.
// ---------------------------------------------------------------------------
/// The decimal digit character for `d`.
pub open spec fn digit_char(d: int) -> char {
    if d == 0 {
        '0'
    } else if d == 1 {
        '1'
    } else if d == 2 {
        '2'
    } else if d == 3 {
        '3'
    } else if d == 4 {
        '4'
    } else if d == 5 {
        '5'
    } else if d == 6 {
        '6'
    } else if d == 7 {
        '7'
    } else if d == 8 {
        '8'
    } else {
        '9'
    }
}

/// The decimal digits of a nonnegative number, most significant first.
pub open spec fn spec_dec(n: int) -> Seq<char>
    recommends
        n >= 0,
    decreases n,
{
    if n < 10 {
        seq![digit_char(n)]
    } else {
        spec_dec(n / 10).push(digit_char(n % 10))
    }
}

/// The first `prec` decimal digits of the fraction `frac / scale`, by long
/// division, truncating.
pub open spec fn spec_frac_digits(frac: int, scale: int, prec: int) -> Seq<char>
    recommends
        0 <= frac < scale,
    decreases prec,
{
    if prec <= 0 {
        Seq::empty()
    } else {
        seq![digit_char(frac * 10 / scale)] + spec_frac_digits(frac * 10 % scale, scale, prec - 1)
    }
}

/// `value / scale` in decimal with `prec` fractional digits (none, and no
/// point, when `prec` is zero), truncating.
pub open spec fn spec_fixed(value: int, scale: int, prec: int) -> Seq<char>
    recommends
        0 <= value,
        0 < scale,
{
    if prec <= 0 {
        spec_dec(value / scale)
    } else {
        spec_dec(value / scale) + seq!['.'] + spec_frac_digits(value % scale, scale, prec)
    }
}

/// A duration of `ns` nanoseconds in a readable unit — nanoseconds below a
/// microsecond, then micro, milli and whole seconds — with `prec` fractional
/// digits.
pub open spec fn spec_duration_str(ns: int, prec: int) -> Seq<char>
    recommends
        0 <= ns,
{
    if ns < 1_000 {
        spec_fixed(ns, 1, prec) + "ns"@
    } else if ns < 1_000_000 {
        spec_fixed(ns, 1_000, prec) + "us"@
    } else if ns < 1_000_000_000 {
        spec_fixed(ns, 1_000_000, prec) + "ms"@
    } else {
        spec_fixed(ns, 1_000_000_000, prec) + "s"@
    }
}

/// A per-second figure held in thousandths, with `prec` fractional digits.
pub open spec fn spec_per_second_str(milli: int, prec: int) -> Seq<char>
    recommends
        0 <= milli,
{
    spec_fixed(milli, 1_000, prec)
}

/// A duration figure, or `"..."` while none exists.
pub open spec fn spec_opt_duration_str(v: Option<u64>, prec: int) -> Seq<char> {
    match v {
        Some(ns) => spec_duration_str(ns as int, prec),
        None => "..."@,
    }
}

/// A per-second figure, or `"..."` while none exists.
pub open spec fn spec_opt_per_second_str(v: Option<u64>, prec: int) -> Seq<char> {
    match v {
        Some(milli) => spec_per_second_str(milli as int, prec),
        None => "..."@,
    }
}

/// The placeholder for a figure that does not exist yet.
fn ellipsis() -> (s: String)
    ensures
        s@ == "..."@,
{
    String::from_str("...")
}

/// One decimal digit as text.
fn digit_str(d: u64) -> (s: &'static str)
    requires
        d < 10,
    ensures
        s@ == seq![digit_char(d as int)],
{
    match d {
        0 => {
            proof {
                reveal_strlit("0");
                assert("0"@ =~= seq![digit_char(0)]);
            }
            "0"
        },
        1 => {
            proof {
                reveal_strlit("1");
                assert("1"@ =~= seq![digit_char(1)]);
            }
            "1"
        },
        2 => {
            proof {
                reveal_strlit("2");
                assert("2"@ =~= seq![digit_char(2)]);
            }
            "2"
        },
        3 => {
            proof {
                reveal_strlit("3");
                assert("3"@ =~= seq![digit_char(3)]);
            }
            "3"
        },
        4 => {
            proof {
                reveal_strlit("4");
                assert("4"@ =~= seq![digit_char(4)]);
            }
            "4"
        },
        5 => {
            proof {
                reveal_strlit("5");
                assert("5"@ =~= seq![digit_char(5)]);
            }
            "5"
        },
        6 => {
            proof {
                reveal_strlit("6");
                assert("6"@ =~= seq![digit_char(6)]);
            }
            "6"
        },
        7 => {
            proof {
                reveal_strlit("7");
                assert("7"@ =~= seq![digit_char(7)]);
            }
            "7"
        },
        8 => {
            proof {
                reveal_strlit("8");
                assert("8"@ =~= seq![digit_char(8)]);
            }
            "8"
        },
        _ => {
            proof {
                reveal_strlit("9");
                assert("9"@ =~= seq![digit_char(9)]);
            }
            "9"
        },
    }
}

/// A nonnegative number in decimal.
fn dec_u64(n: u64) -> (s: String)
    ensures
        s@ == spec_dec(n as int),
    decreases n,
{
    if n < 10 {
        String::from_str(digit_str(n))
    } else {
        let mut s = dec_u64(n / 10);
        s.append(digit_str(n % 10));
        proof {
            assert(s@ =~= spec_dec(n as int));
        }
        s
    }
}

/// The first `prec` decimal digits of `frac / scale`, truncating.
fn frac_digits(frac: u64, scale: u64, prec: usize) -> (s: String)
    requires
        0 < scale <= 1_000_000_000,
        frac < scale,
    ensures
        s@ == spec_frac_digits(frac as int, scale as int, prec as int),
    decreases prec,
{
    if prec == 0 {
        String::new()
    } else {
        let f10 = frac * 10;
        proof {
            lemma_multiply_divide_lt(f10 as int, scale as int, 10);
            lemma_mod_bound(f10 as int, scale as int);
        }
        let d = f10 / scale;
        let rest = frac_digits(f10 % scale, scale, prec - 1);
        let mut s = String::from_str(digit_str(d));
        s.append(rest.as_str());
        proof {
            assert(s@ =~= spec_frac_digits(frac as int, scale as int, prec as int));
        }
        s
    }
}

/// The remainder of a division by a positive number lies below it.
proof fn lemma_mod_bound(x: int, m: int)
    requires
        x >= 0,
        m > 0,
    ensures
        0 <= x % m < m,
{
    vstd::arithmetic::div_mod::lemma_mod_division_less_than_divisor(x, m);
    vstd::arithmetic::div_mod::lemma_remainder_lower(x, m);
}

/// `value / scale` in decimal with `prec` fractional digits, truncating.
fn fixed_str(value: u64, scale: u64, prec: usize) -> (s: String)
    requires
        0 < scale <= 1_000_000_000,
    ensures
        s@ == spec_fixed(value as int, scale as int, prec as int),
{
    let mut s = dec_u64(value / scale);
    if prec > 0 {
        proof {
            reveal_strlit(".");
            assert("."@ =~= seq!['.']);
            lemma_mod_bound(value as int, scale as int);
        }
        s.append(".");
        let f = frac_digits(value % scale, scale, prec);
        s.append(f.as_str());
    }
    s
}

/// A duration in a readable unit with `prec` fractional digits.
fn duration_str(ns: u64, prec: usize) -> (s: String)
    ensures
        s@ == spec_duration_str(ns as int, prec as int),
{
    if ns < 1_000 {
        let mut s = fixed_str(ns, 1, prec);
        s.append("ns");
        s
    } else if ns < 1_000_000 {
        let mut s = fixed_str(ns, 1_000, prec);
        s.append("us");
        s
    } else if ns < 1_000_000_000 {
        let mut s = fixed_str(ns, 1_000_000, prec);
        s.append("ms");
        s
    } else {
        let mut s = fixed_str(ns, 1_000_000_000, prec);
        s.append("s");
        s
    }
}

/// A per-second figure held in thousandths, with `prec` fractional digits.
fn per_second_str(milli: u64, prec: usize) -> (s: String)
    ensures
        s@ == spec_per_second_str(milli as int, prec as int),
{
    fixed_str(milli, 1_000, prec)
}

// ---------------------------------------------------------------------------
// The aligned report.
// ---------------------------------------------------------------------------
/// `n` spaces.
pub open spec fn spec_spaces(n: int) -> Seq<char>
    decreases n,
{
    if n <= 0 {
        Seq::empty()
    } else {
        spec_spaces(n - 1).push(' ')
    }
}

/// The texts of one report row: the per-second figure and the duration, at
/// the default precisions.
pub open spec fn spec_row_texts(row: (Seq<char>, Option<u64>, Option<u64>)) -> (Seq<char>, Seq<
    char,
>) {
    (spec_opt_per_second_str(row.2, 1), spec_opt_duration_str(row.1, 4))
}

/// The alignment width of a report: the longest label plus per-second
/// figure, and at least the width of the column header.
pub open spec fn spec_width(rows: Seq<(Seq<char>, Option<u64>, Option<u64>)>) -> int
    decreases rows.len(),
{
    if rows.len() == 0 {
        7
    } else {
        let w = spec_width(rows.drop_last());
        let this = rows.last().0.len() + spec_row_texts(rows.last()).0.len();
        if this > w {
            this as int
        } else {
            w
        }
    }
}

/// The header of a report: the session label, then the column header pushed
/// right so the `@` lines up with the rows.
pub open spec fn spec_header(label: Seq<char>, width: int) -> Seq<char> {
    "Report "@ + label + "\n"@ + spec_spaces(width - 7) + "per second @ time per\n"@
}

/// One report row: the label, padding so every `@` lines up, the per-second
/// figure, and the duration.
pub open spec fn spec_row_line(row: (Seq<char>, Option<u64>, Option<u64>), width: int) -> Seq<
    char,
> {
    let texts = spec_row_texts(row);
    row.0 + ": "@ + spec_spaces(width - row.0.len() - texts.0.len() + 1) + texts.0 + " @ "@
        + texts.1 + "\n"@
}

/// The first `n` report rows, in order.
pub open spec fn spec_rows_prefix(
    rows: Seq<(Seq<char>, Option<u64>, Option<u64>)>,
    width: int,
    n: int,
) -> Seq<char>
    decreases n,
{
    if n <= 0 {
        Seq::empty()
    } else {
        spec_rows_prefix(rows, width, n - 1) + spec_row_line(rows[n - 1], width)
    }
}

/// The whole report: header, then one line per row, all `@`s aligned.
pub open spec fn spec_report(label: Seq<char>, rows: Seq<(Seq<char>, Option<u64>, Option<u64>)>)
    -> Seq<char> {
    spec_header(label, spec_width(rows)) + spec_rows_prefix(rows, spec_width(rows), rows.len() as int)
}

/// `n` spaces.
fn spaces(n: u128) -> (s: String)
    ensures
        s@ == spec_spaces(n as int),
{
    let mut s = String::new();
    let mut k: u128 = 0;
    while k < n
        invariant
            k <= n,
            s@ == spec_spaces(k as int),
        decreases n - k,
    {
        proof {
            reveal_strlit(" ");
            assert(" "@ =~= seq![' ']);
        }
        s.append(" ");
        k = k + 1;
    }
    s
}

/// Renders the report from the computed row strings. `rows_spec` carries the
/// figures the strings were rendered from.
fn render_report(
    label: &str,
    rows: &Vec<(String, String, String)>,
    Ghost(rows_spec): Ghost<Seq<(Seq<char>, Option<u64>, Option<u64>)>>,
) -> (r: String)
    requires
        rows@.len() == rows_spec.len(),
        forall|j: int|
            0 <= j < rows@.len() ==> {
                &&& (#[trigger] rows@[j]).0@ == rows_spec[j].0
                &&& rows@[j].1@ == spec_opt_per_second_str(rows_spec[j].2, 1)
                &&& rows@[j].2@ == spec_opt_duration_str(rows_spec[j].1, 4)
            },
    ensures
        r@ == spec_report(label@, rows_spec),
{
    let mut width: u128 = 7;
    let mut i: usize = 0;
    while i < rows.len()
        invariant
            i <= rows@.len(),
            rows@.len() == rows_spec.len(),
            forall|j: int|
                0 <= j < rows@.len() ==> {
                    &&& (#[trigger] rows@[j]).0@ == rows_spec[j].0
                    &&& rows@[j].1@ == spec_opt_per_second_str(rows_spec[j].2, 1)
                    &&& rows@[j].2@ == spec_opt_duration_str(rows_spec[j].1, 4)
                },
            width == spec_width(rows_spec.take(i as int)),
            width <= 1_000_000_000_000_000_000_000_000u128,
        decreases rows@.len() - i,
    {
        let lbl_len = rows[i].0.as_str().unicode_len() as u128;
        let per_len = rows[i].1.as_str().unicode_len() as u128;
        let this = lbl_len + per_len;
        if this > width {
            width = this;
        }
        proof {
            assert(rows_spec.take(i + 1).drop_last() =~= rows_spec.take(i as int));
            assert(rows_spec.take(i + 1).last() == rows_spec[i as int]);
        }
        i = i + 1;
    }
    proof {
        assert(rows_spec.take(rows_spec.len() as int) =~= rows_spec);
    }
    let ghost w = spec_width(rows_spec);
    proof {
        lemma_width_bounds(rows_spec);
    }
    let mut out = String::from_str("Report ");
    out.append(label);
    out.append("\n");
    let pad = spaces(width - 7);
    out.append(pad.as_str());
    out.append("per second @ time per\n");
    proof {
        reveal_strlit("Report ");
        reveal_strlit("\n");
        reveal_strlit("per second @ time per\n");
        assert(out@ =~= spec_header(label@, w));
    }
    let mut i: usize = 0;
    while i < rows.len()
        invariant
            i <= rows@.len(),
            rows@.len() == rows_spec.len(),
            forall|j: int|
                0 <= j < rows@.len() ==> {
                    &&& (#[trigger] rows@[j]).0@ == rows_spec[j].0
                    &&& rows@[j].1@ == spec_opt_per_second_str(rows_spec[j].2, 1)
                    &&& rows@[j].2@ == spec_opt_duration_str(rows_spec[j].1, 4)
                },
            width == spec_width(rows_spec),
            w == spec_width(rows_spec),
            width >= 7,
            width <= 1_000_000_000_000_000_000_000_000u128,
            forall|j: int|
                0 <= j < rows_spec.len() ==> #[trigger] (rows_spec[j].0.len() + spec_row_texts(
                    rows_spec[j],
                ).0.len()) <= spec_width(rows_spec),
            out@ == spec_header(label@, w) + spec_rows_prefix(rows_spec, w, i as int),
        decreases rows@.len() - i,
    {
        let lbl_len = rows[i].0.as_str().unicode_len() as u128;
        let per_len = rows[i].1.as_str().unicode_len() as u128;
        proof {
            assert(rows_spec[i as int].0.len() + spec_row_texts(rows_spec[i as int]).0.len()
                <= spec_width(rows_spec));
            assert(lbl_len + per_len <= width);
        }
        out.append(rows[i].0.as_str());
        out.append(": ");
        let pad = spaces(width - lbl_len - per_len + 1);
        out.append(pad.as_str());
        out.append(rows[i].1.as_str());
        out.append(" @ ");
        out.append(rows[i].2.as_str());
        out.append("\n");
        proof {
            reveal_strlit(": ");
            reveal_strlit(" @ ");
            reveal_strlit("\n");
            assert(spec_rows_prefix(rows_spec, w, i + 1) == spec_rows_prefix(rows_spec, w, i as int)
                + spec_row_line(rows_spec[i as int], w));
            assert(lbl_len as int == rows_spec[i as int].0.len());
            assert(per_len as int == spec_row_texts(rows_spec[i as int]).0.len());
            assert(width as int == w);
            assert(pad@ == spec_spaces(
                w - rows_spec[i as int].0.len() - spec_row_texts(rows_spec[i as int]).0.len() + 1,
            ));
            assert(out@ =~= spec_header(label@, w) + spec_rows_prefix(
                rows_spec,
                w,
                i + 1,
            ));
        }
        i = i + 1;
    }
    out
}

/// Every row fits inside the alignment width.
proof fn lemma_width_bounds(rows: Seq<(Seq<char>, Option<u64>, Option<u64>)>)
    ensures
        spec_width(rows) >= 7,
        forall|j: int|
            0 <= j < rows.len() ==> #[trigger] (rows[j].0.len() + spec_row_texts(rows[j]).0.len())
                <= spec_width(rows),
    decreases rows.len(),
{
    if rows.len() > 0 {
        lemma_width_bounds(rows.drop_last());
        assert forall|j: int|
            0 <= j < rows.len() implies #[trigger] (rows[j].0.len() + spec_row_texts(
            rows[j],
        ).0.len()) <= spec_width(rows) by {
            if j < rows.len() - 1 {
                assert(rows.drop_last()[j] == rows[j]);
                assert(spec_width(rows) >= spec_width(rows.drop_last()));
            } else {
                assert(rows[j] == rows.last());
            }
        }
    }
}

} // verus!
