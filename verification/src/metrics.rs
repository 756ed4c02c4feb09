//! Performance bookkeeping: request timings, the periods that summaries
//! cover, the bounded history of snapshots and the totals over a period.
use vstd::prelude::*;
use vstd::string::StringExecFns;
use crate::clock::{clock_now, duration_between, elapsed_since};

verus! {

/// The timing of one request.
pub struct RequestTiming {
    pub operation: String,
    pub start_time: std::time::Instant,
    pub end_time: Option<std::time::Instant>,
    pub duration: Option<std::time::Duration>,
    pub success: bool,
}

impl RequestTiming {
    /// A request of `operation` that starts now and has not finished.
    pub fn new(operation: String) -> (r: RequestTiming)
        ensures
            r.operation@ == operation@,
            r.end_time is None,
            r.duration is None,
            !r.success,
    {
        RequestTiming {
            operation,
            start_time: clock_now(),
            end_time: None,
            duration: None,
            success: false,
        }
    }

    /// Marks the request finished now, with its outcome; its duration is
    /// the time from its start to now.
    pub fn finish(&mut self, success: bool)
        ensures
            final(self).operation@ == old(self).operation@,
            final(self).start_time == old(self).start_time,
            final(self).end_time is Some,
            final(self).duration is Some,
            final(self).success == success,
    {
        let end = clock_now();
        let d = duration_between(&end, &self.start_time);
        self.end_time = Some(end);
        self.duration = Some(d);
        self.success = success;
    }

    /// The request's duration: the recorded one when it has finished,
    /// else the time since it started.
    pub fn get_duration(&self) -> (r: std::time::Duration)
        ensures
            self.duration matches Some(d) ==> r == d,
    {
        match self.duration {
            Some(d) => d,
            None => elapsed_since(&self.start_time),
        }
    }
}

/// The longest total time that the counts hold: the largest number of
/// whole milliseconds that fits in an `i64`, in nanoseconds.
pub const LONGEST_TOTAL_NANOS: u128 = 9_223_372_036_854_775_807_000_000;

/// The counts of finished requests and the time they took together.
#[derive(Clone, Copy, Debug, PartialEq, Eq, Structural)]
pub struct RequestCounts {
    pub request_count: u64,
    pub success_count: u64,
    /// The time the requests took, in nanoseconds.
    pub total_nanos: u128,
    /// The average response time in whole milliseconds: the total in whole
    /// milliseconds divided by the number of requests (`0` before any).
    pub average_ms: u64,
}

impl RequestCounts {
    /// No request recorded yet.
    pub fn new() -> (r: RequestCounts)
        ensures
            r.request_count == 0,
            r.success_count == 0,
            r.total_nanos == 0,
            r.average_ms == 0,
    {
        RequestCounts { request_count: 0, success_count: 0, total_nanos: 0, average_ms: 0 }
    }

    /// Records a request that took `duration_nanos` nanoseconds: one more
    /// request, one more success when it succeeded, its time added to the
    /// total, and the average taken again.
    pub fn record_request(&mut self, duration_nanos: u128, success: bool)
        requires
            old(self).request_count < u64::MAX,
            success ==> old(self).success_count < u64::MAX,
            old(self).total_nanos + duration_nanos <= LONGEST_TOTAL_NANOS,
        ensures
            final(self).request_count == old(self).request_count + 1,
            final(self).success_count == old(self).success_count + if success {
                1int
            } else {
                0int
            },
            final(self).total_nanos == old(self).total_nanos + duration_nanos,
            final(self).average_ms == final(self).total_nanos as int / 1_000_000
                / final(self).request_count as int,
    {
        self.request_count = self.request_count + 1;
        if success {
            self.success_count = self.success_count + 1;
        }
        self.total_nanos = self.total_nanos + duration_nanos;
        let total_ms: u128 = self.total_nanos / 1_000_000;
        let avg: u128 = total_ms / (self.request_count as u128);
        assert(avg <= total_ms) by (nonlinear_arith)
            requires
                avg == total_ms / (self.request_count as u128),
                self.request_count >= 1,
        ;
        self.average_ms = avg as u64;
    }
}

/// The period that a historical summary covers.
#[derive(Clone, Copy, Debug, PartialEq, Eq, Structural)]
pub enum TimeRange {
    LastHour,
    Last6Hours,
    Last24Hours,
    Last7Days,
    Last30Days,
    All,
}

/// How far back a period reaches, in seconds; `None` for all of history.
pub open spec fn lookback(range: TimeRange) -> Option<i64> {
    match range {
        TimeRange::LastHour => Some(3600),
        TimeRange::Last6Hours => Some(21600),
        TimeRange::Last24Hours => Some(86400),
        TimeRange::Last7Days => Some(604800),
        TimeRange::Last30Days => Some(2592000),
        TimeRange::All => None,
    }
}

/// How far back a period reaches, in seconds.
pub fn lookback_seconds(range: TimeRange) -> (r: Option<i64>)
    ensures
        r == lookback(range),
{
    match range {
        TimeRange::LastHour => Some(3600),
        TimeRange::Last6Hours => Some(21600),
        TimeRange::Last24Hours => Some(86400),
        TimeRange::Last7Days => Some(604800),
        TimeRange::Last30Days => Some(2592000),
        TimeRange::All => None,
    }
}

/// The format of exported history.
#[derive(Clone, Copy, Debug, PartialEq, Eq, Structural)]
pub enum ExportFormat {
    Json,
    Csv,
}

/// How serious a performance alert is.
#[derive(Clone, Copy, Debug, PartialEq, Eq, Structural)]
pub enum AlertLevel {
    Info,
    Warning,
    Critical,
}

/// The name under which a level is shown.
pub open spec fn level_text(l: AlertLevel) -> Seq<char> {
    match l {
        AlertLevel::Info => "INFO"@,
        AlertLevel::Warning => "WARNING"@,
        AlertLevel::Critical => "CRITICAL"@,
    }
}

impl AlertLevel {
    /// The name under which the level is shown.
    pub fn label(&self) -> (r: String)
        ensures
            r@ == level_text(*self),
    {
        match self {
            AlertLevel::Info => String::from_str("INFO"),
            AlertLevel::Warning => String::from_str("WARNING"),
            AlertLevel::Critical => String::from_str("CRITICAL"),
        }
    }
}

/// The views of the performance dashboard.
#[derive(Clone, Copy, Debug, PartialEq, Eq, Structural)]
pub enum DashboardMode {
    Overview,
    Historical,
    Alerts,
}

/// The title of a dashboard view.
pub open spec fn dashboard_title(mode: DashboardMode) -> Seq<char> {
    match mode {
        DashboardMode::Overview => "Performance Overview"@,
        DashboardMode::Historical => "Historical Performance"@,
        DashboardMode::Alerts => "Performance Alerts"@,
    }
}

/// The title of a dashboard view.
pub fn get_dashboard_title(mode: &DashboardMode) -> (r: String)
    ensures
        r@ == dashboard_title(*mode),
{
    match mode {
        DashboardMode::Overview => String::from_str("Performance Overview"),
        DashboardMode::Historical => String::from_str("Historical Performance"),
        DashboardMode::Alerts => String::from_str("Performance Alerts"),
    }
}

/// How many snapshots the history keeps.
pub const HISTORY_LIMIT: usize = 10000;

/// The history after appending `x`: the oldest entry goes when the
/// history would otherwise hold more than `max` entries.
pub open spec fn bounded_push<T>(s: Seq<T>, x: T, max: nat) -> Seq<T> {
    if s.len() + 1 > max {
        s.push(x).drop_first()
    } else {
        s.push(x)
    }
}

/// Appends `x` to the history `v`, dropping the oldest entry when the
/// history would otherwise hold more than `max` entries.
pub fn push_bounded<T>(v: &mut Vec<T>, x: T, max: usize)
    ensures
        final(v)@ == bounded_push(old(v)@, x, max as nat),
{
    v.push(x);
    if v.len() > max {
        v.remove(0);
    }
}

/// A history that holds at most `max` entries keeps doing so, and keeps
/// the newest entries, whatever is appended.
pub proof fn law_history_bounded<T>(s: Seq<T>, x: T, max: nat)
    requires
        s.len() <= max,
        max >= 1,
    ensures
        bounded_push(s, x, max).len() <= max,
        bounded_push(s, x, max).last() == x,
{
}

/// The figures of one snapshot that a summary adds up.
#[derive(Clone, Copy, Debug, PartialEq, Eq, Structural)]
pub struct SnapshotFigures {
    /// When the snapshot was taken, in seconds.
    pub timestamp: i64,
    pub request_count: u64,
    pub success_count: u64,
    pub total_duration_ms: u64,
    pub average_response_ms: u64,
}

/// The totals over the snapshots of a period.
#[derive(Clone, Copy, Debug, PartialEq, Eq, Structural)]
pub struct PeriodTotals {
    /// How many snapshots fall in the period.
    pub snapshots: usize,
    pub total_requests: u64,
    pub success_count: u64,
    pub total_duration_ms: u64,
    /// The sum of the snapshots' average response times.
    pub average_sum_ms: u128,
    /// The least and greatest average response time (`0` with no snapshot).
    pub min_response_ms: u64,
    pub max_response_ms: u64,
}

/// The snapshots taken at `start` or later.
pub open spec fn in_period(s: Seq<SnapshotFigures>, start: i64) -> Seq<SnapshotFigures> {
    s.filter(|f: SnapshotFigures| f.timestamp >= start)
}

/// The sum of a figure over snapshots.
pub open spec fn sum_of(s: Seq<SnapshotFigures>, f: spec_fn(SnapshotFigures) -> int) -> int
    decreases s.len(),
{
    if s.len() == 0 {
        0
    } else {
        sum_of(s.drop_last(), f) + f(s.last())
    }
}

/// The least average response time of the snapshots.
pub open spec fn min_average(s: Seq<SnapshotFigures>) -> int
    decreases s.len(),
{
    if s.len() == 0 {
        0
    } else if s.len() == 1 {
        s[0].average_response_ms as int
    } else {
        let m = min_average(s.drop_last());
        if (s.last().average_response_ms as int) < m {
            s.last().average_response_ms as int
        } else {
            m
        }
    }
}

/// The greatest average response time of the snapshots.
pub open spec fn max_average(s: Seq<SnapshotFigures>) -> int
    decreases s.len(),
{
    if s.len() == 0 {
        0
    } else {
        let m = max_average(s.drop_last());
        if (s.last().average_response_ms as int) > m {
            s.last().average_response_ms as int
        } else {
            m
        }
    }
}

/// The request count of a snapshot.
pub open spec fn requests_of(f: SnapshotFigures) -> int {
    f.request_count as int
}

/// The success count of a snapshot.
pub open spec fn successes_of(f: SnapshotFigures) -> int {
    f.success_count as int
}

/// The total duration of a snapshot.
pub open spec fn duration_of(f: SnapshotFigures) -> int {
    f.total_duration_ms as int
}

/// The average response time of a snapshot.
pub open spec fn average_of(f: SnapshotFigures) -> int {
    f.average_response_ms as int
}

/// Whether the sums over the period fit in 64 bits.
pub open spec fn totals_fit(s: Seq<SnapshotFigures>, start: i64) -> bool {
    let p = in_period(s, start);
    &&& sum_of(p, |f: SnapshotFigures| requests_of(f)) <= u64::MAX
    &&& sum_of(p, |f: SnapshotFigures| successes_of(f)) <= u64::MAX
    &&& sum_of(p, |f: SnapshotFigures| duration_of(f)) <= u64::MAX
}

/// Every figure of a sum is at least zero, so a prefix sums to no more
/// than the whole.
proof fn lemma_sum_prefix(s: Seq<SnapshotFigures>, f: spec_fn(SnapshotFigures) -> int, k: int)
    requires
        0 <= k <= s.len(),
        forall|i: int| 0 <= i < s.len() ==> f(#[trigger] s[i]) >= 0,
    ensures
        0 <= sum_of(s.take(k), f) <= sum_of(s, f),
    decreases s.len() - k,
{
    if k < s.len() {
        lemma_sum_prefix(s, f, k + 1);
        assert(s.take(k + 1).drop_last() =~= s.take(k));
        lemma_sum_nonneg(s.take(k), f);
    } else {
        assert(s.take(k) =~= s);
        lemma_sum_nonneg(s, f);
    }
}

/// A sum of figures that are at least zero is at least zero.
proof fn lemma_sum_nonneg(s: Seq<SnapshotFigures>, f: spec_fn(SnapshotFigures) -> int)
    requires
        forall|i: int| 0 <= i < s.len() ==> f(#[trigger] s[i]) >= 0,
    ensures
        sum_of(s, f) >= 0,
    decreases s.len(),
{
    if s.len() > 0 {
        assert forall|i: int| 0 <= i < s.drop_last().len() implies f(#[trigger] s.drop_last()[i])
            >= 0 by {
            assert(s.drop_last()[i] == s[i]);
        }
        lemma_sum_nonneg(s.drop_last(), f);
    }
}

/// Whether `t` holds the totals over the snapshots of `s` taken at
/// `start` or later: how many, the sums of their figures, and the least
/// and greatest average.
pub open spec fn totals_of(t: PeriodTotals, s: Seq<SnapshotFigures>, start: i64) -> bool {
    let p = in_period(s, start);
    &&& t.snapshots == p.len()
    &&& t.total_requests == sum_of(p, |f: SnapshotFigures| requests_of(f))
    &&& t.success_count == sum_of(p, |f: SnapshotFigures| successes_of(f))
    &&& t.total_duration_ms == sum_of(p, |f: SnapshotFigures| duration_of(f))
    &&& t.average_sum_ms == sum_of(p, |f: SnapshotFigures| average_of(f))
    &&& t.min_response_ms == min_average(p)
    &&& t.max_response_ms == max_average(p)
}

/// The totals over the snapshots taken at `start` or later.
pub fn period_totals(snapshots: &Vec<SnapshotFigures>, start: i64) -> (r: PeriodTotals)
    requires
        totals_fit(snapshots@, start),
    ensures
        totals_of(r, snapshots@, start),
{
    let ghost all = in_period(snapshots@, start);
    let ghost fr = |f: SnapshotFigures| requests_of(f);
    let ghost fs = |f: SnapshotFigures| successes_of(f);
    let ghost fd = |f: SnapshotFigures| duration_of(f);
    let ghost fa = |f: SnapshotFigures| average_of(f);
    let mut count: usize = 0;
    let mut requests: u64 = 0;
    let mut successes: u64 = 0;
    let mut duration: u64 = 0;
    let mut averages: u128 = 0;
    let mut least: u64 = 0;
    let mut most: u64 = 0;
    let mut i: usize = 0;
    while i < snapshots.len()
        invariant
            i <= snapshots@.len(),
            all == in_period(snapshots@, start),
            totals_fit(snapshots@, start),
            fr == (|f: SnapshotFigures| requests_of(f)),
            fs == (|f: SnapshotFigures| successes_of(f)),
            fd == (|f: SnapshotFigures| duration_of(f)),
            fa == (|f: SnapshotFigures| average_of(f)),
            count == in_period(snapshots@.take(i as int), start).len(),
            requests == sum_of(in_period(snapshots@.take(i as int), start), fr),
            successes == sum_of(in_period(snapshots@.take(i as int), start), fs),
            duration == sum_of(in_period(snapshots@.take(i as int), start), fd),
            averages == sum_of(in_period(snapshots@.take(i as int), start), fa),
            averages <= i * 0xffff_ffff_ffff_ffffu128,
            least == min_average(in_period(snapshots@.take(i as int), start)),
            most == max_average(in_period(snapshots@.take(i as int), start)),
        decreases snapshots@.len() - i,
    {
        let f = snapshots[i];
        let ghost prev = in_period(snapshots@.take(i as int), start);
        proof {
            let t = snapshots@.take(i + 1);
            assert(t.drop_last() =~= snapshots@.take(i as int));
            assert(t.last() == f);
            reveal(Seq::filter);
            assert(in_period(t, start) == if f.timestamp >= start {
                prev.push(f)
            } else {
                prev
            });
        }
        if f.timestamp >= start {
            proof {
                let p = prev.push(f);
                assert(p.drop_last() =~= prev);
                // the new partial sums stay within the totals over the whole period
                assert(snapshots@.take(i + 1).len() <= snapshots@.len());
                lemma_period_prefix(snapshots@, start, i + 1);
                lemma_sum_prefix(all, fr, p.len() as int);
                lemma_sum_prefix(all, fs, p.len() as int);
                lemma_sum_prefix(all, fd, p.len() as int);
                assert(all.take(p.len() as int) =~= p);
            }
            requests = requests + f.request_count;
            successes = successes + f.success_count;
            duration = duration + f.total_duration_ms;
            averages = averages + f.average_response_ms as u128;
            if count == 0 {
                least = f.average_response_ms;
                most = f.average_response_ms;
            } else {
                if f.average_response_ms < least {
                    least = f.average_response_ms;
                }
                if f.average_response_ms > most {
                    most = f.average_response_ms;
                }
            }
            count = count + 1;
        }
        i = i + 1;
    }
    assert(snapshots@.take(snapshots@.len() as int) =~= snapshots@);
    PeriodTotals {
        snapshots: count,
        total_requests: requests,
        success_count: successes,
        total_duration_ms: duration,
        average_sum_ms: averages,
        min_response_ms: least,
        max_response_ms: most,
    }
}

/// The totals over the snapshots taken at `start` or later, or `None`
/// when a sum of requests, successes or durations would not fit in 64
/// bits.
pub fn period_totals_checked(snapshots: &Vec<SnapshotFigures>, start: i64) -> (r: Option<
    PeriodTotals,
>)
    ensures
        r is Some <==> totals_fit(snapshots@, start),
        r matches Some(t) ==> totals_of(t, snapshots@, start),
{
    let ghost all = in_period(snapshots@, start);
    let ghost fr = |f: SnapshotFigures| requests_of(f);
    let ghost fs = |f: SnapshotFigures| successes_of(f);
    let ghost fd = |f: SnapshotFigures| duration_of(f);
    let mut requests: u128 = 0;
    let mut successes: u128 = 0;
    let mut duration: u128 = 0;
    let mut i: usize = 0;
    while i < snapshots.len()
        invariant
            i <= snapshots@.len(),
            all == in_period(snapshots@, start),
            fr == (|f: SnapshotFigures| requests_of(f)),
            fs == (|f: SnapshotFigures| successes_of(f)),
            fd == (|f: SnapshotFigures| duration_of(f)),
            requests == sum_of(in_period(snapshots@.take(i as int), start), fr),
            successes == sum_of(in_period(snapshots@.take(i as int), start), fs),
            duration == sum_of(in_period(snapshots@.take(i as int), start), fd),
            requests <= u64::MAX,
            successes <= u64::MAX,
            duration <= u64::MAX,
        decreases snapshots@.len() - i,
    {
        let f = snapshots[i];
        let ghost prev = in_period(snapshots@.take(i as int), start);
        proof {
            let t = snapshots@.take(i + 1);
            assert(t.drop_last() =~= snapshots@.take(i as int));
            assert(t.last() == f);
            reveal(Seq::filter);
            assert(in_period(t, start) == if f.timestamp >= start {
                prev.push(f)
            } else {
                prev
            });
        }
        if f.timestamp >= start {
            let ghost p = prev.push(f);
            proof {
                assert(p.drop_last() =~= prev);
                lemma_period_prefix(snapshots@, start, i + 1);
                lemma_sum_prefix(all, fr, p.len() as int);
                lemma_sum_prefix(all, fs, p.len() as int);
                lemma_sum_prefix(all, fd, p.len() as int);
                assert(all.take(p.len() as int) =~= p);
            }
            requests = requests + f.request_count as u128;
            successes = successes + f.success_count as u128;
            duration = duration + f.total_duration_ms as u128;
            if requests > 0xffff_ffff_ffff_ffffu128 || successes > 0xffff_ffff_ffff_ffffu128
                || duration > 0xffff_ffff_ffff_ffffu128 {
                return None;
            }
        }
        i = i + 1;
    }
    assert(snapshots@.take(snapshots@.len() as int) =~= snapshots@);
    Some(period_totals(snapshots, start))
}

/// The snapshots of a period that were taken among the first `k` are the
/// period's first snapshots.
proof fn lemma_period_prefix(s: Seq<SnapshotFigures>, start: i64, k: int)
    requires
        0 <= k <= s.len(),
    ensures
        in_period(s.take(k), start).len() <= in_period(s, start).len(),
        in_period(s, start).take(in_period(s.take(k), start).len() as int) == in_period(
            s.take(k),
            start,
        ),
    decreases s.len() - k,
{
    reveal(Seq::filter);
    if k < s.len() {
        lemma_period_prefix(s, start, k + 1);
        let t = s.take(k + 1);
        assert(t.drop_last() =~= s.take(k));
        let a = in_period(s.take(k), start);
        let b = in_period(t, start);
        let all = in_period(s, start);
        if s[k].timestamp >= start {
            assert(b == a.push(s[k]));
            assert(all.take(a.len() as int) =~= b.take(a.len() as int));
            assert(b.take(a.len() as int) =~= a);
        } else {
            assert(b == a);
        }
    } else {
        assert(s.take(k) =~= s);
        assert(in_period(s, start).take(in_period(s, start).len() as int) =~= in_period(s, start));
    }
}

} // verus!
