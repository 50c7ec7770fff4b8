//! Counters of processed and failed messages, average processing time and
//! the server's health verdict.
//!
//! Durations are held as whole nanoseconds.

use vstd::prelude::*;
use std::time::{Duration, Instant};
use crate::text::{decimal, push_decimal};

verus! {

/// Most recent processing times kept for the average.
pub const MAX_PROCESSING_TIMES: usize = 1000;

/// Oldest processing times dropped at once when the window overflows.
pub const PROCESSING_TIMES_DROPPED: usize = 100;

#[verifier::external_type_specification]
#[verifier::external_body]
pub struct ExInstant(Instant);

/// The current instant.
///
/// Trusted: calls `Instant::now`; the clock is outside the proof, so
/// nothing is claimed of the result.
#[verifier::external_body]
pub(crate) fn instant_now() -> (r: Instant) {
    Instant::now()
}

/// Time passed since `start`.
///
/// Trusted: calls `Instant::elapsed`; it depends on the clock, so nothing
/// is claimed of the result.
#[verifier::external_body]
pub(crate) fn elapsed_since(start: &Instant) -> (r: Duration) {
    start.elapsed()
}

/// Whole nanoseconds of a duration.
///
/// Trusted: calls `Duration::as_nanos`; the duration is opaque here, so
/// nothing is claimed of the result.
#[verifier::external_body]
fn duration_nanos(d: &Duration) -> (r: u128) {
    d.as_nanos()
}

/// Nanoseconds passed since `start`, saturated at the largest `u64`.
fn nanos_since(start: &Instant) -> (r: u64) {
    let d = elapsed_since(start);
    let n = duration_nanos(&d);
    if n > u64::MAX as u128 {
        u64::MAX
    } else {
        n as u64
    }
}

/// The uptime after a clock reading of `now`: the clock std offers is
/// monotonic, so a reading never falls below the uptime already recorded;
/// should one do so, the recorded uptime is kept.
fn advanced_uptime(recorded: u64, now: u64) -> (r: u64)
    ensures
        r >= recorded,
        r == now || r == recorded,
{
    if now >= recorded {
        now
    } else {
        recorded
    }
}

/// The counters of the server.
#[derive(Debug, Clone, Copy, PartialEq, Eq, Structural)]
pub struct Metrics {
    pub messages_processed: u64,
    pub messages_failed: u64,
    pub version_requests: u64,
    pub delete_requests: u64,
    pub size_requests: u64,
    pub path_create_requests: u64,
    pub path_delete_requests: u64,
    pub total_bytes_processed: u64,
    /// Average of the kept processing times, in nanoseconds.
    pub average_processing_time: u64,
    /// Time since the collector started, in nanoseconds.
    pub uptime: u64,
    pub worker_threads_active: u32,
    /// When the last message was recorded, in nanoseconds since the
    /// collector started.
    pub last_activity: Option<u64>,
}

/// All counters zero, no activity yet.
pub open spec fn zero_metrics() -> Metrics {
    Metrics {
        messages_processed: 0,
        messages_failed: 0,
        version_requests: 0,
        delete_requests: 0,
        size_requests: 0,
        path_create_requests: 0,
        path_delete_requests: 0,
        total_bytes_processed: 0,
        average_processing_time: 0,
        uptime: 0,
        worker_threads_active: 0,
        last_activity: None,
    }
}

impl Default for Metrics {
    fn default() -> (r: Metrics)
        ensures
            r == zero_metrics(),
    {
        Metrics {
            messages_processed: 0,
            messages_failed: 0,
            version_requests: 0,
            delete_requests: 0,
            size_requests: 0,
            path_create_requests: 0,
            path_delete_requests: 0,
            total_bytes_processed: 0,
            average_processing_time: 0,
            uptime: 0,
            worker_threads_active: 0,
            last_activity: None,
        }
    }
}

/// Sum of processing times.
pub open spec fn sum_times(s: Seq<u64>) -> nat
    decreases s.len(),
{
    if s.len() == 0 {
        0
    } else {
        sum_times(s.drop_last()) + s.last() as nat
    }
}

/// The processing times kept after recording `t`: the newest are kept, and
/// once more than 1000 are held the oldest 100 are dropped.
pub open spec fn kept_times(old_times: Seq<u64>, t: u64) -> Seq<u64> {
    let all = old_times.push(t);
    if all.len() > MAX_PROCESSING_TIMES {
        all.skip(PROCESSING_TIMES_DROPPED as int)
    } else {
        all
    }
}

/// The per-type counters after a message of type `message_type`: types 1,
/// 17930, 13322, 13578 and 1004 count as version, delete, size, path
/// creation and path deletion requests.
pub open spec fn count_type(m: Metrics, message_type: u16) -> Metrics {
    if message_type == 1 {
        Metrics { version_requests: (m.version_requests + 1) as u64, ..m }
    } else if message_type == 17930 {
        Metrics { delete_requests: (m.delete_requests + 1) as u64, ..m }
    } else if message_type == 13322 {
        Metrics { size_requests: (m.size_requests + 1) as u64, ..m }
    } else if message_type == 13578 {
        Metrics { path_create_requests: (m.path_create_requests + 1) as u64, ..m }
    } else if message_type == 1004 {
        Metrics { path_delete_requests: (m.path_delete_requests + 1) as u64, ..m }
    } else {
        m
    }
}

/// The counter that a message of type `message_type` increments has room.
pub open spec fn type_counter_has_room(m: Metrics, message_type: u16) -> bool {
    &&& message_type == 1 ==> m.version_requests < u64::MAX
    &&& message_type == 17930 ==> m.delete_requests < u64::MAX
    &&& message_type == 13322 ==> m.size_requests < u64::MAX
    &&& message_type == 13578 ==> m.path_create_requests < u64::MAX
    &&& message_type == 1004 ==> m.path_delete_requests < u64::MAX
}

/// Collects the server's metrics.
#[derive(Debug)]
pub struct MetricsCollector {
    metrics: Metrics,
    start_time: Instant,
    processing_times: Vec<u64>,
    workers_reported: bool,
}

impl MetricsCollector {
    #[verifier::type_invariant]
    spec fn inv(self) -> bool {
        self.processing_times@.len() <= MAX_PROCESSING_TIMES
    }

    /// The counters as last recorded.
    pub closed spec fn counters(&self) -> Metrics {
        self.metrics
    }

    /// The kept processing times, oldest first.
    pub closed spec fn times(&self) -> Seq<u64> {
        self.processing_times@
    }

    /// Whether the number of active worker threads was reported since the
    /// collector started or was reset; until then nothing is known of the
    /// workers.
    pub closed spec fn workers_known(&self) -> bool {
        self.workers_reported
    }

    /// A collector with all counters zero, started now.
    pub fn new() -> (r: MetricsCollector)
        ensures
            r.counters() == zero_metrics(),
            r.times() == Seq::<u64>::empty(),
            !r.workers_known(),
    {
        MetricsCollector {
            metrics: Metrics::default(),
            start_time: instant_now(),
            processing_times: Vec::new(),
            workers_reported: false,
        }
    }

    /// Counts a processed message of `bytes` bytes that took
    /// `processing_time` nanoseconds: the message and byte totals, the
    /// counter of its type, the kept processing times and their average,
    /// the time of last activity and the uptime.
    pub fn record_message_processed(&mut self, message_type: u16, bytes: usize, processing_time: u64)
        requires
            old(self).counters().messages_processed < u64::MAX,
            old(self).counters().total_bytes_processed + bytes <= u64::MAX,
            type_counter_has_room(old(self).counters(), message_type),
        ensures
            final(self).times() == kept_times(old(self).times(), processing_time),
            final(self).counters() == (Metrics {
                messages_processed: (old(self).counters().messages_processed + 1) as u64,
                total_bytes_processed: (old(self).counters().total_bytes_processed + bytes) as u64,
                average_processing_time: (sum_times(final(self).times())
                    / final(self).times().len()) as u64,
                last_activity: final(self).counters().last_activity,
                uptime: final(self).counters().uptime,
                ..count_type(old(self).counters(), message_type)
            }),
            final(self).counters().last_activity is Some,
            final(self).counters().uptime >= old(self).counters().uptime,
            final(self).workers_known() == old(self).workers_known(),
    {
        proof {
            use_type_invariant(&*self);
        }
        let now = advanced_uptime(self.metrics.uptime, nanos_since(&self.start_time));
        let mut m = self.metrics;
        m.messages_processed = m.messages_processed + 1;
        m.total_bytes_processed = m.total_bytes_processed + bytes as u64;
        m.last_activity = Some(now);
        m.uptime = now;
        if message_type == 1 {
            m.version_requests = m.version_requests + 1;
        } else if message_type == 17930 {
            m.delete_requests = m.delete_requests + 1;
        } else if message_type == 13322 {
            m.size_requests = m.size_requests + 1;
        } else if message_type == 13578 {
            m.path_create_requests = m.path_create_requests + 1;
        } else if message_type == 1004 {
            m.path_delete_requests = m.path_delete_requests + 1;
        }
        let times = kept_processing_times(&self.processing_times, processing_time);
        m.average_processing_time = average(&times);
        self.metrics = m;
        self.processing_times = times;
    }

    /// Counts a failed message, updating the time of last activity and the
    /// uptime.
    pub fn record_message_failed(&mut self, _message_type: u16)
        requires
            old(self).counters().messages_failed < u64::MAX,
        ensures
            final(self).counters() == (Metrics {
                messages_failed: (old(self).counters().messages_failed + 1) as u64,
                last_activity: final(self).counters().last_activity,
                uptime: final(self).counters().uptime,
                ..old(self).counters()
            }),
            final(self).counters().last_activity is Some,
            final(self).counters().uptime >= old(self).counters().uptime,
            final(self).workers_known() == old(self).workers_known(),
            final(self).times() == old(self).times(),
    {
        proof {
            use_type_invariant(&*self);
        }
        let now = advanced_uptime(self.metrics.uptime, nanos_since(&self.start_time));
        let mut m = self.metrics;
        m.messages_failed = m.messages_failed + 1;
        m.last_activity = Some(now);
        m.uptime = now;
        self.metrics = m;
    }

    /// Sets the number of active worker threads.
    pub fn set_worker_threads_active(&mut self, count: u32)
        ensures
            final(self).counters() == (Metrics {
                worker_threads_active: count,
                ..old(self).counters()
            }),
            final(self).times() == old(self).times(),
            final(self).workers_known(),
    {
        proof {
            use_type_invariant(&*self);
        }
        let mut m = self.metrics;
        m.worker_threads_active = count;
        self.metrics = m;
        self.workers_reported = true;
    }

    /// The counters, with the uptime brought up to date.
    pub fn get_metrics(&mut self) -> (r: Metrics)
        ensures
            r == final(self).counters(),
            final(self).counters() == (Metrics { uptime: r.uptime, ..old(self).counters() }),
            final(self).times() == old(self).times(),
            final(self).counters().uptime >= old(self).counters().uptime,
            final(self).workers_known() == old(self).workers_known(),
    {
        proof {
            use_type_invariant(&*self);
        }
        let now = advanced_uptime(self.metrics.uptime, nanos_since(&self.start_time));
        let mut m = self.metrics;
        m.uptime = now;
        self.metrics = m;
        m
    }

    /// Zeroes every counter and forgets the processing times.
    pub fn reset(&mut self)
        ensures
            final(self).counters() == zero_metrics(),
            final(self).times() == Seq::<u64>::empty(),
            !final(self).workers_known(),
    {
        proof {
            use_type_invariant(&*self);
        }
        self.metrics = Metrics::default();
        self.processing_times = Vec::new();
        self.workers_reported = false;
    }
}

impl Default for MetricsCollector {
    /// A collector with all counters zero, started now.
    fn default() -> (r: MetricsCollector)
        ensures
            r.counters() == zero_metrics(),
            r.times() == Seq::<u64>::empty(),
            !r.workers_known(),
    {
        MetricsCollector::new()
    }
}

/// The kept processing times after recording `t`.
fn kept_processing_times(times: &Vec<u64>, t: u64) -> (r: Vec<u64>)
    requires
        times@.len() <= MAX_PROCESSING_TIMES,
    ensures
        r@ == kept_times(times@, t),
        r@.len() <= MAX_PROCESSING_TIMES,
        r@.len() > 0,
{
    let mut all: Vec<u64> = Vec::new();
    let mut i: usize = 0;
    while i < times.len()
        invariant
            i <= times@.len(),
            all@ == times@.take(i as int),
        decreases times@.len() - i,
    {
        all.push(times[i]);
        assert(times@.take(i + 1) =~= times@.take(i as int).push(times@[i as int]));
        i = i + 1;
    }
    assert(times@.take(times@.len() as int) =~= times@);
    all.push(t);
    if all.len() > MAX_PROCESSING_TIMES {
        let mut kept: Vec<u64> = Vec::new();
        let mut j: usize = PROCESSING_TIMES_DROPPED;
        while j < all.len()
            invariant
                PROCESSING_TIMES_DROPPED <= j <= all@.len(),
                kept@ == all@.subrange(PROCESSING_TIMES_DROPPED as int, j as int),
            decreases all@.len() - j,
        {
            kept.push(all[j]);
            assert(all@.subrange(PROCESSING_TIMES_DROPPED as int, j + 1) =~= all@.subrange(
                PROCESSING_TIMES_DROPPED as int,
                j as int,
            ).push(all@[j as int]));
            j = j + 1;
        }
        kept
    } else {
        all
    }
}

proof fn lemma_sum_times_bound(s: Seq<u64>)
    ensures
        sum_times(s) <= s.len() * (u64::MAX as nat),
    decreases s.len(),
{
    if s.len() > 0 {
        lemma_sum_times_bound(s.drop_last());
        assert((s.len() - 1) * (u64::MAX as nat) + u64::MAX == s.len() * (u64::MAX as nat))
            by (nonlinear_arith)
            requires
                s.len() >= 1,
        ;
    }
}

/// Average of a non-empty list of times, rounded down.
fn average(times: &Vec<u64>) -> (r: u64)
    requires
        0 < times@.len() <= MAX_PROCESSING_TIMES,
    ensures
        r == sum_times(times@) / times@.len(),
{
    let mut total: u128 = 0;
    let mut i: usize = 0;
    while i < times.len()
        invariant
            i <= times@.len(),
            times@.len() <= MAX_PROCESSING_TIMES,
            total == sum_times(times@.take(i as int)),
        decreases times@.len() - i,
    {
        proof {
            lemma_sum_times_bound(times@.take(i as int));
            assert(times@.take(i + 1).drop_last() =~= times@.take(i as int));
            assert(i * (u64::MAX as nat) <= 1000 * (u64::MAX as nat)) by (nonlinear_arith)
                requires
                    i <= 1000,
            ;
        }
        total = total + times[i] as u128;
        i = i + 1;
    }
    assert(times@.take(times@.len() as int) =~= times@);
    proof {
        lemma_sum_times_bound(times@);
        let n = times@.len();
        assert(sum_times(times@) / n <= u64::MAX) by (nonlinear_arith)
            requires
                sum_times(times@) <= n * (u64::MAX as nat),
                n > 0,
        ;
    }
    (total / times.len() as u128) as u64
}

/// The health verdict of the server.
#[derive(Debug, Clone)]
pub struct HealthStatus {
    pub is_healthy: bool,
    pub issues: Vec<String>,
    /// Uptime in nanoseconds.
    pub uptime: u64,
    /// Time since the last activity in nanoseconds, if there was any.
    pub last_activity: Option<u64>,
}

/// The issues the server reports, in order: a long idle period, a high
/// error rate, no active worker threads (raised only once the number of
/// workers is known: a collector that was never told of workers has no
/// issue with them).
pub open spec fn health_issues(
    idle_too_long: bool,
    error_rate_issue: Option<Seq<char>>,
    workers_known: bool,
    worker_threads_active: u32,
) -> Seq<Seq<char>> {
    let a = if idle_too_long {
        seq!["Server has been idle for more than 5 minutes"@]
    } else {
        Seq::empty()
    };
    let b = match error_rate_issue {
        Some(t) => seq![t],
        None => Seq::empty(),
    };
    let c = if workers_known && worker_threads_active == 0 {
        seq!["No worker threads are active"@]
    } else {
        Seq::empty()
    };
    a + b + c
}

/// The optional text as characters.
pub open spec fn opt_text(o: Option<String>) -> Option<Seq<char>> {
    match o {
        Some(t) => Some(t@),
        None => None,
    }
}

/// Character views of a list of texts.
pub open spec fn texts_view(v: Seq<String>) -> Seq<Seq<char>> {
    v.map_values(|s: String| s@)
}

/// Puts a health verdict together from its checks: the server is healthy
/// exactly when no issue is raised.
pub fn assemble_health_status(
    metrics: &Metrics,
    workers_known: bool,
    idle_too_long: bool,
    error_rate_issue: Option<String>,
    last_activity_elapsed: Option<u64>,
) -> (r: HealthStatus)
    ensures
        texts_view(r.issues@) == health_issues(
            idle_too_long,
            opt_text(error_rate_issue),
            workers_known,
            metrics.worker_threads_active,
        ),
        r.is_healthy == (r.issues@.len() == 0),
        r.uptime == metrics.uptime,
        r.last_activity == last_activity_elapsed,
{
    let ghost expected = health_issues(
        idle_too_long,
        opt_text(error_rate_issue),
        workers_known,
        metrics.worker_threads_active,
    );
    let mut issues: Vec<String> = Vec::new();
    if idle_too_long {
        issues.push("Server has been idle for more than 5 minutes".to_owned());
    }
    match error_rate_issue {
        Some(t) => {
            issues.push(t);
        },
        None => {},
    }
    if workers_known && metrics.worker_threads_active == 0 {
        issues.push("No worker threads are active".to_owned());
    }
    assert(texts_view(issues@) =~= expected);
    let is_healthy = issues.len() == 0;
    HealthStatus { is_healthy, issues, uptime: metrics.uptime, last_activity: last_activity_elapsed }
}

/// Measures how long an operation takes.
pub struct PerformanceMonitor {
    start_time: Instant,
    operation_name: String,
}

impl PerformanceMonitor {
    /// Starts measuring the named operation now.
    pub fn start(operation_name: &str) -> (r: PerformanceMonitor)
        ensures
            r.name() == operation_name@,
    {
        PerformanceMonitor { start_time: instant_now(), operation_name: operation_name.to_owned() }
    }

    /// The name of the measured operation.
    pub closed spec fn name(&self) -> Seq<char> {
        self.operation_name@
    }

    /// The name of the measured operation.
    pub fn operation_name(&self) -> (r: &str)
        ensures
            r@ == self.name(),
    {
        self.operation_name.as_str()
    }

    /// The time since the start.
    pub fn finish(self) -> Duration {
        elapsed_since(&self.start_time)
    }

    /// The time since the start; the collector is not changed.
    pub fn finish_with_logging(self, _metrics: &MetricsCollector) -> Duration {
        self.finish()
    }
}

/// The text `{:?}` gives a duration of `nanos` nanoseconds.
pub uninterp spec fn duration_debug(nanos: u64) -> Seq<char>;

/// Formats a duration of `nanos` nanoseconds with `{:?}`.
///
/// Trusted: the text is `duration_debug` of the argument; its shape (unit
/// and decimals) is std's and is not stated.
#[verifier::external_body]
fn duration_debug_text(nanos: u64) -> (r: String)
    ensures
        r@ == duration_debug(nanos),
{
    format!("{:?}", Duration::from_nanos(nanos))
}

/// Time since the last activity, or zero when there was none; the clock
/// reading is the uptime.
pub open spec fn since_last_activity(m: Metrics) -> u64 {
    match m.last_activity {
        Some(t) => if m.uptime >= t {
            (m.uptime - t) as u64
        } else {
            0
        },
        None => 0,
    }
}

/// The summary of the counters, one per line after a heading.
pub open spec fn metrics_summary_text(m: Metrics) -> Seq<char> {
    "Metrics Summary:\n\tMessages Processed: "@ + decimal(m.messages_processed as nat)
        + "\n\tMessages Failed: "@ + decimal(m.messages_failed as nat) + "\n\tVersion Requests: "@
        + decimal(m.version_requests as nat) + "\n\tDelete Requests: "@ + decimal(
        m.delete_requests as nat,
    ) + "\n\tSize Requests: "@ + decimal(m.size_requests as nat) + "\n\tPath Create Requests: "@
        + decimal(m.path_create_requests as nat) + "\n\tPath Delete Requests: "@ + decimal(
        m.path_delete_requests as nat,
    ) + "\n\tTotal Bytes Processed: "@ + decimal(m.total_bytes_processed as nat)
        + "\n\tAverage Processing Time: "@ + duration_debug(m.average_processing_time)
        + "\n\tUptime: "@ + duration_debug(m.uptime) + "\n\tActive Worker Threads: "@ + decimal(
        m.worker_threads_active as nat,
    ) + "\n\tLast Activity: "@ + duration_debug(since_last_activity(m))
}

fn elapsed_since_activity(m: &Metrics) -> (r: u64)
    ensures
        r == since_last_activity(*m),
{
    match m.last_activity {
        Some(t) => if m.uptime >= t {
            m.uptime - t
        } else {
            0
        },
        None => 0,
    }
}

/// Five minutes in nanoseconds: longer without activity is an issue.
pub const IDLE_LIMIT_NANOS: u64 = 300_000_000_000;

/// Whether the server has been idle for more than five minutes.
pub open spec fn idle_too_long(m: Metrics) -> bool {
    m.last_activity is Some && since_last_activity(m) > IDLE_LIMIT_NANOS
}

/// Whether more than a tenth of the processed messages failed.
pub open spec fn error_rate_too_high(m: Metrics) -> bool {
    m.messages_processed > 0 && m.messages_failed * 100 > 10 * m.messages_processed
}

impl MetricsCollector {
    /// The summary of the current counters.
    pub fn get_metrics_summary(&mut self) -> (r: String)
        ensures
            final(self).counters() == (Metrics {
                uptime: final(self).counters().uptime,
                ..old(self).counters()
            }),
            final(self).times() == old(self).times(),
            final(self).counters().uptime >= old(self).counters().uptime,
            final(self).workers_known() == old(self).workers_known(),
            r@ == metrics_summary_text(final(self).counters()),
    {
        let m = self.get_metrics();
        let mut t = "Metrics Summary:\n\tMessages Processed: ".to_owned();
        push_decimal(&mut t, m.messages_processed);
        t.append("\n\tMessages Failed: ");
        push_decimal(&mut t, m.messages_failed);
        t.append("\n\tVersion Requests: ");
        push_decimal(&mut t, m.version_requests);
        t.append("\n\tDelete Requests: ");
        push_decimal(&mut t, m.delete_requests);
        t.append("\n\tSize Requests: ");
        push_decimal(&mut t, m.size_requests);
        t.append("\n\tPath Create Requests: ");
        push_decimal(&mut t, m.path_create_requests);
        t.append("\n\tPath Delete Requests: ");
        push_decimal(&mut t, m.path_delete_requests);
        t.append("\n\tTotal Bytes Processed: ");
        push_decimal(&mut t, m.total_bytes_processed);
        t.append("\n\tAverage Processing Time: ");
        let avg = duration_debug_text(m.average_processing_time);
        t.append(avg.as_str());
        t.append("\n\tUptime: ");
        let up = duration_debug_text(m.uptime);
        t.append(up.as_str());
        t.append("\n\tActive Worker Threads: ");
        push_decimal(&mut t, m.worker_threads_active as u64);
        t.append("\n\tLast Activity: ");
        let last = duration_debug_text(elapsed_since_activity(&m));
        t.append(last.as_str());
        t
    }

    /// The health verdict for the current counters: idle for more than
    /// five minutes, more than 10% of messages failed, or no active worker
    /// thread once the number of workers was reported, are issues; a fresh
    /// collector is healthy. `error_rate_percent` is the error rate as text,
    /// needed once a message was processed.
    pub fn health_check(&mut self, error_rate_percent: Option<String>) -> (r: HealthStatus)
        requires
            old(self).counters().messages_processed > 0 ==> error_rate_percent is Some,
        ensures
            final(self).counters() == (Metrics {
                uptime: final(self).counters().uptime,
                ..old(self).counters()
            }),
            final(self).times() == old(self).times(),
            final(self).counters().uptime >= old(self).counters().uptime,
            final(self).workers_known() == old(self).workers_known(),
            texts_view(r.issues@) == health_issues(
                idle_too_long(final(self).counters()),
                if error_rate_too_high(final(self).counters()) {
                    Some("High error rate: "@ + opt_text(error_rate_percent).unwrap() + "%"@)
                } else {
                    None
                },
                final(self).workers_known(),
                final(self).counters().worker_threads_active,
            ),
            r.is_healthy == (r.issues@.len() == 0),
            r.uptime == final(self).counters().uptime,
            r.last_activity == match final(self).counters().last_activity {
                Some(_) => Some(since_last_activity(final(self).counters())),
                None => None,
            },
    {
        let m = self.get_metrics();
        let since = elapsed_since_activity(&m);
        let idle = m.last_activity.is_some() && since > IDLE_LIMIT_NANOS;
        let too_high = m.messages_processed > 0 && (m.messages_failed as u128) * 100 > 10 * (
        m.messages_processed as u128);
        let issue = if too_high {
            let mut t = "High error rate: ".to_owned();
            match &error_rate_percent {
                Some(p) => t.append(p.as_str()),
                None => {},
            }
            t.append("%");
            Some(t)
        } else {
            None
        };
        let last = match m.last_activity {
            Some(_) => Some(since),
            None => None,
        };
        assemble_health_status(&m, self.workers_reported, idle, issue, last)
    }
}

/// A fresh collector is healthy: with every counter zero and no worker
/// count reported, whatever the uptime, no issue is raised.
pub proof fn lemma_fresh_collector_healthy(uptime: u64)
    ensures
        ({
            let m = Metrics { uptime, ..zero_metrics() };
            &&& !idle_too_long(m)
            &&& !error_rate_too_high(m)
            &&& health_issues(idle_too_long(m), None, false, m.worker_threads_active).len() == 0
        }),
{
}

/// The idle time is measured from the last recorded message: when a
/// message was recorded at uptime `t` and the clock now reads `u >= t`, the
/// time since the last activity is `u - t`, and the server counts as idle
/// exactly when `u - t` exceeds five minutes, whatever its uptime; a server
/// whose last message came within five minutes raises no idle issue.
pub proof fn lemma_idle_time_since_last_message(m: Metrics, t: u64)
    requires
        m.last_activity == Some(t),
        m.uptime >= t,
    ensures
        since_last_activity(m) == m.uptime - t,
        idle_too_long(m) <==> m.uptime - t > 300_000_000_000,
        m.uptime - t <= 300_000_000_000 ==> !idle_too_long(m),
{
}

} // verus!
