//! The messages the benchmarks run on, and the suggestions and
//! recommendations drawn from the server's counters.

use vstd::prelude::*;
use crate::message::{AckReply, Message, MessageAttribute, MessagePayload, NackReply, PayloadView};
use crate::metrics::{opt_text, texts_view, Metrics, MetricsCollector};
use crate::proto::VersionRequest;
use crate::text::{decimal, push_decimal};

verus! {

/// Runs benchmarks against the server's code paths.
pub struct BenchmarkSuite {
    metrics: MetricsCollector,
}

/// The payload of test message `id`: a version request, a negative
/// acknowledgement, an acknowledgement or nothing, in turn.
pub open spec fn test_payload(id: u32) -> PayloadView {
    if id % 4 == 0 {
        PayloadView::VersionRequest
    } else if id % 4 == 1 {
        PayloadView::Nack(-1i32, "Test error "@ + decimal(id as nat))
    } else if id % 4 == 2 {
        PayloadView::Ack
    } else {
        PayloadView::Empty
    }
}

/// The correlation id of test message `id`.
pub open spec fn test_correlation_id(id: u32) -> Seq<char> {
    "test-"@ + decimal(id as nat)
}

impl BenchmarkSuite {
    /// A suite reporting to `metrics`.
    pub fn new(metrics: MetricsCollector) -> (r: BenchmarkSuite)
        ensures
            r.counters() == metrics.counters(),
    {
        BenchmarkSuite { metrics }
    }

    /// The counters of the collector the suite reports to.
    pub closed spec fn counters(&self) -> Metrics {
        self.metrics.counters()
    }

    /// Test message `id`: type 1, the payload of `test_payload`, and the
    /// correlation id `test-<id>`.
    pub fn create_test_message(&self, id: u32) -> (r: Message)
        ensures
            r.message_type == 1,
            r.payload@ == test_payload(id),
            r.correlation_id matches Some(c) && c@ == test_correlation_id(id),
            r.key is None,
            r.attributes@ == Map::<MessageAttribute, Seq<char>>::empty().insert(
                MessageAttribute::CorrelationId,
                test_correlation_id(id),
            ),
    {
        let payload = if id % 4 == 0 {
            MessagePayload::VersionRequest(VersionRequest)
        } else if id % 4 == 1 {
            let mut text = "Test error ".to_owned();
            push_decimal(&mut text, id as u64);
            MessagePayload::Nack(NackReply { err_code: -1, err_msg: text })
        } else if id % 4 == 2 {
            MessagePayload::Ack(AckReply)
        } else {
            MessagePayload::Empty
        };
        let mut message = Message::new(1, payload);
        let mut cid = "test-".to_owned();
        push_decimal(&mut cid, id as u64);
        message.set_correlation_id(cid);
        message
    }
}

/// Draws suggestions and recommendations from the counters.
pub struct PerformanceOptimizer {
    metrics: MetricsCollector,
}

/// The suggestions for counters `m`, in order: slow average processing
/// (over 100 ms), an error rate over 5% (with `rate`, its percentage as
/// text), no active worker thread, and a throughput under one message per
/// second of uptime.
pub open spec fn performance_suggestions(m: Metrics, rate: Option<Seq<char>>) -> Seq<Seq<char>> {
    let a = if m.average_processing_time > 100_000_000 {
        seq![
            "High average processing time detected. Consider optimizing message parsing or I/O operations."@,
        ]
    } else {
        Seq::empty()
    };
    let b = if m.messages_processed > 0 && m.messages_failed * 100 > 5 * m.messages_processed {
        seq![
            "High error rate detected: "@ + rate.unwrap()
                + "%. Review error handling and input validation."@,
        ]
    } else {
        Seq::empty()
    };
    let c = if m.worker_threads_active == 0 {
        seq!["No worker threads active. Check worker thread management."@]
    } else {
        Seq::empty()
    };
    let d = if m.uptime > 0 && m.messages_processed * 1_000_000_000 < m.uptime {
        seq![
            "Low message throughput detected. Consider increasing worker threads or optimizing processing."@,
        ]
    } else {
        Seq::empty()
    };
    a + b + c + d
}

/// The recommendations for counters `m`, in order: over a gigabyte
/// processed, fewer than four worker threads, and version requests making
/// up more than half the processed messages.
pub open spec fn performance_recommendations(m: Metrics) -> Seq<Seq<char>> {
    let a = if m.total_bytes_processed > 1_000_000_000 {
        seq!["High memory usage detected. Consider implementing message batching or streaming."@]
    } else {
        Seq::empty()
    };
    let b = if m.worker_threads_active < 4 {
        seq!["Consider increasing worker thread count for better concurrency."@]
    } else {
        Seq::empty()
    };
    let c = if m.version_requests > m.messages_processed / 2 {
        seq!["High version request frequency. Consider implementing response caching."@]
    } else {
        Seq::empty()
    };
    a + b + c
}

impl PerformanceOptimizer {
    /// An optimizer reading `metrics`.
    pub fn new(metrics: MetricsCollector) -> (r: PerformanceOptimizer)
        ensures
            r.counters() == metrics.counters(),
    {
        PerformanceOptimizer { metrics }
    }

    /// The counters of the collector read.
    pub closed spec fn counters(&self) -> Metrics {
        self.metrics.counters()
    }

    /// The counters, with the uptime brought up to date.
    pub fn current_metrics(&mut self) -> (r: Metrics)
        ensures
            r == final(self).counters(),
            final(self).counters() == (Metrics { uptime: r.uptime, ..old(self).counters() }),
    {
        self.metrics.get_metrics()
    }

    /// Suggestions for the current counters; `error_rate_percent` is the
    /// error rate as text, needed once a message was processed.
    pub fn analyze_performance(&mut self, error_rate_percent: Option<String>) -> (r: Vec<String>)
        requires
            old(self).counters().messages_processed > 0 ==> error_rate_percent is Some,
        ensures
            final(self).counters() == (Metrics {
                uptime: final(self).counters().uptime,
                ..old(self).counters()
            }),
            texts_view(r@) == performance_suggestions(
                final(self).counters(),
                opt_text(error_rate_percent),
            ),
    {
        let m = self.metrics.get_metrics();
        let ghost rate = opt_text(error_rate_percent);
        let mut out: Vec<String> = Vec::new();
        if m.average_processing_time > 100_000_000 {
            out.push(
                "High average processing time detected. Consider optimizing message parsing or I/O operations.".to_owned(),
            );
        }
        if m.messages_processed > 0 && (m.messages_failed as u128) * 100 > 5 * (
        m.messages_processed as u128) {
            let mut t = "High error rate detected: ".to_owned();
            match &error_rate_percent {
                Some(p) => t.append(p.as_str()),
                None => {},
            }
            t.append("%. Review error handling and input validation.");
            out.push(t);
        }
        if m.worker_threads_active == 0 {
            out.push("No worker threads active. Check worker thread management.".to_owned());
        }
        if m.uptime > 0 && (m.messages_processed as u128) * 1_000_000_000 < m.uptime as u128 {
            out.push(
                "Low message throughput detected. Consider increasing worker threads or optimizing processing.".to_owned(),
            );
        }
        assert(texts_view(out@) =~= performance_suggestions(m, rate));
        out
    }

    /// Recommendations for the current counters.
    pub fn get_recommendations(&mut self) -> (r: Vec<String>)
        ensures
            final(self).counters() == (Metrics {
                uptime: final(self).counters().uptime,
                ..old(self).counters()
            }),
            texts_view(r@) == performance_recommendations(final(self).counters()),
    {
        let mut out: Vec<String> = Vec::new();
        let m = self.metrics.get_metrics();
        if m.total_bytes_processed > 1_000_000_000 {
            out.push(
                "High memory usage detected. Consider implementing message batching or streaming.".to_owned(),
            );
        }
        if m.worker_threads_active < 4 {
            out.push("Consider increasing worker thread count for better concurrency.".to_owned());
        }
        if m.version_requests > m.messages_processed / 2 {
            out.push(
                "High version request frequency. Consider implementing response caching.".to_owned(),
            );
        }
        assert(texts_view(out@) =~= performance_recommendations(m));
        out
    }
}

} // verus!
