use repo_server_rs::benchmark::{BenchmarkSuite, PerformanceOptimizer};
use repo_server_rs::error_handling::{
    ContextualError, ErrorContext, ErrorMessageBuilder, HelpSystem, ProgressReporter,
    RepoServerError,
};
use repo_server_rs::message::{Message, MessagePayload};
use repo_server_rs::metrics::{assemble_health_status, MetricsCollector};

#[test]
fn server_error_texts() {
    assert_eq!(
        RepoServerError::NetworkError("down".to_string()).message(),
        "Network Error: down\n\nPlease check your network connection and server address."
    );
    assert_eq!(
        RepoServerError::InternalError("x".to_string()).message(),
        "Internal Error: x\n\nThis is an unexpected error. Please report this issue."
    );
    assert_eq!(
        RepoServerError::ShutdownError("s".to_string()).message(),
        "Shutdown Error: s\n\nPlease check if the server is running properly."
    );
}

#[test]
fn context_builders() {
    let c = ErrorContext::new("op", "details");
    assert!(c.suggestion.is_none() && c.error_code.is_none());
    let c = c.with_suggestion("try").with_error_code("E1");
    assert_eq!(c.operation, "op");
    assert_eq!(c.details, "details");
    assert_eq!(c.suggestion.as_deref(), Some("try"));
    assert_eq!(c.error_code.as_deref(), Some("E1"));
    let e = ContextualError::new(RepoServerError::WorkerError("w".to_string()), c);
    assert_eq!(e.message(), "Worker Error: w\n\nPlease check worker thread configuration.");
}

#[test]
fn message_builder_codes() {
    let e = ErrorMessageBuilder::configuration_error("load", "bad port");
    assert_eq!(e.context.error_code.as_deref(), Some("CONFIG_001"));
    assert_eq!(e.context.suggestion.as_deref(), Some("Run 'repo --help' to see configuration options"));
    assert_eq!(
        e.message(),
        "Configuration Error: bad port\n\nPlease check your configuration file and ensure all required settings are correct."
    );
    assert_eq!(ErrorMessageBuilder::network_error("a", "b").context.error_code.as_deref(), Some("NET_001"));
    assert_eq!(ErrorMessageBuilder::security_error("a", "b").context.error_code.as_deref(), Some("SEC_001"));
    assert_eq!(ErrorMessageBuilder::file_system_error("a", "b").context.error_code.as_deref(), Some("FS_001"));
    assert_eq!(ErrorMessageBuilder::message_error("a", "b").context.error_code.as_deref(), Some("MSG_001"));
    let w = ErrorMessageBuilder::worker_error("spawn", "no threads");
    assert_eq!(w.context.error_code.as_deref(), Some("WORKER_001"));
    assert_eq!(w.context.operation, "spawn");
    assert!(matches!(w.error, RepoServerError::WorkerError(ref d) if d == "no threads"));
}

#[test]
fn progress_counts_steps() {
    let mut p = ProgressReporter::new("copy", 3);
    assert_eq!(p.operation(), "copy");
    assert_eq!(p.total_steps(), 3);
    assert_eq!(p.current_step(), 0);
    p.step();
    p.step();
    assert_eq!(p.current_step(), 2);
}

#[test]
fn health_report_lines() {
    let mut collector = MetricsCollector::new();
    collector.set_worker_threads_active(1);
    let m = collector.get_metrics();
    let healthy = assemble_health_status(&m, true, false, None, None);
    assert_eq!(HelpSystem::health_check_lines(&healthy), vec!["✅ Server Health: Healthy".to_string()]);
    let sick = assemble_health_status(&m, true, true, None, None);
    assert_eq!(
        HelpSystem::health_check_lines(&sick),
        vec![
            "❌ Server Health: Issues Detected".to_string(),
            "   Issues:".to_string(),
            "   • Server has been idle for more than 5 minutes".to_string(),
            String::new(),
        ]
    );
}

#[test]
fn benchmark_test_messages() {
    let suite = BenchmarkSuite::new(MetricsCollector::new());
    let m: Message = suite.create_test_message(5);
    assert_eq!(m.message_type, 1);
    assert_eq!(m.correlation_id.as_deref(), Some("test-5"));
    match &m.payload {
        MessagePayload::Nack(n) => {
            assert_eq!(n.err_code, -1);
            assert_eq!(n.err_msg, "Test error 5");
        }
        other => panic!("unexpected payload {:?}", other),
    }
    assert!(matches!(suite.create_test_message(8).payload, MessagePayload::VersionRequest(_)));
    assert!(matches!(suite.create_test_message(2).payload, MessagePayload::Ack(_)));
    assert!(matches!(suite.create_test_message(3).payload, MessagePayload::Empty));
}

#[test]
fn optimizer_suggestions() {
    let mut collector = MetricsCollector::new();
    collector.record_message_processed(1, 2_000_000_000, 200_000_000);
    collector.record_message_failed(1);
    let mut opt = PerformanceOptimizer::new(collector);
    let s = opt.analyze_performance(Some("100.0".to_string()));
    assert_eq!(s[0], "High average processing time detected. Consider optimizing message parsing or I/O operations.");
    assert_eq!(s[1], "High error rate detected: 100.0%. Review error handling and input validation.");
    assert_eq!(s[2], "No worker threads active. Check worker thread management.");
    let r = opt.get_recommendations();
    assert_eq!(
        r,
        vec![
            "High memory usage detected. Consider implementing message batching or streaming.".to_string(),
            "Consider increasing worker thread count for better concurrency.".to_string(),
            "High version request frequency. Consider implementing response caching.".to_string(),
        ]
    );
}

#[test]
fn optimizer_with_no_traffic_reports_low_throughput_only() {
    let mut collector = MetricsCollector::new();
    collector.set_worker_threads_active(8);
    let mut opt = PerformanceOptimizer::new(collector);
    // no message in a non-zero uptime: under one message per second
    assert_eq!(
        opt.analyze_performance(None),
        vec!["Low message throughput detected. Consider increasing worker threads or optimizing processing.".to_string()]
    );
    assert!(opt.get_recommendations().is_empty());
}
