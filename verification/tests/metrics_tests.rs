use repo_server_rs::metrics::{assemble_health_status, MetricsCollector, PerformanceMonitor};
use std::time::Duration;

#[test]
fn test_metrics_collector_creation() {
    let mut collector = MetricsCollector::new();
    let metrics = collector.get_metrics();

    assert_eq!(metrics.messages_processed, 0);
    assert_eq!(metrics.messages_failed, 0);
    assert_eq!(metrics.worker_threads_active, 0);
}

#[test]
fn test_record_message_processed() {
    let mut collector = MetricsCollector::new();
    // 50 milliseconds, in nanoseconds
    collector.record_message_processed(1, 100, 50_000_000);

    let metrics = collector.get_metrics();
    assert_eq!(metrics.messages_processed, 1);
    assert_eq!(metrics.total_bytes_processed, 100);
    assert_eq!(metrics.version_requests, 1);
}

#[test]
fn test_record_message_failed() {
    let mut collector = MetricsCollector::new();
    collector.record_message_failed(1);

    let metrics = collector.get_metrics();
    assert_eq!(metrics.messages_failed, 1);
}

#[test]
fn test_worker_threads_active() {
    let mut collector = MetricsCollector::new();
    collector.set_worker_threads_active(4);

    let metrics = collector.get_metrics();
    assert_eq!(metrics.worker_threads_active, 4);
}

#[test]
fn average_and_counters() {
    let mut collector = MetricsCollector::new();
    collector.record_message_processed(17930, 10, 10);
    collector.record_message_processed(13322, 10, 20);
    collector.record_message_processed(13578, 10, 31);
    collector.record_message_processed(1004, 10, 0);
    collector.record_message_processed(42, 10, 0);
    let m = collector.get_metrics();
    assert_eq!(m.delete_requests, 1);
    assert_eq!(m.size_requests, 1);
    assert_eq!(m.path_create_requests, 1);
    assert_eq!(m.path_delete_requests, 1);
    assert_eq!(m.version_requests, 0);
    assert_eq!(m.messages_processed, 5);
    assert_eq!(m.total_bytes_processed, 50);
    assert_eq!(m.average_processing_time, 12);
    assert!(m.last_activity.is_some());
    collector.reset();
    let m = collector.get_metrics();
    assert_eq!(m.messages_processed, 0);
    assert!(m.last_activity.is_none());
}

#[test]
fn processing_time_window() {
    let mut collector = MetricsCollector::new();
    for _ in 0..1000 {
        collector.record_message_processed(0, 0, 0);
    }
    assert_eq!(collector.get_metrics().average_processing_time, 0);
    // The 1001st time overflows the window: the oldest 100 are dropped,
    // leaving 900 zeros and this one.
    collector.record_message_processed(0, 0, 901);
    assert_eq!(collector.get_metrics().average_processing_time, 1);
}

#[test]
fn test_health_check() {
    let mut collector = MetricsCollector::new();
    let health = collector.health_check(None);

    // Should be healthy initially
    assert!(health.is_healthy);
    assert!(health.issues.is_empty());
}

#[test]
fn health_check_reports_missing_workers_once_reported() {
    let mut collector = MetricsCollector::new();
    collector.set_worker_threads_active(0);
    let health = collector.health_check(None);
    assert!(!health.is_healthy);
    assert_eq!(health.issues, vec!["No worker threads are active".to_string()]);
    collector.reset();
    assert!(collector.health_check(None).is_healthy);
}

#[test]
fn uptime_does_not_go_back() {
    let mut collector = MetricsCollector::new();
    let a = collector.get_metrics().uptime;
    collector.record_message_failed(0);
    let b = collector.get_metrics().uptime;
    let c = collector.get_metrics().uptime;
    assert!(a <= b && b <= c);
}

#[test]
fn health_check_reports_error_rate() {
    let mut collector = MetricsCollector::new();
    collector.set_worker_threads_active(2);
    for _ in 0..9 {
        collector.record_message_processed(0, 0, 0);
    }
    collector.record_message_failed(0);
    // one failure in nine processed: 11.1%, over the limit of 10%
    let health = collector.health_check(Some("11.1".to_string()));
    assert!(!health.is_healthy);
    assert_eq!(health.issues, vec!["High error rate: 11.1%".to_string()]);
    assert!(health.last_activity.is_some());
    for _ in 0..1 {
        collector.record_message_processed(0, 0, 0);
    }
    // one failure in ten processed: exactly 10%, not over the limit
    let health = collector.health_check(Some("10.0".to_string()));
    assert!(health.is_healthy);
}

#[test]
fn metrics_summary_lists_counters() {
    let mut collector = MetricsCollector::new();
    collector.record_message_processed(1, 64, 1_500_000);
    collector.set_worker_threads_active(3);
    let s = collector.get_metrics_summary();
    assert!(s.starts_with("Metrics Summary:\n\tMessages Processed: 1\n\tMessages Failed: 0\n\tVersion Requests: 1\n"));
    assert!(s.contains("\n\tTotal Bytes Processed: 64\n\tAverage Processing Time: 1.5ms\n\tUptime: "));
    assert!(s.contains("\n\tActive Worker Threads: 3\n\tLast Activity: "));
}

#[test]
fn test_performance_monitor() {
    let monitor = PerformanceMonitor::start("test_operation");
    let begin = std::time::Instant::now();
    while begin.elapsed() < Duration::from_millis(10) {}
    let duration = monitor.finish();

    assert!(duration >= Duration::from_millis(10));
}

#[test]
fn health_issues_in_order() {
    let mut collector = MetricsCollector::new();
    let metrics = collector.get_metrics();
    let health = assemble_health_status(&metrics, true, true, Some("High error rate: 50.0%".to_string()), Some(7));
    assert!(!health.is_healthy);
    assert_eq!(health.issues, vec![
        "Server has been idle for more than 5 minutes".to_string(),
        "High error rate: 50.0%".to_string(),
        "No worker threads are active".to_string(),
    ]);
    assert_eq!(health.last_activity, Some(7));
}

#[test]
fn performance_monitor_names_operation() {
    let monitor = PerformanceMonitor::start("test_operation");
    assert_eq!(monitor.operation_name(), "test_operation");
    let _ = monitor.finish();
}
