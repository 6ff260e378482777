use rustminidb::monitor::{format_file_size, LatencyHistogram, Metrics, MonitorConfig, QueryTimer, Timer, TraceContext};

#[test]
fn test_metrics_record_query() {
    let mut metrics = Metrics::new();
    metrics.record_query(true, 100);
    metrics.record_query(false, 200);
    let snap = metrics.snapshot();
    assert_eq!(snap.total_queries, 2);
    assert_eq!(snap.success_queries, 1);
    assert_eq!(snap.failed_queries, 1);
    assert_eq!(snap.total_time_us, 300);
}

#[test]
fn test_metrics_record_statement() {
    let mut metrics = Metrics::new();
    metrics.record_statement("CREATE TABLE t (id INT)");
    metrics.record_statement("INSERT INTO t VALUES (1)");
    metrics.record_statement("SELECT * FROM t");
    metrics.record_statement("UPDATE t SET id=2");
    metrics.record_statement("DELETE FROM t");
    let snap = metrics.snapshot();
    assert_eq!(snap.create_count, 1);
    assert_eq!(snap.insert_count, 1);
    assert_eq!(snap.select_count, 1);
    assert_eq!(snap.update_count, 1);
    assert_eq!(snap.delete_count, 1);
}

#[test]
fn test_trace_context() {
    let trace = TraceContext::new("test", 0x0123_4567_89ab_cdef_0123_4567_89ab_cdef);
    assert!(!trace.trace_id.is_empty());
    assert_eq!(trace.operation, "test");
    let elapsed = trace.finish();
    assert!(elapsed < 100_000);
}

#[test]
fn test_latency_histogram() {
    let mut h = LatencyHistogram::new();
    h.observe(100);
    h.observe(1000);
    h.observe(1_000_000);
    let snap = h.snapshot();
    assert_eq!(snap.total, 3);
}

#[test]
fn test_db_file_size_format() {
    let s = format_file_size(1024);
    assert!(s.contains("KB"));
    let s = format_file_size(1_048_576);
    assert!(s.contains("MB"));
}

#[test]
fn test_timer() {
    let t = Timer::start();
    let wait = std::time::Instant::now();
    while wait.elapsed() < std::time::Duration::from_millis(10) {}
    assert!(t.elapsed_us() >= 10_000);
}

#[test]
fn histogram_buckets_by_limit() {
    let mut h = LatencyHistogram::new();
    for us in [0u64, 100, 101, 500, 501, 1000, 5000, 10_000, 50_000, 100_000, 500_000, 1_000_000, 1_000_001, 9_999_999] {
        h.observe(us);
    }
    let snap = h.snapshot();
    assert_eq!(snap.bucket_limits_us, vec![100, 500, 1000, 5000, 10_000, 50_000, 100_000, 500_000, 1_000_000, 5_000_000]);
    assert_eq!(snap.counts, vec![2, 2, 2, 1, 1, 1, 1, 1, 1, 2]);
    assert_eq!(snap.total, 14);
}

#[test]
fn fastest_and_slowest() {
    let mut m = Metrics::new();
    m.record_query(true, 50);
    m.record_query(true, 10);
    m.record_query(true, 70);
    assert_eq!(m.fastest_us, 10);
    assert_eq!(m.slowest_us, 70);
}

#[test]
fn record_statement_trims_and_ignores_case() {
    let mut m = Metrics::new();
    m.record_statement("   select 1");
    m.record_statement("drop table t");
    assert_eq!(m.select_count, 1);
    assert_eq!(m.create_count + m.insert_count + m.update_count + m.delete_count, 0);
}

#[test]
fn connections_and_rows() {
    let mut m = Metrics::new();
    m.record_connection_open();
    m.record_connection_open();
    m.record_connection_close();
    m.record_rows_read(5);
    m.record_rows_written(7);
    m.record_system_event();
    m.record_error_event();
    assert_eq!(m.active_connections, 1);
    assert_eq!(m.total_connections, 2);
    assert_eq!(m.rows_read, 5);
    assert_eq!(m.rows_written, 7);
    assert_eq!(m.system_events, 1);
    assert_eq!(m.error_events, 1);
}

#[test]
fn query_timer_counts_statement_and_time() {
    let mut m = Metrics::new();
    let t = QueryTimer::new("INSERT INTO t VALUES (1)", &mut m);
    let us = t.finish(true, &mut m);
    assert_eq!(m.insert_count, 1);
    assert_eq!(m.total_queries, 1);
    assert_eq!(m.total_time_us, us);
}

#[test]
fn light_trace_has_no_id() {
    let t = TraceContext::new_light("op");
    assert!(t.trace_id.is_empty());
    assert!(!t.enabled);
    let full = TraceContext::new("op", u128::MAX);
    assert_eq!(full.trace_id.len(), 36);
    assert_eq!(full.trace_id, "ffffffff-ffff-4fff-bfff-ffffffffffff");
    let zero = TraceContext::new("op", 0);
    assert_eq!(zero.trace_id, "00000000-0000-4000-8000-000000000000");
}

#[test]
fn monitor_config_default() {
    let c = MonitorConfig::default();
    assert_eq!(c.level, "info");
    assert_eq!(c.format, "text");
    assert!(c.tracing_enabled);
}

fn reference_size(bytes: u64) -> String {
    const UNITS: &[&str] = &["B", "KB", "MB", "GB", "TB"];
    let mut size = bytes as f64;
    let mut unit_idx = 0;
    while size >= 1024.0 && unit_idx < UNITS.len() - 1 {
        size /= 1024.0;
        unit_idx += 1;
    }
    format!("{:.2} {}", size, UNITS[unit_idx])
}

#[test]
fn file_size_matches_float_formatting() {
    let mut samples: Vec<u64> = vec![0, 1, 1023, 1024, 1025, 1536, 10_240, 1_048_575, 1_048_576, 1_073_741_824,
        1_099_511_627_776, u64::MAX, (1u64 << 53) + 1, 123_456_789_012, 5 * 1024 + 5, 1029, 1034];
    for k in 0..2000u64 {
        samples.push(k * 37 + 1000);
        samples.push(k.wrapping_mul(2_654_435_761) ^ (k << 40));
    }
    for b in samples {
        assert_eq!(format_file_size(b), reference_size(b), "bytes = {}", b);
    }
}

#[test]
fn file_size_exact_values() {
    assert_eq!(format_file_size(0), "0.00 B");
    assert_eq!(format_file_size(1024), "1.00 KB");
    assert_eq!(format_file_size(1536), "1.50 KB");
    assert_eq!(format_file_size(1_048_576), "1.00 MB");
    assert_eq!(format_file_size(u64::MAX), "16777216.00 TB");
}

#[test]
fn fastest_keeps_a_zero_reading() {
    let mut m = Metrics::new();
    m.record_query(true, 5);
    m.record_query(true, 0);
    m.record_query(true, 3);
    assert_eq!(m.fastest_us, 0);
    assert_eq!(m.slowest_us, 5);
    let mut first = Metrics::new();
    first.record_query(true, 7);
    assert_eq!(first.fastest_us, 7);
}
