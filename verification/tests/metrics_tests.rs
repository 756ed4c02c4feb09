use neonmachines::metrics::{
    get_dashboard_title, lookback_seconds, period_totals, period_totals_checked, push_bounded,
    AlertLevel, DashboardMode, ExportFormat, RequestCounts, RequestTiming, SnapshotFigures, TimeRange,
    HISTORY_LIMIT, LONGEST_TOTAL_NANOS,
};

#[test]
fn timings_record_their_outcome() {
    let mut t = RequestTiming::new("workflow_execution".to_string());
    assert_eq!(t.operation, "workflow_execution");
    assert!(t.duration.is_none());
    assert!(t.end_time.is_none());
    assert!(!t.success);
    let _running = t.get_duration();
    t.finish(true);
    assert!(t.success);
    assert!(t.end_time.is_some());
    let d = t.duration.unwrap();
    assert_eq!(t.get_duration(), d);
}

#[test]
fn periods_reach_back() {
    assert_eq!(lookback_seconds(TimeRange::LastHour), Some(3600));
    assert_eq!(lookback_seconds(TimeRange::Last6Hours), Some(21600));
    assert_eq!(lookback_seconds(TimeRange::Last24Hours), Some(86400));
    assert_eq!(lookback_seconds(TimeRange::Last7Days), Some(604800));
    assert_eq!(lookback_seconds(TimeRange::Last30Days), Some(2592000));
    assert_eq!(lookback_seconds(TimeRange::All), None);
    assert_ne!(ExportFormat::Json, ExportFormat::Csv);
}

#[test]
fn labels_and_titles() {
    assert_eq!(AlertLevel::Info.label(), "INFO");
    assert_eq!(AlertLevel::Warning.label(), "WARNING");
    assert_eq!(AlertLevel::Critical.label(), "CRITICAL");
    assert_eq!(get_dashboard_title(&DashboardMode::Overview), "Performance Overview");
    assert_eq!(get_dashboard_title(&DashboardMode::Historical), "Historical Performance");
    assert_eq!(get_dashboard_title(&DashboardMode::Alerts), "Performance Alerts");
}

#[test]
fn history_keeps_the_newest_entries() {
    let mut v: Vec<u32> = Vec::new();
    for i in 0..5u32 {
        push_bounded(&mut v, i, 3);
    }
    assert_eq!(v, vec![2, 3, 4]);
    assert_eq!(HISTORY_LIMIT, 10000);
    let mut w: Vec<u32> = vec![1];
    push_bounded(&mut w, 2, 3);
    assert_eq!(w, vec![1, 2]);
}

fn snap(t: i64, req: u64, ok: u64, total: u64, avg: u64) -> SnapshotFigures {
    SnapshotFigures { timestamp: t, request_count: req, success_count: ok, total_duration_ms: total, average_response_ms: avg }
}

#[test]
fn totals_over_a_period() {
    let s = vec![snap(10, 1, 1, 100, 100), snap(20, 2, 1, 300, 150), snap(30, 3, 3, 600, 120)];
    let t = period_totals(&s, 15);
    assert_eq!(t.snapshots, 2);
    assert_eq!(t.total_requests, 5);
    assert_eq!(t.success_count, 4);
    assert_eq!(t.total_duration_ms, 900);
    assert_eq!(t.average_sum_ms, 270);
    assert_eq!(t.min_response_ms, 120);
    assert_eq!(t.max_response_ms, 150);
    let none = period_totals(&s, 100);
    assert_eq!(none.snapshots, 0);
    assert_eq!(none.min_response_ms, 0);
    assert_eq!(none.max_response_ms, 0);
}

#[test]
fn checked_totals_refuse_sums_too_large() {
    let s = vec![snap(10, 1, 1, 100, 100), snap(20, 2, 1, 300, 150), snap(30, 3, 3, 600, 120)];
    assert_eq!(period_totals_checked(&s, 15), Some(period_totals(&s, 15)));
    let big = vec![snap(10, u64::MAX, 0, 0, 0), snap(20, 1, 0, 0, 0)];
    assert_eq!(period_totals_checked(&big, 0), None);
    // the snapshot before the period does not count
    assert_eq!(period_totals_checked(&big, 15).map(|t| t.total_requests), Some(1));
    let slow = vec![snap(10, 0, 0, u64::MAX, 0), snap(20, 0, 0, 1, 0)];
    assert_eq!(period_totals_checked(&slow, 0), None);
}

#[test]
fn counts_average_whole_milliseconds() {
    let mut c = RequestCounts::new();
    assert_eq!((c.request_count, c.success_count, c.total_nanos, c.average_ms), (0, 0, 0, 0));
    c.record_request(1_500_000, true);
    assert_eq!((c.request_count, c.success_count, c.total_nanos, c.average_ms), (1, 1, 1_500_000, 1));
    c.record_request(2_700_000, false);
    assert_eq!((c.request_count, c.success_count, c.total_nanos, c.average_ms), (2, 1, 4_200_000, 2));
    c.record_request(300_000_000, true);
    assert_eq!(c.average_ms, 304 / 3);
    assert_eq!(c.success_count, 2);
    let mut full = RequestCounts { request_count: 1, success_count: 0, total_nanos: LONGEST_TOTAL_NANOS - 5, average_ms: 0 };
    full.record_request(5, false);
    assert_eq!(full.total_nanos, LONGEST_TOTAL_NANOS);
    assert_eq!(full.average_ms, 9_223_372_036_854_775_807 / 2);
}
