use progresshub::orchestration::{
    HealthReportCard, WorkerEvent, WorkerHealthMetrics, WorkerHealthMonitor, WorkerHealthStatus,
};

const NOW: u64 = 1_700_000_000_000;

fn success_rate(processed: usize, failed: usize) -> f64 {
    let total = processed + failed;
    if total == 0 {
        100.0
    } else {
        processed as f64 / total as f64 * 100.0
    }
}

#[test]
fn test_worker_health_status_creation() {
    let worker_id = 42;
    let health_status = WorkerHealthStatus::new(worker_id, NOW);

    assert_eq!(health_status.worker_id, worker_id);
    assert!(health_status.is_healthy);
    assert_eq!(health_status.jobs_processed, 0);
    assert_eq!(health_status.jobs_failed, 0);
    assert_eq!(health_status.restart_count, 0);

    let metrics = health_status.get_metrics(NOW + 10);
    assert!(metrics.time_since_heartbeat_ms < 1000, "Initial heartbeat should be recent");
}

#[test]
fn test_worker_heartbeat_tracking() {
    let mut health_status = WorkerHealthStatus::new(0, NOW);
    let initial_metrics = health_status.get_metrics(NOW);
    assert!(initial_metrics.time_since_heartbeat_ms < 1000, "Initial heartbeat should be recent");

    health_status.heartbeat(NOW + 50);
    let updated_metrics = health_status.get_metrics(NOW + 60);
    assert!(updated_metrics.time_since_heartbeat_ms < 200);
    assert_eq!(updated_metrics.time_since_heartbeat_ms, 10);
}

#[test]
fn test_job_completion_tracking() {
    let mut health_status = WorkerHealthStatus::new(0, NOW);

    health_status.job_completed();
    health_status.job_completed();
    health_status.job_completed();
    health_status.job_failed();

    let metrics = health_status.get_metrics(NOW);
    assert_eq!(metrics.jobs_processed, 3);
    assert_eq!(metrics.jobs_failed, 1);

    let rate = success_rate(metrics.jobs_processed, metrics.jobs_failed);
    assert!((rate - 75.0).abs() < 0.1, "Success rate should be 75% (3 successful out of 4 total)");
}

#[test]
fn test_worker_responsiveness_checking() {
    let mut health_status = WorkerHealthStatus::new(0, NOW);

    let metrics = health_status.get_metrics(NOW);
    assert!(metrics.is_responsive(30_000), "Worker should be responsive within 30 seconds");
    assert!(metrics.is_responsive(1_000), "Worker should be responsive within 1 second initially");

    // A heartbeat 35 seconds in the past
    health_status.heartbeat(NOW - 35_000);

    let metrics = health_status.get_metrics(NOW);
    assert!(!metrics.is_responsive(30_000), "Worker should not be responsive after 35 seconds");
    assert!(metrics.is_responsive(40_000), "Worker should still be responsive within 40 seconds");
}

#[test]
fn test_worker_health_monitor_creation() {
    let worker_count = 8;
    let health_monitor = WorkerHealthMonitor::new(worker_count, NOW);

    for worker_id in 0..worker_count {
        let worker_health = health_monitor.get_worker_health(worker_id);
        assert!(worker_health.is_some(), "Worker {} should exist", worker_id);

        let status = worker_health.unwrap();
        assert_eq!(status.worker_id, worker_id);
        assert!(status.is_healthy);
    }

    assert!(health_monitor.get_worker_health(worker_count).is_none());
}

#[test]
fn test_health_report_generation() {
    let worker_count = 4;
    let mut health_monitor = WorkerHealthMonitor::new(worker_count, NOW);

    assert!(health_monitor.update_worker(0, WorkerEvent::JobCompleted, NOW));
    assert!(health_monitor.update_worker(0, WorkerEvent::JobCompleted, NOW));
    assert!(health_monitor.update_worker(1, WorkerEvent::JobCompleted, NOW));
    assert!(health_monitor.update_worker(1, WorkerEvent::JobFailed, NOW));
    assert!(health_monitor.update_worker(2, WorkerEvent::MarkUnhealthy, NOW));

    let health_report = health_monitor.get_health_report(NOW);

    assert_eq!(health_report.total_workers, worker_count);
    assert_eq!(health_report.worker_metrics.len(), worker_count);

    assert_eq!(health_report.total_jobs_processed, 3);
    assert_eq!(health_report.total_jobs_failed, 1);

    assert_eq!(health_report.healthy_workers, 3);
    assert_eq!(health_report.workers_needing_restart, 1);

    let rate = success_rate(health_report.total_jobs_processed, health_report.total_jobs_failed);
    assert!((rate - 75.0).abs() < 0.1, "Overall success rate should be 75% (3 successful out of 4 total)");

    let health_percentage =
        health_report.healthy_workers as f64 / health_report.total_workers as f64 * 100.0;
    assert_eq!(health_percentage, 75.0);
}

#[test]
fn test_health_status_determination() {
    let mut health_monitor = WorkerHealthMonitor::new(4, NOW);

    let healthy_report = health_monitor.get_health_report(NOW);
    assert_eq!(healthy_report.status_summary(), "HEALTHY");
    assert!(!healthy_report.is_critical());

    health_monitor.update_worker(0, WorkerEvent::MarkUnhealthy, NOW);
    let warning_report = health_monitor.get_health_report(NOW);
    assert_eq!(warning_report.status_summary(), "WARNING");
    assert!(!warning_report.is_critical());

    health_monitor.update_worker(1, WorkerEvent::MarkUnhealthy, NOW);
    health_monitor.update_worker(2, WorkerEvent::MarkUnhealthy, NOW);
    let critical_report = health_monitor.get_health_report(NOW);
    assert_eq!(critical_report.status_summary(), "CRITICAL");
    assert!(critical_report.is_critical());
}

#[test]
fn test_worker_restart_marking() {
    let mut health_status = WorkerHealthStatus::new(0, NOW);
    assert!(health_status.is_healthy);
    assert_eq!(health_status.restart_count, 0);

    health_status.register_thread(NOW);
    assert!(health_status.has_thread);

    health_status.mark_unhealthy();
    assert!(!health_status.is_healthy);
    assert!(!health_status.has_thread, "Thread handle should be taken when marked unhealthy");

    health_status.mark_restarted(NOW + 10);
    assert!(health_status.is_healthy);
    assert_eq!(health_status.restart_count, 1);
    assert!(health_status.has_thread, "Thread handle should be restored after restart");
}

#[test]
fn unresponsive_worker_is_restarted_by_health_check() {
    let mut monitor = WorkerHealthMonitor::new(3, NOW);
    // Worker 1 stops sending heartbeats; the others keep sending them.
    monitor.update_worker(0, WorkerEvent::Heartbeat, NOW + 40_000);
    monitor.update_worker(2, WorkerEvent::Heartbeat, NOW + 40_000);
    assert_eq!(monitor.workers_to_restart(NOW + 40_000), vec![1]);

    monitor.run_health_check(NOW + 40_000);
    let w1 = monitor.get_worker_health(1).unwrap();
    assert!(!w1.is_healthy);
    assert!(monitor.get_worker_health(0).unwrap().is_healthy);

    assert!(monitor.update_worker(1, WorkerEvent::Restarted, NOW + 41_000));
    let w1 = monitor.get_worker_health(1).unwrap();
    assert!(w1.is_healthy);
    assert_eq!(w1.restart_count, 1);
    assert!(monitor.workers_to_restart(NOW + 41_000).is_empty());
    assert!(!monitor.update_worker(7, WorkerEvent::Heartbeat, NOW));
}

#[test]
fn report_from_metrics_counts_restarts() {
    let metrics = vec![
        WorkerHealthMetrics {
            worker_id: 0,
            is_healthy: true,
            jobs_processed: 5,
            jobs_failed: 0,
            restart_count: 2,
            time_since_heartbeat_ms: 10,
            uptime_ms: 100,
        },
        WorkerHealthMetrics {
            worker_id: 1,
            is_healthy: true,
            jobs_processed: 1,
            jobs_failed: 3,
            restart_count: 1,
            time_since_heartbeat_ms: 60_000,
            uptime_ms: 100,
        },
    ];
    let report = HealthReportCard::from_worker_metrics(metrics, 30_000);
    assert_eq!(report.total_workers, 2);
    assert_eq!(report.healthy_workers, 1);
    assert_eq!(report.workers_needing_restart, 1);
    assert_eq!(report.total_jobs_processed, 6);
    assert_eq!(report.total_jobs_failed, 3);
    assert_eq!(report.total_restarts, 3);
    assert!(report.is_critical());
    assert_eq!(report.status_summary(), "CRITICAL");
}

#[test]
fn monitoring_starts_once() {
    let mut monitor = WorkerHealthMonitor::new(2, NOW);
    assert!(!monitor.monitoring_active);
    assert!(monitor.start_monitoring());
    assert!(!monitor.start_monitoring());
    assert!(monitor.monitoring_active);
    monitor.stop_monitoring();
    assert!(!monitor.monitoring_active);
    assert_eq!(monitor.worker_count(), 2);
    assert_eq!(monitor.check_interval_ms, 5000);
    assert_eq!(monitor.heartbeat_timeout_ms, 30_000);
}
