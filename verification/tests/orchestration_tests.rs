use std::time::Instant;

use progresshub::manifest::{build_repo_manifest, HfFileInfo};
use progresshub::orchestration::{
    count_expected_files, file_key, order_for_submission, plan_model_jobs, should_skip_for_quantization,
    DownloadState, DownloadStatus, HealthReportCard, JobQueue, ModelProgress, OrchestratorConfig,
    OrchestratorStats, Priority, QueuedJob, skip_existing_file,
};

const MIB: u64 = 1048576;

fn job(priority: Priority, size: u64, name: &str) -> QueuedJob<String> {
    QueuedJob { priority, size, job: name.to_string() }
}

#[test]
fn config_validation_messages() {
    let ok = OrchestratorConfig::default();
    assert_eq!(ok.worker_count, 16);
    assert!(ok.validate().is_ok());

    let bad_workers = OrchestratorConfig { worker_count: 0, ..ok };
    assert_eq!(bad_workers.validate(), Err("worker_count must be 1-64, got 0".to_string()));

    let bad_http = OrchestratorConfig { max_concurrent_http: 300, ..ok };
    assert_eq!(bad_http.validate(), Err("max_concurrent_http must be 1-256, got 300".to_string()));

    let bad_queue = OrchestratorConfig { job_queue_size: 10001, ..ok };
    assert_eq!(bad_queue.validate(), Err("job_queue_size must be 1-10000, got 10001".to_string()));
}

#[test]
fn priority_from_file_size() {
    assert_eq!(Priority::from_file_size(MIB), Priority::Low);
    assert_eq!(Priority::from_file_size(MIB + 1), Priority::Medium);
    assert_eq!(Priority::from_file_size(100 * MIB), Priority::Medium);
    assert_eq!(Priority::from_file_size(100 * MIB + 1), Priority::High);
    assert_eq!(Priority::from_file_size(1024 * MIB), Priority::High);
    assert_eq!(Priority::from_file_size(1024 * MIB + 1), Priority::Critical);
}

#[test]
fn job_queue_orders_by_priority_then_size() {
    let mut q: JobQueue<String> = JobQueue::new();
    assert!(q.is_empty());
    q.push(job(Priority::Low, 10, "small"));
    q.push(job(Priority::High, 200, "high-small"));
    q.push(job(Priority::High, 900, "high-large"));
    q.push(job(Priority::Critical, 5, "critical"));
    q.push(job(Priority::Low, 10, "small-second"));
    assert_eq!(q.len(), 5);

    let order: Vec<String> = std::iter::from_fn(|| q.pop()).map(|j| j.job).collect();
    assert_eq!(order, vec!["critical", "high-large", "high-small", "small", "small-second"]);
    assert!(q.pop().is_none());
}

#[test]
fn submission_order_is_a_permutation_in_schedule_order() {
    let jobs = vec![
        job(Priority::Medium, 50, "m"),
        job(Priority::Critical, 1, "c"),
        job(Priority::Medium, 70, "m-large"),
    ];
    let ordered = order_for_submission(jobs);
    let names: Vec<&str> = ordered.iter().map(|j| j.job.as_str()).collect();
    assert_eq!(names, vec!["c", "m-large", "m"]);
}

#[test]
fn quantization_filter() {
    let q = Some("Q4_K_M".to_string());
    assert!(should_skip_for_quantization("model-Q8_0.gguf", &q));
    assert!(!should_skip_for_quantization("model-Q4_K_M.gguf", &q));
    assert!(!should_skip_for_quantization("config.json", &q));
    assert!(should_skip_for_quantization("model.gguf.part1", &q));
    assert!(!should_skip_for_quantization("model-Q8_0.gguf", &None));
    assert_eq!(file_key("org/m", "a.bin"), "org/m:a.bin");
}

fn entry(path: &str, size: u64) -> HfFileInfo {
    HfFileInfo { file_type: "file".to_string(), oid: "o".to_string(), size, path: path.to_string(), lfs: None }
}

#[test]
fn plan_keeps_matching_files_in_manifest_order() {
    let entries = vec![
        entry("config.json", 100),
        entry("model-Q8_0.gguf", 2000 * MIB),
        entry("model-Q4_K_M.gguf", 500 * MIB),
    ];
    let manifest = build_repo_manifest("org/m", &entries, None, None);
    let q = Some("Q4_K_M".to_string());

    let plans = plan_model_jobs("org/m", &manifest, &q);
    assert_eq!(plans.len(), 2);
    assert_eq!(plans[0].file_index, 0);
    assert_eq!(plans[0].priority, Priority::Low);
    assert_eq!(plans[0].state_key, "org/m:config.json");
    assert_eq!(plans[1].file_index, 2);
    assert_eq!(plans[1].priority, Priority::High);
    assert_eq!(plans[1].size, 500 * MIB);
    assert_eq!(count_expected_files(&manifest, &q), 2);
    assert_eq!(count_expected_files(&manifest, &None), 3);
    assert_eq!(plan_model_jobs("org/m", &manifest, &None).len(), 3);
}

#[test]
fn download_state_lifecycle() {
    let now = Instant::now();
    let mut s = DownloadState::queued(4096);
    assert_eq!(s.status, DownloadStatus::Queued);
    s.begin(3, now);
    assert_eq!(s.status, DownloadStatus::InProgress);
    assert_eq!(s.worker_id, Some(3));
    s.finish(false, 100);
    assert_eq!(s.status, DownloadStatus::Failed);
    assert_eq!(s.bytes_downloaded, 100);
    assert_eq!(s.total_bytes, 4096);

    let manifest = build_repo_manifest("a/b", &vec![entry("x.bin", 7), entry("y.bin", 8)], None, None);
    let p = ModelProgress::for_manifest("a/b", &manifest, now);
    assert_eq!(p.total_files, 2);
    assert_eq!(p.total_bytes, 15);
    assert_eq!(p.completed_files, 0);
}

#[test]
fn stats_count_skipped_as_completed() {
    let statuses = vec![
        DownloadStatus::Completed,
        DownloadStatus::Skipped,
        DownloadStatus::Failed,
        DownloadStatus::InProgress,
        DownloadStatus::Queued,
        DownloadStatus::Queued,
    ];
    let st = OrchestratorStats::from_states(&statuses, 2, 4, None);
    assert_eq!(st.total_jobs, 6);
    assert_eq!(st.completed, 2);
    assert_eq!(st.failed, 1);
    assert_eq!(st.in_progress, 1);
    assert_eq!(st.queued, 2);
    assert!(st.is_system_critical());
    assert_eq!(st.system_status(), "UNKNOWN");

    let report = HealthReportCard::from_worker_metrics(Vec::new(), 30_000);
    let st = OrchestratorStats::from_states(&statuses, 0, 0, Some(report));
    assert_eq!(st.system_status(), "CRITICAL");
}

#[test]
fn existing_file_of_expected_size_is_skipped() {
    assert_eq!(skip_existing_file(Some(500), 500), Some(500));
    assert_eq!(skip_existing_file(Some(499), 500), None);
    assert_eq!(skip_existing_file(None, 500), None);
    assert_eq!(skip_existing_file(Some(0), 0), Some(0));
}
