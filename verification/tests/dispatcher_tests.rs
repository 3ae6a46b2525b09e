use std::path::PathBuf;
use std::time::Instant;

use progresshub::central_dispatcher::{CentralProgressDispatcher, FinalizationLevel, FinalizationStep, ManifestInfo};
use progresshub::filesystem_evaluator::{ComprehensiveProgressScan, FileProgressData, ModelProgressData};

fn dispatcher() -> CentralProgressDispatcher {
    CentralProgressDispatcher::new(50, vec!["microsoft/DialoGPT-small".to_string()])
}

#[test]
fn test_central_dispatcher_creation() {
    let d = dispatcher();
    assert_eq!(d.debounce_interval_ms, 50);
    assert!(d.file_states.is_empty());
    assert_eq!(d.scan_interval_ms, 100);
    assert_eq!(d.max_scan_failures, 5);
    assert_eq!(d.quantization(), "Unknown");
    let md = d.build_model_data();
    assert_eq!(md.current_model_id, "Unknown");
    assert_eq!(md.total_models, 0);
    assert!(!d.all_models_complete());
}

#[test]
fn progress_updates_keep_one_state_per_file() {
    let mut d = dispatcher();
    d.update_progress_state_only("org/a", "Q4", "f1.bin", 10, 100, 1000);
    d.update_progress_state_only("org/a", "Q4", "f1.bin", 60, 100, 2000);
    d.update_progress_state_only("org/b", "Q4", "f2.bin", 5, 50, 2500);
    assert_eq!(d.file_states.len(), 2);
    let f1 = &d.file_states[0];
    assert_eq!(f1.file_key, "org/a:f1.bin");
    assert_eq!(f1.bytes_downloaded, 60);
    assert_eq!(f1.start_time_ms, 1000);
    assert_eq!(f1.last_update_ms, 2000);
    assert_eq!(d.quantization(), "Q4");

    let md = d.build_model_data();
    assert_eq!(md.current_model_id, "org/a");
    assert_eq!(md.current_filename, "f1.bin");
    assert_eq!(md.total_models, 2);
    assert_eq!(md.completed_models, 0);
}

#[test]
fn dispatch_is_debounced() {
    let mut d = dispatcher();
    assert!(d.decide_dispatch(1000));
    assert_eq!(d.last_dispatch_ms, Some(1000));
    assert!(!d.decide_dispatch(1049));
    assert_eq!(d.last_dispatch_ms, Some(1000));
    assert!(d.decide_dispatch(1050));
    assert_eq!(d.last_dispatch_ms, Some(1050));
}

#[test]
fn scans_are_rate_limited_and_broken_after_failures() {
    let mut d = dispatcher();
    assert!(d.decide_scan(0));
    d.record_scan_result(None, 0);
    assert_eq!(d.consecutive_scan_failures, 1);
    assert!(d.pending_scan);

    // No successful scan yet: every event may try again until the breaker opens.
    for t in 1..5u64 {
        assert!(d.decide_scan(t));
        d.record_scan_result(None, t);
    }
    assert_eq!(d.consecutive_scan_failures, 5);
    assert!(!d.decide_scan(10));
    assert!(d.pending_scan);

    let mut d = dispatcher();
    assert!(d.decide_scan(0));
    let scan = ComprehensiveProgressScan {
        models: Vec::new(),
        overall_bytes_downloaded: 0,
        overall_total_bytes: 0,
        scan_timestamp: Instant::now(),
        cache_root: PathBuf::from("/cache"),
    };
    d.record_scan_result(Some(scan), 0);
    assert_eq!(d.last_scan_ms, Some(0));
    assert!(!d.pending_scan);
    assert!(!d.decide_scan(99));
    assert!(d.pending_scan);
    assert!(d.decide_scan(100));
}

#[test]
fn finalization_and_completion() {
    let mut d = dispatcher();
    d.update_progress_state_only("org/a", "Q4", "f1.bin", 100, 100, 1);
    d.update_progress_state_only("org/a", "Q4", "f2.bin", 100, 100, 1);
    assert!(d.record_range_complete("org/a:f1.bin", 0, 99));
    assert_eq!(d.file_states[0].ranges_completed, vec![(0u64, 99u64)]);
    assert!(!d.record_range_complete("org/a:missing", 0, 1));

    assert!(!d.model_complete("org/a"));
    assert!(d.set_file_finalized("org/a:f1.bin", true));
    assert!(!d.model_complete("org/a"));
    assert!(d.set_file_finalized("org/a:f2.bin", true));
    assert!(d.model_complete("org/a"));
    assert!(d.all_models_complete());
    assert!(!d.model_complete("org/none"));
    assert_eq!(d.build_model_data().completed_models, 1);

    // Only files served from cache are finalized without touching the disk.
    assert!(!d.finalize_cached_file("org/a:f1.bin"));
    assert!(!d.finalize_cached_file("org/a:unknown"));
}

#[test]
fn progress_state_from_scan_uses_manifest_totals() {
    let mut d = dispatcher();
    d.manifest_info = Some(ManifestInfo { model_id: "org/a".to_string(), total_files: 1, total_bytes: 500 });
    d.repo_file_sizes = Some(vec![("f.bin".to_string(), 400u64)]);
    let file = FileProgressData {
        file_path: "f.bin".to_string(),
        local_file_path: PathBuf::from("/cache/models--org--a/f.bin"),
        bytes_downloaded: 100,
        total_bytes: 120,
        is_complete: false,
        from_cache: false,
        range_files: Vec::new(),
        legacy_part_size: 0,
    };
    let model = ModelProgressData {
        model_id: "org/a".to_string(),
        files: vec![file],
        model_bytes_downloaded: 100,
        model_total_bytes: 120,
        is_model_cached: false,
        model_cache_dir: PathBuf::from("/cache/models--org--a"),
    };
    let scan = ComprehensiveProgressScan {
        models: vec![model],
        overall_bytes_downloaded: 100,
        overall_total_bytes: 120,
        scan_timestamp: Instant::now(),
        cache_root: PathBuf::from("/cache"),
    };
    d.record_scan_result(Some(scan), 0);
    let s = d.build_immutable_progress_state(&PathBuf::from("/cache"));
    assert_eq!(s.overall_bytes_downloaded, 100);
    assert_eq!(s.overall_total_bytes, 500);
    assert_eq!(s.models.len(), 1);
    let m = &s.models[0];
    assert_eq!(m.total_bytes, 500);
    assert_eq!(m.files[0].total_bytes, 400);
    assert_eq!(m.files[0].file_name, "f.bin");
}

#[test]
fn progress_state_without_scan() {
    let mut d = dispatcher();
    d.update_progress_state_only("org/a", "Q4", "f1.bin", 10, 100, 1);
    d.update_progress_state_only("org/a", "Q4", "f2.bin", 20, 200, 1);
    // Before the breaker opens, nothing is shown
    let s = d.build_immutable_progress_state(&PathBuf::from("/cache"));
    assert_eq!(s.models.len(), 0);
    assert_eq!(s.overall_total_bytes, 0);

    d.consecutive_scan_failures = 5;
    let s = d.build_immutable_progress_state(&PathBuf::from("/cache"));
    assert_eq!(s.models.len(), 1);
    assert_eq!(s.overall_bytes_downloaded, 30);
    assert_eq!(s.overall_total_bytes, 300);
    assert_eq!(s.models[0].files.len(), 2);

    let calc = d.create_progress_snapshot(&PathBuf::from("/cache"));
    assert_eq!(calc.quantization, "Q4");
    assert_eq!(calc.progress_state.overall_bytes_downloaded, 30);
    assert_eq!(calc.progress_state.overall_total_bytes, 300);
    assert_eq!(calc.progress_state.models.len(), 1);
    assert_eq!(calc.model_data.current_model_id, "org/a");
    assert_eq!(calc.model_data.total_models, 1);
    let names: Vec<String> = calc.progress_state.models[0].files.iter().map(|f| f.file_name.clone()).collect();
    assert_eq!(names, vec!["f2.bin".to_string(), "f1.bin".to_string()], "larger incomplete file first");
}

#[test]
fn finalization_steps() {
    let mut d = dispatcher();
    d.update_progress_state_only("org/a", "Q4", "f1.bin", 100, 100, 1);
    d.update_progress_state_only("org/a", "Q4", "f2.bin", 10, 10, 1);
    d.file_states[1].from_cache = true;

    let range = FinalizationLevel::RangeComplete { range_start: 0, range_end: 49 };
    match d.begin_finalization(&range, "org/a:f1.bin") {
        FinalizationStep::CheckRange { range_start, range_end } => assert_eq!((range_start, range_end), (0, 49)),
        other => panic!("unexpected step {:?}", other),
    }
    d.range_checked("org/a:f1.bin", 0, 49, false);
    assert!(d.file_states[0].ranges_completed.is_empty());
    d.range_checked("org/a:f1.bin", 0, 49, true);
    assert_eq!(d.file_states[0].ranges_completed, vec![(0u64, 49u64)]);

    let done = FinalizationLevel::FileComplete { final_file_path: "/m/f1.bin".to_string() };
    match d.begin_finalization(&done, "org/a:f1.bin") {
        FinalizationStep::FinalizeFile { final_file_path } => assert_eq!(final_file_path, "/m/f1.bin"),
        other => panic!("unexpected step {:?}", other),
    }
    assert_eq!(
        d.file_checked("org/a:f1.bin", "/m/f1.bin", false),
        Err("File finalization failed for /m/f1.bin: .part file missing or size mismatch".to_string())
    );
    assert!(!d.file_states[0].is_file_finalized);
    assert_eq!(d.file_checked("org/a:f1.bin", "/m/f1.bin", true), Ok(()));

    // A cached file needs no work on disk
    let cached = FinalizationLevel::FileComplete { final_file_path: "/m/f2.bin".to_string() };
    assert!(matches!(d.begin_finalization(&cached, "org/a:f2.bin"), FinalizationStep::Done));
    assert!(d.file_states[1].is_file_finalized);
    assert!(d.model_complete("org/a"));
    assert!(matches!(
        d.begin_finalization(&FinalizationLevel::AllModelsComplete, "org/a:f2.bin"),
        FinalizationStep::Done
    ));
}

#[test]
fn earliest_start_over_tracked_files() {
    let mut d = dispatcher();
    assert_eq!(d.earliest_start_ms(), None);
    d.update_progress_state_only("org/a", "Q4", "f1.bin", 1, 10, 300);
    d.update_progress_state_only("org/a", "Q4", "f2.bin", 1, 10, 100);
    d.update_progress_state_only("org/a", "Q4", "f1.bin", 5, 10, 50);
    assert_eq!(d.earliest_start_ms(), Some(100));
}
