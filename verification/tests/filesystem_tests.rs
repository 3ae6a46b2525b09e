use std::path::PathBuf;
use std::time::{Instant, SystemTime};

use progresshub::filesystem_evaluator::{
    model_cache_dir_name, model_id_from_cache_dir_name, state_file_name, DownloadStateFile,
    FilesystemProgressEvaluator, ManifestFileInfo, ModelScan, ProgressScanBuilder, RangeFileEnumeration,
    RangeFileInfo, ScanEntryKind,
};

fn range(index: u32, size: u64) -> RangeFileInfo {
    RangeFileInfo { index, file_path: PathBuf::from(format!("/m/f.bin.part.h.{}", index)), file_size: size }
}

fn enumeration(files: Vec<RangeFileInfo>) -> RangeFileEnumeration {
    let total = files.iter().map(|f| f.file_size).sum();
    RangeFileEnumeration {
        base_file_path: PathBuf::from("/m/f.bin"),
        model_id: "org/m".to_string(),
        model_hash: "h".to_string(),
        range_files: files,
        total_bytes: total,
        max_range_index: None,
    }
}

#[test]
fn test_filesystem_evaluator_validates_progress() {
    let mut e = FilesystemProgressEvaluator::new();
    let r = e.validate_progress("microsoft/DialoGPT-small", "pytorch_model.bin", 1024, 2048);
    assert_eq!(r.bytes_downloaded, 1024);
    assert_eq!(r.total_bytes, 2048);
    assert!(r.file_exists);
    assert!(!r.is_complete);
    assert!(e.validate_progress("m", "f", 2048, 2048).is_complete);
}

#[test]
fn validated_progress_never_goes_backwards() {
    let mut e = FilesystemProgressEvaluator::new();
    assert_eq!(e.validate_progress("m", "a.bin", 600, 1000).bytes_downloaded, 600);
    // An out-of-order smaller report keeps the validated bytes
    let r = e.validate_progress("m", "a.bin", 100, 1000);
    assert_eq!(r.bytes_downloaded, 600);
    assert!(!r.is_complete);
    // Other files are validated on their own
    assert_eq!(e.validate_progress("m", "b.bin", 100, 1000).bytes_downloaded, 100);
    assert_eq!(e.validate_progress("n", "a.bin", 50, 1000).bytes_downloaded, 50);
    let r = e.validate_progress("m", "a.bin", 1000, 1000);
    assert_eq!(r.bytes_downloaded, 1000);
    assert!(r.is_complete);
}

#[test]
fn skipped_names_and_range_names() {
    let e = FilesystemProgressEvaluator::new();
    assert!(e.should_skip_file(".hidden"));
    assert!(e.should_skip_file("x.tmp"));
    assert!(e.should_skip_file("y.lock"));
    assert!(e.should_skip_file("progresshub_state"));
    assert!(e.should_skip_file("~backup"));
    assert!(!e.should_skip_file("model.bin"));

    assert_eq!(e.extract_range_index("model.safetensors.part.abc123.7", "model.safetensors", "abc123"), Some(7));
    assert_eq!(e.extract_range_index("model.safetensors.part.abc123.x", "model.safetensors", "abc123"), None);
    assert_eq!(e.extract_range_index("other.part.abc123.1", "model.safetensors", "abc123"), None);
    assert_eq!(
        e.extract_base_from_range_file("model.safetensors.part.abc123.0", "abc123"),
        Some("model.safetensors")
    );
    assert_eq!(e.extract_base_from_range_file("model.safetensors.part.zzz.0", "abc123"), None);
    assert_eq!(e.extract_base_from_range_file("model.safetensors", "abc123"), None);

    assert_eq!(e.classify_scan_entry("sub", true, "h"), ScanEntryKind::Skip);
    assert_eq!(e.classify_scan_entry("f.bin.part.h.2", false, "h"), ScanEntryKind::RangeGroup);
    assert_eq!(e.classify_scan_entry("f.bin", false, "h"), ScanEntryKind::Single);
}

#[test]
fn range_completeness() {
    let e = FilesystemProgressEvaluator::new();
    assert!(e.check_range_completeness(&enumeration(vec![range(1, 10), range(0, 10)])));
    assert!(!e.check_range_completeness(&enumeration(vec![range(0, 10)])));
    assert!(!e.check_range_completeness(&enumeration(vec![range(1, 10), range(2, 10)])));
    assert!(!e.check_range_completeness(&enumeration(vec![range(0, 10), range(2, 10)])));
    assert!(!e.can_resume_download(&enumeration(Vec::new())));
    assert!(e.can_resume_download(&enumeration(vec![range(3, 1)])));
}

#[test]
fn range_resume_info() {
    let e = FilesystemProgressEvaluator::new();
    let en = enumeration(vec![range(0, 100), range(1, 50)]);
    let info = e.calculate_range_resume_info(&en, 250, 100);
    assert_eq!(info.expected_range_count, 3);
    assert_eq!(info.complete_ranges.len(), 1);
    assert_eq!(info.complete_ranges[0].index, 0);
    assert_eq!(info.partial_ranges.len(), 1);
    assert_eq!(info.partial_ranges[0].index, 1);
    assert_eq!(info.missing_range_indices, vec![2]);
    assert_eq!(info.total_downloaded_bytes, 150);
    assert_eq!(info.total_remaining_bytes, 100);
    assert!(info.can_resume);
    assert!(!info.is_complete);
    assert_eq!(e.get_missing_range_indices(&info), vec![1, 2]);

    let done = e.calculate_range_resume_info(&enumeration(vec![range(0, 100), range(1, 100), range(2, 50)]), 250, 100);
    assert!(done.is_complete);
    assert_eq!(done.total_remaining_bytes, 0);
}

#[test]
fn manifest_and_model_completion() {
    let e = FilesystemProgressEvaluator::new();
    let manifest = vec![
        ManifestFileInfo { path: "a.bin".to_string(), size: 10, hash: None },
        ManifestFileInfo { path: "b.bin".to_string(), size: 20, hash: None },
        ManifestFileInfo { path: "c.bin".to_string(), size: 30, hash: None },
    ];
    let observed = vec![Some(10), Some(5), None];
    let dir = vec!["a.bin".to_string(), "b.bin".to_string(), "extra.txt".to_string()];
    let r = e.validate_manifest_completion("org/m", &manifest, &observed, &dir);
    assert_eq!(r.valid_files, vec!["a.bin".to_string()]);
    assert_eq!(r.invalid_files, vec![("b.bin".to_string(), 5u64, 20u64)]);
    assert_eq!(r.missing_files, vec!["c.bin".to_string()]);
    assert_eq!(r.unexpected_files, vec!["extra.txt".to_string()]);
    assert_eq!(r.total_valid_bytes, 10);
    assert_eq!(r.total_expected_bytes, 60);
    assert!(!r.is_complete);
    assert!(!e.validate_model_completion(&manifest, &observed));
    assert!(e.validate_model_completion(&manifest, &[Some(10), Some(20), Some(30)]));

    assert!(e.validate_range_completion(Some(100), 100));
    assert!(!e.validate_range_completion(Some(99), 100));
    assert!(!e.validate_range_completion(None, 0));
    assert!(FilesystemProgressEvaluator::part_file_ready_for_finalization(Some(5), 5));
    assert!(!FilesystemProgressEvaluator::part_file_ready_for_finalization(None, 5));
}

#[test]
fn cache_dir_names_round_trip() {
    assert_eq!(model_cache_dir_name("microsoft/DialoGPT-medium"), "models--microsoft--DialoGPT-medium");
    assert_eq!(model_id_from_cache_dir_name("models--microsoft--DialoGPT-medium"), "microsoft/DialoGPT-medium");
    let id = "org/model-v1";
    assert_eq!(model_id_from_cache_dir_name(&model_cache_dir_name(id)), id);
}

#[test]
fn state_file_name_sanitizes() {
    let state = DownloadStateFile {
        model_id: "test/model".to_string(),
        file_path: "dir/sub/te:st.bin".to_string(),
        bytes_downloaded: 100,
        total_bytes: 200,
        is_cached: false,
        client_type: "test".to_string(),
        timestamp: SystemTime::now(),
    };
    assert_eq!(state_file_name(&state), "test_model_te_st.bin.json");
}

#[test]
fn model_scan_accumulates() {
    let e = FilesystemProgressEvaluator::new();
    let mut scan = ModelScan::new();
    let dir = PathBuf::from("/cache/models--org--m");
    let legacy = e.single_file_progress(&dir.join("w.bin.part"), "w.bin.part", &dir, 40);
    assert_eq!(legacy.file_path, "w.bin");
    assert!(!legacy.is_complete);
    assert_eq!(legacy.legacy_part_size, 40);
    let cached = e.single_file_progress(&dir.join("config.json"), "config.json", &dir, 7);
    assert!(cached.is_complete && cached.from_cache);
    assert_eq!(cached.bytes_downloaded, 7);

    assert!(scan.begin_range_group("f.bin"));
    assert!(!scan.begin_range_group("f.bin"));
    let group = e.range_group_progress(
        "f.bin",
        dir.join("f.bin"),
        enumeration(vec![range(0, 100), range(1, 20)]),
    );
    assert_eq!(group.bytes_downloaded, 120);
    assert!(group.is_complete);

    scan.add_file(cached);
    scan.add_file(group);
    let m = scan.finish("org/m", dir.clone());
    assert_eq!(m.files.len(), 2);
    assert_eq!(m.model_bytes_downloaded, 127);
    assert!(!m.is_model_cached);

    let mut b = ProgressScanBuilder::new(&vec!["org/m".to_string()]);
    assert_eq!(b.requested_model_of("models--org--m", true), Some("org/m".to_string()));
    assert_eq!(b.requested_model_of("models--org--other", true), None);
    assert_eq!(b.requested_model_of("models--org--m", false), None);
    b.add_model(m);
    let result = b.finish(Instant::now(), PathBuf::from("/cache"));
    assert_eq!(result.models.len(), 1);
    assert_eq!(result.overall_bytes_downloaded, 127);
}
