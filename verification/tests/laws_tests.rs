use std::time::SystemTime;

use progresshub::calculator::progress_calculator::{ModelData, ProgressCalculator};
use progresshub::calculator::progress_core::calculate_percentage;
use progresshub::calculator::snapshot::{from_manifest_and_progress, with_updated_file};
use progresshub::calculator::types::{ImmutableFileProgress, ImmutableModelProgress, ImmutableProgressState};

fn file(name: &str, done: u64, total: u64) -> ImmutableFileProgress {
    let mut id = im::OrdMap::new();
    id.insert("name".to_string(), name.to_string());
    ImmutableFileProgress {
        file_id: id,
        file_name: name.to_string(),
        bytes_downloaded: done,
        total_bytes: total,
        is_cached: false,
        chunks_downloaded: im::Vector::new(),
    }
}

#[test]
fn percentage_never_decreases_with_more_bytes() {
    let mut last = 0;
    for d in [0u64, 1, 2, 333, 500, 998, 999, 1000, 2000] {
        let v = calculate_percentage(d, 1000).value_tenths.unwrap();
        assert!(v >= last);
        assert!(v <= 1000);
        last = v;
    }
    assert!(calculate_percentage(1000, 1000).is_complete);
    assert!(!calculate_percentage(999, 1000).is_complete);
}

#[test]
fn recording_an_update_twice_changes_nothing_more() {
    let model_data = vec![(
        "m".to_string(),
        vec![("a.bin".to_string(), 10u64, 100u64, false), ("b.bin".to_string(), 0u64, 50u64, false)],
    )];
    let state = from_manifest_and_progress(&Vec::new(), &model_data);
    assert_eq!(state.overall_total_bytes, 150);

    let once = with_updated_file(state.clone(), "m", file("a.bin", 60, 100));
    let twice = with_updated_file(once.clone(), "m", file("a.bin", 60, 100));
    assert_eq!(once.overall_bytes_downloaded, 60);
    assert_eq!(twice.overall_bytes_downloaded, once.overall_bytes_downloaded);
    assert_eq!(twice.overall_total_bytes, once.overall_total_bytes);
    assert_eq!(twice.models.len(), once.models.len());
    assert_eq!(twice.models[0].files.len(), 2);

    // An update for an unknown model adds that model once
    let added = with_updated_file(state, "n", file("c.bin", 5, 5));
    let again = with_updated_file(added.clone(), "n", file("c.bin", 5, 5));
    assert_eq!(added.models.len(), 2);
    assert_eq!(again.models.len(), 2);
    assert_eq!(again.overall_bytes_downloaded, 15);
}

fn model(id: &str, done: u64, total: u64) -> ImmutableModelProgress {
    ImmutableModelProgress {
        model_id: id.to_string(),
        bytes_downloaded: done,
        total_bytes: total,
        files: im::Vector::new(),
        is_cached: false,
        metadata: im::OrdMap::new(),
    }
}

#[test]
fn model_counts_partition_the_models() {
    let mut models = im::Vector::new();
    models.push_back(model("pending", 0, 0));
    models.push_back(model("active", 5, 10));
    models.push_back(model("done", 10, 10));
    models.push_back(model("done2", 20, 10));
    let state = ImmutableProgressState {
        models,
        overall_bytes_downloaded: 35,
        overall_total_bytes: 30,
        manifest_data: im::OrdMap::new(),
        timestamp: SystemTime::now(),
    };
    let calc = ProgressCalculator::new(
        state,
        "Q4".to_string(),
        ModelData::new("m".to_string(), "f".to_string(), 4, 2),
    );
    let (pending, active, completed) = calc.model_counts();
    assert_eq!((pending, active, completed), (1, 1, 2));
    assert_eq!(pending + active + completed, calc.get_model_count());
}

#[test]
fn duration_display_and_partial_results() {
    let mut models = im::Vector::new();
    let mut files = im::Vector::new();
    files.push_back(file("a.bin", 100, 100));
    files.push_back(file("b.bin", 10, 100));
    files.push_back(file("c.bin", 0, 100));
    let mut partial = model("org/p", 110, 300);
    partial.files = files;
    models.push_back(partial);
    models.push_back(model("org/done", 10, 10));
    models.push_back(model("org/none", 0, 10));
    let state = ImmutableProgressState {
        models,
        overall_bytes_downloaded: 120,
        overall_total_bytes: 320,
        manifest_data: im::OrdMap::new(),
        timestamp: SystemTime::now(),
    };
    let calc = ProgressCalculator::new(state, "Q4".to_string(), ModelData::new("org/p".to_string(), "a.bin".to_string(), 3, 1));

    assert_eq!(calc.format_duration_seconds(45), "45s");
    assert_eq!(calc.format_duration_seconds(154), "2m 34s");
    assert_eq!(calc.format_duration_seconds(4500), "1h 15m");
    assert_eq!(calc.format_duration_seconds(3661), "1h 1m");

    let results = calc.to_model_results(std::time::Duration::from_secs(5)).into_vec();
    assert_eq!(results.len(), 3);
    match &results[0].status {
        progresshub::results::DownloadStatus::Partial { completed_files, total_files } => {
            assert_eq!((*completed_files, *total_files), (1, 3));
        }
        other => panic!("unexpected status {:?}", other),
    }
    assert!(matches!(results[1].status, progresshub::results::DownloadStatus::Complete));
    match &results[2].status {
        progresshub::results::DownloadStatus::Failed { error } => assert_eq!(error, "No bytes downloaded"),
        other => panic!("unexpected status {:?}", other),
    }
}

#[test]
fn files_with_equal_sort_keys_keep_their_order() {
    let mut files = im::Vector::new();
    files.push_back(file("x.bin", 10, 100));
    files.push_back(file("z.bin", 100, 100));
    files.push_back(file("y.bin", 0, 100));
    files.push_back(file("w.bin", 5, 200));
    files.push_back(file("v.bin", 50, 50));
    let mut m = model("org/m", 165, 550);
    m.files = files;
    let mut models = im::Vector::new();
    models.push_back(m);
    let state = ImmutableProgressState {
        models,
        overall_bytes_downloaded: 165,
        overall_total_bytes: 550,
        manifest_data: im::OrdMap::new(),
        timestamp: SystemTime::now(),
    };
    let calc = ProgressCalculator::new(state, "Q4".to_string(), ModelData::new("org/m".to_string(), "x.bin".to_string(), 1, 0));
    let names: Vec<String> = calc.progress_state.models[0].files.iter().map(|f| f.file_name.clone()).collect();
    assert_eq!(names, vec!["w.bin", "x.bin", "y.bin", "z.bin", "v.bin"]);
}

#[test]
fn download_summary_totals_and_reconciliation() {
    let mut exact = im::Vector::new();
    exact.push_back(file("a.bin", 100, 100));
    let mut m1 = model("org/a", 100, 100);
    m1.files = exact;
    let mut models = im::Vector::new();
    models.push_back(m1.clone());
    let state = ImmutableProgressState {
        models,
        overall_bytes_downloaded: 100,
        overall_total_bytes: 100,
        manifest_data: im::OrdMap::new(),
        timestamp: SystemTime::now(),
    };
    let calc = ProgressCalculator::new(state, "Q4".to_string(), ModelData::new("org/a".to_string(), "a.bin".to_string(), 1, 1));
    let summary = calc.to_download_summary(std::time::Duration::from_secs(3));
    assert_eq!(summary.total_downloaded_bytes, 100);
    assert_eq!(summary.total_expected_bytes, 100);
    assert_eq!(summary.total_duration, std::time::Duration::from_secs(3));
    assert!(summary.fully_reconciled);
    assert!(matches!(summary.models, progresshub::results::ZeroOneOrMany::One(_)));

    let mut short = im::Vector::new();
    short.push_back(file("b.bin", 40, 50));
    let mut m2 = model("org/b", 50, 50);
    m2.files = short;
    let mut models = im::Vector::new();
    models.push_back(m1);
    models.push_back(m2);
    let state = ImmutableProgressState {
        models,
        overall_bytes_downloaded: 150,
        overall_total_bytes: 150,
        manifest_data: im::OrdMap::new(),
        timestamp: SystemTime::now(),
    };
    let calc = ProgressCalculator::new(state, "Q4".to_string(), ModelData::new("org/b".to_string(), "b.bin".to_string(), 2, 1));
    let summary = calc.to_download_summary(std::time::Duration::from_secs(0));
    assert_eq!(summary.total_downloaded_bytes, 150);
    assert!(!summary.fully_reconciled);
    assert_eq!(summary.models.len(), 2);
}
