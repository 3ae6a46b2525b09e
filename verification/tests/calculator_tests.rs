use std::time::SystemTime;

use progresshub::calculator::formatter::{format_bytes, format_percentage, get_percentage_rounded_str};
use progresshub::calculator::progress_calculator::{ModelData, ProgressCalculator};
use progresshub::calculator::progress_core::{
    aggregate_bytes, calculate_percentage, is_progress_complete, ProgressPercentage,
};
use progresshub::calculator::snapshot::{from_manifest_and_progress, with_updated_file};
use progresshub::calculator::types::{ImmutableFileProgress, ImmutableProgressState};

#[test]
fn test_core_calculations() {
    // Basic percentage calculations with decimal precision (in tenths of a percent)
    assert_eq!(calculate_percentage(0, 100).value_tenths, Some(0));
    assert_eq!(calculate_percentage(333, 1000).value_tenths, Some(333));

    // Edge cases
    let result = calculate_percentage(100, 0);
    assert!(result.is_indeterminate);

    let result = calculate_percentage(1500, 1000);
    assert_eq!(result.value_tenths, Some(1000));
    assert!(result.is_complete);
}

#[test]
fn test_immutable_types() {
    let mut file_metadata = im::OrdMap::new();
    file_metadata.insert("name".to_string(), "test.bin".to_string());

    let file_progress = ImmutableFileProgress {
        file_id: file_metadata,
        file_name: "test.bin".to_string(),
        bytes_downloaded: 500,
        total_bytes: 1000,
        is_cached: false,
        chunks_downloaded: im::Vector::new(),
    };

    assert!(!file_progress.is_complete());
    assert_eq!(file_progress.file_name, "test.bin");
}

#[test]
fn test_formatting() {
    let progress = ProgressPercentage {
        value_tenths: Some(452),
        is_complete: false,
        is_indeterminate: false,
    };

    assert!(format_percentage(&progress).contains("45.2"));
    assert_eq!(get_percentage_rounded_str(450, 1000), "45%");
    assert_eq!(format_bytes(1024), "1.00 KB");
}

#[test]
fn test_immutable_state_operations() {
    let manifest_data: Vec<(String, String)> = Vec::new();
    let model_data = vec![(
        "model1".to_string(),
        vec![("file1.bin".to_string(), 500u64, 1000u64, false)],
    )];

    let initial_state = from_manifest_and_progress(&manifest_data, &model_data);
    assert_eq!(initial_state.overall_bytes_downloaded, 500);

    // Test immutable update
    let mut file_metadata = im::OrdMap::new();
    file_metadata.insert("name".to_string(), "file1.bin".to_string());

    let file_update = ImmutableFileProgress {
        file_id: file_metadata,
        file_name: "file1.bin".to_string(),
        bytes_downloaded: 750,
        total_bytes: 1000,
        is_cached: false,
        chunks_downloaded: im::Vector::new(),
    };

    let updated_state = with_updated_file(initial_state.clone(), "model1", file_update);

    // Verify immutability - original unchanged, new state updated
    assert_eq!(initial_state.overall_bytes_downloaded, 500);
    assert_eq!(updated_state.overall_bytes_downloaded, 750);
}

#[test]
fn test_converter_utilities() {
    let model_data = vec![(500u64, 1000u64), (300u64, 600u64)];
    let (total_down, total_exp) = aggregate_bytes(&model_data);

    assert_eq!(total_down, 800);
    assert_eq!(total_exp, 1600);
    assert_eq!(calculate_percentage(total_down, total_exp).value_tenths, Some(500));
}

#[test]
fn test_progress_completion() {
    assert!(is_progress_complete(1000, 1000));
    assert!(!is_progress_complete(500, 1000));
    assert!(!is_progress_complete(1000, 0)); // Invalid total

    assert_eq!(calculate_percentage(500, 1000).value_tenths, Some(500));
    assert_eq!(calculate_percentage(1000, 0).value_tenths, None); // Zero division case
}

fn create_test_progress_calculator() -> ProgressCalculator {
    let progress_state = ImmutableProgressState {
        models: im::Vector::new(),
        overall_bytes_downloaded: 1024,
        overall_total_bytes: 2048,
        manifest_data: im::OrdMap::new(),
        timestamp: SystemTime::now(),
    };

    let model_data = ModelData::new(
        "microsoft/DialoGPT-small".to_string(),
        "pytorch_model.bin".to_string(),
        1,
        0,
    );

    ProgressCalculator::new(progress_state, "Q4_K_M".to_string(), model_data)
}

#[test]
fn test_percentage_formatted() {
    let calc = create_test_progress_calculator();
    let percentage = calc.percentage_formatted();
    // The formatter adds a leading space to align the percentage
    assert_eq!(percentage, " 50.0%");
}

#[test]
fn test_bytes_formatted() {
    let calc = create_test_progress_calculator();
    let bytes = calc.bytes_formatted();
    assert!(bytes.contains("/"));
    assert!(bytes.contains("1024") || bytes.contains("1.0"));
}

#[test]
fn test_quantization_info_formatted() {
    let calc = create_test_progress_calculator();
    let quant_info = calc.quantization_info_formatted();
    assert_eq!(quant_info, "Quantization: Q4_K_M");
}

#[test]
fn test_progress_key() {
    let calc = create_test_progress_calculator();
    let key = calc.progress_key();
    assert_eq!(key, "microsoft/DialoGPT-small:pytorch_model.bin");
}

#[test]
fn test_is_complete() {
    let mut calc = create_test_progress_calculator();
    assert!(!calc.is_complete());

    // Set to complete
    calc.progress_state.overall_bytes_downloaded = 2048;
    assert!(calc.is_complete());
}
