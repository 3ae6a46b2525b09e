use progresshub::calculator::progress_calculator::ProgressCalculator;
use progresshub::calculator::quantization_analyzer::{FileAnalysisInfo, QuantizationAnalyzer};

fn file(path: &str, xet: bool) -> FileAnalysisInfo {
    FileAnalysisInfo {
        path: path.to_string(),
        size: 100,
        xet_hash: if xet { Some("h".to_string()) } else { None },
    }
}

#[test]
fn normalize_quantization_names() {
    let a = QuantizationAnalyzer::new();
    assert_eq!(a.normalize_quantization("q4_k_m"), "Q4_K_M");
    assert_eq!(a.normalize_quantization("fp16"), "F16");
    assert_eq!(a.normalize_quantization("FP32"), "F32");
}

#[test]
fn gguf_patterns() {
    let a = QuantizationAnalyzer::new();
    assert_eq!(a.extract_quantization_from_gguf("model-Q4_K_M.gguf"), Some("Q4_K_M".to_string()));
    assert_eq!(a.extract_quantization_from_gguf("llama.q8_0.gguf"), Some("Q8_0".to_string()));
    assert_eq!(a.extract_quantization_from_gguf("model_F16.gguf"), Some("F16".to_string()));
    assert_eq!(
        a.extract_quantization_from_gguf("model-Q5_K_S-00001-of-00002.gguf"),
        Some("Q5_K_S".to_string())
    );
    assert_eq!(a.extract_quantization_from_gguf("model.gguf"), None);
}

#[test]
fn model_file_indicators() {
    let a = QuantizationAnalyzer::new();
    assert_eq!(
        a.extract_quantization_from_model_file("model-q4_0.safetensors"),
        Some("Q4_0".to_string())
    );
    assert_eq!(a.extract_quantization_from_model_file("pytorch_model.bin"), None);
    assert_eq!(a.extract_quantization("repo/model-Q8_0.gguf"), Some("Q8_0".to_string()));
    assert_eq!(a.extract_quantization("config.json"), None);
    assert!(a.is_non_model_file("tokenizer.json"));
    assert!(a.is_non_model_file("README.md"));
    assert!(!a.is_non_model_file("model.gguf"));
}

#[test]
fn analysis_counts_and_sorts() {
    let a = QuantizationAnalyzer::new();
    let files = vec![
        file("model-Q8_0.gguf", true),
        file("model-Q4_K_M.gguf", false),
        file("other-Q4_K_M.gguf", false),
        file("config.json", true),
        file("weights.bin", true),
    ];
    let analysis = a.analyze_files(&files);
    assert_eq!(analysis.available_quantizations, vec!["Q4_K_M".to_string(), "Q8_0".to_string()]);
    assert_eq!(
        analysis.quantization_file_counts,
        vec![("Q4_K_M".to_string(), 2usize), ("Q8_0".to_string(), 1usize)]
    );
    assert_eq!(analysis.total_quantized_files, 3);
    assert_eq!(analysis.xet_available_files, 2);
    assert_eq!(analysis.quic_only_files, 2);
    assert_eq!(a.count_quantized_files(&files, "q4_k_m"), 2);
    assert_eq!(ProgressCalculator::count_quantized_files(&files, "Q8_0"), 1);
}

#[test]
fn validation_of_requests() {
    let a = QuantizationAnalyzer::new();
    let files = vec![file("model-Q8_0.gguf", false), file("model-Q4_K_M.gguf", false)];
    let analysis = a.analyze_files(&files);
    assert!(a.validate_quantization_request(&analysis, "q8_0").is_ok());
    assert_eq!(
        a.validate_quantization_request(&analysis, "Q2_K"),
        Err("Quantization 'Q2_K' not found in 2 quantized model files. Available quantizations: Q4_K_M (1 file), Q8_0 (1 file)".to_string())
    );

    let none = a.analyze_files(&[file("pytorch_model.bin", false)]);
    assert_eq!(
        a.validate_quantization_request(&none, "Q4_0"),
        Err("Model does not contain quantized files. Quantization filtering is not applicable for this model.".to_string())
    );
    assert!(ProgressCalculator::validate_quantization(&analysis, "Q4_K_M").is_ok());
}

#[test]
fn counted_files_match_the_analysis_table() {
    let a = QuantizationAnalyzer::new();
    let files = vec![
        file("m-fp16.safetensors", false),
        file("m-F16.gguf", true),
        file("m-Q4_K_M.gguf", false),
        file("README.md", false),
        file("notes-Q4_K_M.txt", false),
    ];
    let analysis = a.analyze_files(&files);
    for q in ["f16", "FP16", "q4_k_m", "Q8_0"] {
        let wanted = a.normalize_quantization(q);
        let listed = analysis
            .quantization_file_counts
            .iter()
            .find(|(k, _)| *k == wanted)
            .map(|(_, n)| *n)
            .unwrap_or(0);
        assert_eq!(a.count_quantized_files(&files, q), listed, "{}", q);
    }
    assert_eq!(a.count_quantized_files(&files, "fp16"), 2);
    assert_eq!(a.count_quantized_files(&files, "Q8_0"), 0);
}
