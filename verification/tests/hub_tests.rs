use std::path::PathBuf;

use progresshub::builder::{
    get_model_cache_dir, internal_builder, repo_file_sizes, ForwardAction, ForwardRetry,
};
use progresshub::channel::model_id_from_path;
use progresshub::hub::{download_outcome, style_for, ProgressHub, TextKind, ThemeColor, UnifiedArgs};
use progresshub::manifest::{build_repo_manifest, HfFileInfo};
use progresshub::results::ZeroOneOrMany;

fn args(models: &[&str], quant: Option<&str>) -> UnifiedArgs {
    UnifiedArgs {
        models: models.iter().map(|m| m.to_string()).collect(),
        quant: quant.map(|q| q.to_string()),
        force: false,
        tui: false,
        verbose: false,
    }
}

#[test]
fn test_internal_builder_creation() {
    let builder = internal_builder();
    assert!(builder.get_models().is_empty());
    assert!(builder.get_quantization().is_none());
    assert!(builder.get_destination().is_none());
    assert!(!builder.get_force());
    assert!(!builder.get_verbose());
}

#[test]
fn test_builder_fluent_api() {
    let builder = internal_builder().model("test-model").quantization("Q4_K_M").force(true);

    assert_eq!(builder.get_models(), &vec!["test-model"]);
    assert_eq!(builder.get_quantization(), &Some("Q4_K_M".to_string()));
    assert!(builder.get_force());
}

#[test]
fn args_validation_errors() {
    assert_eq!(args(&[], None).validate(), Err("At least one model must be specified".to_string()));
    assert_eq!(
        args(&["org/a", "   "], None).validate(),
        Err("Model name at index 1 cannot be empty or whitespace only".to_string())
    );
    assert_eq!(
        args(&["../etc"], None).validate(),
        Err("Model name '../etc' contains invalid path characters".to_string())
    );
    assert_eq!(
        args(&["org/a/"], None).validate(),
        Err("Model name 'org/a/' contains invalid path characters".to_string())
    );
    assert_eq!(
        args(&["org/a"], Some("  ")).validate(),
        Err("Quantization format cannot be empty when specified".to_string())
    );
    assert_eq!(args(&["org/a", "org/b"], Some("Q4_K_M")).validate(), Ok(()));
}

#[test]
fn args_normalization() {
    let a = args(&["  org/a ", "", "org/b"], None);
    assert_eq!(a.normalized_models(), vec!["org/a".to_string(), "org/b".to_string()]);

    match args(&["org/a"], None).models_as_one_or_many() {
        ZeroOneOrMany::One(m) => assert_eq!(m, "org/a"),
        _ => panic!("expected one model"),
    }
    let many = args(&["org/a", "org/b"], None).models_as_one_or_many();
    assert_eq!(many.len(), 2);
    assert!(!many.is_empty());
    assert_eq!(many.into_vec(), vec!["org/a".to_string(), "org/b".to_string()]);
}

#[test]
fn fluent_hub_builder() {
    let b = ProgressHub::builder().model("org/a").model("org/b").quantization("Q8_0").force(true);
    assert_eq!(b.models, vec!["org/a".to_string(), "org/b".to_string()]);
    let cli = b.clone().with_cli_progress();
    assert!(cli.check_models().is_ok());
    assert_eq!(cli.quantization, Some("Q8_0".to_string()));

    let empty = ProgressHub::builder().with_cli_progress();
    assert_eq!(empty.check_models(), Err("At least one model must be specified".to_string()));

    let r = b.build().destination(PathBuf::from("/tmp/models"));
    assert!(r.force);
    assert_eq!(r.destination, Some(PathBuf::from("/tmp/models")));
}

#[test]
fn theme_styles() {
    let s = style_for(TextKind::Success);
    assert_eq!(s.color, Some(ThemeColor::Green));
    assert!(s.intense);
    let m = style_for(TextKind::Muted);
    assert_eq!(m.color, Some(ThemeColor::White));
    assert!(m.dimmed);
    assert_eq!(style_for(TextKind::Plain).color, None);
}

#[test]
fn model_cache_dir_and_file_sizes() {
    let dir = get_model_cache_dir(&PathBuf::from("/cache"), "microsoft/DialoGPT-small");
    assert_eq!(dir, PathBuf::from("/cache/models--microsoft--DialoGPT-small"));

    let entries = vec![HfFileInfo {
        file_type: "file".to_string(),
        oid: "o".to_string(),
        size: 42,
        path: "a.bin".to_string(),
        lfs: None,
    }];
    let m = build_repo_manifest("x/y", &entries, None, None);
    assert_eq!(repo_file_sizes(&m), vec![("a.bin".to_string(), 42u64)]);
}

#[test]
fn forward_retry_backoff_and_breaker() {
    let mut r = ForwardRetry::new();
    r.start_event();
    assert_eq!(r.record_failure(), ForwardAction::RetryAfter(10));
    assert_eq!(r.record_failure(), ForwardAction::RetryAfter(20));
    assert_eq!(r.record_failure(), ForwardAction::RetryAfter(40));
    assert_eq!(r.record_failure(), ForwardAction::RetryAfter(80));
    assert_eq!(r.record_failure(), ForwardAction::DropEvent);
    r.start_event();
    r.record_success();
    assert_eq!(r.consecutive_failures, 0);

    let mut r = ForwardRetry { consecutive_failures: 9, retry_count: 0 };
    assert_eq!(r.record_failure(), ForwardAction::Shutdown);
}

#[test]
fn model_id_guess_from_path() {
    assert_eq!(model_id_from_path("cache/microsoft-DialoGPT/model.bin"), "microsoft-DialoGPT");
    assert_eq!(model_id_from_path("weights-v1.bin/x"), "unknown");
    assert_eq!(model_id_from_path("plain/path"), "unknown");
}

#[test]
fn builders_produce_run_configurations() {
    let cli = ProgressHub::builder().model("org/a").quantization("Q4_K_M").force(true).with_cli_progress();
    let b = cli.progress_builder().unwrap();
    assert_eq!(b.get_models(), &vec!["org/a".to_string()]);
    assert_eq!(b.get_quantization(), &Some("Q4_K_M".to_string()));
    assert!(b.get_force());
    assert!(!b.get_verbose());
    assert_eq!(
        ProgressHub::builder().with_cli_progress().progress_builder().err(),
        Some("At least one model must be specified".to_string())
    );

    let r = ProgressHub::builder().quantization("Q8_0").build();
    let b = r.progress_builder(vec!["x/y".to_string(), "z/w".to_string()]);
    assert_eq!(b.get_models().len(), 2);
    assert_eq!(b.get_quantization(), &Some("Q8_0".to_string()));
    assert!(b.get_destination().is_none());

    let outcome = download_outcome(None, std::time::Duration::from_secs(1));
    assert_eq!(
        outcome.err(),
        Some("No progress events received - download may have failed to start".to_string())
    );
}
