use progresshub::events::RawDownloadEvent;
use progresshub::memory_ordering::documentation;
use progresshub::memory_ordering::{
    AtomicOrder, CounterDirection, FetchOperationPurpose, MemoryOrderingValidator,
    SynchronizationPairType,
};

#[test]
fn test_memory_ordering_validation() {
    // Counter validation: a fresh counter is far from overflow
    assert!(!MemoryOrderingValidator::counter_near_overflow(0, CounterDirection::Increment));

    // Release store validation: publishing `true` over `false` is a real change
    assert!(!MemoryOrderingValidator::release_store_is_redundant(false, true));

    // Timestamp validation: 1000 -> 2000 moves forward
    assert!(!MemoryOrderingValidator::timestamp_goes_backwards(1000, 2000));

    // Fetch operation validation
    assert!(MemoryOrderingValidator::validate_fetch_operation_ordering(
        AtomicOrder::Relaxed,
        FetchOperationPurpose::SimpleCounter,
    ));

    // Synchronization pair validation
    assert_eq!(
        MemoryOrderingValidator::validate_synchronization_pair(
            SynchronizationPairType::ReleaseAcquire,
            "test_sync",
        ),
        "Release-Acquire synchronization 'test_sync' - establishing happens-before"
    );
}

#[test]
fn test_ordering_strength_comparison() {
    assert!(MemoryOrderingValidator::is_stronger_ordering(
        AtomicOrder::AcqRel,
        AtomicOrder::Relaxed
    ));
    assert!(MemoryOrderingValidator::is_stronger_ordering(
        AtomicOrder::SeqCst,
        AtomicOrder::Release
    ));
    assert!(!MemoryOrderingValidator::is_stronger_ordering(
        AtomicOrder::Relaxed,
        AtomicOrder::Acquire
    ));
}

#[test]
fn test_documentation_ordering_choices() {
    assert_eq!(documentation::heartbeat_timestamp_ordering(), AtomicOrder::Relaxed);
    assert_eq!(documentation::health_status_publication_ordering(), AtomicOrder::Release);
    assert_eq!(documentation::shutdown_consumption_ordering(), AtomicOrder::Acquire);
}

#[test]
fn fetch_ordering_too_weak_is_rejected() {
    assert!(!MemoryOrderingValidator::validate_fetch_operation_ordering(
        AtomicOrder::Relaxed,
        FetchOperationPurpose::PublishingState,
    ));
    assert!(MemoryOrderingValidator::validate_fetch_operation_ordering(
        AtomicOrder::SeqCst,
        FetchOperationPurpose::FullSynchronization,
    ));
    assert_eq!(
        MemoryOrderingValidator::expected_fetch_ordering(FetchOperationPurpose::FullSynchronization),
        AtomicOrder::AcqRel
    );
}

#[test]
fn counter_and_timestamp_checks() {
    assert!(MemoryOrderingValidator::counter_near_overflow(usize::MAX - 10, CounterDirection::Increment));
    assert!(MemoryOrderingValidator::timestamp_goes_backwards(100_000, 1000));
    assert!(!MemoryOrderingValidator::timestamp_goes_backwards(2000, 1000));
    assert!(MemoryOrderingValidator::release_store_is_redundant(true, true));
    assert_eq!(
        MemoryOrderingValidator::validate_synchronization_pair(
            SynchronizationPairType::ThreadShutdown,
            "stop",
        ),
        "Thread shutdown synchronization 'stop' - ensuring clean termination"
    );
}

#[test]
fn test_raw_download_event_creation() {
    let event = RawDownloadEvent::new(
        "microsoft/DialoGPT-small".to_string(),
        "Q4_K_M".to_string(),
        "https://huggingface.co/microsoft/DialoGPT-small/resolve/main/pytorch_model.bin"
            .to_string(),
        "pytorch_model.bin".to_string(),
        1024,
        2048,
    );

    assert_eq!(event.model_id, "microsoft/DialoGPT-small");
    assert_eq!(event.quant, "Q4_K_M");
    assert_eq!(event.local_filepath, "pytorch_model.bin");
    assert_eq!(event.bytes_downloaded, 1024);
    assert_eq!(event.total_bytes, 2048);
    assert_eq!(event.file_key(), "microsoft/DialoGPT-small:pytorch_model.bin");
}
