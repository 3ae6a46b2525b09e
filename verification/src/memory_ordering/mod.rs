//! Memory-ordering rules for the orchestrator's atomics: which ordering each kind
//! of atomic operation needs, how orderings compare in strength, and the checks
//! that flag suspicious counter and timestamp updates.
//!
//! Orderings are described by [`AtomicOrder`], which mirrors the five variants of
//! the standard library's atomic ordering; callers map it to the real type.

pub mod documentation;

use vstd::prelude::*;
use crate::text::{append_str};

verus! {

/// An atomic memory ordering.
#[derive(Debug, Clone, Copy, PartialEq, Eq, Structural)]
pub enum AtomicOrder {
    /// No ordering constraints, only atomicity
    Relaxed,
    /// Release store
    Release,
    /// Acquire load
    Acquire,
    /// Acquire and release
    AcqRel,
    /// Sequentially consistent
    SeqCst,
}

/// Memory ordering validation utilities.
pub struct MemoryOrderingValidator;

/// Direction of counter operations for validation.
#[derive(Debug, Clone, Copy, PartialEq, Eq, Structural)]
pub enum CounterDirection {
    /// Counter is increment-only (jobs processed, events handled)
    Increment,
    /// Counter can both increment and decrement (queue length, capacity)
    Bidirectional,
    /// Counter is decrement-only (remaining work items)
    Decrement,
}

/// Purpose of fetch operations for ordering validation.
#[derive(Debug, Clone, Copy, PartialEq, Eq, Structural)]
pub enum FetchOperationPurpose {
    /// Simple counter that doesn't require synchronization
    SimpleCounter,
    /// Operation publishes state that other threads consume
    PublishingState,
    /// Operation requires full synchronization with other operations
    FullSynchronization,
}

/// Types of synchronization pairs for validation.
#[derive(Debug, Clone, Copy, PartialEq, Eq, Structural)]
pub enum SynchronizationPairType {
    /// Release store paired with Acquire load
    ReleaseAcquire,
    /// Producer thread coordination with consumer thread
    ProducerConsumer,
    /// Thread shutdown coordination between orchestrator and workers
    ThreadShutdown,
}

/// Strength of an ordering: Relaxed < Acquire = Release < AcqRel < SeqCst.
pub open spec fn strength(o: AtomicOrder) -> nat {
    match o {
        AtomicOrder::Relaxed => 0,
        AtomicOrder::Acquire => 1,
        AtomicOrder::Release => 1,
        AtomicOrder::AcqRel => 2,
        AtomicOrder::SeqCst => 3,
    }
}

/// The ordering a fetch operation needs for its purpose.
pub open spec fn expected_fetch_order(purpose: FetchOperationPurpose) -> AtomicOrder {
    match purpose {
        FetchOperationPurpose::SimpleCounter => AtomicOrder::Relaxed,
        FetchOperationPurpose::PublishingState => AtomicOrder::Release,
        FetchOperationPurpose::FullSynchronization => AtomicOrder::AcqRel,
    }
}

fn strength_of(o: AtomicOrder) -> (s: u8)
    ensures
        s == strength(o),
{
    match o {
        AtomicOrder::Relaxed => 0,
        AtomicOrder::Acquire => 1,
        AtomicOrder::Release => 1,
        AtomicOrder::AcqRel => 2,
        AtomicOrder::SeqCst => 3,
    }
}

impl MemoryOrderingValidator {
    /// Whether `actual` is at least as strong as `minimum`.
    pub fn is_stronger_ordering(actual: AtomicOrder, minimum: AtomicOrder) -> (b: bool)
        ensures
            b == (strength(actual) >= strength(minimum)),
    {
        strength_of(actual) >= strength_of(minimum)
    }

    /// The ordering a fetch operation with the given purpose should use: Relaxed
    /// for simple counters, Release for publishing state, AcqRel for full
    /// synchronization.
    pub fn expected_fetch_ordering(purpose: FetchOperationPurpose) -> (o: AtomicOrder)
        ensures
            o == expected_fetch_order(purpose),
    {
        match purpose {
            FetchOperationPurpose::SimpleCounter => AtomicOrder::Relaxed,
            FetchOperationPurpose::PublishingState => AtomicOrder::Release,
            FetchOperationPurpose::FullSynchronization => AtomicOrder::AcqRel,
        }
    }

    /// Validate the ordering chosen for a fetch operation: it is appropriate when it
    /// is the expected one or stronger.
    pub fn validate_fetch_operation_ordering(ordering: AtomicOrder, purpose: FetchOperationPurpose) -> (ok:
        bool)
        ensures
            ok == (ordering == expected_fetch_order(purpose) || strength(ordering) >= strength(
                expected_fetch_order(purpose),
            )),
    {
        let expected = Self::expected_fetch_ordering(purpose);
        ordering == expected || Self::is_stronger_ordering(ordering, expected)
    }

    /// Whether an increment-only counter at `value` is approaching overflow
    /// (within 1000 of `usize::MAX`); other counters are never flagged.
    pub fn counter_near_overflow(value: usize, direction: CounterDirection) -> (b: bool)
        ensures
            b == (direction == CounterDirection::Increment && value >= usize::MAX - 1000),
    {
        match direction {
            CounterDirection::Increment => value >= usize::MAX - 1000,
            _ => false,
        }
    }

    /// Whether a timestamp update from `current` to `new_value` goes backwards by
    /// more than a minute (both nonzero).
    pub fn timestamp_goes_backwards(current: u64, new_value: u64) -> (b: bool)
        ensures
            b == (new_value > 0 && current > 0 && new_value < (if current >= 60_000 {
                current - 60_000
            } else {
                0
            })),
    {
        new_value > 0 && current > 0 && new_value < current.saturating_sub(60_000)
    }

    /// Whether a release store writes the value the flag already holds.
    pub fn release_store_is_redundant(current: bool, value: bool) -> (b: bool)
        ensures
            b == (current == value),
    {
        current == value
    }

    /// Describe the synchronization relationship that a pair of operations
    /// establishes.
    pub fn validate_synchronization_pair(pair_type: SynchronizationPairType, operation: &str) -> (s:
        String)
        ensures
            s@ == sync_pair_label(pair_type) + " synchronization '"@ + operation@ + "' - "@
                + sync_pair_effect(pair_type),
    {
        let mut s = String::new();
        match pair_type {
            SynchronizationPairType::ReleaseAcquire => append_str(&mut s, "Release-Acquire"),
            SynchronizationPairType::ProducerConsumer => append_str(&mut s, "Producer-Consumer"),
            SynchronizationPairType::ThreadShutdown => append_str(&mut s, "Thread shutdown"),
        }
        append_str(&mut s, " synchronization '");
        append_str(&mut s, operation);
        append_str(&mut s, "' - ");
        match pair_type {
            SynchronizationPairType::ReleaseAcquire => append_str(&mut s, "establishing happens-before"),
            SynchronizationPairType::ProducerConsumer => append_str(&mut s, "data flow coordination"),
            SynchronizationPairType::ThreadShutdown => append_str(&mut s, "ensuring clean termination"),
        }
        s
    }
}

/// Name of a synchronization pattern.
pub open spec fn sync_pair_label(p: SynchronizationPairType) -> Seq<char> {
    match p {
        SynchronizationPairType::ReleaseAcquire => "Release-Acquire"@,
        SynchronizationPairType::ProducerConsumer => "Producer-Consumer"@,
        SynchronizationPairType::ThreadShutdown => "Thread shutdown"@,
    }
}

/// What a synchronization pattern achieves.
pub open spec fn sync_pair_effect(p: SynchronizationPairType) -> Seq<char> {
    match p {
        SynchronizationPairType::ReleaseAcquire => "establishing happens-before"@,
        SynchronizationPairType::ProducerConsumer => "data flow coordination"@,
        SynchronizationPairType::ThreadShutdown => "ensuring clean termination"@,
    }
}

/// Ordering strength is a total preorder: any two orderings compare, and
/// comparison is transitive.
pub proof fn lemma_strength_total_preorder(a: AtomicOrder, b: AtomicOrder, c: AtomicOrder)
    ensures
        strength(a) >= strength(b) || strength(b) >= strength(a),
        strength(a) >= strength(b) && strength(b) >= strength(c) ==> strength(a) >= strength(c),
        strength(a) >= strength(a),
{
}

} // verus!
