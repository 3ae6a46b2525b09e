//! The ordering chosen for each atomic operation of the orchestrator.

use vstd::prelude::*;
use super::AtomicOrder;

verus! {

/// Heartbeat timestamps are independent monitoring data: Relaxed.
pub fn heartbeat_timestamp_ordering() -> (o: AtomicOrder)
    ensures
        o == AtomicOrder::Relaxed,
{
    AtomicOrder::Relaxed
}

/// Job counters are statistics: Relaxed.
pub fn job_counter_ordering() -> (o: AtomicOrder)
    ensures
        o == AtomicOrder::Relaxed,
{
    AtomicOrder::Relaxed
}

/// Queue length is approximate backpressure data: Relaxed.
pub fn queue_length_ordering() -> (o: AtomicOrder)
    ensures
        o == AtomicOrder::Relaxed,
{
    AtomicOrder::Relaxed
}

/// Health status changes are published to monitoring threads: Release.
pub fn health_status_publication_ordering() -> (o: AtomicOrder)
    ensures
        o == AtomicOrder::Release,
{
    AtomicOrder::Release
}

/// The shutdown signal is published to workers: Release.
pub fn shutdown_signal_ordering() -> (o: AtomicOrder)
    ensures
        o == AtomicOrder::Release,
{
    AtomicOrder::Release
}

/// Workers consume the shutdown signal: Acquire.
pub fn shutdown_consumption_ordering() -> (o: AtomicOrder)
    ensures
        o == AtomicOrder::Acquire,
{
    AtomicOrder::Acquire
}

/// Monitoring threads consume the activation flag: Acquire.
pub fn health_monitoring_check_ordering() -> (o: AtomicOrder)
    ensures
        o == AtomicOrder::Acquire,
{
    AtomicOrder::Acquire
}

} // verus!
