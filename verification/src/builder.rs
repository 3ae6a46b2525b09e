//! Configuration of a download run, the cache directory of a model, the file
//! sizes handed to the dispatcher, and the retry policy of the event forwarder.
//!
//! Starting the dispatcher, the forwarder and the orchestration (tasks and
//! channels) is done by the caller with what this module decides.

use vstd::prelude::*;
use std::path::PathBuf;
use crate::filesystem_evaluator::{cache_dir_name_of, model_cache_dir_name};
use crate::manifest::RepoManifest;
use crate::std_types::{joined_path, path_join};

verus! {

/// Configuration of a download run.
#[derive(Debug, Clone)]
pub struct InternalProgressBuilder {
    /// Models to download
    pub models: Vec<String>,
    /// Quantization filter
    pub quantization: Option<String>,
    /// Destination directory
    pub destination: Option<PathBuf>,
    /// Force redownload by clearing the cache
    pub force: bool,
    /// Verbose logging
    pub verbose: bool,
}

impl InternalProgressBuilder {
    /// An empty configuration.
    pub fn new() -> (b: Self)
        ensures
            b.models@.len() == 0,
            b.quantization is None,
            b.destination is None,
            !b.force,
            !b.verbose,
    {
        InternalProgressBuilder {
            models: Vec::new(),
            quantization: None,
            destination: None,
            force: false,
            verbose: false,
        }
    }

    /// Add a model to download.
    pub fn model(self, model: &str) -> (b: Self)
        ensures
            b.models@.map_values(|s: String| s@) == self.models@.map_values(|s: String| s@).push(model@),
            b.quantization == self.quantization,
            b.destination == self.destination,
            b.force == self.force,
            b.verbose == self.verbose,
    {
        let mut b = self;
        let ghost before = b.models@;
        b.models.push(String::from_str(model));
        assert(b.models@.map_values(|s: String| s@) =~= before.map_values(|s: String| s@).push(model@));
        b
    }

    /// Add several models to download, in order.
    pub fn models(self, models: Vec<String>) -> (b: Self)
        ensures
            b.models@ == self.models@ + models@,
            b.quantization == self.quantization,
            b.destination == self.destination,
            b.force == self.force,
            b.verbose == self.verbose,
    {
        let mut b = self;
        let ghost start = b.models@;
        let rest = models;
        let ghost all = rest@;
        let mut i: usize = 0;
        while i < rest.len()
            invariant
                i <= all.len(),
                rest@ == all,
                b.models@ == start + all.take(i as int),
                b.quantization == self.quantization,
                b.destination == self.destination,
                b.force == self.force,
                b.verbose == self.verbose,
            decreases all.len() - i,
        {
            b.models.push(rest[i].clone());
            assert(b.models@ =~= start + all.take(i + 1));
            i = i + 1;
        }
        assert(all.take(all.len() as int) =~= all);
        b
    }

    /// Set the quantization filter.
    pub fn quantization(self, quant: &str) -> (b: Self)
        ensures
            b.models == self.models,
            b.quantization matches Some(q) && q@ == quant@,
            b.destination == self.destination,
            b.force == self.force,
            b.verbose == self.verbose,
    {
        let mut b = self;
        b.quantization = Some(String::from_str(quant));
        b
    }

    /// Set the destination directory.
    pub fn destination(self, dest: PathBuf) -> (b: Self)
        ensures
            b.models == self.models,
            b.quantization == self.quantization,
            b.destination == Some(dest),
            b.force == self.force,
            b.verbose == self.verbose,
    {
        let mut b = self;
        b.destination = Some(dest);
        b
    }

    /// Force redownload by clearing the cache.
    pub fn force(self, force: bool) -> (b: Self)
        ensures
            b.models == self.models,
            b.quantization == self.quantization,
            b.destination == self.destination,
            b.force == force,
            b.verbose == self.verbose,
    {
        let mut b = self;
        b.force = force;
        b
    }

    /// Enable verbose logging.
    pub fn verbose(self, verbose: bool) -> (b: Self)
        ensures
            b.models == self.models,
            b.quantization == self.quantization,
            b.destination == self.destination,
            b.force == self.force,
            b.verbose == verbose,
    {
        let mut b = self;
        b.verbose = verbose;
        b
    }

    /// The models configured.
    pub fn get_models(&self) -> (r: &Vec<String>)
        ensures
            *r == self.models,
    {
        &self.models
    }

    /// The quantization configured.
    pub fn get_quantization(&self) -> (r: &Option<String>)
        ensures
            *r == self.quantization,
    {
        &self.quantization
    }

    /// The destination configured.
    pub fn get_destination(&self) -> (r: &Option<PathBuf>)
        ensures
            *r == self.destination,
    {
        &self.destination
    }

    /// Whether downloads are forced.
    pub fn get_force(&self) -> (b: bool)
        ensures
            b == self.force,
    {
        self.force
    }

    /// Whether logging is verbose.
    pub fn get_verbose(&self) -> (b: bool)
        ensures
            b == self.verbose,
    {
        self.verbose
    }
}

/// An empty download configuration.
pub fn internal_builder() -> (b: InternalProgressBuilder)
    ensures
        b.models@.len() == 0,
        b.quantization is None,
        b.destination is None,
        !b.force,
        !b.verbose,
{
    InternalProgressBuilder::new()
}

/// The cache directory of a model within the cache root:
/// "{root}/models--{org}--{name}".
pub fn get_model_cache_dir(cache_root: &PathBuf, model_id: &str) -> (p: PathBuf)
    ensures
        p == joined_path(*cache_root, cache_dir_name_of(model_id@)),
{
    let name = model_cache_dir_name(model_id);
    path_join(cache_root, name.as_str())
}

/// The (path, size) of every file of a manifest, in order, as the dispatcher
/// looks up expected sizes.
pub fn repo_file_sizes(manifest: &RepoManifest) -> (r: Vec<(String, u64)>)
    ensures
        r@.len() == manifest.files@.len(),
        forall|i: int|
            0 <= i < r@.len() ==> (#[trigger] r@[i]).0@ == manifest.files@[i].path@ && r@[i].1
                == manifest.files@[i].size,
{
    let mut r: Vec<(String, u64)> = Vec::new();
    let mut i: usize = 0;
    while i < manifest.files.len()
        invariant
            i <= manifest.files@.len(),
            r@.len() == i,
            forall|k: int|
                0 <= k < i ==> (#[trigger] r@[k]).0@ == manifest.files@[k].path@ && r@[k].1
                    == manifest.files@[k].size,
        decreases manifest.files@.len() - i,
    {
        r.push((manifest.files[i].path.clone(), manifest.files[i].size));
        i = i + 1;
    }
    r
}

/// What the event forwarder does after a failed send.
#[derive(Debug, Clone, Copy, PartialEq, Eq, Structural)]
pub enum ForwardAction {
    /// Retry after the given base delay in milliseconds (jitter is added by the caller)
    RetryAfter(u64),
    /// Drop this event and go on with the next one
    DropEvent,
    /// Too many consecutive failures: stop forwarding
    Shutdown,
}

/// Retry state of the forwarder that passes raw download events on to the
/// dispatcher: up to 5 retries per event with exponential backoff from 10 ms, and
/// a circuit breaker after 10 consecutive failures.
#[derive(Debug, Clone, Copy)]
pub struct ForwardRetry {
    /// Consecutive failed sends, over events
    pub consecutive_failures: u32,
    /// Failed sends of the current event
    pub retry_count: u32,
}

/// `2^k`.
pub open spec fn pow2(k: nat) -> nat
    decreases k,
{
    if k == 0 {
        1
    } else {
        2 * pow2((k - 1) as nat)
    }
}

/// The action after a failure that brings the counts to `consecutive` and `retry`.
pub open spec fn action_after_failure(consecutive: nat, retry: nat) -> ForwardAction {
    if consecutive >= 10 {
        ForwardAction::Shutdown
    } else if retry >= 5 {
        ForwardAction::DropEvent
    } else {
        ForwardAction::RetryAfter((10 * pow2((retry - 1) as nat)) as u64)
    }
}

impl ForwardRetry {
    /// No failures yet.
    pub fn new() -> (r: Self)
        ensures
            r.consecutive_failures == 0,
            r.retry_count == 0,
    {
        ForwardRetry { consecutive_failures: 0, retry_count: 0 }
    }

    /// A new event is about to be sent: its retries start from zero.
    pub fn start_event(&mut self)
        ensures
            final(self).retry_count == 0,
            final(self).consecutive_failures == old(self).consecutive_failures,
    {
        self.retry_count = 0;
    }

    /// The send succeeded: the circuit breaker resets.
    pub fn record_success(&mut self)
        ensures
            final(self).consecutive_failures == 0,
            final(self).retry_count == old(self).retry_count,
    {
        self.consecutive_failures = 0;
    }

    /// The send failed: both counts grow, then the forwarder shuts down at 10
    /// consecutive failures, drops the event at 5 retries, or retries after
    /// `10 * 2^(retry - 1)` ms.
    pub fn record_failure(&mut self) -> (a: ForwardAction)
        requires
            old(self).consecutive_failures < 10,
            old(self).retry_count < 5,
        ensures
            final(self).consecutive_failures == old(self).consecutive_failures + 1,
            final(self).retry_count == old(self).retry_count + 1,
            a == action_after_failure(
                final(self).consecutive_failures as nat,
                final(self).retry_count as nat,
            ),
    {
        self.retry_count = self.retry_count + 1;
        self.consecutive_failures = self.consecutive_failures + 1;
        if self.consecutive_failures >= 10 {
            return ForwardAction::Shutdown;
        }
        if self.retry_count >= 5 {
            return ForwardAction::DropEvent;
        }
        let mut delay: u64 = 10;
        let mut k: u32 = 1;
        while k < self.retry_count
            invariant
                1 <= k <= self.retry_count,
                self.retry_count < 5,
                delay == 10 * pow2((k - 1) as nat),
            decreases self.retry_count - k,
        {
            proof {
                reveal_with_fuel(pow2, 5);
            }
            delay = delay * 2;
            k = k + 1;
        }
        ForwardAction::RetryAfter(delay)
    }
}

} // verus!
