//! Download orchestration: configuration, job priorities and scheduling order,
//! download state bookkeeping and worker health accounting.
//!
//! The orchestrator's threads, channels and timers live with the caller; this
//! module holds the decisions they make, as plain values.

use vstd::prelude::*;
use crate::manifest::{FileInfo, RepoManifest};
use crate::text::{
    append_str, contains_str, decimal, ends_with, has_substring, has_suffix, write_decimal,
};
use std::time::Instant;
use vstd::multiset::Multiset;

verus! {

broadcast use vstd::seq_lib::group_to_multiset_ensures;

/// Configuration for the download orchestrator.
#[derive(Debug, Clone, Copy)]
pub struct OrchestratorConfig {
    /// Number of worker threads (1-64)
    pub worker_count: usize,
    /// Maximum concurrent HTTP connections (1-256)
    pub max_concurrent_http: usize,
    /// Job queue size for backpressure (1-10000)
    pub job_queue_size: usize,
}

impl Default for OrchestratorConfig {
    fn default() -> (c: Self)
        ensures
            c.worker_count == 16,
            c.max_concurrent_http == 32,
            c.job_queue_size == 1000,
    {
        OrchestratorConfig { worker_count: 16, max_concurrent_http: 32, job_queue_size: 1000 }
    }
}

/// The first configuration value out of range, as the message that reports it.
pub open spec fn config_error(c: OrchestratorConfig) -> Option<Seq<char>> {
    if c.worker_count == 0 || c.worker_count > 64 {
        Some("worker_count must be 1-64, got "@ + decimal(c.worker_count as nat))
    } else if c.max_concurrent_http == 0 || c.max_concurrent_http > 256 {
        Some("max_concurrent_http must be 1-256, got "@ + decimal(c.max_concurrent_http as nat))
    } else if c.job_queue_size == 0 || c.job_queue_size > 10000 {
        Some("job_queue_size must be 1-10000, got "@ + decimal(c.job_queue_size as nat))
    } else {
        None
    }
}

fn range_message(prefix: &str, value: usize) -> (s: String)
    ensures
        s@ == prefix@ + decimal(value as nat),
{
    let mut s = String::new();
    append_str(&mut s, prefix);
    write_decimal(&mut s, value as u64);
    s
}

impl OrchestratorConfig {
    /// Validate the configuration: workers 1-64, HTTP connections 1-256 and queue
    /// size 1-10000; the error names the first value out of range.
    pub fn validate(&self) -> (r: Result<(), String>)
        ensures
            r is Ok <==> config_error(*self) is None,
            r matches Err(msg) ==> config_error(*self) == Some(msg@),
    {
        if self.worker_count == 0 || self.worker_count > 64 {
            return Err(range_message("worker_count must be 1-64, got ", self.worker_count));
        }
        if self.max_concurrent_http == 0 || self.max_concurrent_http > 256 {
            return Err(
                range_message("max_concurrent_http must be 1-256, got ", self.max_concurrent_http),
            );
        }
        if self.job_queue_size == 0 || self.job_queue_size > 10000 {
            return Err(range_message("job_queue_size must be 1-10000, got ", self.job_queue_size));
        }
        Ok(())
    }
}

/// Priority levels for download jobs.
#[derive(Debug, Clone, Copy, PartialEq, Eq, Structural, PartialOrd, Ord, Hash)]
pub enum Priority {
    /// Small config files (up to 1 MiB) - lowest priority
    Low,
    /// Medium files (up to 100 MiB)
    Medium,
    /// Large files (up to 1 GiB)
    High,
    /// Huge files (above 1 GiB) - highest priority
    Critical,
}

impl Priority {
    /// The level as a number, from 0 (`Low`) to 3 (`Critical`).
    pub open spec fn rank(self) -> nat {
        match self {
            Priority::Low => 0,
            Priority::Medium => 1,
            Priority::High => 2,
            Priority::Critical => 3,
        }
    }

    /// The priority of a file of `size` bytes.
    pub open spec fn of_size(size: u64) -> Priority {
        if size <= 1_048_576 {
            Priority::Low
        } else if size <= 104_857_600 {
            Priority::Medium
        } else if size <= 1_073_741_824 {
            Priority::High
        } else {
            Priority::Critical
        }
    }

    /// Determine the priority of a file from its size.
    pub fn from_file_size(size: u64) -> (p: Self)
        ensures
            p == Self::of_size(size),
    {
        if size <= 1_048_576 {
            Priority::Low
        } else if size <= 104_857_600 {
            Priority::Medium
        } else if size <= 1_073_741_824 {
            Priority::High
        } else {
            Priority::Critical
        }
    }
}

/// A larger file never gets a lower priority than a smaller one.
pub proof fn lemma_priority_monotone(a: u64, b: u64)
    requires
        a <= b,
    ensures
        Priority::of_size(a).rank() <= Priority::of_size(b).rank(),
{
}

/// Scheduling precedence: a job of priority `p1` and size `s1` is started no later
/// than one of priority `p2` and size `s2` when its priority is higher, or the
/// priorities are equal and it is at least as large.
pub open spec fn goes_before(p1: Priority, s1: u64, p2: Priority, s2: u64) -> bool {
    p1.rank() > p2.rank() || (p1.rank() == p2.rank() && s1 >= s2)
}

/// Precedence orders every pair of jobs and is transitive.
pub proof fn lemma_goes_before_total_preorder(
    p1: Priority,
    s1: u64,
    p2: Priority,
    s2: u64,
    p3: Priority,
    s3: u64,
)
    ensures
        goes_before(p1, s1, p2, s2) || goes_before(p2, s2, p1, s1),
        goes_before(p1, s1, p2, s2) && goes_before(p2, s2, p3, s3) ==> goes_before(p1, s1, p3, s3),
{
}

/// A job waiting to be scheduled, with the keys it is scheduled by.
#[derive(Debug, Clone)]
pub struct QueuedJob<T> {
    /// Priority of the job
    pub priority: Priority,
    /// Size of the file in bytes
    pub size: u64,
    /// The job itself
    pub job: T,
}

/// `a` is scheduled no later than `b`.
pub open spec fn job_goes_before<T>(a: QueuedJob<T>, b: QueuedJob<T>) -> bool {
    goes_before(a.priority, a.size, b.priority, b.size)
}

/// Jobs in scheduling order: each goes before every later one.
pub open spec fn in_schedule_order<T>(s: Seq<QueuedJob<T>>) -> bool {
    forall|i: int, j: int| 0 <= i < j < s.len() ==> job_goes_before(#[trigger] s[i], #[trigger] s[j])
}

/// A priority queue of download jobs: higher priority first, larger files first
/// within a priority, and jobs with equal keys in the order they were pushed.
pub struct JobQueue<T> {
    jobs: Vec<QueuedJob<T>>,
}

impl<T> View for JobQueue<T> {
    type V = Seq<QueuedJob<T>>;

    closed spec fn view(&self) -> Seq<QueuedJob<T>> {
        self.jobs@
    }
}

impl<T> JobQueue<T> {
    /// The queue holds its jobs in scheduling order.
    pub open spec fn wf(&self) -> bool {
        in_schedule_order(self@)
    }

    /// An empty queue.
    pub fn new() -> (q: Self)
        ensures
            q.wf(),
            q@ == Seq::<QueuedJob<T>>::empty(),
    {
        JobQueue { jobs: Vec::new() }
    }

    /// Number of queued jobs.
    pub fn len(&self) -> (n: usize)
        ensures
            n == self@.len(),
    {
        self.jobs.len()
    }

    /// Whether no job is queued.
    pub fn is_empty(&self) -> (b: bool)
        ensures
            b <==> self@.len() == 0,
    {
        self.jobs.len() == 0
    }

    /// Queue a job: it is placed after every queued job that goes before it and
    /// before every queued job that it strictly precedes.
    pub fn push(&mut self, item: QueuedJob<T>)
        requires
            old(self).wf(),
        ensures
            final(self).wf(),
            exists|i: int|
                0 <= i <= old(self)@.len() && final(self)@ == old(self)@.insert(i, item) && (forall|
                    k: int,
                | 0 <= k < i ==> job_goes_before(#[trigger] old(self)@[k], item)) && (forall|k: int|
                    i <= k < old(self)@.len() ==> !job_goes_before(#[trigger] old(self)@[k], item)),
            final(self)@.to_multiset() == old(self)@.to_multiset().insert(item),
    {
        let mut i: usize = 0;
        let n = self.jobs.len();
        while i < n && goes_before_exec(&self.jobs[i], &item)
            invariant
                i <= n,
                n == self.jobs@.len(),
                self.jobs@ == old(self).jobs@,
                forall|k: int| 0 <= k < i ==> job_goes_before(#[trigger] self.jobs@[k], item),
            decreases n - i,
        {
            i = i + 1;
        }
        proof {
            let s = self.jobs@;
            assert forall|k: int| i <= k < s.len() implies !job_goes_before(#[trigger] s[k], item) by {
                assert(!job_goes_before(s[i as int], item));
                if k > i {
                    assert(job_goes_before(s[i as int], s[k]));
                }
            }
        }
        let ghost before = self.jobs@;
        self.jobs.insert(i, item);
        proof {
            let s = self.jobs@;
            assert forall|a: int, b: int| 0 <= a < b < s.len() implies job_goes_before(
                #[trigger] s[a],
                #[trigger] s[b],
            ) by {
                if a < i && b < i {
                    assert(s[a] == before[a] && s[b] == before[b]);
                } else if a < i && b == i {
                } else if a < i && b > i {
                    assert(s[a] == before[a] && s[b] == before[b - 1]);
                    assert(a < b - 1 || a == b - 1);
                } else if a == i {
                    assert(s[b] == before[b - 1]);
                    assert(!job_goes_before(before[b - 1], item));
                } else {
                    assert(s[a] == before[a - 1] && s[b] == before[b - 1]);
                }
            }
        }
    }

    /// Take the job that goes first, if any.
    pub fn pop(&mut self) -> (r: Option<QueuedJob<T>>)
        requires
            old(self).wf(),
        ensures
            final(self).wf(),
            old(self)@.len() == 0 ==> r is None && final(self)@ == old(self)@,
            old(self)@.len() > 0 ==> r == Some(old(self)@[0]) && final(self)@ == old(self)@.drop_first(),
            r matches Some(job) ==> forall|k: int|
                0 <= k < final(self)@.len() ==> job_goes_before(job, #[trigger] final(self)@[k]),
    {
        if self.jobs.len() == 0 {
            None
        } else {
            let ghost before = self.jobs@;
            let job = self.jobs.remove(0);
            assert(self.jobs@ =~= before.drop_first());
            proof {
                assert forall|k: int| 0 <= k < self.jobs@.len() implies job_goes_before(
                    job,
                    #[trigger] self.jobs@[k],
                ) by {
                    assert(self.jobs@[k] == before[k + 1]);
                }
            }
            Some(job)
        }
    }

    /// The queued jobs in the order they will be taken.
    pub fn into_vec(self) -> (v: Vec<QueuedJob<T>>)
        ensures
            v@ == self@,
    {
        self.jobs
    }
}

fn goes_before_exec<T>(a: &QueuedJob<T>, b: &QueuedJob<T>) -> (r: bool)
    ensures
        r == job_goes_before(*a, *b),
{
    let ra = priority_rank(a.priority);
    let rb = priority_rank(b.priority);
    ra > rb || (ra == rb && a.size >= b.size)
}

fn priority_rank(p: Priority) -> (r: u8)
    ensures
        r == p.rank(),
{
    match p {
        Priority::Low => 0,
        Priority::Medium => 1,
        Priority::High => 2,
        Priority::Critical => 3,
    }
}

/// Put jobs in the order they are submitted to the workers: higher priority
/// first, larger files first within a priority.
pub fn order_for_submission<T>(jobs: Vec<QueuedJob<T>>) -> (r: Vec<QueuedJob<T>>)
    ensures
        in_schedule_order(r@),
        r@.to_multiset() == jobs@.to_multiset(),
{
    let mut queue: JobQueue<T> = JobQueue::new();
    let mut rest = jobs;
    let ghost initial = rest@;
    assert(queue@.to_multiset() =~= Multiset::<QueuedJob<T>>::empty()) by {
        broadcast use vstd::multiset::group_multiset_axioms;
    }
    while rest.len() > 0
        invariant
            queue.wf(),
            queue@.to_multiset().add(rest@.to_multiset()) == initial.to_multiset(),
        decreases rest@.len(),
    {
        let ghost before_rest = rest@;
        let ghost before_queue = queue@;
        let item = rest.pop().unwrap();
        assert(before_rest =~= rest@.push(item));
        queue.push(item);
        assert(queue@.to_multiset().add(rest@.to_multiset()) =~= initial.to_multiset()) by {
            broadcast use vstd::multiset::group_multiset_axioms;
        }
    }
    assert(queue@.to_multiset() =~= initial.to_multiset()) by {
        broadcast use vstd::multiset::group_multiset_axioms;
        assert(rest@ =~= Seq::<QueuedJob<T>>::empty());
    }
    queue.into_vec()
}


/// The key under which a file's download state is tracked: `"{repo_id}:{path}"`.
pub open spec fn file_key_of(repo_id: Seq<char>, path: Seq<char>) -> Seq<char> {
    repo_id + ":"@ + path
}

/// Build the state key of a file.
pub fn file_key(repo_id: &str, path: &str) -> (k: String)
    ensures
        k@ == file_key_of(repo_id@, path@),
{
    let mut k = String::new();
    append_str(&mut k, repo_id);
    append_str(&mut k, ":");
    append_str(&mut k, path);
    k
}

/// A file is left out of a download with a quantization filter when it is a GGUF
/// file (its path ends with or contains ".gguf") whose path does not contain the
/// requested quantization.
pub open spec fn skipped_by_quantization(path: Seq<char>, quantization: Option<String>) -> bool {
    match quantization {
        Some(q) => (has_suffix(path, ".gguf"@) || has_substring(path, ".gguf"@)) && !has_substring(
            path,
            q@,
        ),
        None => false,
    }
}

/// Whether the quantization filter leaves the file at `path` out.
pub fn should_skip_for_quantization(path: &str, quantization: &Option<String>) -> (b: bool)
    ensures
        b == skipped_by_quantization(path@, *quantization),
{
    match quantization {
        Some(q) => {
            let is_gguf = ends_with(path, ".gguf") || contains_str(path, ".gguf");
            is_gguf && !contains_str(path, q.as_str())
        },
        None => false,
    }
}

/// The indices, among the first `n`, of the files that the filter keeps, in order.
pub open spec fn kept_file_indices(files: Seq<FileInfo>, quantization: Option<String>, n: nat) -> Seq<
    int,
>
    decreases n,
{
    if n == 0 {
        Seq::empty()
    } else {
        let rest = kept_file_indices(files, quantization, (n - 1) as nat);
        if skipped_by_quantization(files[n - 1].path@, quantization) {
            rest
        } else {
            rest.push(n - 1)
        }
    }
}

/// A download job planned for one file of a manifest.
#[derive(Debug, Clone)]
pub struct JobPlan {
    /// Index of the file in the manifest
    pub file_index: usize,
    /// Priority of the job
    pub priority: Priority,
    /// Size of the file in bytes
    pub size: u64,
    /// Key of the file's download state
    pub state_key: String,
}

/// `plan` is the job for file `k` of `files` in repository `repo_id`.
pub open spec fn plans_file(plan: JobPlan, repo_id: Seq<char>, files: Seq<FileInfo>, k: int) -> bool {
    &&& plan.file_index == k
    &&& plan.priority == Priority::of_size(files[k].size)
    &&& plan.size == files[k].size
    &&& plan.state_key@ == file_key_of(repo_id, files[k].path@)
}

/// Plan the download jobs of a model: one job for each file of the manifest that
/// the quantization filter keeps, in manifest order, with the priority given by
/// the file's size and the key `"{repo_id}:{path}"` for its download state.
pub fn plan_model_jobs(repo_id: &str, manifest: &RepoManifest, quantization: &Option<String>) -> (plans:
    Vec<JobPlan>)
    ensures
        plans@.len() == kept_file_indices(
            manifest.files@,
            *quantization,
            manifest.files@.len(),
        ).len(),
        forall|i: int|
            0 <= i < plans@.len() ==> plans_file(
                #[trigger] plans@[i],
                repo_id@,
                manifest.files@,
                kept_file_indices(manifest.files@, *quantization, manifest.files@.len())[i],
            ),
{
    let mut plans: Vec<JobPlan> = Vec::new();
    let mut i: usize = 0;
    let n = manifest.files.len();
    while i < n
        invariant
            i <= n,
            n == manifest.files@.len(),
            plans@.len() == kept_file_indices(manifest.files@, *quantization, i as nat).len(),
            forall|j: int|
                0 <= j < plans@.len() ==> plans_file(
                    #[trigger] plans@[j],
                    repo_id@,
                    manifest.files@,
                    kept_file_indices(manifest.files@, *quantization, i as nat)[j],
                ),
        decreases n - i,
    {
        let f = &manifest.files[i];
        let ghost old_plans = plans@;
        if !should_skip_for_quantization(f.path.as_str(), quantization) {
            let plan = JobPlan {
                file_index: i,
                priority: Priority::from_file_size(f.size),
                size: f.size,
                state_key: file_key(repo_id, f.path.as_str()),
            };
            plans.push(plan);
        }
        proof {
            let before = kept_file_indices(manifest.files@, *quantization, i as nat);
            let after = kept_file_indices(manifest.files@, *quantization, (i + 1) as nat);
            assert(after == if skipped_by_quantization(manifest.files@[i as int].path@, *quantization) {
                before
            } else {
                before.push(i as int)
            });
            assert forall|j: int| 0 <= j < before.len() implies after[j] == before[j] by {}
            assert forall|j: int| 0 <= j < plans@.len() implies plans_file(
                #[trigger] plans@[j],
                repo_id@,
                manifest.files@,
                after[j],
            ) by {
                if j < old_plans.len() {
                    assert(plans@[j] == old_plans[j]);
                }
            }
        }
        i = i + 1;
    }
    plans
}

/// Download status of one file.
#[derive(Debug, Clone, Copy, PartialEq, Eq, Structural)]
pub enum DownloadStatus {
    /// Job is queued waiting for worker
    Queued,
    /// Download is in progress
    InProgress,
    /// Download completed successfully
    Completed,
    /// Download failed with error
    Failed,
    /// Download was skipped (already exists)
    Skipped,
}

/// Download state of one file.
#[derive(Debug, Clone)]
pub struct DownloadState {
    /// Current status
    pub status: DownloadStatus,
    /// Bytes downloaded so far
    pub bytes_downloaded: u64,
    /// Total bytes expected
    pub total_bytes: u64,
    /// Download start time
    pub started_at: Option<Instant>,
    /// Worker processing this download
    pub worker_id: Option<usize>,
}

impl DownloadState {
    /// The state of a file whose job was just queued.
    pub fn queued(total_bytes: u64) -> (s: Self)
        ensures
            s.status == DownloadStatus::Queued,
            s.bytes_downloaded == 0,
            s.total_bytes == total_bytes,
            s.started_at is None,
            s.worker_id is None,
    {
        DownloadState {
            status: DownloadStatus::Queued,
            bytes_downloaded: 0,
            total_bytes,
            started_at: None,
            worker_id: None,
        }
    }

    /// A worker took the job at time `now`.
    pub fn begin(&mut self, worker_id: usize, now: Instant)
        ensures
            final(self).status == DownloadStatus::InProgress,
            final(self).started_at == Some(now),
            final(self).worker_id == Some(worker_id),
            final(self).bytes_downloaded == old(self).bytes_downloaded,
            final(self).total_bytes == old(self).total_bytes,
    {
        self.status = DownloadStatus::InProgress;
        self.started_at = Some(now);
        self.worker_id = Some(worker_id);
    }

    /// The worker finished the job, successfully or not, having written `bytes`.
    pub fn finish(&mut self, success: bool, bytes: u64)
        ensures
            final(self).status == (if success {
                DownloadStatus::Completed
            } else {
                DownloadStatus::Failed
            }),
            final(self).bytes_downloaded == bytes,
            final(self).total_bytes == old(self).total_bytes,
            final(self).started_at == old(self).started_at,
            final(self).worker_id == old(self).worker_id,
    {
        self.status = if success {
            DownloadStatus::Completed
        } else {
            DownloadStatus::Failed
        };
        self.bytes_downloaded = bytes;
    }
}

/// Whether a worker skips a job because its destination already holds a file of
/// `existing_len` bytes (`None` when there is no readable file there): it does
/// exactly when that length is the expected size, and then reports the expected
/// size as downloaded.
pub fn skip_existing_file(existing_len: Option<u64>, expected_size: u64) -> (r: Option<u64>)
    ensures
        r == (if existing_len == Some(expected_size) { Some(expected_size) } else { None::<u64> }),
{
    match existing_len {
        Some(len) => if len == expected_size {
            Some(expected_size)
        } else {
            None
        },
        None => None,
    }
}

/// Progress of one model's download.
#[derive(Debug, Clone)]
pub struct ModelProgress {
    /// Model identifier
    pub model_id: String,
    /// Total files in model
    pub total_files: usize,
    /// Completed files
    pub completed_files: usize,
    /// Total bytes in model
    pub total_bytes: u64,
    /// Downloaded bytes
    pub downloaded_bytes: u64,
    /// Model start time
    pub started_at: Instant,
}

impl ModelProgress {
    /// The progress of a model whose jobs were just submitted.
    pub fn for_manifest(repo_id: &str, manifest: &RepoManifest, started_at: Instant) -> (p: Self)
        ensures
            p.model_id@ == repo_id@,
            p.total_files == manifest.files@.len(),
            p.completed_files == 0,
            p.total_bytes == manifest.total_size,
            p.downloaded_bytes == 0,
            p.started_at == started_at,
    {
        ModelProgress {
            model_id: String::from_str(repo_id),
            total_files: manifest.files.len(),
            completed_files: 0,
            total_bytes: manifest.total_size,
            downloaded_bytes: 0,
            started_at,
        }
    }
}


/// `x + 1`, wrapping to zero past `usize::MAX` (as an atomic counter does).
pub open spec fn wrapping_inc(x: usize) -> usize {
    if x == usize::MAX {
        0
    } else {
        (x + 1) as usize
    }
}

fn inc_wrapping(x: usize) -> (r: usize)
    ensures
        r == wrapping_inc(x),
{
    if x == usize::MAX {
        0
    } else {
        x + 1
    }
}

/// Health of one worker thread. Times are milliseconds since the Unix epoch;
/// the caller supplies the current time.
#[derive(Debug, Clone, Copy)]
pub struct WorkerHealthStatus {
    /// Worker ID
    pub worker_id: usize,
    /// Time of the last heartbeat
    pub last_heartbeat: u64,
    /// Number of jobs processed by this worker
    pub jobs_processed: usize,
    /// Number of jobs failed by this worker
    pub jobs_failed: usize,
    /// Whether a thread is registered for this worker (false once it has been
    /// given up and awaits a restart)
    pub has_thread: bool,
    /// Worker is currently healthy
    pub is_healthy: bool,
    /// Number of restarts
    pub restart_count: usize,
    /// Uptime in milliseconds at the last update
    pub uptime_ms: u64,
    /// Time the current thread of this worker started
    pub started_at: u64,
}

/// Snapshot of a worker's health.
#[derive(Debug, Clone, Copy)]
pub struct WorkerHealthMetrics {
    pub worker_id: usize,
    pub is_healthy: bool,
    pub jobs_processed: usize,
    pub jobs_failed: usize,
    pub restart_count: usize,
    pub time_since_heartbeat_ms: u64,
    pub uptime_ms: u64,
}

/// Milliseconds from `earlier` to `now`, or zero if `now` is earlier.
pub open spec fn elapsed_ms(now: u64, earlier: u64) -> u64 {
    if now >= earlier {
        (now - earlier) as u64
    } else {
        0
    }
}

impl WorkerHealthStatus {
    /// A healthy worker with no jobs, whose first heartbeat is at `now_ms`.
    pub fn new(worker_id: usize, now_ms: u64) -> (s: Self)
        ensures
            s.worker_id == worker_id,
            s.last_heartbeat == now_ms,
            s.jobs_processed == 0,
            s.jobs_failed == 0,
            !s.has_thread,
            s.is_healthy,
            s.restart_count == 0,
            s.uptime_ms == 0,
            s.started_at == now_ms,
    {
        WorkerHealthStatus {
            worker_id,
            last_heartbeat: now_ms,
            jobs_processed: 0,
            jobs_failed: 0,
            has_thread: false,
            is_healthy: true,
            restart_count: 0,
            uptime_ms: 0,
            started_at: now_ms,
        }
    }

    /// Record a heartbeat at `now_ms`.
    pub fn heartbeat(&mut self, now_ms: u64)
        ensures
            *final(self) == (WorkerHealthStatus { last_heartbeat: now_ms, ..*old(self) }),
    {
        self.last_heartbeat = now_ms;
    }

    /// Count a completed job.
    pub fn job_completed(&mut self)
        ensures
            *final(self) == (WorkerHealthStatus {
                jobs_processed: wrapping_inc(old(self).jobs_processed),
                ..*old(self)
            }),
    {
        self.jobs_processed = inc_wrapping(self.jobs_processed);
    }

    /// Count a failed job.
    pub fn job_failed(&mut self)
        ensures
            *final(self) == (WorkerHealthStatus {
                jobs_failed: wrapping_inc(old(self).jobs_failed),
                ..*old(self)
            }),
    {
        self.jobs_failed = inc_wrapping(self.jobs_failed);
    }

    /// The worker's health metrics at time `now_ms`.
    pub fn get_metrics(&self, now_ms: u64) -> (m: WorkerHealthMetrics)
        ensures
            m == (WorkerHealthMetrics {
                worker_id: self.worker_id,
                is_healthy: self.is_healthy,
                jobs_processed: self.jobs_processed,
                jobs_failed: self.jobs_failed,
                restart_count: self.restart_count,
                time_since_heartbeat_ms: elapsed_ms(now_ms, self.last_heartbeat),
                uptime_ms: self.uptime_ms,
            }),
    {
        WorkerHealthMetrics {
            worker_id: self.worker_id,
            is_healthy: self.is_healthy,
            jobs_processed: self.jobs_processed,
            jobs_failed: self.jobs_failed,
            restart_count: self.restart_count,
            time_since_heartbeat_ms: now_ms.saturating_sub(self.last_heartbeat),
            uptime_ms: self.uptime_ms,
        }
    }

    /// Mark the worker unhealthy and give up its thread, so that it gets restarted.
    pub fn mark_unhealthy(&mut self)
        ensures
            *final(self) == (WorkerHealthStatus { is_healthy: false, has_thread: false, ..*old(self) }),
    {
        self.is_healthy = false;
        self.has_thread = false;
    }

    /// Register a newly started thread (at `now_ms`) for this worker.
    pub fn register_thread(&mut self, now_ms: u64)
        ensures
            *final(self) == (WorkerHealthStatus { has_thread: true, started_at: now_ms, ..*old(self) }),
    {
        self.has_thread = true;
        self.started_at = now_ms;
    }

    /// Mark the worker restarted with a new thread at `now_ms`: the restart is
    /// counted, the worker is healthy again and its heartbeat is `now_ms`.
    pub fn mark_restarted(&mut self, now_ms: u64)
        ensures
            *final(self) == (WorkerHealthStatus {
                restart_count: wrapping_inc(old(self).restart_count),
                is_healthy: true,
                has_thread: true,
                started_at: now_ms,
                last_heartbeat: now_ms,
                ..*old(self)
            }),
    {
        self.restart_count = inc_wrapping(self.restart_count);
        self.is_healthy = true;
        self.started_at = now_ms;
        self.has_thread = true;
        self.heartbeat(now_ms);
    }

    /// Update the uptime to the time elapsed since the thread started.
    pub fn update_uptime(&mut self, now_ms: u64)
        ensures
            *final(self) == (WorkerHealthStatus {
                uptime_ms: elapsed_ms(now_ms, old(self).started_at),
                ..*old(self)
            }),
    {
        self.uptime_ms = now_ms.saturating_sub(self.started_at);
    }
}

impl WorkerHealthMetrics {
    /// Whether the last heartbeat is at most `threshold_ms` old.
    pub fn is_responsive(&self, threshold_ms: u64) -> (b: bool)
        ensures
            b == (self.time_since_heartbeat_ms <= threshold_ms),
    {
        self.time_since_heartbeat_ms <= threshold_ms
    }
}


/// The state of a worker created at `now_ms`.
pub open spec fn fresh_worker(worker_id: usize, now_ms: u64) -> WorkerHealthStatus {
    WorkerHealthStatus {
        worker_id,
        last_heartbeat: now_ms,
        jobs_processed: 0,
        jobs_failed: 0,
        has_thread: false,
        is_healthy: true,
        restart_count: 0,
        uptime_ms: 0,
        started_at: now_ms,
    }
}

/// The metrics of a worker at `now_ms`.
pub open spec fn metrics_of(w: WorkerHealthStatus, now_ms: u64) -> WorkerHealthMetrics {
    WorkerHealthMetrics {
        worker_id: w.worker_id,
        is_healthy: w.is_healthy,
        jobs_processed: w.jobs_processed,
        jobs_failed: w.jobs_failed,
        restart_count: w.restart_count,
        time_since_heartbeat_ms: elapsed_ms(now_ms, w.last_heartbeat),
        uptime_ms: w.uptime_ms,
    }
}

/// A worker counts as healthy when it is marked healthy and its heartbeat is at
/// most `timeout_ms` old.
pub open spec fn counts_as_healthy(m: WorkerHealthMetrics, timeout_ms: u64) -> bool {
    m.is_healthy && m.time_since_heartbeat_ms <= timeout_ms
}

/// Number of workers that count as healthy.
pub open spec fn healthy_count(s: Seq<WorkerHealthMetrics>, timeout_ms: u64) -> nat
    decreases s.len(),
{
    if s.len() == 0 {
        0
    } else {
        healthy_count(s.drop_last(), timeout_ms) + if counts_as_healthy(s.last(), timeout_ms) {
            1nat
        } else {
            0nat
        }
    }
}

/// Total of the jobs processed.
pub open spec fn processed_total(s: Seq<WorkerHealthMetrics>) -> nat
    decreases s.len(),
{
    if s.len() == 0 {
        0
    } else {
        processed_total(s.drop_last()) + s.last().jobs_processed as nat
    }
}

/// Total of the jobs failed.
pub open spec fn failed_total(s: Seq<WorkerHealthMetrics>) -> nat
    decreases s.len(),
{
    if s.len() == 0 {
        0
    } else {
        failed_total(s.drop_last()) + s.last().jobs_failed as nat
    }
}

/// Total of the restarts.
pub open spec fn restart_total(s: Seq<WorkerHealthMetrics>) -> nat
    decreases s.len(),
{
    if s.len() == 0 {
        0
    } else {
        restart_total(s.drop_last()) + s.last().restart_count as nat
    }
}

proof fn lemma_totals_prefix(s: Seq<WorkerHealthMetrics>, i: int, timeout_ms: u64)
    requires
        0 <= i <= s.len(),
    ensures
        processed_total(s.take(i)) <= processed_total(s),
        failed_total(s.take(i)) <= failed_total(s),
        restart_total(s.take(i)) <= restart_total(s),
        healthy_count(s.take(i), timeout_ms) <= i,
    decreases s.len(),
{
    if i == s.len() {
        assert(s.take(i) =~= s);
        lemma_healthy_count_bound(s, timeout_ms);
    } else {
        lemma_totals_prefix(s.drop_last(), i, timeout_ms);
        assert(s.drop_last().take(i) =~= s.take(i));
    }
}

proof fn lemma_healthy_count_bound(s: Seq<WorkerHealthMetrics>, timeout_ms: u64)
    ensures
        healthy_count(s, timeout_ms) <= s.len(),
    decreases s.len(),
{
    if s.len() > 0 {
        lemma_healthy_count_bound(s.drop_last(), timeout_ms);
    }
}

/// Overall health report.
#[derive(Debug, Clone)]
pub struct HealthReportCard {
    pub total_workers: usize,
    pub healthy_workers: usize,
    pub workers_needing_restart: usize,
    pub total_jobs_processed: usize,
    pub total_jobs_failed: usize,
    pub total_restarts: usize,
    pub worker_metrics: Vec<WorkerHealthMetrics>,
}

/// The report is the aggregation of `metrics` with heartbeat timeout `timeout_ms`.
pub open spec fn is_report_of(r: HealthReportCard, metrics: Seq<WorkerHealthMetrics>, timeout_ms: u64) -> bool {
    &&& r.worker_metrics@ == metrics
    &&& r.total_workers == metrics.len()
    &&& r.healthy_workers == healthy_count(metrics, timeout_ms)
    &&& r.workers_needing_restart == metrics.len() - healthy_count(metrics, timeout_ms)
    &&& r.total_jobs_processed == processed_total(metrics)
    &&& r.total_jobs_failed == failed_total(metrics)
    &&& r.total_restarts == restart_total(metrics)
}

/// The system is critical when fewer than half of the workers are healthy (or
/// there are none), or at least half of them (rounded down) need a restart.
pub open spec fn report_is_critical(r: HealthReportCard) -> bool {
    r.total_workers == 0 || 2 * r.healthy_workers < r.total_workers || r.workers_needing_restart
        >= r.total_workers / 2
}

/// The status word of a report.
pub open spec fn report_status(r: HealthReportCard) -> Seq<char> {
    if report_is_critical(r) {
        "CRITICAL"@
    } else if r.workers_needing_restart > 0 {
        "WARNING"@
    } else {
        "HEALTHY"@
    }
}

impl HealthReportCard {
    /// Aggregate worker metrics into a report: a worker counts as healthy when it
    /// is marked healthy and responsive within `heartbeat_timeout_ms`; every other
    /// worker needs a restart.
    pub fn from_worker_metrics(worker_metrics: Vec<WorkerHealthMetrics>, heartbeat_timeout_ms: u64) -> (r:
        Self)
        requires
            processed_total(worker_metrics@) <= usize::MAX,
            failed_total(worker_metrics@) <= usize::MAX,
            restart_total(worker_metrics@) <= usize::MAX,
        ensures
            is_report_of(r, worker_metrics@, heartbeat_timeout_ms),
    {
        let mut total_workers: usize = 0;
        let mut healthy_workers: usize = 0;
        let mut workers_needing_restart: usize = 0;
        let mut total_jobs_processed: usize = 0;
        let mut total_jobs_failed: usize = 0;
        let mut total_restarts: usize = 0;
        let ghost s = worker_metrics@;
        let mut i: usize = 0;
        while i < worker_metrics.len()
            invariant
                s == worker_metrics@,
                i <= s.len(),
                total_workers == i,
                healthy_workers == healthy_count(s.take(i as int), heartbeat_timeout_ms),
                workers_needing_restart == i - healthy_count(s.take(i as int), heartbeat_timeout_ms),
                total_jobs_processed == processed_total(s.take(i as int)),
                total_jobs_failed == failed_total(s.take(i as int)),
                total_restarts == restart_total(s.take(i as int)),
                processed_total(s) <= usize::MAX,
                failed_total(s) <= usize::MAX,
                restart_total(s) <= usize::MAX,
            decreases s.len() - i,
        {
            let m = worker_metrics[i];
            proof {
                assert(s.take(i + 1).drop_last() =~= s.take(i as int));
                lemma_totals_prefix(s, i + 1, heartbeat_timeout_ms);
                lemma_totals_prefix(s, i as int, heartbeat_timeout_ms);
            }
            total_workers = total_workers + 1;
            if m.is_healthy && m.is_responsive(heartbeat_timeout_ms) {
                healthy_workers = healthy_workers + 1;
            } else {
                workers_needing_restart = workers_needing_restart + 1;
            }
            total_jobs_processed = total_jobs_processed + m.jobs_processed;
            total_jobs_failed = total_jobs_failed + m.jobs_failed;
            total_restarts = total_restarts + m.restart_count;
            i = i + 1;
        }
        assert(s.take(s.len() as int) =~= s);
        HealthReportCard {
            total_workers,
            healthy_workers,
            workers_needing_restart,
            total_jobs_processed,
            total_jobs_failed,
            total_restarts,
            worker_metrics,
        }
    }

    /// Whether the system is in a critical state.
    pub fn is_critical(&self) -> (b: bool)
        ensures
            b == report_is_critical(*self),
    {
        let below_half = self.healthy_workers < self.total_workers && self.healthy_workers
            < self.total_workers - self.healthy_workers;
        self.total_workers == 0 || below_half || self.workers_needing_restart >= self.total_workers / 2
    }

    /// The health status summary: "CRITICAL", "WARNING" when some worker needs a
    /// restart, else "HEALTHY".
    pub fn status_summary(&self) -> (s: String)
        ensures
            s@ == report_status(*self),
    {
        if self.is_critical() {
            String::from_str("CRITICAL")
        } else if self.workers_needing_restart > 0 {
            String::from_str("WARNING")
        } else {
            String::from_str("HEALTHY")
        }
    }
}


/// A worker after one health check at `now_ms`: a healthy worker whose heartbeat
/// is older than `timeout_ms` is marked unhealthy; every worker's uptime is updated.
pub open spec fn checked_worker(w: WorkerHealthStatus, now_ms: u64, timeout_ms: u64) -> WorkerHealthStatus {
    let w1 = if elapsed_ms(now_ms, w.last_heartbeat) > timeout_ms && w.is_healthy {
        WorkerHealthStatus { is_healthy: false, has_thread: false, ..w }
    } else {
        w
    };
    WorkerHealthStatus { uptime_ms: elapsed_ms(now_ms, w1.started_at), ..w1 }
}

/// A worker needs a restart when it is unhealthy or has not sent a heartbeat for
/// 30 seconds, and no thread is registered for it.
pub open spec fn needs_restart(w: WorkerHealthStatus, now_ms: u64) -> bool {
    (!w.is_healthy || elapsed_ms(now_ms, w.last_heartbeat) > 30_000) && !w.has_thread
}

/// The workers (by index) among the first `n` that need a restart, in order.
pub open spec fn restart_indices(ws: Seq<WorkerHealthStatus>, now_ms: u64, n: nat) -> Seq<int>
    decreases n,
{
    if n == 0 {
        Seq::empty()
    } else {
        let rest = restart_indices(ws, now_ms, (n - 1) as nat);
        if needs_restart(ws[n - 1], now_ms) {
            rest.push(n - 1)
        } else {
            rest
        }
    }
}

/// Health accounting for a pool of workers. Times are milliseconds since the Unix
/// epoch, supplied by the caller.
pub struct WorkerHealthMonitor {
    /// Per-worker health status, indexed by worker ID
    pub worker_health: Vec<WorkerHealthStatus>,
    /// Whether the periodic health check is running
    pub monitoring_active: bool,
    /// Interval between health checks
    pub check_interval_ms: u64,
    /// Heartbeat age beyond which a worker is unresponsive
    pub heartbeat_timeout_ms: u64,
}

impl View for WorkerHealthMonitor {
    type V = Seq<WorkerHealthStatus>;

    open spec fn view(&self) -> Seq<WorkerHealthStatus> {
        self.worker_health@
    }
}

impl WorkerHealthMonitor {
    /// A monitor for `worker_count` fresh workers numbered from 0, checking every
    /// 5 seconds with a 30 second heartbeat timeout.
    pub fn new(worker_count: usize, now_ms: u64) -> (m: Self)
        ensures
            m@.len() == worker_count,
            forall|i: int| 0 <= i < worker_count ==> #[trigger] m@[i] == fresh_worker(i as usize, now_ms),
            !m.monitoring_active,
            m.check_interval_ms == 5000,
            m.heartbeat_timeout_ms == 30_000,
    {
        let mut worker_health: Vec<WorkerHealthStatus> = Vec::new();
        let mut i: usize = 0;
        while i < worker_count
            invariant
                i <= worker_count,
                worker_health@.len() == i,
                forall|k: int| 0 <= k < i ==> #[trigger] worker_health@[k] == fresh_worker(k as usize, now_ms),
            decreases worker_count - i,
        {
            worker_health.push(WorkerHealthStatus::new(i, now_ms));
            i = i + 1;
        }
        WorkerHealthMonitor {
            worker_health,
            monitoring_active: false,
            check_interval_ms: 5000,
            heartbeat_timeout_ms: 30_000,
        }
    }

    /// Number of workers.
    pub fn worker_count(&self) -> (n: usize)
        ensures
            n == self@.len(),
    {
        self.worker_health.len()
    }

    /// The health status of a worker, if it exists.
    pub fn get_worker_health(&self, worker_id: usize) -> (r: Option<&WorkerHealthStatus>)
        ensures
            r is Some <==> worker_id < self@.len(),
            r matches Some(w) ==> *w == self@[worker_id as int],
    {
        if worker_id < self.worker_health.len() {
            Some(&self.worker_health[worker_id])
        } else {
            None
        }
    }

    /// Apply `heartbeat`, `job_completed`, `job_failed`, `mark_unhealthy`,
    /// `register_thread` or `mark_restarted` to one worker.
    pub fn update_worker(&mut self, worker_id: usize, event: WorkerEvent, now_ms: u64) -> (found: bool)
        ensures
            found <==> worker_id < old(self)@.len(),
            found ==> final(self)@ == old(self)@.update(
                worker_id as int,
                apply_worker_event(old(self)@[worker_id as int], event, now_ms),
            ),
            !found ==> final(self)@ == old(self)@,
            final(self).monitoring_active == old(self).monitoring_active,
            final(self).check_interval_ms == old(self).check_interval_ms,
            final(self).heartbeat_timeout_ms == old(self).heartbeat_timeout_ms,
    {
        if worker_id >= self.worker_health.len() {
            return false;
        }
        let mut w = self.worker_health[worker_id];
        assert(w == old(self)@[worker_id as int]);
        match event {
            WorkerEvent::Heartbeat => w.heartbeat(now_ms),
            WorkerEvent::JobCompleted => w.job_completed(),
            WorkerEvent::JobFailed => w.job_failed(),
            WorkerEvent::MarkUnhealthy => w.mark_unhealthy(),
            WorkerEvent::ThreadStarted => w.register_thread(now_ms),
            WorkerEvent::Restarted => w.mark_restarted(now_ms),
        }
        self.worker_health.set(worker_id, w);
        true
    }

    /// The metrics of every worker at `now_ms`, aggregated into a report; then
    /// every worker's uptime is updated.
    pub fn get_health_report(&mut self, now_ms: u64) -> (r: HealthReportCard)
        requires
            processed_total(old(self)@.map_values(|w: WorkerHealthStatus| metrics_of(w, now_ms)))
                <= usize::MAX,
            failed_total(old(self)@.map_values(|w: WorkerHealthStatus| metrics_of(w, now_ms)))
                <= usize::MAX,
            restart_total(old(self)@.map_values(|w: WorkerHealthStatus| metrics_of(w, now_ms)))
                <= usize::MAX,
        ensures
            is_report_of(
                r,
                old(self)@.map_values(|w: WorkerHealthStatus| metrics_of(w, now_ms)),
                old(self).heartbeat_timeout_ms,
            ),
            final(self)@.len() == old(self)@.len(),
            forall|i: int|
                0 <= i < old(self)@.len() ==> #[trigger] final(self)@[i] == (WorkerHealthStatus {
                    uptime_ms: elapsed_ms(now_ms, old(self)@[i].started_at),
                    ..old(self)@[i]
                }),
            final(self).monitoring_active == old(self).monitoring_active,
            final(self).check_interval_ms == old(self).check_interval_ms,
            final(self).heartbeat_timeout_ms == old(self).heartbeat_timeout_ms,
    {
        let ghost ws = self.worker_health@;
        let ghost ms = ws.map_values(|w: WorkerHealthStatus| metrics_of(w, now_ms));
        let mut metrics: Vec<WorkerHealthMetrics> = Vec::new();
        let mut i: usize = 0;
        let n = self.worker_health.len();
        while i < n
            invariant
                i <= n,
                n == ws.len(),
                self.worker_health@.len() == n,
                ms == ws.map_values(|w: WorkerHealthStatus| metrics_of(w, now_ms)),
                metrics@ == ms.take(i as int),
                forall|k: int|
                    0 <= k < n ==> #[trigger] self.worker_health@[k] == (if k < i {
                        WorkerHealthStatus { uptime_ms: elapsed_ms(now_ms, ws[k].started_at), ..ws[k] }
                    } else {
                        ws[k]
                    }),
                self.monitoring_active == old(self).monitoring_active,
                self.check_interval_ms == old(self).check_interval_ms,
                self.heartbeat_timeout_ms == old(self).heartbeat_timeout_ms,
            decreases n - i,
        {
            let mut w = self.worker_health[i];
            assert(w == ws[i as int]);
            let m = w.get_metrics(now_ms);
            metrics.push(m);
            w.update_uptime(now_ms);
            self.worker_health.set(i, w);
            assert(metrics@ =~= ms.take(i + 1));
            i = i + 1;
        }
        assert(ms.take(n as int) =~= ms);
        HealthReportCard::from_worker_metrics(metrics, self.heartbeat_timeout_ms)
    }

    /// Start the periodic health checks; returns false, changing nothing, when they
    /// are already running.
    pub fn start_monitoring(&mut self) -> (started: bool)
        ensures
            started == !old(self).monitoring_active,
            final(self).monitoring_active,
            final(self)@ == old(self)@,
            final(self).check_interval_ms == old(self).check_interval_ms,
            final(self).heartbeat_timeout_ms == old(self).heartbeat_timeout_ms,
    {
        if self.monitoring_active {
            false
        } else {
            self.monitoring_active = true;
            true
        }
    }

    /// Stop the periodic health checks.
    pub fn stop_monitoring(&mut self)
        ensures
            !final(self).monitoring_active,
            final(self)@ == old(self)@,
            final(self).check_interval_ms == old(self).check_interval_ms,
            final(self).heartbeat_timeout_ms == old(self).heartbeat_timeout_ms,
    {
        self.monitoring_active = false;
    }

    /// One periodic health check at `now_ms`: each healthy worker whose heartbeat
    /// is older than the timeout is marked unhealthy; every uptime is updated.
    pub fn run_health_check(&mut self, now_ms: u64)
        ensures
            final(self)@.len() == old(self)@.len(),
            forall|i: int|
                0 <= i < old(self)@.len() ==> #[trigger] final(self)@[i] == checked_worker(
                    old(self)@[i],
                    now_ms,
                    old(self).heartbeat_timeout_ms,
                ),
            final(self).monitoring_active == old(self).monitoring_active,
            final(self).check_interval_ms == old(self).check_interval_ms,
            final(self).heartbeat_timeout_ms == old(self).heartbeat_timeout_ms,
    {
        let ghost ws = self.worker_health@;
        let timeout = self.heartbeat_timeout_ms;
        let mut i: usize = 0;
        let n = self.worker_health.len();
        while i < n
            invariant
                i <= n,
                n == ws.len(),
                timeout == old(self).heartbeat_timeout_ms,
                self.worker_health@.len() == n,
                forall|k: int|
                    0 <= k < n ==> #[trigger] self.worker_health@[k] == (if k < i {
                        checked_worker(ws[k], now_ms, timeout)
                    } else {
                        ws[k]
                    }),
                self.monitoring_active == old(self).monitoring_active,
                self.check_interval_ms == old(self).check_interval_ms,
                self.heartbeat_timeout_ms == old(self).heartbeat_timeout_ms,
            decreases n - i,
        {
            let mut w = self.worker_health[i];
            assert(w == ws[i as int]);
            if now_ms.saturating_sub(w.last_heartbeat) > timeout && w.is_healthy {
                w.mark_unhealthy();
            }
            w.update_uptime(now_ms);
            self.worker_health.set(i, w);
            i = i + 1;
        }
    }

    /// The workers that need a restart at `now_ms`, by index, in order.
    pub fn workers_to_restart(&self, now_ms: u64) -> (r: Vec<usize>)
        ensures
            r@.len() == restart_indices(self@, now_ms, self@.len()).len(),
            forall|i: int| 0 <= i < r@.len() ==> #[trigger] r@[i] == restart_indices(self@, now_ms, self@.len())[i],
    {
        let mut r: Vec<usize> = Vec::new();
        let mut i: usize = 0;
        let n = self.worker_health.len();
        while i < n
            invariant
                i <= n,
                n == self@.len(),
                r@.len() == restart_indices(self@, now_ms, i as nat).len(),
                forall|k: int| 0 <= k < r@.len() ==> #[trigger] r@[k] == restart_indices(self@, now_ms, i as nat)[k],
            decreases n - i,
        {
            let w = &self.worker_health[i];
            let stale = now_ms.saturating_sub(w.last_heartbeat) > 30_000;
            let ghost before = restart_indices(self@, now_ms, i as nat);
            if (!w.is_healthy || stale) && !w.has_thread {
                r.push(i);
            }
            proof {
                let after = restart_indices(self@, now_ms, (i + 1) as nat);
                assert forall|k: int| 0 <= k < before.len() implies after[k] == before[k] by {}
            }
            i = i + 1;
        }
        r
    }
}

/// Something that happens to a worker.
#[derive(Debug, Clone, Copy, PartialEq, Eq, Structural)]
pub enum WorkerEvent {
    /// The worker sent a heartbeat
    Heartbeat,
    /// The worker completed a job
    JobCompleted,
    /// The worker failed a job
    JobFailed,
    /// The worker was found unresponsive and given up
    MarkUnhealthy,
    /// A thread was started for the worker
    ThreadStarted,
    /// The worker was restarted with a new thread
    Restarted,
}

/// The worker's state after `event` at `now_ms`.
pub open spec fn apply_worker_event(w: WorkerHealthStatus, event: WorkerEvent, now_ms: u64) -> WorkerHealthStatus {
    match event {
        WorkerEvent::Heartbeat => WorkerHealthStatus { last_heartbeat: now_ms, ..w },
        WorkerEvent::JobCompleted => WorkerHealthStatus { jobs_processed: wrapping_inc(w.jobs_processed), ..w },
        WorkerEvent::JobFailed => WorkerHealthStatus { jobs_failed: wrapping_inc(w.jobs_failed), ..w },
        WorkerEvent::MarkUnhealthy => WorkerHealthStatus { is_healthy: false, has_thread: false, ..w },
        WorkerEvent::ThreadStarted => WorkerHealthStatus { has_thread: true, started_at: now_ms, ..w },
        WorkerEvent::Restarted => WorkerHealthStatus {
            restart_count: wrapping_inc(w.restart_count),
            is_healthy: true,
            has_thread: true,
            started_at: now_ms,
            last_heartbeat: now_ms,
            ..w
        },
    }
}

/// Orchestrator statistics with health information.
#[derive(Debug, Clone)]
pub struct OrchestratorStats {
    pub total_jobs: usize,
    pub queued: usize,
    pub in_progress: usize,
    pub completed: usize,
    pub failed: usize,
    pub active_workers: usize,
    pub total_workers: usize,
    pub health_report: Option<HealthReportCard>,
}

/// Number of statuses in `s` that satisfy `pred`.
pub open spec fn status_count(s: Seq<DownloadStatus>, pred: spec_fn(DownloadStatus) -> bool) -> nat
    decreases s.len(),
{
    if s.len() == 0 {
        0
    } else {
        status_count(s.drop_last(), pred) + if pred(s.last()) {
            1nat
        } else {
            0nat
        }
    }
}

proof fn lemma_status_count_bound(s: Seq<DownloadStatus>, pred: spec_fn(DownloadStatus) -> bool)
    ensures
        status_count(s, pred) <= s.len(),
    decreases s.len(),
{
    if s.len() > 0 {
        lemma_status_count_bound(s.drop_last(), pred);
    }
}

/// Completed downloads, skipped ones included.
pub open spec fn is_done_status(st: DownloadStatus) -> bool {
    st == DownloadStatus::Completed || st == DownloadStatus::Skipped
}

impl OrchestratorStats {
    /// Statistics over the download states: skipped files count as completed.
    pub fn from_states(
        statuses: &Vec<DownloadStatus>,
        active_workers: usize,
        total_workers: usize,
        health_report: Option<HealthReportCard>,
    ) -> (st: Self)
        ensures
            st.total_jobs == statuses@.len(),
            st.completed == status_count(statuses@, |x: DownloadStatus| is_done_status(x)),
            st.failed == status_count(statuses@, |x: DownloadStatus| x == DownloadStatus::Failed),
            st.in_progress == status_count(statuses@, |x: DownloadStatus| x == DownloadStatus::InProgress),
            st.queued == status_count(statuses@, |x: DownloadStatus| x == DownloadStatus::Queued),
            st.active_workers == active_workers,
            st.total_workers == total_workers,
            st.health_report == health_report,
    {
        let ghost s = statuses@;
        let ghost done = |x: DownloadStatus| is_done_status(x);
        let ghost failed_p = |x: DownloadStatus| x == DownloadStatus::Failed;
        let ghost progress_p = |x: DownloadStatus| x == DownloadStatus::InProgress;
        let ghost queued_p = |x: DownloadStatus| x == DownloadStatus::Queued;
        let mut completed: usize = 0;
        let mut failed: usize = 0;
        let mut in_progress: usize = 0;
        let mut queued: usize = 0;
        let mut i: usize = 0;
        while i < statuses.len()
            invariant
                s == statuses@,
                i <= s.len(),
                completed == status_count(s.take(i as int), done),
                failed == status_count(s.take(i as int), failed_p),
                in_progress == status_count(s.take(i as int), progress_p),
                queued == status_count(s.take(i as int), queued_p),
                done == (|x: DownloadStatus| is_done_status(x)),
                failed_p == (|x: DownloadStatus| x == DownloadStatus::Failed),
                progress_p == (|x: DownloadStatus| x == DownloadStatus::InProgress),
                queued_p == (|x: DownloadStatus| x == DownloadStatus::Queued),
            decreases s.len() - i,
        {
            proof {
                assert(s.take(i + 1).drop_last() =~= s.take(i as int));
                lemma_status_count_bound(s.take(i as int), done);
                lemma_status_count_bound(s.take(i as int), failed_p);
                lemma_status_count_bound(s.take(i as int), progress_p);
                lemma_status_count_bound(s.take(i as int), queued_p);
            }
            match statuses[i] {
                DownloadStatus::Completed => completed = completed + 1,
                DownloadStatus::Skipped => completed = completed + 1,
                DownloadStatus::Failed => failed = failed + 1,
                DownloadStatus::InProgress => in_progress = in_progress + 1,
                DownloadStatus::Queued => queued = queued + 1,
            }
            i = i + 1;
        }
        assert(s.take(s.len() as int) =~= s);
        OrchestratorStats {
            total_jobs: statuses.len(),
            queued,
            in_progress,
            completed,
            failed,
            active_workers,
            total_workers,
            health_report,
        }
    }

    /// Whether the system is critical; without a health report it is.
    pub fn is_system_critical(&self) -> (b: bool)
        ensures
            b == match self.health_report {
                Some(r) => report_is_critical(r),
                None => true,
            },
    {
        match &self.health_report {
            Some(r) => r.is_critical(),
            None => true,
        }
    }

    /// The system status word; "UNKNOWN" without a health report.
    pub fn system_status(&self) -> (s: String)
        ensures
            s@ == match self.health_report {
                Some(r) => report_status(r),
                None => "UNKNOWN"@,
            },
    {
        match &self.health_report {
            Some(r) => r.status_summary(),
            None => String::from_str("UNKNOWN"),
        }
    }
}

/// Result of one file's download.
#[derive(Debug, Clone)]
pub struct FileDownloadResult {
    /// Local path of the file
    pub local_path: std::path::PathBuf,
    /// Remote URL of the file
    pub remote_url: String,
    /// Bytes downloaded
    pub bytes_downloaded: u64,
    /// Total bytes of the file
    pub total_bytes: u64,
    /// Time taken
    pub download_duration: std::time::Duration,
    /// Whether the download was resumed
    pub was_resumed: bool,
    /// Whether checksum validation succeeded
    pub checksum_valid: bool,
}

/// Number of files of a manifest that a download with the given quantization
/// filter fetches (those the filter keeps).
pub fn count_expected_files(manifest: &RepoManifest, quantization: &Option<String>) -> (n: usize)
    ensures
        n == kept_file_indices(manifest.files@, *quantization, manifest.files@.len()).len(),
{
    let mut n: usize = 0;
    let mut i: usize = 0;
    while i < manifest.files.len()
        invariant
            i <= manifest.files@.len(),
            n == kept_file_indices(manifest.files@, *quantization, i as nat).len(),
            n <= i,
        decreases manifest.files@.len() - i,
    {
        if !should_skip_for_quantization(manifest.files[i].path.as_str(), quantization) {
            n = n + 1;
        }
        i = i + 1;
    }
    n
}

/// A progress handler that discards every event.
#[derive(Debug, Clone, Copy)]
pub struct NoOpProgressHandler;

} // verus!
