//! The central progress dispatcher's decisions: per-file progress bookkeeping,
//! debounced filesystem scanning with a circuit breaker, debounced snapshot
//! dispatch, finalization tracking, and the progress state built for displays.
//!
//! The event loop, the channels and the filesystem scans run with the caller,
//! which hands each event and scan result to [`CentralProgressDispatcher`] and
//! performs the scans and dispatches it asks for. Times are milliseconds on a
//! monotonic clock, supplied by the caller.

use vstd::prelude::*;
use std::path::PathBuf;
use std::time::Duration;
use crate::calculator::progress_calculator::{ModelData, ProgressCalculator, is_display_sorted};
use crate::filesystem_evaluator::{ComprehensiveProgressScan, FileProgressData, ModelProgressData};
use crate::calculator::types::{
    FileProgressView, ImmutableFileProgress, ImmutableModelProgress, ImmutableProgressState,
    ModelProgressView, chunk_list_new, file_entries_of, file_list_new, file_list_push_back,
    file_views, metadata_entries, metadata_insert, metadata_new, model_entries_of, model_list_new,
    model_list_push_back, model_views, no_metadata,
};
use crate::calculator::snapshot::{models_downloaded_sum, models_total_sum};
use crate::std_types::{joined_path, path_join, path_text, path_to_text, system_time_now};
use crate::orchestration::{elapsed_ms, file_key, file_key_of};
use crate::text::{append_str, str_equal};

verus! {

/// Central dispatcher configuration.
#[derive(Debug, Clone)]
pub struct DispatcherConfig {
    /// Debounce interval: at most one dispatch per interval during active periods
    pub debounce_interval: Duration,
    /// Timeout for filesystem evaluator operations
    pub filesystem_timeout: Duration,
    /// State directory for the filesystem evaluator
    pub state_dir: PathBuf,
}

/// Validated progress of a file.
#[derive(Debug, Clone, Copy)]
pub struct ValidatedProgress {
    /// Validated bytes downloaded
    pub bytes_downloaded: u64,
    /// Validated total bytes
    pub total_bytes: u64,
    /// Whether the file is from cache
    pub from_cache: bool,
}

/// What a manifest event announced for a model.
#[derive(Debug, Clone)]
pub struct ManifestInfo {
    /// Model identifier
    pub model_id: String,
    /// Number of files of the model
    pub total_files: usize,
    /// Total bytes of the model
    pub total_bytes: u64,
}

/// Progress of one file as the dispatcher tracks it.
#[derive(Debug, Clone)]
pub struct FileProgressState {
    /// Key of the file: "{model_id}:{local_filepath}"
    pub file_key: String,
    /// Model identifier
    pub model_id: String,
    /// Quantization specification
    pub quant: String,
    /// Local filepath
    pub local_filepath: String,
    /// Bytes downloaded
    pub bytes_downloaded: u64,
    /// Total bytes expected
    pub total_bytes: u64,
    /// When this download started (never changes after creation)
    pub start_time_ms: u64,
    /// Last update
    pub last_update_ms: u64,
    /// Whether the file is served from cache
    pub from_cache: bool,
    /// Completed ranges (start byte, end byte)
    pub ranges_completed: Vec<(u64, u64)>,
    /// Whether the file has been finalized (.part moved to its final name)
    pub is_file_finalized: bool,
}

/// Finalization levels reported with download events.
#[derive(Debug, Clone)]
pub enum FinalizationLevel {
    /// A byte range of a file was written
    RangeComplete { range_start: u64, range_end: u64 },
    /// A file was completely downloaded
    FileComplete { final_file_path: String },
    /// A model was completely downloaded
    ModelComplete { model_id: String },
    /// Every model was completely downloaded
    AllModelsComplete,
}

/// The decision state of the central progress dispatcher.
#[derive(Debug)]
pub struct CentralProgressDispatcher {
    /// Minimum time between two dispatches
    pub debounce_interval_ms: u64,
    /// Progress of each file, at most one state per file key, in order of first event
    pub file_states: Vec<FileProgressState>,
    /// Time of the last dispatch
    pub last_dispatch_ms: Option<u64>,
    /// Manifest information for progress totals
    pub manifest_info: Option<ManifestInfo>,
    /// Expected sizes of the repository's files (path, size)
    pub repo_file_sizes: Option<Vec<(String, u64)>>,
    /// Time of the last successful scan
    pub last_scan_ms: Option<u64>,
    /// Whether a scan is pending for the next interval
    pub pending_scan: bool,
    /// Minimum time between two scans
    pub scan_interval_ms: u64,
    /// Latest filesystem scan results
    pub latest_scan_results: Option<ComprehensiveProgressScan>,
    /// Consecutive scan failures
    pub consecutive_scan_failures: u32,
    /// Consecutive failures after which scanning stops (circuit breaker)
    pub max_scan_failures: u32,
    /// Models whose directories are scanned
    pub requested_models: Vec<String>,
}

/// The dispatcher's file keys are unique.
pub open spec fn unique_keys(states: Seq<FileProgressState>) -> bool {
    forall|i: int, j: int|
        0 <= i < states.len() && 0 <= j < states.len() && i != j ==> (#[trigger] states[i]).file_key@
            != (#[trigger] states[j]).file_key@
}

/// The position of the state with key `key`, if any.
pub open spec fn state_position(states: Seq<FileProgressState>, key: Seq<char>) -> Option<int> {
    if exists|i: int| 0 <= i < states.len() && (#[trigger] states[i]).file_key@ == key {
        Some(choose|i: int| 0 <= i < states.len() && (#[trigger] states[i]).file_key@ == key)
    } else {
        None
    }
}

/// The dispatcher's state apart from its file states is unchanged.
pub open spec fn same_schedule(a: CentralProgressDispatcher, b: CentralProgressDispatcher) -> bool {
    &&& a.debounce_interval_ms == b.debounce_interval_ms
    &&& a.last_dispatch_ms == b.last_dispatch_ms
    &&& a.last_scan_ms == b.last_scan_ms
    &&& a.pending_scan == b.pending_scan
    &&& a.scan_interval_ms == b.scan_interval_ms
    &&& a.consecutive_scan_failures == b.consecutive_scan_failures
    &&& a.max_scan_failures == b.max_scan_failures
}

fn find_state(states: &Vec<FileProgressState>, key: &str) -> (r: Option<usize>)
    ensures
        match r {
            Some(i) => i < states@.len() && states@[i as int].file_key@ == key@,
            None => forall|k: int| 0 <= k < states@.len() ==> (#[trigger] states@[k]).file_key@ != key@,
        },
{
    let mut i: usize = 0;
    while i < states.len()
        invariant
            i <= states@.len(),
            forall|k: int| 0 <= k < i ==> (#[trigger] states@[k]).file_key@ != key@,
        decreases states@.len() - i,
    {
        if str_equal(states[i].file_key.as_str(), key) {
            return Some(i);
        }
        i = i + 1;
    }
    None
}

impl CentralProgressDispatcher {
    /// A dispatcher with no progress yet: scans at most every 100 ms, dispatches at
    /// most once per debounce interval, and stops scanning after 5 consecutive
    /// failures.
    pub fn new(debounce_interval_ms: u64, requested_models: Vec<String>) -> (d: Self)
        ensures
            d.debounce_interval_ms == debounce_interval_ms,
            d.file_states@.len() == 0,
            d.last_dispatch_ms is None,
            d.manifest_info is None,
            d.repo_file_sizes is None,
            d.last_scan_ms is None,
            !d.pending_scan,
            d.scan_interval_ms == 100,
            d.latest_scan_results is None,
            d.consecutive_scan_failures == 0,
            d.max_scan_failures == 5,
            d.requested_models == requested_models,
    {
        CentralProgressDispatcher {
            debounce_interval_ms,
            file_states: Vec::new(),
            last_dispatch_ms: None,
            manifest_info: None,
            repo_file_sizes: None,
            last_scan_ms: None,
            pending_scan: false,
            scan_interval_ms: 100,
            latest_scan_results: None,
            consecutive_scan_failures: 0,
            max_scan_failures: 5,
            requested_models,
        }
    }

    /// Record the progress a download event reports for the file
    /// "{model_id}:{local_filepath}": a file seen for the first time gets a new
    /// state started at `now_ms`; then its bytes, total and update time are
    /// replaced, keeping its start time, ranges and finalization.
    pub fn update_progress_state_only(
        &mut self,
        model_id: &str,
        quant: &str,
        local_filepath: &str,
        bytes_downloaded: u64,
        total_bytes: u64,
        now_ms: u64,
    )
        requires
            unique_keys(old(self).file_states@),
        ensures
            unique_keys(final(self).file_states@),
            same_schedule(*final(self), *old(self)),
            ({
                let key = file_key_of(model_id@, local_filepath@);
                let old_states = old(self).file_states@;
                let new_states = final(self).file_states@;
                match state_position(old_states, key) {
                    Some(i) => {
                        &&& new_states.len() == old_states.len()
                        &&& (forall|k: int| 0 <= k < old_states.len() && k != i ==> #[trigger] new_states[k] == old_states[k])
                        &&& new_states[i].file_key == old_states[i].file_key
                        &&& new_states[i].model_id == old_states[i].model_id
                        &&& new_states[i].quant == old_states[i].quant
                        &&& new_states[i].local_filepath == old_states[i].local_filepath
                        &&& new_states[i].start_time_ms == old_states[i].start_time_ms
                        &&& new_states[i].ranges_completed == old_states[i].ranges_completed
                        &&& new_states[i].is_file_finalized == old_states[i].is_file_finalized
                        &&& new_states[i].bytes_downloaded == bytes_downloaded
                        &&& new_states[i].total_bytes == total_bytes
                        &&& new_states[i].last_update_ms == now_ms
                        &&& !new_states[i].from_cache
                    },
                    None => {
                        let n = new_states.last();
                        &&& new_states.len() == old_states.len() + 1
                        &&& (forall|k: int| 0 <= k < old_states.len() ==> #[trigger] new_states[k] == old_states[k])
                        &&& n.file_key@ == key
                        &&& n.model_id@ == model_id@
                        &&& n.quant@ == quant@
                        &&& n.local_filepath@ == local_filepath@
                        &&& n.start_time_ms == now_ms
                        &&& n.ranges_completed@.len() == 0
                        &&& !n.is_file_finalized
                        &&& n.bytes_downloaded == bytes_downloaded
                        &&& n.total_bytes == total_bytes
                        &&& n.last_update_ms == now_ms
                        &&& !n.from_cache
                    },
                }
            }),
    {
        let key = file_key(model_id, local_filepath);
        match find_state(&self.file_states, key.as_str()) {
            Some(i) => {
                let mut st = self.file_states.remove(i);
                st.bytes_downloaded = bytes_downloaded;
                st.total_bytes = total_bytes;
                st.last_update_ms = now_ms;
                st.from_cache = false;
                self.file_states.insert(i, st);
                assert(self.file_states@ =~= old(self).file_states@.update(i as int, st));
                proof {
                    assert(state_position(old(self).file_states@, key@) == Some(i as int)) by {
                        assert(old(self).file_states@[i as int].file_key@ == key@);
                    }
                }
            },
            None => {
                let st = FileProgressState {
                    file_key: key,
                    model_id: String::from_str(model_id),
                    quant: String::from_str(quant),
                    local_filepath: String::from_str(local_filepath),
                    bytes_downloaded,
                    total_bytes,
                    start_time_ms: now_ms,
                    last_update_ms: now_ms,
                    from_cache: false,
                    ranges_completed: Vec::new(),
                    is_file_finalized: false,
                };
                self.file_states.push(st);
            },
        }
    }
}

/// Whether a scan is due at `now_ms`: on the first event, or once the scan
/// interval has passed since the last successful scan.
pub open spec fn scan_due(d: CentralProgressDispatcher, now_ms: u64) -> bool {
    match d.last_scan_ms {
        None => true,
        Some(t) => elapsed_ms(now_ms, t) >= d.scan_interval_ms,
    }
}

/// Whether a dispatch is due at `now_ms`: on the first event, or once the
/// debounce interval has passed since the last dispatch.
pub open spec fn dispatch_due(d: CentralProgressDispatcher, now_ms: u64) -> bool {
    match d.last_dispatch_ms {
        None => true,
        Some(t) => elapsed_ms(now_ms, t) >= d.debounce_interval_ms,
    }
}

/// The distinct model ids of the states, in order of first appearance.
pub open spec fn model_ids(states: Seq<FileProgressState>) -> Seq<Seq<char>>
    decreases states.len(),
{
    if states.len() == 0 {
        Seq::empty()
    } else {
        let ids = model_ids(states.drop_last());
        if ids.contains(states.last().model_id@) {
            ids
        } else {
            ids.push(states.last().model_id@)
        }
    }
}

/// A model is complete when it has files and every one of them is finalized.
pub open spec fn model_is_complete(states: Seq<FileProgressState>, model_id: Seq<char>) -> bool {
    &&& exists|i: int| 0 <= i < states.len() && (#[trigger] states[i]).model_id@ == model_id
    &&& forall|i: int| 0 <= i < states.len() && (#[trigger] states[i]).model_id@ == model_id ==> states[i].is_file_finalized
}

/// Number of complete models among `ids`.
pub open spec fn complete_model_ids(states: Seq<FileProgressState>, ids: Seq<Seq<char>>) -> nat
    decreases ids.len(),
{
    if ids.len() == 0 {
        0
    } else {
        complete_model_ids(states, ids.drop_last()) + if model_is_complete(states, ids.last()) {
            1nat
        } else {
            0nat
        }
    }
}

proof fn lemma_model_ids_distinct_bound(states: Seq<FileProgressState>)
    ensures
        model_ids(states).len() <= states.len(),
        model_ids(states).no_duplicates(),
        forall|k: int| 0 <= k < states.len() ==> model_ids(states).contains((#[trigger] states[k]).model_id@),
        forall|j: int| 0 <= j < model_ids(states).len() ==> exists|k: int| 0 <= k < states.len() && (#[trigger] states[k]).model_id@ == #[trigger] model_ids(states)[j],
    decreases states.len(),
{
    if states.len() > 0 {
        lemma_model_ids_distinct_bound(states.drop_last());
        let ids = model_ids(states.drop_last());
        assert forall|k: int| 0 <= k < states.len() implies model_ids(states).contains((#[trigger] states[k]).model_id@) by {
            let x = states[k].model_id@;
            if k < states.len() - 1 {
                assert(states.drop_last()[k] == states[k]);
                assert(ids.contains(x));
                let j = choose|j: int| 0 <= j < ids.len() && ids[j] == x;
                assert(model_ids(states)[j] == ids[j]);
            } else if !ids.contains(x) {
                assert(model_ids(states)[ids.len() as int] == x);
            }
        }
        assert forall|j: int| 0 <= j < model_ids(states).len() implies exists|k: int| 0 <= k < states.len() && (#[trigger] states[k]).model_id@ == #[trigger] model_ids(states)[j] by {
            if j < ids.len() {
                let k = choose|k: int| 0 <= k < states.drop_last().len() && (#[trigger] states.drop_last()[k]).model_id@ == ids[j];
                assert(states[k] == states.drop_last()[k]);
            } else {
                assert(states[states.len() - 1].model_id@ == model_ids(states)[j]);
            }
        }
    }
}

proof fn lemma_complete_model_ids_bound(states: Seq<FileProgressState>, ids: Seq<Seq<char>>)
    ensures
        complete_model_ids(states, ids) <= ids.len(),
    decreases ids.len(),
{
    if ids.len() > 0 {
        lemma_complete_model_ids_bound(states, ids.drop_last());
    }
}

fn contains_id(ids: &Vec<String>, id: &str) -> (b: bool)
    ensures
        b == ids@.map_values(|s: String| s@).contains(id@),
{
    let ghost v = ids@.map_values(|s: String| s@);
    let mut i: usize = 0;
    while i < ids.len()
        invariant
            i <= ids@.len(),
            v == ids@.map_values(|s: String| s@),
            forall|k: int| 0 <= k < i ==> v[k] != id@,
        decreases ids@.len() - i,
    {
        if str_equal(ids[i].as_str(), id) {
            assert(v[i as int] == id@);
            return true;
        }
        i = i + 1;
    }
    false
}

impl CentralProgressDispatcher {
    /// Decide whether to scan the filesystem at `now_ms`. A scan is due on the
    /// first event or once the scan interval has passed; otherwise a scan is marked
    /// pending. A due scan is skipped, and marked pending, while the circuit breaker
    /// is open (too many consecutive failures).
    pub fn decide_scan(&mut self, now_ms: u64) -> (scan: bool)
        ensures
            scan == (scan_due(*old(self), now_ms) && old(self).consecutive_scan_failures
                < old(self).max_scan_failures),
            final(self).pending_scan == (old(self).pending_scan || !scan),
            scan || final(self).pending_scan,
            final(self).file_states == old(self).file_states,
            final(self).last_scan_ms == old(self).last_scan_ms,
            final(self).last_dispatch_ms == old(self).last_dispatch_ms,
            final(self).consecutive_scan_failures == old(self).consecutive_scan_failures,
            final(self).max_scan_failures == old(self).max_scan_failures,
            final(self).scan_interval_ms == old(self).scan_interval_ms,
            final(self).debounce_interval_ms == old(self).debounce_interval_ms,
            final(self).manifest_info == old(self).manifest_info,
            final(self).repo_file_sizes == old(self).repo_file_sizes,
            final(self).requested_models == old(self).requested_models,
            final(self).latest_scan_results == old(self).latest_scan_results,
    {
        let due = match self.last_scan_ms {
            None => true,
            Some(t) => now_ms.saturating_sub(t) >= self.scan_interval_ms,
        };
        if !due {
            self.pending_scan = true;
            return false;
        }
        if self.consecutive_scan_failures >= self.max_scan_failures {
            self.pending_scan = true;
            return false;
        }
        true
    }

    /// Record the outcome of a scan made at `now_ms`: a successful scan becomes the
    /// latest results, resets the failure count and clears the pending scan; a
    /// failure is counted and leaves the scan pending, so that it is retried.
    pub fn record_scan_result(&mut self, result: Option<ComprehensiveProgressScan>, now_ms: u64)
        requires
            old(self).consecutive_scan_failures < old(self).max_scan_failures,
        ensures
            match result {
                Some(_) => {
                    &&& final(self).latest_scan_results == result
                    &&& final(self).consecutive_scan_failures == 0
                    &&& final(self).last_scan_ms == Some(now_ms)
                    &&& !final(self).pending_scan
                },
                None => {
                    &&& final(self).latest_scan_results == old(self).latest_scan_results
                    &&& final(self).consecutive_scan_failures == old(self).consecutive_scan_failures + 1
                    &&& final(self).last_scan_ms == old(self).last_scan_ms
                    &&& final(self).pending_scan
                },
            },
            final(self).file_states == old(self).file_states,
            final(self).last_dispatch_ms == old(self).last_dispatch_ms,
            final(self).max_scan_failures == old(self).max_scan_failures,
            final(self).scan_interval_ms == old(self).scan_interval_ms,
            final(self).debounce_interval_ms == old(self).debounce_interval_ms,
            final(self).manifest_info == old(self).manifest_info,
            final(self).repo_file_sizes == old(self).repo_file_sizes,
            final(self).requested_models == old(self).requested_models,
    {
        match result {
            Some(scan) => {
                self.consecutive_scan_failures = 0;
                self.latest_scan_results = Some(scan);
                self.last_scan_ms = Some(now_ms);
                self.pending_scan = false;
            },
            None => {
                self.consecutive_scan_failures = self.consecutive_scan_failures + 1;
                self.pending_scan = true;
            },
        }
    }

    /// Decide whether to dispatch a snapshot at `now_ms` (on the first event, or
    /// once the debounce interval has passed); a dispatch is recorded as made.
    pub fn decide_dispatch(&mut self, now_ms: u64) -> (dispatch: bool)
        ensures
            dispatch == dispatch_due(*old(self), now_ms),
            final(self).last_dispatch_ms == if dispatch {
                Some(now_ms)
            } else {
                old(self).last_dispatch_ms
            },
            final(self).file_states == old(self).file_states,
            final(self).last_scan_ms == old(self).last_scan_ms,
            final(self).pending_scan == old(self).pending_scan,
            final(self).consecutive_scan_failures == old(self).consecutive_scan_failures,
            final(self).max_scan_failures == old(self).max_scan_failures,
            final(self).scan_interval_ms == old(self).scan_interval_ms,
            final(self).debounce_interval_ms == old(self).debounce_interval_ms,
            final(self).manifest_info == old(self).manifest_info,
            final(self).repo_file_sizes == old(self).repo_file_sizes,
            final(self).requested_models == old(self).requested_models,
            final(self).latest_scan_results == old(self).latest_scan_results,
    {
        let due = match self.last_dispatch_ms {
            None => true,
            Some(t) => now_ms.saturating_sub(t) >= self.debounce_interval_ms,
        };
        if due {
            self.last_dispatch_ms = Some(now_ms);
        }
        due
    }

    /// Record a completed byte range of the file with key `key` (once the range
    /// was validated on disk); a file without state is left alone.
    pub fn record_range_complete(&mut self, key: &str, range_start: u64, range_end: u64) -> (found: bool)
        requires
            unique_keys(old(self).file_states@),
        ensures
            unique_keys(final(self).file_states@),
            found == (state_position(old(self).file_states@, key@) is Some),
            final(self).file_states@.len() == old(self).file_states@.len(),
            forall|k: int|
                0 <= k < old(self).file_states@.len() ==> {
                    let o = old(self).file_states@[k];
                    let n = #[trigger] final(self).file_states@[k];
                    if o.file_key@ == key@ {
                        &&& n.ranges_completed@ == o.ranges_completed@.push((range_start, range_end))
                        &&& n.file_key == o.file_key
                        &&& n.model_id == o.model_id
                        &&& n.quant == o.quant
                        &&& n.local_filepath == o.local_filepath
                        &&& n.bytes_downloaded == o.bytes_downloaded
                        &&& n.total_bytes == o.total_bytes
                        &&& n.start_time_ms == o.start_time_ms
                        &&& n.last_update_ms == o.last_update_ms
                        &&& n.from_cache == o.from_cache
                        &&& n.is_file_finalized == o.is_file_finalized
                    } else {
                        n == o
                    }
                },
            same_schedule(*final(self), *old(self)),
    {
        match find_state(&self.file_states, key) {
            Some(i) => {
                let mut st = self.file_states.remove(i);
                st.ranges_completed.push((range_start, range_end));
                self.file_states.insert(i, st);
                assert(self.file_states@ =~= old(self).file_states@.update(i as int, st));
                proof {
                    assert(old(self).file_states@[i as int].file_key@ == key@);
                }
                true
            },
            None => false,
        }
    }
}

impl CentralProgressDispatcher {
    /// The distinct model ids of the tracked files, in order of first appearance.
    fn distinct_model_ids(&self) -> (ids: Vec<String>)
        ensures
            ids@.map_values(|s: String| s@) == model_ids(self.file_states@),
    {
        let ghost states = self.file_states@;
        let mut ids: Vec<String> = Vec::new();
        let mut i: usize = 0;
        while i < self.file_states.len()
            invariant
                i <= states.len(),
                states == self.file_states@,
                ids@.map_values(|s: String| s@) == model_ids(states.take(i as int)),
            decreases states.len() - i,
        {
            assert(states.take(i + 1).drop_last() =~= states.take(i as int));
            let id = &self.file_states[i].model_id;
            if !contains_id(&ids, id.as_str()) {
                ids.push(id.clone());
                assert(ids@.map_values(|s: String| s@) =~= model_ids(states.take(i as int)).push(id@));
            }
            i = i + 1;
        }
        assert(states.take(states.len() as int) =~= states);
        ids
    }

    /// Whether the model has files and all of them are finalized.
    pub fn model_complete(&self, model_id: &str) -> (b: bool)
        ensures
            b == model_is_complete(self.file_states@, model_id@),
    {
        let ghost states = self.file_states@;
        let mut any = false;
        let mut all = true;
        let mut i: usize = 0;
        while i < self.file_states.len()
            invariant
                i <= states.len(),
                states == self.file_states@,
                any == exists|k: int| 0 <= k < i && (#[trigger] states[k]).model_id@ == model_id@,
                all == forall|k: int| 0 <= k < i && (#[trigger] states[k]).model_id@ == model_id@ ==> states[k].is_file_finalized,
            decreases states.len() - i,
        {
            if str_equal(self.file_states[i].model_id.as_str(), model_id) {
                any = true;
                if !self.file_states[i].is_file_finalized {
                    all = false;
                }
            }
            i = i + 1;
        }
        any && all
    }

    /// Whether there are models and every one of them is complete.
    pub fn all_models_complete(&self) -> (b: bool)
        ensures
            b == (model_ids(self.file_states@).len() > 0 && forall|j: int|
                0 <= j < model_ids(self.file_states@).len() ==> model_is_complete(
                    self.file_states@,
                    #[trigger] model_ids(self.file_states@)[j],
                )),
    {
        let ids = self.distinct_model_ids();
        let ghost v = ids@.map_values(|s: String| s@);
        let mut all = true;
        let mut j: usize = 0;
        while j < ids.len()
            invariant
                j <= ids@.len(),
                v == ids@.map_values(|s: String| s@),
                v == model_ids(self.file_states@),
                all == forall|k: int| 0 <= k < j ==> model_is_complete(self.file_states@, #[trigger] v[k]),
            decreases ids@.len() - j,
        {
            assert(v[j as int] == ids@[j as int]@);
            if !self.model_complete(ids[j].as_str()) {
                all = false;
            }
            j = j + 1;
        }
        ids.len() > 0 && all
    }

    /// Count the completed models: those whose files are all finalized.
    fn completed_model_count(&self) -> (n: usize)
        ensures
            n == complete_model_ids(self.file_states@, model_ids(self.file_states@)),
    {
        let ids = self.distinct_model_ids();
        let ghost v = ids@.map_values(|s: String| s@);
        let mut n: usize = 0;
        let mut j: usize = 0;
        while j < ids.len()
            invariant
                j <= ids@.len(),
                v == ids@.map_values(|s: String| s@),
                n == complete_model_ids(self.file_states@, v.take(j as int)),
                n <= j,
            decreases ids@.len() - j,
        {
            assert(v.take(j + 1).drop_last() =~= v.take(j as int));
            assert(v[j as int] == ids@[j as int]@);
            if self.model_complete(ids[j].as_str()) {
                n = n + 1;
            }
            j = j + 1;
        }
        assert(v.take(v.len() as int) =~= v);
        n
    }

    /// The model data displays show: the first tracked file's model and name
    /// ("Unknown" before any event), the number of distinct models, and how many
    /// of them have all their files finalized.
    pub fn build_model_data(&self) -> (d: ModelData)
        ensures
            d.current_model_id@ == if self.file_states@.len() > 0 {
                self.file_states@[0].model_id@
            } else {
                "Unknown"@
            },
            d.current_filename@ == if self.file_states@.len() > 0 {
                self.file_states@[0].local_filepath@
            } else {
                "Unknown"@
            },
            d.total_models == model_ids(self.file_states@).len(),
            d.completed_models == complete_model_ids(self.file_states@, model_ids(self.file_states@)),
    {
        let ids = self.distinct_model_ids();
        let completed = self.completed_model_count();
        let (current_model, current_filename) = if self.file_states.len() > 0 {
            (self.file_states[0].model_id.clone(), self.file_states[0].local_filepath.clone())
        } else {
            (String::from_str("Unknown"), String::from_str("Unknown"))
        };
        assert(ids@.len() == model_ids(self.file_states@).len());
        ModelData::new(current_model, current_filename, ids.len(), completed)
    }

    /// The quantization of the first tracked file, or "Unknown".
    pub fn quantization(&self) -> (q: String)
        ensures
            q@ == if self.file_states@.len() > 0 {
                self.file_states@[0].quant@
            } else {
                "Unknown"@
            },
    {
        if self.file_states.len() > 0 {
            self.file_states[0].quant.clone()
        } else {
            String::from_str("Unknown")
        }
    }

    /// Mark the file with key `key` finalized or not; a file without state is left
    /// alone.
    pub fn set_file_finalized(&mut self, key: &str, finalized: bool) -> (found: bool)
        requires
            unique_keys(old(self).file_states@),
        ensures
            unique_keys(final(self).file_states@),
            found == (state_position(old(self).file_states@, key@) is Some),
            final(self).file_states@.len() == old(self).file_states@.len(),
            forall|k: int|
                0 <= k < old(self).file_states@.len() ==> {
                    let o = old(self).file_states@[k];
                    let n = #[trigger] final(self).file_states@[k];
                    if o.file_key@ == key@ {
                        n == (FileProgressState { is_file_finalized: finalized, ..o })
                    } else {
                        n == o
                    }
                },
            same_schedule(*final(self), *old(self)),
    {
        match find_state(&self.file_states, key) {
            Some(i) => {
                let mut st = self.file_states.remove(i);
                st.is_file_finalized = finalized;
                self.file_states.insert(i, st);
                assert(self.file_states@ =~= old(self).file_states@.update(i as int, st));
                assert(old(self).file_states@[i as int].file_key@ == key@);
                true
            },
            None => false,
        }
    }

    /// A file reported complete: when it is tracked and served from cache it needs
    /// no finalization on disk and is marked finalized (true is returned); otherwise
    /// nothing changes and the caller finalizes it on disk.
    pub fn finalize_cached_file(&mut self, key: &str) -> (done: bool)
        requires
            unique_keys(old(self).file_states@),
        ensures
            unique_keys(final(self).file_states@),
            done == match state_position(old(self).file_states@, key@) {
                Some(i) => old(self).file_states@[i].from_cache,
                None => false,
            },
            done ==> final(self).file_states@.len() == old(self).file_states@.len() && forall|k: int|
                0 <= k < old(self).file_states@.len() ==> {
                    let o = old(self).file_states@[k];
                    let n = #[trigger] final(self).file_states@[k];
                    if o.file_key@ == key@ {
                        n == (FileProgressState { is_file_finalized: true, ..o })
                    } else {
                        n == o
                    }
                },
            !done ==> final(self).file_states == old(self).file_states,
            same_schedule(*final(self), *old(self)),
    {
        match find_state(&self.file_states, key) {
            Some(i) => {
                assert(old(self).file_states@[i as int].file_key@ == key@);
                if self.file_states[i].from_cache {
                    self.set_file_finalized(key, true)
                } else {
                    false
                }
            },
            None => false,
        }
    }

    /// The earliest start time over the tracked files, if any file is tracked.
    pub fn earliest_start_ms(&self) -> (r: Option<u64>)
        ensures
            r is None <==> self.file_states@.len() == 0,
            r matches Some(t) ==> (exists|i: int|
                0 <= i < self.file_states@.len() && (#[trigger] self.file_states@[i]).start_time_ms == t)
                && (forall|i: int|
                0 <= i < self.file_states@.len() ==> t <= (#[trigger] self.file_states@[i]).start_time_ms),
    {
        let mut best: Option<u64> = None;
        let mut i: usize = 0;
        while i < self.file_states.len()
            invariant
                i <= self.file_states@.len(),
                best is None <==> i == 0,
                best matches Some(t) ==> (exists|k: int| 0 <= k < i && (#[trigger] self.file_states@[k]).start_time_ms == t)
                    && (forall|k: int| 0 <= k < i ==> t <= (#[trigger] self.file_states@[k]).start_time_ms),
            decreases self.file_states@.len() - i,
        {
            let t = self.file_states[i].start_time_ms;
            best = match best {
                Some(b) => if t < b { Some(t) } else { Some(b) },
                None => Some(t),
            };
            i = i + 1;
        }
        best
    }

    /// The first step of handling a finalization event for the file with key
    /// `key`: a completed range is checked on disk; a completed file that is
    /// tracked and served from cache is marked finalized at once, any other
    /// completed file is checked and moved on disk; model completions need nothing
    /// on disk.
    pub fn begin_finalization(&mut self, level: &FinalizationLevel, key: &str) -> (step: FinalizationStep)
        requires
            unique_keys(old(self).file_states@),
        ensures
            unique_keys(final(self).file_states@),
            same_schedule(*final(self), *old(self)),
            match *level {
                FinalizationLevel::RangeComplete { range_start, range_end } => {
                    &&& step == (FinalizationStep::CheckRange { range_start, range_end })
                    &&& final(self).file_states == old(self).file_states
                },
                FinalizationLevel::FileComplete { final_file_path } => {
                    let cached = match state_position(old(self).file_states@, key@) {
                        Some(i) => old(self).file_states@[i].from_cache,
                        None => false,
                    };
                    if cached {
                        &&& step is Done
                        &&& final(self).file_states@.len() == old(self).file_states@.len()
                        &&& forall|k: int|
                            0 <= k < old(self).file_states@.len() ==> {
                                let o = old(self).file_states@[k];
                                let n = #[trigger] final(self).file_states@[k];
                                if o.file_key@ == key@ {
                                    n == (FileProgressState { is_file_finalized: true, ..o })
                                } else {
                                    n == o
                                }
                            }
                    } else {
                        &&& step matches FinalizationStep::FinalizeFile { final_file_path: p } && p@
                            == final_file_path@
                        &&& final(self).file_states == old(self).file_states
                    }
                },
                _ => step is Done && final(self).file_states == old(self).file_states,
            },
    {
        match level {
            FinalizationLevel::RangeComplete { range_start, range_end } => {
                FinalizationStep::CheckRange { range_start: *range_start, range_end: *range_end }
            },
            FinalizationLevel::FileComplete { final_file_path } => {
                if self.finalize_cached_file(key) {
                    FinalizationStep::Done
                } else {
                    FinalizationStep::FinalizeFile { final_file_path: final_file_path.clone() }
                }
            },
            _ => FinalizationStep::Done,
        }
    }

    /// The outcome of checking a completed range on disk: a range that is on disk
    /// is recorded for its file.
    pub fn range_checked(&mut self, key: &str, range_start: u64, range_end: u64, on_disk: bool)
        requires
            unique_keys(old(self).file_states@),
        ensures
            unique_keys(final(self).file_states@),
            same_schedule(*final(self), *old(self)),
            !on_disk ==> final(self).file_states == old(self).file_states,
            on_disk ==> final(self).file_states@.len() == old(self).file_states@.len() && forall|k: int|
                0 <= k < old(self).file_states@.len() ==> {
                    let o = old(self).file_states@[k];
                    let n = #[trigger] final(self).file_states@[k];
                    if o.file_key@ == key@ {
                        &&& n.ranges_completed@ == o.ranges_completed@.push((range_start, range_end))
                        &&& n.file_key == o.file_key
                        &&& n.model_id == o.model_id
                        &&& n.quant == o.quant
                        &&& n.local_filepath == o.local_filepath
                        &&& n.bytes_downloaded == o.bytes_downloaded
                        &&& n.total_bytes == o.total_bytes
                        &&& n.start_time_ms == o.start_time_ms
                        &&& n.last_update_ms == o.last_update_ms
                        &&& n.from_cache == o.from_cache
                        &&& n.is_file_finalized == o.is_file_finalized
                    } else {
                        n == o
                    }
                },
    {
        if on_disk {
            self.record_range_complete(key, range_start, range_end);
        }
    }

    /// The outcome of finalizing a completed file on disk: the file is marked
    /// finalized or not; a failure is reported with the final path.
    pub fn file_checked(&mut self, key: &str, final_file_path: &str, finalized: bool) -> (r: Result<(), String>)
        requires
            unique_keys(old(self).file_states@),
        ensures
            unique_keys(final(self).file_states@),
            same_schedule(*final(self), *old(self)),
            final(self).file_states@.len() == old(self).file_states@.len(),
            forall|k: int|
                0 <= k < old(self).file_states@.len() ==> {
                    let o = old(self).file_states@[k];
                    let n = #[trigger] final(self).file_states@[k];
                    if o.file_key@ == key@ {
                        n == (FileProgressState { is_file_finalized: finalized, ..o })
                    } else {
                        n == o
                    }
                },
            r is Ok <==> finalized,
            r matches Err(e) ==> e@ == "File finalization failed for "@ + final_file_path@
                + ": .part file missing or size mismatch"@,
    {
        self.set_file_finalized(key, finalized);
        if finalized {
            Ok(())
        } else {
            let mut e = String::from_str("File finalization failed for ");
            append_str(&mut e, final_file_path);
            append_str(&mut e, ": .part file missing or size mismatch");
            Err(e)
        }
    }
}

/// What the caller does on disk to handle a finalization event.
#[derive(Debug, Clone)]
pub enum FinalizationStep {
    /// Check that the partial file has reached `range_end`, then report the
    /// outcome with `range_checked`
    CheckRange { range_start: u64, range_end: u64 },
    /// Validate the partial file's size, move it to `final_file_path`, then report
    /// the outcome with `file_checked`
    FinalizeFile { final_file_path: String },
    /// Nothing to do on disk
    Done,
}

/// The size the repository manifest lists for `path`, if any.
pub open spec fn repo_size_lookup(sizes: Seq<(String, u64)>, path: Seq<char>) -> Option<u64>
    decreases sizes.len(),
{
    if sizes.len() == 0 {
        None
    } else {
        match repo_size_lookup(sizes.drop_last(), path) {
            Some(x) => Some(x),
            None => if sizes.last().0@ == path {
                Some(sizes.last().1)
            } else {
                None
            },
        }
    }
}

/// The expected size of a scanned file: the size the repository manifest lists
/// for it, else the size the scan found.
pub open spec fn expected_file_size(repo: Option<Vec<(String, u64)>>, path: Seq<char>, scanned: u64) -> u64 {
    match repo {
        Some(sizes) => match repo_size_lookup(sizes@, path) {
            Some(size) => size,
            None => scanned,
        },
        None => scanned,
    }
}

/// Metadata that records a file's local path.
pub open spec fn local_path_metadata(path: Seq<char>) -> Map<Seq<char>, Seq<char>> {
    no_metadata().insert("local_path"@, path)
}

/// The progress shown for a scanned file of a model whose cache directory is `dir`.
pub open spec fn scanned_file_view(f: FileProgressData, dir: PathBuf, repo: Option<Vec<(String, u64)>>) -> FileProgressView {
    FileProgressView {
        file_id: local_path_metadata(path_text(joined_path(dir, f.file_path@))),
        file_name: f.file_path@,
        bytes_downloaded: f.bytes_downloaded,
        total_bytes: expected_file_size(repo, f.file_path@, f.total_bytes),
        is_cached: f.from_cache,
        chunks_downloaded: Seq::empty(),
    }
}

/// A scanned model's total: the manifest's total when the manifest is of this
/// model, else the scanned total.
pub open spec fn scanned_model_total(m: ModelProgressData, manifest: Option<ManifestInfo>) -> u64 {
    match manifest {
        Some(mi) => if mi.model_id@ == m.model_id@ {
            mi.total_bytes
        } else {
            m.model_total_bytes
        },
        None => m.model_total_bytes,
    }
}

/// The progress shown for a scanned model.
pub open spec fn scanned_model_view(m: ModelProgressData, manifest: Option<ManifestInfo>, repo: Option<Vec<(String, u64)>>) -> ModelProgressView {
    ModelProgressView {
        model_id: m.model_id@,
        bytes_downloaded: m.model_bytes_downloaded,
        total_bytes: scanned_model_total(m, manifest),
        files: m.files@.map_values(|f: FileProgressData| scanned_file_view(f, m.model_cache_dir, repo)),
        is_cached: m.is_model_cached,
        metadata: no_metadata(),
    }
}

/// The overall total: the manifest's total when there is a manifest.
pub open spec fn overall_total_with(manifest: Option<ManifestInfo>, otherwise: nat) -> nat {
    match manifest {
        Some(mi) => mi.total_bytes as nat,
        None => otherwise,
    }
}

/// The tracked files of a model, in order.
pub open spec fn states_of(states: Seq<FileProgressState>, model_id: Seq<char>) -> Seq<FileProgressState>
    decreases states.len(),
{
    if states.len() == 0 {
        Seq::empty()
    } else {
        let rest = states_of(states.drop_last(), model_id);
        if states.last().model_id@ == model_id {
            rest.push(states.last())
        } else {
            rest
        }
    }
}

/// Bytes downloaded over tracked files.
pub open spec fn state_bytes_sum(s: Seq<FileProgressState>) -> nat
    decreases s.len(),
{
    if s.len() == 0 {
        0
    } else {
        state_bytes_sum(s.drop_last()) + s.last().bytes_downloaded as nat
    }
}

/// Total bytes over tracked files.
pub open spec fn state_total_sum(s: Seq<FileProgressState>) -> nat
    decreases s.len(),
{
    if s.len() == 0 {
        0
    } else {
        state_total_sum(s.drop_last()) + s.last().total_bytes as nat
    }
}

/// The progress shown for a tracked file when no scan is available; its local path
/// is taken within the cache directory `cache_dir`.
pub open spec fn fallback_file_view(st: FileProgressState, cache_dir: PathBuf) -> FileProgressView {
    FileProgressView {
        file_id: local_path_metadata(path_text(joined_path(cache_dir, st.local_filepath@))),
        file_name: st.local_filepath@,
        bytes_downloaded: st.bytes_downloaded,
        total_bytes: st.total_bytes,
        is_cached: st.from_cache,
        chunks_downloaded: Seq::empty(),
    }
}

/// The progress shown for a model from its tracked files when no scan is available.
pub open spec fn fallback_model_view(states: Seq<FileProgressState>, model_id: Seq<char>, cache_dir: PathBuf) -> ModelProgressView {
    let files = states_of(states, model_id);
    ModelProgressView {
        model_id: model_id,
        bytes_downloaded: state_bytes_sum(files) as u64,
        total_bytes: state_total_sum(files) as u64,
        files: files.map_values(|st: FileProgressState| fallback_file_view(st, cache_dir)),
        is_cached: false,
        metadata: no_metadata(),
    }
}

/// The models shown from tracked files when no scan is available, in order of
/// first appearance.
pub open spec fn fallback_models(states: Seq<FileProgressState>, cache_dir: PathBuf) -> Seq<ModelProgressView> {
    model_ids(states).map_values(|id: Seq<char>| fallback_model_view(states, id, cache_dir))
}

/// The byte sums of the fallback models fit in `u64`.
pub open spec fn fallback_sums_fit(states: Seq<FileProgressState>, cache_dir: PathBuf) -> bool {
    &&& forall|j: int| 0 <= j < model_ids(states).len() ==> state_bytes_sum(states_of(states, #[trigger] model_ids(states)[j])) <= u64::MAX
    &&& forall|j: int| 0 <= j < model_ids(states).len() ==> state_total_sum(states_of(states, #[trigger] model_ids(states)[j])) <= u64::MAX
    &&& models_downloaded_sum(fallback_models(states, cache_dir)) <= u64::MAX
    &&& models_total_sum(fallback_models(states, cache_dir)) <= u64::MAX
}

/// Whether the progress falls back to the tracked files: no scan results, some
/// files tracked, and the circuit breaker open.
pub open spec fn uses_fallback(d: CentralProgressDispatcher) -> bool {
    d.latest_scan_results is None && d.file_states@.len() > 0 && d.consecutive_scan_failures
        >= d.max_scan_failures
}

fn lookup_repo_size(sizes: &Vec<(String, u64)>, path: &str) -> (r: Option<u64>)
    ensures
        r == repo_size_lookup(sizes@, path@),
{
    let mut i: usize = 0;
    let mut found: Option<u64> = None;
    while i < sizes.len()
        invariant
            i <= sizes@.len(),
            found == repo_size_lookup(sizes@.take(i as int), path@),
        decreases sizes@.len() - i,
    {
        assert(sizes@.take(i + 1).drop_last() =~= sizes@.take(i as int));
        if found.is_none() && str_equal(sizes[i].0.as_str(), path) {
            found = Some(sizes[i].1);
        }
        i = i + 1;
    }
    assert(sizes@.take(sizes@.len() as int) =~= sizes@);
    found
}

fn local_path_file_id(path: String) -> (m: im::OrdMap<String, String>)
    ensures
        metadata_entries(m) == local_path_metadata(path@),
{
    let mut m = metadata_new();
    metadata_insert(&mut m, String::from_str("local_path"), path);
    m
}

fn scanned_file(f: &FileProgressData, dir: &PathBuf, repo: &Option<Vec<(String, u64)>>) -> (r: ImmutableFileProgress)
    ensures
        r@ == scanned_file_view(*f, *dir, *repo),
{
    let expected = match repo {
        Some(sizes) => match lookup_repo_size(sizes, f.file_path.as_str()) {
            Some(size) => size,
            None => f.total_bytes,
        },
        None => f.total_bytes,
    };
    let absolute = path_join(dir, f.file_path.as_str());
    ImmutableFileProgress {
        file_id: local_path_file_id(path_to_text(&absolute)),
        file_name: f.file_path.clone(),
        bytes_downloaded: f.bytes_downloaded,
        total_bytes: expected,
        is_cached: f.from_cache,
        chunks_downloaded: chunk_list_new(),
    }
}

fn scanned_model(m: &ModelProgressData, manifest: &Option<ManifestInfo>, repo: &Option<Vec<(String, u64)>>) -> (r: ImmutableModelProgress)
    ensures
        r@ == scanned_model_view(*m, *manifest, *repo),
{
    let ghost target = m.files@.map_values(|f: FileProgressData| scanned_file_view(f, m.model_cache_dir, *repo));
    let mut files = file_list_new();
    let mut i: usize = 0;
    while i < m.files.len()
        invariant
            i <= m.files@.len(),
            target == m.files@.map_values(|f: FileProgressData| scanned_file_view(f, m.model_cache_dir, *repo)),
            file_views(file_entries_of(files)) == target.take(i as int),
        decreases m.files@.len() - i,
    {
        let f = scanned_file(&m.files[i], &m.model_cache_dir, repo);
        let ghost before = file_entries_of(files);
        file_list_push_back(&mut files, f);
        assert(file_views(file_entries_of(files)) =~= file_views(before).push(f@));
        assert(target.take(i + 1) =~= target.take(i as int).push(target[i as int]));
        i = i + 1;
    }
    assert(target.take(m.files@.len() as int) =~= target);
    let total = match manifest {
        Some(mi) => if str_equal(mi.model_id.as_str(), m.model_id.as_str()) {
            mi.total_bytes
        } else {
            m.model_total_bytes
        },
        None => m.model_total_bytes,
    };
    ImmutableModelProgress {
        model_id: m.model_id.clone(),
        bytes_downloaded: m.model_bytes_downloaded,
        total_bytes: total,
        files,
        is_cached: m.is_model_cached,
        metadata: metadata_new(),
    }
}

proof fn lemma_state_sums_prefix(s: Seq<FileProgressState>, i: int)
    requires
        0 <= i <= s.len(),
    ensures
        state_bytes_sum(s.take(i)) <= state_bytes_sum(s),
        state_total_sum(s.take(i)) <= state_total_sum(s),
    decreases s.len(),
{
    if i == s.len() {
        assert(s.take(i) =~= s);
    } else {
        lemma_state_sums_prefix(s.drop_last(), i);
        assert(s.drop_last().take(i) =~= s.take(i));
    }
}

fn fallback_model(states: &Vec<FileProgressState>, model_id: &str, cache_dir: &PathBuf) -> (r: ImmutableModelProgress)
    requires
        state_bytes_sum(states_of(states@, model_id@)) <= u64::MAX,
        state_total_sum(states_of(states@, model_id@)) <= u64::MAX,
    ensures
        r@ == fallback_model_view(states@, model_id@, *cache_dir),
{
    let ghost all = states_of(states@, model_id@);
    let mut files = file_list_new();
    let mut downloaded: u64 = 0;
    let mut total: u64 = 0;
    let mut i: usize = 0;
    while i < states.len()
        invariant
            i <= states@.len(),
            all == states_of(states@, model_id@),
            state_bytes_sum(all) <= u64::MAX,
            state_total_sum(all) <= u64::MAX,
            states_of(states@.take(i as int), model_id@).len() <= all.len(),
            states_of(states@.take(i as int), model_id@) == all.take(states_of(states@.take(i as int), model_id@).len() as int),
            file_views(file_entries_of(files)) == states_of(states@.take(i as int), model_id@).map_values(
                |st: FileProgressState| fallback_file_view(st, *cache_dir),
            ),
            downloaded == state_bytes_sum(states_of(states@.take(i as int), model_id@)),
            total == state_total_sum(states_of(states@.take(i as int), model_id@)),
        decreases states@.len() - i,
    {
        assert(states@.take(i + 1).drop_last() =~= states@.take(i as int));
        let ghost before = states_of(states@.take(i as int), model_id@);
        if str_equal(states[i].model_id.as_str(), model_id) {
            let st = &states[i];
            proof {
                lemma_states_of_prefix(states@, model_id@, i + 1);
                let after = states_of(states@.take(i + 1), model_id@);
                assert(after == before.push(*st));
                assert(after =~= all.take(after.len() as int));
                assert(after.drop_last() =~= before);
                lemma_state_sums_prefix(all, after.len() as int);
            }
            let absolute = path_join(cache_dir, st.local_filepath.as_str());
            let f = ImmutableFileProgress {
                file_id: local_path_file_id(path_to_text(&absolute)),
                file_name: st.local_filepath.clone(),
                bytes_downloaded: st.bytes_downloaded,
                total_bytes: st.total_bytes,
                is_cached: st.from_cache,
                chunks_downloaded: chunk_list_new(),
            };
            downloaded = downloaded + st.bytes_downloaded;
            total = total + st.total_bytes;
            let ghost fbefore = file_entries_of(files);
            file_list_push_back(&mut files, f);
            assert(file_views(file_entries_of(files)) =~= file_views(fbefore).push(f@));
            assert(file_views(file_entries_of(files)) =~= states_of(states@.take(i + 1), model_id@).map_values(
                |st: FileProgressState| fallback_file_view(st, *cache_dir),
            ));
        } else {
            proof {
                lemma_states_of_prefix(states@, model_id@, i + 1);
            }
        }
        i = i + 1;
    }
    assert(states@.take(states@.len() as int) =~= states@);
    ImmutableModelProgress {
        model_id: String::from_str(model_id),
        bytes_downloaded: downloaded,
        total_bytes: total,
        files,
        is_cached: false,
        metadata: metadata_new(),
    }
}

proof fn lemma_states_of_prefix(states: Seq<FileProgressState>, model_id: Seq<char>, i: int)
    requires
        0 <= i <= states.len(),
    ensures
        states_of(states.take(i), model_id).len() <= states_of(states, model_id).len(),
        states_of(states.take(i), model_id) == states_of(states, model_id).take(
            states_of(states.take(i), model_id).len() as int,
        ),
    decreases states.len(),
{
    if i == states.len() {
        assert(states.take(i) =~= states);
        assert(states_of(states, model_id).take(states_of(states, model_id).len() as int) =~= states_of(states, model_id));
    } else {
        lemma_states_of_prefix(states.drop_last(), model_id, i);
        assert(states.drop_last().take(i) =~= states.take(i));
        let a = states_of(states.take(i), model_id);
        let b = states_of(states.drop_last(), model_id);
        if states.last().model_id@ == model_id {
            assert(b.push(states.last()).take(a.len() as int) =~= b.take(a.len() as int));
        }
    }
}

/// The models the display snapshot shows: the scanned models with their
/// manifest totals; without scan results and with the circuit breaker open, the
/// tracked files grouped by model; otherwise none.
pub open spec fn snapshot_models(d: CentralProgressDispatcher, cache_dir: PathBuf) -> Seq<ModelProgressView> {
    match d.latest_scan_results {
        Some(scan) => scan.models@.map_values(
            |m: ModelProgressData| scanned_model_view(m, d.manifest_info, d.repo_file_sizes),
        ),
        None => if uses_fallback(d) {
            fallback_models(d.file_states@, cache_dir)
        } else {
            Seq::empty()
        },
    }
}

/// The overall downloaded bytes of the display snapshot.
pub open spec fn snapshot_downloaded(d: CentralProgressDispatcher, cache_dir: PathBuf) -> nat {
    match d.latest_scan_results {
        Some(scan) => scan.overall_bytes_downloaded as nat,
        None => if uses_fallback(d) {
            models_downloaded_sum(fallback_models(d.file_states@, cache_dir))
        } else {
            0
        },
    }
}

/// The overall total bytes of the display snapshot: the manifest's total when
/// there is a manifest.
pub open spec fn snapshot_total(d: CentralProgressDispatcher, cache_dir: PathBuf) -> nat {
    overall_total_with(
        d.manifest_info,
        match d.latest_scan_results {
            Some(scan) => scan.overall_total_bytes as nat,
            None => if uses_fallback(d) {
                models_total_sum(fallback_models(d.file_states@, cache_dir))
            } else {
                0
            },
        },
    )
}

impl CentralProgressDispatcher {
    /// The progress state for displays. With scan results, every scanned model and
    /// file (file totals from the repository manifest when it lists the file, model
    /// and overall totals from the model manifest when there is one). Without scan
    /// results but with the circuit breaker open, the tracked files grouped by
    /// model; otherwise no models, and only the manifest's overall total.
    pub fn build_immutable_progress_state(&self, hf_cache_dir: &PathBuf) -> (s: ImmutableProgressState)
        requires
            uses_fallback(*self) ==> fallback_sums_fit(self.file_states@, *hf_cache_dir),
        ensures
            s@.manifest_data == no_metadata(),
            s@.models == snapshot_models(*self, *hf_cache_dir),
            s@.overall_bytes_downloaded == snapshot_downloaded(*self, *hf_cache_dir),
            s@.overall_total_bytes == snapshot_total(*self, *hf_cache_dir),
            match self.latest_scan_results {
                Some(scan) => {
                    &&& s@.models == scan.models@.map_values(
                        |m: ModelProgressData| scanned_model_view(m, self.manifest_info, self.repo_file_sizes),
                    )
                    &&& s@.overall_bytes_downloaded == scan.overall_bytes_downloaded
                    &&& s@.overall_total_bytes == overall_total_with(self.manifest_info, scan.overall_total_bytes as nat)
                },
                None => if uses_fallback(*self) {
                    &&& s@.models == fallback_models(self.file_states@, *hf_cache_dir)
                    &&& s@.overall_bytes_downloaded == models_downloaded_sum(s@.models)
                    &&& s@.overall_total_bytes == overall_total_with(self.manifest_info, models_total_sum(s@.models))
                } else {
                    &&& s@.models.len() == 0
                    &&& s@.overall_bytes_downloaded == 0
                    &&& s@.overall_total_bytes == overall_total_with(self.manifest_info, 0)
                },
            },
    {
        match &self.latest_scan_results {
            Some(scan) => {
                let ghost target = scan.models@.map_values(
                    |m: ModelProgressData| scanned_model_view(m, self.manifest_info, self.repo_file_sizes),
                );
                let mut models = model_list_new();
                let mut i: usize = 0;
                while i < scan.models.len()
                    invariant
                        i <= scan.models@.len(),
                        target == scan.models@.map_values(
                            |m: ModelProgressData| scanned_model_view(m, self.manifest_info, self.repo_file_sizes),
                        ),
                        model_views(model_entries_of(models)) == target.take(i as int),
                    decreases scan.models@.len() - i,
                {
                    let m = scanned_model(&scan.models[i], &self.manifest_info, &self.repo_file_sizes);
                    let ghost before = model_entries_of(models);
                    model_list_push_back(&mut models, m);
                    assert(model_views(model_entries_of(models)) =~= model_views(before).push(m@));
                    assert(target.take(i + 1) =~= target.take(i as int).push(target[i as int]));
                    i = i + 1;
                }
                assert(target.take(scan.models@.len() as int) =~= target);
                let total = match &self.manifest_info {
                    Some(mi) => mi.total_bytes,
                    None => scan.overall_total_bytes,
                };
                ImmutableProgressState {
                    models,
                    overall_bytes_downloaded: scan.overall_bytes_downloaded,
                    overall_total_bytes: total,
                    manifest_data: metadata_new(),
                    timestamp: system_time_now(),
                }
            },
            None => {
                if self.file_states.len() > 0 && self.consecutive_scan_failures >= self.max_scan_failures {
                    let ids = self.distinct_model_ids();
                    let ghost v = ids@.map_values(|x: String| x@);
                    let ghost target = fallback_models(self.file_states@, *hf_cache_dir);
                    let mut models = model_list_new();
                    let mut downloaded: u64 = 0;
                    let mut total: u64 = 0;
                    let mut j: usize = 0;
                    proof {
                        lemma_fallback_sums_prefix(target, 0);
                    }
                    while j < ids.len()
                        invariant
                            j <= ids@.len(),
                            v == ids@.map_values(|x: String| x@),
                            v == model_ids(self.file_states@),
                            target == fallback_models(self.file_states@, *hf_cache_dir),
                            target.len() == v.len(),
                            fallback_sums_fit(self.file_states@, *hf_cache_dir),
                            model_views(model_entries_of(models)) == target.take(j as int),
                            downloaded == models_downloaded_sum(target.take(j as int)),
                            total == models_total_sum(target.take(j as int)),
                        decreases ids@.len() - j,
                    {
                        assert(v[j as int] == ids@[j as int]@);
                        let m = fallback_model(&self.file_states, ids[j].as_str(), hf_cache_dir);
                        proof {
                            assert(target[j as int] == m@);
                            assert(target.take(j + 1).drop_last() =~= target.take(j as int));
                            lemma_fallback_sums_prefix(target, j + 1);
                        }
                        downloaded = downloaded + m.bytes_downloaded;
                        total = total + m.total_bytes;
                        let ghost before = model_entries_of(models);
                        model_list_push_back(&mut models, m);
                        assert(model_views(model_entries_of(models)) =~= model_views(before).push(m@));
                        assert(target.take(j + 1) =~= target.take(j as int).push(target[j as int]));
                        j = j + 1;
                    }
                    assert(target.take(ids@.len() as int) =~= target);
                    let overall_total = match &self.manifest_info {
                        Some(mi) => mi.total_bytes,
                        None => total,
                    };
                    ImmutableProgressState {
                        models,
                        overall_bytes_downloaded: downloaded,
                        overall_total_bytes: overall_total,
                        manifest_data: metadata_new(),
                        timestamp: system_time_now(),
                    }
                } else {
                    let total = match &self.manifest_info {
                        Some(mi) => mi.total_bytes,
                        None => 0,
                    };
                    ImmutableProgressState {
                        models: model_list_new(),
                        overall_bytes_downloaded: 0,
                        overall_total_bytes: total,
                        manifest_data: metadata_new(),
                        timestamp: system_time_now(),
                    }
                }
            },
        }
    }

    /// The snapshot for displays: the progress state, the quantization and the
    /// model data.
    pub fn create_progress_snapshot(&self, hf_cache_dir: &PathBuf) -> (c: ProgressCalculator)
        requires
            uses_fallback(*self) ==> fallback_sums_fit(self.file_states@, *hf_cache_dir),
        ensures
            c.quantization@ == if self.file_states@.len() > 0 {
                self.file_states@[0].quant@
            } else {
                "Unknown"@
            },
            c.model_data.current_model_id@ == if self.file_states@.len() > 0 {
                self.file_states@[0].model_id@
            } else {
                "Unknown"@
            },
            c.model_data.current_filename@ == if self.file_states@.len() > 0 {
                self.file_states@[0].local_filepath@
            } else {
                "Unknown"@
            },
            c.model_data.total_models == model_ids(self.file_states@).len(),
            c.model_data.completed_models == complete_model_ids(self.file_states@, model_ids(self.file_states@)),
            c.progress_state@.models.len() == snapshot_models(*self, *hf_cache_dir).len(),
            forall|i: int|
                0 <= i < c.progress_state@.models.len() ==> is_display_sorted(
                    #[trigger] c.progress_state@.models[i],
                    snapshot_models(*self, *hf_cache_dir)[i],
                ),
            c.progress_state@.overall_bytes_downloaded == snapshot_downloaded(*self, *hf_cache_dir),
            c.progress_state@.overall_total_bytes == snapshot_total(*self, *hf_cache_dir),
            c.progress_state@.manifest_data == no_metadata(),
    {
        let state = self.build_immutable_progress_state(hf_cache_dir);
        let quantization = self.quantization();
        let model_data = self.build_model_data();
        ProgressCalculator::new(state, quantization, model_data)
    }
}

proof fn lemma_fallback_sums_prefix(models: Seq<ModelProgressView>, i: int)
    requires
        0 <= i <= models.len(),
    ensures
        models_downloaded_sum(models.take(i)) <= models_downloaded_sum(models),
        models_total_sum(models.take(i)) <= models_total_sum(models),
    decreases models.len(),
{
    if i == models.len() {
        assert(models.take(i) =~= models);
    } else {
        lemma_fallback_sums_prefix(models.drop_last(), i);
        assert(models.drop_last().take(i) =~= models.take(i));
    }
}

} // verus!
