//! The progress snapshot that flows to displays, with every formatted string they
//! show.
//!
//! Speed and ETA figures are floating-point and stay with the caller; a snapshot
//! here holds the progress state, the quantization and the model data.

use vstd::prelude::*;
use crate::calculator::types::{
    FileProgressView, ImmutableFileProgress, ImmutableModelProgress, ImmutableProgressState,
    ModelProgressView, byte_percentage_display, byte_percentage_formatted, bytes_complete,
    bytes_pair_display, bytes_pair_formatted, complete_file_count, file_entries_of, file_list_get,
    file_list_len, file_list_new, file_list_push_back, file_views, model_entries_of, model_list_get,
    model_list_len, model_list_new, model_list_push_back, model_views,
};
use crate::calculator::formatter::{bytes_display, format_bytes};
use crate::calculator::quantization_analyzer::{
    FileAnalysisInfo, QuantizationAnalysis, QuantizationAnalyzer, is_analysis_of, matching_count,
    quantization_check, quantization_count, normalized, table_count,
};
use crate::results::{DownloadStatus, DownloadSummary, FileResult, ModelResult, ZeroOneOrMany};
use crate::std_types::{path_from, path_from_string};
use crate::text::{append_str, decimal, write_decimal};
use std::time::Duration;

verus! {

broadcast use vstd::seq_lib::group_to_multiset_ensures;

/// Model-specific data for display.
#[derive(Debug, Clone)]
pub struct ModelData {
    /// Current model being processed
    pub current_model_id: String,
    /// Current file being processed
    pub current_filename: String,
    /// Total models to download
    pub total_models: usize,
    /// Completed models
    pub completed_models: usize,
}

impl ModelData {
    /// Create model data.
    pub fn new(current_model_id: String, current_filename: String, total_models: usize, completed_models: usize) -> (d:
        Self)
        ensures
            d.current_model_id == current_model_id,
            d.current_filename == current_filename,
            d.total_models == total_models,
            d.completed_models == completed_models,
    {
        ModelData { current_model_id, current_filename, total_models, completed_models }
    }

    /// Record the file being processed.
    pub fn update_current_file(&mut self, filename: String)
        ensures
            final(self).current_filename == filename,
            final(self).current_model_id == old(self).current_model_id,
            final(self).total_models == old(self).total_models,
            final(self).completed_models == old(self).completed_models,
    {
        self.current_filename = filename;
    }

    /// Count one more completed model.
    pub fn complete_model(&mut self)
        requires
            old(self).completed_models < usize::MAX,
        ensures
            final(self).completed_models == old(self).completed_models + 1,
            final(self).current_model_id == old(self).current_model_id,
            final(self).current_filename == old(self).current_filename,
            final(self).total_models == old(self).total_models,
    {
        self.completed_models = self.completed_models + 1;
    }
}

/// File display order: incomplete files before complete ones, and within each
/// group larger files first.
pub open spec fn file_goes_before(a: FileProgressView, b: FileProgressView) -> bool {
    let ca = bytes_complete(a.bytes_downloaded, a.total_bytes);
    let cb = bytes_complete(b.bytes_downloaded, b.total_bytes);
    (!ca && cb) || (ca == cb && a.total_bytes >= b.total_bytes)
}

/// Files in display order.
pub open spec fn in_display_order(s: Seq<FileProgressView>) -> bool {
    forall|i: int, j: int| 0 <= i < j < s.len() ==> file_goes_before(#[trigger] s[i], #[trigger] s[j])
}

/// Where `x` goes among files in display order: before the first file that it
/// precedes strictly, so after every file with an equal sort key.
pub open spec fn display_insert_position(s: Seq<FileProgressView>, x: FileProgressView) -> int
    decreases s.len(),
{
    if s.len() == 0 {
        0
    } else if !file_goes_before(s[0], x) {
        0
    } else {
        1 + display_insert_position(s.drop_first(), x)
    }
}

/// The files in display order, sorted stably: files with equal sort keys keep
/// their order.
pub open spec fn display_order(files: Seq<FileProgressView>) -> Seq<FileProgressView>
    decreases files.len(),
{
    if files.len() == 0 {
        Seq::empty()
    } else {
        let s = display_order(files.drop_last());
        s.insert(display_insert_position(s, files.last()), files.last())
    }
}

proof fn lemma_display_insert_position(s: Seq<FileProgressView>, x: FileProgressView, p: int)
    requires
        0 <= p <= s.len(),
        forall|k: int| 0 <= k < p ==> file_goes_before(#[trigger] s[k], x),
        p < s.len() ==> !file_goes_before(s[p], x),
    ensures
        display_insert_position(s, x) == p,
    decreases p,
{
    if p > 0 {
        let t = s.drop_first();
        assert forall|k: int| 0 <= k < p - 1 implies file_goes_before(#[trigger] t[k], x) by {
            assert(t[k] == s[k + 1]);
        }
        if p - 1 < t.len() {
            assert(t[p - 1] == s[p]);
        }
        lemma_display_insert_position(t, x, p - 1);
        assert(file_goes_before(s[0], x));
    }
}

/// `sorted` is `m` with its files put in display order, stably.
pub open spec fn is_display_sorted(sorted: ModelProgressView, m: ModelProgressView) -> bool {
    &&& sorted.files == display_order(m.files)
    &&& sorted.model_id == m.model_id
    &&& sorted.bytes_downloaded == m.bytes_downloaded
    &&& sorted.total_bytes == m.total_bytes
    &&& sorted.is_cached == m.is_cached
    &&& sorted.metadata == m.metadata
    &&& in_display_order(sorted.files)
    &&& sorted.files.to_multiset() == m.files.to_multiset()
}

fn goes_before_exec(a: &ImmutableFileProgress, b: &ImmutableFileProgress) -> (r: bool)
    ensures
        r == file_goes_before(a@, b@),
{
    let ca = a.is_complete();
    let cb = b.is_complete();
    (!ca && cb) || (ca == cb && a.total_bytes >= b.total_bytes)
}

/// Put a model's files in display order.
fn sort_model_files(m: &ImmutableModelProgress) -> (r: ImmutableModelProgress)
    ensures
        is_display_sorted(r@, m@),
{
    let ghost views = m@.files;
    let n = file_list_len(&m.files);
    let mut sorted: Vec<ImmutableFileProgress> = Vec::new();
    let mut i: usize = 0;
    while i < n
        invariant
            i <= n,
            n == views.len(),
            views == m@.files,
            in_display_order(file_views(sorted@)),
            file_views(sorted@).to_multiset() == views.take(i as int).to_multiset(),
            file_views(sorted@) == display_order(views.take(i as int)),
        decreases n - i,
    {
        let f = file_list_get(&m.files, i).unwrap().clone();
        let ghost fv = f@;
        let ghost sv = file_views(sorted@);
        let mut p: usize = 0;
        let len = sorted.len();
        while p < len && goes_before_exec(&sorted[p], &f)
            invariant
                p <= len,
                len == sorted@.len(),
                sv == file_views(sorted@),
                fv == f@,
                forall|k: int| 0 <= k < p ==> file_goes_before(#[trigger] sv[k], fv),
            decreases len - p,
        {
            p = p + 1;
        }
        proof {
            assert forall|k: int| p <= k < sv.len() implies !file_goes_before(#[trigger] sv[k], fv) by {
                assert(!file_goes_before(sv[p as int], fv));
                if k > p {
                    assert(file_goes_before(sv[p as int], sv[k]));
                }
            }
        }
        sorted.insert(p, f);
        proof {
            let s2 = file_views(sorted@);
            assert(s2 =~= sv.insert(p as int, fv));
            assert forall|a: int, b: int| 0 <= a < b < s2.len() implies file_goes_before(
                #[trigger] s2[a],
                #[trigger] s2[b],
            ) by {
                if a < p && b < p {
                    assert(s2[a] == sv[a] && s2[b] == sv[b]);
                } else if a < p && b == p {
                } else if a < p && b > p {
                    assert(s2[a] == sv[a] && s2[b] == sv[b - 1]);
                } else if a == p {
                    assert(s2[b] == sv[b - 1]);
                    assert(!file_goes_before(sv[b - 1], fv));
                } else {
                    assert(s2[a] == sv[a - 1] && s2[b] == sv[b - 1]);
                }
            }
            assert(views.take(i + 1) =~= views.take(i as int).push(fv));
            lemma_display_insert_position(sv, fv, p as int);
            assert(views.take(i + 1).drop_last() =~= views.take(i as int));
        }
        i = i + 1;
    }
    assert(views.take(n as int) =~= views);
    let mut files = file_list_new();
    let ghost target = file_views(sorted@);
    let total = sorted.len();
    let mut j: usize = 0;
    while j < total
        invariant
            j <= total,
            total == sorted@.len(),
            target == file_views(sorted@),
            file_views(file_entries_of(files)) == target.take(j as int),
        decreases total - j,
    {
        let c = sorted[j].clone();
        let ghost before = file_entries_of(files);
        file_list_push_back(&mut files, c);
        assert(file_views(file_entries_of(files)) =~= file_views(before).push(target[j as int]));
        assert(target.take(j + 1) =~= target.take(j as int).push(target[j as int]));
        j = j + 1;
    }
    assert(target.take(total as int) =~= target);
    ImmutableModelProgress {
        model_id: m.model_id.clone(),
        bytes_downloaded: m.bytes_downloaded,
        total_bytes: m.total_bytes,
        files,
        is_cached: m.is_cached,
        metadata: crate::calculator::types::metadata_clone(&m.metadata),
    }
}

/// A progress snapshot: the progress state (files of each model in display
/// order), the quantization being downloaded and the model data.
#[derive(Debug, Clone)]
pub struct ProgressCalculator {
    /// Current immutable progress state
    pub progress_state: ImmutableProgressState,
    /// Quantization information for display
    pub quantization: String,
    /// Model-specific data
    pub model_data: ModelData,
}

/// Status of a file for display.
#[derive(Debug, Clone, Copy, PartialEq, Eq, Structural)]
pub enum FileStatus {
    /// Not started
    Pending,
    /// Some bytes downloaded
    Downloading,
    /// Download complete
    Completed,
}

/// Number of files over the models.
pub open spec fn total_file_count(models: Seq<ModelProgressView>) -> nat
    decreases models.len(),
{
    if models.len() == 0 {
        0
    } else {
        total_file_count(models.drop_last()) + models.last().files.len()
    }
}

/// Number of complete files over the models.
pub open spec fn complete_files_total(models: Seq<ModelProgressView>) -> nat
    decreases models.len(),
{
    if models.len() == 0 {
        0
    } else {
        complete_files_total(models.drop_last()) + complete_file_count(models.last().files)
    }
}

/// Number of files that downloaded at least their total (a zero total counts).
pub open spec fn finished_file_count(files: Seq<FileProgressView>) -> nat
    decreases files.len(),
{
    if files.len() == 0 {
        0
    } else {
        finished_file_count(files.drop_last()) + if files.last().bytes_downloaded
            >= files.last().total_bytes {
            1nat
        } else {
            0nat
        }
    }
}

/// Finished files over the models.
pub open spec fn finished_files_total(models: Seq<ModelProgressView>) -> nat
    decreases models.len(),
{
    if models.len() == 0 {
        0
    } else {
        finished_files_total(models.drop_last()) + finished_file_count(models.last().files)
    }
}

/// Number of downloaded chunks over files.
pub open spec fn chunk_count(files: Seq<FileProgressView>) -> nat
    decreases files.len(),
{
    if files.len() == 0 {
        0
    } else {
        chunk_count(files.drop_last()) + files.last().chunks_downloaded.len()
    }
}

/// Number of downloaded chunks over the models.
pub open spec fn chunks_total(models: Seq<ModelProgressView>) -> nat
    decreases models.len(),
{
    if models.len() == 0 {
        0
    } else {
        chunks_total(models.drop_last()) + chunk_count(models.last().files)
    }
}

proof fn lemma_file_counts_bound(files: Seq<FileProgressView>)
    ensures
        complete_file_count(files) <= files.len(),
        finished_file_count(files) <= files.len(),
    decreases files.len(),
{
    if files.len() > 0 {
        lemma_file_counts_bound(files.drop_last());
    }
}

proof fn lemma_model_counts_prefix(models: Seq<ModelProgressView>, i: int)
    requires
        0 <= i <= models.len(),
    ensures
        total_file_count(models.take(i)) <= total_file_count(models),
        chunks_total(models.take(i)) <= chunks_total(models),
        complete_files_total(models.take(i)) <= total_file_count(models.take(i)),
        finished_files_total(models.take(i)) <= total_file_count(models.take(i)),
    decreases models.len(),
{
    if i == models.len() {
        assert(models.take(i) =~= models);
        lemma_model_counts_whole(models);
    } else {
        lemma_model_counts_prefix(models.drop_last(), i);
        assert(models.drop_last().take(i) =~= models.take(i));
    }
}

proof fn lemma_model_counts_whole(models: Seq<ModelProgressView>)
    ensures
        complete_files_total(models) <= total_file_count(models),
        finished_files_total(models) <= total_file_count(models),
    decreases models.len(),
{
    if models.len() > 0 {
        lemma_model_counts_whole(models.drop_last());
        lemma_file_counts_bound(models.last().files);
    }
}

proof fn lemma_chunk_count_prefix(files: Seq<FileProgressView>, i: int)
    requires
        0 <= i <= files.len(),
    ensures
        chunk_count(files.take(i)) <= chunk_count(files),
    decreases files.len(),
{
    if i == files.len() {
        assert(files.take(i) =~= files);
    } else {
        lemma_chunk_count_prefix(files.drop_last(), i);
        assert(files.drop_last().take(i) =~= files.take(i));
    }
}

/// "Complete", "1 file remaining" or "{n} files remaining".
pub open spec fn remaining_files_display(remaining: nat) -> Seq<char> {
    if remaining == 0 {
        "Complete"@
    } else if remaining == 1 {
        "1 file remaining"@
    } else {
        decimal(remaining) + " files remaining"@
    }
}

/// The display of a duration in seconds: "45s", "2m 34s", or hours and minutes
/// without seconds ("1h 15m").
pub open spec fn duration_display(seconds: u64) -> Seq<char> {
    if seconds < 60 {
        decimal(seconds as nat) + "s"@
    } else if seconds < 3600 {
        decimal((seconds / 60) as nat) + "m "@ + decimal((seconds % 60) as nat) + "s"@
    } else {
        decimal((seconds / 3600) as nat) + "h "@ + decimal(((seconds % 3600) / 60) as nat) + "m"@
    }
}

/// Counts of models (pending, active, completed): a model with no known total is
/// pending, one that downloaded its total is completed, the others are active.
pub open spec fn model_state_counts(models: Seq<ModelProgressView>) -> (nat, nat, nat)
    decreases models.len(),
{
    if models.len() == 0 {
        (0, 0, 0)
    } else {
        let (p, a, c) = model_state_counts(models.drop_last());
        let m = models.last();
        if m.total_bytes == 0 {
            (p + 1, a, c)
        } else if m.bytes_downloaded >= m.total_bytes {
            (p, a, c + 1)
        } else {
            (p, a + 1, c)
        }
    }
}

proof fn lemma_model_state_counts_sum(models: Seq<ModelProgressView>)
    ensures
        model_state_counts(models).0 + model_state_counts(models).1 + model_state_counts(models).2
            == models.len(),
    decreases models.len(),
{
    if models.len() > 0 {
        lemma_model_state_counts_sum(models.drop_last());
    }
}

/// The status of a model's download: complete when it downloaded its (nonzero)
/// total, partial (its complete files out of all its files) when some bytes were
/// downloaded, failed otherwise.
pub open spec fn status_of_model(st: DownloadStatus, m: ModelProgressView) -> bool {
    if m.bytes_downloaded >= m.total_bytes && m.total_bytes > 0 {
        st is Complete
    } else if m.bytes_downloaded > 0 {
        st == DownloadStatus::Partial {
            completed_files: complete_file_count(m.files) as usize,
            total_files: m.files.len() as usize,
        }
    } else {
        st matches DownloadStatus::Failed { error } && error@ == "No bytes downloaded"@
    }
}

/// The local path of a file: its "local_path" metadata, else its name.
pub open spec fn local_path_of(f: FileProgressView) -> Seq<char> {
    if f.file_id.contains_key("local_path"@) {
        f.file_id["local_path"@]
    } else {
        f.file_name
    }
}

/// `r` reports the file `f`.
pub open spec fn is_file_result(r: FileResult, f: FileProgressView) -> bool {
    &&& r.filename@ == f.file_name
    &&& r.path == path_from_string(local_path_of(f))
    &&& r.downloaded_size == f.bytes_downloaded
    &&& r.expected_size == f.total_bytes
    &&& r.hash is None
    &&& r.from_cache == f.is_cached
}

/// `r` reports the model `m`, downloaded into `cache_path` in `duration`.
pub open spec fn is_model_result(r: ModelResult, m: ModelProgressView, cache_path: Seq<char>, duration: Duration) -> bool {
    &&& r.model_id@ == m.model_id
    &&& status_of_model(r.status, m)
    &&& r.model_cache_path == path_from_string(cache_path)
    &&& r.files@.len() == m.files.len()
    &&& (forall|k: int| 0 <= k < m.files.len() ==> is_file_result(#[trigger] r.files@[k], m.files[k]))
    &&& r.total_downloaded_bytes == m.bytes_downloaded
    &&& r.total_expected_bytes == m.total_bytes
    &&& r.files_downloaded == m.files.len()
    &&& r.files_expected == m.files.len()
    &&& r.duration == duration
    &&& r.size_reconciled == (m.bytes_downloaded == m.total_bytes)
}

/// A file has as many bytes downloaded as expected.
pub open spec fn file_reconciled(f: FileProgressView) -> bool {
    f.bytes_downloaded == f.total_bytes
}

/// A model, and each of its files, has as many bytes downloaded as expected.
pub open spec fn model_reconciled(m: ModelProgressView) -> bool {
    &&& m.bytes_downloaded == m.total_bytes
    &&& forall|k: int| 0 <= k < m.files.len() ==> #[trigger] file_reconciled(m.files[k])
}

/// Every model, and every file of every model, has as many bytes downloaded as
/// expected.
pub open spec fn sizes_reconciled(models: Seq<ModelProgressView>) -> bool {
    forall|i: int| 0 <= i < models.len() ==> #[trigger] model_reconciled(models[i])
}

fn file_result_of(f: &ImmutableFileProgress) -> (r: FileResult)
    ensures
        is_file_result(r, f@),
{
    let local = match crate::calculator::types::metadata_get(&f.file_id, "local_path") {
        Some(p) => p.clone(),
        None => f.file_name.clone(),
    };
    FileResult {
        filename: f.file_name.clone(),
        path: path_from(local),
        downloaded_size: f.bytes_downloaded,
        expected_size: f.total_bytes,
        hash: None,
        from_cache: f.is_cached,
    }
}

fn model_result_of(m: &ImmutableModelProgress, cache_path: &String, duration: Duration) -> (r: ModelResult)
    ensures
        is_model_result(r, m@, cache_path@, duration),
{
    let n = file_list_len(&m.files);
    let status = if m.bytes_downloaded >= m.total_bytes && m.total_bytes > 0 {
        DownloadStatus::Complete
    } else if m.bytes_downloaded > 0 {
        DownloadStatus::Partial { completed_files: m.completed_files(), total_files: n }
    } else {
        DownloadStatus::Failed { error: String::from_str("No bytes downloaded") }
    };
    let mut files: Vec<FileResult> = Vec::new();
    let mut i: usize = 0;
    while i < n
        invariant
            i <= n,
            n == m@.files.len(),
            files@.len() == i,
            forall|k: int| 0 <= k < i ==> is_file_result(#[trigger] files@[k], m@.files[k]),
        decreases n - i,
    {
        let f = file_list_get(&m.files, i).unwrap();
        files.push(file_result_of(f));
        i = i + 1;
    }
    ModelResult {
        model_id: m.model_id.clone(),
        status,
        model_cache_path: path_from(cache_path.clone()),
        files,
        total_downloaded_bytes: m.bytes_downloaded,
        total_expected_bytes: m.total_bytes,
        files_downloaded: n,
        files_expected: n,
        duration,
        size_reconciled: m.bytes_downloaded == m.total_bytes,
    }
}

impl ProgressCalculator {
    /// The file and chunk counts over all models fit in `usize`.
    pub open spec fn counts_fit(&self) -> bool {
        &&& total_file_count(self.progress_state@.models) <= usize::MAX
        &&& chunks_total(self.progress_state@.models) <= usize::MAX
    }

    /// Create a snapshot; the files of each model are put in display order
    /// (incomplete before complete, larger first).
    pub fn new(progress_state: ImmutableProgressState, quantization: String, model_data: ModelData) -> (c:
        Self)
        ensures
            c.progress_state@.models.len() == progress_state@.models.len(),
            forall|i: int|
                0 <= i < progress_state@.models.len() ==> is_display_sorted(
                    #[trigger] c.progress_state@.models[i],
                    progress_state@.models[i],
                ),
            c.progress_state@.overall_bytes_downloaded == progress_state@.overall_bytes_downloaded,
            c.progress_state@.overall_total_bytes == progress_state@.overall_total_bytes,
            c.progress_state@.manifest_data == progress_state@.manifest_data,
            c.progress_state@.timestamp == progress_state@.timestamp,
            c.quantization == quantization,
            c.model_data == model_data,
    {
        let ghost views = progress_state@.models;
        let n = model_list_len(&progress_state.models);
        let mut models = model_list_new();
        let mut i: usize = 0;
        while i < n
            invariant
                i <= n,
                n == views.len(),
                views == progress_state@.models,
                model_views(model_entries_of(models)).len() == i,
                forall|k: int|
                    0 <= k < i ==> is_display_sorted(
                        #[trigger] model_views(model_entries_of(models))[k],
                        views[k],
                    ),
            decreases n - i,
        {
            let m = model_list_get(&progress_state.models, i).unwrap();
            let sorted = sort_model_files(m);
            let ghost before = model_entries_of(models);
            model_list_push_back(&mut models, sorted);
            proof {
                let mv = model_views(model_entries_of(models));
                assert forall|k: int| 0 <= k < i + 1 implies is_display_sorted(
                    #[trigger] mv[k],
                    views[k],
                ) by {
                    if k < i {
                        assert(mv[k] == model_views(before)[k]);
                    }
                }
            }
            i = i + 1;
        }
        let state = ImmutableProgressState {
            models,
            overall_bytes_downloaded: progress_state.overall_bytes_downloaded,
            overall_total_bytes: progress_state.overall_total_bytes,
            manifest_data: progress_state.manifest_data,
            timestamp: progress_state.timestamp,
        };
        ProgressCalculator { progress_state: state, quantization, model_data }
    }

    /// The overall percentage, e.g. " 76.4%", "100.0%", or "---" for an unknown total.
    pub fn percentage_formatted(&self) -> (s: String)
        ensures
            s@ == byte_percentage_display(
                self.progress_state.overall_bytes_downloaded,
                self.progress_state.overall_total_bytes,
            ),
    {
        byte_percentage_formatted(
            self.progress_state.overall_bytes_downloaded,
            self.progress_state.overall_total_bytes,
        )
    }

    /// The model progress collection.
    pub fn get_model_progress(&self) -> (r: &im::Vector<ImmutableModelProgress>)
        ensures
            *r == self.progress_state.models,
    {
        &self.progress_state.models
    }

    /// "downloaded / total" over all models, e.g. "1.20 GB / 3.40 GB".
    pub fn bytes_formatted(&self) -> (s: String)
        ensures
            s@ == bytes_pair_display(
                self.progress_state.overall_bytes_downloaded,
                self.progress_state.overall_total_bytes,
            ),
    {
        bytes_pair_formatted(
            self.progress_state.overall_bytes_downloaded,
            self.progress_state.overall_total_bytes,
        )
    }

    /// Bytes still to download.
    pub fn remaining_bytes(&self) -> (r: u64)
        ensures
            r == (if self.progress_state.overall_total_bytes >= self.progress_state.overall_bytes_downloaded {
                self.progress_state.overall_total_bytes - self.progress_state.overall_bytes_downloaded
            } else {
                0
            }),
    {
        self.progress_state.overall_total_bytes.saturating_sub(self.progress_state.overall_bytes_downloaded)
    }

    /// Total and complete file counts over all models.
    fn file_totals(&self) -> (r: (usize, usize, usize))
        requires
            self.counts_fit(),
        ensures
            r.0 == total_file_count(self.progress_state@.models),
            r.1 == complete_files_total(self.progress_state@.models),
            r.2 == finished_files_total(self.progress_state@.models),
    {
        let ghost views = self.progress_state@.models;
        let ms = &self.progress_state.models;
        let n = model_list_len(ms);
        let mut total: usize = 0;
        let mut complete: usize = 0;
        let mut finished: usize = 0;
        let mut i: usize = 0;
        while i < n
            invariant
                i <= n,
                n == views.len(),
                views == self.progress_state@.models,
                *ms == self.progress_state.models,
                total_file_count(views) <= usize::MAX,
                total == total_file_count(views.take(i as int)),
                complete == complete_files_total(views.take(i as int)),
                finished == finished_files_total(views.take(i as int)),
            decreases n - i,
        {
            let m = model_list_get(ms, i).unwrap();
            proof {
                assert(views.take(i + 1).drop_last() =~= views.take(i as int));
                assert(views.take(i + 1).last() == m@);
                lemma_model_counts_prefix(views, i + 1);
            }
            let files_here = file_list_len(&m.files);
            let complete_here = m.completed_files();
            let finished_here = finished_files_of(m);
            total = total + files_here;
            complete = complete + complete_here;
            finished = finished + finished_here;
            i = i + 1;
        }
        assert(views.take(n as int) =~= views);
        (total, complete, finished)
    }

    /// "Complete", "1 file remaining" or "{n} files remaining", counting the files
    /// not yet complete.
    pub fn files_remaining_formatted(&self) -> (s: String)
        requires
            self.counts_fit(),
        ensures
            s@ == remaining_files_display(
                (total_file_count(self.progress_state@.models) - complete_files_total(
                    self.progress_state@.models,
                )) as nat,
            ),
    {
        let (total, complete, _) = self.file_totals();
        proof {
            lemma_model_counts_whole(self.progress_state@.models);
        }
        let remaining = total - complete;
        if remaining == 0 {
            String::from_str("Complete")
        } else if remaining == 1 {
            String::from_str("1 file remaining")
        } else {
            let mut s = String::new();
            write_decimal(&mut s, remaining as u64);
            append_str(&mut s, " files remaining");
            s
        }
    }

    /// "Model: Download complete", or "Model: {percentage} complete".
    pub fn overall_progress_formatted(&self) -> (s: String)
        ensures
            s@ == if bytes_complete(
                self.progress_state.overall_bytes_downloaded,
                self.progress_state.overall_total_bytes,
            ) {
                "Model: Download complete"@
            } else {
                "Model: "@ + byte_percentage_display(
                    self.progress_state.overall_bytes_downloaded,
                    self.progress_state.overall_total_bytes,
                ) + " complete"@
            },
    {
        if self.progress_state.is_complete() {
            String::from_str("Model: Download complete")
        } else {
            let mut s = String::from_str("Model: ");
            let p = self.percentage_formatted();
            append_str(&mut s, p.as_str());
            append_str(&mut s, " complete");
            s
        }
    }

    /// "Quantization: {quantization}".
    pub fn quantization_info_formatted(&self) -> (s: String)
        ensures
            s@ == "Quantization: "@ + self.quantization@,
    {
        let mut s = String::from_str("Quantization: ");
        append_str(&mut s, self.quantization.as_str());
        s
    }

    /// "{model} ({current} of {total} models)", the current model being the one
    /// after the completed ones.
    pub fn model_progress_formatted(&self) -> (s: String)
        requires
            self.model_data.completed_models < usize::MAX,
        ensures
            s@ == self.model_data.current_model_id@ + " ("@ + decimal(
                (self.model_data.completed_models + 1) as nat,
            ) + " of "@ + decimal(self.model_data.total_models as nat) + " models)"@,
    {
        let mut s = self.model_data.current_model_id.clone();
        append_str(&mut s, " (");
        write_decimal(&mut s, (self.model_data.completed_models + 1) as u64);
        append_str(&mut s, " of ");
        write_decimal(&mut s, self.model_data.total_models as u64);
        append_str(&mut s, " models)");
        s
    }

    /// The current file's name.
    pub fn current_file_formatted(&self) -> (s: String)
        ensures
            s@ == self.model_data.current_filename@,
    {
        self.model_data.current_filename.clone()
    }

    /// "downloaded / total" for a model.
    pub fn model_bytes_formatted(&self, model: &ImmutableModelProgress) -> (s: String)
        ensures
            s@ == bytes_pair_display(model.bytes_downloaded, model.total_bytes),
    {
        bytes_pair_formatted(model.bytes_downloaded, model.total_bytes)
    }

    /// "downloaded / total" for a file.
    pub fn file_bytes_formatted(&self, file: &ImmutableFileProgress) -> (s: String)
        ensures
            s@ == bytes_pair_display(file.bytes_downloaded, file.total_bytes),
    {
        bytes_pair_formatted(file.bytes_downloaded, file.total_bytes)
    }

    /// "{model}:{file}", the key that identifies the current file.
    pub fn progress_key(&self) -> (s: String)
        ensures
            s@ == self.model_data.current_model_id@ + ":"@ + self.model_data.current_filename@,
    {
        let mut s = self.model_data.current_model_id.clone();
        append_str(&mut s, ":");
        append_str(&mut s, self.model_data.current_filename.as_str());
        s
    }

    /// Whether all downloads are complete.
    pub fn is_complete(&self) -> (b: bool)
        ensures
            b == bytes_complete(
                self.progress_state.overall_bytes_downloaded,
                self.progress_state.overall_total_bytes,
            ),
    {
        self.progress_state.is_complete()
    }

    /// Whether downloads are in progress: not complete, some bytes downloaded.
    pub fn is_downloading(&self) -> (b: bool)
        ensures
            b == (!bytes_complete(
                self.progress_state.overall_bytes_downloaded,
                self.progress_state.overall_total_bytes,
            ) && self.progress_state.overall_bytes_downloaded > 0),
    {
        !self.is_complete() && self.progress_state.overall_bytes_downloaded > 0
    }

    /// The progress state.
    pub fn get_progress_state(&self) -> (r: &ImmutableProgressState)
        ensures
            *r == self.progress_state,
    {
        &self.progress_state
    }

    /// (downloaded, total, percentage), formatted.
    pub fn get_total_progress_formatted(&self) -> (r: (String, String, String))
        ensures
            r.0@ == bytes_display(self.progress_state.overall_bytes_downloaded as nat),
            r.1@ == bytes_display(self.progress_state.overall_total_bytes as nat),
            r.2@ == byte_percentage_display(
                self.progress_state.overall_bytes_downloaded,
                self.progress_state.overall_total_bytes,
            ),
    {
        let downloaded = format_bytes(self.progress_state.overall_bytes_downloaded);
        let total = format_bytes(self.progress_state.overall_total_bytes);
        let percentage = self.percentage_formatted();
        (downloaded, total, percentage)
    }

    /// "{downloaded} / {total} ({percentage})".
    pub fn get_progress_summary_formatted(&self) -> (s: String)
        ensures
            s@ == bytes_display(self.progress_state.overall_bytes_downloaded as nat) + " / "@
                + bytes_display(self.progress_state.overall_total_bytes as nat) + " ("@
                + byte_percentage_display(
                self.progress_state.overall_bytes_downloaded,
                self.progress_state.overall_total_bytes,
            ) + ")"@,
    {
        let (downloaded, total, percentage) = self.get_total_progress_formatted();
        let mut s = downloaded;
        append_str(&mut s, " / ");
        append_str(&mut s, total.as_str());
        append_str(&mut s, " (");
        append_str(&mut s, percentage.as_str());
        append_str(&mut s, ")");
        s
    }

    /// (pending, active, completed) model counts.
    pub fn model_counts(&self) -> (r: (usize, usize, usize))
        ensures
            r.0 == model_state_counts(self.progress_state@.models).0,
            r.1 == model_state_counts(self.progress_state@.models).1,
            r.2 == model_state_counts(self.progress_state@.models).2,
    {
        let ghost views = self.progress_state@.models;
        let ms = &self.progress_state.models;
        let n = model_list_len(ms);
        let mut pending: usize = 0;
        let mut active: usize = 0;
        let mut completed: usize = 0;
        let mut i: usize = 0;
        while i < n
            invariant
                i <= n,
                n == views.len(),
                views == self.progress_state@.models,
                *ms == self.progress_state.models,
                pending == model_state_counts(views.take(i as int)).0,
                active == model_state_counts(views.take(i as int)).1,
                completed == model_state_counts(views.take(i as int)).2,
                pending + active + completed == i,
            decreases n - i,
        {
            let m = model_list_get(ms, i).unwrap();
            proof {
                assert(views.take(i + 1).drop_last() =~= views.take(i as int));
                assert(views.take(i + 1).last() == m@);
            }
            if m.total_bytes == 0 {
                pending = pending + 1;
            } else if m.bytes_downloaded >= m.total_bytes {
                completed = completed + 1;
            } else {
                active = active + 1;
            }
            i = i + 1;
        }
        assert(views.take(n as int) =~= views);
        (pending, active, completed)
    }

    /// ("{p} pending", "{a} active", "{c} completed").
    pub fn model_counts_formatted(&self) -> (r: (String, String, String))
        ensures
            r.0@ == decimal(model_state_counts(self.progress_state@.models).0) + " pending"@,
            r.1@ == decimal(model_state_counts(self.progress_state@.models).1) + " active"@,
            r.2@ == decimal(model_state_counts(self.progress_state@.models).2) + " completed"@,
    {
        let (pending, active, completed) = self.model_counts();
        let mut p = String::new();
        write_decimal(&mut p, pending as u64);
        append_str(&mut p, " pending");
        let mut a = String::new();
        write_decimal(&mut a, active as u64);
        append_str(&mut a, " active");
        let mut c = String::new();
        write_decimal(&mut c, completed as u64);
        append_str(&mut c, " completed");
        (p, a, c)
    }

    /// Number of models.
    pub fn get_model_count(&self) -> (n: usize)
        ensures
            n == self.progress_state@.models.len(),
    {
        model_list_len(&self.progress_state.models)
    }

    /// The id of the model at `index`, if any.
    pub fn get_model_name_at_index(&self, index: usize) -> (r: Option<String>)
        ensures
            index < self.progress_state@.models.len() ==> (r matches Some(id) && id@
                == self.progress_state@.models[index as int].model_id),
            index >= self.progress_state@.models.len() ==> r is None,
    {
        match model_list_get(&self.progress_state.models, index) {
            Some(m) => Some(m.model_id.clone()),
            None => None,
        }
    }

    /// Copies of the models, in order.
    pub fn get_models_for_rendering(&self) -> (r: Vec<ImmutableModelProgress>)
        ensures
            model_views(r@) == self.progress_state@.models,
    {
        let ghost views = self.progress_state@.models;
        let n = model_list_len(&self.progress_state.models);
        let mut r: Vec<ImmutableModelProgress> = Vec::new();
        let mut i: usize = 0;
        while i < n
            invariant
                i <= n,
                n == views.len(),
                views == self.progress_state@.models,
                model_views(r@) == views.take(i as int),
            decreases n - i,
        {
            let m = model_list_get(&self.progress_state.models, i).unwrap();
            assert(views[i as int] == m@);
            let c = m.clone();
            let ghost before = r@;
            r.push(c);
            assert(model_views(r@) =~= model_views(before).push(c@));
            assert(views.take(i + 1) =~= views.take(i as int).push(views[i as int]));
            assert(model_views(r@) =~= views.take(i + 1));
            i = i + 1;
        }
        assert(views.take(n as int) =~= views);
        r
    }

    /// A model's percentage, or "---" for an unknown total.
    pub fn model_percentage_formatted(&self, model: &ImmutableModelProgress) -> (s: String)
        ensures
            s@ == byte_percentage_display(model.bytes_downloaded, model.total_bytes),
    {
        byte_percentage_formatted(model.bytes_downloaded, model.total_bytes)
    }

    /// A file's percentage, or "---" for an unknown total.
    pub fn file_percentage_formatted(&self, file: &ImmutableFileProgress) -> (s: String)
        ensures
            s@ == byte_percentage_display(file.bytes_downloaded, file.total_bytes),
    {
        byte_percentage_formatted(file.bytes_downloaded, file.total_bytes)
    }

    /// A duration in seconds: "45s", "2m 34s" or "1h 15m 3s".
    pub fn format_duration_seconds(&self, seconds: u64) -> (s: String)
        ensures
            s@ == duration_display(seconds),
    {
        let mut s = String::new();
        if seconds < 60 {
            write_decimal(&mut s, seconds);
            append_str(&mut s, "s");
        } else if seconds < 3600 {
            write_decimal(&mut s, seconds / 60);
            append_str(&mut s, "m ");
            write_decimal(&mut s, seconds % 60);
            append_str(&mut s, "s");
        } else {
            write_decimal(&mut s, seconds / 3600);
            append_str(&mut s, "h ");
            write_decimal(&mut s, (seconds % 3600) / 60);
            append_str(&mut s, "m");
        }
        s
    }

    /// Analyze files for the quantizations they name.
    pub fn analyze_quantizations(files: &[FileAnalysisInfo]) -> (a: QuantizationAnalysis)
        ensures
            is_analysis_of(a, files@),
    {
        let analyzer = QuantizationAnalyzer::new();
        analyzer.analyze_files(files)
    }

    /// Validate that a requested quantization exists in the analyzed files.
    pub fn validate_quantization(analysis: &QuantizationAnalysis, requested_quantization: &str) -> (r:
        Result<(), String>)
        ensures
            match r {
                Ok(()) => quantization_check(*analysis, requested_quantization@) == Ok::<(), Seq<char>>(()),
                Err(e) => quantization_check(*analysis, requested_quantization@) == Err::<(), Seq<char>>(e@),
            },
    {
        let analyzer = QuantizationAnalyzer::new();
        analyzer.validate_quantization_request(analysis, requested_quantization)
    }

    /// Count the model files of a quantization.
    pub fn count_quantized_files(files: &[FileAnalysisInfo], quantization: &str) -> (n: usize)
        ensures
            n == matching_count(files@, quantization@),
            n == quantization_count(files@, normalized(quantization@)),
            forall|a: QuantizationAnalysis| #[trigger] is_analysis_of(a, files@)
                ==> n == table_count(a.quantization_file_counts@, normalized(quantization@)),
    {
        let analyzer = QuantizationAnalyzer::new();
        analyzer.count_quantized_files(files, quantization)
    }

    /// The display status of a file: completed, downloading (some bytes) or pending.
    pub fn file_status(&self, file: &ImmutableFileProgress) -> (st: FileStatus)
        ensures
            st == (if bytes_complete(file.bytes_downloaded, file.total_bytes) {
                FileStatus::Completed
            } else if file.bytes_downloaded > 0 {
                FileStatus::Downloading
            } else {
                FileStatus::Pending
            }),
    {
        if file.is_complete() {
            FileStatus::Completed
        } else if file.bytes_downloaded > 0 {
            FileStatus::Downloading
        } else {
            FileStatus::Pending
        }
    }

    /// File information for quantization analysis.
    pub fn create_file_analysis_info(path: String, size: u64, xet_hash: Option<String>) -> (f: FileAnalysisInfo)
        ensures
            f.path == path,
            f.size == size,
            f.xet_hash == xet_hash,
    {
        FileAnalysisInfo { path, size, xet_hash }
    }

    /// The results of every model, downloaded in `total_duration`: none, one, or
    /// many; every model's cache path is the current model's id.
    pub fn to_model_results(&self, total_duration: Duration) -> (r: ZeroOneOrMany<ModelResult>)
        ensures
            self.progress_state@.models.len() == 0 ==> r is Zero,
            self.progress_state@.models.len() == 1 ==> r is One,
            self.progress_state@.models.len() > 1 ==> r is Many,
            r.items().len() == self.progress_state@.models.len(),
            forall|i: int|
                0 <= i < r.items().len() ==> is_model_result(
                    #[trigger] r.items()[i],
                    self.progress_state@.models[i],
                    self.model_data.current_model_id@,
                    total_duration,
                ),
    {
        let ghost views = self.progress_state@.models;
        let n = model_list_len(&self.progress_state.models);
        if n == 0 {
            return ZeroOneOrMany::Zero;
        }
        let mut results: Vec<ModelResult> = Vec::new();
        let mut i: usize = 0;
        while i < n
            invariant
                i <= n,
                n == views.len(),
                views == self.progress_state@.models,
                results@.len() == i,
                forall|k: int|
                    0 <= k < i ==> is_model_result(
                        #[trigger] results@[k],
                        views[k],
                        self.model_data.current_model_id@,
                        total_duration,
                    ),
            decreases n - i,
        {
            let m = model_list_get(&self.progress_state.models, i).unwrap();
            results.push(model_result_of(m, &self.model_data.current_model_id, total_duration));
            i = i + 1;
        }
        if n == 1 {
            let only = results.pop().unwrap();
            ZeroOneOrMany::One(only)
        } else {
            ZeroOneOrMany::Many(results)
        }
    }

    /// Whether every model and every file has exactly its expected size.
    fn all_sizes_reconciled(&self) -> (b: bool)
        ensures
            b == sizes_reconciled(self.progress_state@.models),
    {
        let ghost views = self.progress_state@.models;
        let n = model_list_len(&self.progress_state.models);
        let mut i: usize = 0;
        while i < n
            invariant
                i <= n,
                n == views.len(),
                views == self.progress_state@.models,
                forall|j: int| 0 <= j < i ==> #[trigger] model_reconciled(views[j]),
            decreases n - i,
        {
            let m = model_list_get(&self.progress_state.models, i).unwrap();
            assert(m@ == views[i as int]);
            if m.bytes_downloaded != m.total_bytes {
                assert(!model_reconciled(views[i as int]));
                return false;
            }
            let nf = file_list_len(&m.files);
            let mut k: usize = 0;
            while k < nf
                invariant
                    k <= nf,
                    nf == m@.files.len(),
                    i < views.len(),
                    views == self.progress_state@.models,
                    m@ == views[i as int],
                    forall|j: int| 0 <= j < k ==> #[trigger] file_reconciled(m@.files[j]),
                decreases nf - k,
            {
                let f = file_list_get(&m.files, k).unwrap();
                assert(f@ == m@.files[k as int]);
                if f.bytes_downloaded != f.total_bytes {
                    assert(!file_reconciled(m@.files[k as int]));
                    assert(!model_reconciled(views[i as int]));
                    return false;
                }
                k = k + 1;
            }
            assert(model_reconciled(views[i as int]));
            i = i + 1;
        }
        true
    }

    /// The summary of a run that took `total_duration`: the results of every
    /// model, the overall byte totals, and whether every model and file has
    /// exactly its expected size.
    pub fn to_download_summary(&self, total_duration: Duration) -> (r: DownloadSummary)
        ensures
            self.progress_state@.models.len() == 0 ==> r.models is Zero,
            self.progress_state@.models.len() == 1 ==> r.models is One,
            self.progress_state@.models.len() > 1 ==> r.models is Many,
            r.models.items().len() == self.progress_state@.models.len(),
            forall|i: int|
                0 <= i < r.models.items().len() ==> is_model_result(
                    #[trigger] r.models.items()[i],
                    self.progress_state@.models[i],
                    self.model_data.current_model_id@,
                    total_duration,
                ),
            r.total_downloaded_bytes == self.progress_state.overall_bytes_downloaded,
            r.total_expected_bytes == self.progress_state.overall_total_bytes,
            r.total_duration == total_duration,
            r.fully_reconciled == sizes_reconciled(self.progress_state@.models),
    {
        let models = self.to_model_results(total_duration);
        let fully_reconciled = self.all_sizes_reconciled();
        DownloadSummary {
            models,
            total_downloaded_bytes: self.progress_state.overall_bytes_downloaded,
            total_expected_bytes: self.progress_state.overall_total_bytes,
            total_duration,
            fully_reconciled,
        }
    }

    /// Downloaded chunks over all files.
    fn chunk_total(&self) -> (n: usize)
        requires
            self.counts_fit(),
        ensures
            n == chunks_total(self.progress_state@.models),
    {
        let ghost views = self.progress_state@.models;
        let ms = &self.progress_state.models;
        let n = model_list_len(ms);
        let mut total: usize = 0;
        let mut i: usize = 0;
        while i < n
            invariant
                i <= n,
                n == views.len(),
                views == self.progress_state@.models,
                *ms == self.progress_state.models,
                chunks_total(views) <= usize::MAX,
                total == chunks_total(views.take(i as int)),
            decreases n - i,
        {
            let m = model_list_get(ms, i).unwrap();
            proof {
                assert(views.take(i + 1).drop_last() =~= views.take(i as int));
                assert(views.take(i + 1).last() == m@);
                lemma_model_counts_prefix(views, i + 1);
            }
            let here = chunks_of(m, (usize::MAX - total) as usize);
            total = total + here;
            i = i + 1;
        }
        assert(views.take(n as int) =~= views);
        total
    }

    /// "No ranges", "All ranges complete", or "{done}/{total} ranges completed",
    /// counting the downloaded chunks of every file (the completed ranges are
    /// counted the same way, so the last form does not arise).
    pub fn ranges_completed_formatted(&self) -> (s: String)
        requires
            self.counts_fit(),
        ensures
            s@ == if chunks_total(self.progress_state@.models) == 0 {
                "No ranges"@
            } else {
                "All ranges complete"@
            },
    {
        let total_ranges = self.chunk_total();
        let completed_ranges = self.chunk_total();
        if total_ranges == 0 {
            String::from_str("No ranges")
        } else if completed_ranges >= total_ranges {
            String::from_str("All ranges complete")
        } else {
            let mut s = String::new();
            write_decimal(&mut s, completed_ranges as u64);
            append_str(&mut s, "/");
            write_decimal(&mut s, total_ranges as u64);
            append_str(&mut s, " ranges completed");
            s
        }
    }

    /// "No files", "All files complete", or "{done}/{total} files completed", a
    /// file being done once it downloaded at least its total.
    pub fn files_completed_formatted(&self) -> (s: String)
        requires
            self.counts_fit(),
        ensures
            s@ == files_completed_display(
                finished_files_total(self.progress_state@.models),
                total_file_count(self.progress_state@.models),
            ),
    {
        let (total, _, finished) = self.file_totals();
        if total == 0 {
            String::from_str("No files")
        } else if finished >= total {
            String::from_str("All files complete")
        } else {
            let mut s = String::new();
            write_decimal(&mut s, finished as u64);
            append_str(&mut s, "/");
            write_decimal(&mut s, total as u64);
            append_str(&mut s, " files completed");
            s
        }
    }

    /// "No models", "All models complete", or "{done}/{total} models completed".
    pub fn models_completed_formatted(&self) -> (s: String)
        ensures
            s@ == if self.model_data.total_models == 0 {
                "No models"@
            } else if self.model_data.completed_models >= self.model_data.total_models {
                "All models complete"@
            } else {
                decimal(self.model_data.completed_models as nat) + "/"@ + decimal(
                    self.model_data.total_models as nat,
                ) + " models completed"@
            },
    {
        if self.model_data.total_models == 0 {
            String::from_str("No models")
        } else if self.model_data.completed_models >= self.model_data.total_models {
            String::from_str("All models complete")
        } else {
            let mut s = String::new();
            write_decimal(&mut s, self.model_data.completed_models as u64);
            append_str(&mut s, "/");
            write_decimal(&mut s, self.model_data.total_models as u64);
            append_str(&mut s, " models completed");
            s
        }
    }

    /// "🎉 All models completed" when every (of at least one) model completed,
    /// else "Models: {done}/{total} | Files: {files completed}".
    pub fn overall_finalization_status(&self) -> (s: String)
        requires
            self.counts_fit(),
        ensures
            s@ == if self.model_data.completed_models == self.model_data.total_models
                && self.model_data.total_models > 0 {
                "🎉 All models completed"@
            } else {
                "Models: "@ + decimal(self.model_data.completed_models as nat) + "/"@ + decimal(
                    self.model_data.total_models as nat,
                ) + " | Files: "@ + files_completed_display(
                    finished_files_total(self.progress_state@.models),
                    total_file_count(self.progress_state@.models),
                )
            },
    {
        if self.model_data.completed_models == self.model_data.total_models
            && self.model_data.total_models > 0 {
            String::from_str("🎉 All models completed")
        } else {
            let mut s = String::from_str("Models: ");
            write_decimal(&mut s, self.model_data.completed_models as u64);
            append_str(&mut s, "/");
            write_decimal(&mut s, self.model_data.total_models as u64);
            append_str(&mut s, " | Files: ");
            let f = self.files_completed_formatted();
            append_str(&mut s, f.as_str());
            s
        }
    }

    /// Whether there are files and every one downloaded at least its total.
    pub fn is_fully_finalized(&self) -> (b: bool)
        requires
            self.counts_fit(),
        ensures
            b == (total_file_count(self.progress_state@.models) > 0 && finished_files_total(
                self.progress_state@.models,
            ) == total_file_count(self.progress_state@.models)),
    {
        let (total, _, finished) = self.file_totals();
        if total == 0 {
            return false;
        }
        finished == total
    }
}

/// "No files", "All files complete", or "{done}/{total} files completed".
pub open spec fn files_completed_display(done: nat, total: nat) -> Seq<char> {
    if total == 0 {
        "No files"@
    } else if done >= total {
        "All files complete"@
    } else {
        decimal(done) + "/"@ + decimal(total) + " files completed"@
    }
}

fn finished_files_of(m: &ImmutableModelProgress) -> (n: usize)
    ensures
        n == finished_file_count(m@.files),
{
    let ghost fs = m@.files;
    let len = file_list_len(&m.files);
    let mut count: usize = 0;
    let mut i: usize = 0;
    while i < len
        invariant
            i <= len,
            len == fs.len(),
            fs == m@.files,
            count == finished_file_count(fs.take(i as int)),
            count <= i,
        decreases len - i,
    {
        let f = file_list_get(&m.files, i).unwrap();
        proof {
            assert(fs.take(i + 1).drop_last() =~= fs.take(i as int));
            assert(fs.take(i + 1).last() == f@);
        }
        if f.bytes_downloaded >= f.total_bytes {
            count = count + 1;
        }
        i = i + 1;
    }
    assert(fs.take(len as int) =~= fs);
    count
}

fn chunks_of(m: &ImmutableModelProgress, limit: usize) -> (n: usize)
    requires
        chunk_count(m@.files) <= limit,
    ensures
        n == chunk_count(m@.files),
{
    let ghost fs = m@.files;
    let len = file_list_len(&m.files);
    let mut count: usize = 0;
    let mut i: usize = 0;
    while i < len
        invariant
            i <= len,
            len == fs.len(),
            fs == m@.files,
            chunk_count(fs) <= limit,
            count == chunk_count(fs.take(i as int)),
        decreases len - i,
    {
        let f = file_list_get(&m.files, i).unwrap();
        proof {
            assert(fs.take(i + 1).drop_last() =~= fs.take(i as int));
            assert(fs.take(i + 1).last() == f@);
            lemma_chunk_count_prefix(fs, i + 1);
        }
        count = count + crate::calculator::types::chunk_list_len(&f.chunks_downloaded);
        i = i + 1;
    }
    assert(fs.take(len as int) =~= fs);
    count
}

} // verus!
