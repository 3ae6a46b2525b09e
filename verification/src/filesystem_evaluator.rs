//! Progress validation against the filesystem.
//!
//! Reading directories and file metadata happens at the edges; this module holds
//! the decisions made on what was read: which files are range parts, how far a
//! ranged download has come, which ranges remain, and how a model's files compare
//! with its manifest.

use std::path::PathBuf;
use std::time::{Instant, SystemTime};
use vstd::prelude::*;
use crate::sorting::{ascending, sort_indices, lemma_ascending_unique};
use crate::text::{
    has_prefix, has_suffix, has_substring, first_occurrence_from, lemma_first_occurrence,
    starts_with, ends_with, contains_str, find_str, str_equal, parse_u32, parse_u32_spec,
    append_str, push_char,
};
use crate::std_types::{joined_path, path_join};

verus! {

/// State file format written by download clients (XET/QUIC).
#[derive(Debug, Clone)]
pub struct DownloadStateFile {
    /// Model identifier (namespace/model)
    pub model_id: String,
    /// File path being downloaded
    pub file_path: String,
    /// Bytes downloaded so far
    pub bytes_downloaded: u64,
    /// Total bytes for the file
    pub total_bytes: u64,
    /// Whether file is served from cache
    pub is_cached: bool,
    /// Client that wrote this state (xet, quic)
    pub client_type: String,
    /// Timestamp when state was written
    pub timestamp: SystemTime,
}

/// File information from a manifest for validation.
#[derive(Debug, Clone)]
pub struct ManifestFileInfo {
    /// File path relative to model root
    pub path: String,
    /// Expected file size in bytes
    pub size: u64,
    /// Optional hash for validation
    pub hash: Option<String>,
}

/// Result of filesystem validation against a manifest.
#[derive(Debug, Clone)]
pub struct FilesystemValidationResult {
    /// Model identifier
    pub model_id: String,
    /// Files that match their expected size
    pub valid_files: Vec<String>,
    /// Files that don't match: (path, actual_size, expected_size)
    pub invalid_files: Vec<(String, u64, u64)>,
    /// Files missing from the filesystem
    pub missing_files: Vec<String>,
    /// Files present but not in the manifest
    pub unexpected_files: Vec<String>,
    /// Total valid bytes
    pub total_valid_bytes: u64,
    /// Total expected bytes
    pub total_expected_bytes: u64,
    /// Whether all files are valid and complete
    pub is_complete: bool,
}

/// Result of progress validation for a specific file.
#[derive(Debug, Clone)]
pub struct ProgressValidationResult {
    /// Model identifier
    pub model_id: String,
    /// File path being validated
    pub file_path: String,
    /// Validated bytes downloaded
    pub bytes_downloaded: u64,
    /// Total bytes expected for the file
    pub total_bytes: u64,
    /// Whether the file exists on the filesystem
    pub file_exists: bool,
    /// Whether the file is complete (bytes_downloaded >= total_bytes)
    pub is_complete: bool,
}

/// A discovered range file of a base file.
#[derive(Debug, Clone)]
pub struct RangeFileInfo {
    /// Range index number
    pub index: u32,
    /// Full path to the range file
    pub file_path: PathBuf,
    /// Size of the range file in bytes
    pub file_size: u64,
}

/// Result of range file enumeration.
#[derive(Debug, Clone)]
pub struct RangeFileEnumeration {
    /// Base file path
    pub base_file_path: PathBuf,
    /// Model identifier
    pub model_id: String,
    /// Model hash used in range file naming
    pub model_hash: String,
    /// Discovered range files sorted by index
    pub range_files: Vec<RangeFileInfo>,
    /// Total bytes across all range files
    pub total_bytes: u64,
    /// Highest range index found
    pub max_range_index: Option<u32>,
}

/// Range resume information for download optimization.
#[derive(Debug, Clone)]
pub struct RangeResumeInfo {
    /// Base file path
    pub base_file_path: PathBuf,
    /// Model identifier
    pub model_id: String,
    /// Total expected file size
    pub expected_total_size: u64,
    /// Expected chunk size for ranges
    pub expected_chunk_size: u64,
    /// Number of ranges that should exist
    pub expected_range_count: usize,
    /// Range files that are complete
    pub complete_ranges: Vec<RangeFileInfo>,
    /// Range files that are partial (exist but incomplete)
    pub partial_ranges: Vec<RangeFileInfo>,
    /// Range indices that are missing entirely
    pub missing_range_indices: Vec<u32>,
    /// Total bytes already downloaded
    pub total_downloaded_bytes: u64,
    /// Total bytes remaining to download
    pub total_remaining_bytes: u64,
    /// Whether resume is possible (some ranges exist)
    pub can_resume: bool,
    /// Whether the download is complete (all ranges present and complete)
    pub is_complete: bool,
}

/// Comprehensive progress scan results for all requested models.
#[derive(Debug, Clone)]
pub struct ComprehensiveProgressScan {
    /// All models with their progress data, at most one per model id
    pub models: Vec<ModelProgressData>,
    /// Total bytes downloaded across all models
    pub overall_bytes_downloaded: u64,
    /// Total bytes expected across all models
    pub overall_total_bytes: u64,
    /// When this scan was performed
    pub scan_timestamp: Instant,
    /// HuggingFace cache root directory that was scanned
    pub cache_root: PathBuf,
}

/// Progress data for a single model.
#[derive(Debug, Clone)]
pub struct ModelProgressData {
    /// Model identifier (e.g., "microsoft/DialoGPT-medium")
    pub model_id: String,
    /// All files for this model with their progress data, at most one per path
    pub files: Vec<FileProgressData>,
    /// Total bytes downloaded for this model
    pub model_bytes_downloaded: u64,
    /// Total bytes expected for this model
    pub model_total_bytes: u64,
    /// Whether the entire model is served from cache
    pub is_model_cached: bool,
    /// Model cache directory path
    pub model_cache_dir: PathBuf,
}

/// Progress data for a single file.
#[derive(Debug, Clone)]
pub struct FileProgressData {
    /// Relative file path within the model
    pub file_path: String,
    /// Full local file path where the file will be stored
    pub local_file_path: PathBuf,
    /// Bytes currently downloaded
    pub bytes_downloaded: u64,
    /// Total bytes expected for this file
    pub total_bytes: u64,
    /// Whether this file is completely downloaded and finalized
    pub is_complete: bool,
    /// Whether this file is served from cache
    pub from_cache: bool,
    /// Range files for this download
    pub range_files: Vec<RangeFileInfo>,
    /// Legacy .part file size
    pub legacy_part_size: u64,
}

/// Range file completion summary.
#[derive(Debug, Clone)]
pub struct RangeFileSummary {
    /// Total number of range files found
    pub total_range_files: usize,
    /// Total bytes across all range files
    pub total_range_bytes: u64,
    /// Highest range index found
    pub max_range_index: Option<u32>,
    /// Whether all expected ranges are present and complete
    pub appears_complete: bool,
}

/// Filesystem evaluator for validation services. It remembers the last
/// validated bytes of each (model, file), so that validated progress never goes
/// backwards.
#[derive(Debug, Clone)]
pub struct FilesystemProgressEvaluator {
    validated: Vec<(String, String, u64)>,
}

// ---------------------------------------------------------------------------
// Specifications

/// A directory entry skipped during scanning: hidden, temporary, lock, the state
/// directory, or a backup file.
pub open spec fn skipped_name(name: Seq<char>) -> bool {
    ||| has_prefix(name, "."@)
    ||| has_suffix(name, ".tmp"@)
    ||| has_suffix(name, ".lock"@)
    ||| name == "progresshub_state"@
    ||| has_prefix(name, "~"@)
}

/// The prefix that names range files: "{base}.part.{model_hash}.".
pub open spec fn range_prefix(base_name: Seq<char>, model_hash: Seq<char>) -> Seq<char> {
    base_name + ".part."@ + model_hash + "."@
}

/// The range index of `filename` when it is "{base}.part.{model_hash}.{index}".
pub open spec fn range_index_of(filename: Seq<char>, base_name: Seq<char>, model_hash: Seq<char>) -> Option<u32> {
    let p = range_prefix(base_name, model_hash);
    if has_prefix(filename, p) {
        parse_u32_spec(filename.skip(p.len() as int))
    } else {
        None
    }
}

/// The base name of a range file: the part before the first ".part.{model_hash}.".
pub open spec fn range_base_of(file_name: Seq<char>, model_hash: Seq<char>) -> Option<Seq<char>> {
    if !has_substring(file_name, ".part."@) {
        None
    } else {
        match first_occurrence_from(file_name, ".part."@ + model_hash + "."@, 0) {
            Some(pos) => Some(file_name.take(pos)),
            None => None,
        }
    }
}

/// The indices of the range files, in listing order.
pub open spec fn range_indices(files: Seq<RangeFileInfo>) -> Seq<u32> {
    files.map_values(|r: RangeFileInfo| r.index)
}

/// Sorted range indices look complete: they start at 0, there are at least two,
/// and the first six (or fewer) are consecutive.
pub open spec fn consecutive_from_zero(s: Seq<u32>) -> bool {
    &&& s.len() > 1
    &&& s[0] == 0
    &&& forall|j: int| 0 <= j < s.len() - 1 && j < 5 ==> #[trigger] s[j + 1] == s[j] + 1
}

impl FilesystemProgressEvaluator {
    /// The validated progress remembered so far: (model id, file path, bytes).
    pub closed spec fn history(&self) -> Seq<(Seq<char>, Seq<char>, u64)> {
        self.validated@.map_values(|e: (String, String, u64)| (e.0@, e.1@, e.2))
    }
}

/// The history entry is for the file `file` of model `model`.
pub open spec fn entry_is(e: (Seq<char>, Seq<char>, u64), model: Seq<char>, file: Seq<char>) -> bool {
    e.0 == model && e.1 == file
}

/// The position of the first entry for (`model`, `file`), if any.
pub open spec fn position_of(h: Seq<(Seq<char>, Seq<char>, u64)>, model: Seq<char>, file: Seq<char>) -> Option<int>
    decreases h.len(),
{
    if h.len() == 0 {
        None
    } else {
        match position_of(h.drop_last(), model, file) {
            Some(i) => Some(i),
            None => if entry_is(h.last(), model, file) {
                Some(h.len() - 1)
            } else {
                None
            },
        }
    }
}

/// The bytes last validated for (`model`, `file`), if any.
pub open spec fn last_validated(h: Seq<(Seq<char>, Seq<char>, u64)>, model: Seq<char>, file: Seq<char>) -> Option<u64> {
    match position_of(h, model, file) {
        Some(i) => Some(h[i].2),
        None => None,
    }
}

/// The validated bytes of a report: never less than the bytes validated before.
pub open spec fn validated_value(previous: Option<u64>, reported: u64) -> u64 {
    match previous {
        Some(p) => if p > reported { p } else { reported },
        None => reported,
    }
}

proof fn lemma_position_of_facts(h: Seq<(Seq<char>, Seq<char>, u64)>, model: Seq<char>, file: Seq<char>)
    ensures
        match position_of(h, model, file) {
            Some(i) => 0 <= i < h.len() && entry_is(h[i], model, file) && forall|j: int|
                0 <= j < i ==> !entry_is(#[trigger] h[j], model, file),
            None => forall|j: int| 0 <= j < h.len() ==> !entry_is(#[trigger] h[j], model, file),
        },
    decreases h.len(),
{
    if h.len() > 0 {
        lemma_position_of_facts(h.drop_last(), model, file);
        let p = h.drop_last();
        assert forall|j: int| 0 <= j < p.len() implies #[trigger] h[j] == p[j] by {}
    }
}

proof fn lemma_position_of_unique(h: Seq<(Seq<char>, Seq<char>, u64)>, model: Seq<char>, file: Seq<char>, i: int)
    requires
        0 <= i < h.len(),
        entry_is(h[i], model, file),
        forall|j: int| 0 <= j < i ==> !entry_is(#[trigger] h[j], model, file),
    ensures
        position_of(h, model, file) == Some(i),
{
    lemma_position_of_facts(h, model, file);
}

proof fn lemma_position_of_none(h: Seq<(Seq<char>, Seq<char>, u64)>, model: Seq<char>, file: Seq<char>)
    requires
        forall|j: int| 0 <= j < h.len() ==> !entry_is(#[trigger] h[j], model, file),
    ensures
        position_of(h, model, file) is None,
{
    lemma_position_of_facts(h, model, file);
}

proof fn lemma_history_update(h: Seq<(Seq<char>, Seq<char>, u64)>, k: int, model: Seq<char>, file: Seq<char>, v: u64)
    requires
        position_of(h, model, file) == Some(k),
    ensures
        last_validated(h.update(k, (model, file, v)), model, file) == Some(v),
        forall|m: Seq<char>, f: Seq<char>|
            !(m == model && f == file) ==> #[trigger] last_validated(h.update(k, (model, file, v)), m, f)
                == last_validated(h, m, f),
{
    let h2 = h.update(k, (model, file, v));
    lemma_position_of_facts(h, model, file);
    assert forall|j: int| 0 <= j < k implies !entry_is(#[trigger] h2[j], model, file) by {
        assert(h2[j] == h[j]);
    }
    lemma_position_of_unique(h2, model, file, k);
    assert forall|m: Seq<char>, f: Seq<char>|
        !(m == model && f == file) implies #[trigger] last_validated(h2, m, f) == last_validated(h, m, f) by {
        lemma_position_of_facts(h, m, f);
        lemma_position_of_facts(h2, m, f);
        assert forall|j: int| 0 <= j < h.len() implies #[trigger] entry_is(h[j], m, f) == entry_is(h2[j], m, f) by {
            if j == k {
                assert(!entry_is(h[j], m, f));
                assert(!entry_is(h2[j], m, f));
            } else {
                assert(h2[j] == h[j]);
            }
        }
        match position_of(h, m, f) {
            Some(i) => {
                assert(i != k);
                assert(h2[i] == h[i]);
                assert forall|j: int| 0 <= j < i implies !entry_is(#[trigger] h2[j], m, f) by {
                    assert(entry_is(h[j], m, f) == entry_is(h2[j], m, f));
                }
                lemma_position_of_unique(h2, m, f, i);
            },
            None => {
                assert forall|j: int| 0 <= j < h2.len() implies !entry_is(#[trigger] h2[j], m, f) by {
                    assert(entry_is(h[j], m, f) == entry_is(h2[j], m, f));
                }
                lemma_position_of_none(h2, m, f);
            },
        }
    }
}

proof fn lemma_history_push(h: Seq<(Seq<char>, Seq<char>, u64)>, model: Seq<char>, file: Seq<char>, v: u64)
    requires
        position_of(h, model, file) is None,
    ensures
        last_validated(h.push((model, file, v)), model, file) == Some(v),
        forall|m: Seq<char>, f: Seq<char>|
            !(m == model && f == file) ==> #[trigger] last_validated(h.push((model, file, v)), m, f)
                == last_validated(h, m, f),
{
    let h2 = h.push((model, file, v));
    lemma_position_of_facts(h, model, file);
    assert forall|j: int| 0 <= j < h.len() implies !entry_is(#[trigger] h2[j], model, file) by {
        assert(h2[j] == h[j]);
    }
    lemma_position_of_unique(h2, model, file, h.len() as int);
    assert forall|m: Seq<char>, f: Seq<char>|
        !(m == model && f == file) implies #[trigger] last_validated(h2, m, f) == last_validated(h, m, f) by {
        assert(h2.drop_last() =~= h);
        assert(!entry_is(h2.last(), m, f));
        assert(position_of(h2, m, f) == position_of(h, m, f));
        lemma_position_of_facts(h, m, f);
        if let Some(i) = position_of(h, m, f) {
            assert(h2[i] == h[i]);
        }
    }
}

} // verus!

verus! {

impl FilesystemProgressEvaluator {
    /// Create a new filesystem evaluator.
    pub fn new() -> (e: Self)
        ensures
            e.history() == Seq::<(Seq<char>, Seq<char>, u64)>::empty(),
    {
        FilesystemProgressEvaluator { validated: Vec::new() }
    }

    /// Validate reported progress for a file: the validated bytes are the larger
    /// of the reported bytes and the bytes last validated for the same (model,
    /// file), so that validated progress never goes backwards; the file counts as
    /// existing, and it is complete when the validated bytes reach the total.
    pub fn validate_progress(
        &mut self,
        model_id: &str,
        file_path: &str,
        reported_bytes: u64,
        total_bytes: u64,
    ) -> (r: ProgressValidationResult)
        ensures
            ({
                let v = validated_value(
                    last_validated(old(self).history(), model_id@, file_path@),
                    reported_bytes,
                );
                &&& r.model_id@ == model_id@
                &&& r.file_path@ == file_path@
                &&& r.bytes_downloaded == v
                &&& r.total_bytes == total_bytes
                &&& r.file_exists
                &&& r.is_complete == (v >= total_bytes)
                &&& last_validated(final(self).history(), model_id@, file_path@) == Some(v)
                &&& forall|m: Seq<char>, f: Seq<char>|
                    !(m == model_id@ && f == file_path@) ==> #[trigger] last_validated(
                        final(self).history(),
                        m,
                        f,
                    ) == last_validated(old(self).history(), m, f)
            }),
    {
        let ghost h = self.history();
        let mut i: usize = 0;
        let mut found: Option<usize> = None;
        while i < self.validated.len()
            invariant_except_break
                found is None,
            invariant
                i <= self.validated@.len(),
                h == self.history(),
                h.len() == self.validated@.len(),
                forall|j: int| 0 <= j < i ==> !entry_is(#[trigger] h[j], model_id@, file_path@),
            ensures
                found matches Some(k) ==> k < h.len() && entry_is(h[k as int], model_id@, file_path@)
                    && forall|j: int| 0 <= j < k ==> !entry_is(#[trigger] h[j], model_id@, file_path@),
                found is None ==> forall|j: int| 0 <= j < h.len() ==> !entry_is(#[trigger] h[j], model_id@, file_path@),
            decreases self.validated@.len() - i,
        {
            assert(h[i as int] == (self.validated@[i as int].0@, self.validated@[i as int].1@, self.validated@[i as int].2));
            if str_equal(self.validated[i].0.as_str(), model_id) && str_equal(
                self.validated[i].1.as_str(),
                file_path,
            ) {
                found = Some(i);
                break;
            }
            i = i + 1;
        }
        proof {
            lemma_position_of_facts(h, model_id@, file_path@);
        }
        let v = match found {
            Some(k) => {
                proof {
                    lemma_position_of_unique(h, model_id@, file_path@, k as int);
                }
                let prev = self.validated[k].2;
                let v = if prev > reported_bytes { prev } else { reported_bytes };
                let entry = (String::from_str(model_id), String::from_str(file_path), v);
                self.validated.set(k, entry);
                proof {
                    let h2 = self.history();
                    assert(h2 =~= h.update(k as int, (model_id@, file_path@, v)));
                    lemma_history_update(h, k as int, model_id@, file_path@, v);
                }
                v
            },
            None => {
                proof {
                    lemma_position_of_none(h, model_id@, file_path@);
                }
                let entry = (String::from_str(model_id), String::from_str(file_path), reported_bytes);
                self.validated.push(entry);
                proof {
                    let h2 = self.history();
                    assert(h2 =~= h.push((model_id@, file_path@, reported_bytes)));
                    lemma_history_push(h, model_id@, file_path@, reported_bytes);
                }
                reported_bytes
            },
        };
        ProgressValidationResult {
            model_id: String::from_str(model_id),
            file_path: String::from_str(file_path),
            bytes_downloaded: v,
            total_bytes,
            file_exists: true,
            is_complete: v >= total_bytes,
        }
    }

    /// Check whether a directory entry should be skipped during scanning.
    pub fn should_skip_file(&self, file_name: &str) -> (b: bool)
        ensures
            b == skipped_name(file_name@),
    {
        starts_with(file_name, ".") || ends_with(file_name, ".tmp") || ends_with(file_name, ".lock")
            || str_equal(file_name, "progresshub_state") || starts_with(file_name, "~")
    }

    /// Extract the range index from "{base_name}.part.{model_hash}.{index}", where
    /// `base_name` is the file name of the base file.
    pub fn extract_range_index(&self, filename: &str, base_name: &str, model_hash: &str) -> (r: Option<u32>)
        ensures
            r == range_index_of(filename@, base_name@, model_hash@),
    {
        let mut pattern = String::new();
        append_str(&mut pattern, base_name);
        append_str(&mut pattern, ".part.");
        append_str(&mut pattern, model_hash);
        append_str(&mut pattern, ".");
        assert(pattern@ =~= range_prefix(base_name@, model_hash@));
        if starts_with(filename, pattern.as_str()) {
            let len = filename.unicode_len();
            let plen = pattern.as_str().unicode_len();
            let suffix = filename.substring_char(plen, len);
            assert(suffix@ =~= filename@.skip(plen as int));
            parse_u32(suffix)
        } else {
            None
        }
    }

    /// Extract the base file name from a range file name
    /// ("model.safetensors.part.abc123.0" gives "model.safetensors").
    pub fn extract_base_from_range_file<'a>(&self, file_name: &'a str, model_hash: &str) -> (r: Option<&'a str>)
        ensures
            r matches Some(b) ==> range_base_of(file_name@, model_hash@) == Some(b@),
            r is None ==> range_base_of(file_name@, model_hash@) is None,
    {
        if !contains_str(file_name, ".part.") {
            return None;
        }
        let mut pattern = String::new();
        append_str(&mut pattern, ".part.");
        append_str(&mut pattern, model_hash);
        append_str(&mut pattern, ".");
        assert(pattern@ =~= ".part."@ + model_hash@ + "."@);
        match find_str(file_name, pattern.as_str()) {
            Some(pos) => {
                proof {
                    lemma_first_occurrence(file_name@, pattern@, 0);
                }
                let b = file_name.substring_char(0, pos);
                assert(b@ =~= file_name@.take(pos as int));
                Some(b)
            },
            None => None,
        }
    }

    /// Check whether the range files look complete: sorted indices start at 0,
    /// there are at least two, and the first six are consecutive.
    pub fn check_range_completeness(&self, enumeration: &RangeFileEnumeration) -> (b: bool)
        ensures
            forall|s: Seq<u32>|
                ascending(s) && s.to_multiset() == range_indices(enumeration.range_files@).to_multiset()
                    ==> b == consecutive_from_zero(s),
    {
        let files = &enumeration.range_files;
        let mut indices: Vec<u32> = Vec::new();
        let mut i: usize = 0;
        while i < files.len()
            invariant
                i <= files@.len(),
                indices@ == range_indices(files@).take(i as int),
            decreases files@.len() - i,
        {
            indices.push(files[i].index);
            i = i + 1;
            assert(indices@ =~= range_indices(files@).take(i as int));
        }
        assert(indices@ =~= range_indices(files@));
        let sorted = sort_indices(indices);
        let n = sorted.len();
        let mut ok = n > 1 && sorted[0] == 0;
        if ok {
            let mut j: usize = 0;
            while j + 1 < n && j < 5 && ok
                invariant
                    n == sorted@.len(),
                    n > 1,
                    sorted@[0] == 0,
                    j <= 5,
                    j + 1 <= n,
                    ok ==> forall|k: int| 0 <= k < j ==> #[trigger] sorted@[k + 1] == sorted@[k] + 1,
                    !ok ==> exists|k: int| 0 <= k < n - 1 && k < 5 && #[trigger] sorted@[k + 1] != sorted@[k] + 1,
                decreases 5 - j + if ok { 1int } else { 0int },
            {
                if (sorted[j + 1] as u64) != (sorted[j] as u64) + 1 {
                    ok = false;
                    assert(sorted@[j + 1] != sorted@[j as int] + 1);
                } else {
                    j = j + 1;
                }
            }
            proof {
                if ok {
                    assert forall|k: int| 0 <= k < n - 1 && k < 5 implies #[trigger] sorted@[k + 1] == sorted@[k] + 1 by {
                        assert(k < j);
                    }
                }
            }
        }
        assert forall|s: Seq<u32>|
            ascending(s) && s.to_multiset() == range_indices(files@).to_multiset() implies ok
                == consecutive_from_zero(s) by {
            lemma_ascending_unique(s, sorted@);
        }
        ok
    }
}

} // verus!

verus! {

/// Number of ranges a file of `total` bytes splits into with chunks of `chunk`
/// bytes: `ceil(total / chunk)`, none when either is zero.
pub open spec fn expected_ranges(total: u64, chunk: u64) -> nat {
    if total == 0 || chunk == 0 {
        0
    } else {
        ((total + chunk - 1) as int / chunk as int) as nat
    }
}

/// The number of ranges that are examined: the count as `usize`, then as `u32`.
pub open spec fn examined_ranges(total: u64, chunk: u64) -> nat {
    ((expected_ranges(total, chunk) as usize) as u32) as nat
}

/// Expected size of range `idx`: from `idx * chunk` up to the next chunk boundary
/// or the end of the file.
pub open spec fn range_expected_size(idx: nat, total: nat, chunk: nat) -> int {
    let start = idx * chunk;
    let end = if start + chunk < total { start + chunk } else { total };
    end - start
}

/// The last listed range file with index `idx` (later entries replace earlier ones).
pub open spec fn range_lookup(files: Seq<RangeFileInfo>, idx: nat) -> Option<int>
    decreases files.len(),
{
    if files.len() == 0 {
        None
    } else if files.last().index == idx {
        Some(files.len() - 1)
    } else {
        range_lookup(files.drop_last(), idx)
    }
}

/// Positions (into `files`) of the complete ranges among indices `0..n`, in index order.
pub open spec fn complete_positions(files: Seq<RangeFileInfo>, total: nat, chunk: nat, n: nat) -> Seq<int>
    decreases n,
{
    if n == 0 {
        Seq::empty()
    } else {
        let rest = complete_positions(files, total, chunk, (n - 1) as nat);
        match range_lookup(files, (n - 1) as nat) {
            Some(p) => if files[p].file_size >= range_expected_size((n - 1) as nat, total, chunk) {
                rest.push(p)
            } else {
                rest
            },
            None => rest,
        }
    }
}

/// Positions (into `files`) of the partial ranges among indices `0..n`, in index order.
pub open spec fn partial_positions(files: Seq<RangeFileInfo>, total: nat, chunk: nat, n: nat) -> Seq<int>
    decreases n,
{
    if n == 0 {
        Seq::empty()
    } else {
        let rest = partial_positions(files, total, chunk, (n - 1) as nat);
        match range_lookup(files, (n - 1) as nat) {
            Some(p) => if files[p].file_size >= range_expected_size((n - 1) as nat, total, chunk) {
                rest
            } else {
                rest.push(p)
            },
            None => rest,
        }
    }
}

/// Indices among `0..n` without any range file, in order.
pub open spec fn missing_indices(files: Seq<RangeFileInfo>, n: nat) -> Seq<u32>
    decreases n,
{
    if n == 0 {
        Seq::empty()
    } else {
        let rest = missing_indices(files, (n - 1) as nat);
        if range_lookup(files, (n - 1) as nat) is None {
            rest.push((n - 1) as u32)
        } else {
            rest
        }
    }
}

/// Bytes present in the range files of indices `0..n`.
pub open spec fn downloaded_in_ranges(files: Seq<RangeFileInfo>, n: nat) -> nat
    decreases n,
{
    if n == 0 {
        0
    } else {
        downloaded_in_ranges(files, (n - 1) as nat) + match range_lookup(files, (n - 1) as nat) {
            Some(p) => files[p].file_size as nat,
            None => 0,
        }
    }
}

/// `out` lists the range files at positions `pos` of `files`.
pub open spec fn lists_positions(out: Seq<RangeFileInfo>, files: Seq<RangeFileInfo>, pos: Seq<int>) -> bool {
    &&& out.len() == pos.len()
    &&& forall|i: int| 0 <= i < out.len() ==> out[i] == files[pos[i]]
}

proof fn lemma_range_lookup(files: Seq<RangeFileInfo>, idx: nat)
    ensures
        range_lookup(files, idx) matches Some(p) ==> 0 <= p < files.len() && files[p].index == idx
            && forall|q: int| p < q < files.len() ==> files[q].index != idx,
        range_lookup(files, idx) is None ==> forall|q: int| 0 <= q < files.len() ==> files[q].index != idx,
    decreases files.len(),
{
    if files.len() > 0 && files.last().index != idx {
        lemma_range_lookup(files.drop_last(), idx);
        assert forall|q: int| 0 <= q < files.len() - 1 implies files.drop_last()[q] == files[q] by {}
    }
}

proof fn lemma_downloaded_monotone(files: Seq<RangeFileInfo>, m: nat, n: nat)
    requires
        m <= n,
    ensures
        downloaded_in_ranges(files, m) <= downloaded_in_ranges(files, n),
    decreases n,
{
    if m < n {
        lemma_downloaded_monotone(files, m, (n - 1) as nat);
    }
}

impl RangeFileInfo {
    /// An identical copy of this range file record.
    pub fn duplicate(&self) -> (r: Self)
        ensures
            r == *self,
    {
        RangeFileInfo { index: self.index, file_path: self.file_path.clone(), file_size: self.file_size }
    }
}

fn lookup_range(files: &Vec<RangeFileInfo>, idx: u32) -> (r: Option<usize>)
    ensures
        r matches Some(p) ==> range_lookup(files@, idx as nat) == Some(p as int),
        r is None ==> range_lookup(files@, idx as nat) is None,
{
    let mut k = files.len();
    proof {
        lemma_take_full(files@);
    }
    while k > 0
        invariant
            k <= files@.len(),
            range_lookup(files@, idx as nat) == range_lookup(files@.take(k as int), idx as nat),
        decreases k,
    {
        let ghost prefix = files@.take(k as int);
        assert(prefix.drop_last() =~= files@.take(k - 1));
        if files[k - 1].index == idx {
            return Some(k - 1);
        }
        k = k - 1;
    }
    assert(files@.take(0) =~= Seq::<RangeFileInfo>::empty());
    None
}

proof fn lemma_take_full(files: Seq<RangeFileInfo>)
    ensures
        files.take(files.len() as int) == files,
{
    assert(files.take(files.len() as int) =~= files);
}

impl FilesystemProgressEvaluator {
    /// Analyze the enumerated range files of a download against its expected size
    /// and chunk size: which ranges are complete, partial or missing, how many bytes
    /// are present and remain, and whether the download can resume or is complete.
    pub fn calculate_range_resume_info(
        &self,
        enumeration: &RangeFileEnumeration,
        expected_total_size: u64,
        expected_chunk_size: u64,
    ) -> (info: RangeResumeInfo)
        requires
            expected_total_size > 0 && expected_chunk_size > 0 ==> expected_total_size
                + expected_chunk_size - 1 <= u64::MAX,
            downloaded_in_ranges(
                enumeration.range_files@,
                examined_ranges(expected_total_size, expected_chunk_size),
            ) <= u64::MAX,
        ensures
            ({
                let files = enumeration.range_files@;
                let total = expected_total_size as nat;
                let chunk = expected_chunk_size as nat;
                let n = examined_ranges(expected_total_size, expected_chunk_size);
                let down = downloaded_in_ranges(files, n);
                &&& info.base_file_path == enumeration.base_file_path
                &&& info.model_id@ == enumeration.model_id@
                &&& info.expected_total_size == expected_total_size
                &&& info.expected_chunk_size == expected_chunk_size
                &&& info.expected_range_count == expected_ranges(expected_total_size, expected_chunk_size) as usize
                &&& lists_positions(info.complete_ranges@, files, complete_positions(files, total, chunk, n))
                &&& lists_positions(info.partial_ranges@, files, partial_positions(files, total, chunk, n))
                &&& info.missing_range_indices@ == missing_indices(files, n)
                &&& info.total_downloaded_bytes == down
                &&& info.total_remaining_bytes == if down <= total { (total - down) as nat } else { 0 }
                &&& info.can_resume == (files.len() > 0)
                &&& info.is_complete == (info.missing_range_indices@.len() == 0
                    && info.partial_ranges@.len() == 0
                    && info.complete_ranges@.len() == info.expected_range_count)
            }),
    {
        let files = &enumeration.range_files;
        let total = expected_total_size;
        let chunk = expected_chunk_size;
        let count: u64 = if total == 0 || chunk == 0 { 0 } else { (total + (chunk - 1)) / chunk };
        let expected_range_count = count as usize;
        let bound = expected_range_count as u32;
        let ghost n = examined_ranges(total, chunk);
        assert(bound as nat == n);
        proof {
            if total > 0 && chunk > 0 {
                assert(count * chunk <= total + chunk - 1) by (nonlinear_arith)
                    requires
                        count == (total + chunk - 1) as int / chunk as int,
                        chunk > 0,
                {
                }
                assert(((count as usize) as u32) as u64 <= count) by (bit_vector);
            }
        }
        let mut complete_ranges: Vec<RangeFileInfo> = Vec::new();
        let mut partial_ranges: Vec<RangeFileInfo> = Vec::new();
        let mut missing_range_indices: Vec<u32> = Vec::new();
        let mut total_downloaded_bytes: u64 = 0;
        let mut idx: u32 = 0;
        while idx < bound
            invariant
                bound as nat == n,
                n == examined_ranges(total, chunk),
                idx <= bound,
                total == expected_total_size,
                chunk == expected_chunk_size,
                files@ == enumeration.range_files@,
                total > 0 && chunk > 0 ==> total + chunk - 1 <= u64::MAX,
                total > 0 && chunk > 0 ==> count * chunk <= total + chunk - 1,
                count as nat == expected_ranges(total, chunk),
                bound as nat <= count,
                downloaded_in_ranges(files@, n) <= u64::MAX,
                lists_positions(complete_ranges@, files@, complete_positions(files@, total as nat, chunk as nat, idx as nat)),
                lists_positions(partial_ranges@, files@, partial_positions(files@, total as nat, chunk as nat, idx as nat)),
                missing_range_indices@ == missing_indices(files@, idx as nat),
                total_downloaded_bytes == downloaded_in_ranges(files@, idx as nat),
            decreases bound - idx,
        {
            proof {
                assert(idx < count);
                assert((idx as int) * (chunk as int) + (chunk as int) <= (count as int) * (chunk as int)) by (nonlinear_arith)
                    requires
                        (idx as int) < (count as int),
                        chunk >= 0,
                {
                }
            }
            let range_start: u64 = (idx as u64) * chunk;
            let next = range_start + chunk;
            let range_end: u64 = if next < total { next } else { total };
            proof {
                assert((idx as int) * (chunk as int) < total as int) by (nonlinear_arith)
                    requires
                        (idx as int) * (chunk as int) + (chunk as int) <= (count as int) * (chunk as int),
                        (count as int) * (chunk as int) <= total + chunk - 1,
                {
                }
            }
            let expected_range_size = range_end - range_start;
            assert(expected_range_size == range_expected_size(idx as nat, total as nat, chunk as nat));
            proof {
                lemma_downloaded_monotone(files@, (idx + 1) as nat, n);
                lemma_range_lookup(files@, idx as nat);
            }
            match lookup_range(files, idx) {
                Some(p) => {
                    total_downloaded_bytes = total_downloaded_bytes + files[p].file_size;
                    if files[p].file_size >= expected_range_size {
                        complete_ranges.push(files[p].duplicate());
                    } else {
                        partial_ranges.push(files[p].duplicate());
                    }
                },
                None => {
                    missing_range_indices.push(idx);
                },
            }
            idx = idx + 1;
        }
        let total_remaining_bytes = if total_downloaded_bytes <= total { total - total_downloaded_bytes } else { 0 };
        let can_resume = files.len() > 0;
        let is_complete = missing_range_indices.len() == 0 && partial_ranges.len() == 0
            && complete_ranges.len() == expected_range_count;
        RangeResumeInfo {
            base_file_path: enumeration.base_file_path.clone(),
            model_id: enumeration.model_id.clone(),
            expected_total_size,
            expected_chunk_size,
            expected_range_count,
            complete_ranges,
            partial_ranges,
            missing_range_indices,
            total_downloaded_bytes,
            total_remaining_bytes,
            can_resume,
            is_complete,
        }
    }

    /// Check whether a download can resume: some range file exists.
    pub fn can_resume_download(&self, enumeration: &RangeFileEnumeration) -> (b: bool)
        ensures
            b == (enumeration.range_files@.len() > 0),
    {
        enumeration.range_files.len() > 0
    }

    /// The indices that still need downloading: the missing ranges and the partial
    /// ones, in ascending order.
    pub fn get_missing_range_indices(&self, resume_info: &RangeResumeInfo) -> (r: Vec<u32>)
        ensures
            ascending(r@),
            r@.to_multiset() == (resume_info.missing_range_indices@ + range_indices(
                resume_info.partial_ranges@,
            )).to_multiset(),
    {
        let mut indices: Vec<u32> = Vec::new();
        let mut i: usize = 0;
        while i < resume_info.missing_range_indices.len()
            invariant
                i <= resume_info.missing_range_indices@.len(),
                indices@ == resume_info.missing_range_indices@.take(i as int),
            decreases resume_info.missing_range_indices@.len() - i,
        {
            indices.push(resume_info.missing_range_indices[i]);
            i = i + 1;
            assert(indices@ =~= resume_info.missing_range_indices@.take(i as int));
        }
        assert(indices@ =~= resume_info.missing_range_indices@);
        let ghost missing = indices@;
        let mut j: usize = 0;
        while j < resume_info.partial_ranges.len()
            invariant
                j <= resume_info.partial_ranges@.len(),
                indices@ == missing + range_indices(resume_info.partial_ranges@).take(j as int),
            decreases resume_info.partial_ranges@.len() - j,
        {
            indices.push(resume_info.partial_ranges[j].index);
            j = j + 1;
            assert(indices@ =~= missing + range_indices(resume_info.partial_ranges@).take(j as int));
        }
        assert(range_indices(resume_info.partial_ranges@).take(j as int) =~= range_indices(resume_info.partial_ranges@));
        sort_indices(indices)
    }
}

} // verus!

verus! {

/// The string views of a list of strings.
pub open spec fn views(s: Seq<String>) -> Seq<Seq<char>> {
    s.map_values(|x: String| x@)
}

/// The outcome of comparing the first `n` manifest files with their observed sizes:
/// (valid paths, (path, actual, expected) of mismatches, missing paths, valid bytes,
/// expected bytes).
pub open spec fn manifest_comparison(
    files: Seq<ManifestFileInfo>,
    sizes: Seq<Option<u64>>,
    n: nat,
) -> (Seq<Seq<char>>, Seq<(Seq<char>, u64, u64)>, Seq<Seq<char>>, nat, nat)
    decreases n,
{
    if n == 0 || n > files.len() {
        (Seq::empty(), Seq::empty(), Seq::empty(), 0, 0)
    } else {
        let r = manifest_comparison(files, sizes, (n - 1) as nat);
        let f = files[n - 1];
        match sizes[n - 1] {
            Some(actual) => if actual == f.size {
                (r.0.push(f.path@), r.1, r.2, r.3 + actual as nat, r.4 + f.size as nat)
            } else {
                (r.0, r.1.push((f.path@, actual, f.size)), r.2, r.3, r.4 + f.size as nat)
            },
            None => (r.0, r.1, r.2.push(f.path@), r.3, r.4 + f.size as nat),
        }
    }
}

/// Directory files that no manifest entry names, in listing order.
pub open spec fn unexpected_names(names: Seq<Seq<char>>, files: Seq<ManifestFileInfo>, n: nat) -> Seq<Seq<char>>
    decreases n,
{
    if n == 0 || n > names.len() {
        Seq::empty()
    } else {
        let r = unexpected_names(names, files, (n - 1) as nat);
        if exists|i: int| 0 <= i < files.len() && files[i].path@ == names[n - 1] {
            r
        } else {
            r.push(names[n - 1])
        }
    }
}

/// Every manifest file was observed with exactly its expected size.
pub open spec fn all_sizes_match(files: Seq<ManifestFileInfo>, sizes: Seq<Option<u64>>) -> bool {
    forall|i: int| 0 <= i < files.len() ==> sizes[i] == Some(files[i].size)
}

proof fn lemma_comparison_bytes(files: Seq<ManifestFileInfo>, sizes: Seq<Option<u64>>, m: nat, n: nat)
    requires
        m <= n <= files.len(),
    ensures
        manifest_comparison(files, sizes, m).3 <= manifest_comparison(files, sizes, n).3,
        manifest_comparison(files, sizes, m).4 <= manifest_comparison(files, sizes, n).4,
        manifest_comparison(files, sizes, n).3 <= manifest_comparison(files, sizes, n).4,
    decreases n,
{
    if n > 0 {
        if m < n {
            lemma_comparison_bytes(files, sizes, m, (n - 1) as nat);
        } else {
            lemma_comparison_bytes(files, sizes, (n - 1) as nat, (n - 1) as nat);
        }
    }
}

fn manifest_path_listed(files: &[ManifestFileInfo], name: &String) -> (b: bool)
    ensures
        b == exists|i: int| 0 <= i < files@.len() && files@[i].path@ == name@,
{
    let mut i: usize = 0;
    while i < files.len()
        invariant
            i <= files@.len(),
            forall|k: int| 0 <= k < i ==> files@[k].path@ != name@,
        decreases files@.len() - i,
    {
        if files[i].path == *name {
            return true;
        }
        i = i + 1;
    }
    false
}

impl FilesystemProgressEvaluator {
    /// Compare a model's files on disk with its manifest.
    ///
    /// `observed_sizes[i]` is the size found for `manifest_files[i]` (`None` when it
    /// could not be read) and `directory_files` lists the names of the regular files
    /// in the model directory. Files of the right size are valid, others invalid,
    /// unreadable ones missing; directory files not in the manifest are unexpected.
    pub fn validate_manifest_completion(
        &self,
        model_id: &str,
        manifest_files: &[ManifestFileInfo],
        observed_sizes: &[Option<u64>],
        directory_files: &[String],
    ) -> (r: FilesystemValidationResult)
        requires
            observed_sizes@.len() == manifest_files@.len(),
            manifest_comparison(manifest_files@, observed_sizes@, manifest_files@.len()).4 <= u64::MAX,
        ensures
            ({
                let c = manifest_comparison(manifest_files@, observed_sizes@, manifest_files@.len());
                &&& r.model_id@ == model_id@
                &&& views(r.valid_files@) == c.0
                &&& r.invalid_files@.map_values(|t: (String, u64, u64)| (t.0@, t.1, t.2)) == c.1
                &&& views(r.missing_files@) == c.2
                &&& views(r.unexpected_files@) == unexpected_names(
                    views(directory_files@),
                    manifest_files@,
                    directory_files@.len(),
                )
                &&& r.total_valid_bytes == c.3
                &&& r.total_expected_bytes == c.4
                &&& r.is_complete == (c.2.len() == 0 && c.1.len() == 0 && c.3 == c.4)
            }),
    {
        let ghost files = manifest_files@;
        let ghost sizes = observed_sizes@;
        let mut valid_files: Vec<String> = Vec::new();
        let mut invalid_files: Vec<(String, u64, u64)> = Vec::new();
        let mut missing_files: Vec<String> = Vec::new();
        let mut total_valid_bytes: u64 = 0;
        let mut total_expected_bytes: u64 = 0;
        let mut i: usize = 0;
        while i < manifest_files.len()
            invariant
                i <= files.len(),
                files == manifest_files@,
                sizes == observed_sizes@,
                sizes.len() == files.len(),
                manifest_comparison(files, sizes, files.len()).4 <= u64::MAX,
                views(valid_files@) == manifest_comparison(files, sizes, i as nat).0,
                invalid_files@.map_values(|t: (String, u64, u64)| (t.0@, t.1, t.2))
                    == manifest_comparison(files, sizes, i as nat).1,
                views(missing_files@) == manifest_comparison(files, sizes, i as nat).2,
                total_valid_bytes == manifest_comparison(files, sizes, i as nat).3,
                total_expected_bytes == manifest_comparison(files, sizes, i as nat).4,
            decreases files.len() - i,
        {
            proof {
                lemma_comparison_bytes(files, sizes, (i + 1) as nat, files.len());
            }
            let f = &manifest_files[i];
            total_expected_bytes = total_expected_bytes + f.size;
            match observed_sizes[i] {
                Some(actual) => {
                    if actual == f.size {
                        valid_files.push(f.path.clone());
                        total_valid_bytes = total_valid_bytes + actual;
                        assert(views(valid_files@) =~= manifest_comparison(files, sizes, (i + 1) as nat).0);
                    } else {
                        invalid_files.push((f.path.clone(), actual, f.size));
                        assert(invalid_files@.map_values(|t: (String, u64, u64)| (t.0@, t.1, t.2))
                            =~= manifest_comparison(files, sizes, (i + 1) as nat).1);
                    }
                },
                None => {
                    missing_files.push(f.path.clone());
                    assert(views(missing_files@) =~= manifest_comparison(files, sizes, (i + 1) as nat).2);
                },
            }
            i = i + 1;
        }
        let mut unexpected_files: Vec<String> = Vec::new();
        let ghost names = views(directory_files@);
        let mut j: usize = 0;
        while j < directory_files.len()
            invariant
                j <= directory_files@.len(),
                names == views(directory_files@),
                files == manifest_files@,
                views(unexpected_files@) == unexpected_names(names, files, j as nat),
            decreases directory_files@.len() - j,
        {
            let listed = manifest_path_listed(manifest_files, &directory_files[j]);
            if !listed {
                unexpected_files.push(directory_files[j].clone());
            }
            j = j + 1;
            assert(views(unexpected_files@) =~= unexpected_names(names, files, j as nat));
        }
        let is_complete = missing_files.len() == 0 && invalid_files.len() == 0
            && total_valid_bytes == total_expected_bytes;
        FilesystemValidationResult {
            model_id: String::from_str(model_id),
            valid_files,
            invalid_files,
            missing_files,
            unexpected_files,
            total_valid_bytes,
            total_expected_bytes,
            is_complete,
        }
    }

    /// Check that every file of a model was observed with its expected size.
    pub fn validate_model_completion(
        &self,
        manifest_files: &[ManifestFileInfo],
        observed_sizes: &[Option<u64>],
    ) -> (b: bool)
        requires
            observed_sizes@.len() == manifest_files@.len(),
        ensures
            b == all_sizes_match(manifest_files@, observed_sizes@),
    {
        let mut i: usize = 0;
        while i < manifest_files.len()
            invariant
                i <= manifest_files@.len(),
                observed_sizes@.len() == manifest_files@.len(),
                forall|k: int| 0 <= k < i ==> observed_sizes@[k] == Some(manifest_files@[k].size),
            decreases manifest_files@.len() - i,
        {
            match observed_sizes[i] {
                Some(actual) => {
                    if actual != manifest_files[i].size {
                        return false;
                    }
                },
                None => {
                    return false;
                },
            }
            i = i + 1;
        }
        true
    }

    /// A byte range is on disk when the partial file has reached the range's end;
    /// an unreadable partial file has not.
    pub fn validate_range_completion(&self, part_file_size: Option<u64>, range_end: u64) -> (b: bool)
        ensures
            b == match part_file_size {
                Some(size) => size >= range_end,
                None => false,
            },
    {
        match part_file_size {
            Some(size) => size >= range_end,
            None => false,
        }
    }

    /// A partial file may be finalized when it holds at least the expected bytes.
    pub fn part_file_ready_for_finalization(part_file_size: Option<u64>, expected_size: u64) -> (b: bool)
        ensures
            b == match part_file_size {
                Some(size) => size >= expected_size,
                None => false,
            },
    {
        match part_file_size {
            Some(size) => size >= expected_size,
            None => false,
        }
    }
}

} // verus!

verus! {

/// `s` with every `/` written as `--`.
pub open spec fn slashes_to_dashes(s: Seq<char>) -> Seq<char>
    decreases s.len(),
{
    if s.len() == 0 {
        Seq::empty()
    } else {
        (if s[0] == '/' { seq!['-', '-'] } else { seq![s[0]] }) + slashes_to_dashes(s.drop_first())
    }
}

/// `s` with each `--`, taken left to right without overlap, written as `/`.
pub open spec fn dashes_to_slashes(s: Seq<char>) -> Seq<char>
    decreases s.len(),
{
    if s.len() == 0 {
        Seq::empty()
    } else if s.len() >= 2 && s[0] == '-' && s[1] == '-' {
        seq!['/'] + dashes_to_slashes(s.skip(2))
    } else {
        seq![s[0]] + dashes_to_slashes(s.drop_first())
    }
}

/// The HuggingFace cache directory name of a model: "models--{org}--{name}".
pub open spec fn cache_dir_name_of(model_id: Seq<char>) -> Seq<char> {
    "models--"@ + slashes_to_dashes(model_id)
}

/// The model id a cache directory name stands for.
pub open spec fn model_id_of_cache_dir(dir_name: Seq<char>) -> Seq<char> {
    if has_prefix(dir_name, "models--"@) {
        dashes_to_slashes(dir_name.skip(8))
    } else {
        dashes_to_slashes(dir_name)
    }
}

/// `s` with each character that `is_bad` holds for replaced by `_`.
pub open spec fn underscored(s: Seq<char>, bad: spec_fn(char) -> bool) -> Seq<char> {
    s.map_values(|c: char| if bad(c) { '_' } else { c })
}

/// Characters that may not appear in a state file name.
pub open spec fn is_unsafe_file_char(c: char) -> bool {
    c == '/' || c == '\\' || c == ':' || c == '*' || c == '?' || c == '"' || c == '<' || c == '>'
        || c == '|'
}

/// The part of a path after its last `/` (the whole path when it has none).
pub open spec fn last_segment(s: Seq<char>) -> Seq<char>
    decreases s.len(),
{
    if s.len() == 0 {
        s
    } else if s.last() == '/' {
        Seq::empty()
    } else {
        last_segment(s.drop_last()).push(s.last())
    }
}

/// The name of the state file of a download: "{model id with / as _}_{file name}.json",
/// where the file name is the last path segment with unsafe characters as `_`.
pub open spec fn state_file_name_of(model_id: Seq<char>, file_path: Seq<char>) -> Seq<char> {
    underscored(model_id, |c: char| c == '/') + "_"@ + underscored(
        last_segment(file_path),
        |c: char| is_unsafe_file_char(c),
    ) + ".json"@
}

/// Get the HuggingFace cache directory name of a model.
pub fn model_cache_dir_name(model_id: &str) -> (r: String)
    ensures
        r@ == cache_dir_name_of(model_id@),
{
    let mut out = String::new();
    append_str(&mut out, "models--");
    let len = model_id.unicode_len();
    let mut k: usize = 0;
    assert(model_id@.take(0) =~= Seq::<char>::empty());
    while k < len
        invariant
            len == model_id@.len(),
            k <= len,
            out@ == "models--"@ + slashes_to_dashes(model_id@.take(k as int)),
        decreases len - k,
    {
        let c = model_id.get_char(k);
        proof {
            lemma_slashes_to_dashes_push(model_id@.take(k as int), c);
            assert(model_id@.take(k + 1) =~= model_id@.take(k as int).push(c));
        }
        if c == '/' {
            push_char(&mut out, '-');
            push_char(&mut out, '-');
        } else {
            push_char(&mut out, c);
        }
        k = k + 1;
        assert(out@ =~= "models--"@ + slashes_to_dashes(model_id@.take(k as int)));
    }
    assert(model_id@.take(len as int) =~= model_id@);
    out
}

/// Appending one character to the text appends its replacement.
proof fn lemma_slashes_to_dashes_push(s: Seq<char>, c: char)
    ensures
        slashes_to_dashes(s.push(c)) == slashes_to_dashes(s) + (if c == '/' { seq!['-', '-'] } else {
            seq![c]
        }),
    decreases s.len(),
{
    if s.len() == 0 {
        assert(s.push(c).drop_first() =~= Seq::<char>::empty());
        assert(s.push(c)[0] == c);
        assert(slashes_to_dashes(Seq::<char>::empty()) == Seq::<char>::empty());
        assert(slashes_to_dashes(s) == Seq::<char>::empty());
        assert(slashes_to_dashes(s.push(c)) =~= (if c == '/' { seq!['-', '-'] } else { seq![c] }));
    } else {
        assert(s.push(c).drop_first() =~= s.drop_first().push(c));
        lemma_slashes_to_dashes_push(s.drop_first(), c);
        assert(slashes_to_dashes(s.push(c)) =~= slashes_to_dashes(s) + (if c == '/' { seq!['-', '-'] } else {
            seq![c]
        }));
    }
}

} // verus!

verus! {

/// Get the model id that a cache directory name stands for
/// ("models--microsoft--DialoGPT-medium" gives "microsoft/DialoGPT-medium").
pub fn model_id_from_cache_dir_name(dir_name: &str) -> (r: String)
    ensures
        r@ == model_id_of_cache_dir(dir_name@),
{
    let len = dir_name.unicode_len();
    let start: usize = if starts_with(dir_name, "models--") { 8 } else { 0 };
    proof {
        reveal_strlit("models--");
    }
    let ghost body = if has_prefix(dir_name@, "models--"@) { dir_name@.skip(8) } else { dir_name@ };
    assert(body =~= dir_name@.skip(start as int));
    let mut out = String::new();
    let mut i: usize = start;
    assert(dir_name@.skip(start as int) =~= body);
    while i < len
        invariant
            len == dir_name@.len(),
            start <= i <= len,
            body == dir_name@.skip(start as int),
            dashes_to_slashes(body) == out@ + dashes_to_slashes(dir_name@.skip(i as int)),
        decreases len - i,
    {
        let ghost rest = dir_name@.skip(i as int);
        if i + 1 < len && dir_name.get_char(i) == '-' && dir_name.get_char(i + 1) == '-' {
            assert(rest[0] == '-' && rest[1] == '-');
            assert(rest.skip(2) =~= dir_name@.skip(i + 2));
            push_char(&mut out, '/');
            i = i + 2;
        } else {
            let c = dir_name.get_char(i);
            assert(rest[0] == c);
            assert(rest.drop_first() =~= dir_name@.skip(i + 1));
            push_char(&mut out, c);
            i = i + 1;
        }
    }
    assert(dir_name@.skip(i as int) =~= Seq::<char>::empty());
    assert(out@ =~= dashes_to_slashes(body));
    out
}

/// Appends `s` with each character that `bad` holds for replaced by `_`.
fn write_underscored(out: &mut String, s: &str, slash_only: bool)
    ensures
        final(out)@ == old(out)@ + underscored(
            s@,
            if slash_only { |c: char| c == '/' } else { |c: char| is_unsafe_file_char(c) },
        ),
{
    let ghost bad = if slash_only { |c: char| c == '/' } else { |c: char| is_unsafe_file_char(c) };
    let ghost start = out@;
    let len = s.unicode_len();
    let mut k: usize = 0;
    while k < len
        invariant
            len == s@.len(),
            k <= len,
            bad == (if slash_only { |c: char| c == '/' } else { |c: char| is_unsafe_file_char(c) }),
            out@ == start + underscored(s@.take(k as int), bad),
        decreases len - k,
    {
        let c = s.get_char(k);
        let replace = if slash_only {
            c == '/'
        } else {
            c == '/' || c == '\\' || c == ':' || c == '*' || c == '?' || c == '"' || c == '<' || c == '>'
                || c == '|'
        };
        assert(replace == bad(c));
        if replace {
            push_char(out, '_');
        } else {
            push_char(out, c);
        }
        k = k + 1;
        assert(out@ =~= start + underscored(s@.take(k as int), bad));
    }
    assert(s@.take(len as int) =~= s@);
}

/// Get the name of the state file that `write_download_state` writes for a download.
pub fn state_file_name(state: &DownloadStateFile) -> (r: String)
    ensures
        r@ == state_file_name_of(state.model_id@, state.file_path@),
{
    let path = state.file_path.as_str();
    let len = path.unicode_len();
    let mut seg_start: usize = 0;
    let mut i: usize = 0;
    assert(path@.take(0) =~= Seq::<char>::empty());
    while i < len
        invariant
            len == path@.len(),
            seg_start <= i <= len,
            last_segment(path@.take(i as int)) == path@.subrange(seg_start as int, i as int),
        decreases len - i,
    {
        let c = path.get_char(i);
        assert(path@.take(i + 1).drop_last() =~= path@.take(i as int));
        assert(path@.take(i + 1).last() == c);
        if c == '/' {
            seg_start = i + 1;
            assert(path@.subrange(seg_start as int, i + 1) =~= Seq::<char>::empty());
        } else {
            assert(path@.subrange(seg_start as int, i + 1) =~= path@.subrange(seg_start as int, i as int).push(c));
        }
        i = i + 1;
    }
    assert(path@.take(len as int) =~= path@);
    let segment = path.substring_char(seg_start, len);
    let mut out = String::new();
    write_underscored(&mut out, state.model_id.as_str(), true);
    append_str(&mut out, "_");
    write_underscored(&mut out, segment, false);
    append_str(&mut out, ".json");
    assert(out@ =~= state_file_name_of(state.model_id@, state.file_path@));
    out
}

} // verus!

verus! {

/// What one entry of a model directory contributes to a scan.
#[derive(Debug, Clone, Copy, PartialEq, Eq, Structural)]
pub enum ScanEntryKind {
    /// A directory or a file that scanning ignores
    Skip,
    /// A range part of a ranged download; its group is analyzed once
    RangeGroup,
    /// A final file or a legacy `.part` file
    Single,
}

/// The kind of a model directory entry.
pub open spec fn scan_entry_kind(file_name: Seq<char>, is_dir: bool, model_hash: Seq<char>) -> ScanEntryKind {
    if is_dir || skipped_name(file_name) {
        ScanEntryKind::Skip
    } else if range_base_of(file_name, model_hash) is Some {
        ScanEntryKind::RangeGroup
    } else {
        ScanEntryKind::Single
    }
}

/// The first position of a file with path `path`, if any.
pub open spec fn file_position(files: Seq<FileProgressData>, path: Seq<char>) -> Option<int>
    decreases files.len(),
{
    if files.len() == 0 {
        None
    } else {
        match file_position(files.drop_last(), path) {
            Some(i) => Some(i),
            None => if files.last().file_path@ == path {
                Some(files.len() - 1)
            } else {
                None
            },
        }
    }
}

/// The files after recording `f`: it replaces the file with the same path, or is
/// appended.
pub open spec fn files_with(files: Seq<FileProgressData>, f: FileProgressData) -> Seq<FileProgressData> {
    match file_position(files, f.file_path@) {
        Some(i) => files.update(i, f),
        None => files.push(f),
    }
}

/// The first position of a model with id `model_id`, if any.
pub open spec fn model_position(models: Seq<ModelProgressData>, model_id: Seq<char>) -> Option<int>
    decreases models.len(),
{
    if models.len() == 0 {
        None
    } else {
        match model_position(models.drop_last(), model_id) {
            Some(i) => Some(i),
            None => if models.last().model_id@ == model_id {
                Some(models.len() - 1)
            } else {
                None
            },
        }
    }
}

/// The models after recording `m`: it replaces the model with the same id, or is
/// appended.
pub open spec fn models_with(models: Seq<ModelProgressData>, m: ModelProgressData) -> Seq<ModelProgressData> {
    match model_position(models, m.model_id@) {
        Some(i) => models.update(i, m),
        None => models.push(m),
    }
}

proof fn lemma_file_position_bounds(files: Seq<FileProgressData>, path: Seq<char>)
    ensures
        file_position(files, path) matches Some(i) ==> 0 <= i < files.len() && files[i].file_path@ == path,
    decreases files.len(),
{
    if files.len() > 0 {
        lemma_file_position_bounds(files.drop_last(), path);
    }
}

proof fn lemma_model_position_bounds(models: Seq<ModelProgressData>, model_id: Seq<char>)
    ensures
        model_position(models, model_id) matches Some(i) ==> 0 <= i < models.len() && models[i].model_id@ == model_id,
    decreases models.len(),
{
    if models.len() > 0 {
        lemma_model_position_bounds(models.drop_last(), model_id);
    }
}

fn find_file(files: &Vec<FileProgressData>, path: &str) -> (r: Option<usize>)
    ensures
        r == match file_position(files@, path@) {
            Some(i) => Some(i as usize),
            None => None::<usize>,
        },
{
    let mut i: usize = 0;
    while i < files.len()
        invariant
            i <= files@.len(),
            file_position(files@.take(i as int), path@) is None,
        decreases files@.len() - i,
    {
        assert(files@.take(i + 1).drop_last() =~= files@.take(i as int));
        if str_equal(files[i].file_path.as_str(), path) {
            proof {
                lemma_position_extends(files@, path@, i as int);
            }
            return Some(i);
        }
        i = i + 1;
    }
    assert(files@.take(files@.len() as int) =~= files@);
    None
}

proof fn lemma_position_extends(files: Seq<FileProgressData>, path: Seq<char>, i: int)
    requires
        0 <= i < files.len(),
        file_position(files.take(i), path) is None,
        files[i].file_path@ == path,
    ensures
        file_position(files, path) == Some(i),
    decreases files.len(),
{
    if i + 1 == files.len() {
        assert(files.drop_last() =~= files.take(i));
    } else {
        assert(files.drop_last().take(i) =~= files.take(i));
        lemma_position_extends(files.drop_last(), path, i);
    }
}

proof fn lemma_model_position_extends(models: Seq<ModelProgressData>, model_id: Seq<char>, i: int)
    requires
        0 <= i < models.len(),
        model_position(models.take(i), model_id) is None,
        models[i].model_id@ == model_id,
    ensures
        model_position(models, model_id) == Some(i),
    decreases models.len(),
{
    if i + 1 == models.len() {
        assert(models.drop_last() =~= models.take(i));
    } else {
        assert(models.drop_last().take(i) =~= models.take(i));
        lemma_model_position_extends(models.drop_last(), model_id, i);
    }
}

fn find_model(models: &Vec<ModelProgressData>, model_id: &str) -> (r: Option<usize>)
    ensures
        r == match model_position(models@, model_id@) {
            Some(i) => Some(i as usize),
            None => None::<usize>,
        },
{
    let mut i: usize = 0;
    while i < models.len()
        invariant
            i <= models@.len(),
            model_position(models@.take(i as int), model_id@) is None,
        decreases models@.len() - i,
    {
        assert(models@.take(i + 1).drop_last() =~= models@.take(i as int));
        if str_equal(models[i].model_id.as_str(), model_id) {
            proof {
                lemma_model_position_extends(models@, model_id@, i as int);
            }
            return Some(i);
        }
        i = i + 1;
    }
    assert(models@.take(models@.len() as int) =~= models@);
    None
}

/// The progress of one model's directory, gathered entry by entry.
#[derive(Debug, Clone)]
pub struct ModelScan {
    /// Files found so far, at most one per path
    pub files: Vec<FileProgressData>,
    /// Bytes downloaded over the files found
    pub model_bytes_downloaded: u64,
    /// Total bytes over the files found
    pub model_total_bytes: u64,
    /// Whether every file found so far is served from cache
    pub all_files_cached: bool,
    /// Base names of the range groups already analyzed
    pub processed_base_files: Vec<String>,
}

impl ModelScan {
    /// A scan that found nothing yet.
    pub fn new() -> (s: Self)
        ensures
            s.files@.len() == 0,
            s.model_bytes_downloaded == 0,
            s.model_total_bytes == 0,
            s.all_files_cached,
            s.processed_base_files@.len() == 0,
    {
        ModelScan {
            files: Vec::new(),
            model_bytes_downloaded: 0,
            model_total_bytes: 0,
            all_files_cached: true,
            processed_base_files: Vec::new(),
        }
    }

    /// Start analyzing the range group of `base_name`: true the first time the
    /// base name is seen, false when its group was analyzed already.
    pub fn begin_range_group(&mut self, base_name: &str) -> (first: bool)
        ensures
            first == !old(self).processed_base_files@.map_values(|b: String| b@).contains(base_name@),
            final(self).processed_base_files@.map_values(|b: String| b@) == if first {
                old(self).processed_base_files@.map_values(|b: String| b@).push(base_name@)
            } else {
                old(self).processed_base_files@.map_values(|b: String| b@)
            },
            final(self).files == old(self).files,
            final(self).model_bytes_downloaded == old(self).model_bytes_downloaded,
            final(self).model_total_bytes == old(self).model_total_bytes,
            final(self).all_files_cached == old(self).all_files_cached,
    {
        let ghost names = self.processed_base_files@.map_values(|b: String| b@);
        let mut i: usize = 0;
        while i < self.processed_base_files.len()
            invariant
                i <= self.processed_base_files@.len(),
                names == self.processed_base_files@.map_values(|b: String| b@),
                forall|k: int| 0 <= k < i ==> names[k] != base_name@,
            decreases self.processed_base_files@.len() - i,
        {
            if str_equal(self.processed_base_files[i].as_str(), base_name) {
                assert(names[i as int] == base_name@);
                return false;
            }
            i = i + 1;
        }
        self.processed_base_files.push(String::from_str(base_name));
        assert(self.processed_base_files@.map_values(|b: String| b@) =~= names.push(base_name@));
        true
    }

    /// Record the progress of a file found in the directory: it replaces an earlier
    /// file with the same path, and its bytes are added to the model's.
    pub fn add_file(&mut self, data: FileProgressData)
        requires
            old(self).model_bytes_downloaded + data.bytes_downloaded <= u64::MAX,
            old(self).model_total_bytes + data.total_bytes <= u64::MAX,
        ensures
            final(self).files@ == files_with(old(self).files@, data),
            final(self).model_bytes_downloaded == old(self).model_bytes_downloaded + data.bytes_downloaded,
            final(self).model_total_bytes == old(self).model_total_bytes + data.total_bytes,
            final(self).all_files_cached == (old(self).all_files_cached && data.from_cache),
            final(self).processed_base_files == old(self).processed_base_files,
    {
        self.model_bytes_downloaded = self.model_bytes_downloaded + data.bytes_downloaded;
        self.model_total_bytes = self.model_total_bytes + data.total_bytes;
        self.all_files_cached = self.all_files_cached && data.from_cache;
        proof {
            lemma_file_position_bounds(self.files@, data.file_path@);
        }
        match find_file(&self.files, data.file_path.as_str()) {
            Some(i) => {
                self.files.set(i, data);
            },
            None => {
                self.files.push(data);
            },
        }
    }

    /// The model's progress data: cached when every file is and there are bytes
    /// to count.
    pub fn finish(self, model_id: &str, model_cache_dir: PathBuf) -> (m: ModelProgressData)
        ensures
            m.model_id@ == model_id@,
            m.files == self.files,
            m.model_bytes_downloaded == self.model_bytes_downloaded,
            m.model_total_bytes == self.model_total_bytes,
            m.is_model_cached == (self.all_files_cached && self.model_total_bytes > 0),
            m.model_cache_dir == model_cache_dir,
    {
        ModelProgressData {
            model_id: String::from_str(model_id),
            files: self.files,
            model_bytes_downloaded: self.model_bytes_downloaded,
            model_total_bytes: self.model_total_bytes,
            is_model_cached: self.all_files_cached && self.model_total_bytes > 0,
            model_cache_dir,
        }
    }
}

impl FilesystemProgressEvaluator {
    /// Classify an entry of a model directory: directories and ignored names are
    /// skipped, range parts of this model's downloads form range groups, and
    /// everything else is a single file.
    pub fn classify_scan_entry(&self, file_name: &str, is_dir: bool, model_hash: &str) -> (k: ScanEntryKind)
        ensures
            k == scan_entry_kind(file_name@, is_dir, model_hash@),
    {
        if is_dir || self.should_skip_file(file_name) {
            ScanEntryKind::Skip
        } else if self.extract_base_from_range_file(file_name, model_hash).is_some() {
            ScanEntryKind::RangeGroup
        } else {
            ScanEntryKind::Single
        }
    }

    /// The progress of a single file of `file_size` bytes found at `file_path` in
    /// `model_dir`: a legacy "{name}.part" file is partial progress of "{name}";
    /// any other file is complete and served from cache.
    pub fn single_file_progress(&self, file_path: &PathBuf, file_name: &str, model_dir: &PathBuf, file_size: u64) -> (d:
        FileProgressData)
        ensures
            has_suffix(file_name@, ".part"@) ==> {
                let base = file_name@.take(file_name@.len() - 5);
                &&& d.file_path@ == base
                &&& d.local_file_path == joined_path(*model_dir, base)
                &&& !d.is_complete
                &&& !d.from_cache
                &&& d.legacy_part_size == file_size
            },
            !has_suffix(file_name@, ".part"@) ==> {
                &&& d.file_path@ == file_name@
                &&& d.local_file_path == *file_path
                &&& d.is_complete
                &&& d.from_cache
                &&& d.legacy_part_size == 0
            },
            d.bytes_downloaded == file_size,
            d.total_bytes == file_size,
            d.range_files@.len() == 0,
    {
        if ends_with(file_name, ".part") {
            let len = file_name.unicode_len();
            proof {
                reveal_strlit(".part");
            }
            let base = file_name.substring_char(0, len - 5);
            assert(base@ =~= file_name@.take(file_name@.len() - 5));
            let local_file_path = path_join(model_dir, base);
            FileProgressData {
                file_path: String::from_str(base),
                local_file_path,
                bytes_downloaded: file_size,
                total_bytes: file_size,
                is_complete: false,
                from_cache: false,
                range_files: Vec::new(),
                legacy_part_size: file_size,
            }
        } else {
            FileProgressData {
                file_path: String::from_str(file_name),
                local_file_path: file_path.clone(),
                bytes_downloaded: file_size,
                total_bytes: file_size,
                is_complete: true,
                from_cache: true,
                range_files: Vec::new(),
                legacy_part_size: 0,
            }
        }
    }

    /// The progress of a range group: all of its range bytes are counted as both
    /// downloaded and total (the true total is not known without a manifest), and
    /// it is complete when its ranges look complete.
    pub fn range_group_progress(&self, base_filename: &str, base_file_path: PathBuf, enumeration: RangeFileEnumeration) -> (d:
        FileProgressData)
        ensures
            d.file_path@ == base_filename@,
            d.local_file_path == base_file_path,
            d.bytes_downloaded == enumeration.total_bytes,
            d.total_bytes == enumeration.total_bytes,
            forall|s: Seq<u32>|
                ascending(s) && s.to_multiset() == range_indices(enumeration.range_files@).to_multiset()
                    ==> d.is_complete == consecutive_from_zero(s),
            !d.from_cache,
            d.range_files@ == enumeration.range_files@,
            d.legacy_part_size == 0,
    {
        let is_complete = self.check_range_completeness(&enumeration);
        FileProgressData {
            file_path: String::from_str(base_filename),
            local_file_path: base_file_path,
            bytes_downloaded: enumeration.total_bytes,
            total_bytes: enumeration.total_bytes,
            is_complete,
            from_cache: false,
            range_files: enumeration.range_files,
            legacy_part_size: 0,
        }
    }
}

/// The scan of all requested models, gathered directory by directory.
#[derive(Debug, Clone)]
pub struct ProgressScanBuilder {
    /// Cache directory names of the requested models
    pub requested_cache_dirs: Vec<String>,
    /// Models scanned so far, at most one per id
    pub models: Vec<ModelProgressData>,
    /// Bytes downloaded over the models scanned
    pub overall_bytes_downloaded: u64,
    /// Total bytes over the models scanned
    pub overall_total_bytes: u64,
}

impl ProgressScanBuilder {
    /// Start a scan for the requested models.
    pub fn new(requested_models: &Vec<String>) -> (b: Self)
        ensures
            b.requested_cache_dirs@.len() == requested_models@.len(),
            forall|i: int| 0 <= i < requested_models@.len() ==> (#[trigger] b.requested_cache_dirs@[i])@
                == cache_dir_name_of(requested_models@[i]@),
            b.models@.len() == 0,
            b.overall_bytes_downloaded == 0,
            b.overall_total_bytes == 0,
    {
        let mut dirs: Vec<String> = Vec::new();
        let mut i: usize = 0;
        while i < requested_models.len()
            invariant
                i <= requested_models@.len(),
                dirs@.len() == i,
                forall|k: int| 0 <= k < i ==> (#[trigger] dirs@[k])@ == cache_dir_name_of(requested_models@[k]@),
            decreases requested_models@.len() - i,
        {
            dirs.push(model_cache_dir_name(requested_models[i].as_str()));
            i = i + 1;
        }
        ProgressScanBuilder {
            requested_cache_dirs: dirs,
            models: Vec::new(),
            overall_bytes_downloaded: 0,
            overall_total_bytes: 0,
        }
    }

    /// The model a cache directory entry holds, when it is the directory of a
    /// requested model ("models--..." and requested).
    pub fn requested_model_of(&self, dir_name: &str, is_dir: bool) -> (r: Option<String>)
        ensures
            r is Some <==> (has_prefix(dir_name@, "models--"@) && is_dir && exists|i: int|
                0 <= i < self.requested_cache_dirs@.len() && (#[trigger] self.requested_cache_dirs@[i])@
                    == dir_name@),
            r matches Some(id) ==> id@ == model_id_of_cache_dir(dir_name@),
    {
        if !(starts_with(dir_name, "models--") && is_dir) {
            return None;
        }
        let mut i: usize = 0;
        while i < self.requested_cache_dirs.len()
            invariant
                i <= self.requested_cache_dirs@.len(),
                has_prefix(dir_name@, "models--"@),
                is_dir,
                forall|k: int| 0 <= k < i ==> (#[trigger] self.requested_cache_dirs@[k])@ != dir_name@,
            decreases self.requested_cache_dirs@.len() - i,
        {
            if str_equal(self.requested_cache_dirs[i].as_str(), dir_name) {
                assert(self.requested_cache_dirs@[i as int]@ == dir_name@);
                return Some(model_id_from_cache_dir_name(dir_name));
            }
            i = i + 1;
        }
        None
    }

    /// Record a scanned model: it replaces an earlier one with the same id, and its
    /// bytes are added to the overall counts.
    pub fn add_model(&mut self, model: ModelProgressData)
        requires
            old(self).overall_bytes_downloaded + model.model_bytes_downloaded <= u64::MAX,
            old(self).overall_total_bytes + model.model_total_bytes <= u64::MAX,
        ensures
            final(self).models@ == models_with(old(self).models@, model),
            final(self).overall_bytes_downloaded == old(self).overall_bytes_downloaded
                + model.model_bytes_downloaded,
            final(self).overall_total_bytes == old(self).overall_total_bytes + model.model_total_bytes,
            final(self).requested_cache_dirs == old(self).requested_cache_dirs,
    {
        self.overall_bytes_downloaded = self.overall_bytes_downloaded + model.model_bytes_downloaded;
        self.overall_total_bytes = self.overall_total_bytes + model.model_total_bytes;
        proof {
            lemma_model_position_bounds(self.models@, model.model_id@);
        }
        match find_model(&self.models, model.model_id.as_str()) {
            Some(i) => {
                self.models.set(i, model);
            },
            None => {
                self.models.push(model);
            },
        }
    }

    /// The finished scan.
    pub fn finish(self, scan_timestamp: Instant, cache_root: PathBuf) -> (scan: ComprehensiveProgressScan)
        ensures
            scan.models == self.models,
            scan.overall_bytes_downloaded == self.overall_bytes_downloaded,
            scan.overall_total_bytes == self.overall_total_bytes,
            scan.scan_timestamp == scan_timestamp,
            scan.cache_root == cache_root,
    {
        ComprehensiveProgressScan {
            models: self.models,
            overall_bytes_downloaded: self.overall_bytes_downloaded,
            overall_total_bytes: self.overall_total_bytes,
            scan_timestamp,
            cache_root,
        }
    }
}

} // verus!
