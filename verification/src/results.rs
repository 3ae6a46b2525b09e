//! Download result types: per-file and per-model results and their statuses.

use vstd::prelude::*;
use std::path::PathBuf;
use std::time::Duration;

verus! {

/// Zero, one or many results.
#[derive(Debug, Clone)]
pub enum ZeroOneOrMany<T> {
    Zero,
    One(T),
    Many(Vec<T>),
}

impl<T> Default for ZeroOneOrMany<T> {
    fn default() -> (r: Self)
        ensures
            r is Zero,
    {
        ZeroOneOrMany::Zero
    }
}

impl<T> ZeroOneOrMany<T> {
    /// The results held, in order.
    pub open spec fn items(&self) -> Seq<T> {
        match self {
            ZeroOneOrMany::Zero => Seq::empty(),
            ZeroOneOrMany::One(item) => seq![*item],
            ZeroOneOrMany::Many(items) => items@,
        }
    }

    /// Whether this is `Zero` (a `Many` with no items is not empty).
    pub fn is_empty(&self) -> (b: bool)
        ensures
            b == (self is Zero),
    {
        match self {
            ZeroOneOrMany::Zero => true,
            _ => false,
        }
    }

    /// Number of results.
    pub fn len(&self) -> (n: usize)
        ensures
            n == self.items().len(),
    {
        match self {
            ZeroOneOrMany::Zero => 0,
            ZeroOneOrMany::One(_) => 1,
            ZeroOneOrMany::Many(items) => items.len(),
        }
    }

    /// The results as a vector.
    pub fn into_vec(self) -> (v: Vec<T>)
        ensures
            v@ == self.items(),
    {
        match self {
            ZeroOneOrMany::Zero => Vec::new(),
            ZeroOneOrMany::One(item) => {
                let mut v = Vec::new();
                v.push(item);
                assert(v@ =~= seq![item]);
                v
            },
            ZeroOneOrMany::Many(items) => items,
        }
    }

    /// References to the results, in order.
    pub fn iter(&self) -> (v: Vec<&T>)
        ensures
            v@.len() == self.items().len(),
            forall|i: int| 0 <= i < v@.len() ==> *(#[trigger] v@[i]) == self.items()[i],
    {
        match self {
            ZeroOneOrMany::Zero => Vec::new(),
            ZeroOneOrMany::One(item) => {
                let mut v = Vec::new();
                v.push(item);
                v
            },
            ZeroOneOrMany::Many(items) => {
                let mut v: Vec<&T> = Vec::new();
                let mut i: usize = 0;
                while i < items.len()
                    invariant
                        i <= items@.len(),
                        v@.len() == i,
                        forall|k: int| 0 <= k < i ==> *(#[trigger] v@[k]) == items@[k],
                    decreases items@.len() - i,
                {
                    v.push(&items[i]);
                    i = i + 1;
                }
                v
            },
        }
    }
}

/// Result of a single file download.
#[derive(Debug, Clone)]
pub struct FileResult {
    /// File name in the model repository
    pub filename: String,
    /// Path where the file was downloaded
    pub path: PathBuf,
    /// Actual size of the downloaded file in bytes
    pub downloaded_size: u64,
    /// Expected size from the manifest in bytes
    pub expected_size: u64,
    /// Hash of the file, if available
    pub hash: Option<String>,
    /// Whether the file was served from cache
    pub from_cache: bool,
}

/// Download status of a model.
#[derive(Debug, Clone)]
pub enum DownloadStatus {
    /// Download completed successfully
    Complete,
    /// Partial download (some files failed)
    Partial { completed_files: usize, total_files: usize },
    /// Download failed completely
    Failed { error: String },
}

/// Result of one model's download.
#[derive(Debug, Clone)]
pub struct ModelResult {
    /// Model identifier (e.g. "meta-llama/Llama-2-7b")
    pub model_id: String,
    /// Status of the download
    pub status: DownloadStatus,
    /// Root path where the model was downloaded
    pub model_cache_path: PathBuf,
    /// The model's files
    pub files: Vec<FileResult>,
    /// Total bytes downloaded for this model
    pub total_downloaded_bytes: u64,
    /// Total bytes expected from the manifest
    pub total_expected_bytes: u64,
    /// Number of files downloaded
    pub files_downloaded: usize,
    /// Number of files expected from the manifest
    pub files_expected: usize,
    /// Time taken to download this model
    pub duration: Duration,
    /// Whether all files match their expected sizes
    pub size_reconciled: bool,
}

/// What a finished run reports, apart from its average speed: the results of the
/// models, the byte totals over all of them and the time taken.
#[derive(Debug, Clone)]
pub struct DownloadSummary {
    /// Results for each model (zero, one, or many)
    pub models: ZeroOneOrMany<ModelResult>,
    /// Total bytes actually downloaded across all models
    pub total_downloaded_bytes: u64,
    /// Total bytes expected from all manifests
    pub total_expected_bytes: u64,
    /// Total time taken for all downloads
    pub total_duration: Duration,
    /// Whether all models and files have reconciled sizes
    pub fully_reconciled: bool,
}

} // verus!
