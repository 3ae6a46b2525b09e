//! Raw download progress events, as download clients report them.

use vstd::prelude::*;
use crate::orchestration::{file_key, file_key_of};

verus! {

/// Raw download progress reported by a download client: unformatted numbers only.
#[derive(Debug, Clone)]
pub struct RawDownloadEvent {
    /// Model identifier (e.g. "meta-llama/Llama-2-7b")
    pub model_id: String,
    /// Quantization specification (e.g. "Q4_K_M", "Q8_0", "F16")
    pub quant: String,
    /// Remote URL being downloaded
    pub remote_url: String,
    /// Local filepath where the file is being written
    pub local_filepath: String,
    /// Bytes downloaded so far for this file
    pub bytes_downloaded: u64,
    /// Total bytes expected for this file
    pub total_bytes: u64,
}

impl RawDownloadEvent {
    /// Create a raw download event.
    pub fn new(
        model_id: String,
        quant: String,
        remote_url: String,
        local_filepath: String,
        bytes_downloaded: u64,
        total_bytes: u64,
    ) -> (e: Self)
        ensures
            e.model_id == model_id,
            e.quant == quant,
            e.remote_url == remote_url,
            e.local_filepath == local_filepath,
            e.bytes_downloaded == bytes_downloaded,
            e.total_bytes == total_bytes,
    {
        RawDownloadEvent { model_id, quant, remote_url, local_filepath, bytes_downloaded, total_bytes }
    }

    /// The unique key of the event's file: "{model_id}:{local_filepath}".
    pub fn file_key(&self) -> (k: String)
        ensures
            k@ == file_key_of(self.model_id@, self.local_filepath@),
    {
        file_key(self.model_id.as_str(), self.local_filepath.as_str())
    }
}

} // verus!
