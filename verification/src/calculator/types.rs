//! Immutable progress data: file, model and overall progress held in persistent
//! `im` collections, with their views and the queries displays ask of them.

use vstd::prelude::*;
use std::time::SystemTime;
use crate::calculator::progress_core::{ProgressPercentage, calculate_percentage, percentage_of};
use crate::calculator::formatter::{bytes_display, format_bytes, format_percentage, percentage_display};
use crate::text::append_str;

verus! {

/// A persistent vector of the `im` crate.
#[verifier::external_type_specification]
#[verifier::external_body]
#[verifier::reject_recursive_types(A)]
pub struct ExImVector<A>(im::Vector<A>);

/// A persistent ordered map of the `im` crate.
#[verifier::external_type_specification]
#[verifier::external_body]
#[verifier::reject_recursive_types(K)]
#[verifier::reject_recursive_types(V)]
pub struct ExImOrdMap<K, V>(im::OrdMap<K, V>);

/// The entries of a metadata map.
pub uninterp spec fn metadata_entries(m: im::OrdMap<String, String>) -> Map<Seq<char>, Seq<char>>;

/// The files held by a file vector, in order.
pub uninterp spec fn file_entries_of(v: im::Vector<ImmutableFileProgress>) -> Seq<ImmutableFileProgress>;

/// The models held by a model vector, in order.
pub uninterp spec fn model_entries_of(v: im::Vector<ImmutableModelProgress>) -> Seq<ImmutableModelProgress>;

/// The chunk offsets held by a chunk vector, in order.
pub uninterp spec fn chunk_entries_of(v: im::Vector<u64>) -> Seq<u64>;

/// The empty metadata map.
pub open spec fn no_metadata() -> Map<Seq<char>, Seq<char>> {
    Map::empty()
}

/// `im::OrdMap::new`: an empty map.
#[verifier::external_body]
pub(crate) fn metadata_new() -> (m: im::OrdMap<String, String>)
    ensures
        metadata_entries(m) == no_metadata(),
{
    im::OrdMap::new()
}

/// `im::OrdMap::insert`: afterwards `key` maps to `value`, replacing any previous
/// value for it; the other entries are unchanged.
#[verifier::external_body]
pub(crate) fn metadata_insert(m: &mut im::OrdMap<String, String>, key: String, value: String)
    ensures
        metadata_entries(*final(m)) == metadata_entries(*old(m)).insert(key@, value@),
{
    m.insert(key, value);
}

/// `im::OrdMap::get` with a string key: the value stored under `key`, if any.
#[verifier::external_body]
pub(crate) fn metadata_get<'a>(m: &'a im::OrdMap<String, String>, key: &str) -> (r: Option<&'a String>)
    ensures
        r is Some <==> metadata_entries(*m).contains_key(key@),
        r matches Some(v) ==> v@ == metadata_entries(*m)[key@],
{
    m.get(key)
}

/// `im::OrdMap::clone`: a map with the same entries.
#[verifier::external_body]
pub(crate) fn metadata_clone(m: &im::OrdMap<String, String>) -> (r: im::OrdMap<String, String>)
    ensures
        metadata_entries(r) == metadata_entries(*m),
{
    m.clone()
}

/// `im::Vector::new` for files: an empty vector.
#[verifier::external_body]
pub(crate) fn file_list_new() -> (v: im::Vector<ImmutableFileProgress>)
    ensures
        file_entries_of(v) == Seq::<ImmutableFileProgress>::empty(),
{
    im::Vector::new()
}

/// `im::Vector::len` for files.
#[verifier::external_body]
pub(crate) fn file_list_len(v: &im::Vector<ImmutableFileProgress>) -> (n: usize)
    ensures
        n == file_entries_of(*v).len(),
{
    v.len()
}

/// `im::Vector::get` for files: the file at `index`, if the index is in bounds.
#[verifier::external_body]
pub(crate) fn file_list_get(v: &im::Vector<ImmutableFileProgress>, index: usize) -> (r: Option<&ImmutableFileProgress>)
    ensures
        r is Some <==> index < file_entries_of(*v).len(),
        r matches Some(f) ==> *f == file_entries_of(*v)[index as int],
{
    v.get(index)
}

/// `im::Vector::push_back` for files: the file is appended.
#[verifier::external_body]
pub(crate) fn file_list_push_back(v: &mut im::Vector<ImmutableFileProgress>, f: ImmutableFileProgress)
    ensures
        file_entries_of(*final(v)) == file_entries_of(*old(v)).push(f),
{
    v.push_back(f);
}

/// `im::Vector::update` for files: a vector with the file at `index` replaced.
#[verifier::external_body]
pub(crate) fn file_list_update(v: &im::Vector<ImmutableFileProgress>, index: usize, f: ImmutableFileProgress) -> (r:
    im::Vector<ImmutableFileProgress>)
    requires
        index < file_entries_of(*v).len(),
    ensures
        file_entries_of(r) == file_entries_of(*v).update(index as int, f),
{
    v.update(index, f)
}

/// `im::Vector::clone` for files: a vector sharing the same files.
#[verifier::external_body]
pub(crate) fn file_list_clone(v: &im::Vector<ImmutableFileProgress>) -> (r: im::Vector<ImmutableFileProgress>)
    ensures
        file_entries_of(r) == file_entries_of(*v),
{
    v.clone()
}

/// `im::Vector::new` for models: an empty vector.
#[verifier::external_body]
pub(crate) fn model_list_new() -> (v: im::Vector<ImmutableModelProgress>)
    ensures
        model_entries_of(v) == Seq::<ImmutableModelProgress>::empty(),
{
    im::Vector::new()
}

/// `im::Vector::len` for models.
#[verifier::external_body]
pub(crate) fn model_list_len(v: &im::Vector<ImmutableModelProgress>) -> (n: usize)
    ensures
        n == model_entries_of(*v).len(),
{
    v.len()
}

/// `im::Vector::get` for models: the model at `index`, if the index is in bounds.
#[verifier::external_body]
pub(crate) fn model_list_get(v: &im::Vector<ImmutableModelProgress>, index: usize) -> (r: Option<&ImmutableModelProgress>)
    ensures
        r is Some <==> index < model_entries_of(*v).len(),
        r matches Some(m) ==> *m == model_entries_of(*v)[index as int],
{
    v.get(index)
}

/// `im::Vector::push_back` for models: the model is appended.
#[verifier::external_body]
pub(crate) fn model_list_push_back(v: &mut im::Vector<ImmutableModelProgress>, m: ImmutableModelProgress)
    ensures
        model_entries_of(*final(v)) == model_entries_of(*old(v)).push(m),
{
    v.push_back(m);
}

/// `im::Vector::clone` for models: a vector sharing the same models.
#[verifier::external_body]
pub(crate) fn model_list_clone(v: &im::Vector<ImmutableModelProgress>) -> (r: im::Vector<ImmutableModelProgress>)
    ensures
        model_entries_of(r) == model_entries_of(*v),
{
    v.clone()
}

/// `im::Vector::new` for chunk offsets: an empty vector.
#[verifier::external_body]
pub(crate) fn chunk_list_new() -> (v: im::Vector<u64>)
    ensures
        chunk_entries_of(v) == Seq::<u64>::empty(),
{
    im::Vector::new()
}

/// `im::Vector::len` for chunk offsets.
#[verifier::external_body]
pub(crate) fn chunk_list_len(v: &im::Vector<u64>) -> (n: usize)
    ensures
        n == chunk_entries_of(*v).len(),
{
    v.len()
}

/// `im::Vector::clone` for chunk offsets: a vector with the same offsets.
#[verifier::external_body]
pub(crate) fn chunk_list_clone(v: &im::Vector<u64>) -> (r: im::Vector<u64>)
    ensures
        chunk_entries_of(r) == chunk_entries_of(*v),
{
    v.clone()
}

/// Immutable file progress.
#[derive(Debug)]
pub struct ImmutableFileProgress {
    /// File metadata (id, path, etc.)
    pub file_id: im::OrdMap<String, String>,
    /// Display name of the file
    pub file_name: String,
    /// Number of bytes downloaded
    pub bytes_downloaded: u64,
    /// Total bytes for the file
    pub total_bytes: u64,
    /// Whether the file was served from cache
    pub is_cached: bool,
    /// Chunk tracking for extensibility
    pub chunks_downloaded: im::Vector<u64>,
}

/// What a file's progress holds.
pub struct FileProgressView {
    pub file_id: Map<Seq<char>, Seq<char>>,
    pub file_name: Seq<char>,
    pub bytes_downloaded: u64,
    pub total_bytes: u64,
    pub is_cached: bool,
    pub chunks_downloaded: Seq<u64>,
}

impl View for ImmutableFileProgress {
    type V = FileProgressView;

    open spec fn view(&self) -> FileProgressView {
        FileProgressView {
            file_id: metadata_entries(self.file_id),
            file_name: self.file_name@,
            bytes_downloaded: self.bytes_downloaded,
            total_bytes: self.total_bytes,
            is_cached: self.is_cached,
            chunks_downloaded: chunk_entries_of(self.chunks_downloaded),
        }
    }
}

/// Immutable model progress.
#[derive(Debug)]
pub struct ImmutableModelProgress {
    /// Unique model identifier
    pub model_id: String,
    /// Total bytes downloaded for this model
    pub bytes_downloaded: u64,
    /// Total bytes expected for this model
    pub total_bytes: u64,
    /// Progress of the model's files
    pub files: im::Vector<ImmutableFileProgress>,
    /// Whether the model is served from cache
    pub is_cached: bool,
    /// Model metadata (manifest data, etc.)
    pub metadata: im::OrdMap<String, String>,
}

/// What a model's progress holds.
pub struct ModelProgressView {
    pub model_id: Seq<char>,
    pub bytes_downloaded: u64,
    pub total_bytes: u64,
    pub files: Seq<FileProgressView>,
    pub is_cached: bool,
    pub metadata: Map<Seq<char>, Seq<char>>,
}

/// The views of a sequence of files.
pub open spec fn file_views(s: Seq<ImmutableFileProgress>) -> Seq<FileProgressView> {
    s.map_values(|f: ImmutableFileProgress| f@)
}

impl View for ImmutableModelProgress {
    type V = ModelProgressView;

    open spec fn view(&self) -> ModelProgressView {
        ModelProgressView {
            model_id: self.model_id@,
            bytes_downloaded: self.bytes_downloaded,
            total_bytes: self.total_bytes,
            files: file_views(file_entries_of(self.files)),
            is_cached: self.is_cached,
            metadata: metadata_entries(self.metadata),
        }
    }
}

/// Complete immutable progress state.
#[derive(Debug)]
pub struct ImmutableProgressState {
    /// Progress of each model
    pub models: im::Vector<ImmutableModelProgress>,
    /// Overall bytes downloaded across all models
    pub overall_bytes_downloaded: u64,
    /// Overall total bytes across all models
    pub overall_total_bytes: u64,
    /// Global manifest data
    pub manifest_data: im::OrdMap<String, String>,
    /// Time of this snapshot
    pub timestamp: SystemTime,
}

/// What the progress state holds.
pub struct ProgressStateView {
    pub models: Seq<ModelProgressView>,
    pub overall_bytes_downloaded: u64,
    pub overall_total_bytes: u64,
    pub manifest_data: Map<Seq<char>, Seq<char>>,
    pub timestamp: SystemTime,
}

/// The views of a sequence of models.
pub open spec fn model_views(s: Seq<ImmutableModelProgress>) -> Seq<ModelProgressView> {
    s.map_values(|m: ImmutableModelProgress| m@)
}

impl View for ImmutableProgressState {
    type V = ProgressStateView;

    open spec fn view(&self) -> ProgressStateView {
        ProgressStateView {
            models: model_views(model_entries_of(self.models)),
            overall_bytes_downloaded: self.overall_bytes_downloaded,
            overall_total_bytes: self.overall_total_bytes,
            manifest_data: metadata_entries(self.manifest_data),
            timestamp: self.timestamp,
        }
    }
}

/// Downloaded at least the (nonzero) total.
pub open spec fn bytes_complete(downloaded: u64, total: u64) -> bool {
    downloaded >= total && total > 0
}

/// The display of a percentage of bytes: "---" for an unknown total.
pub open spec fn byte_percentage_display(downloaded: u64, total: u64) -> Seq<char> {
    if total == 0 {
        "---"@
    } else {
        percentage_display(percentage_of(downloaded, total))
    }
}

/// "downloaded / total", both as byte sizes.
pub open spec fn bytes_pair_display(downloaded: u64, total: u64) -> Seq<char> {
    bytes_display(downloaded as nat) + " / "@ + bytes_display(total as nat)
}

/// Format a percentage of bytes for display; "---" for an unknown total.
pub fn byte_percentage_formatted(downloaded: u64, total: u64) -> (s: String)
    ensures
        s@ == byte_percentage_display(downloaded, total),
{
    if total == 0 {
        return String::from_str("---");
    }
    let percentage = calculate_percentage(downloaded, total);
    format_percentage(&percentage)
}

/// Format "downloaded / total" byte sizes.
pub fn bytes_pair_formatted(downloaded: u64, total: u64) -> (s: String)
    ensures
        s@ == bytes_pair_display(downloaded, total),
{
    let mut s = format_bytes(downloaded);
    append_str(&mut s, " / ");
    let t = format_bytes(total);
    append_str(&mut s, t.as_str());
    s
}

impl ImmutableFileProgress {
    /// Whether the file's download is complete.
    pub fn is_complete(&self) -> (b: bool)
        ensures
            b == bytes_complete(self.bytes_downloaded, self.total_bytes),
    {
        self.bytes_downloaded >= self.total_bytes && self.total_bytes > 0
    }

    /// The file's percentage, e.g. " 76.4%", "100.0%", or "---" for an unknown total.
    pub fn percentage_formatted(&self) -> (s: String)
        ensures
            s@ == byte_percentage_display(self.bytes_downloaded, self.total_bytes),
    {
        byte_percentage_formatted(self.bytes_downloaded, self.total_bytes)
    }

    /// The file's progress percentage.
    pub fn percentage(&self) -> (p: ProgressPercentage)
        ensures
            p == percentage_of(self.bytes_downloaded, self.total_bytes),
    {
        calculate_percentage(self.bytes_downloaded, self.total_bytes)
    }

    /// The file's total size, formatted.
    pub fn total_size_formatted(&self) -> (s: String)
        ensures
            s@ == bytes_display(self.total_bytes as nat),
    {
        format_bytes(self.total_bytes)
    }

    /// The file's downloaded size, formatted.
    pub fn downloaded_formatted(&self) -> (s: String)
        ensures
            s@ == bytes_display(self.bytes_downloaded as nat),
    {
        format_bytes(self.bytes_downloaded)
    }

    /// "downloaded / total" for the file.
    pub fn bytes_formatted(&self) -> (s: String)
        ensures
            s@ == bytes_pair_display(self.bytes_downloaded, self.total_bytes),
    {
        bytes_pair_formatted(self.bytes_downloaded, self.total_bytes)
    }
}

/// Number of complete files.
pub open spec fn complete_file_count(files: Seq<FileProgressView>) -> nat
    decreases files.len(),
{
    if files.len() == 0 {
        0
    } else {
        complete_file_count(files.drop_last()) + if bytes_complete(
            files.last().bytes_downloaded,
            files.last().total_bytes,
        ) {
            1nat
        } else {
            0nat
        }
    }
}

/// A count of matching items never exceeds the number of items.
pub proof fn lemma_complete_file_count_bound(files: Seq<FileProgressView>)
    ensures
        complete_file_count(files) <= files.len(),
    decreases files.len(),
{
    if files.len() > 0 {
        lemma_complete_file_count_bound(files.drop_last());
    }
}

impl ImmutableModelProgress {
    /// Whether the model's download is complete.
    pub fn is_complete(&self) -> (b: bool)
        ensures
            b == bytes_complete(self.bytes_downloaded, self.total_bytes),
    {
        self.bytes_downloaded >= self.total_bytes && self.total_bytes > 0
    }

    /// Number of complete files of the model.
    pub fn completed_files(&self) -> (n: usize)
        ensures
            n == complete_file_count(self@.files),
    {
        let ghost fs = file_entries_of(self.files);
        let len = file_list_len(&self.files);
        let mut count: usize = 0;
        let mut i: usize = 0;
        while i < len
            invariant
                i <= len,
                len == fs.len(),
                fs == file_entries_of(self.files),
                count == complete_file_count(file_views(fs.take(i as int))),
                count <= i,
            decreases len - i,
        {
            let f = file_list_get(&self.files, i).unwrap();
            proof {
                assert(file_views(fs.take(i + 1)).drop_last() =~= file_views(fs.take(i as int)));
            }
            if f.is_complete() {
                count = count + 1;
            }
            i = i + 1;
        }
        assert(fs.take(len as int) =~= fs);
        count
    }

    /// The model's percentage, e.g. " 76.4%", "100.0%", or "---" for an unknown total.
    pub fn percentage_formatted(&self) -> (s: String)
        ensures
            s@ == byte_percentage_display(self.bytes_downloaded, self.total_bytes),
    {
        byte_percentage_formatted(self.bytes_downloaded, self.total_bytes)
    }

    /// The model's progress percentage.
    pub fn percentage(&self) -> (p: ProgressPercentage)
        ensures
            p == percentage_of(self.bytes_downloaded, self.total_bytes),
    {
        calculate_percentage(self.bytes_downloaded, self.total_bytes)
    }

    /// The model's total size, formatted.
    pub fn total_size_formatted(&self) -> (s: String)
        ensures
            s@ == bytes_display(self.total_bytes as nat),
    {
        format_bytes(self.total_bytes)
    }

    /// The model's downloaded size, formatted.
    pub fn downloaded_formatted(&self) -> (s: String)
        ensures
            s@ == bytes_display(self.bytes_downloaded as nat),
    {
        format_bytes(self.bytes_downloaded)
    }

    /// "downloaded / total" for the model.
    pub fn bytes_formatted(&self) -> (s: String)
        ensures
            s@ == bytes_pair_display(self.bytes_downloaded, self.total_bytes),
    {
        bytes_pair_formatted(self.bytes_downloaded, self.total_bytes)
    }
}

/// Number of complete models.
pub open spec fn complete_model_count(models: Seq<ModelProgressView>) -> nat
    decreases models.len(),
{
    if models.len() == 0 {
        0
    } else {
        complete_model_count(models.drop_last()) + if bytes_complete(
            models.last().bytes_downloaded,
            models.last().total_bytes,
        ) {
            1nat
        } else {
            0nat
        }
    }
}

impl ImmutableProgressState {
    /// Whether all downloads are complete.
    pub fn is_complete(&self) -> (b: bool)
        ensures
            b == bytes_complete(self.overall_bytes_downloaded, self.overall_total_bytes),
    {
        self.overall_bytes_downloaded >= self.overall_total_bytes && self.overall_total_bytes > 0
    }

    /// Number of complete models.
    pub fn completed_models(&self) -> (n: usize)
        ensures
            n == complete_model_count(self@.models),
    {
        let ghost ms = model_entries_of(self.models);
        let len = model_list_len(&self.models);
        let mut count: usize = 0;
        let mut i: usize = 0;
        while i < len
            invariant
                i <= len,
                len == ms.len(),
                ms == model_entries_of(self.models),
                count == complete_model_count(model_views(ms.take(i as int))),
                count <= i,
            decreases len - i,
        {
            let m = model_list_get(&self.models, i).unwrap();
            proof {
                assert(model_views(ms.take(i + 1)).drop_last() =~= model_views(ms.take(i as int)));
            }
            if m.is_complete() {
                count = count + 1;
            }
            i = i + 1;
        }
        assert(ms.take(len as int) =~= ms);
        count
    }
}

impl Clone for ImmutableFileProgress {
    fn clone(&self) -> (r: Self)
        ensures
            r@ == self@,
    {
        ImmutableFileProgress {
            file_id: metadata_clone(&self.file_id),
            file_name: self.file_name.clone(),
            bytes_downloaded: self.bytes_downloaded,
            total_bytes: self.total_bytes,
            is_cached: self.is_cached,
            chunks_downloaded: chunk_list_clone(&self.chunks_downloaded),
        }
    }
}

impl Clone for ImmutableModelProgress {
    fn clone(&self) -> (r: Self)
        ensures
            r@ == self@,
    {
        ImmutableModelProgress {
            model_id: self.model_id.clone(),
            bytes_downloaded: self.bytes_downloaded,
            total_bytes: self.total_bytes,
            files: file_list_clone(&self.files),
            is_cached: self.is_cached,
            metadata: metadata_clone(&self.metadata),
        }
    }
}

impl Clone for ImmutableProgressState {
    fn clone(&self) -> (r: Self)
        ensures
            r@ == self@,
    {
        ImmutableProgressState {
            models: model_list_clone(&self.models),
            overall_bytes_downloaded: self.overall_bytes_downloaded,
            overall_total_bytes: self.overall_total_bytes,
            manifest_data: metadata_clone(&self.manifest_data),
            timestamp: self.timestamp.clone(),
        }
    }
}

} // verus!
