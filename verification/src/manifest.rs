//! HuggingFace repository manifests: version information, chunk sizing and the
//! assembly of a manifest from the Hub's tree listing.

use vstd::prelude::*;
use crate::text::{append_str, write_decimal, decimal, has_suffix, ends_with, str_equal, trim_both, trim_matches_char};

verus! {

/// Manifest version information for download state invalidation.
#[derive(Debug, Clone)]
pub struct ManifestVersionInfo {
    /// File hash from the HuggingFace API (blob id) for version tracking
    pub file_hash: Option<String>,
    /// Exact file size from the manifest
    pub file_size: u64,
    /// ETag or last-modified timestamp if available
    pub last_modified: Option<String>,
    /// Recommended chunk size based on file size analysis
    pub chunk_size_hint: u64,
    /// Repository revision or commit hash if available
    pub repo_revision: Option<String>,
}

/// Information about a single file in a repository.
#[derive(Debug, Clone)]
pub struct FileInfo {
    /// Path relative to the repository root
    pub path: String,
    /// Size in bytes
    pub size: u64,
    /// Optional content hash (LFS oid)
    pub hash: Option<String>,
    /// Remote URL the file is downloaded from
    pub remote_url: String,
    /// Version tracking information
    pub version_info: ManifestVersionInfo,
}

/// Manifest describing a repository's contents.
#[derive(Debug, Clone)]
pub struct RepoManifest {
    /// Repository ID
    pub repo_id: String,
    /// Files in the repository
    pub files: Vec<FileInfo>,
    /// Total size of all files
    pub total_size: u64,
}

/// One entry of the Hub's tree listing.
#[derive(Debug, Clone)]
pub struct HfFileInfo {
    /// Entry type ("file" or "directory")
    pub file_type: String,
    /// Git object id
    pub oid: String,
    /// Size in bytes
    pub size: u64,
    /// Path relative to the repository root
    pub path: String,
    /// LFS information, for files stored in LFS
    pub lfs: Option<LfsInfo>,
}

/// LFS information of a tree entry.
#[derive(Debug, Clone)]
pub struct LfsInfo {
    /// LFS object id (content hash)
    pub oid: String,
}

/// One mebibyte.
pub const MIB: u64 = 1048576;

/// Chunk size by file size: 1 MiB up to 10 MiB, 4 MiB up to 100 MiB, else 8 MiB.
pub open spec fn optimal_chunk_size(file_size: u64) -> int {
    if file_size <= 10 * MIB {
        MIB as int
    } else if file_size <= 100 * MIB {
        4 * MIB
    } else {
        8 * MIB
    }
}

/// Chunk size by file size and type: 1 MiB for config and text files; for model
/// weights (.bin, .safetensors, .gguf) 16 MiB above 1 GiB, 8 MiB above 100 MiB,
/// 4 MiB above 10 MiB; for other files 8 MiB above 1 GiB, 4 MiB above 100 MiB;
/// otherwise 1 MiB.
pub open spec fn optimized_chunk_size(file_size: u64, filename: Seq<char>) -> int {
    let is_model = has_suffix(filename, ".bin"@) || has_suffix(filename, ".safetensors"@)
        || has_suffix(filename, ".gguf"@);
    let is_config = has_suffix(filename, ".json"@) || has_suffix(filename, ".txt"@)
        || has_suffix(filename, ".md"@);
    if is_config {
        MIB as int
    } else if is_model && file_size > 1024 * MIB {
        16 * MIB
    } else if is_model && file_size > 100 * MIB {
        8 * MIB
    } else if is_model && file_size > 10 * MIB {
        4 * MIB
    } else if file_size > 1024 * MIB {
        8 * MIB
    } else if file_size > 100 * MIB {
        4 * MIB
    } else {
        MIB as int
    }
}

/// Calculate the optimized chunk size from a file's size and type.
pub fn calculate_optimized_chunk_size(file_size: u64, filename: &str) -> (c: u64)
    ensures
        c == optimized_chunk_size(file_size, filename@),
{
    let is_model = ends_with(filename, ".bin") || ends_with(filename, ".safetensors")
        || ends_with(filename, ".gguf");
    let is_config = ends_with(filename, ".json") || ends_with(filename, ".txt")
        || ends_with(filename, ".md");
    if is_config {
        MIB
    } else if is_model && file_size > 1024 * MIB {
        16 * MIB
    } else if is_model && file_size > 100 * MIB {
        8 * MIB
    } else if is_model && file_size > 10 * MIB {
        4 * MIB
    } else if file_size > 1024 * MIB {
        8 * MIB
    } else if file_size > 100 * MIB {
        4 * MIB
    } else {
        MIB
    }
}

/// The `"key:value"` component for an optional field, if present.
pub open spec fn optional_component(key: Seq<char>, value: Option<String>) -> Seq<Seq<char>> {
    match value {
        Some(v) => seq![key + v@],
        None => Seq::empty(),
    }
}

/// Components joined with `|`.
pub open spec fn joined_with_bar(parts: Seq<Seq<char>>) -> Seq<char>
    decreases parts.len(),
{
    if parts.len() == 0 {
        Seq::empty()
    } else if parts.len() == 1 {
        parts[0]
    } else {
        joined_with_bar(parts.drop_last()) + "|"@ + parts.last()
    }
}

/// The version string: size, then hash, revision and modification time when known,
/// joined with `|` ("size:123|hash:abc|rev:def").
pub open spec fn version_string_of(v: ManifestVersionInfo) -> Seq<char> {
    joined_with_bar(
        seq!["size:"@ + decimal(v.file_size as nat)] + optional_component("hash:"@, v.file_hash)
            + optional_component("rev:"@, v.repo_revision) + optional_component("modified:"@, v.last_modified),
    )
}

fn clone_option_string(o: &Option<String>) -> (r: Option<String>)
    ensures
        r == *o,
{
    match o {
        Some(s) => Some(s.clone()),
        None => None,
    }
}

impl ManifestVersionInfo {
    /// Create version info for a file of the given size and hash.
    pub fn new(file_size: u64, file_hash: Option<String>) -> (v: Self)
        ensures
            v.file_hash == file_hash,
            v.file_size == file_size,
            v.last_modified is None,
            v.chunk_size_hint == optimal_chunk_size(file_size),
            v.repo_revision is None,
    {
        let chunk_size_hint = Self::calculate_optimal_chunk_size(file_size);
        ManifestVersionInfo { file_hash, file_size, last_modified: None, chunk_size_hint, repo_revision: None }
    }

    /// Calculate the chunk size for a file size: 1 MiB up to 10 MiB, 4 MiB up to
    /// 100 MiB, 8 MiB beyond.
    pub fn calculate_optimal_chunk_size(file_size: u64) -> (c: u64)
        ensures
            c == optimal_chunk_size(file_size),
    {
        if file_size <= 10 * MIB {
            MIB
        } else if file_size <= 100 * MIB {
            4 * MIB
        } else {
            8 * MIB
        }
    }

    /// Generate the version string used to validate state files.
    pub fn version_string(&self) -> (s: String)
        ensures
            s@ == version_string_of(*self),
    {
        let mut out = String::new();
        append_str(&mut out, "size:");
        write_decimal(&mut out, self.file_size);
        let ghost parts = seq!["size:"@ + decimal(self.file_size as nat)];
        assert(out@ =~= joined_with_bar(parts));
        match &self.file_hash {
            Some(h) => {
                append_str(&mut out, "|");
                append_str(&mut out, "hash:");
                append_str(&mut out, h.as_str());
            },
            None => {},
        }
        let ghost parts = parts + optional_component("hash:"@, self.file_hash);
        assert(out@ =~= joined_with_bar(parts)) by {
            if self.file_hash is Some {
                assert(parts.drop_last() =~= seq!["size:"@ + decimal(self.file_size as nat)]);
            }
        }
        match &self.repo_revision {
            Some(r) => {
                append_str(&mut out, "|");
                append_str(&mut out, "rev:");
                append_str(&mut out, r.as_str());
            },
            None => {},
        }
        let ghost prev = parts;
        let ghost parts = parts + optional_component("rev:"@, self.repo_revision);
        assert(out@ =~= joined_with_bar(parts)) by {
            if self.repo_revision is Some {
                assert(parts.drop_last() =~= prev);
            } else {
                assert(parts =~= prev);
            }
        }
        match &self.last_modified {
            Some(m) => {
                append_str(&mut out, "|");
                append_str(&mut out, "modified:");
                append_str(&mut out, m.as_str());
            },
            None => {},
        }
        let ghost prev = parts;
        let ghost parts = parts + optional_component("modified:"@, self.last_modified);
        assert(out@ =~= joined_with_bar(parts)) by {
            if self.last_modified is Some {
                assert(parts.drop_last() =~= prev);
            } else {
                assert(parts =~= prev);
            }
        }
        assert(parts =~= seq!["size:"@ + decimal(self.file_size as nat)] + optional_component(
            "hash:"@,
            self.file_hash,
        ) + optional_component("rev:"@, self.repo_revision) + optional_component(
            "modified:"@,
            self.last_modified,
        ));
        out
    }
}


/// An optional string as an optional character sequence.
pub open spec fn opt_view(o: Option<String>) -> Option<Seq<char>> {
    match o {
        Some(s) => Some(s@),
        None => None,
    }
}

/// A tree entry that is a file (not a directory).
pub open spec fn is_file_entry(e: HfFileInfo) -> bool {
    e.file_type@ == "file"@
}

/// The file entries of a listing, in listing order.
pub open spec fn file_entries(entries: Seq<HfFileInfo>) -> Seq<HfFileInfo>
    decreases entries.len(),
{
    if entries.len() == 0 {
        Seq::empty()
    } else {
        let rest = file_entries(entries.drop_last());
        if is_file_entry(entries.last()) {
            rest.push(entries.last())
        } else {
            rest
        }
    }
}

/// The total size of the entries, added with saturation at `u64::MAX`.
pub open spec fn saturating_total(entries: Seq<HfFileInfo>) -> nat
    decreases entries.len(),
{
    if entries.len() == 0 {
        0
    } else {
        let t = saturating_total(entries.drop_last()) + entries.last().size;
        if t > u64::MAX {
            u64::MAX as nat
        } else {
            t as nat
        }
    }
}

/// The download URL of a file of a repository.
pub open spec fn resolve_url(repo_id: Seq<char>, path: Seq<char>) -> Seq<char> {
    "https://huggingface.co/"@ + repo_id + "/resolve/main/"@ + path
}

/// The repository revision: the ETag header with its quotes removed.
pub open spec fn revision_of(etag: Option<String>) -> Option<Seq<char>> {
    match etag {
        Some(e) => Some(trim_both(e@, '"')),
        None => None,
    }
}

/// The modification stamp: the Last-Modified header, else the revision.
pub open spec fn modified_of(etag: Option<String>, last_modified: Option<String>) -> Option<Seq<char>> {
    match last_modified {
        Some(m) => Some(m@),
        None => revision_of(etag),
    }
}

/// `f` is the manifest entry for the listed file `e` of repository `repo_id`.
pub open spec fn is_file_info_for(
    f: FileInfo,
    repo_id: Seq<char>,
    e: HfFileInfo,
    revision: Option<Seq<char>>,
    modified: Option<Seq<char>>,
) -> bool {
    &&& f.path@ == e.path@
    &&& f.size == e.size
    &&& opt_view(f.hash) == (match e.lfs {
        Some(l) => Some(l.oid@),
        None => None,
    })
    &&& f.remote_url@ == resolve_url(repo_id, e.path@)
    &&& f.version_info.file_size == e.size
    &&& opt_view(f.version_info.file_hash) == Some(e.oid@)
    &&& opt_view(f.version_info.repo_revision) == revision
    &&& opt_view(f.version_info.last_modified) == modified
    &&& f.version_info.chunk_size_hint == optimized_chunk_size(e.size, e.path@)
}

fn clone_opt(o: &Option<String>) -> (r: Option<String>)
    ensures
        opt_view(r) == opt_view(*o),
{
    match o {
        Some(s) => Some(s.clone()),
        None => None,
    }
}

fn file_info_for(
    repo_id: &str,
    e: &HfFileInfo,
    revision: &Option<String>,
    modified: &Option<String>,
) -> (f: FileInfo)
    ensures
        is_file_info_for(f, repo_id@, *e, opt_view(*revision), opt_view(*modified)),
{
    let mut version_info = ManifestVersionInfo::new(e.size, Some(e.oid.clone()));
    version_info.last_modified = clone_opt(modified);
    version_info.repo_revision = clone_opt(revision);
    version_info.chunk_size_hint = calculate_optimized_chunk_size(e.size, e.path.as_str());
    let mut remote_url = String::new();
    append_str(&mut remote_url, "https://huggingface.co/");
    append_str(&mut remote_url, repo_id);
    append_str(&mut remote_url, "/resolve/main/");
    append_str(&mut remote_url, e.path.as_str());
    let hash = match &e.lfs {
        Some(l) => Some(l.oid.clone()),
        None => None,
    };
    FileInfo { path: e.path.clone(), size: e.size, hash, remote_url, version_info }
}

/// Build a repository manifest from the Hub's tree listing and the response's
/// ETag and Last-Modified headers: only file entries are kept, in listing order;
/// the total size saturates at `u64::MAX`.
pub fn build_repo_manifest(
    repo_id: &str,
    entries: &Vec<HfFileInfo>,
    etag: Option<String>,
    last_modified: Option<String>,
) -> (m: RepoManifest)
    ensures
        m.repo_id@ == repo_id@,
        m.total_size == saturating_total(file_entries(entries@)),
        m.files.len() == file_entries(entries@).len(),
        forall|i: int|
            0 <= i < m.files.len() ==> is_file_info_for(
                #[trigger] m.files[i],
                repo_id@,
                file_entries(entries@)[i],
                revision_of(etag),
                modified_of(etag, last_modified),
            ),
{
    let revision: Option<String> = match &etag {
        Some(e) => Some(trim_matches_char(e.as_str(), '"')),
        None => None,
    };
    let modified: Option<String> = match &last_modified {
        Some(m) => Some(m.clone()),
        None => clone_opt(&revision),
    };
    let mut files: Vec<FileInfo> = Vec::new();
    let mut total_size: u64 = 0;
    let mut i: usize = 0;
    while i < entries.len()
        invariant
            i <= entries.len(),
            opt_view(revision) == revision_of(etag),
            opt_view(modified) == modified_of(etag, last_modified),
            total_size == saturating_total(file_entries(entries@.take(i as int))),
            files.len() == file_entries(entries@.take(i as int)).len(),
            forall|k: int|
                0 <= k < files.len() ==> is_file_info_for(
                    #[trigger] files[k],
                    repo_id@,
                    file_entries(entries@.take(i as int))[k],
                    revision_of(etag),
                    modified_of(etag, last_modified),
                ),
        decreases entries.len() - i,
    {
        let e = &entries[i];
        let ghost before = entries@.take(i as int);
        assert(entries@.take(i + 1).drop_last() =~= before);
        if str_equal(e.file_type.as_str(), "file") {
            let f = file_info_for(repo_id, e, &revision, &modified);
            files.push(f);
            total_size = total_size.saturating_add(e.size);
        }
        i = i + 1;
        proof {
            let after = entries@.take(i as int);
            assert(after.last() == *e);
            if is_file_entry(*e) {
                assert(file_entries(after) == file_entries(before).push(*e));
                assert(file_entries(before).push(*e).drop_last() =~= file_entries(before));
            }
        }
    }
    assert(entries@.take(entries.len() as int) =~= entries@);
    RepoManifest { repo_id: String::from_str(repo_id), files, total_size }
}

} // verus!
