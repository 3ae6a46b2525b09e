use progresshub::manifest::{
    build_repo_manifest, calculate_optimized_chunk_size, HfFileInfo, LfsInfo, ManifestVersionInfo, MIB,
};

#[test]
fn optimal_chunk_size_by_size() {
    assert_eq!(ManifestVersionInfo::calculate_optimal_chunk_size(0), MIB);
    assert_eq!(ManifestVersionInfo::calculate_optimal_chunk_size(10 * MIB), MIB);
    assert_eq!(ManifestVersionInfo::calculate_optimal_chunk_size(10 * MIB + 1), 4 * MIB);
    assert_eq!(ManifestVersionInfo::calculate_optimal_chunk_size(100 * MIB), 4 * MIB);
    assert_eq!(ManifestVersionInfo::calculate_optimal_chunk_size(100 * MIB + 1), 8 * MIB);
}

#[test]
fn optimized_chunk_size_by_type() {
    // Config files always get the smallest chunks
    assert_eq!(calculate_optimized_chunk_size(5000 * MIB, "config.json"), MIB);
    assert_eq!(calculate_optimized_chunk_size(5000 * MIB, "README.md"), MIB);
    // Model weights
    assert_eq!(calculate_optimized_chunk_size(2048 * MIB, "model.safetensors"), 16 * MIB);
    assert_eq!(calculate_optimized_chunk_size(500 * MIB, "model.gguf"), 8 * MIB);
    assert_eq!(calculate_optimized_chunk_size(50 * MIB, "pytorch_model.bin"), 4 * MIB);
    assert_eq!(calculate_optimized_chunk_size(5 * MIB, "pytorch_model.bin"), MIB);
    // Other files
    assert_eq!(calculate_optimized_chunk_size(2048 * MIB, "archive.tar"), 8 * MIB);
    assert_eq!(calculate_optimized_chunk_size(500 * MIB, "archive.tar"), 4 * MIB);
    assert_eq!(calculate_optimized_chunk_size(50 * MIB, "archive.tar"), MIB);
}

#[test]
fn version_info_and_version_string() {
    let v = ManifestVersionInfo::new(1024, Some("abc".to_string()));
    assert_eq!(v.chunk_size_hint, MIB);
    assert_eq!(v.version_string(), "size:1024|hash:abc");

    let plain = ManifestVersionInfo::new(7, None);
    assert_eq!(plain.version_string(), "size:7");

    let full = ManifestVersionInfo {
        file_hash: Some("h".to_string()),
        file_size: 5,
        last_modified: Some("yesterday".to_string()),
        chunk_size_hint: MIB,
        repo_revision: Some("r1".to_string()),
    };
    assert_eq!(full.version_string(), "size:5|hash:h|rev:r1|modified:yesterday");
}

fn entry(file_type: &str, path: &str, size: u64, lfs: Option<&str>) -> HfFileInfo {
    HfFileInfo {
        file_type: file_type.to_string(),
        oid: format!("oid-{}", path),
        size,
        path: path.to_string(),
        lfs: lfs.map(|o| LfsInfo { oid: o.to_string() }),
    }
}

#[test]
fn manifest_keeps_files_in_order() {
    let entries = vec![
        entry("file", "config.json", 100, None),
        entry("directory", "subdir", 0, None),
        entry("file", "model.safetensors", 2048 * MIB, Some("sha-1")),
    ];
    let m = build_repo_manifest("org/model", &entries, Some("\"rev123\"".to_string()), None);
    assert_eq!(m.repo_id, "org/model");
    assert_eq!(m.files.len(), 2);
    assert_eq!(m.total_size, 100 + 2048 * MIB);

    let first = &m.files[0];
    assert_eq!(first.path, "config.json");
    assert_eq!(first.hash, None);
    assert_eq!(first.remote_url, "https://huggingface.co/org/model/resolve/main/config.json");
    assert_eq!(first.version_info.file_hash, Some("oid-config.json".to_string()));
    assert_eq!(first.version_info.repo_revision, Some("rev123".to_string()));
    // Without a Last-Modified header the revision stands in
    assert_eq!(first.version_info.last_modified, Some("rev123".to_string()));
    assert_eq!(first.version_info.chunk_size_hint, MIB);

    let second = &m.files[1];
    assert_eq!(second.hash, Some("sha-1".to_string()));
    assert_eq!(second.version_info.chunk_size_hint, 16 * MIB);
}

#[test]
fn manifest_total_saturates_and_uses_last_modified() {
    let entries = vec![entry("file", "a.bin", u64::MAX - 1, None), entry("file", "b.bin", 10, None)];
    let m = build_repo_manifest("x/y", &entries, None, Some("Mon".to_string()));
    assert_eq!(m.total_size, u64::MAX);
    assert_eq!(m.files[0].version_info.repo_revision, None);
    assert_eq!(m.files[0].version_info.last_modified, Some("Mon".to_string()));

    let empty = build_repo_manifest("x/y", &Vec::new(), None, None);
    assert_eq!(empty.files.len(), 0);
    assert_eq!(empty.total_size, 0);
}
