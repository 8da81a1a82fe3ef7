use modelhub_windows::models::{LocalModelFile, ModelFormat, ModelRuntimeStatus, ModelSource};
use modelhub_windows::scanner::huggingface::{
    blobs_size, choose_snapshot, decode_cache_repo_dir_name, encode_repo_id, hf_scan_report,
    latest_time, refs_main_from, repo_cache_model, snapshot_file, CacheEntryScan, RepoScan,
    SnapshotDir,
};
use modelhub_windows::scanner::metadata::LocalModelMetadata;

#[test]
fn encodes_and_decodes_hf_cache_repo_folders() {
    assert_eq!(encode_repo_id("Qwen/Qwen3-4B"), Some("models--Qwen--Qwen3-4B".to_string()));
    assert_eq!(
        decode_cache_repo_dir_name("models--Qwen--Qwen3-4B"),
        Some("Qwen/Qwen3-4B".to_string())
    );
    assert_eq!(decode_cache_repo_dir_name("datasets--org--repo"), None);
    assert_eq!(encode_repo_id("invalid"), None);
}

#[test]
fn decoding_an_encoded_repo_id_gives_it_back() {
    for id in ["Qwen/Qwen3-4B", "  org/model.name  ", "a-b/c--d"] {
        let encoded = encode_repo_id(id).expect("id should encode");
        assert_eq!(decode_cache_repo_dir_name(&encoded), Some(id.trim().to_string()));
    }
    assert_eq!(encode_repo_id("a/b/c"), None);
    assert_eq!(encode_repo_id("/model"), None);
    assert_eq!(decode_cache_repo_dir_name("models--org--"), None);
}

#[test]
fn refs_main_is_trimmed_and_blank_is_none() {
    assert_eq!(refs_main_from(" abc123\n"), Some("abc123".to_string()));
    assert_eq!(refs_main_from("  \n"), None);
}

fn snapshot(name: &str, modified: Option<u128>) -> SnapshotDir {
    SnapshotDir {
        name: name.to_string(),
        path: format!("C:\\hub\\snapshots\\{name}"),
        modified,
    }
}

#[test]
fn snapshot_named_by_refs_main_wins_else_latest() {
    let snapshots = vec![snapshot("a", Some(5)), snapshot("b", Some(9)), snapshot("c", Some(9))];

    assert_eq!(choose_snapshot(&snapshots, Some("a")), Some(0));
    assert_eq!(choose_snapshot(&snapshots, Some("zzz")), Some(2));
    assert_eq!(choose_snapshot(&snapshots, None), Some(2));
    assert_eq!(choose_snapshot(&[], Some("a")), None);
    let unknown = vec![snapshot("x", Some(1)), snapshot("y", None)];
    assert_eq!(choose_snapshot(&unknown, None), Some(0));
}

fn file(name: &str, path: &str, size: Option<u64>) -> LocalModelFile {
    snapshot_file(name, path, path, size)
}

#[test]
fn repo_model_uses_primary_file_and_blob_size() {
    let files = vec![
        file("config.json", "config.json", Some(3)),
        file("Qwen3-4B-Q4_K_M.gguf", "Qwen3-4B-Q4_K_M.gguf", Some(12)),
    ];

    let model = repo_cache_model(
        "Qwen/Qwen3-4B",
        "C:\\hub\\snapshots\\abc",
        files,
        Some(15),
        Some(1700000000),
        LocalModelMetadata::default(),
    );

    assert_eq!(model.id, "huggingface:Qwen/Qwen3-4B");
    assert_eq!(model.display_name, "Qwen3-4B-Q4_K_M.gguf");
    assert_eq!(model.provider.as_deref(), Some("Qwen"));
    assert_eq!(model.repo_id.as_deref(), Some("Qwen/Qwen3-4B"));
    assert_eq!(model.source, ModelSource::HuggingFace);
    assert_eq!(model.size_bytes, Some(15));
    assert_eq!(model.format, Some(ModelFormat::Gguf));
    assert_eq!(model.quantization.as_deref(), Some("Q4_K_M"));
    assert_eq!(model.last_modified.as_deref(), Some("1700000000"));
    assert_eq!(model.runtime_status, Some(ModelRuntimeStatus::Available));
    assert_eq!(model.files[0].path, "Qwen3-4B-Q4_K_M.gguf");
    assert_eq!(model.files[1].path, "config.json");
}

#[test]
fn repo_model_without_files_is_named_after_the_repo() {
    let model = repo_cache_model(
        "org/name",
        "C:\\hub\\snapshots\\abc",
        Vec::new(),
        None,
        None,
        LocalModelMetadata::default(),
    );

    assert_eq!(model.display_name, "name");
    assert_eq!(model.size_bytes, None);
    assert_eq!(model.format, None);
    assert_eq!(model.last_modified, None);
}

#[test]
fn cache_report_sorts_models_and_keeps_warnings_in_order() {
    let zeta = repo_cache_model("o/zeta", "p", Vec::new(), None, None, LocalModelMetadata::default());
    let alpha = repo_cache_model("o/alpha", "p", Vec::new(), None, None, LocalModelMetadata::default());
    let report = hf_scan_report(vec![
        CacheEntryScan::Repo("o/zeta".to_string(), RepoScan::Found(zeta)),
        CacheEntryScan::Unreadable("denied".to_string()),
        CacheEntryScan::Repo("Broken/NoSnapshots".to_string(), RepoScan::NoSnapshots),
        CacheEntryScan::Repo("o/alpha".to_string(), RepoScan::Found(alpha)),
        CacheEntryScan::Repo("o/bad".to_string(), RepoScan::Failed("boom".to_string())),
    ]);

    assert_eq!(report.models.len(), 2);
    assert_eq!(report.models[0].display_name, "alpha");
    assert_eq!(report.models[1].display_name, "zeta");
    assert_eq!(
        report.warnings,
        vec![
            "Could not read a cache entry: denied.".to_string(),
            "Broken/NoSnapshots has no readable snapshots.".to_string(),
            "o/bad: boom".to_string(),
        ]
    );
}

#[test]
fn blob_sizes_add_up_and_the_latest_time_wins() {
    assert_eq!(blobs_size(&vec![5, 7, 0]), 12);
    assert_eq!(blobs_size(&Vec::new()), 0);
    assert_eq!(latest_time(&vec![3, 9, 4]), Some(9));
    assert_eq!(latest_time(&Vec::new()), None);
}
