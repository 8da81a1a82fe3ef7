use modelhub_windows::models::{
    LocalModel, ModelSource, PathIssue, PathIssueSeverity, PathResolutionSource, ResolvedPath,
    SourceScanStatus,
};
use modelhub_windows::scanner::huggingface::{
    hf_scan_report, repo_cache_model, snapshot_file, CacheEntryScan, RepoScan,
};
use modelhub_windows::scanner::lmstudio::{scan_model_dir, ModelDirEntry, ModelDirItem};
use modelhub_windows::scanner::metadata::LocalModelMetadata;
use modelhub_windows::scanner::ollama::{
    local_model_from_ollama_model, OllamaModel, OllamaScanError, OllamaScanReport,
};
use modelhub_windows::scanner::{combine_scans, folder_precheck, folder_scan, ollama_scan, SourceScan};

fn resolved(label: &str, path: &str, exists: bool, is_directory: bool) -> ResolvedPath {
    ResolvedPath {
        label: label.to_string(),
        path: Some(path.to_string()),
        source: PathResolutionSource::UserSetting,
        source_label: "Test fixture".to_string(),
        exists,
        is_directory,
        issues: Vec::new(),
    }
}

fn hf_model() -> LocalModel {
    let file = snapshot_file("model.safetensors", "model.safetensors", "C:\\hf\\model.safetensors", Some(40));
    repo_cache_model(
        "Qwen/Qwen3-4B",
        "C:\\hf\\models--Qwen--Qwen3-4B\\snapshots\\abc",
        vec![file],
        Some(50),
        Some(7),
        LocalModelMetadata::default(),
    )
}

fn lm_model(publisher: &str, name: &str, size: u64) -> LocalModel {
    let file = format!("{name}-Q4_K_M.gguf");
    let entry = ModelDirEntry::Item(ModelDirItem {
        path: format!("C:\\lm\\{publisher}\\{name}\\{file}"),
        name: file.clone(),
        relative_path: file,
        is_file: true,
        size: Ok(size),
        modified_secs: None,
        gguf: None,
    });
    scan_model_dir("C:\\lm", publisher, name, vec![entry]).model.expect("model")
}

fn ollama_model() -> LocalModel {
    local_model_from_ollama_model(OllamaModel {
        name: "llama3.2:latest".to_string(),
        model: None,
        modified_at: None,
        size: Some(30),
        digest: None,
        details: None,
    })
    .expect("model")
}

#[test]
fn scan_models_combines_hf_lm_studio_and_ollama_sources() {
    let hf = folder_scan(ModelSource::HuggingFace, "C:\\hf", Ok((vec![hf_model()], Vec::new())));
    let lm = folder_scan(
        ModelSource::LmStudio,
        "C:\\lm",
        Ok((vec![lm_model("a", "one", 10), lm_model("b", "two", 20)], Vec::new())),
    );
    let ollama = ollama_scan(Ok(OllamaScanReport { models: vec![ollama_model()] }));
    let result = combine_scans(hf, lm, ollama, "100".to_string());

    assert_eq!(result.source_statuses.len(), 3);
    for source in [ModelSource::HuggingFace, ModelSource::LmStudio, ModelSource::Ollama] {
        assert_eq!(result.source_statuses.iter().filter(|status| status.source == source).count(), 1);
        assert!(result
            .source_statuses
            .iter()
            .any(|status| status.source == source && status.status == SourceScanStatus::Succeeded));
    }
    assert_eq!(result.models.len(), 4);
    assert_eq!(result.models.iter().filter(|model| model.source == ModelSource::HuggingFace).count(), 1);
    assert_eq!(result.models.iter().filter(|model| model.source == ModelSource::LmStudio).count(), 2);
    assert_eq!(result.models.iter().filter(|model| model.source == ModelSource::Ollama).count(), 1);
    let mut ids: Vec<&str> = result.models.iter().map(|model| model.id.as_str()).collect();
    ids.sort();
    ids.dedup();
    assert_eq!(ids.len(), result.models.len());
    assert_eq!(
        result.total_size_bytes,
        Some(result.models.iter().filter_map(|model| model.size_bytes).sum())
    );
    assert_eq!(result.total_size_bytes, Some(110));
    assert_eq!(result.scanned_at, "100");
}

#[test]
fn missing_lm_studio_folder_is_non_fatal() {
    let missing = resolved("LM Studio models", "C:\\missing_lmstudio", false, false);
    let lm = SourceScan::Status(
        folder_precheck(ModelSource::LmStudio, &missing).expect("missing folder gives a status"),
    );
    let hf = folder_scan(ModelSource::HuggingFace, "C:\\hf", Ok((vec![hf_model()], Vec::new())));
    let ollama = ollama_scan(Err(OllamaScanError::NotRunning));
    let result = combine_scans(hf, lm, ollama, "1".to_string());

    assert!(result
        .source_statuses
        .iter()
        .any(|status| status.source == ModelSource::LmStudio
            && status.status == SourceScanStatus::Missing));
    assert!(result.models.iter().any(|model| model.source == ModelSource::HuggingFace));
    assert!(result
        .source_statuses
        .iter()
        .any(|status| status.source == ModelSource::Ollama && status.status == SourceScanStatus::Disabled));
}

#[test]
fn lm_studio_warnings_are_reported_as_source_messages() {
    let scan = folder_scan(
        ModelSource::LmStudio,
        "C:\\lm",
        Ok((Vec::new(), vec!["Skipped zero-byte GGUF file C:\\lm\\p\\m\\model-Q4_K_M.gguf.".to_string()])),
    );
    let SourceScan::Models { status, .. } = scan else {
        panic!("a folder that was read gives models");
    };

    assert_eq!(status.status, SourceScanStatus::Succeeded);
    let message = status.message.unwrap_or_default();
    assert!(message.contains("1 LM Studio scan warning"));
    assert!(message.contains("zero-byte"));
}

#[test]
fn folder_prechecks_cover_each_problem() {
    let ok = resolved("LM Studio models", "C:\\lm", true, true);
    assert!(folder_precheck(ModelSource::LmStudio, &ok).is_none());

    let file = resolved("LM Studio models", "C:\\lm.txt", true, false);
    let status = folder_precheck(ModelSource::LmStudio, &file).unwrap();
    assert_eq!(status.status, SourceScanStatus::Error);

    let mut broken = resolved("Hugging Face cache", "models", false, false);
    broken.issues = vec![
        PathIssue {
            severity: PathIssueSeverity::Error,
            code: "relative".to_string(),
            message: "A.".to_string(),
        },
        PathIssue {
            severity: PathIssueSeverity::Warning,
            code: "missing".to_string(),
            message: "W.".to_string(),
        },
        PathIssue {
            severity: PathIssueSeverity::Error,
            code: "other".to_string(),
            message: "B.".to_string(),
        },
    ];
    let status = folder_precheck(ModelSource::HuggingFace, &broken).unwrap();
    assert_eq!(status.status, SourceScanStatus::Error);
    assert_eq!(status.message.as_deref(), Some("A. B."));

    let failed = folder_scan(ModelSource::HuggingFace, "C:\\hf", Err("denied".to_string()));
    let SourceScan::Status(status) = failed else {
        panic!("a failed scan gives a status");
    };
    assert_eq!(status.message.as_deref(), Some("denied"));
}

#[test]
fn models_with_equal_names_keep_their_order() {
    let model = |repo: &str| {
        let file = snapshot_file("model.gguf", "model.gguf", "C:\\hf\\model.gguf", Some(1));
        repo_cache_model(repo, "C:\\hf\\snap", vec![file], None, None, LocalModelMetadata::default())
    };
    let report = hf_scan_report(vec![
        CacheEntryScan::Repo("z/second".to_string(), RepoScan::Found(model("z/second"))),
        CacheEntryScan::Repo("a/first".to_string(), RepoScan::Found(model("a/first"))),
        CacheEntryScan::Repo("b/gone".to_string(), RepoScan::NoSnapshots),
    ]);

    assert_eq!(report.models[0].repo_id.as_deref(), Some("z/second"));
    assert_eq!(report.models[1].repo_id.as_deref(), Some("a/first"));
    assert_eq!(report.warnings, vec!["b/gone has no readable snapshots.".to_string()]);
}
