use modelhub_windows::model_actions::{
    checked_absolute_path, delete_precheck, has_parent_component, is_descendant, path_components,
    paths_equal, validate_hf_snapshot_target, validate_under_any_custom_root, validate_under_root,
};
use modelhub_windows::models::{DeleteModelInput, ModelSource};

#[test]
fn rejects_delete_outside_known_roots() {
    let error = validate_under_root(r"C:\tmp\outside", r"C:\tmp\lm", "LM Studio")
        .expect_err("outside path should fail");
    assert!(error.contains("outside"));
    assert_eq!(error, "Model path is outside the configured LM Studio root.");
}

#[test]
fn rejects_root_folder_deletion() {
    let error = validate_under_root(r"C:\tmp\lm", r"C:\tmp\lm", "LM Studio")
        .expect_err("root deletion should fail");
    assert!(error.contains("root folder"));
}

#[test]
fn allows_lm_studio_model_folder_under_root() {
    assert!(validate_under_root(r"C:\tmp\lm\publisher\model", r"C:\tmp\lm", "LM Studio").is_ok());
}

#[test]
fn allows_hf_snapshot_but_rejects_blobs_and_repo_root() {
    let root = r"C:\tmp\hf";
    assert!(validate_hf_snapshot_target(
        r"C:\tmp\hf\models--Qwen--Qwen3-4B\snapshots\abc123",
        root,
        true
    )
    .is_ok());
    assert!(validate_hf_snapshot_target(
        r"C:\tmp\hf\models--Qwen--Qwen3-4B\blobs\blob-a",
        root,
        false
    )
    .is_err());
    assert!(validate_hf_snapshot_target(r"C:\tmp\hf\models--Qwen--Qwen3-4B", root, true).is_err());
    assert_eq!(
        validate_hf_snapshot_target(root, root, true),
        Err("ModelHub will not delete the entire Hugging Face cache root.".to_string())
    );
    assert_eq!(
        validate_hf_snapshot_target(r"D:\elsewhere", root, true),
        Err("Model path is outside the configured Hugging Face cache.".to_string())
    );
}

#[test]
fn rejects_ollama_deletion() {
    let input = DeleteModelInput {
        id: "ollama:model".to_string(),
        source: ModelSource::Ollama,
        path: None,
        repo_id: Some("model".to_string()),
    };
    let error = delete_precheck(&input).expect_err("ollama delete should fail");
    assert!(error.contains("Ollama"));

    let without_path = DeleteModelInput {
        id: "lmstudio:a/b".to_string(),
        source: ModelSource::LmStudio,
        path: None,
        repo_id: None,
    };
    assert_eq!(
        delete_precheck(&without_path),
        Err("This model does not have a local path to delete.".to_string())
    );
}

#[test]
fn custom_roots_are_checked_in_order() {
    let roots = vec![None, Some(r"C:\custom".to_string()), Some(r"C:\custom\inner".to_string())];
    assert!(validate_under_any_custom_root(r"C:\custom\inner\model", &roots).is_ok());
    assert_eq!(
        validate_under_any_custom_root(r"C:\custom", &roots),
        Err("ModelHub will not delete a configured custom root folder.".to_string())
    );
    assert_eq!(
        validate_under_any_custom_root(r"C:\other", &roots),
        Err("Model path is outside configured custom model folders.".to_string())
    );
}

#[test]
fn path_helpers_read_components() {
    assert_eq!(path_components(r"C:\a\\b\."), vec!["C:".to_string(), "a".to_string(), "b".to_string()]);
    assert!(is_descendant(r"C:\a\b", r"C:\a"));
    assert!(!is_descendant(r"C:\ab", r"C:\a"));
    assert!(!is_descendant(r"C:\a", r"C:\a"));
    assert!(paths_equal(r"C:\a\", r"C:\a"));
    assert!(has_parent_component(r"C:\a\..\b"));
    assert_eq!(checked_absolute_path(r" C:\models "), Ok(r"C:\models".to_string()));
    assert!(checked_absolute_path(r"models\x").is_err());
    assert!(checked_absolute_path(r"C:\a\..\b").is_err());
}
