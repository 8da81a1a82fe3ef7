use modelhub_windows::models::{AppSettings, PathIssueSeverity, PathResolutionSource};
use modelhub_windows::paths::{is_absolute, is_drive_root, join, resolve_paths_with_inputs, PathInputs};

fn inputs() -> PathInputs {
    PathInputs {
        user_profile: Some("C:\\Users\\demo".to_string()),
        hf_home: None,
        hf_hub_cache: None,
    }
}

#[test]
fn hf_cache_prefers_user_setting() {
    let settings = AppSettings {
        hf_cache_path: Some("D:\\HF\\hub".to_string()),
        ..AppSettings::default()
    };

    let resolved = resolve_paths_with_inputs(&settings, &inputs());

    assert_eq!(resolved.hf_cache.path.as_deref(), Some("D:\\HF\\hub"));
    assert_eq!(resolved.hf_cache.source, PathResolutionSource::UserSetting);
}

#[test]
fn hf_cache_prefers_hf_hub_cache_over_hf_home() {
    let mut inputs = inputs();
    inputs.hf_hub_cache = Some("E:\\hf-hub-cache".to_string());
    inputs.hf_home = Some("E:\\hf-home".to_string());

    let resolved = resolve_paths_with_inputs(&AppSettings::default(), &inputs);

    assert_eq!(resolved.hf_cache.path.as_deref(), Some("E:\\hf-hub-cache"));
    assert_eq!(resolved.hf_cache.source_label, "HF_HUB_CACHE");
}

#[test]
fn hf_home_resolves_to_hub_folder() {
    let mut inputs = inputs();
    inputs.hf_home = Some("E:\\hf-home".to_string());

    let resolved = resolve_paths_with_inputs(&AppSettings::default(), &inputs);

    assert_eq!(resolved.hf_cache.path.as_deref(), Some("E:\\hf-home\\hub"));
    assert_eq!(resolved.hf_cache.source_label, "HF_HOME + hub");
}

#[test]
fn default_paths_use_user_profile() {
    let resolved = resolve_paths_with_inputs(&AppSettings::default(), &inputs());

    assert_eq!(
        resolved.hf_cache.path.as_deref(),
        Some("C:\\Users\\demo\\.cache\\huggingface\\hub")
    );
    assert_eq!(
        resolved.lm_studio_models.path.as_deref(),
        Some("C:\\Users\\demo\\.lmstudio\\models")
    );
}

#[test]
fn missing_user_profile_returns_unresolved_error() {
    let resolved = resolve_paths_with_inputs(&AppSettings::default(), &PathInputs::default());

    assert_eq!(resolved.hf_cache.path, None);
    assert_eq!(resolved.hf_cache.source, PathResolutionSource::Unresolved);
    assert_eq!(resolved.hf_cache.issues[0].severity, PathIssueSeverity::Error);
}

#[test]
fn relative_paths_are_reported_as_errors() {
    let settings = AppSettings {
        hf_cache_path: Some("models\\hf".to_string()),
        ..AppSettings::default()
    };

    let resolved = resolve_paths_with_inputs(&settings, &inputs());

    assert!(resolved
        .hf_cache
        .issues
        .iter()
        .any(|issue| issue.code == "relative_path" && issue.severity == PathIssueSeverity::Error));
}

#[test]
fn missing_paths_are_warnings_not_fatal() {
    let settings = AppSettings {
        lm_studio_models_path: Some("Z:\\probably-missing\\models".to_string()),
        ..AppSettings::default()
    };

    let resolved = resolve_paths_with_inputs(&settings, &inputs());

    assert!(resolved
        .lm_studio_models
        .issues
        .iter()
        .any(|issue| issue.code == "missing" && issue.severity == PathIssueSeverity::Warning));
}

#[test]
fn custom_drive_roots_are_reported_as_errors() {
    let settings = AppSettings {
        custom_model_folders: vec!["D:\\".to_string()],
        ..AppSettings::default()
    };

    let resolved = resolve_paths_with_inputs(&settings, &inputs());

    assert!(resolved.custom_model_folders[0]
        .issues
        .iter()
        .any(|issue| issue.code == "drive_root"));
}

#[test]
fn overlapping_custom_folders_get_warnings() {
    let settings = AppSettings {
        custom_model_folders: vec!["D:\\Models".to_string(), "D:\\Models\\GGUF".to_string()],
        ..AppSettings::default()
    };

    let resolved = resolve_paths_with_inputs(&settings, &inputs());

    assert!(resolved
        .custom_model_folders
        .iter()
        .all(|path| path.issues.iter().any(|issue| issue.code == "overlap")));
}

#[test]
fn windows_path_rules() {
    assert!(is_absolute("C:\\Models"));
    assert!(is_absolute("\\\\server\\share"));
    assert!(!is_absolute("models\\hf"));
    assert!(!is_absolute("C:models"));
    assert!(is_drive_root("D:\\"));
    assert!(is_drive_root("d:/"));
    assert!(!is_drive_root("D:\\Models"));
    assert_eq!(join("C:\\Users", "demo"), "C:\\Users\\demo");
    assert_eq!(join("C:\\", "demo"), "C:\\demo");
}

#[test]
fn unc_device_and_verbatim_prefixes() {
    assert!(is_absolute("//server/share"));
    assert!(is_absolute("\\\\?\\C:"));
    assert!(is_absolute("\\\\.\\COM1"));
    assert!(!is_absolute("\\\\server"));
    assert!(!is_absolute("\\Models"));
    assert!(is_drive_root("\\\\server\\share"));
    assert!(is_drive_root("\\\\server\\share\\"));
    assert!(is_drive_root("//server/share/"));
    assert!(!is_drive_root("\\\\server\\share\\models"));
    assert!(is_drive_root("\\\\?\\C:\\"));
    assert!(!is_drive_root("\\\\?\\C:"));
    assert!(!is_drive_root("\\\\?\\C:\\."));
    assert!(is_drive_root("C:\\."));
    assert!(!is_drive_root("C:\\.."));
    assert!(is_drive_root("\\\\?\\UNC\\server\\share\\"));
}

#[test]
fn env_inputs_fall_back_to_home_drive_and_path() {
    let inputs = PathInputs::from_env(
        None,
        None,
        Some("C:".to_string()),
        Some("\\Users\\demo".to_string()),
        Some(String::new()),
        None,
    );

    assert_eq!(inputs.user_profile.as_deref(), Some("C:\\Users\\demo"));
    assert_eq!(inputs.hf_home, None);
    assert_eq!(inputs.hf_hub_cache, None);
}
