use modelhub_windows::models::{
    sanitize_optional_path, sanitize_path_list, AppSettings, AppSettingsPatch, NullableStringPatch,
};

#[test]
fn default_settings_keep_privacy_and_safety_defaults() {
    let settings = AppSettings::default();

    assert_eq!(settings.hf_cache_path, None);
    assert!(settings.minimize_to_tray);
    assert!(settings.enable_symlink_attempt);
    assert!(settings.scan_on_startup);
    assert!(settings.delete_uses_recycle_bin);
    assert!(!settings.hf_token_stored);
    assert!(!settings.telemetry_enabled);
}

#[test]
fn patch_trims_and_clears_path_fields() {
    let mut settings = AppSettings::default();

    settings.apply_patch(AppSettingsPatch {
        hf_cache_path: NullableStringPatch::Assign("  \"C:\\Models\\hf\"  ".to_string()),
        lm_studio_models_path: NullableStringPatch::Assign("   ".to_string()),
        ..AppSettingsPatch::default()
    });

    assert_eq!(settings.hf_cache_path.as_deref(), Some("C:\\Models\\hf"));
    assert_eq!(settings.lm_studio_models_path, None);
}

#[test]
fn patch_never_enables_telemetry_or_token_state() {
    let mut settings = AppSettings::default();

    settings.apply_patch(AppSettingsPatch {
        hf_token_stored: Some(true),
        delete_uses_recycle_bin: Some(false),
        telemetry_enabled: Some(true),
        ..AppSettingsPatch::default()
    });

    assert!(!settings.hf_token_stored);
    assert!(settings.delete_uses_recycle_bin);
    assert!(!settings.telemetry_enabled);
}

#[test]
fn null_path_patch_clears_saved_value() {
    let patch = AppSettingsPatch {
        hf_cache_path: NullableStringPatch::Clear,
        ..AppSettingsPatch::default()
    };
    let mut settings = AppSettings {
        hf_cache_path: Some("C:\\Models\\hf".to_string()),
        ..AppSettings::default()
    };

    settings.apply_patch(patch);

    assert_eq!(settings.hf_cache_path, None);
}

#[test]
fn missing_path_patch_preserves_saved_value() {
    let patch = AppSettingsPatch::default();
    let mut settings = AppSettings {
        hf_cache_path: Some("C:\\Models\\hf".to_string()),
        ..AppSettings::default()
    };

    settings.apply_patch(patch);

    assert_eq!(settings.hf_cache_path.as_deref(), Some("C:\\Models\\hf"));
}

#[test]
fn path_lists_drop_empty_and_duplicate_entries_case_insensitively() {
    let folders = sanitize_path_list(&[
        "C:\\Models".to_string(),
        " ".to_string(),
        "c:/models".to_string(),
        "C:\\Models\\".to_string(),
        "D:\\Models".to_string(),
    ]);

    assert_eq!(folders, vec!["C:\\Models", "D:\\Models"]);
}

#[test]
fn sanitized_settings_restore_privacy_invariants() {
    let settings = AppSettings {
        hf_token_stored: true,
        telemetry_enabled: true,
        delete_uses_recycle_bin: false,
        hf_cache_path: Some("  'D:\\HF'  ".to_string()),
        ..AppSettings::default()
    };

    let clean = settings.sanitized();

    assert!(!clean.hf_token_stored);
    assert!(!clean.telemetry_enabled);
    assert!(clean.delete_uses_recycle_bin);
    assert_eq!(clean.hf_cache_path.as_deref(), Some("D:\\HF"));
}

#[test]
fn optional_paths_drop_quotes_and_blank_values() {
    assert_eq!(sanitize_optional_path(Some("  \"E:\\x\"  ")), Some("E:\\x".to_string()));
    assert_eq!(sanitize_optional_path(Some("   ")), None);
    assert_eq!(sanitize_optional_path(None), None);
}

#[test]
fn patching_a_list_replaces_it_and_flags_follow_the_patch() {
    let mut settings = AppSettings {
        custom_model_folders: vec!["C:\\Old".to_string()],
        ..AppSettings::default()
    };

    settings.apply_patch(AppSettingsPatch {
        custom_model_folders: Some(vec!["D:\\New".to_string(), "d:/new/".to_string()]),
        scan_on_startup: Some(false),
        ..AppSettingsPatch::default()
    });

    assert_eq!(settings.custom_model_folders, vec!["D:\\New"]);
    assert!(!settings.scan_on_startup);
    assert!(settings.minimize_to_tray);
}

#[test]
fn sanitizing_twice_is_sanitizing_once() {
    let settings = AppSettings {
        hf_cache_path: Some("  C:\\Models\\hf  ".to_string()),
        lm_studio_models_path: Some("   ".to_string()),
        custom_model_folders: vec![" D:\\A ".to_string(), "d:/a".to_string(), "E:\\B".to_string()],
        hf_token_stored: true,
        telemetry_enabled: true,
        ..AppSettings::default()
    };
    let once = settings.sanitized();
    assert_eq!(once.clone().sanitized(), once);
    assert_eq!(once.custom_model_folders, vec!["D:\\A".to_string(), "E:\\B".to_string()]);
}

#[test]
fn folders_differing_in_case_and_slashes_are_one_folder() {
    let folders = sanitize_path_list(&["C:\\Models".to_string(), "c:/models/".to_string()]);
    assert_eq!(folders, vec!["C:\\Models".to_string()]);
}
