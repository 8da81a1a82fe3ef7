use modelhub_windows::errors::{into_command_error, AppError};
use modelhub_windows::models::{AppSettings, AppSettingsPatch, NullableStringPatch};
use modelhub_windows::paths::PathInputs;
use modelhub_windows::settings::{updated_settings, validate_settings_for_save, SettingsStore};

fn inputs() -> PathInputs {
    PathInputs {
        user_profile: Some("C:\\Users\\person".to_string()),
        hf_home: None,
        hf_hub_cache: None,
    }
}

#[test]
fn partial_update_preserves_unspecified_values() {
    let original = AppSettings {
        hf_cache_path: Some("C:\\Models\\hf".to_string()),
        lm_studio_models_path: Some("C:\\Models\\lmstudio".to_string()),
        scan_on_startup: true,
        ..AppSettings::default()
    };

    let updated = updated_settings(
        original.clone(),
        AppSettingsPatch { scan_on_startup: Some(false), ..AppSettingsPatch::default() },
        &inputs(),
    )
    .expect("settings should update");

    assert_eq!(updated.hf_cache_path, original.hf_cache_path);
    assert_eq!(updated.lm_studio_models_path, original.lm_studio_models_path);
    assert!(!updated.scan_on_startup);
}

#[test]
fn clearing_a_path_persists_as_unset() {
    let set = updated_settings(
        AppSettings::default(),
        AppSettingsPatch {
            hf_cache_path: NullableStringPatch::Assign("C:\\Models\\hf".to_string()),
            ..AppSettingsPatch::default()
        },
        &inputs(),
    )
    .expect("settings should update");
    assert_eq!(set.hf_cache_path.as_deref(), Some("C:\\Models\\hf"));

    let updated = updated_settings(
        set,
        AppSettingsPatch { hf_cache_path: NullableStringPatch::Clear, ..AppSettingsPatch::default() },
        &inputs(),
    )
    .expect("settings should update");

    assert_eq!(updated.hf_cache_path, None);
}

#[test]
fn update_rejects_relative_paths() {
    let result = updated_settings(
        AppSettings::default(),
        AppSettingsPatch {
            hf_cache_path: NullableStringPatch::Assign("models\\hf".to_string()),
            ..AppSettingsPatch::default()
        },
        &inputs(),
    );

    assert!(matches!(result, Err(AppError::InvalidSettings(_))));
}

#[test]
fn update_rejects_custom_drive_roots() {
    let result = updated_settings(
        AppSettings::default(),
        AppSettingsPatch {
            custom_model_folders: Some(vec!["D:\\".to_string()]),
            ..AppSettingsPatch::default()
        },
        &inputs(),
    );

    assert!(matches!(result, Err(AppError::InvalidSettings(_))));
}

#[test]
fn default_settings_can_be_saved() {
    assert!(validate_settings_for_save(&AppSettings::default(), &inputs()).is_ok());
    let store = SettingsStore::new("C:\\app\\settings.json".to_string());
    assert_eq!(store.path, "C:\\app\\settings.json");
}

#[test]
fn error_messages_name_the_problem() {
    assert_eq!(
        AppError::ParseSettings { path: "s.json".to_string(), source: "eof".to_string() }.user_message(),
        "ModelHub settings at s.json are not valid JSON. Fix or remove the file, then try again."
    );
    assert_eq!(
        into_command_error(AppError::InvalidSettings(vec!["A.".to_string(), "B.".to_string()])),
        "ModelHub could not save settings because A. B."
    );
    assert_eq!(
        AppError::SettingsDirectory("x".to_string()).user_message(),
        "ModelHub could not find a safe location for its settings."
    );
}
