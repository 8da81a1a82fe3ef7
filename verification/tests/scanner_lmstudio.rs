use modelhub_windows::json::{JsonMember, JsonNumber, JsonValue};
use modelhub_windows::models::{ModelFormat, ModelRuntimeStatus, ModelSource};
use modelhub_windows::scanner::lmstudio::{
    api_model_matches_local_model, enrich_model_from_api, enrich_models_from_api, lm_studio_report,
    scan_model_dir, LmStudioApiModel, LmStudioApiModelsResponse, LmStudioEntry, ModelDirEntry,
    ModelDirItem,
};
use modelhub_windows::scanner::metadata::LocalModelMetadata;

fn gguf(name: &str, size: Result<u64, String>, modified: Option<u64>) -> ModelDirEntry {
    ModelDirEntry::Item(ModelDirItem {
        path: format!("C:\\lm\\pub\\model\\{name}"),
        name: name.to_string(),
        relative_path: name.to_string(),
        is_file: true,
        size,
        modified_secs: modified,
        gguf: None,
    })
}

#[test]
fn model_folder_keeps_non_empty_gguf_files() {
    let mut with_meta = gguf("model-Q8_0.gguf", Ok(20), Some(10));
    if let ModelDirEntry::Item(item) = &mut with_meta {
        let mut meta = LocalModelMetadata::default();
        meta.technical.parameter_size = Some("4B".to_string());
        meta.sources = vec!["gguf".to_string()];
        item.gguf = Some(meta);
    }
    let entries = vec![
        gguf("model-Q4_K_M.gguf", Ok(10), Some(30)),
        with_meta,
        gguf("README.txt", Ok(5), Some(99)),
        gguf("empty.gguf", Ok(0), None),
        gguf("broken.gguf", Err("denied".to_string()), None),
        ModelDirEntry::Unreadable("gone".to_string()),
    ];

    let scan = scan_model_dir("C:\\lm\\pub\\model", "pub", "model", entries);
    let model = scan.model.expect("model should be found");

    assert_eq!(model.id, "lmstudio:pub/model");
    assert_eq!(model.display_name, "model");
    assert_eq!(model.provider.as_deref(), Some("pub"));
    assert_eq!(model.repo_id.as_deref(), Some("pub/model"));
    assert_eq!(model.source, ModelSource::LmStudio);
    assert_eq!(model.size_bytes, Some(30));
    assert_eq!(model.format, Some(ModelFormat::Gguf));
    assert_eq!(model.quantization, None);
    assert_eq!(model.parameter_size.as_deref(), Some("4B"));
    assert_eq!(model.last_modified.as_deref(), Some("30"));
    assert_eq!(model.files.len(), 2);
    assert_eq!(model.files[0].path, "model-Q4_K_M.gguf");
    assert_eq!(model.files[0].quantization.as_deref(), Some("Q4_K_M"));
    assert_eq!(model.metadata_sources, vec!["gguf".to_string()]);
    assert_eq!(
        scan.warnings,
        vec![
            "Skipped zero-byte GGUF file C:\\lm\\pub\\model\\empty.gguf.".to_string(),
            "Could not inspect C:\\lm\\pub\\model\\broken.gguf: denied.".to_string(),
            "Could not read a model file entry: gone.".to_string(),
        ]
    );
}

#[test]
fn single_file_model_takes_its_quantization_and_empty_folder_gives_none() {
    let scan = scan_model_dir("p", "mistralai", "Nemo", vec![gguf("nemo-IQ4_XS.gguf", Ok(7), None)]);
    let model = scan.model.expect("model");
    assert_eq!(model.quantization.as_deref(), Some("IQ4_XS"));
    assert_eq!(model.last_modified, None);

    let scan = scan_model_dir("p", "pub", "m", vec![gguf("z.gguf", Ok(0), None)]);
    assert!(scan.model.is_none());
    assert!(scan.warnings.iter().any(|w| w.contains("zero-byte")));
}

#[test]
fn walk_report_orders_models_by_id() {
    let a = scan_model_dir("p", "b", "x", vec![gguf("x.gguf", Ok(1), None)]);
    let b = scan_model_dir("p", "a", "y", vec![gguf("y.gguf", Ok(1), None)]);
    let report = lm_studio_report(vec![
        LmStudioEntry::ModelFolder(a),
        LmStudioEntry::PublisherUnreadable("e1".to_string()),
        LmStudioEntry::ModelFolder(b),
        LmStudioEntry::ModelFolderFailed("p".to_string(), "m".to_string(), "e2".to_string()),
    ]);

    assert_eq!(report.models[0].id, "lmstudio:a/y");
    assert_eq!(report.models[1].id, "lmstudio:b/x");
    assert_eq!(
        report.warnings,
        vec![
            "Could not read an LM Studio publisher entry: e1.".to_string(),
            "p/m: e2".to_string(),
        ]
    );
}

fn api_model() -> LmStudioApiModel {
    LmStudioApiModel {
        id: Some("lmstudio-community/Qwen3-4B-GGUF".to_string()),
        display_name: Some("Qwen3-4B-GGUF".to_string()),
        path: None,
        publisher: Some("lmstudio-community".to_string()),
        architecture: Some("qwen3".to_string()),
        format: Some("gguf".to_string()),
        quantization: Some(JsonValue::Object(vec![JsonMember {
            key: "name".to_string(),
            value: JsonValue::String("Q4_K_M".to_string()),
        }])),
        parameter_size: Some(JsonValue::String("4B".to_string())),
        parameter_count: Some(JsonValue::Number(JsonNumber::PosInt(4_022_000_000))),
        max_context_length: Some(JsonValue::Number(JsonNumber::PosInt(40960))),
        size_bytes: Some(JsonValue::Number(JsonNumber::PosInt(123))),
        model_type: Some("llm".to_string()),
        capabilities: Some(JsonValue::Object(vec![
            JsonMember { key: "tools".to_string(), value: JsonValue::Bool(true) },
            JsonMember { key: "vision".to_string(), value: JsonValue::Bool(true) },
        ])),
        state: None,
        loaded_instances: vec![JsonValue::Null],
    }
}

#[test]
fn enriches_scanned_model_from_lm_studio_api_metadata() {
    let scan = scan_model_dir(
        "C:\\lm\\lmstudio-community\\Qwen3-4B-GGUF",
        "lmstudio-community",
        "Qwen3-4B-GGUF",
        vec![gguf("Qwen3-4B-Q4_K_M.gguf", Ok(10), None), gguf("Qwen3-4B-Q8_0.gguf", Ok(11), None)],
    );
    let mut model = scan.model.expect("model");
    let response = LmStudioApiModelsResponse { data: Vec::new(), models: vec![api_model()] };
    let api_models = response.into_models();

    assert!(api_model_matches_local_model(&api_models[0], &model));
    let mut models = vec![model];
    enrich_models_from_api(&mut models, &api_models);
    model = models.remove(0);

    assert_eq!(model.quantization.as_deref(), Some("Q4_K_M"));
    assert_eq!(model.parameter_size.as_deref(), Some("4B"));
    assert_eq!(model.technical.architecture.as_deref(), Some("qwen3"));
    assert_eq!(model.technical.parameter_count, Some(4_022_000_000));
    assert_eq!(model.technical.max_context_length, Some(40_960));
    assert_eq!(model.technical.context_length, Some(40_960));
    assert_eq!(model.capabilities.tool_use, Some(true));
    assert_eq!(model.capabilities.vision, Some(true));
    assert_eq!(model.runtime_status, Some(ModelRuntimeStatus::Loaded));
    assert_ne!(model.size_bytes, Some(123));
    assert!(model.metadata_sources.iter().any(|source| source == "lmstudio_api"));
}

#[test]
fn api_values_in_text_and_state_names_are_read() {
    let scan = scan_model_dir("p", "pub", "emb", vec![gguf("emb.gguf", Ok(1), None)]);
    let mut model = scan.model.expect("model");
    let mut api = api_model();
    api.id = Some("  PUB\\EMB ".to_string());
    api.display_name = None;
    api.quantization = None;
    api.parameter_count = Some(JsonValue::String("+42".to_string()));
    api.model_type = Some(" Text-Embedding ".to_string());
    api.state = Some(" Not-Loaded ".to_string());
    api.capabilities = Some(JsonValue::Array(vec![JsonValue::String(" Reasoning ".to_string())]));

    assert!(api_model_matches_local_model(&api, &model));
    enrich_model_from_api(&mut model, &api);

    assert_eq!(model.technical.parameter_count, Some(42));
    assert_eq!(model.capabilities.embedding, Some(true));
    assert_eq!(model.capabilities.reasoning, Some(true));
    assert_eq!(model.runtime_status, Some(ModelRuntimeStatus::Available));
    assert_eq!(model.quantization, None);
}

#[test]
fn unrelated_api_models_change_nothing() {
    let scan = scan_model_dir("p", "pub", "one", vec![gguf("one.gguf", Ok(1), None)]);
    let model = scan.model.expect("model");
    let mut api = api_model();
    api.id = Some("other/two".to_string());
    api.display_name = Some("two".to_string());

    assert!(!api_model_matches_local_model(&api, &model));
    let mut models = vec![model.clone()];
    enrich_models_from_api(&mut models, &[api]);
    assert_eq!(models[0], model);
}

#[test]
fn parses_iq_quantization_and_ignores_non_gguf_files() {
    let mistral = scan_model_dir(
        "C:\\lm\\mistralai\\Mistral-Nemo-Instruct",
        "mistralai",
        "Mistral-Nemo-Instruct",
        vec![
            gguf("Mistral-Nemo-Instruct-IQ4_XS.gguf", Ok(64), Some(5)),
            gguf("README.txt", Ok(12), Some(5)),
        ],
    );
    let report = lm_studio_report(vec![LmStudioEntry::ModelFolder(mistral)]);
    let mistral = report
        .models
        .iter()
        .find(|model| model.repo_id.as_deref() == Some("mistralai/Mistral-Nemo-Instruct"))
        .expect("mistral model should scan");

    assert_eq!(mistral.files.len(), 1);
    assert_eq!(mistral.quantization.as_deref(), Some("IQ4_XS"));
    assert_eq!(mistral.files[0].quantization.as_deref(), Some("IQ4_XS"));
    assert!(!mistral.files.iter().any(|file| file.name == "README.txt"));
}

#[test]
fn existing_empty_root_returns_no_models_without_warning() {
    let report = lm_studio_report(Vec::new());

    assert!(report.models.is_empty());
    assert!(report.warnings.is_empty());
}

#[test]
fn skips_zero_byte_ggufs_with_warning() {
    let scan = scan_model_dir(
        "C:\\lm\\publisher\\model",
        "publisher",
        "model",
        vec![gguf("model-Q4_K_M.gguf", Ok(0), None)],
    );
    let report = lm_studio_report(vec![LmStudioEntry::ModelFolder(scan)]);

    assert!(report.models.is_empty());
    assert_eq!(
        report.warnings,
        vec!["Skipped zero-byte GGUF file C:\\lm\\pub\\model\\model-Q4_K_M.gguf.".to_string()]
    );
}
