use modelhub_windows::hf::api::{
    build_details_url, build_search_url, classify_request_error, details_revision,
    details_status_error, file_extension, format_from_path, model_details_from, normalized_query,
    normalized_repo_id, search_limit, search_result_from, value_is_gated, HfApiError, HfApiLfs,
    HfApiModel, HfApiSibling, HF_BASE_URL,
};
use modelhub_windows::json::JsonValue;
use modelhub_windows::models::{HfSearchFilters, HfSearchInput, HfSearchSort, ModelFormat};

fn sibling(name: &str) -> HfApiSibling {
    HfApiSibling { rfilename: Some(name.to_string()), size: None, blob_id: None, lfs: None }
}

fn api_model(model_id: &str, siblings: Vec<HfApiSibling>) -> HfApiModel {
    HfApiModel {
        id: None,
        model_id: Some(model_id.to_string()),
        author: None,
        tags: Vec::new(),
        downloads: None,
        likes: None,
        last_modified: None,
        gated: None,
        private: None,
        pipeline_tag: None,
        sha: None,
        siblings,
    }
}

#[test]
fn rejects_blank_queries_before_network() {
    let error = normalized_query("  ").expect_err("blank query should fail");

    assert_eq!(
        error.user_message(),
        "Enter a model name or keyword before searching Hugging Face."
    );
}

#[test]
fn builds_search_url_with_filters_and_sort() {
    let input = HfSearchInput {
        query: " qwen ".to_string(),
        filters: HfSearchFilters { text_generation: true, gguf: true, safetensors: true },
        sort: HfSearchSort::LastModified,
        limit: Some(100),
    };
    let url = build_search_url(HF_BASE_URL, &input, "qwen").expect("url should build");
    let url = reqwest::Url::parse(&url).expect("url should parse");
    let query = url.query().expect("url should have query params");

    assert_eq!(url.path(), "/api/models");
    assert!(query.contains("search=qwen"));
    assert!(query.contains("limit=50"));
    assert!(query.contains("sort=lastModified"));
    assert!(query.contains("direction=-1"));
    assert!(query.contains("pipeline_tag=text-generation"));
    assert!(query.contains("filter=gguf"));
    assert!(query.contains("filter=safetensors"));
}

#[test]
fn parses_search_response_with_model_id_and_file_summary() {
    let mut model = api_model(
        "Qwen/Qwen3-4B",
        vec![
            sibling("config.json"),
            sibling("model-00001-of-00003.safetensors"),
            sibling("tokenizer.json"),
        ],
    );
    model.id = Some("unused-id".to_string());
    model.author = Some("Qwen".to_string());
    model.gated = Some(JsonValue::Bool(false));
    model.private = Some(false);
    model.last_modified = Some("2025-07-26T03:46:39.000Z".to_string());
    model.likes = Some(641);
    model.downloads = Some(16369272);
    model.tags = vec!["safetensors".to_string(), "text-generation".to_string()];
    model.pipeline_tag = Some("text-generation".to_string());

    let result = search_result_from("qwen", vec![model]);

    assert_eq!(result.query, "qwen");
    assert_eq!(result.models.len(), 1);
    let model = &result.models[0];

    assert_eq!(model.repo_id, "Qwen/Qwen3-4B");
    assert_eq!(model.author.as_deref(), Some("Qwen"));
    assert!(!model.gated);
    assert!(!model.private);
    assert_eq!(model.downloads, Some(16_369_272));
    assert_eq!(model.likes, Some(641));
    assert_eq!(model.pipeline_tag.as_deref(), Some("text-generation"));
    assert_eq!(model.file_summary.total_files, 3);
    assert_eq!(model.file_summary.safetensors_files, 1);
    assert_eq!(model.file_summary.config_files, 1);
    assert_eq!(model.file_summary.tokenizer_files, 1);
}

#[test]
fn parses_model_details_with_lfs_metadata_and_sizes() {
    let mut model = api_model(
        "Qwen/Qwen3-4B-GGUF",
        vec![
            HfApiSibling {
                rfilename: Some("Qwen3-4B-Q4_K_M.gguf".to_string()),
                size: None,
                blob_id: None,
                lfs: Some(HfApiLfs { oid: Some("blob-a".to_string()), size: Some(4096) }),
            },
            HfApiSibling {
                rfilename: Some("config.json".to_string()),
                size: Some(128),
                blob_id: None,
                lfs: None,
            },
            sibling("README.md"),
        ],
    );
    model.sha = Some("abc123".to_string());
    model.gated = Some(JsonValue::Bool(false));
    model.private = Some(false);

    let details = model_details_from("Qwen/Qwen3-4B-GGUF", "main", model);

    assert_eq!(details.repo_id, "Qwen/Qwen3-4B-GGUF");
    assert_eq!(details.commit_sha.as_deref(), Some("abc123"));
    assert_eq!(details.total_bytes, None);
    assert_eq!(details.files.len(), 3);

    let gguf = &details.files[0];
    assert_eq!(gguf.path, "Qwen3-4B-Q4_K_M.gguf");
    assert_eq!(gguf.size_bytes, Some(4096));
    assert_eq!(gguf.format, ModelFormat::Gguf);
    assert_eq!(gguf.extension.as_deref(), Some("gguf"));
    assert!(gguf.lfs);
    assert_eq!(gguf.oid.as_deref(), Some("blob-a"));
    assert_eq!(gguf.blob_id.as_deref(), Some("blob-a"));
    assert!(gguf.likely_default);

    let config = &details.files[1];
    assert_eq!(config.size_bytes, Some(128));
    assert_eq!(config.format, ModelFormat::Unknown);
    assert!(config.likely_default);
}

#[test]
fn parses_non_lfs_blob_id_from_details() {
    let model = api_model(
        "Qwen/Qwen3-4B",
        vec![HfApiSibling {
            rfilename: Some("config.json".to_string()),
            size: Some(128),
            blob_id: Some("plain-blob".to_string()),
            lfs: None,
        }],
    );
    let details = model_details_from("Qwen/Qwen3-4B", "main", model);

    assert_eq!(details.files[0].blob_id.as_deref(), Some("plain-blob"));
    assert_eq!(details.files[0].oid, None);
    assert!(!details.files[0].lfs);
}

#[test]
fn totals_known_sizes_only_when_every_file_has_size() {
    let model = api_model(
        "Qwen/Qwen3-4B",
        vec![
            HfApiSibling { rfilename: Some("config.json".to_string()), size: Some(100), blob_id: None, lfs: None },
            HfApiSibling { rfilename: Some("tokenizer.json".to_string()), size: Some(250), blob_id: None, lfs: None },
        ],
    );
    let details = model_details_from("Qwen/Qwen3-4B", "main", model);

    assert_eq!(details.total_bytes, Some(350));
}

#[test]
fn parses_gated_values_from_boolean_or_string() {
    assert!(!value_is_gated(Some(&JsonValue::Bool(false))));
    assert!(value_is_gated(Some(&JsonValue::Bool(true))));
    assert!(value_is_gated(Some(&JsonValue::String("auto".to_string()))));
    assert!(value_is_gated(Some(&JsonValue::String("manual".to_string()))));
    assert!(!value_is_gated(Some(&JsonValue::String("false".to_string()))));
    assert!(!value_is_gated(None));
}

#[test]
fn search_keeps_only_models_with_an_id_and_falls_back_to_id() {
    let mut with_plain_id = api_model("x", Vec::new());
    with_plain_id.model_id = None;
    with_plain_id.id = Some(" org/name ".to_string());
    let mut without_id = api_model("x", Vec::new());
    without_id.model_id = Some("  ".to_string());

    let result = search_result_from("q", vec![without_id, with_plain_id]);
    assert_eq!(result.models.len(), 1);
    assert_eq!(result.models[0].repo_id, "org/name");
}

#[test]
fn details_url_and_revision() {
    let url = build_details_url(HF_BASE_URL, "Qwen/Qwen3-4B", "main").unwrap();
    assert_eq!(url, "https://huggingface.co/api/models/Qwen/Qwen3-4B?blobs=true&revision=main");
    assert_eq!(details_revision(Some("  dev ".to_string())), "dev");
    assert_eq!(details_revision(Some("   ".to_string())), "main");
    assert_eq!(details_revision(None), "main");
}

#[test]
fn inputs_and_errors_are_checked() {
    assert_eq!(normalized_query(" qwen ").unwrap(), "qwen");
    assert!(normalized_repo_id("Qwen/Qwen3-4B").is_ok());
    assert!(normalized_repo_id("no-slash").is_err());
    assert_eq!(search_limit(None), 25);
    assert_eq!(search_limit(Some(0)), 1);
    assert_eq!(search_limit(Some(7)), 7);
    assert_eq!(search_limit(Some(500)), 50);
    assert_eq!(
        details_status_error(404).user_message(),
        "Could not search Hugging Face models: Hugging Face could not find that model repo."
    );
    assert_eq!(details_status_error(500), HfApiError::ApiStatus(500));
    assert_eq!(
        HfApiError::ApiStatus(502).user_message(),
        "Hugging Face search returned an unexpected HTTP status: 502."
    );
    assert!(matches!(
        classify_request_error(true, false, "t".to_string()),
        HfApiError::Request(_)
    ));
    assert_eq!(file_extension("dir/Model.GGUF").as_deref(), Some("gguf"));
    assert_eq!(file_extension("README"), None);
    assert_eq!(format_from_path("a/b.safetensors"), ModelFormat::Safetensors);
}
