use modelhub_windows::json::{JsonMember, JsonNumber, JsonValue};
use modelhub_windows::models::{ModelFormat, ModelRuntimeStatus, ModelSource};
use modelhub_windows::scanner::ollama::{
    apply_show_response, classify_request_error, local_model_from_ollama_model, models_from_tags,
    OllamaModel, OllamaModelDetails, OllamaScanError, OllamaShowResponse, OllamaTagsResponse,
};

fn details(format: &str, family: Option<&str>, size: Option<&str>, level: Option<&str>) -> OllamaModelDetails {
    OllamaModelDetails {
        format: Some(format.to_string()),
        family: family.map(str::to_string),
        families: None,
        parameter_size: size.map(str::to_string),
        quantization_level: level.map(str::to_string),
    }
}

fn tag(name: &str, size: u64, d: OllamaModelDetails) -> OllamaModel {
    OllamaModel {
        name: name.to_string(),
        model: None,
        modified_at: None,
        size: Some(size),
        digest: None,
        details: Some(d),
    }
}

#[test]
fn parses_installed_models_from_tags_response() {
    let mut m = tag("llama3.2:latest", 2_019_393_189, details("gguf", None, Some("3.2B"), Some("Q4_K_M")));
    m.modified_at = Some("2024-09-25T19:22:00Z".to_string());
    let report = models_from_tags(OllamaTagsResponse { models: vec![m] });

    assert_eq!(report.models.len(), 1);
    let model = &report.models[0];
    assert_eq!(model.id, "ollama:llama3.2:latest");
    assert_eq!(model.display_name, "llama3.2:latest");
    assert_eq!(model.source, ModelSource::Ollama);
    assert_eq!(model.repo_id.as_deref(), Some("llama3.2:latest"));
    assert_eq!(model.provider, None);
    assert_eq!(model.path, None);
    assert_eq!(model.size_bytes, Some(2_019_393_189));
    assert_eq!(model.format, Some(ModelFormat::Gguf));
    assert_eq!(model.quantization.as_deref(), Some("Q4_K_M"));
    assert_eq!(model.parameter_size.as_deref(), Some("3.2B"));
    assert_eq!(model.last_modified.as_deref(), Some("2024-09-25T19:22:00Z"));
    assert!(model.files.is_empty());
    assert_eq!(model.runtime_status, Some(ModelRuntimeStatus::Available));
}

#[test]
fn skips_blank_model_names_and_sorts_models() {
    let report = models_from_tags(OllamaTagsResponse {
        models: vec![
            tag("zeta:latest", 10, details("gguf", None, None, None)),
            tag(" ", 10, details("gguf", None, None, None)),
            tag("library/alpha:q8_0", 20, details("GGUF", None, None, None)),
        ],
    });

    assert_eq!(report.models.len(), 2);
    assert_eq!(report.models[0].id, "ollama:library/alpha:q8_0");
    assert_eq!(report.models[0].provider.as_deref(), Some("library"));
    assert_eq!(report.models[0].quantization.as_deref(), Some("Q8_0"));
    assert_eq!(report.models[1].id, "ollama:zeta:latest");
}

#[test]
fn empty_models_response_is_ok() {
    let report = models_from_tags(OllamaTagsResponse { models: Vec::new() });

    assert!(report.models.is_empty());
}

fn member(key: &str, value: JsonValue) -> JsonMember {
    JsonMember { key: key.to_string(), value }
}

fn n(v: u64) -> JsonValue {
    JsonValue::Number(JsonNumber::PosInt(v))
}

#[test]
fn applies_show_metadata_without_replacing_known_tag_fields() {
    let mut model = local_model_from_ollama_model(tag(
        "qwen3:latest",
        5_220_000_000,
        details("gguf", Some("qwen3"), Some("4B"), Some("Q4_K_M")),
    ))
    .expect("model");
    let mut show_details = details("gguf", Some("qwen3"), Some("4B"), Some("Q8_0"));
    show_details.families = Some(vec!["qwen3".to_string(), "qwen".to_string()]);
    let response = OllamaShowResponse {
        details: Some(show_details),
        capabilities: Some(vec!["completion".to_string(), "tools".to_string()]),
        model_info: Some(vec![
            member("general.architecture", JsonValue::String("qwen3".to_string())),
            member("general.parameter_count", n(4_022_000_000)),
            member("qwen3.context_length", n(40960)),
            member("qwen3.embedding_length", n(2560)),
            member("qwen3.block_count", n(36)),
            member("qwen3.attention.head_count", n(32)),
            member("qwen3.attention.head_count_kv", n(8)),
            member("qwen3.vocab_size", n(151936)),
            member("tokenizer.ggml.model", JsonValue::String("gpt2".to_string())),
        ]),
    };

    apply_show_response(&mut model, response);

    assert_eq!(model.quantization.as_deref(), Some("Q4_K_M"));
    assert_eq!(model.parameter_size.as_deref(), Some("4B"));
    assert_eq!(model.technical.architecture.as_deref(), Some("qwen3"));
    assert_eq!(model.technical.parameter_count, Some(4_022_000_000));
    assert_eq!(model.technical.context_length, Some(40_960));
    assert_eq!(model.technical.max_context_length, Some(40_960));
    assert_eq!(model.technical.embedding_length, Some(2_560));
    assert_eq!(model.technical.block_count, Some(36));
    assert_eq!(model.technical.attention_heads, Some(32));
    assert_eq!(model.technical.kv_heads, Some(8));
    assert_eq!(model.technical.vocab_size, Some(151_936));
    assert_eq!(model.technical.tokenizer.as_deref(), Some("gpt2"));
    assert!(model.technical.families.iter().any(|family| family == "qwen"));
    assert_eq!(model.capabilities.tool_use, Some(true));
    assert!(model.metadata_sources.iter().any(|source| source == "ollama_show"));
}

#[test]
fn error_messages_and_classification() {
    assert_eq!(
        OllamaScanError::NotRunning.user_message(),
        "Ollama is not running on localhost:11434."
    );
    assert_eq!(
        OllamaScanError::ApiStatus(503).user_message(),
        "Ollama returned an unexpected HTTP status: 503."
    );
    assert_eq!(
        OllamaScanError::Request("x".to_string()).user_message(),
        "Could not check Ollama on localhost:11434: x"
    );
    assert_eq!(classify_request_error(true, false, "m".to_string()), OllamaScanError::NotRunning);
    assert_eq!(
        classify_request_error(false, false, "m".to_string()),
        OllamaScanError::Request("m".to_string())
    );
}

#[test]
fn digest_and_model_field_are_recorded() {
    let mut m = tag("llama", 0, details("safetensors", Some(" "), None, None));
    m.digest = Some(" sha256:abc ".to_string());
    m.model = Some("library/llama".to_string());
    let model = local_model_from_ollama_model(m).expect("model");

    assert_eq!(model.provenance.digest.as_deref(), Some("sha256:abc"));
    assert_eq!(model.repo_id.as_deref(), Some("library/llama"));
    assert_eq!(model.size_bytes, None);
    assert_eq!(model.format, Some(ModelFormat::Safetensors));
    assert_eq!(model.technical.family, None);
    assert_eq!(model.metadata_sources, vec!["ollama_tags".to_string(), "ollama_digest".to_string()]);
}
