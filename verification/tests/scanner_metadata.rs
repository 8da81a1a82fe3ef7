use modelhub_windows::json::{JsonMember, JsonNumber, JsonValue};
use modelhub_windows::scanner::gguf::read_gguf_entries;
use modelhub_windows::scanner::metadata::{
    parse_frontmatter, read_gguf_metadata, read_hf_config_metadata, read_hf_snapshot_metadata,
    read_model_card_metadata, LocalModelMetadata,
};

#[test]
fn parses_model_card_frontmatter_lists() {
    let fields = parse_frontmatter(
        r#"---
license: apache-2.0
tags:
- gguf
- text-generation
base_model: Qwen/Qwen2.5-7B
---
Body
"#,
    )
    .expect("frontmatter should parse");

    assert_eq!(fields.get("license").unwrap(), &vec!["apache-2.0".to_string()]);
    assert_eq!(
        fields.get("tags").unwrap(),
        &vec!["gguf".to_string(), "text-generation".to_string()]
    );
    assert_eq!(fields.get("base_model").unwrap(), &vec!["Qwen/Qwen2.5-7B".to_string()]);
}

#[test]
fn card_without_frontmatter_gives_nothing() {
    assert!(parse_frontmatter("# Title\nno front matter").is_none());
    assert!(read_model_card_metadata("").is_none());
}

#[test]
fn model_card_metadata_reads_provenance_and_embedding_task() {
    let card = "---\r\nlicense: \"mit\"\r\nlanguage:\r\n- en\r\n- fr\r\nlibrary_name: sentence-transformers\r\npipeline_tag: sentence-embedding\r\ndatasets: [ignored list]\r\n---\r\n";
    let metadata = read_model_card_metadata(card).expect("card has front matter");

    assert_eq!(metadata.provenance.license.as_deref(), Some("mit"));
    assert_eq!(metadata.provenance.languages, vec!["en".to_string(), "fr".to_string()]);
    assert_eq!(metadata.provenance.datasets, vec!["[ignored list]".to_string()]);
    assert_eq!(metadata.technical.family.as_deref(), Some("sentence-transformers"));
    assert_eq!(metadata.capabilities.embedding, Some(true));
    assert_eq!(metadata.sources, vec!["model_card".to_string()]);
}

fn member(key: &str, value: JsonValue) -> JsonMember {
    JsonMember { key: key.to_string(), value }
}

fn uint(n: u64) -> JsonValue {
    JsonValue::Number(JsonNumber::PosInt(n))
}

fn text(s: &str) -> JsonValue {
    JsonValue::String(s.to_string())
}

#[test]
fn hf_config_reads_nested_text_config() {
    let config = JsonValue::Object(vec![
        member("architectures", JsonValue::Array(vec![text("Qwen3ForCausalLM")])),
        member("_name_or_path", text("Qwen/Qwen3-4B")),
        member(
            "text_config",
            JsonValue::Object(vec![
                member("model_type", text("qwen3")),
                member("max_position_embeddings", uint(40960)),
                member("hidden_size", uint(2560)),
            ]),
        ),
        member("num_hidden_layers", uint(36)),
        member("license", text("apache-2.0")),
        member("tags", JsonValue::Array(vec![text("a"), uint(3), text("b")])),
    ]);

    let metadata = read_hf_config_metadata(&config);

    assert_eq!(metadata.technical.architecture.as_deref(), Some("qwen3"));
    assert_eq!(metadata.technical.family.as_deref(), Some("qwen3"));
    assert_eq!(metadata.technical.context_length, Some(40960));
    assert_eq!(metadata.technical.max_context_length, Some(40960));
    assert_eq!(metadata.technical.embedding_length, Some(2560));
    assert_eq!(metadata.technical.block_count, Some(36));
    assert_eq!(metadata.capabilities.embedding, Some(false));
    assert_eq!(metadata.provenance.license.as_deref(), Some("apache-2.0"));
    assert_eq!(metadata.provenance.repo_url.as_deref(), Some("Qwen/Qwen3-4B"));
    assert_eq!(metadata.provenance.tags, vec!["a".to_string(), "b".to_string()]);
    assert_eq!(metadata.sources, vec!["hf_config".to_string()]);
}

#[test]
fn snapshot_metadata_prefers_config_then_card() {
    let config = read_hf_config_metadata(&JsonValue::Object(vec![member("model_type", text("llama"))]));
    let card = read_model_card_metadata("---\nlibrary_name: transformers\nlicense: mit\n---\n");
    let merged = read_hf_snapshot_metadata(Some(config), card);

    assert_eq!(merged.technical.family.as_deref(), Some("llama"));
    assert_eq!(merged.provenance.license.as_deref(), Some("mit"));
    assert_eq!(merged.sources, vec!["hf_config".to_string(), "model_card".to_string()]);
}

#[test]
fn merge_fills_gaps_and_keeps_known_values() {
    let mut first = LocalModelMetadata::default();
    first.technical.family = Some("qwen".to_string());
    first.provenance.tags = vec!["a".to_string()];
    let mut second = LocalModelMetadata::default();
    second.technical.family = Some("other".to_string());
    second.technical.context_length = Some(4096);
    second.provenance.tags = vec!["a".to_string(), " ".to_string(), "b".to_string()];

    first.merge(second);

    assert_eq!(first.technical.family.as_deref(), Some("qwen"));
    assert_eq!(first.technical.context_length, Some(4096));
    assert_eq!(first.provenance.tags, vec!["a".to_string(), "b".to_string()]);
}

fn push_string(bytes: &mut Vec<u8>, s: &str) {
    bytes.extend_from_slice(&(s.len() as u64).to_le_bytes());
    bytes.extend_from_slice(s.as_bytes());
}

fn gguf_header(entries: u64) -> Vec<u8> {
    let mut bytes = Vec::new();
    bytes.extend_from_slice(&0x4655_4747u32.to_le_bytes());
    bytes.extend_from_slice(&3u32.to_le_bytes());
    bytes.extend_from_slice(&0u64.to_le_bytes());
    bytes.extend_from_slice(&entries.to_le_bytes());
    bytes
}

#[test]
fn gguf_header_metadata_is_read() {
    let mut bytes = gguf_header(4);
    push_string(&mut bytes, "general.architecture");
    bytes.extend_from_slice(&8u32.to_le_bytes());
    push_string(&mut bytes, "llama");
    push_string(&mut bytes, "llama.context_length");
    bytes.extend_from_slice(&4u32.to_le_bytes());
    bytes.extend_from_slice(&8192u32.to_le_bytes());
    push_string(&mut bytes, "general.tags");
    bytes.extend_from_slice(&9u32.to_le_bytes());
    bytes.extend_from_slice(&8u32.to_le_bytes());
    bytes.extend_from_slice(&2u64.to_le_bytes());
    push_string(&mut bytes, "x");
    push_string(&mut bytes, "y");
    push_string(&mut bytes, "ignored.float");
    bytes.extend_from_slice(&6u32.to_le_bytes());
    bytes.extend_from_slice(&[0, 0, 128, 63]);

    let metadata = read_gguf_metadata("model.gguf", &bytes).expect("header should read");

    assert_eq!(metadata.technical.architecture.as_deref(), Some("llama"));
    assert_eq!(metadata.technical.families, vec!["llama".to_string()]);
    assert_eq!(metadata.technical.context_length, Some(8192));
    assert_eq!(metadata.technical.max_context_length, Some(8192));
    assert_eq!(metadata.provenance.tags, vec!["x".to_string(), "y".to_string()]);
    assert_eq!(metadata.sources, vec!["gguf".to_string()]);
}

#[test]
fn gguf_rejects_other_files_and_unknown_types() {
    let err = read_gguf_metadata("x.bin", b"NOPE0000").expect_err("not gguf");
    assert_eq!(err, "x.bin is not a GGUF file.");

    let mut bytes = gguf_header(1);
    push_string(&mut bytes, "k");
    bytes.extend_from_slice(&99u32.to_le_bytes());
    let err = read_gguf_metadata("m.gguf", &bytes).expect_err("unknown type");
    assert_eq!(err, "Unsupported GGUF metadata value type 99.");

    assert!(read_gguf_entries("m.gguf", &gguf_header(2)).is_err());
}

#[test]
fn merging_metadata_with_itself_changes_nothing() {
    let mut meta = LocalModelMetadata::default();
    meta.technical.architecture = Some("qwen3".to_string());
    meta.technical.families = vec!["qwen3".to_string(), "qwen".to_string()];
    meta.provenance.tags = vec!["gguf".to_string()];
    meta.sources = vec!["gguf".to_string()];
    let copy = meta.clone();
    meta.merge(copy.clone());

    assert_eq!(meta.technical, copy.technical);
    assert_eq!(meta.capabilities, copy.capabilities);
    assert_eq!(meta.provenance, copy.provenance);
    assert_eq!(meta.sources, copy.sources);
}

#[test]
fn config_text_is_parsed_before_it_is_read() {
    let meta = modelhub_windows::scanner::metadata::hf_config_metadata_from_text(
        "{\"model_type\":\"qwen3\",\"max_position_embeddings\":40960,\"text_config\":{\"vocab_size\":151936}}",
    )
    .expect("valid JSON gives metadata");
    assert_eq!(meta.technical.architecture.as_deref(), Some("qwen3"));
    assert!(modelhub_windows::scanner::metadata::hf_config_metadata_from_text("{not json").is_none());
}
