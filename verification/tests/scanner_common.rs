use modelhub_windows::models::ModelFormat;
use modelhub_windows::scanner::common::{detect_format, file_name, parse_quantization_from_name};

#[test]
fn detects_supported_model_formats() {
    assert_eq!(detect_format("model.gguf"), ModelFormat::Gguf);
    assert_eq!(detect_format("model.safetensors"), ModelFormat::Safetensors);
    assert_eq!(detect_format("model.onnx"), ModelFormat::Onnx);
    assert_eq!(detect_format("weights.mlx"), ModelFormat::Mlx);
    assert_eq!(detect_format("config.json"), ModelFormat::Unknown);
}

#[test]
fn parses_common_quantization_tokens() {
    assert_eq!(
        parse_quantization_from_name("Qwen2.5-7B-Instruct-Q4_K_M.gguf"),
        Some("Q4_K_M".to_string())
    );
    assert_eq!(parse_quantization_from_name("model-q8_0.gguf"), Some("Q8_0".to_string()));
    assert_eq!(
        parse_quantization_from_name("mistral-nemo-IQ4_XS.gguf"),
        Some("IQ4_XS".to_string())
    );
    assert_eq!(parse_quantization_from_name("embedding-FP16.gguf"), Some("FP16".to_string()));
    assert_eq!(parse_quantization_from_name("config.json"), None);
}

#[test]
fn format_detection_ignores_case_and_folders() {
    assert_eq!(detect_format("C:\\Models\\Qwen.GGUF"), ModelFormat::Gguf);
    assert_eq!(detect_format("models/model.SafeTensors"), ModelFormat::Safetensors);
    assert_eq!(detect_format(".gguf"), ModelFormat::Unknown);
    assert_eq!(detect_format("README"), ModelFormat::Unknown);
}

fn name_of(path: &str) -> Option<String> {
    file_name(path).map(|chars| chars.into_iter().collect())
}

#[test]
fn file_names_follow_windows_components() {
    assert_eq!(name_of("foo.txt/.").as_deref(), Some("foo.txt"));
    assert_eq!(name_of("C:\\Models\\qwen.gguf\\").as_deref(), Some("qwen.gguf"));
    assert_eq!(name_of("C:model.gguf").as_deref(), Some("model.gguf"));
    assert_eq!(name_of("C:\\"), None);
    assert_eq!(name_of("dir/.."), None);
    assert_eq!(name_of("\\\\server\\share"), None);
    assert_eq!(name_of("\\\\?\\C:\\a/b"), Some("a/b".to_string()));
    assert_eq!(detect_format("models/model.gguf/."), ModelFormat::Gguf);
}
