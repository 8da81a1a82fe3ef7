//! Ollama as a runtime: whether it is running and what it has installed.
use vstd::prelude::*;

use crate::models::{OllamaRuntimeStatus, opt_str};
use crate::scanner::ollama::{OLLAMA_BASE_URL, OllamaScanError, OllamaScanReport, ollama_error_message};

verus! {

/// Ollama's runtime status from the outcome of reading its tag list, with
/// the time of the check.
pub fn status_from_scan_result(
    result: Result<OllamaScanReport, OllamaScanError>,
    checked_at: String,
) -> (r: OllamaRuntimeStatus)
    ensures
        r.base_url@ == OLLAMA_BASE_URL@,
        r.checked_at == checked_at,
        match result {
            Ok(report) => r.running && r.models == report.models && r.error is None,
            Err(e) => !r.running && r.models@.len() == 0 && opt_str(r.error) == Some(
                ollama_error_message(e),
            ),
        },
{
    match result {
        Ok(report) => OllamaRuntimeStatus {
            running: true,
            base_url: OLLAMA_BASE_URL.to_owned(),
            models: report.models,
            error: None,
            checked_at,
        },
        Err(error) => OllamaRuntimeStatus {
            running: false,
            base_url: OLLAMA_BASE_URL.to_owned(),
            models: Vec::new(),
            error: Some(error.user_message()),
            checked_at,
        },
    }
}

} // verus!
