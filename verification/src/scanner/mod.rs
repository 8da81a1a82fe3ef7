//! Scanning the local model sources: whether each source can be scanned,
//! how its outcome is reported, and the combined inventory.
pub mod common;
pub mod gguf;
pub mod huggingface;
pub mod lmstudio;
pub mod metadata;
pub mod ollama;

use vstd::prelude::*;

use crate::models::{
    LocalModel, ModelSource, PathIssue, PathIssueSeverity, ResolvedPath, ScanResult,
    SourceScanStatus, SourceStatus, opt_str, strs,
};
use crate::scanner::ollama::{OLLAMA_BASE_URL, OllamaScanError, OllamaScanReport, ollama_error_message};
use crate::text::{concat2, concat3, decimal, decimal_string};

verus! {

/// What scanning one source came to: models with the source's status, or
/// only a status.
pub enum SourceScan {
    Models { scanned_models: Vec<LocalModel>, status: SourceStatus },
    Status(SourceStatus),
}

/// `parts` joined with `sep` between them (`[String]::join`).
pub open spec fn join_spec(parts: Seq<Seq<char>>, sep: Seq<char>) -> Seq<char>
    decreases parts.len(),
{
    if parts.len() == 0 {
        Seq::empty()
    } else if parts.len() == 1 {
        parts[0]
    } else {
        join_spec(parts.drop_last(), sep) + sep + parts.last()
    }
}

/// Joins texts with a separator.
pub fn join_strings(parts: &Vec<String>, sep: &str) -> (r: String)
    ensures
        r@ == join_spec(strs(parts@), sep@),
{
    let mut out = String::new();
    let mut i: usize = 0;
    assert(strs(parts@).take(0) =~= Seq::<Seq<char>>::empty());
    while i < parts.len()
        invariant
            0 <= i <= parts@.len(),
            out@ == join_spec(strs(parts@).take(i as int), sep@),
        decreases parts.len() - i,
    {
        assert(strs(parts@).take(i + 1).drop_last() =~= strs(parts@).take(i as int));
        if i == 0 {
            out = parts[0].clone();
            assert(strs(parts@).take(1) =~= seq![parts@[0]@]);
        } else {
            let next = concat3(out.as_str(), sep, parts[i].as_str());
            out = next;
        }
        i += 1;
    }
    assert(strs(parts@).take(parts@.len() as int) =~= strs(parts@));
    out
}

/// The messages of the path's blocking issues, in order.
pub open spec fn error_messages(issues: Seq<PathIssue>) -> Seq<Seq<char>>
    decreases issues.len(),
{
    if issues.len() == 0 {
        Seq::empty()
    } else {
        error_messages(issues.drop_last()) + if issues.last().severity == PathIssueSeverity::Error {
            seq![issues.last().message@]
        } else {
            Seq::empty()
        }
    }
}

fn error_messages_exec(issues: &Vec<PathIssue>) -> (r: Vec<String>)
    ensures
        strs(r@) == error_messages(issues@),
{
    let mut out: Vec<String> = Vec::new();
    let mut i: usize = 0;
    while i < issues.len()
        invariant
            0 <= i <= issues@.len(),
            strs(out@) == error_messages(issues@.take(i as int)),
        decreases issues.len() - i,
    {
        assert(issues@.take(i + 1).drop_last() =~= issues@.take(i as int));
        let ghost before = strs(out@);
        if issues[i].severity == PathIssueSeverity::Error {
            out.push(issues[i].message.clone());
            assert(strs(out@) =~= before + seq![issues@[i as int].message@]);
        } else {
            assert(strs(out@) =~= before + Seq::<Seq<char>>::empty());
        }
        i += 1;
    }
    assert(issues@.take(issues@.len() as int) =~= issues@);
    out
}

/// The texts a folder source's status uses: unresolved path, missing
/// folder, not a folder, and the name of its warnings.
pub open spec fn folder_texts(source: ModelSource) -> (Seq<char>, Seq<char>, Seq<char>, Seq<char>) {
    if source == ModelSource::HuggingFace {
        (
            "Hugging Face cache path could not be resolved."@,
            "Hugging Face cache folder does not exist yet."@,
            "Hugging Face cache path is not a folder."@,
            " Hugging Face cache "@,
        )
    } else {
        (
            "LM Studio models path could not be resolved."@,
            "LM Studio models folder does not exist yet."@,
            "LM Studio models path is not a folder."@,
            " LM Studio scan "@,
        )
    }
}

fn folder_text(source: ModelSource, which: u8) -> (r: &'static str)
    requires
        which < 4,
    ensures
        r@ == if which == 0 {
            folder_texts(source).0
        } else if which == 1 {
            folder_texts(source).1
        } else if which == 2 {
            folder_texts(source).2
        } else {
            folder_texts(source).3
        },
{
    if source == ModelSource::HuggingFace {
        if which == 0 {
            "Hugging Face cache path could not be resolved."
        } else if which == 1 {
            "Hugging Face cache folder does not exist yet."
        } else if which == 2 {
            "Hugging Face cache path is not a folder."
        } else {
            " Hugging Face cache "
        }
    } else {
        if which == 0 {
            "LM Studio models path could not be resolved."
        } else if which == 1 {
            "LM Studio models folder does not exist yet."
        } else if which == 2 {
            "LM Studio models path is not a folder."
        } else {
            " LM Studio scan "
        }
    }
}

/// Whether a folder source can be scanned: the status it stops with, if
/// not (blocking path issues, no path, a missing folder, or not a folder).
pub open spec fn precheck_spec(source: ModelSource, path: ResolvedPath, r: Option<SourceStatus>) -> bool {
    let errors = error_messages(path.issues@);
    let texts = folder_texts(source);
    if errors.len() > 0 {
        r matches Some(s) && s.source == source && s.status == SourceScanStatus::Error && s.path
            == path.path && opt_str(s.message) == Some(join_spec(errors, " "@))
    } else if path.path is None {
        r matches Some(s) && s.source == source && s.status == SourceScanStatus::Error
            && s.path is None && opt_str(s.message) == Some(texts.0)
    } else if !path.exists {
        r matches Some(s) && s.source == source && s.status == SourceScanStatus::Missing && s.path
            == path.path && opt_str(s.message) == Some(texts.1)
    } else if !path.is_directory {
        r matches Some(s) && s.source == source && s.status == SourceScanStatus::Error && s.path
            == path.path && opt_str(s.message) == Some(texts.2)
    } else {
        r is None
    }
}

/// Checks whether a folder source (Hugging Face or LM Studio) can be
/// scanned at the resolved path.
pub fn folder_precheck(source: ModelSource, path: &ResolvedPath) -> (r: Option<SourceStatus>)
    ensures
        precheck_spec(source, *path, r),
{
    let errors = error_messages_exec(&path.issues);
    if errors.len() > 0 {
        return Some(
            SourceStatus {
                source,
                status: SourceScanStatus::Error,
                path: path.path.clone(),
                message: Some(join_strings(&errors, " ")),
            },
        );
    }
    let p = match &path.path {
        Some(p) => p,
        None => {
            return Some(
                SourceStatus {
                    source,
                    status: SourceScanStatus::Error,
                    path: None,
                    message: Some(folder_text(source, 0).to_owned()),
                },
            );
        },
    };
    if !path.exists {
        return Some(
            SourceStatus {
                source,
                status: SourceScanStatus::Missing,
                path: Some(p.clone()),
                message: Some(folder_text(source, 1).to_owned()),
            },
        );
    }
    if !path.is_directory {
        return Some(
            SourceStatus {
                source,
                status: SourceScanStatus::Error,
                path: Some(p.clone()),
                message: Some(folder_text(source, 2).to_owned()),
            },
        );
    }
    None
}

/// The message of a source's scan warnings: their count, the word, and the
/// warnings joined; none without warnings.
pub open spec fn warning_message(source: ModelSource, warnings: Seq<Seq<char>>) -> Option<Seq<char>> {
    if warnings.len() == 0 {
        None
    } else {
        Some(
            decimal(warnings.len()) + folder_texts(source).3 + if warnings.len() == 1 {
                "warning"@
            } else {
                "warnings"@
            } + ": "@ + join_spec(warnings, " "@),
        )
    }
}

/// The outcome of scanning a folder source at `path`: its models with an
/// `Ok` status (carrying the warnings), or the error.
pub fn folder_scan(
    source: ModelSource,
    path: &str,
    result: Result<(Vec<LocalModel>, Vec<String>), String>,
) -> (r: SourceScan)
    ensures
        match result {
            Ok((models, warnings)) => r matches SourceScan::Models { scanned_models, status } && scanned_models
                == models && status.source == source && status.status == SourceScanStatus::Succeeded
                && opt_str(status.path) == Some(path@) && opt_str(status.message)
                == warning_message(source, strs(warnings@)),
            Err(message) => r matches SourceScan::Status(status) && status.source == source
                && status.status == SourceScanStatus::Error && opt_str(status.path) == Some(path@)
                && status.message == Some(message),
        },
{
    match result {
        Ok((models, warnings)) => {
            let message = if warnings.len() == 0 {
                None
            } else {
                let count = decimal_string(warnings.len() as u64);
                let word = if warnings.len() == 1 {
                    "warning"
                } else {
                    "warnings"
                };
                let head = concat3(count.as_str(), folder_text(source, 3), word);
                let joined = join_strings(&warnings, " ");
                Some(concat3(head.as_str(), ": ", joined.as_str()))
            };
            SourceScan::Models {
                scanned_models: models,
                status: SourceStatus {
                    source,
                    status: SourceScanStatus::Succeeded,
                    path: Some(path.to_owned()),
                    message,
                },
            }
        },
        Err(message) => SourceScan::Status(
            SourceStatus {
                source,
                status: SourceScanStatus::Error,
                path: Some(path.to_owned()),
                message: Some(message),
            },
        ),
    }
}

/// The outcome of reading Ollama: its models, or a status that says it is
/// not running (`Disabled`) or why it failed.
pub fn ollama_scan(result: Result<OllamaScanReport, OllamaScanError>) -> (r: SourceScan)
    ensures
        match result {
            Ok(report) => r matches SourceScan::Models { scanned_models, status } && scanned_models
                == report.models && status.source == ModelSource::Ollama && status.status
                == SourceScanStatus::Succeeded && opt_str(status.path) == Some(OLLAMA_BASE_URL@)
                && status.message is None,
            Err(e) => r matches SourceScan::Status(status) && status.source == ModelSource::Ollama
                && status.status == (if e == OllamaScanError::NotRunning {
                SourceScanStatus::Disabled
            } else {
                SourceScanStatus::Error
            }) && opt_str(status.path) == Some(OLLAMA_BASE_URL@) && opt_str(status.message)
                == Some(ollama_error_message(e)),
        },
{
    match result {
        Ok(report) => SourceScan::Models {
            scanned_models: report.models,
            status: SourceStatus {
                source: ModelSource::Ollama,
                status: SourceScanStatus::Succeeded,
                path: Some(OLLAMA_BASE_URL.to_owned()),
                message: None,
            },
        },
        Err(error) => {
            let not_running = match error {
                OllamaScanError::NotRunning => true,
                _ => false,
            };
            SourceScan::Status(
                SourceStatus {
                    source: ModelSource::Ollama,
                    status: if not_running {
                        SourceScanStatus::Disabled
                    } else {
                        SourceScanStatus::Error
                    },
                    path: Some(OLLAMA_BASE_URL.to_owned()),
                    message: Some(error.user_message()),
                },
            )
        },
    }
}

/// The models a scan found.
pub open spec fn scan_models_of(s: SourceScan) -> Seq<LocalModel> {
    match s {
        SourceScan::Models { scanned_models, .. } => scanned_models@,
        SourceScan::Status(_) => Seq::empty(),
    }
}

/// The status a scan reports.
pub open spec fn scan_status_of(s: SourceScan) -> SourceStatus {
    match s {
        SourceScan::Models { status, .. } => status,
        SourceScan::Status(status) => status,
    }
}

/// The sum of the known sizes of models.
pub open spec fn models_size(ms: Seq<LocalModel>) -> nat
    decreases ms.len(),
{
    if ms.len() == 0 {
        0
    } else {
        models_size(ms.drop_last()) + match ms.last().size_bytes {
            Some(s) => s as nat,
            None => 0,
        }
    }
}

proof fn lemma_models_size_prefix(ms: Seq<LocalModel>, n: int)
    requires
        0 <= n <= ms.len(),
    ensures
        models_size(ms.take(n)) <= models_size(ms),
    decreases ms.len(),
{
    if n < ms.len() {
        assert(ms.drop_last().take(n) =~= ms.take(n));
        lemma_models_size_prefix(ms.drop_last(), n);
    } else {
        assert(ms.take(n) =~= ms);
    }
}

fn total_size(models: &Vec<LocalModel>) -> (r: u64)
    requires
        models_size(models@) <= u64::MAX,
    ensures
        r == models_size(models@),
{
    let mut total: u64 = 0;
    let mut i: usize = 0;
    while i < models.len()
        invariant
            0 <= i <= models@.len(),
            total == models_size(models@.take(i as int)),
            models_size(models@) <= u64::MAX,
        decreases models.len() - i,
    {
        assert(models@.take(i + 1).drop_last() =~= models@.take(i as int));
        proof {
            lemma_models_size_prefix(models@, i + 1);
        }
        match models[i].size_bytes {
            Some(s) => {
                total = total + s;
            },
            None => {},
        }
        i += 1;
    }
    assert(models@.take(models@.len() as int) =~= models@);
    total
}

/// Combines the three sources' scans: all models in source order (Hugging
/// Face, LM Studio, Ollama), the three statuses, and the total of the known
/// sizes when it is not zero.
pub fn combine_scans(hf: SourceScan, lm: SourceScan, ollama: SourceScan, scanned_at: String) -> (r:
    ScanResult)
    requires
        models_size(scan_models_of(hf) + scan_models_of(lm) + scan_models_of(ollama)) <= u64::MAX,
    ensures
        r.models@ == scan_models_of(hf) + scan_models_of(lm) + scan_models_of(ollama),
        r.source_statuses@ == seq![scan_status_of(hf), scan_status_of(lm), scan_status_of(ollama)],
        r.total_size_bytes == if models_size(r.models@) > 0 {
            Some(models_size(r.models@) as u64)
        } else {
            None
        },
        r.scanned_at == scanned_at,
{
    let mut models: Vec<LocalModel> = Vec::new();
    let mut statuses: Vec<SourceStatus> = Vec::new();
    let ghost all = scan_models_of(hf) + scan_models_of(lm) + scan_models_of(ollama);
    match hf {
        SourceScan::Models { mut scanned_models, status } => {
            models.append(&mut scanned_models);
            statuses.push(status);
        },
        SourceScan::Status(status) => statuses.push(status),
    }
    match lm {
        SourceScan::Models { mut scanned_models, status } => {
            models.append(&mut scanned_models);
            statuses.push(status);
        },
        SourceScan::Status(status) => statuses.push(status),
    }
    match ollama {
        SourceScan::Models { mut scanned_models, status } => {
            models.append(&mut scanned_models);
            statuses.push(status);
        },
        SourceScan::Status(status) => statuses.push(status),
    }
    assert(models@ =~= all);
    let total = total_size(&models);
    ScanResult {
        models,
        source_statuses: statuses,
        total_size_bytes: if total > 0 {
            Some(total)
        } else {
            None
        },
        scanned_at,
    }
}

} // verus!
