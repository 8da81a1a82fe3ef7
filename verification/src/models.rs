//! The library's data model: settings, resolved paths, scanned models,
//! Hugging Face search and download records.
use vstd::prelude::*;

use crate::text::{
    CharClass, chars_of, replace_chars, string_of, to_lowercase_str, trim, trim_chars,
    trim_class, trim_end_chars, trim_end_class, lowercase, replace_char, push_char, is_ascii_text, ascii_lower,
    in_class, trim_start_class, lemma_trim_start_suffix, lemma_trim_end_prefix, lemma_trim_idempotent,
};



verus! {

/// User settings as stored on disk.
#[derive(Debug, Clone, PartialEq, Eq)]
pub struct AppSettings {
    pub hf_cache_path: Option<String>,
    pub lm_studio_models_path: Option<String>,
    pub custom_model_folders: Vec<String>,
    pub hf_token_stored: bool,
    pub minimize_to_tray: bool,
    pub start_on_login: bool,
    pub enable_symlink_attempt: bool,
    pub scan_on_startup: bool,
    pub delete_uses_recycle_bin: bool,
    pub telemetry_enabled: bool,
}

/// A partial settings update; absent fields leave the setting unchanged.
#[derive(Debug, Clone)]
pub struct AppSettingsPatch {
    pub hf_cache_path: NullableStringPatch,
    pub lm_studio_models_path: NullableStringPatch,
    pub custom_model_folders: Option<Vec<String>>,
    pub hf_token_stored: Option<bool>,
    pub minimize_to_tray: Option<bool>,
    pub start_on_login: Option<bool>,
    pub enable_symlink_attempt: Option<bool>,
    pub scan_on_startup: Option<bool>,
    pub delete_uses_recycle_bin: Option<bool>,
    pub telemetry_enabled: Option<bool>,
}

/// A path field of a patch: omitted, explicitly cleared, or set.
#[derive(Debug, Clone, PartialEq, Eq)]
pub enum NullableStringPatch {
    Missing,
    Clear,
    Assign(String),
}

#[derive(Debug, Clone, PartialEq, Eq)]
pub struct ResolvedPaths {
    pub hf_cache: ResolvedPath,
    pub lm_studio_models: ResolvedPath,
    pub custom_model_folders: Vec<ResolvedPath>,
}

#[derive(Debug, Clone, PartialEq, Eq)]
pub struct ResolvedPath {
    pub label: String,
    pub path: Option<String>,
    pub source: PathResolutionSource,
    pub source_label: String,
    pub exists: bool,
    pub is_directory: bool,
    pub issues: Vec<PathIssue>,
}

#[derive(Debug, Clone, Copy, PartialEq, Eq, Structural)]
pub enum PathResolutionSource {
    UserSetting,
    Environment,
    Default,
    Unresolved,
}

#[derive(Debug, Clone, PartialEq, Eq)]
pub struct PathIssue {
    pub severity: PathIssueSeverity,
    pub code: String,
    pub message: String,
}

#[derive(Debug, Clone, Copy, PartialEq, Eq, Structural)]
pub enum PathIssueSeverity {
    Warning,
    Error,
}

#[derive(Debug, Clone, PartialEq, Eq)]
pub struct ScanResult {
    pub models: Vec<LocalModel>,
    pub source_statuses: Vec<SourceStatus>,
    pub total_size_bytes: Option<u64>,
    pub scanned_at: String,
}

#[derive(Debug, Clone, PartialEq, Eq)]
pub struct LocalModel {
    pub id: String,
    pub display_name: String,
    pub provider: Option<String>,
    pub repo_id: Option<String>,
    pub source: ModelSource,
    pub path: Option<String>,
    pub size_bytes: Option<u64>,
    pub format: Option<ModelFormat>,
    pub quantization: Option<String>,
    pub parameter_size: Option<String>,
    pub last_modified: Option<String>,
    pub files: Vec<LocalModelFile>,
    pub runtime_status: Option<ModelRuntimeStatus>,
    pub technical: LocalModelTechnical,
    pub capabilities: LocalModelCapabilities,
    pub provenance: LocalModelProvenance,
    pub metadata_sources: Vec<String>,
}

#[derive(Debug, Clone, PartialEq, Eq)]
pub struct LocalModelTechnical {
    pub architecture: Option<String>,
    pub family: Option<String>,
    pub families: Vec<String>,
    pub parameter_count: Option<u64>,
    pub parameter_size: Option<String>,
    pub context_length: Option<u64>,
    pub max_context_length: Option<u64>,
    pub embedding_length: Option<u64>,
    pub block_count: Option<u64>,
    pub attention_heads: Option<u64>,
    pub kv_heads: Option<u64>,
    pub vocab_size: Option<u64>,
    pub tokenizer: Option<String>,
}

#[derive(Debug, Clone, PartialEq, Eq)]
pub struct LocalModelCapabilities {
    pub vision: Option<bool>,
    pub embedding: Option<bool>,
    pub tool_use: Option<bool>,
    pub reasoning: Option<bool>,
}

#[derive(Debug, Clone, PartialEq, Eq)]
pub struct LocalModelProvenance {
    pub digest: Option<String>,
    pub snapshot_sha: Option<String>,
    pub license: Option<String>,
    pub tags: Vec<String>,
    pub languages: Vec<String>,
    pub datasets: Vec<String>,
    pub base_models: Vec<String>,
    pub repo_url: Option<String>,
}

#[derive(Debug, Clone, PartialEq, Eq)]
pub struct LocalModelFile {
    pub name: String,
    pub path: String,
    pub size_bytes: Option<u64>,
    pub format: ModelFormat,
    pub quantization: Option<String>,
}

#[derive(Debug, Clone, Copy, PartialEq, Eq, Structural)]
pub enum ModelSource {
    HuggingFace,
    LmStudio,
    Ollama,
    Custom,
}

#[derive(Debug, Clone, Copy, PartialEq, Eq, Structural)]
pub enum ModelFormat {
    Gguf,
    Safetensors,
    Onnx,
    Mlx,
    Unknown,
}

#[derive(Debug, Clone, Copy, PartialEq, Eq, Structural)]
pub enum ModelRuntimeStatus {
    Available,
    Loaded,
    Running,
    Unknown,
}

#[derive(Debug, Clone, PartialEq, Eq)]
pub struct SourceStatus {
    pub source: ModelSource,
    pub status: SourceScanStatus,
    pub path: Option<String>,
    pub message: Option<String>,
}

#[derive(Debug, Clone, Copy, PartialEq, Eq, Structural)]
pub enum SourceScanStatus {
    Succeeded,
    Missing,
    Error,
    Disabled,
}

#[derive(Debug, Clone, PartialEq, Eq)]
pub struct OllamaRuntimeStatus {
    pub running: bool,
    pub base_url: String,
    pub models: Vec<LocalModel>,
    pub error: Option<String>,
    pub checked_at: String,
}

#[derive(Debug, Clone, PartialEq, Eq)]
pub struct SystemInfo {
    pub cpu: Option<CpuInfo>,
    pub memory: MemoryInfo,
    pub gpus: Vec<GpuInfo>,
    pub hf_cache_disk: Option<DiskInfo>,
    pub collected_at: String,
}

#[derive(Debug, Clone, PartialEq, Eq)]
pub struct CpuInfo {
    pub name: String,
    pub physical_cores: Option<usize>,
    pub logical_cores: usize,
}

#[derive(Debug, Clone, PartialEq, Eq)]
pub struct MemoryInfo {
    pub total_bytes: u64,
    pub available_bytes: u64,
}

#[derive(Debug, Clone, PartialEq, Eq)]
pub struct GpuInfo {
    pub name: String,
    pub memory_bytes: Option<u64>,
}

#[derive(Debug, Clone, PartialEq, Eq)]
pub struct DiskInfo {
    pub name: Option<String>,
    pub mount_point: String,
    pub total_bytes: u64,
    pub available_bytes: u64,
}

#[derive(Debug, Clone, PartialEq, Eq)]
pub struct HfSearchInput {
    pub query: String,
    pub filters: HfSearchFilters,
    pub sort: HfSearchSort,
    pub limit: Option<u32>,
}

#[derive(Debug, Clone, PartialEq, Eq)]
pub struct HfSearchFilters {
    pub text_generation: bool,
    pub gguf: bool,
    pub safetensors: bool,
}

#[derive(Debug, Clone, Copy, PartialEq, Eq, Structural)]
pub enum HfSearchSort {
    Downloads,
    Likes,
    LastModified,
}

#[derive(Debug, Clone, PartialEq, Eq)]
pub struct HfSearchResult {
    pub query: String,
    pub models: Vec<HfModelSummary>,
}

#[derive(Debug, Clone, PartialEq, Eq)]
pub struct HfModelSummary {
    pub repo_id: String,
    pub author: Option<String>,
    pub tags: Vec<String>,
    pub downloads: Option<u64>,
    pub likes: Option<u64>,
    pub last_modified: Option<String>,
    pub gated: bool,
    pub private: bool,
    pub pipeline_tag: Option<String>,
    pub file_summary: HfFileSummary,
}

#[derive(Debug, Clone, Copy, PartialEq, Eq, Structural)]
pub struct HfFileSummary {
    pub total_files: usize,
    pub gguf_files: usize,
    pub safetensors_files: usize,
    pub config_files: usize,
    pub tokenizer_files: usize,
}

#[derive(Debug, Clone, PartialEq, Eq)]
pub struct HfModelDetails {
    pub repo_id: String,
    pub revision: String,
    pub commit_sha: Option<String>,
    pub gated: bool,
    pub private: bool,
    pub files: Vec<HfModelFile>,
    pub total_bytes: Option<u64>,
}

#[derive(Debug, Clone, PartialEq, Eq)]
pub struct HfModelFile {
    pub path: String,
    pub size_bytes: Option<u64>,
    pub format: ModelFormat,
    pub extension: Option<String>,
    pub lfs: bool,
    pub oid: Option<String>,
    pub blob_id: Option<String>,
    pub likely_default: bool,
}

#[derive(Debug, Clone, PartialEq, Eq)]
pub struct StartDownloadInput {
    pub repo_id: String,
    pub revision: Option<String>,
    pub commit_sha: Option<String>,
    pub files: Vec<HfModelFile>,
    pub destination: DownloadDestination,
}

#[derive(Debug, Clone, Copy, PartialEq, Eq, Structural)]
pub enum DownloadDestination {
    Staging,
}

#[derive(Debug, Clone, PartialEq, Eq)]
pub struct DownloadJob {
    pub id: String,
    pub repo_id: String,
    pub revision: String,
    pub commit_sha: Option<String>,
    pub destination: DownloadDestination,
    pub status: DownloadStatus,
    pub files: Vec<DownloadFileProgress>,
    pub total_bytes: Option<u64>,
    pub downloaded_bytes: u64,
    pub error: Option<String>,
    pub installed_at: Option<String>,
    pub cache_path: Option<String>,
    pub snapshot_path: Option<String>,
    pub install_error: Option<String>,
    pub install_warnings: Vec<String>,
    pub created_at: String,
    pub updated_at: String,
}

#[derive(Debug, Clone, PartialEq, Eq)]
pub struct DownloadFileProgress {
    pub path: String,
    pub size_bytes: Option<u64>,
    pub downloaded_bytes: u64,
    pub staged_path: Option<String>,
    pub blob_id: Option<String>,
    pub error: Option<String>,
}

#[derive(Debug, Clone, Copy, PartialEq, Eq, Structural)]
pub enum DownloadStatus {
    Queued,
    Downloading,
    Paused,
    Completed,
    Failed,
    Cancelled,
}

#[derive(Debug, Clone, PartialEq, Eq)]
pub struct InstallDownloadResult {
    pub job_id: String,
    pub repo_id: String,
    pub cache_path: String,
    pub snapshot_path: String,
    pub installed_files: Vec<InstalledDownloadFile>,
    pub warnings: Vec<String>,
}

#[derive(Debug, Clone, PartialEq, Eq)]
pub struct InstalledDownloadFile {
    pub path: String,
    pub blob_path: String,
    pub snapshot_path: String,
    pub linked: bool,
}

#[derive(Debug, Clone, PartialEq, Eq)]
pub struct DeleteModelInput {
    pub id: String,
    pub source: ModelSource,
    pub path: Option<String>,
    pub repo_id: Option<String>,
}

#[derive(Debug, Clone, PartialEq, Eq)]
pub struct DeleteResult {
    pub deleted_path: String,
    pub used_recycle_bin: bool,
    pub message: String,
}

pub open spec fn opt_str(o: Option<String>) -> Option<Seq<char>> {
    match o {
        Some(s) => Some(s@),
        None => None,
    }
}

pub open spec fn strs(v: Seq<String>) -> Seq<Seq<char>> {
    v.map_values(|s: String| s@)
}

/// A path as typed by the user with surrounding blanks and quotes removed.
pub open spec fn trim_path_spec(s: Seq<char>) -> Seq<char> {
    trim(trim_class(trim(s), CharClass::Quote))
}

/// The sanitized form of one path: trimmed, and absent when nothing is left.
pub open spec fn sanitize_path_spec(s: Seq<char>) -> Option<Seq<char>> {
    let t = trim_path_spec(s);
    if t.len() == 0 {
        None
    } else {
        Some(t)
    }
}

pub open spec fn sanitize_optional_spec(o: Option<Seq<char>>) -> Option<Seq<char>> {
    match o {
        Some(s) => sanitize_path_spec(s),
        None => None,
    }
}

/// The key under which two folder paths count as the same folder: slashes
/// turned into backslashes, lowercased, trailing backslashes dropped, and a
/// bare drive (`c:`) given back its root backslash.
pub open spec fn path_key(s: Seq<char>) -> Seq<char> {
    let t = trim_end_class(
        lowercase(replace_char(s, '/', '\\')),
        CharClass::Exactly('\\'),
    );
    if t.len() > 0 && t.last() == ':' {
        t.push('\\')
    } else {
        t
    }
}

/// Folder paths that differ only in the case of ASCII letters and in the
/// slash they use (`/` or `\`) count as the same folder.
pub proof fn ascii_case_and_slashes_do_not_matter(a: Seq<char>, b: Seq<char>)
    requires
        is_ascii_text(a),
        is_ascii_text(b),
        ascii_lower(replace_char(a, '/', '\\')) == ascii_lower(replace_char(b, '/', '\\')),
    ensures
        path_key(a) == path_key(b),
{
    let ra = replace_char(a, '/', '\\');
    let rb = replace_char(b, '/', '\\');
    assert(is_ascii_text(ra)) by {
        assert forall|i: int| 0 <= i < ra.len() implies (#[trigger] ra[i] as u32) < 128 by {
            assert((a[i] as u32) < 128);
        }
    }
    assert(is_ascii_text(rb)) by {
        assert forall|i: int| 0 <= i < rb.len() implies (#[trigger] rb[i] as u32) < 128 by {
            assert((b[i] as u32) < 128);
        }
    }
    assert(lowercase(ra) == lowercase(rb));
}

/// The sanitized list of the first `n` paths: blank entries dropped, and an
/// entry dropped when an earlier kept entry has the same key.
pub open spec fn sanitize_list_prefix(paths: Seq<Seq<char>>, n: nat) -> Seq<Seq<char>>
    decreases n,
{
    if n == 0 || n > paths.len() {
        Seq::empty()
    } else {
        let prev = sanitize_list_prefix(paths, (n - 1) as nat);
        match sanitize_path_spec(paths[n - 1]) {
            None => prev,
            Some(t) => if prev.map_values(|k: Seq<char>| path_key(k)).contains(path_key(t)) {
                prev
            } else {
                prev.push(t)
            },
        }
    }
}

pub open spec fn sanitize_list_spec(paths: Seq<Seq<char>>) -> Seq<Seq<char>> {
    sanitize_list_prefix(paths, paths.len())
}

impl Default for AppSettings {
    /// Privacy- and safety-first defaults: no token, no telemetry, deletes go
    /// through the Recycle Bin.
    fn default() -> (r: Self)
        ensures
            r.hf_cache_path is None,
            r.lm_studio_models_path is None,
            r.custom_model_folders@.len() == 0,
            !r.hf_token_stored,
            r.minimize_to_tray,
            !r.start_on_login,
            r.enable_symlink_attempt,
            r.scan_on_startup,
            r.delete_uses_recycle_bin,
            !r.telemetry_enabled,
    {
        AppSettings {
            hf_cache_path: None,
            lm_studio_models_path: None,
            custom_model_folders: Vec::new(),
            hf_token_stored: false,
            minimize_to_tray: true,
            start_on_login: false,
            enable_symlink_attempt: true,
            scan_on_startup: true,
            delete_uses_recycle_bin: true,
            telemetry_enabled: false,
        }
    }
}

impl Default for AppSettingsPatch {
    /// A patch that changes nothing.
    fn default() -> (r: Self)
        ensures
            r.hf_cache_path is Missing,
            r.lm_studio_models_path is Missing,
            r.custom_model_folders is None,
            r.hf_token_stored is None,
            r.minimize_to_tray is None,
            r.start_on_login is None,
            r.enable_symlink_attempt is None,
            r.scan_on_startup is None,
            r.delete_uses_recycle_bin is None,
            r.telemetry_enabled is None,
    {
        AppSettingsPatch {
            hf_cache_path: NullableStringPatch::Missing,
            lm_studio_models_path: NullableStringPatch::Missing,
            custom_model_folders: None,
            hf_token_stored: None,
            minimize_to_tray: None,
            start_on_login: None,
            enable_symlink_attempt: None,
            scan_on_startup: None,
            delete_uses_recycle_bin: None,
            telemetry_enabled: None,
        }
    }
}

/// The value a path setting takes after a patch field is applied.
pub open spec fn patched_path(old: Option<Seq<char>>, patch: NullableStringPatch) -> Option<
    Seq<char>,
> {
    match patch {
        NullableStringPatch::Missing => old,
        NullableStringPatch::Clear => None,
        NullableStringPatch::Assign(p) => sanitize_path_spec(p@),
    }
}

pub open spec fn patched_flag(old: bool, patch: Option<bool>) -> bool {
    match patch {
        Some(v) => v,
        None => old,
    }
}

/// `r` is `old` with `patch` applied: path fields sanitized, omitted
/// fields unchanged, and the privacy invariants in force.
pub open spec fn patched_into(r: AppSettings, old: AppSettings, patch: AppSettingsPatch) -> bool {
    &&& opt_str(r.hf_cache_path) == patched_path(opt_str(old.hf_cache_path), patch.hf_cache_path)
    &&& opt_str(r.lm_studio_models_path) == patched_path(
        opt_str(old.lm_studio_models_path),
        patch.lm_studio_models_path,
    )
    &&& strs(r.custom_model_folders@) == match patch.custom_model_folders {
        Some(f) => sanitize_list_spec(strs(f@)),
        None => strs(old.custom_model_folders@),
    }
    &&& r.minimize_to_tray == patched_flag(old.minimize_to_tray, patch.minimize_to_tray)
    &&& r.start_on_login == patched_flag(old.start_on_login, patch.start_on_login)
    &&& r.enable_symlink_attempt == patched_flag(old.enable_symlink_attempt, patch.enable_symlink_attempt)
    &&& r.scan_on_startup == patched_flag(old.scan_on_startup, patch.scan_on_startup)
    &&& privacy_safe(r)
}

/// The settings invariants that no stored value may break: no token is
/// recorded, telemetry is off, and deletion goes through the Recycle Bin.
pub open spec fn privacy_safe(s: AppSettings) -> bool {
    &&& !s.hf_token_stored
    &&& !s.telemetry_enabled
    &&& s.delete_uses_recycle_bin
}

/// `r` is `s` with every path sanitized, the other preferences kept, and
/// the privacy invariants restored.
pub open spec fn sanitized_from(r: AppSettings, s: AppSettings) -> bool {
    &&& opt_str(r.hf_cache_path) == sanitize_optional_spec(opt_str(s.hf_cache_path))
    &&& opt_str(r.lm_studio_models_path) == sanitize_optional_spec(opt_str(s.lm_studio_models_path))
    &&& strs(r.custom_model_folders@) == sanitize_list_spec(strs(s.custom_model_folders@))
    &&& r.minimize_to_tray == s.minimize_to_tray
    &&& r.start_on_login == s.start_on_login
    &&& r.enable_symlink_attempt == s.enable_symlink_attempt
    &&& r.scan_on_startup == s.scan_on_startup
    &&& privacy_safe(r)
}

/// The text holds no quote character.
pub open spec fn no_quotes(s: Seq<char>) -> bool {
    forall|i: int| 0 <= i < s.len() ==> !in_class(CharClass::Quote, #[trigger] s[i])
}

/// A text without quotes is sanitized by trimming its blanks, and what
/// that leaves is already sanitized.
proof fn lemma_sanitize_plain(s: Seq<char>)
    requires
        no_quotes(s),
    ensures
        trim_path_spec(s) == trim(s),
        no_quotes(trim(s)),
        trim_path_spec(trim(s)) == trim(s),
{
    let a = trim_start_class(s, CharClass::Whitespace);
    lemma_trim_start_suffix(s, CharClass::Whitespace);
    lemma_trim_end_prefix(a, CharClass::Whitespace);
    let t = trim(s);
    assert(no_quotes(t)) by {
        assert forall|i: int| 0 <= i < t.len() implies !in_class(CharClass::Quote, #[trigger] t[i]) by {
            assert(t[i] == a[i]);
            assert(a[i] == s[s.len() - a.len() + i]);
        }
    }
    lemma_no_quotes_untrimmed(t);
    lemma_trim_idempotent(s, CharClass::Whitespace);
}

proof fn lemma_no_quotes_untrimmed(t: Seq<char>)
    requires
        no_quotes(t),
    ensures
        trim_class(t, CharClass::Quote) == t,
{
    assert(trim_start_class(t, CharClass::Quote) == t) by {
        if t.len() > 0 {
            assert(!in_class(CharClass::Quote, t[0]));
        }
    }
    assert(trim_end_class(t, CharClass::Quote) == t) by {
        if t.len() > 0 {
            assert(!in_class(CharClass::Quote, t.last()));
        }
    }
}

/// An optional path without quotes sanitizes once and for all.
proof fn lemma_sanitize_optional_twice(o: Option<Seq<char>>)
    requires
        o matches Some(s) ==> no_quotes(s),
    ensures
        sanitize_optional_spec(sanitize_optional_spec(o)) == sanitize_optional_spec(o),
{
    if let Some(s) = o {
        lemma_sanitize_plain(s);
    }
}

/// Every entry of a sanitized list of quote-free paths is sanitized and
/// quote-free, and no two entries share a key.
proof fn lemma_sanitized_list_entries(paths: Seq<Seq<char>>, n: nat)
    requires
        forall|i: int| 0 <= i < paths.len() ==> no_quotes(#[trigger] paths[i]),
    ensures
        forall|i: int|
            0 <= i < sanitize_list_prefix(paths, n).len() ==> no_quotes(
                #[trigger] sanitize_list_prefix(paths, n)[i],
            ) && sanitize_path_spec(sanitize_list_prefix(paths, n)[i]) == Some(
                sanitize_list_prefix(paths, n)[i],
            ),
        forall|i: int, j: int|
            0 <= i < j < sanitize_list_prefix(paths, n).len() ==> path_key(
                #[trigger] sanitize_list_prefix(paths, n)[i],
            ) != path_key(#[trigger] sanitize_list_prefix(paths, n)[j]),
    decreases n,
{
    if n > 0 && n <= paths.len() {
        lemma_sanitized_list_entries(paths, (n - 1) as nat);
        let prev = sanitize_list_prefix(paths, (n - 1) as nat);
        let x = paths[n - 1];
        assert(no_quotes(x));
        lemma_sanitize_plain(x);
        let r = sanitize_list_prefix(paths, n);
        if let Some(t) = sanitize_path_spec(x) {
            let keys = prev.map_values(|k: Seq<char>| path_key(k));
            if !keys.contains(path_key(t)) {
                assert(r == prev.push(t));
                assert forall|i: int, j: int| 0 <= i < j < r.len() implies path_key(#[trigger] r[i]) != path_key(
                    #[trigger] r[j],
                ) by {
                    if j == prev.len() {
                        assert(keys[i] == path_key(prev[i]));
                    } else {
                        assert(r[i] == prev[i] && r[j] == prev[j]);
                    }
                }
                assert forall|i: int| 0 <= i < r.len() implies no_quotes(#[trigger] r[i])
                    && sanitize_path_spec(r[i]) == Some(r[i]) by {
                    if i < prev.len() {
                        assert(r[i] == prev[i]);
                    }
                }
            }
        }
    }
}

/// A list whose entries are sanitized and have distinct keys is kept as
/// it is.
proof fn lemma_sanitize_list_keeps(list: Seq<Seq<char>>, n: nat)
    requires
        n <= list.len(),
        forall|i: int| 0 <= i < list.len() ==> sanitize_path_spec(#[trigger] list[i]) == Some(list[i]),
        forall|i: int, j: int|
            0 <= i < j < list.len() ==> path_key(#[trigger] list[i]) != path_key(#[trigger] list[j]),
    ensures
        sanitize_list_prefix(list, n) == list.take(n as int),
    decreases n,
{
    if n > 0 {
        lemma_sanitize_list_keeps(list, (n - 1) as nat);
        let prev = list.take(n - 1);
        let keys = prev.map_values(|k: Seq<char>| path_key(k));
        assert(sanitize_path_spec(list[n - 1]) == Some(list[n - 1]));
        if keys.contains(path_key(list[n - 1])) {
            let j = choose|j: int| 0 <= j < keys.len() && keys[j] == path_key(list[n - 1]);
            assert(keys[j] == path_key(list[j]));
        }
        assert(list.take(n as int) == prev.push(list[n - 1]));
    } else {
        assert(list.take(0) =~= Seq::<Seq<char>>::empty());
    }
}

/// Sanitizing settings a second time changes nothing, when their paths
/// hold no quote characters.
pub proof fn sanitizing_twice_is_sanitizing_once(s: AppSettings, once: AppSettings, twice: AppSettings)
    requires
        sanitized_from(once, s),
        sanitized_from(twice, once),
        s.hf_cache_path matches Some(p) ==> no_quotes(p@),
        s.lm_studio_models_path matches Some(p) ==> no_quotes(p@),
        forall|i: int| 0 <= i < s.custom_model_folders@.len() ==> no_quotes(
            (#[trigger] s.custom_model_folders@[i])@,
        ),
    ensures
        opt_str(twice.hf_cache_path) == opt_str(once.hf_cache_path),
        opt_str(twice.lm_studio_models_path) == opt_str(once.lm_studio_models_path),
        strs(twice.custom_model_folders@) == strs(once.custom_model_folders@),
        twice.hf_token_stored == once.hf_token_stored,
        twice.minimize_to_tray == once.minimize_to_tray,
        twice.start_on_login == once.start_on_login,
        twice.enable_symlink_attempt == once.enable_symlink_attempt,
        twice.scan_on_startup == once.scan_on_startup,
        twice.delete_uses_recycle_bin == once.delete_uses_recycle_bin,
        twice.telemetry_enabled == once.telemetry_enabled,
{
    lemma_sanitize_optional_twice(opt_str(s.hf_cache_path));
    lemma_sanitize_optional_twice(opt_str(s.lm_studio_models_path));
    let folders = strs(s.custom_model_folders@);
    assert forall|i: int| 0 <= i < folders.len() implies no_quotes(#[trigger] folders[i]) by {
        assert(folders[i] == s.custom_model_folders@[i]@);
    }
    lemma_sanitized_list_entries(folders, folders.len());
    let list = sanitize_list_spec(folders);
    lemma_sanitize_list_keeps(list, list.len());
    assert(list.take(list.len() as int) =~= list);
}

impl AppSettings {
    /// The settings with every path sanitized and the privacy invariants
    /// restored.
    pub fn sanitized(self) -> (r: Self)
        ensures
            sanitized_from(r, self),
    {
        let mut s = self;
        let hf = match &s.hf_cache_path {
            Some(p) => sanitize_optional_path(Some(p.as_str())),
            None => None,
        };
        let lm = match &s.lm_studio_models_path {
            Some(p) => sanitize_optional_path(Some(p.as_str())),
            None => None,
        };
        let folders = sanitize_path_list(s.custom_model_folders.as_slice());
        s.hf_cache_path = hf;
        s.lm_studio_models_path = lm;
        s.custom_model_folders = folders;
        s.hf_token_stored = false;
        s.delete_uses_recycle_bin = true;
        s.telemetry_enabled = false;
        s
    }

    /// Applies a partial update. Path fields are sanitized, omitted fields
    /// keep their value, and the privacy invariants hold afterwards whatever
    /// the patch asked for.
    pub fn apply_patch(&mut self, patch: AppSettingsPatch)
        ensures
            opt_str(final(self).hf_cache_path) == patched_path(
                opt_str(old(self).hf_cache_path),
                patch.hf_cache_path,
            ),
            opt_str(final(self).lm_studio_models_path) == patched_path(
                opt_str(old(self).lm_studio_models_path),
                patch.lm_studio_models_path,
            ),
            strs(final(self).custom_model_folders@) == match patch.custom_model_folders {
                Some(f) => sanitize_list_spec(strs(f@)),
                None => strs(old(self).custom_model_folders@),
            },
            final(self).minimize_to_tray == patched_flag(
                old(self).minimize_to_tray,
                patch.minimize_to_tray,
            ),
            final(self).start_on_login == patched_flag(old(self).start_on_login, patch.start_on_login),
            final(self).enable_symlink_attempt == patched_flag(
                old(self).enable_symlink_attempt,
                patch.enable_symlink_attempt,
            ),
            final(self).scan_on_startup == patched_flag(
                old(self).scan_on_startup,
                patch.scan_on_startup,
            ),
            privacy_safe(*final(self)),
            patched_into(*final(self), *old(self), patch),
    {
        let AppSettingsPatch {
            hf_cache_path,
            lm_studio_models_path,
            custom_model_folders,
            hf_token_stored: _,
            minimize_to_tray,
            start_on_login,
            enable_symlink_attempt,
            scan_on_startup,
            delete_uses_recycle_bin: _,
            telemetry_enabled: _,
        } = patch;
        let hf = patch_path(self.hf_cache_path.take(), hf_cache_path);
        self.hf_cache_path = hf;
        let lm = patch_path(self.lm_studio_models_path.take(), lm_studio_models_path);
        self.lm_studio_models_path = lm;
        if let Some(folders) = custom_model_folders {
            self.custom_model_folders = sanitize_path_list(folders.as_slice());
        }
        self.minimize_to_tray = patch_flag(self.minimize_to_tray, minimize_to_tray);
        self.start_on_login = patch_flag(self.start_on_login, start_on_login);
        self.enable_symlink_attempt = patch_flag(self.enable_symlink_attempt, enable_symlink_attempt);
        self.scan_on_startup = patch_flag(self.scan_on_startup, scan_on_startup);
        // A requested change of the token, telemetry or Recycle Bin settings
        // is accepted and then overridden by the privacy invariants.
        self.hf_token_stored = false;
        self.delete_uses_recycle_bin = true;
        self.telemetry_enabled = false;
    }
}

fn patch_path(current: Option<String>, patch: NullableStringPatch) -> (r: Option<String>)
    ensures
        opt_str(r) == patched_path(opt_str(current), patch),
{
    match patch {
        NullableStringPatch::Missing => current,
        NullableStringPatch::Clear => None,
        NullableStringPatch::Assign(path) => sanitize_optional_path(Some(path.as_str())),
    }
}

fn patch_flag(current: bool, patch: Option<bool>) -> (r: bool)
    ensures
        r == patched_flag(current, patch),
{
    match patch {
        Some(v) => v,
        None => current,
    }
}

impl PathIssue {
    /// A non-blocking issue.
    pub fn warning(code: &str, message: &str) -> (r: Self)
        ensures
            r.severity == PathIssueSeverity::Warning,
            r.code@ == code@,
            r.message@ == message@,
    {
        PathIssue { severity: PathIssueSeverity::Warning, code: code.to_owned(), message: message.to_owned() }
    }

    /// An issue that blocks scanning and saving.
    pub fn error(code: &str, message: &str) -> (r: Self)
        ensures
            r.severity == PathIssueSeverity::Error,
            r.code@ == code@,
            r.message@ == message@,
    {
        PathIssue { severity: PathIssueSeverity::Error, code: code.to_owned(), message: message.to_owned() }
    }
}

/// Nothing is known about the model's technical details.
pub open spec fn technical_empty(r: LocalModelTechnical) -> bool {
    &&& r.architecture is None
    &&& r.family is None
    &&& r.families@.len() == 0
    &&& r.parameter_count is None
    &&& r.parameter_size is None
    &&& r.context_length is None
    &&& r.max_context_length is None
    &&& r.embedding_length is None
    &&& r.block_count is None
    &&& r.attention_heads is None
    &&& r.kv_heads is None
    &&& r.vocab_size is None
    &&& r.tokenizer is None
}

/// Nothing is known about the model's capabilities.
pub open spec fn capabilities_empty(r: LocalModelCapabilities) -> bool {
    &&& r.vision is None
    &&& r.embedding is None
    &&& r.tool_use is None
    &&& r.reasoning is None
}

/// Nothing is known about the model's provenance.
pub open spec fn provenance_empty(r: LocalModelProvenance) -> bool {
    &&& r.digest is None
    &&& r.snapshot_sha is None
    &&& r.license is None
    &&& r.tags@.len() == 0
    &&& r.languages@.len() == 0
    &&& r.datasets@.len() == 0
    &&& r.base_models@.len() == 0
    &&& r.repo_url is None
}

impl Default for LocalModelTechnical {
    fn default() -> (r: Self)
        ensures
            technical_empty(r),
    {
        LocalModelTechnical {
            architecture: None,
            family: None,
            families: Vec::new(),
            parameter_count: None,
            parameter_size: None,
            context_length: None,
            max_context_length: None,
            embedding_length: None,
            block_count: None,
            attention_heads: None,
            kv_heads: None,
            vocab_size: None,
            tokenizer: None,
        }
    }
}

impl Default for LocalModelCapabilities {
    fn default() -> (r: Self)
        ensures
            capabilities_empty(r),
    {
        LocalModelCapabilities { vision: None, embedding: None, tool_use: None, reasoning: None }
    }
}

impl Default for LocalModelProvenance {
    fn default() -> (r: Self)
        ensures
            provenance_empty(r),
    {
        LocalModelProvenance {
            digest: None,
            snapshot_sha: None,
            license: None,
            tags: Vec::new(),
            languages: Vec::new(),
            datasets: Vec::new(),
            base_models: Vec::new(),
            repo_url: None,
        }
    }
}

fn trim_path_input(value: &str) -> (r: String)
    ensures
        r@ == trim_path_spec(value@),
{
    let v = chars_of(value);
    let a = trim_chars(v.as_slice(), CharClass::Whitespace);
    let b = trim_chars(a.as_slice(), CharClass::Quote);
    let c = trim_chars(b.as_slice(), CharClass::Whitespace);
    string_of(c.as_slice())
}

/// Trims a user-typed path; blank input gives `None`.
pub fn sanitize_optional_path(value: Option<&str>) -> (r: Option<String>)
    ensures
        opt_str(r) == sanitize_optional_spec(
            match value {
                Some(s) => Some(s@),
                None => None,
            },
        ),
{
    match value {
        None => None,
        Some(path) => {
            let trimmed = trim_path_input(path);
            if trimmed.as_str().is_empty() {
                None
            } else {
                Some(trimmed)
            }
        },
    }
}

/// The comparison key of a folder path (see `path_key`).
fn normalize_path_key(path: &str) -> (r: String)
    ensures
        r@ == path_key(path@),
{
    let v = chars_of(path);
    let replaced = replace_chars(v.as_slice(), '/', '\\');
    let replaced_str = string_of(replaced.as_slice());
    let lowered = to_lowercase_str(replaced_str.as_str());
    let lv = chars_of(lowered.as_str());
    let t = trim_end_chars(lv.as_slice(), CharClass::Exactly('\\'));
    let mut key = string_of(t.as_slice());
    if t.len() > 0 && t[t.len() - 1] == ':' {
        push_char(&mut key, '\\');
    }
    key
}

fn contains_string(v: &Vec<String>, s: &String) -> (r: bool)
    ensures
        r == strs(v@).contains(s@),
{
    let mut i: usize = 0;
    while i < v.len()
        invariant
            0 <= i <= v.len(),
            forall|j: int| 0 <= j < i ==> v@[j]@ != s@,
        decreases v.len() - i,
    {
        if v[i] == *s {
            assert(strs(v@)[i as int] == s@);
            return true;
        }
        i += 1;
    }
    proof {
        if strs(v@).contains(s@) {
            let j = choose|j: int| 0 <= j < strs(v@).len() && strs(v@)[j] == s@;
            assert(v@[j]@ == s@);
        }
    }
    false
}

/// Sanitizes every path of a list, dropping blanks and later duplicates
/// (compared by `path_key`, so case and slash style do not matter).
pub fn sanitize_path_list(paths: &[String]) -> (r: Vec<String>)
    ensures
        strs(r@) == sanitize_list_spec(strs(paths@)),
        forall|i: int| 0 <= i < r@.len() ==> r@[i]@.len() > 0,
        forall|i: int, j: int|
            0 <= i < j < r@.len() ==> path_key(#[trigger] r@[i]@) != path_key(#[trigger] r@[j]@),
{
    let mut sanitized: Vec<String> = Vec::new();
    let mut seen: Vec<String> = Vec::new();
    let ghost input = strs(paths@);
    let mut i: usize = 0;
    while i < paths.len()
        invariant
            0 <= i <= paths.len(),
            input == strs(paths@),
            strs(sanitized@) == sanitize_list_prefix(input, i as nat),
            strs(seen@) == strs(sanitized@).map_values(|k: Seq<char>| path_key(k)),
            forall|a: int| 0 <= a < sanitized@.len() ==> sanitized@[a]@.len() > 0,
            forall|a: int, b: int|
                0 <= a < b < sanitized@.len() ==> path_key(#[trigger] sanitized@[a]@) != path_key(
                    #[trigger] sanitized@[b]@,
                ),
        decreases paths.len() - i,
    {
        let ghost prev = strs(sanitized@);
        assert(input[i as int] == paths@[i as int]@);
        let maybe = sanitize_optional_path(Some(paths[i].as_str()));
        match maybe {
            None => {},
            Some(path) => {
                let key = normalize_path_key(path.as_str());
                if !contains_string(&seen, &key) {
                    proof {
                        assert forall|a: int| 0 <= a < sanitized@.len() implies path_key(
                            sanitized@[a]@,
                        ) != path_key(path@) by {
                            assert(strs(seen@)[a] == path_key(sanitized@[a]@));
                        }
                    }
                    let ghost old_seen = strs(seen@);
                    let ghost pv = path@;
                    seen.push(key);
                    sanitized.push(path);
                    assert(strs(seen@) =~= old_seen.push(path_key(pv)));
                    assert(strs(sanitized@) =~= prev.push(pv));
                    assert(strs(sanitized@).map_values(|k: Seq<char>| path_key(k))
                        =~= prev.map_values(|k: Seq<char>| path_key(k)).push(path_key(pv)));
                }
            },
        }
        i += 1;
    }
    sanitized
}

} // verus!
