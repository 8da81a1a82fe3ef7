//! The Hugging Face hub API: what a search or a details request asks, how
//! its failures read, and the records built from its answers.
use vstd::prelude::*;

use crate::json::JsonValue;
use crate::models::{
    HfFileSummary, HfModelDetails, HfModelFile, HfModelSummary, HfSearchInput, HfSearchResult,
    HfSearchSort, ModelFormat, opt_str, strs,
};
use crate::scanner::lmstudio::{clean_spec, clean_string};
use crate::text::{
    CharClass, ascii_lower, chars_of, concat2, contains_chars, contains_seq, decimal,
    decimal_string, ends_with, ends_with_chars, in_class, last_in_class, lower_chars, rfind_class,
    occurs_at, slice_chars, string_of, trim, trim_str,
};

verus! {

/// The address of the Hugging Face hub.
pub const HF_BASE_URL: &'static str = "https://huggingface.co";

/// How many results a search asks for unless told otherwise.
pub const DEFAULT_SEARCH_LIMIT: u32 = 25;

/// The most results a search asks for.
pub const MAX_SEARCH_LIMIT: u32 = 50;

/// Why a Hugging Face request failed.
#[derive(Debug, PartialEq, Eq)]
pub enum HfApiError {
    /// The request was refused before it was sent; the message says why.
    InvalidInput(String),
    /// The request failed; the error's text.
    Request(String),
    /// The hub answered with an unexpected HTTP status.
    ApiStatus(u16),
    /// The answer could not be decoded; the error's text.
    Decode(String),
}

/// The message shown for a failure.
pub open spec fn hf_error_message(e: HfApiError) -> Seq<char> {
    match e {
        HfApiError::InvalidInput(m) => m@,
        HfApiError::Request(m) => "Could not search Hugging Face models: "@ + m@,
        HfApiError::ApiStatus(s) => "Hugging Face search returned an unexpected HTTP status: "@
            + decimal(s as nat) + "."@,
        HfApiError::Decode(m) => "Hugging Face returned search data ModelHub could not read: "@
            + m@,
    }
}

impl HfApiError {
    /// The message shown to the user for this failure.
    pub fn user_message(&self) -> (r: String)
        ensures
            r@ == hf_error_message(*self),
    {
        match self {
            HfApiError::InvalidInput(message) => message.clone(),
            HfApiError::Request(message) => concat2(
                "Could not search Hugging Face models: ",
                message.as_str(),
            ),
            HfApiError::ApiStatus(status) => {
                let digits = decimal_string(*status as u64);
                crate::text::concat3(
                    "Hugging Face search returned an unexpected HTTP status: ",
                    digits.as_str(),
                    ".",
                )
            },
            HfApiError::Decode(message) => concat2(
                "Hugging Face returned search data ModelHub could not read: ",
                message.as_str(),
            ),
        }
    }
}

/// The search text, trimmed; a blank one is refused.
pub fn normalized_query(query: &str) -> (r: Result<String, HfApiError>)
    ensures
        match r {
            Ok(q) => trim(query@).len() > 0 && q@ == trim(query@),
            Err(e) => trim(query@).len() == 0 && e == HfApiError::InvalidInput(e->InvalidInput_0)
                && e->InvalidInput_0@ == "Enter a model name or keyword before searching Hugging Face."@,
        },
{
    let q = trim_str(query);
    if q.as_str().is_empty() {
        Err(
            HfApiError::InvalidInput(
                "Enter a model name or keyword before searching Hugging Face.".to_owned(),
            ),
        )
    } else {
        Ok(q)
    }
}

/// The repository id, trimmed; one without `/`, or with `..`, is refused.
pub fn normalized_repo_id(repo_id: &str) -> (r: Result<String, HfApiError>)
    ensures
        ({
            let t = trim(repo_id@);
            let bad = t.len() == 0 || !contains_seq(t, "/"@) || contains_seq(t, ".."@);
            match r {
                Ok(q) => !bad && q@ == t,
                Err(e) => bad && e == HfApiError::InvalidInput(e->InvalidInput_0)
                    && e->InvalidInput_0@ == "Choose a valid Hugging Face repo before loading model details."@,
            }
        }),
{
    let t = trim_str(repo_id);
    let v = chars_of(t.as_str());
    let slash = chars_of("/");
    let dots = chars_of("..");
    if v.len() == 0 || !contains_chars(v.as_slice(), slash.as_slice()) || contains_chars(
        v.as_slice(),
        dots.as_slice(),
    ) {
        Err(
            HfApiError::InvalidInput(
                "Choose a valid Hugging Face repo before loading model details.".to_owned(),
            ),
        )
    } else {
        Ok(t)
    }
}

/// The hub's name for a search order.
pub open spec fn sort_param_spec(sort: HfSearchSort) -> Seq<char> {
    match sort {
        HfSearchSort::Downloads => "downloads"@,
        HfSearchSort::Likes => "likes"@,
        HfSearchSort::LastModified => "lastModified"@,
    }
}

/// The hub's name for a search order.
pub fn sort_param(sort: &HfSearchSort) -> (r: &'static str)
    ensures
        r@ == sort_param_spec(*sort),
{
    match sort {
        HfSearchSort::Downloads => "downloads",
        HfSearchSort::Likes => "likes",
        HfSearchSort::LastModified => "lastModified",
    }
}

/// How many results a search asks for: the requested number (25 unless
/// given), kept between 1 and 50.
pub fn search_limit(limit: Option<u32>) -> (r: u32)
    ensures
        r == ({
            let l = match limit {
                Some(l) => l,
                None => DEFAULT_SEARCH_LIMIT,
            };
            if l < 1 {
                1
            } else if l > MAX_SEARCH_LIMIT {
                MAX_SEARCH_LIMIT
            } else {
                l
            }
        }),
        r == search_limit_spec(limit),
{
    let l = match limit {
        Some(l) => l,
        None => DEFAULT_SEARCH_LIMIT,
    };
    if l < 1 {
        1
    } else if l > MAX_SEARCH_LIMIT {
        MAX_SEARCH_LIMIT
    } else {
        l
    }
}

/// The query parameters of a search: the text, the limit, the fixed
/// `full` and `direction`, the order, and one parameter per chosen filter.
pub open spec fn search_pairs_spec(input: HfSearchInput, query: Seq<char>, limit: u32) -> Seq<
    (Seq<char>, Seq<char>),
> {
    seq![
        ("search"@, query),
        ("limit"@, decimal(limit as nat)),
        ("full"@, "false"@),
        ("sort"@, sort_param_spec(input.sort)),
        ("direction"@, "-1"@),
    ] + if input.filters.text_generation {
        seq![("pipeline_tag"@, "text-generation"@)]
    } else {
        Seq::empty()
    } + if input.filters.gguf {
        seq![("filter"@, "gguf"@)]
    } else {
        Seq::empty()
    } + if input.filters.safetensors {
        seq![("filter"@, "safetensors"@)]
    } else {
        Seq::empty()
    }
}

/// The views of a list of text pairs.
pub open spec fn pairs_view(v: Seq<(String, String)>) -> Seq<(Seq<char>, Seq<char>)> {
    v.map_values(|p: (String, String)| (p.0@, p.1@))
}

fn push_pair(v: &mut Vec<(String, String)>, a: &str, b: &str)
    ensures
        pairs_view(final(v)@) == pairs_view(old(v)@).push((a@, b@)),
{
    let ghost before = pairs_view(v@);
    v.push((a.to_owned(), b.to_owned()));
    assert(pairs_view(v@) =~= before.push((a@, b@)));
}

/// The query parameters of a search for `query`.
pub fn search_query_pairs(input: &HfSearchInput, query: &str) -> (r: Vec<(String, String)>)
    ensures
        pairs_view(r@) == search_pairs_spec(*input, query@, search_limit_spec(input.limit)),
{
    let limit = search_limit(input.limit);
    let digits = decimal_string(limit as u64);
    let mut v: Vec<(String, String)> = Vec::new();
    push_pair(&mut v, "search", query);
    push_pair(&mut v, "limit", digits.as_str());
    push_pair(&mut v, "full", "false");
    push_pair(&mut v, "sort", sort_param(&input.sort));
    push_pair(&mut v, "direction", "-1");
    let ghost base = pairs_view(v@);
    if input.filters.text_generation {
        push_pair(&mut v, "pipeline_tag", "text-generation");
    }
    let ghost after_tg = pairs_view(v@);
    if input.filters.gguf {
        push_pair(&mut v, "filter", "gguf");
    }
    let ghost after_gguf = pairs_view(v@);
    if input.filters.safetensors {
        push_pair(&mut v, "filter", "safetensors");
    }
    assert(pairs_view(v@) =~= search_pairs_spec(*input, query@, limit));
    v
}

/// The limit `search_limit` gives.
pub open spec fn search_limit_spec(limit: Option<u32>) -> u32 {
    let l = match limit {
        Some(l) => l,
        None => DEFAULT_SEARCH_LIMIT,
    };
    if l < 1 {
        1
    } else if l > MAX_SEARCH_LIMIT {
        MAX_SEARCH_LIMIT
    } else {
        l
    }
}

/// Sorts a failed request: a timeout or a refused connection means the hub
/// cannot be reached; anything else is reported with its text.
pub fn classify_request_error(is_timeout: bool, is_connect: bool, message: String) -> (r: HfApiError)
    ensures
        if is_timeout || is_connect {
            r == HfApiError::Request(r->Request_0) && r->Request_0@
                == "Hugging Face is not reachable right now."@
        } else {
            r == HfApiError::Request(message)
        },
{
    if is_timeout || is_connect {
        HfApiError::Request("Hugging Face is not reachable right now.".to_owned())
    } else {
        HfApiError::Request(message)
    }
}

/// The error for an unsuccessful answer to a details request: no access
/// (401 or 403), no such repository (404), or the status itself.
pub fn details_status_error(status: u16) -> (r: HfApiError)
    ensures
        if status == 401 || status == 403 {
            r == HfApiError::Request(r->Request_0) && r->Request_0@
                == "This model is gated or private. Token support is not enabled for downloads yet."@
        } else if status == 404 {
            r == HfApiError::Request(r->Request_0) && r->Request_0@
                == "Hugging Face could not find that model repo."@
        } else {
            r == HfApiError::ApiStatus(status)
        },
{
    if status == 401 || status == 403 {
        HfApiError::Request(
            "This model is gated or private. Token support is not enabled for downloads yet.".to_owned(),
        )
    } else if status == 404 {
        HfApiError::Request("Hugging Face could not find that model repo.".to_owned())
    } else {
        HfApiError::ApiStatus(status)
    }
}

/// Git LFS details of a repository file, as the hub gives them.
pub struct HfApiLfs {
    pub oid: Option<String>,
    pub size: Option<u64>,
}

/// A file of a repository, as the hub lists it.
pub struct HfApiSibling {
    pub rfilename: Option<String>,
    pub size: Option<u64>,
    pub blob_id: Option<String>,
    pub lfs: Option<HfApiLfs>,
}

/// A repository, as the hub describes it.
pub struct HfApiModel {
    pub id: Option<String>,
    pub model_id: Option<String>,
    pub author: Option<String>,
    pub tags: Vec<String>,
    pub downloads: Option<u64>,
    pub likes: Option<u64>,
    pub last_modified: Option<String>,
    pub gated: Option<JsonValue>,
    pub private: Option<bool>,
    pub pipeline_tag: Option<String>,
    pub sha: Option<String>,
    pub siblings: Vec<HfApiSibling>,
}

/// Whether the hub's `gated` value says the repository is gated: `true`,
/// or a non-blank text other than `false`.
pub open spec fn gated_spec(v: Option<JsonValue>) -> bool {
    match v {
        Some(JsonValue::Bool(b)) => b,
        Some(JsonValue::String(s)) => trim(s@).len() > 0 && s@ != "false"@,
        _ => false,
    }
}

/// Whether the hub's `gated` value says the repository is gated.
pub fn value_is_gated(value: Option<&JsonValue>) -> (r: bool)
    ensures
        r == gated_spec(
            match value {
                Some(v) => Some(*v),
                None => None,
            },
        ),
{
    match value {
        Some(JsonValue::Bool(b)) => *b,
        Some(JsonValue::String(s)) => {
            let t = trim_str(s.as_str());
            let v = chars_of(s.as_str());
            let f = chars_of("false");
            !t.as_str().is_empty() && !crate::text::chars_eq(v.as_slice(), f.as_slice())
        },
        _ => false,
    }
}

/// The extension of a file path: the text after its last `.`, lowercased,
/// unless blank.
pub open spec fn file_extension_spec(path: Seq<char>) -> Option<Seq<char>> {
    if exists|i: int| last_in_class(path, CharClass::Exactly('.'), i) {
        let i = choose|i: int| last_in_class(path, CharClass::Exactly('.'), i);
        clean_spec(Some(ascii_lower(path.subrange(i + 1, path.len() as int))))
    } else {
        None
    }
}

/// The extension of a file path.
pub fn file_extension(path: &str) -> (r: Option<String>)
    ensures
        opt_str(r) == file_extension_spec(path@),
{
    let v = chars_of(path);
    match rfind_class(v.as_slice(), CharClass::Exactly('.')) {
        Some(i) => {
            proof {
                let k = choose|k: int| last_in_class(v@, CharClass::Exactly('.'), k);
                if k < i {
                    assert(!in_class(CharClass::Exactly('.'), v@[i as int]));
                } else if i < k {
                    assert(!in_class(CharClass::Exactly('.'), v@[k]));
                }
            }
            assert(i < v.len());
            let tail = slice_chars(v.as_slice(), i + 1, v.len());
            let lower = lower_chars(tail.as_slice());
            clean_string(Some(string_of(lower.as_slice())))
        },
        None => {
            assert(!exists|k: int| last_in_class(v@, CharClass::Exactly('.'), k));
            None
        },
    }
}

/// The format a file path's ending names (without ASCII case).
pub open spec fn format_from_path_spec(path: Seq<char>) -> ModelFormat {
    let l = ascii_lower(path);
    if ends_with(l, ".gguf"@) {
        ModelFormat::Gguf
    } else if ends_with(l, ".safetensors"@) {
        ModelFormat::Safetensors
    } else if ends_with(l, ".onnx"@) {
        ModelFormat::Onnx
    } else if ends_with(l, ".mlx"@) {
        ModelFormat::Mlx
    } else {
        ModelFormat::Unknown
    }
}

fn ends_with_lit(v: &[char], lit: &str) -> (r: bool)
    ensures
        r == ends_with(v@, lit@),
{
    let l = chars_of(lit);
    ends_with_chars(v, l.as_slice())
}

fn contains_lit(v: &[char], lit: &str) -> (r: bool)
    ensures
        r == contains_seq(v@, lit@),
{
    let l = chars_of(lit);
    contains_chars(v, l.as_slice())
}

/// The format a file path's ending names.
pub fn format_from_path(path: &str) -> (r: ModelFormat)
    ensures
        r == format_from_path_spec(path@),
{
    let l = lower_chars(chars_of(path).as_slice());
    if ends_with_lit(l.as_slice(), ".gguf") {
        ModelFormat::Gguf
    } else if ends_with_lit(l.as_slice(), ".safetensors") {
        ModelFormat::Safetensors
    } else if ends_with_lit(l.as_slice(), ".onnx") {
        ModelFormat::Onnx
    } else if ends_with_lit(l.as_slice(), ".mlx") {
        ModelFormat::Mlx
    } else {
        ModelFormat::Unknown
    }
}

/// A file most downloads want: a GGUF file, a configuration, or a
/// tokenizer file.
pub open spec fn likely_default_spec(path: Seq<char>, format: ModelFormat) -> bool {
    let l = ascii_lower(path);
    format == ModelFormat::Gguf || ends_with(l, "config.json"@) || contains_seq(l, "tokenizer"@)
        || ends_with(l, "tokenizer.model"@)
}

/// Whether most downloads want the file.
pub fn is_likely_default_file(path: &str, format: &ModelFormat) -> (r: bool)
    ensures
        r == likely_default_spec(path@, *format),
{
    let l = lower_chars(chars_of(path).as_slice());
    *format == ModelFormat::Gguf || ends_with_lit(l.as_slice(), "config.json") || contains_lit(
        l.as_slice(),
        "tokenizer",
    ) || ends_with_lit(l.as_slice(), "tokenizer.model")
}

fn clean_opt(value: &Option<String>) -> (r: Option<String>)
    ensures
        opt_str(r) == clean_spec(opt_str(*value)),
{
    match value {
        Some(v) => clean_string(Some(v.clone())),
        None => None,
    }
}

/// The download record of a repository file the hub lists; one without a
/// name gives none.
pub open spec fn sibling_file_spec(f: HfModelFile, s: HfApiSibling) -> bool {
    let path = clean_spec(opt_str(s.rfilename)).unwrap();
    let oid = match s.lfs {
        Some(l) => clean_spec(opt_str(l.oid)),
        None => None,
    };
    &&& f.path@ == path
    &&& f.size_bytes == match s.size {
        Some(n) => Some(n),
        None => match s.lfs {
            Some(l) => l.size,
            None => None,
        },
    }
    &&& f.format == format_from_path_spec(path)
    &&& opt_str(f.extension) == file_extension_spec(path)
    &&& f.lfs == oid is Some
    &&& opt_str(f.oid) == oid
    &&& opt_str(f.blob_id) == match oid {
        Some(o) => Some(o),
        None => clean_spec(opt_str(s.blob_id)),
    }
    &&& f.likely_default == likely_default_spec(path, format_from_path_spec(path))
}

impl HfModelFile {
    /// The download record of a repository file the hub lists, unless it
    /// has no name.
    pub fn from_api_sibling(sibling: HfApiSibling) -> (r: Option<HfModelFile>)
        ensures
            match r {
                Some(f) => clean_spec(opt_str(sibling.rfilename)) is Some && sibling_file_spec(f, sibling),
                None => clean_spec(opt_str(sibling.rfilename)) is None,
            },
    {
        let path = match clean_opt(&sibling.rfilename) {
            Some(p) => p,
            None => {
                return None;
            },
        };
        let extension = file_extension(path.as_str());
        let format = format_from_path(path.as_str());
        let size_bytes = match sibling.size {
            Some(n) => Some(n),
            None => match &sibling.lfs {
                Some(l) => l.size,
                None => None,
            },
        };
        let oid = match &sibling.lfs {
            Some(l) => clean_opt(&l.oid),
            None => None,
        };
        let blob_id = match &oid {
            Some(o) => Some(o.clone()),
            None => clean_opt(&sibling.blob_id),
        };
        let likely_default = is_likely_default_file(path.as_str(), &format);
        Some(
            HfModelFile {
                likely_default,
                path,
                size_bytes,
                format,
                extension,
                lfs: oid.is_some(),
                oid,
                blob_id,
            },
        )
    }
}

/// The counts of a file listing: named files, GGUF and safetensors files,
/// configurations and tokenizer files (names compared without ASCII case).
pub open spec fn summary_spec(siblings: Seq<HfApiSibling>) -> HfFileSummary
    decreases siblings.len(),
{
    if siblings.len() == 0 {
        HfFileSummary {
            total_files: 0,
            gguf_files: 0,
            safetensors_files: 0,
            config_files: 0,
            tokenizer_files: 0,
        }
    } else {
        let s = summary_spec(siblings.drop_last());
        match siblings.last().rfilename {
            Some(name) => {
                let l = ascii_lower(name@);
                HfFileSummary {
                    total_files: (s.total_files + 1) as usize,
                    gguf_files: (s.gguf_files + if ends_with(l, ".gguf"@) {
                        1int
                    } else {
                        0int
                    }) as usize,
                    safetensors_files: (s.safetensors_files + if ends_with(l, ".safetensors"@) {
                        1int
                    } else {
                        0int
                    }) as usize,
                    config_files: (s.config_files + if ends_with(l, "config.json"@) {
                        1int
                    } else {
                        0int
                    }) as usize,
                    tokenizer_files: (s.tokenizer_files + if contains_seq(l, "tokenizer"@) {
                        1int
                    } else {
                        0int
                    }) as usize,
                }
            },
            None => s,
        }
    }
}

proof fn lemma_summary_bounded(siblings: Seq<HfApiSibling>)
    requires
        siblings.len() <= usize::MAX,
    ensures
        summary_spec(siblings).total_files <= siblings.len(),
        summary_spec(siblings).gguf_files <= summary_spec(siblings).total_files,
        summary_spec(siblings).safetensors_files <= summary_spec(siblings).total_files,
        summary_spec(siblings).config_files <= summary_spec(siblings).total_files,
        summary_spec(siblings).tokenizer_files <= summary_spec(siblings).total_files,
    decreases siblings.len(),
{
    if siblings.len() > 0 {
        lemma_summary_bounded(siblings.drop_last());
    }
}

/// Counts the kinds of files a listing holds.
pub fn summarize_files(siblings: &Vec<HfApiSibling>) -> (r: HfFileSummary)
    ensures
        r == summary_spec(siblings@),
{
    let mut summary = HfFileSummary {
        total_files: 0,
        gguf_files: 0,
        safetensors_files: 0,
        config_files: 0,
        tokenizer_files: 0,
    };
    let mut i: usize = 0;
    while i < siblings.len()
        invariant
            0 <= i <= siblings@.len(),
            summary == summary_spec(siblings@.take(i as int)),
        decreases siblings.len() - i,
    {
        assert(siblings@.take(i + 1).drop_last() =~= siblings@.take(i as int));
        proof {
            lemma_summary_bounded(siblings@.take(i as int));
        }
        match &siblings[i].rfilename {
            Some(name) => {
                let l = lower_chars(chars_of(name.as_str()).as_slice());
                summary.total_files = summary.total_files + 1;
                if ends_with_lit(l.as_slice(), ".gguf") {
                    summary.gguf_files = summary.gguf_files + 1;
                }
                if ends_with_lit(l.as_slice(), ".safetensors") {
                    summary.safetensors_files = summary.safetensors_files + 1;
                }
                if ends_with_lit(l.as_slice(), "config.json") {
                    summary.config_files = summary.config_files + 1;
                }
                if contains_lit(l.as_slice(), "tokenizer") {
                    summary.tokenizer_files = summary.tokenizer_files + 1;
                }
            },
            None => {},
        }
        i += 1;
    }
    assert(siblings@.take(siblings@.len() as int) =~= siblings@);
    summary
}

/// The repository id the hub gives: its `modelId` if present, else its
/// `id`, unless blank.
pub open spec fn api_repo_id(m: HfApiModel) -> Option<Seq<char>> {
    clean_spec(
        match m.model_id {
            Some(x) => Some(x@),
            None => opt_str(m.id),
        },
    )
}

fn api_repo_id_exec(m: &HfApiModel) -> (r: Option<String>)
    ensures
        opt_str(r) == api_repo_id(*m),
{
    match &m.model_id {
        Some(x) => clean_string(Some(x.clone())),
        None => clean_opt(&m.id),
    }
}

/// The search result record of a repository the hub describes; one
/// without an id gives none.
pub open spec fn summary_of_spec(r: HfModelSummary, m: HfApiModel) -> bool {
    &&& opt_str(Some(r.repo_id)) == api_repo_id(m)
    &&& opt_str(r.author) == clean_spec(opt_str(m.author))
    &&& r.tags == m.tags
    &&& r.downloads == m.downloads
    &&& r.likes == m.likes
    &&& opt_str(r.last_modified) == clean_spec(opt_str(m.last_modified))
    &&& r.gated == gated_spec(m.gated)
    &&& r.private == match m.private {
        Some(b) => b,
        None => false,
    }
    &&& opt_str(r.pipeline_tag) == clean_spec(opt_str(m.pipeline_tag))
    &&& r.file_summary == summary_spec(m.siblings@)
}

impl HfModelSummary {
    /// The search result record of a repository, unless it has no id.
    pub fn from_api_model(model: HfApiModel) -> (r: Option<HfModelSummary>)
        ensures
            match r {
                Some(s) => api_repo_id(model) is Some && summary_of_spec(s, model),
                None => api_repo_id(model) is None,
            },
    {
        let repo_id = match api_repo_id_exec(&model) {
            Some(r) => r,
            None => {
                return None;
            },
        };
        let file_summary = summarize_files(&model.siblings);
        let gated = value_is_gated(
            match &model.gated {
                Some(g) => Some(g),
                None => None,
            },
        );
        let author = clean_opt(&model.author);
        let last_modified = clean_opt(&model.last_modified);
        let pipeline_tag = clean_opt(&model.pipeline_tag);
        Some(
            HfModelSummary {
                repo_id,
                author,
                tags: model.tags,
                downloads: model.downloads,
                likes: model.likes,
                last_modified,
                gated,
                private: match model.private {
                    Some(b) => b,
                    None => false,
                },
                pipeline_tag,
                file_summary,
            },
        )
    }
}

/// The repositories that have an id, in order.
pub open spec fn named_api_models(ms: Seq<HfApiModel>) -> Seq<HfApiModel>
    decreases ms.len(),
{
    if ms.len() == 0 {
        Seq::empty()
    } else {
        named_api_models(ms.drop_last()) + if api_repo_id(ms.last()) is Some {
            seq![ms.last()]
        } else {
            Seq::empty()
        }
    }
}

/// The result of a search for `query`: a record for each repository with
/// an id, in the hub's order.
pub fn search_result_from(query: &str, models: Vec<HfApiModel>) -> (r: HfSearchResult)
    ensures
        r.query@ == query@,
        r.models@.len() == named_api_models(models@).len(),
        forall|i: int|
            0 <= i < r.models@.len() ==> summary_of_spec(#[trigger] r.models@[i], named_api_models(models@)[i]),
{
    let ghost orig = models@;
    let mut rest = models;
    assert(orig.len() == rest.len());
    let mut out: Vec<HfModelSummary> = Vec::new();
    let mut k: usize = 0;
    while rest.len() > 0
        invariant
            k + rest@.len() == orig.len(),
            orig.len() <= usize::MAX,
            rest@ == orig.skip(k as int),
            out@.len() == named_api_models(orig.take(k as int)).len(),
            forall|i: int|
                0 <= i < out@.len() ==> summary_of_spec(#[trigger] out@[i], named_api_models(orig.take(k as int))[i]),
        decreases rest.len(),
    {
        let m = rest.remove(0);
        assert(m == orig[k as int]);
        assert(orig.take(k + 1).drop_last() =~= orig.take(k as int));
        assert(orig.take(k + 1).last() == m);
        assert(rest@ =~= orig.skip(k + 1));
        let ghost before = out@;
        let ghost named = named_api_models(orig.take(k as int));
        match HfModelSummary::from_api_model(m) {
            Some(s) => {
                out.push(s);
                assert(named_api_models(orig.take(k + 1)) =~= named.push(orig[k as int]));
                assert(forall|i: int| 0 <= i < before.len() ==> out@[i] == before[i]);
            },
            None => {
                assert(named_api_models(orig.take(k + 1)) =~= named);
            },
        }
        k += 1;
    }
    assert(orig.take(k as int) =~= orig);
    HfSearchResult { query: query.to_owned(), models: out }
}

/// The files of a listing that have a name, in order.
pub open spec fn named_siblings(ss: Seq<HfApiSibling>) -> Seq<HfApiSibling>
    decreases ss.len(),
{
    if ss.len() == 0 {
        Seq::empty()
    } else {
        named_siblings(ss.drop_last()) + if clean_spec(opt_str(ss.last().rfilename)) is Some {
            seq![ss.last()]
        } else {
            Seq::empty()
        }
    }
}

/// The total of the files' sizes, when every size is known.
pub open spec fn files_total(files: Seq<HfModelFile>) -> Option<nat>
    decreases files.len(),
{
    if files.len() == 0 {
        Some(0)
    } else {
        match (files_total(files.drop_last()), files.last().size_bytes) {
            (Some(t), Some(s)) => Some(t + s as nat),
            _ => None,
        }
    }
}

proof fn lemma_files_total_prefix(files: Seq<HfModelFile>, n: int)
    requires
        0 <= n <= files.len(),
    ensures
        files_total(files.take(n)) is None ==> files_total(files) is None,
        files_total(files) is Some ==> files_total(files.take(n)).unwrap() <= files_total(files).unwrap(),
    decreases files.len(),
{
    if n < files.len() {
        assert(files.drop_last().take(n) =~= files.take(n));
        lemma_files_total_prefix(files.drop_last(), n);
    } else {
        assert(files.take(n) =~= files);
    }
}

/// The total of the files' sizes, when every size is known and the total
/// fits in `u64`.
pub fn sum_known_sizes(files: &Vec<HfModelFile>) -> (r: Option<u64>)
    ensures
        r == match files_total(files@) {
            Some(t) => if t <= u64::MAX {
                Some(t as u64)
            } else {
                None
            },
            None => None,
        },
{
    let mut total: u64 = 0;
    let mut i: usize = 0;
    while i < files.len()
        invariant
            0 <= i <= files@.len(),
            files_total(files@.take(i as int)) == Some(total as nat),
        decreases files.len() - i,
    {
        assert(files@.take(i + 1).drop_last() =~= files@.take(i as int));
        proof {
            lemma_files_total_prefix(files@, i + 1);
        }
        match files[i].size_bytes {
            Some(s) => {
                if total > u64::MAX - s {
                    return None;
                }
                total = total + s;
            },
            None => {
                return None;
            },
        }
        i += 1;
    }
    assert(files@.take(files@.len() as int) =~= files@);
    Some(total)
}

/// The details of a repository the hub describes, at `revision`; the id
/// falls back to the one asked for.
pub fn model_details_from(fallback_repo_id: &str, revision: &str, model: HfApiModel) -> (r:
    HfModelDetails)
    ensures
        r.repo_id@ == match api_repo_id(model) {
            Some(id) => id,
            None => fallback_repo_id@,
        },
        r.revision@ == revision@,
        opt_str(r.commit_sha) == clean_spec(opt_str(model.sha)),
        r.gated == gated_spec(model.gated),
        r.private == match model.private {
            Some(b) => b,
            None => false,
        },
        r.files@.len() == named_siblings(model.siblings@).len(),
        forall|i: int|
            0 <= i < r.files@.len() ==> sibling_file_spec(#[trigger] r.files@[i], named_siblings(model.siblings@)[i]),
        r.total_bytes == match files_total(r.files@) {
            Some(t) => if t <= u64::MAX {
                Some(t as u64)
            } else {
                None
            },
            None => None,
        },
{
    let repo_id = match api_repo_id_exec(&model) {
        Some(r) => r,
        None => fallback_repo_id.to_owned(),
    };
    let gated = value_is_gated(
        match &model.gated {
            Some(g) => Some(g),
            None => None,
        },
    );
    let commit_sha = clean_opt(&model.sha);
    let private = match model.private {
        Some(b) => b,
        None => false,
    };
    let ghost orig = model.siblings@;
    let mut rest = model.siblings;
    assert(orig.len() == rest.len());
    let mut files: Vec<HfModelFile> = Vec::new();
    let mut k: usize = 0;
    while rest.len() > 0
        invariant
            k + rest@.len() == orig.len(),
            orig.len() <= usize::MAX,
            rest@ == orig.skip(k as int),
            files@.len() == named_siblings(orig.take(k as int)).len(),
            forall|i: int|
                0 <= i < files@.len() ==> sibling_file_spec(#[trigger] files@[i], named_siblings(orig.take(k as int))[i]),
        decreases rest.len(),
    {
        let s = rest.remove(0);
        assert(s == orig[k as int]);
        assert(orig.take(k + 1).drop_last() =~= orig.take(k as int));
        assert(orig.take(k + 1).last() == s);
        assert(rest@ =~= orig.skip(k + 1));
        let ghost before = files@;
        let ghost named = named_siblings(orig.take(k as int));
        match HfModelFile::from_api_sibling(s) {
            Some(f) => {
                files.push(f);
                assert(named_siblings(orig.take(k + 1)) =~= named.push(orig[k as int]));
                assert(forall|i: int| 0 <= i < before.len() ==> files@[i] == before[i]);
            },
            None => {
                assert(named_siblings(orig.take(k + 1)) =~= named);
            },
        }
        k += 1;
    }
    assert(orig.take(k as int) =~= orig);
    let total_bytes = sum_known_sizes(&files);
    HfModelDetails {
        repo_id,
        revision: revision.to_owned(),
        commit_sha,
        gated,
        private,
        files,
        total_bytes,
    }
}

/// The address that `reqwest::Url` makes of a base address joined with a
/// path, with query parameters appended (or the text of its parse error).
pub uninterp spec fn url_with_query(
    base: Seq<char>,
    path: Seq<char>,
    pairs: Seq<(Seq<char>, Seq<char>)>,
) -> Result<Seq<char>, Seq<char>>;

/// Parses `base` with `reqwest::Url::parse`, joins `path` with `Url::join`,
/// appends the pairs with `query_pairs_mut().extend_pairs`, and gives the
/// address as text; a parse error is given as its text. The contract only
/// names the result: it depends on the arguments alone.
#[verifier::external_body]
fn join_url_with_query(base: &str, path: &str, pairs: &Vec<(String, String)>) -> (r: Result<
    String,
    String,
>)
    ensures
        match r {
            Ok(u) => url_with_query(base@, path@, pairs_view(pairs@)) == Ok::<Seq<char>, Seq<char>>(u@),
            Err(e) => url_with_query(base@, path@, pairs_view(pairs@)) == Err::<Seq<char>, Seq<char>>(e@),
        },
{
    let mut url = reqwest::Url::parse(base).and_then(|b| b.join(path)).map_err(|e| e.to_string())?;
    url.query_pairs_mut().extend_pairs(pairs.iter());
    Ok(url.to_string())
}

/// The address of a search, or the request error when it cannot be built.
pub fn build_search_url(base_url: &str, input: &HfSearchInput, query: &str) -> (r: Result<
    String,
    HfApiError,
>)
    ensures
        match url_with_query(
            base_url@,
            "/api/models"@,
            search_pairs_spec(*input, query@, search_limit_spec(input.limit)),
        ) {
            Ok(u) => r matches Ok(s) && s@ == u,
            Err(e) => r matches Err(HfApiError::Request(m)) && m@ == e,
        },
{
    let pairs = search_query_pairs(input, query);
    match join_url_with_query(base_url, "/api/models", &pairs) {
        Ok(u) => Ok(u),
        Err(e) => Err(HfApiError::Request(e)),
    }
}

/// The query parameters of a details request.
pub open spec fn details_pairs_spec(revision: Seq<char>) -> Seq<(Seq<char>, Seq<char>)> {
    seq![("blobs"@, "true"@), ("revision"@, revision)]
}

/// The address of a details request for a repository at a revision.
pub fn build_details_url(base_url: &str, repo_id: &str, revision: &str) -> (r: Result<
    String,
    HfApiError,
>)
    ensures
        match url_with_query(base_url@, "/api/models/"@ + repo_id@, details_pairs_spec(revision@)) {
            Ok(u) => r matches Ok(s) && s@ == u,
            Err(e) => r matches Err(HfApiError::Request(m)) && m@ == e,
        },
{
    let mut pairs: Vec<(String, String)> = Vec::new();
    push_pair(&mut pairs, "blobs", "true");
    push_pair(&mut pairs, "revision", revision);
    assert(pairs_view(pairs@) =~= details_pairs_spec(revision@));
    let path = concat2("/api/models/", repo_id);
    match join_url_with_query(base_url, path.as_str(), &pairs) {
        Ok(u) => Ok(u),
        Err(e) => Err(HfApiError::Request(e)),
    }
}

/// The revision a details request asks for: the given one, trimmed, else
/// `main`.
pub fn details_revision(revision: Option<String>) -> (r: String)
    ensures
        r@ == match clean_spec(opt_str(revision)) {
            Some(x) => x,
            None => "main"@,
        },
{
    match clean_string(revision) {
        Some(x) => x,
        None => "main".to_owned(),
    }
}

/// A search asks the hub for the order the user chose: the `sort`
/// parameter of its query is `likes` for Likes, `downloads` for Downloads
/// and `lastModified` for LastModified, and two different orders never ask
/// for the same parameter.
pub proof fn search_sorts_by_the_chosen_order(
    input: HfSearchInput,
    other: HfSearchSort,
    query: Seq<char>,
    limit: u32,
)
    ensures
        search_pairs_spec(input, query, limit)[3] == ("sort"@, sort_param_spec(input.sort)),
        input.sort is Likes ==> sort_param_spec(input.sort) == "likes"@,
        input.sort is Downloads ==> sort_param_spec(input.sort) == "downloads"@,
        input.sort is LastModified ==> sort_param_spec(input.sort) == "lastModified"@,
        other != input.sort ==> sort_param_spec(other) != sort_param_spec(input.sort),
{
    reveal_strlit("likes");
    reveal_strlit("downloads");
    reveal_strlit("lastModified");
    assert("likes"@.len() == 5 && "downloads"@.len() == 9 && "lastModified"@.len() == 12);
    assert(sort_param_spec(other).len() != sort_param_spec(input.sort).len() || other
        == input.sort);
}

/// The files most downloads want are every GGUF file, every file whose
/// lowercased path ends with `config.json`, and every file whose lowercased
/// path mentions `tokenizer`, whatever its format; no other file is.
pub proof fn likely_defaults_are_weights_configs_and_tokenizers(path: Seq<char>, format: ModelFormat)
    ensures
        format == ModelFormat::Gguf ==> likely_default_spec(path, format),
        ends_with(ascii_lower(path), "config.json"@) ==> likely_default_spec(path, format),
        contains_seq(ascii_lower(path), "tokenizer"@) ==> likely_default_spec(path, format),
        likely_default_spec(path, format) ==> (format == ModelFormat::Gguf || ends_with(
            ascii_lower(path),
            "config.json"@,
        ) || contains_seq(ascii_lower(path), "tokenizer"@)),
{
    let l = ascii_lower(path);
    if ends_with(l, "tokenizer.model"@) {
        reveal_strlit("tokenizer.model");
        reveal_strlit("tokenizer");
        let i = l.len() - 15;
        assert(l.subrange(i, i + 9) =~= "tokenizer"@) by {
            assert forall|k: int| 0 <= k < 9 implies l.subrange(i, i + 9)[k] == "tokenizer"@[k] by {
                assert(l.subrange(i, i + 9)[k] == l.subrange(i, l.len() as int)[k]);
            }
        }
        assert(occurs_at(l, "tokenizer"@, i));
    }
}

/// Keeps the files that have a name ending, without ASCII case, with
/// `suffix`.
pub open spec fn named_ending(suffix: Seq<char>) -> spec_fn(HfApiSibling) -> bool {
    |s: HfApiSibling| s.rfilename matches Some(n) && ends_with(ascii_lower(n@), suffix)
}

/// Keeps the files that have a name.
pub open spec fn named() -> spec_fn(HfApiSibling) -> bool {
    |s: HfApiSibling| s.rfilename is Some
}

/// Keeps the files whose name mentions `tokenizer`, without ASCII case.
pub open spec fn named_tokenizer() -> spec_fn(HfApiSibling) -> bool {
    |s: HfApiSibling| s.rfilename matches Some(n) && contains_seq(ascii_lower(n@), "tokenizer"@)
}

/// A file summary counts files by name: all named files, those ending in
/// `.gguf`, in `.safetensors` and in `config.json`, and those mentioning
/// `tokenizer`, names compared without ASCII case; files without a name
/// are not counted.
pub proof fn summary_counts_files_by_name(siblings: Seq<HfApiSibling>)
    requires
        siblings.len() <= usize::MAX,
    ensures
        summary_spec(siblings).total_files == siblings.filter(named()).len(),
        summary_spec(siblings).gguf_files == siblings.filter(named_ending(".gguf"@)).len(),
        summary_spec(siblings).safetensors_files == siblings.filter(named_ending(".safetensors"@)).len(),
        summary_spec(siblings).config_files == siblings.filter(named_ending("config.json"@)).len(),
        summary_spec(siblings).tokenizer_files == siblings.filter(named_tokenizer()).len(),
    decreases siblings.len(),
{
    if siblings.len() == 0 {
        reveal(Seq::filter);
    } else {
        let rest = siblings.drop_last();
        let x = siblings.last();
        summary_counts_files_by_name(rest);
        lemma_summary_bounded(siblings);
        lemma_summary_bounded(rest);
        assert(rest.push(x) =~= siblings);
        rest.lemma_filter_len_push(named(), x);
        rest.lemma_filter_len_push(named_ending(".gguf"@), x);
        rest.lemma_filter_len_push(named_ending(".safetensors"@), x);
        rest.lemma_filter_len_push(named_ending("config.json"@), x);
        rest.lemma_filter_len_push(named_tokenizer(), x);
    }
}

/// A search asks for 25 results unless told otherwise, and never for fewer
/// than 1 or more than 50: a requested number in that range is kept, a
/// smaller one becomes 1 and a larger one 50.
pub proof fn search_limit_is_kept_between_one_and_fifty(limit: Option<u32>)
    ensures
        1 <= search_limit_spec(limit) <= 50,
        limit is None ==> search_limit_spec(limit) == 25,
        limit matches Some(l) ==> (1 <= l <= 50 ==> search_limit_spec(limit) == l),
        limit matches Some(l) ==> (l < 1 ==> search_limit_spec(limit) == 1),
        limit matches Some(l) ==> (l > 50 ==> search_limit_spec(limit) == 50),
{
}

/// The format of a hub file follows the end of its name, without ASCII
/// case: `.gguf` is GGUF, `.safetensors` safetensors, `.onnx` ONNX, `.mlx`
/// MLX, and any other name is of unknown format.
pub proof fn file_format_follows_its_extension(path: Seq<char>)
    ensures
        ends_with(ascii_lower(path), ".gguf"@) ==> format_from_path_spec(path) == ModelFormat::Gguf,
        ends_with(ascii_lower(path), ".safetensors"@) ==> format_from_path_spec(path)
            == ModelFormat::Safetensors,
        ends_with(ascii_lower(path), ".onnx"@) ==> format_from_path_spec(path) == ModelFormat::Onnx,
        ends_with(ascii_lower(path), ".mlx"@) ==> format_from_path_spec(path) == ModelFormat::Mlx,
        (!ends_with(ascii_lower(path), ".gguf"@) && !ends_with(ascii_lower(path), ".safetensors"@)
            && !ends_with(ascii_lower(path), ".onnx"@) && !ends_with(ascii_lower(path), ".mlx"@))
            ==> format_from_path_spec(path) == ModelFormat::Unknown,
{
    let l = ascii_lower(path);
    let n = l.len() - 1;
    reveal_strlit(".gguf");
    reveal_strlit(".safetensors");
    reveal_strlit(".onnx");
    reveal_strlit(".mlx");
    if ends_with(l, ".gguf"@) {
        assert(l[n] == l.subrange(l.len() - 5, l.len() as int)[4]);
    }
    if ends_with(l, ".safetensors"@) {
        assert(l[n] == l.subrange(l.len() - 12, l.len() as int)[11]);
    }
    if ends_with(l, ".onnx"@) {
        assert(l[n] == l.subrange(l.len() - 5, l.len() as int)[4]);
        assert(l[n - 1] == l.subrange(l.len() - 5, l.len() as int)[3]);
    }
    if ends_with(l, ".mlx"@) {
        assert(l[n] == l.subrange(l.len() - 4, l.len() as int)[3]);
        assert(l[n - 1] == l.subrange(l.len() - 4, l.len() as int)[2]);
    }
}

/// A hub `gated` value gates a model when it is `true`, or a text other
/// than blank or `false` (the hub writes `auto` or `manual`); `false`, a
/// blank text, any other kind of value, or none, does not.
pub proof fn gated_values_gate(v: Option<JsonValue>)
    ensures
        v matches Some(JsonValue::Bool(b)) ==> gated_spec(v) == b,
        v matches Some(JsonValue::String(t)) ==> (gated_spec(v) <==> (trim(t@).len() > 0 && t@
            != "false"@)),
        !(v matches Some(JsonValue::Bool(_))) && !(v matches Some(JsonValue::String(_))) ==> !gated_spec(v),
{
}

/// The total size of a file list is known exactly when every file's size
/// is; then each file's size is at most the total, and adding a file adds
/// its size.
pub proof fn total_size_is_known_only_when_every_size_is(files: Seq<HfModelFile>, extra: HfModelFile)
    ensures
        files_total(files) is Some <==> forall|i: int| 0 <= i < files.len() ==> (#[trigger] files[i]).size_bytes is Some,
        files_total(files) matches Some(t) ==> forall|i: int|
            0 <= i < files.len() ==> (#[trigger] files[i]).size_bytes.unwrap() <= t,
        files_total(files) matches Some(t) ==> (extra.size_bytes matches Some(x) ==> files_total(
            files.push(extra),
        ) == Some(t + x as nat)),
        extra.size_bytes is None ==> files_total(files.push(extra)) is None,
    decreases files.len(),
{
    assert(files.push(extra).drop_last() =~= files);
    if files.len() > 0 {
        let rest = files.drop_last();
        total_size_is_known_only_when_every_size_is(rest, files.last());
        assert(rest.push(files.last()) =~= files);
        assert forall|i: int| 0 <= i < rest.len() implies #[trigger] rest[i] == files[i] by {}
        if files_total(files) is None {
            if files_total(rest) is Some {
                assert(files.last().size_bytes is None);
                assert(files[files.len() - 1].size_bytes is None);
            } else {
                let k = choose|k: int| 0 <= k < rest.len() && !((#[trigger] rest[k]).size_bytes is Some);
                assert(files[k].size_bytes is None);
            }
        }
    }
}

} // verus!



