//! Ollama's local server: the installed models its tag list reports, the
//! details its `show` endpoint adds, and how its failures read.
use vstd::prelude::*;

use crate::json::{self, JsonMember, JsonValue, get_member, json_str, members_get};
use crate::models::{
    LocalModel, LocalModelCapabilities, LocalModelProvenance, LocalModelTechnical, ModelFormat,
    ModelRuntimeStatus, ModelSource, capabilities_empty, opt_str, strs,
};
use crate::scanner::common::{parse_quantization_from_name, quantization_of_name};
use crate::scanner::lmstudio::{
    clean_spec, clean_string, eq_lit, fill_true, lists_any, lower_trimmed, push_unique_string,
    set_option_if_missing, value_u64, value_u64_spec,
};
use crate::scanner::metadata::{merge_opt, merge_strings_spec, or_else};
use crate::sort::{SortField, sort_by_field, sorted_by, stable_sorted};
use crate::text::{
    CharClass, ascii_lower, ascii_upper, chars_of, concat2, concat3, decimal, decimal_string,
    first_occurrence, lemma_first_occurrence_unique, lower_chars, occurs_at, split_once_chars,
    split_once_spec, string_of, trim, upper_chars,
};

verus! {

/// The address of Ollama's local server.
pub const OLLAMA_BASE_URL: &'static str = "http://localhost:11434";

/// The installed models Ollama reported.
pub struct OllamaScanReport {
    pub models: Vec<LocalModel>,
}

/// Why Ollama could not be read.
#[derive(Debug, PartialEq, Eq)]
pub enum OllamaScanError {
    /// Nothing answered on the local port.
    NotRunning,
    /// The request failed otherwise; the error's text.
    Request(String),
    /// The server answered with an unexpected HTTP status.
    ApiStatus(u16),
    /// The answer could not be decoded; the error's text.
    Decode(String),
}

/// The message shown for an Ollama failure.
pub open spec fn ollama_error_message(e: OllamaScanError) -> Seq<char> {
    match e {
        OllamaScanError::NotRunning => "Ollama is not running on localhost:11434."@,
        OllamaScanError::Request(m) => "Could not check Ollama on localhost:11434: "@ + m@,
        OllamaScanError::ApiStatus(s) => "Ollama returned an unexpected HTTP status: "@ + decimal(
            s as nat,
        ) + "."@,
        OllamaScanError::Decode(m) => "Ollama returned model data ModelHub could not read: "@
            + m@,
    }
}

impl OllamaScanError {
    /// The message shown to the user for this failure.
    pub fn user_message(&self) -> (r: String)
        ensures
            r@ == ollama_error_message(*self),
    {
        match self {
            OllamaScanError::NotRunning => "Ollama is not running on localhost:11434.".to_owned(),
            OllamaScanError::Request(message) => concat2(
                "Could not check Ollama on localhost:11434: ",
                message.as_str(),
            ),
            OllamaScanError::ApiStatus(status) => {
                let digits = decimal_string(*status as u64);
                concat3("Ollama returned an unexpected HTTP status: ", digits.as_str(), ".")
            },
            OllamaScanError::Decode(message) => concat2(
                "Ollama returned model data ModelHub could not read: ",
                message.as_str(),
            ),
        }
    }
}

/// Sorts a failed request: a refused connection or a timeout means that
/// Ollama is not running; anything else is reported with its text.
pub fn classify_request_error(is_connect: bool, is_timeout: bool, message: String) -> (r:
    OllamaScanError)
    ensures
        r == if is_connect || is_timeout {
            OllamaScanError::NotRunning
        } else {
            OllamaScanError::Request(message)
        },
{
    if is_connect || is_timeout {
        OllamaScanError::NotRunning
    } else {
        OllamaScanError::Request(message)
    }
}

/// The details Ollama gives of a model.
pub struct OllamaModelDetails {
    pub format: Option<String>,
    pub family: Option<String>,
    pub families: Option<Vec<String>>,
    pub parameter_size: Option<String>,
    pub quantization_level: Option<String>,
}

/// An installed model in Ollama's tag list.
pub struct OllamaModel {
    pub name: String,
    pub model: Option<String>,
    pub modified_at: Option<String>,
    pub size: Option<u64>,
    pub digest: Option<String>,
    pub details: Option<OllamaModelDetails>,
}

/// Ollama's tag list.
pub struct OllamaTagsResponse {
    pub models: Vec<OllamaModel>,
}

/// What Ollama's `show` endpoint says of a model.
pub struct OllamaShowResponse {
    pub details: Option<OllamaModelDetails>,
    /// The model's metadata entries, each key once.
    pub model_info: Option<Vec<JsonMember>>,
    pub capabilities: Option<Vec<String>>,
}

/// The format an Ollama format name stands for (compared without ASCII
/// case).
pub open spec fn ollama_format_spec(f: Option<Seq<char>>) -> ModelFormat {
    match f {
        Some(s) => {
            let k = ascii_lower(s);
            if k == "gguf"@ {
                ModelFormat::Gguf
            } else if k == "safetensors"@ {
                ModelFormat::Safetensors
            } else if k == "onnx"@ {
                ModelFormat::Onnx
            } else if k == "mlx"@ {
                ModelFormat::Mlx
            } else {
                ModelFormat::Unknown
            }
        },
        None => ModelFormat::Unknown,
    }
}

/// The format an Ollama format name stands for.
pub fn model_format_from_ollama(format: &Option<String>) -> (r: ModelFormat)
    ensures
        r == ollama_format_spec(opt_str(*format)),
{
    match format {
        Some(f) => {
            let k = lower_chars(chars_of(f.as_str()).as_slice());
            if eq_lit(k.as_slice(), "gguf") {
                ModelFormat::Gguf
            } else if eq_lit(k.as_slice(), "safetensors") {
                ModelFormat::Safetensors
            } else if eq_lit(k.as_slice(), "onnx") {
                ModelFormat::Onnx
            } else if eq_lit(k.as_slice(), "mlx") {
                ModelFormat::Mlx
            } else {
                ModelFormat::Unknown
            }
        },
        None => ModelFormat::Unknown,
    }
}

/// The provider in a model name: the non-empty text before its first `/`.
pub open spec fn ollama_provider(name: Seq<char>) -> Option<Seq<char>> {
    match split_once_spec(name, "/"@) {
        Some((p, _)) => if p.len() > 0 {
            Some(p)
        } else {
            None
        },
        None => None,
    }
}

/// The provider in a model name.
pub fn provider_from_model_name(name: &str) -> (r: Option<String>)
    ensures
        opt_str(r) == ollama_provider(name@),
{
    let v = chars_of(name);
    let slash = ['/'];
    proof {
        reveal_strlit("/");
        assert(slash@ == "/"@);
    }
    match split_once_chars(v.as_slice(), &slash) {
        Some((p, _)) => if p.len() > 0 {
            Some(string_of(p.as_slice()))
        } else {
            None
        },
        None => None,
    }
}

/// The non-blank entries of a list, trimmed.
pub open spec fn cleaned_all(s: Seq<Seq<char>>) -> Seq<Seq<char>>
    decreases s.len(),
{
    if s.len() == 0 {
        Seq::empty()
    } else {
        cleaned_all(s.drop_last()) + match clean_spec(Some(s.last())) {
            Some(x) => seq![x],
            None => Seq::empty(),
        }
    }
}

fn clean_all(values: &Vec<String>) -> (r: Vec<String>)
    ensures
        strs(r@) == cleaned_all(strs(values@)),
{
    let mut out: Vec<String> = Vec::new();
    let mut i: usize = 0;
    while i < values.len()
        invariant
            0 <= i <= values@.len(),
            strs(out@) == cleaned_all(strs(values@).take(i as int)),
        decreases values.len() - i,
    {
        assert(strs(values@).take(i + 1).drop_last() =~= strs(values@).take(i as int));
        let ghost before = strs(out@);
        match clean_string(Some(values[i].clone())) {
            Some(x) => {
                out.push(x);
                assert(strs(out@) =~= before + seq![clean_spec(Some(values@[i as int]@)).unwrap()]);
            },
            None => {
                assert(strs(out@) =~= before + Seq::<Seq<char>>::empty());
            },
        }
        i += 1;
    }
    assert(strs(values@).take(values@.len() as int) =~= strs(values@));
    out
}

fn clean_opt(value: &Option<String>) -> (r: Option<String>)
    ensures
        opt_str(r) == clean_spec(opt_str(*value)),
{
    match value {
        Some(v) => clean_string(Some(v.clone())),
        None => None,
    }
}

/// A quantization level as Ollama gives it: trimmed and uppercased.
pub open spec fn level_spec(level: Option<Seq<char>>) -> Option<Seq<char>> {
    match clean_spec(level) {
        Some(q) => Some(ascii_upper(q)),
        None => None,
    }
}

fn level_of(level: &Option<String>) -> (r: Option<String>)
    ensures
        opt_str(r) == level_spec(opt_str(*level)),
{
    match clean_opt(level) {
        Some(q) => {
            let up = upper_chars(chars_of(q.as_str()).as_slice());
            Some(string_of(up.as_slice()))
        },
        None => None,
    }
}

/// The details' text fields, missing details read as empty.
pub open spec fn detail_str(d: Option<OllamaModelDetails>, which: int) -> Option<Seq<char>> {
    match d {
        Some(x) => opt_str(
            if which == 0 {
                x.format
            } else if which == 1 {
                x.family
            } else if which == 2 {
                x.parameter_size
            } else {
                x.quantization_level
            },
        ),
        None => None,
    }
}

/// The details' family list, missing read as empty.
pub open spec fn detail_families(d: Option<OllamaModelDetails>) -> Seq<Seq<char>> {
    match d {
        Some(x) => match x.families {
            Some(f) => strs(f@),
            None => Seq::empty(),
        },
        None => Seq::empty(),
    }
}

/// The model record of an entry of Ollama's tag list; entries with a blank
/// name give none.
pub open spec fn tag_model_spec(r: LocalModel, m: OllamaModel) -> bool {
    let name = clean_spec(Some(m.name@)).unwrap();
    let d = m.details;
    let family = clean_spec(detail_str(d, 1));
    let psize = clean_spec(detail_str(d, 2));
    let digest = clean_spec(opt_str(m.digest));
    &&& r.id@ == "ollama:"@ + name
    &&& r.display_name@ == name
    &&& opt_str(r.provider) == ollama_provider(name)
    &&& opt_str(r.repo_id) == or_else(clean_spec(opt_str(m.model)), Some(name))
    &&& r.source == ModelSource::Ollama
    &&& r.path is None
    &&& r.size_bytes == match m.size {
        Some(s) => if s > 0 {
            Some(s)
        } else {
            None
        },
        None => None,
    }
    &&& r.format == Some(ollama_format_spec(detail_str(d, 0)))
    &&& opt_str(r.quantization) == or_else(level_spec(detail_str(d, 3)), quantization_of_name(name))
    &&& opt_str(r.parameter_size) == psize
    &&& opt_str(r.last_modified) == clean_spec(opt_str(m.modified_at))
    &&& r.files@.len() == 0
    &&& r.runtime_status == Some(ModelRuntimeStatus::Available)
    &&& opt_str(r.technical.architecture) == family
    &&& opt_str(r.technical.family) == family
    &&& strs(r.technical.families@) == cleaned_all(detail_families(d))
    &&& opt_str(r.technical.parameter_size) == psize
    &&& r.technical.parameter_count is None
    &&& r.technical.context_length is None
    &&& r.technical.max_context_length is None
    &&& r.technical.embedding_length is None
    &&& r.technical.block_count is None
    &&& r.technical.attention_heads is None
    &&& r.technical.kv_heads is None
    &&& r.technical.vocab_size is None
    &&& r.technical.tokenizer is None
    &&& capabilities_empty(r.capabilities)
    &&& opt_str(r.provenance.digest) == digest
    &&& r.provenance.snapshot_sha is None
    &&& r.provenance.license is None
    &&& r.provenance.tags@.len() == 0
    &&& r.provenance.languages@.len() == 0
    &&& r.provenance.datasets@.len() == 0
    &&& r.provenance.base_models@.len() == 0
    &&& r.provenance.repo_url is None
    &&& strs(r.metadata_sources@) == seq!["ollama_tags"@] + if digest is Some {
        seq!["ollama_digest"@]
    } else {
        Seq::empty()
    }
}

/// The model record of an entry of Ollama's tag list, unless its name is
/// blank.
pub fn local_model_from_ollama_model(model: OllamaModel) -> (r: Option<LocalModel>)
    ensures
        match r {
            Some(m) => clean_spec(Some(model.name@)) is Some && tag_model_spec(m, model),
            None => clean_spec(Some(model.name@)) is None,
        },
{
    let ghost given = model;
    let OllamaModel { name, model: model_field, modified_at, size, digest, details } = model;
    let name = match clean_string(Some(name)) {
        Some(n) => n,
        None => return None,
    };
    let (format, family_raw, families_raw, psize_raw, level_raw) = match details {
        Some(d) => (d.format, d.family, d.families, d.parameter_size, d.quantization_level),
        None => (None, None, None, None, None),
    };
    let quantization = match level_of(&level_raw) {
        Some(q) => Some(q),
        None => parse_quantization_from_name(name.as_str()),
    };
    let parameter_size = clean_opt(&psize_raw);
    let family = clean_opt(&family_raw);
    let families = match &families_raw {
        Some(f) => clean_all(f),
        None => Vec::new(),
    };
    let fmt = model_format_from_ollama(&format);
    let mut metadata_sources: Vec<String> = Vec::new();
    metadata_sources.push("ollama_tags".to_owned());
    let digest_clean = clean_opt(&digest);
    let has_digest = digest_clean.is_some();
    if has_digest {
        metadata_sources.push("ollama_digest".to_owned());
    }
    let repo_id = match clean_opt(&model_field) {
        Some(m) => Some(m),
        None => Some(name.clone()),
    };
    let technical = LocalModelTechnical {
        architecture: match &family {
            Some(f) => Some(f.clone()),
            None => None,
        },
        family,
        families,
        parameter_count: None,
        parameter_size: match &parameter_size {
            Some(p) => Some(p.clone()),
            None => None,
        },
        context_length: None,
        max_context_length: None,
        embedding_length: None,
        block_count: None,
        attention_heads: None,
        kv_heads: None,
        vocab_size: None,
        tokenizer: None,
    };
    let provenance = LocalModelProvenance {
        digest: digest_clean,
        snapshot_sha: None,
        license: None,
        tags: Vec::new(),
        languages: Vec::new(),
        datasets: Vec::new(),
        base_models: Vec::new(),
        repo_url: None,
    };
    let r = LocalModel {
        id: concat2("ollama:", name.as_str()),
        display_name: name.clone(),
        provider: provider_from_model_name(name.as_str()),
        repo_id,
        source: ModelSource::Ollama,
        path: None,
        size_bytes: match size {
            Some(s) => if s > 0 {
                Some(s)
            } else {
                None
            },
            None => None,
        },
        format: Some(fmt),
        quantization,
        parameter_size,
        last_modified: clean_opt(&modified_at),
        files: Vec::new(),
        runtime_status: Some(ModelRuntimeStatus::Available),
        technical,
        capabilities: LocalModelCapabilities::default(),
        provenance,
        metadata_sources,
    };
    assert(strs(r.metadata_sources@) =~= seq!["ollama_tags"@] + if has_digest {
        seq!["ollama_digest"@]
    } else {
        Seq::<Seq<char>>::empty()
    });
    let ghost d = given.details;
    let ghost nm = clean_spec(Some(given.name@)).unwrap();
    assert(nm == name@);
    assert(opt_str(format) == detail_str(d, 0));
    assert(opt_str(family_raw) == detail_str(d, 1));
    assert(opt_str(psize_raw) == detail_str(d, 2));
    assert(opt_str(level_raw) == detail_str(d, 3));
    assert(strs(r.technical.families@) == cleaned_all(detail_families(d)));
    assert(opt_str(r.quantization) == or_else(level_spec(detail_str(d, 3)), quantization_of_name(nm)));
    assert(opt_str(r.repo_id) == or_else(clean_spec(opt_str(given.model)), Some(nm)));
    assert(r.format == Some(ollama_format_spec(detail_str(d, 0))));
    assert(opt_str(r.provenance.digest) == clean_spec(opt_str(given.digest)));
    Some(r)
}

/// The entries with a non-blank name.
pub open spec fn named_models(ms: Seq<OllamaModel>) -> Seq<OllamaModel>
    decreases ms.len(),
{
    if ms.len() == 0 {
        Seq::empty()
    } else {
        named_models(ms.drop_last()) + if clean_spec(Some(ms.last().name@)) is Some {
            seq![ms.last()]
        } else {
            Seq::empty()
        }
    }
}

/// The installed models of a tag list: a record for each entry with a
/// non-blank name, ordered by id.
pub fn models_from_tags(response: OllamaTagsResponse) -> (r: OllamaScanReport)
    ensures
        exists|fs: Seq<LocalModel>|
            #![trigger fs.to_multiset()]
            {
                &&& fs.len() == named_models(response.models@).len()
                &&& forall|i: int|
                    0 <= i < fs.len() ==> tag_model_spec(#[trigger] fs[i], named_models(response.models@)[i])
                &&& r.models@ == stable_sorted(fs, SortField::Id)
                &&& r.models@.to_multiset() == fs.to_multiset()
            },
        sorted_by(r.models@, SortField::Id),
{
    let ghost orig = response.models@;
    let mut rest = response.models;
    assert(orig.len() == rest.len());
    let mut models: Vec<LocalModel> = Vec::new();
    let mut k: usize = 0;
    while rest.len() > 0
        invariant
            k + rest@.len() == orig.len(),
            orig.len() <= usize::MAX,
            rest@ == orig.skip(k as int),
            models@.len() == named_models(orig.take(k as int)).len(),
            forall|i: int|
                0 <= i < models@.len() ==> tag_model_spec(
                    #[trigger] models@[i],
                    named_models(orig.take(k as int))[i],
                ),
        decreases rest.len(),
    {
        let m = rest.remove(0);
        assert(m == orig[k as int]);
        assert(orig.take(k + 1).drop_last() =~= orig.take(k as int));
        assert(orig.take(k + 1).last() == m);
        assert(rest@ =~= orig.skip(k + 1));
        let ghost before = models@;
        let ghost named = named_models(orig.take(k as int));
        match local_model_from_ollama_model(m) {
            Some(x) => {
                models.push(x);
                assert(named_models(orig.take(k + 1)) =~= named.push(orig[k as int]));
                assert(forall|i: int| 0 <= i < before.len() ==> models@[i] == before[i]);
            },
            None => {
                assert(named_models(orig.take(k + 1)) =~= named);
            },
        }
        k += 1;
    }
    assert(orig.take(k as int) =~= orig);
    let ghost fs = models@;
    let models = sort_by_field(models, SortField::Id);
    assert(models@.to_multiset() == fs.to_multiset());
    OllamaScanReport { models }
}

/// The text under `key` in a model's metadata entries, unless blank.
pub open spec fn info_string(info: Seq<JsonMember>, key: Seq<char>) -> Option<Seq<char>> {
    match members_get(info, key) {
        Some(v) => match json_str(v) {
            Some(s) => if trim(s).len() > 0 {
                Some(s)
            } else {
                None
            },
            None => None,
        },
        None => None,
    }
}

/// The count under `key` in a model's metadata entries.
pub open spec fn info_u64(info: Seq<JsonMember>, key: Seq<char>) -> Option<u64> {
    match members_get(info, key) {
        Some(v) => value_u64_spec(v),
        None => None,
    }
}

/// The count under `<architecture>.<suffix>`, where the architecture is
/// known.
pub open spec fn info_arch_u64(info: Seq<JsonMember>, arch: Option<Seq<char>>, suffix: Seq<char>) -> Option<
    u64,
> {
    match arch {
        Some(a) => info_u64(info, a + "."@ + suffix),
        None => None,
    }
}

fn info_string_exec(info: &Vec<JsonMember>, key: &str) -> (r: Option<String>)
    ensures
        opt_str(r) == info_string(info@, key@),
{
    match get_member(info, key) {
        Some(v) => match json::as_str(v) {
            Some(s) => {
                let t = crate::text::trim_str(s);
                if t.as_str().is_empty() {
                    None
                } else {
                    Some(s.to_owned())
                }
            },
            None => None,
        },
        None => None,
    }
}

fn info_u64_exec(info: &Vec<JsonMember>, key: &str) -> (r: Option<u64>)
    ensures
        r == info_u64(info@, key@),
{
    match get_member(info, key) {
        Some(v) => value_u64(v),
        None => None,
    }
}

fn info_arch_u64_exec(info: &Vec<JsonMember>, arch: &Option<String>, suffix: &str) -> (r: Option<u64>)
    ensures
        r == info_arch_u64(info@, opt_str(*arch), suffix@),
{
    match arch {
        Some(a) => {
            let key = concat3(a.as_str(), ".", suffix);
            info_u64_exec(info, key.as_str())
        },
        None => None,
    }
}

/// The families `show` details add: the family, then the family list,
/// each trimmed and non-blank.
pub open spec fn detail_family_list(d: OllamaModelDetails) -> Seq<Seq<char>> {
    let head = match clean_spec(opt_str(d.family)) {
        Some(f) => seq![f],
        None => Seq::empty(),
    };
    let tail = match d.families {
        Some(fs) => cleaned_all(strs(fs@)),
        None => Seq::empty(),
    };
    head + tail
}

/// What `show` details add to a model; fields it knows stay.
pub open spec fn details_step(r: LocalModel, m: LocalModel, d: OllamaModelDetails) -> bool {
    let fmt = ollama_format_spec(opt_str(d.format));
    let set_format = fmt != ModelFormat::Unknown && (m.format is None || m.format == Some(
        ModelFormat::Unknown,
    ));
    let level = level_spec(opt_str(d.quantization_level));
    let psize = clean_spec(opt_str(d.parameter_size));
    let family = clean_spec(opt_str(d.family));
    &&& r.format == if set_format {
        Some(fmt)
    } else {
        m.format
    }
    &&& opt_str(r.quantization) == merge_opt(opt_str(m.quantization), level)
    &&& opt_str(r.parameter_size) == merge_opt(opt_str(m.parameter_size), psize)
    &&& opt_str(r.technical.parameter_size) == merge_opt(opt_str(m.technical.parameter_size), psize)
    &&& opt_str(r.technical.family) == merge_opt(opt_str(m.technical.family), family)
    &&& opt_str(r.technical.architecture) == merge_opt(opt_str(m.technical.architecture), family)
    &&& strs(r.technical.families@) == merge_strings_spec(
        strs(m.technical.families@),
        detail_family_list(d),
    )
    &&& r == (LocalModel {
        format: r.format,
        quantization: r.quantization,
        parameter_size: r.parameter_size,
        technical: LocalModelTechnical {
            parameter_size: r.technical.parameter_size,
            family: r.technical.family,
            architecture: r.technical.architecture,
            families: r.technical.families,
            ..m.technical
        },
        ..m
    })
}

/// Whether `show` details change anything.
pub open spec fn details_change(m: LocalModel, d: OllamaModelDetails) -> bool {
    let fmt = ollama_format_spec(opt_str(d.format));
    let level = level_spec(opt_str(d.quantization_level));
    let psize = clean_spec(opt_str(d.parameter_size));
    let family = clean_spec(opt_str(d.family));
    ||| fmt != ModelFormat::Unknown && (m.format is None || m.format == Some(ModelFormat::Unknown))
    ||| m.quantization is None && level is Some
    ||| m.parameter_size is None && psize is Some
    ||| m.technical.parameter_size is None && psize is Some
    ||| m.technical.family is None && family is Some
    ||| m.technical.architecture is None && family is Some
    ||| merge_strings_spec(strs(m.technical.families@), detail_family_list(d)).len()
        > m.technical.families@.len()
}

proof fn lemma_merge_strings_push(target: Seq<Seq<char>>, values: Seq<Seq<char>>, v: Seq<char>)
    ensures
        merge_strings_spec(target, values.push(v)) == {
            let t = merge_strings_spec(target, values);
            if trim(v).len() > 0 && !t.contains(v) {
                t.push(v)
            } else {
                t
            }
        },
    decreases values.len(),
{
    if values.len() > 0 {
        let first = values[0];
        let next = if trim(first).len() > 0 && !target.contains(first) {
            target.push(first)
        } else {
            target
        };
        assert(values.push(v).drop_first() =~= values.drop_first().push(v));
        assert(values.push(v)[0] == first);
        lemma_merge_strings_push(next, values.drop_first(), v);
        assert(merge_strings_spec(target, values.push(v)) == merge_strings_spec(
            next,
            values.drop_first().push(v),
        ));
        assert(merge_strings_spec(target, values) == merge_strings_spec(next, values.drop_first()));
    } else {
        assert(values.push(v) =~= seq![v]);
        assert(values.push(v).drop_first() =~= Seq::<Seq<char>>::empty());
        let next = if trim(v).len() > 0 && !target.contains(v) {
            target.push(v)
        } else {
            target
        };
        assert(merge_strings_spec(next, Seq::<Seq<char>>::empty()) == next);
        assert(merge_strings_spec(target, values) == target);
        assert(merge_strings_spec(target, values.push(v)) == merge_strings_spec(
            next,
            values.push(v).drop_first(),
        ));
    }
}

proof fn lemma_merge_strings_grows(target: Seq<Seq<char>>, values: Seq<Seq<char>>)
    ensures
        merge_strings_spec(target, values).len() >= target.len(),
    decreases values.len(),
{
    if values.len() > 0 {
        let first = values[0];
        let next = if trim(first).len() > 0 && !target.contains(first) {
            target.push(first)
        } else {
            target
        };
        lemma_merge_strings_grows(next, values.drop_first());
    }
}

/// Appends each value of a list as `push_unique_string` does; says
/// whether any was appended.
fn push_all_unique(target: &mut Vec<String>, values: Vec<String>) -> (changed: bool)
    ensures
        strs(final(target)@) == merge_strings_spec(strs(old(target)@), strs(values@)),
        changed == (final(target)@.len() > old(target)@.len()),
        !changed ==> final(target)@ == old(target)@,
{
    let ghost start = strs(target@);
    let ghost start_v = target@;
    let mut rest = values;
    let ghost orig = rest@;
    assert(orig.len() == rest.len());
    let mut k: usize = 0;
    let mut changed = false;
    assert(strs(orig.take(0)) =~= Seq::<Seq<char>>::empty());
    while rest.len() > 0
        invariant
            k + rest@.len() == orig.len(),
            orig.len() <= usize::MAX,
            rest@ == orig.skip(k as int),
            strs(target@) == merge_strings_spec(start, strs(orig.take(k as int))),
            changed == (target@.len() > start.len()),
            target@.len() >= start.len(),
            start.len() == start_v.len(),
            !changed ==> target@ == start_v,
        decreases rest.len(),
    {
        let v = rest.remove(0);
        assert(v == orig[k as int]);
        assert(rest@ =~= orig.skip(k + 1));
        assert(strs(orig.take(k + 1)) =~= strs(orig.take(k as int)).push(v@));
        proof {
            lemma_merge_strings_push(start, strs(orig.take(k as int)), v@);
        }
        let c = push_unique_string(target, v);
        changed = changed || c;
        k += 1;
    }
    assert(orig.take(k as int) =~= orig);
    changed
}

/// Adds what `show` details say to a model.
fn merge_details(model: &mut LocalModel, d: OllamaModelDetails) -> (changed: bool)
    ensures
        details_step(*final(model), *old(model), d),
        changed == details_change(*old(model), d),
{
    let ghost dd = d;
    let ghost m0 = *model;
    let mut changed = false;
    let fmt = model_format_from_ollama(&d.format);
    let unknown_before = match model.format {
        None => true,
        Some(ModelFormat::Unknown) => true,
        Some(_) => false,
    };
    if fmt != ModelFormat::Unknown && unknown_before {
        model.format = Some(fmt);
        changed = true;
    }
    let c1 = set_option_if_missing(&mut model.quantization, level_of(&d.quantization_level));
    let psize = clean_opt(&d.parameter_size);
    let c2 = set_option_if_missing(&mut model.parameter_size, clean_opt(&d.parameter_size));
    let c3 = set_option_if_missing(&mut model.technical.parameter_size, psize);
    let family = clean_opt(&d.family);
    let c4 = set_option_if_missing(&mut model.technical.family, clean_opt(&d.family));
    let c5 = set_option_if_missing(&mut model.technical.architecture, clean_opt(&d.family));
    let mut list: Vec<String> = Vec::new();
    match family {
        Some(f) => {
            list.push(f);
        },
        None => {},
    }
    let ghost head = strs(list@);
    let tail = match &d.families {
        Some(fs) => clean_all(fs),
        None => Vec::new(),
    };
    let ghost tl = strs(tail@);
    let mut all = list;
    let mut t = tail;
    all.append(&mut t);
    assert(strs(all@) =~= head + tl);
    assert(strs(all@) =~= detail_family_list(dd));
    let c6 = push_all_unique(&mut model.technical.families, all);
    changed || c1 || c2 || c3 || c4 || c5 || c6
}

/// What a model's metadata entries add; fields it knows stay. The
/// architecture-specific counts are read under the architecture the model
/// has once the entries' own one is taken into account.
pub open spec fn info_step(r: LocalModel, m: LocalModel, info: Seq<JsonMember>) -> bool {
    let arch0 = info_string(info, "general.architecture"@);
    let arch = merge_opt(opt_str(m.technical.architecture), arch0);
    let ctx = merge_opt(m.technical.context_length, info_arch_u64(info, arch, "context_length"@));
    &&& opt_str(r.technical.architecture) == arch
    &&& opt_str(r.technical.family) == merge_opt(opt_str(m.technical.family), arch0)
    &&& strs(r.technical.families@) == merge_strings_spec(
        strs(m.technical.families@),
        match arch0 {
            Some(a) => seq![a],
            None => Seq::empty(),
        },
    )
    &&& r.technical.parameter_count == merge_opt(
        m.technical.parameter_count,
        info_u64(info, "general.parameter_count"@),
    )
    &&& r.technical.context_length == ctx
    &&& r.technical.max_context_length == merge_opt(m.technical.max_context_length, ctx)
    &&& r.technical.embedding_length == merge_opt(
        m.technical.embedding_length,
        info_arch_u64(info, arch, "embedding_length"@),
    )
    &&& r.technical.block_count == merge_opt(
        m.technical.block_count,
        info_arch_u64(info, arch, "block_count"@),
    )
    &&& r.technical.attention_heads == merge_opt(
        m.technical.attention_heads,
        info_arch_u64(info, arch, "attention.head_count"@),
    )
    &&& r.technical.kv_heads == merge_opt(
        m.technical.kv_heads,
        info_arch_u64(info, arch, "attention.head_count_kv"@),
    )
    &&& r.technical.vocab_size == merge_opt(
        m.technical.vocab_size,
        info_arch_u64(info, arch, "vocab_size"@),
    )
    &&& opt_str(r.technical.tokenizer) == merge_opt(
        opt_str(m.technical.tokenizer),
        info_string(info, "tokenizer.ggml.model"@),
    )
    &&& r == (LocalModel { technical: LocalModelTechnical { parameter_size: m.technical.parameter_size, ..r.technical }, ..m })
}

/// Whether a model's metadata entries change anything.
pub open spec fn info_change(m: LocalModel, info: Seq<JsonMember>) -> bool {
    let arch0 = info_string(info, "general.architecture"@);
    let arch = merge_opt(opt_str(m.technical.architecture), arch0);
    let ctxv = info_arch_u64(info, arch, "context_length"@);
    let ctx = merge_opt(m.technical.context_length, ctxv);
    let t = m.technical;
    ||| t.architecture is None && arch0 is Some
    ||| t.family is None && arch0 is Some
    ||| merge_strings_spec(
        strs(t.families@),
        match arch0 {
            Some(a) => seq![a],
            None => Seq::empty(),
        },
    ).len() > t.families@.len()
    ||| t.parameter_count is None && info_u64(info, "general.parameter_count"@) is Some
    ||| t.context_length is None && ctxv is Some
    ||| t.max_context_length is None && ctx is Some
    ||| t.embedding_length is None && info_arch_u64(info, arch, "embedding_length"@) is Some
    ||| t.block_count is None && info_arch_u64(info, arch, "block_count"@) is Some
    ||| t.attention_heads is None && info_arch_u64(info, arch, "attention.head_count"@) is Some
    ||| t.kv_heads is None && info_arch_u64(info, arch, "attention.head_count_kv"@) is Some
    ||| t.vocab_size is None && info_arch_u64(info, arch, "vocab_size"@) is Some
    ||| t.tokenizer is None && info_string(info, "tokenizer.ggml.model"@) is Some
}

/// Adds what a model's metadata entries say.
fn merge_model_info(model: &mut LocalModel, info: &Vec<JsonMember>) -> (changed: bool)
    ensures
        info_step(*final(model), *old(model), info@),
        changed == info_change(*old(model), info@),
{
    let ghost m0 = *model;
    let architecture = info_string_exec(info, "general.architecture");
    let c1 = set_option_if_missing(&mut model.technical.architecture, info_string_exec(info, "general.architecture"));
    let c2 = set_option_if_missing(&mut model.technical.family, info_string_exec(info, "general.architecture"));
    let mut list: Vec<String> = Vec::new();
    match architecture {
        Some(a) => {
            list.push(a);
        },
        None => {},
    }
    assert(strs(list@) =~= match info_string(info@, "general.architecture"@) {
        Some(a) => seq![a],
        None => Seq::<Seq<char>>::empty(),
    });
    let c3 = push_all_unique(&mut model.technical.families, list);
    let arch = match &model.technical.architecture {
        Some(a) => Some(a.clone()),
        None => None,
    };
    let c4 = set_option_if_missing(
        &mut model.technical.parameter_count,
        info_u64_exec(info, "general.parameter_count"),
    );
    let c5 = set_option_if_missing(
        &mut model.technical.context_length,
        info_arch_u64_exec(info, &arch, "context_length"),
    );
    let ctx = model.technical.context_length;
    let c6 = set_option_if_missing(&mut model.technical.max_context_length, ctx);
    let c7 = set_option_if_missing(
        &mut model.technical.embedding_length,
        info_arch_u64_exec(info, &arch, "embedding_length"),
    );
    let c8 = set_option_if_missing(
        &mut model.technical.block_count,
        info_arch_u64_exec(info, &arch, "block_count"),
    );
    let c9 = set_option_if_missing(
        &mut model.technical.attention_heads,
        info_arch_u64_exec(info, &arch, "attention.head_count"),
    );
    let c10 = set_option_if_missing(
        &mut model.technical.kv_heads,
        info_arch_u64_exec(info, &arch, "attention.head_count_kv"),
    );
    let c11 = set_option_if_missing(
        &mut model.technical.vocab_size,
        info_arch_u64_exec(info, &arch, "vocab_size"),
    );
    let c12 = set_option_if_missing(
        &mut model.technical.tokenizer,
        info_string_exec(info, "tokenizer.ggml.model"),
    );
    c1 || c2 || c3 || c4 || c5 || c6 || c7 || c8 || c9 || c10 || c11 || c12
}

/// The capability names of a `show` response, trimmed and lowercased.
pub open spec fn normalized_caps(caps: Seq<Seq<char>>) -> Seq<Seq<char>> {
    caps.map_values(|c: Seq<char>| ascii_lower(trim(c)))
}

fn normalize_caps(caps: &Vec<String>) -> (r: Vec<String>)
    ensures
        strs(r@) == normalized_caps(strs(caps@)),
{
    let mut out: Vec<String> = Vec::new();
    let mut i: usize = 0;
    while i < caps.len()
        invariant
            0 <= i <= caps@.len(),
            strs(out@) == normalized_caps(strs(caps@).take(i as int)),
        decreases caps.len() - i,
    {
        let ghost before = strs(out@);
        out.push(lower_trimmed(caps[i].as_str()));
        assert(strs(out@) =~= before.push(ascii_lower(trim(caps@[i as int]@))));
        assert(normalized_caps(strs(caps@).take(i + 1)) =~= normalized_caps(strs(caps@).take(i as int)).push(ascii_lower(trim(caps@[i as int]@))));
        i += 1;
    }
    assert(strs(caps@).take(caps@.len() as int) =~= strs(caps@));
    out
}

/// What a `show` capability list adds to a model.
pub open spec fn caps_step(r: LocalModel, m: LocalModel, caps: Seq<Seq<char>>) -> bool {
    let n = Some(normalized_caps(caps));
    &&& r.capabilities.vision == fill_true(m.capabilities.vision, lists_any(n, seq!["vision"@]))
    &&& r.capabilities.embedding == fill_true(
        m.capabilities.embedding,
        lists_any(n, seq!["embedding"@, "embeddings"@]),
    )
    &&& r.capabilities.tool_use == fill_true(
        m.capabilities.tool_use,
        lists_any(n, seq!["tool"@, "tools"@, "tool_use"@]),
    )
    &&& r.capabilities.reasoning == fill_true(
        m.capabilities.reasoning,
        lists_any(n, seq!["reasoning"@, "thinking"@]),
    )
    &&& r == (LocalModel { capabilities: r.capabilities, ..m })
}

/// Whether a `show` capability list changes anything.
pub open spec fn caps_change(m: LocalModel, caps: Seq<Seq<char>>) -> bool {
    let n = Some(normalized_caps(caps));
    ||| lists_any(n, seq!["vision"@]) && m.capabilities.vision is None
    ||| lists_any(n, seq!["embedding"@, "embeddings"@]) && m.capabilities.embedding is None
    ||| lists_any(n, seq!["tool"@, "tools"@, "tool_use"@]) && m.capabilities.tool_use is None
    ||| lists_any(n, seq!["reasoning"@, "thinking"@]) && m.capabilities.reasoning is None
}

/// The steps of applying a `show` response: its details, then its
/// metadata entries, then its capabilities, and `ollama_show` among the
/// metadata sources when any of them changed something.
pub open spec fn show_steps(
    r: LocalModel,
    m: LocalModel,
    resp: OllamaShowResponse,
    m1: LocalModel,
    m2: LocalModel,
    m3: LocalModel,
) -> bool {
    let changed = (resp.details matches Some(d) && details_change(m, d)) || (resp.model_info matches Some(
        i,
    ) && info_change(m1, i@)) || (resp.capabilities matches Some(c) && caps_change(m2, strs(c@)));
    &&& match resp.details {
        Some(d) => details_step(m1, m, d),
        None => m1 == m,
    }
    &&& match resp.model_info {
        Some(i) => info_step(m2, m1, i@),
        None => m2 == m1,
    }
    &&& match resp.capabilities {
        Some(c) => caps_step(m3, m2, strs(c@)),
        None => m3 == m2,
    }
    &&& strs(r.metadata_sources@) == if changed && !strs(m3.metadata_sources@).contains(
        "ollama_show"@,
    ) {
        strs(m3.metadata_sources@).push("ollama_show"@)
    } else {
        strs(m3.metadata_sources@)
    }
    &&& r == (LocalModel { metadata_sources: r.metadata_sources, ..m3 })
}

/// Fills the capabilities a `show` capability list names.
fn merge_show_capabilities(model: &mut LocalModel, caps: &Vec<String>) -> (changed: bool)
    ensures
        caps_step(*final(model), *old(model), strs(caps@)),
        changed == caps_change(*old(model), strs(caps@)),
{
    let normalized = Some(normalize_caps(caps));
    crate::scanner::lmstudio::merge_capabilities(model, &normalized)
}

/// Adds what Ollama's `show` endpoint says to a model; what the model
/// already knows stays.
pub fn apply_show_response(model: &mut LocalModel, response: OllamaShowResponse)
    ensures
        exists|m1: LocalModel, m2: LocalModel, m3: LocalModel|
            show_steps(*final(model), *old(model), response, m1, m2, m3),
{
    let ghost resp = response;
    let ghost m0 = *model;
    let OllamaShowResponse { details, model_info, capabilities } = response;
    let c1 = match details {
        Some(d) => merge_details(model, d),
        None => false,
    };
    let ghost m1 = *model;
    let c2 = match &model_info {
        Some(info) => merge_model_info(model, info),
        None => false,
    };
    let ghost m2 = *model;
    let c3 = match &capabilities {
        Some(caps) => merge_show_capabilities(model, caps),
        None => false,
    };
    let ghost m3 = *model;
    proof {
        reveal_strlit("ollama_show");
        crate::text::lemma_trim_keeps("ollama_show"@, CharClass::Whitespace, 0);
    }
    if c1 || c2 || c3 {
        push_unique_string(&mut model.metadata_sources, "ollama_show".to_owned());
    }
    assert(show_steps(*model, m0, resp, m1, m2, m3));
}

/// Applying a `show` response only fills gaps: a known quantization,
/// parameter size, architecture, family or format (other than `Unknown`)
/// stays as the tag list gave it, and the model's identity, location, size
/// and files do not change.
pub proof fn show_keeps_known_tag_fields(r: LocalModel, m: LocalModel, resp: OllamaShowResponse)
    requires
        exists|m1: LocalModel, m2: LocalModel, m3: LocalModel| show_steps(r, m, resp, m1, m2, m3),
    ensures
        m.quantization is Some ==> opt_str(r.quantization) == opt_str(m.quantization),
        m.parameter_size is Some ==> opt_str(r.parameter_size) == opt_str(m.parameter_size),
        m.technical.architecture is Some ==> opt_str(r.technical.architecture) == opt_str(
            m.technical.architecture,
        ),
        m.technical.family is Some ==> opt_str(r.technical.family) == opt_str(m.technical.family),
        m.format is Some && m.format != Some(ModelFormat::Unknown) ==> r.format == m.format,
        r.id == m.id,
        r.display_name == m.display_name,
        r.repo_id == m.repo_id,
        r.source == m.source,
        r.path == m.path,
        r.size_bytes == m.size_bytes,
        r.files == m.files,
{
    let (m1, m2, m3) = choose|m1: LocalModel, m2: LocalModel, m3: LocalModel|
        show_steps(r, m, resp, m1, m2, m3);
    assert(show_steps(r, m, resp, m1, m2, m3));
}

/// The format Ollama reports becomes the model's format: `gguf`,
/// `safetensors`, `onnx` and `mlx`, without ASCII case, name their formats;
/// any other name, or none, is an unknown format.
pub proof fn ollama_format_names_the_format(f: Option<Seq<char>>)
    ensures
        f matches Some(s) ==> (ascii_lower(s) == "gguf"@ ==> ollama_format_spec(f) == ModelFormat::Gguf),
        f matches Some(s) ==> (ascii_lower(s) == "safetensors"@ ==> ollama_format_spec(f)
            == ModelFormat::Safetensors),
        f matches Some(s) ==> (ascii_lower(s) == "onnx"@ ==> ollama_format_spec(f) == ModelFormat::Onnx),
        f matches Some(s) ==> (ascii_lower(s) == "mlx"@ ==> ollama_format_spec(f) == ModelFormat::Mlx),
        f matches Some(s) ==> ((ascii_lower(s) != "gguf"@ && ascii_lower(s) != "safetensors"@
            && ascii_lower(s) != "onnx"@ && ascii_lower(s) != "mlx"@) ==> ollama_format_spec(f)
            == ModelFormat::Unknown),
        f is None ==> ollama_format_spec(f) == ModelFormat::Unknown,
{
    reveal_strlit("gguf");
    reveal_strlit("safetensors");
    reveal_strlit("onnx");
    reveal_strlit("mlx");
    assert("gguf"@[0] != "onnx"@[0]);
    assert("gguf"@.len() == 4 && "onnx"@.len() == 4 && "mlx"@.len() == 3 && "safetensors"@.len() == 11);
}

/// The provider of an Ollama model is the part of its name before the
/// first `/`, when that part is not empty; a name without `/` has none.
pub proof fn ollama_provider_is_the_namespace(owner: Seq<char>, rest: Seq<char>, plain: Seq<char>)
    requires
        !owner.contains('/'),
    ensures
        owner.len() > 0 ==> ollama_provider(owner + "/"@ + rest) == Some(owner),
        owner.len() == 0 ==> ollama_provider(owner + "/"@ + rest) is None,
        !plain.contains('/') ==> ollama_provider(plain) is None,
{
    reveal_strlit("/");
    let name = owner + "/"@ + rest;
    let k = owner.len() as int;
    assert(name.subrange(k, k + 1) =~= "/"@);
    assert(occurs_at(name, "/"@, k));
    assert forall|j: int| 0 <= j < k implies !occurs_at(name, "/"@, j) by {
        if occurs_at(name, "/"@, j) {
            assert(name.subrange(j, j + 1)[0] == name[j]);
            assert(name[j] == owner[j]);
        }
    }
    assert(first_occurrence(name, "/"@, k));
    let i = choose|i: int| first_occurrence(name, "/"@, i);
    lemma_first_occurrence_unique(name, "/"@, i, k);
    assert(name.subrange(0, k) =~= owner);
    if !plain.contains('/') {
        assert forall|j: int| !occurs_at(plain, "/"@, j) by {
            if occurs_at(plain, "/"@, j) {
                assert(plain.subrange(j, j + 1)[0] == plain[j]);
            }
        }
    }
}

/// The quantization of an Ollama model is the level its details give,
/// trimmed and uppercased, and only without one the label its name shows.
pub proof fn ollama_quantization_prefers_the_reported_level(level: Option<Seq<char>>, name: Seq<char>)
    ensures
        level matches Some(l) ==> (trim(l).len() > 0 ==> or_else(level_spec(level), quantization_of_name(name))
            == Some(ascii_upper(trim(l)))),
        (level is None || trim(level.unwrap()).len() == 0) ==> or_else(level_spec(level), quantization_of_name(name))
            == quantization_of_name(name),
{
}

} // verus!


