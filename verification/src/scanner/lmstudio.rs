//! LM Studio's model folders (`publisher/model/*.gguf`) and the metadata
//! its local API adds to the models found there.
use vstd::prelude::*;

use crate::models::{
    LocalModel, LocalModelCapabilities, LocalModelFile, LocalModelTechnical, ModelFormat,
    ModelRuntimeStatus, ModelSource, opt_str, strs,
};
use crate::scanner::common::{detect_format, detect_format_spec, parse_quantization_from_name, quantization_of_name};
use crate::scanner::metadata::{LocalModelMetadata, empty_metadata, merged_into};
use crate::sort::{SortField, sort_by_field, sorted_by, stable_sorted};
use crate::json::{self, JsonMember, JsonValue, json_get, json_str, json_u64};
use crate::scanner::metadata::{contains_str, merge_opt, or_else};
use crate::text::{
    CharClass, ascii_lower, chars_eq, chars_of, concat2, concat3, decimal, decimal_string,
    contains_chars, contains_seq, ends_with, ends_with_chars, lower_chars, parse_u64, parse_u64_spec, replace_char,
    replace_chars, string_of, trim, trim_chars, trim_str,
};

verus! {

/// The address of LM Studio's local server.
pub const LM_STUDIO_BASE_URL: &'static str = "http://localhost:1234";

/// The models found in LM Studio's models folder, and what could not be
/// read.
pub struct LmStudioScanReport {
    pub models: Vec<LocalModel>,
    pub warnings: Vec<String>,
}

/// An entry of a model folder, as the file system reported it.
pub struct ModelDirItem {
    /// Where the entry lies (named in warnings; its extension gives the
    /// format).
    pub path: String,
    /// The entry's file name.
    pub name: String,
    /// The entry's path relative to the model folder.
    pub relative_path: String,
    /// Whether it is a regular file.
    pub is_file: bool,
    /// Its length in bytes, or why it could not be inspected.
    pub size: Result<u64, String>,
    /// When it was last modified, in whole seconds since the Unix epoch.
    pub modified_secs: Option<u64>,
    /// What its GGUF header says, where it could be read.
    pub gguf: Option<LocalModelMetadata>,
}

/// An entry of a model folder, or why it could not be read.
pub enum ModelDirEntry {
    Unreadable(String),
    Item(ModelDirItem),
}

/// What scanning one model folder found.
pub struct ModelDirScan {
    pub model: Option<LocalModel>,
    pub warnings: Vec<String>,
}

/// The entry is a non-empty GGUF file, which makes it part of the model.
pub open spec fn accepted(e: ModelDirEntry) -> bool {
    match e {
        ModelDirEntry::Item(item) => item.is_file && detect_format_spec(item.path@)
            == ModelFormat::Gguf && (item.size matches Ok(len) && len > 0),
        ModelDirEntry::Unreadable(_) => false,
    }
}

/// The warning an entry gives, if any.
pub open spec fn dir_entry_warning(e: ModelDirEntry) -> Seq<Seq<char>> {
    match e {
        ModelDirEntry::Unreadable(err) => seq!["Could not read a model file entry: "@ + err@ + "."@],
        ModelDirEntry::Item(item) => if !item.is_file || detect_format_spec(item.path@)
            != ModelFormat::Gguf {
            Seq::empty()
        } else {
            match item.size {
                Err(err) => seq!["Could not inspect "@ + item.path@ + ": "@ + err@ + "."@],
                Ok(len) => if len == 0 {
                    seq!["Skipped zero-byte GGUF file "@ + item.path@ + "."@]
                } else {
                    Seq::empty()
                },
            }
        },
    }
}

/// The warnings of a folder's entries, in order.
pub open spec fn dir_warnings(es: Seq<ModelDirEntry>) -> Seq<Seq<char>>
    decreases es.len(),
{
    if es.len() == 0 {
        Seq::empty()
    } else {
        dir_warnings(es.drop_last()) + dir_entry_warning(es.last())
    }
}

/// The items that are part of the model, in order.
pub open spec fn accepted_items(es: Seq<ModelDirEntry>) -> Seq<ModelDirItem>
    decreases es.len(),
{
    if es.len() == 0 {
        Seq::empty()
    } else {
        accepted_items(es.drop_last()) + if accepted(es.last()) {
            seq![es.last()->Item_0]
        } else {
            Seq::empty()
        }
    }
}

/// The GGUF metadata that the model's files gave, in order.
pub open spec fn item_ggufs(items: Seq<ModelDirItem>) -> Seq<LocalModelMetadata>
    decreases items.len(),
{
    if items.len() == 0 {
        Seq::empty()
    } else {
        item_ggufs(items.drop_last()) + match items.last().gguf {
            Some(g) => seq![g],
            None => Seq::empty(),
        }
    }
}

/// The latest modification time of the items.
pub open spec fn latest_secs(items: Seq<ModelDirItem>) -> Option<u64>
    decreases items.len(),
{
    if items.len() == 0 {
        None
    } else {
        let before = latest_secs(items.drop_last());
        match (before, items.last().modified_secs) {
            (Some(a), Some(b)) => Some(if a >= b {
                a
            } else {
                b
            }),
            (Some(a), None) => Some(a),
            (None, b) => b,
        }
    }
}

/// The sum of the sizes of the items.
pub open spec fn items_size(items: Seq<ModelDirItem>) -> nat
    decreases items.len(),
{
    if items.len() == 0 {
        0
    } else {
        items_size(items.drop_last()) + match items.last().size {
            Ok(len) => len as nat,
            Err(_) => 0,
        }
    }
}

/// The model file record of an item.
pub open spec fn file_of_item(f: LocalModelFile, item: ModelDirItem) -> bool {
    &&& f.name@ == item.name@
    &&& f.path@ == item.relative_path@
    &&& f.size_bytes == match item.size {
        Ok(len) => Some(len),
        Err(_) => None,
    }
    &&& f.format == ModelFormat::Gguf
    &&& opt_str(f.quantization) == quantization_of_name(item.name@)
}

/// `ms` starts from nothing and merges each of `gs` in turn.
pub open spec fn merge_chain(ms: Seq<LocalModelMetadata>, gs: Seq<LocalModelMetadata>) -> bool {
    &&& ms.len() == gs.len() + 1
    &&& empty_metadata(ms[0])
    &&& forall|k: int| 0 <= k < gs.len() ==> merged_into(#[trigger] ms[k + 1], ms[k], gs[k])
}

/// The model a folder holds, from its accepted items.
pub open spec fn dir_model_spec(
    m: LocalModel,
    model_path: Seq<char>,
    publisher: Seq<char>,
    model_name: Seq<char>,
    items: Seq<ModelDirItem>,
) -> bool {
    let repo_id = publisher + "/"@ + model_name;
    &&& exists|fs: Seq<LocalModelFile>|
        {
            &&& fs.len() == items.len()
            &&& forall|i: int| 0 <= i < items.len() ==> file_of_item(#[trigger] fs[i], items[i])
            &&& m.files@ == stable_sorted(fs, SortField::Path)
            &&& m.files@.to_multiset() == fs.to_multiset()
        }
    &&& sorted_by(m.files@, SortField::Path)
    &&& m.id@ == "lmstudio:"@ + repo_id
    &&& m.display_name@ == model_name
    &&& opt_str(m.provider) == Some(publisher)
    &&& opt_str(m.repo_id) == Some(repo_id)
    &&& m.source == ModelSource::LmStudio
    &&& opt_str(m.path) == Some(model_path)
    &&& m.size_bytes == if items_size(items) > 0 {
        Some(items_size(items) as u64)
    } else {
        None
    }
    &&& m.format == Some(ModelFormat::Gguf)
    &&& opt_str(m.quantization) == if items.len() == 1 {
        quantization_of_name(items[0].name@)
    } else {
        None
    }
    &&& opt_str(m.last_modified) == match latest_secs(items) {
        Some(t) => Some(decimal(t as nat)),
        None => None,
    }
    &&& m.runtime_status == Some(ModelRuntimeStatus::Available)
    &&& exists|ms: Seq<LocalModelMetadata>|
        {
            &&& merge_chain(ms, item_ggufs(items))
            &&& m.technical == ms.last().technical
            &&& m.capabilities == ms.last().capabilities
            &&& m.provenance == ms.last().provenance
            &&& m.metadata_sources == ms.last().sources
        }
    &&& m.parameter_size == m.technical.parameter_size
}

/// The model file record of a GGUF file.
pub fn local_model_file(name: &str, relative_path: &str, size_bytes: u64) -> (r: LocalModelFile)
    ensures
        r.name@ == name@,
        r.path@ == relative_path@,
        r.size_bytes == Some(size_bytes),
        r.format == ModelFormat::Gguf,
        opt_str(r.quantization) == quantization_of_name(name@),
{
    LocalModelFile {
        name: name.to_owned(),
        path: relative_path.to_owned(),
        size_bytes: Some(size_bytes),
        format: ModelFormat::Gguf,
        quantization: parse_quantization_from_name(name),
    }
}

/// Scans one model folder from its entries: the non-empty GGUF files make
/// up the model (none, no model), and the other problems become warnings.
pub fn scan_model_dir(
    model_path: &str,
    publisher: &str,
    model_name: &str,
    entries: Vec<ModelDirEntry>,
) -> (r: ModelDirScan)
    requires
        items_size(accepted_items(entries@)) <= u64::MAX,
    ensures
        strs(r.warnings@) == dir_warnings(entries@),
        match r.model {
            Some(m) => accepted_items(entries@).len() > 0 && dir_model_spec(
                m,
                model_path@,
                publisher@,
                model_name@,
                accepted_items(entries@),
            ),
            None => accepted_items(entries@).len() == 0,
        },
{
    let ghost orig = entries@;
    assert(orig.len() == entries.len());
    let mut rest = entries;
    let mut files: Vec<LocalModelFile> = Vec::new();
    let mut warnings: Vec<String> = Vec::new();
    let mut last: Option<u64> = None;
    let mut size: u64 = 0;
    let mut quantization: Option<String> = None;
    let mut meta = LocalModelMetadata::default();
    let ghost mut ms: Seq<LocalModelMetadata> = seq![meta];
    let mut k: usize = 0;
    while rest.len() > 0
        invariant
            k + rest@.len() == orig.len(),
            orig.len() <= usize::MAX,
            rest@ == orig.skip(k as int),
            items_size(accepted_items(orig)) <= u64::MAX,
            strs(warnings@) == dir_warnings(orig.take(k as int)),
            files@.len() == accepted_items(orig.take(k as int)).len(),
            forall|i: int|
                0 <= i < files@.len() ==> file_of_item(
                    #[trigger] files@[i],
                    accepted_items(orig.take(k as int))[i],
                ),
            last == latest_secs(accepted_items(orig.take(k as int))),
            size == items_size(accepted_items(orig.take(k as int))),
            files@.len() == 1 ==> opt_str(quantization) == quantization_of_name(
                accepted_items(orig.take(k as int))[0].name@,
            ),
            merge_chain(ms, item_ggufs(accepted_items(orig.take(k as int)))),
            meta == ms.last(),
        decreases rest.len(),
    {
        let e = rest.remove(0);
        let ghost pre = orig.take(k as int);
        assert(e == orig[k as int]);
        assert(orig.take(k + 1).drop_last() =~= pre);
        assert(orig.take(k + 1).last() == e);
        assert(rest@ =~= orig.skip(k + 1));
        proof {
            lemma_items_size_prefix(orig, k + 1);
        }
        let ghost ws = strs(warnings@);
        let ghost fs0 = files@;
        match e {
            ModelDirEntry::Unreadable(err) => {
                warnings.push(concat3("Could not read a model file entry: ", err.as_str(), "."));
                assert(strs(warnings@) =~= ws + dir_entry_warning(orig[k as int]));
                assert(accepted_items(orig.take(k + 1)) =~= accepted_items(pre));
            },
            ModelDirEntry::Item(item) => {
                let ghost it = item;
                if !item.is_file || detect_format(item.path.as_str()) != ModelFormat::Gguf {
                    assert(strs(warnings@) =~= ws + dir_entry_warning(orig[k as int]));
                    assert(accepted_items(orig.take(k + 1)) =~= accepted_items(pre));
                } else {
                    match item.size {
                        Err(err) => {
                            let head = concat3("Could not inspect ", item.path.as_str(), ": ");
                            warnings.push(concat3(head.as_str(), err.as_str(), "."));
                            assert(strs(warnings@) =~= ws + dir_entry_warning(orig[k as int]));
                            assert(accepted_items(orig.take(k + 1)) =~= accepted_items(pre));
                        },
                        Ok(len) => {
                            if len == 0 {
                                warnings.push(
                                    concat3("Skipped zero-byte GGUF file ", item.path.as_str(), "."),
                                );
                                assert(strs(warnings@) =~= ws + dir_entry_warning(orig[k as int]));
                                assert(accepted_items(orig.take(k + 1)) =~= accepted_items(pre));
                            } else {
                                assert(strs(warnings@) =~= ws + dir_entry_warning(orig[k as int]));
                                let ghost acc = accepted_items(pre);
                                assert(accepted_items(orig.take(k + 1)) =~= acc.push(it));
                                assert(acc.push(it).drop_last() =~= acc);
                                last = match (last, item.modified_secs) {
                                    (Some(a), Some(b)) => Some(if a >= b {
                                        a
                                    } else {
                                        b
                                    }),
                                    (Some(a), None) => Some(a),
                                    (None, b) => b,
                                };
                                assert(items_size(acc.push(it)) <= u64::MAX);
                                size = size + len;
                                let f = local_model_file(
                                    item.name.as_str(),
                                    item.relative_path.as_str(),
                                    len,
                                );
                                if files.len() == 0 {
                                    quantization = parse_quantization_from_name(item.name.as_str());
                                }
                                files.push(f);
                                assert(forall|i: int|
                                    0 <= i < fs0.len() ==> files@[i] == fs0[i]);
                                match item.gguf {
                                    Some(g) => {
                                        let ghost before = meta;
                                        meta.merge(g);
                                        proof {
                                            assert(item_ggufs(acc.push(it)) =~= item_ggufs(acc).push(g));
                                            ms = ms.push(meta);
                                        }
                                    },
                                    None => {
                                        assert(item_ggufs(acc.push(it)) =~= item_ggufs(acc));
                                    },
                                }
                            }
                        },
                    }
                }
            },
        }
        k += 1;
    }
    assert(orig.take(k as int) =~= orig);
    if files.len() == 0 {
        return ModelDirScan { model: None, warnings };
    }
    let ghost fs = files@;
    let files = sort_by_field(files, SortField::Path);
    let repo_id = concat3(publisher, "/", model_name);
    let parameter_size = match &meta.technical.parameter_size {
        Some(p) => Some(p.clone()),
        None => None,
    };
    let last_modified = match last {
        Some(t) => Some(decimal_string(t)),
        None => None,
    };
    let quantization = if files.len() == 1 {
        quantization
    } else {
        None
    };
    let model = LocalModel {
        id: concat2("lmstudio:", repo_id.as_str()),
        display_name: model_name.to_owned(),
        provider: Some(publisher.to_owned()),
        repo_id: Some(repo_id),
        source: ModelSource::LmStudio,
        path: Some(model_path.to_owned()),
        size_bytes: if size > 0 {
            Some(size)
        } else {
            None
        },
        format: Some(ModelFormat::Gguf),
        quantization,
        parameter_size,
        last_modified,
        files,
        runtime_status: Some(ModelRuntimeStatus::Available),
        technical: meta.technical,
        capabilities: meta.capabilities,
        provenance: meta.provenance,
        metadata_sources: meta.sources,
    };
    ModelDirScan { model: Some(model), warnings }
}

proof fn lemma_items_size_prefix(es: Seq<ModelDirEntry>, n: int)
    requires
        0 <= n <= es.len(),
    ensures
        items_size(accepted_items(es.take(n))) <= items_size(accepted_items(es)),
    decreases es.len(),
{
    if n < es.len() {
        assert(es.drop_last().take(n) =~= es.take(n));
        lemma_items_size_prefix(es.drop_last(), n);
        let a = accepted_items(es.drop_last());
        if accepted(es.last()) {
            assert((a + seq![es.last()->Item_0]).drop_last() =~= a);
        } else {
            assert(a + Seq::<ModelDirItem>::empty() =~= a);
        }
    } else {
        assert(es.take(n) =~= es);
    }
}

/// A model as LM Studio's local API describes it.
pub struct LmStudioApiModel {
    pub id: Option<String>,
    pub display_name: Option<String>,
    pub path: Option<String>,
    pub publisher: Option<String>,
    pub architecture: Option<String>,
    pub format: Option<String>,
    pub quantization: Option<JsonValue>,
    pub parameter_size: Option<JsonValue>,
    pub parameter_count: Option<JsonValue>,
    pub max_context_length: Option<JsonValue>,
    pub size_bytes: Option<JsonValue>,
    pub model_type: Option<String>,
    pub capabilities: Option<JsonValue>,
    pub state: Option<String>,
    pub loaded_instances: Vec<JsonValue>,
}

/// The API's model list, under either of the two names it uses.
pub struct LmStudioApiModelsResponse {
    pub data: Vec<LmStudioApiModel>,
    pub models: Vec<LmStudioApiModel>,
}

impl LmStudioApiModelsResponse {
    /// The listed models: `data` unless it is empty, else `models`.
    pub fn into_models(self) -> (r: Vec<LmStudioApiModel>)
        ensures
            r@ == if self.data@.len() == 0 {
                self.models@
            } else {
                self.data@
            },
    {
        if self.data.len() == 0 {
            self.models
        } else {
            self.data
        }
    }
}

/// A text with blanks trimmed, unless nothing is left of it.
pub open spec fn clean_spec(v: Option<Seq<char>>) -> Option<Seq<char>> {
    match v {
        Some(s) => if trim(s).len() > 0 {
            Some(trim(s))
        } else {
            None
        },
        None => None,
    }
}

/// A value read as a count: an unsigned integer, or a string that spells
/// one.
pub open spec fn value_u64_spec(v: JsonValue) -> Option<u64> {
    match json_u64(v) {
        Some(n) => Some(n),
        None => match json_str(v) {
            Some(s) => parse_u64_spec(s),
            None => None,
        },
    }
}

/// A value read as a label: a string, or a count in decimal; blank labels
/// are dropped.
pub open spec fn value_string_spec(v: JsonValue) -> Option<Seq<char>> {
    let s = match json_str(v) {
        Some(x) => Some(x),
        None => match value_u64_spec(v) {
            Some(n) => Some(decimal(n as nat)),
            None => None,
        },
    };
    match s {
        Some(x) => if trim(x).len() > 0 {
            Some(x)
        } else {
            None
        },
        None => None,
    }
}

/// The first of the keys whose member reads as a label.
pub open spec fn first_label_member(v: JsonValue, keys: Seq<Seq<char>>) -> Option<Seq<char>>
    decreases keys.len(),
{
    if keys.len() == 0 {
        None
    } else {
        match json_get(v, keys[0]) {
            Some(x) if value_string_spec(x) is Some => value_string_spec(x),
            _ => first_label_member(v, keys.drop_first()),
        }
    }
}

/// A quantization as the API gives it: a label, or an object whose `name`,
/// `value`, `level` or `type` member is one.
pub open spec fn quantization_spec(v: JsonValue) -> Option<Seq<char>> {
    match value_string_spec(v) {
        Some(x) => Some(x),
        None => match v {
            JsonValue::Object(_) => first_label_member(v, seq!["name"@, "value"@, "level"@, "type"@]),
            _ => None,
        },
    }
}

/// The format an API format name stands for.
pub open spec fn api_format_spec(f: Seq<char>) -> ModelFormat {
    let k = ascii_lower(trim(f));
    if k == "gguf"@ {
        ModelFormat::Gguf
    } else if k == "safetensors"@ {
        ModelFormat::Safetensors
    } else if k == "onnx"@ {
        ModelFormat::Onnx
    } else if k == "mlx"@ {
        ModelFormat::Mlx
    } else {
        ModelFormat::Unknown
    }
}

/// The runtime status an API state name stands for.
pub open spec fn api_state_spec(state: Seq<char>) -> Option<ModelRuntimeStatus> {
    let k = ascii_lower(trim(state));
    if k == "loaded"@ {
        Some(ModelRuntimeStatus::Loaded)
    } else if k == "running"@ {
        Some(ModelRuntimeStatus::Running)
    } else if k == "available"@ || k == "not-loaded"@ || k == "not_loaded"@ || k == "unloaded"@ {
        Some(ModelRuntimeStatus::Available)
    } else {
        None
    }
}

/// The capability names an API value lists: the strings of an array, or
/// the keys of an object whose value is `true` (or the text `true` in any
/// case); trimmed, lowercased, and non-empty.
pub open spec fn capability_names_spec(v: JsonValue) -> Seq<Seq<char>> {
    match v {
        JsonValue::Array(a) => array_capabilities(a@),
        JsonValue::Object(m) => object_capabilities(m@),
        _ => Seq::empty(),
    }
}

pub open spec fn array_capabilities(a: Seq<JsonValue>) -> Seq<Seq<char>>
    decreases a.len(),
{
    if a.len() == 0 {
        Seq::empty()
    } else {
        array_capabilities(a.drop_last()) + match a.last() {
            JsonValue::String(s) => if ascii_lower(trim(s@)).len() > 0 {
                seq![ascii_lower(trim(s@))]
            } else {
                Seq::empty()
            },
            _ => Seq::empty(),
        }
    }
}

/// The member's value says `true`.
pub open spec fn says_true(v: JsonValue) -> bool {
    match v {
        JsonValue::Bool(b) => b,
        JsonValue::String(s) => ascii_lower(s@) == "true"@,
        _ => false,
    }
}

pub open spec fn object_capabilities(m: Seq<JsonMember>) -> Seq<Seq<char>>
    decreases m.len(),
{
    if m.len() == 0 {
        Seq::empty()
    } else {
        object_capabilities(m.drop_last()) + if says_true(m.last().value) && ascii_lower(
            trim(m.last().key@),
        ).len() > 0 {
            seq![ascii_lower(trim(m.last().key@))]
        } else {
            Seq::empty()
        }
    }
}

/// A key as models are matched by: trimmed, `\` made `/`, lowercased.
pub open spec fn model_key(s: Seq<char>) -> Seq<char> {
    ascii_lower(replace_char(trim(s), '\\', '/'))
}

/// The names a local model goes by: its display name, id, repository id,
/// and each file's name and path.
pub open spec fn model_candidates(m: LocalModel) -> Seq<Seq<char>> {
    seq![m.display_name@, m.id@] + match m.repo_id {
        Some(r) => seq![r@],
        None => Seq::empty(),
    } + file_candidates(m.files@)
}

pub open spec fn file_candidates(files: Seq<LocalModelFile>) -> Seq<Seq<char>>
    decreases files.len(),
{
    if files.len() == 0 {
        Seq::empty()
    } else {
        file_candidates(files.drop_last()) + seq![files.last().name@, files.last().path@]
    }
}

/// The names an API model goes by: its id, display name and path, where
/// not blank.
pub open spec fn api_keys(a: LmStudioApiModel) -> Seq<Seq<char>> {
    let one = |o: Option<String>|
        match clean_spec(opt_str(o)) {
            Some(k) => seq![k],
            None => Seq::<Seq<char>>::empty(),
        };
    one(a.id) + one(a.display_name) + one(a.path)
}

/// An API name matches a local name: equal as keys, or ending in `/` and
/// the local name.
pub open spec fn key_matches(api_id: Seq<char>, candidate: Seq<char>) -> bool {
    let a = model_key(api_id);
    let c = model_key(candidate);
    a == c || ends_with(a, "/"@ + c)
}

/// The API model describes the local model.
pub open spec fn api_matches(a: LmStudioApiModel, m: LocalModel) -> bool {
    exists|i: int, j: int|
        0 <= i < api_keys(a).len() && 0 <= j < model_candidates(m).len() && key_matches(
            #[trigger] api_keys(a)[i],
            #[trigger] model_candidates(m)[j],
        )
}

/// `*target` is given `value` only if it has nothing yet; says whether
/// that happened.
pub fn set_option_if_missing<T>(target: &mut Option<T>, value: Option<T>) -> (changed: bool)
    ensures
        *final(target) == merge_opt(*old(target), value),
        changed == ((*old(target)) is None && value is Some),
{
    if target.is_none() && value.is_some() {
        *target = value;
        true
    } else {
        false
    }
}

/// Appends a non-blank value the list does not hold yet; says whether it
/// did.
pub fn push_unique_string(target: &mut Vec<String>, value: String) -> (changed: bool)
    ensures
        changed == (trim(value@).len() > 0 && !strs(old(target)@).contains(value@)),
        strs(final(target)@) == if changed {
            strs(old(target)@).push(value@)
        } else {
            strs(old(target)@)
        },
        !changed ==> final(target)@ == old(target)@,
        final(target)@.len() == old(target)@.len() + if changed {
            1int
        } else {
            0int
        },
{
    let t = trim_str(value.as_str());
    if t.as_str().is_empty() || contains_str(target, &value) {
        return false;
    }
    let ghost before = strs(target@);
    target.push(value);
    assert(strs(target@) =~= before.push(value@));
    true
}

/// Trims a text, dropping it if nothing is left.
pub fn clean_string(value: Option<String>) -> (r: Option<String>)
    ensures
        opt_str(r) == clean_spec(opt_str(value)),
{
    match value {
        Some(v) => {
            let t = trim_str(v.as_str());
            if t.as_str().is_empty() {
                None
            } else {
                Some(t)
            }
        },
        None => None,
    }
}

fn clean_ref(value: &Option<String>) -> (r: Option<String>)
    ensures
        opt_str(r) == clean_spec(opt_str(*value)),
{
    match value {
        Some(v) => clean_string(Some(v.clone())),
        None => None,
    }
}

/// A value read as a count.
pub fn value_u64(v: &JsonValue) -> (r: Option<u64>)
    ensures
        r == value_u64_spec(*v),
{
    match json::as_u64(v) {
        Some(n) => Some(n),
        None => match json::as_str(v) {
            Some(s) => parse_u64(s),
            None => None,
        },
    }
}

/// A value read as a label.
fn value_string(v: &JsonValue) -> (r: Option<String>)
    ensures
        opt_str(r) == value_string_spec(*v),
{
    let s = match json::as_str(v) {
        Some(x) => Some(x.to_owned()),
        None => match value_u64(v) {
            Some(n) => Some(decimal_string(n)),
            None => None,
        },
    };
    match s {
        Some(x) => {
            let t = trim_str(x.as_str());
            if t.as_str().is_empty() {
                None
            } else {
                Some(x)
            }
        },
        None => None,
    }
}

/// A quantization as the API gives it.
fn quantization_string(v: &JsonValue) -> (r: Option<String>)
    ensures
        opt_str(r) == quantization_spec(*v),
{
    match value_string(v) {
        Some(x) => Some(x),
        None => match v {
            JsonValue::Object(_) => {
                let keys = ["name", "value", "level", "type"];
                let ghost ks = seq!["name"@, "value"@, "level"@, "type"@];
                assert(keys@.map_values(|k: &str| k@) =~= ks);
                let mut i: usize = 0;
                assert(ks.skip(0) =~= ks);
                while i < keys.len()
                    invariant
                        0 <= i <= 4,
                        keys@.map_values(|k: &str| k@) == ks,
                        ks == seq!["name"@, "value"@, "level"@, "type"@],
                        first_label_member(*v, ks) == first_label_member(*v, ks.skip(i as int)),
                    decreases 4 - i,
                {
                    assert(ks.skip(i as int)[0] == keys@[i as int]@);
                    assert(ks.skip(i as int).drop_first() =~= ks.skip(i + 1));
                    match json::get(v, keys[i]) {
                        Some(x) => match value_string(x) {
                            Some(label) => {
                                return Some(label);
                            },
                            None => {},
                        },
                        None => {},
                    }
                    i += 1;
                }
                None
            },
            _ => None,
        },
    }
}

pub fn eq_lit(v: &[char], lit: &str) -> (r: bool)
    ensures
        r == (v@ == lit@),
{
    let l = chars_of(lit);
    chars_eq(v, l.as_slice())
}

/// The format an API format name stands for.
fn model_format_from_api(format: &str) -> (r: ModelFormat)
    ensures
        r == api_format_spec(format@),
{
    let v = chars_of(format);
    let t = trim_chars(v.as_slice(), CharClass::Whitespace);
    let k = lower_chars(t.as_slice());
    if eq_lit(k.as_slice(), "gguf") {
        ModelFormat::Gguf
    } else if eq_lit(k.as_slice(), "safetensors") {
        ModelFormat::Safetensors
    } else if eq_lit(k.as_slice(), "onnx") {
        ModelFormat::Onnx
    } else if eq_lit(k.as_slice(), "mlx") {
        ModelFormat::Mlx
    } else {
        ModelFormat::Unknown
    }
}

/// The runtime status an API state name stands for.
fn runtime_status_from_api(state: &str) -> (r: Option<ModelRuntimeStatus>)
    ensures
        r == api_state_spec(state@),
{
    let v = chars_of(state);
    let t = trim_chars(v.as_slice(), CharClass::Whitespace);
    let k = lower_chars(t.as_slice());
    if eq_lit(k.as_slice(), "loaded") {
        Some(ModelRuntimeStatus::Loaded)
    } else if eq_lit(k.as_slice(), "running") {
        Some(ModelRuntimeStatus::Running)
    } else if eq_lit(k.as_slice(), "available") || eq_lit(k.as_slice(), "not-loaded") || eq_lit(
        k.as_slice(),
        "not_loaded",
    ) || eq_lit(k.as_slice(), "unloaded") {
        Some(ModelRuntimeStatus::Available)
    } else {
        None
    }
}

pub fn lower_trimmed(s: &str) -> (r: String)
    ensures
        r@ == ascii_lower(trim(s@)),
{
    let v = chars_of(s);
    let t = trim_chars(v.as_slice(), CharClass::Whitespace);
    let k = lower_chars(t.as_slice());
    string_of(k.as_slice())
}

/// The capability names an API value lists.
fn capability_names(v: &JsonValue) -> (r: Vec<String>)
    ensures
        strs(r@) == capability_names_spec(*v),
{
    let mut out: Vec<String> = Vec::new();
    match v {
        JsonValue::Array(a) => {
            let mut i: usize = 0;
            while i < a.len()
                invariant
                    0 <= i <= a@.len(),
                    strs(out@) == array_capabilities(a@.take(i as int)),
                decreases a.len() - i,
            {
                assert(a@.take(i + 1).drop_last() =~= a@.take(i as int));
                let ghost before = strs(out@);
                match &a[i] {
                    JsonValue::String(s) => {
                        let name = lower_trimmed(s.as_str());
                        if name.as_str().is_empty() {
                            assert(strs(out@) =~= before + Seq::<Seq<char>>::empty());
                        } else {
                            out.push(name);
                            assert(strs(out@) =~= before + seq![ascii_lower(trim(s@))]);
                        }
                    },
                    _ => {
                        assert(strs(out@) =~= before + Seq::<Seq<char>>::empty());
                    },
                }
                i += 1;
            }
            assert(a@.take(a@.len() as int) =~= a@);
        },
        JsonValue::Object(m) => {
            let mut i: usize = 0;
            while i < m.len()
                invariant
                    0 <= i <= m@.len(),
                    strs(out@) == object_capabilities(m@.take(i as int)),
                decreases m.len() - i,
            {
                assert(m@.take(i + 1).drop_last() =~= m@.take(i as int));
                let ghost before = strs(out@);
                let yes = match &m[i].value {
                    JsonValue::Bool(b) => *b,
                    JsonValue::String(s) => {
                        let l = chars_of(s.as_str());
                        let low = lower_chars(l.as_slice());
                        eq_lit(low.as_slice(), "true")
                    },
                    _ => false,
                };
                let name = lower_trimmed(m[i].key.as_str());
                if yes && !name.as_str().is_empty() {
                    out.push(name);
                    assert(strs(out@) =~= before + seq![ascii_lower(trim(m@[i as int].key@))]);
                } else {
                    assert(strs(out@) =~= before + Seq::<Seq<char>>::empty());
                }
                i += 1;
            }
            assert(m@.take(m@.len() as int) =~= m@);
        },
        _ => {},
    }
    out
}

/// A key as models are matched by.
fn normalize_model_key(value: &str) -> (r: Vec<char>)
    ensures
        r@ == model_key(value@),
{
    let v = chars_of(value);
    let t = trim_chars(v.as_slice(), CharClass::Whitespace);
    let slashed = replace_chars(t.as_slice(), '\\', '/');
    lower_chars(slashed.as_slice())
}

fn push_clean_key(keys: &mut Vec<String>, value: &Option<String>)
    ensures
        strs(final(keys)@) == strs(old(keys)@) + match clean_spec(opt_str(*value)) {
            Some(k) => seq![k],
            None => Seq::<Seq<char>>::empty(),
        },
{
    let ghost before = strs(keys@);
    match clean_ref(value) {
        Some(k) => {
            keys.push(k);
            assert(strs(keys@) =~= before + seq![clean_spec(opt_str(*value)).unwrap()]);
        },
        None => {
            assert(strs(keys@) =~= before + Seq::<Seq<char>>::empty());
        },
    }
}

/// The names an API model goes by.
fn api_model_keys(a: &LmStudioApiModel) -> (r: Vec<String>)
    ensures
        strs(r@) == api_keys(*a),
{
    let mut keys: Vec<String> = Vec::new();
    push_clean_key(&mut keys, &a.id);
    push_clean_key(&mut keys, &a.display_name);
    push_clean_key(&mut keys, &a.path);
    assert(strs(keys@) =~= api_keys(*a));
    keys
}

/// The names a local model goes by.
fn model_candidate_names(m: &LocalModel) -> (r: Vec<String>)
    ensures
        strs(r@) == model_candidates(*m),
{
    let mut out: Vec<String> = Vec::new();
    out.push(m.display_name.clone());
    out.push(m.id.clone());
    match &m.repo_id {
        Some(r) => {
            out.push(r.clone());
        },
        None => {},
    }
    let ghost head = strs(out@);
    assert(head =~= seq![m.display_name@, m.id@] + match m.repo_id {
        Some(r) => seq![r@],
        None => Seq::<Seq<char>>::empty(),
    });
    let mut i: usize = 0;
    while i < m.files.len()
        invariant
            0 <= i <= m.files@.len(),
            strs(out@) == head + file_candidates(m.files@.take(i as int)),
        decreases m.files.len() - i,
    {
        assert(m.files@.take(i + 1).drop_last() =~= m.files@.take(i as int));
        let ghost before = strs(out@);
        out.push(m.files[i].name.clone());
        out.push(m.files[i].path.clone());
        assert(strs(out@) =~= before + seq![m.files@[i as int].name@, m.files@[i as int].path@]);
        i += 1;
    }
    assert(m.files@.take(m.files@.len() as int) =~= m.files@);
    out
}

fn key_matches_exec(api_id: &str, candidate: &str) -> (r: bool)
    ensures
        r == key_matches(api_id@, candidate@),
{
    let a = normalize_model_key(api_id);
    let c = normalize_model_key(candidate);
    if chars_eq(a.as_slice(), c.as_slice()) {
        return true;
    }
    let mut suffix: Vec<char> = Vec::new();
    suffix.push('/');
    let mut i: usize = 0;
    while i < c.len()
        invariant
            0 <= i <= c@.len(),
            suffix@ == seq!['/'] + c@.take(i as int),
        decreases c.len() - i,
    {
        suffix.push(c[i]);
        assert(c@.take(i + 1) =~= c@.take(i as int).push(c@[i as int]));
        i += 1;
    }
    assert(c@.take(c@.len() as int) =~= c@);
    proof {
        reveal_strlit("/");
    }
    assert(suffix@ =~= "/"@ + c@);
    ends_with_chars(a.as_slice(), suffix.as_slice())
}

/// Whether an API model describes a local model: one of its names matches
/// one of the local model's names.
pub fn api_model_matches_local_model(a: &LmStudioApiModel, m: &LocalModel) -> (r: bool)
    ensures
        r == api_matches(*a, *m),
{
    let keys = api_model_keys(a);
    let cands = model_candidate_names(m);
    let mut i: usize = 0;
    while i < keys.len()
        invariant
            0 <= i <= keys@.len(),
            strs(keys@) == api_keys(*a),
            strs(cands@) == model_candidates(*m),
            forall|x: int, y: int|
                0 <= x < i && 0 <= y < cands@.len() ==> !key_matches(
                    #[trigger] api_keys(*a)[x],
                    #[trigger] model_candidates(*m)[y],
                ),
        decreases keys.len() - i,
    {
        let mut j: usize = 0;
        while j < cands.len()
            invariant
                0 <= i < keys@.len(),
                0 <= j <= cands@.len(),
                strs(keys@) == api_keys(*a),
                strs(cands@) == model_candidates(*m),
                forall|x: int, y: int|
                    0 <= x < i && 0 <= y < cands@.len() ==> !key_matches(
                        #[trigger] api_keys(*a)[x],
                        #[trigger] model_candidates(*m)[y],
                    ),
                forall|y: int| 0 <= y < j ==> !key_matches(api_keys(*a)[i as int], #[trigger] model_candidates(*m)[y]),
            decreases cands.len() - j,
        {
            assert(strs(keys@)[i as int] == keys@[i as int]@);
            assert(strs(cands@)[j as int] == cands@[j as int]@);
            if key_matches_exec(keys[i].as_str(), cands[j].as_str()) {
                assert(key_matches(api_keys(*a)[i as int], model_candidates(*m)[j as int]));
                return true;
            }
            j += 1;
        }
        i += 1;
    }
    false
}

/// The capability list holds one of the names.
pub open spec fn lists_any(caps: Option<Seq<Seq<char>>>, names: Seq<Seq<char>>) -> bool {
    caps matches Some(c) && exists|i: int| 0 <= i < names.len() && c.contains(#[trigger] names[i])
}

/// Fills `o` with `Some(true)` when `cond` holds and `o` has nothing.
pub open spec fn fill_true(o: Option<bool>, cond: bool) -> Option<bool> {
    if cond {
        merge_opt(o, Some(true))
    } else {
        o
    }
}

/// Whether the API has anything to add to the model: a field the model
/// lacks, a family it does not list, a better format, a capability, or a
/// runtime state.
pub open spec fn api_changes(m: LocalModel, a: LmStudioApiModel) -> bool {
    let arch = clean_spec(opt_str(a.architecture));
    let quant = match a.quantization {
        Some(v) => quantization_spec(v),
        None => None,
    };
    let psize = match a.parameter_size {
        Some(v) => value_string_spec(v),
        None => None,
    };
    let pcount = match a.parameter_count {
        Some(v) => value_u64_spec(v),
        None => None,
    };
    let ctx = match a.max_context_length {
        Some(v) => value_u64_spec(v),
        None => None,
    };
    let size = match a.size_bytes {
        Some(v) => value_u64_spec(v),
        None => None,
    };
    let fmt = match a.format {
        Some(f) => Some(api_format_spec(f@)),
        None => None,
    };
    let set_format = fmt matches Some(f) && f != ModelFormat::Unknown && (m.format is None
        || m.format == Some(ModelFormat::Unknown));
    let embed_type = clean_spec(opt_str(a.model_type)) matches Some(t) && contains_seq(
        ascii_lower(t),
        "embedding"@,
    );
    let caps = match a.capabilities {
        Some(v) => Some(capability_names_spec(v)),
        None => None,
    };
    let status = or_else(
        match a.state {
            Some(s) => api_state_spec(s@),
            None => None,
        },
        if a.loaded_instances@.len() > 0 {
            Some(ModelRuntimeStatus::Loaded)
        } else {
            None
        },
    );
    let publisher = clean_spec(opt_str(a.publisher));
    let embedding1 = fill_true(m.capabilities.embedding, embed_type);
    let new_family = arch matches Some(x) && !strs(m.technical.families@).contains(x);
    let vision = lists_any(caps, seq!["vision"@]);
    let embeds = lists_any(caps, seq!["embedding"@, "embeddings"@]);
    let tools = lists_any(caps, seq!["tool"@, "tools"@, "tool_use"@]);
    let reasons = lists_any(caps, seq!["reasoning"@, "thinking"@]);
    (m.provider is None && publisher is Some) || (m.technical.architecture is None
        && arch is Some) || (m.technical.family is None && arch is Some) || new_family || (
    m.quantization is None && quant is Some) || (m.parameter_size is None && psize is Some) || (
    m.technical.parameter_size is None && psize is Some) || (m.technical.parameter_count is None
        && pcount is Some) || (m.technical.max_context_length is None && ctx is Some) || (
    m.technical.context_length is None && ctx is Some) || (m.size_bytes is None && size is Some)
        || set_format || (embed_type && m.capabilities.embedding is None) || (vision
        && m.capabilities.vision is None) || (embeds && embedding1 is None) || (tools
        && m.capabilities.tool_use is None) || (reasons && m.capabilities.reasoning is None)
        || status is Some
}

/// What the API adds to a local model: every field the model lacks is
/// filled from the API's description, the format only replaces a missing
/// or unknown one, the API's runtime state replaces the model's, and
/// `lmstudio_api` joins the metadata sources when anything changed.
pub open spec fn enriched(r: LocalModel, m: LocalModel, a: LmStudioApiModel) -> bool {
    let arch = clean_spec(opt_str(a.architecture));
    let quant = match a.quantization {
        Some(v) => quantization_spec(v),
        None => None,
    };
    let psize = match a.parameter_size {
        Some(v) => value_string_spec(v),
        None => None,
    };
    let pcount = match a.parameter_count {
        Some(v) => value_u64_spec(v),
        None => None,
    };
    let ctx = match a.max_context_length {
        Some(v) => value_u64_spec(v),
        None => None,
    };
    let size = match a.size_bytes {
        Some(v) => value_u64_spec(v),
        None => None,
    };
    let fmt = match a.format {
        Some(f) => Some(api_format_spec(f@)),
        None => None,
    };
    let set_format = fmt matches Some(f) && f != ModelFormat::Unknown && (m.format is None
        || m.format == Some(ModelFormat::Unknown));
    let embed_type = clean_spec(opt_str(a.model_type)) matches Some(t) && contains_seq(
        ascii_lower(t),
        "embedding"@,
    );
    let caps = match a.capabilities {
        Some(v) => Some(capability_names_spec(v)),
        None => None,
    };
    let status = or_else(
        match a.state {
            Some(s) => api_state_spec(s@),
            None => None,
        },
        if a.loaded_instances@.len() > 0 {
            Some(ModelRuntimeStatus::Loaded)
        } else {
            None
        },
    );
    let publisher = clean_spec(opt_str(a.publisher));
    let embedding1 = fill_true(m.capabilities.embedding, embed_type);
    let new_family = arch matches Some(x) && !strs(m.technical.families@).contains(x);
    let vision = lists_any(caps, seq!["vision"@]);
    let embeds = lists_any(caps, seq!["embedding"@, "embeddings"@]);
    let tools = lists_any(caps, seq!["tool"@, "tools"@, "tool_use"@]);
    let reasons = lists_any(caps, seq!["reasoning"@, "thinking"@]);
    let changed = api_changes(m, a);
    &&& opt_str(r.provider) == merge_opt(opt_str(m.provider), publisher)
    &&& opt_str(r.technical.architecture) == merge_opt(opt_str(m.technical.architecture), arch)
    &&& opt_str(r.technical.family) == merge_opt(opt_str(m.technical.family), arch)
    &&& strs(r.technical.families@) == if new_family {
        strs(m.technical.families@).push(arch.unwrap())
    } else {
        strs(m.technical.families@)
    }
    &&& opt_str(r.quantization) == merge_opt(opt_str(m.quantization), quant)
    &&& opt_str(r.parameter_size) == merge_opt(opt_str(m.parameter_size), psize)
    &&& opt_str(r.technical.parameter_size) == merge_opt(opt_str(m.technical.parameter_size), psize)
    &&& r.technical.parameter_count == merge_opt(m.technical.parameter_count, pcount)
    &&& r.technical.max_context_length == merge_opt(m.technical.max_context_length, ctx)
    &&& r.technical.context_length == merge_opt(m.technical.context_length, ctx)
    &&& r.size_bytes == merge_opt(m.size_bytes, size)
    &&& r.format == if set_format {
        fmt
    } else {
        m.format
    }
    &&& r.capabilities.embedding == fill_true(embedding1, embeds)
    &&& r.capabilities.vision == fill_true(m.capabilities.vision, vision)
    &&& r.capabilities.tool_use == fill_true(m.capabilities.tool_use, tools)
    &&& r.capabilities.reasoning == fill_true(m.capabilities.reasoning, reasons)
    &&& r.runtime_status == match status {
        Some(st) => Some(st),
        None => m.runtime_status,
    }
    &&& strs(r.metadata_sources@) == if changed && !strs(m.metadata_sources@).contains(
        "lmstudio_api"@,
    ) {
        strs(m.metadata_sources@).push("lmstudio_api"@)
    } else {
        strs(m.metadata_sources@)
    }
    &&& r.id == m.id
    &&& r.display_name == m.display_name
    &&& r.repo_id == m.repo_id
    &&& r.source == m.source
    &&& r.path == m.path
    &&& r.last_modified == m.last_modified
    &&& r.files == m.files
    &&& r.technical.embedding_length == m.technical.embedding_length
    &&& r.technical.block_count == m.technical.block_count
    &&& r.technical.attention_heads == m.technical.attention_heads
    &&& r.technical.kv_heads == m.technical.kv_heads
    &&& r.technical.vocab_size == m.technical.vocab_size
    &&& r.technical.tokenizer == m.technical.tokenizer
    &&& r.provenance == m.provenance
}

fn lists_any_exec(caps: &Option<Vec<String>>, names: &[&str]) -> (r: bool)
    ensures
        r == lists_any(
            match caps {
                Some(c) => Some(strs(c@)),
                None => None,
            },
            names@.map_values(|n: &str| n@),
        ),
{
    let ghost ns = names@.map_values(|n: &str| n@);
    match caps {
        Some(c) => {
            let mut i: usize = 0;
            while i < names.len()
                invariant
                    0 <= i <= names@.len(),
                    ns == names@.map_values(|n: &str| n@),
                    *caps == Some(*c),
                    forall|j: int| 0 <= j < i ==> !strs(c@).contains(#[trigger] ns[j]),
                decreases names.len() - i,
            {
                let name = names[i].to_owned();
                if contains_str(c, &name) {
                    assert(strs(c@).contains(ns[i as int]));
                    return true;
                }
                i += 1;
            }
            false
        },
        None => false,
    }
}

/// Fills the capabilities an API capability list names; says whether any
/// was filled.
pub fn merge_capabilities(model: &mut LocalModel, caps: &Option<Vec<String>>) -> (changed: bool)
    ensures
        ({
            let c = match caps {
                Some(c) => Some(strs(c@)),
                None => None,
            };
            let vision = lists_any(c, seq!["vision"@]);
            let embeds = lists_any(c, seq!["embedding"@, "embeddings"@]);
            let tools = lists_any(c, seq!["tool"@, "tools"@, "tool_use"@]);
            let reasons = lists_any(c, seq!["reasoning"@, "thinking"@]);
            &&& final(model).capabilities.vision == fill_true(old(model).capabilities.vision, vision)
            &&& final(model).capabilities.embedding == fill_true(old(model).capabilities.embedding, embeds)
            &&& final(model).capabilities.tool_use == fill_true(old(model).capabilities.tool_use, tools)
            &&& final(model).capabilities.reasoning == fill_true(old(model).capabilities.reasoning, reasons)
            &&& changed == ((vision && old(model).capabilities.vision is None) || (embeds
                && old(model).capabilities.embedding is None) || (tools
                && old(model).capabilities.tool_use is None) || (reasons
                && old(model).capabilities.reasoning is None))
        }),
        *final(model) == (LocalModel { capabilities: final(model).capabilities, ..*old(model) }),
{
    let mut changed = false;
    let v = ["vision"];
    assert(v@.map_values(|n: &str| n@) =~= seq!["vision"@]);
    if lists_any_exec(caps, &v) {
        changed = set_option_if_missing(&mut model.capabilities.vision, Some(true)) || changed;
    }
    let e = ["embedding", "embeddings"];
    assert(e@.map_values(|n: &str| n@) =~= seq!["embedding"@, "embeddings"@]);
    if lists_any_exec(caps, &e) {
        changed = set_option_if_missing(&mut model.capabilities.embedding, Some(true)) || changed;
    }
    let t = ["tool", "tools", "tool_use"];
    assert(t@.map_values(|n: &str| n@) =~= seq!["tool"@, "tools"@, "tool_use"@]);
    if lists_any_exec(caps, &t) {
        changed = set_option_if_missing(&mut model.capabilities.tool_use, Some(true)) || changed;
    }
    let r = ["reasoning", "thinking"];
    assert(r@.map_values(|n: &str| n@) =~= seq!["reasoning"@, "thinking"@]);
    if lists_any_exec(caps, &r) {
        changed = set_option_if_missing(&mut model.capabilities.reasoning, Some(true)) || changed;
    }
    changed
}

fn opt_value_u64(v: &Option<JsonValue>) -> (r: Option<u64>)
    ensures
        r == match *v {
            Some(x) => value_u64_spec(x),
            None => None,
        },
{
    match v {
        Some(x) => value_u64(x),
        None => None,
    }
}

/// Fills the provider and architecture a model lacks.
fn fill_identity(model: &mut LocalModel, a: &LmStudioApiModel) -> (changed: bool)
    ensures
        ({
            let m = *old(model);
            let r = *final(model);
            let arch = clean_spec(opt_str(a.architecture));
            let publisher = clean_spec(opt_str(a.publisher));
            let new_family = arch matches Some(x) && !strs(m.technical.families@).contains(x);
            &&& opt_str(r.provider) == merge_opt(opt_str(m.provider), publisher)
            &&& opt_str(r.technical.architecture) == merge_opt(opt_str(m.technical.architecture), arch)
            &&& opt_str(r.technical.family) == merge_opt(opt_str(m.technical.family), arch)
            &&& strs(r.technical.families@) == if new_family {
                strs(m.technical.families@).push(arch.unwrap())
            } else {
                strs(m.technical.families@)
            }
            &&& changed == ((m.provider is None && publisher is Some) || (m.technical.architecture
                is None && arch is Some) || (m.technical.family is None && arch is Some) || new_family)
            &&& r == (LocalModel {
                provider: r.provider,
                technical: LocalModelTechnical {
                    architecture: r.technical.architecture,
                    family: r.technical.family,
                    families: r.technical.families,
                    ..m.technical
                },
                ..m
            })
        }),
{
    let c1 = set_option_if_missing(&mut model.provider, clean_ref(&a.publisher));
    let arch = clean_ref(&a.architecture);
    let c2 = set_option_if_missing(&mut model.technical.architecture, clean_ref(&a.architecture));
    let c3 = set_option_if_missing(&mut model.technical.family, clean_ref(&a.architecture));
    proof {
        if let Some(raw) = &a.architecture {
            crate::text::lemma_trim_idempotent(raw@, CharClass::Whitespace);
        }
    }
    let c4 = match arch {
        Some(x) => push_unique_string(&mut model.technical.families, x),
        None => false,
    };
    c1 || c2 || c3 || c4
}

/// Fills the quantization, sizes and counts a model lacks.
fn fill_numbers(model: &mut LocalModel, a: &LmStudioApiModel) -> (changed: bool)
    ensures
        ({
            let m = *old(model);
            let r = *final(model);
            let quant = match a.quantization {
                Some(v) => quantization_spec(v),
                None => None,
            };
            let psize = match a.parameter_size {
                Some(v) => value_string_spec(v),
                None => None,
            };
            let pcount = match a.parameter_count {
                Some(v) => value_u64_spec(v),
                None => None,
            };
            let ctx = match a.max_context_length {
                Some(v) => value_u64_spec(v),
                None => None,
            };
            let size = match a.size_bytes {
                Some(v) => value_u64_spec(v),
                None => None,
            };
            &&& opt_str(r.quantization) == merge_opt(opt_str(m.quantization), quant)
            &&& opt_str(r.parameter_size) == merge_opt(opt_str(m.parameter_size), psize)
            &&& opt_str(r.technical.parameter_size) == merge_opt(opt_str(m.technical.parameter_size), psize)
            &&& r.technical.parameter_count == merge_opt(m.technical.parameter_count, pcount)
            &&& r.technical.max_context_length == merge_opt(m.technical.max_context_length, ctx)
            &&& r.technical.context_length == merge_opt(m.technical.context_length, ctx)
            &&& r.size_bytes == merge_opt(m.size_bytes, size)
            &&& changed == ((m.quantization is None && quant is Some) || (m.parameter_size is None
                && psize is Some) || (m.technical.parameter_size is None && psize is Some) || (
            m.technical.parameter_count is None && pcount is Some) || (
            m.technical.max_context_length is None && ctx is Some) || (m.technical.context_length
                is None && ctx is Some) || (m.size_bytes is None && size is Some))
            &&& r == (LocalModel {
                quantization: r.quantization,
                parameter_size: r.parameter_size,
                size_bytes: r.size_bytes,
                technical: LocalModelTechnical {
                    parameter_size: r.technical.parameter_size,
                    parameter_count: r.technical.parameter_count,
                    max_context_length: r.technical.max_context_length,
                    context_length: r.technical.context_length,
                    ..m.technical
                },
                ..m
            })
        }),
{
    let quant = match &a.quantization {
        Some(v) => quantization_string(v),
        None => None,
    };
    let c5 = set_option_if_missing(&mut model.quantization, quant);
    let psize = match &a.parameter_size {
        Some(v) => value_string(v),
        None => None,
    };
    let psize2 = match &psize {
        Some(p) => Some(p.clone()),
        None => None,
    };
    let c6 = set_option_if_missing(&mut model.parameter_size, psize2);
    let c7 = set_option_if_missing(&mut model.technical.parameter_size, psize);
    let c8 = set_option_if_missing(
        &mut model.technical.parameter_count,
        opt_value_u64(&a.parameter_count),
    );
    let ctx = opt_value_u64(&a.max_context_length);
    let c9 = set_option_if_missing(&mut model.technical.max_context_length, ctx);
    let c10 = set_option_if_missing(&mut model.technical.context_length, ctx);
    let c11 = set_option_if_missing(&mut model.size_bytes, opt_value_u64(&a.size_bytes));
    c5 || c6 || c7 || c8 || c9 || c10 || c11
}

/// Sets a known format where the model's is missing or unknown, and marks
/// an embedding model as such.
fn fill_format_and_kind(model: &mut LocalModel, a: &LmStudioApiModel) -> (changed: bool)
    ensures
        ({
            let m = *old(model);
            let r = *final(model);
            let fmt = match a.format {
                Some(f) => Some(api_format_spec(f@)),
                None => None,
            };
            let set_format = fmt matches Some(f) && f != ModelFormat::Unknown && (m.format is None
                || m.format == Some(ModelFormat::Unknown));
            let embed_type = clean_spec(opt_str(a.model_type)) matches Some(t) && contains_seq(
                ascii_lower(t),
                "embedding"@,
            );
            &&& r.format == if set_format {
                fmt
            } else {
                m.format
            }
            &&& r.capabilities.embedding == fill_true(m.capabilities.embedding, embed_type)
            &&& changed == (set_format || (embed_type && m.capabilities.embedding is None))
            &&& r == (LocalModel {
                format: r.format,
                capabilities: LocalModelCapabilities { embedding: r.capabilities.embedding, ..m.capabilities },
                ..m
            })
        }),
{
    let mut c12 = false;
    match &a.format {
        Some(f) => {
            let fmt = model_format_from_api(f.as_str());
            let unknown_before = match model.format {
                None => true,
                Some(ModelFormat::Unknown) => true,
                Some(_) => false,
            };
            if fmt != ModelFormat::Unknown && unknown_before {
                model.format = Some(fmt);
                c12 = true;
            }
        },
        None => {},
    }
    let mut c13 = false;
    match clean_ref(&a.model_type) {
        Some(t) => {
            let low = lower_chars(chars_of(t.as_str()).as_slice());
            let key = chars_of("embedding");
            if contains_chars(low.as_slice(), key.as_slice()) {
                c13 = set_option_if_missing(&mut model.capabilities.embedding, Some(true));
            }
        },
        None => {},
    }
    c12 || c13
}

/// The runtime status the API reports: its state, else loaded when it has
/// loaded instances.
fn api_status(a: &LmStudioApiModel) -> (r: Option<ModelRuntimeStatus>)
    ensures
        r == or_else(
            match a.state {
                Some(s) => api_state_spec(s@),
                None => None,
            },
            if a.loaded_instances@.len() > 0 {
                Some(ModelRuntimeStatus::Loaded)
            } else {
                None
            },
        ),
{
    let state_status = match &a.state {
        Some(st) => runtime_status_from_api(st.as_str()),
        None => None,
    };
    match state_status {
        Some(st) => Some(st),
        None => if a.loaded_instances.len() > 0 {
            Some(ModelRuntimeStatus::Loaded)
        } else {
            None
        },
    }
}

/// Adds what an API description says to a local model (see `enriched`).
pub fn enrich_model_from_api(model: &mut LocalModel, a: &LmStudioApiModel)
    ensures
        enriched(*final(model), *old(model), *a),
{
    let c1 = fill_identity(model, a);
    let c2 = fill_numbers(model, a);
    let c3 = fill_format_and_kind(model, a);
    let caps = match &a.capabilities {
        Some(v) => Some(capability_names(v)),
        None => None,
    };
    let c4 = merge_capabilities(model, &caps);
    let status = api_status(a);
    let c5 = match status {
        Some(st) => {
            model.runtime_status = Some(st);
            true
        },
        None => false,
    };
    proof {
        reveal_strlit("lmstudio_api");
        crate::text::lemma_trim_keeps("lmstudio_api"@, CharClass::Whitespace, 0);
    }
    if c1 || c2 || c3 || c4 || c5 {
        push_unique_string(&mut model.metadata_sources, "lmstudio_api".to_owned());
    }
}

/// The first API model that describes `m`.
pub open spec fn first_match(api: Seq<LmStudioApiModel>, m: LocalModel, j: int) -> bool {
    &&& 0 <= j < api.len()
    &&& api_matches(api[j], m)
    &&& forall|k: int| 0 <= k < j ==> !api_matches(#[trigger] api[k], m)
}

/// `r` is `m` enriched from the first API model that describes it, or `m`
/// itself where none does.
pub open spec fn enriched_from_list(r: LocalModel, m: LocalModel, api: Seq<LmStudioApiModel>) -> bool {
    if exists|j: int| first_match(api, m, j) {
        enriched(r, m, api[choose|j: int| first_match(api, m, j)])
    } else {
        r == m
    }
}

fn find_api_model(api_models: &[LmStudioApiModel], m: &LocalModel) -> (r: Option<usize>)
    ensures
        match r {
            Some(j) => first_match(api_models@, *m, j as int),
            None => !exists|j: int| first_match(api_models@, *m, j),
        },
{
    let mut j: usize = 0;
    while j < api_models.len()
        invariant
            0 <= j <= api_models@.len(),
            forall|k: int| 0 <= k < j ==> !api_matches(#[trigger] api_models@[k], *m),
        decreases api_models.len() - j,
    {
        if api_model_matches_local_model(&api_models[j], m) {
            return Some(j);
        }
        j += 1;
    }
    None
}

proof fn lemma_first_match_unique(api: Seq<LmStudioApiModel>, m: LocalModel, j: int)
    requires
        first_match(api, m, j),
    ensures
        (choose|c: int| first_match(api, m, c)) == j,
{
    let c = choose|c: int| first_match(api, m, c);
    if c < j {
        assert(!api_matches(api[c], m));
    } else if j < c {
        assert(!api_matches(api[j], m));
    }
}

/// Enriches each local model from the first API model that describes it.
pub fn enrich_models_from_api(models: &mut Vec<LocalModel>, api_models: &[LmStudioApiModel])
    ensures
        final(models)@.len() == old(models)@.len(),
        forall|i: int|
            0 <= i < old(models)@.len() ==> enriched_from_list(
                #[trigger] final(models)@[i],
                old(models)@[i],
                api_models@,
            ),
{
    let ghost orig = models@;
    let mut i: usize = 0;
    while i < models.len()
        invariant
            0 <= i <= models@.len(),
            models@.len() == orig.len(),
            forall|k: int| i <= k < models@.len() ==> models@[k] == orig[k],
            forall|x: int|
                0 <= x < i ==> enriched_from_list(#[trigger] models@[x], orig[x], api_models@),
        decreases models.len() - i,
    {
        match find_api_model(api_models, &models[i]) {
            Some(j) => {
                proof {
                    lemma_first_match_unique(api_models@, models@[i as int], j as int);
                }
                let ghost before = models@;
                let mut model = models.remove(i);
                enrich_model_from_api(&mut model, &api_models[j]);
                models.insert(i, model);
                assert forall|x: int| 0 <= x < models@.len() && x != i implies models@[x] == before[x] by {}
            },
            None => {},
        }
        i += 1;
    }
}

/// What one step of walking the models folder came to.
pub enum LmStudioEntry {
    /// An entry of the models folder could not be read; the error's text.
    PublisherUnreadable(String),
    /// A publisher folder (its path) could not be listed; the error's text.
    PublisherFolderUnreadable(String, String),
    /// An entry of a publisher's folder (the publisher) could not be read.
    ModelEntryUnreadable(String, String),
    /// A model folder (publisher, model name) could not be listed.
    ModelFolderFailed(String, String, String),
    /// A model folder was scanned.
    ModelFolder(ModelDirScan),
}

/// The warnings a step gives.
pub open spec fn lm_entry_warnings(e: LmStudioEntry) -> Seq<Seq<char>> {
    match e {
        LmStudioEntry::PublisherUnreadable(err) => seq![
            "Could not read an LM Studio publisher entry: "@ + err@ + "."@,
        ],
        LmStudioEntry::PublisherFolderUnreadable(path, err) => seq![
            "Could not read LM Studio publisher folder "@ + path@ + ": "@ + err@ + "."@,
        ],
        LmStudioEntry::ModelEntryUnreadable(publisher, err) => seq![
            "Could not read an LM Studio model entry for "@ + publisher@ + ": "@ + err@ + "."@,
        ],
        LmStudioEntry::ModelFolderFailed(publisher, name, err) => seq![
            publisher@ + "/"@ + name@ + ": "@ + err@,
        ],
        LmStudioEntry::ModelFolder(scan) => strs(scan.warnings@),
    }
}

/// The model a step gives.
pub open spec fn lm_entry_model(e: LmStudioEntry) -> Seq<LocalModel> {
    match e {
        LmStudioEntry::ModelFolder(scan) => match scan.model {
            Some(m) => seq![m],
            None => Seq::empty(),
        },
        _ => Seq::empty(),
    }
}

pub open spec fn lm_warnings(es: Seq<LmStudioEntry>) -> Seq<Seq<char>>
    decreases es.len(),
{
    if es.len() == 0 {
        Seq::empty()
    } else {
        lm_warnings(es.drop_last()) + lm_entry_warnings(es.last())
    }
}

pub open spec fn lm_models(es: Seq<LmStudioEntry>) -> Seq<LocalModel>
    decreases es.len(),
{
    if es.len() == 0 {
        Seq::empty()
    } else {
        lm_models(es.drop_last()) + lm_entry_model(es.last())
    }
}

fn append_strings(target: &mut Vec<String>, values: Vec<String>)
    ensures
        strs(final(target)@) == strs(old(target)@) + strs(values@),
{
    let ghost start = strs(target@);
    let mut rest = values;
    let ghost orig = rest@;
    let mut k: usize = 0;
    assert(orig.len() == rest.len());
    while rest.len() > 0
        invariant
            k + rest@.len() == orig.len(),
            orig.len() <= usize::MAX,
            rest@ == orig.skip(k as int),
            strs(target@) == start + strs(orig.take(k as int)),
        decreases rest.len(),
    {
        let v = rest.remove(0);
        assert(v == orig[k as int]);
        assert(rest@ =~= orig.skip(k + 1));
        let ghost before = strs(target@);
        target.push(v);
        assert(strs(orig.take(k + 1)) =~= strs(orig.take(k as int)).push(v@));
        assert(strs(target@) =~= before.push(v@));
        k += 1;
    }
    assert(orig.take(k as int) =~= orig);
}

/// The report of a models folder walk: the models found, ordered by id,
/// and the warnings in the order they arose.
pub fn lm_studio_report(entries: Vec<LmStudioEntry>) -> (r: LmStudioScanReport)
    ensures
        strs(r.warnings@) == lm_warnings(entries@),
        r.models@ == stable_sorted(lm_models(entries@), SortField::Id),
        r.models@.to_multiset() == lm_models(entries@).to_multiset(),
        sorted_by(r.models@, SortField::Id),
{
    let ghost orig = entries@;
    assert(orig.len() == entries.len());
    let mut rest = entries;
    let mut models: Vec<LocalModel> = Vec::new();
    let mut warnings: Vec<String> = Vec::new();
    let mut k: usize = 0;
    while rest.len() > 0
        invariant
            k + rest@.len() == orig.len(),
            orig.len() <= usize::MAX,
            rest@ == orig.skip(k as int),
            strs(warnings@) == lm_warnings(orig.take(k as int)),
            models@ == lm_models(orig.take(k as int)),
        decreases rest.len(),
    {
        let e = rest.remove(0);
        assert(e == orig[k as int]);
        assert(orig.take(k + 1).drop_last() =~= orig.take(k as int));
        assert(orig.take(k + 1).last() == e);
        assert(rest@ =~= orig.skip(k + 1));
        let ghost ws = strs(warnings@);
        let ghost ms = models@;
        match e {
            LmStudioEntry::PublisherUnreadable(err) => {
                warnings.push(
                    concat3("Could not read an LM Studio publisher entry: ", err.as_str(), "."),
                );
                assert(models@ =~= ms + lm_entry_model(orig[k as int]));
            },
            LmStudioEntry::PublisherFolderUnreadable(path, err) => {
                let head = concat3("Could not read LM Studio publisher folder ", path.as_str(), ": ");
                warnings.push(concat3(head.as_str(), err.as_str(), "."));
                assert(models@ =~= ms + lm_entry_model(orig[k as int]));
            },
            LmStudioEntry::ModelEntryUnreadable(publisher, err) => {
                let head = concat3(
                    "Could not read an LM Studio model entry for ",
                    publisher.as_str(),
                    ": ",
                );
                warnings.push(concat3(head.as_str(), err.as_str(), "."));
                assert(models@ =~= ms + lm_entry_model(orig[k as int]));
            },
            LmStudioEntry::ModelFolderFailed(publisher, name, err) => {
                let head = concat3(publisher.as_str(), "/", name.as_str());
                warnings.push(concat3(head.as_str(), ": ", err.as_str()));
                assert(models@ =~= ms + lm_entry_model(orig[k as int]));
            },
            LmStudioEntry::ModelFolder(scan) => {
                let ModelDirScan { model, warnings: ws2 } = scan;
                append_strings(&mut warnings, ws2);
                match model {
                    Some(m) => {
                        models.push(m);
                    },
                    None => {},
                }
                assert(models@ =~= ms + lm_entry_model(orig[k as int]));
            },
        }
        assert(strs(warnings@) =~= ws + lm_entry_warnings(orig[k as int]));
        k += 1;
    }
    assert(orig.take(k as int) =~= orig);
    let models = sort_by_field(models, SortField::Id);
    LmStudioScanReport { models, warnings }
}

/// Enriching a scanned model from LM Studio's API only fills gaps: the
/// model's identity, location, modification time, files, provenance and
/// the technical fields the API does not describe stay as they are; every
/// other field that was known keeps its value, except the runtime status
/// (set when the API reports a state or a loaded instance) and a format
/// that was missing or unknown; the family list and the metadata sources
/// only grow at their end, and `lmstudio_api` is added, once, exactly when
/// the API had something to add.
pub proof fn api_enrichment_keeps_known_fields(r: LocalModel, m: LocalModel, a: LmStudioApiModel)
    requires
        enriched(r, m, a),
    ensures
        r.id == m.id,
        r.display_name == m.display_name,
        r.repo_id == m.repo_id,
        r.source == m.source,
        r.path == m.path,
        r.last_modified == m.last_modified,
        r.files == m.files,
        r.provenance == m.provenance,
        r.technical.embedding_length == m.technical.embedding_length,
        r.technical.block_count == m.technical.block_count,
        r.technical.attention_heads == m.technical.attention_heads,
        r.technical.kv_heads == m.technical.kv_heads,
        r.technical.vocab_size == m.technical.vocab_size,
        r.technical.tokenizer == m.technical.tokenizer,
        m.provider is Some ==> opt_str(r.provider) == opt_str(m.provider),
        m.technical.architecture is Some ==> opt_str(r.technical.architecture) == opt_str(
            m.technical.architecture,
        ),
        m.technical.family is Some ==> opt_str(r.technical.family) == opt_str(m.technical.family),
        m.quantization is Some ==> opt_str(r.quantization) == opt_str(m.quantization),
        m.parameter_size is Some ==> opt_str(r.parameter_size) == opt_str(m.parameter_size),
        m.technical.parameter_size is Some ==> opt_str(r.technical.parameter_size) == opt_str(
            m.technical.parameter_size,
        ),
        m.technical.parameter_count is Some ==> r.technical.parameter_count == m.technical.parameter_count,
        m.technical.context_length is Some ==> r.technical.context_length == m.technical.context_length,
        m.technical.max_context_length is Some ==> r.technical.max_context_length
            == m.technical.max_context_length,
        m.size_bytes is Some ==> r.size_bytes == m.size_bytes,
        m.format is Some && m.format != Some(ModelFormat::Unknown) ==> r.format == m.format,
        m.capabilities.vision is Some ==> r.capabilities.vision == m.capabilities.vision,
        m.capabilities.embedding is Some ==> r.capabilities.embedding == m.capabilities.embedding,
        m.capabilities.tool_use is Some ==> r.capabilities.tool_use == m.capabilities.tool_use,
        m.capabilities.reasoning is Some ==> r.capabilities.reasoning == m.capabilities.reasoning,
        r.runtime_status != m.runtime_status ==> api_changes(m, a),
        strs(m.technical.families@).is_prefix_of(strs(r.technical.families@)),
        strs(r.technical.families@).len() <= strs(m.technical.families@).len() + 1,
        strs(r.metadata_sources@) == if api_changes(m, a) && !strs(m.metadata_sources@).contains(
            "lmstudio_api"@,
        ) {
            strs(m.metadata_sources@).push("lmstudio_api"@)
        } else {
            strs(m.metadata_sources@)
        },
{
}

/// The runtime status LM Studio's API reports becomes the model's: a state
/// that reads `loaded` once trimmed and lowercased makes it Loaded,
/// `running` makes it Running, and `available`, `not-loaded`, `not_loaded`
/// or `unloaded` make it Available; with no state, a loaded instance makes
/// it Loaded, and with neither the status stays as it was.
pub proof fn api_state_sets_runtime_status(r: LocalModel, m: LocalModel, a: LmStudioApiModel)
    requires
        enriched(r, m, a),
    ensures
        a.state matches Some(s) ==> (ascii_lower(trim(s@)) == "loaded"@ ==> r.runtime_status == Some(
            ModelRuntimeStatus::Loaded,
        )),
        a.state matches Some(s) ==> (ascii_lower(trim(s@)) == "running"@ ==> r.runtime_status == Some(
            ModelRuntimeStatus::Running,
        )),
        a.state matches Some(s) ==> ((ascii_lower(trim(s@)) == "available"@ || ascii_lower(trim(s@))
            == "not-loaded"@ || ascii_lower(trim(s@)) == "not_loaded"@ || ascii_lower(trim(s@))
            == "unloaded"@) ==> r.runtime_status == Some(ModelRuntimeStatus::Available)),
        a.state is None ==> (a.loaded_instances@.len() > 0 ==> r.runtime_status == Some(
            ModelRuntimeStatus::Loaded,
        )),
        (a.state is None && a.loaded_instances@.len() == 0) ==> r.runtime_status == m.runtime_status,
{
    reveal_strlit("loaded");
    reveal_strlit("running");
    reveal_strlit("available");
    reveal_strlit("not-loaded");
    reveal_strlit("not_loaded");
    reveal_strlit("unloaded");
    assert("loaded"@.len() == 6 && "running"@.len() == 7 && "available"@.len() == 9);
    assert("not-loaded"@.len() == 10 && "not_loaded"@.len() == 10 && "unloaded"@.len() == 8);
    if let Some(s) = a.state {
        let k = ascii_lower(trim(s@));
        if k == "running"@ {
            assert(k != "loaded"@);
            assert(api_state_spec(s@) == Some(ModelRuntimeStatus::Running));
        }
        if k == "available"@ || k == "not-loaded"@ || k == "not_loaded"@ || k == "unloaded"@ {
            assert(k != "loaded"@ && k != "running"@);
            assert(api_state_spec(s@) == Some(ModelRuntimeStatus::Available));
        }
    }
}

/// The format LM Studio's API names becomes the model's format: `gguf`,
/// `safetensors`, `onnx` and `mlx`, once trimmed and lowercased, name their
/// formats, and any other name an unknown one.
pub proof fn api_format_names_the_format(f: Seq<char>)
    ensures
        ascii_lower(trim(f)) == "gguf"@ ==> api_format_spec(f) == ModelFormat::Gguf,
        ascii_lower(trim(f)) == "safetensors"@ ==> api_format_spec(f) == ModelFormat::Safetensors,
        ascii_lower(trim(f)) == "onnx"@ ==> api_format_spec(f) == ModelFormat::Onnx,
        ascii_lower(trim(f)) == "mlx"@ ==> api_format_spec(f) == ModelFormat::Mlx,
        (ascii_lower(trim(f)) != "gguf"@ && ascii_lower(trim(f)) != "safetensors"@ && ascii_lower(
            trim(f),
        ) != "onnx"@ && ascii_lower(trim(f)) != "mlx"@) ==> api_format_spec(f) == ModelFormat::Unknown,
{
    reveal_strlit("gguf");
    reveal_strlit("safetensors");
    reveal_strlit("onnx");
    reveal_strlit("mlx");
    assert("gguf"@[0] != "onnx"@[0]);
    assert("gguf"@.len() == 4 && "onnx"@.len() == 4 && "mlx"@.len() == 3 && "safetensors"@.len() == 11);
}

} // verus!


