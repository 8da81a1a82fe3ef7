//! Model metadata from local files: GGUF headers, Hugging Face model
//! cards, and the rule for combining what several sources say.
use vstd::prelude::*;

use crate::models::{
    LocalModelCapabilities, LocalModelProvenance, LocalModelTechnical, capabilities_empty,
    opt_str, provenance_empty, strs, technical_empty,
};
use crate::json::{
    self, JsonValue, json_field_str, json_field_u64, json_get, json_strings, json_text_value,
};
use crate::scanner::gguf::{
    GgufSpecValue, GgufValue, entries_view, gguf_entries, read_gguf_entries, value_view,
};
use crate::text::{
    CharClass, chars_of, chars_eq, concat3, contains_seq, find_class, in_class, none_in_class,
    slice_chars, starts_with, starts_with_chars, str_contains, string_of, trim, trim_chars,
    trim_class, trim_str,
};

verus! {

/// What local files say about a model, and which files said it.
#[derive(Debug, Clone)]
pub struct LocalModelMetadata {
    pub technical: LocalModelTechnical,
    pub capabilities: LocalModelCapabilities,
    pub provenance: LocalModelProvenance,
    pub sources: Vec<String>,
}

impl Default for LocalModelMetadata {
    fn default() -> (r: Self)
        ensures
            technical_empty(r.technical),
            capabilities_empty(r.capabilities),
            provenance_empty(r.provenance),
            r.sources@.len() == 0,
    {
        LocalModelMetadata {
            technical: LocalModelTechnical::default(),
            capabilities: LocalModelCapabilities::default(),
            provenance: LocalModelProvenance::default(),
            sources: Vec::new(),
        }
    }
}

/// `value` fills `target` only when nothing is known yet.
pub open spec fn merge_opt<T>(target: Option<T>, value: Option<T>) -> Option<T> {
    if target is None {
        value
    } else {
        target
    }
}

/// Appends each non-blank value of `values` that `target` does not hold yet.
pub open spec fn merge_strings_spec(target: Seq<Seq<char>>, values: Seq<Seq<char>>) -> Seq<Seq<char>>
    decreases values.len(),
{
    if values.len() == 0 {
        target
    } else {
        let v = values[0];
        let next = if trim(v).len() > 0 && !target.contains(v) {
            target.push(v)
        } else {
            target
        };
        merge_strings_spec(next, values.drop_first())
    }
}

fn merge_option<T>(target: &mut Option<T>, value: Option<T>)
    ensures
        *final(target) == merge_opt(*old(target), value),
{
    if target.is_none() {
        *target = value;
    }
}

pub fn contains_str(v: &Vec<String>, s: &String) -> (r: bool)
    ensures
        r == strs(v@).contains(s@),
{
    let mut i: usize = 0;
    while i < v.len()
        invariant
            0 <= i <= v.len(),
            forall|j: int| 0 <= j < i ==> v@[j]@ != s@,
        decreases v.len() - i,
    {
        if v[i] == *s {
            assert(strs(v@)[i as int] == s@);
            return true;
        }
        i += 1;
    }
    proof {
        if strs(v@).contains(s@) {
            let j = choose|j: int| 0 <= j < strs(v@).len() && strs(v@)[j] == s@;
            assert(v@[j]@ == s@);
        }
    }
    false
}

fn merge_strings(target: &mut Vec<String>, values: Vec<String>)
    ensures
        strs(final(target)@) == merge_strings_spec(strs(old(target)@), strs(values@)),
{
    let ghost goal = merge_strings_spec(strs(target@), strs(values@));
    assert(strs(values@).skip(0) =~= strs(values@));
    for value in it: values
        invariant
            goal == merge_strings_spec(
                strs(target@),
                it.seq().map_values(|s: String| s@).skip(it.index() as int),
            ),
    {
        let ghost rest = it.seq().map_values(|s: String| s@).skip(it.index() as int);
        assert(rest[0] == value@);
        assert(rest.drop_first() =~= it.seq().map_values(|s: String| s@).skip(it.index() + 1));
        let trimmed = trim_str(value.as_str());
        if !trimmed.as_str().is_empty() && !contains_str(target, &value) {
            let ghost before = strs(target@);
            target.push(value);
            assert(strs(target@) =~= before.push(rest[0]));
        }
    }
}

/// `r` is `a` with the gaps filled from `b`: every field `a` knows stays,
/// missing ones come from `b`, and lists gain `b`'s new non-blank entries.
pub open spec fn merged_into(r: LocalModelMetadata, a: LocalModelMetadata, b: LocalModelMetadata) -> bool {
    let (rt, at, bt) = (r.technical, a.technical, b.technical);
    let (rc, ac, bc) = (r.capabilities, a.capabilities, b.capabilities);
    let (rp, ap, bp) = (r.provenance, a.provenance, b.provenance);
    &&& rt.architecture == merge_opt(at.architecture, bt.architecture)
    &&& rt.family == merge_opt(at.family, bt.family)
    &&& strs(rt.families@) == merge_strings_spec(strs(at.families@), strs(bt.families@))
    &&& rt.parameter_count == merge_opt(at.parameter_count, bt.parameter_count)
    &&& rt.parameter_size == merge_opt(at.parameter_size, bt.parameter_size)
    &&& rt.context_length == merge_opt(at.context_length, bt.context_length)
    &&& rt.max_context_length == merge_opt(at.max_context_length, bt.max_context_length)
    &&& rt.embedding_length == merge_opt(at.embedding_length, bt.embedding_length)
    &&& rt.block_count == merge_opt(at.block_count, bt.block_count)
    &&& rt.attention_heads == merge_opt(at.attention_heads, bt.attention_heads)
    &&& rt.kv_heads == merge_opt(at.kv_heads, bt.kv_heads)
    &&& rt.vocab_size == merge_opt(at.vocab_size, bt.vocab_size)
    &&& rt.tokenizer == merge_opt(at.tokenizer, bt.tokenizer)
    &&& rc.vision == merge_opt(ac.vision, bc.vision)
    &&& rc.embedding == merge_opt(ac.embedding, bc.embedding)
    &&& rc.tool_use == merge_opt(ac.tool_use, bc.tool_use)
    &&& rc.reasoning == merge_opt(ac.reasoning, bc.reasoning)
    &&& rp.digest == merge_opt(ap.digest, bp.digest)
    &&& rp.snapshot_sha == merge_opt(ap.snapshot_sha, bp.snapshot_sha)
    &&& rp.license == merge_opt(ap.license, bp.license)
    &&& strs(rp.tags@) == merge_strings_spec(strs(ap.tags@), strs(bp.tags@))
    &&& strs(rp.languages@) == merge_strings_spec(strs(ap.languages@), strs(bp.languages@))
    &&& strs(rp.datasets@) == merge_strings_spec(strs(ap.datasets@), strs(bp.datasets@))
    &&& strs(rp.base_models@) == merge_strings_spec(strs(ap.base_models@), strs(bp.base_models@))
    &&& rp.repo_url == merge_opt(ap.repo_url, bp.repo_url)
    &&& strs(r.sources@) == merge_strings_spec(strs(a.sources@), strs(b.sources@))
}

impl LocalModelMetadata {
    /// Fills what is still unknown from `other`; what is known stays.
    pub fn merge(&mut self, other: LocalModelMetadata)
        ensures
            merged_into(*final(self), *old(self), other),
    {
        let LocalModelMetadata { technical, capabilities, provenance, sources } = other;
        let LocalModelTechnical {
            architecture,
            family,
            families,
            parameter_count,
            parameter_size,
            context_length,
            max_context_length,
            embedding_length,
            block_count,
            attention_heads,
            kv_heads,
            vocab_size,
            tokenizer,
        } = technical;
        merge_option(&mut self.technical.architecture, architecture);
        merge_option(&mut self.technical.family, family);
        merge_strings(&mut self.technical.families, families);
        merge_option(&mut self.technical.parameter_count, parameter_count);
        merge_option(&mut self.technical.parameter_size, parameter_size);
        merge_option(&mut self.technical.context_length, context_length);
        merge_option(&mut self.technical.max_context_length, max_context_length);
        merge_option(&mut self.technical.embedding_length, embedding_length);
        merge_option(&mut self.technical.block_count, block_count);
        merge_option(&mut self.technical.attention_heads, attention_heads);
        merge_option(&mut self.technical.kv_heads, kv_heads);
        merge_option(&mut self.technical.vocab_size, vocab_size);
        merge_option(&mut self.technical.tokenizer, tokenizer);
        let LocalModelCapabilities { vision, embedding, tool_use, reasoning } = capabilities;
        merge_option(&mut self.capabilities.vision, vision);
        merge_option(&mut self.capabilities.embedding, embedding);
        merge_option(&mut self.capabilities.tool_use, tool_use);
        merge_option(&mut self.capabilities.reasoning, reasoning);
        let LocalModelProvenance {
            digest,
            snapshot_sha,
            license,
            tags,
            languages,
            datasets,
            base_models,
            repo_url,
        } = provenance;
        merge_option(&mut self.provenance.digest, digest);
        merge_option(&mut self.provenance.snapshot_sha, snapshot_sha);
        merge_option(&mut self.provenance.license, license);
        merge_strings(&mut self.provenance.tags, tags);
        merge_strings(&mut self.provenance.languages, languages);
        merge_strings(&mut self.provenance.datasets, datasets);
        merge_strings(&mut self.provenance.base_models, base_models);
        merge_option(&mut self.provenance.repo_url, repo_url);
        merge_strings(&mut self.sources, sources);
    }
}

/// Merging only appends: the lists it starts from stay in front.
pub proof fn lemma_merge_strings_extends(target: Seq<Seq<char>>, values: Seq<Seq<char>>)
    ensures
        merge_strings_spec(target, values).len() >= target.len(),
        merge_strings_spec(target, values).subrange(0, target.len() as int) == target,
    decreases values.len(),
{
    if values.len() > 0 {
        let v = values[0];
        let next = if trim(v).len() > 0 && !target.contains(v) {
            target.push(v)
        } else {
            target
        };
        lemma_merge_strings_extends(next, values.drop_first());
        assert(next.subrange(0, target.len() as int) == target);
        assert(merge_strings_spec(target, values).subrange(0, target.len() as int) == merge_strings_spec(
            target,
            values,
        ).subrange(0, next.len() as int).subrange(0, target.len() as int));
    }
}

/// Merging metadata never loses or replaces what was already known: every
/// known field keeps its value and every list keeps its entries in front.
pub proof fn merge_keeps_known(r: LocalModelMetadata, a: LocalModelMetadata, b: LocalModelMetadata)
    requires
        merged_into(r, a, b),
    ensures
        a.technical.architecture is Some ==> r.technical.architecture == a.technical.architecture,
        a.technical.family is Some ==> r.technical.family == a.technical.family,
        a.technical.parameter_count is Some ==> r.technical.parameter_count
            == a.technical.parameter_count,
        a.technical.parameter_size is Some ==> r.technical.parameter_size
            == a.technical.parameter_size,
        a.technical.context_length is Some ==> r.technical.context_length
            == a.technical.context_length,
        a.technical.tokenizer is Some ==> r.technical.tokenizer == a.technical.tokenizer,
        a.capabilities.embedding is Some ==> r.capabilities.embedding == a.capabilities.embedding,
        a.provenance.license is Some ==> r.provenance.license == a.provenance.license,
        strs(r.technical.families@).subrange(0, a.technical.families@.len() as int) == strs(
            a.technical.families@,
        ),
        strs(r.provenance.tags@).subrange(0, a.provenance.tags@.len() as int) == strs(
            a.provenance.tags@,
        ),
        strs(r.sources@).subrange(0, a.sources@.len() as int) == strs(a.sources@),
{
    lemma_merge_strings_extends(strs(a.technical.families@), strs(b.technical.families@));
    lemma_merge_strings_extends(strs(a.provenance.tags@), strs(b.provenance.tags@));
    lemma_merge_strings_extends(strs(a.sources@), strs(b.sources@));
}

/// Merging values that the target holds already adds nothing.
pub proof fn lemma_merge_strings_held(target: Seq<Seq<char>>, values: Seq<Seq<char>>)
    requires
        forall|i: int| 0 <= i < values.len() ==> target.contains(#[trigger] values[i]),
    ensures
        merge_strings_spec(target, values) == target,
    decreases values.len(),
{
    if values.len() > 0 {
        assert(target.contains(values[0]));
        assert forall|i: int| 0 <= i < values.drop_first().len() implies target.contains(
            #[trigger] values.drop_first()[i],
        ) by {
            assert(values.drop_first()[i] == values[i + 1]);
        }
        lemma_merge_strings_held(target, values.drop_first());
    }
}

proof fn lemma_merge_strings_self(list: Seq<Seq<char>>)
    ensures
        merge_strings_spec(list, list) == list,
{
    assert forall|i: int| 0 <= i < list.len() implies list.contains(#[trigger] list[i]) by {}
    lemma_merge_strings_held(list, list);
}

/// Merging metadata with a copy of itself changes nothing: every field
/// keeps its value and every list its entries.
pub proof fn merge_with_itself_changes_nothing(r: LocalModelMetadata, a: LocalModelMetadata)
    requires
        merged_into(r, a, a),
    ensures
        r.technical.architecture == a.technical.architecture,
        r.technical.family == a.technical.family,
        strs(r.technical.families@) == strs(a.technical.families@),
        r.technical.parameter_count == a.technical.parameter_count,
        r.technical.parameter_size == a.technical.parameter_size,
        r.technical.context_length == a.technical.context_length,
        r.technical.max_context_length == a.technical.max_context_length,
        r.technical.embedding_length == a.technical.embedding_length,
        r.technical.block_count == a.technical.block_count,
        r.technical.attention_heads == a.technical.attention_heads,
        r.technical.kv_heads == a.technical.kv_heads,
        r.technical.vocab_size == a.technical.vocab_size,
        r.technical.tokenizer == a.technical.tokenizer,
        r.capabilities == a.capabilities,
        r.provenance.digest == a.provenance.digest,
        r.provenance.snapshot_sha == a.provenance.snapshot_sha,
        r.provenance.license == a.provenance.license,
        strs(r.provenance.tags@) == strs(a.provenance.tags@),
        strs(r.provenance.languages@) == strs(a.provenance.languages@),
        strs(r.provenance.datasets@) == strs(a.provenance.datasets@),
        strs(r.provenance.base_models@) == strs(a.provenance.base_models@),
        r.provenance.repo_url == a.provenance.repo_url,
        strs(r.sources@) == strs(a.sources@),
{
    lemma_merge_strings_self(strs(a.technical.families@));
    lemma_merge_strings_self(strs(a.provenance.tags@));
    lemma_merge_strings_self(strs(a.provenance.languages@));
    lemma_merge_strings_self(strs(a.provenance.datasets@));
    lemma_merge_strings_self(strs(a.provenance.base_models@));
    lemma_merge_strings_self(strs(a.sources@));
}

/// The value of the last entry with this key (later entries replace
/// earlier ones).
pub open spec fn lookup(e: Seq<(Seq<char>, GgufSpecValue)>, key: Seq<char>) -> Option<GgufSpecValue>
    decreases e.len(),
{
    if e.len() == 0 {
        None
    } else if e.last().0 == key {
        Some(e.last().1)
    } else {
        lookup(e.drop_last(), key)
    }
}

/// A non-blank string value.
pub open spec fn string_value_spec(e: Seq<(Seq<char>, GgufSpecValue)>, key: Seq<char>) -> Option<
    Seq<char>,
> {
    match lookup(e, key) {
        Some(GgufSpecValue::Str(v)) => if trim(v).len() > 0 {
            Some(v)
        } else {
            None
        },
        _ => None,
    }
}

pub open spec fn integer_value_spec(e: Seq<(Seq<char>, GgufSpecValue)>, key: Seq<char>) -> Option<u64> {
    match lookup(e, key) {
        Some(GgufSpecValue::Int(v)) => Some(v),
        _ => None,
    }
}

/// The integer stored under `<architecture>.<suffix>`.
pub open spec fn arch_integer_spec(
    e: Seq<(Seq<char>, GgufSpecValue)>,
    arch: Option<Seq<char>>,
    suffix: Seq<char>,
) -> Option<u64> {
    match arch {
        Some(a) => integer_value_spec(e, a + "."@ + suffix),
        None => None,
    }
}

pub open spec fn string_array_spec(e: Seq<(Seq<char>, GgufSpecValue)>, key: Seq<char>) -> Seq<
    Seq<char>,
> {
    match lookup(e, key) {
        Some(GgufSpecValue::Arr(v)) => v,
        _ => Seq::empty(),
    }
}

pub open spec fn or_else<T>(a: Option<T>, b: Option<T>) -> Option<T> {
    if a is Some {
        a
    } else {
        b
    }
}

/// The metadata a GGUF header gives, from its kept entries.
pub open spec fn gguf_metadata_from(r: LocalModelMetadata, e: Seq<(Seq<char>, GgufSpecValue)>) -> bool {
    let arch = string_value_spec(e, "general.architecture"@);
    let t = r.technical;
    let p = r.provenance;
    &&& opt_str(t.architecture) == arch
    &&& opt_str(t.family) == arch
    &&& strs(t.families@) == match arch {
        Some(a) => seq![a],
        None => Seq::empty(),
    }
    &&& t.parameter_count == integer_value_spec(e, "general.parameter_count"@)
    &&& opt_str(t.parameter_size) == string_value_spec(e, "general.size_label"@)
    &&& opt_str(t.tokenizer) == string_value_spec(e, "tokenizer.ggml.model"@)
    &&& t.vocab_size == or_else(
        integer_value_spec(e, "tokenizer.ggml.tokens.length"@),
        arch_integer_spec(e, arch, "vocab_size"@),
    )
    &&& t.context_length == arch_integer_spec(e, arch, "context_length"@)
    &&& t.max_context_length == t.context_length
    &&& t.embedding_length == arch_integer_spec(e, arch, "embedding_length"@)
    &&& t.block_count == arch_integer_spec(e, arch, "block_count"@)
    &&& t.attention_heads == arch_integer_spec(e, arch, "attention.head_count"@)
    &&& t.kv_heads == arch_integer_spec(e, arch, "attention.head_count_kv"@)
    &&& capabilities_empty(r.capabilities)
    &&& opt_str(p.license) == or_else(
        string_value_spec(e, "general.license"@),
        string_value_spec(e, "general.license.name"@),
    )
    &&& opt_str(p.repo_url) == or_else(
        string_value_spec(e, "general.repo_url"@),
        string_value_spec(e, "general.source.repo_url"@),
    )
    &&& strs(p.tags@) == string_array_spec(e, "general.tags"@)
    &&& strs(p.languages@) == string_array_spec(e, "general.languages"@)
    &&& strs(p.datasets@) == string_array_spec(e, "general.datasets"@)
    &&& p.digest is None
    &&& p.snapshot_sha is None
    &&& p.base_models@.len() == 0
    &&& strs(r.sources@) == seq!["gguf"@]
}

fn find_entry(entries: &Vec<(String, GgufValue)>, key: &str) -> (r: Option<usize>)
    ensures
        match r {
            Some(i) => i < entries@.len() && lookup(entries_view(entries@), key@) == Some(
                value_view(entries@[i as int].1),
            ),
            None => lookup(entries_view(entries@), key@) is None,
        },
{
    let k = chars_of(key);
    let ghost ev = entries_view(entries@);
    let mut i: usize = entries.len();
    assert(ev.subrange(0, i as int) =~= ev);
    while i > 0
        invariant
            0 <= i <= entries@.len(),
            ev == entries_view(entries@),
            k@ == key@,
            lookup(ev, key@) == lookup(ev.subrange(0, i as int), key@),
        decreases i,
    {
        let ek = chars_of(entries[i - 1].0.as_str());
        assert(ev.subrange(0, i as int).last() == ev[i - 1]);
        if chars_eq(ek.as_slice(), k.as_slice()) {
            return Some(i - 1);
        }
        assert(ev.subrange(0, i as int).drop_last() =~= ev.subrange(0, i - 1));
        i -= 1;
    }
    None
}

fn clone_strings(v: &Vec<String>) -> (r: Vec<String>)
    ensures
        strs(r@) == strs(v@),
{
    let mut r: Vec<String> = Vec::new();
    let mut i: usize = 0;
    while i < v.len()
        invariant
            0 <= i <= v.len(),
            strs(r@) == strs(v@).take(i as int),
        decreases v.len() - i,
    {
        let ghost before = strs(r@);
        r.push(v[i].clone());
        assert(strs(r@) =~= before.push(v@[i as int]@));
        assert(strs(v@).take(i + 1) =~= strs(v@).take(i as int).push(v@[i as int]@));
        i += 1;
    }
    assert(strs(v@).take(v.len() as int) =~= strs(v@));
    r
}

fn string_value(entries: &Vec<(String, GgufValue)>, key: &str) -> (r: Option<String>)
    ensures
        opt_str(r) == string_value_spec(entries_view(entries@), key@),
{
    match find_entry(entries, key) {
        Some(i) => match &entries[i].1 {
            GgufValue::String(v) => {
                let t = trim_str(v.as_str());
                if t.as_str().is_empty() {
                    None
                } else {
                    Some(v.clone())
                }
            },
            _ => None,
        },
        None => None,
    }
}

fn integer_value(entries: &Vec<(String, GgufValue)>, key: &str) -> (r: Option<u64>)
    ensures
        r == integer_value_spec(entries_view(entries@), key@),
{
    match find_entry(entries, key) {
        Some(i) => match &entries[i].1 {
            GgufValue::Integer(v) => Some(*v),
            _ => None,
        },
        None => None,
    }
}

fn architecture_integer_value(
    entries: &Vec<(String, GgufValue)>,
    architecture: &Option<String>,
    suffix: &str,
) -> (r: Option<u64>)
    ensures
        r == arch_integer_spec(entries_view(entries@), opt_str(*architecture), suffix@),
{
    match architecture {
        Some(a) => {
            let key = concat3(a.as_str(), ".", suffix);
            integer_value(entries, key.as_str())
        },
        None => None,
    }
}

fn string_array_value(entries: &Vec<(String, GgufValue)>, key: &str) -> (r: Vec<String>)
    ensures
        strs(r@) == string_array_spec(entries_view(entries@), key@),
{
    match find_entry(entries, key) {
        Some(i) => match &entries[i].1 {
            GgufValue::StringArray(v) => clone_strings(v),
            _ => Vec::new(),
        },
        None => Vec::new(),
    }
}

fn opt_clone(v: &Option<String>) -> (r: Option<String>)
    ensures
        r == *v,
{
    match v {
        Some(s) => Some(s.clone()),
        None => None,
    }
}

/// The metadata in a GGUF file's header, read from the file's bytes;
/// `path` names the file in error messages.
pub fn read_gguf_metadata(path: &str, data: &[u8]) -> (r: Result<LocalModelMetadata, String>)
    requires
        data@.len() <= i64::MAX,
    ensures
        match r {
            Ok(m) => gguf_entries(data@, path@) matches Ok(e) && gguf_metadata_from(m, e),
            Err(msg) => gguf_entries(data@, path@) == Err::<
                Seq<(Seq<char>, GgufSpecValue)>,
                Seq<char>,
            >(msg@),
        },
{
    let values = read_gguf_entries(path, data)?;
    let ghost e = entries_view(values@);
    let mut technical = LocalModelTechnical::default();
    let mut provenance = LocalModelProvenance::default();
    technical.architecture = string_value(&values, "general.architecture");
    technical.family = opt_clone(&technical.architecture);
    if let Some(family) = opt_clone(&technical.family) {
        technical.families.push(family);
    }
    assert(strs(technical.families@) =~= match opt_str(technical.architecture) {
        Some(a) => seq![a],
        None => Seq::<Seq<char>>::empty(),
    });
    technical.parameter_count = integer_value(&values, "general.parameter_count");
    technical.parameter_size = string_value(&values, "general.size_label");
    technical.tokenizer = string_value(&values, "tokenizer.ggml.model");
    technical.vocab_size = match integer_value(&values, "tokenizer.ggml.tokens.length") {
        Some(v) => Some(v),
        None => architecture_integer_value(&values, &technical.architecture, "vocab_size"),
    };
    if technical.architecture.is_some() {
        technical.context_length = architecture_integer_value(
            &values,
            &technical.architecture,
            "context_length",
        );
        technical.max_context_length = technical.context_length;
        technical.embedding_length = architecture_integer_value(
            &values,
            &technical.architecture,
            "embedding_length",
        );
        technical.block_count = architecture_integer_value(
            &values,
            &technical.architecture,
            "block_count",
        );
        technical.attention_heads = architecture_integer_value(
            &values,
            &technical.architecture,
            "attention.head_count",
        );
        technical.kv_heads = architecture_integer_value(
            &values,
            &technical.architecture,
            "attention.head_count_kv",
        );
    }
    provenance.license = match string_value(&values, "general.license") {
        Some(v) => Some(v),
        None => string_value(&values, "general.license.name"),
    };
    provenance.repo_url = match string_value(&values, "general.repo_url") {
        Some(v) => Some(v),
        None => string_value(&values, "general.source.repo_url"),
    };
    provenance.tags = string_array_value(&values, "general.tags");
    provenance.languages = string_array_value(&values, "general.languages");
    provenance.datasets = string_array_value(&values, "general.datasets");
    let mut sources: Vec<String> = Vec::new();
    sources.push("gguf".to_owned());
    assert(strs(sources@) =~= seq!["gguf"@]);
    let m = LocalModelMetadata {
        technical,
        capabilities: LocalModelCapabilities::default(),
        provenance,
        sources,
    };
    assert(gguf_metadata_from(m, e));
    Ok(m)
}

/// A line with the `\r` of a `\r\n` ending removed.
pub open spec fn strip_cr(raw: Seq<char>) -> Seq<char> {
    if raw.len() > 0 && raw.last() == '\r' {
        raw.drop_last()
    } else {
        raw
    }
}

/// The lines of the rest of a text, `cur` being the part of the current
/// line already read.
pub open spec fn lines_from(s: Seq<char>, cur: Seq<char>) -> Seq<Seq<char>>
    decreases s.len(),
{
    if s.len() == 0 {
        if cur.len() == 0 {
            Seq::empty()
        } else {
            seq![cur]
        }
    } else if s[0] == '\n' {
        seq![strip_cr(cur)] + lines_from(s.drop_first(), Seq::empty())
    } else {
        lines_from(s.drop_first(), cur.push(s[0]))
    }
}

/// The lines of a text (`str::lines`): split at `\n`, a `\r` right before
/// the `\n` dropped, and no empty line after a final `\n`.
pub open spec fn lines_spec(s: Seq<char>) -> Seq<Seq<char>> {
    lines_from(s, Seq::empty())
}

/// Splits a text into its lines.
pub fn split_lines(s: &[char]) -> (r: Vec<Vec<char>>)
    ensures
        r@.map_values(|l: Vec<char>| l@) == lines_spec(s@),
{
    let mut out: Vec<Vec<char>> = Vec::new();
    let mut cur: Vec<char> = Vec::new();
    let mut i: usize = 0;
    assert(s@.subrange(0, s@.len() as int) =~= s@);
    assert(out@.map_values(|l: Vec<char>| l@) =~= Seq::<Seq<char>>::empty());
    while i < s.len()
        invariant
            0 <= i <= s@.len(),
            out@.map_values(|l: Vec<char>| l@) + lines_from(s@.subrange(i as int, s@.len() as int), cur@)
                == lines_spec(s@),
        decreases s.len() - i,
    {
        let ghost rest = s@.subrange(i as int, s@.len() as int);
        assert(rest.drop_first() =~= s@.subrange(i + 1, s@.len() as int));
        assert(rest[0] == s@[i as int]);
        let c = s[i];
        if c == '\n' {
            let ghost before = out@.map_values(|l: Vec<char>| l@);
            let ghost cur_v = cur@;
            let mut line = cur;
            if line.len() > 0 && line[line.len() - 1] == '\r' {
                line.pop();
            }
            assert(line@ =~= strip_cr(cur_v));
            out.push(line);
            cur = Vec::new();
            assert(out@.map_values(|l: Vec<char>| l@) =~= before.push(strip_cr(cur_v)));
            assert(before + lines_from(rest, cur_v) =~= out@.map_values(|l: Vec<char>| l@) + lines_from(rest.drop_first(), Seq::empty()));
        } else {
            cur.push(c);
        }
        i += 1;
    }
    assert(s@.subrange(i as int, s@.len() as int).len() == 0);
    if cur.len() > 0 {
        let ghost before = out@.map_values(|l: Vec<char>| l@);
        out.push(cur);
        assert(out@.map_values(|l: Vec<char>| l@) =~= before + seq![cur@]);
    } else {
        assert(out@.map_values(|l: Vec<char>| l@) =~= out@.map_values(|l: Vec<char>| l@) + Seq::<Seq<char>>::empty());
    }
    out
}

/// Front matter fields: each key with its values, keys in order of first
/// appearance.
pub open spec fn fields_view(v: Seq<(String, Vec<String>)>) -> Seq<(Seq<char>, Seq<Seq<char>>)> {
    v.map_values(|e: (String, Vec<String>)| (e.0@, strs(e.1@)))
}

/// The position of `key` among the fields, if present.
pub open spec fn field_index(f: Seq<(Seq<char>, Seq<Seq<char>>)>, key: Seq<char>, i: int) -> bool {
    0 <= i < f.len() && f[i].0 == key
}

/// `fields.entry(key).or_default().push(value)`.
pub open spec fn push_field_value(
    f: Seq<(Seq<char>, Seq<Seq<char>>)>,
    key: Seq<char>,
    value: Seq<char>,
) -> Seq<(Seq<char>, Seq<Seq<char>>)> {
    if exists|i: int| field_index(f, key, i) {
        let i = choose|i: int| field_index(f, key, i);
        f.update(i, (key, f[i].1.push(value)))
    } else {
        f.push((key, seq![value]))
    }
}

/// `fields.entry(key).or_default()`.
pub open spec fn ensure_field(f: Seq<(Seq<char>, Seq<Seq<char>>)>, key: Seq<char>) -> Seq<
    (Seq<char>, Seq<Seq<char>>),
> {
    if exists|i: int| field_index(f, key, i) {
        f
    } else {
        f.push((key, Seq::empty()))
    }
}

/// A front matter value with blanks and surrounding quotes removed.
pub open spec fn clean_value(value: Seq<char>) -> Seq<char> {
    trim_class(trim_class(trim(value), CharClass::Exactly('"')), CharClass::Exactly('\''))
}

/// Adds a cleaned value under `key`, unless nothing is left of it.
pub open spec fn push_clean(f: Seq<(Seq<char>, Seq<Seq<char>>)>, key: Seq<char>, value: Seq<char>) -> Seq<
    (Seq<char>, Seq<Seq<char>>),
> {
    if clean_value(value).len() > 0 {
        push_field_value(f, key, clean_value(value))
    } else {
        f
    }
}

/// The first `:` of a line, if any.
pub open spec fn first_colon(t: Seq<char>, i: int) -> bool {
    0 <= i < t.len() && t[i] == ':' && forall|j: int| 0 <= j < i ==> t[j] != ':'
}

/// Reads front matter lines up to the closing `---`: `key: value` lines
/// start a key (with a value, or none yet), and `- item` lines add items to
/// the last key.
pub open spec fn front_fold(
    lines: Seq<Seq<char>>,
    f: Seq<(Seq<char>, Seq<Seq<char>>)>,
    cur: Option<Seq<char>>,
) -> Seq<(Seq<char>, Seq<Seq<char>>)>
    decreases lines.len(),
{
    if lines.len() == 0 {
        f
    } else {
        let t = trim(lines[0]);
        let rest = lines.drop_first();
        if t == "---"@ {
            f
        } else if starts_with(t, "- "@) {
            let item = t.subrange(2, t.len() as int);
            match cur {
                Some(k) => front_fold(rest, push_clean(f, k, item), cur),
                None => front_fold(rest, f, cur),
            }
        } else if exists|i: int| first_colon(t, i) {
            let i = choose|i: int| first_colon(t, i);
            let key = trim(t.subrange(0, i));
            let value = trim(t.subrange(i + 1, t.len() as int));
            let f2 = if value.len() > 0 {
                push_clean(f, key, value)
            } else {
                ensure_field(f, key)
            };
            front_fold(rest, f2, Some(key))
        } else {
            front_fold(rest, f, cur)
        }
    }
}

/// The front matter of a model card: present when the first line is `---`.
pub open spec fn frontmatter_spec(contents: Seq<char>) -> Option<Seq<(Seq<char>, Seq<Seq<char>>)>> {
    let lines = lines_spec(contents);
    if lines.len() > 0 && trim(lines[0]) == "---"@ {
        Some(front_fold(lines.drop_first(), Seq::empty(), None))
    } else {
        None
    }
}

/// The key/value fields of a model card's YAML front matter.
#[derive(Debug, Clone, PartialEq, Eq)]
pub struct FrontmatterFields {
    pub entries: Vec<(String, Vec<String>)>,
}

impl FrontmatterFields {
    /// The values of a key.
    pub fn get(&self, key: &str) -> (r: Option<&Vec<String>>)
        ensures
            match r {
                Some(v) => field_values(fields_view(self.entries@), key@) == Some(strs(v@)),
                None => field_values(fields_view(self.entries@), key@) is None,
            },
    {
        match find_field(&self.entries, key) {
            Some(i) => {
                proof {
                    lemma_first_field_unique(fields_view(self.entries@), key@, i as int);
                }
                Some(&self.entries[i].1)
            },
            None => None,
        }
    }
}

/// `i` is the first position of `key` among the fields.
pub open spec fn first_field(f: Seq<(Seq<char>, Seq<Seq<char>>)>, key: Seq<char>, i: int) -> bool {
    field_index(f, key, i) && forall|j: int| 0 <= j < i ==> !field_index(f, key, j)
}

/// The values of the first field named `key`, if any.
pub open spec fn field_values(f: Seq<(Seq<char>, Seq<Seq<char>>)>, key: Seq<char>) -> Option<
    Seq<Seq<char>>,
> {
    if exists|i: int| first_field(f, key, i) {
        Some(f[choose|i: int| first_field(f, key, i)].1)
    } else {
        None
    }
}

proof fn lemma_first_field_unique(f: Seq<(Seq<char>, Seq<Seq<char>>)>, key: Seq<char>, i: int)
    requires
        first_field(f, key, i),
    ensures
        field_values(f, key) == Some(f[i].1),
{
    let c = choose|c: int| first_field(f, key, c);
    assert(first_field(f, key, c));
    if c < i {
        assert(!field_index(f, key, c));
    } else if i < c {
        assert(!field_index(f, key, i));
    }
}

fn find_field(entries: &Vec<(String, Vec<String>)>, key: &str) -> (r: Option<usize>)
    ensures
        match r {
            Some(i) => first_field(fields_view(entries@), key@, i as int),
            None => !exists|i: int| field_index(fields_view(entries@), key@, i),
        },
{
    let k = chars_of(key);
    let mut i: usize = 0;
    while i < entries.len()
        invariant
            0 <= i <= entries@.len(),
            k@ == key@,
            forall|j: int| 0 <= j < i ==> !field_index(fields_view(entries@), key@, j),
        decreases entries.len() - i,
    {
        let ek = chars_of(entries[i].0.as_str());
        if chars_eq(ek.as_slice(), k.as_slice()) {
            assert(fields_view(entries@)[i as int].0 == key@);
            return Some(i);
        }
        assert(fields_view(entries@)[i as int].0 != key@);
        i += 1;
    }
    None
}

/// A field's index is unique: keys are kept distinct.
pub open spec fn keys_distinct(f: Seq<(Seq<char>, Seq<Seq<char>>)>) -> bool {
    forall|i: int, j: int| 0 <= i < j < f.len() ==> (#[trigger] f[i]).0 != (#[trigger] f[j]).0
}

fn push_value_exec(entries: &mut Vec<(String, Vec<String>)>, key: &str, value: String)
    requires
        keys_distinct(fields_view(old(entries)@)),
    ensures
        fields_view(final(entries)@) == push_field_value(fields_view(old(entries)@), key@, value@),
        keys_distinct(fields_view(final(entries)@)),
{
    let ghost f = fields_view(entries@);
    match find_field(entries, key) {
        Some(i) => {
            proof {
                let c = choose|c: int| field_index(f, key@, c);
                assert(c == i as int);
            }
            let ghost old_entries = entries@;
            let (k, mut values) = entries.remove(i);
            let ghost old_values = values@;
            assert(k@ == key@);
            values.push(value);
            assert(strs(values@) =~= strs(old_values).push(value@));
            entries.insert(i, (k, values));
            assert(entries@ =~= old_entries.update(i as int, (k, values)));
            assert(fields_view(entries@) =~= f.update(i as int, (key@, f[i as int].1.push(value@))));
            assert(keys_distinct(fields_view(entries@))) by {
                assert forall|a: int, b: int| 0 <= a < b < fields_view(entries@).len() implies
                    (#[trigger] fields_view(entries@)[a]).0 != (#[trigger] fields_view(entries@)[b]).0 by {
                    assert(fields_view(entries@)[a].0 == f[a].0);
                    assert(fields_view(entries@)[b].0 == f[b].0);
                    assert(f[a].0 != f[b].0);
                }
            }
        },
        None => {
            let mut values: Vec<String> = Vec::new();
            values.push(value);
            assert(strs(values@) =~= seq![value@]);
            entries.push((key.to_owned(), values));
            assert(fields_view(entries@) =~= f.push((key@, seq![value@])));
            assert(keys_distinct(fields_view(entries@))) by {
                assert forall|a: int, b: int| 0 <= a < b < fields_view(entries@).len() implies
                    (#[trigger] fields_view(entries@)[a]).0 != (#[trigger] fields_view(entries@)[b]).0 by {
                    if b == f.len() {
                        assert(!field_index(f, key@, a));
                    } else {
                        assert(f[a].0 != f[b].0);
                    }
                }
            }
        },
    }
}

fn ensure_field_exec(entries: &mut Vec<(String, Vec<String>)>, key: &str)
    requires
        keys_distinct(fields_view(old(entries)@)),
    ensures
        fields_view(final(entries)@) == ensure_field(fields_view(old(entries)@), key@),
        keys_distinct(fields_view(final(entries)@)),
{
    let ghost f = fields_view(entries@);
    match find_field(entries, key) {
        Some(_) => {},
        None => {
            let empty: Vec<String> = Vec::new();
            assert(strs(empty@) =~= Seq::<Seq<char>>::empty());
            entries.push((key.to_owned(), empty));
            assert(fields_view(entries@) =~= f.push((key@, Seq::<Seq<char>>::empty())));
            assert(keys_distinct(fields_view(entries@))) by {
                assert forall|a: int, b: int| 0 <= a < b < fields_view(entries@).len() implies
                    (#[trigger] fields_view(entries@)[a]).0 != (#[trigger] fields_view(entries@)[b]).0 by {
                    if b == f.len() {
                        assert(!field_index(f, key@, a));
                    } else {
                        assert(f[a].0 != f[b].0);
                    }
                }
            }
        },
    }
}

fn push_clean_value(entries: &mut Vec<(String, Vec<String>)>, key: &str, value: &[char])
    requires
        keys_distinct(fields_view(old(entries)@)),
    ensures
        fields_view(final(entries)@) == push_clean(fields_view(old(entries)@), key@, value@),
        keys_distinct(fields_view(final(entries)@)),
{
    let a = trim_chars(value, CharClass::Whitespace);
    let b = trim_chars(a.as_slice(), CharClass::Exactly('"'));
    let c = trim_chars(b.as_slice(), CharClass::Exactly('\''));
    if c.len() > 0 {
        push_value_exec(entries, key, string_of(c.as_slice()));
    }
}

/// Parses the YAML front matter at the top of a model card: `key: value`
/// lines and `- item` list lines, up to the closing `---`.
pub fn parse_frontmatter(contents: &str) -> (r: Option<FrontmatterFields>)
    ensures
        frontmatter_spec(contents@) == match r {
            Some(f) => Some(fields_view(f.entries@)),
            None => None,
        },
{
    let cs = chars_of(contents);
    let lines = split_lines(cs.as_slice());
    let ghost ls = lines@.map_values(|l: Vec<char>| l@);
    if lines.len() == 0 {
        return None;
    }
    assert(ls[0] == lines@[0]@);
    let first = trim_chars(lines[0].as_slice(), CharClass::Whitespace);
    let dashes = chars_of("---");
    if !chars_eq(first.as_slice(), dashes.as_slice()) {
        return None;
    }
    let mut entries: Vec<(String, Vec<String>)> = Vec::new();
    let mut current: Option<String> = None;
    let mut i: usize = 1;
    assert(fields_view(entries@) =~= Seq::<(Seq<char>, Seq<Seq<char>>)>::empty());
    assert(ls.subrange(1, ls.len() as int) =~= ls.drop_first());
    assert(frontmatter_spec(contents@) == Some(front_fold(ls.drop_first(), Seq::empty(), None)));
    while i < lines.len()
        invariant
            1 <= i <= lines@.len(),
            ls == lines@.map_values(|l: Vec<char>| l@),
            dashes@ == "---"@,
            frontmatter_spec(contents@) == Some(front_fold(ls.drop_first(), Seq::empty(), None)),
            keys_distinct(fields_view(entries@)),
            front_fold(ls.subrange(i as int, ls.len() as int), fields_view(entries@), opt_str(current))
                == front_fold(ls.drop_first(), Seq::empty(), None),
        decreases lines.len() - i,
    {
        let ghost rest = ls.subrange(i as int, ls.len() as int);
        assert(rest[0] == lines@[i as int]@);
        assert(rest.drop_first() =~= ls.subrange(i + 1, ls.len() as int));
        let t = trim_chars(lines[i].as_slice(), CharClass::Whitespace);
        if chars_eq(t.as_slice(), dashes.as_slice()) {
            assert(trim(rest[0]) == "---"@);
            assert(front_fold(rest, fields_view(entries@), opt_str(current)) == fields_view(entries@));
            let r = FrontmatterFields { entries };
            return Some(r);
        }
        let marker = chars_of("- ");
        proof {
            reveal_strlit("- ");
        }
        if starts_with_chars(t.as_slice(), marker.as_slice()) {
            let item = slice_chars(t.as_slice(), 2, t.len());
            match &current {
                Some(k) => {
                    push_clean_value(&mut entries, k.as_str(), item.as_slice());
                },
                None => {},
            }
        } else {
            match find_class(t.as_slice(), CharClass::Exactly(':')) {
                Some(c) => {
                    assert(c < t@.len());
                    proof {
                        assert(first_colon(t@, c as int));
                        let cc = choose|cc: int| first_colon(t@, cc);
                        if cc < c {
                            assert(!in_class(CharClass::Exactly(':'), t@[cc]));
                        } else if c < cc {
                            assert(t@[c as int] != ':');
                        }
                    }
                    let head = slice_chars(t.as_slice(), 0, c);
                    assert(c < t.len());
                    let tail = slice_chars(t.as_slice(), c + 1, t.len());
                    let key_chars = trim_chars(head.as_slice(), CharClass::Whitespace);
                    let value = trim_chars(tail.as_slice(), CharClass::Whitespace);
                    let key = string_of(key_chars.as_slice());
                    if value.len() > 0 {
                        push_clean_value(&mut entries, key.as_str(), value.as_slice());
                    } else {
                        ensure_field_exec(&mut entries, key.as_str());
                    }
                    current = Some(key);
                },
                None => {
                    assert(!exists|cc: int| first_colon(t@, cc)) by {
                        if exists|cc: int| first_colon(t@, cc) {
                            let cc = choose|cc: int| first_colon(t@, cc);
                            assert(in_class(CharClass::Exactly(':'), t@[cc]));
                        }
                    }
                },
            }
        }
        i += 1;
    }
    assert(ls.subrange(i as int, ls.len() as int).len() == 0);
    Some(FrontmatterFields { entries })
}

/// The values under `key`, or none.
pub open spec fn values_or_empty(v: Option<Seq<Seq<char>>>) -> Seq<Seq<char>> {
    match v {
        Some(s) => s,
        None => Seq::empty(),
    }
}

/// The first value under a key, if there is one.
pub open spec fn first_value(v: Option<Seq<Seq<char>>>) -> Option<Seq<char>> {
    match v {
        Some(s) => if s.len() > 0 {
            Some(s[0])
        } else {
            None
        },
        None => None,
    }
}

/// What a model card's front matter says about a model.
pub open spec fn card_metadata_from(r: LocalModelMetadata, f: Seq<(Seq<char>, Seq<Seq<char>>)>) -> bool {
    let t = r.technical;
    let p = r.provenance;
    let c = r.capabilities;
    let task = first_value(field_values(f, "pipeline_tag"@));
    &&& strs(p.tags@) == values_or_empty(field_values(f, "tags"@))
    &&& strs(p.languages@) == values_or_empty(
        or_else(field_values(f, "language"@), field_values(f, "languages"@)),
    )
    &&& strs(p.datasets@) == values_or_empty(field_values(f, "datasets"@))
    &&& strs(p.base_models@) == values_or_empty(field_values(f, "base_model"@))
    &&& opt_str(p.license) == first_value(field_values(f, "license"@))
    &&& p.digest is None
    &&& p.snapshot_sha is None
    &&& p.repo_url is None
    &&& opt_str(t.family) == first_value(field_values(f, "library_name"@))
    &&& t.architecture is None
    &&& t.families@.len() == 0
    &&& t.parameter_count is None
    &&& t.parameter_size is None
    &&& t.context_length is None
    &&& t.max_context_length is None
    &&& t.embedding_length is None
    &&& t.block_count is None
    &&& t.attention_heads is None
    &&& t.kv_heads is None
    &&& t.vocab_size is None
    &&& t.tokenizer is None
    &&& c.embedding == (if task matches Some(x) && contains_seq(x, "embedding"@) {
        Some(true)
    } else {
        None
    })
    &&& c.vision is None
    &&& c.tool_use is None
    &&& c.reasoning is None
    &&& strs(r.sources@) == seq!["model_card"@]
}

fn values_of(fields: &FrontmatterFields, key: &str) -> (r: Option<Vec<String>>)
    ensures
        match r {
            Some(v) => field_values(fields_view(fields.entries@), key@) == Some(strs(v@)),
            None => field_values(fields_view(fields.entries@), key@) is None,
        },
{
    match fields.get(key) {
        Some(v) => Some(clone_strings(v)),
        None => None,
    }
}

fn first_of(fields: &FrontmatterFields, key: &str) -> (r: Option<String>)
    ensures
        opt_str(r) == first_value(field_values(fields_view(fields.entries@), key@)),
{
    match fields.get(key) {
        Some(v) => if v.len() > 0 {
            Some(v[0].clone())
        } else {
            None
        },
        None => None,
    }
}

fn or_empty(v: Option<Vec<String>>) -> (r: Vec<String>)
    ensures
        strs(r@) == values_or_empty(match v {
            Some(x) => Some(strs(x@)),
            None => None,
        }),
{
    match v {
        Some(x) => x,
        None => Vec::new(),
    }
}

/// The metadata in a model card's front matter, given the card's text;
/// `None` where the card has no front matter.
pub fn read_model_card_metadata(contents: &str) -> (r: Option<LocalModelMetadata>)
    ensures
        match r {
            Some(m) => frontmatter_spec(contents@) matches Some(f) && card_metadata_from(m, f),
            None => frontmatter_spec(contents@) is None,
        },
{
    let fields = match parse_frontmatter(contents) {
        Some(f) => f,
        None => return None,
    };
    let ghost f = fields_view(fields.entries@);
    let languages = match values_of(&fields, "language") {
        Some(v) => Some(v),
        None => values_of(&fields, "languages"),
    };
    let provenance = LocalModelProvenance {
        digest: None,
        snapshot_sha: None,
        license: first_of(&fields, "license"),
        tags: or_empty(values_of(&fields, "tags")),
        languages: or_empty(languages),
        datasets: or_empty(values_of(&fields, "datasets")),
        base_models: or_empty(values_of(&fields, "base_model")),
        repo_url: None,
    };
    let mut technical = LocalModelTechnical::default();
    technical.family = first_of(&fields, "library_name");
    let mut capabilities = LocalModelCapabilities::default();
    match first_of(&fields, "pipeline_tag") {
        Some(task) => {
            if str_contains(task.as_str(), "embedding") {
                capabilities.embedding = Some(true);
            }
        },
        None => {},
    }
    let mut sources: Vec<String> = Vec::new();
    sources.push("model_card".to_owned());
    assert(strs(sources@) =~= seq!["model_card"@]);
    let m = LocalModelMetadata { technical, capabilities, provenance, sources };
    assert(card_metadata_from(m, f));
    Some(m)
}

/// The steps of combining a snapshot's metadata: start from nothing, fill
/// in what `config.json` says, then what the model card adds.
pub open spec fn snapshot_steps(
    r: LocalModelMetadata,
    start: LocalModelMetadata,
    mid: LocalModelMetadata,
    config: Option<LocalModelMetadata>,
    card: Option<LocalModelMetadata>,
) -> bool {
    &&& empty_metadata(start)
    &&& match config {
        Some(c) => merged_into(mid, start, c),
        None => mid == start,
    }
    &&& match card {
        Some(d) => merged_into(r, mid, d),
        None => r == mid,
    }
}

/// The metadata of a Hugging Face snapshot: what its `config.json` says,
/// then what its model card adds (each where it could be read).
pub fn read_hf_snapshot_metadata(
    config: Option<LocalModelMetadata>,
    card: Option<LocalModelMetadata>,
) -> (r: LocalModelMetadata)
    ensures
        exists|start: LocalModelMetadata, mid: LocalModelMetadata|
            snapshot_steps(r, start, mid, config, card),
{
    let ghost cfg = config;
    let ghost crd = card;
    let mut metadata = LocalModelMetadata::default();
    let ghost start = metadata;
    match config {
        Some(c) => {
            metadata.merge(c);
        },
        None => {},
    }
    let ghost mid = metadata;
    match card {
        Some(c) => {
            metadata.merge(c);
        },
        None => {},
    }
    assert(snapshot_steps(metadata, start, mid, cfg, crd));
    metadata
}

/// Metadata that knows nothing.
pub open spec fn empty_metadata(m: LocalModelMetadata) -> bool {
    technical_empty(m.technical) && capabilities_empty(m.capabilities) && provenance_empty(
        m.provenance,
    ) && m.sources@.len() == 0
}

/// The `text_config` object of a configuration, if it has one.
pub open spec fn text_config(v: JsonValue) -> Option<JsonValue> {
    match json_get(v, "text_config"@) {
        Some(JsonValue::Object(m)) => Some(JsonValue::Object(m)),
        _ => None,
    }
}

/// A string under `key`, at the top level or else in `nested`.
pub open spec fn str_or_nested(v: JsonValue, nested: Option<JsonValue>, key: Seq<char>) -> Option<
    Seq<char>,
> {
    or_else(
        json_field_str(v, key),
        match nested {
            Some(n) => json_field_str(n, key),
            None => None,
        },
    )
}

/// An unsigned integer under `key`, at the top level or else in `nested`.
pub open spec fn u64_or_nested(v: JsonValue, nested: Option<JsonValue>, key: Seq<char>) -> Option<u64> {
    or_else(
        json_field_u64(v, key),
        match nested {
            Some(n) => json_field_u64(n, key),
            None => None,
        },
    )
}

/// The first key of `keys` that has a string.
pub open spec fn first_string_spec(v: JsonValue, nested: Option<JsonValue>, keys: Seq<Seq<char>>) -> Option<
    Seq<char>,
>
    decreases keys.len(),
{
    if keys.len() == 0 {
        None
    } else {
        or_else(str_or_nested(v, nested, keys[0]), first_string_spec(v, nested, keys.drop_first()))
    }
}

/// The first key of `keys` that has an unsigned integer.
pub open spec fn first_u64_spec(v: JsonValue, nested: Option<JsonValue>, keys: Seq<Seq<char>>) -> Option<u64>
    decreases keys.len(),
{
    if keys.len() == 0 {
        None
    } else {
        or_else(u64_or_nested(v, nested, keys[0]), first_u64_spec(v, nested, keys.drop_first()))
    }
}

/// The first string in the array under `key`.
pub open spec fn first_array_string(v: JsonValue, key: Seq<char>) -> Option<Seq<char>> {
    match json_get(v, key) {
        Some(a) => if json_strings(a).len() > 0 {
            Some(json_strings(a)[0])
        } else {
            None
        },
        None => None,
    }
}

/// What a Hugging Face `config.json` says about a model.
pub open spec fn config_metadata_from(r: LocalModelMetadata, v: JsonValue) -> bool {
    let n = text_config(v);
    let model_type = first_string_spec(v, n, seq!["model_type"@]);
    let t = r.technical;
    let p = r.provenance;
    let name = json_field_str(v, "_name_or_path"@);
    &&& opt_str(t.architecture) == or_else(model_type, first_array_string(v, "architectures"@))
    &&& opt_str(t.family) == model_type
    &&& strs(t.families@) == match model_type {
        Some(m) => seq![m],
        None => Seq::empty(),
    }
    &&& t.context_length == first_u64_spec(
        v,
        n,
        seq![
            "max_position_embeddings"@, "seq_length"@, "n_ctx"@, "n_positions"@,
            "context_length"@, "max_seq_len"@,
        ],
    )
    &&& t.max_context_length == t.context_length
    &&& t.embedding_length == first_u64_spec(v, n, seq!["hidden_size"@, "n_embd"@, "d_model"@])
    &&& t.block_count == first_u64_spec(v, n, seq!["num_hidden_layers"@, "n_layer"@])
    &&& t.attention_heads == first_u64_spec(v, n, seq!["num_attention_heads"@, "n_head"@])
    &&& t.kv_heads == first_u64_spec(v, n, seq!["num_key_value_heads"@, "n_head_kv"@])
    &&& t.vocab_size == first_u64_spec(v, n, seq!["vocab_size"@])
    &&& t.parameter_count is None
    &&& t.parameter_size is None
    &&& t.tokenizer is None
    &&& r.capabilities.embedding == match model_type {
        Some(m) => Some(contains_seq(m, "embed"@)),
        None => None,
    }
    &&& r.capabilities.vision is None
    &&& r.capabilities.tool_use is None
    &&& r.capabilities.reasoning is None
    &&& strs(p.tags@) == match json_get(v, "tags"@) {
        Some(a) => json_strings(a),
        None => Seq::empty(),
    }
    &&& opt_str(p.license) == json_field_str(v, "license"@)
    &&& opt_str(p.repo_url) == match name {
        Some(x) => if contains_seq(x, "/"@) {
            Some(x)
        } else {
            None
        },
        None => None,
    }
    &&& p.digest is None
    &&& p.snapshot_sha is None
    &&& p.languages@.len() == 0
    &&& p.datasets@.len() == 0
    &&& p.base_models@.len() == 0
    &&& strs(r.sources@) == seq!["hf_config"@]
}

fn text_config_of(v: &JsonValue) -> (r: Option<&JsonValue>)
    ensures
        match r {
            Some(x) => text_config(*v) == Some(*x),
            None => text_config(*v) is None,
        },
{
    match json::get(v, "text_config") {
        Some(x) => match x {
            JsonValue::Object(_) => Some(x),
            _ => None,
        },
        None => None,
    }
}

fn first_string(v: &JsonValue, nested: Option<&JsonValue>, keys: &[&str]) -> (r: Option<String>)
    ensures
        opt_str(r) == first_string_spec(
            *v,
            match nested {
                Some(n) => Some(*n),
                None => None,
            },
            keys@.map_values(|k: &str| k@),
        ),
{
    let ghost n = match nested {
        Some(n) => Some(*n),
        None => None,
    };
    let ghost ks = keys@.map_values(|k: &str| k@);
    let mut i: usize = 0;
    assert(ks.skip(0) =~= ks);
    while i < keys.len()
        invariant
            0 <= i <= keys@.len(),
            ks == keys@.map_values(|k: &str| k@),
            n == match nested {
                Some(x) => Some(*x),
                None => None,
            },
            first_string_spec(*v, n, ks) == first_string_spec(*v, n, ks.skip(i as int)),
        decreases keys.len() - i,
    {
        assert(ks.skip(i as int)[0] == keys@[i as int]@);
        assert(ks.skip(i as int).drop_first() =~= ks.skip(i + 1));
        let top = json::field_str(v, keys[i]);
        match top {
            Some(s) => {
                return Some(s);
            },
            None => {},
        }
        match nested {
            Some(x) => match json::field_str(x, keys[i]) {
                Some(s) => {
                    return Some(s);
                },
                None => {},
            },
            None => {},
        }
        i += 1;
    }
    None
}

fn first_u64(v: &JsonValue, nested: Option<&JsonValue>, keys: &[&str]) -> (r: Option<u64>)
    ensures
        r == first_u64_spec(
            *v,
            match nested {
                Some(n) => Some(*n),
                None => None,
            },
            keys@.map_values(|k: &str| k@),
        ),
{
    let ghost n = match nested {
        Some(n) => Some(*n),
        None => None,
    };
    let ghost ks = keys@.map_values(|k: &str| k@);
    let mut i: usize = 0;
    assert(ks.skip(0) =~= ks);
    while i < keys.len()
        invariant
            0 <= i <= keys@.len(),
            ks == keys@.map_values(|k: &str| k@),
            n == match nested {
                Some(x) => Some(*x),
                None => None,
            },
            first_u64_spec(*v, n, ks) == first_u64_spec(*v, n, ks.skip(i as int)),
        decreases keys.len() - i,
    {
        assert(ks.skip(i as int)[0] == keys@[i as int]@);
        assert(ks.skip(i as int).drop_first() =~= ks.skip(i + 1));
        match json::field_u64(v, keys[i]) {
            Some(x) => {
                return Some(x);
            },
            None => {},
        }
        match nested {
            Some(x) => match json::field_u64(x, keys[i]) {
                Some(y) => {
                    return Some(y);
                },
                None => {},
            },
            None => {},
        }
        i += 1;
    }
    None
}

/// The metadata in a Hugging Face `config.json`, given its parsed value.
pub fn read_hf_config_metadata(value: &JsonValue) -> (r: LocalModelMetadata)
    ensures
        config_metadata_from(r, *value),
{
    let nested = text_config_of(value);
    let ghost n = text_config(*value);
    let mt_keys = ["model_type"];
    assert(mt_keys@.map_values(|k: &str| k@) =~= seq!["model_type"@]);
    let model_type = first_string(value, nested, &mt_keys);
    let mut technical = LocalModelTechnical::default();
    technical.architecture = match &model_type {
        Some(m) => Some(m.clone()),
        None => match json::get(value, "architectures") {
            Some(a) => {
                let all = json::strings(a);
                if all.len() > 0 {
                    Some(all[0].clone())
                } else {
                    None
                }
            },
            None => None,
        },
    };
    technical.family = match &model_type {
        Some(m) => Some(m.clone()),
        None => None,
    };
    match &model_type {
        Some(m) => {
            technical.families.push(m.clone());
            assert(strs(technical.families@) =~= seq![m@]);
        },
        None => {},
    }
    let ctx_keys = [
        "max_position_embeddings",
        "seq_length",
        "n_ctx",
        "n_positions",
        "context_length",
        "max_seq_len",
    ];
    assert(ctx_keys@.map_values(|k: &str| k@) =~= seq![
        "max_position_embeddings"@, "seq_length"@, "n_ctx"@, "n_positions"@, "context_length"@,
        "max_seq_len"@,
    ]);
    technical.context_length = first_u64(value, nested, &ctx_keys);
    technical.max_context_length = technical.context_length;
    let emb_keys = ["hidden_size", "n_embd", "d_model"];
    assert(emb_keys@.map_values(|k: &str| k@) =~= seq!["hidden_size"@, "n_embd"@, "d_model"@]);
    technical.embedding_length = first_u64(value, nested, &emb_keys);
    let layer_keys = ["num_hidden_layers", "n_layer"];
    assert(layer_keys@.map_values(|k: &str| k@) =~= seq!["num_hidden_layers"@, "n_layer"@]);
    technical.block_count = first_u64(value, nested, &layer_keys);
    let head_keys = ["num_attention_heads", "n_head"];
    assert(head_keys@.map_values(|k: &str| k@) =~= seq!["num_attention_heads"@, "n_head"@]);
    technical.attention_heads = first_u64(value, nested, &head_keys);
    let kv_keys = ["num_key_value_heads", "n_head_kv"];
    assert(kv_keys@.map_values(|k: &str| k@) =~= seq!["num_key_value_heads"@, "n_head_kv"@]);
    technical.kv_heads = first_u64(value, nested, &kv_keys);
    let vocab_keys = ["vocab_size"];
    assert(vocab_keys@.map_values(|k: &str| k@) =~= seq!["vocab_size"@]);
    technical.vocab_size = first_u64(value, nested, &vocab_keys);
    let mut capabilities = LocalModelCapabilities::default();
    match &model_type {
        Some(m) => {
            capabilities.embedding = Some(str_contains(m.as_str(), "embed"));
        },
        None => {},
    }
    let mut provenance = LocalModelProvenance::default();
    provenance.tags = match json::get(value, "tags") {
        Some(a) => json::strings(a),
        None => Vec::new(),
    };
    provenance.license = json::field_str(value, "license");
    provenance.repo_url = match json::field_str(value, "_name_or_path") {
        Some(name) => if str_contains(name.as_str(), "/") {
            Some(name)
        } else {
            None
        },
        None => None,
    };
    let mut sources: Vec<String> = Vec::new();
    sources.push("hf_config".to_owned());
    assert(strs(sources@) =~= seq!["hf_config"@]);
    let m = LocalModelMetadata { technical, capabilities, provenance, sources };
    let ghost mt = first_string_spec(*value, n, seq!["model_type"@]);
    assert(opt_str(m.technical.architecture) == or_else(mt, first_array_string(*value, "architectures"@)));
    assert(opt_str(m.technical.family) == mt);
    assert(m.technical.embedding_length == first_u64_spec(*value, n, seq!["hidden_size"@, "n_embd"@, "d_model"@]));
    assert(m.capabilities.embedding == match mt { Some(x) => Some(contains_seq(x, "embed"@)), None => None });
    assert(strs(m.provenance.tags@) == match json_get(*value, "tags"@) { Some(a) => json_strings(a), None => Seq::empty() });
    assert(opt_str(m.provenance.license) == json_field_str(*value, "license"@));
    assert(strs(m.technical.families@) == match mt { Some(x) => seq![x], None => Seq::empty() });
    assert(m.technical.context_length == first_u64_spec(*value, n, seq![
            "max_position_embeddings"@, "seq_length"@, "n_ctx"@, "n_positions"@,
            "context_length"@, "max_seq_len"@,
        ]));
    assert(m.technical.block_count == first_u64_spec(*value, n, seq!["num_hidden_layers"@, "n_layer"@]));
    assert(m.technical.vocab_size == first_u64_spec(*value, n, seq!["vocab_size"@]));
    assert(strs(m.sources@) == seq!["hf_config"@]);
    m
}

/// The metadata in a Hugging Face `config.json`, given the file's text:
/// nothing when the text is not JSON.
pub fn hf_config_metadata_from_text(contents: &str) -> (r: Option<LocalModelMetadata>)
    ensures
        match json_text_value(contents@) {
            Some(v) => r matches Some(m) && config_metadata_from(m, v),
            None => r is None,
        },
{
    match json::parse_json_text(contents) {
        Some(v) => Some(read_hf_config_metadata(&v)),
        None => None,
    }
}

} // verus!
