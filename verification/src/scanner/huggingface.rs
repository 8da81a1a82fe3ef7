//! The Hugging Face hub cache: how repositories are named on disk, which
//! snapshot stands for a repository, and the model record built from it.
use vstd::prelude::*;

use crate::models::{
    LocalModel, LocalModelFile, ModelFormat, ModelRuntimeStatus, ModelSource, opt_str,
};
use crate::scanner::common::{
    detect_format, detect_format_spec, parse_quantization_from_name, quantization_of_name,
};
use crate::scanner::metadata::LocalModelMetadata;
use crate::sort::{SortField, sort_by_field, sorted_by, stable_sorted};
use crate::text::{
    CharClass, chars_eq, chars_of, concat2, concat3, contains_chars, contains_seq, decimal,
    decimal_string, first_occurrence, in_class, last_in_class, none_in_class, occurs_at,
    rfind_class, slice_chars, split_once_chars, split_once_spec, starts_with, starts_with_chars,
    string_of, trim, trim_str,
};

verus! {

/// The models found in a cache folder, and what could not be read.
pub struct HfScanReport {
    pub models: Vec<LocalModel>,
    pub warnings: Vec<String>,
}

/// The cache folder name of a repository id such as `Qwen/Qwen3-4B`:
/// `models--Qwen--Qwen3-4B`. Only `provider/name` ids with both parts
/// present and no further `/` have one.
pub open spec fn encode_repo_id_spec(repo_id: Seq<char>) -> Option<Seq<char>> {
    match split_once_spec(trim(repo_id), "/"@) {
        Some((provider, name)) => if provider.len() > 0 && name.len() > 0 && !contains_seq(
            name,
            "/"@,
        ) {
            Some("models--"@ + provider + "--"@ + name)
        } else {
            None
        },
        None => None,
    }
}

/// The repository id of a model cache folder name: `models--` followed by
/// the provider, `--` and the name, both non-empty.
pub open spec fn decode_cache_repo_dir_name_spec(name: Seq<char>) -> Option<Seq<char>> {
    if starts_with(name, "models--"@) {
        match split_once_spec(name.subrange("models--"@.len() as int, name.len() as int), "--"@) {
            Some((provider, repo)) => if provider.len() > 0 && repo.len() > 0 {
                Some(provider + "/"@ + repo)
            } else {
                None
            },
            None => None,
        }
    } else {
        None
    }
}

/// The cache folder name for a repository id.
pub fn encode_repo_id(repo_id: &str) -> (r: Option<String>)
    ensures
        opt_str(r) == encode_repo_id_spec(repo_id@),
{
    let t = trim_str(repo_id);
    let tv = chars_of(t.as_str());
    let slash = ['/'];
    proof {
        reveal_strlit("/");
        assert(slash@ == "/"@);
    }
    match split_once_chars(tv.as_slice(), &slash) {
        Some((provider, name)) => {
            if provider.len() > 0 && name.len() > 0 && !contains_chars(name.as_slice(), &slash) {
                let p = string_of(provider.as_slice());
                let n = string_of(name.as_slice());
                let head = concat3("models--", p.as_str(), "--");
                Some(concat2(head.as_str(), n.as_str()))
            } else {
                None
            }
        },
        None => None,
    }
}

/// The repository id a cache folder name stands for, if it names a model.
pub fn decode_cache_repo_dir_name(name: &str) -> (r: Option<String>)
    ensures
        opt_str(r) == decode_cache_repo_dir_name_spec(name@),
{
    let v = chars_of(name);
    let prefix = chars_of("models--");
    let sep = chars_of("--");
    proof {
        reveal_strlit("models--");
    }
    if !starts_with_chars(v.as_slice(), prefix.as_slice()) {
        return None;
    }
    let encoded = slice_chars(v.as_slice(), prefix.len(), v.len());
    match split_once_chars(encoded.as_slice(), sep.as_slice()) {
        Some((provider, repo)) => {
            if provider.len() > 0 && repo.len() > 0 {
                let p = string_of(provider.as_slice());
                let n = string_of(repo.as_slice());
                Some(concat3(p.as_str(), "/", n.as_str()))
            } else {
                None
            }
        },
        None => None,
    }
}

/// Decoding a cache folder name gives back the (trimmed) repository id it
/// was made from, as long as the provider part neither contains `--` nor
/// ends with `-` (where the folder name cannot tell where it ends).
pub proof fn decode_inverts_encode(repo_id: Seq<char>)
    requires
        encode_repo_id_spec(repo_id) is Some,
        split_once_spec(trim(repo_id), "/"@) matches Some((p, n)) && !contains_seq(
            p.push('-'),
            "--"@,
        ),
    ensures
        decode_cache_repo_dir_name_spec(encode_repo_id_spec(repo_id).unwrap()) == Some(trim(repo_id)),
{
    reveal_strlit("models--");
    reveal_strlit("--");
    reveal_strlit("/");
    let t = trim(repo_id);
    let (p, n) = split_once_spec(t, "/"@).unwrap();
    let i = choose|i: int| first_occurrence(t, "/"@, i);
    assert(p == t.subrange(0, i));
    assert(n == t.subrange(i + 1, t.len() as int));
    let e = "models--"@ + p + "--"@ + n;
    assert(encode_repo_id_spec(repo_id) == Some(e));
    let rest = e.subrange(8, e.len() as int);
    assert(starts_with(e, "models--"@)) by {
        assert(e.subrange(0, 8) =~= "models--"@);
    }
    assert(rest =~= p + "--"@ + n);
    let k = p.len() as int;
    assert(occurs_at(rest, "--"@, k)) by {
        assert(rest.subrange(k, k + 2) =~= "--"@);
    }
    assert forall|j: int| 0 <= j < k implies !occurs_at(rest, "--"@, j) by {
        if occurs_at(rest, "--"@, j) {
            assert(rest.subrange(j, j + 2)[0] == '-');
            assert(rest.subrange(j, j + 2)[1] == '-');
            assert(rest[j] == '-' && rest[j + 1] == '-');
            let q = p.push('-');
            assert(q[j] == '-');
            assert(q[j + 1] == '-');
            assert(occurs_at(q, "--"@, j)) by {
                assert(q.subrange(j, j + 2) =~= "--"@);
            }
        }
    }
    assert(first_occurrence(rest, "--"@, k));
    let c = choose|c: int| first_occurrence(rest, "--"@, c);
    crate::text::lemma_first_occurrence_unique(rest, "--"@, k, c);
    assert(rest.subrange(0, k) =~= p);
    assert(rest.subrange(k + 2, rest.len() as int) =~= n);
    assert(t =~= p + "/"@ + n) by {
        assert(t.subrange(i, i + 1) == "/"@);
    }
}

/// The snapshot id a `refs/main` file names: its trimmed text, if any.
pub fn refs_main_from(contents: &str) -> (r: Option<String>)
    ensures
        opt_str(r) == (if trim(contents@).len() > 0 {
            Some(trim(contents@))
        } else {
            None
        }),
{
    let t = trim_str(contents);
    if t.as_str().is_empty() {
        None
    } else {
        Some(t)
    }
}

/// A snapshot folder of a cached repository: its name, its path, and when
/// it was last modified (nanoseconds since the Unix epoch), if known.
#[derive(Debug, Clone)]
pub struct SnapshotDir {
    pub name: String,
    pub path: String,
    pub modified: Option<u128>,
}

/// Unknown times come before every known time.
pub open spec fn time_key(t: Option<u128>) -> int {
    match t {
        Some(v) => v as int,
        None => -1,
    }
}

/// `i` is the last of the most recently modified snapshots
/// (`Iterator::max_by_key`).
pub open spec fn latest_snapshot(s: Seq<SnapshotDir>, i: int) -> bool {
    &&& 0 <= i < s.len()
    &&& forall|j: int| 0 <= j < i ==> time_key(#[trigger] s[j].modified) <= time_key(s[i].modified)
    &&& forall|j: int| i < j < s.len() ==> time_key(#[trigger] s[j].modified) < time_key(s[i].modified)
}

/// `i` is the first snapshot named `name`.
pub open spec fn first_named(s: Seq<SnapshotDir>, name: Seq<char>, i: int) -> bool {
    &&& 0 <= i < s.len()
    &&& s[i].name@ == name
    &&& forall|j: int| 0 <= j < i ==> (#[trigger] s[j]).name@ != name
}

/// Picks the snapshot a repository stands for: the one `refs/main` names,
/// else the most recently modified one (the last of equals).
pub fn choose_snapshot(snapshots: &[SnapshotDir], refs_main: Option<&str>) -> (r: Option<usize>)
    ensures
        match r {
            Some(i) => match refs_main {
                Some(name) => first_named(snapshots@, name@, i as int) || (!exists|j: int|
                    first_named(snapshots@, name@, j)) && latest_snapshot(snapshots@, i as int),
                None => latest_snapshot(snapshots@, i as int),
            },
            None => snapshots@.len() == 0,
        },
        refs_main matches Some(name) ==> ((exists|j: int| first_named(snapshots@, name@, j)) ==> (r
            matches Some(i) && first_named(snapshots@, name@, i as int))),
{
    match refs_main {
        Some(name) => {
            let target = chars_of(name);
            let mut k: usize = 0;
            while k < snapshots.len()
                invariant
                    0 <= k <= snapshots@.len(),
                    target@ == name@,
                    refs_main == Some(name),
                    forall|j: int| 0 <= j < k ==> (#[trigger] snapshots@[j]).name@ != name@,
                decreases snapshots.len() - k,
            {
                let cand = chars_of(snapshots[k].name.as_str());
                if chars_eq(cand.as_slice(), target.as_slice()) {
                    assert(first_named(snapshots@, name@, k as int));
                    return Some(k);
                }
                k += 1;
            }
            assert(!exists|j: int| first_named(snapshots@, name@, j)) by {
                if exists|j: int| first_named(snapshots@, name@, j) {
                    let j = choose|j: int| first_named(snapshots@, name@, j);
                    assert(snapshots@[j].name@ != name@);
                }
            }
        },
        None => {},
    }
    if snapshots.len() == 0 {
        return None;
    }
    let mut best: usize = 0;
    let mut i: usize = 1;
    while i < snapshots.len()
        invariant
            0 <= best < i <= snapshots@.len(),
            forall|j: int| 0 <= j < best ==> time_key(#[trigger] snapshots@[j].modified) <= time_key(
                snapshots@[best as int].modified,
            ),
            forall|j: int| best < j < i ==> time_key(#[trigger] snapshots@[j].modified) < time_key(
                snapshots@[best as int].modified,
            ),
        decreases snapshots.len() - i,
    {
        let newer = match (snapshots[i].modified, snapshots[best].modified) {
            (Some(a), Some(b)) => a >= b,
            (Some(_), None) => true,
            (None, Some(_)) => false,
            (None, None) => true,
        };
        if newer {
            best = i;
        }
        i += 1;
    }
    Some(best)
}

/// A file of a snapshot: its name, its path relative to the snapshot, its
/// size, and the format and quantization its name shows. `full_path` is
/// where the file lies.
pub fn snapshot_file(name: &str, relative_path: &str, full_path: &str, size_bytes: Option<u64>) -> (r:
    LocalModelFile)
    ensures
        r.name@ == name@,
        r.path@ == relative_path@,
        r.size_bytes == size_bytes,
        r.format == detect_format_spec(full_path@),
        opt_str(r.quantization) == quantization_of_name(name@),
{
    LocalModelFile {
        name: name.to_owned(),
        path: relative_path.to_owned(),
        size_bytes,
        format: detect_format(full_path),
        quantization: parse_quantization_from_name(name),
    }
}

/// The sum of the sizes that are known.
pub open spec fn known_sizes(files: Seq<LocalModelFile>) -> nat
    decreases files.len(),
{
    if files.len() == 0 {
        0
    } else {
        known_sizes(files.drop_last()) + match files.last().size_bytes {
            Some(s) => s as nat,
            None => 0,
        }
    }
}

/// The file that stands for the model: the first of a known format, else
/// the first file.
pub open spec fn primary_file(files: Seq<LocalModelFile>, i: int) -> bool {
    &&& 0 <= i < files.len()
    &&& (files[i].format != ModelFormat::Unknown || forall|j: int|
        0 <= j < files.len() ==> (#[trigger] files[j]).format == ModelFormat::Unknown && i == 0)
    &&& forall|j: int| 0 <= j < i ==> (#[trigger] files[j]).format == ModelFormat::Unknown
}

/// The first quantization that a file shows.
pub open spec fn first_quantization(files: Seq<LocalModelFile>) -> Option<Seq<char>>
    decreases files.len(),
{
    if files.len() == 0 {
        None
    } else if files[0].quantization is Some {
        opt_str(files[0].quantization)
    } else {
        first_quantization(files.drop_first())
    }
}

/// The text after the last `/` of a repository id (all of it if none).
pub open spec fn last_segment(s: Seq<char>) -> Seq<char> {
    if exists|i: int| last_in_class(s, CharClass::Exactly('/'), i) {
        s.subrange((choose|i: int| last_in_class(s, CharClass::Exactly('/'), i)) + 1, s.len() as int)
    } else {
        s
    }
}

/// The provider of a repository id: the text before its first `/`.
pub open spec fn provider_of(repo_id: Seq<char>) -> Option<Seq<char>> {
    match split_once_spec(repo_id, "/"@) {
        Some((p, _)) => Some(p),
        None => None,
    }
}

/// The model record of a cached repository, built from its chosen
/// snapshot.
pub open spec fn repo_model_spec(
    r: LocalModel,
    repo_id: Seq<char>,
    snapshot_path: Seq<char>,
    input_files: Seq<LocalModelFile>,
    blob_size: Option<u64>,
    last_modified: Option<u64>,
    metadata: LocalModelMetadata,
) -> bool {
    let files = r.files@;
    let size: int = match blob_size {
        Some(b) => b as int,
        None => known_sizes(input_files) as int,
    };
    &&& files == stable_sorted(input_files, SortField::Path)
    &&& files.to_multiset() == input_files.to_multiset()
    &&& sorted_by(files, SortField::Path)
    &&& r.id@ == "huggingface:"@ + repo_id
    &&& r.display_name@ == if exists|i: int| primary_file(files, i) {
        files[choose|i: int| primary_file(files, i)].name@
    } else {
        last_segment(repo_id)
    }
    &&& r.format == if exists|i: int| primary_file(files, i) {
        Some(files[choose|i: int| primary_file(files, i)].format)
    } else {
        None
    }
    &&& opt_str(r.quantization) == if exists|i: int| primary_file(files, i) && files[i].quantization is Some {
        opt_str(files[choose|i: int| primary_file(files, i)].quantization)
    } else {
        first_quantization(files)
    }
    &&& opt_str(r.provider) == provider_of(repo_id)
    &&& opt_str(r.repo_id) == Some(repo_id)
    &&& r.source == ModelSource::HuggingFace
    &&& opt_str(r.path) == Some(snapshot_path)
    &&& r.size_bytes == if size > 0 {
        Some(size as u64)
    } else {
        None
    }
    &&& r.parameter_size is None
    &&& opt_str(r.last_modified) == match last_modified {
        Some(t) => Some(decimal(t as nat)),
        None => None,
    }
    &&& r.runtime_status == Some(ModelRuntimeStatus::Available)
    &&& r.technical == metadata.technical
    &&& r.capabilities == metadata.capabilities
    &&& r.provenance == metadata.provenance
    &&& r.metadata_sources == metadata.sources
}

fn sum_known_sizes(files: &Vec<LocalModelFile>) -> (r: u64)
    requires
        known_sizes(files@) <= u64::MAX,
    ensures
        r == known_sizes(files@),
{
    let mut total: u64 = 0;
    let mut i: usize = 0;
    while i < files.len()
        invariant
            0 <= i <= files@.len(),
            total == known_sizes(files@.take(i as int)),
            known_sizes(files@) <= u64::MAX,
        decreases files.len() - i,
    {
        assert(files@.take(i + 1).drop_last() =~= files@.take(i as int));
        proof {
            lemma_known_sizes_prefix(files@, i + 1);
        }
        match files[i].size_bytes {
            Some(s) => {
                total = total + s;
            },
            None => {},
        }
        i += 1;
    }
    assert(files@.take(files@.len() as int) =~= files@);
    total
}

proof fn lemma_known_sizes_prefix(files: Seq<LocalModelFile>, n: int)
    requires
        0 <= n <= files.len(),
    ensures
        known_sizes(files.take(n)) <= known_sizes(files),
    decreases files.len(),
{
    if n < files.len() {
        assert(files.drop_last().take(n) =~= files.take(n));
        lemma_known_sizes_prefix(files.drop_last(), n);
    } else {
        assert(files.take(n) =~= files);
    }
}

fn after_last_slash(s: &str) -> (r: String)
    ensures
        r@ == last_segment(s@),
{
    let v = chars_of(s);
    match rfind_class(v.as_slice(), CharClass::Exactly('/')) {
        Some(i) => {
            assert(i < v@.len());
            proof {
                let k = choose|k: int| last_in_class(v@, CharClass::Exactly('/'), k);
                if k < i {
                    assert(!in_class(CharClass::Exactly('/'), v@[i as int]));
                } else if i < k {
                    assert(!in_class(CharClass::Exactly('/'), v@[k]));
                }
            }
            assert(i < v.len());
            let tail = slice_chars(v.as_slice(), i + 1, v.len());
            string_of(tail.as_slice())
        },
        None => {
            assert(!exists|k: int| last_in_class(v@, CharClass::Exactly('/'), k));
            s.to_owned()
        },
    }
}

fn provider_from(repo_id: &str) -> (r: Option<String>)
    ensures
        opt_str(r) == provider_of(repo_id@),
{
    let v = chars_of(repo_id);
    let slash = ['/'];
    proof {
        reveal_strlit("/");
        assert(slash@ == "/"@);
    }
    match split_once_chars(v.as_slice(), &slash) {
        Some((p, _)) => Some(string_of(p.as_slice())),
        None => None,
    }
}

fn find_primary(files: &Vec<LocalModelFile>) -> (r: Option<usize>)
    ensures
        match r {
            Some(i) => primary_file(files@, i as int),
            None => files@.len() == 0,
        },
{
    let mut i: usize = 0;
    while i < files.len()
        invariant
            0 <= i <= files@.len(),
            forall|j: int| 0 <= j < i ==> (#[trigger] files@[j]).format == ModelFormat::Unknown,
        decreases files.len() - i,
    {
        if files[i].format != ModelFormat::Unknown {
            return Some(i);
        }
        i += 1;
    }
    if files.len() > 0 {
        Some(0)
    } else {
        None
    }
}

proof fn lemma_primary_unique(files: Seq<LocalModelFile>, i: int, j: int)
    requires
        primary_file(files, i),
        primary_file(files, j),
    ensures
        i == j,
{
    if i < j {
        assert(files[i].format == ModelFormat::Unknown);
    } else if j < i {
        assert(files[j].format == ModelFormat::Unknown);
    }
}

fn first_quantization_exec(files: &Vec<LocalModelFile>) -> (r: Option<String>)
    ensures
        opt_str(r) == first_quantization(files@),
{
    let mut i: usize = 0;
    assert(files@.skip(0) =~= files@);
    while i < files.len()
        invariant
            0 <= i <= files@.len(),
            first_quantization(files@) == first_quantization(files@.skip(i as int)),
        decreases files.len() - i,
    {
        assert(files@.skip(i as int)[0] == files@[i as int]);
        match &files[i].quantization {
            Some(q) => {
                return Some(q.clone());
            },
            None => {},
        }
        assert(files@.skip(i as int).drop_first() =~= files@.skip(i + 1));
        i += 1;
    }
    None
}

/// The sum of a list of sizes.
pub open spec fn total_of(sizes: Seq<u64>) -> nat
    decreases sizes.len(),
{
    if sizes.len() == 0 {
        0
    } else {
        total_of(sizes.drop_last()) + sizes.last() as nat
    }
}

proof fn lemma_total_of_prefix(sizes: Seq<u64>, n: int)
    requires
        0 <= n <= sizes.len(),
    ensures
        total_of(sizes.take(n)) <= total_of(sizes),
    decreases sizes.len(),
{
    if n < sizes.len() {
        assert(sizes.drop_last().take(n) =~= sizes.take(n));
        lemma_total_of_prefix(sizes.drop_last(), n);
    } else {
        assert(sizes.take(n) =~= sizes);
    }
}

/// The size of a blobs folder: the sum of the sizes of the files in it.
pub fn blobs_size(sizes: &Vec<u64>) -> (r: u64)
    requires
        total_of(sizes@) <= u64::MAX,
    ensures
        r == total_of(sizes@),
{
    let mut total: u64 = 0;
    let mut i: usize = 0;
    while i < sizes.len()
        invariant
            0 <= i <= sizes@.len(),
            total == total_of(sizes@.take(i as int)),
            total_of(sizes@) <= u64::MAX,
        decreases sizes.len() - i,
    {
        assert(sizes@.take(i + 1).drop_last() =~= sizes@.take(i as int));
        proof {
            lemma_total_of_prefix(sizes@, i + 1);
        }
        total = total + sizes[i];
        i += 1;
    }
    assert(sizes@.take(sizes@.len() as int) =~= sizes@);
    total
}

/// The latest of a list of times, if there is any.
pub open spec fn latest_of(times: Seq<u64>) -> Option<u64>
    decreases times.len(),
{
    if times.len() == 0 {
        None
    } else {
        match latest_of(times.drop_last()) {
            Some(t) => Some(if t >= times.last() {
                t
            } else {
                times.last()
            }),
            None => Some(times.last()),
        }
    }
}

/// The latest modification time among a snapshot's files.
pub fn latest_time(times: &Vec<u64>) -> (r: Option<u64>)
    ensures
        r == latest_of(times@),
{
    let mut latest: Option<u64> = None;
    let mut i: usize = 0;
    while i < times.len()
        invariant
            0 <= i <= times@.len(),
            latest == latest_of(times@.take(i as int)),
        decreases times.len() - i,
    {
        assert(times@.take(i + 1).drop_last() =~= times@.take(i as int));
        let t = times[i];
        latest = match latest {
            Some(x) => Some(if x >= t {
                x
            } else {
                t
            }),
            None => Some(t),
        };
        i += 1;
    }
    assert(times@.take(times@.len() as int) =~= times@);
    latest
}

/// Builds the model record of a cached repository from its chosen
/// snapshot: its files (in any order), the size of its blobs folder when
/// that could be read, the latest modification time of its files (seconds
/// since the Unix epoch), and the metadata its files give.
pub fn repo_cache_model(
    repo_id: &str,
    snapshot_path: &str,
    files: Vec<LocalModelFile>,
    blob_size: Option<u64>,
    last_modified: Option<u64>,
    metadata: LocalModelMetadata,
) -> (r: LocalModel)
    requires
        blob_size is None ==> known_sizes(files@) <= u64::MAX,
    ensures
        repo_model_spec(r, repo_id@, snapshot_path@, files@, blob_size, last_modified, metadata),
{
    let ghost input = files@;
    let size: u64 = match blob_size {
        Some(b) => b,
        None => sum_known_sizes(&files),
    };
    let files = sort_by_field(files, SortField::Path);
    let primary = find_primary(&files);
    proof {
        if let Some(i) = primary {
            let c = choose|c: int| primary_file(files@, c);
            lemma_primary_unique(files@, i as int, c);
        } else {
            assert(!exists|c: int| primary_file(files@, c));
        }
    }
    let display_name = match primary {
        Some(i) => files[i].name.clone(),
        None => after_last_slash(repo_id),
    };
    let format = match primary {
        Some(i) => Some(files[i].format),
        None => None,
    };
    let quantization = match primary {
        Some(i) => match &files[i].quantization {
            Some(q) => Some(q.clone()),
            None => first_quantization_exec(&files),
        },
        None => first_quantization_exec(&files),
    };
    let last = match last_modified {
        Some(t) => Some(decimal_string(t)),
        None => None,
    };
    LocalModel {
        id: concat2("huggingface:", repo_id),
        display_name,
        provider: provider_from(repo_id),
        repo_id: Some(repo_id.to_owned()),
        source: ModelSource::HuggingFace,
        path: Some(snapshot_path.to_owned()),
        size_bytes: if size > 0 {
            Some(size)
        } else {
            None
        },
        format,
        quantization,
        parameter_size: None,
        last_modified: last,
        files,
        runtime_status: Some(ModelRuntimeStatus::Available),
        technical: metadata.technical,
        capabilities: metadata.capabilities,
        provenance: metadata.provenance,
        metadata_sources: metadata.sources,
    }
}

/// What scanning a repository folder of the cache came to.
pub enum RepoScan {
    /// The model record of its chosen snapshot.
    Found(LocalModel),
    /// It has no snapshot that could be read.
    NoSnapshots,
    /// Reading it failed; the error's text.
    Failed(String),
}

/// What one entry of the cache folder came to.
pub enum CacheEntryScan {
    /// The entry could not be read; the error's text.
    Unreadable(String),
    /// A model repository folder: its repository id and what scanning it
    /// found.
    Repo(String, RepoScan),
}

/// The warning an entry gives, if any.
pub open spec fn entry_warning(e: CacheEntryScan) -> Seq<Seq<char>> {
    match e {
        CacheEntryScan::Unreadable(err) => seq!["Could not read a cache entry: "@ + err@ + "."@],
        CacheEntryScan::Repo(id, RepoScan::NoSnapshots) => seq![id@ + " has no readable snapshots."@],
        CacheEntryScan::Repo(id, RepoScan::Failed(err)) => seq![id@ + ": "@ + err@],
        CacheEntryScan::Repo(_, RepoScan::Found(_)) => Seq::empty(),
    }
}

/// The model an entry gives, if any.
pub open spec fn entry_model(e: CacheEntryScan) -> Seq<LocalModel> {
    match e {
        CacheEntryScan::Repo(_, RepoScan::Found(m)) => seq![m],
        _ => Seq::empty(),
    }
}

/// The warnings of the entries, in their order.
pub open spec fn entries_warnings(es: Seq<CacheEntryScan>) -> Seq<Seq<char>>
    decreases es.len(),
{
    if es.len() == 0 {
        Seq::empty()
    } else {
        entries_warnings(es.drop_last()) + entry_warning(es.last())
    }
}

/// The models of the entries, in their order.
pub open spec fn entries_models(es: Seq<CacheEntryScan>) -> Seq<LocalModel>
    decreases es.len(),
{
    if es.len() == 0 {
        Seq::empty()
    } else {
        entries_models(es.drop_last()) + entry_model(es.last())
    }
}

/// The report of a cache scan: every model found, ordered by display name,
/// and a warning for each entry that could not be read or gave no model.
pub fn hf_scan_report(entries: Vec<CacheEntryScan>) -> (r: HfScanReport)
    ensures
        crate::models::strs(r.warnings@) == entries_warnings(entries@),
        r.models@ == stable_sorted(entries_models(entries@), SortField::DisplayName),
        r.models@.to_multiset() == entries_models(entries@).to_multiset(),
        sorted_by(r.models@, SortField::DisplayName),
{
    let ghost orig = entries@;
    assert(orig.len() == entries.len());
    let mut rest = entries;
    let mut models: Vec<LocalModel> = Vec::new();
    let mut warnings: Vec<String> = Vec::new();
    let mut k: usize = 0;
    while rest.len() > 0
        invariant
            k + rest@.len() == orig.len(),
            orig.len() <= usize::MAX,
            rest@ == orig.skip(k as int),
            crate::models::strs(warnings@) == entries_warnings(orig.take(k as int)),
            models@ == entries_models(orig.take(k as int)),
        decreases rest.len(),
    {
        let e = rest.remove(0);
        assert(e == orig[k as int]);
        assert(orig.take(k + 1).drop_last() =~= orig.take(k as int));
        assert(orig.take(k + 1).last() == e);
        assert(rest@ =~= orig.skip(k + 1));
        let ghost ws = crate::models::strs(warnings@);
        let ghost ms = models@;
        match e {
            CacheEntryScan::Unreadable(err) => {
                let a = concat3("Could not read a cache entry: ", err.as_str(), ".");
                warnings.push(a);
                assert(crate::models::strs(warnings@) =~= ws + entry_warning(orig[k as int]));
                assert(models@ =~= ms + entry_model(orig[k as int]));
            },
            CacheEntryScan::Repo(id, RepoScan::NoSnapshots) => {
                warnings.push(concat2(id.as_str(), " has no readable snapshots."));
                assert(crate::models::strs(warnings@) =~= ws + entry_warning(orig[k as int]));
                assert(models@ =~= ms + entry_model(orig[k as int]));
            },
            CacheEntryScan::Repo(id, RepoScan::Failed(err)) => {
                warnings.push(concat3(id.as_str(), ": ", err.as_str()));
                assert(crate::models::strs(warnings@) =~= ws + entry_warning(orig[k as int]));
                assert(models@ =~= ms + entry_model(orig[k as int]));
            },
            CacheEntryScan::Repo(_, RepoScan::Found(m)) => {
                models.push(m);
                assert(crate::models::strs(warnings@) =~= ws + entry_warning(orig[k as int]));
                assert(models@ =~= ms + entry_model(orig[k as int]));
            },
        }
        k += 1;
    }
    assert(orig.take(k as int) =~= orig);
    let models = sort_by_field(models, SortField::DisplayName);
    HfScanReport { models, warnings }
}

/// The size of a cached model counts the files whose size is known and
/// nothing for the others: adding a file of known size adds that size,
/// adding one of unknown size changes nothing.
pub proof fn model_size_counts_known_sizes(files: Seq<LocalModelFile>, f: LocalModelFile)
    ensures
        f.size_bytes matches Some(x) ==> known_sizes(files.push(f)) == known_sizes(files) + x,
        f.size_bytes is None ==> known_sizes(files.push(f)) == known_sizes(files),
        known_sizes(Seq::<LocalModelFile>::empty()) == 0,
{
    assert(files.push(f).drop_last() =~= files);
}

/// The quantization of a cached model is that of the first file that shows
/// one: it is shown by some file and by no earlier file, and a model none of
/// whose files shows one has none.
pub proof fn model_quantization_is_the_first_shown(files: Seq<LocalModelFile>)
    ensures
        first_quantization(files) matches Some(q) ==> exists|i: int|
            0 <= i < files.len() && opt_str((#[trigger] files[i]).quantization) == Some(q) && forall|j: int|
                0 <= j < i ==> (#[trigger] files[j]).quantization is None,
        first_quantization(files) is None ==> forall|i: int|
            0 <= i < files.len() ==> (#[trigger] files[i]).quantization is None,
    decreases files.len(),
{
    if files.len() > 0 && files[0].quantization is None {
        let rest = files.drop_first();
        model_quantization_is_the_first_shown(rest);
        assert forall|i: int| 0 <= i < rest.len() implies #[trigger] rest[i] == files[i + 1] by {}
        if let Some(q) = first_quantization(rest) {
            let i = choose|i: int|
                0 <= i < rest.len() && opt_str((#[trigger] rest[i]).quantization) == Some(q) && forall|j: int|
                    0 <= j < i ==> (#[trigger] rest[j]).quantization is None;
            assert(opt_str(files[i + 1].quantization) == Some(q));
            assert forall|j: int| 0 <= j < i + 1 implies (#[trigger] files[j]).quantization is None by {
                if j > 0 {
                    assert(files[j] == rest[j - 1]);
                }
            }
        } else {
            assert forall|i: int| 0 <= i < files.len() implies (#[trigger] files[i]).quantization is None by {
                if i > 0 {
                    assert(files[i] == rest[i - 1]);
                }
            }
        }
    } else if files.len() > 0 {
        assert(opt_str(files[0].quantization) is Some);
    }
}

} // verus!

