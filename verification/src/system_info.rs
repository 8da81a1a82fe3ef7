//! The machine summary: which disk holds the Hugging Face cache, the CPU
//! record, and the graphics adapters worth listing.
use vstd::prelude::*;

use crate::json::{self, JsonValue, json_get, json_str, json_text_value};
use crate::models::{CpuInfo, DiskInfo, GpuInfo, opt_str};
use crate::scanner::lmstudio::{value_u64, value_u64_spec};
use crate::text::{
    ascii_lower, chars_eq, chars_of, contains_chars, contains_seq, ends_with, lower_chars,
    replace_char, replace_chars, starts_with, starts_with_chars, string_of, trim, trim_chars,
    trim_str, trim_start_chars, trim_start_class, CharClass,
};

verus! {

/// How many bytes a character takes in UTF-8.
pub open spec fn utf8_width(c: char) -> nat {
    if (c as u32) < 0x80 {
        1
    } else if (c as u32) < 0x800 {
        2
    } else if (c as u32) < 0x10000 {
        3
    } else {
        4
    }
}

/// How many bytes a text takes in UTF-8 (`str::len`).
pub open spec fn utf8_len(s: Seq<char>) -> nat
    decreases s.len(),
{
    if s.len() == 0 {
        0
    } else {
        utf8_len(s.drop_last()) + utf8_width(s.last())
    }
}

proof fn lemma_utf8_len_bounds(s: Seq<char>)
    ensures
        s.len() <= utf8_len(s) <= 4 * s.len(),
    decreases s.len(),
{
    if s.len() > 0 {
        lemma_utf8_len_bounds(s.drop_last());
    }
}

/// The length in bytes of a text held as characters.
pub fn utf8_length(v: &[char]) -> (r: usize)
    requires
        4 * v@.len() <= usize::MAX,
    ensures
        r == utf8_len(v@),
{
    let mut n: usize = 0;
    let mut i: usize = 0;
    while i < v.len()
        invariant
            0 <= i <= v@.len(),
            4 * v@.len() <= usize::MAX,
            n == utf8_len(v@.take(i as int)),
        decreases v.len() - i,
    {
        assert(v@.take(i + 1).drop_last() =~= v@.take(i as int));
        proof {
            lemma_utf8_len_bounds(v@.take(i as int));
        }
        let c = v[i] as u32;
        let w: usize = if c < 0x80 {
            1
        } else if c < 0x800 {
            2
        } else if c < 0x10000 {
            3
        } else {
            4
        };
        n = n + w;
        i += 1;
    }
    assert(v@.take(v@.len() as int) =~= v@);
    n
}

/// Trailing `\` removed, except the one after a drive letter's `:` and a
/// lone `\`.
pub open spec fn strip_trailing_seps(s: Seq<char>) -> Seq<char>
    decreases s.len(),
{
    if s.len() > 1 && s.last() == '\\' && !ends_with(s, ":\\"@) {
        strip_trailing_seps(s.drop_last())
    } else {
        s
    }
}

/// A path as paths are compared: trimmed, `/` made `\`, lowercased, and
/// without trailing separators (a drive root keeps its own).
pub open spec fn normalize_spec(path: Seq<char>) -> Seq<char> {
    strip_trailing_seps(ascii_lower(replace_char(trim(path), '/', '\\')))
}

/// A path as paths are compared.
pub fn normalize_path_for_compare(path: &str) -> (r: String)
    ensures
        r@ == normalize_spec(path@),
{
    let t = trim_chars(chars_of(path).as_slice(), CharClass::Whitespace);
    let replaced = replace_chars(t.as_slice(), '/', '\\');
    let mut v = lower_chars(replaced.as_slice());
    let tail = chars_of(":\\");
    proof {
        reveal_strlit(":\\");
    }
    while v.len() > 1 && v[v.len() - 1] == '\\' && !crate::text::ends_with_chars(v.as_slice(), tail.as_slice())
        invariant
            tail@ == ":\\"@,
            strip_trailing_seps(v@) == normalize_spec(path@),
        decreases v.len(),
    {
        v.pop();
    }
    string_of(v.as_slice())
}

/// How well a mount point holds a path: its length in bytes when the path
/// is the mount point or lies below it (part for part), else nothing.
pub open spec fn score_spec(path: Seq<char>, mount: Seq<char>) -> Option<nat> {
    let p = normalize_spec(path);
    let m = normalize_spec(mount);
    if p.len() == 0 || m.len() == 0 {
        None
    } else if p == m {
        Some(utf8_len(m))
    } else {
        let prefix = if ends_with(m, "\\"@) {
            m
        } else {
            m + "\\"@
        };
        if starts_with(p, prefix) {
            Some(utf8_len(m))
        } else {
            None
        }
    }
}

/// How well a mount point holds a path, if it holds it at all.
pub fn score_mount_match(path: &str, mount_point: &str) -> (r: Option<usize>)
    requires
        4 * mount_point@.len() <= usize::MAX,
    ensures
        match r {
            Some(x) => score_spec(path@, mount_point@) == Some(x as nat),
            None => score_spec(path@, mount_point@) is None,
        },
{
    let p = chars_of(normalize_path_for_compare(path).as_str());
    let m = chars_of(normalize_path_for_compare(mount_point).as_str());
    if p.len() == 0 || m.len() == 0 {
        return None;
    }
    proof {
        lemma_normalize_shorter(mount_point@);
    }
    if chars_eq(p.as_slice(), m.as_slice()) {
        return Some(utf8_length(m.as_slice()));
    }
    let sep = chars_of("\\");
    let mut prefix = m.clone();
    assert(prefix@ == m@);
    if !crate::text::ends_with_chars(m.as_slice(), sep.as_slice()) {
        prefix.push('\\');
        proof {
            reveal_strlit("\\");
        }
        assert(prefix@ =~= m@ + "\\"@);
    }
    if starts_with_chars(p.as_slice(), prefix.as_slice()) {
        Some(utf8_length(m.as_slice()))
    } else {
        None
    }
}

proof fn lemma_strip_shorter(s: Seq<char>)
    ensures
        strip_trailing_seps(s).len() <= s.len(),
    decreases s.len(),
{
    if s.len() > 1 && s.last() == '\\' && !ends_with(s, ":\\"@) {
        lemma_strip_shorter(s.drop_last());
    }
}

proof fn lemma_normalize_shorter(path: Seq<char>)
    ensures
        normalize_spec(path).len() <= path.len(),
{
    crate::text::lemma_trim_start_suffix(path, CharClass::Whitespace);
    crate::text::lemma_trim_end_prefix(crate::text::trim_start_class(path, CharClass::Whitespace), CharClass::Whitespace);
    lemma_strip_shorter(ascii_lower(replace_char(trim(path), '/', '\\')));
}

/// The disk record of a disk the system lists: its name, if not blank,
/// its mount point and its sizes.
pub fn disk_info(name: &str, mount_point: String, total_bytes: u64, available_bytes: u64) -> (r:
    DiskInfo)
    ensures
        opt_str(r.name) == (if trim(name@).len() > 0 {
            Some(trim(name@))
        } else {
            None
        }),
        r.mount_point == mount_point,
        r.total_bytes == total_bytes,
        r.available_bytes == available_bytes,
{
    let n = trim_str(name);
    DiskInfo {
        name: if n.as_str().is_empty() {
            None
        } else {
            Some(n)
        },
        mount_point,
        total_bytes,
        available_bytes,
    }
}

/// The disk whose mount point holds the path best: the highest score, the
/// last of equals.
pub open spec fn best_disk(disks: Seq<DiskInfo>, path: Seq<char>, i: int) -> bool {
    &&& 0 <= i < disks.len()
    &&& score_spec(path, disks[i].mount_point@) matches Some(s) && {
        &&& forall|j: int|
            0 <= j < i ==> (#[trigger] score_spec(path, disks[j].mount_point@) matches Some(t) ==> t
                <= s)
        &&& forall|j: int|
            i < j < disks.len() ==> (#[trigger] score_spec(path, disks[j].mount_point@) matches Some(
                t,
            ) ==> t < s)
    }
}

/// Picks the disk that holds the Hugging Face cache.
pub fn select_disk_for_hf_cache(disks: &Vec<DiskInfo>, hf_cache_path: &str) -> (r: Option<usize>)
    requires
        forall|i: int| 0 <= i < disks@.len() ==> 4 * (#[trigger] disks@[i]).mount_point@.len() <= usize::MAX,
    ensures
        match r {
            Some(i) => best_disk(disks@, hf_cache_path@, i as int),
            None => forall|i: int|
                0 <= i < disks@.len() ==> #[trigger] score_spec(hf_cache_path@, disks@[i].mount_point@) is None,
        },
{
    let mut best: Option<(usize, usize)> = None;
    let mut i: usize = 0;
    while i < disks.len()
        invariant
            0 <= i <= disks@.len(),
            forall|k: int| 0 <= k < disks@.len() ==> 4 * (#[trigger] disks@[k]).mount_point@.len() <= usize::MAX,
            match best {
                Some((b, s)) => b < i && score_spec(hf_cache_path@, disks@[b as int].mount_point@) == Some(
                    s as nat,
                ) && (forall|j: int|
                    0 <= j < b ==> (#[trigger] score_spec(hf_cache_path@, disks@[j].mount_point@) matches Some(
                        t,
                    ) ==> t <= s)) && (forall|j: int|
                    b < j < i ==> (#[trigger] score_spec(hf_cache_path@, disks@[j].mount_point@) matches Some(
                        t,
                    ) ==> t < s)),
                None => forall|j: int|
                    0 <= j < i ==> #[trigger] score_spec(hf_cache_path@, disks@[j].mount_point@) is None,
            },
        decreases disks.len() - i,
    {
        match score_mount_match(hf_cache_path, disks[i].mount_point.as_str()) {
            Some(s) => {
                match best {
                    Some((_, bs)) => {
                        if s >= bs {
                            best = Some((i, s));
                        }
                    },
                    None => {
                        best = Some((i, s));
                    },
                }
            },
            None => {},
        }
        i += 1;
    }
    match best {
        Some((b, _)) => Some(b),
        None => None,
    }
}

/// The CPU record from what the system reports: the first CPU's name (if
/// not blank, else a placeholder), and the core counts; nothing when the
/// system reports neither cores nor a name.
pub fn collect_cpu(logical_cores: usize, first_brand: Option<String>, physical_cores: Option<usize>) -> (r:
    Option<CpuInfo>)
    ensures
        ({
            let name = match first_brand {
                Some(b) => if trim(b@).len() > 0 {
                    Some(trim(b@))
                } else {
                    None
                },
                None => None,
            };
            if logical_cores == 0 && name is None {
                r is None
            } else {
                r matches Some(c) && c.name@ == match name {
                    Some(n) => n,
                    None => "CPU unavailable"@,
                } && c.physical_cores == physical_cores && c.logical_cores == logical_cores
            }
        }),
{
    let name = match first_brand {
        Some(b) => {
            let t = trim_str(b.as_str());
            if t.as_str().is_empty() {
                None
            } else {
                Some(t)
            }
        },
        None => None,
    };
    if logical_cores == 0 && name.is_none() {
        return None;
    }
    Some(
        CpuInfo {
            name: match name {
                Some(n) => n,
                None => "CPU unavailable".to_owned(),
            },
            physical_cores,
            logical_cores,
        },
    )
}

/// A display adapter that is not a real GPU (Microsoft's basic and remote
/// display drivers).
pub open spec fn placeholder_spec(name: Seq<char>) -> bool {
    let l = ascii_lower(name);
    contains_seq(l, "microsoft basic display"@) || contains_seq(l, "microsoft remote display"@)
}

/// Whether a display adapter is not a real GPU.
pub fn is_placeholder_gpu(name: &str) -> (r: bool)
    ensures
        r == placeholder_spec(name@),
{
    let l = lower_chars(chars_of(name).as_slice());
    let a = chars_of("microsoft basic display");
    let b = chars_of("microsoft remote display");
    contains_chars(l.as_slice(), a.as_slice()) || contains_chars(l.as_slice(), b.as_slice())
}

/// The order adapters are listed in, highest first: other adapters before
/// Intel ones, then by memory.
pub open spec fn gpu_key(g: GpuInfo) -> (u8, u64) {
    (
        if contains_seq(ascii_lower(g.name@), "intel"@) {
            1u8
        } else {
            2u8
        },
        match g.memory_bytes {
            Some(m) => m,
            None => 0,
        },
    )
}

/// The order adapters are listed in.
pub fn gpu_sort_key(gpu: &GpuInfo) -> (r: (u8, u64))
    ensures
        r == gpu_key(*gpu),
{
    let l = lower_chars(chars_of(gpu.name.as_str()).as_slice());
    let intel = chars_of("intel");
    let priority: u8 = if contains_chars(l.as_slice(), intel.as_slice()) {
        1
    } else {
        2
    };
    (
        priority,
        match gpu.memory_bytes {
            Some(m) => m,
            None => 0,
        },
    )
}

/// `a` comes before `b` in the order of keys (the tuples' own order).
pub open spec fn key_lt(a: (u8, u64), b: (u8, u64)) -> bool {
    a.0 < b.0 || (a.0 == b.0 && a.1 < b.1)
}

/// The adapter record of a listed adapter: its trimmed name unless blank or
/// a placeholder, and its memory when known and not zero.
pub open spec fn gpu_spec(g: GpuInfo, v: JsonValue) -> bool {
    match json_get(v, "Name"@) {
        Some(n) => match json_str(n) {
            Some(s) => g.name@ == trim(s) && g.memory_bytes == match json_get(v, "AdapterRAM"@) {
                Some(m) => match value_u64_spec(m) {
                    Some(b) => if b > 0 {
                        Some(b)
                    } else {
                        None
                    },
                    None => None,
                },
                None => None,
            },
            None => false,
        },
        None => false,
    }
}

/// The listed adapter has a usable name.
pub open spec fn gpu_named(v: JsonValue) -> bool {
    json_get(v, "Name"@) matches Some(n) && json_str(n) matches Some(s) && trim(s).len() > 0
        && !placeholder_spec(trim(s))
}

/// The adapter record of one listed adapter.
pub fn gpu_from_json(value: &JsonValue) -> (r: Option<GpuInfo>)
    ensures
        match r {
            Some(g) => gpu_named(*value) && gpu_spec(g, *value),
            None => !gpu_named(*value),
        },
{
    let n = match json::get(value, "Name") {
        Some(n) => n,
        None => {
            return None;
        },
    };
    let s = match json::as_str(n) {
        Some(s) => s,
        None => {
            return None;
        },
    };
    let name = trim_str(s);
    if name.as_str().is_empty() || is_placeholder_gpu(name.as_str()) {
        return None;
    }
    let memory_bytes = match json::get(value, "AdapterRAM") {
        Some(m) => match value_u64(m) {
            Some(b) => if b > 0 {
                Some(b)
            } else {
                None
            },
            None => None,
        },
        None => None,
    };
    Some(GpuInfo { name, memory_bytes })
}

fn key_after(g: &GpuInfo, xk: (u8, u64)) -> (r: bool)
    ensures
        r == key_lt(xk, gpu_key(*g)),
{
    let k = gpu_sort_key(g);
    k.0 > xk.0 || (k.0 == xk.0 && k.1 > xk.1)
}

/// `g` put into `t` after the adapters whose keys come after its key.
pub open spec fn insert_gpu(t: Seq<GpuInfo>, g: GpuInfo) -> Seq<GpuInfo>
    decreases t.len(),
{
    if t.len() == 0 {
        seq![g]
    } else if key_lt(gpu_key(g), gpu_key(t[0])) {
        seq![t[0]] + insert_gpu(t.drop_first(), g)
    } else {
        seq![g] + t
    }
}

/// The adapters with the highest key first, adapters with equal keys in
/// their listed order.
pub open spec fn gpus_sorted(s: Seq<GpuInfo>) -> Seq<GpuInfo>
    decreases s.len(),
{
    if s.len() == 0 {
        Seq::empty()
    } else {
        insert_gpu(gpus_sorted(s.drop_first()), s[0])
    }
}

proof fn lemma_insert_gpu_at(t: Seq<GpuInfo>, g: GpuInfo, p: int)
    requires
        0 <= p <= t.len(),
        forall|i: int| 0 <= i < p ==> key_lt(gpu_key(g), gpu_key(#[trigger] t[i])),
        p == t.len() || !key_lt(gpu_key(g), gpu_key(t[p])),
    ensures
        insert_gpu(t, g) == t.insert(p, g),
    decreases p,
{
    if p == 0 {
        assert(seq![g] + t =~= t.insert(0, g));
    } else {
        assert(key_lt(gpu_key(g), gpu_key(t[0])));
        let u = t.drop_first();
        assert forall|i: int| 0 <= i < p - 1 implies key_lt(gpu_key(g), gpu_key(#[trigger] u[i])) by {
            assert(u[i] == t[i + 1]);
        }
        if p < t.len() {
            assert(u[p - 1] == t[p]);
        }
        lemma_insert_gpu_at(u, g, p - 1);
        assert(seq![t[0]] + u.insert(p - 1, g) =~= t.insert(p, g));
    }
}

/// Adapters with the highest key first, adapters with equal keys in their
/// listed order.
pub fn sort_gpus(gpus: Vec<GpuInfo>) -> (r: Vec<GpuInfo>)
    ensures
        r@ == gpus_sorted(gpus@),
        r@.to_multiset() == gpus@.to_multiset(),
        forall|i: int, j: int|
            0 <= i < j < r@.len() ==> !key_lt(gpu_key(#[trigger] r@[i]), gpu_key(#[trigger] r@[j])),
{
    broadcast use vstd::seq_lib::group_to_multiset_ensures;

    let ghost orig = gpus@;
    let mut rest = gpus;
    let mut out: Vec<GpuInfo> = Vec::new();
    while rest.len() > 0
        invariant
            out@.to_multiset().add(rest@.to_multiset()) == orig.to_multiset(),
            forall|i: int, j: int|
                0 <= i < j < out@.len() ==> !key_lt(gpu_key(#[trigger] out@[i]), gpu_key(#[trigger] out@[j])),
            rest@.len() <= orig.len(),
            rest@ == orig.take(rest@.len() as int),
            out@ == gpus_sorted(orig.skip(rest@.len() as int)),
        decreases rest.len(),
    {
        let ghost before_rest = rest@;
        let x = rest.pop().unwrap();
        let ghost k = rest@.len() as int;
        assert(before_rest == rest@.push(x));
        assert(orig[k] == x);
        assert(orig.skip(k).drop_first() =~= orig.skip(k + 1));
        assert(orig.skip(k)[0] == x);
        assert(rest@ =~= orig.take(k));
        proof {
            vstd::seq_lib::to_multiset_build(rest@, x);
        }
        assert(before_rest == rest@.push(x));
        let xk = gpu_sort_key(&x);
        let mut p: usize = 0;
        while p < out.len() && key_after(&out[p], xk)
            invariant
                0 <= p <= out@.len(),
                xk == gpu_key(x),
                forall|i: int| 0 <= i < p ==> key_lt(xk, gpu_key(#[trigger] out@[i])),
            decreases out.len() - p,
        {
            p += 1;
        }
        let ghost before = out@;
        proof {
            lemma_insert_gpu_at(before, x, p as int);
        }
        out.insert(p, x);
        proof {
            vstd::seq_lib::to_multiset_insert(before, p as int, x);
        }
        assert forall|i: int, j: int|
            0 <= i < j < out@.len() implies !key_lt(gpu_key(#[trigger] out@[i]), gpu_key(#[trigger] out@[j])) by {
            if i < p && j == p {
            } else if i < p && j > p {
                assert(!key_lt(gpu_key(before[p as int]), gpu_key(before[j - 1])) || j - 1 == p);
            } else if i == p {
                assert(!key_lt(gpu_key(before[p as int]), gpu_key(before[j - 1])) || j - 1 == p);
            }
        }
        assert(out@.to_multiset().add(rest@.to_multiset()) =~= before.to_multiset().add(before_rest.to_multiset()));
    }
    assert(orig.skip(0) =~= orig);
    out
}

/// `gpus` holds the records of the listed adapters that have a usable
/// name, in their listed order.
pub open spec fn gpus_of_items(items: Seq<JsonValue>, gpus: Seq<GpuInfo>) -> bool
    decreases items.len(),
{
    if items.len() == 0 {
        gpus.len() == 0
    } else if gpu_named(items.last()) {
        gpus.len() > 0 && gpu_spec(gpus.last(), items.last()) && gpus_of_items(
            items.drop_last(),
            gpus.drop_last(),
        )
    } else {
        gpus_of_items(items.drop_last(), gpus)
    }
}

/// `gpus` holds the records of the adapters a listing gives: those of an
/// array's items, or that of a single object.
pub open spec fn gpus_of_listing(value: JsonValue, gpus: Seq<GpuInfo>) -> bool {
    match value {
        JsonValue::Array(items) => gpus_of_items(items@, gpus),
        JsonValue::Object(_) => if gpu_named(value) {
            gpus.len() == 1 && gpu_spec(gpus[0], value)
        } else {
            gpus.len() == 0
        },
        _ => gpus.len() == 0,
    }
}

/// The adapters a listing gives: one object or an array of them, in the
/// order `sort_gpus` gives.
pub fn parse_gpu_json(value: JsonValue) -> (r: Vec<GpuInfo>)
    ensures
        exists|gpus: Seq<GpuInfo>|
            gpus_of_listing(value, gpus) && r@ == gpus_sorted(gpus) && r@.to_multiset() == gpus.to_multiset(),
        forall|i: int, j: int|
            0 <= i < j < r@.len() ==> !key_lt(gpu_key(#[trigger] r@[i]), gpu_key(#[trigger] r@[j])),
{
    let mut gpus: Vec<GpuInfo> = Vec::new();
    match &value {
        JsonValue::Array(items) => {
            let mut i: usize = 0;
            while i < items.len()
                invariant
                    0 <= i <= items@.len(),
                    gpus_of_items(items@.take(i as int), gpus@),
                decreases items.len() - i,
            {
                assert(items@.take(i + 1).drop_last() =~= items@.take(i as int));
                assert(items@.take(i + 1).last() == items@[i as int]);
                let ghost before = gpus@;
                match gpu_from_json(&items[i]) {
                    Some(g) => {
                        gpus.push(g);
                        assert(gpus@.drop_last() =~= before);
                    },
                    None => {},
                }
                i += 1;
            }
            assert(items@.take(items@.len() as int) =~= items@);
        },
        JsonValue::Object(_) => {
            match gpu_from_json(&value) {
                Some(g) => gpus.push(g),
                None => {},
            }
        },
        _ => {},
    }
    let ghost listed = gpus@;
    let sorted = sort_gpus(gpus);
    assert(gpus_of_listing(value, listed));
    sorted
}

/// The listing text as it is parsed: blanks trimmed, then any leading
/// byte order marks removed.
pub open spec fn gpu_listing_text(text: Seq<char>) -> Seq<char> {
    trim_start_class(trim(text), CharClass::Exactly('\u{feff}'))
}

/// The adapters a listing's text gives (see `parse_gpu_json`); none when
/// the text is not JSON.
pub fn gpus_from_json_text(text: &str) -> (r: Vec<GpuInfo>)
    ensures
        match json_text_value(gpu_listing_text(text@)) {
            Some(v) => exists|gpus: Seq<GpuInfo>|
                gpus_of_listing(v, gpus) && r@ == gpus_sorted(gpus) && r@.to_multiset()
                    == gpus.to_multiset(),
            None => r@.len() == 0,
        },
{
    let t = trim_str(text);
    let v = chars_of(t.as_str());
    let stripped = trim_start_chars(v.as_slice(), CharClass::Exactly('\u{feff}'));
    let listing = string_of(stripped.as_slice());
    match json::parse_json_text(listing.as_str()) {
        Some(value) => parse_gpu_json(value),
        None => Vec::new(),
    }
}

/// What every listed GPU satisfies: a name that is not blank and is not
/// Windows' basic or remote display adapter, and a memory size that is
/// never zero.
pub open spec fn listed_gpu_ok(g: GpuInfo) -> bool {
    &&& g.name@.len() > 0
    &&& !contains_seq(ascii_lower(g.name@), "microsoft basic display"@)
    &&& !contains_seq(ascii_lower(g.name@), "microsoft remote display"@)
    &&& g.memory_bytes != Some(0u64)
}

proof fn lemma_named_gpu_ok(g: GpuInfo, v: JsonValue)
    requires
        gpu_named(v),
        gpu_spec(g, v),
    ensures
        listed_gpu_ok(g),
{
}

proof fn lemma_gpus_of_items_ok(items: Seq<JsonValue>, gpus: Seq<GpuInfo>)
    requires
        gpus_of_items(items, gpus),
    ensures
        forall|i: int| 0 <= i < gpus.len() ==> listed_gpu_ok(#[trigger] gpus[i]),
    decreases items.len(),
{
    if items.len() > 0 {
        if gpu_named(items.last()) {
            lemma_gpus_of_items_ok(items.drop_last(), gpus.drop_last());
            lemma_named_gpu_ok(gpus.last(), items.last());
            assert forall|i: int| 0 <= i < gpus.len() implies listed_gpu_ok(#[trigger] gpus[i]) by {
                if i < gpus.len() - 1 {
                    assert(gpus[i] == gpus.drop_last()[i]);
                }
            }
        } else {
            lemma_gpus_of_items_ok(items.drop_last(), gpus);
        }
    }
}

/// A GPU listing never lists a GPU without a name, a placeholder display
/// adapter (`Microsoft Basic Display`, `Microsoft Remote Display`, in any
/// ASCII case), or a memory size of zero.
pub proof fn listed_gpus_are_real_adapters(value: JsonValue, gpus: Seq<GpuInfo>)
    requires
        gpus_of_listing(value, gpus),
    ensures
        forall|i: int| 0 <= i < gpus.len() ==> listed_gpu_ok(#[trigger] gpus[i]),
{
    match value {
        JsonValue::Array(items) => lemma_gpus_of_items_ok(items@, gpus),
        JsonValue::Object(_) => if gpu_named(value) {
            lemma_named_gpu_ok(gpus[0], value);
        },
        _ => {},
    }
}

} // verus!

