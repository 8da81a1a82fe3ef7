//! Helpers shared by every scanner: file formats and quantization names.
use vstd::prelude::*;

use crate::models::ModelFormat;
use crate::paths::{
    PrefixKind, is_path_sep, is_path_sep_exec, is_sep, is_sep_exec, is_verbatim_kind, path_prefix,
    path_prefix_exec,
};
use crate::text::{
    CharClass, ascii_lower, ascii_upper, chars_eq, chars_of, contains_chars, contains_seq,
    last_in_class, lower_chars, rfind_class, slice_chars, string_of, upper_chars,
};

verus! {

/// The separators of a path body: the backslash alone after a verbatim
/// prefix, else both slashes.
pub open spec fn sep_class(verbatim: bool) -> CharClass {
    if verbatim {
        CharClass::Exactly('\\')
    } else {
        CharClass::Separator
    }
}

/// What follows the Windows prefix of a path, and whether that prefix is
/// verbatim.
pub open spec fn path_body(s: Seq<char>) -> (Seq<char>, bool) {
    match path_prefix(s) {
        Some((kind, n)) => (s.subrange(n, s.len() as int), is_verbatim_kind(kind)),
        None => (s, false),
    }
}

/// A path body without what `Path::components` skips at its end: trailing
/// separators and, outside verbatim paths, `.` components.
pub open spec fn trim_tail(s: Seq<char>, verbatim: bool) -> Seq<char>
    decreases s.len(),
{
    if s.len() > 0 && (is_path_sep(s.last(), verbatim) || (!verbatim && s.last() == '.' && (s.len()
        == 1 || is_sep(s[s.len() - 2])))) {
        trim_tail(s.drop_last(), verbatim)
    } else {
        s
    }
}

/// The last component of a Windows path (`Path::file_name`): after the
/// prefix, and past trailing separators and `.` components; `..`, a root or
/// a prefix has none.
pub open spec fn file_name_of(s: Seq<char>) -> Option<Seq<char>> {
    let (body, verbatim) = path_body(s);
    let t = trim_tail(body, verbatim);
    let cls = sep_class(verbatim);
    let name = if exists|i: int| last_in_class(t, cls, i) {
        t.subrange((choose|i: int| last_in_class(t, cls, i)) + 1, t.len() as int)
    } else {
        t
    };
    if name.len() == 0 || name == "."@ || name == ".."@ {
        None
    } else {
        Some(name)
    }
}

/// The extension of a file name (`Path::extension`): the text after its
/// last dot, unless the only dot starts the name.
pub open spec fn extension_of_name(name: Seq<char>) -> Option<Seq<char>> {
    if exists|i: int| last_in_class(name, CharClass::Exactly('.'), i) {
        let i = choose|i: int| last_in_class(name, CharClass::Exactly('.'), i);
        if i == 0 {
            None
        } else {
            Some(name.subrange(i + 1, name.len() as int))
        }
    } else {
        None
    }
}

pub open spec fn extension_of(path: Seq<char>) -> Option<Seq<char>> {
    match file_name_of(path) {
        Some(name) => extension_of_name(name),
        None => None,
    }
}

/// The format named by a lowercased extension.
pub open spec fn format_of_extension(ext: Seq<char>) -> ModelFormat {
    if ext == "gguf"@ {
        ModelFormat::Gguf
    } else if ext == "safetensors"@ {
        ModelFormat::Safetensors
    } else if ext == "onnx"@ {
        ModelFormat::Onnx
    } else if ext == "mlx"@ {
        ModelFormat::Mlx
    } else {
        ModelFormat::Unknown
    }
}

pub open spec fn detect_format_spec(path: Seq<char>) -> ModelFormat {
    match extension_of(path) {
        Some(ext) => format_of_extension(ascii_lower(ext)),
        None => ModelFormat::Unknown,
    }
}

proof fn last_class_unique(s: Seq<char>, cls: CharClass, i: int, j: int)
    requires
        last_in_class(s, cls, i),
        last_in_class(s, cls, j),
    ensures
        i == j,
{
    if i < j {
        assert(!in_class_at(s, cls, j));
    } else if j < i {
        assert(!in_class_at(s, cls, i));
    }
}

spec fn in_class_at(s: Seq<char>, cls: CharClass, i: int) -> bool {
    crate::text::in_class(cls, s[i])
}

/// The file name of a path, if it has one.
pub fn file_name(path: &str) -> (r: Option<Vec<char>>)
    ensures
        match r {
            Some(v) => file_name_of(path@) == Some(v@),
            None => file_name_of(path@) is None,
        },
{
    let v = chars_of(path);
    let (body, verbatim) = match path_prefix_exec(v.as_slice()) {
        Some((kind, n)) => (
            slice_chars(v.as_slice(), n, v.len()),
            matches!(kind, PrefixKind::VerbatimDisk) || matches!(kind, PrefixKind::VerbatimUnc)
                || matches!(kind, PrefixKind::Verbatim),
        ),
        None => (v, false),
    };
    assert((body@, verbatim) == path_body(path@));
    let mut e: usize = body.len();
    assert(body@.subrange(0, e as int) =~= body@);
    while e > 0 && (is_path_sep_exec(body[e - 1], verbatim) || (!verbatim && body[e - 1] == '.' && (e
        == 1 || is_sep_exec(body[e - 2]))))
        invariant
            e <= body@.len(),
            trim_tail(body@, verbatim) == trim_tail(body@.subrange(0, e as int), verbatim),
        decreases e,
    {
        assert(body@.subrange(0, e as int).drop_last() =~= body@.subrange(0, e - 1));
        e -= 1;
    }
    let t = slice_chars(body.as_slice(), 0, e);
    assert(t@ == trim_tail(body@, verbatim));
    let cls = if verbatim {
        CharClass::Exactly('\\')
    } else {
        CharClass::Separator
    };
    assert(cls == sep_class(verbatim));
    let name = match rfind_class(t.as_slice(), cls) {
        Some(i) => {
            assert(last_in_class(t@, cls, i as int));
            proof {
                let k = choose|k: int| last_in_class(t@, cls, k);
                last_class_unique(t@, cls, i as int, k);
            }
            assert(i < t.len());
            slice_chars(t.as_slice(), i + 1, t.len())
        },
        None => {
            assert(!exists|k: int| last_in_class(t@, cls, k));
            t
        },
    };
    let dot = ['.'];
    let dotdot = ['.', '.'];
    assert(dot@ == "."@) by {
        reveal_strlit(".");
    }
    assert(dotdot@ == ".."@) by {
        reveal_strlit("..");
    }
    if name.len() == 0 || chars_eq(name.as_slice(), &dot) || chars_eq(name.as_slice(), &dotdot) {
        None
    } else {
        Some(name)
    }
}

/// The extension of a file name, if it has one.
pub fn extension_of_file_name(name: &[char]) -> (r: Option<Vec<char>>)
    ensures
        match r {
            Some(v) => extension_of_name(name@) == Some(v@),
            None => extension_of_name(name@) is None,
        },
{
    match rfind_class(name, CharClass::Exactly('.')) {
        Some(i) => {
            assert(last_in_class(name@, CharClass::Exactly('.'), i as int));
            proof {
                let k = choose|k: int| last_in_class(name@, CharClass::Exactly('.'), k);
                last_class_unique(name@, CharClass::Exactly('.'), i as int, k);
            }
            if i == 0 {
                None
            } else {
                assert(i < name.len());
                Some(slice_chars(name, i + 1, name.len()))
            }
        },
        None => {
            assert(!exists|k: int| last_in_class(name@, CharClass::Exactly('.'), k));
            None
        },
    }
}

fn format_of_extension_exec(ext: &[char]) -> (r: ModelFormat)
    ensures
        r == format_of_extension(ext@),
{
    let gguf = ['g', 'g', 'u', 'f'];
    let safetensors = ['s', 'a', 'f', 'e', 't', 'e', 'n', 's', 'o', 'r', 's'];
    let onnx = ['o', 'n', 'n', 'x'];
    let mlx = ['m', 'l', 'x'];
    proof {
        reveal_strlit("gguf");
        reveal_strlit("safetensors");
        reveal_strlit("onnx");
        reveal_strlit("mlx");
        assert(gguf@ == "gguf"@);
        assert(safetensors@ == "safetensors"@);
        assert(onnx@ == "onnx"@);
        assert(mlx@ == "mlx"@);
    }
    if chars_eq(ext, &gguf) {
        ModelFormat::Gguf
    } else if chars_eq(ext, &safetensors) {
        ModelFormat::Safetensors
    } else if chars_eq(ext, &onnx) {
        ModelFormat::Onnx
    } else if chars_eq(ext, &mlx) {
        ModelFormat::Mlx
    } else {
        ModelFormat::Unknown
    }
}

/// The model format named by a path's extension, compared without case.
pub fn detect_format(path: &str) -> (r: ModelFormat)
    ensures
        r == detect_format_spec(path@),
{
    match file_name(path) {
        None => ModelFormat::Unknown,
        Some(name) => match extension_of_file_name(name.as_slice()) {
            None => ModelFormat::Unknown,
            Some(ext) => {
                let lower = lower_chars(ext.as_slice());
                format_of_extension_exec(lower.as_slice())
            },
        },
    }
}

/// The quantization labels recognized in file names, longest and most
/// specific first.
pub open spec fn quantization_labels() -> Seq<Seq<char>> {
    seq![
        "IQ2_XXS"@, "IQ3_XXS"@, "IQ2_XS"@, "IQ3_XS"@, "IQ4_XS"@, "Q4_K_M"@, "Q4_K_S"@,
        "Q5_K_M"@, "Q5_K_S"@, "Q3_K_L"@, "Q3_K_M"@, "Q3_K_S"@, "IQ1_S"@, "IQ1_M"@, "IQ2_S"@,
        "IQ2_M"@, "IQ3_S"@, "IQ3_M"@, "IQ4_NL"@, "Q2_K"@, "Q6_K"@, "Q8_0"@, "Q5_1"@, "Q5_0"@,
        "Q4_1"@, "Q4_0"@, "FP16"@, "FP32"@, "BF16"@, "F16"@, "F32"@,
    ]
}

fn quantization_label_list() -> (r: Vec<&'static str>)
    ensures
        r@.map_values(|s: &str| s@) == quantization_labels(),
{
    let r = vec![
        "IQ2_XXS", "IQ3_XXS", "IQ2_XS", "IQ3_XS", "IQ4_XS", "Q4_K_M", "Q4_K_S", "Q5_K_M", "Q5_K_S",
        "Q3_K_L", "Q3_K_M", "Q3_K_S", "IQ1_S", "IQ1_M", "IQ2_S", "IQ2_M", "IQ3_S", "IQ3_M",
        "IQ4_NL", "Q2_K", "Q6_K", "Q8_0", "Q5_1", "Q5_0", "Q4_1", "Q4_0", "FP16", "FP32", "BF16",
        "F16", "F32",
    ];
    assert(r@.map_values(|s: &str| s@) =~= quantization_labels());
    r
}

/// The first label, from position `i` on, that occurs in `upper`.
pub open spec fn first_label_from(upper: Seq<char>, labels: Seq<Seq<char>>, i: nat) -> Option<
    Seq<char>,
>
    decreases labels.len() - i,
{
    if i >= labels.len() {
        None
    } else if contains_seq(upper, labels[i as int]) {
        Some(labels[i as int])
    } else {
        first_label_from(upper, labels, i + 1)
    }
}

/// The quantization label in a file name: the first label of
/// `quantization_labels` found in the uppercased name.
pub open spec fn quantization_of_name(name: Seq<char>) -> Option<Seq<char>> {
    first_label_from(ascii_upper(name), quantization_labels(), 0)
}

/// The quantization a model file name carries, such as `Q4_K_M`.
pub fn parse_quantization_from_name(name: &str) -> (r: Option<String>)
    ensures
        match r {
            Some(q) => quantization_of_name(name@) == Some(q@),
            None => quantization_of_name(name@) is None,
        },
{
    let labels = quantization_label_list();
    let ghost ls = quantization_labels();
    let v = chars_of(name);
    let upper = upper_chars(v.as_slice());
    let mut i: usize = 0;
    while i < labels.len()
        invariant
            0 <= i <= labels@.len(),
            labels@.map_values(|s: &str| s@) == ls,
            ls == quantization_labels(),
            ls.len() == labels@.len(),
            upper@ == ascii_upper(name@),
            first_label_from(upper@, ls, 0) == first_label_from(upper@, ls, i as nat),
        decreases labels.len() - i,
    {
        let label = chars_of(labels[i]);
        assert(ls[i as int] == label@);
        if contains_chars(upper.as_slice(), label.as_slice()) {
            assert(first_label_from(upper@, ls, i as nat) == Some(ls[i as int]));
            return Some(string_of(label.as_slice()));
        }
        i += 1;
    }
    None
}

/// A lowercased file extension names a format: `gguf`, `safetensors`,
/// `onnx` and `mlx` their formats, any other extension an unknown one.
pub proof fn extension_names_the_format(ext: Seq<char>)
    ensures
        ext == "gguf"@ ==> format_of_extension(ext) == ModelFormat::Gguf,
        ext == "safetensors"@ ==> format_of_extension(ext) == ModelFormat::Safetensors,
        ext == "onnx"@ ==> format_of_extension(ext) == ModelFormat::Onnx,
        ext == "mlx"@ ==> format_of_extension(ext) == ModelFormat::Mlx,
        (ext != "gguf"@ && ext != "safetensors"@ && ext != "onnx"@ && ext != "mlx"@)
            ==> format_of_extension(ext) == ModelFormat::Unknown,
{
    reveal_strlit("gguf");
    reveal_strlit("safetensors");
    reveal_strlit("onnx");
    reveal_strlit("mlx");
    assert("gguf"@[0] != "onnx"@[0]);
    assert("gguf"@.len() == 4 && "onnx"@.len() == 4 && "mlx"@.len() == 3 && "safetensors"@.len() == 11);
}

proof fn lemma_first_label(upper: Seq<char>, labels: Seq<Seq<char>>, i: nat)
    requires
        i <= labels.len(),
    ensures
        first_label_from(upper, labels, i) matches Some(q) ==> exists|j: int|
            i <= j < labels.len() && labels[j] == q && contains_seq(upper, q) && forall|k: int|
                i <= k < j ==> !contains_seq(upper, #[trigger] labels[k]),
        first_label_from(upper, labels, i) is None ==> forall|k: int|
            i <= k < labels.len() ==> !contains_seq(upper, #[trigger] labels[k]),
    decreases labels.len() - i,
{
    if i < labels.len() && !contains_seq(upper, labels[i as int]) {
        lemma_first_label(upper, labels, i + 1);
        if let Some(q) = first_label_from(upper, labels, i + 1) {
            let j = choose|j: int|
                i + 1 <= j < labels.len() && labels[j] == q && contains_seq(upper, q) && forall|k: int|
                    i + 1 <= k < j ==> !contains_seq(upper, #[trigger] labels[k]);
            assert(i <= j < labels.len() && labels[j] == q && contains_seq(upper, q) && forall|k: int|
                i <= k < j ==> !contains_seq(upper, #[trigger] labels[k]));
        }
    }
}

/// The quantization read from a file name is a known label that occurs in
/// the uppercased name, and no label listed before it occurs there; a name
/// in which no known label occurs has none.
pub proof fn quantization_is_the_first_known_label_in_the_name(name: Seq<char>)
    ensures
        quantization_of_name(name) matches Some(q) ==> exists|j: int|
            0 <= j < quantization_labels().len() && quantization_labels()[j] == q && contains_seq(
                ascii_upper(name),
                q,
            ) && forall|k: int|
                0 <= k < j ==> !contains_seq(ascii_upper(name), #[trigger] quantization_labels()[k]),
        quantization_of_name(name) is None ==> forall|k: int|
            0 <= k < quantization_labels().len() ==> !contains_seq(
                ascii_upper(name),
                #[trigger] quantization_labels()[k],
            ),
{
    lemma_first_label(ascii_upper(name), quantization_labels(), 0);
}

} // verus!


