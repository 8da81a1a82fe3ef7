//! What the app may open or move to the Recycle Bin: the checks a model's
//! path must pass against the configured model folders.
use vstd::prelude::*;

use crate::models::{DeleteModelInput, ModelSource, opt_str, strs};
use crate::paths::{is_absolute, is_absolute_path};
use crate::text::{
    chars_eq, chars_of, concat2, concat3, replace_char, replace_chars, split_chars, split_spec,
    starts_with, starts_with_chars, string_of, trim, trim_str,
};

verus! {

/// The named parts of a Windows path: split at `\` and `/`, without empty
/// parts and `.`.
pub open spec fn components(path: Seq<char>) -> Seq<Seq<char>> {
    named_parts(split_spec(replace_char(path, '/', '\\'), '\\'))
}

/// The parts that are not empty and not `.`, in order.
pub open spec fn named_parts(ps: Seq<Seq<char>>) -> Seq<Seq<char>>
    decreases ps.len(),
{
    if ps.len() == 0 {
        Seq::empty()
    } else {
        named_parts(ps.drop_last()) + if ps.last().len() > 0 && ps.last() != "."@ {
            seq![ps.last()]
        } else {
            Seq::empty()
        }
    }
}

/// The named parts of a path.
pub fn path_components(path: &str) -> (r: Vec<String>)
    ensures
        strs(r@) == components(path@),
{
    let v = replace_chars(chars_of(path).as_slice(), '/', '\\');
    let parts = split_chars(v.as_slice(), '\\');
    let ghost ps = parts@.map_values(|p: Vec<char>| p@);
    let dot = chars_of(".");
    let mut out: Vec<String> = Vec::new();
    let mut i: usize = 0;
    while i < parts.len()
        invariant
            0 <= i <= parts@.len(),
            ps == parts@.map_values(|p: Vec<char>| p@),
            dot@ == "."@,
            strs(out@) == named_parts(ps.take(i as int)),
        decreases parts.len() - i,
    {
        assert(ps.take(i + 1).drop_last() =~= ps.take(i as int));
        assert(ps[i as int] == parts@[i as int]@);
        let ghost before = strs(out@);
        if parts[i].len() > 0 && !chars_eq(parts[i].as_slice(), dot.as_slice()) {
            out.push(string_of(parts[i].as_slice()));
            assert(strs(out@) =~= before + seq![ps[i as int]]);
        } else {
            assert(strs(out@) =~= before + Seq::<Seq<char>>::empty());
        }
        i += 1;
    }
    assert(ps.take(ps.len() as int) =~= ps);
    out
}

/// `path` lies strictly below `root`: the root's parts begin the path's
/// parts, and the path has more of them (`Path::starts_with`, and not the
/// same path).
pub open spec fn is_descendant_spec(path: Seq<char>, root: Seq<char>) -> bool {
    let p = components(path);
    let r = components(root);
    r.len() < p.len() && p.subrange(0, r.len() as int) == r
}

/// The two paths name the same place, part for part.
pub open spec fn same_path(a: Seq<char>, b: Seq<char>) -> bool {
    components(a) == components(b)
}

fn strings_eq(a: &Vec<String>, b: &Vec<String>) -> (r: bool)
    ensures
        r == (strs(a@) == strs(b@)),
{
    if a.len() != b.len() {
        return false;
    }
    let mut i: usize = 0;
    while i < a.len()
        invariant
            0 <= i <= a@.len(),
            a@.len() == b@.len(),
            forall|j: int| 0 <= j < i ==> a@[j]@ == b@[j]@,
        decreases a.len() - i,
    {
        if a[i] != b[i] {
            assert(strs(a@)[i as int] != strs(b@)[i as int]);
            return false;
        }
        i += 1;
    }
    assert(strs(a@) =~= strs(b@));
    true
}

fn prefix_of(p: &Vec<String>, r: &Vec<String>) -> (b: bool)
    ensures
        b == (strs(r@).len() <= strs(p@).len() && strs(p@).subrange(0, strs(r@).len() as int) == strs(r@)),
{
    if r.len() > p.len() {
        return false;
    }
    let mut i: usize = 0;
    while i < r.len()
        invariant
            0 <= i <= r@.len(),
            r@.len() <= p@.len(),
            forall|j: int| 0 <= j < i ==> p@[j]@ == r@[j]@,
        decreases r.len() - i,
    {
        if p[i] != r[i] {
            assert(strs(p@).subrange(0, strs(r@).len() as int)[i as int] != strs(r@)[i as int]);
            return false;
        }
        i += 1;
    }
    assert(strs(p@).subrange(0, strs(r@).len() as int) =~= strs(r@));
    true
}

/// Whether `path` lies strictly below `root`.
pub fn is_descendant(path: &str, root: &str) -> (r: bool)
    ensures
        r == is_descendant_spec(path@, root@),
{
    let p = path_components(path);
    let q = path_components(root);
    q.len() < p.len() && prefix_of(&p, &q)
}

/// Whether the two paths name the same place.
pub fn paths_equal(a: &str, b: &str) -> (r: bool)
    ensures
        r == same_path(a@, b@),
{
    let x = path_components(a);
    let y = path_components(b);
    strings_eq(&x, &y)
}

/// The path goes up a folder somewhere (`..`).
pub open spec fn has_parent_spec(path: Seq<char>) -> bool {
    components(path).contains(".."@)
}

/// Whether the path goes up a folder somewhere.
pub fn has_parent_component(path: &str) -> (r: bool)
    ensures
        r == has_parent_spec(path@),
{
    let parts = path_components(path);
    let up = "..".to_owned();
    crate::scanner::metadata::contains_str(&parts, &up)
}

/// A path the user gave, trimmed, if it is absolute and never goes up a
/// folder; whether it exists is for the caller to find out.
pub fn checked_absolute_path(path: &str) -> (r: Result<String, String>)
    ensures
        ({
            let t = trim(path@);
            match r {
                Ok(p) => p@ == t && is_absolute_path(t) && !has_parent_spec(t),
                Err(e) => (!is_absolute_path(t) || has_parent_spec(t)) && e@
                    == "ModelHub rejected an unsafe path."@,
            }
        }),
{
    let t = trim_str(path);
    if !is_absolute(t.as_str()) || has_parent_component(t.as_str()) {
        return Err("ModelHub rejected an unsafe path.".to_owned());
    }
    Ok(t)
}

/// Why a model cannot be deleted before its path is looked at: Ollama
/// models have no folder to delete, and a model needs a path.
pub fn delete_precheck(input: &DeleteModelInput) -> (r: Result<String, String>)
    ensures
        if input.source == ModelSource::Ollama {
            r matches Err(e) && e@ == "Ollama models do not expose a local model folder for safe deletion."@
        } else {
            match input.path {
                Some(p) => r == Ok::<String, String>(p),
                None => r matches Err(e) && e@ == "This model does not have a local path to delete."@,
            }
        },
{
    if input.source == ModelSource::Ollama {
        return Err(
            "Ollama models do not expose a local model folder for safe deletion.".to_owned(),
        );
    }
    match &input.path {
        Some(p) => Ok(p.clone()),
        None => Err("This model does not have a local path to delete.".to_owned()),
    }
}

/// The Hugging Face rule: only a snapshot folder
/// (`models--*/snapshots/<name>` under the cache root) may be deleted.
pub open spec fn hf_snapshot_check(target: Seq<char>, root: Seq<char>, target_is_dir: bool) -> Result<
    (),
    Seq<char>,
> {
    if same_path(target, root) {
        Err("ModelHub will not delete the entire Hugging Face cache root."@)
    } else if !is_descendant_spec(target, root) {
        Err("Model path is outside the configured Hugging Face cache."@)
    } else {
        let parts = components(target).subrange(
            components(root).len() as int,
            components(target).len() as int,
        );
        if parts.len() == 3 && starts_with(parts[0], "models--"@) && parts[1] == "snapshots"@
            && trim(parts[2]).len() > 0 && target_is_dir {
            Ok(())
        } else {
            Err(
                "For Hugging Face models, ModelHub only deletes snapshot folders, not shared blobs or cache roots."@,
            )
        }
    }
}

/// Shared blobs are never deleted: the `blobs` folder of a repository in
/// the cache, and everything in it, is refused.
pub proof fn hf_blobs_are_never_deleted(target: Seq<char>, root: Seq<char>, target_is_dir: bool)
    requires
        components(target).len() >= components(root).len() + 2,
        components(target)[components(root).len() + 1int] == "blobs"@,
    ensures
        hf_snapshot_check(target, root, target_is_dir) is Err,
{
    let parts = components(target).subrange(components(root).len() as int, components(target).len() as int);
    assert(parts[1] == components(target)[components(root).len() + 1int]);
    assert("blobs"@ != "snapshots"@) by {
        reveal_strlit("blobs");
        reveal_strlit("snapshots");
        assert("blobs"@.len() != "snapshots"@.len());
    }
}

/// Checks a Hugging Face model's (resolved) path against the (resolved)
/// cache root.
pub fn validate_hf_snapshot_target(target: &str, root: &str, target_is_dir: bool) -> (r: Result<
    (),
    String,
>)
    ensures
        match r {
            Ok(()) => hf_snapshot_check(target@, root@, target_is_dir) == Ok::<(), Seq<char>>(()),
            Err(e) => hf_snapshot_check(target@, root@, target_is_dir) == Err::<(), Seq<char>>(e@),
        },
{
    if paths_equal(target, root) {
        return Err("ModelHub will not delete the entire Hugging Face cache root.".to_owned());
    }
    if !is_descendant(target, root) {
        return Err("Model path is outside the configured Hugging Face cache.".to_owned());
    }
    let p = path_components(target);
    let q = path_components(root);
    let ghost parts = strs(p@).subrange(strs(q@).len() as int, strs(p@).len() as int);
    if p.len() - q.len() == 3 {
        let first = chars_of(p[q.len()].as_str());
        let prefix = chars_of("models--");
        let second = chars_of(p[q.len() + 1].as_str());
        let snaps = chars_of("snapshots");
        let third = trim_str(p[q.len() + 2].as_str());
        assert(parts[0] == p@[q@.len() as int]@);
        assert(parts[1] == p@[q@.len() as int + 1]@);
        assert(parts[2] == p@[q@.len() as int + 2]@);
        if starts_with_chars(first.as_slice(), prefix.as_slice()) && chars_eq(
            second.as_slice(),
            snaps.as_slice(),
        ) && !third.as_str().is_empty() && target_is_dir {
            return Ok(());
        }
    }
    Err(
        "For Hugging Face models, ModelHub only deletes snapshot folders, not shared blobs or cache roots.".to_owned(),
    )
}

/// The rule for a folder source: the model's path must lie strictly below
/// the (resolved) root.
pub fn validate_under_root(target: &str, root: &str, label: &str) -> (r: Result<(), String>)
    ensures
        if same_path(target@, root@) {
            r matches Err(e) && e@ == "ModelHub will not delete the "@ + label@ + " root folder."@
        } else if !is_descendant_spec(target@, root@) {
            r matches Err(e) && e@ == "Model path is outside the configured "@ + label@ + " root."@
        } else {
            r == Ok::<(), String>(())
        },
{
    if paths_equal(target, root) {
        return Err(concat3("ModelHub will not delete the ", label, " root folder."));
    }
    if !is_descendant(target, root) {
        return Err(concat3("Model path is outside the configured ", label, " root."));
    }
    Ok(())
}

/// The first usable custom root that is the target or lies above it.
pub open spec fn custom_root_check(target: Seq<char>, roots: Seq<Option<String>>) -> Result<(), Seq<char>>
    decreases roots.len(),
{
    if roots.len() == 0 {
        Err("Model path is outside configured custom model folders."@)
    } else {
        match roots[0] {
            Some(root) => if same_path(target, root@) {
                Err("ModelHub will not delete a configured custom root folder."@)
            } else if is_descendant_spec(target, root@) {
                Ok(())
            } else {
                custom_root_check(target, roots.drop_first())
            },
            None => custom_root_check(target, roots.drop_first()),
        }
    }
}

/// The rule for custom folders: the model's path must lie strictly below
/// one of the (resolved) custom roots, checked in order; roots that could
/// not be resolved are passed over.
pub fn validate_under_any_custom_root(target: &str, roots: &Vec<Option<String>>) -> (r: Result<
    (),
    String,
>)
    ensures
        match r {
            Ok(()) => custom_root_check(target@, roots@) == Ok::<(), Seq<char>>(()),
            Err(e) => custom_root_check(target@, roots@) == Err::<(), Seq<char>>(e@),
        },
{
    let mut i: usize = 0;
    assert(roots@.skip(0) =~= roots@);
    while i < roots.len()
        invariant
            0 <= i <= roots@.len(),
            custom_root_check(target@, roots@) == custom_root_check(target@, roots@.skip(i as int)),
        decreases roots.len() - i,
    {
        assert(roots@.skip(i as int)[0] == roots@[i as int]);
        assert(roots@.skip(i as int).drop_first() =~= roots@.skip(i + 1));
        match &roots[i] {
            Some(root) => {
                if paths_equal(target, root.as_str()) {
                    return Err("ModelHub will not delete a configured custom root folder.".to_owned());
                }
                if is_descendant(target, root.as_str()) {
                    return Ok(());
                }
            },
            None => {},
        }
        i += 1;
    }
    Err("Model path is outside configured custom model folders.".to_owned())
}

} // verus!
