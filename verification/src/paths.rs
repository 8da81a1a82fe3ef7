//! Where ModelHub looks for models: the Hugging Face cache, the LM Studio
//! models folder and the user's own folders, with Windows path rules.
use vstd::prelude::*;

use crate::models::{
    AppSettings, PathIssue, PathIssueSeverity, PathResolutionSource, ResolvedPath, ResolvedPaths,
    opt_str, path_key, strs,
};
use crate::text::{
    CharClass, chars_of, concat2, decimal, decimal_string, push_char, replace_chars, string_of,
    to_lowercase_str, trim_end_chars, starts_with, starts_with_chars,
};

verus! {

/// What the environment tells ModelHub about the user's folders.
#[derive(Debug, Clone)]
pub struct PathInputs {
    pub user_profile: Option<String>,
    pub hf_home: Option<String>,
    pub hf_hub_cache: Option<String>,
}

impl Default for PathInputs {
    fn default() -> (r: Self)
        ensures
            r.user_profile is None,
            r.hf_home is None,
            r.hf_hub_cache is None,
    {
        PathInputs { user_profile: None, hf_home: None, hf_hub_cache: None }
    }
}

pub open spec fn is_sep(c: char) -> bool {
    c == '\\' || c == '/'
}

pub open spec fn is_ascii_alpha(c: char) -> bool {
    ('a' <= c && c <= 'z') || ('A' <= c && c <= 'Z')
}

/// A Windows disk prefix such as `C:`.
pub open spec fn has_drive_prefix(s: Seq<char>) -> bool {
    s.len() >= 2 && is_ascii_alpha(s[0]) && s[1] == ':'
}

/// The kinds of Windows path prefix.
#[derive(Debug, Clone, Copy, PartialEq, Eq, Structural)]
pub enum PrefixKind {
    /// `C:`
    Disk,
    /// `\\?\C:`
    VerbatimDisk,
    /// `\\?\UNC\server\share`
    VerbatimUnc,
    /// `\\?\name`
    Verbatim,
    /// `\\server\share`
    Unc,
    /// `\\.\device`
    Device,
}

/// Verbatim paths take only the backslash as a separator.
pub open spec fn is_verbatim_kind(kind: PrefixKind) -> bool {
    kind is VerbatimDisk || kind is VerbatimUnc || kind is Verbatim
}

/// A separator inside a path with or without a verbatim prefix.
pub open spec fn is_path_sep(c: char, verbatim: bool) -> bool {
    c == '\\' || (!verbatim && c == '/')
}

/// Where the component that starts at `i` ends: at the next separator, or at
/// the end of the path.
pub open spec fn component_end(s: Seq<char>, i: int, verbatim: bool) -> int
    decreases s.len() - i,
{
    if i >= s.len() {
        s.len() as int
    } else if is_path_sep(s[i], verbatim) {
        i
    } else {
        component_end(s, i + 1, verbatim)
    }
}

/// The server and share of a UNC prefix whose server starts at `start`:
/// where the prefix ends, when the server is followed by a share.
pub open spec fn unc_end(s: Seq<char>, start: int, verbatim: bool) -> Option<int> {
    let server_end = component_end(s, start, verbatim);
    if server_end < s.len() {
        let share_end = component_end(s, server_end + 1, verbatim);
        if share_end > server_end + 1 {
            Some(share_end)
        } else {
            None
        }
    } else {
        None
    }
}

/// Whether a path starts with `\\?\`, written with backslashes only.
pub open spec fn has_verbatim_start(s: Seq<char>) -> bool {
    s.len() >= 4 && s[0] == '\\' && s[1] == '\\' && s[2] == '?' && s[3] == '\\'
}

/// The Windows prefix a path starts with, and its length.
pub open spec fn path_prefix(s: Seq<char>) -> Option<(PrefixKind, int)> {
    if s.len() >= 2 && is_sep(s[0]) && is_sep(s[1]) {
        if has_verbatim_start(s) {
            if s.len() >= 8 && s[4] == 'U' && s[5] == 'N' && s[6] == 'C' && is_sep(s[7]) {
                let server_end = component_end(s, 8, true);
                match unc_end(s, 8, true) {
                    Some(end) => Some((PrefixKind::VerbatimUnc, end)),
                    None => Some((PrefixKind::VerbatimUnc, server_end)),
                }
            } else if s.len() >= 6 && is_ascii_alpha(s[4]) && s[5] == ':' && (s.len() == 6 || s[6]
                == '\\') {
                Some((PrefixKind::VerbatimDisk, 6))
            } else {
                Some((PrefixKind::Verbatim, component_end(s, 4, true)))
            }
        } else if s.len() >= 4 && s[2] == '.' && is_sep(s[3]) {
            Some((PrefixKind::Device, component_end(s, 4, false)))
        } else if component_end(s, 2, false) > 2 {
            match unc_end(s, 2, false) {
                Some(end) => Some((PrefixKind::Unc, end)),
                None => None,
            }
        } else {
            None
        }
    } else if has_drive_prefix(s) {
        Some((PrefixKind::Disk, 2))
    } else {
        None
    }
}

/// A Windows absolute path (`Path::is_absolute`): a prefix and a root. Every
/// prefix but a bare disk brings its own root; a disk needs a separator
/// after it.
pub open spec fn is_absolute_path(s: Seq<char>) -> bool {
    match path_prefix(s) {
        None => false,
        Some((kind, n)) => !(kind is Disk) || (n < s.len() && is_sep(s[n])),
    }
}

/// After the root of a whole drive, the position `j` belongs to an empty
/// component or, outside verbatim paths, to a `.` component; both are
/// skipped when the path is read component by component.
pub open spec fn skipped_at(s: Seq<char>, j: int, start: int, verbatim: bool) -> bool {
    ||| is_path_sep(s[j], verbatim)
    ||| {
        &&& !verbatim
        &&& s[j] == '.'
        &&& (j == start || is_sep(s[j - 1]))
        &&& (j + 1 == s.len() || is_sep(s[j + 1]))
    }
}

/// A whole drive: a prefix and its root, with no component after them.
/// The root is a separator after the prefix; UNC and device prefixes that
/// end the path bring their own.
pub open spec fn is_drive_root_path(s: Seq<char>) -> bool {
    match path_prefix(s) {
        None => false,
        Some((kind, n)) => if n < s.len() && is_sep(s[n]) {
            forall|j: int| n + 1 <= j < s.len() ==> #[trigger] skipped_at(s, j, n + 1, is_verbatim_kind(kind))
        } else {
            (kind is Unc || kind is Device) && n >= s.len()
        },
    }
}

/// `PathBuf::join` of a relative segment on Windows: a backslash is inserted
/// unless the base is empty, already ends in a separator, or is a bare drive.
pub open spec fn join_spec(base: Seq<char>, seg: Seq<char>) -> Seq<char> {
    if base.len() == 0 || is_sep(base.last()) || (base.len() == 2 && has_drive_prefix(base)) {
        base + seg
    } else {
        base + seq!['\\'] + seg
    }
}

pub fn is_sep_exec(c: char) -> (r: bool)
    ensures
        r == is_sep(c),
{
    c == '\\' || c == '/'
}

fn is_ascii_alpha_exec(c: char) -> (r: bool)
    ensures
        r == is_ascii_alpha(c),
{
    ('a' <= c && c <= 'z') || ('A' <= c && c <= 'Z')
}

pub fn has_drive_prefix_exec(v: &[char]) -> (r: bool)
    ensures
        r == has_drive_prefix(v@),
{
    v.len() >= 2 && is_ascii_alpha_exec(v[0]) && v[1] == ':'
}

pub fn is_path_sep_exec(c: char, verbatim: bool) -> (r: bool)
    ensures
        r == is_path_sep(c, verbatim),
{
    c == '\\' || (!verbatim && c == '/')
}

fn component_end_exec(v: &[char], start: usize, verbatim: bool) -> (r: usize)
    requires
        start <= v@.len(),
    ensures
        r as int == component_end(v@, start as int, verbatim),
        start <= r <= v@.len(),
{
    let mut i: usize = start;
    while i < v.len() && !is_path_sep_exec(v[i], verbatim)
        invariant
            start <= i <= v@.len(),
            component_end(v@, start as int, verbatim) == component_end(v@, i as int, verbatim),
        decreases v@.len() - i,
    {
        i += 1;
    }
    i
}

fn unc_end_exec(v: &[char], start: usize, verbatim: bool) -> (r: Option<usize>)
    requires
        start <= v@.len(),
    ensures
        match unc_end(v@, start as int, verbatim) {
            Some(end) => r == Some(end as usize) && end <= v@.len(),
            None => r is None,
        },
{
    let server_end = component_end_exec(v, start, verbatim);
    if server_end < v.len() {
        let share_end = component_end_exec(v, server_end + 1, verbatim);
        if share_end > server_end + 1 {
            Some(share_end)
        } else {
            None
        }
    } else {
        None
    }
}

/// The Windows prefix a path starts with, and its length.
pub fn path_prefix_exec(v: &[char]) -> (r: Option<(PrefixKind, usize)>)
    ensures
        match path_prefix(v@) {
            Some((kind, n)) => r == Some((kind, n as usize)) && 0 <= n <= v@.len(),
            None => r is None,
        },
{
    if v.len() >= 2 && is_sep_exec(v[0]) && is_sep_exec(v[1]) {
        if v.len() >= 4 && v[0] == '\\' && v[1] == '\\' && v[2] == '?' && v[3] == '\\' {
            if v.len() >= 8 && v[4] == 'U' && v[5] == 'N' && v[6] == 'C' && is_sep_exec(v[7]) {
                let server_end = component_end_exec(v, 8, true);
                match unc_end_exec(v, 8, true) {
                    Some(end) => Some((PrefixKind::VerbatimUnc, end)),
                    None => Some((PrefixKind::VerbatimUnc, server_end)),
                }
            } else if v.len() >= 6 && is_ascii_alpha_exec(v[4]) && v[5] == ':' && (v.len() == 6
                || v[6] == '\\') {
                Some((PrefixKind::VerbatimDisk, 6))
            } else {
                Some((PrefixKind::Verbatim, component_end_exec(v, 4, true)))
            }
        } else if v.len() >= 4 && v[2] == '.' && is_sep_exec(v[3]) {
            Some((PrefixKind::Device, component_end_exec(v, 4, false)))
        } else if component_end_exec(v, 2, false) > 2 {
            match unc_end_exec(v, 2, false) {
                Some(end) => Some((PrefixKind::Unc, end)),
                None => None,
            }
        } else {
            None
        }
    } else if has_drive_prefix_exec(v) {
        Some((PrefixKind::Disk, 2))
    } else {
        None
    }
}

/// Whether a path is absolute under Windows rules.
pub fn is_absolute(path: &str) -> (r: bool)
    ensures
        r == is_absolute_path(path@),
{
    let v = chars_of(path);
    match path_prefix_exec(v.as_slice()) {
        None => false,
        Some((kind, n)) => !matches!(kind, PrefixKind::Disk) || (n < v.len() && is_sep_exec(v[n])),
    }
}

/// Whether a path names a whole drive such as `D:\` or `\\server\share`.
pub fn is_drive_root(path: &str) -> (r: bool)
    ensures
        r == is_drive_root_path(path@),
{
    let v = chars_of(path);
    let (kind, n) = match path_prefix_exec(v.as_slice()) {
        None => return false,
        Some(p) => p,
    };
    if !(n < v.len() && is_sep_exec(v[n])) {
        return (matches!(kind, PrefixKind::Unc) || matches!(kind, PrefixKind::Device)) && n >= v.len();
    }
    let verbatim = matches!(kind, PrefixKind::VerbatimDisk) || matches!(kind, PrefixKind::VerbatimUnc)
        || matches!(kind, PrefixKind::Verbatim);
    let start = n + 1;
    let mut j: usize = start;
    while j < v.len()
        invariant
            start <= j <= v@.len(),
            v@ == path@,
            start == n + 1,
            path_prefix(path@) == Some((kind, n as int)),
            verbatim == is_verbatim_kind(kind),
            forall|i: int| start <= i < j ==> #[trigger] skipped_at(v@, i, start as int, verbatim),
        decreases v@.len() - j,
    {
        let c = v[j];
        let ok = is_path_sep_exec(c, verbatim) || (!verbatim && c == '.' && (j == start
            || is_sep_exec(v[j - 1])) && (j + 1 == v.len() || is_sep_exec(v[j + 1])));
        if !ok {
            assert(!skipped_at(v@, j as int, start as int, verbatim));
            return false;
        }
        j += 1;
    }
    true
}

/// Joins a relative segment onto a base path with Windows separators.
pub fn join(base: &str, seg: &str) -> (r: String)
    ensures
        r@ == join_spec(base@, seg@),
{
    let v = chars_of(base);
    let mut r = string_of(v.as_slice());
    if !(v.len() == 0 || is_sep_exec(v[v.len() - 1]) || (v.len() == 2 && has_drive_prefix_exec(
        v.as_slice(),
    ))) {
        push_char(&mut r, '\\');
    }
    r.append(seg);
    r
}

/// Whether the path currently exists on disk (`Path::exists`). The answer
/// depends on the file system at the time of the call, so nothing is stated
/// about it.
#[verifier::external_body]
pub(crate) fn path_exists(path: &str) -> bool {
    std::path::Path::new(path).exists()
}

/// Whether the path currently is a directory (`Path::is_dir`). The answer
/// depends on the file system at the time of the call, so nothing is stated
/// about it.
#[verifier::external_body]
pub(crate) fn path_is_dir(path: &str) -> bool {
    std::path::Path::new(path).is_dir()
}

/// What a resolved folder is used for.
#[derive(Debug, Clone, Copy, PartialEq, Eq, Structural)]
pub enum PathKind {
    ModelRoot,
    CustomFolder,
}

/// An issue as (severity, code, message).
pub open spec fn issue_view(i: PathIssue) -> (PathIssueSeverity, Seq<char>, Seq<char>) {
    (i.severity, i.code@, i.message@)
}

pub open spec fn issues_view(v: Seq<PathIssue>) -> Seq<(PathIssueSeverity, Seq<char>, Seq<char>)> {
    v.map_values(|i: PathIssue| issue_view(i))
}

pub open spec fn unresolved_issue() -> (PathIssueSeverity, Seq<char>, Seq<char>) {
    (
        PathIssueSeverity::Error,
        "unresolved_home"@,
        "ModelHub could not resolve your Windows user profile path."@,
    )
}

pub open spec fn relative_issue() -> (PathIssueSeverity, Seq<char>, Seq<char>) {
    (
        PathIssueSeverity::Error,
        "relative_path"@,
        "Use an absolute Windows path so scanners and downloads have a stable root."@,
    )
}

pub open spec fn drive_root_issue() -> (PathIssueSeverity, Seq<char>, Seq<char>) {
    (
        PathIssueSeverity::Error,
        "drive_root"@,
        "Choose a specific model folder instead of an entire drive root."@,
    )
}

pub open spec fn not_directory_issue() -> (PathIssueSeverity, Seq<char>, Seq<char>) {
    (PathIssueSeverity::Error, "not_directory"@, "This path exists but is not a folder."@)
}

pub open spec fn missing_issue() -> (PathIssueSeverity, Seq<char>, Seq<char>) {
    (
        PathIssueSeverity::Warning,
        "missing"@,
        "This folder does not exist yet. Scans will skip it until it is available."@,
    )
}

pub open spec fn overlap_issue() -> (PathIssueSeverity, Seq<char>, Seq<char>) {
    (
        PathIssueSeverity::Warning,
        "overlap"@,
        "This folder overlaps another custom folder and may cause duplicate scan results."@,
    )
}

/// The issues of a resolved path, in the order they are reported.
pub open spec fn expected_issues(path: Seq<char>, kind: PathKind, exists: bool, is_dir: bool) -> Seq<
    (PathIssueSeverity, Seq<char>, Seq<char>),
> {
    let a = if !is_absolute_path(path) {
        seq![relative_issue()]
    } else {
        Seq::empty()
    };
    let b = if kind == PathKind::CustomFolder && is_drive_root_path(path) {
        a.push(drive_root_issue())
    } else {
        a
    };
    if exists && !is_dir {
        b.push(not_directory_issue())
    } else if !exists {
        b.push(missing_issue())
    } else {
        b
    }
}

/// A resolved path built from its parts: an absent path is unresolved with
/// one error; a present path carries the checks of `expected_issues`.
pub open spec fn resolved_as(
    r: ResolvedPath,
    label: Seq<char>,
    path: Option<Seq<char>>,
    source: PathResolutionSource,
    source_label: Seq<char>,
    kind: PathKind,
) -> bool {
    &&& r.label@ == label
    &&& opt_str(r.path) == path
    &&& match path {
        None => {
            &&& r.source == PathResolutionSource::Unresolved
            &&& r.source_label@ == "Unresolved"@
            &&& !r.exists
            &&& !r.is_directory
            &&& issues_view(r.issues@) == seq![unresolved_issue()]
        },
        Some(p) => {
            &&& r.source == source
            &&& r.source_label@ == source_label
            &&& issues_view(r.issues@) == expected_issues(p, kind, r.exists, r.is_directory)
        },
    }
}

fn push_issue(issues: &mut Vec<PathIssue>, issue: PathIssue)
    ensures
        issues_view(final(issues)@) == issues_view(old(issues)@).push(issue_view(issue)),
{
    let ghost before = issues@;
    issues.push(issue);
    assert(issues_view(issues@) =~= issues_view(before).push(issue_view(issue)));
}

/// Checks one candidate folder given what the file system reported about it.
pub fn build_resolved_path(
    label: &str,
    path: Option<String>,
    source: PathResolutionSource,
    source_label: &str,
    kind: PathKind,
    exists: bool,
    is_directory: bool,
) -> (r: ResolvedPath)
    ensures
        resolved_as(r, label@, opt_str(path), source, source_label@, kind),
        path is Some ==> r.exists == exists && r.is_directory == is_directory,
{
    let path = match path {
        None => {
            let mut issues = Vec::new();
            push_issue(
                &mut issues,
                PathIssue::error(
                    "unresolved_home",
                    "ModelHub could not resolve your Windows user profile path.",
                ),
            );
            assert(issues_view(issues@) =~= seq![unresolved_issue()]);
            return ResolvedPath {
                label: label.to_owned(),
                path: None,
                source: PathResolutionSource::Unresolved,
                source_label: "Unresolved".to_owned(),
                exists: false,
                is_directory: false,
                issues,
            };
        },
        Some(p) => p,
    };
    let mut issues: Vec<PathIssue> = Vec::new();
    assert(issues_view(issues@) =~= Seq::empty());
    if !is_absolute(path.as_str()) {
        push_issue(
            &mut issues,
            PathIssue::error(
                "relative_path",
                "Use an absolute Windows path so scanners and downloads have a stable root.",
            ),
        );
    }
    if kind == PathKind::CustomFolder && is_drive_root(path.as_str()) {
        push_issue(
            &mut issues,
            PathIssue::error(
                "drive_root",
                "Choose a specific model folder instead of an entire drive root.",
            ),
        );
    }
    if exists && !is_directory {
        push_issue(
            &mut issues,
            PathIssue::error("not_directory", "This path exists but is not a folder."),
        );
    } else if !exists {
        push_issue(
            &mut issues,
            PathIssue::warning(
                "missing",
                "This folder does not exist yet. Scans will skip it until it is available.",
            ),
        );
    }
    ResolvedPath {
        label: label.to_owned(),
        path: Some(path),
        source,
        source_label: source_label.to_owned(),
        exists,
        is_directory,
        issues,
    }
}

/// Checks one candidate folder against the file system.
fn probe_resolved_path(
    label: &str,
    path: Option<String>,
    source: PathResolutionSource,
    source_label: &str,
    kind: PathKind,
) -> (r: ResolvedPath)
    ensures
        resolved_as(r, label@, opt_str(path), source, source_label@, kind),
{
    match path {
        None => build_resolved_path(label, None, source, source_label, kind, false, false),
        Some(p) => {
            let exists = path_exists(p.as_str());
            let is_directory = path_is_dir(p.as_str());
            build_resolved_path(label, Some(p), source, source_label, kind, exists, is_directory)
        },
    }
}

/// `candidate` lies strictly inside `parent` (both already normalized).
pub open spec fn nested_in(candidate: Seq<char>, parent: Seq<char>) -> bool {
    &&& candidate.len() > parent.len()
    &&& starts_with(candidate, parent)
    &&& candidate[parent.len() as int] == '\\'
}

/// Entry `i` has a path that contains, or is contained in, another entry's.
pub open spec fn overlaps_other(keys: Seq<Option<Seq<char>>>, i: int) -> bool {
    &&& keys[i] is Some
    &&& exists|j: int|
        0 <= j < keys.len() && j != i && (#[trigger] keys[j]) is Some && (nested_in(
            keys[i]->0,
            keys[j]->0,
        ) || nested_in(keys[j]->0, keys[i]->0))
}

pub open spec fn key_of(p: Option<String>) -> Option<Seq<char>> {
    match p {
        Some(s) => Some(path_key(s@)),
        None => None,
    }
}

/// `path_key`, used to compare folders for overlap.
pub fn normalize_for_compare(path: &str) -> (r: String)
    ensures
        r@ == path_key(path@),
{
    let v = chars_of(path);
    let replaced = replace_chars(v.as_slice(), '/', '\\');
    let replaced_str = string_of(replaced.as_slice());
    let lowered = to_lowercase_str(replaced_str.as_str());
    let lv = chars_of(lowered.as_str());
    let t = trim_end_chars(lv.as_slice(), CharClass::Exactly('\\'));
    let mut key = string_of(t.as_slice());
    if t.len() > 0 && t[t.len() - 1] == ':' {
        push_char(&mut key, '\\');
    }
    key
}

/// Whether `candidate` lies strictly inside `parent`.
pub fn is_nested_path(candidate: &str, parent: &str) -> (r: bool)
    ensures
        r == nested_in(candidate@, parent@),
{
    let c = chars_of(candidate);
    let p = chars_of(parent);
    c.len() > p.len() && starts_with_chars(c.as_slice(), p.as_slice()) && c[p.len()] == '\\'
}

fn overlap_flags(keys: &Vec<Option<String>>) -> (r: Vec<bool>)
    ensures
        r@.len() == keys@.len(),
        forall|i: int|
            0 <= i < keys@.len() ==> r@[i] == overlaps_other(
                keys@.map_values(|k: Option<String>| opt_str(k)),
                i,
            ),
{
    let ghost ks = keys@.map_values(|k: Option<String>| opt_str(k));
    let mut r: Vec<bool> = Vec::new();
    let mut i: usize = 0;
    while i < keys.len()
        invariant
            0 <= i <= keys.len(),
            ks == keys@.map_values(|k: Option<String>| opt_str(k)),
            r@.len() == i,
            forall|a: int| 0 <= a < i ==> r@[a] == overlaps_other(ks, a),
        decreases keys.len() - i,
    {
        let mut found = false;
        match &keys[i] {
            None => {},
            Some(current) => {
                let mut j: usize = 0;
                while j < keys.len()
                    invariant
                        0 <= j <= keys.len(),
                        0 <= i < keys.len(),
                        ks == keys@.map_values(|k: Option<String>| opt_str(k)),
                        ks[i as int] == Some(current@),
                        found == exists|b: int|
                            0 <= b < j && b != i && (#[trigger] ks[b]) is Some && (nested_in(
                                ks[i as int]->0,
                                ks[b]->0,
                            ) || nested_in(ks[b]->0, ks[i as int]->0)),
                    decreases keys.len() - j,
                {
                    if j != i {
                        match &keys[j] {
                            None => {},
                            Some(other) => {
                                assert(ks[j as int] == Some(other@));
                                if is_nested_path(current.as_str(), other.as_str())
                                    || is_nested_path(other.as_str(), current.as_str()) {
                                    found = true;
                                }
                            },
                        }
                    }
                    j += 1;
                }
            },
        }
        r.push(found);
        i += 1;
    }
    r
}

/// Adds an overlap warning to each folder that contains, or lies inside,
/// another folder of the list.
pub fn add_overlap_warnings(paths: &mut Vec<ResolvedPath>)
    ensures
        final(paths)@.len() == old(paths)@.len(),
        forall|i: int|
            #![trigger final(paths)@[i]]
            0 <= i < old(paths)@.len() ==> {
                let before = old(paths)@[i];
                let after = final(paths)@[i];
                &&& after.label == before.label
                &&& after.path == before.path
                &&& after.source == before.source
                &&& after.source_label == before.source_label
                &&& after.exists == before.exists
                &&& after.is_directory == before.is_directory
                &&& issues_view(after.issues@) == if overlaps_other(
                    old(paths)@.map_values(|p: ResolvedPath| key_of(p.path)),
                    i,
                ) {
                    issues_view(before.issues@).push(overlap_issue())
                } else {
                    issues_view(before.issues@)
                }
            },
{
    let ghost orig = paths@;
    let mut keys: Vec<Option<String>> = Vec::new();
    let mut k: usize = 0;
    while k < paths.len()
        invariant
            0 <= k <= paths.len(),
            paths@ == orig,
            keys@.len() == k,
            forall|a: int|
                0 <= a < k ==> opt_str(#[trigger] keys@[a]) == key_of(orig[a].path),
        decreases paths.len() - k,
    {
        let key = match &paths[k].path {
            Some(p) => Some(normalize_for_compare(p.as_str())),
            None => None,
        };
        keys.push(key);
        k += 1;
    }
    assert(keys@.map_values(|k: Option<String>| opt_str(k)) =~= orig.map_values(
        |p: ResolvedPath| key_of(p.path),
    ));
    let flags = overlap_flags(&keys);
    let mut i: usize = 0;
    while i < flags.len()
        invariant
            0 <= i <= flags.len() == orig.len(),
            paths@.len() == orig.len(),
            forall|a: int|
                0 <= a < orig.len() ==> flags@[a] == overlaps_other(
                    orig.map_values(|p: ResolvedPath| key_of(p.path)),
                    a,
                ),
            forall|a: int| i <= a < orig.len() ==> paths@[a] == orig[a],
            forall|a: int|
                #![trigger paths@[a]]
                0 <= a < i ==> {
                    let before = orig[a];
                    let after = paths@[a];
                    &&& after.label == before.label
                    &&& after.path == before.path
                    &&& after.source == before.source
                    &&& after.source_label == before.source_label
                    &&& after.exists == before.exists
                    &&& after.is_directory == before.is_directory
                    &&& issues_view(after.issues@) == if flags@[a] {
                        issues_view(before.issues@).push(overlap_issue())
                    } else {
                        issues_view(before.issues@)
                    }
                },
        decreases flags.len() - i,
    {
        if flags[i] {
            let mut item = paths.remove(i);
            push_issue(
                &mut item.issues,
                PathIssue::warning(
                    "overlap",
                    "This folder overlaps another custom folder and may cause duplicate scan results.",
                ),
            );
            paths.insert(i, item);
        }
        i += 1;
    }
}

/// The first present, non-empty value (how `env_path` reads a variable).
pub open spec fn non_empty(v: Option<Seq<char>>) -> Option<Seq<char>> {
    match v {
        Some(s) => if s.len() == 0 {
            None
        } else {
            Some(s)
        },
        None => None,
    }
}

fn non_empty_exec(v: Option<String>) -> (r: Option<String>)
    ensures
        opt_str(r) == non_empty(opt_str(v)),
{
    match v {
        Some(s) => if s.as_str().is_empty() {
            None
        } else {
            Some(s)
        },
        None => None,
    }
}

/// The user profile folder the environment names: `USERPROFILE`, else
/// `HOME`, else `HOMEDRIVE` followed by `HOMEPATH`.
pub open spec fn user_profile_from(
    user_profile: Option<Seq<char>>,
    home: Option<Seq<char>>,
    home_drive: Option<Seq<char>>,
    home_path: Option<Seq<char>>,
) -> Option<Seq<char>> {
    if non_empty(user_profile) is Some {
        non_empty(user_profile)
    } else if non_empty(home) is Some {
        non_empty(home)
    } else {
        match (home_drive, home_path) {
            (Some(d), Some(p)) => Some(d + p),
            _ => None,
        }
    }
}

impl PathInputs {
    /// Builds the inputs from the environment variables `USERPROFILE`,
    /// `HOME`, `HOMEDRIVE`, `HOMEPATH`, `HF_HOME` and `HF_HUB_CACHE`, as read
    /// by the caller (an unset variable is `None`). Empty values count as
    /// unset, except for the drive/path pair.
    pub fn from_env(
        user_profile: Option<String>,
        home: Option<String>,
        home_drive: Option<String>,
        home_path: Option<String>,
        hf_home: Option<String>,
        hf_hub_cache: Option<String>,
    ) -> (r: Self)
        ensures
            opt_str(r.user_profile) == user_profile_from(
                opt_str(user_profile),
                opt_str(home),
                opt_str(home_drive),
                opt_str(home_path),
            ),
            opt_str(r.hf_home) == non_empty(opt_str(hf_home)),
            opt_str(r.hf_hub_cache) == non_empty(opt_str(hf_hub_cache)),
    {
        let profile = match non_empty_exec(user_profile) {
            Some(p) => Some(p),
            None => match non_empty_exec(home) {
                Some(h) => Some(h),
                None => match (home_drive, home_path) {
                    (Some(d), Some(p)) => Some(concat2(d.as_str(), p.as_str())),
                    _ => None,
                },
            },
        };
        PathInputs {
            user_profile: profile,
            hf_home: non_empty_exec(hf_home),
            hf_hub_cache: non_empty_exec(hf_hub_cache),
        }
    }
}

/// Where the Hugging Face cache is: the user setting, then `HF_HUB_CACHE`,
/// then `HF_HOME\hub`, then `<profile>\.cache\huggingface\hub`.
pub open spec fn hf_cache_choice(settings: AppSettings, inputs: PathInputs) -> (
    Option<Seq<char>>,
    PathResolutionSource,
    Seq<char>,
) {
    match settings.hf_cache_path {
        Some(p) => (Some(p@), PathResolutionSource::UserSetting, "User setting"@),
        None => match inputs.hf_hub_cache {
            Some(p) => (Some(p@), PathResolutionSource::Environment, "HF_HUB_CACHE"@),
            None => match inputs.hf_home {
                Some(p) => (
                    Some(join_spec(p@, "hub"@)),
                    PathResolutionSource::Environment,
                    "HF_HOME + hub"@,
                ),
                None => (
                    match inputs.user_profile {
                        Some(p) => Some(
                            join_spec(join_spec(join_spec(p@, ".cache"@), "huggingface"@), "hub"@),
                        ),
                        None => None,
                    },
                    PathResolutionSource::Default,
                    "Default Windows path"@,
                ),
            },
        },
    }
}

/// Where the LM Studio models are: the user setting, then
/// `<profile>\.lmstudio\models`.
pub open spec fn lm_studio_choice(settings: AppSettings, inputs: PathInputs) -> (
    Option<Seq<char>>,
    PathResolutionSource,
    Seq<char>,
) {
    match settings.lm_studio_models_path {
        Some(p) => (Some(p@), PathResolutionSource::UserSetting, "User setting"@),
        None => (
            match inputs.user_profile {
                Some(p) => Some(join_spec(join_spec(p@, ".lmstudio"@), "models"@)),
                None => None,
            },
            PathResolutionSource::Default,
            "Default Windows path"@,
        ),
    }
}

fn resolve_hf_cache(settings: &AppSettings, inputs: &PathInputs) -> (r: ResolvedPath)
    ensures
        resolved_as(
            r,
            "Hugging Face cache"@,
            hf_cache_choice(*settings, *inputs).0,
            hf_cache_choice(*settings, *inputs).1,
            hf_cache_choice(*settings, *inputs).2,
            PathKind::ModelRoot,
        ),
{
    if let Some(path) = &settings.hf_cache_path {
        return probe_resolved_path(
            "Hugging Face cache",
            Some(path.clone()),
            PathResolutionSource::UserSetting,
            "User setting",
            PathKind::ModelRoot,
        );
    }
    if let Some(path) = &inputs.hf_hub_cache {
        return probe_resolved_path(
            "Hugging Face cache",
            Some(path.clone()),
            PathResolutionSource::Environment,
            "HF_HUB_CACHE",
            PathKind::ModelRoot,
        );
    }
    if let Some(path) = &inputs.hf_home {
        return probe_resolved_path(
            "Hugging Face cache",
            Some(join(path.as_str(), "hub")),
            PathResolutionSource::Environment,
            "HF_HOME + hub",
            PathKind::ModelRoot,
        );
    }
    let default_path = match &inputs.user_profile {
        Some(p) => {
            let a = join(p.as_str(), ".cache");
            let b = join(a.as_str(), "huggingface");
            Some(join(b.as_str(), "hub"))
        },
        None => None,
    };
    probe_resolved_path(
        "Hugging Face cache",
        default_path,
        PathResolutionSource::Default,
        "Default Windows path",
        PathKind::ModelRoot,
    )
}

fn resolve_lm_studio_models(settings: &AppSettings, inputs: &PathInputs) -> (r: ResolvedPath)
    ensures
        resolved_as(
            r,
            "LM Studio models"@,
            lm_studio_choice(*settings, *inputs).0,
            lm_studio_choice(*settings, *inputs).1,
            lm_studio_choice(*settings, *inputs).2,
            PathKind::ModelRoot,
        ),
{
    if let Some(path) = &settings.lm_studio_models_path {
        return probe_resolved_path(
            "LM Studio models",
            Some(path.clone()),
            PathResolutionSource::UserSetting,
            "User setting",
            PathKind::ModelRoot,
        );
    }
    let default_path = match &inputs.user_profile {
        Some(p) => {
            let a = join(p.as_str(), ".lmstudio");
            Some(join(a.as_str(), "models"))
        },
        None => None,
    };
    probe_resolved_path(
        "LM Studio models",
        default_path,
        PathResolutionSource::Default,
        "Default Windows path",
        PathKind::ModelRoot,
    )
}

/// The label of the custom folder at position `i` (counted from one).
pub open spec fn custom_label(i: int) -> Seq<char> {
    "Custom folder "@ + decimal((i + 1) as nat)
}

/// One custom folder as resolved, before overlap checks.
pub open spec fn custom_resolved(r: ResolvedPath, folders: Seq<Seq<char>>, i: int) -> bool {
    &&& r.label@ == custom_label(i)
    &&& opt_str(r.path) == Some(folders[i])
    &&& r.source == PathResolutionSource::UserSetting
    &&& r.source_label@ == "User setting"@
}

/// Every custom folder resolved, in order, each with its own checks and an
/// overlap warning where it contains or lies inside another one.
pub open spec fn custom_folders_resolved(rs: Seq<ResolvedPath>, folders: Seq<Seq<char>>) -> bool {
    &&& rs.len() == folders.len()
    &&& forall|i: int|
        #![trigger rs[i]]
        0 <= i < rs.len() ==> {
            &&& custom_resolved(rs[i], folders, i)
            &&& issues_view(rs[i].issues@) == {
                let base = expected_issues(
                    folders[i],
                    PathKind::CustomFolder,
                    rs[i].exists,
                    rs[i].is_directory,
                );
                if overlaps_other(folders.map_values(|f: Seq<char>| Some(path_key(f))), i) {
                    base.push(overlap_issue())
                } else {
                    base
                }
            }
        }
}

fn resolve_custom_model_folders(settings: &AppSettings) -> (r: Vec<ResolvedPath>)
    ensures
        custom_folders_resolved(r@, strs(settings.custom_model_folders@)),
{
    let folders = &settings.custom_model_folders;
    let ghost fs = strs(folders@);
    let mut resolved: Vec<ResolvedPath> = Vec::new();
    let mut i: usize = 0;
    while i < folders.len()
        invariant
            0 <= i <= folders.len(),
            fs == strs(folders@),
            resolved@.len() == i,
            forall|a: int|
                #![trigger resolved@[a]]
                0 <= a < i ==> custom_resolved(resolved@[a], fs, a) && issues_view(
                    resolved@[a].issues@,
                ) == expected_issues(
                    fs[a],
                    PathKind::CustomFolder,
                    resolved@[a].exists,
                    resolved@[a].is_directory,
                ),
        decreases folders.len() - i,
    {
        assert(i + 1 <= usize::MAX);
        let number = decimal_string((i + 1) as u64);
        let label = concat2("Custom folder ", number.as_str());
        assert(fs[i as int] == folders@[i as int]@);
        let item = probe_resolved_path(
            label.as_str(),
            Some(folders[i].clone()),
            PathResolutionSource::UserSetting,
            "User setting",
            PathKind::CustomFolder,
        );
        resolved.push(item);
        i += 1;
    }
    let ghost before = resolved@;
    add_overlap_warnings(&mut resolved);
    assert(before.map_values(|p: ResolvedPath| key_of(p.path)) =~= fs.map_values(
        |f: Seq<char>| Some(path_key(f)),
    ));
    resolved
}

/// All three kinds of model folder resolved against the settings and the
/// environment, with the file system probed for each.
pub open spec fn paths_resolved(r: ResolvedPaths, settings: AppSettings, inputs: PathInputs) -> bool {
    &&& resolved_as(
        r.hf_cache,
        "Hugging Face cache"@,
        hf_cache_choice(settings, inputs).0,
        hf_cache_choice(settings, inputs).1,
        hf_cache_choice(settings, inputs).2,
        PathKind::ModelRoot,
    )
    &&& resolved_as(
        r.lm_studio_models,
        "LM Studio models"@,
        lm_studio_choice(settings, inputs).0,
        lm_studio_choice(settings, inputs).1,
        lm_studio_choice(settings, inputs).2,
        PathKind::ModelRoot,
    )
    &&& custom_folders_resolved(r.custom_model_folders@, strs(settings.custom_model_folders@))
}

/// Whether `issues` reports `code` with `severity`.
pub open spec fn reports(
    issues: Seq<(PathIssueSeverity, Seq<char>, Seq<char>)>,
    severity: PathIssueSeverity,
    code: Seq<char>,
) -> bool {
    exists|i: int| 0 <= i < issues.len() && #[trigger] issues[i].0 == severity && issues[i].1 == code
}

/// Whether `issues` reports `code` at all.
pub open spec fn reports_code(issues: Seq<(PathIssueSeverity, Seq<char>, Seq<char>)>, code: Seq<char>) -> bool {
    exists|i: int| 0 <= i < issues.len() && #[trigger] issues[i].1 == code
}

/// Each problem of a resolved folder is reported, and only then: a
/// relative path is the error `relative_path`, a whole drive chosen as a
/// custom folder the error `drive_root`, a path that is not a folder the
/// error `not_directory`, and a folder that does not exist yet the warning
/// `missing`.
pub proof fn path_issues_report_each_problem(path: Seq<char>, kind: PathKind, exists: bool, is_dir: bool)
    ensures
        reports(expected_issues(path, kind, exists, is_dir), PathIssueSeverity::Error, "relative_path"@)
            <==> !is_absolute_path(path),
        reports_code(expected_issues(path, kind, exists, is_dir), "relative_path"@) <==> !is_absolute_path(path),
        reports(expected_issues(path, kind, exists, is_dir), PathIssueSeverity::Error, "drive_root"@) <==> (kind
            == PathKind::CustomFolder && is_drive_root_path(path)),
        reports_code(expected_issues(path, kind, exists, is_dir), "drive_root"@) <==> (kind
            == PathKind::CustomFolder && is_drive_root_path(path)),
        reports(expected_issues(path, kind, exists, is_dir), PathIssueSeverity::Error, "not_directory"@) <==> (
        exists && !is_dir),
        reports_code(expected_issues(path, kind, exists, is_dir), "not_directory"@) <==> (exists && !is_dir),
        reports(expected_issues(path, kind, exists, is_dir), PathIssueSeverity::Warning, "missing"@) <==> !exists,
        reports_code(expected_issues(path, kind, exists, is_dir), "missing"@) <==> !exists,
{
    reveal_strlit("relative_path");
    reveal_strlit("drive_root");
    reveal_strlit("not_directory");
    reveal_strlit("missing");
    assert("relative_path"@[0] == 'r' && "not_directory"@[0] == 'n');
    assert("relative_path"@.len() == 13 && "drive_root"@.len() == 10 && "not_directory"@.len() == 13
        && "missing"@.len() == 7);
    let issues = expected_issues(path, kind, exists, is_dir);
    let rel = !is_absolute_path(path);
    let drive = kind == PathKind::CustomFolder && is_drive_root_path(path);
    let a: Seq<(PathIssueSeverity, Seq<char>, Seq<char>)> = if rel {
        seq![relative_issue()]
    } else {
        Seq::empty()
    };
    let b = if drive {
        a.push(drive_root_issue())
    } else {
        a
    };
    let nd = exists && !is_dir;
    let full = if nd {
        b.push(not_directory_issue())
    } else if !exists {
        b.push(missing_issue())
    } else {
        b
    };
    assert(issues == full);
    assert forall|i: int| 0 <= i < issues.len() implies {
        ||| (#[trigger] issues[i] == relative_issue() && rel)
        ||| (issues[i] == drive_root_issue() && drive)
        ||| (issues[i] == not_directory_issue() && nd)
        ||| (issues[i] == missing_issue() && !exists)
    } by {
        if i < b.len() {
            assert(issues[i] == b[i]);
            if i < a.len() {
                assert(b[i] == a[i]);
            }
        }
    }
    if rel {
        assert(issues[0] == b[0]);
        assert(b[0] == a[0]);
        assert(issues[0].0 == PathIssueSeverity::Error && issues[0].1 == "relative_path"@);
    }
    if drive {
        assert(issues[b.len() - 1] == drive_root_issue());
        assert(issues[b.len() - 1].0 == PathIssueSeverity::Error && issues[b.len() - 1].1 == "drive_root"@);
    }
    if nd {
        assert(issues[b.len() as int] == not_directory_issue());
        assert(issues[b.len() as int].0 == PathIssueSeverity::Error && issues[b.len() as int].1
            == "not_directory"@);
    }
    if !exists {
        assert(issues[b.len() as int] == missing_issue());
        assert(issues[b.len() as int].0 == PathIssueSeverity::Warning && issues[b.len() as int].1
            == "missing"@);
    }
    assert(reports_code(issues, "relative_path"@) ==> rel);
    assert(reports_code(issues, "missing"@) ==> !exists);
}

/// A folder the user set wins: when the settings name an LM Studio models
/// folder, the resolved LM Studio path is exactly that folder, reported as
/// the user's setting; without one, it is `.lmstudio\\models` under the
/// user's profile, reported as the Windows default. The same holds of the
/// Hugging Face cache, whose fallbacks are `HF_HUB_CACHE`, `HF_HOME\\hub`
/// and `.cache\\huggingface\\hub` under the profile, in that order.
pub proof fn user_settings_win_path_resolution(r: ResolvedPaths, settings: AppSettings, inputs: PathInputs)
    requires
        paths_resolved(r, settings, inputs),
    ensures
        settings.lm_studio_models_path matches Some(p) ==> {
            &&& opt_str(r.lm_studio_models.path) == Some(p@)
            &&& r.lm_studio_models.source == PathResolutionSource::UserSetting
            &&& r.lm_studio_models.source_label@ == "User setting"@
        },
        settings.lm_studio_models_path is None ==> (inputs.user_profile matches Some(home) ==> {
            &&& opt_str(r.lm_studio_models.path) == Some(
                join_spec(join_spec(home@, ".lmstudio"@), "models"@),
            )
            &&& r.lm_studio_models.source == PathResolutionSource::Default
        }),
        (settings.lm_studio_models_path is None && inputs.user_profile is None) ==> {
            &&& r.lm_studio_models.path is None
            &&& r.lm_studio_models.source == PathResolutionSource::Unresolved
        },
        settings.hf_cache_path matches Some(p) ==> {
            &&& opt_str(r.hf_cache.path) == Some(p@)
            &&& r.hf_cache.source == PathResolutionSource::UserSetting
            &&& r.hf_cache.source_label@ == "User setting"@
        },
        settings.hf_cache_path is None ==> (inputs.hf_hub_cache matches Some(p) ==> {
            &&& opt_str(r.hf_cache.path) == Some(p@)
            &&& r.hf_cache.source == PathResolutionSource::Environment
        }),
        (settings.hf_cache_path is None && inputs.hf_hub_cache is None) ==> (inputs.hf_home matches Some(
            p,
        ) ==> {
            &&& opt_str(r.hf_cache.path) == Some(join_spec(p@, "hub"@))
            &&& r.hf_cache.source == PathResolutionSource::Environment
        }),
        (settings.hf_cache_path is None && inputs.hf_hub_cache is None && inputs.hf_home is None) ==> (
        inputs.user_profile matches Some(home) ==> {
            &&& opt_str(r.hf_cache.path) == Some(
                join_spec(join_spec(join_spec(home@, ".cache"@), "huggingface"@), "hub"@),
            )
            &&& r.hf_cache.source == PathResolutionSource::Default
        }),
{
}

/// Resolves every model folder. Whether each folder exists is read from
/// the file system; the result states which it found and reports the
/// matching issues.
pub fn resolve_paths_with_inputs(settings: &AppSettings, inputs: &PathInputs) -> (r: ResolvedPaths)
    ensures
        paths_resolved(r, *settings, *inputs),
{
    let hf_cache = resolve_hf_cache(settings, inputs);
    let lm_studio_models = resolve_lm_studio_models(settings, inputs);
    let custom_model_folders = resolve_custom_model_folders(settings);
    ResolvedPaths { hf_cache, lm_studio_models, custom_model_folders }
}

} // verus!
