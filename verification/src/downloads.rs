//! Download jobs: what a request to download model files must satisfy,
//! where the files are staged, the bookkeeping of every job, and the
//! decisions of a transfer as it moves from file to file.
use vstd::prelude::*;

use crate::models::{
    DownloadDestination, DownloadFileProgress, DownloadJob, DownloadStatus, HfModelFile,
    InstallDownloadResult, StartDownloadInput, opt_str, strs,
};
use crate::paths::{has_drive_prefix, has_drive_prefix_exec, join, join_spec};
use crate::scanner::{join_spec as join_texts, join_strings};
use crate::text::{
    CharClass, chars_eq, chars_of, concat2, concat3, contains_chars, contains_seq, decimal,
    decimal_string, replace_char, replace_chars, split_chars, split_spec, string_of, trim,
    trim_chars, trim_str,
};

verus! {

/// The message for a download path that is empty.
pub open spec fn empty_path_message() -> Seq<char> {
    "Download file paths cannot be empty."@
}

/// The path of a download file with blanks trimmed and `\` made `/`.
pub open spec fn download_path_text(path: Seq<char>) -> Seq<char> {
    replace_char(trim(path), '\\', '/')
}

/// The pieces of a path that name folders or files: not empty, not `.`.
pub open spec fn normal_parts(ps: Seq<Seq<char>>) -> Seq<Seq<char>>
    decreases ps.len(),
{
    if ps.len() == 0 {
        Seq::empty()
    } else {
        normal_parts(ps.drop_last()) + if ps.last().len() > 0 && ps.last() != "."@ {
            seq![ps.last()]
        } else {
            Seq::empty()
        }
    }
}

/// A path that reaches outside the folder it is read in: rooted, on a
/// drive, starting with `.`, or going up with `..` (read the way Windows
/// splits a path into components).
pub open spec fn unsafe_path(p: Seq<char>) -> bool {
    let pieces = split_spec(p, '/');
    ||| p.len() > 0 && p[0] == '/'
    ||| has_drive_prefix(p)
    ||| pieces[0] == "."@
    ||| exists|i: int| 0 <= i < pieces.len() && pieces[i] == ".."@
}

/// The relative path a download file is stored under, with `\` between
/// its parts, or why the path is refused.
pub open spec fn safe_relative_path_spec(path: Seq<char>) -> Result<Seq<char>, Seq<char>> {
    let p = download_path_text(path);
    if p.len() == 0 {
        Err(empty_path_message())
    } else if unsafe_path(p) {
        Err("ModelHub rejected an unsafe download path: "@ + p)
    } else if normal_parts(split_spec(p, '/')).len() == 0 {
        Err(empty_path_message())
    } else {
        Ok(join_texts(normal_parts(split_spec(p, '/')), "\\"@))
    }
}

/// The relative path a download file is stored under, unless the path
/// could reach outside the download folder.
pub fn safe_relative_path(path: &str) -> (r: Result<String, String>)
    ensures
        match r {
            Ok(p) => safe_relative_path_spec(path@) == Ok::<Seq<char>, Seq<char>>(p@),
            Err(e) => safe_relative_path_spec(path@) == Err::<Seq<char>, Seq<char>>(e@),
        },
{
    let v = chars_of(path);
    let t = trim_chars(v.as_slice(), CharClass::Whitespace);
    let p = replace_chars(t.as_slice(), '\\', '/');
    if p.len() == 0 {
        return Err("Download file paths cannot be empty.".to_owned());
    }
    let pieces = split_chars(p.as_slice(), '/');
    let ghost ps = pieces@.map_values(|x: Vec<char>| x@);
    assert(ps.len() > 0) by {
        assert(split_spec(p@, '/').len() > 0) by {
            lemma_split_nonempty(p@, '/', Seq::empty());
        }
    }
    let dot = chars_of(".");
    let dotdot = chars_of("..");
    let mut bad = (p[0] == '/') || has_drive_prefix_exec(p.as_slice()) || chars_eq(
        pieces[0].as_slice(),
        dot.as_slice(),
    );
    assert(ps[0] == pieces@[0]@);
    let mut i: usize = 0;
    let mut normals: Vec<String> = Vec::new();
    while i < pieces.len()
        invariant
            0 <= i <= pieces@.len(),
            ps == pieces@.map_values(|x: Vec<char>| x@),
            dot@ == "."@,
            dotdot@ == ".."@,
            bad == ((p@.len() > 0 && p@[0] == '/') || has_drive_prefix(p@) || ps[0] == "."@ || exists|j: int|
                0 <= j < i && ps[j] == ".."@),
            strs(normals@) == normal_parts(ps.take(i as int)),
        decreases pieces.len() - i,
    {
        assert(ps[i as int] == pieces@[i as int]@);
        if chars_eq(pieces[i].as_slice(), dotdot.as_slice()) {
            bad = true;
        }
        assert(ps.take(i + 1).drop_last() =~= ps.take(i as int));
        let ghost before = strs(normals@);
        if pieces[i].len() > 0 && !chars_eq(pieces[i].as_slice(), dot.as_slice()) {
            normals.push(string_of(pieces[i].as_slice()));
            assert(strs(normals@) =~= before + seq![ps[i as int]]);
        } else {
            assert(strs(normals@) =~= before + Seq::<Seq<char>>::empty());
        }
        i += 1;
    }
    assert(ps.take(i as int) =~= ps);
    let shown = string_of(p.as_slice());
    if bad {
        return Err(concat2("ModelHub rejected an unsafe download path: ", shown.as_str()));
    }
    if normals.len() == 0 {
        return Err("Download file paths cannot be empty.".to_owned());
    }
    Ok(join_strings(&normals, "\\"))
}

/// An accepted download path stays inside the folder it is stored under:
/// it is its parts joined with `\`, and no part is empty, `.` or `..`, or
/// holds a separator, and the first part names no drive.
pub proof fn accepted_download_path_stays_inside(path: Seq<char>)
    requires
        safe_relative_path_spec(path) is Ok,
    ensures
        ({
            let parts = normal_parts(split_spec(download_path_text(path), '/'));
            &&& safe_relative_path_spec(path) == Ok::<Seq<char>, Seq<char>>(join_texts(parts, "\\"@))
            &&& parts.len() > 0
            &&& !has_drive_prefix(parts[0])
            &&& forall|i: int|
                0 <= i < parts.len() ==> {
                    let q = #[trigger] parts[i];
                    &&& q.len() > 0
                    &&& q != "."@
                    &&& q != ".."@
                    &&& !q.contains('\\')
                    &&& !q.contains('/')
                }
        }),
{
    let p = download_path_text(path);
    let pieces = split_spec(p, '/');
    let parts = normal_parts(pieces);
    lemma_split_pieces(p, '/', Seq::empty());
    lemma_normal_parts(pieces);
    assert(!p.contains('\\')) by {
        if p.contains('\\') {
            let i = choose|i: int| 0 <= i < p.len() && p[i] == '\\';
            assert(p[i] == (if trim(path)[i] == '\\' { '/' } else { trim(path)[i] }));
        }
    }
    assert forall|i: int| 0 <= i < parts.len() implies {
        let q = #[trigger] parts[i];
        &&& q.len() > 0
        &&& q != "."@
        &&& q != ".."@
        &&& !q.contains('\\')
        &&& !q.contains('/')
    } by {
        let q = parts[i];
        let k = choose|k: int| 0 <= k < pieces.len() && pieces[k] == q;
        assert(pieces[k] == q);
        if q.contains('\\') {
            assert(Seq::<char>::empty().contains('\\') || p.contains('\\'));
        }
    }
    assert(pieces[0].len() > 0);
    assert(pieces[0] != "."@);
    assert(parts[0] == pieces[0]);
    if has_drive_prefix(parts[0]) {
        assert(p.subrange(0, pieces[0].len() as int) == pieces[0]);
        assert(p[0] == pieces[0][0] && p[1] == pieces[0][1]);
        assert(has_drive_prefix(p));
    }
}

/// The pieces of a split: none holds the separator, each holds only
/// characters of the text (or of the piece begun so far), and the first
/// begins the text.
proof fn lemma_split_pieces(s: Seq<char>, c: char, cur: Seq<char>)
    requires
        !cur.contains(c),
    ensures
        ({
            let r = crate::text::split_from(s, c, cur);
            &&& r.len() > 0
            &&& forall|k: int| 0 <= k < r.len() ==> !(#[trigger] r[k]).contains(c)
            &&& forall|k: int, ch: char|
                0 <= k < r.len() && #[trigger] r[k].contains(ch) ==> cur.contains(ch) || s.contains(ch)
            &&& r[0].len() <= cur.len() + s.len()
            &&& (cur + s).subrange(0, r[0].len() as int) == r[0]
            &&& r[0].len() >= cur.len()
            &&& (s.len() > 0 && s[0] != c ==> r[0].len() > cur.len())
        }),
    decreases s.len(),
{
    let r = crate::text::split_from(s, c, cur);
    if s.len() == 0 {
        assert((cur + s).subrange(0, cur.len() as int) =~= cur);
    } else if s[0] == c {
        let rest = crate::text::split_from(s.drop_first(), c, Seq::empty());
        lemma_split_pieces(s.drop_first(), c, Seq::empty());
        assert(r == seq![cur] + rest);
        assert(r[0] == cur);
        assert((cur + s).subrange(0, cur.len() as int) =~= cur);
        assert forall|k: int, ch: char| 0 <= k < r.len() && #[trigger] r[k].contains(ch) implies cur.contains(
            ch,
        ) || s.contains(ch) by {
            if k > 0 {
                assert(r[k] == rest[k - 1]);
                assert(Seq::<char>::empty().contains(ch) || s.drop_first().contains(ch));
                if s.drop_first().contains(ch) {
                    let j = choose|j: int| 0 <= j < s.drop_first().len() && s.drop_first()[j] == ch;
                    assert(s[j + 1] == ch);
                }
            }
        }
        assert forall|k: int| 0 <= k < r.len() implies !(#[trigger] r[k]).contains(c) by {
            if k > 0 {
                assert(r[k] == rest[k - 1]);
            }
        }
    } else {
        let cur2 = cur.push(s[0]);
        assert(!cur2.contains(c)) by {
            if cur2.contains(c) {
                let j = choose|j: int| 0 <= j < cur2.len() && cur2[j] == c;
                if j < cur.len() {
                    assert(cur[j] == c);
                }
            }
        }
        lemma_split_pieces(s.drop_first(), c, cur2);
        assert(cur2 + s.drop_first() =~= cur + s);
        assert forall|k: int, ch: char| 0 <= k < r.len() && #[trigger] r[k].contains(ch) implies cur.contains(
            ch,
        ) || s.contains(ch) by {
            if cur2.contains(ch) {
                let j = choose|j: int| 0 <= j < cur2.len() && cur2[j] == ch;
                if j < cur.len() {
                    assert(cur[j] == ch);
                } else {
                    assert(s[0] == ch);
                }
            } else if s.drop_first().contains(ch) {
                let j = choose|j: int| 0 <= j < s.drop_first().len() && s.drop_first()[j] == ch;
                assert(s[j + 1] == ch);
            }
        }
    }
}

/// The kept parts are parts of the list, none empty or `.`; a first part
/// that is neither is kept first.
proof fn lemma_normal_parts(ps: Seq<Seq<char>>)
    ensures
        forall|i: int|
            0 <= i < normal_parts(ps).len() ==> ps.contains(#[trigger] normal_parts(ps)[i]) && normal_parts(
                ps,
            )[i].len() > 0 && normal_parts(ps)[i] != "."@,
        ps.len() > 0 && ps[0].len() > 0 && ps[0] != "."@ ==> normal_parts(ps).len() > 0 && normal_parts(ps)[0]
            == ps[0],
    decreases ps.len(),
{
    if ps.len() > 0 {
        let init = ps.drop_last();
        lemma_normal_parts(init);
        let n = normal_parts(ps);
        let m = normal_parts(init);
        assert forall|i: int| 0 <= i < n.len() implies ps.contains(#[trigger] n[i]) && n[i].len() > 0 && n[i]
            != "."@ by {
            if i < m.len() {
                assert(n[i] == m[i]);
                let k = choose|k: int| 0 <= k < init.len() && init[k] == m[i];
                assert(ps[k] == init[k]);
            } else {
                assert(n[i] == ps.last());
                assert(ps[ps.len() - 1] == ps.last());
            }
        }
        if ps[0].len() > 0 && ps[0] != "."@ {
            if ps.len() == 1 {
                assert(init.len() == 0);
                assert(m.len() == 0);
                assert(n =~= seq![ps[0]]);
            } else {
                assert(init[0] == ps[0]);
                assert(n[0] == m[0]);
            }
        }
    }
}

proof fn lemma_split_nonempty(s: Seq<char>, c: char, cur: Seq<char>)
    ensures
        crate::text::split_from(s, c, cur).len() > 0,
    decreases s.len(),
{
    if s.len() > 0 {
        if s[0] == c {
            lemma_split_nonempty(s.drop_first(), c, Seq::empty());
        } else {
            lemma_split_nonempty(s.drop_first(), c, cur.push(s[0]));
        }
    }
}

/// The text with blanks trimmed, unless nothing is left.
pub open spec fn trimmed_spec(value: Seq<char>) -> Option<Seq<char>> {
    if trim(value).len() > 0 {
        Some(trim(value))
    } else {
        None
    }
}

/// The text with blanks trimmed, unless nothing is left.
pub fn trimmed_non_empty(value: &str) -> (r: Option<String>)
    ensures
        opt_str(r) == trimmed_spec(value@),
{
    let t = trim_str(value);
    if t.as_str().is_empty() {
        None
    } else {
        Some(t)
    }
}

/// The total of the files' sizes, when every size is known.
pub open spec fn known_total(files: Seq<HfModelFile>) -> Option<nat>
    decreases files.len(),
{
    if files.len() == 0 {
        Some(0)
    } else {
        match (known_total(files.drop_last()), files.last().size_bytes) {
            (Some(t), Some(s)) => Some(t + s as nat),
            _ => None,
        }
    }
}

proof fn lemma_known_total_prefix(files: Seq<HfModelFile>, n: int)
    requires
        0 <= n <= files.len(),
        known_total(files) is Some,
    ensures
        known_total(files.take(n)) is Some,
        known_total(files.take(n)).unwrap() <= known_total(files).unwrap(),
    decreases files.len(),
{
    if n < files.len() {
        assert(files.drop_last().take(n) =~= files.take(n));
        lemma_known_total_prefix(files.drop_last(), n);
    } else {
        assert(files.take(n) =~= files);
    }
}

proof fn lemma_known_total_unknown(files: Seq<HfModelFile>, n: int)
    requires
        0 <= n <= files.len(),
        known_total(files.take(n)) is None,
    ensures
        known_total(files) is None,
    decreases files.len(),
{
    if n < files.len() {
        assert(files.drop_last().take(n) =~= files.take(n));
        lemma_known_total_unknown(files.drop_last(), n);
    } else {
        assert(files.take(n) =~= files);
    }
}

/// The total of the files' sizes, when every size is known and the total
/// fits in `u64`.
pub fn sum_known_file_sizes(files: &[HfModelFile]) -> (r: Option<u64>)
    ensures
        r == match known_total(files@) {
            Some(t) => if t <= u64::MAX {
                Some(t as u64)
            } else {
                None
            },
            None => None,
        },
{
    let mut total: u64 = 0;
    let mut i: usize = 0;
    while i < files.len()
        invariant
            0 <= i <= files@.len(),
            known_total(files@.take(i as int)) == Some(total as nat),
        decreases files.len() - i,
    {
        assert(files@.take(i + 1).drop_last() =~= files@.take(i as int));
        match files[i].size_bytes {
            Some(s) => {
                if total > u64::MAX - s {
                    proof {
                        if known_total(files@) is Some {
                            lemma_known_total_prefix(files@, i + 1);
                        }
                    }
                    return None;
                }
                total = total + s;
            },
            None => {
                proof {
                    lemma_known_total_unknown(files@, i + 1);
                }
                return None;
            },
        }
        i += 1;
    }
    assert(files@.take(files@.len() as int) =~= files@);
    Some(total)
}

/// The message for a repository id that cannot be downloaded from.
pub open spec fn invalid_repo_message() -> Seq<char> {
    "Choose a valid Hugging Face repo before starting a download."@
}

/// The first file whose path is refused, if any.
pub open spec fn first_bad_file(files: Seq<HfModelFile>, i: int) -> bool {
    &&& 0 <= i < files.len()
    &&& safe_relative_path_spec(files[i].path@) is Err
    &&& forall|j: int| 0 <= j < i ==> safe_relative_path_spec((#[trigger] files[j]).path@) is Ok
}

/// What a download request must satisfy: a repository id `owner/name`
/// without `..`, at least one file, and only paths that stay inside the
/// download folder; the first failure is the answer.
pub open spec fn start_input_check(input: StartDownloadInput) -> Result<(), Seq<char>> {
    let repo = trim(input.repo_id@);
    if repo.len() == 0 || !contains_seq(repo, "/"@) || contains_seq(repo, ".."@) {
        Err(invalid_repo_message())
    } else if input.files@.len() == 0 {
        Err("Select at least one file to download."@)
    } else if exists|i: int| first_bad_file(input.files@, i) {
        Err(safe_relative_path_spec(input.files@[choose|i: int| first_bad_file(input.files@, i)].path@)->Err_0)
    } else {
        Ok(())
    }
}

/// Checks a download request.
pub fn validate_start_input(input: &StartDownloadInput) -> (r: Result<(), String>)
    ensures
        match r {
            Ok(()) => start_input_check(*input) == Ok::<(), Seq<char>>(()),
            Err(e) => start_input_check(*input) == Err::<(), Seq<char>>(e@),
        },
{
    let repo = trim_str(input.repo_id.as_str());
    let rv = chars_of(repo.as_str());
    let slash = chars_of("/");
    let dots = chars_of("..");
    if rv.len() == 0 || !contains_chars(rv.as_slice(), slash.as_slice()) || contains_chars(
        rv.as_slice(),
        dots.as_slice(),
    ) {
        return Err("Choose a valid Hugging Face repo before starting a download.".to_owned());
    }
    if input.files.len() == 0 {
        return Err("Select at least one file to download.".to_owned());
    }
    let mut i: usize = 0;
    while i < input.files.len()
        invariant
            0 <= i <= input.files@.len(),
            input.files@.len() > 0,
            !(trim(input.repo_id@).len() == 0 || !contains_seq(trim(input.repo_id@), "/"@)
                || contains_seq(trim(input.repo_id@), ".."@)),
            forall|j: int| 0 <= j < i ==> safe_relative_path_spec((#[trigger] input.files@[j]).path@) is Ok,
        decreases input.files.len() - i,
    {
        match safe_relative_path(input.files[i].path.as_str()) {
            Ok(_) => {},
            Err(e) => {
                proof {
                    assert(first_bad_file(input.files@, i as int));
                    let c = choose|c: int| first_bad_file(input.files@, c);
                    if c < i {
                    } else if i < c {
                        assert(safe_relative_path_spec(input.files@[i as int].path@) is Ok);
                    }
                }
                return Err(e);
            },
        }
        i += 1;
    }
    assert(!exists|c: int| first_bad_file(input.files@, c));
    Ok(())
}

proof fn lemma_push_contains(s: Seq<Seq<char>>, a: Seq<char>)
    ensures
        forall|x: Seq<char>| #[trigger] s.push(a).contains(x) <==> (s.contains(x) || x == a),
{
    assert forall|x: Seq<char>| #[trigger] s.push(a).contains(x) <==> (s.contains(x) || x == a) by {
        if s.push(a).contains(x) {
            let j = choose|j: int| 0 <= j < s.push(a).len() && s.push(a)[j] == x;
            if j < s.len() {
                assert(s[j] == x);
            }
        }
        if s.contains(x) {
            let j = choose|j: int| 0 <= j < s.len() && s[j] == x;
            assert(s.push(a)[j] == x);
        }
        if x == a {
            assert(s.push(a)[s.len() as int] == x);
        }
    }
}

/// The message a job gets when the app stopped before it finished.
pub open spec fn restart_message() -> Seq<char> {
    "ModelHub restarted before this download finished. Restart the download to try again."@
}

/// The message for a job id that names no job.
pub open spec fn missing_job_message() -> Seq<char> {
    "ModelHub could not find that download job."@
}

/// Two jobs hold the same values (their lists compared by content).
pub open spec fn same_job(a: DownloadJob, b: DownloadJob) -> bool {
    &&& a.files@ == b.files@
    &&& a.install_warnings@ == b.install_warnings@
    &&& a == (DownloadJob { files: a.files, install_warnings: a.install_warnings, ..b })
}

/// Lists of jobs hold the same values.
pub open spec fn same_jobs(a: Seq<DownloadJob>, b: Seq<DownloadJob>) -> bool {
    a.len() == b.len() && forall|i: int| 0 <= i < a.len() ==> same_job(#[trigger] a[i], b[i])
}

fn copy_opt(o: &Option<String>) -> (r: Option<String>)
    ensures
        r == *o,
{
    match o {
        Some(s) => Some(s.clone()),
        None => None,
    }
}

fn copy_strings(v: &Vec<String>) -> (r: Vec<String>)
    ensures
        r@ == v@,
{
    let mut out: Vec<String> = Vec::new();
    let mut i: usize = 0;
    while i < v.len()
        invariant
            0 <= i <= v@.len(),
            out@ == v@.take(i as int),
        decreases v.len() - i,
    {
        out.push(v[i].clone());
        assert(v@.take(i + 1) =~= v@.take(i as int).push(v@[i as int]));
        i += 1;
    }
    assert(v@.take(v@.len() as int) =~= v@);
    out
}

fn copy_file(f: &DownloadFileProgress) -> (r: DownloadFileProgress)
    ensures
        r == *f,
{
    DownloadFileProgress {
        path: f.path.clone(),
        size_bytes: f.size_bytes,
        downloaded_bytes: f.downloaded_bytes,
        staged_path: copy_opt(&f.staged_path),
        blob_id: copy_opt(&f.blob_id),
        error: copy_opt(&f.error),
    }
}

fn copy_files(v: &Vec<DownloadFileProgress>) -> (r: Vec<DownloadFileProgress>)
    ensures
        r@ == v@,
{
    let mut out: Vec<DownloadFileProgress> = Vec::new();
    let mut i: usize = 0;
    while i < v.len()
        invariant
            0 <= i <= v@.len(),
            out@ == v@.take(i as int),
        decreases v.len() - i,
    {
        out.push(copy_file(&v[i]));
        assert(v@.take(i + 1) =~= v@.take(i as int).push(v@[i as int]));
        i += 1;
    }
    assert(v@.take(v@.len() as int) =~= v@);
    out
}

/// A copy of a job.
pub fn copy_job(j: &DownloadJob) -> (r: DownloadJob)
    ensures
        same_job(r, *j),
{
    DownloadJob {
        id: j.id.clone(),
        repo_id: j.repo_id.clone(),
        revision: j.revision.clone(),
        commit_sha: copy_opt(&j.commit_sha),
        destination: j.destination,
        status: j.status,
        files: copy_files(&j.files),
        total_bytes: j.total_bytes,
        downloaded_bytes: j.downloaded_bytes,
        error: copy_opt(&j.error),
        installed_at: copy_opt(&j.installed_at),
        cache_path: copy_opt(&j.cache_path),
        snapshot_path: copy_opt(&j.snapshot_path),
        install_error: copy_opt(&j.install_error),
        install_warnings: copy_strings(&j.install_warnings),
        created_at: j.created_at.clone(),
        updated_at: j.updated_at.clone(),
    }
}

/// A job that is still meant to run.
pub open spec fn is_active(s: DownloadStatus) -> bool {
    s == DownloadStatus::Queued || s == DownloadStatus::Downloading
}

/// A job as it stands after a restart: a job that was still running has
/// failed.
pub open spec fn recovered(n: DownloadJob, o: DownloadJob, now: String) -> bool {
    if is_active(o.status) {
        &&& n.files@ == o.files@
        &&& n.install_warnings@ == o.install_warnings@
        &&& n.status == DownloadStatus::Failed
        &&& opt_str(n.error) == Some(restart_message())
        &&& n.updated_at == now
        &&& n == (DownloadJob {
            files: n.files,
            install_warnings: n.install_warnings,
            status: n.status,
            error: n.error,
            updated_at: n.updated_at,
            ..o
        })
    } else {
        n == o
    }
}

/// The manager `m` (and whether jobs changed) after a restart with the
/// saved jobs: each job recovered, no job asked to stop yet.
pub open spec fn restarted(
    m: DownloadManager,
    changed: bool,
    root: String,
    metadata_path: String,
    jobs: Seq<DownloadJob>,
    now: String,
) -> bool {
    &&& m.root == root
    &&& m.metadata_path == metadata_path
    &&& m.cancelled_jobs@.len() == 0
    &&& m.jobs@.len() == jobs.len()
    &&& forall|i: int| 0 <= i < jobs.len() ==> recovered(#[trigger] m.jobs@[i], jobs[i], now)
    &&& changed == exists|i: int| 0 <= i < jobs.len() && is_active(#[trigger] jobs[i].status)
}

/// Restarting again right after a restart changes nothing: no job is
/// still running, so every job is kept as it is and nothing needs saving.
pub proof fn second_restart_changes_nothing(
    first: DownloadManager,
    first_changed: bool,
    second: DownloadManager,
    second_changed: bool,
    root: String,
    metadata_path: String,
    jobs: Seq<DownloadJob>,
    now: String,
    later: String,
)
    requires
        restarted(first, first_changed, root, metadata_path, jobs, now),
        restarted(second, second_changed, root, metadata_path, first.jobs@, later),
    ensures
        !second_changed,
        second.jobs@ == first.jobs@,
{
    assert forall|i: int| 0 <= i < first.jobs@.len() implies !is_active(#[trigger] first.jobs@[i].status) by {
        assert(recovered(first.jobs@[i], jobs[i], now));
    }
    assert(second.jobs@ =~= first.jobs@) by {
        assert forall|i: int| 0 <= i < first.jobs@.len() implies second.jobs@[i] == first.jobs@[i] by {
            assert(recovered(second.jobs@[i], first.jobs@[i], later));
            assert(!is_active(first.jobs@[i].status));
        }
    }
}

/// The job was asked to stop: its id was cancelled, or the job stands
/// cancelled.
pub open spec fn is_cancelled_spec(m: DownloadManager, id: Seq<char>) -> bool {
    strs(m.cancelled_jobs@).contains(id) || (job_index(m.jobs@, id) matches Some(i)
        && m.jobs@[i].status == DownloadStatus::Cancelled)
}

/// The first job with the id.
pub open spec fn first_job(jobs: Seq<DownloadJob>, id: Seq<char>, i: int) -> bool {
    &&& 0 <= i < jobs.len()
    &&& jobs[i].id@ == id
    &&& forall|j: int| 0 <= j < i ==> (#[trigger] jobs[j]).id@ != id
}

/// The first job with the id, if any.
pub open spec fn job_index(jobs: Seq<DownloadJob>, id: Seq<char>) -> Option<int> {
    if exists|i: int| first_job(jobs, id, i) {
        Some(choose|i: int| first_job(jobs, id, i))
    } else {
        None
    }
}

proof fn lemma_first_job_unique(jobs: Seq<DownloadJob>, id: Seq<char>, i: int)
    requires
        first_job(jobs, id, i),
    ensures
        job_index(jobs, id) == Some(i),
{
    let c = choose|c: int| first_job(jobs, id, c);
    assert(first_job(jobs, id, c));
    if c < i {
        assert(jobs[c].id@ != id);
    } else if i < c {
        assert(jobs[i].id@ != id);
    }
}

fn find_job(jobs: &Vec<DownloadJob>, id: &str) -> (r: Option<usize>)
    ensures
        match r {
            Some(i) => job_index(jobs@, id@) == Some(i as int),
            None => job_index(jobs@, id@) is None,
        },
{
    let k = chars_of(id);
    let mut i: usize = 0;
    while i < jobs.len()
        invariant
            0 <= i <= jobs@.len(),
            k@ == id@,
            forall|j: int| 0 <= j < i ==> (#[trigger] jobs@[j]).id@ != id@,
        decreases jobs.len() - i,
    {
        let name = chars_of(jobs[i].id.as_str());
        if chars_eq(name.as_slice(), k.as_slice()) {
            proof {
                lemma_first_job_unique(jobs@, id@, i as int);
            }
            return Some(i);
        }
        i += 1;
    }
    assert(!exists|c: int| first_job(jobs@, id@, c)) by {
        if exists|c: int| first_job(jobs@, id@, c) {
            let c = choose|c: int| first_job(jobs@, id@, c);
            assert(jobs@[c].id@ != id@);
        }
    }
    None
}

/// `n` is `o` with the status and error of the job with the id set (and
/// `now` as its update time); unchanged when no job has the id.
pub open spec fn status_set(
    n: DownloadManager,
    o: DownloadManager,
    id: Seq<char>,
    status: DownloadStatus,
    error: Option<String>,
    now: String,
) -> bool {
    &&& n.cancelled_jobs == o.cancelled_jobs
    &&& n.root == o.root
    &&& n.metadata_path == o.metadata_path
    &&& match job_index(o.jobs@, id) {
        None => n.jobs@ == o.jobs@,
        Some(i) => n.jobs@ == o.jobs@.update(i, DownloadJob { status, error, updated_at: now, ..o.jobs@[i] }),
    }
}

/// `n` is `o` with `bytes` more counted (saturating) for a file of the job
/// with the id and for the job; unchanged when there is no such job or
/// file.
pub open spec fn progress_added(
    n: DownloadManager,
    o: DownloadManager,
    id: Seq<char>,
    file_index: int,
    bytes: u64,
    now: String,
) -> bool {
    &&& n.cancelled_jobs == o.cancelled_jobs
    &&& n.root == o.root
    &&& n.metadata_path == o.metadata_path
    &&& match job_index(o.jobs@, id) {
        Some(i) if 0 <= file_index < o.jobs@[i].files@.len() => {
            let oj = o.jobs@[i];
            let nj = n.jobs@[i];
            let f = oj.files@[file_index];
            &&& n.jobs@ == o.jobs@.update(i, nj)
            &&& nj.files@ == oj.files@.update(
                file_index,
                DownloadFileProgress { downloaded_bytes: f.downloaded_bytes.saturating_add(bytes), ..f },
            )
            &&& nj == (DownloadJob {
                files: nj.files,
                downloaded_bytes: oj.downloaded_bytes.saturating_add(bytes),
                updated_at: now,
                ..oj
            })
        },
        _ => n.jobs@ == o.jobs@,
    }
}

/// `n` is `o` with a file of the job with the id recorded as staged at
/// `path` (its error cleared); unchanged when there is no such job or
/// file.
pub open spec fn file_finished(
    n: DownloadManager,
    o: DownloadManager,
    id: Seq<char>,
    file_index: int,
    path: String,
    now: String,
) -> bool {
    &&& n.cancelled_jobs == o.cancelled_jobs
    &&& n.root == o.root
    &&& n.metadata_path == o.metadata_path
    &&& match job_index(o.jobs@, id) {
        Some(i) if 0 <= file_index < o.jobs@[i].files@.len() => {
            let oj = o.jobs@[i];
            let nj = n.jobs@[i];
            &&& n.jobs@ == o.jobs@.update(i, nj)
            &&& nj.files@ == oj.files@.update(
                file_index,
                DownloadFileProgress { staged_path: Some(path), error: None, ..oj.files@[file_index] },
            )
            &&& nj == (DownloadJob { files: nj.files, updated_at: now, ..oj })
        },
        _ => n.jobs@ == o.jobs@,
    }
}

/// `n` is `o` after a download was queued under `job_id`: the request
/// passed its checks, the new job comes last, and the id is no longer
/// remembered as asked to stop.
pub open spec fn job_started(
    n: DownloadManager,
    o: DownloadManager,
    input: StartDownloadInput,
    job_id: String,
    created_at: String,
) -> bool {
    &&& start_input_check(input) == Ok::<(), Seq<char>>(())
    &&& new_job_spec(n.jobs@.last(), input, job_id, created_at)
    &&& n.jobs@.drop_last() == o.jobs@
    &&& n.jobs@.len() == o.jobs@.len() + 1
    &&& forall|x: Seq<char>|
        strs(n.cancelled_jobs@).contains(x) <==> (strs(o.cancelled_jobs@).contains(x) && x != job_id@)
    &&& n.root == o.root
    &&& n.metadata_path == o.metadata_path
}

/// A started job is found again under its id: when no job had the id
/// before, the job with that id is the new job, and it is not taken as
/// asked to stop.
pub proof fn started_job_is_found(
    n: DownloadManager,
    o: DownloadManager,
    input: StartDownloadInput,
    job_id: String,
    created_at: String,
)
    requires
        job_started(n, o, input, job_id, created_at),
        job_index(o.jobs@, job_id@) is None,
    ensures
        job_index(n.jobs@, job_id@) == Some(o.jobs@.len() as int),
        new_job_spec(n.jobs@[o.jobs@.len() as int], input, job_id, created_at),
        !is_cancelled_spec(n, job_id@),
{
    lemma_absent_id(o.jobs@, job_id@);
    let k = o.jobs@.len() as int;
    assert(n.jobs@[k] == n.jobs@.last());
    assert forall|j: int| 0 <= j < k implies (#[trigger] n.jobs@[j]).id@ != job_id@ by {
        assert(n.jobs@[j] == n.jobs@.drop_last()[j]);
        assert(o.jobs@[j].id@ != job_id@);
    }
    assert(first_job(n.jobs@, job_id@, k));
    lemma_first_job_unique(n.jobs@, job_id@, k);
}

/// With no job found under an id, no job has it.
proof fn lemma_absent_id(jobs: Seq<DownloadJob>, id: Seq<char>)
    requires
        job_index(jobs, id) is None,
    ensures
        forall|j: int| 0 <= j < jobs.len() ==> (#[trigger] jobs[j]).id@ != id,
    decreases jobs.len(),
{
    if jobs.len() > 0 {
        let init = jobs.drop_last();
        if exists|i: int| first_job(init, id, i) {
            let i = choose|i: int| first_job(init, id, i);
            assert forall|j: int| 0 <= j < i implies (#[trigger] jobs[j]).id@ != id by {
                assert(jobs[j] == init[j]);
            }
            assert(first_job(jobs, id, i));
        }
        lemma_absent_id(init, id);
        assert forall|j: int| 0 <= j < jobs.len() implies (#[trigger] jobs[j]).id@ != id by {
            if j < jobs.len() - 1 {
                assert(jobs[j] == init[j]);
            } else {
                if jobs[j].id@ == id {
                    assert forall|m: int| 0 <= m < j implies (#[trigger] jobs[m]).id@ != id by {
                        assert(jobs[m] == init[m]);
                    }
                    assert(first_job(jobs, id, j));
                }
            }
        }
    }
}

/// The download jobs of the app, with the folder they stage files in, the
/// file they are saved to, and the ids of jobs asked to stop.
pub struct DownloadManager {
    pub root: String,
    pub metadata_path: String,
    pub jobs: Vec<DownloadJob>,
    pub cancelled_jobs: Vec<String>,
}

impl DownloadManager {
    /// A manager for the saved jobs, after a restart: jobs that were still
    /// queued or running have failed (with `now` as their update time).
    /// Also says whether any job changed, so that the jobs are saved again.
    pub fn new(root: String, metadata_path: String, jobs: Vec<DownloadJob>, now: String) -> (r: (
        DownloadManager,
        bool,
    ))
        ensures
            restarted(r.0, r.1, root, metadata_path, jobs@, now),
            forall|i: int| 0 <= i < r.0.jobs@.len() ==> !is_active(#[trigger] r.0.jobs@[i].status),
    {
        let ghost orig = jobs@;
        let mut jobs = jobs;
        let mut changed = false;
        let mut i: usize = 0;
        while i < jobs.len()
            invariant
                0 <= i <= jobs@.len(),
                jobs@.len() == orig.len(),
                forall|k: int| i <= k < jobs@.len() ==> jobs@[k] == orig[k],
                forall|k: int| 0 <= k < i ==> recovered(#[trigger] jobs@[k], orig[k], now),
                changed == exists|k: int| 0 <= k < i && is_active(#[trigger] orig[k].status),
            decreases jobs.len() - i,
        {
            let active = match jobs[i].status {
                DownloadStatus::Queued => true,
                DownloadStatus::Downloading => true,
                _ => false,
            };
            if active {
                let mut job = jobs.remove(i);
                job.status = DownloadStatus::Failed;
                job.error = Some(
                    "ModelHub restarted before this download finished. Restart the download to try again.".to_owned(),
                );
                job.updated_at = now.clone();
                jobs.insert(i, job);
                changed = true;
            }
            proof {
                assert(active == is_active(orig[i as int].status));
                if active {
                    assert(0 <= i < i + 1 && is_active(orig[i as int].status));
                }
            }
            i += 1;
        }
        (DownloadManager { root, metadata_path, jobs, cancelled_jobs: Vec::new() }, changed)
    }

    /// A copy of every job, in order.
    pub fn list_jobs(&self) -> (r: Vec<DownloadJob>)
        ensures
            same_jobs(r@, self.jobs@),
    {
        let mut out: Vec<DownloadJob> = Vec::new();
        let mut i: usize = 0;
        while i < self.jobs.len()
            invariant
                0 <= i <= self.jobs@.len(),
                out@.len() == i,
                forall|k: int| 0 <= k < i ==> same_job(#[trigger] out@[k], self.jobs@[k]),
            decreases self.jobs.len() - i,
        {
            out.push(copy_job(&self.jobs[i]));
            i += 1;
        }
        out
    }

    /// Pausing and resuming are refused: they need HTTP range support.
    pub fn unsupported_resume_control(&self) -> (r: Result<(), String>)
        ensures
            match r {
                Ok(()) => false,
                Err(e) => e@ == "Pause and resume require HTTP range support and are not implemented yet."@,
            },
    {
        Err("Pause and resume require HTTP range support and are not implemented yet.".to_owned())
    }

    /// A copy of the job with the id, if any.
    pub fn job_snapshot(&self, job_id: &str) -> (r: Option<DownloadJob>)
        ensures
            match r {
                Some(j) => job_index(self.jobs@, job_id@) matches Some(i) && same_job(j, self.jobs@[i]),
                None => job_index(self.jobs@, job_id@) is None,
            },
    {
        match find_job(&self.jobs, job_id) {
            Some(i) => Some(copy_job(&self.jobs[i])),
            None => None,
        }
    }

    /// Whether the job was asked to stop: its id was cancelled, or the job
    /// stands cancelled.
    pub fn is_cancelled(&self, job_id: &str) -> (r: bool)
        ensures
            r == is_cancelled_spec(*self, job_id@),
    {
        let id = job_id.to_owned();
        if crate::scanner::metadata::contains_str(&self.cancelled_jobs, &id) {
            return true;
        }
        match find_job(&self.jobs, job_id) {
            Some(i) => self.jobs[i].status == DownloadStatus::Cancelled,
            None => false,
        }
    }

    /// Queues a download: checks the request (see `start_input_check`),
    /// then adds a queued job under `job_id`, created at `created_at`, and
    /// forgets an earlier request to stop that id. On a refused request
    /// nothing changes.
    pub fn start_download(&mut self, input: StartDownloadInput, job_id: String, created_at: String) -> (r:
        Result<DownloadJob, String>)
        ensures
            match r {
                Ok(job) => {
                    &&& job_started(*final(self), *old(self), input, job_id, created_at)
                    &&& same_job(job, final(self).jobs@.last())
                },
                Err(e) => start_input_check(input) == Err::<(), Seq<char>>(e@) && *final(self)
                    == *old(self),
            },
    {
        match validate_start_input(&input) {
            Ok(()) => {},
            Err(e) => {
                return Err(e);
            },
        }
        let ghost inp = input;
        let revision = match &input.revision {
            Some(rv) => match trimmed_non_empty(rv.as_str()) {
                Some(t) => t,
                None => "main".to_owned(),
            },
            None => "main".to_owned(),
        };
        let commit_sha = match &input.commit_sha {
            Some(c) => trimmed_non_empty(c.as_str()),
            None => None,
        };
        let total_bytes = sum_known_file_sizes(input.files.as_slice());
        let mut files: Vec<DownloadFileProgress> = Vec::new();
        let mut i: usize = 0;
        while i < input.files.len()
            invariant
                0 <= i <= input.files@.len(),
                files@.len() == i,
                forall|k: int| 0 <= k < i ==> file_progress_of(#[trigger] files@[k], input.files@[k]),
            decreases input.files.len() - i,
        {
            let f = &input.files[i];
            files.push(
                DownloadFileProgress {
                    path: f.path.clone(),
                    size_bytes: f.size_bytes,
                    downloaded_bytes: 0,
                    staged_path: None,
                    blob_id: copy_opt(&f.blob_id),
                    error: None,
                },
            );
            i += 1;
        }
        let job = DownloadJob {
            id: job_id.clone(),
            repo_id: trim_str(input.repo_id.as_str()),
            revision,
            commit_sha,
            destination: input.destination,
            status: DownloadStatus::Queued,
            files,
            total_bytes,
            downloaded_bytes: 0,
            error: None,
            installed_at: None,
            cache_path: None,
            snapshot_path: None,
            install_error: None,
            install_warnings: Vec::new(),
            created_at: created_at.clone(),
            updated_at: created_at.clone(),
        };
        let ghost old_cancelled = strs(self.cancelled_jobs@);
        let mut kept: Vec<String> = Vec::new();
        let mut k: usize = 0;
        while k < self.cancelled_jobs.len()
            invariant
                0 <= k <= self.cancelled_jobs@.len(),
                old_cancelled == strs(self.cancelled_jobs@),
                job_id@ == job_id@,
                forall|x: Seq<char>|
                    strs(kept@).contains(x) <==> (strs(self.cancelled_jobs@.take(k as int)).contains(x)
                        && x != job_id@),
            decreases self.cancelled_jobs.len() - k,
        {
            let ghost before = strs(kept@);
            let ghost prefix = strs(self.cancelled_jobs@.take(k as int));
            let ghost item = self.cancelled_jobs@[k as int]@;
            assert(strs(self.cancelled_jobs@.take(k + 1)) =~= prefix.push(item));
            proof {
                lemma_push_contains(prefix, item);
                lemma_push_contains(before, item);
            }
            if self.cancelled_jobs[k] != job_id {
                kept.push(self.cancelled_jobs[k].clone());
                assert(strs(kept@) =~= before.push(item));
            }
            k += 1;
        }
        assert(self.cancelled_jobs@.take(k as int) =~= self.cancelled_jobs@);
        self.cancelled_jobs = kept;
        let copy = copy_job(&job);
        let ghost before_jobs = self.jobs@;
        self.jobs.push(job);
        assert(self.jobs@.drop_last() =~= before_jobs);
        Ok(copy)
    }

    /// Asks a job to stop: its id is remembered as cancelled, and a job
    /// that is still queued or running is cancelled now (with `now` as its
    /// update time); that job is returned. A job id that names no job is an
    /// error, after the id has been remembered.
    pub fn cancel_download(&mut self, job_id: &str, now: String) -> (r: Result<Option<DownloadJob>, String>)
        ensures
            strs(final(self).cancelled_jobs@).contains(job_id@),
            is_cancelled_spec(*final(self), job_id@),
            forall|x: Seq<char>|
                strs(final(self).cancelled_jobs@).contains(x) <==> (strs(old(self).cancelled_jobs@).contains(x)
                    || x == job_id@),
            final(self).root == old(self).root,
            final(self).metadata_path == old(self).metadata_path,
            match job_index(old(self).jobs@, job_id@) {
                None => r == Err::<Option<DownloadJob>, String>(r->Err_0) && r->Err_0@
                    == missing_job_message() && final(self).jobs == old(self).jobs,
                Some(i) => if is_active(old(self).jobs@[i].status) {
                    &&& final(self).jobs@ == old(self).jobs@.update(
                        i,
                        DownloadJob {
                            status: DownloadStatus::Cancelled,
                            error: None,
                            updated_at: now,
                            ..old(self).jobs@[i]
                        },
                    )
                    &&& r matches Ok(Some(j)) && same_job(j, final(self).jobs@[i])
                } else {
                    r == Ok::<Option<DownloadJob>, String>(None) && final(self).jobs == old(self).jobs
                },
            },
    {
        let id = job_id.to_owned();
        if !crate::scanner::metadata::contains_str(&self.cancelled_jobs, &id) {
            let ghost before = strs(self.cancelled_jobs@);
            self.cancelled_jobs.push(id);
            assert(strs(self.cancelled_jobs@) =~= before.push(job_id@));
            proof {
                lemma_push_contains(before, job_id@);
            }
        }
        match find_job(&self.jobs, job_id) {
            None => Err("ModelHub could not find that download job.".to_owned()),
            Some(i) => {
                let active = match self.jobs[i].status {
                    DownloadStatus::Queued => true,
                    DownloadStatus::Downloading => true,
                    _ => false,
                };
                if active {
                    let mut job = self.jobs.remove(i);
                    job.status = DownloadStatus::Cancelled;
                    job.error = None;
                    job.updated_at = now;
                    let copy = copy_job(&job);
                    self.jobs.insert(i, job);
                    Ok(Some(copy))
                } else {
                    Ok(None)
                }
            },
        }
    }

    /// Sets a job's status and error (with `now` as its update time) and
    /// returns it; nothing for an unknown job.
    pub fn set_job_status(
        &mut self,
        job_id: &str,
        status: DownloadStatus,
        error: Option<String>,
        now: String,
    ) -> (r: Option<DownloadJob>)
        ensures
            status_set(*final(self), *old(self), job_id@, status, error, now),
            match job_index(old(self).jobs@, job_id@) {
                None => r is None,
                Some(i) => r matches Some(j) && same_job(j, final(self).jobs@[i]),
            },
    {
        match find_job(&self.jobs, job_id) {
            None => None,
            Some(i) => {
                let mut job = self.jobs.remove(i);
                job.status = status;
                job.error = error;
                job.updated_at = now;
                let copy = copy_job(&job);
                self.jobs.insert(i, job);
                assert(self.jobs@ =~= old(self).jobs@.update(i as int, self.jobs@[i as int]));
                Some(copy)
            },
        }
    }

    /// Counts bytes received for one file of a job, in the file's and the
    /// job's totals (saturating), and returns the job; nothing for an
    /// unknown job or file.
    pub fn add_file_progress(&mut self, job_id: &str, file_index: usize, bytes: u64, now: String) -> (r:
        Option<DownloadJob>)
        ensures
            progress_added(*final(self), *old(self), job_id@, file_index as int, bytes, now),
            match job_index(old(self).jobs@, job_id@) {
                Some(i) if file_index < old(self).jobs@[i].files@.len() => r matches Some(j) && same_job(
                    j,
                    final(self).jobs@[i],
                ),
                _ => r is None,
            },
    {
        match find_job(&self.jobs, job_id) {
            None => None,
            Some(i) => {
                if file_index >= self.jobs[i].files.len() {
                    return None;
                }
                let mut job = self.jobs.remove(i);
                let ghost old_files = job.files@;
                let mut file = job.files.remove(file_index);
                file.downloaded_bytes = file.downloaded_bytes.saturating_add(bytes);
                job.files.insert(file_index, file);
                assert(job.files@ =~= old_files.update(file_index as int, job.files@[file_index as int]));
                job.downloaded_bytes = job.downloaded_bytes.saturating_add(bytes);
                job.updated_at = now;
                let copy = copy_job(&job);
                self.jobs.insert(i, job);
                assert(self.jobs@ =~= old(self).jobs@.update(i as int, self.jobs@[i as int]));
                Some(copy)
            },
        }
    }

    /// Records where a file of a job was staged, clears its error, and
    /// returns the job; nothing for an unknown job or file.
    pub fn finish_file(&mut self, job_id: &str, file_index: usize, final_path: String, now: String) -> (r:
        Option<DownloadJob>)
        ensures
            file_finished(*final(self), *old(self), job_id@, file_index as int, final_path, now),
            match job_index(old(self).jobs@, job_id@) {
                Some(i) if file_index < old(self).jobs@[i].files@.len() => r matches Some(j) && same_job(
                    j,
                    final(self).jobs@[i],
                ),
                _ => r is None,
            },
    {
        match find_job(&self.jobs, job_id) {
            None => None,
            Some(i) => {
                if file_index >= self.jobs[i].files.len() {
                    return None;
                }
                let mut job = self.jobs.remove(i);
                let ghost old_files = job.files@;
                let mut file = job.files.remove(file_index);
                file.staged_path = Some(final_path);
                file.error = None;
                job.files.insert(file_index, file);
                assert(job.files@ =~= old_files.update(file_index as int, job.files@[file_index as int]));
                job.updated_at = now;
                let copy = copy_job(&job);
                self.jobs.insert(i, job);
                assert(self.jobs@ =~= old(self).jobs@.update(i as int, self.jobs@[i as int]));
                Some(copy)
            },
        }
    }

    /// Records that a job's files were installed into the cache (at
    /// `now`), with the install's paths and warnings, and returns the job;
    /// nothing for an unknown job.
    pub fn mark_installed(&mut self, job_id: &str, result: &InstallDownloadResult, now: String) -> (r:
        Option<DownloadJob>)
        ensures
            final(self).cancelled_jobs == old(self).cancelled_jobs,
            final(self).root == old(self).root,
            final(self).metadata_path == old(self).metadata_path,
            match job_index(old(self).jobs@, job_id@) {
                None => r is None && final(self).jobs == old(self).jobs,
                Some(i) => {
                    let o = old(self).jobs@[i];
                    let n = final(self).jobs@[i];
                    &&& final(self).jobs@.len() == old(self).jobs@.len()
                    &&& forall|k: int|
                        0 <= k < old(self).jobs@.len() && k != i ==> #[trigger] final(self).jobs@[k]
                            == old(self).jobs@[k]
                    &&& n.install_warnings@ == result.warnings@
                    &&& n == (DownloadJob {
                        installed_at: Some(now),
                        cache_path: Some(result.cache_path),
                        snapshot_path: Some(result.snapshot_path),
                        install_error: None,
                        install_warnings: n.install_warnings,
                        updated_at: now,
                        ..o
                    })
                    &&& r matches Some(j) && same_job(j, n)
                },
            },
    {
        match find_job(&self.jobs, job_id) {
            None => None,
            Some(i) => {
                let mut job = self.jobs.remove(i);
                job.installed_at = Some(now.clone());
                job.cache_path = Some(result.cache_path.clone());
                job.snapshot_path = Some(result.snapshot_path.clone());
                job.install_error = None;
                job.install_warnings = copy_strings(&result.warnings);
                job.updated_at = now;
                let copy = copy_job(&job);
                self.jobs.insert(i, job);
                assert(self.jobs@ =~= old(self).jobs@.update(i as int, self.jobs@[i as int]));
                Some(copy)
            },
        }
    }

    /// Records why installing a job failed (at `now`) and returns the job;
    /// nothing for an unknown job.
    pub fn mark_install_failed(&mut self, job_id: &str, error: &str, now: String) -> (r: Option<
        DownloadJob,
    >)
        ensures
            final(self).cancelled_jobs == old(self).cancelled_jobs,
            final(self).root == old(self).root,
            final(self).metadata_path == old(self).metadata_path,
            match job_index(old(self).jobs@, job_id@) {
                None => r is None && final(self).jobs == old(self).jobs,
                Some(i) => {
                    let o = old(self).jobs@[i];
                    let n = final(self).jobs@[i];
                    &&& final(self).jobs@ == old(self).jobs@.update(i, n)
                    &&& opt_str(n.install_error) == Some(error@)
                    &&& n == (DownloadJob { install_error: n.install_error, updated_at: now, ..o })
                    &&& r matches Some(j) && same_job(j, n)
                },
            },
    {
        match find_job(&self.jobs, job_id) {
            None => None,
            Some(i) => {
                let mut job = self.jobs.remove(i);
                job.install_error = Some(error.to_owned());
                job.updated_at = now;
                let copy = copy_job(&job);
                self.jobs.insert(i, job);
                assert(self.jobs@ =~= old(self).jobs@.update(i as int, self.jobs@[i as int]));
                Some(copy)
            },
        }
    }

    /// Where a file of a job is staged: the final path under the download
    /// folder, and the `.part` path it is written to first.
    pub fn staging_paths(&self, job_id: &str, file_path: &str) -> (r: Result<(String, String), String>)
        ensures
            match safe_relative_path_spec(file_path@) {
                Ok(rel) => r matches Ok((part, fin)) && fin@ == join_spec(
                    join_spec(self.root@, job_id@),
                    rel,
                ) && part@ == fin@ + ".part"@,
                Err(e) => r matches Err(m) && m@ == e,
            },
    {
        let rel = match safe_relative_path(file_path) {
            Ok(p) => p,
            Err(e) => {
                return Err(e);
            },
        };
        let dir = join(self.root.as_str(), job_id);
        let fin = join(dir.as_str(), rel.as_str());
        let part = concat2(fin.as_str(), ".part");
        Ok((part, fin))
    }
}

/// The progress record of a file that is about to be downloaded.
pub open spec fn file_progress_of(f: DownloadFileProgress, h: HfModelFile) -> bool {
    &&& f.path == h.path
    &&& f.size_bytes == h.size_bytes
    &&& f.downloaded_bytes == 0
    &&& f.staged_path is None
    &&& f.blob_id == h.blob_id
    &&& f.error is None
}

/// The job a download request starts: queued, nothing received yet, on the
/// requested revision (`main` unless one is given), with the total size
/// when every file's size is known.
pub open spec fn new_job_spec(job: DownloadJob, input: StartDownloadInput, job_id: String, created_at: String) -> bool {
    &&& job.id == job_id
    &&& job.repo_id@ == trim(input.repo_id@)
    &&& job.revision@ == match input.revision {
        Some(rv) => match trimmed_spec(rv@) {
            Some(t) => t,
            None => "main"@,
        },
        None => "main"@,
    }
    &&& opt_str(job.commit_sha) == match input.commit_sha {
        Some(c) => trimmed_spec(c@),
        None => None,
    }
    &&& job.destination == input.destination
    &&& job.status == DownloadStatus::Queued
    &&& job.files@.len() == input.files@.len()
    &&& forall|i: int| 0 <= i < job.files@.len() ==> file_progress_of(#[trigger] job.files@[i], input.files@[i])
    &&& job.total_bytes == match known_total(input.files@) {
        Some(t) => if t <= u64::MAX {
            Some(t as u64)
        } else {
            None
        },
        None => None,
    }
    &&& job.downloaded_bytes == 0
    &&& job.error is None
    &&& job.installed_at is None
    &&& job.cache_path is None
    &&& job.snapshot_path is None
    &&& job.install_error is None
    &&& job.install_warnings@.len() == 0
    &&& job.created_at == created_at
    &&& job.updated_at == created_at
}

/// The address that `reqwest::Url` makes of a base address with path
/// segments appended; `Err(Some(..))` holds the text of a parse error,
/// `Err(None)` says that the base address cannot take path segments.
pub uninterp spec fn url_with_segments(base: Seq<char>, segments: Seq<Seq<char>>) -> Result<
    Seq<char>,
    Option<Seq<char>>,
>;

/// Parses `base` with `reqwest::Url::parse`, appends the segments with
/// `path_segments_mut().extend` (which escapes them), and gives the
/// address as text. The contract only names the result: it depends on the
/// arguments alone.
#[verifier::external_body]
fn append_url_segments(base: &str, segments: &Vec<String>) -> (r: Result<String, Option<String>>)
    ensures
        match r {
            Ok(u) => url_with_segments(base@, strs(segments@)) == Ok::<Seq<char>, Option<Seq<char>>>(u@),
            Err(e) => url_with_segments(base@, strs(segments@)) == Err::<Seq<char>, Option<Seq<char>>>(
                opt_str(e),
            ),
        },
{
    let mut url = reqwest::Url::parse(base).map_err(|e| Some(e.to_string()))?;
    url.path_segments_mut().map_err(|_| None)?.extend(segments.iter());
    Ok(url.to_string())
}

/// The path segments of a file's download address: the repository id's
/// parts, `resolve`, the revision, and the file path's non-empty parts.
pub open spec fn file_url_segments(repo_id: Seq<char>, revision: Seq<char>, file_path: Seq<char>) -> Seq<
    Seq<char>,
> {
    split_spec(repo_id, '/') + seq!["resolve"@, revision] + non_empty_parts(
        split_spec(replace_char(file_path, '\\', '/'), '/'),
    )
}

/// The non-empty parts, in order.
pub open spec fn non_empty_parts(ps: Seq<Seq<char>>) -> Seq<Seq<char>>
    decreases ps.len(),
{
    if ps.len() == 0 {
        Seq::empty()
    } else {
        non_empty_parts(ps.drop_last()) + if ps.last().len() > 0 {
            seq![ps.last()]
        } else {
            Seq::empty()
        }
    }
}

fn push_parts(out: &mut Vec<String>, parts: &Vec<Vec<char>>, skip_empty: bool)
    ensures
        strs(final(out)@) == strs(old(out)@) + if skip_empty {
            non_empty_parts(parts@.map_values(|p: Vec<char>| p@))
        } else {
            parts@.map_values(|p: Vec<char>| p@)
        },
{
    let ghost start = strs(out@);
    let ghost ps = parts@.map_values(|p: Vec<char>| p@);
    let mut i: usize = 0;
    while i < parts.len()
        invariant
            0 <= i <= parts@.len(),
            ps == parts@.map_values(|p: Vec<char>| p@),
            strs(out@) == start + if skip_empty {
                non_empty_parts(ps.take(i as int))
            } else {
                ps.take(i as int)
            },
        decreases parts.len() - i,
    {
        assert(ps.take(i + 1).drop_last() =~= ps.take(i as int));
        assert(ps[i as int] == parts@[i as int]@);
        let ghost before = strs(out@);
        if !skip_empty || parts[i].len() > 0 {
            out.push(string_of(parts[i].as_slice()));
            assert(strs(out@) =~= before.push(ps[i as int]));
        }
        i += 1;
    }
    assert(ps.take(ps.len() as int) =~= ps);
}

/// The download address of a file of a repository at a revision.
pub fn build_file_url(repo_id: &str, revision: &str, file_path: &str) -> (r: Result<String, String>)
    ensures
        match url_with_segments("https://huggingface.co"@, file_url_segments(repo_id@, revision@, file_path@)) {
            Ok(u) => r matches Ok(s) && s@ == u,
            Err(Some(e)) => r matches Err(m) && m@ == e,
            Err(None) => r matches Err(m) && m@ == "ModelHub could not build the Hugging Face download URL."@,
        },
{
    let mut segments: Vec<String> = Vec::new();
    let repo = chars_of(repo_id);
    let repo_parts = split_chars(repo.as_slice(), '/');
    push_parts(&mut segments, &repo_parts, false);
    segments.push("resolve".to_owned());
    segments.push(revision.to_owned());
    let path = replace_chars(chars_of(file_path).as_slice(), '\\', '/');
    let path_parts = split_chars(path.as_slice(), '/');
    let ghost mid = strs(segments@);
    push_parts(&mut segments, &path_parts, true);
    assert(strs(segments@) =~= file_url_segments(repo_id@, revision@, file_path@));
    match append_url_segments("https://huggingface.co", &segments) {
        Ok(u) => Ok(u),
        Err(Some(e)) => Err(e),
        Err(None) => Err("ModelHub could not build the Hugging Face download URL.".to_owned()),
    }
}


/// The address a file of a job is downloaded from, or why it cannot be
/// built.
pub open spec fn file_url_result(job: DownloadJob, f: DownloadFileProgress) -> Result<Seq<char>, Seq<char>> {
    match url_with_segments("https://huggingface.co"@, file_url_segments(job.repo_id@, job.revision@, f.path@)) {
        Ok(u) => Ok(u),
        Err(Some(e)) => Err(e),
        Err(None) => Err("ModelHub could not build the Hugging Face download URL."@),
    }
}

/// How a transfer of a job's files ended.
#[derive(Debug)]
pub enum TransferOutcome {
    Completed,
    Cancelled,
    /// The transfer failed; the message says why.
    Failed(String),
}

/// What happened in the transfer since the last step.
#[derive(Debug)]
pub enum TransferEvent {
    /// The transfer begins.
    Start,
    /// The request for the current file was answered with this HTTP
    /// status.
    Answered(u16),
    /// The current file's `.part` file is open, and the chunk written last
    /// had this many bytes (0 right after opening it).
    Wrote(u64),
    /// The answer had no more data and the `.part` file was flushed; its
    /// size, when the file's expected size is known.
    Drained(Option<u64>),
    /// The `.part` file was moved to the file's final path.
    Finalized,
    /// An outside step failed; the message says which and why.
    Failed(String),
}

/// What the transfer does next.
#[derive(Debug)]
pub enum TransferAction {
    /// Request file `index` of the job from `url`.
    Request { index: usize, url: String },
    /// Create `part_path` (and its folder) for the answer.
    Receive { index: usize, part_path: String },
    /// Read the next chunk of the answer and write it.
    ReadNext { index: usize },
    /// Move `part_path` to `final_path`, replacing a file there.
    Finalize { index: usize, part_path: String, final_path: String },
    /// The transfer is over; `discard` names a `.part` file to remove.
    End { outcome: TransferOutcome, discard: Option<String> },
}

/// The status and error a job takes when its transfer ends so.
pub open spec fn outcome_status(o: TransferOutcome) -> (DownloadStatus, Option<String>) {
    match o {
        TransferOutcome::Completed => (DownloadStatus::Completed, None),
        TransferOutcome::Cancelled => (DownloadStatus::Cancelled, None),
        TransferOutcome::Failed(e) => (DownloadStatus::Failed, Some(e)),
    }
}

/// `n` is where `o` stands after the action: when the transfer ends, the
/// job takes the outcome's status; otherwise nothing changes.
pub open spec fn settled(n: DownloadManager, o: DownloadManager, id: Seq<char>, r: TransferAction, now: String) -> bool {
    match r {
        TransferAction::End { outcome, .. } => status_set(
            n,
            o,
            id,
            outcome_status(outcome).0,
            outcome_status(outcome).1,
            now,
        ),
        _ => n == o,
    }
}

/// The transfer failed with the message.
pub open spec fn ends_failed(r: TransferAction, message: Seq<char>) -> bool {
    r matches TransferAction::End { outcome: TransferOutcome::Failed(m), discard: None } && m@ == message
}

/// The current file of the transfer: file `index` of the job with the id.
pub open spec fn current_file(m: DownloadManager, id: Seq<char>, index: int) -> Option<DownloadFileProgress> {
    match job_index(m.jobs@, id) {
        Some(j) if 0 <= index < m.jobs@[j].files@.len() => Some(m.jobs@[j].files@[index]),
        _ => None,
    }
}

/// Going on with file `index`: stop when the job is gone, was asked to
/// stop, or has no more files; else request the file.
pub open spec fn advance_spec(m: DownloadManager, id: Seq<char>, index: int, r: TransferAction) -> bool {
    match job_index(m.jobs@, id) {
        None => ends_failed(r, missing_job_message()),
        Some(j) => if is_cancelled_spec(m, id) {
            r == (TransferAction::End { outcome: TransferOutcome::Cancelled, discard: None })
        } else if index >= m.jobs@[j].files@.len() {
            r == (TransferAction::End { outcome: TransferOutcome::Completed, discard: None })
        } else {
            match file_url_result(m.jobs@[j], m.jobs@[j].files@[index]) {
                Ok(u) => r matches TransferAction::Request { index: k, url } && k == index && url@ == u,
                Err(e) => ends_failed(r, e),
            }
        },
    }
}

/// The message for an answer that is not a success.
pub open spec fn http_error_message(status: u16, path: Seq<char>) -> Seq<char> {
    "Hugging Face returned HTTP "@ + decimal(status as nat) + " while downloading "@ + path + "."@
}

/// The message for a file whose size is not the one the hub gave.
pub open spec fn size_mismatch_message(path: Seq<char>, expected: u64, actual: u64) -> Seq<char> {
    "Downloaded size for "@ + path + " did not match Hugging Face metadata. Expected "@ + decimal(
        expected as nat,
    ) + " bytes, got "@ + decimal(actual as nat) + " bytes."@
}

/// Where the current file is staged, or why it cannot be.
pub open spec fn staged_at(m: DownloadManager, id: Seq<char>, f: DownloadFileProgress) -> Result<
    Seq<char>,
    Seq<char>,
> {
    match safe_relative_path_spec(f.path@) {
        Ok(rel) => Ok(join_spec(join_spec(m.root@, id), rel)),
        Err(e) => Err(e),
    }
}

/// One step of a transfer, from the manager `o` to `n` with the action
/// `r`, for the event at file `index` of the job with the id.
pub open spec fn transfer_spec(
    o: DownloadManager,
    n: DownloadManager,
    id: Seq<char>,
    index: int,
    event: TransferEvent,
    now: String,
    r: TransferAction,
) -> bool {
    match event {
        TransferEvent::Start => exists|mid: DownloadManager|
            #[trigger] status_set(mid, o, id, DownloadStatus::Downloading, None, now) && advance_spec(mid, id, 0, r)
                && settled(n, mid, id, r, now),
        TransferEvent::Failed(message) => r == (TransferAction::End {
            outcome: TransferOutcome::Failed(message),
            discard: None,
        }) && settled(n, o, id, r, now),
        _ => match current_file(o, id, index) {
            None => ends_failed(r, missing_job_message()) && settled(n, o, id, r, now),
            Some(f) => match staged_at(o, id, f) {
                Err(e) => ends_failed(r, e) && settled(n, o, id, r, now),
                Ok(fin) => match event {
                    TransferEvent::Answered(status) => settled(n, o, id, r, now) && if 200 <= status <= 299 {
                        r matches TransferAction::Receive { index: k, part_path } && k == index && part_path@
                            == fin + ".part"@
                    } else {
                        ends_failed(r, http_error_message(status, f.path@))
                    },
                    TransferEvent::Wrote(bytes) => exists|mid: DownloadManager|
                        #[trigger] progress_added(mid, o, id, index, bytes, now) && settled(n, mid, id, r, now)
                            && if is_cancelled_spec(mid, id) {
                            r matches TransferAction::End { outcome: TransferOutcome::Cancelled, discard: Some(p) }
                                && p@ == fin + ".part"@
                        } else {
                            r == (TransferAction::ReadNext { index: index as usize })
                        },
                    TransferEvent::Drained(actual) => settled(n, o, id, r, now) && match (f.size_bytes, actual) {
                        (Some(e), Some(a)) if e != a => ends_failed(r, size_mismatch_message(f.path@, e, a)),
                        _ => r matches TransferAction::Finalize { index: k, part_path, final_path } && k == index
                            && part_path@ == fin + ".part"@ && final_path@ == fin,
                    },
                    _ => exists|mid: DownloadManager, p: String|
                        #[trigger] file_finished(mid, o, id, index, p, now) && p@ == fin && advance_spec(
                            mid,
                            id,
                            index + 1,
                            r,
                        ) && settled(n, mid, id, r, now),
                },
            },
        },
    }
}

impl DownloadManager {
    fn current_job(&self, job_id: &str, index: usize) -> (r: Option<usize>)
        ensures
            match r {
                Some(j) => job_index(self.jobs@, job_id@) == Some(j as int) && index < self.jobs@[j as int].files@.len(),
                None => current_file(*self, job_id@, index as int) is None,
            },
    {
        match find_job(&self.jobs, job_id) {
            Some(j) => if index < self.jobs[j].files.len() {
                Some(j)
            } else {
                None
            },
            None => None,
        }
    }

    fn advance(&self, job_id: &str, index: usize) -> (r: TransferAction)
        ensures
            advance_spec(*self, job_id@, index as int, r),
    {
        let j = match find_job(&self.jobs, job_id) {
            Some(j) => j,
            None => {
                return TransferAction::End {
                    outcome: TransferOutcome::Failed("ModelHub could not find that download job.".to_owned()),
                    discard: None,
                };
            },
        };
        if self.is_cancelled(job_id) {
            return TransferAction::End { outcome: TransferOutcome::Cancelled, discard: None };
        }
        if index >= self.jobs[j].files.len() {
            return TransferAction::End { outcome: TransferOutcome::Completed, discard: None };
        }
        let job = &self.jobs[j];
        match build_file_url(job.repo_id.as_str(), job.revision.as_str(), job.files[index].path.as_str()) {
            Ok(url) => TransferAction::Request { index, url },
            Err(e) => TransferAction::End { outcome: TransferOutcome::Failed(e), discard: None },
        }
    }

    fn settle(&mut self, job_id: &str, action: &TransferAction, now: String)
        ensures
            settled(*final(self), *old(self), job_id@, *action, now),
    {
        match action {
            TransferAction::End { outcome, .. } => match outcome {
                TransferOutcome::Completed => {
                    self.set_job_status(job_id, DownloadStatus::Completed, None, now);
                },
                TransferOutcome::Cancelled => {
                    self.set_job_status(job_id, DownloadStatus::Cancelled, None, now);
                },
                TransferOutcome::Failed(e) => {
                    self.set_job_status(job_id, DownloadStatus::Failed, Some(e.clone()), now);
                },
            },
            _ => {},
        }
    }

    /// One step of transferring a job's files: the download as it goes
    /// from request to answer, chunks, size check and final move, for each
    /// file in turn. The step records progress, checks for a request to
    /// stop, and says what to do next; when the transfer ends the job
    /// takes the outcome's status (`Completed`, `Cancelled`, or `Failed`
    /// with the message). `index` is the file the event is about.
    pub fn transfer_step(&mut self, job_id: &str, index: usize, event: TransferEvent, now: String) -> (r:
        TransferAction)
        ensures
            transfer_spec(*old(self), *final(self), job_id@, index as int, event, now, r),
    {
        let ghost o = *self;
        match event {
            TransferEvent::Start => {
                self.set_job_status(job_id, DownloadStatus::Downloading, None, now.clone());
                let ghost mid = *self;
                let action = self.advance(job_id, 0);
                self.settle(job_id, &action, now);
                assert(status_set(mid, o, job_id@, DownloadStatus::Downloading, None, now));
                return action;
            },
            TransferEvent::Failed(message) => {
                let action = TransferAction::End { outcome: TransferOutcome::Failed(message), discard: None };
                self.settle(job_id, &action, now);
                return action;
            },
            _ => {},
        }
        let j = match self.current_job(job_id, index) {
            Some(j) => j,
            None => {
                let action = TransferAction::End {
                    outcome: TransferOutcome::Failed("ModelHub could not find that download job.".to_owned()),
                    discard: None,
                };
                self.settle(job_id, &action, now);
                return action;
            },
        };
        let ghost f = self.jobs@[j as int].files@[index as int];
        assert(current_file(*self, job_id@, index as int) == Some(f));
        let path = self.jobs[j].files[index].path.clone();
        let expected = self.jobs[j].files[index].size_bytes;
        let count = self.jobs[j].files.len();
        let (part, fin) = match self.staging_paths(job_id, path.as_str()) {
            Ok(p) => p,
            Err(e) => {
                let action = TransferAction::End { outcome: TransferOutcome::Failed(e), discard: None };
                self.settle(job_id, &action, now);
                return action;
            },
        };
        match event {
            TransferEvent::Answered(status) => {
                let action = if 200 <= status && status <= 299 {
                    TransferAction::Receive { index, part_path: part }
                } else {
                    let code = decimal_string(status as u64);
                    let head = concat3("Hugging Face returned HTTP ", code.as_str(), " while downloading ");
                    TransferAction::End {
                        outcome: TransferOutcome::Failed(concat3(head.as_str(), path.as_str(), ".")),
                        discard: None,
                    }
                };
                self.settle(job_id, &action, now);
                action
            },
            TransferEvent::Wrote(bytes) => {
                self.add_file_progress(job_id, index, bytes, now.clone());
                let ghost mid = *self;
                let action = if self.is_cancelled(job_id) {
                    TransferAction::End { outcome: TransferOutcome::Cancelled, discard: Some(part) }
                } else {
                    TransferAction::ReadNext { index }
                };
                self.settle(job_id, &action, now);
                assert(progress_added(mid, o, job_id@, index as int, bytes, now));
                action
            },
            TransferEvent::Drained(actual) => {
                let mismatch = match (expected, actual) {
                    (Some(e), Some(a)) => e != a,
                    _ => false,
                };
                let action = if mismatch {
                    let e = expected.unwrap();
                    let a = actual.unwrap();
                    let es = decimal_string(e);
                    let as_ = decimal_string(a);
                    let head = concat3("Downloaded size for ", path.as_str(), " did not match Hugging Face metadata. Expected ");
                    let mid = concat3(head.as_str(), es.as_str(), " bytes, got ");
                    TransferAction::End {
                        outcome: TransferOutcome::Failed(concat3(mid.as_str(), as_.as_str(), " bytes.")),
                        discard: None,
                    }
                } else {
                    TransferAction::Finalize { index, part_path: part, final_path: fin }
                };
                self.settle(job_id, &action, now);
                action
            },
            _ => {
                let ghost p = fin;
                assert(index < count);
                let next = index + 1;
                self.finish_file(job_id, index, fin, now.clone());
                let ghost mid = *self;
                let action = self.advance(job_id, next);
                self.settle(job_id, &action, now);
                assert(file_finished(mid, o, job_id@, index as int, p, now));
                action
            },
        }
    }
}

/// Once a job's id has been asked to stop, the next step that starts the
/// transfer, reports a written chunk, or finishes a file ends the
/// transfer; while the job's file is there, it ends cancelled.
pub proof fn cancelled_transfer_stops(
    o: DownloadManager,
    n: DownloadManager,
    id: Seq<char>,
    index: int,
    event: TransferEvent,
    now: String,
    r: TransferAction,
)
    requires
        transfer_spec(o, n, id, index, event, now, r),
        strs(o.cancelled_jobs@).contains(id),
        event is Start || event is Wrote || event is Finalized,
    ensures
        r is End,
        job_index(o.jobs@, id) is Some && (event is Start || (current_file(o, id, index) is Some && staged_at(
            o,
            id,
            current_file(o, id, index)->0,
        ) is Ok)) ==> r == (TransferAction::End { outcome: TransferOutcome::Cancelled, discard: r->discard }),
{
    match event {
        TransferEvent::Start => {
            let mid = choose|mid: DownloadManager|
                #[trigger] status_set(mid, o, id, DownloadStatus::Downloading, None, now) && advance_spec(
                    mid,
                    id,
                    0,
                    r,
                ) && settled(n, mid, id, r, now);
            if job_index(o.jobs@, id) is Some {
                assert(job_index(mid.jobs@, id) == job_index(o.jobs@, id)) by {
                    lemma_job_index_update(o.jobs@, id, job_index(o.jobs@, id)->0, mid.jobs@);
                }
            }
        },
        TransferEvent::Wrote(bytes) => {
            if let Some(f) = current_file(o, id, index) {
                if staged_at(o, id, f) is Ok {
                    let mid = choose|mid: DownloadManager|
                        #[trigger] progress_added(mid, o, id, index, bytes, now) && settled(n, mid, id, r, now)
                            && if is_cancelled_spec(mid, id) {
                            r matches TransferAction::End { outcome: TransferOutcome::Cancelled, discard: Some(p) }
                                && p@ == staged_at(o, id, f)->Ok_0 + ".part"@
                        } else {
                            r == (TransferAction::ReadNext { index: index as usize })
                        };
                    assert(is_cancelled_spec(mid, id));
                }
            }
        },
        _ => {
            if let Some(f) = current_file(o, id, index) {
                if staged_at(o, id, f) is Ok {
                    let (mid, p) = choose|mid: DownloadManager, p: String|
                        #[trigger] file_finished(mid, o, id, index, p, now) && p@ == staged_at(o, id, f)->Ok_0
                            && advance_spec(mid, id, index + 1, r) && settled(n, mid, id, r, now);
                    let i = job_index(o.jobs@, id)->0;
                    lemma_job_index_update(o.jobs@, id, i, mid.jobs@);
                    assert(is_cancelled_spec(mid, id));
                }
            }
        },
    }
}

/// Replacing a job by one with the same id keeps where the id is found.
proof fn lemma_job_index_update(jobs: Seq<DownloadJob>, id: Seq<char>, i: int, updated: Seq<DownloadJob>)
    requires
        job_index(jobs, id) == Some(i),
        updated.len() == jobs.len(),
        updated[i].id == jobs[i].id,
        forall|k: int| 0 <= k < jobs.len() && k != i ==> updated[k] == jobs[k],
    ensures
        job_index(updated, id) == Some(i),
{
    let c = choose|c: int| first_job(jobs, id, c);
    assert(first_job(jobs, id, c));
    assert(c == i);
    assert(first_job(updated, id, i)) by {
        assert forall|k: int| 0 <= k < i implies (#[trigger] updated[k]).id@ != id by {
            assert(updated[k] == jobs[k]);
        }
    }
    lemma_first_job_unique(updated, id, i);
}

} // verus!
