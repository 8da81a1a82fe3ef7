//! Installing a finished download into the Hugging Face cache layout:
//! which downloads qualify, where each file goes, and when an existing
//! blob may be kept.
use vstd::prelude::*;

use crate::downloads::{safe_relative_path, safe_relative_path_spec};
use crate::models::{DownloadFileProgress, DownloadJob, DownloadStatus, opt_str};
use crate::paths::{join, join_spec};
use crate::scanner::huggingface::{encode_repo_id, encode_repo_id_spec};
use crate::text::{chars_of, concat2, concat3, decimal, decimal_string, trim, trim_str};

verus! {

/// Only a completed download with files can be installed.
pub open spec fn installable_check(job: DownloadJob) -> Result<(), Seq<char>> {
    if job.status != DownloadStatus::Completed {
        Err("Only completed downloads can be installed into the Hugging Face cache."@)
    } else if job.files@.len() == 0 {
        Err("This download has no files to install."@)
    } else {
        Ok(())
    }
}

/// Checks that a download can be installed.
pub fn validate_job_is_installable(job: &DownloadJob) -> (r: Result<(), String>)
    ensures
        match r {
            Ok(()) => installable_check(*job) == Ok::<(), Seq<char>>(()),
            Err(e) => installable_check(*job) == Err::<(), Seq<char>>(e@),
        },
{
    if job.status != DownloadStatus::Completed {
        return Err(
            "Only completed downloads can be installed into the Hugging Face cache.".to_owned(),
        );
    }
    if job.files.len() == 0 {
        return Err("This download has no files to install.".to_owned());
    }
    Ok(())
}

/// A character allowed in a cache path segment.
pub open spec fn segment_char(c: char) -> bool {
    ('a' <= c && c <= 'z') || ('A' <= c && c <= 'Z') || ('0' <= c && c <= '9') || c == '.' || c
        == '-' || c == '_'
}

/// The message for a cache path segment that is refused.
pub open spec fn unsafe_segment_message() -> Seq<char> {
    "ModelHub rejected an unsafe Hugging Face cache path segment."@
}

/// A trimmed cache path segment: not empty, not `.` or `..`, and only ASCII
/// letters, digits, `.`, `-` and `_`.
pub open spec fn safe_segment_spec(value: Seq<char>) -> Option<Seq<char>> {
    let v = trim(value);
    if v.len() == 0 || v == "."@ || v == ".."@ || !(forall|i: int|
        0 <= i < v.len() ==> segment_char(#[trigger] v[i])) {
        None
    } else {
        Some(v)
    }
}

/// The trimmed segment, if it is safe to use as one folder or file name
/// in the cache.
pub fn safe_path_segment(value: &str) -> (r: Result<String, String>)
    ensures
        match r {
            Ok(s) => safe_segment_spec(value@) == Some(s@),
            Err(e) => safe_segment_spec(value@) is None && e@ == unsafe_segment_message(),
        },
{
    let t = trim_str(value);
    let v = chars_of(t.as_str());
    let dot = chars_of(".");
    let dotdot = chars_of("..");
    let mut ok = v.len() > 0 && !crate::text::chars_eq(v.as_slice(), dot.as_slice())
        && !crate::text::chars_eq(v.as_slice(), dotdot.as_slice());
    let mut i: usize = 0;
    while i < v.len()
        invariant
            0 <= i <= v@.len(),
            ok ==> forall|j: int| 0 <= j < i ==> segment_char(#[trigger] v@[j]),
            ok ==> (v@.len() > 0 && v@ != "."@ && v@ != ".."@),
            !ok ==> (v@.len() == 0 || v@ == "."@ || v@ == ".."@ || exists|j: int|
                0 <= j < v@.len() && !segment_char(#[trigger] v@[j])),
        decreases v.len() - i,
    {
        let c = v[i];
        if !(('a' <= c && c <= 'z') || ('A' <= c && c <= 'Z') || ('0' <= c && c <= '9') || c == '.'
            || c == '-' || c == '_') {
            assert(!segment_char(v@[i as int]));
            ok = false;
        }
        i += 1;
    }
    if ok {
        Ok(t)
    } else {
        Err("ModelHub rejected an unsafe Hugging Face cache path segment.".to_owned())
    }
}

/// The name of the ref a revision is recorded under, if it is a simple
/// name.
pub fn safe_ref_name(value: &str) -> (r: Option<String>)
    ensures
        opt_str(r) == safe_segment_spec(value@),
{
    match safe_path_segment(value) {
        Ok(s) => Some(s),
        Err(_) => None,
    }
}

/// Where a download goes in the cache: the repository folder, its blobs
/// folder, the snapshot folder of the commit, and its refs folder.
pub struct CacheLayout {
    pub commit_sha: String,
    pub repo_path: String,
    pub blobs_path: String,
    pub snapshot_path: String,
    pub refs_path: String,
}

/// The layout for a download, or why it cannot be installed: the download
/// must qualify, carry a safe commit SHA, and name a repository that has a
/// cache folder name.
pub open spec fn layout_spec(job: DownloadJob, cache_root: Seq<char>, r: Result<CacheLayout, String>) -> bool {
    match installable_check(job) {
        Err(e) => r matches Err(m) && m@ == e,
        Ok(()) => match job.commit_sha {
            None => r matches Err(m) && m@
                == "ModelHub cannot install this download because Hugging Face did not return a commit SHA."@,
            Some(sha) => match safe_segment_spec(sha@) {
                None => r matches Err(m) && m@ == unsafe_segment_message(),
                Some(c) => match encode_repo_id_spec(job.repo_id@) {
                    None => r matches Err(m) && m@ == "ModelHub could not encode this Hugging Face repo ID."@,
                    Some(dir) => {
                        let repo = join_spec(cache_root, dir);
                        r matches Ok(l) && l.commit_sha@ == c && l.repo_path@ == repo
                            && l.blobs_path@ == join_spec(repo, "blobs"@) && l.snapshot_path@
                            == join_spec(join_spec(repo, "snapshots"@), c) && l.refs_path@
                            == join_spec(repo, "refs"@)
                    },
                },
            },
        },
    }
}

/// Works out where a download goes in the cache under `cache_root`.
pub fn cache_layout(job: &DownloadJob, cache_root: &str) -> (r: Result<CacheLayout, String>)
    ensures
        layout_spec(*job, cache_root@, r),
{
    match validate_job_is_installable(job) {
        Ok(()) => {},
        Err(e) => {
            return Err(e);
        },
    }
    let sha = match &job.commit_sha {
        Some(s) => s,
        None => {
            return Err(
                "ModelHub cannot install this download because Hugging Face did not return a commit SHA.".to_owned(),
            );
        },
    };
    let commit_sha = match safe_path_segment(sha.as_str()) {
        Ok(c) => c,
        Err(e) => {
            return Err(e);
        },
    };
    let dir = match encode_repo_id(job.repo_id.as_str()) {
        Some(d) => d,
        None => {
            return Err("ModelHub could not encode this Hugging Face repo ID.".to_owned());
        },
    };
    let repo_path = join(cache_root, dir.as_str());
    let blobs_path = join(repo_path.as_str(), "blobs");
    let snapshots = join(repo_path.as_str(), "snapshots");
    let snapshot_path = join(snapshots.as_str(), commit_sha.as_str());
    let refs_path = join(repo_path.as_str(), "refs");
    Ok(CacheLayout { commit_sha, repo_path, blobs_path, snapshot_path, refs_path })
}

/// Where a staged file came to lie, or why it cannot be installed.
pub fn staged_path_of(file: &DownloadFileProgress) -> (r: Result<String, String>)
    ensures
        match file.staged_path {
            Some(p) => r matches Ok(s) && s == p,
            None => r matches Err(m) && m@ == file.path@ + " was not staged and cannot be installed."@,
        },
{
    match &file.staged_path {
        Some(p) => Ok(p.clone()),
        None => Err(concat2(file.path.as_str(), " was not staged and cannot be installed.")),
    }
}

/// The blob path and the snapshot path of a file, or why it cannot be
/// installed: it needs a safe blob id and a safe relative path.
pub open spec fn targets_spec(
    file: DownloadFileProgress,
    blobs_path: Seq<char>,
    snapshot_path: Seq<char>,
    r: Result<(String, String), String>,
) -> bool {
    match file.blob_id {
        None => r matches Err(m) && m@ == file.path@
            + " cannot be installed because Hugging Face did not provide a blob ID."@,
        Some(b) => match safe_segment_spec(b@) {
            None => r matches Err(m) && m@ == unsafe_segment_message(),
            Some(blob) => match safe_relative_path_spec(file.path@) {
                Err(e) => r matches Err(m) && m@ == e,
                Ok(rel) => r matches Ok((bp, sp)) && bp@ == join_spec(blobs_path, blob) && sp@
                    == join_spec(snapshot_path, rel),
            },
        },
    }
}

/// Where a file's blob and snapshot entry go.
pub fn file_targets(file: &DownloadFileProgress, blobs_path: &str, snapshot_path: &str) -> (r: Result<
    (String, String),
    String,
>)
    ensures
        targets_spec(*file, blobs_path@, snapshot_path@, r),
{
    let blob = match &file.blob_id {
        None => {
            return Err(
                concat2(
                    file.path.as_str(),
                    " cannot be installed because Hugging Face did not provide a blob ID.",
                ),
            );
        },
        Some(b) => match safe_path_segment(b.as_str()) {
            Ok(s) => s,
            Err(e) => {
                return Err(e);
            },
        },
    };
    let rel = match safe_relative_path(file.path.as_str()) {
        Ok(p) => p,
        Err(e) => {
            return Err(e);
        },
    };
    Ok((join(blobs_path, blob.as_str()), join(snapshot_path, rel.as_str())))
}

/// What to do with a file's blob.
#[derive(Debug, Clone, Copy, PartialEq, Eq, Structural)]
pub enum BlobAction {
    /// A blob of the same size is already there: keep it.
    Keep,
    /// Copy the staged file into place.
    Copy,
}

/// Decides about a blob from the staged file's size, the size the job
/// expected, and the size of a blob already there: a staged file of the
/// wrong size is refused, and an existing blob is kept only when its size
/// matches (it is never overwritten).
pub fn blob_action(
    file_path: &str,
    staged_size: u64,
    expected_size: Option<u64>,
    blob_path: &str,
    existing_size: Option<u64>,
) -> (r: Result<BlobAction, String>)
    ensures
        match expected_size {
            Some(e) if e != staged_size => r matches Err(m) && m@ == "Staged size for "@ + file_path@
                + " changed before install. Expected "@ + decimal(e as nat) + " bytes, got "@
                + decimal(staged_size as nat) + " bytes."@,
            _ => match existing_size {
                Some(x) => if x == staged_size {
                    r == Ok::<BlobAction, String>(BlobAction::Keep)
                } else {
                    r matches Err(m) && m@ == "A different blob already exists at "@ + blob_path@
                        + ". ModelHub will not overwrite it."@
                },
                None => r == Ok::<BlobAction, String>(BlobAction::Copy),
            },
        },
{
    match expected_size {
        Some(e) => {
            if e != staged_size {
                let head = concat3("Staged size for ", file_path, " changed before install. Expected ");
                let es = decimal_string(e);
                let ss = decimal_string(staged_size);
                let mid = concat3(head.as_str(), es.as_str(), " bytes, got ");
                return Err(concat3(mid.as_str(), ss.as_str(), " bytes."));
            }
        },
        None => {},
    }
    match existing_size {
        Some(x) => if x == staged_size {
            Ok(BlobAction::Keep)
        } else {
            Err(
                concat3(
                    "A different blob already exists at ",
                    blob_path,
                    ". ModelHub will not overwrite it.",
                ),
            )
        },
        None => Ok(BlobAction::Copy),
    }
}

/// The ref file a revision is recorded in, or the warning that it was
/// skipped because the revision is not a simple name.
pub fn ref_target(refs_path: &str, revision: &str) -> (r: Result<String, String>)
    ensures
        match safe_segment_spec(revision@) {
            Some(name) => r matches Ok(p) && p@ == join_spec(refs_path@, name),
            None => r matches Err(w) && w@ == "Skipped refs entry for revision "@ + revision@
                + "; only simple revision names are supported."@,
        },
{
    match safe_ref_name(revision) {
        Some(name) => Ok(join(refs_path, name.as_str())),
        None => Err(
            concat3(
                "Skipped refs entry for revision ",
                revision,
                "; only simple revision names are supported.",
            ),
        ),
    }
}

/// The warning given when a snapshot entry could not be a symbolic link.
pub fn symlink_fallback_warning(file_path: &str, error: &str) -> (r: String)
    ensures
        r@ == "Could not create snapshot symlink for "@ + file_path@
            + "; copied the file instead. "@ + error@,
{
    let head = concat3("Could not create snapshot symlink for ", file_path, "; copied the file instead. ");
    concat2(head.as_str(), error)
}

/// Checks that the staged file of a download file is there as a regular
/// file (`staged_is_file` says what the file system found).
pub fn staged_file_check(staged_path: &str, file_path: &str, staged_is_file: bool) -> (r: Result<(), String>)
    ensures
        staged_is_file ==> r is Ok,
        !staged_is_file ==> (r matches Err(m) && m@ == "ModelHub could not find staged file "@
            + staged_path@ + " for "@ + file_path@ + "."@),
{
    if staged_is_file {
        Ok(())
    } else {
        let head = concat3("ModelHub could not find staged file ", staged_path, " for ");
        Err(concat3(head.as_str(), file_path, "."))
    }
}

/// What to do with the place of a snapshot entry before it is written.
#[derive(Debug, Clone, Copy, PartialEq, Eq, Structural)]
pub enum EntryPlace {
    /// Nothing is there: write the entry.
    Free,
    /// A file or link is there: remove it, then write the entry.
    ReplaceFile,
}

/// Decides about the place of a snapshot entry from what is there
/// (`None` when nothing is, else whether it is a folder): a file is
/// replaced, a folder is never replaced.
pub fn entry_place(snapshot_file_path: &str, existing_is_dir: Option<bool>) -> (r: Result<EntryPlace, String>)
    ensures
        match existing_is_dir {
            None => r == Ok::<EntryPlace, String>(EntryPlace::Free),
            Some(false) => r == Ok::<EntryPlace, String>(EntryPlace::ReplaceFile),
            Some(true) => r matches Err(m) && m@ == "ModelHub will not replace existing snapshot folder "@
                + snapshot_file_path@ + "."@,
        },
{
    match existing_is_dir {
        None => Ok(EntryPlace::Free),
        Some(false) => Ok(EntryPlace::ReplaceFile),
        Some(true) => Err(concat3("ModelHub will not replace existing snapshot folder ", snapshot_file_path, ".")),
    }
}

/// The next step of writing a snapshot entry.
#[derive(Debug)]
pub enum EntryStep {
    /// Link the entry to its blob.
    Link,
    /// Copy the blob into place, after recording the warning, if any.
    Copy { warning: Option<String> },
    /// The entry is a link to its blob.
    Linked,
}

/// How a snapshot entry is written: a link when links are enabled, else a
/// copy; a link that fails falls back to a copy with a warning.
/// `link_result` is the outcome of the link attempt, once made.
pub fn entry_step(enable_symlink_attempt: bool, link_result: Option<Result<(), String>>, file_path: &str) -> (r:
    EntryStep)
    ensures
        match link_result {
            None => if enable_symlink_attempt {
                r is Link
            } else {
                r matches EntryStep::Copy { warning: None }
            },
            Some(Ok(())) => r is Linked,
            Some(Err(e)) => r matches EntryStep::Copy { warning: Some(w) } && w@
                == "Could not create snapshot symlink for "@ + file_path@ + "; copied the file instead. "@
                + e@,
        },
{
    match link_result {
        None => if enable_symlink_attempt {
            EntryStep::Link
        } else {
            EntryStep::Copy { warning: None }
        },
        Some(Ok(())) => EntryStep::Linked,
        Some(Err(e)) => EntryStep::Copy { warning: Some(symlink_fallback_warning(file_path, e.as_str())) },
    }
}

} // verus!
