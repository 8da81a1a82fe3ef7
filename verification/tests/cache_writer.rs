use modelhub_windows::hf::cache_writer::{
    blob_action, cache_layout, entry_place, entry_step, file_targets, ref_target,
    safe_path_segment, staged_file_check, staged_path_of, symlink_fallback_warning,
    validate_job_is_installable, BlobAction, EntryPlace, EntryStep,
};
use modelhub_windows::models::{
    DownloadDestination, DownloadFileProgress, DownloadJob, DownloadStatus,
};

fn completed_job() -> DownloadJob {
    DownloadJob {
        id: "job-1".to_string(),
        repo_id: "Qwen/Qwen3-4B".to_string(),
        revision: "main".to_string(),
        commit_sha: Some("abc123".to_string()),
        destination: DownloadDestination::Staging,
        status: DownloadStatus::Completed,
        files: vec![DownloadFileProgress {
            path: "nested/config.json".to_string(),
            size_bytes: Some(5),
            downloaded_bytes: 5,
            staged_path: Some("C:\\staging\\config.json".to_string()),
            blob_id: Some("blob-a".to_string()),
            error: None,
        }],
        total_bytes: Some(5),
        downloaded_bytes: 5,
        error: None,
        installed_at: None,
        cache_path: None,
        snapshot_path: None,
        install_error: None,
        install_warnings: Vec::new(),
        created_at: "1".to_string(),
        updated_at: "2".to_string(),
    }
}

#[test]
fn installs_completed_download_into_hf_cache_layout() {
    let job = completed_job();
    let layout = cache_layout(&job, "C:\\hub").expect("layout");
    assert_eq!(layout.repo_path, "C:\\hub\\models--Qwen--Qwen3-4B");
    assert_eq!(layout.blobs_path, "C:\\hub\\models--Qwen--Qwen3-4B\\blobs");
    assert_eq!(layout.snapshot_path, "C:\\hub\\models--Qwen--Qwen3-4B\\snapshots\\abc123");
    assert_eq!(layout.refs_path, "C:\\hub\\models--Qwen--Qwen3-4B\\refs");

    let (blob, snapshot) =
        file_targets(&job.files[0], &layout.blobs_path, &layout.snapshot_path).expect("targets");
    assert_eq!(blob, "C:\\hub\\models--Qwen--Qwen3-4B\\blobs\\blob-a");
    assert_eq!(
        snapshot,
        "C:\\hub\\models--Qwen--Qwen3-4B\\snapshots\\abc123\\nested\\config.json"
    );
    assert_eq!(staged_path_of(&job.files[0]).unwrap(), "C:\\staging\\config.json");
    assert_eq!(
        ref_target(&layout.refs_path, "main").unwrap(),
        "C:\\hub\\models--Qwen--Qwen3-4B\\refs\\main"
    );
    assert_eq!(staged_file_check("C:\\staging\\config.json", "nested/config.json", true), Ok(()));
    assert!(matches!(
        entry_step(false, None, "nested/config.json"),
        EntryStep::Copy { warning: None }
    ));
}

#[test]
fn refuses_missing_commit_sha() {
    let mut job = completed_job();
    job.commit_sha = None;
    let error = cache_layout(&job, "C:\\hub").err().expect("install should fail");
    assert!(error.contains("commit SHA"));
}

#[test]
fn refuses_unsafe_file_paths() {
    let mut job = completed_job();
    job.files[0].path = "../config.json".to_string();
    let error = file_targets(&job.files[0], "b", "s").expect_err("install should fail");
    assert!(error.contains("unsafe"));
}

#[test]
fn refuses_missing_blob_id() {
    let mut job = completed_job();
    job.files[0].blob_id = None;
    let error = file_targets(&job.files[0], "b", "s").expect_err("install should fail");
    assert!(error.contains("blob ID"));
}

#[test]
fn refuses_to_overwrite_mismatched_existing_blob() {
    let error = blob_action("config.json", 5, Some(5), "C:\\blobs\\blob-a", Some(9))
        .expect_err("install should fail");
    assert!(error.contains("will not overwrite"));
    assert_eq!(blob_action("config.json", 5, Some(5), "p", Some(5)), Ok(BlobAction::Keep));
    assert_eq!(blob_action("config.json", 5, None, "p", None), Ok(BlobAction::Copy));
    assert_eq!(
        blob_action("config.json", 4, Some(5), "p", None),
        Err("Staged size for config.json changed before install. Expected 5 bytes, got 4 bytes."
            .to_string())
    );
}

#[test]
fn only_completed_downloads_with_files_qualify() {
    let mut job = completed_job();
    assert!(validate_job_is_installable(&job).is_ok());
    job.status = DownloadStatus::Failed;
    assert!(validate_job_is_installable(&job).is_err());
    job.status = DownloadStatus::Completed;
    job.files.clear();
    assert_eq!(
        validate_job_is_installable(&job),
        Err("This download has no files to install.".to_string())
    );
}

#[test]
fn segments_and_refs_are_checked() {
    assert_eq!(safe_path_segment(" abc-1.2_x ").unwrap(), "abc-1.2_x");
    assert!(safe_path_segment("..").is_err());
    assert!(safe_path_segment("a/b").is_err());
    assert!(safe_path_segment("").is_err());
    assert_eq!(
        ref_target("r", "refs/pr/1").unwrap_err(),
        "Skipped refs entry for revision refs/pr/1; only simple revision names are supported."
    );
    assert_eq!(
        symlink_fallback_warning("a.json", "denied"),
        "Could not create snapshot symlink for a.json; copied the file instead. denied"
    );
}

#[test]
fn missing_staged_file_is_refused() {
    assert_eq!(
        staged_file_check("C:\\staging\\a.bin", "a.bin", false),
        Err("ModelHub could not find staged file C:\\staging\\a.bin for a.bin.".to_string())
    );
}

#[test]
fn existing_snapshot_folder_is_never_replaced() {
    assert_eq!(entry_place("s\\a.json", None), Ok(EntryPlace::Free));
    assert_eq!(entry_place("s\\a.json", Some(false)), Ok(EntryPlace::ReplaceFile));
    assert_eq!(
        entry_place("s\\a.json", Some(true)),
        Err("ModelHub will not replace existing snapshot folder s\\a.json.".to_string())
    );
}

#[test]
fn failed_snapshot_link_falls_back_to_a_copy() {
    assert!(matches!(entry_step(true, None, "a.json"), EntryStep::Link));
    assert!(matches!(entry_step(true, Some(Ok(())), "a.json"), EntryStep::Linked));
    match entry_step(true, Some(Err("denied".to_string())), "a.json") {
        EntryStep::Copy { warning: Some(warning) } => assert_eq!(
            warning,
            "Could not create snapshot symlink for a.json; copied the file instead. denied"
        ),
        _ => panic!("a failed link is copied"),
    }
}
