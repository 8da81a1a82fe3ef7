use modelhub_windows::downloads::{
    build_file_url, safe_relative_path, sum_known_file_sizes, trimmed_non_empty,
    validate_start_input, DownloadManager, TransferAction, TransferEvent, TransferOutcome,
};
use modelhub_windows::models::{
    DownloadDestination, DownloadStatus, HfModelFile, ModelFormat, StartDownloadInput,
};

fn hf_file(path: &str, size_bytes: Option<u64>) -> HfModelFile {
    HfModelFile {
        path: path.to_string(),
        size_bytes,
        format: ModelFormat::Unknown,
        extension: None,
        lfs: false,
        oid: None,
        blob_id: None,
        likely_default: false,
    }
}

fn input(files: Vec<HfModelFile>) -> StartDownloadInput {
    StartDownloadInput {
        repo_id: "Qwen/Qwen3-4B".to_string(),
        revision: None,
        commit_sha: None,
        files,
        destination: DownloadDestination::Staging,
    }
}

#[test]
fn rejects_unsafe_download_paths() {
    assert!(safe_relative_path("model.gguf").is_ok());
    assert!(safe_relative_path("nested/model.gguf").is_ok());
    assert!(safe_relative_path("../secret.txt").is_err());
    assert!(safe_relative_path("C:/secret.txt").is_err());
}

#[test]
fn validates_start_input_requires_files_and_repo() {
    let mut input = input(vec![hf_file("config.json", Some(12))]);

    assert!(validate_start_input(&input).is_ok());

    input.files.clear();
    assert!(validate_start_input(&input).is_err());

    input.files.push(hf_file("../config.json", Some(12)));
    assert!(validate_start_input(&input).is_err());
}

#[test]
fn sums_file_sizes_only_when_all_are_known() {
    assert_eq!(
        sum_known_file_sizes(&[hf_file("a", Some(5)), hf_file("b", Some(7))]),
        Some(12)
    );
    assert_eq!(
        sum_known_file_sizes(&[hf_file("a", Some(5)), hf_file("b", None)]),
        None
    );
}

#[test]
fn safe_paths_are_normalized_and_errors_are_named() {
    assert_eq!(safe_relative_path("nested\\model.gguf").unwrap(), "nested\\model.gguf");
    assert_eq!(safe_relative_path(" a//b ").unwrap(), "a\\b");
    assert!(safe_relative_path("./a").is_err());
    assert!(safe_relative_path("").is_err());
    assert!(safe_relative_path("/etc/passwd").is_err());
    assert_eq!(trimmed_non_empty("  main "), Some("main".to_string()));
    assert_eq!(trimmed_non_empty("   "), None);
}

fn manager() -> DownloadManager {
    let (manager, changed) = DownloadManager::new(
        "C:\\downloads".to_string(),
        "C:\\downloads\\jobs.json".to_string(),
        Vec::new(),
        "1".to_string(),
    );
    assert!(!changed);
    manager
}

#[test]
fn started_job_is_queued_with_its_files() {
    let mut manager = manager();
    let job = manager
        .start_download(
            input(vec![hf_file("config.json", Some(12)), hf_file("model.gguf", Some(30))]),
            "job-1".to_string(),
            "100".to_string(),
        )
        .expect("job should start");

    assert_eq!(job.id, "job-1");
    assert_eq!(job.revision, "main");
    assert_eq!(job.status, DownloadStatus::Queued);
    assert_eq!(job.total_bytes, Some(42));
    assert_eq!(job.downloaded_bytes, 0);
    assert_eq!(job.files.len(), 2);
    assert_eq!(manager.list_jobs().len(), 1);

    let refused = manager.start_download(input(Vec::new()), "job-2".to_string(), "101".to_string());
    assert!(refused.is_err());
    assert_eq!(manager.list_jobs().len(), 1);
}

#[test]
fn cancelled_job_stays_cancelled() {
    let mut manager = manager();
    manager
        .start_download(input(vec![hf_file("a.json", Some(1))]), "job-1".to_string(), "1".to_string())
        .expect("job should start");

    let cancelled = manager.cancel_download("job-1", "2".to_string()).expect("known job");
    assert_eq!(cancelled.map(|job| job.status), Some(DownloadStatus::Cancelled));
    assert!(manager.is_cancelled("job-1"));
    assert_eq!(manager.job_snapshot("job-1").unwrap().updated_at, "2");

    assert!(manager.cancel_download("missing", "3".to_string()).is_err());
    assert!(manager.is_cancelled("missing"));
    assert!(manager.unsupported_resume_control().is_err());
}

#[test]
fn restart_fails_jobs_that_were_still_running() {
    let mut first = manager();
    first
        .start_download(input(vec![hf_file("a.json", Some(4))]), "job-1".to_string(), "1".to_string())
        .expect("job should start");
    first.set_job_status("job-1", DownloadStatus::Downloading, None, "2".to_string());
    let saved = first.list_jobs();

    let (restarted, changed) =
        DownloadManager::new("r".to_string(), "m".to_string(), saved, "9".to_string());
    assert!(changed);
    let job = restarted.job_snapshot("job-1").unwrap();
    assert_eq!(job.status, DownloadStatus::Failed);
    assert!(job.error.is_some());
    assert_eq!(job.updated_at, "9");
}

#[test]
fn progress_is_added_and_files_are_finished() {
    let mut manager = manager();
    manager
        .start_download(input(vec![hf_file("a.json", Some(10))]), "job-1".to_string(), "1".to_string())
        .expect("job should start");

    let job = manager.add_file_progress("job-1", 0, 4, "2".to_string()).unwrap();
    assert_eq!(job.downloaded_bytes, 4);
    assert_eq!(job.files[0].downloaded_bytes, 4);
    let job = manager.add_file_progress("job-1", 0, u64::MAX, "3".to_string()).unwrap();
    assert_eq!(job.downloaded_bytes, u64::MAX);

    let job = manager
        .finish_file("job-1", 0, "C:\\downloads\\job-1\\a.json".to_string(), "4".to_string())
        .unwrap();
    assert_eq!(job.files[0].staged_path.as_deref(), Some("C:\\downloads\\job-1\\a.json"));
    assert!(manager.add_file_progress("nope", 0, 1, "5".to_string()).is_none());
}

#[test]
fn staging_paths_lie_under_the_job_folder() {
    let manager = manager();
    let (part, fin) = manager.staging_paths("job-1", "nested/model.gguf").unwrap();
    assert_eq!(fin, "C:\\downloads\\job-1\\nested\\model.gguf");
    assert_eq!(part, "C:\\downloads\\job-1\\nested\\model.gguf.part");
    assert!(manager.staging_paths("job-1", "../x").is_err());
}

#[test]
fn file_url_escapes_each_segment() {
    let url = build_file_url("Qwen/Qwen3-4B", "main", "sub dir/model.gguf").unwrap();
    assert_eq!(
        url,
        "https://huggingface.co/Qwen/Qwen3-4B/resolve/main/sub%20dir/model.gguf"
    );
}

fn started(files: Vec<HfModelFile>) -> DownloadManager {
    let mut manager = manager();
    manager
        .start_download(input(files), "job-1".to_string(), "1".to_string())
        .expect("job should start");
    manager
}

#[test]
fn transfer_walks_each_file_to_completion() {
    let mut m = started(vec![hf_file("config.json", Some(3)), hf_file("model.gguf", None)]);

    let action = m.transfer_step("job-1", 0, TransferEvent::Start, "2".to_string());
    let TransferAction::Request { index: 0, url } = action else { panic!("first file is requested") };
    assert_eq!(url, "https://huggingface.co/Qwen/Qwen3-4B/resolve/main/config.json");
    assert_eq!(m.job_snapshot("job-1").unwrap().status, DownloadStatus::Downloading);

    let action = m.transfer_step("job-1", 0, TransferEvent::Answered(200), "3".to_string());
    let TransferAction::Receive { index: 0, part_path } = action else { panic!("answer is received") };
    assert_eq!(part_path, "C:\\downloads\\job-1\\config.json.part");

    let action = m.transfer_step("job-1", 0, TransferEvent::Wrote(0), "4".to_string());
    assert!(matches!(action, TransferAction::ReadNext { index: 0 }));
    let action = m.transfer_step("job-1", 0, TransferEvent::Wrote(3), "5".to_string());
    assert!(matches!(action, TransferAction::ReadNext { index: 0 }));
    assert_eq!(m.job_snapshot("job-1").unwrap().downloaded_bytes, 3);

    let action = m.transfer_step("job-1", 0, TransferEvent::Drained(Some(3)), "6".to_string());
    let TransferAction::Finalize { index: 0, part_path, final_path } = action else {
        panic!("file is finalized")
    };
    assert_eq!(final_path, "C:\\downloads\\job-1\\config.json");
    assert_eq!(part_path, "C:\\downloads\\job-1\\config.json.part");

    let action = m.transfer_step("job-1", 0, TransferEvent::Finalized, "7".to_string());
    assert!(matches!(action, TransferAction::Request { index: 1, .. }));
    let job = m.job_snapshot("job-1").unwrap();
    assert_eq!(job.files[0].staged_path.as_deref(), Some("C:\\downloads\\job-1\\config.json"));

    m.transfer_step("job-1", 1, TransferEvent::Answered(200), "8".to_string());
    m.transfer_step("job-1", 1, TransferEvent::Wrote(0), "8".to_string());
    let action = m.transfer_step("job-1", 1, TransferEvent::Drained(None), "9".to_string());
    assert!(matches!(action, TransferAction::Finalize { index: 1, .. }));
    let action = m.transfer_step("job-1", 1, TransferEvent::Finalized, "10".to_string());
    assert!(matches!(
        action,
        TransferAction::End { outcome: TransferOutcome::Completed, discard: None }
    ));
    let job = m.job_snapshot("job-1").unwrap();
    assert_eq!(job.status, DownloadStatus::Completed);
    assert_eq!(job.updated_at, "10");
}

#[test]
fn transfer_failures_mark_the_job_failed() {
    let mut m = started(vec![hf_file("config.json", Some(3))]);
    m.transfer_step("job-1", 0, TransferEvent::Start, "2".to_string());
    let action = m.transfer_step("job-1", 0, TransferEvent::Answered(404), "3".to_string());
    let TransferAction::End { outcome: TransferOutcome::Failed(message), discard: None } = action else {
        panic!("a failed answer ends the transfer")
    };
    assert_eq!(message, "Hugging Face returned HTTP 404 while downloading config.json.");
    let job = m.job_snapshot("job-1").unwrap();
    assert_eq!(job.status, DownloadStatus::Failed);
    assert_eq!(job.error.as_deref(), Some(message.as_str()));

    let mut m = started(vec![hf_file("config.json", Some(3))]);
    m.transfer_step("job-1", 0, TransferEvent::Start, "2".to_string());
    let action = m.transfer_step("job-1", 0, TransferEvent::Drained(Some(2)), "3".to_string());
    let TransferAction::End { outcome: TransferOutcome::Failed(message), .. } = action else {
        panic!("a short file ends the transfer")
    };
    assert_eq!(
        message,
        "Downloaded size for config.json did not match Hugging Face metadata. Expected 3 bytes, got 2 bytes."
    );

    let action = m.transfer_step("job-1", 0, TransferEvent::Failed("Could not read data.".to_string()), "4".to_string());
    assert!(matches!(action, TransferAction::End { outcome: TransferOutcome::Failed(_), .. }));
}

#[test]
fn cancelled_transfer_discards_the_partial_file() {
    let mut m = started(vec![hf_file("config.json", Some(3))]);
    m.transfer_step("job-1", 0, TransferEvent::Start, "2".to_string());
    m.transfer_step("job-1", 0, TransferEvent::Answered(200), "3".to_string());
    m.cancel_download("job-1", "4".to_string()).expect("known job");

    let action = m.transfer_step("job-1", 0, TransferEvent::Wrote(1), "5".to_string());
    let TransferAction::End { outcome: TransferOutcome::Cancelled, discard: Some(part) } = action else {
        panic!("a cancelled transfer stops")
    };
    assert_eq!(part, "C:\\downloads\\job-1\\config.json.part");
    assert_eq!(m.job_snapshot("job-1").unwrap().status, DownloadStatus::Cancelled);

    let mut m = started(vec![hf_file("config.json", Some(3))]);
    m.cancel_download("job-1", "2".to_string()).expect("known job");
    let action = m.transfer_step("job-1", 0, TransferEvent::Start, "3".to_string());
    assert!(matches!(action, TransferAction::End { outcome: TransferOutcome::Cancelled, discard: None }));

    let action = m.transfer_step("other", 0, TransferEvent::Start, "3".to_string());
    assert!(matches!(action, TransferAction::End { outcome: TransferOutcome::Failed(_), .. }));
}

#[test]
fn second_restart_keeps_every_job() {
    let mut first = manager();
    first
        .start_download(input(vec![hf_file("a.json", Some(4))]), "job-1".to_string(), "1".to_string())
        .expect("job should start");
    let (restarted, changed) =
        DownloadManager::new("r".to_string(), "m".to_string(), first.list_jobs(), "5".to_string());
    assert!(changed);
    let (again, changed_again) =
        DownloadManager::new("r".to_string(), "m".to_string(), restarted.list_jobs(), "9".to_string());
    assert!(!changed_again);
    assert_eq!(again.list_jobs(), restarted.list_jobs());
    assert_eq!(again.job_snapshot("job-1").unwrap().updated_at, "5");
}
