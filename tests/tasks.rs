use youtube_downloader::registry::{TaskNotice, TaskRegistry};
use youtube_downloader::task::{check_url, download_args, metadata_failure, output_template, DownloadRun, RunAction, RunEvent};
use youtube_downloader::{AppError, DownloadTask, TaskStatus};
use std::collections::HashMap;

#[test]
fn start_then_cancel_kills_and_second_cancel_fails() {
    let mut registry: TaskRegistry<u32> = TaskRegistry::new();
    assert!(registry.start("t1".to_string(), 41).is_ok());
    assert_eq!(registry.cancel("t1").unwrap(), 41);
    match registry.cancel("t1") {
        Err(AppError::TaskNotFound(id)) => assert_eq!(id, "t1"),
        _ => panic!("expected TaskNotFound"),
    }
}

#[test]
fn a_live_task_id_is_refused() {
    let mut registry: TaskRegistry<u32> = TaskRegistry::new();
    registry.start("a".to_string(), 1).unwrap();
    match registry.start("a".to_string(), 2) {
        Err((AppError::TaskAlreadyRunning(id), h)) => {
            assert_eq!(id, "a");
            assert_eq!(h, 2);
        }
        _ => panic!("expected a refusal"),
    }
    assert_eq!(registry.len(), 1);
    registry.start("b".to_string(), 3).unwrap();
    assert!(registry.contains("a") && registry.contains("b"));
    assert_eq!(registry.take("a"), Some(1));
    assert!(!registry.contains("a"));
    assert_eq!(registry.len(), 1);
}

#[test]
fn completed_task_reports_path_and_size() {
    let mut registry: TaskRegistry<u32> = TaskRegistry::new();
    registry.start("abc".to_string(), 7).unwrap();
    let mut run = DownloadRun::new("abc".to_string(), "https://x.test/v".to_string(), "/tmp/v.mp4".to_string());
    let outcome = match run.step(RunEvent::Exited(true)) {
        RunAction::Finished(o) => o,
        _ => panic!("the run should be over"),
    };
    match registry.finish("abc", outcome, Some(2048)) {
        Some(TaskNotice::Complete { task_id, file_path, file_size }) => {
            assert_eq!(task_id, "abc");
            assert_eq!(file_path, "/tmp/v.mp4");
            assert_eq!(file_size, 2048);
        }
        _ => panic!("expected a completion"),
    }
    assert!(!registry.contains("abc"));
    assert!(matches!(registry.cancel("abc"), Err(AppError::TaskNotFound(_))));
}

#[test]
fn unreadable_size_is_zero_and_cancelled_task_gives_no_notice() {
    let mut registry: TaskRegistry<u32> = TaskRegistry::new();
    registry.start("a".to_string(), 1).unwrap();
    match registry.finish("a", Ok("/p".to_string()), None) {
        Some(TaskNotice::Complete { file_size, .. }) => assert_eq!(file_size, 0),
        _ => panic!("expected a completion"),
    }
    registry.start("b".to_string(), 2).unwrap();
    registry.cancel("b").unwrap();
    assert!(registry.finish("b", Err(AppError::YtdlpError("killed".to_string())), None).is_none());
}

#[test]
fn failed_task_reports_user_message() {
    let mut registry: TaskRegistry<u32> = TaskRegistry::new();
    registry.start("f".to_string(), 1).unwrap();
    let e = AppError::YtdlpError("x".to_string());
    let expected = e.user_message();
    match registry.finish("f", Err(e), Some(1)) {
        Some(TaskNotice::Failed { task_id, message }) => {
            assert_eq!(task_id, "f");
            assert_eq!(message, expected);
        }
        _ => panic!("expected a failure"),
    }
}

#[test]
fn run_forwards_progress_and_keeps_diagnostics() {
    let mut run = DownloadRun::new("t".to_string(), "https://u".to_string(), "/d".to_string());
    match run.step(RunEvent::Output("[download]  45.2% of 280.00MiB at 2.50MiB/s ETA 00:52".to_string())) {
        RunAction::Progress(p) => {
            assert_eq!(p.task_id, "t");
            assert_eq!(p.percent, "45.2");
        }
        _ => panic!("expected progress"),
    }
    assert!(matches!(run.step(RunEvent::Output("[info] hello".to_string())), RunAction::Nothing));
    assert!(matches!(run.step(RunEvent::Diagnostic("first".to_string())), RunAction::Nothing));
    assert!(matches!(run.step(RunEvent::Diagnostic("second".to_string())), RunAction::Nothing));
    match run.step(RunEvent::Exited(false)) {
        RunAction::Finished(Err(AppError::YtdlpError(m))) => assert!(m.ends_with("first\nsecond\n")),
        _ => panic!("expected a tool error"),
    }
    assert!(matches!(run.step(RunEvent::Exited(true)), RunAction::Nothing));
}

#[test]
fn unsupported_site_is_reclassified() {
    let mut run = DownloadRun::new("t".to_string(), "https://u".to_string(), "/d".to_string());
    run.step(RunEvent::Diagnostic("ERROR: Unsupported URL: https://u".to_string()));
    match run.step(RunEvent::Exited(false)) {
        RunAction::Finished(Err(AppError::UnsupportedSite(u))) => assert_eq!(u, "https://u"),
        _ => panic!("expected UnsupportedSite"),
    }
    assert!(matches!(metadata_failure("https://u", "site not supported"), AppError::UnsupportedSite(_)));
    match metadata_failure("https://u", "boom") {
        AppError::YtdlpError(m) => assert_eq!(m, "boom"),
        _ => panic!("expected a tool error"),
    }
}

#[test]
fn command_line_of_a_download() {
    assert_eq!(output_template("/downloads/"), "/downloads/%(title).200B.%(ext)s");
    assert_eq!(output_template("C:\\Videos\\"), "C:\\Videos\\%(title).200B.%(ext)s");
    assert_eq!(output_template("/home/u/Downloads"), "/home/u/Downloads/%(title).200B.%(ext)s");
    let args = download_args("137", "T", "https://u");
    assert_eq!(
        args,
        vec!["--format", "137", "--output", "T", "--no-part", "--force-overwrites", "--restrict-filenames", "--newline", "--no-playlist", "https://u"]
    );
    assert!(check_url("https://youtube.com/watch?v=1").is_ok());
    assert!(check_url("http://a").is_ok());
    assert!(matches!(check_url("ftp://a"), Err(AppError::InvalidUrl(_))));
}

#[test]
fn test_task_status_equality() {
    assert_eq!(TaskStatus::Completed, TaskStatus::Completed);
    assert_ne!(TaskStatus::Completed, TaskStatus::Failed);
    assert_ne!(TaskStatus::Downloading, TaskStatus::Completed);
}

fn task(id: &str, title: &str, file: &str, status: TaskStatus) -> DownloadTask {
    DownloadTask {
        id: id.to_string(),
        url: "https://youtube.com/watch?v=test".to_string(),
        title: title.to_string(),
        format_id: "137".to_string(),
        save_path: file.to_string(),
        status,
        created_at: 1234567890,
    }
}

#[test]
fn test_incomplete_task_not_in_history() {
    let task = task("task-incomplete", "Incomplete Video", "/downloads/incomplete.mp4", TaskStatus::Downloading);
    let history_store: HashMap<String, String> = HashMap::new();
    assert!(!history_store.contains_key(&task.id));
}

#[test]
fn test_failed_task_not_in_history() {
    let task = task("task-failed", "Failed Video", "/downloads/failed.mp4", TaskStatus::Failed);
    let history_store: HashMap<String, String> = HashMap::new();
    assert!(!history_store.contains_key(&task.id));
}

#[test]
fn test_cancelled_task_not_in_history() {
    let task = task("task-cancelled", "Cancelled Video", "/downloads/cancelled.mp4", TaskStatus::Cancelled);
    let history_store: HashMap<String, String> = HashMap::new();
    assert!(!history_store.contains_key(&task.id));
}
