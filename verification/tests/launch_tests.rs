use vsrecent::launch::{is_code_window, launch_arguments, launch_result, window_needle};
use vsrecent::recent::{
    error_message, open_failure_message, read_recent_json, recent_history_query, sidecar_suffixes,
    start_recent_read, ReadEvent, ReadStep, RecentRead,
};

#[test]
fn launch_command_lines() {
    assert_eq!(
        launch_arguments("file:///c%3A/x", false),
        "--folder-uri \"file:///c%3A/x\""
    );
    assert_eq!(
        launch_arguments("file:///c%3A/x", true),
        "--new-window --folder-uri \"file:///c%3A/x\""
    );
}

#[test]
fn launch_outcomes() {
    assert_eq!(launch_result(42), Ok(()));
    assert_eq!(launch_result(33), Ok(()));
    assert_eq!(
        launch_result(2),
        Err("could not start VS Code (ShellExecute error 2)".to_string())
    );
    assert_eq!(
        launch_result(-5),
        Err("could not start VS Code (ShellExecute error -5)".to_string())
    );
}

#[test]
fn hidden_window_needles() {
    assert_eq!(window_needle("file:///c%3A/code/My%20App/"), Some("my app".to_string()));
    assert_eq!(window_needle("vscode-remote://wsl%2BUbuntu/home/me/Proj"), Some("proj".to_string()));
    assert_eq!(window_needle("///"), None);
    assert_eq!(window_needle(""), None);
    assert!(is_code_window("proj - Visual Studio Code", "proj"));
    assert!(is_code_window("main.rs - PROJ - Visual Studio Code", "proj"));
    assert!(!is_code_window("proj - Notepad", "proj"));
    assert!(!is_code_window("other - Visual Studio Code", "proj"));
}

fn outcome(step: &ReadStep) -> Option<Result<Option<String>, String>> {
    match step {
        ReadStep::Done(r) => Some(r.clone()),
        _ => None,
    }
}

#[test]
fn live_read_success_needs_no_snapshot() {
    let (state, step) = start_recent_read();
    assert!(matches!(step, ReadStep::ReadLive));
    let (_, step) = read_recent_json(state, ReadEvent::Queried(Ok(Some("{}".to_string()))));
    assert_eq!(outcome(&step), Some(Ok(Some("{}".to_string()))));
}

#[test]
fn failed_live_read_falls_back_to_snapshot() {
    let (state, _) = start_recent_read();
    let (state, step) = read_recent_json(state, ReadEvent::Queried(Err("busy".to_string())));
    assert!(matches!(step, ReadStep::TakeSnapshot));
    let (state, step) = read_recent_json(state, ReadEvent::SnapshotTaken(Ok(())));
    assert!(matches!(step, ReadStep::ReadSnapshot));
    let (_, step) = read_recent_json(state, ReadEvent::Queried(Ok(None)));
    assert_eq!(outcome(&step), Some(Ok(None)));
}

#[test]
fn failed_snapshot_reports_both_errors() {
    let (state, _) = start_recent_read();
    let (state, _) = read_recent_json(state, ReadEvent::Queried(Err("busy".to_string())));
    let (state, step) =
        read_recent_json(state, ReadEvent::SnapshotTaken(Err("disk full".to_string())));
    assert_eq!(
        outcome(&step),
        Some(Err("busy; snapshot failed: disk full".to_string()))
    );
    assert!(matches!(state, RecentRead::Finished(_)));
}

#[test]
fn unexpected_event_repeats_the_step() {
    let (state, _) = start_recent_read();
    let (state, step) = read_recent_json(state, ReadEvent::SnapshotTaken(Ok(())));
    assert!(matches!(step, ReadStep::ReadLive));
    assert!(matches!(state, RecentRead::ReadingLive));
}

#[test]
fn database_messages() {
    assert_eq!(error_message("could not read", None), "could not read");
    assert_eq!(error_message("could not read", Some("locked")), "could not read: locked");
    assert_eq!(
        open_failure_message(14),
        "could not open VS Code history database (14)"
    );
    assert_eq!(
        recent_history_query(),
        "SELECT value FROM ItemTable WHERE key='history.recentlyOpenedPathsList' LIMIT 1"
    );
    assert_eq!(sidecar_suffixes(), ["-wal", "-shm"]);
}
