use vsrecent::decode::percent_decode;
use vsrecent::launch::{after_launch, AfterLaunch};
use vsrecent::remote::remote_key;
use vsrecent::recent::{
    prepare_failure_message, row_outcome, step_outcome, SQLITE_DONE, SQLITE_OK, SQLITE_ROW,
};
use vsrecent::window::{
    command_action, CommandAction, NotificationCodes, ID_FILTER, ID_LIST, ID_REMOTE,
};

fn codes() -> NotificationCodes {
    NotificationCodes {
        edit_change: 0x0300,
        list_double_click: 2,
        list_selection_change: 1,
        combo_selection_change: 1,
    }
}

#[test]
fn row_with_text_gives_the_text() {
    let r = row_outcome(Some("{\"entries\":[]}".as_bytes().to_vec()));
    assert_eq!(r, Ok(Some("{\"entries\":[]}".to_string())));
}

#[test]
fn empty_or_null_row_gives_empty_text() {
    assert_eq!(row_outcome(Some(Vec::new())), Ok(Some(String::new())));
    assert_eq!(row_outcome(None), Ok(Some(String::new())));
}

#[test]
fn invalid_utf8_row_is_an_error() {
    let r = row_outcome(Some(vec![0x7b, 0xff, 0x7d]));
    let m = r.unwrap_err();
    assert!(m.starts_with("history is not UTF-8: "));
    assert!(m.len() > "history is not UTF-8: ".len());
}

#[test]
fn step_outcomes() {
    assert_eq!(
        step_outcome(SQLITE_ROW, Some("caf\u{e9}".as_bytes().to_vec()), None),
        Ok(Some("caf\u{e9}".to_string()))
    );
    assert_eq!(step_outcome(SQLITE_DONE, None, Some("ignored")), Ok(None));
    assert_eq!(
        step_outcome(SQLITE_OK + 5, None, Some("database is locked")),
        Err("could not read live VS Code history: database is locked".to_string())
    );
    assert_eq!(
        step_outcome(1, None, None),
        Err("could not read live VS Code history".to_string())
    );
}

#[test]
fn prepare_failure_messages() {
    assert_eq!(
        prepare_failure_message(Some("no such table: ItemTable")),
        "could not read VS Code history: no such table: ItemTable"
    );
    assert_eq!(prepare_failure_message(None), "could not read VS Code history");
}

#[test]
fn command_routing() {
    let c = codes();
    assert_eq!(command_action(ID_FILTER | (0x0300 << 16), &c), CommandAction::ApplyFilter);
    assert_eq!(command_action(ID_LIST | (2 << 16), &c), CommandAction::LaunchSelected);
    assert_eq!(command_action(ID_LIST | (1 << 16), &c), CommandAction::FocusFilter);
    assert_eq!(command_action(ID_REMOTE | (1 << 16), &c), CommandAction::ApplyFilter);
    assert_eq!(command_action(ID_REMOTE | (3 << 16), &c), CommandAction::Ignore);
    assert_eq!(command_action(ID_FILTER | (1 << 16), &c), CommandAction::Ignore);
    assert_eq!(command_action(999, &c), CommandAction::Ignore);
}

#[test]
fn after_launch_outcomes() {
    assert_eq!(after_launch(Ok(()), false), AfterLaunch::Close);
    assert_eq!(after_launch(Ok(()), true), AfterLaunch::FocusFilter);
    assert_eq!(
        after_launch(Err("could not launch VS Code".to_string()), false),
        AfterLaunch::ShowError("could not launch VS Code".to_string())
    );
    assert_eq!(
        after_launch(Err("boom".to_string()), true),
        AfterLaunch::ShowError("boom".to_string())
    );
}

#[test]
fn full_percent_encoding_round_trips() {
    assert_eq!(percent_decode("%63%61%66%C3%A9"), "caf\u{e9}");
    assert_eq!(percent_decode("%63%61%66%c3%a9"), "caf\u{e9}");
    let text = "C:/Users/\u{e9}t\u{e9} 100%";
    let upper: String = text.bytes().map(|b| format!("%{:02X}", b)).collect();
    let lower: String = text.bytes().map(|b| format!("%{:02x}", b)).collect();
    assert_eq!(percent_decode(&upper), text);
    assert_eq!(percent_decode(&lower), text);
}

#[test]
fn group_key_ignores_ascii_case() {
    for uri in [
        "file:///c%3A/code/project",
        "vscode-remote://wsl%2BUbuntu/home/me/app",
        "vscode-remote://SSH-Remote%2Bbox/srv",
        "vscode-remote://attached-container%2B7b22/app",
        "vscode-vfs://github/owner/repo",
        "vscode-vfs://azurerepos/x",
        "Custom-Scheme:thing",
        "no scheme here",
    ] {
        let key = remote_key(uri);
        assert_eq!(remote_key(&uri.to_ascii_lowercase()), key);
        assert_eq!(remote_key(&uri.to_ascii_uppercase()), key);
    }
    assert_eq!(remote_key("VSCODE-REMOTE://SSH-REMOTE%2BBOX/srv"), "ssh");
    assert_eq!(remote_key("File:///C:/x"), "local");
}
