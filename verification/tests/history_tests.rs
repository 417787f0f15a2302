use vsrecent::decode::{hex, percent_decode};
use vsrecent::history::parse_entries;
use vsrecent::recent::{demo_entries, entries_from_history};
use vsrecent::remote::{
    default_label, remote_group_display, remote_key, remote_kind, strip_prefix_ascii_case,
};
use vsrecent::theme::row_colors;

#[test]
fn parses_folders_and_skips_files() {
    let entries = parse_entries(
        r#"{"entries":[
            {"folderUri":"file:///c%3A/code/project"},
            {"fileUri":"file:///c%3A/code/readme.md"},
            {"label":"remote","folderUri":"vscode-remote://wsl%2BUbuntu/home/me/app"}
        ]}"#,
    )
    .unwrap();
    assert_eq!(entries.len(), 2);
    assert_eq!(entries[0].label, "c:\\code\\project");
    assert_eq!(entries[0].remote_key, "local");
    assert_eq!(entries[1].remote, "WSL: Ubuntu");
    assert_eq!(entries[1].remote_key, "wsl");
    assert!(entries[1].search_key.contains("wsl"));
}

#[test]
fn decodes_utf8_uri_components() {
    assert_eq!(percent_decode("caf%C3%A9%20app"), "café app");
}

#[test]
fn assigns_distinct_remote_colors() {
    assert_ne!(row_colors("LOCAL", false), row_colors("WSL: Ubuntu", false));
    assert_ne!(
        row_colors("WSL: Ubuntu", false),
        row_colors("SSH: host", false)
    );
    assert_ne!(
        row_colors("SSH: host", false),
        row_colors("DEV CONTAINER", false)
    );
    assert_ne!(row_colors("LOCAL", false), row_colors("LOCAL", true));
}

#[test]
fn invalid_json_is_reported() {
    let error = parse_entries("{not json").unwrap_err();
    assert!(error.starts_with("invalid history JSON: "));
}

#[test]
fn missing_entries_array_is_reported() {
    assert_eq!(
        parse_entries(r#"{"other":[]}"#).unwrap_err(),
        "history JSON does not contain an entries array"
    );
    assert_eq!(
        parse_entries(r#"{"entries":{"a":1}}"#).unwrap_err(),
        "history JSON does not contain an entries array"
    );
}

#[test]
fn skips_empty_and_non_string_folder_uris() {
    let entries = parse_entries(
        r#"{"entries":[
            {"folderUri":""},
            {"folderUri":7},
            {"folderUri":"vscode-vfs://github/owner/repo","label":""}
        ]}"#,
    )
    .unwrap();
    assert_eq!(entries.len(), 1);
    assert_eq!(entries[0].uri, "vscode-vfs://github/owner/repo");
    assert_eq!(entries[0].label, "vscode-vfs://github/owner/repo");
    assert_eq!(entries[0].remote, "GITHUB");
    assert_eq!(entries[0].remote_key, "github");
    assert_eq!(
        entries[0].search_key,
        "vscode-vfs://github/owner/repo vscode-vfs://github/owner/repo"
    );
}

#[test]
fn search_key_is_lower_case_label_and_uri() {
    let entries =
        parse_entries(r#"{"entries":[{"label":"My App","folderUri":"file:///C:/Src/App"}]}"#)
            .unwrap();
    assert_eq!(entries[0].label, "My App");
    assert_eq!(entries[0].search_key, "my app file:///c:/src/app");
}

#[test]
fn missing_history_is_reported() {
    assert_eq!(
        entries_from_history(None).unwrap_err(),
        "recent-folder history is missing"
    );
    let entries = entries_from_history(Some(r#"{"entries":[]}"#.to_string())).unwrap();
    assert!(entries.is_empty());
}

#[test]
fn demo_entries_cover_four_remotes() {
    let entries = demo_entries().unwrap();
    let remotes: Vec<&str> = entries.iter().map(|e| e.remote.as_str()).collect();
    assert_eq!(
        remotes,
        vec!["LOCAL", "WSL: Ubuntu", "SSH: gpu-rig", "DEV CONTAINER"]
    );
    let keys: Vec<&str> = entries.iter().map(|e| e.remote_key.as_str()).collect();
    assert_eq!(keys, vec!["local", "wsl", "ssh", "dev-container"]);
}

#[test]
fn remote_kinds_of_uris() {
    assert_eq!(remote_kind("FILE:///c%3A/x"), "LOCAL");
    assert_eq!(remote_kind("vscode-remote://wsl%2BUbuntu/home"), "WSL: Ubuntu");
    assert_eq!(remote_kind("vscode-remote://wsl/home"), "WSL: ?");
    assert_eq!(remote_kind("vscode-remote://ssh-remote%2B/x"), "SSH: ?");
    assert_eq!(remote_kind("vscode-remote://ssh-remote+my+host/x"), "SSH: my+host");
    assert_eq!(remote_kind("vscode-remote://dev-container%2Babc/w"), "DEV CONTAINER");
    assert_eq!(remote_kind("vscode-remote://attached-container%2Babc/w"), "CONTAINER");
    assert_eq!(remote_kind("vscode-remote://codespaces%2Bx/w"), "CODESPACE");
    assert_eq!(remote_kind("vscode-remote://tunnel%2Bbox/w"), "TUNNEL");
    assert_eq!(remote_kind("vscode-remote://k8s-container%2Bpod/w"), "K8S-CONTAINER");
    assert_eq!(remote_kind("vscode-vfs://GitHub/owner/repo"), "GITHUB");
    assert_eq!(remote_kind("vscode-vfs://azurerepos/x"), "VSCODE-VFS");
    assert_eq!(remote_kind("no-scheme-here"), "NO-SCHEME-HERE");
}

#[test]
fn remote_keys_of_uris() {
    assert_eq!(remote_key("file:///c%3A/x"), "local");
    assert_eq!(remote_key("vscode-remote://WSL%2BUbuntu/home"), "wsl");
    assert_eq!(remote_key("vscode-remote://ssh-remote%2Bhost/x"), "ssh");
    assert_eq!(remote_key("vscode-remote://attached-container%2Babc/w"), "container");
    assert_eq!(remote_key("vscode-remote://codespaces%2Bx/w"), "codespace");
    assert_eq!(remote_key("vscode-remote://dev-container%2Babc/w"), "dev-container");
    assert_eq!(remote_key("vscode-vfs://github/owner/repo"), "github");
    assert_eq!(remote_key("vscode-vfs://azurerepos/x"), "vfs");
    assert_eq!(remote_key("HTTP://host/x"), "http");
    assert_eq!(remote_key(":nothing"), "unknown");
}

#[test]
fn group_display_names() {
    assert_eq!(remote_group_display("local"), "Local");
    assert_eq!(remote_group_display("dev-container"), "Dev Container");
    assert_eq!(remote_group_display("github"), "GitHub");
    assert_eq!(remote_group_display("unknown"), "Unknown");
    assert_eq!(remote_group_display("k8s-container"), "K8S-CONTAINER");
}

#[test]
fn default_labels() {
    assert_eq!(default_label("file:///c%3A/Users/me/My%20App"), "c:\\Users\\me\\My App");
    assert_eq!(default_label("FILE:///c%3A/x"), "FILE:///c%3A/x");
    assert_eq!(default_label("vscode-remote://wsl%2BUbuntu/x"), "vscode-remote://wsl%2BUbuntu/x");
}

#[test]
fn strips_prefixes_ignoring_ascii_case() {
    assert_eq!(strip_prefix_ascii_case("VSCode-Remote://x", "vscode-remote://"), Some("x"));
    assert_eq!(strip_prefix_ascii_case("vscode", "vscode-remote://"), None);
    assert_eq!(strip_prefix_ascii_case("é-x", "é-"), Some("x"));
}

#[test]
fn hex_digits() {
    assert_eq!(hex(b'0'), Some(0));
    assert_eq!(hex(b'9'), Some(9));
    assert_eq!(hex(b'a'), Some(10));
    assert_eq!(hex(b'F'), Some(15));
    assert_eq!(hex(b'g'), None);
    assert_eq!(hex(b'/'), None);
}

#[test]
fn percent_decoding_edge_cases() {
    assert_eq!(percent_decode("no escapes"), "no escapes");
    assert_eq!(percent_decode("100%"), "100%");
    assert_eq!(percent_decode("%4"), "%4");
    assert_eq!(percent_decode("%41"), "A");
    assert_eq!(percent_decode("%41x"), "Ax");
    assert_eq!(percent_decode("%zz%2Fa"), "%zz/a");
    assert_eq!(percent_decode("%FF!"), "\u{FFFD}!");
}
