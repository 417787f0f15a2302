use vsrecent::history::parse_entries;
use vsrecent::picker::Picker;

fn loaded_picker() -> Picker {
    let entries = parse_entries(
        r#"{"entries":[
            {"label":"alpha","folderUri":"file:///c%3A/code/alpha"},
            {"label":"beta","folderUri":"vscode-remote://wsl%2BUbuntu/home/me/beta"},
            {"label":"gamma","folderUri":"vscode-remote://ssh-remote%2Bbox/srv/gamma"},
            {"label":"Alpha Two","folderUri":"vscode-remote://wsl%2BDebian/home/alpha2"}
        ]}"#,
    )
    .unwrap();
    let mut picker = Picker::new();
    picker.set_entries(entries);
    picker
}

#[test]
fn remote_filter_lists_groups_in_key_order_with_counts() {
    let mut picker = loaded_picker();
    let labels = picker.remote_filter_items();
    assert_eq!(
        labels,
        vec!["All remotes (4)", "Local (1)", "SSH (1)", "WSL (2)"]
    );
}

#[test]
fn empty_query_shows_every_entry() {
    let mut picker = loaded_picker();
    picker.remote_filter_items();
    let content = picker.apply_filter("", 0);
    assert_eq!(content.message, None);
    assert_eq!(
        content.rows,
        vec![
            "alpha    [LOCAL]",
            "beta    [WSL: Ubuntu]",
            "gamma    [SSH: box]",
            "Alpha Two    [WSL: Debian]"
        ]
    );
}

#[test]
fn query_tokens_must_all_occur() {
    let mut picker = loaded_picker();
    picker.remote_filter_items();
    let content = picker.apply_filter("  ALPHA  wsl ", 0);
    assert_eq!(content.rows, vec!["Alpha Two    [WSL: Debian]"]);
    assert_eq!(
        picker.selected_uri(0),
        Some("vscode-remote://wsl%2BDebian/home/alpha2".to_string())
    );
    assert_eq!(picker.selected_uri(1), None);
    assert_eq!(picker.selected_uri(-1), None);
}

#[test]
fn remote_group_restricts_rows() {
    let mut picker = loaded_picker();
    picker.remote_filter_items();
    let content = picker.apply_filter("", 3);
    assert_eq!(
        content.rows,
        vec!["beta    [WSL: Ubuntu]", "Alpha Two    [WSL: Debian]"]
    );
    assert_eq!(picker.row_remote(1), Some("WSL: Debian".to_string()));
    assert_eq!(picker.row_remote(2), None);
    let out_of_range = picker.apply_filter("", 9);
    assert_eq!(out_of_range.rows.len(), 4);
    let negative = picker.apply_filter("", -1);
    assert_eq!(negative.rows.len(), 4);
}

#[test]
fn messages_when_nothing_to_show() {
    let mut picker = loaded_picker();
    picker.remote_filter_items();
    let content = picker.apply_filter("zzz", 0);
    assert_eq!(content.message, Some("No matching folders".to_string()));
    assert!(content.rows.is_empty());

    let mut empty = Picker::new();
    let content = empty.apply_filter("", 0);
    assert_eq!(content.message, Some("No recent folders found".to_string()));
    assert_eq!(empty.remote_filter_items(), vec!["All remotes (0)"]);

    let mut failed = Picker::new();
    failed.set_load_error("boom");
    let content = failed.apply_filter("", 0);
    assert_eq!(
        content.message,
        Some("Unable to load history: boom".to_string())
    );
}

#[test]
fn loading_entries_clears_the_error() {
    let mut picker = Picker::new();
    picker.set_load_error("boom");
    picker.set_entries(parse_entries(r#"{"entries":[{"folderUri":"file:///x"}]}"#).unwrap());
    assert_eq!(picker.entry_count(), 1);
    let content = picker.apply_filter("", 0);
    assert_eq!(content.message, None);
    assert_eq!(content.rows, vec!["x    [LOCAL]"]);
}

#[test]
fn remote_kind_alone_does_not_match() {
    let mut picker = loaded_picker();
    picker.remote_filter_items();
    let content = picker.apply_filter("local", 0);
    assert_eq!(content.message, Some("No matching folders".to_string()));
    assert!(content.rows.is_empty());
    let content = picker.apply_filter("wsl:", 0);
    assert!(content.rows.is_empty());
    let content = picker.apply_filter("ubuntu", 0);
    assert_eq!(content.rows, vec!["beta    [WSL: Ubuntu]"]);
}

#[test]
fn adding_a_token_never_adds_a_row() {
    let mut picker = loaded_picker();
    picker.remote_filter_items();
    let wide = picker.apply_filter("alpha", 0).rows;
    assert_eq!(wide, vec!["alpha    [LOCAL]", "Alpha Two    [WSL: Debian]"]);
    let narrow = picker.apply_filter("alpha debian", 0).rows;
    assert_eq!(narrow, vec!["Alpha Two    [WSL: Debian]"]);
    assert!(narrow.iter().all(|row| wide.contains(row)));
    let upper = picker.apply_filter("ALPHA DEBIAN", 0).rows;
    assert_eq!(upper, narrow);
}
