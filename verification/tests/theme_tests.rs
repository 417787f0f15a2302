use vsrecent::theme::{
    demo_requested, requested_theme, rgb, row_colors, row_paint, theme_from_registry, Theme,
};

fn args(list: &[&str]) -> Vec<String> {
    list.iter().map(|s| s.to_string()).collect()
}

#[test]
fn colour_values() {
    assert_eq!(rgb(1, 2, 3), 0x030201);
    assert_eq!(Theme::light().window, 0xF5F5F5);
    assert_eq!(Theme::dark().control, 0x262525);
    assert!(Theme::dark().dark);
    assert_eq!(Theme::dark().control_theme_name(), "DarkMode_Explorer");
    assert_eq!(Theme::light().control_theme_name(), "Explorer");
}

#[test]
fn command_line_theme() {
    assert!(requested_theme(&args(&["app", "--LIGHT", "--Dark"])).unwrap().dark);
    assert!(!requested_theme(&args(&["app", "--light"])).unwrap().dark);
    assert!(requested_theme(&args(&["app"])).is_none());
    assert!(demo_requested(&args(&["--DEMO"])));
    assert!(!demo_requested(&args(&["--demos"])));
}

#[test]
fn registry_theme() {
    assert!(theme_from_registry(0, 0).dark);
    assert!(!theme_from_registry(0, 1).dark);
    assert!(!theme_from_registry(2, 0).dark);
}

#[test]
fn row_colours_by_remote() {
    assert_eq!(row_colors("LOCAL", false), (rgb(239, 241, 245), rgb(79, 86, 99)));
    assert_eq!(row_colors("local", true), (rgb(38, 40, 45), rgb(79, 86, 99)));
    assert_eq!(row_colors("WSL: Ubuntu", true), (rgb(57, 37, 31), rgb(194, 70, 25)));
    assert_eq!(row_colors("DEV CONTAINER", false), (rgb(228, 246, 255), rgb(25, 119, 177)));
    assert_eq!(row_colors("GITHUB", false), row_colors("CODESPACE", false));
    assert_eq!(row_colors("TUNNEL", true), (rgb(28, 52, 49), rgb(0, 116, 104)));
    // "vfs" hashes with FNV-1a to 0x93373F0A, which selects palette entry 2.
    assert_eq!(row_colors("VFS", false), (rgb(250, 233, 239), rgb(153, 60, 91)));
    assert_ne!(row_colors("VFS", false), row_colors("VFS", true));
}

#[test]
fn row_paint_uses_selection() {
    let theme = Theme::light();
    assert_eq!(row_paint("LOCAL", &theme, false), (rgb(239, 241, 245), theme.text));
    assert_eq!(row_paint("LOCAL", &theme, true), (rgb(79, 86, 99), rgb(255, 255, 255)));
}
