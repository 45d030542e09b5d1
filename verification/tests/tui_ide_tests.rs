use gul::tools::tui_ide::{CommandPalette, FileBrowser, GulTuiIde};

#[test]
fn test_ide_creation() {
    let ide = GulTuiIde::new(String::new());
    assert!(ide.is_running());
    assert!(ide.current_file().is_none());
}

#[test]
fn test_command_palette() {
    let palette = CommandPalette::new();
    assert!(!palette.is_visible());
    assert_eq!(palette.commands().len(), 7);
}

#[test]
fn test_file_browser() {
    let browser = FileBrowser::new(String::new());
    assert!(!browser.is_visible());
}

#[test]
fn ide_starts_with_welcome_and_standard_palette() {
    let ide = GulTuiIde::new("/work".to_string());
    assert_eq!(ide.status_message(), "Welcome to GUL TUI IDE");
    assert_eq!(ide.buffer(), "");
    assert_eq!(ide.file_browser().current_dir(), "/work");
    assert!(ide.file_browser().files().is_empty());
    let names: Vec<&str> =
        ide.command_palette().commands().iter().map(|c| c.name.as_str()).collect();
    assert_eq!(names, vec!["Open File", "Save File", "Build", "Run", "Format", "Git Status", "Quit"]);
    assert_eq!(ide.command_palette().commands()[5].description, "Show Git status");
}

#[test]
fn status_line_follows_the_actions() {
    let mut ide = GulTuiIde::new(String::new());
    assert!(ide.run().is_ok());
    assert_eq!(ide.status_message(), "TUI IDE initialized. Press Ctrl+P for commands.");
    assert!(ide.build().is_ok());
    assert_eq!(ide.status_message(), "Building project...");
    assert!(ide.run_project().is_ok());
    assert_eq!(ide.status_message(), "Running project...");
    assert!(ide.format().is_ok());
    assert_eq!(ide.status_message(), "Formatting code...");
    assert!(ide.is_running());
    ide.quit();
    assert!(!ide.is_running());
}

#[test]
fn toggles_flip_visibility() {
    let mut ide = GulTuiIde::new(String::new());
    ide.toggle_command_palette();
    assert!(ide.command_palette().is_visible());
    assert!(!ide.file_browser().is_visible());
    ide.toggle_file_browser();
    assert!(ide.file_browser().is_visible());
    ide.toggle_command_palette();
    assert!(!ide.command_palette().is_visible());
    ide.toggle_file_browser();
    assert!(!ide.file_browser().is_visible());
}

#[test]
fn open_and_save_file() {
    let mut ide = GulTuiIde::new(String::new());
    assert_eq!(ide.save_file(), None);
    assert_eq!(ide.status_message(), "Welcome to GUL TUI IDE");
    ide.open_file("src/a \"b\".gul".to_string(), "mn {}".to_string());
    assert_eq!(ide.current_file(), Some(&"src/a \"b\".gul".to_string()));
    assert_eq!(ide.buffer(), "mn {}");
    assert_eq!(ide.status_message(), "Opened: Some(\"src/a \\\"b\\\".gul\")");
    assert_eq!(ide.save_file(), Some("src/a \"b\".gul".to_string()));
    assert_eq!(ide.status_message(), "Saved: \"src/a \\\"b\\\".gul\"");
}

#[test]
fn palette_filters_by_name_or_description_ignoring_case() {
    let mut palette = CommandPalette::default();
    assert_eq!(palette.filter_commands().len(), 7);
    palette.set_query("FILE".to_string());
    let names: Vec<&str> = palette.filter_commands().iter().map(|c| c.name.as_str()).collect();
    // "Format" answers through its description, "Format the current file"
    assert_eq!(names, vec!["Open File", "Save File", "Format"]);
    palette.set_query("project".to_string());
    let names: Vec<&str> = palette.filter_commands().iter().map(|c| c.name.as_str()).collect();
    assert_eq!(names, vec!["Build", "Run"]);
    palette.set_query("zzz".to_string());
    assert!(palette.filter_commands().is_empty());
}

#[test]
fn palette_selection_is_among_the_filtered() {
    let mut palette = CommandPalette::new();
    assert_eq!(palette.get_selected().map(|c| c.name.as_str()), Some("Open File"));
    palette.select(6);
    assert_eq!(palette.get_selected().map(|c| c.name.as_str()), Some("Quit"));
    palette.select(7);
    assert!(palette.get_selected().is_none());
    palette.set_query("git".to_string());
    palette.select(0);
    assert_eq!(palette.get_selected().map(|c| c.name.as_str()), Some("Git Status"));
    palette.select(1);
    assert!(palette.get_selected().is_none());
}

#[test]
fn browser_moves_and_empties_its_listing() {
    let mut browser = FileBrowser::new("/work/project".to_string());
    assert_eq!(browser.get_selected(), None);
    browser.refresh(vec!["/work/project/src".to_string(), "/work/project/a.gul".to_string()]);
    assert_eq!(browser.get_selected(), Some(&"/work/project/src".to_string()));
    browser.select(1);
    assert_eq!(browser.get_selected(), Some(&"/work/project/a.gul".to_string()));
    assert!(!browser.navigate_into(false));
    assert_eq!(browser.current_dir(), "/work/project");
    assert_eq!(browser.files().len(), 2);
    browser.select(0);
    assert!(browser.navigate_into(true));
    assert_eq!(browser.current_dir(), "/work/project/src");
    assert!(browser.files().is_empty());
    assert!(!browser.navigate_into(true));
    browser.select(5);
    browser.refresh(vec!["x".to_string()]);
    assert_eq!(browser.get_selected(), None);
    assert!(!browser.navigate_into(true));
}

#[test]
fn browser_moves_up_to_the_parent() {
    let mut browser = FileBrowser::new("/work/project".to_string());
    browser.refresh(vec!["/work/project/a.gul".to_string()]);
    assert!(browser.navigate_up());
    assert_eq!(browser.current_dir(), "/work");
    assert!(browser.files().is_empty());
    assert!(browser.navigate_up());
    assert_eq!(browser.current_dir(), "/");
    assert!(!browser.navigate_up());
    assert_eq!(browser.current_dir(), "/");
    let mut nowhere = FileBrowser::new(String::new());
    assert!(!nowhere.navigate_up());
}

#[test]
fn ide_parts_can_be_worked_on() {
    let mut ide = GulTuiIde::new("/a/b".to_string());
    ide.file_browser_mut().navigate_to("/c".to_string());
    assert_eq!(ide.file_browser().current_dir(), "/c");
    ide.command_palette_mut().set_query("quit".to_string());
    assert_eq!(ide.command_palette().filter_commands().len(), 1);
}

#[test]
fn path_of_one_name_has_the_empty_path_above_it() {
    for name in ["work", ".", "..", "a b.gul", "\u{e9}t\u{e9}"] {
        let mut browser = FileBrowser::new(name.to_string());
        browser.refresh(vec!["x".to_string()]);
        assert!(browser.navigate_up());
        assert_eq!(browser.current_dir(), "");
        assert!(browser.files().is_empty());
        assert!(!browser.navigate_up());
        assert_eq!(browser.current_dir(), "");
    }
}

#[test]
fn parent_is_a_shorter_start_of_the_path() {
    for path in ["/work/project", "a/b/c.gul", "/a", "a/", "a//b/", "./a", "a/./b", "/a/../b"] {
        let mut browser = FileBrowser::new(path.to_string());
        assert!(browser.navigate_up());
        let parent = browser.current_dir().clone();
        assert!(parent.len() < path.len());
        assert!(path.starts_with(parent.as_str()));
    }
    for path in ["", "/", "//"] {
        let mut browser = FileBrowser::new(path.to_string());
        browser.refresh(vec!["x".to_string()]);
        assert!(!browser.navigate_up());
        assert_eq!(browser.current_dir(), path);
        assert_eq!(browser.files().len(), 1);
    }
}

#[test]
fn browser_follows_the_parent_that_was_found() {
    let mut browser = FileBrowser::new("/a/b".to_string());
    browser.refresh(vec!["/a/b/c".to_string()]);
    browser.select(3);
    assert!(!browser.navigate_to_parent(None));
    assert_eq!(browser.current_dir(), "/a/b");
    assert_eq!(browser.files().len(), 1);
    assert!(browser.navigate_to_parent(Some("/a".to_string())));
    assert_eq!(browser.current_dir(), "/a");
    assert!(browser.files().is_empty());
    assert!(!browser.is_visible());
    browser.refresh(vec!["0".to_string(), "1".to_string(), "2".to_string(), "3".to_string()]);
    assert_eq!(browser.get_selected(), Some(&"3".to_string()));
}
