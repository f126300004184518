use rclone_ui::rclone::{FileItem, RcloneClient, Remote};
use rclone_ui::tui::{join_path, up_path, App, Command, Key, ViewMode};

fn remote(name: &str) -> Remote {
    Remote { name: name.to_string(), remote_type: "unknown".to_string() }
}

fn entry(path: &str, size: i64, is_dir: bool) -> FileItem {
    FileItem {
        path: path.to_string(),
        name: path.to_string(),
        size,
        mime_type: if is_dir { "inode/directory".to_string() } else { "text/plain".to_string() },
        mod_time: "2024-01-01T00:00:00Z".to_string(),
        is_dir,
    }
}

fn app_with_remotes(names: &[&str]) -> App {
    let mut app = App::new(RcloneClient::new());
    app.remotes_loaded(Ok(names.iter().map(|n| remote(n)).collect()));
    app
}

fn is_nothing(c: &Command) -> bool {
    matches!(c, Command::Nothing)
}

#[test]
fn new_app_welcomes() {
    let app = App::new(RcloneClient::new());
    assert!(matches!(app.view_mode(), ViewMode::Remotes));
    assert_eq!(app.status_message(), "Welcome to Rclone UI! Press 'h' for help.");
    assert_eq!(app.selected(), Some(0));
    assert!(app.remotes().is_empty());
    assert!(app.files().is_empty());
    assert_eq!(app.current_remote(), None);
    assert_eq!(app.current_path(), "");
    assert_eq!(app.client().rclone_path(), "rclone");
    assert_eq!(app.title(), "☁️  Rclone UI - Remotes");
}

#[test]
fn only_q_quits() {
    let mut app = app_with_remotes(&["a"]);
    assert!(matches!(app.handle_input(Key::Char('q')), Command::Quit));
    assert!(is_nothing(&app.handle_input(Key::Char('x'))));
    assert!(is_nothing(&app.handle_input(Key::Other)));
    assert_eq!(app.selected(), Some(0));
}

#[test]
fn help_key_shows_commands() {
    let mut app = app_with_remotes(&[]);
    assert!(is_nothing(&app.handle_input(Key::Char('h'))));
    assert_eq!(app.status_message(), "Commands: q=quit, Enter=open, b=back, r=refresh, ↑↓=navigate");
}

#[test]
fn down_and_up_wrap_around() {
    let mut app = app_with_remotes(&["a", "b", "c"]);
    app.handle_input(Key::Down);
    assert_eq!(app.selected(), Some(1));
    app.handle_input(Key::Down);
    app.handle_input(Key::Down);
    assert_eq!(app.selected(), Some(0));
    app.handle_input(Key::Up);
    assert_eq!(app.selected(), Some(2));
    app.handle_input(Key::Down);
    assert_eq!(app.selected(), Some(0));
}

#[test]
fn moving_in_an_empty_list_selects_first() {
    let mut app = app_with_remotes(&[]);
    assert_eq!(app.selected(), None);
    app.handle_input(Key::Down);
    assert_eq!(app.selected(), Some(0));
    app.handle_input(Key::Up);
    assert_eq!(app.selected(), Some(0));
}

#[test]
fn loading_fits_the_selection() {
    let mut app = app_with_remotes(&["a", "b", "c"]);
    app.handle_input(Key::Up);
    assert_eq!(app.selected(), Some(2));
    app.remotes_loaded(Ok(vec![remote("a")]));
    assert_eq!(app.selected(), Some(0));
    app.remotes_loaded(Ok(vec![]));
    assert_eq!(app.selected(), None);
    app.remotes_loaded(Ok(vec![remote("a"), remote("b")]));
    assert_eq!(app.selected(), Some(0));
}

#[test]
fn failed_initial_load_reports_error() {
    let mut app = App::new(RcloneClient::new());
    app.remotes_loaded(Err("no rclone".to_string()));
    assert_eq!(app.status_message(), "Error loading remotes: no rclone");
    assert!(app.remotes().is_empty());
    assert_eq!(app.selected(), None);
}

#[test]
fn refresh_says_so_after_loading() {
    let mut app = app_with_remotes(&["a"]);
    assert!(matches!(app.handle_input(Key::Char('r')), Command::LoadRemotes));
    app.remotes_loaded(Err("boom".to_string()));
    assert_eq!(app.status_message(), "Remotes refreshed");
    assert!(app.remotes().is_empty());
}

#[test]
fn back_at_remotes_stays() {
    let mut app = app_with_remotes(&["a"]);
    assert!(is_nothing(&app.handle_input(Key::Char('b'))));
    assert_eq!(app.status_message(), "Already at remotes view");
}

#[test]
fn opening_a_remote_lists_its_top() {
    let mut app = app_with_remotes(&["gdrive", "s3"]);
    app.handle_input(Key::Down);
    match app.handle_input(Key::Enter) {
        Command::LoadFiles { remote, path } => {
            assert_eq!(remote, "s3");
            assert_eq!(path, "");
        }
        _ => panic!("expected a listing"),
    }
    assert!(matches!(app.view_mode(), ViewMode::Files));
    app.files_loaded(Ok(vec![entry("docs", 0, true), entry("a.txt", 2048, false)]));
    assert_eq!(app.status_message(), "Opened remote: s3");
    assert_eq!(app.selected(), Some(1));
    assert_eq!(app.current_remote(), Some("s3"));
    assert_eq!(app.title(), "☁️  Rclone UI - s3");
}

#[test]
fn directories_open_and_back_goes_up() {
    let mut app = app_with_remotes(&["gdrive"]);
    app.handle_input(Key::Enter);
    app.files_loaded(Ok(vec![entry("docs", 0, true)]));
    match app.handle_input(Key::Enter) {
        Command::LoadFiles { remote, path } => {
            assert_eq!(remote, "gdrive");
            assert_eq!(path, "docs");
        }
        _ => panic!("expected a listing"),
    }
    app.files_loaded(Ok(vec![entry("2024", 0, true)]));
    assert_eq!(app.status_message(), "Opened directory: docs");
    app.handle_input(Key::Enter);
    app.files_loaded(Ok(vec![]));
    assert_eq!(app.current_path(), "docs/2024");
    assert_eq!(app.title(), "☁️  Rclone UI - gdrive:docs/2024");
    match app.handle_input(Key::Char('b')) {
        Command::LoadFiles { path, .. } => assert_eq!(path, "docs"),
        _ => panic!("expected a listing"),
    }
    app.files_loaded(Ok(vec![entry("2024", 0, true)]));
    assert_eq!(app.status_message(), "Went up one directory");
    app.handle_input(Key::Char('b'));
    app.files_loaded(Ok(vec![entry("docs", 0, true)]));
    assert_eq!(app.current_path(), "");
    assert!(matches!(app.handle_input(Key::Char('b')), Command::LoadRemotes));
    app.remotes_loaded(Ok(vec![remote("gdrive")]));
    assert!(matches!(app.view_mode(), ViewMode::Remotes));
    assert_eq!(app.current_remote(), None);
    assert_eq!(app.status_message(), "Back to remotes");
}

#[test]
fn refreshing_files_lists_the_same_place() {
    let mut app = app_with_remotes(&["gdrive"]);
    app.handle_input(Key::Enter);
    app.files_loaded(Ok(vec![entry("docs", 0, true)]));
    app.handle_input(Key::Enter);
    app.files_loaded(Err("gone".to_string()));
    assert_eq!(app.status_message(), "Opened directory: docs");
    match app.handle_input(Key::Char('r')) {
        Command::LoadFiles { remote, path } => {
            assert_eq!(remote, "gdrive");
            assert_eq!(path, "docs");
        }
        _ => panic!("expected a listing"),
    }
    app.files_loaded(Ok(vec![]));
    assert_eq!(app.status_message(), "Files refreshed");
}

#[test]
fn opening_a_file_describes_it() {
    let mut app = app_with_remotes(&["gdrive"]);
    app.handle_input(Key::Enter);
    app.files_loaded(Ok(vec![entry("a.txt", 1536, false)]));
    match app.handle_input(Key::Enter) {
        Command::DescribeFile { name, size } => {
            assert_eq!(name, "a.txt");
            assert_eq!(size, 1536);
        }
        _ => panic!("expected a description"),
    }
    app.show_file_info("a.txt", "1.50 KB");
    assert_eq!(app.status_message(), "File: a.txt (1.50 KB)");
}

#[test]
fn enter_without_selection_does_nothing() {
    let mut app = app_with_remotes(&[]);
    assert!(is_nothing(&app.handle_input(Key::Enter)));
    assert!(matches!(app.view_mode(), ViewMode::Remotes));
}

#[test]
fn rclone_check_is_reported() {
    let mut app = App::new(RcloneClient::new());
    app.report_rclone_check(Ok("rclone v1.66.0".to_string()));
    assert_eq!(app.status_message(), "Rclone detected: rclone v1.66.0");
    app.report_rclone_check(Err("not found".to_string()));
    assert_eq!(app.status_message(), "Error: rclone not found - not found");
}

#[test]
fn paths_join_and_go_up() {
    assert_eq!(join_path("", "docs"), "docs");
    assert_eq!(join_path("docs", "2024"), "docs/2024");
    assert_eq!(up_path("docs/2024"), "docs");
    assert_eq!(up_path("docs"), "");
    assert_eq!(up_path("a/"), "a");
    assert_eq!(up_path("/x"), "");
    for (p, d) in [("", "docs"), ("a/b", "c"), ("x", "")] {
        assert_eq!(up_path(&join_path(p, d)), p);
    }
}

#[test]
fn loading_leaves_the_rest_alone() {
    let mut app = app_with_remotes(&["gdrive"]);
    app.handle_input(Key::Enter);
    app.files_loaded(Ok(vec![entry("docs", 0, true)]));
    let status = app.status_message().to_string();
    app.remotes_loaded(Ok(vec![remote("other"), remote("more")]));
    assert!(matches!(app.view_mode(), ViewMode::Files));
    assert_eq!(app.current_remote(), Some("gdrive"));
    assert_eq!(app.current_path(), "");
    assert_eq!(app.files().len(), 1);
    assert_eq!(app.status_message(), status);
    app.files_loaded(Err("gone".to_string()));
    assert_eq!(app.remotes().len(), 2);
    assert_eq!(app.current_remote(), Some("gdrive"));
    assert_eq!(app.status_message(), "Error loading files: gone");
}
