use trance::events::header_buttons;
use trance::app::{
    App, FocusedSection, GlobalField, HostInfo, KeyCode, KeyModifiers, PendingAction, Reply, Request,
    StatusKind,
};
use trance::cycle::is_uninstall;
use trance::model::{GlobalConfig, LocalConfig, Screensaver};
use trance::registry::{PackageTools, Platform, RegistryEntry};
use trance::theme::TuiTheme;

const SELF_PATH: &str = "C:\\Program Files\\trance\\trance.exe";

fn host() -> HostInfo {
    HostInfo {
        self_path: SELF_PATH.to_string(),
        saver_dir: Some("C:\\Users\\u\\AppData\\Local\\local76\\screensavers".to_string()),
        platform: Platform::Windows,
        tools: PackageTools { deb: false, rpm: false, pacman: false },
        on_battery: false,
        username: "u".to_string(),
        hostname: "h".to_string(),
        os_version: "10".to_string(),
    }
}

fn saver(name: &str, path: &str) -> Screensaver {
    Screensaver { name: name.to_string(), path: path.to_string(), download_url: None }
}

fn mock_app() -> App {
    let screensavers = vec![
        saver("Bubbles", "C:\\Windows\\System32\\bubbles.scr"),
        saver("Mystify", "C:\\Windows\\System32\\mystify.scr"),
        saver("Ribbons", "C:\\Windows\\System32\\ribbons.scr"),
    ];
    let global = GlobalConfig::default();
    let local = LocalConfig::default();
    let theme = TuiTheme::high_contrast(true);
    App::new(screensavers, global, local, theme, host())
}

/// Answers every outstanding save with success, as the front end would.
fn settle(app: &mut App) {
    for _ in 0..10 {
        match app.take_request() {
            Some(Request::SaveGlobal) | Some(Request::SaveLocal) => app.resume(Reply::Done),
            Some(other) => panic!("unexpected request {:?}", other),
            None => return,
        }
    }
    panic!("requests did not settle");
}

fn key(app: &mut App, code: KeyCode) -> bool {
    let quit = app.handle_key(code, KeyModifiers::empty(), true);
    settle(app);
    quit
}

#[test]
fn app_test_is_uninstall() {
    assert!(is_uninstall("C:\\some\\uninstall.exe"));
    assert!(is_uninstall("UNINSTALL_scr.scr"));
    assert!(!is_uninstall("bubbles.scr"));
}

#[test]
fn mod_test_is_uninstall() {
    assert!(is_uninstall("C:\\some\\uninstall.exe"));
    assert!(is_uninstall("UNINSTALL_scr.scr"));
    assert!(!is_uninstall("bubbles.scr"));
}

#[test]
fn app_test_filtered_indices() {
    let mut app = mock_app();

    // No filter -> all indices
    assert_eq!(app.filtered_indices(), vec![0, 1, 2]);

    // Hide stock screensavers
    app.local.hide_stock = true;
    assert_eq!(app.filtered_indices(), Vec::<usize>::new());
}

#[test]
fn mod_test_filtered_indices() {
    let mut app = mock_app();
    assert_eq!(app.filtered_indices(), vec![0, 1, 2]);
    app.local.hide_stock = true;
    assert_eq!(app.filtered_indices(), Vec::<usize>::new());
}

fn navigation_and_focus() {
    let mut app = mock_app();
    assert_eq!(app.focused, FocusedSection::GlobalPrefs);
    assert_eq!(app.global_field, GlobalField::Active);

    // Move down within GlobalPrefs
    app.handle_key(KeyCode::Down, KeyModifiers::empty(), true);
    assert_eq!(app.global_field, GlobalField::Timeout);

    app.handle_key(KeyCode::Down, KeyModifiers::empty(), true);
    assert_eq!(app.global_field, GlobalField::PreventSleep);

    // Move down to CycleTime
    app.handle_key(KeyCode::Down, KeyModifiers::empty(), true);
    assert_eq!(app.global_field, GlobalField::CycleTime);

    // Move down to HideStock
    app.handle_key(KeyCode::Down, KeyModifiers::empty(), true);
    assert_eq!(app.global_field, GlobalField::HideStock);

    // Move down wraps around to Active
    app.handle_key(KeyCode::Down, KeyModifiers::empty(), true);
    assert_eq!(app.global_field, GlobalField::Active);

    // Tab cycles focus to SaverList
    app.handle_key(KeyCode::Tab, KeyModifiers::empty(), true);
    assert_eq!(app.focused, FocusedSection::SaverList);

    // SaverList navigation
    assert_eq!(app.highlighted, 0);
    app.handle_key(KeyCode::Down, KeyModifiers::empty(), true);
    assert_eq!(app.highlighted, 1);
}

#[test]
fn app_test_handle_key_navigation_and_focus() {
    navigation_and_focus();
}

#[test]
fn mod_test_handle_key_navigation_and_focus() {
    navigation_and_focus();
}

fn selection_and_apply() {
    let mut app = mock_app();
    assert!(app.local.selected_paths.is_empty());

    // Focus SaverList
    app.focused = FocusedSection::SaverList;

    // Toggle selection on the first item (Bubbles), which also applies it.
    key(&mut app, KeyCode::Char(' '));
    assert_eq!(app.local.selected_paths.len(), 1);
    assert_eq!(app.local.selected_paths[0], "C:\\Windows\\System32\\bubbles.scr");
    assert_eq!(app.global.active_scr, "C:\\Windows\\System32\\bubbles.scr");

    // Toggle selection on the second item (Mystify)
    app.highlighted = 1;
    key(&mut app, KeyCode::Char(' '));
    assert_eq!(app.local.selected_paths.len(), 2);
    assert_eq!(app.local.selected_paths[1], "C:\\Windows\\System32\\mystify.scr");

    // With several selected, the picker itself becomes the screensaver (it runs the cycle).
    assert_eq!(app.global.active_scr, SELF_PATH);
    assert!(app.global.active);

    // Toggle second item again (uncheck Mystify) using Enter (which does the same thing)
    key(&mut app, KeyCode::Enter);
    assert_eq!(app.local.selected_paths.len(), 1);
    assert_eq!(app.global.active_scr, "C:\\Windows\\System32\\bubbles.scr");
}

#[test]
fn app_test_selection_and_apply() {
    selection_and_apply();
}

#[test]
fn mod_test_selection_and_apply() {
    selection_and_apply();
}

fn beams() -> RegistryEntry {
    RegistryEntry {
        name: "beams".to_string(),
        author: "UberMetroid".to_string(),
        description: "Beams screensaver".to_string(),
        download_url: Some("https://example.com/beams.scr".to_string()),
        downloads: None,
        version: "2.0".to_string(),
    }
}

fn registry_merge_and_download() {
    let mut app = mock_app();
    app.focused = FocusedSection::SaverList;

    // Verify initial list has 3 items (Bubbles, Mystify, Ribbons)
    assert_eq!(app.screensavers.len(), 3);

    app.merge_registry_entries(vec![beams()]);

    // Alphabetical without regard to case: beams, Bubbles, Mystify, Ribbons.
    assert_eq!(app.screensavers.len(), 4);
    assert_eq!(app.screensavers[0].name, "beams");
    assert_eq!(app.screensavers[0].download_url.as_deref(), Some("https://example.com/beams.scr"));
    assert_eq!(
        app.screensavers[0].path,
        "C:\\Users\\u\\AppData\\Local\\local76\\screensavers\\beams.scr"
    );
    assert_eq!(app.screensavers[1].name, "Bubbles");

    app.highlighted = 0;

    // Toggling a screensaver that is not on disk starts its download first.
    app.toggle_highlighted_selection(false);
    assert_eq!(app.pending_action, Some(PendingAction::ToggleSelection));
    match app.take_request() {
        Some(Request::StartDownload { name, url }) => {
            assert_eq!(name, "beams");
            assert_eq!(url, "https://example.com/beams.scr");
        },
        other => panic!("expected a download, got {:?}", other),
    }
    assert!(app.local.selected_paths.is_empty());
}

#[test]
fn app_test_registry_merge_and_automated_downloader() {
    registry_merge_and_download();
}

#[test]
fn mod_test_registry_merge_and_automated_downloader() {
    registry_merge_and_download();
}

#[test]
fn merging_twice_adds_nothing() {
    let mut app = mock_app();
    app.merge_registry_entries(vec![beams()]);
    app.merge_registry_entries(vec![beams()]);
    assert_eq!(app.screensavers.len(), 4);
}

#[test]
fn quit_keys() {
    let mut app = mock_app();
    assert!(app.handle_key(KeyCode::Char('c'), KeyModifiers { control: true }, true));
    let mut app = mock_app();
    assert!(!key(&mut app, KeyCode::Char('h')));
    assert!(app.show_help);
    // q closes the help overlay without quitting.
    assert!(!key(&mut app, KeyCode::Char('q')));
    assert!(!app.show_help);
    assert!(key(&mut app, KeyCode::Char('q')));
    let mut app = mock_app();
    assert!(key(&mut app, KeyCode::Esc));
}

#[test]
fn timeout_steps_by_a_minute_within_bounds() {
    let mut app = mock_app();
    key(&mut app, KeyCode::Down);
    assert_eq!(app.global_field, GlobalField::Timeout);
    assert_eq!(app.global.timeout, 600);
    app.handle_key(KeyCode::Right, KeyModifiers::empty(), true);
    assert_eq!(app.global.timeout, 660);
    assert!(matches!(app.take_request(), Some(Request::SaveGlobal)));
    app.resume(Reply::Done);
    key(&mut app, KeyCode::Left);
    key(&mut app, KeyCode::Left);
    assert_eq!(app.global.timeout, 540);
    app.global.timeout = 60;
    app.handle_key(KeyCode::Left, KeyModifiers::empty(), true);
    assert_eq!(app.global.timeout, 60);
    // Nothing changed, so nothing is saved.
    assert!(app.take_request().is_none());
    app.global.timeout = 7200;
    key(&mut app, KeyCode::Right);
    assert_eq!(app.global.timeout, 7200);
}

#[test]
fn cycle_time_steps_by_five_seconds() {
    let mut app = mock_app();
    for _ in 0..3 {
        key(&mut app, KeyCode::Down);
    }
    assert_eq!(app.global_field, GlobalField::CycleTime);
    assert_eq!(app.local.random_cycle_secs, 60);
    key(&mut app, KeyCode::Right);
    assert_eq!(app.local.random_cycle_secs, 65);
    app.local.random_cycle_secs = 5;
    key(&mut app, KeyCode::Left);
    assert_eq!(app.local.random_cycle_secs, 5);
}

#[test]
fn hide_stock_drops_stock_from_the_cycle() {
    let mut app = mock_app();
    app.local.selected_paths = vec![
        "C:\\Windows\\System32\\bubbles.scr".to_string(),
        "D:\\savers\\beams.scr".to_string(),
    ];
    for _ in 0..4 {
        key(&mut app, KeyCode::Down);
    }
    assert_eq!(app.global_field, GlobalField::HideStock);
    key(&mut app, KeyCode::Enter);
    assert!(app.local.hide_stock);
    assert_eq!(app.local.selected_paths, vec!["D:\\savers\\beams.scr".to_string()]);
    assert_eq!(app.local.last_selected.as_deref(), Some("bubbles.scr"));
}

#[test]
fn toggling_active_twice_restores_it() {
    let mut app = mock_app();
    assert!(!app.global.active);
    key(&mut app, KeyCode::Char(' '));
    assert!(app.global.active);
    key(&mut app, KeyCode::Char(' '));
    assert!(!app.global.active);
}

#[test]
fn failed_save_reports_an_error() {
    let mut app = mock_app();
    app.handle_key(KeyCode::Char(' '), KeyModifiers::empty(), true);
    assert!(app.take_request().is_some());
    app.resume(Reply::Failed("disk full".to_string()));
    let status = app.status.as_ref().unwrap();
    assert_eq!(status.kind, StatusKind::Error);
    assert!(status.text.contains("disk full"));
    // Any key press clears an error.
    key(&mut app, KeyCode::Other);
    assert!(app.status.is_none());
}

#[test]
fn deleting_a_stock_screensaver_is_refused() {
    let mut app = mock_app();
    app.focused = FocusedSection::SaverList;
    app.handle_key(KeyCode::Char('d'), KeyModifiers::empty(), true);
    assert!(app.take_request().is_none());
    let status = app.status.as_ref().unwrap();
    assert_eq!(status.kind, StatusKind::Error);
    assert_eq!(status.text, "Cannot delete stock Windows screensavers.");
}

#[test]
fn preview_and_configure_launch_the_highlighted() {
    let mut app = mock_app();
    app.focused = FocusedSection::SaverList;
    app.highlighted = 2;
    app.handle_key(KeyCode::Char('p'), KeyModifiers::empty(), true);
    match app.take_request() {
        Some(Request::Launch { path, arg }) => {
            assert_eq!(path, "C:\\Windows\\System32\\ribbons.scr");
            assert_eq!(arg, "/s");
        },
        other => panic!("expected a launch, got {:?}", other),
    }
    app.resume(Reply::Done);
    app.handle_key(KeyCode::Char('c'), KeyModifiers::empty(), true);
    match app.take_request() {
        Some(Request::Launch { path, arg }) => {
            assert_eq!(path, "C:\\Windows\\System32\\ribbons.scr");
            assert_eq!(arg, "/c");
        },
        other => panic!("expected a launch, got {:?}", other),
    }
    app.resume(Reply::Done);
    assert_eq!(app.status.as_ref().unwrap().text, "Opened settings for Ribbons");
}

#[test]
fn function_keys_fetch_documents() {
    let mut app = mock_app();
    app.handle_key(KeyCode::F(1), KeyModifiers::empty(), true);
    match app.take_request() {
        Some(Request::LoadDocument { name }) => assert_eq!(name, "README.md"),
        other => panic!("expected a document, got {:?}", other),
    }
    app.resume(Reply::Document("# Hello\nworld".to_string()));
    assert_eq!(app.show_markdown.as_deref(), Some("README.md"));
    assert_eq!(app.markdown_lines.len(), 4);
    assert_eq!(app.markdown_lines[1].spans[0].text, "=== HELLO ===");
    // Esc closes the document without quitting.
    assert!(!key(&mut app, KeyCode::Esc));
    assert!(app.show_markdown.is_none());
}

#[test]
fn registry_sync_and_power_events() {
    let mut app = mock_app();
    let same = GlobalConfig::default();
    assert!(!app.check_registry_sync(same));
    let changed = GlobalConfig { active_scr: "x.scr".to_string(), active: true, timeout: 300 };
    assert!(app.check_registry_sync(changed));
    assert_eq!(app.global.timeout, 300);
    assert_eq!(app.global.active_scr, "x.scr");

    app.sync_power_status_if_needed(true);
    assert!(app.on_battery);
    assert_eq!(
        app.status.as_ref().unwrap().text,
        "Power Source Changed: Battery (Power-Saving Throttling Enabled)"
    );
    app.status = None;
    app.sync_power_status_if_needed(true);
    assert!(app.status.is_none());
}

#[test]
fn failed_download_drops_the_pending_action() {
    let mut app = mock_app();
    app.merge_registry_entries(vec![beams()]);
    app.focused = FocusedSection::SaverList;
    app.highlighted = 0;
    app.preview_highlighted(false);
    assert_eq!(app.pending_action, Some(PendingAction::Preview));
    let _ = app.take_request();
    app.download_failed("timeout");
    assert_eq!(app.pending_action, None);
    let status = app.status.as_ref().unwrap();
    assert_eq!(status.kind, StatusKind::Error);
    assert_eq!(status.text, "Download failed: timeout");
}

#[test]
fn new_starts_on_the_last_applied_screensaver() {
    let mut local = LocalConfig::default();
    local.last_selected = Some("mystify.scr".to_string());
    let app = App::new(
        vec![
            saver("Bubbles", "C:\\Windows\\System32\\bubbles.scr"),
            saver("Mystify", "C:\\Windows\\System32\\mystify.scr"),
        ],
        GlobalConfig::default(),
        local,
        TuiTheme::high_contrast(true),
        host(),
    );
    assert_eq!(app.highlighted, 1);
    assert!(app.request.is_none());
}

#[test]
fn pref_lines_show_the_settings() {
    let mut app = mock_app();
    let lines = app.pref_lines();
    assert_eq!(lines.len(), 5);
    let texts: Vec<String> = lines
        .iter()
        .map(|l| l.spans.iter().map(|s| s.text.as_str()).collect::<String>())
        .collect();
    assert_eq!(texts[0], " \u{25b6} Active:         DISABLED");
    assert_eq!(texts[1], "   Timeout:        10 minutes");
    assert_eq!(texts[2], "   Prevent sleep:  DISABLED (NORMAL)");
    assert_eq!(texts[3], "   Cycle time:     60 seconds");
    assert_eq!(texts[4], "   Hide stock:     NO");
    assert!(lines[0].spans[1].style.bold);
    app.global.active = true;
    app.global.timeout = 90;
    app.focused = FocusedSection::SaverList;
    let lines = app.pref_lines();
    assert_eq!(lines[0].spans[3].text, "ACTIVE");
    assert_eq!(lines[0].spans[0].text, "   ");
    assert_eq!(lines[1].spans[3].text, "1 minutes");
}

#[test]
fn list_rows_mark_selection_and_kind() {
    let mut app = mock_app();
    app.merge_registry_entries(vec![beams()]);
    app.local.selected_paths = vec!["C:\\Windows\\System32\\mystify.scr".to_string()];
    let rows = app.list_rows(&vec![false, true, true, true]);
    assert_eq!(rows.len(), 4);
    // beams: not on disk, custom
    assert_eq!(rows[0].spans[0].text, "no        ");
    assert_eq!(rows[0].spans[2].text, "Custom");
    assert_eq!(rows[0].spans[1].style.fg, Some(app.theme.accent_primary));
    // Mystify: selected, stock
    assert_eq!(rows[2].spans[0].text, "yes       ");
    assert_eq!(rows[2].spans[1].text, format!("{:<30}  ", "Mystify"));
    assert_eq!(rows[2].spans[2].text, "Stock");
}

#[test]
fn status_expires_but_errors_stay() {
    let mut app = mock_app();
    key(&mut app, KeyCode::Tab);
    assert!(app.status.is_some());
    app.expire_info_status();
    assert!(app.status.is_none());
    app.download_failed("x");
    app.expire_info_status();
    assert!(app.status.is_some());
}

#[test]
fn tab_twice_returns_focus() {
    let mut app = mock_app();
    key(&mut app, KeyCode::Tab);
    assert_eq!(app.focused, FocusedSection::SaverList);
    assert_eq!(app.status.as_ref().unwrap().text, "Focused Section: Screensaver List");
    key(&mut app, KeyCode::BackTab);
    assert_eq!(app.focused, FocusedSection::GlobalPrefs);
    assert_eq!(app.status.as_ref().unwrap().text, "Focused Section: Global Preferences");
}

#[test]
fn list_moves_stop_at_ends() {
    let mut app = mock_app();
    app.focused = FocusedSection::SaverList;
    key(&mut app, KeyCode::Up);
    assert_eq!(app.highlighted, 0);
    key(&mut app, KeyCode::Down);
    key(&mut app, KeyCode::Down);
    assert_eq!(app.highlighted, 2);
    key(&mut app, KeyCode::Down);
    assert_eq!(app.highlighted, 2);
    key(&mut app, KeyCode::Up);
    assert_eq!(app.highlighted, 1);
    key(&mut app, KeyCode::Down);
    assert_eq!(app.highlighted, 2);
}

#[test]
fn d_downloads_a_missing_registry_scene() {
    let mut app = mock_app();
    app.merge_registry_entries(vec![beams()]);
    app.focused = FocusedSection::SaverList;
    app.highlighted = 0;
    let quit = app.handle_key(KeyCode::Char('d'), KeyModifiers::empty(), false);
    assert!(!quit);
    assert_eq!(app.pending_action, None);
    match app.take_request() {
        Some(Request::StartDownload { name, url }) => {
            assert_eq!(name, "beams");
            assert_eq!(url, "https://example.com/beams.scr");
        },
        other => panic!("expected a download, got {:?}", other),
    }
    // Once it is on disk, `d` deletes it.
    app.handle_key(KeyCode::Char('d'), KeyModifiers::empty(), true);
    assert!(matches!(app.take_request(), Some(Request::RemoveFile { .. })));
}

#[test]
fn a_document_that_cannot_be_loaded_is_reported() {
    let mut app = mock_app();
    app.handle_key(KeyCode::F(3), KeyModifiers::empty(), true);
    assert!(matches!(app.take_request(), Some(Request::LoadDocument { .. })));
    app.resume(Reply::Failed("not installed".to_string()));
    assert!(app.show_markdown.is_none());
    let status = app.status.as_ref().unwrap();
    assert_eq!(status.kind, StatusKind::Error);
    assert_eq!(status.text, "Failed to open LICENSE.md: not installed");
}

#[test]
fn timeout_right_then_left_restores() {
    let mut app = mock_app();
    key(&mut app, KeyCode::Down);
    key(&mut app, KeyCode::Right);
    key(&mut app, KeyCode::Left);
    assert_eq!(app.global.timeout, 600);
}

#[test]
fn resolving_twice_is_resolving_once() {
    let mut app = mock_app();
    app.merge_registry_entries(vec![beams()]);
    app.highlighted = 1;
    app.local.hide_stock = true;
    app.resolve_highlight();
    assert_eq!(app.highlighted, 0);
    app.resolve_highlight();
    assert_eq!(app.highlighted, 0);
    app.local.hide_stock = false;
    app.highlighted = 7;
    app.resolve_highlight();
    assert_eq!(app.highlighted, 0);
}

#[test]
fn failures_of_outside_work_are_reported() {
    let mut app = mock_app();
    app.merge_registry_entries(vec![beams()]);
    app.focused = FocusedSection::SaverList;
    app.highlighted = 0;
    // A registry screensaver not on disk cannot be deleted.
    app.delete_highlighted(false);
    assert_eq!(app.status.as_ref().unwrap().text, "Screensaver is not downloaded locally.");
    assert!(app.take_request().is_none());
    // Once on disk it can; a failed removal is reported.
    app.delete_highlighted(true);
    assert!(matches!(app.take_request(), Some(Request::RemoveFile { .. })));
    app.resume(Reply::Failed("denied".to_string()));
    assert_eq!(app.status.as_ref().unwrap().text, "Failed to delete: denied");
    assert_eq!(app.status.as_ref().unwrap().kind, StatusKind::Error);
    // Failed launches.
    app.highlighted = 1;
    app.preview_highlighted(true);
    let _ = app.take_request();
    app.resume(Reply::Failed("no such file".to_string()));
    assert_eq!(app.status.as_ref().unwrap().text, "Preview failed: no such file");
    app.configure_highlighted(true);
    let _ = app.take_request();
    app.resume(Reply::Failed("no such file".to_string()));
    assert_eq!(app.status.as_ref().unwrap().text, "Configure failed: no such file");
}

#[test]
fn deleting_a_selected_screensaver_drops_it_and_rediscovers() {
    let mut app = mock_app();
    app.merge_registry_entries(vec![beams()]);
    let beams_path = app.screensavers[0].path.clone();
    app.local.selected_paths = vec![beams_path.clone()];
    app.focused = FocusedSection::SaverList;
    app.highlighted = 0;
    app.delete_highlighted(true);
    match app.take_request() {
        Some(Request::RemoveFile { path }) => assert_eq!(path, beams_path),
        other => panic!("expected a removal, got {:?}", other),
    }
    app.resume(Reply::Done);
    assert!(app.local.selected_paths.is_empty());
    assert_eq!(app.status.as_ref().unwrap().text, "Deleted screensaver: beams");
    assert!(matches!(app.take_request(), Some(Request::SaveLocal)));
    app.resume(Reply::Done);
    assert!(matches!(app.take_request(), Some(Request::Discover)));
    app.resume(Reply::Screensavers(vec![
        saver("Bubbles", "C:\\Windows\\System32\\bubbles.scr"),
        saver("Mystify", "C:\\Windows\\System32\\mystify.scr"),
    ]));
    // The registry entry comes back as a download.
    assert_eq!(app.screensavers.len(), 3);
    assert_eq!(app.screensavers[0].name, "beams");
}

#[test]
fn header_buttons_and_clicks() {
    assert_eq!(header_buttons(0, 0, 100, 30), ((1, 84, 90), (1, 93, 99)));
    assert_eq!(header_buttons(2, 5, 40, 30), ((6, 36, 42), (6, 45, 51)));
    let (help, quit) = header_buttons(0, 0, 100, 30);
    let mut app = mock_app();
    app.click(10, 1, Some(help), Some(quit));
    assert!(!app.show_help && !app.should_quit);
    app.click(85, 1, Some(help), Some(quit));
    assert!(app.show_help);
    assert_eq!(app.status.as_ref().unwrap().text, "Help overlay active. Press ESC/q to close.");
    app.click(89, 1, Some(help), Some(quit));
    assert!(!app.show_help);
    assert_eq!(app.status.as_ref().unwrap().text, "Help overlay closed.");
    app.click(90, 1, Some(help), Some(quit));
    assert!(!app.should_quit);
    app.click(93, 1, Some(help), Some(quit));
    assert!(app.should_quit);
}
