use xiaomi_debloater::adb::{AdbCommand, AdbError};
use xiaomi_debloater::model::{InstalledBloat, PackageEntry, Risk};
use xiaomi_debloater::ui::{handle_key, App, Key, KeyOutcome};

fn pkg(id: &str, category: &str, risk: Risk) -> PackageEntry {
    PackageEntry {
        id: id.to_string(),
        category: category.to_string(),
        description: format!("About {id}"),
        risk,
    }
}

fn catalog() -> Vec<PackageEntry> {
    vec![
        pkg("com.miui.analytics", "Analytics", Risk::Safe),
        pkg("com.xiaomi.finddevice", "Security", Risk::Advanced),
        pkg("com.miui.weather2", "Apps", Risk::Caution),
        pkg("com.not.installed", "Apps", Risk::Safe),
        pkg("com.mi.globalbrowser", "apps", Risk::Safe),
    ]
}

fn installed() -> Vec<String> {
    ["com.miui.analytics", "com.xiaomi.finddevice", "com.miui.weather2", "com.mi.globalbrowser", "com.other"]
        .iter()
        .map(|s| s.to_string())
        .collect()
}

fn new_app() -> App {
    App::new(catalog(), &installed(), Some("abc123".to_string()), "Xiaomi Redmi (Android 13) serial abc123".to_string())
}

fn ids(app: &App) -> Vec<&str> {
    app.items.iter().map(|b| b.meta.id.as_str()).collect()
}

#[test]
fn new_list_is_sorted_and_hides_advanced() {
    let app = new_app();
    assert_eq!(
        ids(&app),
        vec!["com.miui.analytics", "com.mi.globalbrowser", "com.miui.weather2", "com.xiaomi.finddevice"]
    );
    assert!(!app.show_advanced);
    assert_eq!(app.visible_indices, vec![0, 1, 2]);
    assert_eq!(app.selected, Some(0));
    assert_eq!(app.status, "Ready \u{2014} 4 catalog packages currently installed. Toggle Advanced with A.");
    assert!(app.log.is_empty());
}

#[test]
fn toggling_advanced_twice_restores_rows() {
    let mut app = new_app();
    assert!(matches!(handle_key(&mut app, Key::Char('A')), KeyOutcome::Stay));
    assert!(app.show_advanced);
    assert_eq!(app.visible_indices, vec![0, 1, 2, 3]);
    assert_eq!(app.status, "Advanced packages visible");
    handle_key(&mut app, Key::Char('A'));
    assert_eq!(app.visible_indices, vec![0, 1, 2]);
    assert_eq!(app.status, "Advanced packages hidden");
}

#[test]
fn selection_wraps_around() {
    let mut app = new_app();
    handle_key(&mut app, Key::Up);
    assert_eq!(app.selected, Some(2));
    handle_key(&mut app, Key::Down);
    assert_eq!(app.selected, Some(0));
    handle_key(&mut app, Key::Down);
    handle_key(&mut app, Key::Down);
    handle_key(&mut app, Key::Down);
    assert_eq!(app.selected, Some(0));
}

#[test]
fn space_toggles_highlighted_entry() {
    let mut app = new_app();
    handle_key(&mut app, Key::Down);
    handle_key(&mut app, Key::Char(' '));
    assert!(app.items[1].selected);
    assert_eq!(app.count_selected(), 1);
    assert_eq!(app.selected_visible_pkgs(), vec!["com.mi.globalbrowser"]);
    handle_key(&mut app, Key::Char(' '));
    assert!(!app.items[1].selected);
}

#[test]
fn select_all_and_clear_touch_only_visible_rows() {
    let mut app = new_app();
    handle_key(&mut app, Key::Char('a'));
    assert_eq!(app.status, "Selected all visible packages.");
    assert_eq!(app.count_selected(), 3);
    assert!(!app.items[3].selected);
    handle_key(&mut app, Key::Char('c'));
    assert_eq!(app.status, "Cleared selection (visible).");
    assert_eq!(app.count_selected(), 0);
}

#[test]
fn remove_without_selection_is_refused() {
    let mut app = new_app();
    assert!(matches!(handle_key(&mut app, Key::Char('x')), KeyOutcome::Stay));
    assert!(!app.confirm_remove);
    assert_eq!(app.status, "No packages selected.");
}

#[test]
fn remove_asks_then_cancel() {
    let mut app = new_app();
    handle_key(&mut app, Key::Char('a'));
    handle_key(&mut app, Key::Char('X'));
    assert!(app.confirm_remove);
    assert_eq!(app.status, "Confirm removal of 3 package(s).");
    // Other keys are ignored while confirming, quitting too.
    assert!(matches!(handle_key(&mut app, Key::Char('q')), KeyOutcome::Stay));
    assert!(app.confirm_remove);
    assert!(matches!(handle_key(&mut app, Key::Esc), KeyOutcome::Stay));
    assert!(!app.confirm_remove);
    assert_eq!(app.status, "Cancelled.");
}

#[test]
fn confirmed_removal_then_results_then_refresh() {
    let mut app = new_app();
    app.log.push("old".to_string());
    handle_key(&mut app, Key::Down);
    handle_key(&mut app, Key::Char(' '));
    handle_key(&mut app, Key::Down);
    handle_key(&mut app, Key::Char(' '));
    handle_key(&mut app, Key::Char('x'));
    let packages = match handle_key(&mut app, Key::Char('y')) {
        KeyOutcome::Remove { packages } => packages,
        other => panic!("unexpected {:?}", other),
    };
    assert_eq!(packages, vec!["com.mi.globalbrowser", "com.miui.weather2"]);
    assert!(!app.confirm_remove);
    assert!(app.log.is_empty());
    let results = vec![
        Ok("Success".to_string()),
        Err(AdbError::UninstallFailed { package: "com.miui.weather2".to_string(), output: "Failure".to_string() }),
    ];
    app.record_removal(&packages, &results);
    assert_eq!(
        app.log,
        vec!["OK  com.mi.globalbrowser: Success", "ERR com.miui.weather2: com.miui.weather2: Failure"]
    );
    assert_eq!(app.status, "Done. Success: 1, failed: 1. Press r to refresh list.");
    assert_eq!(app.count_selected(), 0);
    let now: Vec<String> = vec!["com.miui.weather2".to_string(), "com.xiaomi.finddevice".to_string()];
    app.apply_refresh(&now);
    assert_eq!(ids(&app), vec!["com.miui.weather2", "com.xiaomi.finddevice"]);
    assert_eq!(app.visible_indices, vec![0]);
    assert_eq!(app.selected, Some(0));
    assert_eq!(app.status, "Refreshed \u{2014} 2 known bloat packages installed.");
    assert_eq!(app.log.len(), 2);
}

#[test]
fn could_not_run_is_logged_with_its_context() {
    let mut app = new_app();
    let packages = vec!["com.miui.analytics".to_string()];
    let results = vec![Err(AdbError::CouldNotRun { command: AdbCommand::Uninstall })];
    app.record_removal(&packages, &results);
    assert_eq!(app.log, vec!["ERR com.miui.analytics: pm uninstall failed"]);
    assert_eq!(app.status, "Done. Success: 0, failed: 1. Press r to refresh list.");
}

#[test]
fn refresh_key_clears_log_and_quit_keys() {
    let mut app = new_app();
    app.log.push("line".to_string());
    assert!(matches!(handle_key(&mut app, Key::Char('r')), KeyOutcome::Refresh));
    assert!(app.log.is_empty());
    assert!(matches!(handle_key(&mut app, Key::Char('Q')), KeyOutcome::Quit));
    assert!(matches!(handle_key(&mut app, Key::Other), KeyOutcome::Stay));
}

#[test]
fn refresh_unmarks_and_clamps_selection() {
    let mut app = new_app();
    handle_key(&mut app, Key::Char('a'));
    handle_key(&mut app, Key::Up);
    assert_eq!(app.selected, Some(2));
    app.apply_refresh(&vec!["com.miui.analytics".to_string()]);
    assert_eq!(ids(&app), vec!["com.miui.analytics"]);
    assert!(!app.items[0].selected);
    assert_eq!(app.selected, Some(0));
    app.apply_refresh(&Vec::new());
    assert!(app.items.is_empty());
    assert_eq!(app.selected, None);
    assert!(matches!(handle_key(&mut app, Key::Up), KeyOutcome::Stay));
    assert_eq!(app.selected, None);
}

#[test]
fn empty_list_keys() {
    let mut app = App::new(Vec::new(), &Vec::new(), None, String::new());
    assert_eq!(app.selected, None);
    handle_key(&mut app, Key::Down);
    handle_key(&mut app, Key::Char(' '));
    assert_eq!(app.selected, None);
    let _ = InstalledBloat { meta: pkg("a", "b", Risk::Safe), selected: false };
}

#[test]
fn keys_with_highlight_past_the_rows() {
    let mut app = new_app();
    app.selected = Some(7);
    assert!(matches!(handle_key(&mut app, Key::Char(' ')), KeyOutcome::Stay));
    assert_eq!(app.count_selected(), 0);
    handle_key(&mut app, Key::Down);
    assert_eq!(app.selected, Some(0));
    app.selected = Some(7);
    handle_key(&mut app, Key::Up);
    assert_eq!(app.selected, Some(6));
}
