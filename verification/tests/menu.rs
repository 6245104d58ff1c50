use netdash_desktop::{app_menu_entries, menu_action, tray_menu_entries, MenuAction};

fn script_of(id: &str) -> Option<String> {
    match menu_action(id) {
        MenuAction::RunScript(s) => Some(s),
        _ => None,
    }
}

#[test]
fn menu_ids_map_to_actions() {
    assert!(matches!(menu_action("app.open"), MenuAction::ShowMainWindow));
    assert_eq!(script_of("file.reload").unwrap(), "window.location.reload();");
    assert_eq!(script_of("file.back").unwrap(), "window.history.back();");
    assert_eq!(script_of("file.forward").unwrap(), "window.history.forward();");
    assert!(matches!(menu_action("file.settings"), MenuAction::OpenSettingsWindow));
    assert!(matches!(menu_action("file.clear-cache-cookies"), MenuAction::ClearCacheAndCookies));
    assert!(matches!(menu_action("file.toggle-devtools"), MenuAction::OpenDevtools));
    assert!(matches!(menu_action("app.quit"), MenuAction::Quit));
}

#[test]
fn hint_and_unknown_ids_do_nothing() {
    assert!(matches!(menu_action("tray.hint"), MenuAction::Nothing));
    assert!(matches!(menu_action(""), MenuAction::Nothing));
    assert!(matches!(menu_action("app.quit "), MenuAction::Nothing));
    assert!(matches!(menu_action("APP.QUIT"), MenuAction::Nothing));
}

#[test]
fn app_menu_layout_without_devtools() {
    let entries = app_menu_entries(false);
    let ids: Vec<&str> = entries.iter().map(|e| e.id.as_str()).collect();
    assert_eq!(
        ids,
        vec![
            "app.open",
            "file.reload",
            "file.back",
            "file.forward",
            "file.settings",
            "file.clear-cache-cookies",
            "app.quit"
        ]
    );
    assert_eq!(entries[1].label, "Reload");
    assert_eq!(entries[1].accelerator.as_deref(), Some("CmdOrControl+R"));
    assert_eq!(entries[0].accelerator, None);
    assert!(entries.iter().all(|e| e.enabled));
}

#[test]
fn app_menu_layout_with_devtools() {
    let entries = app_menu_entries(true);
    assert_eq!(entries.len(), 8);
    assert_eq!(entries[6].id, "file.toggle-devtools");
    assert_eq!(entries[6].label, "Toggle DevTools (Dev Only)");
    assert_eq!(entries[6].accelerator.as_deref(), Some("CmdOrControl+Shift+I"));
    assert_eq!(entries[7].id, "app.quit");
}

#[test]
fn tray_menu_layout() {
    let entries = tray_menu_entries();
    let ids: Vec<&str> = entries.iter().map(|e| e.id.as_str()).collect();
    assert_eq!(ids, vec!["app.open", "tray.hint", "file.reload", "file.clear-cache-cookies", "app.quit"]);
    assert!(!entries[1].enabled);
    assert_eq!(entries[1].label, "App is running in tray");
    assert_eq!(entries[4].accelerator.as_deref(), Some("CmdOrControl+Q"));
}
