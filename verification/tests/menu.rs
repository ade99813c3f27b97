use wiradesk::menu::{
    about_text, menu_action, menu_entries, MenuAction, MenuEntry, CMD_ABOUT, CMD_AUTOSTART,
    CMD_EXIT, CMD_SETTINGS, CMD_UPDATE, CMD_VIEW_LOGS, MF_CHECKED, MF_SEPARATOR, MF_STRING,
    MF_UNCHECKED,
};

fn labels(m: &[MenuEntry]) -> Vec<(u32, u32, &str)> {
    m.iter().map(|e| (e.flags, e.id, e.label.as_str())).collect()
}

#[test]
fn the_menu_lists_its_groups_in_order() {
    let m = menu_entries(false, None);
    assert_eq!(
        labels(&m),
        vec![
            (MF_STRING, CMD_SETTINGS, "&Settings..."),
            (MF_STRING, CMD_VIEW_LOGS, "&View Logs"),
            (MF_UNCHECKED, CMD_AUTOSTART, "&Auto-Start"),
            (MF_SEPARATOR, 0, ""),
            (MF_STRING, CMD_ABOUT, "A&bout"),
            (MF_SEPARATOR, 0, ""),
            (MF_STRING, CMD_EXIT, "E&xit"),
        ]
    );
}

#[test]
fn the_auto_start_check_follows_the_registration() {
    let m = menu_entries(true, None);
    assert_eq!(m[2].flags, MF_CHECKED);
    assert_eq!(m[2].id, CMD_AUTOSTART);
}

#[test]
fn an_available_update_is_offered_first() {
    let m = menu_entries(false, Some("0.2.0"));
    assert_eq!(m.len(), 9);
    assert_eq!(labels(&m)[0], (MF_STRING, CMD_UPDATE, "&Update to 0.2.0..."));
    assert_eq!(m[1].flags, MF_SEPARATOR);
    assert_eq!(m[2].id, CMD_SETTINGS);
}

#[test]
fn each_choice_maps_to_its_action() {
    assert_eq!(menu_action(0), None, "dismissed without a choice");
    assert_eq!(menu_action(CMD_SETTINGS), Some(MenuAction::OpenSettings));
    assert_eq!(menu_action(CMD_UPDATE), Some(MenuAction::OpenSettings));
    assert_eq!(menu_action(CMD_VIEW_LOGS), Some(MenuAction::ViewLogs));
    assert_eq!(menu_action(CMD_AUTOSTART), Some(MenuAction::ToggleAutoStart));
    assert_eq!(menu_action(CMD_ABOUT), Some(MenuAction::ShowAbout));
    assert_eq!(menu_action(CMD_EXIT), Some(MenuAction::Exit));
    assert_eq!(menu_action(99), None);
}

#[test]
fn the_about_text_names_the_version() {
    let t = about_text("0.1.4");
    assert!(t.starts_with("Wira Desk v0.1.4\n\n"));
    assert!(t.ends_with("elevated system tray service."));
}
