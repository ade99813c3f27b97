use wiradesk::tray::{on_tray_event, state_after_recovery, TrayAction, TrayEvent, TrayState, TrayStatus};
use wiradesk::tray::{tray_menu_anchor, WM_CONTEXTMENU, WM_RBUTTONUP};

#[test]
fn state_after_recovery_restores_latched_warning() {
    assert_eq!(state_after_recovery(true), TrayState::Warning);
    assert_eq!(state_after_recovery(false), TrayState::Normal);
}

#[test]
fn a_warning_latches_and_critical_outranks_it() {
    let mut status = TrayStatus::new();
    let a = on_tray_event(&mut status, TrayEvent::LogWarning);
    assert_eq!(a, TrayAction { redraw: true, hook_dead_toast: false });
    assert_eq!(status.state, TrayState::Warning);
    assert!(status.warning_latched);

    let a = on_tray_event(&mut status, TrayEvent::HookDead);
    assert_eq!(a, TrayAction { redraw: true, hook_dead_toast: true });
    assert_eq!(status.state, TrayState::Critical);

    let a = on_tray_event(&mut status, TrayEvent::LogWarning);
    assert_eq!(a, TrayAction { redraw: false, hook_dead_toast: false });
    assert_eq!(status.state, TrayState::Critical);

    let a = on_tray_event(&mut status, TrayEvent::HookRefreshOk);
    assert_eq!(a, TrayAction { redraw: true, hook_dead_toast: false });
    assert_eq!(status.state, TrayState::Warning, "recovery keeps the latched warning");
}

#[test]
fn the_hook_dead_notification_is_shown_once_per_outage() {
    let mut status = TrayStatus::new();
    assert!(on_tray_event(&mut status, TrayEvent::HookDead).hook_dead_toast);
    assert!(!on_tray_event(&mut status, TrayEvent::HookDead).hook_dead_toast);
    let a = on_tray_event(&mut status, TrayEvent::HookRefreshOk);
    assert!(a.redraw);
    assert_eq!(status.state, TrayState::Normal);
    assert!(on_tray_event(&mut status, TrayEvent::HookDead).hook_dead_toast);
}

#[test]
fn only_a_right_click_or_the_menu_key_opens_the_menu() {
    let at = |x: i32, y: i32| ((x as u16 as usize) | ((y as u16 as usize) << 16)) as usize;
    assert_eq!(tray_menu_anchor(WM_RBUTTONUP as isize, at(100, 200)), Some((100, 200)));
    assert_eq!(tray_menu_anchor(WM_CONTEXTMENU as isize, at(-1920, -5)), Some((-1920, -5)));
    // The high word of lParam carries the icon id and is ignored.
    assert_eq!(tray_menu_anchor((1isize << 16) | WM_RBUTTONUP as isize, at(3, 4)), Some((3, 4)));
    assert_eq!(tray_menu_anchor(0x0201, at(3, 4)), None, "a left click opens nothing");
}
