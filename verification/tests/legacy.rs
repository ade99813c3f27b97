use wiradesk::legacy::{LEGACY_MUTEX, LEGACY_TASK_NAME, LEGACY_WINDOW_CLASS, LEGACY_WINDOW_TITLE};

#[test]
fn legacy_constants_are_stable() {
    assert_eq!(LEGACY_TASK_NAME, "WinTick");
    assert_eq!(LEGACY_MUTEX, "Global\\WinTickSingleInstanceMutex");
    assert_eq!(LEGACY_WINDOW_CLASS, "WinTickDaemonHiddenWindow");
    assert_eq!(LEGACY_WINDOW_TITLE, "WinTickDaemon");
}
