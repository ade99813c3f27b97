//! The tray icon's state machine: Normal, Warning (a latched warning dot)
//! and Critical (the keyboard hook is dead), and the one-shot hook-dead
//! notification.

use vstd::prelude::*;

verus! {

/// Visual tray icon state.
#[derive(Debug, Clone, Copy, PartialEq, Eq, Structural)]
pub enum TrayState {
    Normal,
    Warning,
    Critical,
}

/// The state to show when the hook recovers from Critical: the warning dot
/// while a warning is latched, otherwise Normal.
pub fn state_after_recovery(warning_latched: bool) -> (s: TrayState)
    ensures
        s == if warning_latched {
            TrayState::Warning
        } else {
            TrayState::Normal
        },
{
    if warning_latched {
        TrayState::Warning
    } else {
        TrayState::Normal
    }
}

/// What the tray remembers between messages.
#[derive(Debug, Clone, Copy, PartialEq, Eq, Structural)]
pub struct TrayStatus {
    pub state: TrayState,
    pub warning_latched: bool,
    pub hook_dead_toast_sent: bool,
}

/// A message that changes the tray.
#[derive(Debug, Clone, Copy, PartialEq, Eq, Structural)]
pub enum TrayEvent {
    /// A warning was logged.
    LogWarning,
    /// A hook refresh succeeded.
    HookRefreshOk,
    /// The hook was reported dead.
    HookDead,
}

/// What the caller does after an event: redraw the icon, and show the
/// hook-dead notification.
#[derive(Debug, Clone, Copy, PartialEq, Eq, Structural)]
pub struct TrayAction {
    pub redraw: bool,
    pub hook_dead_toast: bool,
}

impl TrayStatus {
    pub fn new() -> (s: Self)
        ensures
            s == (TrayStatus {
                state: TrayState::Normal,
                warning_latched: false,
                hook_dead_toast_sent: false,
            }),
    {
        TrayStatus { state: TrayState::Normal, warning_latched: false, hook_dead_toast_sent: false }
    }
}

/// The status after an event.
pub open spec fn tray_step(s: TrayStatus, event: TrayEvent) -> TrayStatus {
    match event {
        TrayEvent::LogWarning => TrayStatus {
            state: if s.state == TrayState::Critical {
                TrayState::Critical
            } else {
                TrayState::Warning
            },
            warning_latched: true,
            ..s
        },
        TrayEvent::HookRefreshOk => TrayStatus {
            state: if s.state == TrayState::Critical {
                if s.warning_latched {
                    TrayState::Warning
                } else {
                    TrayState::Normal
                }
            } else {
                s.state
            },
            hook_dead_toast_sent: false,
            ..s
        },
        TrayEvent::HookDead => TrayStatus {
            state: TrayState::Critical,
            hook_dead_toast_sent: true,
            ..s
        },
    }
}

/// Apply one event. The icon is redrawn only when its state changes; the
/// hook-dead notification is shown once until a refresh succeeds.
pub fn on_tray_event(status: &mut TrayStatus, event: TrayEvent) -> (a: TrayAction)
    ensures
        *final(status) == tray_step(*old(status), event),
        a.redraw == (final(status).state != old(status).state),
        a.hook_dead_toast == (event == TrayEvent::HookDead && !old(status).hook_dead_toast_sent),
{
    let before = status.state;
    let mut toast = false;
    match event {
        TrayEvent::LogWarning => {
            status.warning_latched = true;
            if status.state != TrayState::Critical {
                status.state = TrayState::Warning;
            }
        },
        TrayEvent::HookRefreshOk => {
            if status.state == TrayState::Critical {
                status.state = state_after_recovery(status.warning_latched);
            }
            status.hook_dead_toast_sent = false;
        },
        TrayEvent::HookDead => {
            status.state = TrayState::Critical;
            if !status.hook_dead_toast_sent {
                toast = true;
                status.hook_dead_toast_sent = true;
            }
        },
    }
    TrayAction { redraw: status.state != before, hook_dead_toast: toast }
}

/// Critical is never downgraded by a warning, a warning is never lost across
/// a recovery, and the hook-dead notification is shown at most once per
/// outage.
pub proof fn lemma_tray_precedence(s: TrayStatus)
    ensures
        s.state == TrayState::Critical ==> tray_step(s, TrayEvent::LogWarning).state
            == TrayState::Critical,
        tray_step(tray_step(tray_step(s, TrayEvent::LogWarning), TrayEvent::HookDead), TrayEvent::HookRefreshOk).state
            == TrayState::Warning,
        tray_step(s, TrayEvent::HookDead).hook_dead_toast_sent,
        tray_step(tray_step(s, TrayEvent::HookDead), TrayEvent::HookRefreshOk).state != TrayState::Critical,
{
}

/// `WM_CONTEXTMENU`: the keyboard menu key on the tray icon.
pub const WM_CONTEXTMENU: u32 = 0x007B;

/// `WM_RBUTTONUP`: a right click on the tray icon.
pub const WM_RBUTTONUP: u32 = 0x0205;

/// A 16-bit field read as a signed screen coordinate.
pub open spec fn signed16(v: int) -> int {
    if v >= 0x8000 {
        v - 0x10000
    } else {
        v
    }
}

fn low_signed16(v: usize) -> (r: i32)
    ensures
        r == signed16(v as int % 0x10000),
{
    let lo = v & 0xFFFF;
    assert(lo == v % 0x10000) by (bit_vector)
        requires
            lo == v & 0xFFFF,
    ;
    let lo32 = lo as i32;
    if lo32 >= 0x8000 {
        lo32 - 0x10000
    } else {
        lo32
    }
}

/// Where to open the tray menu for a tray-icon callback (the version-4
/// protocol): only a right click or the menu key opens it, and the anchor is
/// the low and high 16 bits of `wparam`, each sign-extended so coordinates on
/// a monitor left of or above the primary one stay negative.
pub fn tray_menu_anchor(lparam: isize, wparam: usize) -> (r: Option<(i32, i32)>)
    ensures
        ({
            let event = (lparam as u32) & 0xFFFF;
            if event == WM_CONTEXTMENU || event == WM_RBUTTONUP {
                r == Some(
                    (
                        signed16(wparam as int % 0x10000) as i32,
                        signed16((wparam as int / 0x10000) % 0x10000) as i32,
                    ),
                )
            } else {
                r is None
            }
        }),
{
    let event = (#[verifier::truncate] (lparam as u32)) & 0xFFFF;
    if event != WM_CONTEXTMENU && event != WM_RBUTTONUP {
        return None;
    }
    let hi = wparam >> 16;
    assert(hi == wparam / 0x10000) by (bit_vector)
        requires
            hi == wparam >> 16,
    ;
    Some((low_signed16(wparam), low_signed16(hi)))
}

} // verus!
