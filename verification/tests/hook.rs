use wiradesk::command::{Command, Shortcut};
use wiradesk::config::HookSnapshot;
use wiradesk::context::BypassPolicy;
use wiradesk::hook::{
    handle_key_event_with_bypass, install_snapshot, lease_action, match_shortcut,
    next_hook_check_state, reap_dead_lease, record_hook_check, stage_snapshot, store_lease,
    take_staged_snapshot, throttle_allows, unstage_snapshot, Chords, HookRuntime,
    KeyHandleOutcome, KeyHandleResult, LeaseAction, ModifierState, SnapshotSlot,
    CAPTURE_LEASE_NONE, CAPTURE_LEASE_OBSERVE, CAPTURE_LEASE_RECORD, VK_LCONTROL, VK_LMENU,
    VK_LSHIFT, VK_LWIN, VK_RWIN,
};
use wiradesk::ring::{pop, CommandRing};
use wiradesk::hook::{resolve_startup_chord, StartupChord};
use wiradesk::hook::{keyboard_event_of, LLKHF_INJECTED, WM_KEYDOWN, WM_KEYUP, WM_SYSKEYDOWN, WM_SYSKEYUP};

const VK_BACKTICK: u32 = 0xC0;
const VK_1: u32 = 0x31;
const VK_LEFT: u32 = 0x25;
const VK_RIGHT: u32 = 0x27;
const VK_DOWN: u32 = 0x28;

fn chord(win: bool, ctrl: bool, alt: bool, shift: bool, vk: u16) -> Shortcut {
    Shortcut { win, ctrl, alt, shift, vk }
}

/// `win+backtick`, `alt+backtick`, `ctrl+win+left`, `ctrl+win+right`,
/// `ctrl+win+enter`, `ctrl+win+down`.
fn shipped_chords() -> Chords {
    Chords {
        primary: Some(chord(true, false, false, false, 0xC0)),
        fallback: Some(chord(false, false, true, false, 0xC0)),
        snap_left: Some(chord(true, true, false, false, 0x25)),
        snap_right: Some(chord(true, true, false, false, 0x27)),
        snap_maximize: Some(chord(true, true, false, false, 0x0D)),
        stack: Some(chord(true, true, false, false, 0x28)),
    }
}

fn win_backtick() -> Shortcut {
    chord(true, false, false, false, 0xC0)
}

fn alt_backtick() -> Shortcut {
    chord(false, false, true, false, 0xC0)
}

fn test_runtime(primary: Shortcut, fallback: Shortcut) -> HookRuntime {
    HookRuntime::new(
        Chords { primary: Some(primary), fallback: Some(fallback), ..shipped_chords() },
        BypassPolicy::default(),
    )
}

/// One key event with no bypass context and the given lease holder in the
/// foreground.
fn key(rt: &mut HookRuntime, ring: &mut CommandRing, vk: u32, down: bool, fg: u32) -> KeyHandleOutcome {
    handle_key_event_with_bypass(rt, vk, down, 10_000, ring, || false, || fg)
}

#[test]
fn exact_primary_match() {
    let mods = ModifierState { win: true, ..Default::default() };
    assert_eq!(match_shortcut(&shipped_chords(), mods, 0xC0), Some(Command::Cycle.as_u8()));
}

#[test]
fn exact_snap_left_match() {
    let mods = ModifierState { win: true, ctrl: true, ..Default::default() };
    assert_eq!(match_shortcut(&shipped_chords(), mods, 0x25), Some(Command::SnapLeft.as_u8()));
}

#[test]
fn extra_modifier_is_non_match() {
    let mods = ModifierState { win: true, ctrl: true, ..Default::default() };
    assert!(match_shortcut(&shipped_chords(), mods, 0xC0).is_none());
}

#[test]
fn an_unbound_chord_matches_nothing() {
    let chords = Chords { snap_left: None, ..shipped_chords() };
    let mods = ModifierState { win: true, ctrl: true, ..Default::default() };
    assert!(match_shortcut(&chords, mods, 0x25).is_none());
    assert_eq!(match_shortcut(&chords, mods, 0x27), Some(Command::SnapRight.as_u8()));
}

#[test]
fn the_declared_order_is_the_precedence_order() {
    let clash = chord(true, true, false, false, 0x28);
    let chords = Chords { snap_right: Some(clash), stack: Some(clash), ..shipped_chords() };
    let order = chords.in_declared_order();
    let first = order.iter().position(|s| s.chord == Some(clash)).expect("in the sequence");
    assert_eq!(order[first].command, Command::SnapRight.as_u8());
    let mods = ModifierState { win: true, ctrl: true, ..Default::default() };
    assert_eq!(match_shortcut(&chords, mods, VK_DOWN as u16), Some(Command::SnapRight.as_u8()));
}

#[test]
fn throttle_boundary() {
    assert!(throttle_allows(0, 100));
    assert!(!throttle_allows(100, 149));
    assert!(throttle_allows(100, 150));
}

#[test]
fn a_clock_that_went_backwards_keeps_the_throttle_closed() {
    assert!(!throttle_allows(500, 100));
}

#[test]
fn win_up_passes_through_after_win_shortcut() {
    let mut rt = test_runtime(win_backtick(), alt_backtick());
    let mut ring = CommandRing::new();
    assert_eq!(key(&mut rt, &mut ring, VK_LWIN, true, 0).disposition, KeyHandleResult::PassToNext);
    assert_eq!(key(&mut rt, &mut ring, VK_BACKTICK, true, 0).disposition, KeyHandleResult::Swallow);
    assert_eq!(key(&mut rt, &mut ring, VK_BACKTICK, false, 0).disposition, KeyHandleResult::Swallow);
    assert_eq!(key(&mut rt, &mut ring, VK_LWIN, false, 0).disposition, KeyHandleResult::PassToNext);
}

#[test]
fn no_modifier_release_is_ever_swallowed() {
    for modifier in [VK_LWIN, VK_RWIN, VK_LCONTROL, VK_LMENU, VK_LSHIFT] {
        let mut rt = test_runtime(win_backtick(), alt_backtick());
        let mut ring = CommandRing::new();
        let _ = key(&mut rt, &mut ring, VK_LWIN, true, 0);
        let _ = key(&mut rt, &mut ring, VK_BACKTICK, true, 0);
        let _ = key(&mut rt, &mut ring, VK_BACKTICK, false, 0);
        assert_eq!(
            key(&mut rt, &mut ring, modifier, false, 0).disposition,
            KeyHandleResult::PassToNext,
            "modifier {modifier:#x} release was swallowed - it would stick"
        );
    }
}

#[test]
fn win_up_not_suppressed_for_alt_fallback() {
    let mut rt = test_runtime(win_backtick(), alt_backtick());
    let mut ring = CommandRing::new();
    assert_eq!(key(&mut rt, &mut ring, VK_LMENU, true, 0).disposition, KeyHandleResult::PassToNext);
    assert_eq!(key(&mut rt, &mut ring, VK_BACKTICK, true, 0).disposition, KeyHandleResult::Swallow);
    assert_eq!(key(&mut rt, &mut ring, VK_LWIN, false, 0).disposition, KeyHandleResult::PassToNext);
}

#[test]
fn an_accepted_chord_enqueues_its_command_once_per_throttle_window() {
    let mut rt = test_runtime(win_backtick(), alt_backtick());
    let mut ring = CommandRing::new();
    let _ = handle_key_event_with_bypass(&mut rt, VK_LWIN, true, 1_000, &mut ring, || false, || 0);
    let first = handle_key_event_with_bypass(&mut rt, VK_BACKTICK, true, 1_000, &mut ring, || false, || 0);
    assert!(first.enqueued);
    assert_eq!(rt.last_throttle_ms, 1_000);
    let _ = handle_key_event_with_bypass(&mut rt, VK_BACKTICK, false, 1_010, &mut ring, || false, || 0);
    let second = handle_key_event_with_bypass(&mut rt, VK_BACKTICK, true, 1_020, &mut ring, || false, || 0);
    assert_eq!(second.disposition, KeyHandleResult::Swallow);
    assert!(!second.enqueued, "a repeat inside the throttle window is dropped");
    assert_eq!(pop(&mut ring), Some(Command::Cycle.as_u8()));
    assert_eq!(pop(&mut ring), None);
}

#[test]
fn a_chord_in_a_bypass_context_latches_until_every_modifier_is_up() {
    let mut rt = test_runtime(win_backtick(), alt_backtick());
    let mut ring = CommandRing::new();
    let _ = handle_key_event_with_bypass(&mut rt, VK_LWIN, true, 1_000, &mut ring, || true, || 0);
    let down = handle_key_event_with_bypass(&mut rt, VK_BACKTICK, true, 1_000, &mut ring, || true, || 0);
    assert_eq!(down.disposition, KeyHandleResult::PassToNext);
    assert!(!down.enqueued);
    assert!(rt.bypass_latched);
    let up = handle_key_event_with_bypass(&mut rt, VK_BACKTICK, false, 1_000, &mut ring, || false, || 0);
    assert_eq!(up.disposition, KeyHandleResult::PassToNext);
    let again = handle_key_event_with_bypass(&mut rt, VK_BACKTICK, true, 1_000, &mut ring, || false, || 0);
    assert_eq!(again.disposition, KeyHandleResult::PassToNext, "the latched chord passes whole");
    let _ = handle_key_event_with_bypass(&mut rt, VK_LWIN, false, 1_000, &mut ring, || false, || 0);
    assert!(!rt.bypass_latched);
    assert_eq!(pop(&mut ring), None);
}

#[test]
fn a_full_ring_drops_the_command_but_still_swallows_the_chord() {
    let mut rt = test_runtime(win_backtick(), alt_backtick());
    let mut ring = CommandRing::new();
    for _ in 0..16 {
        assert!(wiradesk::ring::push(&mut ring, 0));
    }
    let _ = key(&mut rt, &mut ring, VK_LWIN, true, 0);
    let out = key(&mut rt, &mut ring, VK_BACKTICK, true, 0);
    assert_eq!(out.disposition, KeyHandleResult::Swallow);
    assert!(!out.enqueued);
    assert_eq!(rt.last_throttle_ms, 0, "a dropped command does not start the throttle");
}

#[test]
fn lease_none_takes_no_action() {
    let mut rt = test_runtime(win_backtick(), alt_backtick());
    rt.capture_lease_level = CAPTURE_LEASE_NONE;
    rt.capture_lease_pid = 4321;
    assert_eq!(lease_action(&rt, || 4321), None);
}

#[test]
fn lease_fails_closed_when_settings_is_not_foreground() {
    let mut rt = test_runtime(win_backtick(), alt_backtick());
    rt.capture_lease_level = CAPTURE_LEASE_RECORD;
    rt.capture_lease_pid = 4321;
    assert_eq!(lease_action(&rt, || 999), None);
}

#[test]
fn lease_observe_action_is_reported_without_a_record_action() {
    let mut rt = test_runtime(win_backtick(), alt_backtick());
    rt.capture_lease_level = CAPTURE_LEASE_OBSERVE;
    rt.capture_lease_pid = 4321;
    assert_eq!(lease_action(&rt, || 4321), Some(LeaseAction::Observe));
}

#[test]
fn lease_record_action() {
    let mut rt = test_runtime(win_backtick(), alt_backtick());
    rt.capture_lease_level = CAPTURE_LEASE_RECORD;
    rt.capture_lease_pid = 4321;
    assert_eq!(lease_action(&rt, || 4321), Some(LeaseAction::Record));
}

#[test]
fn record_lease_swallows_an_unconfigured_chord_before_match_shortcut() {
    let mut rt = test_runtime(win_backtick(), alt_backtick());
    let mut ring = CommandRing::new();
    rt.capture_lease_level = CAPTURE_LEASE_RECORD;
    rt.capture_lease_pid = 777;
    let _ = key(&mut rt, &mut ring, VK_LWIN, true, 777);
    let outcome = key(&mut rt, &mut ring, VK_1, true, 777);
    assert_eq!(outcome.disposition, KeyHandleResult::Swallow);
    assert!(!outcome.enqueued);
    assert!(outcome.reported);
}

#[test]
fn observe_lease_passes_an_unconfigured_chord_through_without_swallowing() {
    let mut rt = test_runtime(win_backtick(), alt_backtick());
    let mut ring = CommandRing::new();
    rt.capture_lease_level = CAPTURE_LEASE_OBSERVE;
    rt.capture_lease_pid = 777;
    let _ = key(&mut rt, &mut ring, VK_LWIN, true, 777);
    let outcome = key(&mut rt, &mut ring, VK_1, true, 777);
    assert_eq!(outcome.disposition, KeyHandleResult::PassToNext);
    assert!(!outcome.enqueued);
}

#[test]
fn lease_never_fires_without_a_modifier_held() {
    let mut rt = test_runtime(win_backtick(), alt_backtick());
    let mut ring = CommandRing::new();
    rt.capture_lease_level = CAPTURE_LEASE_RECORD;
    rt.capture_lease_pid = 777;
    let outcome = key(&mut rt, &mut ring, VK_1, true, 777);
    assert_eq!(outcome.disposition, KeyHandleResult::PassToNext);
    assert!(!outcome.reported);
}

#[test]
fn observe_lease_reports_a_second_key_pressed_without_releasing_modifiers() {
    let mut rt = test_runtime(win_backtick(), alt_backtick());
    let mut ring = CommandRing::new();
    rt.capture_lease_level = CAPTURE_LEASE_OBSERVE;
    rt.capture_lease_pid = 777;
    let _ = key(&mut rt, &mut ring, VK_LCONTROL, true, 777);
    let _ = key(&mut rt, &mut ring, VK_LMENU, true, 777);
    let first = key(&mut rt, &mut ring, VK_LEFT, true, 777);
    assert_eq!(first.disposition, KeyHandleResult::PassToNext);
    assert!(!rt.bypass_latched);
    let _ = key(&mut rt, &mut ring, VK_LEFT, false, 777);
    assert!(rt.mods.ctrl && rt.mods.alt);
    let second = key(&mut rt, &mut ring, VK_RIGHT, true, 777);
    assert_eq!(second.disposition, KeyHandleResult::PassToNext);
    assert!(second.reported);
    assert!(!rt.bypass_latched);
}

#[test]
fn hook_lease_message_stores_level_and_pid_verbatim() {
    let mut rt = test_runtime(win_backtick(), alt_backtick());
    store_lease(&mut rt, CAPTURE_LEASE_RECORD, 4242);
    assert_eq!(rt.capture_lease_level, CAPTURE_LEASE_RECORD);
    assert_eq!(rt.capture_lease_pid, 4242);
    store_lease(&mut rt, CAPTURE_LEASE_NONE, 4242);
    assert_eq!(rt.capture_lease_level, CAPTURE_LEASE_NONE);
    assert_eq!(rt.capture_lease_pid, 0, "a lease of level none has no holder");
}

#[test]
fn a_lease_whose_holder_exited_is_reaped() {
    let mut rt = test_runtime(win_backtick(), alt_backtick());
    store_lease(&mut rt, CAPTURE_LEASE_OBSERVE, 55);
    assert!(!reap_dead_lease(&mut rt, true));
    assert_eq!(rt.capture_lease_pid, 55);
    assert!(reap_dead_lease(&mut rt, false));
    assert_eq!(rt.capture_lease_level, CAPTURE_LEASE_NONE);
    assert_eq!(rt.capture_lease_pid, 0);
    assert!(!reap_dead_lease(&mut rt, false), "nothing left to reap");
}

#[test]
fn next_hook_check_state_resets_on_success() {
    assert_eq!(next_hook_check_state(2, true), (0, false));
}

#[test]
fn next_hook_check_state_escalates_after_threshold() {
    assert_eq!(next_hook_check_state(0, false), (1, false));
    assert_eq!(next_hook_check_state(1, false), (2, false));
    assert_eq!(next_hook_check_state(2, false), (3, true));
}

#[test]
fn next_hook_check_state_keeps_escalating_while_still_failing() {
    assert_eq!(next_hook_check_state(3, false), (4, true));
}

#[test]
fn the_runtime_counts_failed_refreshes_and_resets_on_success() {
    let mut rt = test_runtime(win_backtick(), alt_backtick());
    assert!(!record_hook_check(&mut rt, false));
    assert!(!record_hook_check(&mut rt, false));
    assert!(record_hook_check(&mut rt, false));
    assert_eq!(rt.hook_check_fail_count, 3);
    assert!(!record_hook_check(&mut rt, true));
    assert_eq!(rt.hook_check_fail_count, 0);
}

fn snapshot(primary: Shortcut) -> HookSnapshot {
    HookSnapshot {
        chords: Chords { primary: Some(primary), ..shipped_chords() },
        bypass: BypassPolicy::default(),
    }
}

fn ctrl_alt_tab() -> Shortcut {
    chord(false, true, true, false, 0x09)
}

#[test]
fn staged_snapshot_is_collected_exactly_once() {
    let mut slot = SnapshotSlot::new();
    stage_snapshot(&mut slot, snapshot(win_backtick()));
    let taken = take_staged_snapshot(&mut slot).expect("a staged snapshot must be collectable");
    assert_eq!(taken.chords.primary, Some(win_backtick()));
    assert!(take_staged_snapshot(&mut slot).is_none());
}

#[test]
fn staging_again_supersedes_an_uncollected_snapshot() {
    let mut slot = SnapshotSlot::new();
    stage_snapshot(&mut slot, snapshot(win_backtick()));
    stage_snapshot(&mut slot, snapshot(ctrl_alt_tab()));
    let taken = take_staged_snapshot(&mut slot).expect("the newer snapshot must be present");
    assert_eq!(taken.chords.primary, Some(ctrl_alt_tab()));
    assert!(take_staged_snapshot(&mut slot).is_none(), "only one may be staged");
}

#[test]
fn unstaging_after_a_failed_post_leaves_nothing_to_collect() {
    let mut slot = SnapshotSlot::new();
    let ticket = stage_snapshot(&mut slot, snapshot(win_backtick()));
    unstage_snapshot(&mut slot, ticket);
    assert!(take_staged_snapshot(&mut slot).is_none());
}

#[test]
fn unstaging_is_a_no_op_once_the_hook_has_collected() {
    let mut slot = SnapshotSlot::new();
    let ticket = stage_snapshot(&mut slot, snapshot(win_backtick()));
    let _ = take_staged_snapshot(&mut slot).expect("staged");
    unstage_snapshot(&mut slot, ticket);
    assert!(take_staged_snapshot(&mut slot).is_none());
}

#[test]
fn a_stale_withdrawal_does_not_remove_a_newer_staging() {
    let mut slot = SnapshotSlot::new();
    let old = stage_snapshot(&mut slot, snapshot(win_backtick()));
    stage_snapshot(&mut slot, snapshot(ctrl_alt_tab()));
    unstage_snapshot(&mut slot, old);
    let taken = take_staged_snapshot(&mut slot).expect("the newer staging survives");
    assert_eq!(taken.chords.primary, Some(ctrl_alt_tab()));
}

#[test]
fn installing_a_snapshot_replaces_the_chords() {
    let mut rt = test_runtime(win_backtick(), alt_backtick());
    install_snapshot(&mut rt, snapshot(ctrl_alt_tab()));
    assert_eq!(rt.chords.primary, Some(ctrl_alt_tab()));
    let mods = ModifierState { ctrl: true, alt: true, ..Default::default() };
    assert_eq!(match_shortcut(&rt.chords, mods, 0x09), Some(Command::Cycle.as_u8()));
    let win = ModifierState { win: true, ..Default::default() };
    assert_eq!(match_shortcut(&rt.chords, win, 0xC0), None);
}

#[test]
fn only_real_key_transitions_reach_the_shortcut_logic() {
    assert_eq!(keyboard_event_of(0, 0, WM_KEYDOWN, false), Some(true));
    assert_eq!(keyboard_event_of(0, 0, WM_SYSKEYDOWN, false), Some(true));
    assert_eq!(keyboard_event_of(0, 0, WM_KEYUP, false), Some(false));
    assert_eq!(keyboard_event_of(0, 0, WM_SYSKEYUP, false), Some(false));
    assert_eq!(keyboard_event_of(-1, 0, WM_KEYDOWN, false), None);
    assert_eq!(keyboard_event_of(3, 0, WM_KEYDOWN, false), None);
    assert_eq!(keyboard_event_of(0, LLKHF_INJECTED, WM_KEYDOWN, false), None, "the daemon's own injection is ignored");
    assert_eq!(keyboard_event_of(0, LLKHF_INJECTED, WM_KEYDOWN, true), Some(true));
    assert_eq!(keyboard_event_of(0, 0x01, WM_KEYDOWN, false), Some(true), "extended keys are real keys");
    assert_eq!(keyboard_event_of(0, 0, 0x0102, false), None);
}

#[test]
fn startup_keeps_a_valid_configured_chord() {
    let configured = Shortcut { win: false, ctrl: true, alt: true, shift: false, vk: 0x09 };
    let default = Shortcut { win: true, ctrl: false, alt: false, shift: false, vk: 0xC0 };
    assert_eq!(
        resolve_startup_chord(Some(configured), false, Some(default)),
        (configured, StartupChord::Configured)
    );
}

#[test]
fn startup_degrades_a_reserved_or_invalid_chord_to_the_default() {
    let configured = Shortcut { win: true, ctrl: false, alt: false, shift: false, vk: 0x4C };
    let default = Shortcut { win: false, ctrl: false, alt: true, shift: false, vk: 0xC0 };
    assert_eq!(
        resolve_startup_chord(Some(configured), true, Some(default)),
        (default, StartupChord::ReservedFallback)
    );
    assert_eq!(resolve_startup_chord(None, false, Some(default)), (default, StartupChord::InvalidFallback));
    let last_resort = Shortcut { win: true, ctrl: false, alt: false, shift: false, vk: 0xC0 };
    assert_eq!(resolve_startup_chord(None, false, None), (last_resort, StartupChord::InvalidFallback));
}
