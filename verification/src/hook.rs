//! Decisions of the low-level keyboard hook: modifier tracking, chord
//! matching in declared order, the anti-macro throttle, the observe/record
//! capture lease, the foreground bypass latch, and the hook health counter.
//!
//! Everything here is a function of the hook's state and one key event; the
//! caller performs the outside work (reading the foreground window, waking the
//! worker, reporting a recorded chord) that an outcome asks for.

use vstd::prelude::*;

use crate::command::{command_byte, Command, Shortcut};
use crate::config::HookSnapshot;
use crate::context::BypassPolicy;
use crate::ring::{push, CommandRing};

verus! {

pub const VK_LWIN: u32 = 0x5B;
pub const VK_RWIN: u32 = 0x5C;
pub const VK_LCONTROL: u32 = 0xA2;
pub const VK_RCONTROL: u32 = 0xA3;
pub const VK_LMENU: u32 = 0xA4;
pub const VK_RMENU: u32 = 0xA5;
pub const VK_LSHIFT: u32 = 0xA0;
pub const VK_RSHIFT: u32 = 0xA1;

/// Minimum spacing, in milliseconds, between two accepted shortcuts.
pub const ANTI_MACRO_THROTTLE_MS: u64 = 50;

/// Consecutive failed hook refreshes after which the hook is reported dead.
pub const HOOK_CHECK_FAIL_THRESHOLD: u32 = 3;

/// Capture lease levels.
pub const CAPTURE_LEASE_NONE: usize = 0;
pub const CAPTURE_LEASE_OBSERVE: usize = 1;
pub const CAPTURE_LEASE_RECORD: usize = 2;

/// `vk` is one of the eight modifier keys.
pub open spec fn is_modifier(vk: u32) -> bool {
    vk == VK_LWIN || vk == VK_RWIN || vk == VK_LCONTROL || vk == VK_RCONTROL || vk == VK_LMENU
        || vk == VK_RMENU || vk == VK_LSHIFT || vk == VK_RSHIFT
}

/// Collapsed modifier state derived from hook events.
#[derive(Debug, Clone, Copy, Default, PartialEq, Eq, Structural)]
pub struct ModifierState {
    pub win: bool,
    pub ctrl: bool,
    pub alt: bool,
    pub shift: bool,
}

impl ModifierState {
    /// The state after a press (`key_down`) or release of `vk`.
    pub open spec fn applied(self, vk: u32, key_down: bool) -> ModifierState {
        if vk == VK_LWIN || vk == VK_RWIN {
            ModifierState { win: key_down, ctrl: self.ctrl, alt: self.alt, shift: self.shift }
        } else if vk == VK_LCONTROL || vk == VK_RCONTROL {
            ModifierState { win: self.win, ctrl: key_down, alt: self.alt, shift: self.shift }
        } else if vk == VK_LMENU || vk == VK_RMENU {
            ModifierState { win: self.win, ctrl: self.ctrl, alt: key_down, shift: self.shift }
        } else if vk == VK_LSHIFT || vk == VK_RSHIFT {
            ModifierState { win: self.win, ctrl: self.ctrl, alt: self.alt, shift: key_down }
        } else {
            self
        }
    }

    /// Some modifier is held: a chord is in progress.
    pub open spec fn held(self) -> bool {
        self.win || self.ctrl || self.alt || self.shift
    }

    /// No modifier held.
    pub fn none() -> (m: ModifierState)
        ensures
            !m.held(),
    {
        ModifierState { win: false, ctrl: false, alt: false, shift: false }
    }

    pub fn apply_vk(&mut self, vk: u32, key_down: bool)
        ensures
            *final(self) == old(self).applied(vk, key_down),
    {
        if vk == VK_LWIN || vk == VK_RWIN {
            self.win = key_down;
        } else if vk == VK_LCONTROL || vk == VK_RCONTROL {
            self.ctrl = key_down;
        } else if vk == VK_LMENU || vk == VK_RMENU {
            self.alt = key_down;
        } else if vk == VK_LSHIFT || vk == VK_RSHIFT {
            self.shift = key_down;
        }
    }

    /// True while any modifier is still held.
    pub fn any(&self) -> (b: bool)
        ensures
            b == self.held(),
    {
        self.win || self.ctrl || self.alt || self.shift
    }

    pub fn is_modifier_vk(vk: u32) -> (b: bool)
        ensures
            b == is_modifier(vk),
    {
        vk == VK_LWIN || vk == VK_RWIN || vk == VK_LCONTROL || vk == VK_RCONTROL || vk == VK_LMENU
            || vk == VK_RMENU || vk == VK_LSHIFT || vk == VK_RSHIFT
    }
}

/// Every chord the hook matches against. `None` is an unbound action: no
/// chord reaches it.
#[derive(Debug, Clone, Copy, PartialEq, Eq, Default, Structural)]
pub struct Chords {
    pub primary: Option<Shortcut>,
    pub fallback: Option<Shortcut>,
    pub snap_left: Option<Shortcut>,
    pub snap_right: Option<Shortcut>,
    pub snap_maximize: Option<Shortcut>,
    pub stack: Option<Shortcut>,
}

/// One entry of the declared sequence: a chord and the command it resolves to.
pub struct ChordSlot {
    pub chord: Option<Shortcut>,
    pub command: u8,
}

impl Chords {
    /// The declared sequence, which decides both which action a chord
    /// resolves to and, when two actions carry one chord, which keeps it.
    pub open spec fn declared_slots(self) -> Seq<ChordSlot> {
        seq![
            ChordSlot { chord: self.primary, command: command_byte(Command::Cycle) },
            ChordSlot { chord: self.fallback, command: command_byte(Command::Cycle) },
            ChordSlot { chord: self.snap_left, command: command_byte(Command::SnapLeft) },
            ChordSlot { chord: self.snap_right, command: command_byte(Command::SnapRight) },
            ChordSlot { chord: self.snap_maximize, command: command_byte(Command::SnapMaximize) },
            ChordSlot { chord: self.stack, command: command_byte(Command::OverlappingStack) },
        ]
    }

    pub fn in_declared_order(&self) -> (r: [ChordSlot; 6])
        ensures
            r@ == self.declared_slots(),
    {
        let r = [
            ChordSlot { chord: self.primary, command: Command::Cycle.as_u8() },
            ChordSlot { chord: self.fallback, command: Command::Cycle.as_u8() },
            ChordSlot { chord: self.snap_left, command: Command::SnapLeft.as_u8() },
            ChordSlot { chord: self.snap_right, command: Command::SnapRight.as_u8() },
            ChordSlot { chord: self.snap_maximize, command: Command::SnapMaximize.as_u8() },
            ChordSlot { chord: self.stack, command: Command::OverlappingStack.as_u8() },
        ];
        assert(r@ =~= self.declared_slots());
        r
    }
}

/// The chord every installation falls back to when even a shipped default
/// does not parse: Win + backtick.
pub open spec fn last_resort_chord() -> Shortcut {
    Shortcut { win: true, ctrl: false, alt: false, shift: false, vk: 0xC0 }
}

/// How one chord was settled at startup.
#[derive(Debug, Clone, Copy, PartialEq, Eq, Structural)]
pub enum StartupChord {
    /// The configured chord is used.
    Configured,
    /// The configured chord belongs to the system; the default is used.
    ReservedFallback,
    /// The configured string did not parse; the default is used.
    InvalidFallback,
}

/// The chord startup settles on: the configured one when it parsed and is
/// not reserved, else the shipped default, else the last resort.
pub open spec fn startup_chord(parsed: Option<Shortcut>, reserved: bool, default: Option<Shortcut>) -> (Shortcut, StartupChord) {
    let fallback = match default {
        Some(d) => d,
        None => last_resort_chord(),
    };
    match parsed {
        Some(p) => if reserved {
            (fallback, StartupChord::ReservedFallback)
        } else {
            (p, StartupChord::Configured)
        },
        None => (fallback, StartupChord::InvalidFallback),
    }
}

/// Settle one configured chord at startup, where neither an unparseable
/// string nor a reserved chord may stop the daemon: both degrade to the
/// default, and the second component says which happened so the caller can
/// warn. `parsed` is the configured string parsed (`None` if it did not),
/// `reserved` whether that chord belongs to the system, `default` the
/// shipped default parsed.
pub fn resolve_startup_chord(parsed: Option<Shortcut>, reserved: bool, default: Option<Shortcut>) -> (r: (Shortcut, StartupChord))
    ensures
        r == startup_chord(parsed, reserved, default),
{
    let fallback = match default {
        Some(d) => d,
        None => Shortcut { win: true, ctrl: false, alt: false, shift: false, vk: 0xC0 },
    };
    match parsed {
        Some(p) => if reserved {
            (fallback, StartupChord::ReservedFallback)
        } else {
            (p, StartupChord::Configured)
        },
        None => (fallback, StartupChord::InvalidFallback),
    }
}

/// The command of the first slot whose chord is `current`.
pub open spec fn first_match(slots: Seq<ChordSlot>, current: Shortcut) -> Option<u8>
    decreases slots.len(),
{
    if slots.len() == 0 {
        None
    } else if slots[0].chord == Some(current) {
        Some(slots[0].command)
    } else {
        first_match(slots.drop_first(), current)
    }
}

/// Each action's chord runs that action's own command: the two cycle
/// chords cycle, the snap chords snap to their side, the maximize chord
/// maximizes and the stack chord stacks. When two actions carry one chord,
/// the one declared first keeps it, and a chord no action carries runs
/// nothing.
pub proof fn lemma_each_chord_runs_its_own_command(chords: Chords, c: Shortcut)
    ensures
        ({
            let m = first_match(chords.declared_slots(), c);
            let k = Some(c);
            &&& chords.primary == k ==> m == Some(command_byte(Command::Cycle))
            &&& chords.primary != k && chords.fallback == k ==> m == Some(command_byte(Command::Cycle))
            &&& chords.primary != k && chords.fallback != k && chords.snap_left == k ==> m == Some(
                command_byte(Command::SnapLeft),
            )
            &&& chords.primary != k && chords.fallback != k && chords.snap_left != k
                && chords.snap_right == k ==> m == Some(command_byte(Command::SnapRight))
            &&& chords.primary != k && chords.fallback != k && chords.snap_left != k
                && chords.snap_right != k && chords.snap_maximize == k ==> m == Some(
                command_byte(Command::SnapMaximize),
            )
            &&& chords.primary != k && chords.fallback != k && chords.snap_left != k
                && chords.snap_right != k && chords.snap_maximize != k && chords.stack == k ==> m
                == Some(command_byte(Command::OverlappingStack))
            &&& chords.primary != k && chords.fallback != k && chords.snap_left != k
                && chords.snap_right != k && chords.snap_maximize != k && chords.stack != k ==> m
                is None
        }),
{
    let s0 = chords.declared_slots();
    let s1 = s0.drop_first();
    let s2 = s1.drop_first();
    let s3 = s2.drop_first();
    let s4 = s3.drop_first();
    let s5 = s4.drop_first();
    let s6 = s5.drop_first();
    assert(s1[0] == s0[1]);
    assert(s2[0] == s0[2]);
    assert(s3[0] == s0[3]);
    assert(s4[0] == s0[4]);
    assert(s5[0] == s0[5]);
    assert(s6.len() == 0);
    assert(first_match(s6, c) is None);
    assert(first_match(s5, c) == if s5[0].chord == Some(c) { Some(s5[0].command) } else { first_match(s6, c) });
    assert(first_match(s4, c) == if s4[0].chord == Some(c) { Some(s4[0].command) } else { first_match(s5, c) });
    assert(first_match(s3, c) == if s3[0].chord == Some(c) { Some(s3[0].command) } else { first_match(s4, c) });
    assert(first_match(s2, c) == if s2[0].chord == Some(c) { Some(s2[0].command) } else { first_match(s3, c) });
    assert(first_match(s1, c) == if s1[0].chord == Some(c) { Some(s1[0].command) } else { first_match(s2, c) });
    assert(first_match(s0, c) == if s0[0].chord == Some(c) { Some(s0[0].command) } else { first_match(s1, c) });
}

/// The chord formed by the held modifiers and a main key.
pub open spec fn chord_of(mods: ModifierState, vk: u16) -> Shortcut {
    Shortcut { win: mods.win, ctrl: mods.ctrl, alt: mods.alt, shift: mods.shift, vk }
}

/// Exact chord match, first match in declared order wins.
pub fn match_shortcut(chords: &Chords, mods: ModifierState, vk: u16) -> (r: Option<u8>)
    ensures
        r == first_match(chords.declared_slots(), chord_of(mods, vk)),
{
    let current = Shortcut { win: mods.win, ctrl: mods.ctrl, alt: mods.alt, shift: mods.shift, vk };
    let order = chords.in_declared_order();
    let ghost slots = chords.declared_slots();
    let mut i: usize = 0;
    assert(slots.subrange(0, 6) =~= slots);
    while i < 6
        invariant
            i <= 6,
            order@ == slots,
            slots == chords.declared_slots(),
            current == chord_of(mods, vk),
            first_match(slots, current) == first_match(slots.subrange(i as int, 6), current),
        decreases 6 - i,
    {
        let ghost rest = slots.subrange(i as int, 6);
        assert(rest[0] == order@[i as int]);
        assert(rest.drop_first() =~= slots.subrange(i + 1, 6));
        match order[i].chord {
            Some(s) => {
                if s == current {
                    assert(rest[0].chord == Some(current));
                    assert(first_match(rest, current) == Some(rest[0].command));
                    let cmd = order[i].command;
                    assert(cmd == rest[0].command);

                    return Some(cmd);
                }
            },
            None => {},
        }
        i = i + 1;
    }
    assert(slots.subrange(6, 6).len() == 0);
    None
}

/// A new shortcut is accepted at `now_ms` unless one was accepted less than
/// the throttle interval before.
pub open spec fn throttle_open(last_accept_ms: u64, now_ms: u64) -> bool {
    last_accept_ms == 0 || (now_ms >= last_accept_ms && now_ms - last_accept_ms
        >= ANTI_MACRO_THROTTLE_MS)
}

/// Returns `true` when `now_ms` may accept a new throttled shortcut.
pub fn throttle_allows(last_accept_ms: u64, now_ms: u64) -> (b: bool)
    ensures
        b == throttle_open(last_accept_ms, now_ms),
{
    last_accept_ms == 0 || now_ms.saturating_sub(last_accept_ms) >= ANTI_MACRO_THROTTLE_MS
}

/// The hook health counter after one refresh: a success resets it, a failure
/// counts, and from the threshold on every failure escalates.
pub fn next_hook_check_state(current_fail_count: u32, install_succeeded: bool) -> (r: (u32, bool))
    requires
        install_succeeded || current_fail_count < u32::MAX,
    ensures
        install_succeeded ==> r == (0u32, false),
        !install_succeeded ==> r.0 == current_fail_count + 1 && r.1 == (current_fail_count + 1
            >= HOOK_CHECK_FAIL_THRESHOLD),
{
    if install_succeeded {
        return (0, false);
    }
    let count = current_fail_count + 1;
    (count, count >= HOOK_CHECK_FAIL_THRESHOLD)
}

/// What the observe/record lease decides for a keystroke.
#[derive(Debug, Clone, Copy, PartialEq, Eq, Structural)]
pub enum LeaseAction {
    /// Report, but let the chord reach the system.
    Observe,
    /// Report and swallow.
    Record,
}

/// The lease decision, given the stored level and holder and the process
/// that owns the foreground: nothing unless the holder is in the foreground.
pub open spec fn lease_decision(level: usize, holder: u32, foreground: u32) -> Option<LeaseAction> {
    if level == CAPTURE_LEASE_NONE || holder == 0 {
        None
    } else if foreground != holder {
        None
    } else if level >= CAPTURE_LEASE_RECORD {
        Some(LeaseAction::Record)
    } else if level >= CAPTURE_LEASE_OBSERVE {
        Some(LeaseAction::Observe)
    } else {
        None
    }
}

/// Whether the hook passes an event on or swallows it.
#[derive(Debug, Clone, Copy, PartialEq, Eq, Structural)]
pub enum KeyHandleResult {
    PassToNext,
    Swallow,
}

/// The result of one key event: its disposition, whether a command byte was
/// enqueued (the caller then wakes the worker), and whether the chord is to
/// be reported to the lease holder.
#[derive(Debug, Clone, Copy, PartialEq, Eq, Structural)]
pub struct KeyHandleOutcome {
    pub disposition: KeyHandleResult,
    pub enqueued: bool,
    pub reported: bool,
}

/// The hook's decision state.
pub struct HookRuntime {
    pub chords: Chords,
    pub mods: ModifierState,
    pub last_throttle_ms: u64,
    pub swallow_release_vk: u16,
    pub hook_check_fail_count: u32,
    /// Immutable foreground-bypass policy of the current configuration.
    pub bypass_policy: BypassPolicy,
    /// Latched once a chord begins inside a bypass context, until every
    /// modifier is up.
    pub bypass_latched: bool,
    pub capture_lease_level: usize,
    pub capture_lease_pid: u32,
}

impl HookRuntime {
    /// A swallowed key-up is only ever pending for a non-modifier key.
    pub open spec fn wf(&self) -> bool {
        self.swallow_release_vk == 0 || !is_modifier(self.swallow_release_vk as u32)
    }

    /// A fresh runtime: no modifier held, nothing pending, no lease.
    pub fn new(chords: Chords, bypass_policy: BypassPolicy) -> (rt: Self)
        ensures
            rt.wf(),
            rt.chords == chords,
            rt.bypass_policy == bypass_policy,
            !rt.mods.held(),
            rt.last_throttle_ms == 0,
            rt.swallow_release_vk == 0,
            rt.hook_check_fail_count == 0,
            !rt.bypass_latched,
            rt.capture_lease_level == CAPTURE_LEASE_NONE,
            rt.capture_lease_pid == 0,
    {
        HookRuntime {
            chords,
            mods: ModifierState::none(),
            last_throttle_ms: 0,
            swallow_release_vk: 0,
            hook_check_fail_count: 0,
            bypass_policy,
            bypass_latched: false,
            capture_lease_level: CAPTURE_LEASE_NONE,
            capture_lease_pid: 0,
        }
    }
}

/// The lease decision for the runtime's stored lease; the foreground lookup
/// runs only when a lease is armed.
pub fn lease_action<G>(rt: &HookRuntime, foreground_pid: G) -> (r: Option<LeaseAction>) where
    G: FnOnce() -> u32,

    requires
        call_requires(foreground_pid, ()),
    ensures
        exists|p: u32|
            #[trigger] lease_decision(rt.capture_lease_level, rt.capture_lease_pid, p) == r && ((
            rt.capture_lease_level != CAPTURE_LEASE_NONE && rt.capture_lease_pid != 0)
                ==> call_ensures(foreground_pid, (), p)),
{
    let level = rt.capture_lease_level;
    let pid = rt.capture_lease_pid;
    if level == CAPTURE_LEASE_NONE || pid == 0 {
        assert(lease_decision(level, pid, 0) == None::<LeaseAction>);
        return None;
    }
    let fg = foreground_pid();
    assert(lease_decision(level, pid, fg) == lease_decision(level, pid, fg));
    if fg != pid {
        return None;
    }
    if level >= CAPTURE_LEASE_RECORD {
        Some(LeaseAction::Record)
    } else if level >= CAPTURE_LEASE_OBSERVE {
        Some(LeaseAction::Observe)
    } else {
        None
    }
}

/// The effect of one key event: the next state, the outcome, and the
/// command byte offered to the ring, if any.
pub struct KeyStep {
    pub state: HookRuntime,
    pub outcome: KeyHandleOutcome,
    pub command: Option<u8>,
}

pub open spec fn pass_step(state: HookRuntime) -> KeyStep {
    KeyStep {
        state,
        outcome: KeyHandleOutcome {
            disposition: KeyHandleResult::PassToNext,
            enqueued: false,
            reported: false,
        },
        command: None,
    }
}

/// The runtime with new modifier state and latch.
pub open spec fn with_mods(s: HookRuntime, mods: ModifierState, latched: bool) -> HookRuntime {
    HookRuntime { mods, bypass_latched: latched, ..s }
}

/// A key event reaches the lease check: a non-modifier press, with a
/// modifier held, outside a latched passthrough chord.
pub open spec fn reaches_lease(s: HookRuntime, vk: u32, key_down: bool) -> bool {
    let mods = s.mods.applied(vk, key_down);
    &&& !(s.bypass_latched && mods.held())
    &&& key_down
    &&& !is_modifier(vk)
    &&& mods.held()
}

/// The foreground process is asked for: the event reaches the lease check
/// and a lease is armed.
pub open spec fn asks_foreground(s: HookRuntime, vk: u32, key_down: bool) -> bool {
    reaches_lease(s, vk, key_down) && s.capture_lease_level != CAPTURE_LEASE_NONE
        && s.capture_lease_pid != 0
}

/// The chord the event forms, when it is a non-modifier press outside a
/// latched chord that no lease claims.
pub open spec fn matched_command(s: HookRuntime, vk: u32, key_down: bool, foreground: u32) -> Option<u8> {
    let mods = s.mods.applied(vk, key_down);
    if (s.bypass_latched && mods.held()) || !key_down || is_modifier(vk) {
        None
    } else if mods.held() && lease_decision(
        s.capture_lease_level,
        s.capture_lease_pid,
        foreground,
    ) is Some {
        None
    } else {
        first_match(s.chords.declared_slots(), chord_of(mods, vk as u16))
    }
}

/// One key event, given what the bypass check and the foreground lookup
/// answer, the time, and whether the ring is full.
pub open spec fn key_step(
    s: HookRuntime,
    vk: u32,
    key_down: bool,
    bypass: bool,
    foreground: u32,
    now_ms: u64,
    ring_full: bool,
) -> KeyStep {
    let mods = s.mods.applied(vk, key_down);
    let latched = s.bypass_latched && mods.held();
    let s1 = with_mods(s, mods, latched);
    if latched {
        pass_step(s1)
    } else if !key_down {
        if s.swallow_release_vk != 0 && vk as u16 == s.swallow_release_vk {
            KeyStep {
                state: HookRuntime { swallow_release_vk: 0, ..s1 },
                outcome: KeyHandleOutcome {
                    disposition: KeyHandleResult::Swallow,
                    enqueued: false,
                    reported: false,
                },
                command: None,
            }
        } else {
            pass_step(s1)
        }
    } else if is_modifier(vk) {
        pass_step(s1)
    } else if mods.held() && lease_decision(
        s.capture_lease_level,
        s.capture_lease_pid,
        foreground,
    ) is Some {
        KeyStep {
            state: s1,
            outcome: KeyHandleOutcome {
                disposition: if lease_decision(
                    s.capture_lease_level,
                    s.capture_lease_pid,
                    foreground,
                ) == Some(LeaseAction::Observe) {
                    KeyHandleResult::PassToNext
                } else {
                    KeyHandleResult::Swallow
                },
                enqueued: false,
                reported: true,
            },
            command: None,
        }
    } else {
        match first_match(s.chords.declared_slots(), chord_of(mods, vk as u16)) {
            None => pass_step(s1),
            Some(cmd) => {
                if bypass {
                    pass_step(with_mods(s, mods, true))
                } else {
                    let offered = throttle_open(s.last_throttle_ms, now_ms);
                    let enqueued = offered && !ring_full;
                    KeyStep {
                        state: HookRuntime {
                            swallow_release_vk: vk as u16,
                            last_throttle_ms: if enqueued {
                                now_ms
                            } else {
                                s.last_throttle_ms
                            },
                            ..s1
                        },
                        outcome: KeyHandleOutcome {
                            disposition: KeyHandleResult::Swallow,
                            enqueued,
                            reported: false,
                        },
                        command: if enqueued {
                            Some(cmd)
                        } else {
                            None
                        },
                    }
                }
            },
        }
    }
}

/// All sixteen slots of the ring hold unread bytes.
pub open spec fn ring_is_full(ring: Seq<u8>) -> bool {
    ring.len() >= 16
}

/// The ring after a step offers its command.
pub open spec fn ring_after(ring: Seq<u8>, command: Option<u8>) -> Seq<u8> {
    match command {
        Some(c) => ring.push(c),
        None => ring,
    }
}

/// Handle one key event. The foreground lookup runs only when an armed
/// lease is consulted, and the bypass check only on a matched chord; when a
/// chord is accepted its command byte is pushed to `ring`.
pub fn handle_key_event_with_bypass<F, G>(
    rt: &mut HookRuntime,
    vk: u32,
    key_down: bool,
    now_ms: u64,
    ring: &mut CommandRing,
    eval_bypass: F,
    lease_foreground_pid: G,
) -> (out: KeyHandleOutcome) where F: FnOnce() -> bool, G: FnOnce() -> u32,
    requires
        old(ring).wf(),
        call_requires(eval_bypass, ()),
        call_requires(lease_foreground_pid, ()),
    ensures
        final(ring).wf(),
        exists|b: bool, p: u32|
            {
                let step = #[trigger] key_step(
                    *old(rt),
                    vk,
                    key_down,
                    b,
                    p,
                    now_ms,
                    ring_is_full(old(ring)@),
                );
                &&& asks_foreground(*old(rt), vk, key_down) ==> call_ensures(
                    lease_foreground_pid,
                    (),
                    p,
                )
                &&& matched_command(*old(rt), vk, key_down, p) is Some ==> call_ensures(
                    eval_bypass,
                    (),
                    b,
                )
                &&& *final(rt) == step.state
                &&& out == step.outcome
                &&& final(ring)@ == ring_after(old(ring)@, step.command)
            },
{
    let ghost s = *rt;
    let ghost ring0 = ring@;
    let ghost mut b: bool = false;
    let ghost mut p: u32 = 0;
    rt.mods.apply_vk(vk, key_down);
    if rt.bypass_latched && !rt.mods.any() {
        rt.bypass_latched = false;
    }
    if rt.bypass_latched {
        assert(key_step(s, vk, key_down, b, p, now_ms, ring_is_full(ring0)).state == *rt);
        return KeyHandleOutcome {
            disposition: KeyHandleResult::PassToNext,
            enqueued: false,
            reported: false,
        };
    }
    #[verifier::truncate]
    let key: u16 = vk as u16;
    if !key_down {
        if rt.swallow_release_vk != 0 && key == rt.swallow_release_vk {
            rt.swallow_release_vk = 0;
            assert(key_step(s, vk, key_down, b, p, now_ms, ring_is_full(ring0)).state == *rt);
            return KeyHandleOutcome {
                disposition: KeyHandleResult::Swallow,
                enqueued: false,
                reported: false,
            };
        }
        assert(key_step(s, vk, key_down, b, p, now_ms, ring_is_full(ring0)).state == *rt);
        return KeyHandleOutcome {
            disposition: KeyHandleResult::PassToNext,
            enqueued: false,
            reported: false,
        };
    }
    if ModifierState::is_modifier_vk(vk) {
        assert(key_step(s, vk, key_down, b, p, now_ms, ring_is_full(ring0)).state == *rt);
        return KeyHandleOutcome {
            disposition: KeyHandleResult::PassToNext,
            enqueued: false,
            reported: false,
        };
    }
    if rt.mods.any() {
        let action = lease_action(&*rt, lease_foreground_pid);
        proof {
            p = choose|q: u32|
                #[trigger] lease_decision(s.capture_lease_level, s.capture_lease_pid, q) == action
                    && ((s.capture_lease_level != CAPTURE_LEASE_NONE && s.capture_lease_pid != 0)
                    ==> call_ensures(lease_foreground_pid, (), q));
        }
        if let Some(a) = action {
            assert(key_step(s, vk, key_down, b, p, now_ms, ring_is_full(ring0)).state == *rt);
            return KeyHandleOutcome {
                disposition: match a {
                    LeaseAction::Observe => KeyHandleResult::PassToNext,
                    LeaseAction::Record => KeyHandleResult::Swallow,
                },
                enqueued: false,
                reported: true,
            };
        }
    }
    let matched = match_shortcut(&rt.chords, rt.mods, key);
    let cmd = match matched {
        Some(c) => c,
        None => {
            assert(key_step(s, vk, key_down, b, p, now_ms, ring_is_full(ring0)).state == *rt);
            return KeyHandleOutcome {
                disposition: KeyHandleResult::PassToNext,
                enqueued: false,
                reported: false,
            };
        },
    };
    let bypassed = eval_bypass();
    proof {
        b = bypassed;
    }
    if bypassed {
        rt.bypass_latched = true;
        assert(key_step(s, vk, key_down, b, p, now_ms, ring_is_full(ring0)).state == *rt);
        return KeyHandleOutcome {
            disposition: KeyHandleResult::PassToNext,
            enqueued: false,
            reported: false,
        };
    }
    let mut enqueued = false;
    if throttle_allows(rt.last_throttle_ms, now_ms) {
        if push(ring, cmd) {
            enqueued = true;
            rt.last_throttle_ms = now_ms;
        }
    }
    rt.swallow_release_vk = key;
    assert(key_step(s, vk, key_down, b, p, now_ms, ring_is_full(ring0)).state == *rt);
    KeyHandleOutcome { disposition: KeyHandleResult::Swallow, enqueued, reported: false }
}

/// No modifier release is ever swallowed: the key-up of a modifier always
/// reaches the system, so no modifier can stick.
pub proof fn lemma_modifier_release_never_swallowed(
    s: HookRuntime,
    vk: u32,
    bypass: bool,
    foreground: u32,
    now_ms: u64,
    ring_full: bool,
)
    requires
        s.wf(),
        is_modifier(vk),
    ensures
        key_step(s, vk, false, bypass, foreground, now_ms, ring_full).outcome.disposition
            == KeyHandleResult::PassToNext,
{
}

/// Every key event with a real virtual-key code (below 2^16) keeps the
/// runtime well formed.
pub proof fn lemma_step_keeps_wf(
    s: HookRuntime,
    vk: u32,
    key_down: bool,
    bypass: bool,
    foreground: u32,
    now_ms: u64,
    ring_full: bool,
)
    requires
        s.wf(),
        vk <= 0xffff,
    ensures
        key_step(s, vk, key_down, bypass, foreground, now_ms, ring_full).state.wf(),
{
    assert(vk as u16 as u32 == vk);
}

/// A chord that began in a bypass context passes through in its entirety,
/// releases included, until every modifier is up: nothing is swallowed,
/// enqueued or reported, and only the modifier state changes.
pub proof fn lemma_latched_chord_passes_through(
    s: HookRuntime,
    vk: u32,
    key_down: bool,
    bypass: bool,
    foreground: u32,
    now_ms: u64,
    ring_full: bool,
)
    requires
        s.bypass_latched,
        s.mods.applied(vk, key_down).held(),
    ensures
        key_step(s, vk, key_down, bypass, foreground, now_ms, ring_full) == pass_step(
            with_mods(s, s.mods.applied(vk, key_down), true),
        ),
{
}

/// A key press that no declared chord matches (and that no lease claims
/// and no latch passes on) reaches the system untouched: it is passed to the
/// next hook, nothing is enqueued and nothing is reported. An ordinary
/// Ctrl+C is not eaten because Ctrl is held.
pub proof fn lemma_unmatched_key_passes_through(
    s: HookRuntime,
    vk: u32,
    bypass: bool,
    foreground: u32,
    now_ms: u64,
    ring_full: bool,
)
    requires
        !is_modifier(vk),
        !(s.bypass_latched && s.mods.applied(vk, true).held()),
        !(s.mods.applied(vk, true).held() && lease_decision(
            s.capture_lease_level,
            s.capture_lease_pid,
            foreground,
        ) is Some),
        first_match(s.chords.declared_slots(), chord_of(s.mods.applied(vk, true), vk as u16)) is None,
    ensures
        ({
            let k = key_step(s, vk, true, bypass, foreground, now_ms, ring_full);
            &&& k.outcome.disposition == KeyHandleResult::PassToNext
            &&& !k.outcome.enqueued
            &&& !k.outcome.reported
            &&& k.command is None
        }),
{
}

/// The hook eats a key only for one of three reasons: it releases the key
/// of a chord the hook swallowed, the settings capture lease records it, or
/// it completes a declared chord that the foreground does not bypass.
/// Every other key reaches the system.
pub proof fn lemma_swallow_needs_a_reason(
    s: HookRuntime,
    vk: u32,
    key_down: bool,
    bypass: bool,
    foreground: u32,
    now_ms: u64,
    ring_full: bool,
)
    ensures
        key_step(s, vk, key_down, bypass, foreground, now_ms, ring_full).outcome.disposition
            == KeyHandleResult::Swallow ==> {
            let mods = s.mods.applied(vk, key_down);
            ||| (!key_down && s.swallow_release_vk != 0 && vk as u16 == s.swallow_release_vk)
            ||| (key_down && mods.held() && lease_decision(
                s.capture_lease_level,
                s.capture_lease_pid,
                foreground,
            ) == Some(LeaseAction::Record))
            ||| (key_down && !bypass && first_match(s.chords.declared_slots(), chord_of(mods, vk as u16))
                is Some)
        },
{
}

/// A key release never enqueues a command.
pub proof fn lemma_release_never_enqueues(
    s: HookRuntime,
    vk: u32,
    bypass: bool,
    foreground: u32,
    now_ms: u64,
    ring_full: bool,
)
    ensures
        key_step(s, vk, false, bypass, foreground, now_ms, ring_full).command is None,
        !key_step(s, vk, false, bypass, foreground, now_ms, ring_full).outcome.enqueued,
{
}

/// A chord the capture lease claims is reported and never enqueued, and it
/// never latches the bypass, so later keys under the same modifiers are each
/// handled on their own.
pub proof fn lemma_leased_chord_is_reported_not_enqueued(
    s: HookRuntime,
    vk: u32,
    bypass: bool,
    foreground: u32,
    now_ms: u64,
    ring_full: bool,
)
    requires
        reaches_lease(s, vk, true),
        lease_decision(s.capture_lease_level, s.capture_lease_pid, foreground) is Some,
    ensures
        ({
            let step = key_step(s, vk, true, bypass, foreground, now_ms, ring_full);
            &&& step.outcome.reported
            &&& !step.outcome.enqueued
            &&& step.command is None
            &&& !step.state.bypass_latched
        }),
{
}

/// A matched chord in a bypass context is not ours: it passes through,
/// enqueues nothing, and latches the bypass until the chord ends.
pub proof fn lemma_bypassed_chord_is_not_ours(
    s: HookRuntime,
    vk: u32,
    foreground: u32,
    now_ms: u64,
    ring_full: bool,
)
    requires
        matched_command(s, vk, true, foreground) is Some,
    ensures
        ({
            let step = key_step(s, vk, true, true, foreground, now_ms, ring_full);
            &&& step.outcome.disposition == KeyHandleResult::PassToNext
            &&& step.command is None
            &&& step.state.bypass_latched
            &&& step.state.last_throttle_ms == s.last_throttle_ms
            &&& step.state.swallow_release_vk == s.swallow_release_vk
        }),
{
}

/// A command is enqueued only when the throttle is open and the ring has
/// room, and then the throttle restarts at that instant; a matched chord
/// outside a bypass context is swallowed whether or not it was enqueued.
pub proof fn lemma_enqueue_respects_throttle(
    s: HookRuntime,
    vk: u32,
    key_down: bool,
    bypass: bool,
    foreground: u32,
    now_ms: u64,
    ring_full: bool,
)
    ensures
        ({
            let step = key_step(s, vk, key_down, bypass, foreground, now_ms, ring_full);
            &&& step.command is Some ==> throttle_open(s.last_throttle_ms, now_ms) && !ring_full
                && step.state.last_throttle_ms == now_ms && step.outcome.enqueued
            &&& step.command is None ==> !step.outcome.enqueued && step.state.last_throttle_ms
                == s.last_throttle_ms
            &&& (matched_command(s, vk, key_down, foreground) is Some && !bypass) ==> step.outcome.disposition
                == KeyHandleResult::Swallow
        }),
{
}

/// Store a capture lease as it arrived: the level verbatim, and the holder's
/// process id only while the level is not `none`.
pub fn store_lease(rt: &mut HookRuntime, level: usize, holder: isize)
    ensures
        *final(rt) == (HookRuntime {
            capture_lease_level: level,
            capture_lease_pid: if level != CAPTURE_LEASE_NONE {
                holder as u32
            } else {
                0
            },
            ..*old(rt)
        }),
{
    rt.capture_lease_level = level;
    rt.capture_lease_pid = if level != CAPTURE_LEASE_NONE {
        #[verifier::truncate]
        (holder as u32)
    } else {
        0
    };
}

/// Clear an armed lease whose holder has exited. Returns whether it was
/// cleared, in which case the caller also drops its report target.
pub fn reap_dead_lease(rt: &mut HookRuntime, holder_alive: bool) -> (cleared: bool)
    ensures
        cleared == (old(rt).capture_lease_level != CAPTURE_LEASE_NONE && !holder_alive),
        cleared ==> *final(rt) == (HookRuntime {
            capture_lease_level: CAPTURE_LEASE_NONE,
            capture_lease_pid: 0,
            ..*old(rt)
        }),
        !cleared ==> *final(rt) == *old(rt),
{
    if rt.capture_lease_level != CAPTURE_LEASE_NONE && !holder_alive {
        rt.capture_lease_level = CAPTURE_LEASE_NONE;
        rt.capture_lease_pid = 0;
        true
    } else {
        false
    }
}

/// Replace the chords and the bypass policy with a new configuration's.
pub fn install_snapshot(rt: &mut HookRuntime, snapshot: HookSnapshot)
    ensures
        *final(rt) == (HookRuntime {
            chords: snapshot.chords,
            bypass_policy: snapshot.bypass,
            ..*old(rt)
        }),
{
    rt.chords = snapshot.chords;
    rt.bypass_policy = snapshot.bypass;
}

/// Record one hook refresh in the health counter; returns whether the hook
/// is to be reported dead.
pub fn record_hook_check(rt: &mut HookRuntime, install_succeeded: bool) -> (escalate: bool)
    requires
        install_succeeded || old(rt).hook_check_fail_count < u32::MAX,
    ensures
        install_succeeded ==> final(rt).hook_check_fail_count == 0 && !escalate,
        !install_succeeded ==> final(rt).hook_check_fail_count == old(rt).hook_check_fail_count + 1
            && escalate == (final(rt).hook_check_fail_count >= HOOK_CHECK_FAIL_THRESHOLD),
        *final(rt) == (HookRuntime { hook_check_fail_count: final(rt).hook_check_fail_count, ..*old(rt) }),
{
    let (count, escalate) = next_hook_check_state(rt.hook_check_fail_count, install_succeeded);
    rt.hook_check_fail_count = count;
    escalate
}

/// The hand-over slot for a configuration snapshot from the worker to the
/// hook: at most one snapshot is pending, and each staging has a ticket that
/// differs from the one before it.
pub struct SnapshotSlot {
    pending: Option<HookSnapshot>,
    ticket: u64,
}

/// The slot's content: the pending snapshot and the ticket of the latest
/// staging.
pub struct SlotModel {
    pub pending: Option<HookSnapshot>,
    pub ticket: u64,
}

/// The ticket after `t`.
pub open spec fn next_ticket(t: u64) -> u64 {
    if t == u64::MAX {
        0
    } else {
        (t + 1) as u64
    }
}

/// Staging `snapshot` supersedes whatever was pending.
pub open spec fn staged(m: SlotModel, snapshot: HookSnapshot) -> SlotModel {
    SlotModel { pending: Some(snapshot), ticket: next_ticket(m.ticket) }
}

/// Withdrawing a staging by its ticket empties the slot only while that
/// staging is still the pending one.
pub open spec fn unstaged(m: SlotModel, ticket: u64) -> SlotModel {
    if m.pending is Some && m.ticket == ticket {
        SlotModel { pending: None, ticket: m.ticket }
    } else {
        m
    }
}

/// Taking empties the slot.
pub open spec fn taken(m: SlotModel) -> SlotModel {
    SlotModel { pending: None, ticket: m.ticket }
}

impl View for SnapshotSlot {
    type V = SlotModel;

    closed spec fn view(&self) -> SlotModel {
        SlotModel { pending: self.pending, ticket: self.ticket }
    }
}

impl SnapshotSlot {
    pub fn new() -> (s: Self)
        ensures
            s@.pending is None,
    {
        SnapshotSlot { pending: None, ticket: 0 }
    }
}

/// Stage `snapshot` for the hook; an uncollected earlier one is dropped.
/// Returns the staging's ticket, for withdrawing it if the wake-up cannot
/// be posted.
pub fn stage_snapshot(slot: &mut SnapshotSlot, snapshot: HookSnapshot) -> (ticket: u64)
    ensures
        final(slot)@ == staged(old(slot)@, snapshot),
        ticket == final(slot)@.ticket,
{
    slot.ticket = if slot.ticket == u64::MAX {
        0
    } else {
        slot.ticket + 1
    };
    slot.pending = Some(snapshot);
    slot.ticket
}

/// Withdraw a staging after a failed wake-up: only if it is still pending.
pub fn unstage_snapshot(slot: &mut SnapshotSlot, ticket: u64)
    ensures
        final(slot)@ == unstaged(old(slot)@, ticket),
{
    if slot.pending.is_some() && slot.ticket == ticket {
        slot.pending = None;
    }
}

/// Take the staged snapshot, if there is one.
pub fn take_staged_snapshot(slot: &mut SnapshotSlot) -> (r: Option<HookSnapshot>)
    ensures
        r == old(slot)@.pending,
        final(slot)@ == taken(old(slot)@),
{
    slot.pending.take()
}

/// A staged snapshot is collected exactly once, staging again supersedes an
/// uncollected one, and a withdrawal after the hook has collected, or after
/// a newer staging, changes nothing.
pub proof fn lemma_snapshot_handover(m: SlotModel, a: HookSnapshot, b: HookSnapshot)
    ensures
        staged(m, a).pending == Some(a),
        taken(staged(m, a)).pending is None,
        staged(staged(m, a), b).pending == Some(b),
        unstaged(staged(m, a), staged(m, a).ticket).pending is None,
        unstaged(taken(staged(m, a)), staged(m, a).ticket) == taken(staged(m, a)),
        unstaged(staged(staged(m, a), b), staged(m, a).ticket) == staged(staged(m, a), b),
{
}

/// Hook code of an event the keyboard hook should process.
pub const HC_ACTION: i32 = 0;

/// Event flag of synthetic (injected) input.
pub const LLKHF_INJECTED: u32 = 0x10;

pub const WM_KEYDOWN: u32 = 0x0100;
pub const WM_KEYUP: u32 = 0x0101;
pub const WM_SYSKEYDOWN: u32 = 0x0104;
pub const WM_SYSKEYUP: u32 = 0x0105;

/// Which low-level keyboard events reach the shortcut logic: hook code
/// `HC_ACTION`, not injected (unless injected input is accepted, for
/// measurement), and a key-down or key-up message. `Some(key_down)` for
/// those; `None` for everything that passes straight on. Injected input is
/// ignored because the daemon injects a key of its own to suppress the Start
/// menu, and must not consume its own injection.
pub fn keyboard_event_of(code: i32, flags: u32, message: u32, accept_injected: bool) -> (r: Option<bool>)
    ensures
        r is Some <==> (code == HC_ACTION && ((flags & LLKHF_INJECTED) == 0 || accept_injected) && (
        message == WM_KEYDOWN || message == WM_SYSKEYDOWN || message == WM_KEYUP || message
            == WM_SYSKEYUP)),
        r is Some ==> r->0 == (message == WM_KEYDOWN || message == WM_SYSKEYDOWN),
{
    if code < 0 || code != HC_ACTION {
        return None;
    }
    if (flags & LLKHF_INJECTED) != 0 && !accept_injected {
        return None;
    }
    let key_down = message == WM_KEYDOWN || message == WM_SYSKEYDOWN;
    let key_up = message == WM_KEYUP || message == WM_SYSKEYUP;
    if !(key_down || key_up) {
        return None;
    }
    Some(key_down)
}

} // verus!
