//! Configuration the verified logic reads, and the reload policy around it.

use vstd::prelude::*;

use crate::context::BypassPolicy;
use crate::hook::{ChordSlot, Chords};
use crate::observed::{Observed, SeamCall};

verus! {

/// Owned, immutable configuration for the keyboard hook: its chords and its
/// normalized foreground-bypass policy.
pub struct HookSnapshot {
    pub chords: Chords,
    pub bypass: BypassPolicy,
}

/// The arrangement settings the stack planner reads.
#[derive(Debug, Clone, Copy, PartialEq, Eq)]
pub struct LayoutConfig {
    /// The overlapping stack is off until the user turns it on.
    pub enable_overlapping_stack: bool,
    /// Width of each stacked window, in percent of the work area.
    pub stack_width_percent: u32,
}

impl Default for LayoutConfig {
    fn default() -> (c: Self)
        ensures
            !c.enable_overlapping_stack,
            c.stack_width_percent == 50,
    {
        LayoutConfig { enable_overlapping_stack: false, stack_width_percent: 50 }
    }
}

/// The VM and Remote Desktop passthrough settings.
#[derive(Debug, Clone, PartialEq, Eq)]
pub struct VmBypassConfig {
    /// Executable basenames whose foreground windows get every key untouched.
    pub bypass_processes: Vec<String>,
    /// Window classes whose foreground windows get every key untouched.
    pub bypass_classes: Vec<String>,
}

impl Default for VmBypassConfig {
    fn default() -> (c: Self)
        ensures
            c.bypass_processes@.len() == 3,
            c.bypass_processes@[0]@ == "mstsc.exe"@,
            c.bypass_processes@[1]@ == "vmware.exe"@,
            c.bypass_processes@[2]@ == "virtualboxvm.exe"@,
            c.bypass_classes@.len() == 1,
            c.bypass_classes@[0]@ == "VMwareUnityWindow"@,
    {
        let mut bypass_processes: Vec<String> = Vec::new();
        bypass_processes.push(String::from_str("mstsc.exe"));
        bypass_processes.push(String::from_str("vmware.exe"));
        bypass_processes.push(String::from_str("virtualboxvm.exe"));
        let mut bypass_classes: Vec<String> = Vec::new();
        bypass_classes.push(String::from_str("VMwareUnityWindow"));
        VmBypassConfig { bypass_processes, bypass_classes }
    }
}

/// Owned, immutable configuration for the worker: the layout settings.
#[derive(Debug, Clone)]
pub struct WorkerSnapshot {
    pub layout: LayoutConfig,
}

/// Why a candidate configuration was refused.
#[derive(Debug, Clone, Copy, PartialEq, Eq, Structural)]
pub enum RejectReason {
    /// Missing, locked, or otherwise unreadable.
    Unreadable,
    /// Present but not valid TOML, or not shaped like a configuration.
    Malformed,
    /// A shortcut string is not a shortcut.
    InvalidShortcut,
    /// A shortcut is reserved by the operating system.
    ReservedShortcut,
    /// Two actions carry the same chord.
    DuplicateShortcut,
}

/// The warning text for each reason.
pub open spec fn reject_message(r: RejectReason) -> Seq<char> {
    match r {
        RejectReason::Unreadable => "Config reload skipped: file unreadable; keeping current settings"@,
        RejectReason::Malformed => "Config reload skipped: file is not valid TOML; keeping current settings"@,
        RejectReason::InvalidShortcut => "Config reload skipped: shortcut is not parseable; keeping current settings"@,
        RejectReason::ReservedShortcut => "Config reload skipped: contains reserved system shortcuts; keeping current settings"@,
        RejectReason::DuplicateShortcut => "Config reload skipped: two actions share one shortcut; keeping current settings"@,
    }
}

impl RejectReason {
    pub fn message(self) -> (m: &'static str)
        ensures
            m@ == reject_message(self),
    {
        match self {
            RejectReason::Unreadable => "Config reload skipped: file unreadable; keeping current settings",
            RejectReason::Malformed => "Config reload skipped: file is not valid TOML; keeping current settings",
            RejectReason::InvalidShortcut => "Config reload skipped: shortcut is not parseable; keeping current settings",
            RejectReason::ReservedShortcut => "Config reload skipped: contains reserved system shortcuts; keeping current settings",
            RejectReason::DuplicateShortcut => "Config reload skipped: two actions share one shortcut; keeping current settings",
        }
    }
}

/// What a reload did.
#[derive(Debug, Clone, PartialEq, Eq, Structural)]
pub enum ReloadOutcome {
    Applied { auto_start: bool },
    Rejected(RejectReason),
}

/// Where the candidate configuration text comes from.
pub trait ConfigSource {
    fn read(&self) -> Result<String, ()>;
}

/// Delivery of owned snapshots to the actors that own them.
pub trait ActorSink {
    /// Returns false if the hook could not be reached.
    fn deliver_hook(&mut self, snapshot: HookSnapshot) -> bool;

    fn deliver_worker(&mut self, snapshot: WorkerSnapshot);
}

/// The auto-start registration, behind a seam.
pub trait AutoStartControl {
    fn is_registered(&self) -> bool;

    fn enable(&mut self) -> bool;

    fn disable(&mut self) -> bool;
}

/// The warning channel.
pub trait WarnSink {
    fn warn(&mut self, message: &str);
}

/// Emit exactly one warning for a rejected reload and report it.
pub fn reject<W: WarnSink>(warn: &mut Observed<W>, reason: RejectReason) -> (o: ReloadOutcome)
    ensures
        o == ReloadOutcome::Rejected(reason),
        final(warn).calls() == old(warn).calls().push(SeamCall::Warn(reject_message(reason))),
{
    warn.warn(reason.message());
    ReloadOutcome::Rejected(reason)
}

/// What converging auto-start to a requested state does.
#[derive(Debug, Clone, Copy, PartialEq, Eq, Structural)]
pub enum AutoStartAction {
    Nothing,
    Enable,
    Disable,
}

/// Drive registration to the requested state and no further: nothing when
/// it is already there.
pub open spec fn auto_start_action(registered: bool, desired: bool) -> AutoStartAction {
    if registered == desired {
        AutoStartAction::Nothing
    } else if desired {
        AutoStartAction::Enable
    } else {
        AutoStartAction::Disable
    }
}

/// What converging does, given the registration that was read.
pub fn auto_start_decision(registered: bool, desired: bool) -> (a: AutoStartAction)
    ensures
        a == auto_start_action(registered, desired),
{
    if registered == desired {
        AutoStartAction::Nothing
    } else if desired {
        AutoStartAction::Enable
    } else {
        AutoStartAction::Disable
    }
}

/// The auto-start calls of one convergence that read `registered` and,
/// where it changed the registration, got `changed` back.
pub open spec fn converge_calls(registered: bool, desired: bool, changed: bool) -> Seq<SeamCall> {
    match auto_start_action(registered, desired) {
        AutoStartAction::Nothing => seq![SeamCall::IsRegistered(registered)],
        AutoStartAction::Enable => seq![SeamCall::IsRegistered(registered), SeamCall::Enable(changed)],
        AutoStartAction::Disable => seq![SeamCall::IsRegistered(registered), SeamCall::Disable(changed)],
    }
}

/// Read the current registration first and change it only when it differs
/// from `desired`: enable exactly when it is off and wanted, disable exactly
/// when it is on and not wanted, once, and nothing else. Returns what was
/// done, decided from the registration that was read.
pub fn converge_auto_start<C: AutoStartControl>(autostart: &mut Observed<C>, desired: bool) -> (a: AutoStartAction)
    ensures
        exists|registered: bool, changed: bool|
            #![trigger converge_calls(registered, desired, changed)]
            final(autostart).calls() == old(autostart).calls() + converge_calls(registered, desired, changed)
                && a == auto_start_action(registered, desired),
{
    let ghost start = autostart.calls();
    let current = autostart.is_registered();
    let a = auto_start_decision(current, desired);
    match a {
        AutoStartAction::Enable => {
            let changed = autostart.enable();
            assert(autostart.calls() =~= start + converge_calls(current, desired, changed));
        },
        AutoStartAction::Disable => {
            let changed = autostart.disable();
            assert(autostart.calls() =~= start + converge_calls(current, desired, changed));
        },
        AutoStartAction::Nothing => {
            assert(autostart.calls() =~= start + converge_calls(current, desired, false));
        },
    }
    a
}

/// Converging never works against the request: it never disables when
/// auto-start is wanted, never enables when it is not, and a second
/// convergence after a successful first one does nothing.
pub proof fn lemma_auto_start_converges(registered: bool, desired: bool)
    ensures
        desired ==> auto_start_action(registered, desired) != AutoStartAction::Disable,
        !desired ==> auto_start_action(registered, desired) != AutoStartAction::Enable,
        auto_start_action(desired, desired) == AutoStartAction::Nothing,
{
}

/// Some action's chord repeats an earlier action's chord in the declared
/// order.
pub open spec fn has_duplicate(slots: Seq<ChordSlot>) -> bool {
    exists|i: int, j: int|
        0 <= i < j < slots.len() && slots[j].chord is Some && #[trigger] slots[i].chord
            == #[trigger] slots[j].chord
}

/// Whether two actions carry the same chord; unbound actions never clash.
pub fn has_duplicate_chord(chords: &Chords) -> (b: bool)
    ensures
        b == has_duplicate(chords.declared_slots()),
{
    let slots = chords.in_declared_order();
    let ghost s = chords.declared_slots();
    let mut j: usize = 1;
    while j < 6
        invariant
            1 <= j <= 6,
            slots@ == s,
            s == chords.declared_slots(),
            s.len() == 6,
            forall|a: int, b: int|
                0 <= a < b < j ==> !(s[b].chord is Some && #[trigger] s[a].chord == #[trigger] s[b].chord),
        decreases 6 - j,
    {
        if let Some(c) = slots[j].chord {
            let mut i: usize = 0;
            while i < j
                invariant
                    i <= j < 6,
                    slots@ == s,
                    s == chords.declared_slots(),
                    s.len() == 6,
                    s[j as int].chord == Some(c),
                    forall|a: int| 0 <= a < i ==> s[a].chord != s[j as int].chord,
                decreases j - i,
            {
                if let Some(d) = slots[i].chord {
                    if d == c {
                        assert(s[i as int].chord == s[j as int].chord);
                        assert(has_duplicate(s));
                        return true;
                    }
                }
                i = i + 1;
            }
        }
        j = j + 1;
    }
    false
}

/// Every action carries a chord: each shortcut string parsed.
pub open spec fn all_bound(slots: Seq<ChordSlot>) -> bool {
    forall|i: int| 0 <= i < slots.len() ==> (#[trigger] slots[i]).chord is Some
}

/// Some action's chord is reserved by the system; `reserved` holds the
/// verdict for each slot of the declared sequence.
pub open spec fn any_reserved(reserved: Seq<bool>) -> bool {
    exists|i: int| 0 <= i < reserved.len() && #[trigger] reserved[i]
}

/// The verdict of reload validation on parsed chords, in the order the
/// checks run: an unparsed shortcut, then a reserved one, then a clash.
pub open spec fn chord_verdict(chords: Chords, reserved: Seq<bool>) -> Result<Chords, RejectReason> {
    if !all_bound(chords.declared_slots()) {
        Err(RejectReason::InvalidShortcut)
    } else if any_reserved(reserved) {
        Err(RejectReason::ReservedShortcut)
    } else if has_duplicate(chords.declared_slots()) {
        Err(RejectReason::DuplicateShortcut)
    } else {
        Ok(chords)
    }
}

/// Validate the chords of a candidate configuration. `parsed` holds `None`
/// for each shortcut string that did not parse, and `reserved[i]` says
/// whether the chord of slot `i` (declared order) is reserved by the system.
/// A reload is refused wholesale: nothing is defaulted and nothing unbound.
pub fn validate_chords(parsed: Chords, reserved: [bool; 6]) -> (r: Result<Chords, RejectReason>)
    ensures
        r == chord_verdict(parsed, reserved@),
{
    let slots = parsed.in_declared_order();
    let ghost s = parsed.declared_slots();
    let mut i: usize = 0;
    while i < 6
        invariant
            i <= 6,
            slots@ == s,
            s == parsed.declared_slots(),
            s.len() == 6,
            forall|k: int| 0 <= k < i ==> (#[trigger] s[k]).chord is Some,
        decreases 6 - i,
    {
        if slots[i].chord.is_none() {
            assert(!all_bound(s));
            return Err(RejectReason::InvalidShortcut);
        }
        i = i + 1;
    }
    assert(all_bound(s));
    let mut j: usize = 0;
    while j < 6
        invariant
            j <= 6,
            all_bound(parsed.declared_slots()),
            forall|k: int| 0 <= k < j ==> !(#[trigger] reserved@[k]),
        decreases 6 - j,
    {
        if reserved[j] {
            assert(reserved@[j as int]);
            return Err(RejectReason::ReservedShortcut);
        }
        j = j + 1;
    }
    assert(!any_reserved(reserved@));
    if has_duplicate_chord(&parsed) {
        return Err(RejectReason::DuplicateShortcut);
    }
    Ok(parsed)
}

/// What a reload with the validation result `validated` leaves behind, as
/// calls through its seams (each given before and after) and its outcome:
/// a rejection warns once and touches no actor and not auto-start;
/// otherwise the hook is offered its snapshot first, and either it accepted,
/// the worker got its own, auto-start converged and nothing was warned, or
/// it refused and the reload was refused as unreadable, with one warning.
pub open spec fn reload_settles(
    validated: Result<(bool, HookSnapshot, WorkerSnapshot), RejectReason>,
    o: ReloadOutcome,
    sink0: Seq<SeamCall>,
    sink1: Seq<SeamCall>,
    auto0: Seq<SeamCall>,
    auto1: Seq<SeamCall>,
    warn0: Seq<SeamCall>,
    warn1: Seq<SeamCall>,
) -> bool {
    match validated {
        Err(r) => {
            &&& o == ReloadOutcome::Rejected(r)
            &&& sink1 == sink0
            &&& auto1 == auto0
            &&& warn1 == warn0.push(SeamCall::Warn(reject_message(r)))
        },
        Ok((auto_start, _, _)) => {
            ||| {
                &&& sink1 == sink0.push(SeamCall::DeliverHook(true)).push(SeamCall::DeliverWorker)
                &&& o == ReloadOutcome::Applied { auto_start }
                &&& warn1 == warn0
                &&& exists|registered: bool, changed: bool|
                    #![trigger converge_calls(registered, auto_start, changed)]
                    auto1 == auto0 + converge_calls(registered, auto_start, changed)
            }
            ||| {
                &&& sink1 == sink0.push(SeamCall::DeliverHook(false))
                &&& o == ReloadOutcome::Rejected(RejectReason::Unreadable)
                &&& warn1 == warn0.push(SeamCall::Warn(reject_message(RejectReason::Unreadable)))
                &&& auto1 == auto0
            }
        },
    }
}

/// The rest of a reload once the text is read and validated: a rejection
/// warns once and touches no actor and not auto-start; otherwise the hook is
/// offered its snapshot first, and only if it accepted does the worker get
/// its own and does auto-start converge, with no warning. All or nothing: a
/// reload that cannot reach the hook is refused as unreadable.
pub fn finish_reload<A, C, W>(
    validated: Result<(bool, HookSnapshot, WorkerSnapshot), RejectReason>,
    sink: &mut Observed<A>,
    autostart: &mut Observed<C>,
    warn: &mut Observed<W>,
) -> (o: ReloadOutcome) where A: ActorSink, C: AutoStartControl, W: WarnSink,
    ensures
        reload_settles(
            validated,
            o,
            old(sink).calls(),
            final(sink).calls(),
            old(autostart).calls(),
            final(autostart).calls(),
            old(warn).calls(),
            final(warn).calls(),
        ),
{
    let (auto_start, hook, worker) = match validated {
        Ok(v) => v,
        Err(reason) => return reject(warn, reason),
    };
    if !sink.deliver_hook(hook) {
        return reject(warn, RejectReason::Unreadable);
    }
    sink.deliver_worker(worker);
    converge_auto_start(autostart, auto_start);
    ReloadOutcome::Applied { auto_start }
}

/// Read, validate, and only if valid hand each actor its own snapshot. The
/// source is read once; an unreadable file is refused as such; otherwise
/// `validate` decides on the text that was read, and the reload settles on
/// its answer as `finish_reload` does.
pub fn reload<S, F, A, C, W>(
    source: &mut Observed<S>,
    validate: F,
    sink: &mut Observed<A>,
    autostart: &mut Observed<C>,
    warn: &mut Observed<W>,
) -> (o: ReloadOutcome) where
    S: ConfigSource,
    F: Fn(&str) -> Result<(bool, HookSnapshot, WorkerSnapshot), RejectReason>,
    A: ActorSink,
    C: AutoStartControl,
    W: WarnSink,
    requires
        forall|text: &str| validate.requires((text,)),
    ensures
        final(source).calls().len() == old(source).calls().len() + 1,
        final(source).calls().drop_last() == old(source).calls(),
        final(source).calls().last() matches SeamCall::Read(None) ==> reload_settles(
            Err(RejectReason::Unreadable),
            o,
            old(sink).calls(),
            final(sink).calls(),
            old(autostart).calls(),
            final(autostart).calls(),
            old(warn).calls(),
            final(warn).calls(),
        ),
        final(source).calls().last() matches SeamCall::Read(Some(t)) ==> exists|
            text: &str,
            validated: Result<(bool, HookSnapshot, WorkerSnapshot), RejectReason>,
        |
            #![trigger validate.ensures((text,), validated)]
            text@ == t && validate.ensures((text,), validated) && reload_settles(
                validated,
                o,
                old(sink).calls(),
                final(sink).calls(),
                old(autostart).calls(),
                final(autostart).calls(),
                old(warn).calls(),
                final(warn).calls(),
            ),
{
    let read = source.read();
    proof {
        assert(source.calls().drop_last() =~= old(source).calls());
    }
    match read {
        Err(()) => finish_reload(Err(RejectReason::Unreadable), sink, autostart, warn),
        Ok(text) => {
            let validated = validate(text.as_str());
            finish_reload(validated, sink, autostart, warn)
        },
    }
}

} // verus!
