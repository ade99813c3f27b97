use wiradesk::observed::Observed;
use wiradesk::command::Shortcut;
use wiradesk::config::{
    auto_start_decision, converge_auto_start, finish_reload, reload, ConfigSource, has_duplicate_chord, reject, validate_chords, ActorSink, AutoStartAction,
    AutoStartControl, HookSnapshot, LayoutConfig, RejectReason, ReloadOutcome, VmBypassConfig,
    WarnSink, WorkerSnapshot,
};
use wiradesk::context::BypassPolicy;
use wiradesk::hook::Chords;

fn chord(win: bool, ctrl: bool, alt: bool, shift: bool, vk: u16) -> Shortcut {
    Shortcut { win, ctrl, alt, shift, vk }
}

fn shipped_chords() -> Chords {
    Chords {
        primary: Some(chord(true, false, false, false, 0xC0)),
        fallback: Some(chord(false, false, true, false, 0xC0)),
        snap_left: Some(chord(true, true, false, false, 0x25)),
        snap_right: Some(chord(true, true, false, false, 0x27)),
        snap_maximize: Some(chord(true, true, false, false, 0x0D)),
        stack: Some(chord(true, true, false, false, 0x28)),
    }
}

fn hook_snapshot() -> HookSnapshot {
    HookSnapshot {
        chords: shipped_chords(),
        bypass: BypassPolicy::from_config(&VmBypassConfig::default()),
    }
}

fn worker_snapshot() -> WorkerSnapshot {
    WorkerSnapshot { layout: LayoutConfig::default() }
}

#[derive(Default)]
struct FakeSink {
    reachable: bool,
    hook: Vec<HookSnapshot>,
    worker: Vec<WorkerSnapshot>,
}

impl ActorSink for FakeSink {
    fn deliver_hook(&mut self, snapshot: HookSnapshot) -> bool {
        if self.reachable {
            self.hook.push(snapshot);
        }
        self.reachable
    }

    fn deliver_worker(&mut self, snapshot: WorkerSnapshot) {
        self.worker.push(snapshot);
    }
}

#[derive(Default)]
struct FakeAutoStart {
    registered: bool,
    enable_calls: u32,
    disable_calls: u32,
}

impl AutoStartControl for FakeAutoStart {
    fn is_registered(&self) -> bool {
        self.registered
    }

    fn enable(&mut self) -> bool {
        self.enable_calls += 1;
        self.registered = true;
        true
    }

    fn disable(&mut self) -> bool {
        self.disable_calls += 1;
        self.registered = false;
        true
    }
}

#[derive(Default)]
struct FakeWarn(Vec<String>);

impl WarnSink for FakeWarn {
    fn warn(&mut self, message: &str) {
        self.0.push(message.to_string());
    }
}

#[test]
fn each_reject_reason_has_its_own_message() {
    let msgs = [
        RejectReason::Unreadable.message(),
        RejectReason::Malformed.message(),
        RejectReason::InvalidShortcut.message(),
    ];
    for (i, a) in msgs.iter().enumerate() {
        for b in msgs.iter().skip(i + 1) {
            assert_ne!(a, b, "reject reasons must be distinguishable in the log");
        }
    }
}

#[test]
fn every_reject_reason_names_what_went_wrong() {
    let all = [
        RejectReason::Unreadable,
        RejectReason::Malformed,
        RejectReason::InvalidShortcut,
        RejectReason::ReservedShortcut,
        RejectReason::DuplicateShortcut,
    ];
    for (i, a) in all.iter().enumerate() {
        assert!(a.message().ends_with("keeping current settings"));
        for b in all.iter().skip(i + 1) {
            assert_ne!(a.message(), b.message());
        }
    }
    assert_eq!(
        RejectReason::DuplicateShortcut.message(),
        "Config reload skipped: two actions share one shortcut; keeping current settings"
    );
}

#[test]
fn a_rejection_warns_exactly_once() {
    let mut warn = FakeWarn::default();
    let outcome = reject(&mut Observed::new(&mut warn), RejectReason::Malformed);
    assert_eq!(outcome, ReloadOutcome::Rejected(RejectReason::Malformed));
    assert_eq!(warn.0, vec![RejectReason::Malformed.message().to_string()]);
}

#[test]
fn valid_snapshots_reach_both_actors_without_warning() {
    let mut sink = FakeSink { reachable: true, ..Default::default() };
    let mut auto = FakeAutoStart::default();
    let mut warn = FakeWarn::default();
    let outcome =
        finish_reload(Ok((false, hook_snapshot(), worker_snapshot())), &mut Observed::new(&mut sink), &mut Observed::new(&mut auto), &mut Observed::new(&mut warn));
    assert_eq!(outcome, ReloadOutcome::Applied { auto_start: false });
    assert_eq!(sink.hook.len(), 1);
    assert_eq!(sink.worker.len(), 1);
    assert!(warn.0.is_empty());
    assert_eq!((auto.enable_calls, auto.disable_calls), (0, 0));
}

#[test]
fn an_unreachable_hook_updates_no_actor() {
    let mut sink = FakeSink::default();
    let mut auto = FakeAutoStart::default();
    let mut warn = FakeWarn::default();
    let outcome =
        finish_reload(Ok((true, hook_snapshot(), worker_snapshot())), &mut Observed::new(&mut sink), &mut Observed::new(&mut auto), &mut Observed::new(&mut warn));
    assert_eq!(outcome, ReloadOutcome::Rejected(RejectReason::Unreadable));
    assert!(sink.worker.is_empty());
    assert_eq!(warn.0.len(), 1);
    assert_eq!(auto.enable_calls, 0);
}

#[test]
fn a_refused_reload_touches_no_actor_and_not_auto_start() {
    let mut sink = FakeSink { reachable: true, ..Default::default() };
    let mut auto = FakeAutoStart { registered: true, ..Default::default() };
    let mut warn = FakeWarn::default();
    let outcome =
        finish_reload(Err(RejectReason::DuplicateShortcut), &mut Observed::new(&mut sink), &mut Observed::new(&mut auto), &mut Observed::new(&mut warn));
    assert_eq!(outcome, ReloadOutcome::Rejected(RejectReason::DuplicateShortcut));
    assert!(sink.hook.is_empty());
    assert!(sink.worker.is_empty());
    assert_eq!(warn.0.len(), 1, "exactly one warning per rejection");
    assert_eq!((auto.enable_calls, auto.disable_calls), (0, 0));
}

#[test]
fn auto_start_enables_only_when_not_registered() {
    let mut auto = FakeAutoStart { registered: true, ..Default::default() };
    assert_eq!(converge_auto_start(&mut Observed::new(&mut auto), true), AutoStartAction::Nothing);
    assert_eq!(auto.enable_calls, 0);

    let mut fresh = FakeAutoStart::default();
    assert_eq!(converge_auto_start(&mut Observed::new(&mut fresh), true), AutoStartAction::Enable);
    assert_eq!(fresh.enable_calls, 1);
    assert!(fresh.registered);
}

#[test]
fn auto_start_disable_converges_and_then_stays_put() {
    let mut auto = FakeAutoStart { registered: true, ..Default::default() };
    assert_eq!(converge_auto_start(&mut Observed::new(&mut auto), false), AutoStartAction::Disable);
    assert_eq!(converge_auto_start(&mut Observed::new(&mut auto), false), AutoStartAction::Nothing);
    assert_eq!(auto.disable_calls, 1, "duplicate reloads must converge");
}

#[test]
fn the_shipped_chords_do_not_collide() {
    assert!(!has_duplicate_chord(&shipped_chords()));
}

#[test]
fn two_actions_on_one_chord_are_a_duplicate() {
    let left = chord(true, true, false, false, 0x25);
    let chords = Chords { snap_right: Some(left), ..shipped_chords() };
    assert!(has_duplicate_chord(&chords));
    let last_pair = Chords { stack: Some(chord(true, true, false, false, 0x0D)), ..shipped_chords() };
    assert!(has_duplicate_chord(&last_pair));
}

#[test]
fn unbound_actions_never_clash() {
    let chords = Chords { snap_left: None, snap_right: None, ..shipped_chords() };
    assert!(!has_duplicate_chord(&chords));
}

#[test]
fn layout_defaults_keep_the_stack_off_at_half_width() {
    let d = LayoutConfig::default();
    assert!(!d.enable_overlapping_stack);
    assert_eq!(d.stack_width_percent, 50);
}

#[test]
fn valid_chords_pass_validation_unchanged() {
    assert_eq!(validate_chords(shipped_chords(), [false; 6]), Ok(shipped_chords()));
}

#[test]
fn an_unparsed_shortcut_refuses_the_reload_rather_than_defaulting() {
    let chords = Chords { fallback: None, ..shipped_chords() };
    assert_eq!(validate_chords(chords, [false; 6]), Err(RejectReason::InvalidShortcut));
    // An unparsed shortcut is reported before anything else.
    let mut reserved = [false; 6];
    reserved[0] = true;
    let clash = Chords { stack: None, snap_right: shipped_chords().snap_left, ..shipped_chords() };
    assert_eq!(validate_chords(clash, reserved), Err(RejectReason::InvalidShortcut));
}

#[test]
fn a_reserved_chord_refuses_the_reload() {
    let mut reserved = [false; 6];
    reserved[5] = true;
    assert_eq!(validate_chords(shipped_chords(), reserved), Err(RejectReason::ReservedShortcut));
    // Reserved is reported before a clash.
    let clash = Chords { snap_right: shipped_chords().snap_left, ..shipped_chords() };
    assert_eq!(validate_chords(clash, reserved), Err(RejectReason::ReservedShortcut));
}

#[test]
fn a_clash_refuses_the_whole_reload() {
    let clash = Chords { snap_right: shipped_chords().snap_left, ..shipped_chords() };
    assert_eq!(validate_chords(clash, [false; 6]), Err(RejectReason::DuplicateShortcut));
}

#[test]
fn the_auto_start_decision_drives_only_a_differing_registration() {
    assert_eq!(auto_start_decision(true, true), AutoStartAction::Nothing);
    assert_eq!(auto_start_decision(false, false), AutoStartAction::Nothing);
    assert_eq!(auto_start_decision(false, true), AutoStartAction::Enable);
    assert_eq!(auto_start_decision(true, false), AutoStartAction::Disable);
}

struct FakeSource(Result<String, ()>);

impl ConfigSource for FakeSource {
    fn read(&self) -> Result<String, ()> {
        self.0.clone()
    }
}

type Validated = Result<(bool, HookSnapshot, WorkerSnapshot), RejectReason>;

/// Stands in for the configuration parser: a file reading `auto_start = true`
/// asks for auto-start, `clash` stands for a file with two actions on one
/// chord, and anything else is a valid file without auto-start.
fn fake_validate(text: &str) -> Validated {
    if text.contains("clash") {
        Err(RejectReason::DuplicateShortcut)
    } else {
        Ok((text.contains("auto_start = true"), hook_snapshot(), worker_snapshot()))
    }
}

fn run(source: FakeSource, sink: &mut FakeSink, auto: &mut FakeAutoStart, warn: &mut FakeWarn) -> ReloadOutcome {
    reload(
        &mut Observed::new(&source),
        fake_validate,
        &mut Observed::new(sink),
        &mut Observed::new(auto),
        &mut Observed::new(warn),
    )
}

#[test]
fn unreadable_file_changes_nothing_and_warns_once() {
    let mut sink = FakeSink { reachable: true, ..Default::default() };
    let mut auto = FakeAutoStart::default();
    let mut warn = FakeWarn::default();
    let outcome = run(FakeSource(Err(())), &mut sink, &mut auto, &mut warn);
    assert_eq!(outcome, ReloadOutcome::Rejected(RejectReason::Unreadable));
    assert!(sink.hook.is_empty(), "hook must keep last-known-good");
    assert!(sink.worker.is_empty());
    assert_eq!(warn.0.len(), 1, "exactly one Tier-2 warning per rejection");
}

#[test]
fn a_rejected_reload_never_touches_auto_start() {
    let mut sink = FakeSink { reachable: true, ..Default::default() };
    let mut auto = FakeAutoStart::default();
    let mut warn = FakeWarn::default();
    run(FakeSource(Err(())), &mut sink, &mut auto, &mut warn);
    assert_eq!(auto.enable_calls, 0);
    assert_eq!(auto.disable_calls, 0);
}

#[test]
fn a_readable_valid_file_reaches_both_actors_and_converges_auto_start() {
    let mut sink = FakeSink { reachable: true, ..Default::default() };
    let mut auto = FakeAutoStart::default();
    let mut warn = FakeWarn::default();
    let outcome = run(FakeSource(Ok("auto_start = true".to_string())), &mut sink, &mut auto, &mut warn);
    assert_eq!(outcome, ReloadOutcome::Applied { auto_start: true });
    assert_eq!((sink.hook.len(), sink.worker.len()), (1, 1));
    assert!(warn.0.is_empty());
    assert_eq!(auto.enable_calls, 1);
    assert!(auto.registered);
}

#[test]
fn a_file_the_parser_refuses_touches_no_actor_and_warns_once() {
    let mut sink = FakeSink { reachable: true, ..Default::default() };
    let mut auto = FakeAutoStart { registered: true, ..Default::default() };
    let mut warn = FakeWarn::default();
    let outcome = run(FakeSource(Ok("clash".to_string())), &mut sink, &mut auto, &mut warn);
    assert_eq!(outcome, ReloadOutcome::Rejected(RejectReason::DuplicateShortcut));
    assert!(sink.hook.is_empty() && sink.worker.is_empty());
    assert_eq!((auto.enable_calls, auto.disable_calls), (0, 0));
    assert_eq!(warn.0, vec![RejectReason::DuplicateShortcut.message().to_string()]);
}

#[test]
fn an_unreachable_hook_refuses_the_reload_from_the_file() {
    let mut sink = FakeSink::default();
    let mut auto = FakeAutoStart::default();
    let mut warn = FakeWarn::default();
    let outcome = run(FakeSource(Ok("auto_start = true".to_string())), &mut sink, &mut auto, &mut warn);
    assert_eq!(outcome, ReloadOutcome::Rejected(RejectReason::Unreadable));
    assert!(sink.worker.is_empty(), "delivering to the Worker after a failed Hook post is a partial update");
    assert_eq!(auto.enable_calls, 0);
    assert_eq!(warn.0.len(), 1);
}
