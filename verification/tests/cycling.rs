use wiradesk::observed::Observed;
use wiradesk::cycling::eligibility::{evaluate_facts, WindowEligibility};
use wiradesk::cycling::selection::{attempt_order, select_after, select_next};
use wiradesk::cycling::{
    candidates_in_z_order, cycle_order, normalize_executable, run_cycle, ActivationOutcome,
    ActiveContext, Activator, AppIdentity, Candidate, CandidateSource, CycleOutcome, Eligibility,
    EligibilityPolicy, ExclusionReason, SelectionResult, WindowFacts, WindowId, CLASS_GHOST,
    CLASS_PROGMAN, CLASS_SHELL_SECONDARY_TRAY, CLASS_SHELL_TRAY, CLASS_WORKERW,
    SHELL_SURFACE_CLASSES, Sweep, IMAGE_PATH_CAPACITY,
};

const HOST_EXE: &str = "notepad.exe";
const OTHER_EXE: &str = "explorer.exe";

fn identity(exe: &str) -> AppIdentity {
    AppIdentity::Executable(exe.to_ascii_lowercase())
}

fn active(window: isize) -> ActiveContext {
    ActiveContext { foreground: WindowId(window), identity: identity(HOST_EXE) }
}

fn normal(window: isize) -> WindowFacts {
    WindowFacts {
        window: WindowId(window),
        visible: true,
        cloaked: false,
        iconic: false,
        tool_window: false,
        class_name: "Notepad".to_string(),
        identity: identity(HOST_EXE),
    }
}

fn with_class(window: isize, class_name: &str) -> WindowFacts {
    WindowFacts { class_name: class_name.to_string(), ..normal(window) }
}

fn ordered(facts: Vec<WindowFacts>) -> Vec<Candidate> {
    facts.into_iter().enumerate().map(|(z_index, facts)| Candidate { z_index, facts }).collect()
}

fn expected_decisions() -> Vec<(&'static str, WindowFacts, Eligibility)> {
    vec![
        ("visible top-level", normal(1), Eligibility::Eligible),
        ("not responding (no probe)", normal(2), Eligibility::Eligible),
        (
            "hidden",
            WindowFacts { visible: false, ..normal(3) },
            Eligibility::Excluded(ExclusionReason::Hidden),
        ),
        (
            "cloaked but styled visible",
            WindowFacts { visible: true, cloaked: true, ..normal(13) },
            Eligibility::Excluded(ExclusionReason::Cloaked),
        ),
        (
            "iconic",
            WindowFacts { iconic: true, ..normal(4) },
            Eligibility::Excluded(ExclusionReason::Iconic),
        ),
        (
            "WS_EX_TOOLWINDOW",
            WindowFacts { tool_window: true, ..normal(5) },
            Eligibility::Excluded(ExclusionReason::ToolWindow),
        ),
        (CLASS_GHOST, with_class(6, CLASS_GHOST), Eligibility::Excluded(ExclusionReason::GhostWindow)),
        (
            CLASS_SHELL_TRAY,
            with_class(7, CLASS_SHELL_TRAY),
            Eligibility::Excluded(ExclusionReason::ShellSurface),
        ),
        (
            CLASS_SHELL_SECONDARY_TRAY,
            with_class(8, CLASS_SHELL_SECONDARY_TRAY),
            Eligibility::Excluded(ExclusionReason::ShellSurface),
        ),
        (CLASS_PROGMAN, with_class(9, CLASS_PROGMAN), Eligibility::Excluded(ExclusionReason::ShellSurface)),
        (CLASS_WORKERW, with_class(10, CLASS_WORKERW), Eligibility::Excluded(ExclusionReason::ShellSurface)),
        (
            "different application",
            WindowFacts { identity: identity(OTHER_EXE), ..normal(11) },
            Eligibility::Excluded(ExclusionReason::DifferentApplication),
        ),
        (
            "unavailable identity",
            WindowFacts { identity: AppIdentity::Unavailable, ..normal(12) },
            Eligibility::Excluded(ExclusionReason::UnavailableIdentity),
        ),
    ]
}

/// Reference policy encoding the frozen decisions, written independently of
/// the production one.
struct ReferencePolicy;

impl EligibilityPolicy for ReferencePolicy {
    fn evaluate(&self, active: &ActiveContext, candidate: &Candidate) -> Eligibility {
        let f = &candidate.facts;
        if f.is_ghost() {
            return Eligibility::Excluded(ExclusionReason::GhostWindow);
        }
        if f.is_shell_surface() {
            return Eligibility::Excluded(ExclusionReason::ShellSurface);
        }
        if !f.visible {
            return Eligibility::Excluded(ExclusionReason::Hidden);
        }
        if f.cloaked {
            return Eligibility::Excluded(ExclusionReason::Cloaked);
        }
        if f.iconic {
            return Eligibility::Excluded(ExclusionReason::Iconic);
        }
        if f.tool_window {
            return Eligibility::Excluded(ExclusionReason::ToolWindow);
        }
        if !f.identity.is_available() {
            return Eligibility::Excluded(ExclusionReason::UnavailableIdentity);
        }
        if !f.identity.same_application(&active.identity) {
            return Eligibility::Excluded(ExclusionReason::DifferentApplication);
        }
        Eligibility::Eligible
    }
}

struct StaticSource(Vec<Candidate>);

impl CandidateSource for StaticSource {
    fn snapshot(&self) -> Vec<Candidate> {
        self.0.clone()
    }
}

struct ScriptedActivator {
    scripted: Vec<(WindowId, ActivationOutcome)>,
    default: ActivationOutcome,
    attempts: Vec<WindowId>,
}

impl ScriptedActivator {
    fn always(outcome: ActivationOutcome) -> Self {
        ScriptedActivator { scripted: Vec::new(), default: outcome, attempts: Vec::new() }
    }

    fn scripted(scripted: Vec<(WindowId, ActivationOutcome)>) -> Self {
        ScriptedActivator { scripted, default: ActivationOutcome::Activated, attempts: Vec::new() }
    }
}

impl Activator for ScriptedActivator {
    fn activate(&mut self, target: WindowId) -> ActivationOutcome {
        self.attempts.push(target);
        self.scripted.iter().find(|(w, _)| *w == target).map(|(_, o)| *o).unwrap_or(self.default)
    }
}

fn all_windows(candidates: &[Candidate]) -> Vec<WindowId> {
    candidates.iter().map(|c| c.facts.window).collect()
}

// --- executable normalization -------------------------------------------------

#[test]
fn normalizes_basename_case_insensitively() {
    assert_eq!(normalize_executable(r"C:\Windows\System32\NOTEPAD.EXE"), Some("notepad.exe".to_string()));
}

#[test]
fn normalizes_forward_slash_paths() {
    assert_eq!(normalize_executable("C:/Program Files/App/App.Exe"), Some("app.exe".to_string()));
}

#[test]
fn bare_basename_is_accepted() {
    assert_eq!(normalize_executable("Code.exe"), Some("code.exe".to_string()));
}

#[test]
fn empty_or_trailing_separator_yields_unavailable() {
    assert_eq!(normalize_executable(""), None);
    assert_eq!(normalize_executable(r"C:\Windows\"), None);
    assert_eq!(AppIdentity::from_process_path(None), AppIdentity::Unavailable);
    assert_eq!(AppIdentity::from_process_path(Some("")), AppIdentity::Unavailable);
}

#[test]
fn surrounding_whitespace_is_trimmed_from_the_basename() {
    assert_eq!(normalize_executable("C:\\Apps\\  Tool.EXE "), Some("tool.exe".to_string()));
    assert_eq!(normalize_executable("C:\\Apps\\   "), None);
}

#[test]
fn same_executable_different_pid_is_same_application() {
    let a = AppIdentity::from_process_path(Some(r"C:\A\notepad.exe"));
    let b = AppIdentity::from_process_path(Some(r"D:\B\NOTEPAD.EXE"));
    assert!(a.same_application(&b));
}

#[test]
fn unavailable_identity_never_matches() {
    let unknown = AppIdentity::Unavailable;
    assert!(!unknown.same_application(&AppIdentity::Unavailable));
    assert!(!unknown.same_application(&identity(HOST_EXE)));
    assert!(!identity(HOST_EXE).same_application(&unknown));
}

#[test]
fn same_basename_from_different_paths_groups_together() {
    let a = AppIdentity::from_process_path(Some(r"C:\Program Files\App\app.exe"));
    let b = AppIdentity::from_process_path(Some(r"D:\Other\App\app.exe"));
    assert!(a.same_application(&b));
}

#[test]
fn different_basenames_never_group_even_from_one_directory() {
    let a = AppIdentity::from_process_path(Some(r"C:\App\one.exe"));
    let b = AppIdentity::from_process_path(Some(r"C:\App\two.exe"));
    assert!(!a.same_application(&b));
}

#[test]
fn unresolvable_process_never_groups_with_anything() {
    let unknown = AppIdentity::Unavailable;
    assert!(!unknown.same_application(&identity(HOST_EXE)));
    assert!(!unknown.same_application(&AppIdentity::Unavailable));
}

// --- frozen eligibility vocabulary ------------------------------------------

#[test]
fn frozen_fixtures_match_expected_decisions() {
    let policy = ReferencePolicy;
    let active = active(1);
    for (label, facts, expected) in expected_decisions() {
        let candidate = Candidate { z_index: 0, facts: facts.clone() };
        assert_eq!(policy.evaluate(&active, &candidate), expected, "fixture: {label}");
    }
}

#[test]
fn every_named_shell_class_is_covered() {
    let labels: Vec<&str> = expected_decisions().into_iter().map(|(l, _, _)| l).collect();
    for class in SHELL_SURFACE_CLASSES.iter().chain([&CLASS_GHOST]) {
        assert!(labels.contains(class), "fixture missing for class {class}");
    }
}

#[test]
fn reproduces_every_frozen_fixture() {
    let active = active(1);
    for (label, facts, expected) in expected_decisions() {
        let candidate = Candidate { z_index: 0, facts: facts.clone() };
        assert_eq!(WindowEligibility.evaluate(&active, &candidate), expected, "fixture: {label}");
    }
}

#[test]
fn agrees_with_reference_policy_on_every_fixture() {
    let active = active(1);
    for (label, facts, _) in expected_decisions() {
        let candidate = Candidate { z_index: 0, facts: facts.clone() };
        assert_eq!(
            WindowEligibility.evaluate(&active, &candidate),
            ReferencePolicy.evaluate(&active, &candidate),
            "disagree on: {label}"
        );
    }
}

#[test]
fn visible_non_iconic_top_level_window_is_eligible() {
    assert_eq!(evaluate_facts(&identity(HOST_EXE), &normal(1)), Eligibility::Eligible);
}

#[test]
fn hidden_is_excluded() {
    let facts = WindowFacts { visible: false, ..normal(1) };
    assert_eq!(evaluate_facts(&identity(HOST_EXE), &facts), Eligibility::Excluded(ExclusionReason::Hidden));
}

#[test]
fn cloaked_is_excluded_even_though_it_reports_visible() {
    let facts = WindowFacts {
        visible: true,
        cloaked: true,
        class_name: "ApplicationFrameWindow".to_string(),
        ..normal(1)
    };
    assert_eq!(evaluate_facts(&identity(HOST_EXE), &facts), Eligibility::Excluded(ExclusionReason::Cloaked));
}

#[test]
fn cloaked_outranks_iconic_and_tool_window() {
    let facts = WindowFacts { cloaked: true, iconic: true, tool_window: true, ..normal(1) };
    assert_eq!(evaluate_facts(&identity(HOST_EXE), &facts), Eligibility::Excluded(ExclusionReason::Cloaked));
}

#[test]
fn hidden_outranks_cloaked() {
    let facts = WindowFacts { visible: false, cloaked: true, ..normal(1) };
    assert_eq!(evaluate_facts(&identity(HOST_EXE), &facts), Eligibility::Excluded(ExclusionReason::Hidden));
}

#[test]
fn minimized_is_excluded() {
    let facts = WindowFacts { iconic: true, ..normal(1) };
    assert_eq!(evaluate_facts(&identity(HOST_EXE), &facts), Eligibility::Excluded(ExclusionReason::Iconic));
}

#[test]
fn tool_window_is_excluded() {
    let facts = WindowFacts { tool_window: true, ..normal(1) };
    assert_eq!(evaluate_facts(&identity(HOST_EXE), &facts), Eligibility::Excluded(ExclusionReason::ToolWindow));
}

#[test]
fn every_shell_overlay_class_is_excluded() {
    for class in SHELL_SURFACE_CLASSES {
        assert_eq!(
            evaluate_facts(&identity(HOST_EXE), &with_class(1, class)),
            Eligibility::Excluded(ExclusionReason::ShellSurface),
            "shell class not excluded: {class}"
        );
    }
}

#[test]
fn shell_and_ghost_class_matching_is_case_insensitive() {
    assert_eq!(
        evaluate_facts(&identity(HOST_EXE), &with_class(1, "shell_traywnd")),
        Eligibility::Excluded(ExclusionReason::ShellSurface)
    );
    assert_eq!(
        evaluate_facts(&identity(HOST_EXE), &with_class(2, "GHOST")),
        Eligibility::Excluded(ExclusionReason::GhostWindow)
    );
}

#[test]
fn synthetic_hung_application_window_remains_eligible() {
    let hung_real_window = WindowFacts { class_name: "Notepad".to_string(), ..normal(42) };
    assert_eq!(evaluate_facts(&identity(HOST_EXE), &hung_real_window), Eligibility::Eligible);
    let ghost_surrogate = with_class(43, CLASS_GHOST);
    assert_eq!(
        evaluate_facts(&identity(HOST_EXE), &ghost_surrogate),
        Eligibility::Excluded(ExclusionReason::GhostWindow)
    );
}

#[test]
fn contract_exposes_no_responsiveness_input() {
    let responsive = normal(1);
    let hung = normal(1);
    assert_eq!(responsive, hung);
    assert_eq!(evaluate_facts(&identity(HOST_EXE), &responsive), evaluate_facts(&identity(HOST_EXE), &hung));
}

#[test]
fn ghost_outranks_every_other_exclusion() {
    let facts = WindowFacts {
        visible: false,
        iconic: true,
        tool_window: true,
        identity: AppIdentity::Unavailable,
        ..with_class(1, CLASS_GHOST)
    };
    assert_eq!(evaluate_facts(&identity(HOST_EXE), &facts), Eligibility::Excluded(ExclusionReason::GhostWindow));
}

#[test]
fn shell_surface_outranks_hidden_and_iconic() {
    let facts = WindowFacts { visible: false, iconic: true, ..with_class(1, CLASS_PROGMAN) };
    assert_eq!(evaluate_facts(&identity(HOST_EXE), &facts), Eligibility::Excluded(ExclusionReason::ShellSurface));
}

#[test]
fn hidden_outranks_iconic_and_tool_window() {
    let facts = WindowFacts { visible: false, iconic: true, tool_window: true, ..normal(1) };
    assert_eq!(evaluate_facts(&identity(HOST_EXE), &facts), Eligibility::Excluded(ExclusionReason::Hidden));
}

#[test]
fn iconic_outranks_tool_window() {
    let facts = WindowFacts { iconic: true, tool_window: true, ..normal(1) };
    assert_eq!(evaluate_facts(&identity(HOST_EXE), &facts), Eligibility::Excluded(ExclusionReason::Iconic));
}

#[test]
fn unavailable_identity_outranks_different_application() {
    let facts = WindowFacts { identity: AppIdentity::Unavailable, ..normal(1) };
    assert_eq!(
        evaluate_facts(&identity(HOST_EXE), &facts),
        Eligibility::Excluded(ExclusionReason::UnavailableIdentity)
    );
}

#[test]
fn decisions_are_deterministic_across_repeated_evaluation() {
    let active = identity(HOST_EXE);
    for (label, facts, expected) in expected_decisions() {
        for _ in 0..8 {
            assert_eq!(evaluate_facts(&active, &facts), expected, "non-deterministic: {label}");
        }
    }
}

#[test]
fn different_application_is_excluded_even_when_otherwise_valid() {
    let facts = WindowFacts { identity: identity(OTHER_EXE), ..normal(1) };
    assert_eq!(
        evaluate_facts(&identity(HOST_EXE), &facts),
        Eligibility::Excluded(ExclusionReason::DifferentApplication)
    );
}

#[test]
fn same_executable_across_processes_stays_eligible() {
    let facts = WindowFacts {
        identity: AppIdentity::from_process_path(Some(r"D:\elsewhere\NOTEPAD.EXE")),
        ..normal(1)
    };
    assert_eq!(evaluate_facts(&identity(HOST_EXE), &facts), Eligibility::Eligible);
}

#[test]
fn unavailable_active_identity_yields_no_eligible_window() {
    let unknown_active = AppIdentity::Unavailable;
    assert_eq!(
        evaluate_facts(&unknown_active, &normal(1)),
        Eligibility::Excluded(ExclusionReason::DifferentApplication)
    );
}

// --- ordering ----------------------------------------------------------------

#[test]
fn cycle_order_is_least_recently_used_first() {
    let candidates = ordered(vec![normal(1), normal(2), normal(3)]);
    let order = cycle_order(&candidates, &active(2));
    assert_eq!(order, vec![WindowId(1), WindowId(3)]);
}

#[test]
fn repeated_cycles_reach_every_window() {
    let mut z = vec![1isize, 2, 3];
    let mut visited = std::collections::HashSet::new();
    let mut current = 1isize;
    for _ in 0..6 {
        let candidates = ordered(z.iter().map(|w| normal(*w)).collect());
        let next = cycle_order(&candidates, &active(current))[0];
        visited.insert(next.0);
        current = next.0;
        z.retain(|w| *w != current);
        z.insert(0, current);
    }
    assert_eq!(visited.len(), 3, "cycling never reached every window: {visited:?}");
}

#[test]
fn cycle_order_from_topmost_starts_at_the_bottom() {
    let candidates = ordered(vec![normal(1), normal(2), normal(3)]);
    let order = cycle_order(&candidates, &active(1));
    assert_eq!(order, vec![WindowId(3), WindowId(2)]);
}

#[test]
fn cycle_order_when_active_absent_starts_at_the_bottom() {
    let candidates = ordered(vec![normal(1), normal(2)]);
    let order = cycle_order(&candidates, &active(99));
    assert_eq!(order, vec![WindowId(2), WindowId(1)]);
}

#[test]
fn snapshot_order_is_top_to_bottom() {
    let candidates = ordered(vec![normal(7), normal(8)]);
    assert_eq!(candidates[0].z_index, 0);
    assert_eq!(candidates[0].facts.window, WindowId(7));
    assert_eq!(candidates[1].z_index, 1);
}

#[test]
fn snapshot_indexes_are_dense_and_ordered() {
    let snapshot = candidates_in_z_order(vec![normal(7), normal(8), with_class(9, CLASS_PROGMAN)]);
    assert_eq!(snapshot.len(), 3);
    for (expected, candidate) in snapshot.iter().enumerate() {
        assert_eq!(candidate.z_index, expected, "z_index must be dense and top-to-bottom");
    }
    assert_eq!(snapshot[0].facts.window, WindowId(7));
    assert_eq!(snapshot[2].facts.class_name, CLASS_PROGMAN);
}

#[test]
fn snapshot_holds_no_cache_between_calls() {
    let first = candidates_in_z_order(vec![normal(1), normal(2)]);
    let second = candidates_in_z_order(vec![normal(3)]);
    assert_eq!(first.len(), 2);
    assert_eq!(second.len(), 1);
    assert_eq!(second[0].z_index, 0);
    assert_eq!(second[0].facts.window, WindowId(3));
}

// --- full pass -----------------------------------------------------------------

#[test]
fn activates_next_window_of_same_application() {
    let source = StaticSource(ordered(vec![normal(1), normal(2), normal(3)]));
    let mut activator = ScriptedActivator::always(ActivationOutcome::Activated);
    let outcome = run_cycle(&mut Observed::new(&source), &mut Observed::new(&ReferencePolicy), &mut Observed::new(&mut activator), &active(1)).0;
    assert_eq!(outcome, CycleOutcome::Activated(WindowId(3)));
    assert_eq!(activator.attempts, vec![WindowId(3)]);
}

#[test]
fn excluded_windows_are_skipped() {
    let source = StaticSource(ordered(vec![
        normal(1),
        with_class(2, CLASS_SHELL_TRAY),
        WindowFacts { iconic: true, ..normal(3) },
        normal(4),
    ]));
    let mut activator = ScriptedActivator::always(ActivationOutcome::Activated);
    let outcome = run_cycle(&mut Observed::new(&source), &mut Observed::new(&ReferencePolicy), &mut Observed::new(&mut activator), &active(1)).0;
    assert_eq!(outcome, CycleOutcome::Activated(WindowId(4)));
    assert_eq!(activator.attempts, vec![WindowId(4)]);
}

#[test]
fn invalid_target_continues_to_next_candidate() {
    let source = StaticSource(ordered(vec![normal(1), normal(2), normal(3)]));
    let mut activator = ScriptedActivator::scripted(vec![
        (WindowId(3), ActivationOutcome::InvalidTarget),
        (WindowId(2), ActivationOutcome::Activated),
    ]);
    let outcome = run_cycle(&mut Observed::new(&source), &mut Observed::new(&ReferencePolicy), &mut Observed::new(&mut activator), &active(1)).0;
    assert_eq!(outcome, CycleOutcome::Activated(WindowId(2)));
    assert_eq!(activator.attempts, vec![WindowId(3), WindowId(2)]);
}

#[test]
fn failed_activation_also_continues() {
    let source = StaticSource(ordered(vec![normal(1), normal(2), normal(3)]));
    let mut activator = ScriptedActivator::scripted(vec![
        (WindowId(3), ActivationOutcome::Failed),
        (WindowId(2), ActivationOutcome::Activated),
    ]);
    let outcome = run_cycle(&mut Observed::new(&source), &mut Observed::new(&ReferencePolicy), &mut Observed::new(&mut activator), &active(1)).0;
    assert_eq!(outcome, CycleOutcome::Activated(WindowId(2)));
}

#[test]
fn each_eligible_target_attempted_at_most_once_then_terminates() {
    let source = StaticSource(ordered(vec![normal(1), normal(2), normal(3)]));
    let mut activator = ScriptedActivator::always(ActivationOutcome::InvalidTarget);
    let outcome = run_cycle(&mut Observed::new(&source), &mut Observed::new(&ReferencePolicy), &mut Observed::new(&mut activator), &active(1)).0;
    assert_eq!(outcome, CycleOutcome::Exhausted);
    assert_eq!(activator.attempts, vec![WindowId(3), WindowId(2)]);
}

#[test]
fn no_eligible_target_when_all_excluded() {
    let source = StaticSource(ordered(vec![with_class(1, CLASS_PROGMAN), with_class(2, CLASS_WORKERW)]));
    let mut activator = ScriptedActivator::always(ActivationOutcome::Activated);
    let outcome = run_cycle(&mut Observed::new(&source), &mut Observed::new(&ReferencePolicy), &mut Observed::new(&mut activator), &active(9)).0;
    assert_eq!(outcome, CycleOutcome::NoEligibleTarget);
    assert!(activator.attempts.is_empty());
}

#[test]
fn single_window_application_has_nothing_to_cycle_to() {
    let source = StaticSource(ordered(vec![normal(1)]));
    let mut activator = ScriptedActivator::always(ActivationOutcome::Activated);
    let outcome = run_cycle(&mut Observed::new(&source), &mut Observed::new(&ReferencePolicy), &mut Observed::new(&mut activator), &active(1)).0;
    assert_eq!(outcome, CycleOutcome::Exhausted);
    assert!(activator.attempts.is_empty());
}

#[test]
fn windows_of_other_applications_are_not_targets() {
    let source = StaticSource(ordered(vec![
        normal(1),
        WindowFacts { identity: identity(OTHER_EXE), ..normal(2) },
        normal(3),
    ]));
    let mut activator = ScriptedActivator::always(ActivationOutcome::Activated);
    let outcome = run_cycle(&mut Observed::new(&source), &mut Observed::new(&ReferencePolicy), &mut Observed::new(&mut activator), &active(1)).0;
    assert_eq!(outcome, CycleOutcome::Activated(WindowId(3)));
}

#[test]
fn multi_process_same_executable_groups_together() {
    let source = StaticSource(ordered(vec![
        normal(1),
        WindowFacts {
            identity: AppIdentity::from_process_path(Some(r"D:\other\NOTEPAD.EXE")),
            ..normal(2)
        },
    ]));
    let mut activator = ScriptedActivator::always(ActivationOutcome::Activated);
    let outcome = run_cycle(&mut Observed::new(&source), &mut Observed::new(&ReferencePolicy), &mut Observed::new(&mut activator), &active(1)).0;
    assert_eq!(outcome, CycleOutcome::Activated(WindowId(2)));
}

#[test]
fn harness_needs_no_hook_or_live_desktop() {
    let source = StaticSource(ordered(vec![normal(1), normal(2)]));
    let mut activator = ScriptedActivator::always(ActivationOutcome::Activated);
    let _ = run_cycle(&mut Observed::new(&source), &mut Observed::new(&ReferencePolicy), &mut Observed::new(&mut activator), &active(1)).0;
}

// --- selection ------------------------------------------------------------------

#[test]
fn selects_the_least_recently_used_window() {
    let candidates = ordered(vec![normal(1), normal(2), normal(3)]);
    let eligible = all_windows(&candidates);
    assert_eq!(select_next(&candidates, &eligible, &active(1)), SelectionResult::Target(WindowId(3)));
}

#[test]
fn wraps_to_beginning_from_last_window() {
    let candidates = ordered(vec![normal(1), normal(2), normal(3)]);
    let eligible = all_windows(&candidates);
    assert_eq!(select_next(&candidates, &eligible, &active(3)), SelectionResult::Target(WindowId(2)));
}

#[test]
fn wraps_at_most_once() {
    let candidates = ordered(vec![normal(1), normal(2), normal(3)]);
    let eligible = all_windows(&candidates);
    let order = attempt_order(&candidates, &eligible, &active(2));
    assert_eq!(order, vec![WindowId(1), WindowId(3)]);
    assert_eq!(order.len(), 2);
}

#[test]
fn single_window_sequence_is_a_no_op() {
    let candidates = ordered(vec![normal(1)]);
    let eligible = all_windows(&candidates);
    assert_eq!(select_next(&candidates, &eligible, &active(1)), SelectionResult::NoCandidate);
}

#[test]
fn empty_eligible_set_is_a_no_op() {
    let candidates = ordered(vec![normal(1), normal(2)]);
    assert_eq!(select_next(&candidates, &[], &active(1)), SelectionResult::NoCandidate);
}

#[test]
fn active_window_is_never_a_target() {
    let candidates = ordered(vec![normal(1), normal(2)]);
    let eligible = all_windows(&candidates);
    let order = attempt_order(&candidates, &eligible, &active(1));
    assert!(!order.contains(&WindowId(1)));
}

#[test]
fn ineligible_windows_are_not_targets() {
    let candidates = ordered(vec![normal(1), normal(2), normal(3)]);
    let eligible = vec![WindowId(3)];
    assert_eq!(select_next(&candidates, &eligible, &active(1)), SelectionResult::Target(WindowId(3)));
}

#[test]
fn active_absent_selects_first_eligible_deterministically() {
    let candidates = ordered(vec![normal(1), normal(2), normal(3)]);
    let eligible = all_windows(&candidates);
    for _ in 0..8 {
        assert_eq!(select_next(&candidates, &eligible, &active(99)), SelectionResult::Target(WindowId(3)));
    }
}

#[test]
fn active_absent_order_covers_every_eligible_window_once() {
    let candidates = ordered(vec![normal(1), normal(2), normal(3)]);
    let eligible = all_windows(&candidates);
    let order = attempt_order(&candidates, &eligible, &active(99));
    assert_eq!(order, vec![WindowId(3), WindowId(2), WindowId(1)]);
}

#[test]
fn selection_keeps_no_cursor_between_calls() {
    let candidates = ordered(vec![normal(1), normal(2), normal(3)]);
    let eligible = all_windows(&candidates);
    let first = select_next(&candidates, &eligible, &active(1));
    let second = select_next(&candidates, &eligible, &active(1));
    assert_eq!(first, second);
}

#[test]
fn advances_past_a_tried_target() {
    let candidates = ordered(vec![normal(1), normal(2), normal(3)]);
    let eligible = all_windows(&candidates);
    assert_eq!(
        select_after(&candidates, &eligible, &active(1), &[WindowId(3)]),
        SelectionResult::Target(WindowId(2))
    );
}

#[test]
fn exhaustion_is_a_silent_no_candidate() {
    let candidates = ordered(vec![normal(1), normal(2), normal(3)]);
    let eligible = all_windows(&candidates);
    assert_eq!(
        select_after(&candidates, &eligible, &active(1), &[WindowId(2), WindowId(3)]),
        SelectionResult::NoCandidate
    );
}

#[test]
fn every_candidate_attempted_at_most_once() {
    let candidates = ordered(vec![normal(1), normal(2), normal(3), normal(4)]);
    let eligible = all_windows(&candidates);
    let mut tried: Vec<WindowId> = Vec::new();
    while let SelectionResult::Target(t) = select_after(&candidates, &eligible, &active(1), &tried) {
        assert!(!tried.contains(&t), "candidate re-attempted: {t:?}");
        tried.push(t);
        assert!(tried.len() <= 3, "pass exceeded the eligible set");
    }
    assert_eq!(tried, vec![WindowId(4), WindowId(3), WindowId(2)]);
}

#[test]
fn closing_window_mid_cycle_falls_through_to_next() {
    let candidates = ordered(vec![normal(1), normal(2), normal(3)]);
    let source = StaticSource(candidates);
    let mut activator = ScriptedActivator::scripted(vec![
        (WindowId(3), ActivationOutcome::InvalidTarget),
        (WindowId(2), ActivationOutcome::Activated),
    ]);
    let outcome = run_cycle(&mut Observed::new(&source), &mut Observed::new(&ReferencePolicy), &mut Observed::new(&mut activator), &active(1)).0;
    assert_eq!(outcome, CycleOutcome::Activated(WindowId(2)));
    assert_eq!(activator.attempts, vec![WindowId(3), WindowId(2)]);
}

#[test]
fn all_targets_closing_ends_silently() {
    let source = StaticSource(ordered(vec![normal(1), normal(2), normal(3)]));
    let mut activator = ScriptedActivator::always(ActivationOutcome::InvalidTarget);
    let outcome = run_cycle(&mut Observed::new(&source), &mut Observed::new(&ReferencePolicy), &mut Observed::new(&mut activator), &active(1)).0;
    assert_eq!(outcome, CycleOutcome::Exhausted);
    assert_eq!(activator.attempts.len(), 2);
}

#[test]
fn hung_target_receives_the_same_single_attempt() {
    let source = StaticSource(ordered(vec![normal(1), normal(2)]));
    let mut activator = ScriptedActivator::always(ActivationOutcome::Activated);
    let outcome = run_cycle(&mut Observed::new(&source), &mut Observed::new(&ReferencePolicy), &mut Observed::new(&mut activator), &active(1)).0;
    assert_eq!(outcome, CycleOutcome::Activated(WindowId(2)));
    assert_eq!(activator.attempts, vec![WindowId(2)]);
}

#[test]
fn sweep_scratch_offers_the_full_path_capacity() {
    let sweep = Sweep::new();
    assert_eq!(sweep.path.len(), IMAGE_PATH_CAPACITY);
    assert!(sweep.facts.is_empty());
}

#[test]
fn a_sweep_numbers_its_windows_top_to_bottom() {
    let mut sweep = Sweep::new();
    sweep.facts.push(normal(5));
    sweep.facts.push(normal(9));
    let candidates = sweep.into_candidates();
    assert_eq!(candidates.len(), 2);
    assert_eq!(candidates[0].z_index, 0);
    assert_eq!(candidates[0].facts.window, WindowId(5));
    assert_eq!(candidates[1].z_index, 1);
    assert_eq!(candidates[1].facts.window, WindowId(9));
}
