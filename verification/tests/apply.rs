use wiradesk::observed::Observed;
use wiradesk::arrangement::apply::{
    apply_plan, basename_matches_settings_exe, clamp_to_monitor, compensate_for_frame_insets,
    rect_from_win32, style_allows_maximize, FrameInsets, WinRect,
};
use wiradesk::arrangement::{Placement, PlanError, Rect, WindowMover, WorkArea};
use wiradesk::cycling::WindowId;
use wiradesk::arrangement::apply::{platform_context, PlatformContext};
use wiradesk::arrangement::apply::{border_compensated, placement_geometry};

#[derive(Debug, Clone, PartialEq, Eq)]
enum MoverCall {
    Restore(WindowId),
    Apply(Placement),
}

struct FakeMover {
    log: Vec<MoverCall>,
    invalid: Vec<WindowId>,
}

impl FakeMover {
    fn new(invalid: Vec<WindowId>) -> Self {
        FakeMover { log: Vec::new(), invalid }
    }

    fn calls(&self) -> Vec<Placement> {
        self.log
            .iter()
            .filter_map(|c| match c {
                MoverCall::Apply(p) => Some(*p),
                MoverCall::Restore(_) => None,
            })
            .collect()
    }
}

impl WindowMover for FakeMover {
    fn restore(&mut self, window: WindowId) {
        self.log.push(MoverCall::Restore(window));
    }

    fn apply(&mut self, placement: &Placement) -> bool {
        self.log.push(MoverCall::Apply(*placement));
        !self.invalid.contains(&placement.window)
    }
}

fn placement(w: isize, left: i32, right: i32) -> Placement {
    Placement { window: WindowId(w), rect: Rect::new(left, 0, right, 100).unwrap() }
}

fn dpi_variants() -> Vec<WorkArea> {
    [96u32, 120, 144, 192]
        .into_iter()
        .map(|dpi| WorkArea::new(Rect::new(0, 0, 1920, 1040).unwrap(), dpi).unwrap())
        .collect()
}

const WS_CAPTION: u32 = 0x00C0_0000;
const WS_SYSMENU: u32 = 0x0008_0000;
const WS_THICKFRAME: u32 = 0x0004_0000;
const WS_MAXIMIZEBOX: u32 = 0x0001_0000;

#[test]
fn every_window_is_restored_before_it_is_moved() {
    let mut mover = FakeMover::new(vec![]);
    let plan = [placement(1, 0, 100), placement(2, 100, 200)];
    apply_plan(&mut Observed::new(&mut mover), &plan);
    assert_eq!(
        mover.log,
        vec![
            MoverCall::Restore(WindowId(1)),
            MoverCall::Apply(plan[0]),
            MoverCall::Restore(WindowId(2)),
            MoverCall::Apply(plan[1]),
        ]
    );
}

#[test]
fn a_target_that_fails_to_move_was_still_restored() {
    let mut mover = FakeMover::new(vec![WindowId(2)]);
    let plan = [placement(1, 0, 100), placement(2, 100, 200)];
    assert_eq!(apply_plan(&mut Observed::new(&mut mover), &plan).0, (1, 1));
    assert!(mover.log.contains(&MoverCall::Restore(WindowId(2))));
}

#[test]
fn a_window_without_a_maximize_box_falls_back() {
    let ordinary = WS_CAPTION | WS_SYSMENU | WS_THICKFRAME | WS_MAXIMIZEBOX;
    assert!(style_allows_maximize(ordinary));
    let fixed_dialog = WS_CAPTION | WS_SYSMENU;
    assert!(!style_allows_maximize(fixed_dialog));
}

#[test]
fn a_zero_style_word_falls_back() {
    assert!(!style_allows_maximize(0));
}

#[test]
fn all_valid_targets_are_applied() {
    let mut mover = FakeMover::new(vec![]);
    let plan = [placement(1, 0, 100), placement(2, 100, 200)];
    assert_eq!(apply_plan(&mut Observed::new(&mut mover), &plan).0, (2, 0));
    assert_eq!(mover.calls().len(), 2);
}

#[test]
fn an_invalid_target_is_skipped_and_the_rest_continue() {
    let mut mover = FakeMover::new(vec![WindowId(2)]);
    let plan = [placement(1, 0, 100), placement(2, 100, 200), placement(3, 200, 300)];
    assert_eq!(apply_plan(&mut Observed::new(&mut mover), &plan).0, (2, 1));
    let attempted: Vec<WindowId> = mover.calls().iter().map(|p| p.window).collect();
    assert_eq!(attempted, vec![WindowId(1), WindowId(2), WindowId(3)]);
}

#[test]
fn every_target_invalid_yields_no_applications_and_no_panic() {
    let mut mover = FakeMover::new(vec![WindowId(1), WindowId(2)]);
    let plan = [placement(1, 0, 100), placement(2, 100, 200)];
    assert_eq!(apply_plan(&mut Observed::new(&mut mover), &plan).0, (0, 2));
}

#[test]
fn empty_plan_applies_nothing() {
    let mut mover = FakeMover::new(vec![]);
    assert_eq!(apply_plan(&mut Observed::new(&mut mover), &[]).0, (0, 0));
    assert!(mover.calls().is_empty());
}

#[test]
fn call_order_matches_plan_order() {
    let mut mover = FakeMover::new(vec![]);
    let plan = [placement(9, 0, 50), placement(4, 50, 100), placement(7, 100, 150)];
    apply_plan(&mut Observed::new(&mut mover), &plan);
    let order: Vec<WindowId> = mover.calls().iter().map(|p| p.window).collect();
    assert_eq!(order, vec![WindowId(9), WindowId(4), WindowId(7)]);
}

#[test]
fn no_border_yields_zero_insets() {
    let outer = WinRect { left: 100, top: 100, right: 900, bottom: 700 };
    assert_eq!(FrameInsets::from_rects(outer, outer), FrameInsets::default());
}

#[test]
fn a_typical_left_right_bottom_border_is_measured_correctly() {
    let outer = WinRect { left: 100, top: 100, right: 900, bottom: 700 };
    let extended = WinRect { left: 107, top: 100, right: 893, bottom: 693 };
    assert_eq!(
        FrameInsets::from_rects(outer, extended),
        FrameInsets { left: 7, top: 0, right: 7, bottom: 7 }
    );
}

#[test]
fn an_inverted_extended_frame_clamps_to_zero_rather_than_going_negative() {
    let outer = WinRect { left: 100, top: 100, right: 900, bottom: 700 };
    let extended = WinRect { left: 90, top: 100, right: 910, bottom: 700 };
    assert_eq!(FrameInsets::from_rects(outer, extended), FrameInsets::default());
}

#[test]
fn compensation_widens_the_target_by_exactly_the_insets() {
    let target = Rect::new(0, 0, 1920, 1040).unwrap();
    let insets = FrameInsets { left: 7, top: 0, right: 7, bottom: 7 };
    let adjusted = compensate_for_frame_insets(target, insets).unwrap();
    assert_eq!(adjusted, Rect::new(-7, 0, 1927, 1047).unwrap());
}

#[test]
fn zero_insets_leave_the_target_unchanged() {
    let target = Rect::new(0, 0, 1920, 1040).unwrap();
    let adjusted = compensate_for_frame_insets(target, FrameInsets::default()).unwrap();
    assert_eq!(adjusted, target);
}

#[test]
fn compensation_that_would_overflow_is_refused() {
    let target = Rect::new(i32::MIN, 0, -1, 100).unwrap();
    let insets = FrameInsets { left: 1, top: 0, right: 0, bottom: 0 };
    assert_eq!(compensate_for_frame_insets(target, insets), None);
}

#[test]
fn a_rect_already_inside_the_monitor_is_unchanged() {
    let monitor = WinRect { left: -2160, top: -838, right: 0, bottom: 3002 };
    let rect = Rect::new(-2160, -838, -1069, 2929).unwrap();
    assert_eq!(clamp_to_monitor(rect, monitor), rect);
}

#[test]
fn compensation_past_the_monitors_outer_edge_is_pulled_back_in() {
    let monitor = WinRect { left: -2160, top: -838, right: 0, bottom: 3002 };
    let compensated = Rect::new(-2171, -838, -1069, 2929).unwrap();
    let clamped = clamp_to_monitor(compensated, monitor);
    assert_eq!(clamped.left, -2160, "must not bleed past the monitor's own left edge");
    assert_eq!(clamped.right, -1069, "the untouched edge must be left alone");
}

#[test]
fn clamping_never_inverts_a_rect_that_still_fits_the_monitor() {
    let monitor = WinRect { left: 0, top: 0, right: 3840, bottom: 2160 };
    let compensated = Rect::new(-20, -20, 3860, 2180).unwrap();
    let clamped = clamp_to_monitor(compensated, monitor);
    assert_eq!(clamped, Rect::new(0, 0, 3840, 2160).unwrap());
}

#[test]
fn clamping_a_rect_off_the_monitor_falls_back_to_the_rect() {
    let monitor = WinRect { left: 0, top: 0, right: 100, bottom: 100 };
    let elsewhere = Rect::new(200, 200, 300, 300).unwrap();
    assert_eq!(clamp_to_monitor(elsewhere, monitor), elsewhere);
}

#[test]
fn win32_rect_converts_without_adjustment() {
    let r = WinRect { left: 0, top: 0, right: 1920, bottom: 1040 };
    assert_eq!(rect_from_win32(r).unwrap(), Rect::new(0, 0, 1920, 1040).unwrap());
}

#[test]
fn negative_monitor_coordinates_survive_conversion() {
    let r = WinRect { left: -1920, top: -200, right: 0, bottom: 880 };
    let converted = rect_from_win32(r).unwrap();
    assert_eq!(converted, Rect::new(-1920, -200, 0, 880).unwrap());
    assert_eq!(converted.width(), 1920);
}

#[test]
fn degenerate_win32_rect_is_rejected() {
    let empty = WinRect { left: 0, top: 0, right: 0, bottom: 100 };
    assert_eq!(rect_from_win32(empty), Err(PlanError::EmptyOrInvertedWorkArea));
}

#[test]
fn conversion_never_rescales_by_dpi() {
    let r = WinRect { left: 100, top: 100, right: 1000, bottom: 900 };
    let base = rect_from_win32(r).unwrap();
    for work in dpi_variants() {
        let again = WorkArea::new(base, work.dpi).unwrap();
        assert_eq!(again.rect, base, "DPI {} altered the rect", work.dpi);
    }
}

fn utf16(s: &str) -> Vec<u16> {
    s.encode_utf16().collect()
}

#[test]
fn backslash_path_is_ours() {
    assert!(basename_matches_settings_exe(&utf16(r"C:\Program Files\Wira Desk\wiradesk-settings.exe")));
}

#[test]
fn forward_slash_path_is_ours() {
    assert!(basename_matches_settings_exe(&utf16("C:/Program Files/Wira Desk/wiradesk-settings.exe")));
}

#[test]
fn bare_basename_with_no_separator_is_ours() {
    assert!(basename_matches_settings_exe(&utf16("wiradesk-settings.exe")));
}

#[test]
fn uppercase_basename_is_ours() {
    assert!(basename_matches_settings_exe(&utf16("WIRADESK-SETTINGS.EXE")));
}

#[test]
fn settings_helper_basename_is_not_ours() {
    assert!(!basename_matches_settings_exe(&utf16("wiradesk-settings-helper.exe")));
}

#[test]
fn unrelated_basename_is_not_ours() {
    assert!(!basename_matches_settings_exe(&utf16("notepad.exe")));
}

#[test]
fn empty_slice_is_not_ours() {
    assert!(!basename_matches_settings_exe(&[]));
}

#[test]
fn a_trailing_separator_is_not_ours() {
    assert!(!basename_matches_settings_exe(&utf16(r"C:\wiradesk-settings.exe\")));
}

#[test]
fn a_context_needs_a_live_visible_foreign_window_on_a_monitor() {
    let work = WinRect { left: 0, top: 0, right: 1920, bottom: 1040 };
    let expected = PlatformContext {
        target: WindowId(42),
        work_area: WorkArea::new(Rect::new(0, 0, 1920, 1040).unwrap(), 144).unwrap(),
    };
    assert_eq!(platform_context(42, true, false, false, Some(work), 144), Some(expected));
    assert_eq!(platform_context(42, true, false, false, Some(work), 0).unwrap().work_area.dpi, 96);
    assert_eq!(platform_context(0, true, false, false, Some(work), 96), None);
    assert_eq!(platform_context(42, false, false, false, Some(work), 96), None);
    assert_eq!(platform_context(42, true, true, false, Some(work), 96), None, "cloaked");
    assert_eq!(platform_context(42, true, false, true, Some(work), 96), None, "own window");
    assert_eq!(platform_context(42, true, false, false, None, 96), None, "no monitor");
    let empty = WinRect { left: 0, top: 0, right: 0, bottom: 1040 };
    assert_eq!(platform_context(42, true, false, false, Some(empty), 96), None);
}

#[test]
fn placement_geometry_widens_clamps_and_refuses_degenerate_rects() {
    let planned = Rect::new(0, 0, 960, 1040).unwrap();
    let insets = FrameInsets { left: 7, top: 0, right: 7, bottom: 7 };
    assert_eq!(border_compensated(planned, None), planned);
    let widened = border_compensated(planned, Some(insets));
    assert_eq!(widened, Rect::new(-7, 0, 967, 1047).unwrap());
    let edge = Rect::new(i32::MIN, 0, -1, 100).unwrap();
    assert_eq!(border_compensated(edge, Some(FrameInsets { left: 1, top: 0, right: 0, bottom: 0 })), edge);

    let monitor = WinRect { left: 0, top: 0, right: 1920, bottom: 1080 };
    assert_eq!(placement_geometry(widened, Some(monitor)), Some((0, 0, 967, 1047)));
    assert_eq!(placement_geometry(widened, None), Some((-7, 0, 974, 1047)));
}
