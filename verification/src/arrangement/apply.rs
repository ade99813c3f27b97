//! Applying a plan to windows: restore-then-move for each placement, the
//! invisible-border compensation, the clamp to the target monitor, the
//! maximize-style gate, and recognising the settings helper's own windows.

use vstd::prelude::*;

use crate::observed::{Observed, SeamCall};

use crate::cycling::WindowId;
use crate::text::wide_eq_ignore_case;
use crate::context::vm_bypass::{basename_range, eq_ignore_ascii_case_wide, is_wide_sep};

use super::{check_extents, rect_result, Placement, PlanError, Rect, WindowMover, WorkArea};

verus! {

/// The settings helper's executable name; its windows are never arranged.
pub const SETTINGS_EXE_NAME: &'static str = "wiradesk-settings.exe";

/// `WS_MAXIMIZEBOX`: the window style bit of a working maximize button.
pub const WS_MAXIMIZEBOX: u32 = 0x0001_0000;

/// A Win32 `RECT`, as read from the system: left, top, right, bottom.
#[derive(Debug, Clone, Copy, PartialEq, Eq, Default)]
pub struct WinRect {
    pub left: i32,
    pub top: i32,
    pub right: i32,
    pub bottom: i32,
}

/// Platform context resolved once per arrangement command: the target window
/// and its monitor's work area.
#[derive(Debug, Clone, Copy, PartialEq, Eq)]
pub struct PlatformContext {
    pub target: WindowId,
    pub work_area: WorkArea,
}

/// The number of `true` answers.
pub open spec fn count_true(answers: Seq<bool>) -> nat
    decreases answers.len(),
{
    if answers.len() == 0 {
        0
    } else {
        count_true(answers.drop_last()) + if answers.last() {
            1nat
        } else {
            0nat
        }
    }
}

/// The mover calls for `placements` with the apply answers `answers`: for
/// each placement in order, a restore of its window and then its move.
pub open spec fn mover_calls(placements: Seq<Placement>, answers: Seq<bool>) -> Seq<SeamCall> {
    Seq::new(
        2 * answers.len(),
        |k: int|
            if k % 2 == 0 {
                SeamCall::Restore(placements[k / 2].window)
            } else {
                SeamCall::Apply(placements[k / 2], answers[k / 2])
            },
    )
}

/// Apply a plan in order, restoring each window immediately before its own
/// move and skipping a target that cannot be moved: the mover is asked to
/// restore and then to move each placement once, in plan order, and nothing
/// else. Returns `(applied, skipped)`, counted from the mover's answers,
/// which are returned beside them; one bad target never aborts the rest.
pub fn apply_plan<M: WindowMover>(mover: &mut Observed<M>, placements: &[Placement]) -> (r: ((usize, usize), Ghost<Seq<bool>>))
    ensures
        r.1@.len() == placements@.len(),
        final(mover).calls() == old(mover).calls() + mover_calls(placements@, r.1@),
        r.0.0 == count_true(r.1@),
        r.0.0 + r.0.1 == placements@.len(),
{
    let mut applied: usize = 0;
    let mut skipped: usize = 0;
    let ghost start = mover.calls();
    let ghost mut answers: Seq<bool> = Seq::empty();
    proof {
        assert(start + mover_calls(placements@, answers) =~= start);
    }
    let n = placements.len();
    let mut i: usize = 0;
    while i < n
        invariant
            n == placements@.len(),
            i <= n,
            answers.len() == i,
            applied == count_true(answers),
            applied + skipped == i,
            mover.calls() == start + mover_calls(placements@, answers),
        decreases n - i,
    {
        let p = placements[i];
        mover.restore(p.window);
        let ok = mover.apply(&p);
        proof {
            let before = mover_calls(placements@, answers);
            let after = mover_calls(placements@, answers.push(ok));
            assert(after =~= before.push(SeamCall::Restore(p.window)).push(SeamCall::Apply(p, ok))) by {
                assert forall|k: int| 0 <= k < after.len() implies after[k] == before.push(
                    SeamCall::Restore(p.window),
                ).push(SeamCall::Apply(p, ok))[k] by {
                    if k < 2 * i {
                        assert(k / 2 < i);
                    } else if k == 2 * i {
                        assert(k / 2 == i);
                    } else {
                        assert(k / 2 == i);
                    }
                }
            }
            assert(start + before.push(SeamCall::Restore(p.window)).push(SeamCall::Apply(p, ok))
                =~= (start + before).push(SeamCall::Restore(p.window)).push(SeamCall::Apply(p, ok)));
            assert(answers.push(ok).drop_last() =~= answers);
            answers = answers.push(ok);
        }
        if ok {
            applied = applied + 1;
        } else {
            skipped = skipped + 1;
        }
        i = i + 1;
    }
    ((applied, skipped), Ghost(answers))
}

/// Convert a Win32 `RECT` into the half-open `Rect`: a field copy plus
/// validation, no coordinate adjustment.
pub fn rect_from_win32(r: WinRect) -> (res: Result<Rect, PlanError>)
    ensures
        res == rect_result(r.left as int, r.top as int, r.right as int, r.bottom as int),
{
    Rect::new(r.left, r.top, r.right, r.bottom)
}

/// The gap between a window's outer rect and its visible frame, per edge.
#[derive(Debug, Clone, Copy, PartialEq, Eq, Default)]
pub struct FrameInsets {
    pub left: i32,
    pub top: i32,
    pub right: i32,
    pub bottom: i32,
}

/// `a - b`, or 0 when that is negative.
pub open spec fn gap(a: int, b: int) -> int {
    if a - b > 0 {
        a - b
    } else {
        0
    }
}

fn nonnegative_gap(a: i32, b: i32) -> (g: i32)
    requires
        fits_gap(a as int, b as int),
    ensures
        g == gap(a as int, b as int),
{
    let d = a - b;
    if d > 0 {
        d
    } else {
        0
    }
}

impl FrameInsets {
    /// The per-edge insets of the extended frame inside the outer rect,
    /// clamped to non-negative so they only ever widen a target.
    pub fn from_rects(outer: WinRect, extended: WinRect) -> (f: FrameInsets)
        requires
            fits_gap(extended.left as int, outer.left as int),
            fits_gap(extended.top as int, outer.top as int),
            fits_gap(outer.right as int, extended.right as int),
            fits_gap(outer.bottom as int, extended.bottom as int),
        ensures
            f.left == gap(extended.left as int, outer.left as int),
            f.top == gap(extended.top as int, outer.top as int),
            f.right == gap(outer.right as int, extended.right as int),
            f.bottom == gap(outer.bottom as int, extended.bottom as int),
            f.left >= 0 && f.top >= 0 && f.right >= 0 && f.bottom >= 0,
    {
        FrameInsets {
            left: nonnegative_gap(extended.left, outer.left),
            top: nonnegative_gap(extended.top, outer.top),
            right: nonnegative_gap(outer.right, extended.right),
            bottom: nonnegative_gap(outer.bottom, extended.bottom),
        }
    }
}

/// The difference `a - b` is representable as an `i32`.
pub open spec fn fits_gap(a: int, b: int) -> bool {
    i32::MIN <= a - b <= i32::MAX
}

/// `target` widened outward by `insets`, when every coordinate and the
/// result are representable.
pub open spec fn compensated(target: Rect, insets: FrameInsets) -> Option<Rect> {
    let l = target.left - insets.left;
    let t = target.top - insets.top;
    let rr = target.right + insets.right;
    let b = target.bottom + insets.bottom;
    if super::fits_i32(l) && super::fits_i32(t) && super::fits_i32(rr) && super::fits_i32(b) {
        match rect_result(l, t, rr, b) {
            Ok(x) => Some(x),
            Err(_) => None,
        }
    } else {
        None
    }
}

/// Widen `target` outward by `insets`; `None` when a coordinate would
/// overflow or the result is not a valid rectangle.
pub fn compensate_for_frame_insets(target: Rect, insets: FrameInsets) -> (r: Option<Rect>)
    ensures
        r == compensated(target, insets),
{
    let l = match target.left.checked_sub(insets.left) {
        Some(v) => v,
        None => return None,
    };
    let t = match target.top.checked_sub(insets.top) {
        Some(v) => v,
        None => return None,
    };
    let rr = match target.right.checked_add(insets.right) {
        Some(v) => v,
        None => return None,
    };
    let b = match target.bottom.checked_add(insets.bottom) {
        Some(v) => v,
        None => return None,
    };
    match Rect::new(l, t, rr, b) {
        Ok(x) => Some(x),
        Err(_) => None,
    }
}

pub open spec fn max_i(a: int, b: int) -> int {
    if a >= b {
        a
    } else {
        b
    }
}

pub open spec fn min_i(a: int, b: int) -> int {
    if a <= b {
        a
    } else {
        b
    }
}

/// `rect` clamped to the monitor's full extent; `rect` itself when the clamp
/// would leave no valid rectangle.
pub open spec fn clamped(rect: Rect, monitor: WinRect) -> Rect {
    match rect_result(
        max_i(rect.left as int, monitor.left as int),
        max_i(rect.top as int, monitor.top as int),
        min_i(rect.right as int, monitor.right as int),
        min_i(rect.bottom as int, monitor.bottom as int),
    ) {
        Ok(x) => x,
        Err(_) => rect,
    }
}

/// Clamp `rect` to the monitor's full extent; when that would leave no valid
/// rectangle, `rect` unchanged.
pub fn clamp_to_monitor(rect: Rect, monitor: WinRect) -> (r: Rect)
    ensures
        r == clamped(rect, monitor),
{
    let left = if rect.left >= monitor.left {
        rect.left
    } else {
        monitor.left
    };
    let top = if rect.top >= monitor.top {
        rect.top
    } else {
        monitor.top
    };
    let right = if rect.right <= monitor.right {
        rect.right
    } else {
        monitor.right
    };
    let bottom = if rect.bottom <= monitor.bottom {
        rect.bottom
    } else {
        monitor.bottom
    };
    match Rect::new(left, top, right, bottom) {
        Ok(x) => x,
        Err(_) => rect,
    }
}

/// A clamped rectangle lies inside the monitor whenever the monitor's extent
/// and the rectangle overlap in a valid rectangle.
pub proof fn lemma_clamp_stays_on_monitor(rect: Rect, monitor: WinRect)
    requires
        rect_result(
            max_i(rect.left as int, monitor.left as int),
            max_i(rect.top as int, monitor.top as int),
            min_i(rect.right as int, monitor.right as int),
            min_i(rect.bottom as int, monitor.bottom as int),
        ) is Ok,
    ensures
        ({
            let c = rect_result(
                max_i(rect.left as int, monitor.left as int),
                max_i(rect.top as int, monitor.top as int),
                min_i(rect.right as int, monitor.right as int),
                min_i(rect.bottom as int, monitor.bottom as int),
            )->Ok_0;
            &&& c.left >= monitor.left && c.top >= monitor.top
            &&& c.right <= monitor.right && c.bottom <= monitor.bottom
            &&& rect.spec_contains(c)
        }),
{
}

/// Whether a window's style permits the system's own maximize.
pub fn style_allows_maximize(style: u32) -> (b: bool)
    ensures
        b == (style & WS_MAXIMIZEBOX != 0),
{
    style & WS_MAXIMIZEBOX != 0
}

/// The basename of a UTF-16 process-image path (after the last `\` or `/`)
/// is the settings helper's executable name, ignoring ASCII case.
pub fn basename_matches_settings_exe(path: &[u16]) -> (b: bool)
    ensures
        b == exists|start: int|
            {
                &&& 0 <= start <= path@.len()
                &&& (start == 0 || is_wide_sep(path@[start - 1]))
                &&& (forall|j: int| start <= j < path@.len() ==> !is_wide_sep(#[trigger] path@[j]))
                &&& wide_eq_ignore_case(SETTINGS_EXE_NAME@, path@.subrange(start, path@.len() as int))
            },
{
    let (start, _len) = basename_range(path);
    let base = vstd::slice::slice_subrange(path, start, path.len());
    let b = eq_ignore_ascii_case_wide(SETTINGS_EXE_NAME, base);
    proof {
        assert(base@ =~= path@.subrange(start as int, path@.len() as int));
        if !b {
            assert forall|s: int|
                0 <= s <= path@.len() && (s == 0 || is_wide_sep(path@[s - 1])) && (forall|j: int|
                    s <= j < path@.len() ==> !is_wide_sep(#[trigger] path@[j])) implies !wide_eq_ignore_case(
                SETTINGS_EXE_NAME@,
                path@.subrange(s, path@.len() as int),
            ) by {
                if s < start {
                    assert(!is_wide_sep(path@[start - 1]));
                } else if s > start {
                    assert(!is_wide_sep(path@[s - 1]));
                }
            }
        }
    }
    b
}

/// The rect a placement aims for once the window's invisible border is
/// accounted for: the planned rect widened by the insets when they are known
/// and the widening is representable, otherwise the planned rect itself.
pub fn border_compensated(planned: Rect, insets: Option<FrameInsets>) -> (r: Rect)
    ensures
        r == match insets {
            Some(i) => match compensated(planned, i) {
                Some(x) => x,
                None => planned,
            },
            None => planned,
        },
{
    match insets {
        Some(i) => match compensate_for_frame_insets(planned, i) {
            Some(x) => x,
            None => planned,
        },
        None => planned,
    }
}

/// What is finally sent for a placement, as `(x, y, width, height)`: `rect`
/// clamped to the full extent of the monitor holding it when that monitor is
/// known; `None` when the result has no positive width and height.
pub fn placement_geometry(rect: Rect, monitor: Option<WinRect>) -> (g: Option<(i32, i32, i32, i32)>)
    ensures
        ({
            let c = match monitor {
                Some(m) => clamped(rect, m),
                None => rect,
            };
            if super::fits_i32(c.right - c.left) && super::fits_i32(c.bottom - c.top) && c.right - c.left > 0
                && c.bottom - c.top > 0 {
                g == Some((c.left, c.top, (c.right - c.left) as i32, (c.bottom - c.top) as i32))
            } else {
                g is None
            }
        }),
{
    let c = match monitor {
        Some(m) => clamp_to_monitor(rect, m),
        None => rect,
    };
    let width = match c.checked_width() {
        Some(w) => w,
        None => return None,
    };
    if width <= 0 {
        return None;
    }
    let height = match c.checked_height() {
        Some(h) => h,
        None => return None,
    };
    if height <= 0 {
        return None;
    }
    Some((c.left, c.top, width, height))
}

/// The DPI assumed when the system cannot report one.
pub const DEFAULT_DPI: u32 = 96;

/// The arrangement context of `window` from what the system reported about
/// it, checked in order: a non-null handle that names a window, not cloaked,
/// not one of this program's own windows, on a monitor whose work area is a
/// valid rectangle. A reported DPI of 0 reads as the 96-DPI baseline. `None`
/// when any check fails, so nothing is arranged partially.
pub fn platform_context(
    window: isize,
    is_window: bool,
    cloaked: bool,
    own_window: bool,
    work: Option<WinRect>,
    dpi: u32,
) -> (c: Option<PlatformContext>)
    ensures
        (window != 0 && is_window && !cloaked && !own_window && work is Some && rect_result(
            work->0.left as int,
            work->0.top as int,
            work->0.right as int,
            work->0.bottom as int,
        ) is Ok) ==> c == Some(
            PlatformContext {
                target: WindowId(window),
                work_area: WorkArea {
                    rect: rect_result(
                        work->0.left as int,
                        work->0.top as int,
                        work->0.right as int,
                        work->0.bottom as int,
                    )->Ok_0,
                    dpi: if dpi == 0 {
                        DEFAULT_DPI
                    } else {
                        dpi
                    },
                },
            },
        ),
        !(window != 0 && is_window && !cloaked && !own_window && work is Some && rect_result(
            work->0.left as int,
            work->0.top as int,
            work->0.right as int,
            work->0.bottom as int,
        ) is Ok) ==> c is None,
{
    if window == 0 || !is_window || cloaked || own_window {
        return None;
    }
    let w = match work {
        Some(w) => w,
        None => return None,
    };
    let rect = match rect_from_win32(w) {
        Ok(r) => r,
        Err(_) => return None,
    };
    let dpi = if dpi == 0 {
        DEFAULT_DPI
    } else {
        dpi
    };
    match WorkArea::new(rect, dpi) {
        Ok(work_area) => Some(PlatformContext { target: WindowId(window), work_area }),
        Err(_) => None,
    }
}

} // verus!
