//! Snap planning against one work area. Pure geometry: nothing here scales by
//! DPI, because coordinates already arrive in physical pixels.

use vstd::prelude::*;

use crate::cycling::WindowId;

use super::{
    check_extents, fits_i32, plan_matches, rect_result, PlacementPlan, PlanError, PlanResult,
    Rect, WorkArea,
};

verus! {

/// The x coordinate dividing `r` into halves: the left half takes the floor.
pub open spec fn half_x(r: Rect) -> int {
    r.left + r.spec_width() / 2
}

/// The y coordinate dividing `r` into halves: the top half takes the floor.
pub open spec fn half_y(r: Rect) -> int {
    r.top + r.spec_height() / 2
}

/// Where the left half snap puts a window, or why it cannot.
pub open spec fn spec_snap_left(work: WorkArea) -> Result<Rect, PlanError> {
    let r = work.rect;
    match r.spec_check() {
        Err(e) => Err(e),
        Ok(()) => rect_result(r.left as int, r.top as int, half_x(r), r.bottom as int),
    }
}

pub open spec fn spec_snap_right(work: WorkArea) -> Result<Rect, PlanError> {
    let r = work.rect;
    match r.spec_check() {
        Err(e) => Err(e),
        Ok(()) => rect_result(half_x(r), r.top as int, r.right as int, r.bottom as int),
    }
}

pub open spec fn spec_snap_top(work: WorkArea) -> Result<Rect, PlanError> {
    let r = work.rect;
    match r.spec_check() {
        Err(e) => Err(e),
        Ok(()) => rect_result(r.left as int, r.top as int, r.right as int, half_y(r)),
    }
}

pub open spec fn spec_snap_bottom(work: WorkArea) -> Result<Rect, PlanError> {
    let r = work.rect;
    match r.spec_check() {
        Err(e) => Err(e),
        Ok(()) => rect_result(r.left as int, half_y(r), r.right as int, r.bottom as int),
    }
}

pub open spec fn spec_snap_maximize(work: WorkArea) -> Result<Rect, PlanError> {
    match work.rect.spec_check() {
        Err(e) => Err(e),
        Ok(()) => Ok(work.rect),
    }
}

/// The x coordinate that divides the work area into halves.
fn split_x(work: &Rect) -> (res: Result<i32, PlanError>)
    requires
        work.spec_valid(),
    ensures
        res == Ok::<i32, PlanError>(half_x(*work) as i32),
        work.left <= half_x(*work) < work.right,
{
    let width = match work.checked_width() {
        Some(w) => w,
        None => return Err(PlanError::UnrepresentableGeometry),
    };
    if width <= 0 {
        return Err(PlanError::EmptyOrInvertedWorkArea);
    }
    match work.left.checked_add(width / 2) {
        Some(m) => Ok(m),
        None => Err(PlanError::UnrepresentableGeometry),
    }
}

/// The y coordinate that divides the work area into halves.
fn split_y(work: &Rect) -> (res: Result<i32, PlanError>)
    requires
        work.spec_valid(),
    ensures
        res == Ok::<i32, PlanError>(half_y(*work) as i32),
        work.top <= half_y(*work) < work.bottom,
{
    let height = match work.checked_height() {
        Some(h) => h,
        None => return Err(PlanError::UnrepresentableGeometry),
    };
    if height <= 0 {
        return Err(PlanError::EmptyOrInvertedWorkArea);
    }
    match work.top.checked_add(height / 2) {
        Some(m) => Ok(m),
        None => Err(PlanError::UnrepresentableGeometry),
    }
}

/// Turn a checked rectangle into a one-placement plan.
fn single_from(window: WindowId, rect: Result<Rect, PlanError>) -> (res: PlanResult)
    ensures
        plan_matches(res, window, rect),
{
    match rect {
        Ok(r) => Ok(PlacementPlan::single(window, r)),
        Err(e) => Err(e),
    }
}

/// Left half of the usable work area.
pub fn plan_snap_left(work: &WorkArea, window: WindowId) -> (res: PlanResult)
    ensures
        plan_matches(res, window, spec_snap_left(*work)),
{
    work.rect.validate()?;
    let mid = split_x(&work.rect)?;
    single_from(window, Rect::new(work.rect.left, work.rect.top, mid, work.rect.bottom))
}

/// Right half: the exact complement of [`plan_snap_left`].
pub fn plan_snap_right(work: &WorkArea, window: WindowId) -> (res: PlanResult)
    ensures
        plan_matches(res, window, spec_snap_right(*work)),
{
    work.rect.validate()?;
    let mid = split_x(&work.rect)?;
    single_from(window, Rect::new(mid, work.rect.top, work.rect.right, work.rect.bottom))
}

/// Top half of the usable work area.
pub fn plan_snap_top(work: &WorkArea, window: WindowId) -> (res: PlanResult)
    ensures
        plan_matches(res, window, spec_snap_top(*work)),
{
    work.rect.validate()?;
    let mid = split_y(&work.rect)?;
    single_from(window, Rect::new(work.rect.left, work.rect.top, work.rect.right, mid))
}

/// Bottom half: the exact complement of [`plan_snap_top`].
pub fn plan_snap_bottom(work: &WorkArea, window: WindowId) -> (res: PlanResult)
    ensures
        plan_matches(res, window, spec_snap_bottom(*work)),
{
    work.rect.validate()?;
    let mid = split_y(&work.rect)?;
    single_from(window, Rect::new(work.rect.left, mid, work.rect.right, work.rect.bottom))
}

/// The complete usable work area, never the full monitor bounds.
pub fn plan_snap_maximize(work: &WorkArea, window: WindowId) -> (res: PlanResult)
    ensures
        plan_matches(res, window, spec_snap_maximize(*work)),
{
    work.rect.validate()?;
    single_from(
        window,
        Rect::new(work.rect.left, work.rect.top, work.rect.right, work.rect.bottom),
    )
}


/// Which edge a custom-percentage snap is anchored to.
#[derive(Debug, Clone, Copy, PartialEq, Eq)]
pub enum SnapEdge {
    Left,
    Right,
    Top,
    Bottom,
}

/// `percent` percent of `extent`, rounded down.
pub open spec fn share(extent: int, percent: int) -> int {
    extent * percent / 100
}

/// Where a percentage snap against `edge` puts a window, or why it cannot.
pub open spec fn spec_snap_percent(work: WorkArea, edge: SnapEdge, percent: u32) -> Result<Rect, PlanError> {
    let r = work.rect;
    match r.spec_check() {
        Err(e) => Err(e),
        Ok(()) => if percent == 0 || percent > 100 {
            Err(PlanError::InvalidWidthPercent(percent))
        } else {
            match edge {
                SnapEdge::Left => {
                    let e = share(r.spec_width(), percent as int);
                    if e <= 0 {
                        Err(PlanError::EmptyOrInvertedWorkArea)
                    } else {
                        rect_result(r.left as int, r.top as int, r.left + e, r.bottom as int)
                    }
                },
                SnapEdge::Right => {
                    let e = share(r.spec_width(), percent as int);
                    if e <= 0 {
                        Err(PlanError::EmptyOrInvertedWorkArea)
                    } else {
                        rect_result(r.right - e, r.top as int, r.right as int, r.bottom as int)
                    }
                },
                SnapEdge::Top => {
                    let e = share(r.spec_height(), percent as int);
                    if e <= 0 {
                        Err(PlanError::EmptyOrInvertedWorkArea)
                    } else {
                        rect_result(r.left as int, r.top as int, r.right as int, r.top + e)
                    }
                },
                SnapEdge::Bottom => {
                    let e = share(r.spec_height(), percent as int);
                    if e <= 0 {
                        Err(PlanError::EmptyOrInvertedWorkArea)
                    } else {
                        rect_result(r.left as int, r.bottom - e, r.right as int, r.bottom as int)
                    }
                },
            }
        },
    }
}

proof fn lemma_share_bounds(extent: int, percent: int)
    requires
        0 < extent,
        1 <= percent <= 100,
    ensures
        0 <= share(extent, percent) <= extent,
{
    assert(0 <= extent * percent <= extent * 100) by (nonlinear_arith)
        requires
            0 < extent,
            1 <= percent <= 100,
    ;
}

/// `percent` percent of a positive `extent`, computed in 64 bits.
fn percent_of(extent: i32, percent: u32) -> (e: i32)
    requires
        0 < extent,
        1 <= percent <= 100,
    ensures
        e == share(extent as int, percent as int),
        0 <= e <= extent,
{
    proof {
        lemma_share_bounds(extent as int, percent as int);
    }
    let wide = extent as i64 * percent as i64;
    (wide / 100) as i32
}

/// Snap against the named edge at `percent` percent of the work area.
pub fn plan_snap_percent(work: &WorkArea, window: WindowId, edge: SnapEdge, percent: u32) -> (res: PlanResult)
    ensures
        plan_matches(res, window, spec_snap_percent(*work, edge, percent)),
{
    work.rect.validate()?;
    if percent == 0 || percent > 100 {
        return Err(PlanError::InvalidWidthPercent(percent));
    }
    let r = work.rect;
    let rect = match edge {
        SnapEdge::Left => {
            let width = match r.checked_width() {
                Some(w) => w,
                None => return Err(PlanError::UnrepresentableGeometry),
            };
            let extent = percent_of(width, percent);
            if extent <= 0 {
                return Err(PlanError::EmptyOrInvertedWorkArea);
            }
            let right = match r.left.checked_add(extent) {
                Some(v) => v,
                None => return Err(PlanError::UnrepresentableGeometry),
            };
            Rect::new(r.left, r.top, right, r.bottom)
        },
        SnapEdge::Right => {
            let width = match r.checked_width() {
                Some(w) => w,
                None => return Err(PlanError::UnrepresentableGeometry),
            };
            let extent = percent_of(width, percent);
            if extent <= 0 {
                return Err(PlanError::EmptyOrInvertedWorkArea);
            }
            let left = match r.right.checked_sub(extent) {
                Some(v) => v,
                None => return Err(PlanError::UnrepresentableGeometry),
            };
            Rect::new(left, r.top, r.right, r.bottom)
        },
        SnapEdge::Top => {
            let height = match r.checked_height() {
                Some(h) => h,
                None => return Err(PlanError::UnrepresentableGeometry),
            };
            let extent = percent_of(height, percent);
            if extent <= 0 {
                return Err(PlanError::EmptyOrInvertedWorkArea);
            }
            let bottom = match r.top.checked_add(extent) {
                Some(v) => v,
                None => return Err(PlanError::UnrepresentableGeometry),
            };
            Rect::new(r.left, r.top, r.right, bottom)
        },
        SnapEdge::Bottom => {
            let height = match r.checked_height() {
                Some(h) => h,
                None => return Err(PlanError::UnrepresentableGeometry),
            };
            let extent = percent_of(height, percent);
            if extent <= 0 {
                return Err(PlanError::EmptyOrInvertedWorkArea);
            }
            let top = match r.bottom.checked_sub(extent) {
                Some(v) => v,
                None => return Err(PlanError::UnrepresentableGeometry),
            };
            Rect::new(r.left, top, r.right, r.bottom)
        },
    };
    single_from(window, rect)
}


/// On every representable work area at least two pixels wide, the left and
/// right halves both exist, meet at one seam with neither gap nor overlap, keep
/// the full height, and together cover exactly the work area's width. An odd
/// width gives the floor to the left half.
pub proof fn lemma_horizontal_halves_tile(work: WorkArea)
    requires
        work.rect.spec_valid(),
        work.rect.spec_width() >= 2,
    ensures
        ({
            let l = spec_snap_left(work);
            let r = spec_snap_right(work);
            &&& l is Ok && r is Ok
            &&& l->Ok_0.left == work.rect.left
            &&& l->Ok_0.right == r->Ok_0.left
            &&& r->Ok_0.right == work.rect.right
            &&& l->Ok_0.spec_width() + r->Ok_0.spec_width() == work.rect.spec_width()
            &&& l->Ok_0.spec_width() == work.rect.spec_width() / 2
            &&& l->Ok_0.top == r->Ok_0.top == work.rect.top
            &&& l->Ok_0.bottom == r->Ok_0.bottom == work.rect.bottom
        }),
{
}

/// The vertical twin: top and bottom halves share one seam, keep the full
/// width, and cover exactly the work area's height; an odd height gives the
/// floor to the top half.
pub proof fn lemma_vertical_halves_tile(work: WorkArea)
    requires
        work.rect.spec_valid(),
        work.rect.spec_height() >= 2,
    ensures
        ({
            let t = spec_snap_top(work);
            let b = spec_snap_bottom(work);
            &&& t is Ok && b is Ok
            &&& t->Ok_0.top == work.rect.top
            &&& t->Ok_0.bottom == b->Ok_0.top
            &&& b->Ok_0.bottom == work.rect.bottom
            &&& t->Ok_0.spec_height() + b->Ok_0.spec_height() == work.rect.spec_height()
            &&& t->Ok_0.spec_height() == work.rect.spec_height() / 2
            &&& t->Ok_0.left == b->Ok_0.left == work.rect.left
            &&& t->Ok_0.right == b->Ok_0.right == work.rect.right
        }),
{
}

/// On a representable work area the right and bottom halves always exist, and
/// maximize returns exactly the work area.
pub proof fn lemma_complements_and_maximize_exist(work: WorkArea)
    requires
        work.rect.spec_valid(),
    ensures
        spec_snap_right(work) is Ok,
        spec_snap_bottom(work) is Ok,
        spec_snap_maximize(work) == Ok::<Rect, PlanError>(work.rect),
{
}

/// Every snap placement that exists, halves, maximize and percentages alike,
/// lies inside the work area.
pub proof fn lemma_snaps_stay_within(work: WorkArea, edge: SnapEdge, percent: u32)
    ensures
        spec_snap_left(work) is Ok ==> work.rect.spec_contains(spec_snap_left(work)->Ok_0),
        spec_snap_right(work) is Ok ==> work.rect.spec_contains(spec_snap_right(work)->Ok_0),
        spec_snap_top(work) is Ok ==> work.rect.spec_contains(spec_snap_top(work)->Ok_0),
        spec_snap_bottom(work) is Ok ==> work.rect.spec_contains(spec_snap_bottom(work)->Ok_0),
        spec_snap_maximize(work) is Ok ==> work.rect.spec_contains(
            spec_snap_maximize(work)->Ok_0,
        ),
        spec_snap_percent(work, edge, percent) is Ok ==> work.rect.spec_contains(
            spec_snap_percent(work, edge, percent)->Ok_0,
        ),
{
    if work.rect.spec_valid() && 1 <= percent <= 100 {
        lemma_share_bounds(work.rect.spec_width(), percent as int);
        lemma_share_bounds(work.rect.spec_height(), percent as int);
    }
}

/// A percentage snap keeps its named edge on the work area's edge and spans
/// the full other axis; the four edges are computed independently of each
/// other.
pub proof fn lemma_percent_anchors_its_edge(work: WorkArea, edge: SnapEdge, percent: u32)
    requires
        spec_snap_percent(work, edge, percent) is Ok,
    ensures
        ({
            let r = spec_snap_percent(work, edge, percent)->Ok_0;
            match edge {
                SnapEdge::Left => r.left == work.rect.left && r.spec_width() == share(
                    work.rect.spec_width(),
                    percent as int,
                ) && r.top == work.rect.top && r.bottom == work.rect.bottom,
                SnapEdge::Right => r.right == work.rect.right && r.spec_width() == share(
                    work.rect.spec_width(),
                    percent as int,
                ) && r.top == work.rect.top && r.bottom == work.rect.bottom,
                SnapEdge::Top => r.top == work.rect.top && r.spec_height() == share(
                    work.rect.spec_height(),
                    percent as int,
                ) && r.left == work.rect.left && r.right == work.rect.right,
                SnapEdge::Bottom => r.bottom == work.rect.bottom && r.spec_height() == share(
                    work.rect.spec_height(),
                    percent as int,
                ) && r.left == work.rect.left && r.right == work.rect.right,
            }
        }),
{
    lemma_share_bounds(work.rect.spec_width(), percent as int);
    lemma_share_bounds(work.rect.spec_height(), percent as int);
}

/// DPI is carried and never applied: two work areas with the same rectangle
/// get the same plan from every snap, whatever their DPI.
pub proof fn lemma_snaps_ignore_dpi(a: WorkArea, b: WorkArea, edge: SnapEdge, percent: u32)
    requires
        a.rect == b.rect,
    ensures
        spec_snap_left(a) == spec_snap_left(b),
        spec_snap_right(a) == spec_snap_right(b),
        spec_snap_top(a) == spec_snap_top(b),
        spec_snap_bottom(a) == spec_snap_bottom(b),
        spec_snap_maximize(a) == spec_snap_maximize(b),
        spec_snap_percent(a, edge, percent) == spec_snap_percent(b, edge, percent),
{
}

} // verus!
