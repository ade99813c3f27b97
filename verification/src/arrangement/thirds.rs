//! Thirds snap planning against one work area. Pure geometry.

use vstd::prelude::*;

use crate::cycling::WindowId;

use super::{plan_matches, rect_result, PlacementPlan, PlanError, PlanResult, Rect, WorkArea};

verus! {

/// Which third column to snap into.
#[derive(Debug, Clone, Copy, PartialEq, Eq)]
pub enum ThirdColumn {
    Left,
    Middle,
    Right,
}

/// First interior edge: the left column takes the floor of a third.
pub open spec fn third_x1(r: Rect) -> int {
    r.left + r.spec_width() / 3
}

/// Second interior edge: the middle column also takes the remainder.
pub open spec fn third_x2(r: Rect) -> int {
    third_x1(r) + r.spec_width() / 3 + r.spec_width() % 3
}

/// Where a thirds snap puts a window, or why it cannot.
pub open spec fn spec_snap_third(work: WorkArea, column: ThirdColumn) -> Result<Rect, PlanError> {
    let r = work.rect;
    match r.spec_check() {
        Err(e) => Err(e),
        Ok(()) => if r.spec_width() < 3 {
            Err(PlanError::EmptyOrInvertedWorkArea)
        } else {
            match column {
                ThirdColumn::Left => rect_result(
                    r.left as int,
                    r.top as int,
                    third_x1(r),
                    r.bottom as int,
                ),
                ThirdColumn::Middle => rect_result(
                    third_x1(r),
                    r.top as int,
                    third_x2(r),
                    r.bottom as int,
                ),
                ThirdColumn::Right => rect_result(
                    third_x2(r),
                    r.top as int,
                    r.right as int,
                    r.bottom as int,
                ),
            }
        },
    }
}

/// Snap a window to the left, middle, or right third of the work area.
pub fn plan_snap_third(work: &WorkArea, window: WindowId, column: ThirdColumn) -> (res: PlanResult)
    ensures
        plan_matches(res, window, spec_snap_third(*work, column)),
{
    work.rect.validate()?;
    let width = match work.rect.checked_width() {
        Some(w) => w,
        None => return Err(PlanError::UnrepresentableGeometry),
    };
    if width < 3 {
        return Err(PlanError::EmptyOrInvertedWorkArea);
    }
    let base = width / 3;
    let rem = width % 3;
    let w_left = base;
    let w_middle = base + rem;
    let x0 = work.rect.left;
    let x1 = match x0.checked_add(w_left) {
        Some(v) => v,
        None => return Err(PlanError::UnrepresentableGeometry),
    };
    let x2 = match x1.checked_add(w_middle) {
        Some(v) => v,
        None => return Err(PlanError::UnrepresentableGeometry),
    };
    let x3 = work.rect.right;
    let rect = match column {
        ThirdColumn::Left => Rect::new(x0, work.rect.top, x1, work.rect.bottom),
        ThirdColumn::Middle => Rect::new(x1, work.rect.top, x2, work.rect.bottom),
        ThirdColumn::Right => Rect::new(x2, work.rect.top, x3, work.rect.bottom),
    };
    match rect {
        Ok(r) => Ok(PlacementPlan::single(window, r)),
        Err(e) => Err(e),
    }
}

pub fn plan_snap_third_left(work: &WorkArea, window: WindowId) -> (res: PlanResult)
    ensures
        plan_matches(res, window, spec_snap_third(*work, ThirdColumn::Left)),
{
    plan_snap_third(work, window, ThirdColumn::Left)
}

pub fn plan_snap_third_middle(work: &WorkArea, window: WindowId) -> (res: PlanResult)
    ensures
        plan_matches(res, window, spec_snap_third(*work, ThirdColumn::Middle)),
{
    plan_snap_third(work, window, ThirdColumn::Middle)
}

pub fn plan_snap_third_right(work: &WorkArea, window: WindowId) -> (res: PlanResult)
    ensures
        plan_matches(res, window, spec_snap_third(*work, ThirdColumn::Right)),
{
    plan_snap_third(work, window, ThirdColumn::Right)
}

/// On every representable work area at least three pixels wide, the three
/// columns all exist, share their interior edges, span the full height, and
/// together cover exactly the work area's width; the remainder of the division
/// goes to the middle column.
pub proof fn lemma_thirds_tile(work: WorkArea)
    requires
        work.rect.spec_valid(),
        work.rect.spec_width() >= 3,
    ensures
        ({
            let l = spec_snap_third(work, ThirdColumn::Left);
            let m = spec_snap_third(work, ThirdColumn::Middle);
            let r = spec_snap_third(work, ThirdColumn::Right);
            &&& l is Ok && m is Ok && r is Ok
            &&& l->Ok_0.left == work.rect.left
            &&& l->Ok_0.right == m->Ok_0.left
            &&& m->Ok_0.right == r->Ok_0.left
            &&& r->Ok_0.right == work.rect.right
            &&& l->Ok_0.spec_width() == r->Ok_0.spec_width() == work.rect.spec_width() / 3
            &&& m->Ok_0.spec_width() == work.rect.spec_width() / 3 + work.rect.spec_width() % 3
            &&& l->Ok_0.top == m->Ok_0.top == r->Ok_0.top == work.rect.top
            &&& l->Ok_0.bottom == m->Ok_0.bottom == r->Ok_0.bottom == work.rect.bottom
        }),
{
}

/// Every thirds placement that exists lies inside the work area.
pub proof fn lemma_thirds_within(work: WorkArea, column: ThirdColumn)
    ensures
        spec_snap_third(work, column) is Ok ==> work.rect.spec_contains(
            spec_snap_third(work, column)->Ok_0,
        ),
{
}

} // verus!
