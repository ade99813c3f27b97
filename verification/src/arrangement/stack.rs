//! Overlapping-stack planning. Up to three same-application windows are laid
//! out at a configured width, spread evenly across the leftover horizontal
//! travel so each keeps a visible edge. Disabled or empty input is a
//! successful no-op.

use vstd::prelude::*;

use crate::config::LayoutConfig;
use crate::cycling::WindowId;

use super::snap::share;
use super::{Placement, PlacementPlan, PlanError, PlanResult, Rect, WorkArea, STACK_MAX_WINDOWS};

verus! {

/// Width of each stacked window.
pub open spec fn stack_window_width(work: Rect, percent: u32) -> int {
    share(work.spec_width(), percent as int)
}

/// Horizontal room left over once one window is placed.
pub open spec fn stack_travel(work: Rect, percent: u32) -> int {
    work.spec_width() - stack_window_width(work, percent)
}

/// Offset of window `index` of `count` across `travel` pixels: one window is
/// centred; more are spread evenly from one end of the travel to the other.
pub open spec fn anchor_offset_spec(index: int, count: int, travel: int) -> int {
    if count == 1 {
        travel / 2
    } else {
        index * travel / (count - 1)
    }
}

/// Where window `index` of `count` goes.
pub open spec fn stack_rect(work: Rect, percent: u32, index: int, count: int) -> Rect {
    let left = work.left + anchor_offset_spec(index, count, stack_travel(work, percent));
    Rect {
        left: left as i32,
        top: work.top,
        right: (left + stack_window_width(work, percent)) as i32,
        bottom: work.bottom,
    }
}

/// Number of windows the stack arranges out of `n` candidates.
pub open spec fn stack_count(n: int) -> int {
    if n < STACK_MAX_WINDOWS as int {
        n
    } else {
        STACK_MAX_WINDOWS as int
    }
}

/// The placements of a stack of `candidates` on `work`.
pub open spec fn stack_placements(work: Rect, percent: u32, candidates: Seq<WindowId>) -> Seq<Placement> {
    let count = stack_count(candidates.len() as int);
    Seq::new(
        count as nat,
        |i: int| Placement { window: candidates[i], rect: stack_rect(work, percent, i, count) },
    )
}

/// What planning a stack decides: `Ok(None)` is a successful no-op,
/// `Ok(Some(p))` the placements `p`.
pub open spec fn spec_plan_stack(layout: LayoutConfig, work: WorkArea, candidates: Seq<WindowId>) -> Result<Seq<Placement>, PlanError> {
    let percent = layout.stack_width_percent;
    if !layout.enable_overlapping_stack {
        Ok(Seq::empty())
    } else {
        match work.rect.spec_check() {
            Err(e) => Err(e),
            Ok(()) => if percent == 0 || percent > 100 {
                Err(PlanError::InvalidWidthPercent(percent))
            } else if candidates.len() == 0 {
                Ok(Seq::empty())
            } else if stack_window_width(work.rect, percent) <= 0 {
                Err(PlanError::InvalidWidthPercent(percent))
            } else {
                Ok(stack_placements(work.rect, percent, candidates))
            },
        }
    }
}

/// `res` carries exactly what [`spec_plan_stack`] decides.
pub open spec fn stack_matches(res: PlanResult, expected: Result<Seq<Placement>, PlanError>) -> bool {
    match expected {
        Ok(p) => res is Ok && res->Ok_0.placements@ == p,
        Err(e) => res == Err::<PlacementPlan, PlanError>(e),
    }
}

proof fn lemma_anchor_bounds(index: int, count: int, travel: int)
    requires
        1 <= count <= 3,
        0 <= index < count,
        0 <= travel,
    ensures
        0 <= anchor_offset_spec(index, count, travel) <= travel,
{
    if count > 1 {
        assert(0 <= index * travel <= (count - 1) * travel) by (nonlinear_arith)
            requires
                0 <= index <= count - 1,
                0 <= travel,
        ;
        vstd::arithmetic::div_mod::lemma_div_is_ordered(0, index * travel, count - 1);
        vstd::arithmetic::div_mod::lemma_div_is_ordered(
            index * travel,
            (count - 1) * travel,
            count - 1,
        );
        vstd::arithmetic::div_mod::lemma_div_by_multiple(travel, count - 1);
        assert((count - 1) * travel == travel * (count - 1)) by (nonlinear_arith);
    }
}

proof fn lemma_stack_geometry(work: Rect, percent: u32, index: int, count: int)
    requires
        work.spec_valid(),
        1 <= percent <= 100,
        1 <= count <= 3,
        0 <= index < count,
    ensures
        stack_rect(work, percent, index, count).left == work.left + anchor_offset_spec(
            index,
            count,
            stack_travel(work, percent),
        ),
        stack_rect(work, percent, index, count).right == work.left + anchor_offset_spec(
            index,
            count,
            stack_travel(work, percent),
        ) + stack_window_width(work, percent),
        work.spec_contains(stack_rect(work, percent, index, count)),
{
    let w = work.spec_width();
    assert(0 <= w * (percent as int) <= w * 100) by (nonlinear_arith)
        requires
            0 < w,
            1 <= percent <= 100,
    ;
    lemma_anchor_bounds(index, count, stack_travel(work, percent));
}

/// Horizontal anchor for window `index` of `count`, across `travel` pixels.
fn anchor_offset(index: usize, count: usize, travel: i32) -> (o: i32)
    requires
        1 <= count <= 3,
        index < count,
        0 <= travel,
    ensures
        o == anchor_offset_spec(index as int, count as int, travel as int),
{
    proof {
        lemma_anchor_bounds(index as int, count as int, travel as int);
        assert(0 <= index * travel <= 2 * 0x7fff_ffff) by (nonlinear_arith)
            requires
                0 <= index <= 2,
                0 <= travel <= 0x7fff_ffff,
        ;
    }
    if count == 1 {
        travel / 2
    } else {
        let denom = (count - 1) as i64;
        ((index as i64 * travel as i64) / denom) as i32
    }
}

/// Plan an overlapping stack for `candidates` in their live order.
pub fn plan_stack(layout: &LayoutConfig, work: &WorkArea, candidates: &[WindowId]) -> (res: PlanResult)
    ensures
        stack_matches(res, spec_plan_stack(*layout, *work, candidates@)),
{
    if !layout.enable_overlapping_stack {
        return Ok(PlacementPlan::empty());
    }
    work.rect.validate()?;
    let percent = layout.stack_width_percent;
    if percent == 0 || percent > 100 {
        return Err(PlanError::InvalidWidthPercent(percent));
    }
    if candidates.len() == 0 {
        return Ok(PlacementPlan::empty());
    }
    let work_width = work.rect.width();
    proof {
        assert(0 <= work_width * (percent as int) <= work_width * 100) by (nonlinear_arith)
            requires
                0 < work_width,
                1 <= percent <= 100,
        ;
    }
    let window_width = (work_width as i64 * percent as i64 / 100) as i32;
    if window_width <= 0 {
        return Err(PlanError::InvalidWidthPercent(percent));
    }
    let travel = work_width - window_width;
    let count = if candidates.len() < STACK_MAX_WINDOWS {
        candidates.len()
    } else {
        STACK_MAX_WINDOWS
    };
    let ghost expected = stack_placements(work.rect, percent, candidates@);
    let mut placements: Vec<Placement> = Vec::new();
    let mut i: usize = 0;
    while i < count
        invariant
            1 <= count <= 3,
            count == stack_count(candidates@.len() as int),
            count <= candidates@.len(),
            i <= count,
            work.rect.spec_valid(),
            1 <= percent <= 100,
            percent == layout.stack_width_percent,
            work_width == work.rect.spec_width(),
            window_width == stack_window_width(work.rect, percent),
            0 < window_width,
            travel == stack_travel(work.rect, percent),
            0 <= travel,
            expected == stack_placements(work.rect, percent, candidates@),
            placements@ == expected.take(i as int),
        decreases count - i,
    {
        proof {
            lemma_stack_geometry(work.rect, percent, i as int, count as int);
        }
        let offset = anchor_offset(i, count, travel);
        let left = match work.rect.left.checked_add(offset) {
            Some(v) => v,
            None => return Err(PlanError::UnrepresentableGeometry),
        };
        let right = match left.checked_add(window_width) {
            Some(v) => v,
            None => return Err(PlanError::UnrepresentableGeometry),
        };
        assert(right - left == window_width);
        assert(super::check_extents(
            left as int,
            work.rect.top as int,
            right as int,
            work.rect.bottom as int,
        ) is Ok);
        let rect = Rect::new(left, work.rect.top, right, work.rect.bottom)?;
        placements.push(Placement { window: candidates[i], rect });
        proof {
            assert(placements@ =~= expected.take(i as int + 1));
        }
        i = i + 1;
    }
    proof {
        assert(expected.take(count as int) =~= expected);
    }
    Ok(PlacementPlan { placements })
}

/// Every window a stack arranges lies inside the work area, the windows are
/// the first candidates in their live order, and no more than three are
/// arranged.
pub proof fn lemma_stack_within_and_ordered(layout: LayoutConfig, work: WorkArea, candidates: Seq<WindowId>)
    requires
        spec_plan_stack(layout, work, candidates) is Ok,
    ensures
        ({
            let p = spec_plan_stack(layout, work, candidates)->Ok_0;
            &&& super::all_within(p, work.rect)
            &&& p.len() <= STACK_MAX_WINDOWS
            &&& p.len() <= candidates.len()
            &&& forall|i: int| 0 <= i < p.len() ==> #[trigger] p[i].window == candidates[i]
        }),
{
    let p = spec_plan_stack(layout, work, candidates)->Ok_0;
    if p.len() > 0 {
        let count = stack_count(candidates.len() as int);
        assert forall|i: int| 0 <= i < p.len() implies work.rect.spec_contains(
            #[trigger] p[i].rect,
        ) by {
            lemma_stack_geometry(work.rect, layout.stack_width_percent, i, count);
        }
    }
}

/// The stack uses the whole leftover width: every window has the
/// configured share of the work-area width and the full height; with two
/// or more windows the first starts at the work area's left edge and the
/// last ends at its right edge; and a lone window (or the middle one of
/// three) is centred, its two margins equal up to the odd pixel.
pub proof fn lemma_stack_spans_the_work_area(layout: LayoutConfig, work: WorkArea, candidates: Seq<WindowId>)
    requires
        spec_plan_stack(layout, work, candidates) is Ok,
        spec_plan_stack(layout, work, candidates)->Ok_0.len() > 0,
    ensures
        ({
            let p = spec_plan_stack(layout, work, candidates)->Ok_0;
            let w = work.rect;
            let n = p.len() as int;
            let width = (w.right - w.left) * (layout.stack_width_percent as int) / 100;
            &&& forall|i: int|
                0 <= i < n ==> (#[trigger] p[i]).rect.right - p[i].rect.left == width
                    && p[i].rect.top == w.top && p[i].rect.bottom == w.bottom
            &&& n >= 2 ==> p[0].rect.left == w.left && p[n - 1].rect.right == w.right
            &&& (n == 1 || n == 3) ==> {
                let mid = p[n / 2].rect;
                let left_margin = mid.left - w.left;
                let right_margin = w.right - mid.right;
                0 <= right_margin - left_margin <= 1
            }
        }),
{
    let percent = layout.stack_width_percent;
    let w = work.rect;
    let p = spec_plan_stack(layout, work, candidates)->Ok_0;
    let count = stack_count(candidates.len() as int);
    assert(w.spec_valid());
    assert(1 <= percent <= 100);
    assert forall|i: int| 0 <= i < count implies #[trigger] p[i].rect.right - p[i].rect.left
        == (w.right - w.left) * (percent as int) / 100 && p[i].rect.top == w.top && p[i].rect.bottom
        == w.bottom by {
        lemma_stack_geometry(w, percent, i, count);
    }
    let t = stack_travel(w, percent);
    lemma_stack_geometry(w, percent, 0, count);
    lemma_stack_geometry(w, percent, count - 1, count);
    if count == 2 {
        assert(0 * t == 0);
        assert(1 * t == t);
    } else if count == 3 {
        assert(0 * t == 0);
        assert(2 * t / 2 == t);
        lemma_stack_geometry(w, percent, 1, count);
        assert(1 * t == t);
    }
}

/// With at least two windows and travel to spare, every window starts strictly
/// to the right of the one before it, so each keeps a visible edge.
pub proof fn lemma_stack_edges_stay_visible(work: Rect, percent: u32, count: int, index: int)
    requires
        work.spec_valid(),
        1 <= percent <= 100,
        2 <= count <= 3,
        0 <= index,
        index + 1 < count,
        stack_travel(work, percent) >= count - 1,
    ensures
        stack_rect(work, percent, index, count).left < stack_rect(work, percent, index + 1, count).left,
{
    let t = stack_travel(work, percent);
    if count == 2 {
        assert(0 * t == 0);
        assert(anchor_offset_spec(0, 2, t) == 0);
        assert(anchor_offset_spec(1, 2, t) == t);
    } else if index == 0 {
        assert(0 * t == 0);
        assert(anchor_offset_spec(0, 3, t) == 0);
        assert(anchor_offset_spec(1, 3, t) == t / 2);
    } else {
        assert(anchor_offset_spec(1, 3, t) == t / 2);
        assert(anchor_offset_spec(2, 3, t) == 2 * t / 2);
        assert(2 * t / 2 == t);
    }
}

} // verus!
