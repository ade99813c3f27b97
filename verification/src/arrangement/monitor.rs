//! Inter-monitor placement planning. Pure geometry: the planner receives work
//! areas, never monitor handles, and maps a window by proportion.

use vstd::prelude::*;
use vstd::arithmetic::div_mod::{lemma_div_is_ordered, lemma_fundamental_div_mod_converse_div};

use crate::cycling::WindowId;

use super::{plan_matches, rect_result, PlacementPlan, PlanError, PlanResult, Rect, WorkArea};

verus! {

/// The monitor after `from` in enumeration order, wrapping from the last to the
/// first; `None` for fewer than two monitors or an out-of-range `from`.
pub fn next_monitor_index(count: usize, from: usize) -> (res: Option<usize>)
    ensures
        res == (if count < 2 || from >= count {
            None
        } else {
            Some(((from + 1) % (count as int)) as usize)
        }),
{
    if count < 2 || from >= count {
        return None;
    }
    Some((from + 1) % count)
}

/// Map `value` from the span starting at `src_start` with extent `src_extent`
/// onto the span at `dst_start` with extent `dst_extent`, rounding to nearest.
pub open spec fn map_coord(value: int, src_start: int, src_extent: int, dst_start: int, dst_extent: int) -> int {
    dst_start + ((value - src_start) * dst_extent + src_extent / 2) / src_extent
}

/// The part of `rect` that lies inside `bounds` (possibly empty or inverted).
pub open spec fn clamp_into(rect: Rect, bounds: Rect) -> Rect {
    Rect {
        left: if rect.left > bounds.left { rect.left } else { bounds.left },
        top: if rect.top > bounds.top { rect.top } else { bounds.top },
        right: if rect.right < bounds.right { rect.right } else { bounds.right },
        bottom: if rect.bottom < bounds.bottom { rect.bottom } else { bounds.bottom },
    }
}

/// Where moving a window with outer rect `window_rect` from `source` onto
/// `destination` puts it, or why it cannot be moved.
pub open spec fn spec_move_to_monitor(source: WorkArea, destination: WorkArea, window_rect: Rect) -> Result<Rect, PlanError> {
    let s = source.rect;
    let d = destination.rect;
    match s.spec_check() {
        Err(e) => Err(e),
        Ok(()) => match d.spec_check() {
            Err(e) => Err(e),
            Ok(()) => {
                let c = clamp_into(window_rect, s);
                if !c.spec_valid() {
                    Err(PlanError::EmptyOrInvertedWorkArea)
                } else {
                    rect_result(
                        map_coord(c.left as int, s.left as int, s.spec_width(), d.left as int, d.spec_width()),
                        map_coord(c.top as int, s.top as int, s.spec_height(), d.top as int, d.spec_height()),
                        map_coord(c.right as int, s.left as int, s.spec_width(), d.left as int, d.spec_width()),
                        map_coord(c.bottom as int, s.top as int, s.spec_height(), d.top as int, d.spec_height()),
                    )
                }
            },
        },
    }
}

/// A coordinate inside the source span maps inside the destination span.
pub proof fn lemma_map_coord_bounds(value: int, src_start: int, src_extent: int, dst_start: int, dst_extent: int)
    requires
        src_extent > 0,
        dst_extent > 0,
        src_start <= value <= src_start + src_extent,
    ensures
        dst_start <= map_coord(value, src_start, src_extent, dst_start, dst_extent) <= dst_start
            + dst_extent,
        value == src_start ==> map_coord(value, src_start, src_extent, dst_start, dst_extent)
            == dst_start,
        value == src_start + src_extent ==> map_coord(value, src_start, src_extent, dst_start, dst_extent)
            == dst_start + dst_extent,
{
    let offset = value - src_start;
    let x = offset * dst_extent + src_extent / 2;
    assert(0 <= offset * dst_extent <= src_extent * dst_extent) by (nonlinear_arith)
        requires
            0 <= offset <= src_extent,
            dst_extent > 0,
    ;
    lemma_div_is_ordered(0, x, src_extent);
    assert(0int / src_extent == 0);
    lemma_fundamental_div_mod_converse_div(
        dst_extent * src_extent + src_extent / 2,
        src_extent,
        dst_extent,
        src_extent / 2,
    );
    assert(src_extent * dst_extent == dst_extent * src_extent) by (nonlinear_arith);
    lemma_div_is_ordered(x, dst_extent * src_extent + src_extent / 2, src_extent);
    if offset == 0 {
        assert(offset * dst_extent == 0) by (nonlinear_arith)
            requires
                offset == 0,
        ;
        assert(x == src_extent / 2);
        lemma_fundamental_div_mod_converse_div(x, src_extent, 0, src_extent / 2);
    }
}

/// Map one coordinate from a source span onto a destination span, by proportion.
fn map_span(value: i32, src_start: i32, src_extent: i32, dst_start: i32, dst_extent: i32) -> (m: i32)
    requires
        src_extent > 0,
        dst_extent > 0,
        src_start <= value <= src_start + src_extent,
        dst_start + dst_extent <= i32::MAX,
    ensures
        m == map_coord(value as int, src_start as int, src_extent as int, dst_start as int, dst_extent as int),
{
    proof {
        lemma_map_coord_bounds(value as int, src_start as int, src_extent as int, dst_start as int, dst_extent as int);
        assert(0 <= (value - src_start) * dst_extent <= src_extent * dst_extent) by (nonlinear_arith)
            requires
                0 <= value - src_start <= src_extent,
                dst_extent > 0,
        ;
        assert(src_extent * dst_extent <= 0x7fff_ffff * 0x7fff_ffff) by (nonlinear_arith)
            requires
                0 < src_extent <= 0x7fff_ffff,
                0 < dst_extent <= 0x7fff_ffff,
        ;
    }
    let offset = value as i64 - src_start as i64;
    let scaled = (offset * dst_extent as i64 + src_extent as i64 / 2) / src_extent as i64;
    (dst_start as i64 + scaled) as i32
}

/// Clamp `rect` into `bounds`, or `None` when the intersection is empty.
fn intersect(rect: Rect, bounds: Rect) -> (res: Option<Rect>)
    ensures
        res == (if clamp_into(rect, bounds).spec_valid() {
            Some(clamp_into(rect, bounds))
        } else {
            None
        }),
{
    let clamped = Rect {
        left: if rect.left > bounds.left { rect.left } else { bounds.left },
        top: if rect.top > bounds.top { rect.top } else { bounds.top },
        right: if rect.right < bounds.right { rect.right } else { bounds.right },
        bottom: if rect.bottom < bounds.bottom { rect.bottom } else { bounds.bottom },
    };
    if clamped.is_valid() {
        Some(clamped)
    } else {
        None
    }
}

/// Place `window` on `destination`, holding the same share of the work area it
/// held on `source`.
pub fn plan_move_to_monitor(source: &WorkArea, destination: &WorkArea, window: WindowId, window_rect: Rect) -> (res: PlanResult)
    ensures
        plan_matches(res, window, spec_move_to_monitor(*source, *destination, window_rect)),
{
    source.rect.validate()?;
    destination.rect.validate()?;
    let clamped = match intersect(window_rect, source.rect) {
        Some(c) => c,
        None => return Err(PlanError::EmptyOrInvertedWorkArea),
    };
    let s = source.rect;
    let d = destination.rect;
    let sw = s.width();
    let sh = s.height();
    let dw = d.width();
    let dh = d.height();
    let left = map_span(clamped.left, s.left, sw, d.left, dw);
    let right = map_span(clamped.right, s.left, sw, d.left, dw);
    let top = map_span(clamped.top, s.top, sh, d.top, dh);
    let bottom = map_span(clamped.bottom, s.top, sh, d.top, dh);
    match Rect::new(left, top, right, bottom) {
        Ok(r) => Ok(PlacementPlan::single(window, r)),
        Err(e) => Err(e),
    }
}

/// Whatever the source and destination, a window moved to another monitor
/// lands inside the destination work area.
pub proof fn lemma_move_lands_within_destination(source: WorkArea, destination: WorkArea, window_rect: Rect)
    ensures
        spec_move_to_monitor(source, destination, window_rect) is Ok ==> destination.rect.spec_contains(
            spec_move_to_monitor(source, destination, window_rect)->Ok_0,
        ),
{
    let s = source.rect;
    let d = destination.rect;
    if s.spec_valid() && d.spec_valid() {
        let c = clamp_into(window_rect, s);
        if c.spec_valid() {
            lemma_map_coord_bounds(c.left as int, s.left as int, s.spec_width(), d.left as int, d.spec_width());
            lemma_map_coord_bounds(c.right as int, s.left as int, s.spec_width(), d.left as int, d.spec_width());
            lemma_map_coord_bounds(c.top as int, s.top as int, s.spec_height(), d.top as int, d.spec_height());
            lemma_map_coord_bounds(c.bottom as int, s.top as int, s.spec_height(), d.top as int, d.spec_height());
        }
    }
}

/// A window covering the whole source work area, or more, fills exactly the
/// destination work area.
pub proof fn lemma_full_window_fills_destination(source: WorkArea, destination: WorkArea, window_rect: Rect)
    requires
        source.rect.spec_valid(),
        destination.rect.spec_valid(),
        window_rect.spec_contains(source.rect),
    ensures
        spec_move_to_monitor(source, destination, window_rect) == Ok::<Rect, PlanError>(
            destination.rect,
        ),
{
    let s = source.rect;
    let d = destination.rect;
    lemma_map_coord_bounds(s.left as int, s.left as int, s.spec_width(), d.left as int, d.spec_width());
    lemma_map_coord_bounds(s.right as int, s.left as int, s.spec_width(), d.left as int, d.spec_width());
    lemma_map_coord_bounds(s.top as int, s.top as int, s.spec_height(), d.top as int, d.spec_height());
    lemma_map_coord_bounds(s.bottom as int, s.top as int, s.spec_height(), d.top as int, d.spec_height());
    assert(clamp_into(window_rect, s) == s);
}

/// A window lying inside the source work area keeps its proportional
/// position and size on the destination: each of its four edges is mapped
/// on its own, by the share of the source extent it sits at, rounded to
/// nearest. A bottom-half window stays a bottom-half window.
pub proof fn lemma_move_maps_every_edge(source: WorkArea, destination: WorkArea, w: Rect)
    requires
        source.rect.spec_valid(),
        destination.rect.spec_valid(),
        w.spec_valid(),
        source.rect.spec_contains(w),
    ensures
        ({
            let s = source.rect;
            let d = destination.rect;
            let sw = s.right - s.left;
            let sh = s.bottom - s.top;
            let dw = d.right - d.left;
            let dh = d.bottom - d.top;
            spec_move_to_monitor(source, destination, w) == rect_result(
                d.left + ((w.left - s.left) * dw + sw / 2) / sw,
                d.top + ((w.top - s.top) * dh + sh / 2) / sh,
                d.left + ((w.right - s.left) * dw + sw / 2) / sw,
                d.top + ((w.bottom - s.top) * dh + sh / 2) / sh,
            )
        }),
{
    assert(clamp_into(w, source.rect) == w);
}

/// The bottom half of the source lands as the bottom half of the
/// destination: its bottom edge on the destination's bottom edge and its
/// top edge at the destination's mapped midpoint.
pub proof fn lemma_bottom_half_stays_bottom_half(source: WorkArea, destination: WorkArea, w: Rect)
    requires
        source.rect.spec_valid(),
        destination.rect.spec_valid(),
        w.spec_valid(),
        w.left == source.rect.left,
        w.right == source.rect.right,
        w.bottom == source.rect.bottom,
        source.rect.top <= w.top,
        spec_move_to_monitor(source, destination, w) is Ok,
    ensures
        ({
            let r = spec_move_to_monitor(source, destination, w)->Ok_0;
            let s = source.rect;
            let d = destination.rect;
            &&& r.bottom == d.bottom
            &&& r.left == d.left
            &&& r.right == d.right
            &&& r.top == d.top + ((w.top - s.top) * (d.bottom - d.top) + (s.bottom - s.top) / 2) / (
            s.bottom - s.top)
        }),
{
    let s = source.rect;
    let d = destination.rect;
    lemma_move_maps_every_edge(source, destination, w);
    lemma_map_coord_bounds(s.left as int, s.left as int, s.spec_width(), d.left as int, d.spec_width());
    lemma_map_coord_bounds(s.right as int, s.left as int, s.spec_width(), d.left as int, d.spec_width());
    lemma_map_coord_bounds(s.bottom as int, s.top as int, s.spec_height(), d.top as int, d.spec_height());
}

/// Repeatedly advancing from any monitor returns to it after exactly `count`
/// steps: the next-monitor cycle visits each monitor and closes.
pub proof fn lemma_next_monitor_cycle_closes(count: usize, from: usize)
    requires
        2 <= count,
        from < count,
    ensures
        next_monitor_spec(count as int, from as int) < count,
        next_monitor_spec(count as int, from as int) != from,
        iterate_next(count as int, from as int, count as nat) == from,
    decreases count,
{
    lemma_iterate_next(count as int, from as int, count as nat);
    if from + 1 < count {
        vstd::arithmetic::div_mod::lemma_small_mod((from + 1) as nat, count as nat);
    } else {
        vstd::arithmetic::div_mod::lemma_mod_self_0(count as int);
    }
    assert((from + count) % (count as int) == from) by {
        vstd::arithmetic::div_mod::lemma_fundamental_div_mod_converse(
            from + count, count as int, 1, from as int,
        );
    }
}

/// The index after `from` among `count` monitors.
pub open spec fn next_monitor_spec(count: int, from: int) -> int {
    (from + 1) % count
}

/// `from` advanced `steps` times.
pub open spec fn iterate_next(count: int, from: int, steps: nat) -> int
    decreases steps,
{
    if steps == 0 {
        from
    } else {
        next_monitor_spec(count, iterate_next(count, from, (steps - 1) as nat))
    }
}

proof fn lemma_iterate_next(count: int, from: int, steps: nat)
    requires
        2 <= count,
        0 <= from < count,
    ensures
        iterate_next(count, from, steps) == (from + steps) % count,
    decreases steps,
{
    if steps == 0 {
        vstd::arithmetic::div_mod::lemma_small_mod(from as nat, count as nat);
    } else {
        lemma_iterate_next(count, from, (steps - 1) as nat);
        let prev = (from + steps - 1) % count;
        vstd::arithmetic::div_mod::lemma_add_mod_noop(from + steps - 1, 1, count);
        vstd::arithmetic::div_mod::lemma_small_mod(1nat, count as nat);
        vstd::arithmetic::div_mod::lemma_mod_bound(from + steps - 1, count);
        assert((prev + 1) % count == (from + steps) % count) by {
            vstd::arithmetic::div_mod::lemma_add_mod_noop(from + steps - 1, 1, count);
            vstd::arithmetic::div_mod::lemma_mod_twice(from + steps, count);
            vstd::arithmetic::div_mod::lemma_mod_add_multiples_vanish(0, count);
        }
    }
}

} // verus!
