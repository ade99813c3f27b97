//! Attached monitors as the arrangement planners need them: work area, DPI
//! and full bounds, in the order the system reports them.

use vstd::prelude::*;

use crate::arrangement::apply::{rect_from_win32, WinRect};
use crate::arrangement::{rect_result, Rect, WorkArea};

verus! {

/// One attached monitor: its work area (with DPI) and its full bounds.
#[derive(Debug, Clone, Copy, PartialEq, Eq)]
pub struct MonitorGeometry {
    pub work: WorkArea,
    pub bounds: Rect,
}

/// A monitor as read from the system, or `None` when its work area or bounds
/// is not a valid rectangle: one unreadable display does not stop the others.
pub fn monitor_geometry(work: WinRect, bounds: WinRect, dpi: u32) -> (m: Option<MonitorGeometry>)
    ensures
        m is Some <==> (rect_result(work.left as int, work.top as int, work.right as int, work.bottom as int) is Ok
            && rect_result(bounds.left as int, bounds.top as int, bounds.right as int, bounds.bottom as int) is Ok),
        m matches Some(g) ==> g.work.dpi == dpi
            && Ok::<Rect, crate::arrangement::PlanError>(g.work.rect) == rect_result(work.left as int, work.top as int, work.right as int, work.bottom as int)
            && Ok::<Rect, crate::arrangement::PlanError>(g.bounds) == rect_result(bounds.left as int, bounds.top as int, bounds.right as int, bounds.bottom as int),
{
    let work_rect = match rect_from_win32(work) {
        Ok(r) => r,
        Err(_) => return None,
    };
    let bounds_rect = match rect_from_win32(bounds) {
        Ok(r) => r,
        Err(_) => return None,
    };
    match WorkArea::new(work_rect, dpi) {
        Ok(w) => Some(MonitorGeometry { work: w, bounds: bounds_rect }),
        Err(_) => None,
    }
}

/// Index of the monitor whose work area is `work`: the first such entry.
pub fn index_of_work_area(monitors: &[MonitorGeometry], work: Rect) -> (r: Option<usize>)
    ensures
        r matches Some(i) ==> i < monitors@.len() && monitors@[i as int].work.rect == work && forall|j: int|
            0 <= j < i ==> #[trigger] monitors@[j].work.rect != work,
        r is None ==> forall|j: int| 0 <= j < monitors@.len() ==> #[trigger] monitors@[j].work.rect != work,
{
    let n = monitors.len();
    let mut i: usize = 0;
    while i < n
        invariant
            n == monitors@.len(),
            i <= n,
            forall|j: int| 0 <= j < i ==> #[trigger] monitors@[j].work.rect != work,
        decreases n - i,
    {
        let r = monitors[i].work.rect;
        if r.left == work.left && r.top == work.top && r.right == work.right && r.bottom == work.bottom {
            return Some(i);
        }
        i = i + 1;
    }
    None
}

} // verus!
