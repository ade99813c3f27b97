//! The same-application visual switcher: card layout, keyboard navigation
//! across cards and pages, and the card order.

pub mod layout;
pub mod overlay;
pub mod selection;

use vstd::prelude::*;

use crate::switcher::layout::{compute_grid, grid_spec, Rect, MARGIN};
use crate::switcher::selection::{page_of, select_down, select_next, select_prev, select_up};
use crate::command::Shortcut;
use crate::cycling::{cycle_order, cycle_order_spec, windows_of, ActiveContext, Candidate, WindowId};

verus! {

/// The card order for candidates: exactly the blind cycle order, so the
/// switcher's first card is the window a blind cycle would activate.
pub fn card_order_for_candidates(candidates: &[Candidate], active: &ActiveContext) -> (order: Vec<WindowId>)
    ensures
        order@ == cycle_order_spec(windows_of(candidates@), active.foreground),
{
    cycle_order(candidates, active)
}

/// The phases of the visual switcher: closed; armed by a held chord until a
/// deadline; or open on its candidates with a selection and a page.
#[derive(Debug, Clone, PartialEq, Eq)]
pub enum SwitcherState {
    Inactive,
    Armed { chord: Shortcut, deadline_ms: u64 },
    Active { candidates: Vec<WindowId>, selected: usize, page: usize, origin_foreground: WindowId },
}

/// The visual switcher's state on the worker: the window it was opened
/// from, its candidates in card order, the selection, the grid it is laid
/// out in, and when it opened. Drawing the overlay is the caller's part.
pub struct SwitcherController {
    origin_foreground: WindowId,
    candidates: Vec<WindowId>,
    selected_index: usize,
    cols: usize,
    per_page: usize,
    open_time_ms: u64,
    visible: bool,
}

impl SwitcherController {
    pub closed spec fn candidates_spec(&self) -> Seq<WindowId> {
        self.candidates@
    }

    pub closed spec fn selected_spec(&self) -> int {
        self.selected_index as int
    }

    pub closed spec fn cols_spec(&self) -> int {
        self.cols as int
    }

    pub closed spec fn per_page_spec(&self) -> int {
        self.per_page as int
    }

    pub closed spec fn origin_spec(&self) -> WindowId {
        self.origin_foreground
    }

    pub closed spec fn open_time_spec(&self) -> u64 {
        self.open_time_ms
    }

    pub closed spec fn visible_spec(&self) -> bool {
        self.visible
    }

    /// A closed switcher with nothing to show.
    pub fn new() -> (c: Self)
        ensures
            !c.visible_spec(),
            c.candidates_spec().len() == 0,
            c.selected_spec() == 0,
            c.cols_spec() == 0,
            c.per_page_spec() == 0,
            c.open_time_spec() == 0,
            c.origin_spec() == WindowId(0),
    {
        SwitcherController {
            origin_foreground: WindowId(0),
            candidates: Vec::new(),
            selected_index: 0,
            cols: 0,
            per_page: 0,
            open_time_ms: 0,
            visible: false,
        }
    }

    /// Whether the overlay is showing.
    pub fn is_open(&self) -> (b: bool)
        ensures
            b == self.visible_spec(),
    {
        self.visible
    }

    /// When the overlay opened, in milliseconds of the system tick; 0 when
    /// closed.
    pub fn open_time_ms(&self) -> (t: u64)
        ensures
            t == self.open_time_spec(),
    {
        self.open_time_ms
    }

    /// The window that was in front when the switcher opened.
    pub fn origin_window(&self) -> (w: WindowId)
        ensures
            w == self.origin_spec(),
    {
        self.origin_foreground
    }

    /// Open over `work_area` on `candidates` (in card order) with
    /// `selected_index` chosen, at tick `now_ms`. The columns and page size
    /// are those of the card grid for that work area.
    pub fn open(&mut self, origin: WindowId, work_area: Rect, candidates: Vec<WindowId>, selected_index: usize, now_ms: u64)
        requires
            candidates@.len() > 0 ==> work_area.width >= i32::MIN + 2 * MARGIN,
        ensures
            final(self).visible_spec(),
            final(self).origin_spec() == origin,
            final(self).candidates_spec() == candidates@,
            final(self).selected_spec() == selected_index,
            final(self).cols_spec() == grid_spec(work_area.width as int, candidates@.len() as int).0,
            final(self).per_page_spec() == grid_spec(work_area.width as int, candidates@.len() as int).2,
            final(self).open_time_spec() == now_ms,
    {
        let (cols, _rows, per_page) = compute_grid(work_area.width, candidates.len());
        self.origin_foreground = origin;
        self.candidates = candidates;
        self.selected_index = selected_index;
        self.cols = cols;
        self.per_page = per_page;
        self.open_time_ms = now_ms;
        self.visible = true;
    }

    /// Move to the next candidate, wrapping past the last.
    pub fn next(&mut self)
        requires
            old(self).selected_spec() < usize::MAX,
        ensures
            final(self).candidates_spec() == old(self).candidates_spec(),
            final(self).cols_spec() == old(self).cols_spec(),
            final(self).per_page_spec() == old(self).per_page_spec(),
            final(self).origin_spec() == old(self).origin_spec(),
            final(self).visible_spec() == old(self).visible_spec(),
            final(self).open_time_spec() == old(self).open_time_spec(),
            old(self).candidates_spec().len() == 0 ==> final(self).selected_spec() == old(self).selected_spec(),
            old(self).candidates_spec().len() > 0 ==> final(self).selected_spec() == (old(self).selected_spec() + 1) % old(self).candidates_spec().len() as int,
    {
        if self.candidates.len() == 0 {
            return;
        }
        let (idx, _) = select_next(self.candidates.len(), self.selected_index, self.per_page);
        self.selected_index = idx;
    }

    /// Move to the previous candidate, wrapping before the first.
    pub fn prev(&mut self)
        ensures
            final(self).candidates_spec() == old(self).candidates_spec(),
            final(self).cols_spec() == old(self).cols_spec(),
            final(self).per_page_spec() == old(self).per_page_spec(),
            final(self).origin_spec() == old(self).origin_spec(),
            final(self).visible_spec() == old(self).visible_spec(),
            final(self).open_time_spec() == old(self).open_time_spec(),
            old(self).candidates_spec().len() == 0 ==> final(self).selected_spec() == old(self).selected_spec(),
            old(self).candidates_spec().len() > 0 ==> final(self).selected_spec() == if old(self).selected_spec() == 0 {
                old(self).candidates_spec().len() - 1
            } else {
                old(self).selected_spec() - 1
            },
    {
        if self.candidates.len() == 0 {
            return;
        }
        let (idx, _) = select_prev(self.candidates.len(), self.selected_index, self.per_page);
        self.selected_index = idx;
    }

    /// Move up one row; on the first row the selection stays.
    pub fn up(&mut self)
        ensures
            final(self).candidates_spec() == old(self).candidates_spec(),
            final(self).cols_spec() == old(self).cols_spec(),
            final(self).per_page_spec() == old(self).per_page_spec(),
            final(self).origin_spec() == old(self).origin_spec(),
            final(self).visible_spec() == old(self).visible_spec(),
            final(self).open_time_spec() == old(self).open_time_spec(),
            final(self).selected_spec() == if old(self).candidates_spec().len() > 0 && old(self).cols_spec() > 0
                && old(self).selected_spec() >= old(self).cols_spec() {
                old(self).selected_spec() - old(self).cols_spec()
            } else {
                old(self).selected_spec()
            },
    {
        if self.candidates.len() == 0 {
            return;
        }
        let (idx, _) = select_up(self.candidates.len(), self.selected_index, self.cols, self.per_page);
        self.selected_index = idx;
    }

    /// Move down one row; where no candidate is below, the selection stays.
    pub fn down(&mut self)
        requires
            old(self).selected_spec() + old(self).cols_spec() <= usize::MAX,
        ensures
            final(self).candidates_spec() == old(self).candidates_spec(),
            final(self).cols_spec() == old(self).cols_spec(),
            final(self).per_page_spec() == old(self).per_page_spec(),
            final(self).origin_spec() == old(self).origin_spec(),
            final(self).visible_spec() == old(self).visible_spec(),
            final(self).open_time_spec() == old(self).open_time_spec(),
            final(self).selected_spec() == if old(self).candidates_spec().len() > 0 && old(self).cols_spec() > 0
                && old(self).selected_spec() + old(self).cols_spec() < old(self).candidates_spec().len() {
                old(self).selected_spec() + old(self).cols_spec()
            } else {
                old(self).selected_spec()
            },
    {
        if self.candidates.len() == 0 {
            return;
        }
        let (idx, _) = select_down(self.candidates.len(), self.selected_index, self.cols, self.per_page);
        self.selected_index = idx;
    }

    /// The page showing the selection.
    pub fn page(&self) -> (p: usize)
        ensures
            p == page_of(self.selected_spec(), self.per_page_spec()),
    {
        if self.per_page == 0 {
            0
        } else {
            self.selected_index / self.per_page
        }
    }

    /// The selected window; `None` when the selection is on no candidate.
    pub fn selected_window(&self) -> (w: Option<WindowId>)
        ensures
            self.selected_spec() < self.candidates_spec().len() ==> w == Some(self.candidates_spec()[self.selected_spec()]),
            self.selected_spec() >= self.candidates_spec().len() ==> w is None,
    {
        if self.selected_index < self.candidates.len() {
            Some(self.candidates[self.selected_index])
        } else {
            None
        }
    }

    /// The candidates starting from the selection and wrapping around, for
    /// falling back to the next target when activation fails.
    pub fn candidates_from_selection(&self) -> (r: Vec<WindowId>)
        requires
            self.candidates_spec().len() == 0 || self.selected_spec() <= self.candidates_spec().len(),
        ensures
            self.candidates_spec().len() == 0 ==> r@.len() == 0,
            self.candidates_spec().len() > 0 ==> r@ == self.candidates_spec().subrange(self.selected_spec(), self.candidates_spec().len() as int)
                + self.candidates_spec().subrange(0, self.selected_spec()),
    {
        let n = self.candidates.len();
        if n == 0 {
            return Vec::new();
        }
        let s = self.selected_index;
        let mut res: Vec<WindowId> = Vec::new();
        let mut i = s;
        while i < n
            invariant
                s <= n == self.candidates@.len(),
                s <= i <= n,
                res@ == self.candidates@.subrange(s as int, i as int),
            decreases n - i,
        {
            res.push(self.candidates[i]);
            assert(self.candidates@.subrange(s as int, i + 1) =~= self.candidates@.subrange(s as int, i as int).push(self.candidates@[i as int]));
            i = i + 1;
        }
        let mut j: usize = 0;
        while j < s
            invariant
                s <= n == self.candidates@.len(),
                j <= s,
                res@ == self.candidates@.subrange(s as int, n as int) + self.candidates@.subrange(0, j as int),
            decreases s - j,
        {
            res.push(self.candidates[j]);
            assert(self.candidates@.subrange(0, j + 1) =~= self.candidates@.subrange(0, j as int).push(self.candidates@[j as int]));
            assert(res@ =~= self.candidates@.subrange(s as int, n as int) + self.candidates@.subrange(0, j + 1));
            j = j + 1;
        }
        res
    }

    /// Close the switcher: hidden, no candidates, selection back at the
    /// start, no open time.
    pub fn dismiss(&mut self)
        ensures
            !final(self).visible_spec(),
            final(self).candidates_spec().len() == 0,
            final(self).selected_spec() == 0,
            final(self).open_time_spec() == 0,
            final(self).origin_spec() == old(self).origin_spec(),
            final(self).cols_spec() == old(self).cols_spec(),
            final(self).per_page_spec() == old(self).per_page_spec(),
    {
        self.visible = false;
        self.candidates = Vec::new();
        self.selected_index = 0;
        self.open_time_ms = 0;
    }
}

/// Falling back from the selection offers every candidate exactly once,
/// starting with the selected one.
pub proof fn lemma_fallback_order_is_a_rotation(cands: Seq<WindowId>, s: int)
    requires
        0 <= s < cands.len(),
    ensures
        ({
            let r = cands.subrange(s, cands.len() as int) + cands.subrange(0, s);
            &&& r.len() == cands.len()
            &&& r[0] == cands[s]
            &&& forall|i: int| 0 <= i < cands.len() ==> #[trigger] r[i] == cands[(i + s) % (cands.len() as int)]
        }),
{
    let n = cands.len() as int;
    let r = cands.subrange(s, n) + cands.subrange(0, s);
    assert forall|i: int| 0 <= i < n implies #[trigger] r[i] == cands[(i + s) % n] by {
        if i + s < n {
            vstd::arithmetic::div_mod::lemma_small_mod((i + s) as nat, n as nat);
        } else {
            vstd::arithmetic::div_mod::lemma_mod_sub_multiples_vanish(i + s, n);
            vstd::arithmetic::div_mod::lemma_small_mod((i + s - n) as nat, n as nat);
        }
    }
}

} // verus!
