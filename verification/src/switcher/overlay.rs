//! The overlay's bookkeeping apart from drawing: which page a selection
//! opens on, when moving the selection turns the page, where each card's
//! live preview is projected, and the set of preview registrations that a
//! dismissal must release.

use vstd::prelude::*;

use crate::arrangement::apply::WinRect;
use crate::cycling::WindowId;
use crate::switcher::layout::{compute_grid, grid_spec, SwitcherLayout, MARGIN};
use crate::switcher::selection::page_of;

verus! {

/// Cards per page when the overlay opens on `candidate_count` candidates: the
/// grid's page size, and at least one.
pub open spec fn opening_per_page(width: int, count: int) -> int {
    if count == 0 {
        1
    } else if grid_spec(width, count).2 >= 1 {
        grid_spec(width, count).2
    } else {
        1
    }
}

/// The page the overlay opens on: the one holding the selected candidate.
pub fn opening_page(work_area_width: i32, candidate_count: usize, selected_index: usize) -> (p: usize)
    requires
        candidate_count > 0 ==> work_area_width >= i32::MIN + 2 * MARGIN,
    ensures
        p == selected_index as int / opening_per_page(work_area_width as int, candidate_count as int),
{
    let per_page = if candidate_count == 0 {
        1
    } else {
        let (_, _, p) = compute_grid(work_area_width, candidate_count);
        if p >= 1 {
            p
        } else {
            1
        }
    };
    selected_index / per_page
}

/// Whether moving the selection from `old_index` to `new_index` shows a
/// different page, so the cards and their previews must be laid out again.
pub fn selection_turns_page(per_page: usize, old_index: usize, new_index: usize) -> (b: bool)
    ensures
        b == (page_of(old_index as int, per_page as int) != page_of(new_index as int, per_page as int)),
{
    if per_page == 0 {
        false
    } else {
        old_index / per_page != new_index / per_page
    }
}

/// Where one live preview goes: the source window and the destination in
/// overlay-client coordinates.
#[derive(Debug, Clone, Copy, PartialEq, Eq)]
pub struct ThumbnailTarget {
    pub source: WindowId,
    pub destination: WinRect,
}

/// The first candidate shown on the layout's current page.
pub open spec fn page_start(l: SwitcherLayout) -> int {
    l.current_page * (l.cols * l.rows)
}

/// The previews of the current page: card `k` shows candidate
/// `page_start + k`, its preview rectangle moved into the overlay's own
/// coordinates; cards past the last candidate show nothing.
pub open spec fn thumbnail_targets_spec(l: SwitcherLayout, candidates: Seq<WindowId>) -> Seq<ThumbnailTarget> {
    let start = page_start(l);
    let shown = if start >= candidates.len() {
        0
    } else if candidates.len() - start < l.cards@.len() {
        candidates.len() - start
    } else {
        l.cards@.len() as int
    };
    Seq::new(
        shown as nat,
        |k: int|
            {
                let p = l.cards@[k].preview_rect;
                let left = p.x - l.overlay_rect.x;
                let top = p.y - l.overlay_rect.y;
                ThumbnailTarget {
                    source: candidates[start + k],
                    destination: WinRect {
                        left: left as i32,
                        top: top as i32,
                        right: (left + p.width) as i32,
                        bottom: (top + p.height) as i32,
                    },
                }
            },
    )
}

/// The card geometry can be moved into overlay coordinates without overflow.
pub open spec fn cards_relocatable(l: SwitcherLayout) -> bool {
    forall|k: int|
        0 <= k < l.cards@.len() ==> {
            let p = #[trigger] l.cards@[k].preview_rect;
            let left = p.x - l.overlay_rect.x;
            let top = p.y - l.overlay_rect.y;
            &&& i32::MIN <= left <= i32::MAX
            &&& i32::MIN <= top <= i32::MAX
            &&& i32::MIN <= left + p.width <= i32::MAX
            &&& i32::MIN <= top + p.height <= i32::MAX
        }
}

/// The previews to register for the layout's current page.
pub fn thumbnail_targets(layout: &SwitcherLayout, candidates: &[WindowId]) -> (t: Vec<ThumbnailTarget>)
    requires
        layout.cols * layout.rows <= usize::MAX,
        layout.cols * layout.rows * layout.current_page + layout.cards@.len() <= usize::MAX,
        cards_relocatable(*layout),
    ensures
        t@ == thumbnail_targets_spec(*layout, candidates@),
{
    assert(layout.cols * layout.rows * layout.current_page == layout.current_page * (layout.cols
        * layout.rows)) by (nonlinear_arith);
    let per_page = layout.cols * layout.rows;
    let start = layout.current_page * per_page;
    let ghost spec = thumbnail_targets_spec(*layout, candidates@);
    let mut out: Vec<ThumbnailTarget> = Vec::new();
    let n = layout.cards.len();
    let mut k: usize = 0;
    while k < n
        invariant
            n == layout.cards@.len(),
            start == page_start(*layout),
            start + n <= usize::MAX,
            cards_relocatable(*layout),
            spec == thumbnail_targets_spec(*layout, candidates@),
            k <= n,
            k <= spec.len(),
            out@ == spec.take(k as int),
        ensures
            out@ == spec,
        decreases n - k,
    {
        let idx = start + k;
        if idx >= candidates.len() {
            assert(spec.len() == k);
            assert(out@ =~= spec);
            break;
        }
        let card = &layout.cards[k];
        let p = card.preview_rect;
        assert(layout.cards@[k as int].preview_rect == p);
        let left = p.x - layout.overlay_rect.x;
        let top = p.y - layout.overlay_rect.y;
        let target = ThumbnailTarget {
            source: candidates[idx],
            destination: WinRect { left, top, right: left + p.width, bottom: top + p.height },
        };
        out.push(target);
        proof {
            assert(spec[k as int] == target);
            assert(out@ =~= spec.take(k + 1));
        }
        k = k + 1;
    }
    proof {
        if k == n {
            assert(spec.len() == n);
            assert(out@ =~= spec);
        }
    }
    out
}

/// The preview registrations currently shown; each must be released exactly
/// once when the overlay is dismissed or its page is laid out again.
pub struct ThumbnailSet {
    handles: Vec<isize>,
}

impl View for ThumbnailSet {
    type V = Seq<isize>;

    closed spec fn view(&self) -> Seq<isize> {
        self.handles@
    }
}

impl ThumbnailSet {
    /// No registrations.
    pub fn new() -> (s: Self)
        ensures
            s@ == Seq::<isize>::empty(),
    {
        ThumbnailSet { handles: Vec::new() }
    }

    /// Record a registration; the null handle stands for none and is not
    /// kept.
    pub fn add(&mut self, handle: isize)
        ensures
            handle != 0 ==> final(self)@ == old(self)@.push(handle),
            handle == 0 ==> final(self)@ == old(self)@,
    {
        if handle != 0 {
            self.handles.push(handle);
        }
    }

    /// Number of live registrations.
    pub fn len(&self) -> (n: usize)
        ensures
            n == self@.len(),
    {
        self.handles.len()
    }

    /// Hand back every registration for release, leaving none: each handle
    /// recorded since the last release comes back exactly once, in the order
    /// it was recorded.
    pub fn release_all(&mut self) -> (released: Vec<isize>)
        ensures
            released@ == old(self)@,
            final(self)@ == Seq::<isize>::empty(),
    {
        let mut taken: Vec<isize> = Vec::new();
        std::mem::swap(&mut taken, &mut self.handles);
        taken
    }
}

/// Recording the registrations `hs` into an empty set holds exactly the
/// non-null handles of `hs`, in order, so the release that follows (which
/// hands back exactly what is held) releases each real registration once.
pub proof fn lemma_release_returns_what_was_recorded(hs: Seq<isize>)
    ensures
        recorded(Seq::empty(), hs) == hs.filter(|h: isize| h != 0),
{
    lemma_recorded_filters(hs);
}

/// The registrations held after recording `hs` on top of `held`.
pub open spec fn recorded(held: Seq<isize>, hs: Seq<isize>) -> Seq<isize>
    decreases hs.len(),
{
    if hs.len() == 0 {
        held
    } else {
        let rest = recorded(held, hs.drop_last());
        if hs.last() != 0 {
            rest.push(hs.last())
        } else {
            rest
        }
    }
}

proof fn lemma_recorded_filters(hs: Seq<isize>)
    ensures
        recorded(Seq::empty(), hs) == hs.filter(|h: isize| h != 0),
    decreases hs.len(),
{
    reveal(Seq::filter);
    if hs.len() > 0 {
        lemma_recorded_filters(hs.drop_last());
    }
}

} // verus!
