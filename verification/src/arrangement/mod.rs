//! Pure arrangement geometry. Rectangles use signed physical-pixel coordinates
//! with half-open edges: `left <= x < right`, `top <= y < bottom`.
//! Every arithmetic step is checked; a geometry that cannot be represented
//! yields a [`PlanError`] rather than a wrapped placement.

use vstd::prelude::*;

use crate::cycling::WindowId;

pub mod apply;
pub mod monitor;
pub mod snap;
pub mod stack;
pub mod thirds;

verus! {

/// Half-open rectangle in signed physical pixels.
#[derive(Debug, Clone, Copy, PartialEq, Eq)]
pub struct Rect {
    pub left: i32,
    pub top: i32,
    pub right: i32,
    pub bottom: i32,
}

/// Deterministic planning failure. No partial placement ever accompanies one.
#[derive(Debug, Clone, Copy, PartialEq, Eq)]
pub enum PlanError {
    EmptyOrInvertedWorkArea,
    UnrepresentableGeometry,
    InvalidWidthPercent(u32),
}

pub open spec fn fits_i32(x: int) -> bool {
    i32::MIN <= x <= i32::MAX
}

/// What validating the extents `(left, top, right, bottom)` decides.
pub open spec fn check_extents(left: int, top: int, right: int, bottom: int) -> Result<(), PlanError> {
    if !fits_i32(right - left) || !fits_i32(bottom - top) {
        Err(PlanError::UnrepresentableGeometry)
    } else if right - left <= 0 || bottom - top <= 0 {
        Err(PlanError::EmptyOrInvertedWorkArea)
    } else {
        Ok(())
    }
}

impl Rect {
    pub open spec fn spec_check(self) -> Result<(), PlanError> {
        check_extents(self.left as int, self.top as int, self.right as int, self.bottom as int)
    }

    pub open spec fn spec_valid(self) -> bool {
        self.left < self.right && self.top < self.bottom && fits_i32(self.right - self.left)
            && fits_i32(self.bottom - self.top)
    }

    pub open spec fn spec_width(self) -> int {
        self.right - self.left
    }

    pub open spec fn spec_height(self) -> int {
        self.bottom - self.top
    }

    /// `self` fully encloses `other`.
    pub open spec fn spec_contains(self, other: Rect) -> bool {
        other.left >= self.left && other.top >= self.top && other.right <= self.right
            && other.bottom <= self.bottom
    }

    /// Construct a rectangle, rejecting empty or inverted geometry.
    pub fn new(left: i32, top: i32, right: i32, bottom: i32) -> (res: Result<Rect, PlanError>)
        ensures
            match check_extents(left as int, top as int, right as int, bottom as int) {
                Ok(()) => res == Ok::<Rect, PlanError>(Rect { left, top, right, bottom }),
                Err(e) => res == Err::<Rect, PlanError>(e),
            },
    {
        let rect = Rect { left, top, right, bottom };
        match rect.validate() {
            Ok(()) => Ok(rect),
            Err(e) => Err(e),
        }
    }

    pub fn checked_width(&self) -> (w: Option<i32>)
        ensures
            fits_i32(self.spec_width()) ==> w == Some(self.spec_width() as i32),
            !fits_i32(self.spec_width()) ==> w is None,
    {
        self.right.checked_sub(self.left)
    }

    pub fn checked_height(&self) -> (h: Option<i32>)
        ensures
            fits_i32(self.spec_height()) ==> h == Some(self.spec_height() as i32),
            !fits_i32(self.spec_height()) ==> h is None,
    {
        self.bottom.checked_sub(self.top)
    }

    /// Width, or 0 when it does not fit an `i32`.
    pub fn width(&self) -> (w: i32)
        ensures
            w == (if fits_i32(self.spec_width()) { self.spec_width() } else { 0 }),
    {
        match self.checked_width() {
            Some(w) => w,
            None => 0,
        }
    }

    /// Height, or 0 when it does not fit an `i32`.
    pub fn height(&self) -> (h: i32)
        ensures
            h == (if fits_i32(self.spec_height()) { self.spec_height() } else { 0 }),
    {
        match self.checked_height() {
            Some(h) => h,
            None => 0,
        }
    }

    /// Convenience predicate: `validate` succeeds.
    pub fn is_valid(&self) -> (b: bool)
        ensures
            b == (self.spec_check() is Ok),
            b == self.spec_valid(),
    {
        match self.validate() {
            Ok(()) => true,
            Err(_) => false,
        }
    }

    /// Validate extents, distinguishing an unrepresentable rectangle from a
    /// merely empty or inverted one.
    pub fn validate(&self) -> (res: Result<(), PlanError>)
        ensures
            res == self.spec_check(),
            (res is Ok) == self.spec_valid(),
    {
        let width = match self.checked_width() {
            Some(w) => w,
            None => return Err(PlanError::UnrepresentableGeometry),
        };
        let height = match self.checked_height() {
            Some(h) => h,
            None => return Err(PlanError::UnrepresentableGeometry),
        };
        if width <= 0 || height <= 0 {
            return Err(PlanError::EmptyOrInvertedWorkArea);
        }
        Ok(())
    }

    /// True when `self` fully encloses `other`.
    pub fn contains(&self, other: &Rect) -> (b: bool)
        ensures
            b == self.spec_contains(*other),
    {
        other.left >= self.left && other.top >= self.top && other.right <= self.right
            && other.bottom <= self.bottom
    }
}

} // verus!

verus! {

/// Monitor work area plus its DPI. `rect` is the usable area; `dpi` is carried
/// for traceability only and never rescales a coordinate.
#[derive(Debug, Clone, Copy, PartialEq, Eq)]
pub struct WorkArea {
    pub rect: Rect,
    pub dpi: u32,
}

impl WorkArea {
    pub fn new(rect: Rect, dpi: u32) -> (res: Result<WorkArea, PlanError>)
        ensures
            match rect.spec_check() {
                Ok(()) => res == Ok::<WorkArea, PlanError>(WorkArea { rect, dpi }),
                Err(e) => res == Err::<WorkArea, PlanError>(e),
            },
    {
        match rect.validate() {
            Ok(()) => Ok(WorkArea { rect, dpi }),
            Err(e) => Err(e),
        }
    }
}

/// One window and where it should go.
#[derive(Debug, Clone, Copy, PartialEq, Eq)]
pub struct Placement {
    pub window: WindowId,
    pub rect: Rect,
}

/// A complete plan. An empty plan is a successful no-op, not a failure.
#[derive(Debug, Clone, PartialEq, Eq, Default)]
pub struct PlacementPlan {
    pub placements: Vec<Placement>,
}

pub type PlanResult = Result<PlacementPlan, PlanError>;

/// Applies a plan to the real desktop.
pub trait WindowMover {
    /// Return a maximized window to its normal state before it is moved.
    fn restore(&mut self, window: WindowId);

    /// Move one window; `false` when the target cannot be moved.
    fn apply(&mut self, placement: &Placement) -> bool;
}

/// Maximum windows an overlapping stack may arrange.
pub const STACK_MAX_WINDOWS: usize = 3;

/// Every placement of `placements` lies inside `work`.
pub open spec fn all_within(placements: Seq<Placement>, work: Rect) -> bool {
    forall|i: int| 0 <= i < placements.len() ==> #[trigger] work.spec_contains(placements[i].rect)
}

/// A rectangle, or the error that validating its extents reports.
pub open spec fn rect_result(left: int, top: int, right: int, bottom: int) -> Result<Rect, PlanError> {
    match check_extents(left, top, right, bottom) {
        Ok(()) => Ok(
            Rect { left: left as i32, top: top as i32, right: right as i32, bottom: bottom as i32 },
        ),
        Err(e) => Err(e),
    }
}

/// `res` is the one-placement plan for `expected`, or carries its error.
pub open spec fn plan_matches(res: PlanResult, window: WindowId, expected: Result<Rect, PlanError>) -> bool {
    match expected {
        Ok(r) => res is Ok && res->Ok_0.placements@ == seq![Placement { window, rect: r }],
        Err(e) => res == Err::<PlacementPlan, PlanError>(e),
    }
}

impl PlacementPlan {
    pub fn empty() -> (p: Self)
        ensures
            p.placements@ == Seq::<Placement>::empty(),
    {
        PlacementPlan { placements: Vec::new() }
    }

    pub fn single(window: WindowId, rect: Rect) -> (p: Self)
        ensures
            p.placements@ == seq![Placement { window, rect }],
    {
        let mut placements = Vec::new();
        placements.push(Placement { window, rect });
        PlacementPlan { placements }
    }

    pub fn is_noop(&self) -> (b: bool)
        ensures
            b == (self.placements@.len() == 0),
    {
        self.placements.len() == 0
    }

    /// Every placement lies inside `work`.
    pub fn fits_within(&self, work: &Rect) -> (b: bool)
        ensures
            b == all_within(self.placements@, *work),
    {
        let n = self.placements.len();
        let mut i: usize = 0;
        while i < n
            invariant
                n == self.placements@.len(),
                i <= n,
                all_within(self.placements@.take(i as int), *work),
            decreases n - i,
        {
            if !work.contains(&self.placements[i].rect) {
                assert(!work.spec_contains(self.placements@[i as int].rect));
                return false;
            }
            assert(self.placements@.take(i as int + 1) =~= self.placements@.take(i as int).push(
                self.placements@[i as int],
            ));
            i = i + 1;
        }
        assert(self.placements@.take(n as int) =~= self.placements@);
        true
    }
}

} // verus!
