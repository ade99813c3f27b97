//! Stateless next-target selection: a pure function of the snapshot it is
//! handed, keeping no cursor between commands.

use vstd::prelude::*;

use super::{cycle_order, cycle_order_spec, windows_of, ActiveContext, Candidate, SelectionResult, WindowId};

verus! {

/// `list` holds `w`.
pub fn contains_window(list: &[WindowId], w: WindowId) -> (b: bool)
    ensures
        b == list@.contains(w),
{
    let n = list.len();
    let mut i: usize = 0;
    while i < n
        invariant
            n == list@.len(),
            i <= n,
            forall|j: int| 0 <= j < i ==> list@[j] != w,
        decreases n - i,
    {
        if list[i] == w {
            return true;
        }
        i = i + 1;
    }
    false
}

/// Every eligible window except the active one, in cycle order.
pub open spec fn attempt_order_spec(candidates: Seq<Candidate>, eligible: Seq<WindowId>, foreground: WindowId) -> Seq<WindowId> {
    cycle_order_spec(windows_of(candidates), foreground).filter(attempt_pred(eligible, foreground))
}

/// A window may be attempted: it is eligible and not the active window.
pub open spec fn attempt_pred(eligible: Seq<WindowId>, foreground: WindowId) -> spec_fn(WindowId) -> bool {
    |w: WindowId| w != foreground && eligible.contains(w)
}

/// Build the full attempt order: every eligible window except the active one,
/// least recently used first, wrapping at most once.
pub fn attempt_order(candidates: &[Candidate], eligible: &[WindowId], active: &ActiveContext) -> (order: Vec<WindowId>)
    ensures
        order@ == attempt_order_spec(candidates@, eligible@, active.foreground),
{
    let all = cycle_order(candidates, active);
    let ghost pred = attempt_pred(eligible@, active.foreground);
    let mut out: Vec<WindowId> = Vec::new();
    let n = all.len();
    let mut i: usize = 0;
    while i < n
        invariant
            n == all@.len(),
            i <= n,
            all@ == cycle_order_spec(windows_of(candidates@), active.foreground),
            pred == attempt_pred(eligible@, active.foreground),
            out@ == all@.take(i as int).filter(pred),
        decreases n - i,
    {
        let w = all[i];
        proof {
            reveal_with_fuel(Seq::filter, 1);
            assert(all@.take(i + 1).drop_last() =~= all@.take(i as int));
        }
        if w != active.foreground && contains_window(eligible, w) {
            out.push(w);
        }
        i = i + 1;
    }
    proof {
        assert(all@.take(n as int) =~= all@);
    }
    out
}

/// The first window of `order` not in `tried`, if any.
pub open spec fn first_untried(order: Seq<WindowId>, tried: Seq<WindowId>) -> SelectionResult
    decreases order.len(),
{
    if order.len() == 0 {
        SelectionResult::NoCandidate
    } else if !tried.contains(order[0]) {
        SelectionResult::Target(order[0])
    } else {
        first_untried(order.drop_first(), tried)
    }
}

/// Choose the next target, or `NoCandidate` for a no-op.
pub fn select_next(candidates: &[Candidate], eligible: &[WindowId], active: &ActiveContext) -> (r: SelectionResult)
    ensures
        ({
            let order = attempt_order_spec(candidates@, eligible@, active.foreground);
            r == if order.len() == 0 {
                SelectionResult::NoCandidate
            } else {
                SelectionResult::Target(order[0])
            }
        }),
{
    let order = attempt_order(candidates, eligible, active);
    if order.len() == 0 {
        SelectionResult::NoCandidate
    } else {
        SelectionResult::Target(order[0])
    }
}

/// Advance past targets already tried in this pass, so each candidate is
/// attempted no more than once.
pub fn select_after(candidates: &[Candidate], eligible: &[WindowId], active: &ActiveContext, tried: &[WindowId]) -> (r: SelectionResult)
    ensures
        r == first_untried(attempt_order_spec(candidates@, eligible@, active.foreground), tried@),
{
    let order = attempt_order(candidates, eligible, active);
    let n = order.len();
    let mut i: usize = 0;
    proof {
        assert(order@.skip(0) =~= order@);
    }
    while i < n
        invariant
            n == order@.len(),
            order@ == attempt_order_spec(candidates@, eligible@, active.foreground),
            i <= n,
            first_untried(order@, tried@) == first_untried(order@.skip(i as int), tried@),
        decreases n - i,
    {
        let w = order[i];
        proof {
            assert(order@.skip(i as int)[0] == w);
            assert(order@.skip(i as int).drop_first() =~= order@.skip(i + 1));
        }
        if !contains_window(tried, w) {
            assert(first_untried(order@.skip(i as int), tried@) == SelectionResult::Target(w));
            return SelectionResult::Target(w);
        }
        i = i + 1;
    }
    proof {
        assert(order@.skip(n as int).len() == 0);
        assert(order@.skip(0) =~= order@);
    }
    SelectionResult::NoCandidate
}

/// The attempt order never offers the active window or an ineligible one, and
/// offers each eligible window of a duplicate-free snapshot at most once.
pub proof fn lemma_attempt_order_bounded(candidates: Seq<Candidate>, eligible: Seq<WindowId>, foreground: WindowId)
    requires
        windows_of(candidates).no_duplicates(),
    ensures
        ({
            let order = attempt_order_spec(candidates, eligible, foreground);
            &&& !order.contains(foreground)
            &&& forall|w: WindowId| order.contains(w) ==> eligible.contains(w)
            &&& forall|w: WindowId| order.contains(w) <==> (windows_of(candidates).contains(w)
                && w != foreground && eligible.contains(w))
            &&& order.no_duplicates()
        }),
{
    let all = cycle_order_spec(windows_of(candidates), foreground);
    let pred = attempt_pred(eligible, foreground);
    super::lemma_cycle_order_covers_others_once(windows_of(candidates), foreground);
    let order = all.filter(pred);
    assert forall|w: WindowId| order.contains(w) <==> (all.contains(w) && pred(w)) by {
        if order.contains(w) {
            let i = choose|i: int| 0 <= i < order.len() && order[i] == w;
            all.lemma_filter_pred(pred, i);
            all.lemma_filter_contains_rev(pred, w);
        }
        if all.contains(w) && pred(w) {
            let i = choose|i: int| 0 <= i < all.len() && all[i] == w;
            all.lemma_filter_contains(pred, i);
        }
    }
    lemma_filter_no_duplicates(all, pred);
}

proof fn lemma_filter_no_duplicates(s: Seq<WindowId>, pred: spec_fn(WindowId) -> bool)
    requires
        s.no_duplicates(),
    ensures
        s.filter(pred).no_duplicates(),
    decreases s.len(),
{
    reveal_with_fuel(Seq::filter, 1);
    if s.len() > 0 {
        let init = s.drop_last();
        assert(init.no_duplicates());
        lemma_filter_no_duplicates(init, pred);
        let f = init.filter(pred);
        if pred(s.last()) {
            assert(!init.contains(s.last()));
            assert(!f.contains(s.last())) by {
                if f.contains(s.last()) {
                    init.lemma_filter_contains_rev(pred, s.last());
                }
            }
            assert(s.filter(pred) == f.push(s.last()));
        } else {
            assert(s.filter(pred) == f);
        }
    }
}

/// Selecting after a set of tried windows never returns one of them, and never
/// returns the active window or an ineligible one.
pub proof fn lemma_select_after_is_fresh(order: Seq<WindowId>, tried: Seq<WindowId>)
    ensures
        first_untried(order, tried) is Target ==> !tried.contains(first_untried(order, tried)->Target_0)
            && order.contains(first_untried(order, tried)->Target_0),
    decreases order.len(),
{
    if order.len() > 0 && tried.contains(order[0]) {
        lemma_select_after_is_fresh(order.drop_first(), tried);
        if first_untried(order, tried) is Target {
            let t = first_untried(order, tried)->Target_0;
            let i = choose|i: int| 0 <= i < order.drop_first().len() && order.drop_first()[i] == t;
            assert(order[i + 1] == t);
        }
    } else if order.len() > 0 {
        assert(order[0] == order[0]);
    }
}

} // verus!
