//! Selection movement across cards and pages, in cycle order. Each move
//! returns the new index and the page that shows it (page 0 when there is no
//! page size).

use vstd::prelude::*;

verus! {

/// The page showing `index`.
pub open spec fn page_of(index: int, per_page: int) -> int {
    if per_page == 0 {
        0
    } else {
        index / per_page
    }
}

fn page_for(index: usize, per_page: usize) -> (p: usize)
    ensures
        p == page_of(index as int, per_page as int),
{
    if per_page == 0 {
        0
    } else {
        index / per_page
    }
}

/// Move selection forward by one candidate; past the end it wraps to the
/// first candidate on page 0.
pub fn select_next(candidate_count: usize, current_index: usize, per_page: usize) -> (r: (usize, usize))
    requires
        current_index < usize::MAX,
    ensures
        candidate_count == 0 ==> r == (0usize, 0usize),
        candidate_count > 0 ==> r.0 == (current_index + 1) % (candidate_count as int) && r.1
            == page_of(r.0 as int, per_page as int),
{
    if candidate_count == 0 {
        return (0, 0);
    }
    let next_index = (current_index + 1) % candidate_count;
    (next_index, page_for(next_index, per_page))
}

/// Move selection backward by one candidate; before the first it wraps to
/// the last candidate and its page.
pub fn select_prev(candidate_count: usize, current_index: usize, per_page: usize) -> (r: (usize, usize))
    ensures
        candidate_count == 0 ==> r == (0usize, 0usize),
        candidate_count > 0 ==> r.0 == (if current_index == 0 {
            candidate_count - 1
        } else {
            current_index - 1
        }) && r.1 == page_of(r.0 as int, per_page as int),
{
    if candidate_count == 0 {
        return (0, 0);
    }
    let prev_index = if current_index == 0 {
        candidate_count - 1
    } else {
        current_index - 1
    };
    (prev_index, page_for(prev_index, per_page))
}

/// Move selection up one row; on the first row it stays.
pub fn select_up(candidate_count: usize, current_index: usize, cols: usize, per_page: usize) -> (r: (usize, usize))
    ensures
        (candidate_count == 0 || cols == 0) ==> r == (current_index, 0usize),
        (candidate_count > 0 && cols > 0) ==> r.0 == (if current_index >= cols {
            current_index - cols
        } else {
            current_index as int
        }) && r.1 == page_of(r.0 as int, per_page as int),
{
    if candidate_count == 0 || cols == 0 {
        return (current_index, 0);
    }
    let new_index = if current_index >= cols {
        current_index - cols
    } else {
        current_index
    };
    (new_index, page_for(new_index, per_page))
}

/// Move selection down one row; where no candidate is below it stays.
pub fn select_down(candidate_count: usize, current_index: usize, cols: usize, per_page: usize) -> (r: (usize, usize))
    requires
        current_index + cols <= usize::MAX,
    ensures
        (candidate_count == 0 || cols == 0) ==> r == (current_index, 0usize),
        (candidate_count > 0 && cols > 0) ==> r.0 == (if current_index + cols < candidate_count {
            current_index + cols
        } else {
            current_index as int
        }) && r.1 == page_of(r.0 as int, per_page as int),
{
    if candidate_count == 0 || cols == 0 {
        return (current_index, 0);
    }
    let target = current_index + cols;
    let new_index = if target < candidate_count {
        target
    } else {
        current_index
    };
    (new_index, page_for(new_index, per_page))
}

/// Forward and backward are inverse: from any selected candidate, one step
/// forward then one back returns to it, and the reverse; the page reported
/// is always the page of the new index.
pub proof fn lemma_next_prev_inverse(count: int, index: int)
    requires
        0 <= index < count,
    ensures
        ({
            let next = (index + 1) % count;
            let back = if next == 0 {
                count - 1
            } else {
                next - 1
            };
            back == index
        }),
        ({
            let prev = if index == 0 {
                count - 1
            } else {
                index - 1
            };
            (prev + 1) % count == index
        }),
{
    if index + 1 == count {
        vstd::arithmetic::div_mod::lemma_mod_self_0(count);
    } else {
        vstd::arithmetic::div_mod::lemma_small_mod((index + 1) as nat, count as nat);
    }
    if index == 0 {
        vstd::arithmetic::div_mod::lemma_mod_self_0(count);
    } else {
        vstd::arithmetic::div_mod::lemma_small_mod(index as nat, count as nat);
    }
}

/// The selection never leaves the candidates: every move from a valid index
/// lands on a valid index.
pub proof fn lemma_moves_stay_in_range(count: int, index: int, cols: int)
    requires
        0 <= index < count,
        cols > 0,
    ensures
        0 <= (index + 1) % count < count,
        index >= cols ==> 0 <= index - cols < count,
        index + cols < count ==> 0 <= index + cols,
{
    vstd::arithmetic::div_mod::lemma_mod_bound(index + 1, count);
}

} // verus!
