//! Adaptive grid layout of the visual switcher, derived from the work area:
//! fixed-size cards, as many columns as fit, at most three rows, and pages
//! beyond that.

use vstd::prelude::*;

verus! {

pub const CARD_W: i32 = 240;
pub const CARD_H: i32 = 180;
pub const HEADER_H: i32 = 28;
pub const GUTTER: i32 = 16;
pub const MARGIN: i32 = 24;
pub const MAX_ROWS: usize = 3;

/// Height of the page indicator strip, shown when there is more than one page.
pub const PAGE_INDICATOR_H: i32 = 24;

/// An origin and a size.
#[derive(Debug, Clone, Copy, PartialEq, Eq, Default, Structural)]
pub struct Rect {
    pub x: i32,
    pub y: i32,
    pub width: i32,
    pub height: i32,
}

impl Rect {
    pub fn new(x: i32, y: i32, width: i32, height: i32) -> (r: Self)
        ensures
            r == (Rect { x, y, width, height }),
    {
        Rect { x, y, width, height }
    }
}

/// One card: its frame, its title strip, and the preview area below it.
#[derive(Debug, Clone, Copy, PartialEq, Eq, Structural)]
pub struct CardLayout {
    pub chrome_rect: Rect,
    pub header_rect: Rect,
    pub preview_rect: Rect,
}

/// The overlay's geometry for one page of candidates.
#[derive(Debug, Clone, PartialEq, Eq)]
pub struct SwitcherLayout {
    pub overlay_rect: Rect,
    pub cols: usize,
    pub rows: usize,
    pub cards: Vec<CardLayout>,
    pub total_pages: usize,
    pub current_page: usize,
    pub page_indicator_rect: Option<Rect>,
}

pub open spec fn max_int(a: int, b: int) -> int {
    if a >= b {
        a
    } else {
        b
    }
}

pub open spec fn min_int(a: int, b: int) -> int {
    if a <= b {
        a
    } else {
        b
    }
}

/// `a / b` rounded up, for `b > 0`.
pub open spec fn ceil_div(a: int, b: int) -> int {
    (a + b - 1) / b
}

/// Rounding a quotient up adds one exactly when there is a remainder.
proof fn lemma_ceil_div(a: int, b: int)
    requires
        a >= 0,
        b >= 1,
    ensures
        ceil_div(a, b) == a / b + if a % b != 0 {
            1int
        } else {
            0int
        },
        a > 0 ==> ceil_div(a, b) >= 1 && (ceil_div(a, b) - 1) * b < a,
{
    let q = a / b;
    let r = a % b;
    vstd::arithmetic::div_mod::lemma_fundamental_div_mod(a, b);
    if r == 0 {
        vstd::arithmetic::div_mod::lemma_fundamental_div_mod_converse(a + b - 1, b, q, b - 1);
    } else {
        assert((q + 1) * b == q * b + b) by (nonlinear_arith);
        vstd::arithmetic::div_mod::lemma_fundamental_div_mod_converse(a + b - 1, b, q + 1, r - 1);
    }
    if a > 0 {
        assert((ceil_div(a, b) - 1) * b < a) by (nonlinear_arith)
            requires
                a == q * b + r,
                0 <= r < b,
                ceil_div(a, b) == q + if r != 0 {
                    1int
                } else {
                    0int
                },
                a > 0,
        ;
        if r == 0 {
            assert(q >= 1) by (nonlinear_arith)
                requires
                    a == q * b,
                    a > 0,
                    b >= 1,
            ;
        }
    }
}

/// The number of columns: as many fixed-width cards as fit between the
/// margins (at least one), and never more than there are candidates.
pub open spec fn grid_cols(work_area_width: int, count: int) -> int {
    let usable = max_int(work_area_width - 2 * MARGIN, CARD_W as int);
    let max_cols = max_int((usable + GUTTER) / (CARD_W + GUTTER), 1);
    max_int(min_int(max_cols, count), 1)
}

/// The number of rows: enough for every candidate, clamped to `1..=3`.
pub open spec fn grid_rows(work_area_width: int, count: int) -> int {
    let r = ceil_div(count, grid_cols(work_area_width, count));
    if r < 1 {
        1
    } else if r > MAX_ROWS {
        MAX_ROWS as int
    } else {
        r
    }
}

/// `(cols, rows, per_page)`, all zero when there are no candidates.
pub open spec fn grid_spec(work_area_width: int, count: int) -> (int, int, int) {
    if count == 0 {
        (0, 0, 0)
    } else {
        let cols = grid_cols(work_area_width, count);
        let rows = grid_rows(work_area_width, count);
        (cols, rows, cols * rows)
    }
}

proof fn lemma_grid_bounds(w: int, count: int)
    requires
        count > 0,
        w <= i32::MAX,
    ensures
        1 <= grid_cols(w, count) <= count,
        grid_cols(w, count) <= 0x80_0000,
        1 <= grid_rows(w, count) <= MAX_ROWS,
{
    let usable = max_int(w - 2 * MARGIN, CARD_W as int);
    assert((usable + GUTTER) / (CARD_W + GUTTER) <= 0x80_0000) by (nonlinear_arith)
        requires
            usable + GUTTER <= 0x8000_0000,
    ;
}

/// Compute columns, rows, and per-page capacity from the work area width and
/// the candidate count.
pub fn compute_grid(work_area_width: i32, candidate_count: usize) -> (r: (usize, usize, usize))
    requires
        candidate_count > 0 ==> work_area_width >= i32::MIN + 2 * MARGIN,
    ensures
        (r.0 as int, r.1 as int, r.2 as int) == grid_spec(
            work_area_width as int,
            candidate_count as int,
        ),
{
    if candidate_count == 0 {
        return (0, 0, 0);
    }
    proof {
        lemma_grid_bounds(work_area_width as int, candidate_count as int);
    }
    let shrunk = work_area_width - 2 * MARGIN;
    let usable = if shrunk >= CARD_W {
        shrunk
    } else {
        CARD_W
    };
    let fit = (usable + GUTTER) / (CARD_W + GUTTER);
    let max_cols: usize = if fit >= 1 {
        fit as usize
    } else {
        1
    };
    let narrowed = if max_cols <= candidate_count {
        max_cols
    } else {
        candidate_count
    };
    let cols = if narrowed >= 1 {
        narrowed
    } else {
        1
    };
    proof {
        if candidate_count % cols != 0 {
            assert(cols != 1);
            assert(candidate_count / cols < usize::MAX) by (nonlinear_arith)
                requires
                    cols >= 2,
            {
                vstd::arithmetic::div_mod::lemma_div_is_ordered_by_denominator(candidate_count as int, 2, cols as int);
            }
        }
    }
    let needed = candidate_count / cols + if candidate_count % cols != 0 {
        1
    } else {
        0
    };
    proof {
        lemma_ceil_div(candidate_count as int, cols as int);
    }
    let rows = if needed < 1 {
        1
    } else if needed > MAX_ROWS {
        MAX_ROWS
    } else {
        needed
    };
    assert(cols * rows <= 0x80_0000 * 3) by (nonlinear_arith)
        requires
            cols <= 0x80_0000,
            rows <= 3,
    ;
    (cols, rows, cols * rows)
}

/// `a / 2` rounded toward zero, as integer division does.
pub open spec fn trunc_half(a: int) -> int {
    if a >= 0 {
        a / 2
    } else {
        -((-a) / 2)
    }
}

/// Width of `cols` cards with gutters between them.
pub open spec fn content_w(cols: int) -> int {
    cols * CARD_W + max_int(cols - 1, 0) * GUTTER
}

/// Height of `rows` cards with gutters between them.
pub open spec fn content_h(rows: int) -> int {
    rows * CARD_H + max_int(rows - 1, 0) * GUTTER
}

/// Number of pages for `count` candidates.
pub open spec fn total_pages_spec(width: int, count: int) -> int {
    let per_page = grid_spec(width, count).2;
    if per_page == 0 {
        0
    } else {
        ceil_div(count, per_page)
    }
}

pub open spec fn overlay_w_spec(width: int, count: int) -> int {
    content_w(grid_spec(width, count).0) + 2 * MARGIN
}

pub open spec fn overlay_h_spec(width: int, count: int) -> int {
    content_h(grid_spec(width, count).1) + 2 * MARGIN + if total_pages_spec(width, count) > 1 {
        PAGE_INDICATOR_H as int
    } else {
        0
    }
}

pub open spec fn overlay_x_spec(wa: Rect, count: int) -> int {
    wa.x + trunc_half(wa.width - overlay_w_spec(wa.width as int, count))
}

pub open spec fn overlay_y_spec(wa: Rect, count: int) -> int {
    wa.y + trunc_half(wa.height - overlay_h_spec(wa.width as int, count))
}

pub open spec fn fits_i32(v: int) -> bool {
    i32::MIN <= v <= i32::MAX
}

/// The page actually shown: the requested one, clamped to the last.
pub open spec fn current_page_spec(width: int, count: int, page: int) -> int {
    min_int(page, max_int(total_pages_spec(width, count) - 1, 0))
}

/// Number of cards on the shown page.
pub open spec fn page_count_spec(width: int, count: int, page: int) -> int {
    let per_page = grid_spec(width, count).2;
    min_int(count - current_page_spec(width, count, page) * per_page, per_page)
}

/// Column of the rightmost card on the shown page.
pub open spec fn last_col_spec(width: int, count: int, page: int) -> int {
    min_int(page_count_spec(width, count, page), grid_spec(width, count).0) - 1
}

/// Row of the lowest card on the shown page.
pub open spec fn last_row_spec(width: int, count: int, page: int) -> int {
    (page_count_spec(width, count, page) - 1) / grid_spec(width, count).0
}

/// Every coordinate the layout computes is representable in `i32`: the
/// differences the overlay is centred by, its origin, the title and preview
/// origins of the cards on the shown page, and the page strip's origin.
pub open spec fn layout_fits(wa: Rect, count: int, page: int) -> bool {
    let width = wa.width as int;
    let w = overlay_w_spec(width, count);
    let h = overlay_h_spec(width, count);
    let x = overlay_x_spec(wa, count);
    let y = overlay_y_spec(wa, count);
    &&& wa.width >= i32::MIN + 2 * MARGIN
    &&& fits_i32(wa.width - w)
    &&& fits_i32(wa.height - h)
    &&& fits_i32(x)
    &&& fits_i32(y)
    &&& x + MARGIN + last_col_spec(width, count, page) * (CARD_W + GUTTER) + 6 <= i32::MAX
    &&& y + MARGIN + last_row_spec(width, count, page) * (CARD_H + GUTTER) + HEADER_H + 4
        <= i32::MAX
    &&& (total_pages_spec(width, count) > 1 ==> y + MARGIN + content_h(grid_spec(width, count).1)
        <= i32::MAX)
}

/// Left edge of the card in slot `i`: its column's offset past the margin.
pub open spec fn card_x(ox: int, i: int, cols: int) -> int {
    ox + MARGIN + (i % cols) * (CARD_W + GUTTER)
}

/// Top edge of the card in slot `i`: its row's offset past the margin.
pub open spec fn card_y(oy: int, i: int, cols: int) -> int {
    oy + MARGIN + (i / cols) * (CARD_H + GUTTER)
}

/// The card in slot `i` of a page, in row-major order.
pub open spec fn card_at(ox: int, oy: int, i: int, cols: int) -> CardLayout {
    let x = card_x(ox, i, cols);
    let y = card_y(oy, i, cols);
    CardLayout {
        chrome_rect: Rect { x: x as i32, y: y as i32, width: CARD_W, height: CARD_H },
        header_rect: Rect {
            x: (x + 6) as i32,
            y: (y + 4) as i32,
            width: (CARD_W - 12) as i32,
            height: HEADER_H,
        },
        preview_rect: Rect {
            x: (x + 4) as i32,
            y: (y + HEADER_H + 4) as i32,
            width: (CARD_W - 8) as i32,
            height: (CARD_H - HEADER_H - 8) as i32,
        },
    }
}

/// Compute the full layout geometry for the given work area and page of
/// candidates.
#[verifier::spinoff_prover]
pub fn compute_layout(work_area: Rect, candidate_count: usize, page: usize) -> (l: SwitcherLayout)
    requires
        candidate_count > 0 ==> layout_fits(work_area, candidate_count as int, page as int),
    ensures
        candidate_count == 0 ==> l == (SwitcherLayout {
            overlay_rect: Rect { x: work_area.x, y: work_area.y, width: 0, height: 0 },
            cols: 0,
            rows: 0,
            cards: l.cards,
            total_pages: 0,
            current_page: 0,
            page_indicator_rect: None,
        }) && l.cards@.len() == 0,
        candidate_count > 0 ==> {
            let w = work_area.width as int;
            let n = candidate_count as int;
            let (cols, rows, per_page) = grid_spec(w, n);
            let ox = overlay_x_spec(work_area, n);
            let oy = overlay_y_spec(work_area, n);
            &&& l.cols == cols
            &&& l.rows == rows
            &&& l.total_pages == total_pages_spec(w, n)
            &&& l.current_page == current_page_spec(w, n, page as int)
            &&& l.overlay_rect == (Rect {
                x: ox as i32,
                y: oy as i32,
                width: overlay_w_spec(w, n) as i32,
                height: overlay_h_spec(w, n) as i32,
            })
            &&& l.cards@.len() == page_count_spec(w, n, page as int)
            &&& forall|i: int| 0 <= i < l.cards@.len() ==> #[trigger] l.cards@[i] == card_at(ox, oy, i, cols)
            &&& forall|i: int|
                0 <= i < l.cards@.len() ==> fits_i32(#[trigger] card_x(ox, i, cols)) && fits_i32(
                    card_x(ox, i, cols) + 6,
                ) && fits_i32(card_y(oy, i, cols)) && fits_i32(card_y(oy, i, cols) + HEADER_H + 4)
            &&& l.page_indicator_rect == if total_pages_spec(w, n) > 1 {
                Some(Rect {
                    x: (ox + MARGIN) as i32,
                    y: (oy + MARGIN + content_h(rows)) as i32,
                    width: content_w(cols) as i32,
                    height: PAGE_INDICATOR_H,
                })
            } else {
                None
            }
        },
{
    let (cols, rows, per_page) = compute_grid(work_area.width, candidate_count);
    proof {
        if candidate_count > 0 {
            lemma_grid_bounds(work_area.width as int, candidate_count as int);
            assert(cols * rows >= 1) by (nonlinear_arith)
                requires
                    cols >= 1,
                    rows >= 1,
            ;
        }
    }
    if per_page == 0 {
        return SwitcherLayout {
            overlay_rect: Rect::new(work_area.x, work_area.y, 0, 0),
            cols: 0,
            rows: 0,
            cards: Vec::new(),
            total_pages: 0,
            current_page: 0,
            page_indicator_rect: None,
        };
    }
    let ghost w = work_area.width as int;
    let ghost n = candidate_count as int;
    proof {
        lemma_grid_bounds(w, n);
        assert(per_page as int == cols * rows);
        assert(cols * rows >= 1) by (nonlinear_arith)
            requires
                cols >= 1,
                rows >= 1,
        ;
        if candidate_count % per_page != 0 {
            assert(per_page != 1);
            assert(candidate_count / per_page < usize::MAX) by (nonlinear_arith)
                requires
                    per_page >= 2,
            {
                vstd::arithmetic::div_mod::lemma_div_is_ordered_by_denominator(
                    candidate_count as int,
                    2,
                    per_page as int,
                );
            }
        }
    }
    let total_pages = candidate_count / per_page + if candidate_count % per_page != 0 {
        1
    } else {
        0
    };
    proof {
        lemma_ceil_div(candidate_count as int, per_page as int);
    }
    let current_page = if page <= total_pages - 1 {
        page
    } else {
        total_pages - 1
    };
    assert(current_page * per_page < candidate_count) by (nonlinear_arith)
        requires
            current_page <= total_pages - 1,
            (total_pages - 1) * per_page < candidate_count,
            per_page >= 1,
    ;
    let page_start = current_page * per_page;
    let remaining = candidate_count - page_start;
    let page_count = if remaining <= per_page {
        remaining
    } else {
        per_page
    };
    let cols_i: i32 = cols as i32;
    let rows_i: i32 = rows as i32;
    let content_width = cols_i * CARD_W + (if cols_i >= 1 {
        cols_i - 1
    } else {
        0
    }) * GUTTER;
    let content_height = rows_i * CARD_H + (if rows_i >= 1 {
        rows_i - 1
    } else {
        0
    }) * GUTTER;
    let indicator_h: i32 = if total_pages > 1 {
        PAGE_INDICATOR_H
    } else {
        0
    };
    let overlay_w = content_width + 2 * MARGIN;
    let overlay_h = content_height + 2 * MARGIN + indicator_h;
    assert(overlay_w == overlay_w_spec(w, n));
    assert(overlay_h == overlay_h_spec(w, n));
    let dx = work_area.width - overlay_w;
    let dy = work_area.height - overlay_h;
    let overlay_x = work_area.x + dx / 2;
    let overlay_y = work_area.y + dy / 2;
    assert(overlay_x == overlay_x_spec(work_area, n));
    assert(overlay_y == overlay_y_spec(work_area, n));
    let mut cards: Vec<CardLayout> = Vec::new();
    let mut i: usize = 0;
    while i < page_count
        invariant
            i <= page_count <= per_page == cols * rows,
            1 <= cols <= 0x80_0000,
            1 <= rows <= 3,
            cards@.len() == i,
            overlay_w == content_w(cols as int) + 2 * MARGIN,
            overlay_h >= content_h(rows as int) + 2 * MARGIN,
            page_count >= 1,
            fits_i32(overlay_x as int),
            fits_i32(overlay_y as int),
            overlay_x + MARGIN + (min_int(page_count as int, cols as int) - 1) * 256 + 6 <= i32::MAX,
            overlay_y + MARGIN + ((page_count - 1) / (cols as int)) * 196 + HEADER_H + 4 <= i32::MAX,
            forall|j: int| 0 <= j < i ==> #[trigger] cards@[j] == card_at(overlay_x as int, overlay_y as int, j, cols as int),
            forall|j: int|
                0 <= j < i ==> fits_i32(#[trigger] card_x(overlay_x as int, j, cols as int)) && fits_i32(
                    card_x(overlay_x as int, j, cols as int) + 6,
                ) && fits_i32(card_y(overlay_y as int, j, cols as int)) && fits_i32(
                    card_y(overlay_y as int, j, cols as int) + HEADER_H + 4,
                ),
        decreases page_count - i,
    {
        let col_u = i % cols;
        let row_u = i / cols;
        proof {
            assert(row_u < rows) by (nonlinear_arith)
                requires
                    i < cols * rows,
                    row_u == i / cols,
                    cols >= 1,
            ;
            assert(col_u <= min_int(page_count as int, cols as int) - 1) by (nonlinear_arith)
                requires
                    col_u == i % cols,
                    i < page_count,
                    cols >= 1,
            ;
            assert(row_u <= (page_count - 1) / (cols as int)) by {
                vstd::arithmetic::div_mod::lemma_div_is_ordered(i as int, page_count - 1, cols as int);
            }
            assert(col_u * (CARD_W + GUTTER) <= (min_int(page_count as int, cols as int) - 1) * 256) by (nonlinear_arith)
                requires
                    col_u <= min_int(page_count as int, cols as int) - 1,
            ;
            assert(row_u * (CARD_H + GUTTER) <= ((page_count - 1) / (cols as int)) * 196) by (nonlinear_arith)
                requires
                    row_u <= (page_count - 1) / (cols as int),
            ;
            assert(col_u >= 0 && row_u >= 0);
        }
        let col = col_u as i32;
        let row = row_u as i32;
        let cx = overlay_x + MARGIN + col * (CARD_W + GUTTER);
        let cy = overlay_y + MARGIN + row * (CARD_H + GUTTER);
        let chrome_rect = Rect::new(cx, cy, CARD_W, CARD_H);
        let header_rect = Rect::new(cx + 6, cy + 4, CARD_W - 12, HEADER_H);
        let preview_rect = Rect::new(
            cx + 4,
            cy + HEADER_H + 4,
            CARD_W - 8,
            CARD_H - HEADER_H - 8,
        );
        proof {
            assert(card_x(overlay_x as int, i as int, cols as int) == cx as int);
            assert(card_y(overlay_y as int, i as int, cols as int) == cy as int);
            assert(fits_i32(cx as int + 6));
            assert(fits_i32(cy as int + HEADER_H + 4));
            assert(fits_i32(card_x(overlay_x as int, i as int, cols as int)) && fits_i32(
                card_x(overlay_x as int, i as int, cols as int) + 6,
            ) && fits_i32(card_y(overlay_y as int, i as int, cols as int)) && fits_i32(
                card_y(overlay_y as int, i as int, cols as int) + HEADER_H + 4,
            ));
        }
        cards.push(CardLayout { chrome_rect, header_rect, preview_rect });
        let ghost prev = i as int;
        i = i + 1;
        proof {
            assert forall|j: int| 0 <= j < i implies fits_i32(
                #[trigger] card_x(overlay_x as int, j, cols as int),
            ) && fits_i32(card_x(overlay_x as int, j, cols as int) + 6) && fits_i32(
                card_y(overlay_y as int, j, cols as int),
            ) && fits_i32(card_y(overlay_y as int, j, cols as int) + HEADER_H + 4) by {
                if j == prev {
                    assert(card_x(overlay_x as int, prev, cols as int) == cx as int);
                    assert(card_y(overlay_y as int, prev, cols as int) == cy as int);
                }
            }
        }
    }
    let page_indicator_rect = if total_pages > 1 {
        Some(Rect::new(overlay_x + MARGIN, overlay_y + MARGIN + content_height, content_width, indicator_h))
    } else {
        None
    };
    SwitcherLayout {
        overlay_rect: Rect::new(overlay_x, overlay_y, overlay_w, overlay_h),
        cols,
        rows,
        cards,
        total_pages,
        current_page,
        page_indicator_rect,
    }
}

/// Columns derive from the work area and never overflow it: with room for
/// one card between the margins, the overlay is no wider than the work area;
/// with room for three rows and the page strip, no taller; there is at least
/// one column, between one and three rows, and at least one page.
pub proof fn lemma_grid_fits_work_area(width: int, height: int, count: int)
    requires
        count > 0,
        width <= i32::MAX,
    ensures
        width >= CARD_W + 2 * MARGIN ==> overlay_w_spec(width, count) <= width,
        height >= 3 * CARD_H + 2 * GUTTER + 2 * MARGIN + PAGE_INDICATOR_H ==> overlay_h_spec(width, count) <= height,
        grid_spec(width, count).0 >= 1,
        1 <= grid_spec(width, count).1 <= MAX_ROWS,
        total_pages_spec(width, count) >= 1,
{
    lemma_grid_bounds(width, count);
    let cols = grid_cols(width, count);
    let rows = grid_rows(width, count);
    assert(cols * rows >= 1) by (nonlinear_arith)
        requires
            cols >= 1,
            rows >= 1,
    ;
    lemma_ceil_div(count, cols * rows);
    if width >= CARD_W + 2 * MARGIN {
        let usable = width - 2 * MARGIN;
        let max_cols = (usable + GUTTER) / (CARD_W + GUTTER);
        assert(max_cols * 256 <= usable + 16) by (nonlinear_arith)
            requires
                max_cols == (usable + 16) / 256,
                usable >= 0,
        ;
        assert(cols <= max_cols);
        assert(cols * 256 <= max_cols * 256) by (nonlinear_arith)
            requires
                cols <= max_cols,
        ;
    }
    assert(content_h(rows) <= 3 * CARD_H + 2 * GUTTER) by (nonlinear_arith)
        requires
            1 <= rows <= 3,
            content_h(rows) == rows * CARD_H + (rows - 1) * GUTTER,
    ;
}

/// No page is ever empty: every page below the page count shows at least
/// one card, and never more than a page holds.
pub proof fn lemma_pages_are_never_empty(width: int, count: int, page: int)
    requires
        count > 0,
        width <= i32::MAX,
        0 <= page < total_pages_spec(width, count),
    ensures
        1 <= page_count_spec(width, count, page) <= grid_spec(width, count).2,
{
    lemma_grid_bounds(width, count);
    let per_page = grid_spec(width, count).2;
    let cols = grid_cols(width, count);
    let rows = grid_rows(width, count);
    assert(cols * rows >= 1) by (nonlinear_arith)
        requires
            cols >= 1,
            rows >= 1,
    ;
    lemma_ceil_div(count, per_page);
    let t = total_pages_spec(width, count);
    assert(page * per_page < count) by (nonlinear_arith)
        requires
            page <= t - 1,
            (t - 1) * per_page < count,
            per_page >= 1,
            page >= 0,
    ;
}

/// Cards fill the grid row by row: the first row starts at the overlay's
/// margin, the card in the same column one row further down lies exactly one
/// card height and one gutter lower, and the next card in a row lies exactly
/// one card width and one gutter to the right. So cards in different rows
/// or columns never overlap.
pub proof fn lemma_cards_fill_rows_in_order(ox: int, oy: int, i: int, cols: int)
    requires
        cols >= 1,
        0 <= i,
        i32::MIN <= ox,
        i32::MIN <= oy,
        ox + MARGIN + (cols - 1) * (CARD_W + GUTTER) <= i32::MAX,
        oy + MARGIN + (i / cols + 1) * (CARD_H + GUTTER) <= i32::MAX,
    ensures
        ({
            let here = card_at(ox, oy, i, cols).chrome_rect;
            let below = card_at(ox, oy, i + cols, cols).chrome_rect;
            &&& below.y == here.y + CARD_H + GUTTER
            &&& below.x == here.x
            &&& below.y >= here.y + here.height
            &&& i < cols ==> here.y == oy + MARGIN && here.x == ox + MARGIN + i * (CARD_W + GUTTER)
            &&& i % cols + 1 < cols ==> card_at(ox, oy, i + 1, cols).chrome_rect.x == here.x + CARD_W
                + GUTTER && card_at(ox, oy, i + 1, cols).chrome_rect.y == here.y
        }),
{
    vstd::arithmetic::div_mod::lemma_div_plus_one(i, cols);
    vstd::arithmetic::div_mod::lemma_mod_add_multiples_vanish(i, cols);
    vstd::arithmetic::div_mod::lemma_fundamental_div_mod(i, cols);
    vstd::arithmetic::div_mod::lemma_fundamental_div_mod(i + 1, cols);
    let q = i / cols;
    let r = i % cols;
    assert(0 <= r < cols);
    assert(q >= 0) by {
        vstd::arithmetic::div_mod::lemma_div_pos_is_pos(i, cols);
    }
    assert(0 <= r * (CARD_W + GUTTER) <= (cols - 1) * (CARD_W + GUTTER)) by (nonlinear_arith)
        requires
            0 <= r < cols,
    ;
    assert(0 <= q * (CARD_H + GUTTER)) by (nonlinear_arith)
        requires
            q >= 0,
    ;
    assert((q + 1) * (CARD_H + GUTTER) == q * (CARD_H + GUTTER) + CARD_H + GUTTER) by (nonlinear_arith);
    if i < cols {
        assert(0 * cols == 0);
        vstd::arithmetic::div_mod::lemma_fundamental_div_mod_converse(i, cols, 0, i);
        assert(q == 0 && r == i);
        assert(q * (CARD_H + GUTTER) == 0) by (nonlinear_arith)
            requires
                q == 0,
        ;
        assert(card_y(oy, i, cols) == oy + MARGIN);
        assert(card_x(ox, i, cols) == ox + MARGIN + i * (CARD_W + GUTTER));
    }
    if r + 1 < cols {
        vstd::arithmetic::div_mod::lemma_fundamental_div_mod_converse(i + 1, cols, q, r + 1);
        assert((r + 1) * (CARD_W + GUTTER) == r * (CARD_W + GUTTER) + CARD_W + GUTTER) by (nonlinear_arith);
        assert(card_x(ox, i + 1, cols) == card_x(ox, i, cols) + CARD_W + GUTTER);
        assert(card_y(oy, i + 1, cols) == card_y(oy, i, cols));
    }
    assert((i + cols) / cols == q + 1);
    assert((i + cols) % cols == r);
    assert(card_y(oy, i + cols, cols) == card_y(oy, i, cols) + CARD_H + GUTTER);
    assert(card_x(ox, i + cols, cols) == card_x(ox, i, cols));
    assert(fits_i32(card_y(oy, i, cols)));
    assert(fits_i32(card_y(oy, i + cols, cols)));
    assert(fits_i32(card_x(ox, i, cols)));
    assert(card_at(ox, oy, i, cols).chrome_rect.y as int == card_y(oy, i, cols));
    assert(card_at(ox, oy, i, cols).chrome_rect.x as int == card_x(ox, i, cols));
    assert(card_at(ox, oy, i + cols, cols).chrome_rect.y as int == card_y(oy, i + cols, cols));
    assert(card_at(ox, oy, i + cols, cols).chrome_rect.x as int == card_x(ox, i + cols, cols));
    if r + 1 < cols {
        assert((r + 1) * (CARD_W + GUTTER) <= (cols - 1) * (CARD_W + GUTTER)) by (nonlinear_arith)
            requires
                r + 1 <= cols - 1,
        ;
        assert(fits_i32(card_x(ox, i + 1, cols)));
        assert(card_at(ox, oy, i + 1, cols).chrome_rect.x as int == card_x(ox, i + 1, cols));
        assert(card_at(ox, oy, i + 1, cols).chrome_rect.y as int == card_y(oy, i + 1, cols));
    }
    let here = card_at(ox, oy, i, cols).chrome_rect;
    let below = card_at(ox, oy, i + cols, cols).chrome_rect;
    assert(below.y == here.y + CARD_H + GUTTER);
    assert(below.x == here.x);
    assert(below.y >= here.y + here.height);
    if i < cols {
        assert(here.y == oy + MARGIN);
        assert(here.x == ox + MARGIN + i * (CARD_W + GUTTER));
    }
}

/// Cards never shrink: every card has the fixed size, its title strip lies
/// inside its frame, and its preview lies inside the frame strictly below
/// the title strip.
pub proof fn lemma_card_geometry(ox: int, oy: int, i: int, cols: int)
    requires
        fits_i32(card_x(ox, i, cols)),
        fits_i32(card_x(ox, i, cols) + 6),
        fits_i32(card_y(oy, i, cols)),
        fits_i32(card_y(oy, i, cols) + HEADER_H + 4),
    ensures
        ({
            let c = card_at(ox, oy, i, cols);
            &&& c.chrome_rect.width == CARD_W && c.chrome_rect.height == CARD_H
            &&& c.preview_rect.x >= c.chrome_rect.x
            &&& c.preview_rect.y >= c.header_rect.y + c.header_rect.height
            &&& c.preview_rect.x + c.preview_rect.width <= c.chrome_rect.x + c.chrome_rect.width
            &&& c.preview_rect.y + c.preview_rect.height <= c.chrome_rect.y + c.chrome_rect.height
            &&& c.header_rect.y >= c.chrome_rect.y
        }),
{
}

} // verus!
