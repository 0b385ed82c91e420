//! Which items a scroll position shows, which of them are worth loading, and
//! which loaded ones may be dropped.
//!
//! Positions are in whole pixels and items are laid out in rows of
//! `per_row` items, each row `row_height` pixels high.  All specifications
//! are over `int`; the executable functions compute them exactly.

use vstd::arithmetic::div_mod::{
    lemma_div_is_ordered, lemma_fundamental_div_mod, lemma_fundamental_div_mod_converse_div,
    lemma_mod_bound,
};
use vstd::arithmetic::mul::{lemma_mul_inequality, lemma_mul_upper_bound};
use vstd::math::{max, min};
use vstd::prelude::*;

verus! {

/// What a scrollable reports of its position: how far its content is
/// scrolled down and how much of it is shown, in whole pixels.
#[derive(Debug, Clone, Copy, PartialEq, Eq, Structural)]
pub struct Viewport {
    pub offset_y: u32,
    pub height: u32,
}

/// `a / b`, rounded up.
pub open spec fn ceil_div(a: int, b: int) -> int {
    (a + b - 1) / b
}

/// The row that holds the viewport's top edge.
pub open spec fn first_row(viewport: Viewport, row_height: int) -> int {
    viewport.offset_y as int / row_height
}

/// The number of rows that start above the viewport's bottom edge: one
/// past the last row on screen.
pub open spec fn end_row(viewport: Viewport, row_height: int) -> int {
    ceil_div(viewport.offset_y + viewport.height, row_height)
}

/// Index of the first item in the viewport's first row.
pub open spec fn visible_start(viewport: Viewport, row_height: int, per_row: int) -> int {
    first_row(viewport, row_height) * per_row
}

/// One past the last place in the last row on screen, whether or not the
/// list reaches that far.
pub open spec fn visible_stop(viewport: Viewport, row_height: int, per_row: int) -> int {
    end_row(viewport, row_height) * per_row
}

/// One past the last item on screen: `visible_stop`, cut off at the end of
/// the list.
pub open spec fn visible_end(viewport: Viewport, row_height: int, per_row: int, count: int) -> int {
    min(visible_stop(viewport, row_height, per_row), count)
}

/// Whether the place `index` of the grid lies in a row on screen: in a row
/// that the viewport touches, and in none above or below it.
pub open spec fn in_view(index: int, viewport: Viewport, row_height: int, per_row: int) -> bool {
    visible_start(viewport, row_height, per_row) <= index < visible_stop(
        viewport,
        row_height,
        per_row,
    )
}

/// First index of the load window: the visible items and `buffer` more
/// before them, inside `0..=count`.
pub open spec fn window_start(
    viewport: Viewport,
    row_height: int,
    per_row: int,
    buffer: int,
    count: int,
) -> int {
    min(max(visible_start(viewport, row_height, per_row) - buffer, 0), count)
}

/// End (exclusive) of the load window: the visible items and `buffer` more
/// after them, inside `0..=count`.
pub open spec fn window_end(
    viewport: Viewport,
    row_height: int,
    per_row: int,
    buffer: int,
    count: int,
) -> int {
    min(visible_end(viewport, row_height, per_row, count) + buffer, count)
}

/// How far `index` lies from the range `start..=end`; zero inside it.
pub open spec fn distance(index: int, start: int, end: int) -> int {
    if index < start {
        start - index
    } else if index > end {
        index - end
    } else {
        0
    }
}

/// Whether a loaded item at `index` keeps its thumbnail while the load
/// window is `start..end`: it does up to `slack` items away from the window.
pub open spec fn within_slack(index: int, start: int, end: int, slack: int) -> bool {
    start - slack <= index <= end + slack
}

/// The pixel offset that puts the row of item `index` at the top, held at
/// `u32::MAX` where the exact offset does not fit.
pub open spec fn row_offset(index: int, per_row: int, row_height: int) -> int {
    min(index / per_row * row_height, u32::MAX as int)
}

proof fn lemma_rows_ordered(viewport: Viewport, row_height: int)
    requires
        row_height > 0,
    ensures
        0 <= first_row(viewport, row_height) <= end_row(viewport, row_height),
        first_row(viewport, row_height) <= viewport.offset_y,
        end_row(viewport, row_height) <= viewport.offset_y + viewport.height,
{
    let top = viewport.offset_y as int;
    let bottom = viewport.offset_y + viewport.height + row_height - 1;
    lemma_div_is_ordered(0, top, row_height);
    lemma_div_is_ordered(top, bottom, row_height);
    assert(top / row_height <= top) by (nonlinear_arith)
        requires
            top >= 0,
            row_height > 0,
    ;
    let sum = viewport.offset_y + viewport.height;
    assert((sum + row_height - 1) / row_height <= sum) by (nonlinear_arith)
        requires
            sum >= 0,
            row_height > 0,
    ;
}

/// The load window is a range inside the list.
pub proof fn lemma_window_in_list(
    viewport: Viewport,
    row_height: int,
    per_row: int,
    buffer: int,
    count: int,
)
    requires
        row_height > 0,
        per_row >= 0,
        buffer >= 0,
        count >= 0,
    ensures
        0 <= window_start(viewport, row_height, per_row, buffer, count) <= window_end(
            viewport,
            row_height,
            per_row,
            buffer,
            count,
        ) <= count,
{
    lemma_rows_ordered(viewport, row_height);
    let first = first_row(viewport, row_height);
    let end = end_row(viewport, row_height);
    lemma_mul_inequality(first, end, per_row);
    lemma_mul_inequality(0, first, per_row);
}

/// Every item of the list that is on screen is inside the load window.
pub proof fn lemma_window_covers_view(
    index: int,
    viewport: Viewport,
    row_height: int,
    per_row: int,
    buffer: int,
    count: int,
)
    requires
        buffer >= 0,
        0 <= index < count,
        in_view(index, viewport, row_height, per_row),
    ensures
        window_start(viewport, row_height, per_row, buffer, count) <= index < window_end(
            viewport,
            row_height,
            per_row,
            buffer,
            count,
        ),
{
}

/// An item of the list that is at most `slack` away from what is on screen
/// is at most `slack` away from the load window too, so scrolling there does
/// not drop its thumbnail.
pub proof fn lemma_near_view_within_slack(
    index: int,
    viewport: Viewport,
    row_height: int,
    per_row: int,
    buffer: int,
    slack: int,
    count: int,
)
    requires
        row_height > 0,
        per_row >= 0,
        buffer >= 0,
        slack >= 0,
        0 <= index < count,
        distance(
            index,
            visible_start(viewport, row_height, per_row),
            visible_end(viewport, row_height, per_row, count),
        ) <= slack,
    ensures
        within_slack(
            index,
            window_start(viewport, row_height, per_row, buffer, count),
            window_end(viewport, row_height, per_row, buffer, count),
            slack,
        ),
{
    lemma_rows_ordered(viewport, row_height);
    let first = first_row(viewport, row_height);
    lemma_mul_inequality(0, first, per_row);
    lemma_mul_inequality(first, end_row(viewport, row_height), per_row);
}

/// `within_slack` says the same as a bound on `distance`.
pub proof fn lemma_within_slack_is_distance(index: int, start: int, end: int, slack: int)
    requires
        start <= end,
        slack >= 0,
    ensures
        within_slack(index, start, end, slack) <==> distance(index, start, end) <= slack,
{
}

/// The places of the rows on screen, before the end of the list cuts them
/// off: the first place of the first row, and one past the last place of the
/// last row.
fn row_span(viewport: Viewport, row_height: u32, per_row: usize) -> (span: (u128, u128))
    requires
        row_height > 0,
    ensures
        span.0 == visible_start(viewport, row_height as int, per_row as int),
        span.1 == visible_stop(viewport, row_height as int, per_row as int),
{
    proof {
        lemma_rows_ordered(viewport, row_height as int);
    }
    let first: u128 = (viewport.offset_y / row_height) as u128;
    let end: u128 = (viewport.offset_y as u128 + viewport.height as u128 + row_height as u128 - 1)
        / (row_height as u128);
    proof {
        lemma_mul_upper_bound(first as int, 0xffff_ffff, per_row as int, 0xffff_ffff_ffff_ffff);
        lemma_mul_upper_bound(end as int, 0x2_0000_0000, per_row as int, 0xffff_ffff_ffff_ffff);
        lemma_mul_inequality(0, first as int, per_row as int);
        lemma_mul_inequality(0, end as int, per_row as int);
    }
    (first * (per_row as u128), end * (per_row as u128))
}

/// Computes the load window for a scroll position.
pub fn load_window(
    viewport: Viewport,
    row_height: u32,
    per_row: usize,
    buffer: usize,
    count: usize,
) -> (window: (usize, usize))
    requires
        row_height > 0,
    ensures
        window.0 == window_start(
            viewport,
            row_height as int,
            per_row as int,
            buffer as int,
            count as int,
        ),
        window.1 == window_end(
            viewport,
            row_height as int,
            per_row as int,
            buffer as int,
            count as int,
        ),
{
    let (view_start, view_stop) = row_span(viewport, row_height, per_row);
    let view_end: u128 = if view_stop < count as u128 {
        view_stop
    } else {
        count as u128
    };
    let start: u128 = if view_start > buffer as u128 {
        let buffered: u128 = view_start - buffer as u128;
        if buffered < count as u128 {
            buffered
        } else {
            count as u128
        }
    } else {
        0
    };
    let stop: u128 = if view_end + (buffer as u128) < count as u128 {
        view_end + buffer as u128
    } else {
        count as u128
    };
    (start as usize, stop as usize)
}

/// Decides whether the place `index` of the grid lies in a row on screen.
pub fn is_in_view(index: usize, viewport: Viewport, row_height: u32, per_row: usize) -> (shown:
    bool)
    requires
        row_height > 0,
    ensures
        shown == in_view(index as int, viewport, row_height as int, per_row as int),
{
    let (view_start, view_stop) = row_span(viewport, row_height, per_row);
    view_start <= index as u128 && (index as u128) < view_stop
}

/// Decides whether a loaded item at `index` keeps its thumbnail while the
/// load window is `window`.
pub fn keeps_thumbnail(index: usize, window: (usize, usize), slack: usize) -> (kept: bool)
    ensures
        kept == within_slack(index as int, window.0 as int, window.1 as int, slack as int),
{
    let before = index < window.0 && window.0 - index > slack;
    let after = index > window.1 && index - window.1 > slack;
    !before && !after
}

/// Computes the offset to scroll to so that the row of item `index` is the
/// first one shown.
pub fn scroll_target(index: usize, per_row: usize, row_height: u32) -> (offset: u32)
    requires
        per_row > 0,
    ensures
        offset == row_offset(index as int, per_row as int, row_height as int),
{
    let row: u128 = (index / per_row) as u128;
    proof {
        lemma_mul_upper_bound(row as int, 0xffff_ffff_ffff_ffff, row_height as int, 0xffff_ffff);
        lemma_mul_inequality(0, row as int, row_height as int);
    }
    let exact: u128 = row * (row_height as u128);
    if exact < u32::MAX as u128 {
        exact as u32
    } else {
        u32::MAX
    }
}

/// The part of the grid that is drawn: the whole rows that hold the load
/// window.  The rows above and below are left empty.
#[derive(Debug, Clone, Copy, PartialEq, Eq, Structural)]
pub struct RenderWindow {
    /// Rows left empty above the drawn part.
    pub start_row: usize,
    /// First row left empty below the drawn part.
    pub end_row: usize,
    /// Rows of the whole grid.
    pub total_rows: usize,
    /// Index of the first item drawn.
    pub start_idx: usize,
    /// One past the index of the last item drawn.
    pub end_idx: usize,
}

/// What is drawn for a load window `start..end` over `count` items.
pub open spec fn drawn(start: int, end: int, count: int, per_row: int, window: RenderWindow) -> bool {
    &&& window.total_rows == ceil_div(count, per_row)
    &&& window.start_row == start / per_row
    &&& window.end_row == min(ceil_div(end, per_row), ceil_div(count, per_row))
    &&& window.start_idx == window.start_row * per_row
    &&& window.end_idx == min(window.end_row * per_row, count)
}

/// `a / b` rounded up is the quotient, and one more where a remainder is
/// left.
pub proof fn lemma_ceil_div(a: int, b: int)
    requires
        0 <= a,
        0 < b,
    ensures
        ceil_div(a, b) == a / b + if a % b == 0 {
            0int
        } else {
            1int
        },
        (ceil_div(a, b) - 1) * b < a <= ceil_div(a, b) * b || a == 0,
        a == 0 ==> ceil_div(a, b) == 0,
{
    let q = a / b;
    let r = a % b;
    lemma_fundamental_div_mod(a, b);
    lemma_mod_bound(a, b);
    if r == 0 {
        assert(a + b - 1 == q * b + (b - 1)) by (nonlinear_arith)
            requires
                a == b * q + r,
                r == 0,
        ;
        lemma_fundamental_div_mod_converse_div(a + b - 1, b, q, b - 1);
        assert(q * b == a) by (nonlinear_arith)
            requires
                a == b * q + r,
                r == 0,
        ;
        assert((q - 1) * b < a || a == 0) by (nonlinear_arith)
            requires
                q * b == a,
                b > 0,
                a >= 0,
        ;
    } else {
        assert(a + b - 1 == (q + 1) * b + (r - 1)) by (nonlinear_arith)
            requires
                a == b * q + r,
        ;
        lemma_fundamental_div_mod_converse_div(a + b - 1, b, q + 1, r - 1);
        assert(q * b < a && a <= (q + 1) * b) by (nonlinear_arith)
            requires
                a == b * q + r,
                0 < r < b,
        ;
    }
}

/// The drawn part is made of whole rows, lies inside the grid, and holds
/// every item of a load window that lies inside the list.
pub proof fn lemma_drawn_covers_window(
    start: int,
    end: int,
    count: int,
    per_row: int,
    window: RenderWindow,
)
    requires
        0 < per_row,
        0 <= start <= end <= count,
        drawn(start, end, count, per_row, window),
    ensures
        window.start_row <= window.end_row <= window.total_rows,
        window.start_idx <= start,
        end <= window.end_idx <= count,
{
    lemma_ceil_div(end, per_row);
    lemma_ceil_div(count, per_row);
    lemma_fundamental_div_mod(start, per_row);
    lemma_mod_bound(start, per_row);
    lemma_div_is_ordered(start, end, per_row);
    lemma_div_is_ordered(end, count, per_row);
    lemma_div_is_ordered(end + per_row - 1, count + per_row - 1, per_row);
    let first = start / per_row;
    assert(first * per_row <= start) by (nonlinear_arith)
        requires
            start == per_row * first + start % per_row,
            0 <= start % per_row,
    ;
}

/// Rounds `a / b` up.
fn div_ceil(a: usize, b: usize) -> (rows: usize)
    requires
        b > 0,
    ensures
        rows == ceil_div(a as int, b as int),
{
    proof {
        let x = a as int;
        let d = b as int;
        lemma_ceil_div(x, d);
        lemma_fundamental_div_mod(x, d);
        lemma_mod_bound(x, d);
        assert(x % d != 0 ==> x / d < x) by (nonlinear_arith)
            requires
                x == d * (x / d) + x % d,
                0 <= x % d < d,
                0 <= x,
        ;
    }
    let whole = a / b;
    if a % b == 0 {
        whole
    } else {
        whole + 1
    }
}

/// Computes the part of the grid to draw for the load window `range`.
pub fn render_window(range: (usize, usize), count: usize, per_row: usize) -> (window: RenderWindow)
    requires
        per_row > 0,
    ensures
        drawn(range.0 as int, range.1 as int, count as int, per_row as int, window),
{
    let total_rows = div_ceil(count, per_row);
    let start_row = range.0 / per_row;
    let window_rows = div_ceil(range.1, per_row);
    let end_row = if window_rows < total_rows {
        window_rows
    } else {
        total_rows
    };
    proof {
        lemma_fundamental_div_mod(range.0 as int, per_row as int);
        lemma_mod_bound(range.0 as int, per_row as int);
        let from = range.0 as int;
        let width = per_row as int;
        assert((from / width) * width <= from) by (nonlinear_arith)
            requires
                from == width * (from / width) + from % width,
                0 <= from % width,
        ;
        lemma_mul_upper_bound(
            end_row as int,
            0xffff_ffff_ffff_ffff,
            per_row as int,
            0xffff_ffff_ffff_ffff,
        );
        lemma_mul_inequality(0, end_row as int, per_row as int);
    }
    let start_idx = start_row * per_row;
    let below: u128 = (end_row as u128) * (per_row as u128);
    let end_idx = if below < count as u128 {
        below as usize
    } else {
        count
    };
    RenderWindow { start_row, end_row, total_rows, start_idx, end_idx }
}

} // verus!
