//! The master-stack layout and the two plain stacks.

use vstd::prelude::*;

use crate::geometry::{Rect, TileAssignment, WindowHandle};
use crate::layout::{
    column, piece_length, piece_start, row, scale_length, scaled, shared_length,
    split_columns_with_gap, split_rows_with_gap, LayoutConfig,
};
use crate::num::{
    clamp_i32, min_int, quotient_towards_zero, remainder_towards_zero, sat_add, sat_sub,
};

verus! {

/// Whether a stack runs down or across.
#[derive(Debug, Clone, Copy, PartialEq, Eq, Structural)]
pub enum StackAxis {
    Rows,
    Columns,
}

/// A window in `rect`, with room for the border taken away.
pub open spec fn bordered(window: WindowHandle, rect: Rect, config: LayoutConfig) -> TileAssignment {
    TileAssignment { window, rect: rect.shrunk(config.border as int) }
}

/// Takes the room for the border away from a tile.
pub fn reserve_window_rect(rect: Rect, config: LayoutConfig) -> (r: Rect)
    ensures
        r == rect.shrunk(config.border as int),
{
    rect.inset(config.border)
}

/// The width that master and stack share: the outer area without the gap between them.
pub open spec fn master_room(outer: Rect, gap: int) -> int {
    clamp_i32(outer.spec_width() - gap)
}

/// The master's part of the outer area.
pub open spec fn master_part(outer: Rect, config: LayoutConfig) -> Rect {
    Rect::sized(
        outer.left as int,
        outer.top as int,
        scaled(master_room(outer, config.gap as int), config.master_ratio_percent as int),
        outer.spec_height(),
    )
}

/// What the master leaves to the stack.
pub open spec fn stack_part(outer: Rect, config: LayoutConfig) -> Rect {
    Rect {
        left: clamp_i32(master_part(outer, config).right + config.gap) as i32,
        top: outer.top,
        right: outer.right,
        bottom: outer.bottom,
    }
}

/// The master-stack layout: the first window takes the master's part, the others share the rest
/// as rows; a single window takes all.
pub open spec fn master_stack(
    work_area: Rect,
    windows: Seq<WindowHandle>,
    config: LayoutConfig,
) -> Seq<TileAssignment> {
    let config = config.spec_normalized();
    let outer = work_area.shrunk(config.gap as int);
    if work_area.covers_nothing() || windows.len() == 0 {
        Seq::empty()
    } else if windows.len() == 1 {
        seq![bordered(windows[0], outer, config)]
    } else if master_room(outer, config.gap as int) <= 0 {
        Seq::empty()
    } else {
        Seq::new(
            windows.len(),
            |i: int|
                bordered(
                    windows[i],
                    if i == 0 {
                        master_part(outer, config)
                    } else {
                        row(stack_part(outer, config), windows.len() - 1, config.gap as int, i - 1)
                    },
                    config,
                ),
        )
    }
}

/// The stack layouts: the windows share the work area as rows or as columns.
pub open spec fn stacked(
    work_area: Rect,
    windows: Seq<WindowHandle>,
    config: LayoutConfig,
    axis: StackAxis,
) -> Seq<TileAssignment> {
    let config = config.spec_normalized();
    let outer = work_area.shrunk(config.gap as int);
    if work_area.covers_nothing() {
        Seq::empty()
    } else {
        Seq::new(
            windows.len(),
            |i: int|
                bordered(
                    windows[i],
                    match axis {
                        StackAxis::Rows => row(outer, windows.len() as int, config.gap as int, i),
                        StackAxis::Columns => column(
                            outer,
                            windows.len() as int,
                            config.gap as int,
                            i,
                        ),
                    },
                    config,
                ),
        )
    }
}

/// A part of a length is no longer than the length.
proof fn lemma_scaled_bounds(length: int, percent: int)
    requires
        0 <= length,
        0 <= percent <= 100,
    ensures
        0 <= scaled(length, percent) <= length,
{
    assert(0 <= length * percent <= length * 100) by (nonlinear_arith)
        requires
            0 <= length,
            0 <= percent <= 100,
    ;
}

/// Places windows in the master-stack layout.
pub fn master_stack_assignments(
    work_area: Rect,
    windows: &[WindowHandle],
    config: LayoutConfig,
) -> (r: Vec<TileAssignment>)
    requires
        windows.len() <= i32::MAX,
    ensures
        r@ == master_stack(work_area, windows@, config),
{
    let mut assignments: Vec<TileAssignment> = Vec::new();
    if work_area.is_empty() || windows.is_empty() {
        return assignments;
    }
    let config: LayoutConfig = config.normalized();
    let outer_area: Rect = work_area.inset(config.gap);
    if windows.len() == 1 {
        assignments.push(
            TileAssignment {
                window: windows[0],
                rect: reserve_window_rect(outer_area, config),
            },
        );
        return assignments;
    }
    let gap: i32 = config.gap;
    let available_width: i32 = sat_sub(outer_area.width(), gap);
    if available_width <= 0 {
        return assignments;
    }
    proof {
        lemma_scaled_bounds(available_width as int, config.master_ratio_percent as int);
    }
    let master_width: i32 = scale_length(available_width, config.master_ratio_percent);
    let master_rect: Rect = Rect::from_size(
        outer_area.left,
        outer_area.top,
        master_width,
        outer_area.height(),
    );
    let stack_area: Rect = Rect {
        left: sat_add(master_rect.right, gap),
        top: outer_area.top,
        right: outer_area.right,
        bottom: outer_area.bottom,
    };
    assignments.push(
        TileAssignment { window: windows[0], rect: reserve_window_rect(master_rect, config) },
    );
    let rects: Vec<Rect> = split_rows_with_gap(stack_area, windows.len() - 1, gap);
    let mut index: usize = 1;
    while index < windows.len()
        invariant
            1 <= index <= windows.len(),
            rects.len() == windows.len() - 1,
            rects@ == Seq::new(
                (windows.len() - 1) as nat,
                |i: int| row(stack_part(outer_area, config), windows.len() - 1, config.gap as int, i),
            ),
            assignments@ == Seq::new(
                index as nat,
                |i: int|
                    bordered(
                        windows[i],
                        if i == 0 {
                            master_part(outer_area, config)
                        } else {
                            row(
                                stack_part(outer_area, config),
                                windows.len() - 1,
                                config.gap as int,
                                i - 1,
                            )
                        },
                        config,
                    ),
            ),
        decreases windows.len() - index,
    {
        assignments.push(
            TileAssignment {
                window: windows[index],
                rect: reserve_window_rect(rects[index - 1], config),
            },
        );
        index = index + 1;
    }
    assignments
}

/// Places windows as rows or as columns.
pub fn stack_assignments(
    work_area: Rect,
    windows: &[WindowHandle],
    config: LayoutConfig,
    axis: StackAxis,
) -> (r: Vec<TileAssignment>)
    requires
        windows.len() <= i32::MAX,
    ensures
        r@ == stacked(work_area, windows@, config, axis),
{
    let mut assignments: Vec<TileAssignment> = Vec::new();
    if work_area.is_empty() || windows.is_empty() {
        proof {
            assert(assignments@ =~= stacked(work_area, windows@, config, axis));
        }
        return assignments;
    }
    let config: LayoutConfig = config.normalized();
    let outer_area: Rect = work_area.inset(config.gap);
    let rects: Vec<Rect> = match axis {
        StackAxis::Rows => split_rows_with_gap(outer_area, windows.len(), config.gap),
        StackAxis::Columns => split_columns_with_gap(outer_area, windows.len(), config.gap),
    };
    let mut index: usize = 0;
    while index < windows.len()
        invariant
            index <= windows.len(),
            rects.len() == windows.len(),
            forall|i: int|
                0 <= i < rects.len() ==> #[trigger] rects[i] == match axis {
                    StackAxis::Rows => row(outer_area, windows.len() as int, config.gap as int, i),
                    StackAxis::Columns => column(
                        outer_area,
                        windows.len() as int,
                        config.gap as int,
                        i,
                    ),
                },
            assignments.len() == index,
            forall|i: int|
                0 <= i < index ==> #[trigger] assignments[i] == bordered(
                    windows[i],
                    rects[i],
                    config,
                ),
        decreases windows.len() - index,
    {
        assignments.push(
            TileAssignment {
                window: windows[index],
                rect: reserve_window_rect(rects[index], config),
            },
        );
        index = index + 1;
    }
    proof {
        assert(assignments@ =~= stacked(work_area, windows@, config, axis));
    }
    assignments
}

/// What the pieces before piece `index` and the gaps behind them take.
spec fn taken_before(available: int, count: int, gap: int, index: int) -> int {
    index * quotient_towards_zero(available, count) + min_int(
        index,
        remainder_towards_zero(available, count),
    ) + index * gap
}

proof fn lemma_taken_bound(available: int, count: int, gap: int, index: int)
    requires
        0 <= available,
        0 <= gap,
        0 <= index < count,
    ensures
        0 <= piece_length(available, count, index),
        0 <= taken_before(available, count, gap, index),
        taken_before(available, count, gap, index) + piece_length(available, count, index) + gap
            == taken_before(available, count, gap, index + 1),
        taken_before(available, count, gap, index) + piece_length(available, count, index)
            <= available + gap * index,
        index == count - 1 ==> taken_before(available, count, gap, index) + piece_length(
            available,
            count,
            index,
        ) == available + gap * index,
{
    let base = available / count;
    let rest = available % count;
    assert(available == base * count + rest && 0 <= rest < count && 0 <= base) by (nonlinear_arith)
        requires
            0 <= available,
            1 <= count,
            base == available / count,
            rest == available % count,
    ;
    assert((index + 1) * base == index * base + base) by (nonlinear_arith);
    assert((index + 1) * gap == index * gap + gap) by (nonlinear_arith);
    assert(index * gap == gap * index) by (nonlinear_arith);
    assert(0 <= index * base) by (nonlinear_arith)
        requires
            0 <= index,
            0 <= base,
    ;
    assert(0 <= index * gap) by (nonlinear_arith)
        requires
            0 <= index,
            0 <= gap,
    ;
    assert((index + 1) * base <= base * count) by (nonlinear_arith)
        requires
            index + 1 <= count,
            0 <= base,
    ;
    if index == count - 1 {
        assert((index + 1) * base == base * count) by (nonlinear_arith)
            requires
                index + 1 == count,
        ;
    }
}

/// Where pieces start when there is room for the gaps.
proof fn lemma_piece_start(start: int, total: int, count: int, gap: int, index: int)
    requires
        i32::MIN <= start,
        start + total <= i32::MAX,
        0 <= gap,
        gap * (count - 1) <= total <= i32::MAX,
        0 <= index < count,
    ensures
        shared_length(total, count, gap) == total - gap * (count - 1),
        piece_start(start, total - gap * (count - 1), count, gap, index) == start + taken_before(
            total - gap * (count - 1),
            count,
            gap,
            index,
        ),
        start + taken_before(total - gap * (count - 1), count, gap, index) + piece_length(
            total - gap * (count - 1),
            count,
            index,
        ) <= start + total,
    decreases index,
{
    let available = total - gap * (count - 1);
    assert(gap * (count - 1) >= 0) by (nonlinear_arith)
        requires
            gap >= 0,
            count >= 1,
    ;
    assert(gap * index <= gap * (count - 1)) by (nonlinear_arith)
        requires
            gap >= 0,
            index <= count - 1,
    ;
    lemma_taken_bound(available, count, gap, index);
    if index > 0 {
        lemma_piece_start(start, total, count, gap, index - 1);
        lemma_taken_bound(available, count, gap, index - 1);
        assert(gap * (index - 1) + gap == gap * index) by (nonlinear_arith);
    } else {
        assert(taken_before(available, count, gap, 0) == 0) by {
            assert(available % count >= 0) by (nonlinear_arith)
                requires
                    count >= 1,
            ;
        }
    }
}

/// The rows of an area that has room for the gaps fill it from top to bottom: the first starts at
/// its top, each next one starts `gap` pixels under the one before, and the last ends at its
/// bottom. Their heights differ by one pixel at most.
pub proof fn rows_fill_the_area(area: Rect, count: int, gap: int)
    requires
        !area.covers_nothing(),
        area.bottom - area.top <= i32::MAX,
        area.right - area.left <= i32::MAX,
        1 <= count,
        0 <= gap,
        gap * (count - 1) <= area.bottom - area.top,
    ensures
        row(area, count, gap, 0).top == area.top,
        row(area, count, gap, count - 1).bottom == area.bottom,
        forall|i: int|
            0 <= i < count ==> {
                let r = #[trigger] row(area, count, gap, i);
                r.within(area) && r.left == area.left && r.right == area.right && r.top <= r.bottom
            },
        forall|i: int, j: int|
            #![trigger row(area, count, gap, i), row(area, count, gap, j)]
            0 <= i < j < count ==> row(area, count, gap, i).bottom + gap <= row(
                area,
                count,
                gap,
                j,
            ).top,
        forall|i: int, j: int|
            #![trigger row(area, count, gap, i), row(area, count, gap, j)]
            0 <= i < count && j == i + 1 && j < count ==> row(area, count, gap, i).bottom + gap
                == row(area, count, gap, j).top,
        forall|i: int, j: int|
            #![trigger row(area, count, gap, i), row(area, count, gap, j)]
            0 <= i < j < count ==> row(area, count, gap, j).spec_height() <= row(
                area,
                count,
                gap,
                i,
            ).spec_height() <= row(area, count, gap, j).spec_height() + 1,
{
    let total = area.bottom - area.top;
    let available = total - gap * (count - 1);
    assert forall|i: int| 0 <= i < count implies {
        let r = #[trigger] row(area, count, gap, i);
        &&& r.top == area.top + taken_before(available, count, gap, i)
        &&& r.bottom == r.top + piece_length(available, count, i)
        &&& r.within(area) && r.left == area.left && r.right == area.right && r.top <= r.bottom
    } by {
        lemma_piece_start(area.top as int, total, count, gap, i);
        lemma_taken_bound(available, count, gap, i);
    }
    lemma_taken_bound(available, count, gap, 0);
    lemma_taken_bound(available, count, gap, count - 1);
    assert(gap * (count - 1) == gap * (count - 1));
    assert(taken_before(available, count, gap, 0) == 0) by {
        assert(available % count >= 0) by (nonlinear_arith)
            requires
                count >= 1,
        ;
    }
    assert(row(area, count, gap, count - 1).bottom == area.bottom);
    assert forall|i: int, j: int|
        #![trigger row(area, count, gap, i), row(area, count, gap, j)]
        0 <= i < j < count implies row(area, count, gap, i).bottom + gap <= row(
        area,
        count,
        gap,
        j,
    ).top by {
        lemma_taken_bound(available, count, gap, i);
        lemma_taken_monotone(available, count, gap, i + 1, j);
    }
    assert forall|i: int, j: int|
        #![trigger row(area, count, gap, i), row(area, count, gap, j)]
        0 <= i < count && j == i + 1 && j < count implies row(area, count, gap, i).bottom + gap
        == row(area, count, gap, j).top by {
        lemma_taken_bound(available, count, gap, i);
    }
}

proof fn lemma_taken_monotone(available: int, count: int, gap: int, i: int, j: int)
    requires
        0 <= available,
        0 <= gap,
        0 <= i <= j < count,
    ensures
        taken_before(available, count, gap, i) <= taken_before(available, count, gap, j),
    decreases j,
{
    if i < j {
        lemma_taken_monotone(available, count, gap, i, j - 1);
        lemma_taken_bound(available, count, gap, j - 1);
    }
}

/// The columns of an area that has room for the gaps fill it from left to right: the first starts
/// at its left edge, each next one starts `gap` pixels to the right of the one before, and the
/// last ends at its right edge. Their widths differ by one pixel at most.
pub proof fn columns_fill_the_area(area: Rect, count: int, gap: int)
    requires
        !area.covers_nothing(),
        area.bottom - area.top <= i32::MAX,
        area.right - area.left <= i32::MAX,
        1 <= count,
        0 <= gap,
        gap * (count - 1) <= area.right - area.left,
    ensures
        column(area, count, gap, 0).left == area.left,
        column(area, count, gap, count - 1).right == area.right,
        forall|i: int|
            0 <= i < count ==> {
                let r = #[trigger] column(area, count, gap, i);
                r.within(area) && r.top == area.top && r.bottom == area.bottom && r.left <= r.right
            },
        forall|i: int, j: int|
            #![trigger column(area, count, gap, i), column(area, count, gap, j)]
            0 <= i < j < count ==> column(area, count, gap, i).right + gap <= column(
                area,
                count,
                gap,
                j,
            ).left,
        forall|i: int, j: int|
            #![trigger column(area, count, gap, i), column(area, count, gap, j)]
            0 <= i < count && j == i + 1 && j < count ==> column(area, count, gap, i).right + gap
                == column(area, count, gap, j).left,
        forall|i: int, j: int|
            #![trigger column(area, count, gap, i), column(area, count, gap, j)]
            0 <= i < j < count ==> column(area, count, gap, j).spec_width() <= column(
                area,
                count,
                gap,
                i,
            ).spec_width() <= column(area, count, gap, j).spec_width() + 1,
{
    let total = area.right - area.left;
    let available = total - gap * (count - 1);
    assert forall|i: int| 0 <= i < count implies {
        let r = #[trigger] column(area, count, gap, i);
        &&& r.left == area.left + taken_before(available, count, gap, i)
        &&& r.right == r.left + piece_length(available, count, i)
        &&& r.within(area) && r.top == area.top && r.bottom == area.bottom && r.left <= r.right
    } by {
        lemma_piece_start(area.left as int, total, count, gap, i);
        lemma_taken_bound(available, count, gap, i);
    }
    lemma_taken_bound(available, count, gap, 0);
    lemma_taken_bound(available, count, gap, count - 1);
    assert(taken_before(available, count, gap, 0) == 0) by {
        assert(available % count >= 0) by (nonlinear_arith)
            requires
                count >= 1,
        ;
    }
    assert(column(area, count, gap, count - 1).right == area.right);
    assert forall|i: int, j: int|
        #![trigger column(area, count, gap, i), column(area, count, gap, j)]
        0 <= i < j < count implies column(area, count, gap, i).right + gap <= column(
        area,
        count,
        gap,
        j,
    ).left by {
        lemma_taken_bound(available, count, gap, i);
        lemma_taken_monotone(available, count, gap, i + 1, j);
    }
    assert forall|i: int, j: int|
        #![trigger column(area, count, gap, i), column(area, count, gap, j)]
        0 <= i < count && j == i + 1 && j < count implies column(area, count, gap, i).right + gap
        == column(area, count, gap, j).left by {
        lemma_taken_bound(available, count, gap, i);
    }
}

/// Rectangles that are apart stay apart when borders are taken away from them.
proof fn lemma_borders_keep_apart(
    rects: Seq<Rect>,
    placed: Seq<TileAssignment>,
    area: Rect,
    border: int,
)
    requires
        border >= 0,
        placed.len() == rects.len(),
        forall|i: int| 0 <= i < rects.len() ==> (#[trigger] rects[i]).within(area),
        forall|i: int, j: int|
            0 <= i < j < rects.len() ==> (#[trigger] rects[i]).apart_from(#[trigger] rects[j]),
        forall|i: int|
            0 <= i < placed.len() ==> (#[trigger] placed[i]).rect == rects[i].shrunk(border),
    ensures
        forall|i: int| 0 <= i < placed.len() ==> (#[trigger] placed[i]).rect.within(area),
        forall|i: int, j: int|
            0 <= i < j < placed.len() ==> (#[trigger] placed[i]).rect.apart_from(
                (#[trigger] placed[j]).rect,
            ),
{
    assert forall|i: int| 0 <= i < placed.len() implies (#[trigger] placed[i]).rect.within(
        area,
    ) by {
        assert(rects[i].within(area));
    }
    assert forall|i: int, j: int| 0 <= i < j < placed.len() implies (
    #[trigger] placed[i]).rect.apart_from((#[trigger] placed[j]).rect) by {
        let a = rects[i];
        let b = rects[j];
        assert(a.apart_from(b));
        assert forall|x: int, y: int| !(#[trigger] placed[i].rect.covers(x, y)
            && placed[j].rect.covers(x, y)) by {
            assert(placed[i].rect.covers(x, y) ==> a.covers(x, y));
            assert(placed[j].rect.covers(x, y) ==> b.covers(x, y));
        }
    }
}

proof fn lemma_rows_apart(area: Rect, count: int, gap: int)
    requires
        !area.covers_nothing(),
        area.bottom - area.top <= i32::MAX,
        area.right - area.left <= i32::MAX,
        1 <= count,
        0 <= gap,
        gap * (count - 1) <= area.bottom - area.top,
    ensures
        forall|i: int| 0 <= i < count ==> (#[trigger] row(area, count, gap, i)).within(area),
        forall|i: int, j: int|
            0 <= i < j < count ==> (#[trigger] row(area, count, gap, i)).apart_from(
                #[trigger] row(area, count, gap, j),
            ),
{
    rows_fill_the_area(area, count, gap);
    assert forall|i: int, j: int| 0 <= i < j < count implies (#[trigger] row(
        area,
        count,
        gap,
        i,
    )).apart_from(#[trigger] row(area, count, gap, j)) by {
        let a = row(area, count, gap, i);
        let b = row(area, count, gap, j);
        assert(a.bottom + gap <= b.top);
    }
}

proof fn lemma_columns_apart(area: Rect, count: int, gap: int)
    requires
        !area.covers_nothing(),
        area.bottom - area.top <= i32::MAX,
        area.right - area.left <= i32::MAX,
        1 <= count,
        0 <= gap,
        gap * (count - 1) <= area.right - area.left,
    ensures
        forall|i: int| 0 <= i < count ==> (#[trigger] column(area, count, gap, i)).within(area),
        forall|i: int, j: int|
            0 <= i < j < count ==> (#[trigger] column(area, count, gap, i)).apart_from(
                #[trigger] column(area, count, gap, j),
            ),
{
    columns_fill_the_area(area, count, gap);
    assert forall|i: int, j: int| 0 <= i < j < count implies (#[trigger] column(
        area,
        count,
        gap,
        i,
    )).apart_from(#[trigger] column(area, count, gap, j)) by {
        let a = column(area, count, gap, i);
        let b = column(area, count, gap, j);
        assert(a.right + gap <= b.left);
    }
}

/// Where there is room for the gaps, the tiles of a stack lie in the work area and no two of them
/// overlap.
pub proof fn stacked_tiles_are_apart(
    work_area: Rect,
    windows: Seq<WindowHandle>,
    config: LayoutConfig,
    axis: StackAxis,
)
    requires
        !work_area.covers_nothing(),
        work_area.right - work_area.left <= i32::MAX,
        work_area.bottom - work_area.top <= i32::MAX,
        ({
            let gap = config.spec_normalized().gap as int;
            let outer = work_area.shrunk(gap);
            gap * (windows.len() - 1) <= match axis {
                StackAxis::Rows => outer.bottom - outer.top,
                StackAxis::Columns => outer.right - outer.left,
            }
        }),
    ensures
        ({
            let placed = stacked(work_area, windows, config, axis);
            &&& forall|i: int|
                0 <= i < placed.len() ==> (#[trigger] placed[i]).rect.within(work_area)
            &&& forall|i: int, j: int|
                0 <= i < j < placed.len() ==> (#[trigger] placed[i]).rect.apart_from(
                    (#[trigger] placed[j]).rect,
                )
        }),
{
    let normal = config.spec_normalized();
    let gap = normal.gap as int;
    let outer = work_area.shrunk(gap);
    let count = windows.len() as int;
    let placed = stacked(work_area, windows, config, axis);
    if count > 0 {
        let rects = match axis {
            StackAxis::Rows => {
                lemma_rows_apart(outer, count, gap);
                Seq::new(count as nat, |i: int| row(outer, count, gap, i))
            },
            StackAxis::Columns => {
                lemma_columns_apart(outer, count, gap);
                Seq::new(count as nat, |i: int| column(outer, count, gap, i))
            },
        };
        lemma_borders_keep_apart(rects, placed, outer, normal.border as int);
    }
}

/// Where there is room, master and stack lie beside each other in the outer area, `gap` pixels apart.
pub proof fn lemma_stack_part(outer: Rect, config: LayoutConfig)
    requires
        config.is_normal(),
        !outer.covers_nothing(),
        outer.right - outer.left <= i32::MAX,
        outer.bottom - outer.top <= i32::MAX,
        master_room(outer, config.gap as int) > 0,
    ensures
        master_part(outer, config).within(outer),
        stack_part(outer, config).within(outer),
        !stack_part(outer, config).covers_nothing(),
        master_part(outer, config).right <= stack_part(outer, config).left,
{
    let room = master_room(outer, config.gap as int);
    let percent = config.master_ratio_percent as int;
    assert(room * percent <= room * 90) by (nonlinear_arith)
        requires
            room > 0,
            percent <= 90,
    ;
    lemma_scaled_bounds(room, percent);
    assert(scaled(room, percent) < room);
}

/// Where there is room for the gaps, the tiles of the master-stack layout lie in the work area and
/// no two of them overlap.
pub proof fn master_stack_tiles_are_apart(
    work_area: Rect,
    windows: Seq<WindowHandle>,
    config: LayoutConfig,
)
    requires
        !work_area.covers_nothing(),
        work_area.right - work_area.left <= i32::MAX,
        work_area.bottom - work_area.top <= i32::MAX,
        ({
            let gap = config.spec_normalized().gap as int;
            let outer = work_area.shrunk(gap);
            windows.len() > 1 ==> gap * (windows.len() - 2) <= outer.bottom - outer.top
        }),
    ensures
        ({
            let placed = master_stack(work_area, windows, config);
            &&& forall|i: int|
                0 <= i < placed.len() ==> (#[trigger] placed[i]).rect.within(work_area)
            &&& forall|i: int, j: int|
                0 <= i < j < placed.len() ==> (#[trigger] placed[i]).rect.apart_from(
                    (#[trigger] placed[j]).rect,
                )
        }),
{
    let normal = config.spec_normalized();
    let gap = normal.gap as int;
    let outer = work_area.shrunk(gap);
    let placed = master_stack(work_area, windows, config);
    if windows.len() > 1 && master_room(outer, gap) > 0 {
        let count = windows.len() - 1;
        let stack = stack_part(outer, normal);
        let master = master_part(outer, normal);
        lemma_stack_part(outer, normal);
        lemma_rows_apart(stack, count, gap);
        let rects = Seq::new(
            windows.len(),
            |i: int|
                if i == 0 {
                    master
                } else {
                    row(stack, count, gap, i - 1)
                },
        );
        assert forall|i: int| 0 <= i < rects.len() implies (#[trigger] rects[i]).within(outer) by {
            if i > 0 {
                assert(row(stack, count, gap, i - 1).within(stack));
            }
        }
        assert forall|i: int, j: int| 0 <= i < j < rects.len() implies (
        #[trigger] rects[i]).apart_from(#[trigger] rects[j]) by {
            assert(row(stack, count, gap, j - 1).within(stack));
            if i > 0 {
                assert(row(stack, count, gap, i - 1).apart_from(row(stack, count, gap, j - 1)));
            }
        }
        lemma_borders_keep_apart(rects, placed, outer, normal.border as int);
    }
}

} // verus!
