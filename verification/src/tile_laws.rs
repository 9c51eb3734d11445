//! Where each layout puts its windows.

use vstd::prelude::*;

use crate::dwindle::{
    cut, dwindle_tree, grown, missing_count, never_new, remembered_tree, root_of, root_target, split_edge,
    split_target, tile_under, DwindleSplit, DwindleTree,
};
use crate::dwindle_geometry::cut_divides_the_rect;
use crate::geometry::{Point, Rect, TileAssignment, WindowHandle};
use crate::layout::{row, LayoutConfig, LayoutKind, SplitDirection};
use crate::size::{Size, WindowSizeConstraints};
use crate::stack::{
    columns_fill_the_area, lemma_stack_part, master_part, master_stack, rows_fill_the_area, stack_part,
    stacked, StackAxis,
};
use crate::tile::laid_out;
use crate::tiling::{layout_tiles, limits_for, tiles_fit, WindowLayoutInfo};

verus! {

/// A rectangle that is inset has each edge moved in by the amount, where a pixel is left between them. A
/// negative amount moves none.
pub proof fn inset_moves_each_edge(rect: Rect, amount: int)
    requires
        rect.right - rect.left <= i32::MAX,
        rect.bottom - rect.top <= i32::MAX,
    ensures
        0 <= amount && 2 * amount < rect.right - rect.left ==> rect.shrunk(amount).left == rect.left
            + amount && rect.shrunk(amount).right == rect.right - amount,
        0 <= amount && 2 * amount < rect.bottom - rect.top ==> rect.shrunk(amount).top == rect.top
            + amount && rect.shrunk(amount).bottom == rect.bottom - amount,
        amount <= 0 ==> rect.shrunk(amount) == rect,
{
}

/// In the master-stack layout the first window stands at the left with the share of the width that is
/// set, over the whole height. The others stand to its right, from top to bottom in their order, over
/// the rest of the width, and share the height so that no two differ by more than a pixel. There is a
/// gap between neighbours and along the edges of the work area.
#[verifier::rlimit(50)]
pub proof fn master_stands_left_of_the_stack(
    work_area: Rect,
    windows: Seq<WindowHandle>,
    config: LayoutConfig,
    cursor: Option<Point>,
    splits: Seq<DwindleSplit>,
    i: int,
    j: int,
)
    requires
        config.kind == LayoutKind::MasterStack,
        config.gap >= 0,
        config.border == 0,
        10 <= config.master_ratio_percent <= 90,
        windows.len() >= 2,
        work_area.right - work_area.left <= i32::MAX,
        work_area.bottom - work_area.top <= i32::MAX,
        work_area.right - work_area.left > 3 * config.gap,
        work_area.bottom - work_area.top > 2 * config.gap,
        config.gap * (windows.len() - 2) <= work_area.bottom - work_area.top - 2 * config.gap,
        1 <= i < j < windows.len(),
    ensures
        ({
            let tiles = laid_out(work_area, windows, config, cursor, splits);
            let gap = config.gap;
            let master = tiles[0].rect;
            let width = work_area.right - work_area.left - 3 * gap;
            &&& tiles.len() == windows.len()
            &&& tiles[0].window == windows[0] && tiles[i].window == windows[i]
            &&& master.left == work_area.left + gap
            &&& master.top == work_area.top + gap
            &&& master.bottom == work_area.bottom - gap
            &&& master.right == master.left + width * config.master_ratio_percent / 100
            &&& tiles[i].rect.left == master.right + gap
            &&& tiles[i].rect.right == work_area.right - gap
            &&& tiles[1].rect.top == work_area.top + gap
            &&& tiles[windows.len() - 1].rect.bottom == work_area.bottom - gap
            &&& tiles[i].rect.bottom + gap <= tiles[j].rect.top
            &&& j == i + 1 ==> tiles[i].rect.bottom + gap == tiles[j].rect.top
            &&& 0 <= (tiles[i].rect.bottom - tiles[i].rect.top) - (tiles[j].rect.bottom
                - tiles[j].rect.top) <= 1
        }),
{
    let outer = work_area.shrunk(config.gap as int);
    assert(config.spec_normalized().gap == config.gap);
    inset_moves_each_edge(work_area, config.gap as int);
    let normal = config.spec_normalized();
    let room = work_area.right - work_area.left - 3 * config.gap;
    assert(room * config.master_ratio_percent >= 0) by (nonlinear_arith)
        requires
            room > 0,
            config.master_ratio_percent >= 10,
    ;
    lemma_stack_part(outer, normal);
    let stack = stack_part(outer, normal);
    let count = windows.len() - 1;
    rows_fill_the_area(stack, count, config.gap as int);
    lemma_unshrunk(master_part(outer, normal));
    lemma_unshrunk(row(stack, count, config.gap as int, 0));
    lemma_unshrunk(row(stack, count, config.gap as int, count - 1));
    lemma_unshrunk(row(stack, count, config.gap as int, i - 1));
    lemma_unshrunk(row(stack, count, config.gap as int, j - 1));
}

proof fn lemma_unshrunk(rect: Rect)
    ensures
        rect.shrunk(0) == rect,
{
}

/// In the vertical stack the windows stand one below the other in their order, each over the whole width;
/// in the horizontal stack they stand side by side from left to right, each over the whole height.
#[verifier::rlimit(50)]
pub proof fn stacks_stand_in_rows_or_columns(
    work_area: Rect,
    windows: Seq<WindowHandle>,
    config: LayoutConfig,
    cursor: Option<Point>,
    splits: Seq<DwindleSplit>,
    i: int,
    j: int,
)
    requires
        config.kind == LayoutKind::VerticalStack || config.kind == LayoutKind::HorizontalStack,
        config.gap >= 0,
        config.border == 0,
        work_area.right - work_area.left <= i32::MAX,
        work_area.bottom - work_area.top <= i32::MAX,
        work_area.right - work_area.left > 2 * config.gap,
        work_area.bottom - work_area.top > 2 * config.gap,
        config.kind == LayoutKind::VerticalStack ==> config.gap * (windows.len() - 1) <= work_area.bottom
            - work_area.top - 2 * config.gap,
        config.kind == LayoutKind::HorizontalStack ==> config.gap * (windows.len() - 1)
            <= work_area.right - work_area.left - 2 * config.gap,
        0 <= i < j < windows.len(),
    ensures
        ({
            let tiles = laid_out(work_area, windows, config, cursor, splits);
            let gap = config.gap;
            let first = tiles[0].rect;
            let last = tiles[windows.len() - 1].rect;
            let a = tiles[i].rect;
            let b = tiles[j].rect;
            &&& tiles.len() == windows.len()
            &&& tiles[i].window == windows[i] && tiles[j].window == windows[j]
            &&& config.kind == LayoutKind::VerticalStack ==> {
                &&& a.left == work_area.left + gap && a.right == work_area.right - gap
                &&& first.top == work_area.top + gap && last.bottom == work_area.bottom - gap
                &&& a.bottom + gap <= b.top
                &&& j == i + 1 ==> a.bottom + gap == b.top
                &&& 0 <= (a.bottom - a.top) - (b.bottom - b.top) <= 1
            }
            &&& config.kind == LayoutKind::HorizontalStack ==> {
                &&& a.top == work_area.top + gap && a.bottom == work_area.bottom - gap
                &&& first.left == work_area.left + gap && last.right == work_area.right - gap
                &&& a.right + gap <= b.left
                &&& j == i + 1 ==> a.right + gap == b.left
                &&& 0 <= (a.right - a.left) - (b.right - b.left) <= 1
            }
        }),
{
    let outer = work_area.shrunk(config.gap as int);
    assert(config.spec_normalized().gap == config.gap);
    inset_moves_each_edge(work_area, config.gap as int);
    let count = windows.len() as int;
    let gap = config.gap as int;
    if config.kind == LayoutKind::VerticalStack {
        rows_fill_the_area(outer, count, gap);
        lemma_unshrunk(row(outer, count, gap, 0));
        lemma_unshrunk(row(outer, count, gap, count - 1));
        lemma_unshrunk(row(outer, count, gap, i));
        lemma_unshrunk(row(outer, count, gap, j));
    } else {
        columns_fill_the_area(outer, count, gap);
        lemma_unshrunk(crate::layout::column(outer, count, gap, 0));
        lemma_unshrunk(crate::layout::column(outer, count, gap, count - 1));
        lemma_unshrunk(crate::layout::column(outer, count, gap, i));
        lemma_unshrunk(crate::layout::column(outer, count, gap, j));
    }
}

/// A window that is alone takes the work area up to the gap, in every layout.
pub proof fn single_window_takes_the_work_area(
    work_area: Rect,
    window: WindowHandle,
    config: LayoutConfig,
    cursor: Option<Point>,
    splits: Seq<DwindleSplit>,
)
    requires
        config.gap >= 0,
        config.border == 0,
        work_area.right - work_area.left <= i32::MAX,
        work_area.bottom - work_area.top <= i32::MAX,
        work_area.right - work_area.left > 2 * config.gap,
        work_area.bottom - work_area.top > 2 * config.gap,
    ensures
        ({
            let tiles = laid_out(work_area, seq![window], config, cursor, splits);
            &&& tiles.len() == 1
            &&& tiles[0].window == window
            &&& tiles[0].rect.left == work_area.left + config.gap
            &&& tiles[0].rect.top == work_area.top + config.gap
            &&& tiles[0].rect.right == work_area.right - config.gap
            &&& tiles[0].rect.bottom == work_area.bottom - config.gap
        }),
{
    let outer = work_area.shrunk(config.gap as int);
    inset_moves_each_edge(work_area, config.gap as int);
    lemma_unshrunk(outer);
    rows_fill_the_area(outer, 1, config.gap as int);
    columns_fill_the_area(outer, 1, config.gap as int);
    let alone = row(outer, 1, config.gap as int, 0);
    let beside = crate::layout::column(outer, 1, config.gap as int, 0);
    lemma_unshrunk(alone);
    lemma_unshrunk(beside);
}

/// A border takes its width from each side of every tile and changes nothing else.
#[verifier::rlimit(50)]
pub proof fn border_is_taken_from_each_tile(
    work_area: Rect,
    windows: Seq<WindowHandle>,
    config: LayoutConfig,
    cursor: Option<Point>,
    splits: Seq<DwindleSplit>,
    i: int,
)
    requires
        config.kind != LayoutKind::Dwindle,
        config.border >= 0,
        0 <= i < laid_out(work_area, windows, config, cursor, splits).len(),
    ensures
        ({
            let with = laid_out(work_area, windows, config, cursor, splits);
            let without = laid_out(
                work_area,
                windows,
                LayoutConfig { border: 0, ..config },
                cursor,
                splits,
            );
            &&& with.len() == without.len()
            &&& with[i].window == without[i].window
            &&& with[i].rect == without[i].rect.shrunk(config.border as int)
        }),
{
    match config.kind {
        LayoutKind::MasterStack => {
            lemma_master_border(work_area, windows, config, i);
        },
        LayoutKind::VerticalStack => {
            lemma_stack_border(work_area, windows, config, StackAxis::Rows, i);
        },
        _ => {
            lemma_stack_border(work_area, windows, config, StackAxis::Columns, i);
        },
    }
}

proof fn lemma_master_border(
    work_area: Rect,
    windows: Seq<WindowHandle>,
    config: LayoutConfig,
    i: int,
)
    requires
        config.border >= 0,
        0 <= i < master_stack(work_area, windows, config).len(),
    ensures
        ({
            let with = master_stack(work_area, windows, config);
            let without = master_stack(work_area, windows, LayoutConfig { border: 0, ..config });
            &&& with.len() == without.len()
            &&& with[i].window == without[i].window
            &&& with[i].rect == without[i].rect.shrunk(config.border as int)
        }),
{
    let normal = config.spec_normalized();
    let plain = (LayoutConfig { border: 0, ..config }).spec_normalized();
    let outer = work_area.shrunk(normal.gap as int);
    assert(master_part(outer, plain) == master_part(outer, normal));
    assert(stack_part(outer, plain) == stack_part(outer, normal));
    lemma_unshrunk(outer);
    lemma_unshrunk(master_part(outer, normal));
    lemma_unshrunk(
        row(stack_part(outer, normal), windows.len() - 1, normal.gap as int, i - 1),
    );
}

proof fn lemma_stack_border(
    work_area: Rect,
    windows: Seq<WindowHandle>,
    config: LayoutConfig,
    axis: StackAxis,
    i: int,
)
    requires
        config.border >= 0,
        0 <= i < stacked(work_area, windows, config, axis).len(),
    ensures
        ({
            let with = stacked(work_area, windows, config, axis);
            let without = stacked(work_area, windows, LayoutConfig { border: 0, ..config }, axis);
            &&& with.len() == without.len()
            &&& with[i].window == without[i].window
            &&& with[i].rect == without[i].rect.shrunk(config.border as int)
        }),
{
    let normal = config.spec_normalized();
    let outer = work_area.shrunk(normal.gap as int);
    lemma_unshrunk(row(outer, windows.len() as int, normal.gap as int, i));
    lemma_unshrunk(crate::layout::column(outer, windows.len() as int, normal.gap as int, i));
}

/// Two windows in the dwindle layout, or a window and the one that joins it, share a rectangle: the part
/// at the left or at the top has the share that is set, and the window that joins takes the part at the
/// edge that it is drawn to.
#[verifier::rlimit(50)]
pub proof fn split_gives_the_first_part_its_share(
    rect: Rect,
    direction: SplitDirection,
    config: LayoutConfig,
)
    requires
        0 <= rect.right - rect.left <= i32::MAX,
        0 <= rect.bottom - rect.top <= i32::MAX,
        0 <= config.gap,
        0 <= config.border,
        10 <= config.master_ratio_percent <= 90,
        config.smart_split ==> config.preserve_split,
        direction is Left || direction is Right ==> rect.right - rect.left > config.gap,
        direction is Up || direction is Down ==> rect.bottom - rect.top > config.gap,
    ensures
        ({
            let (kept, taken) = cut(rect, direction, config);
            let width = (rect.right - rect.left - config.gap) * config.master_ratio_percent / 100;
            let height = (rect.bottom - rect.top - config.gap) * config.master_ratio_percent / 100;
            match direction {
                SplitDirection::Right => {
                    &&& kept.left == rect.left && kept.right == rect.left + width
                    &&& taken.left == kept.right + config.gap && taken.right == rect.right
                    &&& kept.top == rect.top && kept.bottom == rect.bottom
                    &&& taken.top == rect.top && taken.bottom == rect.bottom
                },
                SplitDirection::Left => {
                    &&& taken.left == rect.left && taken.right == rect.left + width
                    &&& kept.left == taken.right + config.gap && kept.right == rect.right
                    &&& kept.top == rect.top && kept.bottom == rect.bottom
                    &&& taken.top == rect.top && taken.bottom == rect.bottom
                },
                SplitDirection::Down => {
                    &&& kept.top == rect.top && kept.bottom == rect.top + height
                    &&& taken.top == kept.bottom + config.gap && taken.bottom == rect.bottom
                    &&& kept.left == rect.left && kept.right == rect.right
                    &&& taken.left == rect.left && taken.right == rect.right
                },
                SplitDirection::Up => {
                    &&& taken.top == rect.top && taken.bottom == rect.top + height
                    &&& kept.top == taken.bottom + config.gap && kept.bottom == rect.bottom
                    &&& kept.left == rect.left && kept.right == rect.right
                    &&& taken.left == rect.left && taken.right == rect.right
                },
            }
        }),
{
    cut_divides_the_rect(rect, direction, config);
    let room = if direction is Left || direction is Right {
        rect.right - rect.left - config.gap
    } else {
        rect.bottom - rect.top - config.gap
    };
    let ratio = config.master_ratio_percent as int;
    assert(0 <= room * ratio <= room * 100) by (nonlinear_arith)
        requires
            room > 0,
            10 <= ratio <= 90,
    ;
}

/// A tile is split where it is longer: side by side if it is at least as wide as high, and one below the
/// other otherwise. Only where splits are smart and the cursor is in the tile does the cursor decide.
pub proof fn tile_is_split_where_it_is_longer(rect: Rect, config: LayoutConfig, cursor: Option<Point>)
    requires
        0 <= rect.right - rect.left <= i32::MAX,
        0 <= rect.bottom - rect.top <= i32::MAX,
        cursor is None || !config.smart_split || !rect.covers(
            cursor.unwrap().x as int,
            cursor.unwrap().y as int,
        ),
    ensures
        rect.right - rect.left >= rect.bottom - rect.top ==> split_edge(rect, config, cursor)
            == SplitDirection::Right,
        rect.right - rect.left < rect.bottom - rect.top ==> split_edge(rect, config, cursor)
            == SplitDirection::Down,
{
}

/// The tile that a window joins is the first one under the cursor, where the cursor counts and one is
/// under it, and the last one otherwise.
pub proof fn window_joins_the_tile_under_the_cursor(
    tiles: Seq<TileAssignment>,
    cursor: Option<Point>,
    at: int,
)
    requires
        0 <= at < tiles.len(),
    ensures
        split_target(tiles, false, cursor) == tiles[tiles.len() - 1],
        split_target(tiles, true, None) == tiles[tiles.len() - 1],
        cursor matches Some(point) ==> {
            let under = |i: int|
                tiles[i].rect.left <= point.x < tiles[i].rect.right && tiles[i].rect.top <= point.y
                    < tiles[i].rect.bottom;
            &&& under(at) && (forall|i: int| 0 <= i < at ==> !#[trigger] under(i)) ==> split_target(
                tiles,
                true,
                cursor,
            ) == tiles[at]
            &&& (forall|i: int| 0 <= i < tiles.len() ==> !#[trigger] under(i)) ==> split_target(
                tiles,
                true,
                cursor,
            ) == tiles[tiles.len() - 1]
        },
{
    if let Some(point) = cursor {
        let under = |i: int|
            tiles[i].rect.left <= point.x < tiles[i].rect.right && tiles[i].rect.top <= point.y
                < tiles[i].rect.bottom;
        if under(at) && (forall|i: int| 0 <= i < at ==> !#[trigger] under(i)) {
            assert forall|i: int| 0 <= i < at implies !(#[trigger] tiles[i]).rect.covers(
                point.x as int,
                point.y as int,
            ) by {
                assert(!under(i));
            }
            lemma_tile_under(tiles, point, 0, at);
        }
        if forall|i: int| 0 <= i < tiles.len() ==> !#[trigger] under(i) {
            assert forall|i: int| 0 <= i < tiles.len() implies !(#[trigger] tiles[i]).rect.covers(
                point.x as int,
                point.y as int,
            ) by {
                assert(!under(i));
            }
            lemma_no_tile_under(tiles, point, 0);
        }
    }
}

proof fn lemma_tile_under(tiles: Seq<TileAssignment>, point: Point, from: int, at: int)
    requires
        0 <= from <= at < tiles.len(),
        tiles[at].rect.covers(point.x as int, point.y as int),
        forall|i: int|
            from <= i < at ==> !(#[trigger] tiles[i]).rect.covers(point.x as int, point.y as int),
    ensures
        tile_under(tiles, point, from) == Some(tiles[at]),
    decreases at - from,
{
    if from < at {
        lemma_tile_under(tiles, point, from + 1, at);
    }
}

proof fn lemma_no_tile_under(tiles: Seq<TileAssignment>, point: Point, from: int)
    requires
        0 <= from <= tiles.len(),
        forall|i: int|
            0 <= i < tiles.len() ==> !(#[trigger] tiles[i]).rect.covers(point.x as int, point.y as int),
    ensures
        tile_under(tiles, point, from) is None,
    decreases tiles.len() - from,
{
    if from < tiles.len() {
        lemma_no_tile_under(tiles, point, from + 1);
    }
}

/// Tiles fit a work area exactly if no edge of one lies beyond that of the area.
pub proof fn tiles_fit_inside_the_edges(work_area: Rect, tiles: Seq<TileAssignment>, i: int)
    requires
        0 <= i < tiles.len(),
    ensures
        tiles_fit(work_area, tiles) ==> work_area.left <= tiles[i].rect.left && work_area.top
            <= tiles[i].rect.top && tiles[i].rect.right <= work_area.right && tiles[i].rect.bottom
            <= work_area.bottom,
        tiles[i].rect.left < work_area.left || tiles[i].rect.top < work_area.top || tiles[i].rect.right
            > work_area.right || tiles[i].rect.bottom > work_area.bottom ==> !tiles_fit(
            work_area,
            tiles,
        ),
{
}

/// The limits that count for a window are those listed with it, the last ones where it is listed twice; a
/// window that is not listed has none.
pub proof fn limits_are_those_listed_with_the_window(
    windows: Seq<WindowLayoutInfo>,
    window: WindowHandle,
    at: int,
)
    ensures
        0 <= at < windows.len() && windows[at].handle == window && (forall|i: int|
            at < i < windows.len() ==> (#[trigger] windows[i]).handle != window) ==> limits_for(
            windows,
            window,
        ) == windows[at].size_constraints,
        (forall|i: int| 0 <= i < windows.len() ==> (#[trigger] windows[i]).handle != window)
            ==> limits_for(windows, window) == (WindowSizeConstraints {
            min: Size { width: 0, height: 0 },
            max: None,
        }),
    decreases windows.len(),
{
    if windows.len() > 0 {
        let rest = windows.drop_last();
        limits_are_those_listed_with_the_window(rest, window, at);
        assert(forall|i: int| 0 <= i < rest.len() ==> #[trigger] rest[i] == windows[i]);
        assert(windows[windows.len() - 1] == windows.last());
    }
}

/// Each tile is at least as large as its window needs it, as far as numbers reach.
pub proof fn tiles_are_as_large_as_windows_need_them(
    work_area: Rect,
    windows: Seq<WindowLayoutInfo>,
    config: LayoutConfig,
    cursor: Option<Point>,
    splits: Seq<DwindleSplit>,
    i: int,
)
    requires
        0 <= i < layout_tiles(work_area, windows, config, cursor, splits).len(),
        ({
            let tile = layout_tiles(work_area, windows, config, cursor, splits)[i];
            let least = limits_for(windows, tile.window).min;
            &&& 0 <= least.width && tile.rect.left + least.width <= i32::MAX
            &&& 0 <= least.height && tile.rect.top + least.height <= i32::MAX
        }),
    ensures
        ({
            let tile = layout_tiles(work_area, windows, config, cursor, splits)[i];
            let least = limits_for(windows, tile.window).min;
            &&& tile.rect.right - tile.rect.left >= least.width || tile.rect.right == i32::MAX
            &&& tile.rect.bottom - tile.rect.top >= least.height || tile.rect.bottom == i32::MAX
        }),
{
    reveal(layout_tiles);
    let balanced = crate::tiling::balanced(
        windows,
        laid_out(work_area, crate::tiling::layout_handles(windows), config, cursor, splits),
        config,
    );
    let before = balanced[i];
    crate::tiling::tiles_respect_least_sizes(
        before.rect,
        crate::tiling::least_size(windows, before.window),
    );
}

/// In the master-stack layout the master gives the stack what it needs, or takes what it needs itself, by
/// moving the edge between them: what the one gains in width the others lose.
pub proof fn master_and_stack_share_the_width(
    windows: Seq<WindowLayoutInfo>,
    tiles: Seq<TileAssignment>,
    config: LayoutConfig,
    i: int,
)
    requires
        config.kind == LayoutKind::MasterStack,
        1 <= i < tiles.len(),
        i32::MIN <= tiles[0].rect.right + crate::tiling::master_shift(windows, tiles) <= i32::MAX,
        i32::MIN <= tiles[i].rect.left + crate::tiling::master_shift(windows, tiles) <= i32::MAX,
    ensures
        ({
            let shared = crate::tiling::balanced(windows, tiles, config);
            let shift = shared[0].rect.right - tiles[0].rect.right;
            &&& shared.len() == tiles.len()
            &&& shared[0].window == tiles[0].window && shared[i].window == tiles[i].window
            &&& shared[i].rect.left - tiles[i].rect.left == shift
            &&& shared[0].rect.left == tiles[0].rect.left && shared[i].rect.right == tiles[i].rect.right
            &&& shared[0].rect.top == tiles[0].rect.top && shared[0].rect.bottom == tiles[0].rect.bottom
            &&& shared[i].rect.top == tiles[i].rect.top && shared[i].rect.bottom == tiles[i].rect.bottom
        }),
{
}

/// Layouts other than the master-stack layout leave the widths as they are, whatever the limits.
pub proof fn other_layouts_share_no_width(
    windows: Seq<WindowLayoutInfo>,
    tiles: Seq<TileAssignment>,
    config: LayoutConfig,
)
    requires
        config.kind != LayoutKind::MasterStack || tiles.len() < 2,
    ensures
        crate::tiling::balanced(windows, tiles, config) == tiles,
{
}

proof fn lemma_cursor_does_not_count(
    tree: DwindleTree,
    windows: Seq<WindowHandle>,
    outer: Rect,
    config: LayoutConfig,
    cursor: Option<Point>,
    other: Option<Point>,
)
    ensures
        grown(tree, windows, outer, config, false, cursor) == grown(
            tree,
            windows,
            outer,
            config,
            false,
            other,
        ),
    decreases windows.len(),
{
    if windows.len() > 0 {
        lemma_cursor_does_not_count(tree, windows.drop_last(), outer, config, cursor, other);
    }
}

/// Where splits are not smart, the cursor has no part in the layout. Where they are, it has one only if
/// exactly one window is new to the layout.
pub proof fn cursor_counts_for_one_new_window(
    outer: Rect,
    windows: Seq<WindowHandle>,
    config: LayoutConfig,
    cursor: Option<Point>,
    other: Option<Point>,
    splits: Seq<DwindleSplit>,
)
    requires
        !config.smart_split || missing_count(remembered_tree(windows, splits), windows) != 1,
    ensures
        dwindle_tree(outer, windows, config, cursor, splits) == dwindle_tree(
            outer,
            windows,
            config,
            other,
            splits,
        ),
{
    lemma_cursor_does_not_count(
        remembered_tree(windows, splits),
        windows,
        outer,
        config,
        cursor,
        other,
    );
}

/// A window that joins a dwindle layout splits the tile it joins, at the edge that the tile's shape or the
/// cursor decides, and the windows that are there already stay.
pub proof fn joining_window_splits_a_tile(
    tree: DwindleTree,
    windows: Seq<WindowHandle>,
    window: WindowHandle,
    outer: Rect,
    config: LayoutConfig,
    smart: bool,
    cursor: Option<Point>,
)
    ensures
        ({
            let before = grown(tree, windows, outer, config, smart, cursor);
            let after = grown(tree, windows.push(window), outer, config, smart, cursor);
            let target = split_target(before.tiles(outer, config), smart, cursor);
            &&& before.holds(window) ==> after == before
            &&& !before.holds(window) ==> after == before.with_split(
                DwindleSplit {
                    target: target.window,
                    new_window: window,
                    direction: split_edge(
                        target.rect,
                        config,
                        if smart {
                            cursor
                        } else {
                            None
                        },
                    ),
                },
            )
            &&& grown(tree, Seq::empty(), outer, config, smart, cursor) == tree
        }),
{
    assert(windows.push(window).drop_last() =~= windows);
}

/// A split puts the window that joins beside the one it splits, in its part of the tree; the others stay
/// where they are. A window that is there already is not put in again.
pub proof fn split_puts_the_window_beside_its_target(split: DwindleSplit, other: WindowHandle)
    requires
        other != split.target,
        other != split.new_window,
        split.target != split.new_window,
    ensures
        DwindleTree::Leaf(split.target).with_split(split) == (DwindleTree::Split {
            direction: split.direction,
            existing: Box::new(DwindleTree::Leaf(split.target)),
            new: Box::new(DwindleTree::Leaf(split.new_window)),
        }),
        DwindleTree::Leaf(other).with_split(split) == DwindleTree::Leaf(other),
        DwindleTree::Leaf(split.new_window).with_split(split) == DwindleTree::Leaf(split.new_window),
{
}

/// The first window of a layout that is remembered is one that other windows joined and that joined none;
/// without a memory it is the first in the order.
pub proof fn first_window_joined_none(windows: Seq<WindowHandle>, splits: Seq<DwindleSplit>)
    requires
        windows.len() > 0,
    ensures
        splits.len() == 0 ==> root_of(windows, splits) == windows[0],
        splits.len() > 0 && (forall|i: int|
            0 <= i < splits.len() ==> (#[trigger] splits[i]).new_window != splits[0].target) ==> root_of(
            windows,
            splits,
        ) == splits[0].target,
        root_of(windows, splits) != windows[0] ==> forall|i: int|
            0 <= i < splits.len() ==> (#[trigger] splits[i]).new_window != root_of(windows, splits),
{
    lemma_root(splits, 0);
}

proof fn lemma_root(splits: Seq<DwindleSplit>, from: int)
    requires
        0 <= from <= splits.len(),
    ensures
        root_target(splits, from) matches Some(root) ==> never_new(splits, root),
    decreases splits.len() - from,
{
    if from < splits.len() {
        lemma_root(splits, from + 1);
    }
}

} // verus!
