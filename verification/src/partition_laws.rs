//! That the tiles of a layout without gaps and borders partition the work area.

use vstd::prelude::*;

use crate::dwindle::{cut, dwindle_tree, dwindled, window_ranks, DwindleSplit, DwindleTree};
use crate::dwindle_geometry::{cut_divides_the_rect, has_room, measurable};
use crate::geometry::{Point, Rect, TileAssignment, WindowHandle};
use crate::layout::{column, row, LayoutConfig, LayoutKind};
use crate::order::{
    comes_before, lemma_order_exists, lemma_order_reaches_all, lemma_stable_order, sorted_stably,
};
use crate::stack::{
    columns_fill_the_area, lemma_stack_part, master_part, master_stack, rows_fill_the_area,
    stack_part, stacked, StackAxis,
};
use crate::tile::laid_out;

verus! {

/// Whether one of the tiles covers the pixel `(x, y)`.
pub open spec fn some_covers(tiles: Seq<TileAssignment>, x: int, y: int) -> bool {
    exists|i: int| 0 <= i < tiles.len() && (#[trigger] tiles[i]).rect.covers(x, y)
}

/// Whether the tile at a place covers the pixel `(x, y)`, and no other one does.
pub open spec fn alone_covers(tiles: Seq<TileAssignment>, i: int, x: int, y: int) -> bool {
    &&& 0 <= i < tiles.len()
    &&& tiles[i].rect.covers(x, y)
    &&& forall|j: int| 0 <= j < tiles.len() && (#[trigger] tiles[j]).rect.covers(x, y) ==> j == i
}

/// Whether exactly one of the tiles covers the pixel `(x, y)`.
pub open spec fn one_covers(tiles: Seq<TileAssignment>, x: int, y: int) -> bool {
    exists|i: int| alone_covers(tiles, i, x, y)
}

/// Whether a pixel that an area covers is covered by exactly one tile, and another one by none.
pub open spec fn shares_pixel(tiles: Seq<TileAssignment>, area: Rect, x: int, y: int) -> bool {
    if area.covers(x, y) {
        one_covers(tiles, x, y)
    } else {
        !some_covers(tiles, x, y)
    }
}

/// The tiles of two areas, of which at most one covers the pixel, share the pixel as the areas do.
proof fn lemma_joined_tiles(
    a: Seq<TileAssignment>,
    first: Rect,
    b: Seq<TileAssignment>,
    second: Rect,
    area: Rect,
    x: int,
    y: int,
)
    requires
        shares_pixel(a, first, x, y),
        shares_pixel(b, second, x, y),
        !(first.covers(x, y) && second.covers(x, y)),
        area.covers(x, y) <==> first.covers(x, y) || second.covers(x, y),
    ensures
        shares_pixel(a + b, area, x, y),
{
    let all = a + b;
    assert forall|i: int| 0 <= i < all.len() && (#[trigger] all[i]).rect.covers(x, y) implies if i
        < a.len() {
        a[i].rect.covers(x, y)
    } else {
        b[i - a.len()].rect.covers(x, y)
    } by {}
    if first.covers(x, y) {
        let i = choose|i: int| alone_covers(a, i, x, y);
        assert(all[i] == a[i]);
        assert forall|j: int| 0 <= j < all.len() && (#[trigger] all[j]).rect.covers(x, y) implies j
            == i by {
            if j >= a.len() {
                assert(b[j - a.len()].rect.covers(x, y));
            } else {
                assert(a[j].rect.covers(x, y));
            }
        }
        assert(alone_covers(all, i, x, y));
    } else if second.covers(x, y) {
        let k = choose|i: int| alone_covers(b, i, x, y);
        let i = a.len() + k;
        assert(all[i] == b[k]);
        assert forall|j: int| 0 <= j < all.len() && (#[trigger] all[j]).rect.covers(x, y) implies j
            == i by {
            if j >= a.len() {
                assert(b[j - a.len()].rect.covers(x, y));
            } else {
                assert(a[j].rect.covers(x, y));
            }
        }
        assert(alone_covers(all, i, x, y));
    } else if some_covers(all, x, y) {
        let i = choose|i: int| 0 <= i < all.len() && (#[trigger] all[i]).rect.covers(x, y);
        if i < a.len() {
            assert(a[i].rect.covers(x, y));
        } else {
            assert(b[i - a.len()].rect.covers(x, y));
        }
    }
}

/// The tiles of a tree without gaps share the pixels of the rectangle that the tree takes.
proof fn lemma_tree_shares(tree: DwindleTree, rect: Rect, config: LayoutConfig, x: int, y: int)
    requires
        measurable(rect),
        config.is_normal(),
        config.gap == 0,
    ensures
        shares_pixel(tree.tiles(rect, config), rect, x, y),
    decreases tree,
{
    match tree {
        DwindleTree::Leaf(_) => {
            let tiles = tree.tiles(rect, config);
            assert(tiles[0].rect == rect);
            if rect.covers(x, y) {
                assert(alone_covers(tiles, 0, x, y));
            }
        },
        DwindleTree::Split { direction, existing, new } => {
            let parts = cut(rect, direction, config);
            if has_room(rect, direction, config) {
                cut_divides_the_rect(rect, direction, config);
            }
            lemma_tree_shares(*existing, parts.0, config, x, y);
            lemma_tree_shares(*new, parts.1, config, x, y);
            assert(!(parts.0.covers(x, y) && parts.1.covers(x, y)));
            lemma_joined_tiles(
                existing.tiles(parts.0, config),
                parts.0,
                new.tiles(parts.1, config),
                parts.1,
                rect,
                x,
                y,
            );
        },
    }
}

/// A list of the same rectangles in another order shares the pixels as the list does.
proof fn lemma_reordered_tiles(
    tiles: Seq<TileAssignment>,
    placed: Seq<TileAssignment>,
    keys: Seq<int>,
    order: Seq<int>,
    area: Rect,
    x: int,
    y: int,
)
    requires
        shares_pixel(tiles, area, x, y),
        keys.len() == tiles.len(),
        crate::order::stably_sorts(order, keys),
        placed.len() == tiles.len(),
        forall|i: int| 0 <= i < placed.len() ==> (#[trigger] placed[i]).rect == tiles[order[i]].rect,
    ensures
        shares_pixel(placed, area, x, y),
{
    if area.covers(x, y) {
        let k = choose|i: int| alone_covers(tiles, i, x, y);
        lemma_order_reaches_all(order, keys, k);
        let i = order.index_of(k);
        assert(placed[i].rect == tiles[k].rect);
        assert forall|j: int| 0 <= j < placed.len() && (#[trigger] placed[j]).rect.covers(x, y) implies j
            == i by {
            assert(tiles[order[j]].rect.covers(x, y));
            if j < i {
                assert(comes_before(keys, order[j], order[i]));
            } else if i < j {
                assert(comes_before(keys, order[i], order[j]));
            }
        }
        assert(alone_covers(placed, i, x, y));
    } else if some_covers(placed, x, y) {
        let i = choose|i: int| 0 <= i < placed.len() && (#[trigger] placed[i]).rect.covers(x, y);
        assert(tiles[order[i]].rect.covers(x, y));
    }
}

proof fn lemma_whole(rect: Rect)
    ensures
        rect.shrunk(0) == rect,
{
}

/// A pixel of an area is in one of its rows.
proof fn lemma_row_at(area: Rect, count: int, y: int, last: int) -> (i: int)
    requires
        !area.covers_nothing(),
        measurable(area),
        0 <= last < count,
        area.top <= y < row(area, count, 0, last).bottom,
    ensures
        0 <= i <= last,
        row(area, count, 0, i).top <= y < row(area, count, 0, i).bottom,
    decreases last,
{
    rows_fill_the_area(area, count, 0);
    if row(area, count, 0, last).top <= y {
        last
    } else {
        assert(row(area, count, 0, 0).top == area.top);
        assert(row(area, count, 0, last - 1).bottom + 0 == row(area, count, 0, last).top);
        lemma_row_at(area, count, y, last - 1)
    }
}

/// A pixel of an area is in one of its columns.
proof fn lemma_column_at(area: Rect, count: int, x: int, last: int) -> (i: int)
    requires
        !area.covers_nothing(),
        measurable(area),
        0 <= last < count,
        area.left <= x < column(area, count, 0, last).right,
    ensures
        0 <= i <= last,
        column(area, count, 0, i).left <= x < column(area, count, 0, i).right,
    decreases last,
{
    columns_fill_the_area(area, count, 0);
    if column(area, count, 0, last).left <= x {
        last
    } else {
        assert(column(area, count, 0, 0).left == area.left);
        assert(column(area, count, 0, last - 1).right + 0 == column(area, count, 0, last).left);
        lemma_column_at(area, count, x, last - 1)
    }
}

/// Tiles that are the rows of an area share its pixels.
proof fn lemma_rows_share(tiles: Seq<TileAssignment>, area: Rect, x: int, y: int)
    requires
        !area.covers_nothing(),
        measurable(area),
        tiles.len() > 0,
        forall|i: int|
            0 <= i < tiles.len() ==> (#[trigger] tiles[i]).rect == row(
                area,
                tiles.len() as int,
                0,
                i,
            ),
    ensures
        shares_pixel(tiles, area, x, y),
{
    let count = tiles.len() as int;
    rows_fill_the_area(area, count, 0);
    if area.covers(x, y) {
        let i = lemma_row_at(area, count, y, count - 1);
        assert(tiles[i].rect.covers(x, y));
        assert forall|j: int| 0 <= j < tiles.len() && (#[trigger] tiles[j]).rect.covers(x, y) implies j
            == i by {
            if j < i {
                assert(row(area, count, 0, j).bottom + 0 <= row(area, count, 0, i).top);
            } else if i < j {
                assert(row(area, count, 0, i).bottom + 0 <= row(area, count, 0, j).top);
            }
        }
        assert(alone_covers(tiles, i, x, y));
    } else if some_covers(tiles, x, y) {
        let i = choose|i: int| 0 <= i < tiles.len() && (#[trigger] tiles[i]).rect.covers(x, y);
        assert(row(area, count, 0, i).within(area));
    }
}

/// Tiles that are the columns of an area share its pixels.
proof fn lemma_columns_share(tiles: Seq<TileAssignment>, area: Rect, x: int, y: int)
    requires
        !area.covers_nothing(),
        measurable(area),
        tiles.len() > 0,
        forall|i: int|
            0 <= i < tiles.len() ==> (#[trigger] tiles[i]).rect == column(
                area,
                tiles.len() as int,
                0,
                i,
            ),
    ensures
        shares_pixel(tiles, area, x, y),
{
    let count = tiles.len() as int;
    columns_fill_the_area(area, count, 0);
    if area.covers(x, y) {
        let i = lemma_column_at(area, count, x, count - 1);
        assert(tiles[i].rect.covers(x, y));
        assert forall|j: int| 0 <= j < tiles.len() && (#[trigger] tiles[j]).rect.covers(x, y) implies j
            == i by {
            if j < i {
                assert(column(area, count, 0, j).right + 0 <= column(area, count, 0, i).left);
            } else if i < j {
                assert(column(area, count, 0, i).right + 0 <= column(area, count, 0, j).left);
            }
        }
        assert(alone_covers(tiles, i, x, y));
    } else if some_covers(tiles, x, y) {
        let i = choose|i: int| 0 <= i < tiles.len() && (#[trigger] tiles[i]).rect.covers(x, y);
        assert(column(area, count, 0, i).within(area));
    }
}

proof fn lemma_one_tile(tiles: Seq<TileAssignment>, area: Rect, x: int, y: int)
    requires
        tiles.len() == 1,
        tiles[0].rect == area,
    ensures
        shares_pixel(tiles, area, x, y),
{
    if area.covers(x, y) {
        assert(alone_covers(tiles, 0, x, y));
    }
}

proof fn lemma_master_stack_shares(
    work_area: Rect,
    windows: Seq<WindowHandle>,
    config: LayoutConfig,
    x: int,
    y: int,
)
    requires
        !work_area.covers_nothing(),
        measurable(work_area),
        windows.len() > 1,
        config.gap <= 0,
        config.border <= 0,
    ensures
        shares_pixel(master_stack(work_area, windows, config), work_area, x, y),
{
    let normal = config.spec_normalized();
    let placed = master_stack(work_area, windows, config);
    let master = master_part(work_area, normal);
    let stack = stack_part(work_area, normal);
    lemma_whole(work_area);
    lemma_whole(master);
    lemma_stack_part(work_area, normal);
    let first = seq![placed[0]];
    let rest = placed.skip(1);
    assert forall|i: int| 0 <= i < rest.len() implies (#[trigger] rest[i]).rect == row(
        stack,
        rest.len() as int,
        0,
        i,
    ) by {
        assert(rest[i] == placed[i + 1]);
        lemma_whole(row(stack, rest.len() as int, 0, i));
    }
    lemma_one_tile(first, master, x, y);
    lemma_rows_share(rest, stack, x, y);
    lemma_joined_tiles(first, master, rest, stack, work_area, x, y);
    assert(placed =~= first + rest);
}

proof fn lemma_dwindle_shares(
    work_area: Rect,
    windows: Seq<WindowHandle>,
    config: LayoutConfig,
    cursor_position: Option<Point>,
    splits: Seq<DwindleSplit>,
    x: int,
    y: int,
)
    requires
        !work_area.covers_nothing(),
        measurable(work_area),
        windows.len() > 1,
        config.gap <= 0,
        config.border <= 0,
    ensures
        shares_pixel(dwindled(work_area, windows, config, cursor_position, splits), work_area, x, y),
{
    let normal = config.spec_normalized();
    let placed = dwindled(work_area, windows, config, cursor_position, splits);
    lemma_whole(work_area);
    let tree = dwindle_tree(work_area, windows, normal, cursor_position, splits);
    let tiles = tree.tiles(work_area, normal);
    lemma_tree_shares(tree, work_area, normal, x, y);
    let ranks = window_ranks(tiles, windows);
    let order = lemma_order_exists(ranks);
    lemma_stable_order(order, ranks);
    let sorted = sorted_stably(tiles, ranks);
    assert forall|i: int| 0 <= i < placed.len() implies (#[trigger] placed[i]).rect
        == tiles[order[i]].rect by {
        assert(sorted[i] == tiles[order[i]]);
        lemma_whole(sorted[i].rect);
    }
    lemma_reordered_tiles(tiles, placed, ranks, order, work_area, x, y);
}

/// In a layout without gaps and borders, every pixel of the work area is covered by exactly one tile,
/// and no pixel outside by any. Where several windows share the area, or it is a plain stack, its
/// extents have to fit a coordinate.
pub proof fn tiles_partition_the_work_area(
    work_area: Rect,
    windows: Seq<WindowHandle>,
    config: LayoutConfig,
    cursor_position: Option<Point>,
    splits: Seq<DwindleSplit>,
    x: int,
    y: int,
)
    requires
        !work_area.covers_nothing(),
        windows.len() > 0,
        config.gap <= 0,
        config.border <= 0,
        measurable(work_area) || (windows.len() == 1 && (config.kind is MasterStack
            || config.kind is Dwindle)),
    ensures
        ({
            let tiles = laid_out(work_area, windows, config, cursor_position, splits);
            if work_area.covers(x, y) {
                one_covers(tiles, x, y)
            } else {
                !some_covers(tiles, x, y)
            }
        }),
{
    let tiles = laid_out(work_area, windows, config, cursor_position, splits);
    lemma_whole(work_area);
    match config.kind {
        LayoutKind::MasterStack => if windows.len() == 1 {
            lemma_one_tile(tiles, work_area, x, y);
        } else {
            lemma_master_stack_shares(work_area, windows, config, x, y);
        },
        LayoutKind::Dwindle => if windows.len() == 1 {
            lemma_one_tile(tiles, work_area, x, y);
        } else {
            lemma_dwindle_shares(work_area, windows, config, cursor_position, splits, x, y);
        },
        LayoutKind::VerticalStack => {
            assert(tiles == stacked(work_area, windows, config, StackAxis::Rows));
            assert forall|i: int| 0 <= i < tiles.len() implies (#[trigger] tiles[i]).rect == row(
                work_area,
                tiles.len() as int,
                0,
                i,
            ) by {
                lemma_whole(row(work_area, tiles.len() as int, 0, i));
            }
            lemma_rows_share(tiles, work_area, x, y);
        },
        LayoutKind::HorizontalStack => {
            assert(tiles == stacked(work_area, windows, config, StackAxis::Columns));
            assert forall|i: int| 0 <= i < tiles.len() implies (#[trigger] tiles[i]).rect == column(
                work_area,
                tiles.len() as int,
                0,
                i,
            ) by {
                lemma_whole(column(work_area, tiles.len() as int, 0, i));
            }
            lemma_columns_share(tiles, work_area, x, y);
        },
    }
}

} // verus!
